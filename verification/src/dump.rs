//! A matched pair of pictures of one frame, before and after composition.

use vstd::prelude::*;
use vstd::string::*;

verus! {

/// A path with a name added.
pub open spec fn joined(base: Seq<char>, name: Seq<char>) -> Seq<char> {
    if base.len() > 0 && base.last() != '/' {
        base + "/"@ + name
    } else {
        base + name
    }
}

/// The directory of the user's data: the one that is configured, else the usual one under the home
/// directory.
pub open spec fn data_directory(data_home: Option<Seq<char>>, home: Option<Seq<char>>) -> Seq<char> {
    match data_home {
        Some(d) if d.len() > 0 => d,
        _ => match home {
            Some(h) => h + "/.local/share"@,
            None => "/"@ + "/.local/share"@,
        },
    }
}

fn join(base: &str, name: &str) -> (path: String)
    ensures
        path@ == joined(base@, name@),
{
    let length: usize = base.unicode_len();
    let mut path: String = base.to_owned();
    if length > 0 && base.get_char(length - 1) != '/' {
        path.append("/");
    }
    path.append(name);
    path
}

/// The view of an optional text.
pub open spec fn optional(text: Option<&str>) -> Option<Seq<char>> {
    match text {
        Some(t) => Some(t@),
        None => None,
    }
}

/// The directory that the pictures go to.
pub fn captures_dir(data_home: Option<&str>, home: Option<&str>) -> (directory: String)
    ensures
        directory@ == joined(
            joined(data_directory(optional(data_home), optional(home)), "neuralforge"@),
            "captures"@,
        ),
{
    let configured: Option<&str> = match data_home {
        Some(d) => if d.is_empty() {
            None
        } else {
            Some(d)
        },
        None => None,
    };
    let base: String = match configured {
        Some(d) => d.to_owned(),
        None => {
            let mut usual: String = match home {
                Some(h) => h.to_owned(),
                None => "/".to_owned(),
            };
            usual.append("/.local/share");
            usual
        },
    };
    let own: String = join(base.as_str(), "neuralforge");
    join(own.as_str(), "captures")
}

/// One byte of a picture: pixels are made opaque, and their red and blue change places where the
/// frame has them the other way round. Bytes behind the last whole pixel stay as they are.
pub open spec fn picture_byte(frame: Seq<u8>, bgr_order: bool, i: int) -> u8 {
    if i - i % 4 + 4 > frame.len() {
        frame[i]
    } else if i % 4 == 3 {
        255
    } else if bgr_order && i % 4 == 0 {
        frame[i + 2]
    } else if bgr_order && i % 4 == 2 {
        frame[i - 2]
    } else {
        frame[i]
    }
}

/// A frame as a picture.
pub open spec fn picture(frame: Seq<u8>, bgr_order: bool) -> Seq<u8> {
    Seq::new(frame.len(), |i: int| picture_byte(frame, bgr_order, i))
}

/// A frame as a picture: opaque, with red first.
pub fn opaque_rgba(frame: &[u8], bgr_order: bool) -> (bytes: Vec<u8>)
    ensures
        bytes@ == picture(frame@, bgr_order),
{
    let mut bytes: Vec<u8> = Vec::new();
    let length: usize = frame.len();
    let whole: usize = length - length % 4;
    let mut i: usize = 0;
    while i < length
        invariant
            i <= length,
            length == frame@.len(),
            whole == length - length % 4,
            bytes@.len() == i,
            forall|k: int| 0 <= k < i ==> #[trigger] bytes@[k] == picture_byte(frame@, bgr_order, k),
        decreases length - i,
    {
        let b: u8 = if i >= whole {
            frame[i]
        } else if i % 4 == 3 {
            255
        } else if bgr_order && i % 4 == 0 {
            frame[i + 2]
        } else if bgr_order && i % 4 == 2 {
            frame[i - 2]
        } else {
            frame[i]
        };
        bytes.push(b);
        i += 1;
    }
    assert(bytes@ =~= picture(frame@, bgr_order));
    bytes
}

/// What the PNG encoder writes for an image of eight bits a channel with an alpha channel.
pub uninterp spec fn png_written(pixels: Seq<u8>, width: u32, height: u32) -> Seq<u8>;

/// Whether an image can be encoded: it has pixels, and as many bytes as they take.
pub open spec fn is_image(length: int, width: u32, height: u32) -> bool {
    width > 0 && height > 0 && length == width * height * 4
}

/// `png::Encoder` with colour type RGBA and bit depth eight: `write_header`, then `write_image_data`
/// and the end of the file when the writer is dropped. What is written, as far as it gets, is a
/// function of the pixels and the size alone. It succeeds exactly for images with pixels and four
/// bytes for each: the header is refused for an edge of zero, the data for any other length, and
/// writing to memory does not fail. The length is computed in `usize`.
#[verifier::external_body]
fn write_png(pixels: &[u8], width: u32, height: u32) -> (written: (bool, Vec<u8>))
    requires
        width * height * 4 <= usize::MAX,
    ensures
        written.0 == is_image(pixels@.len() as int, width, height),
        written.1@ == png_written(pixels@, width, height),
{
    let mut bytes: Vec<u8> = Vec::new();
    let mut encoder = png::Encoder::new(&mut bytes, width, height);
    encoder.set_color(png::ColorType::Rgba);
    encoder.set_depth(png::BitDepth::Eight);
    let ok = match encoder.write_header() {
        Ok(mut writer) => writer.write_image_data(pixels).is_ok(),
        Err(_) => false,
    };
    (ok, bytes)
}

/// A picture to be written to a file.
pub struct PictureFile {
    pub path: String,
    pub bytes: Vec<u8>,
    /// The picture is whole.
    pub ok: bool,
}

/// The picture of a frame.
pub fn frame_picture(
    frame: &[u8],
    width: u32,
    height: u32,
    bgr_order: bool,
    directory: &str,
    name: &str,
) -> (file: PictureFile)
    requires
        width * height * 4 <= usize::MAX,
    ensures
        file.path@ == joined(directory@, name@),
        file.bytes@ == png_written(picture(frame@, bgr_order), width, height),
        file.ok == is_image(frame@.len() as int, width, height),
{
    let pixels: Vec<u8> = opaque_rgba(frame, bgr_order);
    let (ok, bytes) = write_png(pixels.as_slice(), width, height);
    PictureFile { path: join(directory, name), bytes, ok }
}

/// The pictures of a frame before and after composition, named by one time stamp.
pub fn write_pair(
    original: &[u8],
    composited: &[u8],
    width: u32,
    height: u32,
    bgr_order: bool,
    directory: &str,
    stamp: &str,
) -> (pair: (PictureFile, PictureFile))
    requires
        width * height * 4 <= usize::MAX,
    ensures
        pair.0.path@ == joined(directory@, stamp@ + "-original.png"@),
        pair.0.bytes@ == png_written(picture(original@, bgr_order), width, height),
        pair.0.ok == is_image(original@.len() as int, width, height),
        pair.1.path@ == joined(directory@, stamp@ + "-composited.png"@),
        pair.1.bytes@ == png_written(picture(composited@, bgr_order), width, height),
        pair.1.ok == is_image(composited@.len() as int, width, height),
{
    let mut before: String = stamp.to_owned();
    before.append("-original.png");
    let mut after: String = stamp.to_owned();
    after.append("-composited.png");
    let first: PictureFile = frame_picture(original, width, height, bgr_order, directory, before.as_str());
    let second: PictureFile = frame_picture(composited, width, height, bgr_order, directory, after.as_str());
    (first, second)
}

/// A picture keeps the size of its frame, and every whole pixel of it is opaque.
pub proof fn pictures_are_opaque(frame: Seq<u8>, bgr_order: bool, pixel: int)
    requires
        0 <= pixel,
        4 * pixel + 4 <= frame.len(),
    ensures
        picture(frame, bgr_order).len() == frame.len(),
        picture(frame, bgr_order)[4 * pixel + 3] == 255,
        picture(frame, bgr_order)[4 * pixel + 1] == frame[4 * pixel + 1],
{
}

/// Two frames that differ only in the order of red and blue give the same picture.
pub proof fn the_channel_order_does_not_show(rgb: Seq<u8>, bgr: Seq<u8>)
    requires
        rgb.len() == bgr.len(),
        rgb.len() % 4 == 0,
        forall|p: int|
            0 <= p && 4 * p + 4 <= rgb.len() ==> #[trigger] bgr[4 * p] == rgb[4 * p + 2] && bgr[4 * p + 1] == rgb[4 * p
                + 1] && bgr[4 * p + 2] == rgb[4 * p],
    ensures
        picture(rgb, false) == picture(bgr, true),
{
    assert forall|i: int| 0 <= i < rgb.len() implies picture_byte(rgb, false, i) == #[trigger] picture_byte(
        bgr,
        true,
        i,
    ) by {
        let p = i / 4;
        assert(i == 4 * p + i % 4);
        assert(bgr[4 * p] == rgb[4 * p + 2]);
    }
    assert(picture(rgb, false) =~= picture(bgr, true));
}

/// A picture has red first, whichever way round the frame has it, keeps green, and is opaque; what is
/// left behind the last whole pixel is kept.
pub proof fn a_picture_has_red_first(frame: Seq<u8>, bgr_order: bool, pixel: int)
    requires
        0 <= pixel,
    ensures
        ({
            let at = 4 * pixel;
            let shown = picture(frame, bgr_order);
            &&& shown.len() == frame.len()
            &&& at + 4 <= frame.len() && !bgr_order ==> shown.subrange(at, at + 4) == seq![
                frame[at],
                frame[at + 1],
                frame[at + 2],
                255u8,
            ]
            &&& at + 4 <= frame.len() && bgr_order ==> shown.subrange(at, at + 4) == seq![
                frame[at + 2],
                frame[at + 1],
                frame[at],
                255u8,
            ]
            &&& at < frame.len() < at + 4 ==> shown.skip(at) == frame.skip(at)
        }),
{
    let at = 4 * pixel;
    let shown = picture(frame, bgr_order);
    if at < frame.len() < at + 4 {
        assert(shown.skip(at) =~= frame.skip(at));
    }
}

/// Whether an image can be encoded, counted in pixels.
pub proof fn an_image_has_four_bytes_a_pixel(length: int, width: u32, height: u32)
    requires
        length >= 0,
    ensures
        is_image(length, width, height) <==> length > 0 && length == 4 * (width * height),
{
    assert(width == 0 || height == 0 ==> width * height == 0) by (nonlinear_arith);
    assert(width > 0 && height > 0 ==> width * height > 0) by (nonlinear_arith);
}

/// The pictures go to `neuralforge/captures` under the configured data directory, and where none is
/// configured or it is empty, under `.local/share` in the home directory.
pub proof fn captures_go_to_the_data_directory(data: Seq<char>, home: Seq<char>)
    ensures
        data.len() > 0 && data.last() != '/' ==> joined(
            joined(data_directory(Some(data), Some(home)), "neuralforge"@),
            "captures"@,
        ) == data + "/neuralforge/captures"@,
        data.len() > 0 && data.last() == '/' ==> joined(
            joined(data_directory(Some(data), Some(home)), "neuralforge"@),
            "captures"@,
        ) == data + "neuralforge/captures"@,
        joined(joined(data_directory(None, Some(home)), "neuralforge"@), "captures"@) == home
            + "/.local/share/neuralforge/captures"@,
        data_directory(Some(Seq::empty()), Some(home)) == data_directory(None, Some(home)),
        data_directory(Some(data), None) == data_directory(Some(data), Some("/"@)),
{
    reveal_strlit("/");
    reveal_strlit("neuralforge");
    reveal_strlit("captures");
    reveal_strlit("/.local/share");
    reveal_strlit("/.local/share/neuralforge/captures");
    reveal_strlit("/neuralforge/captures");
    reveal_strlit("neuralforge/captures");
    let a = joined(joined(data_directory(Some(data), Some(home)), "neuralforge"@), "captures"@);
    if data.len() > 0 && data.last() != '/' {
        assert(a =~= data + "/neuralforge/captures"@);
    }
    if data.len() > 0 && data.last() == '/' {
        assert(a =~= data + "neuralforge/captures"@);
    }
    let b = joined(joined(data_directory(None, Some(home)), "neuralforge"@), "captures"@);
    assert((home + "/.local/share"@).last() == 'e');
    assert(b =~= home + "/.local/share/neuralforge/captures"@);
}

} // verus!
