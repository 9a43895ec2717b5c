//! The encoding of a frame for the model: which curve it takes, and how an encoded frame is checked
//! against the curve. The arithmetic of the curves comes from the caller.

use vstd::prelude::*;

verus! {

/// A curve that brings a frame into range.
#[derive(Clone, Copy, Debug, PartialEq, Eq, Structural)]
pub enum Curve {
    /// A soft knee on the luminance.
    Knee,
    /// An unclipped curve on the brightest channel.
    Neutwo,
    /// As it is below the knee, and unclipped above it.
    Hybrid,
}

/// The curve of a mode, where `knee` and `hybrid` are the numbers of those two: every mode from
/// `hybrid` on is hybrid.
pub fn curve_for(mode: u32, knee: u32, hybrid: u32) -> (curve: Curve)
    ensures
        curve == (if mode == knee {
            Curve::Knee
        } else if mode >= hybrid {
            Curve::Hybrid
        } else {
            Curve::Neutwo
        }),
{
    if mode == knee {
        Curve::Knee
    } else if mode >= hybrid {
        Curve::Hybrid
    } else {
        Curve::Neutwo
    }
}

/// `out` is a pixel encoded: its colours, taken in the order red, green, blue, are what `encode`
/// gives for them, put back in their places, and its alpha is unchanged.
pub open spec fn is_encoded<F: Fn([u8; 3]) -> [u8; 3]>(
    encode: F,
    pixel: [u8; 4],
    bgr_order: bool,
    out: [u8; 4],
) -> bool {
    &&& out[3] == pixel[3]
    &&& exists|colour: [u8; 3], result: [u8; 3]|
        {
            &&& #[trigger] call_ensures(encode, (colour,), result)
            &&& colour[1] == pixel[1] && out[1] == result[1]
            &&& if bgr_order {
                colour[0] == pixel[2] && colour[2] == pixel[0] && out[2] == result[0] && out[0] == result[2]
            } else {
                colour[0] == pixel[0] && colour[2] == pixel[2] && out[0] == result[0] && out[2] == result[2]
            }
        }
}

/// Encodes one pixel.
pub fn reference_encode_pixel<F: Fn([u8; 3]) -> [u8; 3]>(pixel: [u8; 4], bgr_order: bool, encode: &F) -> (out: [u8; 4])
    requires
        forall|colour: [u8; 3]| call_requires(*encode, (colour,)),
    ensures
        is_encoded(*encode, pixel, bgr_order, out),
{
    let colour: [u8; 3] = if bgr_order {
        [pixel[2], pixel[1], pixel[0]]
    } else {
        [pixel[0], pixel[1], pixel[2]]
    };
    let result: [u8; 3] = encode(colour);
    let out: [u8; 4] = if bgr_order {
        [result[2], result[1], result[0], pixel[3]]
    } else {
        [result[0], result[1], result[2], pixel[3]]
    };
    assert(call_ensures(*encode, (colour,), result));
    out
}

/// `pixel` in the other byte order: its first and third channel change places.
pub open spec fn is_reversed(pixel: [u8; 4], other: [u8; 4]) -> bool {
    other[0] == pixel[2] && other[1] == pixel[1] && other[2] == pixel[0] && other[3] == pixel[3]
}

/// Byte order changes where a channel is stored, and never its value: what a pixel encodes to in one
/// byte order, in the other byte order, is what the pixel in the other byte order encodes to there, and
/// nothing else is. Alpha is left alone.
pub proof fn the_byte_order_does_not_change_a_value<F: Fn([u8; 3]) -> [u8; 3]>(
    encode: F,
    rgb: [u8; 4],
    bgr: [u8; 4],
    out: [u8; 4],
    out_bgr: [u8; 4],
)
    requires
        is_reversed(rgb, bgr),
        is_reversed(out, out_bgr),
    ensures
        is_encoded(encode, rgb, false, out) <==> is_encoded(encode, bgr, true, out_bgr),
        is_encoded(encode, rgb, false, out) ==> out[3] == rgb[3] && out_bgr[3] == rgb[3],
{
}

/// A pixel in the order blue, green, red encodes to the very bytes that the same pixel in the order
/// red, green, blue encodes to, in its own order, where the curve is a function.
pub proof fn the_byte_order_moves_the_channels<F: Fn([u8; 3]) -> [u8; 3]>(
    encode: F,
    rgb: [u8; 4],
    bgr: [u8; 4],
    out: [u8; 4],
    out_bgr: [u8; 4],
)
    requires
        forall|colour: [u8; 3], one: [u8; 3], other: [u8; 3]|
            #[trigger] call_ensures(encode, (colour,), one) && #[trigger] call_ensures(encode, (colour,), other) ==> one
                == other,
        is_reversed(rgb, bgr),
        is_encoded(encode, rgb, false, out),
        is_encoded(encode, bgr, true, out_bgr),
    ensures
        out[3] == rgb[3],
        out_bgr[0] == out[2],
        out_bgr[1] == out[1],
        out_bgr[2] == out[0],
        out_bgr[3] == rgb[3],
{
    let (c1, r1) = choose|colour: [u8; 3], result: [u8; 3]|
        {
            &&& #[trigger] call_ensures(encode, (colour,), result)
            &&& colour[1] == rgb[1] && out[1] == result[1]
            &&& colour[0] == rgb[0] && colour[2] == rgb[2] && out[0] == result[0] && out[2] == result[2]
        };
    let (c2, r2) = choose|colour: [u8; 3], result: [u8; 3]|
        {
            &&& #[trigger] call_ensures(encode, (colour,), result)
            &&& colour[1] == bgr[1] && out_bgr[1] == result[1]
            &&& colour[0] == bgr[2] && colour[2] == bgr[0] && out_bgr[2] == result[0] && out_bgr[0] == result[2]
        };
    assert(c1 =~= c2);
}

/// How far two bytes are apart.
pub open spec fn distance(a: u8, b: u8) -> int {
    if a >= b {
        a - b
    } else {
        b - a
    }
}

/// The sum of the distances of the colours of the first `pixels` pixels.
pub open spec fn total_distance(want: Seq<[u8; 4]>, got: Seq<u8>, pixels: int) -> int
    decreases pixels,
{
    if pixels <= 0 {
        0
    } else {
        total_distance(want, got, pixels - 1) + distance(want[pixels - 1][0], got[4 * pixels - 4]) + distance(
            want[pixels - 1][1],
            got[4 * pixels - 3],
        ) + distance(want[pixels - 1][2], got[4 * pixels - 2])
    }
}

/// `most` is the largest distance of a colour of the first `pixels` pixels, 0 where there is none.
pub open spec fn is_largest_distance(want: Seq<[u8; 4]>, got: Seq<u8>, pixels: int, most: int) -> bool {
    &&& forall|p: int, c: int|
        0 <= p < pixels && 0 <= c < 3 ==> distance(#[trigger] want[p][c], got[4 * p + c]) <= most
    &&& most == 0 || exists|p: int, c: int|
        0 <= p < pixels && 0 <= c < 3 && distance(#[trigger] want[p][c], got[4 * p + c]) == most
}

/// What came of holding an encoded frame against the curve.
#[derive(Clone, Copy, Debug, PartialEq, Eq, Structural)]
pub struct Comparison {
    /// The largest distance of a colour.
    pub max_delta: u8,
    /// The sum of the distances of all colours.
    pub total: u64,
    pub pixels: usize,
}

/// The pixel at `p`.
pub open spec fn is_pixel(bytes: Seq<u8>, p: int, pixel: [u8; 4]) -> bool {
    pixel[0] == bytes[4 * p] && pixel[1] == bytes[4 * p + 1] && pixel[2] == bytes[4 * p + 2] && pixel[3] == bytes[4
        * p + 3]
}

/// `out` is the pixel of a frame at `p`, encoded.
pub open spec fn is_frame_pixel_encoded<F: Fn([u8; 3]) -> [u8; 3]>(
    encode: F,
    original: Seq<u8>,
    p: int,
    bgr_order: bool,
    out: [u8; 4],
) -> bool {
    exists|pixel: [u8; 4]| is_pixel(original, p, pixel) && #[trigger] is_encoded(encode, pixel, bgr_order, out)
}

/// `want` is every pixel of a frame, encoded.
pub open spec fn are_encoded<F: Fn([u8; 3]) -> [u8; 3]>(
    encode: F,
    original: Seq<u8>,
    bgr_order: bool,
    want: Seq<[u8; 4]>,
    pixels: int,
) -> bool {
    &&& want.len() == pixels
    &&& forall|p: int|
        0 <= p < pixels ==> is_frame_pixel_encoded(encode, original, p, bgr_order, #[trigger] want[p])
}

fn byte_distance(a: u8, b: u8) -> (d: u8)
    ensures
        d == distance(a, b),
{
    if a >= b {
        a - b
    } else {
        b - a
    }
}

fn larger(a: u8, b: u8) -> (m: u8)
    ensures
        m == (if a >= b {
            a
        } else {
            b
        }),
{
    if a >= b {
        a
    } else {
        b
    }
}

/// Holds an encoded frame against the curve, pixel for pixel. There is no result where the two are
/// not of one size, or have no pixel.
pub fn compare_to_reference<F: Fn([u8; 3]) -> [u8; 3]>(
    original: &[u8],
    proxy: &[u8],
    bgr_order: bool,
    encode: &F,
) -> (comparison: Option<Comparison>)
    requires
        forall|colour: [u8; 3]| call_requires(*encode, (colour,)),
        original@.len() * 255 <= u64::MAX,
    ensures
        comparison is None <==> original@.len() != proxy@.len() || original@.len() < 4,
        comparison matches Some(c) ==> c.pixels == original@.len() / 4 && exists|want: Seq<[u8; 4]>|
            {
                &&& #[trigger] are_encoded(*encode, original@, bgr_order, want, c.pixels as int)
                &&& c.total == total_distance(want, proxy@, c.pixels as int)
                &&& is_largest_distance(want, proxy@, c.pixels as int, c.max_delta as int)
            },
{
    if original.len() != proxy.len() || original.len() < 4 {
        return None;
    }
    let pixels: usize = original.len() / 4;
    let mut max_delta: u8 = 0;
    let mut total: u64 = 0;
    let ghost mut want: Seq<[u8; 4]> = Seq::empty();
    let mut p: usize = 0;
    while p < pixels
        invariant
            p <= pixels,
            pixels == original@.len() / 4,
            original@.len() == proxy@.len(),
            original@.len() <= usize::MAX,
            original@.len() * 255 <= u64::MAX,
            forall|colour: [u8; 3]| call_requires(*encode, (colour,)),
            are_encoded(*encode, original@, bgr_order, want, p as int),
            total == total_distance(want, proxy@, p as int),
            total <= 765 * p,
            is_largest_distance(want, proxy@, p as int, max_delta as int),
        decreases pixels - p,
    {
        let at: usize = 4 * p;
        let pixel: [u8; 4] = [original[at], original[at + 1], original[at + 2], original[at + 3]];
        let out: [u8; 4] = reference_encode_pixel(pixel, bgr_order, encode);
        let d0: u8 = byte_distance(out[0], proxy[at]);
        let d1: u8 = byte_distance(out[1], proxy[at + 1]);
        let d2: u8 = byte_distance(out[2], proxy[at + 2]);
        let ghost before = want;
        let ghost most = max_delta as int;
        max_delta = larger(larger(larger(max_delta, d0), d1), d2);
        total = total + d0 as u64 + d1 as u64 + d2 as u64;
        proof {
            want = want.push(out);
            assert(is_pixel(original@, p as int, pixel));
            extends(*encode, original@, proxy@, bgr_order, before, out, pixel, p as int);
            let most_now = max_delta as int;
            assert forall|q: int, c: int| 0 <= q < p + 1 && 0 <= c < 3 implies distance(
                #[trigger] want[q][c],
                proxy@[4 * q + c],
            ) <= most_now by {
                if q < p {
                    assert(want[q] == before[q]);
                    assert(distance(before[q][c], proxy@[4 * q + c]) <= most);
                }
            }
            if most_now == most && most != 0 {
                let (q, c): (int, int) = choose|q: int, c: int|
                    0 <= q < p && 0 <= c < 3 && distance(#[trigger] before[q][c], proxy@[4 * q + c]) == most;
                assert(want[q] == before[q]);
                assert(distance(want[q][c], proxy@[4 * q + c]) == most_now);
            } else if most_now != 0 {
                assert(want[p as int][0] == out[0] && want[p as int][1] == out[1] && want[p as int][2] == out[2]);
                assert(distance(want[p as int][0], proxy@[4 * p + 0]) == d0);
                assert(distance(want[p as int][1], proxy@[4 * p + 1]) == d1);
                assert(distance(want[p as int][2], proxy@[4 * p + 2]) == d2);
            }
        }
        p += 1;
    }
    assert(are_encoded(*encode, original@, bgr_order, want, pixels as int));
    Some(Comparison { max_delta, total, pixels })
}

proof fn total_of_prefix(want: Seq<[u8; 4]>, more: Seq<[u8; 4]>, got: Seq<u8>, pixels: int)
    requires
        pixels <= want.len(),
        pixels <= more.len(),
        forall|p: int| 0 <= p < pixels ==> want[p] == #[trigger] more[p],
    ensures
        total_distance(want, got, pixels) == total_distance(more, got, pixels),
    decreases pixels,
{
    if pixels > 0 {
        total_of_prefix(want, more, got, pixels - 1);
        assert(want[pixels - 1] == more[pixels - 1]);
    }
}

proof fn extends<F: Fn([u8; 3]) -> [u8; 3]>(
    encode: F,
    original: Seq<u8>,
    proxy: Seq<u8>,
    bgr_order: bool,
    want: Seq<[u8; 4]>,
    out: [u8; 4],
    pixel: [u8; 4],
    p: int,
)
    requires
        0 <= p,
        are_encoded(encode, original, bgr_order, want, p),
        is_pixel(original, p, pixel),
        is_encoded(encode, pixel, bgr_order, out),
    ensures
        are_encoded(encode, original, bgr_order, want.push(out), p + 1),
        total_distance(
            want.push(out),
            proxy,
            p + 1,
        ) == total_distance(want, proxy, p) + distance(out[0], proxy[4 * p])
            + distance(out[1], proxy[4 * p + 1]) + distance(out[2], proxy[4 * p + 2]),
{
    let more = want.push(out);
    assert forall|q: int| 0 <= q < p + 1 implies is_frame_pixel_encoded(
        encode,
        original,
        q,
        bgr_order,
        #[trigger] more[q],
    ) by {
        if q < p {
            assert(want[q] == more[q]);
        }
    }
    total_of_prefix(want, more, proxy, p);
}

/// A frame that is held against its own encoding is at no distance from it.
pub proof fn an_encoding_agrees_with_itself(want: Seq<[u8; 4]>, got: Seq<u8>, pixels: int)
    requires
        0 <= pixels <= want.len(),
        4 * pixels <= got.len(),
        forall|p: int| 0 <= p < pixels ==> is_pixel(got, p, #[trigger] want[p]),
    ensures
        total_distance(want, got, pixels) == 0,
        is_largest_distance(want, got, pixels, 0),
    decreases pixels,
{
    if pixels > 0 {
        an_encoding_agrees_with_itself(want, got, pixels - 1);
        assert(is_pixel(got, pixels - 1, want[pixels - 1]));
    }
    assert forall|p: int, c: int| 0 <= p < pixels && 0 <= c < 3 implies distance(
        #[trigger] want[p][c],
        got[4 * p + c],
    )
        <= 0 by {
        assert(is_pixel(got, p, want[p]));
        assert(c == 0 || c == 1 || c == 2);
    }
}

/// Encoding a pixel is encoding its red, green and blue, which stand in that order where the byte
/// order is not reversed and in the opposite one where it is; `f` is what the curve computes of red,
/// green and blue. Alpha stays.
pub proof fn red_is_encoded_as_red<F: Fn([u8; 3]) -> [u8; 3]>(
    encode: F,
    f: spec_fn(u8, u8, u8) -> (u8, u8, u8),
    pixel: [u8; 4],
    bgr_order: bool,
    out: [u8; 4],
)
    requires
        forall|colour: [u8; 3], result: [u8; 3]| #[trigger]
            call_ensures(encode, (colour,), result) ==> (result[0], result[1], result[2]) == f(
                colour[0],
                colour[1],
                colour[2],
            ),
        is_encoded(encode, pixel, bgr_order, out),
    ensures
        !bgr_order ==> (out[0], out[1], out[2]) == f(pixel[0], pixel[1], pixel[2]),
        bgr_order ==> (out[2], out[1], out[0]) == f(pixel[2], pixel[1], pixel[0]),
        out[3] == pixel[3],
{
}

proof fn lemma_total_folds(want: Seq<[u8; 4]>, got: Seq<u8>, pixels: int, all: Seq<int>)
    requires
        0 <= pixels,
        all.len() == 3 * pixels,
        forall|i: int|
            0 <= i < all.len() ==> #[trigger] all[i] == vstd::math::abs(want[i / 3][i % 3] - got[4 * (i / 3) + i % 3]),
    ensures
        total_distance(want, got, pixels) == all.fold_left(0, |sum: int, d: int| sum + d),
    decreases pixels,
{
    reveal(Seq::fold_left);
    reveal_with_fuel(Seq::fold_left, 4);
    let add = |sum: int, d: int| sum + d;
    if pixels > 0 {
        let n = 3 * pixels;
        let before = all.take(n - 3);
        lemma_total_folds(want, got, pixels - 1, before);
        assert(all.drop_last().drop_last().drop_last() =~= before);
        assert(all[n - 1] == distance(want[pixels - 1][2], got[4 * pixels - 2]));
        assert(all[n - 2] == distance(want[pixels - 1][1], got[4 * pixels - 3]));
        assert(all[n - 3] == distance(want[pixels - 1][0], got[4 * pixels - 4]));
    }
}

/// The distance between what was wanted and what was got is the sum, over the red, green and blue of
/// every pixel, of how far they are apart, and the largest of them is the most that any is apart. Alpha
/// does not count.
pub proof fn distances_are_taken_over_all_colours(want: Seq<[u8; 4]>, got: Seq<u8>, pixels: int, most: int)
    requires
        0 <= pixels,
    ensures
        total_distance(want, got, pixels) == Seq::new(
            (3 * pixels) as nat,
            |i: int| vstd::math::abs(want[i / 3][i % 3] - got[4 * (i / 3) + i % 3]) as int,
        ).fold_left(0, |sum: int, d: int| sum + d),
        is_largest_distance(want, got, pixels, most) ==> {
            &&& forall|p: int|
                0 <= p < pixels ==> {
                    &&& -most <= (#[trigger] want[p])[0] - got[4 * p] <= most
                    &&& -most <= want[p][1] - got[4 * p + 1] <= most
                    &&& -most <= want[p][2] - got[4 * p + 2] <= most
                }
            &&& most == 0 || exists|p: int|
                0 <= p < pixels && {
                    ||| vstd::math::abs((#[trigger] want[p])[0] - got[4 * p]) == most
                    ||| vstd::math::abs(want[p][1] - got[4 * p + 1]) == most
                    ||| vstd::math::abs(want[p][2] - got[4 * p + 2]) == most
                }
        },
{
    let all = Seq::new(
        (3 * pixels) as nat,
        |i: int| vstd::math::abs(want[i / 3][i % 3] - got[4 * (i / 3) + i % 3]) as int,
    );
    lemma_total_folds(want, got, pixels, all);
    if is_largest_distance(want, got, pixels, most) {
        assert forall|p: int| 0 <= p < pixels implies {
            &&& -most <= (#[trigger] want[p])[0] - got[4 * p] <= most
            &&& -most <= want[p][1] - got[4 * p + 1] <= most
            &&& -most <= want[p][2] - got[4 * p + 2] <= most
        } by {
            assert(distance(want[p][0], got[4 * p + 0]) <= most);
            assert(distance(want[p][1], got[4 * p + 1]) <= most);
            assert(distance(want[p][2], got[4 * p + 2]) <= most);
        }
        if most != 0 {
            let (p, c): (int, int) = choose|p: int, c: int|
                0 <= p < pixels && 0 <= c < 3 && distance(#[trigger] want[p][c], got[4 * p + c]) == most;
            let pixel = want[p];
            assert(c == 0 || c == 1 || c == 2);
            assert(0 <= p < pixels && {
                ||| vstd::math::abs(want[p][0] - got[4 * p]) == most
                ||| vstd::math::abs(want[p][1] - got[4 * p + 1]) == most
                ||| vstd::math::abs(want[p][2] - got[4 * p + 2]) == most
            });
        }
    }
}

/// A frame is held against what the curve gives for each of its own pixels, in place.
pub proof fn every_pixel_is_held_against_its_own<F: Fn([u8; 3]) -> [u8; 3]>(
    encode: F,
    f: spec_fn(u8, u8, u8) -> (u8, u8, u8),
    original: Seq<u8>,
    bgr_order: bool,
    want: Seq<[u8; 4]>,
    pixels: int,
    p: int,
)
    requires
        forall|colour: [u8; 3], result: [u8; 3]| #[trigger]
            call_ensures(encode, (colour,), result) ==> (result[0], result[1], result[2]) == f(
                colour[0],
                colour[1],
                colour[2],
            ),
        are_encoded(encode, original, bgr_order, want, pixels),
        0 <= p < pixels,
    ensures
        !bgr_order ==> (want[p][0], want[p][1], want[p][2]) == f(
            original[4 * p],
            original[4 * p + 1],
            original[4 * p + 2],
        ),
        bgr_order ==> (want[p][2], want[p][1], want[p][0]) == f(
            original[4 * p + 2],
            original[4 * p + 1],
            original[4 * p],
        ),
        want[p][3] == original[4 * p + 3],
{
    let out = want[p];
    assert(is_frame_pixel_encoded(encode, original, p, bgr_order, out));
    let pixel = choose|pixel: [u8; 4]|
        is_pixel(original, p, pixel) && #[trigger] is_encoded(encode, pixel, bgr_order, out);
    red_is_encoded_as_red(encode, f, pixel, bgr_order, out);
}

} // verus!
