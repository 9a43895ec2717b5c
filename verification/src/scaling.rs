//! The raster that the model works on.

use vstd::prelude::*;
use vstd::string::*;

verus! {

/// A size in pixels.
#[derive(Clone, Copy, Debug, PartialEq, Eq, Structural)]
pub struct Raster {
    pub width: u32,
    pub height: u32,
}

/// The most pixels that the model is asked to work on unless configured otherwise: 4K.
pub const DEFAULT_MAX_MODEL_PIXELS: u64 = 8294400;

/// The fewest pixels that the limit can be configured to.
pub const MIN_MAX_MODEL_PIXELS: u64 = 4096;

/// The smallest edge of a scaled raster.
pub const MIN_MODEL_EDGE: u32 = 64;

/// `v` rounded down to an even number.
pub open spec fn even(v: u32) -> u32 {
    (v - v % 2) as u32
}

/// A frame at the scale that is asked for the model.
#[derive(Clone, Copy, Debug, PartialEq, Eq, Structural)]
pub struct ScaledFrame {
    /// The scale is within a hundredth of 1.
    pub near_one: bool,
    /// Half of each scaled edge, rounded to the nearest integer.
    pub half_width: u32,
    pub half_height: u32,
}

/// Whether a frame is scaled for the model: one whose scale is near 1 is not, unless it has more
/// pixels than the model may be asked to work on.
pub open spec fn is_scale_of_use(near_one: bool, width: u32, height: u32, limit: u64) -> bool {
    !near_one || width * height > limit
}

/// Whether a frame is scaled for the model.
pub fn scale_is_of_use(near_one: bool, width: u32, height: u32, limit: u64) -> (of_use: bool)
    ensures
        of_use == is_scale_of_use(near_one, width, height, limit),
{
    assert(width * height <= u32::MAX * u32::MAX) by (nonlinear_arith)
        requires
            width <= u32::MAX,
            height <= u32::MAX,
    ;
    !near_one || width as u64 * height as u64 > limit
}

/// One edge of a scaled raster, from half of the edge rounded to the nearest integer: the nearest
/// even number, at least 64, and at most what an edge can be.
pub open spec fn scaled_edge(half: u32) -> u32 {
    if half < MIN_MODEL_EDGE / 2 {
        MIN_MODEL_EDGE
    } else if half > u32::MAX / 2 {
        even(u32::MAX)
    } else {
        (2 * half) as u32
    }
}

/// The model's raster for a frame of `width` by `height`, where the model may be asked to work on
/// `limit` pixels. `scaled` is `None` where the scale is not a positive number.
pub open spec fn model_raster(width: u32, height: u32, limit: u64, scaled: Option<ScaledFrame>) -> (u32, u32) {
    match scaled {
        Some(s) => if is_scale_of_use(s.near_one, width, height, limit) {
            (scaled_edge(s.half_width), scaled_edge(s.half_height))
        } else {
            (even(width), even(height))
        },
        None => (even(width), even(height)),
    }
}

fn make_even(v: u32) -> (r: u32)
    ensures
        r == even(v),
{
    v - v % 2
}

fn scale_edge(half: u32) -> (r: u32)
    ensures
        r == scaled_edge(half),
{
    if half < MIN_MODEL_EDGE / 2 {
        MIN_MODEL_EDGE
    } else if half > u32::MAX / 2 {
        make_even(u32::MAX)
    } else {
        2 * half
    }
}

/// The model's raster: the scaled frame with each edge the nearest even number and at least 64, or,
/// without a scale of use, the frame itself with each edge made even.
pub fn scaled_dims(width: u32, height: u32, limit: u64, scaled: Option<ScaledFrame>) -> (raster: (u32, u32))
    ensures
        raster == model_raster(width, height, limit, scaled),
{
    match scaled {
        Some(s) => if scale_is_of_use(s.near_one, width, height, limit) {
            (scale_edge(s.half_width), scale_edge(s.half_height))
        } else {
            (make_even(width), make_even(height))
        },
        None => (make_even(width), make_even(height)),
    }
}

/// The model never sees an odd edge; a scaled edge is never below 64; and a raster that is not
/// scaled differs from the frame by at most one row and one column.
pub proof fn the_model_raster_is_even(width: u32, height: u32, limit: u64, scaled: Option<ScaledFrame>)
    ensures
        ({
            let (w, h) = model_raster(width, height, limit, scaled);
            let of_use = scaled matches Some(s) && is_scale_of_use(s.near_one, width, height, limit);
            &&& w % 2 == 0 && h % 2 == 0
            &&& of_use ==> w >= 64 && h >= 64
            &&& !of_use ==> width - 1 <= w <= width && height - 1 <= h <= height
            &&& !of_use && width % 2 == 0 && height % 2 == 0 ==> w == width && h == height
        }),
{
}

/// The raster of a frame of at least 64 an edge is no larger than the frame, unless the frame was
/// scaled up.
pub proof fn a_scaled_raster_never_grows(width: u32, height: u32, limit: u64, scaled: Option<ScaledFrame>)
    requires
        width >= 64,
        height >= 64,
        scaled matches Some(s) ==> 2 * s.half_width <= width && 2 * s.half_height <= height,
    ensures
        model_raster(width, height, limit, scaled).0 <= width,
        model_raster(width, height, limit, scaled).1 <= height,
{
}

/// A frame that has a scale, and is handed to the model without it, never has more pixels than the
/// limit.
pub proof fn an_unscaled_raster_keeps_to_the_limit(width: u32, height: u32, limit: u64, s: ScaledFrame)
    requires
        !is_scale_of_use(s.near_one, width, height, limit),
    ensures
        ({
            let (w, h) = model_raster(width, height, limit, Some(s));
            w * h <= limit
        }),
{
    let (w, h) = model_raster(width, height, limit, Some(s));
    assert(w * h <= width * height) by (nonlinear_arith)
        requires
            w <= width,
            h <= height,
    ;
}

/// A frame that is scaled so that it has no more pixels than the limit gets a raster that exceeds the
/// limit by less than one row and one column, which is what the rounding to even edges can add. The
/// scale is `p / q`; the raster is not one that was brought up to the smallest edge.
pub proof fn a_scaled_raster_keeps_to_the_limit(
    width: u32,
    height: u32,
    limit: u64,
    s: ScaledFrame,
    p: nat,
    q: nat,
)
    requires
        q > 0,
        is_scale_of_use(s.near_one, width, height, limit),
        (p * width) * (p * height) <= (q * q) * limit,
        32 <= s.half_width && -q <= 2 * s.half_width * q - p * width <= q,
        32 <= s.half_height && -q <= 2 * s.half_height * q - p * height <= q,
    ensures
        ({
            let (w, h) = model_raster(width, height, limit, Some(s));
            w * h < limit + w + h
        }),
{
    let (w, h) = model_raster(width, height, limit, Some(s));
    let (x, y) = (p * width, p * height);
    let (q, l) = (q as int, limit as int);
    let (m, n) = (w as int, h as int);
    assert(m * q <= 2 * s.half_width * q && n * q <= 2 * s.half_height * q) by (nonlinear_arith)
        requires
            m <= 2 * s.half_width,
            n <= 2 * s.half_height,
            q > 0,
    ;
    let (u, v) = ((m - 1) * q, (n - 1) * q);
    assert(0 <= u <= x && 0 <= v <= y) by (nonlinear_arith)
        requires
            u == (m - 1) * q,
            v == (n - 1) * q,
            m >= 1,
            n >= 1,
            q > 0,
            m * q <= x + q,
            n * q <= y + q,
    ;
    assert(u * v <= x * y) by (nonlinear_arith)
        requires
            0 <= u <= x,
            0 <= v <= y,
    ;
    assert((m - 1) * (n - 1) <= l) by (nonlinear_arith)
        requires
            u == (m - 1) * q,
            v == (n - 1) * q,
            u * v <= (q * q) * l,
            q > 0,
    {
        assert(u * v == (q * q) * ((m - 1) * (n - 1)));
        assert(q * q > 0);
    }
    assert((m - 1) * (n - 1) == m * n - m - n + 1) by (nonlinear_arith);
}

/// Whether `c` is a decimal digit.
pub open spec fn is_digit(c: char) -> bool {
    '0' <= c && c <= '9'
}

/// The number that a run of decimal digits denotes.
pub open spec fn decimal(digits: Seq<char>) -> int
    decreases digits.len(),
{
    if digits.len() == 0 {
        0
    } else {
        decimal(digits.drop_last()) * 10 + (digits.last() as int - '0' as int)
    }
}

/// The digits of a number written with or without a leading plus sign.
pub open spec fn unsigned_digits(text: Seq<char>) -> Seq<char> {
    if text.len() > 0 && text[0] == '+' {
        text.skip(1)
    } else {
        text
    }
}

/// The number that `text` denotes: one or more decimal digits, with or without a plus sign in
/// front, of a number that 64 bits hold.
pub open spec fn parsed(text: Seq<char>) -> Option<u64> {
    let digits = unsigned_digits(text);
    if digits.len() > 0 && (forall|i: int| 0 <= i < digits.len() ==> is_digit(#[trigger] digits[i])) && decimal(digits)
        <= u64::MAX {
        Some(decimal(digits) as u64)
    } else {
        None
    }
}

proof fn lemma_decimal_monotone(digits: Seq<char>, k: int)
    requires
        0 <= k <= digits.len(),
        forall|i: int| 0 <= i < digits.len() ==> is_digit(#[trigger] digits[i]),
    ensures
        0 <= decimal(digits.take(k)) <= decimal(digits),
    decreases digits.len(),
{
    if k == digits.len() {
        assert(digits.take(k) =~= digits);
        lemma_decimal_nonnegative(digits);
    } else {
        lemma_decimal_monotone(digits.drop_last(), k);
        assert(digits.drop_last().take(k) =~= digits.take(k));
        lemma_decimal_nonnegative(digits.drop_last());
        assert(is_digit(digits[digits.len() - 1]));
    }
}

proof fn lemma_decimal_nonnegative(digits: Seq<char>)
    requires
        forall|i: int| 0 <= i < digits.len() ==> is_digit(#[trigger] digits[i]),
    ensures
        0 <= decimal(digits),
    decreases digits.len(),
{
    if digits.len() > 0 {
        lemma_decimal_nonnegative(digits.drop_last());
        assert(is_digit(digits[digits.len() - 1]));
    }
}

fn parse_unsigned(text: &str) -> (value: Option<u64>)
    ensures
        value == parsed(text@),
{
    let length: usize = text.unicode_len();
    let start: usize = if length > 0 && text.get_char(0) == '+' {
        1
    } else {
        0
    };
    let ghost digits = unsigned_digits(text@);
    if start == length {
        return None;
    }
    let mut total: u64 = 0;
    let mut i: usize = start;
    while i < length
        invariant
            start <= i <= length,
            start <= 1,
            length == text@.len(),
            digits.len() == length - start,
            forall|k: int| 0 <= k < digits.len() ==> #[trigger] digits[k] == text@[k + start],
            digits == unsigned_digits(text@),
            forall|k: int| 0 <= k < i - start ==> is_digit(#[trigger] digits[k]),
            total == decimal(digits.take(i - start)),
        decreases length - i,
    {
        let c: char = text.get_char(i);
        let ghost at = i - start;
        assert(digits[at] == c);
        if c < '0' || c > '9' {
            assert(!is_digit(digits[at]));
            return None;
        }
        let digit: u64 = (c as u64) - ('0' as u64);
        assert(digits.take(at + 1).drop_last() =~= digits.take(at));
        assert(decimal(digits.take(at + 1)) == total * 10 + digit);
        if total > (u64::MAX - digit) / 10 {
            proof {
                if forall|k: int| 0 <= k < digits.len() ==> is_digit(#[trigger] digits[k]) {
                    lemma_decimal_monotone(digits, at + 1);
                }
            }
            return None;
        }
        total = total * 10 + digit;
        i = i + 1;
    }
    assert(digits.take(length - start) =~= digits);
    Some(total)
}

/// The configured limit on the model's pixels: a number of at least 64 by 64, or the default.
pub open spec fn model_pixel_limit(variable: Option<Seq<char>>) -> u64 {
    match variable {
        Some(text) => match parsed(text) {
            Some(v) => if v >= MIN_MAX_MODEL_PIXELS {
                v
            } else {
                DEFAULT_MAX_MODEL_PIXELS
            },
            None => DEFAULT_MAX_MODEL_PIXELS,
        },
        None => DEFAULT_MAX_MODEL_PIXELS,
    }
}

/// The most pixels that the model is asked to work on, from the variable that configures it.
pub fn max_model_pixels(variable: Option<&str>) -> (limit: u64)
    ensures
        limit == model_pixel_limit(
            match variable {
                Some(v) => Some(v@),
                None => None,
            },
        ),
        limit >= 4096,
{
    match variable {
        Some(text) => match parse_unsigned(text) {
            Some(v) => if v >= MIN_MAX_MODEL_PIXELS {
                v
            } else {
                DEFAULT_MAX_MODEL_PIXELS
            },
            None => DEFAULT_MAX_MODEL_PIXELS,
        },
        None => DEFAULT_MAX_MODEL_PIXELS,
    }
}

/// The model's raster, edge by edge. A frame that is scaled has twice the half of its scaled edge, 64
/// at least and the largest even number at most; one that is not has its own edge without the odd
/// pixel. It is scaled where the scale is a number that is not near 1, or where it has more pixels than
/// the limit.
pub proof fn an_edge_is_the_nearest_even_one(width: u32, height: u32, limit: u64, scaled: Option<ScaledFrame>)
    ensures
        ({
            let (w, h) = model_raster(width, height, limit, scaled);
            if scaled is Some && (!(scaled->0).near_one || width * height > limit) {
                let (x, y) = (2 * (scaled->0).half_width, 2 * (scaled->0).half_height);
                &&& w == vstd::math::max(64, vstd::math::min(x as int, 4294967294))
                &&& h == vstd::math::max(64, vstd::math::min(y as int, 4294967294))
            } else {
                w == 2 * (width / 2) && h == 2 * (height / 2)
            }
        }),
{
}

proof fn lemma_decimal_folds(digits: Seq<char>)
    ensures
        decimal(digits) == digits.fold_left(0, |n: int, c: char| 10 * n + (c as int - 48)),
    decreases digits.len(),
{
    reveal(Seq::fold_left);
    if digits.len() > 0 {
        lemma_decimal_folds(digits.drop_last());
    }
}

/// A limit is read from a run of the digits 0 to 9, each worth ten times the one behind it, with or
/// without a plus sign in front. It counts where it is 4096 at least and 64 bits hold it; everything
/// else, and no variable at all, gives the pixels of a 3840 by 2160 frame.
pub proof fn a_limit_is_what_its_digits_say(text: Seq<char>, sign: bool)
    ensures
        ({
            let written = if sign {
                seq!['+'] + text
            } else {
                text
            };
            let is_number = text.len() > 0 && forall|i: int|
                0 <= i < text.len() ==> 48 <= #[trigger] text[i] as int <= 57;
            let n = text.fold_left(0, |n: int, c: char| 10 * n + (c as int - 48));
            is_number || sign || !(text.len() > 0 && text[0] == '+') ==> model_pixel_limit(Some(written)) as int == (
            if is_number && 4096 <= n <= 0xffff_ffff_ffff_ffff {
                n
            } else {
                3840 * 2160int
            })
        }),
        model_pixel_limit(None) == 3840 * 2160,
{
    lemma_decimal_folds(text);
    let written = if sign {
        seq!['+'] + text
    } else {
        text
    };
    if sign {
        assert(written.skip(1) =~= text);
    }
    let is_number = text.len() > 0 && forall|i: int| 0 <= i < text.len() ==> 48 <= #[trigger] text[i] as int <= 57;
    if is_number {
        assert(48 <= text[0] as int <= 57);
        assert(unsigned_digits(written) =~= text);
        assert forall|i: int| 0 <= i < text.len() implies is_digit(#[trigger] text[i]) by {
            assert(48 <= text[i] as int <= 57);
        }
        lemma_decimal_nonnegative(text);
    } else if sign || !(text.len() > 0 && text[0] == '+') {
        assert(unsigned_digits(written) =~= text);
        if text.len() > 0 {
            let i = choose|i: int| 0 <= i < text.len() && !(48 <= #[trigger] text[i] as int <= 57);
            assert(!is_digit(text[i]));
        }
    }
}

} // verus!
