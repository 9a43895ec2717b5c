//! The white meter: the level that a frame treats as white.
//!
//! The frame is cut into a grid of 64 by 64 tiles, each sampled at 8 by 8 points. The peak
//! luminance of each tile is taken, and the level is the 90th percentile of those peaks: not the
//! mean, which is how bright the scene is, and not the maximum, which one highlight decides. A
//! frame of which less than a fifth is lit has no level.
//!
//! Luminances are handed over as the bits of their (never negative) 32-bit encoding, which order
//! as the numbers do.

use vstd::prelude::*;

verus! {

/// Tiles along each edge of a frame.
pub const GRID: u32 = 64;

/// Sample points along each edge of a tile.
pub const SAMPLES: u32 = 8;

/// Sample points in a tile.
pub const TILE_SAMPLES: usize = 64;

/// Tiles in a frame.
pub const TILES: usize = 4096;

/// The start of tile `t` along an edge of `extent` pixels.
pub open spec fn tile_start(extent: int, t: int) -> int {
    t * extent / 64
}

/// Sample point `s` of tile `t` along an edge of `extent` pixels: the middle of the tile's `s`-th
/// eighth.
pub open spec fn sample_at(extent: int, t: int, s: int) -> int {
    tile_start(extent, t) + (tile_start(extent, t + 1) - tile_start(extent, t)) * (2 * s + 1) / 16
}

/// The red, green and blue of a pixel.
pub open spec fn pixel_rgb(frame: Seq<u8>, width: int, x: int, y: int, bgr: bool) -> (u8, u8, u8) {
    let o = (y * width + x) * 4;
    if bgr {
        (frame[o + 2], frame[o + 1], frame[o])
    } else {
        (frame[o], frame[o + 1], frame[o + 2])
    }
}

/// The pixel at sample point `i` of a frame. The points of a tile follow one another row by row,
/// and so do the tiles.
pub open spec fn sample_of(frame: Seq<u8>, width: int, height: int, bgr: bool, i: int) -> (u8, u8, u8) {
    let (tile, point) = (i / 64, i % 64);
    pixel_rgb(
        frame,
        width,
        sample_at(width, tile % 64, point % 8),
        sample_at(height, tile / 64, point / 8),
        bgr,
    )
}

/// Whether a frame can be metered: 64 pixels along each edge, and all its bytes there.
pub open spec fn can_meter(frame: Seq<u8>, width: u32, height: u32) -> bool {
    width >= 64 && height >= 64 && frame.len() >= width * height * 4
}

proof fn lemma_sample_in_range(extent: int, t: int, s: int)
    requires
        64 <= extent,
        0 <= t < 64,
        0 <= s < 8,
    ensures
        0 <= tile_start(extent, t) <= tile_start(extent, t + 1) <= extent,
        0 <= (tile_start(extent, t + 1) - tile_start(extent, t)) * (2 * s + 1) <= extent * 15,
        0 <= sample_at(extent, t, s) < extent,
{
    let a = t * extent;
    let b = (t + 1) * extent;
    assert(b == a + extent && 0 <= a && b <= 64 * extent) by (nonlinear_arith)
        requires
            a == t * extent,
            b == (t + 1) * extent,
            0 <= t < 64,
            64 <= extent,
    ;
    let d = b / 64 - a / 64;
    assert(0 < d <= extent);
    assert(d * (2 * s + 1) <= d * 15 && 0 <= d * (2 * s + 1) && d * 15 <= extent * 15) by (nonlinear_arith)
        requires
            0 < d <= extent,
            0 <= s < 8,
    ;
    assert(d * (2 * s + 1) / 16 < d);
}

fn sample_point(extent: u32, t: u32, s: u32) -> (p: u32)
    requires
        64 <= extent <= 0x100_0000,
        t < 64,
        s < 8,
    ensures
        p == sample_at(extent as int, t as int, s as int),
        p < extent,
{
    proof {
        lemma_sample_in_range(extent as int, t as int, s as int);
        assert(t * extent <= 64 * 0x100_0000 && (t + 1) * extent <= 64 * 0x100_0000) by (nonlinear_arith)
            requires
                t < 64,
                extent <= 0x100_0000,
        ;
    }
    let start: u32 = t * extent / GRID;
    let end: u32 = (t + 1) * extent / GRID;
    start + (end - start) * (2 * s + 1) / (2 * SAMPLES)
}

/// The pixels that the meter looks at, in the order of [`sample_of`]; nothing when the frame is
/// too small to be metered or not all there.
pub fn meter_samples(frame: &[u8], width: u32, height: u32, bgr: bool) -> (samples: Option<Vec<(u8, u8, u8)>>)
    requires
        width * height * 4 <= u32::MAX,
    ensures
        samples is Some <==> can_meter(frame@, width, height),
        samples matches Some(list) ==> list@.len() == 4096 * 64 && forall|i: int|
            0 <= i < 4096 * 64 ==> #[trigger] list@[i] == sample_of(
                frame@,
                width as int,
                height as int,
                bgr,
                i,
            ),
{
    if width < GRID || height < GRID {
        return None;
    }
    assert(width * height * 4 <= u32::MAX);
    proof {
        assert(width * 4 <= u32::MAX && height <= 0x100_0000 && width <= 0x100_0000) by (nonlinear_arith)
            requires
                width >= 64,
                height >= 64,
                width * height * 4 <= u32::MAX,
        ;
        assert(width * height <= u32::MAX);
    }
    let bytes: usize = (width * height * 4) as usize;
    if frame.len() < bytes {
        return None;
    }
    let mut list: Vec<(u8, u8, u8)> = Vec::with_capacity(TILES * TILE_SAMPLES);
    let mut i: u32 = 0;
    while i < 262144
        invariant
            i <= 262144,
            list@.len() == i,
            64 <= width <= 0x100_0000,
            64 <= height <= 0x100_0000,
            width * height * 4 <= u32::MAX,
            width * height * 4 <= frame@.len(),
            forall|k: int|
                0 <= k < i ==> #[trigger] list@[k] == sample_of(frame@, width as int, height as int, bgr, k),
        decreases 262144 - i,
    {
        let tile: u32 = i / 64;
        let point: u32 = i % 64;
        let x: u32 = sample_point(width, tile % 64, point % 8);
        let y: u32 = sample_point(height, tile / 64, point / 8);
        proof {
            assert(y * width + x < width * height && y * width + width <= width * height) by (nonlinear_arith)
                requires
                    x < width,
                    y < height,
            ;
            assert(0 <= y * width) by (nonlinear_arith);
        }
        let o: usize = ((y * width + x) * 4) as usize;
        if bgr {
            list.push((frame[o + 2], frame[o + 1], frame[o]));
        } else {
            list.push((frame[o], frame[o + 1], frame[o + 2]));
        }
        i = i + 1;
    }
    Some(list)
}

/// `top` is the largest of `values` from `from` up to `to`, 0 counting as one of them.
pub open spec fn is_peak(values: Seq<u32>, from: int, to: int, top: u32) -> bool {
    &&& forall|i: int| from <= i < to ==> #[trigger] values[i] <= top
    &&& top == 0 || exists|i: int| from <= i < to && #[trigger] values[i] == top
}

/// The peak luminance of each tile, from the luminances of its samples.
pub fn meter_peaks(luminances: &[u32]) -> (peaks: Vec<u32>)
    requires
        luminances@.len() == 4096 * 64,
    ensures
        peaks@.len() == 4096,
        forall|t: int| 0 <= t < 4096 ==> #[trigger] is_peak(luminances@, t * 64, t * 64 + 64, peaks@[t]),
{
    let mut peaks: Vec<u32> = Vec::with_capacity(TILES);
    let mut t: usize = 0;
    while t < TILES
        invariant
            t <= 4096,
            peaks@.len() == t,
            luminances@.len() == 4096 * 64,
            forall|k: int| 0 <= k < t ==> #[trigger] is_peak(luminances@, k * 64, k * 64 + 64, peaks@[k]),
        decreases 4096 - t,
    {
        let mut peak: u32 = 0;
        let mut i: usize = 0;
        while i < TILE_SAMPLES
            invariant
                i <= 64,
                t < 4096,
                luminances@.len() == 4096 * 64,
                is_peak(luminances@, t * 64, t * 64 + i, peak),
            decreases 64 - i,
        {
            let l: u32 = luminances[t * TILE_SAMPLES + i];
            if l > peak {
                peak = l;
                assert(luminances@[t * 64 + i] == peak);
            }
            i = i + 1;
        }
        let ghost before = peaks@;
        peaks.push(peak);
        assert forall|k: int| 0 <= k < t + 1 implies #[trigger] is_peak(
            luminances@,
            k * 64,
            k * 64 + 64,
            peaks@[k],
        ) by {
            if k < t {
                assert(is_peak(luminances@, k * 64, k * 64 + 64, before[k]));
            }
        }
        t = t + 1;
    }
    peaks
}

/// The brightest of a list of peaks, 0 for none.
pub fn brightest(peaks: &[u32]) -> (top: u32)
    ensures
        is_peak(peaks@, 0, peaks@.len() as int, top),
{
    let mut top: u32 = 0;
    let mut i: usize = 0;
    while i < peaks.len()
        invariant
            i <= peaks@.len(),
            is_peak(peaks@, 0, i as int, top),
        decreases peaks@.len() - i,
    {
        if peaks[i] > top {
            top = peaks[i];
            assert(peaks@[i as int] == top);
        }
        i = i + 1;
    }
    top
}

/// How many of `values` are above `level`.
pub open spec fn count_above(values: Seq<u32>, level: int) -> nat
    decreases values.len(),
{
    if values.len() == 0 {
        0
    } else {
        count_above(values.drop_last(), level) + (if values.last() > level {
            1nat
        } else {
            0
        })
    }
}

/// `white` is the value with exactly `rank` values before it when `values` are sorted.
pub open spec fn has_rank(values: Seq<u32>, rank: int, white: u32) -> bool {
    &&& values.contains(white)
    &&& values.len() - count_above(values, white - 1) <= rank
    &&& rank < values.len() - count_above(values, white as int)
}

proof fn lemma_count_bounds(values: Seq<u32>, level: int)
    ensures
        count_above(values, level) <= values.len(),
        level >= u32::MAX ==> count_above(values, level) == 0,
        level < 0 ==> count_above(values, level) == values.len(),
    decreases values.len(),
{
    if values.len() > 0 {
        lemma_count_bounds(values.drop_last(), level);
    }
}

proof fn lemma_count_drop(values: Seq<u32>, level: int)
    requires
        count_above(values, level) < count_above(values, level - 1),
    ensures
        exists|i: int| 0 <= i < values.len() && #[trigger] values[i] == level,
    decreases values.len(),
{
    if values.len() > 0 {
        if values.last() == level {
            assert(values[values.len() - 1] == level);
        } else {
            lemma_count_drop(values.drop_last(), level);
            let i = choose|i: int| 0 <= i < values.len() - 1 && #[trigger] values.drop_last()[i] == level;
            assert(values[i] == level);
        }
    }
}

fn count_over(values: &[u32], level: u32) -> (count: usize)
    ensures
        count == count_above(values@, level as int),
        count <= values@.len(),
{
    let mut count: usize = 0;
    let mut i: usize = 0;
    while i < values.len()
        invariant
            i <= values@.len(),
            count <= i,
            count == count_above(values@.take(i as int), level as int),
        decreases values@.len() - i,
    {
        assert(values@.take(i + 1).drop_last() =~= values@.take(i as int));
        if values[i] > level {
            count = count + 1;
        }
        i = i + 1;
    }
    assert(values@.take(i as int) =~= values@);
    count
}

/// The value of rank `rank` among `values`, found by narrowing down the level below which more
/// than `rank` of them lie.
pub fn ranked(values: &[u32], rank: usize) -> (white: u32)
    requires
        rank < values@.len(),
    ensures
        has_rank(values@, rank as int, white),
{
    let n: usize = values.len();
    let mut low: u32 = 0;
    let mut high: u32 = u32::MAX;
    proof {
        lemma_count_bounds(values@, u32::MAX as int);
        lemma_count_bounds(values@, -1);
    }
    while low < high
        invariant
            low <= high,
            n == values@.len(),
            rank < n,
            rank < n - count_above(values@, high as int),
            n - count_above(values@, low - 1) <= rank,
        decreases high - low,
    {
        let middle: u32 = low + (high - low) / 2;
        if rank < n - count_over(values, middle) {
            high = middle;
        } else {
            low = middle + 1;
        }
    }
    proof {
        lemma_count_drop(values@, low as int);
    }
    low
}

/// What the meter says of a frame with these tile peaks: the level, or nothing when the brightest
/// tile is not above `dark`, when fewer than a fifth of the tiles are above `lit_floor`, or when
/// the 90th percentile is not above `faint`.
pub open spec fn is_white_level(
    peaks: Seq<u32>,
    top: u32,
    lit_floor: u32,
    dark: u32,
    faint: u32,
    white: Option<u32>,
) -> bool {
    if top <= dark || count_above(peaks, lit_floor as int) * 5 < peaks.len() {
        white is None
    } else {
        exists|w: u32| #[trigger]
            has_rank(peaks, (peaks.len() - 1) * 9 / 10, w) && white == (if w > faint {
                Some(w)
            } else {
                None
            })
    }
}

/// The level of a frame from its tile peaks, the brightest of them, and the levels (all in the
/// peaks' encoding) that a lit tile, a lit frame and a usable level lie above.
pub fn white_level(peaks: &[u32], top: u32, lit_floor: u32, dark: u32, faint: u32) -> (white: Option<u32>)
    requires
        peaks@.len() == 4096,
    ensures
        is_white_level(peaks@, top, lit_floor, dark, faint, white),
{
    if top <= dark {
        return None;
    }
    let lit: usize = count_over(peaks, lit_floor);
    if lit * 5 < peaks.len() {
        return None;
    }
    let rank: usize = (peaks.len() - 1) * 9 / 10;
    let w: u32 = ranked(peaks, rank);
    assert(has_rank(peaks@, (peaks@.len() - 1) * 9 / 10, w));
    if w > faint {
        Some(w)
    } else {
        None
    }
}

proof fn lemma_count_monotone(values: Seq<u32>, low: int, high: int)
    requires
        low <= high,
    ensures
        count_above(values, high) <= count_above(values, low),
    decreases values.len(),
{
    if values.len() > 0 {
        lemma_count_monotone(values.drop_last(), low, high);
    }
}

/// A list has one value of each rank, so the level of a frame is a function of its peaks.
pub proof fn a_rank_has_one_value(values: Seq<u32>, rank: int, a: u32, b: u32)
    requires
        has_rank(values, rank, a),
        has_rank(values, rank, b),
    ensures
        a == b,
{
    if a < b {
        lemma_count_monotone(values, a as int, b - 1);
    }
    if b < a {
        lemma_count_monotone(values, b as int, a - 1);
    }
}

/// A few highlights do not decide the level: at least a tenth of the tiles are as bright as it.
pub proof fn highlights_do_not_decide_the_level(peaks: Seq<u32>, white: u32)
    requires
        peaks.len() == 4096,
        has_rank(peaks, (peaks.len() - 1) * 9 / 10, white),
    ensures
        count_above(peaks, white - 1) * 10 >= peaks.len(),
{
}

proof fn lemma_count_is_filter(values: Seq<u32>, level: int)
    ensures
        count_above(values, level) == values.filter(|v: u32| v > level).len(),
    decreases values.len(),
{
    reveal(Seq::filter);
    if values.len() > 0 {
        lemma_count_is_filter(values.drop_last(), level);
    }
}

/// The level is the 90th percentile of the tile peaks: it is the peak of some tile, fewer than 411 of the
/// 4096 tiles are brighter, and more than 3685 are as bright or darker, so that at most a tenth is
/// brighter and at least a tenth is as bright.
pub proof fn at_most_a_tenth_is_brighter_than_the_level(
    peaks: Seq<u32>,
    top: u32,
    lit_floor: u32,
    dark: u32,
    faint: u32,
    white: u32,
)
    requires
        peaks.len() == 4096,
        is_white_level(peaks, top, lit_floor, dark, faint, Some(white)),
    ensures
        exists|t: int| 0 <= t < 4096 && #[trigger] peaks[t] == white,
        peaks.filter(|v: u32| v > white).len() < 411,
        peaks.filter(|v: u32| v <= white).len() > 3685,
        peaks.filter(|v: u32| v >= white).len() >= 410,
        white > faint,
{
    let w = choose|w: u32| #[trigger] has_rank(peaks, (peaks.len() - 1) * 9 / 10, w) && Some(white) == (if w > faint {
        Some(w)
    } else {
        None
    });
    assert(w == white);
    assert((peaks.len() - 1) * 9 / 10 == 3685);
    lemma_count_is_filter(peaks, white as int);
    lemma_count_is_filter(peaks, white - 1);
    lemma_filters_part(peaks, white);
    assert(peaks.filter(|v: u32| v > white as int) =~= peaks.filter(|v: u32| v > white)) by {
        lemma_same_filter(peaks, |v: u32| v > white as int, |v: u32| v > white);
    }
    lemma_same_filter(peaks, |v: u32| v > white - 1, |v: u32| v >= white);
}

proof fn lemma_same_filter(values: Seq<u32>, f: spec_fn(u32) -> bool, g: spec_fn(u32) -> bool)
    requires
        forall|v: u32| #[trigger] f(v) == g(v),
    ensures
        values.filter(f) == values.filter(g),
    decreases values.len(),
{
    reveal(Seq::filter);
    if values.len() > 0 {
        lemma_same_filter(values.drop_last(), f, g);
    }
}

proof fn lemma_filters_part(values: Seq<u32>, level: u32)
    ensures
        values.filter(|v: u32| v > level).len() + values.filter(|v: u32| v <= level).len() == values.len(),
    decreases values.len(),
{
    reveal(Seq::filter);
    if values.len() > 0 {
        lemma_filters_part(values.drop_last(), level);
    }
}

/// There is a level exactly where the brightest tile is above `dark`, at least a fifth of the tiles is
/// above the floor of a lit one, and the level is above `faint`: so no frame that is bright enough, and lit
/// well enough, goes without, and none that is not has one.
pub proof fn a_lit_frame_has_a_level(
    peaks: Seq<u32>,
    top: u32,
    lit_floor: u32,
    dark: u32,
    faint: u32,
    white: Option<u32>,
)
    requires
        peaks.len() == 4096,
        is_white_level(peaks, top, lit_floor, dark, faint, white),
    ensures
        white is Some ==> top > dark && peaks.filter(|v: u32| v > lit_floor).len() >= 820,
        top > dark && peaks.filter(|v: u32| v > lit_floor).len() >= 820 && peaks.filter(|v: u32| v > faint).len() >= 411
            ==> white is Some,
{
    lemma_count_is_filter(peaks, lit_floor as int);
    lemma_same_filter(peaks, |v: u32| v > lit_floor as int, |v: u32| v > lit_floor);
    if top > dark && count_above(peaks, lit_floor as int) * 5 >= peaks.len() && white is None {
        let w = choose|w: u32| #[trigger] has_rank(peaks, (peaks.len() - 1) * 9 / 10, w) && white == (if w > faint {
            Some(w)
        } else {
            None
        });
        assert((peaks.len() - 1) * 9 / 10 == 3685);
        lemma_count_monotone(peaks, w as int, faint as int);
        lemma_count_is_filter(peaks, faint as int);
        lemma_same_filter(peaks, |v: u32| v > faint as int, |v: u32| v > faint);
    }
}

/// The peak of a tile is the brightest of its 64 samples.
pub proof fn a_peak_is_the_brightest_sample(luminances: Seq<u32>, t: int, peak: u32, i: int)
    requires
        0 <= t < 4096,
        0 <= i < 64,
        luminances.len() == 262144,
        is_peak(luminances, t * 64, t * 64 + 64, peak),
    ensures
        luminances[64 * t + i] <= peak,
        exists|k: int| 0 <= k < 64 && #[trigger] luminances[64 * t + k] == peak,
{
    assert(luminances[64 * t + i] <= peak);
    if peak == 0 {
        assert(luminances[64 * t + i] == 0);
    } else {
        let k = choose|k: int| t * 64 <= k < t * 64 + 64 && #[trigger] luminances[k] == peak;
        assert(luminances[64 * t + (k - 64 * t)] == peak);
    }
}

/// The samples are spread over the whole frame: point `p` of tile `t` stands in the tile's own part of the
/// frame, where the tiles part the frame into 64 rows of 64, and in the part of the tile that the point has
/// where the points part it into 8 rows of 8.
pub proof fn the_samples_are_spread_over_the_frame(frame: Seq<u8>, width: u32, height: u32, bgr: bool, i: int)
    requires
        64 <= width,
        64 <= height,
        0 <= i < 262144,
    ensures
        ({
            let (column, row) = ((i / 64) % 64, i / 4096);
            let (across, down) = (i % 8, (i / 8) % 8);
            exists|x: int, y: int|
                {
                    &&& #[trigger] stands_at(width as int, column, across, x)
                    &&& #[trigger] stands_at(height as int, row, down, y)
                    &&& 0 <= x < width && 0 <= y < height
                    &&& sample_of(frame, width as int, height as int, bgr, i) == (
                        frame[4 * (y * width + x) + (if bgr { 2int } else { 0 })],
                        frame[4 * (y * width + x) + 1],
                        frame[4 * (y * width + x) + (if bgr { 0int } else { 2 })],
                    )
                }
        }),
{
    let (tile, point) = (i / 64, i % 64);
    let (column, row) = (tile % 64, tile / 64);
    let (across, down) = (point % 8, point / 8);
    assert(row == i / 4096 && across == i % 8 && down == (i / 8) % 8);
    let x = sample_at(width as int, column, across);
    let y = sample_at(height as int, row, down);
    lemma_sample_in_range(width as int, column, across);
    lemma_sample_in_range(height as int, row, down);
    lemma_stands_at(width as int, column, across);
    lemma_stands_at(height as int, row, down);
    assert(stands_at(width as int, column, across, x));
    assert(stands_at(height as int, row, down, y));
}

/// Whether `x` stands in the middle of eighth `s` of tile `t` along an edge: between `t` and `t + 1`
/// sixty-fourths of it, and `2 s + 1` sixteenths of the tile behind its start, up to rounding down.
pub open spec fn stands_at(extent: int, t: int, s: int, x: int) -> bool {
    exists|start: int, end: int|
        {
            &&& #[trigger] is_tile(extent, t, start, end)
            &&& start <= x < end
            &&& 16 * (x - start) <= (2 * s + 1) * (end - start) < 16 * (x - start) + 16
        }
}

/// Whether a tile begins at `start` and ends before `end`.
pub open spec fn is_tile(extent: int, t: int, start: int, end: int) -> bool {
    64 * start <= t * extent < 64 * start + 64 && 64 * end <= (t + 1) * extent < 64 * end + 64
}

proof fn lemma_stands_at(extent: int, t: int, s: int)
    requires
        64 <= extent,
        0 <= t < 64,
        0 <= s < 8,
    ensures
        stands_at(extent, t, s, sample_at(extent, t, s)),
{
    let (start, end) = (tile_start(extent, t), tile_start(extent, t + 1));
    let x = sample_at(extent, t, s);
    lemma_sample_in_range(extent, t, s);
    let d = end - start;
    assert(is_tile(extent, t, start, end));
    let (a, b) = (t * extent, (t + 1) * extent);
    assert(b == a + extent) by (nonlinear_arith)
        requires
            a == t * extent,
            b == (t + 1) * extent,
    ;
    assert(d > 0);
    let m = d * (2 * s + 1);
    assert(m == (2 * s + 1) * d && m < 16 * d && 0 <= m) by (nonlinear_arith)
        requires
            m == d * (2 * s + 1),
            d > 0,
            0 <= s < 8,
    ;
    assert(x == start + m / 16);
}

/// A frame can be metered where it has 64 pixels along each edge and no byte of them is missing.
pub proof fn a_frame_that_is_whole_can_be_metered(frame: Seq<u8>, width: u32, height: u32)
    ensures
        can_meter(frame, width, height) <==> !(width < 64) && !(height < 64) && 4 * (width * height) <= frame.len(),
{
}

} // verus!
