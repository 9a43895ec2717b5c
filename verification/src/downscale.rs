//! Resampling of frames with separable filters.
//!
//! The filters are told apart here, and the passes over the pixels are done here. The values of a
//! filter, and the arithmetic on them, come from the caller.

use vstd::prelude::*;

verus! {

/// A filter that can be asked for.
#[derive(Clone, Copy, Debug, PartialEq, Eq, Structural)]
pub enum Downscaler {
    Bicubic,
    CatmullRom,
    Lanczos2,
    Lanczos3,
    Kaiser2,
    Kaiser3,
    Magic,
    /// One that there is no filter for.
    Other,
}

/// A fraction.
#[derive(Clone, Copy, Debug, PartialEq, Eq, Structural)]
pub struct Ratio {
    pub numerator: u32,
    pub denominator: u32,
}

/// What a filter is.
#[derive(Clone, Copy, Debug, PartialEq, Eq, Structural)]
pub enum Kernel {
    /// The cubic of Mitchell and Netravali with these parameters.
    Cubic { b: Ratio, c: Ratio },
    /// A sinc in a window of another.
    Lanczos { lobes: u32 },
    /// A sinc in a Kaiser window.
    Kaiser { lobes: u32, beta: u32 },
}

/// What a filter is. One that there is no filter for counts as `Lanczos3`.
pub open spec fn kernel_for(d: Downscaler) -> Kernel {
    let zero = Ratio { numerator: 0, denominator: 1 };
    let third = Ratio { numerator: 1, denominator: 3 };
    match d {
        Downscaler::Bicubic => Kernel::Cubic { b: third, c: third },
        Downscaler::CatmullRom => Kernel::Cubic { b: zero, c: Ratio { numerator: 1, denominator: 2 } },
        Downscaler::Magic => Kernel::Cubic { b: zero, c: Ratio { numerator: 3, denominator: 5 } },
        Downscaler::Lanczos2 => Kernel::Lanczos { lobes: 2 },
        Downscaler::Kaiser2 => Kernel::Kaiser { lobes: 2, beta: 6 },
        Downscaler::Kaiser3 => Kernel::Kaiser { lobes: 3, beta: 8 },
        Downscaler::Lanczos3 | Downscaler::Other => Kernel::Lanczos { lobes: 3 },
    }
}

/// How far a filter reaches, in samples.
pub open spec fn reach(k: Kernel) -> u32 {
    match k {
        Kernel::Cubic { .. } => 2,
        Kernel::Lanczos { lobes } => lobes,
        Kernel::Kaiser { lobes, .. } => lobes,
    }
}

/// What a filter is.
pub fn kernel(d: Downscaler) -> (k: Kernel)
    ensures
        k == kernel_for(d),
{
    let zero = Ratio { numerator: 0, denominator: 1 };
    let third = Ratio { numerator: 1, denominator: 3 };
    match d {
        Downscaler::Bicubic => Kernel::Cubic { b: third, c: third },
        Downscaler::CatmullRom => Kernel::Cubic { b: zero, c: Ratio { numerator: 1, denominator: 2 } },
        Downscaler::Magic => Kernel::Cubic { b: zero, c: Ratio { numerator: 3, denominator: 5 } },
        Downscaler::Lanczos2 => Kernel::Lanczos { lobes: 2 },
        Downscaler::Kaiser2 => Kernel::Kaiser { lobes: 2, beta: 6 },
        Downscaler::Kaiser3 => Kernel::Kaiser { lobes: 3, beta: 8 },
        Downscaler::Lanczos3 | Downscaler::Other => Kernel::Lanczos { lobes: 3 },
    }
}

/// How far a filter reaches, in samples.
pub fn support_radius(d: Downscaler) -> (radius: u32)
    ensures
        radius == reach(kernel_for(d)),
{
    match d {
        Downscaler::Bicubic | Downscaler::CatmullRom | Downscaler::Magic | Downscaler::Lanczos2 | Downscaler::Kaiser2 =>
        2,
        Downscaler::Kaiser3 | Downscaler::Lanczos3 | Downscaler::Other => 3,
    }
}

/// One axis of a resampling: for every output sample the first source sample that it reads, and the
/// weights of that one and those behind it.
pub struct AxisPlan<W> {
    first: Vec<i32>,
    weight_offsets: Vec<usize>,
    weights: Vec<W>,
}

impl<W> View for AxisPlan<W> {
    type V = Seq<(i32, Seq<W>)>;

    closed spec fn view(&self) -> Seq<(i32, Seq<W>)> {
        Seq::new(
            self.first@.len(),
            |i: int|
                (
                    self.first@[i],
                    self.weights@.subrange(self.weight_offsets@[i] as int, self.weight_offsets@[i + 1] as int),
                ),
        )
    }
}

impl<W: Copy> AxisPlan<W> {
    /// The weights of the samples stand one behind the other, and no sample reads beyond what an
    /// index can say.
    pub closed spec fn is_ok(&self) -> bool {
        &&& self.weight_offsets@.len() == self.first@.len() + 1
        &&& self.weight_offsets@[0] == 0
        &&& self.weight_offsets@.last() == self.weights@.len()
        &&& forall|i: int, j: int|
            0 <= i <= j < self.weight_offsets@.len() ==> self.weight_offsets@[i] <= self.weight_offsets@[j]
        &&& forall|i: int|
            0 <= i < self.first@.len() ==> #[trigger] self.first@[i] + self.weight_offsets@[i + 1]
                - self.weight_offsets@[i] <= i32::MAX
    }

    /// A plan for no samples.
    pub fn new() -> (plan: AxisPlan<W>)
        ensures
            plan.is_ok(),
            plan@.len() == 0,
    {
        let mut weight_offsets: Vec<usize> = Vec::new();
        weight_offsets.push(0);
        AxisPlan { first: Vec::new(), weight_offsets, weights: Vec::new() }
    }

    /// Adds an output sample.
    pub fn push(&mut self, first: i32, taps: &[W])
        requires
            old(self).is_ok(),
            first + taps@.len() <= i32::MAX,
            total_weights(old(self)@) + taps@.len() <= usize::MAX,
        ensures
            final(self).is_ok(),
            final(self)@ == old(self)@.push((first, taps@)),
    {
        let ghost before = *self;
        proof {
            before.weights_are_counted(before.first@.len() as int);
            assert(before@.take(before.first@.len() as int) =~= before@);
        }
        let mut t: usize = 0;
        while t < taps.len()
            invariant
                t <= taps@.len(),
                self.first == before.first,
                self.weight_offsets == before.weight_offsets,
                self.weights@ == before.weights@ + taps@.take(t as int),
                before.weights@.len() + taps@.len() <= usize::MAX,
            decreases taps@.len() - t,
        {
            self.weights.push(taps[t]);
            t += 1;
            assert(taps@.take(t as int) =~= taps@.take(t - 1).push(taps@[t - 1]));
        }
        assert(taps@.take(taps@.len() as int) =~= taps@);
        self.first.push(first);
        let end: usize = self.weights.len();
        self.weight_offsets.push(end);
        proof {
            let n = before.first@.len() as int;
            assert forall|i: int| 0 <= i < self.first@.len() implies #[trigger] self.first@[i] + self.weight_offsets@[i
                + 1] - self.weight_offsets@[i] <= i32::MAX by {
                if i < n {
                    assert(self.first@[i] == before.first@[i]);
                }
            }
            let after = self@;
            assert forall|i: int| 0 <= i < after.len() implies #[trigger] after[i] == before@.push((first, taps@))[i] by {
                if i < n {
                    assert(before.weight_offsets@[i + 1] <= before.weight_offsets@.last());
                    assert(after[i].1 =~= before@[i].1);
                } else {
                    assert(after[i].1 =~= taps@);
                }
            }
            assert(after =~= before@.push((first, taps@)));
        }
    }

    proof fn weights_are_counted(&self, n: int)
        requires
            self.is_ok(),
            0 <= n <= self.first@.len(),
        ensures
            total_weights(self@.take(n)) == self.weight_offsets@[n],
        decreases n,
    {
        if n > 0 {
            self.weights_are_counted(n - 1);
            assert(self@.take(n).drop_last() =~= self@.take(n - 1));
            assert(self@.take(n).last() == self@[n - 1]);
            assert(self.weight_offsets@[n] <= self.weight_offsets@.last());
        }
    }

    /// How many output samples there are.
    pub fn len(&self) -> (length: usize)
        ensures
            length == self@.len(),
    {
        self.first.len()
    }

    fn first_of(&self, i: usize) -> (first: i32)
        requires
            i < self@.len(),
        ensures
            first == self@[i as int].0,
    {
        self.first[i]
    }

    fn count_of(&self, i: usize) -> (count: usize)
        requires
            self.is_ok(),
            i < self@.len(),
        ensures
            count == self@[i as int].1.len(),
            self@[i as int].0 + count <= i32::MAX,
    {
        assert(self.weight_offsets@[i + 1] <= self.weight_offsets@.last());
        assert(self.first@[i as int] + self.weight_offsets@[i + 1] - self.weight_offsets@[i as int] <= i32::MAX);
        let places: usize = self.weight_offsets.len();
        assert(i + 1 < places);
        self.weight_offsets[i + 1] - self.weight_offsets[i]
    }

    fn weight_of(&self, i: usize, t: usize) -> (w: W)
        requires
            self.is_ok(),
            i < self@.len(),
            t < self@[i as int].1.len(),
        ensures
            w == self@[i as int].1[t as int],
    {
        assert(self.weight_offsets@[i + 1] <= self.weight_offsets@.last());
        self.weights[self.weight_offsets[i] + t]
    }
}

/// How many weights the samples of a plan have together.
pub open spec fn total_weights<W>(samples: Seq<(i32, Seq<W>)>) -> nat
    decreases samples.len(),
{
    if samples.len() == 0 {
        0
    } else {
        total_weights(samples.drop_last()) + samples.last().1.len()
    }
}

/// The nearest index into something of length `n`.
pub open spec fn clamped(i: int, n: int) -> int {
    if i < 0 {
        0
    } else if i >= n {
        n - 1
    } else {
        i
    }
}

/// The nearest index into something of length `n`.
fn clamp_index(i: i64, n: u32) -> (index: usize)
    requires
        0 < n,
    ensures
        index == clamped(i as int, n as int),
        index < n,
{
    if i < 0 {
        0
    } else if i >= n as i64 {
        (n - 1) as usize
    } else {
        i as usize
    }
}

/// A byte of a frame. Bytes that are missing count as zero.
pub open spec fn source_byte(src: Seq<u8>, width: int, x: int, y: int, channel: int) -> u8 {
    let at = (y * width + x) * 4 + channel;
    if at < src.len() {
        src[at]
    } else {
        0
    }
}

/// The samples of one row that an output sample reads.
pub open spec fn row_values<M>(
    src: Seq<u8>,
    levels: Seq<M>,
    width: int,
    first: int,
    count: nat,
    y: int,
    channel: int,
) -> Seq<M> {
    Seq::new(
        count,
        |t: int| levels[source_byte(src, width, clamped(first + t, width), y, channel) as int],
    )
}

/// The samples of one column that an output sample reads.
pub open spec fn column_values<M>(
    mid: Seq<M>,
    width: int,
    height: int,
    first: int,
    count: nat,
    x: int,
    channel: int,
) -> Seq<M> {
    Seq::new(count, |t: int| mid[(clamped(first + t, height) * width + x) * 4 + channel])
}

/// `sums` begins with `start`, and each sum comes of adding the next weighted value to the one before.
pub open spec fn are_sums<M, W, A: Fn(M, M, W) -> M>(
    weigh: A,
    start: M,
    values: Seq<M>,
    weights: Seq<W>,
    sums: Seq<M>,
) -> bool {
    &&& sums.len() == values.len() + 1
    &&& sums[0] == start
    &&& forall|t: int|
        0 <= t < values.len() ==> call_ensures(weigh, (sums[t], #[trigger] values[t], weights[t]), sums[t + 1])
}

/// `result` comes of adding weighted values to `start`, one after the other.
pub open spec fn accumulates<M, W, A: Fn(M, M, W) -> M>(
    weigh: A,
    start: M,
    values: Seq<M>,
    weights: Seq<W>,
    result: M,
) -> bool {
    exists|sums: Seq<M>| #[trigger] are_sums(weigh, start, values, weights, sums) && sums.last() == result
}

/// The column of the `k`th byte of a frame.
pub open spec fn column_of(k: int, width: int) -> int {
    (k / 4) % width
}

/// The row of the `k`th byte of a frame.
pub open spec fn line_of(k: int, width: int) -> int {
    (k / 4) / width
}

/// `mid` is the source resampled along its rows.
pub open spec fn rows_resampled<M, W, A: Fn(M, M, W) -> M>(
    src: Seq<u8>,
    width: int,
    height: int,
    plan: Seq<(i32, Seq<W>)>,
    levels: Seq<M>,
    zero: M,
    weigh: A,
    mid: Seq<M>,
) -> bool {
    &&& mid.len() == plan.len() * height * 4
    &&& forall|k: int|
        0 <= k < mid.len() ==> {
            let sample = plan[column_of(k, plan.len() as int)];
            accumulates(
                weigh,
                zero,
                row_values(
                    src,
                    levels,
                    width,
                    sample.0 as int,
                    sample.1.len(),
                    line_of(k, plan.len() as int),
                    k % 4,
                ),
                sample.1,
                #[trigger] mid[k],
            )
        }
}

/// `byte` is one that the `k`th output sample can be stored as.
pub open spec fn is_stored<M, W, A: Fn(M, M, W) -> M, S: Fn(M) -> u8>(
    mid: Seq<M>,
    width: int,
    height: int,
    plan: Seq<(i32, Seq<W>)>,
    zero: M,
    weigh: A,
    store: S,
    k: int,
    byte: u8,
) -> bool {
    let sample = plan[line_of(k, width)];
    let values = column_values(
        mid,
        width,
        height,
        sample.0 as int,
        sample.1.len(),
        column_of(k, width),
        k % 4,
    );
    exists|sum: M| #[trigger] accumulates(weigh, zero, values, sample.1, sum) && call_ensures(store, (sum,), byte)
}

/// `out` is what was resampled along its rows, resampled along its columns and stored as bytes.
pub open spec fn columns_resampled<M, W, A: Fn(M, M, W) -> M, S: Fn(M) -> u8>(
    mid: Seq<M>,
    width: int,
    height: int,
    plan: Seq<(i32, Seq<W>)>,
    zero: M,
    weigh: A,
    store: S,
    out: Seq<u8>,
) -> bool {
    &&& out.len() == width * plan.len() * 4
    &&& forall|k: int|
        0 <= k < out.len() ==> is_stored(mid, width, height, plan, zero, weigh, store, k, #[trigger] out[k])
}

proof fn index_fits(x: int, y: int, channel: int, width: int, height: int)
    requires
        0 <= x < width,
        0 <= y < height,
        0 <= channel < 4,
    ensures
        0 <= y * width + x,
        0 <= (y * width + x) * 4 + channel < width * height * 4,
{
    assert(0 <= y * width && y * width + width <= width * height) by (nonlinear_arith)
        requires
            0 <= y < height,
            0 < width,
    ;
}

proof fn place_fits(k: int, width: int, height: int)
    requires
        0 <= k < width * height * 4,
        0 < width,
    ensures
        0 <= column_of(k, width) < width,
        0 <= line_of(k, width) < height,
{
    let pixel = k / 4;
    assert(pixel < width * height);
    assert(0 <= pixel % width < width) by (nonlinear_arith)
        requires
            0 <= pixel,
            0 < width,
    ;
    assert(0 <= pixel / width < height) by (nonlinear_arith)
        requires
            0 <= pixel < width * height,
            0 < width,
    ;
}

fn gather_row<M: Copy, W: Copy, A: Fn(M, M, W) -> M>(
    src: &[u8],
    width: u32,
    height: u32,
    plan: &AxisPlan<W>,
    levels: &[M],
    zero: M,
    weigh: &A,
    x: usize,
    y: usize,
    channel: usize,
) -> (sum: M)
    requires
        plan.is_ok(),
        levels@.len() == 256,
        0 < width <= i32::MAX,
        width * height * 4 <= usize::MAX,
        x < plan@.len(),
        y < height,
        channel < 4,
        forall|acc: M, v: M, w: W| call_requires(*weigh, (acc, v, w)),
    ensures
        accumulates(
            *weigh,
            zero,
            row_values(
                src@,
                levels@,
                width as int,
                plan@[x as int].0 as int,
                plan@[x as int].1.len(),
                y as int,
                channel as int,
            ),
            plan@[x as int].1,
            sum,
        ),
{
    let first: i32 = plan.first_of(x);
    let count: usize = plan.count_of(x);
    let ghost all = row_values(src@, levels@, width as int, first as int, count as nat, y as int, channel as int);
    let ghost weights = plan@[x as int].1;
    let mut sum: M = zero;
    let ghost mut sums: Seq<M> = seq![zero];
    let mut t: usize = 0;
    while t < count
        invariant
            t <= count,
            plan.is_ok(),
            levels@.len() == 256,
            0 < width <= i32::MAX,
            width * height * 4 <= usize::MAX,
            x < plan@.len(),
            y < height,
            channel < 4,
            first == plan@[x as int].0,
            count == weights.len(),
            weights == plan@[x as int].1,
            first + count <= i32::MAX,
            all == row_values(src@, levels@, width as int, first as int, count as nat, y as int, channel as int),
            forall|acc: M, v: M, w: W| call_requires(*weigh, (acc, v, w)),
            sums.len() == t + 1,
            sums[0] == zero,
            sums.last() == sum,
            forall|i: int|
                0 <= i < t ==> call_ensures(*weigh, (sums[i], #[trigger] all[i], weights[i]), sums[i + 1]),
        decreases count - t,
    {
        let sx: usize = clamp_index(first as i64 + t as i64, width);
        proof {
            index_fits(sx as int, y as int, channel as int, width as int, height as int);
        }
        assert(y * width <= y * width + sx);
        let at: usize = (y * width as usize + sx) * 4 + channel;
        let byte: u8 = if at < src.len() {
            src[at]
        } else {
            0
        };
        let value: M = levels[byte as usize];
        let weight: W = plan.weight_of(x, t);
        let ghost before = sum;
        sum = weigh(sum, value, weight);
        proof {
            assert(value == all[t as int]);
            assert(call_ensures(*weigh, (before, all[t as int], weights[t as int]), sum));
            sums = sums.push(sum);
        }
        t += 1;
    }
    assert(are_sums(*weigh, zero, all, weights, sums));
    sum
}

fn gather_column<M: Copy, W: Copy, A: Fn(M, M, W) -> M>(
    mid: &Vec<M>,
    width: u32,
    height: u32,
    plan: &AxisPlan<W>,
    zero: M,
    weigh: &A,
    x: usize,
    y: usize,
    channel: usize,
) -> (sum: M)
    requires
        plan.is_ok(),
        0 < height <= i32::MAX,
        mid@.len() == width * height * 4,
        x < width,
        y < plan@.len(),
        channel < 4,
        forall|acc: M, v: M, w: W| call_requires(*weigh, (acc, v, w)),
    ensures
        accumulates(
            *weigh,
            zero,
            column_values(
                mid@,
                width as int,
                height as int,
                plan@[y as int].0 as int,
                plan@[y as int].1.len(),
                x as int,
                channel as int,
            ),
            plan@[y as int].1,
            sum,
        ),
{
    let first: i32 = plan.first_of(y);
    let count: usize = plan.count_of(y);
    let ghost all = column_values(
        mid@,
        width as int,
        height as int,
        first as int,
        count as nat,
        x as int,
        channel as int,
    );
    let ghost weights = plan@[y as int].1;
    let mut sum: M = zero;
    let ghost mut sums: Seq<M> = seq![zero];
    let mut t: usize = 0;
    while t < count
        invariant
            t <= count,
            plan.is_ok(),
            0 < height <= i32::MAX,
            mid@.len() == width * height * 4,
            x < width,
            y < plan@.len(),
            channel < 4,
            first == plan@[y as int].0,
            count == weights.len(),
            weights == plan@[y as int].1,
            first + count <= i32::MAX,
            all == column_values(
                mid@,
                width as int,
                height as int,
                first as int,
                count as nat,
                x as int,
                channel as int,
            ),
            forall|acc: M, v: M, w: W| call_requires(*weigh, (acc, v, w)),
            sums.len() == t + 1,
            sums[0] == zero,
            sums.last() == sum,
            forall|i: int|
                0 <= i < t ==> call_ensures(*weigh, (sums[i], #[trigger] all[i], weights[i]), sums[i + 1]),
        decreases count - t,
    {
        let sy: usize = clamp_index(first as i64 + t as i64, height);
        proof {
            index_fits(x as int, sy as int, channel as int, width as int, height as int);
        }
        assert(sy * width <= sy * width + x);
        let places: usize = mid.len();
        assert(sy * width + x < places);
        let value: M = mid[(sy * width as usize + x) * 4 + channel];
        let weight: W = plan.weight_of(y, t);
        let ghost before = sum;
        sum = weigh(sum, value, weight);
        proof {
            assert(value == all[t as int]);
            assert(call_ensures(*weigh, (before, all[t as int], weights[t as int]), sum));
            sums = sums.push(sum);
        }
        t += 1;
    }
    assert(are_sums(*weigh, zero, all, weights, sums));
    sum
}

/// The source resampled along its rows.
fn resample_rows<M: Copy, W: Copy, A: Fn(M, M, W) -> M>(
    src: &[u8],
    src_w: u32,
    src_h: u32,
    dst_w: u32,
    plan: &AxisPlan<W>,
    levels: &[M],
    zero: M,
    weigh: &A,
) -> (mid: Vec<M>)
    requires
        plan.is_ok(),
        plan@.len() == dst_w,
        levels@.len() == 256,
        0 < src_w <= i32::MAX,
        0 < src_h <= i32::MAX,
        0 < dst_w,
        src_w * src_h * 4 <= usize::MAX,
        dst_w * src_h * 4 <= usize::MAX,
        forall|acc: M, v: M, w: W| call_requires(*weigh, (acc, v, w)),
    ensures
        rows_resampled(src@, src_w as int, src_h as int, plan@, levels@, zero, *weigh, mid@),
{
    assert(0 <= dst_w * src_h) by (nonlinear_arith)
        requires
            0 <= dst_w,
            0 <= src_h,
    ;
    let total: usize = dst_w as usize * src_h as usize * 4;
    let width: usize = dst_w as usize;
    let mut mid: Vec<M> = Vec::new();
    let mut k: usize = 0;
    while k < total
        invariant
            k <= total,
            total == plan@.len() * src_h * 4,
            width == plan@.len(),
            plan.is_ok(),
            levels@.len() == 256,
            0 < src_w <= i32::MAX,
            0 < width,
            src_w * src_h * 4 <= usize::MAX,
            forall|acc: M, v: M, w: W| call_requires(*weigh, (acc, v, w)),
            mid@.len() == k,
            forall|i: int|
                0 <= i < k ==> {
                    let sample = plan@[column_of(i, plan@.len() as int)];
                    accumulates(
                        *weigh,
                        zero,
                        row_values(
                            src@,
                            levels@,
                            src_w as int,
                            sample.0 as int,
                            sample.1.len(),
                            line_of(i, plan@.len() as int),
                            i % 4,
                        ),
                        sample.1,
                        #[trigger] mid@[i],
                    )
                },
        decreases total - k,
    {
        proof {
            place_fits(k as int, width as int, src_h as int);
        }
        let x: usize = (k / 4) % width;
        let y: usize = (k / 4) / width;
        let sum: M = gather_row(src, src_w, src_h, plan, levels, zero, weigh, x, y, k % 4);
        mid.push(sum);
        k += 1;
    }
    mid
}

/// What was resampled along its rows, resampled along its columns and stored as bytes.
fn resample_columns<M: Copy, W: Copy, A: Fn(M, M, W) -> M, S: Fn(M) -> u8>(
    mid: &Vec<M>,
    src_h: u32,
    dst_w: u32,
    dst_h: u32,
    plan: &AxisPlan<W>,
    zero: M,
    weigh: &A,
    store: &S,
) -> (out: Vec<u8>)
    requires
        plan.is_ok(),
        plan@.len() == dst_h,
        0 < src_h <= i32::MAX,
        0 < dst_w,
        mid@.len() == dst_w * src_h * 4,
        dst_w * dst_h * 4 <= usize::MAX,
        forall|acc: M, v: M, w: W| call_requires(*weigh, (acc, v, w)),
        forall|sum: M| call_requires(*store, (sum,)),
    ensures
        columns_resampled(mid@, dst_w as int, src_h as int, plan@, zero, *weigh, *store, out@),
{
    assert(0 <= dst_w * dst_h) by (nonlinear_arith)
        requires
            0 <= dst_w,
            0 <= dst_h,
    ;
    let total: usize = dst_w as usize * dst_h as usize * 4;
    let width: usize = dst_w as usize;
    let mut out: Vec<u8> = Vec::new();
    let mut k: usize = 0;
    while k < total
        invariant
            k <= total,
            total == dst_w * plan@.len() * 4,
            width == dst_w,
            plan.is_ok(),
            0 < src_h <= i32::MAX,
            0 < dst_w,
            mid@.len() == dst_w * src_h * 4,
            forall|acc: M, v: M, w: W| call_requires(*weigh, (acc, v, w)),
            forall|sum: M| call_requires(*store, (sum,)),
            out@.len() == k,
            forall|i: int|
                0 <= i < k ==> is_stored(
                    mid@,
                    dst_w as int,
                    src_h as int,
                    plan@,
                    zero,
                    *weigh,
                    *store,
                    i,
                    #[trigger] out@[i],
                ),
        decreases total - k,
    {
        proof {
            place_fits(k as int, width as int, plan@.len() as int);
        }
        let x: usize = (k / 4) % width;
        let y: usize = (k / 4) / width;
        let sum: M = gather_column(mid, dst_w, src_h, plan, zero, weigh, x, y, k % 4);
        let byte: u8 = store(sum);
        assert(is_stored(mid@, dst_w as int, src_h as int, plan@, zero, *weigh, *store, k as int, byte));
        out.push(byte);
        k += 1;
    }
    out
}

/// Whether a frame has to be resampled: it has pixels, is to have pixels, and does not keep its size.
pub open spec fn is_resampling(src_w: u32, src_h: u32, dst_w: u32, dst_h: u32) -> bool {
    src_w != 0 && src_h != 0 && dst_w != 0 && dst_h != 0 && !(src_w == dst_w && src_h == dst_h)
}

/// A frame of `n` bytes: zeros make up for what is missing, and what is too much is left out.
pub open spec fn padded(src: Seq<u8>, n: nat) -> Seq<u8> {
    Seq::new(
        n,
        |i: int|
            if i < src.len() {
                src[i]
            } else {
                0
            },
    )
}

/// `out` is a frame resampled to another size.
pub open spec fn is_resampled<M, W, A: Fn(M, M, W) -> M, S: Fn(M) -> u8>(
    src: Seq<u8>,
    src_w: u32,
    src_h: u32,
    dst_w: u32,
    dst_h: u32,
    plan_x: Seq<(i32, Seq<W>)>,
    plan_y: Seq<(i32, Seq<W>)>,
    levels: Seq<M>,
    zero: M,
    weigh: A,
    store: S,
    out: Seq<u8>,
) -> bool {
    if is_resampling(src_w, src_h, dst_w, dst_h) {
        exists|mid: Seq<M>| #[trigger]
            rows_resampled(src, src_w as int, src_h as int, plan_x, levels, zero, weigh, mid) && columns_resampled(
                mid,
                dst_w as int,
                src_h as int,
                plan_y,
                zero,
                weigh,
                store,
                out,
            )
    } else if src_w == 0 || src_h == 0 || dst_w == 0 || dst_h == 0 {
        out == Seq::new((dst_w * dst_h * 4) as nat, |i: int| 0u8)
    } else {
        out == padded(src, (dst_w * dst_h * 4) as nat)
    }
}

/// Resamples a frame of four bytes a pixel to another size, along its rows and then along its
/// columns. Samples beyond an edge count as those at the edge, and bytes that are missing as zero. A
/// frame that keeps its size is copied as it is, and one without pixels gives zeros.
///
/// `levels` says what each byte stands for, `weigh` adds a weighted value to a sum that begins at
/// `zero`, and `store` makes a byte of a sum.
pub fn resample_rgba8<M: Copy, W: Copy, A: Fn(M, M, W) -> M, S: Fn(M) -> u8>(
    src: &[u8],
    src_w: u32,
    src_h: u32,
    dst_w: u32,
    dst_h: u32,
    plan_x: &AxisPlan<W>,
    plan_y: &AxisPlan<W>,
    levels: &[M],
    zero: M,
    weigh: &A,
    store: &S,
) -> (out: Vec<u8>)
    requires
        dst_w * dst_h * 4 <= usize::MAX,
        is_resampling(src_w, src_h, dst_w, dst_h) ==> {
            &&& plan_x.is_ok() && plan_x@.len() == dst_w
            &&& plan_y.is_ok() && plan_y@.len() == dst_h
            &&& levels@.len() == 256
            &&& src_w <= i32::MAX && src_h <= i32::MAX
            &&& src_w * src_h * 4 <= usize::MAX
            &&& dst_w * src_h * 4 <= usize::MAX
        },
        forall|acc: M, v: M, w: W| call_requires(*weigh, (acc, v, w)),
        forall|sum: M| call_requires(*store, (sum,)),
    ensures
        out@.len() == dst_w * dst_h * 4,
        is_resampled(
            src@,
            src_w,
            src_h,
            dst_w,
            dst_h,
            plan_x@,
            plan_y@,
            levels@,
            zero,
            *weigh,
            *store,
            out@,
        ),
{
    assert(0 <= dst_w * dst_h) by (nonlinear_arith)
        requires
            0 <= dst_w,
            0 <= dst_h,
    ;
    let total: usize = dst_w as usize * dst_h as usize * 4;
    if src_w == 0 || src_h == 0 || dst_w == 0 || dst_h == 0 {
        let mut out: Vec<u8> = Vec::new();
        let mut i: usize = 0;
        while i < total
            invariant
                i <= total,
                out@.len() == i,
                forall|k: int| 0 <= k < i ==> #[trigger] out@[k] == 0,
            decreases total - i,
        {
            out.push(0);
            i += 1;
        }
        assert(out@ =~= Seq::new((dst_w * dst_h * 4) as nat, |i: int| 0u8));
        return out;
    }
    if src_w == dst_w && src_h == dst_h {
        let mut out: Vec<u8> = Vec::new();
        let mut i: usize = 0;
        while i < total
            invariant
                i <= total,
                out@.len() == i,
                forall|k: int|
                    0 <= k < i ==> #[trigger] out@[k] == (if k < src@.len() {
                        src@[k]
                    } else {
                        0
                    }),
            decreases total - i,
        {
            let byte: u8 = if i < src.len() {
                src[i]
            } else {
                0
            };
            out.push(byte);
            i += 1;
        }
        assert(out@ =~= padded(src@, (dst_w * dst_h * 4) as nat));
        return out;
    }
    let mid: Vec<M> = resample_rows(src, src_w, src_h, dst_w, plan_x, levels, zero, weigh);
    let out: Vec<u8> = resample_columns(&mid, src_h, dst_w, dst_h, plan_y, zero, weigh, store);
    proof {
        assert(rows_resampled(src@, src_w as int, src_h as int, plan_x@, levels@, zero, *weigh, mid@));
    }
    out
}

/// Whether adding a weighted value has one result.
pub open spec fn weighs_alike<M, W, A: Fn(M, M, W) -> M>(weigh: A) -> bool {
    forall|acc: M, v: M, w: W, one: M, other: M|
        #[trigger] call_ensures(weigh, (acc, v, w), one) && #[trigger] call_ensures(weigh, (acc, v, w), other) ==> one
            == other
}

/// Whether a sum is stored as one byte.
pub open spec fn stores_alike<M, S: Fn(M) -> u8>(store: S) -> bool {
    forall|sum: M, one: u8, other: u8|
        #[trigger] call_ensures(store, (sum,), one) && #[trigger] call_ensures(store, (sum,), other) ==> one == other
}

proof fn lemma_one_sum<M, W, A: Fn(M, M, W) -> M>(
    weigh: A,
    zero: M,
    values: Seq<M>,
    weights: Seq<W>,
    one: M,
    other: M,
)
    requires
        weighs_alike(weigh),
        accumulates(weigh, zero, values, weights, one),
        accumulates(weigh, zero, values, weights, other),
    ensures
        one == other,
{
    let a = choose|sums: Seq<M>| #[trigger] are_sums(weigh, zero, values, weights, sums) && sums.last() == one;
    let b = choose|sums: Seq<M>| #[trigger] are_sums(weigh, zero, values, weights, sums) && sums.last() == other;
    lemma_same_sums(weigh, zero, values, weights, a, b, values.len() as int);
}

proof fn lemma_same_sums<M, W, A: Fn(M, M, W) -> M>(
    weigh: A,
    zero: M,
    values: Seq<M>,
    weights: Seq<W>,
    a: Seq<M>,
    b: Seq<M>,
    t: int,
)
    requires
        weighs_alike(weigh),
        are_sums(weigh, zero, values, weights, a),
        are_sums(weigh, zero, values, weights, b),
        0 <= t <= values.len(),
    ensures
        a[t] == b[t],
    decreases t,
{
    if t > 0 {
        lemma_same_sums(weigh, zero, values, weights, a, b, t - 1);
        let (v, w) = (values[t - 1], weights[t - 1]);
        assert(call_ensures(weigh, (a[t - 1], v, w), a[t - 1 + 1]));
        assert(call_ensures(weigh, (b[t - 1], v, w), b[t - 1 + 1]));
    }
}

/// The place, in the same pixel, that the byte at `k` is taken from.
pub open spec fn place_from(k: int, from: spec_fn(int) -> int) -> int {
    k - k % 4 + from(k % 4)
}

proof fn lemma_place_from(k: int, from: spec_fn(int) -> int, width: int, height: int)
    requires
        0 <= k < width * height * 4,
        0 <= from(k % 4) < 4,
    ensures
        0 <= place_from(k, from) < width * height * 4,
        place_from(k, from) % 4 == from(k % 4),
        column_of(place_from(k, from), width) == column_of(k, width),
        line_of(place_from(k, from), width) == line_of(k, width),
{
    assert(place_from(k, from) / 4 == k / 4);
}

/// What a frame is resampled to is fixed, where the arithmetic that is handed in is a function.
pub proof fn resampling_has_one_result<M, W, A: Fn(M, M, W) -> M, S: Fn(M) -> u8>(
    src: Seq<u8>,
    src_w: u32,
    src_h: u32,
    dst_w: u32,
    dst_h: u32,
    plan_x: Seq<(i32, Seq<W>)>,
    plan_y: Seq<(i32, Seq<W>)>,
    levels: Seq<M>,
    zero: M,
    weigh: A,
    store: S,
    one: Seq<u8>,
    other: Seq<u8>,
)
    requires
        weighs_alike(weigh),
        stores_alike::<M, S>(store),
        is_resampled(src, src_w, src_h, dst_w, dst_h, plan_x, plan_y, levels, zero, weigh, store, one),
        is_resampled(src, src_w, src_h, dst_w, dst_h, plan_x, plan_y, levels, zero, weigh, store, other),
    ensures
        one == other,
{
    if is_resampling(src_w, src_h, dst_w, dst_h) {
        let (sw, sh, w) = (src_w as int, src_h as int, dst_w as int);
        let a = choose|mid: Seq<M>| #[trigger]
            rows_resampled(src, sw, sh, plan_x, levels, zero, weigh, mid) && columns_resampled(
                mid,
                w,
                sh,
                plan_y,
                zero,
                weigh,
                store,
                one,
            );
        let b = choose|mid: Seq<M>| #[trigger]
            rows_resampled(src, sw, sh, plan_x, levels, zero, weigh, mid) && columns_resampled(
                mid,
                w,
                sh,
                plan_y,
                zero,
                weigh,
                store,
                other,
            );
        let columns = plan_x.len() as int;
        assert forall|k: int| 0 <= k < a.len() implies #[trigger] a[k] == b[k] by {
            let sample = plan_x[column_of(k, columns)];
            let values = row_values(
                src,
                levels,
                sw,
                sample.0 as int,
                sample.1.len(),
                line_of(k, columns),
                k % 4,
            );
            assert(accumulates(weigh, zero, values, sample.1, b[k]));
            lemma_one_sum(weigh, zero, values, sample.1, a[k], b[k]);
        }
        assert(a =~= b);
        assert forall|k: int| 0 <= k < one.len() implies #[trigger] one[k] == other[k] by {
            let sample = plan_y[line_of(k, w)];
            let values = column_values(a, w, sh, sample.0 as int, sample.1.len(), column_of(k, w), k % 4);
            assert(is_stored(a, w, sh, plan_y, zero, weigh, store, k, one[k]));
            assert(is_stored(a, w, sh, plan_y, zero, weigh, store, k, other[k]));
            let x = choose|sum: M| #[trigger] accumulates(weigh, zero, values, sample.1, sum) && call_ensures(
                store,
                (sum,),
                one[k],
            );
            let y = choose|sum: M| #[trigger] accumulates(weigh, zero, values, sample.1, sum) && call_ensures(
                store,
                (sum,),
                other[k],
            );
            lemma_one_sum(weigh, zero, values, sample.1, x, y);
        }
        assert(one =~= other);
    }
}

/// `one` with its channels moved: at every place stands what `one` holds at the same pixel, in the
/// channel that `from` gives.
pub open spec fn moved<T>(one: Seq<T>, from: spec_fn(int) -> int) -> Seq<T> {
    Seq::new(one.len(), |k: int| one[place_from(k, from)])
}

proof fn lemma_rows_of_moved<M, W, A: Fn(M, M, W) -> M>(
    src: Seq<u8>,
    from: spec_fn(int) -> int,
    width: int,
    height: int,
    plan: Seq<(i32, Seq<W>)>,
    levels: Seq<M>,
    zero: M,
    weigh: A,
    mid: Seq<M>,
)
    requires
        0 < width,
        0 < height,
        0 < plan.len(),
        src.len() == width * height * 4,
        forall|c: int| 0 <= c < 4 ==> 0 <= #[trigger] from(c) < 4,
        rows_resampled(src, width, height, plan, levels, zero, weigh, mid),
    ensures
        rows_resampled(moved(src, from), width, height, plan, levels, zero, weigh, moved(mid, from)),
{
    let columns = plan.len() as int;
    let other = moved(src, from);
    let mid_other = moved(mid, from);
    assert forall|k: int| 0 <= k < mid_other.len() implies ({
        let sample = plan[column_of(k, columns)];
        accumulates(
            weigh,
            zero,
            row_values(other, levels, width, sample.0 as int, sample.1.len(), line_of(k, columns), k % 4),
            sample.1,
            #[trigger] mid_other[k],
        )
    }) by {
        let k1 = place_from(k, from);
        lemma_place_from(k, from, columns, height);
        place_fits(k, columns, height);
        let sample = plan[column_of(k, columns)];
        let y = line_of(k, columns);
        let (first, count) = (sample.0 as int, sample.1.len());
        let one = row_values(src, levels, width, first, count, y, k1 % 4);
        let two = row_values(other, levels, width, first, count, y, k % 4);
        assert forall|t: int| 0 <= t < count implies #[trigger] one[t] == two[t] by {
            let x = clamped(first + t, width);
            index_fits(x, y, k % 4, width, height);
            index_fits(x, y, k1 % 4, width, height);
            let at = (y * width + x) * 4 + k % 4;
            assert(at % 4 == k % 4);
            assert(other[at] == src[place_from(at, from)]);
        }
        assert(one =~= two);
        assert(accumulates(weigh, zero, one, sample.1, mid[k1]));
    }
}

proof fn lemma_columns_of_moved<M, W, A: Fn(M, M, W) -> M, S: Fn(M) -> u8>(
    mid: Seq<M>,
    from: spec_fn(int) -> int,
    width: int,
    height: int,
    plan: Seq<(i32, Seq<W>)>,
    zero: M,
    weigh: A,
    store: S,
    out: Seq<u8>,
)
    requires
        0 < width,
        0 < height,
        mid.len() == width * height * 4,
        forall|c: int| 0 <= c < 4 ==> 0 <= #[trigger] from(c) < 4,
        columns_resampled(mid, width, height, plan, zero, weigh, store, out),
    ensures
        columns_resampled(moved(mid, from), width, height, plan, zero, weigh, store, moved(out, from)),
{
    let rows = plan.len() as int;
    let mid_other = moved(mid, from);
    let out_other = moved(out, from);
    assert forall|k: int| 0 <= k < out_other.len() implies is_stored(
        mid_other,
        width,
        height,
        plan,
        zero,
        weigh,
        store,
        k,
        #[trigger] out_other[k],
    ) by {
        let k1 = place_from(k, from);
        lemma_place_from(k, from, width, rows);
        place_fits(k, width, rows);
        let sample = plan[line_of(k, width)];
        let x = column_of(k, width);
        let (first, count) = (sample.0 as int, sample.1.len());
        let one = column_values(mid, width, height, first, count, x, k1 % 4);
        let two = column_values(mid_other, width, height, first, count, x, k % 4);
        assert forall|t: int| 0 <= t < count implies #[trigger] one[t] == two[t] by {
            let y = clamped(first + t, height);
            index_fits(x, y, k % 4, width, height);
            let at = (y * width + x) * 4 + k % 4;
            assert(at % 4 == k % 4);
            assert(mid_other[at] == mid[place_from(at, from)]);
        }
        assert(one =~= two);
        assert(is_stored(mid, width, height, plan, zero, weigh, store, k1, out[k1]));
    }
}

/// Channels never mix, and alpha is treated like the others: whatever a frame resamples to, the frame
/// with its channels moved resamples to that with its channels moved the same way.
pub proof fn moved_channels_have_moved_results<M, W, A: Fn(M, M, W) -> M, S: Fn(M) -> u8>(
    src: Seq<u8>,
    from: spec_fn(int) -> int,
    src_w: u32,
    src_h: u32,
    dst_w: u32,
    dst_h: u32,
    plan_x: Seq<(i32, Seq<W>)>,
    plan_y: Seq<(i32, Seq<W>)>,
    levels: Seq<M>,
    zero: M,
    weigh: A,
    store: S,
    out: Seq<u8>,
)
    requires
        forall|c: int| 0 <= c < 4 ==> 0 <= #[trigger] from(c) < 4,
        src.len() == src_w * src_h * 4,
        plan_x.len() == dst_w,
        plan_y.len() == dst_h,
        is_resampled(src, src_w, src_h, dst_w, dst_h, plan_x, plan_y, levels, zero, weigh, store, out),
    ensures
        is_resampled(
            moved(src, from),
            src_w,
            src_h,
            dst_w,
            dst_h,
            plan_x,
            plan_y,
            levels,
            zero,
            weigh,
            store,
            moved(out, from),
        ),
{
    let (w, h) = (dst_w as int, dst_h as int);
    if is_resampling(src_w, src_h, dst_w, dst_h) {
        let (sw, sh) = (src_w as int, src_h as int);
        let mid = choose|mid: Seq<M>| #[trigger]
            rows_resampled(src, sw, sh, plan_x, levels, zero, weigh, mid) && columns_resampled(
                mid,
                w,
                sh,
                plan_y,
                zero,
                weigh,
                store,
                out,
            );
        lemma_rows_of_moved(src, from, sw, sh, plan_x, levels, zero, weigh, mid);
        lemma_columns_of_moved(mid, from, w, sh, plan_y, zero, weigh, store, out);
        assert(rows_resampled(moved(src, from), sw, sh, plan_x, levels, zero, weigh, moved(mid, from)));
    } else {
        assert(0 <= w * h) by (nonlinear_arith)
            requires
                0 <= w,
                0 <= h,
        ;
        let n = (dst_w * dst_h * 4) as nat;
        assert forall|k: int| 0 <= k < n implies 0 <= #[trigger] place_from(k, from) < n by {
            lemma_place_from(k, from, w, h);
        }
        if src_w == 0 || src_h == 0 || dst_w == 0 || dst_h == 0 {
            assert(moved(out, from) =~= out);
        } else {
            assert(moved(out, from) =~= padded(moved(src, from), n));
        }
    }
}

/// A frame whose channels are rearranged, each taken from the one that `from` gives, resamples to the
/// very bytes of the result with its channels rearranged the same way, where the arithmetic that is
/// handed in is a function.
pub proof fn channels_never_mix<M, W, A: Fn(M, M, W) -> M, S: Fn(M) -> u8>(
    src: Seq<u8>,
    other: Seq<u8>,
    from: spec_fn(int) -> int,
    src_w: u32,
    src_h: u32,
    dst_w: u32,
    dst_h: u32,
    plan_x: Seq<(i32, Seq<W>)>,
    plan_y: Seq<(i32, Seq<W>)>,
    levels: Seq<M>,
    zero: M,
    weigh: A,
    store: S,
    out: Seq<u8>,
    out_other: Seq<u8>,
)
    requires
        weighs_alike(weigh),
        stores_alike::<M, S>(store),
        forall|c: int| 0 <= c < 4 ==> 0 <= #[trigger] from(c) < 4,
        src.len() == src_w * src_h * 4,
        other == moved(src, from),
        plan_x.len() == dst_w,
        plan_y.len() == dst_h,
        is_resampled(src, src_w, src_h, dst_w, dst_h, plan_x, plan_y, levels, zero, weigh, store, out),
        is_resampled(other, src_w, src_h, dst_w, dst_h, plan_x, plan_y, levels, zero, weigh, store, out_other),
    ensures
        out_other == moved(out, from),
{
    moved_channels_have_moved_results(
        src,
        from,
        src_w,
        src_h,
        dst_w,
        dst_h,
        plan_x,
        plan_y,
        levels,
        zero,
        weigh,
        store,
        out,
    );
    resampling_has_one_result(
        other,
        src_w,
        src_h,
        dst_w,
        dst_h,
        plan_x,
        plan_y,
        levels,
        zero,
        weigh,
        store,
        moved(out, from),
        out_other,
    );
}

proof fn lemma_rows_alike<M, W, A: Fn(M, M, W) -> M>(
    src: Seq<u8>,
    other: Seq<u8>,
    width: int,
    height: int,
    plan: Seq<(i32, Seq<W>)>,
    levels: Seq<M>,
    zero: M,
    weigh: A,
    mid: Seq<M>,
)
    requires
        0 < width,
        0 < plan.len(),
        0 <= width * height,
        padded(src, (width * height * 4) as nat) == padded(other, (width * height * 4) as nat),
        rows_resampled(src, width, height, plan, levels, zero, weigh, mid),
    ensures
        rows_resampled(other, width, height, plan, levels, zero, weigh, mid),
{
    let n = (width * height * 4) as nat;
    let columns = plan.len() as int;
    assert forall|k: int| 0 <= k < mid.len() implies ({
        let sample = plan[column_of(k, columns)];
        accumulates(
            weigh,
            zero,
            row_values(other, levels, width, sample.0 as int, sample.1.len(), line_of(k, columns), k % 4),
            sample.1,
            #[trigger] mid[k],
        )
    }) by {
        place_fits(k, columns, height);
        let sample = plan[column_of(k, columns)];
        let y = line_of(k, columns);
        let (first, count) = (sample.0 as int, sample.1.len());
        let one = row_values(src, levels, width, first, count, y, k % 4);
        let two = row_values(other, levels, width, first, count, y, k % 4);
        assert forall|t: int| 0 <= t < count implies #[trigger] one[t] == two[t] by {
            let x = clamped(first + t, width);
            index_fits(x, y, k % 4, width, height);
            let at = (y * width + x) * 4 + k % 4;
            assert(padded(src, n)[at] == padded(other, n)[at]);
        }
        assert(one =~= two);
    }
}

/// A source that is too short counts as one with zeros behind it, and what a source has beyond its
/// pixels is not read: it has the results of its copy of the right size, and no others.
pub proof fn a_padded_source_has_the_same_results<M, W, A: Fn(M, M, W) -> M, S: Fn(M) -> u8>(
    src: Seq<u8>,
    src_w: u32,
    src_h: u32,
    dst_w: u32,
    dst_h: u32,
    plan_x: Seq<(i32, Seq<W>)>,
    plan_y: Seq<(i32, Seq<W>)>,
    levels: Seq<M>,
    zero: M,
    weigh: A,
    store: S,
    out: Seq<u8>,
)
    requires
        plan_x.len() == dst_w,
        plan_y.len() == dst_h,
    ensures
        is_resampled(src, src_w, src_h, dst_w, dst_h, plan_x, plan_y, levels, zero, weigh, store, out)
            <==> is_resampled(
            padded(src, (src_w * src_h * 4) as nat),
            src_w,
            src_h,
            dst_w,
            dst_h,
            plan_x,
            plan_y,
            levels,
            zero,
            weigh,
            store,
            out,
        ),
{
    let n = (src_w * src_h * 4) as nat;
    let full = padded(src, n);
    let (sw, sh, w) = (src_w as int, src_h as int, dst_w as int);
    assert(0 <= sw * sh) by (nonlinear_arith)
        requires
            0 <= sw,
            0 <= sh,
    ;
    assert(padded(full, n) =~= full);
    if is_resampling(src_w, src_h, dst_w, dst_h) {
        assert forall|mid: Seq<M>| #[trigger]
            rows_resampled(src, sw, sh, plan_x, levels, zero, weigh, mid) implies rows_resampled(
            full,
            sw,
            sh,
            plan_x,
            levels,
            zero,
            weigh,
            mid,
        ) by {
            lemma_rows_alike(src, full, sw, sh, plan_x, levels, zero, weigh, mid);
        }
        assert forall|mid: Seq<M>| #[trigger]
            rows_resampled(full, sw, sh, plan_x, levels, zero, weigh, mid) implies rows_resampled(
            src,
            sw,
            sh,
            plan_x,
            levels,
            zero,
            weigh,
            mid,
        ) by {
            lemma_rows_alike(full, src, sw, sh, plan_x, levels, zero, weigh, mid);
        }
    } else if src_w == dst_w && src_h == dst_h {
        assert(padded(full, (dst_w * dst_h * 4) as nat) =~= padded(src, (dst_w * dst_h * 4) as nat));
    }
}

/// A source that is too short, or too long, resamples to the very bytes of its copy of the right size,
/// where the arithmetic that is handed in is a function.
pub proof fn a_source_counts_as_padded<M, W, A: Fn(M, M, W) -> M, S: Fn(M) -> u8>(
    src: Seq<u8>,
    src_w: u32,
    src_h: u32,
    dst_w: u32,
    dst_h: u32,
    plan_x: Seq<(i32, Seq<W>)>,
    plan_y: Seq<(i32, Seq<W>)>,
    levels: Seq<M>,
    zero: M,
    weigh: A,
    store: S,
    out: Seq<u8>,
    out_padded: Seq<u8>,
)
    requires
        weighs_alike(weigh),
        stores_alike::<M, S>(store),
        plan_x.len() == dst_w,
        plan_y.len() == dst_h,
        is_resampled(src, src_w, src_h, dst_w, dst_h, plan_x, plan_y, levels, zero, weigh, store, out),
        is_resampled(
            padded(src, (src_w * src_h * 4) as nat),
            src_w,
            src_h,
            dst_w,
            dst_h,
            plan_x,
            plan_y,
            levels,
            zero,
            weigh,
            store,
            out_padded,
        ),
    ensures
        out == out_padded,
{
    let full = padded(src, (src_w * src_h * 4) as nat);
    a_padded_source_has_the_same_results(
        src,
        src_w,
        src_h,
        dst_w,
        dst_h,
        plan_x,
        plan_y,
        levels,
        zero,
        weigh,
        store,
        out,
    );
    resampling_has_one_result(
        full,
        src_w,
        src_h,
        dst_w,
        dst_h,
        plan_x,
        plan_y,
        levels,
        zero,
        weigh,
        store,
        out,
        out_padded,
    );
}

/// A frame of one colour is that colour wherever it is read, at its edges too: what an output sample
/// adds up depends on its weights alone.
pub proof fn a_flat_frame_is_read_as_its_colour<M>(
    src: Seq<u8>,
    levels: Seq<M>,
    width: int,
    height: int,
    first: int,
    count: nat,
    y: int,
    channel: int,
    colour: u8,
)
    requires
        0 < width,
        0 <= y < height,
        0 <= channel < 4,
        src.len() >= width * height * 4,
        forall|i: int| 0 <= i < src.len() && i % 4 == channel ==> #[trigger] src[i] == colour,
    ensures
        forall|t: int|
            0 <= t < count ==> #[trigger] row_values(src, levels, width, first, count, y, channel)[t]
                == levels[colour as int],
{
    assert forall|t: int| 0 <= t < count implies #[trigger] row_values(
        src,
        levels,
        width,
        first,
        count,
        y,
        channel,
    )[t]
        == levels[colour as int] by {
        let x = clamped(first + t, width);
        index_fits(x, y, channel, width, height);
        let at = (y * width + x) * 4 + channel;
        assert(at % 4 == channel);
        assert(src[at] == colour);
    }
}

/// A byte's place is told by its pixel and its channel.
proof fn lemma_place(x: int, y: int, channel: int, width: int, height: int)
    requires
        0 <= x < width,
        0 <= y < height,
        0 <= channel < 4,
    ensures
        0 <= (y * width + x) * 4 + channel < width * height * 4,
        column_of((y * width + x) * 4 + channel, width) == x,
        line_of((y * width + x) * 4 + channel, width) == y,
        ((y * width + x) * 4 + channel) % 4 == channel,
{
    index_fits(x, y, channel, width, height);
    let pixel = y * width + x;
    assert((pixel * 4 + channel) / 4 == pixel);
    vstd::arithmetic::div_mod::lemma_fundamental_div_mod_converse(pixel, width, y, x);
}

/// Adding one weighted value to the sum of those before it.
pub open spec fn one_more<M, W>(f: spec_fn(M, M, W) -> M) -> spec_fn(M, (M, W)) -> M {
    |sum: M, next: (M, W)| f(sum, next.0, next.1)
}

proof fn lemma_sums_fold<M, W, A: Fn(M, M, W) -> M>(
    weigh: A,
    f: spec_fn(M, M, W) -> M,
    zero: M,
    values: Seq<M>,
    weights: Seq<W>,
    sums: Seq<M>,
    pairs: Seq<(M, W)>,
    t: int,
)
    requires
        forall|acc: M, v: M, w: W, r: M| #[trigger] call_ensures(weigh, (acc, v, w), r) ==> r == f(acc, v, w),
        are_sums(weigh, zero, values, weights, sums),
        pairs.len() == values.len(),
        forall|i: int| 0 <= i < pairs.len() ==> #[trigger] pairs[i] == (values[i], weights[i]),
        0 <= t <= values.len(),
    ensures
        sums[t] == pairs.take(t).fold_left(zero, one_more(f)),
    decreases t,
{
    reveal(Seq::fold_left);
    if t > 0 {
        lemma_sums_fold(weigh, f, zero, values, weights, sums, pairs, t - 1);
        assert(pairs.take(t).drop_last() =~= pairs.take(t - 1));
        assert(pairs.take(t).last() == pairs[t - 1]);
        let (v, w) = (values[t - 1], weights[t - 1]);
        assert(call_ensures(weigh, (sums[t - 1], v, w), sums[t - 1 + 1]));
    }
}

proof fn lemma_accumulated_is_folded<M, W, A: Fn(M, M, W) -> M>(
    weigh: A,
    f: spec_fn(M, M, W) -> M,
    zero: M,
    values: Seq<M>,
    weights: Seq<W>,
    pairs: Seq<(M, W)>,
    result: M,
)
    requires
        forall|acc: M, v: M, w: W, r: M| #[trigger] call_ensures(weigh, (acc, v, w), r) ==> r == f(acc, v, w),
        accumulates(weigh, zero, values, weights, result),
        pairs.len() == values.len(),
        forall|i: int| 0 <= i < pairs.len() ==> #[trigger] pairs[i] == (values[i], weights[i]),
    ensures
        result == pairs.fold_left(zero, one_more(f)),
{
    let sums = choose|sums: Seq<M>| #[trigger] are_sums(weigh, zero, values, weights, sums) && sums.last() == result;
    lemma_sums_fold(weigh, f, zero, values, weights, sums, pairs, values.len() as int);
    assert(pairs.take(values.len() as int) =~= pairs);
}

/// What an output column adds up along row `y` of a frame: the bytes from its first source column on,
/// the nearest at the edge standing for those beyond it and zero for those that are missing.
pub open spec fn along_row<M, W>(
    src: Seq<u8>,
    width: int,
    levels: Seq<M>,
    sample: (i32, Seq<W>),
    y: int,
    channel: int,
) -> Seq<(M, W)> {
    Seq::new(
        sample.1.len(),
        |t: int|
            {
                let x: int = if sample.0 + t < 0 {
                    0
                } else if sample.0 + t > width - 1 {
                    width - 1
                } else {
                    sample.0 + t
                };
                let at: int = 4 * (width * y + x) + channel;
                (
                    levels[if at < src.len() {
                        src[at] as int
                    } else {
                        0
                    }],
                    sample.1[t],
                )
            },
    )
}

/// What an output row adds up along column `x` of a frame that was resampled along its rows.
pub open spec fn along_column<M, W>(
    row: spec_fn(int) -> M,
    height: int,
    sample: (i32, Seq<W>),
) -> Seq<(M, W)> {
    Seq::new(
        sample.1.len(),
        |t: int|
            {
                let y: int = if sample.0 + t < 0 {
                    0
                } else if sample.0 + t > height - 1 {
                    height - 1
                } else {
                    sample.0 + t
                };
                (row(y), sample.1[t])
            },
    )
}

proof fn lemma_row_is_folded<M, W, A: Fn(M, M, W) -> M>(
    src: Seq<u8>,
    width: int,
    height: int,
    plan: Seq<(i32, Seq<W>)>,
    levels: Seq<M>,
    zero: M,
    weigh: A,
    f: spec_fn(M, M, W) -> M,
    mid: Seq<M>,
    x: int,
    y: int,
    channel: int,
)
    requires
        0 < width,
        0 <= x < plan.len(),
        0 <= y < height,
        0 <= channel < 4,
        forall|acc: M, v: M, w: W, r: M| #[trigger] call_ensures(weigh, (acc, v, w), r) ==> r == f(acc, v, w),
        rows_resampled(src, width, height, plan, levels, zero, weigh, mid),
    ensures
        mid[(y * plan.len() + x) * 4 + channel] == along_row(src, width, levels, plan[x], y, channel).fold_left(
            zero,
            one_more(f),
        ),
{
    let k = (y * plan.len() + x) * 4 + channel;
    lemma_place(x, y, channel, plan.len() as int, height);
    let sample = plan[x];
    let values = row_values(src, levels, width, sample.0 as int, sample.1.len(), y, channel);
    let pairs = along_row(src, width, levels, sample, y, channel);
    assert(accumulates(weigh, zero, values, sample.1, mid[k]));
    assert(y * width == width * y) by (nonlinear_arith);
    assert forall|i: int| 0 <= i < pairs.len() implies #[trigger] pairs[i] == (values[i], sample.1[i]) by {
        assert(values[i] == pairs[i].0);
    }
    lemma_accumulated_is_folded(weigh, f, zero, values, sample.1, pairs, mid[k]);
}

/// Every byte of a resampled frame comes of its own channel alone: the source rows that its row of the
/// output reads, from the first on, each of them the source columns that its column reads, from the
/// first on, weighed in that order. `f` and `g` are what the arithmetic that is handed in computes.
pub proof fn every_pixel_is_weighed_in_order<M, W, A: Fn(M, M, W) -> M, S: Fn(M) -> u8>(
    src: Seq<u8>,
    src_w: u32,
    src_h: u32,
    dst_w: u32,
    dst_h: u32,
    plan_x: Seq<(i32, Seq<W>)>,
    plan_y: Seq<(i32, Seq<W>)>,
    levels: Seq<M>,
    zero: M,
    weigh: A,
    store: S,
    f: spec_fn(M, M, W) -> M,
    g: spec_fn(M) -> u8,
    out: Seq<u8>,
    x: int,
    y: int,
    channel: int,
)
    requires
        0 < src_w,
        0 < src_h,
        src_w != dst_w || src_h != dst_h,
        plan_x.len() == dst_w,
        plan_y.len() == dst_h,
        forall|acc: M, v: M, w: W, r: M| #[trigger] call_ensures(weigh, (acc, v, w), r) ==> r == f(acc, v, w),
        forall|sum: M, r: u8| #[trigger] call_ensures(store, (sum,), r) ==> r == g(sum),
        is_resampled(src, src_w, src_h, dst_w, dst_h, plan_x, plan_y, levels, zero, weigh, store, out),
        0 <= x < dst_w,
        0 <= y < dst_h,
        0 <= channel < 4,
    ensures
        out[4 * (dst_w * y + x) + channel] == g(
            along_column(
                |row: int|
                    along_row(src, src_w as int, levels, plan_x[x], row, channel).fold_left(
                        zero,
                        |sum: M, next: (M, W)| f(sum, next.0, next.1),
                    ),
                src_h as int,
                plan_y[y],
            ).fold_left(zero, |sum: M, next: (M, W)| f(sum, next.0, next.1)),
        ),
{
    let add = |sum: M, next: (M, W)| f(sum, next.0, next.1);
    assert(add =~= one_more(f));
    let (sw, sh, w, h) = (src_w as int, src_h as int, dst_w as int, dst_h as int);
    let mid = choose|mid: Seq<M>| #[trigger]
        rows_resampled(src, sw, sh, plan_x, levels, zero, weigh, mid) && columns_resampled(
            mid,
            w,
            sh,
            plan_y,
            zero,
            weigh,
            store,
            out,
        );
    let row = |row: int| along_row(src, sw, levels, plan_x[x], row, channel).fold_left(zero, add);
    let k = (y * w + x) * 4 + channel;
    assert(y * w == w * y) by (nonlinear_arith);
    lemma_place(x, y, channel, w, h);
    let sample = plan_y[y];
    let values = column_values(mid, w, sh, sample.0 as int, sample.1.len(), x, channel);
    let pairs = along_column(row, sh, sample);
    assert(is_stored(mid, w, sh, plan_y, zero, weigh, store, k, out[k]));
    let sum = choose|sum: M| #[trigger]
        accumulates(weigh, zero, values, sample.1, sum) && call_ensures(store, (sum,), out[k]);
    assert forall|i: int| 0 <= i < pairs.len() implies #[trigger] pairs[i] == (values[i], sample.1[i]) by {
        lemma_row_is_folded(
            src,
            sw,
            sh,
            plan_x,
            levels,
            zero,
            weigh,
            f,
            mid,
            x,
            clamped(sample.0 + i, sh),
            channel,
        );
    }
    lemma_accumulated_is_folded(weigh, f, zero, values, sample.1, pairs, sum);
}

proof fn lemma_picked<M, W, A: Fn(M, M, W) -> M>(
    weigh: A,
    zero: M,
    one: W,
    none: W,
    values: Seq<M>,
    weights: Seq<W>,
    sums: Seq<M>,
    k: int,
    t: int,
)
    requires
        forall|acc: M, v: M, r: M| #[trigger] call_ensures(weigh, (acc, v, none), r) ==> r == acc,
        forall|v: M, r: M| #[trigger] call_ensures(weigh, (zero, v, one), r) ==> r == v,
        are_sums(weigh, zero, values, weights, sums),
        weights.len() == values.len(),
        0 <= k < weights.len(),
        forall|i: int|
            0 <= i < weights.len() ==> #[trigger] weights[i] == (if i == k {
                one
            } else {
                none
            }),
        0 <= t <= values.len(),
    ensures
        sums[t] == (if t <= k {
            zero
        } else {
            values[k]
        }),
    decreases t,
{
    if t > 0 {
        lemma_picked(weigh, zero, one, none, values, weights, sums, k, t - 1);
        let (v, w) = (values[t - 1], weights[t - 1]);
        assert(call_ensures(weigh, (sums[t - 1], v, w), sums[t - 1 + 1]));
    }
}

/// A tap of a plan that all the weight lies on: it stands `picked(i)` behind the first source sample
/// that the output sample `i` reads.
pub open spec fn picks<W>(plan: Seq<(i32, Seq<W>)>, picked: spec_fn(int) -> int, one: W, none: W) -> bool {
    forall|i: int|
        0 <= i < plan.len() ==> {
            &&& 0 <= picked(i) < (#[trigger] plan[i]).1.len()
            &&& forall|t: int|
                0 <= t < plan[i].1.len() ==> #[trigger] plan[i].1[t] == (if t == picked(i) {
                    one
                } else {
                    none
                })
        }
}

/// Where every output sample has its whole weight on one source sample, resampling picks pixels: the
/// byte at column `x`, row `y` is that of the source at the column and row that are picked for them, in
/// the same channel, and beyond an edge it is the one at the edge. Weighing by `one` into nothing gives
/// a value back, weighing by `none` leaves a sum as it is, and storing the level of a byte gives the
/// byte back.
pub proof fn resampling_can_pick_pixels<M, W, A: Fn(M, M, W) -> M, S: Fn(M) -> u8>(
    src: Seq<u8>,
    src_w: u32,
    src_h: u32,
    dst_w: u32,
    dst_h: u32,
    plan_x: Seq<(i32, Seq<W>)>,
    plan_y: Seq<(i32, Seq<W>)>,
    picked_x: spec_fn(int) -> int,
    picked_y: spec_fn(int) -> int,
    levels: Seq<M>,
    zero: M,
    one: W,
    none: W,
    weigh: A,
    store: S,
    out: Seq<u8>,
    x: int,
    y: int,
    channel: int,
)
    requires
        0 < src_w,
        0 < src_h,
        src_w != dst_w || src_h != dst_h,
        src.len() == src_w * src_h * 4,
        plan_x.len() == dst_w,
        plan_y.len() == dst_h,
        picks(plan_x, picked_x, one, none),
        picks(plan_y, picked_y, one, none),
        forall|acc: M, v: M, r: M| #[trigger] call_ensures(weigh, (acc, v, none), r) ==> r == acc,
        forall|v: M, r: M| #[trigger] call_ensures(weigh, (zero, v, one), r) ==> r == v,
        forall|b: u8, r: u8| #[trigger] call_ensures(store, (levels[b as int],), r) ==> r == b,
        is_resampled(src, src_w, src_h, dst_w, dst_h, plan_x, plan_y, levels, zero, weigh, store, out),
        0 <= x < dst_w,
        0 <= y < dst_h,
        0 <= channel < 4,
    ensures
        ({
            let fx = plan_x[x].0 + picked_x(x);
            let fy = plan_y[y].0 + picked_y(y);
            let sx = if fx < 0 {
                0
            } else if fx >= src_w {
                src_w - 1
            } else {
                fx
            };
            let sy = if fy < 0 {
                0
            } else if fy >= src_h {
                src_h - 1
            } else {
                fy
            };
            out[(y * dst_w + x) * 4 + channel] == src[(sy * src_w + sx) * 4 + channel]
        }),
{
    let (sw, sh, w, h) = (src_w as int, src_h as int, dst_w as int, dst_h as int);
    let mid = choose|mid: Seq<M>| #[trigger]
        rows_resampled(src, sw, sh, plan_x, levels, zero, weigh, mid) && columns_resampled(
            mid,
            w,
            sh,
            plan_y,
            zero,
            weigh,
            store,
            out,
        );
    let sx = clamped(plan_x[x].0 + picked_x(x), sw);
    let sy = clamped(plan_y[y].0 + picked_y(y), sh);
    let at = (sy * sw + sx) * 4 + channel;
    index_fits(sx, sy, channel, sw, sh);
    // The row pass.
    let k1 = (sy * w + x) * 4 + channel;
    lemma_place(x, sy, channel, w, sh);
    let sample = plan_x[x];
    let values = row_values(src, levels, sw, sample.0 as int, sample.1.len(), sy, channel);
    assert(accumulates(weigh, zero, values, sample.1, mid[k1]));
    let sums = choose|sums: Seq<M>| #[trigger]
        are_sums(weigh, zero, values, sample.1, sums) && sums.last() == mid[k1];
    lemma_picked(weigh, zero, one, none, values, sample.1, sums, picked_x(x), values.len() as int);
    assert(mid[k1] == levels[src[at] as int]);
    // The column pass.
    let k = (y * w + x) * 4 + channel;
    lemma_place(x, y, channel, w, h);
    assert(is_stored(mid, w, sh, plan_y, zero, weigh, store, k, out[k]));
    let sample = plan_y[y];
    let values = column_values(mid, w, sh, sample.0 as int, sample.1.len(), x, channel);
    let sum = choose|sum: M| #[trigger]
        accumulates(weigh, zero, values, sample.1, sum) && call_ensures(store, (sum,), out[k]);
    let sums = choose|sums: Seq<M>| #[trigger]
        are_sums(weigh, zero, values, sample.1, sums) && sums.last() == sum;
    lemma_picked(weigh, zero, one, none, values, sample.1, sums, picked_y(y), values.len() as int);
    assert(sum == mid[k1]);
}

/// The form of it that needs no edges: where the output column `x` is the source column `fx(x)` with
/// weight one and nothing else, and the output row `y` the source row `fy(y)`, each inside the frame,
/// the output shows the source pixel at (`fx(x)`, `fy(y)`) at (`x`, `y`), in every channel.
pub proof fn single_weights_copy_pixels<M, W, A: Fn(M, M, W) -> M, S: Fn(M) -> u8>(
    src: Seq<u8>,
    src_w: u32,
    src_h: u32,
    dst_w: u32,
    dst_h: u32,
    plan_x: Seq<(i32, Seq<W>)>,
    plan_y: Seq<(i32, Seq<W>)>,
    fx: spec_fn(int) -> int,
    fy: spec_fn(int) -> int,
    levels: Seq<M>,
    zero: M,
    one: W,
    weigh: A,
    store: S,
    out: Seq<u8>,
)
    requires
        0 < src_w,
        0 < src_h,
        src_w != dst_w || src_h != dst_h,
        src.len() == src_w * src_h * 4,
        plan_x.len() == dst_w,
        plan_y.len() == dst_h,
        forall|x: int|
            0 <= x < dst_w ==> 0 <= fx(x) < src_w && (#[trigger] plan_x[x]).0 == fx(x) && plan_x[x].1 == seq![one],
        forall|y: int|
            0 <= y < dst_h ==> 0 <= fy(y) < src_h && (#[trigger] plan_y[y]).0 == fy(y) && plan_y[y].1 == seq![one],
        forall|v: M, r: M| #[trigger] call_ensures(weigh, (zero, v, one), r) ==> r == v,
        forall|b: u8, r: u8| #[trigger] call_ensures(store, (levels[b as int],), r) ==> r == b,
        is_resampled(src, src_w, src_h, dst_w, dst_h, plan_x, plan_y, levels, zero, weigh, store, out),
    ensures
        forall|x: int, y: int, c: int|
            0 <= x < dst_w && 0 <= y < dst_h && 0 <= c < 4 ==> #[trigger] out[(y * dst_w + x) * 4 + c] == src[(fy(y)
                * src_w + fx(x)) * 4 + c],
{
    let (sw, sh, w, h) = (src_w as int, src_h as int, dst_w as int, dst_h as int);
    assert forall|x: int, y: int, c: int| 0 <= x < dst_w && 0 <= y < dst_h && 0 <= c < 4 implies #[trigger] out[(y
        * dst_w + x) * 4 + c] == src[(fy(y) * src_w + fx(x)) * 4 + c] by {
        let mid = choose|mid: Seq<M>| #[trigger]
            rows_resampled(src, sw, sh, plan_x, levels, zero, weigh, mid) && columns_resampled(
                mid,
                w,
                sh,
                plan_y,
                zero,
                weigh,
                store,
                out,
            );
        let at = (fy(y) * sw + fx(x)) * 4 + c;
        assert(plan_x[x].0 == fx(x) && plan_y[y].0 == fy(y));
        index_fits(fx(x), fy(y), c, sw, sh);
        let k1 = (fy(y) * w + x) * 4 + c;
        lemma_place(x, fy(y), c, w, sh);
        let values = row_values(src, levels, sw, fx(x), 1, fy(y), c);
        assert(accumulates(weigh, zero, values, plan_x[x].1, mid[k1]));
        let sums = choose|sums: Seq<M>| #[trigger]
            are_sums(weigh, zero, values, plan_x[x].1, sums) && sums.last() == mid[k1];
        assert(call_ensures(weigh, (sums[0], values[0], plan_x[x].1[0]), sums[1]));
        assert(mid[k1] == levels[src[at] as int]);
        let k = (y * w + x) * 4 + c;
        lemma_place(x, y, c, w, h);
        assert(is_stored(mid, w, sh, plan_y, zero, weigh, store, k, out[k]));
        let values = column_values(mid, w, sh, fy(y), 1, x, c);
        let sum = choose|sum: M| #[trigger]
            accumulates(weigh, zero, values, plan_y[y].1, sum) && call_ensures(store, (sum,), out[k]);
        let sums = choose|sums: Seq<M>| #[trigger]
            are_sums(weigh, zero, values, plan_y[y].1, sums) && sums.last() == sum;
        assert(call_ensures(weigh, (sums[0], values[0], plan_y[y].1[0]), sums[1]));
        assert(sum == mid[k1]);
    }
}

/// A frame that keeps its size is copied byte for byte, zeros standing for the bytes that are missing,
/// and one that has or is to have no pixels gives zeros, whatever the weights are.
pub proof fn a_kept_size_is_a_copy<M, W, A: Fn(M, M, W) -> M, S: Fn(M) -> u8>(
    src: Seq<u8>,
    src_w: u32,
    src_h: u32,
    dst_w: u32,
    dst_h: u32,
    plan_x: Seq<(i32, Seq<W>)>,
    plan_y: Seq<(i32, Seq<W>)>,
    levels: Seq<M>,
    zero: M,
    weigh: A,
    store: S,
    out: Seq<u8>,
)
    requires
        is_resampled(src, src_w, src_h, dst_w, dst_h, plan_x, plan_y, levels, zero, weigh, store, out),
    ensures
        src_w == dst_w && src_h == dst_h ==> out.len() == dst_w * dst_h * 4 && forall|i: int|
            0 <= i < out.len() ==> #[trigger] out[i] == (if src_w > 0 && src_h > 0 && i < src.len() {
                src[i]
            } else {
                0u8
            }),
        src_w * src_h * dst_w * dst_h == 0 ==> out.len() == dst_w * dst_h * 4 && forall|i: int|
            0 <= i < out.len() ==> #[trigger] out[i] == 0,
{
    let (a, b, c, d) = (src_w as int, src_h as int, dst_w as int, dst_h as int);
    assert(0 <= c * d) by (nonlinear_arith)
        requires
            0 <= c,
            0 <= d,
    ;
    if a > 0 && b > 0 && c > 0 && d > 0 {
        assert(a * b > 0) by (nonlinear_arith)
            requires
                a > 0,
                b > 0,
        ;
        assert(a * b * c > 0) by (nonlinear_arith)
            requires
                a * b > 0,
                c > 0,
        ;
        assert(a * b * c * d > 0) by (nonlinear_arith)
            requires
                a * b * c > 0,
                d > 0,
        ;
    }
}

/// The filters: the cubics of Mitchell and Netravali with their parameters as fractions, and the two
/// windowed sincs with their lobes. A filter reaches as far as its lobes, a cubic two samples, and what
/// there is no filter for is what `Lanczos3` is.
pub proof fn filters_are_as_published(d: Downscaler)
    ensures
        match kernel_for(d) {
            Kernel::Cubic { b, c } => {
                &&& reach(kernel_for(d)) == 2
                &&& d == Downscaler::Bicubic ==> 3 * b.numerator == b.denominator && 3 * c.numerator == c.denominator
                &&& d == Downscaler::CatmullRom ==> b.numerator == 0 && 2 * c.numerator == c.denominator
                &&& d == Downscaler::Magic ==> b.numerator == 0 && 5 * c.numerator == 3 * c.denominator
                &&& b.denominator > 0 && c.denominator > 0
                &&& d == Downscaler::Bicubic || d == Downscaler::CatmullRom || d == Downscaler::Magic
            },
            Kernel::Lanczos { lobes } => {
                &&& reach(kernel_for(d)) == lobes
                &&& d == Downscaler::Lanczos2 && lobes == 2 || d == Downscaler::Lanczos3 && lobes == 3 || d
                    == Downscaler::Other && lobes == 3
            },
            Kernel::Kaiser { lobes, beta } => {
                &&& reach(kernel_for(d)) == lobes
                &&& d == Downscaler::Kaiser2 && lobes == 2 && beta == 6 || d == Downscaler::Kaiser3 && lobes == 3
                    && beta == 8
            },
        },
{
}

} // verus!
