//! Composition on the CPU: every pixel of an answer is replaced by one composed of it and of the
//! frame's. The arithmetic on a pixel comes from the caller.

use vstd::prelude::*;

verus! {

/// The view that shows the frame.
pub const VIEW_ORIGINAL: u32 = 1;

/// The view that shows the answer.
pub const VIEW_ANSWER: u32 = 2;

/// The most threads that share a frame.
pub const MAX_THREADS: usize = 16;

/// Where red stands in a pixel.
pub open spec fn red_at(bgr_order: bool) -> int {
    if bgr_order {
        2
    } else {
        0
    }
}

/// Where blue stands in a pixel.
pub open spec fn blue_at(bgr_order: bool) -> int {
    if bgr_order {
        0
    } else {
        2
    }
}

/// The red, green and blue of a pixel.
pub open spec fn colour(bytes: Seq<u8>, pixel: int, bgr_order: bool) -> (u8, u8, u8) {
    (
        bytes[4 * pixel + red_at(bgr_order)],
        bytes[4 * pixel + 1],
        bytes[4 * pixel + blue_at(bgr_order)],
    )
}

/// The shorter of two lengths.
pub open spec fn shorter(a: nat, b: nat) -> nat {
    if a <= b {
        a
    } else {
        b
    }
}

/// `after` has, at one pixel, a colour that `compose` gives for the colours of the frame and of the
/// answer there, and the answer's alpha.
pub open spec fn is_composed<F: Fn([u8; 3], [u8; 3]) -> [u8; 3]>(
    compose: F,
    original: Seq<u8>,
    answer: Seq<u8>,
    after: Seq<u8>,
    pixel: int,
    bgr_order: bool,
) -> bool {
    &&& after[4 * pixel + 3] == answer[4 * pixel + 3]
    &&& exists|from: [u8; 3], to: [u8; 3], result: [u8; 3]|
        {
            &&& #[trigger] call_ensures(compose, (from, to), result)
            &&& (from[0], from[1], from[2]) == colour(original, pixel, bgr_order)
            &&& (to[0], to[1], to[2]) == colour(answer, pixel, bgr_order)
            &&& (result[0], result[1], result[2]) == colour(after, pixel, bgr_order)
        }
}

/// Composes an answer with its frame, in place.
///
/// The view of the answer leaves it as it is, and the view of the frame copies the frame over it.
/// Every other view composes each pixel. Where one of the two is longer, only what both have is
/// touched.
pub fn apply_rgba8<F: Fn([u8; 3], [u8; 3]) -> [u8; 3]>(
    original: &[u8],
    answer: &mut [u8],
    debug_view: u32,
    bgr_order: bool,
    compose: &F,
)
    requires
        forall|from: [u8; 3], to: [u8; 3]| call_requires(*compose, (from, to)),
    ensures
        final(answer)@.len() == old(answer)@.len(),
        debug_view == VIEW_ANSWER ==> final(answer)@ == old(answer)@,
        debug_view == VIEW_ORIGINAL ==> forall|i: int|
            0 <= i < old(answer)@.len() ==> #[trigger] final(answer)@[i] == (if i < original@.len() {
                original@[i]
            } else {
                old(answer)@[i]
            }),
        debug_view != VIEW_ANSWER && debug_view != VIEW_ORIGINAL ==> {
            let pixels = shorter(original@.len(), old(answer)@.len()) / 4;
            &&& forall|p: int|
                0 <= p < pixels ==> #[trigger] is_composed(
                    *compose,
                    original@,
                    old(answer)@,
                    final(answer)@,
                    p,
                    bgr_order,
                )
            &&& forall|i: int|
                4 * pixels <= i < old(answer)@.len() ==> #[trigger] final(answer)@[i] == old(answer)@[i]
        },
{
    if debug_view == VIEW_ANSWER {
        return ;
    }
    let n: usize = if original.len() <= answer.len() {
        original.len()
    } else {
        answer.len()
    };
    let ghost start = answer@;
    if debug_view == VIEW_ORIGINAL {
        let mut i: usize = 0;
        while i < n
            invariant
                i <= n,
                n == shorter(original@.len(), start.len()),
                answer@.len() == start.len(),
                forall|k: int| 0 <= k < i ==> #[trigger] answer@[k] == original@[k],
                forall|k: int| i <= k < start.len() ==> #[trigger] answer@[k] == start[k],
            decreases n - i,
        {
            answer[i] = original[i];
            i += 1;
        }
        return ;
    }
    let red: usize = if bgr_order {
        2
    } else {
        0
    };
    let blue: usize = if bgr_order {
        0
    } else {
        2
    };
    let pixels: usize = n / 4;
    let mut p: usize = 0;
    while p < pixels
        invariant
            p <= pixels,
            pixels == shorter(original@.len(), start.len()) / 4,
            red == red_at(bgr_order),
            blue == blue_at(bgr_order),
            original@.len() <= usize::MAX,
            answer@.len() == start.len(),
            forall|from: [u8; 3], to: [u8; 3]| call_requires(*compose, (from, to)),
            forall|q: int|
                0 <= q < p ==> #[trigger] is_composed(*compose, original@, start, answer@, q, bgr_order),
            forall|k: int| 4 * p <= k < start.len() ==> #[trigger] answer@[k] == start[k],
        decreases pixels - p,
    {
        let at: usize = 4 * p;
        let from: [u8; 3] = [original[at + red], original[at + 1], original[at + blue]];
        let to: [u8; 3] = [answer[at + red], answer[at + 1], answer[at + blue]];
        let result: [u8; 3] = compose(from, to);
        let ghost before = answer@;
        answer[at + red] = result[0];
        answer[at + 1] = result[1];
        answer[at + blue] = result[2];
        proof {
            assert(call_ensures(*compose, (from, to), result));
            assert(is_composed(*compose, original@, start, answer@, p as int, bgr_order));
            assert forall|q: int| 0 <= q < p implies #[trigger] is_composed(
                *compose,
                original@,
                start,
                answer@,
                q,
                bgr_order,
            ) by {
                assert(is_composed(*compose, original@, start, before, q, bgr_order));
                assert(answer@[4 * q + 3] == before[4 * q + 3]);
                assert(colour(answer@, q, bgr_order) == colour(before, q, bgr_order));
            }
        }
        p += 1;
    }
}

/// How many bytes of a frame of `n` bytes each of `threads` threads takes: whole pixels, and at least
/// one.
pub fn chunk_bytes(n: usize, threads: usize) -> (bytes: usize)
    requires
        threads > 0,
    ensures
        bytes % 4 == 0,
        bytes >= 4,
        bytes / 4 == (if n / 4 == 0 {
            1int
        } else {
            (n / 4 + threads - 1) / threads as int
        }),
        threads * (bytes / 4) >= n / 4,
        n >= 4 ==> threads * (bytes / 4 - 1) < n / 4,
{
    let pixels: usize = n / 4;
    let whole: usize = pixels / threads;
    let part: usize = if pixels % threads > 0 {
        whole + 1
    } else {
        whole
    };
    proof {
        assert(pixels == threads * whole + pixels % threads) by {
            vstd::arithmetic::div_mod::lemma_fundamental_div_mod(pixels as int, threads as int);
        }
        let r = (pixels % threads) as int;
        let t = threads as int;
        if r > 0 {
            assert(pixels + t - 1 == t * (whole + 1) + (r - 1)) by (nonlinear_arith)
                requires
                    pixels == t * whole + r,
            ;
            vstd::arithmetic::div_mod::lemma_fundamental_div_mod_converse(
                pixels + t - 1,
                t,
                whole + 1,
                r - 1,
            );
        } else {
            assert(pixels + t - 1 == t * whole + (t - 1)) by (nonlinear_arith)
                requires
                    pixels == t * whole + r,
                    r == 0,
            ;
            vstd::arithmetic::div_mod::lemma_fundamental_div_mod_converse(pixels + t - 1, t, whole as int, t - 1);
        }
        assert(whole <= pixels) by (nonlinear_arith)
            requires
                pixels == t * whole + r,
                t >= 1,
                r >= 0,
                whole >= 0,
        ;
        assert(r > 0 && t == 1 ==> false);
        assert(r > 0 ==> whole + 1 <= pixels) by (nonlinear_arith)
            requires
                pixels == t * whole + r,
                t >= 1,
                r >= 0,
                whole >= 0,
        ;
    }
    if part == 0 {
        proof {
            assert(pixels == 0) by (nonlinear_arith)
                requires
                    pixels == threads * whole + pixels % threads,
                    whole == 0,
                    pixels % threads == 0,
            ;
        }
        4
    } else {
        proof {
            assert(pixels > 0);
            let (r, t) = ((pixels % threads) as int, threads as int);
            assert(t * part >= pixels && t * (part - 1) < pixels) by (nonlinear_arith)
                requires
                    pixels == t * whole + r,
                    0 <= r < t,
                    part == whole + (if r > 0 {
                        1int
                    } else {
                        0
                    }),
                    pixels > 0,
            ;
        }
        part * 4
    }
}

/// A frame can be composed in parts: a pixel of a part that begins at a whole pixel is that pixel of
/// the frame.
pub proof fn parts_compose_as_the_whole(bytes: Seq<u8>, first: int, end: int, pixel: int, bgr_order: bool)
    requires
        0 <= first,
        0 <= pixel,
        4 * first + 4 * pixel + 4 <= end <= bytes.len(),
    ensures
        colour(bytes.subrange(4 * first, end), pixel, bgr_order) == colour(bytes, first + pixel, bgr_order),
{
}

/// A composed pixel takes its red, green and blue from those of the frame and of the answer, which
/// stand in that order where the byte order is not reversed and in the opposite one where it is; `f` is
/// what composing computes of the frame's colours and the answer's. Alpha is the answer's.
pub proof fn red_is_composed_of_reds<F: Fn([u8; 3], [u8; 3]) -> [u8; 3]>(
    compose: F,
    f: spec_fn((u8, u8, u8), (u8, u8, u8)) -> (u8, u8, u8),
    original: Seq<u8>,
    answer: Seq<u8>,
    after: Seq<u8>,
    pixel: int,
    bgr_order: bool,
)
    requires
        forall|from: [u8; 3], to: [u8; 3], result: [u8; 3]| #[trigger]
            call_ensures(compose, (from, to), result) ==> (result[0], result[1], result[2]) == f(
                (from[0], from[1], from[2]),
                (to[0], to[1], to[2]),
            ),
        is_composed(compose, original, answer, after, pixel, bgr_order),
    ensures
        ({
            let at = 4 * pixel;
            let (r, b): (int, int) = if bgr_order {
                (at + 2, at)
            } else {
                (at, at + 2)
            };
            &&& (after[r], after[at + 1], after[b]) == f(
                (original[r], original[at + 1], original[b]),
                (answer[r], answer[at + 1], answer[b]),
            )
            &&& after[at + 3] == answer[at + 3]
        }),
{
}

} // verus!
