use crate::canvas::{lemma_area_bounded, Canvas};
use vstd::arithmetic::div_mod::{
    lemma_div_is_ordered, lemma_div_nonincreasing, lemma_div_pos_is_pos,
};
use vstd::arithmetic::mul::lemma_mul_inequality;
use vstd::prelude::*;

verus! {

/// The target asks for colour at pixel `p` exactly when the pixel's red
/// channel is not fully white.
pub open spec fn requires_color(target: Seq<u8>, p: int) -> bool {
    target[4 * p] != 255
}

/// The player has coloured pixel `p` exactly when the pixel's alpha channel
/// is fully opaque: painting flips a pixel to a fixed opaque state, it never
/// blends.
pub open spec fn is_colored(canvas: Seq<u8>, p: int) -> bool {
    canvas[4 * p + 3] == 255
}

/// How many of the first `n` pixels the target asks colour for; the best
/// achievable raw score.
pub open spec fn count_target(target: Seq<u8>, n: int) -> int
    decreases n,
{
    if n <= 0 {
        0
    } else {
        count_target(target, n - 1) + if requires_color(target, n - 1) {
            1int
        } else {
            0int
        }
    }
}

/// How many of the first `n` pixels are coloured where the target asks for
/// colour.
pub open spec fn count_good(target: Seq<u8>, canvas: Seq<u8>, n: int) -> int
    decreases n,
{
    if n <= 0 {
        0
    } else {
        count_good(target, canvas, n - 1) + if is_colored(canvas, n - 1) && requires_color(
            target,
            n - 1,
        ) {
            1int
        } else {
            0int
        }
    }
}

/// How many of the first `n` pixels are coloured where the target asks for
/// none.
pub open spec fn count_bad(target: Seq<u8>, canvas: Seq<u8>, n: int) -> int
    decreases n,
{
    if n <= 0 {
        0
    } else {
        count_bad(target, canvas, n - 1) + if is_colored(canvas, n - 1) && !requires_color(
            target,
            n - 1,
        ) {
            1int
        } else {
            0int
        }
    }
}

/// The similarity score in tenths of a point, so that a display with one
/// decimal is exact: `(good - bad) / max * 100`, scaled by ten and rounded
/// towards zero.
pub open spec fn score_tenths(good: int, bad: int, max: int) -> int {
    if good >= bad {
        (good - bad) * 1000 / max
    } else {
        -((bad - good) * 1000 / max)
    }
}

/// The last computed similarity score, in tenths of a point.
pub struct Score(pub i64);

impl Default for Score {
    /// Before any scoring pass the score reads zero.
    fn default() -> (s: Score)
        ensures
            s.0 == 0,
    {
        Score(0)
    }
}

/// How a freshly computed score relates to the previous one; drives the
/// colour cue of the score display.
#[derive(Clone, Copy, PartialEq, Eq, Structural, Debug)]
pub enum ScoreDelta {
    Improved,
    Worsened,
    Unchanged,
}

/// The delta cue for a new score against the previous one.
pub open spec fn classify_delta_spec(new: int, last: int) -> ScoreDelta {
    if new > last {
        ScoreDelta::Improved
    } else if new < last {
        ScoreDelta::Worsened
    } else {
        ScoreDelta::Unchanged
    }
}

/// Compare a new score against the previous one.
pub fn classify_delta(new: i64, last: i64) -> (d: ScoreDelta)
    ensures
        d == classify_delta_spec(new as int, last as int),
{
    if new > last {
        ScoreDelta::Improved
    } else if new < last {
        ScoreDelta::Worsened
    } else {
        ScoreDelta::Unchanged
    }
}

/// Walk all pixels once and classify each: the count of target pixels, of
/// good painted pixels, and of bad painted pixels.
pub fn compute_counts(canvas: &Canvas, target: &Canvas) -> (counts: (usize, usize, usize))
    requires
        canvas.wf(),
        target.wf(),
        canvas.width == target.width,
        canvas.height == target.height,
    ensures
        ({
            let n = (canvas.width * canvas.height) as int;
            &&& counts.0 == count_good(target.data@, canvas.data@, n)
            &&& counts.1 == count_bad(target.data@, canvas.data@, n)
            &&& counts.2 == count_target(target.data@, n)
            &&& counts.0 <= n
            &&& counts.1 <= n
            &&& counts.2 <= n
        }),
{
    proof {
        lemma_area_bounded(canvas.width as int, canvas.height as int);
    }
    let total: usize = canvas.width * canvas.height;
    let mut good: usize = 0;
    let mut bad: usize = 0;
    let mut max: usize = 0;
    let mut p: usize = 0;
    while p < total
        invariant
            canvas.wf(),
            target.wf(),
            canvas.width == target.width,
            canvas.height == target.height,
            total == canvas.width * canvas.height,
            total <= 0x1000_0000,
            p <= total,
            good == count_good(target.data@, canvas.data@, p as int),
            bad == count_bad(target.data@, canvas.data@, p as int),
            max == count_target(target.data@, p as int),
            good <= p,
            bad <= p,
            max <= p,
        decreases total - p,
    {
        let should_color = target.data[4 * p] != 255;
        if should_color {
            max = max + 1;
        }
        let colored = canvas.data[4 * p + 3] == 255;
        if colored {
            if should_color {
                good = good + 1;
            } else {
                bad = bad + 1;
            }
        }
        p = p + 1;
    }
    (good, bad, max)
}

/// The scaled score from the three counts.
pub fn score_tenths_exec(good: usize, bad: usize, max: usize) -> (t: i64)
    requires
        0 < max,
        good <= 0x1000_0000,
        bad <= 0x1000_0000,
    ensures
        t == score_tenths(good as int, bad as int, max as int),
{
    if good >= bad {
        let num: u64 = (good - bad) as u64 * 1000;
        proof {
            lemma_div_nonincreasing(num as int, max as int);
            lemma_div_pos_is_pos(num as int, max as int);
        }
        (num / max as u64) as i64
    } else {
        let num: u64 = (bad - good) as u64 * 1000;
        proof {
            lemma_div_nonincreasing(num as int, max as int);
            lemma_div_pos_is_pos(num as int, max as int);
        }
        -((num / max as u64) as i64)
    }
}

/// Score the painted canvas against the target: `(good - bad) / max * 100`
/// in tenths of a point, or nothing when the target holds no coloured pixel
/// at all, so that no division by zero can occur.
pub fn compute_score(canvas: &Canvas, target: &Canvas) -> (r: Option<i64>)
    requires
        canvas.wf(),
        target.wf(),
        canvas.width == target.width,
        canvas.height == target.height,
    ensures
        ({
            let n = (canvas.width * canvas.height) as int;
            let max = count_target(target.data@, n);
            &&& max == 0 ==> r is None
            &&& max > 0 ==> (r matches Some(v) && v as int == score_tenths(
                count_good(target.data@, canvas.data@, n),
                count_bad(target.data@, canvas.data@, n),
                max,
            ))
        }),
{
    let (good, bad, max) = compute_counts(canvas, target);
    if max == 0 {
        None
    } else {
        proof {
            lemma_area_bounded(canvas.width as int, canvas.height as int);
        }
        Some(score_tenths_exec(good, bad, max))
    }
}

/// One scoring pass of the feedback loop: recompute the score, store it, and
/// classify the movement against the previous pass. When the target holds no
/// coloured pixel the stored score is left untouched and no cue is given.
pub fn calculate_score(canvas: &Canvas, target: &Canvas, score: &mut Score, last: &mut Score) -> (d:
    Option<ScoreDelta>)
    requires
        canvas.wf(),
        target.wf(),
        canvas.width == target.width,
        canvas.height == target.height,
    ensures
        ({
            let n = (canvas.width * canvas.height) as int;
            let max = count_target(target.data@, n);
            let t = score_tenths(
                count_good(target.data@, canvas.data@, n),
                count_bad(target.data@, canvas.data@, n),
                max,
            );
            &&& max == 0 ==> *final(score) == *old(score) && *final(last) == *old(last) && d
                is None
            &&& max > 0 ==> final(score).0 == t && final(last).0 == t && d == Some(
                classify_delta_spec(t, old(last).0 as int),
            )
        }),
{
    match compute_score(canvas, target) {
        None => None,
        Some(t) => {
            score.0 = t;
            let d = classify_delta(t, last.0);
            last.0 = t;
            Some(d)
        },
    }
}

/// For a fixed target-pixel count, the score only rises with the good count
/// and only falls with the bad count.
pub proof fn lemma_score_monotonic(good1: int, bad1: int, good2: int, bad2: int, max: int)
    requires
        0 < max,
        good1 <= good2,
        bad2 <= bad1,
    ensures
        score_tenths(good1, bad1, max) <= score_tenths(good2, bad2, max),
{
    let d1 = good1 - bad1;
    let d2 = good2 - bad2;
    if d1 >= 0 {
        lemma_mul_inequality(d1, d2, 1000);
        lemma_div_is_ordered(d1 * 1000, d2 * 1000, max);
    } else if d2 < 0 {
        lemma_mul_inequality(-d2, -d1, 1000);
        lemma_div_is_ordered((-d2) * 1000, (-d1) * 1000, max);
    } else {
        lemma_div_pos_is_pos((-d1) * 1000, max);
        lemma_div_pos_is_pos(d2 * 1000, max);
    }
}

} // verus!
