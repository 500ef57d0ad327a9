//! Escape counting for the two-step unrolled recurrence.
//!
//! The orbit `z_0 = c`, `z_(k+1) = z_k^2 + c` is advanced two steps per loop
//! round. A *sentinel* is raised at step `k` when the real part of `z_k` has
//! become not-a-number, which is how divergence shows under IEEE-754
//! overflow. Rounds run under odd loop indices `1, 3, 5, ...` below the depth
//! ceiling; round `i` looks at steps `i` and `i + 1`.
use vstd::prelude::*;

verus! {

/// What one round of the unrolled loop decides.
#[derive(Clone, Copy, Debug, PartialEq, Eq, Structural)]
pub enum Verdict {
    /// The orbit diverged; the byte is the intensity to report.
    Escaped(u8),
    /// No sentinel before the depth ceiling: the point is inside the set.
    Bounded,
    /// Run the next round under this loop index.
    Continue(u8),
}

/// The decision of the round under loop index `iter`, given the sentinels of
/// its first and second sub-step.
pub open spec fn pair_verdict(depth_max: int, iter: int, first: bool, second: bool) -> Verdict {
    if first {
        Verdict::Escaped((depth_max - iter - 1) as u8)
    } else if second {
        Verdict::Escaped((depth_max - iter) as u8)
    } else if iter + 2 < depth_max {
        Verdict::Continue((iter + 2) as u8)
    } else {
        Verdict::Bounded
    }
}

/// The intensity reported when rounds start at loop index `iter`, where
/// `sentinels[k - 1]` tells whether step `k` raised the sentinel.
pub open spec fn escape_from(depth_max: int, iter: int, sentinels: Seq<bool>) -> int
    decreases depth_max - iter + 1,
{
    if iter >= depth_max || iter < 1 {
        0
    } else if sentinels[iter - 1] {
        depth_max - iter - 1
    } else if sentinels[iter] {
        depth_max - iter
    } else {
        escape_from(depth_max, iter + 2, sentinels)
    }
}

/// The intensity of a point whose orbit raises the given sentinels.
pub open spec fn escape_value(depth_max: int, sentinels: Seq<bool>) -> int {
    escape_from(depth_max, 1, sentinels)
}

/// Decides one round of the unrolled loop. A sentinel on the first sub-step
/// reports `depth_max - iter - 1`, one first seen on the second sub-step
/// reports `depth_max - iter`; a quiet round continues two indices on, or
/// declares the point bounded when that index reaches the ceiling.
pub fn judge_pair(depth_max: u8, iter: u8, first: bool, second: bool) -> (r: Verdict)
    requires
        1 <= iter < depth_max,
    ensures
        r == pair_verdict(depth_max as int, iter as int, first, second),
{
    if first {
        Verdict::Escaped(depth_max - iter - 1)
    } else if second {
        Verdict::Escaped(depth_max - iter)
    } else if (iter as u16) + 2 < depth_max as u16 {
        Verdict::Continue(iter + 2)
    } else {
        Verdict::Bounded
    }
}

/// Runs the unrolled loop over a recorded trajectory: `sentinels[k - 1]`
/// tells whether step `k` raised the sentinel. The result is `0` when no
/// round below the ceiling saw one.
pub fn escape_count(depth_max: u8, sentinels: &Vec<bool>) -> (r: u8)
    requires
        sentinels@.len() >= depth_max,
    ensures
        r as int == escape_value(depth_max as int, sentinels@),
        depth_max > 0 ==> r < depth_max,
{
    let mut iter: u8 = 1;
    while iter < depth_max
        invariant
            1 <= iter,
            sentinels@.len() >= depth_max,
            escape_from(depth_max as int, iter as int, sentinels@) == escape_value(
                depth_max as int,
                sentinels@,
            ),
        decreases depth_max - iter,
    {
        match judge_pair(depth_max, iter, sentinels[(iter - 1) as usize], sentinels[iter as usize]) {
            Verdict::Escaped(v) => {
                return v;
            },
            Verdict::Bounded => {
                assert(escape_from(depth_max as int, iter + 2, sentinels@) == 0);
                return 0;
            },
            Verdict::Continue(next) => {
                iter = next;
            },
        }
    }
    0
}

/// An orbit that raises no sentinel below the depth ceiling is reported as
/// inside the set.
pub proof fn lemma_quiet_orbit_is_inside(depth_max: int, iter: int, sentinels: Seq<bool>)
    requires
        1 <= iter,
        forall|m: int| 0 <= m < depth_max ==> !#[trigger] sentinels[m],
    ensures
        escape_from(depth_max, iter, sentinels) == 0,
    decreases depth_max - iter + 1,
{
    if iter < depth_max {
        lemma_quiet_orbit_is_inside(depth_max, iter + 2, sentinels);
    }
}

/// A sentinel raised at step `k`, two or more steps below the depth
/// ceiling, gives a positive intensity below the ceiling and at least
/// `depth_max - k - 1`.
pub proof fn lemma_early_escape_is_visible(depth_max: int, iter: int, sentinels: Seq<bool>, k: int)
    requires
        1 <= iter <= k <= depth_max - 2,
        sentinels[k - 1],
    ensures
        1 <= depth_max - k - 1 <= escape_from(depth_max, iter, sentinels) <= depth_max - 1,
    decreases k - iter,
{
    if !sentinels[iter - 1] && !sentinels[iter] {
        lemma_early_escape_is_visible(depth_max, iter + 2, sentinels, k);
    }
}

} // verus!
