use vstd::prelude::*;

verus! {

/// Decides whether a `load` request must be treated as an implicit
/// `randomize` request: true exactly when rerolling is enabled
/// (`h > 0`) and at least `h` hours have passed since `last`.
pub open spec fn reroll_due(h: int, last: int, now: int) -> bool {
    h > 0 && now >= last + h * 3600
}

/// The scheduled-reroll gate. Timestamps are seconds since the epoch;
/// `hours_per_reroll <= 0` disables rerolling, so it never fires then.
pub fn should_auto_reroll(hours_per_reroll: i32, last_rerolled_at: i64, now: i64) -> (r: bool)
    ensures
        r == reroll_due(hours_per_reroll as int, last_rerolled_at as int, now as int),
        hours_per_reroll <= 0 ==> r == false,
{
    if hours_per_reroll <= 0 {
        false
    } else {
        (now as i128) >= (last_rerolled_at as i128) + (hours_per_reroll as i128) * 3600
    }
}

/// A reroll is owed at the very second the interval has elapsed, and
/// not yet one second before that.
pub proof fn lemma_reroll_boundary(h: int, t: int)
    requires
        h > 0,
    ensures
        reroll_due(h, t, t + h * 3600),
        !reroll_due(h, t, t + h * 3600 - 1),
{
}

} // verus!
