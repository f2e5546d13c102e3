use vstd::prelude::*;

verus! {

/// One step of a cursor over the 1-based positions `1..=limit`: at
/// `position`, yield it and move on while it is within the limit, else
/// yield nothing and stay.
pub open spec fn cursor_step(position: int, limit: int) -> (int, Option<int>) {
    if position <= limit {
        (position + 1, Some(position))
    } else {
        (position, None)
    }
}

/// A yielded position as an integer.
pub open spec fn widen(r: Option<i32>) -> Option<int> {
    match r {
        Some(p) => Some(p as int),
        None => None,
    }
}

/// The position of a cursor that started at 1 after `k` steps.
pub open spec fn cursor_after(limit: int, k: nat) -> int
    decreases k,
{
    if k == 0 {
        1
    } else {
        cursor_step(cursor_after(limit, (k - 1) as nat), limit).0
    }
}

/// A cursor that starts at 1 yields `1, 2, ..., limit` in order, one per
/// step, and nothing after that, however often it is asked again.
pub proof fn cursor_yields_each_position_once(limit: int, k: nat)
    ensures
        cursor_after(limit, k) == 1 + if k <= limit {
            k as int
        } else if limit > 0 {
            limit
        } else {
            0
        },
        cursor_step(cursor_after(limit, k), limit).1 == if k < limit {
            Some(k + 1 as int)
        } else {
            None::<int>
        },
    decreases k,
{
    if k > 0 {
        cursor_yields_each_position_once(limit, (k - 1) as nat);
    }
}

} // verus!
