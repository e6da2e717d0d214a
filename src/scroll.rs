use vstd::prelude::*;

verus! {

/// Why a scroll step was refused.
#[derive(Clone, Copy, Debug, PartialEq, Eq, Structural)]
pub enum Overshoot {
    /// The offset already reached the bound.
    PastEnd,
    /// The offset is already zero.
    PastStart,
}

/// The offset after moving `offset` by `delta` within `0..=bound`: a step
/// forward needs `offset < bound` and stops at `bound` (and at the largest
/// `u16`); a step back needs `offset > 0` and stops at zero.
pub open spec fn scroll_outcome(offset: int, delta: int, bound: int) -> Result<int, Overshoot> {
    if delta > 0 {
        if offset < bound {
            let target = offset + delta;
            let limit = if bound < u16::MAX as int {
                bound
            } else {
                u16::MAX as int
            };
            Ok(
                if target < limit {
                    target
                } else {
                    limit
                },
            )
        } else {
            Err(Overshoot::PastEnd)
        }
    } else if delta < 0 {
        if offset > 0 {
            Ok(
                if offset + delta > 0 {
                    offset + delta
                } else {
                    0
                },
            )
        } else {
            Err(Overshoot::PastStart)
        }
    } else {
        Ok(offset)
    }
}

/// Moves `offset` by `delta` within `0..=bound`.
pub fn scroll_step(offset: u16, delta: i32, bound: usize) -> (r: Result<u16, Overshoot>)
    ensures
        match r {
            Ok(o) => scroll_outcome(offset as int, delta as int, bound as int) == Ok::<int, Overshoot>(o as int),
            Err(e) => scroll_outcome(offset as int, delta as int, bound as int) == Err::<int, Overshoot>(e),
        },
{
    if delta > 0 {
        if (offset as usize) < bound {
            let limit: u16 = if bound < u16::MAX as usize {
                bound as u16
            } else {
                u16::MAX
            };
            let room: u16 = limit - offset;
            if (delta as u32) < room as u32 {
                Ok(offset + delta as u16)
            } else {
                Ok(limit)
            }
        } else {
            Err(Overshoot::PastEnd)
        }
    } else if delta < 0 {
        if offset > 0 {
            let target: i32 = offset as i32 + delta;
            if target > 0 {
                Ok(target as u16)
            } else {
                Ok(0)
            }
        } else {
            Err(Overshoot::PastStart)
        }
    } else {
        Ok(offset)
    }
}

/// Stepping forward one at a time from zero towards a bound `n` succeeds
/// exactly `n` times, each step moving the offset by one, and the next step
/// fails past the end.
pub proof fn lemma_step_down_to_bound(n: int)
    requires
        0 <= n <= u16::MAX,
    ensures
        forall|k: int| 0 <= k < n ==> #[trigger] scroll_outcome(k, 1, n) == Ok::<int, Overshoot>(k + 1),
        scroll_outcome(n, 1, n) == Err::<int, Overshoot>(Overshoot::PastEnd),
{
}

} // verus!
