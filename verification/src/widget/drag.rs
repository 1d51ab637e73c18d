//! Drag events and the displacement of neighbours during a drag.
use vstd::prelude::*;

verus! {

/// What happened to an item of a reorderable container.
#[derive(Clone, Copy, Debug, PartialEq, Eq, Structural)]
pub enum DragEvent {
    /// The item at `index` was picked up.
    Picked { index: usize },
    /// The item at `index` was dropped at `target_index`.
    Dropped { index: usize, target_index: usize },
    /// The drag of the item at `index` was given up.
    Canceled { index: usize },
}

/// Where an item of the row is headed while another one is dragged.
#[derive(Clone, Copy, Debug, PartialEq, Eq, Structural)]
pub enum Goal {
    /// At its own slot.
    Rest,
    /// One slot further along the row (to make room on its left).
    Forward,
    /// One slot back along the row.
    Backward,
    /// Lifted up: the dragged item itself.
    Lifted,
}

/// How an item moves when the item at `index` is dropped at `target`:
/// the items from `target` up to `index` (excluded) move forward, the items
/// after `index` up to `target` (included) move backward, the others rest.
pub open spec fn spec_displacement(i: int, index: int, target: int) -> Goal {
    if target < index && target <= i && i < index {
        Goal::Forward
    } else if index < target && index < i && i <= target {
        Goal::Backward
    } else {
        Goal::Rest
    }
}

/// Computes [`spec_displacement`].
pub fn displacement(i: usize, index: usize, target: usize) -> (goal: Goal)
    ensures
        goal == spec_displacement(i as int, index as int, target as int),
{
    if target < index && target <= i && i < index {
        Goal::Forward
    } else if index < target && index < i && i <= target {
        Goal::Backward
    } else {
        Goal::Rest
    }
}

/// The slot that an item now at `i` is headed for, when its goal is `goal`.
pub open spec fn goal_slot(i: int, goal: Goal) -> int {
    match goal {
        Goal::Forward => i + 1,
        Goal::Backward => i - 1,
        _ => i,
    }
}

/// The slot at which the item now at `i` lands when the item at `index`
/// is dropped at `target`.
pub open spec fn landing(i: int, index: int, target: int) -> int {
    if i == index {
        target
    } else {
        match spec_displacement(i, index, target) {
            Goal::Forward => i + 1,
            Goal::Backward => i - 1,
            _ => i,
        }
    }
}

/// The sequence `s` with its item at `from` taken out and put back at `to`.
pub open spec fn moved<A>(s: Seq<A>, from: int, to: int) -> Seq<A> {
    s.remove(from).insert(to, s[from])
}

/// The displacement shown while dragging is the reorder that the drop asks
/// for: each item is found, after moving the item at `index` to `target`,
/// at the slot where the preview puts it.
pub proof fn lemma_preview_is_reorder<A>(s: Seq<A>, index: int, target: int)
    requires
        0 <= index < s.len(),
        0 <= target < s.len(),
    ensures
        moved(s, index, target).len() == s.len(),
        forall|i: int|
            0 <= i < s.len() ==> #[trigger] moved(s, index, target)[landing(i, index, target)]
                == s[i],
{
    let r = s.remove(index);
    let q = moved(s, index, target);
    assert(q == r.insert(target, s[index]));
    assert forall|i: int| 0 <= i < s.len() implies #[trigger] q[landing(i, index, target)]
        == s[i] by {
        let k = landing(i, index, target);
        if i == index {
            assert(q[target] == s[index]);
        } else if k < target {
            assert(q[k] == r[k]);
        } else if k > target {
            assert(q[k] == r[k - 1]);
        } else {
            assert(q[k] == r[k]);
        }
    }
}

/// The preview moves every item to a slot of the row, and no two items to
/// the same slot.
pub proof fn lemma_landing_is_permutation(n: int, index: int, target: int)
    requires
        0 <= index < n,
        0 <= target < n,
    ensures
        forall|i: int| 0 <= i < n ==> 0 <= #[trigger] landing(i, index, target) < n,
        forall|i: int, j: int|
            0 <= i < n && 0 <= j < n && i != j ==> #[trigger] landing(i, index, target)
                != #[trigger] landing(j, index, target),
{
}

/// Dropping an item where it was taken from displaces nothing.
pub proof fn lemma_drop_in_place_moves_nothing(index: int)
    ensures
        forall|i: int| #[trigger] spec_displacement(i, index, index) == Goal::Rest,
        forall|i: int| #[trigger] landing(i, index, index) == i,
{
}

} // verus!
