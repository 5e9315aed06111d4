//! What every operation keeps: the invariant of the layout tree.

use super::ids::{lemma_bite_ids, lemma_spoon_distinct, lemma_spoon_ids};
use super::manipulation::{delete_refusal, lemma_delete_finds, lemma_node_with};
use super::search::{bite_with, with_bite};
use super::manipulation::{
    delete_spec, fresh_name, next_id_spec, split_sibling_spec, lemma_split_spec, lemma_unchanged_when_not_done, resize_spec,
    rollback_spec, split_spec, swap_spec,
};
use crate::model::{Direction, Tree};
use crate::text::{blank, is_space};
use vstd::prelude::*;

verus! {

/// The name given to a new bite is never blank.
pub proof fn lemma_fresh_name_not_blank(id: u64)
    ensures
        !blank(fresh_name(id)),
{
    reveal_strlit("leaf-");
    let name = fresh_name(id);
    assert(name[0] == 'l');
    assert(!is_space(name[0]));
}

/// After a split the tree has the ids it had, and where a bite was split
/// also the two new ones.
pub proof fn lemma_split_ids(
    t: Tree,
    target: u64,
    orientation: Direction,
    ratio: int,
    new_id: u64,
    command: Seq<char>,
    x: u64,
)
    requires
        new_id < u64::MAX,
    ensures
        split_spec(t, target, orientation, ratio, new_id, command).0.has_id(x) <==> (t.has_id(x)
            || (t.has_bite(target) && (x == new_id || x == new_id + 1))),
    decreases t,
{
    let after = split_spec(t, target, orientation, ratio, new_id, command);
    lemma_split_spec(t, target, orientation, ratio, new_id, command);
    match t {
        Tree::Bite { id, .. } => {
            if id == target {
                lemma_spoon_ids(after.0, x);
                lemma_bite_ids(t, x);
                lemma_bite_ids(*after.0->second, x);
            }
        },
        Tree::Spoon { first, second, .. } => {
            lemma_split_ids(*first, target, orientation, ratio, new_id, command, x);
            lemma_split_ids(*second, target, orientation, ratio, new_id, command, x);
            lemma_split_spec(*first, target, orientation, ratio, new_id, command);
            lemma_split_spec(*second, target, orientation, ratio, new_id, command);
            super::ids::lemma_spoon_bites(t, target);
            lemma_spoon_ids(t, x);
            lemma_spoon_ids(after.0, x);
        },
    }
}

/// A split keeps the tree valid, given two ids that the tree does not have
/// yet and a command that is not blank.
pub proof fn lemma_split_keeps_valid(
    t: Tree,
    target: u64,
    orientation: Direction,
    ratio: int,
    new_id: u64,
    command: Seq<char>,
)
    requires
        t.valid(),
        new_id < u64::MAX,
        !t.has_id(new_id),
        !t.has_id((new_id + 1) as u64),
        !blank(command),
    ensures
        split_spec(t, target, orientation, ratio, new_id, command).0.valid(),
    decreases t,
{
    let after = split_spec(t, target, orientation, ratio, new_id, command).0;
    lemma_split_spec(t, target, orientation, ratio, new_id, command);
    lemma_fresh_name_not_blank(new_id);
    match t {
        Tree::Bite { id, .. } => {
            if id == target {
                let added = *after->second;
                lemma_bite_ids(t, id);
                lemma_bite_ids(added, new_id);
                assert forall|x: u64| !(t.has_id(x) && added.has_id(x)) by {
                    lemma_bite_ids(t, x);
                    lemma_bite_ids(added, x);
                }
                lemma_bite_ids(t, (new_id + 1) as u64);
                lemma_bite_ids(added, (new_id + 1) as u64);
                lemma_spoon_distinct(after);
                assert(after->first.well_formed());
                assert(added.well_formed());
            }
        },
        Tree::Spoon { id, first, second, .. } => {
            lemma_spoon_distinct(t);
            lemma_spoon_ids(t, new_id);
            lemma_spoon_ids(t, (new_id + 1) as u64);
            lemma_spoon_ids(t, id);
            if split_spec(*first, target, orientation, ratio, new_id, command).1 {
                lemma_split_keeps_valid(*first, target, orientation, ratio, new_id, command);
                let grown = *after->first;
                lemma_split_ids(*first, target, orientation, ratio, new_id, command, id);
                assert forall|x: u64| !(grown.has_id(x) && second.has_id(x)) by {
                    lemma_split_ids(*first, target, orientation, ratio, new_id, command, x);
                }
                lemma_spoon_distinct(after);
            } else {
                lemma_split_keeps_valid(*second, target, orientation, ratio, new_id, command);
                let grown = *after->second;
                lemma_split_ids(*second, target, orientation, ratio, new_id, command, id);
                assert forall|x: u64| !(first.has_id(x) && grown.has_id(x)) by {
                    lemma_split_ids(*second, target, orientation, ratio, new_id, command, x);
                }
                lemma_spoon_distinct(after);
            }
        },
    }
}

/// Undoing a split gives back the tree that was split, where the two ids of
/// the split were new to it.
pub proof fn lemma_rollback_undoes_split(
    t: Tree,
    target: u64,
    orientation: Direction,
    ratio: int,
    new_id: u64,
    command: Seq<char>,
)
    requires
        new_id < u64::MAX,
        t.has_bite(target),
        !t.has_id(new_id),
        !t.has_id((new_id + 1) as u64),
    ensures
        rollback_spec(split_spec(t, target, orientation, ratio, new_id, command).0, new_id) == (
            t,
            true,
        ),
    decreases t,
{
    let after = split_spec(t, target, orientation, ratio, new_id, command).0;
    lemma_split_spec(t, target, orientation, ratio, new_id, command);
    match t {
        Tree::Bite { id, .. } => {
            assert(t.bites()[0] == id);
        },
        Tree::Spoon { id, first, second, .. } => {
            lemma_spoon_ids(t, new_id);
            lemma_spoon_ids(t, (new_id + 1) as u64);
            lemma_spoon_ids(t, id);
            super::ids::lemma_spoon_bites(t, target);
            lemma_split_spec(*first, target, orientation, ratio, new_id, command);
            lemma_split_spec(*second, target, orientation, ratio, new_id, command);
            if first.has_bite(target) {
                lemma_rollback_undoes_split(*first, target, orientation, ratio, new_id, command);
            } else {
                lemma_rollback_undoes_split(*second, target, orientation, ratio, new_id, command);
                lemma_rollback_finds_nothing(*first, new_id);
            }
        },
    }
}

/// Nothing is undone in a tree that has no spoon of the id a split would
/// have given it.
pub proof fn lemma_rollback_finds_nothing(t: Tree, new_bite_id: u64)
    requires
        new_bite_id < u64::MAX,
        !t.has_id((new_bite_id + 1) as u64),
    ensures
        rollback_spec(t, new_bite_id) == (t, false),
    decreases t,
{
    match t {
        Tree::Bite { .. } => {},
        Tree::Spoon { id, first, second, .. } => {
            lemma_spoon_ids(t, (new_bite_id + 1) as u64);
            lemma_rollback_finds_nothing(*first, new_bite_id);
            lemma_rollback_finds_nothing(*second, new_bite_id);
        },
    }
}

/// Deleting and undoing a split add no id: every id of the tree that
/// results was one before.
pub proof fn lemma_removal_ids(t: Tree, target: u64, x: u64)
    ensures
        delete_spec(t, target).0.has_id(x) ==> t.has_id(x),
        rollback_spec(t, target).0.has_id(x) ==> t.has_id(x),
    decreases t,
{
    match t {
        Tree::Bite { .. } => {},
        Tree::Spoon { first, second, .. } => {
            lemma_removal_ids(*first, target, x);
            lemma_removal_ids(*second, target, x);
            lemma_spoon_ids(t, x);
            let deleted = delete_spec(t, target).0;
            if deleted is Spoon && deleted != *first && deleted != *second {
                lemma_spoon_ids(deleted, x);
            }
            let undone = rollback_spec(t, target).0;
            if undone is Spoon && undone != *first {
                lemma_spoon_ids(undone, x);
            }
        },
    }
}

/// Deleting a node and undoing a split keep a valid tree valid.
pub proof fn lemma_removal_keeps_valid(t: Tree, target: u64)
    requires
        t.valid(),
    ensures
        delete_spec(t, target).0.valid(),
        rollback_spec(t, target).0.valid(),
    decreases t,
{
    match t {
        Tree::Bite { .. } => {},
        Tree::Spoon { id, first, second, .. } => {
            lemma_spoon_distinct(t);
            lemma_removal_keeps_valid(*first, target);
            lemma_removal_keeps_valid(*second, target);
            lemma_unchanged_when_not_done(*first, target, Direction::Vertical, 0);
            lemma_unchanged_when_not_done(*second, target, Direction::Vertical, 0);
            let deleted = delete_spec(t, target).0;
            if deleted is Spoon && deleted != *first && deleted != *second {
                lemma_removal_ids(*first, target, id);
                lemma_removal_ids(*second, target, id);
                assert forall|x: u64| !(deleted->first.has_id(x) && deleted->second.has_id(x)) by {
                    lemma_removal_ids(*first, target, x);
                    lemma_removal_ids(*second, target, x);
                }
                lemma_spoon_distinct(deleted);
            }
            let undone = rollback_spec(t, target).0;
            if undone is Spoon && undone != *first {
                lemma_removal_ids(*first, target, id);
                lemma_removal_ids(*second, target, id);
                assert forall|x: u64| !(undone->first.has_id(x) && undone->second.has_id(x)) by {
                    lemma_removal_ids(*first, target, x);
                    lemma_removal_ids(*second, target, x);
                }
                lemma_spoon_distinct(undone);
            }
        },
    }
}

/// A valid tree from which a node was deleted no longer has that node's id,
/// so that deleting it once more finds nothing.
pub proof fn lemma_delete_removes_id(t: Tree, target: u64)
    requires
        t.valid(),
        delete_spec(t, target).1,
    ensures
        !delete_spec(t, target).0.has_id(target),
    decreases t,
{
    match t {
        Tree::Bite { .. } => {},
        Tree::Spoon { id, first, second, .. } => {
            lemma_spoon_distinct(t);
            lemma_spoon_ids(t, target);
            lemma_id_is_own(*first);
            lemma_id_is_own(*second);
            let deleted = delete_spec(t, target).0;
            if first.id() != target && second.id() != target {
                lemma_spoon_ids(deleted, target);
                if delete_spec(*first, target).1 {
                    lemma_delete_needs_id(*first, target);
                    lemma_delete_removes_id(*first, target);
                } else {
                    lemma_delete_misses(*first, target);
                    lemma_delete_needs_id(*second, target);
                    lemma_delete_removes_id(*second, target);
                }
            }
        },
    }
}

/// A node's own id is an id of its tree.
pub proof fn lemma_id_is_own(t: Tree)
    ensures
        t.has_id(t.id()),
{
    match t {
        Tree::Bite { .. } => {
            lemma_bite_ids(t, t.id());
        },
        Tree::Spoon { .. } => {
            lemma_spoon_ids(t, t.id());
        },
    }
}

/// Only a node of the tree can be deleted.
pub proof fn lemma_delete_needs_id(t: Tree, target: u64)
    requires
        delete_spec(t, target).1,
    ensures
        t.has_id(target),
    decreases t,
{
    match t {
        Tree::Bite { .. } => {},
        Tree::Spoon { first, second, .. } => {
            lemma_spoon_ids(t, target);
            lemma_id_is_own(*first);
            lemma_id_is_own(*second);
            if first.id() != target && second.id() != target {
                if delete_spec(*first, target).1 {
                    lemma_delete_needs_id(*first, target);
                } else {
                    lemma_delete_needs_id(*second, target);
                }
            }
        },
    }
}

/// A tree in which nothing can be deleted for an id has that id at its root
/// or nowhere.
pub proof fn lemma_delete_misses(t: Tree, target: u64)
    requires
        !delete_spec(t, target).1,
        t.id() != target,
    ensures
        !t.has_id(target),
{
    match t {
        Tree::Bite { .. } => {
            lemma_bite_ids(t, target);
        },
        Tree::Spoon { .. } => {
            lemma_spoon_ids(t, target);
            if t->first.has_id(target) || t->second.has_id(target) {
                super::manipulation::lemma_delete_finds(t, target);
            }
        },
    }
}

/// Resizing changes ratios only: the ids stay as they were.
pub proof fn lemma_resize_ids(t: Tree, target: u64, orientation: Direction, delta: int)
    ensures
        resize_spec(t, target, orientation, delta).0.ids() == t.ids(),
        resize_spec(t, target, orientation, delta).0.bites() == t.bites(),
    decreases t,
{
    match t {
        Tree::Bite { .. } => {},
        Tree::Spoon { first, second, .. } => {
            lemma_resize_ids(*first, target, orientation, delta);
            lemma_resize_ids(*second, target, orientation, delta);
        },
    }
}

/// Resizing keeps a valid tree valid.
pub proof fn lemma_resize_keeps_valid(t: Tree, target: u64, orientation: Direction, delta: int)
    requires
        t.valid(),
    ensures
        resize_spec(t, target, orientation, delta).0.valid(),
    decreases t,
{
    lemma_resize_ids(t, target, orientation, delta);
    lemma_resize_keeps_well_formed(t, target, orientation, delta);
}

proof fn lemma_resize_keeps_well_formed(t: Tree, target: u64, orientation: Direction, delta: int)
    requires
        t.well_formed(),
    ensures
        resize_spec(t, target, orientation, delta).0.well_formed(),
    decreases t,
{
    match t {
        Tree::Bite { .. } => {},
        Tree::Spoon { first, second, .. } => {
            lemma_resize_keeps_well_formed(*first, target, orientation, delta);
            lemma_resize_keeps_well_formed(*second, target, orientation, delta);
        },
    }
}

/// Swapping moves ids about but neither adds nor drops one.
pub proof fn lemma_swap_ids(t: Tree, target: u64, orientation: Direction, x: u64)
    ensures
        swap_spec(t, target, orientation).0.has_id(x) <==> t.has_id(x),
    decreases t,
{
    match t {
        Tree::Bite { .. } => {},
        Tree::Spoon { first, second, .. } => {
            lemma_swap_ids(*first, target, orientation, x);
            lemma_swap_ids(*second, target, orientation, x);
            lemma_spoon_ids(t, x);
            lemma_spoon_ids(swap_spec(t, target, orientation).0, x);
        },
    }
}

/// Swapping keeps a valid tree valid.
pub proof fn lemma_swap_keeps_valid(t: Tree, target: u64, orientation: Direction)
    requires
        t.valid(),
    ensures
        swap_spec(t, target, orientation).0.valid(),
    decreases t,
{
    match t {
        Tree::Bite { .. } => {},
        Tree::Spoon { id, first, second, .. } => {
            let after = swap_spec(t, target, orientation).0;
            lemma_spoon_distinct(t);
            lemma_swap_keeps_valid(*first, target, orientation);
            lemma_swap_keeps_valid(*second, target, orientation);
            lemma_swap_ids(*first, target, orientation, id);
            lemma_swap_ids(*second, target, orientation, id);
            assert forall|x: u64| !(after->first.has_id(x) && after->second.has_id(x)) by {
                lemma_swap_ids(*first, target, orientation, x);
                lemma_swap_ids(*second, target, orientation, x);
            }
            lemma_spoon_distinct(after);
        },
    }
}

/// A split drops no bite: every bite of the tree is one afterwards.
pub proof fn lemma_split_keeps_bites(
    t: Tree,
    target: u64,
    orientation: Direction,
    ratio: int,
    new_id: u64,
    command: Seq<char>,
    x: u64,
)
    requires
        t.has_bite(x),
    ensures
        split_spec(t, target, orientation, ratio, new_id, command).0.has_bite(x),
    decreases t,
{
    let after = split_spec(t, target, orientation, ratio, new_id, command).0;
    match t {
        Tree::Bite { id, .. } => {
            if id == target {
                super::ids::lemma_spoon_bites(after, x);
            }
        },
        Tree::Spoon { first, second, .. } => {
            super::ids::lemma_spoon_bites(t, x);
            super::ids::lemma_spoon_bites(after, x);
            if first.has_bite(x) {
                lemma_split_keeps_bites(*first, target, orientation, ratio, new_id, command, x);
            }
            if second.has_bite(x) {
                lemma_split_keeps_bites(*second, target, orientation, ratio, new_id, command, x);
            }
        },
    }
}

/// Swapping neither adds nor drops a bite.
pub proof fn lemma_swap_keeps_bites(t: Tree, target: u64, orientation: Direction, x: u64)
    ensures
        swap_spec(t, target, orientation).0.has_bite(x) <==> t.has_bite(x),
    decreases t,
{
    match t {
        Tree::Bite { .. } => {},
        Tree::Spoon { first, second, .. } => {
            lemma_swap_keeps_bites(*first, target, orientation, x);
            lemma_swap_keeps_bites(*second, target, orientation, x);
            super::ids::lemma_spoon_bites(t, x);
            super::ids::lemma_spoon_bites(swap_spec(t, target, orientation).0, x);
        },
    }
}

/// A bite found in a well-formed tree is well formed.
pub proof fn lemma_found_bite_well_formed(t: Tree, id: u64)
    requires
        t.well_formed(),
    ensures
        bite_with(t, id) matches Some(found) ==> found.well_formed(),
    decreases t,
{
    match t {
        Tree::Bite { .. } => {},
        Tree::Spoon { first, second, .. } => {
            lemma_found_bite_well_formed(*first, id);
            lemma_found_bite_well_formed(*second, id);
        },
    }
}

/// The id that follows the greatest id of a tree, and the one after it, are
/// new to the tree.
pub proof fn lemma_next_ids_fresh(t: Tree)
    requires
        next_id_spec(t) < u64::MAX,
    ensures
        !t.has_id(next_id_spec(t)),
        !t.has_id((next_id_spec(t) + 1) as u64),
{
    super::ids::lemma_max_id(t);
}

/// A bite put in the place of a bite of the same id changes neither the
/// ids of the tree nor its bites.
pub proof fn lemma_with_bite_bites(t: Tree, id: u64, with: Tree)
    requires
        with is Bite,
        with.id() == id,
    ensures
        with_bite(t, id, with).bites() == t.bites(),
        with_bite(t, id, with).ids() == t.ids(),
    decreases t,
{
    match t {
        Tree::Bite { .. } => {},
        Tree::Spoon { first, second, .. } => {
            lemma_with_bite_bites(*first, id, with);
            lemma_with_bite_bites(*second, id, with);
        },
    }
}

/// A bite put in the place of a bite of the same id keeps a valid tree
/// valid, given that neither its name nor its command is blank.
pub proof fn lemma_with_bite_keeps_valid(t: Tree, id: u64, with: Tree)
    requires
        t.valid(),
        with is Bite,
        with.id() == id,
        with.well_formed(),
    ensures
        with_bite(t, id, with).valid(),
{
    lemma_with_bite_bites(t, id, with);
    lemma_with_bite_keeps_well_formed(t, id, with);
}

proof fn lemma_with_bite_keeps_well_formed(t: Tree, id: u64, with: Tree)
    requires
        t.well_formed(),
        with.well_formed(),
    ensures
        with_bite(t, id, with).well_formed(),
    decreases t,
{
    match t {
        Tree::Bite { .. } => {},
        Tree::Spoon { first, second, .. } => {
            lemma_with_bite_keeps_well_formed(*first, id, with);
            lemma_with_bite_keeps_well_formed(*second, id, with);
        },
    }
}

/// Deleting is not done twice: once a bite was deleted from a valid tree,
/// deleting the same id again is refused, and the tree stays as it is.
pub proof fn lemma_delete_twice(t: Tree, target: u64)
    requires
        t.valid(),
        delete_refusal(t, target) is None,
    ensures
        delete_refusal(delete_spec(t, target).0, target) is Some,
{
    lemma_node_with(t, target);
    lemma_spoon_ids(t, target);
    lemma_delete_finds(t, target);
    lemma_delete_removes_id(t, target);
    lemma_node_with(delete_spec(t, target).0, target);
}

/// Undoing a split takes out the new bite and no other: every other bite
/// stays, and where a split was undone the bite beside the new one is a bite
/// of the tree that results.
pub proof fn lemma_rollback_keeps_bites(t: Tree, new_bite_id: u64, x: u64)
    ensures
        t.has_bite(x) && x != new_bite_id ==> rollback_spec(t, new_bite_id).0.has_bite(x),
        rollback_spec(t, new_bite_id).1 <==> split_sibling_spec(t, new_bite_id) is Some,
        split_sibling_spec(t, new_bite_id) matches Some(sibling) ==> rollback_spec(
            t,
            new_bite_id,
        ).0.has_bite(sibling),
    decreases t,
{
    let after = rollback_spec(t, new_bite_id).0;
    match t {
        Tree::Bite { .. } => {},
        Tree::Spoon { id, first, second, .. } => {
            lemma_rollback_keeps_bites(*first, new_bite_id, x);
            lemma_rollback_keeps_bites(*second, new_bite_id, x);
            super::ids::lemma_spoon_bites(t, x);
            if id == new_bite_id + 1 && *first is Bite && *second is Bite && second.id()
                == new_bite_id {
                assert(first.bites()[0] == first.id());
                assert(second.bites()[0] == new_bite_id);
                assert(second.has_bite(x) ==> x == new_bite_id) by {
                    if second.has_bite(x) {
                        let i = choose|i: int| 0 <= i < second.bites().len() && second.bites()[i] == x;
                        assert(i == 0);
                    }
                }
            } else {
                super::ids::lemma_spoon_bites(after, x);
                lemma_unchanged_when_not_done(*first, new_bite_id, Direction::Vertical, 0);
                lemma_unchanged_when_not_done(*second, new_bite_id, Direction::Vertical, 0);
                if split_sibling_spec(t, new_bite_id) is Some {
                    let sibling = split_sibling_spec(t, new_bite_id)->0;
                    super::ids::lemma_spoon_bites(after, sibling);
                }
            }
        },
    }
}

/// A split that finds its bite makes the new bite a bite of the tree.
pub proof fn lemma_split_adds_bite(
    t: Tree,
    target: u64,
    orientation: Direction,
    ratio: int,
    new_id: u64,
    command: Seq<char>,
)
    requires
        t.has_bite(target),
    ensures
        split_spec(t, target, orientation, ratio, new_id, command).0.has_bite(new_id),
    decreases t,
{
    let after = split_spec(t, target, orientation, ratio, new_id, command).0;
    lemma_split_spec(t, target, orientation, ratio, new_id, command);
    match t {
        Tree::Bite { id, .. } => {
            assert(t.bites()[0] == id);
            assert(after->second.bites()[0] == new_id);
            super::ids::lemma_spoon_bites(after, new_id);
        },
        Tree::Spoon { first, second, .. } => {
            super::ids::lemma_spoon_bites(t, target);
            super::ids::lemma_spoon_bites(after, new_id);
            lemma_split_spec(*first, target, orientation, ratio, new_id, command);
            if first.has_bite(target) {
                lemma_split_adds_bite(*first, target, orientation, ratio, new_id, command);
            } else {
                lemma_split_adds_bite(*second, target, orientation, ratio, new_id, command);
            }
        },
    }
}

} // verus!
