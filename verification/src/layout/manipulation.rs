//! Changing the layout tree in place: splitting a bite, undoing a split,
//! deleting a bite, resizing and swapping.

use super::geometry::{clamp_ratio, clamp_ratio_spec, MAX_RATIO, MIN_RATIO};
use super::navigation::lemma_bite_count;
use super::search::{find_bite, find_node, node_with};
use crate::model::{Direction, Node, Tree};
use crate::text::{decimal, push_decimal};
use vstd::prelude::*;

verus! {

/// Why a bite could not be deleted.
#[derive(Debug, Clone, Copy, PartialEq, Eq, Structural)]
pub enum DeleteNodeError {
    /// The tree is a single bite, which must stay.
    LastPane,
    /// The id is not that of a bite.
    NotFound,
}

/// An id that no node of the tree has: one more than the greatest, held at
/// `u64::MAX`.
pub open spec fn next_id_spec(t: Tree) -> u64 {
    if t.max_id() == u64::MAX {
        u64::MAX
    } else {
        (t.max_id() + 1) as u64
    }
}

/// The name given to a new bite: `leaf-` and its id in decimal.
pub open spec fn fresh_name(id: u64) -> Seq<char> {
    "leaf-"@ + decimal(id as nat)
}

/// The tree with its first bite of id `target` replaced by a spoon of id
/// `new_id + 1` that holds that bite and, after it, a new bite of id
/// `new_id` running `command`; and whether the tree had such a bite.
pub open spec fn split_spec(
    t: Tree,
    target: u64,
    orientation: Direction,
    ratio: int,
    new_id: u64,
    command: Seq<char>,
) -> (Tree, bool)
    decreases t,
{
    match t {
        Tree::Bite { id, .. } => if id == target {
            (
                Tree::Spoon {
                    id: (new_id + 1) as u64,
                    orientation,
                    ratio: clamp_ratio_spec(ratio) as i64,
                    first: Box::new(t),
                    second: Box::new(
                        Tree::Bite { id: new_id, name: fresh_name(new_id), command },
                    ),
                },
                true,
            )
        } else {
            (t, false)
        },
        Tree::Spoon { id, orientation: own, ratio: share, first, second } => {
            let left = split_spec(*first, target, orientation, ratio, new_id, command);
            if left.1 {
                (
                    Tree::Spoon {
                        id,
                        orientation: own,
                        ratio: share,
                        first: Box::new(left.0),
                        second,
                    },
                    true,
                )
            } else {
                let right = split_spec(*second, target, orientation, ratio, new_id, command);
                (
                    Tree::Spoon {
                        id,
                        orientation: own,
                        ratio: share,
                        first,
                        second: Box::new(right.0),
                    },
                    right.1,
                )
            }
        },
    }
}

/// The tree with the first spoon that a split for `new_bite_id` made put
/// back to the bite it was made from; and whether there was such a spoon. The
/// spoon is known by its id, `new_bite_id + 1`, and by its two children: a
/// bite, and the bite of id `new_bite_id`.
pub open spec fn rollback_spec(t: Tree, new_bite_id: u64) -> (Tree, bool)
    decreases t,
{
    match t {
        Tree::Bite { .. } => (t, false),
        Tree::Spoon { id, orientation, ratio, first, second } => {
            if id == new_bite_id + 1 && *first is Bite && *second is Bite && second.id()
                == new_bite_id {
                (*first, true)
            } else {
                let left = rollback_spec(*first, new_bite_id);
                if left.1 {
                    (Tree::Spoon { id, orientation, ratio, first: Box::new(left.0), second }, true)
                } else {
                    let right = rollback_spec(*second, new_bite_id);
                    (
                        Tree::Spoon { id, orientation, ratio, first, second: Box::new(right.0) },
                        right.1,
                    )
                }
            }
        },
    }
}

/// The bite that a split for `new_bite_id` was made from, where the tree has
/// a spoon that such a split made: the bite that stays when the split is
/// undone.
pub open spec fn split_sibling_spec(t: Tree, new_bite_id: u64) -> Option<u64>
    decreases t,
{
    match t {
        Tree::Bite { .. } => None,
        Tree::Spoon { id, first, second, .. } => {
            if id == new_bite_id + 1 && *first is Bite && *second is Bite && second.id()
                == new_bite_id {
                Some(first.id())
            } else {
                match split_sibling_spec(*first, new_bite_id) {
                    Some(sibling) => Some(sibling),
                    None => split_sibling_spec(*second, new_bite_id),
                }
            }
        },
    }
}

/// The tree with the first node of id `target` that is a child of a spoon
/// taken out, and that spoon replaced by its other child; and whether there
/// was such a node. The child that stays keeps its id; the spoon's is gone.
pub open spec fn delete_spec(t: Tree, target: u64) -> (Tree, bool)
    decreases t,
{
    match t {
        Tree::Bite { .. } => (t, false),
        Tree::Spoon { id, orientation, ratio, first, second } => {
            if first.id() == target {
                (*second, true)
            } else if second.id() == target {
                (*first, true)
            } else {
                let left = delete_spec(*first, target);
                if left.1 {
                    (Tree::Spoon { id, orientation, ratio, first: Box::new(left.0), second }, true)
                } else {
                    let right = delete_spec(*second, target);
                    (
                        Tree::Spoon { id, orientation, ratio, first, second: Box::new(right.0) },
                        right.1,
                    )
                }
            }
        },
    }
}

/// The tree with the ratio of one spoon moved by `delta` and clamped; and
/// whether there was a spoon to move. The spoon is the innermost one of the
/// given orientation that has a bite of id `target` below it.
pub open spec fn resize_spec(t: Tree, target: u64, orientation: Direction, delta: int) -> (
    Tree,
    bool,
)
    decreases t,
{
    match t {
        Tree::Bite { .. } => (t, false),
        Tree::Spoon { id, orientation: own, ratio, first, second } => {
            let left = resize_spec(*first, target, orientation, delta);
            if left.1 {
                (
                    Tree::Spoon { id, orientation: own, ratio, first: Box::new(left.0), second },
                    true,
                )
            } else {
                let right = resize_spec(*second, target, orientation, delta);
                if right.1 {
                    (
                        Tree::Spoon {
                            id,
                            orientation: own,
                            ratio,
                            first,
                            second: Box::new(right.0),
                        },
                        true,
                    )
                } else if own == orientation && (first.has_bite(target) || second.has_bite(
                    target,
                )) {
                    (
                        Tree::Spoon {
                            id,
                            orientation: own,
                            ratio: clamp_ratio_spec(ratio + delta) as i64,
                            first,
                            second,
                        },
                        true,
                    )
                } else {
                    (t, false)
                }
            }
        },
    }
}

/// The tree with the two children of one spoon exchanged; and whether there
/// was a spoon to do it on. The spoon is the first one of the given
/// orientation whose children are both bites, one of them of id `target`.
pub open spec fn swap_spec(t: Tree, target: u64, orientation: Direction) -> (Tree, bool)
    decreases t,
{
    match t {
        Tree::Bite { .. } => (t, false),
        Tree::Spoon { id, orientation: own, ratio, first, second } => {
            if own == orientation && *first is Bite && *second is Bite && (first.id() == target
                || second.id() == target) {
                (Tree::Spoon { id, orientation: own, ratio, first: second, second: first }, true)
            } else {
                let left = swap_spec(*first, target, orientation);
                if left.1 {
                    (
                        Tree::Spoon {
                            id,
                            orientation: own,
                            ratio,
                            first: Box::new(left.0),
                            second,
                        },
                        true,
                    )
                } else {
                    let right = swap_spec(*second, target, orientation);
                    (
                        Tree::Spoon {
                            id,
                            orientation: own,
                            ratio,
                            first,
                            second: Box::new(right.0),
                        },
                        right.1,
                    )
                }
            }
        },
    }
}

/// A split that finds no bite leaves the tree as it was, and it finds one
/// exactly when the tree has a bite of that id.
pub proof fn lemma_split_spec(
    t: Tree,
    target: u64,
    orientation: Direction,
    ratio: int,
    new_id: u64,
    command: Seq<char>,
)
    ensures
        split_spec(t, target, orientation, ratio, new_id, command).1 == t.has_bite(target),
        !split_spec(t, target, orientation, ratio, new_id, command).1 ==> split_spec(
            t,
            target,
            orientation,
            ratio,
            new_id,
            command,
        ).0 == t,
    decreases t,
{
    match t {
        Tree::Bite { id, .. } => {
            assert(t.bites()[0] == id);
        },
        Tree::Spoon { first, second, .. } => {
            lemma_split_spec(*first, target, orientation, ratio, new_id, command);
            lemma_split_spec(*second, target, orientation, ratio, new_id, command);
            super::ids::lemma_spoon_bites(t, target);
        },
    }
}

/// An operation that finds nothing to do leaves the tree as it was.
pub proof fn lemma_unchanged_when_not_done(t: Tree, target: u64, orientation: Direction, delta: int)
    ensures
        !rollback_spec(t, target).1 ==> rollback_spec(t, target).0 == t,
        !delete_spec(t, target).1 ==> delete_spec(t, target).0 == t,
        !resize_spec(t, target, orientation, delta).1 ==> resize_spec(
            t,
            target,
            orientation,
            delta,
        ).0 == t,
        !swap_spec(t, target, orientation).1 ==> swap_spec(t, target, orientation).0 == t,
    decreases t,
{
    match t {
        Tree::Bite { .. } => {},
        Tree::Spoon { first, second, .. } => {
            lemma_unchanged_when_not_done(*first, target, orientation, delta);
            lemma_unchanged_when_not_done(*second, target, orientation, delta);
        },
    }
}

fn max_id(node: &Node) -> (id: u64)
    ensures
        id == node@.max_id(),
    decreases node,
{
    match node {
        Node::Bite { id, .. } => *id,
        Node::Spoon { id, first, second, .. } => {
            let a = max_id(first);
            let b = max_id(second);
            let below = if a >= b {
                a
            } else {
                b
            };
            if *id >= below {
                *id
            } else {
                below
            }
        },
    }
}

/// One more than the greatest id in the tree, held at `u64::MAX`. Below that
/// limit it is an id that no node of the tree has, whether or not the tree's
/// own ids are distinct.
pub fn next_id(node: &Node) -> (id: u64)
    ensures
        id == next_id_spec(node@),
        node@.max_id() < u64::MAX ==> id == node@.max_id() + 1 && !node@.has_id(id),
{
    proof {
        super::ids::lemma_max_id(node@);
    }
    let greatest = max_id(node);
    if greatest == u64::MAX {
        u64::MAX
    } else {
        greatest + 1
    }
}

fn clamp_moved(ratio: i64, delta: i64) -> (r: i64)
    ensures
        r == clamp_ratio_spec(ratio + delta),
{
    let moved: i128 = ratio as i128 + delta as i128;
    if moved < MIN_RATIO as i128 {
        MIN_RATIO
    } else if moved > MAX_RATIO as i128 {
        MAX_RATIO
    } else {
        moved as i64
    }
}

fn fresh_bite(new_id: u64, command: &str) -> (bite: Node)
    ensures
        bite@ == (Tree::Bite { id: new_id, name: fresh_name(new_id), command: command@ }),
{
    let mut name = "leaf-".to_owned();
    push_decimal(&mut name, new_id);
    Node::Bite { id: new_id, name, command: command.to_owned() }
}

fn split_in(
    node: &mut Node,
    target_id: u64,
    orientation: Direction,
    ratio: i64,
    new_id: u64,
    default_command: &str,
) -> (done: bool)
    requires
        new_id < u64::MAX,
    ensures
        final(node)@ == split_spec(
            old(node)@,
            target_id,
            orientation,
            ratio as int,
            new_id,
            default_command@,
        ).0,
        done == split_spec(
            old(node)@,
            target_id,
            orientation,
            ratio as int,
            new_id,
            default_command@,
        ).1,
    decreases *old(node),
{
    proof {
        lemma_split_spec(old(node)@, target_id, orientation, ratio as int, new_id, default_command@);
    }
    match node {
        Node::Bite { id, .. } => {
            if *id != target_id {
                return false;
            }
        },
        Node::Spoon { first, second, .. } => {
            proof {
                lemma_split_spec(
                    first@,
                    target_id,
                    orientation,
                    ratio as int,
                    new_id,
                    default_command@,
                );
            }
            if split_in(first, target_id, orientation, ratio, new_id, default_command) {
                return true;
            }
            return split_in(second, target_id, orientation, ratio, new_id, default_command);
        },
    }
    let mut split = stand_in();
    core::mem::swap(node, &mut split);
    *node = Node::Spoon {
        id: new_id + 1,
        orientation,
        ratio: clamp_ratio(ratio),
        first: Box::new(split),
        second: Box::new(fresh_bite(new_id, default_command)),
    };
    true
}

/// Splits the first bite of id `target_id`: a spoon of id `new_id + 1` takes
/// its place and holds it, followed by a new bite of id `new_id` named
/// `leaf-<new_id>` that runs `default_command`. The ratio is clamped. Nothing
/// is done where the tree has no such bite, or where `new_id` is `u64::MAX`
/// and leaves no id for the spoon.
pub fn split_bite(
    node: &mut Node,
    target_id: u64,
    orientation: Direction,
    ratio: i64,
    new_id: u64,
    default_command: &str,
) -> (done: bool)
    ensures
        done == (new_id < u64::MAX && old(node)@.has_bite(target_id)),
        done ==> final(node)@ == split_spec(
            old(node)@,
            target_id,
            orientation,
            ratio as int,
            new_id,
            default_command@,
        ).0,
        !done ==> final(node)@ == old(node)@,
{
    if new_id == u64::MAX {
        return false;
    }
    proof {
        lemma_split_spec(old(node)@, target_id, orientation, ratio as int, new_id, default_command@);
    }
    split_in(node, target_id, orientation, ratio, new_id, default_command)
}

fn is_bite(node: &Node) -> (r: bool)
    ensures
        r == (node@ is Bite),
{
    match node {
        Node::Bite { .. } => true,
        Node::Spoon { .. } => false,
    }
}

/// A bite to stand in a place while the node that was there is moved.
fn stand_in() -> (node: Node)
    ensures
        node@ is Bite,
{
    Node::Bite { id: 0, name: String::new(), command: String::new() }
}

fn made_by_split(node: &Node, new_bite_id: u64) -> (r: bool)
    ensures
        r == (node@ matches Tree::Spoon { id, first, second, .. } && id == new_bite_id + 1
            && *first is Bite && *second is Bite && second.id() == new_bite_id),
{
    match node {
        Node::Bite { .. } => false,
        Node::Spoon { id, first, second, .. } => {
            new_bite_id < u64::MAX && *id == new_bite_id + 1 && is_bite(first) && is_bite(second)
                && second.id() == new_bite_id
        },
    }
}

/// The bite beside the new bite `new_bite_id` in the spoon that a split made
/// for it, if the tree has such a spoon.
pub fn split_sibling(node: &Node, new_bite_id: u64) -> (sibling: Option<u64>)
    ensures
        sibling == split_sibling_spec(node@, new_bite_id),
    decreases node,
{
    if made_by_split(node, new_bite_id) {
        return match node {
            Node::Bite { .. } => None,
            Node::Spoon { first, .. } => Some(first.id()),
        };
    }
    match node {
        Node::Bite { .. } => None,
        Node::Spoon { first, second, .. } => {
            match split_sibling(first, new_bite_id) {
                Some(sibling) => Some(sibling),
                None => split_sibling(second, new_bite_id),
            }
        },
    }
}

/// Undoes the split that made the bite of id `new_bite_id`: the first spoon
/// of id `new_bite_id + 1` whose children are a bite and that new bite gives
/// its place back to the bite it was made from. Returns whether there was
/// such a spoon.
pub fn rollback_split_bite(node: &mut Node, new_bite_id: u64) -> (done: bool)
    ensures
        final(node)@ == rollback_spec(old(node)@, new_bite_id).0,
        done == rollback_spec(old(node)@, new_bite_id).1,
    decreases *old(node),
{
    if made_by_split(node, new_bite_id) {
        let mut taken = stand_in();
        core::mem::swap(node, &mut taken);
        match taken {
            Node::Bite { .. } => {},
            Node::Spoon { first, .. } => {
                *node = *first;
            },
        }
        return true;
    }
    match node {
        Node::Bite { .. } => false,
        Node::Spoon { first, second, .. } => {
            proof {
                lemma_unchanged_when_not_done(first@, new_bite_id, Direction::Vertical, 0);
            }
            if rollback_split_bite(first, new_bite_id) {
                true
            } else {
                rollback_split_bite(second, new_bite_id)
            }
        },
    }
}

fn delete_node_owned(node: Node, target_id: u64) -> (r: (Node, bool))
    ensures
        r.0@ == delete_spec(node@, target_id).0,
        r.1 == delete_spec(node@, target_id).1,
    decreases node,
{
    match node {
        Node::Bite { .. } => (node, false),
        Node::Spoon { id, orientation, ratio, first, second } => {
            let first_node = *first;
            let second_node = *second;
            if first_node.id() == target_id {
                return (second_node, true);
            }
            if second_node.id() == target_id {
                return (first_node, true);
            }
            proof {
                lemma_unchanged_when_not_done(first_node@, target_id, Direction::Vertical, 0);
            }
            let (new_first, deleted_in_first) = delete_node_owned(first_node, target_id);
            if deleted_in_first {
                return (
                    Node::Spoon {
                        id,
                        orientation,
                        ratio,
                        first: Box::new(new_first),
                        second: Box::new(second_node),
                    },
                    true,
                );
            }
            let (new_second, deleted_in_second) = delete_node_owned(second_node, target_id);
            (
                Node::Spoon {
                    id,
                    orientation,
                    ratio,
                    first: Box::new(new_first),
                    second: Box::new(new_second),
                },
                deleted_in_second,
            )
        },
    }
}

/// A node found by its id has that id and is a node of the tree; nothing is
/// found exactly when the tree has no node of that id.
pub proof fn lemma_node_with(t: Tree, id: u64)
    ensures
        node_with(t, id) is Some <==> t.has_id(id),
        node_with(t, id) matches Some(found) ==> found.id() == id,
    decreases t,
{
    match t {
        Tree::Bite { .. } => {
            super::ids::lemma_bite_ids(t, id);
        },
        Tree::Spoon { first, second, .. } => {
            lemma_node_with(*first, id);
            lemma_node_with(*second, id);
            super::ids::lemma_spoon_ids(t, id);
        },
    }
}

/// A node below the root of a spoon's tree can be deleted.
pub proof fn lemma_delete_finds(t: Tree, target: u64)
    requires
        t is Spoon,
        t->first.has_id(target) || t->second.has_id(target),
    ensures
        delete_spec(t, target).1,
    decreases t,
{
    let first = *t->first;
    let second = *t->second;
    if first.id() != target && second.id() != target {
        if first.has_id(target) {
            if first is Bite {
                super::ids::lemma_bite_ids(first, target);
            } else {
                super::ids::lemma_spoon_ids(first, target);
                lemma_delete_finds(first, target);
            }
        } else {
            if second is Bite {
                super::ids::lemma_bite_ids(second, target);
            } else {
                super::ids::lemma_spoon_ids(second, target);
                lemma_delete_finds(second, target);
            }
        }
    }
}

/// Whether deleting the node of id `target` is refused, and why: a tree of
/// one bite keeps it, and the first node of that id must be a bite.
pub open spec fn delete_refusal(t: Tree, target: u64) -> Option<DeleteNodeError> {
    if t is Bite {
        Some(DeleteNodeError::LastPane)
    } else if !(node_with(t, target) matches Some(found) && found is Bite) {
        Some(DeleteNodeError::NotFound)
    } else {
        None
    }
}

/// Deletes the bite of id `target_id`: the spoon above it gives its place to
/// its other child, which keeps its id, while the spoon's id is gone. A tree
/// of a single bite keeps it (`LastPane`); an id whose first node is not a
/// bite is `NotFound`. On an error the tree stays as it was.
pub fn delete_node(root: &mut Node, target_id: u64) -> (r: Result<(), DeleteNodeError>)
    ensures
        match r {
            Ok(()) => delete_refusal(old(root)@, target_id) is None && final(root)@ == delete_spec(
                old(root)@,
                target_id,
            ).0,
            Err(e) => delete_refusal(old(root)@, target_id) == Some(e) && final(root)@ == old(
                root,
            )@,
        },
        old(root)@.bites().len() <= 1 ==> r == Err::<(), DeleteNodeError>(
            DeleteNodeError::LastPane,
        ),
{
    proof {
        lemma_bite_count(root@);
    }
    if is_bite(root) {
        return Err(DeleteNodeError::LastPane);
    }
    let is_pane = match find_node(root, target_id) {
        Some(found) => is_bite(found),
        None => false,
    };
    if !is_pane {
        return Err(DeleteNodeError::NotFound);
    }
    proof {
        lemma_node_with(root@, target_id);
        super::ids::lemma_spoon_ids(root@, target_id);
        lemma_delete_finds(root@, target_id);
    }
    let mut current_root = stand_in();
    core::mem::swap(root, &mut current_root);
    let (next_root, _) = delete_node_owned(current_root, target_id);
    *root = next_root;
    Ok(())
}

fn contains_bite(node: &Node, target_id: u64) -> (r: bool)
    ensures
        r == node@.has_bite(target_id),
{
    find_bite(node, target_id).is_some()
}

/// Moves the ratio of the innermost spoon of the given orientation that has
/// a bite of id `target_id` below it by `delta`, and clamps it. Returns
/// whether there was such a spoon.
pub fn resize_from_bite(node: &mut Node, target_id: u64, orientation: Direction, delta: i64) -> (done:
    bool)
    ensures
        final(node)@ == resize_spec(old(node)@, target_id, orientation, delta as int).0,
        done == resize_spec(old(node)@, target_id, orientation, delta as int).1,
    decreases *old(node),
{
    match node {
        Node::Bite { .. } => false,
        Node::Spoon { orientation: own, ratio, first, second, .. } => {
            proof {
                lemma_unchanged_when_not_done(first@, target_id, orientation, delta as int);
                lemma_unchanged_when_not_done(second@, target_id, orientation, delta as int);
            }
            if resize_from_bite(first, target_id, orientation, delta) {
                return true;
            }
            if resize_from_bite(second, target_id, orientation, delta) {
                return true;
            }
            if *own == orientation && (contains_bite(first, target_id) || contains_bite(
                second,
                target_id,
            )) {
                *ratio = clamp_moved(*ratio, delta);
                true
            } else {
                false
            }
        },
    }
}

/// Exchanges the two children of the first spoon of the given orientation
/// whose children are both bites, one of them of id `target_id`. Returns
/// whether there was such a spoon.
pub fn swap_adjacent_bites(node: &mut Node, target_id: u64, orientation: Direction) -> (done: bool)
    ensures
        final(node)@ == swap_spec(old(node)@, target_id, orientation).0,
        done == swap_spec(old(node)@, target_id, orientation).1,
    decreases *old(node),
{
    match node {
        Node::Bite { .. } => false,
        Node::Spoon { orientation: own, first, second, .. } => {
            if *own == orientation && is_bite(first) && is_bite(second) && (first.id() == target_id
                || second.id() == target_id) {
                core::mem::swap(first, second);
                return true;
            }
            proof {
                lemma_unchanged_when_not_done(first@, target_id, orientation, 0);
            }
            if swap_adjacent_bites(first, target_id, orientation) {
                true
            } else {
                swap_adjacent_bites(second, target_id, orientation)
            }
        },
    }
}

} // verus!
