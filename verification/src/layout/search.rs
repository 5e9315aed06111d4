//! Finding a node by its id, and a bite by a cell of the screen.

use super::geometry::{
    lemma_split_rect_partition, point_in_rect, split_rect, split_rect_spec, Rect,
};
use super::navigation::rects;
use crate::model::{Node, Tree};
use vstd::prelude::*;

verus! {

/// The first bite with the given id, first child before second.
pub open spec fn bite_with(t: Tree, id: u64) -> Option<Tree>
    decreases t,
{
    match t {
        Tree::Bite { id: own, .. } => if own == id {
            Some(t)
        } else {
            None
        },
        Tree::Spoon { first, second, .. } => match bite_with(*first, id) {
            Some(found) => Some(found),
            None => bite_with(*second, id),
        },
    }
}

/// The first node with the given id, bite or spoon, parent before children
/// and first child before second.
pub open spec fn node_with(t: Tree, id: u64) -> Option<Tree>
    decreases t,
{
    if t.id() == id {
        Some(t)
    } else {
        match t {
            Tree::Bite { .. } => None,
            Tree::Spoon { first, second, .. } => match node_with(*first, id) {
                Some(found) => Some(found),
                None => node_with(*second, id),
            },
        }
    }
}

/// The tree with its first bite of the given id replaced by `with`; the tree
/// itself where it has no such bite.
pub open spec fn with_bite(t: Tree, id: u64, with: Tree) -> Tree
    decreases t,
{
    match t {
        Tree::Bite { id: own, .. } => if own == id {
            with
        } else {
            t
        },
        Tree::Spoon { id: own, orientation, ratio, first, second } => {
            if bite_with(*first, id) is Some {
                Tree::Spoon {
                    id: own,
                    orientation,
                    ratio,
                    first: Box::new(with_bite(*first, id, with)),
                    second,
                }
            } else {
                Tree::Spoon {
                    id: own,
                    orientation,
                    ratio,
                    first,
                    second: Box::new(with_bite(*second, id, with)),
                }
            }
        },
    }
}

/// The tree with its first node of the given id replaced by `with`; the
/// tree itself where it has no such node.
pub open spec fn with_node(t: Tree, id: u64, with: Tree) -> Tree
    decreases t,
{
    if t.id() == id {
        with
    } else {
        match t {
            Tree::Bite { .. } => t,
            Tree::Spoon { id: own, orientation, ratio, first, second } => {
                if node_with(*first, id) is Some {
                    Tree::Spoon {
                        id: own,
                        orientation,
                        ratio,
                        first: Box::new(with_node(*first, id, with)),
                        second,
                    }
                } else {
                    Tree::Spoon {
                        id: own,
                        orientation,
                        ratio,
                        first,
                        second: Box::new(with_node(*second, id, with)),
                    }
                }
            },
        }
    }
}

/// The bite under the cell `(x, y)` when the tree is laid out in `rect`: at
/// each spoon the search goes into the child whose rectangle holds the cell.
/// A tree that is one bite answers with it wherever the cell lies.
pub open spec fn bite_at(t: Tree, rect: Rect, x: int, y: int) -> Option<u64>
    decreases t,
{
    match t {
        Tree::Bite { id, .. } => Some(id),
        Tree::Spoon { orientation, ratio, first, second, .. } => {
            let halves = split_rect_spec(rect, orientation, ratio as int);
            if halves.0.contains(x, y) {
                bite_at(*first, halves.0, x, y)
            } else if halves.1.contains(x, y) {
                bite_at(*second, halves.1, x, y)
            } else {
                None
            }
        },
    }
}

/// A bite is found by its id exactly when the tree has a bite of that id, and
/// what is found is a bite of that id.
pub proof fn lemma_bite_with(t: Tree, id: u64)
    ensures
        bite_with(t, id) is Some <==> t.has_bite(id),
        bite_with(t, id) matches Some(found) ==> found is Bite && found.id() == id,
    decreases t,
{
    match t {
        Tree::Bite { id: own, .. } => {
            assert(t.bites() =~= seq![own]);
            assert(t.bites()[0] == own);
        },
        Tree::Spoon { first, second, .. } => {
            lemma_bite_with(*first, id);
            lemma_bite_with(*second, id);
            let a = first.bites();
            let b = second.bites();
            assert(t.bites() == a + b);
            if a.contains(id) {
                let i = choose|i: int| 0 <= i < a.len() && a[i] == id;
                assert((a + b)[i] == id);
            }
            if b.contains(id) {
                let i = choose|i: int| 0 <= i < b.len() && b[i] == id;
                assert((a + b)[a.len() + i] == id);
            }
            if (a + b).contains(id) {
                let i = choose|i: int| 0 <= i < (a + b).len() && (a + b)[i] == id;
                if i < a.len() {
                    assert(a[i] == id);
                } else {
                    assert(b[i - a.len()] == id);
                }
            }
        },
    }
}

/// What the search by cell finds is a bite of the tree, never a spoon.
pub proof fn lemma_bite_at_is_bite(t: Tree, rect: Rect, x: int, y: int)
    ensures
        bite_at(t, rect, x, y) matches Some(id) ==> t.has_bite(id),
    decreases t,
{
    match t {
        Tree::Bite { id, .. } => {
            assert(t.bites()[0] == id);
        },
        Tree::Spoon { orientation, ratio, first, second, .. } => {
            let halves = split_rect_spec(rect, orientation, ratio as int);
            lemma_bite_at_is_bite(*first, halves.0, x, y);
            lemma_bite_at_is_bite(*second, halves.1, x, y);
            if bite_at(t, rect, x, y) is Some {
                let id = bite_at(t, rect, x, y)->0;
                lemma_bite_with(t, id);
                lemma_bite_with(*first, id);
                lemma_bite_with(*second, id);
            }
        },
    }
}

/// For a cell inside a rectangle on the screen, the search by cell finds a
/// bite, and the rectangle that the layout gives that bite holds the cell.
pub proof fn lemma_bite_at_matches_rects(t: Tree, rect: Rect, x: int, y: int)
    requires
        rect.on_screen(),
        rect.contains(x, y),
    ensures
        bite_at(t, rect, x, y) is Some,
        exists|i: int|
            0 <= i < rects(t, rect).len() && (#[trigger] rects(t, rect)[i]).0 == bite_at(
                t,
                rect,
                x,
                y,
            )->0 && rects(t, rect)[i].1.contains(x, y),
    decreases t,
{
    match t {
        Tree::Bite { id, .. } => {
            assert(rects(t, rect)[0] == (id, rect));
        },
        Tree::Spoon { orientation, ratio, first, second, .. } => {
            let halves = split_rect_spec(rect, orientation, ratio as int);
            lemma_split_rect_partition(rect, orientation, ratio as int, x, y);
            let a = rects(*first, halves.0);
            let b = rects(*second, halves.1);
            let placed = rects(t, rect);
            assert(placed == a + b);
            if halves.0.contains(x, y) {
                lemma_bite_at_matches_rects(*first, halves.0, x, y);
                let id = bite_at(*first, halves.0, x, y)->0;
                let i = choose|i: int|
                    0 <= i < a.len() && (#[trigger] a[i]).0 == id && a[i].1.contains(x, y);
                assert(placed[i] == a[i]);
            } else {
                lemma_bite_at_matches_rects(*second, halves.1, x, y);
                let id = bite_at(*second, halves.1, x, y)->0;
                let i = choose|i: int|
                    0 <= i < b.len() && (#[trigger] b[i]).0 == id && b[i].1.contains(x, y);
                assert(placed[a.len() + i] == b[i]);
            }
        },
    }
}

/// The first bite with the given id, if the tree has one.
pub fn find_bite(node: &Node, target_id: u64) -> (found: Option<&Node>)
    ensures
        match found {
            Some(bite) => bite_with(node@, target_id) == Some(bite@),
            None => bite_with(node@, target_id) is None,
        },
        found is Some <==> node@.has_bite(target_id),
    decreases node,
{
    proof {
        lemma_bite_with(node@, target_id);
    }
    match node {
        Node::Bite { id, .. } => {
            if *id == target_id {
                Some(node)
            } else {
                None
            }
        },
        Node::Spoon { first, second, .. } => {
            match find_bite(first, target_id) {
                Some(found) => Some(found),
                None => find_bite(second, target_id),
            }
        },
    }
}

/// The first node with the given id, bite or spoon, if the tree has one.
pub fn find_node(node: &Node, target_id: u64) -> (found: Option<&Node>)
    ensures
        match found {
            Some(hit) => node_with(node@, target_id) == Some(hit@),
            None => node_with(node@, target_id) is None,
        },
    decreases node,
{
    if node.id() == target_id {
        return Some(node);
    }
    match node {
        Node::Bite { .. } => None,
        Node::Spoon { first, second, .. } => {
            match find_node(first, target_id) {
                Some(found) => Some(found),
                None => find_node(second, target_id),
            }
        },
    }
}

/// The first bite with the given id, to be changed in place. Whatever the
/// caller leaves in the returned place takes the bite's place in the tree.
pub fn find_bite_mut(node: &mut Node, target_id: u64) -> (found: Option<&mut Node>)
    ensures
        match found {
            Some(bite) => {
                &&& bite_with(old(node)@, target_id) == Some(bite@)
                &&& final(node)@ == with_bite(old(node)@, target_id, final(bite)@)
            },
            None => bite_with(old(node)@, target_id) is None && final(node)@ == old(node)@,
        },
    decreases *old(node),
{
    match node {
        Node::Bite { id, .. } => {
            if *id == target_id {
                Some(node)
            } else {
                None
            }
        },
        Node::Spoon { first, second, .. } => {
            match find_bite_mut(first, target_id) {
                Some(found) => Some(found),
                None => find_bite_mut(second, target_id),
            }
        },
    }
}

/// The first node with the given id, bite or spoon, to be changed in place.
/// Whatever the caller leaves in the returned place takes the node's place
/// in the tree.
pub fn find_node_mut(node: &mut Node, target_id: u64) -> (found: Option<&mut Node>)
    ensures
        match found {
            Some(hit) => {
                &&& node_with(old(node)@, target_id) == Some(hit@)
                &&& final(node)@ == with_node(old(node)@, target_id, final(hit)@)
            },
            None => node_with(old(node)@, target_id) is None && final(node)@ == old(node)@,
        },
    decreases *old(node),
{
    if node.id() == target_id {
        return Some(node);
    }
    match node {
        Node::Bite { .. } => None,
        Node::Spoon { first, second, .. } => {
            match find_node_mut(first, target_id) {
                Some(found) => Some(found),
                None => find_node_mut(second, target_id),
            }
        },
    }
}

/// The bite under the cell `(x, y)` when the tree is laid out in `rect`.
pub fn find_bite_at(node: &Node, rect: Rect, x: u16, y: u16) -> (found: Option<u64>)
    ensures
        found == bite_at(node@, rect, x as int, y as int),
    decreases node,
{
    match node {
        Node::Bite { id, .. } => Some(*id),
        Node::Spoon { orientation, ratio, first, second, .. } => {
            let (r1, r2) = split_rect(rect, *orientation, *ratio);
            if point_in_rect(r1, x, y) {
                find_bite_at(first, r1, x, y)
            } else if point_in_rect(r2, x, y) {
                find_bite_at(second, r2, x, y)
            } else {
                None
            }
        },
    }
}

/// The bite under the cell `(x, y)`, or nothing where the cell lies outside
/// `rect`.
pub fn find_pane_at(node: &Node, rect: Rect, x: u16, y: u16) -> (found: Option<u64>)
    ensures
        found == if rect.contains(x as int, y as int) {
            bite_at(node@, rect, x as int, y as int)
        } else {
            None
        },
{
    if !point_in_rect(rect, x, y) {
        return None;
    }
    find_bite_at(node, rect, x, y)
}

} // verus!
