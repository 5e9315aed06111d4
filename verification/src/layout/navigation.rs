//! Walking the layout tree: its nodes, its bites, and the rectangle of each bite.

use super::geometry::{lemma_split_rect_partition, split_rect, split_rect_spec, Rect};
use crate::model::{Node, Tree};
use vstd::prelude::*;

verus! {

/// All nodes of the tree, parent before children and first child before
/// second.
pub open spec fn nodes(t: Tree) -> Seq<Tree>
    decreases t,
{
    match t {
        Tree::Bite { .. } => seq![t],
        Tree::Spoon { first, second, .. } => seq![t] + nodes(*first) + nodes(*second),
    }
}

/// Each bite's id with the rectangle it gets when the tree is laid out in
/// `rect`, first child before second.
pub open spec fn rects(t: Tree, rect: Rect) -> Seq<(u64, Rect)>
    decreases t,
{
    match t {
        Tree::Bite { id, .. } => seq![(id, rect)],
        Tree::Spoon { orientation, ratio, first, second, .. } => {
            let halves = split_rect_spec(rect, orientation, ratio as int);
            rects(*first, halves.0) + rects(*second, halves.1)
        },
    }
}

/// Some rectangle of `placed` holds the cell `(x, y)`.
pub open spec fn covers(placed: Seq<(u64, Rect)>, x: int, y: int) -> bool {
    exists|i: int| 0 <= i < placed.len() && (#[trigger] placed[i]).1.contains(x, y)
}

/// No two rectangles of `placed` hold the cell `(x, y)`.
pub open spec fn apart_at(placed: Seq<(u64, Rect)>, x: int, y: int) -> bool {
    forall|i: int, j: int|
        0 <= i < j < placed.len() ==> !((#[trigger] placed[i]).1.contains(x, y) && (
        #[trigger] placed[j]).1.contains(x, y))
}

/// A layout has one rectangle for each bite, in the order of the bites.
pub proof fn lemma_rects_follow_bites(t: Tree, rect: Rect)
    ensures
        rects(t, rect).len() == t.bites().len(),
        forall|i: int| 0 <= i < t.bites().len() ==> (#[trigger] rects(t, rect)[i]).0 == t.bites()[i],
    decreases t,
{
    match t {
        Tree::Bite { .. } => {},
        Tree::Spoon { orientation, ratio, first, second, .. } => {
            let halves = split_rect_spec(rect, orientation, ratio as int);
            lemma_rects_follow_bites(*first, halves.0);
            lemma_rects_follow_bites(*second, halves.1);
        },
    }
}

/// For one cell: the rectangles of a layout in a rectangle on the screen
/// hold the cell exactly when the rectangle does, and no two of them hold it.
pub proof fn lemma_rects_partition_at(t: Tree, rect: Rect, x: int, y: int)
    requires
        rect.on_screen(),
    ensures
        covers(rects(t, rect), x, y) <==> rect.contains(x, y),
        apart_at(rects(t, rect), x, y),
    decreases t,
{
    match t {
        Tree::Bite { id, .. } => {
            let placed = rects(t, rect);
            assert(placed[0] == (id, rect));
        },
        Tree::Spoon { orientation, ratio, first, second, .. } => {
            let halves = split_rect_spec(rect, orientation, ratio as int);
            lemma_split_rect_partition(rect, orientation, ratio as int, x, y);
            lemma_rects_partition_at(*first, halves.0, x, y);
            lemma_rects_partition_at(*second, halves.1, x, y);
            let a = rects(*first, halves.0);
            let b = rects(*second, halves.1);
            let placed = rects(t, rect);
            assert(placed == a + b);
            if covers(a, x, y) {
                let i = choose|i: int| 0 <= i < a.len() && (#[trigger] a[i]).1.contains(x, y);
                assert(placed[i] == a[i]);
            }
            if covers(b, x, y) {
                let i = choose|i: int| 0 <= i < b.len() && (#[trigger] b[i]).1.contains(x, y);
                assert(placed[a.len() + i] == b[i]);
            }
            if covers(placed, x, y) {
                let i = choose|i: int|
                    0 <= i < placed.len() && (#[trigger] placed[i]).1.contains(x, y);
                if i < a.len() {
                    assert(a[i] == placed[i]);
                } else {
                    assert(b[i - a.len()] == placed[i]);
                }
            }
            assert forall|i: int, j: int| 0 <= i < j < placed.len() implies !((
            #[trigger] placed[i]).1.contains(x, y) && (#[trigger] placed[j]).1.contains(x, y)) by {
                if placed[i].1.contains(x, y) && placed[j].1.contains(x, y) {
                    if j < a.len() {
                        assert(a[i] == placed[i] && a[j] == placed[j]);
                    } else if i >= a.len() {
                        assert(b[i - a.len()] == placed[i] && b[j - a.len()] == placed[j]);
                    } else {
                        assert(a[i] == placed[i] && b[j - a.len()] == placed[j]);
                    }
                }
            }
        },
    }
}

/// The rectangles of a layout tile the rectangle it is laid out in: a cell
/// lies in one of them exactly when it lies in that rectangle, and no cell
/// lies in two of them. A child that an axis of one cell or none leaves
/// empty holds no cell, so this holds of such layouts too.
pub proof fn lemma_rects_partition(t: Tree, rect: Rect)
    requires
        rect.on_screen(),
    ensures
        forall|x: int, y: int| #[trigger] covers(rects(t, rect), x, y) <==> rect.contains(x, y),
        forall|x: int, y: int| #[trigger] apart_at(rects(t, rect), x, y),
{
    assert forall|x: int, y: int| #[trigger]
        covers(rects(t, rect), x, y) <==> rect.contains(x, y) by {
        lemma_rects_partition_at(t, rect, x, y);
    }
    assert forall|x: int, y: int| #[trigger] apart_at(rects(t, rect), x, y) by {
        lemma_rects_partition_at(t, rect, x, y);
    }
}

/// The values of the nodes that `refs` points to.
pub open spec fn views_of(refs: Seq<&Node>) -> Seq<Tree> {
    Seq::new(refs.len(), |i: int| refs[i]@)
}

/// Visits every node of the tree in pre-order, appending each to `out`.
pub fn walk<'a>(node: &'a Node, out: &mut Vec<&'a Node>)
    ensures
        views_of(final(out)@) == views_of(old(out)@) + nodes(node@),
    decreases node,
{
    out.push(node);
    assert(views_of(out@) == views_of(old(out)@) + seq![node@]);
    match node {
        Node::Bite { .. } => {},
        Node::Spoon { first, second, .. } => {
            walk(first, out);
            walk(second, out);
            assert(views_of(out@) == views_of(old(out)@) + (seq![node@] + nodes(first@) + nodes(
                second@,
            )));
        },
    }
}

/// Every tree has a bite, and a spoon's tree has two.
pub proof fn lemma_bite_count(t: Tree)
    ensures
        t.bites().len() >= 1,
        t is Spoon <==> t.bites().len() >= 2,
    decreases t,
{
    match t {
        Tree::Bite { .. } => {},
        Tree::Spoon { first, second, .. } => {
            lemma_bite_count(*first);
            lemma_bite_count(*second);
        },
    }
}

/// The first bite in focus order.
pub fn first_bite(node: &Node) -> (id: u64)
    ensures
        id == node@.bites()[0],
        node@.has_bite(id),
    decreases node,
{
    proof {
        lemma_bite_count(node@);
        assert(node@.bites().contains(node@.bites()[0]));
    }
    match node {
        Node::Bite { id, .. } => *id,
        Node::Spoon { first, .. } => {
            proof {
                lemma_bite_count(first@);
            }
            first_bite(first)
        },
    }
}

/// Appends the ids of the bites to `out`, in focus order.
pub fn collect_bites(node: &Node, out: &mut Vec<u64>)
    ensures
        final(out)@ == old(out)@ + node@.bites(),
    decreases node,
{
    match node {
        Node::Bite { id, .. } => {
            out.push(*id);
        },
        Node::Spoon { first, second, .. } => {
            collect_bites(first, out);
            collect_bites(second, out);
        },
    }
}

/// Lays the tree out in `rect` and appends each bite's id and rectangle to
/// `out`, first child before second.
pub fn layout_rects(node: &Node, rect: Rect, out: &mut Vec<(u64, Rect)>)
    ensures
        final(out)@ == old(out)@ + rects(node@, rect),
    decreases node,
{
    match node {
        Node::Bite { id, .. } => {
            out.push((*id, rect));
        },
        Node::Spoon { orientation, ratio, first, second, .. } => {
            let (r1, r2) = split_rect(rect, *orientation, *ratio);
            layout_rects(first, r1, out);
            layout_rects(second, r2, out);
        },
    }
}

} // verus!
