//! What the program is asked to do after a key, and the plans for it: which
//! children to start and what size each pane's terminal has.

use super::pane_process::{pane_size, pane_size_spec};
use crate::layout::geometry::Rect;
use crate::layout::navigation::{lemma_rects_follow_bites, layout_rects, rects};
use crate::layout::search::{bite_with, find_bite, lemma_bite_with};
use crate::model::{Node, Tree};
use vstd::prelude::*;

verus! {

/// How far one resize moves a ratio: a fifth.
pub const RESIZE_STEP_RATIO: i64 = 200_000;

/// The ratio of a split made while running: one half.
pub const SPLIT_RATIO: i64 = 500_000;

/// The size of the terminal of one pane.
#[derive(Debug, Clone, Copy, PartialEq, Eq, Structural)]
pub struct PaneSize {
    pub id: u64,
    pub rows: u16,
    pub cols: u16,
}

/// A child to start: the bite it belongs to, its command, and the size of
/// its terminal.
#[derive(Debug, Clone, PartialEq, Eq)]
pub struct SpawnRequest {
    pub id: u64,
    pub command: String,
    pub rows: u16,
    pub cols: u16,
}

/// The mathematical value of a [`SpawnRequest`].
pub ghost struct SpawnView {
    pub id: u64,
    pub command: Seq<char>,
    pub rows: u16,
    pub cols: u16,
}

impl View for SpawnRequest {
    type V = SpawnView;

    open spec fn view(&self) -> SpawnView {
        SpawnView { id: self.id, command: self.command@, rows: self.rows, cols: self.cols }
    }
}

/// What the program has to do after the state took a key or a report.
#[derive(Debug, Clone, PartialEq, Eq)]
pub enum Effect {
    /// Nothing but to draw again.
    Nothing,
    /// Leave the loop.
    Quit,
    /// Write the bytes to the child of pane `id`, if it has one.
    Write { id: u64, bytes: Vec<u8> },
    /// Start the child of a new pane, and report how it went.
    Spawn(SpawnRequest),
    /// Give each pane that has a child the size listed for it.
    Resize(Vec<PaneSize>),
    /// Write the template as the state `name`, and report how it went.
    SaveState { name: String },
    /// Read the state `name`, and report what was read.
    LoadState { name: String },
}

/// The mathematical value of an [`Effect`].
pub ghost enum EffectView {
    Nothing,
    Quit,
    Write { id: u64, bytes: Seq<u8> },
    Spawn(SpawnView),
    Resize(Seq<PaneSize>),
    SaveState { name: Seq<char> },
    LoadState { name: Seq<char> },
}

impl View for Effect {
    type V = EffectView;

    open spec fn view(&self) -> EffectView {
        match self {
            Effect::Nothing => EffectView::Nothing,
            Effect::Quit => EffectView::Quit,
            Effect::Write { id, bytes } => EffectView::Write { id: *id, bytes: bytes@ },
            Effect::Spawn(request) => EffectView::Spawn(request@),
            Effect::Resize(sizes) => EffectView::Resize(sizes@),
            Effect::SaveState { name } => EffectView::SaveState { name: name@ },
            Effect::LoadState { name } => EffectView::LoadState { name: name@ },
        }
    }
}

/// The size of the terminal of the pane of bite `id` drawn in `rect`.
pub open spec fn size_in(id: u64, rect: Rect) -> PaneSize {
    PaneSize { id, rows: pane_size_spec(rect).0, cols: pane_size_spec(rect).1 }
}

/// The size of each pane's terminal when the tree is laid out in `main`, in
/// the order of the bites.
pub open spec fn sizes(t: Tree, main: Rect) -> Seq<PaneSize> {
    Seq::new(rects(t, main).len(), |i: int| size_in(rects(t, main)[i].0, rects(t, main)[i].1))
}

/// The command of the first bite of the given id; nothing where the tree
/// has no such bite.
pub open spec fn command_of(t: Tree, id: u64) -> Seq<char> {
    match bite_with(t, id) {
        Some(Tree::Bite { command, .. }) => command,
        _ => Seq::empty(),
    }
}

/// The child to start for the bite `id` drawn in `rect`.
pub open spec fn request_for(t: Tree, id: u64, rect: Rect) -> SpawnView {
    SpawnView {
        id,
        command: command_of(t, id),
        rows: pane_size_spec(rect).0,
        cols: pane_size_spec(rect).1,
    }
}

/// The children to start for a tree laid out in `main`: one for each bite,
/// in the order of the bites.
pub open spec fn spawn_plan_spec(t: Tree, main: Rect) -> Seq<SpawnView> {
    Seq::new(
        rects(t, main).len(),
        |i: int| request_for(t, rects(t, main)[i].0, rects(t, main)[i].1),
    )
}

/// The rectangle listed first for `id`.
pub open spec fn rect_of(placed: Seq<(u64, Rect)>, id: u64) -> Option<Rect>
    decreases placed.len(),
{
    if placed.len() == 0 {
        None
    } else if placed[0].0 == id {
        Some(placed[0].1)
    } else {
        rect_of(placed.drop_first(), id)
    }
}

/// Every bite of a tree has a rectangle in its layout.
pub proof fn lemma_bite_has_rect(t: Tree, main: Rect, id: u64)
    requires
        t.has_bite(id),
    ensures
        rect_of(rects(t, main), id) is Some,
{
    lemma_rects_follow_bites(t, main);
    let at = choose|i: int| 0 <= i < t.bites().len() && t.bites()[i] == id;
    lemma_listed_is_found(rects(t, main), id, at);
}

proof fn lemma_listed_is_found(placed: Seq<(u64, Rect)>, id: u64, at: int)
    requires
        0 <= at < placed.len(),
        placed[at].0 == id,
    ensures
        rect_of(placed, id) is Some,
    decreases placed.len(),
{
    if placed[0].0 != id {
        lemma_listed_is_found(placed.drop_first(), id, at - 1);
    }
}

/// The views of a list of requests.
pub open spec fn requests_view(requests: Seq<SpawnRequest>) -> Seq<SpawnView> {
    Seq::new(requests.len(), |i: int| requests[i]@)
}

/// The rectangle listed first for `id`.
pub fn find_rect(placed: &Vec<(u64, Rect)>, id: u64) -> (found: Option<Rect>)
    ensures
        found == rect_of(placed@, id),
{
    let mut i: usize = 0;
    proof {
        assert(placed@.skip(0) == placed@);
    }
    while i < placed.len()
        invariant
            i <= placed.len(),
            rect_of(placed@, id) == rect_of(placed@.skip(i as int), id),
        decreases placed.len() - i,
    {
        proof {
            assert(placed@.skip(i as int)[0] == placed@[i as int]);
            assert(placed@.skip(i as int).drop_first() == placed@.skip(i + 1));
        }
        if placed[i].0 == id {
            return Some(placed[i].1);
        }
        i += 1;
    }
    None
}

/// The size of each pane's terminal when the tree is laid out in `main`.
pub fn resize_plan(root: &Node, main: Rect) -> (plan: Vec<PaneSize>)
    ensures
        plan@ == sizes(root@, main),
{
    let mut placed: Vec<(u64, Rect)> = Vec::new();
    layout_rects(root, main, &mut placed);
    assert(placed@ == rects(root@, main));
    let mut plan: Vec<PaneSize> = Vec::new();
    let mut i: usize = 0;
    while i < placed.len()
        invariant
            i <= placed.len(),
            placed@ == rects(root@, main),
            plan@ == sizes(root@, main).take(i as int),
        decreases placed.len() - i,
    {
        let (id, rect) = placed[i];
        let (rows, cols) = pane_size(rect);
        plan.push(PaneSize { id, rows, cols });
        assert(plan@ =~= sizes(root@, main).take(i + 1));
        i += 1;
    }
    assert(sizes(root@, main).take(placed.len() as int) == sizes(root@, main));
    plan
}

/// The command of the first bite of the given id.
pub fn bite_command(root: &Node, id: u64) -> (command: Option<String>)
    ensures
        match command {
            Some(c) => bite_with(root@, id) is Some && c@ == command_of(root@, id),
            None => bite_with(root@, id) is None,
        },
{
    proof {
        lemma_bite_with(root@, id);
    }
    match find_bite(root, id) {
        Some(Node::Bite { command, .. }) => Some(command.clone()),
        _ => None,
    }
}

/// The children to start for a tree laid out in `main`: one for each bite,
/// running the bite's command in a terminal the size of its pane.
pub fn spawn_plan(root: &Node, main: Rect) -> (plan: Vec<SpawnRequest>)
    ensures
        requests_view(plan@) == spawn_plan_spec(root@, main),
{
    let mut placed: Vec<(u64, Rect)> = Vec::new();
    layout_rects(root, main, &mut placed);
    assert(placed@ == rects(root@, main));
    let mut plan: Vec<SpawnRequest> = Vec::new();
    let mut i: usize = 0;
    while i < placed.len()
        invariant
            i <= placed.len(),
            placed@ == rects(root@, main),
            requests_view(plan@) == spawn_plan_spec(root@, main).take(i as int),
        decreases placed.len() - i,
    {
        let (id, rect) = placed[i];
        let (rows, cols) = pane_size(rect);
        proof {
            lemma_rects_follow_bites(root@, main);
            assert(root@.bites()[i as int] == id);
            lemma_bite_with(root@, id);
        }
        match bite_command(root, id) {
            Some(command) => {
                let request = SpawnRequest { id, command, rows, cols };
                proof {
                    assert(requests_view(plan@.push(request)) =~= requests_view(plan@).push(
                        request@,
                    ));
                    assert(requests_view(plan@).push(request@) =~= spawn_plan_spec(
                        root@,
                        main,
                    ).take(i + 1));
                }
                plan.push(request);
            },
            None => {},
        }
        i += 1;
    }
    assert(spawn_plan_spec(root@, main).take(placed.len() as int) == spawn_plan_spec(root@, main));
    plan
}

} // verus!
