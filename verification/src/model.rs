//! The data model: the layout tree and the template that names one.

use crate::layout::geometry::{MAX_RATIO, MIN_RATIO};
use crate::text::{blank, is_space};
use vstd::prelude::*;

verus! {

/// The axis along which a split divides its rectangle: a vertical split puts
/// its children side by side, a horizontal one stacks them.
#[derive(Debug, Clone, Copy, PartialEq, Eq, Structural)]
pub enum Direction {
    Vertical,
    Horizontal,
}

/// A node of the layout tree. A bite is a leaf: one pane, with the name shown
/// on its border and the command run in it. A spoon is a split: it divides its
/// rectangle between exactly two children, the share `ratio` (in millionths)
/// going to the first.
#[derive(Debug, PartialEq)]
pub enum Node {
    Bite { id: u64, name: String, command: String },
    Spoon { id: u64, orientation: Direction, ratio: i64, first: Box<Node>, second: Box<Node> },
}

/// The mathematical value of a [`Node`]: the same tree with its strings as
/// sequences of characters.
pub ghost enum Tree {
    Bite { id: u64, name: Seq<char>, command: Seq<char> },
    Spoon { id: u64, orientation: Direction, ratio: i64, first: Box<Tree>, second: Box<Tree> },
}

impl Tree {
    /// The id of the node itself.
    pub open spec fn id(self) -> u64 {
        match self {
            Tree::Bite { id, .. } => id,
            Tree::Spoon { id, .. } => id,
        }
    }

    /// The ids of all nodes, bites and spoons, parent before children and
    /// first child before second.
    pub open spec fn ids(self) -> Seq<u64>
        decreases self,
    {
        match self {
            Tree::Bite { id, .. } => seq![id],
            Tree::Spoon { id, first, second, .. } => seq![id] + first.ids() + second.ids(),
        }
    }

    /// The ids of the bites, first child before second: the order in which
    /// focus cycles through them.
    pub open spec fn bites(self) -> Seq<u64>
        decreases self,
    {
        match self {
            Tree::Bite { id, .. } => seq![id],
            Tree::Spoon { first, second, .. } => first.bites() + second.bites(),
        }
    }

    /// The greatest id in the tree.
    pub open spec fn max_id(self) -> u64
        decreases self,
    {
        match self {
            Tree::Bite { id, .. } => id,
            Tree::Spoon { id, first, second, .. } => {
                let below = if first.max_id() >= second.max_id() {
                    first.max_id()
                } else {
                    second.max_id()
                };
                if id >= below {
                    id
                } else {
                    below
                }
            },
        }
    }

    /// Some node of the tree, bite or spoon, has this id.
    pub open spec fn has_id(self, id: u64) -> bool {
        self.ids().contains(id)
    }

    /// Some bite of the tree has this id.
    pub open spec fn has_bite(self, id: u64) -> bool {
        self.bites().contains(id)
    }

    /// Every spoon's ratio lies in `[MIN_RATIO, MAX_RATIO]`, and no bite has a
    /// blank name or a blank command.
    pub open spec fn well_formed(self) -> bool
        decreases self,
    {
        match self {
            Tree::Bite { name, command, .. } => !blank(name) && !blank(command),
            Tree::Spoon { ratio, first, second, .. } => {
                &&& MIN_RATIO <= ratio <= MAX_RATIO
                &&& first.well_formed()
                &&& second.well_formed()
            },
        }
    }

    /// The invariant of a layout tree: no id occurs twice, and every node is
    /// well formed.
    pub open spec fn valid(self) -> bool {
        self.ids().no_duplicates() && self.well_formed()
    }
}

impl Node {
    /// The tree this node is the root of, as a mathematical value.
    pub open spec fn tree(&self) -> Tree
        decreases self,
    {
        match self {
            Node::Bite { id, name, command } => Tree::Bite {
                id: *id,
                name: name@,
                command: command@,
            },
            Node::Spoon { id, orientation, ratio, first, second } => Tree::Spoon {
                id: *id,
                orientation: *orientation,
                ratio: *ratio,
                first: Box::new(first.tree()),
                second: Box::new(second.tree()),
            },
        }
    }

    /// The id of the node itself.
    pub fn id(&self) -> (id: u64)
        ensures
            id == self@.id(),
    {
        match self {
            Node::Bite { id, .. } => *id,
            Node::Spoon { id, .. } => *id,
        }
    }
}

impl View for Node {
    type V = Tree;

    open spec fn view(&self) -> Tree {
        self.tree()
    }
}

impl Clone for Node {
    fn clone(&self) -> (copy: Self)
        ensures
            copy@ == self@,
        decreases self,
    {
        match self {
            Node::Bite { id, name, command } => Node::Bite {
                id: *id,
                name: name.clone(),
                command: command.clone(),
            },
            Node::Spoon { id, orientation, ratio, first, second } => Node::Spoon {
                id: *id,
                orientation: *orientation,
                ratio: *ratio,
                first: Box::new((&**first).clone()),
                second: Box::new((&**second).clone()),
            },
        }
    }
}

/// A named layout tree.
#[derive(Debug, PartialEq)]
pub struct Template {
    pub name: String,
    pub root: Node,
}

/// The mathematical value of a [`Template`].
pub ghost struct TemplateView {
    pub name: Seq<char>,
    pub root: Tree,
}

impl View for Template {
    type V = TemplateView;

    open spec fn view(&self) -> TemplateView {
        TemplateView { name: self.name@, root: self.root@ }
    }
}

impl Clone for Template {
    fn clone(&self) -> (copy: Self)
        ensures
            copy@ == self@,
    {
        Template { name: self.name.clone(), root: self.root.clone() }
    }
}

/// The tree every new template starts from: one bite with id 1, named
/// `main`, that runs `command`.
pub open spec fn single_bite(command: Seq<char>) -> Tree {
    Tree::Bite { id: 1, name: "main"@, command }
}

impl Template {
    /// A template of the given name that holds one bite running `command`.
    pub fn single(name: &str, command: &str) -> (template: Template)
        ensures
            template@ == (TemplateView { name: name@, root: single_bite(command@) }),
            !blank(command@) ==> template@.root.valid(),
    {
        proof {
            if !blank(command@) {
                lemma_single_bite_valid(command@);
            }
        }
        Template {
            name: name.to_owned(),
            root: Node::Bite { id: 1, name: "main".to_owned(), command: command.to_owned() },
        }
    }

    /// A template of the given name that holds one bite running `bash`.
    pub fn default_with_name(name: &str) -> (template: Template)
        ensures
            template@ == (TemplateView { name: name@, root: single_bite("bash"@) }),
            template@.root.valid(),
    {
        proof {
            reveal_strlit("bash");
            assert(!is_space("bash"@[0]));
        }
        Template::single(name, "bash")
    }
}

/// The template named `default`: one bite running `bash`.
pub fn default_template() -> (template: Template)
    ensures
        template@ == (TemplateView { name: "default"@, root: single_bite("bash"@) }),
        template@.root.valid(),
{
    Template::default_with_name("default")
}

/// A single bite with a command that is not blank is a valid tree.
pub proof fn lemma_single_bite_valid(command: Seq<char>)
    requires
        !blank(command),
    ensures
        single_bite(command).valid(),
{
    reveal_strlit("main");
    assert(!is_space("main"@[0]));
}

} // verus!
