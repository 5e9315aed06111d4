//! Facts about the ids of a tree, on which the laws of the operations rest.

use crate::model::Tree;
use vstd::prelude::*;

verus! {

/// Membership in three sequences joined is membership in one of them.
pub proof fn lemma_contains_joined(a: Seq<u64>, b: Seq<u64>, c: Seq<u64>, x: u64)
    ensures
        (a + b + c).contains(x) <==> (a.contains(x) || b.contains(x) || c.contains(x)),
{
    let all = a + b + c;
    if a.contains(x) {
        let i = choose|i: int| 0 <= i < a.len() && a[i] == x;
        assert(all[i] == x);
    }
    if b.contains(x) {
        let i = choose|i: int| 0 <= i < b.len() && b[i] == x;
        assert(all[a.len() + i] == x);
    }
    if c.contains(x) {
        let i = choose|i: int| 0 <= i < c.len() && c[i] == x;
        assert(all[a.len() + b.len() + i] == x);
    }
    if all.contains(x) {
        let i = choose|i: int| 0 <= i < all.len() && all[i] == x;
        if i < a.len() {
            assert(a[i] == x);
        } else if i < a.len() + b.len() {
            assert(b[i - a.len()] == x);
        } else {
            assert(c[i - a.len() - b.len()] == x);
        }
    }
}

/// Two sequences joined hold no value twice exactly when neither does and
/// they share no value.
pub proof fn lemma_no_duplicates_joined(a: Seq<u64>, b: Seq<u64>)
    ensures
        (a + b).no_duplicates() <==> (a.no_duplicates() && b.no_duplicates() && forall|x: u64|
            !(a.contains(x) && b.contains(x))),
{
    let all = a + b;
    if all.no_duplicates() {
        assert forall|i: int, j: int| 0 <= i < a.len() && 0 <= j < a.len() && i != j implies a[i]
            != a[j] by {
            assert(all[i] == a[i] && all[j] == a[j]);
        }
        assert forall|i: int, j: int| 0 <= i < b.len() && 0 <= j < b.len() && i != j implies b[i]
            != b[j] by {
            assert(all[a.len() + i] == b[i] && all[a.len() + j] == b[j]);
        }
        assert forall|x: u64| !(a.contains(x) && b.contains(x)) by {
            if a.contains(x) && b.contains(x) {
                let i = choose|i: int| 0 <= i < a.len() && a[i] == x;
                let j = choose|j: int| 0 <= j < b.len() && b[j] == x;
                assert(all[i] == x && all[a.len() + j] == x);
            }
        }
    }
    if a.no_duplicates() && b.no_duplicates() && forall|x: u64| !(a.contains(x) && b.contains(x)) {
        assert forall|i: int, j: int| 0 <= i < all.len() && 0 <= j < all.len() && i != j implies all[i]
            != all[j] by {
            if i < a.len() && j >= a.len() {
                assert(a.contains(a[i]) && b.contains(b[j - a.len()]));
            }
            if j < a.len() && i >= a.len() {
                assert(a.contains(a[j]) && b.contains(b[i - a.len()]));
            }
        }
    }
}

/// The ids of a spoon's tree are its own id and those of its two children.
pub proof fn lemma_spoon_ids(t: Tree, x: u64)
    requires
        t is Spoon,
    ensures
        t.has_id(x) <==> (x == t.id() || t->first.has_id(x) || t->second.has_id(x)),
{
    lemma_contains_joined(seq![t.id()], t->first.ids(), t->second.ids(), x);
    assert(seq![t.id()].contains(x) <==> x == t.id()) by {
        assert(seq![t.id()][0] == t.id());
    }
}

/// A bite's tree has one id, its own.
pub proof fn lemma_bite_ids(t: Tree, x: u64)
    requires
        t is Bite,
    ensures
        t.has_id(x) <==> x == t.id(),
        t.ids().no_duplicates(),
{
    assert(t.ids()[0] == t.id());
}

/// No id occurs twice in a spoon's tree exactly when none occurs twice in
/// either child, the children share none, and neither holds the spoon's own.
pub proof fn lemma_spoon_distinct(t: Tree)
    requires
        t is Spoon,
    ensures
        t.ids().no_duplicates() <==> {
            &&& t->first.ids().no_duplicates()
            &&& t->second.ids().no_duplicates()
            &&& !t->first.has_id(t.id())
            &&& !t->second.has_id(t.id())
            &&& forall|x: u64| !(t->first.has_id(x) && t->second.has_id(x))
        },
{
    let own = seq![t.id()];
    let a = t->first.ids();
    let b = t->second.ids();
    assert(t.ids() == own + (a + b));
    lemma_no_duplicates_joined(own, a + b);
    lemma_no_duplicates_joined(a, b);
    assert(own.no_duplicates());
    assert forall|x: u64| (a + b).contains(x) <==> (a.contains(x) || b.contains(x)) by {
        lemma_contains_joined(Seq::<u64>::empty(), a, b, x);
        assert(Seq::<u64>::empty() + a == a);
        assert(!Seq::<u64>::empty().contains(x));
    }
    assert forall|x: u64| own.contains(x) <==> x == t.id() by {
        assert(own[0] == t.id());
    }
    let parts = {
        &&& a.no_duplicates()
        &&& b.no_duplicates()
        &&& !a.contains(t.id())
        &&& !b.contains(t.id())
        &&& forall|x: u64| !(a.contains(x) && b.contains(x))
    };
    let claim = {
        &&& t->first.ids().no_duplicates()
        &&& t->second.ids().no_duplicates()
        &&& !t->first.has_id(t.id())
        &&& !t->second.has_id(t.id())
        &&& forall|x: u64| !(t->first.has_id(x) && t->second.has_id(x))
    };
    if t.ids().no_duplicates() {
        assert(!(own.contains(t.id()) && (a + b).contains(t.id())));
        assert((a + b).no_duplicates());
        assert(parts);
        assert(claim);
    }
    if claim {
        assert forall|x: u64| !(a.contains(x) && b.contains(x)) by {
            assert(t->first.has_id(x) == a.contains(x));
            assert(t->second.has_id(x) == b.contains(x));
        }
        assert(parts);
        assert((a + b).no_duplicates());
        assert forall|x: u64| !(own.contains(x) && (a + b).contains(x)) by {}
        assert(t.ids().no_duplicates());
    }
}

/// The bites of a spoon's tree are those of its two children.
pub proof fn lemma_spoon_bites(t: Tree, x: u64)
    requires
        t is Spoon,
    ensures
        t.has_bite(x) <==> (t->first.has_bite(x) || t->second.has_bite(x)),
{
    lemma_contains_joined(Seq::<u64>::empty(), t->first.bites(), t->second.bites(), x);
    assert(Seq::<u64>::empty() + t->first.bites() == t->first.bites());
}

/// No id of the tree is greater than its greatest, which is one of them.
pub proof fn lemma_max_id(t: Tree)
    ensures
        t.has_id(t.max_id()),
        forall|x: u64| t.has_id(x) ==> x <= t.max_id(),
    decreases t,
{
    match t {
        Tree::Bite { id, .. } => {
            assert forall|x: u64| t.has_id(x) implies x <= t.max_id() by {
                lemma_bite_ids(t, x);
            }
            lemma_bite_ids(t, id);
        },
        Tree::Spoon { first, second, .. } => {
            lemma_max_id(*first);
            lemma_max_id(*second);
            lemma_spoon_ids(t, t.max_id());
            assert forall|x: u64| t.has_id(x) implies x <= t.max_id() by {
                lemma_spoon_ids(t, x);
            }
        },
    }
}

} // verus!
