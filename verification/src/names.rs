use crate::text::str_eq;
use vstd::prelude::*;

verus! {

/// No two elements are equal: the sequence behaves as an ordered set.
pub open spec fn distinct(s: Seq<Seq<char>>) -> bool {
    forall|i: int, j: int| 0 <= i < j < s.len() ==> s[i] != s[j]
}

/// What inserting a name does to the contents: nothing when the name is
/// already present, an append at the end otherwise. Discovery order is kept.
pub open spec fn spec_insert(s: Seq<Seq<char>>, x: Seq<char>) -> Seq<Seq<char>> {
    if s.contains(x) {
        s
    } else {
        s.push(x)
    }
}

/// An insertion-ordered, de-duplicated set of strings. The analyzer's export
/// and re-export collections are of this type; its only mutators are `insert`
/// and `clear`, so no element ever leaves the set except through a full reset.
pub struct NameSet {
    items: Vec<String>,
}

impl View for NameSet {
    type V = Seq<Seq<char>>;

    closed spec fn view(&self) -> Seq<Seq<char>> {
        Seq::new(self.items@.len(), |i: int| self.items@[i]@)
    }
}

impl NameSet {
    pub fn new() -> (r: NameSet)
        ensures
            r@ == Seq::<Seq<char>>::empty(),
    {
        let r = NameSet { items: Vec::new() };
        proof {
            assert(r@ =~= Seq::<Seq<char>>::empty());
        }
        r
    }

    pub fn len(&self) -> (r: usize)
        ensures
            r == self@.len(),
    {
        self.items.len()
    }

    pub fn contains_name(&self, name: &str) -> (r: bool)
        ensures
            r == self@.contains(name@),
    {
        let n = self.items.len();
        let mut i: usize = 0;
        while i < n
            invariant
                n == self@.len(),
                i <= n,
                forall|k: int| 0 <= k < i ==> self@[k] != name@,
            decreases n - i,
        {
            if str_eq(self.items[i].as_str(), name) {
                assert(self@[i as int] == name@);
                return true;
            }
            i = i + 1;
        }
        assert(forall|k: int| 0 <= k < self@.len() ==> self@[k] != name@);
        false
    }

    pub fn insert(&mut self, name: String)
        ensures
            final(self)@ == spec_insert(old(self)@, name@),
            distinct(old(self)@) ==> distinct(final(self)@),
    {
        if !self.contains_name(name.as_str()) {
            let ghost prev = self@;
            self.items.push(name);
            proof {
                assert(self@ =~= prev.push(name@));
            }
        }
    }

    pub fn clear(&mut self)
        ensures
            final(self)@ == Seq::<Seq<char>>::empty(),
    {
        self.items.clear();
        proof {
            assert(self@ =~= Seq::<Seq<char>>::empty());
        }
    }

    /// A copy with the same contents, for walking a nested body on its own
    /// frame.
    pub fn duplicate(&self) -> (r: NameSet)
        ensures
            r@ == self@,
    {
        let n = self.items.len();
        let mut items: Vec<String> = Vec::new();
        let mut i: usize = 0;
        while i < n
            invariant
                n == self.items@.len(),
                i <= n,
                items@.len() == i,
                forall|k: int| 0 <= k < i ==> items@[k] == self.items@[k],
            decreases n - i,
        {
            items.push(self.items[i].clone());
            i = i + 1;
        }
        let r = NameSet { items };
        proof {
            assert(r@ =~= self@);
        }
        r
    }

    /// Hands the contents out in discovery order.
    pub fn into_names(self) -> (r: Vec<String>)
        ensures
            r@.len() == self@.len(),
            forall|i: int| 0 <= i < r@.len() ==> r@[i]@ == self@[i],
    {
        self.items
    }
}

/// An inserted name never displaces what was discovered before it: the old
/// contents stay, in order, as a prefix of the new contents.
pub proof fn lemma_insert_monotonic(s: Seq<Seq<char>>, x: Seq<char>)
    ensures
        s.len() <= spec_insert(s, x).len(),
        forall|i: int| 0 <= i < s.len() ==> spec_insert(s, x)[i] == s[i],
        spec_insert(s, x).contains(x),
        forall|y: Seq<char>| s.contains(y) ==> spec_insert(s, x).contains(y),
{
    if s.contains(x) {
    } else {
        assert(spec_insert(s, x)[s.len() as int] == x);
        assert forall|y: Seq<char>| s.contains(y) implies spec_insert(s, x).contains(y) by {
            let i = choose|i: int| 0 <= i < s.len() && s[i] == y;
            assert(spec_insert(s, x)[i] == y);
        }
    }
}

/// The contents after inserting a whole discovery sequence, name by name and
/// in order.
pub open spec fn spec_insert_all(s: Seq<Seq<char>>, names: Seq<Seq<char>>) -> Seq<Seq<char>>
    decreases names.len(),
{
    if names.len() == 0 {
        s
    } else {
        spec_insert_all(spec_insert(s, names[0]), names.drop_first())
    }
}

/// A discovery pass over a concatenation is the two passes in sequence.
pub proof fn lemma_insert_all_app(s: Seq<Seq<char>>, a: Seq<Seq<char>>, b: Seq<Seq<char>>)
    ensures
        spec_insert_all(s, a + b) == spec_insert_all(spec_insert_all(s, a), b),
    decreases a.len(),
{
    if a.len() == 0 {
        assert(a + b =~= b);
    } else {
        assert((a + b)[0] == a[0]);
        assert((a + b).drop_first() =~= a.drop_first() + b);
        lemma_insert_all_app(spec_insert(s, a[0]), a.drop_first(), b);
    }
}

/// A discovery pass over a single name is one insertion.
pub proof fn lemma_insert_all_one(s: Seq<Seq<char>>, x: Seq<char>)
    ensures
        spec_insert_all(s, seq![x]) == spec_insert(s, x),
{
    assert(seq![x].drop_first() =~= Seq::<Seq<char>>::empty());
    assert(seq![x][0] == x);
    assert(spec_insert_all(spec_insert(s, x), Seq::<Seq<char>>::empty()) == spec_insert(s, x));
}

/// The position of the first occurrence of `x` in `names` (or `names.len()`
/// when it never occurs).
pub open spec fn first_index(names: Seq<Seq<char>>, x: Seq<char>) -> int
    decreases names.len(),
{
    if names.len() == 0 {
        0
    } else if names[0] == x {
        0
    } else {
        1 + first_index(names.drop_first(), x)
    }
}

proof fn lemma_first_index_nonneg(names: Seq<Seq<char>>, x: Seq<char>)
    ensures
        0 <= first_index(names, x),
    decreases names.len(),
{
    if names.len() != 0 && names[0] != x {
        lemma_first_index_nonneg(names.drop_first(), x);
    }
}

proof fn lemma_contains_unfold(names: Seq<Seq<char>>, x: Seq<char>)
    requires
        names.len() != 0,
    ensures
        names.contains(x) == (names[0] == x || names.drop_first().contains(x)),
{
    let rest = names.drop_first();
    if names.contains(x) {
        let i = choose|i: int| 0 <= i < names.len() && names[i] == x;
        if i > 0 {
            assert(rest[i - 1] == x);
            assert(rest.contains(x));
        }
    }
    if rest.contains(x) {
        let i = choose|i: int| 0 <= i < rest.len() && rest[i] == x;
        assert(names[i + 1] == x);
    }
}

/// The general shape of a whole discovery pass: the prior contents stay in
/// place as a prefix, every discovered name appears exactly once, nothing
/// else appears, and the appended names stand in the order of their first
/// discovery.
pub proof fn lemma_insert_all_order(s: Seq<Seq<char>>, names: Seq<Seq<char>>)
    requires
        distinct(s),
    ensures
        distinct(spec_insert_all(s, names)),
        s.len() <= spec_insert_all(s, names).len(),
        forall|i: int| 0 <= i < s.len() ==> spec_insert_all(s, names)[i] == s[i],
        forall|x: Seq<char>|
            spec_insert_all(s, names).contains(x) == (s.contains(x) || names.contains(x)),
        forall|i: int|
            s.len() <= i < spec_insert_all(s, names).len() ==> names.contains(
                spec_insert_all(s, names)[i],
            ) && !s.contains(spec_insert_all(s, names)[i]),
        forall|i: int, j: int|
            s.len() <= i < j < spec_insert_all(s, names).len() ==> first_index(
                names,
                spec_insert_all(s, names)[i],
            ) < first_index(names, spec_insert_all(s, names)[j]),
    decreases names.len(),
{
    let r = spec_insert_all(s, names);
    if names.len() == 0 {
    } else {
        let h = names[0];
        let rest = names.drop_first();
        let s2 = spec_insert(s, h);
        lemma_insert_monotonic(s, h);
        lemma_insert_no_invention(s, h);
        lemma_insert_all_order(s2, rest);
        assert(r == spec_insert_all(s2, rest));
        lemma_contains_unfold(names, h);
        // Membership: fold the head back into the unfolding of `names`.
        assert forall|x: Seq<char>| r.contains(x) == (s.contains(x) || names.contains(x)) by {
            lemma_contains_unfold(names, x);
        }
        // The appended part comes from `names` and avoids `s`.
        assert forall|i: int| s.len() <= i < r.len() implies names.contains(r[i]) && !s.contains(
            r[i],
        ) by {
            lemma_contains_unfold(names, r[i]);
            if i < s2.len() {
                // Only possible when `h` was new: position `s.len()` holds `h`.
                assert(!s.contains(h));
                assert(r[i] == s2[i]);
                assert(s2 == s.push(h));
                assert(r[i] == h);
            }
        }
        // Order: positions beyond `s2` are ordered by first discovery in
        // `rest`, which shifts by one against `names`; a position holding
        // `h` itself has first index zero.
        assert forall|i: int, j: int|
            s.len() <= i < j < r.len() implies first_index(names, r[i]) < first_index(
            names,
            r[j],
        ) by {
            lemma_first_index_nonneg(rest, r[i]);
            lemma_first_index_nonneg(rest, r[j]);
            if i >= s2.len() {
                // both appended by the recursive pass
                assert(first_index(rest, r[i]) < first_index(rest, r[j]));
                assert(!s2.contains(r[i]));
                assert(r[i] != h);
                assert(r[j] != h);
                assert(first_index(names, r[i]) == 1 + first_index(rest, r[i]));
                assert(first_index(names, r[j]) == 1 + first_index(rest, r[j]));
            } else {
                // `i` names the freshly inserted head
                assert(!s.contains(h));
                assert(s2 == s.push(h));
                assert(r[i] == s2[i]);
                assert(r[i] == h);
                assert(first_index(names, h) == 0);
                assert(!s2.contains(r[j]));
                assert(r[j] != h);
                assert(first_index(names, r[j]) == 1 + first_index(rest, r[j]));
            }
        }
    }
}

/// The order law for one discovery pass over an empty set: the result holds
/// exactly the discovered names, without duplicates, in the order of their
/// first discovery.
pub proof fn lemma_discovery_order(names: Seq<Seq<char>>)
    ensures
        distinct(spec_insert_all(Seq::empty(), names)),
        forall|x: Seq<char>| spec_insert_all(Seq::empty(), names).contains(x) == names.contains(x),
        forall|i: int, j: int|
            0 <= i < j < spec_insert_all(Seq::empty(), names).len() ==> first_index(
                names,
                spec_insert_all(Seq::empty(), names)[i],
            ) < first_index(names, spec_insert_all(Seq::empty(), names)[j]),
{
    lemma_insert_all_order(Seq::empty(), names);
}

/// Inserting never introduces a duplicate, and never adds a name that was not
/// asked for: the new contents are the old ones plus at most `x` itself.
pub proof fn lemma_insert_no_invention(s: Seq<Seq<char>>, x: Seq<char>)
    ensures
        forall|y: Seq<char>| spec_insert(s, x).contains(y) ==> s.contains(y) || y == x,
        distinct(s) ==> distinct(spec_insert(s, x)),
{
    if !s.contains(x) {
        assert forall|y: Seq<char>| spec_insert(s, x).contains(y) implies s.contains(y) || y == x by {
            let i = choose|i: int| 0 <= i < spec_insert(s, x).len() && spec_insert(s, x)[i] == y;
            if i < s.len() {
                assert(s[i] == y);
            }
        }
    }
}

} // verus!
