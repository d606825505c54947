//! The binding table: an ordered association from identifier names to the
//! kind of value each name is known to hold.

use crate::ast::{clone_strings, ClassMember, Lit, PropOrSpread, Stmt};
use crate::text::str_eq;
use std::rc::Rc;
use vstd::pervasive::VecAdditionalExecFns;
use vstd::prelude::*;

verus! {

/// What a bound identifier is known to be. `Unknown` records a binding that
/// exists but is not modeled, which is distinct from a name that is absent
/// from the table altogether.
pub enum IdentKind {
    Lit(Lit),
    Alias(String),
    Object(Rc<Vec<PropOrSpread>>),
    Class(Rc<Vec<ClassMember>>),
    Fn(FnDesc),
    Reexport(String),
    Unknown,
}

/// A function value in the binding table: its body, and the static member
/// names attached to it later by dot-assignment.
pub struct FnDesc {
    pub stmts: Rc<Vec<Stmt>>,
    pub extends: Vec<String>,
}

pub fn clone_fn_desc(d: &FnDesc) -> (r: FnDesc)
    ensures
        r.stmts == d.stmts,
        r.extends@ == d.extends@,
{
    FnDesc { stmts: d.stmts.clone(), extends: clone_strings(&d.extends) }
}

pub struct Binding {
    pub name: String,
    pub kind: Rc<IdentKind>,
}

/// The kind bound to `name`: the first entry with that name wins.
pub open spec fn spec_lookup(s: Seq<Binding>, name: Seq<char>) -> Option<Rc<IdentKind>>
    decreases s.len(),
{
    if s.len() == 0 {
        None
    } else if s[0].name@ == name {
        Some(s[0].kind)
    } else {
        spec_lookup(s.drop_first(), name)
    }
}

proof fn lemma_lookup_skip(s: Seq<Binding>, i: int, name: Seq<char>)
    requires
        0 <= i <= s.len(),
        forall|k: int| 0 <= k < i ==> s[k].name@ != name,
    ensures
        spec_lookup(s, name) == spec_lookup(s.skip(i), name),
    decreases i,
{
    if i > 0 {
        lemma_lookup_skip(s.drop_first(), i - 1, name);
        assert(s.drop_first().skip(i - 1) =~= s.skip(i));
    } else {
        assert(s.skip(0) =~= s);
    }
}

proof fn lemma_lookup_update_other(s: Seq<Binding>, i: int, b: Binding, n: Seq<char>)
    requires
        0 <= i < s.len(),
        b.name@ != n,
        s[i].name@ != n,
    ensures
        spec_lookup(s.update(i, b), n) == spec_lookup(s, n),
    decreases s.len(),
{
    let t = s.update(i, b);
    if i == 0 {
        assert(t.drop_first() =~= s.drop_first());
    } else {
        if s[0].name@ == n {
            assert(t[0] == s[0]);
        } else {
            lemma_lookup_update_other(s.drop_first(), i - 1, b, n);
            assert(t.drop_first() =~= s.drop_first().update(i - 1, b));
        }
    }
}

proof fn lemma_lookup_push_other(s: Seq<Binding>, b: Binding, n: Seq<char>)
    requires
        b.name@ != n,
    ensures
        spec_lookup(s.push(b), n) == spec_lookup(s, n),
    decreases s.len(),
{
    let t = s.push(b);
    if s.len() == 0 {
        assert(t[0] == b);
        assert(t.drop_first() =~= Seq::<Binding>::empty());
        assert(spec_lookup(Seq::<Binding>::empty(), n) is None);
    } else {
        assert(t[0] == s[0]);
        if s[0].name@ != n {
            lemma_lookup_push_other(s.drop_first(), b, n);
            assert(t.drop_first() =~= s.drop_first().push(b));
        }
    }
}

/// The binding table. Entries keep their insertion position; a re-bound name
/// has its kind replaced in place.
pub struct IdentMap {
    entries: Vec<Binding>,
}

impl View for IdentMap {
    type V = Seq<Binding>;

    closed spec fn view(&self) -> Seq<Binding> {
        self.entries@
    }
}

impl IdentMap {
    pub fn new() -> (r: IdentMap)
        ensures
            r@ == Seq::<Binding>::empty(),
    {
        let r = IdentMap { entries: Vec::new() };
        proof {
            assert(r@ =~= Seq::<Binding>::empty());
        }
        r
    }

    pub fn len(&self) -> (r: usize)
        ensures
            r == self@.len(),
    {
        self.entries.len()
    }

    pub fn get(&self, name: &str) -> (r: Option<Rc<IdentKind>>)
        ensures
            r == spec_lookup(self@, name@),
    {
        let n = self.entries.len();
        let mut i: usize = 0;
        while i < n
            invariant
                n == self@.len(),
                i <= n,
                forall|k: int| 0 <= k < i ==> self@[k].name@ != name@,
            decreases n - i,
        {
            if str_eq(self.entries[i].name.as_str(), name) {
                proof {
                    lemma_lookup_skip(self@, i as int, name@);
                    assert(self@.skip(i as int)[0] == self@[i as int]);
                }
                return Some(self.entries[i].kind.clone());
            }
            i = i + 1;
        }
        proof {
            lemma_lookup_skip(self@, n as int, name@);
            assert(self@.skip(n as int) =~= Seq::<Binding>::empty());
        }
        None
    }

    pub fn contains(&self, name: &str) -> (r: bool)
        ensures
            r == spec_lookup(self@, name@).is_some(),
    {
        self.get(name).is_some()
    }

    /// Binds `name` to `kind`: the first entry for `name` is replaced in
    /// place, or a new entry is appended. Every other name keeps its kind.
    pub fn store(&mut self, name: &str, kind: Rc<IdentKind>)
        ensures
            spec_lookup(final(self)@, name@) == Some(kind),
            forall|n: Seq<char>|
                n != name@ ==> spec_lookup(final(self)@, n) == spec_lookup(old(self)@, n),
    {
        let n = self.entries.len();
        let mut i: usize = 0;
        while i < n
            invariant
                n == self@.len(),
                i <= n,
                self@ == old(self)@,
                forall|k: int| 0 <= k < i ==> self@[k].name@ != name@,
            decreases n - i,
        {
            if str_eq(self.entries[i].name.as_str(), name) {
                let b = Binding { name: name.to_owned(), kind };
                proof {
                    let s = self@;
                    let t = s.update(i as int, b);
                    lemma_lookup_skip(t, i as int, name@);
                    assert(t.skip(i as int)[0] == t[i as int]);
                    assert(spec_lookup(t, name@) == Some(b.kind));
                    assert forall|m: Seq<char>| m != name@ implies spec_lookup(t, m) == spec_lookup(
                        s,
                        m,
                    ) by {
                        lemma_lookup_update_other(s, i as int, b, m);
                    }
                }
                self.entries.set(i, b);
                return ;
            }
            i = i + 1;
        }
        let b = Binding { name: name.to_owned(), kind };
        proof {
            let s = self@;
            let t = s.push(b);
            lemma_lookup_skip(t, n as int, name@);
            assert(t.skip(n as int) =~= seq![b]);
            assert(t.skip(n as int)[0] == b);
            assert forall|m: Seq<char>| m != name@ implies spec_lookup(t, m) == spec_lookup(
                s,
                m,
            ) by {
                lemma_lookup_push_other(s, b, m);
            }
        }
        self.entries.push(b);
    }

    /// A copy sharing the stored kinds, for walking a nested body on its own
    /// frame.
    pub fn duplicate(&self) -> (r: IdentMap)
        ensures
            r@ == self@,
    {
        let n = self.entries.len();
        let mut entries: Vec<Binding> = Vec::new();
        let mut i: usize = 0;
        while i < n
            invariant
                n == self.entries@.len(),
                i <= n,
                entries@.len() == i,
                forall|k: int| 0 <= k < i ==> entries@[k] == self.entries@[k],
            decreases n - i,
        {
            let b = &self.entries[i];
            entries.push(Binding { name: b.name.clone(), kind: b.kind.clone() });
            i = i + 1;
        }
        let r = IdentMap { entries };
        proof {
            assert(r@ =~= self@);
        }
        r
    }

    /// Chases alias links from `name` for at most `budget` steps and returns
    /// the kind reached, or nothing when the chain leaves the table or runs
    /// past the budget.
    pub fn resolve(&self, name: &str, budget: u64) -> (r: Option<Rc<IdentKind>>)
        ensures
            r == spec_resolve(self@, name@, budget as nat),
        decreases budget,
    {
        if budget == 0 {
            return None;
        }
        match self.get(name) {
            None => None,
            Some(k) => {
                if let IdentKind::Alias(next) = &*k {
                    self.resolve(next.as_str(), budget - 1)
                } else {
                    Some(k)
                }
            },
        }
    }
}

/// The kind that an alias chain starting at `name` reaches within `budget`
/// steps; a chain that leaves the table or cycles past the budget reaches
/// nothing.
pub open spec fn spec_resolve(s: Seq<Binding>, name: Seq<char>, budget: nat) -> Option<
    Rc<IdentKind>,
>
    decreases budget,
{
    if budget == 0 {
        None
    } else {
        match spec_lookup(s, name) {
            None => None,
            Some(k) => if (*k) is Alias {
                spec_resolve(s, (*k)->Alias_0@, (budget - 1) as nat)
            } else {
                Some(k)
            },
        }
    }
}

} // verus!
