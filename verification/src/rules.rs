//! The rule table: a mapping from a predecessor symbol to its ordered
//! replacement sequence.

use vstd::prelude::*;
use crate::alphabet::Alphabet;
use crate::alphabet::copy_symbols;

verus! {

/// Mathematical reading of a table held as a sequence of
/// (predecessor, productions) entries: the earliest entry for a predecessor
/// is the one that counts.
spec fn table_view<A>(s: Seq<(A, Vec<A>)>) -> Map<A, Seq<A>>
    decreases s.len(),
{
    if s.len() == 0 {
        Map::empty()
    } else {
        table_view(s.skip(1)).insert(s[0].0, s[0].1@)
    }
}

/// What registering a rule does to a table, as a map: nothing when the
/// predecessor already has a rule (first registration wins), an insertion
/// otherwise.
pub open spec fn spec_introduce<A>(
    m: Map<A, Seq<A>>,
    predecessor: A,
    productions: Seq<A>,
) -> Map<A, Seq<A>> {
    if m.dom().contains(predecessor) {
        m
    } else {
        m.insert(predecessor, productions)
    }
}

/// A table of context-free replacement rules. At most one production
/// sequence is held per predecessor symbol; a symbol with no entry is its
/// own production, applied implicitly at rewrite time and never
/// materialized here. Viewed as a `Map` from predecessor to production
/// sequence.
#[derive(Debug)]
pub struct Rules<A> {
    entries: Vec<(A, Vec<A>)>,
}

impl<A> View for Rules<A> {
    type V = Map<A, Seq<A>>;

    closed spec fn view(&self) -> Map<A, Seq<A>> {
        table_view(self.entries@)
    }
}

proof fn lemma_table_view_dom<A>(s: Seq<(A, Vec<A>)>, k: A)
    ensures
        table_view(s).dom().contains(k) <==> (exists|i: int|
            0 <= i < s.len() && s[i].0 == k),
    decreases s.len(),
{
    if s.len() == 0 {
    } else {
        lemma_table_view_dom(s.skip(1), k);
        if s[0].0 == k {
            assert(0 <= 0 < s.len() && s[0].0 == k);
        } else {
            if table_view(s).dom().contains(k) {
                let i = choose|i: int| 0 <= i < s.skip(1).len() && s.skip(1)[i].0 == k;
                assert(0 <= i + 1 < s.len() && s[i + 1].0 == k);
            }
            if exists|i: int| 0 <= i < s.len() && s[i].0 == k {
                let i = choose|i: int| 0 <= i < s.len() && s[i].0 == k;
                assert(i != 0);
                assert(0 <= i - 1 < s.skip(1).len() && s.skip(1)[i - 1].0 == k);
            }
        }
    }
}

proof fn lemma_table_view_first<A>(s: Seq<(A, Vec<A>)>, k: A, i: int)
    requires
        0 <= i < s.len(),
        s[i].0 == k,
        forall|j: int| 0 <= j < i ==> s[j].0 != k,
    ensures
        table_view(s).dom().contains(k),
        table_view(s)[k] == s[i].1@,
    decreases s.len(),
{
    if i == 0 {
    } else {
        assert forall|j: int| 0 <= j < i - 1 implies s.skip(1)[j].0 != k by {
            assert(s[j + 1].0 != k);
        }
        assert(s.skip(1)[i - 1].0 == k);
        lemma_table_view_first(s.skip(1), k, i - 1);
    }
}

proof fn lemma_table_view_push_fresh<A>(s: Seq<(A, Vec<A>)>, e: (A, Vec<A>))
    requires
        !table_view(s).dom().contains(e.0),
    ensures
        table_view(s.push(e)) == table_view(s).insert(e.0, e.1@),
    decreases s.len(),
{
    if s.len() == 0 {
        assert(s.push(e).skip(1) =~= s);
        assert(s.push(e)[0] == e);
        assert(table_view(s.push(e)) =~= table_view(s).insert(e.0, e.1@));
    } else {
        assert(s.push(e).skip(1) =~= s.skip(1).push(e));
        assert(s.push(e)[0] == s[0]);
        lemma_table_view_push_fresh(s.skip(1), e);
        assert(table_view(s.skip(1)).insert(e.0, e.1@).insert(s[0].0, s[0].1@)
            =~= table_view(s.skip(1)).insert(s[0].0, s[0].1@).insert(e.0, e.1@));
    }
}

proof fn lemma_table_view_entrywise<A>(s1: Seq<(A, Vec<A>)>, s2: Seq<(A, Vec<A>)>)
    requires
        s1.len() == s2.len(),
        forall|i: int| 0 <= i < s1.len() ==> s1[i].0 == s2[i].0 && s1[i].1@ == s2[i].1@,
    ensures
        table_view(s1) == table_view(s2),
    decreases s1.len(),
{
    if s1.len() == 0 {
        assert(table_view(s1) =~= table_view(s2));
    } else {
        assert forall|i: int| 0 <= i < s1.skip(1).len() implies s1.skip(1)[i].0 == s2.skip(1)[i].0
            && s1.skip(1)[i].1@ == s2.skip(1)[i].1@ by {
            assert(s1[i + 1].0 == s2[i + 1].0 && s1[i + 1].1@ == s2[i + 1].1@);
        }
        lemma_table_view_entrywise(s1.skip(1), s2.skip(1));
        assert(s1[0].0 == s2[0].0 && s1[0].1@ == s2[0].1@);
        assert(table_view(s1) =~= table_view(s2));
    }
}

/// First registration wins: registering a second production sequence for a
/// predecessor that already has one is a no-op, so after two registrations
/// for the same predecessor the table holds the first sequence.
pub proof fn lemma_introduce_first_wins<A>(
    m: Map<A, Seq<A>>,
    p: A,
    first: Seq<A>,
    second: Seq<A>,
)
    ensures
        spec_introduce(spec_introduce(m, p, first), p, second) == spec_introduce(m, p, first),
        !m.dom().contains(p) ==> spec_introduce(m, p, first)[p] == first,
{
}

impl<A: Alphabet> Rules<A> {
    /// The empty rule table.
    pub fn new() -> (r: Self)
        ensures
            r@ == Map::<A, Seq<A>>::empty(),
    {
        Rules { entries: Vec::new() }
    }

    /// Index of the earliest entry for `symbol`, if any.
    fn find_index(&self, symbol: &A) -> (r: Option<usize>)
        ensures
            match r {
                Some(i) => 0 <= i < self.entries@.len() && self.entries@[i as int].0 == *symbol
                    && (forall|j: int| 0 <= j < i ==> self.entries@[j].0 != *symbol),
                None => forall|j: int| 0 <= j < self.entries@.len()
                    ==> self.entries@[j].0 != *symbol,
            },
    {
        let mut i: usize = 0;
        while i < self.entries.len()
            invariant
                i <= self.entries@.len(),
                forall|j: int| 0 <= j < i ==> self.entries@[j].0 != *symbol,
            decreases self.entries@.len() - i,
        {
            if self.entries[i].0.sym_eq(symbol) {
                return Some(i);
            }
            i = i + 1;
        }
        None
    }

    /// Registers `productions` as the replacement sequence for
    /// `predecessor`. A total operation: when a rule for `predecessor` is
    /// already present the call is a silent no-op — existing rules are never
    /// overwritten — and no error is raised either way.
    pub fn introduce(&mut self, predecessor: A, productions: Vec<A>)
        ensures
            final(self)@ == spec_introduce(old(self)@, predecessor, productions@),
    {
        let ghost entry: (A, Vec<A>) = (predecessor, productions);
        match self.find_index(&predecessor) {
            Some(_) => {
                proof {
                    lemma_table_view_dom(self.entries@, predecessor);
                }
            },
            None => {
                proof {
                    lemma_table_view_dom(self.entries@, predecessor);
                }
                self.entries.push((predecessor, productions));
                proof {
                    lemma_table_view_push_fresh(old(self).entries@, entry);
                }
            },
        }
    }

    /// The registered production sequence for `symbol`, or nothing if the
    /// symbol is unmapped (in which case rewriting applies the identity
    /// rule to it).
    pub fn lookup(&self, symbol: &A) -> (r: Option<&Vec<A>>)
        ensures
            self@.dom().contains(*symbol) ==> (r matches Some(v) && v@ == self@[*symbol]),
            !self@.dom().contains(*symbol) ==> r is None,
    {
        match self.find_index(symbol) {
            Some(i) => {
                proof {
                    lemma_table_view_first(self.entries@, *symbol, i as int);
                }
                Some(&self.entries[i].1)
            },
            None => {
                proof {
                    lemma_table_view_dom(self.entries@, *symbol);
                }
                None
            },
        }
    }

    /// One direction of table equality: every rule of `a` is also a rule of
    /// `b`, with the same production sequence.
    fn table_leq(a: &Self, b: &Self) -> (r: bool)
        ensures
            r == (forall|k: A| #[trigger] a@.dom().contains(k)
                ==> b@.dom().contains(k) && b@[k] == a@[k]),
    {
        let mut i: usize = 0;
        while i < a.entries.len()
            invariant
                i <= a.entries@.len(),
                forall|j: int| 0 <= j < i ==> b@.dom().contains(#[trigger] a.entries@[j].0)
                    && b@[a.entries@[j].0] == a@[a.entries@[j].0],
            decreases a.entries@.len() - i,
        {
            let k = a.entries[i].0;
            proof {
                lemma_table_view_dom(a.entries@, k);
            }
            let va = a.lookup(&k);
            let vb = b.lookup(&k);
            match (va, vb) {
                (Some(pa), Some(pb)) => {
                    if !crate::alphabet::symbols_eq(pa, pb) {
                        proof {
                            assert(a@.dom().contains(k) && !(b@.dom().contains(k)
                                && b@[k] == a@[k]));
                        }
                        return false;
                    }
                },
                _ => {
                    proof {
                        assert(a@.dom().contains(k) && !b@.dom().contains(k));
                    }
                    return false;
                },
            }
            i = i + 1;
        }
        proof {
            assert forall|k: A| #[trigger] a@.dom().contains(k) implies b@.dom().contains(k)
                && b@[k] == a@[k] by {
                lemma_table_view_dom(a.entries@, k);
                let j = choose|j: int| 0 <= j < a.entries@.len() && a.entries@[j].0 == k;
                assert(a.entries@[j].0 == k);
            }
        }
        true
    }
}

impl<A: Alphabet> Default for Rules<A> {
    /// The empty rule table.
    fn default() -> (r: Self)
        ensures
            r@ == Map::<A, Seq<A>>::empty(),
    {
        Rules { entries: Vec::new() }
    }
}

impl<A: Alphabet> Clone for Rules<A> {
    fn clone(&self) -> (r: Self)
        ensures
            r@ == self@,
    {
        let mut entries: Vec<(A, Vec<A>)> = Vec::new();
        let mut i: usize = 0;
        while i < self.entries.len()
            invariant
                i <= self.entries@.len(),
                entries@.len() == i,
                forall|j: int| 0 <= j < i ==> entries@[j].0 == self.entries@[j].0
                    && entries@[j].1@ == self.entries@[j].1@,
            decreases self.entries@.len() - i,
        {
            let e = &self.entries[i];
            entries.push((e.0, copy_symbols(&e.1)));
            i = i + 1;
        }
        proof {
            lemma_table_view_entrywise(entries@, self.entries@);
        }
        Rules { entries }
    }
}

impl<A: Alphabet> PartialEq for Rules<A> {
    /// Structural equality: the two tables hold the same rules, however the
    /// entries happen to be ordered internally.
    fn eq(&self, other: &Self) -> (r: bool) {
        let ab = Self::table_leq(self, other);
        let ba = Self::table_leq(other, self);
        if ab && ba {
            proof {
                assert(self@.dom() =~= other@.dom());
                assert(self@ =~= other@);
            }
            true
        } else {
            proof {
                if self@ == other@ {
                    assert(forall|k: A| self@.dom().contains(k)
                        ==> other@.dom().contains(k) && other@[k] == self@[k]);
                    assert(forall|k: A| other@.dom().contains(k)
                        ==> self@.dom().contains(k) && self@[k] == other@[k]);
                    assert(false);
                }
            }
            false
        }
    }
}

impl<A: Alphabet> vstd::std_specs::cmp::PartialEqSpecImpl for Rules<A> {
    open spec fn obeys_eq_spec() -> bool {
        true
    }

    open spec fn eq_spec(&self, other: &Self) -> bool {
        self@ == other@
    }
}

} // verus!
