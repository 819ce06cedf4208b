//! The rewriting engine: holds a seed, a rule table and the current
//! generation, and produces the next generation on demand.

use vstd::prelude::*;
use crate::alphabet::Alphabet;
use crate::alphabet::append_symbols;
use crate::alphabet::copy_symbols;
use crate::seed::Seed;
use crate::rules::Rules;

verus! {

/// What one symbol is replaced by: its registered production sequence, or
/// itself when it has no rule (the implicit identity rule).
pub open spec fn production<A>(rules: Map<A, Seq<A>>, symbol: A) -> Seq<A> {
    if rules.dom().contains(symbol) {
        rules[symbol]
    } else {
        seq![symbol]
    }
}

/// One parallel rewriting step: every symbol of `state` is replaced
/// independently of its neighbours, and the replacements are concatenated
/// in the original positional order.
pub open spec fn rewrite<A>(rules: Map<A, Seq<A>>, state: Seq<A>) -> Seq<A>
    decreases state.len(),
{
    if state.len() == 0 {
        Seq::empty()
    } else {
        production(rules, state[0]) + rewrite(rules, state.skip(1))
    }
}

/// Order preservation: rewriting a concatenation rewrites the two parts
/// independently and concatenates the results in the same order. Each
/// symbol's replacement depends only on the symbol itself, never on its
/// neighbours or its position, so the next generation is the positional
/// concatenation of the per-symbol productions — never a reordering.
pub proof fn lemma_rewrite_concat<A>(rules: Map<A, Seq<A>>, s1: Seq<A>, s2: Seq<A>)
    ensures
        rewrite(rules, s1 + s2) == rewrite(rules, s1) + rewrite(rules, s2),
    decreases s1.len(),
{
    if s1.len() == 0 {
        assert(s1 + s2 =~= s2);
        assert(rewrite(rules, s1) + rewrite(rules, s2) =~= rewrite(rules, s2));
    } else {
        assert((s1 + s2).len() > 0);
        assert((s1 + s2)[0] == s1[0]);
        assert((s1 + s2).skip(1) =~= s1.skip(1) + s2);
        lemma_rewrite_concat(rules, s1.skip(1), s2);
        assert(rewrite(rules, s1 + s2) =~= rewrite(rules, s1) + rewrite(rules, s2));
    }
}

/// Rewriting a single symbol yields exactly its production.
pub proof fn lemma_rewrite_singleton<A>(rules: Map<A, Seq<A>>, symbol: A)
    ensures
        rewrite(rules, seq![symbol]) == production(rules, symbol),
{
    assert(seq![symbol].skip(1) =~= Seq::<A>::empty());
    lemma_rewrite_empty(rules);
    assert(production(rules, symbol) + Seq::<A>::empty() =~= production(rules, symbol));
    assert(rewrite(rules, seq![symbol]) =~= production(rules, symbol));
}

/// Rewriting never signals an end: the step is total, and in particular the
/// empty state simply rewrites to the empty state again, generation after
/// generation, rather than terminating the sequence of generations.
pub proof fn lemma_rewrite_empty<A>(rules: Map<A, Seq<A>>)
    ensures
        rewrite(rules, Seq::<A>::empty()) == Seq::<A>::empty(),
{
}

/// A symbol with no registered rule is carried through a rewriting step
/// unchanged: an occurrence at position `i` of the state reappears, itself,
/// immediately after the rewrites of the symbols to its left.
pub proof fn lemma_unmapped_symbol_preserved<A>(rules: Map<A, Seq<A>>, state: Seq<A>, i: int)
    requires
        0 <= i < state.len(),
        !rules.dom().contains(state[i]),
    ensures
        rewrite(rules, state.take(i)).len() < rewrite(rules, state).len(),
        rewrite(rules, state)[rewrite(rules, state.take(i)).len() as int] == state[i],
{
    assert(state =~= (state.take(i) + seq![state[i]]) + state.skip(i + 1));
    lemma_rewrite_concat(rules, state.take(i) + seq![state[i]], state.skip(i + 1));
    lemma_rewrite_concat(rules, state.take(i), seq![state[i]]);
    lemma_rewrite_singleton(rules, state[i]);
    assert(production(rules, state[i]) =~= seq![state[i]]);
    assert(rewrite(rules, state)
        == (rewrite(rules, state.take(i)) + seq![state[i]]) + rewrite(rules, state.skip(i + 1)));
}

/// Determinism: the next generation is a function of the rule table and the
/// current state alone, so identical (rules, state) pairs always rewrite to
/// identical sequences, however the independent per-symbol replacements are
/// scheduled.
pub proof fn lemma_rewrite_deterministic<A>(
    rules1: Map<A, Seq<A>>,
    state1: Seq<A>,
    rules2: Map<A, Seq<A>>,
    state2: Seq<A>,
)
    requires
        rules1 == rules2,
        state1 == state2,
    ensures
        rewrite(rules1, state1) == rewrite(rules2, state2),
{
}

proof fn lemma_rewrite_take_step<A>(rules: Map<A, Seq<A>>, state: Seq<A>, i: int)
    requires
        0 <= i < state.len(),
    ensures
        rewrite(rules, state.take(i + 1))
            == rewrite(rules, state.take(i)) + production(rules, state[i]),
{
    assert(state.take(i + 1) =~= state.take(i) + seq![state[i]]);
    lemma_rewrite_concat(rules, state.take(i), seq![state[i]]);
    lemma_rewrite_singleton(rules, state[i]);
}

/// The rewriting engine. It holds the seed it started from (retained for
/// identity and equality, never mutated after construction), the rule table
/// (never mutated after construction), and the current generation, which
/// every [`LSystem::advance`] call replaces in place. Generation zero is
/// the seed itself.
#[derive(Debug)]
pub struct LSystem<A> {
    pub seed: Seed<A>,
    pub rules: Rules<A>,
    pub state: Vec<A>,
}

impl<A: Alphabet> LSystem<A> {
    /// Builds an engine whose state starts as a copy of the seed's
    /// symbols; the seed and the rule table are stored by move.
    pub fn new(seed: Seed<A>, rules: Rules<A>) -> (r: Self)
        ensures
            r.seed == seed,
            r.rules == rules,
            r.state@ == seed.symbols@,
    {
        let state = copy_symbols(&seed.symbols);
        LSystem { seed, rules, state }
    }

    /// Produces the next generation: every symbol of the current state is
    /// replaced by its production (itself, when it has no rule), and the
    /// replacements are concatenated in the original positional order. The
    /// new state is stored and a copy of it is returned. The operation is
    /// total — it never fails and never signals an end of the sequence of
    /// generations, even once the state is empty or stops changing — and it
    /// reads only the rule table and the prior state, so the seed and the
    /// table are left untouched.
    pub fn advance(&mut self) -> (r: Vec<A>)
        ensures
            final(self).state@ == rewrite(old(self).rules@, old(self).state@),
            r@ == final(self).state@,
            final(self).seed == old(self).seed,
            final(self).rules == old(self).rules,
    {
        let mut out: Vec<A> = Vec::new();
        let n = self.state.len();
        let mut i: usize = 0;
        proof {
            assert(out@ =~= rewrite(self.rules@, self.state@.take(0)));
        }
        while i < n
            invariant
                i <= n,
                *self == *old(self),
                n == self.state@.len(),
                out@ == rewrite(self.rules@, self.state@.take(i as int)),
            decreases n - i,
        {
            let symbol = self.state[i];
            match self.rules.lookup(&symbol) {
                Some(p) => {
                    append_symbols(&mut out, p);
                },
                None => {
                    out.push(symbol);
                },
            }
            proof {
                lemma_rewrite_take_step(self.rules@, self.state@, i as int);
                assert(rewrite(self.rules@, self.state@.take(i as int)).push(self.state@[i as int])
                    =~= rewrite(self.rules@, self.state@.take(i as int))
                        + seq![self.state@[i as int]]);
            }
            i = i + 1;
        }
        proof {
            assert(self.state@.take(n as int) =~= self.state@);
        }
        let r = copy_symbols(&out);
        self.state = out;
        r
    }
}

impl<A: Alphabet> Default for LSystem<A> {
    /// An engine over the empty seed, the empty rule table and the empty
    /// state, as a low-level escape hatch for composing an engine field by
    /// field; [`LSystem::new`] is the ordinary constructor.
    fn default() -> (r: Self)
        ensures
            r.seed.symbols@ == Seq::<A>::empty(),
            r.rules@ == Map::<A, Seq<A>>::empty(),
            r.state@ == Seq::<A>::empty(),
    {
        LSystem { seed: Seed::default(), rules: Rules::new(), state: Vec::new() }
    }
}

impl<A: Alphabet> Clone for LSystem<A> {
    /// A deep copy of seed, rules and state, for callers that want to
    /// explore several generation sequences from one engine independently.
    fn clone(&self) -> (r: Self)
        ensures
            r.seed.symbols@ == self.seed.symbols@,
            r.rules@ == self.rules@,
            r.state@ == self.state@,
    {
        LSystem {
            seed: self.seed.clone(),
            rules: self.rules.clone(),
            state: copy_symbols(&self.state),
        }
    }
}

impl<A: Alphabet> PartialEq for LSystem<A> {
    /// Structural equality: component-wise comparison of state, seed and
    /// rule table contents.
    fn eq(&self, other: &Self) -> (r: bool) {
        let state_eq = crate::alphabet::symbols_eq(&self.state, &other.state);
        let seed_eq = self.seed == other.seed;
        let rules_eq = self.rules == other.rules;
        state_eq && seed_eq && rules_eq
    }
}

impl<A: Alphabet> vstd::std_specs::cmp::PartialEqSpecImpl for LSystem<A> {
    open spec fn obeys_eq_spec() -> bool {
        true
    }

    open spec fn eq_spec(&self, other: &Self) -> bool {
        self.state@ == other.state@ && self.seed.symbols@ == other.seed.symbols@
            && self.rules@ == other.rules@
    }
}

} // verus!
