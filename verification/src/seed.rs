//! The seed: the non-empty initial (generation-zero) sequence of symbols.

use vstd::prelude::*;
use crate::alphabet::Alphabet;

verus! {

/// An ordered, non-empty sequence of symbols that a rewriting engine starts
/// from. The "from" constructor demands a non-empty input as its contract;
/// an empty seed can only arise through the low-level `Default` escape
/// hatch (useful when composing an engine by hand, e.g. in test fixtures)
/// or through direct field access.
#[derive(Debug)]
pub struct Seed<A> {
    pub symbols: Vec<A>,
}

impl<A: Alphabet> Seed<A> {
    /// Constructs a seed from a non-empty sequence of symbols. A
    /// zero-length starting state has no meaningful generation sequence, so
    /// emptiness is ruled out by contract: correct callers check before
    /// calling, and the rejection happens at construction time, never at a
    /// later rewriting step.
    pub fn from(symbols: Vec<A>) -> (r: Self)
        requires
            symbols@.len() > 0,
        ensures
            r.symbols@ == symbols@,
    {
        Seed { symbols }
    }

    /// Recoverable variant of [`Seed::from`] for callers that cannot rule
    /// out an empty input themselves: returns the seed exactly when the
    /// input is non-empty, and `None` exactly when it is empty.
    pub fn try_from(symbols: Vec<A>) -> (r: Option<Self>)
        ensures
            symbols@.len() > 0 ==> (r matches Some(a) && a.symbols@ == symbols@),
            symbols@.len() == 0 ==> r is None,
    {
        if symbols.len() > 0 {
            Some(Seed { symbols })
        } else {
            None
        }
    }
}

impl<A: Alphabet> Default for Seed<A> {
    /// The empty seed, as a low-level escape hatch for composing an engine
    /// manually; the public constructor never produces it.
    fn default() -> (r: Self)
        ensures
            r.symbols@ == Seq::<A>::empty(),
    {
        Seed { symbols: Vec::new() }
    }
}

impl<A: Alphabet> Clone for Seed<A> {
    fn clone(&self) -> (r: Self)
        ensures
            r.symbols@ == self.symbols@,
    {
        Seed { symbols: crate::alphabet::copy_symbols(&self.symbols) }
    }
}

impl<A: Alphabet> PartialEq for Seed<A> {
    /// Structural equality: the symbol sequences are compared element-wise.
    fn eq(&self, other: &Self) -> (r: bool) {
        crate::alphabet::symbols_eq(&self.symbols, &other.symbols)
    }
}

impl<A: Alphabet> vstd::std_specs::cmp::PartialEqSpecImpl for Seed<A> {
    open spec fn obeys_eq_spec() -> bool {
        true
    }

    open spec fn eq_spec(&self, other: &Self) -> bool {
        self.symbols@ == other.symbols@
    }
}

} // verus!
