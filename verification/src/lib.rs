//! A parametrizable string-rewriting engine (a generalized Lindenmayer
//! system): given an initial sequence of symbols (the seed) and a table of
//! per-symbol replacement rules, it produces the successive generations
//! obtained by simultaneously replacing every symbol of the current
//! generation according to the table. A symbol with no registered rule is
//! replaced by itself.

use vstd::prelude::*;

mod alphabet;
mod rules;
mod seed;
mod system;

verus! {

pub use alphabet::Alphabet;
pub use rules::Rules;
pub use rules::lemma_introduce_first_wins;
pub use rules::spec_introduce;
pub use seed::Seed;
pub use system::LSystem;
pub use system::lemma_rewrite_concat;
pub use system::lemma_rewrite_deterministic;
pub use system::lemma_rewrite_empty;
pub use system::lemma_rewrite_singleton;
pub use system::lemma_unmapped_symbol_preserved;
pub use system::production;
pub use system::rewrite;

} // verus!
