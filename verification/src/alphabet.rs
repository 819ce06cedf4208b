//! The symbol alphabet that an engine rewrites over.

use vstd::prelude::*;

verus! {

/// A symbol type that the rewriting engine can work over: cheaply copyable
/// and equality-comparable, with an executable comparison that agrees with
/// mathematical equality. Characters and the integer types implement it
/// below; callers may implement it for their own tag types in the same way.
pub trait Alphabet: Sized + Copy {
    /// Executable equality test, tied to mathematical equality of the two
    /// symbols.
    fn sym_eq(&self, other: &Self) -> (r: bool)
        ensures
            r == (self == other),
    ;
}

impl Alphabet for char {
    fn sym_eq(&self, other: &Self) -> (r: bool) {
        *self == *other
    }
}

impl Alphabet for u8 {
    fn sym_eq(&self, other: &Self) -> (r: bool) {
        *self == *other
    }
}

impl Alphabet for u16 {
    fn sym_eq(&self, other: &Self) -> (r: bool) {
        *self == *other
    }
}

impl Alphabet for u32 {
    fn sym_eq(&self, other: &Self) -> (r: bool) {
        *self == *other
    }
}

impl Alphabet for u64 {
    fn sym_eq(&self, other: &Self) -> (r: bool) {
        *self == *other
    }
}

impl Alphabet for usize {
    fn sym_eq(&self, other: &Self) -> (r: bool) {
        *self == *other
    }
}

impl Alphabet for i32 {
    fn sym_eq(&self, other: &Self) -> (r: bool) {
        *self == *other
    }
}

impl Alphabet for i64 {
    fn sym_eq(&self, other: &Self) -> (r: bool) {
        *self == *other
    }
}

/// Copies a sequence of symbols element by element.
pub(crate) fn copy_symbols<A: Alphabet>(v: &Vec<A>) -> (r: Vec<A>)
    ensures
        r@ == v@,
{
    let mut r: Vec<A> = Vec::new();
    let mut i: usize = 0;
    proof {
        assert(r@ =~= v@.take(0));
    }
    while i < v.len()
        invariant
            i <= v@.len(),
            r@ == v@.take(i as int),
        decreases v@.len() - i,
    {
        r.push(v[i]);
        proof {
            assert(v@.take(i as int + 1) =~= v@.take(i as int).push(v@[i as int]));
        }
        i = i + 1;
    }
    proof {
        assert(v@.take(v@.len() as int) =~= v@);
    }
    r
}

/// Appends the symbols of `src` to `out`, in order.
pub(crate) fn append_symbols<A: Alphabet>(out: &mut Vec<A>, src: &Vec<A>)
    ensures
        final(out)@ == old(out)@ + src@,
{
    let mut j: usize = 0;
    proof {
        assert(old(out)@ + src@.take(0) =~= old(out)@);
    }
    while j < src.len()
        invariant
            j <= src@.len(),
            out@ == old(out)@ + src@.take(j as int),
        decreases src@.len() - j,
    {
        out.push(src[j]);
        proof {
            assert(old(out)@ + src@.take(j as int + 1)
                =~= (old(out)@ + src@.take(j as int)).push(src@[j as int]));
        }
        j = j + 1;
    }
    proof {
        assert(old(out)@ + src@.take(src@.len() as int) =~= old(out)@ + src@);
    }
}

/// Element-wise equality of two symbol sequences.
pub(crate) fn symbols_eq<A: Alphabet>(a: &Vec<A>, b: &Vec<A>) -> (r: bool)
    ensures
        r == (a@ == b@),
{
    if a.len() != b.len() {
        proof {
            assert(a@ != b@);
        }
        return false;
    }
    let mut i: usize = 0;
    while i < a.len()
        invariant
            i <= a@.len(),
            a@.len() == b@.len(),
            forall|j: int| 0 <= j < i ==> a@[j] == b@[j],
        decreases a@.len() - i,
    {
        if !a[i].sym_eq(&b[i]) {
            proof {
                assert(a@ != b@);
            }
            return false;
        }
        i = i + 1;
    }
    proof {
        assert(a@ =~= b@);
    }
    true
}

} // verus!
