//! Outcome type shared by every parser of the response grammar.
//!
//! Each parser examines the input from a position and either matches a
//! grammar unit (yielding the decoded value and the index just past the
//! consumed bytes), reports that the buffered input is too short to decide,
//! or fails. The distinction between "need more bytes" and "malformed" is
//! essential for a streaming decoder: a response unit may span partial
//! reads, and an incomplete unit must simply be retried once more bytes
//! are buffered.

use vstd::prelude::*;

verus! {

/// Executable outcome of one parser.
#[derive(Debug, PartialEq, Eq, Clone)]
pub enum Parsed<T> {
    /// The unit matched: `next` is the index just past the consumed bytes.
    Match { next: usize, val: T },
    /// The buffered input ends before this unit can be decided.
    Incomplete,
    /// The input at this position is not this unit.
    Fail,
}

/// Specification-level outcome: the mathematical mirror of `Parsed`,
/// over unbounded positions and view values.
pub ghost enum SpecParsed<V> {
    Match { next: int, val: V },
    Incomplete,
    Fail,
}

/// Connects an executable outcome to its specification mirror: same case,
/// and on a match the same end position and the same (deeply viewed) value.
pub open spec fn parsed_matches<T: DeepView>(r: Parsed<T>, s: SpecParsed<
    <T as DeepView>::V,
>) -> bool {
    match r {
        Parsed::Match { next, val } => s matches SpecParsed::Match { next: n, val: v } && n
            == next && val.deep_view() == v,
        Parsed::Incomplete => s is Incomplete,
        Parsed::Fail => s is Fail,
    }
}

/// Bounds every parser guarantees: a match ends within the input and
/// not before its starting position.
pub open spec fn in_bounds<T>(r: Parsed<T>, pos: int, len: int) -> bool {
    r matches Parsed::Match { next, .. } ==> pos <= next <= len
}

/// A token parser's match consumes at least one byte.
pub open spec fn progress<T>(r: Parsed<T>, pos: int) -> bool {
    r matches Parsed::Match { next, .. } ==> next > pos
}

/// Ordered choice: the second alternative is tried only where the first
/// fails outright; an incomplete first alternative stays incomplete.
pub open spec fn sp_alt<V>(a: SpecParsed<V>, b: SpecParsed<V>) -> SpecParsed<V> {
    match a {
        SpecParsed::Fail => b,
        o => o,
    }
}

/// Prepends already-accumulated elements to the value of a list outcome.
pub open spec fn sp_prepend<E>(a: Seq<E>, sp: SpecParsed<Seq<E>>) -> SpecParsed<Seq<E>> {
    match sp {
        SpecParsed::Match { next, val } => SpecParsed::Match { next, val: a + val },
        SpecParsed::Incomplete => SpecParsed::Incomplete,
        SpecParsed::Fail => SpecParsed::Fail,
    }
}

/// Folding one more element into the accumulated prefix of a list.
pub proof fn lemma_prepend_step<E>(a: Seq<E>, x: E, sp: SpecParsed<Seq<E>>)
    ensures
        sp_prepend(a, sp_prepend(seq![x], sp)) == sp_prepend(a.push(x), sp),
{
    match sp {
        SpecParsed::Match { val, .. } => {
            assert(a + (seq![x] + val) =~= a.push(x) + val);
        },
        _ => {},
    }
}

/// A list that ends here is exactly the accumulated prefix.
pub proof fn lemma_prepend_empty<E>(a: Seq<E>, n: int)
    ensures
        sp_prepend(a, (SpecParsed::Match { next: n, val: Seq::<E>::empty() })) == (
        SpecParsed::<Seq<E>>::Match { next: n, val: a }),
{
    assert(a + Seq::<E>::empty() =~= a);
}

/// Prepending nothing changes nothing.
pub proof fn lemma_prepend_nil<E>(sp: SpecParsed<Seq<E>>)
    ensures
        sp_prepend(Seq::<E>::empty(), sp) == sp,
{
    match sp {
        SpecParsed::Match { val, .. } => {
            assert(Seq::<E>::empty() + val =~= val);
        },
        _ => {},
    }
}

/// A byte vector's deep view is its view.
pub broadcast proof fn lemma_bytes_deep_view(v: Vec<u8>)
    ensures
        #[trigger] v.deep_view() == v@,
{
    assert(v.deep_view() =~= v@);
}

} // verus!
