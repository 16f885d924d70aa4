//! Source locations, by which changes are ordered and told apart.

use core::cmp::Ordering;
use vstd::prelude::*;
use vstd::std_specs::cmp::PartialOrdSpecImpl;

verus! {

/// The place in the source where an item is declared: the byte range of the
/// declaration and the syntax context it was expanded in.
///
/// Spans are totally ordered: by `lo`, then by `hi`, then by `ctxt`.
#[derive(Clone, Copy, Debug, PartialEq, Eq, Ord, Hash, Structural)]
pub struct Span {
    /// The offset of the first byte of the declaration.
    pub lo: u32,
    /// The offset of the byte after the declaration.
    pub hi: u32,
    /// The syntax context of the declaration.
    pub ctxt: u32,
}

impl Span {
    /// The span with the given bounds and syntax context.
    pub fn new(lo: u32, hi: u32, ctxt: u32) -> (span: Span)
        ensures
            span == (Span { lo, hi, ctxt }),
    {
        Span { lo, hi, ctxt }
    }

    /// The three numbers of the span in the order in which they are compared.
    pub open spec fn spec_key(&self) -> (u32, u32, u32) {
        (self.lo, self.hi, self.ctxt)
    }

    /// The three numbers of the span in the order in which they are compared.
    #[verifier::when_used_as_spec(spec_key)]
    pub fn key(&self) -> (k: (u32, u32, u32))
        ensures
            k == self.spec_key(),
    {
        (self.lo, self.hi, self.ctxt)
    }

    /// Whether the span comes strictly before `other`.
    pub open spec fn precedes(self, other: Span) -> bool {
        ||| self.lo < other.lo
        ||| self.lo == other.lo && self.hi < other.hi
        ||| self.lo == other.lo && self.hi == other.hi && self.ctxt < other.ctxt
    }

    /// How the span stands to `other`: before it, equal to it, or after it.
    pub open spec fn order(self, other: Span) -> Ordering {
        if self.precedes(other) {
            Ordering::Less
        } else if self == other {
            Ordering::Equal
        } else {
            Ordering::Greater
        }
    }

    /// How the span stands to `other`: before it, equal to it, or after it.
    pub fn compare(&self, other: &Span) -> (o: Ordering)
        ensures
            o == self.order(*other),
    {
        if self.lo < other.lo {
            Ordering::Less
        } else if self.lo > other.lo {
            Ordering::Greater
        } else if self.hi < other.hi {
            Ordering::Less
        } else if self.hi > other.hi {
            Ordering::Greater
        } else if self.ctxt < other.ctxt {
            Ordering::Less
        } else if self.ctxt > other.ctxt {
            Ordering::Greater
        } else {
            Ordering::Equal
        }
    }
}

impl PartialOrd for Span {
    fn partial_cmp(&self, other: &Span) -> (r: Option<Ordering>) {
        Some(self.compare(other))
    }
}

impl PartialOrdSpecImpl for Span {
    open spec fn obeys_partial_cmp_spec() -> bool {
        true
    }

    open spec fn partial_cmp_spec(&self, other: &Span) -> Option<Ordering> {
        Some(self.order(*other))
    }
}

} // verus!
