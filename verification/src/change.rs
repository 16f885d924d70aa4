//! Single changes: what kind of change, to which item, declared where.

pub use self::ChangeType::Addition;
pub use self::ChangeType::Removal;
use crate::category::ChangeCategory;
use crate::span::Span;
use core::cmp::Ordering;
use vstd::prelude::*;
use vstd::std_specs::cmp::PartialEqSpecImpl;
use vstd::std_specs::cmp::PartialOrdSpecImpl;

verus! {

/// The kinds of change that can be found between two versions.
#[derive(Clone, Copy, Debug, PartialEq, Eq, Structural)]
pub enum ChangeType {
    /// An item that was exported is gone.
    Removal,
    /// An item is exported that was not there before.
    Addition,
}

impl ChangeType {
    /// The name of the kind, as it is printed.
    pub open spec fn spec_name(&self) -> Seq<char> {
        match *self {
            ChangeType::Removal => "Removal"@,
            ChangeType::Addition => "Addition"@,
        }
    }

    /// The name of the kind, as it is printed.
    pub fn name(&self) -> (name: &'static str)
        ensures
            name@ == self.spec_name(),
    {
        match *self {
            ChangeType::Removal => "Removal",
            ChangeType::Addition => "Addition",
        }
    }

    /// The severity of a change of this kind.
    pub open spec fn spec_to_category(&self) -> ChangeCategory {
        match *self {
            ChangeType::Removal => ChangeCategory::Breaking,
            ChangeType::Addition => ChangeCategory::TechnicallyBreaking,
        }
    }

    /// The severity of a change of this kind: a removal is breaking, an
    /// addition is technically breaking.
    #[verifier::when_used_as_spec(spec_to_category)]
    pub fn to_category(&self) -> (category: ChangeCategory)
        ensures
            category == self.spec_to_category(),
            *self == ChangeType::Removal ==> category == ChangeCategory::Breaking,
            *self == ChangeType::Addition ==> category == ChangeCategory::TechnicallyBreaking,
    {
        match *self {
            ChangeType::Removal => ChangeCategory::Breaking,
            ChangeType::Addition => ChangeCategory::TechnicallyBreaking,
        }
    }
}

/// What a [`Change`] holds, as mathematical values.
pub struct ChangeView {
    /// The kind of the change.
    pub change_type: ChangeType,
    /// The path of the changed item, as it is printed.
    pub path: Seq<char>,
    /// Where the changed item is declared.
    pub span: Span,
}

/// A change to one item of the public interface.
///
/// Two changes are equal when their spans are equal, and they are ordered
/// as their spans are: what kind of change it is and which path it has do not
/// enter into either.
#[derive(Debug)]
pub struct Change {
    /// The kind of the change.
    change_type: ChangeType,
    /// The path of the changed item, as it is printed.
    path: String,
    /// Where the changed item is declared.
    span: Span,
}

impl View for Change {
    type V = ChangeView;

    closed spec fn view(&self) -> ChangeView {
        ChangeView { change_type: self.change_type, path: self.path@, span: self.span }
    }
}

impl Change {
    /// A change of the given kind to the item at `path`, declared at `span`.
    pub fn new(change_type: ChangeType, path: String, span: Span) -> (change: Change)
        ensures
            change@ == (ChangeView { change_type, path: path@, span }),
    {
        Change { change_type, path, span }
    }

    /// Where the changed item is declared.
    pub fn span(&self) -> (span: &Span)
        ensures
            *span == self@.span,
    {
        &self.span
    }

    /// The kind of the change.
    pub fn type_(&self) -> (change_type: &ChangeType)
        ensures
            *change_type == self@.change_type,
    {
        &self.change_type
    }

    /// The path of the changed item.
    pub fn path(&self) -> (path: &str)
        ensures
            path@ == self@.path,
    {
        self.path.as_str()
    }

    /// How the change stands to `other` in the order of their spans.
    pub fn cmp(&self, other: &Change) -> (o: Ordering)
        ensures
            o == self@.span.order(other@.span),
    {
        self.span.compare(&other.span)
    }
}

impl PartialEq for Change {
    fn eq(&self, other: &Change) -> (r: bool) {
        self.span == other.span
    }
}

impl PartialEqSpecImpl for Change {
    open spec fn obeys_eq_spec() -> bool {
        true
    }

    open spec fn eq_spec(&self, other: &Change) -> bool {
        self@.span == other@.span
    }
}

impl Eq for Change {

}

impl PartialOrd for Change {
    fn partial_cmp(&self, other: &Change) -> (r: Option<Ordering>) {
        Some(self.span.compare(&other.span))
    }
}

impl PartialOrdSpecImpl for Change {
    open spec fn obeys_partial_cmp_spec() -> bool {
        true
    }

    open spec fn partial_cmp_spec(&self, other: &Change) -> Option<Ordering> {
        Some(self@.span.order(other@.span))
    }
}

} // verus!
