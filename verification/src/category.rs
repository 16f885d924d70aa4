//! The severity categories a change can fall into.

pub use self::ChangeCategory::Breaking;
pub use self::ChangeCategory::NonBreaking;
pub use self::ChangeCategory::Patch;
pub use self::ChangeCategory::TechnicallyBreaking;
use core::cmp::Ordering;
use vstd::prelude::*;
use vstd::std_specs::cmp::PartialOrdSpecImpl;

verus! {

/// How severe a change is for users of the library, from least to most
/// disruptive. The order of the variants is the order of severity: it is
/// spelled out by [`ChangeCategory::rank`], and `<` compares ranks.
#[derive(Clone, Copy, Debug, PartialEq, Eq, Ord, Structural)]
pub enum ChangeCategory {
    /// No effect on the public interface.
    Patch,
    /// A change that cannot break any user.
    NonBreaking,
    /// A change that breaks users only in unusual circumstances.
    TechnicallyBreaking,
    /// A change that breaks users.
    Breaking,
}

impl ChangeCategory {
    /// The position of the category in the severity order.
    pub open spec fn spec_rank(&self) -> u8 {
        match *self {
            ChangeCategory::Patch => 0,
            ChangeCategory::NonBreaking => 1,
            ChangeCategory::TechnicallyBreaking => 2,
            ChangeCategory::Breaking => 3,
        }
    }

    /// The position of the category in the severity order.
    #[verifier::when_used_as_spec(spec_rank)]
    pub fn rank(&self) -> (r: u8)
        ensures
            r == self.spec_rank(),
    {
        match *self {
            ChangeCategory::Patch => 0,
            ChangeCategory::NonBreaking => 1,
            ChangeCategory::TechnicallyBreaking => 2,
            ChangeCategory::Breaking => 3,
        }
    }

    /// The name of the category, as it is printed.
    pub open spec fn spec_name(&self) -> Seq<char> {
        match *self {
            ChangeCategory::Patch => "Patch"@,
            ChangeCategory::NonBreaking => "NonBreaking"@,
            ChangeCategory::TechnicallyBreaking => "TechnicallyBreaking"@,
            ChangeCategory::Breaking => "Breaking"@,
        }
    }

    /// The name of the category, as it is printed.
    pub fn name(&self) -> (name: &'static str)
        ensures
            name@ == self.spec_name(),
    {
        match *self {
            ChangeCategory::Patch => "Patch",
            ChangeCategory::NonBreaking => "NonBreaking",
            ChangeCategory::TechnicallyBreaking => "TechnicallyBreaking",
            ChangeCategory::Breaking => "Breaking",
        }
    }

    /// The more severe of two categories.
    pub open spec fn spec_join(self, other: ChangeCategory) -> ChangeCategory {
        if other.rank() > self.rank() {
            other
        } else {
            self
        }
    }

    /// The more severe of two categories.
    #[verifier::when_used_as_spec(spec_join)]
    pub fn join(self, other: ChangeCategory) -> (r: ChangeCategory)
        ensures
            r == self.spec_join(other),
    {
        if other > self {
            other
        } else {
            self
        }
    }
}

impl PartialOrd for ChangeCategory {
    fn partial_cmp(&self, other: &ChangeCategory) -> (r: Option<Ordering>) {
        let a: u8 = self.rank();
        let b: u8 = other.rank();
        if a < b {
            Some(Ordering::Less)
        } else if a == b {
            Some(Ordering::Equal)
        } else {
            Some(Ordering::Greater)
        }
    }
}

impl PartialOrdSpecImpl for ChangeCategory {
    open spec fn obeys_partial_cmp_spec() -> bool {
        true
    }

    open spec fn partial_cmp_spec(&self, other: &ChangeCategory) -> Option<Ordering> {
        if self.rank() < other.rank() {
            Some(Ordering::Less)
        } else if self.rank() == other.rank() {
            Some(Ordering::Equal)
        } else {
            Some(Ordering::Greater)
        }
    }
}

} // verus!
