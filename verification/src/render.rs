//! The report on a set of changes as text.

use crate::category::ChangeCategory;
use crate::change::ChangeView;
use crate::change_set::ChangeSetView;
use vstd::prelude::*;

verus! {

/// The line of the report that gives the maximum.
pub open spec fn render_max(max: ChangeCategory) -> Seq<char> {
    "max: "@ + max.spec_name() + "\n"@
}

/// The line of the report that stands for one change: indented by two
/// spaces, the kind of the change, a colon and a space, and the path.
pub open spec fn render_change(change: ChangeView) -> Seq<char> {
    "  "@ + change.change_type.spec_name() + ": "@ + change.path + "\n"@
}

/// The lines that stand for the given changes, in their order.
pub open spec fn render_changes(changes: Seq<ChangeView>) -> Seq<char>
    decreases changes.len(),
{
    if changes.len() == 0 {
        Seq::empty()
    } else {
        render_changes(changes.drop_last()) + render_change(changes.last())
    }
}

/// The report: the line of the maximum, then one line for each change that
/// was kept, in ascending order of span. Every line ends in a line feed.
pub open spec fn render(set: ChangeSetView) -> Seq<char> {
    render_max(set.max) + render_changes(set.changes)
}

} // verus!
