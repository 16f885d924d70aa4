//! Classification and aggregation of the changes found between two versions
//! of a library's public interface.
//!
//! Every change has a kind, the path of the item it concerns and the span
//! at which that item is declared. A [`ChangeSet`] collects changes as they
//! are found, in any order: it keeps one change for each span, in ascending
//! order of span, and the most severe [`ChangeCategory`] among all the
//! changes that were added to it.

pub mod category;
pub mod change;
pub mod change_set;
pub mod laws;
pub mod listing;
pub mod render;
pub mod span;

pub use category::ChangeCategory;
pub use change::Change;
pub use change::ChangeType;
pub use change_set::ChangeSet;
pub use span::Span;
