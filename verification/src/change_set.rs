//! The set of changes found in one comparison, with the worst category seen.

use crate::category::ChangeCategory;
use crate::change::Change;
use crate::change::ChangeView;
use crate::listing::has_span;
use crate::listing::insert_change;
use crate::listing::lemma_insert_absent;
use crate::listing::lemma_insert_present;
use crate::listing::lemma_ordered_unique;
use crate::listing::ordered;
use crate::render::render;
use crate::render::render_changes;
use std::collections::BTreeMap;
use vstd::prelude::*;
use vstd::std_specs::btree::increasing_seq;
use vstd::std_specs::cmp::OrdSpec;
use vstd::std_specs::iter::IteratorSpec;
use vstd::string::StringExecFns;

verus! {

/// What a [`ChangeSet`] holds, as mathematical values.
pub struct ChangeSetView {
    /// The most severe category among the changes that were added.
    pub max: ChangeCategory,
    /// The changes that were kept, in ascending order of span.
    pub changes: Seq<ChangeView>,
}

impl ChangeSetView {
    /// The set before anything was added: no change, and the least category.
    pub open spec fn empty() -> ChangeSetView {
        ChangeSetView { max: ChangeCategory::Patch, changes: Seq::empty() }
    }

    /// Whether the changes stand in strictly ascending order of span, as
    /// they do in the view of every [`ChangeSet`].
    pub open spec fn valid(self) -> bool {
        ordered(self.changes)
    }

    /// The set after `change` was added. The category of `change` enters
    /// into the maximum whether or not the change itself is kept.
    pub open spec fn add_change(self, change: ChangeView) -> ChangeSetView {
        ChangeSetView {
            max: self.max.join(change.change_type.to_category()),
            changes: insert_change(self.changes, change),
        }
    }

    /// The set after each of `changes` was added, the first of them first.
    pub open spec fn add_changes(self, changes: Seq<ChangeView>) -> ChangeSetView
        decreases changes.len(),
    {
        if changes.len() == 0 {
            self
        } else {
            self.add_changes(changes.drop_last()).add_change(changes.last())
        }
    }
}

/// The changes found in one comparison of two versions: at most one for each
/// span, in ascending order of span, and the most severe category of all that
/// were added.
pub struct ChangeSet {
    /// The changes that were kept, each under the key of its span.
    changes: BTreeMap<(u32, u32, u32), Change>,
    /// The most severe category among the changes that were added.
    max: ChangeCategory,
    /// The changes that were kept, in ascending order of span.
    listing: Ghost<Seq<ChangeView>>,
}

impl View for ChangeSet {
    type V = ChangeSetView;

    closed spec fn view(&self) -> ChangeSetView {
        ChangeSetView { max: self.max, changes: self.listing@ }
    }
}

impl ChangeSet {
    /// Whether the set is in a consistent state: the map holds each change
    /// under the key of its span, and the changes in it are those of the
    /// view. The set that [`ChangeSet::new`] returns is, and
    /// [`ChangeSet::add_change`] keeps it so.
    pub closed spec fn wf(&self) -> bool {
        &&& ordered(self.listing@)
        &&& forall|x: ChangeView| #[trigger]
            self.listing@.contains(x) ==> self.changes@.contains_key(x.span.key())
                && self.changes@[x.span.key()]@ == x
        &&& forall|k: (u32, u32, u32)| #[trigger]
            self.changes@.contains_key(k) ==> self.changes@[k]@.span.key() == k
                && self.listing@.contains(self.changes@[k]@)
    }

    /// The changes of a consistent set stand in ascending order of span.
    pub proof fn lemma_valid(self)
        requires
            self.wf(),
        ensures
            self@.valid(),
    {
    }

    /// The empty set.
    pub fn new() -> (set: ChangeSet)
        ensures
            set.wf(),
            set@ == ChangeSetView::empty(),
    {
        ChangeSet {
            changes: BTreeMap::new(),
            max: ChangeCategory::Patch,
            listing: Ghost(Seq::empty()),
        }
    }

    /// Adds a change to the set. The maximum rises to the category of the
    /// change where that is more severe. The change is kept unless the set
    /// holds a change with the same span already.
    pub fn add_change(&mut self, change: Change)
        requires
            old(self).wf(),
        ensures
            final(self).wf(),
            final(self)@ == old(self)@.add_change(change@),
            final(self)@.max.rank() >= old(self)@.max.rank(),
    {
        let category = change.type_().to_category();
        if category > self.max {
            self.max = category;
        }
        let key = change.span().key();
        if !self.changes.contains_key(&key) {
            proof {
                if has_span(self.listing@, change@.span) {
                    let i = choose|i: int|
                        0 <= i < self.listing@.len() && (#[trigger] self.listing@[i]).span
                            == change@.span;
                    assert(self.listing@.contains(self.listing@[i]));
                }
                lemma_insert_absent(self.listing@, change@);
                self.listing = Ghost(insert_change(self.listing@, change@));
            }
            self.changes.insert(key, change);
        } else {
            proof {
                lemma_insert_present(self.listing@, change@);
            }
        }
    }

    /// The maximum and the changes that were kept, in ascending order of
    /// span.
    pub fn report(&self) -> (r: (ChangeCategory, Vec<&Change>))
        requires
            self.wf(),
        ensures
            is_report((r.0, views(r.1@)), self@),
            ordered(views(r.1@)),
    {
        let mut out: Vec<&Change> = Vec::new();
        let ghost all = self.changes.iter().remaining();
        for entry in it: self.changes.iter()
            invariant
                it.seq() == all,
                increasing_seq(all.map_values(|kv: (&(u32, u32, u32), &Change)| *kv.0)),
                out@.len() == it.index(),
                forall|j: int| 0 <= j < out@.len() ==> out@[j] == all[j].1,
        {
            out.push(entry.1);
        }
        proof {
            // What was found is in order, as the keys the map is walked by
            // are, and holds the same changes as the listing: so it is the
            // listing.
            let found = views(out@);
            let keys = all.map_values(|kv: (&(u32, u32, u32), &Change)| *kv.0);
            assert forall|i: int, j: int| 0 <= i < j < found.len() implies found[i].span.precedes(
                found[j].span,
            ) by {
                assert(self.changes@.contains_key(*all[i].0));
                assert(self.changes@.contains_key(*all[j].0));
                assert(keys[i].cmp_spec(&keys[j]) is Less);
            }
            assert forall|x: ChangeView| found.contains(x) <==> self.listing@.contains(x) by {
                if found.contains(x) {
                    let i = choose|i: int| 0 <= i < found.len() && found[i] == x;
                    assert(self.changes@.contains_key(*all[i].0));
                }
                if self.listing@.contains(x) {
                    let k = x.span.key();
                    assert(self.changes@.contains_key(k));
                    assert(all.contains((&k, &self.changes@[k])));
                    let i = choose|i: int|
                        0 <= i < all.len() && all[i] == (&k, &self.changes@[k]);
                    assert(found[i] == x);
                }
            }
            lemma_ordered_unique(found, self.listing@);
        }
        (self.max, out)
    }

    /// The report on the set as text, to be printed as it is: the maximum
    /// in a line of its own, then a line for each change that was kept.
    pub fn output(&self) -> (text: String)
        requires
            self.wf(),
        ensures
            text@ == render(self@),
    {
        let (max, changes) = self.report();
        let mut text = String::new();
        text.append("max: ");
        text.append(max.name());
        text.append("\n");
        let ghost head = text@;
        for i in 0..changes.len()
            invariant
                views(changes@) == self@.changes,
                text@ == head + render_changes(self@.changes.take(i as int)),
        {
            let change = changes[i];
            proof {
                assert(self@.changes.take(i + 1).drop_last() == self@.changes.take(i as int));
                assert(self@.changes.take(i + 1).last() == change@);
            }
            text.append("  ");
            text.append(change.type_().name());
            text.append(": ");
            text.append(change.path());
            text.append("\n");
        }
        proof {
            assert(self@.changes.take(changes.len() as int) == self@.changes);
        }
        text
    }
}

/// Whether `report` is what [`ChangeSet::report`] gives of a set with the
/// view `set`: its maximum, and its changes in their order.
pub open spec fn is_report(
    report: (ChangeCategory, Seq<ChangeView>),
    set: ChangeSetView,
) -> bool {
    report.0 == set.max && report.1 == set.changes
}

/// The views of the changes that a sequence of references points to.
pub open spec fn views(changes: Seq<&Change>) -> Seq<ChangeView> {
    changes.map_values(|c: &Change| c@)
}

} // verus!
