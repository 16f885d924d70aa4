//! What holds of the categories and of sets of changes in general.

use crate::category::ChangeCategory;
use crate::change::ChangeView;
use crate::change_set::is_report;
use crate::change_set::ChangeSetView;
use crate::listing::has_span;
use crate::listing::insert_change;
use crate::listing::lemma_insert_absent;
use crate::listing::lemma_insert_ordered;
use crate::listing::lemma_insert_present;
use crate::listing::lemma_ordered_unique;
use crate::span::Span;
use core::cmp::Ordering;
use vstd::prelude::*;
use vstd::std_specs::cmp::OrdSpec;
use vstd::std_specs::cmp::PartialOrdSpec;

verus! {

/// Whether `a` is less severe than `b`, as `<` has it.
pub open spec fn less(a: ChangeCategory, b: ChangeCategory) -> bool {
    a.partial_cmp_spec(&b) == Some(Ordering::Less)
}

/// The categories ascend from `Patch` over `NonBreaking` and
/// `TechnicallyBreaking` to `Breaking`: each is less than every later one.
pub proof fn lemma_category_chain()
    ensures
        less(ChangeCategory::Patch, ChangeCategory::NonBreaking),
        less(ChangeCategory::Patch, ChangeCategory::TechnicallyBreaking),
        less(ChangeCategory::Patch, ChangeCategory::Breaking),
        less(ChangeCategory::NonBreaking, ChangeCategory::TechnicallyBreaking),
        less(ChangeCategory::NonBreaking, ChangeCategory::Breaking),
        less(ChangeCategory::TechnicallyBreaking, ChangeCategory::Breaking),
{
}

/// The order of the categories is total and is that of their ranks: of two
/// categories exactly one of less, equal and greater holds, a category is
/// equal to itself and to no other, greater is less read backwards, and less
/// is transitive.
pub proof fn lemma_category_order(a: ChangeCategory, b: ChangeCategory, c: ChangeCategory)
    ensures
        a.partial_cmp_spec(&a) == Some(Ordering::Equal),
        a.partial_cmp_spec(&b) == Some(Ordering::Equal) <==> a == b,
        a.partial_cmp_spec(&b) == Some(Ordering::Greater) <==> less(b, a),
        less(a, b) || a == b || less(b, a),
        less(a, b) <==> a.rank() < b.rank(),
        less(a, b) && less(b, c) ==> less(a, c),
{
}

/// The more severe of two categories is one of the two and at least as
/// severe as either; which of the two comes first makes no difference.
pub proof fn lemma_join(a: ChangeCategory, b: ChangeCategory)
    ensures
        a.join(b) == a || a.join(b) == b,
        a.join(b).rank() >= a.rank(),
        a.join(b).rank() >= b.rank(),
        a.join(b) == b.join(a),
{
}

/// Spans are totally ordered: no span comes before itself, of two different
/// spans one comes before the other, and coming before is transitive. The
/// order is that of their keys, and a span is known by its key.
pub proof fn lemma_span_order(a: Span, b: Span, c: Span)
    ensures
        !a.precedes(a),
        a.precedes(b) || a == b || b.precedes(a),
        !(a.precedes(b) && b.precedes(a)),
        a.precedes(b) && b.precedes(c) ==> a.precedes(c),
        a.key() == b.key() <==> a == b,
        a.key().cmp_spec(&b.key()) == a.order(b),
        a.partial_cmp_spec(&b) == Some(a.order(b)),
{
}

/// Adding a change never lowers the maximum.
pub proof fn lemma_max_never_falls(set: ChangeSetView, change: ChangeView)
    ensures
        set.add_change(change).max.rank() >= set.max.rank(),
{
}

/// While changes are added one after another, the maximum after each is at
/// least what it was before it.
pub proof fn lemma_max_rises_stepwise(set: ChangeSetView, changes: Seq<ChangeView>, n: int)
    requires
        0 <= n < changes.len(),
    ensures
        set.add_changes(changes.take(n + 1)).max.rank() >= set.add_changes(
            changes.take(n),
        ).max.rank(),
{
    assert(changes.take(n + 1).drop_last() == changes.take(n));
}

/// After changes were added, the maximum is the most severe among the
/// maximum before and the categories of all the changes, those that were not
/// kept too: it is at least as severe as each of them, and it is one of them.
pub proof fn lemma_max_of_all(set: ChangeSetView, changes: Seq<ChangeView>)
    ensures
        set.add_changes(changes).max.rank() >= set.max.rank(),
        forall|i: int|
            #![trigger changes[i]]
            0 <= i < changes.len() ==> set.add_changes(changes).max.rank()
                >= changes[i].change_type.to_category().rank(),
        set.add_changes(changes).max == set.max || exists|i: int|
            #![trigger changes[i]]
            0 <= i < changes.len() && set.add_changes(changes).max
                == changes[i].change_type.to_category(),
    decreases changes.len(),
{
    if changes.len() > 0 {
        let front = changes.drop_last();
        let end = set.add_changes(changes);
        lemma_max_of_all(set, front);
        assert forall|i: int|
            #![trigger changes[i]]
            0 <= i < changes.len() implies end.max.rank()
            >= changes[i].change_type.to_category().rank() by {
            if i < front.len() {
                assert(front[i] == changes[i]);
            }
        }
        if end.max != set.max {
            if end.max == changes.last().change_type.to_category() {
                assert(changes[changes.len() - 1] == changes.last());
            } else {
                let i = choose|i: int|
                    #![trigger front[i]]
                    0 <= i < front.len() && set.add_changes(front).max
                        == front[i].change_type.to_category();
                assert(front[i] == changes[i]);
            }
        }
    }
}

/// With nothing added before, the maximum is `Patch` where no change was
/// added, and else the most severe category among the changes.
pub proof fn lemma_max_from_empty(changes: Seq<ChangeView>)
    ensures
        changes.len() == 0 ==> ChangeSetView::empty().add_changes(changes).max
            == ChangeCategory::Patch,
        forall|i: int|
            #![trigger changes[i]]
            0 <= i < changes.len() ==> ChangeSetView::empty().add_changes(changes).max.rank()
                >= changes[i].change_type.to_category().rank(),
        changes.len() > 0 ==> exists|i: int|
            #![trigger changes[i]]
            0 <= i < changes.len() && ChangeSetView::empty().add_changes(changes).max
                == changes[i].change_type.to_category(),
{
    lemma_max_of_all(ChangeSetView::empty(), changes);
    if changes.len() > 0 {
        assert(changes[0].change_type.to_category().rank() > 0);
    }
}

/// A change whose span the set holds already is not kept: the changes are
/// as before, the first one at that span among them. Its category enters
/// into the maximum all the same.
pub proof fn lemma_keeps_first(set: ChangeSetView, change: ChangeView)
    requires
        set.valid(),
        has_span(set.changes, change.span),
    ensures
        set.add_change(change).changes == set.changes,
        set.add_change(change).max == set.max.join(change.change_type.to_category()),
{
    lemma_insert_present(set.changes, change);
}

/// A change whose span the set does not hold yet is kept, beside all that
/// the set held.
pub proof fn lemma_keeps_new(set: ChangeSetView, change: ChangeView)
    requires
        set.valid(),
        !has_span(set.changes, change.span),
    ensures
        set.add_change(change).changes.len() == set.changes.len() + 1,
        forall|x: ChangeView|
            #![trigger set.add_change(change).changes.contains(x)]
            #![trigger set.changes.contains(x)]
            set.add_change(change).changes.contains(x) <==> (set.changes.contains(x) || x
                == change),
{
    lemma_insert_absent(set.changes, change);
}

/// The changes of a set stay in ascending order of span whatever is added.
pub proof fn lemma_stays_valid(set: ChangeSetView, change: ChangeView)
    requires
        set.valid(),
    ensures
        set.add_change(change).valid(),
{
    lemma_insert_ordered(set.changes, change);
}

/// The changes of a set stay in ascending order of span however many are
/// added, and in whatever order.
pub proof fn lemma_stay_valid(set: ChangeSetView, changes: Seq<ChangeView>)
    requires
        set.valid(),
    ensures
        set.add_changes(changes).valid(),
    decreases changes.len(),
{
    if changes.len() > 0 {
        lemma_stay_valid(set, changes.drop_last());
        lemma_stays_valid(set.add_changes(changes.drop_last()), changes.last());
    }
}

/// Two changes with different spans that are added to the empty set are
/// listed in the order of their spans, whichever of them was added first.
pub proof fn lemma_listed_by_span(early: ChangeView, late: ChangeView)
    requires
        early.span.precedes(late.span),
    ensures
        ChangeSetView::empty().add_change(late).add_change(early).changes == seq![early, late],
        ChangeSetView::empty().add_change(early).add_change(late).changes == seq![early, late],
{
    let none = Seq::<ChangeView>::empty();
    assert(insert_change(none, late) == seq![late]);
    assert(insert_change(none, early) == seq![early]);
    assert(seq![early] + seq![late] =~= seq![early, late]);
    assert(seq![early].drop_first() =~= none);
    assert(insert_change(seq![early], late) == seq![early] + insert_change(none, late));
}

/// Two changes with different spans can be added in either order: the set
/// is the same afterwards.
pub proof fn lemma_order_of_adding(set: ChangeSetView, a: ChangeView, b: ChangeView)
    requires
        set.valid(),
        a.span != b.span,
    ensures
        set.add_change(a).add_change(b) == set.add_change(b).add_change(a),
{
    let s = set.changes;
    let sa = insert_change(s, a);
    let sb = insert_change(s, b);
    let sab = insert_change(sa, b);
    let sba = insert_change(sb, a);
    lemma_insert_ordered(s, a);
    lemma_insert_ordered(s, b);
    lemma_insert_ordered(sa, b);
    lemma_insert_ordered(sb, a);
    if has_span(s, a.span) {
        lemma_insert_present(s, a);
        lemma_insert_present(sb, a);
    } else {
        lemma_insert_absent(s, a);
        lemma_insert_absent(sb, a);
    }
    if has_span(s, b.span) {
        lemma_insert_present(s, b);
        lemma_insert_present(sa, b);
    } else {
        lemma_insert_absent(s, b);
        lemma_insert_absent(sa, b);
    }
    lemma_ordered_unique(sab, sba);
    lemma_join(a.change_type.to_category(), b.change_type.to_category());
}

/// A set has one report: what two readings of the same set give is equal.
pub proof fn lemma_one_report(
    set: ChangeSetView,
    first: (ChangeCategory, Seq<ChangeView>),
    second: (ChangeCategory, Seq<ChangeView>),
)
    requires
        is_report(first, set),
        is_report(second, set),
    ensures
        first == second,
{
}

} // verus!
