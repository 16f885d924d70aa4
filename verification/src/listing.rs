//! Listings of changes: sequences in strictly ascending order of span, in
//! which therefore no span occurs twice.

use crate::change::ChangeView;
use crate::span::Span;
use vstd::prelude::*;

verus! {

/// Whether the changes stand in strictly ascending order of their spans.
pub open spec fn ordered(changes: Seq<ChangeView>) -> bool {
    forall|i: int, j: int|
        #![trigger changes[i], changes[j]]
        0 <= i < j < changes.len() ==> changes[i].span.precedes(changes[j].span)
}

/// Whether one of the changes is declared at `span`.
pub open spec fn has_span(changes: Seq<ChangeView>, span: Span) -> bool {
    exists|i: int| 0 <= i < changes.len() && (#[trigger] changes[i]).span == span
}

/// The listing `changes` after `change` was offered to it. Where a change
/// with the same span is listed already, that one stays and the listing is
/// as before; otherwise `change` enters at the place its span gives it.
pub open spec fn insert_change(changes: Seq<ChangeView>, change: ChangeView) -> Seq<ChangeView>
    decreases changes.len(),
{
    if changes.len() == 0 {
        seq![change]
    } else if change.span.precedes(changes[0].span) {
        seq![change] + changes
    } else if change.span == changes[0].span {
        changes
    } else {
        seq![changes[0]] + insert_change(changes.drop_first(), change)
    }
}

/// What follows the first change of a listing is a listing, and all of it
/// comes after the first change.
proof fn lemma_rest(changes: Seq<ChangeView>)
    requires
        ordered(changes),
        changes.len() > 0,
    ensures
        ordered(changes.drop_first()),
        forall|x: ChangeView|
            #![trigger changes.contains(x)]
            #![trigger changes.drop_first().contains(x)]
            changes.contains(x) <==> (x == changes[0] || changes.drop_first().contains(x)),
        forall|x: ChangeView| #[trigger]
            changes.drop_first().contains(x) ==> changes[0].span.precedes(x.span),
        forall|span: Span|
            has_span(changes, span) <==> (span == changes[0].span || has_span(
                changes.drop_first(),
                span,
            )),
{
    let rest = changes.drop_first();
    assert forall|i: int, j: int| 0 <= i < j < rest.len() implies rest[i].span.precedes(
        rest[j].span,
    ) by {
        assert(changes[i + 1].span.precedes(changes[j + 1].span));
    }
    assert forall|x: ChangeView| changes.contains(x) <==> (x == changes[0] || rest.contains(
        x,
    )) by {
        if changes.contains(x) {
            let i = choose|i: int| 0 <= i < changes.len() && changes[i] == x;
            if i > 0 {
                assert(rest[i - 1] == x);
            }
        }
        if rest.contains(x) {
            let i = choose|i: int| 0 <= i < rest.len() && rest[i] == x;
            assert(changes[i + 1] == x);
        }
    }
    assert forall|x: ChangeView| #[trigger] rest.contains(x) implies changes[0].span.precedes(
        x.span,
    ) by {
        let i = choose|i: int| 0 <= i < rest.len() && rest[i] == x;
        assert(changes[0].span.precedes(changes[i + 1].span));
    }
    assert forall|span: Span|
        has_span(changes, span) <==> (span == changes[0].span || has_span(rest, span)) by {
        if has_span(changes, span) {
            let i = choose|i: int| 0 <= i < changes.len() && (#[trigger] changes[i]).span == span;
            if i > 0 {
                assert(rest[i - 1].span == span);
            }
        }
        if has_span(rest, span) {
            let i = choose|i: int| 0 <= i < rest.len() && (#[trigger] rest[i]).span == span;
            assert(changes[i + 1].span == span);
        }
    }
}

/// A change put before a listing all of which comes after it makes a
/// listing.
proof fn lemma_front(first: ChangeView, rest: Seq<ChangeView>)
    requires
        ordered(rest),
        forall|x: ChangeView| #[trigger] rest.contains(x) ==> first.span.precedes(x.span),
    ensures
        ordered(seq![first] + rest),
        forall|x: ChangeView|
            #![trigger (seq![first] + rest).contains(x)]
            #![trigger rest.contains(x)]
            (seq![first] + rest).contains(x) <==> (x == first || rest.contains(x)),
{
    let all = seq![first] + rest;
    assert forall|i: int, j: int| 0 <= i < j < all.len() implies all[i].span.precedes(
        all[j].span,
    ) by {
        assert(rest.contains(rest[j - 1]));
        if i > 0 {
            assert(rest[i - 1].span.precedes(rest[j - 1].span));
        }
    }
    assert forall|x: ChangeView| all.contains(x) <==> (x == first || rest.contains(x)) by {
        if all.contains(x) {
            let i = choose|i: int| 0 <= i < all.len() && all[i] == x;
            if i > 0 {
                assert(rest[i - 1] == x);
            }
        }
        if rest.contains(x) {
            let i = choose|i: int| 0 <= i < rest.len() && rest[i] == x;
            assert(all[i + 1] == x);
        }
        if x == first {
            assert(all[0] == x);
        }
    }
}

/// A listing that is offered a change whose span it holds already stays as
/// it is.
pub proof fn lemma_insert_present(changes: Seq<ChangeView>, change: ChangeView)
    requires
        ordered(changes),
        has_span(changes, change.span),
    ensures
        insert_change(changes, change) == changes,
    decreases changes.len(),
{
    lemma_rest(changes);
    if change.span.precedes(changes[0].span) {
        let i = choose|i: int|
            0 <= i < changes.len() && (#[trigger] changes[i]).span == change.span;
        if i > 0 {
            assert(changes[0].span.precedes(changes[i].span));
        }
    } else if change.span != changes[0].span {
        lemma_insert_present(changes.drop_first(), change);
        assert(seq![changes[0]] + changes.drop_first() =~= changes);
    }
}

/// A listing that is offered a change whose span it does not hold yet gains
/// that change and nothing else, and is in order again.
pub proof fn lemma_insert_absent(changes: Seq<ChangeView>, change: ChangeView)
    requires
        ordered(changes),
        !has_span(changes, change.span),
    ensures
        ordered(insert_change(changes, change)),
        insert_change(changes, change).len() == changes.len() + 1,
        forall|x: ChangeView|
            #![trigger insert_change(changes, change).contains(x)]
            #![trigger changes.contains(x)]
            insert_change(changes, change).contains(x) <==> (changes.contains(x) || x == change),
    decreases changes.len(),
{
    if changes.len() == 0 {
        lemma_front(change, changes);
        assert(seq![change] + changes =~= seq![change]);
    } else {
        lemma_rest(changes);
        if change.span.precedes(changes[0].span) {
            lemma_front(change, changes);
        } else {
            lemma_insert_absent(changes.drop_first(), change);
            lemma_front(changes[0], insert_change(changes.drop_first(), change));
        }
    }
}

/// A listing that is offered a change is in order afterwards, and the spans
/// in it are those it had and the span of the change.
pub proof fn lemma_insert_ordered(changes: Seq<ChangeView>, change: ChangeView)
    requires
        ordered(changes),
    ensures
        ordered(insert_change(changes, change)),
        forall|span: Span|
            has_span(insert_change(changes, change), span) <==> (has_span(changes, span) || span
                == change.span),
    decreases changes.len(),
{
    if changes.len() == 0 {
        assert(insert_change(changes, change)[0] == change);
    } else {
        lemma_rest(changes);
        if has_span(changes, change.span) {
            lemma_insert_present(changes, change);
        } else {
            lemma_insert_absent(changes, change);
            if change.span.precedes(changes[0].span) {
                lemma_rest(insert_change(changes, change));
                assert(insert_change(changes, change).drop_first() =~= changes);
            } else {
                lemma_insert_ordered(changes.drop_first(), change);
                lemma_rest(insert_change(changes, change));
                assert(insert_change(changes, change).drop_first() =~= insert_change(
                    changes.drop_first(),
                    change,
                ));
            }
        }
    }
}

/// A listing is determined by the changes in it: two listings that hold the
/// same changes are the same sequence.
pub proof fn lemma_ordered_unique(a: Seq<ChangeView>, b: Seq<ChangeView>)
    requires
        ordered(a),
        ordered(b),
        forall|x: ChangeView| a.contains(x) <==> b.contains(x),
    ensures
        a == b,
    decreases a.len(),
{
    if a.len() == 0 {
        if b.len() > 0 {
            assert(b.contains(b[0]));
        }
        assert(a =~= b);
    } else {
        assert(a.contains(a[0]));
        assert(b.contains(b[0]));
        lemma_rest(a);
        lemma_rest(b);
        assert(a[0] == b[0]);
        assert forall|x: ChangeView| a.drop_first().contains(x) <==> b.drop_first().contains(
            x,
        ) by {
            assert(a.contains(x) <==> b.contains(x));
        }
        lemma_ordered_unique(a.drop_first(), b.drop_first());
        assert(a =~= seq![a[0]] + a.drop_first());
        assert(b =~= seq![b[0]] + b.drop_first());
    }
}

} // verus!
