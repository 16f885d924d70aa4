use semverver::change::{Addition, Removal};
use semverver::{Change, Span};
use std::cmp::Ordering;

fn at(lo: u32, hi: u32, ctxt: u32) -> Span {
    Span::new(lo, hi, ctxt)
}

#[test]
fn span_holds_what_it_was_made_of() {
    let span = Span::new(3, 9, 1);
    assert_eq!(span.lo, 3);
    assert_eq!(span.hi, 9);
    assert_eq!(span.ctxt, 1);
    assert_eq!(span.key(), (3, 9, 1));
    assert_eq!(span, Span { lo: 3, hi: 9, ctxt: 1 });
}

#[test]
fn spans_are_ordered_by_lo_first() {
    assert!(at(1, 9, 9) < at(2, 0, 0));
    assert!(at(2, 0, 0) > at(1, 9, 9));
    assert_eq!(at(1, 9, 9).compare(&at(2, 0, 0)), Ordering::Less);
    assert_eq!(at(2, 0, 0).compare(&at(1, 9, 9)), Ordering::Greater);
}

#[test]
fn spans_with_equal_lo_are_ordered_by_hi() {
    assert!(at(4, 5, 9) < at(4, 6, 0));
    assert_eq!(at(4, 6, 0).compare(&at(4, 5, 9)), Ordering::Greater);
}

#[test]
fn spans_with_equal_bounds_are_ordered_by_context() {
    assert!(at(4, 5, 0) < at(4, 5, 1));
    assert_eq!(at(4, 5, 1).compare(&at(4, 5, 0)), Ordering::Greater);
    assert_eq!(at(4, 5, 1).compare(&at(4, 5, 1)), Ordering::Equal);
    assert_eq!(at(4, 5, 1).partial_cmp(&at(4, 5, 1)), Some(Ordering::Equal));
}

#[test]
fn span_order_holds_at_the_ends_of_the_range() {
    let least = at(0, 0, 0);
    let most = at(u32::MAX, u32::MAX, u32::MAX);
    assert!(least < most);
    assert!(at(0, u32::MAX, u32::MAX) < at(1, 0, 0));
    assert!(at(u32::MAX, u32::MAX, u32::MAX - 1) < most);
    assert_eq!(most.compare(&most), Ordering::Equal);
}

#[test]
fn span_comparison_agrees_with_that_of_its_key() {
    let spans = [at(0, 0, 0), at(0, 0, 1), at(0, 1, 0), at(1, 0, 0), at(1, 1, 1), at(2, 0, 7)];
    for a in spans.iter() {
        for b in spans.iter() {
            assert_eq!(a.compare(b), a.key().cmp(&b.key()));
            assert_eq!(a.partial_cmp(b), Some(a.key().cmp(&b.key())));
            assert_eq!(a.cmp(b), a.key().cmp(&b.key()));
            assert_eq!(a == b, a.key() == b.key());
        }
    }
}

#[test]
fn change_gives_back_what_it_was_made_of() {
    let change = Change::new(Removal, String::from("mod::foo"), at(10, 20, 0));
    assert_eq!(*change.type_(), Removal);
    assert_eq!(change.path(), "mod::foo");
    assert_eq!(*change.span(), at(10, 20, 0));
}

#[test]
fn changes_are_equal_when_their_spans_are() {
    let a = Change::new(Addition, String::from("p1"), at(7, 8, 0));
    let b = Change::new(Removal, String::from("p2"), at(7, 8, 0));
    assert!(a == b);
    assert!(!(a != b));
    assert_eq!(a.cmp(&b), Ordering::Equal);
    assert_eq!(a.partial_cmp(&b), Some(Ordering::Equal));
}

#[test]
fn changes_differ_when_their_spans_do() {
    let a = Change::new(Addition, String::from("p"), at(7, 8, 0));
    let b = Change::new(Addition, String::from("p"), at(7, 8, 1));
    assert!(a != b);
    assert!(!(a == b));
}

#[test]
fn changes_are_ordered_as_their_spans() {
    let early = Change::new(Removal, String::from("z"), at(1, 2, 0));
    let late = Change::new(Addition, String::from("a"), at(3, 4, 0));
    assert!(early < late);
    assert!(late > early);
    assert!(early <= late);
    assert_eq!(early.cmp(&late), Ordering::Less);
    assert_eq!(late.cmp(&early), Ordering::Greater);
    assert_eq!(early.partial_cmp(&late), Some(Ordering::Less));
    assert_eq!(late.partial_cmp(&early), Some(Ordering::Greater));
}
