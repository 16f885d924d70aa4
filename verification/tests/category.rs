use semverver::category::{Breaking, NonBreaking, Patch, TechnicallyBreaking};
use semverver::change::{Addition, Removal};
use semverver::{ChangeCategory, ChangeType};
use std::cmp::Ordering;

fn all_categories() -> Vec<ChangeCategory> {
    vec![Patch, NonBreaking, TechnicallyBreaking, Breaking]
}

#[test]
fn categories_ascend_in_all_six_pairs() {
    assert!(Patch < NonBreaking);
    assert!(Patch < TechnicallyBreaking);
    assert!(Patch < Breaking);
    assert!(NonBreaking < TechnicallyBreaking);
    assert!(NonBreaking < Breaking);
    assert!(TechnicallyBreaking < Breaking);
}

#[test]
fn categories_never_descend_the_other_way() {
    assert!(!(NonBreaking < Patch));
    assert!(!(TechnicallyBreaking < Patch));
    assert!(!(Breaking < Patch));
    assert!(!(TechnicallyBreaking < NonBreaking));
    assert!(!(Breaking < NonBreaking));
    assert!(!(Breaking < TechnicallyBreaking));
    assert!(NonBreaking > Patch);
    assert!(Breaking > TechnicallyBreaking);
}

#[test]
fn each_category_equals_itself_only() {
    let all = all_categories();
    for (i, a) in all.iter().enumerate() {
        for (j, b) in all.iter().enumerate() {
            assert_eq!(a == b, i == j);
            assert_eq!(a != b, i != j);
        }
    }
}

#[test]
fn comparison_follows_position_for_all_sixteen_pairs() {
    let all = all_categories();
    for (i, a) in all.iter().enumerate() {
        for (j, b) in all.iter().enumerate() {
            assert_eq!(a.partial_cmp(b), Some(i.cmp(&j)));
            assert_eq!(a.cmp(b), i.cmp(&j));
            assert_eq!(a < b, i < j);
            assert_eq!(a <= b, i <= j);
            assert_eq!(a > b, i > j);
            assert_eq!(a >= b, i >= j);
        }
    }
}

#[test]
fn comparison_of_a_category_with_itself_is_equal() {
    for a in all_categories() {
        assert_eq!(a.partial_cmp(&a), Some(Ordering::Equal));
        assert!(a <= a);
        assert!(a >= a);
        assert!(!(a < a));
    }
}

#[test]
fn ranks_are_zero_to_three() {
    assert_eq!(Patch.rank(), 0);
    assert_eq!(NonBreaking.rank(), 1);
    assert_eq!(TechnicallyBreaking.rank(), 2);
    assert_eq!(Breaking.rank(), 3);
}

#[test]
fn join_is_the_more_severe_of_the_two() {
    let all = all_categories();
    for (i, a) in all.iter().enumerate() {
        for (j, b) in all.iter().enumerate() {
            let expected = if j > i { *b } else { *a };
            assert_eq!(a.join(*b), expected);
            assert_eq!(a.join(*b), b.join(*a));
        }
    }
    assert_eq!(Patch.join(Breaking), Breaking);
    assert_eq!(Breaking.join(TechnicallyBreaking), Breaking);
    assert_eq!(NonBreaking.join(NonBreaking), NonBreaking);
}

#[test]
fn category_names_are_the_variant_names() {
    assert_eq!(Patch.name(), "Patch");
    assert_eq!(NonBreaking.name(), "NonBreaking");
    assert_eq!(TechnicallyBreaking.name(), "TechnicallyBreaking");
    assert_eq!(Breaking.name(), "Breaking");
    for a in all_categories() {
        assert_eq!(a.name(), format!("{:?}", a));
    }
}

#[test]
fn removal_is_breaking() {
    assert_eq!(Removal.to_category(), Breaking);
    assert_eq!(ChangeType::Removal.to_category(), ChangeCategory::Breaking);
}

#[test]
fn addition_is_technically_breaking() {
    assert_eq!(Addition.to_category(), TechnicallyBreaking);
    assert_eq!(ChangeType::Addition.to_category(), ChangeCategory::TechnicallyBreaking);
}

#[test]
fn every_kind_has_a_category_and_it_is_always_the_same() {
    for kind in [Removal, Addition] {
        let first = kind.to_category();
        let second = kind.to_category();
        assert_eq!(first, second);
        assert!(first > Patch);
    }
    assert!(Removal.to_category() > Addition.to_category());
}

#[test]
fn kind_names_are_the_variant_names() {
    assert_eq!(Removal.name(), "Removal");
    assert_eq!(Addition.name(), "Addition");
    for kind in [Removal, Addition] {
        assert_eq!(kind.name(), format!("{:?}", kind));
    }
}
