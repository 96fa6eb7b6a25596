use releasepilot::checks::compare_versions;
use std::cmp::Ordering;

#[test]
fn numeric_components_compare_as_numbers() {
    assert_eq!(compare_versions("1.10.0", "1.9.0"), Ordering::Greater);
    assert_eq!(compare_versions("1.2.3", "1.2.4"), Ordering::Less);
    assert_eq!(compare_versions("2.0.0", "10.0.0"), Ordering::Less);
}

#[test]
fn leading_v_is_ignored() {
    assert_eq!(compare_versions("v1.2.3", "1.2.3"), Ordering::Equal);
    assert_eq!(compare_versions("vv2.0", "v1.9"), Ordering::Greater);
}

#[test]
fn missing_components_count_as_zero() {
    assert_eq!(compare_versions("1.2", "1.2.0"), Ordering::Equal);
    assert_eq!(compare_versions("1.2", "1.2.1"), Ordering::Less);
    assert_eq!(compare_versions("1", "1.0.0.0"), Ordering::Equal);
}

#[test]
fn non_numeric_components_compare_as_strings() {
    assert_eq!(compare_versions("1.0.0-beta", "1.0.0-alpha"), Ordering::Greater);
    assert_eq!(compare_versions("1.0.x", "1.0.0"), Ordering::Greater);
    assert_eq!(compare_versions("1.0.10a", "1.0.9a"), Ordering::Less);
}

#[test]
fn comparison_is_reflexive_and_antisymmetric() {
    for (a, b) in [("1.2.3", "1.3"), ("v0.9", "0.10"), ("1.0-rc1", "1.0"), ("", "0")] {
        assert_eq!(compare_versions(a, a), Ordering::Equal);
        assert_eq!(compare_versions(a, b), compare_versions(b, a).reverse());
    }
}

#[test]
fn empty_component_sorts_before_digits() {
    assert_eq!(compare_versions("", "0"), Ordering::Less);
    assert_eq!(compare_versions("v", "0.0"), Ordering::Less);
    assert_eq!(compare_versions("1..2", "1.0.2"), Ordering::Less);
}
