//! Strings and spans of time.
use conduit::text::{
    is_before, push_decimal, push_point, same_ignoring_case, starts_with, to_lower, trim,
};
use conduit::time::Duration;

#[test]
fn trimming() {
    assert_eq!(trim(" \t a b \n"), "a b");
    assert_eq!(trim("\u{3000}x\u{85}"), "x");
    assert_eq!(trim("   "), "");
}

#[test]
fn case_folding_is_ascii_only() {
    assert_eq!(to_lower("AbZ[\u{c4}"), "abz[\u{c4}");
    assert!(same_ignoring_case("Host", "hOST"));
    assert!(!same_ignoring_case("\u{c4}", "\u{e4}"));
}

#[test]
fn prefixes() {
    assert!(starts_with("/api/x", "/api/"));
    assert!(!starts_with("/ap", "/api"));
    assert!(starts_with("x", ""));
}

#[test]
fn order_of_names() {
    let mut names = vec!["b", "", "ab", "a", "B", "\u{e4}", "z", "aa"];
    let mut sorted = names.clone();
    sorted.sort();
    names.sort_by(|a, b| {
        if is_before(a, b) {
            std::cmp::Ordering::Less
        } else if is_before(b, a) {
            std::cmp::Ordering::Greater
        } else {
            std::cmp::Ordering::Equal
        }
    });
    assert_eq!(names, sorted);
    assert!(!is_before("a", "a"));
}

#[test]
fn numbers_in_decimal() {
    for n in [0u64, 7, 10, 105, u64::MAX] {
        let mut s = String::from("n=");
        push_decimal(&mut s, n);
        assert_eq!(s, format!("n={n}"));
    }
}

#[test]
fn numbers_with_a_point() {
    let point = |whole: u64, rest: u64, width: u32| {
        let mut s = String::new();
        push_point(&mut s, whole, rest, width);
        s
    };
    assert_eq!(point(0, 5_000, 6), "0.005");
    assert_eq!(point(1, 0, 6), "1");
    assert_eq!(point(12, 345_678, 6), "12.345678");
    assert_eq!(point(0, 1, 9), "0.000000001");
    for us in [0u64, 1, 10, 205_000, 1_250_000, 999_999_999] {
        let seconds = us as f64 / 1_000_000.0;
        assert_eq!(point(us / 1_000_000, us % 1_000_000, 6), format!("{seconds}"));
    }
}

#[test]
fn spans_of_time() {
    let d = Duration::new(3, 500_000_000);
    assert_eq!(d.as_secs(), 3);
    assert_eq!(d.subsec_nanos(), 500_000_000);
    assert_eq!(d.as_millis(), 3_500);
    assert_eq!(d.as_micros(), 3_500_000);
    assert_eq!(d.as_nanos(), 3_500_000_000);
    assert!(Duration::from_millis(0).is_zero());
    assert_eq!(
        d.saturating_sub(Duration::from_secs(1)),
        Duration::from_millis(2_500)
    );
    assert_eq!(Duration::from_secs(1).saturating_sub(d), Duration::from_secs(0));
    assert_eq!(d.shorter(Duration::from_secs(1)), Duration::from_secs(1));
}
