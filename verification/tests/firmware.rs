use byos_rust::firmware::version_compare;

#[test]
fn test_version_compare_equal() {
    assert_eq!(version_compare("1.5.2", "1.5.2"), 0);
    assert_eq!(version_compare("", ""), 0);
    assert_eq!(version_compare("abc", "abc"), 0);
}

#[test]
fn test_version_compare_less_than() {
    assert_eq!(version_compare("1.4.0", "1.5.2"), -1);
    assert_eq!(version_compare("1.5.1", "1.5.2"), -1);
    assert_eq!(version_compare("0.9.9", "1.0.0"), -1);
    assert_eq!(version_compare("", "a"), -1);
}

#[test]
fn test_version_compare_greater_than() {
    assert_eq!(version_compare("1.6.0", "1.5.2"), 1);
    assert_eq!(version_compare("2.0.0", "1.9.9"), 1);
    assert_eq!(version_compare("1.5.3", "1.5.2"), 1);
    assert_eq!(version_compare("a", ""), 1);
}

#[test]
fn test_version_compare_string_comparison() {
    // Plain text comparison, not a comparison of version numbers:
    // "10" sorts before "2".
    assert_eq!(version_compare("1.10.0", "1.2.0"), -1);
    assert_eq!(version_compare("1.2.0", "1.10.0"), 1);
}

#[test]
fn version_compare_agrees_with_the_order_of_str() {
    let samples = [
        "", "1", "1.5.2", "1.5.10", "1.10.0", "10", "2", "a", "A", "abc", "ab", "é", "e\u{301}",
        "日本", "日", "\u{10ffff}", "\u{7f}", "\u{80}", "\u{7ff}", "\u{800}", "\u{ffff}", "\u{10000}",
    ];
    for a in samples {
        for b in samples {
            let expected = match a.cmp(b) {
                std::cmp::Ordering::Less => -1,
                std::cmp::Ordering::Equal => 0,
                std::cmp::Ordering::Greater => 1,
            };
            assert_eq!(version_compare(a, b), expected, "{:?} against {:?}", a, b);
        }
    }
}

#[test]
fn version_compare_is_an_order() {
    let samples = ["", "0.9.9", "1.0.0", "1.10.0", "1.2.0", "1.4.0", "1.5.2", "1.5.2-rc", "1.6.0", "2"];
    for a in samples {
        assert_eq!(version_compare(a, a), 0);
        for b in samples {
            assert_eq!(version_compare(a, b), -version_compare(b, a));
            assert_eq!(version_compare(a, b) == 0, a == b);
            for c in samples {
                if version_compare(a, b) < 0 && version_compare(b, c) < 0 {
                    assert_eq!(version_compare(a, c), -1);
                }
            }
        }
    }
}

#[test]
fn version_compare_prefix_sorts_first() {
    assert_eq!(version_compare("1.5", "1.5.2"), -1);
    assert_eq!(version_compare("1.5.2", "1.5.2.1"), -1);
    assert_eq!(version_compare("1.5.2.1", "1.5.2"), 1);
}
