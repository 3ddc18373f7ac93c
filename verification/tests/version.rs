use perf_runner::exceptions::CalculateError;
use perf_runner::version::Version;
use std::cmp::Ordering;

// The text form of a version is also its JSON form, a JSON string: what is
// written has to read back as the same version.
#[test]
fn version_serialize_loop() {
    let v = Version {
        major: 1,
        minor: 2,
        patch: 3,
    };
    let json = serde_json::to_string_pretty(&v.render()).unwrap();
    let text = serde_json::from_str::<String>(&json).unwrap();
    let v2 = Version::from_str(&text);
    assert_eq!(v, v2.unwrap());
}

#[test]
fn version_renders_as_dotted_numbers() {
    assert_eq!(Version::new(1, 2, 3).render(), "1.2.3");
    assert_eq!(Version::new(0, 0, 0).render(), "0.0.0");
    assert_eq!(Version::new(10, 200, 3000).render(), "10.200.3000");
    assert_eq!(Version::new(-1, 2, -3).render(), "-1.2.-3");
    assert_eq!(
        Version::new(i32::MAX, i32::MIN, 0).render(),
        "2147483647.-2147483648.0"
    );
}

#[test]
fn version_parses_three_numbers() {
    assert_eq!(Version::from_str("1.2.3"), Ok(Version::new(1, 2, 3)));
    assert_eq!(Version::from_str("0.0.0"), Ok(Version::new(0, 0, 0)));
    assert_eq!(Version::from_str("1.10.0"), Ok(Version::new(1, 10, 0)));
    assert_eq!(Version::from_str("+1.-2.003"), Ok(Version::new(1, -2, 3)));
    assert_eq!(
        Version::from_str("2147483647.-2147483648.0"),
        Ok(Version::new(i32::MAX, i32::MIN, 0))
    );
}

#[test]
fn version_parse_rejects_other_shapes() {
    let bad = [
        "", ".", "..", "1", "1.2", "1.2.3.4", "1.2.", ".1.2", "1..2", "a.b.c", "1.2.x", "1.2.3 ",
        " 1.2.3", "1.2.3\n", "1,2,3", "1.2.2147483648", "-2147483649.0.0", "1.2.-", "1.2.+",
        "1.2.3-rc1", "v1.2.3", "1.2.１",
    ];
    for text in bad {
        assert_eq!(
            Version::from_str(text),
            Err(CalculateError::VersionParseFail(text.to_owned())),
            "{:?}",
            text
        );
    }
}

#[test]
fn version_text_reads_back() {
    let numbers = [0, 1, 9, 10, 11, 99, 100, 12345, i32::MAX, -1, -10, i32::MIN];
    for major in numbers {
        for minor in numbers {
            for patch in numbers {
                let v = Version::new(major, minor, patch);
                assert_eq!(Version::from_str(&v.render()), Ok(v));
            }
        }
    }
}

#[test]
fn version_render_agrees_with_std_formatting() {
    let numbers = [0, 7, 42, 1000, i32::MAX, -5, i32::MIN];
    for a in numbers {
        for b in numbers {
            let v = Version::new(a, b, a);
            assert_eq!(v.render(), format!("{}.{}.{}", a, b, a));
        }
    }
}

#[test]
fn versions_compare_by_components_as_numbers() {
    assert_eq!(
        Version::new(1, 10, 0).compare(&Version::new(1, 9, 0)),
        Ordering::Greater
    );
    assert_eq!(
        Version::new(1, 1, 0).compare(&Version::new(1, 0, 2)),
        Ordering::Greater
    );
    assert_eq!(
        Version::new(1, 9, 0).compare(&Version::new(1, 10, 0)),
        Ordering::Less
    );
    assert_eq!(
        Version::new(2, 0, 0).compare(&Version::new(1, 99, 99)),
        Ordering::Greater
    );
    assert_eq!(
        Version::new(1, 2, 3).compare(&Version::new(1, 2, 4)),
        Ordering::Less
    );
    assert_eq!(
        Version::new(1, 2, 3).compare(&Version::new(1, 2, 3)),
        Ordering::Equal
    );
    assert!(Version::new(1, 10, 0) > Version::new(1, 9, 0));
    assert!(Version::new(1, 1, 0) > Version::new(1, 0, 2));
    assert!(Version::new(1, 0, 2) < Version::new(1, 1, 0));
    assert!(Version::new(1, 0, 2) <= Version::new(1, 0, 2));
}

#[test]
fn version_order_is_total_on_a_grid() {
    let mut all = Vec::new();
    for major in [-1, 0, 1, 10] {
        for minor in [0, 2, 9, 10] {
            for patch in [0, 1] {
                all.push(Version::new(major, minor, patch));
            }
        }
    }
    for a in &all {
        assert_eq!(a.compare(a), Ordering::Equal);
        for b in &all {
            assert_eq!(a.compare(b), b.compare(a).reverse());
            assert_eq!(a.compare(b) == Ordering::Equal, a == b);
            assert_eq!(a.compare(b), a.cmp(b));
            assert_eq!(a.partial_cmp(b), Some(a.cmp(b)));
            assert_eq!(
                a.compare(b),
                (a.major, a.minor, a.patch).cmp(&(b.major, b.minor, b.patch))
            );
            for c in &all {
                if a.compare(b) == Ordering::Less && b.compare(c) == Ordering::Less {
                    assert_eq!(a.compare(c), Ordering::Less);
                }
            }
        }
    }
}

#[test]
fn version_max_is_the_greatest() {
    let versions = vec![
        Version::new(1, 9, 0),
        Version::new(1, 10, 0),
        Version::new(0, 99, 99),
        Version::new(1, 10, 0),
    ];
    assert_eq!(Version::max(&versions), Some(Version::new(1, 10, 0)));
    assert_eq!(Version::max(&vec![Version::new(3, 2, 1)]), Some(Version::new(3, 2, 1)));
}

#[test]
fn version_max_of_nothing_is_none() {
    assert_eq!(Version::max(&Vec::new()), None);
}
