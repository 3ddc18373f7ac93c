use perf_runner::exceptions::CalculateError;
use perf_runner::metric::Metric;
use std::collections::HashMap;

fn metric(name: &str, project_name: &str) -> Metric {
    Metric {
        name: name.to_owned(),
        project_name: project_name.to_owned(),
    }
}

#[test]
fn metric_separator_is_three_underscores() {
    assert_eq!(Metric::sep(), "___");
}

#[test]
fn metric_filename_joins_name_and_project() {
    assert_eq!(metric("parse", "01_mini").filename(), "parse___01_mini.json");
    assert_eq!(metric("parse", "01_mini").stem(), "parse___01_mini");
    assert_eq!(metric("", "").filename(), "___.json");
}

#[test]
fn metric_parses_name_and_project() {
    assert_eq!(
        Metric::from_str("parse___01_mini"),
        Ok(metric("parse", "01_mini"))
    );
    assert_eq!(Metric::from_str("a b___c d"), Ok(metric("a b", "c d")));
    assert_eq!(Metric::from_str("___"), Ok(metric("", "")));
    assert_eq!(Metric::from_str("a___"), Ok(metric("a", "")));
    assert_eq!(Metric::from_str("___b"), Ok(metric("", "b")));
    assert_eq!(Metric::from_str("a____b"), Ok(metric("a", "_b")));
    assert_eq!(
        Metric::from_str("parse___proj.json"),
        Ok(metric("parse", "proj.json"))
    );
}

#[test]
fn metric_parse_rejects_other_shapes() {
    for text in ["", "parse", "parse_proj", "parse__proj", "a___b___c", "______", "a___b___"] {
        assert_eq!(
            Metric::from_str(text),
            Err(CalculateError::MetricParseFail(text.to_owned())),
            "{:?}",
            text
        );
    }
}

#[test]
fn metric_from_filename_splits_the_stem() {
    assert_eq!(
        Metric::from_filename("boop___proj"),
        Some(("boop".to_owned(), "proj".to_owned()))
    );
    assert_eq!(Metric::from_filename("boop_proj"), None);
    assert_eq!(Metric::from_filename("a___b___c"), None);
}

#[test]
fn metric_text_form_reads_back() {
    let names = ["parse", "a", "a_b", "a__b", "_a", "__a", "x y", "é", ""];
    let projects = ["proj", "01_mini", "_p", "__p", "p_", "p__", "", "a.b"];
    for name in names {
        for project in projects {
            let m = metric(name, project);
            assert_eq!(Metric::from_str(&m.stem()), Ok(m.clone()), "{:?}", m);
        }
    }
}

#[test]
fn metric_name_ending_in_underscore_does_not_read_back() {
    let m = metric("a_", "b");
    assert_eq!(m.stem(), "a____b");
    assert_eq!(Metric::from_str(&m.stem()), Ok(metric("a", "_b")));
}

#[test]
fn metric_holding_the_separator_does_not_read_back() {
    let m = metric("a___b", "c");
    assert_eq!(
        Metric::from_str(&m.stem()),
        Err(CalculateError::MetricParseFail("a___b___c".to_owned()))
    );
}

#[test]
fn metric_equality_is_over_both_fields() {
    assert_eq!(metric("a", "b"), metric("a", "b"));
    assert_ne!(metric("a", "b"), metric("a", "c"));
    assert_ne!(metric("a", "b"), metric("c", "b"));
    assert_ne!(metric("a", "b"), metric("b", "a"));
    assert_eq!(metric("a", "b").clone(), metric("a", "b"));
}

#[test]
fn metric_is_a_key_of_a_hash_map() {
    let mut map = HashMap::new();
    map.insert(metric("a", "b"), 1);
    map.insert(metric("a", "c"), 2);
    map.insert(metric("a", "b"), 3);
    assert_eq!(map.len(), 2);
    assert_eq!(map.get(&metric("a", "b")), Some(&3));
    assert_eq!(map.get(&metric("b", "a")), None);
}
