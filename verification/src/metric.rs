//! The identity of a benchmarked scenario: a named measurement in a project.
//!
//! The identity has a text form, `name___project`, that names the report file
//! of the scenario and is read back from that file's name.

use crate::exceptions::{CalculateError, CalculateErrorView};
use crate::text::{
    chars_of, first_match, lemma_first_match, lemma_first_match_is, lemma_first_match_none,
    matches_at, split, split_from, split_ranges,
};
use vstd::prelude::*;
use vstd::std_specs::cmp::PartialEqSpecImpl;
use vstd::string::{StrSliceExecFns, StringExecFns};

verus! {

/// A named measurement taken in a named project.
#[derive(Debug, Eq, Hash)]
pub struct Metric {
    pub name: String,
    pub project_name: String,
}

/// A `Metric` with each text as a sequence of characters.
pub struct MetricView {
    pub name: Seq<char>,
    pub project_name: Seq<char>,
}

impl View for Metric {
    type V = MetricView;

    open spec fn view(&self) -> MetricView {
        MetricView { name: self.name@, project_name: self.project_name@ }
    }
}

/// The separator between the name and the project, as a sequence.
pub open spec fn separator() -> Seq<char> {
    seq!['_', '_', '_']
}

/// The separator stands somewhere in `s`.
pub open spec fn holds_separator(s: Seq<char>) -> bool {
    exists|j: int| matches_at(s, separator(), j)
}

impl MetricView {
    /// The text form of the identity: the name, the separator, the project.
    pub open spec fn stem(self) -> Seq<char> {
        self.name + separator() + self.project_name
    }

    /// The name of the report file of this scenario.
    pub open spec fn filename(self) -> Seq<char> {
        self.stem() + ".json"@
    }

    /// The identity that a text denotes, if any: the text splits at the
    /// separator into exactly two pieces, the name and the project.
    pub open spec fn parse(s: Seq<char>) -> Option<MetricView> {
        let parts = split(s, separator());
        if parts.len() == 2 {
            Some(MetricView { name: parts[0], project_name: parts[1] })
        } else {
            None
        }
    }

    /// The text form of this identity reads back as this identity. That is so
    /// where neither text holds the separator and the name does not end in an
    /// underscore, which would run into the separator behind it.
    pub open spec fn reads_back(self) -> bool {
        &&& !holds_separator(self.name)
        &&& !holds_separator(self.project_name)
        &&& (self.name.len() > 0 ==> self.name.last() != '_')
    }
}

impl Clone for Metric {
    fn clone(&self) -> (r: Metric)
        ensures
            r@ == self@,
    {
        Metric { name: self.name.clone(), project_name: self.project_name.clone() }
    }
}

impl PartialEq for Metric {
    fn eq(&self, other: &Metric) -> (r: bool) {
        self.name == other.name && self.project_name == other.project_name
    }
}

impl PartialEqSpecImpl for Metric {
    open spec fn obeys_eq_spec() -> bool {
        true
    }

    open spec fn eq_spec(&self, other: &Metric) -> bool {
        self@ == other@
    }
}

/// The separator, as characters.
fn separator_chars() -> (sep: Vec<char>)
    ensures
        sep@ == separator(),
{
    let mut sep: Vec<char> = Vec::new();
    sep.push('_');
    sep.push('_');
    sep.push('_');
    assert(sep@ =~= separator());
    sep
}

impl Metric {
    /// The separator between the name and the project in the text form.
    pub fn sep() -> (r: &'static str)
        ensures
            r@ == separator(),
    {
        proof {
            reveal_strlit("___");
        }
        let r = "___";
        assert(r@ =~= separator());
        r
    }

    /// The text form of the identity, `name___project`.
    pub fn stem(&self) -> (r: String)
        ensures
            r@ == self@.stem(),
    {
        self.name.clone().concat(Metric::sep()).concat(self.project_name.as_str())
    }

    /// The name of the report file of this scenario, `name___project.json`.
    pub fn filename(&self) -> (r: String)
        ensures
            r@ == self@.filename(),
    {
        self.stem().concat(".json")
    }

    /// Splits a text form into the name and the project, where it holds
    /// exactly one separator between them.
    pub fn from_filename(filename: &str) -> (r: Option<(String, String)>)
        ensures
            match r {
                Some((name, project)) => MetricView::parse(filename@) == Some(
                    MetricView { name: name@, project_name: project@ },
                ),
                None => MetricView::parse(filename@) is None,
            },
    {
        let chars = chars_of(filename);
        let sep = separator_chars();
        let cuts = split_ranges(&chars, &sep);
        if cuts.len() != 2 {
            return None;
        }
        let ghost parts = split(filename@, separator());
        assert(parts[0] == chars@.subrange(cuts[0].0 as int, cuts[0].1 as int));
        assert(parts[1] == chars@.subrange(cuts[1].0 as int, cuts[1].1 as int));
        let name = String::from_str(filename.substring_char(cuts[0].0, cuts[0].1));
        let project = String::from_str(filename.substring_char(cuts[1].0, cuts[1].1));
        Some((name, project))
    }

    /// Reads an identity from its text form. Text that does not hold exactly
    /// one separator is rejected with `MetricParseFail`, which carries the
    /// text.
    pub fn from_str(s: &str) -> (r: Result<Metric, CalculateError>)
        ensures
            match r {
                Ok(m) => MetricView::parse(s@) == Some(m@),
                Err(e) => MetricView::parse(s@) is None && e@
                    == CalculateErrorView::MetricParseFail(s@),
            },
    {
        match Metric::from_filename(s) {
            Some((name, project)) => Ok(Metric { name: name, project_name: project }),
            None => Err(CalculateError::MetricParseFail(String::from_str(s))),
        }
    }
}

/// Reading the text form of an identity gives that identity back, where
/// neither of its texts holds the separator and its name does not end in an
/// underscore.
pub proof fn lemma_parse_stem(m: MetricView)
    requires
        m.reads_back(),
    ensures
        MetricView::parse(m.stem()) == Some(m),
{
    let sep = separator();
    let t = m.stem();
    let n = m.name.len() as int;
    assert(t.subrange(n, n + 3) =~= sep);
    assert forall|j: int| 0 <= j < n implies !matches_at(t, sep, j) by {
        if matches_at(t, sep, j) {
            let window = t.subrange(j, j + 3);
            if j + 3 <= n {
                assert(m.name.subrange(j, j + 3) =~= window);
                assert(matches_at(m.name, sep, j));
            } else {
                assert(window[n - 1 - j] == t[n - 1]);
                assert(sep[n - 1 - j] == '_');
                assert(t[n - 1] == m.name.last());
            }
        }
    }
    assert forall|j: int| n + 3 <= j implies !matches_at(t, sep, j) by {
        if matches_at(t, sep, j) {
            assert(m.project_name.subrange(j - n - 3, j - n) =~= t.subrange(j, j + 3));
            assert(matches_at(m.project_name, sep, j - n - 3));
        }
    }
    lemma_first_match_is(t, sep, 0, n);
    lemma_first_match_none(t, sep, n + 3);
    let tail = split_from(t, sep, n + 3);
    assert(tail == seq![t.subrange(n + 3, t.len() as int)]);
    let parts = split(t, sep);
    assert(parts == seq![t.subrange(0, n)] + tail);
    assert(parts[0] =~= m.name);
    assert(parts[1] =~= m.project_name);
}

/// What is read from a text gives that text back as its text form, and
/// neither the name nor the project that is read holds the separator.
pub proof fn lemma_stem_of_parse(s: Seq<char>)
    ensures
        MetricView::parse(s) matches Some(m) ==> m.stem() == s && !holds_separator(m.name)
            && !holds_separator(m.project_name),
{
    let sep = separator();
    if let Some(m) = MetricView::parse(s) {
        lemma_first_match(s, sep, 0);
        match first_match(s, sep, 0) {
            None => {
                assert(split(s, sep).len() == 1);
            },
            Some(i) => {
                let rest = split_from(s, sep, i + 3);
                assert(split(s, sep) == seq![s.subrange(0, i)] + rest);
                lemma_first_match(s, sep, i + 3);
                match first_match(s, sep, i + 3) {
                    Some(j) => {
                        let more = split_from(s, sep, j + 3);
                        lemma_first_match(s, sep, j + 3);
                        assert(more.len() >= 1);
                        assert(rest == seq![s.subrange(i + 3, j)] + more);
                        assert(split(s, sep).len() >= 3);
                    },
                    None => {
                        assert(rest == seq![s.subrange(i + 3, s.len() as int)]);
                        assert(m.name == s.subrange(0, i));
                        assert(m.project_name == s.subrange(i + 3, s.len() as int));
                        assert(s.subrange(i, i + 3) == sep);
                        assert(m.stem() =~= s);
                        assert forall|j: int| !matches_at(m.name, sep, j) by {
                            if matches_at(m.name, sep, j) {
                                assert(s.subrange(j, j + 3) =~= m.name.subrange(j, j + 3));
                                assert(matches_at(s, sep, j));
                            }
                        }
                        assert forall|j: int| !matches_at(m.project_name, sep, j) by {
                            if matches_at(m.project_name, sep, j) {
                                assert(s.subrange(i + 3 + j, i + 6 + j) =~= m.project_name.subrange(
                                    j,
                                    j + 3,
                                ));
                                assert(matches_at(s, sep, i + 3 + j));
                            }
                        }
                    },
                }
            },
        }
    }
}

} // verus!
