//! Release versions: `major.minor.patch`, ordered component by component.

use crate::exceptions::{CalculateError, CalculateErrorView};
use crate::text::{
    chars_of, decimal, decimal_string, lemma_decimal_chars, lemma_first_match_is,
    lemma_first_match_none, lemma_parse_decimal_of_decimal, matches_at, parse_i32,
    parse_i32_spec, split, split_from, split_ranges,
};
use core::cmp::Ordering;
use vstd::prelude::*;
use vstd::std_specs::cmp::PartialOrdSpecImpl;
use vstd::string::StringExecFns;

verus! {

/// A release, identified by three numbers. Versions are ordered by `major`,
/// then `minor`, then `patch`, each compared as a number.
#[derive(Debug, Copy, Clone, PartialEq, Eq, Structural, Hash, Ord)]
pub struct Version {
    pub major: i32,
    pub minor: i32,
    pub patch: i32,
}

/// The separator between the components of a version, as a sequence.
pub open spec fn dot() -> Seq<char> {
    seq!['.']
}

impl Version {
    /// The version `major.minor.patch`.
    pub fn new(major: i32, minor: i32, patch: i32) -> (v: Version)
        ensures
            v == (Version { major, minor, patch }),
    {
        Version { major, minor, patch }
    }

    /// The canonical text of a version: the decimal numerals of its three
    /// components, joined by dots.
    pub open spec fn text(self) -> Seq<char> {
        decimal(self.major as int) + dot() + decimal(self.minor as int) + dot() + decimal(
            self.patch as int,
        )
    }

    /// The version that a text denotes, if any: the text splits at its dots
    /// into exactly three pieces, and each piece is a decimal numeral, with or
    /// without a sign, that fits in an `i32`.
    pub open spec fn parse(s: Seq<char>) -> Option<Version> {
        let parts = split(s, dot());
        if parts.len() != 3 {
            None
        } else {
            match (parse_i32_spec(parts[0]), parse_i32_spec(parts[1]), parse_i32_spec(parts[2])) {
                (Some(major), Some(minor), Some(patch)) => Some(Version { major, minor, patch }),
                _ => None,
            }
        }
    }

    /// `self` comes strictly before `other`.
    pub open spec fn precedes(self, other: Version) -> bool {
        self.major < other.major || (self.major == other.major && (self.minor < other.minor || (
        self.minor == other.minor && self.patch < other.patch)))
    }

    /// How `self` stands to `other` in the order of versions.
    pub open spec fn compare_spec(self, other: Version) -> Ordering {
        if self.precedes(other) {
            Ordering::Less
        } else if other.precedes(self) {
            Ordering::Greater
        } else {
            Ordering::Equal
        }
    }

    /// Renders the version in its canonical text.
    pub fn render(&self) -> (r: String)
        ensures
            r@ == self.text(),
    {
        proof {
            reveal_strlit(".");
        }
        let r = decimal_string(self.major as i64).concat(".").concat(
            decimal_string(self.minor as i64).as_str(),
        ).concat(".").concat(decimal_string(self.patch as i64).as_str());
        assert(r@ =~= self.text());
        r
    }

    /// Reads a version from its text. Text that denotes no version is
    /// rejected with `VersionParseFail`, which carries the text.
    pub fn from_str(s: &str) -> (r: Result<Version, CalculateError>)
        ensures
            match r {
                Ok(v) => Version::parse(s@) == Some(v),
                Err(e) => Version::parse(s@) is None && e@ == CalculateErrorView::VersionParseFail(
                    s@,
                ),
            },
    {
        let chars = chars_of(s);
        let mut sep: Vec<char> = Vec::new();
        sep.push('.');
        assert(sep@ =~= dot());
        let cuts = split_ranges(&chars, &sep);
        if cuts.len() != 3 {
            return Err(CalculateError::VersionParseFail(String::from_str(s)));
        }
        let ghost parts = split(s@, dot());
        assert(parts[0] == chars@.subrange(cuts[0].0 as int, cuts[0].1 as int));
        assert(parts[1] == chars@.subrange(cuts[1].0 as int, cuts[1].1 as int));
        assert(parts[2] == chars@.subrange(cuts[2].0 as int, cuts[2].1 as int));
        let major = parse_i32(&chars, cuts[0].0, cuts[0].1);
        let minor = parse_i32(&chars, cuts[1].0, cuts[1].1);
        let patch = parse_i32(&chars, cuts[2].0, cuts[2].1);
        match (major, minor, patch) {
            (Some(major), Some(minor), Some(patch)) => Ok(Version { major, minor, patch }),
            _ => Err(CalculateError::VersionParseFail(String::from_str(s))),
        }
    }

    /// Compares two versions component by component: `major` first, then
    /// `minor`, then `patch`.
    pub fn compare(&self, other: &Version) -> (o: Ordering)
        ensures
            o == self.compare_spec(*other),
    {
        if self.major < other.major {
            Ordering::Less
        } else if self.major > other.major {
            Ordering::Greater
        } else if self.minor < other.minor {
            Ordering::Less
        } else if self.minor > other.minor {
            Ordering::Greater
        } else if self.patch < other.patch {
            Ordering::Less
        } else if self.patch > other.patch {
            Ordering::Greater
        } else {
            Ordering::Equal
        }
    }

    /// The greatest of `versions`, or `None` where there is none to choose
    /// from.
    pub fn max(versions: &Vec<Version>) -> (r: Option<Version>)
        ensures
            r is None <==> versions.len() == 0,
            r matches Some(m) ==> versions@.contains(m) && forall|i: int|
                0 <= i < versions.len() ==> !m.precedes(#[trigger] versions[i]),
    {
        if versions.len() == 0 {
            return None;
        }
        let mut best = versions[0];
        let mut i: usize = 1;
        while i < versions.len()
            invariant
                1 <= i <= versions.len(),
                versions@.contains(best),
                forall|j: int| 0 <= j < i ==> !best.precedes(#[trigger] versions[j]),
            decreases versions.len() - i,
        {
            let next = versions[i];
            match best.compare(&next) {
                Ordering::Less => {
                    best = next;
                },
                _ => {},
            }
            i += 1;
        }
        Some(best)
    }
}

impl PartialOrd for Version {
    fn partial_cmp(&self, other: &Version) -> (r: Option<Ordering>) {
        Some(self.compare(other))
    }
}

impl PartialOrdSpecImpl for Version {
    open spec fn obeys_partial_cmp_spec() -> bool {
        true
    }

    open spec fn partial_cmp_spec(&self, other: &Version) -> Option<Ordering> {
        Some(self.compare_spec(*other))
    }
}

/// The order of versions is a total order: of two versions exactly one comes
/// before the other unless they are the same version, and the order is
/// transitive.
pub proof fn lemma_version_order_total(a: Version, b: Version, c: Version)
    ensures
        a.compare_spec(a) == Ordering::Equal,
        a.compare_spec(b) == Ordering::Equal <==> a == b,
        a.compare_spec(b) == Ordering::Less <==> b.compare_spec(a) == Ordering::Greater,
        a.precedes(b) || b.precedes(a) || a == b,
        !(a.precedes(b) && b.precedes(a)),
        a.precedes(b) && b.precedes(c) ==> a.precedes(c),
{
}

/// Versions compare by their components as numbers: the first component in
/// which two versions differ decides.
pub proof fn lemma_version_order_componentwise(a: Version, b: Version)
    ensures
        a.major < b.major ==> a.compare_spec(b) == Ordering::Less,
        a.major == b.major && a.minor < b.minor ==> a.compare_spec(b) == Ordering::Less,
        a.major == b.major && a.minor == b.minor && a.patch < b.patch ==> a.compare_spec(b)
            == Ordering::Less,
{
}

/// A dot stands at index `j` of `t` exactly where the character there is one.
proof fn lemma_dot_at(t: Seq<char>, j: int)
    ensures
        matches_at(t, dot(), j) <==> (0 <= j < t.len() && t[j] == '.'),
{
    if 0 <= j < t.len() {
        let window = t.subrange(j, j + 1);
        assert(window[0] == t[j]);
        if t[j] == '.' {
            assert(window =~= dot());
        }
    }
}

/// No dot stands in a decimal numeral.
proof fn lemma_no_dot_in_decimal(n: int, i: int)
    requires
        0 <= i < decimal(n).len(),
    ensures
        decimal(n)[i] != '.',
{
    lemma_decimal_chars(n, i);
}

/// Reading the canonical text of a version gives that version back.
pub proof fn lemma_parse_text(v: Version)
    ensures
        Version::parse(v.text()) == Some(v),
{
    let a = decimal(v.major as int);
    let b = decimal(v.minor as int);
    let c = decimal(v.patch as int);
    let t = v.text();
    let first = a.len() as int;
    let second = first + 1 + b.len();
    assert(t.len() == second + 1 + c.len());
    assert forall|j: int| 0 <= j < t.len() implies (matches_at(t, dot(), j) <==> (j == first || j
        == second)) by {
        lemma_dot_at(t, j);
        if j < first {
            lemma_no_dot_in_decimal(v.major as int, j);
            assert(t[j] == a[j]);
        } else if j == first {
        } else if j < second {
            lemma_no_dot_in_decimal(v.minor as int, j - first - 1);
            assert(t[j] == b[j - first - 1]);
        } else if j == second {
        } else {
            lemma_no_dot_in_decimal(v.patch as int, j - second - 1);
            assert(t[j] == c[j - second - 1]);
        }
    }
    assert forall|j: int| j >= t.len() implies !matches_at(t, dot(), j) by {
        lemma_dot_at(t, j);
    }
    lemma_first_match_is(t, dot(), 0, first);
    lemma_first_match_is(t, dot(), first + 1, second);
    lemma_first_match_none(t, dot(), second + 1);
    let tail = split_from(t, dot(), second + 1);
    assert(tail == seq![t.subrange(second + 1, t.len() as int)]);
    let middle = split_from(t, dot(), first + 1);
    assert(middle == seq![t.subrange(first + 1, second)] + tail);
    let parts = split(t, dot());
    assert(parts == seq![t.subrange(0, first)] + middle);
    assert(parts.len() == 3);
    assert(parts[0] =~= a);
    assert(parts[1] =~= b);
    assert(parts[2] =~= c);
    lemma_parse_decimal_of_decimal(v.major as int);
    lemma_parse_decimal_of_decimal(v.minor as int);
    lemma_parse_decimal_of_decimal(v.patch as int);
}

} // verus!
