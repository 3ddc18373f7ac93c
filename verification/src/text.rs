//! Character-level building blocks: decimal numerals and splitting on a
//! separator. Everything here works on sequences of `char`, the view of `str`
//! and `String`.

use vstd::prelude::*;
use vstd::string::StringExecFns;

verus! {

/// The characters of `s`, in order.
pub fn chars_of(s: &str) -> (out: Vec<char>)
    ensures
        out@ == s@,
{
    broadcast use vstd::string::group_string_axioms;

    let mut out: Vec<char> = Vec::new();
    for c in it: s.chars()
        invariant
            it.seq() == s@,
            out@ == it.seq().take(it.index()),
    {
        out.push(c);
    }
    out
}

/// `c` is one of the ten ASCII digits.
pub open spec fn is_digit(c: char) -> bool {
    '0' <= c && c <= '9'
}

/// The number that the ASCII digit `c` stands for.
pub open spec fn digit_value(c: char) -> int {
    c as u32 - '0' as u32
}

/// The ASCII digit that stands for `d`, for `0 <= d <= 9`.
pub open spec fn digit_char(d: int) -> char {
    if d == 0 {
        '0'
    } else if d == 1 {
        '1'
    } else if d == 2 {
        '2'
    } else if d == 3 {
        '3'
    } else if d == 4 {
        '4'
    } else if d == 5 {
        '5'
    } else if d == 6 {
        '6'
    } else if d == 7 {
        '7'
    } else if d == 8 {
        '8'
    } else {
        '9'
    }
}

/// Every character of `s` is an ASCII digit.
pub open spec fn all_digits(s: Seq<char>) -> bool {
    forall|i: int| 0 <= i < s.len() ==> is_digit(#[trigger] s[i])
}

/// The decimal numeral of `n`, without leading zeros.
pub open spec fn nat_digits(n: nat) -> Seq<char>
    decreases n,
{
    if n < 10 {
        seq![digit_char(n as int)]
    } else {
        nat_digits(n / 10).push(digit_char((n % 10) as int))
    }
}

/// The decimal numeral of `n`: a minus sign for a negative number, then the
/// digits of its magnitude.
pub open spec fn decimal(n: int) -> Seq<char> {
    if n < 0 {
        seq!['-'] + nat_digits((-n) as nat)
    } else {
        nat_digits(n as nat)
    }
}

/// The number that a sequence of digits denotes, most significant digit first.
/// The empty sequence denotes zero.
pub open spec fn digits_value(s: Seq<char>) -> nat
    decreases s.len(),
{
    if s.len() == 0 {
        0
    } else {
        (digits_value(s.drop_last()) * 10 + digit_value(s.last())) as nat
    }
}

/// Reads a signed decimal numeral: an optional `+` or `-`, then one or more
/// ASCII digits and nothing else. Leading zeros are allowed.
pub open spec fn parse_decimal(s: Seq<char>) -> Option<int> {
    if s.len() == 0 {
        None
    } else {
        let signed = s[0] == '-' || s[0] == '+';
        let body = if signed {
            s.skip(1)
        } else {
            s
        };
        if body.len() == 0 || !all_digits(body) {
            None
        } else if s[0] == '-' {
            Some(-(digits_value(body) as int))
        } else {
            Some(digits_value(body) as int)
        }
    }
}

/// Reads a signed decimal numeral that fits in an `i32`.
pub open spec fn parse_i32_spec(s: Seq<char>) -> Option<i32> {
    match parse_decimal(s) {
        Some(v) => if i32::MIN <= v <= i32::MAX {
            Some(v as i32)
        } else {
            None
        },
        None => None,
    }
}

/// `digit_char` and `digit_value` are inverse to each other on `0..=9`.
pub proof fn lemma_digit_char(d: int)
    requires
        0 <= d <= 9,
    ensures
        is_digit(digit_char(d)),
        digit_value(digit_char(d)) == d,
        digit_char(d) != '-',
        digit_char(d) != '+',
{
}

/// The numeral of a natural number is not empty, holds digits only, has no
/// leading zero unless it is "0", and denotes that number.
pub proof fn lemma_nat_digits(n: nat)
    ensures
        nat_digits(n).len() >= 1,
        all_digits(nat_digits(n)),
        digits_value(nat_digits(n)) == n,
        n > 0 ==> nat_digits(n)[0] != '0',
    decreases n,
{
    if n < 10 {
        lemma_digit_char(n as int);
        let s = nat_digits(n);
        assert(s.drop_last().len() == 0);
        assert(digits_value(s.drop_last()) == 0);
        assert(s.last() == digit_char(n as int));
    } else {
        lemma_nat_digits(n / 10);
        lemma_digit_char((n % 10) as int);
        let head = nat_digits(n / 10);
        let s = nat_digits(n);
        assert(s == head.push(digit_char((n % 10) as int)));
        assert(s.drop_last() =~= head);
        assert(s.last() == digit_char((n % 10) as int));
        assert(s[0] == head[0]);
        assert forall|i: int| 0 <= i < s.len() implies is_digit(#[trigger] s[i]) by {
            if i < head.len() {
                assert(s[i] == head[i]);
            }
        }
    }
}

/// Reading the numeral of a number gives the number back.
pub proof fn lemma_parse_decimal_of_decimal(n: int)
    ensures
        parse_decimal(decimal(n)) == Some(n),
{
    if n < 0 {
        let m = (-n) as nat;
        lemma_nat_digits(m);
        let s = decimal(n);
        assert(s[0] == '-');
        assert(s.skip(1) =~= nat_digits(m));
    } else {
        let m = n as nat;
        lemma_nat_digits(m);
        let s = decimal(n);
        assert(is_digit(s[0]));
    }
}

/// A numeral holds a minus sign or digits, and nothing else.
pub proof fn lemma_decimal_chars(n: int, i: int)
    requires
        0 <= i < decimal(n).len(),
    ensures
        decimal(n)[i] == '-' || is_digit(decimal(n)[i]),
{
    if n < 0 {
        lemma_nat_digits((-n) as nat);
        if i > 0 {
            assert(decimal(n)[i] == nat_digits((-n) as nat)[i - 1]);
        }
    } else {
        lemma_nat_digits(n as nat);
    }
}

/// The one-character string of the digit `d`.
fn digit_str(d: u64) -> (r: &'static str)
    requires
        d <= 9,
    ensures
        r@ == seq![digit_char(d as int)],
{
    proof {
        reveal_strlit("0");
        reveal_strlit("1");
        reveal_strlit("2");
        reveal_strlit("3");
        reveal_strlit("4");
        reveal_strlit("5");
        reveal_strlit("6");
        reveal_strlit("7");
        reveal_strlit("8");
        reveal_strlit("9");
    }
    let r = if d == 0 {
        "0"
    } else if d == 1 {
        "1"
    } else if d == 2 {
        "2"
    } else if d == 3 {
        "3"
    } else if d == 4 {
        "4"
    } else if d == 5 {
        "5"
    } else if d == 6 {
        "6"
    } else if d == 7 {
        "7"
    } else if d == 8 {
        "8"
    } else {
        "9"
    };
    assert(r@ =~= seq![digit_char(d as int)]);
    r
}

/// The decimal numeral of an unsigned number.
pub fn nat_string(n: u64) -> (r: String)
    ensures
        r@ == nat_digits(n as nat),
    decreases n,
{
    if n < 10 {
        String::from_str(digit_str(n))
    } else {
        let head = nat_string(n / 10);
        let r = head.concat(digit_str(n % 10));
        assert(r@ =~= nat_digits((n / 10) as nat).push(digit_char((n % 10) as int)));
        r
    }
}

/// The decimal numeral of a signed number.
pub fn decimal_string(n: i64) -> (r: String)
    ensures
        r@ == decimal(n as int),
{
    if n < 0 {
        let magnitude: u64 = if n == i64::MIN {
            9223372036854775808u64
        } else {
            (-n) as u64
        };
        proof {
            reveal_strlit("-");
        }
        let r = String::from_str("-").concat(nat_string(magnitude).as_str());
        assert(r@ =~= seq!['-'] + nat_digits((-n) as nat));
        r
    } else {
        nat_string(n as u64)
    }
}

/// `b == is_digit(c)`.
pub fn check_digit(c: char) -> (b: bool)
    ensures
        b == is_digit(c),
{
    '0' <= c && c <= '9'
}

/// A sequence of digits denotes at least as much as any of its prefixes.
pub proof fn lemma_digits_value_prefix(s: Seq<char>, k: int)
    requires
        all_digits(s),
        0 <= k <= s.len(),
    ensures
        digits_value(s.take(k)) <= digits_value(s),
    decreases s.len() - k,
{
    if k == s.len() {
        assert(s.take(k) =~= s);
    } else {
        let front = s.drop_last();
        assert(is_digit(s.last()));
        assert forall|i: int| 0 <= i < front.len() implies is_digit(#[trigger] front[i]) by {
            assert(front[i] == s[i]);
        }
        lemma_digits_value_prefix(front, k);
        assert(front.take(k) =~= s.take(k));
    }
}

/// Reads the characters `lo..hi` of `s` as a signed decimal numeral that fits
/// in an `i32`.
pub fn parse_i32(s: &Vec<char>, lo: usize, hi: usize) -> (r: Option<i32>)
    requires
        lo <= hi <= s.len(),
    ensures
        r == parse_i32_spec(s@.subrange(lo as int, hi as int)),
{
    let ghost whole = s@.subrange(lo as int, hi as int);
    if lo == hi {
        return None;
    }
    let first = s[lo];
    assert(first == whole[0]);
    let negative = first == '-';
    let start: usize = if first == '-' || first == '+' {
        lo + 1
    } else {
        lo
    };
    let ghost body = s@.subrange(start as int, hi as int);
    assert(body =~= if first == '-' || first == '+' {
        whole.skip(1)
    } else {
        whole
    });
    if start == hi {
        return None;
    }
    let mut i: usize = start;
    while i < hi
        invariant
            start <= i <= hi <= s.len(),
            whole == s@.subrange(lo as int, hi as int),
            body == s@.subrange(start as int, hi as int),
            !all_digits(body) ==> parse_i32_spec(whole) is None,
            forall|j: int| 0 <= j < i - start ==> is_digit(#[trigger] body[j]),
        decreases hi - i,
    {
        if !check_digit(s[i]) {
            assert(!is_digit(body[i - start]));
            return None;
        }
        i += 1;
    }
    assert(all_digits(body));
    let ghost value = digits_value(body) as int;
    assert(parse_decimal(whole) == Some(if negative {
        -value
    } else {
        value
    }));
    let mut acc: i64 = 0;
    let mut k: usize = start;
    while k < hi
        invariant
            start <= k <= hi <= s.len(),
            body == s@.subrange(start as int, hi as int),
            all_digits(body),
            whole == s@.subrange(lo as int, hi as int),
            value == digits_value(body),
            value > 2147483648 ==> parse_i32_spec(whole) is None,
            acc == digits_value(body.take(k - start)),
            0 <= acc <= 2147483648,
        decreases hi - k,
    {
        let ghost c = body[k - start];
        assert(is_digit(c));
        let d: i64 = (s[k] as u32 - '0' as u32) as i64;
        proof {
            let next = body.take(k - start + 1);
            assert(next.drop_last() =~= body.take(k - start));
            assert(next.last() == c);
            assert(digits_value(next) == acc * 10 + d);
            lemma_digits_value_prefix(body, k - start + 1);
        }
        acc = acc * 10 + d;
        if acc > 2147483648 {
            return None;
        }
        k += 1;
    }
    assert(body.take(k - start) =~= body);
    if negative {
        Some((-acc) as i32)
    } else if acc <= 2147483647 {
        Some(acc as i32)
    } else {
        None
    }
}

/// `sep` stands in `s` at index `i`.
pub open spec fn matches_at(s: Seq<char>, sep: Seq<char>, i: int) -> bool {
    0 <= i && i + sep.len() <= s.len() && s.subrange(i, i + sep.len()) == sep
}

/// The first index at or after `from` at which `sep` stands in `s`.
pub open spec fn first_match(s: Seq<char>, sep: Seq<char>, from: int) -> Option<int>
    decreases s.len() - from,
    when sep.len() > 0
{
    if from < 0 || from + sep.len() > s.len() {
        None
    } else if matches_at(s, sep, from) {
        Some(from)
    } else {
        first_match(s, sep, from + 1)
    }
}

/// What `first_match` finds is the least index from `from` on at which `sep`
/// stands, and it finds nothing only where there is none.
pub proof fn lemma_first_match(s: Seq<char>, sep: Seq<char>, from: int)
    requires
        0 <= from,
        sep.len() > 0,
    ensures
        match first_match(s, sep, from) {
            Some(i) => from <= i && matches_at(s, sep, i) && forall|j: int|
                from <= j < i ==> !matches_at(s, sep, j),
            None => forall|j: int| from <= j ==> !matches_at(s, sep, j),
        },
    decreases s.len() - from,
{
    if from + sep.len() > s.len() {
    } else if matches_at(s, sep, from) {
    } else {
        lemma_first_match(s, sep, from + 1);
    }
}

/// The index that `first_match` returns is determined by where `sep` stands.
pub proof fn lemma_first_match_is(s: Seq<char>, sep: Seq<char>, from: int, i: int)
    requires
        0 <= from <= i,
        sep.len() > 0,
        matches_at(s, sep, i),
        forall|j: int| from <= j < i ==> !matches_at(s, sep, j),
    ensures
        first_match(s, sep, from) == Some(i),
{
    lemma_first_match(s, sep, from);
}

/// Where `sep` stands nowhere from `from` on, `first_match` finds nothing.
pub proof fn lemma_first_match_none(s: Seq<char>, sep: Seq<char>, from: int)
    requires
        0 <= from,
        sep.len() > 0,
        forall|j: int| from <= j ==> !matches_at(s, sep, j),
    ensures
        first_match(s, sep, from) is None,
{
    lemma_first_match(s, sep, from);
}

/// The pieces of `s` from index `from` on, cut at each place where `sep`
/// stands. The places are found from left to right and do not overlap: the
/// search goes on behind the separator that was found last.
pub open spec fn split_from(s: Seq<char>, sep: Seq<char>, from: int) -> Seq<Seq<char>>
    decreases s.len() - from,
    when 0 <= from <= s.len() && sep.len() > 0
{
    match first_match(s, sep, from) {
        None => seq![s.subrange(from, s.len() as int)],
        Some(i) => {
            proof {
                lemma_first_match(s, sep, from);
            }
            seq![s.subrange(from, i)] + split_from(s, sep, i + sep.len())
        },
    }
}

/// The pieces of `s` between the places where the non-empty `sep` stands.
/// There is always at least one piece; a separator at either end gives an
/// empty piece there.
pub open spec fn split(s: Seq<char>, sep: Seq<char>) -> Seq<Seq<char>> {
    split_from(s, sep, 0)
}

/// The pieces that the index ranges `cuts` take out of `s`.
pub open spec fn pieces(s: Seq<char>, cuts: Seq<(usize, usize)>) -> Seq<Seq<char>> {
    Seq::new(cuts.len(), |i: int| s.subrange(cuts[i].0 as int, cuts[i].1 as int))
}

/// Whether `sep` stands in `s` at index `i`.
fn matches_here(s: &Vec<char>, sep: &Vec<char>, i: usize) -> (b: bool)
    requires
        i + sep.len() <= s.len(),
    ensures
        b == matches_at(s@, sep@, i as int),
{
    let ghost window = s@.subrange(i as int, i + sep.len());
    let mut k: usize = 0;
    while k < sep.len()
        invariant
            k <= sep.len(),
            i + sep.len() <= s.len(),
            window == s@.subrange(i as int, i + sep.len()),
            forall|j: int| 0 <= j < k ==> window[j] == sep@[j],
        decreases sep.len() - k,
    {
        if s[i + k] != sep[k] {
            assert(window[k as int] != sep@[k as int]);
            return false;
        }
        k += 1;
    }
    assert(window =~= sep@);
    true
}

/// Cuts `s` at each place where `sep` stands, as `split` says, and returns
/// the index range of each piece.
pub fn split_ranges(s: &Vec<char>, sep: &Vec<char>) -> (cuts: Vec<(usize, usize)>)
    requires
        sep.len() > 0,
    ensures
        forall|i: int| 0 <= i < cuts.len() ==> (#[trigger] cuts[i]).0 <= cuts[i].1 <= s.len(),
        pieces(s@, cuts@) == split(s@, sep@),
{
    let n = s.len();
    let m = sep.len();
    let mut cuts: Vec<(usize, usize)> = Vec::new();
    let mut start: usize = 0;
    let mut i: usize = 0;
    assert(pieces(s@, cuts@) + split_from(s@, sep@, 0) =~= split(s@, sep@));
    while m <= n && i <= n - m
        invariant
            n == s.len(),
            m == sep.len(),
            m > 0,
            start <= i <= n,
            forall|j: int| start <= j < i ==> !matches_at(s@, sep@, j),
            forall|j: int| 0 <= j < cuts.len() ==> (#[trigger] cuts[j]).0 <= cuts[j].1 <= n,
            pieces(s@, cuts@) + split_from(s@, sep@, start as int) == split(s@, sep@),
        decreases n - i,
    {
        if matches_here(s, sep, i) {
            proof {
                lemma_first_match_is(s@, sep@, start as int, i as int);
                let before = pieces(s@, cuts@);
                let after = pieces(s@, cuts@.push((start, i)));
                assert(after =~= before.push(s@.subrange(start as int, i as int)));
                assert(after + split_from(s@, sep@, i + m) =~= before + split_from(
                    s@,
                    sep@,
                    start as int,
                ));
            }
            cuts.push((start, i));
            start = i + m;
            i = start;
        } else {
            i += 1;
        }
    }
    proof {
        lemma_first_match_none(s@, sep@, start as int);
        let before = pieces(s@, cuts@);
        let after = pieces(s@, cuts@.push((start, n)));
        assert(after =~= before.push(s@.subrange(start as int, n as int)));
        assert(after =~= before + split_from(s@, sep@, start as int));
    }
    cuts.push((start, n));
    cuts
}

} // verus!
