//! Range parsing and score interpretation.
//!
//! An interpretation table attaches a free-text interpretation to a textual
//! score range of the shape `"lo-hi"`: two non-negative decimal numbers
//! around a single `-` separator, each allowed to carry surrounding
//! whitespace.  The engine maps a submitted score to the text of the first
//! entry whose range contains it.

use vstd::prelude::*;
use vstd::string::StrSliceExecFns;

use crate::errors::EvalError;

verus! {

/// Whitespace stripped around the two halves of a range string: the
/// Unicode white-space characters, the set that `str::trim` removes.
pub open spec fn is_space_char(c: char) -> bool {
    let u = c as u32;
    ||| u == 0x9
    ||| u == 0xA
    ||| u == 0xB
    ||| u == 0xC
    ||| u == 0xD
    ||| u == 0x20
    ||| u == 0x85
    ||| u == 0xA0
    ||| u == 0x1680
    ||| (0x2000 <= u && u <= 0x200A)
    ||| u == 0x2028
    ||| u == 0x2029
    ||| u == 0x202F
    ||| u == 0x205F
    ||| u == 0x3000
}

/// An ASCII decimal digit.
pub open spec fn is_digit_char(c: char) -> bool {
    48 <= c as u32 && c as u32 <= 57
}

/// Numeric value of a single decimal digit.
pub open spec fn digit_val(c: char) -> int {
    c as u32 - 48
}

/// Every character of `s` is a decimal digit.
pub open spec fn all_digits(s: Seq<char>) -> bool {
    forall|i: int| 0 <= i < s.len() ==> is_digit_char(#[trigger] s[i])
}

/// Numeric value of a digit string, most significant digit first.
pub open spec fn digits_val(s: Seq<char>) -> int
    decreases s.len(),
{
    if s.len() == 0 {
        0
    } else {
        10 * digits_val(s.drop_last()) + digit_val(s.last())
    }
}

/// What parsing one half of a range string yields: a number exactly when the
/// text is one or more decimal digits whose value fits in a `u32`.
pub open spec fn spec_parse_u32(s: Seq<char>) -> Option<u32> {
    if s.len() > 0 && all_digits(s) && digits_val(s) <= u32::MAX {
        Some(digits_val(s) as u32)
    } else {
        None
    }
}

/// `s` with leading whitespace removed.
pub open spec fn drop_leading_spaces(s: Seq<char>) -> Seq<char>
    decreases s.len(),
{
    if s.len() > 0 && is_space_char(s.first()) {
        drop_leading_spaces(s.drop_first())
    } else {
        s
    }
}

/// `s` with trailing whitespace removed.
pub open spec fn drop_trailing_spaces(s: Seq<char>) -> Seq<char>
    decreases s.len(),
{
    if s.len() > 0 && is_space_char(s.last()) {
        drop_trailing_spaces(s.drop_last())
    } else {
        s
    }
}

/// `s` with whitespace removed at both ends.
pub open spec fn spec_trim(s: Seq<char>) -> Seq<char> {
    drop_trailing_spaces(drop_leading_spaces(s))
}

/// `i` points at the one and only `-` of `s`.
pub open spec fn lone_dash_at(s: Seq<char>, i: int) -> bool {
    &&& 0 <= i < s.len()
    &&& s[i] == '-'
    &&& forall|j: int| 0 <= j < s.len() && j != i ==> s[j] != '-'
}

/// What parsing a whole range string yields: the string must split at a
/// single `-` into two halves that, once trimmed, are both decimal numbers.
pub open spec fn spec_parse_range(s: Seq<char>) -> Option<(u32, u32)> {
    if exists|i: int| lone_dash_at(s, i) {
        let i = choose|i: int| lone_dash_at(s, i);
        match (spec_parse_u32(spec_trim(s.take(i))), spec_parse_u32(spec_trim(s.skip(i + 1)))) {
            (Some(lo), Some(hi)) => Some((lo, hi)),
            _ => None,
        }
    } else {
        None
    }
}

proof fn lemma_all_digits_sub(s: Seq<char>, a: int, b: int)
    requires
        0 <= a <= b <= s.len(),
        all_digits(s),
    ensures
        all_digits(s.subrange(a, b)),
{
    assert forall|i: int| 0 <= i < s.subrange(a, b).len() implies is_digit_char(
        #[trigger] s.subrange(a, b)[i],
    ) by {
        assert(s.subrange(a, b)[i] == s[a + i]);
    }
}

proof fn lemma_digits_val_nonneg(s: Seq<char>)
    requires
        all_digits(s),
    ensures
        digits_val(s) >= 0,
    decreases s.len(),
{
    if s.len() > 0 {
        lemma_all_digits_sub(s, 0, s.len() - 1);
        assert(s.drop_last() == s.subrange(0, s.len() - 1));
        lemma_digits_val_nonneg(s.drop_last());
    }
}

/// The value of a digit string never drops when the string is extended.
proof fn lemma_digits_val_take_le(s: Seq<char>, k: int)
    requires
        all_digits(s),
        0 <= k <= s.len(),
    ensures
        digits_val(s.take(k)) <= digits_val(s),
    decreases s.len() - k,
{
    if k < s.len() {
        assert(s.take(k + 1).drop_last() =~= s.take(k));
        assert(s.take(k + 1).last() == s[k]);
        lemma_all_digits_sub(s, 0, k);
        assert(s.take(k) == s.subrange(0, k));
        lemma_digits_val_nonneg(s.take(k));
        assert(digits_val(s.take(k + 1)) == 10 * digits_val(s.take(k)) + digit_val(s[k]));
        lemma_digits_val_take_le(s, k + 1);
    } else {
        assert(s.take(k) =~= s);
    }
}

/// Collect the characters of a string, so that the parser can address them
/// by position.
fn chars_of(s: &str) -> (cs: Vec<char>)
    ensures
        cs@ == s@,
{
    let n = s.unicode_len();
    let mut cs: Vec<char> = Vec::new();
    let mut i: usize = 0;
    while i < n
        invariant
            n == s@.len(),
            0 <= i <= n,
            cs@ == s@.take(i as int),
        decreases n - i,
    {
        cs.push(s.get_char(i));
        proof {
            assert(s@.take(i as int).push(s@[i as int]) =~= s@.take(i + 1));
        }
        i = i + 1;
    }
    proof {
        assert(s@.take(n as int) =~= s@);
    }
    cs
}

/// Parse the characters `cs[from..to]` as a decimal `u32`.
fn parse_u32_in(cs: &Vec<char>, from: usize, to: usize) -> (r: Option<u32>)
    requires
        from <= to <= cs@.len(),
    ensures
        r == spec_parse_u32(cs@.subrange(from as int, to as int)),
{
    let ghost whole = cs@.subrange(from as int, to as int);
    if from == to {
        return None;
    }
    let mut acc: u32 = 0;
    let mut i: usize = from;
    while i < to
        invariant
            from <= i <= to <= cs@.len(),
            whole == cs@.subrange(from as int, to as int),
            all_digits(cs@.subrange(from as int, i as int)),
            acc == digits_val(cs@.subrange(from as int, i as int)),
        decreases to - i,
    {
        let ghost prefix = cs@.subrange(from as int, i as int);
        let c = cs[i];
        let u = c as u32;
        if u < 48 || u > 57 {
            proof {
                assert(whole[i - from] == cs@[i as int]);
            }
            return None;
        }
        let d = u - 48;
        proof {
            assert(cs@.subrange(from as int, i + 1).drop_last() =~= prefix);
            assert(cs@.subrange(from as int, i + 1).last() == cs@[i as int]);
            assert forall|j: int| 0 <= j < i + 1 - from implies is_digit_char(
                #[trigger] cs@.subrange(from as int, i + 1)[j],
            ) by {
                if j < i - from {
                    assert(cs@.subrange(from as int, i + 1)[j] == prefix[j]);
                } else {
                    assert(cs@.subrange(from as int, i + 1)[j] == cs@[i as int]);
                }
            }
        }
        let next = match acc.checked_mul(10) {
            Some(v) => v.checked_add(d),
            None => None,
        };
        match next {
            Some(v) => {
                acc = v;
            },
            None => {
                // The prefix through this digit is already worth more than
                // u32::MAX, so the whole string cannot fit either.
                proof {
                    if all_digits(whole) {
                        lemma_digits_val_take_le(whole, i + 1 - from);
                        assert(whole.take(i + 1 - from) =~= cs@.subrange(from as int, i + 1));
                        lemma_digits_val_nonneg(whole);
                    }
                }
                return None;
            },
        }
        i = i + 1;
    }
    proof {
        assert(cs@.subrange(from as int, to as int) == whole);
    }
    Some(acc)
}

/// Exec mirror of `is_space_char`.
fn is_space(c: char) -> (b: bool)
    ensures
        b == is_space_char(c),
{
    let u = c as u32;
    u == 0x9 || u == 0xA || u == 0xB || u == 0xC || u == 0xD || u == 0x20 || u == 0x85
        || u == 0xA0 || u == 0x1680 || (0x2000 <= u && u <= 0x200A) || u == 0x2028 || u == 0x2029
        || u == 0x202F || u == 0x205F || u == 0x3000
}

/// Narrow `cs[from..to]` to the bounds that survive trimming whitespace.
fn trim_bounds(cs: &Vec<char>, from: usize, to: usize) -> (r: (usize, usize))
    requires
        from <= to <= cs@.len(),
    ensures
        from <= r.0 <= r.1 <= to,
        cs@.subrange(r.0 as int, r.1 as int) == spec_trim(
            cs@.subrange(from as int, to as int),
        ),
{
    let mut a = from;
    while a < to && is_space(cs[a])
        invariant
            from <= a <= to <= cs@.len(),
            drop_leading_spaces(cs@.subrange(from as int, to as int)) == drop_leading_spaces(
                cs@.subrange(a as int, to as int),
            ),
        decreases to - a,
    {
        proof {
            assert(cs@.subrange(a as int, to as int).drop_first() =~= cs@.subrange(
                a + 1,
                to as int,
            ));
        }
        a = a + 1;
    }
    proof {
        assert(drop_leading_spaces(cs@.subrange(a as int, to as int)) == cs@.subrange(
            a as int,
            to as int,
        ));
    }
    let mut b = to;
    while b > a && is_space(cs[b - 1])
        invariant
            from <= a <= b <= to <= cs@.len(),
            drop_trailing_spaces(cs@.subrange(a as int, to as int)) == drop_trailing_spaces(
                cs@.subrange(a as int, b as int),
            ),
        decreases b - a,
    {
        proof {
            assert(cs@.subrange(a as int, b as int).drop_last() =~= cs@.subrange(
                a as int,
                b - 1,
            ));
        }
        b = b - 1;
    }
    proof {
        assert(drop_trailing_spaces(cs@.subrange(a as int, b as int)) == cs@.subrange(
            a as int,
            b as int,
        ));
    }
    (a, b)
}

/// Parse a `"lo-hi"` range string into its inclusive bounds.
///
/// The string must hold exactly one `-`; both halves, trimmed of surrounding
/// whitespace, must be non-negative decimal numbers that fit in a `u32`.
/// Every other shape yields `None`.
pub fn parse_score_range(range_str: &str) -> (r: Option<(u32, u32)>)
    ensures
        r == spec_parse_range(range_str@),
{
    let cs = chars_of(range_str);
    let n = cs.len();
    let mut dash: Option<usize> = None;
    let mut i: usize = 0;
    while i < n
        invariant
            n == cs@.len(),
            cs@ == range_str@,
            0 <= i <= n,
            match dash {
                Some(p) => {
                    &&& 0 <= p < i
                    &&& cs@[p as int] == '-'
                    &&& forall|j: int| 0 <= j < i && j != p ==> cs@[j] != '-'
                },
                None => forall|j: int| 0 <= j < i ==> cs@[j] != '-',
            },
        decreases n - i,
    {
        if cs[i] == '-' {
            match dash {
                None => {
                    dash = Some(i);
                },
                Some(p) => {
                    // A second separator: no position can be the lone dash.
                    proof {
                        assert forall|k: int| !lone_dash_at(cs@, k) by {
                            if lone_dash_at(cs@, k) {
                                assert(cs@[p as int] == '-');
                                assert(cs@[i as int] == '-');
                            }
                        }
                    }
                    return None;
                },
            }
        }
        i = i + 1;
    }
    let p = match dash {
        Some(p) => p,
        None => {
            proof {
                assert forall|k: int| !lone_dash_at(cs@, k) by {}
            }
            return None;
        },
    };
    proof {
        assert(lone_dash_at(cs@, p as int));
        let ci = choose|k: int| lone_dash_at(cs@, k);
        assert(ci == p as int) by {
            if ci != p as int {
                assert(cs@[ci] == '-');
            }
        }
        assert(cs@.take(p as int) =~= cs@.subrange(0, p as int));
        assert(cs@.skip(p + 1) =~= cs@.subrange(p + 1, n as int));
    }
    let (a1, b1) = trim_bounds(&cs, 0, p);
    let lo = parse_u32_in(&cs, a1, b1);
    let (a2, b2) = trim_bounds(&cs, p + 1, n);
    let hi = parse_u32_in(&cs, a2, b2);
    match (lo, hi) {
        (Some(l), Some(h)) => Some((l, h)),
        _ => None,
    }
}

/// A range string is valid exactly when `parse_score_range` accepts it.
/// Used as the write-time validator for interpretation tables.
pub fn is_valid_range(range_str: &str) -> (b: bool)
    ensures
        b == (spec_parse_range(range_str@) is Some),
{
    parse_score_range(range_str).is_some()
}

/// Ghost outcome of evaluating a score against a table.
pub enum SpecEval {
    Matched(Seq<char>),
    NoMatch,
    Corrupt,
}

/// The entries of a table as character sequences.
pub open spec fn table_view(entries: Seq<(String, String)>) -> Seq<(Seq<char>, Seq<char>)> {
    entries.map_values(|e: (String, String)| (e.0@, e.1@))
}

/// What evaluating a score against a table yields: walking the entries in
/// order, the first entry decides — a key that does not parse is a fatal
/// configuration fault, a range that contains the score is a match; a score
/// outside every well-formed range is a plain no-match.
pub open spec fn spec_evaluate(score: u32, entries: Seq<(Seq<char>, Seq<char>)>) -> SpecEval
    decreases entries.len(),
{
    if entries.len() == 0 {
        SpecEval::NoMatch
    } else {
        match spec_parse_range(entries.first().0) {
            Option::None => SpecEval::Corrupt,
            Option::Some((lo, hi)) => if lo <= score && score <= hi {
                SpecEval::Matched(entries.first().1)
            } else {
                spec_evaluate(score, entries.drop_first())
            },
        }
    }
}

/// The interpretation the engine hands back for a score.
#[derive(Debug, Clone, PartialEq, Eq)]
pub enum Interpretation {
    Matched(String),
    NoMatch,
}

/// The ghost outcome that an engine result stands for.
pub open spec fn eval_view(r: Result<Interpretation, EvalError>) -> SpecEval {
    match r {
        Result::Ok(Interpretation::Matched(t)) => SpecEval::Matched(t@),
        Result::Ok(Interpretation::NoMatch) => SpecEval::NoMatch,
        Result::Err(EvalError::ConfigCorrupt) => SpecEval::Corrupt,
    }
}

/// Map a score to the interpretation of the first entry whose range holds
/// it.  A key that fails to parse is reported as corrupt configuration, and
/// never silently skipped.
pub fn evaluate(score: u32, entries: &Vec<(String, String)>) -> (r: Result<
    Interpretation,
    EvalError,
>)
    ensures
        eval_view(r) == spec_evaluate(score, table_view(entries@)),
{
    let ghost tv = table_view(entries@);
    proof {
        assert(tv.skip(0) =~= tv);
    }
    let n = entries.len();
    let mut i: usize = 0;
    while i < n
        invariant
            n == entries@.len(),
            tv == table_view(entries@),
            tv.len() == n,
            0 <= i <= n,
            spec_evaluate(score, tv) == spec_evaluate(score, tv.skip(i as int)),
        decreases n - i,
    {
        let entry = &entries[i];
        let parsed = parse_score_range(entry.0.as_str());
        proof {
            assert(tv.skip(i as int).first() == tv[i as int]);
        }
        match parsed {
            Option::None => {
                return Err(EvalError::ConfigCorrupt);
            },
            Option::Some((lo, hi)) => {
                if lo <= score && score <= hi {
                    return Ok(Interpretation::Matched(entry.1.clone()));
                }
            },
        }
        proof {
            assert(tv.skip(i as int).drop_first() =~= tv.skip(i + 1));
        }
        i = i + 1;
    }
    proof {
        assert(tv.skip(n as int) =~= Seq::<(Seq<char>, Seq<char>)>::empty());
    }
    Ok(Interpretation::NoMatch)
}

/// A table that holds a malformed key is never answered with a plain
/// no-match: evaluation either matched an entry that precedes the bad key,
/// or surfaces the corrupt configuration.
pub proof fn lemma_corrupt_key_never_no_match(
    score: u32,
    entries: Seq<(Seq<char>, Seq<char>)>,
    i: int,
)
    requires
        0 <= i < entries.len(),
        spec_parse_range(entries[i].0) is None,
    ensures
        spec_evaluate(score, entries) !is NoMatch,
    decreases entries.len(),
{
    if i > 0 {
        match spec_parse_range(entries.first().0) {
            Option::None => {},
            Option::Some((lo, hi)) => {
                if !(lo <= score && score <= hi) {
                    assert(entries.drop_first()[i - 1] == entries[i]);
                    lemma_corrupt_key_never_no_match(score, entries.drop_first(), i - 1);
                }
            },
        }
    }
}

/// The decimal digit character for `d`.
pub open spec fn digit_char(d: int) -> char {
    if d == 0 {
        '0'
    } else if d == 1 {
        '1'
    } else if d == 2 {
        '2'
    } else if d == 3 {
        '3'
    } else if d == 4 {
        '4'
    } else if d == 5 {
        '5'
    } else if d == 6 {
        '6'
    } else if d == 7 {
        '7'
    } else if d == 8 {
        '8'
    } else {
        '9'
    }
}

/// Decimal rendering of `n`, most significant digit first.
pub open spec fn spec_digits_of(n: nat) -> Seq<char>
    decreases n,
{
    if n < 10 {
        seq![digit_char(n as int)]
    } else {
        spec_digits_of(n / 10).push(digit_char((n % 10) as int))
    }
}

/// The canonical text for the range from `lo` to `hi`.
pub open spec fn spec_range_string(lo: u32, hi: u32) -> Seq<char> {
    spec_digits_of(lo as nat) + seq!['-'] + spec_digits_of(hi as nat)
}

proof fn lemma_digits_of_digits(n: nat)
    ensures
        spec_digits_of(n).len() >= 1,
        all_digits(spec_digits_of(n)),
        digits_val(spec_digits_of(n)) == n,
    decreases n,
{
    if n < 10 {
        let s = spec_digits_of(n);
        assert(s.drop_last() =~= Seq::<char>::empty());
        assert(s.last() == digit_char(n as int));
        assert(digit_val(digit_char(n as int)) == n);
        assert(digits_val(s) == 10 * digits_val(s.drop_last()) + digit_val(s.last()));
    } else {
        lemma_digits_of_digits(n / 10);
        let t = spec_digits_of(n / 10);
        let c = digit_char((n % 10) as int);
        let s = t.push(c);
        assert(s.drop_last() =~= t);
        assert forall|j: int| 0 <= j < s.len() implies is_digit_char(#[trigger] s[j]) by {
            if j < t.len() {
                assert(s[j] == t[j]);
            } else {
                assert(s[j] == c);
            }
        }
        assert(10 * (n / 10) + n % 10 == n) by {
            vstd::arithmetic::div_mod::lemma_fundamental_div_mod(n as int, 10);
        }
        assert(digits_val(s) == 10 * digits_val(t) + digit_val(c));
    }
}

/// Parsing inverts rendering: for any bounds `lo <= hi`, the canonical
/// `"lo-hi"` text parses back to exactly those bounds.
pub proof fn lemma_parse_range_round_trip(lo: u32, hi: u32)
    requires
        lo <= hi,
    ensures
        spec_parse_range(spec_range_string(lo, hi)) == Some((lo, hi)),
{
    let ds_lo = spec_digits_of(lo as nat);
    let ds_hi = spec_digits_of(hi as nat);
    let s = spec_range_string(lo, hi);
    lemma_digits_of_digits(lo as nat);
    lemma_digits_of_digits(hi as nat);
    let p = ds_lo.len() as int;
    assert(s[p] == '-');
    assert forall|j: int| 0 <= j < s.len() && j != p implies s[j] != '-' by {
        if j < p {
            assert(s[j] == ds_lo[j]);
            assert(is_digit_char(ds_lo[j]));
        } else if j > p {
            assert(s[j] == ds_hi[j - p - 1]);
            assert(is_digit_char(ds_hi[j - p - 1]));
        }
    }
    assert(lone_dash_at(s, p));
    let ci = choose|k: int| lone_dash_at(s, k);
    assert(ci == p) by {
        if ci != p {
            assert(s[ci] == '-');
        }
    }
    assert(s.take(p) =~= ds_lo);
    assert(s.skip(p + 1) =~= ds_hi);
    lemma_trim_digits(ds_lo);
    lemma_trim_digits(ds_hi);
}

/// Trimming leaves a digit string untouched.
proof fn lemma_trim_digits(s: Seq<char>)
    requires
        s.len() >= 1,
        all_digits(s),
    ensures
        spec_trim(s) == s,
{
    assert(is_digit_char(s.first()));
    assert(!is_space_char(s.first()));
    assert(is_digit_char(s.last()));
    assert(!is_space_char(s.last()));
}

} // verus!
