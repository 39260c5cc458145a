//! The version number that a `clang --version` banner reports.

use vstd::prelude::*;

use libc::c_int;

use crate::text::{
    chars_of, find_from, find_from_index, is_digit, is_whitespace, is_ws, lemma_find_from_some,
    lemma_find_from_first, lemma_find_from_none, occurs_at, sub_vec, trim_start,
};

verus! {

/// A `clang` version: major, minor and subminor numbers.
#[allow(non_snake_case)]
#[derive(Clone, Copy, Debug, PartialEq, Eq, Structural)]
pub struct CXVersion {
    pub Major: c_int,
    pub Minor: c_int,
    pub Subminor: c_int,
}

/// The text that precedes the version number in a banner.
pub open spec fn version_marker() -> Seq<char> {
    "version "@
}

/// The number of ASCII digits at the start of `s`.
pub open spec fn digit_run_len(s: Seq<char>) -> nat
    decreases s.len(),
{
    if s.len() > 0 && is_digit(s[0]) {
        1 + digit_run_len(s.drop_first())
    } else {
        0
    }
}

/// The value of a run of ASCII digits, read as a decimal number.
pub open spec fn digits_value(d: Seq<char>) -> int
    decreases d.len(),
{
    if d.len() == 0 {
        0
    } else {
        digits_value(d.drop_last()) * 10 + ((d.last() as u32) as int - 48)
    }
}

/// The number that the leading digits of `s` spell, ignoring whatever follows
/// them; none where `s` starts with no digit or the number exceeds `c_int`.
pub open spec fn number_of(s: Seq<char>) -> Option<c_int> {
    let d = s.take(digit_run_len(s) as int);
    if d.len() == 0 || digits_value(d) > i32::MAX {
        None
    } else {
        Some(digits_value(d) as c_int)
    }
}

/// The number of characters before the first whitespace in `s`.
pub open spec fn non_ws_run_len(s: Seq<char>) -> nat
    decreases s.len(),
{
    if s.len() > 0 && !is_ws(s[0]) {
        1 + non_ws_run_len(s.drop_first())
    } else {
        0
    }
}

/// The first whitespace-delimited token of `s`, if it has one.
pub open spec fn first_token(s: Seq<char>) -> Option<Seq<char>> {
    let t = trim_start(s);
    if t.len() == 0 {
        None
    } else {
        Some(t.take(non_ws_run_len(t) as int))
    }
}

/// The piece of `tok` with index `k` when `tok` is split on `.`.
pub open spec fn segment(tok: Seq<char>, k: nat) -> Option<Seq<char>>
    decreases k,
{
    match find_from(tok, seq!['.'], 0) {
        None => if k == 0 {
            Some(tok)
        } else {
            None
        },
        Some(d) => if k == 0 {
            Some(tok.take(d))
        } else {
            segment(tok.skip(d + 1), (k - 1) as nat)
        },
    }
}

/// The number that the piece of `tok` with index `k` starts with.
pub open spec fn segment_number(tok: Seq<char>, k: nat) -> Option<c_int> {
    match segment(tok, k) {
        Some(seg) => number_of(seg),
        None => None,
    }
}

/// The version in a banner: the token after the first `"version "`, split on
/// `.`, whose first two pieces must start with a number; the third piece gives
/// the subminor number, zero where it is missing or starts with no digit.
pub open spec fn version_of(text: Seq<char>) -> Option<CXVersion> {
    match find_from(text, version_marker(), 0) {
        None => None,
        Some(i) => match first_token(text.skip(i + version_marker().len())) {
            None => None,
            Some(tok) => match (segment_number(tok, 0), segment_number(tok, 1)) {
                (Some(major), Some(minor)) => Some(
                    CXVersion {
                        Major: major,
                        Minor: minor,
                        Subminor: match segment_number(tok, 2) {
                            Some(sub) => sub,
                            None => 0,
                        },
                    },
                ),
                _ => None,
            },
        },
    }
}

/// A non-empty run of ASCII digits whose value fits in a `c_int`.
pub open spec fn is_decimal(d: Seq<char>) -> bool {
    &&& d.len() > 0
    &&& forall|j: int| 0 <= j < d.len() ==> is_digit(#[trigger] d[j])
    &&& digits_value(d) <= i32::MAX
}

/// A decimal reads as its value.
proof fn lemma_number_of_decimal(d: Seq<char>)
    requires
        is_decimal(d),
    ensures
        number_of(d) == Some(digits_value(d) as c_int),
{
    lemma_digit_run_len(d, d.len() as int);
    assert(d.take(d.len() as int) =~= d);
}

/// Where `tok` is `d` followed by `.` and `rest`, and `d` holds no `.`, the
/// first piece is `d` and the later ones are those of `rest`.
proof fn lemma_segment_step(d: Seq<char>, rest: Seq<char>, k: nat)
    requires
        forall|j: int| 0 <= j < d.len() ==> d[j] != '.',
    ensures
        segment(d + seq!['.'] + rest, 0) == Some(d),
        k > 0 ==> segment(d + seq!['.'] + rest, k) == segment(rest, (k - 1) as nat),
{
    let tok = d + seq!['.'] + rest;
    assert(tok.subrange(d.len() as int, d.len() + 1 as int) =~= seq!['.']);
    assert forall|j: int| 0 <= j < d.len() implies !occurs_at(tok, seq!['.'], j) by {
        if occurs_at(tok, seq!['.'], j) {
            assert(tok.subrange(j, j + 1)[0] == '.');
        }
    }
    lemma_find_from_first(tok, seq!['.'], 0, d.len() as int);
    assert(tok.take(d.len() as int) =~= d);
    assert(tok.skip(d.len() + 1 as int) =~= rest);
}

/// A piece that holds no `.` is the only piece.
proof fn lemma_segment_last(d: Seq<char>)
    requires
        forall|j: int| 0 <= j < d.len() ==> d[j] != '.',
    ensures
        segment(d, 0) == Some(d),
{
    assert forall|j: int| 0 <= j implies !occurs_at(d, seq!['.'], j) by {
        if occurs_at(d, seq!['.'], j) {
            assert(d.subrange(j, j + 1)[0] == '.');
        }
    }
    lemma_find_from_none(d, seq!['.'], 0);
}

/// A banner `... version M.m.s ...` whose decimal numbers fit in a `c_int`
/// reads as exactly `{M, m, s}`, where no earlier `version ` occurs and the
/// number is followed by whitespace or the end of the text.
pub proof fn lemma_banner_version(
    prefix: Seq<char>,
    major: Seq<char>,
    minor: Seq<char>,
    sub: Seq<char>,
    suffix: Seq<char>,
)
    requires
        is_decimal(major),
        is_decimal(minor),
        is_decimal(sub),
        suffix.len() == 0 || is_ws(suffix[0]),
        forall|j: int|
            0 <= j < prefix.len() ==> !occurs_at(
                prefix + version_marker() + major + seq!['.'] + minor + seq!['.'] + sub + suffix,
                version_marker(),
                j,
            ),
    ensures
        version_of(
            prefix + version_marker() + major + seq!['.'] + minor + seq!['.'] + sub + suffix,
        ) == Some(
            CXVersion {
                Major: digits_value(major) as c_int,
                Minor: digits_value(minor) as c_int,
                Subminor: digits_value(sub) as c_int,
            },
        ),
{
    reveal_strlit("version ");
    let text = prefix + version_marker() + major + seq!['.'] + minor + seq!['.'] + sub + suffix;
    let p = prefix.len() as int;
    let m = version_marker().len() as int;
    assert(text.subrange(p, p + m) =~= version_marker());
    lemma_find_from_first(text, version_marker(), 0, p);
    let tok = major + seq!['.'] + minor + seq!['.'] + sub;
    let after = text.skip(p + m);
    assert(after =~= tok + suffix);
    assert(!is_ws(after[0]));
    assert(trim_start(after) == after);
    assert forall|j: int| 0 <= j < tok.len() implies !is_ws(#[trigger] after[j]) by {
        assert(after[j] == tok[j]);
        if j < major.len() {
            assert(is_digit(major[j]));
        } else if major.len() < j < major.len() + 1 + minor.len() {
            assert(is_digit(minor[j - major.len() - 1]));
        } else if major.len() + 1 + minor.len() < j {
            assert(is_digit(sub[j - major.len() - 2 - minor.len()]));
        }
    }
    lemma_non_ws_run_len(after, tok.len() as int);
    assert(after.take(tok.len() as int) =~= tok);
    assert(first_token(after) == Some(tok));
    let tail = minor + seq!['.'] + sub;
    assert(tok =~= major + seq!['.'] + tail);
    lemma_segment_step(major, tail, 1);
    lemma_segment_step(major, tail, 2);
    lemma_segment_step(minor, sub, 1);
    lemma_segment_last(sub);
    lemma_number_of_decimal(major);
    lemma_number_of_decimal(minor);
    lemma_number_of_decimal(sub);
}

proof fn lemma_digit_run_len(s: Seq<char>, k: int)
    requires
        0 <= k <= s.len(),
        forall|j: int| 0 <= j < k ==> is_digit(s[j]),
        k == s.len() || !is_digit(s[k]),
    ensures
        digit_run_len(s) == k,
    decreases k,
{
    if k > 0 {
        lemma_digit_run_len(s.drop_first(), k - 1);
    }
}

proof fn lemma_non_ws_run_len(s: Seq<char>, k: int)
    requires
        0 <= k <= s.len(),
        forall|j: int| 0 <= j < k ==> !is_ws(s[j]),
        k == s.len() || is_ws(s[k]),
    ensures
        non_ws_run_len(s) == k,
    decreases k,
{
    if k > 0 {
        lemma_non_ws_run_len(s.drop_first(), k - 1);
    }
}

fn leading_number(v: &Vec<char>) -> (r: Option<c_int>)
    ensures
        r == number_of(v@),
{
    let mut k: usize = 0;
    let mut value: u64 = 0;
    let mut over = false;
    while k < v.len() && '0' <= v[k] && v[k] <= '9'
        invariant
            k <= v.len(),
            forall|j: int| 0 <= j < k ==> is_digit(v@[j]),
            over ==> digits_value(v@.take(k as int)) > i32::MAX,
            !over ==> value == digits_value(v@.take(k as int)) && value <= i32::MAX,
        decreases v.len() - k,
    {
        assert(v@.take(k + 1).drop_last() =~= v@.take(k as int));
        if !over {
            let d: u64 = (v[k] as u32 - '0' as u32) as u64;
            let next: u64 = value * 10 + d;
            if next > i32::MAX as u64 {
                over = true;
            } else {
                value = next;
            }
        }
        k += 1;
    }
    proof {
        lemma_digit_run_len(v@, k as int);
    }
    if k == 0 || over {
        None
    } else {
        Some(value as c_int)
    }
}

/// Parses the number at the start of `number`, ignoring trailing non-digit
/// characters (`"8rc1"` gives 8).
pub fn parse_version_number(number: &str) -> (r: Option<c_int>)
    ensures
        r == number_of(number@),
{
    let v = chars_of(number);
    leading_number(&v)
}

fn segment_of(tok: &Vec<char>, k: usize) -> (r: Option<Vec<char>>)
    ensures
        match r {
            Some(seg) => segment(tok@, k as nat) == Some(seg@),
            None => segment(tok@, k as nat) is None,
        },
    decreases k,
{
    let dot: Vec<char> = vec!['.'];
    assert(dot@ =~= seq!['.']);
    match find_from_index(tok, &dot, 0) {
        None => {
            if k == 0 {
                Some(sub_vec(tok, 0, tok.len()))
            } else {
                None
            }
        },
        Some(d) => {
            proof {
                lemma_find_from_some(tok@, dot@, 0);
            }
            if k == 0 {
                Some(sub_vec(tok, 0, d))
            } else {
                let rest = sub_vec(tok, d + 1, tok.len());
                assert(rest@ =~= tok@.skip(d + 1));
                segment_of(&rest, k - 1)
            }
        },
    }
}

fn segment_number_of(tok: &Vec<char>, k: usize) -> (r: Option<c_int>)
    ensures
        r == segment_number(tok@, k as nat),
{
    match segment_of(tok, k) {
        Some(seg) => leading_number(&seg),
        None => None,
    }
}

/// Parses the version that a `clang --version` banner reports.
pub fn parse_version_output(output: &str) -> (r: Option<CXVersion>)
    ensures
        r == version_of(output@),
{
    let s = chars_of(output);
    let marker = chars_of("version ");
    proof {
        reveal_strlit("version ");
    }
    let found = find_from_index(&s, &marker, 0);
    if found.is_none() {
        return None;
    }
    let i = found.unwrap();
    let marker_len = marker.len();
    proof {
        assert(find_from(s@, marker@, 0) == Some(i as int));
        lemma_find_from_some(s@, marker@, 0);
        assert(occurs_at(s@, marker@, i as int));
        assert(i + marker_len <= s.len());
    }
    let start: usize = i + marker_len;
    let mut a: usize = start;
    while a < s.len() && is_whitespace(s[a])
        invariant
            start <= a <= s.len(),
            trim_start(s@.skip(start as int)) == trim_start(s@.skip(a as int)),
        decreases s.len() - a,
    {
        assert(s@.skip(a + 1) =~= s@.skip(a as int).drop_first());
        a += 1;
    }
    if a == s.len() {
        assert(s@.skip(a as int) =~= Seq::<char>::empty());
        return None;
    }
    let mut b: usize = a;
    while b < s.len() && !is_whitespace(s[b])
        invariant
            a <= b <= s.len(),
            forall|j: int| a <= j < b ==> !is_ws(s@[j]),
        decreases s.len() - b,
    {
        b += 1;
    }
    proof {
        lemma_non_ws_run_len(s@.skip(a as int), b - a);
        assert(s@.skip(a as int).take(b - a) =~= s@.subrange(a as int, b as int));
    }
    let tok = sub_vec(&s, a, b);
    let major = match segment_number_of(&tok, 0) {
        Some(n) => n,
        None => return None,
    };
    let minor = match segment_number_of(&tok, 1) {
        Some(n) => n,
        None => return None,
    };
    let subminor = match segment_number_of(&tok, 2) {
        Some(n) => n,
        None => 0,
    };
    Some(CXVersion { Major: major, Minor: minor, Subminor: subminor })
}

} // verus!
