//! The dimension extractor: scans an utterance for `width x height`
//! phrases.
//!
//! The grammar of one phrase: a numeric token (digits, optionally `.` and
//! more digits), optionally followed by spaces and a unit token, then the
//! separator `x` or `by`, optionally surrounded by spaces, then a second
//! numeric token, optionally followed by spaces and a trailing unit token.
//! Matching is greedy and first-match over the fixed synonym table, with
//! the longer synonyms tried first; candidate phrases are sought left to
//! right, non-overlapping, and malformed candidates are skipped silently.

use vstd::prelude::*;
use crate::num::is_digit;
use crate::resize::{RawResizeDetails, RawView};
use crate::unit::{unit_token, unit_token_str, UNIT_TOKEN_COUNT};

verus! {

/// The first position at or after `i` that does not hold a space.
pub open spec fn skip_spaces(s: Seq<char>, i: int) -> int
    decreases s.len() - i,
{
    if i < 0 || i >= s.len() || s[i] != ' ' {
        i
    } else {
        skip_spaces(s, i + 1)
    }
}

/// The first position at or after `i` that does not hold a digit.
pub open spec fn digits_end(s: Seq<char>, i: int) -> int
    decreases s.len() - i,
{
    if i < 0 || i >= s.len() || !is_digit(s[i]) {
        i
    } else {
        digits_end(s, i + 1)
    }
}

/// Where a numeric token starting at `i` ends: the digit run, extended
/// over a decimal point only when at least one digit follows it.
pub open spec fn number_end(s: Seq<char>, i: int) -> int {
    let de = digits_end(s, i);
    if de < s.len() && s[de] == '.' && de + 1 < s.len() && is_digit(s[de + 1]) {
        digits_end(s, de + 1)
    } else {
        de
    }
}

/// Does the text `t` occur in `s` at position `i`?
pub open spec fn tok_at(s: Seq<char>, i: int, t: Seq<char>) -> bool {
    &&& 0 <= i
    &&& i + t.len() <= s.len()
    &&& forall|k: int| 0 <= k < t.len() ==> s[i + k] == t[k]
}

/// The first synonym token (by table order, starting at table index `k`)
/// that occurs at position `i`.
pub open spec fn unit_match_from(s: Seq<char>, i: int, k: int) -> Option<int>
    decreases UNIT_TOKEN_COUNT - k,
{
    if k < 0 || k >= UNIT_TOKEN_COUNT {
        None
    } else if tok_at(s, i, unit_token(k)) {
        Some(k)
    } else {
        unit_match_from(s, i, k + 1)
    }
}

/// Where the separator ends, if `x` or `by` stands at `i`.
pub open spec fn sep_end(s: Seq<char>, i: int) -> Option<int> {
    if 0 <= i < s.len() && s[i] == 'x' {
        Some(i + 1)
    } else if 0 <= i && i + 1 < s.len() && s[i] == 'b' && s[i + 1] == 'y' {
        Some(i + 2)
    } else {
        None
    }
}

/// The spans matched after a width (and an optional inline unit): the
/// separator, the height token, and an optional trailing unit token.
pub struct TailView {
    /// Where the height token starts.
    pub h_lo: int,
    /// Where the height token ends.
    pub h_hi: int,
    /// The table index of the trailing unit token, if one follows.
    pub unit_tok: Option<int>,
    /// Where the whole phrase ends.
    pub end: int,
}

/// Matches spaces, the separator, spaces, the height token, and an
/// optional trailing unit token, starting at `j`.
pub open spec fn tail_match(s: Seq<char>, j: int) -> Option<TailView> {
    let sp2 = skip_spaces(s, j);
    match sep_end(s, sp2) {
        None => None,
        Some(se) => {
            let sp3 = skip_spaces(s, se);
            if sp3 < s.len() && is_digit(s[sp3]) {
                let he = number_end(s, sp3);
                let sp4 = skip_spaces(s, he);
                match unit_match_from(s, sp4, 0) {
                    Some(k) => Some(
                        TailView {
                            h_lo: sp3,
                            h_hi: he,
                            unit_tok: Some(k),
                            end: sp4 + unit_token(k).len(),
                        },
                    ),
                    None => Some(TailView { h_lo: sp3, h_hi: he, unit_tok: None, end: sp4 }),
                }
            } else {
                None
            }
        },
    }
}

/// The first synonym token at `sp1` (from table index `k` on) after which
/// the rest of the phrase still matches, paired with that rest.
///
/// This mirrors the backtracking of an alternation: a synonym that occurs
/// at `sp1` is taken as the inline unit only if a separator and a height
/// follow it; otherwise the later synonyms are tried, and finally none.
pub open spec fn inline_match_from(s: Seq<char>, sp1: int, k: int) -> Option<(int, TailView)>
    decreases UNIT_TOKEN_COUNT - k,
{
    if k < 0 || k >= UNIT_TOKEN_COUNT {
        None
    } else if tok_at(s, sp1, unit_token(k)) && tail_match(s, sp1 + unit_token(k).len()) is Some {
        Some((k, tail_match(s, sp1 + unit_token(k).len())->0))
    } else {
        inline_match_from(s, sp1, k + 1)
    }
}

/// The phrase starting exactly at `i`, if one matches there: its raw
/// fields (verbatim sub-sequences of `s`) and its end position.
pub open spec fn try_match(s: Seq<char>, i: int) -> Option<(RawView, int)> {
    if !(0 <= i < s.len() && is_digit(s[i])) {
        None
    } else {
        let we = number_end(s, i);
        let sp1 = skip_spaces(s, we);
        match inline_match_from(s, sp1, 0) {
            Some((k, tail)) => Some(
                (
                    RawView {
                        width: s.subrange(i, we),
                        height: s.subrange(tail.h_lo, tail.h_hi),
                        inline_unit: Some(unit_token(k)),
                        unit: match tail.unit_tok {
                            Some(ku) => Some(unit_token(ku)),
                            None => None,
                        },
                    },
                    tail.end,
                ),
            ),
            None => match tail_match(s, we) {
                Some(tail) => Some(
                    (
                        RawView {
                            width: s.subrange(i, we),
                            height: s.subrange(tail.h_lo, tail.h_hi),
                            inline_unit: None,
                            unit: match tail.unit_tok {
                                Some(ku) => Some(unit_token(ku)),
                                None => None,
                            },
                        },
                        tail.end,
                    ),
                ),
                None => None,
            },
        }
    }
}

/// All phrases of `s` from position `i` on, left to right and
/// non-overlapping: after a match the scan resumes at its end, after a
/// failed candidate one position further.
pub open spec fn spec_scan(s: Seq<char>, i: int) -> Seq<RawView>
    decreases s.len() - i,
{
    if i < 0 || i >= s.len() {
        Seq::empty()
    } else {
        match try_match(s, i) {
            Some((r, end)) => {
                let next = if i < end && end <= s.len() {
                    end
                } else {
                    i + 1
                };
                seq![r] + spec_scan(s, next)
            },
            None => spec_scan(s, i + 1),
        }
    }
}

/// Every phrase of `s`, in order of position.
pub open spec fn spec_extract(s: Seq<char>) -> Seq<RawView> {
    spec_scan(s, 0)
}

proof fn lemma_digits_end_props(s: Seq<char>, i: int)
    requires
        0 <= i <= s.len(),
    ensures
        i <= digits_end(s, i) <= s.len(),
        forall|k: int| i <= k < digits_end(s, i) ==> is_digit(s[k]),
        (i < s.len() && is_digit(s[i])) ==> digits_end(s, i) > i,
    decreases s.len() - i,
{
    if i < s.len() && is_digit(s[i]) {
        lemma_digits_end_props(s, i + 1);
    }
}

proof fn lemma_find_dot_is(t: Seq<char>, j: int, p: int)
    requires
        0 <= j <= p < t.len(),
        t[p] == '.',
        forall|k: int| j <= k < p ==> t[k] != '.',
    ensures
        crate::num::find_dot(t, j) == Some(p),
    decreases p - j,
{
    if j < p {
        lemma_find_dot_is(t, j + 1, p);
    }
}

proof fn lemma_find_dot_none(t: Seq<char>, j: int)
    requires
        0 <= j,
        forall|k: int| j <= k < t.len() ==> t[k] != '.',
    ensures
        crate::num::find_dot(t, j) is None,
    decreases t.len() - j,
{
    if j < t.len() {
        lemma_find_dot_none(t, j + 1);
    }
}

/// The span of a numeric match is a well-formed numeric token.
proof fn lemma_number_token(s: Seq<char>, i: int)
    requires
        0 <= i < s.len(),
        is_digit(s[i]),
    ensures
        crate::num::is_num_token(s.subrange(i, number_end(s, i))),
        i < number_end(s, i) <= s.len(),
{
    let de = digits_end(s, i);
    lemma_digits_end_props(s, i);
    assert(forall|c: char| is_digit(c) ==> c != '.') by {
        assert('.' as u32 == 46);
    }
    if de < s.len() && s[de] == '.' && de + 1 < s.len() && is_digit(s[de + 1]) {
        let de2 = digits_end(s, de + 1);
        lemma_digits_end_props(s, de + 1);
        let t = s.subrange(i, de2);
        assert(t[de - i] == '.');
        assert(forall|k: int| 0 <= k < de - i ==> t[k] != '.');
        lemma_find_dot_is(t, 0, de - i);
        assert(t.subrange(0, de - i) =~= s.subrange(i, de));
        assert(crate::num::is_int_token(t.subrange(0, de - i)));
        assert(t.subrange(de - i + 1, t.len() as int) =~= s.subrange(de + 1, de2));
        assert(crate::num::is_int_token(t.subrange(de - i + 1, t.len() as int)));
    } else {
        let t = s.subrange(i, de);
        lemma_find_dot_none(t, 0);
        assert(crate::num::is_int_token(t));
    }
}

proof fn lemma_unit_match_range(s: Seq<char>, i: int, k0: int)
    requires
        0 <= k0,
    ensures
        match unit_match_from(s, i, k0) {
            Some(k) => k0 <= k < UNIT_TOKEN_COUNT,
            None => true,
        },
    decreases UNIT_TOKEN_COUNT - k0,
{
    if k0 < UNIT_TOKEN_COUNT && !tok_at(s, i, unit_token(k0)) {
        lemma_unit_match_range(s, i, k0 + 1);
    }
}

proof fn lemma_inline_match_shape(s: Seq<char>, sp1: int, k0: int)
    requires
        0 <= k0,
    ensures
        match inline_match_from(s, sp1, k0) {
            Some((k, t)) => k0 <= k < UNIT_TOKEN_COUNT && tail_match(
                s,
                sp1 + unit_token(k).len(),
            ) == Some(t),
            None => true,
        },
    decreases UNIT_TOKEN_COUNT - k0,
{
    if k0 < UNIT_TOKEN_COUNT && !(tok_at(s, sp1, unit_token(k0)) && tail_match(
        s,
        sp1 + unit_token(k0).len(),
    ) is Some) {
        lemma_inline_match_shape(s, sp1, k0 + 1);
    }
}

proof fn lemma_tail_shape(s: Seq<char>, j: int)
    ensures
        match tail_match(s, j) {
            Some(t) => 0 <= t.h_lo < s.len() && is_digit(s[t.h_lo]) && t.h_hi == number_end(
                s,
                t.h_lo,
            ) && match t.unit_tok {
                Some(k) => 0 <= k < UNIT_TOKEN_COUNT,
                None => true,
            },
            None => true,
        },
{
    let sp2 = skip_spaces(s, j);
    match sep_end(s, sp2) {
        None => {},
        Some(se) => {
            let sp3 = skip_spaces(s, se);
            if sp3 < s.len() && is_digit(s[sp3]) {
                let he = number_end(s, sp3);
                let sp4 = skip_spaces(s, he);
                lemma_unit_match_range(s, sp4, 0);
                assert(sp3 >= 0) by {
                    lemma_skip_spaces_lb(s, se);
                    lemma_sep_end_lb(s, sp2);
                    lemma_skip_spaces_lb(s, j);
                }
            }
        },
    }
}

proof fn lemma_skip_spaces_lb(s: Seq<char>, i: int)
    ensures
        skip_spaces(s, i) >= i,
    decreases s.len() - i,
{
    if !(i < 0 || i >= s.len() || s[i] != ' ') {
        lemma_skip_spaces_lb(s, i + 1);
    }
}

proof fn lemma_sep_end_lb(s: Seq<char>, i: int)
    ensures
        match sep_end(s, i) {
            Some(se) => se > i >= 0,
            None => true,
        },
{
}

/// Every record a successful match yields is well-formed.
proof fn lemma_try_match_wf(s: Seq<char>, i: int)
    ensures
        match try_match(s, i) {
            Some((r, e)) => crate::resize::raw_wellformed(r),
            None => true,
        },
{
    if 0 <= i < s.len() && is_digit(s[i]) {
        lemma_number_token(s, i);
        let we = number_end(s, i);
        let sp1 = skip_spaces(s, we);
        lemma_inline_match_shape(s, sp1, 0);
        match inline_match_from(s, sp1, 0) {
            Some((k, t)) => {
                crate::unit::lemma_unit_token_in_table(k);
                lemma_tail_shape(s, sp1 + unit_token(k).len());
                lemma_number_token(s, t.h_lo);
                match t.unit_tok {
                    Some(ku) => {
                        crate::unit::lemma_unit_token_in_table(ku);
                    },
                    None => {},
                }
            },
            None => {
                lemma_tail_shape(s, we);
                match tail_match(s, we) {
                    Some(t) => {
                        lemma_number_token(s, t.h_lo);
                        match t.unit_tok {
                            Some(ku) => {
                                crate::unit::lemma_unit_token_in_table(ku);
                            },
                            None => {},
                        }
                    },
                    None => {},
                }
            },
        }
    }
}

proof fn lemma_scan_wf(s: Seq<char>, i: int)
    ensures
        forall|j: int| 0 <= j < spec_scan(s, i).len() ==> crate::resize::raw_wellformed(
            #[trigger] spec_scan(s, i)[j],
        ),
    decreases s.len() - i,
{
    if 0 <= i < s.len() {
        lemma_try_match_wf(s, i);
        match try_match(s, i) {
            Some((r, end)) => {
                let next = if i < end && end <= s.len() {
                    end
                } else {
                    i + 1
                };
                lemma_scan_wf(s, next);
                assert(spec_scan(s, i) == seq![r] + spec_scan(s, next));
                assert forall|j: int| 0 <= j < spec_scan(s, i).len() implies
                    crate::resize::raw_wellformed(#[trigger] spec_scan(s, i)[j]) by {
                    if j == 0 {
                        assert(spec_scan(s, i)[0] == r);
                    } else {
                        assert(spec_scan(s, i)[j] == spec_scan(s, next)[j - 1]);
                    }
                }
            },
            None => {
                lemma_scan_wf(s, i + 1);
                assert(spec_scan(s, i) == spec_scan(s, i + 1));
                assert forall|j: int| 0 <= j < spec_scan(s, i).len() implies
                    crate::resize::raw_wellformed(#[trigger] spec_scan(s, i)[j]) by {
                    assert(spec_scan(s, i)[j] == spec_scan(s, i + 1)[j]);
                }
            },
        }
    } else {
        assert(spec_scan(s, i) =~= Seq::<RawView>::empty());
    }
}

/// Well-formedness of everything extracted: each record's numeric fields
/// are numeric tokens, copied verbatim from the matched text, and each
/// unit field is a synonym from the table.
pub proof fn lemma_extract_wellformed(s: Seq<char>)
    ensures
        forall|j: int| 0 <= j < spec_extract(s).len() ==> crate::resize::raw_wellformed(
            #[trigger] spec_extract(s)[j],
        ),
{
    lemma_scan_wf(s, 0);
}

/// Does matching the grammar at position `p` of `s` emit exactly the
/// record `r`?
pub open spec fn match_emits(s: Seq<char>, p: int, r: RawView) -> bool {
    match try_match(s, p) {
        Some((r2, e)) => r2 == r,
        None => false,
    }
}

/// Is `r` the record of a grammar match somewhere in `s`?
pub open spec fn emitted_from(s: Seq<char>, r: RawView) -> bool {
    exists|p: int| match_emits(s, p, r)
}

/// Every extracted record is the record of a grammar match somewhere in
/// the text — its raw fields are the matched numeric and unit text,
/// verbatim.
pub proof fn lemma_extract_verbatim(s: Seq<char>)
    ensures
        forall|j: int| 0 <= j < spec_extract(s).len() ==> emitted_from(
            s,
            #[trigger] spec_extract(s)[j],
        ),
{
    lemma_scan_verbatim(s, 0);
    assert(spec_extract(s) == spec_scan(s, 0));
}

proof fn lemma_scan_verbatim(s: Seq<char>, i: int)
    ensures
        forall|j: int| 0 <= j < spec_scan(s, i).len() ==> emitted_from(
            s,
            #[trigger] spec_scan(s, i)[j],
        ),
    decreases s.len() - i,
{
    if 0 <= i < s.len() {
        match try_match(s, i) {
            Some((r, end)) => {
                let next = if i < end && end <= s.len() {
                    end
                } else {
                    i + 1
                };
                lemma_scan_verbatim(s, next);
                assert(spec_scan(s, i) == seq![r] + spec_scan(s, next));
                assert forall|j: int| 0 <= j < spec_scan(s, i).len() implies emitted_from(
                    s,
                    #[trigger] spec_scan(s, i)[j],
                ) by {
                    if j == 0 {
                        assert(spec_scan(s, i)[0] == r);
                        assert(match_emits(s, i, r));
                    } else {
                        assert(spec_scan(s, i)[j] == spec_scan(s, next)[j - 1]);
                    }
                }
            },
            None => {
                lemma_scan_verbatim(s, i + 1);
                assert forall|j: int| 0 <= j < spec_scan(s, i).len() implies emitted_from(
                    s,
                    #[trigger] spec_scan(s, i)[j],
                ) by {
                    assert(spec_scan(s, i)[j] == spec_scan(s, i + 1)[j]);
                }
            },
        }
    } else {
        assert(spec_scan(s, i) =~= Seq::<RawView>::empty());
    }
}

/// Extraction is deterministic: re-extracting from the same text yields
/// the identical ordered sequence of records.
pub proof fn lemma_extract_deterministic(s: Seq<char>, r1: Seq<RawView>, r2: Seq<RawView>)
    requires
        r1 == spec_extract(s),
        r2 == spec_extract(s),
    ensures
        r1 == r2,
{
}

fn skip_spaces_exec(chars: &Vec<char>, i: usize) -> (r: usize)
    requires
        i <= chars@.len(),
    ensures
        r == skip_spaces(chars@, i as int),
        i <= r <= chars@.len(),
{
    let n = chars.len();
    let mut j = i;
    while j < n && *chars.get(j).unwrap() == ' '
        invariant
            i <= j <= n == chars@.len(),
            skip_spaces(chars@, i as int) == skip_spaces(chars@, j as int),
        decreases n - j,
    {
        j = j + 1;
    }
    j
}

fn digit_at(chars: &Vec<char>, j: usize) -> (r: bool)
    ensures
        r == (j < chars@.len() && is_digit(chars@[j as int])),
{
    if j >= chars.len() {
        return false;
    }
    let c = *chars.get(j).unwrap();
    let v = c as u32;
    48 <= v && v <= 57
}

fn digits_end_exec(chars: &Vec<char>, i: usize) -> (r: usize)
    requires
        i <= chars@.len(),
    ensures
        r == digits_end(chars@, i as int),
        i <= r <= chars@.len(),
        r == i ==> !(i < chars@.len() && is_digit(chars@[i as int])),
{
    let n = chars.len();
    let mut j = i;
    while digit_at(chars, j)
        invariant
            i <= j <= n == chars@.len(),
            digits_end(chars@, i as int) == digits_end(chars@, j as int),
        decreases n - j,
    {
        j = j + 1;
    }
    j
}

fn number_end_exec(chars: &Vec<char>, i: usize) -> (r: usize)
    requires
        i <= chars@.len(),
    ensures
        r == number_end(chars@, i as int),
        i <= r <= chars@.len(),
        (i < chars@.len() && is_digit(chars@[i as int])) ==> r > i,
{
    let n = chars.len();
    let de = digits_end_exec(chars, i);
    if de < n && *chars.get(de).unwrap() == '.' && de + 1 < n {
        let c = *chars.get(de + 1).unwrap();
        let v = c as u32;
        if 48 <= v && v <= 57 {
            let r = digits_end_exec(chars, de + 1);
            return r;
        }
    }
    de
}

fn tok_at_exec(chars: &Vec<char>, i: usize, pat: &str) -> (r: bool)
    requires
        i <= chars@.len(),
    ensures
        r == tok_at(chars@, i as int, pat@),
{
    let n = chars.len();
    let np = pat.unicode_len();
    if np > n - i {
        return false;
    }
    let mut k: usize = 0;
    while k < np
        invariant
            i + np <= n == chars@.len(),
            np == pat@.len(),
            k <= np,
            forall|m: int| 0 <= m < k ==> chars@[i + m] == pat@[m],
        decreases np - k,
    {
        if *chars.get(i + k).unwrap() != pat.get_char(k) {
            return false;
        }
        k = k + 1;
    }
    true
}

fn unit_match_exec(chars: &Vec<char>, i: usize) -> (r: Option<(usize, usize)>)
    requires
        i <= chars@.len(),
    ensures
        match r {
            Some((k, end)) => unit_match_from(chars@, i as int, 0) == Some(k as int) && k
                < UNIT_TOKEN_COUNT && end == i + unit_token(k as int).len() && i < end
                <= chars@.len(),
            None => unit_match_from(chars@, i as int, 0) is None,
        },
{
    let mut k: usize = 0;
    while k < UNIT_TOKEN_COUNT
        invariant
            k <= UNIT_TOKEN_COUNT,
            i <= chars@.len(),
            unit_match_from(chars@, i as int, 0) == unit_match_from(chars@, i as int, k as int),
        decreases UNIT_TOKEN_COUNT - k,
    {
        let n = chars.len();
        let pat = unit_token_str(k);
        if tok_at_exec(chars, i, pat) {
            let np = pat.unicode_len();
            proof {
                assert(i + np <= n);
                assert(unit_token(k as int).len() > 0) by {
                    reveal_strlit("pixels");
                    reveal_strlit("pixel");
                    reveal_strlit("px");
                    reveal_strlit("inches");
                    reveal_strlit("inch");
                    reveal_strlit("in");
                    reveal_strlit("centimeters");
                    reveal_strlit("centimeter");
                    reveal_strlit("cm");
                    reveal_strlit("millimeters");
                    reveal_strlit("millimeter");
                    reveal_strlit("mm");
                    reveal_strlit("meters");
                    reveal_strlit("meter");
                    reveal_strlit("m");
                    reveal_strlit("ft");
                    reveal_strlit("feet");
                };
            }
            return Some((k, i + np));
        }
        k = k + 1;
    }
    None
}

/// The spans matched after a width: executable counterpart of
/// [`TailView`].
struct TailSpans {
    h_lo: usize,
    h_hi: usize,
    unit_tok: Option<usize>,
    end: usize,
}

impl TailSpans {
    /// The spans as a [`TailView`].
    spec fn view_of(&self) -> TailView {
        TailView {
            h_lo: self.h_lo as int,
            h_hi: self.h_hi as int,
            unit_tok: match self.unit_tok {
                Some(k) => Some(k as int),
                None => None,
            },
            end: self.end as int,
        }
    }
}

fn tail_match_exec(chars: &Vec<char>, j: usize) -> (r: Option<TailSpans>)
    requires
        j <= chars@.len(),
    ensures
        match r {
            Some(t) => tail_match(chars@, j as int) == Some(t.view_of()) && j < t.end
                <= chars@.len() && t.h_lo < t.h_hi <= chars@.len() && (match t.unit_tok {
                Some(ku) => ku < UNIT_TOKEN_COUNT,
                None => true,
            }),
            None => tail_match(chars@, j as int) is None,
        },
{
    let n = chars.len();
    let sp2 = skip_spaces_exec(chars, j);
    let se: usize;
    if sp2 < n && *chars.get(sp2).unwrap() == 'x' {
        se = sp2 + 1;
    } else if sp2 < n && sp2 + 1 < n && *chars.get(sp2).unwrap() == 'b' && *chars.get(
        sp2 + 1,
    ).unwrap() == 'y' {
        se = sp2 + 2;
    } else {
        return None;
    }
    let sp3 = skip_spaces_exec(chars, se);
    if sp3 >= n {
        return None;
    }
    let c = *chars.get(sp3).unwrap();
    let v = c as u32;
    if !(48 <= v && v <= 57) {
        return None;
    }
    let he = number_end_exec(chars, sp3);
    let sp4 = skip_spaces_exec(chars, he);
    match unit_match_exec(chars, sp4) {
        Some((k, end)) => Some(TailSpans { h_lo: sp3, h_hi: he, unit_tok: Some(k), end }),
        None => Some(TailSpans { h_lo: sp3, h_hi: he, unit_tok: None, end: sp4 }),
    }
}

fn inline_match_exec(chars: &Vec<char>, sp1: usize) -> (r: Option<(usize, TailSpans)>)
    requires
        sp1 <= chars@.len(),
    ensures
        match r {
            Some((k, t)) => inline_match_from(chars@, sp1 as int, 0) == Some(
                (k as int, t.view_of()),
            ) && k < UNIT_TOKEN_COUNT && sp1 < t.end <= chars@.len() && t.h_lo < t.h_hi
                <= chars@.len() && (match t.unit_tok {
                Some(ku) => ku < UNIT_TOKEN_COUNT,
                None => true,
            }),
            None => inline_match_from(chars@, sp1 as int, 0) is None,
        },
{
    let mut k: usize = 0;
    while k < UNIT_TOKEN_COUNT
        invariant
            k <= UNIT_TOKEN_COUNT,
            sp1 <= chars@.len(),
            inline_match_from(chars@, sp1 as int, 0) == inline_match_from(
                chars@,
                sp1 as int,
                k as int,
            ),
        decreases UNIT_TOKEN_COUNT - k,
    {
        let n = chars.len();
        let pat = unit_token_str(k);
        if tok_at_exec(chars, sp1, pat) {
            let np = pat.unicode_len();
            proof {
                assert(sp1 + np <= n);
            }
            match tail_match_exec(chars, sp1 + np) {
                Some(t) => {
                    return Some((k, t));
                },
                None => {},
            }
        }
        k = k + 1;
    }
    None
}

/// One phrase starting exactly at `i`, if the grammar matches there,
/// with its raw fields copied verbatim out of `text`.
fn try_match_exec(text: &str, chars: &Vec<char>, i: usize) -> (r: Option<(RawResizeDetails, usize)>)
    requires
        chars@ == text@,
        i < chars@.len(),
    ensures
        match r {
            Some((rec, end)) => try_match(chars@, i as int) == Some((rec@, end as int)) && i < end
                <= chars@.len(),
            None => try_match(chars@, i as int) is None,
        },
{
    let c = *chars.get(i).unwrap();
    let v = c as u32;
    if !(48 <= v && v <= 57) {
        return None;
    }
    let we = number_end_exec(chars, i);
    let sp1 = skip_spaces_exec(chars, we);
    let width = String::from_str(text.substring_char(i, we));
    match inline_match_exec(chars, sp1) {
        Some((k, t)) => {
            let height = String::from_str(text.substring_char(t.h_lo, t.h_hi));
            let inline_unit = Some(String::from_str(unit_token_str(k)));
            let unit = match t.unit_tok {
                Some(ku) => Some(String::from_str(unit_token_str(ku))),
                None => None,
            };
            let rec = RawResizeDetails {
                raw_width: width,
                raw_height: height,
                raw_inline_unit: inline_unit,
                raw_unit: unit,
            };
            proof {
                assert(rec@ == (try_match(chars@, i as int)->0).0);
            }
            Some((rec, t.end))
        },
        None => {
            match tail_match_exec(chars, we) {
                Some(t) => {
                    let height = String::from_str(text.substring_char(t.h_lo, t.h_hi));
                    let unit = match t.unit_tok {
                        Some(ku) => Some(String::from_str(unit_token_str(ku))),
                        None => None,
                    };
                    let rec = RawResizeDetails {
                        raw_width: width,
                        raw_height: height,
                        raw_inline_unit: None,
                        raw_unit: unit,
                    };
                    proof {
                        assert(rec@ == (try_match(chars@, i as int)->0).0);
                    }
                    Some((rec, t.end))
                },
                None => None,
            }
        },
    }
}

/// Extracts every `width x height` phrase of `text`, in order of
/// position.
///
/// The result is exactly [`spec_extract`] of the text: re-running on the
/// same text yields the same records in the same order, and each record's
/// raw fields are verbatim sub-sequences of the text.
pub fn parse_resize_details(text: &str) -> (r: Vec<RawResizeDetails>)
    ensures
        r@.map_values(|d: RawResizeDetails| d@) == spec_extract(text@),
{
    let n = text.unicode_len();
    let mut chars: Vec<char> = Vec::new();
    let mut idx: usize = 0;
    while idx < n
        invariant
            idx <= n == text@.len(),
            chars@ =~= text@.subrange(0, idx as int),
        decreases n - idx,
    {
        chars.push(text.get_char(idx));
        idx = idx + 1;
    }
    proof {
        assert(chars@ =~= text@);
    }
    let mut results: Vec<RawResizeDetails> = Vec::new();
    let mut i: usize = 0;
    while i < n
        invariant
            n == text@.len(),
            chars@ == text@,
            spec_extract(text@) == results@.map_values(|d: RawResizeDetails| d@) + spec_scan(
                text@,
                i as int,
            ),
        decreases n - i,
    {
        match try_match_exec(text, &chars, i) {
            Some((rec, end)) => {
                proof {
                    assert(spec_scan(text@, i as int) == seq![rec@] + spec_scan(
                        text@,
                        end as int,
                    ));
                    assert(results@.push(rec).map_values(|d: RawResizeDetails| d@) =~= results@
                        .map_values(|d: RawResizeDetails| d@).push(rec@));
                    assert(results@.map_values(|d: RawResizeDetails| d@).push(rec@) + spec_scan(
                        text@,
                        end as int,
                    ) =~= results@.map_values(|d: RawResizeDetails| d@) + (seq![rec@] + spec_scan(
                        text@,
                        end as int,
                    )));
                }
                results.push(rec);
                i = end;
            },
            None => {
                proof {
                    assert(spec_scan(text@, i as int) == spec_scan(text@, i + 1));
                }
                i = i + 1;
            },
        }
    }
    proof {
        assert(spec_scan(text@, i as int) =~= Seq::<RawView>::empty());
        assert(results@.map_values(|d: RawResizeDetails| d@) + Seq::<RawView>::empty() =~= results@
            .map_values(|d: RawResizeDetails| d@));
    }
    results
}

} // verus!
