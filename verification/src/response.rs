use vstd::prelude::*;

use crate::number::all_digits;
use crate::number::is_digit;
use crate::number::number_trunc;
use crate::number::exp_of;
use crate::number::eval_number;
use crate::text::to_chars;
use crate::types::ParsedEstimate;

verus! {

/// Is the character insignificant whitespace between JSON tokens.
pub open spec fn is_ws(c: char) -> bool {
    c == ' ' || c == '\n' || c == '\r' || c == '\t'
}

/// First position at or after `i` holding no whitespace.
pub open spec fn sp(s: Seq<char>, i: int) -> int
    decreases s.len() - i,
{
    if 0 <= i < s.len() && is_ws(s[i]) {
        sp(s, i + 1)
    } else {
        i
    }
}

/// Is the character a hexadecimal digit.
pub open spec fn is_hex(c: char) -> bool {
    is_digit(c) || (97 <= (c as u32) && (c as u32) <= 102) || (65 <= (c as u32) && (c as u32)
        <= 70)
}

/// Position right after the run of decimal digits starting at `i`.
pub open spec fn digits_end(s: Seq<char>, i: int) -> int
    decreases s.len() - i,
{
    if 0 <= i < s.len() && is_digit(s[i]) {
        digits_end(s, i + 1)
    } else {
        i
    }
}

/// Does the word `w` stand in `s` at position `i`.
pub open spec fn has_at(s: Seq<char>, i: int, w: Seq<char>) -> bool {
    0 <= i && i + w.len() <= s.len() && s.subrange(i, i + w.len()) == w
}

/// Position right after the string literal whose opening quote stands just
/// before `i`; None when the literal is unterminated or holds a bad escape
/// or a raw control character.
pub open spec fn skip_string_body(s: Seq<char>, i: int) -> Option<int>
    decreases s.len() - i,
{
    if i < 0 || i >= s.len() {
        None
    } else if s[i] == '"' {
        Some(i + 1)
    } else if s[i] == '\\' {
        if i + 1 >= s.len() {
            None
        } else {
            let e = s[i + 1];
            if e == '"' || e == '\\' || e == '/' || e == 'b' || e == 'f' || e == 'n' || e == 'r'
                || e == 't' {
                skip_string_body(s, i + 2)
            } else if e == 'u' {
                if i + 6 <= s.len() && is_hex(s[i + 2]) && is_hex(s[i + 3]) && is_hex(s[i + 4])
                    && is_hex(s[i + 5]) {
                    skip_string_body(s, i + 6)
                } else {
                    None
                }
            } else {
                None
            }
        }
    } else if (s[i] as u32) < 32 {
        None
    } else {
        skip_string_body(s, i + 1)
    }
}

/// The truncated u64 value and end position of the JSON number starting at
/// `i`; None when no well-formed number starts there.
pub open spec fn spec_number_at(s: Seq<char>, i: int) -> Option<(u64, int)> {
    let neg = 0 <= i < s.len() && s[i] == '-';
    let istart: int = if neg {
        i + 1
    } else {
        i
    };
    let iend: int = digits_end(s, istart);
    if iend == istart {
        None
    } else if s[istart] == '0' && iend > istart + 1 {
        None
    } else {
        let i_digits = s.subrange(istart, iend);
        if iend < s.len() && s[iend] == '.' {
            let fend: int = digits_end(s, iend + 1);
            if fend == iend + 1 {
                None
            } else {
                spec_number_exp(s, fend, neg, i_digits, s.subrange(iend + 1, fend))
            }
        } else {
            spec_number_exp(s, iend, neg, i_digits, Seq::empty())
        }
    }
}

/// Continues a number at its optional exponent part, starting at `j`.
pub open spec fn spec_number_exp(
    s: Seq<char>,
    j: int,
    neg: bool,
    i_digits: Seq<char>,
    f_digits: Seq<char>,
) -> Option<(u64, int)> {
    if 0 <= j < s.len() && (s[j] == 'e' || s[j] == 'E') {
        let eneg = j + 1 < s.len() && s[j + 1] == '-';
        let estart: int = if j + 1 < s.len() && (s[j + 1] == '-' || s[j + 1] == '+') {
            j + 2
        } else {
            j + 1
        };
        let eend: int = digits_end(s, estart);
        if eend == estart {
            None
        } else {
            Some((number_trunc(neg, i_digits, f_digits, exp_of(eneg, s.subrange(estart, eend))), eend))
        }
    } else {
        Some((number_trunc(neg, i_digits, f_digits, 0), j))
    }
}

/// Position right after any JSON value starting at `i`; None when none
/// starts there (or the nesting outruns the fuel, which a value inside a
/// text of that length cannot).
pub open spec fn skip_value(s: Seq<char>, i: int, fuel: nat) -> Option<int>
    decreases fuel,
{
    if fuel == 0 {
        None
    } else if i < 0 || i >= s.len() {
        None
    } else if s[i] == '"' {
        skip_string_body(s, i + 1)
    } else if s[i] == '{' {
        skip_obj(s, sp(s, i + 1), true, (fuel - 1) as nat)
    } else if s[i] == '[' {
        skip_arr(s, sp(s, i + 1), true, (fuel - 1) as nat)
    } else if has_at(s, i, "true"@) {
        Some(i + 4)
    } else if has_at(s, i, "false"@) {
        Some(i + 5)
    } else if has_at(s, i, "null"@) {
        Some(i + 4)
    } else {
        match spec_number_at(s, i) {
            Some(p) => Some(p.1),
            None => None,
        }
    }
}

/// Position right after the object whose opening brace stands just before:
/// `i` is at the first member key, or at the closing brace when `first`.
pub open spec fn skip_obj(s: Seq<char>, i: int, first: bool, fuel: nat) -> Option<int>
    decreases fuel,
{
    if fuel == 0 {
        None
    } else if i < 0 || i >= s.len() {
        None
    } else if first && s[i] == '}' {
        Some(i + 1)
    } else if s[i] != '"' {
        None
    } else {
        match skip_string_body(s, i + 1) {
            None => None,
            Some(j) => {
                let j2: int = sp(s, j);
                if !(j2 < s.len() && s[j2] == ':') {
                    None
                } else {
                    match skip_value(s, sp(s, j2 + 1), (fuel - 1) as nat) {
                        None => None,
                        Some(k) => {
                            let k2: int = sp(s, k);
                            if !(k2 < s.len()) {
                                None
                            } else if s[k2] == '}' {
                                Some(k2 + 1)
                            } else if s[k2] == ',' {
                                skip_obj(s, sp(s, k2 + 1), false, (fuel - 1) as nat)
                            } else {
                                None
                            }
                        },
                    }
                }
            },
        }
    }
}

/// Position right after the array whose opening bracket stands just before:
/// `i` is at the first element, or at the closing bracket when `first`.
pub open spec fn skip_arr(s: Seq<char>, i: int, first: bool, fuel: nat) -> Option<int>
    decreases fuel,
{
    if fuel == 0 {
        None
    } else if i < 0 || i >= s.len() {
        None
    } else if first && s[i] == ']' {
        Some(i + 1)
    } else {
        match skip_value(s, i, (fuel - 1) as nat) {
            None => None,
            Some(j) => {
                let j2: int = sp(s, j);
                if !(j2 < s.len()) {
                    None
                } else if s[j2] == ']' {
                    Some(j2 + 1)
                } else if s[j2] == ',' {
                    skip_arr(s, sp(s, j2 + 1), false, (fuel - 1) as nat)
                } else {
                    None
                }
            },
        }
    }
}

/// What a finished scan reports for the estimate field: absent or null give
/// the empty outcome, a number gives the fee.
pub open spec fn found_result(found: Option<Option<u64>>) -> ParsedEstimate {
    match found {
        Option::None => ParsedEstimate::Empty,
        Option::Some(Option::None) => ParsedEstimate::Empty,
        Option::Some(Option::Some(v)) => ParsedEstimate::Fee(v),
    }
}

/// After the top-level object closed at `i`: only whitespace may remain.
pub open spec fn finish_at(s: Seq<char>, i: int, found: Option<Option<u64>>) -> ParsedEstimate {
    if sp(s, i) == s.len() {
        found_result(found)
    } else {
        ParsedEstimate::Malformed
    }
}

/// Scans the members of the top-level object from position `i` (at a key,
/// or at the closing brace when `first`), remembering what the estimate
/// field held. A repeated estimate field is malformed; other members are
/// validated and skipped.
pub open spec fn top_members(
    s: Seq<char>,
    i: int,
    first: bool,
    found: Option<Option<u64>>,
    fuel: nat,
) -> ParsedEstimate
    decreases fuel,
{
    if fuel == 0 {
        ParsedEstimate::Malformed
    } else if i < 0 || i >= s.len() {
        ParsedEstimate::Malformed
    } else if first && s[i] == '}' {
        finish_at(s, i + 1, found)
    } else if s[i] != '"' {
        ParsedEstimate::Malformed
    } else {
        match skip_string_body(s, i + 1) {
            None => ParsedEstimate::Malformed,
            Some(j) => {
                let j2: int = sp(s, j);
                if !(j2 < s.len() && s[j2] == ':') {
                    ParsedEstimate::Malformed
                } else {
                    let v: int = sp(s, j2 + 1);
                    if s.subrange(i + 1, j - 1) == "priorityFeeEstimate"@ {
                        if found is Some {
                            ParsedEstimate::Malformed
                        } else if has_at(s, v, "null"@) {
                            top_after_value(s, v + 4, Some(Option::None), (fuel - 1) as nat)
                        } else {
                            match spec_number_at(s, v) {
                                Some(p) => top_after_value(
                                    s,
                                    p.1,
                                    Some(Some(p.0)),
                                    (fuel - 1) as nat,
                                ),
                                None => ParsedEstimate::Malformed,
                            }
                        }
                    } else {
                        match skip_value(s, v, (fuel - 1) as nat) {
                            None => ParsedEstimate::Malformed,
                            Some(k) => top_after_value(s, k, found, (fuel - 1) as nat),
                        }
                    }
                }
            },
        }
    }
}

/// After one member's value, ending at `k`: the object closes, or a comma
/// leads to the next member.
pub open spec fn top_after_value(
    s: Seq<char>,
    k: int,
    found: Option<Option<u64>>,
    fuel: nat,
) -> ParsedEstimate
    decreases fuel,
{
    if fuel == 0 {
        ParsedEstimate::Malformed
    } else {
        let k2: int = sp(s, k);
        if !(0 <= k2 && k2 < s.len()) {
            ParsedEstimate::Malformed
        } else if s[k2] == '}' {
            finish_at(s, k2 + 1, found)
        } else if s[k2] == ',' {
            top_members(s, sp(s, k2 + 1), false, found, (fuel - 1) as nat)
        } else {
            ParsedEstimate::Malformed
        }
    }
}

/// What the estimation response body means: the truncated numeric estimate,
/// an empty estimate (null or absent field), or a malformed body. The body
/// must be one JSON object, with nothing but whitespace around it; the
/// estimate field must hold a number or null.
pub open spec fn parse_response_spec(s: Seq<char>) -> ParsedEstimate {
    let i: int = sp(s, 0);
    if i < s.len() && s[i] == '{' {
        top_members(s, sp(s, i + 1), true, Option::None, s.len() as nat)
    } else {
        ParsedEstimate::Malformed
    }
}

spec fn opt_pos_eq(a: Option<usize>, b: Option<int>) -> bool {
    match (a, b) {
        (Option::Some(x), Option::Some(y)) => x as int == y,
        (Option::None, Option::None) => true,
        _ => false,
    }
}

spec fn num_eq(a: Option<(u64, usize)>, b: Option<(u64, int)>) -> bool {
    match (a, b) {
        (Option::Some(x), Option::Some(y)) => x.0 == y.0 && x.1 as int == y.1,
        (Option::None, Option::None) => true,
        _ => false,
    }
}

fn e_skip_ws(s: &Vec<char>, i: usize) -> (r: usize)
    requires
        i <= s@.len(),
    ensures
        r == sp(s@, i as int),
        i <= r <= s@.len(),
{
    let mut j = i;
    while j < s.len() && (s[j] == ' ' || s[j] == '\n' || s[j] == '\r' || s[j] == '\t')
        invariant
            i <= j <= s@.len(),
            sp(s@, i as int) == sp(s@, j as int),
        decreases s@.len() - j,
    {
        j += 1;
    }
    j
}

fn e_is_digit(c: char) -> (r: bool)
    ensures
        r == is_digit(c),
{
    let u = c as u32;
    48 <= u && u <= 57
}

fn e_digits_end(s: &Vec<char>, i: usize) -> (r: usize)
    requires
        i <= s@.len(),
    ensures
        r == digits_end(s@, i as int),
        i <= r <= s@.len(),
        forall|t: int| i <= t < r ==> is_digit(#[trigger] s@[t]),
{
    let mut j = i;
    while j < s.len() && e_is_digit(s[j])
        invariant
            i <= j <= s@.len(),
            digits_end(s@, i as int) == digits_end(s@, j as int),
            forall|t: int| i <= t < j ==> is_digit(#[trigger] s@[t]),
        decreases s@.len() - j,
    {
        j += 1;
    }
    j
}

fn e_is_hex(c: char) -> (r: bool)
    ensures
        r == is_hex(c),
{
    let u = c as u32;
    (48 <= u && u <= 57) || (97 <= u && u <= 102) || (65 <= u && u <= 70)
}

fn e_string_body(s: &Vec<char>, i: usize) -> (r: Option<usize>)
    requires
        i <= s@.len(),
    ensures
        opt_pos_eq(r, skip_string_body(s@, i as int)),
        r matches Some(j) ==> i < j && j <= s@.len(),
    decreases s@.len() - i,
{
    if i >= s.len() {
        return None;
    }
    let c = s[i];
    if c == '"' {
        return Some(i + 1);
    }
    if c == '\\' {
        if i + 1 >= s.len() {
            return None;
        }
        let e = s[i + 1];
        if e == '"' || e == '\\' || e == '/' || e == 'b' || e == 'f' || e == 'n' || e == 'r' || e
            == 't' {
            e_string_body(s, i + 2)
        } else if e == 'u' {
            if s.len() - i >= 6 {
                if e_is_hex(s[i + 2]) && e_is_hex(s[i + 3]) && e_is_hex(s[i + 4]) && e_is_hex(
                    s[i + 5],
                ) {
                    e_string_body(s, i + 6)
                } else {
                    None
                }
            } else {
                None
            }
        } else {
            None
        }
    } else {
        let u = c as u32;
        if u < 32 {
            None
        } else {
            e_string_body(s, i + 1)
        }
    }
}

fn subvec(s: &Vec<char>, a: usize, b: usize) -> (r: Vec<char>)
    requires
        a <= b <= s@.len(),
    ensures
        r@ == s@.subrange(a as int, b as int),
{
    let mut r: Vec<char> = Vec::new();
    let mut j = a;
    while j < b
        invariant
            a <= j <= b <= s@.len(),
            r@ == s@.subrange(a as int, j as int),
        decreases b - j,
    {
        r.push(s[j]);
        proof {
            assert(s@.subrange(a as int, j + 1 as int) =~= s@.subrange(a as int, j as int).push(
                s@[j as int],
            ));
        }
        j += 1;
    }
    r
}

fn e_region_is(s: &Vec<char>, a: usize, b: usize, w: &str) -> (r: bool)
    requires
        a <= b <= s@.len(),
    ensures
        r == (s@.subrange(a as int, b as int) == w@),
{
    let wc = to_chars(w);
    if b - a != wc.len() {
        proof {
            assert(s@.subrange(a as int, b as int).len() != w@.len());
        }
        return false;
    }
    let mut j: usize = 0;
    while j < wc.len()
        invariant
            a + wc@.len() == b <= s@.len(),
            j <= wc@.len(),
            wc@ == w@,
            forall|t: int| 0 <= t < j ==> s@[a + t] == w@[t],
        decreases wc@.len() - j,
    {
        if s[a + j] != wc[j] {
            proof {
                assert(s@.subrange(a as int, b as int)[j as int] == s@[a + j]);
            }
            return false;
        }
        j += 1;
    }
    proof {
        assert(s@.subrange(a as int, b as int) =~= w@);
    }
    true
}

fn e_has_at(s: &Vec<char>, i: usize, w: &str) -> (r: bool)
    requires
        i <= s@.len(),
    ensures
        r == has_at(s@, i as int, w@),
{
    let wc = to_chars(w);
    if s.len() - i < wc.len() {
        return false;
    }
    e_region_is(s, i, i + wc.len(), w)
}

fn e_number_at(s: &Vec<char>, i: usize) -> (r: Option<(u64, usize)>)
    requires
        i <= s@.len(),
    ensures
        num_eq(r, spec_number_at(s@, i as int)),
        r matches Some(p) ==> i < p.1 && p.1 <= s@.len(),
{
    let neg = i < s.len() && s[i] == '-';
    let istart = if neg {
        i + 1
    } else {
        i
    };
    let iend = e_digits_end(s, istart);
    if iend == istart {
        return None;
    }
    if s[istart] == '0' && iend > istart + 1 {
        return None;
    }
    let i_digits = subvec(s, istart, iend);
    proof {
        assert(all_digits(i_digits@));
    }
    if iend < s.len() && s[iend] == '.' {
        let fstart = iend + 1;
        let fend = e_digits_end(s, fstart);
        if fend == fstart {
            return None;
        }
        let f_digits = subvec(s, fstart, fend);
        proof {
            assert(all_digits(f_digits@));
        }
        e_number_exp(s, fend, neg, &i_digits, &f_digits)
    } else {
        let f_digits: Vec<char> = Vec::new();
        proof {
            assert(f_digits@ =~= Seq::<char>::empty());
        }
        e_number_exp(s, iend, neg, &i_digits, &f_digits)
    }
}

fn e_number_exp(
    s: &Vec<char>,
    j: usize,
    neg: bool,
    i_digits: &Vec<char>,
    f_digits: &Vec<char>,
) -> (r: Option<(u64, usize)>)
    requires
        j <= s@.len(),
        all_digits(i_digits@),
        all_digits(f_digits@),
    ensures
        num_eq(r, spec_number_exp(s@, j as int, neg, i_digits@, f_digits@)),
        r matches Some(p) ==> j <= p.1 && p.1 <= s@.len(),
{
    if j < s.len() && (s[j] == 'e' || s[j] == 'E') {
        let eneg = j + 1 < s.len() && s[j + 1] == '-';
        let estart = if j + 1 < s.len() && (s[j + 1] == '-' || s[j + 1] == '+') {
            j + 2
        } else {
            j + 1
        };
        let eend = e_digits_end(s, estart);
        if eend == estart {
            None
        } else {
            let e_digits = subvec(s, estart, eend);
            proof {
                assert(all_digits(e_digits@));
            }
            let v = eval_number(neg, i_digits, f_digits, eneg, &e_digits);
            Some((v, eend))
        }
    } else {
        let e_digits: Vec<char> = Vec::new();
        proof {
            assert(e_digits@ =~= Seq::<char>::empty());
            assert(exp_of(false, e_digits@) == 0);
        }
        let v = eval_number(neg, i_digits, f_digits, false, &e_digits);
        Some((v, j))
    }
}

fn e_skip_value(s: &Vec<char>, i: usize, fuel: usize) -> (r: Option<usize>)
    requires
        i <= s@.len(),
    ensures
        opt_pos_eq(r, skip_value(s@, i as int, fuel as nat)),
        r matches Some(j) ==> i < j && j <= s@.len(),
    decreases fuel,
{
    if fuel == 0 {
        return None;
    }
    if i >= s.len() {
        return None;
    }
    let c = s[i];
    if c == '"' {
        e_string_body(s, i + 1)
    } else if c == '{' {
        let t = e_skip_ws(s, i + 1);
        e_skip_obj(s, t, true, fuel - 1)
    } else if c == '[' {
        let t = e_skip_ws(s, i + 1);
        e_skip_arr(s, t, true, fuel - 1)
    } else if e_has_at(s, i, "true") {
        proof {
            reveal_strlit("true");
        }
        Some(i + 4)
    } else if e_has_at(s, i, "false") {
        proof {
            reveal_strlit("false");
        }
        Some(i + 5)
    } else if e_has_at(s, i, "null") {
        proof {
            reveal_strlit("null");
        }
        Some(i + 4)
    } else {
        match e_number_at(s, i) {
            Some(p) => Some(p.1),
            None => None,
        }
    }
}

fn e_skip_obj(s: &Vec<char>, i: usize, first: bool, fuel: usize) -> (r: Option<usize>)
    requires
        i <= s@.len(),
    ensures
        opt_pos_eq(r, skip_obj(s@, i as int, first, fuel as nat)),
        r matches Some(j) ==> i < j && j <= s@.len(),
    decreases fuel,
{
    if fuel == 0 {
        return None;
    }
    if i >= s.len() {
        return None;
    }
    if first && s[i] == '}' {
        return Some(i + 1);
    }
    if s[i] != '"' {
        return None;
    }
    match e_string_body(s, i + 1) {
        None => None,
        Some(j) => {
            let j2 = e_skip_ws(s, j);
            if !(j2 < s.len() && s[j2] == ':') {
                return None;
            }
            let v = e_skip_ws(s, j2 + 1);
            match e_skip_value(s, v, fuel - 1) {
                None => None,
                Some(k) => {
                    let k2 = e_skip_ws(s, k);
                    if !(k2 < s.len()) {
                        None
                    } else if s[k2] == '}' {
                        Some(k2 + 1)
                    } else if s[k2] == ',' {
                        let n = e_skip_ws(s, k2 + 1);
                        e_skip_obj(s, n, false, fuel - 1)
                    } else {
                        None
                    }
                },
            }
        },
    }
}

fn e_skip_arr(s: &Vec<char>, i: usize, first: bool, fuel: usize) -> (r: Option<usize>)
    requires
        i <= s@.len(),
    ensures
        opt_pos_eq(r, skip_arr(s@, i as int, first, fuel as nat)),
        r matches Some(j) ==> i < j && j <= s@.len(),
    decreases fuel,
{
    if fuel == 0 {
        return None;
    }
    if i >= s.len() {
        return None;
    }
    if first && s[i] == ']' {
        return Some(i + 1);
    }
    match e_skip_value(s, i, fuel - 1) {
        None => None,
        Some(j) => {
            let j2 = e_skip_ws(s, j);
            if !(j2 < s.len()) {
                None
            } else if s[j2] == ']' {
                Some(j2 + 1)
            } else if s[j2] == ',' {
                let n = e_skip_ws(s, j2 + 1);
                e_skip_arr(s, n, false, fuel - 1)
            } else {
                None
            }
        },
    }
}

fn e_finish(s: &Vec<char>, i: usize, found: Option<Option<u64>>) -> (r: ParsedEstimate)
    requires
        i <= s@.len(),
    ensures
        r == finish_at(s@, i as int, found),
{
    let t = e_skip_ws(s, i);
    if t == s.len() {
        match found {
            None => ParsedEstimate::Empty,
            Some(None) => ParsedEstimate::Empty,
            Some(Some(v)) => ParsedEstimate::Fee(v),
        }
    } else {
        ParsedEstimate::Malformed
    }
}

fn e_top_members(
    s: &Vec<char>,
    i: usize,
    first: bool,
    found: Option<Option<u64>>,
    fuel: usize,
) -> (r: ParsedEstimate)
    requires
        i <= s@.len(),
    ensures
        r == top_members(s@, i as int, first, found, fuel as nat),
    decreases fuel,
{
    if fuel == 0 {
        return ParsedEstimate::Malformed;
    }
    if i >= s.len() {
        return ParsedEstimate::Malformed;
    }
    if first && s[i] == '}' {
        return e_finish(s, i + 1, found);
    }
    if s[i] != '"' {
        return ParsedEstimate::Malformed;
    }
    match e_string_body(s, i + 1) {
        None => ParsedEstimate::Malformed,
        Some(j) => {
            let j2 = e_skip_ws(s, j);
            if !(j2 < s.len() && s[j2] == ':') {
                return ParsedEstimate::Malformed;
            }
            let v = e_skip_ws(s, j2 + 1);
            if e_region_is(s, i + 1, j - 1, "priorityFeeEstimate") {
                if matches!(found, Some(_)) {
                    ParsedEstimate::Malformed
                } else if e_has_at(s, v, "null") {
                    proof {
                        reveal_strlit("null");
                    }
                    e_top_after_value(s, v + 4, Some(None), fuel - 1)
                } else {
                    match e_number_at(s, v) {
                        Some(p) => e_top_after_value(s, p.1, Some(Some(p.0)), fuel - 1),
                        None => ParsedEstimate::Malformed,
                    }
                }
            } else {
                match e_skip_value(s, v, fuel - 1) {
                    None => ParsedEstimate::Malformed,
                    Some(k) => e_top_after_value(s, k, found, fuel - 1),
                }
            }
        },
    }
}

fn e_top_after_value(
    s: &Vec<char>,
    k: usize,
    found: Option<Option<u64>>,
    fuel: usize,
) -> (r: ParsedEstimate)
    requires
        k <= s@.len(),
    ensures
        r == top_after_value(s@, k as int, found, fuel as nat),
    decreases fuel,
{
    if fuel == 0 {
        return ParsedEstimate::Malformed;
    }
    let k2 = e_skip_ws(s, k);
    if !(k2 < s.len()) {
        ParsedEstimate::Malformed
    } else if s[k2] == '}' {
        e_finish(s, k2 + 1, found)
    } else if s[k2] == ',' {
        let n = e_skip_ws(s, k2 + 1);
        e_top_members(s, n, false, found, fuel - 1)
    } else {
        ParsedEstimate::Malformed
    }
}

/// Parses one estimation response body: the truncated numeric estimate, an
/// empty estimate (field null or absent), or a malformed body.
pub fn parse_estimate_response(body: &str) -> (r: ParsedEstimate)
    ensures
        r == parse_response_spec(body@),
{
    let s = to_chars(body);
    let i = e_skip_ws(&s, 0);
    if i < s.len() && s[i] == '{' {
        let t = e_skip_ws(&s, i + 1);
        e_top_members(&s, t, true, None, s.len())
    } else {
        ParsedEstimate::Malformed
    }
}

} // verus!
