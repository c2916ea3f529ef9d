//! The JSON grammar, written as a parser over a character sequence and an
//! index, and the executable parser proved to follow it.
//!
//! Each `p*` spec function consumes from index `i` and yields the parsed
//! piece with the index after it, or nothing when the text does not match.
//! Whitespace is allowed around tokens; strings know the usual escapes and
//! `\u` with surrogate pairs; numbers are kept as their raw token.

use vstd::prelude::*;

use crate::json::{jm, jm_list, jm_members, JModel, JVal};

verus! {

broadcast use vstd::std_specs::vec::axiom_vec_index_decreases, vstd::std_specs::vec::axiom_vec_decreases_to_view, vstd::seq::axiom_seq_index_decreases, vstd::seq::axiom_seq_subrange_decreases;

/// JSON insignificant whitespace.
pub open spec fn is_ws(c: char) -> bool {
    c == ' ' || c == '\t' || c == '\n' || c == '\r'
}

/// A decimal digit.
pub open spec fn is_digit(c: char) -> bool {
    48 <= c as u32 && c as u32 <= 57
}

/// The first index at or after `i` that holds no whitespace.
pub open spec fn pws(s: Seq<char>, i: int) -> int
    decreases s.len() - i,
{
    if 0 <= i < s.len() && is_ws(s[i]) {
        pws(s, i + 1)
    } else {
        i
    }
}

/// Skipping digits never moves backwards nor past the end.
pub proof fn lemma_scan_digits_bounds(s: Seq<char>, i: int)
    requires
        0 <= i <= s.len(),
    ensures
        i <= scan_digits(s, i) <= s.len(),
    decreases s.len() - i,
{
    if i < s.len() && is_digit(s[i]) {
        lemma_scan_digits_bounds(s, i + 1);
    }
}

/// The first index at or after `i` that holds no digit.
pub open spec fn scan_digits(s: Seq<char>, i: int) -> int
    decreases s.len() - i,
{
    if 0 <= i < s.len() && is_digit(s[i]) {
        scan_digits(s, i + 1)
    } else {
        i
    }
}

/// A number token at `i`: optional sign, an integer part with no leading
/// zero, an optional fraction, an optional exponent. Yields the raw token.
pub open spec fn pnum(s: Seq<char>, i: int) -> Option<(Seq<char>, int)> {
    if !(0 <= i < s.len()) {
        None
    } else {
        let j0 = if s[i] == '-' {
            i + 1
        } else {
            i
        };
        if !(j0 < s.len() && is_digit(s[j0])) {
            None
        } else {
            let j1 = if s[j0] == '0' {
                j0 + 1
            } else {
                scan_digits(s, j0)
            };
            let j2 = if j1 < s.len() && s[j1] == '.' {
                let d = scan_digits(s, j1 + 1);
                if d > j1 + 1 {
                    d
                } else {
                    -1
                }
            } else {
                j1
            };
            if j2 < 0 {
                None
            } else {
                let j3 = if j2 < s.len() && (s[j2] == 'e' || s[j2] == 'E') {
                    let k0 = if j2 + 1 < s.len() && (s[j2 + 1] == '+' || s[j2 + 1] == '-') {
                        j2 + 2
                    } else {
                        j2 + 1
                    };
                    let d = scan_digits(s, k0);
                    if d > k0 {
                        d
                    } else {
                        -1
                    }
                } else {
                    j2
                };
                if j3 < 0 {
                    None
                } else {
                    Some((s.subrange(i, j3), j3))
                }
            }
        }
    }
}

/// The value of a hexadecimal digit character, or a negative number.
pub open spec fn hex_val(c: char) -> int {
    if is_digit(c) {
        c as u32 - 48
    } else if 97 <= c as u32 && c as u32 <= 102 {
        c as u32 - 87
    } else if 65 <= c as u32 && c as u32 <= 70 {
        c as u32 - 55
    } else {
        -1
    }
}

/// Four hexadecimal digits at `i`, as one value below 0x10000.
pub open spec fn p4hex(s: Seq<char>, i: int) -> Option<(u32, int)> {
    if 0 <= i && i + 4 <= s.len() && hex_val(s[i]) >= 0 && hex_val(s[i + 1]) >= 0 && hex_val(
        s[i + 2],
    ) >= 0 && hex_val(s[i + 3]) >= 0 {
        Some(
            (
                ((hex_val(s[i]) * 4096 + hex_val(s[i + 1]) * 256 + hex_val(s[i + 2]) * 16 + hex_val(
                    s[i + 3],
                )) as u32),
                i + 4,
            ),
        )
    } else {
        None
    }
}

/// An escape at `i` (the character after the backslash): the named escapes,
/// or `\u` with four hexadecimal digits, where a high surrogate must be
/// followed by an escaped low surrogate.
pub open spec fn pesc(s: Seq<char>, i: int) -> Option<(Seq<char>, int)> {
    if !(0 <= i < s.len()) {
        None
    } else {
        let c = s[i];
        if c == '"' {
            Some((seq!['"'], i + 1))
        } else if c == '\\' {
            Some((seq!['\\'], i + 1))
        } else if c == '/' {
            Some((seq!['/'], i + 1))
        } else if c == 'b' {
            Some((seq![(8u8 as char)], i + 1))
        } else if c == 'f' {
            Some((seq![(12u8 as char)], i + 1))
        } else if c == 'n' {
            Some((seq!['\n'], i + 1))
        } else if c == 'r' {
            Some((seq!['\r'], i + 1))
        } else if c == 't' {
            Some((seq!['\t'], i + 1))
        } else if c == 'u' {
            match p4hex(s, i + 1) {
                Some((h, j)) => {
                    if 0xD800 <= h && h < 0xDC00 {
                        if j + 1 < s.len() && s[j] == '\\' && s[j + 1] == 'u' {
                            match p4hex(s, j + 2) {
                                Some((l, j2)) => {
                                    if 0xDC00 <= l && l < 0xE000 {
                                        Some(
                                            (
                                                seq![
                                                    (((0x10000 + (h - 0xD800) * 0x400 + (l
                                                        - 0xDC00)) as u32) as char)
                                                ],
                                                j2,
                                            ),
                                        )
                                    } else {
                                        None
                                    }
                                },
                                None => None,
                            }
                        } else {
                            None
                        }
                    } else if 0xDC00 <= h && h < 0xE000 {
                        None
                    } else {
                        Some((seq![(h as char)], j))
                    }
                },
                None => None,
            }
        } else {
            None
        }
    }
}

/// The body of a string literal from `i` (after the opening quote) to its
/// closing quote: the characters denoted, and the index after the quote.
/// Unescaped control characters are refused.
pub open spec fn pstr_body(s: Seq<char>, i: int) -> Option<(Seq<char>, int)>
    decreases s.len() - i, 0int,
{
    if !(0 <= i < s.len()) {
        None
    } else if s[i] == '"' {
        Some((Seq::empty(), i + 1))
    } else if s[i] == '\\' {
        match pesc(s, i + 1) {
            Some((cs, j)) => {
            if j <= i + 1 || j > s.len() {
                None
            } else {
                match pstr_body(s, j) {
                    Some((rest, e)) => Some((cs + rest, e)),
                    None => None,
                }
            }
            },
            None => None,
        }
    } else if (s[i] as u32) < 32 {
        None
    } else {
        match pstr_body(s, i + 1) {
            Some((rest, e)) => Some((seq![s[i]] + rest, e)),
            None => None,
        }
    }
}

/// A string literal at `i`.
pub open spec fn pstr(s: Seq<char>, i: int) -> Option<(Seq<char>, int)>
    decreases s.len() - i, 1int,
{
    if 0 <= i < s.len() && s[i] == '"' {
        pstr_body(s, i + 1)
    } else {
        None
    }
}

/// A JSON value at `i`.
pub open spec fn pval(s: Seq<char>, i: int) -> Option<(JModel, int)>
    decreases s.len() - i, 4int,
{
    if !(0 <= i < s.len()) {
        None
    } else {
        let c = s[i];
        if c == 'n' {
            if i + 4 <= s.len() && s[i + 1] == 'u' && s[i + 2] == 'l' && s[i + 3] == 'l' {
                Some((JModel::Null, i + 4))
            } else {
                None
            }
        } else if c == 't' {
            if i + 4 <= s.len() && s[i + 1] == 'r' && s[i + 2] == 'u' && s[i + 3] == 'e' {
                Some((JModel::Bool(true), i + 4))
            } else {
                None
            }
        } else if c == 'f' {
            if i + 5 <= s.len() && s[i + 1] == 'a' && s[i + 2] == 'l' && s[i + 3] == 's' && s[i + 4]
                == 'e' {
                Some((JModel::Bool(false), i + 5))
            } else {
                None
            }
        } else if c == '"' {
            match pstr(s, i) {
                Some((cs, j)) => Some((JModel::Str(cs), j)),
                None => None,
            }
        } else if c == '-' || is_digit(c) {
            match pnum(s, i) {
                Some((t, j)) => Some((JModel::Num(t), j)),
                None => None,
            }
        } else if c == '{' {
            pobj(s, i)
        } else if c == '[' {
            parr(s, i)
        } else {
            None
        }
    }
}

/// An object at `i`: `{`, optional members, `}`.
pub open spec fn pobj(s: Seq<char>, i: int) -> Option<(JModel, int)>
    decreases s.len() - i, 3int,
{
    if !(0 <= i < s.len() && s[i] == '{') {
        None
    } else {
        let j = pws(s, i + 1);
        if j < i + 1 || j > s.len() {
            None
        } else if j < s.len() && s[j] == '}' {
            Some((JModel::Obj(Seq::empty()), j + 1))
        } else {
            match pmembers(s, j) {
                Some((ps, e)) => Some((JModel::Obj(ps), e)),
                None => None,
            }
        }
    }
}

/// An array at `i`: `[`, optional elements, `]`.
pub open spec fn parr(s: Seq<char>, i: int) -> Option<(JModel, int)>
    decreases s.len() - i, 3int,
{
    if !(0 <= i < s.len() && s[i] == '[') {
        None
    } else {
        let j = pws(s, i + 1);
        if j < i + 1 || j > s.len() {
            None
        } else if j < s.len() && s[j] == ']' {
            Some((JModel::Arr(Seq::empty()), j + 1))
        } else {
            match pelems(s, j) {
                Some((xs, e)) => Some((JModel::Arr(xs), e)),
                None => None,
            }
        }
    }
}

/// One or more `key: value` members from `i`, comma-separated, up to and
/// including the closing `}`.
pub open spec fn pmembers(s: Seq<char>, i: int) -> Option<(Seq<(Seq<char>, JModel)>, int)>
    decreases s.len() - i, 5int,
{
    match pstr(s, i) {
        None => None,
        Some((key, j1)) => {
            if j1 <= i || j1 > s.len() {
                None
            } else {
                let j2 = pws(s, j1);
                if j2 < j1 || j2 > s.len() || !(j2 < s.len() && s[j2] == ':') {
                    None
                } else {
                    let j3 = pws(s, j2 + 1);
                    if j3 < j2 + 1 || j3 > s.len() {
                        None
                    } else {
                        match pval(s, j3) {
                            None => None,
                            Some((v, j4)) => {
                                if j4 <= j3 || j4 > s.len() {
                                    None
                                } else {
                                    let j5 = pws(s, j4);
                                    if j5 < j4 || j5 > s.len() {
                                        None
                                    } else if j5 < s.len() && s[j5] == ',' {
                                        let j6 = pws(s, j5 + 1);
                                        if j6 < j5 + 1 || j6 > s.len() {
                                            None
                                        } else {
                                            match pmembers(s, j6) {
                                                Some((rest, e)) => Some(
                                                    (seq![(key, v)] + rest, e),
                                                ),
                                                None => None,
                                            }
                                        }
                                    } else if j5 < s.len() && s[j5] == '}' {
                                        Some((seq![(key, v)], j5 + 1))
                                    } else {
                                        None
                                    }
                                }
                            },
                        }
                    }
                }
            }
        },
    }
}

/// One or more elements from `i`, comma-separated, up to and including the
/// closing `]`.
pub open spec fn pelems(s: Seq<char>, i: int) -> Option<(Seq<JModel>, int)>
    decreases s.len() - i, 5int,
{
    match pval(s, i) {
        None => None,
        Some((v, j1)) => {
            if j1 <= i || j1 > s.len() {
                None
            } else {
                let j2 = pws(s, j1);
                if j2 < j1 || j2 > s.len() {
                    None
                } else if j2 < s.len() && s[j2] == ',' {
                    let j3 = pws(s, j2 + 1);
                    if j3 < j2 + 1 || j3 > s.len() {
                        None
                    } else {
                        match pelems(s, j3) {
                            Some((rest, e)) => Some((seq![v] + rest, e)),
                            None => None,
                        }
                    }
                } else if j2 < s.len() && s[j2] == ']' {
                    Some((seq![v], j2 + 1))
                } else {
                    None
                }
            }
        },
    }
}

/// A whole line of text: one JSON value with whitespace around it.
pub open spec fn parse_text(s: Seq<char>) -> Option<JModel> {
    let i = pws(s, 0);
    match pval(s, i) {
        Some((m, j)) => {
            if pws(s, j) == s.len() {
                Some(m)
            } else {
                None
            }
        },
        None => None,
    }
}

/// Whether `c` is JSON whitespace.
fn is_ws_c(c: char) -> (r: bool)
    ensures
        r == is_ws(c),
{
    c == ' ' || c == '\t' || c == '\n' || c == '\r'
}

/// Whether `c` is a decimal digit.
fn is_digit_c(c: char) -> (r: bool)
    ensures
        r == is_digit(c),
{
    let u: u32 = c as u32;
    48 <= u && u <= 57
}

/// Skips whitespace from `i`.
fn ws_end(s: &Vec<char>, i: usize) -> (j: usize)
    requires
        i <= s@.len(),
    ensures
        j as int == pws(s@, i as int),
        i <= j <= s@.len(),
    decreases s@.len() - i,
{
    if i < s.len() && is_ws_c(s[i]) {
        ws_end(s, i + 1)
    } else {
        i
    }
}

/// Skips digits from `i`.
fn digits_end(s: &Vec<char>, i: usize) -> (j: usize)
    requires
        i <= s@.len(),
    ensures
        j as int == scan_digits(s@, i as int),
        i <= j <= s@.len(),
    decreases s@.len() - i,
{
    if i < s.len() && is_digit_c(s[i]) {
        digits_end(s, i + 1)
    } else {
        i
    }
}

/// Copies the characters of `s` between `a` and `b`.
fn copy_range(s: &Vec<char>, a: usize, b: usize) -> (v: Vec<char>)
    requires
        a <= b <= s@.len(),
    ensures
        v@ == s@.subrange(a as int, b as int),
{
    let mut v: Vec<char> = Vec::new();
    let mut k: usize = a;
    while k < b
        invariant
            a <= k <= b <= s@.len(),
            v@ == s@.subrange(a as int, k as int),
        decreases b - k,
    {
        v.push(s[k]);
        k = k + 1;
        proof {
            assert(v@ =~= s@.subrange(a as int, k as int));
        }
    }
    v
}

/// Scans a number token at `i`.
fn scan_num(s: &Vec<char>, i: usize) -> (r: Option<(Vec<char>, usize)>)
    requires
        i <= s@.len(),
    ensures
        r matches Some((t, j)) ==> pnum(s@, i as int) == Some((t@, j as int)) && i < j <= s@.len(),
        r is None ==> pnum(s@, i as int) is None,
{
    if i >= s.len() {
        return None;
    }
    let j0: usize = if s[i] == '-' {
        i + 1
    } else {
        i
    };
    if !(j0 < s.len() && is_digit_c(s[j0])) {
        return None;
    }
    let j1: usize = if s[j0] == '0' {
        j0 + 1
    } else {
        proof {
            lemma_scan_digits_bounds(s@, j0 + 1);
        }
        digits_end(s, j0)
    };
    let j2: usize = if j1 < s.len() && s[j1] == '.' {
        let d = digits_end(s, j1 + 1);
        if d > j1 + 1 {
            d
        } else {
            return None;
        }
    } else {
        j1
    };
    let j3: usize = if j2 < s.len() && (s[j2] == 'e' || s[j2] == 'E') {
        let k0: usize = if j2 + 1 < s.len() && (s[j2 + 1] == '+' || s[j2 + 1] == '-') {
            j2 + 2
        } else {
            j2 + 1
        };
        let d = digits_end(s, k0);
        if d > k0 {
            d
        } else {
            return None;
        }
    } else {
        j2
    };
    let t = copy_range(s, i, j3);
    Some((t, j3))
}

/// The value of a hexadecimal digit character.
fn hex_val_c(c: char) -> (r: Option<u32>)
    ensures
        r matches Some(v) ==> hex_val(c) == v as int && v < 16,
        r is None ==> hex_val(c) < 0,
{
    let u: u32 = c as u32;
    if 48 <= u && u <= 57 {
        Some(u - 48)
    } else if 97 <= u && u <= 102 {
        Some(u - 87)
    } else if 65 <= u && u <= 70 {
        Some(u - 55)
    } else {
        None
    }
}

/// Reads four hexadecimal digits at `i`.
fn scan_4hex(s: &Vec<char>, i: usize) -> (r: Option<(u32, usize)>)
    requires
        i <= s@.len(),
    ensures
        r matches Some((h, j)) ==> p4hex(s@, i as int) == Some((h, j as int)) && h < 0x10000 && j
            == i + 4 && j <= s@.len(),
        r is None ==> p4hex(s@, i as int) is None,
{
    if s.len() - i < 4 {
        return None;
    }
    let h0 = match hex_val_c(s[i]) {
        Some(v) => v,
        None => {
            return None;
        },
    };
    let h1 = match hex_val_c(s[i + 1]) {
        Some(v) => v,
        None => {
            return None;
        },
    };
    let h2 = match hex_val_c(s[i + 2]) {
        Some(v) => v,
        None => {
            return None;
        },
    };
    let h3 = match hex_val_c(s[i + 3]) {
        Some(v) => v,
        None => {
            return None;
        },
    };
    Some((h0 * 4096 + h1 * 256 + h2 * 16 + h3, i + 4))
}

/// Relies on `char::from_u32` of std: it yields the character with that
/// code exactly for Unicode scalar values (below the surrogate range, or
/// between it and 0x10FFFF inclusive), and nothing otherwise.
#[verifier::external_body]
fn char_from_u32(v: u32) -> (r: Option<char>)
    ensures
        r matches Some(c) ==> c as u32 == v,
        (v < 0xD800 || (0xE000 <= v && v <= 0x10FFFF)) <==> r is Some,
{
    char::from_u32(v)
}

/// Reads one escape at `i` (after the backslash).
fn scan_esc(s: &Vec<char>, i: usize) -> (r: Option<(Vec<char>, usize)>)
    requires
        i <= s@.len(),
    ensures
        r matches Some((cs, j)) ==> pesc(s@, i as int) == Some((cs@, j as int)) && i < j
            <= s@.len(),
        r is None ==> pesc(s@, i as int) is None,
{
    if i >= s.len() {
        return None;
    }
    let c = s[i];
    if c == '"' || c == '\\' || c == '/' {
        return Some((vec![c], i + 1));
    }
    if c == 'b' {
        return Some((vec![(8u8 as char)], i + 1));
    }
    if c == 'f' {
        return Some((vec![(12u8 as char)], i + 1));
    }
    if c == 'n' {
        return Some((vec!['\n'], i + 1));
    }
    if c == 'r' {
        return Some((vec!['\r'], i + 1));
    }
    if c == 't' {
        return Some((vec!['\t'], i + 1));
    }
    if c != 'u' {
        return None;
    }
    match scan_4hex(s, i + 1) {
        None => None,
        Some((h, j)) => {
            if 0xD800 <= h && h < 0xDC00 {
                if j < s.len() && j + 1 < s.len() && s[j] == '\\' && s[j + 1] == 'u' {
                    match scan_4hex(s, j + 2) {
                        None => None,
                        Some((l, j2)) => {
                            if 0xDC00 <= l && l < 0xE000 {
                                let code: u32 = 0x10000 + (h - 0xD800) * 0x400 + (l - 0xDC00);
                                match char_from_u32(code) {
                                    Some(ch) => {
                                        proof {
                                            vstd::utf8::char_u32_cast(ch, code);
                                        }
                                        Some((vec![ch], j2))
                                    },
                                    None => {
                                        proof {
                                            assert(false);
                                        }
                                        None
                                    },
                                }
                            } else {
                                None
                            }
                        },
                    }
                } else {
                    None
                }
            } else if 0xDC00 <= h && h < 0xE000 {
                None
            } else {
                match char_from_u32(h) {
                    Some(ch) => {
                        proof {
                            vstd::utf8::char_u32_cast(ch, h);
                        }
                        Some((vec![ch], j))
                    },
                    None => {
                        proof {
                            assert(false);
                        }
                        None
                    },
                }
            }
        },
    }
}

/// Reads a string body from `i` (after the opening quote).
fn scan_str_body(s: &Vec<char>, i: usize) -> (r: Option<(Vec<char>, usize)>)
    requires
        i <= s@.len(),
    ensures
        r matches Some((cs, j)) ==> pstr_body(s@, i as int) == Some((cs@, j as int)) && i < j
            <= s@.len(),
        r is None ==> pstr_body(s@, i as int) is None,
    decreases s@.len() - i, 0int,
{
    if i >= s.len() {
        return None;
    }
    let c = s[i];
    if c == '"' {
        let cs: Vec<char> = Vec::new();
        return Some((cs, i + 1));
    }
    if c == '\\' {
        match scan_esc(s, i + 1) {
            None => None,
            Some((cs, j)) => {
                match scan_str_body(s, j) {
                    None => None,
                    Some((rest, e)) => {
                        let mut cs2 = cs;
                        let mut rest2 = rest;
                        cs2.append(&mut rest2);
                        Some((cs2, e))
                    },
                }
            },
        }
    } else if (c as u32) < 32 {
        None
    } else {
        match scan_str_body(s, i + 1) {
            None => None,
            Some((rest, e)) => {
                let ghost grest = rest@;
                let mut cs: Vec<char> = Vec::new();
                cs.push(c);
                let mut rest2 = rest;
                cs.append(&mut rest2);
                proof {
                    assert(cs@ =~= seq![c] + grest);
                }
                Some((cs, e))
            },
        }
    }
}

/// Reads a string literal at `i`.
fn scan_str(s: &Vec<char>, i: usize) -> (r: Option<(Vec<char>, usize)>)
    requires
        i <= s@.len(),
    ensures
        r matches Some((cs, j)) ==> pstr(s@, i as int) == Some((cs@, j as int)) && i < j
            <= s@.len(),
        r is None ==> pstr(s@, i as int) is None,
    decreases s@.len() - i, 1int,
{
    if i < s.len() && s[i] == '"' {
        scan_str_body(s, i + 1)
    } else {
        None
    }
}

/// Reads a JSON value at `i`.
pub fn parse_val(s: &Vec<char>, i: usize) -> (r: Option<(JVal, usize)>)
    requires
        i <= s@.len(),
    ensures
        r matches Some((v, j)) ==> pval(s@, i as int) == Some((jm(v), j as int)) && i < j
            <= s@.len(),
        r is None ==> pval(s@, i as int) is None,
    decreases s@.len() - i, 4int,
{
    if i >= s.len() {
        return None;
    }
    let c = s[i];
    if c == 'n' {
        if s.len() - i >= 4 && s[i + 1] == 'u' && s[i + 2] == 'l' && s[i + 3] == 'l' {
            Some((JVal::Null, i + 4))
        } else {
            None
        }
    } else if c == 't' {
        if s.len() - i >= 4 && s[i + 1] == 'r' && s[i + 2] == 'u' && s[i + 3] == 'e' {
            Some((JVal::Bool(true), i + 4))
        } else {
            None
        }
    } else if c == 'f' {
        if s.len() - i >= 5 && s[i + 1] == 'a' && s[i + 2] == 'l' && s[i + 3] == 's' && s[i + 4]
            == 'e' {
            Some((JVal::Bool(false), i + 5))
        } else {
            None
        }
    } else if c == '"' {
        match scan_str(s, i) {
            Some((cs, j)) => Some((JVal::Str(cs), j)),
            None => None,
        }
    } else if c == '-' || is_digit_c(c) {
        match scan_num(s, i) {
            Some((t, j)) => Some((JVal::Num(t), j)),
            None => None,
        }
    } else if c == '{' {
        parse_obj(s, i)
    } else if c == '[' {
        parse_arr(s, i)
    } else {
        None
    }
}

/// Reads an object at `i`.
fn parse_obj(s: &Vec<char>, i: usize) -> (r: Option<(JVal, usize)>)
    requires
        i <= s@.len(),
    ensures
        r matches Some((v, j)) ==> pobj(s@, i as int) == Some((jm(v), j as int)) && i < j
            <= s@.len(),
        r is None ==> pobj(s@, i as int) is None,
    decreases s@.len() - i, 3int,
{
    if !(i < s.len() && s[i] == '{') {
        return None;
    }
    let j = ws_end(s, i + 1);
    if j < s.len() && s[j] == '}' {
        let ps: Vec<(Vec<char>, JVal)> = Vec::new();
        return Some((JVal::Obj(ps), j + 1));
    }
    match parse_members(s, j) {
        None => None,
        Some((ps, e)) => Some((JVal::Obj(ps), e)),
    }
}

/// Reads an array at `i`.
fn parse_arr(s: &Vec<char>, i: usize) -> (r: Option<(JVal, usize)>)
    requires
        i <= s@.len(),
    ensures
        r matches Some((v, j)) ==> parr(s@, i as int) == Some((jm(v), j as int)) && i < j
            <= s@.len(),
        r is None ==> parr(s@, i as int) is None,
    decreases s@.len() - i, 3int,
{
    if !(i < s.len() && s[i] == '[') {
        return None;
    }
    let j = ws_end(s, i + 1);
    if j < s.len() && s[j] == ']' {
        let xs: Vec<JVal> = Vec::new();
        return Some((JVal::Arr(xs), j + 1));
    }
    match parse_elems(s, j) {
        None => None,
        Some((xs, e)) => Some((JVal::Arr(xs), e)),
    }
}

/// Reads one or more members from `i`, through the closing brace.
fn parse_members(s: &Vec<char>, i: usize) -> (r: Option<(Vec<(Vec<char>, JVal)>, usize)>)
    requires
        i <= s@.len(),
    ensures
        r matches Some((ps, j)) ==> pmembers(s@, i as int) == Some((jm_members(ps@, 0), j as int))
            && i < j <= s@.len(),
        r is None ==> pmembers(s@, i as int) is None,
    decreases s@.len() - i, 5int,
{
    match scan_str(s, i) {
        None => None,
        Some((key, j1)) => {
            let j2 = ws_end(s, j1);
            if !(j2 < s.len() && s[j2] == ':') {
                return None;
            }
            let j3 = ws_end(s, j2 + 1);
            match parse_val(s, j3) {
                None => None,
                Some((v, j4)) => {
                    let j5 = ws_end(s, j4);
                    if j5 < s.len() && s[j5] == ',' {
                        let j6 = ws_end(s, j5 + 1);
                        match parse_members(s, j6) {
                            None => None,
                            Some((rest, e)) => {
                                let ghost x = (key, v);
                                let ghost grest = rest@;
                                let mut ps: Vec<(Vec<char>, JVal)> = Vec::new();
                                ps.push((key, v));
                                let mut rest2 = rest;
                                ps.append(&mut rest2);
                                proof {
                                    assert(ps@ =~= seq![x] + grest);
                                    crate::json::lemma_jm_members_cons(x, grest);
                                }
                                Some((ps, e))
                            },
                        }
                    } else if j5 < s.len() && s[j5] == '}' {
                        let ghost x = (key, v);
                        let mut ps: Vec<(Vec<char>, JVal)> = Vec::new();
                        ps.push((key, v));
                        proof {
                            crate::json::lemma_jm_members_len(ps@, 1);
                            assert(jm_members(ps@, 1) =~= Seq::<(Seq<char>, JModel)>::empty());
                        }
                        Some((ps, j5 + 1))
                    } else {
                        None
                    }
                },
            }
        },
    }
}

/// Reads one or more elements from `i`, through the closing bracket.
fn parse_elems(s: &Vec<char>, i: usize) -> (r: Option<(Vec<JVal>, usize)>)
    requires
        i <= s@.len(),
    ensures
        r matches Some((xs, j)) ==> pelems(s@, i as int) == Some((jm_list(xs@, 0), j as int)) && i
            < j <= s@.len(),
        r is None ==> pelems(s@, i as int) is None,
    decreases s@.len() - i, 5int,
{
    match parse_val(s, i) {
        None => None,
        Some((v, j1)) => {
            let j2 = ws_end(s, j1);
            if j2 < s.len() && s[j2] == ',' {
                let j3 = ws_end(s, j2 + 1);
                match parse_elems(s, j3) {
                    None => None,
                    Some((rest, e)) => {
                        let ghost x = v;
                        let ghost grest = rest@;
                        let mut xs: Vec<JVal> = Vec::new();
                        xs.push(v);
                        let mut rest2 = rest;
                        xs.append(&mut rest2);
                        proof {
                            assert(xs@ =~= seq![x] + grest);
                            crate::json::lemma_jm_list_cons(x, grest);
                        }
                        Some((xs, e))
                    },
                }
            } else if j2 < s.len() && s[j2] == ']' {
                let ghost x = v;
                let mut xs: Vec<JVal> = Vec::new();
                xs.push(v);
                proof {
                    crate::json::lemma_jm_list_len(xs@, 1);
                    assert(jm_list(xs@, 1) =~= Seq::<JModel>::empty());
                }
                Some((xs, j2 + 1))
            } else {
                None
            }
        },
    }
}

/// Parses one line of text as a JSON value.
pub fn parse_json(s: &str) -> (r: Option<JVal>)
    ensures
        r matches Some(v) ==> parse_text(s@) == Some(jm(v)),
        r is None ==> parse_text(s@) is None,
{
    let cs = crate::chars::str_to_chars(s);
    let i = ws_end(&cs, 0);
    match parse_val(&cs, i) {
        None => None,
        Some((v, j)) => {
            let e = ws_end(&cs, j);
            if e == cs.len() {
                Some(v)
            } else {
                None
            }
        },
    }
}

} // verus!
