//! The codec's round trip: rendering a well-formed JSON value and parsing
//! the rendered text gives the value back. In particular every response
//! line the engine writes parses back to exactly the object it encodes.

use vstd::prelude::*;

use crate::jparse::{
    is_digit, is_ws, lemma_scan_digits_bounds, p4hex, parr, pelems, pesc, pmembers, pnum, pobj,
    pstr, pstr_body, pval, pws, parse_text, scan_digits,
};
use crate::json::{esc_char, esc_from, jser, jser_list, jser_members, quote, JModel};

verus! {

/// A well-formed JSON value: every number holds a valid token. Only such
/// values render to parseable text.
pub open spec fn wf(m: JModel) -> bool
    decreases m, 0int, 0int,
{
    match m {
        JModel::Num(t) => pnum(t, 0) == Some((t, t.len() as int)),
        JModel::Arr(xs) => wf_list(xs, 0),
        JModel::Obj(ps) => wf_members(ps, 0),
        _ => true,
    }
}

/// All elements from `k` on are well-formed.
pub open spec fn wf_list(xs: Seq<JModel>, k: int) -> bool
    decreases xs, xs.len() - k, 1int,
{
    if k < 0 || k >= xs.len() {
        true
    } else {
        wf(xs[k]) && wf_list(xs, k + 1)
    }
}

/// All member values from `k` on are well-formed.
pub open spec fn wf_members(ps: Seq<(Seq<char>, JModel)>, k: int) -> bool
    decreases ps, ps.len() - k, 1int,
{
    if k < 0 || k >= ps.len() {
        true
    } else {
        wf(ps[k].1) && wf_members(ps, k + 1)
    }
}

/// A character that could extend a number token.
pub open spec fn is_num_cont(c: char) -> bool {
    is_digit(c) || c == '.' || c == 'e' || c == 'E' || c == '+' || c == '-'
}

/// Skipping digits translates along an embedding of the token into a
/// larger text whose follower is no digit.
proof fn lemma_scan_digits_translate(s: Seq<char>, i: int, t: Seq<char>, d: int)
    requires
        0 <= i,
        i + t.len() <= s.len(),
        s.subrange(i, i + t.len()) == t,
        i + t.len() == s.len() || !is_digit(s[i + t.len()]),
        0 <= d <= t.len(),
    ensures
        scan_digits(s, i + d) == i + scan_digits(t, d),
        d <= scan_digits(t, d) <= t.len(),
    decreases t.len() - d,
{
    lemma_scan_digits_bounds(t, d);
    assert(forall|k: int| 0 <= k < t.len() ==> s[i + k] == #[trigger] t[k]);
    if d < t.len() && is_digit(t[d]) {
        lemma_scan_digits_translate(s, i, t, d + 1);
    }
}

/// A valid number token embedded in a larger text, with a follower that
/// cannot extend it, is exactly what the number parser reads.
proof fn lemma_pnum_translate(s: Seq<char>, i: int, t: Seq<char>)
    requires
        0 <= i,
        i + t.len() <= s.len(),
        s.subrange(i, i + t.len()) == t,
        i + t.len() == s.len() || !is_num_cont(s[i + t.len()]),
        pnum(t, 0) == Some((t, t.len() as int)),
    ensures
        pnum(s, i) == Some((t, i + t.len())),
{
    let n = t.len() as int;
    assert(forall|k: int| 0 <= k < n ==> s[i + k] == #[trigger] t[k]);
    assert(t.len() > 0);
    // the integer part
    let j0t: int = if t[0] == '-' {
        1
    } else {
        0
    };
    assert(j0t < n && is_digit(t[j0t]));
    let j1t: int = if t[j0t] == '0' {
        j0t + 1
    } else {
        scan_digits(t, j0t)
    };
    if t[j0t] != '0' {
        lemma_scan_digits_translate(s, i, t, j0t);
    }
    lemma_scan_digits_bounds(t, j0t);
    assert(j0t < j1t <= n);
    // the fraction
    let j2t: int = if j1t < n && t[j1t] == '.' {
        scan_digits(t, j1t + 1)
    } else {
        j1t
    };
    if j1t < n && t[j1t] == '.' {
        lemma_scan_digits_translate(s, i, t, j1t + 1);
        lemma_scan_digits_bounds(t, j1t + 1);
        assert(j2t > j1t + 1);
    }
    assert(j1t <= j2t <= n);
    // the exponent
    if j2t < n && (t[j2t] == 'e' || t[j2t] == 'E') {
        let k0t: int = if j2t + 1 < n && (t[j2t + 1] == '+' || t[j2t + 1] == '-') {
            j2t + 2
        } else {
            j2t + 1
        };
        lemma_scan_digits_translate(s, i, t, k0t);
        lemma_scan_digits_bounds(t, k0t);
        assert(scan_digits(t, k0t) == n);
        assert(s.subrange(i, i + n) =~= t);
    } else {
        assert(j2t == n);
        assert(s.subrange(i, i + n) =~= t);
    }
}

/// A rendered hexadecimal digit reads back as its value.
proof fn lemma_hex_digit_val(v: u32)
    requires
        v < 16,
    ensures
        crate::jparse::hex_val(crate::json::hex_digit(v)) == v as int,
{
    if v < 10 {
        assert((((v + 48) as u8) as char) as u32 == v + 48);
    } else {
        assert((((v + 87) as u8) as char) as u32 == v + 87);
    }
}

/// A rendered string body embedded in a larger text, up to its closing
/// quote, is exactly what the string parser reads.
proof fn lemma_pstr_body_round(s: Seq<char>, i: int, cont: Seq<char>, k: int)
    requires
        0 <= k <= cont.len(),
        0 <= i,
        i + esc_from(cont, k).len() + 1 <= s.len(),
        s.subrange(i, i + esc_from(cont, k).len()) == esc_from(cont, k),
        s[i + esc_from(cont, k).len()] == '"',
    ensures
        pstr_body(s, i) == Some(
            (cont.subrange(k, cont.len() as int), i + esc_from(cont, k).len() + 1),
        ),
    decreases cont.len() - k,
{
    let full = esc_from(cont, k).len() as int;
    if k == cont.len() {
        assert(cont.subrange(k, cont.len() as int) =~= Seq::<char>::empty());
    } else {
        let c = cont[k];
        let e = esc_char(c);
        let rest = esc_from(cont, k + 1);
        assert(esc_from(cont, k) == e + rest);
        assert forall|d: int| 0 <= d < full implies s[i + d] == #[trigger] esc_from(cont, k)[d] by {
            assert(s.subrange(i, i + full)[d] == s[i + d]);
        }
        assert forall|d: int| 0 <= d < e.len() implies s[i + d] == #[trigger] e[d] by {
            assert(esc_from(cont, k)[d] == e[d]);
            assert(s[i + d] == esc_from(cont, k)[d]);
        }
        assert forall|d: int| 0 <= d < rest.len() implies s.subrange(
            i + e.len(),
            i + full,
        )[d] == rest[d] by {
            assert(esc_from(cont, k)[e.len() + d] == rest[d]);
            assert(s[i + e.len() + d] == esc_from(cont, k)[e.len() + d]);
        }
        assert(s.subrange(i + e.len(), i + full) =~= rest);
        assert(s[i + e.len() + rest.len() as int] == '"');
        lemma_pstr_body_round(s, i + e.len() as int, cont, k + 1);
        let tail = cont.subrange(k + 1, cont.len() as int);
        assert(seq![c] + tail =~= cont.subrange(k, cont.len() as int));
        let cu = c as u32;
        if c == '"' || c == '\\' || c == '\n' || c == '\r' || c == '\t' || cu == 8 || cu == 12 {
            assert(s[i] == '\\');
            assert(pesc(s, i + 1) == Some((seq![c], i + 2))) by {
                vstd::utf8::char_u32_cast(c, cu);
            }
        } else if cu < 32 {
            assert(s[i] == '\\');
            assert(s[i + 1] == 'u');
            assert(s[i + 2] == '0');
            assert(s[i + 3] == '0');
            assert(s[i + 4] == crate::json::hex_digit(cu / 16));
            assert(s[i + 5] == crate::json::hex_digit(cu % 16));
            lemma_hex_digit_val(cu / 16);
            lemma_hex_digit_val(cu % 16);
            assert(crate::jparse::hex_val('0') == 0);
            assert(p4hex(s, i + 2) == Some((cu, i + 6))) by {
                assert((cu / 16) * 16 + cu % 16 == cu);
            }
            assert(pesc(s, i + 1) == Some((seq![c], i + 6))) by {
                vstd::utf8::char_u32_cast(c, cu);
            }
        } else {
            assert(e == seq![c]);
            assert(e[0] == c);
            assert(s[i] == e[0]);
        }
    }
}

/// A rendered string literal embedded in a larger text is exactly what the
/// string parser reads.
proof fn lemma_pstr_round(s: Seq<char>, i: int, cont: Seq<char>)
    requires
        0 <= i,
        i + quote(cont).len() <= s.len(),
        s.subrange(i, i + quote(cont).len()) == quote(cont),
    ensures
        pstr(s, i) == Some((cont, i + quote(cont).len())),
{
    let q = quote(cont);
    let body = esc_from(cont, 0);
    assert forall|d: int| 0 <= d < q.len() implies s[i + d] == #[trigger] q[d] by {
        assert(s.subrange(i, i + q.len())[d] == s[i + d]);
    }
    assert(q[0] == '"');
    assert(s[i] == q[0]);
    assert forall|d: int| 0 <= d < body.len() implies s.subrange(
        i + 1,
        i + 1 + body.len(),
    )[d] == body[d] by {
        assert(q[1 + d] == body[d]);
        assert(s[i + 1 + d] == q[1 + d]);
    }
    assert(s.subrange(i + 1, i + 1 + body.len()) =~= body);
    assert(q[1 + body.len() as int] == '"');
    assert(s[i + 1 + body.len()] == q[1 + body.len() as int]);
    lemma_pstr_body_round(s, i + 1, cont, 0);
    assert(cont.subrange(0, cont.len() as int) =~= cont);
}

/// A character a rendered value can start with.
pub open spec fn first_ok(c: char) -> bool {
    c == 'n' || c == 't' || c == 'f' || c == '"' || c == '-' || is_digit(c) || c == '{' || c
        == '['
}

/// A rendered well-formed value is never empty and starts with a value
/// character — never whitespace or a delimiter.
proof fn lemma_jser_first(m: JModel)
    requires
        wf(m),
    ensures
        jser(m).len() >= 1,
        first_ok(jser(m)[0]),
{
    match m {
        JModel::Num(t) => {
            assert(t.len() > 0);
            if t[0] == '-' {
            } else {
                assert(is_digit(t[0]));
            }
        },
        JModel::Str(c) => {
            assert(jser(m)[0] == '"');
        },
        _ => {},
    }
}

/// Characters of a window of `s` equal those of the matched text.
proof fn lemma_window(s: Seq<char>, i: int, w: Seq<char>, a: int, b: int)
    requires
        0 <= i,
        i + w.len() <= s.len(),
        s.subrange(i, i + w.len()) == w,
        0 <= a <= b <= w.len(),
    ensures
        s.subrange(i + a, i + b) == w.subrange(a, b),
{
    assert forall|d: int| 0 <= d < b - a implies s.subrange(i + a, i + b)[d] == w.subrange(
        a,
        b,
    )[d] by {
        assert(w[a + d] == s.subrange(i, i + w.len())[a + d]);
    }
    assert(s.subrange(i + a, i + b) =~= w.subrange(a, b));
}

/// One character of a window of `s` equals the matched text's.
proof fn lemma_window_char(s: Seq<char>, i: int, w: Seq<char>, a: int)
    requires
        0 <= i,
        i + w.len() <= s.len(),
        s.subrange(i, i + w.len()) == w,
        0 <= a < w.len(),
    ensures
        s[i + a] == w[a],
{
    assert(w[a] == s.subrange(i, i + w.len())[a]);
}

/// A rendered well-formed value embedded in a larger text, with a follower
/// that cannot extend a number, is exactly what the value parser reads.
#[verifier::rlimit(60)]
pub proof fn lemma_pval_round(s: Seq<char>, i: int, m: JModel)
    requires
        wf(m),
        0 <= i,
        i + jser(m).len() <= s.len(),
        s.subrange(i, i + jser(m).len()) == jser(m),
        i + jser(m).len() == s.len() || !is_num_cont(s[i + jser(m).len()]),
    ensures
        pval(s, i) == Some((m, i + jser(m).len())),
    decreases m, 0int,
{
    let w = jser(m);
    let n = w.len() as int;
    match m {
        JModel::Null => {
            lemma_window_char(s, i, w, 0);
            lemma_window_char(s, i, w, 1);
            lemma_window_char(s, i, w, 2);
            lemma_window_char(s, i, w, 3);
        },
        JModel::Bool(b) => {
            lemma_window_char(s, i, w, 0);
            lemma_window_char(s, i, w, 1);
            lemma_window_char(s, i, w, 2);
            lemma_window_char(s, i, w, 3);
            if !b {
                lemma_window_char(s, i, w, 4);
            }
        },
        JModel::Num(t) => {
            lemma_pnum_translate(s, i, t);
            lemma_window_char(s, i, w, 0);
            assert(t.len() > 0);
            if t[0] == '-' {
            } else {
                assert(is_digit(t[0]));
            }
        },
        JModel::Str(c) => {
            lemma_window_char(s, i, w, 0);
            assert(w[0] == '"');
            lemma_pstr_round(s, i, c);
        },
        JModel::Arr(xs) => {
            lemma_window_char(s, i, w, 0);
            assert(w[0] == '[');
            lemma_parr_round(s, i, xs);
        },
        JModel::Obj(ps) => {
            lemma_window_char(s, i, w, 0);
            assert(w[0] == '{');
            lemma_pobj_round(s, i, ps);
        },
    }
}

/// A rendered object embedded in a larger text is exactly what the object
/// parser reads.
#[verifier::rlimit(60)]
proof fn lemma_pobj_round(s: Seq<char>, i: int, ps: Seq<(Seq<char>, JModel)>)
    requires
        wf_members(ps, 0),
        0 <= i,
        i + jser(JModel::Obj(ps)).len() <= s.len(),
        s.subrange(i, i + jser(JModel::Obj(ps)).len()) == jser(JModel::Obj(ps)),
    ensures
        pobj(s, i) == Some((JModel::Obj(ps), i + jser(JModel::Obj(ps)).len())),
    decreases ps, ps.len() + 1,
{
    let w = jser(JModel::Obj(ps));
    let inner = jser_members(ps, 0);
    assert(w == seq!['{'] + inner + seq!['}']);
    lemma_window_char(s, i, w, 0);
    assert(w[0] == '{');
    if ps.len() == 0 {
        assert(inner =~= Seq::<char>::empty());
        assert(w.len() == 2);
        lemma_window_char(s, i, w, 1);
        assert(w[1] == '}');
        assert(!is_ws('}'));
        assert(pws(s, i + 1) == i + 1);
        assert(ps =~= Seq::<(Seq<char>, JModel)>::empty());
        assert(pobj(s, i) == Some((JModel::Obj(ps), i + 2)));
    } else {
        lemma_window_char(s, i, w, 1);
        assert(w[1] == inner[0]);
        assert(inner[0] == '"') by {
            let q0 = quote(ps[0].0);
            assert(q0[0] == '"');
            if ps.len() == 1 {
                assert(inner == q0 + seq![':'] + jser(ps[0].1));
            } else {
                assert(inner == q0 + seq![':'] + jser(ps[0].1) + seq![','] + jser_members(ps, 1));
            }
        }
        assert(pws(s, i + 1) == i + 1);
        lemma_window(s, i, w, 1, 1 + inner.len() as int);
        assert(w.subrange(1, 1 + inner.len() as int) =~= inner);
        lemma_window_char(s, i, w, 1 + inner.len() as int);
        assert(w[1 + inner.len() as int] == '}');
        assert(s[i + 1] == '"');
        assert(s[i + 1] != '}');
        lemma_pmembers_round(s, i + 1, ps, 0);
        assert(ps.subrange(0, ps.len() as int) =~= ps);
        assert(pmembers(s, i + 1) == Some((ps, i + 1 + inner.len() + 1)));
        assert(w.len() == 2 + inner.len());
        assert(pobj(s, i) == Some((JModel::Obj(ps), i + w.len())));
    }
}

/// A rendered array embedded in a larger text is exactly what the array
/// parser reads.
#[verifier::rlimit(60)]
proof fn lemma_parr_round(s: Seq<char>, i: int, xs: Seq<JModel>)
    requires
        wf_list(xs, 0),
        0 <= i,
        i + jser(JModel::Arr(xs)).len() <= s.len(),
        s.subrange(i, i + jser(JModel::Arr(xs)).len()) == jser(JModel::Arr(xs)),
    ensures
        parr(s, i) == Some((JModel::Arr(xs), i + jser(JModel::Arr(xs)).len())),
    decreases xs, xs.len() + 1,
{
    let w = jser(JModel::Arr(xs));
    let inner = jser_list(xs, 0);
    assert(w == seq!['['] + inner + seq![']']);
    lemma_window_char(s, i, w, 0);
    assert(w[0] == '[');
    if xs.len() == 0 {
        assert(inner =~= Seq::<char>::empty());
        assert(w.len() == 2);
        lemma_window_char(s, i, w, 1);
        assert(w[1] == ']');
        assert(!is_ws(']'));
        assert(pws(s, i + 1) == i + 1);
        assert(xs =~= Seq::<JModel>::empty());
        assert(parr(s, i) == Some((JModel::Arr(xs), i + 2)));
    } else {
        lemma_jser_first(xs[0]);
        assert(inner[0] == jser(xs[0])[0]) by {
            if xs.len() == 1 {
                assert(inner == jser(xs[0]));
            } else {
                assert(inner == jser(xs[0]) + seq![','] + jser_list(xs, 1));
            }
        }
        lemma_window_char(s, i, w, 1);
        assert(w[1] == inner[0]);
        assert(!is_ws(s[i + 1]));
        assert(pws(s, i + 1) == i + 1);
        assert(s[i + 1] != ']');
        lemma_window(s, i, w, 1, 1 + inner.len() as int);
        assert(w.subrange(1, 1 + inner.len() as int) =~= inner);
        lemma_window_char(s, i, w, 1 + inner.len() as int);
        assert(w[1 + inner.len() as int] == ']');
        lemma_pelems_round(s, i + 1, xs, 0);
        assert(xs.subrange(0, xs.len() as int) =~= xs);
        assert(pelems(s, i + 1) == Some((xs, i + 1 + inner.len() + 1)));
        assert(w.len() == 2 + inner.len());
        assert(parr(s, i) == Some((JModel::Arr(xs), i + w.len())));
    }
}

/// Rendered members from `k` on, embedded with their closing brace, are
/// exactly what the member parser reads.
#[verifier::rlimit(90)]
proof fn lemma_pmembers_round(s: Seq<char>, i: int, ps: Seq<(Seq<char>, JModel)>, k: int)
    requires
        0 <= k < ps.len(),
        wf_members(ps, k),
        0 <= i,
        i + jser_members(ps, k).len() + 1 <= s.len(),
        s.subrange(i, i + jser_members(ps, k).len()) == jser_members(ps, k),
        s[i + jser_members(ps, k).len()] == '}',
    ensures
        pmembers(s, i) == Some(
            (ps.subrange(k, ps.len() as int), i + jser_members(ps, k).len() + 1),
        ),
    decreases ps, ps.len() - k,
{
    let w = jser_members(ps, k);
    let key = ps[k].0;
    let v = ps[k].1;
    let q = quote(key);
    let jv = jser(v);
    assert(wf(v));
    let head = q + seq![':'] + jv;
    if k == ps.len() - 1 {
        assert(w == head);
    } else {
        assert(w == head + seq![','] + jser_members(ps, k + 1));
    }
    lemma_window(s, i, w, 0, q.len() as int);
    assert(w.subrange(0, q.len() as int) =~= q);
    lemma_pstr_round(s, i, key);
    let j1 = i + q.len() as int;
    lemma_window_char(s, i, w, q.len() as int);
    assert(w[q.len() as int] == ':');
    assert(pws(s, j1) == j1);
    let j3 = j1 + 1;
    lemma_window_char(s, i, w, q.len() + 1 as int);
    lemma_jser_first(v);
    assert(w[q.len() + 1 as int] == jv[0]);
    assert(!is_ws(s[j3]));
    assert(pws(s, j3) == j3);
    lemma_window(s, i, w, q.len() + 1 as int, q.len() + 1 + jv.len() as int);
    assert(w.subrange(q.len() + 1 as int, q.len() + 1 + jv.len() as int) =~= jv);
    let j4 = j3 + jv.len() as int;
    if k == ps.len() - 1 {
        assert(s[j4] == '}');
        lemma_pval_round(s, j3, v);
        assert(pws(s, j4) == j4);
        assert(ps.subrange(k, ps.len() as int) =~= seq![(key, v)]);
    } else {
        let rest = jser_members(ps, k + 1);
        lemma_window_char(s, i, w, q.len() + 1 + jv.len() as int);
        assert(w[q.len() + 1 + jv.len() as int] == ',');
        assert(s[j4] == ',');
        lemma_pval_round(s, j3, v);
        assert(pws(s, j4) == j4);
        let j6 = j4 + 1;
        lemma_window(s, i, w, q.len() + 2 + jv.len() as int, w.len() as int);
        assert(w.subrange(q.len() + 2 + jv.len() as int, w.len() as int) =~= rest);
        lemma_window_char(s, i, w, q.len() + 2 + jv.len() as int);
        assert(wf_members(ps, k + 1));
        assert(rest[0] == '"') by {
            let q2 = quote(ps[k + 1].0);
            assert(q2[0] == '"');
            if k + 1 == ps.len() - 1 {
                assert(rest == q2 + seq![':'] + jser(ps[k + 1].1));
            } else {
                assert(rest == q2 + seq![':'] + jser(ps[k + 1].1) + seq![','] + jser_members(
                    ps,
                    k + 2,
                ));
            }
        }
        assert(w[q.len() + 2 + jv.len() as int] == rest[0]);
        assert(pws(s, j6) == j6);
        lemma_pmembers_round(s, j6, ps, k + 1);
        assert(seq![(key, v)] + ps.subrange(k + 1, ps.len() as int) =~= ps.subrange(
            k,
            ps.len() as int,
        ));
    }
}

/// Rendered elements from `k` on, embedded with their closing bracket, are
/// exactly what the element parser reads.
#[verifier::rlimit(90)]
proof fn lemma_pelems_round(s: Seq<char>, i: int, xs: Seq<JModel>, k: int)
    requires
        0 <= k < xs.len(),
        wf_list(xs, k),
        0 <= i,
        i + jser_list(xs, k).len() + 1 <= s.len(),
        s.subrange(i, i + jser_list(xs, k).len()) == jser_list(xs, k),
        s[i + jser_list(xs, k).len()] == ']',
    ensures
        pelems(s, i) == Some((xs.subrange(k, xs.len() as int), i + jser_list(xs, k).len() + 1)),
    decreases xs, xs.len() - k,
{
    let w = jser_list(xs, k);
    let v = xs[k];
    let jv = jser(v);
    assert(wf(v));
    if k == xs.len() - 1 {
        assert(w == jv);
    } else {
        assert(w == jv + seq![','] + jser_list(xs, k + 1));
    }
    lemma_window(s, i, w, 0, jv.len() as int);
    assert(w.subrange(0, jv.len() as int) =~= jv);
    let j1 = i + jv.len() as int;
    if k == xs.len() - 1 {
        assert(s[j1] == ']');
        lemma_pval_round(s, i, v);
        assert(pws(s, j1) == j1);
        assert(xs.subrange(k, xs.len() as int) =~= seq![v]);
    } else {
        let rest = jser_list(xs, k + 1);
        lemma_window_char(s, i, w, jv.len() as int);
        assert(w[jv.len() as int] == ',');
        assert(s[j1] == ',');
        lemma_pval_round(s, i, v);
        assert(pws(s, j1) == j1);
        let j3 = j1 + 1;
        lemma_window(s, i, w, jv.len() + 1 as int, w.len() as int);
        assert(w.subrange(jv.len() + 1 as int, w.len() as int) =~= rest);
        assert(wf_list(xs, k + 1));
        assert(wf(xs[k + 1]));
        lemma_jser_first(xs[k + 1]);
        if k + 1 == xs.len() - 1 {
            assert(rest == jser(xs[k + 1]));
        } else {
            assert(rest == jser(xs[k + 1]) + seq![','] + jser_list(xs, k + 2));
        }
        assert(rest.len() >= 1);
        assert(rest[0] == jser(xs[k + 1])[0]);
        lemma_window_char(s, i, w, jv.len() + 1 as int);
        assert(w[jv.len() + 1 as int] == rest[0]);
        assert(!is_ws(s[j3]));
        assert(pws(s, j3) == j3);
        lemma_pelems_round(s, j3, xs, k + 1);
        assert(seq![v] + xs.subrange(k + 1, xs.len() as int) =~= xs.subrange(k, xs.len() as int));
    }
}

/// Round trip: rendering a well-formed value and parsing the rendered line
/// gives the value back.
pub proof fn lemma_parse_render_round_trip(m: JModel)
    requires
        wf(m),
    ensures
        parse_text(jser(m)) == Some(m),
{
    let s = jser(m);
    lemma_jser_first(m);
    assert(!is_ws(s[0]));
    assert(pws(s, 0) == 0);
    assert(s.subrange(0, s.len() as int) =~= s);
    lemma_pval_round(s, 0, m);
    assert(pws(s, s.len() as int) == s.len() as int);
}

/// Every member value from `k` on is well-formed, member `j` included.
proof fn lemma_wf_members_at(ps: Seq<(Seq<char>, JModel)>, k: int, j: int)
    requires
        0 <= k <= j < ps.len(),
        wf_members(ps, k),
    ensures
        wf(ps[j].1),
    decreases j - k,
{
    if k < j {
        lemma_wf_members_at(ps, k + 1, j);
    }
}

/// Dropping the last member keeps the rest well-formed.
proof fn lemma_wf_members_drop_last(ps: Seq<(Seq<char>, JModel)>, k: int)
    requires
        0 <= k,
        ps.len() > 0,
        wf_members(ps, k),
    ensures
        wf_members(ps.drop_last(), k),
    decreases ps.len() - k,
{
    if k < ps.len() - 1 {
        lemma_wf_members_drop_last(ps, k + 1);
        assert(ps.drop_last()[k] == ps[k]);
    }
}

/// A member found in a well-formed object is well-formed.
pub proof fn lemma_obj_get_wf(ps: Seq<(Seq<char>, JModel)>, key: Seq<char>, v: JModel)
    requires
        wf_members(ps, 0),
        crate::protocol::obj_get(ps, key) == Some(v),
    ensures
        wf(v),
    decreases ps.len(),
{
    if ps.last().0 == key {
        lemma_wf_members_at(ps, 0, ps.len() - 1);
    } else {
        lemma_wf_members_drop_last(ps, 0);
        lemma_obj_get_wf(ps.drop_last(), key, v);
    }
}

/// Three members whose values are well-formed make a well-formed list.
proof fn lemma_wf_members3(ms: Seq<(Seq<char>, JModel)>)
    requires
        ms.len() == 3,
        wf(ms[0].1),
        wf(ms[1].1),
        wf(ms[2].1),
    ensures
        wf_members(ms, 0),
{
    assert(wf_members(ms, 3));
    assert(wf_members(ms, 2));
    assert(wf_members(ms, 1));
    assert(wf_members(ms, 0));
}

/// A response object built from a well-formed id and payload is
/// well-formed.
proof fn lemma_wf_response(idm: JModel, payload: JModel)
    requires
        wf(idm),
        wf(payload),
    ensures
        wf(crate::protocol::response_model(idm, payload)),
{
    let two = JModel::Str("2.0"@);
    assert(wf(two));
    match payload {
        JModel::Obj(ps) => match crate::protocol::obj_get(ps, "error"@) {
            Some(e) => {
                lemma_obj_get_wf(ps, "error"@, e);
                let ms = seq![("error"@, e), ("id"@, idm), ("jsonrpc"@, two)];
                assert(ms[0].1 == e);
                assert(ms[1].1 == idm);
                assert(ms[2].1 == two);
                lemma_wf_members3(ms);
                assert(crate::protocol::response_model(idm, payload) == JModel::Obj(ms));
            },
            None => {
                lemma_wf_result_response(idm, payload);
            },
        },
        _ => {
            lemma_wf_result_response(idm, payload);
        },
    }
}

/// A result-carrying response object built from well-formed parts is
/// well-formed.
proof fn lemma_wf_result_response(idm: JModel, payload: JModel)
    requires
        wf(idm),
        wf(payload),
    ensures
        wf(crate::protocol::result_response(idm, payload)),
{
    let two = JModel::Str("2.0"@);
    assert(wf(two));
    let ms = seq![("id"@, idm), ("jsonrpc"@, two), ("result"@, payload)];
    assert(ms[0].1 == idm);
    assert(ms[1].1 == two);
    assert(ms[2].1 == payload);
    lemma_wf_members3(ms);
    assert(crate::protocol::result_response(idm, payload) == JModel::Obj(ms));
}

/// Skipping digits inside a window matches skipping digits in the window
/// alone, as long as the skip stays inside the window.
proof fn lemma_scan_digits_back(s: Seq<char>, a: int, b: int, d: int)
    requires
        0 <= a <= b <= s.len(),
        0 <= d <= b - a,
        scan_digits(s, a + d) <= b,
    ensures
        scan_digits(s.subrange(a, b), d) == scan_digits(s, a + d) - a,
    decreases b - a - d,
{
    let t = s.subrange(a, b);
    lemma_scan_digits_bounds(s, a + d);
    if a + d < b && is_digit(s[a + d]) {
        assert(t[d] == s[a + d]);
        lemma_scan_digits_back(s, a, b, d + 1);
    } else if a + d == b {
    } else {
        assert(t[d] == s[a + d]);
    }
}

/// A number token the parser reads is itself a valid token.
#[verifier::rlimit(90)]
proof fn lemma_pnum_sound(s: Seq<char>, i: int, t: Seq<char>, j: int)
    requires
        0 <= i,
        pnum(s, i) == Some((t, j)),
    ensures
        t == s.subrange(i, j),
        i < j <= s.len(),
        pnum(t, 0) == Some((t, t.len() as int)),
{
    assert(i < s.len());
    let j0: int = if s[i] == '-' {
        i + 1
    } else {
        i
    };
    assert(j0 < s.len() && is_digit(s[j0]));
    let j1: int = if s[j0] == '0' {
        j0 + 1
    } else {
        scan_digits(s, j0)
    };
    lemma_scan_digits_bounds(s, j0);
    let j2: int = if j1 < s.len() && s[j1] == '.' {
        scan_digits(s, j1 + 1)
    } else {
        j1
    };
    if j1 < s.len() && s[j1] == '.' {
        assert(j2 > j1 + 1);
        lemma_scan_digits_bounds(s, j1 + 1);
    }
    let j3: int = if j2 < s.len() && (s[j2] == 'e' || s[j2] == 'E') {
        if j2 + 1 < s.len() && (s[j2 + 1] == '+' || s[j2 + 1] == '-') {
            scan_digits(s, j2 + 2)
        } else {
            scan_digits(s, j2 + 1)
        }
    } else {
        j2
    };
    if j2 < s.len() && (s[j2] == 'e' || s[j2] == 'E') {
        if j2 + 1 < s.len() && (s[j2 + 1] == '+' || s[j2 + 1] == '-') {
            lemma_scan_digits_bounds(s, j2 + 2);
        } else {
            lemma_scan_digits_bounds(s, j2 + 1);
        }
    }
    if s[j0] != '0' {
        lemma_scan_digits_bounds(s, j0 + 1);
        assert(scan_digits(s, j0) == scan_digits(s, j0 + 1));
    }
    assert(j0 < j1 <= s.len());
    assert(j1 <= j2 <= s.len());
    assert(j2 <= j3 <= s.len());
    assert(j == j3);
    assert(i < j3);
    assert(t == s.subrange(i, j3));
    let n = j3 - i;
    assert(t.len() == n);
    assert(forall|d: int| 0 <= d < n ==> #[trigger] t[d] == s[i + d]);
    if s[j0] != '0' {
        lemma_scan_digits_back(s, i, j3, j0 - i);
        assert(scan_digits(t, j0 - i) == j1 - i);
    }
    if j1 < s.len() && s[j1] == '.' {
        lemma_scan_digits_back(s, i, j3, j1 + 1 - i);
        assert(scan_digits(t, j1 + 1 - i) == j2 - i);
    }
    if j2 < s.len() && (s[j2] == 'e' || s[j2] == 'E') {
        if j2 + 1 < s.len() && (s[j2 + 1] == '+' || s[j2 + 1] == '-') {
            lemma_scan_digits_back(s, i, j3, j2 + 2 - i);
            assert(scan_digits(t, j2 + 2 - i) == j3 - i);
        } else {
            lemma_scan_digits_back(s, i, j3, j2 + 1 - i);
            assert(scan_digits(t, j2 + 1 - i) == j3 - i);
        }
    }
    assert(t.subrange(0, n) =~= t);
}

/// A prepended element shifts the indices of a well-formedness check.
proof fn lemma_wf_list_cons(x: JModel, t: Seq<JModel>, k: int)
    requires
        0 <= k,
    ensures
        wf_list(seq![x] + t, k + 1) == wf_list(t, k),
    decreases t.len() - k,
{
    if k < t.len() {
        assert((seq![x] + t)[k + 1] == t[k]);
        lemma_wf_list_cons(x, t, k + 1);
    }
}

/// A prepended member shifts the indices of a well-formedness check.
proof fn lemma_wf_members_cons(x: (Seq<char>, JModel), t: Seq<(Seq<char>, JModel)>, k: int)
    requires
        0 <= k,
    ensures
        wf_members(seq![x] + t, k + 1) == wf_members(t, k),
    decreases t.len() - k,
{
    if k < t.len() {
        assert((seq![x] + t)[k + 1] == t[k]);
        lemma_wf_members_cons(x, t, k + 1);
    }
}

/// Whatever the value parser reads is well-formed.
proof fn lemma_pval_sound(s: Seq<char>, i: int, m: JModel, j: int)
    requires
        0 <= i <= s.len(),
        pval(s, i) == Some((m, j)),
    ensures
        wf(m),
    decreases s.len() - i, 4int,
{
    if i < s.len() {
        let c = s[i];
        if c == '"' {
        } else if c == '-' || is_digit(c) {
            match pnum(s, i) {
                Some((t, j2)) => {
                    lemma_pnum_sound(s, i, t, j2);
                },
                None => {},
            }
        } else if c == '{' {
            lemma_pobj_sound(s, i, m, j);
        } else if c == '[' {
            lemma_parr_sound(s, i, m, j);
        }
    }
}

/// Whatever the object parser reads is well-formed.
proof fn lemma_pobj_sound(s: Seq<char>, i: int, m: JModel, j: int)
    requires
        0 <= i <= s.len(),
        pobj(s, i) == Some((m, j)),
    ensures
        wf(m),
    decreases s.len() - i, 3int,
{
    let jw = pws(s, i + 1);
    if !(jw < i + 1 || jw > s.len()) && !(jw < s.len() && s[jw] == '}') {
        match pmembers(s, jw) {
            Some((ps, e)) => {
                lemma_pmembers_sound(s, jw, ps, e);
            },
            None => {},
        }
    }
}

/// Whatever the array parser reads is well-formed.
proof fn lemma_parr_sound(s: Seq<char>, i: int, m: JModel, j: int)
    requires
        0 <= i <= s.len(),
        parr(s, i) == Some((m, j)),
    ensures
        wf(m),
    decreases s.len() - i, 3int,
{
    let jw = pws(s, i + 1);
    if !(jw < i + 1 || jw > s.len()) && !(jw < s.len() && s[jw] == ']') {
        match pelems(s, jw) {
            Some((xs, e)) => {
                lemma_pelems_sound(s, jw, xs, e);
            },
            None => {},
        }
    }
}

/// Whatever the member parser reads is a list of well-formed values.
#[verifier::rlimit(90)]
proof fn lemma_pmembers_sound(s: Seq<char>, i: int, ps: Seq<(Seq<char>, JModel)>, e: int)
    requires
        0 <= i <= s.len(),
        pmembers(s, i) == Some((ps, e)),
    ensures
        wf_members(ps, 0),
    decreases s.len() - i, 5int,
{
    match pstr(s, i) {
        None => {},
        Some((key, j1)) => {
            if !(j1 <= i || j1 > s.len()) {
                let j2 = pws(s, j1);
                if !(j2 < j1 || j2 > s.len() || !(j2 < s.len() && s[j2] == ':')) {
                    let j3 = pws(s, j2 + 1);
                    if !(j3 < j2 + 1 || j3 > s.len()) {
                        match pval(s, j3) {
                            None => {},
                            Some((v, j4)) => {
                                lemma_pval_sound(s, j3, v, j4);
                                if !(j4 <= j3 || j4 > s.len()) {
                                    let j5 = pws(s, j4);
                                    if !(j5 < j4 || j5 > s.len()) {
                                        if j5 < s.len() && s[j5] == ',' {
                                            let j6 = pws(s, j5 + 1);
                                            if !(j6 < j5 + 1 || j6 > s.len()) {
                                                match pmembers(s, j6) {
                                                    Some((rest, e2)) => {
                                                        lemma_pmembers_sound(s, j6, rest, e2);
                                                        lemma_wf_members_cons((key, v), rest, 0);
                                                        assert((seq![(key, v)] + rest)[0] == (
                                                        key,
                                                        v,
                                                        ));
                                                    },
                                                    None => {},
                                                }
                                            }
                                        } else if j5 < s.len() && s[j5] == '}' {
                                            assert(ps == seq![(key, v)]);
                                            assert(ps[0] == (key, v));
                                            assert(wf_members(ps, 1));
                                        }
                                    }
                                }
                            },
                        }
                    }
                }
            }
        },
    }
}

/// Whatever the element parser reads is a list of well-formed values.
#[verifier::rlimit(90)]
proof fn lemma_pelems_sound(s: Seq<char>, i: int, xs: Seq<JModel>, e: int)
    requires
        0 <= i <= s.len(),
        pelems(s, i) == Some((xs, e)),
    ensures
        wf_list(xs, 0),
    decreases s.len() - i, 5int,
{
    match pval(s, i) {
        None => {},
        Some((v, j1)) => {
            lemma_pval_sound(s, i, v, j1);
            if !(j1 <= i || j1 > s.len()) {
                let j2 = pws(s, j1);
                if !(j2 < j1 || j2 > s.len()) {
                    if j2 < s.len() && s[j2] == ',' {
                        let j3 = pws(s, j2 + 1);
                        if !(j3 < j2 + 1 || j3 > s.len()) {
                            match pelems(s, j3) {
                                Some((rest, e2)) => {
                                    lemma_pelems_sound(s, j3, rest, e2);
                                    lemma_wf_list_cons(v, rest, 0);
                                    assert((seq![v] + rest)[0] == v);
                                },
                                None => {},
                            }
                        }
                    } else if j2 < s.len() && s[j2] == ']' {
                        assert(xs == seq![v]);
                        assert(xs[0] == v);
                        assert(wf_list(xs, 1));
                    }
                }
            }
        },
    }
}

/// Whatever a whole line parses to is well-formed.
pub proof fn lemma_parse_text_sound(s: Seq<char>, m: JModel)
    requires
        parse_text(s) == Some(m),
    ensures
        wf(m),
{
    let i = pws(s, 0);
    lemma_pws_bounds(s, 0);
    match pval(s, i) {
        Some((m2, j)) => {
            lemma_pval_sound(s, i, m2, j);
        },
        None => {},
    }
}

/// Skipping whitespace never moves backwards nor past the end.
proof fn lemma_pws_bounds(s: Seq<char>, i: int)
    requires
        0 <= i <= s.len(),
    ensures
        i <= pws(s, i) <= s.len(),
    decreases s.len() - i,
{
    if i < s.len() && is_ws(s[i]) {
        lemma_pws_bounds(s, i + 1);
    }
}

/// A string value is well-formed.
pub proof fn lemma_wf_str(s: Seq<char>)
    ensures
        wf(JModel::Str(s)),
{
}

/// An object of one well-formed member is well-formed.
pub proof fn lemma_wf_obj1(k0: Seq<char>, v0: JModel)
    requires
        wf(v0),
    ensures
        wf(JModel::Obj(seq![(k0, v0)])),
{
    let ms = seq![(k0, v0)];
    assert(ms[0].1 == v0);
    assert(wf_members(ms, 1));
    assert(wf_members(ms, 0));
}

/// An object of two well-formed members is well-formed.
pub proof fn lemma_wf_obj2(k0: Seq<char>, v0: JModel, k1: Seq<char>, v1: JModel)
    requires
        wf(v0),
        wf(v1),
    ensures
        wf(JModel::Obj(seq![(k0, v0), (k1, v1)])),
{
    let ms = seq![(k0, v0), (k1, v1)];
    assert(ms[0].1 == v0);
    assert(ms[1].1 == v1);
    assert(wf_members(ms, 2));
    assert(wf_members(ms, 1));
    assert(wf_members(ms, 0));
}

/// An object of three well-formed members is well-formed.
pub proof fn lemma_wf_obj3(
    k0: Seq<char>,
    v0: JModel,
    k1: Seq<char>,
    v1: JModel,
    k2: Seq<char>,
    v2: JModel,
)
    requires
        wf(v0),
        wf(v1),
        wf(v2),
    ensures
        wf(JModel::Obj(seq![(k0, v0), (k1, v1), (k2, v2)])),
{
    let ms = seq![(k0, v0), (k1, v1), (k2, v2)];
    assert(ms[0].1 == v0);
    assert(ms[1].1 == v1);
    assert(ms[2].1 == v2);
    lemma_wf_members3(ms);
}

/// An array of one well-formed element is well-formed.
pub proof fn lemma_wf_arr1(v0: JModel)
    requires
        wf(v0),
    ensures
        wf(JModel::Arr(seq![v0])),
{
    let xs = seq![v0];
    assert(xs[0] == v0);
    assert(wf_list(xs, 1));
    assert(wf_list(xs, 0));
}

/// An array of two well-formed elements is well-formed.
pub proof fn lemma_wf_arr2(v0: JModel, v1: JModel)
    requires
        wf(v0),
        wf(v1),
    ensures
        wf(JModel::Arr(seq![v0, v1])),
{
    let xs = seq![v0, v1];
    assert(xs[0] == v0);
    assert(xs[1] == v1);
    assert(wf_list(xs, 2));
    assert(wf_list(xs, 1));
    assert(wf_list(xs, 0));
}

/// An empty object is well-formed.
pub proof fn lemma_wf_obj0()
    ensures
        wf(JModel::Obj(Seq::empty())),
{
    assert(wf_members(Seq::<(Seq<char>, JModel)>::empty(), 0));
}

/// The `initialize` result payload is well-formed.
pub proof fn lemma_wf_init_result()
    ensures
        wf(crate::catalog::init_result_model()),
{
    assert(wf(JModel::Bool(true)));
    lemma_wf_obj1("listChanged"@, JModel::Bool(true));
    lemma_wf_obj1("tools"@, JModel::Obj(seq![("listChanged"@, JModel::Bool(true))]));
    lemma_wf_str("2024-11-05"@);
    lemma_wf_str("git-summarizer"@);
    lemma_wf_str("0.1.0"@);
    lemma_wf_obj2(
        "name"@,
        JModel::Str("git-summarizer"@),
        "version"@,
        JModel::Str("0.1.0"@),
    );
    lemma_wf_obj3(
        "capabilities"@,
        JModel::Obj(
            seq![("tools"@, JModel::Obj(seq![("listChanged"@, JModel::Bool(true))]))],
        ),
        "protocolVersion"@,
        JModel::Str("2024-11-05"@),
        "serverInfo"@,
        JModel::Obj(
            seq![
                ("name"@, JModel::Str("git-summarizer"@)),
                ("version"@, JModel::Str("0.1.0"@)),
            ],
        ),
    );
}

/// The `tools/list` result payload is well-formed, whatever the template.
pub proof fn lemma_wf_tools_list(fmt: Seq<char>)
    ensures
        wf(crate::catalog::tools_list_model(fmt)),
{
    lemma_wf_obj0();
    lemma_wf_str("object"@);
    lemma_wf_obj2(
        "properties"@,
        JModel::Obj(Seq::empty()),
        "type"@,
        JModel::Str("object"@),
    );
    assert(wf(crate::catalog::diff_schema()));
    lemma_wf_str("提交信息"@);
    lemma_wf_str("string"@);
    let msg_schema = JModel::Obj(
        seq![
            ("description"@, JModel::Str("提交信息"@)),
            ("type"@, JModel::Str("string"@)),
        ],
    );
    lemma_wf_obj2("description"@, JModel::Str("提交信息"@), "type"@, JModel::Str("string"@));
    lemma_wf_obj1("message"@, msg_schema);
    lemma_wf_str("message"@);
    lemma_wf_arr1(JModel::Str("message"@));
    lemma_wf_obj3(
        "properties"@,
        JModel::Obj(seq![("message"@, msg_schema)]),
        "required"@,
        JModel::Arr(seq![JModel::Str("message"@)]),
        "type"@,
        JModel::Str("object"@),
    );
    assert(wf(crate::catalog::commit_schema()));
    let e0 = crate::catalog::tool_entry(
        "get_staged_diff"@,
        crate::catalog::diff_desc_pre() + fmt + crate::catalog::diff_desc_post(),
        crate::catalog::diff_schema(),
    );
    let e1 = crate::catalog::tool_entry(
        "execute_commit"@,
        crate::catalog::commit_desc(),
        crate::catalog::commit_schema(),
    );
    lemma_wf_str(crate::catalog::diff_desc_pre() + fmt + crate::catalog::diff_desc_post());
    lemma_wf_str("get_staged_diff"@);
    lemma_wf_obj3(
        "name"@,
        JModel::Str("get_staged_diff"@),
        "description"@,
        JModel::Str(crate::catalog::diff_desc_pre() + fmt + crate::catalog::diff_desc_post()),
        "inputSchema"@,
        crate::catalog::diff_schema(),
    );
    lemma_wf_str("execute_commit"@);
    lemma_wf_str(crate::catalog::commit_desc());
    lemma_wf_obj3(
        "name"@,
        JModel::Str("execute_commit"@),
        "description"@,
        JModel::Str(crate::catalog::commit_desc()),
        "inputSchema"@,
        crate::catalog::commit_schema(),
    );
    lemma_wf_arr2(e0, e1);
    lemma_wf_obj1("tools"@, JModel::Arr(seq![e0, e1]));
}

/// A tool outcome payload is well-formed, whatever the text.
pub proof fn lemma_wf_tool_outcome(text: Seq<char>)
    ensures
        wf(crate::catalog::tool_ok_model(text)),
        wf(crate::catalog::tool_err_model(text)),
{
    lemma_wf_str(text);
    lemma_wf_str("text"@);
    let item = JModel::Obj(
        seq![("text"@, JModel::Str(text)), ("type"@, JModel::Str("text"@))],
    );
    lemma_wf_obj2("text"@, JModel::Str(text), "type"@, JModel::Str("text"@));
    lemma_wf_arr1(item);
    lemma_wf_obj1("content"@, JModel::Arr(seq![item]));
    assert(wf(JModel::Bool(true)));
    lemma_wf_obj2("content"@, JModel::Arr(seq![item]), "isError"@, JModel::Bool(true));
}

/// The unknown-method payload is well-formed: its error code is a valid
/// number token.
pub proof fn lemma_wf_method_not_found()
    ensures
        wf(crate::dispatch::method_not_found_model()),
{
    let t = "-32601"@;
    assert(pnum(t, 0) == Some((t, 6int))) by {
        reveal_strlit("-32601");
        reveal_with_fuel(scan_digits, 8);
        assert(t.len() == 6);
        assert(t[0] == '-');
        assert(t[1] == '3');
        assert(t[2] == '2');
        assert(t[3] == '6');
        assert(t[4] == '0');
        assert(t[5] == '1');
        assert(scan_digits(t, 1) == 6);
        assert(t.subrange(0, 6) =~= t);
    }
    assert(t.len() == 6) by {
        reveal_strlit("-32601");
    }
    assert(wf(JModel::Num(t)));
    lemma_wf_str("Method not found"@);
    lemma_wf_obj2("code"@, JModel::Num(t), "message"@, JModel::Str("Method not found"@));
    lemma_wf_obj1(
        "error"@,
        JModel::Obj(
            seq![
                ("code"@, JModel::Num(t)),
                ("message"@, JModel::Str("Method not found"@)),
            ],
        ),
    );
}

/// Round trip as the transport sees it: a line that parses, rendered
/// again, parses back to the very same value — whatever whitespace or
/// escape spellings the first line used.
pub proof fn lemma_encode_of_decode(line: Seq<char>, m: JModel)
    requires
        parse_text(line) == Some(m),
    ensures
        parse_text(jser(m)) == Some(m),
{
    lemma_parse_text_sound(line, m);
    lemma_parse_render_round_trip(m);
}

/// Round trip at the wire: the response line encoded for a well-formed id
/// and payload parses back to exactly the response object it encodes.
pub proof fn lemma_response_line_round_trip(idm: JModel, payload: JModel)
    requires
        wf(idm),
        wf(payload),
    ensures
        parse_text(jser(crate::protocol::response_model(idm, payload))) == Some(
            crate::protocol::response_model(idm, payload),
        ),
{
    lemma_wf_response(idm, payload);
    lemma_parse_render_round_trip(crate::protocol::response_model(idm, payload));
}

} // verus!
