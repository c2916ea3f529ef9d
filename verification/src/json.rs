//! A JSON value type with a verified renderer and parser.
//!
//! `JVal` is the executable value; `JModel` is its mathematical model, with
//! sequences in place of vectors. `jser` says, character for character, how a
//! model renders; the `pv_*` family is the grammar, written as a parser over
//! a character sequence and an index. Rendering and parsing are proved
//! against these, and parsing a rendered value gives the value back.

use vstd::prelude::*;

use crate::chars::chars_to_string;

verus! {

broadcast use vstd::std_specs::vec::axiom_vec_index_decreases, vstd::std_specs::vec::axiom_vec_decreases_to_view, vstd::seq::axiom_seq_index_decreases, vstd::seq::axiom_seq_subrange_decreases;

/// An executable JSON value. Numbers keep their raw token text, so a value
/// round-trips through the codec without any numeric re-interpretation.
pub enum JVal {
    Null,
    Bool(bool),
    Num(Vec<char>),
    Str(Vec<char>),
    Arr(Vec<JVal>),
    Obj(Vec<(Vec<char>, JVal)>),
}

/// The mathematical model of a JSON value.
pub enum JModel {
    Null,
    Bool(bool),
    Num(Seq<char>),
    Str(Seq<char>),
    Arr(Seq<JModel>),
    Obj(Seq<(Seq<char>, JModel)>),
}

/// The model of an executable JSON value.
pub open spec fn jm(v: JVal) -> JModel
    decreases v, 0int, 0int,
{
    match v {
        JVal::Null => JModel::Null,
        JVal::Bool(b) => JModel::Bool(b),
        JVal::Num(s) => JModel::Num(s@),
        JVal::Str(s) => JModel::Str(s@),
        JVal::Arr(xs) => JModel::Arr(jm_list(xs@, 0)),
        JVal::Obj(ps) => JModel::Obj(jm_members(ps@, 0)),
    }
}

/// The models of the elements of `xs` from index `k` on.
pub open spec fn jm_list(xs: Seq<JVal>, k: int) -> Seq<JModel>
    decreases xs, xs.len() - k, 1int,
{
    if k < 0 || k >= xs.len() {
        Seq::empty()
    } else {
        seq![jm(xs[k])] + jm_list(xs, k + 1)
    }
}

/// The models of the members of `ps` from index `k` on.
pub open spec fn jm_members(ps: Seq<(Vec<char>, JVal)>, k: int) -> Seq<(Seq<char>, JModel)>
    decreases ps, ps.len() - k, 1int,
{
    if k < 0 || k >= ps.len() {
        Seq::empty()
    } else {
        seq![(ps[k].0@, jm(ps[k].1))] + jm_members(ps, k + 1)
    }
}

/// A hexadecimal digit character, for `v < 16`.
pub open spec fn hex_digit(v: u32) -> char {
    if v < 10 {
        (((v + 48) as u8) as char)
    } else {
        (((v + 87) as u8) as char)
    }
}

/// How one character of a JSON string renders: the named escapes, a
/// `\u00..` escape for the other control characters, the character itself
/// otherwise.
pub open spec fn esc_char(c: char) -> Seq<char> {
    if c == '"' {
        seq!['\\', '"']
    } else if c == '\\' {
        seq!['\\', '\\']
    } else if c == '\n' {
        seq!['\\', 'n']
    } else if c == '\r' {
        seq!['\\', 'r']
    } else if c == '\t' {
        seq!['\\', 't']
    } else if c as u32 == 8 {
        seq!['\\', 'b']
    } else if c as u32 == 12 {
        seq!['\\', 'f']
    } else if (c as u32) < 32 {
        seq!['\\', 'u', '0', '0', hex_digit((c as u32) / 16), hex_digit((c as u32) % 16)]
    } else {
        seq![c]
    }
}

/// The rendering of the characters of `s` from index `k` on.
pub open spec fn esc_from(s: Seq<char>, k: int) -> Seq<char>
    decreases s.len() - k,
{
    if k < 0 || k >= s.len() {
        Seq::empty()
    } else {
        esc_char(s[k]) + esc_from(s, k + 1)
    }
}

/// A JSON string literal: quotes around the escaped characters.
pub open spec fn quote(s: Seq<char>) -> Seq<char> {
    seq!['"'] + esc_from(s, 0) + seq!['"']
}

/// How a JSON value renders, with no whitespace, members and elements in
/// order, strings escaped as `esc_char` says and numbers as their raw token.
pub open spec fn jser(m: JModel) -> Seq<char>
    decreases m, 0int, 0int,
{
    match m {
        JModel::Null => seq!['n', 'u', 'l', 'l'],
        JModel::Bool(b) => if b {
            seq!['t', 'r', 'u', 'e']
        } else {
            seq!['f', 'a', 'l', 's', 'e']
        },
        JModel::Num(s) => s,
        JModel::Str(s) => quote(s),
        JModel::Arr(xs) => seq!['['] + jser_list(xs, 0) + seq![']'],
        JModel::Obj(ps) => seq!['{'] + jser_members(ps, 0) + seq!['}'],
    }
}

/// The rendering of the elements of `xs` from index `k` on, comma-separated.
pub open spec fn jser_list(xs: Seq<JModel>, k: int) -> Seq<char>
    decreases xs, xs.len() - k, 1int,
{
    if k < 0 || k >= xs.len() {
        Seq::empty()
    } else if k == xs.len() - 1 {
        jser(xs[k])
    } else {
        jser(xs[k]) + seq![','] + jser_list(xs, k + 1)
    }
}

/// The rendering of the members of `ps` from index `k` on, comma-separated.
pub open spec fn jser_members(ps: Seq<(Seq<char>, JModel)>, k: int) -> Seq<char>
    decreases ps, ps.len() - k, 1int,
{
    if k < 0 || k >= ps.len() {
        Seq::empty()
    } else if k == ps.len() - 1 {
        quote(ps[k].0) + seq![':'] + jser(ps[k].1)
    } else {
        quote(ps[k].0) + seq![':'] + jser(ps[k].1) + seq![','] + jser_members(ps, k + 1)
    }
}

/// Renders one character of a JSON string into `out`.
fn push_esc_char(c: char, out: &mut Vec<char>)
    ensures
        final(out)@ == old(out)@ + esc_char(c),
{
    let u: u32 = c as u32;
    if c == '"' {
        out.push('\\');
        out.push('"');
    } else if c == '\\' {
        out.push('\\');
        out.push('\\');
    } else if c == '\n' {
        out.push('\\');
        out.push('n');
    } else if c == '\r' {
        out.push('\\');
        out.push('r');
    } else if c == '\t' {
        out.push('\\');
        out.push('t');
    } else if u == 8 {
        out.push('\\');
        out.push('b');
    } else if u == 12 {
        out.push('\\');
        out.push('f');
    } else if u < 32 {
        out.push('\\');
        out.push('u');
        out.push('0');
        out.push('0');
        out.push(hex_digit_char(u / 16));
        out.push(hex_digit_char(u % 16));
    } else {
        out.push(c);
    }
    proof {
        assert(out@ =~= old(out)@ + esc_char(c));
    }
}

/// The hexadecimal digit character for `v < 16`.
fn hex_digit_char(v: u32) -> (c: char)
    requires
        v < 16,
    ensures
        c == hex_digit(v),
{
    if v < 10 {
        ((v + 48) as u8) as char
    } else {
        ((v + 87) as u8) as char
    }
}

/// Renders the characters of `s` from index `k` on into `out`, escaped.
fn render_esc_from(s: &Vec<char>, k: usize, out: &mut Vec<char>)
    requires
        k <= s@.len(),
    ensures
        final(out)@ == old(out)@ + esc_from(s@, k as int),
    decreases s@.len() - k,
{
    if k < s.len() {
        push_esc_char(s[k], out);
        render_esc_from(s, k + 1, out);
        proof {
            assert(out@ =~= old(out)@ + esc_from(s@, k as int));
        }
    } else {
        proof {
            assert(out@ =~= old(out)@ + esc_from(s@, k as int));
        }
    }
}

/// Renders a JSON string literal for `s` into `out`.
fn render_quoted(s: &Vec<char>, out: &mut Vec<char>)
    ensures
        final(out)@ == old(out)@ + quote(s@),
{
    out.push('"');
    render_esc_from(s, 0, out);
    out.push('"');
    proof {
        assert(out@ =~= old(out)@ + quote(s@));
    }
}

/// Renders a JSON value into `out`, exactly as `jser` says.
pub fn render_val(v: &JVal, out: &mut Vec<char>)
    ensures
        final(out)@ == old(out)@ + jser(jm(*v)),
    decreases *v, 0int, 0int,
{
    match v {
        JVal::Null => {
            out.push('n');
            out.push('u');
            out.push('l');
            out.push('l');
            proof {
                assert(out@ =~= old(out)@ + jser(jm(*v)));
            }
        },
        JVal::Bool(b) => {
            if *b {
                out.push('t');
                out.push('r');
                out.push('u');
                out.push('e');
            } else {
                out.push('f');
                out.push('a');
                out.push('l');
                out.push('s');
                out.push('e');
            }
            proof {
                assert(out@ =~= old(out)@ + jser(jm(*v)));
            }
        },
        JVal::Num(s) => {
            let mut k: usize = 0;
            while k < s.len()
                invariant
                    k <= s@.len(),
                    out@ == old(out)@ + s@.subrange(0, k as int),
                decreases s@.len() - k,
            {
                out.push(s[k]);
                k = k + 1;
                proof {
                    assert(out@ =~= old(out)@ + s@.subrange(0, k as int));
                }
            }
            proof {
                assert(s@.subrange(0, s@.len() as int) =~= s@);
            }
        },
        JVal::Str(s) => {
            render_quoted(s, out);
        },
        JVal::Arr(xs) => {
            out.push('[');
            render_list(xs, 0, out);
            out.push(']');
            proof {
                assert(out@ =~= old(out)@ + jser(jm(*v)));
            }
        },
        JVal::Obj(ps) => {
            out.push('{');
            render_members(ps, 0, out);
            out.push('}');
            proof {
                assert(out@ =~= old(out)@ + jser(jm(*v)));
            }
        },
    }
}

/// Renders the elements of `xs` from index `k` on into `out`.
fn render_list(xs: &Vec<JVal>, k: usize, out: &mut Vec<char>)
    requires
        k <= xs@.len(),
    ensures
        final(out)@ == old(out)@ + jser_list(jm_list(xs@, 0), k as int),
    decreases *xs, xs@.len() - k, 1int,
{
    proof {
        lemma_jm_list_len(xs@, 0);
        lemma_jm_list_index(xs@, 0, k as int);
    }
    if k < xs.len() {
        render_val(&xs[k], out);
        if k + 1 < xs.len() {
            out.push(',');
            render_members_sep_list(xs, k, out);
            proof {
                assert(out@ =~= old(out)@ + jser_list(jm_list(xs@, 0), k as int));
            }
        } else {
            proof {
                assert(out@ =~= old(out)@ + jser_list(jm_list(xs@, 0), k as int));
            }
        }
    } else {
        proof {
            assert(out@ =~= old(out)@ + jser_list(jm_list(xs@, 0), k as int));
        }
    }
}

/// Continues `render_list` after a separator has been written.
fn render_members_sep_list(xs: &Vec<JVal>, k: usize, out: &mut Vec<char>)
    requires
        k + 1 < xs@.len(),
    ensures
        final(out)@ == old(out)@ + jser_list(jm_list(xs@, 0), k + 1 as int),
    decreases *xs, xs@.len() - k, 0int,
{
    let n: usize = xs.len();
    render_list(xs, k + 1, out);
}

/// Renders the members of `ps` from index `k` on into `out`.
fn render_members(ps: &Vec<(Vec<char>, JVal)>, k: usize, out: &mut Vec<char>)
    requires
        k <= ps@.len(),
    ensures
        final(out)@ == old(out)@ + jser_members(jm_members(ps@, 0), k as int),
    decreases *ps, ps@.len() - k, 1int,
{
    proof {
        lemma_jm_members_len(ps@, 0);
        lemma_jm_members_index(ps@, 0, k as int);
    }
    if k < ps.len() {
        render_quoted(&ps[k].0, out);
        out.push(':');
        render_val(&ps[k].1, out);
        if k + 1 < ps.len() {
            out.push(',');
            render_members_sep_obj(ps, k, out);
            proof {
                assert(out@ =~= old(out)@ + jser_members(jm_members(ps@, 0), k as int));
            }
        } else {
            proof {
                assert(out@ =~= old(out)@ + jser_members(jm_members(ps@, 0), k as int));
            }
        }
    } else {
        proof {
            assert(out@ =~= old(out)@ + jser_members(jm_members(ps@, 0), k as int));
        }
    }
}

/// Continues `render_members` after a separator has been written.
fn render_members_sep_obj(ps: &Vec<(Vec<char>, JVal)>, k: usize, out: &mut Vec<char>)
    requires
        k + 1 < ps@.len(),
    ensures
        final(out)@ == old(out)@ + jser_members(jm_members(ps@, 0), k + 1 as int),
    decreases *ps, ps@.len() - k, 0int,
{
    let n: usize = ps.len();
    render_members(ps, k + 1, out);
}

/// The model list from index `j` has one entry per element.
pub proof fn lemma_jm_list_len(xs: Seq<JVal>, j: int)
    requires
        0 <= j <= xs.len(),
    ensures
        jm_list(xs, j).len() == xs.len() - j,
    decreases xs.len() - j,
{
    if j < xs.len() {
        lemma_jm_list_len(xs, j + 1);
    }
}

/// Each entry of the model list is the model of the matching element.
pub proof fn lemma_jm_list_index(xs: Seq<JVal>, j: int, i: int)
    requires
        0 <= j <= xs.len(),
    ensures
        jm_list(xs, j).len() == xs.len() - j,
        j <= i < xs.len() ==> jm_list(xs, j)[i - j] == jm(xs[i]),
    decreases xs.len() - j,
{
    lemma_jm_list_len(xs, j);
    if j < xs.len() && j < i {
        lemma_jm_list_index(xs, j + 1, i);
    }
}

/// The model member list from index `j` has one entry per member.
pub proof fn lemma_jm_members_len(ps: Seq<(Vec<char>, JVal)>, j: int)
    requires
        0 <= j <= ps.len(),
    ensures
        jm_members(ps, j).len() == ps.len() - j,
    decreases ps.len() - j,
{
    if j < ps.len() {
        lemma_jm_members_len(ps, j + 1);
    }
}

/// Each entry of the model member list models the matching member.
pub proof fn lemma_jm_members_index(ps: Seq<(Vec<char>, JVal)>, j: int, i: int)
    requires
        0 <= j <= ps.len(),
    ensures
        jm_members(ps, j).len() == ps.len() - j,
        j <= i < ps.len() ==> jm_members(ps, j)[i - j] == (ps[i].0@, jm(ps[i].1)),
    decreases ps.len() - j,
{
    lemma_jm_members_len(ps, j);
    if j < ps.len() && j < i {
        lemma_jm_members_index(ps, j + 1, i);
    }
}

/// Shifting past a prepended element leaves the model list unchanged.
pub proof fn lemma_jm_list_shift(x: JVal, t: Seq<JVal>, k: int)
    requires
        0 <= k,
    ensures
        jm_list(seq![x] + t, k + 1) == jm_list(t, k),
    decreases t.len() - k,
{
    if k < t.len() {
        lemma_jm_list_shift(x, t, k + 1);
        assert((seq![x] + t)[k + 1] == t[k]);
        assert(jm_list(seq![x] + t, k + 1) =~= jm_list(t, k));
    } else {
        assert(jm_list(seq![x] + t, k + 1) =~= jm_list(t, k));
    }
}

/// The model of a prepended element stands first in the model list.
pub proof fn lemma_jm_list_cons(x: JVal, t: Seq<JVal>)
    ensures
        jm_list(seq![x] + t, 0) == seq![jm(x)] + jm_list(t, 0),
{
    lemma_jm_list_shift(x, t, 0);
    assert((seq![x] + t)[0] == x);
}

/// Shifting past a prepended member leaves the model member list unchanged.
pub proof fn lemma_jm_members_shift(x: (Vec<char>, JVal), t: Seq<(Vec<char>, JVal)>, k: int)
    requires
        0 <= k,
    ensures
        jm_members(seq![x] + t, k + 1) == jm_members(t, k),
    decreases t.len() - k,
{
    if k < t.len() {
        lemma_jm_members_shift(x, t, k + 1);
        assert((seq![x] + t)[k + 1] == t[k]);
        assert(jm_members(seq![x] + t, k + 1) =~= jm_members(t, k));
    } else {
        assert(jm_members(seq![x] + t, k + 1) =~= jm_members(t, k));
    }
}

/// The model of a prepended member stands first in the model member list.
pub proof fn lemma_jm_members_cons(x: (Vec<char>, JVal), t: Seq<(Vec<char>, JVal)>)
    ensures
        jm_members(seq![x] + t, 0) == seq![(x.0@, jm(x.1))] + jm_members(t, 0),
{
    lemma_jm_members_shift(x, t, 0);
    assert((seq![x] + t)[0] == x);
}

/// Dropping the last member commutes with taking models.
pub proof fn lemma_jm_members_drop_last(ps: Seq<(Vec<char>, JVal)>)
    requires
        ps.len() > 0,
    ensures
        jm_members(ps.drop_last(), 0) == jm_members(ps, 0).drop_last(),
{
    lemma_jm_members_len(ps, 0);
    lemma_jm_members_len(ps.drop_last(), 0);
    assert forall|i: int| 0 <= i < ps.len() - 1 implies jm_members(ps.drop_last(), 0)[i]
        == jm_members(ps, 0).drop_last()[i] by {
        lemma_jm_members_index(ps.drop_last(), 0, i);
        lemma_jm_members_index(ps, 0, i);
        assert(ps.drop_last()[i] == ps[i]);
    }
    assert(jm_members(ps.drop_last(), 0) =~= jm_members(ps, 0).drop_last());
}

/// A JSON string value for the given text.
pub fn jstr(s: &str) -> (v: JVal)
    ensures
        jm(v) == JModel::Str(s@),
{
    JVal::Str(crate::chars::str_to_chars(s))
}

/// An object of one member.
pub fn obj1(k0: &str, v0: JVal) -> (r: JVal)
    ensures
        jm(r) == JModel::Obj(seq![(k0@, jm(v0))]),
{
    let ghost g0 = jm(v0);
    let mut ms: Vec<(Vec<char>, JVal)> = Vec::new();
    ms.push((crate::chars::str_to_chars(k0), v0));
    let ghost msv = ms@;
    proof {
        lemma_jm_members_len(msv, 0);
        lemma_jm_members_index(msv, 0, 0);
        assert(jm_members(msv, 0) =~= seq![(k0@, g0)]);
    }
    JVal::Obj(ms)
}

/// An object of two members, in the given order.
pub fn obj2(k0: &str, v0: JVal, k1: &str, v1: JVal) -> (r: JVal)
    ensures
        jm(r) == JModel::Obj(seq![(k0@, jm(v0)), (k1@, jm(v1))]),
{
    let ghost g0 = jm(v0);
    let ghost g1 = jm(v1);
    let mut ms: Vec<(Vec<char>, JVal)> = Vec::new();
    ms.push((crate::chars::str_to_chars(k0), v0));
    ms.push((crate::chars::str_to_chars(k1), v1));
    let ghost msv = ms@;
    proof {
        lemma_jm_members_len(msv, 0);
        lemma_jm_members_index(msv, 0, 0);
        lemma_jm_members_index(msv, 0, 1);
        assert(jm_members(msv, 0) =~= seq![(k0@, g0), (k1@, g1)]);
    }
    JVal::Obj(ms)
}

/// An object of three members, in the given order.
pub fn obj3(k0: &str, v0: JVal, k1: &str, v1: JVal, k2: &str, v2: JVal) -> (r: JVal)
    ensures
        jm(r) == JModel::Obj(seq![(k0@, jm(v0)), (k1@, jm(v1)), (k2@, jm(v2))]),
{
    let ghost g0 = jm(v0);
    let ghost g1 = jm(v1);
    let ghost g2 = jm(v2);
    let mut ms: Vec<(Vec<char>, JVal)> = Vec::new();
    ms.push((crate::chars::str_to_chars(k0), v0));
    ms.push((crate::chars::str_to_chars(k1), v1));
    ms.push((crate::chars::str_to_chars(k2), v2));
    let ghost msv = ms@;
    proof {
        lemma_jm_members_len(msv, 0);
        lemma_jm_members_index(msv, 0, 0);
        lemma_jm_members_index(msv, 0, 1);
        lemma_jm_members_index(msv, 0, 2);
        assert(jm_members(msv, 0) =~= seq![(k0@, g0), (k1@, g1), (k2@, g2)]);
    }
    JVal::Obj(ms)
}

/// An array of one element.
pub fn arr1(v0: JVal) -> (r: JVal)
    ensures
        jm(r) == JModel::Arr(seq![jm(v0)]),
{
    let ghost g0 = jm(v0);
    let mut xs: Vec<JVal> = Vec::new();
    xs.push(v0);
    let ghost xsv = xs@;
    proof {
        lemma_jm_list_len(xsv, 0);
        lemma_jm_list_index(xsv, 0, 0);
        assert(jm_list(xsv, 0) =~= seq![g0]);
    }
    JVal::Arr(xs)
}

/// An array of two elements, in the given order.
pub fn arr2(v0: JVal, v1: JVal) -> (r: JVal)
    ensures
        jm(r) == JModel::Arr(seq![jm(v0), jm(v1)]),
{
    let ghost g0 = jm(v0);
    let ghost g1 = jm(v1);
    let mut xs: Vec<JVal> = Vec::new();
    xs.push(v0);
    xs.push(v1);
    let ghost xsv = xs@;
    proof {
        lemma_jm_list_len(xsv, 0);
        lemma_jm_list_index(xsv, 0, 0);
        lemma_jm_list_index(xsv, 0, 1);
        assert(jm_list(xsv, 0) =~= seq![g0, g1]);
    }
    JVal::Arr(xs)
}

/// Renders a JSON value as one line of text.
pub fn render_json(v: &JVal) -> (s: String)
    ensures
        s@ == jser(jm(*v)),
{
    let mut out: Vec<char> = Vec::new();
    render_val(v, &mut out);
    let s = chars_to_string(&out);
    s
}

} // verus!
