//! The wire shapes of the protocol: decoding one input line into a request,
//! and encoding a response payload into one output line.
//!
//! A request object needs `jsonrpc` and `method` as strings; `params` and
//! `id` are optional, and a JSON `null` counts as absent. A request without
//! an `id` is a notification and never gets a response line. In a response,
//! a payload that carries a top-level `error` member goes out as the
//! response's `error`; anything else goes out as its `result`.

use vstd::prelude::*;

use crate::chars::{chars_to_string, str_to_chars};
use crate::jparse::{parse_text, parse_json};
use crate::json::{
    jm, jm_members, jser, lemma_jm_members_len, lemma_jm_members_index, render_json, JModel, JVal,
};

verus! {

broadcast use vstd::std_specs::vec::axiom_vec_index_decreases, vstd::std_specs::vec::axiom_vec_decreases_to_view, vstd::seq::axiom_seq_index_decreases, vstd::string::group_string_axioms;

/// A decoded request line.
pub struct JsonRpcRequest {
    pub jsonrpc: String,
    pub method: String,
    pub params: Option<JVal>,
    pub id: Option<JVal>,
}

/// The model of a decoded request line.
pub struct ReqModel {
    pub jsonrpc: Seq<char>,
    pub method: Seq<char>,
    pub params: Option<JModel>,
    pub id: Option<JModel>,
}

/// The model of a request value.
pub open spec fn req_model(r: JsonRpcRequest) -> ReqModel {
    ReqModel {
        jsonrpc: r.jsonrpc@,
        method: r.method@,
        params: match r.params {
            Some(v) => Some(jm(v)),
            None => None,
        },
        id: match r.id {
            Some(v) => Some(jm(v)),
            None => None,
        },
    }
}

/// The member stored under `key`, the last binding winning.
pub open spec fn obj_get(ps: Seq<(Seq<char>, JModel)>, key: Seq<char>) -> Option<JModel>
    decreases ps.len(),
{
    if ps.len() == 0 {
        None
    } else if ps.last().0 == key {
        Some(ps.last().1)
    } else {
        obj_get(ps.drop_last(), key)
    }
}

/// An optional member, where JSON `null` counts as absent.
pub open spec fn opt_field(v: Option<JModel>) -> Option<JModel> {
    match v {
        Some(JModel::Null) => None,
        other => other,
    }
}

/// What one input line decodes to, if anything: a JSON object with string
/// `jsonrpc` and `method` members; `params` and `id` kept when present and
/// not `null`.
pub open spec fn spec_decode(s: Seq<char>) -> Option<ReqModel> {
    match parse_text(s) {
        Some(JModel::Obj(ps)) => match (obj_get(ps, "jsonrpc"@), obj_get(ps, "method"@)) {
            (Some(JModel::Str(ver)), Some(JModel::Str(m))) => Some(
                ReqModel {
                    jsonrpc: ver,
                    method: m,
                    params: opt_field(obj_get(ps, "params"@)),
                    id: opt_field(obj_get(ps, "id"@)),
                },
            ),
            _ => None,
        },
        _ => None,
    }
}

/// Whether the characters of `v` are exactly those of `s`.
pub fn chars_eq_str(v: &Vec<char>, s: &str) -> (r: bool)
    ensures
        r == (v@ == s@),
{
    let n = s.unicode_len();
    if v.len() != n {
        return false;
    }
    let mut i: usize = 0;
    while i < n
        invariant
            n == s@.len(),
            v@.len() == n,
            i <= n,
            forall|k: int| 0 <= k < i ==> v@[k] == s@[k],
        decreases n - i,
    {
        if v[i] != s.get_char(i) {
            return false;
        }
        i = i + 1;
    }
    proof {
        assert(v@ =~= s@);
    }
    true
}

/// Looks `key` up among the first `n` members, the last binding winning.
pub fn obj_get_ref<'a>(ps: &'a Vec<(Vec<char>, JVal)>, n: usize, key: &str) -> (r: Option<
    &'a JVal,
>)
    requires
        n <= ps@.len(),
    ensures
        r matches Some(v) ==> obj_get(jm_members(ps@, 0).take(n as int), key@) == Some(jm(*v)),
        r is None ==> obj_get(jm_members(ps@, 0).take(n as int), key@) is None,
    decreases n,
{
    proof {
        lemma_jm_members_len(ps@, 0);
    }
    if n == 0 {
        proof {
            assert(jm_members(ps@, 0).take(0) =~= Seq::<(Seq<char>, JModel)>::empty());
        }
        None
    } else {
        proof {
            lemma_jm_members_index(ps@, 0, n as int - 1);
            assert(jm_members(ps@, 0).take(n as int).last() == (ps@[n as int - 1].0@, jm(
                ps@[n as int - 1].1,
            )));
            assert(jm_members(ps@, 0).take(n as int).drop_last() =~= jm_members(ps@, 0).take(
                n as int - 1,
            ));
        }
        let p = &ps[n - 1];
        if chars_eq_str(&p.0, key) {
            Some(&p.1)
        } else {
            obj_get_ref(ps, n - 1, key)
        }
    }
}

/// Whether the object holds a member under `key`.
pub fn obj_has(ps: &Vec<(Vec<char>, JVal)>, key: &str) -> (r: bool)
    ensures
        r == (obj_get(jm_members(ps@, 0), key@) is Some),
{
    proof {
        lemma_jm_members_len(ps@, 0);
        assert(jm_members(ps@, 0).take(ps@.len() as int) =~= jm_members(ps@, 0));
    }
    let n = ps.len();
    match obj_get_ref(ps, n, key) {
        Some(_) => true,
        None => false,
    }
}

/// Takes the member stored under `key` out of the object, the last binding
/// winning; the rest of the object is given up.
#[verifier::loop_isolation(false)]
pub fn obj_take(ps: Vec<(Vec<char>, JVal)>, key: &str) -> (r: Option<JVal>)
    ensures
        r matches Some(v) ==> obj_get(jm_members(ps@, 0), key@) == Some(jm(v)),
        r is None ==> obj_get(jm_members(ps@, 0), key@) is None,
{
    let mut ps = ps;
    let ghost full = ps@;
    loop
        invariant
            obj_get(jm_members(full, 0), key@) == obj_get(jm_members(ps@, 0), key@),
        decreases ps@.len(),
    {
        let ghost prev = ps@;
        proof {
            lemma_jm_members_len(prev, 0);
        }
        let popped = ps.pop();
        match popped {
            None => {
                return None;
            },
            Some((k, v)) => {
                proof {
                    lemma_jm_members_index(prev, 0, prev.len() - 1);
                    crate::json::lemma_jm_members_drop_last(prev);
                }
                if chars_eq_str(&k, key) {
                    return Some(v);
                }
            },
        }
    }
}

/// While scanning members from the end: either `key` has not been seen,
/// and looking it up in what is left decides, or its value is fixed.
pub open spec fn found_inv(
    full: Seq<(Seq<char>, JModel)>,
    cur: Seq<(Seq<char>, JModel)>,
    x: Option<JVal>,
    key: Seq<char>,
) -> bool {
    match x {
        None => obj_get(full, key) == obj_get(cur, key),
        Some(v) => obj_get(full, key) == Some(jm(v)),
    }
}

/// The four request member names differ from one another.
pub proof fn lemma_req_keys_distinct()
    ensures
        "jsonrpc"@ != "method"@,
        "jsonrpc"@ != "params"@,
        "jsonrpc"@ != "id"@,
        "method"@ != "params"@,
        "method"@ != "id"@,
        "params"@ != "id"@,
{
    reveal_strlit("jsonrpc");
    reveal_strlit("method");
    reveal_strlit("params");
    reveal_strlit("id");
    assert("jsonrpc"@.len() == 7);
    assert("method"@.len() == 6);
    assert("params"@.len() == 6);
    assert("id"@.len() == 2);
    assert("method"@[0] == 'm');
    assert("params"@[0] == 'p');
}

/// Decodes one input line, exactly as `spec_decode` says.
#[verifier::loop_isolation(false)]
pub fn decode_request(line: &str) -> (r: Option<JsonRpcRequest>)
    ensures
        r matches Some(req) ==> spec_decode(line@) == Some(req_model(req)),
        r is None ==> spec_decode(line@) is None,
{
    let parsed = parse_json(line);
    match parsed {
        None => None,
        Some(top) => match top {
            JVal::Obj(ps) => {
                let ghost full = jm_members(ps@, 0);
                let mut ps = ps;
                let mut f_ver: Option<JVal> = None;
                let mut f_method: Option<JVal> = None;
                let mut f_params: Option<JVal> = None;
                let mut f_id: Option<JVal> = None;
                loop
                    invariant
                        found_inv(full, jm_members(ps@, 0), f_ver, "jsonrpc"@),
                        found_inv(full, jm_members(ps@, 0), f_method, "method"@),
                        found_inv(full, jm_members(ps@, 0), f_params, "params"@),
                        found_inv(full, jm_members(ps@, 0), f_id, "id"@),
                    decreases ps@.len(),
                {
                    let ghost prev = ps@;
                    proof {
                        lemma_jm_members_len(prev, 0);
                    }
                    let popped = ps.pop();
                    match popped {
                        None => {
                            break;
                        },
                        Some((k, v)) => {
                            proof {
                                lemma_req_keys_distinct();
                                lemma_jm_members_index(prev, 0, prev.len() - 1);
                                crate::json::lemma_jm_members_drop_last(prev);
                            }
                            if chars_eq_str(&k, "jsonrpc") {
                                if f_ver.is_none() {
                                    f_ver = Some(v);
                                }
                            } else if chars_eq_str(&k, "method") {
                                if f_method.is_none() {
                                    f_method = Some(v);
                                }
                            } else if chars_eq_str(&k, "params") {
                                if f_params.is_none() {
                                    f_params = Some(v);
                                }
                            } else if chars_eq_str(&k, "id") {
                                if f_id.is_none() {
                                    f_id = Some(v);
                                }
                            }
                        },
                    }
                }
                let ver_s = match f_ver {
                    Some(JVal::Str(cs)) => chars_to_string(&cs),
                    _ => {
                        return None;
                    },
                };
                let method_s = match f_method {
                    Some(JVal::Str(cs)) => chars_to_string(&cs),
                    _ => {
                        return None;
                    },
                };
                let params = match f_params {
                    Some(JVal::Null) => None,
                    other => other,
                };
                let id = match f_id {
                    Some(JVal::Null) => None,
                    other => other,
                };
                Some(JsonRpcRequest { jsonrpc: ver_s, method: method_s, params, id })
            },
            _ => None,
        },
    }
}

/// The parameters of the initialization handshake: the caller's options,
/// other fields ignored.
pub struct InitializeParams {
    pub options: Option<JVal>,
}

/// What `initialize` parameters decode to, if anything: any object, whose
/// `options` member is kept when present and not `null`.
pub open spec fn spec_init_params(params: Option<JModel>) -> Option<Option<JModel>> {
    match params {
        Some(JModel::Obj(ps)) => Some(opt_field(obj_get(ps, "options"@))),
        _ => None,
    }
}

/// Decodes `initialize` parameters, exactly as `spec_init_params` says.
pub fn parse_initialize_params(params: Option<JVal>) -> (r: Option<InitializeParams>)
    ensures
        r matches Some(ip) ==> spec_init_params(
            match params {
                Some(v) => Some(jm(v)),
                None => None,
            },
        ) == Some(
            match ip.options {
                Some(v) => Some(jm(v)),
                None => None,
            },
        ),
        r is None ==> spec_init_params(
            match params {
                Some(v) => Some(jm(v)),
                None => None,
            },
        ) is None,
{
    match params {
        Some(JVal::Obj(ps)) => {
            let o = obj_take(ps, "options");
            let o2 = match o {
                Some(JVal::Null) => None,
                other => other,
            };
            Some(InitializeParams { options: o2 })
        },
        _ => None,
    }
}

/// The parameters of a tool call: the tool's name and its arguments.
pub struct CallToolParams {
    pub name: String,
    pub arguments: Option<JVal>,
}

/// What `tools/call` parameters must hold: a `name` string; `arguments`
/// kept when present and not `null`. Anything else is malformed.
pub open spec fn spec_call_params(params: Option<JModel>) -> Option<(Seq<char>, Option<JModel>)> {
    match params {
        Some(JModel::Obj(ps)) => match obj_get(ps, "name"@) {
            Some(JModel::Str(n)) => Some((n, opt_field(obj_get(ps, "arguments"@)))),
            _ => None,
        },
        _ => None,
    }
}

/// Decodes `tools/call` parameters, exactly as `spec_call_params` says.
pub fn parse_call_params(params: Option<JVal>) -> (r: Option<CallToolParams>)
    ensures
        r matches Some(p) ==> spec_call_params(
            match params {
                Some(v) => Some(jm(v)),
                None => None,
            },
        ) == Some(
            (
                p.name@,
                match p.arguments {
                    Some(v) => Some(jm(v)),
                    None => None,
                },
            ),
        ),
        r is None ==> spec_call_params(
            match params {
                Some(v) => Some(jm(v)),
                None => None,
            },
        ) is None,
{
    match params {
        Some(JVal::Obj(ps)) => {
            let n = ps.len();
            proof {
                lemma_jm_members_len(ps@, 0);
                assert(jm_members(ps@, 0).take(ps@.len() as int) =~= jm_members(ps@, 0));
            }
            let name = match obj_get_ref(&ps, n, "name") {
                Some(nv) => match nv {
                    JVal::Str(cs) => chars_to_string(cs),
                    _ => {
                        return None;
                    },
                },
                None => {
                    return None;
                },
            };
            let a = obj_take(ps, "arguments");
            let a2 = match a {
                Some(JVal::Null) => None,
                other => other,
            };
            Some(CallToolParams { name, arguments: a2 })
        },
        _ => None,
    }
}

/// A response whose payload goes out as `result`.
pub open spec fn result_response(idm: JModel, payload: JModel) -> JModel {
    JModel::Obj(
        seq![
            ("id"@, idm),
            ("jsonrpc"@, JModel::Str("2.0"@)),
            ("result"@, payload),
        ],
    )
}

/// The response object for a payload: a payload with a top-level `error`
/// member becomes the response's `error`, anything else its `result`; the
/// request's `id` is echoed and `jsonrpc` is `2.0`.
pub open spec fn response_model(idm: JModel, payload: JModel) -> JModel {
    match payload {
        JModel::Obj(ps) => match obj_get(ps, "error"@) {
            Some(e) => JModel::Obj(
                seq![
                    ("error"@, e),
                    ("id"@, idm),
                    ("jsonrpc"@, JModel::Str("2.0"@)),
                ],
            ),
            None => result_response(idm, payload),
        },
        _ => result_response(idm, payload),
    }
}

/// Renders a response whose payload goes out as `result`.
fn encode_result(id: JVal, payload: JVal) -> (line: String)
    ensures
        line@ == jser(result_response(jm(id), jm(payload))),
{
    let ghost gid = jm(id);
    let ghost gp = jm(payload);
    let mut ms: Vec<(Vec<char>, JVal)> = Vec::new();
    ms.push((str_to_chars("id"), id));
    ms.push((str_to_chars("jsonrpc"), JVal::Str(str_to_chars("2.0"))));
    ms.push((str_to_chars("result"), payload));
    let ghost msv = ms@;
    let obj = JVal::Obj(ms);
    proof {
        lemma_jm_members_len(msv, 0);
        lemma_jm_members_index(msv, 0, 0);
        lemma_jm_members_index(msv, 0, 1);
        lemma_jm_members_index(msv, 0, 2);
        assert(jm_members(msv, 0) =~= seq![
            ("id"@, gid),
            ("jsonrpc"@, JModel::Str("2.0"@)),
            ("result"@, gp),
        ]);
    }
    render_json(&obj)
}

/// Renders the response line for a payload, as `response_model` says.
pub fn encode_response(id: JVal, payload: JVal) -> (line: String)
    ensures
        line@ == jser(response_model(jm(id), jm(payload))),
{
    match payload {
        JVal::Obj(ps) => {
            if obj_has(&ps, "error") {
                let ghost psm = jm_members(ps@, 0);
                let e = match obj_take(ps, "error") {
                    Some(e) => e,
                    None => {
                        proof {
                            assert(false);
                        }
                        JVal::Null
                    },
                };
                let ghost ge = jm(e);
                let ghost gid = jm(id);
                let mut ms: Vec<(Vec<char>, JVal)> = Vec::new();
                ms.push((str_to_chars("error"), e));
                ms.push((str_to_chars("id"), id));
                ms.push((str_to_chars("jsonrpc"), JVal::Str(str_to_chars("2.0"))));
                let ghost msv = ms@;
                let obj = JVal::Obj(ms);
                proof {
                    lemma_jm_members_len(msv, 0);
                    lemma_jm_members_index(msv, 0, 0);
                    lemma_jm_members_index(msv, 0, 1);
                    lemma_jm_members_index(msv, 0, 2);
                    assert(jm_members(msv, 0) =~= seq![
                        ("error"@, ge),
                        ("id"@, gid),
                        ("jsonrpc"@, JModel::Str("2.0"@)),
                    ]);
                }
                render_json(&obj)
            } else {
                encode_result(id, JVal::Obj(ps))
            }
        },
        other => encode_result(id, other),
    }
}

} // verus!
