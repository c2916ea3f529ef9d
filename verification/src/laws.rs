//! The protocol engine's laws, stated over the dispatcher's and codec's
//! models and proved once and for all.

use vstd::prelude::*;

use crate::catalog::{diff_desc_post, diff_desc_pre, tool_err_model, tools_list_model};
use crate::dispatch::{commit_msg, init_override, spec_step, ActionModel, StepModel};
use crate::protocol::spec_call_params;
use crate::json::{jser, JModel};
use crate::protocol::{obj_get, response_model, ReqModel};

verus! {

/// `needle` occurs in `hay` as a contiguous run.
pub open spec fn seq_contains(hay: Seq<char>, needle: Seq<char>) -> bool {
    exists|i: int|
        0 <= i && i + needle.len() <= hay.len() && #[trigger] hay.subrange(i, i + needle.len())
            == needle
}

/// A request with an id gets exactly one response and a notification none:
/// the step either replies at once, or runs a tool and hands the same id to
/// `finish_tool`, which replies exactly when that id is there; with no id
/// the step is silent or a tool run whose outcome is discarded. Holds for
/// every request whose `tools/call` parameters, if any, are well-formed —
/// except one carrying the initialized-notification method name, which is
/// acknowledged silently whether or not an id is there.
pub proof fn lemma_response_iff_id(rm: ReqModel, cfg: Seq<char>)
    requires
        rm.method == "tools/call"@ ==> spec_call_params(rm.params) is Some,
        rm.method != "notifications/initialized"@,
    ensures
        ({
            let (c2, sm) = spec_step(rm, cfg);
            &&& (rm.id is Some ==> (sm is Reply || (sm matches StepModel::CallTool(_, id2)
                && id2 == rm.id && id2 is Some)))
            &&& (rm.id is None ==> (sm is Silent || (sm matches StepModel::CallTool(_, id2)
                && id2 is None)))
            &&& !(sm is ParamsError)
            &&& !(sm is Skip)
        }),
{
    let (c2, sm) = spec_step(rm, cfg);
    assert(!(sm is Skip));
    assert(!(sm is ParamsError));
    if rm.id is Some {
        assert(sm is Reply || (sm matches StepModel::CallTool(_, id2) && id2 == rm.id));
    } else {
        assert(sm is Silent || (sm matches StepModel::CallTool(_, id2) && id2 is None));
    }
}

/// Every response object echoes the request's id: whatever the payload,
/// the encoded object's `id` member is exactly the id replied to.
pub proof fn lemma_response_echoes_id(idm: JModel, payload: JModel)
    ensures
        ({
            let r = response_model(idm, payload);
            r matches JModel::Obj(ms) && obj_get(ms, "id"@) == Some(idm)
        }),
{
    lemma_response_keys_distinct();
    reveal_with_fuel(obj_get, 6);
    match response_model(idm, payload) {
        JModel::Obj(ms) => {
            assert(obj_get(ms, "id"@) == Some(idm));
        },
        _ => {
            assert(false);
        },
    }
}

/// The response member names differ from one another.
pub proof fn lemma_response_keys_distinct()
    ensures
        "error"@ != "id"@,
        "jsonrpc"@ != "id"@,
        "result"@ != "id"@,
        "jsonrpc"@ != "error"@,
        "result"@ != "error"@,
{
    reveal_strlit("error");
    reveal_strlit("id");
    reveal_strlit("jsonrpc");
    reveal_strlit("result");
    assert("error"@.len() == 5);
    assert("id"@.len() == 2);
    assert("jsonrpc"@.len() == 7);
    assert("result"@.len() == 6);
    assert("error"@[0] == 'e');
    assert("result"@[0] == 'r');
}

/// After `initialize` carries a template override, `tools/list` answers
/// with a catalog whose `get_staged_diff` description contains that
/// override; with no override the configuration, and so the description,
/// keeps what it had — at start, the built-in default template.
pub proof fn lemma_initialize_then_list(
    rm_init: ReqModel,
    rm_list: ReqModel,
    cfg: Seq<char>,
    idm: JModel,
)
    requires
        rm_init.method == "initialize"@,
        rm_list.method == "tools/list"@,
        rm_list.id == Some(idm),
    ensures
        ({
            let (c2, _) = spec_step(rm_init, cfg);
            let (c3, sm) = spec_step(rm_list, c2);
            &&& c2 == (match init_override(rm_init.params) {
                Some(x) => x,
                None => cfg,
            })
            &&& c3 == c2
            &&& sm == StepModel::Reply(jser(response_model(idm, tools_list_model(c2))))
            &&& seq_contains(diff_desc_pre() + c2 + diff_desc_post(), c2)
        }),
{
    let (c2, _) = spec_step(rm_init, cfg);
    lemma_method_names_distinct();
    let hay = diff_desc_pre() + c2 + diff_desc_post();
    let i = diff_desc_pre().len() as int;
    assert(hay.subrange(i, i + c2.len()) =~= c2);
}

/// The four method names differ from one another.
pub proof fn lemma_method_names_distinct()
    ensures
        "initialize"@ != "notifications/initialized"@,
        "initialize"@ != "tools/list"@,
        "initialize"@ != "tools/call"@,
        "notifications/initialized"@ != "tools/list"@,
        "notifications/initialized"@ != "tools/call"@,
        "tools/list"@ != "tools/call"@,
{
    reveal_strlit("initialize");
    reveal_strlit("notifications/initialized");
    reveal_strlit("tools/list");
    reveal_strlit("tools/call");
    assert("initialize"@.len() == 10);
    assert("notifications/initialized"@.len() == 25);
    assert("tools/list"@.len() == 10);
    assert("tools/call"@.len() == 10);
    assert("initialize"@[0] == 'i');
    assert("tools/list"@[0] == 't');
    assert("tools/list"@[6] == 'l');
    assert("tools/call"@[6] == 'c');
}

/// A `tools/call` of `execute_commit` whose arguments carry no string
/// `message` still runs the commit tool, with the empty message.
pub proof fn lemma_commit_missing_message(
    rm: ReqModel,
    cfg: Seq<char>,
    args: Option<JModel>,
)
    requires
        rm.method == "tools/call"@,
        spec_call_params(rm.params) == Some(("execute_commit"@, args)),
        match args {
            Some(JModel::Obj(ps)) => !(obj_get(ps, "message"@) matches Some(JModel::Str(_))),
            _ => true,
        },
    ensures
        spec_step(rm, cfg).0 == cfg,
        spec_step(rm, cfg).1 == StepModel::CallTool(ActionModel::Commit(Seq::empty()), rm.id),
{
    lemma_method_names_distinct();
    lemma_tool_names_distinct();
    assert(commit_msg(args) == Seq::<char>::empty());
}

/// The two tool names differ.
pub proof fn lemma_tool_names_distinct()
    ensures
        "get_staged_diff"@ != "execute_commit"@,
{
    reveal_strlit("get_staged_diff");
    reveal_strlit("execute_commit");
    assert("get_staged_diff"@.len() == 15);
    assert("execute_commit"@.len() == 14);
}

/// A `tools/call` with an unknown tool name answers with a failed tool
/// result — carried under the response's `result`, never as a transport
/// `error`.
pub proof fn lemma_unknown_tool_is_result(
    rm: ReqModel,
    cfg: Seq<char>,
    name: Seq<char>,
    args: Option<JModel>,
    idm: JModel,
)
    requires
        rm.method == "tools/call"@,
        spec_call_params(rm.params) == Some((name, args)),
        name != "get_staged_diff"@,
        name != "execute_commit"@,
        rm.id == Some(idm),
    ensures
        spec_step(rm, cfg).0 == cfg,
        spec_step(rm, cfg).1 == StepModel::Reply(
            jser(response_model(idm, tool_err_model("未知工具"@))),
        ),
        ({
            let r = response_model(idm, tool_err_model("未知工具"@));
            r matches JModel::Obj(ms) && obj_get(ms, "error"@) is None && obj_get(ms, "result"@)
                == Some(tool_err_model("未知工具"@))
        }),
{
    lemma_method_names_distinct();
    lemma_envelope_keys_distinct();
    lemma_response_keys_distinct();
    reveal_with_fuel(obj_get, 6);
    let payload = tool_err_model("未知工具"@);
    match payload {
        JModel::Obj(ps) => {
            assert(obj_get(ps, "error"@) is None);
        },
        _ => {
            assert(false);
        },
    }
}

/// The envelope member names differ from `error` and from each other.
pub proof fn lemma_envelope_keys_distinct()
    ensures
        "content"@ != "error"@,
        "isError"@ != "error"@,
        "content"@ != "isError"@,
{
    reveal_strlit("content");
    reveal_strlit("isError");
    reveal_strlit("error");
    assert("content"@.len() == 7);
    assert("isError"@.len() == 7);
    assert("error"@.len() == 5);
    assert("content"@[0] == 'c');
    assert("isError"@[0] == 'i');
}

/// The id of a decoded request is a well-formed value: it came out of a
/// parsed line.
pub proof fn lemma_decoded_id_wf(line: Seq<char>, rm: ReqModel)
    requires
        crate::protocol::spec_decode(line) == Some(rm),
    ensures
        rm.id matches Some(idm) ==> crate::roundtrip::wf(idm),
{
    match crate::jparse::parse_text(line) {
        Some(JModel::Obj(ps)) => {
            crate::roundtrip::lemma_parse_text_sound(line, JModel::Obj(ps));
            match rm.id {
                Some(idm) => {
                    crate::roundtrip::lemma_obj_get_wf(ps, "id"@, idm);
                },
                None => {},
            }
        },
        _ => {},
    }
}

/// Every response line the dispatcher writes for a decoded request parses
/// back to a response object that echoes the request's id.
pub proof fn lemma_reply_parses_back(line: Seq<char>, rm: ReqModel, cfg: Seq<char>)
    requires
        crate::protocol::spec_decode(line) == Some(rm),
    ensures
        ({
            let (c2, sm) = spec_step(rm, cfg);
            sm matches StepModel::Reply(out) ==> (rm.id matches Some(idm) && parse_text_id(out)
                == Some(idm))
        }),
{
    let (c2, sm) = spec_step(rm, cfg);
    lemma_decoded_id_wf(line, rm);
    if sm matches StepModel::Reply(out) {
        match rm.id {
            Some(idm) => {
                if rm.method == "initialize"@ {
                    crate::roundtrip::lemma_wf_init_result();
                    lemma_reply_echo(idm, crate::catalog::init_result_model());
                } else if rm.method == "tools/list"@ {
                    crate::roundtrip::lemma_wf_tools_list(c2);
                    lemma_reply_echo(idm, tools_list_model(c2));
                } else if rm.method == "tools/call"@ {
                    crate::roundtrip::lemma_wf_tool_outcome("未知工具"@);
                    lemma_reply_echo(idm, tool_err_model("未知工具"@));
                } else {
                    crate::roundtrip::lemma_wf_method_not_found();
                    lemma_reply_echo(idm, crate::dispatch::method_not_found_model());
                }
            },
            None => {},
        }
    }
}

/// The id member of the response object a line parses to, if any.
pub open spec fn parse_text_id(out: Seq<char>) -> Option<JModel> {
    match crate::jparse::parse_text(out) {
        Some(JModel::Obj(ms)) => obj_get(ms, "id"@),
        _ => None,
    }
}

/// A tool outcome's response line also parses back echoing the id it was
/// finished with.
pub proof fn lemma_finish_parses_back(idm: JModel, outcome: Result<String, String>)
    requires
        crate::roundtrip::wf(idm),
    ensures
        parse_text_id(jser(response_model(idm, crate::dispatch::tool_outcome_model(outcome))))
            == Some(idm),
{
    match &outcome {
        Ok(t) => {
            crate::roundtrip::lemma_wf_tool_outcome(t@);
        },
        Err(e) => {
            crate::roundtrip::lemma_wf_tool_outcome(e@);
        },
    }
    lemma_reply_echo(idm, crate::dispatch::tool_outcome_model(outcome));
}

/// A well-formed payload's response line parses back to the response
/// object, whose id member is the id encoded.
proof fn lemma_reply_echo(idm: JModel, payload: JModel)
    requires
        crate::roundtrip::wf(idm),
        crate::roundtrip::wf(payload),
    ensures
        parse_text_id(jser(response_model(idm, payload))) == Some(idm),
{
    crate::roundtrip::lemma_response_line_round_trip(idm, payload);
    lemma_response_echoes_id(idm, payload);
}

} // verus!
