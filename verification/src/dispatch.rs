//! The dispatcher: a step function from one decoded request and the current
//! configuration to the next configuration and what to do — answer, stay
//! silent, run a tool, or stop on malformed call parameters.
//!
//! A tool call is handed back to the caller as an action; once the
//! collaborator has run it, `finish_tool` shapes the outcome into the
//! response line, if the request asked for one.

use vstd::prelude::*;

use crate::catalog::{
    init_result_model, init_result_payload, tool_err_model, tool_err_payload, tool_ok_model,
    tool_ok_payload, tools_list_model, tools_list_payload, ServerConfig,
};
use crate::chars::{chars_to_string, str_eq};
use crate::json::{jm, jser, JModel, JVal};
use crate::protocol::{
    decode_request, encode_response, obj_get, obj_get_ref, parse_call_params,
    parse_initialize_params, response_model, spec_call_params, spec_decode, req_model,
    JsonRpcRequest, ReqModel,
};

verus! {

/// A tool the dispatcher wants run.
pub enum ToolAction {
    StagedDiff,
    Commit { message: String },
}

/// The model of a tool action.
pub enum ActionModel {
    Diff,
    Commit(Seq<char>),
}

/// The model of a tool action value.
pub open spec fn action_model(a: ToolAction) -> ActionModel {
    match a {
        ToolAction::StagedDiff => ActionModel::Diff,
        ToolAction::Commit { message } => ActionModel::Commit(message@),
    }
}

/// What one request leads to.
pub enum Step {
    /// A response line to write.
    Reply(String),
    /// Nothing to write.
    Silent,
    /// Run this tool, then hand its outcome to `finish_tool` with this id.
    CallTool { action: ToolAction, id: Option<JVal> },
    /// Malformed `tools/call` parameters: processing of this request stops.
    ParamsError,
    /// The line did not decode; it is dropped.
    Skip,
}

/// The model of a step.
pub enum StepModel {
    Reply(Seq<char>),
    Silent,
    CallTool(ActionModel, Option<JModel>),
    ParamsError,
    Skip,
}

/// The model of a step value.
pub open spec fn step_model(s: Step) -> StepModel {
    match s {
        Step::Reply(line) => StepModel::Reply(line@),
        Step::Silent => StepModel::Silent,
        Step::CallTool { action, id } => StepModel::CallTool(
            action_model(action),
            match id {
                Some(v) => Some(jm(v)),
                None => None,
            },
        ),
        Step::ParamsError => StepModel::ParamsError,
        Step::Skip => StepModel::Skip,
    }
}

/// The template override carried by `initialize` parameters, if any:
/// `params.options.commitFormat`, when it is a string.
pub open spec fn init_override(params: Option<JModel>) -> Option<Seq<char>> {
    match params {
        Some(JModel::Obj(ps)) => match obj_get(ps, "options"@) {
            Some(JModel::Obj(os)) => match obj_get(os, "commitFormat"@) {
                Some(JModel::Str(s)) => Some(s),
                _ => None,
            },
            _ => None,
        },
        _ => None,
    }
}

/// The message handed to the commit tool: `arguments.message` when it is a
/// string, the empty string otherwise.
pub open spec fn commit_msg(args: Option<JModel>) -> Seq<char> {
    match args {
        Some(JModel::Obj(ps)) => match obj_get(ps, "message"@) {
            Some(JModel::Str(m)) => m,
            _ => Seq::empty(),
        },
        _ => Seq::empty(),
    }
}

/// The payload of the transport error for an unknown method.
pub open spec fn method_not_found_model() -> JModel {
    JModel::Obj(
        seq![
            (
                "error"@,
                JModel::Obj(
                    seq![
                        ("code"@, JModel::Num("-32601"@)),
                        ("message"@, JModel::Str("Method not found"@)),
                    ],
                ),
            ),
        ],
    )
}

/// A response line when the request had an id, silence otherwise.
pub open spec fn reply_or_silent(id: Option<JModel>, payload: JModel) -> StepModel {
    match id {
        Some(idm) => StepModel::Reply(jser(response_model(idm, payload))),
        None => StepModel::Silent,
    }
}

/// The dispatcher's step: the configuration after the request, and what the
/// request leads to. Only `initialize` may change the configuration; only
/// malformed `tools/call` parameters stop processing.
pub open spec fn spec_step(req: ReqModel, cfg: Seq<char>) -> (Seq<char>, StepModel) {
    if req.method == "initialize"@ {
        let c2 = match init_override(req.params) {
            Some(f) => f,
            None => cfg,
        };
        (c2, reply_or_silent(req.id, init_result_model()))
    } else if req.method == "notifications/initialized"@ {
        (cfg, StepModel::Silent)
    } else if req.method == "tools/list"@ {
        (cfg, reply_or_silent(req.id, tools_list_model(cfg)))
    } else if req.method == "tools/call"@ {
        match spec_call_params(req.params) {
            None => (cfg, StepModel::ParamsError),
            Some((name, args)) => {
                if name == "get_staged_diff"@ {
                    (cfg, StepModel::CallTool(ActionModel::Diff, req.id))
                } else if name == "execute_commit"@ {
                    (cfg, StepModel::CallTool(ActionModel::Commit(commit_msg(args)), req.id))
                } else {
                    (cfg, reply_or_silent(req.id, tool_err_model("未知工具"@)))
                }
            },
        }
    } else {
        match req.id {
            Some(idm) => (cfg, StepModel::Reply(jser(response_model(idm, method_not_found_model())))),
            None => (cfg, StepModel::Silent),
        }
    }
}

/// Replies with the payload when the request had an id.
fn respond_step(id: Option<JVal>, payload: JVal) -> (s: Step)
    ensures
        step_model(s) == reply_or_silent(
            match id {
                Some(v) => Some(jm(v)),
                None => None,
            },
            jm(payload),
        ),
{
    match id {
        Some(idv) => Step::Reply(encode_response(idv, payload)),
        None => Step::Silent,
    }
}

/// Handles one decoded request, exactly as `spec_step` says.
pub fn handle_request(req: JsonRpcRequest, config: &mut ServerConfig) -> (s: Step)
    ensures
        ({
            let (c2, sm) = spec_step(req_model(req), old(config).commit_format@);
            final(config).commit_format@ == c2 && step_model(s) == sm
        }),
{
    if str_eq(req.method.as_str(), "initialize") {
        match parse_initialize_params(req.params) {
            Some(ip) => match &ip.options {
                Some(o) => match o {
                    JVal::Obj(os) => {
                        let on = os.len();
                        proof {
                            lemma_take_full(os@);
                        }
                        match obj_get_ref(os, on, "commitFormat") {
                            Some(f) => match f {
                                JVal::Str(cs) => {
                                    config.commit_format = chars_to_string(cs);
                                },
                                _ => {},
                            },
                            None => {},
                        }
                    },
                    _ => {},
                },
                None => {},
            },
            None => {},
        }
        respond_step(req.id, init_result_payload())
    } else if str_eq(req.method.as_str(), "notifications/initialized") {
        Step::Silent
    } else if str_eq(req.method.as_str(), "tools/list") {
        let payload = tools_list_payload(config.commit_format.as_str());
        respond_step(req.id, payload)
    } else if str_eq(req.method.as_str(), "tools/call") {
        match parse_call_params(req.params) {
            Some(p) => {
                if str_eq(p.name.as_str(), "get_staged_diff") {
                    Step::CallTool { action: ToolAction::StagedDiff, id: req.id }
                } else if str_eq(p.name.as_str(), "execute_commit") {
                    let message = match &p.arguments {
                        Some(av) => match av {
                            JVal::Obj(aps) => {
                                let an = aps.len();
                                proof {
                                    lemma_take_full(aps@);
                                }
                                match obj_get_ref(aps, an, "message") {
                                    Some(mv) => match mv {
                                        JVal::Str(m) => chars_to_string(m),
                                        _ => String::new(),
                                    },
                                    None => String::new(),
                                }
                            },
                            _ => String::new(),
                        },
                        None => String::new(),
                    };
                    Step::CallTool { action: ToolAction::Commit { message }, id: req.id }
                } else {
                    respond_step(req.id, tool_err_payload("未知工具"))
                }
            },
            None => Step::ParamsError,
        }
    } else {
        match req.id {
            Some(idv) => {
                let err = crate::json::obj2(
                    "code",
                    JVal::Num(crate::chars::str_to_chars("-32601")),
                    "message",
                    crate::json::jstr("Method not found"),
                );
                let payload = crate::json::obj1("error", err);
                Step::Reply(encode_response(idv, payload))
            },
            None => Step::Silent,
        }
    }
}

/// Taking the whole member list changes nothing.
proof fn lemma_take_full(ps: Seq<(Vec<char>, JVal)>)
    ensures
        crate::json::jm_members(ps, 0).take(ps.len() as int) == crate::json::jm_members(ps, 0),
{
    crate::json::lemma_jm_members_len(ps, 0);
    assert(crate::json::jm_members(ps, 0).take(ps.len() as int) =~= crate::json::jm_members(
        ps,
        0,
    ));
}

/// The payload a tool outcome becomes: the text on success, the failure
/// text with the error mark otherwise.
pub open spec fn tool_outcome_model(outcome: Result<String, String>) -> JModel {
    match outcome {
        Ok(t) => tool_ok_model(t@),
        Err(e) => tool_err_model(e@),
    }
}

/// Shapes a finished tool run into its response line: the outcome becomes
/// the payload, and a line is produced exactly when the request had an id.
pub fn finish_tool(id: Option<JVal>, outcome: Result<String, String>) -> (r: Option<String>)
    ensures
        id matches Some(idv) ==> (r matches Some(line) && line@ == jser(
            response_model(jm(idv), tool_outcome_model(outcome)),
        )),
        id is None ==> r is None,
{
    let payload = match &outcome {
        Ok(t) => tool_ok_payload(t.as_str()),
        Err(e) => tool_err_payload(e.as_str()),
    };
    match id {
        Some(idv) => Some(encode_response(idv, payload)),
        None => None,
    }
}

/// Handles one input line: decodes it and dispatches, exactly as
/// `spec_decode` and `spec_step` say; a line that does not decode is
/// dropped and changes nothing.
pub fn handle_line(line: &str, config: &mut ServerConfig) -> (s: Step)
    ensures
        ({
            match spec_decode(line@) {
                None => step_model(s) == StepModel::Skip && final(config).commit_format@ == old(
                    config,
                ).commit_format@,
                Some(rm) => {
                    let (c2, sm) = spec_step(rm, old(config).commit_format@);
                    final(config).commit_format@ == c2 && step_model(s) == sm
                },
            }
        }),
{
    match decode_request(line) {
        None => Step::Skip,
        Some(req) => handle_request(req, config),
    }
}

} // verus!
