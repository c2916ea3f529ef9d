//! The server's configuration and its tool catalog.
//!
//! The configuration holds one value, the commit-message format template,
//! which starts at a built-in default and can be overridden during the
//! initialization handshake. The catalog describes the two tools; the
//! description of `get_staged_diff` embeds the current template, so the
//! catalog is rebuilt on every listing.

use vstd::prelude::*;

use crate::json::{arr2, jm, jstr, obj1, obj2, obj3, JModel, JVal};

verus! {

/// The server's one piece of mutable state.
pub struct ServerConfig {
    pub commit_format: String,
}

/// The built-in commit-message format template.
pub open spec fn default_template() -> Seq<char> {
    r#"<type>[optional scope]: <english description>

[English body]

[Chinese body]

Log: [short description of the change use chinese language]
PMS: <BUG-number>(for bugfix) or <TASK-number>(for add feature) (Must include 'BUG-' or 'TASK-', If the user does not provide a number, remove this line.)
Influence: Explain in Chinese the potential impact of this submission."#@
}

impl Default for ServerConfig {
    /// The configuration at process start: the built-in template.
    fn default() -> (c: ServerConfig)
        ensures
            c.commit_format@ == default_template(),
    {
        ServerConfig {
            commit_format: String::from_str(
                r#"<type>[optional scope]: <english description>

[English body]

[Chinese body]

Log: [short description of the change use chinese language]
PMS: <BUG-number>(for bugfix) or <TASK-number>(for add feature) (Must include 'BUG-' or 'TASK-', If the user does not provide a number, remove this line.)
Influence: Explain in Chinese the potential impact of this submission."#,
            ),
        }
    }
}

/// One catalog entry.
pub struct Tool {
    pub name: String,
    pub description: String,
    pub input_schema: JVal,
}

/// What comes before the template in the `get_staged_diff` description.
pub open spec fn diff_desc_pre() -> Seq<char> {
    "获取当前 git 暂存区的变更内容 (git diff --staged)。获取后，请你根据变更内容总结出一个提交信息，并询问用户是否提交。\n\n### 提交格式要求：\n"@
}

/// What comes after the template in the `get_staged_diff` description.
pub open spec fn diff_desc_post() -> Seq<char> {
    "\n\n### 额外约束：\n- Body 的每一行不得超过 80 个字符。\n- 如果修改范围很小，可以同时省略 English body 和 Chinese body。\n- 如果不省略 body，则必须同时保留 English body 和 Chinese body，不得只写其中一个。"@
}

/// The description of `execute_commit`.
pub open spec fn commit_desc() -> Seq<char> {
    "执行提交。请在用户确认了你总结的提交信息后再调用此工具。"@
}

/// The input descriptor of `get_staged_diff`: an object with no properties.
pub open spec fn diff_schema() -> JModel {
    JModel::Obj(
        seq![
            ("properties"@, JModel::Obj(Seq::empty())),
            ("type"@, JModel::Str("object"@)),
        ],
    )
}

/// The input descriptor of `execute_commit`: an object requiring a string
/// `message`.
pub open spec fn commit_schema() -> JModel {
    JModel::Obj(
        seq![
            (
                "properties"@,
                JModel::Obj(
                    seq![
                        (
                            "message"@,
                            JModel::Obj(
                                seq![
                                    ("description"@, JModel::Str("提交信息"@)),
                                    ("type"@, JModel::Str("string"@)),
                                ],
                            ),
                        ),
                    ],
                ),
            ),
            ("required"@, JModel::Arr(seq![JModel::Str("message"@)])),
            ("type"@, JModel::Str("object"@)),
        ],
    )
}

/// The catalog for a given template: two tools, `get_staged_diff` (whose
/// description embeds the template) and `execute_commit`.
pub fn tool_catalog(commit_format: &str) -> (ts: Vec<Tool>)
    ensures
        ts@.len() == 2,
        ts@[0].name@ == "get_staged_diff"@,
        ts@[0].description@ == diff_desc_pre() + commit_format@ + diff_desc_post(),
        jm(ts@[0].input_schema) == diff_schema(),
        ts@[1].name@ == "execute_commit"@,
        ts@[1].description@ == commit_desc(),
        jm(ts@[1].input_schema) == commit_schema(),
{
    let mut d = String::from_str(
        "获取当前 git 暂存区的变更内容 (git diff --staged)。获取后，请你根据变更内容总结出一个提交信息，并询问用户是否提交。\n\n### 提交格式要求：\n",
    );
    d.append(commit_format);
    d.append(
        "\n\n### 额外约束：\n- Body 的每一行不得超过 80 个字符。\n- 如果修改范围很小，可以同时省略 English body 和 Chinese body。\n- 如果不省略 body，则必须同时保留 English body 和 Chinese body，不得只写其中一个。",
    );
    let empty_props: Vec<(Vec<char>, JVal)> = Vec::new();
    let diff_tool = Tool {
        name: String::from_str("get_staged_diff"),
        description: d,
        input_schema: obj2("properties", JVal::Obj(empty_props), "type", jstr("object")),
    };
    let message_schema = obj2("description", jstr("提交信息"), "type", jstr("string"));
    let commit_tool = Tool {
        name: String::from_str("execute_commit"),
        description: String::from_str("执行提交。请在用户确认了你总结的提交信息后再调用此工具。"),
        input_schema: obj3(
            "properties",
            obj1("message", message_schema),
            "required",
            crate::json::arr1(jstr("message")),
            "type",
            jstr("object"),
        ),
    };
    let mut ts: Vec<Tool> = Vec::new();
    ts.push(diff_tool);
    ts.push(commit_tool);
    ts
}

/// The wire form of one catalog entry.
pub open spec fn tool_entry(name: Seq<char>, desc: Seq<char>, schema: JModel) -> JModel {
    JModel::Obj(
        seq![
            ("name"@, JModel::Str(name)),
            ("description"@, JModel::Str(desc)),
            ("inputSchema"@, schema),
        ],
    )
}

/// The `tools/list` result for a given template.
pub open spec fn tools_list_model(fmt: Seq<char>) -> JModel {
    JModel::Obj(
        seq![
            (
                "tools"@,
                JModel::Arr(
                    seq![
                        tool_entry(
                            "get_staged_diff"@,
                            diff_desc_pre() + fmt + diff_desc_post(),
                            diff_schema(),
                        ),
                        tool_entry("execute_commit"@, commit_desc(), commit_schema()),
                    ],
                ),
            ),
        ],
    )
}

/// Builds the `tools/list` result payload from the current template.
pub fn tools_list_payload(commit_format: &str) -> (v: JVal)
    ensures
        jm(v) == tools_list_model(commit_format@),
{
    let mut ts = tool_catalog(commit_format);
    let t1 = match ts.pop() {
        Some(t) => t,
        None => {
            proof {
                assert(false);
            }
            return JVal::Null;
        },
    };
    let t0 = match ts.pop() {
        Some(t) => t,
        None => {
            proof {
                assert(false);
            }
            return JVal::Null;
        },
    };
    let e0 = obj3(
        "name",
        JVal::Str(crate::chars::str_to_chars(t0.name.as_str())),
        "description",
        JVal::Str(crate::chars::str_to_chars(t0.description.as_str())),
        "inputSchema",
        t0.input_schema,
    );
    let e1 = obj3(
        "name",
        JVal::Str(crate::chars::str_to_chars(t1.name.as_str())),
        "description",
        JVal::Str(crate::chars::str_to_chars(t1.description.as_str())),
        "inputSchema",
        t1.input_schema,
    );
    obj1("tools", arr2(e0, e1))
}

/// The `initialize` result: protocol version, capabilities, server identity.
pub open spec fn init_result_model() -> JModel {
    JModel::Obj(
        seq![
            (
                "capabilities"@,
                JModel::Obj(
                    seq![
                        (
                            "tools"@,
                            JModel::Obj(seq![("listChanged"@, JModel::Bool(true))]),
                        ),
                    ],
                ),
            ),
            ("protocolVersion"@, JModel::Str("2024-11-05"@)),
            (
                "serverInfo"@,
                JModel::Obj(
                    seq![
                        ("name"@, JModel::Str("git-summarizer"@)),
                        ("version"@, JModel::Str("0.1.0"@)),
                    ],
                ),
            ),
        ],
    )
}

/// Builds the `initialize` result payload.
pub fn init_result_payload() -> (v: JVal)
    ensures
        jm(v) == init_result_model(),
{
    obj3(
        "capabilities",
        obj1("tools", obj1("listChanged", JVal::Bool(true))),
        "protocolVersion",
        jstr("2024-11-05"),
        "serverInfo",
        obj2("name", jstr("git-summarizer"), "version", jstr("0.1.0")),
    )
}

/// A successful tool outcome: one text content item.
pub open spec fn tool_ok_model(text: Seq<char>) -> JModel {
    JModel::Obj(
        seq![
            (
                "content"@,
                JModel::Arr(
                    seq![
                        JModel::Obj(
                            seq![
                                ("text"@, JModel::Str(text)),
                                ("type"@, JModel::Str("text"@)),
                            ],
                        ),
                    ],
                ),
            ),
        ],
    )
}

/// A failed tool outcome: one text content item and the error mark.
pub open spec fn tool_err_model(text: Seq<char>) -> JModel {
    JModel::Obj(
        seq![
            (
                "content"@,
                JModel::Arr(
                    seq![
                        JModel::Obj(
                            seq![
                                ("text"@, JModel::Str(text)),
                                ("type"@, JModel::Str("text"@)),
                            ],
                        ),
                    ],
                ),
            ),
            ("isError"@, JModel::Bool(true)),
        ],
    )
}

/// Builds the payload for a successful tool outcome.
pub fn tool_ok_payload(text: &str) -> (v: JVal)
    ensures
        jm(v) == tool_ok_model(text@),
{
    obj1("content", crate::json::arr1(obj2("text", jstr(text), "type", jstr("text"))))
}

/// Builds the payload for a failed tool outcome.
pub fn tool_err_payload(text: &str) -> (v: JVal)
    ensures
        jm(v) == tool_err_model(text@),
{
    obj2(
        "content",
        crate::json::arr1(obj2("text", jstr(text), "type", jstr("text"))),
        "isError",
        JVal::Bool(true),
    )
}

} // verus!
