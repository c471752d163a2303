//! The agent's tools, offered to other programs over the Model Context Protocol.
//!
//! Only tools on an allowlist are offered. Without a relaxed policy the list may name only tools of a
//! preset that reads and computes.

use crate::json::{
    empty_object, get_member, json_array, json_bool, json_text, member_text, put_member,
};
#[allow(unused_imports)]
use crate::json::{json_view, member, text_in, JsonView};
#[allow(unused_imports)]
use crate::text::{
    blank, decimal, joined, text_before, text_before_irreflexive, text_before_total,
    text_before_transitive, text_opt, texts, trimmed,
};
use crate::text::{comes_before, is_blank, join, print_u64, same_text, trim};
use vstd::prelude::*;

verus! {

/// What the server may offer.
#[derive(Debug, Clone)]
pub struct McpServeConfig {
    /// Names of tools to offer
    pub allowed_tools: Vec<String>,
    /// Whether tools outside the preset may be offered
    pub relax_tool_policy: bool,
    /// How long a tool may run, in seconds
    pub tool_timeout_secs: u64,
}

impl Default for McpServeConfig {
    fn default() -> (r: Self)
        ensures
            r.allowed_tools@.len() == 0,
            !r.relax_tool_policy,
            r.tool_timeout_secs == 120,
    {
        McpServeConfig {
            allowed_tools: Vec::new(),
            relax_tool_policy: false,
            tool_timeout_secs: 120,
        }
    }
}

/// An error in words.
#[derive(Debug, Clone)]
pub struct McpServeError {
    /// The words
    pub message: String,
}

impl View for McpServeError {
    type V = Seq<char>;

    open spec fn view(&self) -> Seq<char> {
        self.message@
    }
}

/// The preset of tools that may be offered under the strict policy.
pub open spec fn safe_tools() -> Seq<Seq<char>> {
    seq![
        "memory_recall"@,
        "file_read"@,
        "calculator"@,
        "weather"@,
        "project_intel"@,
        "image_info"@,
        "glob_search"@,
        "content_search"@,
        "pdf_read"@,
    ]
}

/// The preset of tools that may be offered under the strict policy.
fn safe_without_relax() -> (r: Vec<String>)
    ensures
        texts(r@) == safe_tools(),
{
    let mut names: Vec<String> = Vec::new();
    names.push("memory_recall".to_string());
    names.push("file_read".to_string());
    names.push("calculator".to_string());
    names.push("weather".to_string());
    names.push("project_intel".to_string());
    names.push("image_info".to_string());
    names.push("glob_search".to_string());
    names.push("content_search".to_string());
    names.push("pdf_read".to_string());
    assert(texts(names@) =~= safe_tools());
    names
}

/// The tools that are offered when none is asked for.
pub open spec fn default_tools() -> Seq<Seq<char>> {
    seq!["memory_recall"@, "file_read"@]
}

/// The tools that are offered when none is asked for.
pub fn default_mcp_serve_tool_names() -> (r: Vec<String>)
    ensures
        texts(r@) == default_tools(),
{
    let mut names: Vec<String> = Vec::new();
    names.push("memory_recall".to_string());
    names.push("file_read".to_string());
    assert(texts(names@) =~= default_tools());
    names
}

/// A list in order, each text once.
pub open spec fn strictly_sorted(list: Seq<Seq<char>>) -> bool {
    forall|i: int, j: int|
        0 <= i < j < list.len() ==> text_before(#[trigger] list[i], #[trigger] list[j])
}

/// The names that a command line gives: without white space around them, and none that is white
/// space alone.
pub open spec fn given_names(arguments: Seq<Seq<char>>) -> Seq<Seq<char>>
    decreases arguments.len(),
{
    if arguments.len() == 0 {
        Seq::empty()
    } else if blank(arguments.last()) {
        given_names(arguments.drop_last())
    } else {
        given_names(arguments.drop_last()).push(trimmed(arguments.last()))
    }
}

/// The names that a configuration and a command line ask for.
pub open spec fn asked_for(cfg: McpServeConfig, cli: Seq<Seq<char>>) -> Seq<Seq<char>> {
    texts(cfg.allowed_tools@) + given_names(cli)
}

/// Puts a name into a list in order, unless it is there.
fn insert_name(list: &mut Vec<String>, name: String)
    requires
        strictly_sorted(texts(old(list)@)),
    ensures
        strictly_sorted(texts(final(list)@)),
        texts(final(list)@).to_set() == texts(old(list)@).to_set().insert(name@),
        final(list)@.len() > 0,
{
    let ghost before = texts(list@);
    let mut at: usize = 0;
    while at < list.len() && comes_before(list[at].as_str(), name.as_str())
        invariant
            list@ == old(list)@,
            before == texts(list@),
            at <= list@.len(),
            forall|k: int| 0 <= k < at ==> text_before(#[trigger] before[k], name@),
        ensures
            list@ == old(list)@,
            at <= list@.len(),
            forall|k: int| 0 <= k < at ==> text_before(#[trigger] before[k], name@),
            at < list@.len() ==> !text_before(before[at as int], name@),
        decreases list.len() - at,
    {
        at = at + 1;
    }
    if at < list.len() && same_text(list[at].as_str(), name.as_str()) {
        proof {
            assert(before[at as int] == name@);
            assert(before.contains(name@));
            assert(before.to_set().insert(name@) =~= before.to_set());
        }
        return;
    }
    let ghost text = name@;
    list.insert(at, name);
    let ghost after = texts(list@);
    proof {
        assert(after =~= before.insert(at as int, text));
        assert forall|k: int| at <= k < before.len() implies text_before(text, #[trigger] before[k]) by {
            text_before_total(before[at as int], text);
            if k > at {
                text_before_transitive(text, before[at as int], before[k]);
            }
        }
        assert forall|i: int, j: int| 0 <= i < j < after.len() implies text_before(
            #[trigger] after[i],
            #[trigger] after[j],
        ) by {
            if i < at {
                assert(after[i] == before[i]);
                if j == at {
                } else if j < at {
                    assert(after[j] == before[j]);
                } else {
                    assert(after[j] == before[j - 1]);
                }
            } else if i == at {
                assert(after[j] == before[j - 1]);
            } else {
                assert(after[i] == before[i - 1]);
                assert(after[j] == before[j - 1]);
            }
        }
        assert(after.to_set() =~= before.to_set().insert(text)) by {
            assert forall|t: Seq<char>| after.to_set().contains(t) <==> #[trigger] before.to_set().insert(
                text,
            ).contains(t) by {
                if after.contains(t) {
                    let i = choose|i: int| 0 <= i < after.len() && after[i] == t;
                    if i < at {
                        assert(before[i] == t);
                    } else if i > at {
                        assert(before[i - 1] == t);
                    }
                }
                if before.contains(t) {
                    let i = choose|i: int| 0 <= i < before.len() && before[i] == t;
                    if i < at {
                        assert(after[i] == t);
                    } else {
                        assert(after[i + 1] == t);
                    }
                }
                assert(after[at as int] == text);
            }
        }
    }
}

/// Merges the names of a configuration with those of a command line: in order, each once. If there
/// are none, the default names.
pub fn merge_mcp_serve_allowlist(cfg: &McpServeConfig, cli: &[String]) -> (r: Vec<String>)
    ensures
        asked_for(*cfg, texts(cli@)).len() == 0 ==> texts(r@) == default_tools(),
        asked_for(*cfg, texts(cli@)).len() > 0 ==> {
            &&& strictly_sorted(texts(r@))
            &&& texts(r@).to_set() == asked_for(*cfg, texts(cli@)).to_set()
        },
{
    let mut names: Vec<String> = Vec::new();
    let ghost configured = texts(cfg.allowed_tools@);
    let ghost arguments = texts(cli@);
    proof {
        assert(texts(names@) =~= Seq::empty());
        assert(configured.take(0) =~= Seq::empty());
        assert(texts(names@).to_set() =~= configured.take(0).to_set());
    }
    for i in 0..cfg.allowed_tools.len()
        invariant
            configured == texts(cfg.allowed_tools@),
            strictly_sorted(texts(names@)),
            texts(names@).to_set() == configured.take(i as int).to_set(),
            names@.len() == 0 <==> i == 0,
    {
        proof {
            assert(configured.take(i + 1) =~= configured.take(i as int).push(configured[i as int]));
            set_of_pushed(configured.take(i as int), configured[i as int]);
        }
        insert_name(&mut names, cfg.allowed_tools[i].clone());
    }
    assert(configured.take(configured.len() as int) =~= configured);
    assert(arguments.take(0) =~= Seq::empty());
    assert(configured + given_names(arguments.take(0)) =~= configured);
    for i in 0..cli.len()
        invariant
            arguments == texts(cli@),
            configured == texts(cfg.allowed_tools@),
            strictly_sorted(texts(names@)),
            texts(names@).to_set() == (configured + given_names(arguments.take(i as int))).to_set(),
            names@.len() == 0 <==> (configured + given_names(arguments.take(i as int))).len() == 0,
    {
        assert(arguments.take(i + 1).drop_last() =~= arguments.take(i as int));
        assert(arguments.take(i + 1).last() == cli@[i as int]@);
        if !is_blank(cli[i].as_str()) {
            let name = trim(cli[i].as_str());
            proof {
                let so_far = configured + given_names(arguments.take(i as int));
                assert(configured + given_names(arguments.take(i + 1)) =~= so_far.push(name@));
                set_of_pushed(so_far, name@);
            }
            insert_name(&mut names, name);
        }
    }
    assert(arguments.take(arguments.len() as int) =~= arguments);
    if names.len() == 0 {
        return default_mcp_serve_tool_names();
    }
    names
}

proof fn set_of_pushed(s: Seq<Seq<char>>, x: Seq<char>)
    ensures
        s.push(x).to_set() == s.to_set().insert(x),
{
    assert forall|t: Seq<char>| s.push(x).to_set().contains(t) <==> #[trigger] s.to_set().insert(
        x,
    ).contains(t) by {
        if s.contains(t) {
            let i = choose|i: int| 0 <= i < s.len() && s[i] == t;
            assert(s.push(x)[i] == t);
        }
        if s.push(x).contains(t) {
            let i = choose|i: int| 0 <= i < s.push(x).len() && s.push(x)[i] == t;
            if i < s.len() {
                assert(s[i] == t);
            }
        }
        assert(s.push(x)[s.len() as int] == x);
    }
    assert(s.push(x).to_set() =~= s.to_set().insert(x));
}

/// Two lists in order with the same texts are the same: which names are asked for settles the
/// merged list, whatever their order and however often they come.
pub proof fn sorted_lists_are_unique(a: Seq<Seq<char>>, b: Seq<Seq<char>>)
    requires
        strictly_sorted(a),
        strictly_sorted(b),
        a.to_set() == b.to_set(),
    ensures
        a == b,
    decreases a.len(),
{
    if a.len() == 0 {
        if b.len() > 0 {
            assert(b.to_set().contains(b[0]));
            assert(a.to_set().contains(b[0]));
        }
        assert(a =~= b);
    } else {
        assert(a.to_set().contains(a.last()));
        assert(b.contains(a.last()));
        let j = choose|j: int| 0 <= j < b.len() && b[j] == a.last();
        assert(b.to_set().contains(b.last()));
        assert(a.contains(b.last()));
        let i = choose|i: int| 0 <= i < a.len() && a[i] == b.last();
        if j < b.len() - 1 {
            assert(text_before(b[j], b[b.len() - 1]));
            if i < a.len() - 1 {
                assert(text_before(a[i], a[a.len() - 1]));
                text_before_transitive(a.last(), b.last(), a.last());
            }
            text_before_irreflexive(a.last());
            assert(false);
        }
        let x = a.last();
        assert(a.last() == b.last());
        assert(a.drop_last().to_set() =~= a.to_set().remove(x)) by {
            last_is_once(a);
        }
        assert(b.drop_last().to_set() =~= b.to_set().remove(x)) by {
            last_is_once(b);
        }
        assert(strictly_sorted(a.drop_last()));
        assert(strictly_sorted(b.drop_last()));
        sorted_lists_are_unique(a.drop_last(), b.drop_last());
        assert(a =~= a.drop_last().push(x));
        assert(b =~= b.drop_last().push(x));
    }
}

proof fn last_is_once(s: Seq<Seq<char>>)
    requires
        s.len() > 0,
        strictly_sorted(s),
    ensures
        forall|t: Seq<char>|
            #[trigger] s.drop_last().to_set().contains(t) <==> s.to_set().remove(s.last()).contains(
                t,
            ),
{
    assert forall|t: Seq<char>| #[trigger] s.drop_last().to_set().contains(t) <==> s.to_set().remove(
        s.last(),
    ).contains(t) by {
        if s.drop_last().contains(t) {
            let i = choose|i: int| 0 <= i < s.drop_last().len() && s.drop_last()[i] == t;
            assert(s[i] == t);
            assert(text_before(s[i], s[s.len() - 1]));
            if t == s.last() {
                text_before_irreflexive(t);
            }
        }
        if s.contains(t) && t != s.last() {
            let i = choose|i: int| 0 <= i < s.len() && s[i] == t;
            assert(s.drop_last()[i] == t);
        }
    }
}

/// The words that refuse a name.
pub open spec fn not_safe_words(name: Seq<char>) -> Seq<char> {
    "mcp_serve: tool `"@ + name
        + "` is not in the safe preset. Add `[mcp_serve].relax_tool_policy = true` after reviewing risk, or use only: "@
        + joined(safe_tools(), ", "@)
}

/// Where the first name stands in a list that is not in the preset.
pub open spec fn first_unsafe(names: Seq<Seq<char>>) -> Option<int>
    decreases names.len(),
{
    if names.len() == 0 {
        None
    } else {
        match first_unsafe(names.drop_last()) {
            Some(i) => Some(i),
            None => if safe_tools().contains(names.last()) {
                None
            } else {
                Some(names.len() - 1)
            },
        }
    }
}

/// Checks an allowlist. Under the strict policy the first name outside the preset is refused.
pub fn validate_mcp_serve_allowlist(names: &[String], relax: bool) -> (r: Result<(), McpServeError>)
    ensures
        match first_unsafe(texts(names@)) {
            Some(i) => if relax {
                r is Ok
            } else {
                r matches Err(e) && e@ == not_safe_words(texts(names@)[i])
            },
            None => r is Ok,
        },
{
    if relax {
        return Ok(());
    }
    let safe = safe_without_relax();
    let ghost list = texts(names@);
    for i in 0..names.len()
        invariant
            !relax,
            list == texts(names@),
            texts(safe@) == safe_tools(),
            first_unsafe(list.take(i as int)) is None,
    {
        assert(list.take(i + 1).drop_last() =~= list.take(i as int));
        assert(list.take(i + 1).last() == names@[i as int]@);
        if !has_name(&safe, names[i].as_str()) {
            let mut message = "mcp_serve: tool `".to_string();
            message.append(names[i].as_str());
            message.append(
                "` is not in the safe preset. Add `[mcp_serve].relax_tool_policy = true` after reviewing risk, or use only: ",
            );
            message.append(join(&safe, ", ").as_str());
            proof {
                first_unsafe_stays(list, i + 1);
            }
            return Err(McpServeError { message });
        }
    }
    assert(list.take(list.len() as int) =~= list);
    Ok(())
}

proof fn first_unsafe_stays(list: Seq<Seq<char>>, n: int)
    requires
        0 <= n <= list.len(),
        first_unsafe(list.take(n)) is Some,
    ensures
        first_unsafe(list) == first_unsafe(list.take(n)),
    decreases list.len(),
{
    if n < list.len() {
        assert(list.drop_last().take(n) =~= list.take(n));
        first_unsafe_stays(list.drop_last(), n);
    } else {
        assert(list.take(n) =~= list);
    }
}

/// A list passes the strict policy exactly when all its names are in the preset.
pub proof fn strict_policy_allows_the_preset(names: Seq<Seq<char>>)
    ensures
        first_unsafe(names) is None <==> forall|i: int|
            0 <= i < names.len() ==> safe_tools().contains(#[trigger] names[i]),
    decreases names.len(),
{
    if names.len() > 0 {
        let front = names.drop_last();
        strict_policy_allows_the_preset(front);
        if first_unsafe(front) is None {
            assert forall|i: int| 0 <= i < front.len() implies safe_tools().contains(
                #[trigger] names[i],
            ) by {
                assert(front[i] == names[i]);
            }
        } else {
            let i = choose|i: int| 0 <= i < front.len() && !safe_tools().contains(front[i]);
            assert(!safe_tools().contains(names[i]));
        }
    }
}

/// The default names pass the strict policy.
pub proof fn default_tools_are_safe()
    ensures
        first_unsafe(default_tools()) is None,
{
    assert(safe_tools()[0] == default_tools()[0]);
    assert(safe_tools()[1] == default_tools()[1]);
    strict_policy_allows_the_preset(default_tools());
}

/// Whether a list holds a name.
fn has_name(list: &Vec<String>, name: &str) -> (r: bool)
    ensures
        r == texts(list@).contains(name@),
{
    for i in 0..list.len()
        invariant
            forall|j: int| 0 <= j < i ==> texts(list@)[j] != name@,
    {
        if same_text(list[i].as_str(), name) {
            assert(texts(list@)[i as int] == name@);
            return true;
        }
    }
    false
}

/// What a tool says about itself.
#[derive(Debug, Clone)]
pub struct ToolSpec {
    pub name: String,
    pub description: String,
    /// Schema of the arguments
    pub parameters: serde_json::Value,
}

/// A tool as the protocol describes it.
#[derive(Debug, Clone)]
pub struct McpToolDef {
    pub name: String,
    pub description: Option<String>,
    pub input_schema: serde_json::Value,
}

/// Describes a tool.
pub fn tool_to_mcp_def(spec: &ToolSpec) -> (r: McpToolDef)
    ensures
        r.name@ == spec.name@,
        text_opt(r.description) == Some(spec.description@),
        json_view(r.input_schema) == json_view(spec.parameters),
{
    McpToolDef {
        name: spec.name.clone(),
        description: Some(spec.description.clone()),
        input_schema: spec.parameters.clone(),
    }
}

/// A tool's description in JSON.
pub open spec fn definition_json(spec: ToolSpec) -> JsonView {
    JsonView::Object(
        map![
            "name"@ => JsonView::Text(spec.name@),
            "description"@ => JsonView::Text(spec.description@),
            "inputSchema"@ => json_view(spec.parameters),
        ],
    )
}

/// An object with one member.
fn object1(key: &str, value: serde_json::Value) -> (r: serde_json::Value)
    ensures
        json_view(r) == JsonView::Object(map![key@ => json_view(value)]),
{
    let mut object = empty_object();
    put_member(&mut object, key, value);
    object
}

/// An object with two members.
fn object2(
    key: &str,
    value: serde_json::Value,
    key2: &str,
    value2: serde_json::Value,
) -> (r: serde_json::Value)
    ensures
        json_view(r) == JsonView::Object(map![key@ => json_view(value), key2@ => json_view(value2)]),
{
    let mut object = object1(key, value);
    put_member(&mut object, key2, value2);
    object
}

/// A tool's description in JSON.
fn definition(spec: &ToolSpec) -> (r: serde_json::Value)
    ensures
        json_view(r) == definition_json(*spec),
{
    let def = tool_to_mcp_def(spec);
    let description = match def.description {
        Some(text) => json_text(text),
        None => json_text(String::new()),
    };
    let mut object = object2("name", json_text(def.name), "description", description);
    put_member(&mut object, "inputSchema", def.input_schema);
    object
}

/// What a call of a tool gave, in JSON.
pub open spec fn result_json(text: Seq<char>, is_error: bool) -> JsonView {
    JsonView::Object(
        map![
            "content"@ => JsonView::Array(
                seq![
                    JsonView::Object(
                        map!["type"@ => JsonView::Text("text"@), "text"@ => JsonView::Text(text)],
                    ),
                ],
            ),
            "isError"@ => JsonView::Bool(is_error),
        ],
    )
}

/// What a call of a tool gave, in JSON.
pub fn call_tool_result_json(text: &str, is_error: bool) -> (r: serde_json::Value)
    ensures
        json_view(r) == result_json(text@, is_error),
{
    let part = object2(
        "type",
        json_text("text".to_string()),
        "text",
        json_text(text.to_string()),
    );
    let mut parts: Vec<serde_json::Value> = Vec::new();
    parts.push(part);
    assert(parts@.map_values(|v: serde_json::Value| json_view(v)) =~= seq![json_view(part)]);
    object2("content", json_array(parts), "isError", json_bool(is_error))
}

/// Error code: the request is no JSON.
pub const PARSE_ERROR: i32 = -32700;

/// Error code: the method does not exist.
pub const METHOD_NOT_FOUND: i32 = -32601;

/// Error code: the arguments are no good.
pub const INVALID_PARAMS: i32 = -32602;

/// An error of a JSON-RPC call.
#[derive(Debug, Clone)]
pub struct JsonRpcError {
    pub code: i32,
    pub message: String,
    pub data: Option<serde_json::Value>,
}

/// The answer to a JSON-RPC call.
#[derive(Debug, Clone)]
pub struct JsonRpcResponse {
    pub jsonrpc: String,
    pub id: Option<serde_json::Value>,
    pub result: Option<serde_json::Value>,
    pub error: Option<JsonRpcError>,
}

/// What an answer says.
pub enum ReplyView {
    Result(JsonView),
    Error(int, Seq<char>),
}

/// An optional value.
pub open spec fn json_opt(v: Option<serde_json::Value>) -> Option<JsonView> {
    match v {
        Some(json) => Some(json_view(json)),
        None => None,
    }
}

/// An answer that says this to the call with this identifier.
pub open spec fn answers(r: JsonRpcResponse, id: Option<JsonView>, reply: ReplyView) -> bool {
    &&& r.jsonrpc@ == "2.0"@
    &&& json_opt(r.id) == id
    &&& match reply {
        ReplyView::Result(v) => json_opt(r.result) == Some(v) && r.error is None,
        ReplyView::Error(code, message) => r.result is None && (r.error matches Some(e) && {
            &&& e.code == code
            &&& e.message@ == message
            &&& e.data is None
        }),
    }
}

/// The answer to a call that succeeded.
pub fn response_ok(id: Option<serde_json::Value>, result: serde_json::Value) -> (r: JsonRpcResponse)
    ensures
        answers(r, json_opt(id), ReplyView::Result(json_view(result))),
{
    JsonRpcResponse { jsonrpc: "2.0".to_string(), id, result: Some(result), error: None }
}

/// The answer to a call that failed.
pub fn response_err(id: Option<serde_json::Value>, code: i32, message: &str) -> (r: JsonRpcResponse)
    ensures
        answers(r, json_opt(id), ReplyView::Error(code as int, message@)),
{
    JsonRpcResponse {
        jsonrpc: "2.0".to_string(),
        id,
        result: None,
        error: Some(JsonRpcError { code, message: message.to_string(), data: None }),
    }
}

/// A tool that could be offered.
#[derive(Debug, Clone)]
pub struct RegisteredTool {
    pub name: String,
    pub spec: ToolSpec,
    /// Where the tool itself is kept
    pub slot: usize,
}

/// The names of tools.
pub open spec fn tool_names(tools: Seq<RegisteredTool>) -> Seq<Seq<char>> {
    tools.map_values(|t: RegisteredTool| t.name@)
}

/// The tools to offer, and those that are left: for each name in turn the first tool of that name
/// among those left is taken, and the last one left takes its place. A name without a tool is
/// skipped.
pub open spec fn exposing(registry: Seq<RegisteredTool>, names: Seq<Seq<char>>) -> (
    Seq<RegisteredTool>,
    Seq<RegisteredTool>,
)
    decreases names.len(),
{
    if names.len() == 0 {
        (Seq::empty(), registry)
    } else {
        let (exposed, left) = exposing(registry, names.drop_last());
        match tool_names(left).index_of_first(names.last()) {
            Some(i) => (exposed.push(left[i]), left.update(i, left.last()).drop_last()),
            None => (exposed, left),
        }
    }
}

/// Where the first tool with a name stands.
fn tool_position(tools: &Vec<RegisteredTool>, name: &str) -> (r: Option<usize>)
    ensures
        match tool_names(tools@).index_of_first(name@) {
            Some(i) => r matches Some(n) && n == i && n < tools@.len() && tools@[i].name@ == name@,
            None => r is None,
        },
{
    let ghost names = tool_names(tools@);
    proof {
        names.index_of_first_ensures(name@);
    }
    for i in 0..tools.len()
        invariant
            names == tool_names(tools@),
            forall|j: int| 0 <= j < i ==> names[j] != name@,
            match names.index_of_first(name@) {
                Some(k) => 0 <= k < names.len() && names[k] == name@ && forall|j: int|
                    0 <= j < k ==> names[j] != name@,
                None => forall|j: int| 0 <= j < names.len() ==> names[j] != name@,
            },
    {
        assert(names[i as int] == tools@[i as int].name@);
        if same_text(tools[i].name.as_str(), name) {
            return Some(i);
        }
    }
    None
}

/// Picks the tools to offer.
pub fn expose_tools(registry: Vec<RegisteredTool>, names: &Vec<String>) -> (r: Vec<RegisteredTool>)
    ensures
        r@ == exposing(registry@, texts(names@)).0,
{
    let mut left = registry;
    let mut exposed: Vec<RegisteredTool> = Vec::new();
    let ghost wanted = texts(names@);
    for i in 0..names.len()
        invariant
            wanted == texts(names@),
            (exposed@, left@) == exposing(registry@, wanted.take(i as int)),
    {
        assert(wanted.take(i + 1).drop_last() =~= wanted.take(i as int));
        assert(wanted.take(i + 1).last() == names@[i as int]@);
        if let Some(at) = tool_position(&left, names[i].as_str()) {
            exposed.push(left.swap_remove(at));
        }
    }
    assert(wanted.take(wanted.len() as int) =~= wanted);
    exposed
}

proof fn exposing_steps(registry: Seq<RegisteredTool>, names: Seq<Seq<char>>)
    ensures
        forall|i: int|
            0 <= i < exposing(registry, names).0.len() ==> {
                &&& names.contains((#[trigger] exposing(registry, names).0[i]).name@)
                &&& registry.contains(exposing(registry, names).0[i])
            },
        forall|i: int|
            0 <= i < exposing(registry, names).1.len() ==> registry.contains(
                #[trigger] exposing(registry, names).1[i],
            ),
        forall|t: RegisteredTool| #[trigger]
            registry.contains(t) && !names.contains(t.name@) ==> exposing(
                registry,
                names,
            ).1.contains(t),
        forall|n: Seq<char>| #[trigger]
            names.contains(n) && tool_names(registry).contains(n) ==> tool_names(
                exposing(registry, names).0,
            ).contains(n),
    decreases names.len(),
{
    if names.len() > 0 {
        let before = names.drop_last();
        let want = names.last();
        exposing_steps(registry, before);
        let (exposed, left) = exposing(registry, before);
        let (exposed2, left2) = exposing(registry, names);
        tool_names(left).index_of_first_ensures(want);
        assert(names.contains(want)) by {
            assert(names[names.len() - 1] == want);
        }
        assert forall|n: Seq<char>| before.contains(n) implies names.contains(n) by {
            let i = choose|i: int| 0 <= i < before.len() && before[i] == n;
            assert(names[i] == n);
        }
        assert forall|n: Seq<char>| names.contains(n) && n != want implies before.contains(n) by {
            let i = choose|i: int| 0 <= i < names.len() && names[i] == n;
            assert(before[i] == n);
        }
        assert forall|i: int| 0 <= i < exposed2.len() implies names.contains(
            (#[trigger] exposed2[i]).name@,
        ) && registry.contains(exposed2[i]) by {
            if i < exposed.len() {
                assert(exposed2[i] == exposed[i]);
            }
        }
        assert forall|i: int| 0 <= i < left2.len() implies registry.contains(
            #[trigger] left2[i],
        ) by {
            let j = choose|j: int| 0 <= j < left.len() && left[j] == left2[i];
            assert(exists|j: int| 0 <= j < left.len() && left[j] == left2[i]) by {
                match tool_names(left).index_of_first(want) {
                    Some(p) => {
                        if i == p {
                            assert(left[left.len() - 1] == left2[i]);
                        } else {
                            assert(left[i] == left2[i]);
                        }
                    },
                    None => {
                        assert(left[i] == left2[i]);
                    },
                }
            }
        }
        assert forall|t: RegisteredTool| #[trigger]
            registry.contains(t) && !names.contains(t.name@) implies left2.contains(t) by {
            assert(left.contains(t));
            let j = choose|j: int| 0 <= j < left.len() && left[j] == t;
            match tool_names(left).index_of_first(want) {
                Some(p) => {
                    assert(tool_names(left)[p] == want);
                    assert(left[p].name@ == want);
                    if j == left.len() - 1 {
                        assert(left2[p] == t);
                    } else {
                        assert(left2[j] == t);
                    }
                },
                None => {
                    assert(left2[j] == t);
                },
            }
        }
        assert forall|n: Seq<char>| #[trigger]
            names.contains(n) && tool_names(registry).contains(n) implies tool_names(
            exposed2,
        ).contains(n) by {
            if before.contains(n) {
                assert(tool_names(exposed).contains(n));
                let i = choose|i: int|
                    0 <= i < tool_names(exposed).len() && tool_names(exposed)[i] == n;
                assert(tool_names(exposed2)[i] == n);
            } else {
                let i = choose|i: int|
                    0 <= i < tool_names(registry).len() && tool_names(registry)[i] == n;
                let t = registry[i];
                assert(registry.contains(t));
                assert(left.contains(t));
                let j = choose|j: int| 0 <= j < left.len() && left[j] == t;
                assert(tool_names(left)[j] == n);
                assert(tool_names(left).contains(n));
                let p = tool_names(left).index_of_first(want)->0;
                assert(tool_names(left)[p] == want);
                assert(exposed2 == exposed.push(left[p]));
                assert(tool_names(exposed2)[exposed.len() as int] == want);
            }
        }
    }
}

/// The tools that are offered are those in the registry that the list names: each has a name on the
/// list, and each name on the list that the registry knows has a tool.
pub proof fn offered_tools_match_the_list(registry: Seq<RegisteredTool>, names: Seq<Seq<char>>)
    ensures
        forall|i: int|
            0 <= i < exposing(registry, names).0.len() ==> {
                &&& names.contains((#[trigger] exposing(registry, names).0[i]).name@)
                &&& registry.contains(exposing(registry, names).0[i])
            },
        forall|n: Seq<char>| #[trigger]
            names.contains(n) && tool_names(registry).contains(n) ==> tool_names(
                exposing(registry, names).0,
            ).contains(n),
{
    exposing_steps(registry, names);
}

/// A merged list of names: what merging a configuration with a command line gives.
pub open spec fn is_merged(names: Seq<Seq<char>>, cfg: McpServeConfig, cli: Seq<Seq<char>>) -> bool {
    if asked_for(cfg, cli).len() == 0 {
        names == default_tools()
    } else {
        strictly_sorted(names) && names.to_set() == asked_for(cfg, cli).to_set()
    }
}

/// There is one merged list at most.
pub proof fn merged_list_is_unique(
    a: Seq<Seq<char>>,
    b: Seq<Seq<char>>,
    cfg: McpServeConfig,
    cli: Seq<Seq<char>>,
)
    requires
        is_merged(a, cfg, cli),
        is_merged(b, cfg, cli),
    ensures
        a == b,
{
    if asked_for(cfg, cli).len() > 0 {
        sorted_lists_are_unique(a, b);
    }
}

/// A list that the policy lets through.
pub open spec fn policy_allows(relax: bool, names: Seq<Seq<char>>) -> bool {
    relax || first_unsafe(names) is None
}

/// The words for a server without tools.
pub open spec fn no_tools_words() -> Seq<char> {
    "mcp serve: no tools matched the allowlist (check tool names against `zeroclaw` registry)"@
}

/// A server that offers tools.
#[derive(Debug)]
pub struct McpServer {
    names: Vec<String>,
    exposed: Vec<RegisteredTool>,
    relax: bool,
    timeout_secs: u64,
    version: String,
}

/// What a server knows.
#[verifier::ext_equal]
pub struct ServerView {
    /// The allowlist
    pub names: Seq<Seq<char>>,
    /// The tools that are offered
    pub tools: Seq<RegisteredTool>,
    /// Whether the policy is relaxed
    pub relax: bool,
    /// How long a tool may run, in seconds
    pub timeout_secs: u64,
    /// The agent's version
    pub version: Seq<char>,
}

impl View for McpServer {
    type V = ServerView;

    closed spec fn view(&self) -> ServerView {
        ServerView {
            names: texts(self.names@),
            tools: self.exposed@,
            relax: self.relax,
            timeout_secs: self.timeout_secs,
            version: self.version@,
        }
    }
}

/// What every server keeps: its policy lets its list through, every tool that it offers has a name
/// on the list, and tools may run for a second at least.
pub open spec fn server_wf(server: ServerView) -> bool {
    &&& policy_allows(server.relax, server.names)
    &&& forall|i: int|
        0 <= i < server.tools.len() ==> server.names.contains((#[trigger] server.tools[i]).name@)
    &&& server.timeout_secs >= 1
}

/// A request.
#[derive(Debug, Clone)]
pub struct InboundRpc {
    pub jsonrpc: String,
    pub id: Option<serde_json::Value>,
    pub method: String,
    pub params: Option<serde_json::Value>,
}

/// A tool to run.
#[derive(Debug, Clone)]
pub struct ToolCall {
    pub id: Option<serde_json::Value>,
    /// Where the tool is kept
    pub slot: usize,
    pub name: String,
    pub arguments: serde_json::Value,
}

/// What to do about a request.
#[derive(Debug, Clone)]
pub enum McpAction {
    /// Nothing
    Ignore,
    /// Send this answer
    Reply(JsonRpcResponse),
    /// Run a tool
    Run(ToolCall),
}

/// What is decided about a request.
pub enum Decision {
    Ignore,
    Reply(ReplyView),
    /// The place of the tool to run among those that are offered
    Run(int),
}

/// The name in the arguments of a call, empty where there is none.
pub open spec fn called_name(params: JsonView) -> Seq<char> {
    match text_in(member(params, "name"@)) {
        Some(name) => name,
        None => Seq::empty(),
    }
}

/// The arguments for the tool in those of a call, empty where there are none.
pub open spec fn called_arguments(params: JsonView) -> JsonView {
    match member(params, "arguments"@) {
        Some(v) => v,
        None => JsonView::Object(Map::empty()),
    }
}

/// What a server tells about itself.
pub open spec fn introduction(version: Seq<char>) -> JsonView {
    JsonView::Object(
        map![
            "protocolVersion"@ => JsonView::Text("2024-11-05"@),
            "capabilities"@ => JsonView::Object(
                map!["tools"@ => JsonView::Object(Map::empty())],
            ),
            "serverInfo"@ => JsonView::Object(
                map!["name"@ => JsonView::Text("zeroclaw"@), "version"@ => JsonView::Text(version)],
            ),
        ],
    )
}

/// The tools that a server offers, in JSON.
pub open spec fn tool_list(tools: Seq<RegisteredTool>) -> JsonView {
    JsonView::Object(
        map![
            "tools"@ => JsonView::Array(
                tools.map_values(|t: RegisteredTool| definition_json(t.spec)),
            ),
        ],
    )
}

/// What is decided about a call of a tool. It must name a tool that is on the list and offered.
pub open spec fn decide_call(server: ServerView, params: Option<JsonView>) -> Decision {
    match params {
        None => Decision::Reply(ReplyView::Error(INVALID_PARAMS as int, "missing params"@)),
        Some(p) => {
            let name = called_name(p);
            if name.len() == 0 {
                Decision::Reply(
                    ReplyView::Error(INVALID_PARAMS as int, "tools/call requires name"@),
                )
            } else if !server.names.contains(name) {
                Decision::Reply(
                    ReplyView::Error(
                        INVALID_PARAMS as int,
                        "tool `"@ + name + "` is not on the mcp_serve allowlist"@,
                    ),
                )
            } else {
                match tool_names(server.tools).index_of_first(name) {
                    Some(i) => Decision::Run(i),
                    None => Decision::Reply(
                        ReplyView::Error(
                            INVALID_PARAMS as int,
                            "tool `"@ + name + "` not available"@,
                        ),
                    ),
                }
            }
        },
    }
}

/// What is decided about a request.
pub open spec fn decide(
    server: ServerView,
    method: Seq<char>,
    params: Option<JsonView>,
) -> Decision {
    if method == "initialize"@ {
        Decision::Reply(ReplyView::Result(introduction(server.version)))
    } else if method == "notifications/initialized"@ {
        Decision::Ignore
    } else if method == "tools/list"@ {
        Decision::Reply(ReplyView::Result(tool_list(server.tools)))
    } else if method == "tools/call"@ {
        decide_call(server, params)
    } else if method == "ping"@ {
        Decision::Reply(ReplyView::Result(JsonView::Object(Map::empty())))
    } else {
        Decision::Reply(
            ReplyView::Error(METHOD_NOT_FOUND as int, "method not found: "@ + method),
        )
    }
}

/// A tool runs only if it is on the list, and under the strict policy only if it is in the preset.
pub proof fn only_allowed_tools_run(server: ServerView, method: Seq<char>, params: Option<JsonView>)
    requires
        server_wf(server),
        decide(server, method, params) is Run,
    ensures
        ({
            let i = decide(server, method, params)->Run_0;
            &&& 0 <= i < server.tools.len()
            &&& params matches Some(p) && server.tools[i].name@ == called_name(p)
            &&& server.names.contains(server.tools[i].name@)
            &&& server.relax || safe_tools().contains(server.tools[i].name@)
        }),
{
    let name = called_name(params->0);
    tool_names(server.tools).index_of_first_ensures(name);
    let i = decide(server, method, params)->Run_0;
    assert(tool_names(server.tools)[i] == server.tools[i].name@);
    if !server.relax {
        strict_policy_allows_the_preset(server.names);
        let k = choose|k: int| 0 <= k < server.names.len() && server.names[k] == name;
        assert(safe_tools().contains(server.names[k]));
    }
}

/// A tool that is not on the list does not run, whether it is offered or not.
pub proof fn other_tools_are_refused(server: ServerView, params: JsonView)
    requires
        called_name(params).len() > 0,
        !server.names.contains(called_name(params)),
    ensures
        decide(server, "tools/call"@, Some(params)) == Decision::Reply(
            ReplyView::Error(
                INVALID_PARAMS as int,
                "tool `"@ + called_name(params) + "` is not on the mcp_serve allowlist"@,
            ),
        ),
{
    reveal_strlit("initialize");
    reveal_strlit("notifications/initialized");
    reveal_strlit("tools/list");
    reveal_strlit("tools/call");
    assert("tools/list"@[6] == 'l' && "tools/call"@[6] == 'c');
    assert("initialize"@[0] == 'i' && "tools/call"@[0] == 't');
}

/// What came of running a tool.
#[derive(Debug, Clone)]
pub enum ToolOutcome {
    /// The tool ended by itself
    Done { success: bool, output: String, error: Option<String> },
    /// It could not run, for this reason
    Failed(String),
    /// It ran for too long
    TimedOut,
}

/// What is answered about a tool that ran: its output, or what went wrong.
pub open spec fn outcome_json(name: Seq<char>, timeout_secs: u64, outcome: ToolOutcome) -> JsonView {
    match outcome {
        ToolOutcome::Done { success, output, error } => if success {
            result_json(output@, false)
        } else {
            result_json(
                match error {
                    Some(e) => e@,
                    None => output@,
                },
                true,
            )
        },
        ToolOutcome::Failed(reason) => result_json("execution error: "@ + reason@, true),
        ToolOutcome::TimedOut => result_json(
            "tool `"@ + name + "` timed out after "@ + decimal(timeout_secs as nat) + "s"@,
            true,
        ),
    }
}

impl McpServer {
    /// Starts a server on the tools of a registry. The list must pass the policy, and name a tool of
    /// the registry at least.
    pub fn start(
        cfg: &McpServeConfig,
        cli: &[String],
        registry: Vec<RegisteredTool>,
        version: String,
    ) -> (r: Result<McpServer, McpServeError>)
        ensures
            match r {
                Ok(server) => {
                    &&& server_wf(server@)
                    &&& is_merged(server@.names, *cfg, texts(cli@))
                    &&& policy_allows(cfg.relax_tool_policy, server@.names)
                    &&& server@.relax == cfg.relax_tool_policy
                    &&& server@.tools == exposing(registry@, server@.names).0
                    &&& server@.tools.len() > 0
                    &&& server@.timeout_secs == (if cfg.tool_timeout_secs >= 1 {
                        cfg.tool_timeout_secs
                    } else {
                        1
                    })
                    &&& server@.version == version@
                },
                Err(e) => exists|names: Seq<Seq<char>>| #[trigger]
                    is_merged(names, *cfg, texts(cli@)) && {
                        ||| !cfg.relax_tool_policy && (first_unsafe(names) matches Some(i) && e@
                            == not_safe_words(names[i]))
                        ||| policy_allows(cfg.relax_tool_policy, names) && exposing(
                            registry@,
                            names,
                        ).0.len() == 0 && e@ == no_tools_words()
                    },
            },
    {
        let names = merge_mcp_serve_allowlist(cfg, cli);
        assert(is_merged(texts(names@), *cfg, texts(cli@)));
        if let Err(e) = validate_mcp_serve_allowlist(names.as_slice(), cfg.relax_tool_policy) {
            return Err(e);
        }
        let exposed = expose_tools(registry, &names);
        if exposed.len() == 0 {
            return Err(
                McpServeError {
                    message:
                        "mcp serve: no tools matched the allowlist (check tool names against `zeroclaw` registry)".to_string(),
                },
            );
        }
        proof {
            offered_tools_match_the_list(registry@, texts(names@));
        }
        let timeout_secs: u64 = if cfg.tool_timeout_secs >= 1 {
            cfg.tool_timeout_secs
        } else {
            1
        };
        Ok(McpServer { names, exposed, relax: cfg.relax_tool_policy, timeout_secs, version })
    }

    /// How long a tool may run, in seconds.
    pub fn timeout_secs(&self) -> (r: u64)
        ensures
            r == self@.timeout_secs,
    {
        self.timeout_secs
    }

    /// Decides about a request.
    pub fn dispatch(&self, req: InboundRpc) -> (r: McpAction)
        ensures
            match decide(self@, req.method@, json_opt(req.params)) {
                Decision::Ignore => r is Ignore,
                Decision::Reply(reply) => r matches McpAction::Reply(resp) && answers(
                    resp,
                    json_opt(req.id),
                    reply,
                ),
                Decision::Run(i) => r matches McpAction::Run(call) && {
                    &&& call.slot == self@.tools[i].slot
                    &&& call.name@ == called_name(json_opt(req.params)->0)
                    &&& json_opt(call.id) == json_opt(req.id)
                    &&& json_view(call.arguments) == called_arguments(json_opt(req.params)->0)
                },
            },
    {
        let method = req.method.as_str();
        if same_text(method, "initialize") {
            McpAction::Reply(response_ok(req.id, self.introduce()))
        } else if same_text(method, "notifications/initialized") {
            McpAction::Ignore
        } else if same_text(method, "tools/list") {
            McpAction::Reply(response_ok(req.id, self.list()))
        } else if same_text(method, "tools/call") {
            self.dispatch_call(req.id, req.params)
        } else if same_text(method, "ping") {
            McpAction::Reply(response_ok(req.id, empty_object()))
        } else {
            let message = "method not found: ".to_string().concat(method);
            McpAction::Reply(response_err(req.id, METHOD_NOT_FOUND, message.as_str()))
        }
    }

    fn introduce(&self) -> (r: serde_json::Value)
        ensures
            json_view(r) == introduction(self@.version),
    {
        let mut object = object2(
            "protocolVersion",
            json_text("2024-11-05".to_string()),
            "capabilities",
            object1("tools", empty_object()),
        );
        let server = object2(
            "name",
            json_text("zeroclaw".to_string()),
            "version",
            json_text(self.version.clone()),
        );
        put_member(&mut object, "serverInfo", server);
        object
    }

    fn list(&self) -> (r: serde_json::Value)
        ensures
            json_view(r) == tool_list(self@.tools),
    {
        let mut tools: Vec<serde_json::Value> = Vec::new();
        let ghost all = self.exposed@.map_values(|t: RegisteredTool| definition_json(t.spec));
        for i in 0..self.exposed.len()
            invariant
                all == self.exposed@.map_values(|t: RegisteredTool| definition_json(t.spec)),
                tools@.map_values(|v: serde_json::Value| json_view(v)) == all.take(i as int),
        {
            let ghost before = tools@.map_values(|v: serde_json::Value| json_view(v));
            let one = definition(&self.exposed[i].spec);
            tools.push(one);
            assert(tools@.map_values(|v: serde_json::Value| json_view(v)) =~= before.push(
                json_view(one),
            ));
            assert(all.take(i + 1) =~= all.take(i as int).push(all[i as int]));
        }
        assert(all.take(all.len() as int) =~= all);
        object1("tools", json_array(tools))
    }

    fn dispatch_call(
        &self,
        id: Option<serde_json::Value>,
        params: Option<serde_json::Value>,
    ) -> (r: McpAction)
        ensures
            match decide_call(self@, json_opt(params)) {
                Decision::Ignore => false,
                Decision::Reply(reply) => r matches McpAction::Reply(resp) && answers(
                    resp,
                    json_opt(id),
                    reply,
                ),
                Decision::Run(i) => r matches McpAction::Run(call) && {
                    &&& call.slot == self@.tools[i].slot
                    &&& call.name@ == called_name(json_opt(params)->0)
                    &&& json_opt(call.id) == json_opt(id)
                    &&& json_view(call.arguments) == called_arguments(json_opt(params)->0)
                },
            },
    {
        let params = match params {
            Some(params) => params,
            None => return McpAction::Reply(response_err(id, INVALID_PARAMS, "missing params")),
        };
        let name: String = match member_text(&params, "name") {
            Some(name) => name,
            None => String::new(),
        };
        let arguments: serde_json::Value = match get_member(&params, "arguments") {
            Some(v) => v.clone(),
            None => empty_object(),
        };
        if crate::text::chars_of(name.as_str()).len() == 0 {
            return McpAction::Reply(
                response_err(id, INVALID_PARAMS, "tools/call requires name"),
            );
        }
        if !has_name(&self.names, name.as_str()) {
            let message = "tool `".to_string().concat(name.as_str()).concat(
                "` is not on the mcp_serve allowlist",
            );
            return McpAction::Reply(response_err(id, INVALID_PARAMS, message.as_str()));
        }
        match tool_position(&self.exposed, name.as_str()) {
            Some(i) => McpAction::Run(
                ToolCall { id, slot: self.exposed[i].slot, name, arguments },
            ),
            None => {
                let message = "tool `".to_string().concat(name.as_str()).concat("` not available");
                McpAction::Reply(response_err(id, INVALID_PARAMS, message.as_str()))
            },
        }
    }

    /// The answer to a call, given what came of running the tool.
    pub fn finish_call(&self, call: ToolCall, outcome: ToolOutcome) -> (r: JsonRpcResponse)
        ensures
            answers(
                r,
                json_opt(call.id),
                ReplyView::Result(outcome_json(call.name@, self@.timeout_secs, outcome)),
            ),
    {
        let result = match outcome {
            ToolOutcome::Done { success, output, error } => {
                if success {
                    call_tool_result_json(output.as_str(), false)
                } else {
                    match error {
                        Some(e) => call_tool_result_json(e.as_str(), true),
                        None => call_tool_result_json(output.as_str(), true),
                    }
                }
            },
            ToolOutcome::Failed(reason) => {
                let message = "execution error: ".to_string().concat(reason.as_str());
                call_tool_result_json(message.as_str(), true)
            },
            ToolOutcome::TimedOut => {
                let mut message = "tool `".to_string();
                message.append(call.name.as_str());
                message.append("` timed out after ");
                message.append(print_u64(self.timeout_secs).as_str());
                message.append("s");
                call_tool_result_json(message.as_str(), true)
            },
        };
        response_ok(call.id, result)
    }
}

/// The request on a line of input, without white space around it; none on a blank line.
pub fn request_line(line: &str) -> (r: Option<String>)
    ensures
        text_opt(r) == (if blank(line@) {
            None
        } else {
            Some(trimmed(line@))
        }),
{
    if is_blank(line) {
        None
    } else {
        Some(trim(line))
    }
}

/// The answer to a line that is no request, with what is wrong with it.
pub fn parse_failed(detail: &str) -> (r: JsonRpcResponse)
    ensures
        answers(r, None, ReplyView::Error(PARSE_ERROR as int, "Parse error: "@ + detail@)),
{
    let message = "Parse error: ".to_string().concat(detail);
    response_err(None, PARSE_ERROR, message.as_str())
}

/// A call is reported as an error unless the tool ended by itself and with success, whatever error it
/// left behind. The text of the answer is the tool's output where it succeeded, its error where it did
/// not and left one, and else its output again; a tool that could not run, or ran for too long, is
/// told with the reason or the time it had.
pub proof fn calls_are_reported_by_their_success(
    name: Seq<char>,
    timeout_secs: u64,
    outcome: ToolOutcome,
)
    ensures
        ({
            let answer = outcome_json(name, timeout_secs, outcome);
            let members = answer->Object_0;
            let parts = members["content"@]->Array_0;
            let part = parts[0]->Object_0;
            let text = part["text"@]->Text_0;
            let succeeded = outcome is Done && outcome->success;
            &&& answer is Object
            &&& members.dom().contains("isError"@)
            &&& members["isError"@] == JsonView::Bool(!succeeded)
            &&& members.dom().contains("content"@)
            &&& members["content"@] is Array
            &&& parts.len() == 1
            &&& parts[0] is Object
            &&& part.dom().contains("type"@) && part["type"@] == JsonView::Text("text"@)
            &&& part.dom().contains("text"@) && part["text"@] is Text
            &&& succeeded ==> text == outcome->output@
            &&& outcome is Done && !succeeded && outcome->error is Some ==> text == (
            outcome->error->0)@
            &&& outcome is Done && !succeeded && outcome->error is None ==> text == outcome->output@
            &&& outcome is Failed ==> text == "execution error: "@ + outcome->Failed_0@
            &&& outcome is TimedOut ==> text == "tool `"@ + name + "` timed out after "@ + decimal(
                timeout_secs as nat,
            ) + "s"@
        }),
{
    result_keys_differ();
}

proof fn result_keys_differ()
    ensures
        "content"@ != "isError"@,
        "type"@ != "text"@,
{
    reveal_strlit("content");
    reveal_strlit("isError");
    reveal_strlit("type");
    reveal_strlit("text");
    assert("content"@[0] == 'c' && "isError"@[0] == 'i');
    assert("type"@[1] == 'y' && "text"@[1] == 'e');
}

/// An answer is one of JSON-RPC 2.0 to the call that it has the identifier of, and it holds either a
/// result or an error with its code and its words.
pub proof fn answers_hold_result_or_error(
    r: JsonRpcResponse,
    id: Option<JsonView>,
    reply: ReplyView,
)
    requires
        answers(r, id, reply),
    ensures
        r.jsonrpc@ == "2.0"@,
        id is None <==> r.id is None,
        id matches Some(v) ==> json_view(r.id->0) == v,
        reply matches ReplyView::Result(v) ==> r.error is None && (r.result matches Some(result)
            && json_view(result) == v),
        reply matches ReplyView::Error(code, message) ==> r.result is None && (
        r.error matches Some(e) && e.code == code && e.message@ == message),
{
}

proof fn methods_differ()
    ensures
        "initialize"@ != "notifications/initialized"@,
        "initialize"@ != "tools/list"@,
        "initialize"@ != "tools/call"@,
        "initialize"@ != "ping"@,
        "notifications/initialized"@ != "tools/list"@,
        "notifications/initialized"@ != "tools/call"@,
        "notifications/initialized"@ != "ping"@,
        "tools/list"@ != "tools/call"@,
        "tools/list"@ != "ping"@,
        "tools/call"@ != "ping"@,
{
    reveal_strlit("initialize");
    reveal_strlit("notifications/initialized");
    reveal_strlit("tools/list");
    reveal_strlit("tools/call");
    reveal_strlit("ping");
    assert("initialize"@[0] == 'i' && "notifications/initialized"@[0] == 'n');
    assert("tools/list"@[0] == 't' && "ping"@[0] == 'p');
    assert("tools/list"@[6] == 'l' && "tools/call"@[6] == 'c');
}

/// The list that a server answers with has every tool that it offers, in order, each with its name,
/// its description and the schema of its arguments.
pub proof fn every_offered_tool_is_listed(
    server: ServerView,
    params: Option<JsonView>,
    i: int,
)
    requires
        0 <= i < server.tools.len(),
    ensures
        ({
            let decision = decide(server, "tools/list"@, params);
            let members = decision->Reply_0->Result_0->Object_0;
            let listed = members["tools"@]->Array_0;
            let one = listed[i]->Object_0;
            let tool = server.tools[i].spec;
            &&& decision is Reply && decision->Reply_0 is Result
            &&& decision->Reply_0->Result_0 is Object
            &&& members.dom().contains("tools"@) && members["tools"@] is Array
            &&& listed.len() == server.tools.len()
            &&& listed[i] is Object
            &&& one.dom().contains("name"@) && one["name"@] == JsonView::Text(tool.name@)
            &&& one.dom().contains("description"@) && one["description"@] == JsonView::Text(
                tool.description@,
            )
            &&& one.dom().contains("inputSchema"@) && one["inputSchema"@] == json_view(
                tool.parameters,
            )
        }),
{
    methods_differ();
    reveal_strlit("name");
    reveal_strlit("description");
    reveal_strlit("inputSchema");
    assert("name"@[0] == 'n' && "description"@[0] == 'd' && "inputSchema"@[0] == 'i');
}

/// Requests that do not concern tools: a server tells its protocol, name and version, answers a ping
/// with an empty object, answers no notification, and refuses every method that it does not know.
pub proof fn other_requests_by_method(
    server: ServerView,
    method: Seq<char>,
    params: Option<JsonView>,
)
    ensures
        method == "initialize"@ ==> {
            let decision = decide(server, method, params);
            let members = decision->Reply_0->Result_0->Object_0;
            let info = members["serverInfo"@]->Object_0;
            let capabilities = members["capabilities"@]->Object_0;
            &&& decision is Reply && decision->Reply_0 is Result
            &&& decision->Reply_0->Result_0 is Object
            &&& members.dom().contains("protocolVersion"@)
            &&& members["protocolVersion"@] == JsonView::Text("2024-11-05"@)
            &&& members.dom().contains("capabilities"@) && members["capabilities"@] is Object
            &&& capabilities.dom().contains("tools"@) && capabilities["tools"@] is Object
            &&& members.dom().contains("serverInfo"@) && members["serverInfo"@] is Object
            &&& info.dom().contains("name"@) && info["name"@] == JsonView::Text("zeroclaw"@)
            &&& info.dom().contains("version"@) && info["version"@] == JsonView::Text(
                server.version,
            )
        },
        method == "ping"@ ==> decide(server, method, params) == Decision::Reply(
            ReplyView::Result(JsonView::Object(Map::empty())),
        ),
        method == "notifications/initialized"@ ==> decide(server, method, params) is Ignore,
        method != "initialize"@ && method != "ping"@ && method != "notifications/initialized"@
            && method != "tools/list"@ && method != "tools/call"@ ==> decide(
            server,
            method,
            params,
        ) == Decision::Reply(ReplyView::Error(-32601, "method not found: "@ + method)),
{
    methods_differ();
    reveal_strlit("protocolVersion");
    reveal_strlit("capabilities");
    reveal_strlit("serverInfo");
    reveal_strlit("name");
    reveal_strlit("version");
    assert("protocolVersion"@[0] == 'p' && "capabilities"@[0] == 'c' && "serverInfo"@[0] == 's');
    assert("name"@[0] == 'n' && "version"@[0] == 'v');
}

/// A call runs the tool that it names, if that is on the list and offered; of several with that name
/// the first.
pub proof fn named_tools_run(
    server: ServerView,
    members: Map<Seq<char>, JsonView>,
    name: Seq<char>,
    i: int,
)
    requires
        members.dom().contains("name"@),
        members["name"@] == JsonView::Text(name),
        name.len() > 0,
        server.names.contains(name),
        0 <= i < server.tools.len(),
        server.tools[i].name@ == name,
        forall|j: int| 0 <= j < i ==> (#[trigger] server.tools[j]).name@ != name,
    ensures
        decide(server, "tools/call"@, Some(JsonView::Object(members))) == Decision::Run(i),
        called_name(JsonView::Object(members)) == name,
        members.dom().contains("arguments"@) ==> called_arguments(JsonView::Object(members))
            == members["arguments"@],
        !members.dom().contains("arguments"@) ==> called_arguments(JsonView::Object(members))
            == JsonView::Object(Map::empty()),
{
    methods_differ();
    let names = tool_names(server.tools);
    names.index_of_first_ensures(name);
    assert(names[i] == name);
    assert(names.contains(name));
    let found = names.index_of_first(name)->0;
    assert(names[found] == server.tools[found].name@);
    if found < i {
        assert(server.tools[found].name@ != name);
    } else if i < found {
        assert(names[i] != name);
    }
}

/// A call that names no tool, or one that is not on the list or not offered, runs nothing and is
/// refused.
pub proof fn calls_without_a_tool_are_refused(server: ServerView, params: Option<JsonView>)
    ensures
        params is None ==> decide(server, "tools/call"@, params) == Decision::Reply(
            ReplyView::Error(-32602, "missing params"@),
        ),
        params matches Some(v) && !(v is Object) ==> decide(server, "tools/call"@, params)
            == Decision::Reply(ReplyView::Error(-32602, "tools/call requires name"@)),
        params matches Some(JsonView::Object(m)) ==> {
            let name = m["name"@]->Text_0;
            if !(m.dom().contains("name"@) && m["name"@] is Text && name.len() > 0) {
                decide(server, "tools/call"@, params) == Decision::Reply(
                    ReplyView::Error(-32602, "tools/call requires name"@),
                )
            } else if !server.names.contains(name) {
                decide(server, "tools/call"@, params) == Decision::Reply(
                    ReplyView::Error(
                        -32602,
                        "tool `"@ + name + "` is not on the mcp_serve allowlist"@,
                    ),
                )
            } else {
                (forall|i: int|
                    0 <= i < server.tools.len() ==> (#[trigger] server.tools[i]).name@ != name)
                    ==> decide(server, "tools/call"@, params) == Decision::Reply(
                    ReplyView::Error(-32602, "tool `"@ + name + "` not available"@),
                )
            }
        },
{
    methods_differ();
    if let Some(JsonView::Object(m)) = params {
        if m.dom().contains("name"@) && m["name"@] is Text {
            let name = m["name"@]->Text_0;
            let names = tool_names(server.tools);
            names.index_of_first_ensures(name);
            if names.contains(name) {
                let i = choose|i: int| 0 <= i < names.len() && names[i] == name;
                assert(server.tools[i].name@ == name);
            }
        }
    }
}

/// The names that are asked for are those of the configuration, and those arguments of the command
/// line that hold more than white space, without the white space around them.
pub proof fn names_are_asked_for_by_file_and_command_line(
    cfg: McpServeConfig,
    cli: Seq<Seq<char>>,
    name: Seq<char>,
)
    ensures
        asked_for(cfg, cli).contains(name) <==> {
            ||| exists|i: int|
                0 <= i < cfg.allowed_tools@.len() && (#[trigger] cfg.allowed_tools@[i])@ == name
            ||| exists|i: int|
                0 <= i < cli.len() && trimmed(#[trigger] cli[i]) == name && !blank(cli[i])
        },
{
    let configured = texts(cfg.allowed_tools@);
    let given = given_names(cli);
    arguments_are_given(cli, name);
    let all = configured + given;
    if all.contains(name) {
        let i = choose|i: int| 0 <= i < all.len() && all[i] == name;
        if i < configured.len() {
            assert(cfg.allowed_tools@[i]@ == name);
        } else {
            assert(given[i - configured.len()] == name);
            assert(given.contains(name));
        }
    }
    if exists|i: int|
        0 <= i < cfg.allowed_tools@.len() && (#[trigger] cfg.allowed_tools@[i])@ == name {
        let i = choose|i: int|
            0 <= i < cfg.allowed_tools@.len() && (#[trigger] cfg.allowed_tools@[i])@ == name;
        assert(configured[i] == name);
        assert(all[i] == name);
    }
    if given.contains(name) {
        let i = choose|i: int| 0 <= i < given.len() && given[i] == name;
        assert(all[i + configured.len()] == name);
    }
}

proof fn arguments_are_given(cli: Seq<Seq<char>>, name: Seq<char>)
    ensures
        given_names(cli).contains(name) <==> exists|i: int|
            0 <= i < cli.len() && trimmed(#[trigger] cli[i]) == name && !blank(cli[i]),
    decreases cli.len(),
{
    if cli.len() > 0 {
        let front = cli.drop_last();
        let before = given_names(front);
        let given = given_names(cli);
        let last: int = cli.len() - 1;
        arguments_are_given(front, name);
        if before.contains(name) {
            let i = choose|i: int| 0 <= i < before.len() && before[i] == name;
            assert(given[i] == name);
            let k = choose|k: int|
                0 <= k < front.len() && trimmed(#[trigger] front[k]) == name && !blank(front[k]);
            assert(cli[k] == front[k]);
        }
        if !blank(cli[last]) && trimmed(cli[last]) == name {
            assert(given[before.len() as int] == name);
        }
        if given.contains(name) {
            let i = choose|i: int| 0 <= i < given.len() && given[i] == name;
            if i < before.len() {
                assert(before[i] == name);
            } else {
                assert(trimmed(cli[last]) == name);
            }
        }
        if exists|k: int| 0 <= k < cli.len() && trimmed(#[trigger] cli[k]) == name && !blank(cli[k]) {
            let k = choose|k: int|
                0 <= k < cli.len() && trimmed(#[trigger] cli[k]) == name && !blank(cli[k]);
            if k < front.len() {
                assert(front[k] == cli[k]);
            }
        }
    }
}

/// A list in order has each name once, and of any two names the one that comes first in the order
/// stands first.
pub proof fn sorted_lists_have_each_name_once(list: Seq<Seq<char>>, i: int, j: int)
    requires
        strictly_sorted(list),
        0 <= i < list.len(),
        0 <= j < list.len(),
    ensures
        list[i] == list[j] <==> i == j,
        text_before(list[i], list[j]) <==> i < j,
{
    if i < j {
        assert(text_before(list[i], list[j]));
        text_before_irreflexive(list[i]);
    } else if j < i {
        assert(text_before(list[j], list[i]));
        if text_before(list[i], list[j]) {
            text_before_transitive(list[i], list[j], list[i]);
        }
        text_before_irreflexive(list[i]);
    } else {
        text_before_irreflexive(list[i]);
    }
}

/// Under the strict policy only tools that read or compute may be offered: nine in all, two of which
/// are offered when none is asked for.
pub proof fn the_preset_names_nine_tools(name: Seq<char>)
    ensures
        safe_tools().contains(name) <==> name == "memory_recall"@ || name == "file_read"@ || name
            == "calculator"@ || name == "weather"@ || name == "project_intel"@ || name
            == "image_info"@ || name == "glob_search"@ || name == "content_search"@ || name
            == "pdf_read"@,
        default_tools().contains(name) <==> name == "memory_recall"@ || name == "file_read"@,
        default_tools().len() == 2,
{
    let safe = safe_tools();
    assert(safe[0] == "memory_recall"@ && safe[1] == "file_read"@ && safe[2] == "calculator"@);
    assert(safe[3] == "weather"@ && safe[4] == "project_intel"@ && safe[5] == "image_info"@);
    assert(safe[6] == "glob_search"@ && safe[7] == "content_search"@ && safe[8] == "pdf_read"@);
    let some = default_tools();
    assert(some[0] == "memory_recall"@ && some[1] == "file_read"@);
}

/// The name that a list is refused for is the first that is not in the preset, and a relaxed policy
/// refuses none.
pub proof fn lists_are_refused_for_the_first_unsafe_name(names: Seq<Seq<char>>, relax: bool)
    ensures
        first_unsafe(names) matches Some(i) ==> 0 <= i < names.len() && !safe_tools().contains(
            names[i],
        ) && forall|j: int| 0 <= j < i ==> safe_tools().contains(#[trigger] names[j]),
        policy_allows(relax, names) <==> relax || forall|i: int|
            0 <= i < names.len() ==> safe_tools().contains(#[trigger] names[i]),
    decreases names.len(),
{
    strict_policy_allows_the_preset(names);
    if names.len() > 0 {
        let front = names.drop_last();
        lists_are_refused_for_the_first_unsafe_name(front, relax);
        strict_policy_allows_the_preset(front);
        if let Some(i) = first_unsafe(names) {
            assert forall|j: int| 0 <= j < i implies safe_tools().contains(#[trigger] names[j]) by {
                assert(front[j] == names[j]);
            }
        }
    }
}

/// A merged list has just the names that are asked for, in order, or the default names where none is.
pub proof fn merged_lists_have_the_names_asked_for(
    names: Seq<Seq<char>>,
    cfg: McpServeConfig,
    cli: Seq<Seq<char>>,
    name: Seq<char>,
)
    requires
        is_merged(names, cfg, cli),
    ensures
        asked_for(cfg, cli).len() > 0 ==> (names.contains(name) <==> asked_for(cfg, cli).contains(
            name,
        )),
        asked_for(cfg, cli).len() > 0 ==> forall|i: int, j: int|
            0 <= i < j < names.len() ==> text_before(#[trigger] names[i], #[trigger] names[j]),
        asked_for(cfg, cli).len() == 0 ==> names == seq!["memory_recall"@, "file_read"@],
{
    if asked_for(cfg, cli).len() > 0 {
        assert(names.to_set().contains(name) == asked_for(cfg, cli).to_set().contains(name));
    }
}

/// The tools that are offered stand in the order of the list, one for each name on it that the registry
/// has, as long as the list has no name twice.
pub proof fn tools_are_offered_in_the_order_of_the_list(
    registry: Seq<RegisteredTool>,
    names: Seq<Seq<char>>,
)
    requires
        names.no_duplicates(),
    ensures
        exposing(registry, names).0.map_values(|t: RegisteredTool| t.name@) == names.filter(
            |n: Seq<char>| registry.map_values(|t: RegisteredTool| t.name@).contains(n),
        ),
    decreases names.len(),
{
    reveal(Seq::filter);
    let known = |n: Seq<char>| registry.map_values(|t: RegisteredTool| t.name@).contains(n);
    let (exposed, left) = exposing(registry, names);
    if names.len() > 0 {
        let before = names.drop_last();
        let want = names.last();
        let (exposed1, left1) = exposing(registry, before);
        tools_are_offered_in_the_order_of_the_list(registry, before);
        exposing_steps(registry, before);
        assert(!before.contains(want)) by {
            if before.contains(want) {
                let i = choose|i: int| 0 <= i < before.len() && before[i] == want;
                assert(names[i] == names[names.len() - 1]);
            }
        }
        tool_names(left1).index_of_first_ensures(want);
        if known(want) {
            let all = registry.map_values(|t: RegisteredTool| t.name@);
            let i = choose|i: int| 0 <= i < all.len() && all[i] == want;
            assert(registry.contains(registry[i]));
            assert(left1.contains(registry[i]));
            let j = choose|j: int| 0 <= j < left1.len() && left1[j] == registry[i];
            assert(tool_names(left1)[j] == want);
            assert(tool_names(left1).contains(want));
            let p = tool_names(left1).index_of_first(want)->0;
            assert(tool_names(left1)[p] == want);
            assert(exposed == exposed1.push(left1[p]));
            assert(exposed.map_values(|t: RegisteredTool| t.name@) =~= exposed1.map_values(
                |t: RegisteredTool| t.name@,
            ).push(want));
        } else {
            if tool_names(left1).contains(want) {
                let j = choose|j: int|
                    0 <= j < tool_names(left1).len() && tool_names(left1)[j] == want;
                assert(registry.contains(left1[j]));
                let i = choose|i: int| 0 <= i < registry.len() && registry[i] == left1[j];
                assert(registry.map_values(|t: RegisteredTool| t.name@)[i] == want);
            }
            assert(exposed == exposed1);
        }
    }
    assert(exposed.map_values(|t: RegisteredTool| t.name@) =~= names.filter(known));
}

/// A server keeps to its policy: it offers only tools that its list names, and gives them a second at
/// least.
pub proof fn servers_keep_to_their_list(server: ServerView, i: int)
    requires
        server_wf(server),
        0 <= i < server.tools.len(),
    ensures
        server.names.contains(server.tools[i].name@),
        server.relax || safe_tools().contains(server.tools[i].name@),
        server.timeout_secs >= 1,
{
    if !server.relax {
        strict_policy_allows_the_preset(server.names);
        let name = server.tools[i].name@;
        let k = choose|k: int| 0 <= k < server.names.len() && server.names[k] == name;
        assert(safe_tools().contains(server.names[k]));
    }
}

/// Of several tools in the registry with a name, the first is offered for it.
pub proof fn the_first_tool_of_a_name_is_offered(
    registry: Seq<RegisteredTool>,
    name: Seq<char>,
    i: int,
)
    requires
        0 <= i < registry.len(),
        registry[i].name@ == name,
        forall|j: int| 0 <= j < i ==> (#[trigger] registry[j]).name@ != name,
    ensures
        exposing(registry, seq![name]).0 == seq![registry[i]],
{
    let one = seq![name];
    assert(one.drop_last() =~= Seq::empty());
    assert(one.last() == name);
    assert(exposing(registry, one.drop_last()) == (Seq::<RegisteredTool>::empty(), registry));
    let names = tool_names(registry);
    names.index_of_first_ensures(name);
    assert(names[i] == name);
    assert(names.contains(name));
    let found = names.index_of_first(name)->0;
    assert(names[found] == registry[found].name@);
    if found < i {
        assert(registry[found].name@ != name);
    } else if i < found {
        assert(names[i] != name);
    }
    assert(exposing(registry, one).0 =~= seq![registry[i]]);
}

} // verus!
