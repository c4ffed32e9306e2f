//! The Model Context Protocol server's decisions: routing JSON-RPC requests,
//! picking the tool, reading tool arguments, and choosing transactions.
use vstd::prelude::*;
use crate::categories::{
    begin_name_resolution, category_matches, category_name_map, flatten_spec, lookup_name, name_for,
    opt_text, pair_views, pairs_of, pick_category, picked, LookupError, NameResolution,
};
use crate::edits::{ref_failure, ref_view, resolve_transaction_refs, resolved_ref, RefError};
use crate::client::{Account, Category, CopilotClient, Tag, Transaction, TransactionIdRef};
use crate::json::{
    as_bool, as_str, as_u64, get, spec_as_array, spec_as_bool, spec_as_str, spec_as_u64, spec_get,
    JsonValue,
};
use crate::text::{trim, chars_equal, chars_of, contains_chars, has_substring, lowercase, push_all, string_from_chars, to_lowercase};
use crate::select::retained;
use crate::replies::{all_tools, is_tool_definition, tool_definitions};

verus! {

/// The server: a client of the service.
#[derive(Debug, Clone, PartialEq)]
pub struct McpServer {
    pub client: CopilotClient,
}

impl McpServer {
    /// A server answering with `client`.
    pub fn new(client: CopilotClient) -> (r: Self)
        ensures
            r.client == client,
    {
        McpServer { client }
    }

    /// The answer to `initialize`: the protocol version, the `tools`
    /// capability, and the server's name and `version`.
    pub fn handle_initialize(&self, version: &str) -> (r: JsonValue)
        ensures
            r matches JsonValue::Object(m) && m@.len() == 3
                && m@[0].0@ == "protocolVersion"@ && (m@[0].1 matches JsonValue::String(v) && v@ == "2024-11-05"@)
                && m@[1].0@ == "capabilities"@ && (m@[1].1 matches JsonValue::Object(c) && c@.len() == 1
                    && c@[0].0@ == "tools"@ && (c@[0].1 matches JsonValue::Object(t) && t@.len() == 0))
                && m@[2].0@ == "serverInfo"@ && (m@[2].1 matches JsonValue::Object(i) && i@.len() == 2
                    && i@[0].0@ == "name"@ && (i@[0].1 matches JsonValue::String(n) && n@ == "copilot-money"@)
                    && i@[1].0@ == "version"@ && (i@[1].1 matches JsonValue::String(v) && v@ == version@)),
    {
        let tools: Vec<(String, JsonValue)> = Vec::new();
        let mut caps: Vec<(String, JsonValue)> = Vec::new();
        caps.push((string_from_chars(&chars_of("tools")), JsonValue::Object(tools)));
        let mut info: Vec<(String, JsonValue)> = Vec::new();
        info.push((string_from_chars(&chars_of("name")), JsonValue::String(string_from_chars(&chars_of("copilot-money")))));
        info.push((string_from_chars(&chars_of("version")), JsonValue::String(string_from_chars(&chars_of(version)))));
        let mut m: Vec<(String, JsonValue)> = Vec::new();
        m.push((string_from_chars(&chars_of("protocolVersion")), JsonValue::String(string_from_chars(&chars_of("2024-11-05")))));
        m.push((string_from_chars(&chars_of("capabilities")), JsonValue::Object(caps)));
        m.push((string_from_chars(&chars_of("serverInfo")), JsonValue::Object(info)));
        JsonValue::Object(m)
    }

    /// The answer to `tools/list`: every tool offered; see `tool_definitions`.
    pub fn handle_tools_list(&self) -> (r: JsonValue)
        ensures
            r matches JsonValue::Object(m) && m@.len() == 1 && m@[0].0@ == "tools"@ && (m@[0].1 matches JsonValue::Array(defs)
                && defs@.len() == all_tools().len() && forall|k: int|
                0 <= k < defs@.len() ==> is_tool_definition(#[trigger] defs@[k], all_tools()[k])),
    {
        tool_definitions()
    }

    /// `(id, name)` of every category, children included, for naming the
    /// categories of transactions (a later pair wins for a repeated id).
    pub fn category_name_map(&self, categories: &Vec<Category>) -> (r: Vec<(String, String)>)
        ensures
            pair_views(r@) == pairs_of(flatten_spec(categories@, None, true)),
    {
        category_name_map(categories)
    }

    /// References to the first of `txns` with each of `ids`, in the order of
    /// `ids`; the first id that fails gives the error.
    pub fn resolve_transaction_refs(&self, ids: &Vec<String>, txns: &Vec<Transaction>) -> (r: Result<
        Vec<TransactionIdRef>,
        RefError,
    >)
        ensures
            match r {
                Ok(refs) => refs@.len() == ids@.len() && forall|k: int|
                    0 <= k < ids@.len() ==> #[trigger] resolved_ref(txns@, ids@[k]@) == Some(ref_view(refs@[k])),
                Err(e) => exists|k: int|
                    0 <= k < ids@.len() && (forall|j: int| 0 <= j < k ==> (#[trigger] resolved_ref(txns@, ids@[j]@)) is Some)
                        && ref_failure(txns@, ids@[k]@, e),
            },
    {
        resolve_transaction_refs(ids, txns)
    }

    /// The id of the one category (children included) named `name`, trimmed
    /// and compared lowercased: `Empty` for a blank name, `NotFound` or
    /// `Ambiguous` when not exactly one category has that name.
    pub fn resolve_category_by_name(&self, name: &str, categories: &Vec<Category>) -> (r: Result<String, LookupError>)
        ensures
            ({
                let key = lowercase(trim(name@));
                &&& key.len() == 0 ==> r == Err::<String, LookupError>(LookupError::Empty)
                &&& key.len() > 0 ==> picked(category_matches(categories@, key), r)
            }),
    {
        match begin_name_resolution(None, Some(name)) {
            Ok(NameResolution::Lookup(key)) => pick_category(&key, categories),
            Ok(NameResolution::Resolved(_)) => Err(LookupError::Empty),
            Err(e) => Err(e),
        }
    }
}

/// A JSON-RPC request.
#[derive(Debug, Clone, PartialEq)]
pub struct JsonRpcRequest {
    pub jsonrpc: String,
    pub id: Option<JsonValue>,
    pub method: String,
    pub params: Option<JsonValue>,
}

/// The error part of a JSON-RPC response.
#[derive(Debug, Clone, PartialEq)]
pub struct JsonRpcError {
    pub code: i64,
    pub message: String,
    pub data: Option<JsonValue>,
}

/// A JSON-RPC response: a result or an error.
#[derive(Debug, Clone, PartialEq)]
pub struct JsonRpcResponse {
    pub jsonrpc: String,
    pub id: JsonValue,
    pub result: Option<JsonValue>,
    pub error: Option<JsonRpcError>,
}

impl JsonRpcResponse {
    /// A successful response to request `id`.
    pub fn success(id: JsonValue, result: JsonValue) -> (r: Self)
        ensures
            r.jsonrpc@ == "2.0"@,
            r.id == id,
            r.result == Some(result),
            r.error is None,
    {
        JsonRpcResponse { jsonrpc: string_from_chars(&chars_of("2.0")), id, result: Some(result), error: None }
    }

    /// An error response to request `id`.
    pub fn error(id: JsonValue, code: i64, message: String) -> (r: Self)
        ensures
            r.jsonrpc@ == "2.0"@,
            r.id == id,
            r.result is None,
            r.error matches Some(e) && e.code == code && e.message == message && e.data is None,
    {
        JsonRpcResponse {
            jsonrpc: string_from_chars(&chars_of("2.0")),
            id,
            result: None,
            error: Some(JsonRpcError { code, message, data: None }),
        }
    }
}

/// JSON-RPC error code of an unknown method.
pub open spec fn method_not_found_code() -> i64 {
    -32601i64
}

/// JSON-RPC error code of invalid parameters.
pub open spec fn invalid_params_code() -> i64 {
    -32602i64
}

/// How a request is answered.
#[derive(Debug, Clone, PartialEq)]
pub enum Route {
    Initialize,
    ToolsList,
    ToolsCall,
    Ping,
    /// An unknown method: the error's code and message.
    NotFound(i64, String),
}

/// The route of request method `method`; none for a notification (a request
/// without an id), which gets no response.
pub fn route_request(method: &str, has_id: bool) -> (r: Option<Route>)
    ensures
        !has_id ==> r is None,
        has_id ==> if method@ == "initialize"@ {
            r matches Some(Route::Initialize)
        } else if method@ == "tools/list"@ {
            r matches Some(Route::ToolsList)
        } else if method@ == "tools/call"@ {
            r matches Some(Route::ToolsCall)
        } else if method@ == "ping"@ {
            r matches Some(Route::Ping)
        } else {
            r matches Some(Route::NotFound(code, msg)) && code == method_not_found_code() && msg@
                == "method not found: "@ + method@
        },
{
    if !has_id {
        return None;
    }
    let m = chars_of(method);
    if chars_equal(&m, &chars_of("initialize")) {
        Some(Route::Initialize)
    } else if chars_equal(&m, &chars_of("tools/list")) {
        Some(Route::ToolsList)
    } else if chars_equal(&m, &chars_of("tools/call")) {
        Some(Route::ToolsCall)
    } else if chars_equal(&m, &chars_of("ping")) {
        Some(Route::Ping)
    } else {
        let mut msg = chars_of("method not found: ");
        push_all(&mut msg, &m);
        Some(Route::NotFound(-32601, string_from_chars(&msg)))
    }
}

/// The tools the server offers.
#[derive(Debug, Clone, PartialEq)]
pub enum Tool {
    ListTransactions,
    SearchTransactions,
    ShowTransaction,
    ReviewTransactions,
    UnreviewTransactions,
    SetTransactionCategory,
    SetTransactionNotes,
    SetTransactionTags,
    ListCategories,
    ListTags,
    CreateTag,
    DeleteTag,
    ListRecurrings,
    BudgetMonth,
    ListAccounts,
    Networth,
    SpendingSummary,
    MonthlySpending,
    UpcomingRecurrings,
}

/// The name under which tool `t` is offered and called.
pub open spec fn tool_name(t: Tool) -> Seq<char> {
    match t {
        Tool::ListTransactions => "list_transactions"@,
        Tool::SearchTransactions => "search_transactions"@,
        Tool::ShowTransaction => "show_transaction"@,
        Tool::ReviewTransactions => "review_transactions"@,
        Tool::UnreviewTransactions => "unreview_transactions"@,
        Tool::SetTransactionCategory => "set_transaction_category"@,
        Tool::SetTransactionNotes => "set_transaction_notes"@,
        Tool::SetTransactionTags => "set_transaction_tags"@,
        Tool::ListCategories => "list_categories"@,
        Tool::ListTags => "list_tags"@,
        Tool::CreateTag => "create_tag"@,
        Tool::DeleteTag => "delete_tag"@,
        Tool::ListRecurrings => "list_recurrings"@,
        Tool::BudgetMonth => "budget_month"@,
        Tool::ListAccounts => "list_accounts"@,
        Tool::Networth => "networth"@,
        Tool::SpendingSummary => "spending_summary"@,
        Tool::MonthlySpending => "monthly_spending"@,
        Tool::UpcomingRecurrings => "upcoming_recurrings"@,
    }
}

/// The tool named `name`.
pub open spec fn tool_named(name: Seq<char>) -> Option<Tool> {
    if name == "list_transactions"@ {
        Some(Tool::ListTransactions)
    } else if name == "search_transactions"@ {
        Some(Tool::SearchTransactions)
    } else if name == "show_transaction"@ {
        Some(Tool::ShowTransaction)
    } else if name == "review_transactions"@ {
        Some(Tool::ReviewTransactions)
    } else if name == "unreview_transactions"@ {
        Some(Tool::UnreviewTransactions)
    } else if name == "set_transaction_category"@ {
        Some(Tool::SetTransactionCategory)
    } else if name == "set_transaction_notes"@ {
        Some(Tool::SetTransactionNotes)
    } else if name == "set_transaction_tags"@ {
        Some(Tool::SetTransactionTags)
    } else if name == "list_categories"@ {
        Some(Tool::ListCategories)
    } else if name == "list_tags"@ {
        Some(Tool::ListTags)
    } else if name == "create_tag"@ {
        Some(Tool::CreateTag)
    } else if name == "delete_tag"@ {
        Some(Tool::DeleteTag)
    } else if name == "list_recurrings"@ {
        Some(Tool::ListRecurrings)
    } else if name == "budget_month"@ {
        Some(Tool::BudgetMonth)
    } else if name == "list_accounts"@ {
        Some(Tool::ListAccounts)
    } else if name == "networth"@ {
        Some(Tool::Networth)
    } else if name == "spending_summary"@ {
        Some(Tool::SpendingSummary)
    } else if name == "monthly_spending"@ {
        Some(Tool::MonthlySpending)
    } else if name == "upcoming_recurrings"@ {
        Some(Tool::UpcomingRecurrings)
    } else {
        None
    }
}

fn name_is(name: &Vec<char>, s: &str) -> (r: bool)
    ensures
        r == (name@ == s@),
{
    chars_equal(name, &chars_of(s))
}

/// The name under which tool `t` is offered and called.
pub fn tool_name_of(t: &Tool) -> (r: String)
    ensures
        r@ == tool_name(*t),
{
    match t {
        Tool::ListTransactions => string_from_chars(&chars_of("list_transactions")),
        Tool::SearchTransactions => string_from_chars(&chars_of("search_transactions")),
        Tool::ShowTransaction => string_from_chars(&chars_of("show_transaction")),
        Tool::ReviewTransactions => string_from_chars(&chars_of("review_transactions")),
        Tool::UnreviewTransactions => string_from_chars(&chars_of("unreview_transactions")),
        Tool::SetTransactionCategory => string_from_chars(&chars_of("set_transaction_category")),
        Tool::SetTransactionNotes => string_from_chars(&chars_of("set_transaction_notes")),
        Tool::SetTransactionTags => string_from_chars(&chars_of("set_transaction_tags")),
        Tool::ListCategories => string_from_chars(&chars_of("list_categories")),
        Tool::ListTags => string_from_chars(&chars_of("list_tags")),
        Tool::CreateTag => string_from_chars(&chars_of("create_tag")),
        Tool::DeleteTag => string_from_chars(&chars_of("delete_tag")),
        Tool::ListRecurrings => string_from_chars(&chars_of("list_recurrings")),
        Tool::BudgetMonth => string_from_chars(&chars_of("budget_month")),
        Tool::ListAccounts => string_from_chars(&chars_of("list_accounts")),
        Tool::Networth => string_from_chars(&chars_of("networth")),
        Tool::SpendingSummary => string_from_chars(&chars_of("spending_summary")),
        Tool::MonthlySpending => string_from_chars(&chars_of("monthly_spending")),
        Tool::UpcomingRecurrings => string_from_chars(&chars_of("upcoming_recurrings")),
    }
}

/// The tool named `name`, if there is one.
pub fn tool_from_name(name: &str) -> (r: Option<Tool>)
    ensures
        r == tool_named(name@),
{
    let n = chars_of(name);
    if name_is(&n, "list_transactions") {
        Some(Tool::ListTransactions)
    } else if name_is(&n, "search_transactions") {
        Some(Tool::SearchTransactions)
    } else if name_is(&n, "show_transaction") {
        Some(Tool::ShowTransaction)
    } else if name_is(&n, "review_transactions") {
        Some(Tool::ReviewTransactions)
    } else if name_is(&n, "unreview_transactions") {
        Some(Tool::UnreviewTransactions)
    } else if name_is(&n, "set_transaction_category") {
        Some(Tool::SetTransactionCategory)
    } else if name_is(&n, "set_transaction_notes") {
        Some(Tool::SetTransactionNotes)
    } else if name_is(&n, "set_transaction_tags") {
        Some(Tool::SetTransactionTags)
    } else if name_is(&n, "list_categories") {
        Some(Tool::ListCategories)
    } else if name_is(&n, "list_tags") {
        Some(Tool::ListTags)
    } else if name_is(&n, "create_tag") {
        Some(Tool::CreateTag)
    } else if name_is(&n, "delete_tag") {
        Some(Tool::DeleteTag)
    } else if name_is(&n, "list_recurrings") {
        Some(Tool::ListRecurrings)
    } else if name_is(&n, "budget_month") {
        Some(Tool::BudgetMonth)
    } else if name_is(&n, "list_accounts") {
        Some(Tool::ListAccounts)
    } else if name_is(&n, "networth") {
        Some(Tool::Networth)
    } else if name_is(&n, "spending_summary") {
        Some(Tool::SpendingSummary)
    } else if name_is(&n, "monthly_spending") {
        Some(Tool::MonthlySpending)
    } else if name_is(&n, "upcoming_recurrings") {
        Some(Tool::UpcomingRecurrings)
    } else {
        None
    }
}

/// The tool a `tools/call` asks for and its arguments (`None` standing for
/// `{}`); or the JSON-RPC error `-32602` when the parameters or the tool
/// name are missing. An unknown tool name is answered with an error
/// content `unknown tool: <name>`, given as `Err(Ok(text))`.
pub fn tools_call_target<'a>(params: Option<&'a JsonValue>) -> (r: Result<(Tool, Option<&'a JsonValue>), Result<String, (i64, String)>>)
    ensures
        match params {
            None => r matches Err(Err(e)) && e.0 == invalid_params_code() && e.1@ == "missing params"@,
            Some(p) => match spec_as_str(spec_get(*p, "name"@)) {
                None => r matches Err(Err(e)) && e.0 == invalid_params_code() && e.1@ == "missing tool name"@,
                Some(name) => match tool_named(name) {
                    Some(t) => r matches Ok(x) && x.0 == t && match x.1 {
                        Some(a) => spec_get(*p, "arguments"@) == Some(*a),
                        None => spec_get(*p, "arguments"@) is None,
                    },
                    None => r matches Err(Ok(msg)) && msg@ == "unknown tool: "@ + name,
                },
            },
        },
{
    let p = match params {
        Some(p) => p,
        None => return Err(Err((-32602, string_from_chars(&chars_of("missing params"))))),
    };
    let name = match as_str(get(p, "name")) {
        Some(n) => n,
        None => return Err(Err((-32602, string_from_chars(&chars_of("missing tool name"))))),
    };
    let arguments = get(p, "arguments");
    match tool_from_name(name) {
        Some(t) => Ok((t, arguments)),
        None => {
            let mut msg = chars_of("unknown tool: ");
            push_all(&mut msg, &chars_of(name));
            Err(Ok(string_from_chars(&msg)))
        },
    }
}

/// `r` is the tool content holding `text`, flagged as an error when `is_error`.
pub open spec fn is_tool_content(r: JsonValue, text: String, is_error: bool) -> bool {
    &&& r matches JsonValue::Object(m)
    &&& m@.len() == (if is_error { 2int } else { 1int })
    &&& m@[0].0@ == "content"@
    &&& m@[0].1 matches JsonValue::Array(items)
    &&& items@.len() == 1
    &&& items@[0] matches JsonValue::Object(c)
    &&& c@.len() == 2
    &&& c@[0].0@ == "type"@
    &&& c@[0].1 matches JsonValue::String(ty)
    &&& ty@ == "text"@
    &&& c@[1].0@ == "text"@
    &&& c@[1].1 == JsonValue::String(text)
    &&& is_error ==> (m@[1].0@ == "isError"@ && m@[1].1 == JsonValue::Bool(true))
}

/// The `text` content answering a tool call; flagged as an error when
/// `is_error`: `{"content": [{"type": "text", "text": T}]}`, plus
/// `"isError": true` for an error.
pub fn tool_content(text: String, is_error: bool) -> (r: JsonValue)
    ensures
        is_tool_content(r, text, is_error),
{
    let mut c: Vec<(String, JsonValue)> = Vec::new();
    c.push((string_from_chars(&chars_of("type")), JsonValue::String(string_from_chars(&chars_of("text")))));
    c.push((string_from_chars(&chars_of("text")), JsonValue::String(text)));
    let mut items: Vec<JsonValue> = Vec::new();
    items.push(JsonValue::Object(c));
    let mut m: Vec<(String, JsonValue)> = Vec::new();
    m.push((string_from_chars(&chars_of("content")), JsonValue::Array(items)));
    if is_error {
        m.push((string_from_chars(&chars_of("isError")), JsonValue::Bool(true)));
    }
    JsonValue::Object(m)
}

// ---- Tool arguments ---------------------------------------------------------------

/// The strings of a JSON array, in order (other elements skipped).
pub open spec fn array_strings(items: Seq<JsonValue>) -> Seq<Seq<char>>
    decreases items.len(),
{
    if items.len() == 0 {
        Seq::empty()
    } else {
        let rest = array_strings(items.drop_last());
        match items.last() {
            JsonValue::String(s) => rest.push(s@),
            _ => rest,
        }
    }
}

/// The strings among `items`.
pub fn strings_of(items: &Vec<JsonValue>) -> (r: Vec<String>)
    ensures
        crate::edits::texts(r@) == array_strings(items@),
{
    let mut out: Vec<String> = Vec::new();
    let mut i: usize = 0;
    while i < items.len()
        invariant
            i <= items.len(),
            crate::edits::texts(out@) == array_strings(items@.take(i as int)),
        decreases items.len() - i,
    {
        assert(items@.take(i + 1).drop_last() == items@.take(i as int));
        match &items[i] {
            JsonValue::String(s) => {
                let ghost before = out@;
                out.push(s.clone());
                assert(crate::edits::texts(out@) == crate::edits::texts(before).push(s@));
            },
            _ => {},
        }
        i = i + 1;
    }
    assert(items@.take(items.len() as int) == items@);
    out
}

/// The string array under `key` of the arguments, or the error
/// `missing required parameter: <key>`.
pub fn required_strings(args: Option<&JsonValue>, key: &str) -> (r: Result<Vec<String>, String>)
    ensures
        ({
            let arr = match args {
                Some(a) => spec_as_array(spec_get(*a, key@)),
                None => None,
            };
            match arr {
                Some(items) => r matches Ok(v) && crate::edits::texts(v@) == array_strings(items),
                None => r matches Err(msg) && msg@ == "missing required parameter: "@ + key@,
            }
        }),
{
    let arr = match args {
        Some(a) => match get(a, key) {
            Some(JsonValue::Array(items)) => Some(items),
            _ => None,
        },
        None => None,
    };
    match arr {
        Some(items) => Ok(strings_of(items)),
        None => {
            let mut msg = chars_of("missing required parameter: ");
            push_all(&mut msg, &chars_of(key));
            Err(string_from_chars(&msg))
        },
    }
}

/// The transaction ids of a tool call: the strings of the `ids` array,
/// which must have at least one.
pub fn parse_transaction_ids(args: Option<&JsonValue>) -> (r: Result<Vec<String>, String>)
    ensures
        ({
            let arr = match args {
                Some(a) => spec_as_array(spec_get(*a, "ids"@)),
                None => None,
            };
            match arr {
                Some(items) => if array_strings(items).len() > 0 {
                    r matches Ok(v) && crate::edits::texts(v@) == array_strings(items)
                } else {
                    r matches Err(msg) && msg@ == "ids must be a non-empty array of strings"@
                },
                None => r matches Err(msg) && msg@ == "missing required parameter: ids"@,
            }
        }),
{
    let ids = match required_strings(args, "ids") {
        Ok(v) => v,
        Err(e) => {
            proof {
                reveal_strlit("missing required parameter: ");
                reveal_strlit("ids");
                reveal_strlit("missing required parameter: ids");
            }
            return Err(e);
        },
    };
    if ids.len() == 0 {
        return Err(string_from_chars(&chars_of("ids must be a non-empty array of strings")));
    }
    Ok(ids)
}

/// The string argument `key`.
pub open spec fn arg_str(args: Option<JsonValue>, key: Seq<char>) -> Option<Seq<char>> {
    match args {
        Some(a) => spec_as_str(spec_get(a, key)),
        None => None,
    }
}

/// The boolean argument `key`, `default` when absent or not a boolean.
pub open spec fn arg_bool(args: Option<JsonValue>, key: Seq<char>, default: bool) -> bool {
    match args {
        Some(a) => match spec_as_bool(spec_get(a, key)) {
            Some(b) => b,
            None => default,
        },
        None => default,
    }
}

/// The count argument `key`, `default` when absent or not a non-negative integer.
pub open spec fn arg_count(args: Option<JsonValue>, key: Seq<char>, default: u64) -> usize {
    match args {
        Some(a) => match spec_as_u64(spec_get(a, key)) {
            Some(n) => n as usize,
            None => default as usize,
        },
        None => default as usize,
    }
}

/// The string argument `key`.
pub fn get_str(args: Option<&JsonValue>, key: &str) -> (r: Option<String>)
    ensures
        opt_text(r) == arg_str(match args { Some(a) => Some(*a), None => None }, key@),
{
    match args {
        Some(a) => match as_str(get(a, key)) {
            Some(s) => Some(s.to_owned()),
            None => None,
        },
        None => None,
    }
}

/// The boolean argument `key`, `default` when absent.
pub fn get_bool(args: Option<&JsonValue>, key: &str, default: bool) -> (r: bool)
    ensures
        r == arg_bool(match args { Some(a) => Some(*a), None => None }, key@, default),
{
    match args {
        Some(a) => match as_bool(get(a, key)) {
            Some(b) => b,
            None => default,
        },
        None => default,
    }
}

/// The count argument `key`, `default` when absent.
pub fn get_count(args: Option<&JsonValue>, key: &str, default: u64) -> (r: usize)
    ensures
        r == arg_count(match args { Some(a) => Some(*a), None => None }, key@, default),
{
    match args {
        Some(a) => match as_u64(get(a, key)) {
            Some(n) => n as usize,
            None => default as usize,
        },
        None => default as usize,
    }
}

// ---- Choosing transactions and accounts for tools --------------------------------------

/// The arguments of the `list_transactions` tool.
#[derive(Debug, Clone, PartialEq)]
pub struct ListToolArgs {
    pub limit: usize,
    pub reviewed: bool,
    pub unreviewed: bool,
    pub name_contains: Option<String>,
    pub date: Option<String>,
    pub category: Option<String>,
    pub tag: Option<String>,
}

/// Reads the arguments of `list_transactions` (limit 25 by default).
pub fn parse_list_tool_args(args: Option<&JsonValue>) -> (r: ListToolArgs)
    ensures
        ({
            let a = match args { Some(x) => Some(*x), None => None };
            &&& r.limit == arg_count(a, "limit"@, 25)
            &&& r.reviewed == arg_bool(a, "reviewed"@, false)
            &&& r.unreviewed == arg_bool(a, "unreviewed"@, false)
            &&& opt_text(r.name_contains) == arg_str(a, "name_contains"@)
            &&& opt_text(r.date) == arg_str(a, "date"@)
            &&& opt_text(r.category) == arg_str(a, "category"@)
            &&& opt_text(r.tag) == arg_str(a, "tag"@)
        }),
{
    ListToolArgs {
        limit: get_count(args, "limit", 25),
        reviewed: get_bool(args, "reviewed", false),
        unreviewed: get_bool(args, "unreviewed", false),
        name_contains: get_str(args, "name_contains"),
        date: get_str(args, "date"),
        category: get_str(args, "category"),
        tag: get_str(args, "tag"),
    }
}

/// The transaction's name, lowercased, contains `q` (lowercased); a
/// transaction without a name does not match.
pub open spec fn name_matches(t: Transaction, q: Seq<char>) -> bool {
    match t.name {
        Some(n) => has_substring(lowercase(n@), lowercase(q)),
        None => false,
    }
}

/// The tag's name, lowercased, is `want`.
pub open spec fn tag_named(tag: Tag, want: Seq<char>) -> bool {
    match tag.name {
        Some(n) => lowercase(n@) == want,
        None => false,
    }
}

/// Some tag of the transaction has the lowercased name `want`.
pub open spec fn has_tag_named(t: Transaction, want: Seq<char>) -> bool {
    match t.tags {
        Some(ts) => any_tag_named(ts@, want),
        None => false,
    }
}

/// Some tag of `ts` has the lowercased name `want`.
pub open spec fn any_tag_named(ts: Seq<Tag>, want: Seq<char>) -> bool {
    exists|k: int| 0 <= k < ts.len() && #[trigger] tag_named(ts[k], want)
}

/// The category with id `cid` has, lowercased, the name `want`.
pub open spec fn category_named(cid: Option<String>, cats: Seq<(String, String)>, want: Seq<char>) -> bool {
    match cid {
        Some(c) => match lookup_name(pair_views(cats), c@) {
            Some(n) => lowercase(n) == want,
            None => false,
        },
        None => false,
    }
}

/// The transaction's date is exactly `d`.
pub open spec fn date_is(t: Transaction, d: Seq<char>) -> bool {
    match t.date {
        Some(x) => x@ == d,
        None => false,
    }
}

/// Whether `list_transactions` keeps transaction `t`.
pub open spec fn tool_keeps(t: Transaction, a: ListToolArgs, cats: Seq<(String, String)>) -> bool {
    &&& (a.name_contains matches Some(q) ==> name_matches(t, q@))
    &&& (a.date matches Some(d) ==> date_is(t, d@))
    &&& (a.category matches Some(c) ==> category_named(t.category_id, cats, lowercase(c@)))
    &&& (a.tag matches Some(w) ==> has_tag_named(t, lowercase(w@)))
}


fn name_matches_exec(t: &Transaction, q: &Vec<char>, Ghost(s): Ghost<Seq<char>>) -> (r: bool)
    requires
        q@ == lowercase(s),
    ensures
        r == name_matches(*t, s),
{
    match &t.name {
        Some(n) => contains_chars(&chars_of(to_lowercase(n.as_str()).as_str()), q),
        None => false,
    }
}

fn has_tag_named_exec(t: &Transaction, want: &Vec<char>) -> (r: bool)
    ensures
        r == has_tag_named(*t, want@),
{
    match &t.tags {
        Some(ts) => {
            let mut i: usize = 0;
            while i < ts.len()
                invariant
                    i <= ts.len(),
                    t.tags == Some(*ts),
                    forall|k: int| 0 <= k < i ==> !#[trigger] tag_named(ts@[k], want@),
                decreases ts.len() - i,
            {
                match &ts[i].name {
                    Some(n) => {
                        if chars_equal(&chars_of(to_lowercase(n.as_str()).as_str()), want) {
                            assert(tag_named(ts@[i as int], want@));
                            assert(any_tag_named(ts@, want@));
                            return true;
                        }
                    },
                    None => {},
                }
                i = i + 1;
            }
            false
        },
        None => false,
    }
}

fn lower_of(s: &String) -> (r: Vec<char>)
    ensures
        r@ == lowercase(s@),
{
    chars_of(to_lowercase(s.as_str()).as_str())
}

fn tool_keeps_exec(
    t: &Transaction,
    a: &ListToolArgs,
    cats: &Vec<(String, String)>,
    q: &Option<Vec<char>>,
    category: &Option<Vec<char>>,
    tag: &Option<Vec<char>>,
) -> (r: bool)
    requires
        a.name_contains matches Some(x) ==> (q matches Some(y) && y@ == lowercase(x@)),
        a.category matches Some(x) ==> (category matches Some(y) && y@ == lowercase(x@)),
        a.tag matches Some(x) ==> (tag matches Some(y) && y@ == lowercase(x@)),
    ensures
        r == tool_keeps(*t, *a, cats@),
{
    if let Some(qq) = q {
        if let Some(x) = &a.name_contains {
            if !name_matches_exec(t, qq, Ghost(x@)) {
                return false;
            }
        }
    }
    if let Some(d) = &a.date {
        match &t.date {
            Some(x) => {
                if !chars_equal(&chars_of(x.as_str()), &chars_of(d.as_str())) {
                    return false;
                }
            },
            None => return false,
        }
    }
    if let Some(c) = category {
        if a.category.is_some() {
            let hit = match &t.category_id {
                Some(cid) => match name_for(cats, cid.as_str()) {
                    Some(n) => chars_equal(&lower_of(&n), c),
                    None => false,
                },
                None => false,
            };
            if !hit {
                return false;
            }
        }
    }
    if let Some(w) = tag {
        if a.tag.is_some() && !has_tag_named_exec(t, w) {
            return false;
        }
    }
    true
}

/// The transactions that `list_transactions` keeps, in order: name
/// containing `name_contains`, exact `date`, category named `category` and
/// a tag named `tag` (names compared lowercased). `cats` gives category
/// names by id.
pub fn tool_filter_transactions(items: Vec<Transaction>, a: &ListToolArgs, cats: &Vec<(String, String)>) -> (r: Vec<Transaction>)
    ensures
        r@ == retained(items@, |t: Transaction| tool_keeps(t, *a, cats@)),
{
    let ghost keep = |t: Transaction| tool_keeps(t, *a, cats@);
    let q = match &a.name_contains {
        Some(x) => Some(lower_of(x)),
        None => None,
    };
    let category = match &a.category {
        Some(x) => Some(lower_of(x)),
        None => None,
    };
    let tag = match &a.tag {
        Some(x) => Some(lower_of(x)),
        None => None,
    };
    let n: usize = items.len();
    let ghost all = items@;
    let mut out: Vec<Transaction> = Vec::new();
    let mut k: usize = 0;
    for t in it: items.into_iter()
        invariant
            it.seq() == all,
            all.len() == n,
            k == it.index(),
            a.name_contains matches Some(x) ==> (q matches Some(y) && y@ == lowercase(x@)),
            a.category matches Some(x) ==> (category matches Some(y) && y@ == lowercase(x@)),
            a.tag matches Some(x) ==> (tag matches Some(y) && y@ == lowercase(x@)),
            keep == |t: Transaction| tool_keeps(t, *a, cats@),
            out@ == retained(all.take(k as int), keep),
    {
        assert(all.take(k + 1).drop_last() == all.take(k as int));
        if tool_keeps_exec(&t, a, cats, &q, &category, &tag) {
            out.push(t);
        }
        assert(k < all.len());
        k = k + 1;
    }
    assert(all.take(all.len() as int) == all);
    out
}

/// The transactions whose name contains `query` (case-insensitive), in
/// order, as `search_transactions` keeps them.
pub fn tool_search_transactions(items: Vec<Transaction>, query: &str) -> (r: Vec<Transaction>)
    ensures
        r@ == retained(items@, |t: Transaction| name_matches(t, query@)),
{
    let ghost keep = |t: Transaction| name_matches(t, query@);
    let q = chars_of(to_lowercase(query).as_str());
    let n: usize = items.len();
    let ghost all = items@;
    let mut out: Vec<Transaction> = Vec::new();
    let mut k: usize = 0;
    for t in it: items.into_iter()
        invariant
            it.seq() == all,
            all.len() == n,
            k == it.index(),
            q@ == lowercase(query@),
            keep == |t: Transaction| name_matches(t, query@),
            out@ == retained(all.take(k as int), keep),
    {
        assert(all.take(k + 1).drop_last() == all.take(k as int));
        if name_matches_exec(&t, &q, Ghost(query@)) {
            out.push(t);
        }
        assert(k < all.len());
        k = k + 1;
    }
    assert(all.take(all.len() as int) == all);
    out
}


/// An account that is neither hidden nor closed.
pub open spec fn is_visible(a: Account) -> bool {
    a.is_user_hidden != Some(true) && a.is_user_closed != Some(true)
}

/// The accounts `list_accounts` shows: all of them when hidden ones are
/// asked for, otherwise those neither hidden nor closed.
pub fn tool_visible_accounts(items: Vec<Account>, include_hidden: bool) -> (r: Vec<Account>)
    ensures
        include_hidden ==> r@ == items@,
        !include_hidden ==> r@ == retained(items@, |a: Account| is_visible(a)),
{
    if include_hidden {
        return items;
    }
    let ghost keep = |a: Account| is_visible(a);
    let n: usize = items.len();
    let ghost all = items@;
    let mut out: Vec<Account> = Vec::new();
    let mut k: usize = 0;
    for a in it: items.into_iter()
        invariant
            it.seq() == all,
            all.len() == n,
            k == it.index(),
            keep == |a: Account| is_visible(a),
            out@ == retained(all.take(k as int), keep),
    {
        assert(all.take(k + 1).drop_last() == all.take(k as int));
        let hidden = match a.is_user_hidden {
            Some(b) => b,
            None => false,
        };
        let closed = match a.is_user_closed {
            Some(b) => b,
            None => false,
        };
        if !hidden && !closed {
            out.push(a);
        }
        assert(k < all.len());
        k = k + 1;
    }
    assert(all.take(all.len() as int) == all);
    out
}

} // verus!
