//! Talking to the service: the request filters it is sent, how its error
//! replies read, and the decisions of the retry loop around one request.
use vstd::prelude::*;
use crate::json::{
    as_str, get, object1, spec_as_array, spec_as_str, spec_get, string_value,
    JsonValue,
};
use crate::text::{ascii_lower, chars_equal, chars_of, push_all, string_from_chars, trim, trim_chars};

verus! {

// ---- Request filters ------------------------------------------------------------

/// The order of a transaction listing.
#[derive(Debug, Clone, PartialEq)]
pub enum TransactionsSort {
    DateDesc,
    DateAsc,
    AmountDesc,
    AmountAsc,
}

/// The service's field and direction names of a sort order.
pub open spec fn sort_names(s: TransactionsSort) -> (Seq<char>, Seq<char>) {
    match s {
        TransactionsSort::DateDesc => ("DATE"@, "DESC"@),
        TransactionsSort::DateAsc => ("DATE"@, "ASC"@),
        TransactionsSort::AmountDesc => ("AMOUNT"@, "DESC"@),
        TransactionsSort::AmountAsc => ("AMOUNT"@, "ASC"@),
    }
}

/// `m` is the member `key` holding the string `val`.
pub open spec fn string_member(m: (String, JsonValue), key: Seq<char>, val: Seq<char>) -> bool {
    &&& m.0@ == key
    &&& (m.1 matches JsonValue::String(s) && s@ == val)
}

/// `v` is `[{"field": F, "direction": D}]` for the sort order `s`.
pub open spec fn is_sort_value(v: JsonValue, s: TransactionsSort) -> bool {
    &&& v matches JsonValue::Array(items)
    &&& items@.len() == 1
    &&& items@[0] matches JsonValue::Object(m)
    &&& m@.len() == 2
    &&& string_member(m@[0], "field"@, sort_names(s).0)
    &&& string_member(m@[1], "direction"@, sort_names(s).1)
}

/// The sort argument of a listing request: `[{"field": F, "direction": D}]`.
pub fn sort_to_graphql(sort: Option<TransactionsSort>) -> (r: Option<JsonValue>)
    ensures
        match sort {
            None => r is None,
            Some(s) => r matches Some(v) && is_sort_value(v, s),
        },
{
    let s = match sort {
        Some(s) => s,
        None => return None,
    };
    let (field, direction) = match s {
        TransactionsSort::DateDesc => ("DATE", "DESC"),
        TransactionsSort::DateAsc => ("DATE", "ASC"),
        TransactionsSort::AmountDesc => ("AMOUNT", "DESC"),
        TransactionsSort::AmountAsc => ("AMOUNT", "ASC"),
    };
    let mut m: Vec<(String, JsonValue)> = Vec::new();
    m.push(("field".to_owned(), string_value(field)));
    m.push(("direction".to_owned(), string_value(direction)));
    let mut items: Vec<JsonValue> = Vec::new();
    items.push(JsonValue::Object(m));
    Some(JsonValue::Array(items))
}

/// The filter argument of a listing request: `{"isReviewed": true}` for
/// reviewed only, `{"isReviewed": false}` for unreviewed only, none
/// otherwise (reviewed wins when both are asked).
pub fn build_transactions_filter(reviewed: bool, unreviewed: bool) -> (r: Option<JsonValue>)
    ensures
        (reviewed || unreviewed) ==> (r matches Some(JsonValue::Object(m)) && m@.len() == 1 && m@[0].0@
            == "isReviewed"@ && m@[0].1 == JsonValue::Bool(reviewed)),
        !(reviewed || unreviewed) ==> r is None,
{
    if reviewed {
        Some(object1("isReviewed", JsonValue::Bool(true)))
    } else if unreviewed {
        Some(object1("isReviewed", JsonValue::Bool(false)))
    } else {
        None
    }
}

// ---- Error replies ----------------------------------------------------------------

/// The first entry of the reply's `errors` array.
pub open spec fn first_error(body: JsonValue) -> Option<JsonValue> {
    match spec_as_array(spec_get(body, "errors"@)) {
        Some(a) => if a.len() > 0 { Some(a[0]) } else { None },
        None => None,
    }
}

/// The `extensions.code` of an error entry.
pub open spec fn error_code(e: JsonValue) -> Option<Seq<char>> {
    match spec_get(e, "extensions"@) {
        Some(x) => spec_as_str(spec_get(x, "code"@)),
        None => None,
    }
}

/// The `message` of an error entry, empty when absent.
pub open spec fn error_message(e: JsonValue) -> Seq<char> {
    match spec_as_str(spec_get(e, "message"@)) {
        Some(m) => m,
        None => Seq::empty(),
    }
}

/// The reply says the token is missing or expired.
pub open spec fn is_unauthenticated_spec(body: JsonValue) -> bool {
    first_error(body) matches Some(e) && error_code(e) == Some("UNAUTHENTICATED"@)
}

/// The text reporting the reply's first error: `graphql error`, then
/// ` (CODE)` when it has a code, then `: message` when it has a message;
/// none when the error has neither, or there is no error.
pub open spec fn graphql_error_text(body: JsonValue) -> Option<Seq<char>> {
    match first_error(body) {
        Some(e) => {
            let msg = error_message(e);
            if msg.len() == 0 && error_code(e) is None {
                None
            } else {
                let with_code = match error_code(e) {
                    Some(c) => "graphql error"@ + " ("@ + c + ")"@,
                    None => "graphql error"@,
                };
                Some(if msg.len() == 0 { with_code } else { with_code + ": "@ + msg })
            }
        },
        None => None,
    }
}

fn first_error_exec(body: &JsonValue) -> (r: Option<&JsonValue>)
    ensures
        match r {
            Some(e) => first_error(*body) == Some(*e),
            None => first_error(*body) is None,
        },
{
    match get(body, "errors") {
        Some(JsonValue::Array(items)) => {
            if items.len() > 0 {
                Some(&items[0])
            } else {
                None
            }
        },
        _ => None,
    }
}

fn error_code_exec(e: &JsonValue) -> (r: Option<&str>)
    ensures
        match r {
            Some(c) => error_code(*e) == Some(c@),
            None => error_code(*e) is None,
        },
{
    match get(e, "extensions") {
        Some(x) => as_str(get(x, "code")),
        None => None,
    }
}

/// Whether the reply says the token is missing or expired.
pub fn is_unauthenticated(body: &JsonValue) -> (r: bool)
    ensures
        r == is_unauthenticated_spec(*body),
{
    match first_error_exec(body) {
        Some(e) => match error_code_exec(e) {
            Some(c) => chars_equal(&chars_of(c), &chars_of("UNAUTHENTICATED")),
            None => false,
        },
        None => false,
    }
}

/// The text reporting the reply's first error; see `graphql_error_text`.
pub fn format_graphql_error(body: &JsonValue) -> (r: Option<String>)
    ensures
        crate::categories::opt_text(r) == graphql_error_text(*body),
{
    let e = match first_error_exec(body) {
        Some(e) => e,
        None => return None,
    };
    let message: Vec<char> = match as_str(get(e, "message")) {
        Some(m) => chars_of(m),
        None => Vec::new(),
    };
    let code = error_code_exec(e);
    if message.len() == 0 && code.is_none() {
        return None;
    }
    let mut out = chars_of("graphql error");
    if let Some(c) = code {
        push_all(&mut out, &chars_of(" ("));
        push_all(&mut out, &chars_of(c));
        push_all(&mut out, &chars_of(")"));
    }
    if message.len() > 0 {
        push_all(&mut out, &chars_of(": "));
        push_all(&mut out, &message);
    }
    Some(string_from_chars(&out))
}

// ---- The retry loop ---------------------------------------------------------------

/// At most this many requests are made for one operation.
pub open spec fn max_attempts() -> int {
    3
}

/// Why a request failed.
#[derive(Debug, Clone, PartialEq)]
pub enum RequestFailure {
    /// The token is missing or expired and could not be renewed.
    Unauthenticated,
    /// The reply reports an error; its text is given.
    Graphql(String),
    /// The reply has an unsuccessful HTTP status.
    HttpStatus,
}

/// What to do after a reply.
#[derive(Debug, Clone, PartialEq)]
pub enum ReplyAction {
    /// Hand the reply back.
    Done,
    /// Give up with this failure.
    Fail(RequestFailure),
    /// Renew the token from the stored browser session, then retry.
    RefreshSession,
    /// Log in with a browser, then retry.
    BrowserLogin,
}

/// `r` is the action after attempt `attempt` (1-based) got a reply: an
/// unauthenticated reply first tries the stored session (first attempt,
/// session present), then a browser login (attempts one and two, when
/// allowed); any other error reply fails with its text, then an
/// unsuccessful status fails.
pub open spec fn reply_rule(
    attempt: int,
    unauthenticated: bool,
    session_dir_exists: bool,
    auto_login_allowed: bool,
    error_text: Option<Seq<char>>,
    http_success: bool,
    r: ReplyAction,
) -> bool {
    if unauthenticated {
        if attempt == 1 && session_dir_exists {
            r is RefreshSession
        } else {
            after_refresh_unavailable(attempt, auto_login_allowed, r)
        }
    } else {
        match error_text {
            Some(t) => r matches ReplyAction::Fail(RequestFailure::Graphql(x)) && x@ == t,
            None => if http_success {
                r is Done
            } else {
                r matches ReplyAction::Fail(RequestFailure::HttpStatus)
            },
        }
    }
}

/// What to do after attempt `attempt` (1-based) got a reply. An
/// unauthenticated reply first tries the stored session (first attempt,
/// session present), then a browser login (attempts one and two, when
/// allowed); any other error reply fails with its text, then an
/// unsuccessful status fails.
pub fn on_reply(
    attempt: u32,
    unauthenticated: bool,
    session_dir_exists: bool,
    auto_login_allowed: bool,
    error_text: Option<String>,
    http_success: bool,
) -> (r: ReplyAction)
    ensures
        reply_rule(
            attempt as int,
            unauthenticated,
            session_dir_exists,
            auto_login_allowed,
            match error_text { Some(t) => Some(t@), None => None },
            http_success,
            r,
        ),
{
    if unauthenticated {
        if attempt == 1 && session_dir_exists {
            return ReplyAction::RefreshSession;
        }
        return on_refresh_failed(attempt, auto_login_allowed);
    }
    match error_text {
        Some(t) => ReplyAction::Fail(RequestFailure::Graphql(t)),
        None => if http_success {
            ReplyAction::Done
        } else {
            ReplyAction::Fail(RequestFailure::HttpStatus)
        },
    }
}

/// The action when the token cannot be renewed from a session: a browser
/// login on attempts one and two when allowed, otherwise failure.
pub open spec fn after_refresh_unavailable(attempt: int, auto_login_allowed: bool, r: ReplyAction) -> bool {
    if attempt <= 2 && auto_login_allowed {
        r is BrowserLogin
    } else {
        r matches ReplyAction::Fail(RequestFailure::Unauthenticated)
    }
}

/// What to do on attempt `attempt` when renewing the token from the
/// session failed or was not possible.
pub fn on_refresh_failed(attempt: u32, auto_login_allowed: bool) -> (r: ReplyAction)
    ensures
        after_refresh_unavailable(attempt as int, auto_login_allowed, r),
{
    if attempt == 1 && !auto_login_allowed {
        return ReplyAction::Fail(RequestFailure::Unauthenticated);
    }
    if attempt <= 2 && auto_login_allowed {
        return ReplyAction::BrowserLogin;
    }
    ReplyAction::Fail(RequestFailure::Unauthenticated)
}

/// The attempt after `attempt`, while attempts remain.
pub fn next_attempt(attempt: u32) -> (r: Option<u32>)
    ensures
        r == if attempt < max_attempts() { Some((attempt + 1) as u32) } else { None::<u32> },
{
    if attempt < 3 {
        Some(attempt + 1)
    } else {
        None
    }
}

// ---- Environment-driven settings --------------------------------------------------

/// `a` and `b` are equal ignoring ASCII case (`str::eq_ignore_ascii_case`).
pub open spec fn eq_ignore_ascii_case_spec(a: Seq<char>, b: Seq<char>) -> bool {
    a.len() == b.len() && forall|i: int| 0 <= i < a.len() ==> ascii_lower(#[trigger] a[i]) == ascii_lower(b[i])
}

fn ascii_lower_exec(c: char) -> (r: char)
    ensures
        r == ascii_lower(c),
{
    if 'A' <= c && c <= 'Z' {
        ((c as u8) + 32) as char
    } else {
        c
    }
}

/// Whether `a` equals `b` ignoring ASCII case.
pub fn eq_ignore_ascii_case(a: &Vec<char>, b: &Vec<char>) -> (r: bool)
    ensures
        r == eq_ignore_ascii_case_spec(a@, b@),
{
    if a.len() != b.len() {
        return false;
    }
    let mut i: usize = 0;
    while i < a.len()
        invariant
            i <= a.len() == b.len(),
            forall|k: int| 0 <= k < i ==> ascii_lower(#[trigger] a@[k]) == ascii_lower(b@[k]),
        decreases a.len() - i,
    {
        if ascii_lower_exec(a[i]) != ascii_lower_exec(b[i]) {
            return false;
        }
        i = i + 1;
    }
    true
}

/// Whether a browser login may be started when the token has expired:
/// never when disabled; always when a test token is set (non-blank) or the
/// opt-in variable is `1` or `true` (any case); otherwise when standard
/// error is a terminal.
pub fn should_attempt_auto_login(
    auto_login: bool,
    test_token_var: Option<String>,
    opt_in_var: Option<String>,
    stderr_is_terminal: bool,
) -> (r: bool)
    ensures
        r == (auto_login && ((test_token_var matches Some(t) && trim(t@).len() > 0) || (opt_in_var matches Some(v) && (v@
            == "1"@ || eq_ignore_ascii_case_spec(v@, "true"@))) || stderr_is_terminal)),
{
    if !auto_login {
        return false;
    }
    if let Some(t) = &test_token_var {
        if trim_chars(&chars_of(t.as_str())).len() > 0 {
            return true;
        }
    }
    if let Some(v) = &opt_in_var {
        let vc = chars_of(v.as_str());
        if chars_equal(&vc, &chars_of("1")) || eq_ignore_ascii_case(&vc, &chars_of("true")) {
            return true;
        }
    }
    stderr_is_terminal
}

/// A token given in place of running the login helper: the variable's value
/// trimmed, when it is not blank.
pub fn token_override(var: Option<String>) -> (r: Option<String>)
    ensures
        match var {
            Some(t) => if trim(t@).len() > 0 {
                r matches Some(x) && x@ == trim(t@)
            } else {
                r is None
            },
            None => r is None,
        },
{
    match var {
        Some(t) => {
            let tt = trim_chars(&chars_of(t.as_str()));
            if tt.len() > 0 {
                Some(string_from_chars(&tt))
            } else {
                None
            }
        },
        None => None,
    }
}

/// The token printed by the login helper: its output trimmed; none when blank.
pub fn token_from_helper_output(out: &str) -> (r: Option<String>)
    ensures
        if trim(out@).len() > 0 {
            r matches Some(x) && x@ == trim(out@)
        } else {
            r is None
        },
{
    let t = trim_chars(&chars_of(out));
    if t.len() > 0 {
        Some(string_from_chars(&t))
    } else {
        None
    }
}

/// A timeout in seconds from an environment variable: its value when it
/// parses as a `u64`, otherwise `default`.
pub fn timeout_from_env(var: Option<String>, default: u64) -> (r: u64)
    ensures
        r == match var {
            Some(v) => match crate::decimal::parse_u64_spec(v@) {
                Some(n) => n,
                None => default,
            },
            None => default,
        },
{
    match var {
        Some(v) => match crate::decimal::parse_u64(&chars_of(v.as_str())) {
            Some(n) => n,
            None => default,
        },
        None => default,
    }
}

/// The GraphQL endpoint of a base URL: trailing slashes removed, then
/// `/api/graphql` appended.
pub open spec fn endpoint_url(base: Seq<char>) -> Seq<char>
    decreases base.len(),
{
    if base.len() > 0 && base.last() == '/' {
        endpoint_url(base.drop_last())
    } else {
        base + "/api/graphql"@
    }
}

/// The GraphQL endpoint of a base URL.
pub fn graphql_url(base_url: &str) -> (r: String)
    ensures
        r@ == endpoint_url(base_url@),
{
    let mut v = chars_of(base_url);
    while v.len() > 0 && v[v.len() - 1] == '/'
        invariant
            endpoint_url(v@) == endpoint_url(base_url@),
        decreases v.len(),
    {
        let ghost before = v@;
        v.pop();
        assert(v@ == before.drop_last());
    }
    push_all(&mut v, &chars_of("/api/graphql"));
    string_from_chars(&v)
}

} // verus!
