//! The JSON documents the tool server answers with: transactions enriched
//! with names, category trees, and the list of tools it offers.
use vstd::prelude::*;
use crate::categories::{lookup_name, name_for, opt_text, pair_views};
use crate::cli::plain_tag_names;
use crate::client::{Category, Icon, Tag, Transaction};
use crate::decimal::{decimal, decimal_chars};
use crate::json::{string_value, JsonNumber, JsonValue};
use crate::mcp::{tool_name, tool_name_of, Tool};
use crate::text::{chars_of, string_from_chars};

verus! {

/// `v` is the JSON string `t`, or `null` when there is no text.
pub open spec fn json_text(v: JsonValue, t: Option<Seq<char>>) -> bool {
    match t {
        Some(x) => v matches JsonValue::String(s) && s@ == x,
        None => v is Null,
    }
}

/// `v` is the JSON boolean `b`, or `null` when there is none.
pub open spec fn json_flag(v: JsonValue, b: Option<bool>) -> bool {
    match b {
        Some(x) => v == JsonValue::Bool(x),
        None => v is Null,
    }
}

/// `v` is the JSON value `j`, or `null` when there is none.
pub open spec fn json_or_null(v: JsonValue, j: Option<JsonValue>) -> bool {
    match j {
        Some(x) => v == x,
        None => v is Null,
    }
}

/// `items` are JSON strings holding `texts`, in order.
pub open spec fn json_strings(items: Seq<JsonValue>, texts: Seq<Seq<char>>) -> bool {
    &&& items.len() == texts.len()
    &&& forall|k: int| 0 <= k < items.len() ==> (#[trigger] items[k] matches JsonValue::String(s) && s@ == texts[k])
}

/// The member at `k` of `m` is named `key`.
pub open spec fn named(m: Seq<(String, JsonValue)>, k: int, key: Seq<char>) -> bool {
    m[k].0@ == key
}

/// The names of a transaction's tags that have one, in order.
pub open spec fn tag_names_of(tags: Option<Vec<Tag>>) -> Seq<Seq<char>> {
    match tags {
        Some(ts) => plain_tag_names(ts@),
        None => Seq::empty(),
    }
}

/// The category name recorded for an optional category id.
pub open spec fn category_name_of(cats: Seq<(String, String)>, id: Option<String>) -> Option<Seq<char>> {
    match id {
        Some(i) => lookup_name(pair_views(cats), i@),
        None => None,
    }
}

/// `r` is transaction `t` as the tools present it: its fields, the name of
/// its category (looked up in `cats`) and the names of its tags.
pub open spec fn is_enriched(r: JsonValue, t: Transaction, cats: Seq<(String, String)>) -> bool {
    &&& r matches JsonValue::Object(m)
    &&& m@.len() == 13
    &&& named(m@, 0, "id"@) && json_text(m@[0].1, Some(t.id@))
    &&& named(m@, 1, "date"@) && json_text(m@[1].1, opt_text(t.date))
    &&& named(m@, 2, "name"@) && json_text(m@[2].1, opt_text(t.name))
    &&& named(m@, 3, "amount"@) && json_or_null(m@[3].1, t.amount)
    &&& named(m@, 4, "is_reviewed"@) && json_flag(m@[4].1, t.is_reviewed)
    &&& named(m@, 5, "category_id"@) && json_text(m@[5].1, opt_text(t.category_id))
    &&& named(m@, 6, "category_name"@) && json_text(m@[6].1, category_name_of(cats, t.category_id))
    &&& named(m@, 7, "tags"@) && (m@[7].1 matches JsonValue::Array(items) && json_strings(items@, tag_names_of(t.tags)))
    &&& named(m@, 8, "type"@) && json_text(m@[8].1, opt_text(t.txn_type))
    &&& named(m@, 9, "user_notes"@) && json_text(m@[9].1, opt_text(t.user_notes))
    &&& named(m@, 10, "item_id"@) && json_text(m@[10].1, opt_text(t.item_id))
    &&& named(m@, 11, "account_id"@) && json_text(m@[11].1, opt_text(t.account_id))
    &&& named(m@, 12, "recurring_id"@) && json_text(m@[12].1, opt_text(t.recurring_id))
}

fn text_value(o: Option<String>) -> (r: JsonValue)
    ensures
        json_text(r, opt_text(o)),
{
    match o {
        Some(s) => JsonValue::String(s),
        None => JsonValue::Null,
    }
}

fn flag_value(o: Option<bool>) -> (r: JsonValue)
    ensures
        json_flag(r, o),
{
    match o {
        Some(b) => JsonValue::Bool(b),
        None => JsonValue::Null,
    }
}

fn value_or_null(o: Option<JsonValue>) -> (r: JsonValue)
    ensures
        json_or_null(r, o),
{
    match o {
        Some(v) => v,
        None => JsonValue::Null,
    }
}

fn key(s: &str) -> (r: String)
    ensures
        r@ == s@,
{
    string_from_chars(&chars_of(s))
}

fn tag_name_values(tags: &Option<Vec<Tag>>) -> (r: Vec<JsonValue>)
    ensures
        json_strings(r@, tag_names_of(*tags)),
{
    let mut out: Vec<JsonValue> = Vec::new();
    match tags {
        Some(ts) => {
            let mut i: usize = 0;
            while i < ts.len()
                invariant
                    i <= ts.len(),
                    *tags == Some(*ts),
                    json_strings(out@, plain_tag_names(ts@.take(i as int))),
                decreases ts.len() - i,
            {
                assert(ts@.take(i + 1).drop_last() == ts@.take(i as int));
                match &ts[i].name {
                    Some(n) => {
                        let ghost before = out@;
                        out.push(JsonValue::String(n.clone()));
                        assert forall|k: int| 0 <= k < out@.len() implies (#[trigger] out@[k] matches JsonValue::String(s)
                            && s@ == plain_tag_names(ts@.take(i + 1))[k]) by {
                            if k < before.len() {
                                assert(out@[k] == before[k]);
                            }
                        }
                    },
                    None => {},
                }
                i = i + 1;
            }
            assert(ts@.take(ts.len() as int) == ts@);
        },
        None => {},
    }
    out
}

/// Transaction `t` as the tools present it; see `is_enriched`.
pub fn enrich_transaction(t: Transaction, cats: &Vec<(String, String)>) -> (r: JsonValue)
    ensures
        is_enriched(r, t, cats@),
{
    let ghost t0 = t;
    let category_name = match &t.category_id {
        Some(c) => name_for(cats, c.as_str()),
        None => None,
    };
    let tags = tag_name_values(&t.tags);
    let mut m: Vec<(String, JsonValue)> = Vec::new();
    m.push((key("id"), JsonValue::String(t.id)));
    m.push((key("date"), text_value(t.date)));
    m.push((key("name"), text_value(t.name)));
    m.push((key("amount"), value_or_null(t.amount)));
    m.push((key("is_reviewed"), flag_value(t.is_reviewed)));
    m.push((key("category_id"), text_value(t.category_id)));
    m.push((key("category_name"), text_value(category_name)));
    m.push((key("tags"), JsonValue::Array(tags)));
    m.push((key("type"), text_value(t.txn_type)));
    m.push((key("user_notes"), text_value(t.user_notes)));
    m.push((key("item_id"), text_value(t.item_id)));
    m.push((key("account_id"), text_value(t.account_id)));
    m.push((key("recurring_id"), text_value(t.recurring_id)));
    JsonValue::Object(m)
}

/// The transactions as the tools present them, in order; see `is_enriched`.
pub fn enrich_transactions(txns: Vec<Transaction>, cats: &Vec<(String, String)>) -> (r: Vec<JsonValue>)
    ensures
        r@.len() == txns@.len(),
        forall|k: int| 0 <= k < txns@.len() ==> is_enriched(#[trigger] r@[k], txns@[k], cats@),
{
    let n: usize = txns.len();
    let ghost all = txns@;
    let mut out: Vec<JsonValue> = Vec::new();
    let mut k: usize = 0;
    for t in it: txns.into_iter()
        invariant
            it.seq() == all,
            all.len() == n,
            k == it.index(),
            out@.len() == k,
            forall|j: int| 0 <= j < k ==> is_enriched(#[trigger] out@[j], all[j], cats@),
    {
        out.push(enrich_transaction(t, cats));
        assert(k < all.len());
        k = k + 1;
    }
    out
}

// ---- Category trees ------------------------------------------------------------

/// The emoji of a category icon given as a Unicode emoji.
pub open spec fn emoji_of(icon: Option<Icon>) -> Option<Seq<char>> {
    match icon {
        Some(Icon::EmojiUnicode { unicode: Some(u) }) => Some(u@),
        _ => None,
    }
}

/// The children a category is shown with.
pub open spec fn shown_children(cat: Category, include_children: bool) -> Seq<Category> {
    if include_children {
        match cat.child_categories {
            Some(c) => c@,
            None => Seq::empty(),
        }
    } else {
        Seq::empty()
    }
}

/// `r` is category `cat` as `list_categories` presents it: `id`, `name`,
/// then `color_name` and `emoji` when it has them, then `children` (with
/// their own children) when children are asked for and there are some.
pub open spec fn is_category_json(r: JsonValue, cat: Category, include_children: bool) -> bool
    decreases cat, 0nat,
{
    let kids = shown_children(cat, include_children);
    let color_at: int = 2;
    let emoji_at: int = if cat.color_name is Some { 3 } else { 2 };
    let kids_at: int = emoji_at + if emoji_of(cat.icon) is Some { 1int } else { 0int };
    &&& r matches JsonValue::Object(m)
    &&& m@.len() == kids_at + if kids.len() > 0 { 1int } else { 0int }
    &&& named(m@, 0, "id"@) && json_text(m@[0].1, Some(cat.id@))
    &&& named(m@, 1, "name"@) && json_text(m@[1].1, opt_text(cat.name))
    &&& (cat.color_name matches Some(c) ==> named(m@, color_at, "color_name"@) && json_text(m@[color_at].1, Some(c@)))
    &&& (emoji_of(cat.icon) matches Some(u) ==> named(m@, emoji_at, "emoji"@) && json_text(m@[emoji_at].1, Some(u)))
    &&& (kids.len() > 0 ==> named(m@, kids_at, "children"@) && (m@[kids_at].1 matches JsonValue::Array(items)
        && {
        proof {
            if include_children && cat.child_categories is Some {
                assert(decreases_to!(cat => cat.child_categories));
                assert(decreases_to!(cat.child_categories => cat.child_categories->0));
                assert(decreases_to!(cat.child_categories->0 => cat.child_categories->0@));
            }
        }
        are_categories_json(items@, kids)
    }))
}

/// `items` are the categories `cats`, with their children, in order.
pub open spec fn are_categories_json(items: Seq<JsonValue>, cats: Seq<Category>) -> bool
    decreases cats, 1nat,
{
    &&& items.len() == cats.len()
    &&& if cats.len() == 0 {
        true
    } else {
        let n = cats.len() - 1;
        proof {
            assert(decreases_to!(cats => cats[n]));
            assert(decreases_to!(cats => cats.subrange(0, n)));
        }
        is_category_json(items[n], cats[n], true) && are_categories_json(items.subrange(0, n), cats.subrange(0, n))
    }
}

proof fn lemma_are_categories_push(items: Seq<JsonValue>, cats: Seq<Category>, x: JsonValue, c: Category)
    requires
        are_categories_json(items, cats),
        is_category_json(x, c, true),
    ensures
        are_categories_json(items.push(x), cats.push(c)),
{
    assert(items.push(x).subrange(0, items.len() as int) == items);
    assert(cats.push(c).subrange(0, cats.len() as int) == cats);
}

/// Category `cat` as `list_categories` presents it; see `is_category_json`.
pub fn serialize_category(cat: Category, include_children: bool) -> (r: JsonValue)
    ensures
        is_category_json(r, cat, include_children),
    decreases cat,
{
    let ghost c0 = cat;
    let mut m: Vec<(String, JsonValue)> = Vec::new();
    m.push((key("id"), JsonValue::String(cat.id)));
    m.push((key("name"), text_value(cat.name)));
    match cat.color_name {
        Some(c) => {
            m.push((key("color_name"), JsonValue::String(c)));
        },
        None => {},
    }
    match cat.icon {
        Some(Icon::EmojiUnicode { unicode: Some(u) }) => {
            m.push((key("emoji"), JsonValue::String(u)));
        },
        _ => {},
    }
    if include_children {
        match cat.child_categories {
            Some(children) => {
                let n: usize = children.len();
                let ghost all = children@;
                proof {
                    assert(decreases_to!(c0 => c0.child_categories));
                    assert(decreases_to!(c0.child_categories => c0.child_categories->0));
                    assert(decreases_to!(c0.child_categories->0 => c0.child_categories->0@));
                }
                let mut kids: Vec<JsonValue> = Vec::new();
                let mut k: usize = 0;
                for child in it: children.into_iter()
                    invariant
                        it.seq() == all,
                        all.len() == n,
                        k == it.index(),
                        all == c0.child_categories->0@,
                        c0 == cat,
                        c0.child_categories is Some,
                        decreases_to!(c0 => all),
                        are_categories_json(kids@, all.take(k as int)),
                {
                    proof {
                        assert(k < all.len());
                        assert(decreases_to!(c0 => c0.child_categories));
                        assert(decreases_to!(c0.child_categories => c0.child_categories->0));
                        assert(decreases_to!(c0.child_categories->0 => c0.child_categories->0@));
                        assert(decreases_to!(c0.child_categories->0@ => c0.child_categories->0@[k as int]));
                        assert(child == all[k as int]);
                        assert(decreases_to!(c0 => child));
                    }
                    let v = serialize_category(child, true);
                    proof {
                        lemma_are_categories_push(kids@, all.take(k as int), v, all[k as int]);
                        assert(all.take(k + 1) == all.take(k as int).push(all[k as int]));
                    }
                    kids.push(v);
                    k = k + 1;
                }
                assert(all.take(all.len() as int) == all);
                if kids.len() > 0 {
                    m.push((key("children"), JsonValue::Array(kids)));
                }
            },
            None => {},
        }
    }
    JsonValue::Object(m)
}

/// The categories as `list_categories` presents them, in order.
pub fn serialize_categories(cats: Vec<Category>, include_children: bool) -> (r: Vec<JsonValue>)
    ensures
        r@.len() == cats@.len(),
        forall|k: int| 0 <= k < cats@.len() ==> is_category_json(#[trigger] r@[k], cats@[k], include_children),
{
    let n: usize = cats.len();
    let ghost all = cats@;
    let mut out: Vec<JsonValue> = Vec::new();
    let mut k: usize = 0;
    for c in it: cats.into_iter()
        invariant
            it.seq() == all,
            all.len() == n,
            k == it.index(),
            out@.len() == k,
            forall|j: int| 0 <= j < k ==> is_category_json(#[trigger] out@[j], all[j], include_children),
    {
        out.push(serialize_category(c, include_children));
        assert(k < all.len());
        k = k + 1;
    }
    out
}

// ---- The tools offered ----------------------------------------------------------

/// The names of the members of an object, in order.
pub open spec fn member_names(m: Seq<(String, JsonValue)>) -> Seq<Seq<char>> {
    m.map_values(|p: (String, JsonValue)| p.0@)
}

/// `r` describes tool `t` to clients: its name, its description, and an
/// input schema of type `object` whose properties are the tool's parameters
/// with their schemas, and which lists the required ones, when there are
/// any.
pub open spec fn is_tool_definition(r: JsonValue, t: Tool) -> bool {
    let req = tool_required(t);
    &&& r matches JsonValue::Object(m)
    &&& m@.len() == 3
    &&& named(m@, 0, "name"@) && json_text(m@[0].1, Some(tool_name(t)))
    &&& named(m@, 1, "description"@) && json_text(m@[1].1, Some(tool_description(t)))
    &&& named(m@, 2, "inputSchema"@) && (m@[2].1 matches JsonValue::Object(s) && s@.len() == (if req.len() > 0 {
        3int
    } else {
        2int
    }) && named(s@, 0, "type"@) && json_text(s@[0].1, Some("object"@)) && named(s@, 1, "properties"@) && (
    s@[1].1 matches JsonValue::Object(p) && tool_properties(p@, t)) && (req.len() > 0 ==> named(
        s@,
        2,
        "required"@,
    ) && (s@[2].1 matches JsonValue::Array(q) && json_strings(q@, req))))
}

fn str_member(k: &str, v: &str) -> (r: (String, JsonValue))
    ensures
        r.0@ == k@,
        r.1 matches JsonValue::String(s) && s@ == v@,
{
    (key(k), string_value(v))
}

fn bool_member(k: &str, b: bool) -> (r: (String, JsonValue))
    ensures
        r.0@ == k@,
        r.1 == JsonValue::Bool(b),
{
    (key(k), JsonValue::Bool(b))
}

fn int_member(k: &str, n: u32) -> (r: (String, JsonValue))
    ensures
        r.0@ == k@,
        r.1 matches JsonValue::Number(x) && x.text@ == decimal(n as nat) && x.as_u64 == Some(n as u64) && x.as_i64
            == Some(n as i64),
{
    let text = string_from_chars(&decimal_chars(n as u64));
    (key(k), JsonValue::Number(JsonNumber { text, as_u64: Some(n as u64), as_i64: Some(n as i64) }))
}

fn obj_member(k: &str, members: Vec<(String, JsonValue)>) -> (r: (String, JsonValue))
    ensures
        r.0@ == k@,
        r.1 == JsonValue::Object(members),
{
    (key(k), JsonValue::Object(members))
}

fn array_member(k: &str, items: Vec<JsonValue>) -> (r: (String, JsonValue))
    ensures
        r.0@ == k@,
        r.1 == JsonValue::Array(items),
{
    (key(k), JsonValue::Array(items))
}

fn tool_definition(t: Tool, description: &str, properties: Vec<(String, JsonValue)>, required: Vec<JsonValue>) -> (r: JsonValue)
    requires
        description@ == tool_description(t),
        tool_properties(properties@, t),
        json_strings(required@, tool_required(t)),
    ensures
        is_tool_definition(r, t),
{
    let mut schema: Vec<(String, JsonValue)> = Vec::new();
    schema.push(str_member("type", "object"));
    schema.push((key("properties"), JsonValue::Object(properties)));
    if required.len() > 0 {
        schema.push((key("required"), JsonValue::Array(required)));
    }
    let mut m: Vec<(String, JsonValue)> = Vec::new();
    m.push((key("name"), JsonValue::String(tool_name_of(&t))));
    m.push(str_member("description", description));
    m.push((key("inputSchema"), JsonValue::Object(schema)));
    JsonValue::Object(m)
}

/// The tools offered, in the order `tools/list` lists them.
pub open spec fn all_tools() -> Seq<Tool> {
    seq![Tool::ListTransactions, Tool::SearchTransactions, Tool::ShowTransaction, Tool::ReviewTransactions, Tool::UnreviewTransactions, Tool::SetTransactionCategory, Tool::SetTransactionNotes, Tool::SetTransactionTags, Tool::ListCategories, Tool::ListTags, Tool::CreateTag, Tool::DeleteTag, Tool::ListRecurrings, Tool::BudgetMonth, Tool::ListAccounts, Tool::Networth, Tool::SpendingSummary, Tool::MonthlySpending, Tool::UpcomingRecurrings]
}

/// The parameters a tool declares, in order.
pub open spec fn tool_params(t: Tool) -> Seq<Seq<char>> {
    match t {
        Tool::ListTransactions => seq!["limit"@, "reviewed"@, "unreviewed"@, "category"@, "date"@, "name_contains"@, "tag"@],
        Tool::SearchTransactions => seq!["query"@, "limit"@],
        Tool::ShowTransaction => seq!["id"@],
        Tool::ReviewTransactions => seq!["ids"@],
        Tool::UnreviewTransactions => seq!["ids"@],
        Tool::SetTransactionCategory => seq!["ids"@, "category"@, "category_id"@],
        Tool::SetTransactionNotes => seq!["ids"@, "notes"@],
        Tool::SetTransactionTags => seq!["ids"@, "tag_ids"@, "mode"@],
        Tool::ListCategories => seq!["include_children"@],
        Tool::ListTags => Seq::empty(),
        Tool::CreateTag => seq!["name"@, "color_name"@],
        Tool::DeleteTag => seq!["id"@],
        Tool::ListRecurrings => Seq::empty(),
        Tool::BudgetMonth => Seq::empty(),
        Tool::ListAccounts => seq!["include_hidden"@],
        Tool::Networth => Seq::empty(),
        Tool::SpendingSummary => Seq::empty(),
        Tool::MonthlySpending => Seq::empty(),
        Tool::UpcomingRecurrings => Seq::empty(),
    }
}

/// The parameters a tool requires, in order.
pub open spec fn tool_required(t: Tool) -> Seq<Seq<char>> {
    match t {
        Tool::ListTransactions => Seq::empty(),
        Tool::SearchTransactions => seq!["query"@],
        Tool::ShowTransaction => seq!["id"@],
        Tool::ReviewTransactions => seq!["ids"@],
        Tool::UnreviewTransactions => seq!["ids"@],
        Tool::SetTransactionCategory => seq!["ids"@],
        Tool::SetTransactionNotes => seq!["ids"@],
        Tool::SetTransactionTags => seq!["ids"@, "tag_ids"@],
        Tool::ListCategories => Seq::empty(),
        Tool::ListTags => Seq::empty(),
        Tool::CreateTag => seq!["name"@],
        Tool::DeleteTag => seq!["id"@],
        Tool::ListRecurrings => Seq::empty(),
        Tool::BudgetMonth => Seq::empty(),
        Tool::ListAccounts => Seq::empty(),
        Tool::Networth => Seq::empty(),
        Tool::SpendingSummary => Seq::empty(),
        Tool::MonthlySpending => Seq::empty(),
        Tool::UpcomingRecurrings => Seq::empty(),
    }
}

/// Member `p` is named `k` and holds the JSON string `v`.
pub open spec fn text_member_is(p: (String, JsonValue), k: Seq<char>, v: Seq<char>) -> bool {
    p.0@ == k && json_text(p.1, Some(v))
}

/// A parameter schema `{"type": kind, "description": description}`.
pub open spec fn plain_param(v: JsonValue, kind: Seq<char>, description: Seq<char>) -> bool {
    &&& v matches JsonValue::Object(m)
    &&& m@.len() == 2
    &&& text_member_is(m@[0], "type"@, kind)
    &&& text_member_is(m@[1], "description"@, description)
}

/// An integer parameter schema with a default:
/// `{"type": "integer", "description": description, "default": n}`.
pub open spec fn int_param(v: JsonValue, description: Seq<char>, n: nat) -> bool {
    &&& v matches JsonValue::Object(m)
    &&& m@.len() == 3
    &&& text_member_is(m@[0], "type"@, "integer"@)
    &&& text_member_is(m@[1], "description"@, description)
    &&& m@[2].0@ == "default"@
    &&& m@[2].1 matches JsonValue::Number(x)
    &&& x.text@ == decimal(n) && x.as_u64 == Some(n as u64) && x.as_i64 == Some(n as i64)
}

/// A boolean parameter schema with a default:
/// `{"type": "boolean", "description": description, "default": b}`.
pub open spec fn bool_param(v: JsonValue, description: Seq<char>, b: bool) -> bool {
    &&& v matches JsonValue::Object(m)
    &&& m@.len() == 3
    &&& text_member_is(m@[0], "type"@, "boolean"@)
    &&& text_member_is(m@[1], "description"@, description)
    &&& m@[2].0@ == "default"@
    &&& m@[2].1 == JsonValue::Bool(b)
}

/// A parameter schema for a list of strings:
/// `{"type": "array", "items": {"type": "string"}, "description": description}`.
pub open spec fn list_param(v: JsonValue, description: Seq<char>) -> bool {
    &&& v matches JsonValue::Object(m)
    &&& m@.len() == 3
    &&& text_member_is(m@[0], "type"@, "array"@)
    &&& m@[1].0@ == "items"@
    &&& m@[1].1 matches JsonValue::Object(i)
    &&& i@.len() == 1 && text_member_is(i@[0], "type"@, "string"@)
    &&& text_member_is(m@[2], "description"@, description)
}

/// A string parameter schema that takes one of `choices`:
/// `{"type": "string", "enum": choices, "description": description,
/// "default": default}`.
pub open spec fn choice_param(v: JsonValue, choices: Seq<Seq<char>>, description: Seq<char>, default: Seq<char>) -> bool {
    &&& v matches JsonValue::Object(m)
    &&& m@.len() == 4
    &&& text_member_is(m@[0], "type"@, "string"@)
    &&& m@[1].0@ == "enum"@
    &&& m@[1].1 matches JsonValue::Array(a)
    &&& json_strings(a@, choices)
    &&& text_member_is(m@[2], "description"@, description)
    &&& text_member_is(m@[3], "default"@, default)
}

/// The properties of tool `t`'s input schema: its parameters, in order,
/// each with its schema.
pub open spec fn tool_properties(p: Seq<(String, JsonValue)>, t: Tool) -> bool {
    &&& member_names(p) == tool_params(t)
    &&& forall|k: int| 0 <= k < p.len() ==> param_schema(#[trigger] p[k].1, t, p[k].0@)
}

/// What a tool tells clients it does.
pub open spec fn tool_description(t: Tool) -> Seq<char> {
    match t {
        Tool::ListTransactions => "List transactions from Copilot Money with optional filters. Returns transaction data including date, name, amount, category, tags, and review status."@,
        Tool::SearchTransactions => "Search transactions by merchant/name text. Returns matching transactions."@,
        Tool::ShowTransaction => "Get full details for a specific transaction by ID."@,
        Tool::ReviewTransactions => "Mark one or more transactions as reviewed."@,
        Tool::UnreviewTransactions => "Mark one or more transactions as unreviewed."@,
        Tool::SetTransactionCategory => "Set the category for one or more transactions by category name or ID."@,
        Tool::SetTransactionNotes => "Set or clear user notes on one or more transactions."@,
        Tool::SetTransactionTags => "Set, add, or remove tags on one or more transactions."@,
        Tool::ListCategories => "List all spending categories from Copilot Money, including child/nested categories."@,
        Tool::ListTags => "List all tags from Copilot Money."@,
        Tool::CreateTag => "Create a new tag in Copilot Money."@,
        Tool::DeleteTag => "Delete a tag from Copilot Money."@,
        Tool::ListRecurrings => "List all recurring expense/income rules from Copilot Money."@,
        Tool::BudgetMonth => "Show monthly budget history from Copilot Money."@,
        Tool::ListAccounts => "List connected financial accounts from Copilot Money (banks, credit cards, investments, etc)."@,
        Tool::Networth => "Get current net worth (assets, debt, total) from Copilot Money."@,
        Tool::SpendingSummary => "Get a spending summary with total income, total spent, and net income."@,
        Tool::MonthlySpending => "Get monthly spending totals with month-over-month comparison."@,
        Tool::UpcomingRecurrings => "List upcoming unpaid recurring payments and bills."@,
    }
}

/// `v` is the schema that tool `t` gives its parameter `name`: its JSON
/// type, its description, and where it has them its default, the type of
/// its items and the values it takes.
pub open spec fn param_schema(v: JsonValue, t: Tool, name: Seq<char>) -> bool {
    match t {
        Tool::ListTransactions => {
            if name == "limit"@ {
                int_param(v, "Maximum number of transactions to return (default 25)"@, 25)
            } else if name == "reviewed"@ {
                plain_param(v, "boolean"@, "If true, only return reviewed transactions"@)
            } else if name == "unreviewed"@ {
                plain_param(v, "boolean"@, "If true, only return unreviewed transactions"@)
            } else if name == "category"@ {
                plain_param(v, "string"@, "Filter by category name (case-insensitive exact match)"@)
            } else if name == "date"@ {
                plain_param(v, "string"@, "Filter by date (YYYY-MM-DD format)"@)
            } else if name == "name_contains"@ {
                plain_param(v, "string"@, "Filter by merchant/name substring (case-insensitive)"@)
            } else if name == "tag"@ {
                plain_param(v, "string"@, "Filter by tag name"@)
            } else {
                false
            }
        },
        Tool::SearchTransactions => {
            if name == "query"@ {
                plain_param(v, "string"@, "Search text to match against transaction merchant/name"@)
            } else if name == "limit"@ {
                int_param(v, "Maximum number of results (default 50)"@, 50)
            } else {
                false
            }
        },
        Tool::ShowTransaction => {
            if name == "id"@ {
                plain_param(v, "string"@, "Transaction ID"@)
            } else {
                false
            }
        },
        Tool::ReviewTransactions => {
            if name == "ids"@ {
                list_param(v, "Transaction IDs to mark as reviewed"@)
            } else {
                false
            }
        },
        Tool::UnreviewTransactions => {
            if name == "ids"@ {
                list_param(v, "Transaction IDs to mark as unreviewed"@)
            } else {
                false
            }
        },
        Tool::SetTransactionCategory => {
            if name == "ids"@ {
                list_param(v, "Transaction IDs to update"@)
            } else if name == "category"@ {
                plain_param(v, "string"@, "Category name (case-insensitive)"@)
            } else if name == "category_id"@ {
                plain_param(v, "string"@, "Category ID (use instead of name for precision)"@)
            } else {
                false
            }
        },
        Tool::SetTransactionNotes => {
            if name == "ids"@ {
                list_param(v, "Transaction IDs to update"@)
            } else if name == "notes"@ {
                plain_param(v, "string"@, "Notes text to set (omit to clear)"@)
            } else {
                false
            }
        },
        Tool::SetTransactionTags => {
            if name == "ids"@ {
                list_param(v, "Transaction IDs to update"@)
            } else if name == "tag_ids"@ {
                list_param(v, "Tag IDs to set/add/remove"@)
            } else if name == "mode"@ {
                choice_param(v, seq!["set"@, "add"@, "remove"@], "How to apply tags: 'set' replaces all, 'add' appends, 'remove' removes (default: set)"@, "set"@)
            } else {
                false
            }
        },
        Tool::ListCategories => {
            if name == "include_children"@ {
                bool_param(v, "Include nested child categories (default true)"@, true)
            } else {
                false
            }
        },
        Tool::ListTags => false,
        Tool::CreateTag => {
            if name == "name"@ {
                plain_param(v, "string"@, "Tag name"@)
            } else if name == "color_name"@ {
                plain_param(v, "string"@, "Optional color name"@)
            } else {
                false
            }
        },
        Tool::DeleteTag => {
            if name == "id"@ {
                plain_param(v, "string"@, "Tag ID to delete"@)
            } else {
                false
            }
        },
        Tool::ListRecurrings => false,
        Tool::BudgetMonth => false,
        Tool::ListAccounts => {
            if name == "include_hidden"@ {
                bool_param(v, "Include hidden accounts (default false)"@, false)
            } else {
                false
            }
        },
        Tool::Networth => false,
        Tool::SpendingSummary => false,
        Tool::MonthlySpending => false,
        Tool::UpcomingRecurrings => false,
    }
}


fn definition_of_list_transactions() -> (r: JsonValue)
    ensures
        is_tool_definition(r, Tool::ListTransactions),
{
    let properties: Vec<(String, JsonValue)> = vec![
        obj_member("limit", vec![str_member("type", "integer"), str_member("description", "Maximum number of transactions to return (default 25)"), int_member("default", 25)]),
        obj_member("reviewed", vec![str_member("type", "boolean"), str_member("description", "If true, only return reviewed transactions")]),
        obj_member("unreviewed", vec![str_member("type", "boolean"), str_member("description", "If true, only return unreviewed transactions")]),
        obj_member("category", vec![str_member("type", "string"), str_member("description", "Filter by category name (case-insensitive exact match)")]),
        obj_member("date", vec![str_member("type", "string"), str_member("description", "Filter by date (YYYY-MM-DD format)")]),
        obj_member("name_contains", vec![str_member("type", "string"), str_member("description", "Filter by merchant/name substring (case-insensitive)")]),
        obj_member("tag", vec![str_member("type", "string"), str_member("description", "Filter by tag name")]),
    ];
    let required: Vec<JsonValue> = vec![];
    proof {
        assert(member_names(properties@) == tool_params(Tool::ListTransactions));
        assert forall|k: int| 0 <= k < properties@.len() implies param_schema(
            #[trigger] properties@[k].1,
            Tool::ListTransactions,
            properties@[k].0@,
        ) by {
            reveal_strlit("limit");
            reveal_strlit("reviewed");
            reveal_strlit("unreviewed");
            reveal_strlit("category");
            reveal_strlit("date");
            reveal_strlit("name_contains");
            reveal_strlit("tag");
            if k == 0 {
                assert(properties@[0].0@ == "limit"@);
            }
            if k == 1 {
                assert(properties@[1].0@ == "reviewed"@);
                assert("reviewed"@.len() != "limit"@.len());
            }
            if k == 2 {
                assert(properties@[2].0@ == "unreviewed"@);
                assert("unreviewed"@.len() != "limit"@.len());
                assert("unreviewed"@.len() != "reviewed"@.len());
            }
            if k == 3 {
                assert(properties@[3].0@ == "category"@);
                assert("category"@.len() != "limit"@.len());
                assert("category"@[0] != "reviewed"@[0]);
                assert("category"@.len() != "unreviewed"@.len());
            }
            if k == 4 {
                assert(properties@[4].0@ == "date"@);
                assert("date"@.len() != "limit"@.len());
                assert("date"@.len() != "reviewed"@.len());
                assert("date"@.len() != "unreviewed"@.len());
                assert("date"@.len() != "category"@.len());
            }
            if k == 5 {
                assert(properties@[5].0@ == "name_contains"@);
                assert("name_contains"@.len() != "limit"@.len());
                assert("name_contains"@.len() != "reviewed"@.len());
                assert("name_contains"@.len() != "unreviewed"@.len());
                assert("name_contains"@.len() != "category"@.len());
                assert("name_contains"@.len() != "date"@.len());
            }
            if k == 6 {
                assert(properties@[6].0@ == "tag"@);
                assert("tag"@.len() != "limit"@.len());
                assert("tag"@.len() != "reviewed"@.len());
                assert("tag"@.len() != "unreviewed"@.len());
                assert("tag"@.len() != "category"@.len());
                assert("tag"@.len() != "date"@.len());
                assert("tag"@.len() != "name_contains"@.len());
            }
        }
        assert(tool_properties(properties@, Tool::ListTransactions));
        assert(json_strings(required@, tool_required(Tool::ListTransactions)));
    }
    tool_definition(Tool::ListTransactions, "List transactions from Copilot Money with optional filters. Returns transaction data including date, name, amount, category, tags, and review status.", properties, required)
}

fn definition_of_search_transactions() -> (r: JsonValue)
    ensures
        is_tool_definition(r, Tool::SearchTransactions),
{
    let properties: Vec<(String, JsonValue)> = vec![
        obj_member("query", vec![str_member("type", "string"), str_member("description", "Search text to match against transaction merchant/name")]),
        obj_member("limit", vec![str_member("type", "integer"), str_member("description", "Maximum number of results (default 50)"), int_member("default", 50)]),
    ];
    let required: Vec<JsonValue> = vec![string_value("query")];
    proof {
        assert(member_names(properties@) == tool_params(Tool::SearchTransactions));
        assert forall|k: int| 0 <= k < properties@.len() implies param_schema(
            #[trigger] properties@[k].1,
            Tool::SearchTransactions,
            properties@[k].0@,
        ) by {
            reveal_strlit("query");
            reveal_strlit("limit");
            if k == 0 {
                assert(properties@[0].0@ == "query"@);
            }
            if k == 1 {
                assert(properties@[1].0@ == "limit"@);
                assert("limit"@[0] != "query"@[0]);
            }
        }
        assert(tool_properties(properties@, Tool::SearchTransactions));
        assert(json_strings(required@, tool_required(Tool::SearchTransactions)));
    }
    tool_definition(Tool::SearchTransactions, "Search transactions by merchant/name text. Returns matching transactions.", properties, required)
}

fn definition_of_show_transaction() -> (r: JsonValue)
    ensures
        is_tool_definition(r, Tool::ShowTransaction),
{
    let properties: Vec<(String, JsonValue)> = vec![
        obj_member("id", vec![str_member("type", "string"), str_member("description", "Transaction ID")]),
    ];
    let required: Vec<JsonValue> = vec![string_value("id")];
    proof {
        assert(member_names(properties@) == tool_params(Tool::ShowTransaction));
        assert forall|k: int| 0 <= k < properties@.len() implies param_schema(
            #[trigger] properties@[k].1,
            Tool::ShowTransaction,
            properties@[k].0@,
        ) by {
            reveal_strlit("id");
        }
        assert(tool_properties(properties@, Tool::ShowTransaction));
        assert(json_strings(required@, tool_required(Tool::ShowTransaction)));
    }
    tool_definition(Tool::ShowTransaction, "Get full details for a specific transaction by ID.", properties, required)
}

fn definition_of_review_transactions() -> (r: JsonValue)
    ensures
        is_tool_definition(r, Tool::ReviewTransactions),
{
    let properties: Vec<(String, JsonValue)> = vec![
        obj_member("ids", vec![str_member("type", "array"), obj_member("items", vec![str_member("type", "string")]), str_member("description", "Transaction IDs to mark as reviewed")]),
    ];
    let required: Vec<JsonValue> = vec![string_value("ids")];
    proof {
        assert(member_names(properties@) == tool_params(Tool::ReviewTransactions));
        assert forall|k: int| 0 <= k < properties@.len() implies param_schema(
            #[trigger] properties@[k].1,
            Tool::ReviewTransactions,
            properties@[k].0@,
        ) by {
            reveal_strlit("ids");
        }
        assert(tool_properties(properties@, Tool::ReviewTransactions));
        assert(json_strings(required@, tool_required(Tool::ReviewTransactions)));
    }
    tool_definition(Tool::ReviewTransactions, "Mark one or more transactions as reviewed.", properties, required)
}

fn definition_of_unreview_transactions() -> (r: JsonValue)
    ensures
        is_tool_definition(r, Tool::UnreviewTransactions),
{
    let properties: Vec<(String, JsonValue)> = vec![
        obj_member("ids", vec![str_member("type", "array"), obj_member("items", vec![str_member("type", "string")]), str_member("description", "Transaction IDs to mark as unreviewed")]),
    ];
    let required: Vec<JsonValue> = vec![string_value("ids")];
    proof {
        assert(member_names(properties@) == tool_params(Tool::UnreviewTransactions));
        assert forall|k: int| 0 <= k < properties@.len() implies param_schema(
            #[trigger] properties@[k].1,
            Tool::UnreviewTransactions,
            properties@[k].0@,
        ) by {
            reveal_strlit("ids");
        }
        assert(tool_properties(properties@, Tool::UnreviewTransactions));
        assert(json_strings(required@, tool_required(Tool::UnreviewTransactions)));
    }
    tool_definition(Tool::UnreviewTransactions, "Mark one or more transactions as unreviewed.", properties, required)
}

fn definition_of_set_transaction_category() -> (r: JsonValue)
    ensures
        is_tool_definition(r, Tool::SetTransactionCategory),
{
    let properties: Vec<(String, JsonValue)> = vec![
        obj_member("ids", vec![str_member("type", "array"), obj_member("items", vec![str_member("type", "string")]), str_member("description", "Transaction IDs to update")]),
        obj_member("category", vec![str_member("type", "string"), str_member("description", "Category name (case-insensitive)")]),
        obj_member("category_id", vec![str_member("type", "string"), str_member("description", "Category ID (use instead of name for precision)")]),
    ];
    let required: Vec<JsonValue> = vec![string_value("ids")];
    proof {
        assert(member_names(properties@) == tool_params(Tool::SetTransactionCategory));
        assert forall|k: int| 0 <= k < properties@.len() implies param_schema(
            #[trigger] properties@[k].1,
            Tool::SetTransactionCategory,
            properties@[k].0@,
        ) by {
            reveal_strlit("ids");
            reveal_strlit("category");
            reveal_strlit("category_id");
            if k == 0 {
                assert(properties@[0].0@ == "ids"@);
            }
            if k == 1 {
                assert(properties@[1].0@ == "category"@);
                assert("category"@.len() != "ids"@.len());
            }
            if k == 2 {
                assert(properties@[2].0@ == "category_id"@);
                assert("category_id"@.len() != "ids"@.len());
                assert("category_id"@.len() != "category"@.len());
            }
        }
        assert(tool_properties(properties@, Tool::SetTransactionCategory));
        assert(json_strings(required@, tool_required(Tool::SetTransactionCategory)));
    }
    tool_definition(Tool::SetTransactionCategory, "Set the category for one or more transactions by category name or ID.", properties, required)
}

fn definition_of_set_transaction_notes() -> (r: JsonValue)
    ensures
        is_tool_definition(r, Tool::SetTransactionNotes),
{
    let properties: Vec<(String, JsonValue)> = vec![
        obj_member("ids", vec![str_member("type", "array"), obj_member("items", vec![str_member("type", "string")]), str_member("description", "Transaction IDs to update")]),
        obj_member("notes", vec![str_member("type", "string"), str_member("description", "Notes text to set (omit to clear)")]),
    ];
    let required: Vec<JsonValue> = vec![string_value("ids")];
    proof {
        assert(member_names(properties@) == tool_params(Tool::SetTransactionNotes));
        assert forall|k: int| 0 <= k < properties@.len() implies param_schema(
            #[trigger] properties@[k].1,
            Tool::SetTransactionNotes,
            properties@[k].0@,
        ) by {
            reveal_strlit("ids");
            reveal_strlit("notes");
            if k == 0 {
                assert(properties@[0].0@ == "ids"@);
            }
            if k == 1 {
                assert(properties@[1].0@ == "notes"@);
                assert("notes"@.len() != "ids"@.len());
            }
        }
        assert(tool_properties(properties@, Tool::SetTransactionNotes));
        assert(json_strings(required@, tool_required(Tool::SetTransactionNotes)));
    }
    tool_definition(Tool::SetTransactionNotes, "Set or clear user notes on one or more transactions.", properties, required)
}

fn definition_of_set_transaction_tags() -> (r: JsonValue)
    ensures
        is_tool_definition(r, Tool::SetTransactionTags),
{
    let properties: Vec<(String, JsonValue)> = vec![
        obj_member("ids", vec![str_member("type", "array"), obj_member("items", vec![str_member("type", "string")]), str_member("description", "Transaction IDs to update")]),
        obj_member("tag_ids", vec![str_member("type", "array"), obj_member("items", vec![str_member("type", "string")]), str_member("description", "Tag IDs to set/add/remove")]),
        obj_member("mode", vec![str_member("type", "string"), array_member("enum", vec![string_value("set"), string_value("add"), string_value("remove")]), str_member("description", "How to apply tags: 'set' replaces all, 'add' appends, 'remove' removes (default: set)"), str_member("default", "set")]),
    ];
    let required: Vec<JsonValue> = vec![string_value("ids"), string_value("tag_ids")];
    proof {
        assert(member_names(properties@) == tool_params(Tool::SetTransactionTags));
        assert forall|k: int| 0 <= k < properties@.len() implies param_schema(
            #[trigger] properties@[k].1,
            Tool::SetTransactionTags,
            properties@[k].0@,
        ) by {
            reveal_strlit("ids");
            reveal_strlit("tag_ids");
            reveal_strlit("mode");
            if k == 0 {
                assert(properties@[0].0@ == "ids"@);
            }
            if k == 1 {
                assert(properties@[1].0@ == "tag_ids"@);
                assert("tag_ids"@.len() != "ids"@.len());
            }
            if k == 2 {
                assert(properties@[2].0@ == "mode"@);
                assert("mode"@.len() != "ids"@.len());
                assert("mode"@.len() != "tag_ids"@.len());
            }
        }
        assert(tool_properties(properties@, Tool::SetTransactionTags));
        assert(json_strings(required@, tool_required(Tool::SetTransactionTags)));
    }
    tool_definition(Tool::SetTransactionTags, "Set, add, or remove tags on one or more transactions.", properties, required)
}

fn definition_of_list_categories() -> (r: JsonValue)
    ensures
        is_tool_definition(r, Tool::ListCategories),
{
    let properties: Vec<(String, JsonValue)> = vec![
        obj_member("include_children", vec![str_member("type", "boolean"), str_member("description", "Include nested child categories (default true)"), bool_member("default", true)]),
    ];
    let required: Vec<JsonValue> = vec![];
    proof {
        assert(member_names(properties@) == tool_params(Tool::ListCategories));
        assert forall|k: int| 0 <= k < properties@.len() implies param_schema(
            #[trigger] properties@[k].1,
            Tool::ListCategories,
            properties@[k].0@,
        ) by {
            reveal_strlit("include_children");
        }
        assert(tool_properties(properties@, Tool::ListCategories));
        assert(json_strings(required@, tool_required(Tool::ListCategories)));
    }
    tool_definition(Tool::ListCategories, "List all spending categories from Copilot Money, including child/nested categories.", properties, required)
}

fn definition_of_list_tags() -> (r: JsonValue)
    ensures
        is_tool_definition(r, Tool::ListTags),
{
    let properties: Vec<(String, JsonValue)> = vec![
    ];
    let required: Vec<JsonValue> = vec![];
    proof {
        assert(member_names(properties@) == tool_params(Tool::ListTags));
        assert forall|k: int| 0 <= k < properties@.len() implies param_schema(
            #[trigger] properties@[k].1,
            Tool::ListTags,
            properties@[k].0@,
        ) by {
        }
        assert(tool_properties(properties@, Tool::ListTags));
        assert(json_strings(required@, tool_required(Tool::ListTags)));
    }
    tool_definition(Tool::ListTags, "List all tags from Copilot Money.", properties, required)
}

fn definition_of_create_tag() -> (r: JsonValue)
    ensures
        is_tool_definition(r, Tool::CreateTag),
{
    let properties: Vec<(String, JsonValue)> = vec![
        obj_member("name", vec![str_member("type", "string"), str_member("description", "Tag name")]),
        obj_member("color_name", vec![str_member("type", "string"), str_member("description", "Optional color name")]),
    ];
    let required: Vec<JsonValue> = vec![string_value("name")];
    proof {
        assert(member_names(properties@) == tool_params(Tool::CreateTag));
        assert forall|k: int| 0 <= k < properties@.len() implies param_schema(
            #[trigger] properties@[k].1,
            Tool::CreateTag,
            properties@[k].0@,
        ) by {
            reveal_strlit("name");
            reveal_strlit("color_name");
            if k == 0 {
                assert(properties@[0].0@ == "name"@);
            }
            if k == 1 {
                assert(properties@[1].0@ == "color_name"@);
                assert("color_name"@.len() != "name"@.len());
            }
        }
        assert(tool_properties(properties@, Tool::CreateTag));
        assert(json_strings(required@, tool_required(Tool::CreateTag)));
    }
    tool_definition(Tool::CreateTag, "Create a new tag in Copilot Money.", properties, required)
}

fn definition_of_delete_tag() -> (r: JsonValue)
    ensures
        is_tool_definition(r, Tool::DeleteTag),
{
    let properties: Vec<(String, JsonValue)> = vec![
        obj_member("id", vec![str_member("type", "string"), str_member("description", "Tag ID to delete")]),
    ];
    let required: Vec<JsonValue> = vec![string_value("id")];
    proof {
        assert(member_names(properties@) == tool_params(Tool::DeleteTag));
        assert forall|k: int| 0 <= k < properties@.len() implies param_schema(
            #[trigger] properties@[k].1,
            Tool::DeleteTag,
            properties@[k].0@,
        ) by {
            reveal_strlit("id");
        }
        assert(tool_properties(properties@, Tool::DeleteTag));
        assert(json_strings(required@, tool_required(Tool::DeleteTag)));
    }
    tool_definition(Tool::DeleteTag, "Delete a tag from Copilot Money.", properties, required)
}

fn definition_of_list_recurrings() -> (r: JsonValue)
    ensures
        is_tool_definition(r, Tool::ListRecurrings),
{
    let properties: Vec<(String, JsonValue)> = vec![
    ];
    let required: Vec<JsonValue> = vec![];
    proof {
        assert(member_names(properties@) == tool_params(Tool::ListRecurrings));
        assert forall|k: int| 0 <= k < properties@.len() implies param_schema(
            #[trigger] properties@[k].1,
            Tool::ListRecurrings,
            properties@[k].0@,
        ) by {
        }
        assert(tool_properties(properties@, Tool::ListRecurrings));
        assert(json_strings(required@, tool_required(Tool::ListRecurrings)));
    }
    tool_definition(Tool::ListRecurrings, "List all recurring expense/income rules from Copilot Money.", properties, required)
}

fn definition_of_budget_month() -> (r: JsonValue)
    ensures
        is_tool_definition(r, Tool::BudgetMonth),
{
    let properties: Vec<(String, JsonValue)> = vec![
    ];
    let required: Vec<JsonValue> = vec![];
    proof {
        assert(member_names(properties@) == tool_params(Tool::BudgetMonth));
        assert forall|k: int| 0 <= k < properties@.len() implies param_schema(
            #[trigger] properties@[k].1,
            Tool::BudgetMonth,
            properties@[k].0@,
        ) by {
        }
        assert(tool_properties(properties@, Tool::BudgetMonth));
        assert(json_strings(required@, tool_required(Tool::BudgetMonth)));
    }
    tool_definition(Tool::BudgetMonth, "Show monthly budget history from Copilot Money.", properties, required)
}

fn definition_of_list_accounts() -> (r: JsonValue)
    ensures
        is_tool_definition(r, Tool::ListAccounts),
{
    let properties: Vec<(String, JsonValue)> = vec![
        obj_member("include_hidden", vec![str_member("type", "boolean"), str_member("description", "Include hidden accounts (default false)"), bool_member("default", false)]),
    ];
    let required: Vec<JsonValue> = vec![];
    proof {
        assert(member_names(properties@) == tool_params(Tool::ListAccounts));
        assert forall|k: int| 0 <= k < properties@.len() implies param_schema(
            #[trigger] properties@[k].1,
            Tool::ListAccounts,
            properties@[k].0@,
        ) by {
            reveal_strlit("include_hidden");
        }
        assert(tool_properties(properties@, Tool::ListAccounts));
        assert(json_strings(required@, tool_required(Tool::ListAccounts)));
    }
    tool_definition(Tool::ListAccounts, "List connected financial accounts from Copilot Money (banks, credit cards, investments, etc).", properties, required)
}

fn definition_of_networth() -> (r: JsonValue)
    ensures
        is_tool_definition(r, Tool::Networth),
{
    let properties: Vec<(String, JsonValue)> = vec![
    ];
    let required: Vec<JsonValue> = vec![];
    proof {
        assert(member_names(properties@) == tool_params(Tool::Networth));
        assert forall|k: int| 0 <= k < properties@.len() implies param_schema(
            #[trigger] properties@[k].1,
            Tool::Networth,
            properties@[k].0@,
        ) by {
        }
        assert(tool_properties(properties@, Tool::Networth));
        assert(json_strings(required@, tool_required(Tool::Networth)));
    }
    tool_definition(Tool::Networth, "Get current net worth (assets, debt, total) from Copilot Money.", properties, required)
}

fn definition_of_spending_summary() -> (r: JsonValue)
    ensures
        is_tool_definition(r, Tool::SpendingSummary),
{
    let properties: Vec<(String, JsonValue)> = vec![
    ];
    let required: Vec<JsonValue> = vec![];
    proof {
        assert(member_names(properties@) == tool_params(Tool::SpendingSummary));
        assert forall|k: int| 0 <= k < properties@.len() implies param_schema(
            #[trigger] properties@[k].1,
            Tool::SpendingSummary,
            properties@[k].0@,
        ) by {
        }
        assert(tool_properties(properties@, Tool::SpendingSummary));
        assert(json_strings(required@, tool_required(Tool::SpendingSummary)));
    }
    tool_definition(Tool::SpendingSummary, "Get a spending summary with total income, total spent, and net income.", properties, required)
}

fn definition_of_monthly_spending() -> (r: JsonValue)
    ensures
        is_tool_definition(r, Tool::MonthlySpending),
{
    let properties: Vec<(String, JsonValue)> = vec![
    ];
    let required: Vec<JsonValue> = vec![];
    proof {
        assert(member_names(properties@) == tool_params(Tool::MonthlySpending));
        assert forall|k: int| 0 <= k < properties@.len() implies param_schema(
            #[trigger] properties@[k].1,
            Tool::MonthlySpending,
            properties@[k].0@,
        ) by {
        }
        assert(tool_properties(properties@, Tool::MonthlySpending));
        assert(json_strings(required@, tool_required(Tool::MonthlySpending)));
    }
    tool_definition(Tool::MonthlySpending, "Get monthly spending totals with month-over-month comparison.", properties, required)
}

fn definition_of_upcoming_recurrings() -> (r: JsonValue)
    ensures
        is_tool_definition(r, Tool::UpcomingRecurrings),
{
    let properties: Vec<(String, JsonValue)> = vec![
    ];
    let required: Vec<JsonValue> = vec![];
    proof {
        assert(member_names(properties@) == tool_params(Tool::UpcomingRecurrings));
        assert forall|k: int| 0 <= k < properties@.len() implies param_schema(
            #[trigger] properties@[k].1,
            Tool::UpcomingRecurrings,
            properties@[k].0@,
        ) by {
        }
        assert(tool_properties(properties@, Tool::UpcomingRecurrings));
        assert(json_strings(required@, tool_required(Tool::UpcomingRecurrings)));
    }
    tool_definition(Tool::UpcomingRecurrings, "List upcoming unpaid recurring payments and bills.", properties, required)
}

/// The `tools/list` answer: every tool offered, in the order of
/// `all_tools`, with its name, description and input schema.
pub fn tool_definitions() -> (r: JsonValue)
    ensures
        r matches JsonValue::Object(m) && m@.len() == 1 && named(m@, 0, "tools"@) && (m@[0].1 matches JsonValue::Array(defs)
            && defs@.len() == all_tools().len() && forall|k: int|
            0 <= k < defs@.len() ==> is_tool_definition(#[trigger] defs@[k], all_tools()[k])),
{
    let defs: Vec<JsonValue> = vec![
        definition_of_list_transactions(),
        definition_of_search_transactions(),
        definition_of_show_transaction(),
        definition_of_review_transactions(),
        definition_of_unreview_transactions(),
        definition_of_set_transaction_category(),
        definition_of_set_transaction_notes(),
        definition_of_set_transaction_tags(),
        definition_of_list_categories(),
        definition_of_list_tags(),
        definition_of_create_tag(),
        definition_of_delete_tag(),
        definition_of_list_recurrings(),
        definition_of_budget_month(),
        definition_of_list_accounts(),
        definition_of_networth(),
        definition_of_spending_summary(),
        definition_of_monthly_spending(),
        definition_of_upcoming_recurrings(),
    ];
    proof {
        assert forall|k: int| 0 <= k < defs@.len() implies is_tool_definition(#[trigger] defs@[k], all_tools()[k]) by {
        }
    }
    JsonValue::Object(vec![(key("tools"), JsonValue::Array(defs))])
}

} // verus!
