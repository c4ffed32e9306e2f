//! Properties of the library as a whole, each stated over the same spec
//! functions that the executable functions' contracts use.
use vstd::prelude::*;
use crate::calendar::{
    date_of_day, day_number, is_valid_date, lemma_date_of_day, lemma_date_of_day_number, leap_count,
    month_length,
};
use crate::dates::{
    date_fields, date_text, dates_within_days_spec, day_offset, day_text, lemma_not_date, normalized_date,
    current_year, offset_in_range, previous_month, resolved_end, resolved_start, weekday,
};
use crate::decimal::{
    all_digits, decimal, digit_char, digits_value, is_digit, padded_decimal, parse_u32_spec, signed_text_value,
    unsigned_text_value,
};
use crate::text::{
    has_substring, joined, ascii_lower, ascii_lowered, is_ascii_text, is_whitespace, lemma_trim_ends, lemma_trim_unchanged, lowercase,
    split_on, trim, trim_end, trim_start,
};
use crate::mcp::{tool_keeps, tool_name, tool_named, ListToolArgs, Tool};
use crate::categories::{category_matches, exact_name_matches, flatten_spec, lookup_name, pair_views, pairs_of, text_or_empty};
use crate::cli::{csv_cell, csv_escaped, doubled_quotes, looked_up, plain_tag_names, TransactionField};
use crate::client::Category;
use crate::json::JsonValue;
use crate::replies::{all_tools, is_tool_definition, json_text, member_names, named, tool_params, tool_required};
use crate::session::{max_attempts, reply_rule, ReplyAction, RequestFailure};
use crate::edits::{appended_unique, without};
use crate::client::Transaction;
use crate::transactions::{
    duplicate_scan, duplicates_of, kept, looks_duplicate, names_alike, passes, text_lt, TransactionFilters,
};
use crate::select::retained;

verus! {

/// Day numbers of dates whose year fits an `i32` fit comfortably in an `i64`.
proof fn lemma_day_number_i32_range(y: int, m: int, d: int)
    requires
        i32::MIN <= y <= i32::MAX,
        is_valid_date(y, m, d),
    ensures
        -800_000_000_000 <= day_number(y, m, d) <= 800_000_000_000,
{
    assert(-600_000_000 <= leap_count(y - 1) <= 600_000_000);
    assert(leap_count(1969) == 477);
}

/// Round trip from a date: converting a valid date to its day number and
/// back gives the same date, and the day number is one that
/// `civil_from_days` accepts.
pub proof fn law_date_round_trip(y: i32, m: u32, d: u32)
    requires
        is_valid_date(y as int, m as int, d as int),
    ensures
        day_number(y as int, m as int, d as int) <= i64::MAX - 719468,
        day_number(y as int, m as int, d as int) >= i64::MIN,
        date_of_day(day_number(y as int, m as int, d as int)) == (y as int, m as int, d as int),
{
    lemma_day_number_i32_range(y as int, m as int, d as int);
    lemma_date_of_day_number(y as int, m as int, d as int);
}

/// Round trip from a day number: the date of a day number is a valid date
/// (so `days_from_civil` accepts it) whose day number is the one we started
/// from. Stated for day numbers whose year fits an `i32`, the year type of
/// `civil_from_days`.
pub proof fn law_day_round_trip(z: int)
    requires
        i32::MIN <= date_of_day(z).0 <= i32::MAX,
    ensures
        is_valid_date(date_of_day(z).0, date_of_day(z).1, date_of_day(z).2),
        1 <= date_of_day(z).2 <= 31,
        day_number(date_of_day(z).0, date_of_day(z).1, date_of_day(z).2) == z,
{
    lemma_date_of_day(z);
}

/// Being within a number of days of each other does not depend on the order
/// of the two dates.
pub proof fn law_dates_within_days_symmetric(a: Seq<char>, b: Seq<char>, threshold: int)
    ensures
        dates_within_days_spec(a, b, threshold) == dates_within_days_spec(b, a, threshold),
{
}

/// Every date is within any number of days of itself; text that names no
/// date is within no distance of anything.
pub proof fn law_dates_within_days_reflexive(a: Seq<char>, b: Seq<char>, threshold: int)
    requires
        threshold >= 0,
    ensures
        date_fields(a) is Some ==> dates_within_days_spec(a, a, threshold),
        date_fields(a) is None ==> !dates_within_days_spec(a, b, threshold),
{
}

/// Every tool answers to its own name: calling a tool by the name it is
/// offered under reaches that tool, so no two tools share a name.
pub proof fn law_tool_names_dispatch(t: Tool)
    ensures
        tool_named(tool_name(t)) == Some(t),
{
    reveal_strlit("list_transactions");
    reveal_strlit("search_transactions");
    reveal_strlit("show_transaction");
    reveal_strlit("review_transactions");
    reveal_strlit("unreview_transactions");
    reveal_strlit("set_transaction_category");
    reveal_strlit("set_transaction_notes");
    reveal_strlit("set_transaction_tags");
    reveal_strlit("list_categories");
    reveal_strlit("list_tags");
    reveal_strlit("create_tag");
    reveal_strlit("delete_tag");
    reveal_strlit("list_recurrings");
    reveal_strlit("budget_month");
    reveal_strlit("list_accounts");
    reveal_strlit("networth");
    reveal_strlit("spending_summary");
    reveal_strlit("monthly_spending");
    reveal_strlit("upcoming_recurrings");
    match t {
        Tool::ListTransactions => {

        },
        Tool::SearchTransactions => {
            assert(tool_name(t).len() != "list_transactions"@.len());
        },
        Tool::ShowTransaction => {
            assert(tool_name(t).len() != "list_transactions"@.len());
            assert(tool_name(t).len() != "search_transactions"@.len());
        },
        Tool::ReviewTransactions => {
            assert(tool_name(t).len() != "list_transactions"@.len());
            assert(tool_name(t)[0] != "search_transactions"@[0]);
            assert(tool_name(t).len() != "show_transaction"@.len());
        },
        Tool::UnreviewTransactions => {
            assert(tool_name(t).len() != "list_transactions"@.len());
            assert(tool_name(t).len() != "search_transactions"@.len());
            assert(tool_name(t).len() != "show_transaction"@.len());
            assert(tool_name(t).len() != "review_transactions"@.len());
        },
        Tool::SetTransactionCategory => {
            assert(tool_name(t).len() != "list_transactions"@.len());
            assert(tool_name(t).len() != "search_transactions"@.len());
            assert(tool_name(t).len() != "show_transaction"@.len());
            assert(tool_name(t).len() != "review_transactions"@.len());
            assert(tool_name(t).len() != "unreview_transactions"@.len());
        },
        Tool::SetTransactionNotes => {
            assert(tool_name(t).len() != "list_transactions"@.len());
            assert(tool_name(t).len() != "search_transactions"@.len());
            assert(tool_name(t).len() != "show_transaction"@.len());
            assert(tool_name(t).len() != "review_transactions"@.len());
            assert(tool_name(t)[0] != "unreview_transactions"@[0]);
            assert(tool_name(t).len() != "set_transaction_category"@.len());
        },
        Tool::SetTransactionTags => {
            assert(tool_name(t).len() != "list_transactions"@.len());
            assert(tool_name(t).len() != "search_transactions"@.len());
            assert(tool_name(t).len() != "show_transaction"@.len());
            assert(tool_name(t).len() != "review_transactions"@.len());
            assert(tool_name(t).len() != "unreview_transactions"@.len());
            assert(tool_name(t).len() != "set_transaction_category"@.len());
            assert(tool_name(t).len() != "set_transaction_notes"@.len());
        },
        Tool::ListCategories => {
            assert(tool_name(t).len() != "list_transactions"@.len());
            assert(tool_name(t).len() != "search_transactions"@.len());
            assert(tool_name(t).len() != "show_transaction"@.len());
            assert(tool_name(t).len() != "review_transactions"@.len());
            assert(tool_name(t).len() != "unreview_transactions"@.len());
            assert(tool_name(t).len() != "set_transaction_category"@.len());
            assert(tool_name(t).len() != "set_transaction_notes"@.len());
            assert(tool_name(t).len() != "set_transaction_tags"@.len());
        },
        Tool::ListTags => {
            assert(tool_name(t).len() != "list_transactions"@.len());
            assert(tool_name(t).len() != "search_transactions"@.len());
            assert(tool_name(t).len() != "show_transaction"@.len());
            assert(tool_name(t).len() != "review_transactions"@.len());
            assert(tool_name(t).len() != "unreview_transactions"@.len());
            assert(tool_name(t).len() != "set_transaction_category"@.len());
            assert(tool_name(t).len() != "set_transaction_notes"@.len());
            assert(tool_name(t).len() != "set_transaction_tags"@.len());
            assert(tool_name(t).len() != "list_categories"@.len());
        },
        Tool::CreateTag => {
            assert(tool_name(t).len() != "list_transactions"@.len());
            assert(tool_name(t).len() != "search_transactions"@.len());
            assert(tool_name(t).len() != "show_transaction"@.len());
            assert(tool_name(t).len() != "review_transactions"@.len());
            assert(tool_name(t).len() != "unreview_transactions"@.len());
            assert(tool_name(t).len() != "set_transaction_category"@.len());
            assert(tool_name(t).len() != "set_transaction_notes"@.len());
            assert(tool_name(t).len() != "set_transaction_tags"@.len());
            assert(tool_name(t).len() != "list_categories"@.len());
            assert(tool_name(t).len() != "list_tags"@.len());
        },
        Tool::DeleteTag => {
            assert(tool_name(t).len() != "list_transactions"@.len());
            assert(tool_name(t).len() != "search_transactions"@.len());
            assert(tool_name(t).len() != "show_transaction"@.len());
            assert(tool_name(t).len() != "review_transactions"@.len());
            assert(tool_name(t).len() != "unreview_transactions"@.len());
            assert(tool_name(t).len() != "set_transaction_category"@.len());
            assert(tool_name(t).len() != "set_transaction_notes"@.len());
            assert(tool_name(t).len() != "set_transaction_tags"@.len());
            assert(tool_name(t).len() != "list_categories"@.len());
            assert(tool_name(t).len() != "list_tags"@.len());
            assert(tool_name(t)[0] != "create_tag"@[0]);
        },
        Tool::ListRecurrings => {
            assert(tool_name(t).len() != "list_transactions"@.len());
            assert(tool_name(t).len() != "search_transactions"@.len());
            assert(tool_name(t).len() != "show_transaction"@.len());
            assert(tool_name(t).len() != "review_transactions"@.len());
            assert(tool_name(t).len() != "unreview_transactions"@.len());
            assert(tool_name(t).len() != "set_transaction_category"@.len());
            assert(tool_name(t).len() != "set_transaction_notes"@.len());
            assert(tool_name(t).len() != "set_transaction_tags"@.len());
            assert(tool_name(t)[5] != "list_categories"@[5]);
            assert(tool_name(t).len() != "list_tags"@.len());
            assert(tool_name(t).len() != "create_tag"@.len());
            assert(tool_name(t).len() != "delete_tag"@.len());
        },
        Tool::BudgetMonth => {
            assert(tool_name(t).len() != "list_transactions"@.len());
            assert(tool_name(t).len() != "search_transactions"@.len());
            assert(tool_name(t).len() != "show_transaction"@.len());
            assert(tool_name(t).len() != "review_transactions"@.len());
            assert(tool_name(t).len() != "unreview_transactions"@.len());
            assert(tool_name(t).len() != "set_transaction_category"@.len());
            assert(tool_name(t).len() != "set_transaction_notes"@.len());
            assert(tool_name(t).len() != "set_transaction_tags"@.len());
            assert(tool_name(t).len() != "list_categories"@.len());
            assert(tool_name(t).len() != "list_tags"@.len());
            assert(tool_name(t).len() != "create_tag"@.len());
            assert(tool_name(t).len() != "delete_tag"@.len());
            assert(tool_name(t).len() != "list_recurrings"@.len());
        },
        Tool::ListAccounts => {
            assert(tool_name(t).len() != "list_transactions"@.len());
            assert(tool_name(t).len() != "search_transactions"@.len());
            assert(tool_name(t).len() != "show_transaction"@.len());
            assert(tool_name(t).len() != "review_transactions"@.len());
            assert(tool_name(t).len() != "unreview_transactions"@.len());
            assert(tool_name(t).len() != "set_transaction_category"@.len());
            assert(tool_name(t).len() != "set_transaction_notes"@.len());
            assert(tool_name(t).len() != "set_transaction_tags"@.len());
            assert(tool_name(t).len() != "list_categories"@.len());
            assert(tool_name(t).len() != "list_tags"@.len());
            assert(tool_name(t).len() != "create_tag"@.len());
            assert(tool_name(t).len() != "delete_tag"@.len());
            assert(tool_name(t).len() != "list_recurrings"@.len());
            assert(tool_name(t).len() != "budget_month"@.len());
        },
        Tool::Networth => {
            assert(tool_name(t).len() != "list_transactions"@.len());
            assert(tool_name(t).len() != "search_transactions"@.len());
            assert(tool_name(t).len() != "show_transaction"@.len());
            assert(tool_name(t).len() != "review_transactions"@.len());
            assert(tool_name(t).len() != "unreview_transactions"@.len());
            assert(tool_name(t).len() != "set_transaction_category"@.len());
            assert(tool_name(t).len() != "set_transaction_notes"@.len());
            assert(tool_name(t).len() != "set_transaction_tags"@.len());
            assert(tool_name(t).len() != "list_categories"@.len());
            assert(tool_name(t).len() != "list_tags"@.len());
            assert(tool_name(t).len() != "create_tag"@.len());
            assert(tool_name(t).len() != "delete_tag"@.len());
            assert(tool_name(t).len() != "list_recurrings"@.len());
            assert(tool_name(t).len() != "budget_month"@.len());
            assert(tool_name(t).len() != "list_accounts"@.len());
        },
        Tool::SpendingSummary => {
            assert(tool_name(t).len() != "list_transactions"@.len());
            assert(tool_name(t).len() != "search_transactions"@.len());
            assert(tool_name(t)[1] != "show_transaction"@[1]);
            assert(tool_name(t).len() != "review_transactions"@.len());
            assert(tool_name(t).len() != "unreview_transactions"@.len());
            assert(tool_name(t).len() != "set_transaction_category"@.len());
            assert(tool_name(t).len() != "set_transaction_notes"@.len());
            assert(tool_name(t).len() != "set_transaction_tags"@.len());
            assert(tool_name(t).len() != "list_categories"@.len());
            assert(tool_name(t).len() != "list_tags"@.len());
            assert(tool_name(t).len() != "create_tag"@.len());
            assert(tool_name(t).len() != "delete_tag"@.len());
            assert(tool_name(t).len() != "list_recurrings"@.len());
            assert(tool_name(t).len() != "budget_month"@.len());
            assert(tool_name(t).len() != "list_accounts"@.len());
            assert(tool_name(t).len() != "networth"@.len());
        },
        Tool::MonthlySpending => {
            assert(tool_name(t).len() != "list_transactions"@.len());
            assert(tool_name(t).len() != "search_transactions"@.len());
            assert(tool_name(t)[0] != "show_transaction"@[0]);
            assert(tool_name(t).len() != "review_transactions"@.len());
            assert(tool_name(t).len() != "unreview_transactions"@.len());
            assert(tool_name(t).len() != "set_transaction_category"@.len());
            assert(tool_name(t).len() != "set_transaction_notes"@.len());
            assert(tool_name(t).len() != "set_transaction_tags"@.len());
            assert(tool_name(t).len() != "list_categories"@.len());
            assert(tool_name(t).len() != "list_tags"@.len());
            assert(tool_name(t).len() != "create_tag"@.len());
            assert(tool_name(t).len() != "delete_tag"@.len());
            assert(tool_name(t).len() != "list_recurrings"@.len());
            assert(tool_name(t).len() != "budget_month"@.len());
            assert(tool_name(t).len() != "list_accounts"@.len());
            assert(tool_name(t).len() != "networth"@.len());
            assert(tool_name(t)[0] != "spending_summary"@[0]);
        },
        Tool::UpcomingRecurrings => {
            assert(tool_name(t).len() != "list_transactions"@.len());
            assert(tool_name(t)[0] != "search_transactions"@[0]);
            assert(tool_name(t).len() != "show_transaction"@.len());
            assert(tool_name(t)[0] != "review_transactions"@[0]);
            assert(tool_name(t).len() != "unreview_transactions"@.len());
            assert(tool_name(t).len() != "set_transaction_category"@.len());
            assert(tool_name(t).len() != "set_transaction_notes"@.len());
            assert(tool_name(t).len() != "set_transaction_tags"@.len());
            assert(tool_name(t).len() != "list_categories"@.len());
            assert(tool_name(t).len() != "list_tags"@.len());
            assert(tool_name(t).len() != "create_tag"@.len());
            assert(tool_name(t).len() != "delete_tag"@.len());
            assert(tool_name(t).len() != "list_recurrings"@.len());
            assert(tool_name(t).len() != "budget_month"@.len());
            assert(tool_name(t).len() != "list_accounts"@.len());
            assert(tool_name(t).len() != "networth"@.len());
            assert(tool_name(t).len() != "spending_summary"@.len());
            assert(tool_name(t).len() != "monthly_spending"@.len());
        },
    }
}

/// The stored session is used to renew a token at most once per operation:
/// only after the first attempt. From the third attempt on, an
/// unauthenticated reply ends the operation, so no operation makes more
/// than `max_attempts` requests for want of a token.
pub proof fn law_session_refresh_once(
    attempt: int,
    unauthenticated: bool,
    session_dir_exists: bool,
    auto_login_allowed: bool,
    error_text: Option<Seq<char>>,
    http_success: bool,
    r: ReplyAction,
)
    requires
        attempt >= 1,
        reply_rule(attempt, unauthenticated, session_dir_exists, auto_login_allowed, error_text, http_success, r),
    ensures
        attempt >= 2 ==> !(r is RefreshSession),
        attempt >= max_attempts() && unauthenticated ==> r matches ReplyAction::Fail(RequestFailure::Unauthenticated),
        !unauthenticated ==> !(r is RefreshSession) && !(r is BrowserLogin),
{
}

/// Adding tags by a tool call keeps the current tags first and in order,
/// and afterwards the tags are exactly the current ones and the added ones.
pub proof fn law_tool_add_tags(base: Seq<Seq<char>>, added: Seq<Seq<char>>)
    ensures
        appended_unique(base, added).len() >= base.len(),
        appended_unique(base, added).subrange(0, base.len() as int) == base,
        forall|x: Seq<char>| #[trigger] appended_unique(base, added).contains(x) <==> (base.contains(x) || added.contains(x)),
        base.no_duplicates() ==> appended_unique(base, added).no_duplicates(),
    decreases added.len(),
{
    if added.len() > 0 {
        law_tool_add_tags(base, added.drop_last());
        let r = appended_unique(base, added.drop_last());
        assert forall|x: Seq<char>| #[trigger] appended_unique(base, added).contains(x) <==> (base.contains(x) || added.contains(x)) by {
            assert(added.drop_last().contains(x) ==> added.contains(x)) by {
                if added.drop_last().contains(x) {
                    let i = choose|i: int| 0 <= i < added.drop_last().len() && added.drop_last()[i] == x;
                    assert(added[i] == x);
                }
            }
            if added.contains(x) && !added.drop_last().contains(x) {
                let i = choose|i: int| 0 <= i < added.len() && added[i] == x;
                if i < added.len() - 1 {
                    assert(added.drop_last()[i] == x);
                }
                assert(x == added.last());
            }
            if !r.contains(added.last()) {
                assert(r.push(added.last()).contains(x) <==> (r.contains(x) || x == added.last())) by {
                    if r.push(added.last()).contains(x) && x != added.last() {
                        let i = choose|i: int| 0 <= i < r.push(added.last()).len() && r.push(added.last())[i] == x;
                        assert(r[i] == x);
                    }
                    if r.contains(x) {
                        let i = choose|i: int| 0 <= i < r.len() && r[i] == x;
                        assert(r.push(added.last())[i] == x);
                    }
                    if x == added.last() {
                        assert(r.push(added.last())[r.len() as int] == x);
                    }
                }
            }
        }
        if !r.contains(added.last()) {
            assert(r.push(added.last()).subrange(0, base.len() as int) == r.subrange(0, base.len() as int));
        }
    }
}

/// Removing tags by a tool call keeps the order of the remaining tags, and
/// afterwards the tags are exactly the current ones that were not removed.
pub proof fn law_tool_remove_tags(base: Seq<Seq<char>>, removed: Seq<Seq<char>>)
    ensures
        without(base, removed).len() <= base.len(),
        forall|x: Seq<char>| #[trigger] without(base, removed).contains(x) <==> (base.contains(x) && !removed.contains(x)),
    decreases base.len(),
{
    if base.len() > 0 {
        law_tool_remove_tags(base.drop_last(), removed);
        let r = without(base.drop_last(), removed);
        assert forall|x: Seq<char>| #[trigger] without(base, removed).contains(x) <==> (base.contains(x) && !removed.contains(x)) by {
            if base.contains(x) {
                let i = choose|i: int| 0 <= i < base.len() && base[i] == x;
                if i < base.len() - 1 {
                    assert(base.drop_last()[i] == x);
                }
            }
            if base.drop_last().contains(x) {
                let i = choose|i: int| 0 <= i < base.drop_last().len() && base.drop_last()[i] == x;
                assert(base[i] == x);
            }
            if !removed.contains(base.last()) {
                if r.push(base.last()).contains(x) && x != base.last() {
                    let i = choose|i: int| 0 <= i < r.push(base.last()).len() && r.push(base.last())[i] == x;
                    assert(r[i] == x);
                }
                if r.contains(x) {
                    let i = choose|i: int| 0 <= i < r.len() && r[i] == x;
                    assert(r.push(base.last())[i] == x);
                }
                if x == base.last() {
                    assert(r.push(base.last())[r.len() as int] == x);
                }
            }
        }
    }
}

/// Filtering the transaction list invents nothing: it keeps exactly the
/// listed transactions that pass the filters, in their order, and never
/// more of them than there were.
pub proof fn law_filter_keeps_passing(
    items: Seq<Transaction>,
    amounts_pass: Seq<bool>,
    f: TransactionFilters,
    from: Option<Seq<char>>,
    to: Option<Seq<char>>,
)
    requires
        amounts_pass.len() == items.len(),
    ensures
        kept(items, amounts_pass, f, from, to).len() <= items.len(),
        forall|t: Transaction| #[trigger] kept(items, amounts_pass, f, from, to).contains(t) ==> exists|k: int|
            0 <= k < items.len() && items[k] == t && passes(items[k], amounts_pass[k], f, from, to),
        forall|k: int| 0 <= k < items.len() && #[trigger] passes(items[k], amounts_pass[k], f, from, to) ==> kept(
            items,
            amounts_pass,
            f,
            from,
            to,
        ).contains(items[k]),
    decreases items.len(),
{
    if items.len() > 0 {
        let pi = items.drop_last();
        let pa = amounts_pass.drop_last();
        law_filter_keeps_passing(pi, pa, f, from, to);
        let r = kept(pi, pa, f, from, to);
        let last = items.last();
        let keep = passes(last, amounts_pass.last(), f, from, to);
        assert forall|t: Transaction| #[trigger] kept(items, amounts_pass, f, from, to).contains(t) implies exists|k: int|
            0 <= k < items.len() && items[k] == t && passes(items[k], amounts_pass[k], f, from, to) by {
            if r.contains(t) {
                let k = choose|k: int| 0 <= k < pi.len() && pi[k] == t && passes(pi[k], pa[k], f, from, to);
                assert(items[k] == t && amounts_pass[k] == pa[k]);
            } else {
                let out = kept(items, amounts_pass, f, from, to);
                let i = choose|i: int| 0 <= i < out.len() && out[i] == t;
                assert(keep && i == r.len());
                assert(items[items.len() - 1] == t);
            }
        }
        assert forall|k: int| 0 <= k < items.len() && #[trigger] passes(items[k], amounts_pass[k], f, from, to) implies kept(
            items,
            amounts_pass,
            f,
            from,
            to,
        ).contains(items[k]) by {
            let out = kept(items, amounts_pass, f, from, to);
            if k < items.len() - 1 {
                assert(pi[k] == items[k] && pa[k] == amounts_pass[k]);
                assert(passes(pi[k], pa[k], f, from, to));
                let i = choose|i: int| 0 <= i < r.len() && r[i] == items[k];
                if keep {
                    assert(out[i] == items[k]);
                }
            } else {
                assert(out[r.len() as int] == items[k]);
            }
        }
    }
}

/// Filtering a list (the tools' transaction filters, the account and
/// category listings) keeps exactly the listed items that it accepts, in
/// their order, and never more of them than there were.
pub proof fn law_retained_keeps_accepted<A>(items: Seq<A>, keep: spec_fn(A) -> bool)
    ensures
        retained(items, keep).len() <= items.len(),
        forall|t: A| #[trigger] retained(items, keep).contains(t) <==> (items.contains(t) && keep(t)),
    decreases items.len(),
{
    if items.len() > 0 {
        let pi = items.drop_last();
        law_retained_keeps_accepted(pi, keep);
        let r = retained(pi, keep);
        let last = items.last();
        assert forall|t: A| #[trigger] retained(items, keep).contains(t) <==> (items.contains(t) && keep(t)) by {
            let out = retained(items, keep);
            if items.contains(t) {
                let k = choose|k: int| 0 <= k < items.len() && items[k] == t;
                if k < items.len() - 1 {
                    assert(pi[k] == t);
                }
            }
            if pi.contains(t) {
                let k = choose|k: int| 0 <= k < pi.len() && pi[k] == t;
                assert(items[k] == t);
            }
            if out.contains(t) {
                let i = choose|i: int| 0 <= i < out.len() && out[i] == t;
                if i < r.len() {
                    assert(r[i] == t);
                }
            }
            if r.contains(t) && keep(last) {
                let i = choose|i: int| 0 <= i < r.len() && r[i] == t;
                assert(out[i] == t);
            }
            if t == last && keep(last) {
                assert(out[r.len() as int] == t);
            }
        }
    }
}

proof fn lemma_duplicates_of_members(
    txns: Seq<Transaction>,
    same_amount: Seq<Vec<bool>>,
    days: int,
    used: Set<int>,
    i: int,
    end: int,
)
    ensures
        forall|k: int| 0 <= k < duplicates_of(txns, same_amount, days, used, i, end).len() ==> {
            let j = #[trigger] duplicates_of(txns, same_amount, days, used, i, end)[k];
            &&& i < j < end
            &&& !used.contains(j)
            &&& looks_duplicate(txns, same_amount, days, i, j)
        },
    decreases end - i,
{
    if end > i + 1 {
        lemma_duplicates_of_members(txns, same_amount, days, used, i, end - 1);
        let rest = duplicates_of(txns, same_amount, days, used, i, end - 1);
        let d = duplicates_of(txns, same_amount, days, used, i, end);
        assert forall|k: int| 0 <= k < d.len() implies {
            let j = #[trigger] d[k];
            &&& i < j < end
            &&& !used.contains(j)
            &&& looks_duplicate(txns, same_amount, days, i, j)
        } by {
            if k < rest.len() {
                assert(d[k] == rest[k]);
            }
        }
    }
}

/// Position `x` is a member of one of `groups`.
pub open spec fn grouped(groups: Seq<Seq<int>>, x: int) -> bool {
    exists|g: int, m: int| 0 <= g < groups.len() && 0 <= m < groups[g].len() && groups[g][m] == x
}

/// The shape of the duplicate groups found among the first `k` transactions.
pub open spec fn well_grouped(txns: Seq<Transaction>, same_amount: Seq<Vec<bool>>, days: int, k: int) -> bool {
    let (gs, used) = duplicate_scan(txns, same_amount, days, k);
    &&& forall|g: int| 0 <= g < gs.len() ==> (#[trigger] gs[g]).len() >= 2 && 0 <= gs[g][0] < k
    &&& forall|g: int, m: int| 0 <= g < gs.len() && 0 < m < gs[g].len() ==> {
        let j = #[trigger] gs[g][m];
        &&& gs[g][0] < j < txns.len()
        &&& looks_duplicate(txns, same_amount, days, gs[g][0], j)
    }
    &&& forall|g1: int, g2: int, m1: int, m2: int|
        0 <= g1 < g2 < gs.len() && 0 <= m1 < gs[g1].len() && 0 <= m2 < gs[g2].len() ==> #[trigger] gs[g1][m1]
            != #[trigger] gs[g2][m2]
    &&& forall|x: int| #[trigger] used.contains(x) <==> grouped(gs, x)
}

proof fn lemma_duplicate_scan(txns: Seq<Transaction>, same_amount: Seq<Vec<bool>>, days: int, k: int)
    requires
        0 <= k <= txns.len(),
    ensures
        well_grouped(txns, same_amount, days, k),
    decreases k,
{
    if k > 0 {
        lemma_duplicate_scan(txns, same_amount, days, k - 1);
        let (gs, used) = duplicate_scan(txns, same_amount, days, k - 1);
        let i = k - 1;
        if !used.contains(i) {
            let dups = duplicates_of(txns, same_amount, days, used, i, txns.len() as int);
            lemma_duplicates_of_members(txns, same_amount, days, used, i, txns.len() as int);
            let group = seq![i] + dups;
            if group.len() > 1 {
                let ngs = gs.push(group);
                let nused = used.union(group.to_set());
                assert(duplicate_scan(txns, same_amount, days, k) == (ngs, nused));
                assert forall|m: int| 0 <= m < group.len() implies !used.contains(#[trigger] group[m]) by {
                    if m > 0 {
                        assert(group[m] == dups[m - 1]);
                    }
                }
                assert forall|g: int| 0 <= g < ngs.len() implies (#[trigger] ngs[g]).len() >= 2 && 0 <= ngs[g][0] < k by {
                    if g < gs.len() {
                        assert(ngs[g] == gs[g]);
                    }
                }
                assert forall|g: int, m: int| 0 <= g < ngs.len() && 0 < m < ngs[g].len() implies {
                    let j = #[trigger] ngs[g][m];
                    &&& ngs[g][0] < j < txns.len()
                    &&& looks_duplicate(txns, same_amount, days, ngs[g][0], j)
                } by {
                    if g < gs.len() {
                        assert(ngs[g] == gs[g]);
                    } else {
                        assert(ngs[g] == group);
                        assert(group[m] == dups[m - 1]);
                    }
                }
                assert forall|g1: int, g2: int, m1: int, m2: int|
                    0 <= g1 < g2 < ngs.len() && 0 <= m1 < ngs[g1].len() && 0 <= m2 < ngs[g2].len() implies #[trigger] ngs[g1][m1]
                        != #[trigger] ngs[g2][m2] by {
                    assert(ngs[g1] == gs[g1]);
                    if g2 < gs.len() {
                        assert(ngs[g2] == gs[g2]);
                    } else {
                        assert(ngs[g2] == group);
                        assert(grouped(gs, gs[g1][m1]));
                        assert(used.contains(gs[g1][m1]));
                        assert(!used.contains(group[m2]));
                    }
                }
                assert forall|x: int| #[trigger] nused.contains(x) <==> grouped(ngs, x) by {
                    if used.contains(x) {
                        assert(grouped(gs, x));
                        let (g, m) = choose|g: int, m: int| 0 <= g < gs.len() && 0 <= m < gs[g].len() && gs[g][m] == x;
                        assert(ngs[g] == gs[g]);
                        assert(grouped(ngs, x));
                    }
                    if group.to_set().contains(x) {
                        let m = choose|m: int| 0 <= m < group.len() && group[m] == x;
                        assert(ngs[gs.len() as int] == group);
                        assert(grouped(ngs, x));
                    }
                    if grouped(ngs, x) {
                        let (g, m) = choose|g: int, m: int| 0 <= g < ngs.len() && 0 <= m < ngs[g].len() && ngs[g][m] == x;
                        if g < gs.len() {
                            assert(ngs[g] == gs[g]);
                            assert(grouped(gs, x));
                        } else {
                            assert(ngs[g] == group);
                            assert(group.contains(x));
                        }
                    }
                }
            }
        }
    }
}

/// Each likely-duplicate group has at least two members; its first member
/// comes first in the list and every other member is a later transaction
/// that looks like a duplicate of it; and no transaction is in two groups.
pub proof fn law_duplicate_groups(txns: Seq<Transaction>, same_amount: Seq<Vec<bool>>, days: int)
    ensures
        ({
            let gs = duplicate_scan(txns, same_amount, days, txns.len() as int).0;
            &&& forall|g: int| 0 <= g < gs.len() ==> (#[trigger] gs[g]).len() >= 2 && 0 <= gs[g][0] < txns.len()
            &&& forall|g: int, m: int| 0 <= g < gs.len() && 0 < m < gs[g].len() ==> {
                let j = #[trigger] gs[g][m];
                &&& gs[g][0] < j < txns.len()
                &&& looks_duplicate(txns, same_amount, days, gs[g][0], j)
            }
            &&& forall|g1: int, g2: int, m1: int, m2: int|
                0 <= g1 < g2 < gs.len() && 0 <= m1 < gs[g1].len() && 0 <= m2 < gs[g2].len() ==> #[trigger] gs[g1][m1]
                    != #[trigger] gs[g2][m2]
        }),
{
    lemma_duplicate_scan(txns, same_amount, days, txns.len() as int);
}

proof fn lemma_decimal_digits(n: nat)
    ensures
        all_digits(decimal(n)),
        digits_value(decimal(n)) == n,
        decimal(n).len() >= 1,
        n < 10 ==> decimal(n).len() == 1,
        10 <= n < 100 ==> decimal(n).len() == 2,
        1000 <= n < 10000 ==> decimal(n).len() == 4,
    decreases n,
{
    if n >= 10 {
        lemma_decimal_digits(n / 10);
        let s = decimal(n);
        assert(s.drop_last() == decimal(n / 10));
        assert(s.last() == digit_char((n % 10) as int));
        assert(digit_char((n % 10) as int) as int == (n % 10) + 48);
        assert(digits_value(s) == 10 * digits_value(decimal(n / 10)) + (n % 10));
        assert(is_digit(digit_char((n % 10) as int)));
        assert forall|i: int| 0 <= i < s.len() implies is_digit(#[trigger] s[i]) by {
            if i < s.len() - 1 {
                assert(s[i] == decimal(n / 10)[i]);
            }
        }
        if n >= 1000 && n < 10000 {
            lemma_decimal_digits(n / 100);
            lemma_decimal_digits(n / 1000);
        }
    } else {
        let s = decimal(n);
        assert(s.drop_last() == Seq::<char>::empty());
        assert(digit_char(n as int) as int == n + 48);
        assert(digits_value(s) == 10 * digits_value(Seq::<char>::empty()) + n);
    }
}

proof fn lemma_zeros_value(k: nat)
    ensures
        all_digits(Seq::new(k, |i: int| '0')),
        digits_value(Seq::new(k, |i: int| '0')) == 0,
    decreases k,
{
    if k > 0 {
        lemma_zeros_value((k - 1) as nat);
        assert(Seq::new(k, |i: int| '0').drop_last() == Seq::new((k - 1) as nat, |i: int| '0'));
    }
}

proof fn lemma_zero_prefix_value(z: Seq<char>, s: Seq<char>)
    requires
        all_digits(z),
        digits_value(z) == 0,
    ensures
        digits_value(z + s) == digits_value(s),
    decreases s.len(),
{
    if s.len() == 0 {
        assert(z + s == z);
    } else {
        lemma_zero_prefix_value(z, s.drop_last());
        assert((z + s).drop_last() == z + s.drop_last());
    }
}

/// A padded number in range is written with digits only, of the expected
/// length, and reads back as itself.
proof fn lemma_padded_reads_back(n: int, width: nat)
    requires
        1 <= n,
        n < 10 && width == 2 || 10 <= n < 100 && width == 2 || 1000 <= n < 10000 && width == 4,
    ensures
        padded_decimal(n, width).len() == width,
        all_digits(padded_decimal(n, width)),
        parse_u32_spec(padded_decimal(n, width)) == Some(n as u32),
{
    lemma_decimal_digits(n as nat);
    let s = decimal(n as nat);
    let p = padded_decimal(n, width);
    if s.len() < width {
        let z = Seq::new((width - s.len()) as nat, |i: int| '0');
        lemma_zeros_value((width - s.len()) as nat);
        lemma_zero_prefix_value(z, s);
        assert(p == z + s);
        assert forall|i: int| 0 <= i < p.len() implies is_digit(#[trigger] p[i]) by {
            if i < z.len() {
                assert(p[i] == z[i]);
            } else {
                assert(p[i] == s[i - z.len()]);
            }
        }
    }
    assert(!(p.len() > 0 && p[0] == '+'));
    assert(unsigned_text_value(p) == Some(n));
}

proof fn lemma_split_on_plain_suffix(p: Seq<char>, q: Seq<char>, sep: char)
    requires
        forall|i: int| 0 <= i < q.len() ==> #[trigger] q[i] != sep,
    ensures
        split_on(p + q, sep).len() == split_on(p, sep).len(),
        split_on(p + q, sep).len() >= 1,
        split_on(p + q, sep) == split_on(p, sep).update(
            split_on(p, sep).len() - 1,
            split_on(p, sep).last() + q,
        ),
    decreases q.len(),
{
    if q.len() == 0 {
        assert(p + q == p);
        lemma_split_nonempty(p, sep);
        assert(split_on(p, sep).last() + q == split_on(p, sep).last());
        assert(split_on(p, sep).update(split_on(p, sep).len() - 1, split_on(p, sep).last()) == split_on(p, sep));
    } else {
        let q0 = q.drop_last();
        lemma_split_on_plain_suffix(p, q0, sep);
        assert((p + q).drop_last() == p + q0);
        assert((p + q).last() == q.last());
        let a = split_on(p, sep);
        let b = split_on(p + q0, sep);
        assert(b.last() == a.last() + q0);
        assert(b.last().push(q.last()) == a.last() + q);
    }
}

proof fn lemma_split_nonempty(s: Seq<char>, sep: char)
    ensures
        split_on(s, sep).len() >= 1,
    decreases s.len(),
{
    if s.len() > 0 {
        lemma_split_nonempty(s.drop_last(), sep);
    }
}

/// A canonical date text splits into its three fields at the hyphens, and
/// trimming leaves it alone.
proof fn lemma_date_text_fields(y: int, m: int, d: int)
    requires
        1900 <= y <= 2100,
        1 <= m <= 12,
        1 <= d <= 31,
    ensures
        date_fields(date_text(y, m, d)) == Some((y, m, d)),
{
    let ys = padded_decimal(y, 4);
    let ms = padded_decimal(m, 2);
    let ds = padded_decimal(d, 2);
    lemma_padded_reads_back(y, 4);
    lemma_padded_reads_back(m, 2);
    lemma_padded_reads_back(d, 2);
    let t = date_text(y, m, d);
    let dash = seq!['-'];
    assert(t == ys + dash + ms + dash + ds);
    assert(t.len() == 10);
    assert(!is_whitespace(t[0])) by {
        assert(t[0] == ys[0]);
        assert(is_digit(ys[0]));
    }
    assert(!is_whitespace(t.last())) by {
        assert(t.last() == ds[1]);
        assert(is_digit(ds[1]));
    }
    assert(trim_start(t) == t);
    assert(trim_end(t) == t);
    assert(trim(t) == t);
    assert forall|i: int| 0 <= i < ys.len() implies #[trigger] ys[i] != '-' by {
        assert(is_digit(ys[i]));
    }
    assert forall|i: int| 0 <= i < ms.len() implies #[trigger] ms[i] != '-' by {
        assert(is_digit(ms[i]));
    }
    assert forall|i: int| 0 <= i < ds.len() implies #[trigger] ds[i] != '-' by {
        assert(is_digit(ds[i]));
    }
    let e = Seq::<char>::empty();
    lemma_split_on_plain_suffix(e, ys, '-');
    assert(e + ys == ys);
    assert(split_on(e, '-') == seq![e]);
    assert(split_on(ys, '-') == seq![ys]);
    let p1 = ys + dash;
    assert(p1.drop_last() == ys);
    assert(split_on(p1, '-') == seq![ys, e]);
    lemma_split_on_plain_suffix(p1, ms, '-');
    let p2 = p1 + ms;
    assert(split_on(p2, '-') == seq![ys, ms]);
    let p3 = p2 + dash;
    assert(p3.drop_last() == p2);
    assert(split_on(p3, '-') == seq![ys, ms, e]);
    lemma_split_on_plain_suffix(p3, ds, '-');
    assert(p3 + ds == t);
    assert(split_on(t, '-') == seq![ys, ms, ds]);
}

/// Normalising a date is idempotent: what `normalize_date` returns is
/// already in normal form and normalises to itself.
pub proof fn law_normalize_date_idempotent(s: Seq<char>)
    ensures
        normalized_date(s) matches Some(n) ==> normalized_date(n) == Some(n),
{
    if let Some(f) = date_fields(s) {
        lemma_date_text_fields(f.0, f.1, f.2);
    }
}

/// `tools/list` and `tools/call` agree: every tool listed answers to the
/// name it is listed under, every tool is listed, and a name reaches a tool
/// only if it is that tool's name.
pub proof fn law_listed_tools_are_callable(t: Tool, name: Seq<char>)
    ensures
        forall|k: int| 0 <= k < all_tools().len() ==> tool_named(tool_name(#[trigger] all_tools()[k])) == Some(all_tools()[k]),
        all_tools().contains(t),
        tool_named(name) matches Some(u) ==> tool_name(u) == name,
{
    assert forall|k: int| 0 <= k < all_tools().len() implies tool_named(tool_name(#[trigger] all_tools()[k])) == Some(all_tools()[k]) by {
        law_tool_names_dispatch(all_tools()[k]);
    }
    match t {
        Tool::ListTransactions => {
            assert(all_tools()[0] == t);
        },
        Tool::SearchTransactions => {
            assert(all_tools()[1] == t);
        },
        Tool::ShowTransaction => {
            assert(all_tools()[2] == t);
        },
        Tool::ReviewTransactions => {
            assert(all_tools()[3] == t);
        },
        Tool::UnreviewTransactions => {
            assert(all_tools()[4] == t);
        },
        Tool::SetTransactionCategory => {
            assert(all_tools()[5] == t);
        },
        Tool::SetTransactionNotes => {
            assert(all_tools()[6] == t);
        },
        Tool::SetTransactionTags => {
            assert(all_tools()[7] == t);
        },
        Tool::ListCategories => {
            assert(all_tools()[8] == t);
        },
        Tool::ListTags => {
            assert(all_tools()[9] == t);
        },
        Tool::CreateTag => {
            assert(all_tools()[10] == t);
        },
        Tool::DeleteTag => {
            assert(all_tools()[11] == t);
        },
        Tool::ListRecurrings => {
            assert(all_tools()[12] == t);
        },
        Tool::BudgetMonth => {
            assert(all_tools()[13] == t);
        },
        Tool::ListAccounts => {
            assert(all_tools()[14] == t);
        },
        Tool::Networth => {
            assert(all_tools()[15] == t);
        },
        Tool::SpendingSummary => {
            assert(all_tools()[16] == t);
        },
        Tool::MonthlySpending => {
            assert(all_tools()[17] == t);
        },
        Tool::UpcomingRecurrings => {
            assert(all_tools()[18] == t);
        },
    }
}


// ---- Date keywords ---------------------------------------------------------------

/// The key `Nd` that names the day `n` days before today (`-Nd` for a day
/// after it).
pub open spec fn offset_key(n: int) -> Seq<char> {
    (if n < 0 { seq!['-'] + decimal((-n) as nat) } else { decimal(n as nat) }).push('d')
}

proof fn lemma_offset_key(n: i64)
    ensures
        day_offset(offset_key(n as int)) == Some(n),
        offset_key(n as int).last() == 'd',
        normalized_date(offset_key(n as int)) is None,
{
    let m: nat = if n < 0 { (-n) as nat } else { n as nat };
    lemma_decimal_digits(m);
    let body = if n < 0 { seq!['-'] + decimal(m) } else { decimal(m) };
    let k = offset_key(n as int);
    assert(k.drop_last() == body);
    assert(is_digit(decimal(m)[0]));
    if n < 0 {
        assert(body.drop_first() == decimal(m));
        assert(signed_text_value(body) == Some(-(m as int)));
    } else {
        assert(signed_text_value(body) == Some(m as int));
    }
    assert(k[0] == body[0]);
    assert(!is_whitespace(k[0]));
    lemma_not_date(k, k.len() - 1);
}

/// The day keywords and day offsets agree: `today` is `0d`, `yesterday` is
/// `1d`, and `Nd` names the date `N` days before today.
pub proof fn law_day_keywords(today: int, n: i64)
    ensures
        offset_key(0) == "0d"@,
        offset_key(1) == "1d"@,
        resolved_start("today"@, today) == Some(day_text(today)),
        resolved_start("yesterday"@, today) == Some(day_text(today - 1)),
        resolved_start(offset_key(n as int), today) == Some(day_text(today - n)),
        resolved_start(offset_key(0), today) == resolved_start("today"@, today),
        resolved_start(offset_key(1), today) == resolved_start("yesterday"@, today),
{
    reveal_strlit("today");
    reveal_strlit("yesterday");
    reveal_strlit("this-week");
    reveal_strlit("last-week");
    reveal_strlit("this-month");
    reveal_strlit("last-month");
    reveal_strlit("0d");
    reveal_strlit("1d");
    assert(offset_key(0) =~= "0d"@);
    assert(offset_key(1) =~= "1d"@);
    lemma_offset_key(n);
    lemma_offset_key(0);
    lemma_offset_key(1);
    lemma_not_date("today"@, 0);
    lemma_not_date("yesterday"@, 0);
    assert("yesterday"@.len() != "today"@.len());
    assert("today"@.last() == 'y' && "yesterday"@.last() == 'y' && "this-week"@.last() == 'k'
        && "last-week"@.last() == 'k' && "this-month"@.last() == 'h' && "last-month"@.last() == 'h');
    assert(day_offset("today"@) is None);
    assert(day_offset("yesterday"@) is None);
}

/// A date in a four-digit year is written with ten characters.
pub proof fn law_day_text_length(z: int)
    requires
        1000 <= date_of_day(z).0 <= 9999,
    ensures
        day_text(z).len() == 10,
{
    lemma_date_of_day(z);
    let t = date_of_day(z);
    lemma_decimal_digits(t.0 as nat);
    lemma_decimal_digits(t.1 as nat);
    lemma_decimal_digits(t.2 as nat);
    assert(t.0 as i32 as int == t.0);
}

/// A key already trimmed and lowercased is its own key: the ASCII text `s`
/// trimmed and lowercased stays the same when trimmed and lowercased again,
/// so resolving it gives the same dates as resolving `s`.
pub proof fn law_key_normal_form(s: Seq<char>, today: int)
    requires
        is_ascii_text(trim(s)),
    ensures
        is_ascii_text(ascii_lowered(trim(s))),
        trim(ascii_lowered(trim(s))) == ascii_lowered(trim(s)),
        ascii_lowered(trim(ascii_lowered(trim(s)))) == ascii_lowered(trim(s)),
        resolved_start(ascii_lowered(trim(ascii_lowered(trim(s)))), today) == resolved_start(
            ascii_lowered(trim(s)),
            today,
        ),
        resolved_end(ascii_lowered(trim(ascii_lowered(trim(s)))), today) == resolved_end(
            ascii_lowered(trim(s)),
            today,
        ),
{
    let t = trim(s);
    let k = ascii_lowered(t);
    lemma_trim_ends(s);
    assert(k.len() == t.len());
    if k.len() > 0 {
        assert(k[0] == ascii_lower(t[0]));
        assert(k.last() == ascii_lower(t.last()));
    }
    lemma_trim_unchanged(k);
    assert(ascii_lowered(k) =~= k);
}

/// Weeks run from Monday to Sunday and months from their first day to their
/// last: `this-week` ends six days after it starts, `last-week` ends the
/// day before `this-week` starts, and each period starts no later than it
/// ends.
pub proof fn law_period_bounds(today: int)
    ensures
        0 <= weekday(today) < 7,
        resolved_start("this-week"@, today) == Some(day_text(today - weekday(today))),
        resolved_end("this-week"@, today) == Some(day_text(today - weekday(today) + 6)),
        resolved_start("last-week"@, today) == Some(day_text(today - weekday(today) - 7)),
        resolved_end("last-week"@, today) == Some(day_text(today - weekday(today) - 1)),
        resolved_start("this-month"@, today) == Some(date_text(current_year(today), date_of_day(today).1, 1)),
        resolved_end("this-month"@, today) == Some(
            date_text(
                current_year(today),
                date_of_day(today).1,
                month_length(current_year(today), date_of_day(today).1),
            ),
        ),
        resolved_start("last-month"@, today) == Some(
            date_text(previous_month(today).0, previous_month(today).1, 1),
        ),
        resolved_end("last-month"@, today) == Some(
            date_text(
                previous_month(today).0,
                previous_month(today).1,
                month_length(previous_month(today).0, previous_month(today).1),
            ),
        ),
        28 <= month_length(current_year(today), date_of_day(today).1) <= 31,
        28 <= month_length(previous_month(today).0, previous_month(today).1) <= 31,
{
    reveal_strlit("today");
    reveal_strlit("yesterday");
    reveal_strlit("this-week");
    reveal_strlit("last-week");
    reveal_strlit("this-month");
    reveal_strlit("last-month");
    lemma_date_of_day(today);
    lemma_not_date("this-week"@, 0);
    lemma_not_date("last-week"@, 0);
    lemma_not_date("this-month"@, 0);
    lemma_not_date("last-month"@, 0);
    assert("this-week"@.len() != "today"@.len() && "this-week"@[0] != "yesterday"@[0]);
    assert("last-week"@.len() != "today"@.len() && "last-week"@[0] != "yesterday"@[0]);
    assert("this-month"@.len() != "today"@.len() && "this-month"@.len() != "yesterday"@.len());
    assert("last-month"@.len() != "today"@.len() && "last-month"@.len() != "yesterday"@.len());
    assert("this-month"@.len() != "this-week"@.len() && "this-month"@.len() != "last-week"@.len());
    assert("last-month"@.len() != "this-week"@.len() && "last-month"@.len() != "last-week"@.len());
    assert("last-week"@[0] != "this-week"@[0]);
    assert("last-month"@[0] != "this-month"@[0]);
}

/// Any key other than the week and month keywords ends where it starts:
/// for a key already trimmed and lowercased, the end date is the start
/// date (a date is itself; `today`, `yesterday` and `Nd` name one day).
pub proof fn law_end_of_other_keys(key: Seq<char>, today: int)
    requires
        lowercase(trim(key)) == key,
        key != "this-week"@,
        key != "last-week"@,
        key != "this-month"@,
        key != "last-month"@,
    ensures
        normalized_date(key) is Some ==> resolved_end(key, today) == resolved_start(key, today),
        normalized_date(key) is None ==> resolved_end(key, today) == if offset_in_range(key, today) {
            resolved_start(key, today)
        } else {
            None
        },
{
}


// ---- The tool list ----------------------------------------------------------------

/// The position of tool `t` in the tool list.
pub open spec fn tool_index(t: Tool) -> int {
    match t {
        Tool::ListTransactions => 0,
        Tool::SearchTransactions => 1,
        Tool::ShowTransaction => 2,
        Tool::ReviewTransactions => 3,
        Tool::UnreviewTransactions => 4,
        Tool::SetTransactionCategory => 5,
        Tool::SetTransactionNotes => 6,
        Tool::SetTransactionTags => 7,
        Tool::ListCategories => 8,
        Tool::ListTags => 9,
        Tool::CreateTag => 10,
        Tool::DeleteTag => 11,
        Tool::ListRecurrings => 12,
        Tool::BudgetMonth => 13,
        Tool::ListAccounts => 14,
        Tool::Networth => 15,
        Tool::SpendingSummary => 16,
        Tool::MonthlySpending => 17,
        Tool::UpcomingRecurrings => 18,
    }
}

proof fn lemma_tool_index(k: int)
    requires
        0 <= k < all_tools().len(),
    ensures
        tool_index(all_tools()[k]) == k,
{
        if k == 0 {
            assert(all_tools()[0] == Tool::ListTransactions);
        }
        if k == 1 {
            assert(all_tools()[1] == Tool::SearchTransactions);
        }
        if k == 2 {
            assert(all_tools()[2] == Tool::ShowTransaction);
        }
        if k == 3 {
            assert(all_tools()[3] == Tool::ReviewTransactions);
        }
        if k == 4 {
            assert(all_tools()[4] == Tool::UnreviewTransactions);
        }
        if k == 5 {
            assert(all_tools()[5] == Tool::SetTransactionCategory);
        }
        if k == 6 {
            assert(all_tools()[6] == Tool::SetTransactionNotes);
        }
        if k == 7 {
            assert(all_tools()[7] == Tool::SetTransactionTags);
        }
        if k == 8 {
            assert(all_tools()[8] == Tool::ListCategories);
        }
        if k == 9 {
            assert(all_tools()[9] == Tool::ListTags);
        }
        if k == 10 {
            assert(all_tools()[10] == Tool::CreateTag);
        }
        if k == 11 {
            assert(all_tools()[11] == Tool::DeleteTag);
        }
        if k == 12 {
            assert(all_tools()[12] == Tool::ListRecurrings);
        }
        if k == 13 {
            assert(all_tools()[13] == Tool::BudgetMonth);
        }
        if k == 14 {
            assert(all_tools()[14] == Tool::ListAccounts);
        }
        if k == 15 {
            assert(all_tools()[15] == Tool::Networth);
        }
        if k == 16 {
            assert(all_tools()[16] == Tool::SpendingSummary);
        }
        if k == 17 {
            assert(all_tools()[17] == Tool::MonthlySpending);
        }
        if k == 18 {
            assert(all_tools()[18] == Tool::UpcomingRecurrings);
        }
}

/// Every parameter a tool requires is one of its parameters.
proof fn lemma_required_are_params(t: Tool)
    ensures
        forall|i: int| 0 <= i < tool_required(t).len() ==> tool_params(t).contains(#[trigger] tool_required(t)[i]),
{
    match t {
        Tool::ListTransactions => {},
        Tool::SearchTransactions => {
            assert(tool_params(t)[0] == tool_required(t)[0]);
        },
        Tool::ShowTransaction => {
            assert(tool_params(t)[0] == tool_required(t)[0]);
        },
        Tool::ReviewTransactions => {
            assert(tool_params(t)[0] == tool_required(t)[0]);
        },
        Tool::UnreviewTransactions => {
            assert(tool_params(t)[0] == tool_required(t)[0]);
        },
        Tool::SetTransactionCategory => {
            assert(tool_params(t)[0] == tool_required(t)[0]);
        },
        Tool::SetTransactionNotes => {
            assert(tool_params(t)[0] == tool_required(t)[0]);
        },
        Tool::SetTransactionTags => {
            assert(tool_params(t)[0] == tool_required(t)[0]);
            assert(tool_params(t)[1] == tool_required(t)[1]);
        },
        Tool::ListCategories => {},
        Tool::ListTags => {},
        Tool::CreateTag => {
            assert(tool_params(t)[0] == tool_required(t)[0]);
        },
        Tool::DeleteTag => {
            assert(tool_params(t)[0] == tool_required(t)[0]);
        },
        Tool::ListRecurrings => {},
        Tool::BudgetMonth => {},
        Tool::ListAccounts => {},
        Tool::Networth => {},
        Tool::SpendingSummary => {},
        Tool::MonthlySpending => {},
        Tool::UpcomingRecurrings => {},
    }
}

/// The name under which a tool definition offers its tool.
pub open spec fn definition_name(d: JsonValue) -> Seq<char> {
    match d {
        JsonValue::Object(m) => if m@.len() > 0 {
            match m@[0].1 {
                JsonValue::String(s) => s@,
                _ => Seq::empty(),
            }
        } else {
            Seq::empty()
        },
        _ => Seq::empty(),
    }
}

/// The names a tool definition's input schema requires are names of its
/// properties.
pub open spec fn required_are_properties(d: JsonValue) -> bool {
    d matches JsonValue::Object(m) && m@.len() == 3 && (m@[2].1 matches JsonValue::Object(s) && s@.len() >= 2
        && named(s@, 0, "type"@) && json_text(s@[0].1, Some("object"@)) && (s@[1].1 matches JsonValue::Object(p)
        && (s@.len() == 3 ==> (s@[2].1 matches JsonValue::Array(q) && forall|i: int|
        0 <= i < q@.len() ==> (#[trigger] q@[i] matches JsonValue::String(x) && member_names(p@).contains(x@))))))
}

/// The `tools/list` answer offers every tool once: its definitions carry
/// pairwise different names, each name calls the tool it describes (so no
/// listed tool is answered with an unknown-tool error), each input schema
/// is of type `object`, and every parameter it requires is one of its
/// properties.
pub proof fn law_tools_list(defs: Seq<JsonValue>)
    requires
        defs.len() == all_tools().len(),
        forall|k: int| 0 <= k < defs.len() ==> is_tool_definition(#[trigger] defs[k], all_tools()[k]),
    ensures
        defs.len() == 19,
        forall|i: int, j: int|
            0 <= i < j < defs.len() ==> definition_name(#[trigger] defs[i]) != definition_name(#[trigger] defs[j]),
        forall|k: int| 0 <= k < defs.len() ==> tool_named(definition_name(#[trigger] defs[k])) == Some(all_tools()[k]),
        forall|k: int| 0 <= k < defs.len() ==> required_are_properties(#[trigger] defs[k]),
{
    assert forall|k: int| 0 <= k < defs.len() implies tool_named(definition_name(#[trigger] defs[k])) == Some(
        all_tools()[k],
    ) by {
        law_tool_names_dispatch(all_tools()[k]);
    }
    assert forall|i: int, j: int|
        0 <= i < j < defs.len() implies definition_name(#[trigger] defs[i]) != definition_name(#[trigger] defs[j]) by {
        law_tool_names_dispatch(all_tools()[i]);
        law_tool_names_dispatch(all_tools()[j]);
        lemma_tool_index(i);
        lemma_tool_index(j);
    }
    assert forall|k: int| 0 <= k < defs.len() implies required_are_properties(#[trigger] defs[k]) by {
        let t = all_tools()[k];
        lemma_required_are_params(t);
        let d = defs[k];
        if let JsonValue::Object(m) = d {
            if let JsonValue::Object(sch) = m@[2].1 {
                if let JsonValue::Object(p) = sch@[1].1 {
                    if sch@.len() == 3 {
                        if let JsonValue::Array(q) = sch@[2].1 {
                            assert forall|i: int| 0 <= i < q@.len() implies (#[trigger] q@[i] matches JsonValue::String(
                                x,
                            ) && member_names(p@).contains(x@)) by {
                                assert(q@[i] matches JsonValue::String(x) && x@ == tool_required(t)[i]);
                            }
                        }
                    }
                }
            }
        }
    }
}


// ---- Likely duplicates: alike names ------------------------------------------------

/// Whether two names are alike does not depend on their order, and a name
/// is alike to any name that contains it: two transactions with the same
/// amount and close dates are grouped whichever of their names extends the
/// other.
pub proof fn law_names_alike(a: Seq<char>, b: Seq<char>)
    ensures
        names_alike(a, b) == names_alike(b, a),
        a.len() > 0 && b.len() > 0 && has_substring(b, a) ==> names_alike(a, b),
        a.len() > 0 && b.len() > 0 && has_substring(a, b) ==> names_alike(a, b),
        names_alike(a, a),
{
}

// ---- Date bounds of the transaction filters ----------------------------------------

proof fn lemma_text_lt_order(a: Seq<char>, b: Seq<char>)
    ensures
        !text_lt(a, a),
        text_lt(a, b) ==> !text_lt(b, a),
{
    if text_lt(a, a) {
        let k = choose|k: int|
            0 <= k <= a.len() && k <= a.len() && #[trigger] a.take(k) == a.take(k) && ((k == a.len()
                && k < a.len()) || (k < a.len() && k < a.len() && a[k] < a[k]));
    }
    if text_lt(a, b) && text_lt(b, a) {
        let k = choose|k: int|
            0 <= k <= a.len() && k <= b.len() && #[trigger] a.take(k) == b.take(k) && ((k == a.len()
                && k < b.len()) || (k < a.len() && k < b.len() && a[k] < b[k]));
        let j = choose|j: int|
            0 <= j <= b.len() && j <= a.len() && #[trigger] b.take(j) == a.take(j) && ((j == b.len()
                && j < a.len()) || (j < b.len() && j < a.len() && b[j] < a[j]));
        if k < j {
            assert(a.take(j)[k] == b.take(j)[k]);
        } else if j < k {
            assert(a.take(k)[j] == b.take(k)[j]);
        }
    }
}

/// The date bounds are inclusive: a transaction dated on the start day (or
/// later) passes the start bound, one dated before it is dropped; one dated
/// on the end day (or earlier) passes the end bound, one dated after it is
/// dropped. Passing a bound leaves the other filters to decide.
pub proof fn law_date_bounds_inclusive(
    t: Transaction,
    amount_passes: bool,
    f: TransactionFilters,
    x: Seq<char>,
    y: Seq<char>,
    from: Option<Seq<char>>,
    to: Option<Seq<char>>,
)
    ensures
        text_or_empty(t.date) == x ==> passes(t, amount_passes, f, Some(x), to) == passes(
            t,
            amount_passes,
            f,
            None,
            to,
        ),
        text_lt(x, text_or_empty(t.date)) ==> passes(t, amount_passes, f, Some(x), to) == passes(
            t,
            amount_passes,
            f,
            None,
            to,
        ),
        text_lt(text_or_empty(t.date), x) ==> !passes(t, amount_passes, f, Some(x), to),
        text_or_empty(t.date) == y ==> passes(t, amount_passes, f, from, Some(y)) == passes(
            t,
            amount_passes,
            f,
            from,
            None,
        ),
        text_lt(text_or_empty(t.date), y) ==> passes(t, amount_passes, f, from, Some(y)) == passes(
            t,
            amount_passes,
            f,
            from,
            None,
        ),
        text_lt(y, text_or_empty(t.date)) ==> !passes(t, amount_passes, f, from, Some(y)),
{
    lemma_text_lt_order(text_or_empty(t.date), x);
    lemma_text_lt_order(x, text_or_empty(t.date));
    lemma_text_lt_order(text_or_empty(t.date), y);
    lemma_text_lt_order(y, text_or_empty(t.date));
}

// ---- The tools' category filter ----------------------------------------------------

/// The tools' category filter ignores case on both sides: with only the
/// category filter on, a transaction is kept exactly when the name of its
/// category, lowercased, is the wanted name lowercased; in particular when
/// the wanted name is its category's name as written. A transaction without
/// a known category is not kept.
pub proof fn law_tool_category_ignores_case(t: Transaction, a: ListToolArgs, cats: Seq<(String, String)>)
    requires
        a.name_contains is None,
        a.date is None,
        a.tag is None,
        a.category is Some,
    ensures
        t.category_id matches Some(id) ==> (lookup_name(pair_views(cats), id@) matches Some(n) ==> (tool_keeps(
            t,
            a,
            cats,
        ) <==> lowercase(n) == lowercase(a.category->0@))),
        t.category_id matches Some(id) ==> (lookup_name(pair_views(cats), id@) == Some(a.category->0@)
            ==> tool_keeps(t, a, cats)),
        (t.category_id is None || lookup_name(pair_views(cats), t.category_id->0@) is None) ==> !tool_keeps(
            t,
            a,
            cats,
        ),
{
}

// ---- CSV cells ---------------------------------------------------------------------

/// `s` with its quotes paired: every `"` is followed by another, which it
/// stands with for one quote.
pub open spec fn quotes_paired(s: Seq<char>) -> bool
    decreases s.len(),
{
    if s.len() == 0 {
        true
    } else if s.last() == '"' {
        s.len() >= 2 && s[s.len() - 2] == '"' && quotes_paired(s.take(s.len() - 2))
    } else {
        quotes_paired(s.drop_last())
    }
}

/// `s` with every pair of quotes read as one quote.
pub open spec fn undoubled(s: Seq<char>) -> Seq<char>
    decreases s.len(),
{
    if s.len() == 0 {
        Seq::empty()
    } else if s.last() == '"' && s.len() >= 2 && s[s.len() - 2] == '"' {
        undoubled(s.take(s.len() - 2)).push('"')
    } else {
        undoubled(s.drop_last()).push(s.last())
    }
}

/// `s` is one field of a CSV record (RFC 4180): text without a comma, quote
/// or line break, or a quoted text in which every quote is doubled.
pub open spec fn is_csv_field(s: Seq<char>) -> bool {
    if s.contains(',') || s.contains('"') || s.contains('\n') {
        &&& s.len() >= 2
        &&& s[0] == '"'
        &&& s.last() == '"'
        &&& quotes_paired(s.subrange(1, s.len() - 1))
    } else {
        true
    }
}

/// The text a CSV field stands for: a quoted field without its quotes and
/// with its doubled quotes read as one; any other field as it is.
pub open spec fn csv_field_text(s: Seq<char>) -> Seq<char> {
    if s.len() >= 2 && s[0] == '"' && s.last() == '"' {
        undoubled(s.subrange(1, s.len() - 1))
    } else {
        s
    }
}

proof fn lemma_doubled_quotes(s: Seq<char>)
    ensures
        quotes_paired(doubled_quotes(s)),
        undoubled(doubled_quotes(s)) == s,
    decreases s.len(),
{
    if s.len() > 0 {
        let p = s.drop_last();
        lemma_doubled_quotes(p);
        let d = doubled_quotes(s);
        let dp = doubled_quotes(p);
        if s.last() == '"' {
            assert(d == dp + seq!['"', '"']);
            assert(d.take(d.len() - 2) == dp);
        } else {
            assert(d == dp + seq![s.last()]);
            assert(d.drop_last() == dp);
        }
        assert(p.push(s.last()) == s);
    }
}

/// An escaped text is one CSV field, and it stands for the text.
pub proof fn law_csv_escaped_round_trip(s: Seq<char>)
    ensures
        is_csv_field(csv_escaped(s)),
        csv_field_text(csv_escaped(s)) == s,
{
    lemma_doubled_quotes(s);
    let e = csv_escaped(s);
    if s.contains(',') || s.contains('"') || s.contains('\n') {
        let d = doubled_quotes(s);
        assert(e == seq!['"'] + d + seq!['"']);
        assert(e.subrange(1, e.len() - 1) == d);
    } else {
        if s.len() >= 2 && s[0] == '"' {
            assert(s.contains('"'));
        }
    }
}

/// Every free-text cell of a CSV row (name, category, tags, account, notes)
/// is one CSV field that stands for the text it shows, so a comma, quote or
/// line break in the text never splits or shifts the row's columns.
pub proof fn law_csv_text_cells(
    t: Transaction,
    money: Seq<char>,
    cats: Seq<(String, String)>,
    accts: Seq<(String, String)>,
)
    ensures
        is_csv_field(csv_cell(t, money, TransactionField::Name, cats, accts)),
        csv_field_text(csv_cell(t, money, TransactionField::Name, cats, accts)) == text_or_empty(t.name),
        is_csv_field(csv_cell(t, money, TransactionField::Notes, cats, accts)),
        csv_field_text(csv_cell(t, money, TransactionField::Notes, cats, accts)) == text_or_empty(t.user_notes),
        is_csv_field(csv_cell(t, money, TransactionField::Category, cats, accts)),
        csv_field_text(csv_cell(t, money, TransactionField::Category, cats, accts)) == looked_up(
            cats,
            t.category_id,
        ),
        is_csv_field(csv_cell(t, money, TransactionField::Account, cats, accts)),
        csv_field_text(csv_cell(t, money, TransactionField::Account, cats, accts)) == looked_up(
            accts,
            t.account_id,
        ),
        is_csv_field(csv_cell(t, money, TransactionField::Tags, cats, accts)),
        csv_field_text(csv_cell(t, money, TransactionField::Tags, cats, accts)) == joined(
            match t.tags {
                Some(ts) => plain_tag_names(ts@),
                None => Seq::empty(),
            },
            ";"@,
        ),
{
    law_csv_escaped_round_trip(text_or_empty(t.name));
    law_csv_escaped_round_trip(text_or_empty(t.user_notes));
    law_csv_escaped_round_trip(looked_up(cats, t.category_id));
    law_csv_escaped_round_trip(looked_up(accts, t.account_id));
    law_csv_escaped_round_trip(
        joined(
            match t.tags {
                Some(ts) => plain_tag_names(ts@),
                None => Seq::empty(),
            },
            ";"@,
        ),
    );
}

// ---- Finding a category by name ----------------------------------------------------

proof fn lemma_matches_sound(pairs: Seq<(Seq<char>, Seq<char>)>, key: Seq<char>)
    ensures
        forall|i: int| 0 <= i < exact_name_matches(pairs, key).len() ==> exists|k: int|
            0 <= k < pairs.len() && pairs[k].0 == #[trigger] exact_name_matches(pairs, key)[i] && lowercase(
                pairs[k].1,
            ) == key,
    decreases pairs.len(),
{
    if pairs.len() > 0 {
        let p = pairs.drop_last();
        lemma_matches_sound(p, key);
        let m = exact_name_matches(pairs, key);
        let mp = exact_name_matches(p, key);
        let n = pairs.len() - 1;
        assert forall|i: int| 0 <= i < m.len() implies exists|k: int|
            0 <= k < pairs.len() && pairs[k].0 == #[trigger] m[i] && lowercase(pairs[k].1) == key by {
            if i < mp.len() {
                assert(m[i] == mp[i]);
                let k = choose|k: int| 0 <= k < p.len() && p[k].0 == #[trigger] mp[i] && lowercase(p[k].1) == key;
                assert(pairs[k] == p[k]);
            } else {
                assert(pairs[n].0 == m[i]);
            }
        }
    }
}

proof fn lemma_matches_complete(pairs: Seq<(Seq<char>, Seq<char>)>, key: Seq<char>)
    ensures
        forall|k: int| 0 <= k < pairs.len() && lowercase(#[trigger] pairs[k].1) == key ==> exact_name_matches(
            pairs,
            key,
        ).contains(pairs[k].0),
    decreases pairs.len(),
{
    if pairs.len() > 0 {
        let p = pairs.drop_last();
        lemma_matches_complete(p, key);
        let m = exact_name_matches(pairs, key);
        let mp = exact_name_matches(p, key);
        let n = pairs.len() - 1;
        assert forall|k: int| 0 <= k < pairs.len() && lowercase(#[trigger] pairs[k].1) == key implies m.contains(
            pairs[k].0,
        ) by {
            if k < n {
                assert(pairs[k] == p[k]);
                assert(lowercase(p[k].1) == key);
                assert(mp.contains(p[k].0));
                let i = choose|i: int| 0 <= i < mp.len() && mp[i] == p[k].0;
                assert(m[i] == mp[i]);
            } else {
                assert(m[m.len() - 1] == pairs[k].0);
            }
        }
    }
}

proof fn lemma_matches_none(pairs: Seq<(Seq<char>, Seq<char>)>, key: Seq<char>)
    requires
        forall|k: int| 0 <= k < pairs.len() ==> lowercase(#[trigger] pairs[k].1) != key,
    ensures
        exact_name_matches(pairs, key).len() == 0,
    decreases pairs.len(),
{
    if pairs.len() > 0 {
        let p = pairs.drop_last();
        assert forall|k: int| 0 <= k < p.len() implies lowercase(#[trigger] p[k].1) != key by {
            assert(pairs[k] == p[k]);
        }
        lemma_matches_none(p, key);
        assert(lowercase(pairs[pairs.len() - 1].1) != key);
    }
}

proof fn lemma_matches_single(pairs: Seq<(Seq<char>, Seq<char>)>, key: Seq<char>, k0: int)
    requires
        0 <= k0 < pairs.len(),
        lowercase(pairs[k0].1) == key,
        forall|k: int| 0 <= k < pairs.len() && k != k0 ==> lowercase(#[trigger] pairs[k].1) != key,
    ensures
        exact_name_matches(pairs, key) == seq![pairs[k0].0],
    decreases pairs.len(),
{
    let p = pairs.drop_last();
    let n = pairs.len() - 1;
    if k0 < n {
        assert(pairs[k0] == p[k0]);
        assert forall|k: int| 0 <= k < p.len() && k != k0 implies lowercase(#[trigger] p[k].1) != key by {
            assert(pairs[k] == p[k]);
        }
        lemma_matches_single(p, key, k0);
        assert(lowercase(pairs[n].1) != key);
    } else {
        assert forall|k: int| 0 <= k < p.len() implies lowercase(#[trigger] p[k].1) != key by {
            assert(pairs[k] == p[k]);
        }
        lemma_matches_none(p, key);
        assert(exact_name_matches(p, key) =~= Seq::<Seq<char>>::empty());
    }
}

/// A category given by name is found by its whole name, case aside: every
/// category matched has, lowercased, exactly the name sought; every
/// category so named is matched; and when exactly one category carries
/// the name, it is the one match, so resolving the name gives its id.
pub proof fn law_category_matches_whole_names(categories: Seq<Category>, key: Seq<char>)
    ensures
        ({
            let pairs = pairs_of(flatten_spec(categories, None, true));
            let m = category_matches(categories, key);
            &&& forall|i: int| 0 <= i < m.len() ==> exists|k: int|
                0 <= k < pairs.len() && pairs[k].0 == #[trigger] m[i] && lowercase(pairs[k].1) == key
            &&& forall|k: int| 0 <= k < pairs.len() && lowercase(#[trigger] pairs[k].1) == key ==> m.contains(pairs[k].0)
            &&& forall|k0: int|
                0 <= k0 < pairs.len() && lowercase(#[trigger] pairs[k0].1) == key && (forall|k: int|
                    0 <= k < pairs.len() && k != k0 ==> lowercase(#[trigger] pairs[k].1) != key) ==> m == seq![
                    pairs[k0].0]
            &&& (forall|k: int| 0 <= k < pairs.len() ==> lowercase(#[trigger] pairs[k].1) != key) ==> m.len() == 0
        }),
{
    let pairs = pairs_of(flatten_spec(categories, None, true));
    lemma_matches_sound(pairs, key);
    lemma_matches_complete(pairs, key);
    assert forall|k0: int|
        0 <= k0 < pairs.len() && lowercase(#[trigger] pairs[k0].1) == key && (forall|k: int|
            0 <= k < pairs.len() && k != k0 ==> lowercase(#[trigger] pairs[k].1) != key) implies category_matches(
        categories,
        key,
    ) == seq![pairs[k0].0] by {
        lemma_matches_single(pairs, key, k0);
    }
    if forall|k: int| 0 <= k < pairs.len() ==> lowercase(#[trigger] pairs[k].1) != key {
        lemma_matches_none(pairs, key);
    }
}

} // verus!
