//! The data the finance service returns, held as plain values, and the
//! client configuration.
use vstd::prelude::*;
use crate::json::JsonValue;

verus! {

/// Where the client reads its responses from.
#[derive(Debug, Clone, PartialEq)]
pub enum ClientMode {
    /// The service's GraphQL endpoint.
    Http {
        base_url: String,
        token: Option<String>,
        token_file: String,
        session_dir: Option<String>,
        /// When true and running in a terminal, a browser is opened to log in
        /// again if the token has expired and a session refresh fails.
        auto_login: bool,
    },
    /// A directory of recorded responses, one `<operation>.json` per operation.
    Fixtures(String),
}

/// A client for the service, configured by its mode.
#[derive(Debug, Clone, PartialEq)]
pub struct CopilotClient {
    pub mode: ClientMode,
}

impl CopilotClient {
    /// A client in the given mode.
    pub fn new(mode: ClientMode) -> (r: Self)
        ensures
            r.mode == mode,
    {
        CopilotClient { mode }
    }
}

/// Cursor information of one page of a paginated list.
#[derive(Debug, Clone, PartialEq)]
pub struct PageInfo {
    pub end_cursor: Option<String>,
    pub has_next_page: Option<bool>,
    pub has_previous_page: Option<bool>,
    pub start_cursor: Option<String>,
}

/// One page of transactions.
#[derive(Debug, Clone, PartialEq)]
pub struct TransactionsPage {
    pub transactions: Vec<Transaction>,
    pub page_info: PageInfo,
}

/// A tag that can be attached to transactions.
#[derive(Debug, Clone, PartialEq)]
pub struct Tag {
    pub id: String,
    pub name: Option<String>,
    pub color_name: Option<String>,
}

/// A transaction.
#[derive(Debug, Clone, PartialEq)]
pub struct Transaction {
    pub id: String,
    pub date: Option<String>,
    pub name: Option<String>,
    pub amount: Option<JsonValue>,
    pub item_id: Option<String>,
    pub txn_type: Option<String>,
    pub is_reviewed: Option<bool>,
    pub category_id: Option<String>,
    pub account_id: Option<String>,
    pub recurring_id: Option<String>,
    pub user_notes: Option<String>,
    pub tags: Option<Vec<Tag>>,
}

/// The identifiers that address one transaction in an edit.
#[derive(Debug, Clone, PartialEq)]
pub struct TransactionIdRef {
    pub account_id: String,
    pub id: String,
    pub item_id: String,
}

/// A transaction that a bulk edit failed to update.
#[derive(Debug, Clone, PartialEq)]
pub struct BulkEditFailed {
    pub error: Option<String>,
    pub error_code: Option<String>,
}

/// The outcome of a bulk edit.
#[derive(Debug, Clone, PartialEq)]
pub struct BulkEditTransactionsResult {
    pub updated: Vec<Transaction>,
    pub failed: Vec<BulkEditFailed>,
}

/// The icon of a category.
#[derive(Debug, Clone, PartialEq)]
pub enum Icon {
    EmojiUnicode { unicode: Option<String> },
    Genmoji { id: Option<String>, src: Option<String> },
    Other,
}

/// A spending category, possibly with child categories.
#[derive(Debug, PartialEq)]
pub struct Category {
    pub id: String,
    pub name: Option<String>,
    pub is_rollover_disabled: Option<bool>,
    pub can_be_deleted: Option<bool>,
    pub is_excluded: Option<bool>,
    pub template_id: Option<String>,
    pub color_name: Option<String>,
    pub icon: Option<Icon>,
    pub child_categories: Option<Vec<Category>>,
}

/// A recurring payment.
#[derive(Debug, Clone, PartialEq)]
pub struct Recurring {
    pub id: String,
    pub name: Option<String>,
    pub frequency: Option<String>,
    pub category_id: Option<String>,
}

/// The budgeted amount of one month.
#[derive(Debug, Clone, PartialEq)]
pub struct BudgetMonth {
    pub month: String,
    pub amount: String,
}

/// A connected financial account.
#[derive(Debug, Clone, PartialEq)]
pub struct Account {
    pub id: String,
    pub name: Option<String>,
    pub account_type: Option<String>,
    pub sub_type: Option<String>,
    pub mask: Option<String>,
    pub balance: Option<JsonValue>,
    pub limit: Option<JsonValue>,
    pub item_id: Option<String>,
    pub institution_id: Option<String>,
    pub is_manual: Option<bool>,
    pub is_user_hidden: Option<bool>,
    pub is_user_closed: Option<bool>,
    pub color: Option<String>,
    pub has_live_balance: Option<bool>,
    pub live_balance: Option<JsonValue>,
}

/// Net worth on one date.
#[derive(Debug, Clone, PartialEq)]
pub struct NetworthEntry {
    pub assets: Option<JsonValue>,
    pub date: Option<String>,
    pub debt: Option<JsonValue>,
}

/// Spending of one month.
#[derive(Debug, Clone, PartialEq)]
pub struct MonthlySpendEntry {
    pub id: Option<String>,
    pub date: Option<String>,
    pub total_amount: Option<JsonValue>,
    pub comparison_amount: Option<JsonValue>,
}

/// Current and past spending.
#[derive(Debug, Clone, PartialEq)]
pub struct SpendData {
    pub current: Option<SpendMonthly>,
    pub histories: Option<Vec<SpendMonthly>>,
}

/// Spending of one month with comparisons.
#[derive(Debug, Clone, PartialEq)]
pub struct SpendMonthly {
    pub id: Option<String>,
    pub month: Option<String>,
    pub amount: Option<JsonValue>,
    pub comparison_amount: Option<JsonValue>,
    pub unpaid_recurring_amount: Option<JsonValue>,
}

/// A recurring payment that is due and not yet paid.
#[derive(Debug, Clone, PartialEq)]
pub struct UpcomingRecurring {
    pub id: String,
    pub name: Option<String>,
    pub frequency: Option<String>,
    pub category_id: Option<String>,
    pub state: Option<String>,
    pub emoji: Option<String>,
    pub icon: Option<Icon>,
    pub next_payment_date: Option<String>,
    pub next_payment_amount: Option<JsonValue>,
    pub rule: Option<RecurringRule>,
    pub payments: Option<Vec<RecurringPayment>>,
}

/// How transactions are matched to a recurring payment.
#[derive(Debug, Clone, PartialEq)]
pub struct RecurringRule {
    pub name_contains: Option<String>,
    pub min_amount: Option<JsonValue>,
    pub max_amount: Option<JsonValue>,
    pub days: Option<Vec<i32>>,
}

/// One payment of a recurring payment.
#[derive(Debug, Clone, PartialEq)]
pub struct RecurringPayment {
    pub amount: Option<JsonValue>,
    pub is_paid: Option<bool>,
    pub date: Option<String>,
}

/// Totals over transactions.
#[derive(Debug, Clone, PartialEq)]
pub struct TransactionSummary {
    pub transactions_count: Option<i64>,
    pub total_net_income: Option<JsonValue>,
    pub total_income: Option<JsonValue>,
    pub total_spent: Option<JsonValue>,
}

} // verus!
