use copilot_money_cli::calendar::{civil_from_days, days_from_civil, last_day_of_month};
use copilot_money_cli::cli::csv_escape_field;
use copilot_money_cli::client::Transaction;
use copilot_money_cli::dates::{dates_within_days, normalize_date, resolve_date, resolve_date_end};
use copilot_money_cli::json::JsonValue;
use copilot_money_cli::session::{build_transactions_filter, sort_to_graphql, TransactionsSort};
use copilot_money_cli::transactions::find_duplicate_groups;

fn s(v: &str) -> JsonValue {
    JsonValue::String(v.to_string())
}

fn txn(id: &str, date: &str, name: &str, amount: &str) -> Transaction {
    Transaction {
        id: id.into(),
        date: Some(date.into()),
        name: Some(name.into()),
        amount: Some(s(amount)),
        item_id: None,
        txn_type: None,
        is_reviewed: None,
        category_id: None,
        account_id: None,
        recurring_id: None,
        user_notes: None,
        tags: None,
    }
}

/// For each pair of transactions, whether their amounts are numbers less
/// than a cent apart.
fn same_amounts(txns: &[Transaction]) -> Vec<Vec<bool>> {
    let amount = |t: &Transaction| match &t.amount {
        Some(JsonValue::String(x)) => x.trim().parse::<f64>().ok(),
        _ => None,
    };
    txns.iter()
        .map(|a| {
            txns.iter()
                .map(|b| match (amount(a), amount(b)) {
                    (Some(x), Some(y)) => (x - y).abs() < 0.01,
                    _ => false,
                })
                .collect()
        })
        .collect()
}

#[test]
fn normalize_date_accepts_yyyy_mm_dd_and_mm_dd_yyyy() {
    assert_eq!(normalize_date("2025-12-03"), Some("2025-12-03".to_string()));
    assert_eq!(normalize_date("12-03-2025"), Some("2025-12-03".to_string()));
    assert_eq!(normalize_date("03-12-2025"), Some("2025-03-12".to_string()));
}

#[test]
fn normalize_date_rejects_invalid() {
    assert_eq!(normalize_date(""), None);
    assert_eq!(normalize_date("2025-13-01"), None);
    assert_eq!(normalize_date("2025-00-01"), None);
    assert_eq!(normalize_date("2025-12-32"), None);
    assert_eq!(normalize_date("2025/12/01"), None);
}

#[test]
fn sort_to_graphql_maps_values() {
    let date_desc = JsonValue::Array(vec![JsonValue::Object(vec![
        ("field".to_string(), s("DATE")),
        ("direction".to_string(), s("DESC")),
    ])]);
    assert_eq!(sort_to_graphql(Some(TransactionsSort::DateDesc)).unwrap(), date_desc);
    let amount_asc = JsonValue::Array(vec![JsonValue::Object(vec![
        ("field".to_string(), s("AMOUNT")),
        ("direction".to_string(), s("ASC")),
    ])]);
    assert_eq!(sort_to_graphql(Some(TransactionsSort::AmountAsc)).unwrap(), amount_asc);
    assert!(sort_to_graphql(None).is_none());
}

#[test]
fn build_transactions_filter_works() {
    assert_eq!(
        build_transactions_filter(true, false),
        Some(JsonValue::Object(vec![("isReviewed".to_string(), JsonValue::Bool(true))]))
    );
    assert_eq!(
        build_transactions_filter(false, true),
        Some(JsonValue::Object(vec![("isReviewed".to_string(), JsonValue::Bool(false))]))
    );
    assert_eq!(build_transactions_filter(false, false), None);
}

#[test]
fn resolve_date_absolute_dates() {
    assert_eq!(resolve_date("2025-12-03"), Some("2025-12-03".to_string()));
    assert_eq!(resolve_date("12-03-2025"), Some("2025-12-03".to_string()));
}

#[test]
fn resolve_date_today_returns_current_date() {
    let result = resolve_date("today");
    assert!(result.is_some());
    let d = result.unwrap();
    assert_eq!(d.len(), 10);
    assert!(d.starts_with("20"));
}

#[test]
fn resolve_date_yesterday_returns_a_date() {
    let result = resolve_date("yesterday");
    assert!(result.is_some());
    let d = result.unwrap();
    assert_eq!(d.len(), 10);
}

#[test]
fn resolve_date_relative_days() {
    let result = resolve_date("7d");
    assert!(result.is_some());
    let d = result.unwrap();
    assert_eq!(d.len(), 10);

    let result30 = resolve_date("30d");
    assert!(result30.is_some());
}

#[test]
fn resolve_date_this_month() {
    let result = resolve_date("this-month");
    assert!(result.is_some());
    let d = result.unwrap();
    assert!(d.ends_with("-01"));
}

#[test]
fn resolve_date_last_month() {
    let result = resolve_date("last-month");
    assert!(result.is_some());
    let d = result.unwrap();
    assert!(d.ends_with("-01"));
}

#[test]
fn resolve_date_this_week() {
    let result = resolve_date("this-week");
    assert!(result.is_some());
}

#[test]
fn resolve_date_last_week() {
    let result = resolve_date("last-week");
    assert!(result.is_some());
}

#[test]
fn resolve_date_unknown_returns_none() {
    assert_eq!(resolve_date("foobar"), None);
    assert_eq!(resolve_date(""), None);
}

#[test]
fn resolve_date_end_this_month_gives_end_of_month() {
    let result = resolve_date_end("this-month");
    assert!(result.is_some());
    let d = result.unwrap();
    let day: u32 = d[8..10].parse().unwrap();
    assert!(day >= 28);
}

#[test]
fn resolve_date_end_absolute_passthrough() {
    assert_eq!(resolve_date_end("2025-06-15"), Some("2025-06-15".to_string()));
}

#[test]
fn civil_date_roundtrip() {
    let days = days_from_civil(2025, 1, 1);
    let (y, m, d) = civil_from_days(days);
    assert_eq!((y, m, d), (2025, 1, 1));

    let days2 = days_from_civil(2024, 2, 29);
    let (y2, m2, d2) = civil_from_days(days2);
    assert_eq!((y2, m2, d2), (2024, 2, 29));
}

#[test]
fn civil_date_epoch() {
    let (y, m, d) = civil_from_days(0);
    assert_eq!((y, m, d), (1970, 1, 1));
}

#[test]
fn last_day_of_month_values() {
    assert_eq!(last_day_of_month(2025, 1), 31);
    assert_eq!(last_day_of_month(2025, 2), 28);
    assert_eq!(last_day_of_month(2024, 2), 29);
    assert_eq!(last_day_of_month(2025, 4), 30);
    assert_eq!(last_day_of_month(2025, 12), 31);
}

#[test]
fn dates_within_days_same_date() {
    assert!(dates_within_days("2025-12-15", "2025-12-15", 3));
}

#[test]
fn dates_within_days_close() {
    assert!(dates_within_days("2025-12-15", "2025-12-17", 3));
    assert!(dates_within_days("2025-12-15", "2025-12-12", 3));
}

#[test]
fn dates_within_days_far() {
    assert!(!dates_within_days("2025-12-15", "2025-12-25", 3));
}

#[test]
fn dates_within_days_invalid() {
    assert!(!dates_within_days("", "2025-12-15", 3));
    assert!(!dates_within_days("invalid", "2025-12-15", 3));
}

#[test]
fn find_duplicates_empty() {
    let groups = find_duplicate_groups(&vec![], &vec![], 3);
    assert!(groups.is_empty());
}

#[test]
fn find_duplicates_no_match() {
    let txns = vec![
        txn("t1", "2025-12-15", "Store A", "-50.00"),
        txn("t2", "2025-12-15", "Store B", "-100.00"),
    ];
    let groups = find_duplicate_groups(&txns, &same_amounts(&txns), 3);
    assert!(groups.is_empty());
}

#[test]
fn find_duplicates_match() {
    let txns = vec![
        txn("t1", "2025-12-15", "Amazon", "-50.00"),
        txn("t2", "2025-12-16", "Amazon", "-50.00"),
    ];
    let groups = find_duplicate_groups(&txns, &same_amounts(&txns), 3);
    assert_eq!(groups.len(), 1);
    assert_eq!(groups[0].len(), 2);
}

#[test]
fn csv_escape_field_simple() {
    assert_eq!(csv_escape_field("hello"), "hello");
    assert_eq!(csv_escape_field("hello,world"), "\"hello,world\"");
    assert_eq!(csv_escape_field("say \"hi\""), "\"say \"\"hi\"\"\"");
}
