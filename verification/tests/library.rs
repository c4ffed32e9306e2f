use copilot_money_cli::calendar::{civil_from_days, days_from_civil, last_day_of_month};
use copilot_money_cli::categories::{
    filter_recurrings, find_recurring, filter_accounts, find_account, find_flat_category, categories_named_like, flatten_categories,
    flatten_categories_for_lookup, pick_category, resolve_account_id, resolve_category_id, FlatCategory,
    LookupError,
};
use copilot_money_cli::cli::{
    account_choice_label, apply_preset, shorten_id_for_table, category_create_input, category_edit_input, confirm_write_decision,
    confirmation_accepted, csv_header, csv_row, should_color, table_row, CategoriesCreateArgs,
    CategoriesEditArgs, ColorMode, PresetArgs, TransactionField, WriteDecision,
};
use copilot_money_cli::client::{Account, Category, Icon, PageInfo, Recurring, Tag, Transaction, TransactionsPage};
use copilot_money_cli::dates::{
    dates_within_days, days_since_epoch, format_civil, lowercase_trimmed, normalize_date, resolve_date_end, resolve_date_end_on,
    resolve_date_on,
    today_days,
};
use copilot_money_cli::decimal::{parse_i64, parse_u32};
use copilot_money_cli::edits::{
    build_transaction_id_refs, category_edit_input as txn_category_input, edit_input, next_tag_ids,
    notes_edit_input, resolve_transaction_refs, tag_update_has_ids, tags_edit_input, tool_next_tag_ids,
    tool_notes_input, MissingId, RefError, TagUpdateMode,
};
use copilot_money_cli::json::{get, int_number, set_member, JsonNumber, JsonValue};
use copilot_money_cli::mcp::{
    get_count, parse_list_tool_args, route_request, tool_content, tool_filter_transactions, tool_from_name,
    tool_name_of, tool_search_transactions, tool_visible_accounts, tools_call_target, McpServer, Route, Tool,
};
use copilot_money_cli::client::{ClientMode, CopilotClient};
use copilot_money_cli::paging::{id_scan_finish, id_scan_step, page_fetch_finish, page_fetch_step, IdScan, PageFetch};
use copilot_money_cli::replies::{enrich_transaction, serialize_category, tool_definitions};
use copilot_money_cli::session::{
    format_graphql_error, graphql_url, is_unauthenticated, next_attempt, on_reply, should_attempt_auto_login,
    timeout_from_env, token_from_helper_output, token_override, ReplyAction, RequestFailure,
};
use copilot_money_cli::transactions::{filter_transactions_between, find_duplicate_groups, TransactionFilters};

fn st(v: &str) -> JsonValue {
    JsonValue::String(v.to_string())
}

fn obj(members: Vec<(&str, JsonValue)>) -> JsonValue {
    JsonValue::Object(members.into_iter().map(|(k, v)| (k.to_string(), v)).collect())
}

fn num(n: u64) -> JsonValue {
    JsonValue::Number(JsonNumber { text: n.to_string(), as_u64: Some(n), as_i64: Some(n as i64) })
}

fn txn(id: &str, date: &str, name: &str) -> Transaction {
    Transaction {
        id: id.into(),
        date: Some(date.into()),
        name: Some(name.into()),
        amount: Some(st("-12.50")),
        item_id: Some(format!("item-{id}")),
        txn_type: Some("REGULAR".into()),
        is_reviewed: Some(false),
        category_id: None,
        account_id: Some(format!("acct-{id}")),
        recurring_id: None,
        user_notes: None,
        tags: None,
    }
}

fn tag(id: &str, name: &str) -> Tag {
    Tag { id: id.into(), name: Some(name.into()), color_name: None }
}

fn account(id: &str, name: &str, kind: &str, hidden: bool, closed: bool) -> Account {
    Account {
        id: id.into(),
        name: Some(name.into()),
        account_type: Some(kind.into()),
        sub_type: None,
        mask: None,
        balance: None,
        limit: None,
        item_id: None,
        institution_id: None,
        is_manual: None,
        is_user_hidden: Some(hidden),
        is_user_closed: Some(closed),
        color: None,
        has_live_balance: None,
        live_balance: None,
    }
}

fn category(id: &str, name: &str, children: Option<Vec<Category>>) -> Category {
    Category {
        id: id.into(),
        name: Some(name.into()),
        is_rollover_disabled: None,
        can_be_deleted: Some(true),
        is_excluded: Some(false),
        template_id: None,
        color_name: None,
        icon: None,
        child_categories: children,
    }
}

fn no_filters() -> TransactionFilters {
    TransactionFilters {
        reviewed: false,
        unreviewed: false,
        category_id: None,
        tags: vec![],
        query: None,
        date: None,
        from: None,
        to: None,
        account_id: None,
        category_names: None,
    }
}

// ---- Calendar --------------------------------------------------------------------

#[test]
fn day_numbers_round_trip_over_many_dates() {
    for y in [1900, 1969, 1970, 2000, 2024, 2100] {
        for m in 1..=12u32 {
            for d in [1, 15, last_day_of_month(y, m)] {
                let z = days_from_civil(y, m, d);
                assert_eq!(civil_from_days(z), (y, m, d));
            }
        }
    }
    for z in [-800_000i64, -1, 0, 1, 19_000, 20_000, 2_000_000] {
        let (y, m, d) = civil_from_days(z);
        assert_eq!(days_from_civil(y, m, d), z);
    }
}

#[test]
fn day_number_of_known_dates() {
    assert_eq!(days_from_civil(1970, 1, 1), 0);
    assert_eq!(days_from_civil(2000, 3, 1), 11017);
    assert_eq!(days_from_civil(1969, 12, 31), -1);
    assert_eq!(civil_from_days(19723), (2024, 1, 1));
}

#[test]
fn last_day_of_month_century_rules() {
    assert_eq!(last_day_of_month(1900, 2), 28);
    assert_eq!(last_day_of_month(2000, 2), 29);
    assert_eq!(last_day_of_month(2025, 13), 30);
}

// ---- Dates -------------------------------------------------------------------------

#[test]
fn normalize_date_is_idempotent() {
    let once = normalize_date("  03-12-2025 ").unwrap();
    assert_eq!(once, "2025-03-12");
    assert_eq!(normalize_date(&once), Some(once.clone()));
    assert_eq!(normalize_date("2025-+1-05"), Some("2025-01-05".to_string()));
    assert_eq!(normalize_date("1899-01-01"), None);
}

#[test]
fn dates_within_days_is_symmetric() {
    let pairs = [("2025-12-15", "2025-12-19"), ("2025-01-01", "12-30-2024"), ("x", "2025-01-01")];
    for (a, b) in pairs {
        for t in [0, 1, 3, 4, 10] {
            assert_eq!(dates_within_days(a, b, t), dates_within_days(b, a, t));
        }
    }
    assert!(dates_within_days("2024-12-30", "01-01-2025", 2));
    assert!(!dates_within_days("2024-12-30", "01-01-2025", 1));
}

#[test]
fn format_civil_pads_fields() {
    assert_eq!(format_civil(2025, 3, 7), "2025-03-07");
    assert_eq!(format_civil(987, 12, 31), "0987-12-31");
    assert_eq!(format_civil(-5, 1, 1), "-005-01-01");
}

#[test]
fn lowercase_trimmed_lowercases_and_trims() {
    assert_eq!(lowercase_trimmed("  This-Month \n").into_iter().collect::<String>(), "this-month");
}

#[test]
fn relative_dates_on_a_fixed_day() {
    // 2025-02-12 is a Wednesday.
    let today = days_from_civil(2025, 2, 12);
    assert_eq!(resolve_date_on("today", today), Some("2025-02-12".to_string()));
    assert_eq!(resolve_date_on("Yesterday", today), Some("2025-02-11".to_string()));
    assert_eq!(resolve_date_on("this-week", today), Some("2025-02-10".to_string()));
    assert_eq!(resolve_date_on("last-week", today), Some("2025-02-03".to_string()));
    assert_eq!(resolve_date_on("this-month", today), Some("2025-02-01".to_string()));
    assert_eq!(resolve_date_on("last-month", today), Some("2025-01-01".to_string()));
    assert_eq!(resolve_date_on("7d", today), Some("2025-02-05".to_string()));
    assert_eq!(resolve_date_on("-1d", today), Some("2025-02-13".to_string()));
    assert_eq!(resolve_date_on("d", today), None);
    assert_eq!(resolve_date_on("tomorrow", today), None);
    assert_eq!(resolve_date_end_on("this-week", today), Some("2025-02-16".to_string()));
    assert_eq!(resolve_date_end_on("last-week", today), Some("2025-02-09".to_string()));
    assert_eq!(resolve_date_end_on("this-month", today), Some("2025-02-28".to_string()));
    assert_eq!(resolve_date_end_on("last-month", today), Some("2025-01-31".to_string()));
    assert_eq!(resolve_date_end_on("today", today), Some("2025-02-12".to_string()));
    assert_eq!(resolve_date_end_on("12-03-2025", today), Some("2025-12-03".to_string()));
}

#[test]
fn day_keywords_agree_with_offsets() {
    let today = days_from_civil(2025, 2, 12);
    assert_eq!(resolve_date_on("0d", today), resolve_date_on("today", today));
    assert_eq!(resolve_date_on("1d", today), resolve_date_on("yesterday", today));
    assert_eq!(resolve_date_on("30d", today), Some("2025-01-13".to_string()));
    for key in ["today", "yesterday", "this-week", "last-week", "this-month", "last-month", "90d", "-3d"] {
        assert_eq!(resolve_date_on(key, today).unwrap().len(), 10);
    }
    assert_eq!(resolve_date_on("  Last-MONTH\t", today), resolve_date_on("last-month", today));
    assert_eq!(resolve_date_end_on(" THIS-week ", today), resolve_date_end_on("this-week", today));
}

#[test]
fn periods_start_no_later_than_they_end() {
    let today = days_from_civil(2025, 2, 12);
    let day = |s: Option<String>| {
        let d = normalize_date(&s.unwrap()).unwrap();
        let y: i32 = d[0..4].parse().unwrap();
        let m: u32 = d[5..7].parse().unwrap();
        let dd: u32 = d[8..10].parse().unwrap();
        days_from_civil(y, m, dd)
    };
    let week_start = day(resolve_date_on("this-week", today));
    assert_eq!(day(resolve_date_end_on("this-week", today)), week_start + 6);
    assert_eq!(day(resolve_date_end_on("last-week", today)), week_start - 1);
    for key in ["today", "yesterday", "this-week", "last-week", "this-month", "last-month", "7d"] {
        assert!(day(resolve_date_on(key, today)) <= day(resolve_date_end_on(key, today)));
    }
    for key in ["today", "yesterday", "7d", "0d", "2025-06-15", "nonsense"] {
        assert_eq!(resolve_date_end_on(key, today), resolve_date_on(key, today));
    }
}

#[test]
fn ids_are_shortened_for_tables() {
    assert_eq!(shorten_id_for_table("abc"), "abc");
    assert_eq!(shorten_id_for_table("123456789012"), "123456789012");
    assert_eq!(shorten_id_for_table("1234567890123"), "12345678\u{2026}");
    assert_eq!(shorten_id_for_table(""), "");
}

#[test]
fn days_from_civil_carries_on_past_december() {
    assert_eq!(days_from_civil(2024, 13, 1), days_from_civil(2025, 1, 1));
    assert_eq!(days_from_civil(2025, 2, 29), days_from_civil(2025, 3, 1));
    assert_eq!(days_from_civil(2025, 1, 0), days_from_civil(2024, 12, 31));
}

#[test]
fn relative_dates_far_in_the_future() {
    // Day numbers whose year no longer fits an `i32`: the year wraps as `as i32` does.
    let far = 800_000_000_000;
    assert!(resolve_date_on("today", far).is_some());
    assert!(resolve_date_on("last-month", far).is_some());
    assert_eq!(resolve_date_end_on("this-week", far).unwrap().len() >= 10, true);
}

#[test]
fn relative_months_across_a_year() {
    let today = days_from_civil(2024, 1, 20);
    assert_eq!(resolve_date_on("last-month", today), Some("2023-12-01".to_string()));
    assert_eq!(resolve_date_end_on("last-month", today), Some("2023-12-31".to_string()));
    let leap = days_from_civil(2024, 2, 3);
    assert_eq!(resolve_date_end_on("this-month", leap), Some("2024-02-29".to_string()));
}

#[test]
fn absolute_dates_do_not_depend_on_the_day() {
    for today in [0, days_from_civil(2025, 2, 12), days_from_civil(2100, 12, 31)] {
        assert_eq!(resolve_date_on(" 2025-06-15\t", today), Some("2025-06-15".to_string()));
        assert_eq!(resolve_date_end_on("06-15-2025", today), Some("2025-06-15".to_string()));
    }
    assert_eq!(resolve_date_end(" 06-15-2025 "), Some("2025-06-15".to_string()));
}

#[test]
fn days_are_counted_from_the_epoch() {
    assert_eq!(days_since_epoch(Some(3 * 86400 + 5)), 3);
    assert_eq!(days_since_epoch(Some(86399)), 0);
    assert_eq!(days_since_epoch(Some(1_739_318_400)), days_from_civil(2025, 2, 12));
    assert_eq!(days_since_epoch(None), 0);
}

#[test]
fn today_reads_the_clock() {
    assert!(today_days() > 19_000);
}

// ---- Numbers -----------------------------------------------------------------------

#[test]
fn integer_parsing_follows_from_str() {
    let v = |s: &str| s.chars().collect::<Vec<char>>();
    assert_eq!(parse_u32(&v("42")), Some(42));
    assert_eq!(parse_u32(&v("+7")), Some(7));
    assert_eq!(parse_u32(&v("")), None);
    assert_eq!(parse_u32(&v("4294967296")), None);
    assert_eq!(parse_i64(&v("-9223372036854775808")), Some(i64::MIN));
    assert_eq!(parse_i64(&v("9223372036854775808")), None);
    assert_eq!(parse_i64(&v("1 2")), None);
}

#[test]
fn int_number_writes_integers() {
    assert_eq!(int_number(-1250).text, "-1250");
    assert_eq!(int_number(0).text, "0");
    assert_eq!(int_number(i64::MIN).text, i64::MIN.to_string());
    assert_eq!(int_number(17).as_u64, Some(17));
    assert_eq!(int_number(-3).as_u64, None);
}

// ---- Duplicates and filters -----------------------------------------------------

#[test]
fn duplicate_groups_are_disjoint_and_start_first() {
    let txns = vec![
        txn("a", "2025-01-10", "Coffee Shop"),
        txn("b", "2025-01-11", "coffee"),
        txn("c", "2025-01-30", "Coffee Shop"),
        txn("d", "2025-01-12", "COFFEE SHOP"),
        txn("e", "2025-01-10", "Groceries"),
        txn("f", "2025-01-29", "Coffee"),
    ];
    let all_same = vec![vec![true; 6]; 6];
    let groups = find_duplicate_groups(&txns, &all_same, 3);
    assert_eq!(groups, vec![vec![0, 1, 3], vec![2, 5]]);
    let none_same = vec![vec![false; 6]; 6];
    assert!(find_duplicate_groups(&txns, &none_same, 3).is_empty());
    // Only the pairs marked the same are grouped: `b` is not the same as `a`.
    let mut some_same = all_same.clone();
    some_same[0][1] = false;
    assert_eq!(find_duplicate_groups(&txns, &some_same, 3), vec![vec![0, 3], vec![2, 5]]);
}

#[test]
fn filters_keep_passing_transactions_in_order() {
    let mut a = txn("a", "2025-01-10", "Coffee Shop");
    a.is_reviewed = Some(true);
    a.tags = Some(vec![tag("t1", "Work")]);
    let mut b = txn("b", "2025-01-20", "Book Store");
    b.user_notes = Some("gift for coffee lover".into());
    let c = txn("c", "2025-02-01", "Rent");
    let items = vec![a.clone(), b.clone(), c.clone()];
    let amounts = vec![true, true, true];

    let mut f = no_filters();
    f.query = Some("COFFEE".into());
    assert_eq!(filter_transactions_between(items.clone(), &amounts, &f, &None, &None), vec![a.clone(), b.clone()]);

    let mut f = no_filters();
    f.reviewed = true;
    assert_eq!(filter_transactions_between(items.clone(), &amounts, &f, &None, &None), vec![a.clone()]);

    let mut f = no_filters();
    f.unreviewed = true;
    let within_bounds = vec![false, true, false];
    assert_eq!(filter_transactions_between(items.clone(), &within_bounds, &f, &None, &None), vec![b.clone()]);

    let f = no_filters();
    let from = Some("2025-01-15".to_string());
    let to = Some("2025-01-31".to_string());
    assert_eq!(filter_transactions_between(items.clone(), &amounts, &f, &from, &to), vec![b.clone()]);

    let mut f = no_filters();
    f.tags = vec!["work".into()];
    assert_eq!(filter_transactions_between(items.clone(), &amounts, &f, &None, &None), vec![a.clone()]);

    let mut f = no_filters();
    f.date = Some("02-01-2025".into());
    assert_eq!(filter_transactions_between(items, &amounts, &f, &None, &None), vec![c]);
}

// ---- Tags and edits ---------------------------------------------------------------

#[test]
fn cli_tag_updates_are_set_operations() {
    let existing = Some(vec![tag("t1", "A"), tag("t2", "B")]);
    let mut added = next_tag_ids(&existing, TagUpdateMode::Add, &vec!["t2".into(), "t3".into()]);
    added.sort();
    assert_eq!(added, vec!["t1", "t2", "t3"]);
    let removed = next_tag_ids(&existing, TagUpdateMode::Remove, &vec!["t1".into(), "t9".into()]);
    assert_eq!(removed, vec!["t2"]);
    let replaced = next_tag_ids(&existing, TagUpdateMode::Replace, &vec!["t9".into()]);
    assert_eq!(replaced, vec!["t9"]);
    assert!(!tag_update_has_ids(&TagUpdateMode::Add, &vec![]));
    assert!(!tag_update_has_ids(&TagUpdateMode::Remove, &vec![]));
    assert!(tag_update_has_ids(&TagUpdateMode::Replace, &vec![]));
}

#[test]
fn tool_tag_updates_keep_order() {
    let existing = Some(vec![tag("t1", "A"), tag("t2", "B")]);
    assert_eq!(tool_next_tag_ids(&existing, "add", &vec!["t3".into(), "t1".into(), "t3".into()]), vec!["t1", "t2", "t3"]);
    assert_eq!(tool_next_tag_ids(&existing, "remove", &vec!["t1".into()]), vec!["t2"]);
    assert_eq!(tool_next_tag_ids(&existing, "set", &vec!["t5".into()]), vec!["t5"]);
    assert_eq!(tool_next_tag_ids(&None, "add", &vec!["t5".into()]), vec!["t5"]);
}

#[test]
fn edit_inputs_hold_the_given_values() {
    assert_eq!(txn_category_input("cat-1"), obj(vec![("categoryId", st("cat-1"))]));
    assert_eq!(
        tags_edit_input(&vec!["a".into(), "b".into()]),
        obj(vec![("tagIds", JsonValue::Array(vec![st("a"), st("b")]))])
    );
    assert_eq!(notes_edit_input(true, &Some("x".into())), Some(obj(vec![("userNotes", st(""))])));
    assert_eq!(notes_edit_input(false, &Some("x".into())), Some(obj(vec![("userNotes", st("x"))])));
    assert_eq!(notes_edit_input(false, &None), None);
    assert_eq!(tool_notes_input(None), obj(vec![("userNotes", JsonValue::Null)]));
    assert_eq!(edit_input(st("x"), Some("REGULAR")), None);
    assert_eq!(
        edit_input(obj(vec![("type", st("OLD")), ("isReviewed", JsonValue::Bool(true))]), Some("INCOME")),
        Some(obj(vec![("type", st("INCOME")), ("isReviewed", JsonValue::Bool(true))]))
    );
    assert_eq!(
        edit_input(obj(vec![("isReviewed", JsonValue::Bool(true))]), Some("INCOME")),
        Some(obj(vec![("isReviewed", JsonValue::Bool(true)), ("type", st("INCOME"))]))
    );
    assert_eq!(edit_input(obj(vec![]), None), Some(obj(vec![])));
}

#[test]
fn set_member_replaces_or_appends() {
    let m = vec![("a".to_string(), num(1)), ("b".to_string(), num(2))];
    let r = set_member(m.clone(), "b", num(5));
    assert_eq!(get(&JsonValue::Object(r.clone()), "b"), Some(&num(5)));
    assert_eq!(r.len(), 2);
    let r2 = set_member(m, "c", num(7));
    assert_eq!(r2.len(), 3);
    assert_eq!(r2[2], ("c".to_string(), num(7)));
}

#[test]
fn transaction_references_need_both_ids() {
    let a = txn("a", "2025-01-01", "A");
    let mut b = txn("b", "2025-01-01", "B");
    b.item_id = None;
    let refs = build_transaction_id_refs(&vec![a.clone()]).unwrap();
    assert_eq!(refs[0].id, "a");
    assert_eq!(refs[0].item_id, "item-a");
    assert_eq!(refs[0].account_id, "acct-a");
    let err = build_transaction_id_refs(&vec![a.clone(), b.clone()]).unwrap_err();
    assert_eq!(err, ("b".to_string(), MissingId::ItemId));
    let txns = vec![a, b];
    assert_eq!(
        resolve_transaction_refs(&vec!["zz".into()], &txns),
        Err(RefError::NotFound("zz".into()))
    );
    assert_eq!(resolve_transaction_refs(&vec!["b".into()], &txns), Err(RefError::MissingItemId));
    assert_eq!(resolve_transaction_refs(&vec!["a".into()], &txns).unwrap().len(), 1);
}

// ---- Categories and accounts ---------------------------------------------------

#[test]
fn categories_flatten_and_resolve_by_name() {
    let cats = vec![
        category("food", "Food", Some(vec![category("coffee", "Coffee", None), category("bars", "Bars", None)])),
        category("rent", "Rent", None),
        category("misc", "coffee", None),
    ];
    let flat = flatten_categories(&cats, true);
    let ids: Vec<&str> = flat.iter().map(|c| c.id.as_str()).collect();
    assert_eq!(ids, vec!["food", "coffee", "bars", "rent", "misc"]);
    assert_eq!(flat[1].parent_id.as_deref(), Some("food"));
    assert_eq!(flatten_categories(&cats, false).len(), 3);
    let pairs = flatten_categories_for_lookup(&cats);
    assert_eq!(pairs.len(), 5);

    let key = |s: &str| s.chars().collect::<Vec<char>>();
    assert_eq!(pick_category(&key("rent"), &cats), Ok("rent".to_string()));
    assert_eq!(pick_category(&key("coffee"), &cats), Err(LookupError::Ambiguous(2)));
    assert_eq!(pick_category(&key("nope"), &cats), Err(LookupError::NotFound));

    assert_eq!(resolve_category_id(Some(&"x".to_string()), Some("Rent"), &cats), Ok(Some("x".to_string())));
    assert_eq!(resolve_category_id(None, None, &cats), Ok(None));
    assert_eq!(resolve_category_id(None, Some("   "), &cats), Err(LookupError::Empty));
    assert_eq!(resolve_category_id(None, Some(" BARS "), &cats), Ok(Some("bars".to_string())));

    let server = McpServer::new(CopilotClient::new(ClientMode::Fixtures("fx".into())));
    assert_eq!(server.resolve_category_by_name(" FOOD", &cats), Ok("food".to_string()));
    assert_eq!(server.resolve_category_by_name("", &cats), Err(LookupError::Empty));
    assert_eq!(server.category_name_map(&cats).len(), 5);
}

#[test]
fn category_listing_filters_by_name() {
    let flat = vec![
        FlatCategory { id: "1".into(), name: "Coffee".into(), parent_id: None, is_excluded: None, can_be_deleted: None },
        FlatCategory { id: "2".into(), name: "Rent".into(), parent_id: None, is_excluded: None, can_be_deleted: None },
    ];
    let hits = categories_named_like(flat.clone(), "OFF");
    assert_eq!(hits.len(), 1);
    assert_eq!(hits[0].id, "1");
    assert_eq!(find_flat_category(&flat, "2"), Some(1));
    assert_eq!(find_flat_category(&flat, "3"), None);
}

#[test]
fn account_listing_and_lookup() {
    let items = vec![
        account("1", "Checking", "depository", false, false),
        account("2", "Old Card", "credit", false, true),
        account("3", "Savings", "Depository", true, false),
    ];
    let shown = filter_accounts(items.clone(), false, false, None, None);
    assert_eq!(shown.len(), 1);
    let all = filter_accounts(items.clone(), true, true, None, Some("DEPOSITORY"));
    assert_eq!(all.iter().map(|a| a.id.as_str()).collect::<Vec<_>>(), vec!["1", "3"]);
    let named = filter_accounts(items.clone(), true, true, Some("card"), None);
    assert_eq!(named.len(), 1);
    assert_eq!(find_account(&items, "3"), Some(2));
    assert_eq!(resolve_account_id(None, Some("CHECK"), &items), Ok(Some("1".to_string())));
    assert_eq!(resolve_account_id(None, Some("A"), &items), Err(LookupError::Ambiguous(2)));
    assert_eq!(resolve_account_id(None, Some("zz"), &items), Err(LookupError::NotFound));
    assert_eq!(account_choice_label(&Some("Checking".into()), &None), "Checking (?)");
    let visible = tool_visible_accounts(items.clone(), false);
    assert_eq!(visible.len(), 1);
    assert_eq!(tool_visible_accounts(items, true).len(), 3);
}

#[test]
fn category_inputs() {
    let create = CategoriesCreateArgs {
        name: "Pets".into(),
        emoji: None,
        color_name: Some("RED".into()),
        excluded: false,
        template_id: None,
        budget_unassigned_amount: Some(-25),
    };
    let want = obj(vec![
        ("name", st("Pets")),
        ("emoji", JsonValue::Null),
        ("colorName", st("RED")),
        ("isExcluded", JsonValue::Bool(false)),
        ("templateId", JsonValue::Null),
        ("budget", obj(vec![("unassignedAmount", JsonValue::Number(int_number(-25)))])),
    ]);
    assert_eq!(category_create_input(&create), want);
    let edit = CategoriesEditArgs { id: "c".into(), name: None, emoji: Some("x".into()), color_name: None, excluded: Some(true) };
    assert_eq!(category_edit_input(&edit), obj(vec![("emoji", st("x")), ("isExcluded", JsonValue::Bool(true))]));
}

// ---- Output ------------------------------------------------------------------------

#[test]
fn csv_and_table_cells() {
    let mut t = txn("t-1", "2025-01-02", "Cafe, Inc");
    t.tags = Some(vec![tag("x", "a"), Tag { id: "y".into(), name: None, color_name: None }, tag("z", "b")]);
    t.category_id = Some("c1".into());
    let fields = vec![
        TransactionField::Date,
        TransactionField::Name,
        TransactionField::Amount,
        TransactionField::Reviewed,
        TransactionField::Category,
        TransactionField::Tags,
        TransactionField::Account,
        TransactionField::Id,
    ];
    let cats = vec![("c1".to_string(), "Food".to_string())];
    assert_eq!(csv_header(&fields), "date,name,amount,reviewed,category,tags,account,id");
    assert_eq!(
        csv_row(&t, "-$12.50", &fields, &cats, &vec![]),
        "2025-01-02,\"Cafe, Inc\",-$12.50,false,Food,a;b,,t-1"
    );
    let row = table_row(&t, "-$12.50", "t-1", &fields, &vec![], &vec![]);
    assert_eq!(row, vec!["2025-01-02", "Cafe, Inc", "-$12.50", "", "c1", "a,b", "acct-t-1", "t-1"]);
}

#[test]
fn colors_and_confirmation() {
    assert!(should_color(ColorMode::Always, false));
    assert!(!should_color(ColorMode::Never, true));
    assert!(should_color(ColorMode::Auto, true));
    assert_eq!(confirm_write_decision(true, false, false), WriteDecision::Proceed);
    assert_eq!(confirm_write_decision(false, false, false), WriteDecision::Refuse);
    assert_eq!(confirm_write_decision(false, false, true), WriteDecision::Ask);
    assert!(confirmation_accepted(" yes\n"));
    assert!(!confirmation_accepted("YES"));
}

#[test]
fn presets_fill_only_what_is_missing() {
    let mut args = PresetArgs {
        category: Some("Food".into()),
        from: None,
        to: None,
        min_amount_given: false,
        max_amount_given: true,
        reviewed: false,
        unreviewed: false,
        name_contains: None,
        account: None,
        limit: 50,
        totals: false,
    };
    let preset = obj(vec![
        ("category", st("Rent")),
        ("from", st("this-month")),
        ("min_amount", num(10)),
        ("max_amount", num(99)),
        ("reviewed", JsonValue::Bool(false)),
        ("limit", num(200)),
        ("totals", JsonValue::Bool(true)),
    ]);
    let amounts = apply_preset(&mut args, &preset);
    assert_eq!(args.category.as_deref(), Some("Food"));
    assert_eq!(args.from.as_deref(), Some("this-month"));
    assert!(args.unreviewed && !args.reviewed);
    assert_eq!(args.limit, 200);
    assert!(args.totals);
    assert_eq!(amounts.min_amount.map(|n| n.text), Some("10".to_string()));
    assert_eq!(amounts.max_amount, None);
}

// ---- Paging -------------------------------------------------------------------------

fn page(ids: &[&str], next: bool, cursor: Option<&str>) -> TransactionsPage {
    TransactionsPage {
        transactions: ids.iter().map(|i| txn(i, "2025-01-01", i)).collect(),
        page_info: PageInfo {
            end_cursor: cursor.map(|c| c.to_string()),
            has_next_page: Some(next),
            has_previous_page: None,
            start_cursor: None,
        },
    }
}

#[test]
fn page_fetch_stops_at_the_limit_or_the_last_page() {
    let mut s = PageFetch::start(None, 2, false);
    assert!(page_fetch_step(&mut s, page(&["a"], true, Some("c1"))));
    assert_eq!(s.cursor.as_deref(), Some("c1"));
    assert!(!page_fetch_step(&mut s, page(&["b"], true, Some("c2"))));
    let (items, info) = page_fetch_finish(s);
    assert_eq!(items.len(), 2);
    assert_eq!(info.end_cursor.as_deref(), Some("c2"));

    let mut s = PageFetch::start(Some("x".into()), 0, true);
    assert!(!page_fetch_step(&mut s, page(&["a"], false, Some("c1"))));
    let empty = page_fetch_finish(PageFetch::start(None, 1, false));
    assert_eq!(empty.1.end_cursor, None);
}

#[test]
fn id_scan_finds_wanted_transactions_in_order() {
    let ids = vec!["b".to_string(), "a".to_string()];
    let mut s = IdScan::start(&ids);
    assert!(id_scan_step(&mut s, page(&["x", "a"], true, Some("c1"))));
    assert!(!id_scan_step(&mut s, page(&["b"], true, Some("c2"))));
    let found = id_scan_finish(s, &ids).unwrap();
    assert_eq!(found.iter().map(|t| t.id.as_str()).collect::<Vec<_>>(), vec!["b", "a"]);

    // An id asked for twice is found once; the second request goes unanswered.
    let twice = vec!["b".to_string(), "b".to_string()];
    let mut s = IdScan::start(&twice);
    assert!(!id_scan_step(&mut s, page(&["b"], true, Some("c1"))));
    assert_eq!(id_scan_finish(s, &twice).unwrap_err(), (vec!["b".to_string()], 1));

    let ids = vec!["q".to_string()];
    let mut s = IdScan::start(&ids);
    assert!(!id_scan_step(&mut s, page(&["x"], false, None)));
    let (missing, scanned) = id_scan_finish(s, &ids).unwrap_err();
    assert_eq!(missing, vec!["q"]);
    assert_eq!(scanned, 1);
}

// ---- Session -----------------------------------------------------------------------

#[test]
fn the_session_is_refreshed_once() {
    assert_eq!(on_reply(1, true, true, true, None, true), ReplyAction::RefreshSession);
    assert_eq!(on_reply(2, true, true, true, None, true), ReplyAction::BrowserLogin);
    assert_eq!(on_reply(1, true, false, false, None, true), ReplyAction::Fail(RequestFailure::Unauthenticated));
    assert_eq!(on_reply(3, true, true, true, None, true), ReplyAction::Fail(RequestFailure::Unauthenticated));
    assert_eq!(
        on_reply(1, false, true, true, Some("boom".into()), true),
        ReplyAction::Fail(RequestFailure::Graphql("boom".into()))
    );
    assert_eq!(on_reply(1, false, true, true, None, false), ReplyAction::Fail(RequestFailure::HttpStatus));
    assert_eq!(on_reply(1, false, true, true, None, true), ReplyAction::Done);
    assert_eq!(next_attempt(1), Some(2));
    assert_eq!(next_attempt(3), None);
}

#[test]
fn graphql_errors_are_read_from_the_reply() {
    let body = obj(vec![(
        "errors",
        JsonValue::Array(vec![obj(vec![
            ("message", st("Not allowed")),
            ("extensions", obj(vec![("code", st("UNAUTHENTICATED"))])),
        ])]),
    )]);
    assert!(is_unauthenticated(&body));
    assert_eq!(format_graphql_error(&body), Some("graphql error (UNAUTHENTICATED): Not allowed".to_string()));
    let plain = obj(vec![("errors", JsonValue::Array(vec![obj(vec![("message", st("bad"))])]))]);
    assert!(!is_unauthenticated(&plain));
    assert_eq!(format_graphql_error(&plain), Some("graphql error: bad".to_string()));
    assert_eq!(format_graphql_error(&obj(vec![("data", JsonValue::Null)])), None);
}

#[test]
fn replies_of_the_service_decide_the_request() {
    // A 400 reply with a coded GraphQL error fails with the formatted message.
    let coded = obj(vec![(
        "errors",
        JsonValue::Array(vec![obj(vec![
            ("extensions", obj(vec![("code", st("BAD_USER_INPUT"))])),
            ("message", st("Value does not exist")),
        ])]),
    )]);
    let text = format_graphql_error(&coded);
    assert_eq!(text, Some("graphql error (BAD_USER_INPUT): Value does not exist".to_string()));
    assert_eq!(
        on_reply(1, is_unauthenticated(&coded), false, false, text, false),
        ReplyAction::Fail(RequestFailure::Graphql("graphql error (BAD_USER_INPUT): Value does not exist".into()))
    );
    // A 200 reply with an `errors` key fails too.
    let plain = obj(vec![("errors", JsonValue::Array(vec![obj(vec![("message", st("nope"))])]))]);
    assert!(matches!(
        on_reply(1, false, false, false, format_graphql_error(&plain), true),
        ReplyAction::Fail(RequestFailure::Graphql(_))
    ));
    // A 401 reply without GraphQL errors fails on its status.
    let no_data = obj(vec![("data", JsonValue::Null)]);
    assert_eq!(
        on_reply(1, is_unauthenticated(&no_data), false, false, format_graphql_error(&no_data), false),
        ReplyAction::Fail(RequestFailure::HttpStatus)
    );
    // A successful reply with data is done.
    let ok = obj(vec![("data", obj(vec![("user", obj(vec![("id", st("u1"))]))]))]);
    assert_eq!(on_reply(1, false, false, false, format_graphql_error(&ok), true), ReplyAction::Done);
}

#[test]
fn environment_settings() {
    assert_eq!(token_override(Some("  tok ".into())), Some("tok".to_string()));
    assert_eq!(token_override(Some("   ".into())), None);
    assert_eq!(token_from_helper_output("abc\n"), Some("abc".to_string()));
    assert_eq!(timeout_from_env(Some("7".into()), 30), 7);
    assert_eq!(timeout_from_env(Some("x".into()), 30), 30);
    assert!(should_attempt_auto_login(true, None, Some("TRUE".into()), false));
    assert!(!should_attempt_auto_login(false, Some("t".into()), None, true));
    assert!(!should_attempt_auto_login(true, Some(" ".into()), Some("0".into()), false));
    assert_eq!(graphql_url("https://example.test//"), "https://example.test/api/graphql");
}

// ---- Tool server ---------------------------------------------------------------------

#[test]
fn routes_and_tool_names() {
    assert_eq!(route_request("initialize", true), Some(Route::Initialize));
    assert_eq!(route_request("ping", false), None);
    assert_eq!(route_request("nope", true), Some(Route::NotFound(-32601, "method not found: nope".into())));
    let tools = [
        Tool::ListTransactions, Tool::SearchTransactions, Tool::ShowTransaction, Tool::ReviewTransactions,
        Tool::UnreviewTransactions, Tool::SetTransactionCategory, Tool::SetTransactionNotes,
        Tool::SetTransactionTags, Tool::ListCategories, Tool::ListTags, Tool::CreateTag, Tool::DeleteTag,
        Tool::ListRecurrings, Tool::BudgetMonth, Tool::ListAccounts, Tool::Networth, Tool::SpendingSummary,
        Tool::MonthlySpending, Tool::UpcomingRecurrings,
    ];
    for t in tools.iter() {
        assert_eq!(tool_from_name(&tool_name_of(t)), Some(t.clone()));
    }
    assert_eq!(tool_from_name("list"), None);
}

#[test]
fn tools_list_matches_tools_call() {
    let defs = tool_definitions();
    let JsonValue::Object(m) = defs else { panic!("not an object") };
    assert_eq!(m[0].0, "tools");
    let JsonValue::Array(items) = &m[0].1 else { panic!("not an array") };
    assert_eq!(items.len(), 19);
    for d in items {
        let name = match get(d, "name") {
            Some(JsonValue::String(s)) => s.clone(),
            _ => panic!("tool without a name"),
        };
        assert!(tool_from_name(&name).is_some());
    }
    let schema = |tool: usize, param: &str| -> JsonValue {
        let props = get(get(&items[tool], "inputSchema").unwrap(), "properties").unwrap();
        get(props, param).unwrap().clone()
    };
    assert_eq!(get(&schema(0, "limit"), "type"), Some(&st("integer")));
    assert_eq!(get(&schema(0, "limit"), "default"), Some(&num(25)));
    assert_eq!(get(&schema(1, "limit"), "default"), Some(&num(50)));
    assert_eq!(get(&schema(7, "mode"), "enum"), Some(&JsonValue::Array(vec![st("set"), st("add"), st("remove")])));
    assert_eq!(get(&schema(7, "mode"), "default"), Some(&st("set")));
    assert_eq!(get(&schema(14, "include_hidden"), "default"), Some(&JsonValue::Bool(false)));
    assert_eq!(get(&items[9], "description"), Some(&st("List all tags from Copilot Money.")));
    let server = McpServer::new(CopilotClient::new(ClientMode::Fixtures("fx".into())));
    assert_eq!(server.handle_tools_list(), tool_definitions());
    let init = server.handle_initialize("1.2.3");
    assert_eq!(get(&init, "protocolVersion"), Some(&st("2024-11-05")));
}

#[test]
fn tool_calls_name_their_tool() {
    let params = obj(vec![("name", st("list_tags")), ("arguments", obj(vec![("x", num(1))]))]);
    let (tool, args) = tools_call_target(Some(&params)).unwrap();
    assert_eq!(tool, Tool::ListTags);
    assert_eq!(args, Some(&obj(vec![("x", num(1))])));
    assert_eq!(tools_call_target(None).unwrap_err(), Err((-32602, "missing params".to_string())));
    let unknown = obj(vec![("name", st("zap"))]);
    assert_eq!(tools_call_target(Some(&unknown)).unwrap_err(), Ok("unknown tool: zap".to_string()));
    let content = tool_content("oops".into(), true);
    assert_eq!(get(&content, "isError"), Some(&JsonValue::Bool(true)));
}

#[test]
fn tool_arguments_and_filters() {
    let args = obj(vec![("limit", num(5)), ("name_contains", st("CAFE")), ("tag", st("work"))]);
    let a = parse_list_tool_args(Some(&args));
    assert_eq!(a.limit, 5);
    assert_eq!(parse_list_tool_args(None).limit, 25);
    assert_eq!(get_count(None, "limit", 50), 50);
    let mut t1 = txn("1", "2025-01-01", "Cafe Luna");
    t1.tags = Some(vec![tag("w", "Work")]);
    let t2 = txn("2", "2025-01-01", "cafe sol");
    let kept = tool_filter_transactions(vec![t1.clone(), t2.clone()], &a, &vec![]);
    assert_eq!(kept, vec![t1.clone()]);
    let found = tool_search_transactions(vec![t1.clone(), t2.clone()], "CAFE S");
    assert_eq!(found, vec![t2]);
}

#[test]
fn enriched_transactions_and_categories() {
    let mut t = txn("1", "2025-01-01", "Cafe");
    t.category_id = Some("c".into());
    t.tags = Some(vec![tag("w", "Work"), Tag { id: "n".into(), name: None, color_name: None }]);
    let e = enrich_transaction(t, &vec![("c".to_string(), "Coffee".to_string())]);
    assert_eq!(get(&e, "category_name"), Some(&st("Coffee")));
    assert_eq!(get(&e, "tags"), Some(&JsonValue::Array(vec![st("Work")])));
    assert_eq!(get(&e, "amount"), Some(&st("-12.50")));
    assert_eq!(get(&e, "recurring_id"), Some(&JsonValue::Null));

    let mut parent = category("p", "Parent", Some(vec![category("k", "Kid", Some(vec![]))]));
    parent.icon = Some(Icon::EmojiUnicode { unicode: Some("x".into()) });
    let j = serialize_category(parent, true);
    assert_eq!(get(&j, "emoji"), Some(&st("x")));
    let kids = get(&j, "children").unwrap();
    let JsonValue::Array(kids) = kids else { panic!("children are not an array") };
    assert_eq!(kids.len(), 1);
    assert_eq!(get(&kids[0], "children"), None);
    let flat_only = serialize_category(category("p", "P", Some(vec![category("k", "K", None)])), false);
    assert_eq!(get(&flat_only, "children"), None);
}

#[test]
fn recurring_listing_and_lookup() {
    let r = |id: &str, name: &str, cat: Option<&str>| Recurring {
        id: id.into(),
        name: Some(name.into()),
        frequency: Some("MONTHLY".into()),
        category_id: cat.map(|c| c.to_string()),
    };
    let items = vec![r("1", "Netflix", Some("fun")), r("2", "Rent", Some("home")), r("3", "Spotify", None)];
    let fun = filter_recurrings(items.clone(), Some("fun"), None);
    assert_eq!(fun.len(), 1);
    assert_eq!(fun[0].id, "1");
    let named = filter_recurrings(items.clone(), None, Some("T"));
    assert_eq!(named.iter().map(|x| x.id.as_str()).collect::<Vec<_>>(), vec!["1", "2", "3"]);
    assert!(filter_recurrings(items.clone(), Some("home"), Some("net")).is_empty());
    assert_eq!(find_recurring(&items, "3"), Some(2));
    assert_eq!(find_recurring(&items, "9"), None);
}
