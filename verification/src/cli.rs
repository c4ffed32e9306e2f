//! The command line's vocabulary (formats, commands and their arguments)
//! and the decisions it makes before talking to the service.
use vstd::prelude::*;
use crate::categories::{lookup_name, name_for, pair_views, text_or_empty};
use crate::client::{Tag, Transaction};
use crate::json::{as_bool, as_str, as_u64, get, int_number, spec_as_bool, spec_as_str, spec_as_u64, spec_get, JsonNumber, JsonValue};
use crate::categories::opt_text;
use crate::decimal::padded_decimal;
use crate::replies::{json_text, member_names};
use crate::text::{
    chars_equal, chars_of, contains_char, join_chars, joined, push_all, string_from_chars, trim, trim_chars,
};

verus! {

/// How results are printed.
#[derive(Debug, Clone, PartialEq)]
pub enum OutputFormat {
    Json,
    Table,
    Csv,
}

/// Whether output is colored.
#[derive(Debug, Clone, PartialEq)]
pub enum ColorMode {
    Auto,
    Always,
    Never,
}

/// Whether to color output: always, never, or when standard output is a terminal.
pub fn should_color(color: ColorMode, stdout_is_terminal: bool) -> (r: bool)
    ensures
        r == match color {
            ColorMode::Always => true,
            ColorMode::Never => false,
            ColorMode::Auto => stdout_is_terminal,
        },
{
    match color {
        ColorMode::Always => true,
        ColorMode::Never => false,
        ColorMode::Auto => stdout_is_terminal,
    }
}

/// What to do before a write.
#[derive(Debug, Clone, PartialEq)]
pub enum WriteDecision {
    /// Go ahead without asking.
    Proceed,
    /// Refuse: nobody can be asked.
    Refuse,
    /// Ask for confirmation.
    Ask,
}

/// Before a write: a dry run or `--yes` goes ahead, a non-interactive run
/// refuses, an interactive run asks.
pub fn confirm_write_decision(dry_run: bool, yes: bool, stdin_is_terminal: bool) -> (r: WriteDecision)
    ensures
        (dry_run || yes) ==> r is Proceed,
        !(dry_run || yes) && !stdin_is_terminal ==> r is Refuse,
        !(dry_run || yes) && stdin_is_terminal ==> r is Ask,
{
    if dry_run {
        return WriteDecision::Proceed;
    }
    if yes {
        return WriteDecision::Proceed;
    }
    if !stdin_is_terminal {
        return WriteDecision::Refuse;
    }
    WriteDecision::Ask
}

/// The answer to the confirmation prompt accepts: `yes`, surrounding
/// whitespace ignored.
pub fn confirmation_accepted(input: &str) -> (r: bool)
    ensures
        r == (trim(input@) == "yes"@),
{
    chars_equal(&trim_chars(&chars_of(input)), &chars_of("yes"))
}

// ---- Commands and arguments ---------------------------------------------------------

/// Authentication commands.
#[derive(Debug, Clone, PartialEq)]
pub enum AuthCmd {
    Status,
    Login(AuthLoginArgs),
    Refresh(AuthRefreshArgs),
    SetToken(AuthSetTokenArgs),
    Logout,
}

/// How to log in.
#[derive(Debug, Clone, PartialEq)]
pub enum AuthLoginMode {
    /// Open a browser and wait for the login.
    Interactive,
    /// Send a magic link by email; the link is pasted back.
    EmailLink,
    /// Email and password from a secrets file.
    Credentials,
}

/// Arguments of `auth login`.
#[derive(Debug, Clone, PartialEq)]
pub struct AuthLoginArgs {
    pub secrets_file: Option<String>,
    pub mode: AuthLoginMode,
    pub email: Option<String>,
    pub timeout_seconds: u64,
    pub persist_session: bool,
    pub no_persist_session: bool,
}

/// Arguments of `auth refresh`.
#[derive(Debug, Clone, PartialEq)]
pub struct AuthRefreshArgs {
    pub timeout_seconds: u64,
}

/// Arguments of `auth set-token`.
#[derive(Debug, Clone, PartialEq)]
pub struct AuthSetTokenArgs {
    pub token_file: Option<String>,
}

/// Account commands.
#[derive(Debug, Clone, PartialEq)]
pub enum AccountsCmd {
    List(AccountsListArgs),
    Show { id: String },
}

/// Arguments of `accounts list`.
#[derive(Debug, Clone, PartialEq)]
pub struct AccountsListArgs {
    pub name_contains: Option<String>,
    pub account_type: Option<String>,
    pub show_hidden: bool,
    pub show_closed: bool,
}

/// Net worth commands.
#[derive(Debug, Clone, PartialEq)]
pub enum NetworthCmd {
    Current,
    History(NetworthHistoryArgs),
}

/// Arguments of `networth history`.
#[derive(Debug, Clone, PartialEq)]
pub struct NetworthHistoryArgs {
    pub time_frame: Option<String>,
}

/// Spending commands.
#[derive(Debug, Clone, PartialEq)]
pub enum SpendingCmd {
    Monthly,
    Summary,
    History,
}

/// A column of a transaction table.
#[derive(Debug, Clone, PartialEq)]
pub enum TransactionField {
    Date,
    Name,
    Amount,
    Reviewed,
    Category,
    Tags,
    Type,
    Account,
    Notes,
    Id,
}

/// Arguments of `transactions duplicates`.
#[derive(Debug, Clone, PartialEq)]
pub struct TransactionsDuplicatesArgs {
    pub limit: usize,
    pub days: u32,
    pub fields: Vec<TransactionField>,
}

/// Arguments of `transactions list`; amounts are in hundredths.
#[derive(Debug, Clone, PartialEq)]
pub struct TransactionsListArgs {
    pub limit: usize,
    pub after: Option<String>,
    pub pages: usize,
    pub all: bool,
    pub reviewed: bool,
    pub unreviewed: bool,
    pub category_id: Option<String>,
    pub category: Option<String>,
    pub tag: Vec<String>,
    pub date: Option<String>,
    pub from: Option<String>,
    pub to: Option<String>,
    pub min_amount: Option<i64>,
    pub max_amount: Option<i64>,
    pub account: Option<String>,
    pub account_id: Option<String>,
    pub name_contains: Option<String>,
    pub sort: Option<crate::session::TransactionsSort>,
    pub fields: Vec<TransactionField>,
    pub page_info: bool,
    pub totals: bool,
    pub preset: Option<String>,
}

/// Arguments of `transactions search`; amounts are in hundredths.
#[derive(Debug, Clone, PartialEq)]
pub struct TransactionsSearchArgs {
    pub query: String,
    pub limit: usize,
    pub after: Option<String>,
    pub pages: usize,
    pub all: bool,
    pub reviewed: bool,
    pub unreviewed: bool,
    pub category_id: Option<String>,
    pub category: Option<String>,
    pub tag: Vec<String>,
    pub date: Option<String>,
    pub from: Option<String>,
    pub to: Option<String>,
    pub min_amount: Option<i64>,
    pub max_amount: Option<i64>,
    pub account: Option<String>,
    pub account_id: Option<String>,
    pub sort: Option<crate::session::TransactionsSort>,
    pub fields: Vec<TransactionField>,
    pub page_info: bool,
    pub totals: bool,
}

/// Arguments of `transactions show`.
#[derive(Debug, Clone, PartialEq)]
pub struct TransactionsShowArgs {
    pub id: String,
    pub limit: usize,
}

/// Arguments of `transactions review` and `unreview`.
#[derive(Debug, Clone, PartialEq)]
pub struct TransactionsReviewArgs {
    pub ids: Vec<String>,
}

/// Arguments of `transactions set-category`.
#[derive(Debug, Clone, PartialEq)]
pub struct TransactionsSetCategoryArgs {
    pub ids: Vec<String>,
    pub category_id: Option<String>,
    pub category: Option<String>,
}

/// Arguments of `transactions assign-recurring`.
#[derive(Debug, Clone, PartialEq)]
pub struct TransactionsAssignRecurringArgs {
    pub ids: Vec<String>,
    pub recurring_id: String,
}

/// Arguments of `transactions set-notes`.
#[derive(Debug, Clone, PartialEq)]
pub struct TransactionsSetNotesArgs {
    pub ids: Vec<String>,
    pub notes: Option<String>,
    pub clear: bool,
}

/// Arguments of `transactions set-tags`.
#[derive(Debug, Clone, PartialEq)]
pub struct TransactionsSetTagsArgs {
    pub ids: Vec<String>,
    pub mode: crate::edits::TagUpdateMode,
    pub tag_ids: Vec<String>,
}

/// Arguments of `transactions edit`.
#[derive(Debug, Clone, PartialEq)]
pub struct TransactionsEditArgs {
    pub ids: Vec<String>,
    pub type_: Option<String>,
    pub input_json: Option<String>,
}

/// Category commands.
#[derive(Debug, Clone, PartialEq)]
pub enum CategoriesCmd {
    List(CategoriesListArgs),
    Show { id: String },
    Create(CategoriesCreateArgs),
    Edit(CategoriesEditArgs),
}

/// Arguments of `categories list`.
#[derive(Debug, Clone, PartialEq)]
pub struct CategoriesListArgs {
    pub spend: bool,
    pub budget: bool,
    pub rollovers: bool,
    pub children: bool,
    pub name_contains: Option<String>,
}

/// Arguments of `categories create`.
#[derive(Debug, Clone, PartialEq)]
pub struct CategoriesCreateArgs {
    pub name: String,
    pub emoji: Option<String>,
    pub color_name: Option<String>,
    pub excluded: bool,
    pub template_id: Option<String>,
    pub budget_unassigned_amount: Option<i64>,
}

/// Arguments of `categories edit`.
#[derive(Debug, Clone, PartialEq)]
pub struct CategoriesEditArgs {
    pub id: String,
    pub name: Option<String>,
    pub emoji: Option<String>,
    pub color_name: Option<String>,
    pub excluded: Option<bool>,
}

/// Recurring payment commands.
#[derive(Debug, Clone, PartialEq)]
pub enum RecurringsCmd {
    List(RecurringsListArgs),
    Show { id: String },
    Create(RecurringsCreateArgs),
    Edit(RecurringsEditArgs),
    Upcoming,
}

/// Tag commands.
#[derive(Debug, Clone, PartialEq)]
pub enum TagsCmd {
    List,
    Create(TagsCreateArgs),
    Delete(TagsDeleteArgs),
}

/// Arguments of `tags create`.
#[derive(Debug, Clone, PartialEq)]
pub struct TagsCreateArgs {
    pub name: String,
    pub color_name: Option<String>,
}

/// Arguments of `tags delete`.
#[derive(Debug, Clone, PartialEq)]
pub struct TagsDeleteArgs {
    pub id: String,
}

/// Arguments of `recurrings list`.
#[derive(Debug, Clone, PartialEq)]
pub struct RecurringsListArgs {
    pub category_id: Option<String>,
    pub name_contains: Option<String>,
}

/// Arguments of `recurrings create`.
#[derive(Debug, Clone, PartialEq)]
pub struct RecurringsCreateArgs {
    pub transaction_id: String,
    pub frequency: String,
}

/// Arguments of `recurrings edit`.
#[derive(Debug, Clone, PartialEq)]
pub struct RecurringsEditArgs {
    pub id: String,
    pub name_contains: Option<String>,
    pub min_amount: Option<i64>,
    pub max_amount: Option<i64>,
    pub recalculate_only_for_future: bool,
}

/// Budget commands.
#[derive(Debug, Clone, PartialEq)]
pub enum BudgetsCmd {
    Month,
    /// The `set` subcommand.
    SetBudget,
}

// ---- CSV output ---------------------------------------------------------------------

/// `s` with every `"` doubled.
pub open spec fn doubled_quotes(s: Seq<char>) -> Seq<char>
    decreases s.len(),
{
    if s.len() == 0 {
        Seq::empty()
    } else {
        doubled_quotes(s.drop_last()) + if s.last() == '"' {
            seq!['"', '"']
        } else {
            seq![s.last()]
        }
    }
}

/// An id as tables show it: an id longer than twelve characters is cut to
/// its first eight, followed by an ellipsis.
pub open spec fn short_id(id: Seq<char>) -> Seq<char> {
    if id.len() > 12 {
        id.take(8).push('\u{2026}')
    } else {
        id
    }
}

/// Shortens an id for a table cell.
pub fn shorten_id_for_table(id: &str) -> (r: String)
    ensures
        r@ == short_id(id@),
{
    let chars = chars_of(id);
    if chars.len() > 12 {
        let mut head: Vec<char> = Vec::new();
        let mut k: usize = 0;
        while k < 8
            invariant
                k <= 8 < chars.len(),
                head@ == chars@.take(k as int),
            decreases 8 - k,
        {
            head.push(chars[k]);
            k = k + 1;
            assert(head@ == chars@.take(k as int));
        }
        head.push('\u{2026}');
        string_from_chars(&head)
    } else {
        string_from_chars(&chars)
    }
}

/// A CSV field: quoted, with doubled quotes, when it holds a comma, a quote
/// or a newline; as it is otherwise.
pub open spec fn csv_escaped(s: Seq<char>) -> Seq<char> {
    if s.contains(',') || s.contains('"') || s.contains('\n') {
        seq!['"'] + doubled_quotes(s) + seq!['"']
    } else {
        s
    }
}

/// Escapes a CSV field; see `csv_escaped`.
pub fn csv_escape_field(s: &str) -> (r: String)
    ensures
        r@ == csv_escaped(s@),
{
    let v = chars_of(s);
    if contains_char(&v, ',') || contains_char(&v, '"') || contains_char(&v, '\n') {
        let mut out: Vec<char> = Vec::new();
        out.push('"');
        let mut i: usize = 0;
        while i < v.len()
            invariant
                i <= v.len(),
                out@ == seq!['"'] + doubled_quotes(v@.take(i as int)),
            decreases v.len() - i,
        {
            assert(v@.take(i + 1).drop_last() == v@.take(i as int));
            if v[i] == '"' {
                out.push('"');
                out.push('"');
            } else {
                out.push(v[i]);
            }
            i = i + 1;
        }
        assert(v@.take(v.len() as int) == v@);
        out.push('"');
        string_from_chars(&out)
    } else {
        string_from_chars(&v)
    }
}

/// The column title of a transaction field.
pub open spec fn field_label(f: TransactionField) -> Seq<char> {
    match f {
        TransactionField::Date => "date"@,
        TransactionField::Name => "name"@,
        TransactionField::Amount => "amount"@,
        TransactionField::Reviewed => "reviewed"@,
        TransactionField::Category => "category"@,
        TransactionField::Tags => "tags"@,
        TransactionField::Type => "type"@,
        TransactionField::Account => "account"@,
        TransactionField::Notes => "notes"@,
        TransactionField::Id => "id"@,
    }
}

/// The column title of a transaction field.
pub fn field_label_text(f: &TransactionField) -> (r: Vec<char>)
    ensures
        r@ == field_label(*f),
{
    match f {
        TransactionField::Date => chars_of("date"),
        TransactionField::Name => chars_of("name"),
        TransactionField::Amount => chars_of("amount"),
        TransactionField::Reviewed => chars_of("reviewed"),
        TransactionField::Category => chars_of("category"),
        TransactionField::Tags => chars_of("tags"),
        TransactionField::Type => chars_of("type"),
        TransactionField::Account => chars_of("account"),
        TransactionField::Notes => chars_of("notes"),
        TransactionField::Id => chars_of("id"),
    }
}

/// The CSV header line: the titles of `fields` joined with commas.
pub fn csv_header(fields: &Vec<TransactionField>) -> (r: String)
    ensures
        r@ == joined(fields@.map_values(|f: TransactionField| field_label(f)), ","@),
{
    let mut parts: Vec<Vec<char>> = Vec::new();
    let mut i: usize = 0;
    while i < fields.len()
        invariant
            i <= fields.len(),
            parts@.len() == i,
            forall|k: int| 0 <= k < i ==> (#[trigger] parts@[k])@ == field_label(fields@[k]),
        decreases fields.len() - i,
    {
        parts.push(field_label_text(&fields[i]));
        i = i + 1;
    }
    assert(parts@.map_values(|p: Vec<char>| p@) =~= fields@.map_values(|f: TransactionField| field_label(f)));
    string_from_chars(&join_chars(&parts, &chars_of(",")))
}

/// The names of the tags that have one, in order.
pub open spec fn plain_tag_names(tags: Seq<Tag>) -> Seq<Seq<char>>
    decreases tags.len(),
{
    if tags.len() == 0 {
        Seq::empty()
    } else {
        let rest = plain_tag_names(tags.drop_last());
        match tags.last().name {
            Some(n) => rest.push(n@),
            None => rest,
        }
    }
}

/// The name recorded for an optional id, empty when there is none.
pub open spec fn looked_up(pairs: Seq<(String, String)>, id: Option<String>) -> Seq<char> {
    match id {
        Some(i) => match lookup_name(pair_views(pairs), i@) {
            Some(n) => n,
            None => Seq::empty(),
        },
        None => Seq::empty(),
    }
}

/// One CSV cell of transaction `t`; `money` is its amount as displayed.
pub open spec fn csv_cell(
    t: Transaction,
    money: Seq<char>,
    f: TransactionField,
    cats: Seq<(String, String)>,
    accts: Seq<(String, String)>,
) -> Seq<char> {
    match f {
        TransactionField::Date => text_or_empty(t.date),
        TransactionField::Name => csv_escaped(text_or_empty(t.name)),
        TransactionField::Amount => money,
        TransactionField::Reviewed => if t.is_reviewed == Some(true) { "true"@ } else { "false"@ },
        TransactionField::Category => csv_escaped(looked_up(cats, t.category_id)),
        TransactionField::Tags => csv_escaped(joined(
            match t.tags {
                Some(ts) => plain_tag_names(ts@),
                None => Seq::empty(),
            },
            ";"@,
        )),
        TransactionField::Type => text_or_empty(t.txn_type),
        TransactionField::Account => csv_escaped(looked_up(accts, t.account_id)),
        TransactionField::Notes => csv_escaped(text_or_empty(t.user_notes)),
        TransactionField::Id => t.id@,
    }
}

fn looked_up_text(pairs: &Vec<(String, String)>, id: &Option<String>) -> (r: String)
    ensures
        r@ == looked_up(pairs@, *id),
{
    match id {
        Some(i) => match name_for(pairs, i.as_str()) {
            Some(n) => n,
            None => String::new(),
        },
        None => String::new(),
    }
}

fn plain_tag_name_list(tags: &Option<Vec<Tag>>) -> (r: Vec<Vec<char>>)
    ensures
        r@.map_values(|p: Vec<char>| p@) == match *tags {
            Some(ts) => plain_tag_names(ts@),
            None => Seq::<Seq<char>>::empty(),
        },
{
    let mut out: Vec<Vec<char>> = Vec::new();
    match tags {
        Some(ts) => {
            let mut i: usize = 0;
            while i < ts.len()
                invariant
                    i <= ts.len(),
                    out@.map_values(|p: Vec<char>| p@) == plain_tag_names(ts@.take(i as int)),
                decreases ts.len() - i,
            {
                assert(ts@.take(i + 1).drop_last() == ts@.take(i as int));
                match &ts[i].name {
                    Some(n) => {
                        let ghost before = out@;
                        out.push(chars_of(n.as_str()));
                        assert(out@.map_values(|p: Vec<char>| p@) == before.map_values(|p: Vec<char>| p@).push(n@));
                    },
                    None => {},
                }
                i = i + 1;
            }
            assert(ts@.take(ts.len() as int) == ts@);
        },
        None => {},
    }
    out
}

fn text_of_opt(o: &Option<String>) -> (r: String)
    ensures
        r@ == text_or_empty(*o),
{
    crate::categories::string_or_empty(o)
}

/// One CSV cell of a transaction; see `csv_cell`.
pub fn csv_cell_text(
    t: &Transaction,
    money: &str,
    f: &TransactionField,
    cats: &Vec<(String, String)>,
    accts: &Vec<(String, String)>,
) -> (r: String)
    ensures
        r@ == csv_cell(*t, money@, *f, cats@, accts@),
{
    match f {
        TransactionField::Date => text_of_opt(&t.date),
        TransactionField::Name => csv_escape_field(text_of_opt(&t.name).as_str()),
        TransactionField::Amount => string_from_chars(&chars_of(money)),
        TransactionField::Reviewed => {
            let reviewed = match t.is_reviewed {
                Some(b) => b,
                None => false,
            };
            if reviewed {
                string_from_chars(&chars_of("true"))
            } else {
                string_from_chars(&chars_of("false"))
            }
        },
        TransactionField::Category => csv_escape_field(looked_up_text(cats, &t.category_id).as_str()),
        TransactionField::Tags => {
            let names = plain_tag_name_list(&t.tags);
            let joined_names = string_from_chars(&join_chars(&names, &chars_of(";")));
            csv_escape_field(joined_names.as_str())
        },
        TransactionField::Type => text_of_opt(&t.txn_type),
        TransactionField::Account => csv_escape_field(looked_up_text(accts, &t.account_id).as_str()),
        TransactionField::Notes => csv_escape_field(text_of_opt(&t.user_notes).as_str()),
        TransactionField::Id => t.id.clone(),
    }
}

/// One CSV line of a transaction: its cells for `fields`, joined with commas.
pub fn csv_row(
    t: &Transaction,
    money: &str,
    fields: &Vec<TransactionField>,
    cats: &Vec<(String, String)>,
    accts: &Vec<(String, String)>,
) -> (r: String)
    ensures
        r@ == joined(fields@.map_values(|f: TransactionField| csv_cell(*t, money@, f, cats@, accts@)), ","@),
{
    let mut parts: Vec<Vec<char>> = Vec::new();
    let mut i: usize = 0;
    while i < fields.len()
        invariant
            i <= fields.len(),
            parts@.len() == i,
            forall|k: int| 0 <= k < i ==> (#[trigger] parts@[k])@ == csv_cell(*t, money@, fields@[k], cats@, accts@),
        decreases fields.len() - i,
    {
        parts.push(chars_of(csv_cell_text(t, money, &fields[i], cats, accts).as_str()));
        i = i + 1;
    }
    assert(parts@.map_values(|p: Vec<char>| p@) =~= fields@.map_values(
        |f: TransactionField| csv_cell(*t, money@, f, cats@, accts@),
    ));
    string_from_chars(&join_chars(&parts, &chars_of(",")))
}

// ---- Table output ---------------------------------------------------------------------

/// The name recorded for an optional id, the id itself when no name is
/// recorded, empty when there is no id.
pub open spec fn name_or_id(pairs: Seq<(String, String)>, id: Option<String>) -> Seq<char> {
    match id {
        Some(i) => match lookup_name(pair_views(pairs), i@) {
            Some(n) => n,
            None => i@,
        },
        None => Seq::empty(),
    }
}

/// One table cell of transaction `t`; `money` is its amount as displayed
/// and `short_id` its id as the table shows it.
pub open spec fn table_cell(
    t: Transaction,
    money: Seq<char>,
    short_id: Seq<char>,
    f: TransactionField,
    cats: Seq<(String, String)>,
    accts: Seq<(String, String)>,
) -> Seq<char> {
    match f {
        TransactionField::Date => text_or_empty(t.date),
        TransactionField::Name => text_or_empty(t.name),
        TransactionField::Amount => money,
        TransactionField::Reviewed => if t.is_reviewed == Some(true) { seq!['\u{2713}'] } else { Seq::empty() },
        TransactionField::Category => name_or_id(cats, t.category_id),
        TransactionField::Tags => joined(
            match t.tags {
                Some(ts) => plain_tag_names(ts@),
                None => Seq::empty(),
            },
            ","@,
        ),
        TransactionField::Type => text_or_empty(t.txn_type),
        TransactionField::Account => name_or_id(accts, t.account_id),
        TransactionField::Notes => text_or_empty(t.user_notes),
        TransactionField::Id => short_id,
    }
}

fn name_or_id_text(pairs: &Vec<(String, String)>, id: &Option<String>) -> (r: String)
    ensures
        r@ == name_or_id(pairs@, *id),
{
    match id {
        Some(i) => match name_for(pairs, i.as_str()) {
            Some(n) => n,
            None => i.clone(),
        },
        None => String::new(),
    }
}

/// One table cell of a transaction; see `table_cell`.
pub fn table_cell_text(
    t: &Transaction,
    money: &str,
    short_id: &str,
    f: &TransactionField,
    cats: &Vec<(String, String)>,
    accts: &Vec<(String, String)>,
) -> (r: String)
    ensures
        r@ == table_cell(*t, money@, short_id@, *f, cats@, accts@),
{
    match f {
        TransactionField::Date => text_of_opt(&t.date),
        TransactionField::Name => text_of_opt(&t.name),
        TransactionField::Amount => string_from_chars(&chars_of(money)),
        TransactionField::Reviewed => {
            let mut out: Vec<char> = Vec::new();
            if t.is_reviewed == Some(true) {
                out.push('\u{2713}');
            }
            string_from_chars(&out)
        },
        TransactionField::Category => name_or_id_text(cats, &t.category_id),
        TransactionField::Tags => {
            let names = plain_tag_name_list(&t.tags);
            string_from_chars(&join_chars(&names, &chars_of(",")))
        },
        TransactionField::Type => text_of_opt(&t.txn_type),
        TransactionField::Account => name_or_id_text(accts, &t.account_id),
        TransactionField::Notes => text_of_opt(&t.user_notes),
        TransactionField::Id => string_from_chars(&chars_of(short_id)),
    }
}

/// The table cells of a transaction for `fields`, in order.
pub fn table_row(
    t: &Transaction,
    money: &str,
    short_id: &str,
    fields: &Vec<TransactionField>,
    cats: &Vec<(String, String)>,
    accts: &Vec<(String, String)>,
) -> (r: Vec<String>)
    ensures
        r@.len() == fields@.len(),
        forall|k: int| 0 <= k < fields@.len() ==> (#[trigger] r@[k])@ == table_cell(*t, money@, short_id@, fields@[k], cats@, accts@),
{
    let mut out: Vec<String> = Vec::new();
    let mut i: usize = 0;
    while i < fields.len()
        invariant
            i <= fields.len(),
            out@.len() == i,
            forall|k: int| 0 <= k < i ==> (#[trigger] out@[k])@ == table_cell(*t, money@, short_id@, fields@[k], cats@, accts@),
        decreases fields.len() - i,
    {
        out.push(table_cell_text(t, money, short_id, &fields[i], cats, accts));
        i = i + 1;
    }
    out
}

// ---- Category inputs ----------------------------------------------------------------

fn key_text(s: &str) -> (r: String)
    ensures
        r@ == s@,
{
    string_from_chars(&chars_of(s))
}

fn opt_text_value(o: &Option<String>) -> (r: JsonValue)
    ensures
        json_text(r, opt_text(*o)),
{
    match o {
        Some(s) => JsonValue::String(s.clone()),
        None => JsonValue::Null,
    }
}

/// The input of `categories create`: name, emoji, color, whether excluded
/// and template (`null` for those not given), and an initial budget
/// `{"unassignedAmount": A}` when an amount is given.
pub fn category_create_input(args: &CategoriesCreateArgs) -> (r: JsonValue)
    ensures
        r matches JsonValue::Object(m) && m@.len() == (if args.budget_unassigned_amount is Some { 6int } else { 5int })
            && m@[0].0@ == "name"@ && json_text(m@[0].1, Some(args.name@))
            && m@[1].0@ == "emoji"@ && json_text(m@[1].1, opt_text(args.emoji))
            && m@[2].0@ == "colorName"@ && json_text(m@[2].1, opt_text(args.color_name))
            && m@[3].0@ == "isExcluded"@ && m@[3].1 == JsonValue::Bool(args.excluded)
            && m@[4].0@ == "templateId"@ && json_text(m@[4].1, opt_text(args.template_id))
            && (args.budget_unassigned_amount matches Some(a) ==> m@[5].0@ == "budget"@ && (m@[5].1 matches JsonValue::Object(b)
                && b@.len() == 1 && b@[0].0@ == "unassignedAmount"@ && (b@[0].1 matches JsonValue::Number(x)
                && x.as_i64 == Some(a) && x.text@ == padded_decimal(a as int, 0)))),
{
    let mut m: Vec<(String, JsonValue)> = Vec::new();
    m.push((key_text("name"), JsonValue::String(args.name.clone())));
    m.push((key_text("emoji"), opt_text_value(&args.emoji)));
    m.push((key_text("colorName"), opt_text_value(&args.color_name)));
    m.push((key_text("isExcluded"), JsonValue::Bool(args.excluded)));
    m.push((key_text("templateId"), opt_text_value(&args.template_id)));
    match args.budget_unassigned_amount {
        Some(a) => {
            let budget = vec![(key_text("unassignedAmount"), JsonValue::Number(int_number(a)))];
            m.push((key_text("budget"), JsonValue::Object(budget)));
        },
        None => {},
    }
    JsonValue::Object(m)
}

/// The members `categories edit` sends, in order: each of name, emoji,
/// color and excluded that is given.
pub open spec fn category_edit_keys(args: CategoriesEditArgs) -> Seq<Seq<char>> {
    (if args.name is Some { seq!["name"@] } else { Seq::empty() })
        + (if args.emoji is Some { seq!["emoji"@] } else { Seq::empty() })
        + (if args.color_name is Some { seq!["colorName"@] } else { Seq::empty() })
        + (if args.excluded is Some { seq!["isExcluded"@] } else { Seq::empty() })
}

/// Member `p` of a `categories edit` input carries the value given for it.
pub open spec fn category_edit_member_ok(args: CategoriesEditArgs, p: (String, JsonValue)) -> bool {
    &&& p.0@ == "name"@ ==> json_text(p.1, opt_text(args.name))
    &&& p.0@ == "emoji"@ ==> json_text(p.1, opt_text(args.emoji))
    &&& p.0@ == "colorName"@ ==> json_text(p.1, opt_text(args.color_name))
    &&& p.0@ == "isExcluded"@ ==> (args.excluded matches Some(b) && p.1 == JsonValue::Bool(b))
}

/// The input of `categories edit`: only the fields that are given.
pub fn category_edit_input(args: &CategoriesEditArgs) -> (r: JsonValue)
    ensures
        r matches JsonValue::Object(m) && member_names(m@) == category_edit_keys(*args) && forall|k: int|
            0 <= k < m@.len() ==> category_edit_member_ok(*args, #[trigger] m@[k]),
{
    proof {
        reveal_strlit("name");
        reveal_strlit("emoji");
        reveal_strlit("colorName");
        reveal_strlit("isExcluded");
    }
    let mut m: Vec<(String, JsonValue)> = Vec::new();
    if let Some(n) = &args.name {
        let v = n.clone();
        assert(v@ == n@);
        m.push((key_text("name"), JsonValue::String(v)));
        assert(m@[0].0@ == "name"@);
        assert("name"@ != "emoji"@);
        assert("name"@ != "colorName"@);
        assert("name"@ != "isExcluded"@);
        assert(json_text(m@[0].1, opt_text(args.name)));
        assert(category_edit_member_ok(*args, m@[0]));
    }
    assert(member_names(m@) == (if args.name is Some { seq!["name"@] } else { Seq::<Seq<char>>::empty() }));
    assert(forall|k: int| 0 <= k < m@.len() ==> category_edit_member_ok(*args, #[trigger] m@[k]));
    let ghost m1 = m@;
    if let Some(e) = &args.emoji {
        m.push((key_text("emoji"), JsonValue::String(e.clone())));
        assert(m@[m@.len() - 1].0@ == "emoji"@);
    }
    assert(member_names(m@) == member_names(m1) + (if args.emoji is Some { seq!["emoji"@] } else { Seq::<Seq<char>>::empty() }));
    assert forall|k: int| 0 <= k < m@.len() implies category_edit_member_ok(*args, #[trigger] m@[k]) by {
        if k < m1.len() {
            assert(m@[k] == m1[k]);
        }
    }
    let ghost m2 = m@;
    if let Some(c) = &args.color_name {
        m.push((key_text("colorName"), JsonValue::String(c.clone())));
        assert(m@[m@.len() - 1].0@ == "colorName"@);
    }
    assert(member_names(m@) == member_names(m2) + (if args.color_name is Some { seq!["colorName"@] } else { Seq::<Seq<char>>::empty() }));
    assert forall|k: int| 0 <= k < m@.len() implies category_edit_member_ok(*args, #[trigger] m@[k]) by {
        if k < m2.len() {
            assert(m@[k] == m2[k]);
        }
    }
    let ghost m3 = m@;
    if let Some(x) = args.excluded {
        m.push((key_text("isExcluded"), JsonValue::Bool(x)));
        assert(m@[m@.len() - 1].0@ == "isExcluded"@);
    }
    assert(member_names(m@) == member_names(m3) + (if args.excluded is Some { seq!["isExcluded"@] } else { Seq::<Seq<char>>::empty() }));
    assert forall|k: int| 0 <= k < m@.len() implies category_edit_member_ok(*args, #[trigger] m@[k]) by {
        if k < m3.len() {
            assert(m@[k] == m3[k]);
        }
    }
    JsonValue::Object(m)
}

/// How an account is offered for choosing: `name (type)`, with `?` for
/// what is missing.
pub open spec fn account_choice(name: Option<String>, account_type: Option<String>) -> Seq<char> {
    (match name { Some(n) => n@, None => "?"@ }) + " ("@ + (match account_type { Some(t) => t@, None => "?"@ }) + ")"@
}

/// The label under which an account is offered for choosing.
pub fn account_choice_label(name: &Option<String>, account_type: &Option<String>) -> (r: String)
    ensures
        r@ == account_choice(*name, *account_type),
{
    let mut out: Vec<char> = match name {
        Some(n) => chars_of(n.as_str()),
        None => chars_of("?"),
    };
    push_all(&mut out, &chars_of(" ("));
    match account_type {
        Some(t) => push_all(&mut out, &chars_of(t.as_str())),
        None => push_all(&mut out, &chars_of("?")),
    }
    push_all(&mut out, &chars_of(")"));
    string_from_chars(&out)
}

// ---- Saved filter presets ------------------------------------------------------------

/// The settings of a listing that a preset can fill in.
#[derive(Debug, Clone, PartialEq)]
pub struct PresetArgs {
    pub category: Option<String>,
    pub from: Option<String>,
    pub to: Option<String>,
    /// A least amount is already given.
    pub min_amount_given: bool,
    /// A greatest amount is already given.
    pub max_amount_given: bool,
    pub reviewed: bool,
    pub unreviewed: bool,
    pub name_contains: Option<String>,
    pub account: Option<String>,
    pub limit: usize,
    pub totals: bool,
}

/// The amount bounds a preset supplies, as the numbers it holds.
#[derive(Debug, Clone, PartialEq)]
pub struct PresetAmounts {
    pub min_amount: Option<JsonNumber>,
    pub max_amount: Option<JsonNumber>,
}

/// A text setting after a preset: kept when set, else the preset's string.
pub open spec fn preset_text(current: Option<String>, preset: JsonValue, key: Seq<char>) -> Option<Seq<char>> {
    match current {
        Some(s) => Some(s@),
        None => spec_as_str(spec_get(preset, key)),
    }
}

/// The number a preset holds under `key`.
pub open spec fn preset_number(preset: JsonValue, key: Seq<char>) -> Option<JsonNumber> {
    match spec_get(preset, key) {
        Some(JsonValue::Number(n)) => Some(n),
        _ => None,
    }
}

fn fill_text(current: &mut Option<String>, preset: &JsonValue, key: &str)
    ensures
        crate::categories::opt_text(*final(current)) == preset_text(*old(current), *preset, key@),
{
    if current.is_none() {
        if let Some(v) = as_str(get(preset, key)) {
            *current = Some(v.to_owned());
        }
    }
}

fn preset_number_exec(preset: &JsonValue, key: &str) -> (r: Option<JsonNumber>)
    ensures
        r == preset_number(*preset, key@),
{
    match get(preset, key) {
        Some(JsonValue::Number(n)) => Some(crate::json::copy_number(n)),
        _ => None,
    }
}

/// Fills the settings that are not given from a saved preset. Text settings
/// and amount bounds are taken only when absent; the review filter only when
/// neither reviewed nor unreviewed is asked; the limit is replaced by the
/// preset's; totals are switched on when the preset says `true`.
pub fn apply_preset(args: &mut PresetArgs, preset: &JsonValue) -> (amounts: PresetAmounts)
    ensures
        crate::categories::opt_text(final(args).category) == preset_text(old(args).category, *preset, "category"@),
        crate::categories::opt_text(final(args).from) == preset_text(old(args).from, *preset, "from"@),
        crate::categories::opt_text(final(args).to) == preset_text(old(args).to, *preset, "to"@),
        crate::categories::opt_text(final(args).name_contains) == preset_text(old(args).name_contains, *preset, "name_contains"@),
        crate::categories::opt_text(final(args).account) == preset_text(old(args).account, *preset, "account"@),
        amounts.min_amount == if old(args).min_amount_given { None } else { preset_number(*preset, "min_amount"@) },
        amounts.max_amount == if old(args).max_amount_given { None } else { preset_number(*preset, "max_amount"@) },
        final(args).min_amount_given == old(args).min_amount_given,
        final(args).max_amount_given == old(args).max_amount_given,
        match spec_as_bool(spec_get(*preset, "reviewed"@)) {
            Some(v) => if !old(args).reviewed && !old(args).unreviewed {
                final(args).reviewed == v && final(args).unreviewed == !v
            } else {
                final(args).reviewed == old(args).reviewed && final(args).unreviewed == old(args).unreviewed
            },
            None => final(args).reviewed == old(args).reviewed && final(args).unreviewed == old(args).unreviewed,
        },
        final(args).limit == match spec_as_u64(spec_get(*preset, "limit"@)) {
            Some(v) => v as usize,
            None => old(args).limit,
        },
        final(args).totals == (old(args).totals || spec_as_bool(spec_get(*preset, "totals"@)) == Some(true)),
{
    fill_text(&mut args.category, preset, "category");
    fill_text(&mut args.from, preset, "from");
    fill_text(&mut args.to, preset, "to");
    let min_amount = if args.min_amount_given { None } else { preset_number_exec(preset, "min_amount") };
    let max_amount = if args.max_amount_given { None } else { preset_number_exec(preset, "max_amount") };
    if let Some(v) = as_bool(get(preset, "reviewed")) {
        if !args.reviewed && !args.unreviewed {
            if v {
                args.reviewed = true;
            } else {
                args.unreviewed = true;
            }
        }
    }
    fill_text(&mut args.name_contains, preset, "name_contains");
    fill_text(&mut args.account, preset, "account");
    if let Some(v) = as_u64(get(preset, "limit")) {
        args.limit = v as usize;
    }
    if let Some(true) = as_bool(get(preset, "totals")) {
        args.totals = true;
    }
    PresetAmounts { min_amount, max_amount }
}

} // verus!
