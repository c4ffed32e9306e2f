//! Dates as text: normalising the accepted input formats, and resolving
//! relative date keywords against a given day.
use vstd::prelude::*;
use crate::calendar::{
    civil_from_days, date_of_day, day_number, days_from_civil, last_day_of_month,
    lemma_date_of_day, lemma_day_number_range, month_length,
};
use crate::decimal::{
    format_i32_padded, format_u32_padded, is_digit, lemma_unsigned_text_chars, padded_decimal,
    parse_i64, parse_i64_spec, parse_u32, parse_u32_spec,
};
use crate::laws::{law_end_of_other_keys, law_key_normal_form};
use crate::text::{
    ascii_lowered, chars_equal, chars_of, is_ascii_text, is_whitespace, lemma_split_on_covers, lemma_trim_unchanged,
    lowercase, push_all, split_chars, split_on, string_from_chars, to_lowercase, trim, trim_chars,
    trim_end, trim_start,
};

verus! {

/// `YYYY-MM-DD`, each field zero-padded (`format!("{y:04}-{m:02}-{d:02}")`).
pub open spec fn date_text(y: int, m: int, d: int) -> Seq<char> {
    padded_decimal(y, 4) + seq!['-'] + padded_decimal(m, 2) + seq!['-'] + padded_decimal(d, 2)
}

/// Writes `(y, m, d)` as `YYYY-MM-DD`.
pub fn format_civil(y: i32, m: u32, d: u32) -> (r: String)
    ensures
        r@ == date_text(y as int, m as int, d as int),
{
    let mut out = format_i32_padded(y, 4);
    out.push('-');
    push_all(&mut out, &format_u32_padded(m, 2));
    out.push('-');
    push_all(&mut out, &format_u32_padded(d, 2));
    string_from_chars(&out)
}

/// The `(year, month, day)` fields that `s` names, if `s` (after trimming) is
/// `YYYY-MM-DD` or `MM-DD-YYYY` with a year in 1900..=2100, a month in 1..=12
/// and a day in 1..=31.
///
/// Lengths are counted in characters. A part holding a non-ASCII character
/// never parses as a number, so the answer is the same as when lengths are
/// counted in bytes.
pub open spec fn date_fields(s: Seq<char>) -> Option<(int, int, int)> {
    let t = trim(s);
    let parts = split_on(t, '-');
    if t.len() != 10 || parts.len() != 3 {
        None
    } else if parts[0].len() != 4 && parts[2].len() != 4 {
        None
    } else {
        let ys = if parts[0].len() == 4 { parts[0] } else { parts[2] };
        let ms = if parts[0].len() == 4 { parts[1] } else { parts[0] };
        let ds = if parts[0].len() == 4 { parts[2] } else { parts[1] };
        match (parse_u32_spec(ys), parse_u32_spec(ms), parse_u32_spec(ds)) {
            (Some(y), Some(m), Some(d)) => {
                if 1900 <= y <= 2100 && 1 <= m <= 12 && 1 <= d <= 31 {
                    Some((y as int, m as int, d as int))
                } else {
                    None
                }
            },
            _ => None,
        }
    }
}

/// `s` rewritten as `YYYY-MM-DD`, when `date_fields` accepts it.
pub open spec fn normalized_date(s: Seq<char>) -> Option<Seq<char>> {
    match date_fields(s) {
        Some(f) => Some(date_text(f.0, f.1, f.2)),
        None => None,
    }
}

/// The fields of the date that `s` names; see `date_fields`.
pub fn normalize_date_fields(s: &str) -> (r: Option<(u32, u32, u32)>)
    ensures
        match r {
            Some(f) => date_fields(s@) == Some((f.0 as int, f.1 as int, f.2 as int)),
            None => date_fields(s@) is None,
        },
{
    let t = trim_chars(&chars_of(s));
    let parts = split_chars(&t, '-');
    if t.len() != 10 || parts.len() != 3 {
        return None;
    }
    let (ys, ms, ds) = if parts[0].len() == 4 {
        (&parts[0], &parts[1], &parts[2])
    } else if parts[2].len() == 4 {
        (&parts[2], &parts[0], &parts[1])
    } else {
        return None;
    };
    let y = match parse_u32(ys) {
        Some(v) => v,
        None => return None,
    };
    let m = match parse_u32(ms) {
        Some(v) => v,
        None => return None,
    };
    let d = match parse_u32(ds) {
        Some(v) => v,
        None => return None,
    };
    if !(1900 <= y && y <= 2100) || !(1 <= m && m <= 12) || !(1 <= d && d <= 31) {
        return None;
    }
    Some((y, m, d))
}

/// Normalises a date written `YYYY-MM-DD` or `MM-DD-YYYY` to `YYYY-MM-DD`.
pub fn normalize_date(s: &str) -> (r: Option<String>)
    ensures
        match r {
            Some(t) => normalized_date(s@) == Some(t@),
            None => normalized_date(s@) is None,
        },
{
    match normalize_date_fields(s) {
        Some((y, m, d)) => Some(format_civil(y as i32, m, d)),
        None => None,
    }
}

/// Whether `a` and `b` both name dates (see `date_fields`) at most
/// `threshold` days apart. A day past the end of its month counts on into
/// the next month.
pub open spec fn dates_within_days_spec(a: Seq<char>, b: Seq<char>, threshold: int) -> bool {
    match (date_fields(a), date_fields(b)) {
        (Some(x), Some(y)) => {
            let diff = day_number(x.0, x.1, x.2) - day_number(y.0, y.1, y.2);
            -threshold <= diff <= threshold
        },
        _ => false,
    }
}

/// Whether two dates are at most `threshold` days apart.
pub fn dates_within_days(a: &str, b: &str, threshold: u32) -> (r: bool)
    ensures
        r == dates_within_days_spec(a@, b@, threshold as int),
{
    let (ay, am, ad) = match normalize_date_fields(a) {
        Some(f) => f,
        None => return false,
    };
    let (by, bm, bd) = match normalize_date_fields(b) {
        Some(f) => f,
        None => return false,
    };
    let x = days_from_civil(ay as i32, am, ad);
    let y = days_from_civil(by as i32, bm, bd);
    proof {
        assert(-1_000_000 <= x <= 1_000_000) by {
            lemma_day_number_range(ay as int, am as int, ad as int);
        }
        assert(-1_000_000 <= y <= 1_000_000) by {
            lemma_day_number_range(by as int, bm as int, bd as int);
        }
    }
    let diff: i64 = x - y;
    let abs: u64 = if diff < 0 { (-diff) as u64 } else { diff as u64 };
    (abs as u32) <= threshold
}

// ---- Relative dates ---------------------------------------------------------------

/// The largest day number the system clock can give (`u64` seconds since
/// the epoch, in whole days); relative dates are resolved on every day up
/// to it.
pub open spec fn max_resolvable_day() -> int {
    (u64::MAX / 86400) as int
}

/// Day of the week of day number `z`, counted from Monday = 0
/// (1970-01-01 was a Thursday).
pub open spec fn weekday(z: int) -> int {
    (z + 3) % 7
}

/// The text of the date with day number `z`; the year is reduced to `i32` as
/// `civil_from_days` reduces it.
pub open spec fn day_text(z: int) -> Seq<char> {
    let t = date_of_day(z);
    date_text(t.0 as i32 as int, t.1, t.2)
}

/// The year of day `today`, reduced to `i32` as `civil_from_days` reduces
/// it.
pub open spec fn current_year(today: int) -> int {
    date_of_day(today).0 as i32 as int
}

/// The `i32` year before `y`, wrapping from the least `i32` to the greatest
/// as `i32` subtraction wraps.
pub open spec fn year_before(y: int) -> int {
    if y == i32::MIN {
        i32::MAX as int
    } else {
        y - 1
    }
}

/// The month before the month of day `today`, as `(year, month)`.
pub open spec fn previous_month(today: int) -> (int, int) {
    let t = date_of_day(today);
    if t.1 == 1 {
        (year_before(current_year(today)), 12)
    } else {
        (current_year(today), t.1 - 1)
    }
}

/// The number of days in `Nd` (such as `7d` or `30d`), if `key` has that form.
pub open spec fn day_offset(key: Seq<char>) -> Option<i64> {
    if key.len() > 0 && key.last() == 'd' {
        parse_i64_spec(key.drop_last())
    } else {
        None
    }
}

/// An `Nd` key names a day that can be converted to a date.
pub open spec fn offset_in_range(key: Seq<char>, today: int) -> bool {
    match day_offset(key) {
        Some(n) => today - n <= i64::MAX - 719468,
        None => true,
    }
}

/// The start date that `key` (already trimmed and lowercased) names on day
/// `today`: an absolute date, `today`, `yesterday`, `this-week` and
/// `last-week` (weeks start on Monday), `this-month` and `last-month` (the
/// first of the month), or `Nd` for `N` days ago.
pub open spec fn resolved_start(key: Seq<char>, today: int) -> Option<Seq<char>> {
    let t = date_of_day(today);
    if normalized_date(key) is Some {
        normalized_date(key)
    } else if key == "today"@ {
        Some(day_text(today))
    } else if key == "yesterday"@ {
        Some(day_text(today - 1))
    } else if key == "this-week"@ {
        Some(day_text(today - weekday(today)))
    } else if key == "last-week"@ {
        Some(day_text(today - weekday(today) - 7))
    } else if key == "this-month"@ {
        Some(date_text(current_year(today), t.1, 1))
    } else if key == "last-month"@ {
        Some(date_text(previous_month(today).0, previous_month(today).1, 1))
    } else {
        match day_offset(key) {
            Some(n) => Some(day_text(today - n)),
            None => None,
        }
    }
}

/// The end date that `key` (already trimmed and lowercased) names on day
/// `today`: weeks end on Sunday and months on their last day; other keys
/// are read again from `lowercase(trim(key))` as start dates.
pub open spec fn resolved_end(key: Seq<char>, today: int) -> Option<Seq<char>> {
    let t = date_of_day(today);
    let again = lowercase(trim(key));
    if normalized_date(key) is Some {
        normalized_date(key)
    } else if key == "this-week"@ {
        Some(day_text(today + 6 - weekday(today)))
    } else if key == "last-week"@ {
        Some(day_text(today - weekday(today) - 1))
    } else if key == "this-month"@ {
        Some(date_text(current_year(today), t.1, month_length(current_year(today), t.1)))
    } else if key == "last-month"@ {
        let p = previous_month(today);
        Some(date_text(p.0, p.1, month_length(p.0, p.1)))
    } else if offset_in_range(again, today) {
        resolved_start(again, today)
    } else {
        None
    }
}

proof fn lemma_today_month(today: int)
    ensures
        1 <= date_of_day(today).1 <= 12,
{
    lemma_date_of_day(today);
}

/// Day number `z` as `YYYY-MM-DD`.
fn day_string(z: i64) -> (r: String)
    requires
        z <= i64::MAX - 719468,
    ensures
        r@ == day_text(z as int),
{
    let (y, m, d) = civil_from_days(z);
    format_civil(y, m, d)
}

/// Resolves a start-date key (already trimmed and lowercased) on day `today`.
pub fn resolve_date_key(key: &Vec<char>, today: i64) -> (r: Option<String>)
    requires
        0 <= today <= max_resolvable_day(),
        offset_in_range(key@, today as int),
    ensures
        match r {
            Some(t) => resolved_start(key@, today as int) == Some(t@),
            None => resolved_start(key@, today as int) is None,
        },
{
    let key_str = string_from_chars(key);
    if let Some(d) = normalize_date(key_str.as_str()) {
        return Some(d);
    }
    let (ty, tm, _td) = civil_from_days(today);
    proof {
        lemma_today_month(today as int);
    }
    let dow = ((today % 7) + 3) % 7;
    if chars_equal(key, &chars_of("today")) {
        Some(day_string(today))
    } else if chars_equal(key, &chars_of("yesterday")) {
        Some(day_string(today - 1))
    } else if chars_equal(key, &chars_of("this-week")) {
        Some(day_string(today - dow))
    } else if chars_equal(key, &chars_of("last-week")) {
        Some(day_string(today - dow - 7))
    } else if chars_equal(key, &chars_of("this-month")) {
        Some(format_civil(ty, tm, 1))
    } else if chars_equal(key, &chars_of("last-month")) {
        let (y, m) = if tm == 1 { (if ty == i32::MIN { i32::MAX } else { ty - 1 }, 12) } else { (ty, tm - 1) };
        Some(format_civil(y, m, 1))
    } else if key.len() > 0 && key[key.len() - 1] == 'd' {
        let mut digits: Vec<char> = key.clone();
        digits.pop();
        assert(digits@ == key@.drop_last());
        match parse_i64(&digits) {
            Some(n) => Some(day_string(today - n)),
            None => None,
        }
    } else {
        None
    }
}

/// Resolves an end-date key (already trimmed and lowercased) on day `today`.
pub fn resolve_date_end_key(key: &Vec<char>, today: i64) -> (r: Option<String>)
    requires
        0 <= today <= max_resolvable_day(),
    ensures
        match r {
            Some(t) => resolved_end(key@, today as int) == Some(t@),
            None => resolved_end(key@, today as int) is None,
        },
        !is_period_keyword(key@) && normalized_date(key@) is None && is_ascii_text(trim(key@)) ==> lowercase(
            trim(key@),
        ) == ascii_lowered(trim(key@)),
{
    let key_str = string_from_chars(key);
    if let Some(d) = normalize_date(key_str.as_str()) {
        return Some(d);
    }
    let (ty, tm, _td) = civil_from_days(today);
    proof {
        lemma_today_month(today as int);
    }
    let dow = ((today % 7) + 3) % 7;
    if chars_equal(key, &chars_of("this-week")) {
        Some(day_string(today + (6 - dow)))
    } else if chars_equal(key, &chars_of("last-week")) {
        Some(day_string(today - dow - 1))
    } else if chars_equal(key, &chars_of("this-month")) {
        Some(format_civil(ty, tm, last_day_of_month(ty, tm)))
    } else if chars_equal(key, &chars_of("last-month")) {
        let (y, m) = if tm == 1 { (if ty == i32::MIN { i32::MAX } else { ty - 1 }, 12) } else { (ty, tm - 1) };
        Some(format_civil(y, m, last_day_of_month(y, m)))
    } else {
        let again = lowercase_trimmed(key_str.as_str());
        if offset_allows(&again, today) {
            resolve_date_key(&again, today)
        } else {
            None
        }
    }
}

/// The trimmed text of a date is ten characters, each a digit, `+` or `-`.
pub proof fn lemma_date_text_chars(s: Seq<char>)
    requires
        date_fields(s) is Some,
    ensures
        trim(s).len() == 10,
        forall|i: int| 0 <= i < trim(s).len() ==> #[trigger] trim(s)[i] == '-' || is_digit(trim(s)[i]) || trim(s)[i]
            == '+',
{
    let t = trim(s);
    let parts = split_on(t, '-');
    let ok = |c: char| is_digit(c) || c == '+';
    assert(parse_u32_spec(parts[0]) is Some && parse_u32_spec(parts[1]) is Some
        && parse_u32_spec(parts[2]) is Some);
    assert forall|k: int, i: int| 0 <= k < parts.len() && 0 <= i < parts[k].len() implies ok(
        #[trigger] parts[k][i],
    ) by {
        lemma_unsigned_text_chars(parts[k], i);
    }
    lemma_split_on_covers(t, '-', ok);
}

/// Text without whitespace at its ends that holds a character other than a
/// digit, `+` or `-` names no date.
pub proof fn lemma_not_date(s: Seq<char>, i: int)
    requires
        s.len() > 0,
        !is_whitespace(s[0]),
        !is_whitespace(s.last()),
        0 <= i < s.len(),
        !(s[i] == '-' || is_digit(s[i]) || s[i] == '+'),
    ensures
        date_fields(s) is None,
        normalized_date(s) is None,
{
    lemma_trim_unchanged(s);
    if date_fields(s) is Some {
        lemma_date_text_chars(s);
        assert(trim(s)[i] == s[i]);
    }
}

/// The text of a date holds only digits, `+` and `-`: lowercasing leaves it
/// as it is, so the key of a date argument names the same date.
proof fn lemma_date_key(s: Seq<char>)
    requires
        date_fields(s) is Some,
        is_ascii_text(trim(s)) ==> lowercase(trim(s)) == ascii_lowered(trim(s)),
    ensures
        lowercase(trim(s)) == trim(s),
        date_fields(lowercase(trim(s))) == date_fields(s),
        day_offset(lowercase(trim(s))) is None,
{
    let t = trim(s);
    lemma_date_text_chars(s);
    assert(forall|i: int| 0 <= i < t.len() ==> #[trigger] t[i] == '-' || is_digit(t[i]) || t[i] == '+');
    assert(is_ascii_text(t));
    assert(ascii_lowered(t) =~= t);
    assert(!is_whitespace(t[0]));
    assert(!is_whitespace(t.last()));
    assert(trim_start(t) == t);
    assert(trim_end(t) == t);
}

/// `lowercase(trim(s))`, the key that a date argument is matched by.
pub fn lowercase_trimmed(s: &str) -> (r: Vec<char>)
    ensures
        r@ == lowercase(trim(s@)),
        is_ascii_text(trim(s@)) ==> lowercase(trim(s@)) == ascii_lowered(trim(s@)),
{
    let t = string_from_chars(&trim_chars(&chars_of(s)));
    chars_of(to_lowercase(t.as_str()).as_str())
}

/// Whether an `Nd` key can be resolved on day `today`.
pub fn offset_allows(key: &Vec<char>, today: i64) -> (b: bool)
    requires
        0 <= today <= max_resolvable_day(),
    ensures
        b == offset_in_range(key@, today as int),
{
    if key.len() > 0 && key[key.len() - 1] == 'd' {
        let mut digits: Vec<char> = key.clone();
        digits.pop();
        assert(digits@ == key@.drop_last());
        match parse_i64(&digits) {
            Some(n) => (today as i128) - (n as i128) <= (i64::MAX as i128) - 719468,
            None => true,
        }
    } else {
        true
    }
}

/// The keywords that name a week or a month.
pub open spec fn is_period_keyword(key: Seq<char>) -> bool {
    key == "this-week"@ || key == "last-week"@ || key == "this-month"@ || key == "last-month"@
}

/// What the start key `key` (already trimmed and lowercased) names on day
/// `today`: `None` also for an `Nd` offset that no date can hold.
pub open spec fn start_on_day(key: Seq<char>, today: int) -> Option<Seq<char>> {
    if offset_in_range(key, today) {
        resolved_start(key, today)
    } else {
        None
    }
}

/// Resolves a `--from` date (absolute or relative) on day `today`; `None`
/// when it names no date, or an `Nd` offset that no date can hold.
pub fn resolve_date_on(s: &str, today: i64) -> (r: Option<String>)
    requires
        0 <= today <= max_resolvable_day(),
    ensures
        ({
            let key = lowercase(trim(s@));
            match r {
                Some(t) => offset_in_range(key, today as int) && resolved_start(key, today as int)
                    == Some(t@),
                None => !offset_in_range(key, today as int) || resolved_start(key, today as int) is None,
            }
        }),
        normalized_date(s@) is Some ==> text_option(r) == normalized_date(s@),
        text_option(r) == start_on_day(lowercase(trim(s@)), today as int),
        is_ascii_text(trim(s@)) ==> lowercase(trim(s@)) == ascii_lowered(trim(s@)),
{
    let key = lowercase_trimmed(s);
    proof {
        if date_fields(s@) is Some {
            lemma_date_key(s@);
        }
    }
    if offset_allows(&key, today) {
        resolve_date_key(&key, today)
    } else {
        None
    }
}

/// Resolves a `--to` date (absolute or relative, relative periods to their
/// last day) on day `today`.
pub fn resolve_date_end_on(s: &str, today: i64) -> (r: Option<String>)
    requires
        0 <= today <= max_resolvable_day(),
    ensures
        match r {
            Some(t) => resolved_end(lowercase(trim(s@)), today as int) == Some(t@),
            None => resolved_end(lowercase(trim(s@)), today as int) is None,
        },
        normalized_date(s@) is Some ==> text_option(r) == normalized_date(s@),
        is_ascii_text(trim(s@)) ==> lowercase(trim(s@)) == ascii_lowered(trim(s@)),
        is_ascii_text(trim(s@)) && !is_period_keyword(lowercase(trim(s@))) ==> text_option(r) == start_on_day(
            lowercase(trim(s@)),
            today as int,
        ),
{
    let key = lowercase_trimmed(s);
    let ghost k = key@;
    proof {
        if date_fields(s@) is Some {
            lemma_date_key(s@);
        }
        if is_ascii_text(trim(s@)) {
            law_key_normal_form(s@, today as int);
        }
    }
    let r = resolve_date_end_key(&key, today);
    proof {
        if is_ascii_text(trim(s@)) && !is_period_keyword(k) {
            if normalized_date(k) is None {
                law_end_of_other_keys(k, today as int);
            } else {
                lemma_date_text_chars(k);
                assert(k.last() == trim(k)[k.len() - 1]);
                assert(day_offset(k) is None);
            }
        }
    }
    r
}

/// The text of an optional string.
pub open spec fn text_option(r: Option<String>) -> Option<Seq<char>> {
    match r {
        Some(t) => Some(t@),
        None => None,
    }
}

/// `r` is what resolving the start date `s` gives when the clock reads day `today`.
pub open spec fn start_on_clock(s: Seq<char>, today: int, r: Option<Seq<char>>) -> bool {
    let key = lowercase(trim(s));
    &&& 0 <= today <= u64::MAX / 86400
    &&& if offset_in_range(key, today) {
        r == resolved_start(key, today)
    } else {
        r is None
    }
}

/// `r` is what resolving the end date `s` gives when the clock reads day `today`.
pub open spec fn end_on_clock(s: Seq<char>, today: int, r: Option<Seq<char>>) -> bool {
    &&& 0 <= today <= u64::MAX / 86400
    &&& r == resolved_end(lowercase(trim(s)), today)
}

/// `r` is what resolving the start date `s` gives: a date in one of the
/// accepted formats is itself, read before the clock; anything else is
/// resolved on the day the clock reads.
pub open spec fn start_resolved(s: Seq<char>, r: Option<Seq<char>>) -> bool {
    let key = lowercase(trim(s));
    &&& normalized_date(s) is Some ==> r == normalized_date(s)
    &&& if normalized_date(key) is Some {
        r == normalized_date(key)
    } else {
        exists|today: int| #[trigger] start_on_clock(s, today, r)
    }
}

/// `r` is what resolving the end date `s` gives, as `start_resolved` says
/// for start dates.
pub open spec fn end_resolved(s: Seq<char>, r: Option<Seq<char>>) -> bool {
    let key = lowercase(trim(s));
    &&& normalized_date(s) is Some ==> r == normalized_date(s)
    &&& if normalized_date(key) is Some {
        r == normalized_date(key)
    } else {
        exists|today: int| #[trigger] end_on_clock(s, today, r)
    }
}

/// A point in time on the system clock (`std::time::SystemTime`).
#[verifier::external_type_specification]
#[verifier::external_body]
pub struct ExSystemTime(std::time::SystemTime);

/// The current time on the system clock (`SystemTime::now`); nothing is
/// known of it.
#[verifier::external_body]
fn clock_now() -> std::time::SystemTime {
    std::time::SystemTime::now()
}

/// The time elapsed from the Unix epoch to `t` (`SystemTime::duration_since`
/// with `UNIX_EPOCH`), none when `t` is before the epoch; nothing is known of
/// the duration.
#[verifier::external_body]
fn since_unix_epoch(t: &std::time::SystemTime) -> Option<std::time::Duration> {
    t.duration_since(std::time::UNIX_EPOCH).ok()
}

/// The whole seconds of a duration (`Duration::as_secs`); nothing is known
/// of the number.
#[verifier::external_body]
fn whole_seconds(d: &std::time::Duration) -> u64 {
    d.as_secs()
}

/// The day number of a time `elapsed` whole seconds after the Unix epoch:
/// the whole days in it, zero for a time before the epoch (`None`).
pub fn days_since_epoch(elapsed: Option<u64>) -> (d: i64)
    ensures
        d == match elapsed {
            Some(s) => s / 86400,
            None => 0,
        },
{
    match elapsed {
        Some(s) => (s / 86400) as i64,
        None => 0,
    }
}

/// Today's day number on the system clock: whole days since 1970-01-01,
/// zero when the clock is set before it.
pub fn today_days() -> (d: i64)
    ensures
        0 <= d <= u64::MAX / 86400,
{
    let now = clock_now();
    let elapsed = match since_unix_epoch(&now) {
        Some(e) => Some(whole_seconds(&e)),
        None => None,
    };
    days_since_epoch(elapsed)
}

/// Resolves a `--from` date: a date in one of the accepted formats as
/// itself, without reading the clock; anything else against today's date on
/// the system clock.
pub fn resolve_date(s: &str) -> (r: Option<String>)
    ensures
        start_resolved(s@, text_option(r)),
        is_ascii_text(trim(s@)) ==> lowercase(trim(s@)) == ascii_lowered(trim(s@)),
{
    let key = lowercase_trimmed(s);
    proof {
        if date_fields(s@) is Some {
            lemma_date_key(s@);
        }
    }
    if let Some(d) = normalize_date(string_from_chars(&key).as_str()) {
        return Some(d);
    }
    let today = today_days();
    let r = resolve_date_on(s, today);
    assert(start_on_clock(s@, today as int, text_option(r)));
    r
}

/// Resolves a `--to` date: a date in one of the accepted formats as itself,
/// without reading the clock; anything else against today's date on the
/// system clock.
pub fn resolve_date_end(s: &str) -> (r: Option<String>)
    ensures
        end_resolved(s@, text_option(r)),
        is_ascii_text(trim(s@)) ==> lowercase(trim(s@)) == ascii_lowered(trim(s@)),
{
    let key = lowercase_trimmed(s);
    proof {
        if date_fields(s@) is Some {
            lemma_date_key(s@);
        }
    }
    if let Some(d) = normalize_date(string_from_chars(&key).as_str()) {
        return Some(d);
    }
    let today = today_days();
    let r = resolve_date_end_on(s, today);
    assert(end_on_clock(s@, today as int, text_option(r)));
    r
}

} // verus!
