//! Choosing transactions: the list filters and the search for likely
//! duplicates.
//!
//! Amounts are compared by whoever reads them from the service's numbers:
//! the filters take, for each transaction, whether its amount passes the
//! amount bounds, and the duplicate search takes, for each pair, whether
//! the two amounts are the same.
use vstd::prelude::*;
use crate::categories::{lookup_name, name_for, pair_views, text_or_empty};
use crate::client::{Tag, Transaction};
use crate::dates::{
    dates_within_days, dates_within_days_spec, end_resolved, normalize_date, normalized_date,
    resolve_date, resolve_date_end, start_resolved, text_option,
};
use crate::text::{chars_equal, chars_of, contains_chars, has_substring, lowercase, to_lowercase};

verus! {

/// `lowercase` of an optional text, empty text when absent.
pub open spec fn lower_or_empty(o: Option<String>) -> Seq<char> {
    lowercase(text_or_empty(o))
}

/// The characters of `lowercase(o or "")`.
pub fn lower_chars(o: &Option<String>) -> (r: Vec<char>)
    ensures
        r@ == lower_or_empty(*o),
{
    match o {
        Some(s) => chars_of(to_lowercase(s.as_str()).as_str()),
        None => {
            proof {
                reveal_strlit("");
            }
            assert(""@ =~= Seq::<char>::empty());
            chars_of(to_lowercase("").as_str())
        },
    }
}

/// The text of an optional string, empty when absent, as characters.
pub fn chars_or_empty(o: &Option<String>) -> (r: Vec<char>)
    ensures
        r@ == text_or_empty(*o),
{
    match o {
        Some(s) => chars_of(s.as_str()),
        None => Vec::new(),
    }
}

// ---- Duplicates ------------------------------------------------------------------

/// Two lowercased names are alike: both empty, or both non-empty and one
/// contains the other.
pub open spec fn names_alike(a: Seq<char>, b: Seq<char>) -> bool {
    if a.len() == 0 && b.len() == 0 {
        true
    } else if a.len() == 0 || b.len() == 0 {
        false
    } else {
        has_substring(a, b) || has_substring(b, a) || a == b
    }
}

/// Transaction `j` looks like a duplicate of transaction `i`: equal same_amount,
/// dates at most `days` apart, and alike names.
pub open spec fn looks_duplicate(
    txns: Seq<Transaction>,
    same_amount: Seq<Vec<bool>>,
    days: int,
    i: int,
    j: int,
) -> bool {
    &&& same_amount[i]@[j]
    &&& dates_within_days_spec(text_or_empty(txns[i].date), text_or_empty(txns[j].date), days)
    &&& names_alike(lower_or_empty(txns[i].name), lower_or_empty(txns[j].name))
}

/// The transactions after `i` and before `end`, not yet grouped, that look
/// like duplicates of `i`, in order.
pub open spec fn duplicates_of(
    txns: Seq<Transaction>,
    same_amount: Seq<Vec<bool>>,
    days: int,
    used: Set<int>,
    i: int,
    end: int,
) -> Seq<int>
    decreases end - i,
{
    if end <= i + 1 {
        Seq::empty()
    } else {
        let rest = duplicates_of(txns, same_amount, days, used, i, end - 1);
        let j = end - 1;
        if !used.contains(j) && looks_duplicate(txns, same_amount, days, i, j) {
            rest.push(j)
        } else {
            rest
        }
    }
}

proof fn lemma_duplicates_of_bounds(
    txns: Seq<Transaction>,
    same_amount: Seq<Vec<bool>>,
    days: int,
    used: Set<int>,
    i: int,
    end: int,
)
    ensures
        forall|k: int|
            0 <= k < duplicates_of(txns, same_amount, days, used, i, end).len() ==> i < #[trigger] duplicates_of(
                txns,
                same_amount,
                days,
                used,
                i,
                end,
            )[k] < end,
    decreases end - i,
{
    if end > i + 1 {
        lemma_duplicates_of_bounds(txns, same_amount, days, used, i, end - 1);
        let rest = duplicates_of(txns, same_amount, days, used, i, end - 1);
        let d = duplicates_of(txns, same_amount, days, used, i, end);
        assert forall|k: int| 0 <= k < d.len() implies i < #[trigger] d[k] < end by {
            if k < rest.len() {
                assert(d[k] == rest[k]);
            }
        }
    }
}

/// The groups found among the first `k` transactions, and the positions
/// grouped so far: each transaction not yet grouped, in order, collects the
/// later ungrouped transactions that look like its duplicates; a group is
/// kept when it has more than one member.
pub open spec fn duplicate_scan(
    txns: Seq<Transaction>,
    same_amount: Seq<Vec<bool>>,
    days: int,
    k: int,
) -> (Seq<Seq<int>>, Set<int>)
    decreases k,
{
    if k <= 0 {
        (Seq::empty(), Set::empty())
    } else {
        let (groups, used) = duplicate_scan(txns, same_amount, days, k - 1);
        let i = k - 1;
        if used.contains(i) {
            (groups, used)
        } else {
            let group = seq![i] + duplicates_of(txns, same_amount, days, used, i, txns.len() as int);
            if group.len() > 1 {
                (groups.push(group), used.union(group.to_set()))
            } else {
                (groups, used)
            }
        }
    }
}

/// Two transactions' names are alike once lowercased.
fn names_alike_exec(a: &Vec<char>, b: &Vec<char>) -> (r: bool)
    ensures
        r == names_alike(a@, b@),
{
    if a.len() == 0 && b.len() == 0 {
        true
    } else if a.len() == 0 || b.len() == 0 {
        false
    } else {
        contains_chars(a, b) || contains_chars(b, a) || chars_equal(a, b)
    }
}

/// Groups of likely duplicate transactions, as positions in `txns`; see
/// `duplicate_scan`. `same_amount[i][j]` says whether the amounts of
/// `txns[i]` and `txns[j]` are the same: both are numbers less than a cent
/// apart.
pub fn find_duplicate_groups(txns: &Vec<Transaction>, same_amount: &Vec<Vec<bool>>, day_threshold: u32) -> (r: Vec<Vec<usize>>)
    requires
        same_amount.len() == txns.len(),
        forall|i: int| 0 <= i < txns.len() ==> (#[trigger] same_amount@[i])@.len() == txns.len(),
    ensures
        r@.len() == duplicate_scan(txns@, same_amount@, day_threshold as int, txns@.len() as int).0.len(),
        forall|g: int| 0 <= g < r@.len() ==> (#[trigger] r@[g])@.map_values(|x: usize| x as int)
            == duplicate_scan(txns@, same_amount@, day_threshold as int, txns@.len() as int).0[g],
{
    let n = txns.len();
    let ghost th = day_threshold as int;
    let mut used: Vec<bool> = Vec::new();
    let mut k: usize = 0;
    while k < n
        invariant
            k <= n,
            used@.len() == k,
            forall|x: int| 0 <= x < k ==> !used@[x],
        decreases n - k,
    {
        used.push(false);
        k = k + 1;
    }
    let mut groups: Vec<Vec<usize>> = Vec::new();
    let mut i: usize = 0;
    while i < n
        invariant
            i <= n == txns.len() == same_amount.len(),
            forall|x: int| 0 <= x < n ==> (#[trigger] same_amount@[x])@.len() == n,
            used@.len() == n,
            th == day_threshold as int,
            ({
                let s = duplicate_scan(txns@, same_amount@, th, i as int);
                &&& groups@.len() == s.0.len()
                &&& forall|g: int| 0 <= g < groups@.len() ==> (#[trigger] groups@[g])@.map_values(|x: usize| x as int) == s.0[g]
                &&& forall|x: int| 0 <= x < n ==> (used@[x] <==> s.1.contains(x))
            }),
        decreases n - i,
    {
        let ghost s = duplicate_scan(txns@, same_amount@, th, i as int);
        if used[i] {
            i = i + 1;
            continue;
        }
        let a_date = chars_or_empty(&txns[i].date);
        let a_date_str = crate::text::string_from_chars(&a_date);
        let a_name = lower_chars(&txns[i].name);
        let mut group: Vec<usize> = Vec::new();
        group.push(i);
        let mut j: usize = i + 1;
        while j < n
            invariant
                i < j <= n == txns.len() == same_amount.len(),
                forall|x: int| 0 <= x < n ==> (#[trigger] same_amount@[x])@.len() == n,
                used@.len() == n,
                th == day_threshold as int,
                a_date_str@ == text_or_empty(txns@[i as int].date),
                a_name@ == lower_or_empty(txns@[i as int].name),
                forall|x: int| 0 <= x < n ==> (used@[x] <==> s.1.contains(x)),
                group@.map_values(|x: usize| x as int) == seq![i as int] + duplicates_of(
                    txns@,
                    same_amount@,
                    th,
                    s.1,
                    i as int,
                    j as int,
                ),
            decreases n - j,
        {
            let ghost before = group@;
            if !used[j] {
                assert(same_amount@[i as int]@.len() == n);
                if same_amount[i][j] {
                    let b_date = crate::text::string_from_chars(&chars_or_empty(&txns[j].date));
                    if dates_within_days(a_date_str.as_str(), b_date.as_str(), day_threshold) {
                        let b_name = lower_chars(&txns[j].name);
                        if names_alike_exec(&a_name, &b_name) {
                            group.push(j);
                        }
                    }
                }
            }
            assert(group@.map_values(|x: usize| x as int) == before.map_values(|x: usize| x as int)
                + if group@.len() > before.len() { seq![j as int] } else { Seq::<int>::empty() });
            j = j + 1;
        }
        let ghost gs = group@.map_values(|x: usize| x as int);
        proof {
            lemma_duplicates_of_bounds(txns@, same_amount@, th, s.1, i as int, n as int);
            let d = duplicates_of(txns@, same_amount@, th, s.1, i as int, n as int);
            assert forall|x: int| 0 <= x < gs.len() implies 0 <= #[trigger] gs[x] < n by {
                if x > 0 {
                    assert(gs[x] == d[x - 1]);
                }
            }
        }
        if group.len() > 1 {
            let mut t: usize = 0;
            while t < group.len()
                invariant
                    t <= group.len(),
                    used@.len() == n,
                    gs == group@.map_values(|x: usize| x as int),
                    forall|x: int| 0 <= x < gs.len() ==> 0 <= #[trigger] gs[x] < n,
                    forall|x: int| 0 <= x < n ==> (used@[x] <==> (s.1.contains(x) || gs.take(t as int).contains(x))),
                decreases group.len() - t,
            {
                let g = group[t];
                assert(gs[t as int] == g as int);
                used.set(g, true);
                assert(gs.take(t + 1) == gs.take(t as int).push(g as int));
                proof {
                    crate::edits::lemma_push_contains(gs.take(t as int), g as int);
                }
                t = t + 1;
            }
            assert(gs.take(gs.len() as int) == gs);
            assert forall|x: int| 0 <= x < n implies (used@[x] <==> s.1.union(gs.to_set()).contains(x)) by {
                assert(gs.to_set().contains(x) == gs.contains(x));
            }
            let ghost before_groups = groups@;
            groups.push(group);
            assert forall|g: int| 0 <= g < groups@.len() implies (#[trigger] groups@[g])@.map_values(|x: usize| x as int)
                == duplicate_scan(txns@, same_amount@, th, i + 1).0[g] by {
                if g < before_groups.len() {
                    assert(groups@[g] == before_groups[g]);
                }
            }
        }
        i = i + 1;
    }
    groups
}

// ---- Filters ----------------------------------------------------------------------

/// The filters of a transaction listing.
#[derive(Debug, Clone, PartialEq)]
pub struct TransactionFilters {
    /// Keep reviewed transactions only.
    pub reviewed: bool,
    /// Keep unreviewed transactions only.
    pub unreviewed: bool,
    pub category_id: Option<String>,
    /// Keep transactions carrying one of these tag names (case-insensitive).
    pub tags: Vec<String>,
    /// Text searched in the name, notes, category name and tag names.
    pub query: Option<String>,
    /// Exact date, `YYYY-MM-DD` or `MM-DD-YYYY`.
    pub date: Option<String>,
    /// Start date, absolute or relative.
    pub from: Option<String>,
    /// End date, absolute or relative.
    pub to: Option<String>,
    pub account_id: Option<String>,
    /// `(id, name)` of the categories, for searching by category name.
    pub category_names: Option<Vec<(String, String)>>,
}

/// `a` comes before `b` in lexicographic order of code points (the order of
/// their UTF-8 bytes).
pub open spec fn text_lt(a: Seq<char>, b: Seq<char>) -> bool {
    exists|k: int|
        0 <= k <= a.len() && k <= b.len() && #[trigger] a.take(k) == b.take(k) && ((k == a.len()
            && k < b.len()) || (k < a.len() && k < b.len() && a[k] < b[k]))
}

/// Whether `a` comes before `b` in lexicographic order.
pub fn text_less(a: &Vec<char>, b: &Vec<char>) -> (r: bool)
    ensures
        r == text_lt(a@, b@),
{
    let mut k: usize = 0;
    while k < a.len() && k < b.len() && a[k] == b[k]
        invariant
            k <= a.len(),
            k <= b.len(),
            forall|t: int| 0 <= t < k ==> a@[t] == b@[t],
        decreases a.len() - k,
    {
        k = k + 1;
    }
    assert(a@.take(k as int) =~= b@.take(k as int));
    let r = if k < a.len() && k < b.len() {
        a[k] < b[k]
    } else {
        k == a.len() && k < b.len()
    };
    if !r {
        assert forall|k2: int|
            0 <= k2 <= a@.len() && k2 <= b@.len() && #[trigger] a@.take(k2) == b@.take(k2) implies !((k2
                == a@.len() && k2 < b@.len()) || (k2 < a@.len() && k2 < b@.len() && a@[k2] < b@[k2])) by {
            if k2 > k {
                assert(a@.take(k2)[k as int] == b@.take(k2)[k as int]);
                assert(a@[k as int] == b@[k as int]);
            } else if k2 < k {
                assert(a@[k2] == b@[k2]);
            }
        }
    }
    r
}

/// The names of the tags that have one, lowercased, in order.
pub open spec fn lower_tag_names(tags: Seq<Tag>) -> Seq<Seq<char>>
    decreases tags.len(),
{
    if tags.len() == 0 {
        Seq::empty()
    } else {
        let rest = lower_tag_names(tags.drop_last());
        match tags.last().name {
            Some(n) => rest.push(lowercase(n@)),
            None => rest,
        }
    }
}

/// The lowercased tag names of an optional tag list.
pub open spec fn tag_names_of(tags: Option<Vec<Tag>>) -> Seq<Seq<char>> {
    match tags {
        Some(ts) => lower_tag_names(ts@),
        None => Seq::empty(),
    }
}

/// `parts` joined with single spaces.
pub open spec fn joined_with_spaces(parts: Seq<Seq<char>>) -> Seq<char>
    decreases parts.len(),
{
    if parts.len() == 0 {
        Seq::empty()
    } else if parts.len() == 1 {
        parts[0]
    } else {
        joined_with_spaces(parts.drop_last()) + seq![' '] + parts.last()
    }
}

/// The lowercased name of the transaction's category, empty when unknown.
pub open spec fn category_name_text(t: Transaction, names: Option<Vec<(String, String)>>) -> Seq<char> {
    match (t.category_id, names) {
        (Some(cid), Some(m)) => match lookup_name(pair_views(m@), cid@) {
            Some(n) => lowercase(n),
            None => Seq::empty(),
        },
        _ => Seq::empty(),
    }
}

/// `q` occurs in the lowercased name, notes, category name or tag names.
pub open spec fn query_hits(t: Transaction, names: Option<Vec<(String, String)>>, q: Seq<char>) -> bool {
    ||| has_substring(lower_or_empty(t.name), q)
    ||| has_substring(lower_or_empty(t.user_notes), q)
    ||| has_substring(category_name_text(t, names), q)
    ||| has_substring(joined_with_spaces(tag_names_of(t.tags)), q)
}

/// The date an exact-date filter asks for: normalised when it parses,
/// otherwise as written.
pub open spec fn wanted_date(d: Seq<char>) -> Seq<char> {
    match normalized_date(d) {
        Some(x) => x,
        None => d,
    }
}

/// The transaction carries one of the wanted (lowercased) tag names, or no
/// tag is wanted.
pub open spec fn tags_ok(tags: Option<Vec<Tag>>, wanted: Seq<Seq<char>>) -> bool {
    wanted.len() == 0 || exists|i: int, j: int|
        0 <= i < tag_names_of(tags).len() && 0 <= j < wanted.len() && #[trigger] tag_names_of(tags)[i]
            == #[trigger] wanted[j]
}

/// The lowercased texts of `v`.
pub open spec fn lowered(v: Seq<String>) -> Seq<Seq<char>> {
    v.map_values(|s: String| lowercase(s@))
}

/// Whether transaction `t` passes the filters `f`, given the resolved start
/// and end dates and whether its amount passes the amount bounds.
pub open spec fn passes(
    t: Transaction,
    amount_passes: bool,
    f: TransactionFilters,
    from: Option<Seq<char>>,
    to: Option<Seq<char>>,
) -> bool {
    let reviewed = t.is_reviewed == Some(true);
    let date = text_or_empty(t.date);
    &&& !(f.reviewed && !reviewed)
    &&& !(f.unreviewed && reviewed)
    &&& (f.category_id matches Some(c) ==> (t.category_id matches Some(x) && x@ == c@))
    &&& (f.account_id matches Some(c) ==> (t.account_id matches Some(x) && x@ == c@))
    &&& (f.query matches Some(q) ==> query_hits(t, f.category_names, lowercase(q@)))
    &&& (f.date matches Some(d) ==> date == wanted_date(d@))
    &&& (from matches Some(x) ==> !text_lt(date, x))
    &&& (to matches Some(x) ==> !text_lt(x, date))
    &&& amount_passes
    &&& tags_ok(t.tags, lowered(f.tags@))
}

/// The transactions of `items` that pass, in order.
pub open spec fn kept(
    items: Seq<Transaction>,
    amounts_pass: Seq<bool>,
    f: TransactionFilters,
    from: Option<Seq<char>>,
    to: Option<Seq<char>>,
) -> Seq<Transaction>
    decreases items.len(),
{
    if items.len() == 0 {
        Seq::empty()
    } else {
        let rest = kept(items.drop_last(), amounts_pass.drop_last(), f, from, to);
        if passes(items.last(), amounts_pass.last(), f, from, to) {
            rest.push(items.last())
        } else {
            rest
        }
    }
}

fn lower_tag_name_list(tags: &Option<Vec<Tag>>) -> (r: Vec<Vec<char>>)
    ensures
        r@.len() == tag_names_of(*tags).len(),
        forall|k: int| 0 <= k < r@.len() ==> #[trigger] r@[k]@ == tag_names_of(*tags)[k],
{
    let mut out: Vec<Vec<char>> = Vec::new();
    match tags {
        Some(ts) => {
            let mut i: usize = 0;
            while i < ts.len()
                invariant
                    i <= ts.len(),
                    out@.len() == lower_tag_names(ts@.take(i as int)).len(),
                    forall|k: int| 0 <= k < out@.len() ==> #[trigger] out@[k]@ == lower_tag_names(ts@.take(i as int))[k],
                decreases ts.len() - i,
            {
                assert(ts@.take(i + 1).drop_last() == ts@.take(i as int));
                match &ts[i].name {
                    Some(n) => {
                        out.push(chars_of(to_lowercase(n.as_str()).as_str()));
                    },
                    None => {},
                }
                i = i + 1;
            }
            assert(ts@.take(ts.len() as int) == ts@);
        },
        None => {},
    }
    out
}

fn join_spaces(parts: &Vec<Vec<char>>) -> (r: Vec<char>)
    ensures
        r@ == joined_with_spaces(parts@.map_values(|p: Vec<char>| p@)),
{
    let ghost pv = parts@.map_values(|p: Vec<char>| p@);
    let mut out: Vec<char> = Vec::new();
    let mut i: usize = 0;
    while i < parts.len()
        invariant
            i <= parts.len(),
            pv == parts@.map_values(|p: Vec<char>| p@),
            out@ == joined_with_spaces(pv.take(i as int)),
        decreases parts.len() - i,
    {
        assert(pv.take(i + 1).drop_last() == pv.take(i as int));
        if i > 0 {
            out.push(' ');
        }
        crate::text::push_all(&mut out, &parts[i]);
        i = i + 1;
    }
    assert(pv.take(parts.len() as int) == pv);
    out
}

fn category_name_chars(t: &Transaction, names: &Option<Vec<(String, String)>>) -> (r: Vec<char>)
    ensures
        r@ == category_name_text(*t, *names),
{
    match (&t.category_id, names) {
        (Some(cid), Some(m)) => match name_for(m, cid.as_str()) {
            Some(n) => chars_of(to_lowercase(n.as_str()).as_str()),
            None => Vec::new(),
        },
        _ => Vec::new(),
    }
}

fn opt_string_is(o: &Option<String>, want: &String) -> (r: bool)
    ensures
        r == (*o matches Some(x) && x@ == want@),
{
    match o {
        Some(x) => chars_equal(&chars_of(x.as_str()), &chars_of(want.as_str())),
        None => false,
    }
}

/// Whether the transaction carries one of the wanted tag names.
fn any_tag_wanted(tags: &Option<Vec<Tag>>, want_tags: &Vec<Vec<char>>, Ghost(wanted): Ghost<Seq<Seq<char>>>) -> (r: bool)
    requires
        wanted.len() == want_tags@.len(),
        forall|k: int| 0 <= k < want_tags@.len() ==> #[trigger] want_tags@[k]@ == wanted[k],
    ensures
        r == tags_ok(*tags, wanted),
{
    if want_tags.len() == 0 {
        return true;
    }
    let txn_tags = lower_tag_name_list(tags);
    let ghost names = tag_names_of(*tags);
    let mut i: usize = 0;
    while i < txn_tags.len()
        invariant
            i <= txn_tags.len(),
            txn_tags@.len() == names.len(),
            names == tag_names_of(*tags),
            forall|k: int| 0 <= k < txn_tags@.len() ==> #[trigger] txn_tags@[k]@ == names[k],
            wanted.len() == want_tags@.len(),
            forall|k: int| 0 <= k < want_tags@.len() ==> #[trigger] want_tags@[k]@ == wanted[k],
            forall|a: int, b: int| 0 <= a < i && 0 <= b < wanted.len() ==> names[a] != wanted[b],
        decreases txn_tags.len() - i,
    {
        let mut j: usize = 0;
        while j < want_tags.len()
            invariant
                i < txn_tags.len(),
                j <= want_tags.len(),
                txn_tags@.len() == names.len(),
                names == tag_names_of(*tags),
                forall|k: int| 0 <= k < txn_tags@.len() ==> #[trigger] txn_tags@[k]@ == names[k],
                wanted.len() == want_tags@.len(),
                forall|k: int| 0 <= k < want_tags@.len() ==> #[trigger] want_tags@[k]@ == wanted[k],
                forall|b: int| 0 <= b < j ==> names[i as int] != wanted[b],
            decreases want_tags.len() - j,
        {
            if chars_equal(&want_tags[j], &txn_tags[i]) {
                assert(tag_names_of(*tags)[i as int] == wanted[j as int]);
                return true;
            }
            j = j + 1;
        }
        i = i + 1;
    }
    false
}

fn passes_exec(
    t: &Transaction,
    amount_passes: bool,
    f: &TransactionFilters,
    q: &Option<Vec<char>>,
    want_tags: &Vec<Vec<char>>,
    from: &Option<Vec<char>>,
    to: &Option<Vec<char>>,
) -> (r: bool)
    requires
        f.query is Some <==> q is Some,
        f.query matches Some(x) ==> q->0@ == lowercase(x@),
        want_tags@.len() == f.tags@.len(),
        forall|k: int| 0 <= k < want_tags@.len() ==> #[trigger] want_tags@[k]@ == lowercase(f.tags@[k]@),
    ensures
        r == passes(*t, amount_passes, *f, match from { Some(x) => Some(x@), None => None }, match to {
            Some(x) => Some(x@),
            None => None,
        }),
{
    let ghost fr = match from { Some(x) => Some(x@), None => None::<Seq<char>> };
    let ghost tt = match to { Some(x) => Some(x@), None => None::<Seq<char>> };
    let reviewed = match t.is_reviewed {
        Some(b) => b,
        None => false,
    };
    if f.reviewed && !reviewed {
        return false;
    }
    if f.unreviewed && reviewed {
        return false;
    }
    if let Some(cat) = &f.category_id {
        if !opt_string_is(&t.category_id, cat) {
            return false;
        }
    }
    if let Some(acct) = &f.account_id {
        if !opt_string_is(&t.account_id, acct) {
            return false;
        }
    }
    if let Some(qq) = q {
        let name = lower_chars(&t.name);
        let notes = lower_chars(&t.user_notes);
        let cat_name = category_name_chars(t, &f.category_names);
        let names = lower_tag_name_list(&t.tags);
        assert(names@.map_values(|p: Vec<char>| p@) =~= tag_names_of(t.tags));
        let tag_str = join_spaces(&names);
        if !contains_chars(&name, qq) && !contains_chars(&notes, qq) && !contains_chars(&cat_name, qq)
            && !contains_chars(&tag_str, qq) {
            return false;
        }
    }
    let date = chars_or_empty(&t.date);
    if let Some(d) = &f.date {
        let want = match normalize_date(d.as_str()) {
            Some(x) => chars_of(x.as_str()),
            None => chars_of(d.as_str()),
        };
        if !chars_equal(&date, &want) {
            return false;
        }
    }
    if let Some(x) = from {
        if text_less(&date, x) {
            return false;
        }
    }
    if let Some(x) = to {
        if text_less(x, &date) {
            return false;
        }
    }
    if !amount_passes {
        return false;
    }
    if want_tags.len() == 0 {
        return true;
    }
    any_tag_wanted(&t.tags, want_tags, Ghost(lowered(f.tags@)))
}

/// The transactions of `items` that pass the filters `f`, in order, with
/// the start and end dates already resolved. `amounts_pass[k]` says whether
/// the amount of `items[k]` passes the amount bounds.
pub fn filter_transactions_between(
    items: Vec<Transaction>,
    amounts_pass: &Vec<bool>,
    f: &TransactionFilters,
    from_date: &Option<String>,
    to_date: &Option<String>,
) -> (r: Vec<Transaction>)
    requires
        amounts_pass.len() == items.len(),
    ensures
        r@ == kept(items@, amounts_pass@, *f, crate::categories::opt_text(*from_date), crate::categories::opt_text(*to_date)),
{
    let ghost fr = crate::categories::opt_text(*from_date);
    let ghost tt = crate::categories::opt_text(*to_date);
    let q: Option<Vec<char>> = match &f.query {
        Some(x) => Some(chars_of(to_lowercase(x.as_str()).as_str())),
        None => None,
    };
    let mut want_tags: Vec<Vec<char>> = Vec::new();
    let mut w: usize = 0;
    while w < f.tags.len()
        invariant
            w <= f.tags.len(),
            want_tags@.len() == w,
            forall|k: int| 0 <= k < w ==> #[trigger] want_tags@[k]@ == lowercase(f.tags@[k]@),
        decreases f.tags.len() - w,
    {
        want_tags.push(chars_of(to_lowercase(f.tags[w].as_str()).as_str()));
        w = w + 1;
    }
    let from: Option<Vec<char>> = match from_date {
        Some(x) => Some(chars_of(x.as_str())),
        None => None,
    };
    let to: Option<Vec<char>> = match to_date {
        Some(x) => Some(chars_of(x.as_str())),
        None => None,
    };
    let ghost all = items@;
    let mut out: Vec<Transaction> = Vec::new();
    let mut k: usize = 0;
    for t in it: items.into_iter()
        invariant
            it.seq() == all,
            k == it.index(),
            all.len() == amounts_pass@.len(),
            f.query is Some <==> q is Some,
            f.query matches Some(x) ==> q->0@ == lowercase(x@),
            want_tags@.len() == f.tags@.len(),
            forall|j: int| 0 <= j < want_tags@.len() ==> #[trigger] want_tags@[j]@ == lowercase(f.tags@[j]@),
            fr == match from { Some(x) => Some(x@), None => None::<Seq<char>> },
            tt == match to { Some(x) => Some(x@), None => None::<Seq<char>> },
            out@ == kept(all.take(k as int), amounts_pass@.take(k as int), *f, fr, tt),
    {
        assert(all.take(k + 1).drop_last() == all.take(k as int));
        assert(amounts_pass@.take(k + 1).drop_last() == amounts_pass@.take(k as int));
        let keep = passes_exec(&t, amounts_pass[k], f, &q, &want_tags, &from, &to);
        if keep {
            out.push(t);
        }
        assert(k < amounts_pass.len());
        k = k + 1;
    }
    assert(all.take(all.len() as int) == all);
    assert(amounts_pass@.take(all.len() as int) == amounts_pass@);
    out
}

/// `r` is what resolving the optional start date `s` on the clock gives.
pub open spec fn start_resolution(s: Option<String>, r: Option<Seq<char>>) -> bool {
    match s {
        Some(x) => start_resolved(x@, r),
        None => r is None,
    }
}

/// `r` is what resolving the optional end date `s` on the clock gives.
pub open spec fn end_resolution(s: Option<String>, r: Option<Seq<char>>) -> bool {
    match s {
        Some(x) => end_resolved(x@, r),
        None => r is None,
    }
}

/// The transactions of `items` that pass the filters `f`, in order; the
/// start and end dates are resolved against today's date on the system
/// clock. `amounts_pass[k]` says whether the amount of `items[k]` passes the
/// amount bounds.
pub fn filter_transactions(items: Vec<Transaction>, amounts_pass: &Vec<bool>, f: &TransactionFilters) -> (r: Vec<Transaction>)
    requires
        amounts_pass.len() == items.len(),
    ensures
        exists|fr: Option<Seq<char>>, tt: Option<Seq<char>>|
            start_resolution(f.from, fr) && end_resolution(f.to, tt) && r@ == #[trigger] kept(
                items@,
                amounts_pass@,
                *f,
                fr,
                tt,
            ),
{
    let from_date = match &f.from {
        Some(x) => resolve_date(x.as_str()),
        None => None,
    };
    let to_date = match &f.to {
        Some(x) => resolve_date_end(x.as_str()),
        None => None,
    };
    let ghost fr = text_option(from_date);
    let ghost tt = text_option(to_date);
    assert(crate::categories::opt_text(from_date) == fr);
    assert(crate::categories::opt_text(to_date) == tt);
    let r = filter_transactions_between(items, amounts_pass, f, &from_date, &to_date);
    assert(start_resolution(f.from, fr));
    assert(end_resolution(f.to, tt));
    r
}

} // verus!
