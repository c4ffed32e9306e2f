//! Category trees: flattening them, naming them, and finding a category or
//! an account by name.
use vstd::prelude::*;
use crate::client::{Account, Category, Recurring};
use crate::select::{first_where, lemma_first_where, retained};
use crate::text::{chars_of, contains_chars, lowercase, has_substring, trim, trim_chars, to_lowercase, string_from_chars, chars_equal};

verus! {

/// The text of an optional string, empty when absent (`unwrap_or_default`).
pub open spec fn text_or_empty(o: Option<String>) -> Seq<char> {
    match o {
        Some(s) => s@,
        None => Seq::empty(),
    }
}

/// The text of an optional string.
pub open spec fn opt_text(o: Option<String>) -> Option<Seq<char>> {
    match o {
        Some(s) => Some(s@),
        None => None,
    }
}

/// `o.clone().unwrap_or_default()`.
pub fn string_or_empty(o: &Option<String>) -> (r: String)
    ensures
        r@ == text_or_empty(*o),
{
    match o {
        Some(s) => s.clone(),
        None => String::new(),
    }
}

/// One category of a flattened tree.
#[derive(Debug, Clone, PartialEq)]
pub struct FlatCategory {
    pub id: String,
    pub name: String,
    pub parent_id: Option<String>,
    pub is_excluded: Option<bool>,
    pub can_be_deleted: Option<bool>,
}

/// The contents of a `FlatCategory`: id, name, parent id, excluded, deletable.
pub type FlatCategoryView = (Seq<char>, Seq<char>, Option<Seq<char>>, Option<bool>, Option<bool>);

impl View for FlatCategory {
    type V = FlatCategoryView;

    open spec fn view(&self) -> FlatCategoryView {
        (self.id@, self.name@, opt_text(self.parent_id), self.is_excluded, self.can_be_deleted)
    }
}

/// The contents of a list of flattened categories.
pub open spec fn flat_views(v: Seq<FlatCategory>) -> Seq<FlatCategoryView> {
    v.map_values(|f: FlatCategory| f@)
}

/// `cats` in depth-first order, each category before its children; children
/// only when `include_children`. Each entry records its parent's id.
pub open spec fn flatten_spec(
    cats: Seq<Category>,
    parent: Option<Seq<char>>,
    include_children: bool,
) -> Seq<FlatCategoryView>
    decreases cats,
{
    if cats.len() == 0 {
        Seq::empty()
    } else {
        let c = cats.last();
        let here = flatten_spec(cats.drop_last(), parent, include_children).push(
            (c.id@, text_or_empty(c.name), parent, c.is_excluded, c.can_be_deleted),
        );
        match c.child_categories {
            Some(children) => if include_children {
                proof {
                    assert(decreases_to!(cats => cats[cats.len() - 1]));
                }
                here + flatten_spec(children@, Some(c.id@), include_children)
            } else {
                here
            },
            None => here,
        }
    }
}

fn flatten_walk(
    out: &mut Vec<FlatCategory>,
    cats: &Vec<Category>,
    parent: &Option<String>,
    include_children: bool,
)
    ensures
        flat_views(final(out)@) == flat_views(old(out)@) + flatten_spec(
            cats@,
            opt_text(*parent),
            include_children,
        ),
    decreases cats@,
{
    let ghost start = flat_views(out@);
    let mut i: usize = 0;
    while i < cats.len()
        invariant
            i <= cats.len(),
            flat_views(out@) == start + flatten_spec(cats@.take(i as int), opt_text(*parent), include_children),
        decreases cats.len() - i,
    {
        let c = &cats[i];
        let ghost before = out@;
        out.push(
            FlatCategory {
                id: c.id.clone(),
                name: string_or_empty(&c.name),
                parent_id: parent.clone(),
                is_excluded: c.is_excluded,
                can_be_deleted: c.can_be_deleted,
            },
        );
        assert(flat_views(out@) == flat_views(before).push(out@.last()@));
        assert(cats@.take(i + 1).drop_last() == cats@.take(i as int));
        if include_children {
            match &c.child_categories {
                Some(children) => {
                    assert(decreases_to!(cats@ => cats@[i as int]));
                    flatten_walk(out, children, &Some(c.id.clone()), include_children);
                },
                None => {},
            }
        }
        i = i + 1;
    }
    assert(cats@.take(cats.len() as int) == cats@);
}

/// Flattens a category tree depth-first, each category before its children;
/// children are included only when `include_children`.
pub fn flatten_categories(categories: &Vec<Category>, include_children: bool) -> (r: Vec<FlatCategory>)
    ensures
        flat_views(r@) == flatten_spec(categories@, None, include_children),
{
    let mut out: Vec<FlatCategory> = Vec::new();
    flatten_walk(&mut out, categories, &None, include_children);
    assert(flat_views(Seq::<FlatCategory>::empty()) == Seq::<FlatCategoryView>::empty());
    out
}

// ---- Name maps -----------------------------------------------------------------

/// The `(id, name)` pairs of a flattened tree, names empty when absent.
pub open spec fn pairs_of(flat: Seq<FlatCategoryView>) -> Seq<(Seq<char>, Seq<char>)> {
    flat.map_values(|f: FlatCategoryView| (f.0, f.1))
}

/// The contents of a list of `(id, name)` pairs.
pub open spec fn pair_views(v: Seq<(String, String)>) -> Seq<(Seq<char>, Seq<char>)> {
    v.map_values(|p: (String, String)| (p.0@, p.1@))
}

/// `(id, name)` of every category of the tree, children included, in
/// depth-first order.
pub fn flatten_categories_for_lookup(categories: &Vec<Category>) -> (r: Vec<(String, String)>)
    ensures
        pair_views(r@) == pairs_of(flatten_spec(categories@, None, true)),
{
    let flat = flatten_categories(categories, true);
    let mut out: Vec<(String, String)> = Vec::new();
    let mut i: usize = 0;
    while i < flat.len()
        invariant
            i <= flat.len(),
            pair_views(out@) == pairs_of(flat_views(flat@.take(i as int))),
        decreases flat.len() - i,
    {
        let ghost before = out@;
        out.push((flat[i].id.clone(), flat[i].name.clone()));
        assert(pair_views(out@) == pair_views(before).push((flat@[i as int].id@, flat@[i as int].name@)));
        assert(flat_views(flat@.take(i + 1)) == flat_views(flat@.take(i as int)).push(flat@[i as int]@));
        i = i + 1;
    }
    assert(flat@.take(flat.len() as int) == flat@);
    out
}

/// The name a map built by inserting `pairs` in order holds for `id`: the
/// last pair with that id wins.
pub open spec fn lookup_name(pairs: Seq<(Seq<char>, Seq<char>)>, id: Seq<char>) -> Option<Seq<char>>
    decreases pairs.len(),
{
    if pairs.len() == 0 {
        None
    } else if pairs.last().0 == id {
        Some(pairs.last().1)
    } else {
        lookup_name(pairs.drop_last(), id)
    }
}

/// The name recorded for `id`; the last pair with that id wins.
pub fn name_for(pairs: &Vec<(String, String)>, id: &str) -> (r: Option<String>)
    ensures
        opt_text(r) == lookup_name(pair_views(pairs@), id@),
{
    let mut i: usize = pairs.len();
    let want = chars_of(id);
    assert(pairs@.take(i as int) == pairs@);
    while i > 0
        invariant
            i <= pairs.len(),
            want@ == id@,
            lookup_name(pair_views(pairs@), id@) == lookup_name(pair_views(pairs@.take(i as int)), id@),
        decreases i,
    {
        let ghost pre = pairs@.take(i as int);
        assert(pair_views(pre).drop_last() == pair_views(pairs@.take(i - 1)));
        if chars_equal(&chars_of(pairs[i - 1].0.as_str()), &want) {
            return Some(pairs[i - 1].1.clone());
        }
        i = i - 1;
    }
    None
}

/// `(id, name)` of every category, for looking names up by id.
pub fn category_name_map(categories: &Vec<Category>) -> (r: Vec<(String, String)>)
    ensures
        pair_views(r@) == pairs_of(flatten_spec(categories@, None, true)),
{
    flatten_categories_for_lookup(categories)
}

/// `(id, name)` of every account.
pub open spec fn account_pairs(accounts: Seq<Account>) -> Seq<(Seq<char>, Seq<char>)> {
    accounts.map_values(|a: Account| (a.id@, text_or_empty(a.name)))
}

/// `(id, name)` of every account, for looking names up by id.
pub fn account_name_map(accounts: &Vec<Account>) -> (r: Vec<(String, String)>)
    ensures
        pair_views(r@) == account_pairs(accounts@),
{
    let mut out: Vec<(String, String)> = Vec::new();
    let mut i: usize = 0;
    while i < accounts.len()
        invariant
            i <= accounts.len(),
            pair_views(out@) == account_pairs(accounts@.take(i as int)),
        decreases accounts.len() - i,
    {
        let ghost before = out@;
        out.push((accounts[i].id.clone(), string_or_empty(&accounts[i].name)));
        assert(pair_views(out@) == pair_views(before).push(
            (accounts@[i as int].id@, text_or_empty(accounts@[i as int].name)),
        ));
        assert(account_pairs(accounts@.take(i + 1)) == account_pairs(accounts@.take(i as int)).push(
            (accounts@[i as int].id@, text_or_empty(accounts@[i as int].name)),
        ));
        i = i + 1;
    }
    assert(accounts@.take(accounts.len() as int) == accounts@);
    out
}

// ---- Finding by name -------------------------------------------------------------

/// Why a name could not be resolved to an id.
#[derive(Debug, Clone, PartialEq)]
pub enum LookupError {
    /// The name is empty once trimmed and lowercased.
    Empty,
    /// Nothing matches the name.
    NotFound,
    /// More than one entry matches; the count is given.
    Ambiguous(usize),
}

/// The first step of resolving an id given directly or by name.
#[derive(Debug, Clone, PartialEq)]
pub enum NameResolution {
    /// The answer, found without looking anything up.
    Resolved(Option<String>),
    /// Look the name up with this key (the name trimmed and lowercased).
    Lookup(Vec<char>),
}

/// Starts resolving an id that is given either directly or by name: a given
/// id wins; no name means no id; otherwise the name's lookup key, unless
/// that is empty.
pub fn begin_name_resolution(id: Option<&String>, name: Option<&str>) -> (r: Result<
    NameResolution,
    LookupError,
>)
    ensures
        match id {
            Some(i) => r matches Ok(NameResolution::Resolved(Some(x))) && x@ == i@,
            None => match name {
                None => r matches Ok(NameResolution::Resolved(None)),
                Some(n) => if lowercase(trim(n@)).len() == 0 {
                    r matches Err(LookupError::Empty)
                } else {
                    r matches Ok(NameResolution::Lookup(k)) && k@ == lowercase(trim(n@))
                },
            },
        },
{
    match id {
        Some(i) => Ok(NameResolution::Resolved(Some(i.clone()))),
        None => match name {
            None => Ok(NameResolution::Resolved(None)),
            Some(n) => {
                let t = string_from_chars(&trim_chars(&chars_of(n)));
                let key = chars_of(to_lowercase(t.as_str()).as_str());
                if key.len() == 0 {
                    Err(LookupError::Empty)
                } else {
                    Ok(NameResolution::Lookup(key))
                }
            },
        },
    }
}

/// Ids of the pairs whose lowercased name equals `key`, in order.
pub open spec fn exact_name_matches(pairs: Seq<(Seq<char>, Seq<char>)>, key: Seq<char>) -> Seq<Seq<char>>
    decreases pairs.len(),
{
    if pairs.len() == 0 {
        Seq::empty()
    } else {
        let rest = exact_name_matches(pairs.drop_last(), key);
        if lowercase(pairs.last().1) == key {
            rest.push(pairs.last().0)
        } else {
            rest
        }
    }
}

/// The outcome of picking one id out of the matches `m`: the id when there
/// is exactly one, `NotFound` when there is none, `Ambiguous` with their
/// number when there are several.
pub open spec fn picked(m: Seq<Seq<char>>, r: Result<String, LookupError>) -> bool {
    match r {
        Ok(id) => m.len() == 1 && id@ == m[0],
        Err(LookupError::NotFound) => m.len() == 0,
        Err(LookupError::Ambiguous(n)) => m.len() > 1 && n == m.len(),
        Err(LookupError::Empty) => false,
    }
}

/// Ids of the categories (children included) whose lowercased name is `key`.
pub open spec fn category_matches(categories: Seq<Category>, key: Seq<char>) -> Seq<Seq<char>> {
    exact_name_matches(pairs_of(flatten_spec(categories, None, true)), key)
}

/// The single category whose lowercased name equals `key`; `NotFound` when
/// there is none and `Ambiguous` when there are several.
pub fn pick_category(key: &Vec<char>, categories: &Vec<Category>) -> (r: Result<String, LookupError>)
    ensures
        picked(category_matches(categories@, key@), r),
{
    let pairs = flatten_categories_for_lookup(categories);
    let ghost pv = pair_views(pairs@);
    let mut count: usize = 0;
    let mut first: Option<String> = None;
    let mut i: usize = 0;
    while i < pairs.len()
        invariant
            i <= pairs.len(),
            pv == pair_views(pairs@),
            count == exact_name_matches(pv.take(i as int), key@).len(),
            count <= i,
            count == 0 ==> first is None,
            count > 0 ==> (first matches Some(f) && f@ == exact_name_matches(pv.take(i as int), key@)[0]),
        decreases pairs.len() - i,
    {
        let lowered = chars_of(to_lowercase(pairs[i].1.as_str()).as_str());
        assert(pv.take(i + 1).drop_last() == pv.take(i as int));
        assert(pv.take(i + 1).last() == pv[i as int]);
        if chars_equal(&lowered, key) {
            if count == 0 {
                first = Some(pairs[i].0.clone());
            }
            count = count + 1;
        }
        i = i + 1;
    }
    assert(pv.take(pairs.len() as int) == pv);
    if count == 0 {
        Err(LookupError::NotFound)
    } else if count == 1 {
        match first {
            Some(f) => Ok(f),
            None => Err(LookupError::NotFound),
        }
    } else {
        Err(LookupError::Ambiguous(count))
    }
}

/// Ids of the accounts whose lowercased name contains `key`, in order.
pub open spec fn account_name_matches(accounts: Seq<Account>, key: Seq<char>) -> Seq<Seq<char>>
    decreases accounts.len(),
{
    if accounts.len() == 0 {
        Seq::empty()
    } else {
        let rest = account_name_matches(accounts.drop_last(), key);
        let a = accounts.last();
        match a.name {
            Some(n) => if has_substring(lowercase(n@), key) {
                rest.push(a.id@)
            } else {
                rest
            },
            None => rest,
        }
    }
}

/// The single account whose lowercased name contains `key`; `NotFound` when
/// there is none and `Ambiguous` when there are several.
pub fn pick_account(key: &Vec<char>, accounts: &Vec<Account>) -> (r: Result<String, LookupError>)
    ensures
        picked(account_name_matches(accounts@, key@), r),
{
    let mut count: usize = 0;
    let mut first: Option<String> = None;
    let mut i: usize = 0;
    while i < accounts.len()
        invariant
            i <= accounts.len(),
            count == account_name_matches(accounts@.take(i as int), key@).len(),
            count <= i,
            count == 0 ==> first is None,
            count > 0 ==> (first matches Some(f) && f@ == account_name_matches(
                accounts@.take(i as int),
                key@,
            )[0]),
        decreases accounts.len() - i,
    {
        assert(accounts@.take(i + 1).drop_last() == accounts@.take(i as int));
        let hit = match &accounts[i].name {
            Some(n) => contains_chars(&chars_of(to_lowercase(n.as_str()).as_str()), key),
            None => false,
        };
        if hit {
            if count == 0 {
                first = Some(accounts[i].id.clone());
            }
            count = count + 1;
        }
        i = i + 1;
    }
    assert(accounts@.take(accounts.len() as int) == accounts@);
    if count == 0 {
        Err(LookupError::NotFound)
    } else if count == 1 {
        match first {
            Some(f) => Ok(f),
            None => Err(LookupError::NotFound),
        }
    } else {
        Err(LookupError::Ambiguous(count))
    }
}

/// What resolving an id given directly (`id`) or by name (`name`) gives:
/// the id when given; nothing without a name; `Empty` for a name that is
/// blank once trimmed; otherwise the single match of its trimmed, lowercased
/// form among `matches`.
pub open spec fn resolution(
    id: Option<Seq<char>>,
    name: Option<Seq<char>>,
    matches: spec_fn(Seq<char>) -> Seq<Seq<char>>,
    r: Result<Option<String>, LookupError>,
) -> bool {
    match id {
        Some(i) => r matches Ok(Some(x)) && x@ == i,
        None => match name {
            None => r matches Ok(None),
            Some(n) => {
                let key = lowercase(trim(n));
                if key.len() == 0 {
                    r matches Err(LookupError::Empty)
                } else {
                    match r {
                        Ok(Some(x)) => picked(matches(key), Ok(x)),
                        Ok(None) => false,
                        Err(e) => picked(matches(key), Err(e)),
                    }
                }
            },
        },
    }
}

fn finish_resolution(found: Result<String, LookupError>) -> (r: Result<Option<String>, LookupError>)
    ensures
        match found {
            Ok(x) => r matches Ok(Some(y)) && y == x,
            Err(e) => r == Err::<Option<String>, LookupError>(e),
        },
{
    match found {
        Ok(x) => Ok(Some(x)),
        Err(e) => Err(e),
    }
}

/// The account id given directly, or the one account whose name contains
/// `account_name` (trimmed, compared lowercased). `accounts` is read only
/// when a name is looked up.
pub fn resolve_account_id(
    account_id: Option<&String>,
    account_name: Option<&str>,
    accounts: &Vec<Account>,
) -> (r: Result<Option<String>, LookupError>)
    ensures
        resolution(
            match account_id { Some(i) => Some(i@), None => None },
            match account_name { Some(n) => Some(n@), None => None },
            |key: Seq<char>| account_name_matches(accounts@, key),
            r,
        ),
{
    match begin_name_resolution(account_id, account_name) {
        Ok(NameResolution::Resolved(x)) => Ok(x),
        Ok(NameResolution::Lookup(key)) => finish_resolution(pick_account(&key, accounts)),
        Err(e) => Err(e),
    }
}

/// The category id given directly, or the one category (children included)
/// named `category_name` (trimmed, compared lowercased). `categories` is
/// read only when a name is looked up.
pub fn resolve_category_id(
    category_id: Option<&String>,
    category_name: Option<&str>,
    categories: &Vec<Category>,
) -> (r: Result<Option<String>, LookupError>)
    ensures
        resolution(
            match category_id { Some(i) => Some(i@), None => None },
            match category_name { Some(n) => Some(n@), None => None },
            |key: Seq<char>| category_matches(categories@, key),
            r,
        ),
{
    match begin_name_resolution(category_id, category_name) {
        Ok(NameResolution::Resolved(x)) => Ok(x),
        Ok(NameResolution::Lookup(key)) => finish_resolution(pick_category(&key, categories)),
        Err(e) => Err(e),
    }
}

// ---- Listing and finding accounts and categories ------------------------------------

/// Whether `accounts list` shows account `a`: hidden ones only with
/// `show_hidden`, closed ones only with `show_closed`, and only names
/// containing `name_q` and types equal to `type_q` (compared lowercased).
pub open spec fn account_listed(
    a: Account,
    show_hidden: bool,
    show_closed: bool,
    name_q: Option<Seq<char>>,
    type_q: Option<Seq<char>>,
) -> bool {
    &&& (show_hidden || a.is_user_hidden != Some(true))
    &&& (show_closed || a.is_user_closed != Some(true))
    &&& match name_q {
        Some(q) => match a.name {
            Some(n) => has_substring(lowercase(n@), lowercase(q)),
            None => false,
        },
        None => true,
    }
    &&& match type_q {
        Some(t) => match a.account_type {
            Some(x) => lowercase(x@) == lowercase(t),
            None => false,
        },
        None => true,
    }
}

fn lowered_opt(q: Option<&str>) -> (r: Option<Vec<char>>)
    ensures
        match q {
            Some(x) => r matches Some(y) && y@ == lowercase(x@),
            None => r is None,
        },
{
    match q {
        Some(x) => Some(chars_of(to_lowercase(x).as_str())),
        None => None,
    }
}

/// The accounts `accounts list` shows, in order; see `account_listed`.
pub fn filter_accounts(
    items: Vec<Account>,
    show_hidden: bool,
    show_closed: bool,
    name_contains: Option<&str>,
    account_type: Option<&str>,
) -> (r: Vec<Account>)
    ensures
        r@ == retained(
            items@,
            |a: Account|
                account_listed(
                    a,
                    show_hidden,
                    show_closed,
                    match name_contains { Some(q) => Some(q@), None => None },
                    match account_type { Some(t) => Some(t@), None => None },
                ),
        ),
{
    let ghost nq = match name_contains { Some(q) => Some(q@), None => None::<Seq<char>> };
    let ghost tq = match account_type { Some(t) => Some(t@), None => None::<Seq<char>> };
    let ghost keep = |a: Account| account_listed(a, show_hidden, show_closed, nq, tq);
    let q = lowered_opt(name_contains);
    let t = lowered_opt(account_type);
    let n: usize = items.len();
    let ghost all = items@;
    let mut out: Vec<Account> = Vec::new();
    let mut k: usize = 0;
    for a in it: items.into_iter()
        invariant
            it.seq() == all,
            all.len() == n,
            k == it.index(),
            nq == match name_contains { Some(q) => Some(q@), None => None::<Seq<char>> },
            tq == match account_type { Some(t) => Some(t@), None => None::<Seq<char>> },
            match nq { Some(x) => q matches Some(y) && y@ == lowercase(x), None => q is None },
            match tq { Some(x) => t matches Some(y) && y@ == lowercase(x), None => t is None },
            keep == |a: Account| account_listed(a, show_hidden, show_closed, nq, tq),
            out@ == retained(all.take(k as int), keep),
    {
        assert(all.take(k + 1).drop_last() == all.take(k as int));
        let hidden_ok = show_hidden || a.is_user_hidden != Some(true);
        let closed_ok = show_closed || a.is_user_closed != Some(true);
        let name_ok = match &q {
            Some(qq) => match &a.name {
                Some(nm) => contains_chars(&chars_of(to_lowercase(nm.as_str()).as_str()), qq),
                None => false,
            },
            None => true,
        };
        let type_ok = match &t {
            Some(tt) => match &a.account_type {
                Some(x) => chars_equal(&chars_of(to_lowercase(x.as_str()).as_str()), tt),
                None => false,
            },
            None => true,
        };
        if hidden_ok && closed_ok && name_ok && type_ok {
            out.push(a);
        }
        assert(k < all.len());
        k = k + 1;
    }
    assert(all.take(all.len() as int) == all);
    assert(keep =~= |a: Account|
        account_listed(
            a,
            show_hidden,
            show_closed,
            match name_contains { Some(q) => Some(q@), None => None },
            match account_type { Some(t) => Some(t@), None => None },
        ));
    out
}

/// The position of the first account with id `id`.
pub fn find_account(items: &Vec<Account>, id: &str) -> (r: Option<usize>)
    ensures
        match r {
            Some(k) => first_where(items@, |a: Account| a.id@, id@) == Some(k as int),
            None => first_where(items@, |a: Account| a.id@, id@) is None,
        },
{
    let ghost key = |a: Account| a.id@;
    let want = chars_of(id);
    let mut i: usize = 0;
    while i < items.len()
        invariant
            i <= items.len(),
            want@ == id@,
            key == |a: Account| a.id@,
            forall|j: int| 0 <= j < i ==> key(#[trigger] items@[j]) != id@,
        decreases items.len() - i,
    {
        if chars_equal(&chars_of(items[i].id.as_str()), &want) {
            proof {
                lemma_first_where(items@, key, id@, i as int);
            }
            return Some(i);
        }
        i = i + 1;
    }
    None
}

/// The flattened categories whose name, lowercased, contains `q`
/// lowercased, in order (`categories list --name-contains`).
pub fn categories_named_like(flat: Vec<FlatCategory>, q: &str) -> (r: Vec<FlatCategory>)
    ensures
        r@ == retained(flat@, |c: FlatCategory| has_substring(lowercase(c.name@), lowercase(q@))),
{
    let ghost keep = |c: FlatCategory| has_substring(lowercase(c.name@), lowercase(q@));
    let want = chars_of(to_lowercase(q).as_str());
    let n: usize = flat.len();
    let ghost all = flat@;
    let mut out: Vec<FlatCategory> = Vec::new();
    let mut k: usize = 0;
    for c in it: flat.into_iter()
        invariant
            it.seq() == all,
            all.len() == n,
            k == it.index(),
            want@ == lowercase(q@),
            keep == |c: FlatCategory| has_substring(lowercase(c.name@), lowercase(q@)),
            out@ == retained(all.take(k as int), keep),
    {
        assert(all.take(k + 1).drop_last() == all.take(k as int));
        if contains_chars(&chars_of(to_lowercase(c.name.as_str()).as_str()), &want) {
            out.push(c);
        }
        assert(k < all.len());
        k = k + 1;
    }
    assert(all.take(all.len() as int) == all);
    out
}

/// The position of the first flattened category with id `id`.
pub fn find_flat_category(flat: &Vec<FlatCategory>, id: &str) -> (r: Option<usize>)
    ensures
        match r {
            Some(k) => first_where(flat@, |c: FlatCategory| c.id@, id@) == Some(k as int),
            None => first_where(flat@, |c: FlatCategory| c.id@, id@) is None,
        },
{
    let ghost key = |c: FlatCategory| c.id@;
    let want = chars_of(id);
    let mut i: usize = 0;
    while i < flat.len()
        invariant
            i <= flat.len(),
            want@ == id@,
            key == |c: FlatCategory| c.id@,
            forall|j: int| 0 <= j < i ==> key(#[trigger] flat@[j]) != id@,
        decreases flat.len() - i,
    {
        if chars_equal(&chars_of(flat[i].id.as_str()), &want) {
            proof {
                lemma_first_where(flat@, key, id@, i as int);
            }
            return Some(i);
        }
        i = i + 1;
    }
    None
}

/// Whether `recurrings list` shows recurring payment `r`: only those of
/// category `category_q` and with names containing `name_q` (compared
/// lowercased).
pub open spec fn recurring_listed(r: Recurring, category_q: Option<Seq<char>>, name_q: Option<Seq<char>>) -> bool {
    &&& match category_q {
        Some(c) => match r.category_id {
            Some(x) => x@ == c,
            None => false,
        },
        None => true,
    }
    &&& match name_q {
        Some(q) => match r.name {
            Some(n) => has_substring(lowercase(n@), lowercase(q)),
            None => false,
        },
        None => true,
    }
}

/// The recurring payments `recurrings list` shows, in order; see
/// `recurring_listed`.
pub fn filter_recurrings(items: Vec<Recurring>, category_id: Option<&str>, name_contains: Option<&str>) -> (r: Vec<
    Recurring,
>)
    ensures
        r@ == retained(
            items@,
            |x: Recurring|
                recurring_listed(
                    x,
                    match category_id { Some(c) => Some(c@), None => None },
                    match name_contains { Some(q) => Some(q@), None => None },
                ),
        ),
{
    let ghost cq = match category_id { Some(c) => Some(c@), None => None::<Seq<char>> };
    let ghost nq = match name_contains { Some(q) => Some(q@), None => None::<Seq<char>> };
    let ghost keep = |x: Recurring| recurring_listed(x, cq, nq);
    let c = match category_id {
        Some(x) => Some(chars_of(x)),
        None => None,
    };
    let q = lowered_opt(name_contains);
    let n: usize = items.len();
    let ghost all = items@;
    let mut out: Vec<Recurring> = Vec::new();
    let mut k: usize = 0;
    for x in it: items.into_iter()
        invariant
            it.seq() == all,
            all.len() == n,
            k == it.index(),
            match cq { Some(v) => c matches Some(y) && y@ == v, None => c is None },
            match nq { Some(v) => q matches Some(y) && y@ == lowercase(v), None => q is None },
            keep == |x: Recurring| recurring_listed(x, cq, nq),
            out@ == retained(all.take(k as int), keep),
    {
        assert(all.take(k + 1).drop_last() == all.take(k as int));
        let category_ok = match &c {
            Some(cc) => match &x.category_id {
                Some(id) => chars_equal(&chars_of(id.as_str()), cc),
                None => false,
            },
            None => true,
        };
        let name_ok = match &q {
            Some(qq) => match &x.name {
                Some(nm) => contains_chars(&chars_of(to_lowercase(nm.as_str()).as_str()), qq),
                None => false,
            },
            None => true,
        };
        if category_ok && name_ok {
            out.push(x);
        }
        assert(k < all.len());
        k = k + 1;
    }
    assert(all.take(all.len() as int) == all);
    assert(keep =~= |x: Recurring|
        recurring_listed(
            x,
            match category_id { Some(c) => Some(c@), None => None },
            match name_contains { Some(q) => Some(q@), None => None },
        ));
    out
}

/// The position of the first recurring payment with id `id`.
pub fn find_recurring(items: &Vec<Recurring>, id: &str) -> (r: Option<usize>)
    ensures
        match r {
            Some(k) => first_where(items@, |x: Recurring| x.id@, id@) == Some(k as int),
            None => first_where(items@, |x: Recurring| x.id@, id@) is None,
        },
{
    let ghost key = |x: Recurring| x.id@;
    let want = chars_of(id);
    let mut i: usize = 0;
    while i < items.len()
        invariant
            i <= items.len(),
            want@ == id@,
            key == |x: Recurring| x.id@,
            forall|j: int| 0 <= j < i ==> key(#[trigger] items@[j]) != id@,
        decreases items.len() - i,
    {
        if chars_equal(&chars_of(items[i].id.as_str()), &want) {
            proof {
                lemma_first_where(items@, key, id@, i as int);
            }
            return Some(i);
        }
        i = i + 1;
    }
    None
}

} // verus!
