//! Paging through transactions: the decisions between page requests, for a
//! listing and for finding transactions by id. The caller fetches each page
//! and hands it over.
use vstd::prelude::*;
use crate::client::{PageInfo, Transaction, TransactionsPage};
use crate::edits::{contains_text, find_transaction, first_with_id, texts};

verus! {

/// `o.clone()` for an optional string.
pub fn clone_opt(o: &Option<String>) -> (r: Option<String>)
    ensures
        crate::categories::opt_text(r) == crate::categories::opt_text(*o),
{
    match o {
        Some(s) => Some(s.clone()),
        None => None,
    }
}

// ---- Listing pages ------------------------------------------------------------

/// The state of fetching a listing page by page.
#[derive(Debug, Clone, PartialEq)]
pub struct PageFetch {
    /// Transactions of the pages fetched so far, in order.
    pub transactions: Vec<Transaction>,
    /// The cursor to ask the next page after.
    pub cursor: Option<String>,
    /// The cursor information of the last page fetched.
    pub last_page_info: Option<PageInfo>,
    /// How many pages have been fetched.
    pub pages_fetched: usize,
    /// How many pages may be fetched at most.
    pub max_pages: usize,
}

impl PageFetch {
    /// Starts a listing after cursor `after`: `pages` pages (at least one),
    /// or as many as there are when `all`.
    pub fn start(after: Option<String>, pages: usize, all: bool) -> (r: PageFetch)
        ensures
            r.transactions@.len() == 0,
            r.cursor == after,
            r.last_page_info is None,
            r.pages_fetched == 0,
            r.max_pages == if all { usize::MAX as int } else if pages < 1 { 1 } else { pages as int },
    {
        PageFetch {
            transactions: Vec::new(),
            cursor: after,
            last_page_info: None,
            pages_fetched: 0,
            max_pages: if all { usize::MAX } else if pages < 1 { 1 } else { pages },
        }
    }
}

/// Takes in one fetched page: its transactions are appended, its end cursor
/// becomes the cursor and its cursor information the last one. Returns
/// whether to fetch another page: the page says there is a next one, it
/// gave a cursor, and the page limit is not reached.
pub fn page_fetch_step(state: &mut PageFetch, page: TransactionsPage) -> (more: bool)
    requires
        old(state).pages_fetched < old(state).max_pages,
    ensures
        final(state).transactions@ == old(state).transactions@ + page.transactions@,
        crate::categories::opt_text(final(state).cursor) == crate::categories::opt_text(page.page_info.end_cursor),
        final(state).last_page_info == Some(page.page_info),
        final(state).pages_fetched == old(state).pages_fetched + 1,
        final(state).max_pages == old(state).max_pages,
        more == (page.page_info.has_next_page == Some(true) && page.page_info.end_cursor is Some
            && final(state).pages_fetched < final(state).max_pages),
{
    let TransactionsPage { transactions, page_info } = page;
    let mut transactions = transactions;
    state.cursor = clone_opt(&page_info.end_cursor);
    let has_next = match page_info.has_next_page {
        Some(b) => b,
        None => false,
    };
    let has_cursor = page_info.end_cursor.is_some();
    state.last_page_info = Some(page_info);
    state.transactions.append(&mut transactions);
    state.pages_fetched = state.pages_fetched + 1;
    has_next && has_cursor && state.pages_fetched < state.max_pages
}

/// The transactions fetched and the cursor information of the last page
/// (all fields absent when no page was fetched).
pub fn page_fetch_finish(state: PageFetch) -> (r: (Vec<Transaction>, PageInfo))
    ensures
        r.0@ == state.transactions@,
        match state.last_page_info {
            Some(p) => r.1 == p,
            None => r.1.end_cursor is None && r.1.has_next_page is None && r.1.has_previous_page is None
                && r.1.start_cursor is None,
        },
{
    let PageFetch { transactions, last_page_info, .. } = state;
    let info = match last_page_info {
        Some(p) => p,
        None => PageInfo { end_cursor: None, has_next_page: None, has_previous_page: None, start_cursor: None },
    };
    (transactions, info)
}

// ---- Finding transactions by id -----------------------------------------------

/// At most this many pages are scanned when looking transactions up by id.
pub open spec fn max_scan_pages() -> int {
    200
}

/// The state of scanning pages for transactions with given ids.
#[derive(Debug, Clone, PartialEq)]
pub struct IdScan {
    /// The wanted ids, each once.
    pub wanted: Vec<String>,
    /// One transaction per wanted id seen so far: the last one seen with
    /// that id, in the order the ids were first seen.
    pub found: Vec<Transaction>,
    /// The cursor to ask the next page after.
    pub cursor: Option<String>,
    /// How many transactions have been scanned.
    pub scanned: usize,
    /// How many pages have been scanned.
    pub pages: usize,
}

/// `ids` with later repetitions dropped.
pub open spec fn distinct(ids: Seq<Seq<char>>) -> Seq<Seq<char>>
    decreases ids.len(),
{
    if ids.len() == 0 {
        Seq::empty()
    } else {
        let rest = distinct(ids.drop_last());
        if rest.contains(ids.last()) {
            rest
        } else {
            rest.push(ids.last())
        }
    }
}

/// `found` after taking in the transactions `page`: a wanted transaction
/// replaces the one with the same id, or is appended.
pub open spec fn absorb(found: Seq<Transaction>, page: Seq<Transaction>, wanted: Seq<Seq<char>>) -> Seq<Transaction>
    decreases page.len(),
{
    if page.len() == 0 {
        found
    } else {
        let f = absorb(found, page.drop_last(), wanted);
        let t = page.last();
        if wanted.contains(t.id@) {
            match first_with_id(f, t.id@) {
                Some(p) => f.update(p, t),
                None => f.push(t),
            }
        } else {
            f
        }
    }
}

impl IdScan {
    /// Starts looking for the transactions with `ids`.
    pub fn start(ids: &Vec<String>) -> (r: IdScan)
        ensures
            texts(r.wanted@) == distinct(texts(ids@)),
            r.found@.len() == 0,
            r.cursor is None,
            r.scanned == 0,
            r.pages == 0,
    {
        let mut wanted: Vec<String> = Vec::new();
        let mut i: usize = 0;
        while i < ids.len()
            invariant
                i <= ids.len(),
                texts(wanted@) == distinct(texts(ids@.take(i as int))),
            decreases ids.len() - i,
        {
            assert(texts(ids@.take(i + 1)).drop_last() == texts(ids@.take(i as int)));
            if !contains_text(&wanted, &ids[i]) {
                let ghost before = wanted@;
                wanted.push(ids[i].clone());
                assert(texts(wanted@) == texts(before).push(ids@[i as int]@));
            }
            i = i + 1;
        }
        assert(ids@.take(ids.len() as int) == ids@);
        IdScan { wanted, found: Vec::new(), cursor: None, scanned: 0, pages: 0 }
    }
}

/// Takes in one scanned page. Returns whether to scan another: not every
/// wanted id has been found, the page says there is a next one, and fewer
/// than `max_scan_pages()` pages have been scanned.
pub fn id_scan_step(state: &mut IdScan, page: TransactionsPage) -> (more: bool)
    requires
        old(state).scanned + page.transactions@.len() <= usize::MAX,
    ensures
        final(state).found@ == absorb(old(state).found@, page.transactions@, texts(old(state).wanted@)),
        final(state).wanted == old(state).wanted,
        crate::categories::opt_text(final(state).cursor) == crate::categories::opt_text(page.page_info.end_cursor),
        final(state).scanned == old(state).scanned + page.transactions@.len(),
        final(state).pages == if old(state).pages < usize::MAX { old(state).pages + 1 } else { usize::MAX as int },
        more == (final(state).found@.len() != final(state).wanted@.len() && page.page_info.has_next_page
            == Some(true) && final(state).pages < max_scan_pages()),
{
    let TransactionsPage { transactions, page_info } = page;
    let has_next = match page_info.has_next_page {
        Some(b) => b,
        None => false,
    };
    state.cursor = clone_opt(&page_info.end_cursor);
    state.scanned = state.scanned + transactions.len();
    state.pages = if state.pages < usize::MAX { state.pages + 1 } else { usize::MAX };
    let ghost all = transactions@;
    let ghost wanted = texts(state.wanted@);
    let ghost start = state.found@;
    let ghost w0 = state.wanted;
    let ghost c0 = state.cursor;
    let ghost s0 = state.scanned;
    let ghost p0 = state.pages;
    let mut k: usize = 0;
    for t in it: transactions.into_iter()
        invariant
            it.seq() == all,
            all.len() <= usize::MAX,
            k == it.index(),
            state.wanted == w0,
            state.cursor == c0,
            state.scanned == s0,
            state.pages == p0,
            wanted == texts(state.wanted@),
            state.found@ == absorb(start, all.take(k as int), wanted),
    {
        assert(all.take(k + 1).drop_last() == all.take(k as int));
        if contains_text(&state.wanted, &t.id) {
            match find_transaction(&state.found, &t.id) {
                Some(p) => {
                    state.found.set(p, t);
                },
                None => {
                    state.found.push(t);
                },
            }
        }
        assert(k < all.len());
        k = k + 1;
    }
    assert(all.take(all.len() as int) == all);
    state.found.len() != state.wanted.len() && has_next && state.pages < 200
}

/// What remains, what is collected and which ids are missing after going
/// through the first `k` of `ids`: each id takes the found transaction with
/// that id, if one is left.
pub open spec fn collect_found(found: Seq<Transaction>, ids: Seq<Seq<char>>, k: int) -> (Seq<Transaction>, Seq<Transaction>, Seq<Seq<char>>)
    decreases k,
{
    if k <= 0 {
        (found, Seq::empty(), Seq::empty())
    } else {
        let (left, ordered, missing) = collect_found(found, ids, k - 1);
        let id = ids[k - 1];
        match first_with_id(left, id) {
            Some(p) => (left.remove(p), ordered.push(left[p]), missing),
            None => (left, ordered, missing.push(id)),
        }
    }
}

/// The transactions for `ids`, in the order of `ids`; or the ids that were
/// not found, with the number of transactions scanned.
pub fn id_scan_finish(state: IdScan, ids: &Vec<String>) -> (r: Result<Vec<Transaction>, (Vec<String>, usize)>)
    ensures
        ({
            let c = collect_found(state.found@, texts(ids@), ids@.len() as int);
            match r {
                Ok(v) => c.2.len() == 0 && v@ == c.1,
                Err((missing, scanned)) => c.2.len() > 0 && texts(missing@) == c.2 && scanned == state.scanned,
            }
        }),
{
    let IdScan { found, scanned, .. } = state;
    let mut left = found;
    let mut ordered: Vec<Transaction> = Vec::new();
    let mut missing: Vec<String> = Vec::new();
    let ghost f0 = left@;
    let ghost idv = texts(ids@);
    let mut i: usize = 0;
    while i < ids.len()
        invariant
            i <= ids.len(),
            idv == texts(ids@),
            ({
                let c = collect_found(f0, idv, i as int);
                &&& left@ == c.0
                &&& ordered@ == c.1
                &&& texts(missing@) == c.2
            }),
        decreases ids.len() - i,
    {
        match find_transaction(&left, &ids[i]) {
            Some(p) => {
                let t = left.remove(p);
                ordered.push(t);
            },
            None => {
                let ghost before = missing@;
                missing.push(ids[i].clone());
                assert(texts(missing@) == texts(before).push(ids@[i as int]@));
            },
        }
        i = i + 1;
    }
    if missing.len() > 0 {
        Err((missing, scanned))
    } else {
        Ok(ordered)
    }
}

} // verus!
