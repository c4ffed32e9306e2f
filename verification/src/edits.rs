//! What edits send: the tag list after a tag update, and the identifiers
//! that address a transaction.
use vstd::prelude::*;
use crate::client::{Tag, Transaction, TransactionIdRef};
use crate::text::{chars_equal, chars_of, string_from_chars};
use crate::json::{member_index, set_member, JsonValue};
use crate::replies::{json_strings, json_text};

verus! {

/// How a tag update combines the given tags with a transaction's tags.
#[derive(Debug, Clone, PartialEq)]
pub enum TagUpdateMode {
    /// Replace the tags with the given ones.
    Replace,
    /// Add the given tags.
    Add,
    /// Remove the given tags.
    Remove,
}

/// The contents of a list of strings.
pub open spec fn texts(v: Seq<String>) -> Seq<Seq<char>> {
    v.map_values(|s: String| s@)
}

/// The tag ids of an optional tag list (empty when absent).
pub open spec fn tag_ids_of(tags: Option<Vec<Tag>>) -> Seq<Seq<char>> {
    match tags {
        Some(ts) => ts@.map_values(|t: Tag| t.id@),
        None => Seq::empty(),
    }
}

/// Membership after appending one element.
pub proof fn lemma_push_contains<A>(s: Seq<A>, a: A)
    ensures
        forall|x: A| #[trigger] s.push(a).contains(x) <==> (s.contains(x) || x == a),
{
    assert forall|x: A| #[trigger] s.push(a).contains(x) <==> (s.contains(x) || x == a) by {
        if s.contains(x) {
            let k = choose|k: int| 0 <= k < s.len() && s[k] == x;
            assert(s.push(a)[k] == x);
        }
        if x == a {
            assert(s.push(a)[s.len() as int] == x);
        }
        if s.push(a).contains(x) {
            let k = choose|k: int| 0 <= k < s.push(a).len() && s.push(a)[k] == x;
            if k < s.len() {
                assert(s[k] == x);
            }
        }
    }
}

/// Whether `s` is among `v`.
pub fn contains_text(v: &Vec<String>, s: &String) -> (b: bool)
    ensures
        b == texts(v@).contains(s@),
{
    let want = chars_of(s.as_str());
    let mut i: usize = 0;
    while i < v.len()
        invariant
            i <= v.len(),
            want@ == s@,
            forall|k: int| 0 <= k < i ==> v@[k]@ != s@,
        decreases v.len() - i,
    {
        if chars_equal(&chars_of(v[i].as_str()), &want) {
            assert(texts(v@)[i as int] == s@);
            return true;
        }
        i = i + 1;
    }
    assert forall|k: int| 0 <= k < texts(v@).len() implies texts(v@)[k] != s@ by {
        assert(texts(v@)[k] == v@[k]@);
    }
    false
}

/// The ids of an optional tag list, in order.
pub fn tag_id_list(tags: &Option<Vec<Tag>>) -> (r: Vec<String>)
    ensures
        texts(r@) == tag_ids_of(*tags),
{
    let mut out: Vec<String> = Vec::new();
    match tags {
        Some(ts) => {
            let mut i: usize = 0;
            while i < ts.len()
                invariant
                    i <= ts.len(),
                    texts(out@) == ts@.take(i as int).map_values(|t: Tag| t.id@),
                decreases ts.len() - i,
            {
                let ghost before = out@;
                out.push(ts[i].id.clone());
                assert(texts(out@) == texts(before).push(ts@[i as int].id@));
                assert(ts@.take(i + 1).map_values(|t: Tag| t.id@) == ts@.take(i as int).map_values(
                    |t: Tag| t.id@,
                ).push(ts@[i as int].id@));
                i = i + 1;
            }
            assert(ts@.take(ts.len() as int) == ts@);
        },
        None => {},
    }
    out
}

/// The tags a transaction gets from a tag update on the command line. `Replace`
/// gives the given tags as they are; `Add` and `Remove` give each id once,
/// in no particular order.
pub fn next_tag_ids(existing: &Option<Vec<Tag>>, mode: TagUpdateMode, tag_ids: &Vec<String>) -> (r: Vec<String>)
    ensures
        mode is Replace ==> texts(r@) == texts(tag_ids@),
        mode is Add ==> texts(r@).no_duplicates() && forall|x: Seq<char>|
            texts(r@).contains(x) <==> (tag_ids_of(*existing).contains(x) || texts(tag_ids@).contains(x)),
        mode is Remove ==> texts(r@).no_duplicates() && forall|x: Seq<char>|
            texts(r@).contains(x) <==> (tag_ids_of(*existing).contains(x) && !texts(tag_ids@).contains(x)),
{
    match mode {
        TagUpdateMode::Replace => tag_ids.clone(),
        TagUpdateMode::Add => {
            let current = tag_id_list(existing);
            let mut out: Vec<String> = Vec::new();
            let mut i: usize = 0;
            while i < current.len()
                invariant
                    i <= current.len(),
                    texts(out@).no_duplicates(),
                    forall|x: Seq<char>| texts(out@).contains(x) <==> texts(current@.take(i as int)).contains(x),
                decreases current.len() - i,
            {
                assert(texts(current@.take(i + 1)) == texts(current@.take(i as int)).push(current@[i as int]@));
                proof {
                    lemma_push_contains(texts(current@.take(i as int)), current@[i as int]@);
                    lemma_push_contains(texts(out@), current@[i as int]@);
                }
                if !contains_text(&out, &current[i]) {
                    let ghost before = out@;
                    out.push(current[i].clone());
                    assert(texts(out@) == texts(before).push(current@[i as int]@));
                }
                i = i + 1;
            }
            assert(current@.take(current.len() as int) == current@);
            let mut j: usize = 0;
            while j < tag_ids.len()
                invariant
                    j <= tag_ids.len(),
                    texts(current@) == tag_ids_of(*existing),
                    texts(out@).no_duplicates(),
                    forall|x: Seq<char>| texts(out@).contains(x) <==> (texts(current@).contains(x)
                        || texts(tag_ids@.take(j as int)).contains(x)),
                decreases tag_ids.len() - j,
            {
                assert(texts(tag_ids@.take(j + 1)) == texts(tag_ids@.take(j as int)).push(tag_ids@[j as int]@));
                proof {
                    lemma_push_contains(texts(tag_ids@.take(j as int)), tag_ids@[j as int]@);
                    lemma_push_contains(texts(out@), tag_ids@[j as int]@);
                }
                if !contains_text(&out, &tag_ids[j]) {
                    let ghost before = out@;
                    out.push(tag_ids[j].clone());
                    assert(texts(out@) == texts(before).push(tag_ids@[j as int]@));
                }
                j = j + 1;
            }
            assert(tag_ids@.take(tag_ids.len() as int) == tag_ids@);
            out
        },
        TagUpdateMode::Remove => {
            let current = tag_id_list(existing);
            let mut out: Vec<String> = Vec::new();
            let mut i: usize = 0;
            while i < current.len()
                invariant
                    i <= current.len(),
                    texts(out@).no_duplicates(),
                    forall|x: Seq<char>| texts(out@).contains(x) <==> (texts(current@.take(i as int)).contains(x)
                        && !texts(tag_ids@).contains(x)),
                decreases current.len() - i,
            {
                assert(texts(current@.take(i + 1)) == texts(current@.take(i as int)).push(current@[i as int]@));
                proof {
                    lemma_push_contains(texts(current@.take(i as int)), current@[i as int]@);
                    lemma_push_contains(texts(out@), current@[i as int]@);
                }
                if !contains_text(&out, &current[i]) && !contains_text(tag_ids, &current[i]) {
                    let ghost before = out@;
                    out.push(current[i].clone());
                    assert(texts(out@) == texts(before).push(current@[i as int]@));
                }
                i = i + 1;
            }
            assert(current@.take(current.len() as int) == current@);
            out
        },
    }
}

/// `base` followed by each of `added` that is not already there.
pub open spec fn appended_unique(base: Seq<Seq<char>>, added: Seq<Seq<char>>) -> Seq<Seq<char>>
    decreases added.len(),
{
    if added.len() == 0 {
        base
    } else {
        let r = appended_unique(base, added.drop_last());
        if r.contains(added.last()) {
            r
        } else {
            r.push(added.last())
        }
    }
}

/// `base` without the elements of `removed`, order kept.
pub open spec fn without(base: Seq<Seq<char>>, removed: Seq<Seq<char>>) -> Seq<Seq<char>>
    decreases base.len(),
{
    if base.len() == 0 {
        Seq::empty()
    } else {
        let r = without(base.drop_last(), removed);
        if removed.contains(base.last()) {
            r
        } else {
            r.push(base.last())
        }
    }
}

/// The tags a transaction gets from a tag update requested by a tool call:
/// `"add"` appends the given ids not already present, `"remove"` drops the
/// given ids and keeps the order of the rest, any other mode replaces the
/// tags with the given ids.
pub fn tool_next_tag_ids(existing: &Option<Vec<Tag>>, mode: &str, tag_ids: &Vec<String>) -> (r: Vec<String>)
    ensures
        texts(r@) == if mode@ == "add"@ {
            appended_unique(tag_ids_of(*existing), texts(tag_ids@))
        } else if mode@ == "remove"@ {
            without(tag_ids_of(*existing), texts(tag_ids@))
        } else {
            texts(tag_ids@)
        },
{
    let m = chars_of(mode);
    if chars_equal(&m, &chars_of("add")) {
        let mut out = tag_id_list(existing);
        let mut j: usize = 0;
        while j < tag_ids.len()
            invariant
                j <= tag_ids.len(),
                texts(out@) == appended_unique(tag_ids_of(*existing), texts(tag_ids@.take(j as int))),
            decreases tag_ids.len() - j,
        {
            assert(texts(tag_ids@.take(j + 1)).drop_last() == texts(tag_ids@.take(j as int)));
            if !contains_text(&out, &tag_ids[j]) {
                let ghost before = out@;
                out.push(tag_ids[j].clone());
                assert(texts(out@) == texts(before).push(tag_ids@[j as int]@));
            }
            j = j + 1;
        }
        assert(tag_ids@.take(tag_ids.len() as int) == tag_ids@);
        out
    } else if chars_equal(&m, &chars_of("remove")) {
        let current = tag_id_list(existing);
        let mut out: Vec<String> = Vec::new();
        let mut i: usize = 0;
        while i < current.len()
            invariant
                i <= current.len(),
                texts(out@) == without(texts(current@.take(i as int)), texts(tag_ids@)),
            decreases current.len() - i,
        {
            assert(texts(current@.take(i + 1)).drop_last() == texts(current@.take(i as int)));
            if !contains_text(tag_ids, &current[i]) {
                let ghost before = out@;
                out.push(current[i].clone());
                assert(texts(out@) == texts(before).push(current@[i as int]@));
            }
            i = i + 1;
        }
        assert(current@.take(current.len() as int) == current@);
        out
    } else {
        tag_ids.clone()
    }
}

// ---- Transaction references -----------------------------------------------------

/// Which identifier a transaction lacks for an edit.
#[derive(Debug, Clone, PartialEq)]
pub enum MissingId {
    ItemId,
    AccountId,
}

/// The item and account ids of a transaction; the item id is checked first.
pub fn require_item_and_account(txn: &Transaction) -> (r: Result<(String, String), MissingId>)
    ensures
        match (txn.item_id, txn.account_id) {
            (Some(item), Some(account)) => r matches Ok(p) && p.0@ == item@ && p.1@ == account@,
            (None, _) => r matches Err(MissingId::ItemId),
            (Some(_), None) => r matches Err(MissingId::AccountId),
        },
{
    let item_id = match &txn.item_id {
        Some(i) => i.clone(),
        None => return Err(MissingId::ItemId),
    };
    let account_id = match &txn.account_id {
        Some(a) => a.clone(),
        None => return Err(MissingId::AccountId),
    };
    Ok((item_id, account_id))
}

/// The contents of a reference: account id, transaction id, item id.
pub open spec fn ref_view(r: TransactionIdRef) -> (Seq<char>, Seq<char>, Seq<char>) {
    (r.account_id@, r.id@, r.item_id@)
}

/// A transaction has both an item id and an account id.
pub open spec fn has_ids(t: Transaction) -> bool {
    t.item_id is Some && t.account_id is Some
}

/// The reference that addresses a transaction that has both ids.
pub open spec fn ref_of(t: Transaction) -> (Seq<char>, Seq<char>, Seq<char>) {
    (t.account_id.unwrap()@, t.id@, t.item_id.unwrap()@)
}

/// References to all of `txns`, in order; the first transaction that lacks
/// an id gives the error, with its id.
pub fn build_transaction_id_refs(txns: &Vec<Transaction>) -> (r: Result<Vec<TransactionIdRef>, (String, MissingId)>)
    ensures
        match r {
            Ok(refs) => (forall|k: int| 0 <= k < txns@.len() ==> has_ids(#[trigger] txns@[k]))
                && refs@.len() == txns@.len() && forall|k: int|
                0 <= k < refs@.len() ==> ref_view(#[trigger] refs@[k]) == ref_of(txns@[k]),
            Err((id, missing)) => exists|k: int|
                0 <= k < txns@.len() && !has_ids(#[trigger] txns@[k]) && (forall|j: int|
                    0 <= j < k ==> has_ids(#[trigger] txns@[j])) && id@ == txns@[k].id@ && if txns@[k].item_id is None {
                    missing is ItemId
                } else {
                    missing is AccountId
                },
        },
{
    let mut out: Vec<TransactionIdRef> = Vec::new();
    let mut i: usize = 0;
    while i < txns.len()
        invariant
            i <= txns.len(),
            out@.len() == i,
            forall|k: int| 0 <= k < i ==> has_ids(#[trigger] txns@[k]),
            forall|k: int| 0 <= k < i ==> ref_view(#[trigger] out@[k]) == ref_of(txns@[k]),
        decreases txns.len() - i,
    {
        match require_item_and_account(&txns[i]) {
            Ok((item_id, account_id)) => {
                out.push(TransactionIdRef { account_id, id: txns[i].id.clone(), item_id });
            },
            Err(missing) => {
                return Err((txns[i].id.clone(), missing));
            },
        }
        i = i + 1;
    }
    Ok(out)
}

/// Index of the first transaction with id `id`.
pub open spec fn first_with_id(txns: Seq<Transaction>, id: Seq<char>) -> Option<int> {
    if exists|k: int| 0 <= k < txns.len() && (#[trigger] txns[k]).id@ == id {
        Some(
            choose|k: int|
                0 <= k < txns.len() && (#[trigger] txns[k]).id@ == id && forall|j: int|
                    0 <= j < k ==> (#[trigger] txns[j]).id@ != id,
        )
    } else {
        None
    }
}

proof fn lemma_first_with_id(txns: Seq<Transaction>, id: Seq<char>, k: int)
    requires
        0 <= k < txns.len(),
        txns[k].id@ == id,
        forall|j: int| 0 <= j < k ==> (#[trigger] txns[j]).id@ != id,
    ensures
        first_with_id(txns, id) == Some(k),
{
    let c = choose|c: int|
        0 <= c < txns.len() && (#[trigger] txns[c]).id@ == id && forall|j: int|
            0 <= j < c ==> (#[trigger] txns[j]).id@ != id;
    if c < k {
        assert(txns[c].id@ != id);
    }
    if k < c {
        assert(txns[k].id@ != id);
    }
}

/// The position of the first transaction with id `id`.
pub fn find_transaction(txns: &Vec<Transaction>, id: &String) -> (r: Option<usize>)
    ensures
        match r {
            Some(k) => first_with_id(txns@, id@) == Some(k as int) && k < txns@.len() && txns@[k as int].id@ == id@,
            None => first_with_id(txns@, id@) is None,
        },
{
    let want = chars_of(id.as_str());
    let mut i: usize = 0;
    while i < txns.len()
        invariant
            i <= txns.len(),
            want@ == id@,
            forall|j: int| 0 <= j < i ==> (#[trigger] txns@[j]).id@ != id@,
        decreases txns.len() - i,
    {
        if chars_equal(&chars_of(txns[i].id.as_str()), &want) {
            proof {
                lemma_first_with_id(txns@, id@, i as int);
            }
            return Some(i);
        }
        i = i + 1;
    }
    None
}

/// The reference to the first transaction with id `id`, when it has both ids.
pub open spec fn resolved_ref(txns: Seq<Transaction>, id: Seq<char>) -> Option<(Seq<char>, Seq<char>, Seq<char>)> {
    match first_with_id(txns, id) {
        Some(p) => if has_ids(txns[p]) { Some(ref_of(txns[p])) } else { None },
        None => None,
    }
}

/// `e` is the error for an id that does not resolve.
pub open spec fn ref_failure(txns: Seq<Transaction>, id: Seq<char>, e: RefError) -> bool {
    match first_with_id(txns, id) {
        None => e matches RefError::NotFound(x) && x@ == id,
        Some(p) => if txns[p].account_id is None {
            e is MissingAccountId
        } else {
            txns[p].item_id is None && e is MissingItemId
        },
    }
}

/// Why a tool could not address a transaction.
#[derive(Debug, Clone, PartialEq)]
pub enum RefError {
    /// No listed transaction has this id.
    NotFound(String),
    MissingAccountId,
    MissingItemId,
}

/// References to the first listed transaction with each of `ids`, in the
/// order of `ids`. The first id that fails gives the error: not found, or
/// the account id, then the item id, missing.
pub fn resolve_transaction_refs(ids: &Vec<String>, txns: &Vec<Transaction>) -> (r: Result<Vec<TransactionIdRef>, RefError>)
    ensures
        match r {
            Ok(refs) => refs@.len() == ids@.len() && forall|k: int|
                0 <= k < ids@.len() ==> #[trigger] resolved_ref(txns@, ids@[k]@) == Some(ref_view(refs@[k])),
            Err(e) => exists|k: int|
                0 <= k < ids@.len() && (forall|j: int| 0 <= j < k ==> (#[trigger] resolved_ref(txns@, ids@[j]@)) is Some)
                    && ref_failure(txns@, ids@[k]@, e),
        },
{
    let mut out: Vec<TransactionIdRef> = Vec::new();
    let mut i: usize = 0;
    while i < ids.len()
        invariant
            i <= ids.len(),
            out@.len() == i,
            forall|k: int| 0 <= k < i ==> #[trigger] resolved_ref(txns@, ids@[k]@) == Some(ref_view(out@[k])),
        decreases ids.len() - i,
    {
        let p = match find_transaction(txns, &ids[i]) {
            Some(p) => p,
            None => return Err(RefError::NotFound(ids[i].clone())),
        };
        let txn = &txns[p];
        let account_id = match &txn.account_id {
            Some(a) => a.clone(),
            None => return Err(RefError::MissingAccountId),
        };
        let item_id = match &txn.item_id {
            Some(it) => it.clone(),
            None => return Err(RefError::MissingItemId),
        };
        out.push(TransactionIdRef { account_id, id: txn.id.clone(), item_id });
        i = i + 1;
    }
    Ok(out)
}

// ---- What an edit sends ------------------------------------------------------------

fn text_key(s: &str) -> (r: String)
    ensures
        r@ == s@,
{
    string_from_chars(&chars_of(s))
}

/// The edit input `{"categoryId": id}`.
pub fn category_edit_input(category_id: &str) -> (r: JsonValue)
    ensures
        r matches JsonValue::Object(m) && m@.len() == 1 && m@[0].0@ == "categoryId"@ && json_text(
            m@[0].1,
            Some(category_id@),
        ),
{
    JsonValue::Object(vec![(text_key("categoryId"), JsonValue::String(text_key(category_id)))])
}

/// The edit input `{"tagIds": [...]}` with the given ids in order.
pub fn tags_edit_input(tag_ids: &Vec<String>) -> (r: JsonValue)
    ensures
        r matches JsonValue::Object(m) && m@.len() == 1 && m@[0].0@ == "tagIds"@ && (m@[0].1 matches JsonValue::Array(
            items,
        ) && json_strings(items@, texts(tag_ids@))),
{
    let mut items: Vec<JsonValue> = Vec::new();
    let mut i: usize = 0;
    while i < tag_ids.len()
        invariant
            i <= tag_ids.len(),
            json_strings(items@, texts(tag_ids@.take(i as int))),
        decreases tag_ids.len() - i,
    {
        let ghost before = items@;
        items.push(JsonValue::String(tag_ids[i].clone()));
        assert(texts(tag_ids@.take(i + 1)) == texts(tag_ids@.take(i as int)).push(tag_ids@[i as int]@));
        assert forall|k: int| 0 <= k < items@.len() implies (#[trigger] items@[k] matches JsonValue::String(x) && x@
            == texts(tag_ids@.take(i + 1))[k]) by {
            if k < before.len() {
                assert(items@[k] == before[k]);
            }
        }
        i = i + 1;
    }
    assert(tag_ids@.take(tag_ids.len() as int) == tag_ids@);
    JsonValue::Object(vec![(text_key("tagIds"), JsonValue::Array(items))])
}

/// The notes a `set-notes` command writes: empty text when clearing,
/// otherwise the given notes; `None` when neither is asked for.
pub fn notes_edit_input(clear: bool, notes: &Option<String>) -> (r: Option<JsonValue>)
    ensures
        !clear && notes is None ==> r is None,
        clear ==> (r matches Some(JsonValue::Object(m)) && m@.len() == 1 && m@[0].0@ == "userNotes"@ && json_text(
            m@[0].1,
            Some(Seq::empty()),
        )),
        !clear && notes is Some ==> (r matches Some(JsonValue::Object(m)) && m@.len() == 1 && m@[0].0@ == "userNotes"@
            && json_text(m@[0].1, Some(notes->0@))),
{
    if clear {
        Some(JsonValue::Object(vec![(text_key("userNotes"), JsonValue::String(String::new()))]))
    } else {
        match notes {
            Some(n) => Some(JsonValue::Object(vec![(text_key("userNotes"), JsonValue::String(n.clone()))])),
            None => None,
        }
    }
}

/// The notes a tool call writes: the given notes, or `null` to clear them.
pub fn tool_notes_input(notes: Option<String>) -> (r: JsonValue)
    ensures
        r matches JsonValue::Object(m) && m@.len() == 1 && m@[0].0@ == "userNotes"@ && json_text(
            m@[0].1,
            match notes { Some(n) => Some(n@), None => None },
        ),
{
    let v = match notes {
        Some(n) => JsonValue::String(n),
        None => JsonValue::Null,
    };
    JsonValue::Object(vec![(text_key("userNotes"), v)])
}

/// Whether a tag update names the tags it needs: adding and removing need
/// at least one tag.
pub fn tag_update_has_ids(mode: &TagUpdateMode, tag_ids: &Vec<String>) -> (ok: bool)
    ensures
        ok == !((*mode is Add || *mode is Remove) && tag_ids@.len() == 0),
{
    match mode {
        TagUpdateMode::Replace => true,
        _ => tag_ids.len() > 0,
    }
}

/// The input of a generic edit: the given JSON object with its `type`
/// member set to `txn_type` when one is given; `None` when the input is not
/// an object.
pub fn edit_input(input: JsonValue, txn_type: Option<&str>) -> (r: Option<JsonValue>)
    ensures
        !(input is Object) ==> r is None,
        input matches JsonValue::Object(members) ==> match txn_type {
            None => r == Some(input),
            Some(t) => r matches Some(JsonValue::Object(out)) && match member_index(members@, "type"@) {
                Some(i) => out@.len() == members@.len() && out@[i].0@ == "type"@ && json_text(out@[i].1, Some(t@))
                    && forall|j: int| 0 <= j < out@.len() && j != i ==> #[trigger] out@[j] == members@[j],
                None => out@.len() == members@.len() + 1 && out@.subrange(0, members@.len() as int) == members@
                    && out@[members@.len() as int].0@ == "type"@ && json_text(out@[members@.len() as int].1, Some(t@)),
            },
        },
{
    match input {
        JsonValue::Object(members) => match txn_type {
            None => Some(JsonValue::Object(members)),
            Some(t) => Some(JsonValue::Object(set_member(members, "type", JsonValue::String(text_key(t))))),
        },
        _ => None,
    }
}

} // verus!
