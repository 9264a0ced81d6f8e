//! Capsules: JSON documents addressed by the hash of their rendering, and the
//! inverted index from tokens to the capsules that hold them.

use vstd::prelude::*;
use crate::json::{member_of, string_member, string_list_member, with_member};
use crate::records::{Account, AccountView, LedgerEntry, LedgerEntryView};
use crate::table::{Rows, Table};
use crate::text::{ascii_lowercase, clone_opt, clone_strings, contains_text, lower_text, str_eq};
use crate::util::{tokenize, tokens_of};

verus! {

/// What a query asks of a capsule. A threshold on a capsule's confidence is a
/// matter of floating-point comparison and is applied by the caller.
#[derive(Debug)]
pub struct CapsuleFilter {
    pub capsule_type: Option<String>,
    pub tags: Vec<String>,
    pub query: Option<String>,
}

/// What a [`CapsuleFilter`] is in contracts.
pub struct CapsuleFilterView {
    pub capsule_type: Option<Seq<char>>,
    pub tags: Seq<Seq<char>>,
    pub query: Option<Seq<char>>,
}

impl View for CapsuleFilter {
    type V = CapsuleFilterView;

    open spec fn view(&self) -> CapsuleFilterView {
        CapsuleFilterView {
            capsule_type: self.capsule_type.deep_view(),
            tags: self.tags.deep_view(),
            query: self.query.deep_view(),
        }
    }
}

impl Clone for CapsuleFilter {
    fn clone(&self) -> (r: Self)
        ensures
            r@ == self@,
    {
        CapsuleFilter {
            capsule_type: clone_opt(&self.capsule_type),
            tags: clone_strings(&self.tags),
            query: clone_opt(&self.query),
        }
    }
}

/// A capsule with its address.
#[derive(Debug)]
pub struct CapsuleSnapshot {
    pub asset_id: String,
    pub capsule: String,
}

/// What a [`CapsuleSnapshot`] is in contracts.
pub struct CapsuleSnapshotView {
    pub asset_id: Seq<char>,
    pub capsule: Seq<char>,
}

impl View for CapsuleSnapshot {
    type V = CapsuleSnapshotView;

    open spec fn view(&self) -> CapsuleSnapshotView {
        CapsuleSnapshotView { asset_id: self.asset_id@, capsule: self.capsule@ }
    }
}

impl DeepView for CapsuleSnapshot {
    type V = CapsuleSnapshotView;

    open spec fn deep_view(&self) -> CapsuleSnapshotView {
        self@
    }
}

impl Clone for CapsuleSnapshot {
    fn clone(&self) -> (r: Self)
        ensures
            r@ == self@,
    {
        CapsuleSnapshot { asset_id: self.asset_id.clone(), capsule: self.capsule.clone() }
    }
}

/// Everything a store holds but its escrows and its index of tokens.
#[derive(Debug)]
pub struct Snapshot {
    pub capsules: Vec<CapsuleSnapshot>,
    pub accounts: Vec<Account>,
    pub account_index: Vec<(String, String)>,
    pub ledger: Vec<LedgerEntry>,
}

/// What a [`Snapshot`] is in contracts.
pub struct SnapshotView {
    pub capsules: Seq<CapsuleSnapshotView>,
    pub accounts: Seq<AccountView>,
    pub account_index: Seq<(Seq<char>, Seq<char>)>,
    pub ledger: Seq<LedgerEntryView>,
}

impl View for Snapshot {
    type V = SnapshotView;

    open spec fn view(&self) -> SnapshotView {
        SnapshotView {
            capsules: self.capsules.deep_view(),
            accounts: self.accounts.deep_view(),
            account_index: crate::json::member_views(self.account_index@),
            ledger: self.ledger.deep_view(),
        }
    }
}

/// Every text of `s`, lower-cased.
pub open spec fn lower_all(s: Seq<Seq<char>>) -> Seq<Seq<char>> {
    Seq::new(s.len(), |i: int| lower_text(s[i]))
}

/// The tags of a capsule: the strings of its `tags` array, lower-cased.
pub open spec fn capsule_tags(capsule: Seq<char>) -> Seq<Seq<char>> {
    match string_list_member(capsule, "tags"@) {
        Some(tags) => lower_all(tags),
        None => Seq::empty(),
    }
}

/// The tokens under which a capsule is indexed: its tags, then the tokens of
/// the rendering of its `content`.
pub open spec fn capsule_tokens(capsule: Seq<char>) -> Seq<Seq<char>> {
    capsule_tags(capsule) + match member_of(capsule, "content"@) {
        Some(content) => tokens_of(content),
        None => Seq::empty(),
    }
}

/// The `type` of a capsule; the empty text where it has none.
pub open spec fn capsule_type(capsule: Seq<char>) -> Seq<char> {
    match string_member(capsule, "type"@) {
        Some(t) => t,
        None => ""@,
    }
}

/// The tokens that a filter asks for: those of its query, then its tags.
pub open spec fn filter_tokens(f: CapsuleFilterView) -> Seq<Seq<char>> {
    (match f.query {
        Some(q) => tokens_of(q),
        None => Seq::empty(),
    }) + lower_all(f.tags)
}

/// A capsule passes when its type is the one asked for, if one is, and it
/// carries every tag asked for, letter case aside.
pub open spec fn capsule_matches(capsule: Seq<char>, f: CapsuleFilterView) -> bool {
    &&& f.capsule_type matches Some(t) ==> capsule_type(capsule) == t
    &&& forall|i: int|
        0 <= i < f.tags.len() ==> capsule_tags(capsule).contains(#[trigger] lower_all(f.tags)[i])
}

/// The identifiers listed under `token`.
pub open spec fn postings(index: Rows<Seq<Seq<char>>>, token: Seq<char>) -> Seq<Seq<char>> {
    match index.get(token) {
        Some(ids) => ids,
        None => Seq::empty(),
    }
}

/// No token twice, and under no token an identifier twice.
pub open spec fn postings_wf(index: Rows<Seq<Seq<char>>>) -> bool {
    &&& index.wf()
    &&& forall|i: int| 0 <= i < index.values.len() ==> (#[trigger] index.values[i]).no_duplicates()
}

/// The index with `id` listed under `token`, once.
pub open spec fn add_posting(index: Rows<Seq<Seq<char>>>, token: Seq<char>, id: Seq<char>) -> Rows<
    Seq<Seq<char>>,
> {
    if postings(index, token).contains(id) {
        index
    } else {
        index.put(token, postings(index, token).push(id))
    }
}

/// The index with `id` listed under each of the first `n` of `tokens`.
pub open spec fn indexed(index: Rows<Seq<Seq<char>>>, tokens: Seq<Seq<char>>, id: Seq<char>, n: int) -> Rows<
    Seq<Seq<char>>,
>
    decreases n,
{
    if n <= 0 {
        index
    } else {
        add_posting(indexed(index, tokens, id, n - 1), tokens[n - 1], id)
    }
}

/// Those of the first `n` of `a` that are also in `b`, in the order of `a`.
pub open spec fn common(a: Seq<Seq<char>>, b: Seq<Seq<char>>, n: int) -> Seq<Seq<char>>
    decreases n,
{
    if n <= 0 {
        Seq::empty()
    } else if b.contains(a[n - 1]) {
        common(a, b, n - 1).push(a[n - 1])
    } else {
        common(a, b, n - 1)
    }
}

/// The identifiers listed under every one of the first `n` of `tokens`.
pub open spec fn candidates(index: Rows<Seq<Seq<char>>>, tokens: Seq<Seq<char>>, n: int) -> Seq<Seq<char>>
    decreases n,
{
    if n <= 1 {
        postings(index, tokens[0])
    } else {
        let before = candidates(index, tokens, n - 1);
        common(before, postings(index, tokens[n - 1]), before.len() as int)
    }
}

/// Of the first `n` of `ids`, the capsules that are stored and pass the filter.
pub open spec fn found(capsules: Rows<Seq<char>>, ids: Seq<Seq<char>>, f: CapsuleFilterView, n: int) -> Seq<
    CapsuleSnapshotView,
>
    decreases n,
{
    if n <= 0 {
        Seq::empty()
    } else {
        let before = found(capsules, ids, f, n - 1);
        match capsules.get(ids[n - 1]) {
            Some(capsule) => if capsule_matches(capsule, f) {
                before.push(CapsuleSnapshotView { asset_id: ids[n - 1], capsule })
            } else {
                before
            },
            None => before,
        }
    }
}

/// Of the first `n` stored capsules, those that pass the filter.
pub open spec fn scanned(capsules: Rows<Seq<char>>, f: CapsuleFilterView, n: int) -> Seq<CapsuleSnapshotView>
    decreases n,
{
    if n <= 0 {
        Seq::empty()
    } else if capsule_matches(capsules.values[n - 1], f) {
        scanned(capsules, f, n - 1).push(
            CapsuleSnapshotView { asset_id: capsules.keys[n - 1], capsule: capsules.values[n - 1] },
        )
    } else {
        scanned(capsules, f, n - 1)
    }
}

/// What a query returns: with no token asked for, every stored capsule that
/// passes the filter; else those listed under every token that pass it.
pub open spec fn query_result(
    capsules: Rows<Seq<char>>,
    index: Rows<Seq<Seq<char>>>,
    f: CapsuleFilterView,
) -> Seq<CapsuleSnapshotView> {
    let tokens = filter_tokens(f);
    if tokens.len() == 0 {
        scanned(capsules, f, capsules.len() as int)
    } else {
        let ids = candidates(index, tokens, tokens.len() as int);
        found(capsules, ids, f, ids.len() as int)
    }
}

/// The first `n` stored capsules, each with its `content` set to `null`.
pub open spec fn stripped(capsules: Rows<Seq<char>>, n: int) -> Seq<CapsuleSnapshotView>
    decreases n,
{
    if n <= 0 {
        Seq::empty()
    } else {
        stripped(capsules, n - 1).push(
            CapsuleSnapshotView {
                asset_id: capsules.keys[n - 1],
                capsule: with_member(capsules.values[n - 1], "content"@, "null"@),
            },
        )
    }
}

/// Every text of `v`, lower-cased.
pub fn lowercase_all(v: &Vec<String>) -> (r: Vec<String>)
    ensures
        r.deep_view() == lower_all(v.deep_view()),
{
    let mut out: Vec<String> = Vec::new();
    let mut i: usize = 0;
    while i < v.len()
        invariant
            i <= v.len(),
            out.deep_view() == lower_all(v.deep_view()).take(i as int),
        decreases v.len() - i,
    {
        let ghost before = out.deep_view();
        let low = ascii_lowercase(v[i].as_str());
        assert(v.deep_view()[i as int] == v[i as int]@);
        out.push(low);
        assert(out.deep_view() =~= before.push(low@));
        assert(lower_all(v.deep_view()).take(i + 1) =~= before.push(low@));
        i += 1;
    }
    assert(lower_all(v.deep_view()).take(i as int) =~= lower_all(v.deep_view()));
    out
}

/// The tags of a capsule, lower-cased.
pub fn tags_of(capsule: &str) -> (r: Vec<String>)
    ensures
        r.deep_view() == capsule_tags(capsule@),
{
    match crate::json::get_string_list(capsule, "tags") {
        Some(tags) => lowercase_all(&tags),
        None => Vec::new(),
    }
}

/// `a` followed by `b`.
pub fn join(a: Vec<String>, b: &Vec<String>) -> (r: Vec<String>)
    ensures
        r.deep_view() == a.deep_view() + b.deep_view(),
{
    let mut out = a;
    let mut i: usize = 0;
    assert(a.deep_view() + b.deep_view().take(0) =~= a.deep_view());
    while i < b.len()
        invariant
            i <= b.len(),
            out.deep_view() == a.deep_view() + b.deep_view().take(i as int),
        decreases b.len() - i,
    {
        let ghost before = out.deep_view();
        let item = b[i].clone();
        assert(b.deep_view()[i as int] == b[i as int]@);
        out.push(item);
        assert(out.deep_view() =~= before.push(item@));
        assert(a.deep_view() + b.deep_view().take(i + 1) =~= before.push(item@));
        i += 1;
    }
    assert(b.deep_view().take(i as int) =~= b.deep_view());
    out
}

/// The tokens under which a capsule is indexed.
pub fn tokens_for(capsule: &str) -> (r: Vec<String>)
    ensures
        r.deep_view() == capsule_tokens(capsule@),
{
    let tags = tags_of(capsule);
    match crate::json::member(capsule, "content") {
        Some(content) => {
            let words = tokenize(content.as_str());
            join(tags, &words)
        },
        None => {
            assert(tags.deep_view() + Seq::<Seq<char>>::empty() =~= tags.deep_view());
            tags
        },
    }
}

/// The tokens that a filter asks for.
pub fn tokens_asked(filter: &CapsuleFilter) -> (r: Vec<String>)
    ensures
        r.deep_view() == filter_tokens(filter@),
{
    let words = match &filter.query {
        Some(q) => tokenize(q.as_str()),
        None => Vec::new(),
    };
    let tags = lowercase_all(&filter.tags);
    join(words, &tags)
}

/// Whether a capsule passes a filter.
pub fn matches_capsule(capsule: &str, filter: &CapsuleFilter) -> (r: bool)
    ensures
        r == capsule_matches(capsule@, filter@),
{
    match &filter.capsule_type {
        Some(t) => {
            let kind = match crate::json::get_string(capsule, "type") {
                Some(k) => k,
                None => "".to_string(),
            };
            if !str_eq(kind.as_str(), t.as_str()) {
                return false;
            }
        },
        None => {},
    }
    if filter.tags.len() > 0 {
        let tags = tags_of(capsule);
        let asked = lowercase_all(&filter.tags);
        let mut i: usize = 0;
        while i < asked.len()
            invariant
                i <= asked.len(),
                asked.deep_view() == lower_all(filter@.tags),
                tags.deep_view() == capsule_tags(capsule@),
                forall|j: int|
                    0 <= j < i ==> capsule_tags(capsule@).contains(#[trigger] lower_all(filter@.tags)[j]),
            decreases asked.len() - i,
        {
            if !contains_text(&tags, asked[i].as_str()) {
                assert(asked.deep_view()[i as int] == asked[i as int]@);
                assert(!capsule_tags(capsule@).contains(lower_all(filter@.tags)[i as int]));
                assert(asked.deep_view().len() == asked.len());
                assert(0 <= i < filter@.tags.len());
                return false;
            }
            assert(asked.deep_view()[i as int] == asked[i as int]@);
            i += 1;
        }
    }
    true
}

/// Adding a posting keeps the index well formed.
pub proof fn lemma_add_posting(index: Rows<Seq<Seq<char>>>, token: Seq<char>, id: Seq<char>)
    requires
        postings_wf(index),
    ensures
        postings_wf(add_posting(index, token, id)),
        postings(add_posting(index, token, id), token).contains(id),
        forall|other: Seq<char>|
            other != token ==> #[trigger] postings(add_posting(index, token, id), other) == postings(
                index,
                other,
            ),
{
    let list = postings(index, token);
    if !list.contains(id) {
        index.lemma_put(token, list.push(id));
        let after = index.put(token, list.push(id));
        assert(list.no_duplicates()) by {
            if index.has(token) {
                index.lemma_has(token);
            }
        }
        assert(list.push(id).no_duplicates());
        assert(list.push(id)[list.len() as int] == id);
    }
}

/// Lists `asset_id` under every one of `tokens`.
pub fn index_capsule(index: &mut Table<Vec<String>>, asset_id: &str, tokens: &Vec<String>)
    requires
        postings_wf(old(index)@),
    ensures
        postings_wf(final(index)@),
        final(index)@ == indexed(old(index)@, tokens.deep_view(), asset_id@, tokens.len() as int),
{
    let mut i: usize = 0;
    while i < tokens.len()
        invariant
            i <= tokens.len(),
            postings_wf(index@),
            index@ == indexed(old(index)@, tokens.deep_view(), asset_id@, i as int),
        decreases tokens.len() - i,
    {
        let token = &tokens[i];
        assert(tokens.deep_view()[i as int] == token@);
        proof {
            lemma_add_posting(index@, token@, asset_id@);
        }
        let mut ids = match index.get(token.as_str()) {
            Some(list) => clone_strings(list),
            None => Vec::new(),
        };
        assert(ids.deep_view() =~= postings(index@, token@));
        if !contains_text(&ids, asset_id) {
            let ghost before = ids.deep_view();
            ids.push(asset_id.to_string());
            assert(ids.deep_view() =~= before.push(asset_id@));
            index.put(token.clone(), ids);
        }
        i += 1;
    }
}

/// Those of `a` that are also in `b`, in the order of `a`.
pub fn intersect(a: &Vec<String>, b: &Vec<String>) -> (r: Vec<String>)
    ensures
        r.deep_view() == common(a.deep_view(), b.deep_view(), a.len() as int),
{
    let mut out: Vec<String> = Vec::new();
    let mut i: usize = 0;
    while i < a.len()
        invariant
            i <= a.len(),
            out.deep_view() == common(a.deep_view(), b.deep_view(), i as int),
        decreases a.len() - i,
    {
        assert(a.deep_view()[i as int] == a[i as int]@);
        if contains_text(b, a[i].as_str()) {
            let ghost before = out.deep_view();
            out.push(a[i].clone());
            assert(out.deep_view() =~= before.push(a[i as int]@));
        }
        i += 1;
    }
    out
}

fn postings_of(index: &Table<Vec<String>>, token: &str) -> (r: Vec<String>)
    requires
        index@.wf(),
    ensures
        r.deep_view() == postings(index@, token@),
{
    match index.get(token) {
        Some(list) => {
            let out = clone_strings(list);
            assert(out.deep_view() =~= list.deep_view());
            out
        },
        None => Vec::new(),
    }
}

/// The capsules that a query returns.
pub fn query(capsules: &Table<String>, index: &Table<Vec<String>>, filter: &CapsuleFilter) -> (r: Vec<
    CapsuleSnapshot,
>)
    requires
        capsules@.wf(),
        index@.wf(),
    ensures
        r.deep_view() == query_result(capsules@, index@, filter@),
{
    let tokens = tokens_asked(filter);
    let mut results: Vec<CapsuleSnapshot> = Vec::new();
    if tokens.len() == 0 {
        let n = capsules.len();
        let mut i: usize = 0;
        while i < n
            invariant
                i <= n,
                n == capsules@.len(),
                capsules@.wf(),
                results.deep_view() == scanned(capsules@, filter@, i as int),
            decreases n - i,
        {
            let capsule = capsules.value_at(i);
            if matches_capsule(capsule.as_str(), filter) {
                let ghost before = results.deep_view();
                let snapshot = CapsuleSnapshot {
                    asset_id: capsules.key_at(i).clone(),
                    capsule: capsule.clone(),
                };
                results.push(snapshot);
                assert(results.deep_view() =~= before.push(snapshot@));
            }
            i += 1;
        }
        return results;
    }
    assert(tokens.deep_view()[0] == tokens[0]@);
    let mut ids = postings_of(index, tokens[0].as_str());
    let mut k: usize = 1;
    while k < tokens.len()
        invariant
            1 <= k <= tokens.len(),
            index@.wf(),
            ids.deep_view() == candidates(index@, tokens.deep_view(), k as int),
        decreases tokens.len() - k,
    {
        assert(tokens.deep_view()[k as int] == tokens[k as int]@);
        let listed = postings_of(index, tokens[k].as_str());
        ids = intersect(&ids, &listed);
        k += 1;
    }
    let mut i: usize = 0;
    while i < ids.len()
        invariant
            i <= ids.len(),
            capsules@.wf(),
            results.deep_view() == found(capsules@, ids.deep_view(), filter@, i as int),
        decreases ids.len() - i,
    {
        assert(ids.deep_view()[i as int] == ids[i as int]@);
        match capsules.get(ids[i].as_str()) {
            Some(capsule) => {
                if matches_capsule(capsule.as_str(), filter) {
                    let ghost before = results.deep_view();
                    let snapshot = CapsuleSnapshot { asset_id: ids[i].clone(), capsule: capsule.clone() };
                    results.push(snapshot);
                    assert(results.deep_view() =~= before.push(snapshot@));
                }
            },
            None => {},
        }
        i += 1;
    }
    results
}

/// Every stored capsule, with its `content` set to `null`.
pub fn strip_all(capsules: &Table<String>) -> (r: Vec<CapsuleSnapshot>)
    requires
        capsules@.wf(),
    ensures
        r.deep_view() == stripped(capsules@, capsules@.len() as int),
{
    let mut out: Vec<CapsuleSnapshot> = Vec::new();
    let n = capsules.len();
    let mut i: usize = 0;
    while i < n
        invariant
            i <= n,
            n == capsules@.len(),
            capsules@.wf(),
            out.deep_view() == stripped(capsules@, i as int),
        decreases n - i,
    {
        let ghost before = out.deep_view();
        let snapshot = CapsuleSnapshot {
            asset_id: capsules.key_at(i).clone(),
            capsule: crate::json::set_member(capsules.value_at(i).as_str(), "content", "null"),
        };
        out.push(snapshot);
        assert(out.deep_view() =~= before.push(snapshot@));
        i += 1;
    }
    out
}


/// Listing an identifier under tokens keeps the index well formed, and
/// afterwards the identifier stands under each of those tokens.
pub proof fn lemma_indexed(index: Rows<Seq<Seq<char>>>, tokens: Seq<Seq<char>>, id: Seq<char>, n: int)
    requires
        postings_wf(index),
        0 <= n <= tokens.len(),
    ensures
        postings_wf(indexed(index, tokens, id, n)),
        forall|j: int|
            0 <= j < n ==> postings(indexed(index, tokens, id, n), #[trigger] tokens[j]).contains(id),
        forall|token: Seq<char>|
            postings(index, token).contains(id) ==> #[trigger] postings(
                indexed(index, tokens, id, n),
                token,
            ).contains(id),
    decreases n,
{
    if n > 0 {
        lemma_indexed(index, tokens, id, n - 1);
        let before = indexed(index, tokens, id, n - 1);
        lemma_add_posting(before, tokens[n - 1], id);
        let after = add_posting(before, tokens[n - 1], id);
        assert forall|j: int| 0 <= j < n implies postings(after, #[trigger] tokens[j]).contains(id) by {
            if tokens[j] != tokens[n - 1] {
                assert(postings(after, tokens[j]) == postings(before, tokens[j]));
            }
        }
        assert forall|token: Seq<char>| postings(index, token).contains(id) implies #[trigger] postings(
            after,
            token,
        ).contains(id) by {
            assert(postings(before, token).contains(id));
            if token != tokens[n - 1] {
                assert(postings(after, token) == postings(before, token));
            }
        }
    }
}

/// Listing an identifier where it is listed already changes nothing.
pub proof fn lemma_indexed_again(index: Rows<Seq<Seq<char>>>, tokens: Seq<Seq<char>>, id: Seq<char>, n: int)
    requires
        0 <= n <= tokens.len(),
        forall|j: int| 0 <= j < n ==> postings(index, #[trigger] tokens[j]).contains(id),
    ensures
        indexed(index, tokens, id, n) == index,
    decreases n,
{
    if n > 0 {
        lemma_indexed_again(index, tokens, id, n - 1);
        assert(postings(index, tokens[n - 1]).contains(id));
    }
}

} // verus!
