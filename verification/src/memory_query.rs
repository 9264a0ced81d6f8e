//! A query for capsules over the hash table: a token is looked up for each
//! word and tag asked for, the lists that come back are intersected, and the
//! capsules that remain are fetched and filtered.
//!
//! The query does not look anything up itself. It says which key it wants
//! next and is told what the lookup gave.

use vstd::prelude::*;
use crate::capsule::{
    capsule_matches, capsule_tokens, common, filter_tokens, intersect, matches_capsule, tokens_asked,
    tokens_for, CapsuleFilter, CapsuleFilterView,
};
use crate::codec::filter_in;
use crate::json::{array_text, items_in, string_items, string_text};
use crate::p2p::{Action, ActionView, MeshNode, MeshView};
use crate::text::union;
use crate::text::{concat, contains_text};

verus! {

/// The key under which the hash table lists the capsules that hold `token`.
pub open spec fn token_key(token: Seq<char>) -> Seq<char> {
    "token:"@ + token
}

/// The key under which the hash table holds the capsule `asset_id`.
pub open spec fn capsule_key(asset_id: Seq<char>) -> Seq<char> {
    "capsule:"@ + asset_id
}

/// The identifiers that a list of the hash table holds: the strings of the
/// array, each once; none where the value is no array.
pub open spec fn listed_ids(value: Option<Seq<char>>) -> Seq<Seq<char>> {
    match value {
        Some(v) => match items_in(v) {
            Some(items) => union(Seq::empty(), string_items(items), string_items(items).len() as int),
            None => Seq::empty(),
        },
        None => Seq::empty(),
    }
}

/// The list that holds the one address `asset_id`.
pub open spec fn single_id(asset_id: Seq<char>) -> Seq<char> {
    array_text(seq![string_text(asset_id)])
}

/// The hash table after a capsule and the first `n` of its tokens were
/// written to it, and what is to be sent for that.
pub open spec fn published(
    mesh: MeshView,
    asset_id: Seq<char>,
    capsule: Seq<char>,
    tokens: Seq<Seq<char>>,
    now: i64,
    n: int,
) -> (MeshView, Seq<ActionView>)
    decreases n,
{
    if n <= 0 {
        mesh.dht_store(capsule_key(asset_id), capsule, now)
    } else {
        let (before, sent) = published(mesh, asset_id, capsule, tokens, now, n - 1);
        let (after, more) = before.dht_store(token_key(tokens[n - 1]), single_id(asset_id), now);
        (after, sent + more)
    }
}

/// How far a query has come.
pub struct MemoryQueryView {
    pub filter: CapsuleFilterView,
    pub tokens: Seq<Seq<char>>,
    pub asked: nat,
    pub candidates: Seq<Seq<char>>,
    pub fetched: nat,
    pub results: Seq<Seq<char>>,
}

impl MemoryQueryView {
    /// No more lookups were taken in than there are tokens and candidates,
    /// and no capsule was fetched while tokens were still looked up.
    pub open spec fn wf(self) -> bool {
        &&& self.asked <= self.tokens.len()
        &&& self.fetched <= self.candidates.len()
        &&& self.asks_tokens() ==> self.fetched == 0
    }

    /// A query at its start.
    pub open spec fn start(filter: CapsuleFilterView) -> MemoryQueryView {
        MemoryQueryView {
            filter,
            tokens: filter_tokens(filter),
            asked: 0,
            candidates: Seq::empty(),
            fetched: 0,
            results: Seq::empty(),
        }
    }

    /// Tokens are still being looked up: there is one left, and no list that
    /// came back has left the candidates empty.
    pub open spec fn asks_tokens(self) -> bool {
        self.asked < self.tokens.len() && (self.asked == 0 || self.candidates.len() > 0)
    }

    /// Capsules are being fetched.
    pub open spec fn fetches(self) -> bool {
        !self.asks_tokens() && self.tokens.len() > 0 && self.fetched < self.candidates.len()
    }

    /// The key to look up next; none when the query is done.
    pub open spec fn wanted(self) -> Option<Seq<char>> {
        if self.asks_tokens() {
            Some(token_key(self.tokens[self.asked as int]))
        } else if self.fetches() {
            Some(capsule_key(self.candidates[self.fetched as int]))
        } else {
            None
        }
    }

    /// The query after the lookup of the wanted key gave `value`.
    pub open spec fn supplied(self, value: Option<Seq<char>>) -> MemoryQueryView {
        if self.asks_tokens() {
            MemoryQueryView {
                candidates: if self.asked == 0 {
                    listed_ids(value)
                } else {
                    common(self.candidates, listed_ids(value), self.candidates.len() as int)
                },
                asked: self.asked + 1,
                ..self
            }
        } else if self.fetches() {
            MemoryQueryView {
                results: match value {
                    Some(capsule) => if capsule_matches(capsule, self.filter) {
                        self.results.push(capsule)
                    } else {
                        self.results
                    },
                    None => self.results,
                },
                fetched: self.fetched + 1,
                ..self
            }
        } else {
            self
        }
    }
}

/// A query for capsules that is under way.
pub struct MemoryQuery {
    filter: CapsuleFilter,
    tokens: Vec<String>,
    asked: usize,
    candidates: Vec<String>,
    fetched: usize,
    results: Vec<String>,
}

impl View for MemoryQuery {
    type V = MemoryQueryView;

    closed spec fn view(&self) -> MemoryQueryView {
        MemoryQueryView {
            filter: self.filter@,
            tokens: self.tokens.deep_view(),
            asked: self.asked as nat,
            candidates: self.candidates.deep_view(),
            fetched: self.fetched as nat,
            results: self.results.deep_view(),
        }
    }
}

fn unique_ids(value: &Option<String>) -> (r: Vec<String>)
    ensures
        r.deep_view() == listed_ids(value.deep_view()),
{
    let mut out: Vec<String> = Vec::new();
    assert(out.deep_view() =~= Seq::<Seq<char>>::empty());
    let list = match value {
        Some(v) => match crate::json::items(v.as_str()) {
            Some(list) => crate::json::strings_among(&list),
            None => {
                return out;
            },
        },
        None => {
            return out;
        },
    };
    let mut i: usize = 0;
    while i < list.len()
        invariant
            i <= list.len(),
            out.deep_view() == union(Seq::empty(), list.deep_view(), i as int),
        decreases list.len() - i,
    {
        assert(list.deep_view()[i as int] == list[i as int]@);
        if !contains_text(&out, list[i].as_str()) {
            let ghost before = out.deep_view();
            out.push(list[i].clone());
            assert(out.deep_view() =~= before.push(list[i as int]@));
        }
        i += 1;
    }
    out
}

impl MemoryQuery {
    /// The query is well formed.
    pub open spec fn wf(&self) -> bool {
        self@.wf()
    }

    /// A query for the capsules that pass `filter`.
    pub fn new(filter: CapsuleFilter) -> (q: MemoryQuery)
        ensures
            q.wf(),
            q@ == MemoryQueryView::start(filter@),
    {
        let tokens = tokens_asked(&filter);
        let q = MemoryQuery {
            filter,
            tokens,
            asked: 0,
            candidates: Vec::new(),
            fetched: 0,
            results: Vec::new(),
        };
        assert(q.candidates.deep_view() =~= Seq::<Seq<char>>::empty());
        assert(q.results.deep_view() =~= Seq::<Seq<char>>::empty());
        q
    }

    /// A query for the capsules that pass the filter that `filter` holds.
    pub fn from_json(filter: &str) -> (q: MemoryQuery)
        ensures
            q.wf(),
            q@ == MemoryQueryView::start(filter_in(filter@)),
    {
        Self::new(CapsuleFilter::from_json(filter))
    }

    /// The key to look up next; none when the query is done.
    pub fn wanted(&self) -> (r: Option<String>)
        requires
            self.wf(),
        ensures
            r.deep_view() == self@.wanted(),
    {
        if self.asked < self.tokens.len() && (self.asked == 0 || self.candidates.len() > 0) {
            assert(self.tokens.deep_view()[self.asked as int] == self.tokens[self.asked as int]@);
            Some(concat("token:", self.tokens[self.asked].as_str()))
        } else if self.tokens.len() > 0 && self.fetched < self.candidates.len() {
            assert(self.candidates.deep_view()[self.fetched as int] == self.candidates[self.fetched as int]@);
            Some(concat("capsule:", self.candidates[self.fetched].as_str()))
        } else {
            None
        }
    }

    /// Takes in what the lookup of the wanted key gave.
    pub fn supply(&mut self, value: Option<String>)
        requires
            old(self).wf(),
        ensures
            final(self).wf(),
            final(self)@ == old(self)@.supplied(value.deep_view()),
    {
        if self.asked < self.tokens.len() && (self.asked == 0 || self.candidates.len() > 0) {
            let ids = unique_ids(&value);
            if self.asked == 0 {
                self.candidates = ids;
            } else {
                self.candidates = intersect(&self.candidates, &ids);
            }
            self.asked = self.asked + 1;
        } else if self.tokens.len() > 0 && self.fetched < self.candidates.len() {
            assert(self.candidates.deep_view()[self.fetched as int] == self.candidates[self.fetched as int]@);
            match value {
                Some(capsule) => {
                    if matches_capsule(capsule.as_str(), &self.filter) {
                        let ghost before = self.results.deep_view();
                        self.results.push(capsule);
                        assert(self.results.deep_view() =~= before.push(capsule@));
                    }
                },
                None => {},
            }
            self.fetched = self.fetched + 1;
        }
    }

    /// The capsules found so far.
    pub fn results(&self) -> (r: &Vec<String>)
        ensures
            r.deep_view() == self@.results,
    {
        &self.results
    }
}

fn single_id_text(asset_id: &str) -> (r: String)
    ensures
        r@ == single_id(asset_id@),
{
    let mut items: Vec<String> = Vec::new();
    items.push(crate::json::string(asset_id));
    assert(items.deep_view() =~= seq![string_text(asset_id@)]);
    crate::json::array(&items)
}

impl MeshNode {
    /// Begins a query over the hash table for the capsules that pass the
    /// filter that `filter` holds.
    pub fn query_memories(filter: &str) -> (q: MemoryQuery)
        ensures
            q.wf(),
            q@ == MemoryQueryView::start(filter_in(filter@)),
    {
        MemoryQuery::from_json(filter)
    }

    /// Writes a capsule to the hash table under its address, and its address
    /// under each of the tokens that the capsule is indexed by.
    pub fn publish_capsule(&mut self, asset_id: &str, capsule: &str, now: i64) -> (r: Vec<Action>)
        requires
            old(self).wf(),
        ensures
            final(self).wf(),
            (final(self)@, r.deep_view()) == published(
                old(self)@,
                asset_id@,
                capsule@,
                capsule_tokens(capsule@),
                now,
                capsule_tokens(capsule@).len() as int,
            ),
    {
        let tokens = tokens_for(capsule);
        let mut out = self.dht_store(concat("capsule:", asset_id), capsule.to_string(), now);
        let mut i: usize = 0;
        while i < tokens.len()
            invariant
                i <= tokens.len(),
                self.wf(),
                (self@, out.deep_view()) == published(
                    old(self)@,
                    asset_id@,
                    capsule@,
                    tokens.deep_view(),
                    now,
                    i as int,
                ),
            decreases tokens.len() - i,
        {
            assert(tokens.deep_view()[i as int] == tokens[i as int]@);
            let ghost before = out.deep_view();
            let mut more = self.dht_store(concat("token:", tokens[i].as_str()), single_id_text(asset_id), now);
            let ghost added = more.deep_view();
            out.append(&mut more);
            assert(out.deep_view() =~= before + added);
            i += 1;
        }
        out
    }

    /// Whether a capsule passes the filter that `filter` holds; both are
    /// given as the text of JSON documents.
    pub fn matches_capsule_filter(capsule: &str, filter: &str) -> (r: bool)
        ensures
            r == capsule_matches(capsule@, filter_in(filter@)),
    {
        matches_capsule(capsule, &CapsuleFilter::from_json(filter))
    }
}

} // verus!
