//! The overlay: peers, gossip with deduplication and bounded fan-out, and a
//! hash table spread over the peers by XOR distance.
//!
//! The node is a state machine. Whoever owns the sockets tells it what came
//! in and when, and carries out the actions that it hands back.

use vstd::prelude::*;
use crate::error::MeshError;
use crate::json::{array_text, items_in, member_of, member_views, object_text, string_member, string_text};
use crate::order::{sort_order, sorted_places};
use crate::table::{Rows, Table};
use crate::text::{clone_opt, contains_text, has_prefix, str_eq, union};
use crate::util::{clamp, clamped, hash64, hash_to_u64, random_token, shuffled_places};
use crate::wire::{plain, InboundMessage, InboundMessageView, WireMessage, WireMessageView};

verus! {

/// How wide and how deep lookups in the hash table go.
#[derive(Clone, Copy, Debug)]
pub struct DhtConfig {
    pub k: usize,
    pub alpha: usize,
    pub max_hops: i32,
}

/// What the node knows of a connected peer.
#[derive(Debug)]
pub struct Peer {
    pub rtt: Option<i64>,
    pub addr: String,
}

/// What a [`Peer`] is in contracts.
pub struct PeerView {
    pub rtt: Option<i64>,
    pub addr: Seq<char>,
}

impl View for Peer {
    type V = PeerView;

    open spec fn view(&self) -> PeerView {
        PeerView { rtt: self.rtt, addr: self.addr@ }
    }
}

impl DeepView for Peer {
    type V = PeerView;

    open spec fn deep_view(&self) -> PeerView {
        self@
    }
}

/// A ping that has not been answered yet.
#[derive(Debug)]
pub struct PendingPing {
    pub peer_id: String,
    pub sent_at: i64,
}

/// What a [`PendingPing`] is in contracts.
pub struct PendingPingView {
    pub peer_id: Seq<char>,
    pub sent_at: i64,
}

impl View for PendingPing {
    type V = PendingPingView;

    open spec fn view(&self) -> PendingPingView {
        PendingPingView { peer_id: self.peer_id@, sent_at: self.sent_at }
    }
}

impl DeepView for PendingPing {
    type V = PendingPingView;

    open spec fn deep_view(&self) -> PendingPingView {
        self@
    }
}

/// The way back of a lookup: the peer that it came from, and when.
#[derive(Debug)]
pub struct Route {
    pub peer_id: String,
    pub noted_at: i64,
}

/// What a [`Route`] is in contracts.
pub struct RouteView {
    pub peer_id: Seq<char>,
    pub noted_at: i64,
}

impl View for Route {
    type V = RouteView;

    open spec fn view(&self) -> RouteView {
        RouteView { peer_id: self.peer_id@, noted_at: self.noted_at }
    }
}

impl DeepView for Route {
    type V = RouteView;

    open spec fn deep_view(&self) -> RouteView {
        self@
    }
}

/// What the owner of the sockets is to do.
#[derive(Debug)]
pub enum Action {
    /// Write `message` to the connection of `peer_id`.
    Send { peer_id: String, message: WireMessage },
    /// Hand the message to the dispatcher.
    Deliver { inbound: InboundMessage },
    /// Give `payload` to whoever waits for the answer to the query `request_id`.
    ResolveQuery { request_id: String, payload: String },
    /// Give `value` to whoever waits for the lookup `request_id`.
    ResolveDht { request_id: String, value: Option<String> },
}

/// What a [`Action`] is in contracts.
pub enum ActionView {
    Send { peer_id: Seq<char>, message: WireMessageView },
    Deliver { inbound: InboundMessageView },
    ResolveQuery { request_id: Seq<char>, payload: Seq<char> },
    ResolveDht { request_id: Seq<char>, value: Option<Seq<char>> },
}

impl View for Action {
    type V = ActionView;

    open spec fn view(&self) -> ActionView {
        match self {
            Action::Send { peer_id, message } => ActionView::Send { peer_id: peer_id@, message: message@ },
            Action::Deliver { inbound } => ActionView::Deliver { inbound: inbound@ },
            Action::ResolveQuery { request_id, payload } => ActionView::ResolveQuery {
                request_id: request_id@,
                payload: payload@,
            },
            Action::ResolveDht { request_id, value } => ActionView::ResolveDht {
                request_id: request_id@,
                value: value.deep_view(),
            },
        }
    }
}

impl DeepView for Action {
    type V = ActionView;

    open spec fn deep_view(&self) -> ActionView {
        self@
    }
}

/// The difference of two moments, kept within 64 bits.
pub open spec fn elapsed(now: i64, then: i64) -> i64 {
    clamped(now - then)
}

/// For each row whether it was entered no longer than `ttl` before `now`.
pub open spec fn fresh_flags(seen: Rows<i64>, now: i64, ttl: i64) -> Seq<bool> {
    Seq::new(seen.keys.len(), |i: int| now - seen.values[i] <= ttl)
}

/// For each of `len` rows whether it is among the last `max`.
pub open spec fn recent_flags(len: nat, max: usize) -> Seq<bool> {
    Seq::new(len, |i: int| i >= len - max)
}

/// The table of seen messages without what has expired and, where it still
/// holds more than `max`, without the rows that were entered first.
pub open spec fn pruned(seen: Rows<i64>, now: i64, ttl: i64, max: usize) -> Rows<i64> {
    let fresh = seen.kept(fresh_flags(seen, now, ttl), seen.keys.len() as int);
    fresh.kept(recent_flags(fresh.keys.len(), max), fresh.keys.len() as int)
}

/// The table of seen messages with `id` entered at `now`, then pruned.
pub open spec fn marked(seen: Rows<i64>, id: Seq<char>, now: i64, ttl: i64, max: usize) -> Rows<i64> {
    pruned(seen.put(id, now), now, ttl, max)
}

/// An identifier as the node draws them: twelve ASCII letters and digits.
pub open spec fn is_drawn_token(id: Seq<char>) -> bool {
    &&& id.len() == 12
    &&& forall|i: int| 0 <= i < 12 ==> crate::util::is_ascii_alphanumeric(#[trigger] id[i])
}

/// An order as the node draws them for `n` peers: every place once.
pub open spec fn is_shuffle(places: Seq<usize>, n: nat) -> bool {
    &&& places.len() == n
    &&& places.no_duplicates()
    &&& forall|i: int| 0 <= i < n ==> (#[trigger] places[i]) < n
}

/// The messages of the marketplace, which travel wider and farther.
pub open spec fn is_task_class(message_type: Seq<char>) -> bool {
    message_type == "task"@ || message_type == "task_bid"@ || message_type == "task_assigned"@
        || message_type == "task_completed"@
}

/// The messages that are passed on: all but those of the transport itself.
pub open spec fn relayable(message_type: Seq<char>) -> bool {
    !(message_type == "handshake"@ || message_type == "ping"@ || message_type == "pong"@
        || message_type == "query"@ || message_type == "query_response"@ || "dht_"@.is_prefix_of(
        message_type,
    ))
}

/// Only peers that have told their name take part in the hash table.
pub open spec fn is_dht_node(peer_id: Seq<char>) -> bool {
    "node_"@.is_prefix_of(peer_id)
}

/// The distance between two texts in the key space.
pub open spec fn distance(a: Seq<char>, b: Seq<char>) -> u64 {
    hash64(a) ^ hash64(b)
}

/// The places, among the first `n` peers, of those that may be chosen.
pub open spec fn eligible(peers: Seq<Seq<char>>, allowed: Seq<bool>, n: int) -> Seq<usize>
    decreases n,
{
    if n <= 0 {
        Seq::empty()
    } else if allowed[n - 1] {
        eligible(peers, allowed, n - 1).push((n - 1) as usize)
    } else {
        eligible(peers, allowed, n - 1)
    }
}

/// For each peer whether its round trip has been measured and it is not `exclude`.
pub open spec fn measured_flags(peers: Rows<PeerView>, exclude: Option<Seq<char>>) -> Seq<bool> {
    Seq::new(
        peers.keys.len(),
        |i: int| Some(peers.keys[i]) != exclude && peers.values[i].rtt is Some,
    )
}

/// For each peer whether its round trip is unknown and it is not `exclude`.
pub open spec fn unmeasured_flags(peers: Rows<PeerView>, exclude: Option<Seq<char>>) -> Seq<bool> {
    Seq::new(
        peers.keys.len(),
        |i: int| Some(peers.keys[i]) != exclude && peers.values[i].rtt is None,
    )
}

/// For each peer whether it takes part in the hash table and is not `exclude`.
pub open spec fn dht_flags(peers: Rows<PeerView>, exclude: Option<Seq<char>>) -> Seq<bool> {
    Seq::new(peers.keys.len(), |i: int| Some(peers.keys[i]) != exclude && is_dht_node(peers.keys[i]))
}

/// The items of `pool` at the places that `places` lists, each once; a place
/// that is out of range or listed before is passed over.
pub open spec fn picked(pool: Seq<usize>, places: Seq<usize>, n: int) -> Seq<usize>
    decreases n,
{
    if n <= 0 {
        Seq::empty()
    } else {
        let before = picked(pool, places, n - 1);
        if places[n - 1] < pool.len() && !before.contains(pool[places[n - 1] as int]) {
            before.push(pool[places[n - 1] as int])
        } else {
            before
        }
    }
}

/// The names of the peers at `places`.
pub open spec fn names_at(peers: Seq<Seq<char>>, places: Seq<usize>) -> Seq<Seq<char>> {
    Seq::new(places.len(), |i: int| peers[places[i] as int])
}

/// The first `limit` of `s`; all of `s` where it has no more.
pub open spec fn at_most<A>(s: Seq<A>, limit: usize) -> Seq<A> {
    if limit < s.len() {
        s.take(limit as int)
    } else {
        s
    }
}

/// The round trips of the peers at `places`.
pub open spec fn rtt_keys(peers: Rows<PeerView>, places: Seq<usize>) -> Seq<i128> {
    Seq::new(places.len(), |i: int| peers.values[places[i] as int].rtt->0 as i128)
}

/// The distances to `key` of the peers at `places`.
pub open spec fn distance_keys(peers: Rows<PeerView>, places: Seq<usize>, key: Seq<char>) -> Seq<i128> {
    Seq::new(places.len(), |i: int| distance(peers.keys[places[i] as int], key) as i128)
}

/// The items of `pool` in the order that `order` gives.
pub open spec fn reordered(pool: Seq<usize>, order: Seq<usize>) -> Seq<usize> {
    Seq::new(order.len(), |i: int| pool[order[i] as int])
}

/// The peers to gossip to: those with a measured round trip, the quickest
/// first, then the others in the order that `places` gives them; of all
/// these the first `fanout`.
pub open spec fn selection(
    peers: Rows<PeerView>,
    fanout: usize,
    exclude: Option<Seq<char>>,
    places: Seq<usize>,
) -> Seq<Seq<char>> {
    let measured = eligible(peers.keys, measured_flags(peers, exclude), peers.keys.len() as int);
    let others = eligible(peers.keys, unmeasured_flags(peers, exclude), peers.keys.len() as int);
    at_most(
        names_at(peers.keys, reordered(measured, sort_order(rtt_keys(peers, measured), false)))
            + names_at(peers.keys, picked(others, places, places.len() as int)),
        fanout,
    )
}

/// The `count` peers of the hash table that are closest to `key`, the
/// closest first.
pub open spec fn closest(peers: Rows<PeerView>, key: Seq<char>, count: usize, exclude: Option<Seq<char>>) -> Seq<
    Seq<char>,
> {
    let nodes = eligible(peers.keys, dht_flags(peers, exclude), peers.keys.len() as int);
    at_most(
        names_at(peers.keys, reordered(nodes, sort_order(distance_keys(peers, nodes, key), false))),
        count,
    )
}

/// What the hash table holds under a key after `incoming` was written:
/// where both what was there and what comes are arrays, their union, what
/// was there first; else what comes.
pub open spec fn merged(existing: Option<Seq<char>>, incoming: Seq<char>) -> Seq<char> {
    match (existing, items_in(incoming)) {
        (Some(old), Some(new)) => match items_in(old) {
            Some(held) => array_text(union(held, new, new.len() as int)),
            None => incoming,
        },
        _ => incoming,
    }
}

/// Whether a message is of the marketplace's class.
pub fn task_class(message_type: &str) -> (r: bool)
    ensures
        r == is_task_class(message_type@),
{
    str_eq(message_type, "task") || str_eq(message_type, "task_bid") || str_eq(
        message_type,
        "task_assigned",
    ) || str_eq(message_type, "task_completed")
}

/// Whether a message is passed on to other peers.
pub fn should_relay_message(message: &WireMessage) -> (r: bool)
    ensures
        r == relayable(message@.message_type),
{
    let t = message.message_type.as_str();
    if str_eq(t, "handshake") || str_eq(t, "ping") || str_eq(t, "pong") {
        return false;
    }
    if str_eq(t, "query") || str_eq(t, "query_response") {
        return false;
    }
    if has_prefix(t, "dht_") {
        return false;
    }
    true
}

fn clamp_elapsed(now: i64, then: i64) -> (r: i64)
    ensures
        r == elapsed(now, then),
{
    clamp(now as i128 - then as i128)
}

/// Drops the rows that were entered more than `ttl_ms` before `now`.
fn keep_fresh(table: &mut Table<i64>, now: i64, ttl_ms: i64)
    requires
        old(table)@.wf(),
    ensures
        final(table)@.wf(),
        final(table)@ == old(table)@.kept(fresh_flags(old(table)@, now, ttl_ms), old(table)@.keys.len() as int),
{
    let n = table.len();
    let mut fresh: Vec<bool> = Vec::new();
    let mut i: usize = 0;
    while i < n
        invariant
            i <= n,
            n == table@.keys.len(),
            table@.wf(),
            fresh@ == fresh_flags(table@, now, ttl_ms).take(i as int),
        decreases n - i,
    {
        let at = *table.value_at(i);
        let keep = now as i128 - at as i128 <= ttl_ms as i128;
        fresh.push(keep);
        assert(fresh@ =~= fresh_flags(table@, now, ttl_ms).take(i + 1));
        i += 1;
    }
    assert(fresh@ =~= fresh_flags(table@, now, ttl_ms));
    table.keep_only(&fresh);
}

/// Drops from the table of seen messages what has expired and, beyond
/// `max_seen`, what was entered first.
pub fn cleanup_seen_messages(seen: &mut Table<i64>, now: i64, ttl_ms: i64, max_seen: usize)
    requires
        old(seen)@.wf(),
    ensures
        final(seen)@.wf(),
        final(seen)@ == pruned(old(seen)@, now, ttl_ms, max_seen),
{
    keep_fresh(seen, now, ttl_ms);
    let m = seen.len();
    let mut recent: Vec<bool> = Vec::new();
    let mut j: usize = 0;
    while j < m
        invariant
            j <= m,
            recent@ == recent_flags(m as nat, max_seen).take(j as int),
        decreases m - j,
    {
        let keep = max_seen >= m || j >= m - max_seen;
        recent.push(keep);
        assert(recent@ =~= recent_flags(m as nat, max_seen).take(j + 1));
        j += 1;
    }
    assert(recent@ =~= recent_flags(m as nat, max_seen));
    seen.keep_only(&recent);
}

/// The places of the peers whose flag is set.
fn eligible_places(names: &Vec<String>, allowed: &Vec<bool>) -> (r: Vec<usize>)
    requires
        allowed.len() == names.len(),
    ensures
        r@ == eligible(names.deep_view(), allowed@, names.len() as int),
        forall|i: int| 0 <= i < r.len() ==> (#[trigger] r[i]) < names.len() && allowed[r[i] as int],
{
    let mut out: Vec<usize> = Vec::new();
    let mut i: usize = 0;
    while i < names.len()
        invariant
            i <= names.len(),
            allowed.len() == names.len(),
            out@ == eligible(names.deep_view(), allowed@, i as int),
            forall|j: int| 0 <= j < out.len() ==> (#[trigger] out[j]) < i && allowed[out[j] as int],
        decreases names.len() - i,
    {
        if allowed[i] {
            out.push(i);
        }
        i += 1;
    }
    out
}

fn contains_place(v: &Vec<usize>, place: usize) -> (r: bool)
    ensures
        r == v@.contains(place),
{
    let mut i: usize = 0;
    while i < v.len()
        invariant
            i <= v.len(),
            forall|j: int| 0 <= j < i ==> v@[j] != place,
        decreases v.len() - i,
    {
        if v[i] == place {
            return true;
        }
        i += 1;
    }
    false
}

/// The items of `pool` in the order that `places` gives them.
fn pick(pool: &Vec<usize>, places: &Vec<usize>) -> (r: Vec<usize>)
    ensures
        r@ == picked(pool@, places@, places.len() as int),
        forall|i: int| 0 <= i < r.len() ==> pool@.contains(#[trigger] r[i]),
{
    let mut out: Vec<usize> = Vec::new();
    let mut i: usize = 0;
    while i < places.len()
        invariant
            i <= places.len(),
            out@ == picked(pool@, places@, i as int),
            forall|j: int| 0 <= j < out.len() ==> pool@.contains(#[trigger] out[j]),
        decreases places.len() - i,
    {
        let p = places[i];
        if p < pool.len() {
            let item = pool[p];
            if !contains_place(&out, item) {
                out.push(item);
            }
        }
        i += 1;
    }
    out
}

/// The names of the peers at `places`.
fn names_of(names: &Vec<String>, places: &Vec<usize>) -> (r: Vec<String>)
    requires
        forall|i: int| 0 <= i < places.len() ==> (#[trigger] places[i]) < names.len(),
    ensures
        r.deep_view() == names_at(names.deep_view(), places@),
{
    let mut out: Vec<String> = Vec::new();
    let mut i: usize = 0;
    while i < places.len()
        invariant
            i <= places.len(),
            forall|j: int| 0 <= j < places.len() ==> (#[trigger] places[j]) < names.len(),
            out.len() == i,
            forall|j: int| 0 <= j < i ==> (#[trigger] out[j])@ == names[places[j] as int]@,
        decreases places.len() - i,
    {
        out.push(names[places[i]].clone());
        i += 1;
    }
    assert(out.deep_view() =~= names_at(names.deep_view(), places@));
    out
}

/// The first `limit` of `v`.
fn truncated(v: Vec<String>, limit: usize) -> (r: Vec<String>)
    ensures
        r.deep_view() == at_most(v.deep_view(), limit),
{
    let mut v = v;
    let ghost before = v.deep_view();
    if limit < v.len() {
        v.truncate(limit);
        assert(v.deep_view() =~= before.take(limit as int));
    }
    v
}

/// The state of one connection: the address it was made under, the name the
/// peer has given, whether this side dialed, and whether it has answered the
/// peer's handshake.
#[derive(Debug)]
pub struct Session {
    pub remote_key: String,
    pub peer_id: Option<String>,
    pub dialed: bool,
    pub replied: bool,
}

/// What a [`Session`] is in contracts.
pub struct SessionView {
    pub remote_key: Seq<char>,
    pub peer_id: Option<Seq<char>>,
    pub dialed: bool,
    pub replied: bool,
}

impl View for Session {
    type V = SessionView;

    open spec fn view(&self) -> SessionView {
        SessionView {
            remote_key: self.remote_key@,
            peer_id: self.peer_id.deep_view(),
            dialed: self.dialed,
            replied: self.replied,
        }
    }
}

impl SessionView {
    /// The name under which the peer of this connection is known.
    pub open spec fn active(self) -> Seq<char> {
        match self.peer_id {
            Some(id) => id,
            None => self.remote_key,
        }
    }
}

impl Session {
    /// The name under which the peer of this connection is known.
    pub fn active_id(&self) -> (r: String)
        ensures
            r@ == self@.active(),
    {
        match &self.peer_id {
            Some(id) => id.clone(),
            None => self.remote_key.clone(),
        }
    }
}

/// What the node holds.
pub struct MeshView {
    pub node_id: Seq<char>,
    pub port: u16,
    pub bootstrap_nodes: Seq<Seq<char>>,
    pub peers: Rows<PeerView>,
    pub pending_pings: Rows<PendingPingView>,
    pub seen: Rows<i64>,
    pub query_waiters: Rows<i64>,
    pub dht_waiters: Rows<i64>,
    pub dht_routes: Rows<RouteView>,
    pub dht_store: Rows<Seq<char>>,
    pub seen_ttl_ms: i64,
    pub max_seen: usize,
    pub default_fanout: usize,
    pub task_fanout: usize,
    pub default_hops: i32,
    pub task_hops: i32,
    pub dht_k: usize,
    pub dht_alpha: usize,
    pub dht_max_hops: i32,
}

/// `message` sent to each of `targets`.
pub open spec fn sends(targets: Seq<Seq<char>>, message: WireMessageView) -> Seq<ActionView> {
    Seq::new(targets.len(), |i: int| ActionView::Send { peer_id: targets[i], message })
}

/// At least one.
pub open spec fn at_least_one(n: usize) -> usize {
    if n == 0 {
        1
    } else {
        n
    }
}

/// The payload of a message that writes to the hash table.
pub open spec fn store_payload(key: Seq<char>, value: Seq<char>) -> Seq<char> {
    object_text(seq![("key"@, string_text(key)), ("value"@, value)])
}

/// The payload of a lookup in the hash table.
pub open spec fn find_payload(key: Seq<char>, origin: Seq<char>) -> Seq<char> {
    object_text(seq![("key"@, string_text(key)), ("origin"@, string_text(origin))])
}

impl MeshView {
    /// No table holds a key twice, seen messages live for a while, and room is left for one.
    pub open spec fn wf(self) -> bool {
        &&& self.peers.wf()
        &&& self.pending_pings.wf()
        &&& self.seen.wf()
        &&& self.query_waiters.wf()
        &&& self.dht_waiters.wf()
        &&& self.dht_routes.wf()
        &&& self.dht_store.wf()
        &&& self.seen_ttl_ms >= 0
        &&& self.max_seen >= 1
    }

    /// To how many peers a message of this type is sent on each hop.
    pub open spec fn fanout_for(self, message_type: Seq<char>) -> usize {
        if is_task_class(message_type) {
            self.task_fanout
        } else {
            self.default_fanout
        }
    }

    /// How many hops a message of this type may make where it says nothing.
    pub open spec fn hops_for(self, message_type: Seq<char>) -> i32 {
        if is_task_class(message_type) {
            self.task_hops
        } else {
            self.default_hops
        }
    }

    /// This node's handshake.
    pub open spec fn handshake(self, now: i64) -> WireMessageView {
        WireMessageView {
            node_id: Some(self.node_id),
            port: Some(self.port),
            ..plain("handshake"@, "{}"@, now)
        }
    }

    /// A peer's handshake: its row moves from the address to the name it
    /// gives, and the side that dialed answers, once.
    pub open spec fn greeted(self, session: SessionView, m: WireMessageView, now: i64) -> (
        MeshView,
        SessionView,
        Seq<ActionView>,
    ) {
        if m.message_type == "handshake"@ && m.node_id is Some {
            let id = m.node_id->0;
            (
                MeshView {
                    peers: match self.peers.get(session.remote_key) {
                        Some(peer) => self.peers.remove(session.remote_key).put(id, peer),
                        None => self.peers,
                    },
                    ..self
                },
                SessionView { peer_id: Some(id), replied: session.replied || session.dialed, ..session },
                if session.dialed && !session.replied {
                    seq![ActionView::Send { peer_id: id, message: self.handshake(now) }]
                } else {
                    Seq::empty()
                },
            )
        } else {
            (self, session, Seq::empty())
        }
    }

    /// Deduplication: a message without an identifier passes; one whose
    /// identifier has been seen does not; any other is entered as seen and
    /// passes unless it has no hops left.
    pub open spec fn admitted(self, m: WireMessageView, now: i64) -> (Rows<i64>, bool) {
        match m.message_id {
            None => (self.seen, true),
            Some(id) => if self.seen.has(id) {
                (self.seen, false)
            } else {
                (
                    marked(self.seen, id, now, self.seen_ttl_ms, self.max_seen),
                    match m.hops_left {
                        Some(h) => h >= 0,
                        None => self.hops_for(m.message_type) >= 0,
                    },
                )
            },
        }
    }

    /// The answer to a ping.
    pub open spec fn pong(m: WireMessageView, now: i64) -> WireMessageView {
        WireMessageView { message_id: m.message_id, ..plain("pong"@, "{}"@, now) }
    }

    /// An answered ping: the round trip is noted with the peer.
    pub open spec fn ponged(self, m: WireMessageView, now: i64) -> MeshView {
        match m.message_id {
            Some(ping_id) => match self.pending_pings.get(ping_id) {
                Some(pending) => MeshView {
                    pending_pings: self.pending_pings.remove(ping_id),
                    peers: match self.peers.get(pending.peer_id) {
                        Some(peer) => self.peers.put(
                            pending.peer_id,
                            PeerView { rtt: Some(elapsed(now, pending.sent_at)), ..peer },
                        ),
                        None => self.peers,
                    },
                    ..self
                },
                None => self,
            },
            None => self,
        }
    }

    /// The answer to a query that someone waits for.
    pub open spec fn answered(self, m: WireMessageView) -> (MeshView, Seq<ActionView>) {
        match m.request_id {
            Some(request_id) => if self.query_waiters.has(request_id) {
                (
                    MeshView { query_waiters: self.query_waiters.remove(request_id), ..self },
                    seq![ActionView::ResolveQuery { request_id, payload: m.payload }],
                )
            } else {
                (self, Seq::empty())
            },
            None => (self, Seq::empty()),
        }
    }

    /// The hash table with `value` written under `key`.
    pub open spec fn stored(self, key: Seq<char>, value: Seq<char>) -> MeshView {
        MeshView { dht_store: self.dht_store.put(key, merged(self.dht_store.get(key), value)), ..self }
    }

    /// A write to the hash table that a peer sent.
    pub open spec fn store_received(self, m: WireMessageView) -> MeshView {
        match (string_member(m.payload, "key"@), member_of(m.payload, "value"@)) {
            (Some(key), Some(value)) => self.stored(key, value),
            _ => self,
        }
    }

    /// The value of a key, as it is sent back to whoever asked.
    pub open spec fn value_message(key: Seq<char>, value: Seq<char>, request_id: Seq<char>, now: i64) -> WireMessageView {
        WireMessageView { request_id: Some(request_id), ..plain("dht_value"@, store_payload(key, value), now) }
    }

    /// A lookup that a peer sent: the way back is noted; where the key is held
    /// here its value goes back; else the lookup goes on to `targets` while it
    /// has hops left.
    pub open spec fn find_received(self, active: Seq<char>, m: WireMessageView, now: i64, targets: Seq<Seq<char>>) -> (
        MeshView,
        Seq<ActionView>,
    ) {
        match string_member(m.payload, "key"@) {
            None => (self, Seq::empty()),
            Some(key) => if key.len() == 0 {
                (self, Seq::empty())
            } else {
                let noted = match m.request_id {
                    Some(request_id) => MeshView {
                        dht_routes: self.dht_routes.put(
                            request_id,
                            RouteView { peer_id: active, noted_at: now },
                        ),
                        ..self
                    },
                    None => self,
                };
                if m.request_id is Some && self.dht_store.has(key) {
                    (
                        noted,
                        seq![
                            ActionView::Send {
                                peer_id: active,
                                message: Self::value_message(
                                    key,
                                    self.dht_store.get(key)->0,
                                    m.request_id->0,
                                    now,
                                ),
                            },
                        ],
                    )
                } else {
                    let hops = match m.hops_left {
                        Some(h) => h,
                        None => self.dht_max_hops,
                    };
                    if hops <= 0 {
                        (noted, Seq::empty())
                    } else {
                        (
                            noted,
                            sends(targets, WireMessageView { hops_left: Some((hops - 1) as i32), ..m }),
                        )
                    }
                }
            },
        }
    }

    /// The key that a lookup asks for, where it is to be passed on.
    pub open spec fn find_key(m: WireMessageView) -> Seq<char> {
        match string_member(m.payload, "key"@) {
            Some(key) => key,
            None => ""@,
        }
    }

    /// A message handed to the dispatcher and, where it may travel on, to `targets`.
    pub open spec fn delivered(self, active: Seq<char>, m: WireMessageView, targets: Seq<Seq<char>>) -> Seq<
        ActionView,
    > {
        let hops = match m.hops_left {
            Some(h) => h,
            None => self.hops_for(m.message_type),
        };
        seq![
            ActionView::Deliver { inbound: InboundMessageView { peer_id: active, message: m } },
        ] + if relayable(m.message_type) && hops >= 1 {
            sends(targets, WireMessageView { hops_left: Some((hops - 1) as i32), ..m })
        } else {
            Seq::empty()
        }
    }

    /// A value that came back: it goes to whoever waits for it here, or one
    /// step further on its way back; a value that nobody asked for is handed
    /// to the dispatcher.
    pub open spec fn value_received(self, active: Seq<char>, m: WireMessageView, targets: Seq<Seq<char>>) -> (
        MeshView,
        Seq<ActionView>,
    ) {
        match m.request_id {
            Some(request_id) => if self.dht_waiters.has(request_id) {
                (
                    MeshView {
                        dht_waiters: self.dht_waiters.remove(request_id),
                        dht_routes: self.dht_routes.remove(request_id),
                        ..self
                    },
                    seq![
                        ActionView::ResolveDht { request_id, value: member_of(m.payload, "value"@) },
                    ],
                )
            } else if self.dht_routes.has(request_id) {
                (
                    MeshView { dht_routes: self.dht_routes.remove(request_id), ..self },
                    seq![
                        ActionView::Send { peer_id: self.dht_routes.get(request_id)->0.peer_id, message: m },
                    ],
                )
            } else {
                (self, self.delivered(active, m, targets))
            },
            None => (self, self.delivered(active, m, targets)),
        }
    }

    /// The peers that a message from `active` is relayed to.
    pub open spec fn relay_targets(self, active: Seq<char>, m: WireMessageView, places: Seq<usize>) -> Seq<
        Seq<char>,
    > {
        selection(self.peers, self.fanout_for(m.message_type), Some(active), places)
    }

    /// The peers that a lookup from `active` is passed on to.
    pub open spec fn find_targets(self, active: Seq<char>, m: WireMessageView) -> Seq<Seq<char>> {
        closest(self.peers, Self::find_key(m), at_least_one(self.dht_alpha), Some(active))
    }

    /// What a message that passed deduplication does.
    pub open spec fn handled(self, active: Seq<char>, m: WireMessageView, now: i64, places: Seq<usize>) -> (
        MeshView,
        Seq<ActionView>,
    ) {
        if m.message_type == "ping"@ {
            (self, seq![ActionView::Send { peer_id: active, message: Self::pong(m, now) }])
        } else if m.message_type == "pong"@ {
            (self.ponged(m, now), Seq::empty())
        } else if m.message_type == "query_response"@ {
            self.answered(m)
        } else if m.message_type == "dht_store"@ {
            (self.store_received(m), Seq::empty())
        } else if m.message_type == "dht_find"@ {
            self.find_received(active, m, now, self.find_targets(active, m))
        } else if m.message_type == "dht_value"@ {
            self.value_received(active, m, self.relay_targets(active, m, places))
        } else {
            (self, self.delivered(active, m, self.relay_targets(active, m, places)))
        }
    }

    /// What one frame does to the node and to its connection, and what is to
    /// be done for it. `places` gives the order in which peers of unknown
    /// round trip are chosen for a relay.
    pub open spec fn frame_outcome(self, session: SessionView, m: WireMessageView, now: i64, places: Seq<usize>) -> (
        MeshView,
        SessionView,
        Seq<ActionView>,
    ) {
        let (known, greeted, greeting) = self.greeted(session, m, now);
        let (seen, passes) = known.admitted(m, now);
        let noted = MeshView { seen, ..known };
        if passes {
            let (after, actions) = noted.handled(greeted.active(), m, now, places);
            (after, greeted, greeting + actions)
        } else {
            (noted, greeted, greeting)
        }
    }

    /// What a broadcast does: the message gets `drawn_id` where it has no
    /// identifier, is entered as seen, and goes to `targets`.
    pub open spec fn broadcast(self, m: WireMessageView, now: i64, drawn_id: Seq<char>, targets: Seq<Seq<char>>) -> (
        MeshView,
        Seq<ActionView>,
    ) {
        let id = match m.message_id {
            Some(id) => id,
            None => drawn_id,
        };
        (
            MeshView { seen: marked(self.seen, id, now, self.seen_ttl_ms, self.max_seen), ..self },
            sends(targets, WireMessageView { message_id: Some(id), ..m }),
        )
    }

    /// `key` looked up where it is held here.
    pub open spec fn find_local(self, key: Seq<char>) -> Option<Seq<char>> {
        self.dht_store.get(key)
    }
}

/// This node among the peers that are to get a copy of what it stores.
pub open spec fn without_self(targets: Seq<Seq<char>>, node_id: Seq<char>, n: int) -> Seq<Seq<char>>
    decreases n,
{
    if n <= 0 {
        Seq::empty()
    } else if targets[n - 1] == node_id {
        without_self(targets, node_id, n - 1)
    } else {
        without_self(targets, node_id, n - 1).push(targets[n - 1])
    }
}

/// The overlay node.
pub struct MeshNode {
    pub node_id: String,
    pub port: u16,
    pub bootstrap_nodes: Vec<String>,
    peers: Table<Peer>,
    pending_pings: Table<PendingPing>,
    seen_messages: Table<i64>,
    query_waiters: Table<i64>,
    dht_waiters: Table<i64>,
    dht_routes: Table<Route>,
    dht_store: Table<String>,
    seen_ttl_ms: i64,
    max_seen_messages: usize,
    default_fanout: usize,
    task_fanout: usize,
    default_hops: i32,
    task_hops: i32,
    dht_k: usize,
    dht_alpha: usize,
    dht_max_hops: i32,
}

impl View for MeshNode {
    type V = MeshView;

    closed spec fn view(&self) -> MeshView {
        MeshView {
            node_id: self.node_id@,
            port: self.port,
            bootstrap_nodes: self.bootstrap_nodes.deep_view(),
            peers: self.peers@,
            pending_pings: self.pending_pings@,
            seen: self.seen_messages@,
            query_waiters: self.query_waiters@,
            dht_waiters: self.dht_waiters@,
            dht_routes: self.dht_routes@,
            dht_store: self.dht_store@,
            seen_ttl_ms: self.seen_ttl_ms,
            max_seen: self.max_seen_messages,
            default_fanout: self.default_fanout,
            task_fanout: self.task_fanout,
            default_hops: self.default_hops,
            task_hops: self.task_hops,
            dht_k: self.dht_k,
            dht_alpha: self.dht_alpha,
            dht_max_hops: self.dht_max_hops,
        }
    }
}

fn send_each(targets: &Vec<String>, message: &WireMessage) -> (r: Vec<Action>)
    ensures
        r.deep_view() == sends(targets.deep_view(), message@),
{
    let mut out: Vec<Action> = Vec::new();
    let mut i: usize = 0;
    while i < targets.len()
        invariant
            i <= targets.len(),
            out.len() == i,
            forall|j: int|
                0 <= j < i ==> (#[trigger] out[j])@ == (ActionView::Send {
                    peer_id: targets[j]@,
                    message: message@,
                }),
        decreases targets.len() - i,
    {
        out.push(Action::Send { peer_id: targets[i].clone(), message: message.clone() });
        i += 1;
    }
    assert(out.deep_view() =~= sends(targets.deep_view(), message@));
    out
}

fn append_actions(a: Vec<Action>, b: Vec<Action>) -> (r: Vec<Action>)
    ensures
        r.deep_view() == a.deep_view() + b.deep_view(),
{
    let mut out = a;
    let mut rest = b;
    let ghost first = out.deep_view();
    let ghost second = rest.deep_view();
    out.append(&mut rest);
    assert(out.deep_view() =~= first + second);
    out
}

fn no_actions() -> (r: Vec<Action>)
    ensures
        r.deep_view() == Seq::<ActionView>::empty(),
{
    let r: Vec<Action> = Vec::new();
    assert(r.deep_view() =~= Seq::<ActionView>::empty());
    r
}

fn one_action(a: Action) -> (r: Vec<Action>)
    ensures
        r.deep_view() == seq![a@],
{
    let mut r: Vec<Action> = Vec::new();
    r.push(a);
    assert(r.deep_view() =~= seq![a@]);
    r
}

/// Writes `value` under `key`, merged with what is there where both are arrays.
pub fn store_dht_value(store: &mut Table<String>, key: &str, value: String)
    requires
        old(store)@.wf(),
    ensures
        final(store)@.wf(),
        final(store)@ == old(store)@.put(key@, merged(old(store)@.get(key@), value@)),
{
    let incoming = crate::json::items(value.as_str());
    let existing = match store.get(key) {
        Some(held) => crate::json::items(held.as_str()),
        None => None,
    };
    match (existing, incoming) {
        (Some(held), Some(new)) => {
            let mut all = held;
            let mut i: usize = 0;
            while i < new.len()
                invariant
                    i <= new.len(),
                    all.deep_view() == union(held.deep_view(), new.deep_view(), i as int),
                decreases new.len() - i,
            {
                assert(new.deep_view()[i as int] == new[i as int]@);
                if !contains_text(&all, new[i].as_str()) {
                    let ghost before = all.deep_view();
                    all.push(new[i].clone());
                    assert(all.deep_view() =~= before.push(new[i as int]@));
                }
                i += 1;
            }
            store.put(key.to_string(), crate::json::array(&all));
        },
        _ => {
            store.put(key.to_string(), value);
        },
    }
}

fn differs(name: &str, exclude: &Option<String>) -> (r: bool)
    ensures
        r == (Some(name@) != exclude.deep_view()),
{
    match exclude {
        Some(e) => !str_eq(name, e.as_str()),
        None => true,
    }
}

fn reorder(pool: &Vec<usize>, order: &Vec<usize>) -> (r: Vec<usize>)
    requires
        forall|i: int| 0 <= i < order.len() ==> (#[trigger] order[i]) < pool.len(),
    ensures
        r@ == reordered(pool@, order@),
{
    let mut out: Vec<usize> = Vec::new();
    let mut i: usize = 0;
    while i < order.len()
        invariant
            i <= order.len(),
            forall|j: int| 0 <= j < order.len() ==> (#[trigger] order[j]) < pool.len(),
            out@ == reordered(pool@, order@).take(i as int),
        decreases order.len() - i,
    {
        out.push(pool[order[i]]);
        assert(out@ =~= reordered(pool@, order@).take(i + 1));
        i += 1;
    }
    assert(out@ =~= reordered(pool@, order@));
    out
}

impl MeshNode {
    /// The node is well formed.
    pub open spec fn wf(&self) -> bool {
        self@.wf()
    }

    /// A node that knows no peer and holds nothing.
    pub fn new(node_id: String, port: u16, bootstrap_nodes: Vec<String>, dht_config: DhtConfig) -> (node: MeshNode)
        ensures
            node.wf(),
            node@ == (MeshView {
                node_id: node_id@,
                port,
                bootstrap_nodes: bootstrap_nodes.deep_view(),
                peers: Rows::empty(),
                pending_pings: Rows::empty(),
                seen: Rows::empty(),
                query_waiters: Rows::empty(),
                dht_waiters: Rows::empty(),
                dht_routes: Rows::empty(),
                dht_store: Rows::empty(),
                seen_ttl_ms: 300_000,
                max_seen: 10_000,
                default_fanout: 6,
                task_fanout: 8,
                default_hops: 3,
                task_hops: 4,
                dht_k: dht_config.k,
                dht_alpha: dht_config.alpha,
                dht_max_hops: dht_config.max_hops,
            }),
    {
        MeshNode {
            node_id,
            port,
            bootstrap_nodes,
            peers: Table::new(),
            pending_pings: Table::new(),
            seen_messages: Table::new(),
            query_waiters: Table::new(),
            dht_waiters: Table::new(),
            dht_routes: Table::new(),
            dht_store: Table::new(),
            seen_ttl_ms: 300_000,
            max_seen_messages: 10_000,
            default_fanout: 6,
            task_fanout: 8,
            default_hops: 3,
            task_hops: 4,
            dht_k: dht_config.k,
            dht_alpha: dht_config.alpha,
            dht_max_hops: dht_config.max_hops,
        }
    }

    /// The peers to gossip to, `places` giving the order of those whose round
    /// trip is not known.
    pub fn select_peers(&self, fanout: usize, exclude_peer: &Option<String>, places: &Vec<usize>) -> (r: Vec<
        String,
    >)
        requires
            self.wf(),
        ensures
            r.deep_view() == selection(self@.peers, fanout, exclude_peer.deep_view(), places@),
    {
        let names = self.peers.keys();
        let rows = self.peers.values();
        let n = names.len();
        assert(names.deep_view().len() == rows.deep_view().len());
        let mut measured_flag: Vec<bool> = Vec::new();
        let mut other_flag: Vec<bool> = Vec::new();
        let mut i: usize = 0;
        while i < n
            invariant
                i <= n,
                n == names.len(),
                n == rows.len(),
                names.deep_view() == self@.peers.keys,
                rows.deep_view() == self@.peers.values,
                measured_flag@ == measured_flags(self@.peers, exclude_peer.deep_view()).take(i as int),
                other_flag@ == unmeasured_flags(self@.peers, exclude_peer.deep_view()).take(i as int),
            decreases n - i,
        {
            assert(names.deep_view()[i as int] == names[i as int]@);
            assert(rows.deep_view()[i as int] == rows[i as int]@);
            let free = differs(names[i].as_str(), exclude_peer);
            measured_flag.push(free && rows[i].rtt.is_some());
            other_flag.push(free && rows[i].rtt.is_none());
            assert(measured_flag@ =~= measured_flags(self@.peers, exclude_peer.deep_view()).take(i + 1));
            assert(other_flag@ =~= unmeasured_flags(self@.peers, exclude_peer.deep_view()).take(i + 1));
            i += 1;
        }
        assert(measured_flag@ =~= measured_flags(self@.peers, exclude_peer.deep_view()));
        assert(other_flag@ =~= unmeasured_flags(self@.peers, exclude_peer.deep_view()));
        let measured = eligible_places(names, &measured_flag);
        let others = eligible_places(names, &other_flag);
        let mut rtts: Vec<i128> = Vec::new();
        let mut k: usize = 0;
        while k < measured.len()
            invariant
                k <= measured.len(),
                n == rows.len(),
                rows.deep_view() == self@.peers.values,
                measured_flag@ == measured_flags(self@.peers, exclude_peer.deep_view()),
                n == self@.peers.keys.len(),
                measured_flag.len() == n,
                forall|j: int|
                    0 <= j < measured.len() ==> (#[trigger] measured[j]) < n && measured_flag@[measured[j] as int],
                rtts@ == rtt_keys(self@.peers, measured@).take(k as int),
            decreases measured.len() - k,
        {
            let at = measured[k];
            assert(rows.deep_view()[at as int] == rows[at as int]@);
            assert(measured_flags(self@.peers, exclude_peer.deep_view())[at as int]);
            assert(self@.peers.values[at as int].rtt is Some);
            let rtt = match rows[at].rtt {
                Some(r) => r as i128,
                None => 0,
            };
            rtts.push(rtt);
            assert(rtts@ =~= rtt_keys(self@.peers, measured@).take(k + 1));
            k += 1;
        }
        assert(rtts@ =~= rtt_keys(self@.peers, measured@));
        let order = sorted_places(&rtts, false);
        let quickest = reorder(&measured, &order);
        let drawn = pick(&others, places);
        let head = names_of(names, &quickest);
        let tail = names_of(names, &drawn);
        let all = crate::capsule::join(head, &tail);
        truncated(all, fanout)
    }

    /// The `count` peers of the hash table that are closest to `key`.
    pub fn select_closest_peers(&self, key: &str, count: usize, exclude_peer: &Option<String>) -> (r: Vec<
        String,
    >)
        requires
            self.wf(),
        ensures
            r.deep_view() == closest(self@.peers, key@, count, exclude_peer.deep_view()),
    {
        let names = self.peers.keys();
        let n = names.len();
        let key_hash = hash_to_u64(key);
        let mut flags: Vec<bool> = Vec::new();
        let mut i: usize = 0;
        while i < n
            invariant
                i <= n,
                n == names.len(),
                names.deep_view() == self@.peers.keys,
                flags@ == dht_flags(self@.peers, exclude_peer.deep_view()).take(i as int),
            decreases n - i,
        {
            assert(names.deep_view()[i as int] == names[i as int]@);
            let free = differs(names[i].as_str(), exclude_peer);
            flags.push(free && has_prefix(names[i].as_str(), "node_"));
            assert(flags@ =~= dht_flags(self@.peers, exclude_peer.deep_view()).take(i + 1));
            i += 1;
        }
        assert(flags@ =~= dht_flags(self@.peers, exclude_peer.deep_view()));
        let nodes = eligible_places(names, &flags);
        let mut distances: Vec<i128> = Vec::new();
        let mut k: usize = 0;
        while k < nodes.len()
            invariant
                k <= nodes.len(),
                n == names.len(),
                names.deep_view() == self@.peers.keys,
                key_hash == hash64(key@),
                forall|j: int| 0 <= j < nodes.len() ==> (#[trigger] nodes[j]) < n,
                distances@ == distance_keys(self@.peers, nodes@, key@).take(k as int),
            decreases nodes.len() - k,
        {
            let at = nodes[k];
            assert(names.deep_view()[at as int] == names[at as int]@);
            let d = hash_to_u64(names[at].as_str()) ^ key_hash;
            distances.push(d as i128);
            assert(distances@ =~= distance_keys(self@.peers, nodes@, key@).take(k + 1));
            k += 1;
        }
        assert(distances@ =~= distance_keys(self@.peers, nodes@, key@));
        let order = sorted_places(&distances, false);
        let nearest = reorder(&nodes, &order);
        let all = names_of(names, &nearest);
        truncated(all, count)
    }

    /// Enters `message_id` as seen at `now`.
    pub fn mark_message_seen(&mut self, message_id: &str, now: i64)
        requires
            old(self).wf(),
        ensures
            final(self).wf(),
            final(self)@ == (MeshView {
                seen: marked(old(self)@.seen, message_id@, now, old(self)@.seen_ttl_ms, old(self)@.max_seen),
                ..old(self)@
            }),
    {
        self.seen_messages.put(message_id.to_string(), now);
        cleanup_seen_messages(&mut self.seen_messages, now, self.seen_ttl_ms, self.max_seen_messages);
    }

    /// Whether a message that came in at `now` is to be looked at: not if it
    /// has been seen, and not if it has no hops left.
    pub fn should_process_message(&mut self, message: &WireMessage, now: i64) -> (r: bool)
        requires
            old(self).wf(),
        ensures
            final(self).wf(),
            final(self)@ == (MeshView { seen: old(self)@.admitted(message@, now).0, ..old(self)@ }),
            r == old(self)@.admitted(message@, now).1,
    {
        let id = match &message.message_id {
            Some(id) => id,
            None => {
                return true;
            },
        };
        if self.seen_messages.contains_key(id.as_str()) {
            return false;
        }
        self.mark_message_seen(id.as_str(), now);
        let hops = match message.hops_left {
            Some(h) => h,
            None => if task_class(message.message_type.as_str()) {
                self.task_hops
            } else {
                self.default_hops
            },
        };
        hops >= 0
    }

    /// A connection was made under `remote_key`: the peer is entered, and the
    /// handshake to send to it is handed back with the state of the connection.
    pub fn peer_connected(&mut self, remote_key: &str, dialed: bool, now: i64) -> (r: (Session, WireMessage))
        requires
            old(self).wf(),
        ensures
            final(self).wf(),
            final(self)@ == (MeshView {
                peers: old(self)@.peers.put(remote_key@, PeerView { rtt: None, addr: remote_key@ }),
                ..old(self)@
            }),
            r.0@ == (SessionView { remote_key: remote_key@, peer_id: None, dialed, replied: false }),
            r.1@ == old(self)@.handshake(now),
    {
        self.peers.put(remote_key.to_string(), Peer { rtt: None, addr: remote_key.to_string() });
        let session = Session { remote_key: remote_key.to_string(), peer_id: None, dialed, replied: false };
        (session, self.handshake_message(now))
    }

    fn handshake_message(&self, now: i64) -> (m: WireMessage)
        ensures
            m@ == self@.handshake(now),
    {
        let mut m = WireMessage::new("handshake", "{}".to_string(), now);
        m.node_id = Some(self.node_id.clone());
        m.port = Some(self.port);
        m
    }

    /// A connection ended: its peer is forgotten.
    pub fn peer_closed(&mut self, session: &Session)
        requires
            old(self).wf(),
        ensures
            final(self).wf(),
            final(self)@ == (MeshView { peers: old(self)@.peers.remove(session@.active()), ..old(self)@ }),
    {
        let id = session.active_id();
        let _ = self.peers.remove(id.as_str());
    }

    /// A write to a peer failed: the peer is forgotten.
    pub fn send_failed(&mut self, peer_id: &str)
        requires
            old(self).wf(),
        ensures
            final(self).wf(),
            final(self)@ == (MeshView { peers: old(self)@.peers.remove(peer_id@), ..old(self)@ }),
    {
        let _ = self.peers.remove(peer_id);
    }

    /// The action that sends `message` to `peer_id`, where that peer is known.
    pub fn send_to_peer(&self, peer_id: &str, message: WireMessage) -> (r: Vec<Action>)
        requires
            self.wf(),
        ensures
            r.deep_view() == if self@.peers.has(peer_id@) {
                seq![ActionView::Send { peer_id: peer_id@, message: message@ }]
            } else {
                Seq::empty()
            },
    {
        if self.peers.contains_key(peer_id) {
            one_action(Action::Send { peer_id: peer_id.to_string(), message })
        } else {
            no_actions()
        }
    }
}

fn store_payload_text(key: &str, value: &str) -> (r: String)
    ensures
        r@ == store_payload(key@, value@),
{
    let mut members: Vec<(String, String)> = Vec::new();
    members.push(("key".to_string(), crate::json::string(key)));
    members.push(("value".to_string(), value.to_string()));
    assert(member_views(members@) =~= seq![("key"@, string_text(key@)), ("value"@, value@)]);
    crate::json::object(&members)
}

fn find_payload_text(key: &str, origin: &str) -> (r: String)
    ensures
        r@ == find_payload(key@, origin@),
{
    let mut members: Vec<(String, String)> = Vec::new();
    members.push(("key".to_string(), crate::json::string(key)));
    members.push(("origin".to_string(), crate::json::string(origin)));
    assert(member_views(members@) =~= seq![
        ("key"@, string_text(key@)),
        ("origin"@, string_text(origin@)),
    ]);
    crate::json::object(&members)
}

impl MeshNode {
    fn greet(&mut self, session: &mut Session, message: &WireMessage, now: i64) -> (r: Vec<Action>)
        requires
            old(self).wf(),
        ensures
            final(self).wf(),
            (final(self)@, final(session)@, r.deep_view()) == old(self)@.greeted(
                old(session)@,
                message@,
                now,
            ),
    {
        if !str_eq(message.message_type.as_str(), "handshake") {
            return no_actions();
        }
        let id = match &message.node_id {
            Some(id) => id.clone(),
            None => {
                return no_actions();
            },
        };
        match self.peers.remove(session.remote_key.as_str()) {
            Some(peer) => {
                self.peers.put(id.clone(), peer);
            },
            None => {},
        }
        let reply = session.dialed && !session.replied;
        session.peer_id = Some(id.clone());
        session.replied = session.replied || session.dialed;
        if reply {
            one_action(Action::Send { peer_id: id, message: self.handshake_message(now) })
        } else {
            no_actions()
        }
    }

    fn pong_received(&mut self, message: &WireMessage, now: i64)
        requires
            old(self).wf(),
        ensures
            final(self).wf(),
            final(self)@ == old(self)@.ponged(message@, now),
    {
        let ping_id = match &message.message_id {
            Some(id) => id,
            None => {
                return ;
            },
        };
        let pending = match self.pending_pings.remove(ping_id.as_str()) {
            Some(p) => p,
            None => {
                return ;
            },
        };
        let rtt = clamp_elapsed(now, pending.sent_at);
        let addr = match self.peers.get(pending.peer_id.as_str()) {
            Some(peer) => peer.addr.clone(),
            None => {
                return ;
            },
        };
        self.peers.put(pending.peer_id, Peer { rtt: Some(rtt), addr });
    }

    fn answer_received(&mut self, message: WireMessage) -> (r: Vec<Action>)
        requires
            old(self).wf(),
        ensures
            final(self).wf(),
            (final(self)@, r.deep_view()) == old(self)@.answered(message@),
    {
        let request_id = match &message.request_id {
            Some(id) => id.clone(),
            None => {
                return no_actions();
            },
        };
        match self.query_waiters.remove(request_id.as_str()) {
            Some(_) => one_action(Action::ResolveQuery { request_id, payload: message.payload }),
            None => no_actions(),
        }
    }

    fn store_from_peer(&mut self, message: &WireMessage)
        requires
            old(self).wf(),
        ensures
            final(self).wf(),
            final(self)@ == old(self)@.store_received(message@),
    {
        let key = crate::json::get_string(message.payload.as_str(), "key");
        let value = crate::json::member(message.payload.as_str(), "value");
        match (key, value) {
            (Some(key), Some(value)) => {
                store_dht_value(&mut self.dht_store, key.as_str(), value);
            },
            _ => {},
        }
    }

    fn find_from_peer(&mut self, active: &str, message: WireMessage, now: i64) -> (r: Vec<Action>)
        requires
            old(self).wf(),
        ensures
            final(self).wf(),
            (final(self)@, r.deep_view()) == old(self)@.find_received(
                active@,
                message@,
                now,
                old(self)@.find_targets(active@, message@),
            ),
    {
        let key = match crate::json::get_string(message.payload.as_str(), "key") {
            Some(k) => k,
            None => {
                return no_actions();
            },
        };
        if key.as_str().is_empty() {
            return no_actions();
        }
        match &message.request_id {
            Some(request_id) => {
                self.dht_routes.put(request_id.clone(), Route { peer_id: active.to_string(), noted_at: now });
                match self.dht_store.get(key.as_str()) {
                    Some(value) => {
                        let mut reply = WireMessage::new(
                            "dht_value",
                            store_payload_text(key.as_str(), value.as_str()),
                            now,
                        );
                        reply.request_id = Some(request_id.clone());
                        return one_action(Action::Send { peer_id: active.to_string(), message: reply });
                    },
                    None => {},
                }
            },
            None => {},
        }
        let hops = match message.hops_left {
            Some(h) => h,
            None => self.dht_max_hops,
        };
        if hops <= 0 {
            return no_actions();
        }
        let count = if self.dht_alpha == 0 {
            1
        } else {
            self.dht_alpha
        };
        let targets = self.select_closest_peers(key.as_str(), count, &Some(active.to_string()));
        let mut relayed = message;
        relayed.hops_left = Some(hops - 1);
        send_each(&targets, &relayed)
    }

    fn deliver(&self, active: &str, message: WireMessage, places: &Vec<usize>) -> (r: Vec<Action>)
        requires
            self.wf(),
        ensures
            r.deep_view() == self@.delivered(active@, message@, self@.relay_targets(active@, message@, places@)),
    {
        let task = task_class(message.message_type.as_str());
        let hops = match message.hops_left {
            Some(h) => h,
            None => if task {
                self.task_hops
            } else {
                self.default_hops
            },
        };
        let first = one_action(
            Action::Deliver {
                inbound: InboundMessage { peer_id: active.to_string(), message: message.clone() },
            },
        );
        if should_relay_message(&message) && hops >= 1 {
            let fanout = if task {
                self.task_fanout
            } else {
                self.default_fanout
            };
            let targets = self.select_peers(fanout, &Some(active.to_string()), places);
            let mut relayed = message;
            relayed.hops_left = Some(hops - 1);
            append_actions(first, send_each(&targets, &relayed))
        } else {
            append_actions(first, no_actions())
        }
    }

    fn value_from_peer(&mut self, active: &str, message: WireMessage, places: &Vec<usize>) -> (r: Vec<Action>)
        requires
            old(self).wf(),
        ensures
            final(self).wf(),
            (final(self)@, r.deep_view()) == old(self)@.value_received(
                active@,
                message@,
                old(self)@.relay_targets(active@, message@, places@),
            ),
    {
        let request_id = match &message.request_id {
            Some(id) => id.clone(),
            None => {
                return self.deliver(active, message, places);
            },
        };
        if self.dht_waiters.contains_key(request_id.as_str()) {
            let _ = self.dht_waiters.remove(request_id.as_str());
            let _ = self.dht_routes.remove(request_id.as_str());
            let value = crate::json::member(message.payload.as_str(), "value");
            return one_action(Action::ResolveDht { request_id, value });
        }
        match self.dht_routes.remove(request_id.as_str()) {
            Some(previous) => one_action(Action::Send { peer_id: previous.peer_id, message }),
            None => self.deliver(active, message, places),
        }
    }

    fn handle_admitted(&mut self, active: &str, message: WireMessage, now: i64, places: &Vec<usize>) -> (r:
        Vec<Action>)
        requires
            old(self).wf(),
        ensures
            final(self).wf(),
            (final(self)@, r.deep_view()) == old(self)@.handled(active@, message@, now, places@),
    {
        let kind = message.message_type.clone();
        if str_eq(kind.as_str(), "ping") {
            let mut pong = WireMessage::new("pong", "{}".to_string(), now);
            pong.message_id = clone_opt(&message.message_id);
            one_action(Action::Send { peer_id: active.to_string(), message: pong })
        } else if str_eq(kind.as_str(), "pong") {
            self.pong_received(&message, now);
            no_actions()
        } else if str_eq(kind.as_str(), "query_response") {
            self.answer_received(message)
        } else if str_eq(kind.as_str(), "dht_store") {
            self.store_from_peer(&message);
            no_actions()
        } else if str_eq(kind.as_str(), "dht_find") {
            self.find_from_peer(active, message, now)
        } else if str_eq(kind.as_str(), "dht_value") {
            self.value_from_peer(active, message, places)
        } else {
            self.deliver(active, message, places)
        }
    }

    /// Takes in one frame that came over the connection `session` at `now`,
    /// `places` giving the order in which peers of unknown round trip are
    /// chosen for a relay. The actions to carry out are handed back.
    pub fn handle_frame_with(&mut self, session: &mut Session, message: WireMessage, now: i64, places: &Vec<usize>) -> (r:
        Vec<Action>)
        requires
            old(self).wf(),
        ensures
            final(self).wf(),
            (final(self)@, final(session)@, r.deep_view()) == old(self)@.frame_outcome(
                old(session)@,
                message@,
                now,
                places@,
            ),
    {
        let greeting = self.greet(session, &message, now);
        let active = session.active_id();
        if !self.should_process_message(&message, now) {
            return greeting;
        }
        let actions = self.handle_admitted(active.as_str(), message, now, places);
        append_actions(greeting, actions)
    }
}

/// The names of those of the first `n` peers that are not `exclude`.
pub open spec fn everyone_but(peers: Seq<Seq<char>>, exclude: Option<Seq<char>>, n: int) -> Seq<Seq<char>>
    decreases n,
{
    if n <= 0 {
        Seq::empty()
    } else if Some(peers[n - 1]) != exclude {
        everyone_but(peers, exclude, n - 1).push(peers[n - 1])
    } else {
        everyone_but(peers, exclude, n - 1)
    }
}

/// For each way back whether it was noted no longer than 5 seconds before `now`.
pub open spec fn route_flags(routes: Rows<RouteView>, now: i64) -> Seq<bool> {
    Seq::new(routes.keys.len(), |i: int| now - routes.values[i].noted_at <= 5_000)
}

/// For each pending ping whether it was sent no longer than 15 seconds before `now`.
pub open spec fn awaited_flags(pending: Rows<PendingPingView>, now: i64) -> Seq<bool> {
    Seq::new(pending.keys.len(), |i: int| now - pending.values[i].sent_at <= 15_000)
}

/// A ping with the identifier `ping_id`.
pub open spec fn ping(ping_id: Seq<char>, now: i64) -> WireMessageView {
    WireMessageView { message_id: Some(ping_id), ..plain("ping"@, "{}"@, now) }
}

/// The pending pings after the first `n` peers were pinged with `ids`.
pub open spec fn pinged(
    pending: Rows<PendingPingView>,
    peers: Seq<Seq<char>>,
    ids: Seq<Seq<char>>,
    now: i64,
    n: int,
) -> Rows<PendingPingView>
    decreases n,
{
    if n <= 0 {
        pending
    } else {
        pinged(pending, peers, ids, now, n - 1).put(
            ids[n - 1],
            PendingPingView { peer_id: peers[n - 1], sent_at: now },
        )
    }
}

/// The pings that go to the first `n` peers.
pub open spec fn pings(peers: Seq<Seq<char>>, ids: Seq<Seq<char>>, now: i64, n: int) -> Seq<ActionView> {
    Seq::new(n as nat, |i: int| ActionView::Send { peer_id: peers[i], message: ping(ids[i], now) })
}

/// The smaller of two counts.
pub open spec fn least(a: nat, b: nat) -> int {
    if a < b {
        a as int
    } else {
        b as int
    }
}

/// A connected peer that has told its name.
#[derive(Debug)]
pub struct PeerInfo {
    pub node_id: String,
    pub ip: String,
    pub connected_at: i64,
}

/// What a [`PeerInfo`] is in contracts.
pub struct PeerInfoView {
    pub node_id: Seq<char>,
    pub ip: Seq<char>,
    pub connected_at: i64,
}

impl View for PeerInfo {
    type V = PeerInfoView;

    open spec fn view(&self) -> PeerInfoView {
        PeerInfoView { node_id: self.node_id@, ip: self.ip@, connected_at: self.connected_at }
    }
}

impl DeepView for PeerInfo {
    type V = PeerInfoView;

    open spec fn deep_view(&self) -> PeerInfoView {
        self@
    }
}

/// Those of the first `n` peers that have told their name.
pub open spec fn named_peers(peers: Rows<PeerView>, now: i64, n: int) -> Seq<PeerInfoView>
    decreases n,
{
    if n <= 0 {
        Seq::empty()
    } else if is_dht_node(peers.keys[n - 1]) {
        named_peers(peers, now, n - 1).push(
            PeerInfoView { node_id: peers.keys[n - 1], ip: peers.values[n - 1].addr, connected_at: now },
        )
    } else {
        named_peers(peers, now, n - 1)
    }
}

/// What a lookup in the hash table gives at once.
#[derive(Debug)]
pub enum DhtLookup {
    /// The key is held here.
    Found { value: String },
    /// Peers were asked; the answer comes as an action under `request_id`,
    /// or not at all.
    Asked { request_id: String, actions: Vec<Action> },
}

/// What a [`DhtLookup`] is in contracts.
pub enum DhtLookupView {
    Found { value: Seq<char> },
    Asked { request_id: Seq<char>, actions: Seq<ActionView> },
}

impl View for DhtLookup {
    type V = DhtLookupView;

    open spec fn view(&self) -> DhtLookupView {
        match self {
            DhtLookup::Found { value } => DhtLookupView::Found { value: value@ },
            DhtLookup::Asked { request_id, actions } => DhtLookupView::Asked {
                request_id: request_id@,
                actions: actions.deep_view(),
            },
        }
    }
}

impl MeshView {
    /// A lookup: the value where the key is held here; else someone waits
    /// under `request_id` and the closest peers are asked.
    pub open spec fn dht_find(self, key: Seq<char>, now: i64, request_id: Seq<char>) -> (MeshView, DhtLookupView) {
        match self.find_local(key) {
            Some(value) => (self, DhtLookupView::Found { value }),
            None => (
                MeshView { dht_waiters: self.dht_waiters.put(request_id, now), ..self },
                DhtLookupView::Asked {
                    request_id,
                    actions: sends(
                        closest(self.peers, key, at_least_one(self.dht_alpha), None),
                        self.find_message(key, request_id, now),
                    ),
                },
            ),
        }
    }

    /// What gossiping a message does: it gets `drawn_id` where it has no
    /// identifier, is entered as seen, and goes to the selected peers.
    pub open spec fn gossip(
        self,
        m: WireMessageView,
        exclude: Option<Seq<char>>,
        now: i64,
        drawn_id: Seq<char>,
        places: Seq<usize>,
    ) -> (MeshView, Seq<ActionView>) {
        self.broadcast(m, now, drawn_id, selection(self.peers, self.fanout_for(m.message_type), exclude, places))
    }

    /// A write to the hash table: the value is kept here and a copy goes to
    /// each of the closest peers but this node itself.
    pub open spec fn dht_store(self, key: Seq<char>, value: Seq<char>, now: i64) -> (MeshView, Seq<ActionView>) {
        let targets = closest(self.peers, key, at_least_one(self.dht_k), None);
        (
            self.stored(key, value),
            sends(
                without_self(targets, self.node_id, targets.len() as int),
                plain("dht_store"@, store_payload(key, value), now),
            ),
        )
    }

    /// The message that gossips a capsule.
    pub open spec fn capsule_message(self, capsule: Seq<char>, now: i64) -> WireMessageView {
        WireMessageView { hops_left: Some(self.default_hops), ..plain("capsule"@, capsule, now) }
    }

    /// The message that gossips a task.
    pub open spec fn task_message(self, task: Seq<char>, now: i64) -> WireMessageView {
        WireMessageView { hops_left: Some(self.task_hops), ..plain("task"@, task, now) }
    }

    /// The lookup that is sent to peers.
    pub open spec fn find_message(self, key: Seq<char>, request_id: Seq<char>, now: i64) -> WireMessageView {
        WireMessageView {
            hops_left: Some(self.dht_max_hops),
            request_id: Some(request_id),
            ..plain("dht_find"@, find_payload(key, self.node_id), now)
        }
    }

    /// The node without the lookups and queries that have waited for more
    /// than five seconds, and without the ways back that are as old.
    pub open spec fn reaped(self, now: i64) -> MeshView {
        MeshView {
            dht_routes: self.dht_routes.kept(
                route_flags(self.dht_routes, now),
                self.dht_routes.keys.len() as int,
            ),
            dht_waiters: self.dht_waiters.kept(
                fresh_flags(self.dht_waiters, now, 5_000),
                self.dht_waiters.keys.len() as int,
            ),
            query_waiters: self.query_waiters.kept(
                fresh_flags(self.query_waiters, now, 5_000),
                self.query_waiters.keys.len() as int,
            ),
            ..self
        }
    }

    /// A heartbeat: pings that went unanswered for 15 seconds are forgotten,
    /// and each peer for which there is an identifier is pinged.
    pub open spec fn heartbeat(self, now: i64, ids: Seq<Seq<char>>) -> (MeshView, Seq<ActionView>) {
        let awaited = self.pending_pings.kept(
            awaited_flags(self.pending_pings, now),
            self.pending_pings.keys.len() as int,
        );
        let n = least(self.peers.keys.len(), ids.len());
        (
            MeshView { pending_pings: pinged(awaited, self.peers.keys, ids, now, n), ..self },
            pings(self.peers.keys, ids, now, n),
        )
    }
}

impl MeshNode {
    /// Takes in one frame that came over the connection `session` at `now`.
    pub fn handle_frame(&mut self, session: &mut Session, message: WireMessage, now: i64) -> (r: Vec<Action>)
        requires
            old(self).wf(),
        ensures
            final(self).wf(),
            exists|places: Seq<usize>|
                is_shuffle(places, old(self)@.peers.keys.len()) && (
                    final(self)@,
                    final(session)@,
                    r.deep_view(),
                ) == #[trigger] old(self)@.frame_outcome(old(session)@, message@, now, places),
    {
        let places = shuffled_places(self.peers.len());
        self.handle_frame_with(session, message, now, &places)
    }

    /// Takes in one line that came over the connection `session` at `now`.
    /// A line that holds no message is passed over.
    pub fn handle_line(&mut self, session: &mut Session, line: &str, now: i64) -> (r: Vec<Action>)
        requires
            old(self).wf(),
        ensures
            final(self).wf(),
            match crate::wire::frame_in(line@) {
                None => final(self)@ == old(self)@ && final(session)@ == old(session)@ && r.deep_view()
                    == Seq::<ActionView>::empty(),
                Some(message) => exists|places: Seq<usize>|
                    is_shuffle(places, old(self)@.peers.keys.len()) && (
                        final(self)@,
                        final(session)@,
                        r.deep_view(),
                    ) == #[trigger] old(self)@.frame_outcome(old(session)@, message, now, places),
            },
    {
        match WireMessage::from_line(line) {
            Ok(message) => self.handle_frame(session, message, now),
            Err(_) => no_actions(),
        }
    }

    /// The identifier of `message`; `drawn` is given to it where it has none.
    pub fn ensure_message_id(message: &mut WireMessage, drawn: String) -> (id: String)
        ensures
            id@ == match old(message)@.message_id {
                Some(id) => id,
                None => drawn@,
            },
            final(message)@ == (WireMessageView { message_id: Some(id@), ..old(message)@ }),
    {
        match &message.message_id {
            Some(id) => id.clone(),
            None => {
                message.message_id = Some(drawn.clone());
                drawn
            },
        }
    }

    /// Gossips `message`: it gets `drawn_id` where it has no identifier, is
    /// entered as seen, and goes to the peers that are selected for it.
    pub fn broadcast_with(
        &mut self,
        message: WireMessage,
        exclude_peer: Option<String>,
        now: i64,
        drawn_id: String,
        places: &Vec<usize>,
    ) -> (r: Vec<Action>)
        requires
            old(self).wf(),
        ensures
            final(self).wf(),
            (final(self)@, r.deep_view()) == old(self)@.gossip(
                message@,
                exclude_peer.deep_view(),
                now,
                drawn_id@,
                places@,
            ),
    {
        let mut message = message;
        let id = Self::ensure_message_id(&mut message, drawn_id);
        self.mark_message_seen(id.as_str(), now);
        let fanout = if task_class(message.message_type.as_str()) {
            self.task_fanout
        } else {
            self.default_fanout
        };
        let targets = self.select_peers(fanout, &exclude_peer, places);
        send_each(&targets, &message)
    }

    /// Gossips `message` to the peers that are selected for it.
    pub fn broadcast(&mut self, message: WireMessage, exclude_peer: Option<String>, now: i64) -> (r: Vec<Action>)
        requires
            old(self).wf(),
        ensures
            final(self).wf(),
            exists|drawn_id: Seq<char>, places: Seq<usize>|
                is_drawn_token(drawn_id) && is_shuffle(places, old(self)@.peers.keys.len()) && (
                    final(self)@,
                    r.deep_view(),
                ) == #[trigger] old(self)@.gossip(
                    message@,
                    exclude_peer.deep_view(),
                    now,
                    drawn_id,
                    places,
                ),
    {
        let drawn_id = random_token(12);
        let places = shuffled_places(self.peers.len());
        self.broadcast_with(message, exclude_peer, now, drawn_id, &places)
    }

    /// Gossips a capsule, given as the text of a JSON document.
    pub fn broadcast_capsule(&mut self, capsule: String, now: i64) -> (r: Vec<Action>)
        requires
            old(self).wf(),
        ensures
            final(self).wf(),
            exists|drawn_id: Seq<char>, places: Seq<usize>|
                is_drawn_token(drawn_id) && is_shuffle(places, old(self)@.peers.keys.len()) && (
                    final(self)@,
                    r.deep_view(),
                ) == #[trigger] old(self)@.gossip(
                    old(self)@.capsule_message(capsule@, now),
                    None,
                    now,
                    drawn_id,
                    places,
                ),
    {
        let mut message = WireMessage::new("capsule", capsule, now);
        message.hops_left = Some(self.default_hops);
        self.broadcast(message, None, now)
    }

    /// Gossips a task, given as the text of a JSON document.
    pub fn broadcast_task(&mut self, task: String, now: i64) -> (r: Vec<Action>)
        requires
            old(self).wf(),
        ensures
            final(self).wf(),
            exists|drawn_id: Seq<char>, places: Seq<usize>|
                is_drawn_token(drawn_id) && is_shuffle(places, old(self)@.peers.keys.len()) && (
                    final(self)@,
                    r.deep_view(),
                ) == #[trigger] old(self)@.gossip(
                    old(self)@.task_message(task@, now),
                    None,
                    now,
                    drawn_id,
                    places,
                ),
    {
        let mut message = WireMessage::new("task", task, now);
        message.hops_left = Some(self.task_hops);
        self.broadcast(message, None, now)
    }

    /// Sends `message` to every peer but `exclude_peer`.
    pub fn broadcast_all_with(
        &mut self,
        message: WireMessage,
        exclude_peer: Option<String>,
        now: i64,
        drawn_id: String,
    ) -> (r: Vec<Action>)
        requires
            old(self).wf(),
        ensures
            final(self).wf(),
            (final(self)@, r.deep_view()) == old(self)@.broadcast(
                message@,
                now,
                drawn_id@,
                everyone_but(
                    old(self)@.peers.keys,
                    exclude_peer.deep_view(),
                    old(self)@.peers.keys.len() as int,
                ),
            ),
    {
        let mut message = message;
        let id = Self::ensure_message_id(&mut message, drawn_id);
        self.mark_message_seen(id.as_str(), now);
        let names = self.peers.keys();
        let mut targets: Vec<String> = Vec::new();
        let mut i: usize = 0;
        while i < names.len()
            invariant
                i <= names.len(),
                targets.deep_view() == everyone_but(names.deep_view(), exclude_peer.deep_view(), i as int),
            decreases names.len() - i,
        {
            assert(names.deep_view()[i as int] == names[i as int]@);
            if differs(names[i].as_str(), &exclude_peer) {
                let ghost before = targets.deep_view();
                targets.push(names[i].clone());
                assert(targets.deep_view() =~= before.push(names[i as int]@));
            }
            i += 1;
        }
        send_each(&targets, &message)
    }

    /// Sends `message` to every peer but `exclude_peer`.
    pub fn broadcast_all(&mut self, message: WireMessage, exclude_peer: Option<String>, now: i64) -> (r: Vec<
        Action,
    >)
        requires
            old(self).wf(),
        ensures
            final(self).wf(),
            exists|drawn_id: Seq<char>|
                is_drawn_token(drawn_id) && (final(self)@, r.deep_view()) == #[trigger] old(self)@.broadcast(
                    message@,
                    now,
                    drawn_id,
                    everyone_but(
                        old(self)@.peers.keys,
                        exclude_peer.deep_view(),
                        old(self)@.peers.keys.len() as int,
                    ),
                ),
    {
        let drawn_id = random_token(12);
        self.broadcast_all_with(message, exclude_peer, now, drawn_id)
    }

    /// Writes `value`, the text of a JSON document, under `key` in the hash
    /// table: here, and with a copy to the closest peers.
    pub fn dht_store(&mut self, key: String, value: String, now: i64) -> (r: Vec<Action>)
        requires
            old(self).wf(),
        ensures
            final(self).wf(),
            (final(self)@, r.deep_view()) == old(self)@.dht_store(key@, value@, now),
    {
        store_dht_value(&mut self.dht_store, key.as_str(), value.clone());
        let count = if self.dht_k == 0 {
            1
        } else {
            self.dht_k
        };
        let targets = self.select_closest_peers(key.as_str(), count, &None);
        let mut others: Vec<String> = Vec::new();
        let mut i: usize = 0;
        while i < targets.len()
            invariant
                i <= targets.len(),
                others.deep_view() == without_self(targets.deep_view(), self.node_id@, i as int),
            decreases targets.len() - i,
        {
            assert(targets.deep_view()[i as int] == targets[i as int]@);
            if !str_eq(targets[i].as_str(), self.node_id.as_str()) {
                let ghost before = others.deep_view();
                others.push(targets[i].clone());
                assert(others.deep_view() =~= before.push(targets[i as int]@));
            }
            i += 1;
        }
        let message = WireMessage::new("dht_store", store_payload_text(key.as_str(), value.as_str()), now);
        send_each(&others, &message)
    }

    /// What the hash table holds under `key` on this node.
    pub fn dht_find_local(&self, key: &str) -> (r: Option<String>)
        requires
            self.wf(),
        ensures
            r.deep_view() == self@.find_local(key@),
    {
        match self.dht_store.get(key) {
            Some(v) => Some(v.clone()),
            None => None,
        }
    }

    /// Looks `key` up: at once where it is held here; else the closest peers
    /// are asked under `request_id`, and someone waits for their answer.
    pub fn dht_find_with(&mut self, key: String, now: i64, request_id: String) -> (r: DhtLookup)
        requires
            old(self).wf(),
        ensures
            final(self).wf(),
            (final(self)@, r@) == old(self)@.dht_find(key@, now, request_id@),
    {
        match self.dht_store.get(key.as_str()) {
            Some(v) => {
                return DhtLookup::Found { value: v.clone() };
            },
            None => {},
        }
        self.dht_waiters.put(request_id.clone(), now);
        let count = if self.dht_alpha == 0 {
            1
        } else {
            self.dht_alpha
        };
        let targets = self.select_closest_peers(key.as_str(), count, &None);
        let mut message = WireMessage::new(
            "dht_find",
            find_payload_text(key.as_str(), self.node_id.as_str()),
            now,
        );
        message.hops_left = Some(self.dht_max_hops);
        message.request_id = Some(request_id.clone());
        let actions = send_each(&targets, &message);
        DhtLookup::Asked { request_id, actions }
    }

    /// Looks `key` up, asking peers under a drawn identifier where it is not
    /// held here.
    pub fn dht_find(&mut self, key: String, now: i64) -> (r: DhtLookup)
        requires
            old(self).wf(),
        ensures
            final(self).wf(),
            exists|request_id: Seq<char>|
                is_drawn_token(request_id) && (final(self)@, r@) == #[trigger] old(self)@.dht_find(
                    key@,
                    now,
                    request_id,
                ),
    {
        let request_id = random_token(12);
        self.dht_find_with(key, now, request_id)
    }

    /// Nobody answered the lookup `request_id` in time: it is given up.
    pub fn dht_find_expired(&mut self, request_id: &str) -> (e: MeshError)
        requires
            old(self).wf(),
        ensures
            final(self).wf(),
            final(self)@ == (MeshView {
                dht_waiters: old(self)@.dht_waiters.remove(request_id@),
                ..old(self)@
            }),
            e == MeshError::DhtTimeout,
    {
        let _ = self.dht_waiters.remove(request_id);
        MeshError::DhtTimeout
    }

    /// Someone waits for the answer to the query `request_id` from `now` on.
    pub fn expect_answer(&mut self, request_id: String, now: i64)
        requires
            old(self).wf(),
        ensures
            final(self).wf(),
            final(self)@ == (MeshView {
                query_waiters: old(self)@.query_waiters.put(request_id@, now),
                ..old(self)@
            }),
    {
        self.query_waiters.put(request_id, now);
    }

    /// Forgets the lookups and queries that nobody answered within five
    /// seconds, and the ways back of lookups that are as old.
    pub fn reap(&mut self, now: i64)
        requires
            old(self).wf(),
        ensures
            final(self).wf(),
            final(self)@ == old(self)@.reaped(now),
    {
        let n = self.dht_routes.len();
        let mut keep: Vec<bool> = Vec::new();
        let mut i: usize = 0;
        while i < n
            invariant
                i <= n,
                n == self@.dht_routes.keys.len(),
                self.wf(),
                keep@ == route_flags(self@.dht_routes, now).take(i as int),
            decreases n - i,
        {
            let noted_at = self.dht_routes.value_at(i).noted_at;
            keep.push(now as i128 - noted_at as i128 <= 5_000);
            assert(keep@ =~= route_flags(self@.dht_routes, now).take(i + 1));
            i += 1;
        }
        assert(keep@ =~= route_flags(self@.dht_routes, now));
        self.dht_routes.keep_only(&keep);
        keep_fresh(&mut self.dht_waiters, now, 5_000);
        keep_fresh(&mut self.query_waiters, now, 5_000);
    }

    /// A heartbeat at `now`, with the identifiers for the pings.
    pub fn heartbeat_with(&mut self, now: i64, ping_ids: &Vec<String>) -> (r: Vec<Action>)
        requires
            old(self).wf(),
        ensures
            final(self).wf(),
            (final(self)@, r.deep_view()) == old(self)@.heartbeat(now, ping_ids.deep_view()),
    {
        let m = self.pending_pings.len();
        let mut awaited: Vec<bool> = Vec::new();
        let mut j: usize = 0;
        while j < m
            invariant
                j <= m,
                m == self@.pending_pings.keys.len(),
                self.wf(),
                awaited@ == awaited_flags(self@.pending_pings, now).take(j as int),
            decreases m - j,
        {
            let sent_at = self.pending_pings.value_at(j).sent_at;
            awaited.push(now as i128 - sent_at as i128 <= 15_000);
            assert(awaited@ =~= awaited_flags(self@.pending_pings, now).take(j + 1));
            j += 1;
        }
        assert(awaited@ =~= awaited_flags(self@.pending_pings, now));
        self.pending_pings.keep_only(&awaited);
        let ghost kept = self@.pending_pings;
        let n = if self.peers.len() < ping_ids.len() {
            self.peers.len()
        } else {
            ping_ids.len()
        };
        let mut out: Vec<Action> = Vec::new();
        let mut i: usize = 0;
        while i < n
            invariant
                i <= n,
                n <= ping_ids.len(),
                n <= self@.peers.keys.len(),
                self.wf(),
                self@ == (MeshView {
                    pending_pings: pinged(kept, old(self)@.peers.keys, ping_ids.deep_view(), now, i as int),
                    ..old(self)@
                }),
                out.len() == i,
                forall|k: int|
                    0 <= k < i ==> (#[trigger] out[k])@ == (ActionView::Send {
                        peer_id: old(self)@.peers.keys[k],
                        message: ping(ping_ids.deep_view()[k], now),
                    }),
            decreases n - i,
        {
            let peer_id = self.peers.key_at(i).clone();
            let ping_id = ping_ids[i].clone();
            assert(ping_ids.deep_view()[i as int] == ping_ids[i as int]@);
            self.pending_pings.put(ping_id.clone(), PendingPing { peer_id: peer_id.clone(), sent_at: now });
            let mut message = WireMessage::new("ping", "{}".to_string(), now);
            message.message_id = Some(ping_id);
            out.push(Action::Send { peer_id, message });
            i += 1;
        }
        assert(out.deep_view() =~= pings(old(self)@.peers.keys, ping_ids.deep_view(), now, n as int));
        out
    }

    /// A heartbeat at `now`: every peer is pinged under a drawn identifier.
    pub fn heartbeat(&mut self, now: i64) -> (r: Vec<Action>)
        requires
            old(self).wf(),
        ensures
            final(self).wf(),
            exists|ids: Seq<Seq<char>>|
                ids.len() == old(self)@.peers.keys.len() && (forall|i: int|
                    0 <= i < ids.len() ==> is_drawn_token(#[trigger] ids[i])) && (final(self)@, r.deep_view())
                    == #[trigger] old(self)@.heartbeat(now, ids),
    {
        let n = self.peers.len();
        let mut ids: Vec<String> = Vec::new();
        let mut i: usize = 0;
        while i < n
            invariant
                i <= n,
                ids.len() == i,
                forall|j: int| 0 <= j < i ==> is_drawn_token(#[trigger] ids.deep_view()[j]),
            decreases n - i,
        {
            let ghost before = ids.deep_view();
            let id = random_token(12);
            ids.push(id);
            assert(ids.deep_view() =~= before.push(id@));
            i += 1;
        }
        assert(ids.deep_view().len() == n);
        self.heartbeat_with(now, &ids)
    }

    /// How many peers are connected.
    pub fn peer_count(&self) -> (n: usize)
        requires
            self.wf(),
        ensures
            n == self@.peers.keys.len(),
    {
        self.peers.len()
    }

    /// The connected peers that have told their name.
    pub fn get_peers(&self, now: i64) -> (r: Vec<PeerInfo>)
        requires
            self.wf(),
        ensures
            r.deep_view() == named_peers(self@.peers, now, self@.peers.keys.len() as int),
    {
        let n = self.peers.len();
        let mut out: Vec<PeerInfo> = Vec::new();
        let mut i: usize = 0;
        while i < n
            invariant
                i <= n,
                n == self@.peers.keys.len(),
                self.wf(),
                out.deep_view() == named_peers(self@.peers, now, i as int),
            decreases n - i,
        {
            let name = self.peers.key_at(i);
            if has_prefix(name.as_str(), "node_") {
                let ghost before = out.deep_view();
                let info = PeerInfo {
                    node_id: name.clone(),
                    ip: self.peers.value_at(i).addr.clone(),
                    connected_at: now,
                };
                out.push(info);
                assert(out.deep_view() =~= before.push(info@));
            }
            i += 1;
        }
        out
    }
}

/// An identifier that has just been entered as seen is still there after
/// the pruning that follows.
pub proof fn lemma_marked_has(seen: Rows<i64>, id: Seq<char>, now: i64, ttl: i64, max: usize)
    requires
        seen.wf(),
        !seen.has(id),
        ttl >= 0,
        max >= 1,
    ensures
        marked(seen, id, now, ttl, max).has(id),
{
    let entered = seen.put(id, now);
    seen.lemma_put(id, now);
    let n = entered.keys.len() as int;
    let flags = fresh_flags(entered, now, ttl);
    assert(flags[n - 1]);
    let fresh = entered.kept(flags, n);
    assert(fresh.keys.last() == id);
    let m = fresh.keys.len() as int;
    let recent = recent_flags(fresh.keys.len(), max);
    assert(recent[m - 1]);
    let left = fresh.kept(recent, m);
    assert(left.keys.last() == id);
    assert(left.keys[left.keys.len() - 1] == id);
}

/// A message whose identifier a node has seen is not handed to the
/// dispatcher again: of two frames with the same identifier that a node
/// takes in, one after the other, the second leads to no delivery.
pub proof fn duplicate_is_dropped(
    s: MeshView,
    first_session: SessionView,
    first: WireMessageView,
    first_at: i64,
    first_places: Seq<usize>,
    second_session: SessionView,
    second: WireMessageView,
    second_at: i64,
    second_places: Seq<usize>,
)
    requires
        s.wf(),
        first.message_id is Some,
        second.message_id == first.message_id,
    ensures
        ({
            let once = s.frame_outcome(first_session, first, first_at, first_places).0;
            let twice = once.frame_outcome(second_session, second, second_at, second_places);
            &&& once.seen.has(first.message_id->0)
            &&& twice.0.seen == once.seen
            &&& forall|i: int| 0 <= i < twice.2.len() ==> !(#[trigger] twice.2[i] is Deliver)
        }),
{
    let id = first.message_id->0;
    let (known, greeted, greeting) = s.greeted(first_session, first, first_at);
    if !known.seen.has(id) {
        lemma_marked_has(known.seen, id, first_at, known.seen_ttl_ms, known.max_seen);
    }
    let once = s.frame_outcome(first_session, first, first_at, first_places).0;
    assert(once.seen.has(id));
}

/// What a node writes to the hash table it finds there again: the value
/// itself, or, where an array was written over an array, their union. The
/// same holds on a peer that takes the write in.
pub proof fn stored_value_is_found(s: MeshView, key: Seq<char>, value: Seq<char>, now: i64)
    requires
        s.wf(),
    ensures
        s.dht_store(key, value, now).0.find_local(key) == Some(merged(s.find_local(key), value)),
        !(s.find_local(key) is Some && items_in(s.find_local(key)->0) is Some && items_in(value) is Some)
            ==> s.dht_store(key, value, now).0.find_local(key) == Some(value),
        forall|m: WireMessageView|
            string_member(m.payload, "key"@) == Some(key) && member_of(m.payload, "value"@) == Some(value)
                ==> (#[trigger] s.store_received(m)).find_local(key) == Some(
                merged(s.find_local(key), value),
            ),
{
    s.dht_store.lemma_put(key, merged(s.dht_store.get(key), value));
}

} // verus!
