//! Whom a message reaches: what holds of the peers that a relay, a gossip
//! or a write to the hash table picks.

use vstd::prelude::*;
use crate::order::{lemma_sort_order, sort_order};
use crate::p2p::{
    at_least_one, at_most, closest, dht_flags, distance_keys, eligible, is_dht_node, measured_flags,
    merged, names_at, picked, relayable, reordered, rtt_keys, selection, sends, store_payload,
    unmeasured_flags, without_self, ActionView, MeshView, PeerView,
};
use crate::table::Rows;
use crate::wire::{plain, InboundMessageView, WireMessageView};

verus! {

/// The places of the peers that take part in the hash table, `exclude` left out.
pub open spec fn dht_nodes(peers: Rows<PeerView>, exclude: Option<Seq<char>>) -> Seq<usize> {
    eligible(peers.keys, dht_flags(peers, exclude), peers.keys.len() as int)
}

/// Every place of `places` is a place of `flags` whose flag is set.
spec fn flagged(places: Seq<usize>, flags: Seq<bool>) -> bool {
    forall|i: int| 0 <= i < places.len() ==> (#[trigger] places[i]) < flags.len() && flags[places[i] as int]
}

/// `eligible` lists the places whose flag is set, each once.
proof fn lemma_eligible(peers: Seq<Seq<char>>, allowed: Seq<bool>, n: int)
    requires
        0 <= n <= allowed.len(),
        n <= usize::MAX,
    ensures
        eligible(peers, allowed, n).len() <= n,
        flagged(eligible(peers, allowed, n), allowed),
        forall|i: int| 0 <= i < eligible(peers, allowed, n).len() ==> (#[trigger] eligible(peers, allowed, n)[i]) < n,
        eligible(peers, allowed, n).no_duplicates(),
        forall|k: int| 0 <= k < n && #[trigger] allowed[k] ==> eligible(peers, allowed, n).contains(k as usize),
    decreases n,
{
    if n > 0 {
        lemma_eligible(peers, allowed, n - 1);
        let before = eligible(peers, allowed, n - 1);
        let after = eligible(peers, allowed, n);
        if allowed[n - 1] {
            assert(after[before.len() as int] == (n - 1) as usize);
            assert forall|k: int| 0 <= k < n && #[trigger] allowed[k] implies after.contains(k as usize) by {
                if k < n - 1 {
                    let at = choose|i: int| 0 <= i < before.len() && before[i] == k as usize;
                    assert(after[at] == k as usize);
                }
            }
        }
    }
}

/// Sorting a list of places moves them and neither adds nor drops one.
proof fn lemma_reordered(pool: Seq<usize>, order: Seq<usize>, flags: Seq<bool>)
    requires
        pool.len() <= usize::MAX,
        pool.no_duplicates(),
        flagged(pool, flags),
        order.no_duplicates(),
        order.len() == pool.len(),
        forall|i: int| 0 <= i < order.len() ==> (#[trigger] order[i]) < pool.len(),
        forall|k: int| 0 <= k < pool.len() ==> order.contains(#[trigger] (k as usize)),
    ensures
        reordered(pool, order).len() == pool.len(),
        reordered(pool, order).no_duplicates(),
        flagged(reordered(pool, order), flags),
        forall|k: int| 0 <= k < pool.len() ==> reordered(pool, order).contains(#[trigger] pool[k]),
{
    let moved = reordered(pool, order);
    assert forall|k: int| 0 <= k < pool.len() implies moved.contains(#[trigger] pool[k]) by {
        assert(order.contains(k as usize));
        let at = choose|i: int| 0 <= i < order.len() && order[i] == k as usize;
        assert(moved[at] == pool[k]);
    }
}

/// What is picked from a pool is of the pool, and nothing is picked twice.
proof fn lemma_picked(pool: Seq<usize>, places: Seq<usize>, n: int, flags: Seq<bool>)
    requires
        0 <= n <= places.len(),
        flagged(pool, flags),
    ensures
        picked(pool, places, n).no_duplicates(),
        flagged(picked(pool, places, n), flags),
    decreases n,
{
    if n > 0 {
        lemma_picked(pool, places, n - 1, flags);
    }
}

/// The names at distinct places of a table are distinct names of the table.
proof fn lemma_names_at(keys: Seq<Seq<char>>, places: Seq<usize>)
    requires
        keys.no_duplicates(),
        places.no_duplicates(),
        forall|i: int| 0 <= i < places.len() ==> (#[trigger] places[i]) < keys.len(),
    ensures
        names_at(keys, places).len() == places.len(),
        names_at(keys, places).no_duplicates(),
        forall|i: int| 0 <= i < places.len() ==> keys.contains(#[trigger] names_at(keys, places)[i]),
{
    let names = names_at(keys, places);
    assert forall|i: int| 0 <= i < places.len() implies keys.contains(#[trigger] names[i]) by {
        assert(keys[places[i] as int] == names[i]);
    }
}

/// The peers that a message is gossiped to are peers of the node, none of
/// them twice, never more than the fan-out, and never the excluded one.
pub proof fn selection_leaves_out_the_excluded(
    peers: Rows<PeerView>,
    fanout: usize,
    exclude: Option<Seq<char>>,
    places: Seq<usize>,
)
    requires
        peers.wf(),
        peers.len() <= usize::MAX,
    ensures
        selection(peers, fanout, exclude, places).len() <= fanout,
        selection(peers, fanout, exclude, places).no_duplicates(),
        forall|i: int|
            0 <= i < selection(peers, fanout, exclude, places).len() ==> peers.has(
                #[trigger] selection(peers, fanout, exclude, places)[i],
            ) && Some(selection(peers, fanout, exclude, places)[i]) != exclude,
{
    let n = peers.keys.len() as int;
    let known = measured_flags(peers, exclude);
    let unknown = unmeasured_flags(peers, exclude);
    let measured = eligible(peers.keys, known, n);
    let others = eligible(peers.keys, unknown, n);
    lemma_eligible(peers.keys, known, n);
    lemma_eligible(peers.keys, unknown, n);
    let order = sort_order(rtt_keys(peers, measured), false);
    lemma_sort_order(rtt_keys(peers, measured), false);
    lemma_reordered(measured, order, known);
    lemma_picked(others, places, places.len() as int, unknown);
    let first = reordered(measured, order);
    let second = picked(others, places, places.len() as int);
    let all = first + second;
    assert forall|i: int, j: int| 0 <= i < all.len() && 0 <= j < all.len() && i != j implies all[i]
        != all[j] by {
        if i < first.len() && j >= first.len() {
            assert(known[first[i] as int]);
            assert(unknown[second[j - first.len()] as int]);
        } else if j < first.len() && i >= first.len() {
            assert(known[first[j] as int]);
            assert(unknown[second[i - first.len()] as int]);
        }
    }
    assert forall|i: int| 0 <= i < all.len() implies (#[trigger] all[i]) < n && Some(
        peers.keys[all[i] as int],
    ) != exclude by {
        if i < first.len() {
            assert(known[first[i] as int]);
        } else {
            assert(unknown[second[i - first.len()] as int]);
        }
    }
    lemma_names_at(peers.keys, all);
    let names = names_at(peers.keys, all);
    assert(names =~= names_at(peers.keys, first) + names_at(peers.keys, second));
    let chosen = selection(peers, fanout, exclude, places);
    assert(chosen == at_most(names, fanout));
    assert forall|i: int| 0 <= i < chosen.len() implies peers.has(#[trigger] chosen[i]) && Some(chosen[i])
        != exclude by {
        assert(chosen[i] == names[i]);
        assert(names[i] == peers.keys[all[i] as int]);
    }
    assert forall|i: int, j: int| 0 <= i < chosen.len() && 0 <= j < chosen.len() && i != j implies chosen[i]
        != chosen[j] by {
        assert(chosen[i] == names[i]);
        assert(chosen[j] == names[j]);
    }
}

/// The peers closest to a key take part in the hash table, none of them is
/// the excluded one or comes twice, and there are never more than asked
/// for. Where no more peers take part than are asked for, every one of them
/// is among the closest.
pub proof fn closest_holds_each_node_once(
    peers: Rows<PeerView>,
    key: Seq<char>,
    count: usize,
    exclude: Option<Seq<char>>,
)
    requires
        peers.wf(),
        peers.len() <= usize::MAX,
    ensures
        dht_nodes(peers, exclude).len() <= peers.len(),
        closest(peers, key, count, exclude).len() <= count,
        closest(peers, key, count, exclude).no_duplicates(),
        forall|i: int|
            0 <= i < closest(peers, key, count, exclude).len() ==> {
                let id = #[trigger] closest(peers, key, count, exclude)[i];
                peers.has(id) && is_dht_node(id) && Some(id) != exclude
            },
        dht_nodes(peers, exclude).len() <= count ==> forall|id: Seq<char>|
            peers.has(id) && is_dht_node(id) && Some(id) != exclude ==> #[trigger] closest(
                peers,
                key,
                count,
                exclude,
            ).contains(id),
{
    let n = peers.keys.len() as int;
    let flags = dht_flags(peers, exclude);
    let nodes = eligible(peers.keys, flags, n);
    lemma_eligible(peers.keys, flags, n);
    let order = sort_order(distance_keys(peers, nodes, key), false);
    lemma_sort_order(distance_keys(peers, nodes, key), false);
    lemma_reordered(nodes, order, flags);
    let sorted = reordered(nodes, order);
    lemma_names_at(peers.keys, sorted);
    let names = names_at(peers.keys, sorted);
    let chosen = closest(peers, key, count, exclude);
    assert(chosen == at_most(names, count));
    assert forall|i: int| 0 <= i < chosen.len() implies {
        let id = #[trigger] chosen[i];
        peers.has(id) && is_dht_node(id) && Some(id) != exclude
    } by {
        assert(chosen[i] == names[i]);
        assert(names[i] == peers.keys[sorted[i] as int]);
        assert(flags[sorted[i] as int]);
    }
    assert forall|i: int, j: int| 0 <= i < chosen.len() && 0 <= j < chosen.len() && i != j implies chosen[i]
        != chosen[j] by {
        assert(chosen[i] == names[i]);
        assert(chosen[j] == names[j]);
    }
    if nodes.len() <= count {
        assert(chosen == names);
        assert forall|id: Seq<char>| peers.has(id) && is_dht_node(id) && Some(id) != exclude implies chosen.contains(
            id,
        ) by {
            peers.lemma_has(id);
            let k = peers.place(id);
            assert(flags[k]);
            assert(nodes.contains(k as usize));
            let at = choose|i: int| 0 <= i < nodes.len() && nodes[i] == k as usize;
            assert(sorted.contains(nodes[at]));
            let to = choose|i: int| 0 <= i < sorted.len() && sorted[i] == nodes[at];
            assert(names[to] == id);
        }
    }
}

/// Leaving this node out of a list of distinct peers leaves the others, each once.
proof fn lemma_without_self(targets: Seq<Seq<char>>, node_id: Seq<char>, n: int)
    requires
        0 <= n <= targets.len(),
        targets.no_duplicates(),
    ensures
        without_self(targets, node_id, n).no_duplicates(),
        forall|id: Seq<char>|
            #[trigger] without_self(targets, node_id, n).contains(id) <==> id != node_id && targets.take(
                n,
            ).contains(id),
    decreases n,
{
    if n > 0 {
        lemma_without_self(targets, node_id, n - 1);
        let before = without_self(targets, node_id, n - 1);
        let after = without_self(targets, node_id, n);
        let last = targets[n - 1];
        let head = targets.take(n);
        let short = targets.take(n - 1);
        assert(head[n - 1] == last);
        assert forall|id: Seq<char>| #[trigger] after.contains(id) <==> id != node_id && head.contains(id) by {
            if head.contains(id) {
                let at = choose|i: int| 0 <= i < head.len() && head[i] == id;
                if at < n - 1 {
                    assert(short[at] == id);
                }
            }
            if short.contains(id) {
                let at = choose|i: int| 0 <= i < short.len() && short[i] == id;
                assert(head[at] == id);
            }
            if last != node_id {
                assert(after == before.push(last));
                assert(after[before.len() as int] == last);
                if before.contains(id) {
                    let at = choose|i: int| 0 <= i < before.len() && before[i] == id;
                    assert(after[at] == id);
                }
                if after.contains(id) {
                    let at = choose|i: int| 0 <= i < after.len() && after[i] == id;
                    if at < before.len() {
                        assert(before[at] == id);
                    }
                }
            }
        }
        if last != node_id && before.contains(last) {
            let at = choose|i: int| 0 <= i < short.len() && short[i] == last;
            assert(targets[at] == targets[n - 1]);
        }
    }
}

/// A write to the hash table on a node with no more peers in the table
/// than it copies to: the value is kept here, merged with what was there,
/// and the copies go to exactly the peers that take part in the table, this
/// node left out, one copy each, all with the key and the value.
pub proof fn dht_store_reaches_each_node_once(node: MeshView, key: Seq<char>, value: Seq<char>, now: i64)
    requires
        node.wf(),
        node.peers.len() <= usize::MAX,
        dht_nodes(node.peers, None).len() <= at_least_one(node.dht_k),
    ensures
        ({
            let (after, actions) = node.dht_store(key, value, now);
            let found = closest(node.peers, key, at_least_one(node.dht_k), None);
            let targets = without_self(found, node.node_id, found.len() as int);
            &&& after.find_local(key) == Some(merged(node.find_local(key), value))
            &&& actions == sends(targets, plain("dht_store"@, store_payload(key, value), now))
            &&& targets.no_duplicates()
            &&& forall|id: Seq<char>|
                #[trigger] targets.contains(id) <==> node.peers.has(id) && is_dht_node(id) && id
                    != node.node_id
        }),
{
    let count = at_least_one(node.dht_k);
    closest_holds_each_node_once(node.peers, key, count, None);
    let found = closest(node.peers, key, count, None);
    lemma_without_self(found, node.node_id, found.len() as int);
    assert(found.take(found.len() as int) =~= found);
    node.dht_store.lemma_put(key, merged(node.dht_store.get(key), value));
    let targets = without_self(found, node.node_id, found.len() as int);
    assert forall|id: Seq<char>| #[trigger] targets.contains(id) <==> node.peers.has(id) && is_dht_node(id)
        && id != node.node_id by {
        if found.contains(id) {
            let at = choose|i: int| 0 <= i < found.len() && found[i] == id;
            assert(node.peers.has(found[at]));
        }
    }
}

/// The types that are passed on are none of those that the transport keeps
/// to itself.
proof fn lemma_relayable(message_type: Seq<char>)
    requires
        relayable(message_type),
    ensures
        message_type != "ping"@,
        message_type != "pong"@,
        message_type != "query_response"@,
        message_type != "dht_store"@,
        message_type != "dht_find"@,
        message_type != "dht_value"@,
{
    reveal_strlit("dht_");
    reveal_strlit("dht_store");
    reveal_strlit("dht_find");
    reveal_strlit("dht_value");
    assert("dht_store"@.subrange(0, 4) =~= "dht_"@);
    assert("dht_find"@.subrange(0, 4) =~= "dht_"@);
    assert("dht_value"@.subrange(0, 4) =~= "dht_"@);
}

/// A message of a type that is passed on, taken in from `sender` with `h`
/// hops left after it passed deduplication: it is handed to the dispatcher;
/// with no hop left nothing is sent; else one copy goes to each of the
/// selected peers, with the same identifier and one hop less. The selected
/// peers are peers of the node, none of them twice, never more than the
/// fan-out, and never the sender.
pub proof fn relay_spares_the_sender(
    node: MeshView,
    sender: Seq<char>,
    m: WireMessageView,
    now: i64,
    places: Seq<usize>,
    h: i32,
)
    requires
        node.wf(),
        node.peers.len() <= usize::MAX,
        relayable(m.message_type),
        m.hops_left == Some(h),
    ensures
        ({
            let (after, actions) = node.handled(sender, m, now, places);
            let targets = node.relay_targets(sender, m, places);
            let handed = seq![
                ActionView::Deliver { inbound: (InboundMessageView { peer_id: sender, message: m }) },
            ];
            let copy = WireMessageView { hops_left: Some((h - 1) as i32), ..m };
            &&& after == node
            &&& h < 1 ==> actions == handed
            &&& h >= 1 ==> actions == handed + sends(targets, copy)
            &&& copy.message_id == m.message_id
            &&& targets.len() <= node.fanout_for(m.message_type)
            &&& targets.no_duplicates()
            &&& !targets.contains(sender)
            &&& forall|i: int| 0 <= i < targets.len() ==> node.peers.has(#[trigger] targets[i])
        }),
{
    lemma_relayable(m.message_type);
    selection_leaves_out_the_excluded(node.peers, node.fanout_for(m.message_type), Some(sender), places);
    let targets = node.relay_targets(sender, m, places);
    if targets.contains(sender) {
        let at = choose|i: int| 0 <= i < targets.len() && targets[i] == sender;
        assert(Some(targets[at]) != Some(sender));
    }
    if h < 1 {
        assert(node.delivered(sender, m, targets) =~= seq![
            ActionView::Deliver { inbound: (InboundMessageView { peer_id: sender, message: m }) },
        ]);
    }
}

} // verus!
