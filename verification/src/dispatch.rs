//! The dispatcher: what a message that the overlay hands over does to the
//! store and to the marketplace, and what is sent back for it.

use vstd::prelude::*;
use crate::capsule::{query_result, CapsuleFilter, CapsuleSnapshot, CapsuleSnapshotView};
use crate::codec::{bid_in, filter_in, task_in};
use crate::json::{
    array_text, integer_member, member_of, member_views, object_text, string_member, string_text,
};
use crate::p2p::{Action, ActionView, MeshNode, MeshView};
use crate::store::{Store, StoreView};
use crate::task::{Task, TaskBid};
use crate::task_bazaar::{BazaarView, TaskBazaar, TaskPatch, TaskPatchView};
use crate::text::{clone_opt, str_eq};
use crate::wire::{plain, InboundMessage, InboundMessageView, WireMessage, WireMessageView};

verus! {

/// A capsule with its address as a JSON object.
pub open spec fn snapshot_text(s: CapsuleSnapshotView) -> Seq<char> {
    object_text(seq![("asset_id"@, string_text(s.asset_id)), ("capsule"@, s.capsule)])
}

/// The payload of the answer to a query for capsules.
pub open spec fn memories_payload(found: Seq<CapsuleSnapshotView>) -> Seq<char> {
    object_text(seq![("memories"@, array_text(Seq::new(found.len(), |i: int| snapshot_text(found[i]))))])
}

/// The answer to a query for capsules.
pub open spec fn memories_message(request_id: Option<Seq<char>>, found: Seq<CapsuleSnapshotView>, now: i64) -> WireMessageView {
    WireMessageView { request_id, ..plain("query_response"@, memories_payload(found), now) }
}

/// The text that a member of a payload holds as a string; the empty text
/// where it holds none.
pub open spec fn text_of(payload: Seq<char>, name: Seq<char>) -> Seq<char> {
    match string_member(payload, name) {
        Some(s) => s,
        None => ""@,
    }
}

/// The patch that notes when the voting on a task started.
pub open spec fn voting_patch(now: i64) -> TaskPatchView {
    TaskPatchView {
        status: None,
        bids: None,
        assigned_to: None,
        assigned_at: None,
        voting_started_at: Some(now),
    }
}

/// The patch that an assignment told over the mesh makes.
pub open spec fn assigned_patch(payload: Seq<char>) -> TaskPatchView {
    TaskPatchView {
        status: Some("assigned"@),
        bids: None,
        assigned_to: Some(text_of(payload, "assignedTo"@)),
        assigned_at: Some(
            match integer_member(payload, "assignedAt"@) {
                Some(at) => at,
                None => 0i64,
            },
        ),
        voting_started_at: None,
    }
}

/// The patch that a completion told over the mesh makes.
pub open spec fn completed_patch() -> TaskPatchView {
    TaskPatchView {
        status: Some("completed"@),
        bids: None,
        assigned_to: None,
        assigned_at: None,
        voting_started_at: None,
    }
}

/// A bid told over the mesh: it is added to its task, and where the task
/// still has no start of its voting noted, `now` is noted.
pub open spec fn bid_received(bazaar: BazaarView, payload: Seq<char>, now: i64) -> BazaarView {
    let task_id = text_of(payload, "taskId"@);
    let bid_text = match member_of(payload, "bid"@) {
        Some(b) => b,
        None => "{}"@,
    };
    if task_id.len() == 0 {
        bazaar
    } else {
        match bid_in(bid_text) {
            None => bazaar,
            Some(bid) => {
                let (added, updated) = bazaar.add_bid(task_id, bid, now);
                match updated {
                    Some(task) => if task.voting_started_at is None {
                        added.update_task(task_id, voting_patch(now)).0
                    } else {
                        added
                    },
                    None => added,
                }
            },
        }
    }
}

/// A query for memories: a message of type `query` whose payload names
/// the type `memories`.
pub open spec fn is_memories_query(m: WireMessageView) -> bool {
    m.message_type == "query"@ && text_of(m.payload, "type"@) == "memories"@
}

/// The capsules that a query asks for.
pub open spec fn asked_memories(store: StoreView, payload: Seq<char>) -> Seq<CapsuleSnapshotView> {
    query_result(
        store.capsules,
        store.capsule_index,
        filter_in(
            match member_of(payload, "filter"@) {
                Some(f) => f,
                None => "{}"@,
            },
        ),
    )
}

/// What a message does that the overlay handed over.
pub open spec fn dispatched(
    store: StoreView,
    bazaar: BazaarView,
    mesh: MeshView,
    inbound: InboundMessageView,
    now: i64,
) -> (StoreView, BazaarView, Seq<ActionView>) {
    let m = inbound.message;
    if m.message_type == "capsule"@ {
        (store.store_capsule(m.payload).0, bazaar, Seq::empty())
    } else if m.message_type == "task"@ {
        match task_in(m.payload) {
            Some(task) => (store, bazaar.handle_new_task(task), Seq::empty()),
            None => (store, bazaar, Seq::empty()),
        }
    } else if m.message_type == "task_bid"@ {
        (store, bid_received(bazaar, m.payload, now), Seq::empty())
    } else if m.message_type == "task_assigned"@ {
        if text_of(m.payload, "taskId"@).len() == 0 {
            (store, bazaar, Seq::empty())
        } else {
            (
                store,
                bazaar.update_task(text_of(m.payload, "taskId"@), assigned_patch(m.payload)).0,
                Seq::empty(),
            )
        }
    } else if m.message_type == "task_completed"@ {
        if text_of(m.payload, "taskId"@).len() == 0 {
            (store, bazaar, Seq::empty())
        } else {
            (store, bazaar.update_task(text_of(m.payload, "taskId"@), completed_patch()).0, Seq::empty())
        }
    } else if is_memories_query(m) {
        (
            store,
            bazaar,
            if mesh.peers.has(inbound.peer_id) {
                seq![
                    ActionView::Send {
                        peer_id: inbound.peer_id,
                        message: memories_message(m.request_id, asked_memories(store, m.payload), now),
                    },
                ]
            } else {
                Seq::empty()
            },
        )
    } else {
        (store, bazaar, Seq::empty())
    }
}

fn snapshot_json(s: &CapsuleSnapshot) -> (r: String)
    ensures
        r@ == snapshot_text(s@),
{
    let mut members: Vec<(String, String)> = Vec::new();
    members.push(("asset_id".to_string(), crate::json::string(s.asset_id.as_str())));
    members.push(("capsule".to_string(), s.capsule.clone()));
    assert(member_views(members@) =~= seq![
        ("asset_id"@, string_text(s@.asset_id)),
        ("capsule"@, s@.capsule),
    ]);
    crate::json::object(&members)
}

/// The answer to a query for capsules, for the request `request_id`.
pub fn memories_response(request_id: &Option<String>, found: &Vec<CapsuleSnapshot>, now: i64) -> (m: WireMessage)
    ensures
        m@ == memories_message(request_id.deep_view(), found.deep_view(), now),
{
    let mut texts: Vec<String> = Vec::new();
    let mut i: usize = 0;
    while i < found.len()
        invariant
            i <= found.len(),
            texts.len() == i,
            forall|j: int| 0 <= j < i ==> (#[trigger] texts[j])@ == snapshot_text(found[j]@),
        decreases found.len() - i,
    {
        texts.push(snapshot_json(&found[i]));
        i += 1;
    }
    assert(texts.deep_view() =~= Seq::new(
        found.deep_view().len(),
        |i: int| snapshot_text(found.deep_view()[i]),
    ));
    let mut members: Vec<(String, String)> = Vec::new();
    members.push(("memories".to_string(), crate::json::array(&texts)));
    assert(member_views(members@) =~= seq![
        (
            "memories"@,
            array_text(
                Seq::new(found.deep_view().len(), |i: int| snapshot_text(found.deep_view()[i])),
            ),
        ),
    ]);
    let mut m = WireMessage::new("query_response", crate::json::object(&members), now);
    m.request_id = clone_opt(request_id);
    m
}

/// The capsules of `store` that the query in `payload` asks for.
pub fn memories_asked(store: &Store, payload: &str) -> (r: Vec<CapsuleSnapshot>)
    requires
        store.wf(),
    ensures
        r.deep_view() == asked_memories(store@, payload@),
{
    let filter_text = match crate::json::member(payload, "filter") {
        Some(f) => f,
        None => "{}".to_string(),
    };
    let filter = CapsuleFilter::from_json(filter_text.as_str());
    match store.query_capsules(filter) {
        Ok(found) => found,
        Err(_) => Vec::new(),
    }
}

fn text_member(payload: &str, name: &str) -> (r: String)
    ensures
        r@ == text_of(payload@, name@),
{
    match crate::json::get_string(payload, name) {
        Some(s) => s,
        None => "".to_string(),
    }
}

fn take_bid(bazaar: &mut TaskBazaar, payload: &str, now: i64)
    requires
        old(bazaar).wf(),
    ensures
        final(bazaar).wf(),
        final(bazaar)@ == bid_received(old(bazaar)@, payload@, now),
{
    let task_id = text_member(payload, "taskId");
    if task_id.as_str().is_empty() {
        return ;
    }
    let bid_text = match crate::json::member(payload, "bid") {
        Some(b) => b,
        None => "{}".to_string(),
    };
    let bid = match TaskBid::from_json(bid_text.as_str()) {
        Some(b) => b,
        None => {
            return ;
        },
    };
    match bazaar.add_bid_at(task_id.as_str(), bid, now) {
        Some(task) => {
            if task.voting_started_at.is_none() {
                let mut patch = TaskPatch::empty();
                patch.voting_started_at = Some(now);
                let _ = bazaar.update_task(task_id.as_str(), patch);
            }
        },
        None => {},
    }
}

/// Whether `message` is a query for memories.
pub fn asks_memories(message: &WireMessage) -> (r: bool)
    ensures
        r == is_memories_query(message@),
{
    if str_eq(message.message_type.as_str(), "query") {
        let asked = text_member(message.payload.as_str(), "type");
        str_eq(asked.as_str(), "memories")
    } else {
        false
    }
}

/// Does what a message that the overlay handed over asks for, and hands
/// back what is to be sent for it.
pub fn handle_inbound(inbound: InboundMessage, store: &mut Store, bazaar: &mut TaskBazaar, node: &MeshNode, now: i64) -> (r:
    Vec<Action>)
    requires
        old(store).wf(),
        old(bazaar).wf(),
        node.wf(),
    ensures
        final(store).wf(),
        final(bazaar).wf(),
        (final(store)@, final(bazaar)@, r.deep_view()) == dispatched(
            old(store)@,
            old(bazaar)@,
            node@,
            inbound@,
            now,
        ),
{
    let mut out: Vec<Action> = Vec::new();
    assert(out.deep_view() =~= Seq::<ActionView>::empty());
    let message = inbound.message;
    let kind = message.message_type.as_str();
    let payload = message.payload.as_str();
    if str_eq(kind, "capsule") {
        let _ = store.store_capsule(payload);
    } else if str_eq(kind, "task") {
        match Task::from_json(payload) {
            Some(task) => {
                bazaar.handle_new_task(task);
            },
            None => {},
        }
    } else if str_eq(kind, "task_bid") {
        take_bid(bazaar, payload, now);
    } else if str_eq(kind, "task_assigned") {
        let task_id = text_member(payload, "taskId");
        if !task_id.as_str().is_empty() {
            let mut patch = TaskPatch::empty();
            patch.status = Some("assigned".to_string());
            patch.assigned_to = Some(text_member(payload, "assignedTo"));
            patch.assigned_at = Some(
                match crate::json::get_integer(payload, "assignedAt") {
                    Some(at) => at,
                    None => 0,
                },
            );
            let _ = bazaar.update_task(task_id.as_str(), patch);
        }
    } else if str_eq(kind, "task_completed") {
        let task_id = text_member(payload, "taskId");
        if !task_id.as_str().is_empty() {
            let mut patch = TaskPatch::empty();
            patch.status = Some("completed".to_string());
            let _ = bazaar.update_task(task_id.as_str(), patch);
        }
    } else if asks_memories(&message) {
        let found = memories_asked(store, payload);
        let response = memories_response(&message.request_id, &found, now);
        out = node.send_to_peer(inbound.peer_id.as_str(), response);
    }
    out
}

} // verus!
