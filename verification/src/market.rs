//! The course of a task: published with its bounty in escrow, bid on,
//! assigned to the best bidder, solved and paid.

use vstd::prelude::*;
use crate::error::MeshError;
use crate::p2p::{selection, sends};
use crate::records::{EscrowView, StampView};
use crate::store::StoreView;
use crate::supply::{circulating, lock_escrow_keeps_the_total, release_escrow_pays_out};
use crate::task::{winning_bid, TaskBidView, TaskView};
use crate::task_bazaar::{
    has_bid_of, lemma_statuses, prepared, valid_solution, BazaarView, SolutionOutcome,
};
use crate::task_worker::{assigned_message, bid_message, bid_price, DrawView, Floor, World};
use crate::text::blank;
use crate::wire::WireMessageView;

verus! {

/// A task with a description and a positive bounty, published by a node
/// whose account holds the bounty, under an identifier that has no escrow
/// yet: the task enters the table as prepared, open and without bids or
/// submissions; its escrow holds the bounty, locked from the publisher's
/// account, whose balance falls by as much; and what circulates is as before.
pub proof fn publishing_locks_the_bounty(
    b: BazaarView,
    store: StoreView,
    task: TaskView,
    drawn_task_id: Seq<char>,
    drawn_account_id: Seq<char>,
    stamp: StampView,
)
    requires
        b.wf(),
        store.wf(),
        !blank(task.description),
        task.bounty.amount > 0,
        store.account_index.has(prepared(task, b.node_id, drawn_task_id, stamp.iso).publisher),
        store.account_of_node(prepared(task, b.node_id, drawn_task_id, stamp.iso).publisher)->0.balance
            >= task.bounty.amount,
        !store.escrows.has(prepared(task, b.node_id, drawn_task_id, stamp.iso).task_id),
    ensures
        ({
            let ready = prepared(task, b.node_id, drawn_task_id, stamp.iso);
            let account = store.account_of_node(ready.publisher)->0;
            let (after, held, r) = b.publish_task(store, task, drawn_task_id, drawn_account_id, stamp);
            &&& r == Ok::<Seq<char>, MeshError>(ready.task_id)
            &&& after.tasks.get(ready.task_id) == Some(ready)
            &&& ready.status == "open"@
            &&& ready.bids.len() == 0
            &&& ready.submissions.len() == 0
            &&& held.escrows.get(ready.task_id) == Some(
                EscrowView {
                    task_id: ready.task_id,
                    from_account_id: account.account_id,
                    amount: task.bounty.amount,
                    token: ready.bounty.token,
                    created_at: stamp.iso,
                },
            )
            &&& held.account_of_node(ready.publisher) is Some
            &&& held.account_of_node(ready.publisher)->0.balance == account.balance - task.bounty.amount
            &&& circulating(held) == circulating(store)
        }),
{
    let ready = prepared(task, b.node_id, drawn_task_id, stamp.iso);
    store.lemma_indexed_account(ready.publisher);
    let account = store.account_of_node(ready.publisher)->0;
    lock_escrow_keeps_the_total(
        store,
        ready.task_id,
        account.account_id,
        ready.bounty.amount,
        ready.bounty.token,
        stamp,
    );
    b.tasks.lemma_put(ready.task_id, ready);
}

/// A bid of the worker on an open task that the marketplace knows and that
/// has no bid of this node: the bid offers nine tenths of the bounty,
/// rounded down, in this node's name; it is added to the task, which goes to
/// the vote; the worker notes it; and one message with the bid goes to each
/// of the peers selected for gossip.
pub proof fn a_bid_offers_nine_tenths(f: Floor, task: TaskView, now: i64, draw: DrawView)
    requires
        f.wf(),
        f.bazaar.tasks.get(task.task_id) == Some(task),
        task.status == "open"@,
        !has_bid_of(task.bids, f.worker.node_id),
    ensures
        ({
            let bid = TaskBidView {
                node_id: f.worker.node_id,
                amount: bid_price(task.bounty.amount),
                timestamp: now,
            };
            let after = f.submit_bid(task, now, draw);
            let told = WireMessageView {
                message_id: Some(draw.message_id),
                ..bid_message(task.task_id, bid, now)
            };
            &&& after.bazaar.tasks.get(task.task_id) == Some(
                TaskView {
                    bids: task.bids.push(bid),
                    status: "voting"@,
                    voting_started_at: Some(now),
                    ..task
                },
            )
            &&& after.worker.bidding.get(task.task_id) == Some(now)
            &&& after.actions == f.actions + sends(
                selection(f.mesh.peers, f.mesh.task_fanout, None, draw.places),
                told,
            )
            &&& task.bounty.amount >= 0 ==> 10 * bid.amount <= 9 * task.bounty.amount < 10 * bid.amount + 10
            &&& task.bounty.amount == 100 ==> bid.amount == 90
        }),
{
    reveal(Floor::submit_bid);
    let bid = TaskBidView {
        node_id: f.worker.node_id,
        amount: bid_price(task.bounty.amount),
        timestamp: now,
    };
    f.bazaar.tasks.lemma_put(task.task_id, crate::task_bazaar::with_bid(task, bid, now));
    f.worker.bidding.lemma_put(task.task_id, now);
}

/// An auction that this node coordinates, its voting over and won by
/// another node: the task is assigned to the best bidder, one message that
/// says so goes to each of the peers selected for gossip, the worker forgets
/// its own bid, and the store is not touched.
pub proof fn a_settled_auction_assigns_the_winner(
    w: World,
    task: TaskView,
    stamp: StampView,
    first: DrawView,
    second: DrawView,
)
    requires
        w.wf(),
        w.floor.bazaar.tasks.get(task.task_id) == Some(task),
        w.settles(task, stamp.millis),
        winning_bid(task.bids) is Some,
        winning_bid(task.bids)->0.node_id != w.floor.worker.node_id,
    ensures
        ({
            let winner = winning_bid(task.bids)->0.node_id;
            let after = w.settle(task, stamp, first, second);
            let told = WireMessageView {
                message_id: Some(first.message_id),
                ..assigned_message(task.task_id, winner, stamp.millis)
            };
            &&& after.store == w.store
            &&& after.floor.bazaar.tasks.get(task.task_id) == Some(
                TaskView {
                    status: "assigned"@,
                    assigned_to: Some(winner),
                    assigned_at: Some(stamp.millis),
                    ..task
                },
            )
            &&& after.floor.actions == w.floor.actions + sends(
                selection(w.floor.mesh.peers, w.floor.mesh.task_fanout, None, first.places),
                told,
            )
            &&& !after.floor.worker.bidding.has(task.task_id)
        }),
{
    reveal(World::settle);
    lemma_statuses();
    let winner = winning_bid(task.bids)->0.node_id;
    let patch = crate::task_worker::assignment(winner, stamp.millis);
    w.floor.bazaar.tasks.lemma_put(task.task_id, crate::task_bazaar::patched(task, patch));
    w.floor.worker.bidding.lemma_remove(task.task_id);
    assert(crate::task_bazaar::patched(task, patch) == TaskView {
        status: "assigned"@,
        assigned_to: Some(winner),
        assigned_at: Some(stamp.millis),
        ..task
    });
}

/// A valid solution for a task that is open or assigned and was not
/// completed here before, handed in by a node that has an account with room
/// for the reward: the task is completed in the solver's name, the escrow of
/// the task is paid out to the solver's account and is gone, the reward is
/// what the escrow held, and what circulates is as before.
pub proof fn a_valid_solution_earns_the_escrow(
    b: BazaarView,
    store: StoreView,
    task_id: Seq<char>,
    solution: Seq<char>,
    solver: Seq<char>,
    drawn_account_id: Seq<char>,
    stamp: StampView,
)
    requires
        b.wf(),
        store.wf(),
        b.tasks.has(task_id),
        b.tasks.get(task_id)->0.status == "open"@ || b.tasks.get(task_id)->0.status == "assigned"@,
        !b.completed.contains(task_id),
        valid_solution(b.tasks.get(task_id)->0.task_type, solution),
        store.account_index.has(solver),
        store.escrows.has(task_id),
        i64::MIN <= store.account_of_node(solver)->0.balance + store.escrows.get(task_id)->0.amount
            <= i64::MAX,
    ensures
        ({
            let held = store.escrows.get(task_id)->0.amount;
            let (after, paid, r) = b.submit_solution(
                store,
                task_id,
                solution,
                solver,
                drawn_account_id,
                stamp,
            );
            &&& r == Ok::<SolutionOutcome, MeshError>(SolutionOutcome::Rewarded { reward: held })
            &&& after.tasks.get(task_id) is Some
            &&& after.tasks.get(task_id)->0.status == "completed"@
            &&& after.tasks.get(task_id)->0.winner == Some(solver)
            &&& after.completed.contains(task_id)
            &&& paid.account_of_node(solver) is Some
            &&& paid.account_of_node(solver)->0.balance == store.account_of_node(solver)->0.balance + held
            &&& !paid.escrows.has(task_id)
            &&& circulating(paid) == circulating(store)
        }),
{
    let task = b.tasks.get(task_id)->0;
    store.lemma_indexed_account(solver);
    let account = store.account_of_node(solver)->0;
    release_escrow_pays_out(store, task_id, account.account_id, stamp);
    b.tasks.lemma_put(task_id, crate::task_bazaar::completed_by(task, solver, stamp.iso));
    assert(b.completed.push(task_id)[b.completed.len() as int] == task_id);
}

} // verus!
