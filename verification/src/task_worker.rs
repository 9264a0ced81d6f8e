//! The worker of a node: it bids on open tasks, settles the auctions of the
//! tasks that its node published, and completes the tasks that it wins.
//!
//! The worker keeps no clock and owns no connection. Each round it is given
//! the moment and what was drawn at random, and it hands back what is to be
//! sent.

use vstd::prelude::*;
use crate::codec::bid_text;
use crate::json::{member_views, object_text, string_text};
use crate::p2p::{is_drawn_token, is_shuffle, Action, ActionView, MeshNode, MeshView};
use crate::records::{Stamp, StampView};
use crate::store::{is_drawn_account_id, Store, StoreView};
use crate::table::{Rows, Table};
use crate::task::{best_bid, winning_bid, Task, TaskBid, TaskBidView, TaskView};
use crate::task_bazaar::{
    arranged, newest_first, BazaarView, SolutionOutcome, TaskBazaar, TaskPatch, TaskPatchView,
};
use crate::text::{concat, decimal, str_eq};
use crate::util::{random_hex, random_token, shuffled_places, is_lower_hex};
use crate::wire::{plain, WireMessage, WireMessageView};

verus! {

/// What one step of the worker draws at random: an identifier for the
/// message it sends, the order in which peers of unknown round trip are
/// chosen for it, and an identifier for an account that may have to be made.
#[derive(Debug)]
pub struct Draw {
    pub message_id: String,
    pub places: Vec<usize>,
    pub account_id: String,
}

/// What a [`Draw`] is in contracts.
pub struct DrawView {
    pub message_id: Seq<char>,
    pub places: Seq<usize>,
    pub account_id: Seq<char>,
}

impl View for Draw {
    type V = DrawView;

    open spec fn view(&self) -> DrawView {
        DrawView { message_id: self.message_id@, places: self.places@, account_id: self.account_id@ }
    }
}

impl DeepView for Draw {
    type V = DrawView;

    open spec fn deep_view(&self) -> DrawView {
        self@
    }
}

/// A draw as `Draw::fresh` makes them.
pub open spec fn is_fresh_draw(d: DrawView, peers: nat) -> bool {
    &&& is_drawn_token(d.message_id)
    &&& is_shuffle(d.places, peers)
    &&& is_drawn_account_id(d.account_id)
}

/// Every one of `draws` is fresh.
pub open spec fn all_fresh(draws: Seq<DrawView>, peers: nat) -> bool {
    forall|i: int| 0 <= i < draws.len() ==> is_fresh_draw(#[trigger] draws[i], peers)
}

impl Draw {
    /// A new draw on a node with `peers` peers.
    pub fn fresh(peers: usize) -> (d: Draw)
        ensures
            is_fresh_draw(d@, peers as nat),
    {
        let suffix = random_hex(8);
        let account_id = concat("acct_", suffix.as_str());
        proof {
            reveal_strlit("acct_");
            assert(account_id@.subrange(0, 5) =~= "acct_"@);
            assert forall|i: int| 5 <= i < 21 implies is_lower_hex(#[trigger] account_id@[i]) by {
                assert(account_id@[i] == suffix@[i - 5]);
            }
        }
        Draw { message_id: random_token(12), places: shuffled_places(peers), account_id }
    }
}

/// What the worker remembers: since when it has a bid on a task, and since
/// when it works on one.
pub struct WorkerView {
    pub node_id: Seq<char>,
    pub bidding: Rows<i64>,
    pub active: Rows<i64>,
}

/// The worker with the marketplace and the overlay it acts on, and what it
/// has decided to send.
pub struct Floor {
    pub worker: WorkerView,
    pub bazaar: BazaarView,
    pub mesh: MeshView,
    pub actions: Seq<ActionView>,
}

/// The floor together with the store that settles the bounties.
pub struct World {
    pub floor: Floor,
    pub store: StoreView,
}

/// What a bid of the worker offers for a bounty: nine tenths, rounded down.
pub open spec fn bid_price(bounty: i64) -> i64 {
    ((bounty as int * 9) / 10) as i64
}

/// The moment from which the voting on a task counts: when it was started,
/// or else when the first bid was made, or else the beginning of time.
pub open spec fn vote_started(task: TaskView) -> i64 {
    match task.voting_started_at {
        Some(at) => at,
        None => if task.bids.len() > 0 {
            task.bids[0].timestamp
        } else {
            0
        },
    }
}

/// The voting on a task has lasted five seconds.
pub open spec fn vote_is_over(task: TaskView, now: i64) -> bool {
    now - vote_started(task) >= 5_000
}

/// The message that tells of a bid.
pub open spec fn bid_message(task_id: Seq<char>, bid: TaskBidView, now: i64) -> WireMessageView {
    WireMessageView {
        hops_left: Some(4i32),
        ..plain(
            "task_bid"@,
            object_text(seq![("taskId"@, string_text(task_id)), ("bid"@, bid_text(bid))]),
            now,
        )
    }
}

/// The message that tells to whom a task was assigned.
pub open spec fn assigned_message(task_id: Seq<char>, winner: Seq<char>, now: i64) -> WireMessageView {
    WireMessageView {
        hops_left: Some(4i32),
        ..plain(
            "task_assigned"@,
            object_text(
                seq![
                    ("taskId"@, string_text(task_id)),
                    ("assignedTo"@, string_text(winner)),
                    ("assignedAt"@, decimal(now as int)),
                ],
            ),
            now,
        )
    }
}

/// The message that tells that a task was completed.
pub open spec fn completed_message(task_id: Seq<char>, winner: Seq<char>, now: i64) -> WireMessageView {
    WireMessageView {
        hops_left: Some(4i32),
        ..plain(
            "task_completed"@,
            object_text(seq![("taskId"@, string_text(task_id)), ("winner"@, string_text(winner))]),
            now,
        )
    }
}

/// The solution that the worker hands in.
pub open spec fn stock_solution() -> Seq<char> {
    object_text(
        seq![
            ("description"@, string_text("Auto-solved by TaskWorker"@)),
            ("code"@, string_text("return true;"@)),
        ],
    )
}

/// The patch that assigns a task.
pub open spec fn assignment(winner: Seq<char>, now: i64) -> TaskPatchView {
    TaskPatchView {
        status: Some("assigned"@),
        bids: None,
        assigned_to: Some(winner),
        assigned_at: Some(now),
        voting_started_at: None,
    }
}

impl Floor {
    /// Every part is well formed.
    pub open spec fn wf(self) -> bool {
        &&& self.worker.bidding.wf()
        &&& self.worker.active.wf()
        &&& self.bazaar.wf()
        &&& self.mesh.wf()
    }

    /// `m` gossiped from this node.
    pub open spec fn gossip(self, m: WireMessageView, now: i64, draw: DrawView) -> Floor {
        let (mesh, sent) = self.mesh.gossip(m, None, now, draw.message_id, draw.places);
        Floor { mesh, actions: self.actions + sent, ..self }
    }

    /// The worker wants to bid on a task that is open, that it does not work
    /// on and that it has not bid on.
    pub open spec fn wants_bid(self, task: TaskView) -> bool {
        task.status == "open"@ && !self.worker.active.has(task.task_id) && !self.worker.bidding.has(
            task.task_id,
        )
    }

    /// A bid made on `task`: it is noted, added to the task, and told to the
    /// mesh where the task is known.
    #[verifier::opaque]
    pub open spec fn submit_bid(self, task: TaskView, now: i64, draw: DrawView) -> Floor {
        let bid = TaskBidView {
            node_id: self.worker.node_id,
            amount: bid_price(task.bounty.amount),
            timestamp: now,
        };
        let (bazaar, updated) = self.bazaar.add_bid(task.task_id, bid, now);
        let noted = Floor {
            worker: WorkerView { bidding: self.worker.bidding.put(task.task_id, now), ..self.worker },
            bazaar,
            ..self
        };
        if updated is Some {
            noted.gossip(bid_message(task.task_id, bid, now), now, draw)
        } else {
            noted
        }
    }

    /// The first `n` of `tasks` looked at for bidding, one draw for each;
    /// where the draws run out the rest is left alone.
    pub open spec fn bids_placed(self, tasks: Seq<TaskView>, now: i64, draws: Seq<DrawView>, n: int) -> Floor
        decreases n,
    {
        if n <= 0 {
            self
        } else {
            let before = self.bids_placed(tasks, now, draws, n - 1);
            if n - 1 < draws.len() && before.wants_bid(tasks[n - 1]) {
                before.submit_bid(tasks[n - 1], now, draws[n - 1])
            } else {
                before
            }
        }
    }

    /// `after` is what a look at every task, the newest first, makes of this
    /// floor at `now`, with a draw for each task.
    pub open spec fn bids_to(self, now: i64, after: Floor) -> bool {
        exists|order: Seq<usize>, draws: Seq<DrawView>|
            #![trigger self.bids_placed(arranged(self.bazaar.tasks.values, order), now, draws, order.len() as int)]
            {
                &&& newest_first(self.bazaar.tasks.values, order)
                &&& draws.len() == order.len()
                &&& all_fresh(draws, self.mesh.peers.keys.len())
                &&& after == self.bids_placed(
                    arranged(self.bazaar.tasks.values, order),
                    now,
                    draws,
                    order.len() as int,
                )
            }
    }
}

impl World {
    /// Every part is well formed.
    pub open spec fn wf(self) -> bool {
        self.floor.wf() && self.store.wf()
    }

    /// The task handed in as solved by this node; where that earns the
    /// reward, the mesh is told. The worker no longer works on the task.
    #[verifier::opaque]
    pub open spec fn complete_task(self, task_id: Seq<char>, stamp: StampView, draw: DrawView) -> World {
        let (bazaar, store, outcome) = self.floor.bazaar.submit_solution(
            self.store,
            task_id,
            stock_solution(),
            self.floor.worker.node_id,
            draw.account_id,
            stamp,
        );
        let done = Floor { bazaar, ..self.floor };
        let told = if outcome is Ok && outcome->Ok_0 is Rewarded {
            done.gossip(
                completed_message(task_id, self.floor.worker.node_id, stamp.millis),
                stamp.millis,
                draw,
            )
        } else {
            done
        };
        World {
            floor: Floor {
                worker: WorkerView { active: told.worker.active.remove(task_id), ..told.worker },
                ..told
            },
            store,
        }
    }

    /// This node coordinates the auction of `task` and its voting is over.
    pub open spec fn settles(self, task: TaskView, now: i64) -> bool {
        task.status == "voting"@ && task.publisher == self.floor.worker.node_id && vote_is_over(task, now)
    }

    /// The auction of `task` settled: the task is assigned to the winning
    /// bidder and the mesh is told; where this node has won it completes the
    /// task at once, else it forgets its own bid.
    #[verifier::opaque]
    pub open spec fn settle(self, task: TaskView, stamp: StampView, first: DrawView, second: DrawView) -> World {
        if !self.settles(task, stamp.millis) {
            self
        } else {
            match winning_bid(task.bids) {
                None => self,
                Some(winner) => {
                    let now = stamp.millis;
                    let assigned = Floor {
                        bazaar: self.floor.bazaar.update_task(
                            task.task_id,
                            assignment(winner.node_id, now),
                        ).0,
                        ..self.floor
                    };
                    let told = assigned.gossip(assigned_message(task.task_id, winner.node_id, now), now, first);
                    if winner.node_id == self.floor.worker.node_id {
                        (World {
                            floor: Floor {
                                worker: WorkerView {
                                    active: told.worker.active.put(task.task_id, now),
                                    ..told.worker
                                },
                                ..told
                            },
                            ..self
                        }).complete_task(task.task_id, stamp, second)
                    } else {
                        World {
                            floor: Floor {
                                worker: WorkerView {
                                    bidding: told.worker.bidding.remove(task.task_id),
                                    ..told.worker
                                },
                                ..told
                            },
                            ..self
                        }
                    }
                },
            }
        }
    }

    /// The auctions of the first `n` of `tasks` looked at, two draws for
    /// each; where the draws run out the rest is left alone.
    pub open spec fn votes_settled(self, tasks: Seq<TaskView>, stamp: StampView, draws: Seq<DrawView>, n: int) -> World
        decreases n,
    {
        if n <= 0 {
            self
        } else {
            let before = self.votes_settled(tasks, stamp, draws, n - 1);
            if 2 * n <= draws.len() {
                before.settle(tasks[n - 1], stamp, draws[2 * n - 2], draws[2 * n - 1])
            } else {
                before
            }
        }
    }

    /// `after` is what a look at every auction, the newest task first, makes
    /// of this world at `stamp`, with two draws for each task.
    pub open spec fn votes_to(self, stamp: StampView, after: World) -> bool {
        exists|order: Seq<usize>, draws: Seq<DrawView>|
            #![trigger
                self.votes_settled(arranged(self.floor.bazaar.tasks.values, order), stamp, draws, order.len() as int)]
            {
                &&& newest_first(self.floor.bazaar.tasks.values, order)
                &&& draws.len() == 2 * order.len()
                &&& all_fresh(draws, self.floor.mesh.peers.keys.len())
                &&& after == self.votes_settled(
                    arranged(self.floor.bazaar.tasks.values, order),
                    stamp,
                    draws,
                    order.len() as int,
                )
            }
    }

    /// `after` is what one round at `stamp` makes of this world: first the
    /// bids, then the auctions.
    pub open spec fn rounds_to(self, stamp: StampView, after: World) -> bool {
        exists|bid: Floor|
            #![trigger self.floor.bids_to(stamp.millis, bid)]
            self.floor.bids_to(stamp.millis, bid) && (World { floor: bid, ..self }).votes_to(stamp, after)
    }
}

/// The worker of one node.
pub struct TaskWorker {
    node_id: String,
    bidding_tasks: Table<i64>,
    active_tasks: Table<i64>,
}

impl View for TaskWorker {
    type V = WorkerView;

    closed spec fn view(&self) -> WorkerView {
        WorkerView { node_id: self.node_id@, bidding: self.bidding_tasks@, active: self.active_tasks@ }
    }
}

/// The worker with the marketplace and the overlay, and what it has decided
/// to send so far.
pub open spec fn floor(worker: TaskWorker, bazaar: TaskBazaar, mesh: MeshNode, out: Vec<Action>) -> Floor {
    Floor { worker: worker@, bazaar: bazaar@, mesh: mesh@, actions: out.deep_view() }
}

/// The floor before anything is decided.
pub open spec fn quiet(worker: TaskWorker, bazaar: TaskBazaar, mesh: MeshNode) -> Floor {
    Floor { worker: worker@, bazaar: bazaar@, mesh: mesh@, actions: Seq::empty() }
}

/// The floor with the store.
pub open spec fn world(
    worker: TaskWorker,
    bazaar: TaskBazaar,
    store: Store,
    mesh: MeshNode,
    out: Vec<Action>,
) -> World {
    World { floor: floor(worker, bazaar, mesh, out), store: store@ }
}

/// The floor with the store, before anything is decided.
pub open spec fn scene(worker: TaskWorker, bazaar: TaskBazaar, store: Store, mesh: MeshNode) -> World {
    World { floor: quiet(worker, bazaar, mesh), store: store@ }
}

/// What a bid offers for `bounty`.
pub fn bid_amount(bounty: i64) -> (r: i64)
    ensures
        r == bid_price(bounty),
{
    let product = bounty as i128 * 9;
    let floor = if product >= 0 {
        product / 10
    } else {
        -((-product + 9) / 10)
    };
    floor as i64
}

fn bid_message_for(task_id: &str, bid: &TaskBid, now: i64) -> (m: WireMessage)
    ensures
        m@ == bid_message(task_id@, bid@, now),
{
    let mut members: Vec<(String, String)> = Vec::new();
    members.push(("taskId".to_string(), crate::json::string(task_id)));
    members.push(("bid".to_string(), bid.to_json()));
    assert(member_views(members@) =~= seq![("taskId"@, string_text(task_id@)), ("bid"@, bid_text(bid@))]);
    let mut m = WireMessage::new("task_bid", crate::json::object(&members), now);
    m.hops_left = Some(4);
    m
}

fn assigned_message_for(task_id: &str, winner: &str, now: i64) -> (m: WireMessage)
    ensures
        m@ == assigned_message(task_id@, winner@, now),
{
    let mut members: Vec<(String, String)> = Vec::new();
    members.push(("taskId".to_string(), crate::json::string(task_id)));
    members.push(("assignedTo".to_string(), crate::json::string(winner)));
    members.push(("assignedAt".to_string(), crate::text::decimal_text(now as i128)));
    assert(member_views(members@) =~= seq![
        ("taskId"@, string_text(task_id@)),
        ("assignedTo"@, string_text(winner@)),
        ("assignedAt"@, decimal(now as int)),
    ]);
    let mut m = WireMessage::new("task_assigned", crate::json::object(&members), now);
    m.hops_left = Some(4);
    m
}

fn completed_message_for(task_id: &str, winner: &str, now: i64) -> (m: WireMessage)
    ensures
        m@ == completed_message(task_id@, winner@, now),
{
    let mut members: Vec<(String, String)> = Vec::new();
    members.push(("taskId".to_string(), crate::json::string(task_id)));
    members.push(("winner".to_string(), crate::json::string(winner)));
    assert(member_views(members@) =~= seq![
        ("taskId"@, string_text(task_id@)),
        ("winner"@, string_text(winner@)),
    ]);
    let mut m = WireMessage::new("task_completed", crate::json::object(&members), now);
    m.hops_left = Some(4);
    m
}

fn stock_solution_text() -> (r: String)
    ensures
        r@ == stock_solution(),
{
    let mut members: Vec<(String, String)> = Vec::new();
    members.push(("description".to_string(), crate::json::string("Auto-solved by TaskWorker")));
    members.push(("code".to_string(), crate::json::string("return true;")));
    assert(member_views(members@) =~= seq![
        ("description"@, string_text("Auto-solved by TaskWorker"@)),
        ("code"@, string_text("return true;"@)),
    ]);
    crate::json::object(&members)
}

fn gossip_into(mesh: &mut MeshNode, message: WireMessage, now: i64, draw: &Draw, out: &mut Vec<Action>)
    requires
        old(mesh).wf(),
    ensures
        final(mesh).wf(),
        final(mesh)@ == old(mesh)@.gossip(message@, None, now, draw@.message_id, draw@.places).0,
        final(out).deep_view() == old(out).deep_view() + old(mesh)@.gossip(
            message@,
            None,
            now,
            draw@.message_id,
            draw@.places,
        ).1,
{
    let ghost before = out.deep_view();
    let mut sent = mesh.broadcast_with(message, None, now, draw.message_id.clone(), &draw.places);
    let ghost added = sent.deep_view();
    out.append(&mut sent);
    assert(out.deep_view() =~= before + added);
}

impl TaskWorker {
    /// The worker is well formed.
    pub open spec fn wf(&self) -> bool {
        self@.bidding.wf() && self@.active.wf()
    }

    /// A worker that has bid on nothing and works on nothing.
    pub fn new(node_id: String) -> (w: TaskWorker)
        ensures
            w.wf(),
            w@ == (WorkerView { node_id: node_id@, bidding: Rows::empty(), active: Rows::empty() }),
    {
        TaskWorker { node_id, bidding_tasks: Table::new(), active_tasks: Table::new() }
    }

    /// Bids on `task`.
    pub fn submit_bid_with(
        &mut self,
        bazaar: &mut TaskBazaar,
        mesh: &mut MeshNode,
        task: &Task,
        now: i64,
        draw: &Draw,
        out: &mut Vec<Action>,
    )
        requires
            floor(*old(self), *old(bazaar), *old(mesh), *old(out)).wf(),
        ensures
            floor(*final(self), *final(bazaar), *final(mesh), *final(out)).wf(),
            floor(*final(self), *final(bazaar), *final(mesh), *final(out)) == floor(
                *old(self),
                *old(bazaar),
                *old(mesh),
                *old(out),
            ).submit_bid(task@, now, draw@),
    {
        proof {
            reveal(Floor::submit_bid);
        }
        let bid = TaskBid {
            node_id: self.node_id.clone(),
            amount: bid_amount(task.bounty.amount),
            timestamp: now,
        };
        self.bidding_tasks.put(task.task_id.clone(), now);
        let message = bid_message_for(task.task_id.as_str(), &bid, now);
        let updated = bazaar.add_bid_at(task.task_id.as_str(), bid, now);
        if updated.is_some() {
            gossip_into(mesh, message, now, draw, out);
        }
    }

    /// Looks at each of `tasks` and bids on those that the worker wants to
    /// bid on, one draw for each task.
    pub fn check_tasks_with(
        &mut self,
        bazaar: &mut TaskBazaar,
        mesh: &mut MeshNode,
        tasks: &Vec<Task>,
        now: i64,
        draws: &Vec<Draw>,
        out: &mut Vec<Action>,
    )
        requires
            floor(*old(self), *old(bazaar), *old(mesh), *old(out)).wf(),
        ensures
            floor(*final(self), *final(bazaar), *final(mesh), *final(out)).wf(),
            floor(*final(self), *final(bazaar), *final(mesh), *final(out)) == floor(
                *old(self),
                *old(bazaar),
                *old(mesh),
                *old(out),
            ).bids_placed(tasks.deep_view(), now, draws.deep_view(), tasks.len() as int),
    {
        let ghost start = floor(*self, *bazaar, *mesh, *out);
        let mut i: usize = 0;
        while i < tasks.len()
            invariant
                i <= tasks.len(),
                floor(*self, *bazaar, *mesh, *out).wf(),
                floor(*self, *bazaar, *mesh, *out) == start.bids_placed(
                    tasks.deep_view(),
                    now,
                    draws.deep_view(),
                    i as int,
                ),
            decreases tasks.len() - i,
        {
            assert(tasks.deep_view()[i as int] == tasks[i as int]@);
            if i < draws.len() {
                assert(draws.deep_view()[i as int] == draws[i as int]@);
                let task = &tasks[i];
                if str_eq(task.status.as_str(), "open") && !self.active_tasks.contains_key(
                    task.task_id.as_str(),
                ) && !self.bidding_tasks.contains_key(task.task_id.as_str()) {
                    self.submit_bid_with(bazaar, mesh, task, now, &draws[i], out);
                }
            }
            i += 1;
        }
    }

    /// Hands `task_id` in as solved by this node and tells the mesh.
    pub fn complete_task_with(
        &mut self,
        bazaar: &mut TaskBazaar,
        store: &mut Store,
        mesh: &mut MeshNode,
        task_id: &str,
        stamp: &Stamp,
        draw: &Draw,
        out: &mut Vec<Action>,
    )
        requires
            world(*old(self), *old(bazaar), *old(store), *old(mesh), *old(out)).wf(),
        ensures
            world(*final(self), *final(bazaar), *final(store), *final(mesh), *final(out)).wf(),
            world(*final(self), *final(bazaar), *final(store), *final(mesh), *final(out)) == world(
                *old(self),
                *old(bazaar),
                *old(store),
                *old(mesh),
                *old(out),
            ).complete_task(task_id@, stamp@, draw@),
    {
        proof {
            reveal(World::complete_task);
        }
        let solution = stock_solution_text();
        let outcome = bazaar.submit_solution_with(
            store,
            task_id,
            solution.as_str(),
            self.node_id.as_str(),
            draw.account_id.clone(),
            stamp,
        );
        match outcome {
            Ok(SolutionOutcome::Rewarded { .. }) => {
                let message = completed_message_for(task_id, self.node_id.as_str(), stamp.millis);
                gossip_into(mesh, message, stamp.millis, draw, out);
            },
            _ => {},
        }
        let _ = self.active_tasks.remove(task_id);
    }

    /// Settles the auction of `task`, if this node coordinates it and its
    /// voting is over.
    pub fn settle_with(
        &mut self,
        bazaar: &mut TaskBazaar,
        store: &mut Store,
        mesh: &mut MeshNode,
        task: &Task,
        stamp: &Stamp,
        first: &Draw,
        second: &Draw,
        out: &mut Vec<Action>,
    )
        requires
            world(*old(self), *old(bazaar), *old(store), *old(mesh), *old(out)).wf(),
        ensures
            world(*final(self), *final(bazaar), *final(store), *final(mesh), *final(out)).wf(),
            world(*final(self), *final(bazaar), *final(store), *final(mesh), *final(out)) == world(
                *old(self),
                *old(bazaar),
                *old(store),
                *old(mesh),
                *old(out),
            ).settle(task@, stamp@, first@, second@),
    {
        proof {
            reveal(World::settle);
        }
        let now = stamp.millis;
        if !str_eq(task.status.as_str(), "voting") || !str_eq(
            task.publisher.as_str(),
            self.node_id.as_str(),
        ) {
            return ;
        }
        let started = match task.voting_started_at {
            Some(at) => at,
            None => if task.bids.len() > 0 {
                assert(task.bids.deep_view()[0] == task.bids[0]@);
                task.bids[0].timestamp
            } else {
                0
            },
        };
        if (now as i128) - (started as i128) < 5_000 {
            return ;
        }
        let winner = match best_bid(&task.bids) {
            Some(w) => w,
            None => {
                return ;
            },
        };
        let patch = TaskPatch {
            status: Some("assigned".to_string()),
            bids: None,
            assigned_to: Some(winner.node_id.clone()),
            assigned_at: Some(now),
            voting_started_at: None,
        };
        let _ = bazaar.update_task(task.task_id.as_str(), patch);
        let message = assigned_message_for(task.task_id.as_str(), winner.node_id.as_str(), now);
        gossip_into(mesh, message, now, first, out);
        if str_eq(winner.node_id.as_str(), self.node_id.as_str()) {
            self.active_tasks.put(task.task_id.clone(), now);
            self.complete_task_with(bazaar, store, mesh, task.task_id.as_str(), stamp, second, out);
        } else {
            let _ = self.bidding_tasks.remove(task.task_id.as_str());
        }
    }

    /// Looks at each of `tasks` and settles the auctions that are due, two
    /// draws for each task.
    pub fn process_voting_with(
        &mut self,
        bazaar: &mut TaskBazaar,
        store: &mut Store,
        mesh: &mut MeshNode,
        tasks: &Vec<Task>,
        stamp: &Stamp,
        draws: &Vec<Draw>,
        out: &mut Vec<Action>,
    )
        requires
            world(*old(self), *old(bazaar), *old(store), *old(mesh), *old(out)).wf(),
        ensures
            world(*final(self), *final(bazaar), *final(store), *final(mesh), *final(out)).wf(),
            world(*final(self), *final(bazaar), *final(store), *final(mesh), *final(out)) == world(
                *old(self),
                *old(bazaar),
                *old(store),
                *old(mesh),
                *old(out),
            ).votes_settled(tasks.deep_view(), stamp@, draws.deep_view(), tasks.len() as int),
    {
        let ghost start = world(*self, *bazaar, *store, *mesh, *out);
        let mut i: usize = 0;
        while i < tasks.len()
            invariant
                i <= tasks.len(),
                world(*self, *bazaar, *store, *mesh, *out).wf(),
                world(*self, *bazaar, *store, *mesh, *out) == start.votes_settled(
                    tasks.deep_view(),
                    stamp@,
                    draws.deep_view(),
                    i as int,
                ),
            decreases tasks.len() - i,
        {
            assert(tasks.deep_view()[i as int] == tasks[i as int]@);
            if i < draws.len() / 2 {
                assert(draws.deep_view()[2 * i as int] == draws[2 * i as int]@);
                assert(draws.deep_view()[2 * i + 1] == draws[2 * i + 1]@);
                self.settle_with(bazaar, store, mesh, &tasks[i], stamp, &draws[2 * i], &draws[2 * i + 1], out);
            }
            i += 1;
        }
    }

    fn draws_for(count: usize, pairs: bool, peers: usize) -> (r: Vec<Draw>)
        ensures
            r.len() == if pairs {
                2 * count
            } else {
                count as int
            },
            all_fresh(r.deep_view(), peers as nat),
    {
        let mut out: Vec<Draw> = Vec::new();
        let mut i: usize = 0;
        while i < count
            invariant
                i <= count,
                out.len() == if pairs {
                    2 * i
                } else {
                    i as int
                },
                all_fresh(out.deep_view(), peers as nat),
            decreases count - i,
        {
            let ghost before = out.deep_view();
            let first = Draw::fresh(peers);
            out.push(first);
            assert(out.deep_view() =~= before.push(first@));
            if pairs {
                let ghost middle = out.deep_view();
                let second = Draw::fresh(peers);
                out.push(second);
                assert(out.deep_view() =~= middle.push(second@));
            }
            i += 1;
        }
        out
    }

    /// Bids on every task that the worker wants to bid on, the newest first,
    /// and adds what is to be sent to `out`.
    pub fn check_tasks_into(&mut self, bazaar: &mut TaskBazaar, mesh: &mut MeshNode, now: i64, out: &mut Vec<Action>)
        requires
            floor(*old(self), *old(bazaar), *old(mesh), *old(out)).wf(),
        ensures
            floor(*final(self), *final(bazaar), *final(mesh), *final(out)).wf(),
            floor(*old(self), *old(bazaar), *old(mesh), *old(out)).bids_to(
                now,
                floor(*final(self), *final(bazaar), *final(mesh), *final(out)),
            ),
    {
        let tasks = bazaar.get_tasks();
        let ghost order = choose|order: Seq<usize>|
            newest_first(bazaar@.tasks.values, order) && tasks.deep_view() == #[trigger] arranged(
                bazaar@.tasks.values,
                order,
            );
        let draws = Self::draws_for(tasks.len(), false, mesh.peer_count());
        let ghost start = floor(*self, *bazaar, *mesh, *out);
        self.check_tasks_with(bazaar, mesh, &tasks, now, &draws, out);
        proof {
            assert(tasks.deep_view().len() == order.len());
            assert(floor(*self, *bazaar, *mesh, *out) == start.bids_placed(
                arranged(start.bazaar.tasks.values, order),
                now,
                draws.deep_view(),
                order.len() as int,
            ));
        }
    }

    /// Settles every auction that is due, the newest task first, and adds
    /// what is to be sent to `out`.
    pub fn process_voting_into(
        &mut self,
        bazaar: &mut TaskBazaar,
        store: &mut Store,
        mesh: &mut MeshNode,
        stamp: &Stamp,
        out: &mut Vec<Action>,
    )
        requires
            world(*old(self), *old(bazaar), *old(store), *old(mesh), *old(out)).wf(),
        ensures
            world(*final(self), *final(bazaar), *final(store), *final(mesh), *final(out)).wf(),
            world(*old(self), *old(bazaar), *old(store), *old(mesh), *old(out)).votes_to(
                stamp@,
                world(*final(self), *final(bazaar), *final(store), *final(mesh), *final(out)),
            ),
    {
        let tasks = bazaar.get_tasks();
        let ghost order = choose|order: Seq<usize>|
            newest_first(bazaar@.tasks.values, order) && tasks.deep_view() == #[trigger] arranged(
                bazaar@.tasks.values,
                order,
            );
        let draws = Self::draws_for(tasks.len(), true, mesh.peer_count());
        let ghost start = world(*self, *bazaar, *store, *mesh, *out);
        self.process_voting_with(bazaar, store, mesh, &tasks, stamp, &draws, out);
        proof {
            assert(tasks.deep_view().len() == order.len());
            assert(world(*self, *bazaar, *store, *mesh, *out) == start.votes_settled(
                arranged(start.floor.bazaar.tasks.values, order),
                stamp@,
                draws.deep_view(),
                order.len() as int,
            ));
        }
    }

    /// Bids on every task that the worker wants to bid on, the newest first.
    pub fn check_tasks(&mut self, bazaar: &mut TaskBazaar, mesh: &mut MeshNode, now: i64) -> (r: Vec<Action>)
        requires
            quiet(*old(self), *old(bazaar), *old(mesh)).wf(),
        ensures
            floor(*final(self), *final(bazaar), *final(mesh), r).wf(),
            quiet(*old(self), *old(bazaar), *old(mesh)).bids_to(
                now,
                floor(*final(self), *final(bazaar), *final(mesh), r),
            ),
    {
        let mut out: Vec<Action> = Vec::new();
        assert(out.deep_view() =~= Seq::<ActionView>::empty());
        self.check_tasks_into(bazaar, mesh, now, &mut out);
        out
    }

    /// Settles every auction that is due, the newest task first.
    pub fn process_voting(&mut self, bazaar: &mut TaskBazaar, store: &mut Store, mesh: &mut MeshNode, stamp: &Stamp) -> (r:
        Vec<Action>)
        requires
            scene(*old(self), *old(bazaar), *old(store), *old(mesh)).wf(),
        ensures
            world(*final(self), *final(bazaar), *final(store), *final(mesh), r).wf(),
            scene(*old(self), *old(bazaar), *old(store), *old(mesh)).votes_to(
                stamp@,
                world(*final(self), *final(bazaar), *final(store), *final(mesh), r),
            ),
    {
        let mut out: Vec<Action> = Vec::new();
        assert(out.deep_view() =~= Seq::<ActionView>::empty());
        self.process_voting_into(bazaar, store, mesh, stamp, &mut out);
        out
    }

    /// One round of the worker at `stamp`: it bids, then it settles.
    pub fn run_once_at(&mut self, bazaar: &mut TaskBazaar, store: &mut Store, mesh: &mut MeshNode, stamp: &Stamp) -> (r:
        Vec<Action>)
        requires
            scene(*old(self), *old(bazaar), *old(store), *old(mesh)).wf(),
        ensures
            world(*final(self), *final(bazaar), *final(store), *final(mesh), r).wf(),
            scene(*old(self), *old(bazaar), *old(store), *old(mesh)).rounds_to(
                stamp@,
                world(*final(self), *final(bazaar), *final(store), *final(mesh), r),
            ),
    {
        let mut out: Vec<Action> = Vec::new();
        assert(out.deep_view() =~= Seq::<ActionView>::empty());
        self.check_tasks_into(bazaar, mesh, stamp.millis, &mut out);
        let ghost bid = floor(*self, *bazaar, *mesh, out);
        self.process_voting_into(bazaar, store, mesh, stamp, &mut out);
        proof {
            let start = scene(*old(self), *old(bazaar), *old(store), *old(mesh));
            assert(start.floor.bids_to(stamp@.millis, bid));
            assert((World { floor: bid, ..start }).votes_to(
                stamp@,
                world(*self, *bazaar, *store, *mesh, out),
            ));
        }
        out
    }

    /// One round of the worker at the present moment.
    pub fn run_once(&mut self, bazaar: &mut TaskBazaar, store: &mut Store, mesh: &mut MeshNode) -> (r: Vec<Action>)
        requires
            scene(*old(self), *old(bazaar), *old(store), *old(mesh)).wf(),
        ensures
            world(*final(self), *final(bazaar), *final(store), *final(mesh), r).wf(),
            exists|stamp: StampView|
                #[trigger] scene(*old(self), *old(bazaar), *old(store), *old(mesh)).rounds_to(
                    stamp,
                    world(*final(self), *final(bazaar), *final(store), *final(mesh), r),
                ),
    {
        let stamp = Stamp::now();
        self.run_once_at(bazaar, store, mesh, &stamp)
    }
}

} // verus!
