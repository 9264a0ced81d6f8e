//! The marketplace: the tasks that a node knows, the bids on them, and the
//! settlement of their bounties through the store.

use vstd::prelude::*;
use crate::error::MeshError;
use crate::json::{member_of, string_member};
use crate::records::{EscrowView, Stamp, StampView};
use crate::store::{is_drawn_account_id, text_result, Store, StoreView};
use crate::table::{Rows, Table};
use crate::task::{
    best_bid, may_follow, rank_of, status_rank, winning_bid, Task, TaskBid, TaskBidView,
    TaskBountyView, TaskView,
};
use crate::order::{sorted_places, text_below};
use crate::text::{blank, concat, contains_text, is_blank, str_eq};
use crate::util::{clamp, clamped, is_lower_hex, random_hex};

verus! {

/// How many tasks there are, and what the completed ones were worth.
#[derive(Clone, Copy, Debug)]
pub struct TaskStats {
    pub total: usize,
    pub open: usize,
    pub completed: usize,
    pub total_rewards: i64,
}

/// What the account of a node holds, and what it has locked in escrows.
#[derive(Clone, Copy, Debug)]
pub struct BalanceStats {
    pub available: i64,
    pub locked: i64,
}

/// The parts of a task that a patch may set.
#[derive(Debug)]
pub struct TaskPatch {
    pub status: Option<String>,
    pub bids: Option<Vec<TaskBid>>,
    pub assigned_to: Option<String>,
    pub assigned_at: Option<i64>,
    pub voting_started_at: Option<i64>,
}

/// What a [`TaskPatch`] is in contracts.
pub struct TaskPatchView {
    pub status: Option<Seq<char>>,
    pub bids: Option<Seq<TaskBidView>>,
    pub assigned_to: Option<Seq<char>>,
    pub assigned_at: Option<i64>,
    pub voting_started_at: Option<i64>,
}

impl View for TaskPatch {
    type V = TaskPatchView;

    open spec fn view(&self) -> TaskPatchView {
        TaskPatchView {
            status: self.status.deep_view(),
            bids: self.bids.deep_view(),
            assigned_to: self.assigned_to.deep_view(),
            assigned_at: self.assigned_at,
            voting_started_at: self.voting_started_at,
        }
    }
}

/// How a solution that was handed in for an open task fared.
#[derive(Clone, Copy, Debug, PartialEq, Eq, Structural)]
pub enum SolutionOutcome {
    /// The task had been completed through this node before.
    AlreadyCompleted,
    /// The solution does not meet what the task asks for.
    Invalid,
    /// The task is complete and its escrow was paid out.
    Rewarded { reward: i64 },
}

/// How many of the first `n` tasks have the status `status`.
pub open spec fn count_status(tasks: Seq<TaskView>, status: Seq<char>, n: int) -> int
    decreases n,
{
    if n <= 0 {
        0
    } else {
        count_status(tasks, status, n - 1) + if tasks[n - 1].status == status {
            1int
        } else {
            0int
        }
    }
}

/// The bounties of the completed among the first `n` tasks, added up.
pub open spec fn completed_rewards(tasks: Seq<TaskView>, n: int) -> int
    decreases n,
{
    if n <= 0 {
        0
    } else {
        completed_rewards(tasks, n - 1) + if tasks[n - 1].status == "completed"@ {
            tasks[n - 1].bounty.amount as int
        } else {
            0int
        }
    }
}

/// The amounts of those of the first `n` escrows that `account_id` locked, added up.
pub open spec fn locked_by(escrows: Seq<EscrowView>, account_id: Seq<char>, n: int) -> int
    decreases n,
{
    if n <= 0 {
        0
    } else {
        locked_by(escrows, account_id, n - 1) + if escrows[n - 1].from_account_id == account_id {
            escrows[n - 1].amount as int
        } else {
            0int
        }
    }
}

/// Whether one of `bids` was made by `node_id`.
pub open spec fn has_bid_of(bids: Seq<TaskBidView>, node_id: Seq<char>) -> bool {
    exists|i: int| 0 <= i < bids.len() && (#[trigger] bids[i]).node_id == node_id
}

/// A solution is valid when it has a `code` or a `description`; for a task
/// of type `code` its `code` has to be a string of more than ten bytes.
pub open spec fn valid_solution(task_type: Option<Seq<char>>, solution: Seq<char>) -> bool {
    &&& member_of(solution, "code"@) is Some || member_of(solution, "description"@) is Some
    &&& task_type == Some("code"@) ==> {
        &&& string_member(solution, "code"@) is Some
        &&& vstd::utf8::encode_utf8(string_member(solution, "code"@)->0).len() > 10
    }
}

/// A task as it enters the table: open, with no submissions and no bids.
pub open spec fn opened(task: TaskView) -> TaskView {
    TaskView { status: "open"@, submissions: Seq::empty(), bids: Seq::empty(), ..task }
}

/// A task with a patch applied. A status is taken over only where it may
/// follow the one the task has.
pub open spec fn patched(task: TaskView, patch: TaskPatchView) -> TaskView {
    TaskView {
        status: match patch.status {
            Some(s) => if may_follow(task.status, s) {
                s
            } else {
                task.status
            },
            None => task.status,
        },
        bids: match patch.bids {
            Some(b) => b,
            None => task.bids,
        },
        assigned_to: match patch.assigned_to {
            Some(a) => Some(a),
            None => task.assigned_to,
        },
        assigned_at: match patch.assigned_at {
            Some(a) => Some(a),
            None => task.assigned_at,
        },
        voting_started_at: match patch.voting_started_at {
            Some(v) => Some(v),
            None => task.voting_started_at,
        },
        ..task
    }
}

/// A task with one more bid. The first bid on an open task starts the voting.
pub open spec fn with_bid(task: TaskView, bid: TaskBidView, now: i64) -> TaskView {
    if has_bid_of(task.bids, bid.node_id) {
        task
    } else if task.status == "open"@ {
        TaskView {
            bids: task.bids.push(bid),
            status: "voting"@,
            voting_started_at: Some(now),
            ..task
        }
    } else {
        TaskView { bids: task.bids.push(bid), ..task }
    }
}

/// No two of `bids` were made by the same node.
pub open spec fn distinct_bidders(bids: Seq<TaskBidView>) -> bool {
    forall|i: int, j: int|
        0 <= i < j < bids.len() ==> (#[trigger] bids[i]).node_id != (#[trigger] bids[j]).node_id
}

/// A bid that is added to a task never makes a second bid of its bidder.
pub proof fn bidders_stay_apart(task: TaskView, bid: TaskBidView, now: i64)
    requires
        distinct_bidders(task.bids),
    ensures
        distinct_bidders(with_bid(task, bid, now).bids),
{
    if !has_bid_of(task.bids, bid.node_id) {
        let after = task.bids.push(bid);
        assert forall|i: int, j: int| 0 <= i < j < after.len() implies (#[trigger] after[i]).node_id != (
        #[trigger] after[j]).node_id by {
            if j == task.bids.len() {
                assert(task.bids[i].node_id != bid.node_id);
            } else {
                assert(after[i] == task.bids[i]);
                assert(after[j] == task.bids[j]);
            }
        }
    }
}

/// A task marked as completed by `solver` at `at`.
pub open spec fn completed_by(task: TaskView, solver: Seq<char>, at: Seq<char>) -> TaskView {
    TaskView { status: "completed"@, winner: Some(solver), completed_at: Some(at), ..task }
}

/// The task at place `a` is listed before the one at place `b`: it was
/// published later, or at the same moment and is the earlier in the table.
pub open spec fn listed_before(tasks: Seq<TaskView>, a: int, b: int) -> bool {
    text_below(tasks[b].published_at, tasks[a].published_at) || (!text_below(
        tasks[a].published_at,
        tasks[b].published_at,
    ) && a < b)
}

/// `order` lists every place of `tasks` once, the newest task first.
pub open spec fn newest_first(tasks: Seq<TaskView>, order: Seq<usize>) -> bool {
    &&& order.len() == tasks.len()
    &&& forall|i: int| 0 <= i < order.len() ==> (#[trigger] order[i]) < tasks.len()
    &&& forall|i: int, j: int|
        0 <= i < j < order.len() ==> listed_before(tasks, #[trigger] order[i] as int, #[trigger] order[j] as int)
    &&& forall|k: int| 0 <= k < tasks.len() ==> order.contains(#[trigger] (k as usize))
}

/// The tasks at the places that `order` lists.
pub open spec fn arranged(tasks: Seq<TaskView>, order: Seq<usize>) -> Seq<TaskView> {
    Seq::new(order.len(), |i: int| tasks[order[i] as int])
}

/// A task as it is published: with an identifier, a publisher and a token
/// where it named none, open, with no submissions and no bids.
pub open spec fn prepared(
    task: TaskView,
    node_id: Seq<char>,
    drawn_task_id: Seq<char>,
    published_at: Seq<char>,
) -> TaskView {
    TaskView {
        task_id: if task.task_id.len() == 0 {
            drawn_task_id
        } else {
            task.task_id
        },
        publisher: if task.publisher.len() == 0 {
            node_id
        } else {
            task.publisher
        },
        bounty: TaskBountyView {
            amount: task.bounty.amount,
            token: if task.bounty.token.len() == 0 {
                "CLAW"@
            } else {
                task.bounty.token
            },
        },
        published_at,
        status: "open"@,
        submissions: Seq::empty(),
        bids: Seq::empty(),
        ..task
    }
}

/// An identifier as `publish_task` draws them: `task_` and sixteen
/// lower-case hexadecimal digits.
pub open spec fn is_drawn_task_id(id: Seq<char>) -> bool {
    &&& id.len() == 21
    &&& id.subrange(0, 5) == "task_"@
    &&& forall|i: int| 5 <= i < 21 ==> is_lower_hex(#[trigger] id[i])
}

/// What the marketplace holds.
pub struct BazaarView {
    pub node_id: Seq<char>,
    pub tasks: Rows<TaskView>,
    pub completed: Seq<Seq<char>>,
}

impl BazaarView {
    /// No task twice, and every task with a status of the chain.
    pub open spec fn wf(self) -> bool {
        &&& self.tasks.wf()
        &&& forall|i: int|
            0 <= i < self.tasks.values.len() ==> status_rank(#[trigger] self.tasks.values[i].status) is Some
    }

    /// A task that came over the mesh: entered as open unless it is known.
    pub open spec fn handle_new_task(self, task: TaskView) -> BazaarView {
        if self.tasks.has(task.task_id) {
            self
        } else {
            BazaarView { tasks: self.tasks.put(task.task_id, opened(task)), ..self }
        }
    }

    /// A bid added to a task; nothing happens where the task is unknown.
    pub open spec fn add_bid(self, task_id: Seq<char>, bid: TaskBidView, now: i64) -> (
        BazaarView,
        Option<TaskView>,
    ) {
        match self.tasks.get(task_id) {
            None => (self, None),
            Some(task) => (
                BazaarView { tasks: self.tasks.put(task_id, with_bid(task, bid, now)), ..self },
                Some(with_bid(task, bid, now)),
            ),
        }
    }

    /// A patch applied to a task; nothing happens where the task is unknown.
    pub open spec fn update_task(self, task_id: Seq<char>, patch: TaskPatchView) -> (
        BazaarView,
        Option<TaskView>,
    ) {
        match self.tasks.get(task_id) {
            None => (self, None),
            Some(task) => (
                BazaarView { tasks: self.tasks.put(task_id, patched(task, patch)), ..self },
                Some(patched(task, patch)),
            ),
        }
    }

    /// A task published: refused without a description or a positive bounty;
    /// else the publisher's account is made sure of, the bounty is locked in
    /// escrow, and the task enters the table.
    pub open spec fn publish_task(
        self,
        store: StoreView,
        task: TaskView,
        drawn_task_id: Seq<char>,
        drawn_account_id: Seq<char>,
        stamp: StampView,
    ) -> (BazaarView, StoreView, Result<Seq<char>, MeshError>) {
        if blank(task.description) {
            (self, store, Err(MeshError::MissingDescription))
        } else if task.bounty.amount <= 0 {
            (self, store, Err(MeshError::MissingBounty))
        } else {
            let ready = prepared(task, self.node_id, drawn_task_id, stamp.iso);
            let (known, account) = store.ensure_account(
                ready.publisher,
                "gep-lite-v1"@,
                drawn_account_id,
                stamp,
            );
            match account {
                Err(e) => (self, known, Err(e)),
                Ok(a) => {
                    let (held, locked) = known.lock_escrow(
                        ready.task_id,
                        a.account_id,
                        ready.bounty.amount,
                        ready.bounty.token,
                        stamp,
                    );
                    match locked {
                        Err(e) => (self, held, Err(e)),
                        Ok(_) => (
                            BazaarView { tasks: self.tasks.put(ready.task_id, ready), ..self },
                            held,
                            Ok(ready.task_id),
                        ),
                    }
                },
            }
        }
    }

    /// A solution handed in: refused for an unknown task and for one that is
    /// neither open nor assigned; turned away where the task was completed
    /// here before or the solution is not valid; else the task is completed
    /// and its escrow is paid out to the solver.
    pub open spec fn submit_solution(
        self,
        store: StoreView,
        task_id: Seq<char>,
        solution: Seq<char>,
        solver: Seq<char>,
        drawn_account_id: Seq<char>,
        stamp: StampView,
    ) -> (BazaarView, StoreView, Result<SolutionOutcome, MeshError>) {
        match self.tasks.get(task_id) {
            None => (self, store, Err(MeshError::TaskNotFound)),
            Some(task) => if task.status != "open"@ && task.status != "assigned"@ {
                (self, store, Err(MeshError::TaskNotOpen))
            } else if self.completed.contains(task_id) {
                (self, store, Ok(SolutionOutcome::AlreadyCompleted))
            } else if !valid_solution(task.task_type, solution) {
                (self, store, Ok(SolutionOutcome::Invalid))
            } else {
                let done = BazaarView {
                    tasks: self.tasks.put(task_id, completed_by(task, solver, stamp.iso)),
                    completed: self.completed.push(task_id),
                    ..self
                };
                let (known, account) = store.ensure_account(
                    solver,
                    "gep-lite-v1"@,
                    drawn_account_id,
                    stamp,
                );
                match account {
                    Err(e) => (done, known, Err(e)),
                    Ok(a) => {
                        let (paid, reward) = known.release_escrow(task_id, a.account_id, stamp);
                        match reward {
                            Err(e) => (done, paid, Err(e)),
                            Ok(n) => (done, paid, Ok(SolutionOutcome::Rewarded { reward: n })),
                        }
                    },
                }
            },
        }
    }

    /// What `node_id` can spend and what it has locked.
    pub open spec fn balance(self, store: StoreView) -> Result<(i64, i64), MeshError> {
        match store.balance_of(self.node_id) {
            Err(e) => Err(e),
            Ok(available) => {
                let account_id = match store.account_index.get(self.node_id) {
                    Some(id) => id,
                    None => ""@,
                };
                Ok(
                    (
                        available,
                        clamped(
                            locked_by(store.escrows.values, account_id, store.escrows.values.len() as int),
                        ),
                    ),
                )
            },
        }
    }

    /// No task is lost on the way from `self` to `after`, and none stands
    /// earlier in the chain than it did.
    pub open spec fn advanced_to(self, after: BazaarView) -> bool {
        forall|task_id: Seq<char>| #[trigger]
            self.tasks.has(task_id) ==> {
                &&& after.tasks.has(task_id)
                &&& status_rank(after.tasks.get(task_id)->0.status) is Some
                &&& status_rank(after.tasks.get(task_id)->0.status)->0 >= status_rank(
                    self.tasks.get(task_id)->0.status,
                )->0
            }
    }
}

/// The four statuses of the chain stand at their ranks, in this order.
pub proof fn lemma_statuses()
    ensures
        status_rank("open"@) == Some(0int),
        status_rank("voting"@) == Some(1int),
        status_rank("assigned"@) == Some(2int),
        status_rank("completed"@) == Some(3int),
{
    reveal_strlit("open");
    reveal_strlit("voting");
    reveal_strlit("assigned");
    reveal_strlit("completed");
    assert("open"@.len() == 4);
    assert("voting"@.len() == 6);
    assert("assigned"@.len() == 8);
    assert("completed"@.len() == 9);
}

/// Writing a task whose status does not stand before the one it had keeps
/// the table well formed and moves no task backwards.
proof fn lemma_put_advances(b: BazaarView, task_id: Seq<char>, task: TaskView)
    requires
        b.wf(),
        status_rank(task.status) is Some,
        b.tasks.has(task_id) ==> status_rank(task.status)->0 >= status_rank(
            b.tasks.get(task_id)->0.status,
        )->0,
    ensures
        (BazaarView { tasks: b.tasks.put(task_id, task), ..b }).wf(),
        b.advanced_to(BazaarView { tasks: b.tasks.put(task_id, task), ..b }),
{
    b.tasks.lemma_put(task_id, task);
    let after = BazaarView { tasks: b.tasks.put(task_id, task), ..b };
    assert forall|id: Seq<char>| #[trigger] b.tasks.has(id) implies {
        &&& after.tasks.has(id)
        &&& status_rank(after.tasks.get(id)->0.status) is Some
        &&& status_rank(after.tasks.get(id)->0.status)->0 >= status_rank(b.tasks.get(id)->0.status)->0
    } by {
        b.tasks.lemma_has(id);
        if id != task_id {
            assert(after.tasks.get(id) == b.tasks.get(id));
        }
    }
}

/// Every task of a well-formed marketplace has a status of the chain.
proof fn lemma_known_status(b: BazaarView, task_id: Seq<char>)
    requires
        b.wf(),
        b.tasks.has(task_id),
    ensures
        status_rank(b.tasks.get(task_id)->0.status) is Some,
{
    b.tasks.lemma_has(task_id);
}

/// The marketplace of one node.
pub struct TaskBazaar {
    pub node_id: String,
    tasks: Table<Task>,
    completed_tasks: Vec<String>,
}

impl View for TaskBazaar {
    type V = BazaarView;

    closed spec fn view(&self) -> BazaarView {
        BazaarView {
            node_id: self.node_id@,
            tasks: self.tasks@,
            completed: self.completed_tasks.deep_view(),
        }
    }
}

fn has_bid(bids: &Vec<TaskBid>, node_id: &str) -> (r: bool)
    ensures
        r == has_bid_of(bids.deep_view(), node_id@),
{
    let mut i: usize = 0;
    while i < bids.len()
        invariant
            i <= bids.len(),
            forall|j: int| 0 <= j < i ==> (#[trigger] bids.deep_view()[j]).node_id != node_id@,
        decreases bids.len() - i,
    {
        if str_eq(bids[i].node_id.as_str(), node_id) {
            assert(bids.deep_view()[i as int].node_id == node_id@);
            return true;
        }
        i += 1;
    }
    false
}

/// Whether a solution, given as the text of a JSON document, meets what a
/// task of the given type asks for.
pub fn validate_solution(task_type: &Option<String>, solution: &str) -> (r: bool)
    ensures
        r == valid_solution(task_type.deep_view(), solution@),
{
    let code = crate::json::member(solution, "code");
    let description = crate::json::member(solution, "description");
    if code.is_none() && description.is_none() {
        return false;
    }
    match task_type {
        Some(t) => {
            if str_eq(t.as_str(), "code") {
                return match crate::json::get_string(solution, "code") {
                    Some(text) => text.as_str().as_bytes().len() > 10,
                    None => false,
                };
            }
        },
        None => {},
    }
    true
}

impl TaskBazaar {
    /// The marketplace is well formed.
    pub open spec fn wf(&self) -> bool {
        self@.wf()
    }

    /// A marketplace that knows no task.
    pub fn new(node_id: String) -> (b: TaskBazaar)
        ensures
            b.wf(),
            b@ == (BazaarView { node_id: node_id@, tasks: Rows::empty(), completed: Seq::empty() }),
    {
        let b = TaskBazaar { node_id, tasks: Table::new(), completed_tasks: Vec::new() };
        assert(b.completed_tasks.deep_view() =~= Seq::empty());
        b
    }

    /// Takes in a task that came over the mesh.
    pub fn handle_new_task(&mut self, task: Task)
        requires
            old(self).wf(),
        ensures
            final(self).wf(),
            final(self)@ == old(self)@.handle_new_task(task@),
            old(self)@.advanced_to(final(self)@),
    {
        proof {
            lemma_statuses();
            if !self@.tasks.has(task.task_id@) {
                lemma_put_advances(self@, task.task_id@, opened(task@));
            } else {
                assert forall|id: Seq<char>| #[trigger] self@.tasks.has(id) implies status_rank(
                    self@.tasks.get(id)->0.status,
                ) is Some by {
                    lemma_known_status(self@, id);
                }
            }
        }
        if self.tasks.contains_key(task.task_id.as_str()) {
            return ;
        }
        let mut task = task;
        task.status = "open".to_string();
        task.submissions = Vec::new();
        task.bids = Vec::new();
        assert(task.submissions.deep_view() =~= Seq::empty());
        assert(task.bids.deep_view() =~= Seq::empty());
        self.tasks.put(task.task_id.clone(), task);
    }

    /// Adds a bid to a task, at the present moment.
    pub fn add_bid(&mut self, task_id: &str, bid: TaskBid) -> (r: Option<Task>)
        requires
            old(self).wf(),
        ensures
            final(self).wf(),
            old(self)@.advanced_to(final(self)@),
            exists|now: i64| (final(self)@, r.deep_view()) == #[trigger] old(self)@.add_bid(task_id@, bid@, now),
    {
        let now = crate::util::now_millis();
        self.add_bid_at(task_id, bid, now)
    }

    /// Adds a bid to a task. Nothing happens where the task is unknown or the
    /// bidder has bid before; the first bid on an open task starts the voting
    /// at `now`.
    pub fn add_bid_at(&mut self, task_id: &str, bid: TaskBid, now: i64) -> (r: Option<Task>)
        requires
            old(self).wf(),
        ensures
            final(self).wf(),
            old(self)@.advanced_to(final(self)@),
            (final(self)@, r.deep_view()) == old(self)@.add_bid(task_id@, bid@, now),
    {
        let mut task = match self.tasks.get(task_id) {
            Some(t) => t.clone(),
            None => {
                proof {
                    assert forall|id: Seq<char>| #[trigger] self@.tasks.has(id) implies status_rank(
                        self@.tasks.get(id)->0.status,
                    ) is Some by {
                        lemma_known_status(self@, id);
                    }
                }
                return None;
            },
        };
        proof {
            lemma_statuses();
            lemma_known_status(self@, task_id@);
            lemma_put_advances(self@, task_id@, with_bid(task@, bid@, now));
        }
        if !has_bid(&task.bids, bid.node_id.as_str()) {
            let ghost before = task.bids.deep_view();
            task.bids.push(bid);
            assert(task.bids.deep_view() =~= before.push(bid@));
            if str_eq(task.status.as_str(), "open") {
                task.status = "voting".to_string();
                task.voting_started_at = Some(now);
            }
        }
        self.tasks.put(task_id.to_string(), task.clone());
        Some(task)
    }

    /// Applies a patch to a task and hands the task back; nothing where the
    /// task is unknown.
    pub fn update_task(&mut self, task_id: &str, patch: TaskPatch) -> (r: Option<Task>)
        requires
            old(self).wf(),
        ensures
            final(self).wf(),
            old(self)@.advanced_to(final(self)@),
            (final(self)@, r.deep_view()) == old(self)@.update_task(task_id@, patch@),
    {
        let mut task = match self.tasks.get(task_id) {
            Some(t) => t.clone(),
            None => {
                proof {
                    assert forall|id: Seq<char>| #[trigger] self@.tasks.has(id) implies status_rank(
                        self@.tasks.get(id)->0.status,
                    ) is Some by {
                        lemma_known_status(self@, id);
                    }
                }
                return None;
            },
        };
        proof {
            lemma_known_status(self@, task_id@);
            lemma_put_advances(self@, task_id@, patched(task@, patch@));
        }
        let patch = patch;
        match patch.status {
            Some(status) => {
                let current = rank_of(task.status.as_str());
                let next = rank_of(status.as_str());
                match (current, next) {
                    (Some(c), Some(n)) => {
                        if n >= c {
                            task.status = status;
                        }
                    },
                    _ => {},
                }
            },
            None => {},
        }
        match patch.bids {
            Some(bids) => {
                task.bids = bids;
            },
            None => {},
        }
        match patch.assigned_to {
            Some(a) => {
                task.assigned_to = Some(a);
            },
            None => {},
        }
        match patch.assigned_at {
            Some(a) => {
                task.assigned_at = Some(a);
            },
            None => {},
        }
        match patch.voting_started_at {
            Some(v) => {
                task.voting_started_at = Some(v);
            },
            None => {},
        }
        self.tasks.put(task_id.to_string(), task.clone());
        Some(task)
    }

    /// Publishes a task of this node: its bounty is locked in escrow with `store`.
    pub fn publish_task(&mut self, store: &mut Store, task: Task) -> (r: Result<String, MeshError>)
        requires
            old(self).wf(),
            old(store).wf(),
        ensures
            final(self).wf(),
            final(store).wf(),
            exists|drawn_task_id: Seq<char>, drawn_account_id: Seq<char>, stamp: StampView|
                is_drawn_task_id(drawn_task_id) && is_drawn_account_id(drawn_account_id) && (
                    final(self)@,
                    final(store)@,
                    text_result(r),
                ) == #[trigger] old(self)@.publish_task(
                    old(store)@,
                    task@,
                    drawn_task_id,
                    drawn_account_id,
                    stamp,
                ),
    {
        let task_suffix = random_hex(8);
        let drawn_task_id = concat("task_", task_suffix.as_str());
        let account_suffix = random_hex(8);
        let drawn_account_id = concat("acct_", account_suffix.as_str());
        let stamp = Stamp::now();
        proof {
            reveal_strlit("task_");
            reveal_strlit("acct_");
            assert(drawn_task_id@.subrange(0, 5) =~= "task_"@);
            assert(drawn_account_id@.subrange(0, 5) =~= "acct_"@);
            assert forall|i: int| 5 <= i < 21 implies is_lower_hex(#[trigger] drawn_task_id@[i]) by {
                assert(drawn_task_id@[i] == task_suffix@[i - 5]);
            }
            assert forall|i: int| 5 <= i < 21 implies is_lower_hex(#[trigger] drawn_account_id@[i]) by {
                assert(drawn_account_id@[i] == account_suffix@[i - 5]);
            }
        }
        self.publish_task_with(store, task, drawn_task_id, drawn_account_id, &stamp)
    }

    /// Publishes a task at `stamp`, with the identifiers to use where the
    /// task has none and where the publisher has no account yet.
    pub fn publish_task_with(
        &mut self,
        store: &mut Store,
        task: Task,
        drawn_task_id: String,
        drawn_account_id: String,
        stamp: &Stamp,
    ) -> (r: Result<String, MeshError>)
        requires
            old(self).wf(),
            old(store).wf(),
        ensures
            final(self).wf(),
            final(store).wf(),
            (final(self)@, final(store)@, text_result(r)) == old(self)@.publish_task(
                old(store)@,
                task@,
                drawn_task_id@,
                drawn_account_id@,
                stamp@,
            ),
    {
        if is_blank(task.description.as_str()) {
            return Err(MeshError::MissingDescription);
        }
        if task.bounty.amount <= 0 {
            return Err(MeshError::MissingBounty);
        }
        let mut task = task;
        if task.task_id.as_str().is_empty() {
            task.task_id = drawn_task_id;
        }
        if task.publisher.as_str().is_empty() {
            task.publisher = self.node_id.clone();
        }
        if task.bounty.token.as_str().is_empty() {
            task.bounty.token = "CLAW".to_string();
        }
        task.published_at = stamp.iso.clone();
        task.status = "open".to_string();
        task.submissions = Vec::new();
        task.bids = Vec::new();
        assert(task.submissions.deep_view() =~= Seq::empty());
        assert(task.bids.deep_view() =~= Seq::empty());
        let account = match store.ensure_account_with(
            task.publisher.as_str(),
            "gep-lite-v1",
            drawn_account_id,
            stamp,
        ) {
            Ok(a) => a,
            Err(e) => {
                return Err(e);
            },
        };
        match store.lock_escrow_at(
            task.task_id.as_str(),
            account.account_id.as_str(),
            task.bounty.amount,
            task.bounty.token.as_str(),
            stamp,
        ) {
            Ok(_) => {},
            Err(e) => {
                return Err(e);
            },
        }
        proof {
            lemma_statuses();
            self@.tasks.lemma_put(task.task_id@, task@);
        }
        let task_id = task.task_id.clone();
        self.tasks.put(task_id.clone(), task);
        Ok(task_id)
    }

    /// Hands in a solution, given as the text of a JSON document.
    pub fn submit_solution(&mut self, store: &mut Store, task_id: &str, solution: &str, solver_node_id: &str) -> (r:
        Result<SolutionOutcome, MeshError>)
        requires
            old(self).wf(),
            old(store).wf(),
        ensures
            final(self).wf(),
            final(store).wf(),
            old(self)@.advanced_to(final(self)@),
            exists|drawn_account_id: Seq<char>, stamp: StampView|
                is_drawn_account_id(drawn_account_id) && (final(self)@, final(store)@, r)
                    == #[trigger] old(self)@.submit_solution(
                    old(store)@,
                    task_id@,
                    solution@,
                    solver_node_id@,
                    drawn_account_id,
                    stamp,
                ),
    {
        let account_suffix = random_hex(8);
        let drawn_account_id = concat("acct_", account_suffix.as_str());
        let stamp = Stamp::now();
        proof {
            reveal_strlit("acct_");
            assert(drawn_account_id@.subrange(0, 5) =~= "acct_"@);
            assert forall|i: int| 5 <= i < 21 implies is_lower_hex(#[trigger] drawn_account_id@[i]) by {
                assert(drawn_account_id@[i] == account_suffix@[i - 5]);
            }
        }
        self.submit_solution_with(store, task_id, solution, solver_node_id, drawn_account_id, &stamp)
    }

    /// Hands in a solution at `stamp`, with the identifier to use where the
    /// solver has no account yet.
    pub fn submit_solution_with(
        &mut self,
        store: &mut Store,
        task_id: &str,
        solution: &str,
        solver_node_id: &str,
        drawn_account_id: String,
        stamp: &Stamp,
    ) -> (r: Result<SolutionOutcome, MeshError>)
        requires
            old(self).wf(),
            old(store).wf(),
        ensures
            final(self).wf(),
            final(store).wf(),
            old(self)@.advanced_to(final(self)@),
            (final(self)@, final(store)@, r) == old(self)@.submit_solution(
                old(store)@,
                task_id@,
                solution@,
                solver_node_id@,
                drawn_account_id@,
                stamp@,
            ),
    {
        proof {
            assert forall|id: Seq<char>| #[trigger] self@.tasks.has(id) implies status_rank(
                self@.tasks.get(id)->0.status,
            ) is Some by {
                lemma_known_status(self@, id);
            }
        }
        let mut task = match self.tasks.get(task_id) {
            Some(t) => t.clone(),
            None => {
                return Err(MeshError::TaskNotFound);
            },
        };
        if !str_eq(task.status.as_str(), "open") && !str_eq(task.status.as_str(), "assigned") {
            return Err(MeshError::TaskNotOpen);
        }
        if contains_text(&self.completed_tasks, task_id) {
            return Ok(SolutionOutcome::AlreadyCompleted);
        }
        if !validate_solution(&task.task_type, solution) {
            return Ok(SolutionOutcome::Invalid);
        }
        proof {
            lemma_statuses();
            lemma_put_advances(self@, task_id@, completed_by(task@, solver_node_id@, stamp@.iso));
        }
        let ghost before = self.completed_tasks.deep_view();
        self.completed_tasks.push(task_id.to_string());
        assert(self.completed_tasks.deep_view() =~= before.push(task_id@));
        task.status = "completed".to_string();
        task.winner = Some(solver_node_id.to_string());
        task.completed_at = Some(stamp.iso.clone());
        self.tasks.put(task_id.to_string(), task);
        let account = match store.ensure_account_with(solver_node_id, "gep-lite-v1", drawn_account_id, stamp) {
            Ok(a) => a,
            Err(e) => {
                return Err(e);
            },
        };
        match store.release_escrow_at(task_id, account.account_id.as_str(), stamp) {
            Ok(reward) => Ok(SolutionOutcome::Rewarded { reward }),
            Err(e) => Err(e),
        }
    }

    /// Every known task, the one published last first.
    pub fn get_tasks(&self) -> (r: Vec<Task>)
        requires
            self.wf(),
        ensures
            exists|order: Seq<usize>|
                newest_first(self@.tasks.values, order) && r.deep_view() == #[trigger] arranged(
                    self@.tasks.values,
                    order,
                ),
    {
        let rows = self.tasks.values();
        let mut keys: Vec<String> = Vec::new();
        let mut i: usize = 0;
        while i < rows.len()
            invariant
                i <= rows.len(),
                keys.len() == i,
                forall|j: int| 0 <= j < i ==> (#[trigger] keys[j])@ == rows[j]@.published_at,
            decreases rows.len() - i,
        {
            keys.push(rows[i].published_at.clone());
            i += 1;
        }
        let order = sorted_places(&keys, true);
        let mut out: Vec<Task> = Vec::new();
        let mut k: usize = 0;
        while k < order.len()
            invariant
                k <= order.len(),
                order.len() == rows.len(),
                forall|j: int| 0 <= j < order.len() ==> (#[trigger] order[j]) < rows.len(),
                out.len() == k,
                forall|j: int| 0 <= j < k ==> (#[trigger] out[j])@ == rows[order[j] as int]@,
            decreases order.len() - k,
        {
            out.push(rows[order[k]].clone());
            k += 1;
        }
        proof {
            let tasks = self@.tasks.values;
            assert(tasks.len() == rows.len());
            assert forall|a: int, b: int| 0 <= a < b < order.len() implies listed_before(
                tasks,
                #[trigger] order[a] as int,
                #[trigger] order[b] as int,
            ) by {
                assert(crate::order::precedes(keys@, order[a] as int, order[b] as int, true));
                assert(tasks[order[a] as int] == rows[order[a] as int]@);
                assert(tasks[order[b] as int] == rows[order[b] as int]@);
            }
            assert(newest_first(tasks, order@));
            assert(out.deep_view() =~= arranged(tasks, order@));
        }
        out
    }

    /// How many tasks are known, how many of them are open and how many
    /// completed, and what the completed ones were worth together.
    pub fn get_stats(&self) -> (r: TaskStats)
        requires
            self.wf(),
        ensures
            r.total == self@.tasks.len(),
            r.open == count_status(self@.tasks.values, "open"@, self@.tasks.len() as int),
            r.completed == count_status(self@.tasks.values, "completed"@, self@.tasks.len() as int),
            r.total_rewards == clamped(completed_rewards(self@.tasks.values, self@.tasks.len() as int)),
    {
        let rows = self.tasks.values();
        let mut open: usize = 0;
        let mut completed: usize = 0;
        let mut rewards: i128 = 0;
        let mut i: usize = 0;
        while i < rows.len()
            invariant
                i <= rows.len(),
                rows.deep_view() == self@.tasks.values,
                open == count_status(self@.tasks.values, "open"@, i as int),
                completed == count_status(self@.tasks.values, "completed"@, i as int),
                rewards == completed_rewards(self@.tasks.values, i as int),
                open <= i,
                completed <= i,
                -(i as int) * 0x8000_0000_0000_0000 <= rewards <= (i as int) * 0x8000_0000_0000_0000,
            decreases rows.len() - i,
        {
            assert(rows.deep_view()[i as int] == rows[i as int]@);
            if str_eq(rows[i].status.as_str(), "open") {
                open += 1;
            }
            if str_eq(rows[i].status.as_str(), "completed") {
                completed += 1;
                rewards = rewards + rows[i].bounty.amount as i128;
            }
            i += 1;
        }
        TaskStats { total: rows.len(), open, completed, total_rewards: clamp(rewards) }
    }

    /// What this node can spend and what it has locked in the escrows of `store`.
    pub fn get_balance(&self, store: &Store) -> (r: Result<BalanceStats, MeshError>)
        requires
            self.wf(),
            store.wf(),
        ensures
            match self@.balance(store@) {
                Ok((available, locked)) => r is Ok && r->Ok_0.available == available && r->Ok_0.locked
                    == locked,
                Err(e) => r == Err::<BalanceStats, MeshError>(e),
            },
    {
        let available = match store.get_balance(self.node_id.as_str()) {
            Ok(n) => n,
            Err(e) => {
                return Err(e);
            },
        };
        let account_id = match store.get_account_id_by_node(self.node_id.as_str()) {
            Ok(Some(id)) => id,
            _ => "".to_string(),
        };
        let escrows = match store.list_escrows() {
            Ok(rows) => rows,
            Err(e) => {
                return Err(e);
            },
        };
        let mut locked: i128 = 0;
        let mut i: usize = 0;
        while i < escrows.len()
            invariant
                i <= escrows.len(),
                locked == locked_by(escrows.deep_view(), account_id@, i as int),
                -(i as int) * 0x8000_0000_0000_0000 <= locked <= (i as int) * 0x8000_0000_0000_0000,
            decreases escrows.len() - i,
        {
            assert(escrows.deep_view()[i as int] == escrows[i as int]@);
            if str_eq(escrows[i].from_account_id.as_str(), account_id.as_str()) {
                locked = locked + escrows[i].amount as i128;
            }
            i += 1;
        }
        Ok(BalanceStats { available, locked: clamp(locked) })
    }

    /// The task known as `task_id`.
    pub fn get_task(&self, task_id: &str) -> (r: Option<Task>)
        requires
            self.wf(),
        ensures
            r.deep_view() == self@.tasks.get(task_id@),
    {
        match self.tasks.get(task_id) {
            Some(t) => Some(t.clone()),
            None => None,
        }
    }

    /// How many tasks are known.
    pub fn get_task_count(&self) -> (n: usize)
        requires
            self.wf(),
        ensures
            n == self@.tasks.len(),
    {
        self.tasks.len()
    }

    /// The bid that wins the auction of `task`: the lowest amount, the
    /// earliest among equal amounts.
    pub fn determine_winner(&self, task: &Task) -> (r: Option<TaskBid>)
        ensures
            r.deep_view() == winning_bid(task@.bids),
    {
        best_bid(&task.bids)
    }
}

/// One request to the marketplace.
pub enum BazaarOp {
    NewTask { task: TaskView },
    AddBid { task_id: Seq<char>, bid: TaskBidView, now: i64 },
    Update { task_id: Seq<char>, patch: TaskPatchView },
    Submit {
        task_id: Seq<char>,
        solution: Seq<char>,
        solver: Seq<char>,
        drawn_account_id: Seq<char>,
        stamp: StampView,
    },
    Publish { task: TaskView, drawn_task_id: Seq<char>, drawn_account_id: Seq<char>, stamp: StampView },
}

/// The marketplace and the store after one request.
pub open spec fn apply(b: BazaarView, store: StoreView, op: BazaarOp) -> (BazaarView, StoreView) {
    match op {
        BazaarOp::NewTask { task } => (b.handle_new_task(task), store),
        BazaarOp::AddBid { task_id, bid, now } => (b.add_bid(task_id, bid, now).0, store),
        BazaarOp::Update { task_id, patch } => (b.update_task(task_id, patch).0, store),
        BazaarOp::Submit { task_id, solution, solver, drawn_account_id, stamp } => {
            let after = b.submit_solution(store, task_id, solution, solver, drawn_account_id, stamp);
            (after.0, after.1)
        },
        BazaarOp::Publish { task, drawn_task_id, drawn_account_id, stamp } => {
            let after = b.publish_task(store, task, drawn_task_id, drawn_account_id, stamp);
            (after.0, after.1)
        },
    }
}

/// The requests of which progress is claimed: a task is published under an
/// identifier that no known task has.
pub open spec fn admissible(b: BazaarView, op: BazaarOp) -> bool {
    match op {
        BazaarOp::Publish { task, drawn_task_id, stamp, .. } => !b.tasks.has(
            prepared(task, b.node_id, drawn_task_id, stamp.iso).task_id,
        ),
        _ => true,
    }
}

/// The marketplace and the store after the first `n` of `ops`.
pub open spec fn run(b: BazaarView, store: StoreView, ops: Seq<BazaarOp>, n: int) -> (BazaarView, StoreView)
    decreases n,
{
    if n <= 0 {
        (b, store)
    } else {
        let before = run(b, store, ops, n - 1);
        apply(before.0, before.1, ops[n - 1])
    }
}

/// Each of `ops` is admissible in the state in which it arrives.
pub open spec fn all_admissible(b: BazaarView, store: StoreView, ops: Seq<BazaarOp>) -> bool {
    forall|i: int| 0 <= i < ops.len() ==> admissible((#[trigger] run(b, store, ops, i)).0, ops[i])
}

proof fn lemma_stays(b: BazaarView)
    requires
        b.wf(),
    ensures
        b.advanced_to(b),
{
    assert forall|id: Seq<char>| #[trigger] b.tasks.has(id) implies status_rank(
        b.tasks.get(id)->0.status,
    ) is Some by {
        lemma_known_status(b, id);
    }
}

/// One admissible request loses no task and moves none backwards.
pub proof fn request_advances(b: BazaarView, store: StoreView, op: BazaarOp)
    requires
        b.wf(),
        admissible(b, op),
    ensures
        apply(b, store, op).0.wf(),
        b.advanced_to(apply(b, store, op).0),
{
    lemma_statuses();
    lemma_stays(b);
    match op {
        BazaarOp::NewTask { task } => {
            if !b.tasks.has(task.task_id) {
                lemma_put_advances(b, task.task_id, opened(task));
            }
        },
        BazaarOp::AddBid { task_id, bid, now } => {
            if b.tasks.has(task_id) {
                lemma_known_status(b, task_id);
                lemma_put_advances(b, task_id, with_bid(b.tasks.get(task_id)->0, bid, now));
            }
        },
        BazaarOp::Update { task_id, patch } => {
            if b.tasks.has(task_id) {
                lemma_known_status(b, task_id);
                lemma_put_advances(b, task_id, patched(b.tasks.get(task_id)->0, patch));
            }
        },
        BazaarOp::Submit { task_id, solution, solver, drawn_account_id, stamp } => {
            if b.tasks.has(task_id) {
                lemma_known_status(b, task_id);
                let task = b.tasks.get(task_id)->0;
                lemma_put_advances(b, task_id, completed_by(task, solver, stamp.iso));
                let done = BazaarView {
                    tasks: b.tasks.put(task_id, completed_by(task, solver, stamp.iso)),
                    ..b
                };
                let marked = BazaarView { completed: b.completed.push(task_id), ..done };
                assert(done.advanced_to(marked)) by {
                    lemma_stays(done);
                }
            }
        },
        BazaarOp::Publish { task, drawn_task_id, drawn_account_id, stamp } => {
            let ready = prepared(task, b.node_id, drawn_task_id, stamp.iso);
            lemma_put_advances(b, ready.task_id, ready);
        },
    }
}

/// Through any run of admissible requests every task stays known and its
/// status only moves forward along `open`, `voting`, `assigned`, `completed`;
/// so a task that is completed stays completed, and completes at most once.
pub proof fn status_only_advances(b: BazaarView, store: StoreView, ops: Seq<BazaarOp>, n: int)
    requires
        b.wf(),
        all_admissible(b, store, ops),
        0 <= n <= ops.len(),
    ensures
        run(b, store, ops, n).0.wf(),
        b.advanced_to(run(b, store, ops, n).0),
        forall|task_id: Seq<char>|
            b.tasks.has(task_id) && b.tasks.get(task_id)->0.status == "completed"@ ==> (#[trigger] run(
                b,
                store,
                ops,
                n,
            ).0.tasks.get(task_id))->0.status == "completed"@,
    decreases n,
{
    lemma_statuses();
    if n == 0 {
        lemma_stays(b);
    } else {
        status_only_advances(b, store, ops, n - 1);
        let before = run(b, store, ops, n - 1);
        request_advances(before.0, before.1, ops[n - 1]);
        let after = run(b, store, ops, n).0;
        assert forall|id: Seq<char>| #[trigger] b.tasks.has(id) implies {
            &&& after.tasks.has(id)
            &&& status_rank(after.tasks.get(id)->0.status) is Some
            &&& status_rank(after.tasks.get(id)->0.status)->0 >= status_rank(b.tasks.get(id)->0.status)->0
        } by {
            assert(before.0.tasks.has(id));
        }
    }
    assert forall|task_id: Seq<char>|
        b.tasks.has(task_id) && b.tasks.get(task_id)->0.status == "completed"@ implies (#[trigger] run(
        b,
        store,
        ops,
        n,
    ).0.tasks.get(task_id))->0.status == "completed"@ by {
        let after = run(b, store, ops, n).0;
        assert(after.tasks.has(task_id));
        assert(status_rank(after.tasks.get(task_id)->0.status)->0 >= 3);
    }
}

} // verus!
