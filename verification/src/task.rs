//! Tasks, their bounties and the bids made for them.

use vstd::prelude::*;
use crate::text::{clone_opt, clone_strings, str_eq};

verus! {

/// What a task pays, and in which token.
#[derive(Debug)]
pub struct TaskBounty {
    pub amount: i64,
    pub token: String,
}

/// What a [`TaskBounty`] is in contracts.
pub struct TaskBountyView {
    pub amount: i64,
    pub token: Seq<char>,
}

impl View for TaskBounty {
    type V = TaskBountyView;

    open spec fn view(&self) -> TaskBountyView {
        TaskBountyView { amount: self.amount, token: self.token@ }
    }
}

impl Clone for TaskBounty {
    fn clone(&self) -> (r: Self)
        ensures
            r@ == self@,
    {
        TaskBounty { amount: self.amount, token: self.token.clone() }
    }
}

/// An offer to do a task for `amount`, made by `node_id` at `timestamp`.
#[derive(Debug)]
pub struct TaskBid {
    pub node_id: String,
    pub amount: i64,
    pub timestamp: i64,
}

/// What a [`TaskBid`] is in contracts.
pub struct TaskBidView {
    pub node_id: Seq<char>,
    pub amount: i64,
    pub timestamp: i64,
}

impl View for TaskBid {
    type V = TaskBidView;

    open spec fn view(&self) -> TaskBidView {
        TaskBidView { node_id: self.node_id@, amount: self.amount, timestamp: self.timestamp }
    }
}

impl DeepView for TaskBid {
    type V = TaskBidView;

    open spec fn deep_view(&self) -> TaskBidView {
        self@
    }
}

impl Clone for TaskBid {
    fn clone(&self) -> (r: Self)
        ensures
            r@ == self@,
    {
        TaskBid { node_id: self.node_id.clone(), amount: self.amount, timestamp: self.timestamp }
    }
}

/// A copy of every bid of `v`, in order.
pub fn clone_bids(v: &Vec<TaskBid>) -> (r: Vec<TaskBid>)
    ensures
        r.deep_view() == v.deep_view(),
{
    let mut out: Vec<TaskBid> = Vec::new();
    let mut i: usize = 0;
    while i < v.len()
        invariant
            i <= v.len(),
            out.deep_view() == v.deep_view().take(i as int),
        decreases v.len() - i,
    {
        let ghost before = out.deep_view();
        let bid = v[i].clone();
        out.push(bid);
        assert(out.deep_view() =~= before.push(bid@));
        assert(v.deep_view().take(i + 1) =~= before.push(v[i as int]@));
        i += 1;
    }
    assert(v.deep_view().take(i as int) =~= v.deep_view());
    out
}

/// A task of the marketplace. `status` is one of `open`, `voting`,
/// `assigned` and `completed`; each of `submissions` is a JSON document.
#[derive(Debug)]
pub struct Task {
    pub task_id: String,
    pub description: String,
    pub task_type: Option<String>,
    pub bounty: TaskBounty,
    pub tags: Vec<String>,
    pub publisher: String,
    pub status: String,
    pub submissions: Vec<String>,
    pub bids: Vec<TaskBid>,
    pub published_at: String,
    pub voting_started_at: Option<i64>,
    pub assigned_to: Option<String>,
    pub assigned_at: Option<i64>,
    pub winner: Option<String>,
    pub completed_at: Option<String>,
}

/// What a [`Task`] is in contracts.
pub struct TaskView {
    pub task_id: Seq<char>,
    pub description: Seq<char>,
    pub task_type: Option<Seq<char>>,
    pub bounty: TaskBountyView,
    pub tags: Seq<Seq<char>>,
    pub publisher: Seq<char>,
    pub status: Seq<char>,
    pub submissions: Seq<Seq<char>>,
    pub bids: Seq<TaskBidView>,
    pub published_at: Seq<char>,
    pub voting_started_at: Option<i64>,
    pub assigned_to: Option<Seq<char>>,
    pub assigned_at: Option<i64>,
    pub winner: Option<Seq<char>>,
    pub completed_at: Option<Seq<char>>,
}

impl View for Task {
    type V = TaskView;

    open spec fn view(&self) -> TaskView {
        TaskView {
            task_id: self.task_id@,
            description: self.description@,
            task_type: self.task_type.deep_view(),
            bounty: self.bounty@,
            tags: self.tags.deep_view(),
            publisher: self.publisher@,
            status: self.status@,
            submissions: self.submissions.deep_view(),
            bids: self.bids.deep_view(),
            published_at: self.published_at@,
            voting_started_at: self.voting_started_at,
            assigned_to: self.assigned_to.deep_view(),
            assigned_at: self.assigned_at,
            winner: self.winner.deep_view(),
            completed_at: self.completed_at.deep_view(),
        }
    }
}

impl DeepView for Task {
    type V = TaskView;

    open spec fn deep_view(&self) -> TaskView {
        self@
    }
}

impl Clone for Task {
    fn clone(&self) -> (r: Self)
        ensures
            r@ == self@,
    {
        Task {
            task_id: self.task_id.clone(),
            description: self.description.clone(),
            task_type: clone_opt(&self.task_type),
            bounty: self.bounty.clone(),
            tags: clone_strings(&self.tags),
            publisher: self.publisher.clone(),
            status: self.status.clone(),
            submissions: clone_strings(&self.submissions),
            bids: clone_bids(&self.bids),
            published_at: self.published_at.clone(),
            voting_started_at: self.voting_started_at,
            assigned_to: clone_opt(&self.assigned_to),
            assigned_at: self.assigned_at,
            winner: clone_opt(&self.winner),
            completed_at: clone_opt(&self.completed_at),
        }
    }
}

/// How far along `open`, `voting`, `assigned`, `completed` a status stands;
/// nothing for any other text.
pub open spec fn status_rank(status: Seq<char>) -> Option<int> {
    if status == "open"@ {
        Some(0int)
    } else if status == "voting"@ {
        Some(1int)
    } else if status == "assigned"@ {
        Some(2int)
    } else if status == "completed"@ {
        Some(3int)
    } else {
        None
    }
}

/// How far along the chain a status stands; nothing for any other text.
pub fn rank_of(status: &str) -> (r: Option<u8>)
    ensures
        match status_rank(status@) {
            Some(n) => r == Some(n as u8),
            None => r is None,
        },
{
    if str_eq(status, "open") {
        Some(0)
    } else if str_eq(status, "voting") {
        Some(1)
    } else if str_eq(status, "assigned") {
        Some(2)
    } else if str_eq(status, "completed") {
        Some(3)
    } else {
        None
    }
}

/// A status may follow another when both are known and the new one does not
/// stand before the old.
pub open spec fn may_follow(current: Seq<char>, next: Seq<char>) -> bool {
    &&& status_rank(current) is Some
    &&& status_rank(next) is Some
    &&& status_rank(next)->0 >= status_rank(current)->0
}

/// `a` is the better bid: the lower amount, or the same amount made earlier.
pub open spec fn outbids(a: TaskBidView, b: TaskBidView) -> bool {
    a.amount < b.amount || (a.amount == b.amount && a.timestamp < b.timestamp)
}

/// The place of the winning bid among the first `n`: the first that no
/// other outbids.
pub open spec fn winner_place(bids: Seq<TaskBidView>, n: int) -> int
    decreases n,
{
    if n <= 1 {
        0
    } else {
        let best = winner_place(bids, n - 1);
        if outbids(bids[n - 1], bids[best]) {
            n - 1
        } else {
            best
        }
    }
}

/// The winning bid, if any bid was made.
pub open spec fn winning_bid(bids: Seq<TaskBidView>) -> Option<TaskBidView> {
    if bids.len() == 0 {
        None
    } else {
        Some(bids[winner_place(bids, bids.len() as int)])
    }
}

/// The winner has the lowest amount of all bids; of the bids with that
/// amount it has the earliest timestamp; and of those that tie on both it is
/// the first that was made.
pub proof fn winner_is_lowest_then_earliest(bids: Seq<TaskBidView>, n: int)
    requires
        1 <= n <= bids.len(),
    ensures
        0 <= winner_place(bids, n) < n,
        forall|j: int| 0 <= j < n ==> bids[winner_place(bids, n)].amount <= (#[trigger] bids[j]).amount,
        forall|j: int|
            0 <= j < n && (#[trigger] bids[j]).amount == bids[winner_place(bids, n)].amount
                ==> bids[winner_place(bids, n)].timestamp <= bids[j].timestamp,
        forall|j: int| 0 <= j < n ==> !outbids(#[trigger] bids[j], bids[winner_place(bids, n)]),
        forall|j: int|
            0 <= j < winner_place(bids, n) ==> outbids(bids[winner_place(bids, n)], #[trigger] bids[j]),
    decreases n,
{
    if n > 1 {
        winner_is_lowest_then_earliest(bids, n - 1);
    }
}

/// The bid that wins the auction of `bids`.
pub fn best_bid(bids: &Vec<TaskBid>) -> (r: Option<TaskBid>)
    ensures
        r.deep_view() == winning_bid(bids.deep_view()),
{
    if bids.len() == 0 {
        return None;
    }
    let mut best: usize = 0;
    let mut i: usize = 1;
    while i < bids.len()
        invariant
            1 <= i <= bids.len(),
            best < i,
            best == winner_place(bids.deep_view(), i as int),
        decreases bids.len() - i,
    {
        assert(bids.deep_view()[i as int] == bids[i as int]@);
        assert(bids.deep_view()[best as int] == bids[best as int]@);
        if bids[i].amount < bids[best].amount || (bids[i].amount == bids[best].amount
            && bids[i].timestamp < bids[best].timestamp) {
            best = i;
        }
        i += 1;
    }
    assert(bids.deep_view()[best as int] == bids[best as int]@);
    Some(bids[best].clone())
}

} // verus!
