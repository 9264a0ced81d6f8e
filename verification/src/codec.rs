//! The JSON form of tasks, bids, patches and filters, as they travel over
//! the mesh.

use vstd::prelude::*;
use crate::capsule::{CapsuleFilter, CapsuleFilterView};
use crate::json::{
    array_text, integer_in, items_in, member_of, member_views, object_text,
    optional_string_text, string_in, string_items, string_text,
};
use crate::task::{Task, TaskBid, TaskBidView, TaskBounty, TaskBountyView, TaskView};
use crate::task_bazaar::{SolutionOutcome, TaskPatch, TaskPatchView};
use crate::text::{decimal, str_eq};

verus! {

/// The text of an optional integer: a number, or `null`.
pub open spec fn optional_integer_text(n: Option<i64>) -> Seq<char> {
    match n {
        Some(n) => decimal(n as int),
        None => "null"@,
    }
}

/// The text of an array of strings.
pub open spec fn strings_text(items: Seq<Seq<char>>) -> Seq<char> {
    array_text(Seq::new(items.len(), |i: int| string_text(items[i])))
}

/// A bid as a JSON object.
pub open spec fn bid_text(bid: TaskBidView) -> Seq<char> {
    object_text(
        seq![
            ("nodeId"@, string_text(bid.node_id)),
            ("amount"@, decimal(bid.amount as int)),
            ("timestamp"@, decimal(bid.timestamp as int)),
        ],
    )
}

/// Bids as a JSON array.
pub open spec fn bids_text(bids: Seq<TaskBidView>) -> Seq<char> {
    array_text(Seq::new(bids.len(), |i: int| bid_text(bids[i])))
}

/// A bounty as a JSON object.
pub open spec fn bounty_text(bounty: TaskBountyView) -> Seq<char> {
    object_text(seq![("amount"@, decimal(bounty.amount as int)), ("token"@, string_text(bounty.token))])
}

/// A task as a JSON object.
pub open spec fn task_text(task: TaskView) -> Seq<char> {
    object_text(
        seq![
            ("taskId"@, string_text(task.task_id)),
            ("description"@, string_text(task.description)),
            ("type"@, optional_string_text(task.task_type)),
            ("bounty"@, bounty_text(task.bounty)),
            ("tags"@, strings_text(task.tags)),
            ("publisher"@, string_text(task.publisher)),
            ("status"@, string_text(task.status)),
            ("submissions"@, array_text(task.submissions)),
            ("bids"@, bids_text(task.bids)),
            ("publishedAt"@, string_text(task.published_at)),
            ("votingStartedAt"@, optional_integer_text(task.voting_started_at)),
            ("assignedTo"@, optional_string_text(task.assigned_to)),
            ("assignedAt"@, optional_integer_text(task.assigned_at)),
            ("winner"@, optional_string_text(task.winner)),
            ("completedAt"@, optional_string_text(task.completed_at)),
        ],
    )
}

/// The member `name` of `text`, or else its member `alias`.
pub open spec fn member_or(text: Seq<char>, name: Seq<char>, alias: Seq<char>) -> Option<Seq<char>> {
    match member_of(text, name) {
        Some(m) => Some(m),
        None => member_of(text, alias),
    }
}

/// A string that has to be there.
pub open spec fn required_string(member: Option<Seq<char>>) -> Option<Seq<char>> {
    match member {
        Some(m) => string_in(m),
        None => None,
    }
}

/// An integer that has to be there.
pub open spec fn required_integer(member: Option<Seq<char>>) -> Option<i64> {
    match member {
        Some(m) => integer_in(m),
        None => None,
    }
}

/// A string that may be missing or `null`; anything else in its place is a fault.
pub open spec fn optional_string(member: Option<Seq<char>>) -> Option<Option<Seq<char>>> {
    match member {
        None => Some(None),
        Some(m) => if m == "null"@ {
            Some(None)
        } else {
            match string_in(m) {
                Some(s) => Some(Some(s)),
                None => None,
            }
        },
    }
}

/// An integer that may be missing or `null`; anything else in its place is a fault.
pub open spec fn optional_integer(member: Option<Seq<char>>) -> Option<Option<i64>> {
    match member {
        None => Some(None),
        Some(m) => if m == "null"@ {
            Some(None)
        } else {
            match integer_in(m) {
                Some(n) => Some(Some(n)),
                None => None,
            }
        },
    }
}

/// The strings of the first `n` of `items`; a fault where one is no string.
pub open spec fn all_strings(items: Seq<Seq<char>>, n: int) -> Option<Seq<Seq<char>>>
    decreases n,
{
    if n <= 0 {
        Some(Seq::empty())
    } else {
        match (all_strings(items, n - 1), string_in(items[n - 1])) {
            (Some(before), Some(s)) => Some(before.push(s)),
            _ => None,
        }
    }
}

/// An array of strings that has to be there.
pub open spec fn required_strings(member: Option<Seq<char>>) -> Option<Seq<Seq<char>>> {
    match member {
        Some(m) => match items_in(m) {
            Some(items) => all_strings(items, items.len() as int),
            None => None,
        },
        None => None,
    }
}

/// The bid that `text` holds.
pub open spec fn bid_in(text: Seq<char>) -> Option<TaskBidView> {
    match (
        required_string(member_of(text, "nodeId"@)),
        required_integer(member_of(text, "amount"@)),
        required_integer(member_of(text, "timestamp"@)),
    ) {
        (Some(node_id), Some(amount), Some(timestamp)) => Some(TaskBidView { node_id, amount, timestamp }),
        _ => None,
    }
}

/// The bids of the first `n` of `items`; a fault where one is no bid.
pub open spec fn all_bids(items: Seq<Seq<char>>, n: int) -> Option<Seq<TaskBidView>>
    decreases n,
{
    if n <= 0 {
        Some(Seq::empty())
    } else {
        match (all_bids(items, n - 1), bid_in(items[n - 1])) {
            (Some(before), Some(b)) => Some(before.push(b)),
            _ => None,
        }
    }
}

/// The bids among the first `n` of `items`; what is no bid is passed over.
pub open spec fn bids_among(items: Seq<Seq<char>>, n: int) -> Seq<TaskBidView>
    decreases n,
{
    if n <= 0 {
        Seq::empty()
    } else {
        match bid_in(items[n - 1]) {
            Some(b) => bids_among(items, n - 1).push(b),
            None => bids_among(items, n - 1),
        }
    }
}

/// The bounty that `text` holds.
pub open spec fn bounty_in(text: Seq<char>) -> Option<TaskBountyView> {
    match (required_integer(member_of(text, "amount"@)), required_string(member_of(text, "token"@))) {
        (Some(amount), Some(token)) => Some(TaskBountyView { amount, token }),
        _ => None,
    }
}

/// The task that `text` holds: every member but the optional ones has to be
/// there and of its kind.
pub open spec fn task_in(text: Seq<char>) -> Option<TaskView> {
    match (
        required_string(member_of(text, "taskId"@)),
        required_string(member_of(text, "description"@)),
        optional_string(member_of(text, "type"@)),
        match member_of(text, "bounty"@) {
            Some(b) => bounty_in(b),
            None => None,
        },
        required_strings(member_of(text, "tags"@)),
    ) {
        (Some(task_id), Some(description), Some(task_type), Some(bounty), Some(tags)) => match (
            required_string(member_of(text, "publisher"@)),
            required_string(member_of(text, "status"@)),
            match member_of(text, "submissions"@) {
                Some(m) => items_in(m),
                None => None,
            },
            match member_of(text, "bids"@) {
                Some(m) => match items_in(m) {
                    Some(items) => all_bids(items, items.len() as int),
                    None => None,
                },
                None => None,
            },
            required_string(member_or(text, "publishedAt"@, "published_at"@)),
        ) {
            (Some(publisher), Some(status), Some(submissions), Some(bids), Some(published_at)) => match (
                optional_integer(member_or(text, "votingStartedAt"@, "voting_started_at"@)),
                optional_string(member_or(text, "assignedTo"@, "assigned_to"@)),
                optional_integer(member_or(text, "assignedAt"@, "assigned_at"@)),
                optional_string(member_of(text, "winner"@)),
                optional_string(member_or(text, "completedAt"@, "completed_at"@)),
            ) {
                (
                    Some(voting_started_at),
                    Some(assigned_to),
                    Some(assigned_at),
                    Some(winner),
                    Some(completed_at),
                ) => Some(
                    TaskView {
                        task_id,
                        description,
                        task_type,
                        bounty,
                        tags,
                        publisher,
                        status,
                        submissions,
                        bids,
                        published_at,
                        voting_started_at,
                        assigned_to,
                        assigned_at,
                        winner,
                        completed_at,
                    },
                ),
                _ => None,
            },
            _ => None,
        },
        _ => None,
    }
}

/// The patch that `text` holds: each part is taken where it is there and of
/// its kind, and left out otherwise.
pub open spec fn patch_in(text: Seq<char>) -> TaskPatchView {
    TaskPatchView {
        status: required_string(member_of(text, "status"@)),
        bids: match member_of(text, "bids"@) {
            Some(m) => match items_in(m) {
                Some(items) => Some(bids_among(items, items.len() as int)),
                None => None,
            },
            None => None,
        },
        assigned_to: required_string(member_of(text, "assigned_to"@)),
        assigned_at: required_integer(member_of(text, "assigned_at"@)),
        voting_started_at: required_integer(member_of(text, "voting_started_at"@)),
    }
}

/// The filter that `text` holds: its `type`, the strings of its `tags` and
/// its `query`, each where it is there and of its kind.
pub open spec fn filter_in(text: Seq<char>) -> CapsuleFilterView {
    CapsuleFilterView {
        capsule_type: required_string(member_of(text, "type"@)),
        tags: match member_of(text, "tags"@) {
            Some(m) => match items_in(m) {
                Some(items) => string_items(items),
                None => Seq::empty(),
            },
            None => Seq::empty(),
        },
        query: required_string(member_of(text, "query"@)),
    }
}

/// What is sent back for a solution that was handed in.
pub open spec fn outcome_text(outcome: SolutionOutcome) -> Seq<char> {
    match outcome {
        SolutionOutcome::AlreadyCompleted => object_text(
            seq![("success"@, "false"@), ("reason"@, string_text("Task already completed"@))],
        ),
        SolutionOutcome::Invalid => object_text(
            seq![("success"@, "false"@), ("reason"@, string_text("Invalid solution"@))],
        ),
        SolutionOutcome::Rewarded { reward } => object_text(
            seq![("success"@, "true"@), ("winner"@, "true"@), ("reward"@, decimal(reward as int))],
        ),
    }
}

pub(crate) fn no_strings() -> (r: Vec<String>)
    ensures
        r.deep_view() == Seq::<Seq<char>>::empty(),
{
    let r: Vec<String> = Vec::new();
    assert(r.deep_view() =~= Seq::<Seq<char>>::empty());
    r
}

pub(crate) fn member_either(text: &str, name: &str, alias: &str) -> (r: Option<String>)
    ensures
        r.deep_view() == member_or(text@, name@, alias@),
{
    match crate::json::member(text, name) {
        Some(m) => Some(m),
        None => crate::json::member(text, alias),
    }
}

pub(crate) fn need_string(member: &Option<String>) -> (r: Option<String>)
    ensures
        r.deep_view() == required_string(member.deep_view()),
{
    match member {
        Some(m) => crate::json::string_value(m.as_str()),
        None => None,
    }
}

pub(crate) fn need_integer(member: &Option<String>) -> (r: Option<i64>)
    ensures
        r == required_integer(member.deep_view()),
{
    match member {
        Some(m) => crate::json::integer_value(m.as_str()),
        None => None,
    }
}

pub(crate) fn maybe_string(member: &Option<String>) -> (r: Option<Option<String>>)
    ensures
        r.deep_view() == optional_string(member.deep_view()),
{
    match member {
        None => Some(None),
        Some(m) => {
            if str_eq(m.as_str(), "null") {
                Some(None)
            } else {
                match crate::json::string_value(m.as_str()) {
                    Some(s) => Some(Some(s)),
                    None => None,
                }
            }
        },
    }
}

pub(crate) fn maybe_integer(member: &Option<String>) -> (r: Option<Option<i64>>)
    ensures
        r == optional_integer(member.deep_view()),
{
    match member {
        None => Some(None),
        Some(m) => {
            if str_eq(m.as_str(), "null") {
                Some(None)
            } else {
                match crate::json::integer_value(m.as_str()) {
                    Some(n) => Some(Some(n)),
                    None => None,
                }
            }
        },
    }
}

pub(crate) fn need_strings(member: &Option<String>) -> (r: Option<Vec<String>>)
    ensures
        r.deep_view() == required_strings(member.deep_view()),
{
    let list = match member {
        Some(m) => match crate::json::items(m.as_str()) {
            Some(list) => list,
            None => {
                return None;
            },
        },
        None => {
            return None;
        },
    };
    let mut out: Vec<String> = Vec::new();
    let mut i: usize = 0;
    while i < list.len()
        invariant
            i <= list.len(),
            all_strings(list.deep_view(), i as int) == Some(out.deep_view()),
            required_strings(member.deep_view()) == all_strings(list.deep_view(), list.len() as int),
        decreases list.len() - i,
    {
        assert(list.deep_view()[i as int] == list[i as int]@);
        let ghost before = out.deep_view();
        match crate::json::string_value(list[i].as_str()) {
            Some(s) => {
                out.push(s);
                assert(out.deep_view() =~= before.push(s@));
            },
            None => {
                proof {
                    lemma_all_strings_fault(list.deep_view(), i as int + 1, list.len() as int);
                }
                return None;
            },
        }
        i += 1;
    }
    Some(out)
}

proof fn lemma_all_strings_fault(items: Seq<Seq<char>>, n: int, m: int)
    requires
        0 <= n <= m,
        all_strings(items, n) is None,
    ensures
        all_strings(items, m) is None,
    decreases m - n,
{
    if n < m {
        lemma_all_strings_fault(items, n + 1, m);
    }
}

proof fn lemma_all_bids_fault(items: Seq<Seq<char>>, n: int, m: int)
    requires
        0 <= n <= m,
        all_bids(items, n) is None,
    ensures
        all_bids(items, m) is None,
    decreases m - n,
{
    if n < m {
        lemma_all_bids_fault(items, n + 1, m);
    }
}

impl TaskBid {
    /// This bid as the text of a JSON object.
    pub fn to_json(&self) -> (r: String)
        ensures
            r@ == bid_text(self@),
    {
        let mut members: Vec<(String, String)> = Vec::new();
        members.push(("nodeId".to_string(), crate::json::string(self.node_id.as_str())));
        members.push(("amount".to_string(), crate::text::decimal_text(self.amount as i128)));
        members.push(("timestamp".to_string(), crate::text::decimal_text(self.timestamp as i128)));
        assert(member_views(members@) =~= seq![
            ("nodeId"@, string_text(self.node_id@)),
            ("amount"@, decimal(self.amount as int)),
            ("timestamp"@, decimal(self.timestamp as int)),
        ]);
        crate::json::object(&members)
    }

    /// The bid that `text` holds, if it holds one.
    pub fn from_json(text: &str) -> (r: Option<TaskBid>)
        ensures
            r.deep_view() == bid_in(text@),
    {
        let node_id = need_string(&crate::json::member(text, "nodeId"));
        let amount = need_integer(&crate::json::member(text, "amount"));
        let timestamp = need_integer(&crate::json::member(text, "timestamp"));
        match (node_id, amount, timestamp) {
            (Some(node_id), Some(amount), Some(timestamp)) => Some(TaskBid { node_id, amount, timestamp }),
            _ => None,
        }
    }
}

pub(crate) fn strings_to_json(items: &Vec<String>) -> (r: String)
    ensures
        r@ == strings_text(items.deep_view()),
{
    let mut texts: Vec<String> = Vec::new();
    let mut i: usize = 0;
    while i < items.len()
        invariant
            i <= items.len(),
            texts.len() == i,
            forall|j: int| 0 <= j < i ==> (#[trigger] texts[j])@ == string_text(items[j]@),
        decreases items.len() - i,
    {
        texts.push(crate::json::string(items[i].as_str()));
        i += 1;
    }
    assert(texts.deep_view() =~= Seq::new(
        items.deep_view().len(),
        |i: int| string_text(items.deep_view()[i]),
    ));
    crate::json::array(&texts)
}

fn bids_to_json(bids: &Vec<TaskBid>) -> (r: String)
    ensures
        r@ == bids_text(bids.deep_view()),
{
    let mut texts: Vec<String> = Vec::new();
    let mut i: usize = 0;
    while i < bids.len()
        invariant
            i <= bids.len(),
            texts.len() == i,
            forall|j: int| 0 <= j < i ==> (#[trigger] texts[j])@ == bid_text(bids[j]@),
        decreases bids.len() - i,
    {
        texts.push(bids[i].to_json());
        i += 1;
    }
    assert(texts.deep_view() =~= Seq::new(bids.deep_view().len(), |i: int| bid_text(bids.deep_view()[i])));
    crate::json::array(&texts)
}

pub(crate) fn optional_integer_json(n: &Option<i64>) -> (r: String)
    ensures
        r@ == optional_integer_text(*n),
{
    match n {
        Some(n) => crate::text::decimal_text(*n as i128),
        None => "null".to_string(),
    }
}

fn bids_from_items(list: &Vec<String>) -> (r: Option<Vec<TaskBid>>)
    ensures
        r.deep_view() == all_bids(list.deep_view(), list.len() as int),
{
    let mut out: Vec<TaskBid> = Vec::new();
    let mut i: usize = 0;
    while i < list.len()
        invariant
            i <= list.len(),
            all_bids(list.deep_view(), i as int) == Some(out.deep_view()),
        decreases list.len() - i,
    {
        assert(list.deep_view()[i as int] == list[i as int]@);
        let ghost before = out.deep_view();
        match TaskBid::from_json(list[i].as_str()) {
            Some(b) => {
                out.push(b);
                assert(out.deep_view() =~= before.push(b@));
            },
            None => {
                proof {
                    lemma_all_bids_fault(list.deep_view(), i as int + 1, list.len() as int);
                }
                return None;
            },
        }
        i += 1;
    }
    Some(out)
}

fn bids_among_items(list: &Vec<String>) -> (r: Vec<TaskBid>)
    ensures
        r.deep_view() == bids_among(list.deep_view(), list.len() as int),
{
    let mut out: Vec<TaskBid> = Vec::new();
    let mut i: usize = 0;
    while i < list.len()
        invariant
            i <= list.len(),
            out.deep_view() == bids_among(list.deep_view(), i as int),
        decreases list.len() - i,
    {
        assert(list.deep_view()[i as int] == list[i as int]@);
        let ghost before = out.deep_view();
        match TaskBid::from_json(list[i].as_str()) {
            Some(b) => {
                out.push(b);
                assert(out.deep_view() =~= before.push(b@));
            },
            None => {},
        }
        i += 1;
    }
    out
}

impl TaskBounty {
    /// This bounty as the text of a JSON object.
    pub fn to_json(&self) -> (r: String)
        ensures
            r@ == bounty_text(self@),
    {
        let mut members: Vec<(String, String)> = Vec::new();
        members.push(("amount".to_string(), crate::text::decimal_text(self.amount as i128)));
        members.push(("token".to_string(), crate::json::string(self.token.as_str())));
        assert(member_views(members@) =~= seq![
            ("amount"@, decimal(self.amount as int)),
            ("token"@, string_text(self.token@)),
        ]);
        crate::json::object(&members)
    }

    /// The bounty that `text` holds, if it holds one.
    pub fn from_json(text: &str) -> (r: Option<TaskBounty>)
        ensures
            match bounty_in(text@) {
                Some(b) => r is Some && r->0@ == b,
                None => r is None,
            },
    {
        let amount = need_integer(&crate::json::member(text, "amount"));
        let token = need_string(&crate::json::member(text, "token"));
        match (amount, token) {
            (Some(amount), Some(token)) => Some(TaskBounty { amount, token }),
            _ => None,
        }
    }
}

impl Task {
    /// The JSON object that renders the task.
    pub fn to_json(&self) -> (r: String)
        ensures
            r@ == task_text(self@),
    {
        let mut members: Vec<(String, String)> = Vec::new();
        members.push(("taskId".to_string(), crate::json::string(self.task_id.as_str())));
        members.push(("description".to_string(), crate::json::string(self.description.as_str())));
        members.push(("type".to_string(), crate::json::optional_string(&self.task_type)));
        members.push(("bounty".to_string(), self.bounty.to_json()));
        members.push(("tags".to_string(), strings_to_json(&self.tags)));
        members.push(("publisher".to_string(), crate::json::string(self.publisher.as_str())));
        members.push(("status".to_string(), crate::json::string(self.status.as_str())));
        members.push(("submissions".to_string(), crate::json::array(&self.submissions)));
        members.push(("bids".to_string(), bids_to_json(&self.bids)));
        members.push(("publishedAt".to_string(), crate::json::string(self.published_at.as_str())));
        members.push(("votingStartedAt".to_string(), optional_integer_json(&self.voting_started_at)));
        members.push(("assignedTo".to_string(), crate::json::optional_string(&self.assigned_to)));
        members.push(("assignedAt".to_string(), optional_integer_json(&self.assigned_at)));
        members.push(("winner".to_string(), crate::json::optional_string(&self.winner)));
        members.push(("completedAt".to_string(), crate::json::optional_string(&self.completed_at)));
        assert(member_views(members@) =~= seq![
            ("taskId"@, string_text(self@.task_id)),
            ("description"@, string_text(self@.description)),
            ("type"@, optional_string_text(self@.task_type)),
            ("bounty"@, bounty_text(self@.bounty)),
            ("tags"@, strings_text(self@.tags)),
            ("publisher"@, string_text(self@.publisher)),
            ("status"@, string_text(self@.status)),
            ("submissions"@, array_text(self@.submissions)),
            ("bids"@, bids_text(self@.bids)),
            ("publishedAt"@, string_text(self@.published_at)),
            ("votingStartedAt"@, optional_integer_text(self@.voting_started_at)),
            ("assignedTo"@, optional_string_text(self@.assigned_to)),
            ("assignedAt"@, optional_integer_text(self@.assigned_at)),
            ("winner"@, optional_string_text(self@.winner)),
            ("completedAt"@, optional_string_text(self@.completed_at)),
        ]);
        crate::json::object(&members)
    }

    /// The task that `text` holds, if it holds one.
    pub fn from_json(text: &str) -> (r: Option<Task>)
        ensures
            r.deep_view() == task_in(text@),
    {
        let task_id = need_string(&crate::json::member(text, "taskId"));
        let description = need_string(&crate::json::member(text, "description"));
        let task_type = maybe_string(&crate::json::member(text, "type"));
        let bounty = match crate::json::member(text, "bounty") {
            Some(b) => TaskBounty::from_json(b.as_str()),
            None => None,
        };
        let tags = need_strings(&crate::json::member(text, "tags"));
        let (task_id, description, task_type, bounty, tags) = match (
            task_id,
            description,
            task_type,
            bounty,
            tags,
        ) {
            (Some(a), Some(b), Some(c), Some(d), Some(e)) => (a, b, c, d, e),
            _ => {
                return None;
            },
        };
        let publisher = need_string(&crate::json::member(text, "publisher"));
        let status = need_string(&crate::json::member(text, "status"));
        let submissions = match crate::json::member(text, "submissions") {
            Some(m) => crate::json::items(m.as_str()),
            None => None,
        };
        let bids = match crate::json::member(text, "bids") {
            Some(m) => match crate::json::items(m.as_str()) {
                Some(list) => bids_from_items(&list),
                None => None,
            },
            None => None,
        };
        let published_at = need_string(&member_either(text, "publishedAt", "published_at"));
        let (publisher, status, submissions, bids, published_at) = match (
            publisher,
            status,
            submissions,
            bids,
            published_at,
        ) {
            (Some(a), Some(b), Some(c), Some(d), Some(e)) => (a, b, c, d, e),
            _ => {
                return None;
            },
        };
        let voting_started_at = maybe_integer(&member_either(text, "votingStartedAt", "voting_started_at"));
        let assigned_to = maybe_string(&member_either(text, "assignedTo", "assigned_to"));
        let assigned_at = maybe_integer(&member_either(text, "assignedAt", "assigned_at"));
        let winner = maybe_string(&crate::json::member(text, "winner"));
        let completed_at = maybe_string(&member_either(text, "completedAt", "completed_at"));
        match (voting_started_at, assigned_to, assigned_at, winner, completed_at) {
            (Some(voting_started_at), Some(assigned_to), Some(assigned_at), Some(winner), Some(completed_at)) => {
                Some(
                    Task {
                        task_id,
                        description,
                        task_type,
                        bounty,
                        tags,
                        publisher,
                        status,
                        submissions,
                        bids,
                        published_at,
                        voting_started_at,
                        assigned_to,
                        assigned_at,
                        winner,
                        completed_at,
                    },
                )
            },
            _ => None,
        }
    }
}

impl TaskPatch {
    /// A patch that sets nothing.
    pub fn empty() -> (r: TaskPatch)
        ensures
            r@ == (TaskPatchView {
                status: None,
                bids: None,
                assigned_to: None,
                assigned_at: None,
                voting_started_at: None,
            }),
    {
        TaskPatch { status: None, bids: None, assigned_to: None, assigned_at: None, voting_started_at: None }
    }

    /// The patch that `text` holds.
    pub fn from_json(text: &str) -> (r: TaskPatch)
        ensures
            r@ == patch_in(text@),
    {
        let bids = match crate::json::member(text, "bids") {
            Some(m) => match crate::json::items(m.as_str()) {
                Some(list) => Some(bids_among_items(&list)),
                None => None,
            },
            None => None,
        };
        TaskPatch {
            status: need_string(&crate::json::member(text, "status")),
            bids,
            assigned_to: need_string(&crate::json::member(text, "assigned_to")),
            assigned_at: need_integer(&crate::json::member(text, "assigned_at")),
            voting_started_at: need_integer(&crate::json::member(text, "voting_started_at")),
        }
    }
}

impl CapsuleFilter {
    /// The filter that `text` holds.
    pub fn from_json(text: &str) -> (r: CapsuleFilter)
        ensures
            r@ == filter_in(text@),
    {
        let tags = match crate::json::member(text, "tags") {
            Some(m) => match crate::json::items(m.as_str()) {
                Some(list) => crate::json::strings_among(&list),
                None => no_strings(),
            },
            None => no_strings(),
        };
        CapsuleFilter {
            capsule_type: need_string(&crate::json::member(text, "type")),
            tags,
            query: need_string(&crate::json::member(text, "query")),
        }
    }
}

impl SolutionOutcome {
    /// This outcome as the text of a JSON object.
    pub fn to_json(&self) -> (r: String)
        ensures
            r@ == outcome_text(*self),
    {
        let mut members: Vec<(String, String)> = Vec::new();
        match self {
            SolutionOutcome::AlreadyCompleted => {
                members.push(("success".to_string(), "false".to_string()));
                members.push(("reason".to_string(), crate::json::string("Task already completed")));
                assert(member_views(members@) =~= seq![
                    ("success"@, "false"@),
                    ("reason"@, string_text("Task already completed"@)),
                ]);
            },
            SolutionOutcome::Invalid => {
                members.push(("success".to_string(), "false".to_string()));
                members.push(("reason".to_string(), crate::json::string("Invalid solution")));
                assert(member_views(members@) =~= seq![
                    ("success"@, "false"@),
                    ("reason"@, string_text("Invalid solution"@)),
                ]);
            },
            SolutionOutcome::Rewarded { reward } => {
                members.push(("success".to_string(), "true".to_string()));
                members.push(("winner".to_string(), "true".to_string()));
                members.push(("reward".to_string(), crate::text::decimal_text(*reward as i128)));
                assert(member_views(members@) =~= seq![
                    ("success"@, "true"@),
                    ("winner"@, "true"@),
                    ("reward"@, decimal(*reward as int)),
                ]);
            },
        }
        crate::json::object(&members)
    }
}

} // verus!
