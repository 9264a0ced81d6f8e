//! The rows that the store keeps: accounts, ledger entries and escrows.

use vstd::prelude::*;
use crate::text::clone_opt;

verus! {

/// A moment as the clock gave it: once as RFC 3339 text, once in milliseconds.
pub struct Stamp {
    pub iso: String,
    pub millis: i64,
}

/// What a [`Stamp`] is in contracts.
pub struct StampView {
    pub iso: Seq<char>,
    pub millis: i64,
}

impl View for Stamp {
    type V = StampView;

    open spec fn view(&self) -> StampView {
        StampView { iso: self.iso@, millis: self.millis }
    }
}

impl Stamp {
    /// The present moment, its text in UTC.
    pub fn now() -> (s: Stamp)
        ensures
            crate::util::says_utc(s@.iso),
    {
        Stamp { iso: crate::util::now_iso(), millis: crate::util::now_millis() }
    }
}

/// An account: who owns it, how it was made, and what it holds.
#[derive(Debug)]
pub struct Account {
    pub account_id: String,
    pub node_id: String,
    pub algorithm: String,
    pub seed_hash: String,
    pub created_at: String,
    pub imported_at: Option<String>,
    pub balance: i64,
}

/// What a [`Account`] is in contracts.
pub struct AccountView {
    pub account_id: Seq<char>,
    pub node_id: Seq<char>,
    pub algorithm: Seq<char>,
    pub seed_hash: Seq<char>,
    pub created_at: Seq<char>,
    pub imported_at: Option<Seq<char>>,
    pub balance: i64,
}

impl View for Account {
    type V = AccountView;

    open spec fn view(&self) -> AccountView {
        AccountView {
            account_id: self.account_id@,
            node_id: self.node_id@,
            algorithm: self.algorithm@,
            seed_hash: self.seed_hash@,
            created_at: self.created_at@,
            imported_at: self.imported_at.deep_view(),
            balance: self.balance,
        }
    }
}

impl DeepView for Account {
    type V = AccountView;

    open spec fn deep_view(&self) -> AccountView {
        self@
    }
}

impl Clone for Account {
    fn clone(&self) -> (r: Self)
        ensures
            r@ == self@,
    {
        Account {
            account_id: self.account_id.clone(),
            node_id: self.node_id.clone(),
            algorithm: self.algorithm.clone(),
            seed_hash: self.seed_hash.clone(),
            created_at: self.created_at.clone(),
            imported_at: clone_opt(&self.imported_at),
            balance: self.balance,
        }
    }
}

/// One entry of the hash-chained ledger. `meta` is a JSON document.
#[derive(Debug)]
pub struct LedgerEntry {
    pub index: u64,
    pub prev_hash: String,
    pub hash: String,
    pub timestamp: i64,
    pub entry_type: String,
    pub account_id: Option<String>,
    pub node_id: Option<String>,
    pub from: Option<String>,
    pub to: Option<String>,
    pub amount: i64,
    pub meta: String,
}

/// What a [`LedgerEntry`] is in contracts.
pub struct LedgerEntryView {
    pub index: u64,
    pub prev_hash: Seq<char>,
    pub hash: Seq<char>,
    pub timestamp: i64,
    pub entry_type: Seq<char>,
    pub account_id: Option<Seq<char>>,
    pub node_id: Option<Seq<char>>,
    pub from: Option<Seq<char>>,
    pub to: Option<Seq<char>>,
    pub amount: i64,
    pub meta: Seq<char>,
}

impl View for LedgerEntry {
    type V = LedgerEntryView;

    open spec fn view(&self) -> LedgerEntryView {
        LedgerEntryView {
            index: self.index,
            prev_hash: self.prev_hash@,
            hash: self.hash@,
            timestamp: self.timestamp,
            entry_type: self.entry_type@,
            account_id: self.account_id.deep_view(),
            node_id: self.node_id.deep_view(),
            from: self.from.deep_view(),
            to: self.to.deep_view(),
            amount: self.amount,
            meta: self.meta@,
        }
    }
}

impl DeepView for LedgerEntry {
    type V = LedgerEntryView;

    open spec fn deep_view(&self) -> LedgerEntryView {
        self@
    }
}

impl Clone for LedgerEntry {
    fn clone(&self) -> (r: Self)
        ensures
            r@ == self@,
    {
        LedgerEntry {
            index: self.index,
            prev_hash: self.prev_hash.clone(),
            hash: self.hash.clone(),
            timestamp: self.timestamp,
            entry_type: self.entry_type.clone(),
            account_id: clone_opt(&self.account_id),
            node_id: clone_opt(&self.node_id),
            from: clone_opt(&self.from),
            to: clone_opt(&self.to),
            amount: self.amount,
            meta: self.meta.clone(),
        }
    }
}

/// Funds held for a task between its publication and its completion.
#[derive(Debug)]
pub struct Escrow {
    pub task_id: String,
    pub from_account_id: String,
    pub amount: i64,
    pub token: String,
    pub created_at: String,
}

/// What a [`Escrow`] is in contracts.
pub struct EscrowView {
    pub task_id: Seq<char>,
    pub from_account_id: Seq<char>,
    pub amount: i64,
    pub token: Seq<char>,
    pub created_at: Seq<char>,
}

impl View for Escrow {
    type V = EscrowView;

    open spec fn view(&self) -> EscrowView {
        EscrowView {
            task_id: self.task_id@,
            from_account_id: self.from_account_id@,
            amount: self.amount,
            token: self.token@,
            created_at: self.created_at@,
        }
    }
}

impl DeepView for Escrow {
    type V = EscrowView;

    open spec fn deep_view(&self) -> EscrowView {
        self@
    }
}

impl Clone for Escrow {
    fn clone(&self) -> (r: Self)
        ensures
            r@ == self@,
    {
        Escrow {
            task_id: self.task_id.clone(),
            from_account_id: self.from_account_id.clone(),
            amount: self.amount,
            token: self.token.clone(),
            created_at: self.created_at.clone(),
        }
    }
}

} // verus!
