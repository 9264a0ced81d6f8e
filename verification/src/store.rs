//! The store: accounts, the index from nodes to accounts, the ledger,
//! capsules with their inverted index, and escrows.

use vstd::prelude::*;
use crate::capsule::{
    capsule_tokens, index_capsule, indexed, postings_wf, query, query_result, strip_all, stripped,
    tokens_for, CapsuleFilter, CapsuleSnapshot, Snapshot, SnapshotView,
};
use crate::error::MeshError;
use crate::json::{canonical_of, member_views, object_text, string_text};
use crate::ledger::{append_entry, chained, next_entry};
use crate::records::{
    Account, AccountView, Escrow, EscrowView, LedgerEntry, LedgerEntryView, Stamp, StampView,
};
use crate::table::{Rows, Table};
use crate::text::{clone_strings, concat, opt_eq, str_eq};
use crate::util::{is_lower_hex, random_hex, sha256_hex, sha256_hex_of};

verus! {

/// The node that stands for the genesis account in the index.
pub open spec fn genesis_node() -> Seq<char> {
    "node_genesis"@
}

/// The identifier of the genesis account.
pub open spec fn genesis_account_id() -> Seq<char> {
    "acct_genesis"@
}

/// The supply that a genesis node mints when it is told no other.
pub const DEFAULT_GENESIS_SUPPLY: i64 = 1_000_000;

/// The genesis account as it is first written, before anything is minted.
pub open spec fn genesis_account(created_at: Seq<char>) -> AccountView {
    AccountView {
        account_id: genesis_account_id(),
        node_id: genesis_node(),
        algorithm: "genesis"@,
        seed_hash: sha256_hex_of("genesis"@),
        created_at,
        imported_at: None,
        balance: 0,
    }
}

/// A new account for `node_id`, with nothing in it.
pub open spec fn fresh_account(
    node_id: Seq<char>,
    algorithm: Seq<char>,
    account_id: Seq<char>,
    created_at: Seq<char>,
) -> AccountView {
    AccountView {
        account_id,
        node_id,
        algorithm,
        seed_hash: sha256_hex_of(node_id + ":"@ + account_id),
        created_at,
        imported_at: None,
        balance: 0,
    }
}

/// An identifier as `ensure_account` draws them: `acct_` and sixteen
/// lower-case hexadecimal digits.
pub open spec fn is_drawn_account_id(id: Seq<char>) -> bool {
    &&& id.len() == 21
    &&& id.subrange(0, 5) == "acct_"@
    &&& forall|i: int| 5 <= i < 21 ==> is_lower_hex(#[trigger] id[i])
}

/// The document that an escrow entry of the ledger carries.
pub open spec fn escrow_meta(task_id: Seq<char>, token: Seq<char>) -> Seq<char> {
    object_text(seq![("taskId"@, string_text(task_id)), ("token"@, string_text(token))])
}

/// What the store holds.
pub struct StoreView {
    pub node_id: Seq<char>,
    pub is_genesis_node: bool,
    pub genesis_operator: Option<Seq<char>>,
    pub data_dir: Seq<char>,
    pub genesis_supply: i64,
    pub accounts: Rows<AccountView>,
    pub account_index: Rows<Seq<char>>,
    pub ledger: Seq<LedgerEntryView>,
    pub capsules: Rows<Seq<char>>,
    pub capsule_index: Rows<Seq<Seq<char>>>,
    pub escrows: Rows<EscrowView>,
}

/// The outcome of a request for an account, the account by its view.
pub open spec fn account_result(r: Result<Account, MeshError>) -> Result<AccountView, MeshError> {
    match r {
        Ok(a) => Ok(a@),
        Err(e) => Err(e),
    }
}

/// The table that the first `n` accounts make, each under its identifier.
pub open spec fn accounts_table(rows: Seq<AccountView>, n: int) -> Rows<AccountView>
    decreases n,
{
    if n <= 0 {
        Rows::empty()
    } else {
        accounts_table(rows, n - 1).put(rows[n - 1].account_id, rows[n - 1])
    }
}

/// The table that the first `n` escrows make, each under its task.
pub open spec fn escrows_table(rows: Seq<EscrowView>, n: int) -> Rows<EscrowView>
    decreases n,
{
    if n <= 0 {
        Rows::empty()
    } else {
        escrows_table(rows, n - 1).put(rows[n - 1].task_id, rows[n - 1])
    }
}

/// The table that the first `n` pairs of texts make.
pub open spec fn pairs_table(rows: Seq<(Seq<char>, Seq<char>)>, n: int) -> Rows<Seq<char>>
    decreases n,
{
    if n <= 0 {
        Rows::empty()
    } else {
        pairs_table(rows, n - 1).put(rows[n - 1].0, rows[n - 1].1)
    }
}

/// The index of tokens that the first `n` lists make, each identifier
/// entered once.
pub open spec fn postings_table(rows: Seq<(Seq<char>, Seq<Seq<char>>)>, n: int) -> Rows<Seq<Seq<char>>>
    decreases n,
{
    if n <= 0 {
        Rows::empty()
    } else {
        postings_table(rows, n - 1).put(
            rows[n - 1].0,
            crate::text::union(Seq::empty(), rows[n - 1].1, rows[n - 1].1.len() as int),
        )
    }
}

/// The views of lists of identifiers under their tokens.
pub open spec fn posting_views(rows: Seq<(String, Vec<String>)>) -> Seq<(Seq<char>, Seq<Seq<char>>)> {
    Seq::new(rows.len(), |i: int| (rows[i].0@, rows[i].1.deep_view()))
}

/// The outcome of a request for a text, the text by its view.
pub open spec fn text_result(r: Result<String, MeshError>) -> Result<Seq<char>, MeshError> {
    match r {
        Ok(s) => Ok(s@),
        Err(e) => Err(e),
    }
}

/// Every account stands under its own identifier.
pub open spec fn keyed_by_id(accounts: Rows<AccountView>) -> bool {
    forall|i: int|
        0 <= i < accounts.keys.len() ==> (#[trigger] accounts.values[i]).account_id == accounts.keys[i]
}

/// The index names only accounts that there are.
pub open spec fn names_accounts(index: Rows<Seq<char>>, accounts: Rows<AccountView>) -> bool {
    forall|i: int| 0 <= i < index.values.len() ==> accounts.has(#[trigger] index.values[i])
}

/// An account that is found under an identifier carries that identifier.
pub proof fn lemma_held_account(accounts: Rows<AccountView>, id: Seq<char>)
    requires
        accounts.wf(),
        keyed_by_id(accounts),
        accounts.has(id),
    ensures
        accounts.get(id)->0.account_id == id,
{
    accounts.lemma_has(id);
}

/// Writing an account under its own identifier keeps the accounts keyed and
/// the index sound.
pub proof fn lemma_account_written(
    accounts: Rows<AccountView>,
    index: Rows<Seq<char>>,
    key: Seq<char>,
    a: AccountView,
)
    requires
        accounts.wf(),
        keyed_by_id(accounts),
        names_accounts(index, accounts),
        a.account_id == key,
    ensures
        accounts.put(key, a).wf(),
        accounts.put(key, a).has(key),
        keyed_by_id(accounts.put(key, a)),
        names_accounts(index, accounts.put(key, a)),
{
    accounts.lemma_put(key, a);
    let after = accounts.put(key, a);
    if accounts.has(key) {
        accounts.lemma_has(key);
    }
    assert forall|i: int| 0 <= i < after.keys.len() implies (#[trigger] after.values[i]).account_id
        == after.keys[i] by {
        if accounts.has(key) {
            if i != accounts.place(key) {
                assert(after.values[i] == accounts.values[i]);
            }
        } else if i < accounts.keys.len() {
            assert(after.values[i] == accounts.values[i]);
        }
    }
    assert forall|i: int| 0 <= i < index.values.len() implies after.has(#[trigger] index.values[i]) by {
        assert(accounts.has(index.values[i]));
    }
}

/// Pointing a node at an account that there is keeps the index sound.
pub proof fn lemma_index_written(
    accounts: Rows<AccountView>,
    index: Rows<Seq<char>>,
    node: Seq<char>,
    id: Seq<char>,
)
    requires
        index.wf(),
        names_accounts(index, accounts),
        accounts.has(id),
    ensures
        index.put(node, id).wf(),
        names_accounts(index.put(node, id), accounts),
{
    index.lemma_put(node, id);
    let after = index.put(node, id);
    if index.has(node) {
        index.lemma_has(node);
    }
    assert forall|i: int| 0 <= i < after.values.len() implies accounts.has(#[trigger] after.values[i]) by {
        if index.has(node) {
            if i != index.place(node) {
                assert(after.values[i] == index.values[i]);
            }
        } else if i < index.values.len() {
            assert(after.values[i] == index.values[i]);
        }
    }
}

impl StoreView {
    /// The tables hold no key twice, every account stands under its own
    /// identifier, the index names only accounts that there are, no posting
    /// list holds an identifier twice, and the ledger is chained.
    pub open spec fn wf(self) -> bool {
        &&& self.accounts.wf()
        &&& self.account_index.wf()
        &&& self.capsules.wf()
        &&& self.capsule_index.wf()
        &&& self.escrows.wf()
        &&& keyed_by_id(self.accounts)
        &&& names_accounts(self.account_index, self.accounts)
        &&& chained(self.ledger)
        &&& postings_wf(self.capsule_index)
    }

    /// In a well-formed store the index leads each node it knows to an
    /// account, and that account carries the identifier the index gave.
    pub proof fn lemma_indexed_account(self, node: Seq<char>)
        requires
            self.wf(),
            self.account_index.has(node),
        ensures
            self.account_of_node(node) is Some,
            self.account_of_node(node)->0.account_id == self.account_index.get(node)->0,
    {
        self.account_index.lemma_has(node);
        let id = self.account_index.values[self.account_index.place(node)];
        assert(self.accounts.has(id));
        lemma_held_account(self.accounts, id);
    }

    /// This store on a node that is or is not a genesis node; on a genesis
    /// node the genesis bootstrap has run.
    pub open spec fn with_genesis(self, is_genesis_node: bool, stamp: StampView) -> StoreView {
        let marked = StoreView { is_genesis_node, ..self };
        if is_genesis_node {
            marked.bootstrap(stamp).0
        } else {
            marked
        }
    }

    /// The account of `node`, by way of the index.
    pub open spec fn account_of_node(self, node: Seq<char>) -> Option<AccountView> {
        match self.account_index.get(node) {
            Some(id) => self.accounts.get(id),
            None => None,
        }
    }

    /// The genesis bootstrap: where the index does not know the genesis node,
    /// write the genesis account and, on an empty ledger, mint the supply to it.
    pub open spec fn bootstrap(self, stamp: StampView) -> (StoreView, Result<AccountView, MeshError>) {
        match self.account_index.get(genesis_node()) {
            Some(id) => match self.accounts.get(id) {
                Some(a) => (self, Ok(a)),
                None => (self, Err(MeshError::AccountNotFound)),
            },
            None => {
                let account = genesis_account(stamp.iso);
                let written = StoreView {
                    accounts: self.accounts.put(genesis_account_id(), account),
                    account_index: self.account_index.put(genesis_node(), genesis_account_id()),
                    ..self
                };
                if self.ledger.len() == 0 {
                    let entry = LedgerEntryView {
                        account_id: Some(genesis_account_id()),
                        ..next_entry(
                            self.ledger,
                            "mint"@,
                            None,
                            Some(genesis_account_id()),
                            self.genesis_supply,
                            "{}"@,
                            stamp.millis,
                        )
                    };
                    let funded = AccountView { balance: self.genesis_supply, ..account };
                    (
                        StoreView {
                            accounts: written.accounts.put(genesis_account_id(), funded),
                            ledger: self.ledger.push(entry),
                            ..written
                        },
                        Ok(funded),
                    )
                } else {
                    (written, Ok(account))
                }
            },
        }
    }

    /// The account of `node_id` where the index knows the node; else a new
    /// account under `account_id`, unless that identifier is taken.
    pub open spec fn ensure_account(
        self,
        node_id: Seq<char>,
        algorithm: Seq<char>,
        account_id: Seq<char>,
        stamp: StampView,
    ) -> (StoreView, Result<AccountView, MeshError>) {
        match self.account_index.get(node_id) {
            Some(id) => match self.accounts.get(id) {
                Some(a) => (self, Ok(a)),
                None => (self, Err(MeshError::AccountNotFound)),
            },
            None => if self.accounts.has(account_id) {
                (self, Err(MeshError::StoreConflict))
            } else {
                let account = fresh_account(node_id, algorithm, account_id, stamp.iso);
                (
                    StoreView {
                        accounts: self.accounts.put(account_id, account),
                        account_index: self.account_index.put(node_id, account_id),
                        ..self
                    },
                    Ok(account),
                )
            },
        }
    }

    /// The account `payload` written for `node_id`, marked as imported at `stamp`.
    pub open spec fn import_account(self, node_id: Seq<char>, payload: AccountView, stamp: StampView) -> (
        StoreView,
        AccountView,
    ) {
        let imported = AccountView { node_id, imported_at: Some(stamp.iso), ..payload };
        (
            StoreView {
                accounts: self.accounts.put(imported.account_id, imported),
                account_index: self.account_index.put(node_id, imported.account_id),
                ..self
            },
            imported,
        )
    }

    /// Why a transfer of a positive amount is refused, if it is.
    pub open spec fn transfer_refusal(
        self,
        genesis_id: Seq<char>,
        from: Seq<char>,
        to: Seq<char>,
        amount: i64,
        operator: Option<Seq<char>>,
    ) -> Option<MeshError> {
        if from == genesis_id && self.genesis_operator is None {
            Some(MeshError::OperatorNotConfigured)
        } else if from == genesis_id && self.genesis_operator != operator {
            Some(MeshError::OperatorNotAuthorized)
        } else if !self.accounts.has(from) || !self.accounts.has(to) {
            Some(MeshError::AccountNotFound)
        } else if self.accounts.get(from)->0.balance < amount {
            Some(MeshError::InsufficientBalance)
        } else if from != to && self.accounts.get(to)->0.balance + amount > i64::MAX {
            Some(MeshError::BalanceOverflow)
        } else {
            None
        }
    }

    /// `amount` taken from `from`, then given to `to`, and the transfer entered
    /// in the ledger.
    pub open spec fn moved(self, from: Seq<char>, to: Seq<char>, amount: i64, stamp: StampView) -> StoreView {
        let payer = self.accounts.get(from)->0;
        let debited = self.accounts.put(
            from,
            AccountView { balance: (payer.balance - amount) as i64, ..payer },
        );
        let payee = debited.get(to)->0;
        StoreView {
            accounts: debited.put(to, AccountView { balance: (payee.balance + amount) as i64, ..payee }),
            ledger: self.ledger.push(
                next_entry(self.ledger, "transfer"@, Some(from), Some(to), amount, "{}"@, stamp.millis),
            ),
            ..self
        }
    }

    /// A transfer: refused for an amount that is not positive and for each
    /// reason of `transfer_refusal`, the store then staying as it is;
    /// otherwise the amount moves.
    pub open spec fn transfer(
        self,
        from: Seq<char>,
        to: Seq<char>,
        amount: i64,
        operator: Option<Seq<char>>,
        stamp: StampView,
    ) -> (StoreView, Result<(), MeshError>) {
        if amount <= 0 {
            (self, Err(MeshError::InvalidAmount))
        } else {
            match self.transfer_refusal(genesis_account_id(), from, to, amount, operator) {
                Some(e) => (self, Err(e)),
                None => (self.moved(from, to, amount, stamp), Ok(())),
            }
        }
    }

    /// Why an escrow is refused, if it is. A task that has an escrow gets no
    /// second one.
    pub open spec fn lock_refusal(self, task_id: Seq<char>, from: Seq<char>, amount: i64) -> Option<MeshError> {
        if amount <= 0 {
            Some(MeshError::InvalidEscrowAmount)
        } else if self.escrows.has(task_id) {
            Some(MeshError::EscrowExists)
        } else if !self.accounts.has(from) {
            Some(MeshError::AccountNotFound)
        } else if self.accounts.get(from)->0.balance < amount {
            Some(MeshError::InsufficientBalance)
        } else {
            None
        }
    }

    /// `amount` moved out of `from` into the escrow row of `task_id`.
    pub open spec fn locked(
        self,
        task_id: Seq<char>,
        from: Seq<char>,
        amount: i64,
        token: Seq<char>,
        stamp: StampView,
    ) -> StoreView {
        let payer = self.accounts.get(from)->0;
        StoreView {
            accounts: self.accounts.put(
                from,
                AccountView { balance: (payer.balance - amount) as i64, ..payer },
            ),
            escrows: self.escrows.put(
                task_id,
                EscrowView { task_id, from_account_id: from, amount, token, created_at: stamp.iso },
            ),
            ledger: self.ledger.push(
                next_entry(
                    self.ledger,
                    "escrow_locked"@,
                    Some(from),
                    None,
                    amount,
                    escrow_meta(task_id, token),
                    stamp.millis,
                ),
            ),
            ..self
        }
    }

    /// An escrow locked, or refused.
    pub open spec fn lock_escrow(
        self,
        task_id: Seq<char>,
        from: Seq<char>,
        amount: i64,
        token: Seq<char>,
        stamp: StampView,
    ) -> (StoreView, Result<(), MeshError>) {
        match self.lock_refusal(task_id, from, amount) {
            Some(e) => (self, Err(e)),
            None => (self.locked(task_id, from, amount, token, stamp), Ok(())),
        }
    }

    /// The escrow of `task_id` paid out to `winner`: nothing where there is no
    /// such escrow.
    pub open spec fn release_escrow(self, task_id: Seq<char>, winner: Seq<char>, stamp: StampView) -> (
        StoreView,
        Result<i64, MeshError>,
    ) {
        match self.escrows.get(task_id) {
            None => (self, Ok(0i64)),
            Some(escrow) => match self.accounts.get(winner) {
                None => (self, Err(MeshError::AccountNotFound)),
                Some(payee) => if payee.balance + escrow.amount > i64::MAX || payee.balance
                    + escrow.amount < i64::MIN {
                    (self, Err(MeshError::BalanceOverflow))
                } else {
                    (
                        StoreView {
                            accounts: self.accounts.put(
                                winner,
                                AccountView {
                                    balance: (payee.balance + escrow.amount) as i64,
                                    ..payee
                                },
                            ),
                            escrows: self.escrows.remove(task_id),
                            ledger: self.ledger.push(
                                next_entry(
                                    self.ledger,
                                    "escrow_released"@,
                                    None,
                                    Some(winner),
                                    escrow.amount,
                                    escrow_meta(task_id, escrow.token),
                                    stamp.millis,
                                ),
                            ),
                            ..self
                        },
                        Ok(escrow.amount),
                    )
                },
            },
        }
    }

    /// A capsule stored under the hash of its rendering and listed under each
    /// of its tokens; refused where the text is no JSON document.
    pub open spec fn store_capsule(self, capsule: Seq<char>) -> (StoreView, Result<Seq<char>, MeshError>) {
        match canonical_of(capsule) {
            None => (self, Err(MeshError::InvalidCapsule)),
            Some(doc) => {
                let asset_id = sha256_hex_of(doc);
                let tokens = capsule_tokens(doc);
                (
                    StoreView {
                        capsules: self.capsules.put(asset_id, doc),
                        capsule_index: indexed(self.capsule_index, tokens, asset_id, tokens.len() as int),
                        ..self
                    },
                    Ok(asset_id),
                )
            },
        }
    }

    /// The pairs of the index from nodes to accounts.
    pub open spec fn index_pairs(self) -> Seq<(Seq<char>, Seq<char>)> {
        Seq::new(
            self.account_index.keys.len(),
            |i: int| (self.account_index.keys[i], self.account_index.values[i]),
        )
    }

    /// The tokens of the index, each with the addresses listed under it.
    pub open spec fn posting_pairs(self) -> Seq<(Seq<char>, Seq<Seq<char>>)> {
        Seq::new(
            self.capsule_index.keys.len(),
            |i: int| (self.capsule_index.keys[i], self.capsule_index.values[i]),
        )
    }

    /// Everything but escrows and the index of tokens, capsules without their content.
    pub open spec fn snapshot(self) -> SnapshotView {
        SnapshotView {
            capsules: stripped(self.capsules, self.capsules.len() as int),
            accounts: self.accounts.values,
            account_index: self.index_pairs(),
            ledger: self.ledger,
        }
    }

    /// The balance of the account of `node_id`.
    pub open spec fn balance_of(self, node_id: Seq<char>) -> Result<i64, MeshError> {
        match self.account_of_node(node_id) {
            Some(a) => Ok(a.balance),
            None => Err(MeshError::AccountNotFound),
        }
    }
}

/// The store of one node.
pub struct Store {
    pub node_id: String,
    pub is_genesis_node: bool,
    pub genesis_operator_account_id: Option<String>,
    pub data_dir: String,
    genesis_supply: i64,
    accounts: Table<Account>,
    account_index: Table<String>,
    ledger: Vec<LedgerEntry>,
    capsules: Table<String>,
    capsule_index: Table<Vec<String>>,
    escrows: Table<Escrow>,
}

impl View for Store {
    type V = StoreView;

    closed spec fn view(&self) -> StoreView {
        StoreView {
            node_id: self.node_id@,
            is_genesis_node: self.is_genesis_node,
            genesis_operator: self.genesis_operator_account_id.deep_view(),
            data_dir: self.data_dir@,
            genesis_supply: self.genesis_supply,
            accounts: self.accounts@,
            account_index: self.account_index@,
            ledger: self.ledger.deep_view(),
            capsules: self.capsules@,
            capsule_index: self.capsule_index@,
            escrows: self.escrows@,
        }
    }
}

fn escrow_meta_text(task_id: &str, token: &str) -> (r: String)
    ensures
        r@ == escrow_meta(task_id@, token@),
{
    let mut members: Vec<(String, String)> = Vec::new();
    members.push(("taskId".to_string(), crate::json::string(task_id)));
    members.push(("token".to_string(), crate::json::string(token)));
    assert(member_views(members@) =~= seq![
        ("taskId"@, string_text(task_id@)),
        ("token"@, string_text(token@)),
    ]);
    crate::json::object(&members)
}

proof fn lemma_union_unique(old: Seq<Seq<char>>, new: Seq<Seq<char>>, n: int)
    requires
        old.no_duplicates(),
        0 <= n <= new.len(),
    ensures
        crate::text::union(old, new, n).no_duplicates(),
    decreases n,
{
    if n > 0 {
        lemma_union_unique(old, new, n - 1);
    }
}

fn accounts_from(rows: &Vec<Account>) -> (t: Table<Account>)
    ensures
        t@.wf(),
        keyed_by_id(t@),
        t@ == accounts_table(rows.deep_view(), rows.len() as int),
{
    let mut t: Table<Account> = Table::new();
    let mut i: usize = 0;
    while i < rows.len()
        invariant
            i <= rows.len(),
            t@.wf(),
            keyed_by_id(t@),
            t@ == accounts_table(rows.deep_view(), i as int),
        decreases rows.len() - i,
    {
        assert(rows.deep_view()[i as int] == rows[i as int]@);
        proof {
            lemma_account_written(t@, Rows::empty(), rows[i as int]@.account_id, rows[i as int]@);
        }
        t.put(rows[i].account_id.clone(), rows[i].clone());
        i += 1;
    }
    t
}

/// Whether every account that `index` names is among `accounts`.
fn index_is_sound(index: &Table<String>, accounts: &Table<Account>) -> (r: bool)
    requires
        index@.wf(),
        accounts@.wf(),
    ensures
        r == names_accounts(index@, accounts@),
{
    let mut i: usize = 0;
    while i < index.len()
        invariant
            i <= index@.len(),
            index@.wf(),
            accounts@.wf(),
            forall|j: int| 0 <= j < i ==> accounts@.has(#[trigger] index@.values[j]),
        decreases index@.len() - i,
    {
        if !accounts.contains_key(index.value_at(i).as_str()) {
            assert(!accounts@.has(index@.values[i as int]));
            return false;
        }
        i += 1;
    }
    true
}

fn escrows_from(rows: &Vec<Escrow>) -> (t: Table<Escrow>)
    ensures
        t@.wf(),
        t@ == escrows_table(rows.deep_view(), rows.len() as int),
{
    let mut t: Table<Escrow> = Table::new();
    let mut i: usize = 0;
    while i < rows.len()
        invariant
            i <= rows.len(),
            t@.wf(),
            t@ == escrows_table(rows.deep_view(), i as int),
        decreases rows.len() - i,
    {
        assert(rows.deep_view()[i as int] == rows[i as int]@);
        t.put(rows[i].task_id.clone(), rows[i].clone());
        i += 1;
    }
    t
}

fn pairs_from(rows: &Vec<(String, String)>) -> (t: Table<String>)
    ensures
        t@.wf(),
        t@ == pairs_table(member_views(rows@), rows.len() as int),
{
    let mut t: Table<String> = Table::new();
    let mut i: usize = 0;
    while i < rows.len()
        invariant
            i <= rows.len(),
            t@.wf(),
            t@ == pairs_table(member_views(rows@), i as int),
        decreases rows.len() - i,
    {
        t.put(rows[i].0.clone(), rows[i].1.clone());
        i += 1;
    }
    t
}

fn unique_strings(listed: &Vec<String>) -> (ids: Vec<String>)
    ensures
        ids.deep_view() == crate::text::union(Seq::empty(), listed.deep_view(), listed.len() as int),
        ids.deep_view().no_duplicates(),
{
    let mut ids: Vec<String> = Vec::new();
    assert(ids.deep_view() =~= Seq::<Seq<char>>::empty());
    let mut k: usize = 0;
    while k < listed.len()
        invariant
            k <= listed.len(),
            ids.deep_view() == crate::text::union(Seq::empty(), listed.deep_view(), k as int),
        decreases listed.len() - k,
    {
        assert(listed.deep_view()[k as int] == listed[k as int]@);
        if !crate::text::contains_text(&ids, listed[k].as_str()) {
            let ghost before = ids.deep_view();
            ids.push(listed[k].clone());
            assert(ids.deep_view() =~= before.push(listed[k as int]@));
        }
        k += 1;
    }
    proof {
        lemma_union_unique(Seq::empty(), listed.deep_view(), listed.len() as int);
    }
    ids
}

proof fn lemma_put_posting(index: Rows<Seq<Seq<char>>>, token: Seq<char>, ids: Seq<Seq<char>>)
    requires
        postings_wf(index),
        ids.no_duplicates(),
    ensures
        postings_wf(index.put(token, ids)),
{
    index.lemma_put(token, ids);
    let after = index.put(token, ids);
    assert forall|j: int| 0 <= j < after.values.len() implies (#[trigger] after.values[j]).no_duplicates() by {
        if index.has(token) {
            index.lemma_has(token);
            if j != index.place(token) {
                assert(after.values[j] == index.values[j]);
            }
        } else if j < index.values.len() {
            assert(after.values[j] == index.values[j]);
        }
    }
}

fn postings_from(rows: &Vec<(String, Vec<String>)>) -> (t: Table<Vec<String>>)
    ensures
        postings_wf(t@),
        t@ == postings_table(posting_views(rows@), rows.len() as int),
{
    let mut t: Table<Vec<String>> = Table::new();
    let mut i: usize = 0;
    while i < rows.len()
        invariant
            i <= rows.len(),
            postings_wf(t@),
            t@ == postings_table(posting_views(rows@), i as int),
        decreases rows.len() - i,
    {
        let ids = unique_strings(&rows[i].1);
        proof {
            lemma_put_posting(t@, rows[i as int].0@, ids.deep_view());
        }
        t.put(rows[i].0.clone(), ids);
        i += 1;
    }
    t
}

/// Every entry of `ledger` stands at its index, names the hash of the entry
/// before it and carries the hash of its own rendering.
fn ledger_is_chained(ledger: &Vec<LedgerEntry>) -> (r: bool)
    ensures
        r == chained(ledger.deep_view()),
{
    let mut i: usize = 0;
    while i < ledger.len()
        invariant
            i <= ledger.len(),
            chained(ledger.deep_view().take(i as int)),
        decreases ledger.len() - i,
    {
        let ghost all = ledger.deep_view();
        let entry = &ledger[i];
        assert(all[i as int] == entry@);
        let payload = crate::ledger::payload_text(
            entry.index,
            entry.prev_hash.as_str(),
            entry.timestamp,
            entry.entry_type.as_str(),
            &entry.from,
            &entry.to,
            entry.amount,
            entry.meta.as_str(),
        );
        let hash = sha256_hex(payload.as_str());
        let linked = if i == 0 {
            entry.prev_hash.as_str().is_empty()
        } else {
            assert(all[i - 1] == ledger[i - 1]@);
            assert(all.take(i as int).last() == all[i - 1]);
            str_eq(entry.prev_hash.as_str(), ledger[i - 1].hash.as_str())
        };
        proof {
            reveal_strlit("");
            if i == 0 {
                assert(all.take(0).len() == 0);
                assert(crate::ledger::head_hash(all.take(0)) =~= ""@);
                assert(entry@.prev_hash.len() == 0 <==> entry@.prev_hash =~= ""@);
            }
        }
        if entry.index != i as u64 || !linked || !str_eq(entry.hash.as_str(), hash.as_str()) {
            assert(!chained(all)) by {
                if chained(all) {
                    assert(all[i as int].index == i);
                }
            }
            return false;
        }
        assert(chained(all.take(i + 1))) by {
            let next = all.take(i + 1);
            assert forall|k: int| 0 <= k < next.len() implies {
                &&& (#[trigger] next[k]).index == k
                &&& next[k].prev_hash == crate::ledger::head_hash(next.take(k))
                &&& next[k].hash == crate::ledger::entry_hash(next[k])
            } by {
                assert(next.take(k) =~= all.take(k));
                if k < i {
                    assert(all.take(i as int)[k] == next[k]);
                    assert(all.take(i as int).take(k) =~= all.take(k));
                }
            }
        }
        i += 1;
    }
    assert(ledger.deep_view().take(i as int) =~= ledger.deep_view());
    true
}

impl Store {
    /// The store is well formed.
    pub open spec fn wf(&self) -> bool {
        self@.wf()
    }

    /// What a store holds that was put together from rows, before any
    /// genesis bootstrap.
    pub open spec fn filled(
        data_dir: Seq<char>,
        node_id: Seq<char>,
        genesis_operator: Option<Seq<char>>,
        genesis_supply: i64,
        accounts: Seq<AccountView>,
        account_index: Seq<(Seq<char>, Seq<char>)>,
        ledger: Seq<LedgerEntryView>,
        capsules: Seq<(Seq<char>, Seq<char>)>,
        capsule_index: Seq<(Seq<char>, Seq<Seq<char>>)>,
        escrows: Seq<EscrowView>,
    ) -> StoreView {
        StoreView {
            node_id,
            is_genesis_node: false,
            genesis_operator,
            data_dir,
            genesis_supply,
            accounts: accounts_table(accounts, accounts.len() as int),
            account_index: pairs_table(account_index, account_index.len() as int),
            ledger,
            capsules: pairs_table(capsules, capsules.len() as int),
            capsule_index: postings_table(capsule_index, capsule_index.len() as int),
            escrows: escrows_table(escrows, escrows.len() as int),
        }
    }

    /// Whether rows that were kept of a store can make a store again: the
    /// ledger is chained, and the index names only accounts among the rows.
    pub open spec fn restorable(
        accounts: Seq<AccountView>,
        account_index: Seq<(Seq<char>, Seq<char>)>,
        ledger: Seq<LedgerEntryView>,
    ) -> bool {
        &&& chained(ledger)
        &&& names_accounts(
            pairs_table(account_index, account_index.len() as int),
            accounts_table(accounts, accounts.len() as int),
        )
    }

    /// Puts a store together from the rows that were kept of it. A ledger
    /// that is not chained is refused, and so is an index that names an
    /// account that is not among the rows. Of rows with the same key the last
    /// counts. On a genesis node the genesis bootstrap runs at `stamp`.
    pub fn restore(
        data_dir: String,
        node_id: String,
        is_genesis_node: bool,
        genesis_operator_account_id: Option<String>,
        genesis_supply: i64,
        accounts: Vec<Account>,
        account_index: Vec<(String, String)>,
        ledger: Vec<LedgerEntry>,
        capsules: Vec<(String, String)>,
        capsule_index: Vec<(String, Vec<String>)>,
        escrows: Vec<Escrow>,
        stamp: &Stamp,
    ) -> (r: Result<Store, MeshError>)
        ensures
            r is Ok <==> Self::restorable(
                accounts.deep_view(),
                member_views(account_index@),
                ledger.deep_view(),
            ),
            r is Err ==> r == Err::<Store, MeshError>(MeshError::StoreConflict),
            r is Ok ==> r->Ok_0.wf() && r->Ok_0@ == Self::filled(
                data_dir@,
                node_id@,
                genesis_operator_account_id.deep_view(),
                genesis_supply,
                accounts.deep_view(),
                member_views(account_index@),
                ledger.deep_view(),
                member_views(capsules@),
                posting_views(capsule_index@),
                escrows.deep_view(),
            ).with_genesis(is_genesis_node, stamp@),
    {
        if !ledger_is_chained(&ledger) {
            return Err(MeshError::StoreConflict);
        }
        let held = accounts_from(&accounts);
        let index = pairs_from(&account_index);
        if !index_is_sound(&index, &held) {
            return Err(MeshError::StoreConflict);
        }
        let mut store = Store {
            node_id,
            is_genesis_node,
            genesis_operator_account_id,
            data_dir,
            genesis_supply,
            accounts: held,
            account_index: index,
            ledger,
            capsules: pairs_from(&capsules),
            capsule_index: postings_from(&capsule_index),
            escrows: escrows_from(&escrows),
        };
        if is_genesis_node {
            let _ = store.ensure_genesis_account(stamp);
        }
        Ok(store)
    }

    /// A store with empty tables, not yet bootstrapped.
    fn empty(
        data_dir: String,
        node_id: String,
        is_genesis_node: bool,
        genesis_operator_account_id: Option<String>,
        genesis_supply: i64,
    ) -> (s: Store)
        ensures
            s.wf(),
            s@ == (StoreView {
                node_id: node_id@,
                is_genesis_node,
                genesis_operator: genesis_operator_account_id.deep_view(),
                data_dir: data_dir@,
                genesis_supply,
                accounts: Rows::empty(),
                account_index: Rows::empty(),
                ledger: Seq::empty(),
                capsules: Rows::empty(),
                capsule_index: Rows::empty(),
                escrows: Rows::empty(),
            }),
    {
        let s = Store {
            node_id,
            is_genesis_node,
            genesis_operator_account_id,
            data_dir,
            genesis_supply,
            accounts: Table::new(),
            account_index: Table::new(),
            ledger: Vec::new(),
            capsules: Table::new(),
            capsule_index: Table::new(),
            escrows: Table::new(),
        };
        assert(s.ledger.deep_view() =~= Seq::empty());
        s
    }

    /// The genesis bootstrap at `stamp`.
    fn ensure_genesis_account(&mut self, stamp: &Stamp) -> (r: Result<Account, MeshError>)
        requires
            old(self).wf(),
        ensures
            final(self).wf(),
            (final(self)@, account_result(r)) == old(self)@.bootstrap(stamp@),
    {
        match self.get_account_id_by_node("node_genesis") {
            Ok(Some(account_id)) => {
                return self.get_account(account_id.as_str());
            },
            _ => {},
        }
        let account = Account {
            account_id: "acct_genesis".to_string(),
            node_id: "node_genesis".to_string(),
            algorithm: "genesis".to_string(),
            seed_hash: sha256_hex("genesis"),
            created_at: stamp.iso.clone(),
            imported_at: None,
            balance: 0,
        };
        proof {
            lemma_account_written(self@.accounts, self@.account_index, "acct_genesis"@, account@);
        }
        self.accounts.put("acct_genesis".to_string(), account.clone());
        proof {
            lemma_index_written(self@.accounts, self@.account_index, "node_genesis"@, "acct_genesis"@);
        }
        self.account_index.put("node_genesis".to_string(), "acct_genesis".to_string());
        if self.ledger.len() == 0 {
            let supply = self.genesis_supply;
            let to = Some("acct_genesis".to_string());
            let mut entry = append_entry(&mut self.ledger, "mint", &None, &to, supply, "{}", stamp.millis);
            entry.account_id = Some("acct_genesis".to_string());
            assert(self.ledger@.len() == self.ledger.deep_view().len());
            let last = self.ledger.len() - 1;
            let ghost before = self.ledger.deep_view();
            self.ledger[last] = entry;
            assert(self.ledger.deep_view() =~= old(self)@.ledger.push(entry@));
            proof {
                let unmarked = before[last as int];
                assert(crate::ledger::entry_hash(entry@) == crate::ledger::entry_hash(unmarked));
                assert forall|i: int| 0 <= i < self.ledger.deep_view().len() implies {
                    &&& (#[trigger] self.ledger.deep_view()[i]).index == i
                    &&& self.ledger.deep_view()[i].prev_hash == crate::ledger::head_hash(
                        self.ledger.deep_view().take(i),
                    )
                    &&& self.ledger.deep_view()[i].hash == crate::ledger::entry_hash(
                        self.ledger.deep_view()[i],
                    )
                } by {
                    assert(self.ledger.deep_view().take(i) =~= before.take(i));
                    assert(before[i].index == i);
                }
            }
            let mut funded = account;
            funded.balance = supply;
            proof {
                lemma_account_written(self@.accounts, self@.account_index, "acct_genesis"@, funded@);
            }
            self.accounts.put("acct_genesis".to_string(), funded.clone());
            Ok(funded)
        } else {
            Ok(account)
        }
    }

    /// Opens an empty store. On a genesis node the genesis bootstrap runs,
    /// minting the default supply.
    pub fn open(
        data_dir: String,
        node_id: String,
        is_genesis_node: bool,
        genesis_operator_account_id: Option<String>,
    ) -> (r: Result<Store, MeshError>)
        ensures
            r is Ok,
            r->Ok_0.wf(),
            exists|stamp: StampView|
                r->Ok_0@ == #[trigger] Self::opened(
                    data_dir@,
                    node_id@,
                    is_genesis_node,
                    genesis_operator_account_id.deep_view(),
                    DEFAULT_GENESIS_SUPPLY,
                    stamp,
                ),
    {
        let stamp = Stamp::now();
        let store = Self::open_at(
            data_dir,
            node_id,
            is_genesis_node,
            genesis_operator_account_id,
            DEFAULT_GENESIS_SUPPLY,
            &stamp,
        );
        Ok(store)
    }

    /// What a store holds when it has been opened at `stamp`.
    pub open spec fn opened(
        data_dir: Seq<char>,
        node_id: Seq<char>,
        is_genesis_node: bool,
        genesis_operator: Option<Seq<char>>,
        genesis_supply: i64,
        stamp: StampView,
    ) -> StoreView {
        let blank = StoreView {
            node_id,
            is_genesis_node,
            genesis_operator,
            data_dir,
            genesis_supply,
            accounts: Rows::empty(),
            account_index: Rows::empty(),
            ledger: Seq::empty(),
            capsules: Rows::empty(),
            capsule_index: Rows::empty(),
            escrows: Rows::empty(),
        };
        if is_genesis_node {
            blank.bootstrap(stamp).0
        } else {
            blank
        }
    }

    /// Opens an empty store at `stamp`, with the supply that a genesis
    /// bootstrap mints.
    pub fn open_at(
        data_dir: String,
        node_id: String,
        is_genesis_node: bool,
        genesis_operator_account_id: Option<String>,
        genesis_supply: i64,
        stamp: &Stamp,
    ) -> (s: Store)
        ensures
            s.wf(),
            s@ == Self::opened(
                data_dir@,
                node_id@,
                is_genesis_node,
                genesis_operator_account_id.deep_view(),
                genesis_supply,
                stamp@,
            ),
    {
        let mut store = Self::empty(
            data_dir,
            node_id,
            is_genesis_node,
            genesis_operator_account_id,
            genesis_supply,
        );
        if is_genesis_node {
            let _ = store.ensure_genesis_account(stamp);
        }
        store
    }

    /// The account of `node_id`; a new one, with a drawn identifier, where
    /// the index does not know the node.
    pub fn ensure_account(&mut self, node_id: &str, algorithm: &str) -> (r: Result<Account, MeshError>)
        requires
            old(self).wf(),
        ensures
            final(self).wf(),
            exists|account_id: Seq<char>, stamp: StampView|
                is_drawn_account_id(account_id) && (final(self)@, account_result(r))
                    == #[trigger] old(self)@.ensure_account(node_id@, algorithm@, account_id, stamp),
    {
        let suffix = random_hex(8);
        let account_id = concat("acct_", suffix.as_str());
        let stamp = Stamp::now();
        proof {
            reveal_strlit("acct_");
            assert(account_id@.subrange(0, 5) =~= "acct_"@);
            assert forall|i: int| 5 <= i < 21 implies is_lower_hex(#[trigger] account_id@[i]) by {
                assert(account_id@[i] == suffix@[i - 5]);
            }
        }
        self.ensure_account_with(node_id, algorithm, account_id, &stamp)
    }

    /// The account of `node_id`; a new one under `account_id`, created at
    /// `stamp`, where the index does not know the node.
    pub fn ensure_account_with(
        &mut self,
        node_id: &str,
        algorithm: &str,
        account_id: String,
        stamp: &Stamp,
    ) -> (r: Result<Account, MeshError>)
        requires
            old(self).wf(),
        ensures
            final(self).wf(),
            (final(self)@, account_result(r)) == old(self)@.ensure_account(
                node_id@,
                algorithm@,
                account_id@,
                stamp@,
            ),
    {
        match self.account_index.get(node_id) {
            Some(id) => {
                return self.get_account(id.as_str());
            },
            None => {},
        }
        if self.accounts.contains_key(account_id.as_str()) {
            return Err(MeshError::StoreConflict);
        }
        let seed = concat(concat(node_id, ":").as_str(), account_id.as_str());
        let account = Account {
            account_id: account_id.clone(),
            node_id: node_id.to_string(),
            algorithm: algorithm.to_string(),
            seed_hash: sha256_hex(seed.as_str()),
            created_at: stamp.iso.clone(),
            imported_at: None,
            balance: 0,
        };
        proof {
            lemma_account_written(self@.accounts, self@.account_index, account_id@, account@);
        }
        self.accounts.put(account_id.clone(), account.clone());
        proof {
            lemma_index_written(self@.accounts, self@.account_index, node_id@, account_id@);
        }
        self.account_index.put(node_id.to_string(), account_id);
        Ok(account)
    }

    /// The account of `node_id`, made first where there is none.
    pub fn export_account(&mut self, node_id: &str) -> (r: Result<Account, MeshError>)
        requires
            old(self).wf(),
        ensures
            final(self).wf(),
            exists|account_id: Seq<char>, stamp: StampView|
                is_drawn_account_id(account_id) && (final(self)@, account_result(r))
                    == #[trigger] old(self)@.ensure_account(
                    node_id@,
                    "gep-lite-v1"@,
                    account_id,
                    stamp,
                ),
    {
        self.ensure_account(node_id, "gep-lite-v1")
    }

    /// Writes `payload` as the account of `node_id`, over what was there.
    pub fn import_account(&mut self, node_id: &str, payload: &Account) -> (r: Result<Account, MeshError>)
        requires
            old(self).wf(),
        ensures
            final(self).wf(),
            r is Ok,
            exists|stamp: StampView|
                (final(self)@, r->Ok_0@) == #[trigger] old(self)@.import_account(
                    node_id@,
                    payload@,
                    stamp,
                ),
    {
        let stamp = Stamp::now();
        Ok(self.import_account_at(node_id, payload, &stamp))
    }

    /// Writes `payload` as the account of `node_id`, imported at `stamp`.
    pub fn import_account_at(&mut self, node_id: &str, payload: &Account, stamp: &Stamp) -> (imported: Account)
        requires
            old(self).wf(),
        ensures
            final(self).wf(),
            (final(self)@, imported@) == old(self)@.import_account(node_id@, payload@, stamp@),
    {
        let mut imported = payload.clone();
        imported.node_id = node_id.to_string();
        imported.imported_at = Some(stamp.iso.clone());
        proof {
            lemma_account_written(self@.accounts, self@.account_index, imported@.account_id, imported@);
        }
        self.accounts.put(imported.account_id.clone(), imported.clone());
        proof {
            lemma_index_written(self@.accounts, self@.account_index, node_id@, imported@.account_id);
        }
        self.account_index.put(node_id.to_string(), imported.account_id.clone());
        imported
    }

    /// Moves `amount` from one account to another. Nothing is minted and no
    /// account is made; a transfer that is refused leaves the store as it was.
    pub fn transfer(
        &mut self,
        from_account_id: &str,
        to_account_id: &str,
        amount: i64,
        operator_account_id: Option<String>,
    ) -> (r: Result<(), MeshError>)
        requires
            old(self).wf(),
        ensures
            final(self).wf(),
            exists|stamp: StampView|
                (final(self)@, r) == #[trigger] old(self)@.transfer(
                    from_account_id@,
                    to_account_id@,
                    amount,
                    operator_account_id.deep_view(),
                    stamp,
                ),
    {
        let stamp = Stamp::now();
        self.transfer_at(from_account_id, to_account_id, amount, operator_account_id, &stamp)
    }

    /// Moves `amount` from one account to another, at `stamp`.
    pub fn transfer_at(
        &mut self,
        from_account_id: &str,
        to_account_id: &str,
        amount: i64,
        operator_account_id: Option<String>,
        stamp: &Stamp,
    ) -> (r: Result<(), MeshError>)
        requires
            old(self).wf(),
        ensures
            final(self).wf(),
            (final(self)@, r) == old(self)@.transfer(
                from_account_id@,
                to_account_id@,
                amount,
                operator_account_id.deep_view(),
                stamp@,
            ),
    {
        if amount <= 0 {
            return Err(MeshError::InvalidAmount);
        }
        if str_eq(from_account_id, "acct_genesis") {
            if self.genesis_operator_account_id.is_none() {
                return Err(MeshError::OperatorNotConfigured);
            }
            if !opt_eq(&self.genesis_operator_account_id, &operator_account_id) {
                return Err(MeshError::OperatorNotAuthorized);
            }
        }
        let mut payer = match self.get_account(from_account_id) {
            Ok(a) => a,
            Err(e) => {
                return Err(e);
            },
        };
        let payee = match self.get_account(to_account_id) {
            Ok(a) => a,
            Err(e) => {
                return Err(e);
            },
        };
        if payer.balance < amount {
            return Err(MeshError::InsufficientBalance);
        }
        let same = str_eq(from_account_id, to_account_id);
        if !same && payee.balance > i64::MAX - amount {
            return Err(MeshError::BalanceOverflow);
        }
        let ghost ready = self@;
        proof {
            ready.accounts.lemma_put(
                from_account_id@,
                AccountView { balance: (payer.balance - amount) as i64, ..payer@ },
            );
        }
        payer.balance = payer.balance - amount;
        self.accounts.put(from_account_id.to_string(), payer);
        let mut payee = match self.get_account(to_account_id) {
            Ok(a) => a,
            Err(e) => {
                return Err(e);
            },
        };
        payee.balance = payee.balance + amount;
        self.accounts.put(to_account_id.to_string(), payee);
        let from = Some(from_account_id.to_string());
        let to = Some(to_account_id.to_string());
        let _ = append_entry(&mut self.ledger, "transfer", &from, &to, amount, "{}", stamp.millis);
        Ok(())
    }

    /// Moves `amount` out of an account into the escrow of `task_id`. A task
    /// that has an escrow gets no second one.
    pub fn lock_escrow(&mut self, task_id: &str, from_account_id: &str, amount: i64, token: &str) -> (r:
        Result<(), MeshError>)
        requires
            old(self).wf(),
        ensures
            final(self).wf(),
            exists|stamp: StampView|
                (final(self)@, r) == #[trigger] old(self)@.lock_escrow(
                    task_id@,
                    from_account_id@,
                    amount,
                    token@,
                    stamp,
                ),
    {
        let stamp = Stamp::now();
        self.lock_escrow_at(task_id, from_account_id, amount, token, &stamp)
    }

    /// Moves `amount` out of an account into the escrow of `task_id`, at `stamp`.
    pub fn lock_escrow_at(
        &mut self,
        task_id: &str,
        from_account_id: &str,
        amount: i64,
        token: &str,
        stamp: &Stamp,
    ) -> (r: Result<(), MeshError>)
        requires
            old(self).wf(),
        ensures
            final(self).wf(),
            (final(self)@, r) == old(self)@.lock_escrow(
                task_id@,
                from_account_id@,
                amount,
                token@,
                stamp@,
            ),
    {
        if amount <= 0 {
            return Err(MeshError::InvalidEscrowAmount);
        }
        if self.escrows.contains_key(task_id) {
            return Err(MeshError::EscrowExists);
        }
        let mut payer = match self.get_account(from_account_id) {
            Ok(a) => a,
            Err(e) => {
                return Err(e);
            },
        };
        if payer.balance < amount {
            return Err(MeshError::InsufficientBalance);
        }
        payer.balance = payer.balance - amount;
        self.accounts.put(from_account_id.to_string(), payer);
        let escrow = Escrow {
            task_id: task_id.to_string(),
            from_account_id: from_account_id.to_string(),
            amount,
            token: token.to_string(),
            created_at: stamp.iso.clone(),
        };
        self.escrows.put(task_id.to_string(), escrow);
        let from = Some(from_account_id.to_string());
        let meta = escrow_meta_text(task_id, token);
        let _ = append_entry(
            &mut self.ledger,
            "escrow_locked",
            &from,
            &None,
            amount,
            meta.as_str(),
            stamp.millis,
        );
        Ok(())
    }

    /// Pays the escrow of `task_id` out to an account and removes it.
    pub fn release_escrow(&mut self, task_id: &str, winner_account_id: &str) -> (r: Result<i64, MeshError>)
        requires
            old(self).wf(),
        ensures
            final(self).wf(),
            exists|stamp: StampView|
                (final(self)@, r) == #[trigger] old(self)@.release_escrow(
                    task_id@,
                    winner_account_id@,
                    stamp,
                ),
    {
        let stamp = Stamp::now();
        self.release_escrow_at(task_id, winner_account_id, &stamp)
    }

    /// Pays the escrow of `task_id` out to an account, at `stamp`.
    pub fn release_escrow_at(&mut self, task_id: &str, winner_account_id: &str, stamp: &Stamp) -> (r:
        Result<i64, MeshError>)
        requires
            old(self).wf(),
        ensures
            final(self).wf(),
            (final(self)@, r) == old(self)@.release_escrow(task_id@, winner_account_id@, stamp@),
    {
        let escrow = match self.escrows.get(task_id) {
            Some(e) => e.clone(),
            None => {
                return Ok(0);
            },
        };
        let mut payee = match self.get_account(winner_account_id) {
            Ok(a) => a,
            Err(e) => {
                return Err(e);
            },
        };
        let credited = match payee.balance.checked_add(escrow.amount) {
            Some(b) => b,
            None => {
                return Err(MeshError::BalanceOverflow);
            },
        };
        payee.balance = credited;
        self.accounts.put(winner_account_id.to_string(), payee);
        let _ = self.escrows.remove(task_id);
        let to = Some(winner_account_id.to_string());
        let meta = escrow_meta_text(task_id, escrow.token.as_str());
        let _ = append_entry(
            &mut self.ledger,
            "escrow_released",
            &None,
            &to,
            escrow.amount,
            meta.as_str(),
            stamp.millis,
        );
        Ok(escrow.amount)
    }

    /// The balance of the account of `node_id`.
    pub fn get_balance(&self, node_id: &str) -> (r: Result<i64, MeshError>)
        requires
            self.wf(),
        ensures
            r == self@.balance_of(node_id@),
    {
        let account_id = match self.account_index.get(node_id) {
            Some(id) => id,
            None => {
                return Err(MeshError::AccountNotFound);
            },
        };
        match self.accounts.get(account_id.as_str()) {
            Some(a) => Ok(a.balance),
            None => Err(MeshError::AccountNotFound),
        }
    }

    /// Stores a capsule, given as the text of a JSON document, and hands back
    /// its address.
    pub fn store_capsule(&mut self, capsule: &str) -> (r: Result<String, MeshError>)
        requires
            old(self).wf(),
        ensures
            final(self).wf(),
            (final(self)@, text_result(r)) == old(self)@.store_capsule(capsule@),
    {
        let doc = match crate::json::canonical(capsule) {
            Some(d) => d,
            None => {
                return Err(MeshError::InvalidCapsule);
            },
        };
        let asset_id = sha256_hex(doc.as_str());
        let tokens = tokens_for(doc.as_str());
        self.capsules.put(asset_id.clone(), doc);
        index_capsule(&mut self.capsule_index, asset_id.as_str(), &tokens);
        Ok(asset_id)
    }

    /// The capsule stored at `asset_id`, if there is one.
    pub fn get_capsule(&self, asset_id: &str) -> (r: Result<Option<String>, MeshError>)
        requires
            self.wf(),
        ensures
            r is Ok,
            r->Ok_0.deep_view() == self@.capsules.get(asset_id@),
    {
        match self.capsules.get(asset_id) {
            Some(c) => Ok(Some(c.clone())),
            None => Ok(None),
        }
    }

    /// The stored capsules that pass `filter`.
    pub fn query_capsules(&self, filter: CapsuleFilter) -> (r: Result<Vec<CapsuleSnapshot>, MeshError>)
        requires
            self.wf(),
        ensures
            r is Ok,
            r->Ok_0.deep_view() == query_result(self@.capsules, self@.capsule_index, filter@),
    {
        Ok(query(&self.capsules, &self.capsule_index, &filter))
    }

    /// Everything but escrows and the index of tokens; capsules come without
    /// their content, the ledger in the order of its indices.
    pub fn get_snapshot(&self) -> (r: Result<Snapshot, MeshError>)
        requires
            self.wf(),
        ensures
            r is Ok,
            r->Ok_0@ == self@.snapshot(),
    {
        let capsules = strip_all(&self.capsules);
        let accounts = self.list_accounts_now();
        let account_index = self.list_index_now();
        let ledger = self.list_ledger_now();
        Ok(Snapshot { capsules, accounts, account_index, ledger })
    }

    fn list_accounts_now(&self) -> (r: Vec<Account>)
        requires
            self.wf(),
        ensures
            r.deep_view() == self@.accounts.values,
    {
        let rows = self.accounts.values();
        let mut out: Vec<Account> = Vec::new();
        let mut i: usize = 0;
        while i < rows.len()
            invariant
                i <= rows.len(),
                out.deep_view() == rows.deep_view().take(i as int),
            decreases rows.len() - i,
        {
            let ghost before = out.deep_view();
            let row = rows[i].clone();
            out.push(row);
            assert(out.deep_view() =~= before.push(row@));
            assert(rows.deep_view().take(i + 1) =~= before.push(rows[i as int]@));
            i += 1;
        }
        assert(rows.deep_view().take(i as int) =~= rows.deep_view());
        out
    }

    fn list_index_now(&self) -> (r: Vec<(String, String)>)
        requires
            self.wf(),
        ensures
            member_views(r@) == self@.index_pairs(),
    {
        let n = self.account_index.len();
        let mut out: Vec<(String, String)> = Vec::new();
        let mut i: usize = 0;
        while i < n
            invariant
                i <= n,
                n == self@.account_index.len(),
                self.wf(),
                member_views(out@) == self@.index_pairs().take(i as int),
            decreases n - i,
        {
            let ghost before = member_views(out@);
            let pair = (self.account_index.key_at(i).clone(), self.account_index.value_at(i).clone());
            out.push(pair);
            assert(member_views(out@) =~= before.push((pair.0@, pair.1@)));
            assert(self@.index_pairs().take(i + 1) =~= before.push((pair.0@, pair.1@)));
            i += 1;
        }
        assert(self@.index_pairs().take(i as int) =~= self@.index_pairs());
        out
    }

    fn list_ledger_now(&self) -> (r: Vec<LedgerEntry>)
        requires
            self.wf(),
        ensures
            r.deep_view() == self@.ledger,
    {
        let mut out: Vec<LedgerEntry> = Vec::new();
        let mut i: usize = 0;
        while i < self.ledger.len()
            invariant
                i <= self.ledger.len(),
                out.deep_view() == self.ledger.deep_view().take(i as int),
            decreases self.ledger.len() - i,
        {
            let ghost before = out.deep_view();
            let row = self.ledger[i].clone();
            out.push(row);
            assert(out.deep_view() =~= before.push(row@));
            assert(self.ledger.deep_view().take(i + 1) =~= before.push(self.ledger[i as int]@));
            i += 1;
        }
        assert(self.ledger.deep_view().take(i as int) =~= self.ledger.deep_view());
        out
    }

    /// Every account, in the order in which they were first written.
    pub fn list_accounts(&self) -> (r: Result<Vec<Account>, MeshError>)
        requires
            self.wf(),
        ensures
            r is Ok,
            r->Ok_0.deep_view() == self@.accounts.values,
    {
        Ok(self.list_accounts_now())
    }

    /// Every escrow that is held.
    pub fn list_escrows(&self) -> (r: Result<Vec<Escrow>, MeshError>)
        requires
            self.wf(),
        ensures
            r is Ok,
            r->Ok_0.deep_view() == self@.escrows.values,
    {
        let rows = self.escrows.values();
        let mut out: Vec<Escrow> = Vec::new();
        let mut i: usize = 0;
        while i < rows.len()
            invariant
                i <= rows.len(),
                out.deep_view() == rows.deep_view().take(i as int),
            decreases rows.len() - i,
        {
            let ghost before = out.deep_view();
            let row = rows[i].clone();
            out.push(row);
            assert(out.deep_view() =~= before.push(row@));
            assert(rows.deep_view().take(i + 1) =~= before.push(rows[i as int]@));
            i += 1;
        }
        assert(rows.deep_view().take(i as int) =~= rows.deep_view());
        Ok(out)
    }

    /// Every pair of a node and its account.
    pub fn list_account_index(&self) -> (r: Result<Vec<(String, String)>, MeshError>)
        requires
            self.wf(),
        ensures
            r is Ok,
            member_views(r->Ok_0@) == self@.index_pairs(),
    {
        Ok(self.list_index_now())
    }

    /// The ledger, in the order of its indices.
    pub fn list_ledger(&self) -> (r: Result<Vec<LedgerEntry>, MeshError>)
        requires
            self.wf(),
        ensures
            r is Ok,
            r->Ok_0.deep_view() == self@.ledger,
    {
        Ok(self.list_ledger_now())
    }

    /// Every token of the index with the addresses listed under it.
    pub fn list_capsule_index(&self) -> (r: Vec<(String, Vec<String>)>)
        requires
            self.wf(),
        ensures
            posting_views(r@) == self@.posting_pairs(),
    {
        let n = self.capsule_index.len();
        let mut out: Vec<(String, Vec<String>)> = Vec::new();
        let mut i: usize = 0;
        while i < n
            invariant
                i <= n,
                n == self@.capsule_index.len(),
                self.wf(),
                posting_views(out@) == self@.posting_pairs().take(i as int),
            decreases n - i,
        {
            let ghost before = posting_views(out@);
            let listed = clone_strings(self.capsule_index.value_at(i));
            let pair = (self.capsule_index.key_at(i).clone(), listed);
            out.push(pair);
            assert(posting_views(out@) =~= before.push((pair.0@, pair.1.deep_view())));
            assert(self@.posting_pairs().take(i + 1) =~= before.push((pair.0@, pair.1.deep_view())));
            i += 1;
        }
        assert(self@.posting_pairs().take(i as int) =~= self@.posting_pairs());
        out
    }

    /// How many capsules are stored.
    pub fn get_count(&self) -> (n: usize)
        requires
            self.wf(),
        ensures
            n == self@.capsules.len(),
    {
        self.capsules.len()
    }

    /// The identifier of the account of `node_id`, if the index knows the node.
    pub fn get_account_id_by_node(&self, node_id: &str) -> (r: Result<Option<String>, MeshError>)
        requires
            self.wf(),
        ensures
            r is Ok,
            r->Ok_0.deep_view() == self@.account_index.get(node_id@),
    {
        match self.account_index.get(node_id) {
            Some(id) => Ok(Some(id.clone())),
            None => Ok(None),
        }
    }

    fn get_account(&self, account_id: &str) -> (r: Result<Account, MeshError>)
        requires
            self.wf(),
        ensures
            match self@.accounts.get(account_id@) {
                Some(a) => account_result(r) == Ok::<AccountView, MeshError>(a),
                None => r == Err::<Account, MeshError>(MeshError::AccountNotFound),
            },
    {
        match self.accounts.get(account_id) {
            Some(a) => Ok(a.clone()),
            None => Err(MeshError::AccountNotFound),
        }
    }
}


/// At any time each entry of the ledger names the hash of the entry before
/// it (the first names the empty text) and carries the SHA-256 digest of its
/// own rendering without the hash.
pub proof fn ledger_is_linked(s: StoreView, i: int)
    requires
        s.wf(),
        0 <= i < s.ledger.len(),
    ensures
        s.ledger[i].index == i,
        i > 0 ==> s.ledger[i].prev_hash == s.ledger[i - 1].hash,
        i == 0 ==> s.ledger[i].prev_hash == ""@,
        s.ledger[i].hash == crate::ledger::entry_hash(s.ledger[i]),
{
    crate::ledger::ledger_links(s.ledger, i);
}

/// Storing a capsule a second time gives the same address and leaves the
/// store as the first time left it; no posting list holds an address twice.
pub proof fn store_capsule_is_idempotent(s: StoreView, capsule: Seq<char>)
    requires
        s.wf(),
    ensures
        s.store_capsule(capsule).0.wf(),
        s.store_capsule(capsule).0.store_capsule(capsule) == s.store_capsule(capsule),
{
    match canonical_of(capsule) {
        None => {},
        Some(doc) => {
            let asset_id = sha256_hex_of(doc);
            let tokens = capsule_tokens(doc);
            let once = s.store_capsule(capsule).0;
            s.capsules.lemma_put(asset_id, doc);
            crate::capsule::lemma_indexed(s.capsule_index, tokens, asset_id, tokens.len() as int);
            crate::capsule::lemma_indexed_again(once.capsule_index, tokens, asset_id, tokens.len() as int);
            once.capsules.lemma_has(asset_id);
            assert(once.capsules.put(asset_id, doc).values =~= once.capsules.values);
        },
    }
}

/// An account that was exported and then imported for another node keeps
/// its identifier, and is the account of that node from then on.
pub proof fn import_keeps_exported_id(
    s: StoreView,
    node_id: Seq<char>,
    account_id: Seq<char>,
    exported_at: StampView,
    other_node: Seq<char>,
    imported_at: StampView,
)
    requires
        s.wf(),
        s.ensure_account(node_id, "gep-lite-v1"@, account_id, exported_at).1 is Ok,
    ensures
        ({
            let (after_export, exported) = s.ensure_account(node_id, "gep-lite-v1"@, account_id, exported_at);
            let (after_import, imported) = after_export.import_account(
                other_node,
                exported->Ok_0,
                imported_at,
            );
            &&& imported.account_id == exported->Ok_0.account_id
            &&& after_import.account_of_node(other_node) == Some(imported)
        }),
{
    let (after_export, exported) = s.ensure_account(node_id, "gep-lite-v1"@, account_id, exported_at);
    if s.account_index.get(node_id) is None {
        let account = crate::store::fresh_account(node_id, "gep-lite-v1"@, account_id, exported_at.iso);
        s.accounts.lemma_put(account_id, account);
        s.account_index.lemma_put(node_id, account_id);
    }
    let a = exported->Ok_0;
    let imported = AccountView { node_id: other_node, imported_at: Some(imported_at.iso), ..a };
    after_export.accounts.lemma_put(a.account_id, imported);
    after_export.account_index.lemma_put(other_node, a.account_id);
}

} // verus!
