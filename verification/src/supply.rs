//! Conservation of money: whatever the store is asked to do, what the
//! accounts and the escrows hold together is what the ledger says was minted.

use vstd::prelude::*;
use crate::error::MeshError;
use crate::ledger::{minted, next_entry};
use crate::records::{AccountView, EscrowView, LedgerEntryView, StampView};
use crate::store::{genesis_account_id, genesis_node, is_drawn_account_id, Store, StoreView};
use crate::table::Rows;

verus! {

/// The sum of the balances of `accounts`.
pub open spec fn total_balance(accounts: Seq<AccountView>) -> int
    decreases accounts.len(),
{
    if accounts.len() == 0 {
        0
    } else {
        total_balance(accounts.drop_last()) + accounts.last().balance
    }
}

/// The sum of the amounts of `escrows`.
pub open spec fn total_escrow(escrows: Seq<EscrowView>) -> int
    decreases escrows.len(),
{
    if escrows.len() == 0 {
        0
    } else {
        total_escrow(escrows.drop_last()) + escrows.last().amount
    }
}

/// What the accounts and the escrows of a store hold together.
pub open spec fn circulating(s: StoreView) -> int {
    total_balance(s.accounts.values) + total_escrow(s.escrows.values)
}

/// The books balance: the tables of accounts and escrows are well formed,
/// the genesis account is there only if the index knows the genesis node,
/// and what circulates is what was minted.
pub open spec fn balanced(s: StoreView) -> bool {
    &&& s.accounts.wf()
    &&& s.account_index.wf()
    &&& s.escrows.wf()
    &&& s.accounts.has(genesis_account_id()) ==> s.account_index.has(genesis_node())
    &&& circulating(s) == minted(s.ledger)
}

/// One request to the store.
pub enum StoreOp {
    Bootstrap { stamp: StampView },
    EnsureAccount { node_id: Seq<char>, algorithm: Seq<char>, account_id: Seq<char>, stamp: StampView },
    Transfer {
        from: Seq<char>,
        to: Seq<char>,
        amount: i64,
        operator: Option<Seq<char>>,
        stamp: StampView,
    },
    LockEscrow { task_id: Seq<char>, from: Seq<char>, amount: i64, token: Seq<char>, stamp: StampView },
    ReleaseEscrow { task_id: Seq<char>, winner: Seq<char>, stamp: StampView },
    StoreCapsule { capsule: Seq<char> },
}

/// The store after one request, granted or refused.
pub open spec fn apply(s: StoreView, op: StoreOp) -> StoreView {
    match op {
        StoreOp::Bootstrap { stamp } => s.bootstrap(stamp).0,
        StoreOp::EnsureAccount { node_id, algorithm, account_id, stamp } => s.ensure_account(
            node_id,
            algorithm,
            account_id,
            stamp,
        ).0,
        StoreOp::Transfer { from, to, amount, operator, stamp } => s.transfer(
            from,
            to,
            amount,
            operator,
            stamp,
        ).0,
        StoreOp::LockEscrow { task_id, from, amount, token, stamp } => s.lock_escrow(
            task_id,
            from,
            amount,
            token,
            stamp,
        ).0,
        StoreOp::ReleaseEscrow { task_id, winner, stamp } => s.release_escrow(task_id, winner, stamp).0,
        StoreOp::StoreCapsule { capsule } => s.store_capsule(capsule).0,
    }
}

/// The requests of which conservation is claimed: an account is made under
/// a drawn identifier.
pub open spec fn admissible(s: StoreView, op: StoreOp) -> bool {
    match op {
        StoreOp::EnsureAccount { account_id, .. } => is_drawn_account_id(account_id),
        _ => true,
    }
}

/// The store after the first `n` of `ops`.
pub open spec fn run(s: StoreView, ops: Seq<StoreOp>, n: int) -> StoreView
    decreases n,
{
    if n <= 0 {
        s
    } else {
        apply(run(s, ops, n - 1), ops[n - 1])
    }
}

/// Each of `ops` is admissible in the state in which it arrives.
pub open spec fn all_admissible(s: StoreView, ops: Seq<StoreOp>) -> bool {
    forall|i: int| 0 <= i < ops.len() ==> admissible(#[trigger] run(s, ops, i), ops[i])
}

proof fn lemma_total_balance_update(accounts: Seq<AccountView>, i: int, a: AccountView)
    requires
        0 <= i < accounts.len(),
    ensures
        total_balance(accounts.update(i, a)) == total_balance(accounts) - accounts[i].balance + a.balance,
    decreases accounts.len(),
{
    let after = accounts.update(i, a);
    if i == accounts.len() - 1 {
        assert(after.drop_last() =~= accounts.drop_last());
    } else {
        assert(after.drop_last() =~= accounts.drop_last().update(i, a));
        lemma_total_balance_update(accounts.drop_last(), i, a);
    }
}

proof fn lemma_total_balance_push(accounts: Seq<AccountView>, a: AccountView)
    ensures
        total_balance(accounts.push(a)) == total_balance(accounts) + a.balance,
{
    assert(accounts.push(a).drop_last() =~= accounts);
}

proof fn lemma_total_escrow_push(escrows: Seq<EscrowView>, e: EscrowView)
    ensures
        total_escrow(escrows.push(e)) == total_escrow(escrows) + e.amount,
{
    assert(escrows.push(e).drop_last() =~= escrows);
}

proof fn lemma_total_escrow_remove(escrows: Seq<EscrowView>, i: int)
    requires
        0 <= i < escrows.len(),
    ensures
        total_escrow(escrows.remove(i)) == total_escrow(escrows) - escrows[i].amount,
    decreases escrows.len(),
{
    let after = escrows.remove(i);
    if i == escrows.len() - 1 {
        assert(after =~= escrows.drop_last());
    } else {
        assert(after.drop_last() =~= escrows.drop_last().remove(i));
        assert(after.last() == escrows.last());
        lemma_total_escrow_remove(escrows.drop_last(), i);
    }
}

/// What `put` does to the sum of the balances.
proof fn lemma_put_balance(rows: Rows<AccountView>, key: Seq<char>, a: AccountView)
    requires
        rows.wf(),
    ensures
        rows.put(key, a).wf(),
        total_balance(rows.put(key, a).values) == total_balance(rows.values) + a.balance - (match rows.get(
            key,
        ) {
            Some(old) => old.balance as int,
            None => 0,
        }),
{
    rows.lemma_put(key, a);
    if rows.has(key) {
        rows.lemma_has(key);
        lemma_total_balance_update(rows.values, rows.place(key), a);
    } else {
        lemma_total_balance_push(rows.values, a);
    }
}

proof fn lemma_minted_push(ledger: Seq<LedgerEntryView>, e: LedgerEntryView)
    ensures
        minted(ledger.push(e)) == minted(ledger) + if e.entry_type == "mint"@ {
            e.amount as int
        } else {
            0
        },
{
    assert(ledger.push(e).drop_last() =~= ledger);
}

proof fn lemma_entry_types()
    ensures
        "transfer"@ != "mint"@,
        "escrow_locked"@ != "mint"@,
        "escrow_released"@ != "mint"@,
        "acct_genesis"@.len() == 12,
{
    reveal_strlit("transfer");
    reveal_strlit("escrow_locked");
    reveal_strlit("escrow_released");
    reveal_strlit("mint");
    reveal_strlit("acct_genesis");
    assert("mint"@.len() == 4);
    assert("transfer"@.len() == 8);
    assert("escrow_locked"@.len() == 13);
    assert("escrow_released"@.len() == 15);
}

/// The genesis bootstrap keeps the books balanced.
pub proof fn bootstrap_keeps_balance(s: StoreView, stamp: StampView)
    requires
        balanced(s),
    ensures
        balanced(s.bootstrap(stamp).0),
{
    lemma_entry_types();
    if s.account_index.get(genesis_node()) is None {
        let account = crate::store::genesis_account(stamp.iso);
        lemma_put_balance(s.accounts, genesis_account_id(), account);
        s.account_index.lemma_put(genesis_node(), genesis_account_id());
        let written = s.accounts.put(genesis_account_id(), account);
        if s.ledger.len() == 0 {
            let funded = AccountView { balance: s.genesis_supply, ..account };
            lemma_put_balance(written, genesis_account_id(), funded);
            let entry = LedgerEntryView {
                account_id: Some(genesis_account_id()),
                ..next_entry(
                    s.ledger,
                    "mint"@,
                    None,
                    Some(genesis_account_id()),
                    s.genesis_supply,
                    "{}"@,
                    stamp.millis,
                )
            };
            lemma_minted_push(s.ledger, entry);
            written.lemma_put(genesis_account_id(), funded);
        }
    }
}

/// One admissible request keeps the books balanced.
pub proof fn request_keeps_balance(s: StoreView, op: StoreOp)
    requires
        balanced(s),
        admissible(s, op),
    ensures
        balanced(apply(s, op)),
{
    lemma_entry_types();
    match op {
        StoreOp::Bootstrap { stamp } => {
            bootstrap_keeps_balance(s, stamp);
        },
        StoreOp::EnsureAccount { node_id, algorithm, account_id, stamp } => {
            if s.account_index.get(node_id) is None && !s.accounts.has(account_id) {
                let account = crate::store::fresh_account(node_id, algorithm, account_id, stamp.iso);
                lemma_put_balance(s.accounts, account_id, account);
                s.accounts.lemma_put(account_id, account);
                s.account_index.lemma_put(node_id, account_id);
            }
        },
        StoreOp::Transfer { from, to, amount, operator, stamp } => {
            if amount > 0 && s.transfer_refusal(genesis_account_id(), from, to, amount, operator) is None {
                let payer = s.accounts.get(from)->0;
                let debit = AccountView { balance: (payer.balance - amount) as i64, ..payer };
                lemma_put_balance(s.accounts, from, debit);
                s.accounts.lemma_put(from, debit);
                let debited = s.accounts.put(from, debit);
                let payee = debited.get(to)->0;
                let credit = AccountView { balance: (payee.balance + amount) as i64, ..payee };
                lemma_put_balance(debited, to, credit);
                debited.lemma_put(to, credit);
                lemma_minted_push(
                    s.ledger,
                    next_entry(s.ledger, "transfer"@, Some(from), Some(to), amount, "{}"@, stamp.millis),
                );
            }
        },
        StoreOp::LockEscrow { task_id, from, amount, token, stamp } => {
            if s.lock_refusal(task_id, from, amount) is None {
                let payer = s.accounts.get(from)->0;
                let debit = AccountView { balance: (payer.balance - amount) as i64, ..payer };
                lemma_put_balance(s.accounts, from, debit);
                s.accounts.lemma_put(from, debit);
                let escrow = EscrowView {
                    task_id,
                    from_account_id: from,
                    amount,
                    token,
                    created_at: stamp.iso,
                };
                s.escrows.lemma_put(task_id, escrow);
                lemma_total_escrow_push(s.escrows.values, escrow);
                lemma_minted_push(
                    s.ledger,
                    next_entry(
                        s.ledger,
                        "escrow_locked"@,
                        Some(from),
                        None,
                        amount,
                        crate::store::escrow_meta(task_id, token),
                        stamp.millis,
                    ),
                );
            }
        },
        StoreOp::ReleaseEscrow { task_id, winner, stamp } => {
            if s.escrows.get(task_id) is Some && s.accounts.get(winner) is Some {
                let escrow = s.escrows.get(task_id)->0;
                let payee = s.accounts.get(winner)->0;
                if !(payee.balance + escrow.amount > i64::MAX || payee.balance + escrow.amount < i64::MIN) {
                    let credit = AccountView { balance: (payee.balance + escrow.amount) as i64, ..payee };
                    lemma_put_balance(s.accounts, winner, credit);
                    s.accounts.lemma_put(winner, credit);
                    s.escrows.lemma_remove(task_id);
                    s.escrows.lemma_has(task_id);
                    lemma_total_escrow_remove(s.escrows.values, s.escrows.place(task_id));
                    lemma_minted_push(
                        s.ledger,
                        next_entry(
                            s.ledger,
                            "escrow_released"@,
                            None,
                            Some(winner),
                            escrow.amount,
                            crate::store::escrow_meta(task_id, escrow.token),
                            stamp.millis,
                        ),
                    );
                }
            }
        },
        StoreOp::StoreCapsule { capsule } => {},
    }
}

/// A transfer that is refused leaves the store as it was: no account is
/// made, nothing is minted, the ledger does not grow.
pub proof fn refused_transfer_changes_nothing(
    s: StoreView,
    from: Seq<char>,
    to: Seq<char>,
    amount: i64,
    operator: Option<Seq<char>>,
    stamp: StampView,
)
    ensures
        s.transfer(from, to, amount, operator, stamp).1 is Err ==> s.transfer(
            from,
            to,
            amount,
            operator,
            stamp,
        ).0 == s,
        amount <= 0 ==> s.transfer(from, to, amount, operator, stamp).1 == Err::<(), MeshError>(
            MeshError::InvalidAmount,
        ),
{
}

/// A transfer of a positive amount between two accounts, the payer holding
/// enough and the payee having room for it, out of the genesis account only
/// in the operator's name, is granted: the payer has the amount less, the
/// payee the amount more, every other account and every escrow is as it was,
/// and so is what circulates.
pub proof fn transfer_moves_the_amount(
    s: StoreView,
    from: Seq<char>,
    to: Seq<char>,
    amount: i64,
    operator: Option<Seq<char>>,
    stamp: StampView,
)
    requires
        s.accounts.wf(),
        from != to,
        s.accounts.has(from),
        s.accounts.has(to),
        amount > 0,
        s.accounts.get(from)->0.balance >= amount,
        s.accounts.get(to)->0.balance + amount <= i64::MAX,
        from == genesis_account_id() ==> s.genesis_operator is Some && s.genesis_operator == operator,
    ensures
        ({
            let (after, r) = s.transfer(from, to, amount, operator, stamp);
            &&& r is Ok
            &&& after.accounts.get(from)->0.balance == s.accounts.get(from)->0.balance - amount
            &&& after.accounts.get(to)->0.balance == s.accounts.get(to)->0.balance + amount
            &&& forall|id: Seq<char>|
                id != from && id != to ==> #[trigger] after.accounts.get(id) == s.accounts.get(id)
            &&& after.escrows == s.escrows
            &&& circulating(after) == circulating(s)
        }),
{
    let payer = s.accounts.get(from)->0;
    let debit = AccountView { balance: (payer.balance - amount) as i64, ..payer };
    lemma_put_balance(s.accounts, from, debit);
    s.accounts.lemma_put(from, debit);
    let debited = s.accounts.put(from, debit);
    let payee = debited.get(to)->0;
    let credit = AccountView { balance: (payee.balance + amount) as i64, ..payee };
    lemma_put_balance(debited, to, credit);
    debited.lemma_put(to, credit);
}

/// A transfer of an account to itself, where it is granted, leaves the
/// balance as it was, and what circulates too.
pub proof fn transfer_to_oneself_keeps_the_balance(
    s: StoreView,
    account: Seq<char>,
    amount: i64,
    operator: Option<Seq<char>>,
    stamp: StampView,
)
    requires
        s.accounts.wf(),
        s.accounts.has(account),
        amount > 0,
        s.accounts.get(account)->0.balance >= amount,
        account == genesis_account_id() ==> s.genesis_operator is Some && s.genesis_operator == operator,
    ensures
        ({
            let (after, r) = s.transfer(account, account, amount, operator, stamp);
            &&& r is Ok
            &&& after.accounts == s.accounts
            &&& after.escrows == s.escrows
            &&& circulating(after) == circulating(s)
        }),
{
    let payer = s.accounts.get(account)->0;
    let debit = AccountView { balance: (payer.balance - amount) as i64, ..payer };
    s.accounts.lemma_put(account, debit);
    s.accounts.lemma_has(account);
    let debited = s.accounts.put(account, debit);
    let credit = AccountView { balance: (debit.balance + amount) as i64, ..debit };
    assert(credit == payer);
    assert(debited.put(account, credit).values =~= s.accounts.values);
}

/// An escrow is locked only for a task that has none, and whether it is
/// locked or refused, what circulates stays as it was. Refused, the store
/// is unchanged; locked, the payer has the amount less and the task has its
/// one row, which holds the amount.
pub proof fn lock_escrow_keeps_the_total(
    s: StoreView,
    task_id: Seq<char>,
    from: Seq<char>,
    amount: i64,
    token: Seq<char>,
    stamp: StampView,
)
    requires
        s.accounts.wf(),
        s.escrows.wf(),
    ensures
        ({
            let (after, r) = s.lock_escrow(task_id, from, amount, token, stamp);
            &&& circulating(after) == circulating(s)
            &&& after.escrows.wf()
            &&& r is Err ==> after == s
            &&& s.escrows.has(task_id) ==> r is Err
            &&& r is Ok ==> {
                &&& after.accounts.get(from)->0.balance == s.accounts.get(from)->0.balance - amount
                &&& after.escrows.get(task_id) == Some(
                    EscrowView { task_id, from_account_id: from, amount, token, created_at: stamp.iso },
                )
                &&& forall|id: Seq<char>| id != from ==> #[trigger] after.accounts.get(id) == s.accounts.get(id)
                &&& forall|other: Seq<char>|
                    other != task_id ==> #[trigger] after.escrows.get(other) == s.escrows.get(other)
            }
        }),
{
    if s.lock_refusal(task_id, from, amount) is None {
        let payer = s.accounts.get(from)->0;
        let debit = AccountView { balance: (payer.balance - amount) as i64, ..payer };
        lemma_put_balance(s.accounts, from, debit);
        s.accounts.lemma_put(from, debit);
        let escrow = EscrowView { task_id, from_account_id: from, amount, token, created_at: stamp.iso };
        s.escrows.lemma_put(task_id, escrow);
        lemma_total_escrow_push(s.escrows.values, escrow);
    }
}

/// The escrow of a task, paid out to an account that has room for it: the
/// amount of the row is handed back, the payee has it more, the row is gone,
/// every other account and every other escrow is as it was, and so is what
/// circulates.
pub proof fn release_escrow_pays_out(s: StoreView, task_id: Seq<char>, winner: Seq<char>, stamp: StampView)
    requires
        s.accounts.wf(),
        s.escrows.wf(),
        s.escrows.has(task_id),
        s.accounts.has(winner),
        i64::MIN <= s.accounts.get(winner)->0.balance + s.escrows.get(task_id)->0.amount <= i64::MAX,
    ensures
        ({
            let (after, r) = s.release_escrow(task_id, winner, stamp);
            let held = s.escrows.get(task_id)->0.amount;
            &&& r == Ok::<i64, MeshError>(held)
            &&& after.accounts.get(winner)->0.balance == s.accounts.get(winner)->0.balance + held
            &&& !after.escrows.has(task_id)
            &&& forall|id: Seq<char>| id != winner ==> #[trigger] after.accounts.get(id) == s.accounts.get(id)
            &&& forall|other: Seq<char>|
                other != task_id ==> #[trigger] after.escrows.get(other) == s.escrows.get(other)
            &&& circulating(after) == circulating(s)
        }),
{
    let escrow = s.escrows.get(task_id)->0;
    let payee = s.accounts.get(winner)->0;
    let credit = AccountView { balance: (payee.balance + escrow.amount) as i64, ..payee };
    lemma_put_balance(s.accounts, winner, credit);
    s.accounts.lemma_put(winner, credit);
    s.escrows.lemma_remove(task_id);
    s.escrows.lemma_has(task_id);
    lemma_total_escrow_remove(s.escrows.values, s.escrows.place(task_id));
}

/// Where a task has no escrow, a release pays nothing and changes nothing.
pub proof fn release_without_escrow_is_nothing(
    s: StoreView,
    task_id: Seq<char>,
    winner: Seq<char>,
    stamp: StampView,
)
    requires
        !s.escrows.has(task_id),
    ensures
        s.release_escrow(task_id, winner, stamp) == (s, Ok::<i64, MeshError>(0i64)),
{
}

/// A store that has just been opened has balanced books.
pub proof fn opening_is_balanced(
    data_dir: Seq<char>,
    node_id: Seq<char>,
    is_genesis_node: bool,
    genesis_operator: Option<Seq<char>>,
    genesis_supply: i64,
    stamp: StampView,
)
    ensures
        balanced(
            Store::opened(data_dir, node_id, is_genesis_node, genesis_operator, genesis_supply, stamp),
        ),
{
    let blank = StoreView {
        node_id,
        is_genesis_node,
        genesis_operator,
        data_dir,
        genesis_supply,
        accounts: Rows::empty(),
        account_index: Rows::empty(),
        ledger: Seq::empty(),
        capsules: Rows::empty(),
        capsule_index: Rows::empty(),
        escrows: Rows::empty(),
    };
    assert(balanced(blank));
    if is_genesis_node {
        bootstrap_keeps_balance(blank, stamp);
    }
}

/// Through any run of admissible requests, granted or refused, the sum of
/// all balances and all escrows stays equal to the supply that was minted.
pub proof fn supply_is_conserved(s: StoreView, ops: Seq<StoreOp>, n: int)
    requires
        balanced(s),
        all_admissible(s, ops),
        0 <= n <= ops.len(),
    ensures
        balanced(run(s, ops, n)),
        circulating(run(s, ops, n)) == minted(run(s, ops, n).ledger),
    decreases n,
{
    if n > 0 {
        supply_is_conserved(s, ops, n - 1);
        request_keeps_balance(run(s, ops, n - 1), ops[n - 1]);
    }
}

/// No account owes anything, and every escrow holds something.
pub open spec fn solvent(s: StoreView) -> bool {
    &&& forall|i: int| 0 <= i < s.accounts.values.len() ==> (#[trigger] s.accounts.values[i]).balance >= 0
    &&& forall|i: int| 0 <= i < s.escrows.values.len() ==> (#[trigger] s.escrows.values[i]).amount > 0
}

proof fn lemma_put_solvent(rows: Rows<AccountView>, key: Seq<char>, a: AccountView)
    requires
        rows.wf(),
        a.balance >= 0,
        forall|i: int| 0 <= i < rows.values.len() ==> (#[trigger] rows.values[i]).balance >= 0,
    ensures
        forall|i: int|
            0 <= i < rows.put(key, a).values.len() ==> (#[trigger] rows.put(key, a).values[i]).balance >= 0,
        rows.has(key) ==> rows.get(key)->0.balance >= 0,
{
    if rows.has(key) {
        rows.lemma_has(key);
    }
    let after = rows.put(key, a);
    assert forall|i: int| 0 <= i < after.values.len() implies (#[trigger] after.values[i]).balance >= 0 by {
        if rows.has(key) {
            if i != rows.place(key) {
                assert(after.values[i] == rows.values[i]);
            }
        } else if i < rows.values.len() {
            assert(after.values[i] == rows.values[i]);
        }
    }
}

proof fn lemma_held_is_solvent(rows: Rows<AccountView>, key: Seq<char>)
    requires
        rows.has(key),
        rows.keys.len() == rows.values.len(),
        forall|i: int| 0 <= i < rows.values.len() ==> (#[trigger] rows.values[i]).balance >= 0,
    ensures
        rows.get(key)->0.balance >= 0,
{
    rows.lemma_has(key);
}

proof fn lemma_bootstrap_solvent(s: StoreView, stamp: StampView)
    requires
        balanced(s),
        solvent(s),
        s.genesis_supply >= 0,
    ensures
        solvent(s.bootstrap(stamp).0),
        s.bootstrap(stamp).0.genesis_supply == s.genesis_supply,
{
    if s.account_index.get(genesis_node()) is None {
        let account = crate::store::genesis_account(stamp.iso);
        lemma_put_solvent(s.accounts, genesis_account_id(), account);
        s.accounts.lemma_put(genesis_account_id(), account);
        let written = s.accounts.put(genesis_account_id(), account);
        if s.ledger.len() == 0 {
            let funded = AccountView { balance: s.genesis_supply, ..account };
            lemma_put_solvent(written, genesis_account_id(), funded);
        }
    }
}

/// One admissible request leaves no account in debt and no escrow empty,
/// where the supply that a bootstrap mints is not negative.
pub proof fn request_keeps_solvency(s: StoreView, op: StoreOp)
    requires
        balanced(s),
        solvent(s),
        s.genesis_supply >= 0,
        admissible(s, op),
    ensures
        solvent(apply(s, op)),
        apply(s, op).genesis_supply == s.genesis_supply,
{
    match op {
        StoreOp::Bootstrap { stamp } => {
            lemma_bootstrap_solvent(s, stamp);
        },
        StoreOp::EnsureAccount { node_id, algorithm, account_id, stamp } => {
            if s.account_index.get(node_id) is None && !s.accounts.has(account_id) {
                let account = crate::store::fresh_account(node_id, algorithm, account_id, stamp.iso);
                lemma_put_solvent(s.accounts, account_id, account);
            }
        },
        StoreOp::Transfer { from, to, amount, operator, stamp } => {
            if amount > 0 && s.transfer_refusal(genesis_account_id(), from, to, amount, operator) is None {
                let payer = s.accounts.get(from)->0;
                let debit = AccountView { balance: (payer.balance - amount) as i64, ..payer };
                lemma_put_solvent(s.accounts, from, debit);
                s.accounts.lemma_put(from, debit);
                let debited = s.accounts.put(from, debit);
                let payee = debited.get(to)->0;
                lemma_held_is_solvent(debited, to);
                let credit = AccountView { balance: (payee.balance + amount) as i64, ..payee };
                lemma_put_solvent(debited, to, credit);
            }
        },
        StoreOp::LockEscrow { task_id, from, amount, token, stamp } => {
            if s.lock_refusal(task_id, from, amount) is None {
                let payer = s.accounts.get(from)->0;
                let debit = AccountView { balance: (payer.balance - amount) as i64, ..payer };
                lemma_put_solvent(s.accounts, from, debit);
                let escrow = EscrowView {
                    task_id,
                    from_account_id: from,
                    amount,
                    token,
                    created_at: stamp.iso,
                };
                let after = s.escrows.put(task_id, escrow);
                assert forall|i: int| 0 <= i < after.values.len() implies (#[trigger] after.values[i]).amount
                    > 0 by {
                    if i < s.escrows.values.len() {
                        assert(after.values[i] == s.escrows.values[i]);
                    }
                }
            }
        },
        StoreOp::ReleaseEscrow { task_id, winner, stamp } => {
            if s.escrows.get(task_id) is Some && s.accounts.get(winner) is Some {
                let escrow = s.escrows.get(task_id)->0;
                let payee = s.accounts.get(winner)->0;
                s.escrows.lemma_has(task_id);
                lemma_held_is_solvent(s.accounts, winner);
                if !(payee.balance + escrow.amount > i64::MAX || payee.balance + escrow.amount < i64::MIN) {
                    let credit = AccountView { balance: (payee.balance + escrow.amount) as i64, ..payee };
                    lemma_put_solvent(s.accounts, winner, credit);
                    let place = s.escrows.place(task_id);
                    let after = s.escrows.remove(task_id);
                    assert forall|i: int| 0 <= i < after.values.len() implies (
                    #[trigger] after.values[i]).amount > 0 by {
                        if i < place {
                            assert(after.values[i] == s.escrows.values[i]);
                        } else {
                            assert(after.values[i] == s.escrows.values[i + 1]);
                        }
                    }
                }
            }
        },
        StoreOp::StoreCapsule { capsule } => {},
    }
}

/// Through any run of admissible requests on a store whose supply is not
/// negative, every balance stays at zero or above and every escrow holds a
/// positive amount.
pub proof fn balances_stay_non_negative(s: StoreView, ops: Seq<StoreOp>, n: int)
    requires
        balanced(s),
        solvent(s),
        s.genesis_supply >= 0,
        all_admissible(s, ops),
        0 <= n <= ops.len(),
    ensures
        solvent(run(s, ops, n)),
        run(s, ops, n).genesis_supply == s.genesis_supply,
    decreases n,
{
    if n > 0 {
        balances_stay_non_negative(s, ops, n - 1);
        supply_is_conserved(s, ops, n - 1);
        request_keeps_solvency(run(s, ops, n - 1), ops[n - 1]);
    }
}

} // verus!
