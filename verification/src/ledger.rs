//! The ledger: an append-only list of entries, each holding the hash of the
//! one before it and the hash of its own canonical rendering.

use vstd::prelude::*;
use crate::json::{member_views, object_text, optional_string_text, string_text};
use crate::records::{LedgerEntry, LedgerEntryView};
use crate::util::{sha256_hex_of, sha256_hex};
use crate::text::{clone_opt, decimal};

verus! {

/// The canonical rendering of an entry without its hash: a JSON object of
/// eight members.
pub open spec fn entry_payload(
    index: u64,
    prev_hash: Seq<char>,
    timestamp: i64,
    entry_type: Seq<char>,
    from: Option<Seq<char>>,
    to: Option<Seq<char>>,
    amount: i64,
    meta: Seq<char>,
) -> Seq<char> {
    object_text(
        seq![
            ("index"@, decimal(index as int)),
            ("prev_hash"@, string_text(prev_hash)),
            ("timestamp"@, decimal(timestamp as int)),
            ("entry_type"@, string_text(entry_type)),
            ("from"@, optional_string_text(from)),
            ("to"@, optional_string_text(to)),
            ("amount"@, decimal(amount as int)),
            ("meta"@, meta),
        ],
    )
}

/// The hash that an entry must carry.
pub open spec fn entry_hash(e: LedgerEntryView) -> Seq<char> {
    sha256_hex_of(
        entry_payload(e.index, e.prev_hash, e.timestamp, e.entry_type, e.from, e.to, e.amount, e.meta),
    )
}

/// The hash of the last entry; the empty text for an empty ledger.
pub open spec fn head_hash(ledger: Seq<LedgerEntryView>) -> Seq<char> {
    if ledger.len() == 0 {
        ""@
    } else {
        ledger.last().hash
    }
}

/// Every entry stands at its index, names the hash of the entry before it
/// and carries the hash of its own rendering.
pub open spec fn chained(ledger: Seq<LedgerEntryView>) -> bool {
    forall|i: int|
        0 <= i < ledger.len() ==> {
            &&& (#[trigger] ledger[i]).index == i
            &&& ledger[i].prev_hash == head_hash(ledger.take(i))
            &&& ledger[i].hash == entry_hash(ledger[i])
        }
}

/// The entry that comes next on `ledger`.
pub open spec fn next_entry(
    ledger: Seq<LedgerEntryView>,
    entry_type: Seq<char>,
    from: Option<Seq<char>>,
    to: Option<Seq<char>>,
    amount: i64,
    meta: Seq<char>,
    timestamp: i64,
) -> LedgerEntryView {
    let index = ledger.len() as u64;
    let prev_hash = head_hash(ledger);
    LedgerEntryView {
        index,
        prev_hash,
        hash: sha256_hex_of(
            entry_payload(index, prev_hash, timestamp, entry_type, from, to, amount, meta),
        ),
        timestamp,
        entry_type,
        account_id: None,
        node_id: None,
        from,
        to,
        amount,
        meta,
    }
}

/// The sum of what the `mint` entries of `ledger` brought into being.
pub open spec fn minted(ledger: Seq<LedgerEntryView>) -> int
    decreases ledger.len(),
{
    if ledger.len() == 0 {
        0
    } else {
        minted(ledger.drop_last()) + if ledger.last().entry_type == "mint"@ {
            ledger.last().amount as int
        } else {
            0
        }
    }
}

/// Appending the next entry keeps the chain.
pub proof fn lemma_append_chained(ledger: Seq<LedgerEntryView>, e: LedgerEntryView)
    requires
        chained(ledger),
        ledger.len() <= u64::MAX,
        e.index == ledger.len(),
        e.prev_hash == head_hash(ledger),
        e.hash == entry_hash(e),
    ensures
        chained(ledger.push(e)),
{
    let after = ledger.push(e);
    assert forall|i: int| 0 <= i < after.len() implies {
        &&& (#[trigger] after[i]).index == i
        &&& after[i].prev_hash == head_hash(after.take(i))
        &&& after[i].hash == entry_hash(after[i])
    } by {
        if i < ledger.len() {
            assert(after.take(i) =~= ledger.take(i));
            assert(after[i] == ledger[i]);
        } else {
            assert(after.take(i) =~= ledger);
        }
    }
}

/// In a chained ledger each entry names the hash of the entry before it,
/// the first names the empty text, and each carries the hash of its own
/// rendering without the hash.
pub proof fn ledger_links(ledger: Seq<LedgerEntryView>, i: int)
    requires
        chained(ledger),
        0 <= i < ledger.len(),
    ensures
        ledger[i].index == i,
        i > 0 ==> ledger[i].prev_hash == ledger[i - 1].hash,
        i == 0 ==> ledger[i].prev_hash == ""@,
        ledger[i].hash == entry_hash(ledger[i]),
{
    if i > 0 {
        assert(ledger.take(i).last() == ledger[i - 1]);
    }
}

/// The canonical rendering of an entry without its hash.
pub fn payload_text(
    index: u64,
    prev_hash: &str,
    timestamp: i64,
    entry_type: &str,
    from: &Option<String>,
    to: &Option<String>,
    amount: i64,
    meta: &str,
) -> (r: String)
    ensures
        r@ == entry_payload(
            index,
            prev_hash@,
            timestamp,
            entry_type@,
            from.deep_view(),
            to.deep_view(),
            amount,
            meta@,
        ),
{
    let mut members: Vec<(String, String)> = Vec::new();
    members.push(("index".to_string(), crate::text::decimal_text(index as i128)));
    members.push(("prev_hash".to_string(), crate::json::string(prev_hash)));
    members.push(("timestamp".to_string(), crate::text::decimal_text(timestamp as i128)));
    members.push(("entry_type".to_string(), crate::json::string(entry_type)));
    members.push(("from".to_string(), crate::json::optional_string(from)));
    members.push(("to".to_string(), crate::json::optional_string(to)));
    members.push(("amount".to_string(), crate::text::decimal_text(amount as i128)));
    members.push(("meta".to_string(), meta.to_string()));
    assert(member_views(members@) =~= seq![
        ("index"@, decimal(index as int)),
        ("prev_hash"@, string_text(prev_hash@)),
        ("timestamp"@, decimal(timestamp as int)),
        ("entry_type"@, string_text(entry_type@)),
        ("from"@, optional_string_text(from.deep_view())),
        ("to"@, optional_string_text(to.deep_view())),
        ("amount"@, decimal(amount as int)),
        ("meta"@, meta@),
    ]);
    crate::json::object(&members)
}

/// Appends the next entry to `ledger` and hands a copy of it back. Its hash
/// is sixty-four lower-case hexadecimal digits.
pub fn append_entry(
    ledger: &mut Vec<LedgerEntry>,
    entry_type: &str,
    from: &Option<String>,
    to: &Option<String>,
    amount: i64,
    meta: &str,
    timestamp: i64,
) -> (entry: LedgerEntry)
    requires
        chained(old(ledger).deep_view()),
    ensures
        entry@ == next_entry(
            old(ledger).deep_view(),
            entry_type@,
            from.deep_view(),
            to.deep_view(),
            amount,
            meta@,
            timestamp,
        ),
        final(ledger).deep_view() == old(ledger).deep_view().push(entry@),
        chained(final(ledger).deep_view()),
        entry@.hash.len() == 64,
        forall|i: int| 0 <= i < 64 ==> crate::util::is_lower_hex(#[trigger] entry@.hash[i]),
{
    let index = ledger.len() as u64;
    let prev_hash = if ledger.len() == 0 {
        "".to_string()
    } else {
        ledger[ledger.len() - 1].hash.clone()
    };
    let payload = payload_text(index, prev_hash.as_str(), timestamp, entry_type, from, to, amount, meta);
    let hash = sha256_hex(payload.as_str());
    let entry = LedgerEntry {
        index,
        prev_hash,
        hash,
        timestamp,
        entry_type: entry_type.to_string(),
        account_id: None,
        node_id: None,
        from: clone_opt(from),
        to: clone_opt(to),
        amount,
        meta: meta.to_string(),
    };
    let copy = entry.clone();
    proof {
        lemma_append_chained(ledger.deep_view(), entry@);
    }
    ledger.push(entry);
    assert(ledger.deep_view() =~= old(ledger).deep_view().push(copy@));
    copy
}

} // verus!
