//! What the node says of its ledger, in an answer's body and in its headers.
use crate::http::{header_count, header_values, is_header_name, law_set_header_is_read, pair_views,
    set_headers, visible_text, with_headers, ROOM_FOR_NAMES};
use crate::json::JsonView;
use crate::session_wrapper::SessionView;
use crate::text::{decimal, decimal_text, lemma_decimal_digits};
use crate::transaction::SignedTransaction;
use axum::http::HeaderMap;
use vstd::prelude::*;

verus! {

/// The state of the ledger.
#[derive(Debug, PartialEq, Eq)]
pub struct LedgerInfoResponse {
    pub chain_id: u64,
    pub epoch: String,
    pub ledger_version: String,
    pub oldest_ledger_version: String,
    pub ledger_timestamp: String,
    pub node_role: String,
    pub oldest_block_height: String,
    pub block_height: String,
}

/// The mathematical counterpart of [`LedgerInfoResponse`].
pub struct LedgerView {
    pub chain_id: u64,
    pub epoch: Seq<char>,
    pub ledger_version: Seq<char>,
    pub oldest_ledger_version: Seq<char>,
    pub ledger_timestamp: Seq<char>,
    pub node_role: Seq<char>,
    pub oldest_block_height: Seq<char>,
    pub block_height: Seq<char>,
}

impl View for LedgerInfoResponse {
    type V = LedgerView;

    open spec fn view(&self) -> LedgerView {
        LedgerView {
            chain_id: self.chain_id,
            epoch: self.epoch@,
            ledger_version: self.ledger_version@,
            oldest_ledger_version: self.oldest_ledger_version@,
            ledger_timestamp: self.ledger_timestamp@,
            node_role: self.node_role@,
            oldest_block_height: self.oldest_block_height@,
            block_height: self.block_height@,
        }
    }
}

/// The state of the ledger of a session: each operation is a block and a
/// version, and the time is the clock's, in as many microseconds as 64 bits
/// hold. A clock before the epoch shows zero.
pub open spec fn ledger_view(chain_id: u64, ops: u64, micros: Option<u128>) -> LedgerView {
    LedgerView {
        chain_id,
        epoch: "1"@,
        ledger_version: decimal(ops as nat),
        oldest_ledger_version: "0"@,
        ledger_timestamp: decimal(
            match micros {
                Some(m) => m as nat % 0x1_0000_0000_0000_0000,
                None => 0,
            },
        ),
        node_role: "full_node"@,
        oldest_block_height: "0"@,
        block_height: decimal(ops as nat),
    }
}

/// The state of the ledger; `micros` is the time since the epoch, where the
/// clock is not before it.
pub fn build_ledger_info(chain_id: u64, ops: u64, micros: Option<u128>) -> (res: LedgerInfoResponse)
    ensures
        res@ == ledger_view(chain_id, ops, micros),
{
    let now_usec = match micros {
        Some(m) => {
            assert(m as u64 == m % 0x1_0000_0000_0000_0000) by (bit_vector);
            m as u64
        },
        None => 0,
    };
    LedgerInfoResponse {
        chain_id,
        epoch: "1".to_owned(),
        ledger_version: decimal_text(ops as u128),
        oldest_ledger_version: "0".to_owned(),
        ledger_timestamp: decimal_text(now_usec as u128),
        node_role: "full_node".to_owned(),
        oldest_block_height: "0".to_owned(),
        block_height: decimal_text(ops as u128),
    }
}

/// The headers that show the state of the ledger.
pub open spec fn ledger_pairs(info: LedgerView) -> Seq<(Seq<char>, Seq<char>)> {
    seq![
        ("x-aptos-chain-id"@, decimal(info.chain_id as nat)),
        ("x-aptos-ledger-version"@, info.ledger_version),
        ("x-aptos-ledger-oldest-version"@, info.oldest_ledger_version),
        ("x-aptos-ledger-timestampusec"@, info.ledger_timestamp),
        ("x-aptos-epoch"@, info.epoch),
        ("x-aptos-block-height"@, info.block_height),
        ("x-aptos-oldest-block-height"@, info.oldest_block_height),
    ]
}

/// The names of the headers that show the state of the ledger are header names,
/// no two of them alike.
proof fn lemma_ledger_names(info: LedgerView)
    ensures
        forall|i: int| 0 <= i < 7 ==> is_header_name((#[trigger] ledger_pairs(info)[i]).0),
        forall|i: int, j: int|
            0 <= i < j < 7 ==> (#[trigger] ledger_pairs(info)[i]).0 != (#[trigger] ledger_pairs(
                info,
            )[j]).0,
{
    reveal_strlit("x-aptos-chain-id");
    reveal_strlit("x-aptos-ledger-version");
    reveal_strlit("x-aptos-ledger-oldest-version");
    reveal_strlit("x-aptos-ledger-timestampusec");
    reveal_strlit("x-aptos-epoch");
    reveal_strlit("x-aptos-block-height");
    reveal_strlit("x-aptos-oldest-block-height");
    let names = ledger_pairs(info);
    assert(names[0].0.len() == 16 && names[1].0.len() == 22 && names[2].0.len() == 29
        && names[3].0.len() == 28 && names[4].0.len() == 13 && names[5].0.len() == 20
        && names[6].0.len() == 27);
}

/// Shows the state of the ledger in the headers of an answer, each header once.
/// Says whether there was room for all of them.
pub fn inject_ledger_headers(headers: &mut HeaderMap, info: LedgerInfoResponse) -> (all: bool)
    ensures
        all ==> header_values(*final(headers)) == with_headers(
            header_values(*old(headers)),
            ledger_pairs(info@),
        ),
        !all ==> exists|done: int|
            0 <= done < 7 && header_values(*final(headers)) == with_headers(
                header_values(*old(headers)),
                #[trigger] ledger_pairs(info@).take(done),
            ),
        header_count(*old(headers)) + 7 <= ROOM_FOR_NAMES ==> all,
{
    let chain_id = decimal_text(info.chain_id as u128);
    let ghost view = info@;
    let mut pairs: Vec<(&'static str, String)> = Vec::new();
    pairs.push(("x-aptos-chain-id", chain_id));
    pairs.push(("x-aptos-ledger-version", info.ledger_version));
    pairs.push(("x-aptos-ledger-oldest-version", info.oldest_ledger_version));
    pairs.push(("x-aptos-ledger-timestampusec", info.ledger_timestamp));
    pairs.push(("x-aptos-epoch", info.epoch));
    pairs.push(("x-aptos-block-height", info.block_height));
    pairs.push(("x-aptos-oldest-block-height", info.oldest_block_height));
    assert(pair_views(pairs@) =~= ledger_pairs(view));
    proof {
        lemma_ledger_names(view);
        assert forall|i: int| 0 <= i < pairs@.len() implies is_header_name(
            (#[trigger] pairs@[i]).0@,
        ) by {
            assert(pair_views(pairs@)[i].0 == pairs@[i].0@);
        }
    }
    set_headers(headers, &pairs)
}

/// An answer whose headers were injected carries every one of them exactly once,
/// as a text that a client can read: none is left out, and what stood under its
/// name before is gone.
pub proof fn law_ledger_headers_are_read(
    headers: Map<Seq<char>, Seq<Seq<u8>>>,
    chain_id: u64,
    ops: u64,
    micros: Option<u128>,
    at: int,
)
    requires
        0 <= at < 7,
    ensures
        ({
            let pairs = ledger_pairs(ledger_view(chain_id, ops, micros));
            &&& with_headers(headers, pairs).contains_key(pairs[at].0)
            &&& with_headers(headers, pairs)[pairs[at].0].len() == 1
            &&& visible_text(with_headers(headers, pairs)[pairs[at].0][0]) == Some(pairs[at].1)
        }),
{
    let info = ledger_view(chain_id, ops, micros);
    let pairs = ledger_pairs(info);
    lemma_ledger_names(info);
    lemma_decimal_digits(chain_id as nat);
    lemma_decimal_digits(ops as nat);
    match micros {
        Some(m) => lemma_decimal_digits(m as nat % 0x1_0000_0000_0000_0000),
        None => lemma_decimal_digits(0),
    }
    reveal_strlit("0");
    reveal_strlit("1");
    assert forall|i: int| at < i < pairs.len() implies (#[trigger] pairs[i]).0 != pairs[at].0 by {}
    law_set_header_is_read(headers, pairs, at);
}

/// Injecting leaves every other header as it was, with all its values.
pub proof fn law_other_headers_stay(
    headers: Map<Seq<char>, Seq<Seq<u8>>>,
    info: LedgerView,
    name: Seq<char>,
)
    requires
        forall|i: int| 0 <= i < 7 ==> (#[trigger] ledger_pairs(info)[i]).0 != name,
    ensures
        with_headers(headers, ledger_pairs(info)).contains_key(name) == headers.contains_key(name),
        headers.contains_key(name) ==> with_headers(headers, ledger_pairs(info))[name]
            == headers[name],
{
    lemma_others_stay(headers, ledger_pairs(info), name);
}

/// Setting headers leaves every other header as it was.
proof fn lemma_others_stay(
    headers: Map<Seq<char>, Seq<Seq<u8>>>,
    pairs: Seq<(Seq<char>, Seq<char>)>,
    name: Seq<char>,
)
    requires
        forall|i: int| 0 <= i < pairs.len() ==> (#[trigger] pairs[i]).0 != name,
    ensures
        with_headers(headers, pairs).contains_key(name) == headers.contains_key(name),
        headers.contains_key(name) ==> with_headers(headers, pairs)[name] == headers[name],
    decreases pairs.len(),
{
    if pairs.len() > 0 {
        lemma_others_stay(headers, pairs.drop_last(), name);
        assert(pairs.last() == pairs[pairs.len() - 1]);
    }
}

/// After a commit the ledger is at the version that the transaction's record
/// shows.
pub proof fn law_ledger_shows_commit(
    session: SessionView,
    txn: SignedTransaction,
    hash: Seq<char>,
    success: bool,
    vm_status: Seq<char>,
    gas_used: u64,
    micros: Option<u128>,
)
    ensures
        ({
            let next = session.committed(txn, hash, success, vm_status, gas_used);
            let info = ledger_view(next.chain_id, next.ops_count, micros);
            next.records[hash].get("version"@) == Some(JsonView::Text(info.ledger_version))
        }),
{
    let next = session.committed(txn, hash, success, vm_status, gas_used);
    let fields = next.records[hash]->Object_0;
    reveal_strlit("type");
    reveal_strlit("hash");
    reveal_strlit("success");
    reveal_strlit("vm_status");
    reveal_strlit("version");
    assert("hash"@[0] != "version"@[0] && "type"@[0] != "version"@[0] && "success"@[0]
        != "version"@[0] && "vm_status"@[1] != "version"@[1]);
    crate::json::lemma_field_of(fields, "version"@, 4);
}

} // verus!
