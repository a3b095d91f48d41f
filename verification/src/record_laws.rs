//! What the records and answers about transactions show of them.
use crate::answer_laws::{lemma_error_body, shows_error};
use crate::encoding::hex_text;
use crate::http::{ApiError, HttpError};
use crate::json::{lemma_field_of, Json, JsonView};
use crate::server::{mint, simulate_transaction, submit_transaction};
use crate::session_wrapper::SessionWrapper;
use crate::text::decimal;
use crate::trace::{Outcome, TraceResponse, VMStatus};
use crate::transaction::{build_committed_record, committed_record, pending_record, simulated_record,
    SignedTransaction};
use vstd::prelude::*;

verus! {

/// The record shows a transaction: under each name that the answer to a
/// submission and the record of a commit share stands the transaction's own
/// value.
pub open spec fn shows_transaction(record: JsonView, txn: SignedTransaction) -> bool {
    &&& record.get("hash"@) == Some(JsonView::Text("0x"@ + hex_text(txn.hash@)))
    &&& shows_request(record, txn)
}

/// The same, apart from the hash.
pub open spec fn shows_request(record: JsonView, txn: SignedTransaction) -> bool {
    &&& record.get("sender"@) == Some(JsonView::Text("0x"@ + hex_text(txn.sender.bytes@)))
    &&& record.get("sequence_number"@) == Some(
        JsonView::Text(decimal(txn.sequence_number as nat)),
    )
    &&& record.get("max_gas_amount"@) == Some(JsonView::Text(decimal(txn.max_gas_amount as nat)))
    &&& record.get("gas_unit_price"@) == Some(JsonView::Text(decimal(txn.gas_unit_price as nat)))
    &&& record.get("expiration_timestamp_secs"@) == Some(
        JsonView::Text(decimal(txn.expiration_timestamp_secs as nat)),
    )
}

/// The names of a record are all different.
proof fn lemma_names()
    ensures
        "type"@.len() == 4,
        "hash"@.len() == 4,
        "success"@.len() == 7,
        "vm_status"@.len() == 9,
        "version"@.len() == 7,
        "sender"@.len() == 6,
        "sequence_number"@.len() == 15,
        "max_gas_amount"@.len() == 14,
        "gas_unit_price"@.len() == 14,
        "expiration_timestamp_secs"@.len() == 25,
        "gas_used"@.len() == 8,
        "timestamp"@.len() == 9,
        "payload"@.len() == 7,
        "signature"@.len() == 9,
        "status"@.len() == 6,
        "address"@.len() == 7,
        "amount"@.len() == 6,
        "type"@ != "hash"@,
        "success"@ != "version"@,
        "vm_status"@ != "timestamp"@,
        "max_gas_amount"@ != "gas_unit_price"@,
        "status"@ != "amount"@,
{
    reveal_strlit("type");
    reveal_strlit("hash");
    reveal_strlit("success");
    reveal_strlit("vm_status");
    reveal_strlit("version");
    reveal_strlit("sender");
    reveal_strlit("sequence_number");
    reveal_strlit("max_gas_amount");
    reveal_strlit("gas_unit_price");
    reveal_strlit("expiration_timestamp_secs");
    reveal_strlit("gas_used");
    reveal_strlit("timestamp");
    reveal_strlit("payload");
    reveal_strlit("signature");
    reveal_strlit("status");
    reveal_strlit("address");
    reveal_strlit("amount");
    assert("type"@[0] != "hash"@[0]);
    assert("success"@[0] != "version"@[0]);
    assert("vm_status"@[0] != "timestamp"@[0]);
    assert("max_gas_amount"@[0] != "gas_unit_price"@[0]);
    assert("status"@[0] != "amount"@[0]);
}

/// The record of a commit shows the transaction that was committed, and how it
/// went: each name gives the value that it says, and there is no other name.
pub proof fn law_committed_record_fields(
    txn: &SignedTransaction,
    hash: &str,
    success: bool,
    vm_status: &str,
    version: u64,
    gas_used: u64,
    res: Json,
)
    requires
        call_ensures(committed_record, (txn, hash, success, vm_status, version, gas_used), res),
    ensures
        shows_request(res@, *txn),
        res@.get("type"@) == Some(JsonView::Text("user_transaction"@)),
        res@.get("hash"@) == Some(JsonView::Text(hash@)),
        res@.get("success"@) == Some(JsonView::Bool(success)),
        res@.get("vm_status"@) == Some(JsonView::Text(vm_status@)),
        res@.get("version"@) == Some(JsonView::Text(decimal(version as nat))),
        res@.get("gas_used"@) == Some(JsonView::Text(decimal(gas_used as nat))),
        res@.get("timestamp"@) == Some(JsonView::Text("0"@)),
        res@->Object_0.len() == 12,
{
    lemma_names();
    let f = res@->Object_0;
    lemma_field_of(f, "type"@, 0);
    lemma_field_of(f, "hash"@, 1);
    lemma_field_of(f, "success"@, 2);
    lemma_field_of(f, "vm_status"@, 3);
    lemma_field_of(f, "version"@, 4);
    lemma_field_of(f, "sender"@, 5);
    lemma_field_of(f, "sequence_number"@, 6);
    lemma_field_of(f, "max_gas_amount"@, 7);
    lemma_field_of(f, "gas_unit_price"@, 8);
    lemma_field_of(f, "expiration_timestamp_secs"@, 9);
    lemma_field_of(f, "gas_used"@, 10);
    lemma_field_of(f, "timestamp"@, 11);
}

/// The record of a traced commit shows what its answer shows, and the
/// transaction.
pub proof fn law_traced_record_fields(
    txn: &SignedTransaction,
    response: &TraceResponse,
    version: u64,
    res: Json,
)
    requires
        call_ensures(build_committed_record, (txn, response, version), res),
    ensures
        shows_request(res@, *txn),
        res@.get("type"@) == Some(JsonView::Text("user_transaction"@)),
        res@.get("hash"@) == Some(JsonView::Text(response.txn_hash@)),
        res@.get("success"@) == Some(JsonView::Bool(response.success)),
        res@.get("vm_status"@) == Some(JsonView::Text(response.vm_status@)),
        res@.get("version"@) == Some(JsonView::Text(decimal(version as nat))),
        res@.get("gas_used"@) == Some(JsonView::Text(decimal(response.gas_used as nat))),
        res@.get("timestamp"@) == Some(JsonView::Text("0"@)),
        res@->Object_0.len() == 12,
{
    lemma_names();
    let f = res@->Object_0;
    lemma_field_of(f, "type"@, 0);
    lemma_field_of(f, "hash"@, 1);
    lemma_field_of(f, "success"@, 2);
    lemma_field_of(f, "vm_status"@, 3);
    lemma_field_of(f, "version"@, 4);
    lemma_field_of(f, "sender"@, 5);
    lemma_field_of(f, "sequence_number"@, 6);
    lemma_field_of(f, "max_gas_amount"@, 7);
    lemma_field_of(f, "gas_unit_price"@, 8);
    lemma_field_of(f, "expiration_timestamp_secs"@, 9);
    lemma_field_of(f, "gas_used"@, 10);
    lemma_field_of(f, "timestamp"@, 11);
}

/// The answer to a submission shows the transaction that was submitted.
pub proof fn law_pending_record_fields(txn: &SignedTransaction, res: Json)
    requires
        call_ensures(pending_record, (txn,), res),
    ensures
        shows_transaction(res@, *txn),
        res@.get("type"@) == Some(JsonView::Text("pending_transaction"@)),
        res@.get("payload"@) == Some(JsonView::Object(Seq::empty())),
        res@.get("signature"@) == Some(JsonView::Object(Seq::empty())),
        res@->Object_0.len() == 9,
{
    lemma_names();
    let f = res@->Object_0;
    lemma_field_of(f, "type"@, 0);
    lemma_field_of(f, "hash"@, 1);
    lemma_field_of(f, "sender"@, 2);
    lemma_field_of(f, "sequence_number"@, 3);
    lemma_field_of(f, "max_gas_amount"@, 4);
    lemma_field_of(f, "gas_unit_price"@, 5);
    lemma_field_of(f, "expiration_timestamp_secs"@, 6);
    lemma_field_of(f, "payload"@, 7);
    lemma_field_of(f, "signature"@, 8);
}

/// The list that a simulation is answered with has one record. It says success
/// exactly where the virtual machine ran the transaction to its end, and shows
/// the printed status whatever it is.
pub open spec fn shows_simulation(
    list: JsonView,
    txn: SignedTransaction,
    status: VMStatus,
    gas_used: u64,
) -> bool {
    &&& list is Array
    &&& list->Array_0.len() == 1
    &&& list->Array_0[0].get("hash"@) == Some(JsonView::Text("0x"@ + hex_text(txn.hash@)))
    &&& list->Array_0[0].get("vm_status"@) == Some(JsonView::Text(status.debug@))
    &&& list->Array_0[0].get("success"@) == Some(
        JsonView::Bool(
            match status.outcome {
                Outcome::Executed => true,
                Outcome::MoveAbort(_, _) => false,
                Outcome::ExecutionFailure { .. } => false,
                Outcome::Error { .. } => false,
            },
        ),
    )
    &&& list->Array_0[0].get("gas_used"@) == Some(JsonView::Text(decimal(gas_used as nat)))
    &&& list->Array_0[0]->Object_0.len() == 4
}

/// What a simulation is answered with.
pub proof fn law_simulated_record_fields(
    txn: &SignedTransaction,
    status: &VMStatus,
    gas_used: u64,
    res: Json,
)
    requires
        call_ensures(simulated_record, (txn, status, gas_used), res),
    ensures
        shows_simulation(res@, *txn, *status, gas_used),
{
    lemma_names();
    let f = res@->Array_0[0]->Object_0;
    lemma_field_of(f, "hash"@, 0);
    lemma_field_of(f, "vm_status"@, 1);
    lemma_field_of(f, "success"@, 2);
    lemma_field_of(f, "gas_used"@, 3);
}

/// A simulation that took place is answered with what it showed, whatever the
/// virtual machine said; one that did not is a failure of the node.
pub proof fn law_simulation_is_answered(
    txn: &SignedTransaction,
    outcome: Result<(VMStatus, u64), String>,
    res: Result<Json, ApiError>,
)
    requires
        call_ensures(simulate_transaction, (txn, outcome), res),
    ensures
        res is Ok <==> outcome is Ok,
        outcome is Ok ==> shows_simulation(
            res->Ok_0@,
            *txn,
            outcome->Ok_0.0,
            outcome->Ok_0.1,
        ),
        res is Err ==> res->Err_0.0.number() == 500 && shows_error(
            res->Err_0.1@,
            "internal_error"@,
            outcome->Err_0@,
        ),
{
    lemma_names();
    if outcome is Ok {
        let f = res->Ok_0@->Array_0[0]->Object_0;
        lemma_field_of(f, "hash"@, 0);
        lemma_field_of(f, "vm_status"@, 1);
        lemma_field_of(f, "success"@, 2);
        lemma_field_of(f, "gas_used"@, 3);
    } else {
        lemma_error_body(res->Err_0.1@, "internal_error"@, outcome->Err_0@);
    }
}

/// The text that a record reports a status with: a fixed one for a success, and
/// the printed status for anything else.
pub open spec fn reported(status: VMStatus) -> Seq<char> {
    match status.outcome {
        Outcome::Executed => "Executed successfully"@,
        _ => status.debug@,
    }
}

/// A submission that was executed, with success or not, counts as one more
/// operation, and its record is found under its hash: it shows the transaction,
/// how it went, and the operation's number as its version. The answer shows the
/// same transaction.
pub proof fn law_submission_is_recorded<S>(
    session: &mut SessionWrapper<S>,
    txn: &SignedTransaction,
    outcome: Result<(VMStatus, u64), String>,
    res: Result<Json, ApiError>,
)
    requires
        old(session)@.valid(),
        old(session)@.ops_count < u64::MAX,
        outcome is Ok,
        call_ensures(submit_transaction::<S>, (session, txn, outcome), res),
    ensures
        final(session)@.ops_count == old(session)@.ops_count + 1,
        final(session)@.chain_id == old(session)@.chain_id,
        ({
            let hash = "0x"@ + hex_text(txn.hash@);
            let record = final(session)@.records[hash];
            &&& final(session)@.records.contains_key(hash)
            &&& shows_transaction(record, *txn)
            &&& record.get("type"@) == Some(JsonView::Text("user_transaction"@))
            &&& record.get("success"@) == Some(
                JsonView::Bool(outcome->Ok_0.0.outcome == Outcome::Executed),
            )
            &&& record.get("vm_status"@) == Some(JsonView::Text(reported(outcome->Ok_0.0)))
            &&& record.get("version"@) == Some(
                JsonView::Text(decimal((old(session)@.ops_count + 1) as nat)),
            )
            &&& record.get("gas_used"@) == Some(JsonView::Text(decimal(outcome->Ok_0.1 as nat)))
        }),
        res is Ok,
        shows_transaction(res->Ok_0@, *txn),
        res->Ok_0@.get("type"@) == Some(JsonView::Text("pending_transaction"@)),
{
    lemma_names();
    let hash = "0x"@ + hex_text(txn.hash@);
    let f = final(session)@.records[hash]->Object_0;
    lemma_field_of(f, "type"@, 0);
    lemma_field_of(f, "hash"@, 1);
    lemma_field_of(f, "success"@, 2);
    lemma_field_of(f, "vm_status"@, 3);
    lemma_field_of(f, "version"@, 4);
    lemma_field_of(f, "sender"@, 5);
    lemma_field_of(f, "sequence_number"@, 6);
    lemma_field_of(f, "max_gas_amount"@, 7);
    lemma_field_of(f, "gas_unit_price"@, 8);
    lemma_field_of(f, "expiration_timestamp_secs"@, 9);
    lemma_field_of(f, "gas_used"@, 10);
    let g = res->Ok_0@->Object_0;
    lemma_field_of(g, "type"@, 0);
    lemma_field_of(g, "hash"@, 1);
    lemma_field_of(g, "sender"@, 2);
    lemma_field_of(g, "sequence_number"@, 3);
    lemma_field_of(g, "max_gas_amount"@, 4);
    lemma_field_of(g, "gas_unit_price"@, 5);
    lemma_field_of(g, "expiration_timestamp_secs"@, 6);
}

/// A submission that could not be executed leaves the session as it was and is a
/// failure of the node.
pub proof fn law_failed_submission_leaves_no_mark<S>(
    session: &mut SessionWrapper<S>,
    txn: &SignedTransaction,
    outcome: Result<(VMStatus, u64), String>,
    res: Result<Json, ApiError>,
)
    requires
        old(session)@.valid(),
        outcome is Err,
        call_ensures(submit_transaction::<S>, (session, txn, outcome), res),
    ensures
        final(session)@ == old(session)@,
        res is Err,
        res->Err_0.0.number() == 500,
        shows_error(res->Err_0.1@, "internal_error"@, outcome->Err_0@),
{
    lemma_error_body(res->Err_0.1@, "internal_error"@, outcome->Err_0@);
}

/// A trace that commits leaves a record of the transaction under the hash of its
/// answer, whether the transaction succeeded or not, with the operation's number
/// as its version; the answer is handed on.
pub proof fn law_committed_trace_is_recorded<S>(
    session: &mut SessionWrapper<S>,
    txn: &SignedTransaction,
    outcome: Result<TraceResponse, String>,
    res: Result<TraceResponse, String>,
)
    requires
        old(session)@.valid(),
        old(session)@.ops_count < u64::MAX,
        outcome is Ok,
        call_ensures(
            SessionWrapper::<S>::execute_transaction_traced,
            (session, txn, true, outcome),
            res,
        ),
    ensures
        res == outcome,
        final(session)@.ops_count == old(session)@.ops_count + 1,
        final(session)@.chain_id == old(session)@.chain_id,
        ({
            let response = outcome->Ok_0;
            let record = final(session)@.records[response.txn_hash@];
            &&& final(session)@.records.contains_key(response.txn_hash@)
            &&& shows_request(record, *txn)
            &&& record.get("type"@) == Some(JsonView::Text("user_transaction"@))
            &&& record.get("hash"@) == Some(JsonView::Text(response.txn_hash@))
            &&& record.get("success"@) == Some(JsonView::Bool(response.success))
            &&& record.get("vm_status"@) == Some(JsonView::Text(response.vm_status@))
            &&& record.get("version"@) == Some(
                JsonView::Text(decimal((old(session)@.ops_count + 1) as nat)),
            )
            &&& record.get("gas_used"@) == Some(JsonView::Text(decimal(response.gas_used as nat)))
        }),
{
    lemma_names();
    let f = final(session)@.records[outcome->Ok_0.txn_hash@]->Object_0;
    lemma_field_of(f, "type"@, 0);
    lemma_field_of(f, "hash"@, 1);
    lemma_field_of(f, "success"@, 2);
    lemma_field_of(f, "vm_status"@, 3);
    lemma_field_of(f, "version"@, 4);
    lemma_field_of(f, "sender"@, 5);
    lemma_field_of(f, "sequence_number"@, 6);
    lemma_field_of(f, "max_gas_amount"@, 7);
    lemma_field_of(f, "gas_unit_price"@, 8);
    lemma_field_of(f, "expiration_timestamp_secs"@, 9);
    lemma_field_of(f, "gas_used"@, 10);
}

/// A trace that does not commit, or that could not be taken, leaves the session
/// as it was, and its outcome is handed on.
pub proof fn law_dry_trace_leaves_no_mark<S>(
    session: &mut SessionWrapper<S>,
    txn: &SignedTransaction,
    commit: bool,
    outcome: Result<TraceResponse, String>,
    res: Result<TraceResponse, String>,
)
    requires
        old(session)@.valid(),
        !commit || outcome is Err,
        call_ensures(
            SessionWrapper::<S>::execute_transaction_traced,
            (session, txn, commit, outcome),
            res,
        ),
    ensures
        res == outcome,
        final(session)@ == old(session)@,
{
}

/// A funding counts as one more operation and leaves no record; its answer shows
/// the address as it was given and the amount as a number. One that failed leaves
/// the session as it was.
pub proof fn law_funding_is_answered<S>(
    session: &mut SessionWrapper<S>,
    address: &str,
    amount: u64,
    outcome: Result<(), String>,
    res: Result<Json, HttpError>,
)
    requires
        old(session)@.ops_count < u64::MAX,
        call_ensures(mint::<S>, (session, address, amount, outcome), res),
    ensures
        res is Ok <==> outcome is Ok,
        final(session)@.records == old(session)@.records,
        final(session)@.order == old(session)@.order,
        final(session)@.chain_id == old(session)@.chain_id,
        outcome is Ok ==> {
            &&& final(session)@.ops_count == old(session)@.ops_count + 1
            &&& res->Ok_0@.get("status"@) == Some(JsonView::Text("ok"@))
            &&& res->Ok_0@.get("address"@) == Some(JsonView::Text(address@))
            &&& res->Ok_0@.get("amount"@) == Some(JsonView::Number(decimal(amount as nat)))
            &&& res->Ok_0@->Object_0.len() == 3
        },
        outcome is Err ==> {
            &&& final(session)@.ops_count == old(session)@.ops_count
            &&& res->Err_0.0.number() == 500
            &&& res->Err_0.1@ == outcome->Err_0@
        },
{
    lemma_names();
    if outcome is Ok {
        let f = res->Ok_0@->Object_0;
        lemma_field_of(f, "status"@, 0);
        lemma_field_of(f, "address"@, 1);
        lemma_field_of(f, "amount"@, 2);
    }
}

/// A commit of a submission counts the operation and stores its record, and does
/// nothing else.
pub proof fn law_commit_counts_and_stores<S>(
    session: &mut SessionWrapper<S>,
    counted: &mut SessionWrapper<S>,
    stored: &mut SessionWrapper<S>,
    txn: &SignedTransaction,
    status: &VMStatus,
    gas_used: u64,
    hash: String,
    shown_hash: &str,
    report: &str,
    version: u64,
    record: Json,
)
    requires
        old(session)@.ops_count < u64::MAX,
        version == old(session)@.ops_count + 1,
        hash@ == "0x"@ + hex_text(txn.hash@),
        shown_hash@ == hash@,
        report@ == reported(*status),
        call_ensures(
            committed_record,
            (
                txn,
                shown_hash,
                status.outcome == Outcome::Executed,
                report,
                version,
                gas_used,
            ),
            record,
        ),
        call_ensures(SessionWrapper::<S>::commit_submitted, (session, txn, status, gas_used), ()),
        call_ensures(SessionWrapper::<S>::increment_ops, (counted,), ()),
        call_ensures(SessionWrapper::<S>::store_transaction, (stored, hash, record), ()),
        old(counted)@ == old(session)@,
        old(stored)@ == final(counted)@,
    ensures
        final(session)@ == final(stored)@,
        final(session).inner_session() == old(session).inner_session(),
        final(session).path() == old(session).path(),
{
}

/// A trace that commits does to the session what counting the operation and
/// storing the record of its answer do.
pub proof fn law_traced_commit_counts_and_stores<S>(
    session: &mut SessionWrapper<S>,
    counted: &mut SessionWrapper<S>,
    stored: &mut SessionWrapper<S>,
    txn: &SignedTransaction,
    response: TraceResponse,
    hash: String,
    version: u64,
    record: Json,
    res: Result<TraceResponse, String>,
)
    requires
        old(session)@.ops_count < u64::MAX,
        version == old(session)@.ops_count + 1,
        hash@ == response.txn_hash@,
        call_ensures(build_committed_record, (txn, &response, version), record),
        call_ensures(
            SessionWrapper::<S>::execute_transaction_traced,
            (session, txn, true, Ok(response)),
            res,
        ),
        call_ensures(SessionWrapper::<S>::increment_ops, (counted,), ()),
        call_ensures(SessionWrapper::<S>::store_transaction, (stored, hash, record), ()),
        old(counted)@ == old(session)@,
        old(stored)@ == final(counted)@,
    ensures
        res == Ok::<TraceResponse, String>(response),
        final(session)@ == final(stored)@,
        final(session).inner_session() == old(session).inner_session(),
        final(session).path() == old(session).path(),
{
}

/// A submission does to the session what its commit does, and is answered with
/// the pending record, whatever the virtual machine said.
pub proof fn law_submission_commits<S>(
    session: &mut SessionWrapper<S>,
    committed: &mut SessionWrapper<S>,
    txn: &SignedTransaction,
    status: VMStatus,
    gas_used: u64,
    pending: Json,
    res: Result<Json, ApiError>,
)
    requires
        call_ensures(pending_record, (txn,), pending),
        call_ensures(submit_transaction::<S>, (session, txn, Ok((status, gas_used))), res),
        call_ensures(
            SessionWrapper::<S>::commit_submitted,
            (committed, txn, &status, gas_used),
            (),
        ),
        old(committed)@ == old(session)@,
    ensures
        final(session)@ == final(committed)@,
        final(session).inner_session() == old(session).inner_session(),
        final(session).path() == old(session).path(),
        res is Ok,
        res->Ok_0@ == pending@,
{
}

} // verus!
