//! Signed transactions, and the records that are kept and answered about them.
use crate::address::{AccountAddress, ModuleId};
use crate::encoding::{hex_encode, hex_text};
use crate::json::{field_views, json_views, lemma_array_view, lemma_object_view, text_field, Json,
    JsonView};
use crate::text::{decimal, decimal_text, join2, texts};
use crate::trace::{TraceResponse, VMStatus};
use crate::tracer::{function_frame, script_frame, FrameView, TracerMeter};
use vstd::prelude::*;

verus! {

/// A call of an entry function.
#[derive(Debug, PartialEq, Eq)]
pub struct EntryFunction {
    pub module: ModuleId,
    pub function: String,
    /// The type arguments in their canonical text.
    pub ty_args: Vec<String>,
    pub args: Vec<Vec<u8>>,
}

/// What a versioned payload runs.
#[derive(Debug, PartialEq, Eq)]
pub enum TransactionExecutable {
    EntryFunction(EntryFunction),
    Other,
}

/// What a transaction runs.
#[derive(Debug, PartialEq, Eq)]
pub enum TransactionPayload {
    EntryFunction(EntryFunction),
    Script,
    Payload { executable: TransactionExecutable },
    Other,
}

/// A signed transaction, as far as the node looks at it.
#[derive(Debug, PartialEq, Eq)]
pub struct SignedTransaction {
    /// The hash under which the transaction is committed.
    pub hash: Vec<u8>,
    pub sender: AccountAddress,
    pub sequence_number: u64,
    pub max_gas_amount: u64,
    pub gas_unit_price: u64,
    pub expiration_timestamp_secs: u64,
    pub payload: TransactionPayload,
}

impl SignedTransaction {
    /// The hash as it is shown.
    pub open spec fn shown_hash(self) -> Seq<char> {
        "0x"@ + hex_text(self.hash@)
    }

    /// The hash as it is shown.
    pub fn hash_text(&self) -> (res: String)
        ensures
            res@ == self.shown_hash(),
    {
        let digits = hex_encode(self.hash.as_slice());
        join2("0x", digits.as_str())
    }
}

/// A number as a JSON text.
pub open spec fn number_text(n: u64) -> JsonView {
    JsonView::Text(decimal(n as nat))
}

/// A field whose value is a number, given as a text.
fn number_field(name: &str, value: u64) -> (field: (String, Json))
    ensures
        field.0@ == name@,
        field.1@ == number_text(value),
{
    (name.to_owned(), Json::Text(decimal_text(value as u128)))
}

/// The record of a committed transaction.
pub open spec fn committed_view(
    txn: SignedTransaction,
    hash: Seq<char>,
    success: bool,
    vm_status: Seq<char>,
    version: u64,
    gas_used: u64,
) -> JsonView {
    JsonView::Object(
        seq![
            ("type"@, JsonView::Text("user_transaction"@)),
            ("hash"@, JsonView::Text(hash)),
            ("success"@, JsonView::Bool(success)),
            ("vm_status"@, JsonView::Text(vm_status)),
            ("version"@, number_text(version)),
            ("sender"@, JsonView::Text("0x"@ + hex_text(txn.sender@))),
            ("sequence_number"@, number_text(txn.sequence_number)),
            ("max_gas_amount"@, number_text(txn.max_gas_amount)),
            ("gas_unit_price"@, number_text(txn.gas_unit_price)),
            ("expiration_timestamp_secs"@, number_text(txn.expiration_timestamp_secs)),
            ("gas_used"@, number_text(gas_used)),
            ("timestamp"@, JsonView::Text("0"@)),
        ],
    )
}

/// The record of a committed transaction.
pub fn committed_record(
    txn: &SignedTransaction,
    hash: &str,
    success: bool,
    vm_status: &str,
    version: u64,
    gas_used: u64,
) -> (res: Json)
    ensures
        res@ == committed_view(*txn, hash@, success, vm_status@, version, gas_used),
{
    broadcast use lemma_object_view;

    let sender = txn.sender.to_long_text();
    let mut fields: Vec<(String, Json)> = Vec::new();
    fields.push(text_field("type", "user_transaction"));
    fields.push(text_field("hash", hash));
    fields.push(("success".to_owned(), Json::Bool(success)));
    fields.push(text_field("vm_status", vm_status));
    fields.push(number_field("version", version));
    fields.push(text_field("sender", sender.as_str()));
    fields.push(number_field("sequence_number", txn.sequence_number));
    fields.push(number_field("max_gas_amount", txn.max_gas_amount));
    fields.push(number_field("gas_unit_price", txn.gas_unit_price));
    fields.push(number_field("expiration_timestamp_secs", txn.expiration_timestamp_secs));
    fields.push(number_field("gas_used", gas_used));
    fields.push(text_field("timestamp", "0"));
    assert(field_views(fields@) =~= committed_view(
        *txn,
        hash@,
        success,
        vm_status@,
        version,
        gas_used,
    )->Object_0);
    Json::Object(fields)
}

/// The record of a transaction that was traced and committed in one pass.
pub fn build_committed_record(txn: &SignedTransaction, response: &TraceResponse, version: u64) -> (res:
    Json)
    ensures
        res@ == committed_view(
            *txn,
            response.txn_hash@,
            response.success,
            response.vm_status@,
            version,
            response.gas_used,
        ),
{
    committed_record(
        txn,
        response.txn_hash.as_str(),
        response.success,
        response.vm_status.as_str(),
        version,
        response.gas_used,
    )
}

/// The answer to a submission.
pub open spec fn pending_view(txn: SignedTransaction) -> JsonView {
    JsonView::Object(
        seq![
            ("type"@, JsonView::Text("pending_transaction"@)),
            ("hash"@, JsonView::Text(txn.shown_hash())),
            ("sender"@, JsonView::Text("0x"@ + hex_text(txn.sender@))),
            ("sequence_number"@, number_text(txn.sequence_number)),
            ("max_gas_amount"@, number_text(txn.max_gas_amount)),
            ("gas_unit_price"@, number_text(txn.gas_unit_price)),
            ("expiration_timestamp_secs"@, number_text(txn.expiration_timestamp_secs)),
            ("payload"@, JsonView::Object(Seq::empty())),
            ("signature"@, JsonView::Object(Seq::empty())),
        ],
    )
}

/// The answer to a submission.
pub fn pending_record(txn: &SignedTransaction) -> (res: Json)
    ensures
        res@ == pending_view(*txn),
{
    broadcast use lemma_object_view;

    let hash = txn.hash_text();
    let sender = txn.sender.to_long_text();
    let payload: Vec<(String, Json)> = Vec::new();
    let signature: Vec<(String, Json)> = Vec::new();
    assert(field_views(payload@) =~= Seq::empty());
    assert(field_views(signature@) =~= Seq::empty());
    let mut fields: Vec<(String, Json)> = Vec::new();
    fields.push(text_field("type", "pending_transaction"));
    fields.push(text_field("hash", hash.as_str()));
    fields.push(text_field("sender", sender.as_str()));
    fields.push(number_field("sequence_number", txn.sequence_number));
    fields.push(number_field("max_gas_amount", txn.max_gas_amount));
    fields.push(number_field("gas_unit_price", txn.gas_unit_price));
    fields.push(number_field("expiration_timestamp_secs", txn.expiration_timestamp_secs));
    fields.push(("payload".to_owned(), Json::Object(payload)));
    fields.push(("signature".to_owned(), Json::Object(signature)));
    assert(field_views(fields@) =~= pending_view(*txn)->Object_0);
    Json::Object(fields)
}

/// The answer to a simulation: a list of one record, whose status is always the
/// printed one.
pub open spec fn simulated_view(txn: SignedTransaction, status: VMStatus, gas_used: u64) -> JsonView {
    JsonView::Array(
        seq![
            JsonView::Object(
                seq![
                    ("hash"@, JsonView::Text(txn.shown_hash())),
                    ("vm_status"@, JsonView::Text(status.debug@)),
                    ("success"@, JsonView::Bool(status.succeeded())),
                    ("gas_used"@, number_text(gas_used)),
                ],
            ),
        ],
    )
}

/// The answer to a simulation.
pub fn simulated_record(txn: &SignedTransaction, status: &VMStatus, gas_used: u64) -> (res: Json)
    ensures
        res@ == simulated_view(*txn, *status, gas_used),
{
    broadcast use {lemma_array_view, lemma_object_view};

    let hash = txn.hash_text();
    let mut fields: Vec<(String, Json)> = Vec::new();
    fields.push(text_field("hash", hash.as_str()));
    fields.push(text_field("vm_status", status.debug.as_str()));
    fields.push(("success".to_owned(), Json::Bool(status.success())));
    fields.push(number_field("gas_used", gas_used));
    assert(field_views(fields@) =~= simulated_view(
        *txn,
        *status,
        gas_used,
    )->Array_0[0]->Object_0);
    let mut list: Vec<Json> = Vec::new();
    list.push(Json::Object(fields));
    assert(json_views(list@) =~= simulated_view(*txn, *status, gas_used)->Array_0);
    Json::Array(list)
}

/// Where a transaction enters, which no callback of the meter tells.
pub struct EntrySeed {
    pub module: Option<ModuleId>,
    pub function: Option<String>,
    pub ty_args: Vec<String>,
    pub is_script: bool,
    /// How many arguments the user gave; the virtual machine puts the signers in
    /// front of them.
    pub user_arg_count: usize,
}

/// The entry function that a payload calls, where it calls one.
pub open spec fn entry_of(payload: TransactionPayload) -> Option<EntryFunction> {
    match payload {
        TransactionPayload::EntryFunction(call) => Some(call),
        TransactionPayload::Payload {
            executable: TransactionExecutable::EntryFunction(call),
        } => Some(call),
        _ => None,
    }
}

/// The seed is that of an entry function.
pub open spec fn seeds_function(seed: EntrySeed, call: EntryFunction) -> bool {
    &&& !seed.is_script
    &&& seed.module matches Some(module) && module@ == call.module@
    &&& seed.function matches Some(function) && function@ == call.function@
    &&& texts(seed.ty_args@) == texts(call.ty_args@)
    &&& seed.user_arg_count == call.args@.len()
}

/// The seed is that of anything but an entry function: no argument is left out.
pub open spec fn seeds_script(seed: EntrySeed) -> bool {
    &&& seed.is_script
    &&& seed.module is None
    &&& seed.function is None
    &&& seed.ty_args@.len() == 0
    &&& seed.user_arg_count == usize::MAX
}

/// The seed of an entry function.
fn function_seed(call: &EntryFunction) -> (seed: EntrySeed)
    ensures
        seeds_function(seed, *call),
{
    let mut ty_args: Vec<String> = Vec::new();
    let mut i: usize = 0;
    while i < call.ty_args.len()
        invariant
            i <= call.ty_args@.len(),
            ty_args@.len() == i,
            forall|j: int| 0 <= j < i ==> (#[trigger] ty_args@[j])@ == call.ty_args@[j]@,
        decreases call.ty_args@.len() - i,
    {
        ty_args.push(call.ty_args[i].clone());
        i += 1;
    }
    assert(texts(ty_args@) =~= texts(call.ty_args@));
    EntrySeed {
        module: Some(call.module.copy()),
        function: Some(call.function.clone()),
        ty_args,
        is_script: false,
        user_arg_count: call.args.len(),
    }
}

/// Where a transaction enters.
pub fn extract_entry(payload: &TransactionPayload) -> (seed: EntrySeed)
    ensures
        match entry_of(*payload) {
            Some(call) => seeds_function(seed, call),
            None => seeds_script(seed),
        },
{
    match payload {
        TransactionPayload::EntryFunction(call) => {
            return function_seed(call);
        },
        TransactionPayload::Payload { executable } => {
            if let TransactionExecutable::EntryFunction(call) = executable {
                return function_seed(call);
            }
        },
        _ => {},
    }
    EntrySeed {
        module: None,
        function: None,
        ty_args: Vec::new(),
        is_script: true,
        user_arg_count: usize::MAX,
    }
}

/// The entry frame of a tracer for a payload.
pub open spec fn entry_frame(payload: TransactionPayload) -> FrameView {
    match entry_of(payload) {
        Some(call) => function_frame(
            call.module@,
            call.function@,
            texts(call.ty_args@),
            Seq::empty(),
        ),
        None => script_frame(),
    }
}

/// A tracer for a transaction.
pub fn tracer_for<G>(base: G, payload: &TransactionPayload) -> (res: TracerMeter<G>)
    ensures
        res.meter() == base,
        res@.frames == seq![entry_frame(*payload)],
        res@.user_arg_count == match entry_of(*payload) {
            Some(call) => call.args@.len(),
            None => usize::MAX as nat,
        },
        res@.valid(),
{
    let seed = extract_entry(payload);
    match (seed.module, seed.function) {
        (Some(module), Some(function)) => TracerMeter::new_function(
            base,
            module,
            function,
            seed.ty_args,
            seed.user_arg_count,
        ),
        _ => TracerMeter::new_script(base, seed.user_arg_count),
    }
}

} // verus!
