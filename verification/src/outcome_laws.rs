//! What is reported of how a transaction ended, and of what it emitted.
use crate::address::module_text;
use crate::encoding::hex_text;
use crate::json::Json;
use crate::session_wrapper::trace_answer;
use crate::text::opt_text;
use crate::trace::{abort_location_module, build_abort, build_response, decode_events_in_tree,
    entry_views, event_data, event_decoded, events_decoded, AbortInfo, AbortLocation,
    AbortStackEntry, CallNode, Outcome, StorageOp, TraceResponse, TracedEvent, VMStatus};
use crate::trace_laws::law_root_is_entry;
use crate::tracer::{collapsed, TracerMeter};
use crate::transaction::SignedTransaction;
use vstd::prelude::*;

verus! {

/// A transaction succeeded exactly where it ran to its end. Its status is a fixed
/// text where it did, and what the virtual machine printed where it did not.
pub proof fn law_status_is_told(status: &VMStatus, success: bool, report: String)
    requires
        call_ensures(VMStatus::success, (status,), success),
        call_ensures(VMStatus::report_text, (status,), report),
    ensures
        success <==> status.outcome == Outcome::Executed,
        success ==> report@ == "Executed successfully"@,
        !success ==> report@ == status.debug@,
{
}

/// A location in a module is told by the module's text; one in a script by none.
pub proof fn law_location_is_told(location: &AbortLocation, res: Option<String>)
    requires
        call_ensures(abort_location_module, (location,), res),
    ensures
        match *location {
            AbortLocation::Module(id) => res is Some && res->0@ == module_text(id@),
            AbortLocation::Script => res is None,
        },
{
}

/// The code and the sub-status of an abort are those of the outcome: a Move
/// program's own code, or the status of a failure.
pub proof fn law_abort_has_its_code(
    status: &VMStatus,
    stack: Vec<AbortStackEntry>,
    res: AbortInfo,
)
    requires
        call_ensures(build_abort, (status, stack), res),
    ensures
        match status.outcome {
            Outcome::Executed => res.code == 0 && res.sub_status is None,
            Outcome::MoveAbort(_, code) => res.code == code && res.sub_status is None,
            Outcome::ExecutionFailure { status_code, sub_status, .. } => res.code == status_code
                && res.sub_status == sub_status,
            Outcome::Error { status_code, sub_status } => res.code == status_code && res.sub_status
                == sub_status,
        },
{
}

/// The module of an abort is the one in which it happened, where the outcome
/// tells it, and else that of the innermost call, where there is one.
pub proof fn law_abort_has_its_module(
    status: &VMStatus,
    stack: Vec<AbortStackEntry>,
    res: AbortInfo,
)
    requires
        call_ensures(build_abort, (status, stack), res),
    ensures
        match status.outcome {
            Outcome::MoveAbort(AbortLocation::Module(id), _) => opt_text(res.module) == Some(
                module_text(id@),
            ),
            Outcome::ExecutionFailure { location: AbortLocation::Module(id), .. } => opt_text(
                res.module,
            ) == Some(module_text(id@)),
            _ => if stack@.len() > 0 {
                opt_text(res.module) == opt_text(stack@[0].module)
            } else {
                res.module is None
            },
        },
{
}

/// The calls of an abort are those that were given, in order. Only a failure
/// with a code offset adds something: the offset, to the innermost.
pub proof fn law_abort_has_its_calls(
    status: &VMStatus,
    stack: Vec<AbortStackEntry>,
    res: AbortInfo,
    at: int,
)
    requires
        call_ensures(build_abort, (status, stack), res),
    ensures
        res.stack@.len() == stack@.len(),
        0 <= at < stack@.len() ==> {
            &&& opt_text(res.stack@[at].module) == opt_text(stack@[at].module)
            &&& opt_text(res.stack@[at].function) == opt_text(stack@[at].function)
            &&& at > 0 ==> res.stack@[at].offset == stack@[at].offset
        },
        stack@.len() > 0 ==> match status.outcome {
            Outcome::ExecutionFailure { code_offset, .. } => res.stack@[0].offset is Some
                && res.stack@[0].offset->0 == code_offset,
            _ => res.stack@[0].offset == stack@[0].offset,
        },
{
    let shown = entry_views(res.stack@);
    let given = entry_views(stack@);
    assert(shown.len() == res.stack@.len() && given.len() == stack@.len());
    if 0 <= at < stack@.len() {
        assert(shown[at] == res.stack@[at]@ && given[at] == stack@[at]@);
    }
    if stack@.len() > 0 {
        assert(shown[0] == res.stack@[0]@ && given[0] == stack@[0]@);
    }
}

/// The answer for a trace tells the hash, the gas and the tree that it was given.
/// It tells of an abort exactly where the transaction did not run to its end, and
/// as an abort is told.
pub proof fn law_response_tells_the_outcome(
    txn_hash: String,
    status: &VMStatus,
    gas_used: u64,
    root: CallNode,
    abort_stack: Vec<AbortStackEntry>,
    abort: AbortInfo,
    res: TraceResponse,
)
    requires
        call_ensures(build_response, (txn_hash, status, gas_used, root, abort_stack), res),
        call_ensures(build_abort, (status, abort_stack), abort),
    ensures
        res.txn_hash@ == txn_hash@,
        res.gas_used == gas_used,
        res.root == root,
        res.success <==> status.outcome == Outcome::Executed,
        res.abort is None <==> status.outcome == Outcome::Executed,
        res.abort is Some ==> res.abort->0@ == abort@,
        res.success ==> res.vm_status@ == "Executed successfully"@,
        !res.success ==> res.vm_status@ == status.debug@,
{
}

/// The answer for a transaction that was traced has the transaction's hash, the
/// gas that it used, and the entry point at the root; the calls that an abort
/// tells are those that were open, the innermost first.
pub proof fn law_trace_answer<G, F: Fn(&String, &Vec<u8>) -> Json>(
    txn: &SignedTransaction,
    meter: TracerMeter<G>,
    status: &VMStatus,
    gas_used: u64,
    decode: &F,
    res: TraceResponse,
    at: int,
)
    requires
        meter@.frames.len() >= 1,
        meter@.frames[0].self_gas + meter@.frames[0].native_gas <= u64::MAX,
        call_ensures(trace_answer::<G, F>, (txn, meter, status, gas_used, decode), res),
    ensures
        res.txn_hash@ == "0x"@ + hex_text(txn.hash@),
        res.gas_used == gas_used,
        res.success <==> status.outcome == Outcome::Executed,
        res.success ==> res.vm_status@ == "Executed successfully"@,
        !res.success ==> res.vm_status@ == status.debug@,
        res.abort is None <==> status.outcome == Outcome::Executed,
        res.abort is Some ==> res.abort->0.stack@.len() == meter@.frames.len(),
        res.abort is Some && 0 <= at < meter@.frames.len() ==> ({
            let entry = res.abort->0.stack@[at]@;
            let frame = meter@.frames[meter@.frames.len() - 1 - at];
            &&& entry.module == frame.node.module
            &&& entry.function == frame.node.function
            &&& entry.offset is Some <==> at == 0 && status.outcome is ExecutionFailure
            &&& entry.offset is Some ==> entry.offset->0
                == status.outcome->ExecutionFailure_code_offset
        }),
        res.abort is Some ==> match status.outcome {
            Outcome::Executed => false,
            Outcome::MoveAbort(_, code) => res.abort->0.code == code,
            Outcome::ExecutionFailure { status_code, sub_status, .. } => res.abort->0.code
                == status_code && res.abort->0.sub_status == sub_status,
            Outcome::Error { status_code, sub_status } => res.abort->0.code == status_code
                && res.abort->0.sub_status == sub_status,
        },
        ({
            let first = meter@.frames[0];
            let root = res.root@;
            &&& root.kind == first.node.kind
            &&& root.module == first.node.module
            &&& root.function == first.node.function
            &&& root.type_args == first.node.type_args
            &&& root.args == first.node.args
            &&& root.ret == first.node.ret
            &&& root.storage == first.node.storage
            &&& root.gas == first.self_gas + first.native_gas
            &&& root.events.len() == first.node.events.len()
        }),
{
    law_root_is_entry(meter@.frames);
    if res.abort is Some {
        let shown = entry_views(res.abort->0.stack@);
        assert(shown.len() == res.abort->0.stack@.len());
        if 0 <= at < meter@.frames.len() {
            assert(shown[at] == res.abort->0.stack@[at]@);
        }
    }
    let tree = choose|tree: CallNode|
        #![trigger events_decoded(*decode, tree, res.root)]
        tree@ == collapsed(meter@.frames) && events_decoded(*decode, tree, res.root);
    assert(events_decoded(*decode, tree, res.root));
    assert(tree@.events.len() == tree.events@.len());
}

/// The tree of the answer is the finished tree of the tracer with its events
/// decoded, and is otherwise the same in all its calls.
pub proof fn law_answer_has_the_finished_tree<G, F: Fn(&String, &Vec<u8>) -> Json>(
    txn: &SignedTransaction,
    meter: TracerMeter<G>,
    status: &VMStatus,
    gas_used: u64,
    decode: &F,
    finished: (CallNode, Vec<AbortStackEntry>),
    res: TraceResponse,
)
    requires
        call_ensures(TracerMeter::<G>::finish, (meter,), finished),
        call_ensures(trace_answer::<G, F>, (txn, meter, status, gas_used, decode), res),
    ensures
        exists|tree: CallNode|
            #![trigger decoded_below(*decode, tree, res.root)]
            tree@ == finished.0@ && decoded_below(*decode, tree, res.root),
{
    let tree = choose|tree: CallNode|
        #![trigger events_decoded(*decode, tree, res.root)]
        tree@ == collapsed(meter@.frames) && events_decoded(*decode, tree, res.root);
    lemma_decoded_below(*decode, tree, res.root);
    assert(tree@ == finished.0@ && decoded_below(*decode, tree, res.root));
}

/// The abort of the answer is told as the outcome and the calls that were open at
/// the end are told.
pub proof fn law_answer_has_the_abort<G, F: Fn(&String, &Vec<u8>) -> Json>(
    txn: &SignedTransaction,
    meter: TracerMeter<G>,
    status: &VMStatus,
    gas_used: u64,
    decode: &F,
    finished: (CallNode, Vec<AbortStackEntry>),
    abort: AbortInfo,
    res: TraceResponse,
)
    requires
        call_ensures(TracerMeter::<G>::finish, (meter,), finished),
        call_ensures(build_abort, (status, finished.1), abort),
        call_ensures(trace_answer::<G, F>, (txn, meter, status, gas_used, decode), res),
    ensures
        res.abort is Some ==> res.abort->0@ == abort@,
{
}

/// A payload that was decoded is shown as it was decoded, whatever that is; one
/// that was not is shown as its bytes in hexadecimal.
pub proof fn law_event_data(value: Json, blob: &Vec<u8>, decoded: Json, raw: Json)
    requires
        call_ensures(event_data, (Some(value), blob), decoded),
        call_ensures(event_data, (None, blob), raw),
    ensures
        decoded@ == value@,
        raw@ is Text,
        raw@->Text_0 == "0x"@ + hex_text(blob@),
{
}

/// Decoding the events of a call leaves everything else of it, and gives each
/// event that had a payload what the decoder made of it; an event without one
/// stays. The same holds of each call below it.
pub proof fn law_decoding_changes_events_only<F: Fn(&String, &Vec<u8>) -> Json>(
    node: &mut CallNode,
    decode: &F,
    at: int,
    child: int,
)
    requires
        call_ensures(decode_events_in_tree::<F>, (node, decode), ()),
    ensures
        final(node).kind == old(node).kind,
        final(node).module == old(node).module,
        final(node).function == old(node).function,
        final(node).type_args == old(node).type_args,
        final(node).args == old(node).args,
        final(node).ret == old(node).ret,
        final(node).gas == old(node).gas,
        final(node).storage == old(node).storage,
        final(node).events@.len() == old(node).events@.len(),
        final(node).children@.len() == old(node).children@.len(),
        0 <= at < old(node).events@.len() ==> decoded_one(
            *decode,
            old(node).events@[at],
            final(node).events@[at],
        ),
        0 <= child < old(node).children@.len() ==> decoded_below(
            *decode,
            old(node).children@[child],
            final(node).children@[child],
        ),
{
    if 0 <= at < old(node).events@.len() {
        assert(event_decoded(*decode, old(node).events@[at], final(node).events@[at]));
    }
    if 0 <= child < old(node).children@.len() {
        assert(events_decoded(*decode, old(node).children@[child], final(node).children@[child]));
        lemma_decoded_below(*decode, old(node).children@[child], final(node).children@[child]);
    }
}

/// An event's payload, where it had one, is what the decoder made of it.
pub open spec fn decoded_one<F: Fn(&String, &Vec<u8>) -> Json>(
    decode: F,
    given: TracedEvent,
    shown: TracedEvent,
) -> bool {
    &&& shown.ty == given.ty
    &&& shown.raw is None
    &&& match given.raw {
        Some((tag, blob)) => call_ensures(decode, (&tag, &blob), shown.data),
        None => shown.data == given.data,
    }
}

/// Two trees agree but for the events of their calls, and these are decoded.
pub open spec fn decoded_below<F: Fn(&String, &Vec<u8>) -> Json>(
    decode: F,
    given: CallNode,
    shown: CallNode,
) -> bool
    decreases given,
{
    &&& shown.kind == given.kind
    &&& shown.module == given.module
    &&& shown.function == given.function
    &&& shown.type_args == given.type_args
    &&& shown.args == given.args
    &&& shown.ret == given.ret
    &&& shown.gas == given.gas
    &&& shown.storage == given.storage
    &&& shown.events@.len() == given.events@.len()
    &&& forall|i: int|
        0 <= i < given.events@.len() ==> decoded_one(
            decode,
            given.events@[i],
            #[trigger] shown.events@[i],
        )
    &&& shown.children@.len() == given.children@.len()
    &&& forall|i: int|
        0 <= i < given.children@.len() ==> decoded_below(
            decode,
            #[trigger] given.children@[i],
            shown.children@[i],
        )
}

/// What decoding gives at a call, it gives at all calls below it.
proof fn lemma_decoded_below<F: Fn(&String, &Vec<u8>) -> Json>(
    decode: F,
    given: CallNode,
    shown: CallNode,
)
    requires
        events_decoded(decode, given, shown),
    ensures
        decoded_below(decode, given, shown),
    decreases given,
{
    assert forall|i: int| 0 <= i < given.events@.len() implies decoded_one(
        decode,
        given.events@[i],
        #[trigger] shown.events@[i],
    ) by {
        assert(event_decoded(decode, given.events@[i], shown.events@[i]));
    }
    assert forall|i: int| 0 <= i < given.children@.len() implies decoded_below(
        decode,
        #[trigger] given.children@[i],
        shown.children@[i],
    ) by {
        assert(decreases_to!(given.children@ => given.children@[i]));
        assert(events_decoded(decode, given.children@[i], shown.children@[i]));
        lemma_decoded_below(decode, given.children@[i], shown.children@[i]);
    }
}

/// A call is seen as it is: each part of its view is that of its own part.
pub proof fn law_call_is_seen(node: CallNode, at: int)
    ensures
        node@.kind == node.kind@,
        node@.module is Some <==> node.module is Some,
        node.module is Some ==> node@.module->0 == node.module->0@,
        node@.function is Some <==> node.function is Some,
        node.function is Some ==> node@.function->0 == node.function->0@,
        node@.gas == node.gas,
        node@.type_args.len() == node.type_args@.len(),
        0 <= at < node.type_args@.len() ==> node@.type_args[at] == node.type_args@[at]@,
        node@.args.len() == node.args@.len(),
        0 <= at < node.args@.len() ==> node@.args[at].ty == node.args@[at].ty@
            && node@.args[at].value == node.args@[at].value@,
        node@.ret.len() == node.ret@.len(),
        0 <= at < node.ret@.len() ==> node@.ret[at].ty == node.ret@[at].ty@ && node@.ret[at].value
            == node.ret@[at].value@,
        node@.events.len() == node.events@.len(),
        0 <= at < node.events@.len() ==> {
            &&& node@.events[at].ty == node.events@[at].ty@
            &&& node@.events[at].data == node.events@[at].data@
            &&& match node.events@[at].raw {
                Some((tag, blob)) => node@.events[at].raw == Some((tag@, blob@)),
                None => node@.events[at].raw is None,
            }
        },
        node@.storage.len() == node.storage@.len(),
        0 <= at < node.storage@.len() ==> {
            &&& node@.storage[at].op == node.storage@[at].op@
            &&& node@.storage[at].ty == node.storage@[at].ty@
            &&& match node.storage@[at].address {
                Some(address) => node@.storage[at].address == Some(address@),
                None => node@.storage[at].address is None,
            }
        },
        node@.children.len() == node.children@.len(),
        0 <= at < node.children@.len() ==> node@.children[at] == node.children@[at]@,
{
}

/// A copy of a call, an event, an access, an abort or an answer shows the same.
pub proof fn law_copies_show_the_same(
    node: &CallNode,
    node_copy: CallNode,
    event: &TracedEvent,
    event_copy: TracedEvent,
    op: &StorageOp,
    op_copy: StorageOp,
    abort: &AbortInfo,
    abort_copy: AbortInfo,
    answer: &TraceResponse,
    answer_copy: TraceResponse,
)
    requires
        call_ensures(CallNode::clone, (node,), node_copy),
        call_ensures(TracedEvent::clone, (event,), event_copy),
        call_ensures(StorageOp::clone, (op,), op_copy),
        call_ensures(AbortInfo::clone, (abort,), abort_copy),
        call_ensures(TraceResponse::clone, (answer,), answer_copy),
    ensures
        node_copy@ == node@,
        event_copy.ty@ == event.ty@,
        event_copy.data@ == event.data@,
        op_copy.op@ == op.op@,
        op_copy.ty@ == op.ty@,
        abort_copy.code == abort.code,
        abort_copy.sub_status == abort.sub_status,
        abort_copy@ == abort@,
        answer_copy.txn_hash@ == answer.txn_hash@,
        answer_copy.success == answer.success,
        answer_copy.gas_used == answer.gas_used,
        answer_copy.vm_status@ == answer.vm_status@,
        answer_copy.abort is Some <==> answer.abort is Some,
        answer.abort is Some ==> answer_copy.abort->0@ == answer.abort->0@,
        answer_copy.root@ == answer.root@,
{
}

} // verus!
