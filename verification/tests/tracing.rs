use movelite::address::{AccountAddress, ModuleId};
use movelite::json::Json;
use movelite::session_wrapper::{trace_answer, trace_fault, TraceFault};
use movelite::trace::{
    build_abort, build_response, decode_events_in_tree, event_data, AbortLocation, AbortStackEntry,
    CallNode, Outcome, VMStatus,
};
use movelite::tracer::{delegate_charge, TracerMeter};
use movelite::transaction::{
    extract_entry, tracer_for, EntryFunction, SignedTransaction, TransactionExecutable,
    TransactionPayload,
};
use movelite::value::{unit_arg, TracedArg};

fn address(last: u8) -> AccountAddress {
    let mut bytes = [0u8; 32];
    bytes[31] = last;
    AccountAddress::new(bytes)
}

fn module(last: u8, name: &str) -> ModuleId {
    ModuleId::new(address(last), name.to_string())
}

fn arg(n: u8) -> TracedArg {
    TracedArg {
        ty: "u8".to_string(),
        value: Json::Text(n.to_string()),
    }
}

fn tracer() -> TracerMeter<()> {
    TracerMeter::new_function(
        (),
        module(0xca, "shop"),
        "buy".to_string(),
        vec!["u64".to_string()],
        1,
    )
}

fn entry(module: Option<&str>, function: Option<&str>, offset: Option<u64>) -> AbortStackEntry {
    AbortStackEntry {
        module: module.map(|s| s.to_string()),
        function: function.map(|s| s.to_string()),
        offset,
    }
}

fn status(outcome: Outcome) -> VMStatus {
    VMStatus {
        outcome,
        debug: "DEBUG".to_string(),
    }
}

fn call() -> EntryFunction {
    EntryFunction {
        module: module(0xca, "shop"),
        function: "buy".to_string(),
        ty_args: vec!["u64".to_string()],
        args: vec![vec![1]],
    }
}

fn transaction(payload: TransactionPayload) -> SignedTransaction {
    SignedTransaction {
        hash: vec![0xab, 0x01],
        sender: address(2),
        sequence_number: 3,
        max_gas_amount: 4,
        gas_unit_price: 5,
        expiration_timestamp_secs: 6,
        payload,
    }
}

fn total_gas(node: &CallNode) -> u64 {
    node.gas + node.children.iter().map(total_gas).sum::<u64>()
}

#[test]
fn charges_go_to_the_innermost_frame() {
    let mut t = tracer();
    t.charge_to_active(100, 90);
    t.charge_call(90, 85, &module(1, "coin"), "transfer", vec![arg(7)]);
    t.charge_to_active(85, 65);
    t.charge_native_execution(3);
    t.record_move_return(vec![arg(8)]);
    t.charge_to_active(65, 64);
    assert!(t.frames_fit());
    let (root, chain) = t.finish();
    assert_eq!(root.kind, "function");
    assert_eq!(root.module.as_deref(), Some("0xca::shop"));
    assert_eq!(root.function.as_deref(), Some("buy"));
    assert_eq!(root.type_args, vec!["u64"]);
    // The call's own instruction is the caller's.
    assert_eq!(root.gas, 16);
    assert_eq!(root.children.len(), 1);
    let child = &root.children[0];
    assert_eq!(child.module.as_deref(), Some("0x1::coin"));
    assert_eq!(child.function.as_deref(), Some("transfer"));
    assert_eq!(child.args, vec![arg(7)]);
    assert_eq!(child.ret, vec![arg(8)]);
    assert_eq!(child.gas, 23);
    assert_eq!(total_gas(&root), 39);
    assert_eq!(chain, vec![entry(Some("0xca::shop"), Some("buy"), None)]);
}

#[test]
fn a_charge_never_costs_less_than_nothing() {
    assert_eq!(delegate_charge(10, 4), 6);
    assert_eq!(delegate_charge(4, 10), 0);
}

#[test]
fn gas_stops_at_the_largest_amount() {
    let mut t = tracer();
    t.charge_to_active(u64::MAX, 0);
    t.charge_to_active(5, 0);
    assert!(t.frames_fit());
    t.charge_native_execution(1);
    assert!(!t.frames_fit());
    // The entry frame does not return.
    assert!(t.can_return(1, 0));

    let mut t = tracer();
    t.charge_call(0, 0, &module(1, "m"), "f", vec![]);
    t.charge_native_execution(u64::MAX);
    assert!(t.can_return(0, 0));
    assert!(!t.can_return(1, 0));
}

#[test]
fn siblings_are_kept_in_order() {
    let mut t = tracer();
    for name in ["a", "b"] {
        t.charge_call_generic(0, 0, &module(1, "m"), name, vec!["bool".to_string()], vec![]);
        t.charge_call(0, 0, &module(1, "m"), "inner", vec![]);
        t.record_move_return(vec![]);
        t.record_move_return(vec![arg(1), arg(2)]);
    }
    let (root, _) = t.finish();
    let names: Vec<_> = root.children.iter().map(|c| c.function.clone().unwrap()).collect();
    assert_eq!(names, vec!["a", "b"]);
    assert_eq!(root.children[0].type_args, vec!["bool"]);
    assert_eq!(root.children[0].children[0].ret, vec![unit_arg()]);
    assert_eq!(root.children[1].ret.len(), 2);
}

#[test]
fn natives_are_folded_in_with_their_values() {
    let mut t = tracer();
    t.charge_call(10, 9, &module(1, "hash"), "sha3_256", vec![arg(1)]);
    t.charge_native_execution(4);
    t.charge_native_function(9, 7, Some(vec![arg(5)]));
    let (root, chain) = t.finish();
    assert_eq!(chain.len(), 1);
    assert_eq!(root.gas, 1);
    let native = &root.children[0];
    assert_eq!(native.kind, "native");
    assert_eq!(native.ret, vec![arg(5)]);
    assert_eq!(native.gas, 6);
}

#[test]
fn a_native_without_a_call_only_charges_the_entry() {
    let mut t = tracer();
    t.charge_native_function(9, 7, None);
    let (root, _) = t.finish();
    assert_eq!(root.kind, "function");
    assert_eq!(root.gas, 2);
    assert!(root.ret.is_empty());
}

#[test]
fn the_entry_frame_is_never_popped() {
    let mut t = tracer();
    t.record_move_return(vec![]);
    t.pop_into_parent();
    let (root, chain) = t.finish();
    assert_eq!(root.ret, vec![unit_arg()]);
    assert_eq!(chain.len(), 1);
}

#[test]
fn names_that_are_no_identifiers_are_unknown() {
    let mut t = tracer();
    t.charge_call(0, 0, &module(1, "m"), "not a name", vec![]);
    let (root, _) = t.finish();
    assert_eq!(root.children[0].function.as_deref(), Some("unknown"));
}

#[test]
fn storage_accesses_are_recorded_where_they_succeed() {
    let mut t = tracer();
    t.charge_borrow_global(9, 8, false, "A".to_string(), true);
    t.charge_borrow_global(8, 7, true, "B".to_string(), true);
    t.charge_borrow_global(7, 6, true, "C".to_string(), false);
    t.charge_move_from(6, 5, "D".to_string());
    t.charge_move_to(5, 4, "E".to_string(), true);
    t.charge_move_to(4, 3, "F".to_string(), false);
    t.charge_load_resource(3, 2, &address(0x10), "G".to_string());
    let (root, _) = t.finish();
    let got: Vec<_> = root
        .storage
        .iter()
        .map(|s| (s.op.as_str(), s.ty.as_str(), s.address.as_deref()))
        .collect();
    assert_eq!(
        got,
        vec![
            ("borrow_global", "A", None),
            ("borrow_global_mut", "B", None),
            ("move_from", "D", None),
            ("move_to", "E", None),
            ("load_resource", "G", Some("0x10")),
        ]
    );
    assert_eq!(root.gas, 7);
}

#[test]
fn events_go_to_the_caller_of_the_event_module() {
    let mut t = tracer();
    t.charge_call(0, 0, &module(1, "event"), "emit", vec![]);
    t.charge_call(0, 0, &module(1, "event"), "write_to_store", vec![]);
    t.record_event("0xca::shop::Sold", vec![1, 2]);
    let (root, _) = t.finish();
    assert_eq!(root.events.len(), 1);
    assert_eq!(root.events[0].ty, "0xca::shop::Sold");
    assert_eq!(root.events[0].data, Json::Null);
    assert_eq!(
        root.events[0].raw,
        Some(("0xca::shop::Sold".to_string(), vec![1, 2]))
    );
    assert!(root.children[0].events.is_empty());

    let mut t = tracer();
    t.charge_call(0, 0, &module(1, "coin"), "deposit", vec![]);
    t.charge_call(0, 0, &module(1, "event"), "emit", vec![]);
    t.record_event("E", vec![]);
    let (root, _) = t.finish();
    assert!(root.events.is_empty());
    assert_eq!(root.children[0].events.len(), 1);
}

#[test]
fn a_whole_run_is_mirrored_by_its_tree() {
    let mut t = tracer();
    t.record_entry_args(Some(&module(0xca, "shop")), "buy", vec![arg(0), arg(2)]);
    t.record_event("A", vec![]);
    t.charge_call(10, 9, &module(1, "event"), "emit", vec![]);
    t.record_event("B", vec![]);
    t.charge_call(9, 8, &module(1, "coin"), "deposit", vec![]);
    t.record_event("C", vec![]);
    t.charge_call(8, 7, &module(1, "event"), "emit", vec![]);
    t.record_event("D", vec![]);
    t.record_move_return(vec![]);
    t.record_move_return(vec![]);
    t.record_event("E", vec![]);
    t.record_move_return(vec![]);
    let (root, chain) = t.finish();
    let names = |node: &CallNode| -> Vec<String> {
        node.events.iter().map(|e| e.ty.clone()).collect()
    };
    assert_eq!(chain.len(), 1);
    assert_eq!(root.args, vec![arg(2)]);
    assert_eq!(names(&root), vec!["A", "B", "E"]);
    let emit = &root.children[0];
    assert!(emit.events.is_empty());
    let deposit = &emit.children[0];
    assert_eq!(names(deposit), vec!["C", "D"]);
    assert!(deposit.children[0].events.is_empty());
    assert_eq!((root.gas, emit.gas, deposit.gas), (1, 1, 1));
}

#[test]
fn an_event_of_the_event_module_itself_goes_to_the_entry() {
    let mut t = TracerMeter::new_function((), module(1, "event"), "emit".to_string(), vec![], 0);
    t.record_event("E", vec![]);
    let (root, _) = t.finish();
    assert_eq!(root.events.len(), 1);
}

#[test]
fn entry_arguments_leave_the_signers_out() {
    let mut t = tracer();
    t.record_entry_args(Some(&module(1, "transaction_validation")), "prologue", vec![arg(0)]);
    t.record_entry_args(None, "buy", vec![arg(0)]);
    t.record_entry_args(Some(&module(0xca, "shop")), "sell", vec![arg(0)]);
    t.record_entry_args(Some(&module(0xca, "shop")), "buy", vec![arg(1), arg(2)]);
    // Only the first time counts.
    t.record_entry_args(Some(&module(0xca, "shop")), "buy", vec![arg(3)]);
    let (root, _) = t.finish();
    assert_eq!(root.args, vec![arg(2)]);
}

#[test]
fn entry_arguments_are_not_taken_from_nested_calls() {
    let mut t = tracer();
    t.charge_call(0, 0, &module(0xca, "shop"), "buy", vec![]);
    t.record_entry_args(Some(&module(0xca, "shop")), "buy", vec![arg(1)]);
    let (root, _) = t.finish();
    assert!(root.args.is_empty());
    assert!(root.children[0].args.is_empty());
}

#[test]
fn scripts_keep_all_their_arguments() {
    let mut t = TracerMeter::new_script((), usize::MAX);
    t.record_entry_args(Some(&module(1, "m")), "main", vec![arg(9)]);
    t.record_entry_args(None, "main", vec![arg(1), arg(2)]);
    let (root, chain) = t.finish();
    assert_eq!(root.kind, "script");
    assert_eq!(root.module, None);
    assert_eq!(root.args, vec![arg(1), arg(2)]);
    assert_eq!(chain, vec![entry(None, None, None)]);
}

#[test]
fn open_frames_are_the_abort_stack() {
    let mut t = tracer();
    t.charge_call(0, 0, &module(1, "a"), "done", vec![]);
    t.record_move_return(vec![]);
    t.charge_call(0, 0, &module(1, "b"), "outer", vec![]);
    t.charge_call(0, 0, &module(1, "c"), "inner", vec![]);
    let (root, chain) = t.finish();
    assert_eq!(
        chain,
        vec![
            entry(Some("0x1::c"), Some("inner"), None),
            entry(Some("0x1::b"), Some("outer"), None),
            entry(Some("0xca::shop"), Some("buy"), None),
        ]
    );
    assert_eq!(root.children.len(), 2);
    assert_eq!(root.children[1].children[0].function.as_deref(), Some("inner"));
}

#[test]
fn aborts_are_described() {
    let stack = || {
        vec![
            entry(Some("0x1::c"), Some("inner"), None),
            entry(Some("0xca::shop"), Some("buy"), None),
        ]
    };
    let aborted = status(Outcome::MoveAbort(AbortLocation::Module(module(9, "z")), 77));
    let info = build_abort(&aborted, stack());
    assert_eq!((info.code, info.sub_status), (77, None));
    assert_eq!(info.module.as_deref(), Some("0x9::z"));
    assert_eq!(info.stack, stack());

    let failed = status(Outcome::ExecutionFailure {
        status_code: 4_000,
        sub_status: Some(1),
        location: AbortLocation::Script,
        code_offset: 12,
    });
    let info = build_abort(&failed, stack());
    assert_eq!((info.code, info.sub_status), (4_000, Some(1)));
    assert_eq!(info.module.as_deref(), Some("0x1::c"));
    assert_eq!(info.stack[0].offset, Some(12));
    assert_eq!(info.stack[1].offset, None);
    assert_eq!(build_abort(&failed, vec![]).module, None);

    let error = status(Outcome::Error {
        status_code: 2,
        sub_status: None,
    });
    let info = build_abort(&error, stack());
    assert_eq!((info.code, info.sub_status), (2, None));
    assert_eq!(info.stack[0].offset, None);
    assert_eq!(build_abort(&status(Outcome::Executed), vec![]).code, 0);
}

#[test]
fn answers_report_the_outcome() {
    let (root, chain) = tracer().finish();
    let good = build_response("0x1".to_string(), &status(Outcome::Executed), 5, root, chain);
    assert!(good.success);
    assert_eq!(good.vm_status, "Executed successfully");
    assert_eq!(good.abort, None);
    assert_eq!(good.gas_used, 5);

    let (root, chain) = tracer().finish();
    let bad = status(Outcome::MoveAbort(AbortLocation::Script, 1));
    let bad = build_response("0x1".to_string(), &bad, 5, root, chain);
    assert!(!bad.success);
    assert_eq!(bad.vm_status, "DEBUG");
    assert_eq!(bad.abort.unwrap().module.as_deref(), Some("0xca::shop"));
}

#[test]
fn events_are_decoded_in_the_whole_tree() {
    let mut t = tracer();
    t.record_event("A", vec![1]);
    t.charge_call(0, 0, &module(1, "m"), "f", vec![]);
    t.record_event("B", vec![2, 3]);
    let (mut root, _) = t.finish();
    let decode = |tag: &String, blob: &Vec<u8>| Json::Text(format!("{}:{}", tag, blob.len()));
    decode_events_in_tree(&mut root, &decode);
    assert_eq!(root.events[0].data, Json::Text("A:1".to_string()));
    assert_eq!(root.events[0].raw, None);
    assert_eq!(root.children[0].events[0].data, Json::Text("B:2".to_string()));
    // Once is enough.
    decode_events_in_tree(&mut root, &|_: &String, _: &Vec<u8>| Json::Null);
    assert_eq!(root.events[0].data, Json::Text("A:1".to_string()));
}

#[test]
fn payloads_that_cannot_be_decoded_are_shown_in_hex() {
    assert_eq!(event_data(None, &vec![0x0f, 0xa0]), Json::Text("0x0fa0".to_string()));
    assert_eq!(event_data(Some(Json::Bool(true)), &vec![1]), Json::Bool(true));
}

#[test]
fn entries_are_found_in_every_payload() {
    let direct = TransactionPayload::EntryFunction(call());
    let nested = TransactionPayload::Payload {
        executable: TransactionExecutable::EntryFunction(call()),
    };
    for payload in [direct, nested] {
        let seed = extract_entry(&payload);
        assert!(!seed.is_script);
        assert_eq!(seed.module, Some(module(0xca, "shop")));
        assert_eq!(seed.function.as_deref(), Some("buy"));
        assert_eq!(seed.ty_args, vec!["u64"]);
        assert_eq!(seed.user_arg_count, 1);
    }
    let others = [
        TransactionPayload::Script,
        TransactionPayload::Other,
        TransactionPayload::Payload {
            executable: TransactionExecutable::Other,
        },
    ];
    for payload in others {
        let seed = extract_entry(&payload);
        assert!(seed.is_script);
        assert_eq!(seed.module, None);
        assert_eq!(seed.user_arg_count, usize::MAX);
        assert_eq!(tracer_for((), &payload).finish().0.kind, "script");
    }
}

#[test]
fn a_trace_is_answered_from_beginning_to_end() {
    let txn = transaction(TransactionPayload::EntryFunction(call()));
    let mut meter = tracer_for("base", &txn.payload);
    assert_eq!(*meter.base(), "base");
    *meter.base_mut() = "spent";
    assert_eq!(*meter.base(), "spent");
    meter.record_entry_args(Some(&module(0xca, "shop")), "buy", vec![arg(0), arg(4)]);
    meter.record_event("E", vec![0xff]);
    let decode = |_: &String, blob: &Vec<u8>| event_data(None, blob);
    let outcome = status(Outcome::Executed);
    let answer = trace_answer(&txn, meter, &outcome, 12, &decode);
    assert_eq!(answer.txn_hash, "0xab01");
    assert!(answer.success);
    assert_eq!(answer.root.args, vec![arg(4)]);
    assert_eq!(answer.root.events[0].data, Json::Text("0xff".to_string()));
}

#[test]
fn answers_are_copied_whole() {
    let mut t = tracer();
    t.record_event("A", vec![1]);
    t.charge_move_from(3, 2, "B".to_string());
    t.charge_call(2, 1, &module(1, "m"), "f", vec![arg(1)]);
    let (root, chain) = t.finish();
    let aborted = status(Outcome::MoveAbort(AbortLocation::Script, 1));
    let answer = build_response("0x1".to_string(), &aborted, 5, root, chain);
    assert!(answer.abort.is_some());
    assert_eq!(answer.clone(), answer);
}

#[test]
fn traces_that_cannot_be_taken_say_why() {
    assert_eq!(
        trace_fault(TraceFault::Execution("X".to_string())),
        "trace execution error: X"
    );
    assert_eq!(
        trace_fault(TraceFault::Output("X".to_string())),
        "failed to materialize trace output: X"
    );
}
