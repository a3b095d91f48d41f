use movelite::address::AccountAddress;
use movelite::http::StatusCode;
use movelite::json::Json;
use movelite::server::{get_transaction_by_hash, ledger_info, mint, submit_transaction};
use movelite::session_wrapper::{
    create_session_step, fork_action, module_read, settle, temp_session_name, SessionAction, SessionEvent,
    SessionOptions, SessionWrapper, MAX_RECORDS,
};
use movelite::trace::{AbortLocation, Outcome, TraceResponse, VMStatus};
use movelite::tracer::TracerMeter;
use movelite::transaction::{build_committed_record, SignedTransaction, TransactionPayload};
use std::path::PathBuf;

fn session() -> SessionWrapper<&'static str> {
    SessionWrapper::new("inner", PathBuf::from("/tmp/s"), 4)
}

fn transaction(hash: u8) -> SignedTransaction {
    let mut sender = [0u8; 32];
    sender[31] = 2;
    SignedTransaction {
        hash: vec![hash],
        sender: AccountAddress::new(sender),
        sequence_number: 3,
        max_gas_amount: 400,
        gas_unit_price: 100,
        expiration_timestamp_secs: 6,
        payload: TransactionPayload::Script,
    }
}

fn status(success: bool) -> VMStatus {
    VMStatus {
        outcome: if success {
            Outcome::Executed
        } else {
            Outcome::MoveAbort(AbortLocation::Script, 1)
        },
        debug: "DEBUG".to_string(),
    }
}

fn traced(hash: &str, success: bool) -> TraceResponse {
    TraceResponse {
        txn_hash: hash.to_string(),
        success,
        gas_used: 9,
        vm_status: if success { "Executed successfully" } else { "DEBUG" }.to_string(),
        abort: None,
        root: TracerMeter::new_script((), 0).finish().0,
    }
}

fn text(json: &Json, key: &str) -> String {
    json.get(key).and_then(|v| v.as_text()).unwrap().to_string()
}

fn options(fork_url: Option<&str>, chain_id: Option<u8>, reset: bool) -> SessionOptions {
    SessionOptions {
        fork_url: fork_url.map(|u| u.to_string()),
        fork_version: None,
        chain_id,
        session_dir: None,
        reset,
    }
}

#[test]
fn a_new_session_has_seen_nothing() {
    let s = session();
    assert_eq!(*s.session(), "inner");
    assert_eq!(s.session_path(), &PathBuf::from("/tmp/s"));
    assert_eq!(s.get_chain_id(), 4);
    assert_eq!(s.get_ops_count(), 0);
    assert_eq!(s.get_transaction("0x1"), None);
}

#[test]
fn submissions_are_recorded_and_answered() {
    let mut s = session();
    let pending = submit_transaction(&mut s, &transaction(0xaa), Ok((status(true), 9))).unwrap();
    assert_eq!(text(&pending, "type"), "pending_transaction");
    assert_eq!(text(&pending, "hash"), "0xaa");
    assert_eq!(text(&pending, "sender"), format!("0x{}2", "0".repeat(63)));
    assert_eq!(text(&pending, "sequence_number"), "3");
    assert_eq!(text(&pending, "max_gas_amount"), "400");
    assert_eq!(text(&pending, "gas_unit_price"), "100");
    assert_eq!(text(&pending, "expiration_timestamp_secs"), "6");
    assert_eq!(pending.get("payload"), Some(&Json::Object(vec![])));
    assert_eq!(pending.get("signature"), Some(&Json::Object(vec![])));
    assert_eq!(s.get_ops_count(), 1);

    let record = get_transaction_by_hash(&s, "0xaa").unwrap();
    assert_eq!(text(&record, "type"), "user_transaction");
    assert_eq!(record.get("success"), Some(&Json::Bool(true)));
    assert_eq!(text(&record, "vm_status"), "Executed successfully");
    assert_eq!(text(&record, "version"), "1");
    assert_eq!(text(&record, "gas_used"), "9");
    assert_eq!(text(&record, "timestamp"), "0");
    assert_eq!(text(&record, "version"), ledger_info(&s, None).ledger_version);
}

#[test]
fn aborted_submissions_are_recorded_too() {
    let mut s = session();
    assert!(submit_transaction(&mut s, &transaction(1), Ok((status(false), 9))).is_ok());
    let record = get_transaction_by_hash(&s, "0x01").unwrap();
    assert_eq!(record.get("success"), Some(&Json::Bool(false)));
    assert_eq!(text(&record, "vm_status"), "DEBUG");
}

#[test]
fn submissions_that_did_not_run_leave_no_mark() {
    let mut s = session();
    let (code, body) =
        submit_transaction(&mut s, &transaction(1), Err("broken".to_string())).unwrap_err();
    assert_eq!(code, StatusCode::INTERNAL_SERVER_ERROR);
    assert_eq!(text(&body, "message"), "broken");
    assert_eq!(s.get_ops_count(), 0);
    assert_eq!(
        get_transaction_by_hash(&s, "0x01").unwrap_err(),
        (StatusCode::NOT_FOUND, "Transaction not found: 0x01".to_string())
    );
}

#[test]
fn a_committed_trace_leaves_the_books_of_a_submission() {
    let mut submitted = session();
    submit_transaction(&mut submitted, &transaction(7), Ok((status(true), 9))).unwrap();
    let mut traced_session = session();
    let answer = traced_session
        .execute_transaction_traced(&transaction(7), true, Ok(traced("0x07", true)))
        .unwrap();
    assert_eq!(answer.txn_hash, "0x07");
    assert_eq!(traced_session.get_ops_count(), 1);
    assert_eq!(
        traced_session.get_transaction("0x07"),
        submitted.get_transaction("0x07")
    );
    assert_eq!(
        traced_session.get_transaction("0x07").unwrap(),
        build_committed_record(&transaction(7), &traced("0x07", true), 1)
    );
}

#[test]
fn a_trace_that_commits_nothing_leaves_no_mark() {
    let mut s = session();
    assert!(s
        .execute_transaction_traced(&transaction(7), false, Ok(traced("0x07", true)))
        .is_ok());
    assert_eq!(
        s.execute_transaction_traced(&transaction(7), true, Err("no".to_string())),
        Err("no".to_string())
    );
    assert_eq!(s.get_ops_count(), 0);
    assert_eq!(s.get_transaction("0x07"), None);
}

#[test]
fn funding_counts_as_an_operation() {
    let mut s = session();
    let answer = mint(&mut s, "0x1", 500, Ok(())).unwrap();
    assert_eq!(text(&answer, "status"), "ok");
    assert_eq!(text(&answer, "address"), "0x1");
    assert_eq!(answer.get("amount"), Some(&Json::Number("500".to_string())));
    assert_eq!(s.get_ops_count(), 1);
    assert_eq!(
        mint(&mut s, "0x1", 500, Err("poor".to_string())).unwrap_err(),
        (StatusCode::INTERNAL_SERVER_ERROR, "poor".to_string())
    );
    assert_eq!(s.get_ops_count(), 1);
}

#[test]
fn a_full_session_drops_its_earliest_record() {
    let mut s = session();
    for i in 0..MAX_RECORDS {
        s.store_transaction(format!("h{}", i), Json::Number(i.to_string()));
    }
    assert!(s.get_transaction("h0").is_some());
    s.store_transaction("new".to_string(), Json::Null);
    assert_eq!(s.get_transaction("h0"), None);
    assert_eq!(s.get_transaction("h1"), Some(Json::Number("1".to_string())));
    assert_eq!(s.get_transaction("new"), Some(Json::Null));
}

#[test]
fn a_record_is_replaced_under_its_hash() {
    let mut s = session();
    s.store_transaction("h".to_string(), Json::Null);
    s.store_transaction("other".to_string(), Json::Bool(false));
    s.store_transaction("h".to_string(), Json::Bool(true));
    assert_eq!(s.get_transaction("h"), Some(Json::Bool(true)));
    assert_eq!(s.get_transaction("other"), Some(Json::Bool(false)));
}

#[test]
fn operations_are_counted_one_by_one() {
    let mut s = session();
    s.increment_ops();
    s.increment_ops();
    assert_eq!(s.get_ops_count(), 2);
    let info = ledger_info(&s, Some(5));
    assert_eq!(info.chain_id, 4);
    assert_eq!(info.ledger_version, "2");
    assert_eq!(info.block_height, "2");
    assert_eq!(info.ledger_timestamp, "5");
    assert_eq!(info.epoch, "1");
    assert_eq!(info.node_role, "full_node");
    assert_eq!(ledger_info(&s, None).ledger_timestamp, "0");
    assert_eq!(
        ledger_info(&s, Some((1u128 << 64) + 3)).ledger_timestamp,
        "3"
    );
}

#[test]
fn only_a_reset_removes_a_session() {
    let step = |reset, exists| {
        create_session_step(
            &options(None, None, reset),
            "/d",
            SessionEvent::Started { exists },
        )
    };
    assert!(matches!(step(true, true), SessionAction::Remove));
    assert!(matches!(step(true, false), SessionAction::Probe));
    assert!(matches!(step(false, true), SessionAction::Probe));
    assert!(matches!(
        create_session_step(&options(None, None, true), "/d", SessionEvent::Removed),
        SessionAction::Probe
    ));
}

#[test]
fn a_session_is_loaded_made_or_refused() {
    let probed = |fork: Option<&str>, has_config, occupied| {
        create_session_step(
            &options(fork, None, false),
            "/d",
            SessionEvent::Probed {
                has_config,
                occupied,
            },
        )
    };
    assert!(matches!(probed(None, true, true), SessionAction::Load));
    assert!(matches!(probed(None, false, false), SessionAction::InitClean));
    match probed(None, false, true) {
        SessionAction::Fail(message) => assert_eq!(
            message,
            "Session directory /d exists but is not a valid movelite session. \
             Use --reset to replace it."
        ),
        other => panic!("{:?}", other),
    }
    match probed(Some("https://node.example/v1"), false, false) {
        SessionAction::InitRemote { url, version } => {
            assert_eq!(url.as_str(), "https://node.example/v1");
            assert_eq!(version, 0);
        }
        other => panic!("{:?}", other),
    }
    match probed(Some("node"), false, false) {
        SessionAction::Fail(message) => {
            assert_eq!(message, "relative URL without a base")
        }
        other => panic!("{:?}", other),
    }
}

#[test]
fn a_fork_may_name_its_version() {
    let mut opts = options(Some("https://node.example/"), None, false);
    opts.fork_version = Some(12);
    let event = SessionEvent::Probed {
        has_config: false,
        occupied: false,
    };
    match create_session_step(&opts, "/d", event) {
        SessionAction::InitRemote { version, .. } => assert_eq!(version, 12),
        other => panic!("{:?}", other),
    }
}

#[test]
fn a_fork_follows_from_its_url() {
    let url = url::Url::parse("https://node.example/").unwrap();
    assert!(matches!(
        fork_action(Ok(url), Some(3)),
        SessionAction::InitRemote { version: 3, .. }
    ));
    match fork_action(Err("why".to_string()), None) {
        SessionAction::Fail(message) => assert_eq!(message, "why"),
        other => panic!("{:?}", other),
    }
}

#[test]
fn a_session_may_pose_as_a_chain() {
    let opened =
        |chain| create_session_step(&options(None, chain, false), "/d", SessionEvent::Opened);
    assert!(matches!(opened(None), SessionAction::Finish));
    assert!(matches!(opened(Some(4)), SessionAction::SetChainId(4)));
    match opened(Some(0)) {
        SessionAction::Fail(message) => assert_eq!(message, "--chain-id must be greater than 0"),
        other => panic!("{:?}", other),
    }
    assert!(matches!(
        create_session_step(&options(None, Some(4), false), "/d", SessionEvent::ChainIdSet),
        SessionAction::Finish
    ));
}

#[test]
fn opening_a_session_comes_to_an_end() {
    let opts = options(None, Some(4), true);
    let mut event = SessionEvent::Started { exists: true };
    let mut taken = Vec::new();
    loop {
        let action = create_session_step(&opts, "/d", event);
        taken.push(format!("{:?}", action));
        event = match action {
            SessionAction::Remove => SessionEvent::Removed,
            SessionAction::Probe => SessionEvent::Probed {
                has_config: false,
                occupied: false,
            },
            SessionAction::InitClean => SessionEvent::Opened,
            SessionAction::SetChainId(_) => SessionEvent::ChainIdSet,
            SessionAction::Finish => break,
            other => panic!("{:?}", other),
        };
    }
    assert_eq!(
        taken,
        vec!["Remove", "Probe", "InitClean", "SetChainId(4)", "Finish"]
    );
}

#[test]
fn temporary_sessions_are_named_and_settled() {
    assert_eq!(
        temp_session_name("trace", 42, 1_000_000_007),
        "movelite-trace-42-1000000007"
    );
    assert_eq!(settle(Ok(1), Ok(()), "trace", "/t"), Ok(1));
    assert_eq!(
        settle(Ok(1), Err("busy".to_string()), "simulation", "/t"),
        Err("simulation completed but failed to remove temp session /t: busy".to_string())
    );
    assert_eq!(
        settle::<u8>(Err("run".to_string()), Err("busy".to_string()), "trace", "/t"),
        Err("run".to_string())
    );
    assert_eq!(
        settle::<u8>(Err("run".to_string()), Ok(()), "trace", "/t"),
        Err("run".to_string())
    );
}

#[test]
fn modules_that_cannot_be_read_say_why() {
    assert_eq!(module_read(Ok(Some(vec![1]))), Ok(Some(vec![1])));
    assert_eq!(module_read(Ok(None)), Ok(None));
    assert_eq!(
        module_read(Err("X".to_string())),
        Err("Failed to read module: X".to_string())
    );
}
