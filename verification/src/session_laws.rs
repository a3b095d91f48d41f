//! What holds of a session's records, and of opening a session, whatever the
//! options are.
use crate::json::Json;
use crate::session_wrapper::{create_session_step, fork_action, module_read, settle,
    temp_session_name, trace_fault, SessionAction, SessionEvent, SessionOptions, SessionWrapper,
    TraceFault};
use crate::text::{decimal, law_decimal_injective, lemma_decimal_digits};
use crate::urls::{parsed_url, url_parse_error};
use std::path::PathBuf;
use vstd::prelude::*;

verus! {

/// A place that holds a session's configuration is loaded, whatever the options
/// are.
pub proof fn law_configured_place_is_loaded(
    options: &SessionOptions,
    path: &str,
    occupied: bool,
    action: SessionAction,
)
    requires
        call_ensures(
            create_session_step,
            (options, path, (SessionEvent::Probed { has_config: true, occupied })),
            action,
        ),
    ensures
        action is Load,
{
}

/// A session is loaded only from a place that holds its configuration.
pub proof fn law_loading_needs_configuration(
    options: &SessionOptions,
    path: &str,
    event: SessionEvent,
    action: SessionAction,
)
    requires
        call_ensures(create_session_step, (options, path, event), action),
        action is Load,
    ensures
        event is Probed,
        event->has_config,
{
}

/// A place that holds something else than a session is refused, whatever the
/// options are, and the message names the place.
pub proof fn law_occupied_place_is_refused(
    options: &SessionOptions,
    path: &str,
    action: SessionAction,
)
    requires
        call_ensures(
            create_session_step,
            (options, path, (SessionEvent::Probed { has_config: false, occupied: true })),
            action,
        ),
    ensures
        action is Fail,
        action->Fail_0@ == "Session directory "@ + path@
            + " exists but is not a valid movelite session. Use --reset to replace it."@,
{
}

/// An empty place gets a session from a clean genesis where no network is named,
/// and a fork of the network that is named, at the version that is asked for or
/// at version zero. A name that is no URL is refused for that.
pub proof fn law_empty_place_gets_a_session(
    options: &SessionOptions,
    path: &str,
    action: SessionAction,
)
    requires
        call_ensures(
            create_session_step,
            (options, path, (SessionEvent::Probed { has_config: false, occupied: false })),
            action,
        ),
    ensures
        action is InitClean <==> options.fork_url is None,
        options.fork_url is Some && parsed_url(options.fork_url->0@) is Some ==> {
            &&& action is InitRemote
            &&& Some(action->url) == parsed_url(options.fork_url->0@)
            &&& options.fork_version is Some ==> action->version == options.fork_version->0
            &&& options.fork_version is None ==> action->version == 0
        },
        options.fork_url is Some && parsed_url(options.fork_url->0@) is None ==> {
            &&& action is Fail
            &&& action->Fail_0@ == url_parse_error(options.fork_url->0@)
        },
{
}

/// At the start, what is at the place is removed exactly on a reset of something
/// that exists; else, and after the removal, the place is looked at.
pub proof fn law_start_of_opening(
    options: &SessionOptions,
    path: &str,
    event: SessionEvent,
    action: SessionAction,
)
    requires
        call_ensures(create_session_step, (options, path, event), action),
        event is Started || event is Removed,
    ensures
        action is Remove <==> event is Started && options.reset && event->exists,
        action is Probe <==> !(action is Remove),
{
}

/// An open session poses as the chain that was asked for; chain zero is refused;
/// where none was asked for it is ready as it is. Once it poses, it is ready.
pub proof fn law_end_of_opening(
    options: &SessionOptions,
    path: &str,
    event: SessionEvent,
    action: SessionAction,
)
    requires
        call_ensures(create_session_step, (options, path, event), action),
        event is Opened || event is ChainIdSet,
    ensures
        action is Finish <==> event is ChainIdSet || options.chain_id is None,
        action is SetChainId <==> event is Opened && options.chain_id is Some
            && options.chain_id->0 > 0,
        action is SetChainId ==> Some(action->SetChainId_0) == options.chain_id,
        action is Fail <==> event is Opened && options.chain_id == Some(0u8),
        action is Fail ==> action->Fail_0@ == "--chain-id must be greater than 0"@,
{
}

/// Opening fails in three ways only: on a place that holds something else than a
/// session, on a network whose name is no URL, and on chain zero.
pub proof fn law_opening_fails_for_three_reasons(
    options: &SessionOptions,
    path: &str,
    event: SessionEvent,
    action: SessionAction,
)
    requires
        call_ensures(create_session_step, (options, path, event), action),
        action is Fail,
    ensures
        ({
            ||| event == (SessionEvent::Probed { has_config: false, occupied: true })
            ||| event == (SessionEvent::Probed { has_config: false, occupied: false })
                && options.fork_url is Some && parsed_url(options.fork_url->0@) is None
            ||| event == SessionEvent::Opened && options.chain_id == Some(0u8)
        }),
{
}

/// A fork is made of the URL that was read, and a URL that could not be read is
/// refused with the reason.
pub proof fn law_fork_keeps_its_url(
    url: Result<url::Url, String>,
    version: Option<u64>,
    action: SessionAction,
)
    requires
        call_ensures(fork_action, (url, version), action),
    ensures
        action is InitRemote <==> url is Ok,
        action is Fail <==> url is Err,
        url is Ok ==> action->url == url->Ok_0,
        url is Err ==> action->Fail_0 == url->Err_0,
        url is Ok && version is Some ==> action->version == version->0,
        url is Ok && version is None ==> action->version == 0,
{
}

/// A new session has no records and has seen no operation.
pub proof fn law_new_session_is_empty<S>(
    session: S,
    session_path: PathBuf,
    chain_id: u64,
    res: SessionWrapper<S>,
)
    requires
        call_ensures(SessionWrapper::<S>::new, (session, session_path, chain_id), res),
    ensures
        res@.ops_count == 0,
        res@.chain_id == chain_id,
        res@.order.len() == 0,
        forall|hash: Seq<char>| !#[trigger] res@.records.contains_key(hash),
        res.inner_session() == session,
        res.path() == session_path,
        res@.valid(),
{
}

/// A record that was stored is found; a session with fewer than ten thousand
/// records keeps all others, and a full one loses its earliest and no other. The
/// operation count, the chain and the session itself stay.
pub proof fn law_storing_keeps_ten_thousand<S>(
    session: &mut SessionWrapper<S>,
    hash: String,
    record: Json,
    other: Seq<char>,
)
    requires
        old(session)@.valid(),
        call_ensures(SessionWrapper::<S>::store_transaction, (session, hash, record), ()),
    ensures
        final(session)@.records.contains_key(hash@),
        final(session)@.records[hash@] == record@,
        old(session)@.order.len() <= 10_000,
        final(session)@.order.len() <= 10_000,
        other != hash@ && (old(session)@.order.len() < 10_000 || other != old(session)@.order[0])
            ==> {
            &&& final(session)@.records.contains_key(other)
                == old(session)@.records.contains_key(other)
            &&& old(session)@.records.contains_key(other) ==> final(session)@.records[other]
                == old(session)@.records[other]
        },
        other != hash@ && old(session)@.order.len() == 10_000 && other == old(session)@.order[0]
            ==> !final(session)@.records.contains_key(other),
        final(session)@.ops_count == old(session)@.ops_count,
        final(session)@.chain_id == old(session)@.chain_id,
        final(session).inner_session() == old(session).inner_session(),
        final(session).path() == old(session).path(),
{
}

/// A record that replaces the one under its hash does not move it, as long as
/// there is room.
pub proof fn law_replaced_record_stays_in_place<S>(
    session: &mut SessionWrapper<S>,
    hash: String,
    record: Json,
)
    requires
        old(session)@.valid(),
        old(session)@.records.contains_key(hash@),
        old(session)@.order.len() < 10_000,
        call_ensures(SessionWrapper::<S>::store_transaction, (session, hash, record), ()),
    ensures
        final(session)@.order == old(session)@.order,
{
}

/// In a full session the earliest record makes room also for one that replaces
/// another: the others keep their order, and the earliest, where it is replaced
/// itself, becomes the latest.
pub proof fn law_replaced_record_in_a_full_session<S>(
    session: &mut SessionWrapper<S>,
    hash: String,
    record: Json,
)
    requires
        old(session)@.valid(),
        old(session)@.records.contains_key(hash@),
        old(session)@.order.len() == 10_000,
        call_ensures(SessionWrapper::<S>::store_transaction, (session, hash, record), ()),
    ensures
        hash@ != old(session)@.order[0] ==> final(session)@.order == old(session)@.order.skip(1),
        hash@ == old(session)@.order[0] ==> final(session)@.order == old(session)@.order.skip(
            1,
        ).push(hash@),
{
    let before = old(session)@;
    let rest = before.order.drop_first();
    assert(rest =~= before.order.skip(1));
    assert(before.order.contains(hash@));
    let i = choose|i: int| 0 <= i < before.order.len() && before.order[i] == hash@;
    if i > 0 {
        assert(rest[i - 1] == hash@);
    }
    if hash@ == before.order[0] && rest.contains(hash@) {
        let j = choose|j: int| 0 <= j < rest.len() && rest[j] == hash@;
        assert(before.order[j + 1] == before.order[0]);
    }
}

/// A hash that is new to a session becomes the latest; the hashes that stay keep
/// their order.
pub proof fn law_order_of_records<S>(
    session: &mut SessionWrapper<S>,
    hash: String,
    record: Json,
)
    requires
        old(session)@.valid(),
        !old(session)@.records.contains_key(hash@),
        call_ensures(SessionWrapper::<S>::store_transaction, (session, hash, record), ()),
    ensures
        final(session)@.order.last() == hash@,
        old(session)@.order.len() < 10_000 ==> final(session)@.order.drop_last()
            == old(session)@.order,
        old(session)@.order.len() == 10_000 ==> final(session)@.order.drop_last()
            == old(session)@.order.skip(1),
{
    let before = old(session)@;
    assert(before.records.contains_key(hash@) <==> before.order.contains(hash@));
    if before.order.len() == 10_000 {
        let rest = before.order.drop_first();
        assert(rest =~= before.order.skip(1));
        if rest.contains(hash@) {
            let i = choose|i: int| 0 <= i < rest.len() && rest[i] == hash@;
            assert(before.order[i + 1] == hash@);
        }
        assert(rest.push(hash@).drop_last() =~= rest);
    } else {
        assert(before.order.push(hash@).drop_last() =~= before.order);
    }
}

/// A lookup gives the record that is there, and gives nothing exactly where none
/// is.
pub proof fn law_lookup_gives_the_record<S>(
    session: &SessionWrapper<S>,
    hash: &str,
    res: Option<Json>,
)
    requires
        call_ensures(SessionWrapper::<S>::get_transaction, (session, hash), res),
    ensures
        res is Some <==> session@.records.contains_key(hash@),
        res is Some ==> res->0@ == session@.records[hash@],
{
}

/// A counted operation adds one, and nothing else changes.
pub proof fn law_operation_is_counted<S>(session: &mut SessionWrapper<S>)
    requires
        old(session)@.ops_count < u64::MAX,
        call_ensures(SessionWrapper::<S>::increment_ops, (session,), ()),
    ensures
        final(session)@.ops_count == old(session)@.ops_count + 1,
        final(session)@.chain_id == old(session)@.chain_id,
        final(session)@.order == old(session)@.order,
        final(session)@.records == old(session)@.records,
        final(session).inner_session() == old(session).inner_session(),
        final(session).path() == old(session).path(),
{
}

/// What a session is asked for is what it is.
pub proof fn law_session_tells_its_state<S>(
    session: &SessionWrapper<S>,
    count: u64,
    chain: u64,
    path: &PathBuf,
    inner: &S,
)
    requires
        call_ensures(SessionWrapper::<S>::get_ops_count, (session,), count),
        call_ensures(SessionWrapper::<S>::get_chain_id, (session,), chain),
        call_ensures(SessionWrapper::<S>::session_path, (session,), path),
        call_ensures(SessionWrapper::<S>::session, (session,), inner),
    ensures
        count == session@.ops_count,
        chain == session@.chain_id,
        *path == session.path(),
        *inner == session.inner_session(),
{
}

/// A run in a temporary session counts exactly where the run and the removal
/// both went well. A run that failed is reported as it is, whatever the removal
/// did; a removal that failed names the run, the place and the reason.
pub proof fn law_run_counts_once_removed<T>(
    result: Result<T, String>,
    cleanup: Result<(), String>,
    what: &str,
    path: &str,
    res: Result<T, String>,
)
    requires
        call_ensures(settle::<T>, (result, cleanup, what, path), res),
    ensures
        res is Ok <==> result is Ok && cleanup is Ok,
        res is Ok ==> res->Ok_0 == result->Ok_0,
        result is Err ==> res == result,
        result is Ok && cleanup is Err ==> res->Err_0@ == what@
            + " completed but failed to remove temp session "@ + path@ + ": "@
            + cleanup->Err_0@,
{
}

/// Reading a module gives its bytes as they are, or the reason behind a fixed
/// text.
pub proof fn law_module_is_read(
    outcome: Result<Option<Vec<u8>>, String>,
    res: Result<Option<Vec<u8>>, String>,
)
    requires
        call_ensures(module_read, (outcome,), res),
    ensures
        res is Ok <==> outcome is Ok,
        outcome is Ok ==> res->Ok_0 == outcome->Ok_0,
        outcome is Err ==> res->Err_0@ == "Failed to read module: "@ + outcome->Err_0@,
{
}

/// A trace that could not be taken says at which stage, and why.
pub proof fn law_trace_fault_says_why(reason: String, execution: String, output: String)
    requires
        call_ensures(trace_fault, (TraceFault::Execution(reason),), execution),
        call_ensures(trace_fault, (TraceFault::Output(reason),), output),
    ensures
        execution@ == "trace execution error: "@ + reason@,
        output@ == "failed to materialize trace output: "@ + reason@,
{
}

/// Two texts of digits, each with a hyphen and something behind it, agree only
/// where the digits do.
proof fn lemma_digits_before_hyphen(a: Seq<char>, b: Seq<char>, x: Seq<char>, y: Seq<char>)
    requires
        forall|i: int| 0 <= i < a.len() ==> '0' <= #[trigger] a[i] <= '9',
        forall|i: int| 0 <= i < b.len() ==> '0' <= #[trigger] b[i] <= '9',
        a + "-"@ + x == b + "-"@ + y,
    ensures
        a == b,
        x == y,
{
    reveal_strlit("-");
    let l = a + "-"@ + x;
    let r = b + "-"@ + y;
    assert(l[a.len() as int] == '-');
    assert(r[b.len() as int] == '-');
    if a.len() < b.len() {
        assert(r[a.len() as int] == b[a.len() as int]);
    }
    if b.len() < a.len() {
        assert(l[b.len() as int] == a[b.len() as int]);
    }
    assert(a =~= l.take(a.len() as int));
    assert(b =~= r.take(b.len() as int));
    assert(x =~= l.skip(a.len() as int + 1));
    assert(y =~= r.skip(b.len() as int + 1));
}

/// Temporary sessions of one kind have the same name only where the process and
/// the time are the same; and a name tells the kind.
pub proof fn law_temporary_names_differ(
    kind: &str,
    process: u32,
    nanos: u128,
    other_process: u32,
    other_nanos: u128,
    a: String,
    b: String,
)
    requires
        call_ensures(temp_session_name, (kind, process, nanos), a),
        call_ensures(temp_session_name, (kind, other_process, other_nanos), b),
    ensures
        a@ == b@ ==> process == other_process && nanos == other_nanos,
        a@ == "movelite-"@ + kind@ + "-"@ + decimal(process as nat) + "-"@ + decimal(nanos as nat),
        a@.take(9) == "movelite-"@,
        a@.subrange(9, 9 + kind@.len() as int) == kind@,
{
    reveal_strlit("movelite-");
    reveal_strlit("-");
    lemma_decimal_digits(process as nat);
    lemma_decimal_digits(other_process as nat);
    let head = "movelite-"@ + kind@ + "-"@;
    let x = decimal(process as nat) + "-"@ + decimal(nanos as nat);
    let y = decimal(other_process as nat) + "-"@ + decimal(other_nanos as nat);
    assert(a@ =~= head + x);
    assert(b@ =~= head + y);
    assert(a@.take(9) =~= "movelite-"@);
    assert(a@.subrange(9, 9 + kind@.len() as int) =~= kind@);
    if a@ == b@ {
        assert(x =~= a@.skip(head.len() as int));
        assert(y =~= b@.skip(head.len() as int));
        lemma_digits_before_hyphen(
            decimal(process as nat),
            decimal(other_process as nat),
            decimal(nanos as nat),
            decimal(other_nanos as nat),
        );
        law_decimal_injective(process as nat, other_process as nat);
        law_decimal_injective(nanos as nat, other_nanos as nat);
    }
}

} // verus!
