//! The state of a session: how many operations it has seen, and the records of
//! committed transactions; and the steps by which a session is opened.
use crate::json::{Json, JsonView};
use crate::text::{decimal, decimal_text, join2, join3, join4};
use crate::trace::{abort_report, build_response, decode_events_in_tree, events_decoded, CallNode,
    TraceResponse, VMStatus};
use crate::tracer::{active_chain, collapsed, TracerMeter};
use crate::transaction::{build_committed_record, committed_record, committed_view,
    SignedTransaction};
use crate::urls::{parse_url, parsed_url, url_parse_error};
use std::path::PathBuf;
use vstd::hash_map::StringHashMap;
use vstd::prelude::*;

verus! {

/// The type `std::path::PathBuf`.
#[verifier::external_type_specification]
#[verifier::external_body]
pub struct ExPathBuf(PathBuf);

/// How a session is opened.
pub struct SessionOptions {
    /// The network to fork from, where one is wanted.
    pub fork_url: Option<String>,
    /// The version of that network; zero where none is given.
    pub fork_version: Option<u64>,
    /// The chain to pose as, where the session's own is not wanted.
    pub chain_id: Option<u8>,
    /// Where the session lives; a temporary place where there is none.
    pub session_dir: Option<PathBuf>,
    /// Whether an existing session is thrown away.
    pub reset: bool,
}

/// How many records are kept at most.
pub const MAX_RECORDS: usize = 10_000;

/// A session, with its operation count and the records of committed
/// transactions.
pub struct SessionWrapper<S> {
    inner: S,
    ops_count: u64,
    records: StringHashMap<Json>,
    /// The hashes of the records, in the order in which they came.
    order: Vec<String>,
    session_path: PathBuf,
    chain_id: u64,
}

/// The mathematical counterpart of [`SessionWrapper`], without the session.
pub struct SessionView {
    pub ops_count: u64,
    pub chain_id: u64,
    /// The hashes of the records, in the order in which they came.
    pub order: Seq<Seq<char>>,
    pub records: Map<Seq<char>, JsonView>,
}

impl<S> View for SessionWrapper<S> {
    type V = SessionView;

    closed spec fn view(&self) -> SessionView {
        SessionView {
            ops_count: self.ops_count,
            chain_id: self.chain_id,
            order: self.order@.map_values(|s: String| s@),
            records: self.records@.map_values(|j: Json| j@),
        }
    }
}

impl SessionView {
    /// The order lists each record once, and there are not too many.
    pub open spec fn valid(self) -> bool {
        &&& self.order.no_duplicates()
        &&& self.order.len() <= MAX_RECORDS
        &&& forall|hash: Seq<char>| #[trigger]
            self.records.contains_key(hash) <==> self.order.contains(hash)
    }

    /// The session without its earliest record.
    pub open spec fn without_earliest(self) -> SessionView {
        SessionView {
            order: self.order.drop_first(),
            records: self.records.remove(self.order[0]),
            ..self
        }
    }

    /// The session with a record in a place that is free.
    pub open spec fn with_record(self, hash: Seq<char>, record: JsonView) -> SessionView {
        SessionView {
            order: if self.order.contains(hash) {
                self.order
            } else {
                self.order.push(hash)
            },
            records: self.records.insert(hash, record),
            ..self
        }
    }

    /// The session with one more record; where it is full, the earliest makes
    /// room.
    pub open spec fn stored(self, hash: Seq<char>, record: JsonView) -> SessionView {
        if self.order.len() >= MAX_RECORDS {
            self.without_earliest().with_record(hash, record)
        } else {
            self.with_record(hash, record)
        }
    }

    /// The session after one more operation.
    pub open spec fn bumped(self) -> SessionView {
        SessionView { ops_count: (self.ops_count + 1) as u64, ..self }
    }

    /// The session after a transaction was committed: one more operation, whose
    /// number is the version in the record.
    pub open spec fn committed(
        self,
        txn: SignedTransaction,
        hash: Seq<char>,
        success: bool,
        vm_status: Seq<char>,
        gas_used: u64,
    ) -> SessionView {
        self.bumped().stored(
            hash,
            committed_view(
                txn,
                hash,
                success,
                vm_status,
                self.bumped().ops_count,
                gas_used,
            ),
        )
    }
}

/// Storing keeps a session valid: each record is listed once and there are
/// never more than the most that are kept.
pub proof fn law_store_keeps_valid(session: SessionView, hash: Seq<char>, record: JsonView)
    requires
        session.valid(),
    ensures
        session.stored(hash, record).valid(),
{
    let kept = if session.order.len() >= MAX_RECORDS {
        session.without_earliest()
    } else {
        session
    };
    if session.order.len() >= MAX_RECORDS {
        lemma_without_earliest(session);
    }
    lemma_with_record(kept, hash, record);
}

/// A session never holds more records than the most that are kept.
pub proof fn law_records_are_few(session: SessionView)
    requires
        session.valid(),
    ensures
        session.records.dom().finite(),
        session.records.dom().len() <= MAX_RECORDS,
{
    let listed = session.order.to_set();
    session.order.unique_seq_to_set();
    assert(session.records.dom() =~= listed) by {
        assert forall|hash: Seq<char>| session.records.dom().contains(hash) == #[trigger] listed.contains(
            hash,
        ) by {
            assert(session.records.contains_key(hash) <==> session.order.contains(hash));
        }
    }
}

/// Without its earliest record a session is valid.
proof fn lemma_without_earliest(session: SessionView)
    requires
        session.valid(),
        session.order.len() > 0,
    ensures
        session.without_earliest().valid(),
        !session.without_earliest().order.contains(session.order[0]),
        session.without_earliest().order.len() == session.order.len() - 1,
{
    let all = session.order;
    let rest = all.drop_first();
    assert forall|i: int, j: int| 0 <= i < rest.len() && 0 <= j < rest.len() && i != j implies rest[i]
        != rest[j] by {
        assert(rest[i] == all[i + 1] && rest[j] == all[j + 1]);
    }
    if rest.contains(all[0]) {
        let i = choose|i: int| 0 <= i < rest.len() && rest[i] == all[0];
        assert(all[i + 1] == all[0]);
    }
    assert forall|hash: Seq<char>| #[trigger]
        session.without_earliest().records.contains_key(hash) <==> rest.contains(hash) by {
        assert(session.records.contains_key(hash) <==> all.contains(hash));
        if rest.contains(hash) {
            let i = choose|i: int| 0 <= i < rest.len() && rest[i] == hash;
            assert(all[i + 1] == hash);
        }
        if all.contains(hash) && hash != all[0] {
            let i = choose|i: int| 0 <= i < all.len() && all[i] == hash;
            assert(rest[i - 1] == hash);
        }
    }
}

/// One more record keeps a session valid that has room for it.
proof fn lemma_with_record(session: SessionView, hash: Seq<char>, record: JsonView)
    requires
        session.valid(),
        session.order.len() < MAX_RECORDS,
    ensures
        session.with_record(hash, record).valid(),
{
    let next = session.with_record(hash, record);
    assert forall|other: Seq<char>| #[trigger]
        next.records.contains_key(other) <==> next.order.contains(other) by {
        assert(session.records.contains_key(other) <==> session.order.contains(other));
        if session.order.contains(other) && !session.order.contains(hash) {
            let i = choose|i: int| 0 <= i < session.order.len() && session.order[i] == other;
            assert(next.order[i] == other);
        }
        if !session.order.contains(hash) {
            assert(next.order[session.order.len() as int] == hash);
        }
    }
}

impl<S> SessionWrapper<S> {
    /// The session itself.
    pub closed spec fn inner_session(self) -> S {
        self.inner
    }

    /// Where the session lives.
    pub closed spec fn path(self) -> PathBuf {
        self.session_path
    }

    /// A session that has seen no operation.
    pub fn new(session: S, session_path: PathBuf, chain_id: u64) -> (res: Self)
        ensures
            res.inner_session() == session,
            res.path() == session_path,
            res@ == (SessionView {
                ops_count: 0,
                chain_id,
                order: Seq::empty(),
                records: Map::empty(),
            }),
            res@.valid(),
    {
        let res = SessionWrapper {
            inner: session,
            ops_count: 0,
            records: StringHashMap::new(),
            order: Vec::new(),
            session_path,
            chain_id,
        };
        assert(res@.order =~= Seq::empty());
        assert(res@.records =~= Map::empty());
        res
    }

    /// The session itself.
    pub fn session(&self) -> (res: &S)
        ensures
            *res == self.inner_session(),
    {
        &self.inner
    }

    /// Where the session lives.
    pub fn session_path(&self) -> (res: &PathBuf)
        ensures
            *res == self.path(),
    {
        &self.session_path
    }

    /// The chain that the session poses as.
    pub fn get_chain_id(&self) -> (res: u64)
        ensures
            res == self@.chain_id,
    {
        self.chain_id
    }

    /// How many operations the session has seen.
    pub fn get_ops_count(&self) -> (res: u64)
        ensures
            res == self@.ops_count,
    {
        self.ops_count
    }

    /// Counts an operation.
    pub fn increment_ops(&mut self)
        requires
            old(self)@.ops_count < u64::MAX,
        ensures
            final(self)@ == old(self)@.bumped(),
            final(self).inner_session() == old(self).inner_session(),
            final(self).path() == old(self).path(),
    {
        self.ops_count += 1;
    }

    /// Keeps a record under a hash. Where there are too many, the earliest makes
    /// room.
    pub fn store_transaction(&mut self, hash: String, result: Json)
        requires
            old(self)@.valid(),
        ensures
            final(self)@ == old(self)@.stored(hash@, result@),
            final(self)@.valid(),
            final(self).inner_session() == old(self).inner_session(),
            final(self).path() == old(self).path(),
    {
        let ghost before = self@;
        proof {
            law_store_keeps_valid(before, hash@, result@);
        }
        if self.order.len() >= MAX_RECORDS {
            let earliest = self.order.remove(0);
            assert(earliest@ == before.order[0]);
            self.records.remove(earliest.as_str());
            assert(self@.order =~= before.order.drop_first());
            assert(self@.records =~= before.records.remove(before.order[0]));
            proof {
                lemma_without_earliest(before);
            }
        }
        let ghost kept = self@;
        assert(self.records@.contains_key(hash@) <==> kept.records.contains_key(hash@));
        if !self.records.contains_key(hash.as_str()) {
            self.order.push(hash.clone());
            assert(self@.order =~= kept.order.push(hash@));
        }
        self.records.insert(hash, result);
        assert(self@.records =~= kept.records.insert(hash@, result@));
    }

    /// The record under a hash.
    pub fn get_transaction(&self, hash: &str) -> (res: Option<Json>)
        ensures
            match res {
                Some(record) => self@.records.contains_key(hash@) && record@
                    == self@.records[hash@],
                None => !self@.records.contains_key(hash@),
            },
    {
        match self.records.get(hash) {
            Some(record) => Some(record.clone()),
            None => None,
        }
    }

    /// Keeps the books of a submitted transaction that was executed.
    pub fn commit_submitted(&mut self, txn: &SignedTransaction, status: &VMStatus, gas_used: u64)
        requires
            old(self)@.valid(),
            old(self)@.ops_count < u64::MAX,
        ensures
            final(self)@ == old(self)@.committed(
                *txn,
                txn.shown_hash(),
                status.succeeded(),
                status.report(),
                gas_used,
            ),
            final(self)@.valid(),
            final(self).inner_session() == old(self).inner_session(),
            final(self).path() == old(self).path(),
    {
        self.increment_ops();
        let hash = txn.hash_text();
        let report = status.report_text();
        let record = committed_record(
            txn,
            hash.as_str(),
            status.success(),
            report.as_str(),
            self.ops_count,
            gas_used,
        );
        self.store_transaction(hash, record);
    }

    /// Keeps the books of a transaction that was traced, and hands its outcome
    /// on. Where it was committed in the same pass the books are those of a
    /// submission; a trace that commits nothing, or that failed, leaves no mark.
    pub fn execute_transaction_traced(
        &mut self,
        txn: &SignedTransaction,
        commit: bool,
        outcome: Result<TraceResponse, String>,
    ) -> (res: Result<TraceResponse, String>)
        requires
            old(self)@.valid(),
            commit && outcome is Ok ==> old(self)@.ops_count < u64::MAX,
        ensures
            res == outcome,
            final(self)@ == match outcome {
                Ok(response) if commit => old(self)@.committed(
                    *txn,
                    response.txn_hash@,
                    response.success,
                    response.vm_status@,
                    response.gas_used,
                ),
                _ => old(self)@,
            },
            final(self)@.valid(),
            final(self).inner_session() == old(self).inner_session(),
            final(self).path() == old(self).path(),
    {
        if commit {
            if let Ok(response) = &outcome {
                self.increment_ops();
                let record = build_committed_record(txn, response, self.ops_count);
                self.store_transaction(response.txn_hash.clone(), record);
            }
        }
        outcome
    }
}

/// What was stored under a hash is found under it, whatever was there before.
pub proof fn law_stored_is_found(session: SessionView, hash: Seq<char>, record: JsonView)
    ensures
        session.stored(hash, record).records.contains_key(hash),
        session.stored(hash, record).records[hash] == record,
{
}

/// Storing leaves every other record as it was, but for the earliest of a full
/// session.
pub proof fn law_store_keeps_others(
    session: SessionView,
    hash: Seq<char>,
    record: JsonView,
    other: Seq<char>,
)
    requires
        session.valid(),
        other != hash,
        session.order.len() < MAX_RECORDS || other != session.order[0],
    ensures
        session.stored(hash, record).records.contains_key(other)
            == session.records.contains_key(other),
        session.records.contains_key(other) ==> session.stored(hash, record).records[other]
            == session.records[other],
{
}

/// The record of a committed transaction is found under its hash, and its
/// version is the operation count after the commit.
pub proof fn law_committed_is_found(
    session: SessionView,
    txn: SignedTransaction,
    hash: Seq<char>,
    success: bool,
    vm_status: Seq<char>,
    gas_used: u64,
)
    ensures
        ({
            let next = session.committed(txn, hash, success, vm_status, gas_used);
            &&& next.records.contains_key(hash)
            &&& next.records[hash] == committed_view(
                txn,
                hash,
                success,
                vm_status,
                next.ops_count,
                gas_used,
            )
        }),
{
}

/// A transaction that is traced and committed in one pass leaves the same books
/// as one that is submitted, where its answer is that of the same execution.
pub proof fn law_trace_commits_like_submit(
    session: SessionView,
    txn: SignedTransaction,
    status: VMStatus,
    gas_used: u64,
    response: TraceResponse,
)
    requires
        response.txn_hash@ == txn.shown_hash(),
        response.success == status.succeeded(),
        response.vm_status@ == status.report(),
        response.gas_used == gas_used,
    ensures
        session.committed(
            txn,
            response.txn_hash@,
            response.success,
            response.vm_status@,
            response.gas_used,
        ) == session.committed(
            txn,
            txn.shown_hash(),
            status.succeeded(),
            status.report(),
            gas_used,
        ),
{
}

/// The answer for a traced transaction, once it has run: the tracer's tree, with
/// its events decoded, and what its status says.
pub fn trace_answer<G, F: Fn(&String, &Vec<u8>) -> Json>(
    txn: &SignedTransaction,
    meter: TracerMeter<G>,
    status: &VMStatus,
    gas_used: u64,
    decode: &F,
) -> (res: TraceResponse)
    requires
        meter@.valid(),
        forall|i: int| 0 <= i < meter@.frames.len() ==> (#[trigger] meter@.frames[i]).fits(),
        forall|tag: &String, blob: &Vec<u8>| #[trigger] call_requires(*decode, (tag, blob)),
    ensures
        res.txn_hash@ == txn.shown_hash(),
        res.success == status.succeeded(),
        res.gas_used == gas_used,
        res.vm_status@ == status.report(),
        match res.abort {
            Some(abort) => !status.succeeded() && abort@ == abort_report(
                status.outcome,
                active_chain(meter@.frames),
            ),
            None => status.succeeded(),
        },
        exists|tree: CallNode|
            #![trigger events_decoded(*decode, tree, res.root)]
            tree@ == collapsed(meter@.frames) && events_decoded(*decode, tree, res.root),
{
    let (root, chain) = meter.finish();
    let ghost tree = root;
    let mut root = root;
    decode_events_in_tree(&mut root, decode);
    assert(tree@ == collapsed(meter@.frames) && events_decoded(*decode, tree, root));
    build_response(txn.hash_text(), status, gas_used, root, chain)
}

/// Why a trace could not be taken.
#[derive(Debug)]
pub enum TraceFault {
    /// The execution did not take place.
    Execution(String),
    /// The output of the execution could not be made.
    Output(String),
}

/// The message for a trace that could not be taken.
pub fn trace_fault(fault: TraceFault) -> (res: String)
    ensures
        res@ == match fault {
            TraceFault::Execution(e) => "trace execution error: "@ + e@,
            TraceFault::Output(e) => "failed to materialize trace output: "@ + e@,
        },
{
    match fault {
        TraceFault::Execution(e) => join2("trace execution error: ", e.as_str()),
        TraceFault::Output(e) => join2("failed to materialize trace output: ", e.as_str()),
    }
}

/// What reading a module gave, with its failure as a message.
pub fn module_read(outcome: Result<Option<Vec<u8>>, String>) -> (res: Result<
    Option<Vec<u8>>,
    String,
>)
    ensures
        match outcome {
            Ok(bytes) => res == Ok::<Option<Vec<u8>>, String>(bytes),
            Err(e) => res is Err && res->Err_0@ == "Failed to read module: "@ + e@,
        },
{
    match outcome {
        Ok(bytes) => Ok(bytes),
        Err(e) => Err(join2("Failed to read module: ", e.as_str())),
    }
}

/// What happened while a session is opened.
#[derive(Debug)]
pub enum SessionEvent {
    /// The place of the session is known; it exists or not.
    Started { exists: bool },
    /// What was at the place has been removed.
    Removed,
    /// The place was looked at: whether it holds a session's configuration, and
    /// whether it holds anything.
    Probed { has_config: bool, occupied: bool },
    /// The session was loaded or made.
    Opened,
    /// The session poses as the chain that was asked for.
    ChainIdSet,
}

/// What is done next to open a session.
#[derive(Debug)]
pub enum SessionAction {
    /// Remove what is at the place.
    Remove,
    /// Look at the place.
    Probe,
    /// Load the session that is there.
    Load,
    /// Make a session that forks a network at a version.
    InitRemote { url: url::Url, version: u64 },
    /// Make a session from a clean genesis.
    InitClean,
    /// Pose as a chain.
    SetChainId(u8),
    /// The session is ready.
    Finish,
    /// Give up, with a message.
    Fail(String),
}

/// The message for a place that holds something else than a session.
pub open spec fn occupied_message(path: Seq<char>) -> Seq<char> {
    "Session directory "@ + path
        + " exists but is not a valid movelite session. Use --reset to replace it."@
}

/// The action is the right one after the event.
pub open spec fn follows(
    options: SessionOptions,
    path: Seq<char>,
    event: SessionEvent,
    action: SessionAction,
) -> bool {
    match event {
        SessionEvent::Started { exists } => if options.reset && exists {
            action is Remove
        } else {
            action is Probe
        },
        SessionEvent::Removed => action is Probe,
        SessionEvent::Probed { has_config, occupied } => if has_config {
            action is Load
        } else if occupied {
            action matches SessionAction::Fail(message) && message@ == occupied_message(path)
        } else {
            match options.fork_url {
                None => action is InitClean,
                Some(text) => match parsed_url(text@) {
                    Some(parsed) => action matches SessionAction::InitRemote { url, version }
                        && url == parsed && version == match options.fork_version {
                        Some(v) => v,
                        None => 0,
                    },
                    None => action matches SessionAction::Fail(message) && message@
                        == url_parse_error(text@),
                },
            }
        },
        SessionEvent::Opened => match options.chain_id {
            None => action is Finish,
            Some(id) => if id == 0 {
                action matches SessionAction::Fail(message) && message@
                    == "--chain-id must be greater than 0"@
            } else {
                action == SessionAction::SetChainId(id)
            },
        },
        SessionEvent::ChainIdSet => action is Finish,
    }
}

/// The action that forks a network whose URL was read: at the version that is
/// given, else at version zero.
pub fn fork_action(url: Result<url::Url, String>, version: Option<u64>) -> (action: SessionAction)
    ensures
        match url {
            Ok(u) => action == (SessionAction::InitRemote {
                url: u,
                version: match version {
                    Some(v) => v,
                    None => 0,
                },
            }),
            Err(e) => action == SessionAction::Fail(e),
        },
{
    match url {
        Ok(url) => SessionAction::InitRemote {
            url,
            version: match version {
                Some(version) => version,
                None => 0,
            },
        },
        Err(e) => SessionAction::Fail(e),
    }
}

/// The next step in opening a session; `path` is the place as it is shown.
pub fn create_session_step(options: &SessionOptions, path: &str, event: SessionEvent) -> (action:
    SessionAction)
    ensures
        follows(*options, path@, event, action),
{
    match event {
        SessionEvent::Started { exists } => if options.reset && exists {
            SessionAction::Remove
        } else {
            SessionAction::Probe
        },
        SessionEvent::Removed => SessionAction::Probe,
        SessionEvent::Probed { has_config, occupied } => if has_config {
            SessionAction::Load
        } else if occupied {
            SessionAction::Fail(
                join3(
                    "Session directory ",
                    path,
                    " exists but is not a valid movelite session. Use --reset to replace it.",
                ),
            )
        } else {
            match &options.fork_url {
                Some(text) => fork_action(parse_url(text.as_str()), options.fork_version),
                None => SessionAction::InitClean,
            }
        },
        SessionEvent::Opened => match options.chain_id {
            Some(id) => if id == 0 {
                SessionAction::Fail("--chain-id must be greater than 0".to_owned())
            } else {
                SessionAction::SetChainId(id)
            },
            None => SessionAction::Finish,
        },
        SessionEvent::ChainIdSet => SessionAction::Finish,
    }
}

/// Nothing is removed but at the start, on a reset, where there is something.
pub proof fn law_removal_needs_reset(
    options: SessionOptions,
    path: Seq<char>,
    event: SessionEvent,
    action: SessionAction,
)
    requires
        follows(options, path, event, action),
        action is Remove,
    ensures
        options.reset,
        event == (SessionEvent::Started { exists: true }),
{
}

/// A session is made only in a place that holds nothing.
pub proof fn law_fresh_session_needs_room(
    options: SessionOptions,
    path: Seq<char>,
    event: SessionEvent,
    action: SessionAction,
)
    requires
        follows(options, path, event, action),
        action is InitClean || action is InitRemote,
    ensures
        event == (SessionEvent::Probed { has_config: false, occupied: false }),
{
}

/// What may happen once an action was taken.
pub open spec fn answers(action: SessionAction, event: SessionEvent) -> bool {
    match action {
        SessionAction::Remove => event is Removed,
        SessionAction::Probe => event is Probed,
        SessionAction::Load => event is Opened,
        SessionAction::InitRemote { .. } => event is Opened,
        SessionAction::InitClean => event is Opened,
        SessionAction::SetChainId(_) => event is ChainIdSet,
        SessionAction::Finish => false,
        SessionAction::Fail(_) => false,
    }
}

/// How many steps at most are still to come after an event.
pub open spec fn steps_left(event: SessionEvent) -> nat {
    match event {
        SessionEvent::Started { .. } => 4,
        SessionEvent::Removed => 3,
        SessionEvent::Probed { .. } => 2,
        SessionEvent::Opened => 1,
        SessionEvent::ChainIdSet => 0,
    }
}

/// Opening a session comes to an end: each step brings it nearer.
pub proof fn law_opening_ends(
    options: SessionOptions,
    path: Seq<char>,
    event: SessionEvent,
    action: SessionAction,
    next: SessionEvent,
)
    requires
        follows(options, path, event, action),
        answers(action, next),
    ensures
        steps_left(next) < steps_left(event),
{
}

/// A session never poses as chain zero, and poses only as the chain that was
/// asked for.
pub proof fn law_chain_is_the_one_asked_for(
    options: SessionOptions,
    path: Seq<char>,
    event: SessionEvent,
    action: SessionAction,
)
    requires
        follows(options, path, event, action),
        action is SetChainId,
    ensures
        action->SetChainId_0 != 0,
        options.chain_id == Some(action->SetChainId_0),
        event is Opened,
{
}

/// The name of a temporary session directory.
pub fn temp_session_name(kind: &str, process: u32, nanos: u128) -> (res: String)
    ensures
        res@ == "movelite-"@ + kind@ + "-"@ + decimal(process as nat) + "-"@ + decimal(nanos as nat),
{
    let id = decimal_text(process as u128);
    let time = decimal_text(nanos);
    let head = join4("movelite-", kind, "-", id.as_str());
    join3(head.as_str(), "-", time.as_str())
}

/// The message for a temporary session that could not be removed.
pub open spec fn cleanup_message(what: Seq<char>, path: Seq<char>, error: Seq<char>) -> Seq<char> {
    what + " completed but failed to remove temp session "@ + path + ": "@ + error
}

/// The outcome of a run in a temporary session: a failed run is reported as it
/// is, and a good run only counts once the session was removed.
pub fn settle<T>(
    result: Result<T, String>,
    cleanup: Result<(), String>,
    what: &str,
    path: &str,
) -> (res: Result<T, String>)
    ensures
        match (result, cleanup) {
            (Ok(value), Ok(())) => res == Ok::<T, String>(value),
            (Ok(_), Err(e)) => res is Err && res->Err_0@ == cleanup_message(what@, path@, e@),
            (Err(e), _) => res == Err::<T, String>(e),
        },
{
    match (result, cleanup) {
        (Ok(value), Ok(())) => Ok(value),
        (Ok(_), Err(e)) => {
            let head = join2(what, " completed but failed to remove temp session ");
            Err(join4(head.as_str(), path, ": ", e.as_str()))
        },
        (Err(e), _) => Err(e),
    }
}

} // verus!
