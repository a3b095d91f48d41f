//! The trace of a transaction: the tree of calls that it made, and what its
//! outcome was.
use crate::address::{format_module_id, module_text, ModuleId};
use crate::encoding::{hex_encode, hex_text};
use crate::json::{Json, JsonView};
use crate::text::{copy_opt, join2, opt_text, texts};
use crate::value::{ArgView, TracedArg};
use vstd::prelude::*;

verus! {

/// An event that a call emitted.
#[derive(Debug, PartialEq, Eq)]
pub struct TracedEvent {
    pub ty: String,
    pub data: Json,
    /// The type tag and the BCS payload as they were emitted, until they are
    /// decoded into `data`. Not part of an answer.
    pub raw: Option<(String, Vec<u8>)>,
}

/// The mathematical counterpart of [`TracedEvent`].
pub struct EventView {
    pub ty: Seq<char>,
    pub data: JsonView,
    pub raw: Option<(Seq<char>, Seq<u8>)>,
}

impl View for TracedEvent {
    type V = EventView;

    open spec fn view(&self) -> EventView {
        EventView {
            ty: self.ty@,
            data: self.data@,
            raw: match self.raw {
                Some((tag, blob)) => Some((tag@, blob@)),
                None => None,
            },
        }
    }
}

impl Clone for TracedEvent {
    fn clone(&self) -> (res: Self)
        ensures
            res@ == self@,
    {
        let raw = match &self.raw {
            Some((tag, blob)) => {
                let copy = blob.clone();
                assert(copy@ =~= blob@);
                Some((tag.clone(), copy))
            },
            None => None,
        };
        TracedEvent { ty: self.ty.clone(), data: self.data.clone(), raw }
    }
}

/// An access to global storage.
#[derive(Debug, PartialEq, Eq)]
pub struct StorageOp {
    pub op: String,
    pub ty: String,
    pub address: Option<String>,
}

/// The mathematical counterpart of [`StorageOp`].
pub struct StorageView {
    pub op: Seq<char>,
    pub ty: Seq<char>,
    pub address: Option<Seq<char>>,
}

impl View for StorageOp {
    type V = StorageView;

    open spec fn view(&self) -> StorageView {
        StorageView { op: self.op@, ty: self.ty@, address: opt_text(self.address) }
    }
}

impl Clone for StorageOp {
    fn clone(&self) -> (res: Self)
        ensures
            res@ == self@,
    {
        StorageOp {
            op: self.op.clone(),
            ty: self.ty.clone(),
            address: copy_opt(&self.address),
        }
    }
}

/// A call that was active when a transaction aborted.
#[derive(Debug, PartialEq, Eq)]
pub struct AbortStackEntry {
    pub module: Option<String>,
    pub function: Option<String>,
    pub offset: Option<u64>,
}

/// The mathematical counterpart of [`AbortStackEntry`].
pub struct EntryView {
    pub module: Option<Seq<char>>,
    pub function: Option<Seq<char>>,
    pub offset: Option<u64>,
}

impl View for AbortStackEntry {
    type V = EntryView;

    open spec fn view(&self) -> EntryView {
        EntryView {
            module: opt_text(self.module),
            function: opt_text(self.function),
            offset: self.offset,
        }
    }
}

impl Clone for AbortStackEntry {
    fn clone(&self) -> (res: Self)
        ensures
            res@ == self@,
    {
        AbortStackEntry {
            module: copy_opt(&self.module),
            function: copy_opt(&self.function),
            offset: self.offset,
        }
    }
}

/// Why a transaction did not succeed, and where.
#[derive(Debug, PartialEq, Eq)]
pub struct AbortInfo {
    pub code: u64,
    pub sub_status: Option<u64>,
    pub module: Option<String>,
    pub stack: Vec<AbortStackEntry>,
}

/// The mathematical counterpart of [`AbortInfo`].
pub struct AbortView {
    pub code: u64,
    pub sub_status: Option<u64>,
    pub module: Option<Seq<char>>,
    pub stack: Seq<EntryView>,
}

impl View for AbortInfo {
    type V = AbortView;

    open spec fn view(&self) -> AbortView {
        AbortView {
            code: self.code,
            sub_status: self.sub_status,
            module: opt_text(self.module),
            stack: entry_views(self.stack@),
        }
    }
}

impl Clone for AbortInfo {
    fn clone(&self) -> (res: Self)
        ensures
            res@ == self@,
    {
        let stack = self.stack.clone();
        assert(entry_views(stack@) =~= entry_views(self.stack@));
        AbortInfo {
            code: self.code,
            sub_status: self.sub_status,
            module: copy_opt(&self.module),
            stack,
        }
    }
}

/// One call and everything that happened in it.
#[derive(Debug, PartialEq, Eq)]
pub struct CallNode {
    /// `function`, `native` or `script`.
    pub kind: String,
    pub module: Option<String>,
    pub function: Option<String>,
    pub type_args: Vec<String>,
    pub args: Vec<TracedArg>,
    pub ret: Vec<TracedArg>,
    /// The gas of this call alone, without the calls that it made.
    pub gas: u64,
    pub events: Vec<TracedEvent>,
    pub storage: Vec<StorageOp>,
    pub children: Vec<CallNode>,
}

/// The mathematical counterpart of [`CallNode`].
pub struct NodeView {
    pub kind: Seq<char>,
    pub module: Option<Seq<char>>,
    pub function: Option<Seq<char>>,
    pub type_args: Seq<Seq<char>>,
    pub args: Seq<ArgView>,
    pub ret: Seq<ArgView>,
    pub gas: u64,
    pub events: Seq<EventView>,
    pub storage: Seq<StorageView>,
    pub children: Seq<NodeView>,
}

/// The views of a list of arguments.
pub open spec fn arg_views(list: Seq<TracedArg>) -> Seq<ArgView> {
    list.map_values(|a: TracedArg| a@)
}

/// The views of a list of events.
pub open spec fn event_views(list: Seq<TracedEvent>) -> Seq<EventView> {
    list.map_values(|e: TracedEvent| e@)
}

/// The views of a list of storage accesses.
pub open spec fn storage_views(list: Seq<StorageOp>) -> Seq<StorageView> {
    list.map_values(|s: StorageOp| s@)
}

/// The views of a list of active calls.
pub open spec fn entry_views(list: Seq<AbortStackEntry>) -> Seq<EntryView> {
    list.map_values(|e: AbortStackEntry| e@)
}

/// The views of a list of calls.
pub open spec fn node_views(list: Seq<CallNode>) -> Seq<NodeView> {
    list.map_values(|n: CallNode| n@)
}

impl CallNode {
    /// The mathematical value.
    pub open spec fn model(self) -> NodeView
        decreases self,
    {
        NodeView {
            kind: self.kind@,
            module: opt_text(self.module),
            function: opt_text(self.function),
            type_args: texts(self.type_args@),
            args: arg_views(self.args@),
            ret: arg_views(self.ret@),
            gas: self.gas,
            events: event_views(self.events@),
            storage: storage_views(self.storage@),
            children: Seq::new(
                self.children@.len(),
                |i: int|
                    if 0 <= i < self.children@.len() {
                        self.children@[i].model()
                    } else {
                        arbitrary()
                    },
            ),
        }
    }
}

impl View for CallNode {
    type V = NodeView;

    open spec fn view(&self) -> NodeView {
        self.model()
    }
}

/// A call's children are seen through their views.
pub broadcast proof fn lemma_children_view(node: CallNode)
    ensures
        (#[trigger] node.model()).children == node_views(node.children@),
{
    assert(node.model().children =~= node_views(node.children@));
}

impl Clone for CallNode {
    fn clone(&self) -> (res: Self)
        ensures
            res@ == self@,
        decreases self,
    {
        broadcast use lemma_children_view;

        let mut children: Vec<CallNode> = Vec::new();
        let mut i: usize = 0;
        while i < self.children.len()
            invariant
                i <= self.children@.len(),
                children@.len() == i,
                forall|j: int|
                    0 <= j < i ==> (#[trigger] children@[j])@ == self.children@[j]@,
            decreases self.children@.len() - i,
        {
            assert(decreases_to!(self.children@ => self.children@[i as int]));
            let child = self.children[i].clone();
            children.push(child);
            i += 1;
        }
        assert(node_views(children@) =~= node_views(self.children@));
        let type_args = self.type_args.clone();
        let args = self.args.clone();
        let ret = self.ret.clone();
        let events = self.events.clone();
        let storage = self.storage.clone();
        assert(texts(type_args@) =~= texts(self.type_args@));
        assert(arg_views(args@) =~= arg_views(self.args@));
        assert(arg_views(ret@) =~= arg_views(self.ret@));
        assert(event_views(events@) =~= event_views(self.events@));
        assert(storage_views(storage@) =~= storage_views(self.storage@));
        CallNode {
            kind: self.kind.clone(),
            module: copy_opt(&self.module),
            function: copy_opt(&self.function),
            type_args,
            args,
            ret,
            gas: self.gas,
            events,
            storage,
            children,
        }
    }
}

/// Where a transaction aborted.
#[derive(Debug, PartialEq, Eq)]
pub enum AbortLocation {
    Module(ModuleId),
    Script,
}

/// How the virtual machine ended a transaction.
#[derive(Debug, PartialEq, Eq)]
pub enum Outcome {
    /// The transaction ran to its end.
    Executed,
    /// A Move program aborted with a code.
    MoveAbort(AbortLocation, u64),
    /// A Move program could not go on.
    ExecutionFailure {
        status_code: u64,
        sub_status: Option<u64>,
        location: AbortLocation,
        code_offset: u16,
    },
    /// The virtual machine itself failed.
    Error { status_code: u64, sub_status: Option<u64> },
}

/// The status that the virtual machine reports, with its printed form.
#[derive(Debug, PartialEq, Eq)]
pub struct VMStatus {
    pub outcome: Outcome,
    pub debug: String,
}

impl VMStatus {
    /// Whether the transaction succeeded.
    pub open spec fn succeeded(self) -> bool {
        self.outcome is Executed
    }

    /// The text that reports the status.
    pub open spec fn report(self) -> Seq<char> {
        if self.succeeded() {
            "Executed successfully"@
        } else {
            self.debug@
        }
    }

    /// Whether the transaction succeeded.
    pub fn success(&self) -> (res: bool)
        ensures
            res == self.succeeded(),
    {
        match self.outcome {
            Outcome::Executed => true,
            _ => false,
        }
    }

    /// The text that reports the status.
    pub fn report_text(&self) -> (res: String)
        ensures
            res@ == self.report(),
    {
        if self.success() {
            "Executed successfully".to_owned()
        } else {
            self.debug.clone()
        }
    }
}

/// The module that a location names.
pub open spec fn location_module(location: AbortLocation) -> Option<Seq<char>> {
    match location {
        AbortLocation::Module(id) => Some(module_text(id@)),
        AbortLocation::Script => None,
    }
}

/// The module that a location names.
pub fn abort_location_module(location: &AbortLocation) -> (res: Option<String>)
    ensures
        opt_text(res) == location_module(*location),
{
    match location {
        AbortLocation::Module(id) => Some(format_module_id(id)),
        AbortLocation::Script => None,
    }
}

/// The active calls, with the code offset of a failure at the innermost.
pub open spec fn located_stack(outcome: Outcome, stack: Seq<EntryView>) -> Seq<EntryView> {
    match outcome {
        Outcome::ExecutionFailure { code_offset, .. } if stack.len() > 0 => stack.update(
            0,
            EntryView { offset: Some(code_offset as u64), ..stack[0] },
        ),
        _ => stack,
    }
}

/// The module that the outcome itself names.
pub open spec fn outcome_module(outcome: Outcome) -> Option<Seq<char>> {
    match outcome {
        Outcome::MoveAbort(location, _) => location_module(location),
        Outcome::ExecutionFailure { location, .. } => location_module(location),
        _ => None,
    }
}

/// The code that the outcome carries.
pub open spec fn outcome_code(outcome: Outcome) -> u64 {
    match outcome {
        Outcome::MoveAbort(_, code) => code,
        Outcome::ExecutionFailure { status_code, .. } => status_code,
        Outcome::Error { status_code, .. } => status_code,
        Outcome::Executed => 0,
    }
}

/// The sub-status that the outcome carries.
pub open spec fn outcome_sub_status(outcome: Outcome) -> Option<u64> {
    match outcome {
        Outcome::ExecutionFailure { sub_status, .. } => sub_status,
        Outcome::Error { sub_status, .. } => sub_status,
        _ => None,
    }
}

/// What an answer says of an abort. The module is the one that the outcome
/// names, else that of the innermost call.
pub open spec fn abort_report(outcome: Outcome, stack: Seq<EntryView>) -> AbortView {
    AbortView {
        code: outcome_code(outcome),
        sub_status: outcome_sub_status(outcome),
        module: if outcome_module(outcome) is Some {
            outcome_module(outcome)
        } else if stack.len() > 0 {
            stack[0].module
        } else {
            None
        },
        stack: located_stack(outcome, stack),
    }
}

/// Describes an abort from the outcome and the calls that were active, the
/// innermost first.
pub fn build_abort(status: &VMStatus, stack: Vec<AbortStackEntry>) -> (res: AbortInfo)
    ensures
        res@ == abort_report(status.outcome, entry_views(stack@)),
{
    let mut stack = stack;
    let ghost given = entry_views(stack@);
    if let Outcome::ExecutionFailure { code_offset, .. } = &status.outcome {
        if stack.len() > 0 {
            stack[0].offset = Some(*code_offset as u64);
        }
    }
    assert(entry_views(stack@) =~= located_stack(status.outcome, given));
    let (code, sub_status, named) = match &status.outcome {
        Outcome::MoveAbort(location, code) => (*code, None, abort_location_module(location)),
        Outcome::ExecutionFailure { status_code, sub_status, location, .. } => (
            *status_code,
            *sub_status,
            abort_location_module(location),
        ),
        Outcome::Error { status_code, sub_status } => (*status_code, *sub_status, None),
        Outcome::Executed => (0, None, None),
    };
    let module = match named {
        Some(m) => Some(m),
        None => if stack.len() > 0 {
            assert(entry_views(stack@)[0].module == given[0].module);
            copy_opt(&stack[0].module)
        } else {
            None
        },
    };
    AbortInfo { code, sub_status, module, stack }
}

/// The answer to a request for a trace.
#[derive(Debug, PartialEq, Eq)]
pub struct TraceResponse {
    pub txn_hash: String,
    pub success: bool,
    pub gas_used: u64,
    pub vm_status: String,
    pub abort: Option<AbortInfo>,
    pub root: CallNode,
}

impl Clone for TraceResponse {
    fn clone(&self) -> (res: Self)
        ensures
            res.txn_hash@ == self.txn_hash@,
            res.success == self.success,
            res.gas_used == self.gas_used,
            res.vm_status@ == self.vm_status@,
            match (res.abort, self.abort) {
                (Some(copy), Some(abort)) => copy@ == abort@,
                (None, None) => true,
                _ => false,
            },
            res.root@ == self.root@,
    {
        TraceResponse {
            txn_hash: self.txn_hash.clone(),
            success: self.success,
            gas_used: self.gas_used,
            vm_status: self.vm_status.clone(),
            abort: match &self.abort {
                Some(abort) => Some(abort.clone()),
                None => None,
            },
            root: self.root.clone(),
        }
    }
}

/// The answer for a traced transaction, from its hash, its status, the gas it
/// used, its call tree and the calls that were active at the end.
pub fn build_response(
    txn_hash: String,
    status: &VMStatus,
    gas_used: u64,
    root: CallNode,
    abort_stack: Vec<AbortStackEntry>,
) -> (res: TraceResponse)
    ensures
        res.txn_hash == txn_hash,
        res.success == status.succeeded(),
        res.gas_used == gas_used,
        res.vm_status@ == status.report(),
        match res.abort {
            Some(abort) => !status.succeeded() && abort@ == abort_report(
                status.outcome,
                entry_views(abort_stack@),
            ),
            None => status.succeeded(),
        },
        res.root == root,
{
    let success = status.success();
    let vm_status = status.report_text();
    let abort = if success {
        None
    } else {
        Some(build_abort(status, abort_stack))
    };
    TraceResponse { txn_hash, success, gas_used, vm_status, abort, root }
}

/// `new` is `old` with each event that still has its payload decoded by
/// `decode`, in this call and in all below it; nothing else differs.
pub open spec fn events_decoded<F: Fn(&String, &Vec<u8>) -> Json>(
    decode: F,
    old_node: CallNode,
    new_node: CallNode,
) -> bool
    decreases old_node,
{
    &&& new_node.kind == old_node.kind
    &&& new_node.module == old_node.module
    &&& new_node.function == old_node.function
    &&& new_node.type_args == old_node.type_args
    &&& new_node.args == old_node.args
    &&& new_node.ret == old_node.ret
    &&& new_node.gas == old_node.gas
    &&& new_node.storage == old_node.storage
    &&& new_node.events@.len() == old_node.events@.len()
    &&& forall|i: int|
        0 <= i < old_node.events@.len() ==> event_decoded(
            decode,
            old_node.events@[i],
            #[trigger] new_node.events@[i],
        )
    &&& new_node.children@.len() == old_node.children@.len()
    &&& forall|i: int|
        0 <= i < old_node.children@.len() ==> events_decoded(
            decode,
            #[trigger] old_node.children@[i],
            new_node.children@[i],
        )
}

/// `new_event` is `old_event` with its payload, where it still has one, decoded.
pub open spec fn event_decoded<F: Fn(&String, &Vec<u8>) -> Json>(
    decode: F,
    old_event: TracedEvent,
    new_event: TracedEvent,
) -> bool {
    match old_event.raw {
        Some((tag, blob)) => {
            &&& new_event.ty == old_event.ty
            &&& new_event.raw is None
            &&& call_ensures(decode, (&tag, &blob), new_event.data)
        },
        None => new_event == old_event,
    }
}

/// Decodes the payload of each event in a call tree.
pub fn decode_events_in_tree<F: Fn(&String, &Vec<u8>) -> Json>(node: &mut CallNode, decode: &F)
    requires
        forall|tag: &String, blob: &Vec<u8>| #[trigger] call_requires(*decode, (tag, blob)),
    ensures
        events_decoded(*decode, *old(node), *final(node)),
    decreases *old(node),
{
    let mut i: usize = 0;
    while i < node.events.len()
        invariant
            forall|tag: &String, blob: &Vec<u8>| #[trigger] call_requires(*decode, (tag, blob)),
            i <= node.events@.len(),
            node.events@.len() == old(node).events@.len(),
            *node == (CallNode { events: node.events, ..*old(node) }),
            forall|j: int| i <= j < node.events@.len() ==> node.events@[j] == old(node).events@[j],
            forall|j: int|
                0 <= j < i ==> event_decoded(
                    *decode,
                    old(node).events@[j],
                    #[trigger] node.events@[j],
                ),
        decreases node.events@.len() - i,
    {
        let raw = node.events[i].raw.take();
        if let Some((tag, blob)) = raw {
            let data = decode(&tag, &blob);
            node.events[i].data = data;
        }
        i += 1;
    }
    let count = node.children.len();
    let mut k: usize = 0;
    while k < count
        invariant
            forall|tag: &String, blob: &Vec<u8>| #[trigger] call_requires(*decode, (tag, blob)),
            k <= count,
            count == node.children@.len(),
            count == old(node).children@.len(),
            node.events@.len() == old(node).events@.len(),
            *node == (CallNode { events: node.events, children: node.children, ..*old(node) }),
            forall|j: int|
                0 <= j < node.events@.len() ==> event_decoded(
                    *decode,
                    old(node).events@[j],
                    #[trigger] node.events@[j],
                ),
            forall|j: int|
                k <= j < count ==> #[trigger] node.children@[j] == old(node).children@[j],
            forall|j: int|
                0 <= j < k ==> events_decoded(
                    *decode,
                    #[trigger] old(node).children@[j],
                    node.children@[j],
                ),
        decreases count - k,
    {
        assert(decreases_to!(old(node).children@ => old(node).children@[k as int]));
        decode_events_in_tree(&mut node.children[k], decode);
        k += 1;
    }
}

/// What an event's payload is shown as: its decoded form, else its bytes in
/// hexadecimal.
pub fn event_data(decoded: Option<Json>, blob: &Vec<u8>) -> (res: Json)
    ensures
        res@ == match decoded {
            Some(value) => value@,
            None => JsonView::Text("0x"@ + hex_text(blob@)),
        },
{
    match decoded {
        Some(value) => value,
        None => {
            let digits = hex_encode(blob.as_slice());
            Json::Text(join2("0x", digits.as_str()))
        },
    }
}

} // verus!
