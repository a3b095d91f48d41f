//! The tracer: it follows a gas meter's callbacks and grows the tree of calls.
//!
//! The callbacks of one transaction arrive in the order in which the virtual
//! machine runs it. Frames that have not returned yet form a stack; its first
//! frame is the entry point and becomes the root of the tree.
use crate::address::{format_module_id, hex_literal, module_text, AccountAddress, ModuleId,
    ModuleIdView};
use crate::json::{Json, JsonView};
use crate::names::{identifier, is_identifier};
use crate::text::{copy_opt, opt_text, same_text, texts};
use crate::trace::{arg_views, entry_views, event_views, lemma_children_view, node_views,
    storage_views, AbortStackEntry, CallNode, EntryView, EventView, NodeView, StorageOp, StorageView,
    TracedEvent};
use crate::value::{unit_arg, unit_view, ArgView, TracedArg};
use vstd::prelude::*;

verus! {

/// A call that has not returned yet, with the gas it has used so far: that of
/// its bytecode and that of its natives.
pub struct FrameBuilder {
    node: CallNode,
    self_gas: u64,
    native_gas: u64,
}

/// The mathematical counterpart of [`FrameBuilder`].
pub struct FrameView {
    pub node: NodeView,
    pub self_gas: u64,
    pub native_gas: u64,
}

impl View for FrameBuilder {
    type V = FrameView;

    closed spec fn view(&self) -> FrameView {
        FrameView { node: self.node@, self_gas: self.self_gas, native_gas: self.native_gas }
    }
}

/// A call in which nothing has happened yet.
pub open spec fn fresh_node(
    kind: Seq<char>,
    module: Option<Seq<char>>,
    function: Option<Seq<char>>,
    type_args: Seq<Seq<char>>,
    args: Seq<ArgView>,
) -> NodeView {
    NodeView {
        kind,
        module,
        function,
        type_args,
        args,
        ret: Seq::empty(),
        gas: 0,
        events: Seq::empty(),
        storage: Seq::empty(),
        children: Seq::empty(),
    }
}

/// A frame for a call of a function.
pub open spec fn function_frame(
    module: ModuleIdView,
    name: Seq<char>,
    type_args: Seq<Seq<char>>,
    args: Seq<ArgView>,
) -> FrameView {
    FrameView {
        node: fresh_node(
            "function"@,
            Some(module_text(module)),
            Some(name),
            type_args,
            args,
        ),
        self_gas: 0,
        native_gas: 0,
    }
}

/// A frame for a script.
pub open spec fn script_frame() -> FrameView {
    FrameView {
        node: fresh_node("script"@, None, None, Seq::empty(), Seq::empty()),
        self_gas: 0,
        native_gas: 0,
    }
}

/// A sum of gas, which stops at the largest amount.
pub open spec fn gas_sum(a: u64, b: u64) -> u64 {
    if a + b > u64::MAX {
        u64::MAX
    } else {
        (a + b) as u64
    }
}

/// The gas that a charge took, from the balance before it and after it.
pub open spec fn charge_cost(before: u64, after: u64) -> u64 {
    if after <= before {
        (before - after) as u64
    } else {
        0
    }
}

impl FrameView {
    /// Whether the gas of the frame is a number that its node can hold.
    pub open spec fn fits(self) -> bool {
        self.self_gas + self.native_gas <= u64::MAX
    }

    /// The finished call.
    pub open spec fn closed(self) -> NodeView {
        NodeView { gas: (self.self_gas + self.native_gas) as u64, ..self.node }
    }

    /// The frame after a charge.
    pub open spec fn charged(self, cost: u64) -> FrameView {
        FrameView { self_gas: gas_sum(self.self_gas, cost), ..self }
    }

    /// The frame after a storage access.
    pub open spec fn accessed(self, op: StorageView) -> FrameView {
        FrameView { node: NodeView { storage: self.node.storage.push(op), ..self.node }, ..self }
    }

    /// The frame after an event.
    pub open spec fn emitted(self, event: EventView) -> FrameView {
        FrameView { node: NodeView { events: self.node.events.push(event), ..self.node }, ..self }
    }

    /// The frame once its arguments are known.
    pub open spec fn with_args(self, args: Seq<ArgView>) -> FrameView {
        FrameView { node: NodeView { args, ..self.node }, ..self }
    }

    /// The frame after a call that it made has returned.
    pub open spec fn with_child(self, child: NodeView) -> FrameView {
        FrameView {
            node: NodeView { children: self.node.children.push(child), ..self.node },
            ..self
        }
    }
}

impl FrameBuilder {
    /// A frame for a call of a function.
    fn function(module: &ModuleId, name: String, type_args: Vec<String>, args: Vec<TracedArg>) -> (res:
        Self)
        ensures
            res@ == function_frame(module@, name@, texts(type_args@), arg_views(args@)),
    {
        broadcast use lemma_children_view;

        let res = FrameBuilder {
            node: CallNode {
                kind: "function".to_owned(),
                module: Some(format_module_id(module)),
                function: Some(name),
                type_args,
                args,
                ret: Vec::new(),
                gas: 0,
                events: Vec::new(),
                storage: Vec::new(),
                children: Vec::new(),
            },
            self_gas: 0,
            native_gas: 0,
        };
        assert(res@.node.ret =~= Seq::empty());
        assert(res@.node.events =~= Seq::empty());
        assert(res@.node.storage =~= Seq::empty());
        assert(res@.node.children =~= Seq::empty());
        res
    }

    /// A frame for a script.
    fn script() -> (res: Self)
        ensures
            res@ == script_frame(),
    {
        broadcast use lemma_children_view;

        let res = FrameBuilder {
            node: CallNode {
                kind: "script".to_owned(),
                module: None,
                function: None,
                type_args: Vec::new(),
                args: Vec::new(),
                ret: Vec::new(),
                gas: 0,
                events: Vec::new(),
                storage: Vec::new(),
                children: Vec::new(),
            },
            self_gas: 0,
            native_gas: 0,
        };
        assert(res@.node.type_args =~= Seq::empty());
        assert(res@.node.args =~= Seq::empty());
        assert(res@.node.ret =~= Seq::empty());
        assert(res@.node.events =~= Seq::empty());
        assert(res@.node.storage =~= Seq::empty());
        assert(res@.node.children =~= Seq::empty());
        res
    }

    /// The finished call.
    fn finish(self) -> (res: CallNode)
        requires
            self@.fits(),
        ensures
            res@ == self@.closed(),
    {
        broadcast use lemma_children_view;

        let mut node = self.node;
        node.gas = self.self_gas + self.native_gas;
        node
    }
}

/// An event as it is emitted: its type tag and its BCS payload, not decoded yet.
pub open spec fn fresh_event(ty_tag: Seq<char>, data: Seq<u8>) -> EventView {
    EventView { ty: ty_tag, data: JsonView::Null, raw: Some((ty_tag, data)) }
}

/// The module whose frames only pass events on.
pub open spec fn event_module() -> Seq<char> {
    "0x1::event"@
}

/// The position of the innermost frame that is not of the event module; the
/// entry frame where there is none.
pub open spec fn sink_index(frames: Seq<FrameView>) -> int
    decreases frames.len(),
{
    if frames.len() <= 1 {
        0
    } else if frames.last().node.module != Some(event_module()) {
        frames.len() - 1
    } else {
        sink_index(frames.drop_last())
    }
}

/// The entry of an abort's stack for a frame.
pub open spec fn frame_entry(frame: FrameView) -> EntryView {
    EntryView { module: frame.node.module, function: frame.node.function, offset: None }
}

/// The active calls, the innermost first.
pub open spec fn active_chain(frames: Seq<FrameView>) -> Seq<EntryView> {
    Seq::new(frames.len(), |i: int| frame_entry(frames[frames.len() - 1 - i]))
}

/// The tree once every frame but the first was given to the one before it.
pub open spec fn collapsed(frames: Seq<FrameView>) -> NodeView
    decreases frames.len(),
{
    if frames.len() <= 1 {
        frames[0].closed()
    } else {
        let rest = frames.drop_last();
        collapsed(rest.drop_last().push(rest.last().with_child(frames.last().closed())))
    }
}

/// The mathematical counterpart of [`TracerMeter`].
pub struct TraceView {
    /// The frames that have not returned, the innermost last.
    pub frames: Seq<FrameView>,
    /// How many arguments the user gave to the entry point.
    pub user_arg_count: nat,
}

impl TraceView {
    /// There is always an entry frame.
    pub open spec fn valid(self) -> bool {
        self.frames.len() >= 1
    }

    /// The innermost frame.
    pub open spec fn active(self) -> FrameView {
        self.frames.last()
    }

    /// The tracer with another innermost frame.
    pub open spec fn with_active(self, frame: FrameView) -> TraceView {
        TraceView { frames: self.frames.drop_last().push(frame), ..self }
    }

    /// The tracer after a charge to the innermost frame.
    pub open spec fn charged(self, before: u64, after: u64) -> TraceView {
        self.with_active(self.active().charged(charge_cost(before, after)))
    }

    /// The tracer after a native of the innermost frame has run.
    pub open spec fn native_charged(self, amount: u64) -> TraceView {
        let frame = self.active();
        self.with_active(FrameView { native_gas: gas_sum(frame.native_gas, amount), ..frame })
    }

    /// The tracer after a call.
    pub open spec fn called(self, frame: FrameView) -> TraceView {
        TraceView { frames: self.frames.push(frame), ..self }
    }

    /// The tracer after the innermost call has returned; the entry frame stays.
    pub open spec fn returned(self) -> TraceView {
        if self.frames.len() > 1 {
            let rest = self.frames.drop_last();
            TraceView {
                frames: rest.drop_last().push(
                    rest.last().with_child(self.active().closed()),
                ),
                ..self
            }
        } else {
            self
        }
    }

    /// The tracer after a storage access of the innermost frame.
    pub open spec fn accessed(
        self,
        op: Seq<char>,
        ty: Seq<char>,
        address: Option<Seq<char>>,
    ) -> TraceView {
        self.with_active(self.active().accessed(StorageView { op, ty, address }))
    }

    /// The tracer once the innermost frame has its return values.
    pub open spec fn with_ret(self, ret: Seq<ArgView>) -> TraceView {
        let frame = self.active();
        self.with_active(FrameView { node: NodeView { ret, ..frame.node }, ..frame })
    }

    /// The tracer after an event: it is attached to the innermost frame that is
    /// not of the event module.
    pub open spec fn noted(self, event: EventView) -> TraceView {
        let at = sink_index(self.frames);
        TraceView { frames: self.frames.update(at, self.frames[at].emitted(event)), ..self }
    }

    /// The tracer after something was entered with some arguments: where that is
    /// the entry point, its frame has those that the user gave.
    pub open spec fn entered(
        self,
        module: Option<ModuleIdView>,
        name: Seq<char>,
        args: Seq<ArgView>,
    ) -> TraceView {
        if is_entry(self, module, name) {
            self.with_active(self.active().with_args(user_args(args, self.user_arg_count)))
        } else {
            self
        }
    }

    /// The tracer once the innermost frame has turned out to be a native, with
    /// its return values.
    pub open spec fn native(self, ret: Seq<ArgView>) -> TraceView {
        let frame = self.active();
        self.with_active(
            FrameView { node: NodeView { kind: "native"@, ret, ..frame.node }, ..frame },
        )
    }
}

/// Follows the callbacks of a gas meter and records the calls.
pub struct TracerMeter<G> {
    /// The meter that does the charging.
    base: G,
    frames: Vec<FrameBuilder>,
    user_arg_count: usize,
}

/// The views of a list of frames.
pub open spec fn frame_views(list: Seq<FrameBuilder>) -> Seq<FrameView> {
    list.map_values(|f: FrameBuilder| f@)
}

impl<G> View for TracerMeter<G> {
    type V = TraceView;

    closed spec fn view(&self) -> TraceView {
        TraceView {
            frames: frame_views(self.frames@),
            user_arg_count: self.user_arg_count as nat,
        }
    }
}

impl<G> TracerMeter<G> {
    /// The meter that does the charging.
    pub closed spec fn meter(self) -> G {
        self.base
    }

    /// The meter that does the charging.
    pub fn base(&self) -> (res: &G)
        ensures
            *res == self.meter(),
    {
        &self.base
    }

    /// The meter that does the charging, to charge it.
    pub fn base_mut(&mut self) -> (res: &mut G)
        ensures
            *res == old(self).meter(),
            final(self).meter() == *final(res),
            final(self)@ == old(self)@,
    {
        &mut self.base
    }

    /// A tracer whose entry point is a function.
    pub fn new_function(
        base: G,
        module_id: ModuleId,
        func_name: String,
        ty_args: Vec<String>,
        user_arg_count: usize,
    ) -> (res: Self)
        ensures
            res.meter() == base,
            res@.frames == seq![
                function_frame(module_id@, func_name@, texts(ty_args@), Seq::empty()),
            ],
            res@.user_arg_count == user_arg_count,
            res@.valid(),
    {
        let none: Vec<TracedArg> = Vec::new();
        assert(arg_views(none@) =~= Seq::empty());
        let frame = FrameBuilder::function(&module_id, func_name, ty_args, none);
        let mut frames: Vec<FrameBuilder> = Vec::new();
        frames.push(frame);
        assert(frame_views(frames@) =~= seq![frame@]);
        TracerMeter { base, frames, user_arg_count }
    }

    /// A tracer whose entry point is a script.
    pub fn new_script(base: G, user_arg_count: usize) -> (res: Self)
        ensures
            res.meter() == base,
            res@.frames == seq![script_frame()],
            res@.user_arg_count == user_arg_count,
            res@.valid(),
    {
        let frame = FrameBuilder::script();
        let mut frames: Vec<FrameBuilder> = Vec::new();
        frames.push(frame);
        assert(frame_views(frames@) =~= seq![frame@]);
        TracerMeter { base, frames, user_arg_count }
    }

    /// The innermost frame.
    fn active(&mut self) -> (frame: &mut FrameBuilder)
        requires
            old(self)@.valid(),
        ensures
            frame@ == old(self)@.active(),
            final(self)@ == old(self)@.with_active(final(frame)@),
            final(self).meter() == old(self).meter(),
    {
        let last = self.frames.len() - 1;
        let ghost before = self.frames@;
        assert forall|f: FrameBuilder|
            frame_views(#[trigger] before.update(last as int, f)) == frame_views(
                before,
            ).drop_last().push(f@) by {
            assert(frame_views(before.update(last as int, f)) =~= frame_views(
                before,
            ).drop_last().push(f@));
        }
        &mut self.frames[last]
    }
}

/// The gas that a charge took, from the balance before it and after it.
pub fn delegate_charge(before: u64, after: u64) -> (cost: u64)
    ensures
        cost == charge_cost(before, after),
{
    match before.checked_sub(after) {
        Some(cost) => cost,
        None => 0,
    }
}

impl<G> TracerMeter<G> {
    /// Whether the innermost call, with one more charge to it, can return: its
    /// gas is a number that its node can hold. The entry frame does not return.
    pub fn can_return(&self, before: u64, after: u64) -> (res: bool)
        requires
            self@.valid(),
        ensures
            res == (self@.frames.len() > 1 ==> self@.charged(before, after).active().fits()),
    {
        if self.frames.len() == 1 {
            return true;
        }
        let last = self.frames.len() - 1;
        let frame = &self.frames[last];
        assert(frame@ == self@.active());
        let own = frame.self_gas.saturating_add(delegate_charge(before, after));
        own.checked_add(frame.native_gas).is_some()
    }

    /// Whether the gas of every frame is a number that its node can hold.
    pub fn frames_fit(&self) -> (res: bool)
        ensures
            res == (forall|i: int|
                0 <= i < self@.frames.len() ==> (#[trigger] self@.frames[i]).fits()),
    {
        let mut i: usize = 0;
        while i < self.frames.len()
            invariant
                i <= self.frames@.len(),
                self@.frames == frame_views(self.frames@),
                forall|j: int| 0 <= j < i ==> (#[trigger] self@.frames[j]).fits(),
            decreases self.frames@.len() - i,
        {
            assert(self@.frames[i as int] == self.frames@[i as int]@);
            if self.frames[i].self_gas.checked_add(self.frames[i].native_gas).is_none() {
                assert(!self@.frames[i as int].fits());
                return false;
            }
            i += 1;
        }
        true
    }

    /// Charges the innermost frame, from the balance before and after.
    pub fn charge_to_active(&mut self, before: u64, after: u64)
        requires
            old(self)@.valid(),
        ensures
            final(self)@ == old(self)@.charged(before, after),
            final(self)@.valid(),
            final(self).meter() == old(self).meter(),
    {
        let cost = delegate_charge(before, after);
        let frame = self.active();
        frame.self_gas = frame.self_gas.saturating_add(cost);
    }

    /// Charges the execution of a native to the innermost frame.
    pub fn charge_native_execution(&mut self, amount: u64)
        requires
            old(self)@.valid(),
        ensures
            final(self)@ == old(self)@.native_charged(amount),
            final(self)@.valid(),
            final(self).meter() == old(self).meter(),
    {
        let frame = self.active();
        frame.native_gas = frame.native_gas.saturating_add(amount);
    }

    /// Ends the innermost call and gives it to its caller. The entry frame is
    /// never ended.
    pub fn pop_into_parent(&mut self)
        requires
            old(self)@.valid(),
            old(self)@.frames.len() > 1 ==> old(self)@.active().fits(),
        ensures
            final(self)@ == old(self)@.returned(),
            final(self)@.valid(),
            final(self).meter() == old(self).meter(),
    {
        broadcast use lemma_children_view;

        let ghost before = self@;
        if self.frames.len() > 1 {
            if let Some(frame) = self.frames.pop() {
                assert(self@.frames =~= before.frames.drop_last());
                assert(frame@ == before.active());
                let done = frame.finish();
                let ghost closed = done@;
                let parent = self.active();
                let ghost children = parent.node.children@;
                parent.node.children.push(done);
                assert(node_views(children.push(done)) =~= node_views(children).push(closed));
            }
        }
    }

    /// Records a call: its instruction is charged to the caller, then a frame
    /// is opened for it. A name that is not an identifier is shown as unknown.
    pub fn charge_call_generic(
        &mut self,
        before: u64,
        after: u64,
        module_id: &ModuleId,
        func_name: &str,
        ty_args: Vec<String>,
        args: Vec<TracedArg>,
    )
        requires
            old(self)@.valid(),
        ensures
            final(self)@ == old(self)@.charged(before, after).called(
                function_frame(
                    module_id@,
                    shown_name(func_name@),
                    texts(ty_args@),
                    arg_views(args@),
                ),
            ),
            final(self)@.valid(),
            final(self).meter() == old(self).meter(),
    {
        self.charge_to_active(before, after);
        let name = match identifier(func_name) {
            Ok(name) => name,
            Err(_) => "unknown".to_owned(),
        };
        let frame = FrameBuilder::function(module_id, name, ty_args, args);
        let ghost charged = self@;
        self.frames.push(frame);
        assert(self@.frames =~= charged.frames.push(frame@));
    }

    /// Records a call of a function without type arguments.
    pub fn charge_call(
        &mut self,
        before: u64,
        after: u64,
        module_id: &ModuleId,
        func_name: &str,
        args: Vec<TracedArg>,
    )
        requires
            old(self)@.valid(),
        ensures
            final(self)@ == old(self)@.charged(before, after).called(
                function_frame(
                    module_id@,
                    shown_name(func_name@),
                    Seq::empty(),
                    arg_views(args@),
                ),
            ),
            final(self)@.valid(),
            final(self).meter() == old(self).meter(),
    {
        let none: Vec<String> = Vec::new();
        assert(texts(none@) =~= Seq::empty());
        self.charge_call_generic(before, after, module_id, func_name, none, args);
    }

    /// Records that the innermost call was a native and has returned. Its cost
    /// is its own; an entry frame only takes the charge.
    pub fn charge_native_function(
        &mut self,
        before: u64,
        after: u64,
        ret_vals: Option<Vec<TracedArg>>,
    )
        requires
            old(self)@.valid(),
            old(self)@.frames.len() > 1 ==> old(self)@.charged(before, after).active().fits(),
        ensures
            final(self)@ == if old(self)@.frames.len() > 1 {
                old(self)@.charged(before, after).native(
                    match ret_vals {
                        Some(vals) => arg_views(vals@),
                        None => Seq::empty(),
                    },
                ).returned()
            } else {
                old(self)@.charged(before, after)
            },
            final(self)@.valid(),
            final(self).meter() == old(self).meter(),
    {
        broadcast use lemma_children_view;

        let values = match ret_vals {
            Some(vals) => vals,
            None => Vec::new(),
        };
        assert(arg_views(values@) =~= match ret_vals {
            Some(vals) => arg_views(vals@),
            None => Seq::empty(),
        });
        self.charge_to_active(before, after);
        if self.frames.len() > 1 {
            let frame = self.active();
            frame.node.kind = "native".to_owned();
            frame.node.ret = values;
            self.pop_into_parent();
        }
    }
}

impl<G> TracerMeter<G> {
    /// Records a storage access of the innermost frame.
    fn record_access(&mut self, op: &str, ty: String, address: Option<String>)
        requires
            old(self)@.valid(),
        ensures
            final(self)@ == old(self)@.accessed(op@, ty@, opt_text(address)),
            final(self)@.valid(),
            final(self).meter() == old(self).meter(),
    {
        broadcast use lemma_children_view;

        let entry = StorageOp { op: op.to_owned(), ty, address };
        let frame = self.active();
        let ghost held = frame.node.storage@;
        frame.node.storage.push(entry);
        assert(storage_views(held.push(entry)) =~= storage_views(held).push(entry@));
    }

    /// Records a borrow of a resource, where it succeeded.
    pub fn charge_borrow_global(
        &mut self,
        before: u64,
        after: u64,
        is_mut: bool,
        ty: String,
        is_success: bool,
    )
        requires
            old(self)@.valid(),
        ensures
            final(self)@ == if is_success {
                old(self)@.charged(before, after).accessed(
                    if is_mut {
                        "borrow_global_mut"@
                    } else {
                        "borrow_global"@
                    },
                    ty@,
                    None,
                )
            } else {
                old(self)@.charged(before, after)
            },
            final(self)@.valid(),
            final(self).meter() == old(self).meter(),
    {
        self.charge_to_active(before, after);
        if is_success {
            if is_mut {
                self.record_access("borrow_global_mut", ty, None);
            } else {
                self.record_access("borrow_global", ty, None);
            }
        }
    }

    /// Records that a resource was taken out of storage.
    pub fn charge_move_from(&mut self, before: u64, after: u64, ty: String)
        requires
            old(self)@.valid(),
        ensures
            final(self)@ == old(self)@.charged(before, after).accessed("move_from"@, ty@, None),
            final(self)@.valid(),
            final(self).meter() == old(self).meter(),
    {
        self.charge_to_active(before, after);
        self.record_access("move_from", ty, None);
    }

    /// Records that a resource was put into storage, where that succeeded.
    pub fn charge_move_to(&mut self, before: u64, after: u64, ty: String, is_success: bool)
        requires
            old(self)@.valid(),
        ensures
            final(self)@ == if is_success {
                old(self)@.charged(before, after).accessed("move_to"@, ty@, None)
            } else {
                old(self)@.charged(before, after)
            },
            final(self)@.valid(),
            final(self).meter() == old(self).meter(),
    {
        self.charge_to_active(before, after);
        if is_success {
            self.record_access("move_to", ty, None);
        }
    }

    /// Records that a resource of an account was loaded.
    pub fn charge_load_resource(
        &mut self,
        before: u64,
        after: u64,
        addr: &AccountAddress,
        ty: String,
    )
        requires
            old(self)@.valid(),
        ensures
            final(self)@ == old(self)@.charged(before, after).accessed(
                "load_resource"@,
                ty@,
                Some(hex_literal(addr@)),
            ),
            final(self)@.valid(),
            final(self).meter() == old(self).meter(),
    {
        self.charge_to_active(before, after);
        self.record_access("load_resource", ty, Some(addr.to_hex_literal()));
    }

    /// The position of the frame that an event is attached to.
    fn event_sink_index(&self) -> (res: usize)
        requires
            self@.valid(),
        ensures
            res == sink_index(self@.frames),
            res < self@.frames.len(),
    {
        let ghost all = self@.frames;
        let mut i: usize = self.frames.len() - 1;
        assert(all.take(i + 1) =~= all);
        while i > 0
            invariant
                self@.frames == all,
                all == frame_views(self.frames@),
                i < all.len(),
                sink_index(all) == sink_index(all.take(i + 1)),
            decreases i,
        {
            let ghost shown = all.take(i + 1);
            assert(shown.last() == self.frames@[i as int]@);
            assert(shown.drop_last() =~= all.take(i as int));
            let passes_on = match &self.frames[i].node.module {
                Some(module) => same_text(module.as_str(), "0x1::event"),
                None => false,
            };
            if !passes_on {
                return i;
            }
            i -= 1;
        }
        0
    }

    /// Records an event, with its type tag and its BCS payload, at the innermost
    /// frame that is not of the event module.
    pub fn record_event(&mut self, ty_tag: &str, data: Vec<u8>)
        requires
            old(self)@.valid(),
        ensures
            final(self)@ == old(self)@.noted(fresh_event(ty_tag@, data@)),
            final(self)@.valid(),
            final(self).meter() == old(self).meter(),
    {
        broadcast use lemma_children_view;

        let ghost before = self@;
        let at = self.event_sink_index();
        let event = TracedEvent {
            ty: ty_tag.to_owned(),
            data: Json::Null,
            raw: Some((ty_tag.to_owned(), data)),
        };
        let ghost held = self.frames@[at as int].node.events@;
        self.frames[at].node.events.push(event);
        assert(event_views(held.push(event)) =~= event_views(held).push(event@));
        assert(self@.frames =~= before.frames.update(
            at as int,
            before.frames[at as int].emitted(event@),
        ));
    }

    /// Records that the innermost call has returned with some values.
    pub fn record_move_return(&mut self, ret_vals: Vec<TracedArg>)
        requires
            old(self)@.valid(),
            old(self)@.frames.len() > 1 ==> old(self)@.active().fits(),
        ensures
            final(self)@ == old(self)@.with_ret(returned_values(arg_views(ret_vals@))).returned(),
            final(self)@.valid(),
            final(self).meter() == old(self).meter(),
    {
        broadcast use lemma_children_view;

        let mut values = ret_vals;
        if values.len() == 0 {
            values.push(unit_arg());
        }
        assert(arg_views(values@) =~= returned_values(arg_views(ret_vals@)));
        let frame = self.active();
        frame.node.ret = values;
        self.pop_into_parent();
    }

    /// Records the arguments of the entry point, when that is what starts: only
    /// before any call, only once, and only for the function or script that the
    /// tracer was made for. Leading arguments beyond those that the user gave
    /// are left out.
    pub fn record_entry_args(
        &mut self,
        module_id: Option<&ModuleId>,
        name: &str,
        args: Vec<TracedArg>,
    )
        requires
            old(self)@.valid(),
        ensures
            final(self)@ == old(self)@.entered(
                match module_id {
                    Some(id) => Some(id@),
                    None => None,
                },
                name@,
                arg_views(args@),
            ),
            final(self)@.valid(),
            final(self).meter() == old(self).meter(),
    {
        broadcast use lemma_children_view;

        if self.frames.len() != 1 || self.frames[0].node.args.len() != 0 {
            return ;
        }
        assert(self@.active() == self.frames@[0]@);
        let starts = match (&self.frames[0].node.function, module_id) {
            (Some(function), Some(id)) => {
                let shown = format_module_id(id);
                match &self.frames[0].node.module {
                    Some(module) => same_text(shown.as_str(), module.as_str()) && same_text(
                        name,
                        function.as_str(),
                    ),
                    None => false,
                }
            },
            (None, None) => true,
            _ => false,
        };
        if starts {
            let skip = args.len().saturating_sub(self.user_arg_count);
            let mut args = args;
            let ghost all = args@;
            let given = args.split_off(skip);
            assert(arg_views(given@) =~= user_args(arg_views(all), self@.user_arg_count));
            let frame = self.active();
            frame.node.args = given;
        }
    }

    /// Ends all calls and gives the tree, with the calls that were active, the
    /// innermost first. After a success only the entry point is active; after an
    /// abort those are the calls in which it happened.
    pub fn finish(self) -> (res: (CallNode, Vec<AbortStackEntry>))
        requires
            self@.valid(),
            forall|i: int| 0 <= i < self@.frames.len() ==> (#[trigger] self@.frames[i]).fits(),
        ensures
            res.0@ == collapsed(self@.frames),
            entry_views(res.1@) == active_chain(self@.frames),
    {
        broadcast use lemma_children_view;

        let mut tracer = self;
        let ghost all = tracer@.frames;
        let count = tracer.frames.len();
        let mut chain: Vec<AbortStackEntry> = Vec::new();
        let mut i: usize = 0;
        while i < count
            invariant
                i <= count,
                count == all.len(),
                tracer@.frames == all,
                all == frame_views(tracer.frames@),
                chain@.len() == i,
                forall|j: int|
                    0 <= j < i ==> (#[trigger] chain@[j])@ == frame_entry(all[all.len() - 1 - j]),
            decreases count - i,
        {
            let frame = &tracer.frames[count - 1 - i];
            assert(frame@ == all[all.len() - 1 - i]);
            chain.push(
                AbortStackEntry {
                    module: copy_opt(&frame.node.module),
                    function: copy_opt(&frame.node.function),
                    offset: None,
                },
            );
            i += 1;
        }
        assert(entry_views(chain@) =~= active_chain(all));
        while tracer.frames.len() > 1
            invariant
                tracer@.valid(),
                tracer@.frames == frame_views(tracer.frames@),
                collapsed(tracer@.frames) == collapsed(all),
                forall|j: int|
                    0 <= j < tracer@.frames.len() ==> (#[trigger] tracer@.frames[j]).fits(),
            decreases tracer.frames@.len(),
        {
            let ghost before = tracer@;
            assert(before.frames[before.frames.len() - 1].fits());
            tracer.pop_into_parent();
            assert forall|j: int| 0 <= j < tracer@.frames.len() implies (
            #[trigger] tracer@.frames[j]).fits() by {
                assert(before.frames[j].fits());
            }
        }
        let ghost last = tracer@.frames;
        assert(last[0].fits());
        let root = tracer.frames.remove(0);
        assert(root@ == last[0]);
        (root.finish(), chain)
    }
}

/// The values that a return is shown with: the unit where there are none.
pub open spec fn returned_values(values: Seq<ArgView>) -> Seq<ArgView> {
    if values.len() == 0 {
        seq![unit_view()]
    } else {
        values
    }
}

/// Whether what starts is the entry point, and its arguments are still unknown.
pub open spec fn is_entry(trace: TraceView, module: Option<ModuleIdView>, name: Seq<char>) -> bool {
    let entry = trace.active().node;
    &&& trace.frames.len() == 1
    &&& entry.args.len() == 0
    &&& match (entry.function, module) {
        (Some(function), Some(id)) => entry.module == Some(module_text(id)) && name == function,
        (None, None) => true,
        _ => false,
    }
}

/// The last `count` arguments.
pub open spec fn user_args(args: Seq<ArgView>, count: nat) -> Seq<ArgView> {
    if args.len() > count {
        args.skip(args.len() - count)
    } else {
        args
    }
}

/// The name under which a called function is shown.
pub open spec fn shown_name(name: Seq<char>) -> Seq<char> {
    if is_identifier(name) {
        name
    } else {
        "unknown"@
    }
}

} // verus!
