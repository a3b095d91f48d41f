//! What holds of every trace.
use crate::address::{law_module_text_injective, module_text, ModuleIdView};
use crate::json::Json;
use crate::trace::{event_decoded, events_decoded, lemma_children_view, node_views, CallNode,
    EventView, NodeView, StorageView};
use crate::tracer::{active_chain, charge_cost, collapsed, event_module, frame_entry, function_frame,
    gas_sum, is_entry, returned_values, sink_index, user_args, FrameView, TraceView};
use crate::value::ArgView;
use vstd::prelude::*;

verus! {

/// The gas of a call and of all calls below it.
pub open spec fn tree_gas(node: NodeView) -> int
    decreases node,
{
    node.gas + list_gas(node.children)
}

/// The gas of some calls and of all calls below them.
pub open spec fn list_gas(nodes: Seq<NodeView>) -> int
    decreases nodes,
{
    if nodes.len() == 0 {
        0
    } else {
        list_gas(nodes.drop_last()) + tree_gas(nodes.last())
    }
}

/// The gas of a frame and of the calls that it has made.
pub open spec fn frame_gas(frame: FrameView) -> int {
    frame.self_gas + frame.native_gas + list_gas(frame.node.children)
}

/// The gas of all frames and of the calls that they have made.
pub open spec fn total_gas(frames: Seq<FrameView>) -> int
    decreases frames.len(),
{
    if frames.len() == 0 {
        0
    } else {
        total_gas(frames.drop_last()) + frame_gas(frames.last())
    }
}

/// Replacing the innermost frame changes the sum by what that frame changes.
proof fn lemma_total_with_active(trace: TraceView, frame: FrameView)
    requires
        trace.valid(),
    ensures
        total_gas(trace.with_active(frame).frames) == total_gas(trace.frames) - frame_gas(
            trace.active(),
        ) + frame_gas(frame),
{
    let frames = trace.with_active(frame).frames;
    assert(frames.drop_last() =~= trace.frames.drop_last());
}

/// One more child adds its gas.
proof fn lemma_child_gas(frame: FrameView, child: NodeView)
    ensures
        frame_gas(frame.with_child(child)) == frame_gas(frame) + tree_gas(child),
{
    let children = frame.node.children;
    assert(children.push(child).drop_last() =~= children);
}

/// A charge adds exactly its cost to the gas of the trace, as long as the
/// frame's counter has room for it.
pub proof fn law_charge_adds_cost(trace: TraceView, before: u64, after: u64)
    requires
        trace.valid(),
        trace.active().self_gas + charge_cost(before, after) <= u64::MAX,
    ensures
        total_gas(trace.charged(before, after).frames) == total_gas(trace.frames) + charge_cost(
            before,
            after,
        ),
{
    lemma_total_with_active(trace, trace.active().charged(charge_cost(before, after)));
}

/// Opening a frame for a call adds no gas.
pub proof fn law_call_adds_no_gas(trace: TraceView, frame: FrameView)
    requires
        frame.self_gas == 0,
        frame.native_gas == 0,
        frame.node.children.len() == 0,
    ensures
        total_gas(trace.called(frame).frames) == total_gas(trace.frames),
{
    assert(trace.frames.push(frame).drop_last() =~= trace.frames);
}

/// A return moves gas from a frame into the tree below its caller and loses
/// none.
pub proof fn law_return_keeps_gas(trace: TraceView)
    requires
        trace.valid(),
        trace.active().fits(),
    ensures
        total_gas(trace.returned().frames) == total_gas(trace.frames),
{
    if trace.frames.len() > 1 {
        let rest = TraceView { frames: trace.frames.drop_last(), ..trace };
        let done = trace.active().closed();
        lemma_total_with_active(rest, rest.active().with_child(done));
        lemma_child_gas(rest.active(), done);
    }
}

/// The finished tree holds the gas of all frames, each unit in the call that
/// used it.
pub proof fn law_tree_holds_all_gas(frames: Seq<FrameView>)
    requires
        frames.len() >= 1,
        forall|i: int| 0 <= i < frames.len() ==> (#[trigger] frames[i]).fits(),
    ensures
        tree_gas(collapsed(frames)) == total_gas(frames),
    decreases frames.len(),
{
    assert(frames[frames.len() - 1].fits());
    if frames.len() == 1 {
        assert(frames.drop_last() =~= Seq::empty());
        assert(total_gas(frames.drop_last()) == 0);
    } else {
        let trace = TraceView { frames, user_arg_count: 0 };
        let next = trace.returned().frames;
        law_return_keeps_gas(trace);
        assert forall|i: int| 0 <= i < next.len() implies (#[trigger] next[i]).fits() by {
            assert(frames[i].fits());
        }
        law_tree_holds_all_gas(next);
    }
}

/// A call and its return leave the caller with one more child and every frame
/// below it as it was.
pub proof fn law_call_and_return(trace: TraceView, frame: FrameView, ret: Seq<ArgView>)
    requires
        trace.valid(),
    ensures
        trace.called(frame).with_ret(ret).returned() == trace.with_active(
            trace.active().with_child(
                FrameView { node: NodeView { ret, ..frame.node }, ..frame }.closed(),
            ),
        ),
        trace.called(frame).native(ret).returned() == trace.with_active(
            trace.active().with_child(
                FrameView {
                    node: NodeView { kind: "native"@, ret, ..frame.node },
                    ..frame
                }.closed(),
            ),
        ),
{
    let opened = trace.called(frame);
    assert(opened.frames.drop_last() =~= trace.frames);
    assert(opened.with_ret(ret).frames.drop_last() =~= trace.frames);
    assert(opened.native(ret).frames.drop_last() =~= trace.frames);
}

/// A return never ends the entry frame.
pub proof fn law_entry_frame_stays(trace: TraceView)
    requires
        trace.valid(),
    ensures
        trace.returned().valid(),
        trace.frames.len() == 1 ==> trace.returned() == trace,
        trace.frames.len() > 1 ==> trace.returned().frames.len() == trace.frames.len() - 1,
{
}

/// An event is attached to the innermost frame outside the event module, and to
/// the entry frame where all others are inside it.
pub proof fn law_event_sink(frames: Seq<FrameView>)
    requires
        frames.len() >= 1,
    ensures
        0 <= sink_index(frames) < frames.len(),
        sink_index(frames) == 0 || frames[sink_index(frames)].node.module != Some(event_module()),
        forall|i: int|
            sink_index(frames) < i < frames.len() ==> (#[trigger] frames[i]).node.module == Some(
                event_module(),
            ),
    decreases frames.len(),
{
    if frames.len() > 1 && frames.last().node.module == Some(event_module()) {
        let rest = frames.drop_last();
        law_event_sink(rest);
        assert forall|i: int| sink_index(frames) < i < frames.len() implies (
        #[trigger] frames[i]).node.module == Some(event_module()) by {
            if i < frames.len() - 1 {
                assert(rest[i].node.module == Some(event_module()));
            }
        }
    }
}

/// Of a tracer that was made for a function, exactly that function is taken for
/// the entry point.
pub proof fn law_entry_is_recognised(
    trace: TraceView,
    entry: ModuleIdView,
    function: Seq<char>,
    type_args: Seq<Seq<char>>,
    module: Option<ModuleIdView>,
    name: Seq<char>,
)
    requires
        trace.frames == seq![function_frame(entry, function, type_args, Seq::empty())],
        entry.address.len() == 32,
        module is Some ==> module->0.address.len() == 32,
    ensures
        is_entry(trace, module, name) <==> module == Some(entry) && name == function,
{
    if module is Some && module_text(module->0) == module_text(entry) {
        law_module_text_injective(module->0, entry);
    }
}

/// A native's execution adds exactly its amount to the gas of the trace, as
/// long as the frame's counter has room for it.
pub proof fn law_native_execution_adds_amount(trace: TraceView, amount: u64)
    requires
        trace.valid(),
        trace.active().native_gas + amount <= u64::MAX,
    ensures
        total_gas(trace.native_charged(amount).frames) == total_gas(trace.frames) + amount,
{
    lemma_total_with_active(
        trace,
        FrameView { native_gas: gas_sum(trace.active().native_gas, amount), ..trace.active() },
    );
}

/// The finished tree has the entry point at its root: its kind, its names, its
/// arguments and what it emitted and accessed.
pub proof fn law_root_is_entry(frames: Seq<FrameView>)
    requires
        frames.len() >= 1,
    ensures
        collapsed(frames).kind == frames[0].node.kind,
        collapsed(frames).module == frames[0].node.module,
        collapsed(frames).function == frames[0].node.function,
        collapsed(frames).type_args == frames[0].node.type_args,
        collapsed(frames).args == frames[0].node.args,
        collapsed(frames).ret == frames[0].node.ret,
        collapsed(frames).events == frames[0].node.events,
        collapsed(frames).storage == frames[0].node.storage,
        collapsed(frames).gas == frames[0].closed().gas,
    decreases frames.len(),
{
    if frames.len() > 1 {
        let rest = frames.drop_last();
        law_root_is_entry(rest.drop_last().push(rest.last().with_child(frames.last().closed())));
    }
}

/// The calls that an abort reports are those still open, the innermost first
/// and the entry point last; after a success that is the entry point alone.
pub proof fn law_active_chain(trace: TraceView)
    requires
        trace.valid(),
    ensures
        active_chain(trace.frames).len() == trace.frames.len(),
        active_chain(trace.frames)[0] == frame_entry(trace.active()),
        active_chain(trace.frames).last() == frame_entry(trace.frames[0]),
        trace.frames.len() == 1 ==> active_chain(trace.frames) == seq![
            frame_entry(trace.frames[0]),
        ],
        forall|frame: FrameView|
            #[trigger] active_chain(trace.called(frame).frames) == seq![frame_entry(frame)]
                + active_chain(trace.frames),
{
    if trace.frames.len() == 1 {
        assert(active_chain(trace.frames) =~= seq![frame_entry(trace.frames[0])]);
    }
    assert forall|frame: FrameView|
        #[trigger] active_chain(trace.called(frame).frames) == seq![frame_entry(frame)]
            + active_chain(trace.frames) by {
        assert(active_chain(trace.called(frame).frames) =~= seq![frame_entry(frame)]
            + active_chain(trace.frames));
    }
}

/// No event of a call tree has an undecoded payload.
pub open spec fn fully_decoded(node: CallNode) -> bool
    decreases node,
{
    &&& forall|i: int| 0 <= i < node.events@.len() ==> (#[trigger] node.events@[i]).raw is None
    &&& forall|i: int| 0 <= i < node.children@.len() ==> fully_decoded(#[trigger] node.children@[i])
}

/// Decoding leaves no payload undecoded.
pub proof fn law_decoding_is_complete<F: Fn(&String, &Vec<u8>) -> Json>(
    decode: F,
    old_node: CallNode,
    new_node: CallNode,
)
    requires
        events_decoded(decode, old_node, new_node),
    ensures
        fully_decoded(new_node),
    decreases old_node,
{
    assert forall|i: int| 0 <= i < new_node.events@.len() implies (
    #[trigger] new_node.events@[i]).raw is None by {
        assert(event_decoded(decode, old_node.events@[i], new_node.events@[i]));
    }
    assert forall|i: int| 0 <= i < new_node.children@.len() implies fully_decoded(
        #[trigger] new_node.children@[i],
    ) by {
        assert(decreases_to!(old_node.children@ => old_node.children@[i]));
        law_decoding_is_complete(decode, old_node.children@[i], new_node.children@[i]);
    }
}

/// Decoding a tree without payloads changes nothing.
pub proof fn law_decoding_once_is_enough<F: Fn(&String, &Vec<u8>) -> Json>(
    decode: F,
    old_node: CallNode,
    new_node: CallNode,
)
    requires
        fully_decoded(old_node),
        events_decoded(decode, old_node, new_node),
    ensures
        new_node@ == old_node@,
    decreases old_node,
{
    broadcast use lemma_children_view;

    assert forall|i: int| 0 <= i < old_node.events@.len() implies new_node.events@[i]
        == old_node.events@[i] by {
        assert(event_decoded(decode, old_node.events@[i], new_node.events@[i]));
        assert(old_node.events@[i].raw is None);
    }
    assert(new_node.events@ =~= old_node.events@);
    assert forall|i: int| 0 <= i < old_node.children@.len() implies new_node.children@[i]@
        == old_node.children@[i]@ by {
        assert(fully_decoded(old_node.children@[i]));
        assert(decreases_to!(old_node.children@ => old_node.children@[i]));
        law_decoding_once_is_enough(decode, old_node.children@[i], new_node.children@[i]);
    }
    assert(node_views(new_node.children@) =~= node_views(old_node.children@));
}

/// How a call ends.
pub enum End {
    /// A Move function returns some values.
    Move { ret: Seq<ArgView> },
    /// A native, charged by the balances before and after it, gives some values.
    Native { before: u64, after: u64, ret: Seq<ArgView> },
}

/// Something that happens in a call.
pub enum Step {
    /// An instruction is charged, by the balances before and after it.
    Charge { before: u64, after: u64 },
    /// A native's execution is charged.
    Execution { amount: u64 },
    /// The storage is accessed.
    Access { op: StorageView },
    /// An event is emitted.
    Event { event: EventView },
    /// The interpreter enters something, with its arguments.
    Entry { module: Option<ModuleIdView>, name: Seq<char>, args: Seq<ArgView> },
    /// A call is made, charged by the balances before and after it: things
    /// happen in the callee, then it ends.
    Call { before: u64, after: u64, callee: FrameView, body: Seq<Step>, end: End },
}

/// The tracer after a call has ended.
pub open spec fn ended(trace: TraceView, end: End) -> TraceView {
    match end {
        End::Move { ret } => trace.with_ret(returned_values(ret)).returned(),
        End::Native { before, after, ret } => trace.charged(before, after).native(ret).returned(),
    }
}

/// The tracer after its callbacks for a step.
pub open spec fn stepped(trace: TraceView, step: Step) -> TraceView
    decreases step, 0nat,
{
    match step {
        Step::Charge { before, after } => trace.charged(before, after),
        Step::Execution { amount } => trace.native_charged(amount),
        Step::Access { op } => trace.accessed(op.op, op.ty, op.address),
        Step::Event { event } => trace.noted(event),
        Step::Entry { module, name, args } => trace.entered(module, name, args),
        Step::Call { before, after, callee, body, end } => ended(
            stepped_all(trace.charged(before, after).called(callee), body, body.len()),
            end,
        ),
    }
}

/// The tracer after its callbacks for the first `count` of some steps.
pub open spec fn stepped_all(trace: TraceView, steps: Seq<Step>, count: nat) -> TraceView
    decreases steps, count,
{
    if count == 0 || count > steps.len() {
        trace
    } else {
        stepped(stepped_all(trace, steps, (count - 1) as nat), steps[count - 1])
    }
}

/// A frame as it ends.
pub open spec fn ended_frame(frame: FrameView, end: End) -> FrameView {
    match end {
        End::Move { ret } => FrameView {
            node: NodeView { ret: returned_values(ret), ..frame.node },
            ..frame
        },
        End::Native { before, after, ret } => {
            let charged = frame.charged(charge_cost(before, after));
            FrameView { node: NodeView { kind: "native"@, ret, ..charged.node }, ..charged }
        },
    }
}

/// Whether the events that reach a call stay with it: it is not of the event
/// module.
pub open spec fn keeps_events(frame: FrameView) -> bool {
    frame.node.module != Some(event_module())
}

/// A frame with more events, after those that it has.
pub open spec fn with_events(frame: FrameView, events: Seq<EventView>) -> FrameView {
    FrameView { node: NodeView { events: frame.node.events + events, ..frame.node }, ..frame }
}

/// The events of a step that reach the call in which it happens: those that it
/// emits, and those that its callees pass on.
pub open spec fn arriving(step: Step) -> Seq<EventView>
    decreases step, 0nat,
{
    match step {
        Step::Event { event } => seq![event],
        Step::Call { callee, body, .. } => if keeps_events(callee) {
            Seq::empty()
        } else {
            arriving_all(body, body.len())
        },
        _ => Seq::empty(),
    }
}

/// The events of the first `count` of some steps that reach the call in which
/// they happen, in their order.
pub open spec fn arriving_all(steps: Seq<Step>, count: nat) -> Seq<EventView>
    decreases steps, count,
{
    if count == 0 || count > steps.len() {
        Seq::empty()
    } else {
        arriving_all(steps, (count - 1) as nat) + arriving(steps[count - 1])
    }
}

/// What an entry of the interpreter does to a frame: where it is the entry
/// frame, which is given with the count of the user's arguments, its arguments
/// are still unknown and it is what is entered, it has them.
pub open spec fn after_entry(
    frame: FrameView,
    user_arg_count: Option<nat>,
    module: Option<ModuleIdView>,
    name: Seq<char>,
    args: Seq<ArgView>,
) -> FrameView {
    match user_arg_count {
        Some(count) => {
            let trace = TraceView { frames: seq![frame], user_arg_count: count };
            if is_entry(trace, module, name) {
                frame.with_args(user_args(args, count))
            } else {
                frame
            }
        },
        None => frame,
    }
}

/// What a step does to the frame in which it happens, apart from its events: a
/// call takes the charge of its instruction and gains the finished callee as a
/// child.
pub open spec fn after_step(frame: FrameView, user_arg_count: Option<nat>, step: Step) -> FrameView
    decreases step, 0nat,
{
    match step {
        Step::Charge { before, after } => frame.charged(charge_cost(before, after)),
        Step::Execution { amount } => FrameView {
            native_gas: gas_sum(frame.native_gas, amount),
            ..frame
        },
        Step::Access { op } => frame.accessed(op),
        Step::Event { event } => frame,
        Step::Entry { module, name, args } => after_entry(
            frame,
            user_arg_count,
            module,
            name,
            args,
        ),
        Step::Call { before, after, callee, body, end } => {
            let run = after_steps(callee, None, body, body.len());
            let done = if keeps_events(callee) {
                with_events(run, arriving_all(body, body.len()))
            } else {
                run
            };
            frame.charged(charge_cost(before, after)).with_child(ended_frame(done, end).closed())
        },
    }
}

/// What the first `count` of some steps do to the frame in which they happen,
/// apart from their events.
pub open spec fn after_steps(
    frame: FrameView,
    user_arg_count: Option<nat>,
    steps: Seq<Step>,
    count: nat,
) -> FrameView
    decreases steps, count,
{
    if count == 0 || count > steps.len() {
        frame
    } else {
        after_step(
            after_steps(frame, user_arg_count, steps, (count - 1) as nat),
            user_arg_count,
            steps[count - 1],
        )
    }
}

/// The count of the user's arguments, where only the entry frame is open.
pub open spec fn entry_count(trace: TraceView) -> Option<nat> {
    if trace.frames.len() == 1 {
        Some(trace.user_arg_count)
    } else {
        None
    }
}

/// The tracer after some events.
pub open spec fn noted_all(trace: TraceView, events: Seq<EventView>) -> TraceView {
    let at = sink_index(trace.frames);
    TraceView { frames: trace.frames.update(at, with_events(trace.frames[at], events)), ..trace }
}

/// Putting a frame in place of the innermost one, twice or around a call.
proof fn lemma_with_active(trace: TraceView, a: FrameView, b: FrameView)
    requires
        trace.valid(),
    ensures
        trace.with_active(trace.active()) == trace,
        trace.with_active(a).valid(),
        trace.with_active(a).active() == a,
        trace.with_active(a).with_active(b) == trace.with_active(b),
        trace.called(a).active() == a,
        trace.called(a).with_active(b) == trace.called(b),
        trace.called(a).returned() == trace.with_active(trace.active().with_child(a.closed())),
{
    assert(trace.with_active(trace.active()).frames =~= trace.frames);
    assert(trace.with_active(a).with_active(b).frames =~= trace.with_active(b).frames);
    assert(trace.called(a).with_active(b).frames =~= trace.called(b).frames);
    assert(trace.called(a).frames.drop_last() =~= trace.frames);
}

/// Where an event goes depends on the modules of the frames alone.
proof fn lemma_sink_by_modules(a: Seq<FrameView>, b: Seq<FrameView>)
    requires
        a.len() == b.len(),
        forall|i: int| 0 <= i < a.len() ==> (#[trigger] a[i]).node.module == b[i].node.module,
    ensures
        sink_index(a) == sink_index(b),
    decreases a.len(),
{
    if a.len() > 1 {
        assert(a[a.len() - 1].node.module == b[b.len() - 1].node.module);
        let c = a.drop_last();
        let d = b.drop_last();
        assert forall|i: int| 0 <= i < c.len() implies (#[trigger] c[i]).node.module
            == d[i].node.module by {
            assert(a[i].node.module == b[i].node.module);
        }
        lemma_sink_by_modules(c, d);
    }
}

/// A step keeps the module of its frame.
proof fn lemma_step_keeps_module(frame: FrameView, user_arg_count: Option<nat>, step: Step)
    ensures
        after_step(frame, user_arg_count, step).node.module == frame.node.module,
{
}

/// Steps keep the module of their frame.
proof fn lemma_steps_keep_module(
    frame: FrameView,
    user_arg_count: Option<nat>,
    steps: Seq<Step>,
    count: nat,
)
    ensures
        after_steps(frame, user_arg_count, steps, count).node.module == frame.node.module,
    decreases count,
{
    if 0 < count <= steps.len() {
        lemma_steps_keep_module(frame, user_arg_count, steps, (count - 1) as nat);
        lemma_step_keeps_module(
            after_steps(frame, user_arg_count, steps, (count - 1) as nat),
            user_arg_count,
            steps[count - 1],
        );
    }
}

/// What a step does to a frame does not depend on the frame's events.
proof fn lemma_step_beside_events(
    frame: FrameView,
    events: Seq<EventView>,
    user_arg_count: Option<nat>,
    step: Step,
)
    ensures
        after_step(with_events(frame, events), user_arg_count, step) == with_events(
            after_step(frame, user_arg_count, step),
            events,
        ),
{
}

/// Events and another innermost frame of the same module do not disturb each
/// other.
proof fn lemma_noted_beside_active(trace: TraceView, events: Seq<EventView>, frame: FrameView)
    requires
        trace.valid(),
        frame.node.module == trace.active().node.module,
    ensures
        noted_all(trace, events).valid(),
        noted_all(trace, events).frames.len() == trace.frames.len(),
        ({
            let kept = if sink_index(trace.frames) == trace.frames.len() - 1 {
                with_events(trace.active(), events)
            } else {
                trace.active()
            };
            noted_all(trace, events).active() == kept
        }),
        ({
            let put = if sink_index(trace.frames) == trace.frames.len() - 1 {
                with_events(frame, events)
            } else {
                frame
            };
            noted_all(trace, events).with_active(put) == noted_all(
                trace.with_active(frame),
                events,
            )
        }),
{
    law_event_sink(trace.frames);
    let at = sink_index(trace.frames);
    let next = trace.with_active(frame);
    assert forall|i: int| 0 <= i < trace.frames.len() implies (
    #[trigger] trace.frames[i]).node.module == next.frames[i].node.module by {}
    lemma_sink_by_modules(trace.frames, next.frames);
    let put = if at == trace.frames.len() - 1 {
        with_events(frame, events)
    } else {
        frame
    };
    assert(noted_all(trace, events).with_active(put).frames =~= noted_all(next, events).frames);
}

/// Events in two parts are the same as all at once, and none are none.
proof fn lemma_noted_in_parts(trace: TraceView, a: Seq<EventView>, b: Seq<EventView>)
    requires
        trace.valid(),
    ensures
        noted_all(noted_all(trace, a), b) == noted_all(trace, a + b),
        noted_all(trace, Seq::empty()) == trace,
{
    law_event_sink(trace.frames);
    let at = sink_index(trace.frames);
    let next = noted_all(trace, a);
    lemma_sink_by_modules(trace.frames, next.frames);
    let held = trace.frames[at].node.events;
    assert((held + a) + b =~= held + (a + b));
    assert(held + Seq::<EventView>::empty() =~= held);
    assert(noted_all(next, b).frames =~= noted_all(trace, a + b).frames);
    assert(noted_all(trace, Seq::empty()).frames =~= trace.frames);
}

/// Events that reach a call stay with it, or go where its caller's go.
proof fn lemma_noted_in_call(trace: TraceView, frame: FrameView, events: Seq<EventView>)
    requires
        trace.valid(),
    ensures
        noted_all(trace.called(frame), events) == if keeps_events(frame) {
            trace.called(with_events(frame, events))
        } else {
            noted_all(trace, events).called(frame)
        },
{
    let opened = trace.called(frame);
    law_event_sink(trace.frames);
    assert(opened.frames.drop_last() =~= trace.frames);
    if keeps_events(frame) {
        assert(noted_all(opened, events).frames =~= trace.called(with_events(frame, events)).frames);
    } else {
        assert(noted_all(opened, events).frames =~= noted_all(trace, events).called(frame).frames);
    }
}

/// The end of a call gives it to its caller.
proof fn lemma_ended(trace: TraceView, frame: FrameView, end: End)
    requires
        trace.valid(),
    ensures
        ended(trace.called(frame), end) == trace.with_active(
            trace.active().with_child(ended_frame(frame, end).closed()),
        ),
{
    let closing = ended_frame(frame, end);
    lemma_with_active(trace, frame, closing);
    lemma_with_active(trace, closing, closing);
    if let End::Native { before, after, .. } = end {
        let charged = frame.charged(charge_cost(before, after));
        lemma_with_active(trace, frame, charged);
        lemma_with_active(trace, charged, closing);
    }
}

/// Whatever happens in a call, and in the calls below it, the tracer records it
/// in that call's frame alone, but for the events that reach it: they go to the
/// innermost frame outside the event module. Every other frame stays as it was.
pub proof fn law_step_stays_in_its_frame(trace: TraceView, step: Step)
    requires
        trace.valid(),
    ensures
        stepped(trace, step) == noted_all(
            trace.with_active(after_step(trace.active(), entry_count(trace), step)),
            arriving(step),
        ),
    decreases step, 0nat,
{
    let frame = trace.active();
    let after = after_step(frame, entry_count(trace), step);
    lemma_with_active(trace, after, after);
    lemma_noted_in_parts(trace.with_active(after), Seq::empty(), Seq::empty());
    match step {
        Step::Event { event } => {
            law_event_sink(trace.frames);
            let at = sink_index(trace.frames);
            assert(trace.frames[at].node.events + seq![event] =~= trace.frames[at].node.events.push(
                event,
            ));
        },
        Step::Entry { .. } => {
            if trace.frames.len() == 1 {
                assert(trace.frames =~= seq![frame]);
            }
        },
        Step::Call { before, after: left, callee, body, end } => {
            let charged = frame.charged(charge_cost(before, left));
            let caller = trace.charged(before, left);
            lemma_with_active(trace, charged, charged);
            let opened = caller.called(callee);
            law_steps_stay_in_their_frame(opened, body, body.len());
            let run = after_steps(callee, None, body, body.len());
            let events = arriving_all(body, body.len());
            lemma_with_active(caller, callee, run);
            lemma_steps_keep_module(callee, None, body, body.len());
            lemma_noted_in_call(caller, run, events);
            if keeps_events(callee) {
                let done = with_events(run, events);
                lemma_ended(caller, done, end);
                lemma_with_active(
                    trace,
                    charged,
                    charged.with_child(ended_frame(done, end).closed()),
                );
            } else {
                let noted = noted_all(caller, events);
                let child = ended_frame(run, end).closed();
                lemma_noted_beside_active(caller, events, charged.with_child(child));
                lemma_ended(noted, run, end);
                assert(with_events(charged, events).with_child(child) == with_events(
                    charged.with_child(child),
                    events,
                ));
                lemma_with_active(trace, charged, charged.with_child(child));
            }
        },
        _ => {},
    }
}

/// The same of several steps.
pub proof fn law_steps_stay_in_their_frame(trace: TraceView, steps: Seq<Step>, count: nat)
    requires
        trace.valid(),
        count <= steps.len(),
    ensures
        stepped_all(trace, steps, count) == noted_all(
            trace.with_active(after_steps(trace.active(), entry_count(trace), steps, count)),
            arriving_all(steps, count),
        ),
    decreases steps, count,
{
    let entry = entry_count(trace);
    if count == 0 {
        lemma_with_active(trace, trace.active(), trace.active());
        lemma_noted_in_parts(trace, Seq::empty(), Seq::empty());
    } else {
        let last = (count - 1) as nat;
        let step = steps[count - 1];
        law_steps_stay_in_their_frame(trace, steps, last);
        let frame = after_steps(trace.active(), entry, steps, last);
        let events = arriving_all(steps, last);
        let moved = trace.with_active(frame);
        let before = noted_all(moved, events);
        lemma_with_active(trace, frame, after_step(frame, entry, step));
        lemma_step_keeps_module(frame, entry, step);
        lemma_noted_beside_active(moved, events, after_step(frame, entry, step));
        lemma_step_beside_events(frame, events, entry, step);
        law_step_stays_in_its_frame(before, step);
        lemma_noted_in_parts(
            moved.with_active(after_step(frame, entry, step)),
            events,
            arriving(step),
        );
    }
}

/// The finished tree mirrors the run: its root is the entry point with its
/// arguments and what happened in it, and below it stand the calls that it made,
/// each with what happened in it. Each event stands at the innermost call outside
/// the event module in which it was emitted, or at the root.
pub proof fn law_tree_mirrors_run(trace: TraceView, steps: Seq<Step>)
    requires
        trace.frames.len() == 1,
    ensures
        collapsed(stepped_all(trace, steps, steps.len()).frames) == with_events(
            after_steps(trace.active(), Some(trace.user_arg_count), steps, steps.len()),
            arriving_all(steps, steps.len()),
        ).closed(),
        active_chain(stepped_all(trace, steps, steps.len()).frames).len() == 1,
{
    law_steps_stay_in_their_frame(trace, steps, steps.len());
}

} // verus!
