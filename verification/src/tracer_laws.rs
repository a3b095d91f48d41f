//! What each callback of the meter leaves in the trace, and what is untouched.
use crate::address::{hex_literal, law_module_text_injective, module_text, AccountAddress, ModuleId};
use crate::names::is_identifier;
use crate::text::texts;
use crate::trace::{arg_views, entry_views, AbortStackEntry, CallNode, NodeView};
use crate::trace_laws::{law_event_sink, law_root_is_entry};
use crate::tracer::{collapsed, delegate_charge, sink_index, user_args, FrameView, TracerMeter};
use crate::transaction::{extract_entry, tracer_for, EntryFunction, EntrySeed, TransactionExecutable,
    TransactionPayload};
use crate::value::{ArgView, TracedArg};
use vstd::prelude::*;

verus! {

/// The frames from `from` to before `to` are as they were.
pub open spec fn same_between(a: Seq<FrameView>, b: Seq<FrameView>, from: int, to: int) -> bool {
    forall|i: int| from <= i < to ==> #[trigger] b[i] == a[i]
}

/// As many frames as before, and all but the innermost as they were.
pub open spec fn same_but_last(a: Seq<FrameView>, b: Seq<FrameView>) -> bool {
    b.len() == a.len() && same_between(a, b, 0, a.len() - 1)
}

/// The second is the first with the difference of two balances added to its own
/// gas. Nothing is added where the balance has grown, and the sum stops at the
/// largest amount.
pub open spec fn paid(a: FrameView, b: FrameView, before: u64, after: u64) -> bool {
    &&& b.node == a.node
    &&& b.native_gas == a.native_gas
    &&& after >= before ==> b.self_gas == a.self_gas
    &&& after < before && a.self_gas + (before - after) <= u64::MAX ==> b.self_gas == a.self_gas + (
    before - after)
    &&& after < before && a.self_gas + (before - after) > u64::MAX ==> b.self_gas == u64::MAX
}

/// Two calls agree but for what they gave back, their kind and their gas.
pub open spec fn same_call(a: NodeView, b: NodeView) -> bool {
    &&& b.module == a.module
    &&& b.function == a.function
    &&& b.type_args == a.type_args
    &&& b.args == a.args
    &&& b.events == a.events
    &&& b.storage == a.storage
    &&& b.children == a.children
}

/// Nothing has happened in a call.
pub open spec fn untouched(frame: FrameView) -> bool {
    &&& frame.self_gas == 0
    &&& frame.native_gas == 0
    &&& frame.node.gas == 0
    &&& frame.node.ret.len() == 0
    &&& frame.node.events.len() == 0
    &&& frame.node.storage.len() == 0
    &&& frame.node.children.len() == 0
}

/// A list of views shows a list of values, one for each, in order.
pub open spec fn shows_args(shown: Seq<ArgView>, args: Seq<TracedArg>) -> bool {
    shown.len() == args.len() && forall|i: int|
        0 <= i < args.len() ==> #[trigger] shown[i] == args[i]@
}

/// A list of texts shows a list of strings, one for each, in order.
pub open spec fn shows_texts(shown: Seq<Seq<char>>, list: Seq<String>) -> bool {
    shown.len() == list.len() && forall|i: int|
        0 <= i < list.len() ==> #[trigger] shown[i] == list[i]@
}

/// The values that a call is shown to give back: its own, or the unit.
pub open spec fn shows_return(shown: Seq<ArgView>, values: Seq<TracedArg>) -> bool {
    &&& values.len() > 0 ==> shows_args(shown, values)
    &&& values.len() == 0 ==> shown.len() == 1 && shown[0].ty == "()"@ && shown[0].value is Null
}

/// A charge is the difference of the balances.
pub proof fn law_cost_is_the_difference(before: u64, after: u64, res: u64)
    requires
        call_ensures(delegate_charge, (before, after), res),
    ensures
        after <= before ==> res + after == before,
        after > before ==> res == 0,
{
}

/// A charge is added to the innermost frame's own gas, and nothing else changes.
pub proof fn law_charge_goes_to_the_innermost<G>(
    tracer: &mut TracerMeter<G>,
    before: u64,
    after: u64,
)
    requires
        old(tracer)@.frames.len() >= 1,
        call_ensures(TracerMeter::<G>::charge_to_active, (tracer, before, after), ()),
    ensures
        same_but_last(old(tracer)@.frames, final(tracer)@.frames),
        paid(old(tracer)@.frames.last(), final(tracer)@.frames.last(), before, after),
        final(tracer)@.user_arg_count == old(tracer)@.user_arg_count,
        final(tracer).meter() == old(tracer).meter(),
{
}

/// A native's execution is added to the innermost frame's native gas, up to the
/// largest amount, and nothing else changes.
pub proof fn law_execution_goes_to_the_innermost<G>(tracer: &mut TracerMeter<G>, amount: u64)
    requires
        old(tracer)@.frames.len() >= 1,
        call_ensures(TracerMeter::<G>::charge_native_execution, (tracer, amount), ()),
    ensures
        same_but_last(old(tracer)@.frames, final(tracer)@.frames),
        ({
            let a = old(tracer)@.frames.last();
            let b = final(tracer)@.frames.last();
            &&& b.node == a.node
            &&& b.self_gas == a.self_gas
            &&& a.native_gas + amount <= u64::MAX ==> b.native_gas == a.native_gas + amount
            &&& a.native_gas + amount > u64::MAX ==> b.native_gas == u64::MAX
        }),
        final(tracer)@.user_arg_count == old(tracer)@.user_arg_count,
        final(tracer).meter() == old(tracer).meter(),
{
}

/// A call is charged to the caller and opens an innermost frame of its own, in
/// which nothing has happened yet.
pub proof fn law_call_opens_a_frame<G>(
    tracer: &mut TracerMeter<G>,
    before: u64,
    after: u64,
    module_id: &ModuleId,
    func_name: &str,
    ty_args: Vec<String>,
    args: Vec<TracedArg>,
)
    requires
        old(tracer)@.frames.len() >= 1,
        call_ensures(
            TracerMeter::<G>::charge_call_generic,
            (tracer, before, after, module_id, func_name, ty_args, args),
            (),
        ),
    ensures
        ({
            let a = old(tracer)@.frames;
            let b = final(tracer)@.frames;
            let opened = b.last();
            &&& b.len() == a.len() + 1
            &&& same_between(a, b, 0, a.len() - 1)
            &&& paid(a.last(), b[a.len() - 1], before, after)
            &&& untouched(opened)
            &&& opened.node.kind == "function"@
            &&& opened.node.module == Some(module_text(module_id@))
            &&& is_identifier(func_name@) ==> opened.node.function == Some(func_name@)
            &&& !is_identifier(func_name@) ==> opened.node.function == Some("unknown"@)
            &&& shows_texts(opened.node.type_args, ty_args@)
            &&& shows_args(opened.node.args, args@)
        }),
        final(tracer)@.user_arg_count == old(tracer)@.user_arg_count,
        final(tracer).meter() == old(tracer).meter(),
{
}

/// The same of a call without type arguments.
pub proof fn law_plain_call_opens_a_frame<G>(
    tracer: &mut TracerMeter<G>,
    before: u64,
    after: u64,
    module_id: &ModuleId,
    func_name: &str,
    args: Vec<TracedArg>,
)
    requires
        old(tracer)@.frames.len() >= 1,
        call_ensures(
            TracerMeter::<G>::charge_call,
            (tracer, before, after, module_id, func_name, args),
            (),
        ),
    ensures
        ({
            let a = old(tracer)@.frames;
            let b = final(tracer)@.frames;
            let opened = b.last();
            &&& b.len() == a.len() + 1
            &&& same_between(a, b, 0, a.len() - 1)
            &&& paid(a.last(), b[a.len() - 1], before, after)
            &&& untouched(opened)
            &&& opened.node.kind == "function"@
            &&& opened.node.module == Some(module_text(module_id@))
            &&& is_identifier(func_name@) ==> opened.node.function == Some(func_name@)
            &&& !is_identifier(func_name@) ==> opened.node.function == Some("unknown"@)
            &&& opened.node.type_args.len() == 0
            &&& shows_args(opened.node.args, args@)
        }),
        final(tracer)@.user_arg_count == old(tracer)@.user_arg_count,
        final(tracer).meter() == old(tracer).meter(),
{
}

/// The caller of the innermost frame has `child` as one more child, behind those
/// that it had; nothing else of it, and no frame below it, has changed.
pub open spec fn given_to_caller(a: Seq<FrameView>, b: Seq<FrameView>, child: NodeView) -> bool {
    let caller = a[a.len() - 2];
    let parent = b.last();
    &&& b.len() == a.len() - 1
    &&& same_between(a, b, 0, a.len() - 2)
    &&& parent.self_gas == caller.self_gas
    &&& parent.native_gas == caller.native_gas
    &&& parent.node.kind == caller.node.kind
    &&& parent.node.module == caller.node.module
    &&& parent.node.function == caller.node.function
    &&& parent.node.type_args == caller.node.type_args
    &&& parent.node.args == caller.node.args
    &&& parent.node.ret == caller.node.ret
    &&& parent.node.gas == caller.node.gas
    &&& parent.node.events == caller.node.events
    &&& parent.node.storage == caller.node.storage
    &&& parent.node.children == caller.node.children.push(child)
}

/// A call that ends is given to its caller with all that happened in it; its gas
/// is what its bytecode and its natives used. The entry frame does not end.
pub proof fn law_call_is_given_to_its_caller<G>(tracer: &mut TracerMeter<G>)
    requires
        old(tracer)@.frames.len() >= 1,
        old(tracer)@.frames.last().self_gas + old(tracer)@.frames.last().native_gas <= u64::MAX,
        call_ensures(TracerMeter::<G>::pop_into_parent, (tracer,), ()),
    ensures
        old(tracer)@.frames.len() == 1 ==> final(tracer)@ == old(tracer)@,
        old(tracer)@.frames.len() > 1 ==> ({
            let a = old(tracer)@.frames;
            let b = final(tracer)@.frames;
            let child = b.last().node.children.last();
            &&& given_to_caller(a, b, child)
            &&& same_call(a.last().node, child)
            &&& child.kind == a.last().node.kind
            &&& child.ret == a.last().node.ret
            &&& child.gas == a.last().self_gas + a.last().native_gas
        }),
        final(tracer)@.user_arg_count == old(tracer)@.user_arg_count,
        final(tracer).meter() == old(tracer).meter(),
{
}

/// A function that returns is given to its caller with the values that it
/// returned, or with the unit where it returned none. The entry point only keeps
/// its values.
pub proof fn law_return_has_its_values<G>(tracer: &mut TracerMeter<G>, ret_vals: Vec<TracedArg>)
    requires
        old(tracer)@.frames.len() >= 1,
        old(tracer)@.frames.last().self_gas + old(tracer)@.frames.last().native_gas <= u64::MAX,
        call_ensures(TracerMeter::<G>::record_move_return, (tracer, ret_vals), ()),
    ensures
        old(tracer)@.frames.len() == 1 ==> ({
            let a = old(tracer)@.frames[0];
            let b = final(tracer)@.frames[0];
            &&& final(tracer)@.frames.len() == 1
            &&& b.self_gas == a.self_gas
            &&& b.native_gas == a.native_gas
            &&& same_call(a.node, b.node)
            &&& b.node.kind == a.node.kind
            &&& b.node.gas == a.node.gas
            &&& shows_return(b.node.ret, ret_vals@)
        }),
        old(tracer)@.frames.len() > 1 ==> ({
            let a = old(tracer)@.frames;
            let b = final(tracer)@.frames;
            let child = b.last().node.children.last();
            &&& given_to_caller(a, b, child)
            &&& same_call(a.last().node, child)
            &&& child.kind == a.last().node.kind
            &&& shows_return(child.ret, ret_vals@)
            &&& child.gas == a.last().self_gas + a.last().native_gas
        }),
        final(tracer)@.user_arg_count == old(tracer)@.user_arg_count,
        final(tracer).meter() == old(tracer).meter(),
{
}

/// A native that was called takes the charge for itself and is given to its
/// caller as a native, with the values that it gave back, or with none. At the
/// entry point there is only the charge.
pub proof fn law_native_is_given_to_its_caller<G>(
    tracer: &mut TracerMeter<G>,
    before: u64,
    after: u64,
    ret_vals: Option<Vec<TracedArg>>,
    own: FrameView,
)
    requires
        old(tracer)@.frames.len() >= 1,
        paid(old(tracer)@.frames.last(), own, before, after),
        own.self_gas + own.native_gas <= u64::MAX,
        call_ensures(
            TracerMeter::<G>::charge_native_function,
            (tracer, before, after, ret_vals),
            (),
        ),
    ensures
        old(tracer)@.frames.len() == 1 ==> final(tracer)@.frames == seq![own],
        old(tracer)@.frames.len() > 1 ==> ({
            let a = old(tracer)@.frames;
            let b = final(tracer)@.frames;
            let child = b.last().node.children.last();
            &&& given_to_caller(a, b, child)
            &&& same_call(a.last().node, child)
            &&& child.kind == "native"@
            &&& ret_vals is Some ==> shows_args(child.ret, ret_vals->0@)
            &&& ret_vals is None ==> child.ret.len() == 0
            &&& child.gas == own.self_gas + own.native_gas
        }),
        final(tracer)@.user_arg_count == old(tracer)@.user_arg_count,
        final(tracer).meter() == old(tracer).meter(),
{
    let a = old(tracer)@.frames.last();
    assert(own == (FrameView { self_gas: own.self_gas, ..a }));
    if old(tracer)@.frames.len() == 1 {
        assert(final(tracer)@.frames =~= seq![own]);
    }
}

/// Only the innermost frame has changed: it was charged, and where `recorded`
/// says so, it has one more storage access behind those that it had.
pub open spec fn charged_and_accessed(
    a: Seq<FrameView>,
    b: Seq<FrameView>,
    before: u64,
    after: u64,
    recorded: bool,
    op: Seq<char>,
    ty: Seq<char>,
    address: Option<Seq<char>>,
) -> bool {
    let held = a.last().node;
    let shown = b.last().node;
    let entry = shown.storage.last();
    &&& same_but_last(a, b)
    &&& paid(a.last(), FrameView { node: held, ..b.last() }, before, after)
    &&& shown.kind == held.kind
    &&& shown.module == held.module
    &&& shown.function == held.function
    &&& shown.type_args == held.type_args
    &&& shown.args == held.args
    &&& shown.ret == held.ret
    &&& shown.gas == held.gas
    &&& shown.events == held.events
    &&& shown.children == held.children
    &&& !recorded ==> shown.storage == held.storage
    &&& recorded ==> {
        &&& shown.storage.len() == held.storage.len() + 1
        &&& shown.storage.drop_last() == held.storage
        &&& entry.op == op
        &&& entry.ty == ty
        &&& entry.address == address
    }
}

/// A borrow is recorded where it succeeded, by whether it can change the
/// resource.
pub proof fn law_borrow_is_recorded<G>(
    tracer: &mut TracerMeter<G>,
    before: u64,
    after: u64,
    is_mut: bool,
    ty: String,
    is_success: bool,
)
    requires
        old(tracer)@.frames.len() >= 1,
        call_ensures(
            TracerMeter::<G>::charge_borrow_global,
            (tracer, before, after, is_mut, ty, is_success),
            (),
        ),
    ensures
        is_mut ==> charged_and_accessed(
            old(tracer)@.frames,
            final(tracer)@.frames,
            before,
            after,
            is_success,
            "borrow_global_mut"@,
            ty@,
            None,
        ),
        !is_mut ==> charged_and_accessed(
            old(tracer)@.frames,
            final(tracer)@.frames,
            before,
            after,
            is_success,
            "borrow_global"@,
            ty@,
            None,
        ),
        final(tracer)@.user_arg_count == old(tracer)@.user_arg_count,
        final(tracer).meter() == old(tracer).meter(),
{
    lemma_appended(old(tracer)@.frames.last().node.storage);
}

/// A resource that is taken out of storage is recorded.
pub proof fn law_move_from_is_recorded<G>(
    tracer: &mut TracerMeter<G>,
    before: u64,
    after: u64,
    ty: String,
)
    requires
        old(tracer)@.frames.len() >= 1,
        call_ensures(TracerMeter::<G>::charge_move_from, (tracer, before, after, ty), ()),
    ensures
        charged_and_accessed(
            old(tracer)@.frames,
            final(tracer)@.frames,
            before,
            after,
            true,
            "move_from"@,
            ty@,
            None,
        ),
        final(tracer)@.user_arg_count == old(tracer)@.user_arg_count,
        final(tracer).meter() == old(tracer).meter(),
{
    lemma_appended(old(tracer)@.frames.last().node.storage);
}

/// A resource that is put into storage is recorded where that succeeded.
pub proof fn law_move_to_is_recorded<G>(
    tracer: &mut TracerMeter<G>,
    before: u64,
    after: u64,
    ty: String,
    is_success: bool,
)
    requires
        old(tracer)@.frames.len() >= 1,
        call_ensures(TracerMeter::<G>::charge_move_to, (tracer, before, after, ty, is_success), ()),
    ensures
        charged_and_accessed(
            old(tracer)@.frames,
            final(tracer)@.frames,
            before,
            after,
            is_success,
            "move_to"@,
            ty@,
            None,
        ),
        final(tracer)@.user_arg_count == old(tracer)@.user_arg_count,
        final(tracer).meter() == old(tracer).meter(),
{
    lemma_appended(old(tracer)@.frames.last().node.storage);
}

/// A resource that is loaded is recorded with its account.
pub proof fn law_load_is_recorded<G>(
    tracer: &mut TracerMeter<G>,
    before: u64,
    after: u64,
    addr: &AccountAddress,
    ty: String,
)
    requires
        old(tracer)@.frames.len() >= 1,
        call_ensures(TracerMeter::<G>::charge_load_resource, (tracer, before, after, addr, ty), ()),
    ensures
        charged_and_accessed(
            old(tracer)@.frames,
            final(tracer)@.frames,
            before,
            after,
            true,
            "load_resource"@,
            ty@,
            Some(hex_literal(addr@)),
        ),
        final(tracer)@.user_arg_count == old(tracer)@.user_arg_count,
        final(tracer).meter() == old(tracer).meter(),
{
    lemma_appended(old(tracer)@.frames.last().node.storage);
}

/// What stands in front of something appended is what there was.
proof fn lemma_appended<A>(list: Seq<A>)
    ensures
        forall|a: A| (#[trigger] list.push(a)).drop_last() == list,
{
    assert forall|a: A| (#[trigger] list.push(a)).drop_last() == list by {
        assert(list.push(a).drop_last() =~= list);
    }
}

/// An event is recorded, with its payload, behind the events of the innermost
/// frame that is not of `0x1::event`, or of the entry frame where all others are
/// of it; nothing else changes.
pub proof fn law_event_is_recorded<G>(
    tracer: &mut TracerMeter<G>,
    ty_tag: &str,
    data: Vec<u8>,
    at: int,
)
    requires
        0 <= at < old(tracer)@.frames.len(),
        at == 0 || old(tracer)@.frames[at].node.module != Some("0x1::event"@),
        forall|i: int|
            at < i < old(tracer)@.frames.len() ==> (#[trigger] old(tracer)@.frames[i]).node.module
                == Some("0x1::event"@),
        call_ensures(TracerMeter::<G>::record_event, (tracer, ty_tag, data), ()),
    ensures
        ({
            let a = old(tracer)@.frames;
            let b = final(tracer)@.frames;
            let held = a[at].node;
            let shown = b[at].node;
            let event = shown.events.last();
            &&& b.len() == a.len()
            &&& same_between(a, b, 0, at)
            &&& same_between(a, b, at + 1, a.len() as int)
            &&& b[at].self_gas == a[at].self_gas
            &&& b[at].native_gas == a[at].native_gas
            &&& shown.kind == held.kind
            &&& shown.module == held.module
            &&& shown.function == held.function
            &&& shown.type_args == held.type_args
            &&& shown.args == held.args
            &&& shown.ret == held.ret
            &&& shown.gas == held.gas
            &&& shown.storage == held.storage
            &&& shown.children == held.children
            &&& shown.events.len() == held.events.len() + 1
            &&& shown.events.drop_last() == held.events
            &&& event.ty == ty_tag@
            &&& event.data is Null
            &&& event.raw == Some((ty_tag@, data@))
        }),
        final(tracer)@.user_arg_count == old(tracer)@.user_arg_count,
        final(tracer).meter() == old(tracer).meter(),
{
    let frames = old(tracer)@.frames;
    law_event_sink(frames);
    let sink = sink_index(frames);
    if sink < at {
        assert(frames[at].node.module == Some("0x1::event"@));
    } else if at < sink {
        assert(frames[sink].node.module == Some("0x1::event"@));
    }
    lemma_appended(frames[at].node.events);
}

/// Of some arguments, of which the user gave the last `given`, exactly those are
/// the user's: all of them, in their order. Where there are no more arguments
/// than the user gave, all are.
pub proof fn law_users_arguments(signers: Seq<ArgView>, given: Seq<ArgView>, more: nat)
    ensures
        user_args(signers + given, given.len()) == given,
        user_args(given, given.len() + more) == given,
{
    assert((signers + given).skip(signers.len() as int) =~= given);
    if signers.len() == 0 {
        assert(signers + given =~= given);
    }
}

/// A tracer that was made for a function begins with one frame, the function's,
/// in which nothing has happened and whose arguments are not known.
pub proof fn law_function_tracer<G>(
    base: G,
    module: ModuleId,
    name: String,
    ty_args: Vec<String>,
    count: usize,
    res: TracerMeter<G>,
)
    requires
        call_ensures(TracerMeter::<G>::new_function, (base, module, name, ty_args, count), res),
    ensures
        res@.frames.len() == 1,
        untouched(res@.frames[0]),
        res@.frames[0].node.kind == "function"@,
        res@.frames[0].node.module == Some(module_text(module@)),
        res@.frames[0].node.function == Some(name@),
        shows_texts(res@.frames[0].node.type_args, ty_args@),
        res@.frames[0].node.args.len() == 0,
        res@.user_arg_count == count,
        res.meter() == base,
{
}

/// A tracer that was made for a script begins with one frame, which has no names.
pub proof fn law_script_tracer<G>(base: G, count: usize, res: TracerMeter<G>)
    requires
        call_ensures(TracerMeter::<G>::new_script, (base, count), res),
    ensures
        res@.frames.len() == 1,
        untouched(res@.frames[0]),
        res@.frames[0].node.kind == "script"@,
        res@.frames[0].node.module is None,
        res@.frames[0].node.function is None,
        res@.frames[0].node.type_args.len() == 0,
        res@.frames[0].node.args.len() == 0,
        res@.user_arg_count == count,
        res.meter() == base,
{
}

/// The second frame is the first with other arguments.
pub open spec fn same_but_args(a: FrameView, b: FrameView) -> bool {
    &&& b.self_gas == a.self_gas
    &&& b.native_gas == a.native_gas
    &&& b.node.kind == a.node.kind
    &&& b.node.module == a.node.module
    &&& b.node.function == a.node.function
    &&& b.node.type_args == a.node.type_args
    &&& b.node.ret == a.node.ret
    &&& b.node.gas == a.node.gas
    &&& b.node.events == a.node.events
    &&& b.node.storage == a.node.storage
    &&& b.node.children == a.node.children
}

/// A tracer for a function that is entered with some signers and as many
/// arguments as the user gave has exactly the user's arguments, in their order.
pub proof fn law_entry_has_the_users_arguments<G>(
    tracer: &mut TracerMeter<G>,
    base: G,
    module: ModuleId,
    name: String,
    ty_args: Vec<String>,
    count: usize,
    entered: &str,
    args: Vec<TracedArg>,
    signers: Seq<TracedArg>,
    given: Seq<TracedArg>,
)
    requires
        call_ensures(
            TracerMeter::<G>::new_function,
            (base, module, name, ty_args, count),
            *old(tracer),
        ),
        entered@ == name@,
        count == given.len(),
        args@ == signers + given,
        call_ensures(
            TracerMeter::<G>::record_entry_args,
            (tracer, Some(&module), entered, args),
            (),
        ),
    ensures
        final(tracer)@.frames.len() == 1,
        shows_args(final(tracer)@.frames[0].node.args, given),
        same_but_args(old(tracer)@.frames[0], final(tracer)@.frames[0]),
        final(tracer)@.user_arg_count == count,
        final(tracer).meter() == base,
{
    lemma_views_in_parts(signers, given);
    law_users_arguments(arg_views(signers), arg_views(given), 0);
}

/// The views of two lists in a row are the views of each.
proof fn lemma_views_in_parts(a: Seq<TracedArg>, b: Seq<TracedArg>)
    ensures
        arg_views(a + b) == arg_views(a) + arg_views(b),
{
    assert(arg_views(a + b) =~= arg_views(a) + arg_views(b));
}

/// A function that is entered with no more arguments than the user gave keeps
/// them all; so does a script, whatever they are.
pub proof fn law_entry_keeps_few_arguments<G>(
    tracer: &mut TracerMeter<G>,
    module_id: Option<&ModuleId>,
    name: &str,
    args: Vec<TracedArg>,
)
    requires
        old(tracer)@.frames.len() == 1,
        old(tracer)@.frames[0].node.args.len() == 0,
        args@.len() <= old(tracer)@.user_arg_count,
        match module_id {
            Some(id) => old(tracer)@.frames[0].node.module == Some(module_text(id@))
                && old(tracer)@.frames[0].node.function == Some(name@),
            None => old(tracer)@.frames[0].node.function is None,
        },
        call_ensures(TracerMeter::<G>::record_entry_args, (tracer, module_id, name, args), ()),
    ensures
        final(tracer)@.frames.len() == 1,
        shows_args(final(tracer)@.frames[0].node.args, args@),
        same_but_args(old(tracer)@.frames[0], final(tracer)@.frames[0]),
{
}

/// What is entered inside a call, after the entry point has its arguments, or
/// under another module or name than the entry point's, changes nothing. So does
/// a script that is entered where the entry point is a function, and a function
/// where it is a script.
pub proof fn law_other_entries_change_nothing<G>(
    tracer: &mut TracerMeter<G>,
    module_id: Option<&ModuleId>,
    name: &str,
    args: Vec<TracedArg>,
    entry: ModuleId,
)
    requires
        old(tracer)@.frames.len() >= 1,
        ({
            let first = old(tracer)@.frames[0].node;
            ||| old(tracer)@.frames.len() > 1
            ||| first.args.len() > 0
            ||| first.function is Some && module_id is None
            ||| first.function is None && module_id is Some
            ||| first.function is Some && first.function != Some(name@)
            ||| first.function is Some && first.module == Some(module_text(entry@)) && module_id is Some
                && module_id->0@ != entry@
        }),
        call_ensures(TracerMeter::<G>::record_entry_args, (tracer, module_id, name, args), ()),
    ensures
        final(tracer)@ == old(tracer)@,
        final(tracer).meter() == old(tracer).meter(),
{
    if module_id is Some && module_text(module_id->0@) == module_text(entry@) {
        law_module_text_injective(module_id->0@, entry@);
    }
}

/// The finished call stands in the tree: the tree of some frames is the tree of
/// the first frame with the tree of the others as its last child.
proof fn lemma_tree_by_first(frames: Seq<FrameView>)
    requires
        frames.len() >= 2,
    ensures
        collapsed(frames).children == frames[0].node.children.push(collapsed(frames.skip(1))),
    decreases frames.len(),
{
    let rest = frames.drop_last();
    let next = rest.drop_last().push(rest.last().with_child(frames.last().closed()));
    assert(collapsed(frames) == collapsed(next));
    if frames.len() == 2 {
        assert(collapsed(next) == next[0].closed());
        assert(frames.skip(1) =~= seq![frames[1]]);
        assert(next =~= seq![frames[0].with_child(frames[1].closed())]);
        assert(collapsed(frames.skip(1)) == frames[1].closed());
    } else {
        lemma_tree_by_first(next);
        let tail = frames.skip(1);
        let tail_rest = tail.drop_last();
        assert(tail_rest.drop_last().push(tail_rest.last().with_child(tail.last().closed()))
            =~= next.skip(1));
        assert(collapsed(tail) == collapsed(next.skip(1)));
    }
}

/// A finished trace has the entry point at its root, with its names, its
/// arguments and all that happened in it, and its own gas. The calls that were
/// open are reported from the innermost out, with their names and no offset.
pub proof fn law_finished_trace<G>(
    tracer: TracerMeter<G>,
    res: (CallNode, Vec<AbortStackEntry>),
    at: int,
)
    requires
        tracer@.frames.len() >= 1,
        tracer@.frames[0].self_gas + tracer@.frames[0].native_gas <= u64::MAX,
        call_ensures(TracerMeter::<G>::finish, (tracer,), res),
    ensures
        ({
            let first = tracer@.frames[0];
            let root = res.0@;
            &&& root.kind == first.node.kind
            &&& root.module == first.node.module
            &&& root.function == first.node.function
            &&& root.type_args == first.node.type_args
            &&& root.args == first.node.args
            &&& root.ret == first.node.ret
            &&& root.events == first.node.events
            &&& root.storage == first.node.storage
            &&& root.gas == first.self_gas + first.native_gas
            &&& tracer@.frames.len() == 1 ==> root.children == first.node.children
        }),
        res.1@.len() == tracer@.frames.len(),
        0 <= at < res.1@.len() ==> ({
            let entry = res.1@[at]@;
            let frame = tracer@.frames[tracer@.frames.len() - 1 - at];
            &&& entry.module == frame.node.module
            &&& entry.function == frame.node.function
            &&& entry.offset is None
        }),
{
    law_root_is_entry(tracer@.frames);
    assert(entry_views(res.1@).len() == res.1@.len());
    if 0 <= at < res.1@.len() {
        assert(entry_views(res.1@)[at] == res.1@[at]@);
    }
}

/// Where calls are still open at the end, the tree of what the entry point had
/// called last, and of all below it, becomes the root's last child.
pub proof fn law_open_calls_are_finished<G>(
    tracer: TracerMeter<G>,
    inner: TracerMeter<G>,
    res: (CallNode, Vec<AbortStackEntry>),
    below: (CallNode, Vec<AbortStackEntry>),
)
    requires
        tracer@.frames.len() >= 2,
        inner@.frames == tracer@.frames.skip(1),
        call_ensures(TracerMeter::<G>::finish, (tracer,), res),
        call_ensures(TracerMeter::<G>::finish, (inner,), below),
    ensures
        res.0@.children == tracer@.frames[0].node.children.push(below.0@),
{
    lemma_tree_by_first(tracer@.frames);
}

/// Every open frame can be finished exactly where no frame's gas, its own and its
/// natives', is beyond the largest amount.
pub proof fn law_frames_fit<G>(tracer: &TracerMeter<G>, res: bool)
    requires
        call_ensures(TracerMeter::<G>::frames_fit, (tracer,), res),
    ensures
        res <==> forall|i: int|
            0 <= i < tracer@.frames.len() ==> (#[trigger] tracer@.frames[i]).self_gas
                + tracer@.frames[i].native_gas <= u64::MAX,
{
    if res {
        assert forall|i: int| 0 <= i < tracer@.frames.len() implies (
        #[trigger] tracer@.frames[i]).self_gas + tracer@.frames[i].native_gas <= u64::MAX by {
            assert(tracer@.frames[i].fits());
        }
    }
}

/// The innermost call can return exactly where its gas, once it has paid, is not
/// beyond the largest amount; at the entry point always.
pub proof fn law_can_return<G>(
    tracer: &TracerMeter<G>,
    before: u64,
    after: u64,
    own: FrameView,
    res: bool,
)
    requires
        tracer@.frames.len() >= 1,
        paid(tracer@.frames.last(), own, before, after),
        call_ensures(TracerMeter::<G>::can_return, (tracer, before, after), res),
    ensures
        res <==> tracer@.frames.len() == 1 || own.self_gas + own.native_gas <= u64::MAX,
{
}

/// A tracer hands out the meter that does the charging. What is done to the meter
/// is done to the tracer's, and leaves the trace.
pub proof fn law_meter_is_handed_out<G>(
    read: &TracerMeter<G>,
    shown: &G,
    tracer: &mut TracerMeter<G>,
    meter: &mut G,
)
    requires
        call_ensures(TracerMeter::<G>::base, (read,), shown),
        call_ensures(TracerMeter::<G>::base_mut, (tracer,), meter),
    ensures
        *shown == read.meter(),
        *old(meter) == old(tracer).meter(),
        final(tracer).meter() == *final(meter),
        final(tracer)@ == old(tracer)@,
{
}

/// The seed and the tracer of a transaction that calls an entry function,
/// directly or in a versioned payload, are that function's, and count its
/// arguments.
pub proof fn law_entry_function_is_traced<G>(
    call: EntryFunction,
    payload: &TransactionPayload,
    base: G,
    seed: EntrySeed,
    res: TracerMeter<G>,
)
    requires
        *payload == TransactionPayload::EntryFunction(call) || *payload
            == (TransactionPayload::Payload {
            executable: TransactionExecutable::EntryFunction(call),
        }),
        call_ensures(extract_entry, (payload,), seed),
        call_ensures(tracer_for::<G>, (base, payload), res),
    ensures
        !seed.is_script,
        seed.module is Some && seed.module->0@ == call.module@,
        seed.function is Some && seed.function->0@ == call.function@,
        seed.ty_args@.len() == call.ty_args@.len(),
        forall|i: int|
            0 <= i < call.ty_args@.len() ==> (#[trigger] seed.ty_args@[i])@ == call.ty_args@[i]@,
        seed.user_arg_count == call.args@.len(),
        res@.frames.len() == 1,
        untouched(res@.frames[0]),
        res@.frames[0].node.kind == "function"@,
        res@.frames[0].node.module == Some(module_text(call.module@)),
        res@.frames[0].node.function == Some(call.function@),
        shows_texts(res@.frames[0].node.type_args, call.ty_args@),
        res@.frames[0].node.args.len() == 0,
        res@.user_arg_count == call.args@.len(),
        res.meter() == base,
{
    assert(texts(seed.ty_args@).len() == seed.ty_args@.len());
    assert forall|i: int| 0 <= i < call.ty_args@.len() implies (#[trigger] seed.ty_args@[i])@
        == call.ty_args@[i]@ by {
        assert(texts(seed.ty_args@)[i] == seed.ty_args@[i]@);
        assert(texts(call.ty_args@)[i] == call.ty_args@[i]@);
    }
}

/// Any other transaction is traced as a script, none of whose arguments are left
/// out.
pub proof fn law_other_payloads_are_scripts<G>(
    payload: &TransactionPayload,
    base: G,
    seed: EntrySeed,
    res: TracerMeter<G>,
)
    requires
        match *payload {
            TransactionPayload::EntryFunction(_) => false,
            TransactionPayload::Payload { executable } => executable is Other,
            _ => true,
        },
        call_ensures(extract_entry, (payload,), seed),
        call_ensures(tracer_for::<G>, (base, payload), res),
    ensures
        seed.is_script,
        seed.module is None,
        seed.function is None,
        seed.ty_args@.len() == 0,
        seed.user_arg_count == usize::MAX,
        res@.frames.len() == 1,
        untouched(res@.frames[0]),
        res@.frames[0].node.kind == "script"@,
        res@.frames[0].node.module is None,
        res@.frames[0].node.function is None,
        res@.frames[0].node.type_args.len() == 0,
        res@.frames[0].node.args.len() == 0,
        res@.user_arg_count == usize::MAX,
        res.meter() == base,
{
}

} // verus!
