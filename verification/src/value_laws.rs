//! What a value's visits build, and what is found in JSON.
use crate::address::{hex_literal, AccountAddress};
use crate::encoding::hex_text;
use crate::json::{field_of, field_views, lemma_array_view, lemma_field_of, lemma_no_field,
    lemma_object_view, Json, JsonView};
use crate::text::{decimal, signed_decimal};
use crate::value::{decode_value, indexed_fields, unit_arg, BuilderView, Container, ContainerKind,
    JsonBuilder, TracedArg};
use vstd::prelude::*;

verus! {

/// A lookup finds the value of a field that has the name, no earlier one having
/// it, and finds nothing exactly where this is no object or no field has it.
pub proof fn law_lookup(json: &Json, key: &str, res: Option<&Json>, at: int)
    requires
        call_ensures(Json::get, (json, key), res),
    ensures
        *json !is Object ==> res is None,
        match *json {
            Json::Object(fields) => {
                &&& res is None <==> forall|i: int|
                    0 <= i < fields@.len() ==> (#[trigger] fields@[i]).0@ != key@
                &&& 0 <= at < fields@.len() && fields@[at].0@ == key@ && (forall|i: int|
                    0 <= i < at ==> (#[trigger] fields@[i]).0@ != key@) ==> res is Some && res->0@
                    == fields@[at].1@
            },
            _ => true,
        },
{
    broadcast use lemma_object_view;

    if let Json::Object(fields) = *json {
        let shown = field_views(fields@);
        assert(json@ == JsonView::Object(shown));
        if forall|i: int| 0 <= i < fields@.len() ==> (#[trigger] fields@[i]).0@ != key@ {
            assert forall|j: int| 0 <= j < shown.len() implies shown[j].0 != key@ by {
                assert(fields@[j].0@ != key@);
            }
            lemma_no_field(shown, key@);
        } else {
            let some = choose|i: int| 0 <= i < fields@.len() && (#[trigger] fields@[i]).0@ == key@;
            lemma_some_field(shown, key@, some);
        }
        if 0 <= at < fields@.len() && fields@[at].0@ == key@ && (forall|i: int|
            0 <= i < at ==> (#[trigger] fields@[i]).0@ != key@) {
            assert forall|j: int| 0 <= j < at implies shown[j].0 != key@ by {
                assert(fields@[j].0@ != key@);
            }
            lemma_field_of(shown, key@, at);
        }
    }
}

/// A name that some field has is found.
proof fn lemma_some_field(fields: Seq<(Seq<char>, JsonView)>, key: Seq<char>, at: int)
    requires
        0 <= at < fields.len(),
        fields[at].0 == key,
    ensures
        field_of(fields, key) is Some,
    decreases fields.len(),
{
    if fields[0].0 != key {
        lemma_some_field(fields.drop_first(), key, at - 1);
    }
}

/// Only a text is read as one, and as it is.
pub proof fn law_text_is_read(json: &Json, res: Option<&str>)
    requires
        call_ensures(Json::as_text, (json,), res),
    ensures
        match *json {
            Json::Text(text) => res is Some && res->0@ == text@,
            _ => res is None,
        },
{
}

/// A copy of a JSON value shows the same.
pub proof fn law_json_copy(json: &Json, copy: Json)
    requires
        call_ensures(Json::clone, (json,), copy),
    ensures
        copy@ == json@,
        *json is Null <==> copy is Null,
        *json is Bool <==> copy is Bool,
        *json is Number <==> copy is Number,
        *json is Text <==> copy is Text,
        *json is Array <==> copy is Array,
        *json is Object <==> copy is Object,
        *json is Bool ==> copy->Bool_0 == json->Bool_0,
        *json is Number ==> copy->Number_0@ == json->Number_0@,
        *json is Text ==> copy->Text_0@ == json->Text_0@,
        *json is Array ==> copy->Array_0@.len() == json->Array_0@.len(),
        *json is Object ==> copy->Object_0@.len() == json->Object_0@.len(),
{
    assert(copy.model() == json.model());
    if *json is Array && copy is Array {
        lemma_array_view(json->Array_0);
        lemma_array_view(copy->Array_0);
        assert(json@->Array_0.len() == json->Array_0@.len());
        assert(copy@->Array_0.len() == copy->Array_0@.len());
    }
    if *json is Object && copy is Object {
        assert(json@->Object_0.len() == json->Object_0@.len());
        assert(copy@->Object_0.len() == copy->Object_0@.len());
    }
}

/// A vector is rendered as the array of its members; a struct as an object whose
/// fields are named by the positions of its members, in order.
pub proof fn law_container_is_rendered(container: Container, res: Json, at: int)
    requires
        call_ensures(Container::into_json, (container,), res),
    ensures
        container.kind is Vector ==> res@ is Array && res@->Array_0.len() == container.items@.len()
            && (0 <= at < container.items@.len() ==> res@->Array_0[at] == container.items@[at]@),
        container.kind is Struct ==> res@ is Object && res@->Object_0.len()
            == container.items@.len() && (0 <= at < container.items@.len() ==> res@->Object_0[at].0
            == decimal(at as nat) && res@->Object_0[at].1 == container.items@[at]@),
{
}

/// A builder begins with nothing open, no value and no type.
pub proof fn law_builder_begins_empty(res: JsonBuilder)
    requires
        call_ensures(JsonBuilder::new, (), res),
    ensures
        res@.stack.len() == 0,
        res@.root is None,
        res@.first_type is None,
{
}

/// The first type that is told is kept, and later ones change nothing.
pub proof fn law_first_type_is_kept(builder: &mut JsonBuilder, label: &str)
    requires
        call_ensures(JsonBuilder::set_type, (builder, label), ()),
    ensures
        old(builder)@.first_type is None ==> final(builder)@.first_type == Some(label@),
        old(builder)@.first_type is Some ==> final(builder)@.first_type
            == old(builder)@.first_type,
        final(builder)@.stack == old(builder)@.stack,
        final(builder)@.root == old(builder)@.root,
{
}

/// A value that arrives where nothing is open is the result. One that arrives in
/// a container that waits for more than one member is appended to its members,
/// and the container waits for one less; nothing else changes.
pub proof fn law_value_arrives(builder: &mut JsonBuilder, value: Json)
    requires
        call_ensures(JsonBuilder::add, (builder, value), ()),
    ensures
        final(builder)@.first_type == old(builder)@.first_type,
        old(builder)@.stack.len() == 0 ==> final(builder)@.stack.len() == 0
            && final(builder)@.root == Some(value@),
        old(builder)@.stack.len() > 0 && old(builder)@.stack.last().remaining > 1 ==> ({
            let a = old(builder)@.stack;
            let b = final(builder)@.stack;
            &&& b.len() == a.len()
            &&& b.drop_last() == a.drop_last()
            &&& b.last().kind == a.last().kind
            &&& b.last().items == a.last().items.push(value@)
            &&& b.last().remaining + 1 == a.last().remaining
            &&& final(builder)@.root == old(builder)@.root
        }),
{
    if old(builder)@.stack.len() > 0 && old(builder)@.stack.last().remaining > 1 {
        assert(final(builder)@.stack.drop_last() =~= old(builder)@.stack.drop_last());
    }
}

/// The last member that a container waits for closes it: it is as if the whole
/// container had arrived where it stood.
pub proof fn law_last_member_closes(
    builder: &mut JsonBuilder,
    outer: &mut JsonBuilder,
    value: Json,
    whole: Json,
)
    requires
        call_ensures(JsonBuilder::add, (builder, value), ()),
        call_ensures(JsonBuilder::add, (outer, whole), ()),
        old(builder)@.stack.len() > 0,
        old(builder)@.stack.last().remaining == 1,
        old(outer)@.stack == old(builder)@.stack.drop_last(),
        old(outer)@.root == old(builder)@.root,
        old(outer)@.first_type == old(builder)@.first_type,
        ({
            let open = old(builder)@.stack.last();
            let members = open.items.push(value@);
            match open.kind {
                ContainerKind::Vector => whole@ == JsonView::Array(members),
                ContainerKind::Struct => whole@ is Object && whole@->Object_0.len() == members.len()
                    && forall|i: int|
                    0 <= i < members.len() ==> (#[trigger] whole@->Object_0[i]).0 == decimal(
                        i as nat,
                    ) && whole@->Object_0[i].1 == members[i],
            }
        }),
    ensures
        final(builder)@ == final(outer)@,
{
    let open = old(builder)@.stack.last();
    let members = open.items.push(value@);
    if open.kind is Struct {
        assert forall|i: int| 0 <= i < members.len() implies whole@->Object_0[i] == indexed_fields(
            members,
        )[i] by {
            assert(whole@->Object_0[i].0 == decimal(i as nat));
        }
        assert(whole@->Object_0 =~= indexed_fields(members));
    }
}

/// A container with members is opened empty, inside those that are open, and
/// waits for as many members as it was announced with. One without members
/// arrives at once.
pub proof fn law_container_is_opened(
    builder: &mut JsonBuilder,
    other: &mut JsonBuilder,
    kind: ContainerKind,
    len: usize,
    none: Json,
)
    requires
        call_ensures(JsonBuilder::open, (builder, kind, len), ()),
        call_ensures(JsonBuilder::add, (other, none), ()),
        old(other)@ == old(builder)@,
        match kind {
            ContainerKind::Vector => none@ is Array && none@->Array_0.len() == 0,
            ContainerKind::Struct => none@ is Object && none@->Object_0.len() == 0,
        },
    ensures
        len == 0 ==> final(builder)@ == final(other)@,
        len > 0 ==> ({
            let a = old(builder)@.stack;
            let b = final(builder)@.stack;
            &&& b.len() == a.len() + 1
            &&& b.drop_last() == a
            &&& b.last().kind == kind
            &&& b.last().items.len() == 0
            &&& b.last().remaining == len
            &&& final(builder)@.root == old(builder)@.root
            &&& final(builder)@.first_type == old(builder)@.first_type
        }),
{
    if len > 0 {
        assert(final(builder)@.stack.drop_last() =~= old(builder)@.stack);
    } else if kind is Vector {
        assert(none@->Array_0 =~= Seq::<JsonView>::empty());
    } else {
        assert(none@->Object_0 =~= indexed_fields(Seq::<JsonView>::empty()));
    }
}

/// A visit told `label` as a type, and `value` arrived.
pub open spec fn visited(
    a: BuilderView,
    b: BuilderView,
    label: Seq<char>,
    value: JsonView,
) -> bool {
    &&& a.first_type is None ==> b.first_type == Some(label)
    &&& a.first_type is Some ==> b.first_type == a.first_type
    &&& b.stack == a.added(value).stack
    &&& b.root == a.added(value).root
}

/// Numbers without a sign arrive as the text of their decimals, each under the
/// name of its type.
pub proof fn law_unsigned_visits(
    a: &mut JsonBuilder,
    b: &mut JsonBuilder,
    c: &mut JsonBuilder,
    d: &mut JsonBuilder,
    e: &mut JsonBuilder,
    x8: u8,
    x16: u16,
    x32: u32,
    x64: u64,
    x128: u128,
)
    requires
        call_ensures(JsonBuilder::visit_u8, (a, x8), ()),
        call_ensures(JsonBuilder::visit_u16, (b, x16), ()),
        call_ensures(JsonBuilder::visit_u32, (c, x32), ()),
        call_ensures(JsonBuilder::visit_u64, (d, x64), ()),
        call_ensures(JsonBuilder::visit_u128, (e, x128), ()),
    ensures
        visited(old(a)@, final(a)@, "u8"@, JsonView::Text(decimal(x8 as nat))),
        visited(old(b)@, final(b)@, "u16"@, JsonView::Text(decimal(x16 as nat))),
        visited(old(c)@, final(c)@, "u32"@, JsonView::Text(decimal(x32 as nat))),
        visited(old(d)@, final(d)@, "u64"@, JsonView::Text(decimal(x64 as nat))),
        visited(old(e)@, final(e)@, "u128"@, JsonView::Text(decimal(x128 as nat))),
{
}

/// Numbers with a sign arrive as the text of their decimals, with a minus sign
/// below zero, each under the name of its type.
pub proof fn law_signed_visits(
    a: &mut JsonBuilder,
    b: &mut JsonBuilder,
    c: &mut JsonBuilder,
    d: &mut JsonBuilder,
    e: &mut JsonBuilder,
    x8: i8,
    x16: i16,
    x32: i32,
    x64: i64,
    x128: i128,
)
    requires
        call_ensures(JsonBuilder::visit_i8, (a, x8), ()),
        call_ensures(JsonBuilder::visit_i16, (b, x16), ()),
        call_ensures(JsonBuilder::visit_i32, (c, x32), ()),
        call_ensures(JsonBuilder::visit_i64, (d, x64), ()),
        call_ensures(JsonBuilder::visit_i128, (e, x128), ()),
    ensures
        visited(old(a)@, final(a)@, "i8"@, JsonView::Text(signed_decimal(x8 as int))),
        visited(old(b)@, final(b)@, "i16"@, JsonView::Text(signed_decimal(x16 as int))),
        visited(old(c)@, final(c)@, "i32"@, JsonView::Text(signed_decimal(x32 as int))),
        visited(old(d)@, final(d)@, "i64"@, JsonView::Text(signed_decimal(x64 as int))),
        visited(old(e)@, final(e)@, "i128"@, JsonView::Text(signed_decimal(x128 as int))),
{
}

/// The widest numbers arrive as the decimals that they are given in; a truth
/// value as itself; an address as its short literal; a value that is not known
/// yet as a mark; bytes as one hexadecimal text.
pub proof fn law_other_visits(
    a: &mut JsonBuilder,
    b: &mut JsonBuilder,
    c: &mut JsonBuilder,
    d: &mut JsonBuilder,
    e: &mut JsonBuilder,
    f: &mut JsonBuilder,
    wide: String,
    signed: String,
    flag: bool,
    address: &AccountAddress,
    bytes: &[u8],
)
    requires
        call_ensures(JsonBuilder::visit_u256, (a, wide), ()),
        call_ensures(JsonBuilder::visit_i256, (b, signed), ()),
        call_ensures(JsonBuilder::visit_bool, (c, flag), ()),
        call_ensures(JsonBuilder::visit_address, (d, address), ()),
        call_ensures(JsonBuilder::visit_delayed, (e,), ()),
        call_ensures(JsonBuilder::visit_vec_u8, (f, bytes), ()),
    ensures
        visited(old(a)@, final(a)@, "u256"@, JsonView::Text(wide@)),
        visited(old(b)@, final(b)@, "i256"@, JsonView::Text(signed@)),
        visited(old(c)@, final(c)@, "bool"@, JsonView::Bool(flag)),
        visited(old(d)@, final(d)@, "address"@, JsonView::Text(hex_literal(address@))),
        visited(old(e)@, final(e)@, "delayed"@, JsonView::Text("<delayed>"@)),
        visited(old(f)@, final(f)@, "vector<u8>"@, JsonView::Text("0x"@ + hex_text(bytes@))),
{
}

/// A visit told `label` as a type, and a container was opened with `len` members
/// to come.
pub open spec fn entered(
    a: BuilderView,
    b: BuilderView,
    label: Seq<char>,
    kind: ContainerKind,
    len: nat,
) -> bool {
    &&& a.first_type is None ==> b.first_type == Some(label)
    &&& a.first_type is Some ==> b.first_type == a.first_type
    &&& b.stack.len() == a.stack.len() + 1
    &&& b.stack.drop_last() == a.stack
    &&& b.stack.last().kind == kind
    &&& b.stack.last().items.len() == 0
    &&& b.stack.last().remaining == len
    &&& b.root == a.root
}

/// Structs, closures and vectors are entered, under the name of what they are; a
/// reference leaves no trace of its own. All go on to what is inside.
pub proof fn law_container_visits(
    a: &mut JsonBuilder,
    b: &mut JsonBuilder,
    c: &mut JsonBuilder,
    d: &mut JsonBuilder,
    len: usize,
    into_struct: bool,
    into_closure: bool,
    into_vec: bool,
    into_ref: bool,
)
    requires
        len > 0,
        call_ensures(JsonBuilder::visit_struct, (a, len), into_struct),
        call_ensures(JsonBuilder::visit_closure, (b, len), into_closure),
        call_ensures(JsonBuilder::visit_vec, (c, len), into_vec),
        call_ensures(JsonBuilder::visit_ref, (d,), into_ref),
    ensures
        into_struct && into_closure && into_vec && into_ref,
        entered(old(a)@, final(a)@, "struct"@, ContainerKind::Struct, len as nat),
        entered(old(b)@, final(b)@, "closure"@, ContainerKind::Struct, len as nat),
        entered(old(c)@, final(c)@, "vector"@, ContainerKind::Vector, len as nat),
        final(d)@ == old(d)@,
{
    assert(final(a)@.stack.drop_last() =~= old(a)@.stack);
    assert(final(b)@.stack.drop_last() =~= old(b)@.stack);
    assert(final(c)@.stack.drop_last() =~= old(c)@.stack);
}

/// Without members they arrive at once: an object or an array with nothing in it.
pub proof fn law_empty_container_visits(
    a: &mut JsonBuilder,
    b: &mut JsonBuilder,
    c: &mut JsonBuilder,
    into_struct: bool,
    into_closure: bool,
    into_vec: bool,
)
    requires
        call_ensures(JsonBuilder::visit_struct, (a, 0usize), into_struct),
        call_ensures(JsonBuilder::visit_closure, (b, 0usize), into_closure),
        call_ensures(JsonBuilder::visit_vec, (c, 0usize), into_vec),
    ensures
        into_struct && into_closure && into_vec,
        visited(old(a)@, final(a)@, "struct"@, JsonView::Object(Seq::empty())),
        visited(old(b)@, final(b)@, "closure"@, JsonView::Object(Seq::empty())),
        visited(old(c)@, final(c)@, "vector"@, JsonView::Array(Seq::empty())),
{
    assert(indexed_fields(Seq::<JsonView>::empty()) =~= Seq::empty());
}

/// A walk that came to its end gives the first type and the result, where there
/// are any; one that did not gives an unknown value, whatever it had seen.
pub proof fn law_walk_is_decoded(builder: JsonBuilder, complete: TracedArg, broken: TracedArg)
    requires
        call_ensures(decode_value, (builder, true), complete),
        call_ensures(decode_value, (builder, false), broken),
    ensures
        builder@.first_type is Some ==> complete.ty@ == builder@.first_type->0,
        builder@.first_type is None ==> complete.ty@ == "unknown"@,
        builder@.root is Some ==> complete.value@ == builder@.root->0,
        builder@.root is None ==> complete.value@ is Null,
        broken.ty@ == "unknown"@,
        broken.value@ is Null,
{
}

/// What gives nothing back is shown as the unit.
pub proof fn law_unit(res: TracedArg)
    requires
        call_ensures(unit_arg, (), res),
    ensures
        res.ty@ == "()"@,
        res.value@ is Null,
{
}

} // verus!
