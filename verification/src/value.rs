//! JSON renderings of Move values, built one visit at a time.
//!
//! A value is walked in pre-order: a container announces its length and its
//! members follow. [`JsonBuilder`] keeps the containers that are still open and
//! closes each as soon as its last member has arrived.
use crate::address::{hex_literal, AccountAddress};
use crate::encoding::{hex_encode, hex_text};
use crate::json::{field_views, json_views, lemma_array_view, lemma_field_of, lemma_no_field,
    lemma_object_view, Json, JsonView};
use crate::text::{decimal, decimal_text, join2, law_decimal_injective, opt_text, signed_decimal,
    signed_decimal_text};
use vstd::prelude::*;

verus! {

/// How a container is rendered: a struct or closure as an object whose field
/// names are the positions, a vector as an array.
#[derive(Debug, Clone, Copy, PartialEq, Eq, Structural)]
pub enum ContainerKind {
    Struct,
    Vector,
}

/// The fields of a struct, named by position.
pub open spec fn indexed_fields(items: Seq<JsonView>) -> Seq<(Seq<char>, JsonView)> {
    Seq::new(items.len(), |i: int| (decimal(i as nat), items[i]))
}

/// The rendering of a complete container.
pub open spec fn container_json(kind: ContainerKind, items: Seq<JsonView>) -> JsonView {
    match kind {
        ContainerKind::Vector => JsonView::Array(items),
        ContainerKind::Struct => JsonView::Object(indexed_fields(items)),
    }
}

/// A container that still waits for members.
pub struct Container {
    pub kind: ContainerKind,
    pub items: Vec<Json>,
    pub remaining: usize,
}

/// The mathematical counterpart of [`Container`].
pub struct ContainerView {
    pub kind: ContainerKind,
    pub items: Seq<JsonView>,
    pub remaining: nat,
}

impl View for Container {
    type V = ContainerView;

    open spec fn view(&self) -> ContainerView {
        ContainerView {
            kind: self.kind,
            items: json_views(self.items@),
            remaining: self.remaining as nat,
        }
    }
}

impl Container {
    /// The container as JSON.
    pub fn into_json(self) -> (res: Json)
        ensures
            res@ == container_json(self.kind, json_views(self.items@)),
    {
        broadcast use {lemma_array_view, lemma_object_view};

        match self.kind {
            ContainerKind::Vector => Json::Array(self.items),
            ContainerKind::Struct => {
                let ghost all = json_views(self.items@);
                let mut fields: Vec<(String, Json)> = Vec::new();
                for item in it: self.items
                    invariant
                        it.seq() == self.items@,
                        all == json_views(self.items@),
                        fields@.len() == it.index(),
                        forall|j: int|
                            0 <= j < fields@.len() ==> (#[trigger] fields@[j]).0@ == decimal(j as nat)
                                && fields@[j].1@ == all[j],
                {
                    let at = fields.len();
                    fields.push((decimal_text(at as u128), item));
                }
                assert(field_views(fields@) =~= indexed_fields(all));
                Json::Object(fields)
            },
        }
    }
}

/// The containers that stay open, and the value that is complete at the
/// outermost level, once `value` has arrived.
pub open spec fn folded(stack: Seq<ContainerView>, value: JsonView) -> (
    Seq<ContainerView>,
    Option<JsonView>,
)
    decreases stack.len(),
{
    if stack.len() == 0 {
        (stack, Some(value))
    } else {
        let top = stack.last();
        let items = top.items.push(value);
        if top.remaining <= 1 {
            folded(stack.drop_last(), container_json(top.kind, items))
        } else {
            (
                stack.drop_last().push(
                    ContainerView { items, remaining: (top.remaining - 1) as nat, ..top },
                ),
                None,
            )
        }
    }
}

/// Builds the JSON of one value from the visits of a walk over it.
pub struct JsonBuilder {
    stack: Vec<Container>,
    root: Option<Json>,
    first_type: Option<String>,
}

/// The mathematical counterpart of [`JsonBuilder`].
pub struct BuilderView {
    /// The open containers, the innermost last.
    pub stack: Seq<ContainerView>,
    /// The finished value.
    pub root: Option<JsonView>,
    /// The type of the first thing that was visited.
    pub first_type: Option<Seq<char>>,
}

/// The view of an optional value.
pub open spec fn opt_json(value: Option<Json>) -> Option<JsonView> {
    match value {
        Some(v) => Some(v@),
        None => None,
    }
}

impl View for JsonBuilder {
    type V = BuilderView;

    closed spec fn view(&self) -> BuilderView {
        BuilderView {
            stack: self.stack@.map_values(|c: Container| c@),
            root: opt_json(self.root),
            first_type: opt_text(self.first_type),
        }
    }
}

impl BuilderView {
    /// A builder that has seen nothing.
    pub open spec fn empty() -> BuilderView {
        BuilderView { stack: Seq::empty(), root: None, first_type: None }
    }

    /// Every open container waits for a member.
    pub open spec fn valid(self) -> bool {
        forall|i: int| 0 <= i < self.stack.len() ==> (#[trigger] self.stack[i]).remaining > 0
    }

    /// The builder with the type of a visited thing, if it is the first.
    pub open spec fn typed(self, label: Seq<char>) -> BuilderView {
        if self.first_type is None {
            BuilderView { first_type: Some(label), ..self }
        } else {
            self
        }
    }

    /// The builder once `value` has arrived.
    pub open spec fn added(self, value: JsonView) -> BuilderView {
        let (stack, done) = folded(self.stack, value);
        BuilderView {
            stack,
            root: if done is Some {
                done
            } else {
                self.root
            },
            ..self
        }
    }

    /// The builder once a container of `len` members was announced.
    pub open spec fn opened(self, kind: ContainerKind, len: nat) -> BuilderView {
        if len == 0 {
            self.added(container_json(kind, Seq::empty()))
        } else {
            BuilderView {
                stack: self.stack.push(
                    ContainerView { kind, items: Seq::empty(), remaining: len },
                ),
                ..self
            }
        }
    }
}

impl JsonBuilder {
    /// A builder that has seen nothing.
    pub fn new() -> (res: Self)
        ensures
            res@ == BuilderView::empty(),
            res@.valid(),
    {
        let res = JsonBuilder { stack: Vec::new(), root: None, first_type: None };
        assert(res@.stack =~= Seq::empty());
        res
    }

    /// Keeps the type of the first thing that is visited.
    pub fn set_type(&mut self, label: &str)
        ensures
            final(self)@ == old(self)@.typed(label@),
    {
        if self.first_type.is_none() {
            self.first_type = Some(label.to_owned());
        }
    }

    /// Adds a finished value, closing each container that it completes.
    pub fn add(&mut self, value: Json)
        requires
            old(self)@.valid(),
        ensures
            final(self)@ == old(self)@.added(value@),
            final(self)@.valid(),
    {
        let mut cur = value;
        loop
            invariant
                self@.valid(),
                folded(self@.stack, cur@) == folded(old(self)@.stack, value@),
                self@.root == old(self)@.root,
                self@.first_type == old(self)@.first_type,
            decreases self@.stack.len(),
        {
            let ghost before = self@;
            match self.stack.pop() {
                None => {
                    self.root = Some(cur);
                    assert(self@.stack =~= before.stack);
                    return ;
                },
                Some(mut frame) => {
                    assert(before.stack.last() == frame@);
                    assert(self@.stack =~= before.stack.drop_last());
                    assert(before.stack[before.stack.len() - 1].remaining > 0);
                    let ghost open = frame@;
                    frame.items.push(cur);
                    frame.remaining = frame.remaining.saturating_sub(1);
                    assert(frame@.items =~= open.items.push(cur@));
                    assert forall|i: int| 0 <= i < self@.stack.len() implies (
                    #[trigger] self@.stack[i]).remaining > 0 by {
                        assert(before.stack[i].remaining > 0);
                    }
                    if frame.remaining == 0 {
                        cur = frame.into_json();
                    } else {
                        self.stack.push(frame);
                        assert(self@.stack =~= before.stack.drop_last().push(frame@));
                        return ;
                    }
                },
            }
        }
    }

    /// Announces a container of `len` members.
    pub fn open(&mut self, kind: ContainerKind, len: usize)
        requires
            old(self)@.valid(),
        ensures
            final(self)@ == old(self)@.opened(kind, len as nat),
            final(self)@.valid(),
    {
        if len == 0 {
            let empty = Container { kind, items: Vec::new(), remaining: 0 };
            assert(empty@.items =~= Seq::empty());
            self.add(empty.into_json());
        } else {
            let ghost before = self@;
            let next = Container { kind, items: Vec::new(), remaining: len };
            assert(next@.items =~= Seq::empty());
            self.stack.push(next);
            assert(self@.stack =~= before.stack.push(next@));
        }
    }
}

impl BuilderView {
    /// The builder once a value without members was visited.
    pub open spec fn leaf(self, label: Seq<char>, value: JsonView) -> BuilderView {
        self.typed(label).added(value)
    }
}

impl JsonBuilder {
    /// A visit of a value without members.
    fn leaf(&mut self, label: &str, value: Json)
        requires
            old(self)@.valid(),
        ensures
            final(self)@ == old(self)@.leaf(label@, value@),
            final(self)@.valid(),
    {
        self.set_type(label);
        self.add(value);
    }

    /// A visit of a `u8`.
    pub fn visit_u8(&mut self, val: u8)
        requires
            old(self)@.valid(),
        ensures
            final(self)@ == old(self)@.leaf("u8"@, JsonView::Text(decimal(val as nat))),
            final(self)@.valid(),
    {
        let text = decimal_text(val as u128);
        self.leaf("u8", Json::Text(text));
    }

    /// A visit of a `u16`.
    pub fn visit_u16(&mut self, val: u16)
        requires
            old(self)@.valid(),
        ensures
            final(self)@ == old(self)@.leaf("u16"@, JsonView::Text(decimal(val as nat))),
            final(self)@.valid(),
    {
        let text = decimal_text(val as u128);
        self.leaf("u16", Json::Text(text));
    }

    /// A visit of a `u32`.
    pub fn visit_u32(&mut self, val: u32)
        requires
            old(self)@.valid(),
        ensures
            final(self)@ == old(self)@.leaf("u32"@, JsonView::Text(decimal(val as nat))),
            final(self)@.valid(),
    {
        let text = decimal_text(val as u128);
        self.leaf("u32", Json::Text(text));
    }

    /// A visit of a `u64`.
    pub fn visit_u64(&mut self, val: u64)
        requires
            old(self)@.valid(),
        ensures
            final(self)@ == old(self)@.leaf("u64"@, JsonView::Text(decimal(val as nat))),
            final(self)@.valid(),
    {
        let text = decimal_text(val as u128);
        self.leaf("u64", Json::Text(text));
    }

    /// A visit of a `u128`.
    pub fn visit_u128(&mut self, val: u128)
        requires
            old(self)@.valid(),
        ensures
            final(self)@ == old(self)@.leaf("u128"@, JsonView::Text(decimal(val as nat))),
            final(self)@.valid(),
    {
        let text = decimal_text(val as u128);
        self.leaf("u128", Json::Text(text));
    }

    /// A visit of an `i8`.
    pub fn visit_i8(&mut self, val: i8)
        requires
            old(self)@.valid(),
        ensures
            final(self)@ == old(self)@.leaf("i8"@, JsonView::Text(signed_decimal(val as int))),
            final(self)@.valid(),
    {
        let text = signed_decimal_text(val as i128);
        self.leaf("i8", Json::Text(text));
    }

    /// A visit of an `i16`.
    pub fn visit_i16(&mut self, val: i16)
        requires
            old(self)@.valid(),
        ensures
            final(self)@ == old(self)@.leaf("i16"@, JsonView::Text(signed_decimal(val as int))),
            final(self)@.valid(),
    {
        let text = signed_decimal_text(val as i128);
        self.leaf("i16", Json::Text(text));
    }

    /// A visit of an `i32`.
    pub fn visit_i32(&mut self, val: i32)
        requires
            old(self)@.valid(),
        ensures
            final(self)@ == old(self)@.leaf("i32"@, JsonView::Text(signed_decimal(val as int))),
            final(self)@.valid(),
    {
        let text = signed_decimal_text(val as i128);
        self.leaf("i32", Json::Text(text));
    }

    /// A visit of an `i64`.
    pub fn visit_i64(&mut self, val: i64)
        requires
            old(self)@.valid(),
        ensures
            final(self)@ == old(self)@.leaf("i64"@, JsonView::Text(signed_decimal(val as int))),
            final(self)@.valid(),
    {
        let text = signed_decimal_text(val as i128);
        self.leaf("i64", Json::Text(text));
    }

    /// A visit of an `i128`.
    pub fn visit_i128(&mut self, val: i128)
        requires
            old(self)@.valid(),
        ensures
            final(self)@ == old(self)@.leaf("i128"@, JsonView::Text(signed_decimal(val as int))),
            final(self)@.valid(),
    {
        let text = signed_decimal_text(val as i128);
        self.leaf("i128", Json::Text(text));
    }

    /// A visit of a `u256`, given in decimal.
    pub fn visit_u256(&mut self, val: String)
        requires
            old(self)@.valid(),
        ensures
            final(self)@ == old(self)@.leaf("u256"@, JsonView::Text(val@)),
            final(self)@.valid(),
    {
        self.leaf("u256", Json::Text(val));
    }

    /// A visit of a `i256`, given in decimal.
    pub fn visit_i256(&mut self, val: String)
        requires
            old(self)@.valid(),
        ensures
            final(self)@ == old(self)@.leaf("i256"@, JsonView::Text(val@)),
            final(self)@.valid(),
    {
        self.leaf("i256", Json::Text(val));
    }

    /// A visit of a truth value.
    pub fn visit_bool(&mut self, val: bool)
        requires
            old(self)@.valid(),
        ensures
            final(self)@ == old(self)@.leaf("bool"@, JsonView::Bool(val)),
            final(self)@.valid(),
    {
        self.leaf("bool", Json::Bool(val));
    }

    /// A visit of an address.
    pub fn visit_address(&mut self, val: &AccountAddress)
        requires
            old(self)@.valid(),
        ensures
            final(self)@ == old(self)@.leaf("address"@, JsonView::Text(hex_literal(val@))),
            final(self)@.valid(),
    {
        let text = val.to_hex_literal();
        self.leaf("address", Json::Text(text));
    }

    /// A visit of a value that is not known yet.
    pub fn visit_delayed(&mut self)
        requires
            old(self)@.valid(),
        ensures
            final(self)@ == old(self)@.leaf("delayed"@, JsonView::Text("<delayed>"@)),
            final(self)@.valid(),
    {
        self.leaf("delayed", Json::Text("<delayed>".to_owned()));
    }

    /// A visit of a struct of `len` members; its members are visited next.
    pub fn visit_struct(&mut self, len: usize) -> (descend: bool)
        requires
            old(self)@.valid(),
        ensures
            descend,
            final(self)@ == old(self)@.typed("struct"@).opened(ContainerKind::Struct, len as nat),
            final(self)@.valid(),
    {
        self.set_type("struct");
        self.open(ContainerKind::Struct, len);
        true
    }

    /// A visit of a closure of `len` members; its members are visited next.
    pub fn visit_closure(&mut self, len: usize) -> (descend: bool)
        requires
            old(self)@.valid(),
        ensures
            descend,
            final(self)@ == old(self)@.typed("closure"@).opened(ContainerKind::Struct, len as nat),
            final(self)@.valid(),
    {
        self.set_type("closure");
        self.open(ContainerKind::Struct, len);
        true
    }

    /// A visit of a vector of `len` members; its members are visited next.
    pub fn visit_vec(&mut self, len: usize) -> (descend: bool)
        requires
            old(self)@.valid(),
        ensures
            descend,
            final(self)@ == old(self)@.typed("vector"@).opened(ContainerKind::Vector, len as nat),
            final(self)@.valid(),
    {
        self.set_type("vector");
        self.open(ContainerKind::Vector, len);
        true
    }

    /// A visit of a reference: what it refers to takes its place.
    pub fn visit_ref(&mut self) -> (descend: bool)
        ensures
            descend,
            final(self)@ == old(self)@,
    {
        true
    }

    /// A visit of a byte vector, rendered as one hexadecimal text.
    pub fn visit_vec_u8(&mut self, vals: &[u8])
        requires
            old(self)@.valid(),
        ensures
            final(self)@ == old(self)@.leaf(
                "vector<u8>"@,
                JsonView::Text("0x"@ + hex_text(vals@)),
            ),
            final(self)@.valid(),
    {
        let digits = hex_encode(vals);
        self.leaf("vector<u8>", Json::Text(join2("0x", digits.as_str())));
    }
}

/// An argument, return value or the like: a type label and a rendering.
#[derive(Debug, PartialEq, Eq)]
pub struct TracedArg {
    pub ty: String,
    pub value: Json,
}

/// The mathematical counterpart of [`TracedArg`].
pub struct ArgView {
    pub ty: Seq<char>,
    pub value: JsonView,
}

impl View for TracedArg {
    type V = ArgView;

    open spec fn view(&self) -> ArgView {
        ArgView { ty: self.ty@, value: self.value@ }
    }
}

impl Clone for TracedArg {
    fn clone(&self) -> (res: Self)
        ensures
            res@ == self@,
    {
        TracedArg { ty: self.ty.clone(), value: self.value.clone() }
    }
}

/// What a walk has made of a value: unknown where the walk failed, or where it
/// visited nothing.
pub open spec fn walked_arg(builder: BuilderView, complete: bool) -> ArgView {
    if complete {
        ArgView {
            ty: match builder.first_type {
                Some(t) => t,
                None => "unknown"@,
            },
            value: match builder.root {
                Some(v) => v,
                None => JsonView::Null,
            },
        }
    } else {
        ArgView { ty: "unknown"@, value: JsonView::Null }
    }
}

/// The rendering of a value after a walk over it; `complete` says whether the
/// walk came to its end.
pub fn decode_value(builder: JsonBuilder, complete: bool) -> (res: TracedArg)
    ensures
        res@ == walked_arg(builder@, complete),
{
    if !complete {
        return TracedArg { ty: "unknown".to_owned(), value: Json::Null };
    }
    let ty = match builder.first_type {
        Some(t) => t,
        None => "unknown".to_owned(),
    };
    let value = match builder.root {
        Some(v) => v,
        None => Json::Null,
    };
    TracedArg { ty, value }
}

/// What a function that returns nothing gives back.
pub open spec fn unit_view() -> ArgView {
    ArgView { ty: "()"@, value: JsonView::Null }
}

/// What a function that returns nothing gives back.
pub fn unit_arg() -> (res: TracedArg)
    ensures
        res@ == unit_view(),
{
    TracedArg { ty: "()".to_owned(), value: Json::Null }
}

/// A Move value as a walk over it sees it.
pub enum Shape {
    /// A value without members, with its type label and its rendering.
    Leaf(Seq<char>, JsonView),
    /// A container with its type label and its members.
    Node(Seq<char>, ContainerKind, Seq<Shape>),
    /// A reference to a value.
    Reference(Box<Shape>),
}

/// The type label of a value.
pub open spec fn shape_label(shape: Shape) -> Seq<char>
    decreases shape,
{
    match shape {
        Shape::Leaf(label, _) => label,
        Shape::Node(label, _, _) => label,
        Shape::Reference(target) => shape_label(*target),
    }
}

/// The rendering of a value.
pub open spec fn shape_json(shape: Shape) -> JsonView
    decreases shape,
{
    match shape {
        Shape::Leaf(_, value) => value,
        Shape::Node(_, kind, members) => container_json(
            kind,
            Seq::new(
                members.len(),
                |i: int|
                    if 0 <= i < members.len() {
                        shape_json(members[i])
                    } else {
                        JsonView::Null
                    },
            ),
        ),
        Shape::Reference(target) => shape_json(*target),
    }
}

/// The builder after a walk over a value: a container announces its length and
/// its members follow.
pub open spec fn walked(builder: BuilderView, shape: Shape) -> BuilderView
    decreases shape, 0nat,
{
    match shape {
        Shape::Leaf(label, value) => builder.leaf(label, value),
        Shape::Node(label, kind, members) => walked_members(
            builder.typed(label).opened(kind, members.len()),
            members,
            members.len(),
        ),
        Shape::Reference(target) => walked(builder, *target),
    }
}

/// The builder after a walk over the first `count` of some members.
pub open spec fn walked_members(
    builder: BuilderView,
    members: Seq<Shape>,
    count: nat,
) -> BuilderView
    decreases members, count,
{
    if count == 0 || count > members.len() {
        builder
    } else {
        walked(walked_members(builder, members, (count - 1) as nat), members[count - 1])
    }
}

/// The renderings of some values.
pub open spec fn shape_jsons(members: Seq<Shape>) -> Seq<JsonView> {
    members.map_values(|m: Shape| shape_json(m))
}

/// A builder that has a type keeps it.
proof fn lemma_typed_once(builder: BuilderView, label: Seq<char>)
    requires
        builder.first_type is Some,
    ensures
        builder.typed(label) == builder,
{
}

/// Adding a value to a valid builder leaves it valid.
proof fn lemma_folded_valid(stack: Seq<ContainerView>, value: JsonView)
    requires
        forall|i: int| 0 <= i < stack.len() ==> (#[trigger] stack[i]).remaining > 0,
    ensures
        forall|i: int|
            0 <= i < folded(stack, value).0.len() ==> (#[trigger] folded(
                stack,
                value,
            ).0[i]).remaining > 0,
    decreases stack.len(),
{
    if stack.len() > 0 {
        let top = stack.last();
        assert(stack[stack.len() - 1].remaining > 0);
        let rest = stack.drop_last();
        assert forall|i: int| 0 <= i < rest.len() implies (#[trigger] rest[i]).remaining > 0 by {
            assert(stack[i].remaining > 0);
        }
        if top.remaining <= 1 {
            lemma_folded_valid(rest, container_json(top.kind, top.items.push(value)));
        }
    }
}

/// Walking the first `count` of a container's members fills the container with
/// their renderings, and closes it once all have arrived.
proof fn lemma_walked_members(
    builder: BuilderView,
    kind: ContainerKind,
    members: Seq<Shape>,
    count: nat,
)
    requires
        builder.valid(),
        builder.first_type is Some,
        0 < members.len(),
        count <= members.len(),
    ensures
        count < members.len() ==> walked_members(
            builder.opened(kind, members.len()),
            members,
            count,
        ) == (BuilderView {
            stack: builder.stack.push(
                ContainerView {
                    kind,
                    items: shape_jsons(members).take(count as int),
                    remaining: (members.len() - count) as nat,
                },
            ),
            ..builder
        }),
        count == members.len() ==> walked_members(
            builder.opened(kind, members.len()),
            members,
            count,
        ) == builder.added(container_json(kind, shape_jsons(members))),
    decreases members, count,
{
    let jsons = shape_jsons(members);
    if count == 0 {
        assert(jsons.take(0) =~= Seq::empty());
    } else {
        let last = (count - 1) as nat;
        lemma_walked_members(builder, kind, members, last);
        let before = walked_members(builder.opened(kind, members.len()), members, last);
        let open = ContainerView {
            kind,
            items: jsons.take(last as int),
            remaining: (members.len() - last) as nat,
        };
        assert(before.stack == builder.stack.push(open));
        assert forall|i: int| 0 <= i < before.stack.len() implies (
        #[trigger] before.stack[i]).remaining > 0 by {
            if i < builder.stack.len() {
                assert(builder.stack[i].remaining > 0);
            }
        }
        law_walk(before, members[last as int]);
        lemma_typed_once(before, shape_label(members[last as int]));
        assert(before.stack.drop_last() =~= builder.stack);
        assert(jsons.take(last as int).push(jsons[last as int]) =~= jsons.take(count as int));
        assert(jsons.take(members.len() as int) =~= jsons);
    }
}

/// A walk over a value adds its rendering, whatever containers were open when
/// it began, and leaves its type where none was known.
pub proof fn law_walk(builder: BuilderView, shape: Shape)
    requires
        builder.valid(),
    ensures
        walked(builder, shape) == builder.typed(shape_label(shape)).added(shape_json(shape)),
        walked(builder, shape).valid(),
    decreases shape, 0nat,
{
    lemma_folded_valid(builder.stack, shape_json(shape));
    match shape {
        Shape::Leaf(_, _) => {},
        Shape::Node(label, kind, members) => {
            assert(shape_json(shape) == container_json(kind, shape_jsons(members))) by {
                match kind {
                    ContainerKind::Vector => {
                        assert(shape_json(shape)->Array_0 =~= shape_jsons(members));
                    },
                    ContainerKind::Struct => {
                        assert(shape_json(shape)->Object_0 =~= indexed_fields(shape_jsons(members)));
                    },
                }
            }
            if members.len() == 0 {
                assert(shape_jsons(members) =~= Seq::<JsonView>::empty());
                assert(walked(builder, shape) == builder.typed(label).opened(kind, 0));
            } else {
                lemma_walked_members(builder.typed(label), kind, members, members.len());
                assert(walked(builder, shape) == walked_members(
                    builder.typed(label).opened(kind, members.len()),
                    members,
                    members.len(),
                ));
            }
        },
        Shape::Reference(target) => {
            law_walk(builder, *target);
        },
    }
}

/// A complete walk that starts with a fresh builder gives the value's type and
/// rendering.
pub proof fn law_decoded(shape: Shape)
    ensures
        walked_arg(walked(BuilderView::empty(), shape), true) == (ArgView {
            ty: shape_label(shape),
            value: shape_json(shape),
        }),
        walked(BuilderView::empty(), shape).stack.len() == 0,
{
    law_walk(BuilderView::empty(), shape);
}

/// A struct is rendered with one field for each member: the field named by a
/// position holds the member there, and no other name is found.
pub proof fn law_struct_fields(items: Seq<JsonView>, key: Seq<char>)
    ensures
        forall|i: int|
            0 <= i < items.len() ==> #[trigger] container_json(ContainerKind::Struct, items).get(
                decimal(i as nat),
            ) == Some(items[i]),
        (forall|i: int| 0 <= i < items.len() ==> key != #[trigger] decimal(i as nat))
            ==> container_json(ContainerKind::Struct, items).get(key) is None,
{
    let fields = indexed_fields(items);
    assert forall|i: int| 0 <= i < items.len() implies #[trigger] container_json(
        ContainerKind::Struct,
        items,
    ).get(decimal(i as nat)) == Some(items[i]) by {
        assert forall|j: int| 0 <= j < i implies fields[j].0 != decimal(i as nat) by {
            law_decimal_injective(i as nat, j as nat);
        }
        lemma_field_of(fields, decimal(i as nat), i);
    }
    if forall|i: int| 0 <= i < items.len() ==> key != #[trigger] decimal(i as nat) {
        assert forall|j: int| 0 <= j < fields.len() implies fields[j].0 != key by {
            assert(key != decimal(j as nat));
        }
        lemma_no_field(fields, key);
    }
}

} // verus!
