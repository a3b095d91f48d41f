//! Reading what a request asks for: addresses, functions, arguments, resources.
use crate::address::{address_of, hex_literal, law_literal_round_trip, law_long_form_round_trip,
    module_text, unreadable_address, AccountAddress, ModuleId, ModuleIdView};
use crate::encoding::{bcs_array_bytes, bcs_bool_bytes, bcs_text, bcs_text_bytes, bcs_u64_bytes,
    hex_text, little_endian, percent_decode, percent_decode_error, percent_decoded,
    BCS_MAX_SEQUENCE_LENGTH};
use crate::http::{accept_message, authorized, demands_bcs, error_body, header_text, may_carry_bcs,
    media_type_message, read_header, reject_bcs_accept, require_auth, require_bcs_content_type,
    to_json_error, ApiError, HttpError, ServerOptions, StatusCode};
use crate::json::JsonView;
use crate::names::{identifier, is_identifier, lemma_name_without_colon};
use crate::text::{contains, contains_text, decimal, join2, law_split_last, split_last, split_last_text,
    starts_with, starts_with_text};
use axum::http::{HeaderMap, HeaderValue};
use vstd::prelude::*;
use vstd::utf8::{encode_utf8, valid_utf8};

verus! {

/// Reads an address, or refuses the request.
pub fn parse_address(s: &str) -> (res: Result<AccountAddress, HttpError>)
    ensures
        match res {
            Ok(a) => address_of(s@) == Some(a@),
            Err(e) => {
                &&& address_of(s@) is None
                &&& e.0 == StatusCode::BAD_REQUEST
                &&& e.1@ == "Invalid address: "@ + unreadable_address()
            },
        },
{
    match AccountAddress::from_text(s) {
        Ok(a) => Ok(a),
        Err(e) => Err((StatusCode::BAD_REQUEST, join2("Invalid address: ", e.as_str()))),
    }
}

/// The message for a text that is not a name.
pub open spec fn invalid_name(text: Seq<char>) -> Seq<char> {
    "Invalid identifier '"@ + text + "'"@
}

/// What a function identifier `address::module::function` names, or why it is
/// refused. The function's name is looked at first, then the module's, then the
/// address.
pub open spec fn function_id(text: Seq<char>) -> Result<(ModuleIdView, Seq<char>), Seq<char>> {
    match split_last(text, "::"@) {
        None => Err("Invalid function ID: "@ + text),
        Some((module, function)) => if !is_identifier(function) {
            Err(invalid_name(function))
        } else {
            match split_last(module, "::"@) {
                None => Err("Invalid module ID in: "@ + text),
                Some((address, name)) => if !is_identifier(name) {
                    Err(invalid_name(name))
                } else {
                    match address_of(address) {
                        None => Err("Invalid address: "@ + unreadable_address()),
                        Some(a) => Ok((ModuleIdView { address: a, name }, function)),
                    }
                },
            }
        },
    }
}

/// Reads a function identifier, or refuses the request.
pub fn parse_function_id(s: &str) -> (res: Result<(ModuleId, String), HttpError>)
    ensures
        match res {
            Ok((module, function)) => function_id(s@) == Ok::<(ModuleIdView, Seq<char>), Seq<char>>(
                (module@, function@),
            ),
            Err(e) => e.0 == StatusCode::BAD_REQUEST && function_id(s@) == Err::<
                (ModuleIdView, Seq<char>),
                Seq<char>,
            >(e.1@),
        },
{
    let (head, function) = match split_last_text(s, "::") {
        Some(parts) => parts,
        None => {
            return Err((StatusCode::BAD_REQUEST, join2("Invalid function ID: ", s)));
        },
    };
    let func_name = match identifier(function.as_str()) {
        Ok(name) => name,
        Err(e) => {
            return Err((StatusCode::BAD_REQUEST, e));
        },
    };
    let (address, module) = match split_last_text(head.as_str(), "::") {
        Some(parts) => parts,
        None => {
            return Err((StatusCode::BAD_REQUEST, join2("Invalid module ID in: ", s)));
        },
    };
    let module_name = match identifier(module.as_str()) {
        Ok(name) => name,
        Err(e) => {
            return Err((StatusCode::BAD_REQUEST, e));
        },
    };
    match parse_address(address.as_str()) {
        Ok(a) => Ok((ModuleId::new(a, module_name), func_name)),
        Err(e) => Err(e),
    }
}

/// A module's text, followed by the name of a function, is read back as that
/// module and function.
pub proof fn law_function_id_round_trip(module: ModuleIdView, function: Seq<char>)
    requires
        module.address.len() == 32,
        is_identifier(module.name),
        is_identifier(function),
    ensures
        function_id(module_text(module) + "::"@ + function) == Ok::<
            (ModuleIdView, Seq<char>),
            Seq<char>,
        >((module, function)),
{
    lemma_name_without_colon(module.name);
    lemma_name_without_colon(function);
    law_split_last(module_text(module), function);
    law_split_last(hex_literal(module.address), module.name);
    law_literal_round_trip(module.address);
}

/// The module of an account that a name stands for.
pub fn module_of(address: AccountAddress, name: &str) -> (res: Result<ModuleId, String>)
    ensures
        match res {
            Ok(id) => is_identifier(name@) && id@ == (ModuleIdView {
                address: address@,
                name: name@,
            }),
            Err(e) => !is_identifier(name@) && e@ == invalid_name(name@),
        },
{
    match identifier(name) {
        Ok(name) => Ok(ModuleId::new(address, name)),
        Err(e) => Err(e),
    }
}

/// An argument of a view function, as JSON gives it. A number comes with its
/// value, where it is an unsigned 64-bit one, and its literal; what is neither
/// text, number nor truth value comes as its JSON text.
#[derive(Debug, PartialEq, Eq)]
pub enum ViewArg {
    Text(String),
    Number { value: Option<u64>, literal: String },
    Bool(bool),
    Other { json: String },
}

/// The BCS bytes of an argument, or why it is refused. A text that names an
/// address stands for the address.
pub open spec fn view_arg_bytes(arg: ViewArg) -> Result<Seq<u8>, Seq<char>> {
    match arg {
        ViewArg::Text(text) => match address_of(text@) {
            Some(address) => Ok(address),
            None => if encode_utf8(text@).len() <= BCS_MAX_SEQUENCE_LENGTH {
                Ok(bcs_text(text@))
            } else {
                Err(
                    "BCS error: "@ + ("exceeded max sequence length: "@ + decimal(
                        encode_utf8(text@).len(),
                    )),
                )
            },
        },
        ViewArg::Number { value: Some(n), .. } => Ok(little_endian(n as nat, 8)),
        ViewArg::Number { value: None, literal } => Err("Unsupported number: "@ + literal@),
        ViewArg::Bool(b) => Ok(
            seq![
                if b {
                    1u8
                } else {
                    0u8
                },
            ],
        ),
        ViewArg::Other { json } => Err("Unsupported arg type: "@ + json@),
    }
}

/// A text that an address is shown as, short or long, is encoded as the
/// address.
pub proof fn law_address_argument(text: String, address: Seq<u8>)
    requires
        address.len() == 32,
        text@ == hex_literal(address) || text@ == "0x"@ + hex_text(address) || text@ == hex_text(
            address,
        ),
    ensures
        view_arg_bytes(ViewArg::Text(text)) == Ok::<Seq<u8>, Seq<char>>(address),
{
    law_literal_round_trip(address);
    law_long_form_round_trip(address);
}

/// The outcome of an encoding, with its failure as a refusal.
fn encoded(bytes: Result<Vec<u8>, String>) -> (res: Result<Vec<u8>, HttpError>)
    ensures
        match bytes {
            Ok(b) => res == Ok::<Vec<u8>, HttpError>(b),
            Err(e) => res is Err && res->Err_0.0 == StatusCode::BAD_REQUEST && res->Err_0.1@
                == "BCS error: "@ + e@,
        },
{
    match bytes {
        Ok(b) => Ok(b),
        Err(e) => Err((StatusCode::BAD_REQUEST, join2("BCS error: ", e.as_str()))),
    }
}

/// Encodes an argument, or refuses the request.
pub fn serialize_view_arg(v: &ViewArg) -> (res: Result<Vec<u8>, HttpError>)
    ensures
        match res {
            Ok(bytes) => view_arg_bytes(*v) == Ok::<Seq<u8>, Seq<char>>(bytes@),
            Err(e) => e.0 == StatusCode::BAD_REQUEST && view_arg_bytes(*v) == Err::<
                Seq<u8>,
                Seq<char>,
            >(e.1@),
        },
{
    match v {
        ViewArg::Text(text) => match AccountAddress::from_text(text.as_str()) {
            Ok(address) => encoded(bcs_array_bytes(&address.bytes)),
            Err(_) => encoded(bcs_text_bytes(text.as_str())),
        },
        ViewArg::Number { value, literal } => match value {
            Some(n) => encoded(bcs_u64_bytes(*n)),
            None => Err(
                (StatusCode::BAD_REQUEST, join2("Unsupported number: ", literal.as_str())),
            ),
        },
        ViewArg::Bool(b) => encoded(bcs_bool_bytes(*b)),
        ViewArg::Other { json } => Err(
            (StatusCode::BAD_REQUEST, join2("Unsupported arg type: ", json.as_str())),
        ),
    }
}

/// The outcome of reading a type tag, with its failure as a refusal.
pub fn parsed_tag<T>(tag: Result<T, String>) -> (res: Result<T, HttpError>)
    ensures
        match tag {
            Ok(t) => res == Ok::<T, HttpError>(t),
            Err(e) => res == Err::<T, HttpError>((StatusCode::BAD_REQUEST, e)),
        },
{
    match tag {
        Ok(t) => Ok(t),
        Err(e) => Err((StatusCode::BAD_REQUEST, e)),
    }
}

/// Whether a view request is in BCS: its content type, JSON where it has none,
/// names BCS.
pub open spec fn is_bcs_view(content_type: Option<Seq<char>>) -> bool {
    content_type is Some && contains(content_type->0, "bcs"@)
}

/// Whether a view request is in BCS.
pub fn view_is_bcs(headers: &HeaderMap) -> (res: bool)
    ensures
        res == is_bcs_view(header_text(*headers, "content-type"@)),
{
    proof {
        reveal_strlit("content-type");
    }
    match read_header(headers, "content-type") {
        Some(content_type) => contains_text(content_type, "bcs"),
        None => false,
    }
}

/// A call of a view function.
#[derive(Debug, PartialEq, Eq)]
pub struct ViewCall<T> {
    pub module: ModuleId,
    pub function: String,
    pub ty_args: Vec<T>,
    pub args: Vec<Vec<u8>>,
}

/// The first failure among the outcomes of reading type tags.
pub open spec fn first_bad_tag<T>(tags: Seq<Result<T, String>>) -> Option<Seq<char>>
    decreases tags.len(),
{
    if tags.len() == 0 {
        None
    } else {
        match tags[0] {
            Err(e) => Some(e@),
            Ok(_) => first_bad_tag(tags.drop_first()),
        }
    }
}

/// The first failure among the encodings of arguments.
pub open spec fn first_bad_arg(args: Seq<ViewArg>) -> Option<Seq<char>>
    decreases args.len(),
{
    if args.len() == 0 {
        None
    } else {
        match view_arg_bytes(args[0]) {
            Err(e) => Some(e),
            Ok(_) => first_bad_arg(args.drop_first()),
        }
    }
}

/// Why a view request is refused: for its function, else for its first bad type
/// argument, else for its first bad argument.
pub open spec fn view_refusal<T>(
    function: Seq<char>,
    tags: Seq<Result<T, String>>,
    args: Seq<ViewArg>,
) -> Option<Seq<char>> {
    match function_id(function) {
        Err(e) => Some(e),
        Ok(_) => match first_bad_tag(tags) {
            Some(e) => Some(e),
            None => first_bad_arg(args),
        },
    }
}

/// A failure after outcomes that are all good is the first.
pub proof fn lemma_first_bad_tag<T>(tags: Seq<Result<T, String>>, at: int)
    requires
        0 <= at <= tags.len(),
        forall|i: int| 0 <= i < at ==> (#[trigger] tags[i]) is Ok,
    ensures
        at < tags.len() && tags[at] is Err ==> first_bad_tag(tags) == Some(tags[at]->Err_0@),
        at == tags.len() ==> first_bad_tag(tags) is None,
    decreases at,
{
    if at > 0 {
        assert(tags[0] is Ok);
        let rest = tags.drop_first();
        assert forall|i: int| 0 <= i < at - 1 implies (#[trigger] rest[i]) is Ok by {
            assert(tags[i + 1] is Ok);
        }
        lemma_first_bad_tag(rest, at - 1);
    }
}

/// A failure after encodings that are all good is the first.
pub proof fn lemma_first_bad_arg(args: Seq<ViewArg>, at: int)
    requires
        0 <= at <= args.len(),
        forall|i: int| 0 <= i < at ==> view_arg_bytes(#[trigger] args[i]) is Ok,
    ensures
        at < args.len() && view_arg_bytes(args[at]) is Err ==> first_bad_arg(args) == Some(
            view_arg_bytes(args[at])->Err_0,
        ),
        at == args.len() ==> first_bad_arg(args) is None,
    decreases at,
{
    if at > 0 {
        assert(view_arg_bytes(args[0]) is Ok);
        let rest = args.drop_first();
        assert forall|i: int| 0 <= i < at - 1 implies view_arg_bytes(#[trigger] rest[i]) is Ok by {
            assert(view_arg_bytes(args[i + 1]) is Ok);
        }
        lemma_first_bad_arg(rest, at - 1);
    }
}

/// The bytes are the encoding of the argument.
pub open spec fn encodes(arg: ViewArg, bytes: Seq<u8>) -> bool {
    view_arg_bytes(arg) == Ok::<Seq<u8>, Seq<char>>(bytes)
}

/// Encodes arguments, or refuses the request for the first bad one.
pub fn serialize_view_args(arguments: &Vec<ViewArg>) -> (res: Result<Vec<Vec<u8>>, HttpError>)
    ensures
        match res {
            Ok(args) => {
                &&& first_bad_arg(arguments@) is None
                &&& args@.len() == arguments@.len()
                &&& forall|i: int|
                    0 <= i < args@.len() ==> encodes(arguments@[i], (#[trigger] args@[i])@)
            },
            Err(e) => e.0 == StatusCode::BAD_REQUEST && first_bad_arg(arguments@) == Some(e.1@),
        },
{
    let mut args: Vec<Vec<u8>> = Vec::new();
    let mut i: usize = 0;
    while i < arguments.len()
        invariant
            i <= arguments@.len(),
            args@.len() == i,
            forall|j: int| 0 <= j < i ==> encodes(arguments@[j], (#[trigger] args@[j])@),
        decreases arguments@.len() - i,
    {
        match serialize_view_arg(&arguments[i]) {
            Ok(bytes) => {
                assert(encodes(arguments@[i as int], bytes@));
                args.push(bytes);
            },
            Err(e) => {
                proof {
                    assert forall|j: int| 0 <= j < i implies view_arg_bytes(
                        #[trigger] arguments@[j],
                    ) is Ok by {
                        assert(encodes(arguments@[j], args@[j]@));
                    }
                    lemma_first_bad_arg(arguments@, i as int);
                }
                return Err(e);
            },
        }
        i += 1;
    }
    proof {
        assert forall|j: int| 0 <= j < arguments@.len() implies view_arg_bytes(
            #[trigger] arguments@[j],
        ) is Ok by {
            assert(encodes(arguments@[j], args@[j]@));
        }
        lemma_first_bad_arg(arguments@, arguments@.len() as int);
    }
    Ok(args)
}

/// Reads a view request: its function, the type arguments as they were read, and
/// its arguments.
pub fn view_call<T>(
    function: &str,
    tags: Vec<Result<T, String>>,
    arguments: &Vec<ViewArg>,
) -> (res: Result<ViewCall<T>, HttpError>)
    ensures
        match res {
            Ok(call) => {
                &&& view_refusal(function@, tags@, arguments@) is None
                &&& function_id(function@) == Ok::<(ModuleIdView, Seq<char>), Seq<char>>(
                    (call.module@, call.function@),
                )
                &&& call.ty_args@.len() == tags@.len()
                &&& forall|i: int|
                    0 <= i < tags@.len() ==> #[trigger] tags@[i] == Ok::<T, String>(call.ty_args@[i])
                &&& call.args@.len() == arguments@.len()
                &&& forall|i: int|
                    0 <= i < arguments@.len() ==> encodes(
                        arguments@[i],
                        (#[trigger] call.args@[i])@,
                    )
            },
            Err(e) => e.0 == StatusCode::BAD_REQUEST && view_refusal(
                function@,
                tags@,
                arguments@,
            ) == Some(e.1@),
        },
{
    let (module, func_name) = match parse_function_id(function) {
        Ok(parts) => parts,
        Err(e) => {
            return Err(e);
        },
    };
    let ghost all = tags@;
    let mut ty_args: Vec<T> = Vec::new();
    for tag in it: tags
        invariant
            it.seq() == all,
            function_id(function@) is Ok,
            ty_args@.len() == it.index(),
            forall|i: int|
                0 <= i < ty_args@.len() ==> #[trigger] all[i] == Ok::<T, String>(ty_args@[i]),
    {
        proof {
            lemma_first_bad_tag(all, it.index() as int);
        }
        match parsed_tag(tag) {
            Ok(t) => ty_args.push(t),
            Err(e) => {
                return Err(e);
            },
        }
    }
    proof {
        lemma_first_bad_tag(all, all.len() as int);
    }
    match serialize_view_args(arguments) {
        Ok(args) => Ok(ViewCall { module, function: func_name, ty_args, args }),
        Err(e) => Err(e),
    }
}

/// The text of a resource type in a path: without the slash that the route
/// leaves in front of it.
pub open spec fn without_slash(text: Seq<char>) -> Seq<char> {
    if starts_with(text, "/"@) {
        text.skip(1)
    } else {
        text
    }
}

/// Reads which resource a path asks for: the account, and the resource type with
/// its percent-escapes resolved. The account is looked at first.
pub fn resource_request(address: &str, resource_type: &str) -> (res: Result<
    (AccountAddress, String),
    HttpError,
>)
    ensures
        match res {
            Ok((account, ty)) => {
                let bytes = percent_decoded(encode_utf8(without_slash(resource_type@)));
                &&& address_of(address@) == Some(account@)
                &&& valid_utf8(bytes)
                &&& encode_utf8(ty@) == bytes
            },
            Err(e) => {
                &&& e.0 == StatusCode::BAD_REQUEST
                &&& if address_of(address@) is None {
                    e.1@ == "Invalid address: "@ + unreadable_address()
                } else {
                    &&& !valid_utf8(percent_decoded(encode_utf8(without_slash(resource_type@))))
                    &&& e.1@ == percent_decode_error(without_slash(resource_type@))
                }
            },
        },
{
    let account = match parse_address(address) {
        Ok(a) => a,
        Err(e) => {
            return Err(e);
        },
    };
    let trimmed = if starts_with_text(resource_type, "/") {
        proof {
            reveal_strlit("/");
        }
        let total = resource_type.unicode_len();
        let rest = resource_type.substring_char(1, total);
        assert(rest@ =~= resource_type@.skip(1));
        rest
    } else {
        resource_type
    };
    match percent_decode(trimmed) {
        Ok(ty) => Ok((account, ty)),
        Err(e) => Err((StatusCode::BAD_REQUEST, e)),
    }
}

/// Why a request that carries a BCS transaction is refused by its headers.
pub open spec fn bcs_refusal(content_type: Option<Seq<char>>, accept: Option<Seq<char>>) -> Option<
    StatusCode,
> {
    if !may_carry_bcs(content_type) {
        Some(StatusCode::UNSUPPORTED_MEDIA_TYPE)
    } else if demands_bcs(accept) {
        Some(StatusCode::NOT_ACCEPTABLE)
    } else {
        None
    }
}

/// Checks the headers of a request that carries a BCS transaction.
pub fn check_bcs_headers(headers: &HeaderMap) -> (res: Result<(), ApiError>)
    ensures
        match res {
            Ok(()) => bcs_refusal(
                header_text(*headers, "content-type"@),
                header_text(*headers, "accept"@),
            ) is None,
            Err(e) => {
                &&& bcs_refusal(
                    header_text(*headers, "content-type"@),
                    header_text(*headers, "accept"@),
                ) == Some(e.0)
                &&& e.1@ == bcs_refusal_body(e.0)
            },
        },
{
    match require_bcs_content_type(headers) {
        Ok(()) => reject_bcs_accept(headers),
        Err(e) => Err(e),
    }
}

/// Checks that a request may commit a transaction: where the server is strict
/// and the request commits, it must carry the token.
pub fn check_commit(headers: &HeaderMap, options: &ServerOptions, commit: bool) -> (res: Result<
    (),
    ApiError,
>)
    ensures
        match res {
            Ok(()) => !commit || !options.strict_local_auth || authorized(*headers, *options),
            Err(e) => {
                &&& commit && options.strict_local_auth && !authorized(*headers, *options)
                &&& e.0 == StatusCode::UNAUTHORIZED
                &&& e.1@ == error_body("unauthorized"@, "missing or invalid x-movelite-token"@)
            },
        },
{
    if commit && options.strict_local_auth {
        match require_auth(headers, options) {
            Ok(()) => Ok(()),
            Err(e) => Err(to_json_error(e)),
        }
    } else {
        Ok(())
    }
}

/// Checks a request that submits a transaction: its headers first, then that it
/// may commit.
pub fn check_submit(headers: &HeaderMap, options: &ServerOptions) -> (res: Result<(), ApiError>)
    ensures
        match res {
            Ok(()) => {
                &&& bcs_refusal(
                    header_text(*headers, "content-type"@),
                    header_text(*headers, "accept"@),
                ) is None
                &&& !options.strict_local_auth || authorized(*headers, *options)
            },
            Err(e) => match bcs_refusal(
                header_text(*headers, "content-type"@),
                header_text(*headers, "accept"@),
            ) {
                Some(status) => e.0 == status && e.1@ == bcs_refusal_body(status),
                None => {
                    &&& options.strict_local_auth && !authorized(*headers, *options)
                    &&& e.0 == StatusCode::UNAUTHORIZED
                    &&& e.1@ == error_body("unauthorized"@, "missing or invalid x-movelite-token"@)
                },
            },
        },
{
    match check_bcs_headers(headers) {
        Ok(()) => check_commit(headers, options, true),
        Err(e) => Err(e),
    }
}

/// Refuses a body that is not a BCS transaction.
pub fn bad_transaction(error: &str) -> (res: ApiError)
    ensures
        res.0 == StatusCode::BAD_REQUEST,
        res.1@ == error_body(
            "invalid_input"@,
            "Failed to deserialize BCS transaction: "@ + error@,
        ),
{
    to_json_error(
        (StatusCode::BAD_REQUEST, join2("Failed to deserialize BCS transaction: ", error)),
    )
}

/// The body that a BCS refusal by the headers is answered with.
pub open spec fn bcs_refusal_body(status: StatusCode) -> JsonView {
    if status == StatusCode::UNSUPPORTED_MEDIA_TYPE {
        error_body("unsupported_media_type"@, media_type_message())
    } else {
        error_body("not_acceptable"@, accept_message())
    }
}

/// The answer to a body that is not a BCS transaction.
pub open spec fn bad_transaction_answer(error: Seq<char>) -> (StatusCode, JsonView) {
    (
        StatusCode::BAD_REQUEST,
        error_body("invalid_input"@, "Failed to deserialize BCS transaction: "@ + error),
    )
}

/// The answer to a request that lacks the token.
pub open spec fn unauthorized_answer() -> (StatusCode, JsonView) {
    (
        StatusCode::UNAUTHORIZED,
        error_body("unauthorized"@, "missing or invalid x-movelite-token"@),
    )
}

/// The answer to a request whose headers are refused.
pub open spec fn header_refusal(headers: HeaderMap<HeaderValue>) -> Option<(StatusCode, JsonView)> {
    match bcs_refusal(header_text(headers, "content-type"@), header_text(headers, "accept"@)) {
        Some(status) => Some((status, bcs_refusal_body(status))),
        None => None,
    }
}

/// Why a request to submit a transaction is refused: for its headers, else for
/// the token, else for its body.
pub open spec fn submit_refusal<T>(
    headers: HeaderMap<HeaderValue>,
    options: ServerOptions,
    decoded: Result<T, String>,
) -> Option<(StatusCode, JsonView)> {
    if header_refusal(headers) is Some {
        header_refusal(headers)
    } else if options.strict_local_auth && !authorized(headers, options) {
        Some(unauthorized_answer())
    } else {
        match decoded {
            Err(e) => Some(bad_transaction_answer(e@)),
            Ok(_) => None,
        }
    }
}

/// Why a request to simulate a transaction is refused: for its headers, else for
/// its body.
pub open spec fn simulate_refusal<T>(
    headers: HeaderMap<HeaderValue>,
    decoded: Result<T, String>,
) -> Option<(StatusCode, JsonView)> {
    if header_refusal(headers) is Some {
        header_refusal(headers)
    } else {
        match decoded {
            Err(e) => Some(bad_transaction_answer(e@)),
            Ok(_) => None,
        }
    }
}

/// Why a request to trace a transaction is refused: for its headers, else for
/// its body, else, where it commits, for the token.
pub open spec fn trace_refusal<T>(
    headers: HeaderMap<HeaderValue>,
    options: ServerOptions,
    commit: bool,
    decoded: Result<T, String>,
) -> Option<(StatusCode, JsonView)> {
    if simulate_refusal(headers, decoded) is Some {
        simulate_refusal(headers, decoded)
    } else if commit && options.strict_local_auth && !authorized(headers, options) {
        Some(unauthorized_answer())
    } else {
        None
    }
}

/// The transaction of a request to submit one, as its body was read, or the
/// refusal.
pub fn submit_request<T>(
    headers: &HeaderMap,
    options: &ServerOptions,
    decoded: Result<T, String>,
) -> (res: Result<T, ApiError>)
    ensures
        match res {
            Ok(txn) => decoded == Ok::<T, String>(txn) && submit_refusal(
                *headers,
                *options,
                decoded,
            ) is None,
            Err(e) => submit_refusal(*headers, *options, decoded) == Some((e.0, e.1@)),
        },
{
    match check_submit(headers, options) {
        Ok(()) => match decoded {
            Ok(txn) => Ok(txn),
            Err(e) => Err(bad_transaction(e.as_str())),
        },
        Err(e) => Err(e),
    }
}

/// The transaction of a request to simulate one, as its body was read, or the
/// refusal.
pub fn simulate_request<T>(headers: &HeaderMap, decoded: Result<T, String>) -> (res: Result<
    T,
    ApiError,
>)
    ensures
        match res {
            Ok(txn) => decoded == Ok::<T, String>(txn) && simulate_refusal(
                *headers,
                decoded,
            ) is None,
            Err(e) => simulate_refusal(*headers, decoded) == Some((e.0, e.1@)),
        },
{
    match check_bcs_headers(headers) {
        Ok(()) => match decoded {
            Ok(txn) => Ok(txn),
            Err(e) => Err(bad_transaction(e.as_str())),
        },
        Err(e) => Err(e),
    }
}

/// The transaction of a request to trace one, as its body was read, or the
/// refusal.
pub fn trace_request<T>(
    headers: &HeaderMap,
    options: &ServerOptions,
    commit: bool,
    decoded: Result<T, String>,
) -> (res: Result<T, ApiError>)
    ensures
        match res {
            Ok(txn) => decoded == Ok::<T, String>(txn) && trace_refusal(
                *headers,
                *options,
                commit,
                decoded,
            ) is None,
            Err(e) => trace_refusal(*headers, *options, commit, decoded) == Some((e.0, e.1@)),
        },
{
    match simulate_request(headers, decoded) {
        Ok(txn) => match check_commit(headers, options, commit) {
            Ok(()) => Ok(txn),
            Err(e) => Err(e),
        },
        Err(e) => Err(e),
    }
}

/// Refuses a view request whose BCS body cannot be read.
pub fn bad_bcs_view(error: &str) -> (res: HttpError)
    ensures
        res.0 == StatusCode::BAD_REQUEST,
        res.1@ == "BCS deserialize error: "@ + error@,
{
    (StatusCode::BAD_REQUEST, join2("BCS deserialize error: ", error))
}

/// Refuses a view request whose JSON body cannot be read.
pub fn bad_json_view(error: &str) -> (res: HttpError)
    ensures
        res.0 == StatusCode::BAD_REQUEST,
        res.1@ == "JSON parse error: "@ + error@,
{
    (StatusCode::BAD_REQUEST, join2("JSON parse error: ", error))
}

} // verus!
