//! What arguments and attributes say, part by part.

use crate::args::{
    default_args, endpoint_args, key_step, method_of, response_def, response_entries,
    response_entry, response_field, response_fields, ResponseDefModel, ResponseDraftModel,
    ResponseEntryModel,
};
use crate::endpoint::{can_be_named, is_endpoint_code, is_endpoint_expansion};
use crate::error::{error_reports, Messages};
use crate::fields::{
    doc_of, doc_text, field_info, field_meta, field_meta_by, field_meta_from, field_meta_item,
    field_meta_items, rename_by, rename_in, rename_of, source_of, FieldMetaModel, SourceKind,
};
use crate::input::{
    expr_step, fresh, group_step, ident_step, leftover, meta_path, node_step, punct_step,
    string_step, type_step, InputModel, Node,
};
use crate::items::{item_fn, item_impl, item_struct, FieldModel};
use crate::response::is_unit;
use crate::response_attr::{
    completed_attr, detail_example, detail_examples, detail_field, detail_fields, error_field,
    error_fields, AttrDraftModel, DetailDraftModel, ErrorDraftModel, ResponseAttrModel,
};
use crate::router::{is_router_code, is_router_expansion};
use crate::schema::{
    description_by, description_from, is_opt_in, schema_code, schema_expansion,
    struct_description,
};
use crate::status::code_of_constant;
use crate::syntax::{
    attribute_model, attribute_models, attrs_except, attrs_named, attrs_placed, last_segment,
    path_names, type_model, AttributeModel, ExprKindModel, TypeKindModel, TypeModel,
};
use crate::text::{lowercase, trimmed};
use crate::tokens::{comma_separated, concatenated, lexed, Delimiter, Tok};
use vstd::prelude::*;

verus! {

// ---------------------------------------------------------------------------
// The arguments of an endpoint
// ---------------------------------------------------------------------------

/// An endpoint of which nothing is said answers `get`, at the path of its name, without
/// a request and without documented responses.
pub proof fn nothing_is_said_by_default()
    ensures
        default_args().method == "get"@,
        default_args().path is None,
        default_args().tag is None,
        default_args().summary is None,
        default_args().description is None,
        !default_args().deprecated,
        default_args().request is None,
        default_args().request_desc is None,
        default_args().responses.len() == 0,
{
}

/// A method is the text that is given, or the last name of a path, in lower case;
/// nothing else is a method.
pub proof fn methods_are_in_lower_case(kind: ExprKindModel)
    ensures
        kind matches ExprKindModel::Str(text) ==> method_of(kind) == Ok::<Seq<char>, Messages>(
            lowercase(text),
        ),
        kind matches ExprKindModel::Path(names) ==> names.len() > 0 ==> method_of(kind) == Ok::<
            Seq<char>,
            Messages,
        >(lowercase(names.last())),
        kind matches ExprKindModel::Path(names) ==> names.len() == 0 ==> method_of(kind) == Err::<
            Seq<char>,
            Messages,
        >(seq!["expected `Method::POST`"@]),
        kind is Int || kind is Lit ==> method_of(kind) == Err::<Seq<char>, Messages>(
            seq!["expected a string like `\"post\"`"@],
        ),
        kind is Other ==> method_of(kind) == Err::<Seq<char>, Messages>(
            seq!["expected `\"post\"` or `Method::POST`"@],
        ),
{
}

/// The constants for statuses stand for the codes of HTTP, and no other name does.
pub proof fn constants_have_the_codes_of_http(name: Seq<char>)
    ensures
        name == "OK"@ ==> code_of_constant(name) == Some(200u16),
        name == "CREATED"@ ==> code_of_constant(name) == Some(201u16),
        name == "ACCEPTED"@ ==> code_of_constant(name) == Some(202u16),
        name == "NO_CONTENT"@ ==> code_of_constant(name) == Some(204u16),
        name == "BAD_REQUEST"@ ==> code_of_constant(name) == Some(400u16),
        name == "UNAUTHORIZED"@ ==> code_of_constant(name) == Some(401u16),
        name == "FORBIDDEN"@ ==> code_of_constant(name) == Some(403u16),
        name == "NOT_FOUND"@ ==> code_of_constant(name) == Some(404u16),
        name == "CONFLICT"@ ==> code_of_constant(name) == Some(409u16),
        name == "UNPROCESSABLE_ENTITY"@ ==> code_of_constant(name) == Some(422u16),
        name == "TOO_MANY_REQUESTS"@ ==> code_of_constant(name) == Some(429u16),
        name == "INTERNAL_SERVER_ERROR"@ ==> code_of_constant(name) == Some(500u16),
        name == "NOT_IMPLEMENTED"@ ==> code_of_constant(name) == Some(501u16),
        name == "SERVICE_UNAVAILABLE"@ ==> code_of_constant(name) == Some(503u16),
        name == "GATEWAY_TIMEOUT"@ ==> code_of_constant(name) == Some(504u16),
        code_of_constant(name) is Some ==> name == "OK"@ || name == "CREATED"@ || name
            == "ACCEPTED"@ || name == "NO_CONTENT"@ || name == "BAD_REQUEST"@ || name
            == "UNAUTHORIZED"@ || name == "FORBIDDEN"@ || name == "NOT_FOUND"@ || name
            == "CONFLICT"@ || name == "UNPROCESSABLE_ENTITY"@ || name == "TOO_MANY_REQUESTS"@
            || name == "INTERNAL_SERVER_ERROR"@ || name == "NOT_IMPLEMENTED"@ || name
            == "SERVICE_UNAVAILABLE"@ || name == "GATEWAY_TIMEOUT"@,
{
    reveal_strlit("OK");
    reveal_strlit("CREATED");
    reveal_strlit("ACCEPTED");
    reveal_strlit("NO_CONTENT");
    reveal_strlit("BAD_REQUEST");
    reveal_strlit("UNAUTHORIZED");
    reveal_strlit("FORBIDDEN");
    reveal_strlit("NOT_FOUND");
    reveal_strlit("CONFLICT");
    reveal_strlit("UNPROCESSABLE_ENTITY");
    reveal_strlit("TOO_MANY_REQUESTS");
    reveal_strlit("INTERNAL_SERVER_ERROR");
    reveal_strlit("NOT_IMPLEMENTED");
    reveal_strlit("SERVICE_UNAVAILABLE");
    reveal_strlit("GATEWAY_TIMEOUT");
    assert("OK"@.len() == 2 && "CREATED"@.len() == 7);
    assert("ACCEPTED"@.len() == 8 && "ACCEPTED"@[0] == 'A');
    assert("CONFLICT"@.len() == 8 && "CONFLICT"@[0] == 'C');
    assert("FORBIDDEN"@.len() == 9 && "FORBIDDEN"@[0] == 'F');
    assert("NOT_FOUND"@.len() == 9 && "NOT_FOUND"@[0] == 'N');
    assert("NO_CONTENT"@.len() == 10 && "BAD_REQUEST"@.len() == 11);
    assert("UNAUTHORIZED"@.len() == 12);
    assert("NOT_IMPLEMENTED"@.len() == 15 && "NOT_IMPLEMENTED"@[0] == 'N');
    assert("GATEWAY_TIMEOUT"@.len() == 15 && "GATEWAY_TIMEOUT"@[0] == 'G');
    assert("TOO_MANY_REQUESTS"@.len() == 17 && "SERVICE_UNAVAILABLE"@.len() == 19);
    assert("UNPROCESSABLE_ENTITY"@.len() == 20 && "INTERNAL_SERVER_ERROR"@.len() == 21);
}

// ---------------------------------------------------------------------------
// The responses of an endpoint
// ---------------------------------------------------------------------------

/// A key stands in front of `=`, and its value behind it.
pub proof fn values_stand_behind_their_key(
    tokens: Seq<Tok>,
    key: Seq<char>,
    after: Seq<Tok>,
)
    requires
        ident_step(tokens) == Ok::<(Seq<char>, Seq<Tok>), Messages>((key, after)),
    ensures
        punct_step(after, '=') matches Some(value) ==> key_step(tokens) == Ok::<
            (Seq<char>, Seq<Tok>),
            Messages,
        >((key, value)),
        punct_step(after, '=') is None ==> key_step(tokens) == Err::<
            (Seq<char>, Seq<Tok>),
            Messages,
        >(seq!["expected `=`"@]),
{
}

/// What the keys of a response look like.
proof fn lemma_response_keys_differ()
    ensures
        "status"@ != "schema"@,
        "status"@ != "description"@,
        "schema"@ != "description"@,
{
    reveal_strlit("status");
    reveal_strlit("schema");
    reveal_strlit("description");
    assert("status"@[1] == 't' && "schema"@[1] == 'c');
    assert("status"@.len() == 6 && "schema"@.len() == 6 && "description"@.len() == 11);
}

/// A part of a response is what stands behind its key, and the other parts stay as they
/// are: `status` is an expression, `schema` a type and `description` a text. There are
/// no other parts.
pub proof fn parts_of_a_response_are_read(
    input: InputModel,
    draft: ResponseDraftModel,
    key: Seq<char>,
    value: Seq<Tok>,
    behind: InputModel,
)
    requires
        key_step(input.tokens) == Ok::<(Seq<char>, Seq<Tok>), Messages>((key, value)),
        behind == (InputModel { tokens: value, ..input }),
    ensures
        key == "status"@ ==> (expr_step(behind) matches Ok(step) ==> response_field(input, draft)
            == Ok::<(ResponseDraftModel, InputModel), Messages>(
            (ResponseDraftModel { status: Some(step.0), ..draft }, step.1),
        )),
        key == "schema"@ ==> (type_step(behind) matches Ok(step) ==> response_field(input, draft)
            == Ok::<(ResponseDraftModel, InputModel), Messages>(
            (ResponseDraftModel { schema: Some(step.0), ..draft }, step.1),
        )),
        key == "description"@ ==> (string_step(value) matches Some(step) ==> response_field(
            input,
            draft,
        ) == Ok::<(ResponseDraftModel, InputModel), Messages>(
            (
                ResponseDraftModel { description: Some(step.0), ..draft },
                InputModel { tokens: step.1, ..input },
            ),
        )),
        key != "status"@ && key != "schema"@ && key != "description"@ ==> response_field(
            input,
            draft,
        ) is Err,
{
    lemma_response_keys_differ();
}

/// A response in parentheses has to have a status and a schema; it is what its parts
/// say.
pub proof fn responses_have_status_and_schema(
    input: InputModel,
    content: Seq<Tok>,
    rest: Seq<Tok>,
    draft: ResponseDraftModel,
    inner: InputModel,
)
    requires
        group_step(input.tokens, Delimiter::Parenthesis) == Some((content, rest)),
        response_fields(
            InputModel { tokens: content, ..input },
            ResponseDraftModel { status: None, schema: None, description: None },
        ) == Ok::<(ResponseDraftModel, InputModel), Messages>((draft, inner)),
    ensures
        draft.status is None ==> response_def(input) == Err::<
            (ResponseDefModel, InputModel),
            Messages,
        >(seq!["missing `status` in response"@]),
        draft.status is Some && draft.schema is None ==> response_def(input) == Err::<
            (ResponseDefModel, InputModel),
            Messages,
        >(seq!["missing `schema` in response"@]),
        draft.status is Some && draft.schema is Some ==> response_def(input) == Ok::<
            (ResponseDefModel, InputModel),
            Messages,
        >(
            (
                ResponseDefModel {
                    status: draft.status->0,
                    schema: draft.schema->0,
                    description: draft.description,
                },
                InputModel { tokens: rest, unexpected: inner.unexpected },
            ),
        ),
{
}

/// A response is given in full in parentheses, and by its type alone without them.
pub proof fn responses_are_given_in_full_or_by_their_type(input: InputModel)
    ensures
        group_step(input.tokens, Delimiter::Parenthesis) is Some ==> (response_def(
            input,
        ) matches Ok(step) ==> response_entry(input) == Ok::<
            (ResponseEntryModel, InputModel),
            Messages,
        >((ResponseEntryModel::Full(step.0), step.1))),
        group_step(input.tokens, Delimiter::Parenthesis) is None ==> (type_step(
            input,
        ) matches Ok(step) ==> response_entry(input) == Ok::<
            (ResponseEntryModel, InputModel),
            Messages,
        >((ResponseEntryModel::Bare(step.0), step.1))),
{
}

/// Responses are read one by one, each behind those that were read before; a comma
/// stands between each two, and behind the last one it is of no account.
pub proof fn responses_are_read_in_order(
    input: InputModel,
    entries: Seq<ResponseEntryModel>,
    entry: ResponseEntryModel,
    next: InputModel,
)
    requires
        input.tokens.len() > 0,
        response_entry(input) == Ok::<(ResponseEntryModel, InputModel), Messages>((entry, next)),
    ensures
        next.tokens.len() == 0 ==> response_entries(input, entries) == Ok::<
            (Seq<ResponseEntryModel>, InputModel),
            Messages,
        >((entries.push(entry), next)),
        next.tokens.len() > 0 ==> (punct_step(next.tokens, ',') matches Some(rest)
            ==> response_entries(input, entries) == response_entries(
            InputModel { tokens: rest, ..next },
            entries.push(entry),
        )),
        next.tokens.len() > 0 && punct_step(next.tokens, ',') is None ==> response_entries(
            input,
            entries,
        ) == Err::<(Seq<ResponseEntryModel>, InputModel), Messages>(seq!["expected `,`"@]),
{
}

/// The parts of a response are read one by one, with a comma between each two.
pub proof fn parts_of_a_response_are_read_in_order(
    input: InputModel,
    draft: ResponseDraftModel,
    more: ResponseDraftModel,
    next: InputModel,
)
    requires
        input.tokens.len() > 0,
        response_field(input, draft) == Ok::<(ResponseDraftModel, InputModel), Messages>(
            (more, next),
        ),
    ensures
        next.tokens.len() == 0 ==> response_fields(input, draft) == Ok::<
            (ResponseDraftModel, InputModel),
            Messages,
        >((more, next)),
        next.tokens.len() > 0 ==> (punct_step(next.tokens, ',') matches Some(rest)
            ==> response_fields(input, draft) == response_fields(
            InputModel { tokens: rest, ..next },
            more,
        )),
        next.tokens.len() > 0 && punct_step(next.tokens, ',') is None ==> response_fields(
            input,
            draft,
        ) == Err::<(ResponseDraftModel, InputModel), Messages>(seq!["expected `,`"@]),
{
}

// ---------------------------------------------------------------------------
// The arguments of a response type
// ---------------------------------------------------------------------------

/// What the keys of an error look like.
proof fn lemma_error_keys_differ()
    ensures
        "code"@ != "message"@,
        "code"@ != "details"@,
        "message"@ != "details"@,
        "field"@ != "reason"@,
{
    reveal_strlit("code");
    reveal_strlit("message");
    reveal_strlit("details");
    reveal_strlit("field");
    reveal_strlit("reason");
    assert("code"@.len() == 4 && "message"@.len() == 7 && "details"@.len() == 7);
    assert("message"@[0] == 'm' && "details"@[0] == 'd');
    assert("field"@.len() == 5 && "reason"@.len() == 6);
}

/// A part of an error is what stands behind its key, and the other parts stay as they
/// are: `code` and `message` are texts, and `details` a list of examples, of which tokens
/// that were not read are complained about. There are no other parts.
pub proof fn parts_of_an_error_are_read(
    input: InputModel,
    draft: ErrorDraftModel,
    key: Seq<char>,
    value: Seq<Tok>,
)
    requires
        input.unexpected is None,
        key_step(input.tokens) == Ok::<(Seq<char>, Seq<Tok>), Messages>((key, value)),
    ensures
        key == "code"@ ==> (string_step(value) matches Some(step) ==> error_field(input, draft)
            == Ok::<(ErrorDraftModel, InputModel), Messages>(
            (ErrorDraftModel { code: Some(step.0), ..draft }, fresh(step.1)),
        )),
        key == "message"@ ==> (string_step(value) matches Some(step) ==> error_field(input, draft)
            == Ok::<(ErrorDraftModel, InputModel), Messages>(
            (ErrorDraftModel { message: Some(step.0), ..draft }, fresh(step.1)),
        )),
        key == "details"@ ==> (group_step(value, Delimiter::Parenthesis) matches Some(step) ==> {
            let read = detail_examples(fresh(step.0), Seq::empty());
            error_field(input, draft) == Ok::<(ErrorDraftModel, InputModel), Messages>(
                (
                    ErrorDraftModel { details: read.0, ..draft },
                    InputModel {
                        tokens: step.1,
                        unexpected: if read.1.unexpected is Some {
                            read.1.unexpected
                        } else {
                            leftover(read.1.tokens, Delimiter::Parenthesis)
                        },
                    },
                ),
            )
        }),
        key != "code"@ && key != "message"@ && key != "details"@ ==> error_field(input, draft)
            is Err,
{
    lemma_error_keys_differ();
}

/// The parts of an error are read one by one, with a comma between each two.
pub proof fn parts_of_an_error_are_read_in_order(
    input: InputModel,
    draft: ErrorDraftModel,
    more: ErrorDraftModel,
    next: InputModel,
)
    requires
        input.tokens.len() > 0,
        error_field(input, draft) == Ok::<(ErrorDraftModel, InputModel), Messages>((more, next)),
    ensures
        next.tokens.len() == 0 ==> error_fields(input, draft) == Ok::<
            (ErrorDraftModel, InputModel),
            Messages,
        >((more, next)),
        next.tokens.len() > 0 ==> (punct_step(next.tokens, ',') matches Some(rest)
            ==> error_fields(input, draft) == error_fields(
            InputModel { tokens: rest, ..next },
            more,
        )),
        next.tokens.len() > 0 && punct_step(next.tokens, ',') is None ==> error_fields(
            input,
            draft,
        ) == Err::<(ErrorDraftModel, InputModel), Messages>(seq!["expected `,`"@]),
{
}

/// A part of an example is the text behind its key, `field` or `reason`, and the other
/// part stays as it is.
pub proof fn parts_of_an_example_are_read(
    tokens: Seq<Tok>,
    draft: DetailDraftModel,
    key: Seq<char>,
    value: Seq<Tok>,
    text: Seq<char>,
    rest: Seq<Tok>,
)
    requires
        key_step(tokens) == Ok::<(Seq<char>, Seq<Tok>), Messages>((key, value)),
        string_step(value) == Some((text, rest)),
    ensures
        key == "field"@ ==> detail_field(tokens, draft) == (
            Ok::<DetailDraftModel, Messages>(DetailDraftModel { field: Some(text), ..draft }),
            rest,
        ),
        key == "reason"@ ==> detail_field(tokens, draft) == (
            Ok::<DetailDraftModel, Messages>(DetailDraftModel { reason: Some(text), ..draft }),
            rest,
        ),
        key != "field"@ && key != "reason"@ ==> detail_field(tokens, draft).0 is Err,
{
    lemma_error_keys_differ();
}

/// An example has to have a field and a reason, and consists of them in this order.
/// Tokens of it that were not read are complained about.
pub proof fn examples_have_field_and_reason(
    input: InputModel,
    content: Seq<Tok>,
    rest: Seq<Tok>,
    read: Result<DetailDraftModel, Messages>,
    left: Seq<Tok>,
)
    requires
        input.unexpected is None,
        group_step(input.tokens, Delimiter::Parenthesis) == Some((content, rest)),
        detail_fields(content, DetailDraftModel { field: None, reason: None }) == (read, left),
    ensures
        detail_example(input).1 == (InputModel {
            tokens: rest,
            unexpected: leftover(left, Delimiter::Parenthesis),
        }),
        read matches Err(m) ==> detail_example(input).0 == Err::<
            (Seq<char>, Seq<char>),
            Messages,
        >(m),
        read matches Ok(draft) ==> draft.field is Some && draft.reason is Some
            ==> detail_example(input).0 == Ok::<(Seq<char>, Seq<char>), Messages>(
            (draft.field->0, draft.reason->0),
        ),
        read matches Ok(draft) ==> draft.field is None ==> detail_example(input).0 == Err::<
            (Seq<char>, Seq<char>),
            Messages,
        >(seq!["missing `field` in detail example"@]),
        read matches Ok(draft) ==> draft.field is Some && draft.reason is None ==> detail_example(
            input,
        ).0 == Err::<(Seq<char>, Seq<char>), Messages>(
            seq!["missing `reason` in detail example"@],
        ),
{
}

/// The parts of an example are read one by one, with a comma between each two; reading
/// stops at the first one that is faulty.
pub proof fn parts_of_an_example_are_read_in_order(tokens: Seq<Tok>, draft: DetailDraftModel)
    requires
        tokens.len() > 0,
    ensures
        detail_field(tokens, draft).0 matches Err(m) ==> detail_fields(tokens, draft) == (
            Err::<DetailDraftModel, Messages>(m),
            detail_field(tokens, draft).1,
        ),
        detail_field(tokens, draft).0 matches Ok(more) ==> {
            let next = detail_field(tokens, draft).1;
            detail_fields(tokens, draft) == (if next.len() == 0 {
                (Ok::<DetailDraftModel, Messages>(more), next)
            } else if punct_step(next, ',') is Some {
                detail_fields(punct_step(next, ',')->0, more)
            } else {
                (Err(seq!["expected `,`"@]), next)
            })
        },
{
}

/// Examples are read one by one, each behind those that were read before; once one is
/// not well formed there are none at all.
pub proof fn examples_are_read_in_order(
    input: InputModel,
    examples: Seq<(Seq<char>, Seq<char>)>,
    next: InputModel,
)
    requires
        input.tokens.len() > 0,
        next == detail_example(input).1,
    ensures
        detail_example(input).0 is Err ==> detail_examples(input, examples) == (
            Seq::<(Seq<char>, Seq<char>)>::empty(),
            next,
        ),
        detail_example(input).0 matches Ok(example) ==> next.tokens.len() == 0 ==> detail_examples(
            input,
            examples,
        ) == (examples.push(example), next),
        detail_example(input).0 matches Ok(example) ==> next.tokens.len() > 0 ==> (punct_step(
            next.tokens,
            ',',
        ) matches Some(rest) ==> detail_examples(input, examples) == detail_examples(
            InputModel { tokens: rest, ..next },
            examples.push(example),
        )),
{
}

/// A response type has to have a status and a description; what is said of it is what
/// its arguments say, each under its own name.
pub proof fn response_types_are_what_their_arguments_say(draft: AttrDraftModel)
    ensures
        draft.status is None ==> completed_attr(draft) == Err::<ResponseAttrModel, Messages>(
            seq!["missing `status`"@],
        ),
        draft.status is Some && draft.description is None ==> completed_attr(draft) == Err::<
            ResponseAttrModel,
            Messages,
        >(seq!["missing `description`"@]),
        draft.status is Some && draft.description is Some ==> (completed_attr(draft) matches Ok(
            attr,
        ) && attr.status == draft.status->0 && attr.description == draft.description->0
            && attr.summary == draft.summary && attr.error_code == draft.error.code
            && attr.error_message == draft.error.message && attr.error_details
            == draft.error.details && attr.include_meta == draft.include_meta),
{
}

/// The unit type is the empty tuple, in parentheses or not; no other type is.
pub proof fn only_the_empty_tuple_is_the_unit_type(ty: TypeModel)
    ensures
        ty.kind matches TypeKindModel::Tuple(n) ==> is_unit(ty) == (n == 0),
        ty.kind matches TypeKindModel::Paren(inner) ==> is_unit(ty) == is_unit(*inner),
        !(ty.kind is Tuple) && !(ty.kind is Paren) ==> !is_unit(ty),
{
}

// ---------------------------------------------------------------------------
// The attributes of a field
// ---------------------------------------------------------------------------

/// The source of a field is named by the last segment of a path; no other name is a
/// source.
pub proof fn sources_are_named_by_the_last_segment(names: Seq<Seq<char>>)
    requires
        names.len() > 0,
    ensures
        names.last() == "Path"@ ==> source_of(names) == Ok::<SourceKind, Messages>(
            SourceKind::Path,
        ),
        names.last() == "Query"@ ==> source_of(names) == Ok::<SourceKind, Messages>(
            SourceKind::Query,
        ),
        names.last() == "Body"@ ==> source_of(names) == Ok::<SourceKind, Messages>(
            SourceKind::Body,
        ),
        names.last() != "Path"@ && names.last() != "Query"@ && names.last() != "Body"@
            ==> source_of(names) is Err,
{
    reveal_strlit("Path");
    reveal_strlit("Query");
    reveal_strlit("Body");
    assert("Path"@.len() == 4 && "Query"@.len() == 5 && "Body"@.len() == 4);
    assert("Path"@[0] == 'P' && "Body"@[0] == 'B');
}

/// A part of a field's `#[schema(...)]` is what stands behind its key, and the other
/// parts stay as they are: `from` is a path that names a source, `description` and
/// `example` are texts. There are no other parts.
pub proof fn parts_of_a_schema_are_read(
    input: InputModel,
    meta: FieldMetaModel,
    key: Option<Seq<char>>,
    after: Seq<Tok>,
    value: Seq<Tok>,
)
    requires
        meta_path(input.tokens) == Ok::<(Option<Seq<char>>, Seq<Tok>), Messages>((key, after)),
        punct_step(after, '=') == Some(value),
    ensures
        key == Some("from"@) ==> (node_step(
            Node::Path,
            InputModel { tokens: value, ..input },
        ) matches Ok(step) ==> (source_of(path_names(step.0)) matches Ok(source)
            ==> field_meta_item(input, meta) == Ok::<(FieldMetaModel, InputModel), Messages>(
            (FieldMetaModel { source, ..meta }, step.1),
        ))),
        key == Some("description"@) ==> (string_step(value) matches Some(step) ==> field_meta_item(
            input,
            meta,
        ) == Ok::<(FieldMetaModel, InputModel), Messages>(
            (
                FieldMetaModel { description: Some(step.0), ..meta },
                InputModel { tokens: step.1, ..input },
            ),
        )),
        key == Some("example"@) ==> (string_step(value) matches Some(step) ==> field_meta_item(
            input,
            meta,
        ) == Ok::<(FieldMetaModel, InputModel), Messages>(
            (
                FieldMetaModel { example: Some(step.0), ..meta },
                InputModel { tokens: step.1, ..input },
            ),
        )),
        key != Some("from"@) && key != Some("description"@) && key != Some("example"@)
            ==> field_meta_item(input, meta) == Err::<(FieldMetaModel, InputModel), Messages>(
            seq!["expected `from`, `description`, or `example`"@],
        ),
{
    reveal_strlit("from");
    reveal_strlit("description");
    reveal_strlit("example");
    assert("from"@.len() == 4 && "description"@.len() == 11 && "example"@.len() == 7);
}

/// The parts of a field's `#[schema(...)]` are read one by one, with a comma between
/// each two.
pub proof fn parts_of_a_schema_are_read_in_order(
    input: InputModel,
    meta: FieldMetaModel,
    more: FieldMetaModel,
    next: InputModel,
)
    requires
        input.tokens.len() > 0,
        field_meta_item(input, meta) == Ok::<(FieldMetaModel, InputModel), Messages>((more, next)),
    ensures
        next.tokens.len() == 0 ==> field_meta_items(input, meta) == Ok::<
            (FieldMetaModel, InputModel),
            Messages,
        >((more, next)),
        next.tokens.len() > 0 ==> (punct_step(next.tokens, ',') matches Some(rest)
            ==> field_meta_items(input, meta) == field_meta_items(
            InputModel { tokens: rest, ..next },
            more,
        )),
        next.tokens.len() > 0 && punct_step(next.tokens, ',') is None ==> field_meta_items(
            input,
            meta,
        ) == Err::<(FieldMetaModel, InputModel), Messages>(seq!["expected `,`"@]),
{
}

/// Only `#[schema(...)]` says something of a field's schema, by its arguments; they add
/// to what the attributes in front of it say.
pub proof fn only_schema_attributes_count(attr: AttributeModel, meta: FieldMetaModel)
    ensures
        !attr.is("schema"@) ==> field_meta_by(attr, meta) == Ok::<FieldMetaModel, Messages>(meta),
        attr.is("schema"@) ==> (attr.meta->0.args matches Err(m) ==> field_meta_by(attr, meta)
            == Err::<FieldMetaModel, Messages>(m)),
        attr.is("schema"@) ==> (attr.meta->0.args matches Ok(tokens) ==> (field_meta_items(
            fresh(tokens),
            meta,
        ) matches Ok(step) ==> field_meta_by(attr, meta) == (match step.1.unexpected {
            Some(m) => Err::<FieldMetaModel, Messages>(m),
            None => Ok(step.0),
        }))),
        attr.is("schema"@) ==> (attr.meta->0.args matches Ok(tokens) ==> (field_meta_items(
            fresh(tokens),
            meta,
        ) matches Err(m) ==> field_meta_by(attr, meta) == Err::<FieldMetaModel, Messages>(m))),
{
}

/// The attributes of a field are read one after the other, and each adds to what is
/// known by then.
pub proof fn attributes_are_read_in_order(
    attr: AttributeModel,
    rest: Seq<AttributeModel>,
    meta: FieldMetaModel,
)
    ensures
        field_meta_by(attr, meta) matches Err(m) ==> field_meta_from(seq![attr] + rest, meta)
            == Err::<FieldMetaModel, Messages>(m),
        field_meta_by(attr, meta) matches Ok(more) ==> field_meta_from(seq![attr] + rest, meta)
            == field_meta_from(rest, more),
{
    let attrs = seq![attr] + rest;
    assert(attrs[0] == attr);
    assert(attrs.skip(1) =~= rest);
}

/// A field is described by its `#[schema(...)]`, and by its doc comment just where that
/// gives no description. Its source and its example are what `#[schema(...)]` says.
pub proof fn doc_comments_stand_in_for_a_description(
    attrs: Seq<AttributeModel>,
    said: FieldMetaModel,
)
    requires
        field_meta_from(
            attrs,
            FieldMetaModel { source: SourceKind::Body, description: None, example: None },
        ) == Ok::<FieldMetaModel, Messages>(said),
    ensures
        field_meta(attrs) matches Ok(meta) && meta.source == said.source && meta.example
            == said.example && (said.description is Some ==> meta.description == said.description)
            && (said.description is None ==> meta.description == doc_of(attrs)),
{
}

/// The lines of a doc comment are put one below the other, without the white space
/// around them and without empty lines; other attributes are of no account.
pub proof fn doc_comments_are_read_line_by_line(attrs: Seq<AttributeModel>, attr: AttributeModel)
    ensures
        !attr.is("doc"@) || attr.meta->0.value is None ==> doc_text(attrs.push(attr)) == doc_text(
            attrs,
        ),
        attr.is("doc"@) ==> (attr.meta->0.value matches Some(line) ==> {
            &&& trimmed(line).len() == 0 ==> doc_text(attrs.push(attr)) == doc_text(attrs)
            &&& trimmed(line).len() > 0 && doc_text(attrs).len() == 0 ==> doc_text(
                attrs.push(attr),
            ) == trimmed(line)
            &&& trimmed(line).len() > 0 && doc_text(attrs).len() > 0 ==> doc_text(attrs.push(attr))
                == doc_text(attrs) + "\n"@ + trimmed(line)
        }),
        doc_of(attrs) == (if doc_text(attrs).len() > 0 {
            Some(doc_text(attrs))
        } else {
            None
        }),
        attrs.len() == 0 ==> doc_text(attrs).len() == 0,
{
    assert(attrs.push(attr).drop_last() =~= attrs);
    assert(attrs.push(attr).last() == attr);
}

/// Where an attribute for `serde` cannot be read on, the name that it has given by then
/// counts; an attribute that is not for `serde`, or has no arguments, gives none.
pub proof fn names_count_as_far_as_they_can_be_read(
    attr: AttributeModel,
    tokens: Seq<Tok>,
    found: Option<Seq<char>>,
)
    ensures
        tokens.len() == 0 ==> rename_in(tokens, found) == found,
        tokens.len() > 0 && meta_path(tokens) is Err ==> rename_in(tokens, found) == found,
        tokens.len() > 0 ==> (meta_path(tokens) matches Ok(step) ==> step.0 == Some("rename"@)
            && punct_step(step.1, '=') is None ==> rename_in(tokens, found) == found),
        tokens.len() > 0 ==> (meta_path(tokens) matches Ok(step) ==> step.0 == Some("rename"@)
            ==> (punct_step(step.1, '=') matches Some(value) ==> string_step(value) is None
            ==> rename_in(tokens, found) == found)),
        !attr.is("serde"@) ==> rename_by(attr) is None,
        attr.is("serde"@) ==> (attr.meta->0.args is Err ==> rename_by(attr) is None),
        attr.is("serde"@) ==> (attr.meta->0.args matches Ok(said) ==> rename_by(attr) == rename_in(
            said,
            None,
        )),
{
}

/// A field is renamed by the first of its attributes that gives a name.
pub proof fn the_first_attribute_renames(attrs: Seq<AttributeModel>, k: int)
    requires
        0 <= k <= attrs.len(),
        forall|j: int| 0 <= j < k ==> rename_by(#[trigger] attrs[j]) is None,
        k < attrs.len() ==> rename_by(attrs[k]) is Some,
    ensures
        k < attrs.len() ==> rename_of(attrs) == rename_by(attrs[k]),
        k == attrs.len() ==> rename_of(attrs) is None,
    decreases k,
{
    if k > 0 {
        let rest = attrs.skip(1);
        assert(rename_by(attrs[0]) is None);
        assert forall|j: int| 0 <= j < k - 1 implies rename_by(#[trigger] rest[j]) is None by {
            assert(rest[j] == attrs[j + 1]);
        }
        if k < attrs.len() {
            assert(rest[k - 1] == attrs[k]);
        }
        the_first_attribute_renames(rest, k - 1);
    }
}

/// A field goes by its new name in JSON, or else by its own; its type, its source, its
/// description and its example are its own, it keeps its attributes for `serde`, in
/// order, and has to be there unless it is an `Option`.
pub proof fn fields_are_known_by_their_attributes(field: FieldModel, name: Seq<char>)
    requires
        field.ident == Some(name),
    ensures
        field_info(field) matches Ok(info) ==> {
            &&& field_meta(attribute_models(field.attrs)) matches Ok(meta)
            &&& info.ident == name
            &&& info.json_name == (if rename_of(attribute_models(field.attrs)) is Some {
                rename_of(attribute_models(field.attrs))->0
            } else {
                name
            })
            &&& info.ty == type_model(field.ty)
            &&& info.source == meta.source
            &&& info.description == meta.description
            &&& info.example == meta.example
            &&& info.serde_attrs == field.attrs.filter(
                |attr: Seq<Tok>| attribute_model(attr).is("serde"@),
            )
            &&& info.required <==> !(last_segment(type_model(field.ty)) matches Some(segment)
                && segment.ident == "Option"@)
        },
{
    attributes_are_picked_by_name(field.attrs, "serde"@);
}

/// Attributes are picked by their name, or left out by it, and keep their order.
pub proof fn attributes_are_picked_by_name(attrs: Seq<Seq<Tok>>, name: Seq<char>)
    ensures
        attrs_named(attrs, name) == attrs.filter(
            |attr: Seq<Tok>| attribute_model(attr).is(name),
        ),
        attrs_except(attrs, name) == attrs.filter(
            |attr: Seq<Tok>| !attribute_model(attr).is(name),
        ),
    decreases attrs.len(),
{
    reveal(Seq::filter);
    if attrs.len() > 0 {
        attributes_are_picked_by_name(attrs.drop_last(), name);
    }
    assert(attrs_named(attrs, name) =~= attrs.filter(
        |attr: Seq<Tok>| attribute_model(attr).is(name),
    ));
    assert(attrs_except(attrs, name) =~= attrs.filter(
        |attr: Seq<Tok>| !attribute_model(attr).is(name),
    ));
}

/// Attributes that are written inside an item are told from those in front of it, and
/// keep their order.
pub proof fn attributes_are_picked_by_their_place(attrs: Seq<Seq<Tok>>, inner: bool)
    ensures
        attrs_placed(attrs, inner) == attrs.filter(
            |attr: Seq<Tok>|
                (attribute_model(attr).meta matches Some(meta) && meta.inner) == inner,
        ),
    decreases attrs.len(),
{
    reveal(Seq::filter);
    if attrs.len() > 0 {
        attributes_are_picked_by_their_place(attrs.drop_last(), inner);
    }
    assert(attrs_placed(attrs, inner) =~= attrs.filter(
        |attr: Seq<Tok>|
            (attribute_model(attr).meta matches Some(meta) && meta.inner) == inner,
    ));
}

// ---------------------------------------------------------------------------
// The attributes of a struct
// ---------------------------------------------------------------------------

/// The attributes of a struct are read one after the other; a struct without any is
/// described as before.
pub proof fn descriptions_are_read_in_order(
    attr: AttributeModel,
    rest: Seq<AttributeModel>,
    known: Option<Seq<char>>,
)
    ensures
        description_by(attr, known) matches Err(m) ==> description_from(seq![attr] + rest, known)
            == Err::<Option<Seq<char>>, Messages>(m),
        description_by(attr, known) matches Ok(more) ==> description_from(
            seq![attr] + rest,
            known,
        ) == description_from(rest, more),
        rest.len() == 0 ==> description_from(rest, known) == Ok::<Option<Seq<char>>, Messages>(
            known,
        ),
{
    let attrs = seq![attr] + rest;
    assert(attrs[0] == attr);
    assert(attrs.skip(1) =~= rest);
}

/// Other attributes say nothing of a struct's description, and none of them opts in to
/// validation; nor does `#[schema(...)]` that says anything else first.
pub proof fn only_validate_opts_in(attr: AttributeModel, known: Option<Seq<char>>)
    ensures
        !attr.is("schema"@) ==> !is_opt_in(attr) && description_by(attr, known) == Ok::<
            Option<Seq<char>>,
            Messages,
        >(known),
        attr.is("schema"@) ==> (attr.meta->0.args matches Ok(tokens) ==> (meta_path(
            tokens,
        ) matches Ok(step) ==> step.0 != Some("validate"@) ==> !is_opt_in(attr))),
{
}

/// Something else than a description in a struct's `#[schema(...)]` is complained about.
pub proof fn structs_say_nothing_but_their_description(
    attr: AttributeModel,
    tokens: Seq<Tok>,
    key: Option<Seq<char>>,
    after: Seq<Tok>,
    known: Option<Seq<char>>,
)
    requires
        attr.is("schema"@),
        attr.meta->0.args == Ok::<Seq<Tok>, Messages>(tokens),
        tokens.len() > 0,
        meta_path(tokens) == Ok::<(Option<Seq<char>>, Seq<Tok>), Messages>((key, after)),
        key != Some("description"@),
        key != Some("validate"@),
    ensures
        description_by(attr, known) == Err::<Option<Seq<char>>, Messages>(
            seq!["expected `description = \"...\"`"@],
        ),
{
}

// ---------------------------------------------------------------------------
// Names and lists
// ---------------------------------------------------------------------------

/// The schema of a type that is a path is named by its last segment.
pub proof fn schemas_are_named_by_the_last_segment(ty: TypeModel, name: Seq<char>)
    requires
        can_be_named(ty, name),
    ensures
        last_segment(ty) matches Some(segment) ==> name == segment.ident,
{
}

/// Pieces that are put one after the other keep their order, and nothing comes between
/// them.
pub proof fn pieces_are_put_one_after_the_other(items: Seq<Seq<Tok>>, last: Seq<Tok>)
    ensures
        concatenated(items.push(last)) == concatenated(items) + last,
        items.len() == 0 ==> concatenated(items).len() == 0,
        items.len() == 0 ==> comma_separated(items).len() == 0,
        items.len() == 0 ==> comma_separated(items.push(last)) == last,
        items.len() > 0 ==> comma_separated(items.push(last)) == comma_separated(items) + lexed(
            ","@,
        ) + last,
{
    assert(items.push(last).drop_last() =~= items);
}

// ---------------------------------------------------------------------------
// Complaints
// ---------------------------------------------------------------------------

/// Each message is reported by a `compile_error!` with its text, in order.
pub proof fn messages_are_reported_in_order(reported: Messages, message: Seq<char>)
    ensures
        reported.len() == 0 ==> error_reports(reported).len() == 0,
        error_reports(reported.push(message)) == error_reports(reported) + seq![
            Tok::Punct(':', true),
            Tok::Punct(':', false),
            Tok::Ident("core"@),
            Tok::Punct(':', true),
            Tok::Punct(':', false),
            Tok::Ident("compile_error"@),
            Tok::Punct('!', false),
            Tok::Group(Delimiter::Brace, seq![Tok::Str(message)]),
        ],
{
    assert(reported.push(message).drop_last() =~= reported);
    assert(reported.push(message).last() == message);
}

/// What cannot be read is answered with the complaint and nothing else: first one about
/// the arguments, and then one about the item.
pub proof fn faulty_uses_are_complained_about(attr: Seq<Tok>, item: Seq<Tok>, expansion: Seq<Tok>)
    ensures
        is_endpoint_expansion(attr, item, expansion) ==> {
            &&& endpoint_args(attr) matches Err(m) ==> expansion == error_reports(m)
            &&& endpoint_args(attr) is Ok ==> (item_fn(item) matches Err(m) ==> expansion
                == error_reports(m))
            &&& endpoint_args(attr) matches Ok(args) ==> (item_fn(item) matches Ok(model)
                ==> is_endpoint_code(args, model, expansion))
        },
        is_router_expansion(attr, item, expansion) ==> {
            &&& attr.len() > 0 ==> expansion == error_reports(
                seq!["`#[router]` takes no arguments"@],
            )
            &&& attr.len() == 0 ==> (item_impl(item) matches Err(m) ==> expansion
                == error_reports(m))
            &&& attr.len() == 0 ==> (item_impl(item) matches Ok(model) ==> is_router_code(
                model,
                expansion,
            ))
        },
        item_struct(item) matches Err(m) ==> schema_expansion(item) == error_reports(m),
        item_struct(item) matches Ok(model) ==> schema_expansion(item) == schema_code(model),
        item_struct(item) matches Ok(model) ==> (struct_description(model) matches Err(m)
            ==> schema_expansion(item) == error_reports(m)),
{
}

} // verus!
