//! What arguments and attributes may not say, and where that is complained about.

use crate::args::{
    args_item, args_item_site, args_items, args_items_site, behind_key, default_args,
    endpoint_args, endpoint_args_site, key_step, response_def, response_def_site,
    response_entry_site, response_field, response_field_site, response_fields,
    response_fields_site, OpenApiArgsModel, ResponseDefModel, ResponseDraftModel,
};
use crate::endpoint::{can_expand_endpoint, resolved_args, schema_name, SchemaNamesModel};
use crate::error::{error_reports, Messages};
use crate::fields::{
    behind_meta, field_info, field_infos, field_meta_item, field_meta_item_site,
    field_meta_items_site, source_of, FieldInfoModel, FieldMetaModel, SourceKind,
};
use crate::input::{
    concluded, expr_step, fresh, group_step, ident_step, leftover, meta_path, node_step, opened,
    punct_step, string_step, type_step, InputModel, Located, Node,
};
use crate::items::{item_fn, item_struct, FieldModel, ItemImplModel, Signature, SignatureModel};
use crate::response::{type_args, types_among};
use crate::response_attr::{
    attr_item, attr_item_site, attr_items, attr_items_site, completed_attr, detail_example,
    detail_field, empty_attr, error_field, error_field_site, error_fields_site, response_attr,
    response_attr_site, AttrDraftModel, DetailDraftModel, ErrorDraftModel, ResponseAttrModel,
};
use crate::router::{
    first_fault, has_method_name, is_router_code, item_names_fit, item_plan,
    lemma_first_fault_prefix, method_args, router_impl_code, signature_place, takes_self,
};
use crate::schema::{
    can_expand_schema, description_in_site, schema_code, struct_description,
};
use crate::status::{code_of_constant, decimal_value, status_of};
use crate::syntax::{
    expr_model, first_type_arg, last_segment, type_model, ExprKindModel, ExprModel,
    GenericArgModel, TypeKindModel, TypeModel,
};
use crate::text::{lowercase, uppercase};
use crate::tokens::{is_ident_text, Delimiter, Tok};
use vstd::prelude::*;

verus! {

// ---------------------------------------------------------------------------
// The arguments of an endpoint
// ---------------------------------------------------------------------------

/// What is said where something is missing; it is told apart whether the input ends
/// there.
pub open spec fn missing(tokens: Seq<Tok>, what: Seq<char>) -> Seq<char> {
    if tokens.len() == 0 {
        "unexpected end of input, "@ + what
    } else {
        what
    }
}

/// Whether an endpoint has an argument under this key.
pub open spec fn is_endpoint_key(key: Seq<char>) -> bool {
    key == "path"@ || key == "method"@ || key == "tag"@ || key == "summary"@ || key
        == "description"@ || key == "request"@ || key == "request_desc"@ || key == "responses"@
}

/// An argument under an unknown key and an unknown flag are refused, and so is one whose
/// value is no text where there has to be one, or no list where there has to be one.
pub proof fn unknown_arguments_are_refused(
    input: InputModel,
    args: OpenApiArgsModel,
    key: Seq<char>,
    after: Seq<Tok>,
)
    requires
        ident_step(input.tokens) == Ok::<(Seq<char>, Seq<Tok>), Messages>((key, after)),
    ensures
        punct_step(after, '=') is None && key != "deprecated"@ ==> args_item(input, args) == Err::<
            (OpenApiArgsModel, InputModel),
            Messages,
        >(seq!["unknown flag `"@ + key + "`"@]),
        punct_step(after, '=') is Some && !is_endpoint_key(key) ==> args_item(input, args)
            == Err::<(OpenApiArgsModel, InputModel), Messages>(
            seq!["unknown key `"@ + key + "`"@],
        ),
        punct_step(after, '=') matches Some(value) ==> (key == "path"@ || key == "tag"@ || key
            == "summary"@ || key == "description"@ || key == "request_desc"@) && string_step(
            value,
        ) is None ==> args_item(input, args) == Err::<(OpenApiArgsModel, InputModel), Messages>(
            seq![missing(value, "expected string literal"@)],
        ),
        punct_step(after, '=') matches Some(value) ==> key == "responses"@ && group_step(
            value,
            Delimiter::Parenthesis,
        ) is None ==> args_item(input, args) == Err::<(OpenApiArgsModel, InputModel), Messages>(
            seq![missing(value, "expected parentheses"@)],
        ),
{
    reveal_strlit("path");
    reveal_strlit("tag");
    reveal_strlit("summary");
    reveal_strlit("description");
    reveal_strlit("request_desc");
    reveal_strlit("method");
    reveal_strlit("request");
    reveal_strlit("responses");
    assert("responses"@.len() == 9 && "path"@.len() == 4 && "tag"@.len() == 3);
    assert("summary"@.len() == 7 && "description"@.len() == 11 && "request_desc"@.len() == 12);
    assert("method"@.len() == 6 && "request"@.len() == 7);
}

/// One fault makes all arguments faulty: the first one is complained about. Where there
/// is none the arguments are what was read, unless tokens were left unread.
pub proof fn the_first_fault_is_complained_about(
    input: InputModel,
    args: OpenApiArgsModel,
    tokens: Seq<Tok>,
)
    ensures
        input.tokens.len() > 0 ==> (args_item(input, args) matches Err(m) ==> args_items(
            input,
            args,
        ) == Err::<(OpenApiArgsModel, InputModel), Messages>(m)),
        input.tokens.len() > 0 ==> (args_item(input, args) matches Ok(step)
            ==> step.1.tokens.len() > 0 && punct_step(step.1.tokens, ',') is None ==> args_items(
            input,
            args,
        ) == Err::<(OpenApiArgsModel, InputModel), Messages>(seq!["expected `,`"@])),
        args_items(fresh(tokens), default_args()) matches Err(m) ==> endpoint_args(tokens)
            == Err::<OpenApiArgsModel, Messages>(m),
        args_items(fresh(tokens), default_args()) matches Ok(step) ==> endpoint_args(tokens) == (
        match step.1.unexpected {
            Some(m) => Err::<OpenApiArgsModel, Messages>(m),
            None => Ok(step.0),
        }),
{
}

/// An unknown key or flag is complained about where it stands, a missing value where the
/// next token stands, and at the end of the arguments where there is none.
pub proof fn faulty_arguments_are_pointed_at(
    input: InputModel,
    source: Located,
    key: Seq<char>,
    after: Seq<Tok>,
)
    requires
        source.tokens == input.tokens,
        input.tokens.len() > 0,
        input.tokens[0] is Ident,
        ident_step(input.tokens) == Ok::<(Seq<char>, Seq<Tok>), Messages>((key, after)),
    ensures
        punct_step(after, '=') is None ==> args_item_site(input, source) == Some(
            source.places[0].open,
        ),
        punct_step(after, '=') is Some && !is_endpoint_key(key) ==> args_item_site(input, source)
            == Some(source.places[0].open),
        punct_step(after, '=') matches Some(value) ==> (key == "path"@ || key == "tag"@ || key
            == "summary"@ || key == "description"@ || key == "request_desc"@) && value.len() == 0
            ==> args_item_site(input, source) == Some(source.end),
        punct_step(after, '=') matches Some(value) ==> key == "responses"@ && value.len() == 0
            ==> args_item_site(input, source) == Some(source.end),
{
    reveal_strlit("path");
    reveal_strlit("tag");
    reveal_strlit("summary");
    reveal_strlit("description");
    reveal_strlit("request_desc");
    reveal_strlit("method");
    reveal_strlit("request");
    reveal_strlit("responses");
    assert("responses"@.len() == 9 && "path"@.len() == 4 && "tag"@.len() == 3);
    assert("summary"@.len() == 7 && "description"@.len() == 11 && "request_desc"@.len() == 12);
    assert("method"@.len() == 6 && "request"@.len() == 7);
    assert(opened(input.tokens) == input.tokens);
}

/// The place of a complaint about the arguments is that of the first faulty one.
pub proof fn the_first_faulty_argument_is_pointed_at(
    input: InputModel,
    source: Located,
    args: OpenApiArgsModel,
    tokens: Seq<Tok>,
)
    ensures
        input.tokens.len() > 0 && args_item(input, args) is Err ==> args_items_site(
            input,
            source,
            args,
        ) == args_item_site(input, source),
        endpoint_args_site(source) == args_items_site(
            fresh(source.tokens),
            source,
            default_args(),
        ),
{
}

/// An endpoint can be expanded just where its method is a name, in lower case, in upper
/// case where the request type registers the route, and as it is given. What cannot be
/// read is complained about instead.
pub proof fn endpoints_need_a_method_that_is_a_name(attr: Seq<Tok>, item: Seq<Tok>)
    ensures
        endpoint_args(attr) is Err || item_fn(item) is Err ==> can_expand_endpoint(attr, item),
        endpoint_args(attr) matches Ok(args) ==> (item_fn(item) matches Ok(model)
            ==> can_expand_endpoint(attr, item) == (is_ident_text(args.method) && is_ident_text(
            lowercase(args.method),
        ) && (resolved_args(args, model.sig).request is Some ==> is_ident_text(
            uppercase(args.method),
        )))),
{
}

// ---------------------------------------------------------------------------
// The responses of an endpoint
// ---------------------------------------------------------------------------

/// An unknown part of a response, a description that is no text and a response without
/// parentheses where they have to be are refused.
pub proof fn unknown_parts_of_a_response_are_refused(
    input: InputModel,
    draft: ResponseDraftModel,
    key: Seq<char>,
    value: Seq<Tok>,
)
    requires
        key_step(input.tokens) == Ok::<(Seq<char>, Seq<Tok>), Messages>((key, value)),
    ensures
        key != "status"@ && key != "schema"@ && key != "description"@ ==> response_field(
            input,
            draft,
        ) == Err::<(ResponseDraftModel, InputModel), Messages>(
            seq!["expected `status`, `schema`, or `description`, found `"@ + key + "`"@],
        ),
        key == "description"@ && string_step(value) is None ==> response_field(input, draft)
            == Err::<(ResponseDraftModel, InputModel), Messages>(
            seq![missing(value, "expected string literal"@)],
        ),
        group_step(input.tokens, Delimiter::Parenthesis) is None ==> response_def(input) == Err::<
            (ResponseDefModel, InputModel),
            Messages,
        >(seq![missing(input.tokens, "expected parentheses"@)]),
{
    reveal_strlit("status");
    reveal_strlit("schema");
    reveal_strlit("description");
    assert("status"@.len() == 6 && "schema"@.len() == 6 && "description"@.len() == 11);
}

/// An unknown part of a response is complained about where its key stands; a missing
/// description at what comes next, or at the closing parenthesis; a missing part behind
/// the response.
pub proof fn faulty_responses_are_pointed_at(
    input: InputModel,
    source: Located,
    key: Seq<char>,
    value: Seq<Tok>,
)
    requires
        source.tokens == input.tokens,
        input.tokens.len() > 0,
        input.tokens[0] is Ident,
        key_step(input.tokens) == Ok::<(Seq<char>, Seq<Tok>), Messages>((key, value)),
    ensures
        key != "status"@ && key != "schema"@ && key != "description"@ ==> response_field_site(
            source,
        ) == Some(source.places[0].open),
        key == "description"@ && value.len() == 0 ==> response_field_site(source) == Some(
            source.end,
        ),
        group_step(input.tokens, Delimiter::Parenthesis) is None ==> response_def_site(
            input,
            source,
        ) == Some(source.places[0].open),
        response_entry_site(input, source) is None,
{
    reveal_strlit("status");
    reveal_strlit("schema");
    reveal_strlit("description");
    assert("status"@.len() == 6 && "schema"@.len() == 6 && "description"@.len() == 11);
    assert(opened(input.tokens) == input.tokens);
}

// ---------------------------------------------------------------------------
// The arguments of a response type
// ---------------------------------------------------------------------------

/// An argument under an unknown key and an unknown flag are refused, and so is one whose
/// value is no text where there has to be one, or no list where there has to be one.
pub proof fn unknown_arguments_of_a_response_are_refused(
    input: InputModel,
    attr: AttrDraftModel,
    key: Seq<char>,
    after: Seq<Tok>,
)
    requires
        ident_step(input.tokens) == Ok::<(Seq<char>, Seq<Tok>), Messages>((key, after)),
    ensures
        punct_step(after, '=') is None && key != "meta"@ ==> attr_item(input, attr) == Err::<
            (AttrDraftModel, InputModel),
            Messages,
        >(seq!["unknown flag `"@ + key + "`"@]),
        punct_step(after, '=') is Some && key != "status"@ && key != "description"@ && key
            != "summary"@ && key != "error"@ ==> attr_item(input, attr) == Err::<
            (AttrDraftModel, InputModel),
            Messages,
        >(seq!["expected `status`, `description`, or `error`, found `"@ + key + "`"@]),
        punct_step(after, '=') matches Some(value) ==> (key == "description"@ || key
            == "summary"@) && string_step(value) is None ==> attr_item(input, attr) == Err::<
            (AttrDraftModel, InputModel),
            Messages,
        >(seq![missing(value, "expected string literal"@)]),
        punct_step(after, '=') matches Some(value) ==> key == "error"@ && group_step(
            value,
            Delimiter::Parenthesis,
        ) is None ==> attr_item(input, attr) == Err::<(AttrDraftModel, InputModel), Messages>(
            seq![missing(value, "expected parentheses"@)],
        ),
{
    lemma_attr_keys();
}

proof fn lemma_attr_keys()
    ensures
        "status"@.len() == 6,
        "description"@.len() == 11,
        "summary"@.len() == 7,
        "error"@.len() == 5,
{
    reveal_strlit("status");
    reveal_strlit("description");
    reveal_strlit("summary");
    reveal_strlit("error");
}

/// An unknown part of an error or of an example is refused, and so is one that is no
/// text where there has to be one, or no list where there has to be one.
pub proof fn unknown_parts_of_an_error_are_refused(
    input: InputModel,
    draft: ErrorDraftModel,
    example: DetailDraftModel,
    key: Seq<char>,
    value: Seq<Tok>,
)
    requires
        key_step(input.tokens) == Ok::<(Seq<char>, Seq<Tok>), Messages>((key, value)),
    ensures
        key != "code"@ && key != "message"@ && key != "details"@ ==> error_field(input, draft)
            == Err::<(ErrorDraftModel, InputModel), Messages>(
            seq!["expected `code`, `message`, or `details`, found `"@ + key + "`"@],
        ),
        (key == "code"@ || key == "message"@) && string_step(value) is None ==> error_field(
            input,
            draft,
        ) == Err::<(ErrorDraftModel, InputModel), Messages>(
            seq![missing(value, "expected string literal"@)],
        ),
        key == "details"@ && group_step(value, Delimiter::Parenthesis) is None ==> error_field(
            input,
            draft,
        ) == Err::<(ErrorDraftModel, InputModel), Messages>(
            seq![missing(value, "expected parentheses"@)],
        ),
        key != "field"@ && key != "reason"@ ==> detail_field(input.tokens, example).0 == Err::<
            DetailDraftModel,
            Messages,
        >(seq!["expected `field` or `reason`, found `"@ + key + "`"@]),
        (key == "field"@ || key == "reason"@) && string_step(value) is None ==> detail_field(
            input.tokens,
            example,
        ).0 == Err::<DetailDraftModel, Messages>(
            seq![missing(value, "expected string literal"@)],
        ),
        group_step(input.tokens, Delimiter::Parenthesis) is None ==> detail_example(input).0
            == Err::<(Seq<char>, Seq<char>), Messages>(
            seq![missing(input.tokens, "expected parentheses"@)],
        ),
{
    reveal_strlit("code");
    reveal_strlit("message");
    reveal_strlit("details");
    assert("code"@.len() == 4 && "message"@.len() == 7 && "details"@.len() == 7);
    assert("message"@[0] == 'm' && "details"@[0] == 'd');
}

/// One fault makes all arguments of a response type faulty: the first one is complained
/// about, before anything that is missing, and that before tokens that were left unread.
/// Where there is none the arguments are what was read.
pub proof fn the_first_fault_of_a_response_is_complained_about(
    input: InputModel,
    attr: AttrDraftModel,
    tokens: Seq<Tok>,
    nothing: AttrDraftModel,
)
    requires
        nothing == (AttrDraftModel {
            status: None,
            description: None,
            summary: None,
            error: ErrorDraftModel { code: None, message: None, details: Seq::empty() },
            include_meta: false,
        }),
    ensures
        input.tokens.len() > 0 ==> (attr_item(input, attr) matches Err(m) ==> attr_items(
            input,
            attr,
        ) == Err::<(AttrDraftModel, InputModel), Messages>(m)),
        input.tokens.len() > 0 ==> (attr_item(input, attr) matches Ok(step)
            ==> step.1.tokens.len() > 0 && punct_step(step.1.tokens, ',') is None ==> attr_items(
            input,
            attr,
        ) == Err::<(AttrDraftModel, InputModel), Messages>(seq!["expected `,`"@])),
        attr_items(fresh(tokens), nothing) matches Err(m) ==> response_attr(tokens) == Err::<
            ResponseAttrModel,
            Messages,
        >(m),
        attr_items(fresh(tokens), nothing) matches Ok(step) ==> (completed_attr(
            step.0,
        ) matches Err(m) ==> response_attr(tokens) == Err::<ResponseAttrModel, Messages>(m)),
        attr_items(fresh(tokens), nothing) matches Ok(step) ==> (completed_attr(
            step.0,
        ) matches Ok(model) ==> response_attr(tokens) == (match step.1.unexpected {
            Some(m) => Err::<ResponseAttrModel, Messages>(m),
            None => Ok(model),
        })),
{
}

/// An unknown key or flag is complained about where it stands, a missing value where the
/// next token stands, and at the end of the arguments where there is none; a missing
/// argument at the end of the arguments.
pub proof fn faulty_arguments_of_a_response_are_pointed_at(
    input: InputModel,
    source: Located,
    attr: AttrDraftModel,
    key: Seq<char>,
    after: Seq<Tok>,
)
    requires
        source.tokens == input.tokens,
        input.tokens.len() > 0,
        input.tokens[0] is Ident,
        ident_step(input.tokens) == Ok::<(Seq<char>, Seq<Tok>), Messages>((key, after)),
    ensures
        punct_step(after, '=') is None ==> attr_item_site(input, source, attr) == Some(
            source.places[0].open,
        ),
        punct_step(after, '=') is Some && key != "status"@ && key != "description"@ && key
            != "summary"@ && key != "error"@ ==> attr_item_site(input, source, attr) == Some(
            source.places[0].open,
        ),
        punct_step(after, '=') matches Some(value) ==> (key == "description"@ || key
            == "summary"@ || key == "error"@) && value.len() == 0 ==> attr_item_site(
            input,
            source,
            attr,
        ) == Some(source.end),
        attr_item(input, attr) is Err ==> attr_items_site(input, source, attr) == attr_item_site(
            input,
            source,
            attr,
        ),
        attr_items(fresh(source.tokens), empty_attr()) is Err ==> response_attr_site(source)
            == attr_items_site(fresh(source.tokens), source, empty_attr()),
        attr_items(fresh(source.tokens), empty_attr()) matches Ok(step) ==> completed_attr(
            step.0,
        ) is Err ==> response_attr_site(source) == Some(source.end),
{
    lemma_attr_keys();
    assert(opened(input.tokens) == input.tokens);
}

/// An unknown part of an error is complained about where its key stands, and a missing
/// value at what comes next, or at the closing parenthesis.
pub proof fn faulty_errors_are_pointed_at(source: Located, key: Seq<char>, value: Seq<Tok>)
    requires
        source.tokens.len() > 0,
        source.tokens[0] is Ident,
        key_step(source.tokens) == Ok::<(Seq<char>, Seq<Tok>), Messages>((key, value)),
    ensures
        key != "code"@ && key != "message"@ && key != "details"@ ==> error_field_site(source)
            == Some(source.places[0].open),
        (key == "code"@ || key == "message"@ || key == "details"@) && value.len() == 0
            ==> error_field_site(source) == Some(source.end),
{
    assert(opened(source.tokens) == source.tokens);
}

// ---------------------------------------------------------------------------
// Statuses
// ---------------------------------------------------------------------------

/// A text is a number just where it consists of digits.
pub proof fn only_digits_make_a_number(digits: Seq<char>)
    ensures
        decimal_value(digits) is Some <==> forall|i: int|
            0 <= i < digits.len() ==> '0' <= #[trigger] digits[i] <= '9',
    decreases digits.len(),
{
    if digits.len() > 0 {
        let before = digits.drop_last();
        only_digits_make_a_number(before);
        assert(digits.last() == digits[digits.len() - 1]);
        assert forall|i: int| 0 <= i < before.len() implies #[trigger] before[i] == digits[i] by {}
        if decimal_value(digits) is Some {
            assert forall|i: int| 0 <= i < digits.len() implies '0' <= #[trigger] digits[i]
                <= '9' by {
                if i < before.len() {
                    assert(before[i] == digits[i]);
                }
            }
        }
    }
}

/// A status is a number that fits, or a constant that is known; anything else is
/// refused.
pub proof fn other_statuses_are_refused(kind: ExprKindModel)
    ensures
        kind matches ExprKindModel::Int(digits) ==> {
            &&& digits.len() == 0 ==> status_of(kind) == Err::<u16, Messages>(
                seq!["cannot parse integer from empty string"@],
            )
            &&& digits.len() > 0 && decimal_value(digits) is None ==> status_of(kind) == Err::<
                u16,
                Messages,
            >(seq!["invalid digit found in string"@])
            &&& digits.len() > 0 ==> (decimal_value(digits) matches Some(n) ==> status_of(kind)
                == (if n <= 65535 {
                Ok::<u16, Messages>(n as u16)
            } else {
                Err(seq!["number too large to fit in target type"@])
            }))
        },
        kind matches ExprKindModel::Path(names) ==> names.len() > 0 ==> (code_of_constant(
            names.last(),
        ) is None ==> status_of(kind) == Err::<u16, Messages>(
            seq!["expected a `Status::*` constant, found `"@ + names.last() + "`"@],
        )),
        kind matches ExprKindModel::Path(names) ==> names.len() > 0 ==> (code_of_constant(
            names.last(),
        ) matches Some(code) ==> status_of(kind) == Ok::<u16, Messages>(code)),
        kind matches ExprKindModel::Path(names) ==> names.len() == 0 ==> status_of(kind) == Err::<
            u16,
            Messages,
        >(seq!["expected `Status::UNPROCESSABLE_ENTITY`"@]),
        kind is Str || kind is Lit ==> status_of(kind) == Err::<u16, Messages>(
            seq!["expected a status code like `422` or `Status::UNPROCESSABLE_ENTITY`"@],
        ),
        kind is Other ==> status_of(kind) == Err::<u16, Messages>(
            seq!["expected `422` or `Status::UNPROCESSABLE_ENTITY`"@],
        ),
{
}

// ---------------------------------------------------------------------------
// Fields
// ---------------------------------------------------------------------------

/// A name that is no source is refused, and so is a path without any.
pub proof fn other_sources_are_refused(names: Seq<Seq<char>>)
    ensures
        names.len() == 0 ==> source_of(names) == Err::<SourceKind, Messages>(
            seq!["expected a source path"@],
        ),
        names.len() > 0 && names.last() != "Path"@ && names.last() != "Query"@ && names.last()
            != "Body"@ ==> source_of(names) == Err::<SourceKind, Messages>(
            seq![
                "expected `Source::Path`, `Source::Query`, or `Source::Body`, found `"@
                    + names.last() + "`"@,
            ],
        ),
{
}

/// An unknown part of a field's `#[schema(...)]` is complained about where it stands, and
/// a missing text at what comes next, or at the end.
pub proof fn faulty_schemas_are_pointed_at(
    input: InputModel,
    source: Located,
    key: Seq<char>,
    after: Seq<Tok>,
)
    requires
        source.tokens == input.tokens,
        input.tokens.len() > 0,
        input.tokens[0] is Ident,
        meta_path(input.tokens) == Ok::<(Option<Seq<char>>, Seq<Tok>), Messages>(
            (Some(key), after),
        ),
    ensures
        key != "from"@ && key != "description"@ && key != "example"@ ==> field_meta_item_site(
            input,
            source,
        ) == Some(source.places[0].open),
        key == "description"@ || key == "example"@ ==> (punct_step(after, '=') matches Some(value)
            ==> value.len() == 0 ==> field_meta_item_site(input, source) == Some(source.end)),
{
    reveal_strlit("from");
    reveal_strlit("description");
    reveal_strlit("example");
    assert("from"@.len() == 4 && "description"@.len() == 11 && "example"@.len() == 7);
    assert(opened(input.tokens) == input.tokens);
}

/// What is known of the fields is what is known of each of them, in order; the first one
/// that there is a complaint about is complained about.
pub proof fn fields_are_read_in_order(fields: Seq<FieldModel>, last: FieldModel)
    ensures
        fields.len() == 0 ==> (field_infos(fields) matches Ok(infos) && infos.len() == 0),
        field_infos(fields) matches Err(m) ==> field_infos(fields.push(last)) == Err::<
            Seq<FieldInfoModel>,
            Messages,
        >(m),
        field_infos(fields) is Ok ==> (field_info(last) matches Err(m) ==> field_infos(
            fields.push(last),
        ) == Err::<Seq<FieldInfoModel>, Messages>(m)),
        field_infos(fields) matches Ok(infos) ==> (field_info(last) matches Ok(info)
            ==> field_infos(fields.push(last)) == Ok::<Seq<FieldInfoModel>, Messages>(
            infos.push(info),
        )),
{
    assert(fields.push(last).drop_last() =~= fields);
    assert(fields.push(last).last() == last);
}

/// A struct can be expanded just where all of its fields have a name, or where there is a
/// complaint about its description; a complaint about its fields comes after that.
pub proof fn structs_need_names_for_their_fields(item: Seq<Tok>)
    ensures
        item_struct(item) is Err ==> can_expand_schema(item),
        item_struct(item) matches Ok(model) ==> can_expand_schema(item) == (struct_description(
            model,
        ) is Err || forall|i: int|
            0 <= i < model.fields.len() ==> (#[trigger] model.fields[i]).ident is Some),
        item_struct(item) matches Ok(model) ==> struct_description(model) is Ok ==> (field_infos(
            model.fields,
        ) matches Err(m) ==> schema_code(model) == error_reports(m)),
{
}

/// Of several parts the first faulty one is pointed at, or else what stands where a
/// comma has to be; behind a part that is in order the next one is looked at.
pub proof fn the_first_faulty_part_is_pointed_at(
    input: InputModel,
    source: Located,
    response: ResponseDraftModel,
    error: ErrorDraftModel,
    meta: FieldMetaModel,
)
    requires
        input.tokens.len() > 0,
    ensures
        response_field(input, response) is Err ==> response_fields_site(input, source, response)
            == response_field_site(source),
        response_field(input, response) matches Ok(step) ==> step.1.tokens.len() > 0 ==> {
            let behind = behind_key(source).behind(step.1.tokens);
            response_fields_site(input, source, response) == (match punct_step(
                step.1.tokens,
                ',',
            ) {
                None => Some(behind.punct_site()),
                Some(rest) => response_fields_site(
                    InputModel { tokens: rest, ..step.1 },
                    behind.behind(rest),
                    step.0,
                ),
            })
        },
        error_field(input, error) is Err ==> error_fields_site(input, source, error)
            == error_field_site(source),
        error_field(input, error) matches Ok(step) ==> step.1.tokens.len() > 0 ==> {
            let behind = behind_key(source).behind(step.1.tokens);
            error_fields_site(input, source, error) == (match punct_step(step.1.tokens, ',') {
                None => Some(behind.punct_site()),
                Some(rest) => error_fields_site(
                    InputModel { tokens: rest, ..step.1 },
                    behind.behind(rest),
                    step.0,
                ),
            })
        },
        field_meta_item(input, meta) is Err ==> field_meta_items_site(input, source, meta)
            == field_meta_item_site(input, source),
        field_meta_item(input, meta) matches Ok(step) ==> step.1.tokens.len() > 0 ==> {
            let behind = behind_meta(source, step.1.tokens);
            field_meta_items_site(input, source, meta) == (match punct_step(step.1.tokens, ',') {
                None => Some(behind.punct_site()),
                Some(rest) => field_meta_items_site(
                    InputModel { tokens: rest, ..step.1 },
                    behind.behind(rest),
                    step.0,
                ),
            })
        },
{
}

/// A response is pointed at in its parentheses where one of its parts is faulty, and
/// behind them where one is missing.
pub proof fn missing_parts_are_pointed_at_behind_the_response(
    input: InputModel,
    source: Located,
    content: Seq<Tok>,
    rest: Seq<Tok>,
    inner: InputModel,
    nothing: ResponseDraftModel,
)
    requires
        group_step(input.tokens, Delimiter::Parenthesis) == Some((content, rest)),
        inner == (InputModel { tokens: content, ..input }),
        nothing == (ResponseDraftModel { status: None, schema: None, description: None }),
    ensures
        response_fields(inner, nothing) is Err ==> response_def_site(input, source)
            == response_fields_site(inner, source.inside(), nothing),
        response_fields(inner, nothing) is Ok ==> response_def_site(input, source) == Some(
            source.behind(rest).here(),
        ),
        response_entry_site(input, source) == response_def_site(input, source),
{
}

/// Something else than a description of a struct is complained about where it stands, and
/// a missing text at what comes next, or at the end.
pub proof fn faulty_descriptions_are_pointed_at(
    source: Located,
    key: Seq<char>,
    after: Seq<Tok>,
)
    requires
        source.tokens.len() > 0,
        source.tokens[0] is Ident,
        meta_path(source.tokens) == Ok::<(Option<Seq<char>>, Seq<Tok>), Messages>(
            (Some(key), after),
        ),
    ensures
        key != "description"@ ==> description_in_site(source) == Some(source.places[0].open),
        key == "description"@ ==> (punct_step(after, '=') matches Some(value) ==> value.len() == 0
            ==> description_in_site(source) == Some(source.end)),
        key == "description"@ && punct_step(after, '=') is None ==> description_in_site(source)
            == Some(source.behind(after).punct_site()),
{
    assert(opened(source.tokens) == source.tokens);
}

// ---------------------------------------------------------------------------
// Routers
// ---------------------------------------------------------------------------

/// A router is answered with the complaint about its first faulty item and nothing else;
/// without a faulty item it is expanded, under names that the schemas can have.
pub proof fn the_first_faulty_item_is_complained_about(
    item: ItemImplModel,
    expansion: Seq<Tok>,
    i: int,
)
    requires
        is_router_code(item, expansion),
    ensures
        0 <= i < item.items.len() && (forall|j: int|
            0 <= j < i ==> item_plan(#[trigger] item.items[j]) is Ok) ==> (item_plan(
            item.items[i],
        ) matches Err(m) ==> expansion == error_reports(m)),
        (forall|j: int| 0 <= j < item.items.len() ==> item_plan(#[trigger] item.items[j]) is Ok)
            ==> exists|names: Seq<SchemaNamesModel>|
            item_names_fit(item.items, names) && expansion == #[trigger] router_impl_code(
                item,
                names,
            ),
{
    if 0 <= i < item.items.len() && forall|j: int|
        0 <= j < i ==> item_plan(#[trigger] item.items[j]) is Ok {
        let before = item.items.take(i);
        assert forall|j: int| 0 <= j < before.len() implies item_plan(#[trigger] before[j]) is Ok by {
            assert(before[j] == item.items[j]);
        }
        lemma_no_fault(before);
        if item_plan(item.items[i]) is Err {
            let upto = item.items.take(i + 1);
            assert(upto.drop_last() =~= before);
            assert(upto.last() == item.items[i]);
            lemma_first_fault_prefix(item.items, i + 1);
        }
    }
    if forall|j: int| 0 <= j < item.items.len() ==> item_plan(#[trigger] item.items[j]) is Ok {
        lemma_no_fault(item.items);
    }
}

proof fn lemma_no_fault(items: Seq<Seq<Tok>>)
    requires
        forall|j: int| 0 <= j < items.len() ==> item_plan(#[trigger] items[j]) is Ok,
    ensures
        first_fault(items) is None,
    decreases items.len(),
{
    if items.len() > 0 {
        let before = items.drop_last();
        assert forall|j: int| 0 <= j < before.len() implies item_plan(#[trigger] before[j]) is Ok by {
            assert(before[j] == items[j]);
        }
        lemma_no_fault(before);
        assert(items.last() == items[items.len() - 1]);
    }
}

/// A method can be expanded just where its HTTP method is a name, as it is given, in
/// upper case, and in lower case where it has no request type; one that does not take
/// `self` by value is complained about instead.
pub proof fn methods_need_an_http_method_that_is_a_name(
    args: OpenApiArgsModel,
    sig: SignatureModel,
)
    ensures
        !takes_self(sig) ==> has_method_name(args, sig) && method_args(args, sig) is Err,
        takes_self(sig) ==> has_method_name(args, sig) == (is_ident_text(args.method)
            && is_ident_text(uppercase(args.method)) && ((method_args(args, sig) matches Ok(
            resolved,
        ) && resolved.request is None) ==> is_ident_text(lowercase(args.method)))),
{
}

/// A method that does not take `self` by value is complained about at its receiver, or at
/// its signature where it has none; any other complaint stands at the signature.
pub proof fn faulty_methods_are_pointed_at(sig: Signature)
    ensures
        takes_self(sig@) ==> signature_place(sig) == sig.span,
        !takes_self(sig@) && sig.params.len() > 0 && sig.params[0] is Receiver ==> signature_place(
            sig,
        ) == sig.params[0]->Receiver_1,
        sig.params.len() == 0 || sig.params[0] is Typed ==> signature_place(sig) == sig.span,
{
    if sig.params.len() > 0 {
        assert(sig@.params[0] == sig.params[0]@);
    }
}

// ---------------------------------------------------------------------------
// Syntax
// ---------------------------------------------------------------------------

/// Tokens that nobody read are complained about by what was expected in their stead;
/// invisible groups are looked into, and nothing is said where nothing is left.
pub proof fn unread_tokens_are_complained_about(tokens: Seq<Tok>, delimiter: Delimiter)
    ensures
        tokens.len() == 0 ==> leftover(tokens, delimiter) is None,
        tokens.len() > 0 && !(tokens[0] matches Tok::Group(Delimiter::Invisible, _)) ==> leftover(
            tokens,
            delimiter,
        ) == Some(
            seq![
                match delimiter {
                    Delimiter::Parenthesis => "unexpected token, expected `)`"@,
                    Delimiter::Brace => "unexpected token, expected `}`"@,
                    Delimiter::Bracket => "unexpected token, expected `]`"@,
                    Delimiter::Invisible => "unexpected token"@,
                },
            ],
        ),
{
}

/// What was read counts only where no tokens were left unread.
pub proof fn unread_tokens_make_a_parse_fail<T>(value: T, input: InputModel, m: Messages)
    ensures
        input.unexpected is None ==> concluded(Ok::<(T, InputModel), Messages>((value, input)))
            == Ok::<T, Messages>(value),
        input.unexpected == Some(m) ==> concluded(Ok::<(T, InputModel), Messages>((value, input)))
            == Err::<T, Messages>(m),
        concluded(Err::<(T, InputModel), Messages>(m)) == Err::<T, Messages>(m),
{
}

/// A type and an expression are the tokens that the parser takes for them.
pub proof fn types_and_expressions_are_what_is_parsed(input: InputModel)
    ensures
        node_step(Node::Type, input) matches Ok(step) ==> type_step(input) == Ok::<
            (TypeModel, InputModel),
            Messages,
        >((type_model(step.0), step.1)),
        node_step(Node::Type, input) matches Err(m) ==> type_step(input) == Err::<
            (TypeModel, InputModel),
            Messages,
        >(m),
        node_step(Node::Expr, input) matches Ok(step) ==> expr_step(input) == Ok::<
            (ExprModel, InputModel),
            Messages,
        >((expr_model(step.0), step.1)),
        node_step(Node::Expr, input) matches Err(m) ==> expr_step(input) == Err::<
            (ExprModel, InputModel),
            Messages,
        >(m),
{
}

/// A path is told by its last segment, and a type has the arguments of that segment that
/// are types, in order.
pub proof fn the_last_segment_counts(ty: TypeModel, args: Seq<GenericArgModel>)
    ensures
        ty.kind matches TypeKindModel::Path(segments) ==> segments.len() > 0 ==> last_segment(ty)
            == Some(segments.last()),
        !(ty.kind is Path) ==> last_segment(ty) is None,
        last_segment(ty) matches Some(segment) ==> segment.args == Some(args) ==> type_args(ty)
            == types_among(args),
        last_segment(ty) matches Some(segment) ==> segment.args is None ==> type_args(ty).len()
            == 0,
        last_segment(ty) matches Some(segment) ==> segment.args == Some(args) && args.len() > 0
            ==> (args[0] matches GenericArgModel::Type(first) ==> first_type_arg(ty) == Some(
            first,
        )),
        last_segment(ty) matches Some(segment) ==> segment.args == Some(args) && (args.len() == 0
            || args[0] is Other) ==> first_type_arg(ty) is None,
{
}

/// The types among the arguments of a type keep their order, and other arguments are of
/// no account.
pub proof fn types_keep_their_order(args: Seq<GenericArgModel>, last: GenericArgModel)
    ensures
        args.len() == 0 ==> types_among(args).len() == 0,
        last matches GenericArgModel::Type(ty) ==> types_among(args.push(last)) == types_among(
            args,
        ).push(ty),
        last is Other ==> types_among(args.push(last)) == types_among(args),
{
    assert(args.push(last).drop_last() =~= args);
    assert(args.push(last).last() == last);
}

/// The schema of a type that is no path is named as the type is printed.
pub proof fn other_schemas_are_named_as_printed(ty: TypeModel, print: Seq<char>)
    ensures
        last_segment(ty) is None ==> schema_name(ty, print) == print,
        last_segment(ty) matches Some(segment) ==> schema_name(ty, print) == segment.ident,
{
}

} // verus!
