//! The expansion of `#[response(...)]`.

use crate::error::error_reports;
use crate::items::{item_type, ItemType, ItemTypeModel};
use crate::response_attr::{
    detail_views, response_attr, ErrorDetailExample, ResponseAttr, ResponseAttrModel,
};
use crate::syntax::{
    attrs_except, first_type_arg, first_type_arg_of, generic_arg_view, generic_args_view, last_args,
    last_segment, lemma_generic_args_view, other_attrs, type_model, type_of, GenericArg,
    GenericArgModel, Type, TypeKind, TypeKindModel, TypeModel, TypeSegment,
};
use crate::text::{maybe, text_is};
use crate::tokens::{
    append, bool_code, bool_literal, braces, brackets, code, comma_separated, commas, concat, concatenated, emit, grouped,
    ident_tree, lexed, parens, streams, string_literal, string_tree, trees, u16_literal, u16_tree,
    Delimiter, Ident, Tok,
};
use proc_macro2::TokenStream;
use vstd::prelude::*;

verus! {

// ---------------------------------------------------------------------------
// Response types
// ---------------------------------------------------------------------------

/// Whether a type's last segment has the given name.
pub open spec fn path_is_named(ty: TypeModel, name: Seq<char>) -> bool {
    last_segment(ty) matches Some(segment) && segment.ident == name
}

/// Whether a type's last segment has the given name.
pub fn is_path_named(ty: &Type, name: &str) -> (named: bool)
    ensures
        named == path_is_named(ty@, name@),
{
    match ty.last_segment() {
        Some(segment) => text_is(&segment.ident, name),
        None => false,
    }
}

/// The unit type `()`.
pub open spec fn unit_type() -> TypeModel {
    TypeModel { tokens: lexed("()"@), kind: TypeKindModel::Tuple(0) }
}

/// Whether a type is the unit type, in parentheses or not.
pub open spec fn is_unit(ty: TypeModel) -> bool
    decreases ty,
{
    match ty.kind {
        TypeKindModel::Paren(inner) => is_unit(*inner),
        TypeKindModel::Tuple(n) => n == 0,
        _ => false,
    }
}

fn unit() -> (ty: Type)
    ensures
        ty@ == unit_type(),
{
    Type { tokens: code("()"), kind: TypeKind::Tuple(0) }
}

/// Whether a type is the unit type.
pub fn is_unit_type(ty: &Type) -> (yes: bool)
    ensures
        yes == is_unit(ty@),
    decreases ty,
{
    match &ty.kind {
        TypeKind::Paren(inner) => is_unit_type(inner),
        TypeKind::Tuple(n) => *n == 0,
        _ => false,
    }
}

/// The types among the arguments in angle brackets, in order.
pub open spec fn types_among(args: Seq<GenericArgModel>) -> Seq<TypeModel>
    decreases args.len(),
{
    if args.len() == 0 {
        Seq::empty()
    } else {
        match args.last() {
            GenericArgModel::Type(ty) => types_among(args.drop_last()).push(ty),
            GenericArgModel::Other => types_among(args.drop_last()),
        }
    }
}

/// The types among a type's arguments in angle brackets, in order.
pub open spec fn type_args(ty: TypeModel) -> Seq<TypeModel> {
    match last_args(ty) {
        Some(list) => types_among(list),
        None => Seq::empty(),
    }
}

/// The type at a position of a list; the unit type beyond its end.
pub open spec fn type_at(types: Seq<TypeModel>, i: int) -> TypeModel {
    if i < types.len() {
        types[i]
    } else {
        unit_type()
    }
}

/// The views of a list of types.
pub open spec fn type_views(types: Seq<Type>) -> Seq<TypeModel> {
    types.map_values(|ty: Type| ty@)
}

/// The types among a type's arguments in angle brackets.
pub(crate) fn type_args_of(ty: &Type) -> (types: Vec<Type>)
    ensures
        type_views(types@) == type_args(ty@),
{
    let mut types: Vec<Type> = Vec::new();
    assert(type_views(types@) =~= Seq::empty());
    if let Some(TypeSegment { ident, args: Some(list) }) = ty.last_segment() {
        let ghost models = generic_args_view(list@);
        proof {
            lemma_generic_args_view(list@);
        }
        let mut i: usize = 0;
        while i < list.len()
            invariant
                i <= list.len(),
                models.len() == list.len(),
                forall|j: int|
                    0 <= j < list.len() ==> #[trigger] models[j]
                        == generic_arg_view(list[j]),
                type_views(types@) == types_among(models.take(i as int)),
            decreases list.len() - i,
        {
            assert(models.take(i + 1).drop_last() =~= models.take(i as int));
            assert(models[i as int] == generic_arg_view(list[i as int]));
            let ghost before = types@;
            if let GenericArg::Type(arg) = &list[i] {
                let copy = arg.copy();
                types.push(copy);
                assert(type_views(types@) =~= type_views(before).push(copy@));
            }
            i += 1;
        }
        assert(models.take(i as int) =~= models);
    }
    types
}

/// The data type and the meta type of `Response<Data, Meta>`; the unit type
/// stands in for one that is missing.
pub fn extract_response_type_args(ty: &Type) -> (types: (Type, Type))
    ensures
        types.0@ == type_at(type_args(ty@), 0),
        types.1@ == type_at(type_args(ty@), 1),
{
    let args = type_args_of(ty);
    assert(type_views(args@).len() == args.len());
    let data = if args.len() > 0 {
        args[0].copy()
    } else {
        unit()
    };
    let meta = if args.len() > 1 {
        args[1].copy()
    } else {
        unit()
    };
    (data, meta)
}

/// The meta type of an `ErrorResponse<Meta>`.
pub open spec fn error_meta_type(ty: TypeModel) -> TypeModel {
    match first_type_arg(ty) {
        Some(meta) => meta,
        None => unit_type(),
    }
}

/// The meta type of `ErrorResponse<Meta>`; the unit type where the first argument
/// is no type.
pub fn extract_error_response_type_args(ty: &Type) -> (meta: Type)
    ensures
        meta@ == error_meta_type(ty@),
{
    match first_type_arg_of(ty) {
        Some(meta) => meta.copy(),
        None => unit(),
    }
}

// ---------------------------------------------------------------------------
// The schema of a response
// ---------------------------------------------------------------------------

/// The example of an error detail.
pub open spec fn detail_code(detail: (Seq<char>, Seq<char>)) -> Seq<Tok> {
    lexed("::sevria_service_kit::__private::serde_json::json!"@) + grouped(
        Delimiter::Parenthesis,
        grouped(
            Delimiter::Brace,
            lexed("\"field\":"@) + string_tree(detail.0) + lexed(", \"reason\":"@) + string_tree(
                detail.1,
            ),
        ),
    )
}

/// The examples of all error details.
pub open spec fn detail_codes(details: Seq<(Seq<char>, Seq<char>)>) -> Seq<Seq<Tok>> {
    details.map_values(|detail: (Seq<char>, Seq<char>)| detail_code(detail))
}

/// A text; empty where there is none.
pub open spec fn or_empty(text: Option<Seq<char>>) -> Seq<char> {
    match text {
        Some(t) => t,
        None => ""@,
    }
}

/// The properties of the error in an error response. It has details only where
/// there are examples of them.
pub open spec fn error_properties_code(attr: ResponseAttrModel) -> Seq<Tok> {
    lexed("\"code\":"@) + grouped(
        Delimiter::Brace,
        lexed("\"type\": \"string\", \"example\":"@) + string_tree(or_empty(attr.error_code)),
    ) + lexed(", \"message\":"@) + grouped(
        Delimiter::Brace,
        lexed("\"type\": \"string\", \"example\":"@) + string_tree(or_empty(attr.error_message)),
    ) + lexed(","@) + (if attr.error_details.len() > 0 {
        lexed("\"details\":"@) + grouped(
            Delimiter::Brace,
            lexed(
                "\"type\": \"array\", \"items\": < ::sevria_service_kit::ErrorDetail as ::sevria_service_kit::http::Endpoint> ::json_schema(), \"example\":"@,
            ) + grouped(Delimiter::Bracket, comma_separated(detail_codes(attr.error_details))),
        ) + lexed(","@)
    } else {
        Seq::empty()
    })
}

/// The code that puts the schema of a type into the properties; `key` is what
/// stands in front of the type.
pub open spec fn typed_property_code(key: Seq<Tok>, ty: TypeModel) -> Seq<Tok> {
    lexed("props.insert"@) + grouped(
        Delimiter::Parenthesis,
        key + ty.tokens + lexed("as ::sevria_service_kit::http::Endpoint> ::json_schema()"@),
    ) + lexed(";"@)
}

/// The property `meta`, left out unless it is asked for and has a type other than
/// the unit type.
pub open spec fn meta_property_code(asked_for: bool, ty: TypeModel) -> Seq<Tok> {
    if asked_for && !is_unit(ty) {
        typed_property_code(lexed("\"meta\".into(), <"@), ty)
    } else {
        Seq::empty()
    }
}

/// The property `data`, left out for the unit type.
pub open spec fn data_property_code(ty: TypeModel) -> Seq<Tok> {
    if !is_unit(ty) {
        typed_property_code(lexed("\"data\".into(), <"@), ty)
    } else {
        Seq::empty()
    }
}

/// The properties of an error response; `success` is always false.
pub open spec fn error_response_code(attr: ResponseAttrModel, ty: TypeModel) -> Seq<Tok> {
    lexed(
        "props.insert(\"success\".into(), ::sevria_service_kit::__private::serde_json::json!({\"type\": \"boolean\", \"example\": false}));"@,
    ) + lexed("props.insert"@) + grouped(
        Delimiter::Parenthesis,
        lexed("\"error\".into(), ::sevria_service_kit::__private::serde_json::json!"@) + grouped(
            Delimiter::Parenthesis,
            grouped(
                Delimiter::Brace,
                lexed("\"type\": \"object\", \"properties\":"@) + grouped(
                    Delimiter::Brace,
                    error_properties_code(attr),
                ) + lexed(", \"required\": [\"code\", \"message\"]"@),
            ),
        ),
    ) + lexed(";"@) + meta_property_code(attr.include_meta, error_meta_type(ty))
}

/// The properties of any other response.
pub open spec fn success_response_code(attr: ResponseAttrModel, ty: TypeModel) -> Seq<Tok> {
    lexed(
        "props.insert(\"success\".into(), ::sevria_service_kit::__private::serde_json::json!({\"type\": \"boolean\"}));"@,
    ) + data_property_code(type_at(type_args(ty), 0)) + meta_property_code(
        attr.include_meta,
        type_at(type_args(ty), 1),
    )
}

/// The properties of a response.
pub open spec fn response_properties_code(attr: ResponseAttrModel, ty: TypeModel) -> Seq<Tok> {
    if path_is_named(ty, "ErrorResponse"@) {
        error_response_code(attr, ty)
    } else {
        success_response_code(attr, ty)
    }
}

/// The implementation of `Endpoint` for a response type.
pub open spec fn endpoint_impl_code(
    name: Seq<char>,
    description: Seq<char>,
    properties: Seq<Tok>,
) -> Seq<Tok> {
    lexed("impl ::sevria_service_kit::http::Endpoint for"@) + ident_tree(name) + grouped(
        Delimiter::Brace,
        lexed("fn description() -> & 'static str"@) + grouped(
            Delimiter::Brace,
            string_tree(description),
        ) + lexed("fn json_schema() -> ::sevria_service_kit::__private::serde_json::Value"@)
            + grouped(
            Delimiter::Brace,
            lexed("let mut props = ::sevria_service_kit::__private::serde_json::Map::new();"@)
                + properties + lexed(
                "::sevria_service_kit::__private::serde_json::json!({ \"type\": \"object\", \"properties\": props, \"required\": [\"success\"] })"@,
            ),
        ),
    )
}

// ---------------------------------------------------------------------------
// The response type itself
// ---------------------------------------------------------------------------

/// The constructor of a success response; other responses have none.
pub open spec fn constructor_code(ty: TypeModel) -> Seq<Tok> {
    if path_is_named(ty, "Response"@) {
        lexed(
            "#[doc = \" Construct an empty success response (`success: true`).\"] pub fn new() -> Self"@,
        ) + grouped(
            Delimiter::Brace,
            lexed("Self"@) + grouped(
                Delimiter::Parenthesis,
                lexed("<"@) + ty.tokens + lexed("> ::new()"@),
            ),
        )
    } else {
        Seq::empty()
    }
}

/// The functions through which an endpoint learns of a response's status,
/// description and summary.
pub open spec fn metadata_code(name: Seq<char>, attr: ResponseAttrModel, ty: TypeModel) -> Seq<
    Tok,
> {
    lexed("impl"@) + ident_tree(name) + grouped(
        Delimiter::Brace,
        constructor_code(ty) + lexed(
            "#[doc(hidden)] pub const fn __openapi_response_meta() -> (u16, & 'static str)"@,
        ) + grouped(
            Delimiter::Brace,
            grouped(
                Delimiter::Parenthesis,
                u16_tree(attr.status) + lexed(","@) + string_tree(attr.description),
            ),
        ) + lexed(
            "#[doc(hidden)] pub const fn __openapi_response_summary() -> Option< & 'static str>"@,
        ) + grouped(
            Delimiter::Brace,
            lexed("if"@) + bool_code(attr.summary is Some) + grouped(
                Delimiter::Brace,
                lexed("Some"@) + grouped(
                    Delimiter::Parenthesis,
                    string_tree(or_empty(attr.summary)),
                ),
            ) + lexed("else { None }"@),
        ),
    )
}

/// What `#[response(...)]` on a type alias expands to: a struct around the type,
/// its schema, and its metadata.
pub open spec fn response_struct_code(alias: ItemTypeModel, attr: ResponseAttrModel) -> Seq<Tok> {
    let ty = type_model(alias.ty);
    concatenated(attrs_except(alias.attrs, "response"@)) + lexed("#[derive(::serde::Serialize)]"@)
        + alias.vis + lexed("struct"@) + ident_tree(alias.ident) + grouped(
        Delimiter::Parenthesis,
        lexed("pub"@) + ty.tokens,
    ) + lexed(";"@) + endpoint_impl_code(
        alias.ident,
        attr.description,
        response_properties_code(attr, ty),
    ) + metadata_code(alias.ident, attr, ty)
}

/// What `#[response(...)]` on a piece of source expands to.
pub open spec fn response_expansion(attr: Seq<Tok>, item: Seq<Tok>) -> Seq<Tok> {
    match response_attr(attr) {
        Err(m) => error_reports(m),
        Ok(args) => match item_type(item) {
            Err(m) => error_reports(m),
            Ok(alias) => response_struct_code(alias, args),
        },
    }
}

// ---------------------------------------------------------------------------
// Generating all that
// ---------------------------------------------------------------------------

fn text_or_empty(text: &Option<String>) -> (stream: TokenStream)
    ensures
        trees(stream) == string_tree(or_empty(maybe(*text))),
{
    match text {
        Some(t) => string_literal(t.as_str()),
        None => string_literal(""),
    }
}

fn detail_examples_code(details: &Vec<ErrorDetailExample>) -> (stream: TokenStream)
    ensures
        trees(stream) == comma_separated(detail_codes(detail_views(details@))),
{
    let ghost models = detail_views(details@);
    let mut examples: Vec<TokenStream> = Vec::new();
    let mut i: usize = 0;
    while i < details.len()
        invariant
            i <= details.len(),
            models == detail_views(details@),
            streams(examples@) =~= detail_codes(models).take(i as int),
        decreases details.len() - i,
    {
        let ghost before = examples@;
        let mut object = code("\"field\":");
        append(&mut object, string_literal(details[i].field.as_str()));
        emit(&mut object, ", \"reason\":");
        append(&mut object, string_literal(details[i].reason.as_str()));
        let mut example = code("::sevria_service_kit::__private::serde_json::json!");
        append(&mut example, parens(braces(object)));
        examples.push(example);
        assert(streams(examples@) =~= streams(before).push(detail_code(models[i as int])));
        i += 1;
    }
    assert(detail_codes(models).take(i as int) =~= detail_codes(models));
    commas(&examples)
}

fn error_properties(attr: &ResponseAttr) -> (stream: TokenStream)
    ensures
        trees(stream) == error_properties_code(attr@),
{
    assert(attr@.error_details.len() == attr.error_details.len());
    let mut code_schema = code("\"type\": \"string\", \"example\":");
    append(&mut code_schema, text_or_empty(&attr.error_code));
    let mut message_schema = code("\"type\": \"string\", \"example\":");
    append(&mut message_schema, text_or_empty(&attr.error_message));
    let details = if attr.error_details.len() > 0 {
        let mut object = code(
            "\"type\": \"array\", \"items\": < ::sevria_service_kit::ErrorDetail as ::sevria_service_kit::http::Endpoint> ::json_schema(), \"example\":",
        );
        append(&mut object, brackets(detail_examples_code(&attr.error_details)));
        let mut property = code("\"details\":");
        append(&mut property, braces(object));
        emit(&mut property, ",");
        property
    } else {
        TokenStream::new()
    };
    let mut stream = code("\"code\":");
    append(&mut stream, braces(code_schema));
    emit(&mut stream, ", \"message\":");
    append(&mut stream, braces(message_schema));
    emit(&mut stream, ",");
    append(&mut stream, details);
    stream
}

fn typed_property(key: &str, ty: &Type) -> (stream: TokenStream)
    ensures
        trees(stream) == typed_property_code(lexed(key@), ty@),
{
    let mut args = code(key);
    append(&mut args, ty.tokens.clone());
    emit(&mut args, "as ::sevria_service_kit::http::Endpoint> ::json_schema()");
    let mut stream = code("props.insert");
    append(&mut stream, parens(args));
    emit(&mut stream, ";");
    stream
}

fn meta_property(asked_for: bool, ty: &Type) -> (stream: TokenStream)
    ensures
        trees(stream) == meta_property_code(asked_for, ty@),
{
    if asked_for && !is_unit_type(ty) {
        typed_property("\"meta\".into(), <", ty)
    } else {
        TokenStream::new()
    }
}

fn response_properties(attr: &ResponseAttr, ty: &Type) -> (stream: TokenStream)
    ensures
        trees(stream) == response_properties_code(attr@, ty@),
{
    if is_path_named(ty, "ErrorResponse") {
        let mut object = code("\"type\": \"object\", \"properties\":");
        append(&mut object, braces(error_properties(attr)));
        emit(&mut object, ", \"required\": [\"code\", \"message\"]");
        let mut args = code(
            "\"error\".into(), ::sevria_service_kit::__private::serde_json::json!",
        );
        append(&mut args, parens(braces(object)));
        let mut stream = code(
            "props.insert(\"success\".into(), ::sevria_service_kit::__private::serde_json::json!({\"type\": \"boolean\", \"example\": false}));",
        );
        emit(&mut stream, "props.insert");
        append(&mut stream, parens(args));
        emit(&mut stream, ";");
        let meta = extract_error_response_type_args(ty);
        append(&mut stream, meta_property(attr.include_meta, &meta));
        stream
    } else {
        let (data, meta) = extract_response_type_args(ty);
        let mut stream = code(
            "props.insert(\"success\".into(), ::sevria_service_kit::__private::serde_json::json!({\"type\": \"boolean\"}));",
        );
        let data_property = if is_unit_type(&data) {
            TokenStream::new()
        } else {
            typed_property("\"data\".into(), <", &data)
        };
        append(&mut stream, data_property);
        append(&mut stream, meta_property(attr.include_meta, &meta));
        stream
    }
}

fn endpoint_impl(name: &Ident, description: &String, properties: TokenStream) -> (stream:
    TokenStream)
    ensures
        trees(stream) == endpoint_impl_code(name@, description@, trees(properties)),
{
    let mut schema = code(
        "let mut props = ::sevria_service_kit::__private::serde_json::Map::new();",
    );
    append(&mut schema, properties);
    emit(
        &mut schema,
        "::sevria_service_kit::__private::serde_json::json!({ \"type\": \"object\", \"properties\": props, \"required\": [\"success\"] })",
    );
    let mut block = code("fn description() -> & 'static str");
    append(&mut block, braces(string_literal(description.as_str())));
    emit(
        &mut block,
        "fn json_schema() -> ::sevria_service_kit::__private::serde_json::Value",
    );
    append(&mut block, braces(schema));
    let mut stream = code("impl ::sevria_service_kit::http::Endpoint for");
    append(&mut stream, name.to_tokens());
    append(&mut stream, braces(block));
    stream
}

fn constructor(ty: &Type) -> (stream: TokenStream)
    ensures
        trees(stream) == constructor_code(ty@),
{
    if is_path_named(ty, "Response") {
        let mut inner = code("<");
        append(&mut inner, ty.tokens.clone());
        emit(&mut inner, "> ::new()");
        let mut block = code("Self");
        append(&mut block, parens(inner));
        let mut stream = code(
            "#[doc = \" Construct an empty success response (`success: true`).\"] pub fn new() -> Self",
        );
        append(&mut stream, braces(block));
        stream
    } else {
        TokenStream::new()
    }
}

fn metadata(name: &Ident, attr: &ResponseAttr, ty: &Type) -> (stream: TokenStream)
    ensures
        trees(stream) == metadata_code(name@, attr@, ty@),
{
    let mut pair = u16_literal(attr.status);
    emit(&mut pair, ",");
    append(&mut pair, string_literal(attr.description.as_str()));
    let mut some = code("Some");
    append(&mut some, parens(text_or_empty(&attr.summary)));
    let mut summary = code("if");
    append(&mut summary, bool_literal(attr.summary.is_some()));
    append(&mut summary, braces(some));
    emit(&mut summary, "else { None }");
    let mut block = constructor(ty);
    emit(
        &mut block,
        "#[doc(hidden)] pub const fn __openapi_response_meta() -> (u16, & 'static str)",
    );
    append(&mut block, braces(parens(pair)));
    emit(
        &mut block,
        "#[doc(hidden)] pub const fn __openapi_response_summary() -> Option< & 'static str>",
    );
    append(&mut block, braces(summary));
    let mut stream = code("impl");
    append(&mut stream, name.to_tokens());
    append(&mut stream, braces(block));
    stream
}

/// Expands `#[response(...)]` on a type alias.
pub fn expand_response(alias: &ItemType, attr: &ResponseAttr) -> (stream: TokenStream)
    ensures
        trees(stream) == response_struct_code(alias@, attr@),
{
    let ty = type_of(alias.ty.clone());
    let mut field = code("pub");
    append(&mut field, ty.tokens.clone());
    let mut stream = concat(&other_attrs(&alias.attrs, "response"));
    emit(&mut stream, "#[derive(::serde::Serialize)]");
    append(&mut stream, alias.vis.clone());
    emit(&mut stream, "struct");
    append(&mut stream, alias.ident.to_tokens());
    append(&mut stream, parens(field));
    emit(&mut stream, ";");
    let properties = response_properties(attr, &ty);
    append(&mut stream, endpoint_impl(&alias.ident, &attr.description, properties));
    append(&mut stream, metadata(&alias.ident, attr, &ty));
    stream
}

} // verus!
