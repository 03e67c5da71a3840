//! The expansion of `#[endpoint(...)]` on a function, and what it shares with
//! the expansion on a method.

use crate::args::{endpoint_args, OpenApiArgs, OpenApiArgsModel, ResponseEntry, ResponseEntryModel};
use crate::error::error_reports;
use crate::items::{
    item_fn, param_views, ItemFn, ItemFnModel, Param, ParamModel, Signature, SignatureModel,
};
use crate::response::{is_path_named, path_is_named, type_args, type_args_of, type_views};
use crate::syntax::{
    attrs_except, attrs_placed, last_segment, other_attrs_at, type_model, type_of, Type, TypeModel,
};
use crate::text::{join2, lowercase, maybe, uppercase};
use crate::tokens::{
    affixed_ident, append, braces, code, concat, concatenated, emit, grouped, ident_tree,
    is_ident_text, lexed, parens, printed, streams, string_literal, string_tree, trees, unraw,
    Delimiter, Ident, Tok,
};
use proc_macro2::TokenStream;
use vstd::prelude::*;

verus! {

// ---------------------------------------------------------------------------
// The names of schemas
// ---------------------------------------------------------------------------

/// The name of a type's schema: the last segment of a path, or the type as it is
/// printed.
pub open spec fn schema_name(ty: TypeModel, print: Seq<char>) -> Seq<char> {
    match last_segment(ty) {
        Some(segment) => segment.ident,
        None => print,
    }
}

/// Whether a type can have a schema of the given name: that of a path is fixed,
/// while any other type is named as the compiler prints it.
pub open spec fn can_be_named(ty: TypeModel, name: Seq<char>) -> bool {
    exists|print: Seq<char>| name == #[trigger] schema_name(ty, print)
}

/// The name of a type's schema, given how the type is printed.
pub fn schema_name_from(ty: &Type, print: String) -> (name: String)
    ensures
        name@ == schema_name(ty@, print@),
{
    match ty.last_segment() {
        Some(segment) => segment.ident.clone(),
        None => print,
    }
}

/// The name of a type's schema, such as `SendEmailResponse` for
/// `crate::model::email::SendEmailResponse`.
pub fn type_to_schema_name(ty: &Type) -> (name: String)
    ensures
        can_be_named(ty@, name@),
{
    let print = printed(&ty.tokens);
    let name = schema_name_from(ty, print);
    assert(name@ == schema_name(ty@, print@));
    name
}

/// The names of the schemas that an endpoint mentions.
pub struct SchemaNames {
    /// That of the request type; nothing where there is none.
    pub request: String,
    /// That of each response type.
    pub responses: Vec<String>,
}

/// The model of [`SchemaNames`].
pub struct SchemaNamesModel {
    pub request: Seq<char>,
    pub responses: Seq<Seq<char>>,
}

/// The views of a list of texts.
pub open spec fn text_views(texts: Seq<String>) -> Seq<Seq<char>> {
    texts.map_values(|text: String| text@)
}

impl View for SchemaNames {
    type V = SchemaNamesModel;

    open spec fn view(&self) -> SchemaNamesModel {
        SchemaNamesModel { request: self.request@, responses: text_views(self.responses@) }
    }
}

/// The type of a response.
pub open spec fn entry_type(entry: ResponseEntryModel) -> TypeModel {
    match entry {
        ResponseEntryModel::Full(def) => def.schema,
        ResponseEntryModel::Bare(ty) => ty,
    }
}

/// Whether the schemas that an endpoint mentions can have these names.
pub open spec fn names_fit(args: OpenApiArgsModel, names: SchemaNamesModel) -> bool {
    &&& args.request matches Some(ty) ==> can_be_named(ty, names.request)
    &&& names.responses.len() == args.responses.len()
    &&& forall|i: int|
        0 <= i < args.responses.len() ==> can_be_named(
            entry_type(#[trigger] args.responses[i]),
            names.responses[i],
        )
}

fn type_of_entry(entry: &ResponseEntry) -> (ty: &Type)
    ensures
        ty@ == entry_type(entry@),
{
    match entry {
        ResponseEntry::Full(def) => &def.schema,
        ResponseEntry::Bare(ty) => ty,
    }
}

/// The names of the schemas that an endpoint mentions.
pub fn schema_names(args: &OpenApiArgs) -> (names: SchemaNames)
    ensures
        names_fit(args@, names@),
{
    let request = match &args.request {
        Some(ty) => type_to_schema_name(ty),
        None => String::new(),
    };
    let mut responses: Vec<String> = Vec::new();
    let mut i: usize = 0;
    while i < args.responses.len()
        invariant
            i <= args.responses.len(),
            responses.len() == i,
            forall|j: int|
                0 <= j < i ==> can_be_named(
                    entry_type(#[trigger] args@.responses[j]),
                    responses[j]@,
                ),
        decreases args.responses.len() - i,
    {
        let name = type_to_schema_name(type_of_entry(&args.responses[i]));
        assert(args@.responses[i as int] == args.responses[i as int]@);
        responses.push(name);
        i += 1;
    }
    let names = SchemaNames { request, responses };
    assert(names@.responses.len() == args@.responses.len());
    assert forall|j: int| 0 <= j < args@.responses.len() implies can_be_named(
        entry_type(#[trigger] args@.responses[j]),
        names@.responses[j],
    ) by {
        assert(names@.responses[j] == names.responses[j]@);
    }
    names
}

// ---------------------------------------------------------------------------
// Handlers
// ---------------------------------------------------------------------------

/// The request type and the state type of a handler whose only parameter is a
/// `Context<Request, State>`.
pub open spec fn context_types(params: Seq<ParamModel>) -> Option<(TypeModel, TypeModel)> {
    if params.len() == 1 {
        match params[0] {
            ParamModel::Typed(tokens) => {
                let ty = type_model(tokens);
                if path_is_named(ty, "Context"@) && type_args(ty).len() == 2 {
                    Some((type_args(ty)[0], type_args(ty)[1]))
                } else {
                    None
                }
            },
            ParamModel::Receiver(_) => None,
        }
    } else {
        None
    }
}

/// The request type and the state type of a handler whose only parameter is a
/// `Context<Request, State>`.
pub fn parse_context_handler(params: &Vec<Param>) -> (types: Option<(Type, Type)>)
    ensures
        types matches Some(t) ==> context_types(param_views(params@)) == Some((t.0@, t.1@)),
        types is None ==> context_types(param_views(params@)) is None,
{
    assert(param_views(params@).len() == params.len());
    if params.len() != 1 {
        return None;
    }
    assert(param_views(params@)[0] == params[0]@);
    match &params[0] {
        Param::Typed(tokens) => {
            let ty = type_of(tokens.clone());
            let args = type_args_of(&ty);
            assert(type_views(args@).len() == args.len());
            if is_path_named(&ty, "Context") && args.len() == 2 {
                Some((args[0].copy(), args[1].copy()))
            } else {
                None
            }
        },
        Param::Receiver(..) => None,
    }
}

/// Whether a function returns a `Result`, going by the last segment of its return
/// type.
pub open spec fn returns_result(sig: SignatureModel) -> bool {
    sig.output matches Some(ty) && path_is_named(type_model(ty), "Result"@)
}

/// Whether a function returns a `Result`. What such a handler returns is turned
/// into a status and a body; anything else is answered as it is.
pub fn is_result_return(sig: &Signature) -> (result: bool)
    ensures
        result == returns_result(sig@),
{
    match &sig.output {
        Some(ty) => is_path_named(&type_of(ty.clone()), "Result"),
        None => false,
    }
}

/// The name of an HTTP method, such as `POST` for `post`.
pub fn request_method_ident(method: &String) -> (ident: Ident)
    requires
        is_ident_text(uppercase(method@)),
    ensures
        ident@ == uppercase(method@),
{
    Ident::from_text(method.as_str().to_uppercase().as_str()).unwrap()
}

// ---------------------------------------------------------------------------
// Documentation
// ---------------------------------------------------------------------------

/// The call that documents a response.
pub open spec fn response_call_code(entry: ResponseEntryModel, name: Seq<char>) -> Seq<Tok> {
    match entry {
        ResponseEntryModel::Full(def) => {
            let description = match def.description {
                Some(text) => string_tree(text),
                None => lexed("<"@) + def.schema.tokens + lexed(
                    "as ::sevria_service_kit::http::Endpoint> ::description()"@,
                ),
            };
            lexed(".json_content_response"@) + grouped(
                Delimiter::Parenthesis,
                lexed("&format!"@) + grouped(
                    Delimiter::Parenthesis,
                    lexed("\"{}\","@) + def.status.tokens + lexed("as u16"@),
                ) + lexed(","@) + description + lexed(","@) + string_tree(name),
            )
        },
        ResponseEntryModel::Bare(ty) => lexed(".json_content_response"@) + grouped(
            Delimiter::Parenthesis,
            lexed("&format!"@) + grouped(
                Delimiter::Parenthesis,
                lexed("\"{}\", <"@) + ty.tokens + lexed("> ::__openapi_response_meta().0"@),
            ) + lexed(", <"@) + ty.tokens + lexed("> ::__openapi_response_meta().1,"@)
                + string_tree(name) + lexed(","@),
        ),
    }
}

/// The calls that document the responses.
pub open spec fn response_call_codes(
    entries: Seq<ResponseEntryModel>,
    names: Seq<Seq<char>>,
) -> Seq<Seq<Tok>> {
    Seq::new(entries.len(), |i: int| response_call_code(entries[i], names[i]))
}

fn response_call(entry: &ResponseEntry, name: &String) -> (stream: TokenStream)
    ensures
        trees(stream) == response_call_code(entry@, name@),
{
    let mut args = code("&format!");
    match entry {
        ResponseEntry::Full(def) => {
            let description = match &def.description {
                Some(text) => string_literal(text.as_str()),
                None => {
                    let mut call = code("<");
                    append(&mut call, def.schema.tokens.clone());
                    emit(&mut call, "as ::sevria_service_kit::http::Endpoint> ::description()");
                    call
                },
            };
            let mut status = code("\"{}\",");
            append(&mut status, def.status.tokens.clone());
            emit(&mut status, "as u16");
            append(&mut args, parens(status));
            emit(&mut args, ",");
            append(&mut args, description);
            emit(&mut args, ",");
            append(&mut args, string_literal(name.as_str()));
        },
        ResponseEntry::Bare(ty) => {
            let mut status = code("\"{}\", <");
            append(&mut status, ty.tokens.clone());
            emit(&mut status, "> ::__openapi_response_meta().0");
            append(&mut args, parens(status));
            emit(&mut args, ", <");
            append(&mut args, ty.tokens.clone());
            emit(&mut args, "> ::__openapi_response_meta().1,");
            append(&mut args, string_literal(name.as_str()));
            emit(&mut args, ",");
        },
    }
    let mut stream = code(".json_content_response");
    append(&mut stream, parens(args));
    stream
}

/// The calls that document the responses.
pub fn gen_response_calls(args: &OpenApiArgs, names: &SchemaNames) -> (calls: Vec<TokenStream>)
    requires
        names.responses.len() == args.responses.len(),
    ensures
        streams(calls@) == response_call_codes(args@.responses, names@.responses),
{
    let ghost codes = response_call_codes(args@.responses, names@.responses);
    let mut calls: Vec<TokenStream> = Vec::new();
    let mut i: usize = 0;
    while i < args.responses.len()
        invariant
            i <= args.responses.len(),
            names.responses.len() == args.responses.len(),
            codes == response_call_codes(args@.responses, names@.responses),
            streams(calls@) =~= codes.take(i as int),
        decreases args.responses.len() - i,
    {
        let ghost before = calls@;
        calls.push(response_call(&args.responses[i], &names.responses[i]));
        proof {
            assert(args@.responses[i as int] == args.responses[i as int]@);
            assert(names@.responses[i as int] == names.responses[i as int]@);
            assert(streams(calls@) =~= streams(before).push(codes[i as int]));
        }
        i += 1;
    }
    assert(codes.take(i as int) =~= codes);
    calls
}

/// A call with one text as its argument, left out where there is no text.
pub open spec fn text_call_code(call: Seq<Tok>, text: Option<Seq<char>>) -> Seq<Tok> {
    match text {
        Some(t) => call + grouped(Delimiter::Parenthesis, string_tree(t)),
        None => Seq::empty(),
    }
}

/// The start of an endpoint's documentation: its method and path, and what else
/// the arguments say of it.
pub open spec fn path_doc_code(args: OpenApiArgsModel, method: Seq<char>, path: Seq<char>) -> Seq<
    Tok,
> {
    lexed("::sevria_service_kit::http::path::"@) + ident_tree(method) + grouped(
        Delimiter::Parenthesis,
        string_tree(path),
    ) + text_call_code(lexed(".tag"@), args.tag) + text_call_code(
        lexed(".summary"@),
        args.summary,
    ) + text_call_code(lexed(".description"@), args.description) + (if args.deprecated {
        lexed(".deprecated()"@)
    } else {
        Seq::empty()
    })
}

/// The description of the request body.
pub open spec fn body_description(args: OpenApiArgsModel) -> Seq<char> {
    match args.request_desc {
        Some(text) => text,
        None => "Request body"@,
    }
}

/// The statements that document an endpoint on a router.
pub open spec fn docs_code(
    args: OpenApiArgsModel,
    names: SchemaNamesModel,
    method: Seq<char>,
    path: Seq<char>,
) -> Seq<Tok> {
    let calls = concatenated(response_call_codes(args.responses, names.responses));
    match args.request {
        Some(ty) => lexed("let __fields = <"@) + ty.tokens + lexed(
            "as ::sevria_service_kit::http::Endpoint> ::request_fields(); let __body_schema_name ="@,
        ) + string_tree(names.request + "Body"@) + lexed("; let __doc ="@) + path_doc_code(
            args,
            method,
            path,
        ) + lexed(
            ".parameters(::sevria_service_kit::http::parameters_from_fields(&__fields, ::sevria_service_kit::http::Source::Path,)).parameters(::sevria_service_kit::http::parameters_from_fields(&__fields, ::sevria_service_kit::http::Source::Query,)); let __doc = if __fields.iter().any(|f| f.source == ::sevria_service_kit::http::Source::Body)"@,
        ) + grouped(
            Delimiter::Brace,
            lexed("__doc.json_request_with_schema"@) + grouped(
                Delimiter::Parenthesis,
                string_tree(body_description(args)) + lexed(", __body_schema_name"@),
            ),
        ) + lexed("else { __doc }; router.describe"@) + grouped(
            Delimiter::Parenthesis,
            lexed("__doc"@) + calls,
        ) + lexed(
            "; if __fields.iter().any(|f| f.source == ::sevria_service_kit::http::Source::Body) { router.add_schema(__body_schema_name, ::sevria_service_kit::http::body_schema_from_fields(&__fields),); }"@,
        ),
        None => lexed("router.describe"@) + grouped(
            Delimiter::Parenthesis,
            path_doc_code(args, method, path) + calls,
        ) + lexed(";"@),
    }
}

fn text_call(call: &str, text: &Option<String>) -> (stream: TokenStream)
    ensures
        trees(stream) == text_call_code(lexed(call@), maybe(*text)),
{
    match text {
        Some(t) => {
            let mut stream = code(call);
            append(&mut stream, parens(string_literal(t.as_str())));
            stream
        },
        None => TokenStream::new(),
    }
}

fn path_doc(args: &OpenApiArgs, method: &Ident, path: &String) -> (stream: TokenStream)
    ensures
        trees(stream) == path_doc_code(args@, method@, path@),
{
    let mut stream = code("::sevria_service_kit::http::path::");
    append(&mut stream, method.to_tokens());
    append(&mut stream, parens(string_literal(path.as_str())));
    append(&mut stream, text_call(".tag", &args.tag));
    append(&mut stream, text_call(".summary", &args.summary));
    append(&mut stream, text_call(".description", &args.description));
    let deprecated = if args.deprecated {
        code(".deprecated()")
    } else {
        TokenStream::new()
    };
    append(&mut stream, deprecated);
    stream
}

/// The statements that document an endpoint on a router: its parameters and body,
/// which all come from the request type, and its responses.
pub fn gen_docs(args: &OpenApiArgs, names: &SchemaNames, method: &Ident, path: &String) -> (stream:
    TokenStream)
    requires
        names.responses.len() == args.responses.len(),
    ensures
        trees(stream) == docs_code(args@, names@, method@, path@),
{
    let calls = concat(&gen_response_calls(args, names));
    match &args.request {
        Some(ty) => {
            let body_name = join2(names.request.as_str(), "Body");
            let mut body = match &args.request_desc {
                Some(text) => string_literal(text.as_str()),
                None => string_literal("Request body"),
            };
            emit(&mut body, ", __body_schema_name");
            let mut with_body = code("__doc.json_request_with_schema");
            append(&mut with_body, parens(body));
            let mut described = code("__doc");
            append(&mut described, calls);
            let mut stream = code("let __fields = <");
            append(&mut stream, ty.tokens.clone());
            emit(
                &mut stream,
                "as ::sevria_service_kit::http::Endpoint> ::request_fields(); let __body_schema_name =",
            );
            append(&mut stream, string_literal(body_name.as_str()));
            emit(&mut stream, "; let __doc =");
            append(&mut stream, path_doc(args, method, path));
            emit(
                &mut stream,
                ".parameters(::sevria_service_kit::http::parameters_from_fields(&__fields, ::sevria_service_kit::http::Source::Path,)).parameters(::sevria_service_kit::http::parameters_from_fields(&__fields, ::sevria_service_kit::http::Source::Query,)); let __doc = if __fields.iter().any(|f| f.source == ::sevria_service_kit::http::Source::Body)",
            );
            append(&mut stream, braces(with_body));
            emit(&mut stream, "else { __doc }; router.describe");
            append(&mut stream, parens(described));
            emit(
                &mut stream,
                "; if __fields.iter().any(|f| f.source == ::sevria_service_kit::http::Source::Body) { router.add_schema(__body_schema_name, ::sevria_service_kit::http::body_schema_from_fields(&__fields),); }",
            );
            stream
        },
        None => {
            let mut described = path_doc(args, method, path);
            append(&mut described, calls);
            let mut stream = code("router.describe");
            append(&mut stream, parens(described));
            emit(&mut stream, ";");
            stream
        },
    }
}

// ---------------------------------------------------------------------------
// Schemas
// ---------------------------------------------------------------------------

/// The statement that registers the schema of a response type.
pub open spec fn registration_code(entry: ResponseEntryModel, name: Seq<char>) -> Seq<Tok> {
    lexed("router.add_schema"@) + grouped(
        Delimiter::Parenthesis,
        string_tree(name) + lexed(", <"@) + entry_type(entry).tokens + lexed(
            "as ::sevria_service_kit::http::Endpoint> ::json_schema()"@,
        ),
    ) + lexed(";"@)
}

/// The positions at which a name occurs for the first time, in order.
pub open spec fn first_occurrences(names: Seq<Seq<char>>) -> Seq<int>
    decreases names.len(),
{
    if names.len() == 0 {
        Seq::empty()
    } else if names.drop_last().contains(names.last()) {
        first_occurrences(names.drop_last())
    } else {
        first_occurrences(names.drop_last()).push(names.len() - 1)
    }
}

/// The statements that register the schemas of the response types, one for each
/// name.
pub open spec fn registration_codes(
    entries: Seq<ResponseEntryModel>,
    names: Seq<Seq<char>>,
) -> Seq<Seq<Tok>> {
    first_occurrences(names).map_values(|i: int| registration_code(entries[i], names[i]))
}

fn registration(entry: &ResponseEntry, name: &String) -> (stream: TokenStream)
    ensures
        trees(stream) == registration_code(entry@, name@),
{
    let mut args = string_literal(name.as_str());
    emit(&mut args, ", <");
    append(&mut args, type_of_entry(entry).tokens.clone());
    emit(&mut args, "as ::sevria_service_kit::http::Endpoint> ::json_schema()");
    let mut stream = code("router.add_schema");
    append(&mut stream, parens(args));
    emit(&mut stream, ";");
    stream
}

/// Whether the name at a position occurs before it.
fn occurs_before(names: &Vec<String>, i: usize) -> (found: bool)
    requires
        i < names.len(),
    ensures
        found == text_views(names@).take(i as int).contains(text_views(names@)[i as int]),
{
    let ghost views = text_views(names@);
    let mut j: usize = 0;
    while j < i
        invariant
            j <= i < names.len(),
            views == text_views(names@),
            forall|k: int| 0 <= k < j ==> views[k] != views[i as int],
        decreases i - j,
    {
        assert(views[j as int] == names[j as int]@ && views[i as int] == names[i as int]@);
        if names[j] == names[i] {
            assert(views.take(i as int)[j as int] == views[i as int]);
            return true;
        }
        j += 1;
    }
    false
}

/// The statements that register the schemas of the response types, one for each
/// name; the first response with a name counts.
pub fn gen_schema_registrations(args: &OpenApiArgs, names: &SchemaNames) -> (registrations: Vec<
    TokenStream,
>)
    requires
        names.responses.len() == args.responses.len(),
    ensures
        streams(registrations@) == registration_codes(args@.responses, names@.responses),
{
    let ghost entries = args@.responses;
    let ghost views = names@.responses;
    let mut registrations: Vec<TokenStream> = Vec::new();
    let mut i: usize = 0;
    assert(streams(registrations@) =~= first_occurrences(views.take(0)).map_values(
        |j: int| registration_code(entries[j], views[j]),
    ));
    while i < args.responses.len()
        invariant
            i <= args.responses.len(),
            names.responses.len() == args.responses.len(),
            entries == args@.responses,
            views == names@.responses,
            streams(registrations@) == first_occurrences(views.take(i as int)).map_values(
                |j: int| registration_code(entries[j], views[j]),
            ),
        decreases args.responses.len() - i,
    {
        let ghost before = registrations@;
        proof {
            assert(entries[i as int] == args.responses[i as int]@);
            assert(views[i as int] == names.responses[i as int]@);
            assert(views.take(i + 1).drop_last() =~= views.take(i as int));
        }
        if !occurs_before(&names.responses, i) {
            registrations.push(registration(&args.responses[i], &names.responses[i]));
            proof {
                let one = registration_code(entries[i as int], views[i as int]);
                assert(streams(registrations@) =~= streams(before).push(one));
                assert(first_occurrences(views.take(i + 1)).map_values(
                    |j: int| registration_code(entries[j], views[j]),
                ) =~= first_occurrences(views.take(i as int)).map_values(
                    |j: int| registration_code(entries[j], views[j]),
                ).push(one));
            }
        }
        i += 1;
    }
    assert(views.take(i as int) =~= views);
    registrations
}

// ---------------------------------------------------------------------------
// Routes
// ---------------------------------------------------------------------------

/// The path of an endpoint: that of its arguments, or its function's name.
pub open spec fn endpoint_path(args: OpenApiArgsModel, ident: Seq<char>) -> Seq<char> {
    match args.path {
        Some(path) => path,
        None => "/"@ + ident,
    }
}

/// The path of an endpoint.
pub(crate) fn path_of(args: &OpenApiArgs, ident: &Ident) -> (path: String)
    ensures
        path@ == endpoint_path(args@, ident@),
{
    match &args.path {
        Some(path) => path.clone(),
        None => join2("/", ident.to_text().as_str()),
    }
}

/// The function that makes an HTTP response of what a handler returns.
pub open spec fn wrapper_code(result: bool) -> Seq<Tok> {
    if result {
        lexed("::sevria_service_kit::http::result_to_response"@)
    } else {
        lexed("::sevria_service_kit::http::__private::Json"@)
    }
}

/// The function that makes an HTTP response of what a handler returns.
pub(crate) fn wrapper(result: bool) -> (stream: TokenStream)
    ensures
        trees(stream) == wrapper_code(result),
{
    if result {
        code("::sevria_service_kit::http::result_to_response")
    } else {
        code("::sevria_service_kit::http::__private::Json")
    }
}

/// The statement that registers a route whose handler takes the request and the
/// router's state.
pub open spec fn state_route_code(
    request: TypeModel,
    state: TypeModel,
    path: Seq<char>,
    verb: Seq<char>,
    sig: SignatureModel,
) -> Seq<Tok> {
    lexed("<"@) + request.tokens + lexed("> ::__register_route_with_state:: <"@) + state.tokens
        + lexed(", _, _, _>"@) + grouped(
        Delimiter::Parenthesis,
        lexed("router,"@) + string_tree(path) + lexed(", ::sevria_service_kit::http::Method::"@)
            + ident_tree(verb) + lexed(", move |__ctx: ::sevria_service_kit::http::Context<"@)
            + request.tokens + lexed(","@) + state.tokens + lexed("> | async move"@) + grouped(
            Delimiter::Brace,
            wrapper_code(returns_result(sig)) + grouped(
                Delimiter::Parenthesis,
                ident_tree(sig.ident) + lexed("(__ctx).await"@),
            ),
        ) + lexed(","@),
    ) + lexed(";"@)
}

/// The statement that registers a route whose handler takes the request.
pub open spec fn request_route_code(
    request: TypeModel,
    path: Seq<char>,
    verb: Seq<char>,
    sig: SignatureModel,
) -> Seq<Tok> {
    lexed("<"@) + request.tokens + lexed("> ::__register_route"@) + grouped(
        Delimiter::Parenthesis,
        lexed("router,"@) + string_tree(path) + lexed(", ::sevria_service_kit::http::Method::"@)
            + ident_tree(verb) + lexed(", move |__req:"@) + request.tokens + lexed("| async move"@)
            + grouped(
            Delimiter::Brace,
            wrapper_code(returns_result(sig)) + grouped(
                Delimiter::Parenthesis,
                ident_tree(sig.ident) + lexed("(__req).await"@),
            ),
        ) + lexed(","@),
    ) + lexed(";"@)
}

/// The statement that registers a route whose handler takes nothing: the handler
/// as it is, or wrapped where it returns a `Result`.
pub open spec fn bare_route_code(path: Seq<char>, method: Seq<char>, sig: SignatureModel) -> Seq<
    Tok,
> {
    if returns_result(sig) {
        lexed("router.add_route"@) + grouped(
            Delimiter::Parenthesis,
            string_tree(path) + lexed(", ::sevria_service_kit::http::__private::routing::"@)
                + ident_tree(method) + grouped(
                Delimiter::Parenthesis,
                lexed("move || async move"@) + grouped(
                    Delimiter::Brace,
                    lexed("::sevria_service_kit::http::result_to_response"@) + grouped(
                        Delimiter::Parenthesis,
                        ident_tree(sig.ident) + lexed("().await"@),
                    ),
                ),
            ) + lexed(","@),
        ) + lexed(";"@)
    } else {
        lexed("router."@) + ident_tree(method) + grouped(
            Delimiter::Parenthesis,
            string_tree(path) + lexed(","@) + ident_tree(sig.ident),
        ) + lexed(";"@)
    }
}

/// The statement that registers an endpoint's route. With a request type the
/// route is registered through it, with the router's state where the handler asks
/// for that.
pub open spec fn route_code(args: OpenApiArgsModel, sig: SignatureModel) -> Seq<Tok> {
    let path = endpoint_path(args, sig.ident);
    match (args.request, context_types(sig.params)) {
        (Some(request), Some((_, state))) => state_route_code(
            request,
            state,
            path,
            uppercase(args.method),
            sig,
        ),
        (Some(request), None) => request_route_code(request, path, uppercase(args.method), sig),
        (None, _) => bare_route_code(path, lowercase(args.method), sig),
    }
}

fn state_route(
    request: &Type,
    state: &Type,
    path: &String,
    verb: &Ident,
    sig: &Signature,
) -> (stream: TokenStream)
    ensures
        trees(stream) == state_route_code(request@, state@, path@, verb@, sig@),
{
    let mut call = sig.ident.to_tokens();
    emit(&mut call, "(__ctx).await");
    let mut body = wrapper(is_result_return(sig));
    append(&mut body, parens(call));
    let mut params = code("router,");
    append(&mut params, string_literal(path.as_str()));
    emit(&mut params, ", ::sevria_service_kit::http::Method::");
    append(&mut params, verb.to_tokens());
    emit(&mut params, ", move |__ctx: ::sevria_service_kit::http::Context<");
    append(&mut params, request.tokens.clone());
    emit(&mut params, ",");
    append(&mut params, state.tokens.clone());
    emit(&mut params, "> | async move");
    append(&mut params, braces(body));
    emit(&mut params, ",");
    let mut stream = code("<");
    append(&mut stream, request.tokens.clone());
    emit(&mut stream, "> ::__register_route_with_state:: <");
    append(&mut stream, state.tokens.clone());
    emit(&mut stream, ", _, _, _>");
    append(&mut stream, parens(params));
    emit(&mut stream, ";");
    stream
}

fn request_route(request: &Type, path: &String, verb: &Ident, sig: &Signature) -> (stream:
    TokenStream)
    ensures
        trees(stream) == request_route_code(request@, path@, verb@, sig@),
{
    let mut call = sig.ident.to_tokens();
    emit(&mut call, "(__req).await");
    let mut body = wrapper(is_result_return(sig));
    append(&mut body, parens(call));
    let mut params = code("router,");
    append(&mut params, string_literal(path.as_str()));
    emit(&mut params, ", ::sevria_service_kit::http::Method::");
    append(&mut params, verb.to_tokens());
    emit(&mut params, ", move |__req:");
    append(&mut params, request.tokens.clone());
    emit(&mut params, "| async move");
    append(&mut params, braces(body));
    emit(&mut params, ",");
    let mut stream = code("<");
    append(&mut stream, request.tokens.clone());
    emit(&mut stream, "> ::__register_route");
    append(&mut stream, parens(params));
    emit(&mut stream, ";");
    stream
}

fn bare_route(path: &String, method: &Ident, sig: &Signature) -> (stream: TokenStream)
    ensures
        trees(stream) == bare_route_code(path@, method@, sig@),
{
    if is_result_return(sig) {
        let mut call = sig.ident.to_tokens();
        emit(&mut call, "().await");
        let mut body = code("::sevria_service_kit::http::result_to_response");
        append(&mut body, parens(call));
        let mut closure = code("move || async move");
        append(&mut closure, braces(body));
        let mut params = string_literal(path.as_str());
        emit(&mut params, ", ::sevria_service_kit::http::__private::routing::");
        append(&mut params, method.to_tokens());
        append(&mut params, parens(closure));
        emit(&mut params, ",");
        let mut stream = code("router.add_route");
        append(&mut stream, parens(params));
        emit(&mut stream, ";");
        stream
    } else {
        let mut params = string_literal(path.as_str());
        emit(&mut params, ",");
        append(&mut params, sig.ident.to_tokens());
        let mut stream = code("router.");
        append(&mut stream, method.to_tokens());
        append(&mut stream, parens(params));
        emit(&mut stream, ";");
        stream
    }
}

// ---------------------------------------------------------------------------
// The expansion
// ---------------------------------------------------------------------------

/// The arguments with the request type that a handler's `Context` names, where
/// they name none themselves.
pub open spec fn resolved_args(args: OpenApiArgsModel, sig: SignatureModel) -> OpenApiArgsModel {
    match (args.request, context_types(sig.params)) {
        (None, Some((request, _))) => OpenApiArgsModel { request: Some(request), ..args },
        _ => args,
    }
}

/// The name of the function that registers an endpoint.
pub open spec fn register_name(ident: Seq<char>) -> Seq<char> {
    "__openapi_register_"@ + unraw(ident) + ""@
}

/// The name of the constant through which an endpoint is handed to a router.
pub open spec fn handle_name(ident: Seq<char>) -> Seq<char> {
    ""@ + unraw(ident) + "_handle"@
}

/// The statements that register an endpoint: its route, its documentation and its
/// schemas. `args` are its arguments once its request type is known.
pub open spec fn endpoint_body_code(
    args: OpenApiArgsModel,
    sig: SignatureModel,
    names: SchemaNamesModel,
) -> Seq<Tok> {
    route_code(args, sig) + docs_code(
        args,
        names,
        args.method,
        endpoint_path(args, sig.ident),
    ) + concatenated(registration_codes(args.responses, names.responses))
}

/// A function without its attributes `#[endpoint(...)]`.
pub open spec fn stripped_fn_code(item: ItemFnModel) -> Seq<Tok> {
    let attrs = attrs_except(item.attrs, "endpoint"@);
    concatenated(attrs_placed(attrs, false)) + item.vis + item.head + grouped(
        Delimiter::Brace,
        concatenated(attrs_placed(attrs, true)) + item.body,
    )
}

/// The items that come with an endpoint: a function that registers it, and a
/// constant that hands that function out.
pub open spec fn registering_code(
    args: OpenApiArgsModel,
    item: ItemFnModel,
    names: SchemaNamesModel,
) -> Seq<Tok> {
    lexed("#[doc(hidden)] #[allow(non_snake_case)]"@) + item.vis + lexed("fn"@) + ident_tree(register_name(item.sig.ident)) + lexed(
        "(router: &mut ::sevria_service_kit::http::Router)"@,
    ) + grouped(Delimiter::Brace, endpoint_body_code(args, item.sig, names)) + lexed(
        "#[doc(hidden)] #[allow(non_upper_case_globals)]"@,
    ) + item.vis + lexed("const"@) + ident_tree(handle_name(item.sig.ident)) + lexed(
        ": ::sevria_service_kit::http::RouteHandle = ::sevria_service_kit::http::RouteHandle::new"@,
    ) + grouped(Delimiter::Parenthesis, ident_tree(register_name(item.sig.ident))) + lexed(";"@)
}

/// What `#[endpoint(...)]` on a function expands to: the function, and the items
/// that come with it.
pub open spec fn endpoint_fn_code(
    args: OpenApiArgsModel,
    item: ItemFnModel,
    names: SchemaNamesModel,
) -> Seq<Tok> {
    stripped_fn_code(item) + registering_code(args, item, names)
}

/// Whether an HTTP method can stand in code as a name, in each form that the code
/// for an endpoint has it in.
pub open spec fn is_method(method: Seq<char>, upper: bool) -> bool {
    &&& is_ident_text(method)
    &&& is_ident_text(lowercase(method))
    &&& upper ==> is_ident_text(uppercase(method))
}

/// The endpoints that can be expanded: their method has to be a name.
pub open spec fn is_endpoint(args: OpenApiArgsModel, sig: SignatureModel) -> bool {
    is_method(args.method, resolved_args(args, sig).request is Some)
}

fn method_is_name(method: &String, upper: bool) -> (yes: bool)
    ensures
        yes == is_method(method@, upper),
{
    Ident::from_text(method.as_str()).is_some() && Ident::from_text(
        method.as_str().to_lowercase().as_str(),
    ).is_some() && (!upper || Ident::from_text(
        method.as_str().to_uppercase().as_str(),
    ).is_some())
}

/// The arguments with the request type that a handler's `Context` names, where
/// they name none themselves.
pub fn resolve_args(args: OpenApiArgs, sig: &Signature) -> (resolved: OpenApiArgs)
    ensures
        resolved@ == resolved_args(args@, sig@),
{
    let mut resolved = args;
    if resolved.request.is_none() {
        if let Some((request, state)) = parse_context_handler(&sig.params) {
            resolved.request = Some(request);
        }
    }
    resolved
}

/// Whether [`expand_endpoint`] can be called.
pub fn endpoint_is_expandable(args: OpenApiArgs, item: &ItemFn) -> (able: bool)
    ensures
        able == is_endpoint(args@, item@.sig),
{
    let resolved = resolve_args(args, &item.sig);
    method_is_name(&resolved.method, resolved.request.is_some())
}

/// The statement that registers an endpoint's route.
fn route(args: &OpenApiArgs, sig: &Signature) -> (stream: TokenStream)
    requires
        is_method(args@.method, args@.request is Some),
    ensures
        trees(stream) == route_code(args@, sig@),
{
    let path = path_of(args, &sig.ident);
    match &args.request {
        Some(request) => {
            let verb = request_method_ident(&args.method);
            match parse_context_handler(&sig.params) {
                Some((_, state)) => state_route(request, &state, &path, &verb, sig),
                None => request_route(request, &path, &verb, sig),
            }
        },
        None => {
            let method = Ident::from_text(args.method.as_str().to_lowercase().as_str()).unwrap();
            bare_route(&path, &method, sig)
        },
    }
}

/// A function without its attributes `#[endpoint(...)]`.
fn stripped_fn(item: &ItemFn) -> (stream: TokenStream)
    ensures
        trees(stream) == stripped_fn_code(item@),
{
    let mut block = concat(&other_attrs_at(&item.attrs, "endpoint", true));
    append(&mut block, item.body.clone());
    let mut stream = concat(&other_attrs_at(&item.attrs, "endpoint", false));
    append(&mut stream, item.vis.clone());
    append(&mut stream, item.head.clone());
    append(&mut stream, braces(block));
    stream
}

/// Expands `#[endpoint(...)]` on a function, given the arguments with the request
/// type known and the names of the schemas.
pub fn expand_named_endpoint(args: &OpenApiArgs, item: &ItemFn, names: &SchemaNames) -> (stream:
    TokenStream)
    requires
        is_method(args@.method, args@.request is Some),
        names.responses.len() == args.responses.len(),
    ensures
        trees(stream) == endpoint_fn_code(args@, item@, names@),
{
    proof {
        reveal_strlit("");
        reveal_strlit("__openapi_register_");
        reveal_strlit("_handle");
    }
    let register = affixed_ident("__openapi_register_", &item.sig.ident, "");
    let handle = affixed_ident("", &item.sig.ident, "_handle");
    let method = Ident::from_text(args.method.as_str()).unwrap();
    let path = path_of(args, &item.sig.ident);

    let mut body = route(args, &item.sig);
    append(&mut body, gen_docs(args, names, &method, &path));
    append(&mut body, concat(&gen_schema_registrations(args, names)));

    let mut items = code("#[doc(hidden)] #[allow(non_snake_case)]");
    append(&mut items, item.vis.clone());
    emit(&mut items, "fn");
    append(&mut items, register.to_tokens());
    emit(&mut items, "(router: &mut ::sevria_service_kit::http::Router)");
    append(&mut items, braces(body));
    emit(&mut items, "#[doc(hidden)] #[allow(non_upper_case_globals)]");
    append(&mut items, item.vis.clone());
    emit(&mut items, "const");
    append(&mut items, handle.to_tokens());
    emit(
        &mut items,
        ": ::sevria_service_kit::http::RouteHandle = ::sevria_service_kit::http::RouteHandle::new",
    );
    append(&mut items, parens(register.to_tokens()));
    emit(&mut items, ";");

    let mut stream = stripped_fn(item);
    append(&mut stream, items);
    stream
}

/// Whether code is an expansion of `#[endpoint(...)]` on a function, under some
/// names that the schemas can have.
pub open spec fn is_endpoint_code(
    args: OpenApiArgsModel,
    item: ItemFnModel,
    expansion: Seq<Tok>,
) -> bool {
    exists|names: SchemaNamesModel|
        names_fit(resolved_args(args, item.sig), names) && expansion == #[trigger] endpoint_fn_code(
            resolved_args(args, item.sig),
            item,
            names,
        )
}

/// Expands `#[endpoint(...)]` on a function.
pub fn expand_endpoint(args: OpenApiArgs, item: &ItemFn) -> (stream: TokenStream)
    requires
        is_endpoint(args@, item@.sig),
    ensures
        is_endpoint_code(args@, item@, trees(stream)),
{
    let resolved = resolve_args(args, &item.sig);
    let names = schema_names(&resolved);
    assert(names@.responses.len() == names.responses.len());
    assert(resolved@.responses.len() == resolved.responses.len());
    let stream = expand_named_endpoint(&resolved, item, &names);
    assert(trees(stream) == endpoint_fn_code(resolved@, item@, names@));
    stream
}

/// The uses of `#[endpoint(...)]` that can be expanded.
pub open spec fn can_expand_endpoint(attr: Seq<Tok>, item: Seq<Tok>) -> bool {
    endpoint_args(attr) matches Ok(args) ==> (item_fn(item) matches Ok(model) ==> is_endpoint(
        args,
        model.sig,
    ))
}

/// Whether code is an expansion of `#[endpoint(...)]` on a piece of source.
pub open spec fn is_endpoint_expansion(
    attr: Seq<Tok>,
    item: Seq<Tok>,
    expansion: Seq<Tok>,
) -> bool {
    match endpoint_args(attr) {
        Err(m) => expansion == error_reports(m),
        Ok(args) => match item_fn(item) {
            Err(m) => expansion == error_reports(m),
            Ok(model) => is_endpoint_code(args, model, expansion),
        },
    }
}

} // verus!
