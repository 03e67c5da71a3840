//! The code that reads a request type out of an HTTP request.

use crate::fields::{info_views, FieldInfo, FieldInfoModel, SourceKind};
use crate::json::{infer_json_type, json_type_code};

use crate::tokens::{
    affixed_ident, append, bool_code, bool_literal, braces, brackets, code, comma_separated, commas, concat, concatenated,
    emit, grouped, ident_tree, lexed, parens, streams, string_literal, string_tree, trees, unraw,
    Delimiter, Ident, Tok,
};
use proc_macro2::TokenStream;
use vstd::prelude::*;

verus! {

// ---------------------------------------------------------------------------
// The description of the fields
// ---------------------------------------------------------------------------

/// The path of a source.
pub open spec fn source_code(source: SourceKind) -> Seq<Tok> {
    match source {
        SourceKind::Path => lexed("::sevria_service_kit::http::Source::Path"@),
        SourceKind::Query => lexed("::sevria_service_kit::http::Source::Query"@),
        SourceKind::Body => lexed("::sevria_service_kit::http::Source::Body"@),
    }
}

/// The code that describes a field of a request.
pub open spec fn request_field_code(info: FieldInfoModel) -> Seq<Tok> {
    let description = match info.description {
        Some(text) => lexed("Some"@) + grouped(
            Delimiter::Parenthesis,
            string_tree(text) + lexed(".to_string()"@),
        ),
        None => lexed("None"@),
    };
    let example = match info.example {
        Some(text) => lexed("Some"@) + grouped(
            Delimiter::Parenthesis,
            lexed("::sevria_service_kit::__private::serde_json::json!"@) + grouped(
                Delimiter::Parenthesis,
                string_tree(text),
            ),
        ),
        None => lexed("None"@),
    };
    lexed("::sevria_service_kit::http::RequestField"@) + grouped(
        Delimiter::Brace,
        lexed("name:"@) + string_tree(info.json_name) + lexed(".to_string(), source:"@)
            + source_code(info.source) + lexed(", schema:"@) + json_type_code(info.ty) + lexed(
            ", required:"@,
        ) + bool_code(info.required) + lexed(", description:"@) + description + lexed(
            ", example:"@,
        ) + example + lexed(","@),
    )
}

/// The descriptions of all fields.
pub open spec fn request_field_codes(infos: Seq<FieldInfoModel>) -> Seq<Seq<Tok>> {
    infos.map_values(|info: FieldInfoModel| request_field_code(info))
}

/// The function `request_fields`, which lists the fields of a request.
pub open spec fn request_fields_code(infos: Seq<FieldInfoModel>) -> Seq<Tok> {
    lexed(
        "fn request_fields() -> ::std::vec::Vec< ::sevria_service_kit::http::RequestField>"@,
    ) + grouped(
        Delimiter::Brace,
        lexed("::std::vec!"@) + grouped(
            Delimiter::Bracket,
            comma_separated(request_field_codes(infos)),
        ),
    )
}

fn source_path(source: SourceKind) -> (stream: TokenStream)
    ensures
        trees(stream) == source_code(source),
{
    match source {
        SourceKind::Path => code("::sevria_service_kit::http::Source::Path"),
        SourceKind::Query => code("::sevria_service_kit::http::Source::Query"),
        SourceKind::Body => code("::sevria_service_kit::http::Source::Body"),
    }
}

fn request_field(info: &FieldInfo) -> (stream: TokenStream)
    ensures
        trees(stream) == request_field_code(info@),
{
    let description = match &info.description {
        Some(text) => {
            let mut value = string_literal(text.as_str());
            emit(&mut value, ".to_string()");
            let mut some = code("Some");
            append(&mut some, parens(value));
            some
        },
        None => code("None"),
    };
    let example = match &info.example {
        Some(text) => {
            let mut value = code("::sevria_service_kit::__private::serde_json::json!");
            append(&mut value, parens(string_literal(text.as_str())));
            let mut some = code("Some");
            append(&mut some, parens(value));
            some
        },
        None => code("None"),
    };
    let mut content = code("name:");
    append(&mut content, string_literal(info.json_name.as_str()));
    emit(&mut content, ".to_string(), source:");
    append(&mut content, source_path(info.source));
    emit(&mut content, ", schema:");
    append(&mut content, infer_json_type(&info.ty));
    emit(&mut content, ", required:");
    append(&mut content, bool_literal(info.required));
    emit(&mut content, ", description:");
    append(&mut content, description);
    emit(&mut content, ", example:");
    append(&mut content, example);
    emit(&mut content, ",");
    let mut stream = code("::sevria_service_kit::http::RequestField");
    append(&mut stream, braces(content));
    stream
}

/// The function `request_fields`, which lists the fields of a request.
pub fn request_fields_impl(infos: &Vec<FieldInfo>) -> (stream: TokenStream)
    ensures
        trees(stream) == request_fields_code(info_views(infos@)),
{
    let ghost models = info_views(infos@);
    let mut fields: Vec<TokenStream> = Vec::new();
    let mut i: usize = 0;
    while i < infos.len()
        invariant
            i <= infos.len(),
            models == info_views(infos@),
            streams(fields@) =~= request_field_codes(models).take(i as int),
        decreases infos.len() - i,
    {
        let ghost before = fields@;
        fields.push(request_field(&infos[i]));
        assert(streams(fields@) =~= streams(before).push(request_field_code(models[i as int])));
        i += 1;
    }
    assert(request_field_codes(models).take(i as int) =~= request_field_codes(models));
    let mut block = code("::std::vec!");
    append(&mut block, brackets(commas(&fields)));
    let mut stream = code(
        "fn request_fields() -> ::std::vec::Vec< ::sevria_service_kit::http::RequestField>",
    );
    append(&mut stream, braces(block));
    stream
}

// ---------------------------------------------------------------------------
// The handler
// ---------------------------------------------------------------------------

/// The body of a route's closure: it builds the request by `build` and hands it
/// to the handler, wrapped into a `Context` where there is state. Where requests
/// are validated, an invalid one is answered without the handler being called.
pub open spec fn handler_code(validates: bool, build: Seq<Tok>, state: Option<Seq<Tok>>) -> Seq<
    Tok,
> {
    if validates {
        let argument = match state {
            Some(s) => lexed("::sevria_service_kit::http::Context::new"@) + grouped(
                Delimiter::Parenthesis,
                lexed("__request,"@) + s,
            ),
            None => lexed("__request"@),
        };
        lexed("let __request ="@) + build + lexed(
            "; match ::sevria_service_kit::Validate::validate(&__request)"@,
        ) + grouped(
            Delimiter::Brace,
            lexed("Ok(()) => ::sevria_service_kit::http::__private::IntoResponse::into_response"@)
                + grouped(
                Delimiter::Parenthesis,
                lexed("handler"@) + grouped(Delimiter::Parenthesis, argument) + lexed(".await,"@),
            ) + lexed(
                ", Err(__report) => ::sevria_service_kit::http::validation_response(__report),"@,
            ),
        )
    } else {
        let argument = match state {
            Some(s) => lexed("::sevria_service_kit::http::Context::new"@) + grouped(
                Delimiter::Parenthesis,
                build + lexed(","@) + s,
            ),
            None => build,
        };
        lexed("handler"@) + grouped(Delimiter::Parenthesis, argument) + lexed(".await"@)
    }
}

/// The body of a route's closure.
pub fn handler_body(validates: bool, build: TokenStream, state: Option<TokenStream>) -> (stream:
    TokenStream)
    ensures
        trees(stream) == handler_code(
            validates,
            trees(build),
            match state {
                Some(s) => Some(trees(s)),
                None => None,
            },
        ),
{
    if validates {
        let argument = match state {
            Some(s) => {
                let mut args = code("__request,");
                append(&mut args, s);
                let mut context = code("::sevria_service_kit::http::Context::new");
                append(&mut context, parens(args));
                context
            },
            None => code("__request"),
        };
        let mut call = code("handler");
        append(&mut call, parens(argument));
        emit(&mut call, ".await,");
        let mut arms = code(
            "Ok(()) => ::sevria_service_kit::http::__private::IntoResponse::into_response",
        );
        append(&mut arms, parens(call));
        emit(
            &mut arms,
            ", Err(__report) => ::sevria_service_kit::http::validation_response(__report),",
        );
        let mut stream = code("let __request =");
        append(&mut stream, build);
        emit(&mut stream, "; match ::sevria_service_kit::Validate::validate(&__request)");
        append(&mut stream, braces(arms));
        stream
    } else {
        let argument = match state {
            Some(s) => {
                let mut args = build;
                emit(&mut args, ",");
                append(&mut args, s);
                let mut context = code("::sevria_service_kit::http::Context::new");
                append(&mut context, parens(args));
                context
            },
            None => build,
        };
        let mut stream = code("handler");
        append(&mut stream, parens(argument));
        emit(&mut stream, ".await");
        stream
    }
}

// ---------------------------------------------------------------------------
// The parts of a request
// ---------------------------------------------------------------------------

/// The sources of a request, in the order in which they are extracted: the body
/// comes last, since it consumes the request.
pub open spec fn all_sources() -> Seq<SourceKind> {
    seq![SourceKind::Path, SourceKind::Query, SourceKind::Body]
}

/// The fields that come from a source, in order.
pub open spec fn fields_from(infos: Seq<FieldInfoModel>, source: SourceKind) -> Seq<
    FieldInfoModel,
>
    decreases infos.len(),
{
    if infos.len() == 0 {
        Seq::empty()
    } else if infos.last().source == source {
        fields_from(infos.drop_last(), source).push(infos.last())
    } else {
        fields_from(infos.drop_last(), source)
    }
}

/// Those of the given sources that a field comes from, in order.
pub open spec fn used_among(sources: Seq<SourceKind>, infos: Seq<FieldInfoModel>) -> Seq<
    SourceKind,
>
    decreases sources.len(),
{
    if sources.len() == 0 {
        Seq::empty()
    } else if fields_from(infos, sources.last()).len() > 0 {
        used_among(sources.drop_last(), infos).push(sources.last())
    } else {
        used_among(sources.drop_last(), infos)
    }
}

/// The sources that a field comes from, in the order of [`all_sources`].
pub open spec fn used_sources(infos: Seq<FieldInfoModel>) -> Seq<SourceKind> {
    used_among(all_sources(), infos)
}

/// What the name of the struct that holds a part of a request ends in.
pub open spec fn part_suffix(source: SourceKind) -> Seq<char> {
    match source {
        SourceKind::Path => "__RequestPath"@,
        SourceKind::Query => "__RequestQuery"@,
        SourceKind::Body => "__RequestBody"@,
    }
}

/// The name of the struct that holds a part of a request.
pub open spec fn part_name(name: Seq<char>, source: SourceKind) -> Seq<char> {
    ""@ + unraw(name) + part_suffix(source)
}

/// The variable that holds a part of a request.
pub open spec fn part_variable(source: SourceKind) -> Seq<Tok> {
    match source {
        SourceKind::Path => lexed("__path"@),
        SourceKind::Query => lexed("__query"@),
        SourceKind::Body => lexed("__body"@),
    }
}

/// One field of the struct that holds a part of a request.
pub open spec fn part_field_code(info: FieldInfoModel) -> Seq<Tok> {
    concatenated(info.serde_attrs) + lexed("pub"@) + ident_tree(info.ident) + lexed(":"@)
        + info.ty.tokens
}

/// The fields of the struct that holds a part of a request.
pub open spec fn part_field_codes(infos: Seq<FieldInfoModel>) -> Seq<Seq<Tok>> {
    infos.map_values(|info: FieldInfoModel| part_field_code(info))
}

/// The struct that holds a part of a request.
pub open spec fn sub_struct_code(name: Seq<char>, infos: Seq<FieldInfoModel>) -> Seq<Tok> {
    lexed(
        "#[doc(hidden)] #[allow(dead_code, non_camel_case_types)] #[derive(::serde::Deserialize)] struct"@,
    ) + ident_tree(name) + grouped(Delimiter::Brace, comma_separated(part_field_codes(infos)))
}

/// The code that takes a field out of the part of the request it comes from.
pub open spec fn merge_field_code(info: FieldInfoModel) -> Seq<Tok> {
    ident_tree(info.ident) + lexed(":"@) + part_variable(info.source) + lexed("."@) + ident_tree(
        info.ident,
    )
}

/// The same for a list of fields.
pub open spec fn merge_field_codes(infos: Seq<FieldInfoModel>) -> Seq<Seq<Tok>> {
    infos.map_values(|info: FieldInfoModel| merge_field_code(info))
}

/// The fields that come from one of the given sources, source by source.
pub open spec fn fields_by_source(sources: Seq<SourceKind>, infos: Seq<FieldInfoModel>) -> Seq<
    FieldInfoModel,
>
    decreases sources.len(),
{
    if sources.len() == 0 {
        Seq::empty()
    } else {
        fields_by_source(sources.drop_last(), infos) + fields_from(infos, sources.last())
    }
}

/// The struct of each part.
pub open spec fn sub_struct_codes(
    name: Seq<char>,
    sources: Seq<SourceKind>,
    infos: Seq<FieldInfoModel>,
) -> Seq<Seq<Tok>> {
    sources.map_values(
        |source: SourceKind| sub_struct_code(part_name(name, source), fields_from(infos, source)),
    )
}

/// The parameter for a part.
pub open spec fn merge_param_code(name: Seq<char>, source: SourceKind) -> Seq<Tok> {
    part_variable(source) + lexed(":"@) + ident_tree(part_name(name, source))
}

/// The parameter for each part.
pub open spec fn merge_param_codes(name: Seq<char>, sources: Seq<SourceKind>) -> Seq<Seq<Tok>> {
    sources.map_values(|source: SourceKind| merge_param_code(name, source))
}

/// The extractor of a part: its pattern and its type up to the part's struct.
pub open spec fn extractor(source: SourceKind) -> Seq<Tok> {
    match source {
        SourceKind::Path => lexed(
            "::sevria_service_kit::http::__private::Path(__path): ::sevria_service_kit::http::__private::Path<"@,
        ),
        SourceKind::Query => lexed(
            "::sevria_service_kit::http::__private::Query(__query): ::sevria_service_kit::http::__private::Query<"@,
        ),
        SourceKind::Body => lexed(
            "::sevria_service_kit::http::__private::Json(__body): ::sevria_service_kit::http::__private::Json<"@,
        ),
    }
}

/// The closure parameter that extracts a part.
pub open spec fn extract_param_code(name: Seq<char>, source: SourceKind) -> Seq<Tok> {
    extractor(source) + ident_tree(part_name(name, source)) + lexed(">"@)
}

/// The closure parameter for each part.
pub open spec fn extract_param_codes(name: Seq<char>, sources: Seq<SourceKind>) -> Seq<Seq<Tok>> {
    sources.map_values(|source: SourceKind| extract_param_code(name, source))
}

/// The variable of each part.
pub open spec fn part_variables(sources: Seq<SourceKind>) -> Seq<Seq<Tok>> {
    sources.map_values(|source: SourceKind| part_variable(source))
}

// ---------------------------------------------------------------------------
// Routes
// ---------------------------------------------------------------------------

/// The function that puts a request together from its parts.
pub open spec fn merge_fn_code(name: Seq<char>, infos: Seq<FieldInfoModel>) -> Seq<Tok> {
    lexed("#[doc(hidden)] #[allow(dead_code, non_snake_case)] fn __from_request_parts"@) + grouped(
        Delimiter::Parenthesis,
        comma_separated(merge_param_codes(name, used_sources(infos))),
    ) + lexed("-> Self"@) + grouped(
        Delimiter::Brace,
        lexed("Self"@) + grouped(
            Delimiter::Brace,
            comma_separated(merge_field_codes(fields_by_source(used_sources(infos), infos))),
        ),
    )
}

/// The call of that function on the parts that were extracted.
pub open spec fn merge_call_code(name: Seq<char>, infos: Seq<FieldInfoModel>) -> Seq<Tok> {
    ident_tree(name) + lexed("::__from_request_parts"@) + grouped(
        Delimiter::Parenthesis,
        comma_separated(part_variables(used_sources(infos))),
    )
}

/// The closure of a route; `lead` is what it has in front of the parts.
pub open spec fn closure_code(lead: Seq<Tok>, params: Seq<Tok>, body: Seq<Tok>) -> Seq<Tok> {
    grouped(
        Delimiter::Brace,
        lead + params + lexed("| async move"@) + grouped(Delimiter::Brace, body),
    )
}

/// The closure of a route without state.
pub open spec fn plain_closure_code(
    name: Seq<char>,
    infos: Seq<FieldInfoModel>,
    validates: bool,
) -> Seq<Tok> {
    closure_code(
        lexed("let handler = handler.clone(); move |"@),
        comma_separated(extract_param_codes(name, used_sources(infos))),
        handler_code(validates, merge_call_code(name, infos), None),
    )
}

/// The closure of a route with state.
pub open spec fn state_closure_code(
    name: Seq<char>,
    infos: Seq<FieldInfoModel>,
    validates: bool,
) -> Seq<Tok> {
    closure_code(
        lexed(
            "let handler = handler.clone(); move | ::sevria_service_kit::http::__private::State(__axum_state): ::sevria_service_kit::http::__private::State< ::std::sync::Arc<State>> ,"@,
        ),
        comma_separated(extract_param_codes(name, used_sources(infos))),
        handler_code(
            validates,
            merge_call_code(name, infos),
            Some(lexed("(*__axum_state).clone()"@)),
        ),
    )
}

/// The route for one HTTP method.
pub open spec fn route_arm_code(head: Seq<char>, closure: Seq<Tok>, tail: Seq<char>) -> Seq<Tok> {
    lexed(head) + grouped(Delimiter::Parenthesis, closure) + lexed(tail)
}

/// The route for each HTTP method.
pub open spec fn route_arms_code(closure: Seq<Tok>, tail: Seq<char>) -> Seq<Tok> {
    route_arm_code(
        "::sevria_service_kit::http::Method::GET => __axum::routing::get"@,
        closure,
        tail,
    ) + route_arm_code(
        "::sevria_service_kit::http::Method::POST => __axum::routing::post"@,
        closure,
        tail,
    ) + route_arm_code(
        "::sevria_service_kit::http::Method::PUT => __axum::routing::put"@,
        closure,
        tail,
    ) + route_arm_code(
        "::sevria_service_kit::http::Method::PATCH => __axum::routing::patch"@,
        closure,
        tail,
    ) + route_arm_code(
        "::sevria_service_kit::http::Method::DELETE => __axum::routing::delete"@,
        closure,
        tail,
    ) + route_arm_code(
        "::sevria_service_kit::http::Method::OPTIONS => __axum::routing::options"@,
        closure,
        tail,
    ) + route_arm_code(
        "::sevria_service_kit::http::Method::HEAD => __axum::routing::head"@,
        closure,
        tail,
    ) + route_arm_code(
        "::sevria_service_kit::http::Method::TRACE => __axum::routing::trace"@,
        closure,
        tail,
    ) + route_arm_code(
        "::sevria_service_kit::http::Method::CONNECT => __axum::routing::connect"@,
        closure,
        tail,
    )
}

/// The function that registers a route whose handler takes the request.
pub open spec fn register_route_code(name: Seq<char>, vis: Seq<Tok>, closure: Seq<Tok>) -> Seq<
    Tok,
> {
    lexed("#[doc(hidden)] #[allow(dead_code)]"@) + vis + lexed(
        "fn __register_route<F, Fut, R>(router: &mut ::sevria_service_kit::http::Router, path: &str, method: ::sevria_service_kit::http::Method, handler: F,) where F: Fn"@,
    ) + grouped(Delimiter::Parenthesis, ident_tree(name)) + lexed(
        "-> Fut + Clone + Send + Sync + 'static, Fut: ::std::future::Future<Output = R> + Send, R: ::sevria_service_kit::http::__private::IntoResponse + Send + 'static,"@,
    ) + grouped(
        Delimiter::Brace,
        lexed("use ::sevria_service_kit::http::__private as __axum; let route = match method"@)
            + grouped(Delimiter::Brace, route_arms_code(closure, ","@)) + lexed(
            "; router.add_route(path, route);"@,
        ),
    )
}

/// The function that registers a route whose handler takes the request and the
/// router's state.
pub open spec fn register_route_with_state_code(
    name: Seq<char>,
    vis: Seq<Tok>,
    closure: Seq<Tok>,
) -> Seq<Tok> {
    lexed("#[doc(hidden)] #[allow(dead_code)]"@) + vis + lexed(
        "fn __register_route_with_state<State, F, Fut, R>(router: &mut ::sevria_service_kit::http::Router, path: &str, method: ::sevria_service_kit::http::Method, handler: F,) where F: Fn"@,
    ) + grouped(
        Delimiter::Parenthesis,
        lexed("::sevria_service_kit::http::Context<"@) + ident_tree(name) + lexed(", State>"@),
    ) + lexed(
        "-> Fut + Clone + Send + Sync + 'static, Fut: ::std::future::Future<Output = R> + Send, R: ::sevria_service_kit::http::__private::IntoResponse + Send + 'static, State: Clone + Send + Sync + 'static,"@,
    ) + grouped(
        Delimiter::Brace,
        lexed(
            "use ::sevria_service_kit::http::__private as __axum; let __state = router.state_arc:: <State>().expect(\"endpoint handler uses `Context<_, State>` but no matching state was registered (call `Router::with_state(...)`)\",); let route = match method"@,
        ) + grouped(Delimiter::Brace, route_arms_code(closure, ".with_state(__state),"@)) + lexed(
            "; router.add_route(path, route);"@,
        ),
    )
}

/// All that is generated for a request type besides its description.
pub open spec fn request_machinery_code(
    name: Seq<char>,
    vis: Seq<Tok>,
    infos: Seq<FieldInfoModel>,
    validates: bool,
) -> Seq<Tok> {
    concatenated(sub_struct_codes(name, used_sources(infos), infos)) + lexed("impl"@) + ident_tree(
        name,
    ) + grouped(
        Delimiter::Brace,
        merge_fn_code(name, infos) + register_route_code(
            name,
            vis,
            plain_closure_code(name, infos, validates),
        ) + register_route_with_state_code(
            name,
            vis,
            state_closure_code(name, infos, validates),
        ),
    )
}

// ---------------------------------------------------------------------------
// Generating all that
// ---------------------------------------------------------------------------

/// The views of a list of references to fields.
pub open spec fn info_ref_views(infos: Seq<&FieldInfo>) -> Seq<FieldInfoModel> {
    infos.map_values(|info: &FieldInfo| info@)
}

fn part_fields<'a>(infos: &'a Vec<FieldInfo>, source: SourceKind) -> (fields: Vec<&'a FieldInfo>)
    ensures
        info_ref_views(fields@) == fields_from(info_views(infos@), source),
{
    let ghost models = info_views(infos@);
    let mut fields: Vec<&'a FieldInfo> = Vec::new();
    let mut i: usize = 0;
    assert(info_ref_views(fields@) =~= Seq::empty());
    while i < infos.len()
        invariant
            i <= infos.len(),
            models == info_views(infos@),
            info_ref_views(fields@) == fields_from(models.take(i as int), source),
        decreases infos.len() - i,
    {
        assert(models.take(i + 1).drop_last() =~= models.take(i as int));
        let ghost before = fields@;
        if infos[i].source == source {
            fields.push(&infos[i]);
            assert(info_ref_views(fields@) =~= info_ref_views(before).push(models[i as int]));
        }
        i += 1;
    }
    assert(models.take(i as int) =~= models);
    fields
}

fn part_ident(name: &Ident, source: SourceKind) -> (ident: Ident)
    ensures
        ident@ == part_name(name@, source),
{
    proof {
        reveal_strlit("");
        reveal_strlit("__RequestPath");
        reveal_strlit("__RequestQuery");
        reveal_strlit("__RequestBody");
    }
    match source {
        SourceKind::Path => affixed_ident("", name, "__RequestPath"),
        SourceKind::Query => affixed_ident("", name, "__RequestQuery"),
        SourceKind::Body => affixed_ident("", name, "__RequestBody"),
    }
}

fn variable(source: SourceKind) -> (stream: TokenStream)
    ensures
        trees(stream) == part_variable(source),
{
    match source {
        SourceKind::Path => code("__path"),
        SourceKind::Query => code("__query"),
        SourceKind::Body => code("__body"),
    }
}

fn extract_param(name: &Ident, source: SourceKind) -> (stream: TokenStream)
    ensures
        trees(stream) == extract_param_code(name@, source),
{
    let mut stream = match source {
        SourceKind::Path => code(
            "::sevria_service_kit::http::__private::Path(__path): ::sevria_service_kit::http::__private::Path<",
        ),
        SourceKind::Query => code(
            "::sevria_service_kit::http::__private::Query(__query): ::sevria_service_kit::http::__private::Query<",
        ),
        SourceKind::Body => code(
            "::sevria_service_kit::http::__private::Json(__body): ::sevria_service_kit::http::__private::Json<",
        ),
    };
    append(&mut stream, part_ident(name, source).to_tokens());
    emit(&mut stream, ">");
    stream
}

fn merge_param(name: &Ident, source: SourceKind) -> (stream: TokenStream)
    ensures
        trees(stream) == merge_param_code(name@, source),
{
    let mut stream = variable(source);
    emit(&mut stream, ":");
    append(&mut stream, part_ident(name, source).to_tokens());
    stream
}

/// The struct that holds the fields of one part of a request.
pub fn sub_struct_def(ident: &Ident, fields: &Vec<&FieldInfo>) -> (stream: TokenStream)
    ensures
        trees(stream) == sub_struct_code(ident@, info_ref_views(fields@)),
{
    let ghost models = info_ref_views(fields@);
    let mut defs: Vec<TokenStream> = Vec::new();
    let mut i: usize = 0;
    while i < fields.len()
        invariant
            i <= fields.len(),
            models == info_ref_views(fields@),
            streams(defs@) =~= part_field_codes(models).take(i as int),
        decreases fields.len() - i,
    {
        let ghost before = defs@;
        let mut def = concat(&fields[i].serde_attrs);
        emit(&mut def, "pub");
        append(&mut def, fields[i].ident.to_tokens());
        emit(&mut def, ":");
        append(&mut def, fields[i].ty.tokens.clone());
        defs.push(def);
        assert(streams(defs@) =~= streams(before).push(part_field_code(models[i as int])));
        i += 1;
    }
    assert(part_field_codes(models).take(i as int) =~= part_field_codes(models));
    let mut stream = code(
        "#[doc(hidden)] #[allow(dead_code, non_camel_case_types)] #[derive(::serde::Deserialize)] struct",
    );
    append(&mut stream, ident.to_tokens());
    append(&mut stream, braces(commas(&defs)));
    stream
}

fn merge_fields(fields: &Vec<&FieldInfo>, merged: &mut Vec<TokenStream>)
    ensures
        streams(final(merged)@) == streams(old(merged)@) + merge_field_codes(
            info_ref_views(fields@),
        ),
{
    let ghost models = info_ref_views(fields@);
    let mut i: usize = 0;
    assert(streams(merged@) =~= streams(old(merged)@) + merge_field_codes(models.take(0)));
    while i < fields.len()
        invariant
            i <= fields.len(),
            models == info_ref_views(fields@),
            streams(merged@) == streams(old(merged)@) + merge_field_codes(models.take(i as int)),
        decreases fields.len() - i,
    {
        let ghost before = merged@;
        let mut field = fields[i].ident.to_tokens();
        emit(&mut field, ":");
        append(&mut field, variable(fields[i].source));
        emit(&mut field, ".");
        append(&mut field, fields[i].ident.to_tokens());
        merged.push(field);
        proof {
            let one = merge_field_code(models[i as int]);
            assert(streams(merged@) =~= streams(before).push(one));
            assert(merge_field_codes(models.take(i + 1)) =~= merge_field_codes(
                models.take(i as int),
            ).push(one));
        }
        i += 1;
    }
    assert(models.take(i as int) =~= models);
}

/// The code for the parts of a request, list by list.
struct Parts {
    sub_structs: Vec<TokenStream>,
    merge_params: Vec<TokenStream>,
    merge_fields: Vec<TokenStream>,
    extract_params: Vec<TokenStream>,
    variables: Vec<TokenStream>,
}

impl Parts {
    /// Whether the lists are those for the given sources.
    spec fn are_for(
        self,
        name: Seq<char>,
        sources: Seq<SourceKind>,
        infos: Seq<FieldInfoModel>,
    ) -> bool {
        &&& streams(self.sub_structs@) == sub_struct_codes(name, sources, infos)
        &&& streams(self.merge_params@) == merge_param_codes(name, sources)
        &&& streams(self.merge_fields@) == merge_field_codes(fields_by_source(sources, infos))
        &&& streams(self.extract_params@) == extract_param_codes(name, sources)
        &&& streams(self.variables@) == part_variables(sources)
    }
}

fn push_part(parts: &mut Parts, name: &Ident, source: SourceKind, fields: &Vec<&FieldInfo>, Ghost(
    sources,
): Ghost<Seq<SourceKind>>, Ghost(infos): Ghost<Seq<FieldInfoModel>>)
    requires
        old(parts).are_for(name@, sources, infos),
        info_ref_views(fields@) == fields_from(infos, source),
    ensures
        final(parts).are_for(name@, sources.push(source), infos),
{
    let ghost before = *parts;
    let ident = part_ident(name, source);
    parts.sub_structs.push(sub_struct_def(&ident, fields));
    parts.merge_params.push(merge_param(name, source));
    merge_fields(fields, &mut parts.merge_fields);
    parts.extract_params.push(extract_param(name, source));
    parts.variables.push(variable(source));
    proof {
        let more = sources.push(source);
        assert(more.drop_last() =~= sources);
        assert(streams(parts.sub_structs@) =~= sub_struct_codes(name@, more, infos)) by {
            assert(streams(parts.sub_structs@) =~= streams(before.sub_structs@).push(
                sub_struct_code(part_name(name@, source), fields_from(infos, source)),
            ));
        }
        assert(streams(parts.merge_params@) =~= merge_param_codes(name@, more)) by {
            assert(streams(parts.merge_params@) =~= streams(before.merge_params@).push(
                merge_param_code(name@, source),
            ));
        }
        assert(streams(parts.extract_params@) =~= extract_param_codes(name@, more)) by {
            assert(streams(parts.extract_params@) =~= streams(before.extract_params@).push(
                extract_param_code(name@, source),
            ));
        }
        assert(streams(parts.variables@) =~= part_variables(more)) by {
            assert(streams(parts.variables@) =~= streams(before.variables@).push(
                part_variable(source),
            ));
        }
        assert(merge_field_codes(fields_by_source(more, infos)) =~= merge_field_codes(
            fields_by_source(sources, infos),
        ) + merge_field_codes(fields_from(infos, source)));
    }
}

fn request_parts(name: &Ident, infos: &Vec<FieldInfo>) -> (parts: Parts)
    ensures
        parts.are_for(name@, used_sources(info_views(infos@)), info_views(infos@)),
{
    let ghost models = info_views(infos@);
    let sources: [SourceKind; 3] = [SourceKind::Path, SourceKind::Query, SourceKind::Body];
    assert(sources@ =~= all_sources());
    let mut parts = Parts {
        sub_structs: Vec::new(),
        merge_params: Vec::new(),
        merge_fields: Vec::new(),
        extract_params: Vec::new(),
        variables: Vec::new(),
    };
    let mut i: usize = 0;
    proof {
        let none = Seq::<SourceKind>::empty();
        assert(all_sources().take(0) =~= none);
        assert(streams(parts.sub_structs@) =~= sub_struct_codes(name@, none, models));
        assert(streams(parts.merge_params@) =~= merge_param_codes(name@, none));
        assert(streams(parts.merge_fields@) =~= merge_field_codes(fields_by_source(none, models)));
        assert(streams(parts.extract_params@) =~= extract_param_codes(name@, none));
        assert(streams(parts.variables@) =~= part_variables(none));
    }
    while i < 3
        invariant
            i <= 3,
            sources@ == all_sources(),
            models == info_views(infos@),
            parts.are_for(name@, used_among(all_sources().take(i as int), models), models),
        decreases 3 - i,
    {
        let source = sources[i];
        let fields = part_fields(infos, source);
        assert(all_sources().take(i + 1).drop_last() =~= all_sources().take(i as int));
        assert(info_ref_views(fields@).len() == fields.len());
        if fields.len() > 0 {
            push_part(
                &mut parts,
                name,
                source,
                &fields,
                Ghost(used_among(all_sources().take(i as int), models)),
                Ghost(models),
            );
        }
        i += 1;
    }
    assert(all_sources().take(3) =~= all_sources());
    parts
}

fn closure(lead: &str, params: TokenStream, body: TokenStream) -> (stream: TokenStream)
    ensures
        trees(stream) == closure_code(lexed(lead@), trees(params), trees(body)),
{
    let mut content = code(lead);
    append(&mut content, params);
    emit(&mut content, "| async move");
    append(&mut content, braces(body));
    braces(content)
}

fn route_arm(head: &str, closure: &TokenStream, tail: &str) -> (stream: TokenStream)
    ensures
        trees(stream) == route_arm_code(head@, trees(*closure), tail@),
{
    let mut stream = code(head);
    append(&mut stream, parens(closure.clone()));
    emit(&mut stream, tail);
    stream
}

fn route_arms(closure: &TokenStream, tail: &str) -> (arms: TokenStream)
    ensures
        trees(arms) == route_arms_code(trees(*closure), tail@),
{
    let mut arms = route_arm(
        "::sevria_service_kit::http::Method::GET => __axum::routing::get",
        closure,
        tail,
    );
    append(
        &mut arms,
        route_arm("::sevria_service_kit::http::Method::POST => __axum::routing::post", closure, tail),
    );
    append(
        &mut arms,
        route_arm("::sevria_service_kit::http::Method::PUT => __axum::routing::put", closure, tail),
    );
    append(
        &mut arms,
        route_arm("::sevria_service_kit::http::Method::PATCH => __axum::routing::patch", closure, tail),
    );
    append(
        &mut arms,
        route_arm("::sevria_service_kit::http::Method::DELETE => __axum::routing::delete", closure, tail),
    );
    append(
        &mut arms,
        route_arm("::sevria_service_kit::http::Method::OPTIONS => __axum::routing::options", closure, tail),
    );
    append(
        &mut arms,
        route_arm("::sevria_service_kit::http::Method::HEAD => __axum::routing::head", closure, tail),
    );
    append(
        &mut arms,
        route_arm("::sevria_service_kit::http::Method::TRACE => __axum::routing::trace", closure, tail),
    );
    append(
        &mut arms,
        route_arm("::sevria_service_kit::http::Method::CONNECT => __axum::routing::connect", closure, tail),
    );
    arms
}

fn register_route(name: &Ident, vis: &TokenStream, closure: &TokenStream) -> (stream: TokenStream)
    ensures
        trees(stream) == register_route_code(name@, trees(*vis), trees(*closure)),
{
    let mut block = code(
        "use ::sevria_service_kit::http::__private as __axum; let route = match method",
    );
    append(&mut block, braces(route_arms(closure, ",")));
    emit(&mut block, "; router.add_route(path, route);");
    let mut stream = code("#[doc(hidden)] #[allow(dead_code)]");
    append(&mut stream, vis.clone());
    emit(
        &mut stream,
        "fn __register_route<F, Fut, R>(router: &mut ::sevria_service_kit::http::Router, path: &str, method: ::sevria_service_kit::http::Method, handler: F,) where F: Fn",
    );
    append(&mut stream, parens(name.to_tokens()));
    emit(
        &mut stream,
        "-> Fut + Clone + Send + Sync + 'static, Fut: ::std::future::Future<Output = R> + Send, R: ::sevria_service_kit::http::__private::IntoResponse + Send + 'static,",
    );
    append(&mut stream, braces(block));
    stream
}

fn register_route_with_state(name: &Ident, vis: &TokenStream, closure: &TokenStream) -> (stream:
    TokenStream)
    ensures
        trees(stream) == register_route_with_state_code(name@, trees(*vis), trees(*closure)),
{
    let mut context = code("::sevria_service_kit::http::Context<");
    append(&mut context, name.to_tokens());
    emit(&mut context, ", State>");
    let mut block = code(
        "use ::sevria_service_kit::http::__private as __axum; let __state = router.state_arc:: <State>().expect(\"endpoint handler uses `Context<_, State>` but no matching state was registered (call `Router::with_state(...)`)\",); let route = match method",
    );
    append(&mut block, braces(route_arms(closure, ".with_state(__state),")));
    emit(&mut block, "; router.add_route(path, route);");
    let mut stream = code("#[doc(hidden)] #[allow(dead_code)]");
    append(&mut stream, vis.clone());
    emit(
        &mut stream,
        "fn __register_route_with_state<State, F, Fut, R>(router: &mut ::sevria_service_kit::http::Router, path: &str, method: ::sevria_service_kit::http::Method, handler: F,) where F: Fn",
    );
    append(&mut stream, parens(context));
    emit(
        &mut stream,
        "-> Fut + Clone + Send + Sync + 'static, Fut: ::std::future::Future<Output = R> + Send, R: ::sevria_service_kit::http::__private::IntoResponse + Send + 'static, State: Clone + Send + Sync + 'static,",
    );
    append(&mut stream, braces(block));
    stream
}

/// The structs for the parts of a request, the function that puts the request
/// together from them, and the functions that register a route for it.
pub fn request_machinery(
    name: &Ident,
    vis: &TokenStream,
    infos: &Vec<FieldInfo>,
    validates: bool,
) -> (stream: TokenStream)
    ensures
        trees(stream) == request_machinery_code(
            name@,
            trees(*vis),
            info_views(infos@),
            validates,
        ),
{
    let parts = request_parts(name, infos);
    let mut call = name.to_tokens();
    emit(&mut call, "::__from_request_parts");
    append(&mut call, parens(commas(&parts.variables)));

    let mut merged = code("Self");
    append(&mut merged, braces(commas(&parts.merge_fields)));
    let mut merge_fn = code(
        "#[doc(hidden)] #[allow(dead_code, non_snake_case)] fn __from_request_parts",
    );
    append(&mut merge_fn, parens(commas(&parts.merge_params)));
    emit(&mut merge_fn, "-> Self");
    append(&mut merge_fn, braces(merged));

    let plain = closure(
        "let handler = handler.clone(); move |",
        commas(&parts.extract_params),
        handler_body(validates, call.clone(), None),
    );
    let with_state = closure(
        "let handler = handler.clone(); move | ::sevria_service_kit::http::__private::State(__axum_state): ::sevria_service_kit::http::__private::State< ::std::sync::Arc<State>> ,",
        commas(&parts.extract_params),
        handler_body(validates, call, Some(code("(*__axum_state).clone()"))),
    );

    let mut block = merge_fn;
    append(&mut block, register_route(name, vis, &plain));
    append(&mut block, register_route_with_state(name, vis, &with_state));
    let mut stream = concat(&parts.sub_structs);
    emit(&mut stream, "impl");
    append(&mut stream, name.to_tokens());
    append(&mut stream, braces(block));
    stream
}

} // verus!
