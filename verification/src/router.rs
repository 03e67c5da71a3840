//! The expansion of `#[router]` on an `impl` block.

use crate::args::{endpoint_args, OpenApiArgs, OpenApiArgsModel};
use crate::endpoint::{
    docs_code, endpoint_path, gen_docs, gen_schema_registrations, is_result_return, names_fit,
    path_of, registration_codes, request_method_ident, returns_result, schema_names, wrapper,
    wrapper_code, SchemaNames, SchemaNamesModel,
};
use crate::error::{error_reports, MacroError, Messages};
use crate::items::{
    impl_method, item_impl, method_of, param_views, piece_tokens, piece_trees, pieces_trees,
    ItemImpl, ItemImplModel, Method, MethodModel,
    Param, ParamModel, Signature, SignatureModel,
};
use crate::syntax::{
    all_attrs, attribute_models, attribute_views, attributes_of, attrs_except, attrs_placed,
    other_attrs_at, type_model, type_of, AttributeModel, ReadAttribute, Type, TypeModel,
};
use crate::text::{lowercase, uppercase};
use crate::tokens::{
    append, braces, code, concat, concatenated, emit, grouped, ident_tree, is_ident_text, lexed,
    parens, streams, string_literal, string_tree, trees, Delimiter, Ident, Tok,
};
use proc_macro2::{Span, TokenStream};
use vstd::prelude::*;

verus! {

// ---------------------------------------------------------------------------
// The request of a method
// ---------------------------------------------------------------------------

/// The types of the parameters besides the receiver, in order.
pub open spec fn param_types(params: Seq<ParamModel>) -> Seq<Seq<Tok>>
    decreases params.len(),
{
    if params.len() == 0 {
        Seq::empty()
    } else {
        match params.last() {
            ParamModel::Typed(ty) => param_types(params.drop_last()).push(ty),
            ParamModel::Receiver(_) => param_types(params.drop_last()),
        }
    }
}

/// The request type of a method: the type of its one parameter besides the
/// receiver, if it has one.
pub open spec fn inferred_request(sig: SignatureModel) -> Result<Option<TypeModel>, Messages> {
    let types = param_types(sig.params);
    if types.len() == 0 {
        Ok(None)
    } else if types.len() == 1 {
        Ok(Some(type_model(types[0])))
    } else {
        Err(
            seq![
                "endpoint methods take `self` and at most one request parameter; specify `request = T` explicitly"@,
            ],
        )
    }
}

fn types_of_params(params: &Vec<Param>) -> (types: Vec<TokenStream>)
    ensures
        streams(types@) == param_types(param_views(params@)),
{
    let ghost models = param_views(params@);
    let mut types: Vec<TokenStream> = Vec::new();
    let mut i: usize = 0;
    assert(streams(types@) =~= Seq::empty());
    while i < params.len()
        invariant
            i <= params.len(),
            models == param_views(params@),
            streams(types@) == param_types(models.take(i as int)),
        decreases params.len() - i,
    {
        assert(models[i as int] == params[i as int]@);
        assert(models.take(i + 1).drop_last() =~= models.take(i as int));
        let ghost before = types@;
        if let Param::Typed(ty) = &params[i] {
            types.push(ty.clone());
            assert(streams(types@) =~= streams(before).push(trees(*ty)));
        }
        i += 1;
    }
    assert(models.take(i as int) =~= models);
    types
}

/// The request type of a method: the type of its one parameter besides the
/// receiver, as in `async fn greet(self, req: GreetingRequest)`.
pub fn infer_method_request(sig: &Signature) -> (request: Result<Option<Type>, MacroError>)
    ensures
        request matches Ok(Some(ty)) ==> (inferred_request(sig@) matches Ok(Some(t)) && t == ty@),
        request matches Ok(None) ==> (inferred_request(sig@) matches Ok(t) && t is None),
        request matches Err(e) ==> (inferred_request(sig@) matches Err(m) && m == e@) && e.place() == sig.span,
{
    let types = types_of_params(&sig.params);
    assert(streams(types@).len() == types.len());
    if types.len() == 0 {
        Ok(None)
    } else if types.len() == 1 {
        assert(streams(types@)[0] == trees(types[0]));
        Ok(Some(type_of(types[0].clone())))
    } else {
        Err(
            MacroError::new(
                sig.span,
                "endpoint methods take `self` and at most one request parameter; specify `request = T` explicitly".to_owned(),
            ),
        )
    }
}

/// Whether a method takes `self` by value.
pub open spec fn takes_self(sig: SignatureModel) -> bool {
    sig.params.len() > 0 && sig.params[0] == ParamModel::Receiver(true)
}

/// The request type of an endpoint method: that of its arguments, or that of its
/// signature.
pub open spec fn method_request(args: OpenApiArgsModel, sig: SignatureModel) -> Result<
    Option<TypeModel>,
    Messages,
> {
    if !takes_self(sig) {
        Err(seq!["`#[endpoint]` methods must take `self` by value"@])
    } else if args.request is Some {
        Ok(args.request)
    } else {
        inferred_request(sig)
    }
}

/// The arguments of an endpoint method with its request type.
pub open spec fn method_args(args: OpenApiArgsModel, sig: SignatureModel) -> Result<
    OpenApiArgsModel,
    Messages,
> {
    match method_request(args, sig) {
        Err(m) => Err(m),
        Ok(request) => Ok(OpenApiArgsModel { request, ..args }),
    }
}

fn consumes_self(sig: &Signature) -> (yes: bool)
    ensures
        yes == takes_self(sig@),
{
    assert(sig@.params.len() == sig.params.len());
    if sig.params.len() > 0 {
        assert(sig@.params[0] == sig.params[0]@);
        match &sig.params[0] {
            Param::Receiver(by_value, _) => *by_value,
            Param::Typed(_) => false,
        }
    } else {
        false
    }
}

/// The place of a method's receiver, or of its signature where it has none.
pub open spec fn receiver_place(sig: Signature) -> Span {
    if sig.params.len() > 0 && sig.params[0] is Receiver {
        sig.params[0]->Receiver_1
    } else {
        sig.span
    }
}

/// The place of a method's receiver, or of its signature where it has none.
fn receiver_span(sig: &Signature) -> (span: Span)
    ensures
        span == receiver_place(*sig),
{
    if sig.params.len() > 0 {
        if let Param::Receiver(_, span) = &sig.params[0] {
            return *span;
        }
    }
    sig.span
}

/// Where a complaint about the signature of an endpoint method is reported.
pub open spec fn signature_place(sig: Signature) -> Span {
    if takes_self(sig@) {
        sig.span
    } else {
        receiver_place(sig)
    }
}

/// The arguments of an endpoint method with its request type: that of the
/// arguments themselves, or that of the signature.
pub fn resolve_method_args(args: OpenApiArgs, sig: &Signature) -> (resolved: Result<
    OpenApiArgs,
    MacroError,
>)
    ensures
        resolved matches Ok(r) ==> (method_args(args@, sig@) matches Ok(model) && model == r@),
        resolved matches Err(e) ==> (method_args(args@, sig@) matches Err(m) && m == e@)
            && e.place() == signature_place(*sig),
{
    if !consumes_self(sig) {
        return Err(
            MacroError::new(
                receiver_span(sig),
                "`#[endpoint]` methods must take `self` by value".to_owned(),
            ),
        );
    }
    let mut resolved = args;
    if resolved.request.is_none() {
        match infer_method_request(sig) {
            Ok(request) => {
                resolved.request = request;
            },
            Err(error) => return Err(error),
        }
    }
    Ok(resolved)
}

// ---------------------------------------------------------------------------
// The registration of a method
// ---------------------------------------------------------------------------

/// A closure that calls the method on a copy of the router: `params` and `body`
/// are what it takes and does.
pub open spec fn method_closure_code(params: Seq<Tok>, body: Seq<Tok>) -> Seq<Tok> {
    grouped(
        Delimiter::Brace,
        lexed("let this = self.clone(); move"@) + params + grouped(
            Delimiter::Brace,
            lexed("let this = this.clone(); async move"@) + grouped(Delimiter::Brace, body),
        ),
    )
}

/// The statement that registers the route of a method that takes a request.
pub open spec fn method_request_route_code(
    request: TypeModel,
    path: Seq<char>,
    verb: Seq<char>,
    sig: SignatureModel,
) -> Seq<Tok> {
    lexed("<"@) + request.tokens + lexed("> ::__register_route"@) + grouped(
        Delimiter::Parenthesis,
        lexed("&mut router,"@) + string_tree(path) + lexed(
            ", ::sevria_service_kit::http::Method::"@,
        ) + ident_tree(verb) + lexed(","@) + method_closure_code(
            lexed("|__req:"@) + request.tokens + lexed("|"@),
            wrapper_code(returns_result(sig)) + grouped(
                Delimiter::Parenthesis,
                lexed("this."@) + ident_tree(sig.ident) + lexed("(__req).await"@),
            ),
        ) + lexed(","@),
    ) + lexed(";"@)
}

/// The statement that registers the route of a method that takes no request.
pub open spec fn method_bare_route_code(
    path: Seq<char>,
    method: Seq<char>,
    sig: SignatureModel,
) -> Seq<Tok> {
    let call = lexed("this."@) + ident_tree(sig.ident) + lexed("().await"@);
    if returns_result(sig) {
        lexed("router.add_route"@) + grouped(
            Delimiter::Parenthesis,
            string_tree(path) + lexed(", ::sevria_service_kit::http::__private::routing::"@)
                + ident_tree(method) + grouped(
                Delimiter::Parenthesis,
                method_closure_code(
                    lexed("||"@),
                    lexed("::sevria_service_kit::http::result_to_response"@) + grouped(
                        Delimiter::Parenthesis,
                        call,
                    ),
                ) + lexed(","@),
            ) + lexed(","@),
        ) + lexed(";"@)
    } else {
        lexed("router."@) + ident_tree(method) + grouped(
            Delimiter::Parenthesis,
            string_tree(path) + lexed(","@) + method_closure_code(lexed("||"@), call) + lexed(","@),
        ) + lexed(";"@)
    }
}

/// The statements that register an endpoint method: its route, its documentation
/// and its schemas. `args` are its arguments once its request type is known.
pub open spec fn method_registration_code(
    args: OpenApiArgsModel,
    sig: SignatureModel,
    names: SchemaNamesModel,
) -> Seq<Tok> {
    let path = endpoint_path(args, sig.ident);
    grouped(
        Delimiter::Brace,
        (match args.request {
            Some(ty) => method_request_route_code(ty, path, uppercase(args.method), sig),
            None => method_bare_route_code(path, lowercase(args.method), sig),
        }) + docs_code(args, names, args.method, path) + concatenated(
            registration_codes(args.responses, names.responses),
        ),
    )
}

/// Whether the HTTP method of an endpoint method can stand in code as a name, in
/// each form that the code has it in.
pub open spec fn has_method_name(args: OpenApiArgsModel, sig: SignatureModel) -> bool {
    takes_self(sig) ==> {
        &&& is_ident_text(args.method)
        &&& is_ident_text(uppercase(args.method))
        &&& (method_request(args, sig) matches Ok(request) && request is None) ==> is_ident_text(
            lowercase(args.method),
        )
    }
}

fn method_closure(params: TokenStream, body: TokenStream) -> (stream: TokenStream)
    ensures
        trees(stream) == method_closure_code(trees(params), trees(body)),
{
    let mut inner = code("let this = this.clone(); async move");
    append(&mut inner, braces(body));
    let mut outer = code("let this = self.clone(); move");
    append(&mut outer, params);
    append(&mut outer, braces(inner));
    braces(outer)
}

fn method_request_route(request: &Type, path: &String, verb: &Ident, sig: &Signature) -> (stream:
    TokenStream)
    ensures
        trees(stream) == method_request_route_code(request@, path@, verb@, sig@),
{
    let mut call = code("this.");
    append(&mut call, sig.ident.to_tokens());
    emit(&mut call, "(__req).await");
    let mut body = wrapper(is_result_return(sig));
    append(&mut body, parens(call));
    let mut params = code("|__req:");
    append(&mut params, request.tokens.clone());
    emit(&mut params, "|");
    let mut args = code("&mut router,");
    append(&mut args, string_literal(path.as_str()));
    emit(&mut args, ", ::sevria_service_kit::http::Method::");
    append(&mut args, verb.to_tokens());
    emit(&mut args, ",");
    append(&mut args, method_closure(params, body));
    emit(&mut args, ",");
    let mut stream = code("<");
    append(&mut stream, request.tokens.clone());
    emit(&mut stream, "> ::__register_route");
    append(&mut stream, parens(args));
    emit(&mut stream, ";");
    stream
}

fn method_bare_route(path: &String, method: &Ident, sig: &Signature) -> (stream: TokenStream)
    ensures
        trees(stream) == method_bare_route_code(path@, method@, sig@),
{
    let mut call = code("this.");
    append(&mut call, sig.ident.to_tokens());
    emit(&mut call, "().await");
    let mut args = string_literal(path.as_str());
    let mut stream = if is_result_return(sig) {
        let mut body = code("::sevria_service_kit::http::result_to_response");
        append(&mut body, parens(call));
        let mut handler = method_closure(code("||"), body);
        emit(&mut handler, ",");
        emit(&mut args, ", ::sevria_service_kit::http::__private::routing::");
        append(&mut args, method.to_tokens());
        append(&mut args, parens(handler));
        code("router.add_route")
    } else {
        emit(&mut args, ",");
        append(&mut args, method_closure(code("||"), call));
        let mut head = code("router.");
        append(&mut head, method.to_tokens());
        head
    };
    emit(&mut args, ",");
    append(&mut stream, parens(args));
    emit(&mut stream, ";");
    stream
}

/// The statements that register an endpoint method, in one block. A request type
/// that the signature gives counts as one that the arguments give.
pub fn build_method_registration(sig: &Signature, args: OpenApiArgs, names: &SchemaNames) -> (block:
    Result<TokenStream, MacroError>)
    requires
        has_method_name(args@, sig@),
        names.responses.len() == args.responses.len(),
    ensures
        block matches Ok(b) ==> (method_args(args@, sig@) matches Ok(resolved) && trees(b)
            == method_registration_code(resolved, sig@, names@)),
        block matches Err(e) ==> (method_args(args@, sig@) matches Err(m) && m == e@) && e.place() == signature_place(*sig),
{
    assert(args@.responses.len() == args.responses.len());
    let resolved = match resolve_method_args(args, sig) {
        Ok(resolved) => resolved,
        Err(error) => return Err(error),
    };
    assert(resolved@.responses.len() == resolved.responses.len());
    let path = path_of(&resolved, &sig.ident);
    let method = Ident::from_text(resolved.method.as_str()).unwrap();
    let verb = request_method_ident(&resolved.method);
    let mut block = match &resolved.request {
        Some(ty) => method_request_route(ty, &path, &verb, sig),
        None => {
            let lower = Ident::from_text(resolved.method.as_str().to_lowercase().as_str()).unwrap();
            method_bare_route(&path, &lower, sig)
        },
    };
    append(&mut block, gen_docs(&resolved, names, &method, &path));
    append(&mut block, concat(&gen_schema_registrations(&resolved, names)));
    Ok(braces(block))
}

// ---------------------------------------------------------------------------
// The items of the block
// ---------------------------------------------------------------------------

/// The first attribute with the given name.
pub open spec fn first_named(attrs: Seq<AttributeModel>, name: Seq<char>) -> Option<AttributeModel>
    decreases attrs.len(),
{
    if attrs.len() == 0 {
        None
    } else if attrs[0].is(name) {
        Some(attrs[0])
    } else {
        first_named(attrs.skip(1), name)
    }
}

/// The attribute `#[endpoint(...)]` of a method; the first one counts.
pub open spec fn endpoint_attr(method: MethodModel) -> Option<AttributeModel> {
    first_named(attribute_models(method.attrs), "endpoint"@)
}

/// The arguments in an attribute `#[endpoint(...)]`.
pub open spec fn attr_args(attr: AttributeModel) -> Result<OpenApiArgsModel, Messages> {
    match attr.meta->0.args {
        Err(m) => Err(m),
        Ok(tokens) => endpoint_args(tokens),
    }
}

/// What is to be registered for an item: an endpoint method, with its arguments
/// once its request type is known.
pub struct Plan {
    pub args: OpenApiArgsModel,
    pub sig: SignatureModel,
}

/// What is to be registered for an item: nothing unless it is a method with
/// `#[endpoint(...)]`.
pub open spec fn item_plan(item: Seq<Tok>) -> Result<Option<Plan>, Messages> {
    match impl_method(item) {
        None => Ok(None),
        Some(method) => match endpoint_attr(method) {
            None => Ok(None),
            Some(attr) => match attr_args(attr) {
                Err(m) => Err(m),
                Ok(args) => match method_args(args, method.sig) {
                    Err(m) => Err(m),
                    Ok(resolved) => Ok(Some(Plan { args: resolved, sig: method.sig })),
                },
            },
        },
    }
}

/// Whether an item can be expanded: the HTTP method of an endpoint has to be a
/// name.
pub open spec fn is_expandable(item: Seq<Tok>) -> bool {
    impl_method(item) matches Some(method) ==> (endpoint_attr(method) matches Some(attr) ==> (
    attr_args(attr) matches Ok(args) ==> has_method_name(args, method.sig)))
}

/// A method without its attributes `#[endpoint(...)]`.
pub open spec fn stripped_code(method: MethodModel) -> Seq<Tok> {
    let attrs = attrs_except(method.attrs, "endpoint"@);
    concatenated(attrs_placed(attrs, false)) + method.head + grouped(
        Delimiter::Brace,
        concatenated(attrs_placed(attrs, true)) + method.body,
    )
}

/// What stays of an item: all of it but the attributes `#[endpoint(...)]`.
pub open spec fn kept_code(item: Seq<Tok>) -> Seq<Tok> {
    match impl_method(item) {
        Some(method) => if endpoint_attr(method) is Some {
            stripped_code(method)
        } else {
            item
        },
        None => item,
    }
}

/// What stays of each item.
pub open spec fn kept_codes(items: Seq<Seq<Tok>>) -> Seq<Seq<Tok>> {
    items.map_values(|item: Seq<Tok>| kept_code(item))
}

/// The complaint about the first item that there is one about.
pub open spec fn first_fault(items: Seq<Seq<Tok>>) -> Option<Messages>
    decreases items.len(),
{
    if items.len() == 0 {
        None
    } else if first_fault(items.drop_last()) is Some {
        first_fault(items.drop_last())
    } else {
        match item_plan(items.last()) {
            Err(m) => Some(m),
            Ok(_) => None,
        }
    }
}

/// The registrations of the endpoints among the items, in order; `names` gives
/// the names of the schemas that each item mentions.
pub open spec fn item_registrations(
    items: Seq<Seq<Tok>>,
    names: Seq<SchemaNamesModel>,
) -> Seq<Seq<Tok>>
    decreases items.len(),
{
    if items.len() == 0 {
        Seq::empty()
    } else {
        let before = item_registrations(items.drop_last(), names);
        match item_plan(items.last()) {
            Ok(Some(plan)) => before.push(
                method_registration_code(plan.args, plan.sig, names[items.len() - 1]),
            ),
            _ => before,
        }
    }
}

/// Whether the schemas that the items mention can have these names.
pub open spec fn item_names_fit(items: Seq<Seq<Tok>>, names: Seq<SchemaNamesModel>) -> bool {
    &&& names.len() == items.len()
    &&& forall|i: int|
        0 <= i < items.len() ==> (item_plan(#[trigger] items[i]) matches Ok(Some(plan))
            ==> names_fit(plan.args, names[i]))
}

fn first_named_attr(list: Vec<ReadAttribute>, name: &str) -> (attr: Option<ReadAttribute>)
    ensures
        attr matches Some(a) ==> first_named(attribute_views(list@), name@) == Some(a@),
        attr is None ==> first_named(attribute_views(list@), name@) is None,
{
    let ghost models = attribute_views(list@);
    let mut attrs = list;
    let mut i: usize = 0;
    assert(models.skip(0) =~= models);
    while i < attrs.len()
        invariant
            i <= attrs.len(),
            attrs@ == list@,
            models == attribute_views(list@),
            first_named(models.skip(i as int), name@) == first_named(models, name@),
        decreases attrs.len() - i,
    {
        proof {
            assert(models[i as int] == attrs[i as int]@);
            assert(models.skip(i as int)[0] == models[i as int]);
            assert(models.skip(i as int).skip(1) =~= models.skip(i + 1));
        }
        if attrs[i].is(name) {
            return Some(attrs.remove(i));
        }
        i += 1;
    }
    None
}

/// A method without its attributes `#[endpoint(...)]`.
fn stripped(method: &Method) -> (stream: TokenStream)
    ensures
        trees(stream) == stripped_code(method@),
{
    let mut block = concat(&other_attrs_at(&method.attrs, "endpoint", true));
    append(&mut block, method.body.clone());
    let mut stream = concat(&other_attrs_at(&method.attrs, "endpoint", false));
    append(&mut stream, method.head.clone());
    append(&mut stream, braces(block));
    stream
}

/// The arguments in an attribute `#[endpoint(...)]`.
fn args_in(attr: ReadAttribute) -> (args: Result<OpenApiArgs, MacroError>)
    requires
        attr@.meta is Some,
    ensures
        args matches Ok(a) ==> (attr_args(attr@) matches Ok(model) && model == a@),
        args matches Err(e) ==> (attr_args(attr@) matches Err(m) && m == e@),
{
    let meta = attr.meta.unwrap();
    match meta.args {
        Ok(tokens) => OpenApiArgs::parse(tokens, meta.end),
        Err(error) => Err(MacroError::Syntax(error)),
    }
}

/// What an item expands to: what stays of it, and its registration if it is an
/// endpoint.
struct Expanded {
    kept: TokenStream,
    registration: Option<TokenStream>,
    names: Ghost<SchemaNamesModel>,
}

fn expand_item(item: &syn::ImplItem) -> (expanded: Result<Expanded, MacroError>)
    requires
        is_expandable(piece_trees(*item)),
    ensures
        expanded matches Err(e) ==> (item_plan(piece_trees(*item)) matches Err(m) && m == e@),
        expanded matches Ok(x) ==> trees(x.kept) == kept_code(piece_trees(*item)) && (
        match item_plan(piece_trees(*item)) {
            Err(_) => false,
            Ok(None) => x.registration is None,
            Ok(Some(plan)) => x.registration is Some && names_fit(plan.args, x.names@) && trees(
                x.registration->0,
            ) == method_registration_code(plan.args, plan.sig, x.names@),
        }),
{
    let none = Ghost(SchemaNamesModel { request: Seq::empty(), responses: Seq::empty() });
    let method = match method_of(item) {
        Some(method) => method,
        None => return Ok(Expanded { kept: piece_tokens(item), registration: None, names: none }),
    };
    let attr = match first_named_attr(attributes_of(&method.attrs), "endpoint") {
        Some(attr) => attr,
        None => return Ok(Expanded { kept: piece_tokens(item), registration: None, names: none }),
    };
    proof {
        lemma_first_named(attribute_models(method@.attrs), "endpoint"@);
    }
    let args = match args_in(attr) {
        Ok(args) => args,
        Err(error) => return Err(error),
    };
    let args = match resolve_method_args(args, &method.sig) {
        Ok(args) => args,
        Err(error) => return Err(error),
    };
    let names = schema_names(&args);
    assert(names@.responses.len() == names.responses.len());
    assert(args@.responses.len() == args.responses.len());
    match build_method_registration(&method.sig, args, &names) {
        Ok(registration) => Ok(
            Expanded {
                kept: stripped(&method),
                registration: Some(registration),
                names: Ghost(names@),
            },
        ),
        Err(error) => Err(error),
    }
}

/// An attribute that is found by its name has that name.
pub proof fn lemma_first_named(attrs: Seq<AttributeModel>, name: Seq<char>)
    ensures
        first_named(attrs, name) matches Some(attr) ==> attr.is(name),
    decreases attrs.len(),
{
    if attrs.len() > 0 {
        lemma_first_named(attrs.skip(1), name);
    }
}

// ---------------------------------------------------------------------------
// The expansion
// ---------------------------------------------------------------------------

/// The method that builds the router out of the registrations.
pub open spec fn into_router_code(registrations: Seq<Seq<Tok>>) -> Seq<Tok> {
    lexed(
        "#[doc = \" Build the router: registers every `#[endpoint]` route plus its\"] #[doc = \" OpenAPI metadata. The router struct must be `Clone` so each route\"] #[doc = \" can capture a copy of it.\"] pub fn into_router(self) -> ::sevria_service_kit::http::Router"@,
    ) + grouped(
        Delimiter::Brace,
        lexed("let mut router = ::sevria_service_kit::http::Router::new();"@) + concatenated(
            registrations,
        ) + lexed("router"@),
    )
}

/// The `impl` block that `#[router]` expands to: what stays of the items, and the
/// method that builds the router. All attributes come in front of the block.
pub open spec fn router_impl_code(item: ItemImplModel, names: Seq<SchemaNamesModel>) -> Seq<Tok> {
    concatenated(item.attrs) + item.defaultness + item.unsafety + lexed("impl"@) + item.polarity
        + item.generics + item.self_ty + item.where_clause + grouped(
        Delimiter::Brace,
        concatenated(kept_codes(item.items)) + into_router_code(
            item_registrations(item.items, names),
        ),
    )
}

/// Whether code is an expansion of `#[router]` on an `impl` block, under some
/// names that the schemas can have.
pub open spec fn is_router_code(item: ItemImplModel, expansion: Seq<Tok>) -> bool {
    match first_fault(item.items) {
        Some(m) => expansion == error_reports(m),
        None => exists|names: Seq<SchemaNamesModel>|
            item_names_fit(item.items, names) && expansion == #[trigger] router_impl_code(
                item,
                names,
            ),
    }
}

/// The `impl` blocks that can be expanded. The items are looked at in order, and
/// none of them once there is a complaint about an earlier one.
pub open spec fn is_router(item: ItemImplModel) -> bool {
    forall|i: int|
        0 <= i < item.items.len() && first_fault(item.items.take(i)) is None ==> is_expandable(
            #[trigger] item.items[i],
        )
}

/// Once there is a complaint about an item, it stands.
pub proof fn lemma_first_fault_prefix(items: Seq<Seq<Tok>>, i: int)
    requires
        0 <= i <= items.len(),
        first_fault(items.take(i)) is Some,
    ensures
        first_fault(items) == first_fault(items.take(i)),
    decreases items.len() - i,
{
    if i < items.len() {
        assert(items.take(i + 1).drop_last() =~= items.take(i));
        lemma_first_fault_prefix(items, i + 1);
    } else {
        assert(items.take(i) =~= items);
    }
}

/// The registrations depend on the names of their own items only.
proof fn lemma_registrations_extend(
    items: Seq<Seq<Tok>>,
    names: Seq<SchemaNamesModel>,
    more: Seq<SchemaNamesModel>,
)
    requires
        names.len() >= items.len(),
        more.len() >= items.len(),
        forall|i: int| 0 <= i < items.len() ==> names[i] == more[i],
    ensures
        item_registrations(items, names) == item_registrations(items, more),
    decreases items.len(),
{
    if items.len() > 0 {
        lemma_registrations_extend(items.drop_last(), names, more);
    }
}

/// Expands `#[router]` on an `impl` block.
pub fn expand_router(item: &ItemImpl) -> (stream: TokenStream)
    requires
        is_router(item@),
    ensures
        is_router_code(item@, trees(stream)),
{
    let ghost items = item@.items;
    let ghost mut names: Seq<SchemaNamesModel> = Seq::empty();
    let mut kept: Vec<TokenStream> = Vec::new();
    let mut registrations: Vec<TokenStream> = Vec::new();
    let mut i: usize = 0;
    assert(streams(registrations@) =~= Seq::empty());
    while i < item.items.len()
        invariant
            i <= item.items.len(),
            is_router(item@),
            items == item@.items,
            items == pieces_trees(item.items@),
            first_fault(items.take(i as int)) is None,
            item_names_fit(items.take(i as int), names),
            streams(kept@) =~= kept_codes(items).take(i as int),
            streams(registrations@) == item_registrations(items.take(i as int), names),
        decreases item.items.len() - i,
    {
        let ghost taken = items.take(i as int);
        let ghost next = items.take(i + 1);
        proof {
            assert(items[i as int] == piece_trees(item.items[i as int]));
            assert(next.drop_last() =~= taken);
            assert(next.last() == items[i as int]);
        }
        let expanded = match expand_item(&item.items[i]) {
            Ok(expanded) => expanded,
            Err(error) => {
                proof {
                    lemma_first_fault_prefix(items, i + 1);
                }
                return error.to_compile_error();
            },
        };
        let ghost old_names = names;
        proof {
            names = names.push(expanded.names@);
            lemma_registrations_extend(taken, old_names, names);
            assert forall|j: int| 0 <= j < next.len() implies (item_plan(
                #[trigger] next[j],
            ) matches Ok(Some(plan)) ==> names_fit(plan.args, names[j])) by {
                if j < i {
                    assert(next[j] == taken[j]);
                }
            }
        }
        let ghost before = kept@;
        kept.push(expanded.kept);
        assert(streams(kept@) =~= streams(before).push(kept_code(items[i as int])));
        let ghost done = registrations@;
        if let Some(registration) = expanded.registration {
            registrations.push(registration);
            assert(streams(registrations@) =~= streams(done).push(trees(registration)));
        }
        i += 1;
    }
    proof {
        assert(items.take(i as int) =~= items);
        assert(kept_codes(items).take(i as int) =~= kept_codes(items));
    }
    let mut body = code("let mut router = ::sevria_service_kit::http::Router::new();");
    append(&mut body, concat(&registrations));
    emit(&mut body, "router");
    let mut block = concat(&kept);
    let mut into_router = code(
        "#[doc = \" Build the router: registers every `#[endpoint]` route plus its\"] #[doc = \" OpenAPI metadata. The router struct must be `Clone` so each route\"] #[doc = \" can capture a copy of it.\"] pub fn into_router(self) -> ::sevria_service_kit::http::Router",
    );
    append(&mut into_router, braces(body));
    append(&mut block, into_router);
    let mut stream = concat(&all_attrs(&item.attrs));
    append(&mut stream, item.defaultness.clone());
    append(&mut stream, item.unsafety.clone());
    emit(&mut stream, "impl");
    append(&mut stream, item.polarity.clone());
    append(&mut stream, item.generics.clone());
    append(&mut stream, item.self_ty.clone());
    append(&mut stream, item.where_clause.clone());
    append(&mut stream, braces(block));
    assert(trees(stream) == router_impl_code(item@, names));
    stream
}

/// Whether [`expand_item`] can be called on an item.
fn item_is_expandable(item: &syn::ImplItem) -> (able: bool)
    ensures
        able == is_expandable(piece_trees(*item)),
{
    let method = match method_of(item) {
        Some(method) => method,
        None => return true,
    };
    let attr = match first_named_attr(attributes_of(&method.attrs), "endpoint") {
        Some(attr) => attr,
        None => return true,
    };
    proof {
        lemma_first_named(attribute_models(method@.attrs), "endpoint"@);
    }
    let args = match args_in(attr) {
        Ok(args) => args,
        Err(_) => return true,
    };
    if !consumes_self(&method.sig) {
        return true;
    }
    let text = args.method.as_str();
    if Ident::from_text(text).is_none() || Ident::from_text(text.to_uppercase().as_str()).is_none() {
        return false;
    }
    if args.request.is_some() {
        return true;
    }
    match infer_method_request(&method.sig) {
        Ok(None) => Ident::from_text(text.to_lowercase().as_str()).is_some(),
        _ => true,
    }
}

/// Whether [`expand_router`] can be called on an `impl` block.
pub fn router_is_expandable(item: &ItemImpl) -> (able: bool)
    ensures
        able == is_router(item@),
{
    let ghost items = item@.items;
    let mut i: usize = 0;
    while i < item.items.len()
        invariant
            i <= item.items.len(),
            items == item@.items,
            items == pieces_trees(item.items@),
            first_fault(items.take(i as int)) is None,
            forall|j: int| 0 <= j < i ==> is_expandable(#[trigger] items[j]),
        decreases item.items.len() - i,
    {
        proof {
            assert(items[i as int] == piece_trees(item.items[i as int]));
            assert(items.take(i + 1).drop_last() =~= items.take(i as int));
            assert(items.take(i + 1).last() == items[i as int]);
        }
        if !item_is_expandable(&item.items[i]) {
            return false;
        }
        if expand_item(&item.items[i]).is_err() {
            assert forall|j: int|
                0 <= j < items.len() && first_fault(items.take(j)) is None implies is_expandable(
                #[trigger] items[j],
            ) by {
                if j > i {
                    assert(items.take(j).take(i + 1) =~= items.take(i + 1));
                    lemma_first_fault_prefix(items.take(j), i + 1);
                }
            }
            return true;
        }
        i += 1;
    }
    true
}

/// The uses of `#[router]` that can be expanded.
pub open spec fn can_expand_router(attr: Seq<Tok>, item: Seq<Tok>) -> bool {
    attr.len() == 0 ==> (item_impl(item) matches Ok(model) ==> is_router(model))
}

/// Whether code is an expansion of `#[router]` on a piece of source.
pub open spec fn is_router_expansion(
    attr: Seq<Tok>,
    item: Seq<Tok>,
    expansion: Seq<Tok>,
) -> bool {
    if attr.len() > 0 {
        expansion == error_reports(seq!["`#[router]` takes no arguments"@])
    } else {
        match item_impl(item) {
            Err(m) => expansion == error_reports(m),
            Ok(model) => is_router_code(model, expansion),
        }
    }
}

} // verus!
