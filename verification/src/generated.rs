//! What the code that is generated for endpoints and routers does.

use crate::args::{endpoint_args, OpenApiArgsModel, ResponseEntryModel};
use crate::endpoint::{
    context_types, docs_code, endpoint_fn_code, first_occurrences, is_endpoint_code, names_fit,
    registration_codes, resolved_args, response_call_codes, returns_result, route_code, SchemaNamesModel,
};
use crate::holding::{
    concatenated_holds_each, group_holds, holding_is_transitive, holds,
};
use crate::error::Messages;
use crate::items::{
    impl_method, ItemFnModel, ItemImplModel, MethodModel, ParamModel, SignatureModel,
};
use crate::laws::{
    endpoint_positions, every_endpoint_is_registered, every_schema_is_registered, registers,
};
use crate::response::types_among;
use crate::router::{
    first_named, into_router_code, item_plan, item_registrations, kept_code, kept_codes,
    method_args, method_bare_route_code, method_registration_code, method_request_route_code,
    param_types, router_impl_code, Plan,
};
use crate::syntax::{
    attribute_model, attribute_models, attrs_except, attrs_placed, last_segment, type_model,
    AttributeModel, GenericArgModel, TypeModel,
};
use crate::text::{lowercase, uppercase};
use crate::tokens::{concatenated, grouped, ident_tree, lexed, string_tree, unraw, Delimiter, Tok};
use vstd::prelude::*;

verus! {

// ---------------------------------------------------------------------------
// Words for what the laws speak of
// ---------------------------------------------------------------------------

/// Whether a handler returns a `Result`: the last segment of its return type is
/// called so.
pub open spec fn answers_with_result(sig: SignatureModel) -> bool {
    sig.output matches Some(ty) && last_segment(type_model(ty)) matches Some(segment)
        && segment.ident == "Result"@
}

/// The path that the arguments give, or else the name of the handler behind a slash.
pub open spec fn given_path(args: OpenApiArgsModel, name: Seq<char>) -> Seq<char> {
    if args.path is Some {
        args.path->0
    } else {
        "/"@ + name
    }
}

/// `call("text")` where there is a text, and nothing where there is none.
pub open spec fn called_with(call: Seq<Tok>, text: Option<Seq<char>>) -> Seq<Tok> {
    if text is Some {
        call + grouped(Delimiter::Parenthesis, string_tree(text->0))
    } else {
        Seq::empty()
    }
}

// ---------------------------------------------------------------------------
// Handlers
// ---------------------------------------------------------------------------

/// A handler that returns a `Result` is told by the last segment of its return type,
/// whatever stands in front of it and behind it.
pub proof fn results_are_told_by_their_name(sig: SignatureModel)
    ensures
        returns_result(sig) == answers_with_result(sig),
{
}

/// A handler asks for state by a single parameter of a type that is called `Context`
/// and has two types as its arguments: the request and the state, in this order.
pub proof fn a_context_names_request_and_state(
    ty: Seq<Tok>,
    request: TypeModel,
    state: TypeModel,
    params: Seq<ParamModel>,
)
    requires
        last_segment(type_model(ty)) matches Some(segment) && segment.ident == "Context"@
            && segment.args == Some(
            seq![GenericArgModel::Type(request), GenericArgModel::Type(state)],
        ),
        params == seq![ParamModel::Typed(ty)],
    ensures
        context_types(params) == Some((request, state)),
{
    let args = seq![GenericArgModel::Type(request), GenericArgModel::Type(state)];
    reveal_with_fuel(types_among, 3);
    assert(args.drop_last() =~= seq![GenericArgModel::Type(request)]);
    assert(args.drop_last().drop_last() =~= Seq::empty());
    assert(types_among(args) =~= seq![request, state]);
}

/// No handler of another shape asks for state.
pub proof fn only_a_single_context_asks_for_state(params: Seq<ParamModel>)
    requires
        params.len() != 1 || params[0] is Receiver || !(last_segment(
            type_model(params[0]->Typed_0),
        ) matches Some(segment) && segment.ident == "Context"@),
    ensures
        context_types(params) is None,
{
}

/// The request type of an endpoint is the one that its arguments give; where they give
/// none it is that of its `Context`, and without either there is none. The other
/// arguments stay as they are.
pub proof fn the_given_request_comes_first(args: OpenApiArgsModel, sig: SignatureModel)
    ensures
        args.request is Some ==> resolved_args(args, sig) == args,
        context_types(sig.params) is None ==> resolved_args(args, sig) == args,
        args.request is None ==> (context_types(sig.params) matches Some(types)
            ==> resolved_args(args, sig).request == Some(types.0)),
        resolved_args(args, sig) == (OpenApiArgsModel {
            request: resolved_args(args, sig).request,
            ..args
        }),
{
}

// ---------------------------------------------------------------------------
// Routes of functions
// ---------------------------------------------------------------------------

/// What a handler that returns a `Result` returns is turned into a response with the
/// error's status, whichever kind of route the handler gets: the closure of the route
/// does nothing but call it, and hand its outcome over.
pub proof fn results_are_turned_into_responses(args: OpenApiArgsModel, sig: SignatureModel)
    requires
        answers_with_result(sig),
    ensures
        args.request is Some && context_types(sig.params) is Some ==> holds(
            route_code(args, sig),
            lexed("> | async move"@) + grouped(
                Delimiter::Brace,
                lexed("::sevria_service_kit::http::result_to_response"@) + grouped(
                    Delimiter::Parenthesis,
                    ident_tree(sig.ident) + lexed("(__ctx).await"@),
                ),
            ) + lexed(","@),
        ),
        args.request is Some && context_types(sig.params) is None ==> holds(
            route_code(args, sig),
            lexed("| async move"@) + grouped(
                Delimiter::Brace,
                lexed("::sevria_service_kit::http::result_to_response"@) + grouped(
                    Delimiter::Parenthesis,
                    ident_tree(sig.ident) + lexed("(__req).await"@),
                ),
            ) + lexed(","@),
        ),
        args.request is None ==> holds(
            route_code(args, sig),
            grouped(
                Delimiter::Parenthesis,
                lexed("move || async move"@) + grouped(
                    Delimiter::Brace,
                    lexed("::sevria_service_kit::http::result_to_response"@) + grouped(
                        Delimiter::Parenthesis,
                        ident_tree(sig.ident) + lexed("().await"@),
                    ),
                ),
            ) + lexed(","@),
        ),
{
    broadcast use group_holds;

    results_are_told_by_their_name(sig);
}

/// What any other handler with a request returns is answered as JSON; one that takes
/// nothing is handed to the router as it is.
pub proof fn other_outcomes_are_answered_as_json(args: OpenApiArgsModel, sig: SignatureModel)
    requires
        !answers_with_result(sig),
    ensures
        args.request is Some && context_types(sig.params) is Some ==> holds(
            route_code(args, sig),
            lexed("> | async move"@) + grouped(
                Delimiter::Brace,
                lexed("::sevria_service_kit::http::__private::Json"@) + grouped(
                    Delimiter::Parenthesis,
                    ident_tree(sig.ident) + lexed("(__ctx).await"@),
                ),
            ) + lexed(","@),
        ),
        args.request is Some && context_types(sig.params) is None ==> holds(
            route_code(args, sig),
            lexed("| async move"@) + grouped(
                Delimiter::Brace,
                lexed("::sevria_service_kit::http::__private::Json"@) + grouped(
                    Delimiter::Parenthesis,
                    ident_tree(sig.ident) + lexed("(__req).await"@),
                ),
            ) + lexed(","@),
        ),
        args.request is None ==> holds(
            route_code(args, sig),
            lexed("router."@) + ident_tree(lowercase(args.method)) + grouped(
                Delimiter::Parenthesis,
                string_tree(given_path(args, sig.ident)) + lexed(","@) + ident_tree(sig.ident),
            ) + lexed(";"@),
        ),
{
    broadcast use group_holds;

    results_are_told_by_their_name(sig);
}

/// A route is registered at the path that the arguments give, or else at the name of
/// the function, and for the method that they give.
pub proof fn routes_have_their_path_and_method(args: OpenApiArgsModel, sig: SignatureModel)
    ensures
        args.request matches Some(request) ==> (context_types(sig.params) matches Some(types)
            ==> holds(
            route_code(args, sig),
            lexed("router,"@) + string_tree(given_path(args, sig.ident)) + lexed(
                ", ::sevria_service_kit::http::Method::"@,
            ) + ident_tree(uppercase(args.method)) + lexed(
                ", move |__ctx: ::sevria_service_kit::http::Context<"@,
            ) + request.tokens + lexed(","@) + types.1.tokens + lexed("> | async move"@),
        )),
        context_types(sig.params) is None ==> (args.request matches Some(request) ==> holds(
            route_code(args, sig),
            lexed("router,"@) + string_tree(given_path(args, sig.ident)) + lexed(
                ", ::sevria_service_kit::http::Method::"@,
            ) + ident_tree(uppercase(args.method)) + lexed(", move |__req:"@) + request.tokens
                + lexed("| async move"@),
        )),
        args.request is None && answers_with_result(sig) ==> holds(
            route_code(args, sig),
            string_tree(given_path(args, sig.ident)) + lexed(
                ", ::sevria_service_kit::http::__private::routing::"@,
            ) + ident_tree(lowercase(args.method)),
        ),
        args.request is None && !answers_with_result(sig) ==> holds(
            route_code(args, sig),
            lexed("router."@) + ident_tree(lowercase(args.method)) + grouped(
                Delimiter::Parenthesis,
                string_tree(given_path(args, sig.ident)) + lexed(","@) + ident_tree(sig.ident),
            ),
        ),
{
    broadcast use group_holds;

    results_are_told_by_their_name(sig);
}

/// A route with a request is registered through the request type, which reads the
/// request; with the state of the `Context` where the handler asks for one. Any other
/// is registered on the router itself.
pub proof fn routes_are_registered_through_the_request(
    args: OpenApiArgsModel,
    sig: SignatureModel,
    head: Seq<Tok>,
)
    requires
        head == (match (args.request, context_types(sig.params)) {
            (Some(request), Some(types)) => lexed("<"@) + request.tokens + lexed(
                "> ::__register_route_with_state:: <"@,
            ) + types.1.tokens + lexed(", _, _, _>"@),
            (Some(request), None) => lexed("<"@) + request.tokens + lexed("> ::__register_route"@),
            (None, _) => if answers_with_result(sig) {
                lexed("router.add_route"@)
            } else {
                lexed("router."@) + ident_tree(lowercase(args.method))
            },
        }),
    ensures
        exists|arguments: Seq<Tok>|
            route_code(args, sig) == head + #[trigger] grouped(Delimiter::Parenthesis, arguments)
                + lexed(";"@),
{
    results_are_told_by_their_name(sig);
    let route = route_code(args, sig);
    let arguments = route[head.len() as int]->Group_1;
    assert(route[head.len() as int] is Group);
    assert(route =~= head + grouped(Delimiter::Parenthesis, arguments) + lexed(";"@));
}

// ---------------------------------------------------------------------------
// Documentation
// ---------------------------------------------------------------------------

/// What the documentation of an endpoint begins with: its method and path, and directly
/// behind them, in this order, its tag, its summary, its description and that it is
/// deprecated, each just where the arguments say so.
pub open spec fn documented_path(
    args: OpenApiArgsModel,
    method: Seq<char>,
    path: Seq<char>,
) -> Seq<Tok> {
    lexed("::sevria_service_kit::http::path::"@) + ident_tree(method) + grouped(
        Delimiter::Parenthesis,
        string_tree(path),
    ) + called_with(lexed(".tag"@), args.tag) + called_with(lexed(".summary"@), args.summary)
        + called_with(lexed(".description"@), args.description) + (if args.deprecated {
        lexed(".deprecated()"@)
    } else {
        Seq::empty()
    })
}

/// With a request type or without, the documentation has the tag, the summary, the
/// description and the note that the endpoint is deprecated just where the arguments
/// give them, directly behind the path and in this order; what follows is the
/// parameters, or else the responses.
pub proof fn all_that_is_said_is_documented(
    args: OpenApiArgsModel,
    names: SchemaNamesModel,
    method: Seq<char>,
    path: Seq<char>,
)
    ensures
        args.request is Some ==> holds(
            docs_code(args, names, method, path),
            lexed("; let __doc ="@) + documented_path(args, method, path) + lexed(
                ".parameters(::sevria_service_kit::http::parameters_from_fields(&__fields, ::sevria_service_kit::http::Source::Path,)).parameters(::sevria_service_kit::http::parameters_from_fields(&__fields, ::sevria_service_kit::http::Source::Query,)); let __doc = if __fields.iter().any(|f| f.source == ::sevria_service_kit::http::Source::Body)"@,
            ),
        ),
        args.request is None ==> holds(
            docs_code(args, names, method, path),
            lexed("router.describe"@) + grouped(
                Delimiter::Parenthesis,
                documented_path(args, method, path) + concatenated(
                    response_call_codes(args.responses, names.responses),
                ),
            ) + lexed(";"@),
        ),
{
    broadcast use group_holds;

}

/// Each thing that is said of an endpoint is documented by a call of its own.
pub proof fn each_thing_said_is_documented(
    args: OpenApiArgsModel,
    names: SchemaNamesModel,
    method: Seq<char>,
    path: Seq<char>,
)
    ensures
        args.tag matches Some(text) ==> holds(
            docs_code(args, names, method, path),
            lexed(".tag"@) + grouped(Delimiter::Parenthesis, string_tree(text)),
        ),
        args.summary matches Some(text) ==> holds(
            docs_code(args, names, method, path),
            lexed(".summary"@) + grouped(Delimiter::Parenthesis, string_tree(text)),
        ),
        args.description matches Some(text) ==> holds(
            docs_code(args, names, method, path),
            lexed(".description"@) + grouped(Delimiter::Parenthesis, string_tree(text)),
        ),
        args.deprecated ==> holds(docs_code(args, names, method, path), lexed(".deprecated()"@)),
        holds(
            docs_code(args, names, method, path),
            lexed("::sevria_service_kit::http::path::"@) + ident_tree(method) + grouped(
                Delimiter::Parenthesis,
                string_tree(path),
            ),
        ),
{
    broadcast use group_holds;

}

/// The parameters and the body of an endpoint with a request are documented by the
/// fields of its request type. The body is described by the text that the arguments
/// give, or else as the request body, and its schema is registered under the name of
/// the request's schema with `Body` behind it; there is no body without a field in it.
pub proof fn requests_are_documented(
    args: OpenApiArgsModel,
    names: SchemaNamesModel,
    method: Seq<char>,
    path: Seq<char>,
)
    ensures
        args.request matches Some(request) ==> holds(
            docs_code(args, names, method, path),
            lexed("let __fields = <"@) + request.tokens + lexed(
                "as ::sevria_service_kit::http::Endpoint> ::request_fields(); let __body_schema_name ="@,
            ) + string_tree(names.request + "Body"@) + lexed("; let __doc ="@),
        ),
        args.request is Some ==> holds(
            docs_code(args, names, method, path),
            lexed(
                ".parameters(::sevria_service_kit::http::parameters_from_fields(&__fields, ::sevria_service_kit::http::Source::Path,)).parameters(::sevria_service_kit::http::parameters_from_fields(&__fields, ::sevria_service_kit::http::Source::Query,)); let __doc = if __fields.iter().any(|f| f.source == ::sevria_service_kit::http::Source::Body)"@,
            ) + grouped(
                Delimiter::Brace,
                lexed("__doc.json_request_with_schema"@) + grouped(
                    Delimiter::Parenthesis,
                    string_tree(
                        if args.request_desc is Some {
                            args.request_desc->0
                        } else {
                            "Request body"@
                        },
                    ) + lexed(", __body_schema_name"@),
                ),
            ) + lexed("else { __doc }; router.describe"@) + grouped(
                Delimiter::Parenthesis,
                lexed("__doc"@) + concatenated(
                    response_call_codes(args.responses, names.responses),
                ),
            ) + lexed(
                "; if __fields.iter().any(|f| f.source == ::sevria_service_kit::http::Source::Body) { router.add_schema(__body_schema_name, ::sevria_service_kit::http::body_schema_from_fields(&__fields),); }"@,
            ),
        ),
{
    broadcast use group_holds;

}

/// There is one call for each response, in order. One that is given in full is
/// documented under the status that it gives, and described by its description or
/// else by that of its type; one that is given by its type alone under the status and
/// the description of the type. Either has the name of its schema.
pub proof fn every_response_is_documented(
    args: OpenApiArgsModel,
    names: SchemaNamesModel,
    method: Seq<char>,
    path: Seq<char>,
    i: int,
    call: Seq<Tok>,
)
    requires
        0 <= i < args.responses.len(),
        call == lexed(".json_content_response"@) + grouped(
            Delimiter::Parenthesis,
            match args.responses[i] {
                ResponseEntryModel::Full(def) => lexed("&format!"@) + grouped(
                    Delimiter::Parenthesis,
                    lexed("\"{}\","@) + def.status.tokens + lexed("as u16"@),
                ) + lexed(","@) + (if def.description is Some {
                    string_tree(def.description->0)
                } else {
                    lexed("<"@) + def.schema.tokens + lexed(
                        "as ::sevria_service_kit::http::Endpoint> ::description()"@,
                    )
                }) + lexed(","@) + string_tree(names.responses[i]),
                ResponseEntryModel::Bare(ty) => lexed("&format!"@) + grouped(
                    Delimiter::Parenthesis,
                    lexed("\"{}\", <"@) + ty.tokens + lexed("> ::__openapi_response_meta().0"@),
                ) + lexed(", <"@) + ty.tokens + lexed("> ::__openapi_response_meta().1,"@)
                    + string_tree(names.responses[i]) + lexed(","@),
            },
        ),
    ensures
        response_call_codes(args.responses, names.responses).len() == args.responses.len(),
        response_call_codes(args.responses, names.responses)[i] == call,
        holds(docs_code(args, names, method, path), call),
{
    broadcast use group_holds;

    let calls = response_call_codes(args.responses, names.responses);
    assert(calls[i] =~= call);
    concatenated_holds_each(calls, i, call);
}

/// The schema of the first response of each name is registered under that name.
pub proof fn first_responses_have_their_schema_registered(
    entries: Seq<ResponseEntryModel>,
    names: Seq<Seq<char>>,
    i: int,
    ty: TypeModel,
)
    requires
        entries.len() == names.len(),
        0 <= i < names.len(),
        forall|j: int| 0 <= j < i ==> names[j] != names[i],
        match entries[i] {
            ResponseEntryModel::Full(def) => def.schema == ty,
            ResponseEntryModel::Bare(bare) => bare == ty,
        },
    ensures
        registration_codes(entries, names).len() == first_occurrences(names).len(),
        holds(
            concatenated(registration_codes(entries, names)),
            lexed("router.add_schema"@) + grouped(
                Delimiter::Parenthesis,
                string_tree(names[i]) + lexed(", <"@) + ty.tokens + lexed(
                    "as ::sevria_service_kit::http::Endpoint> ::json_schema()"@,
                ),
            ) + lexed(";"@),
        ),
{
    broadcast use group_holds;

    every_schema_is_registered(names, i);
    let k = choose|k: int| registers(names, k, i);
    let positions = first_occurrences(names);
    lemma_positions(names, k);
    assert(positions[k] == i);
    let piece = lexed("router.add_schema"@) + grouped(
        Delimiter::Parenthesis,
        string_tree(names[i]) + lexed(", <"@) + ty.tokens + lexed(
            "as ::sevria_service_kit::http::Endpoint> ::json_schema()"@,
        ),
    ) + lexed(";"@);
    assert(registration_codes(entries, names)[k] == piece);
    concatenated_holds_each(registration_codes(entries, names), k, piece);
}

/// The positions at which a name occurs for the first time are positions.
proof fn lemma_positions(names: Seq<Seq<char>>, k: int)
    requires
        0 <= k < first_occurrences(names).len(),
    ensures
        0 <= first_occurrences(names)[k] < names.len(),
    decreases names.len(),
{
    if names.len() > 0 {
        let before = names.drop_last();
        if k < first_occurrences(before).len() {
            lemma_positions(before, k);
        }
    }
}

// ---------------------------------------------------------------------------
// The items of an endpoint
// ---------------------------------------------------------------------------

/// What `#[endpoint(...)]` adds to a function: a function that registers the route,
/// its documentation at the same path and the schemas of its responses, and nothing
/// else, and a constant that hands that function out. Both are as visible as the
/// handler, and named after it.
pub proof fn endpoints_can_be_registered(
    args: OpenApiArgsModel,
    item: ItemFnModel,
    names: SchemaNamesModel,
)
    ensures
        holds(
            endpoint_fn_code(args, item, names),
            lexed("#[doc(hidden)] #[allow(non_snake_case)]"@) + item.vis + lexed("fn"@)
                + ident_tree("__openapi_register_"@ + unraw(item.sig.ident)) + lexed(
                "(router: &mut ::sevria_service_kit::http::Router)"@,
            ) + grouped(
                Delimiter::Brace,
                route_code(args, item.sig) + docs_code(
                    args,
                    names,
                    args.method,
                    given_path(args, item.sig.ident),
                ) + concatenated(registration_codes(args.responses, names.responses)),
            ) + lexed("#[doc(hidden)] #[allow(non_upper_case_globals)]"@) + item.vis + lexed(
                "const"@,
            ) + ident_tree(unraw(item.sig.ident) + "_handle"@) + lexed(
                ": ::sevria_service_kit::http::RouteHandle = ::sevria_service_kit::http::RouteHandle::new"@,
            ) + grouped(
                Delimiter::Parenthesis,
                ident_tree("__openapi_register_"@ + unraw(item.sig.ident)),
            ) + lexed(";"@),
        ),
{
    broadcast use group_holds;

    reveal_strlit("");
    let name = unraw(item.sig.ident);
    assert("__openapi_register_"@ + name + ""@ =~= "__openapi_register_"@ + name);
    assert(""@ + name + "_handle"@ =~= name + "_handle"@);
}

/// The expansion of an endpoint hands the outcome of its handler to what makes a
/// response of it: a `Result` becomes a status and a body, whichever kind of route the
/// handler gets, and anything else that comes of a request becomes JSON.
pub proof fn endpoints_answer_with_what_the_handler_returns(
    args: OpenApiArgsModel,
    item: ItemFnModel,
    expansion: Seq<Tok>,
    call: Seq<Tok>,
)
    requires
        is_endpoint_code(args, item, expansion),
        call == ident_tree(item.sig.ident) + (if context_types(item.sig.params) is Some {
            lexed("(__ctx).await"@)
        } else if args.request is Some {
            lexed("(__req).await"@)
        } else {
            lexed("().await"@)
        }),
    ensures
        answers_with_result(item.sig) ==> holds(
            expansion,
            grouped(
                Delimiter::Brace,
                lexed("::sevria_service_kit::http::result_to_response"@) + grouped(
                    Delimiter::Parenthesis,
                    call,
                ),
            ),
        ),
        !answers_with_result(item.sig) && (args.request is Some || context_types(
            item.sig.params,
        ) is Some) ==> holds(
            expansion,
            grouped(
                Delimiter::Brace,
                lexed("::sevria_service_kit::http::__private::Json"@) + grouped(
                    Delimiter::Parenthesis,
                    call,
                ),
            ),
        ),
{
    broadcast use group_holds;

    let resolved = resolved_args(args, item.sig);
    let route = route_code(resolved, item.sig);
    results_are_told_by_their_name(item.sig);
    expansions_hold_route_and_documentation(args, item, expansion);
    let wrapper = if answers_with_result(item.sig) {
        lexed("::sevria_service_kit::http::result_to_response"@)
    } else {
        lexed("::sevria_service_kit::http::__private::Json"@)
    };
    let piece = grouped(
        Delimiter::Brace,
        wrapper + grouped(Delimiter::Parenthesis, call),
    );
    if answers_with_result(item.sig) || resolved.request is Some {
        assert(holds(route, piece));
        holding_is_transitive(expansion, route, piece);
    }
}

/// The expansion of an endpoint registers the route and the documentation that its
/// arguments ask for, with the request type known.
pub proof fn expansions_hold_route_and_documentation(
    args: OpenApiArgsModel,
    item: ItemFnModel,
    expansion: Seq<Tok>,
)
    requires
        is_endpoint_code(args, item, expansion),
    ensures
        holds(expansion, route_code(resolved_args(args, item.sig), item.sig)),
        exists|names: SchemaNamesModel|
            names_fit(resolved_args(args, item.sig), names) && holds(
                expansion,
                #[trigger] docs_code(
                    resolved_args(args, item.sig),
                    names,
                    args.method,
                    given_path(args, item.sig.ident),
                ),
            ) && holds(
                expansion,
                concatenated(registration_codes(args.responses, names.responses)),
            ),
{
    broadcast use group_holds;

    let resolved = resolved_args(args, item.sig);
    let names = choose|names: SchemaNamesModel|
        names_fit(resolved, names) && expansion == #[trigger] endpoint_fn_code(
            resolved,
            item,
            names,
        );
    assert(holds(
        expansion,
        docs_code(resolved, names, args.method, given_path(args, item.sig.ident)),
    ));
}

// ---------------------------------------------------------------------------
// Routes of methods
// ---------------------------------------------------------------------------

/// The closure that answers requests by a method: each request is answered by a copy
/// of the router of its own. `params` is what the closure takes, and `body` what it
/// does.
pub open spec fn on_a_copy(params: Seq<Tok>, body: Seq<Tok>) -> Seq<Tok> {
    grouped(
        Delimiter::Brace,
        lexed("let this = self.clone(); move"@) + params + grouped(
            Delimiter::Brace,
            lexed("let this = this.clone(); async move"@) + grouped(Delimiter::Brace, body),
        ),
    )
}

/// The route of a method is registered at the path that its arguments give, or else at
/// its name behind a slash, and so is its documentation: with a request type or
/// without, the two have the same path.
pub proof fn methods_are_routed_and_documented_at_one_path(
    args: OpenApiArgsModel,
    sig: SignatureModel,
    names: SchemaNamesModel,
    path: Seq<char>,
)
    requires
        args.path matches Some(given) ==> path == given,
        args.path is None ==> path == "/"@ + sig.ident,
    ensures
        args.request is Some ==> holds(
            method_registration_code(args, sig, names),
            lexed("&mut router,"@) + string_tree(path) + lexed(
                ", ::sevria_service_kit::http::Method::"@,
            ) + ident_tree(uppercase(args.method)) + lexed(","@),
        ),
        args.request is None && answers_with_result(sig) ==> holds(
            method_registration_code(args, sig, names),
            string_tree(path) + lexed(", ::sevria_service_kit::http::__private::routing::"@)
                + ident_tree(lowercase(args.method)),
        ),
        args.request is None && !answers_with_result(sig) ==> holds(
            method_registration_code(args, sig, names),
            lexed("router."@) + ident_tree(lowercase(args.method)) + grouped(
                Delimiter::Parenthesis,
                string_tree(path) + lexed(","@) + on_a_copy(
                    lexed("||"@),
                    lexed("this."@) + ident_tree(sig.ident) + lexed("().await"@),
                ) + lexed(","@),
            ) + lexed(";"@),
        ),
        holds(
            method_registration_code(args, sig, names),
            lexed("::sevria_service_kit::http::path::"@) + ident_tree(args.method) + grouped(
                Delimiter::Parenthesis,
                string_tree(path),
            ),
        ),
        holds(
            method_registration_code(args, sig, names),
            docs_code(args, names, args.method, path),
        ),
{
    broadcast use group_holds;

    results_are_told_by_their_name(sig);
}

/// The registration of a method consists of its route, its documentation and the
/// schemas of its responses, in a block of its own. The route comes first: one
/// statement, by the request type where there is one and else by the router itself.
pub proof fn methods_are_registered_with_all_that_belongs_to_them(
    args: OpenApiArgsModel,
    sig: SignatureModel,
    names: SchemaNamesModel,
    head: Seq<Tok>,
)
    requires
        head == (match args.request {
            Some(request) => lexed("<"@) + request.tokens + lexed("> ::__register_route"@),
            None => if answers_with_result(sig) {
                lexed("router.add_route"@)
            } else {
                lexed("router."@) + ident_tree(lowercase(args.method))
            },
        }),
    ensures
        exists|arguments: Seq<Tok>|
            method_registration_code(args, sig, names) == grouped(
                Delimiter::Brace,
                head + #[trigger] grouped(Delimiter::Parenthesis, arguments) + lexed(";"@)
                    + docs_code(args, names, args.method, given_path(args, sig.ident))
                    + concatenated(registration_codes(args.responses, names.responses)),
            ),
{
    results_are_told_by_their_name(sig);
    let path = given_path(args, sig.ident);
    let route = match args.request {
        Some(ty) => method_request_route_code(
            ty,
            path,
            uppercase(args.method),
            sig,
        ),
        None => method_bare_route_code(path, lowercase(args.method), sig),
    };
    let arguments = route[head.len() as int]->Group_1;
    assert(route[head.len() as int] is Group);
    assert(route =~= head + grouped(Delimiter::Parenthesis, arguments) + lexed(";"@));
}

/// A method that returns a `Result` has it turned into a response with the error's
/// status, with a request or without; what any other method with a request returns is
/// answered as JSON. Either is called on a copy of the router of its own.
pub proof fn methods_answer_with_what_they_return(
    args: OpenApiArgsModel,
    sig: SignatureModel,
    names: SchemaNamesModel,
)
    ensures
        answers_with_result(sig) ==> (args.request matches Some(request) ==> holds(
            method_registration_code(args, sig, names),
            on_a_copy(
                lexed("|__req:"@) + request.tokens + lexed("|"@),
                lexed("::sevria_service_kit::http::result_to_response"@) + grouped(
                    Delimiter::Parenthesis,
                    lexed("this."@) + ident_tree(sig.ident) + lexed("(__req).await"@),
                ),
            ) + lexed(","@),
        )),
        !answers_with_result(sig) ==> (args.request matches Some(request) ==> holds(
            method_registration_code(args, sig, names),
            on_a_copy(
                lexed("|__req:"@) + request.tokens + lexed("|"@),
                lexed("::sevria_service_kit::http::__private::Json"@) + grouped(
                    Delimiter::Parenthesis,
                    lexed("this."@) + ident_tree(sig.ident) + lexed("(__req).await"@),
                ),
            ) + lexed(","@),
        )),
        args.request is None && answers_with_result(sig) ==> holds(
            method_registration_code(args, sig, names),
            on_a_copy(
                lexed("||"@),
                lexed("::sevria_service_kit::http::result_to_response"@) + grouped(
                    Delimiter::Parenthesis,
                    lexed("this."@) + ident_tree(sig.ident) + lexed("().await"@),
                ),
            ) + lexed(","@),
        ),
        args.request is None && !answers_with_result(sig) ==> holds(
            method_registration_code(args, sig, names),
            on_a_copy(
                lexed("||"@),
                lexed("this."@) + ident_tree(sig.ident) + lexed("().await"@),
            ) + lexed(","@),
        ),
{
    broadcast use group_holds;

    results_are_told_by_their_name(sig);
}

// ---------------------------------------------------------------------------
// Routers
// ---------------------------------------------------------------------------

/// An `impl` block stays what it is for: all that stands in front of it stays there,
/// in order.
pub proof fn routers_keep_their_header(item: ItemImplModel, names: Seq<SchemaNamesModel>)
    ensures
        exists|block: Seq<Tok>|
            router_impl_code(item, names) == concatenated(item.attrs) + item.defaultness
                + item.unsafety + lexed("impl"@) + item.polarity + item.generics + item.self_ty
                + item.where_clause + #[trigger] grouped(Delimiter::Brace, block),
{
    let block = concatenated(kept_codes(item.items)) + into_router_code(
        item_registrations(item.items, names),
    );
    assert(grouped(Delimiter::Brace, block).len() == 1);
}

/// A router's block holds each of its items, as far as it stays, and a public method
/// that makes a new router, registers every endpoint on it, in order, and hands it
/// out.
pub proof fn routers_register_every_endpoint(
    item: ItemImplModel,
    names: Seq<SchemaNamesModel>,
    i: int,
)
    requires
        0 <= i < item.items.len(),
    ensures
        holds(router_impl_code(item, names), kept_code(item.items[i])),
        item_plan(item.items[i]) matches Ok(Some(plan)) ==> holds(
            router_impl_code(item, names),
            method_registration_code(plan.args, plan.sig, names[i]),
        ),
        holds(
            router_impl_code(item, names),
            grouped(
                Delimiter::Brace,
                lexed("let mut router = ::sevria_service_kit::http::Router::new();"@)
                    + concatenated(item_registrations(item.items, names)) + lexed("router"@),
            ),
        ),
        holds(
            router_impl_code(item, names),
            concatenated(kept_codes(item.items)) + (lexed(
                "#[doc = \" Build the router: registers every `#[endpoint]` route plus its\"] #[doc = \" OpenAPI metadata. The router struct must be `Clone` so each route\"] #[doc = \" can capture a copy of it.\"] pub fn into_router(self) -> ::sevria_service_kit::http::Router"@,
            ) + grouped(
                Delimiter::Brace,
                lexed("let mut router = ::sevria_service_kit::http::Router::new();"@)
                    + concatenated(item_registrations(item.items, names)) + lexed("router"@),
            )),
        ),
{
    broadcast use group_holds;

    concatenated_holds_each(kept_codes(item.items), i, kept_code(item.items[i]));
    if let Ok(Some(plan)) = item_plan(item.items[i]) {
        let registrations = item_registrations(item.items, names);
        every_endpoint_is_registered(item.items, names);
        let positions = endpoint_positions(item.items);
        let k = choose|k: int| 0 <= k < positions.len() && positions[k] == i;
        let piece = method_registration_code(plan.args, plan.sig, names[i]);
        assert(registrations[k] == piece);
        concatenated_holds_each(registrations, k, piece);
    }
}

// ---------------------------------------------------------------------------
// The methods of a router
// ---------------------------------------------------------------------------

/// An attribute with the given name is found where there is one, and it is the first
/// one.
proof fn lemma_first_named_is_found(attrs: Seq<AttributeModel>, name: Seq<char>, k: int)
    requires
        0 <= k < attrs.len(),
        attrs[k].is(name),
        forall|j: int| 0 <= j < k ==> !(#[trigger] attrs[j]).is(name),
    ensures
        first_named(attrs, name) == Some(attrs[k]),
    decreases k,
{
    if k > 0 {
        let rest = attrs.skip(1);
        assert(!attrs[0].is(name));
        assert(rest[k - 1] == attrs[k]);
        assert forall|j: int| 0 <= j < k - 1 implies !(#[trigger] rest[j]).is(name) by {
            assert(rest[j] == attrs[j + 1]);
        }
        lemma_first_named_is_found(rest, name, k - 1);
    }
}

/// No attribute with the given name is found where there is none.
proof fn lemma_none_named(attrs: Seq<AttributeModel>, name: Seq<char>)
    requires
        forall|j: int| 0 <= j < attrs.len() ==> !(#[trigger] attrs[j]).is(name),
    ensures
        first_named(attrs, name) is None,
    decreases attrs.len(),
{
    if attrs.len() > 0 {
        let rest = attrs.skip(1);
        assert(!attrs[0].is(name));
        assert forall|j: int| 0 <= j < rest.len() implies !(#[trigger] rest[j]).is(name) by {
            assert(rest[j] == attrs[j + 1]);
        }
        lemma_none_named(rest, name);
    }
}

/// A method is an endpoint by the first attribute `#[endpoint(...)]` that it has: its
/// arguments are the endpoint's, with the request type of the method. The method stays
/// as it is but for such attributes.
pub proof fn methods_are_endpoints_by_their_first_attribute(
    item: Seq<Tok>,
    method: MethodModel,
    k: int,
    tokens: Seq<Tok>,
    kept: Seq<Seq<Tok>>,
)
    requires
        impl_method(item) == Some(method),
        0 <= k < method.attrs.len(),
        attribute_model(method.attrs[k]).is("endpoint"@),
        forall|j: int|
            0 <= j < k ==> !attribute_model(#[trigger] method.attrs[j]).is("endpoint"@),
        attribute_model(method.attrs[k]).meta->0.args == Ok::<Seq<Tok>, Messages>(tokens),
        kept == attrs_except(method.attrs, "endpoint"@),
    ensures
        endpoint_args(tokens) matches Err(m) ==> item_plan(item) == Err::<Option<Plan>, Messages>(
            m,
        ),
        endpoint_args(tokens) matches Ok(args) ==> item_plan(item) == (match method_args(
            args,
            method.sig,
        ) {
            Err(m) => Err::<Option<Plan>, Messages>(m),
            Ok(resolved) => Ok(Some(Plan { args: resolved, sig: method.sig })),
        }),
        kept_code(item) == concatenated(attrs_placed(kept, false)) + method.head + grouped(
            Delimiter::Brace,
            concatenated(attrs_placed(kept, true)) + method.body,
        ),
{
    let attrs = attribute_models(method.attrs);
    assert forall|j: int| 0 <= j < k implies !(#[trigger] attrs[j]).is("endpoint"@) by {
        assert(!attribute_model(method.attrs[j]).is("endpoint"@));
    }
    lemma_first_named_is_found(attrs, "endpoint"@, k);
}

/// A method without an attribute `#[endpoint(...)]`, and any other item, is no endpoint
/// and stays as it is.
pub proof fn other_items_are_left_alone(item: Seq<Tok>)
    requires
        impl_method(item) matches Some(method) ==> (forall|j: int|
            0 <= j < method.attrs.len() ==> !attribute_model(#[trigger] method.attrs[j]).is(
                "endpoint"@,
            )),
    ensures
        item_plan(item) == Ok::<Option<Plan>, Messages>(None),
        kept_code(item) == item,
{
    if let Some(method) = impl_method(item) {
        let attrs = attribute_models(method.attrs);
        assert forall|j: int| 0 <= j < attrs.len() implies !(#[trigger] attrs[j]).is(
            "endpoint"@,
        ) by {
            assert(!attribute_model(method.attrs[j]).is("endpoint"@));
        }
        lemma_none_named(attrs, "endpoint"@);
    }
}

/// How many parameters with a type there are behind a receiver.
proof fn lemma_types_behind_the_receiver(params: Seq<ParamModel>)
    requires
        params.len() > 0,
        params[0] is Receiver,
        forall|i: int| 1 <= i < params.len() ==> #[trigger] params[i] is Typed,
    ensures
        param_types(params).len() == params.len() - 1,
        forall|i: int|
            1 <= i < params.len() ==> param_types(params)[i - 1] == (
            #[trigger] params[i])->Typed_0,
    decreases params.len(),
{
    reveal_with_fuel(param_types, 2);
    let before = params.drop_last();
    if params.len() > 1 {
        assert forall|i: int| 1 <= i < before.len() implies #[trigger] before[i] is Typed by {
            assert(before[i] == params[i]);
        }
        assert(before[0] == params[0]);
        lemma_types_behind_the_receiver(before);
        assert(params.last() == params[params.len() - 1]);
        assert forall|i: int| 1 <= i < params.len() implies param_types(params)[i - 1] == (
        #[trigger] params[i])->Typed_0 by {
            if i < before.len() {
                assert(before[i] == params[i]);
            }
        }
    }
}

/// An endpoint method has to take `self` by value. Its request type is the one that its
/// arguments give; where they give none it is the type of its one parameter behind
/// `self`, none without such a parameter, and with more of them there is a complaint.
pub proof fn methods_take_self_and_a_request(args: OpenApiArgsModel, sig: SignatureModel)
    requires
        forall|i: int| 1 <= i < sig.params.len() ==> #[trigger] sig.params[i] is Typed,
    ensures
        sig.params.len() == 0 || sig.params[0] != ParamModel::Receiver(true) ==> method_args(
            args,
            sig,
        ) == Err::<OpenApiArgsModel, Messages>(
            seq!["`#[endpoint]` methods must take `self` by value"@],
        ),
        sig.params.len() > 0 && sig.params[0] == ParamModel::Receiver(true) ==> {
            &&& args.request is Some || sig.params.len() == 1 ==> method_args(args, sig) == Ok::<
                OpenApiArgsModel,
                Messages,
            >(args)
            &&& args.request is None && sig.params.len() == 2 ==> method_args(args, sig) == Ok::<
                OpenApiArgsModel,
                Messages,
            >(
                OpenApiArgsModel {
                    request: Some(type_model(sig.params[1]->Typed_0)),
                    ..args
                },
            )
            &&& args.request is None && sig.params.len() > 2 ==> method_args(args, sig) == Err::<
                OpenApiArgsModel,
                Messages,
            >(
                seq![
                    "endpoint methods take `self` and at most one request parameter; specify `request = T` explicitly"@,
                ],
            )
        },
{
    if sig.params.len() > 0 && sig.params[0] == ParamModel::Receiver(true) {
        lemma_types_behind_the_receiver(sig.params);
    }
}

} // verus!
