use proc_macro2::{Delimiter, TokenStream, TokenTree};
use sevria_macros::{endpoint, try_endpoint};

fn tokens(src: &str) -> TokenStream {
    src.parse().expect("lex")
}

fn flat(stream: TokenStream) -> Vec<String> {
    let mut out = Vec::new();
    for tree in stream {
        match tree {
            TokenTree::Group(group) => {
                let (open, close) = match group.delimiter() {
                    Delimiter::Parenthesis => ("(", ")"),
                    Delimiter::Brace => ("{", "}"),
                    Delimiter::Bracket => ("[", "]"),
                    Delimiter::None => ("<none>", "</none>"),
                };
                out.push(open.to_string());
                out.extend(flat(group.stream()));
                out.push(close.to_string());
            }
            other => out.push(other.to_string()),
        }
    }
    out
}

fn text(attr: &str, item: &str) -> String {
    flat(endpoint(tokens(attr), tokens(item))).join(" ")
}

fn joined(src: &str) -> String {
    flat(tokens(src)).join(" ")
}

fn assert_expands(attr: &str, item: &str, expected: &str) {
    assert_eq!(flat(endpoint(tokens(attr), tokens(item))), flat(tokens(expected)));
}

fn assert_error(attr: &str, item: &str, message: &str) {
    assert_eq!(
        text(attr, item),
        joined(&format!("::core::compile_error!{{ {:?} }}", message)),
    );
}

const PLAIN: &str = "async fn ping() -> Pong { Pong }";

#[test]
fn expands_a_plain_handler() {
    assert_expands(
        "",
        "#[inline] async fn ping() -> Pong { Pong }",
        "#[inline] async fn ping() -> Pong { Pong }
         #[doc(hidden)]
         #[allow(non_snake_case)]
         fn __openapi_register_ping(router: &mut ::sevria_service_kit::http::Router) {
             router.get(\"/ping\", ping);
             router.describe(::sevria_service_kit::http::path::get(\"/ping\"));
         }
         #[doc(hidden)]
         #[allow(non_upper_case_globals)]
         const ping_handle: ::sevria_service_kit::http::RouteHandle =
             ::sevria_service_kit::http::RouteHandle::new(__openapi_register_ping);",
    );
}

#[test]
fn the_order_of_the_arguments_is_of_no_account() {
    let parts = [
        "path = \"/x\"",
        "method = Method::PUT",
        "deprecated",
        "request = a::R<T>",
        "responses = (B, (status = 200, schema = A))",
        "summary = \"s\"",
    ];
    let item = "async fn f(r: a::R<T>) -> Out { x }";
    let expected = text(&parts.join(", "), item);
    for turn in 0..parts.len() {
        let mut turned = parts.to_vec();
        turned.rotate_left(turn);
        assert_eq!(text(&turned.join(", "), item), expected);
        turned.swap(1, 4);
        assert_eq!(text(&format!("{},", turned.join(", ")), item), expected);
        turned.reverse();
        assert_eq!(text(&turned.join(", "), item), expected);
    }
    assert_ne!(text("responses = (A, B)", PLAIN), text("responses = (B, A)", PLAIN));
    assert_ne!(
        text("tag = \"a\", tag = \"b\"", PLAIN),
        text("tag = \"b\", tag = \"a\"", PLAIN),
    );
}

#[test]
fn the_handler_comes_first_and_once() {
    let out = text("", "pub async fn ping() -> Pong { Pong }");
    assert!(out.starts_with(&joined("pub async fn ping() -> Pong { Pong } #[doc(hidden)]")));
    let out = text(
        "",
        "#[a] #[endpoint(x)] /// said\n pub(super) async fn ping() -> Pong { #![b] #![endpoint] let p = Pong; p }",
    );
    assert!(out.starts_with(&joined(
        "#[a] #[doc = \" said\"] pub(super) async fn ping() -> Pong { #![b] let p = Pong; p } #[doc(hidden)]",
    )));
    assert_eq!(out.matches(&joined("#[a]")).count(), 1);
    assert_eq!(out.matches(&joined("#![b]")).count(), 1);
    let out = text("", "pub async unsafe fn f<T: A>(x: T) -> u8 where T: B { 1 }");
    assert!(out.starts_with(&joined(
        "pub async unsafe fn f<T: A>(x: T) -> u8 where T: B { 1 } #[doc(hidden)]",
    )));
}

#[test]
fn expands_a_handler_that_returns_a_result() {
    assert_expands(
        "path = \"/x\", method = Method::Delete, tag = \"t\", summary = \"s\", description = \"d\", deprecated,
         request_desc = \"unused\", responses = (
             Ok,
             (status = 200, schema = crate::a::Thing, description = \"said\"),
             (schema = b::Thing, status = Status::CREATED),
             Ok,
         )",
        "pub(crate) async fn gone() -> crate::Result<()> { Ok(()) }",
        "pub(crate) async fn gone() -> crate::Result<()> { Ok(()) }
         #[doc(hidden)]
         #[allow(non_snake_case)]
         pub(crate) fn __openapi_register_gone(router: &mut ::sevria_service_kit::http::Router) {
             router.add_route(
                 \"/x\",
                 ::sevria_service_kit::http::__private::routing::delete(
                     move || async move {
                         ::sevria_service_kit::http::result_to_response(gone().await)
                     }
                 ),
             );
             router.describe(
                 ::sevria_service_kit::http::path::delete(\"/x\")
                     .tag(\"t\")
                     .summary(\"s\")
                     .description(\"d\")
                     .deprecated()
                     .json_content_response(
                         &format!(\"{}\", <Ok>::__openapi_response_meta().0),
                         <Ok>::__openapi_response_meta().1,
                         \"Ok\",
                     )
                     .json_content_response(&format!(\"{}\", 200 as u16), \"said\", \"Thing\")
                     .json_content_response(
                         &format!(\"{}\", Status::CREATED as u16),
                         <b::Thing as ::sevria_service_kit::http::Endpoint>::description(),
                         \"Thing\"
                     )
                     .json_content_response(
                         &format!(\"{}\", <Ok>::__openapi_response_meta().0),
                         <Ok>::__openapi_response_meta().1,
                         \"Ok\",
                     )
             );
             router.add_schema(\"Ok\", <Ok as ::sevria_service_kit::http::Endpoint>::json_schema());
             router.add_schema(\"Thing\", <crate::a::Thing as ::sevria_service_kit::http::Endpoint>::json_schema());
         }
         #[doc(hidden)]
         #[allow(non_upper_case_globals)]
         pub(crate) const gone_handle: ::sevria_service_kit::http::RouteHandle =
             ::sevria_service_kit::http::RouteHandle::new(__openapi_register_gone);",
    );
}

fn request_docs(ty: &str, name: &str, start: &str, description: &str) -> String {
    format!(
        "let __fields = <{ty} as ::sevria_service_kit::http::Endpoint>::request_fields();
         let __body_schema_name = \"{name}Body\";
         let __doc = {start}
             .parameters(
                 ::sevria_service_kit::http::parameters_from_fields(
                     &__fields,
                     ::sevria_service_kit::http::Source::Path,
                 )
             )
             .parameters(
                 ::sevria_service_kit::http::parameters_from_fields(
                     &__fields,
                     ::sevria_service_kit::http::Source::Query,
                 )
             );
         let __doc = if __fields
             .iter()
             .any(|f| f.source == ::sevria_service_kit::http::Source::Body)
         {{
             __doc.json_request_with_schema(\"{description}\", __body_schema_name)
         }} else {{
             __doc
         }};
         router.describe(__doc);
         if __fields
             .iter()
             .any(|f| f.source == ::sevria_service_kit::http::Source::Body)
         {{
             router.add_schema(
                 __body_schema_name,
                 ::sevria_service_kit::http::body_schema_from_fields(&__fields),
             );
         }}"
    )
}

#[test]
fn expands_a_handler_with_a_request() {
    let docs = request_docs(
        "crate::Send",
        "Send",
        "::sevria_service_kit::http::path::post(\"/send\").tag(\"mail\")",
        "The mail",
    );
    assert_expands(
        "method = \"POST\", request = crate::Send, tag = \"mail\", request_desc = \"The mail\"",
        "async fn send(req: crate::Send) -> Sent { todo() }",
        &format!(
            "async fn send(req: crate::Send) -> Sent {{ todo() }}
             #[doc(hidden)]
             #[allow(non_snake_case)]
             fn __openapi_register_send(router: &mut ::sevria_service_kit::http::Router) {{
                 <crate::Send>::__register_route(
                     router,
                     \"/send\",
                     ::sevria_service_kit::http::Method::POST,
                     move |__req: crate::Send| async move {{
                         ::sevria_service_kit::http::__private::Json(send(__req).await)
                     }},
                 );
                 {docs}
             }}
             #[doc(hidden)]
             #[allow(non_upper_case_globals)]
             const send_handle: ::sevria_service_kit::http::RouteHandle =
                 ::sevria_service_kit::http::RouteHandle::new(__openapi_register_send);"
        ),
    );
}

#[test]
fn expands_a_handler_with_a_context() {
    let docs = request_docs(
        "Send",
        "Send",
        "::sevria_service_kit::http::path::put(\"/send\")",
        "Request body",
    );
    assert_expands(
        "method = \"put\"",
        "async fn send(ctx: http::Context<Send, Arc<App>>) -> Result<Sent, Error> { todo() }",
        &format!(
            "async fn send(ctx: http::Context<Send, Arc<App>>) -> Result<Sent, Error> {{ todo() }}
             #[doc(hidden)]
             #[allow(non_snake_case)]
             fn __openapi_register_send(router: &mut ::sevria_service_kit::http::Router) {{
                 <Send>::__register_route_with_state::<Arc<App>, _, _, _>(
                     router,
                     \"/send\",
                     ::sevria_service_kit::http::Method::PUT,
                     move |__ctx: ::sevria_service_kit::http::Context<Send, Arc<App>>| async move {{
                         ::sevria_service_kit::http::result_to_response(send(__ctx).await)
                     }},
                 );
                 {docs}
             }}
             #[doc(hidden)]
             #[allow(non_upper_case_globals)]
             const send_handle: ::sevria_service_kit::http::RouteHandle =
                 ::sevria_service_kit::http::RouteHandle::new(__openapi_register_send);"
        ),
    );
}

#[test]
fn the_request_of_the_arguments_beats_that_of_the_context() {
    let out = text("request = Other", "async fn send(ctx: Context<Send, App>) {}");
    assert!(out.contains(&joined("<Other>::__register_route_with_state::<App, _, _, _>")));
    assert!(out.contains(&joined("::sevria_service_kit::http::Context<Other, App>")));
    assert!(out.contains("\"OtherBody\""));
}

#[test]
fn only_a_context_alone_and_in_full_counts() {
    for params in [
        "a: Context<Send, App>, b: u8",
        "a: Context<Send>",
        "a: Context<Send, App, More>",
        "a: Context",
        "a: Other<Send, App>",
        "a: &Context<Send, App>",
        "",
    ] {
        let out = text("", &format!("async fn send({params}) {{}}"));
        assert!(!out.contains("__register_route"), "{params}");
        assert!(out.contains("router . get ( \"/send\" , send ) ;"), "{params}");
    }
    let out = text("", "async fn send(a: Context<'a, Send, App>) {}");
    assert!(out.contains(&joined("<Send>::__register_route_with_state::<App, _, _, _>")));
}

#[test]
fn methods_as_text_and_as_constant_agree() {
    for verb in ["GET", "POST", "PUT", "PATCH", "DELETE", "OPTIONS", "HEAD", "TRACE", "CONNECT"] {
        let lower = verb.to_lowercase();
        let expected = text(&format!("method = \"{lower}\", request = R"), PLAIN);
        assert_eq!(text(&format!("method = \"{verb}\", request = R"), PLAIN), expected);
        assert_eq!(text(&format!("method = Method::{verb}, request = R"), PLAIN), expected);
        assert_eq!(text(&format!("method = {verb}, request = R"), PLAIN), expected);
        assert!(expected.contains(&joined(&format!("::sevria_service_kit::http::Method::{verb},"))));
        assert!(expected.contains(&joined(&format!("::sevria_service_kit::http::path::{lower}(\"/ping\")"))));
    }
    assert_eq!(text("method = \"get\"", PLAIN), text("", PLAIN));
}

#[test]
fn a_method_that_is_no_name_is_not_expanded() {
    for method in ["\"\"", "\"not a name\"", "\"1\"", "\"get \"", "\"r#self\"", "\"a-b\""] {
        assert!(
            try_endpoint(tokens(&format!("method = {method}")), tokens(PLAIN)).is_none(),
            "{method}"
        );
    }
    let attr = "method = \"custom\"";
    let out = try_endpoint(tokens(attr), tokens(PLAIN)).expect("expansion");
    assert_eq!(flat(out).join(" "), text(attr, PLAIN));
    assert!(text(attr, PLAIN).contains("router . custom ( \"/ping\" , ping ) ;"));
    let reported = try_endpoint(tokens("method = \"\", nope"), tokens(PLAIN)).expect("error");
    assert_eq!(
        flat(reported).join(" "),
        joined("::core::compile_error!{ \"unknown flag `nope`\" }")
    );
    assert!(try_endpoint(tokens("method = \"\""), tokens("struct S;")).is_some());
}

#[test]
fn a_raw_name_loses_its_mark_where_it_is_extended() {
    let out = text("", "async fn r#type() {}");
    assert!(out.contains("fn __openapi_register_type ("));
    assert!(out.contains("const type_handle :"));
    assert!(out.contains("router . get ( \"/r#type\" , r#type ) ;"));
}

#[test]
fn other_types_are_named_as_they_print() {
    let out = text("responses = ([u8; 3], [u8; 3], (status = 1, schema = (A, B)))", PLAIN);
    let print = tokens("[u8; 3]").to_string();
    assert_eq!(out.matches(&format!("router . add_schema ( \"{print}\" ,")).count(), 1);
    let print = tokens("(A, B)").to_string();
    assert_eq!(out.matches(&format!("router . add_schema ( \"{print}\" ,")).count(), 1);
}

#[test]
fn mistakes_in_endpoint_arguments_are_reported() {
    assert_error("nope", PLAIN, "unknown flag `nope`");
    assert_error("nope = 1", PLAIN, "unknown key `nope`");
    assert_error("path = 1", PLAIN, "expected string literal");
    assert_error("path =", PLAIN, "unexpected end of input, expected string literal");
    assert_error("path = \"a\" tag = \"b\"", PLAIN, "expected `,`");
    assert_error("method = 1", PLAIN, "expected a string like `\"post\"`");
    assert_error("method = 'x'", PLAIN, "expected a string like `\"post\"`");
    assert_error("method = (a)", PLAIN, "expected `\"post\"` or `Method::POST`");
    assert_error("responses = T", PLAIN, "expected parentheses");
    assert_error("responses = (T U)", PLAIN, "expected `,`");
    assert_error("responses = ((status = 1))", PLAIN, "missing `schema` in response");
    assert_error("responses = ((schema = T))", PLAIN, "missing `status` in response");
    assert_error("responses = (())", PLAIN, "missing `status` in response");
    assert_error("responses = ((code = 1))", PLAIN,
        "expected `status`, `schema`, or `description`, found `code`");
    assert_error("responses = ((status))", PLAIN, "expected `=`");
    assert_error("responses = ((status = 1 schema = T))", PLAIN, "expected `,`");
    assert_error("1", PLAIN, "expected identifier");
    assert_error("request = [u8; 1 2]", PLAIN, "unexpected token, expected `]`");
    assert_error("", "struct S;", "expected `fn`");
}

#[test]
fn later_endpoint_arguments_override_earlier_ones() {
    assert_eq!(
        text("path = \"/a\", method = \"put\", responses = (A), path = \"/b\", method = \"post\", responses = (B),", PLAIN),
        text("path = \"/b\", method = \"post\", responses = (B)", PLAIN),
    );
}
