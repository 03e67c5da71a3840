use proc_macro2::{Delimiter, TokenStream, TokenTree};
use sevria_macros::response;

fn tokens(src: &str) -> TokenStream {
    src.parse().expect("lex")
}

fn flat(stream: TokenStream) -> Vec<String> {
    let mut out = Vec::new();
    for tree in stream {
        match tree {
            TokenTree::Group(group) => {
                let (open, close) = match group.delimiter() {
                    Delimiter::Parenthesis => ("(", ")"),
                    Delimiter::Brace => ("{", "}"),
                    Delimiter::Bracket => ("[", "]"),
                    Delimiter::None => ("<none>", "</none>"),
                };
                out.push(open.to_string());
                out.extend(flat(group.stream()));
                out.push(close.to_string());
            }
            other => out.push(other.to_string()),
        }
    }
    out
}

fn assert_expands(attr: &str, item: &str, expected: &str) {
    assert_eq!(flat(response(tokens(attr), tokens(item))), flat(tokens(expected)));
}

fn text(attr: &str, item: &str) -> String {
    flat(response(tokens(attr), tokens(item))).join(" ")
}

fn assert_error(attr: &str, item: &str, message: &str) {
    assert_eq!(
        flat(response(tokens(attr), tokens(item))),
        flat(tokens(&format!("::core::compile_error!{{ {:?} }}", message))),
    );
}

const JSON: &str = "::sevria_service_kit::__private::serde_json::json!";
const ALIAS: &str = "type A = Response<u8, ()>;";

#[test]
fn expands_a_success_response() {
    assert_expands(
        "status = 200, description = \"Email sent successfully\", meta",
        "#[response(x)] #[derive(Clone)] pub type SendEmailResponse = crate::Response<Email, Page>;",
        &format!(
            "#[derive(Clone)]
             #[derive(::serde::Serialize)]
             pub struct SendEmailResponse(pub crate::Response<Email, Page>);
             impl ::sevria_service_kit::http::Endpoint for SendEmailResponse {{
                 fn description() -> &'static str {{ \"Email sent successfully\" }}
                 fn json_schema() -> ::sevria_service_kit::__private::serde_json::Value {{
                     let mut props = ::sevria_service_kit::__private::serde_json::Map::new();
                     props.insert(\"success\".into(), {JSON}({{\"type\": \"boolean\"}}));
                     props.insert(\"data\".into(), <Email as ::sevria_service_kit::http::Endpoint>::json_schema());
                     props.insert(\"meta\".into(), <Page as ::sevria_service_kit::http::Endpoint>::json_schema());
                     {JSON}({{ \"type\": \"object\", \"properties\": props, \"required\": [\"success\"] }})
                 }}
             }}
             impl SendEmailResponse {{
                 #[doc = \" Construct an empty success response (`success: true`).\"]
                 pub fn new() -> Self {{
                     Self(<crate::Response<Email, Page>>::new())
                 }}
                 #[doc(hidden)]
                 pub const fn __openapi_response_meta() -> (u16, &'static str) {{
                     (200u16, \"Email sent successfully\")
                 }}
                 #[doc(hidden)]
                 pub const fn __openapi_response_summary() -> Option<&'static str> {{
                     if false {{ Some(\"\") }} else {{ None }}
                 }}
             }}"
        ),
    );
}

#[test]
fn expands_an_error_response() {
    assert_expands(
        "status = Status::NOT_FOUND, description = \"Resource not found\", summary = \"Gone\",
         error = (
             code = \"NOT_FOUND\", message = \"Resource not found\",
             details = ((field = \"id\", reason = \"unknown\"), (reason = \"r\", field = \"f\",),),
         ), meta,",
        "pub(crate) type NotFoundErrorResponse = ErrorResponse<Trace>;",
        &format!(
            "#[derive(::serde::Serialize)]
             pub(crate) struct NotFoundErrorResponse(pub ErrorResponse<Trace>);
             impl ::sevria_service_kit::http::Endpoint for NotFoundErrorResponse {{
                 fn description() -> &'static str {{ \"Resource not found\" }}
                 fn json_schema() -> ::sevria_service_kit::__private::serde_json::Value {{
                     let mut props = ::sevria_service_kit::__private::serde_json::Map::new();
                     props.insert(\"success\".into(), {JSON}({{\"type\": \"boolean\", \"example\": false}}));
                     props.insert(\"error\".into(), {JSON}({{
                         \"type\": \"object\",
                         \"properties\": {{
                             \"code\": {{ \"type\": \"string\", \"example\": \"NOT_FOUND\" }},
                             \"message\": {{ \"type\": \"string\", \"example\": \"Resource not found\" }},
                             \"details\": {{
                                 \"type\": \"array\",
                                 \"items\": <::sevria_service_kit::ErrorDetail as ::sevria_service_kit::http::Endpoint>::json_schema(),
                                 \"example\": [
                                     {JSON}({{\"field\": \"id\", \"reason\": \"unknown\"}}),
                                     {JSON}({{\"field\": \"f\", \"reason\": \"r\"}})
                                 ]
                             }},
                         }},
                         \"required\": [\"code\", \"message\"]
                     }}));
                     props.insert(\"meta\".into(), <Trace as ::sevria_service_kit::http::Endpoint>::json_schema());
                     {JSON}({{ \"type\": \"object\", \"properties\": props, \"required\": [\"success\"] }})
                 }}
             }}
             impl NotFoundErrorResponse {{
                 #[doc(hidden)]
                 pub const fn __openapi_response_meta() -> (u16, &'static str) {{
                     (404u16, \"Resource not found\")
                 }}
                 #[doc(hidden)]
                 pub const fn __openapi_response_summary() -> Option<&'static str> {{
                     if true {{ Some(\"Gone\") }} else {{ None }}
                 }}
             }}"
        ),
    );
}

#[test]
fn an_error_response_without_examples_has_empty_ones() {
    let out = text("status = 500, description = \"d\", meta", "type E = ErrorResponse;");
    assert!(out.contains("\"code\" : { \"type\" : \"string\" , \"example\" : \"\" }"));
    assert!(out.contains("\"message\" : { \"type\" : \"string\" , \"example\" : \"\" }"));
    assert!(!out.contains("\"details\""));
    assert!(!out.contains("\"meta\""));
    assert!(out.contains("\"example\" : false"));
}

#[test]
fn the_unit_type_is_left_out() {
    let attr = "status = 200, description = \"d\", meta";
    for ty in ["Response<(), ()>", "Response<(()), ((()))>", "Response", "Response<'a>", "(u8, u8)"] {
        let out = text(attr, &format!("type A = {ty};"));
        assert!(!out.contains("\"data\""), "{ty}");
        assert!(!out.contains("\"meta\""), "{ty}");
    }
    let out = text(attr, "type A = Response<'a, u8, (u8,)>;");
    assert!(out.contains("\"data\" . into ( ) , < u8 as"));
    assert!(out.contains("\"meta\" . into ( ) , < ( u8 , ) as"));
    let out = text("status = 200, description = \"d\"", "type A = Response<u8, u8>;");
    assert!(out.contains("\"data\""));
    assert!(!out.contains("\"meta\""));
}

#[test]
fn only_success_responses_have_a_constructor() {
    let attr = "status = 200, description = \"d\"";
    assert!(text(attr, "type A = Response<u8, ()>;").contains("fn new ( )"));
    assert!(!text(attr, "type A = ErrorResponse<()>;").contains("fn new ( )"));
    assert!(!text(attr, "type A = Other<u8, ()>;").contains("fn new ( )"));
    assert!(text(attr, "type A = Other<u8, ()>;").contains("\"data\""));
    assert!(!text(attr, "type A = ErrorResponse<'a, T>;").contains("\"data\""));
}

#[test]
fn status_numbers_and_constants_agree() {
    for (name, code) in [
        ("OK", 200),
        ("CREATED", 201),
        ("ACCEPTED", 202),
        ("NO_CONTENT", 204),
        ("BAD_REQUEST", 400),
        ("UNAUTHORIZED", 401),
        ("FORBIDDEN", 403),
        ("NOT_FOUND", 404),
        ("CONFLICT", 409),
        ("UNPROCESSABLE_ENTITY", 422),
        ("TOO_MANY_REQUESTS", 429),
        ("INTERNAL_SERVER_ERROR", 500),
        ("NOT_IMPLEMENTED", 501),
        ("SERVICE_UNAVAILABLE", 503),
        ("GATEWAY_TIMEOUT", 504),
    ] {
        let by_name = text(&format!("status = Status::{name}, description = \"d\""), ALIAS);
        let by_code = text(&format!("status = {code}, description = \"d\""), ALIAS);
        assert_eq!(by_name, by_code);
        assert!(by_name.contains(&format!("( {code}u16 , \"d\" )")));
    }
    assert_eq!(
        text("status = 0xC8, description = \"d\"", ALIAS),
        text("status = 2_00u32, description = \"d\"", ALIAS),
    );
    assert!(text("status = 65535, description = \"d\"", ALIAS).contains("( 65535u16 ,"));
    assert!(text("status = 0, description = \"d\"", ALIAS).contains("( 0u16 ,"));
}

#[test]
fn a_status_that_is_none_is_reported() {
    let with = |status: &str, message: &str| {
        assert_error(&format!("status = {status}, description = \"d\""), ALIAS, message)
    };
    with("65536", "number too large to fit in target type");
    with("99999999999999999999999999", "number too large to fit in target type");
    with("Status::TEAPOT", "expected a `Status::*` constant, found `TEAPOT`");
    with("\"200\"", "expected a status code like `422` or `Status::UNPROCESSABLE_ENTITY`");
    with("2.5", "expected a status code like `422` or `Status::UNPROCESSABLE_ENTITY`");
    with("-1", "expected `422` or `Status::UNPROCESSABLE_ENTITY`");
    with("(200)", "expected `422` or `Status::UNPROCESSABLE_ENTITY`");
    assert_error("status = , description = \"d\"", ALIAS, "expected an expression");
}

#[test]
fn mistakes_in_response_arguments_are_reported() {
    assert_error("", ALIAS, "missing `status`");
    assert_error("description = \"d\"", ALIAS, "missing `status`");
    assert_error("status = 200", ALIAS, "missing `description`");
    assert_error("status = 200, nope = 1", ALIAS, "expected `status`, `description`, or `error`, found `nope`");
    assert_error("status = 200, nope", ALIAS, "unknown flag `nope`");
    assert_error("status = 200 description = \"d\"", ALIAS, "expected `,`");
    assert_error("status = 200, description = 5", ALIAS, "expected string literal");
    assert_error("status = 200, summary =", ALIAS, "unexpected end of input, expected string literal");
    assert_error("status = 200, error = 5", ALIAS, "expected parentheses");
    assert_error("status = 200, error =", ALIAS, "unexpected end of input, expected parentheses");
    assert_error("status = 200, error = (nope = 1)", ALIAS,
        "expected `code`, `message`, or `details`, found `nope`");
    assert_error("status = 200, error = (code)", ALIAS, "expected `=`");
    assert_error("status = 200, error = (code = 1)", ALIAS, "expected string literal");
    assert_error("status = 200, error = (code = \"a\" message = \"b\")", ALIAS, "expected `,`");
    assert_error("status = 200, error = (details = \"a\")", ALIAS, "expected parentheses");
    assert_error("200", ALIAS, "expected identifier");
    assert_error("type = 1", ALIAS, "expected identifier, found keyword `type`");
    assert_error("status = 200, description = \"d\"", "struct A;", "expected `type`");
}

#[test]
fn details_that_are_not_well_formed_are_dropped() {
    let good = "status = 400, description = \"d\", error = (code = \"c\"";
    let item = "type E = ErrorResponse<()>;";
    let none = text(&format!("{good})"), item);
    let with = |details: &str| text(&format!("{good}, details = {details})"), item);
    assert_eq!(with("()"), none);
    assert_eq!(with("((field = \"f\"))"), none);
    assert_eq!(with("((reason = \"f\"))"), none);
    assert_ne!(with("((field = \"f\", reason = \"r\"))"), none);
    let unexpected = |details: &str| {
        assert_error(&format!("{good}, details = {details})"), item, "unexpected token, expected `)`")
    };
    unexpected("(1)");
    unexpected("((field = 1, reason = \"r\"))");
    unexpected("((nope = \"f\"))");
    unexpected("((field \"f\"))");
    unexpected("((field = \"f\" reason = \"r\"))");
    unexpected("((field = \"f\"), (field = \"f\", reason = \"r\"))");
    unexpected("((field = \"f\", reason = \"r\") 1)");
    assert_eq!(with("((field = 1))"), none);
    assert_error(&format!("{good}, details = (1)), nope"), item, "unknown flag `nope`");
    assert_error("status = 400, error = (details = (1))", item, "missing `description`");
}

#[test]
fn response_arguments_come_in_any_order() {
    let parts = [
        "status = Status::CONFLICT",
        "description = \"d\"",
        "meta",
        "error = (code = \"C\", details = ((field = \"f\", reason = \"r\")))",
        "summary = \"s\"",
    ];
    let item = "type E = ErrorResponse<Trace>;";
    let expected = text(&parts.join(", "), item);
    for turn in 0..parts.len() {
        let mut turned = parts.to_vec();
        turned.rotate_left(turn);
        assert_eq!(text(&turned.join(", "), item), expected);
        turned.swap(0, 3);
        assert_eq!(text(&format!("{},", turned.join(", ")), item), expected);
    }
}

#[test]
fn later_arguments_override_earlier_ones() {
    assert_eq!(
        text("status = 1, description = \"a\", summary = \"s\", status = 2, description = \"b\", summary = \"t\",", ALIAS),
        text("status = 2, description = \"b\", summary = \"t\"", ALIAS),
    );
    let item = "type E = ErrorResponse<()>;";
    assert_eq!(
        text("status = 1, description = \"a\", error = (code = \"x\", message = \"m\"), error = (code = \"y\")", item),
        text("status = 1, description = \"a\", error = (code = \"y\", message = \"m\")", item),
    );
}

#[test]
fn texts_are_escaped() {
    let out = text("status = 200, description = \"say \\\"hi\\\"\\n\"", ALIAS);
    assert!(out.contains("{ \"say \\\"hi\\\"\\n\" }"));
    let out = text("status = 200, description = r#\"say \"hi\"\"#", ALIAS);
    assert!(out.contains("{ \"say \\\"hi\\\"\" }"));
}

#[test]
fn a_sent_email_and_a_missing_resource_are_described() {
    let sent = text(
        "status = 200, description = \"Email sent successfully\"",
        "pub type SendEmailResponse = Response<Email, ()>;",
    );
    assert!(sent.contains("pub struct SendEmailResponse ( pub Response < Email , ( ) > ) ;"));
    assert!(sent.contains("\"data\" . into ( ) , < Email as"));
    assert!(!sent.contains("\"meta\""));
    assert!(sent.contains("( 200u16 , \"Email sent successfully\" )"));
    let missing = text(
        "status = Status::NOT_FOUND,
         description = \"Resource not found\",
         error = (code = \"NOT_FOUND\", message = \"Resource not found\"),",
        "pub type NotFoundErrorResponse = ErrorResponse<()>;",
    );
    assert!(missing.contains("pub struct NotFoundErrorResponse ( pub ErrorResponse < ( ) > ) ;"));
    assert!(missing.contains("\"code\" : { \"type\" : \"string\" , \"example\" : \"NOT_FOUND\" }"));
    assert!(missing.contains("\"message\" : { \"type\" : \"string\" , \"example\" : \"Resource not found\" }"));
    assert!(missing.contains("\"example\" : false"));
    assert!(!missing.contains("\"meta\"") && !missing.contains("\"details\""));
    assert!(missing.contains("( 404u16 , \"Resource not found\" )"));
}
