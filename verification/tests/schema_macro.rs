use proc_macro2::{Delimiter, TokenStream, TokenTree};
use sevria_macros::{schema, try_schema};

fn tokens(src: &str) -> TokenStream {
    src.parse().expect("lex")
}

fn flat(stream: TokenStream) -> Vec<String> {
    let mut out = Vec::new();
    for tree in stream {
        match tree {
            TokenTree::Group(group) => {
                let (open, close) = match group.delimiter() {
                    Delimiter::Parenthesis => ("(", ")"),
                    Delimiter::Brace => ("{", "}"),
                    Delimiter::Bracket => ("[", "]"),
                    Delimiter::None => ("<none>", "</none>"),
                };
                out.push(open.to_string());
                out.extend(flat(group.stream()));
                out.push(close.to_string());
            }
            other => out.push(other.to_string()),
        }
    }
    out
}

fn assert_expands(item: &str, expected: &str) {
    assert_eq!(flat(schema(tokens(item))), flat(tokens(expected)));
}

fn text(item: &str) -> String {
    flat(schema(tokens(item))).join(" ")
}

fn error(message: &str) -> Vec<String> {
    flat(tokens(&format!("::core::compile_error!{{ {:?} }}", message)))
}

fn assert_error(item: &str, message: &str) {
    assert_eq!(flat(schema(tokens(item))), error(message));
}

const ARMS: [(&str, &str); 9] = [
    ("GET", "get"),
    ("POST", "post"),
    ("PUT", "put"),
    ("PATCH", "patch"),
    ("DELETE", "delete"),
    ("OPTIONS", "options"),
    ("HEAD", "head"),
    ("TRACE", "trace"),
    ("CONNECT", "connect"),
];

fn arms(closure: &str, tail: &str) -> String {
    let mut out = String::new();
    for (verb, routing) in ARMS {
        out.push_str(&format!(
            "::sevria_service_kit::http::Method::{verb} => __axum::routing::{routing}({closure}){tail},"
        ));
    }
    out
}

fn machinery(name: &str, vis: &str, merge: &str, closure: &str, state_closure: &str) -> String {
    format!(
        "impl {name} {{
            {merge}
            #[doc(hidden)]
            #[allow(dead_code)]
            {vis} fn __register_route<F, Fut, R>(
                router: &mut ::sevria_service_kit::http::Router,
                path: &str,
                method: ::sevria_service_kit::http::Method,
                handler: F,
            ) where
                F: Fn({name}) -> Fut + Clone + Send + Sync + 'static,
                Fut: ::std::future::Future<Output = R> + Send,
                R: ::sevria_service_kit::http::__private::IntoResponse + Send + 'static,
            {{
                use ::sevria_service_kit::http::__private as __axum;
                let route = match method {{ {plain_arms} }};
                router.add_route(path, route);
            }}
            #[doc(hidden)]
            #[allow(dead_code)]
            {vis} fn __register_route_with_state<State, F, Fut, R>(
                router: &mut ::sevria_service_kit::http::Router,
                path: &str,
                method: ::sevria_service_kit::http::Method,
                handler: F,
            ) where
                F: Fn(::sevria_service_kit::http::Context<{name}, State>) -> Fut + Clone + Send + Sync + 'static,
                Fut: ::std::future::Future<Output = R> + Send,
                R: ::sevria_service_kit::http::__private::IntoResponse + Send + 'static,
                State: Clone + Send + Sync + 'static,
            {{
                use ::sevria_service_kit::http::__private as __axum;
                let __state = router.state_arc::<State>().expect(
                    \"endpoint handler uses `Context<_, State>` but no matching state was registered (call `Router::with_state(...)`)\",
                );
                let route = match method {{ {state_arms} }};
                router.add_route(path, route);
            }}
        }}",
        plain_arms = arms(closure, ""),
        state_arms = arms(state_closure, ".with_state(__state)"),
    )
}

const JSON: &str = "::sevria_service_kit::__private::serde_json::json!";

#[test]
fn expands_a_struct_with_fields_from_every_source() {
    let expected = format!(
        "impl ::sevria_service_kit::http::Endpoint for UpdateUser {{
            fn description() -> &'static str {{ \"Changes a user\" }}
            fn json_schema() -> ::sevria_service_kit::__private::serde_json::Value {{
                {{
                    let mut props = ::sevria_service_kit::__private::serde_json::Map::new();
                    props.insert(\"notify\".into(), {JSON}({{ \"type\": \"boolean\" }}));
                    {{
                        let mut schema = {JSON}({{ \"type\": \"integer\" }});
                        if let Some(obj) = schema.as_object_mut() {{
                            obj.insert(\"description\".into(), ::sevria_service_kit::__private::serde_json::Value::String(\"The user\\nto change\".into()));
                            obj.insert(\"example\".into(), ::sevria_service_kit::__private::serde_json::Value::String(\"7\".into()));
                        }}
                        props.insert(\"userId\".into(), schema);
                    }}
                    props.insert(\"name\".into(), {JSON}({{ \"type\": \"string\" }}));
                    props.insert(\"tags\".into(), {JSON}({{ \"type\": \"array\", \"items\": {JSON}({{ \"type\": \"string\" }}) }}));
                    {JSON}({{ \"type\": \"object\", \"properties\": props, \"required\": [\"userId\", \"tags\"] }})
                }}
            }}
            fn request_fields() -> ::std::vec::Vec<::sevria_service_kit::http::RequestField> {{
                ::std::vec![
                    ::sevria_service_kit::http::RequestField {{
                        name: \"notify\".to_string(),
                        source: ::sevria_service_kit::http::Source::Query,
                        schema: {JSON}({{ \"type\": \"boolean\" }}),
                        required: false,
                        description: None,
                        example: None,
                    }},
                    ::sevria_service_kit::http::RequestField {{
                        name: \"userId\".to_string(),
                        source: ::sevria_service_kit::http::Source::Path,
                        schema: {JSON}({{ \"type\": \"integer\" }}),
                        required: true,
                        description: Some(\"The user\\nto change\".to_string()),
                        example: Some({JSON}(\"7\")),
                    }},
                    ::sevria_service_kit::http::RequestField {{
                        name: \"name\".to_string(),
                        source: ::sevria_service_kit::http::Source::Body,
                        schema: {JSON}({{ \"type\": \"string\" }}),
                        required: false,
                        description: None,
                        example: None,
                    }},
                    ::sevria_service_kit::http::RequestField {{
                        name: \"tags\".to_string(),
                        source: ::sevria_service_kit::http::Source::Body,
                        schema: {JSON}({{ \"type\": \"array\", \"items\": {JSON}({{ \"type\": \"string\" }}) }}),
                        required: true,
                        description: None,
                        example: None,
                    }}
                ]
            }}
        }}
        #[doc(hidden)]
        #[allow(dead_code, non_camel_case_types)]
        #[derive(::serde::Deserialize)]
        struct UpdateUser__RequestPath {{
            #[serde(rename = \"userId\")] pub user_id: u64
        }}
        #[doc(hidden)]
        #[allow(dead_code, non_camel_case_types)]
        #[derive(::serde::Deserialize)]
        struct UpdateUser__RequestQuery {{
            pub notify: Option<bool>
        }}
        #[doc(hidden)]
        #[allow(dead_code, non_camel_case_types)]
        #[derive(::serde::Deserialize)]
        struct UpdateUser__RequestBody {{
            pub name: Option<String>,
            pub tags: Vec<String>
        }}
        {machinery}",
        machinery = machinery(
            "UpdateUser",
            "pub",
            "#[doc(hidden)]
             #[allow(dead_code, non_snake_case)]
             fn __from_request_parts(
                 __path: UpdateUser__RequestPath,
                 __query: UpdateUser__RequestQuery,
                 __body: UpdateUser__RequestBody
             ) -> Self {
                 Self {
                     user_id: __path.user_id,
                     notify: __query.notify,
                     name: __body.name,
                     tags: __body.tags
                 }
             }",
            "{
                let handler = handler.clone();
                move |
                    ::sevria_service_kit::http::__private::Path(__path): ::sevria_service_kit::http::__private::Path<UpdateUser__RequestPath>,
                    ::sevria_service_kit::http::__private::Query(__query): ::sevria_service_kit::http::__private::Query<UpdateUser__RequestQuery>,
                    ::sevria_service_kit::http::__private::Json(__body): ::sevria_service_kit::http::__private::Json<UpdateUser__RequestBody>
                | async move {
                    handler(UpdateUser::__from_request_parts(__path, __query, __body)).await
                }
            }",
            "{
                let handler = handler.clone();
                move |
                    ::sevria_service_kit::http::__private::State(__axum_state): ::sevria_service_kit::http::__private::State<::std::sync::Arc<State>>,
                    ::sevria_service_kit::http::__private::Path(__path): ::sevria_service_kit::http::__private::Path<UpdateUser__RequestPath>,
                    ::sevria_service_kit::http::__private::Query(__query): ::sevria_service_kit::http::__private::Query<UpdateUser__RequestQuery>,
                    ::sevria_service_kit::http::__private::Json(__body): ::sevria_service_kit::http::__private::Json<UpdateUser__RequestBody>
                | async move {
                    handler(::sevria_service_kit::http::Context::new(
                        UpdateUser::__from_request_parts(__path, __query, __body),
                        (*__axum_state).clone()
                    )).await
                }
            }",
        ),
    );
    assert_expands(
        "#[schema(description = \"Changes a user\")]
         pub struct UpdateUser {
             #[schema(from = Source::Query)]
             notify: Option<bool>,
             /// The user
             ///
             /// to change
             #[schema(from = Source::Path, example = \"7\")]
             #[serde(rename = \"userId\")]
             pub user_id: u64,
             name: Option<String>,
             tags: Vec<String>,
         }",
        &expected,
    );
}

#[test]
fn expands_a_validated_struct() {
    let expected_machinery = machinery(
        "Email",
        "",
        "#[doc(hidden)]
         #[allow(dead_code, non_snake_case)]
         fn __from_request_parts(__body: Email__RequestBody) -> Self {
             Self { to: __body.to }
         }",
        "{
            let handler = handler.clone();
            move |::sevria_service_kit::http::__private::Json(__body): ::sevria_service_kit::http::__private::Json<Email__RequestBody>| async move {
                let __request = Email::__from_request_parts(__body);
                match ::sevria_service_kit::Validate::validate(&__request) {
                    Ok(()) => ::sevria_service_kit::http::__private::IntoResponse::into_response(
                        handler(__request).await,
                    ),
                    Err(__report) => ::sevria_service_kit::http::validation_response(__report),
                }
            }
        }",
        "{
            let handler = handler.clone();
            move |
                ::sevria_service_kit::http::__private::State(__axum_state): ::sevria_service_kit::http::__private::State<::std::sync::Arc<State>>,
                ::sevria_service_kit::http::__private::Json(__body): ::sevria_service_kit::http::__private::Json<Email__RequestBody>
            | async move {
                let __request = Email::__from_request_parts(__body);
                match ::sevria_service_kit::Validate::validate(&__request) {
                    Ok(()) => ::sevria_service_kit::http::__private::IntoResponse::into_response(
                        handler(::sevria_service_kit::http::Context::new(__request, (*__axum_state).clone())).await,
                    ),
                    Err(__report) => ::sevria_service_kit::http::validation_response(__report),
                }
            }
        }",
    );
    let out = text("struct Email { #[garde(email)] to: String }");
    assert!(out.ends_with(&flat(tokens(&expected_machinery)).join(" ")));
}

#[test]
fn opting_in_to_validation_is_accepted() {
    let plain = text("struct Probe { field: String }");
    let opted = text("#[schema(validate)] struct Probe { field: String }");
    assert!(!plain.contains("Validate :"));
    assert!(opted.contains("Validate :"));
    let described = text("#[schema(validate)] #[schema(description = \"d\")] struct Probe { field: String }");
    assert!(described.contains("& ' static str { \"d\" }"));
    assert!(described.contains("Validate :"));
}

#[test]
fn opting_in_and_describing_do_not_mix() {
    assert_error(
        "#[schema(validate, description = \"d\")] struct Probe { field: String }",
        "expected `description = \"...\"`",
    );
    assert_error(
        "#[schema(validate = true)] struct Probe { field: String }",
        "expected `description = \"...\"`",
    );
}

#[test]
fn a_unit_struct_has_no_parts() {
    let out = text("struct Ping;");
    assert!(out.contains("fn __from_request_parts ( ) - > Self { Self { } }"));
    assert!(out.contains("move | | async move { handler ( Ping : : __from_request_parts ( ) ) . await }"));
    assert!(!out.contains("Deserialize"));
    assert!(out.contains("\"required\" : [ ]"));
    assert!(out.contains("& ' static str { \"Ping\" }"));
}

#[test]
fn a_generic_struct_is_no_request_type() {
    let out = text("struct Page<T> { items: Vec<T> }");
    assert!(out.starts_with(
        "impl < T > : : sevria_service_kit : : http : : Endpoint for Page < T > {"
    ));
    assert!(!out.contains("__register_route"));
    assert!(out.contains("\"type\" : \"array\" , \"items\" :"));
}

#[test]
fn bounds_are_declared_once() {
    let start = |item: &str| {
        let out = text(item);
        out[..out.find(" { fn description").expect("block")].to_string()
    };
    let joined = |src: &str| flat(tokens(src)).join(" ");
    assert_eq!(
        start("struct Page<'a, T: Clone + 'a, const N: usize = 3> where T: Send { items: &'a [T; N] }"),
        joined("impl<'a, T: Clone + 'a, const N: usize> ::sevria_service_kit::http::Endpoint for Page<'a, T, N> where T: Send"),
    );
    assert_eq!(
        start("struct Page<T = u8> { item: T }"),
        joined("impl<T> ::sevria_service_kit::http::Endpoint for Page<T>"),
    );
    assert_eq!(
        start("struct Plain where u8: Copy { item: u8 }"),
        joined("impl ::sevria_service_kit::http::Endpoint for Plain where u8: Copy"),
    );
}

#[test]
fn json_types_follow_the_last_segment() {
    let out = text(
        "struct S {
            a: &'static str, b: std::string::String, c: u8, d: i128, e: f32, f: bool,
            g: Vec<Option<Vec<u64>>>, h: Option<Option<u8>>, i: Vec, j: Option<(u8, u8)>, k: Custom,
        }",
    );
    let json = |kind: &str| flat(tokens(&format!("{JSON}({{ \"type\": \"{kind}\" }})"))).join(" ");
    let prop = |name: &str, value: &str| format!("props . insert ( \"{name}\" . into ( ) , {value} ) ;");
    for (name, kind) in [
        ("a", "string"),
        ("b", "string"),
        ("c", "integer"),
        ("d", "integer"),
        ("e", "number"),
        ("f", "boolean"),
        ("h", "string"),
        ("i", "array"),
        ("j", "string"),
        ("k", "string"),
    ] {
        assert!(out.contains(&prop(name, &json(kind))), "{name}");
    }
    let nested = flat(tokens(&format!(
        "{JSON}({{ \"type\": \"array\", \"items\": {JSON}({{ \"type\": \"array\", \"items\": {JSON}({{ \"type\": \"integer\" }}) }}) }})"
    )))
    .join(" ");
    assert!(out.contains(&prop("g", &nested)));
    assert!(out.contains(
        "\"required\" : [ \"a\" , \"b\" , \"c\" , \"d\" , \"e\" , \"f\" , \"g\" , \"i\" , \"k\" ]"
    ));
}

#[test]
fn a_description_beats_the_doc_comment() {
    let out = text("struct S { /// from the docs\n #[schema(description = \"said\")] a: u8 }");
    assert!(out.contains("Some ( \"said\" . to_string ( ) )"));
    assert!(!out.contains("from the docs"));
    let out = text("struct S { /// from the docs\n a: u8 }");
    assert!(out.contains("Some ( \"from the docs\" . to_string ( ) )"));
}

#[test]
fn renaming_keeps_what_was_read_before_a_mistake() {
    let name = |attr: &str| {
        let out = text(&format!("struct S {{ {attr} a: u8 }}"));
        let start = out.find("name : \"").expect("name") + 8;
        out[start..start + out[start..].find('"').expect("quote")].to_string()
    };
    assert_eq!(name(""), "a");
    assert_eq!(name("#[serde(rename = \"b\")]"), "b");
    assert_eq!(name("#[serde(rename = \"b\", rename = \"c\")]"), "c");
    assert_eq!(name("#[serde(rename = \"b\", default = \"x\")]"), "b");
    assert_eq!(name("#[serde(default = \"x\", rename = \"b\")]"), "b");
    assert_eq!(name("#[serde(alias = \"x, rename\", with = a::b::<C>, bound(serialize = \"D\"), rename = \"b\")]"), "b");
    assert_eq!(name("#[serde(rename = \"b\", rename(serialize = \"c\"), rename = \"d\")]"), "b");
    assert_eq!(name("#[serde(default \"x\", rename = \"b\",)]"), "b");
    assert_eq!(name("#[serde(, rename = \"b\")]"), "a");
    assert_eq!(name("#[serde(default, rename = \"b\")]"), "b");
    assert_eq!(name("#[serde(rename = 1)]"), "a");
    assert_eq!(name("#[serde(rename)]"), "a");
    assert_eq!(name("#[serde]"), "a");
    assert_eq!(name("#[serde(default)] #[serde(rename = \"b\")] #[serde(rename = \"c\")]"), "b");
}

#[test]
fn a_raw_field_keeps_its_mark() {
    let out = text("struct S { r#type: u8 }");
    assert!(out.contains("name : \"r#type\" . to_string ( )"));
    assert!(out.contains("r#type : __body . r#type"));
    let out = text("struct r#Self_ { a: u8 }");
    assert!(out.contains("struct Self___RequestBody {"));
}

#[test]
fn mistakes_in_attributes_are_reported() {
    assert_error("struct S { #[schema(from = Source::Header)] a: u8 }",
        "expected `Source::Path`, `Source::Query`, or `Source::Body`, found `Header`");
    assert_error("struct S { #[schema(from = try)] a: u8 }",
        "expected `Source::Path`, `Source::Query`, or `Source::Body`, found `try`");
    assert_error("struct S { #[schema(nope)] a: u8 }", "expected `from`, `description`, or `example`");
    assert_error("struct S { #[schema(a::b = 1)] a: u8 }", "expected `from`, `description`, or `example`");
    assert_error("struct S { #[schema(from)] a: u8 }", "expected `=`");
    assert_error("struct S { #[schema(description = 1)] a: u8 }", "expected string literal");
    assert_error("struct S { #[schema(example =)] a: u8 }",
        "unexpected end of input, expected string literal");
    assert_error("struct S { #[schema(example = \"x\" \"y\")] a: u8 }", "expected `,`");
    assert_error("#[schema(title = \"x\")] struct S { a: u8 }", "expected `description = \"...\"`");
    assert_error("#[schema(description)] struct S { a: u8 }", "expected `=`");
    assert_error("#[schema(description = 1)] struct S { a: u8 }", "expected string literal");
    assert_error("#[schema(description = \"x\" \"y\")] struct S { a: u8 }", "expected `,`");
    assert_error("#[schema] struct S { a: u8 }",
        "expected attribute arguments in parentheses: #[schema(...)]");
    assert_error("#[schema = 1] struct S { a: u8 }", "expected parentheses: #[schema(...)]");
    assert_error("enum E {}", "expected `struct`");
}

#[test]
fn later_attributes_override_earlier_ones() {
    let out = text(
        "#[schema(description = \"one\", description = \"two\",)] struct S {
            #[schema(from = Path, from = Query, example = \"x\", example = \"y\",)] a: u8
        }",
    );
    assert!(out.contains("& ' static str { \"two\" }"));
    assert!(out.contains("Source : : Query"));
    assert!(!out.contains("Source : : Path"));
    assert!(out.contains("json ! ( \"y\" )"));
}

#[test]
fn unnamed_fields_are_not_expanded() {
    assert!(try_schema(tokens("struct Pair(u8, u8);")).is_none());
    assert!(try_schema(tokens("#[schema(validate)] struct Pair(u8, u8);")).is_none());
    let reported = try_schema(tokens("#[schema(nope)] struct Pair(u8, u8);")).expect("error");
    assert_eq!(flat(reported), error("expected `description = \"...\"`"));
    let reported = try_schema(tokens("enum E {}")).expect("error");
    assert_eq!(flat(reported), error("expected `struct`"));
    let item = "struct Named { a: u8 }";
    assert_eq!(flat(try_schema(tokens(item)).expect("expansion")), flat(schema(tokens(item))));
}
