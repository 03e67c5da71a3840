use proc_macro2::{Delimiter, Span, TokenStream, TokenTree};
use sevria_macros::args::OpenApiArgs;
use sevria_macros::endpoint::schema_names;
use sevria_macros::items::ItemFn;
use sevria_macros::router::build_method_registration;
use sevria_macros::{router, try_router};

fn tokens(src: &str) -> TokenStream {
    src.parse().expect("lex")
}

fn flat(stream: TokenStream) -> Vec<String> {
    let mut out = Vec::new();
    for tree in stream {
        match tree {
            TokenTree::Group(group) => {
                let (open, close) = match group.delimiter() {
                    Delimiter::Parenthesis => ("(", ")"),
                    Delimiter::Brace => ("{", "}"),
                    Delimiter::Bracket => ("[", "]"),
                    Delimiter::None => ("<none>", "</none>"),
                };
                out.push(open.to_string());
                out.extend(flat(group.stream()));
                out.push(close.to_string());
            }
            other => out.push(other.to_string()),
        }
    }
    out
}

fn text(item: &str) -> String {
    flat(router(TokenStream::new(), tokens(item))).join(" ")
}

fn joined(src: &str) -> String {
    flat(tokens(src)).join(" ")
}

fn assert_error(item: &str, message: &str) {
    assert_eq!(text(item), joined(&format!("::core::compile_error!{{ {:?} }}", message)));
}

#[test]
fn expands_an_impl_block() {
    let item = "
        #[allow(unused)]
        impl<T: Clone> Greeter<T> where T: Send {
            const LIMIT: usize = 3;
            fn helper(&self) -> usize { 1 }
            #[inline]
            #[endpoint(method = \"POST\", request = crate::Greeting, responses = (Greeted))]
            #[cold]
            pub async fn greet(self, req: crate::Greeting) -> Result<Greeted, Error> {
                #![allow(dead_code)]
                #![endpoint(ignored)]
                todo();
                done()
            }
            #[endpoint(path = \"/status\")]
            async fn status(mut self) -> Status { Status }
            #[endpoint()]
            async fn check(self) -> Result<()> { Ok(()) }
        }";
    let expected = "
        #[allow(unused)]
        impl<T: Clone> Greeter<T> where T: Send {
            const LIMIT: usize = 3;
            fn helper(&self) -> usize { 1 }
            #[inline]
            #[cold]
            pub async fn greet(self, req: crate::Greeting) -> Result<Greeted, Error> {
                #![allow(dead_code)]
                todo();
                done()
            }
            async fn status(mut self) -> Status { Status }
            async fn check(self) -> Result<()> { Ok(()) }
            #[doc = \" Build the router: registers every `#[endpoint]` route plus its\"]
            #[doc = \" OpenAPI metadata. The router struct must be `Clone` so each route\"]
            #[doc = \" can capture a copy of it.\"]
            pub fn into_router(self) -> ::sevria_service_kit::http::Router {
                let mut router = ::sevria_service_kit::http::Router::new();
                {
                    <crate::Greeting>::__register_route(
                        &mut router,
                        \"/greet\",
                        ::sevria_service_kit::http::Method::POST,
                        {
                            let this = self.clone();
                            move |__req: crate::Greeting| {
                                let this = this.clone();
                                async move { ::sevria_service_kit::http::result_to_response(this.greet(__req).await) }
                            }
                        },
                    );
                    let __fields = <crate::Greeting as ::sevria_service_kit::http::Endpoint>::request_fields();
                    let __body_schema_name = \"GreetingBody\";
                    let __doc = ::sevria_service_kit::http::path::post(\"/greet\")
                        .parameters(::sevria_service_kit::http::parameters_from_fields(&__fields, ::sevria_service_kit::http::Source::Path,))
                        .parameters(::sevria_service_kit::http::parameters_from_fields(&__fields, ::sevria_service_kit::http::Source::Query,));
                    let __doc = if __fields.iter().any(|f| f.source == ::sevria_service_kit::http::Source::Body) {
                        __doc.json_request_with_schema(\"Request body\", __body_schema_name)
                    } else {
                        __doc
                    };
                    router.describe(__doc
                        .json_content_response(
                            &format!(\"{}\", <Greeted>::__openapi_response_meta().0),
                            <Greeted>::__openapi_response_meta().1,
                            \"Greeted\",
                        ));
                    if __fields.iter().any(|f| f.source == ::sevria_service_kit::http::Source::Body) {
                        router.add_schema(__body_schema_name, ::sevria_service_kit::http::body_schema_from_fields(&__fields),);
                    }
                    router.add_schema(\"Greeted\", <Greeted as ::sevria_service_kit::http::Endpoint>::json_schema());
                }
                {
                    router.get(
                        \"/status\",
                        {
                            let this = self.clone();
                            move || {
                                let this = this.clone();
                                async move { this.status().await }
                            }
                        },
                    );
                    router.describe(::sevria_service_kit::http::path::get(\"/status\"));
                }
                {
                    router.add_route(
                        \"/check\",
                        ::sevria_service_kit::http::__private::routing::get(
                            {
                                let this = self.clone();
                                move || {
                                    let this = this.clone();
                                    async move {
                                        ::sevria_service_kit::http::result_to_response(this.check().await)
                                    }
                                }
                            },
                        ),
                    );
                    router.describe(::sevria_service_kit::http::path::get(\"/check\"));
                }
                router
            }
        }";
    assert_eq!(
        flat(router(TokenStream::new(), tokens(item))),
        flat(tokens(expected)),
    );
}

#[test]
fn a_request_is_inferred_from_the_one_parameter() {
    let out = text("impl A { #[endpoint()] async fn greet(self, req: Greeting) -> Greeted { x } }");
    assert!(out.contains(&joined("<Greeting>::__register_route")));
    assert!(out.contains(&joined("::sevria_service_kit::http::__private::Json(this.greet(__req).await)")));
    assert!(out.contains(&joined(
        "let __fields = <Greeting as ::sevria_service_kit::http::Endpoint>::request_fields();
         let __body_schema_name = \"GreetingBody\";",
    )));
    let out = text("impl A { #[endpoint()] async fn greet(self, req: GreetingRequest) {} }");
    assert!(out.contains(&joined("move |__req: GreetingRequest|")));
    let out = text("impl A { #[endpoint(request = R)] async fn greet(self, a: X, b: Y) {} }");
    assert!(out.contains(&joined("<R>::__register_route")));
}

#[test]
fn an_inferred_request_is_as_good_as_a_given_one() {
    let method = "async fn greet(self, req: crate::a::Greeting) -> Greeted { x }";
    for rest in ["", "responses = (Greeted)", "method = \"put\", request_desc = \"who\"", "path = \"/{id}\""] {
        assert_eq!(
            text(&format!("impl A {{ #[endpoint({rest})] {method} }}")),
            text(&format!("impl A {{ #[endpoint(request = crate::a::Greeting, {rest})] {method} }}")),
        );
    }
    let out = text("impl A { #[endpoint()] async fn greet(self) -> Greeted { x } }");
    assert!(!out.contains("__fields"));
}

#[test]
fn registrations_are_built_one_by_one() {
    let sig = |src: &str| ItemFn::parse(tokens(src)).ok().expect("function").sig;
    let args = |src: &str| OpenApiArgs::parse(tokens(src), Span::call_site()).ok().expect("arguments");
    let build = |item: &str, given: &str| {
        let names = schema_names(&args("request = R, responses = (A)"));
        let built = build_method_registration(&sig(item), args(given), &names);
        built.map(|block| flat(block).join(" ")).map_err(|error| flat(error.to_compile_error()).join(" "))
    };
    let inferred = build("fn f(self, r: R) {}", "responses = (A)");
    assert!(inferred.is_ok());
    assert_eq!(inferred, build("fn f(self, r: R) {}", "responses = (A), request = R"));
    assert!(build("fn f(&self, r: R) {}", "responses = (A)").is_err());
    assert!(build("fn f(self, r: R, s: S) {}", "responses = (A)").is_err());
    assert!(build("fn f(self, r: R, s: S) {}", "responses = (A), request = R").is_ok());
}

#[test]
fn a_trait_is_dropped_and_modifiers_stay() {
    let out = text("#[a] #[b] unsafe impl Tr for S { type X = u8; }");
    assert!(out.starts_with(&joined("#[a] #[b] unsafe impl S")));
    assert!(out.contains("{ type X = u8 ; "));
    let out = text("#[a] impl S { #![inner] #![more] const X: u8 = 1; }");
    let front = joined("#[a] #![inner] #![more] impl S");
    let inside = joined("const X: u8 = 1;");
    assert!(out.starts_with(&format!("{front} {{ {inside} ")));
}

#[test]
fn an_impl_block_without_endpoints_gets_an_empty_router() {
    let out = text("impl S { fn f() {} }");
    assert!(out.contains("Router : : new ( ) ; router }"));
    assert!(out.starts_with("impl S { fn f ( ) { } # [ doc"));
}

#[test]
fn mistakes_in_an_impl_block_are_reported() {
    let takes_self = "`#[endpoint]` methods must take `self` by value";
    assert_error("impl A { #[endpoint()] async fn f(&self) {} }", takes_self);
    assert_error("impl A { #[endpoint()] async fn f(&mut self) {} }", takes_self);
    assert_error("impl A { #[endpoint()] async fn f(self: Box<Self>) {} }", takes_self);
    assert_error("impl A { #[endpoint()] async fn f() {} }", takes_self);
    assert_error("impl A { #[endpoint()] async fn f(a: u8) {} }", takes_self);
    assert_error(
        "impl A { #[endpoint()] async fn f(self, a: u8, b: u8) {} }",
        "endpoint methods take `self` and at most one request parameter; specify `request = T` explicitly",
    );
    assert_error("impl A { #[endpoint] async fn f(self) {} }",
        "expected attribute arguments in parentheses: #[endpoint(...)]");
    assert_error("impl A { #[endpoint = 1] async fn f(self) {} }", "expected parentheses: #[endpoint(...)]");
    assert_error("impl A { #[endpoint(nope)] async fn f(self) {} }", "unknown flag `nope`");
    assert_error("impl A { #[endpoint(a = 1)] #[endpoint(b)] async fn f(self) {} }", "unknown key `a`");
    assert_error(
        "impl A { #[endpoint(one)] async fn f(self) {} #[endpoint(two)] async fn g(self) {} }",
        "unknown flag `one`",
    );
    assert_error("struct S;", "expected `impl`");
}

#[test]
fn a_router_takes_no_arguments() {
    assert_eq!(
        flat(router(tokens("x"), tokens("struct S;"))).join(" "),
        joined("::core::compile_error!{ \"`#[router]` takes no arguments\" }"),
    );
}

#[test]
fn an_endpoint_whose_method_is_no_name_is_not_expanded() {
    let none = |item: &str| assert!(try_router(TokenStream::new(), tokens(item)).is_none(), "{item}");
    none("impl A { #[endpoint(method = \"\")] async fn f(self) {} }");
    none("impl A { #[endpoint(method = \"a b\", request = R)] async fn f(self) {} }");
    none("impl A { #[endpoint(method = \"\")] async fn f(self, a: u8, b: u8) {} }");
    none("impl A { #[endpoint(method = \"\")] async fn f(self) {} #[endpoint(x)] async fn g(self) {} }");
    let some = |item: &str| {
        let out = try_router(TokenStream::new(), tokens(item)).expect("expansion");
        assert_eq!(flat(out).join(" "), text(item));
    };
    some("impl A { #[endpoint(x)] async fn g(self) {} #[endpoint(method = \"\")] async fn f(self) {} }");
    some("impl A { #[endpoint(method = \"\")] async fn f(&self) {} }");
    some("impl A { #[endpoint(method = \"custom\")] async fn f(self) {} }");
    assert!(try_router(tokens("x"), tokens("impl A {}")).is_some());
}
