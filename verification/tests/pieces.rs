use proc_macro2::{Span, TokenStream};
use sevria_macros::args::{method_from_expr, OpenApiArgs, ResponseEntry};
use sevria_macros::endpoint::{
    gen_response_calls, gen_schema_registrations, is_result_return, parse_context_handler,
    request_method_ident, schema_name_from, schema_names, type_to_schema_name, SchemaNames,
};
use sevria_macros::error::MacroError;
use sevria_macros::fields::{
    doc_comment, is_option_type, parse_field_infos, serde_rename, source_from_path, SourceKind,
};
use sevria_macros::input::{check_leftover, Input, Node};
use sevria_macros::items::{Field, ItemFn, ItemStruct};
use sevria_macros::json::infer_json_type;
use sevria_macros::response::{extract_error_response_type_args, extract_response_type_args, is_unit_type};
use sevria_macros::status::status_from_expr;
use sevria_macros::syntax::{Expr, ExprKind, Segment, Type, TypeKind};
use sevria_macros::tokens::{Delimiter, Ident};

fn tokens(src: &str) -> TokenStream {
    src.parse().expect("lex")
}

fn ty(src: &str) -> Type {
    Input::new(tokens(src), Span::call_site()).ty().ok().expect("type")
}

fn expr(src: &str) -> Expr {
    Input::new(tokens(src), Span::call_site()).expr().ok().expect("expression")
}

fn args(src: &str) -> OpenApiArgs {
    OpenApiArgs::parse(tokens(src), Span::call_site()).ok().expect("arguments")
}

fn field(src: &str) -> Field {
    let mut item = ItemStruct::parse(tokens(&format!("struct S {{ {src} }}"))).ok().expect("struct");
    item.fields.remove(0)
}

fn report(error: MacroError) -> String {
    error.to_compile_error().to_string()
}

#[test]
fn methods_are_put_into_lower_case() {
    assert_eq!(method_from_expr(&expr("\"PoSt\"")).ok(), Some("post".to_string()));
    assert_eq!(method_from_expr(&expr("http::Method::POST")).ok(), Some("post".to_string()));
    assert_eq!(request_method_ident(&"post".to_string()).to_text(), "POST");
    assert!(method_from_expr(&Expr { tokens: tokens("1"), kind: ExprKind::Lit, span: Span::call_site() }).is_err());
}

#[test]
fn statuses_are_numbers_of_sixteen_bits() {
    let digits = |text: &str| {
        status_from_expr(&Expr {
            tokens: TokenStream::new(),
            kind: ExprKind::Int(text.to_string()),
            span: Span::call_site(),
        })
    };
    assert_eq!(digits("0").ok(), Some(0));
    assert_eq!(digits("00422").ok(), Some(422));
    assert_eq!(digits("65535").ok(), Some(65535));
    assert!(report(digits("65536").err().expect("error")).contains("number too large to fit in target type"));
    assert!(report(digits("").err().expect("error")).contains("cannot parse integer from empty string"));
    assert!(report(digits("-1").err().expect("error")).contains("invalid digit found in string"));
    assert!(report(digits("99999x").err().expect("error")).contains("invalid digit found in string"));
    assert_eq!(status_from_expr(&expr("Status::CONFLICT")).ok(), Some(409));
}

#[test]
fn sources_are_named_by_the_last_segment() {
    let source = |names: &[&str]| {
        let segments: Vec<Segment> = names
            .iter()
            .map(|name| Segment { ident: name.to_string(), span: Span::call_site() })
            .collect();
        source_from_path(&segments, Span::call_site())
    };
    assert!(matches!(source(&["Source", "Path"]), Ok(SourceKind::Path)));
    assert!(matches!(source(&["Query"]), Ok(SourceKind::Query)));
    assert!(matches!(source(&["Path", "Body"]), Ok(SourceKind::Body)));
    assert!(report(source(&["Path", "Header"]).err().expect("error")).contains("found `Header`"));
    assert!(report(source(&[]).err().expect("error")).contains("expected a source path"));
}

#[test]
fn a_path_without_segments_is_no_status_and_no_method() {
    let empty = Expr { tokens: TokenStream::new(), kind: ExprKind::Path(Vec::new()), span: Span::call_site() };
    assert!(report(status_from_expr(&empty).err().expect("error")).contains("expected `Status::UNPROCESSABLE_ENTITY`"));
    assert!(report(method_from_expr(&empty).err().expect("error")).contains("expected `Method::POST`"));
}

#[test]
fn expressions_are_told_apart() {
    assert!(matches!(expr("\"a\"").kind, ExprKind::Str(ref s) if s == "a"));
    assert!(matches!(expr("0xFF_u8").kind, ExprKind::Int(ref s) if s == "255"));
    assert!(matches!(expr("1.5").kind, ExprKind::Lit));
    let segments = |src: &str| match expr(src).kind {
        ExprKind::Path(list) => list.into_iter().map(|segment| segment.ident).collect::<Vec<String>>(),
        _ => panic!("no path"),
    };
    assert_eq!(segments("a::b::<C>"), vec!["a", "b"]);
    assert_eq!(segments("::x"), vec!["x"]);
    assert!(matches!(expr("f(x)").kind, ExprKind::Other));
}

#[test]
fn types_are_told_apart() {
    assert!(matches!(ty("a<X>::B<C, 'd, 3>").kind, TypeKind::Path(ref list) if list.len() == 2
        && list[0].ident == "a" && matches!(list[0].args, Some(ref args) if args.len() == 1)
        && list[1].ident == "B" && matches!(list[1].args, Some(ref args) if args.len() == 3)));
    assert_eq!(ty("a::B<C>").last_segment().expect("segment").ident, "B");
    assert!(ty("B").last_segment().expect("segment").args.is_none());
    assert!(ty("(A)").last_segment().is_none());
    assert!(matches!(ty("(A)").kind, TypeKind::Paren(_)));
    assert!(matches!(ty("(A, B)").kind, TypeKind::Tuple(2)));
    assert!(matches!(ty("&A").kind, TypeKind::Other));
    assert_eq!(ty("a::B<C>").copy().tokens.to_string(), ty("a::B<C>").tokens.to_string());
    assert!(is_unit_type(&ty("()")));
    assert!(is_unit_type(&ty("((()))")));
    assert!(!is_unit_type(&ty("((),)")));
    assert!(is_option_type(&ty("std::option::Option<u8>")));
    assert!(!is_option_type(&ty("Vec<Option<u8>>")));
}

#[test]
fn type_arguments_are_extracted() {
    let (data, meta) = extract_response_type_args(&ty("Response<'a, Email, 3, Page>"));
    assert_eq!((data.tokens.to_string(), meta.tokens.to_string()), ("Email".to_string(), "Page".to_string()));
    let (data, meta) = extract_response_type_args(&ty("Response<Email>"));
    assert_eq!(data.tokens.to_string(), "Email");
    assert!(is_unit_type(&meta));
    assert_eq!(extract_error_response_type_args(&ty("ErrorResponse<Trace>")).tokens.to_string(), "Trace");
    assert!(is_unit_type(&extract_error_response_type_args(&ty("ErrorResponse<'a, Trace>"))));
}

#[test]
fn schemas_are_named_by_the_last_segment_or_as_printed() {
    assert_eq!(type_to_schema_name(&ty("crate::model::email::SendEmailResponse")), "SendEmailResponse");
    assert_eq!(type_to_schema_name(&ty("Vec<Email>")), "Vec");
    assert_eq!(schema_name_from(&ty("[u8; 3]"), "printed".to_string()), "printed");
    assert_eq!(schema_name_from(&ty("a::B"), "printed".to_string()), "B");
    let names = schema_names(&args("request = a::R, responses = (A, (status = 1, schema = b::B))"));
    assert_eq!(names.request, "R");
    assert_eq!(names.responses, vec!["A".to_string(), "B".to_string()]);
}

#[test]
fn a_name_is_registered_once_and_in_order() {
    let args = args("responses = (b::B, A, c::B, (status = 1, schema = A), C)");
    let names = SchemaNames {
        request: String::new(),
        responses: ["B", "A", "B", "A", "C"].iter().map(|name| name.to_string()).collect(),
    };
    let out: Vec<String> = gen_schema_registrations(&args, &names)
        .into_iter()
        .map(|stream| stream.to_string().replace(' ', ""))
        .collect();
    assert_eq!(
        out,
        vec![
            "router.add_schema(\"B\",<b::Bas::sevria_service_kit::http::Endpoint>::json_schema());",
            "router.add_schema(\"A\",<Aas::sevria_service_kit::http::Endpoint>::json_schema());",
            "router.add_schema(\"C\",<Cas::sevria_service_kit::http::Endpoint>::json_schema());",
        ],
    );
    assert_eq!(gen_response_calls(&args, &names).len(), 5);
    assert!(matches!(args.responses[3], ResponseEntry::Full(_)));
}

#[test]
fn handlers_are_looked_at() {
    let item = |src: &str| ItemFn::parse(tokens(src)).ok().expect("function");
    let (request, state) =
        parse_context_handler(&item("fn f(c: a::Context<R, S>) {}").sig.params).expect("context");
    assert_eq!((request.tokens.to_string(), state.tokens.to_string()), ("R".to_string(), "S".to_string()));
    assert!(parse_context_handler(&item("fn f(c: R) {}").sig.params).is_none());
    assert!(is_result_return(&item("fn f() -> io::Result<u8> {}").sig));
    assert!(!is_result_return(&item("fn f() -> Option<u8> {}").sig));
    assert!(!is_result_return(&item("fn f() {}").sig));
    assert_eq!(item("fn r#fn() {}").sig.ident.to_text(), "r#fn");
}

#[test]
fn doc_comments_are_joined() {
    assert_eq!(doc_comment(&field("a: u8")), None);
    assert_eq!(doc_comment(&field("#[doc = \"  \"] a: u8")), None);
    assert_eq!(doc_comment(&field("#[doc(hidden)] a: u8")), None);
    assert_eq!(
        doc_comment(&field("/// one \n///\n#[doc = \"\u{2003}two\u{a0}\"] a: u8")),
        Some("one\ntwo".to_string()),
    );
}

#[test]
fn a_new_name_is_found_behind_other_attributes() {
    let name = |src: &str| serde_rename(&field(src));
    assert_eq!(
        name("#[serde(skip_serializing_if = \"Option::is_none\", rename = \"x\")] y: Option<u8>"),
        Some("x".to_string()),
    );
    assert_eq!(name("#[serde(skip_serializing_if = \"Option::is_none\")] y: Option<u8>"), None);
}

#[test]
fn fields_are_described() {
    let infos = parse_field_infos(&vec![
        field("#[schema(from = Source::Path)] pub a: Option<u8>"),
        field("#[serde(skip)] #[x] #[serde(rename = \"B\")] b: u8"),
    ])
    .ok()
    .expect("fields");
    assert_eq!(infos.len(), 2);
    assert!(infos[0].source == SourceKind::Path && infos[1].source == SourceKind::Body);
    assert!(!infos[0].required && infos[1].required);
    assert_eq!((infos[0].json_name.as_str(), infos[1].json_name.as_str()), ("a", "B"));
    assert_eq!((infos[0].serde_attrs.len(), infos[1].serde_attrs.len()), (0, 2));
    assert_eq!(
        infer_json_type(&infos[0].ty).to_string(),
        infer_json_type(&ty("u8")).to_string(),
    );
}

#[test]
fn identifiers_are_recognised() {
    for text in ["a", "_", "type", "r#type", "été"] {
        assert_eq!(Ident::from_text(text).expect("identifier").to_text(), text);
    }
    for text in ["", "1a", "a b", " a", "a-b", "\"a\"", "r#crate"] {
        assert!(Ident::from_text(text).is_none(), "{text}");
    }
}

#[test]
fn inputs_are_read_step_by_step() {
    let mut input = Input::new(tokens("a = \"x\", (b) c::D<E> rest"), Span::call_site());
    assert_eq!(input.ident().ok().expect("identifier").to_text(), "a");
    assert!(input.peek_eq());
    assert!(input.eq().is_ok());
    assert_eq!(input.string().ok().as_deref(), Some("x"));
    assert!(input.comma().is_ok());
    assert!(input.peek_parens());
    let mut inner = input.enter_parens().ok().expect("parentheses");
    assert_eq!(inner.meta_path().ok().map(|(name, _)| name), Some(Some("b".to_string())));
    assert!(inner.is_empty());
    input.leave(inner);
    assert_eq!(input.node(Node::Path).ok().expect("path").to_string().replace(' ', ""), "c::D<E>");
    assert!(!input.is_empty());
    assert!(report(check_leftover(input.tokens, Delimiter::Bracket).expect("leftover"))
        .contains("unexpected token, expected `]`"));
    assert!(check_leftover(TokenStream::new(), Delimiter::Brace).is_none());
}
