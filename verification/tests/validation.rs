use proc_macro2::TokenStream;
use sevria_macros::items::ItemStruct;
use sevria_macros::schema::derives_validate;

fn parse_struct(src: &str) -> ItemStruct {
    let tokens: TokenStream = src.parse().expect("lex struct");
    ItemStruct::parse(tokens).ok().expect("parse struct")
}

#[test]
fn detects_garde_on_fields() {
    let s = parse_struct(
        "struct Email {\n    #[garde(email)]\n    from: String,\n    to: String,\n}",
    );
    assert!(derives_validate(&s));
}

#[test]
fn detects_garde_on_struct_and_schema_validate() {
    assert!(derives_validate(&parse_struct(
        "#[garde(custom(validate))]\nstruct Probe {\n    field: String,\n}"
    )));
    assert!(derives_validate(&parse_struct(
        "#[schema(validate)]\nstruct Probe {\n    field: String,\n}"
    )));
}

#[test]
fn an_empty_list_is_no_opt_in() {
    assert!(!derives_validate(&parse_struct("#[schema()] struct Probe { field: String }")));
    assert!(derives_validate(&parse_struct(
        "#[schema()] #[schema(validate,)] struct Probe { field: String }"
    )));
    assert!(!derives_validate(&parse_struct(
        "#[schema(validate, description = \"x\")] struct Probe { field: String }"
    )));
}

#[test]
fn does_not_detect_without_garde() {
    let s = parse_struct("struct Probe {\n    field: String,\n}");
    assert!(!derives_validate(&s));
}
