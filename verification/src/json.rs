//! JSON schemas for structs and their fields.

use crate::fields::{info_views, is_option, is_option_type, FieldInfo, FieldInfoModel};
use crate::syntax::{
    first_type_arg, first_type_arg_of, last_segment, lemma_first_type_arg_smaller, Type, TypeModel,
};
use crate::text::{maybe, text_is};
use crate::tokens::{
    append, braces, brackets, code, comma_separated, commas, concat, concatenated, emit, grouped,
    lexed, parens, streams, string_literal, string_tree, trees, Delimiter, Tok,
};
use proc_macro2::TokenStream;
use vstd::prelude::*;

verus! {

// ---------------------------------------------------------------------------
// The schema of a type
// ---------------------------------------------------------------------------

/// The JSON types of the Rust types that are not lists.
pub open spec fn scalar_code(name: Seq<char>) -> Seq<Tok> {
    if name == "bool"@ {
        lexed("::sevria_service_kit::__private::serde_json::json!({ \"type\": \"boolean\" })"@)
    } else if name == "i8"@ || name == "i16"@ || name == "i32"@ || name == "i64"@ || name == "i128"@
        || name == "isize"@ || name == "u8"@ || name == "u16"@ || name == "u32"@ || name == "u64"@
        || name == "u128"@ || name == "usize"@ {
        lexed("::sevria_service_kit::__private::serde_json::json!({ \"type\": \"integer\" })"@)
    } else if name == "f32"@ || name == "f64"@ {
        lexed("::sevria_service_kit::__private::serde_json::json!({ \"type\": \"number\" })"@)
    } else {
        lexed("::sevria_service_kit::__private::serde_json::json!({ \"type\": \"string\" })"@)
    }
}

/// The type inside an `Option`; any other type as it is.
pub open spec fn without_option(ty: TypeModel) -> TypeModel {
    if is_option(ty) && first_type_arg(ty) is Some {
        first_type_arg(ty)->0
    } else {
        ty
    }
}

/// The code that builds the JSON schema of a type. One `Option` around it makes
/// no difference, and a type that is not known counts as a string.
pub open spec fn json_type_code(ty: TypeModel) -> Seq<Tok>
    decreases ty,
{
    let inner = without_option(ty);
    match last_segment(inner) {
        Some(segment) => if segment.ident == "Vec"@ {
            match first_type_arg(inner) {
                Some(item) => {
                    proof {
                        lemma_first_type_arg_smaller(ty);
                        lemma_first_type_arg_smaller(inner);
                    }
                    lexed("::sevria_service_kit::__private::serde_json::json!"@) + grouped(
                        Delimiter::Parenthesis,
                        grouped(
                            Delimiter::Brace,
                            lexed("\"type\": \"array\", \"items\":"@) + json_type_code(item),
                        ),
                    )
                },
                None => lexed(
                    "::sevria_service_kit::__private::serde_json::json!({ \"type\": \"array\" })"@,
                ),
            }
        } else {
            scalar_code(segment.ident)
        },
        None => lexed("::sevria_service_kit::__private::serde_json::json!({ \"type\": \"string\" })"@),
    }
}

fn scalar_type(name: &String) -> (stream: TokenStream)
    ensures
        trees(stream) == scalar_code(name@),
{
    if text_is(name, "bool") {
        code("::sevria_service_kit::__private::serde_json::json!({ \"type\": \"boolean\" })")
    } else if text_is(name, "i8") || text_is(name, "i16") || text_is(name, "i32") || text_is(
        name,
        "i64",
    ) || text_is(name, "i128") || text_is(name, "isize") || text_is(name, "u8") || text_is(
        name,
        "u16",
    ) || text_is(name, "u32") || text_is(name, "u64") || text_is(name, "u128") || text_is(
        name,
        "usize",
    ) {
        code("::sevria_service_kit::__private::serde_json::json!({ \"type\": \"integer\" })")
    } else if text_is(name, "f32") || text_is(name, "f64") {
        code("::sevria_service_kit::__private::serde_json::json!({ \"type\": \"number\" })")
    } else {
        code("::sevria_service_kit::__private::serde_json::json!({ \"type\": \"string\" })")
    }
}

/// The code that builds the JSON schema of a type.
pub fn infer_json_type(ty: &Type) -> (stream: TokenStream)
    ensures
        trees(stream) == json_type_code(ty@),
    decreases ty@,
{
    let mut inner = ty;
    if is_option_type(ty) {
        if let Some(arg) = first_type_arg_of(ty) {
            inner = arg;
        }
    }
    match inner.last_segment() {
        Some(segment) => {
            if text_is(&segment.ident, "Vec") {
                match first_type_arg_of(inner) {
                    Some(item) => {
                        proof {
                            lemma_first_type_arg_smaller(ty@);
                            lemma_first_type_arg_smaller(inner@);
                        }
                        let mut content = code("\"type\": \"array\", \"items\":");
                        append(&mut content, infer_json_type(item));
                        let mut stream = code("::sevria_service_kit::__private::serde_json::json!");
                        append(&mut stream, parens(braces(content)));
                        stream
                    },
                    None => code(
                        "::sevria_service_kit::__private::serde_json::json!({ \"type\": \"array\" })",
                    ),
                }
            } else {
                scalar_type(&segment.ident)
            }
        },
        None => code(
            "::sevria_service_kit::__private::serde_json::json!({ \"type\": \"string\" })",
        ),
    }
}

// ---------------------------------------------------------------------------
// The schema of a struct
// ---------------------------------------------------------------------------

/// The code that puts a text into the schema of a field under the given key.
pub open spec fn schema_entry_code(key: Seq<Tok>, text: Option<Seq<char>>) -> Seq<Tok> {
    match text {
        Some(t) => lexed("obj.insert"@) + grouped(
            Delimiter::Parenthesis,
            key + lexed(".into(), ::sevria_service_kit::__private::serde_json::Value::String"@)
                + grouped(Delimiter::Parenthesis, string_tree(t) + lexed(".into()"@)),
        ) + lexed(";"@),
        None => Seq::empty(),
    }
}

/// The code that puts the schema of a field into the properties, with the
/// field's description and example where it has them.
pub open spec fn property_code(info: FieldInfoModel) -> Seq<Tok> {
    if info.description is None && info.example is None {
        lexed("props.insert"@) + grouped(
            Delimiter::Parenthesis,
            string_tree(info.json_name) + lexed(".into(),"@) + json_type_code(info.ty),
        ) + lexed(";"@)
    } else {
        grouped(
            Delimiter::Brace,
            lexed("let mut schema ="@) + json_type_code(info.ty) + lexed(
                "; if let Some(obj) = schema.as_object_mut()"@,
            ) + grouped(
                Delimiter::Brace,
                schema_entry_code(lexed("\"description\""@), info.description)
                    + schema_entry_code(lexed("\"example\""@), info.example),
            ) + lexed("props.insert"@) + grouped(
                Delimiter::Parenthesis,
                string_tree(info.json_name) + lexed(".into(), schema"@),
            ) + lexed(";"@),
        )
    }
}

/// The code that fills in the properties, field by field.
pub open spec fn properties_code(infos: Seq<FieldInfoModel>) -> Seq<Seq<Tok>> {
    infos.map_values(|info: FieldInfoModel| property_code(info))
}

/// The JSON names of the fields that have to be there, in order.
pub open spec fn required_names(infos: Seq<FieldInfoModel>) -> Seq<Seq<char>>
    decreases infos.len(),
{
    if infos.len() == 0 {
        Seq::empty()
    } else if infos.last().required {
        required_names(infos.drop_last()).push(infos.last().json_name)
    } else {
        required_names(infos.drop_last())
    }
}

/// A string literal for each name.
pub open spec fn name_literals(names: Seq<Seq<char>>) -> Seq<Seq<Tok>> {
    names.map_values(|name: Seq<char>| string_tree(name))
}

/// The code that builds the JSON schema of a struct.
pub open spec fn json_schema_code(infos: Seq<FieldInfoModel>) -> Seq<Tok> {
    grouped(
        Delimiter::Brace,
        lexed("let mut props = ::sevria_service_kit::__private::serde_json::Map::new();"@)
            + concatenated(properties_code(infos)) + lexed(
            "::sevria_service_kit::__private::serde_json::json!"@,
        ) + grouped(
            Delimiter::Parenthesis,
            grouped(
                Delimiter::Brace,
                lexed("\"type\": \"object\", \"properties\": props, \"required\":"@) + grouped(
                    Delimiter::Bracket,
                    comma_separated(name_literals(required_names(infos))),
                ),
            ),
        ),
    )
}

fn schema_entry(key: &str, text: &Option<String>) -> (stream: TokenStream)
    ensures
        trees(stream) == schema_entry_code(lexed(key@), maybe(*text)),
{
    match text {
        Some(t) => {
            let mut value = string_literal(t.as_str());
            emit(&mut value, ".into()");
            let mut args = code(key);
            emit(&mut args, ".into(), ::sevria_service_kit::__private::serde_json::Value::String");
            append(&mut args, parens(value));
            let mut stream = code("obj.insert");
            append(&mut stream, parens(args));
            emit(&mut stream, ";");
            stream
        },
        None => TokenStream::new(),
    }
}

fn property(info: &FieldInfo) -> (stream: TokenStream)
    ensures
        trees(stream) == property_code(info@),
{
    let json_type = infer_json_type(&info.ty);
    let mut args = string_literal(info.json_name.as_str());
    if info.description.is_none() && info.example.is_none() {
        emit(&mut args, ".into(),");
        append(&mut args, json_type);
        let mut stream = code("props.insert");
        append(&mut stream, parens(args));
        emit(&mut stream, ";");
        stream
    } else {
        let mut entries = schema_entry("\"description\"", &info.description);
        append(&mut entries, schema_entry("\"example\"", &info.example));
        emit(&mut args, ".into(), schema");
        let mut block = code("let mut schema =");
        append(&mut block, json_type);
        emit(&mut block, "; if let Some(obj) = schema.as_object_mut()");
        append(&mut block, braces(entries));
        emit(&mut block, "props.insert");
        append(&mut block, parens(args));
        emit(&mut block, ";");
        braces(block)
    }
}

/// The code that builds the JSON schema of a struct with these fields.
pub fn build_json_schema(infos: &Vec<FieldInfo>) -> (stream: TokenStream)
    ensures
        trees(stream) == json_schema_code(info_views(infos@)),
{
    let ghost models = info_views(infos@);
    let mut properties: Vec<TokenStream> = Vec::new();
    let mut required: Vec<TokenStream> = Vec::new();
    let mut i: usize = 0;
    assert(streams(required@) =~= name_literals(required_names(models.take(0))));
    while i < infos.len()
        invariant
            i <= infos.len(),
            models == info_views(infos@),
            streams(properties@) =~= properties_code(models).take(i as int),
            streams(required@) == name_literals(required_names(models.take(i as int))),
        decreases infos.len() - i,
    {
        proof {
            assert(models[i as int] == infos[i as int]@);
            assert(models.take(i + 1).drop_last() =~= models.take(i as int));
        }
        let ghost done = properties@;
        properties.push(property(&infos[i]));
        assert(streams(properties@) =~= streams(done).push(property_code(models[i as int])));
        let ghost before = required@;
        if infos[i].required {
            required.push(string_literal(infos[i].json_name.as_str()));
            assert(streams(required@) =~= streams(before).push(
                string_tree(models[i as int].json_name),
            ));
            assert(name_literals(required_names(models.take(i + 1))) =~= name_literals(
                required_names(models.take(i as int)),
            ).push(string_tree(models[i as int].json_name)));
        }
        i += 1;
    }
    assert(properties_code(models).take(i as int) =~= properties_code(models));
    assert(models.take(i as int) =~= models);
    let mut object = code("\"type\": \"object\", \"properties\": props, \"required\":");
    append(&mut object, brackets(commas(&required)));
    let mut block = code(
        "let mut props = ::sevria_service_kit::__private::serde_json::Map::new();",
    );
    append(&mut block, concat(&properties));
    emit(&mut block, "::sevria_service_kit::__private::serde_json::json!");
    append(&mut block, parens(braces(object)));
    braces(block)
}

} // verus!
