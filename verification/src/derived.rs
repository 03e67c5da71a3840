//! What the code that is generated for a struct does: its JSON schema, the description
//! of its fields, and the reading of it out of an HTTP request.

use crate::error::Messages;
use crate::fields::{field_infos, FieldInfoModel, SourceKind};
use crate::holding::{
    comma_separated_holds_each, concatenated_holds_each, group_holds, holding_is_transitive, holds,
};
use crate::items::{split_generics, ItemStructModel};
use crate::json::{
    json_schema_code, json_type_code, name_literals, properties_code, property_code,
    required_names, schema_entry_code,
};
use crate::laws::{body_is_extracted_last, every_field_is_merged_once};
use crate::request::{
    all_sources, extract_param_codes, fields_by_source, fields_from, handler_code,
    merge_call_code, merge_field_codes, merge_param_codes, part_field_code, part_field_codes,
    part_name, part_variables, plain_closure_code, register_route_code,
    register_route_with_state_code, request_field_codes, request_fields_code,
    request_machinery_code, route_arms_code, state_closure_code, sub_struct_code,
    sub_struct_codes, used_among, used_sources,
};
use crate::schema::{has_garde, is_validated, schema_code, struct_description};
use crate::syntax::{
    attribute_model, attribute_models, first_type_arg, last_segment, TypeModel,
};
use crate::tokens::{
    comma_separated, concatenated, grouped, ident_tree, lexed, string_tree, unraw, Delimiter, Tok,
};
use vstd::prelude::*;

verus! {

// ---------------------------------------------------------------------------
// JSON schemas
// ---------------------------------------------------------------------------

/// The statement that puts a text into the schema of a field under a key.
pub open spec fn inserted(key: Seq<Tok>, text: Seq<char>) -> Seq<Tok> {
    lexed("obj.insert"@) + grouped(
        Delimiter::Parenthesis,
        key + lexed(".into(), ::sevria_service_kit::__private::serde_json::Value::String"@)
            + grouped(Delimiter::Parenthesis, string_tree(text) + lexed(".into()"@)),
    ) + lexed(";"@)
}

/// The property of a field has the field's description just where the field has one,
/// whether there is an example or not, and its example just where the field has one,
/// whether there is a description or not. The two are all that is added to the schema
/// of its type.
pub proof fn properties_are_described(info: FieldInfoModel)
    ensures
        info.description matches Some(text) ==> holds(
            property_code(info),
            inserted(lexed("\"description\""@), text),
        ),
        info.example matches Some(text) ==> holds(
            property_code(info),
            inserted(lexed("\"example\""@), text),
        ),
        info.description is Some || info.example is Some ==> holds(
            property_code(info),
            lexed("; if let Some(obj) = schema.as_object_mut()"@) + grouped(
                Delimiter::Brace,
                (if info.description is Some {
                    inserted(lexed("\"description\""@), info.description->0)
                } else {
                    Seq::empty()
                }) + (if info.example is Some {
                    inserted(lexed("\"example\""@), info.example->0)
                } else {
                    Seq::empty()
                }),
            ) + lexed("props.insert"@),
        ),
        info.description is None && info.example is None ==> property_code(info) == lexed(
            "props.insert"@,
        ) + grouped(
            Delimiter::Parenthesis,
            string_tree(info.json_name) + lexed(".into(),"@) + json_type_code(info.ty),
        ) + lexed(";"@),
{
    broadcast use group_holds;

}

/// The property of a field has the field's name and the schema of its type, whatever
/// else is said of the field.
pub proof fn properties_have_name_and_type(info: FieldInfoModel)
    ensures
        info.description is Some || info.example is Some ==> exists|entries: Seq<Tok>|
            property_code(info) == grouped(
                Delimiter::Brace,
                lexed("let mut schema ="@) + json_type_code(info.ty) + lexed(
                    "; if let Some(obj) = schema.as_object_mut()"@,
                ) + #[trigger] grouped(Delimiter::Brace, entries) + lexed("props.insert"@)
                    + grouped(
                    Delimiter::Parenthesis,
                    string_tree(info.json_name) + lexed(".into(), schema"@),
                ) + lexed(";"@),
            ),
        holds(property_code(info), json_type_code(info.ty)),
        holds(property_code(info), string_tree(info.json_name)),
{
    broadcast use group_holds;

    let entries = schema_entry_code(lexed("\"description\""@), info.description)
        + schema_entry_code(lexed("\"example\""@), info.example);
    assert(grouped(Delimiter::Brace, entries).len() == 1);
}

/// The schema of a struct is an object. It has the property of every field, in order,
/// and lists the names of the fields that have to be there.
pub proof fn every_field_is_a_property(infos: Seq<FieldInfoModel>, i: int)
    requires
        0 <= i < infos.len(),
    ensures
        holds(json_schema_code(infos), property_code(infos[i])),
        properties_code(infos).len() == infos.len(),
        properties_code(infos)[i] == property_code(infos[i]),
        json_schema_code(infos) == grouped(
            Delimiter::Brace,
            lexed("let mut props = ::sevria_service_kit::__private::serde_json::Map::new();"@)
                + concatenated(properties_code(infos)) + lexed(
                "::sevria_service_kit::__private::serde_json::json!"@,
            ) + grouped(
                Delimiter::Parenthesis,
                grouped(
                    Delimiter::Brace,
                    lexed("\"type\": \"object\", \"properties\": props, \"required\":"@) + grouped(
                        Delimiter::Bracket,
                        comma_separated(
                            required_names(infos).map_values(
                                |name: Seq<char>| string_tree(name),
                            ),
                        ),
                    ),
                ),
            ),
        ),
        infos[i].description matches Some(text) ==> holds(
            json_schema_code(infos),
            inserted(lexed("\"description\""@), text),
        ),
        infos[i].example matches Some(text) ==> holds(
            json_schema_code(infos),
            inserted(lexed("\"example\""@), text),
        ),
{
    broadcast use group_holds;

    assert(name_literals(required_names(infos)) =~= required_names(infos).map_values(
        |name: Seq<char>| string_tree(name),
    ));
    concatenated_holds_each(properties_code(infos), i, property_code(infos[i]));
    let all = json_schema_code(infos);
    let one = property_code(infos[i]);
    assert(holds(all, one));
    properties_are_described(infos[i]);
    if let Some(text) = infos[i].description {
        holding_is_transitive(all, one, inserted(lexed("\"description\""@), text));
    }
    if let Some(text) = infos[i].example {
        holding_is_transitive(all, one, inserted(lexed("\"example\""@), text));
    }
}

/// The fields that have to be there are listed in the order in which they stand.
pub proof fn required_names_are_listed_in_order(infos: Seq<FieldInfoModel>)
    ensures
        required_names(infos) == infos.filter(|info: FieldInfoModel| info.required).map_values(
            |info: FieldInfoModel| info.json_name,
        ),
    decreases infos.len(),
{
    reveal(Seq::filter);
    let required = |info: FieldInfoModel| info.required;
    if infos.len() > 0 {
        required_names_are_listed_in_order(infos.drop_last());
    }
    assert(required_names(infos) =~= infos.filter(required).map_values(
        |info: FieldInfoModel| info.json_name,
    ));
}

/// The JSON type of a path goes by its last segment: numbers without a fraction are
/// integers, numbers with one are numbers, `bool` is a boolean and anything that is not
/// known a string.
pub proof fn scalars_have_their_json_type(ty: TypeModel, name: Seq<char>)
    requires
        last_segment(ty) matches Some(segment) && segment.ident == name,
        name != "Option"@,
        name != "Vec"@,
    ensures
        name == "bool"@ ==> json_type_code(ty) == lexed(
            "::sevria_service_kit::__private::serde_json::json!({ \"type\": \"boolean\" })"@,
        ),
        name == "i8"@ || name == "i16"@ || name == "i32"@ || name == "i64"@ || name == "i128"@
            || name == "isize"@ || name == "u8"@ || name == "u16"@ || name == "u32"@ || name
            == "u64"@ || name == "u128"@ || name == "usize"@ ==> json_type_code(ty) == lexed(
            "::sevria_service_kit::__private::serde_json::json!({ \"type\": \"integer\" })"@,
        ),
        name == "f32"@ || name == "f64"@ ==> json_type_code(ty) == lexed(
            "::sevria_service_kit::__private::serde_json::json!({ \"type\": \"number\" })"@,
        ),
        !(name == "bool"@ || name == "i8"@ || name == "i16"@ || name == "i32"@ || name == "i64"@
            || name == "i128"@ || name == "isize"@ || name == "u8"@ || name == "u16"@ || name
            == "u32"@ || name == "u64"@ || name == "u128"@ || name == "usize"@ || name == "f32"@
            || name == "f64"@) ==> json_type_code(ty) == lexed(
            "::sevria_service_kit::__private::serde_json::json!({ \"type\": \"string\" })"@,
        ),
{
    reveal_strlit("bool");
    reveal_strlit("i8");
    reveal_strlit("i16");
    reveal_strlit("i32");
    reveal_strlit("i64");
    reveal_strlit("i128");
    reveal_strlit("isize");
    reveal_strlit("u8");
    reveal_strlit("u16");
    reveal_strlit("u32");
    reveal_strlit("u64");
    reveal_strlit("u128");
    reveal_strlit("usize");
    reveal_strlit("f32");
    reveal_strlit("f64");
    assert("bool"@[0] == 'b');
    assert("f32"@[0] == 'f' && "f64"@[0] == 'f');
    assert("i8"@[0] == 'i' && "i16"@[0] == 'i' && "i32"@[0] == 'i' && "i64"@[0] == 'i'
        && "i128"@[0] == 'i' && "isize"@[0] == 'i');
    assert("u8"@[0] == 'u' && "u16"@[0] == 'u' && "u32"@[0] == 'u' && "u64"@[0] == 'u'
        && "u128"@[0] == 'u' && "usize"@[0] == 'u');
}

/// A `Vec` is an array of what its argument is, also inside an `Option`; without an
/// argument it is an array of anything. What is no path is a string.
pub proof fn lists_are_arrays(ty: TypeModel)
    ensures
        last_segment(ty) is None ==> json_type_code(ty) == lexed(
            "::sevria_service_kit::__private::serde_json::json!({ \"type\": \"string\" })"@,
        ),
        last_segment(ty) matches Some(segment) ==> segment.ident == "Vec"@ ==> {
            &&& first_type_arg(ty) matches Some(item) ==> json_type_code(ty) == lexed(
                "::sevria_service_kit::__private::serde_json::json!"@,
            ) + grouped(
                Delimiter::Parenthesis,
                grouped(
                    Delimiter::Brace,
                    lexed("\"type\": \"array\", \"items\":"@) + json_type_code(item),
                ),
            )
            &&& first_type_arg(ty) is None ==> json_type_code(ty) == lexed(
                "::sevria_service_kit::__private::serde_json::json!({ \"type\": \"array\" })"@,
            )
        },
        last_segment(ty) matches Some(segment) ==> segment.ident == "Option"@ ==> (first_type_arg(
            ty,
        ) matches Some(inner) ==> (last_segment(inner) matches Some(within) ==> within.ident
            != "Option"@ ==> json_type_code(ty) == json_type_code(inner))),
{
    reveal_strlit("Vec");
    reveal_strlit("Option");
    assert("Vec"@.len() == 3 && "Option"@.len() == 6);
}

// ---------------------------------------------------------------------------
// The description of the fields
// ---------------------------------------------------------------------------

/// Each field of a request is described, in order: by its name, its source, the schema
/// of its type, whether it has to be there, and its description and its example, where
/// it has them.
pub proof fn every_field_of_a_request_is_described(
    infos: Seq<FieldInfoModel>,
    i: int,
    described: Seq<Tok>,
)
    requires
        0 <= i < infos.len(),
        described == lexed("::sevria_service_kit::http::RequestField"@) + grouped(
            Delimiter::Brace,
            lexed("name:"@) + string_tree(infos[i].json_name) + lexed(".to_string(), source:"@)
                + (match infos[i].source {
                SourceKind::Path => lexed("::sevria_service_kit::http::Source::Path"@),
                SourceKind::Query => lexed("::sevria_service_kit::http::Source::Query"@),
                SourceKind::Body => lexed("::sevria_service_kit::http::Source::Body"@),
            }) + lexed(", schema:"@) + json_type_code(infos[i].ty) + lexed(", required:"@) + lexed(
                if infos[i].required {
                    "true"@
                } else {
                    "false"@
                },
            ) + lexed(", description:"@) + (match infos[i].description {
                Some(text) => lexed("Some"@) + grouped(
                    Delimiter::Parenthesis,
                    string_tree(text) + lexed(".to_string()"@),
                ),
                None => lexed("None"@),
            }) + lexed(", example:"@) + (match infos[i].example {
                Some(text) => lexed("Some"@) + grouped(
                    Delimiter::Parenthesis,
                    lexed("::sevria_service_kit::__private::serde_json::json!"@) + grouped(
                        Delimiter::Parenthesis,
                        string_tree(text),
                    ),
                ),
                None => lexed("None"@),
            }) + lexed(","@),
        ),
    ensures
        holds(request_fields_code(infos), described),
        request_field_codes(infos).len() == infos.len(),
        request_field_codes(infos)[i] == described,
        request_fields_code(infos) == lexed(
            "fn request_fields() -> ::std::vec::Vec< ::sevria_service_kit::http::RequestField>"@,
        ) + grouped(
            Delimiter::Brace,
            lexed("::std::vec!"@) + grouped(
                Delimiter::Bracket,
                comma_separated(request_field_codes(infos)),
            ),
        ),
{
    broadcast use group_holds;

    assert(request_field_codes(infos)[i] == described);
    comma_separated_holds_each(request_field_codes(infos), i, described);
}

// ---------------------------------------------------------------------------
// The parts of a request
// ---------------------------------------------------------------------------

/// The name of the struct that holds the part of a request from a source.
pub open spec fn struct_of_part(name: Seq<char>, source: SourceKind) -> Seq<char> {
    unraw(name) + (match source {
        SourceKind::Path => "__RequestPath"@,
        SourceKind::Query => "__RequestQuery"@,
        SourceKind::Body => "__RequestBody"@,
    })
}

/// The variable that the part of a request from a source is read into.
pub open spec fn variable_of_part(source: SourceKind) -> Seq<Tok> {
    match source {
        SourceKind::Path => lexed("__path"@),
        SourceKind::Query => lexed("__query"@),
        SourceKind::Body => lexed("__body"@),
    }
}

/// The names of the structs of the parts.
proof fn lemma_part_names(name: Seq<char>)
    ensures
        forall|source: SourceKind| #[trigger]
            part_name(name, source) == struct_of_part(name, source),
{
    reveal_strlit("");
    assert forall|source: SourceKind| #[trigger]
        part_name(name, source) == struct_of_part(name, source) by {
        assert(part_name(name, source) =~= struct_of_part(name, source));
    }
}

/// Whatever source a field comes from, its definition in the struct of its part begins
/// with all of the field's attributes for `serde`, in order; behind them come `pub`,
/// its name and its type.
pub proof fn fields_keep_their_serde_attributes(
    name: Seq<char>,
    vis: Seq<Tok>,
    infos: Seq<FieldInfoModel>,
    validates: bool,
    i: int,
    definition: Seq<Tok>,
)
    requires
        0 <= i < infos.len(),
        definition == concatenated(infos[i].serde_attrs) + lexed("pub"@) + ident_tree(
            infos[i].ident,
        ) + lexed(":"@) + infos[i].ty.tokens,
    ensures
        part_field_code(infos[i]) == definition,
        exists|k: int|
            0 <= k < fields_from(infos, infos[i].source).len() && #[trigger] part_field_codes(
                fields_from(infos, infos[i].source),
            )[k] == definition,
        holds(
            sub_struct_code(
                struct_of_part(name, infos[i].source),
                fields_from(infos, infos[i].source),
            ),
            definition,
        ),
        holds(request_machinery_code(name, vis, infos, validates), definition),
{
    broadcast use group_holds;

    let source = infos[i].source;
    let part = fields_from(infos, source);
    let k = lemma_field_is_in_its_part(infos, i);
    assert(part_field_codes(part)[k] == part_field_code(infos[i]));
    comma_separated_holds_each(part_field_codes(part), k, definition);
    every_part_has_a_struct(name, vis, infos, validates, source);
    holding_is_transitive(
        request_machinery_code(name, vis, infos, validates),
        sub_struct_code(struct_of_part(name, source), part),
        definition,
    );
}

/// A field is among those of its source.
proof fn lemma_field_is_in_its_part(infos: Seq<FieldInfoModel>, i: int) -> (k: int)
    requires
        0 <= i < infos.len(),
    ensures
        0 <= k < fields_from(infos, infos[i].source).len(),
        fields_from(infos, infos[i].source)[k] == infos[i],
    decreases infos.len(),
{
    if i == infos.len() - 1 {
        fields_from(infos, infos[i].source).len() - 1
    } else {
        lemma_field_is_in_its_part(infos.drop_last(), i)
    }
}

/// Each source that a field comes from has a struct of its own, which is read by
/// `serde` and consists of the fields from this source, in order.
pub proof fn every_part_has_a_struct(
    name: Seq<char>,
    vis: Seq<Tok>,
    infos: Seq<FieldInfoModel>,
    validates: bool,
    source: SourceKind,
)
    requires
        fields_from(infos, source).len() > 0,
    ensures
        sub_struct_code(struct_of_part(name, source), fields_from(infos, source)) == lexed(
            "#[doc(hidden)] #[allow(dead_code, non_camel_case_types)] #[derive(::serde::Deserialize)] struct"@,
        ) + ident_tree(struct_of_part(name, source)) + grouped(
            Delimiter::Brace,
            comma_separated(
                fields_from(infos, source).map_values(
                    |info: FieldInfoModel| part_field_code(info),
                ),
            ),
        ),
        holds(
            request_machinery_code(name, vis, infos, validates),
            sub_struct_code(struct_of_part(name, source), fields_from(infos, source)),
        ),
{
    broadcast use group_holds;

    lemma_part_names(name);
    assert(part_field_codes(fields_from(infos, source)) =~= fields_from(infos, source).map_values(
        |info: FieldInfoModel| part_field_code(info),
    ));
    body_is_extracted_last(infos);
    let used = used_sources(infos);
    assert(used.contains(source));
    let k = choose|k: int| 0 <= k < used.len() && used[k] == source;
    let piece = sub_struct_code(struct_of_part(name, source), fields_from(infos, source));
    assert(sub_struct_codes(name, used, infos)[k] == piece);
    concatenated_holds_each(sub_struct_codes(name, used, infos), k, piece);
}

/// A part of a request consists of the fields that come from its source, in the order in
/// which they stand.
pub proof fn parts_keep_the_order_of_fields(infos: Seq<FieldInfoModel>, source: SourceKind)
    ensures
        fields_from(infos, source) == infos.filter(|info: FieldInfoModel| info.source == source),
    decreases infos.len(),
{
    reveal(Seq::filter);
    if infos.len() > 0 {
        parts_keep_the_order_of_fields(infos.drop_last(), source);
    }
    assert(fields_from(infos, source) =~= infos.filter(
        |info: FieldInfoModel| info.source == source,
    ));
}

/// The parts of a request come in the order path, query and body; there is one for each
/// source that a field comes from.
pub proof fn parts_come_in_order(infos: Seq<FieldInfoModel>)
    ensures
        used_sources(infos) == (if fields_from(infos, SourceKind::Path).len() > 0 {
            seq![SourceKind::Path]
        } else {
            Seq::empty()
        }) + (if fields_from(infos, SourceKind::Query).len() > 0 {
            seq![SourceKind::Query]
        } else {
            Seq::empty()
        }) + (if fields_from(infos, SourceKind::Body).len() > 0 {
            seq![SourceKind::Body]
        } else {
            Seq::empty()
        }),
{
    let all = all_sources();
    let two = all.drop_last();
    let one = two.drop_last();
    assert(two =~= seq![SourceKind::Path, SourceKind::Query]);
    assert(one =~= seq![SourceKind::Path]);
    assert(one.drop_last() =~= Seq::empty());
    reveal_with_fuel(used_among, 4);
    assert(used_among(one, infos) =~= if fields_from(infos, SourceKind::Path).len() > 0 {
        seq![SourceKind::Path]
    } else {
        Seq::empty()
    });
    assert(used_sources(infos) =~= (if fields_from(infos, SourceKind::Path).len() > 0 {
        seq![SourceKind::Path]
    } else {
        Seq::empty()
    }) + (if fields_from(infos, SourceKind::Query).len() > 0 {
        seq![SourceKind::Query]
    } else {
        Seq::empty()
    }) + (if fields_from(infos, SourceKind::Body).len() > 0 {
        seq![SourceKind::Body]
    } else {
        Seq::empty()
    }));
}

/// The fields are put together source by source, and in order within each.
pub proof fn fields_are_put_together_source_by_source(
    sources: Seq<SourceKind>,
    source: SourceKind,
    infos: Seq<FieldInfoModel>,
)
    ensures
        sources.len() == 0 ==> fields_by_source(sources, infos).len() == 0,
        fields_by_source(sources.push(source), infos) == fields_by_source(sources, infos)
            + fields_from(infos, source),
{
    assert(sources.push(source).drop_last() =~= sources);
}

/// A request is put together from its parts: a function takes the struct of each part,
/// and gives every field the value that it has in the part from its source.
pub proof fn requests_are_put_together_from_their_parts(
    name: Seq<char>,
    vis: Seq<Tok>,
    infos: Seq<FieldInfoModel>,
    validates: bool,
    params: Seq<Seq<Tok>>,
    fields: Seq<Seq<Tok>>,
)
    requires
        params == used_sources(infos).map_values(
            |source: SourceKind|
                variable_of_part(source) + lexed(":"@) + ident_tree(struct_of_part(name, source)),
        ),
        fields == fields_by_source(used_sources(infos), infos).map_values(
            |info: FieldInfoModel|
                ident_tree(info.ident) + lexed(":"@) + variable_of_part(info.source) + lexed("."@)
                    + ident_tree(info.ident),
        ),
    ensures
        holds(
            request_machinery_code(name, vis, infos, validates),
            lexed("#[doc(hidden)] #[allow(dead_code, non_snake_case)] fn __from_request_parts"@)
                + grouped(Delimiter::Parenthesis, comma_separated(params)) + lexed("-> Self"@)
                + grouped(
                Delimiter::Brace,
                lexed("Self"@) + grouped(Delimiter::Brace, comma_separated(fields)),
            ),
        ),
{
    broadcast use group_holds;

    lemma_part_names(name);
    assert(merge_param_codes(name, used_sources(infos)) =~= params);
    assert(merge_field_codes(fields_by_source(used_sources(infos), infos))
        =~= fields);
}

/// Every field of a request is given the value that it has in the part from its source.
pub proof fn every_field_is_taken_from_its_part(
    name: Seq<char>,
    vis: Seq<Tok>,
    infos: Seq<FieldInfoModel>,
    validates: bool,
    i: int,
)
    requires
        0 <= i < infos.len(),
    ensures
        holds(
            request_machinery_code(name, vis, infos, validates),
            ident_tree(infos[i].ident) + lexed(":"@) + variable_of_part(infos[i].source) + lexed(
                "."@,
            ) + ident_tree(infos[i].ident),
        ),
{
    broadcast use group_holds;
    broadcast use vstd::seq_lib::group_to_multiset_ensures;

    let merged = fields_by_source(used_sources(infos), infos);
    every_field_is_merged_once(infos);
    assert(infos.contains(infos[i]));
    assert(infos.to_multiset().contains(infos[i]));
    assert(merged.contains(infos[i]));
    let k = choose|k: int| 0 <= k < merged.len() && merged[k] == infos[i];
    let codes = merge_field_codes(merged);
    let piece = ident_tree(infos[i].ident) + lexed(":"@) + variable_of_part(infos[i].source)
        + lexed("."@) + ident_tree(infos[i].ident);
    assert(codes[k] == piece);
    comma_separated_holds_each(codes, k, piece);
}

/// Every part is extracted from the request by the extractor for its source, into the
/// variable that it is handed on by.
pub proof fn every_part_is_extracted_from_its_source(
    name: Seq<char>,
    infos: Seq<FieldInfoModel>,
    validates: bool,
    extractors: Seq<Seq<Tok>>,
    variables: Seq<Seq<Tok>>,
)
    requires
        extractors == used_sources(infos).map_values(
            |source: SourceKind|
                (match source {
                    SourceKind::Path => lexed(
                        "::sevria_service_kit::http::__private::Path(__path): ::sevria_service_kit::http::__private::Path<"@,
                    ),
                    SourceKind::Query => lexed(
                        "::sevria_service_kit::http::__private::Query(__query): ::sevria_service_kit::http::__private::Query<"@,
                    ),
                    SourceKind::Body => lexed(
                        "::sevria_service_kit::http::__private::Json(__body): ::sevria_service_kit::http::__private::Json<"@,
                    ),
                }) + ident_tree(struct_of_part(name, source)) + lexed(">"@),
        ),
        variables == used_sources(infos).map_values(
            |source: SourceKind| variable_of_part(source),
        ),
    ensures
        merge_call_code(name, infos) == ident_tree(name) + lexed("::__from_request_parts"@)
            + grouped(Delimiter::Parenthesis, comma_separated(variables)),
        plain_closure_code(name, infos, validates) == grouped(
            Delimiter::Brace,
            lexed("let handler = handler.clone(); move |"@) + comma_separated(extractors) + lexed(
                "| async move"@,
            ) + grouped(
                Delimiter::Brace,
                handler_code(validates, merge_call_code(name, infos), None),
            ),
        ),
        state_closure_code(name, infos, validates) == grouped(
            Delimiter::Brace,
            lexed(
                "let handler = handler.clone(); move | ::sevria_service_kit::http::__private::State(__axum_state): ::sevria_service_kit::http::__private::State< ::std::sync::Arc<State>> ,"@,
            ) + comma_separated(extractors) + lexed("| async move"@) + grouped(
                Delimiter::Brace,
                handler_code(
                    validates,
                    merge_call_code(name, infos),
                    Some(lexed("(*__axum_state).clone()"@)),
                ),
            ),
        ),
{
    lemma_part_names(name);
    assert(extract_param_codes(name, used_sources(infos)) =~= extractors);
    assert(part_variables(used_sources(infos)) =~= variables);
}

/// A valid request reaches the handler, in a `Context` with the state where there is
/// state, and the outcome of the handler is the answer; an invalid one is answered with
/// the report. Without validation every request reaches the handler.
pub proof fn requests_reach_the_handler(build: Seq<Tok>, state: Seq<Tok>)
    ensures
        handler_code(false, build, None) == lexed("handler"@) + grouped(
            Delimiter::Parenthesis,
            build,
        ) + lexed(".await"@),
        handler_code(false, build, Some(state)) == lexed("handler"@) + grouped(
            Delimiter::Parenthesis,
            lexed("::sevria_service_kit::http::Context::new"@) + grouped(
                Delimiter::Parenthesis,
                build + lexed(","@) + state,
            ),
        ) + lexed(".await"@),
        handler_code(true, build, None) == lexed("let __request ="@) + build + lexed(
            "; match ::sevria_service_kit::Validate::validate(&__request)"@,
        ) + grouped(
            Delimiter::Brace,
            lexed("Ok(()) => ::sevria_service_kit::http::__private::IntoResponse::into_response"@)
                + grouped(
                Delimiter::Parenthesis,
                lexed("handler"@) + grouped(Delimiter::Parenthesis, lexed("__request"@)) + lexed(
                    ".await,"@,
                ),
            ) + lexed(
                ", Err(__report) => ::sevria_service_kit::http::validation_response(__report),"@,
            ),
        ),
        handler_code(true, build, Some(state)) == lexed("let __request ="@) + build + lexed(
            "; match ::sevria_service_kit::Validate::validate(&__request)"@,
        ) + grouped(
            Delimiter::Brace,
            lexed("Ok(()) => ::sevria_service_kit::http::__private::IntoResponse::into_response"@)
                + grouped(
                Delimiter::Parenthesis,
                lexed("handler"@) + grouped(
                    Delimiter::Parenthesis,
                    lexed("::sevria_service_kit::http::Context::new"@) + grouped(
                        Delimiter::Parenthesis,
                        lexed("__request,"@) + state,
                    ),
                ) + lexed(".await,"@),
            ) + lexed(
                ", Err(__report) => ::sevria_service_kit::http::validation_response(__report),"@,
            ),
        ),
{
}

/// The methods that a route can be registered for, each with the function that makes
/// the route for it.
pub open spec fn routed_methods() -> Seq<Seq<char>> {
    seq![
        "::sevria_service_kit::http::Method::GET => __axum::routing::get"@,
        "::sevria_service_kit::http::Method::POST => __axum::routing::post"@,
        "::sevria_service_kit::http::Method::PUT => __axum::routing::put"@,
        "::sevria_service_kit::http::Method::PATCH => __axum::routing::patch"@,
        "::sevria_service_kit::http::Method::DELETE => __axum::routing::delete"@,
        "::sevria_service_kit::http::Method::OPTIONS => __axum::routing::options"@,
        "::sevria_service_kit::http::Method::HEAD => __axum::routing::head"@,
        "::sevria_service_kit::http::Method::TRACE => __axum::routing::trace"@,
        "::sevria_service_kit::http::Method::CONNECT => __axum::routing::connect"@,
    ]
}

/// The choice of a route by its method: the closure answers whichever it is.
pub open spec fn routed(closure: Seq<Tok>, tail: Seq<char>) -> Seq<Tok> {
    concatenated(
        routed_methods().map_values(
            |head: Seq<char>|
                lexed(head) + grouped(Delimiter::Parenthesis, closure) + lexed(tail),
        ),
    )
}

proof fn lemma_routed(closure: Seq<Tok>, tail: Seq<char>)
    ensures
        route_arms_code(closure, tail) == routed(closure, tail),
{
    let arm = |head: Seq<char>|
        lexed(head) + grouped(Delimiter::Parenthesis, closure) + lexed(tail);
    let arms = routed_methods().map_values(arm);
    lemma_concatenated_nine(arms);
    assert(route_arms_code(closure, tail) =~= arms[0] + arms[1] + arms[2] + arms[3]
        + arms[4] + arms[5] + arms[6] + arms[7] + arms[8]);
}

proof fn lemma_concatenated_nine(items: Seq<Seq<Tok>>)
    requires
        items.len() == 9,
    ensures
        concatenated(items) == items[0] + items[1] + items[2] + items[3] + items[4] + items[5]
            + items[6] + items[7] + items[8],
{
    reveal_with_fuel(concatenated, 10);
    assert(concatenated(items) =~= items[0] + items[1] + items[2] + items[3] + items[4] + items[5]
        + items[6] + items[7] + items[8]);
}

/// A route can be registered for each of the methods, with state or without; the same
/// closure answers it whichever it is.
pub proof fn routes_answer_their_method(
    name: Seq<char>,
    vis: Seq<Tok>,
    infos: Seq<FieldInfoModel>,
    validates: bool,
    i: int,
)
    requires
        0 <= i < routed_methods().len(),
    ensures
        holds(
            request_machinery_code(name, vis, infos, validates),
            lexed(routed_methods()[i]) + grouped(
                Delimiter::Parenthesis,
                plain_closure_code(name, infos, validates),
            ) + lexed(","@),
        ),
        holds(
            request_machinery_code(name, vis, infos, validates),
            lexed(routed_methods()[i]) + grouped(
                Delimiter::Parenthesis,
                state_closure_code(name, infos, validates),
            ) + lexed(".with_state(__state),"@),
        ),
{
    broadcast use group_holds;

    let all = request_machinery_code(name, vis, infos, validates);
    lemma_holds_arm(all, i, plain_closure_code(name, infos, validates), ","@);
    lemma_holds_arm(
        all,
        i,
        state_closure_code(name, infos, validates),
        ".with_state(__state),"@,
    );
}

proof fn lemma_holds_arm(code: Seq<Tok>, i: int, closure: Seq<Tok>, tail: Seq<char>)
    requires
        0 <= i < routed_methods().len(),
        holds(code, route_arms_code(closure, tail)),
    ensures
        holds(
            code,
            lexed(routed_methods()[i]) + grouped(Delimiter::Parenthesis, closure) + lexed(tail),
        ),
{
    broadcast use group_holds;

    let piece = lexed(routed_methods()[i]) + grouped(Delimiter::Parenthesis, closure) + lexed(
        tail,
    );
    let arms = routed_methods().map_values(
        |head: Seq<char>| lexed(head) + grouped(Delimiter::Parenthesis, closure) + lexed(tail),
    );
    lemma_routed(closure, tail);
    assert(arms[i] == piece);
    concatenated_holds_each(arms, i, piece);
    holding_is_transitive(code, routed(closure, tail), piece);
}

/// A request type comes with two functions that register a route, as visible as the
/// type itself: one for handlers that take the request, and one for handlers that take
/// a `Context` of the request and the router's state, which has to be there.
pub proof fn requests_register_routes(
    name: Seq<char>,
    vis: Seq<Tok>,
    infos: Seq<FieldInfoModel>,
    validates: bool,
)
    ensures
        holds(
            request_machinery_code(name, vis, infos, validates),
            lexed("#[doc(hidden)] #[allow(dead_code)]"@) + vis + lexed(
                "fn __register_route<F, Fut, R>(router: &mut ::sevria_service_kit::http::Router, path: &str, method: ::sevria_service_kit::http::Method, handler: F,) where F: Fn"@,
            ) + grouped(Delimiter::Parenthesis, ident_tree(name)) + lexed(
                "-> Fut + Clone + Send + Sync + 'static, Fut: ::std::future::Future<Output = R> + Send, R: ::sevria_service_kit::http::__private::IntoResponse + Send + 'static,"@,
            ) + grouped(
                Delimiter::Brace,
                lexed(
                    "use ::sevria_service_kit::http::__private as __axum; let route = match method"@,
                ) + grouped(
                    Delimiter::Brace,
                    routed(plain_closure_code(name, infos, validates), ","@),
                ) + lexed(
                    "; router.add_route(path, route);"@,
                ),
            ),
        ),
        holds(
            request_machinery_code(name, vis, infos, validates),
            lexed("#[doc(hidden)] #[allow(dead_code)]"@) + vis + lexed(
                "fn __register_route_with_state<State, F, Fut, R>(router: &mut ::sevria_service_kit::http::Router, path: &str, method: ::sevria_service_kit::http::Method, handler: F,) where F: Fn"@,
            ) + grouped(
                Delimiter::Parenthesis,
                lexed("::sevria_service_kit::http::Context<"@) + ident_tree(name) + lexed(
                    ", State>"@,
                ),
            ) + lexed(
                "-> Fut + Clone + Send + Sync + 'static, Fut: ::std::future::Future<Output = R> + Send, R: ::sevria_service_kit::http::__private::IntoResponse + Send + 'static, State: Clone + Send + Sync + 'static,"@,
            ) + grouped(
                Delimiter::Brace,
                lexed(
                    "use ::sevria_service_kit::http::__private as __axum; let __state = router.state_arc:: <State>().expect(\"endpoint handler uses `Context<_, State>` but no matching state was registered (call `Router::with_state(...)`)\",); let route = match method"@,
                ) + grouped(
                    Delimiter::Brace,
                    routed(
                        state_closure_code(name, infos, validates),
                        ".with_state(__state),"@,
                    ),
                ) + lexed(
                    "; router.add_route(path, route);"@,
                ),
            ),
        ),
{
    broadcast use group_holds;

    lemma_routed(plain_closure_code(name, infos, validates), ","@);
    lemma_routed(state_closure_code(name, infos, validates), ".with_state(__state),"@);
    assert(holds(
        request_machinery_code(name, vis, infos, validates),
        register_route_code(name, vis, plain_closure_code(name, infos, validates)),
    ));
    assert(holds(
        request_machinery_code(name, vis, infos, validates),
        register_route_with_state_code(
            name,
            vis,
            state_closure_code(name, infos, validates),
        ),
    ));
}

// ---------------------------------------------------------------------------
// The expansion
// ---------------------------------------------------------------------------

/// A struct describes itself, by its description, its JSON schema and its fields, under
/// the generics and the bounds that it has. Without generic parameters it can be read
/// out of a request besides, and is validated first just where it says so; with them
/// there is nothing more.
pub proof fn structs_describe_themselves(
    item: ItemStructModel,
    description: Seq<char>,
    infos: Seq<FieldInfoModel>,
    described: Seq<Tok>,
)
    requires
        struct_description(item) == Ok::<Seq<char>, Messages>(description),
        field_infos(item.fields) == Ok::<Seq<FieldInfoModel>, Messages>(infos),
        described == lexed("impl"@) + split_generics(item.generics).0 + lexed(
            "::sevria_service_kit::http::Endpoint for"@,
        ) + ident_tree(item.ident) + split_generics(item.generics).1 + item.where_clause + grouped(
            Delimiter::Brace,
            lexed("fn description() -> & 'static str"@) + grouped(
                Delimiter::Brace,
                string_tree(description),
            ) + lexed("fn json_schema() -> ::sevria_service_kit::__private::serde_json::Value"@)
                + grouped(Delimiter::Brace, json_schema_code(infos)) + request_fields_code(infos),
        ),
    ensures
        item.generics.len() > 0 ==> schema_code(item) == described,
        item.generics.len() == 0 ==> schema_code(item) == described + request_machinery_code(
            item.ident,
            item.vis,
            infos,
            is_validated(item),
        ),
{
    assert(described + Seq::<Tok>::empty() =~= described);
}

/// An attribute for `garde` on the struct itself makes it validated.
pub proof fn garde_on_the_struct_is_enough(item: ItemStructModel, j: int)
    requires
        0 <= j < item.attrs.len(),
        attribute_model(item.attrs[j]).is("garde"@),
    ensures
        is_validated(item),
{
    let attrs = attribute_models(item.attrs);
    assert(attrs[j] == attribute_model(item.attrs[j]));
    assert(has_garde(attrs));
}

/// A struct that carries neither an attribute for `garde`, on itself or on a field, nor
/// one `#[schema(...)]`, is not validated.
pub proof fn nothing_else_makes_a_struct_validated(item: ItemStructModel)
    requires
        forall|j: int|
            0 <= j < item.attrs.len() ==> !attribute_model(#[trigger] item.attrs[j]).is("garde"@)
                && !attribute_model(item.attrs[j]).is("schema"@),
        forall|i: int, j: int|
            0 <= i < item.fields.len() && 0 <= j < item.fields[i].attrs.len()
                ==> !attribute_model(#[trigger] item.fields[i].attrs[j]).is("garde"@),
    ensures
        !is_validated(item),
{
    let attrs = attribute_models(item.attrs);
    assert forall|j: int| 0 <= j < attrs.len() implies !(#[trigger] attrs[j]).is("garde"@)
        && !attrs[j].is("schema"@) by {
        assert(attrs[j] == attribute_model(item.attrs[j]));
    }
    assert forall|i: int| 0 <= i < item.fields.len() implies !has_garde(
        attribute_models((#[trigger] item.fields[i]).attrs),
    ) by {
        let own = attribute_models(item.fields[i].attrs);
        assert forall|j: int| 0 <= j < own.len() implies !(#[trigger] own[j]).is("garde"@) by {
            assert(own[j] == attribute_model(item.fields[i].attrs[j]));
        }
    }
}

} // verus!
