//! What the code that is generated for a response type does.

use crate::error::error_reports;
use crate::holding::{ends_in, group_holds, holds};
use crate::items::{item_type, ItemTypeModel};
use crate::response::{
    detail_codes, error_meta_type, error_properties_code, meta_property_code,
    response_expansion, response_properties_code, response_struct_code, type_args, types_among,
};
use crate::response_attr::{response_attr, ResponseAttrModel};
use crate::syntax::{
    attrs_except, first_type_arg, last_segment, type_model, GenericArgModel, TypeModel,
};
use crate::tokens::{
    comma_separated, concatenated, decimal, grouped, ident_tree, lexed, string_tree, Delimiter, Tok,
};
use vstd::prelude::*;

verus! {

// ---------------------------------------------------------------------------
// Words for what the laws speak of
// ---------------------------------------------------------------------------

/// Whether the last segment of a type has the given name.
pub open spec fn is_called(ty: TypeModel, name: Seq<char>) -> bool {
    last_segment(ty) matches Some(segment) && segment.ident == name
}

/// The statement that puts the schema of a type into the properties under a key.
pub open spec fn typed_property(key: Seq<Tok>, ty: TypeModel) -> Seq<Tok> {
    lexed("props.insert"@) + grouped(
        Delimiter::Parenthesis,
        key + ty.tokens + lexed("as ::sevria_service_kit::http::Endpoint> ::json_schema()"@),
    ) + lexed(";"@)
}

/// The text, or none.
pub open spec fn text_or_none(text: Option<Seq<char>>) -> Seq<char> {
    if text is Some {
        text->0
    } else {
        ""@
    }
}

// ---------------------------------------------------------------------------
// The schema of a response
// ---------------------------------------------------------------------------

/// The schema of `Response<Data, Meta>` has whether there was success, the data, and the
/// meta information where that is asked for, each under its own name.
pub proof fn responses_have_data_and_meta(
    attr: ResponseAttrModel,
    ty: TypeModel,
    data: TypeModel,
    meta: TypeModel,
)
    requires
        !is_called(ty, "ErrorResponse"@),
        last_segment(ty) matches Some(segment) && segment.args == Some(
            seq![GenericArgModel::Type(data), GenericArgModel::Type(meta)],
        ),
        !(data.kind is Tuple) && !(data.kind is Paren),
        !(meta.kind is Tuple) && !(meta.kind is Paren),
    ensures
        response_properties_code(attr, ty) == lexed(
            "props.insert(\"success\".into(), ::sevria_service_kit::__private::serde_json::json!({\"type\": \"boolean\"}));"@,
        ) + typed_property(lexed("\"data\".into(), <"@), data) + (if attr.include_meta {
            typed_property(lexed("\"meta\".into(), <"@), meta)
        } else {
            Seq::empty()
        }),
{
    let args = seq![GenericArgModel::Type(data), GenericArgModel::Type(meta)];
    reveal_with_fuel(types_among, 3);
    assert(args.drop_last() =~= seq![GenericArgModel::Type(data)]);
    assert(args.drop_last().drop_last() =~= Seq::empty());
    assert(types_among(args) =~= seq![data, meta]);
    assert(type_args(ty) == seq![data, meta]);
}

/// The schema of `Response<Data>` has no meta information, whether it is asked for or
/// not.
pub proof fn responses_without_meta_have_none(
    attr: ResponseAttrModel,
    ty: TypeModel,
    data: TypeModel,
)
    requires
        !is_called(ty, "ErrorResponse"@),
        last_segment(ty) matches Some(segment) && segment.args == Some(
            seq![GenericArgModel::Type(data)],
        ),
        !(data.kind is Tuple) && !(data.kind is Paren),
    ensures
        response_properties_code(attr, ty) == lexed(
            "props.insert(\"success\".into(), ::sevria_service_kit::__private::serde_json::json!({\"type\": \"boolean\"}));"@,
        ) + typed_property(lexed("\"data\".into(), <"@), data),
{
    let args = seq![GenericArgModel::Type(data)];
    reveal_with_fuel(types_among, 2);
    assert(args.drop_last() =~= Seq::empty());
    assert(types_among(args) =~= seq![data]);
    assert(type_args(ty) == seq![data]);
    assert(response_properties_code(attr, ty) =~= lexed(
        "props.insert(\"success\".into(), ::sevria_service_kit::__private::serde_json::json!({\"type\": \"boolean\"}));"@,
    ) + typed_property(lexed("\"data\".into(), <"@), data));
}

/// The schema of an error response has the code and the message of the error as
/// examples, each under its own name, and both have to be there.
pub proof fn errors_have_code_and_message(attr: ResponseAttrModel, ty: TypeModel)
    requires
        is_called(ty, "ErrorResponse"@),
    ensures
        holds(
            response_properties_code(attr, ty),
            lexed("\"code\":"@) + grouped(
                Delimiter::Brace,
                lexed("\"type\": \"string\", \"example\":"@) + string_tree(
                    text_or_none(attr.error_code),
                ),
            ) + lexed(", \"message\":"@) + grouped(
                Delimiter::Brace,
                lexed("\"type\": \"string\", \"example\":"@) + string_tree(
                    text_or_none(attr.error_message),
                ),
            ) + lexed(","@),
        ),
        holds(
            response_properties_code(attr, ty),
            lexed("props.insert"@) + grouped(
                Delimiter::Parenthesis,
                lexed("\"error\".into(), ::sevria_service_kit::__private::serde_json::json!"@)
                    + grouped(
                    Delimiter::Parenthesis,
                    grouped(
                        Delimiter::Brace,
                        lexed("\"type\": \"object\", \"properties\":"@) + grouped(
                            Delimiter::Brace,
                            error_properties_code(attr),
                        ) + lexed(", \"required\": [\"code\", \"message\"]"@),
                    ),
                ),
            ) + lexed(";"@),
        ),
        attr.error_details.len() == 0 ==> error_properties_code(attr) == lexed("\"code\":"@)
            + grouped(
            Delimiter::Brace,
            lexed("\"type\": \"string\", \"example\":"@) + string_tree(
                text_or_none(attr.error_code),
            ),
        ) + lexed(", \"message\":"@) + grouped(
            Delimiter::Brace,
            lexed("\"type\": \"string\", \"example\":"@) + string_tree(
                text_or_none(attr.error_message),
            ),
        ) + lexed(","@),
{
    broadcast use group_holds;

    let start = lexed("\"code\":"@) + grouped(
        Delimiter::Brace,
        lexed("\"type\": \"string\", \"example\":"@) + string_tree(
            text_or_none(attr.error_code),
        ),
    ) + lexed(", \"message\":"@) + grouped(
        Delimiter::Brace,
        lexed("\"type\": \"string\", \"example\":"@) + string_tree(
            text_or_none(attr.error_message),
        ),
    ) + lexed(","@);
    assert(start + Seq::<Tok>::empty() =~= start);
    assert(holds(error_properties_code(attr), start));
    assert(holds(response_properties_code(attr, ty), error_properties_code(attr)));
}

/// Each detail of an error is an example, in order, with the field that it is about and
/// the reason, each under its own name.
pub proof fn errors_have_their_details(attr: ResponseAttrModel, ty: TypeModel, i: int)
    requires
        is_called(ty, "ErrorResponse"@),
        0 <= i < attr.error_details.len(),
    ensures
        detail_codes(attr.error_details).len() == attr.error_details.len(),
        detail_codes(attr.error_details)[i] == lexed(
            "::sevria_service_kit::__private::serde_json::json!"@,
        ) + grouped(
            Delimiter::Parenthesis,
            grouped(
                Delimiter::Brace,
                lexed("\"field\":"@) + string_tree(attr.error_details[i].0) + lexed(
                    ", \"reason\":"@,
                ) + string_tree(attr.error_details[i].1),
            ),
        ),
        holds(
            response_properties_code(attr, ty),
            lexed("\"details\":"@) + grouped(
                Delimiter::Brace,
                lexed(
                    "\"type\": \"array\", \"items\": < ::sevria_service_kit::ErrorDetail as ::sevria_service_kit::http::Endpoint> ::json_schema(), \"example\":"@,
                ) + grouped(
                    Delimiter::Bracket,
                    comma_separated(detail_codes(attr.error_details)),
                ),
            ) + lexed(","@),
        ),
{
    broadcast use group_holds;

}

/// The schema of an error response has the meta information just where that is asked for
/// and the type names another type than the unit type for it.
pub proof fn errors_have_meta_where_asked_for(attr: ResponseAttrModel, ty: TypeModel)
    requires
        is_called(ty, "ErrorResponse"@),
    ensures
        attr.include_meta ==> (first_type_arg(ty) matches Some(meta) ==> !(meta.kind is Tuple)
            && !(meta.kind is Paren) ==> ends_in(
            response_properties_code(attr, ty),
            lexed(";"@) + typed_property(lexed("\"meta\".into(), <"@), meta),
        )),
        !attr.include_meta || first_type_arg(ty) is None ==> ends_in(
            response_properties_code(attr, ty),
            grouped(
                Delimiter::Parenthesis,
                lexed("\"error\".into(), ::sevria_service_kit::__private::serde_json::json!"@)
                    + grouped(
                    Delimiter::Parenthesis,
                    grouped(
                        Delimiter::Brace,
                        lexed("\"type\": \"object\", \"properties\":"@) + grouped(
                            Delimiter::Brace,
                            error_properties_code(attr),
                        ) + lexed(", \"required\": [\"code\", \"message\"]"@),
                    ),
                ),
            ) + lexed(";"@),
        ),
{
    broadcast use group_holds;

    let all = response_properties_code(attr, ty);
    if !attr.include_meta || first_type_arg(ty) is None {
        let shown = meta_property_code(
            attr.include_meta,
            error_meta_type(ty),
        );
        assert(shown =~= Seq::<Tok>::empty());
        let before = all.take(all.len() as int);
        assert(before =~= all);
        let start = lexed(
            "props.insert(\"success\".into(), ::sevria_service_kit::__private::serde_json::json!({\"type\": \"boolean\", \"example\": false}));"@,
        ) + lexed("props.insert"@);
        let end = grouped(
            Delimiter::Parenthesis,
            lexed("\"error\".into(), ::sevria_service_kit::__private::serde_json::json!"@)
                + grouped(
                Delimiter::Parenthesis,
                grouped(
                    Delimiter::Brace,
                    lexed("\"type\": \"object\", \"properties\":"@) + grouped(
                        Delimiter::Brace,
                        error_properties_code(attr),
                    ) + lexed(", \"required\": [\"code\", \"message\"]"@),
                ),
            ),
        ) + lexed(";"@);
        assert(all =~= start + end);
    }
}

// ---------------------------------------------------------------------------
// The response type itself
// ---------------------------------------------------------------------------

/// A response type becomes a struct around the type that it stands for, as visible as
/// the alias and with its other attributes, that can be written as JSON.
pub proof fn responses_are_structs(alias: ItemTypeModel, attr: ResponseAttrModel)
    ensures
        (concatenated(attrs_except(alias.attrs, "response"@)) + lexed(
            "#[derive(::serde::Serialize)]"@,
        ) + alias.vis + lexed("struct"@) + ident_tree(alias.ident) + grouped(
            Delimiter::Parenthesis,
            lexed("pub"@) + alias.ty,
        ) + lexed(";"@)).is_prefix_of(response_struct_code(alias, attr)),
{
    let start = concatenated(attrs_except(alias.attrs, "response"@)) + lexed(
        "#[derive(::serde::Serialize)]"@,
    ) + alias.vis + lexed("struct"@) + ident_tree(alias.ident) + grouped(
        Delimiter::Parenthesis,
        lexed("pub"@) + alias.ty,
    ) + lexed(";"@);
    let all = response_struct_code(alias, attr);
    assert(all.take(start.len() as int) =~= start);
}

/// A response type is described by the text that its arguments give, and its schema is
/// an object with the properties of the response, of which whether there was success
/// has to be there.
pub proof fn responses_describe_themselves(alias: ItemTypeModel, attr: ResponseAttrModel)
    ensures
        holds(
            response_struct_code(alias, attr),
            lexed("impl ::sevria_service_kit::http::Endpoint for"@) + ident_tree(alias.ident)
                + grouped(
                Delimiter::Brace,
                lexed("fn description() -> & 'static str"@) + grouped(
                    Delimiter::Brace,
                    string_tree(attr.description),
                ) + lexed(
                    "fn json_schema() -> ::sevria_service_kit::__private::serde_json::Value"@,
                ) + grouped(
                    Delimiter::Brace,
                    lexed(
                        "let mut props = ::sevria_service_kit::__private::serde_json::Map::new();"@,
                    ) + response_properties_code(attr, type_model(alias.ty)) + lexed(
                        "::sevria_service_kit::__private::serde_json::json!({ \"type\": \"object\", \"properties\": props, \"required\": [\"success\"] })"@,
                    ),
                ),
            ),
        ),
{
    broadcast use group_holds;

}

/// A response type hands out the status and the description that its arguments give, and
/// its summary just where they give one. Only a success response can be constructed, as
/// an empty one.
pub proof fn responses_hand_out_what_is_said_of_them(
    alias: ItemTypeModel,
    attr: ResponseAttrModel,
    constructor: Seq<Tok>,
)
    requires
        constructor == (if is_called(type_model(alias.ty), "Response"@) {
            lexed(
                "#[doc = \" Construct an empty success response (`success: true`).\"] pub fn new() -> Self"@,
            ) + grouped(
                Delimiter::Brace,
                lexed("Self"@) + grouped(
                    Delimiter::Parenthesis,
                    lexed("<"@) + alias.ty + lexed("> ::new()"@),
                ),
            )
        } else {
            Seq::empty()
        }),
    ensures
        holds(
            response_struct_code(alias, attr),
            lexed("impl"@) + ident_tree(alias.ident) + grouped(
                Delimiter::Brace,
                constructor + lexed(
                    "#[doc(hidden)] pub const fn __openapi_response_meta() -> (u16, & 'static str)"@,
                ) + grouped(
                    Delimiter::Brace,
                    grouped(
                        Delimiter::Parenthesis,
                        seq![Tok::Literal(decimal(attr.status as nat) + "u16"@)] + lexed(","@)
                            + string_tree(attr.description),
                    ),
                ) + lexed(
                    "#[doc(hidden)] pub const fn __openapi_response_summary() -> Option< & 'static str>"@,
                ) + grouped(
                    Delimiter::Brace,
                    lexed("if"@) + lexed(
                        if attr.summary is Some {
                            "true"@
                        } else {
                            "false"@
                        },
                    ) + grouped(
                        Delimiter::Brace,
                        lexed("Some"@) + grouped(
                            Delimiter::Parenthesis,
                            string_tree(text_or_none(attr.summary)),
                        ),
                    ) + lexed("else { None }"@),
                ),
            ),
        ),
{
    broadcast use group_holds;

}

/// Arguments that cannot be read, and an item that is no type alias, are answered with
/// the complaint and nothing else; the arguments are looked at first.
pub proof fn faulty_responses_are_complained_about(attr: Seq<Tok>, item: Seq<Tok>)
    ensures
        response_attr(attr) matches Err(m) ==> response_expansion(attr, item)
            == error_reports(m),
        response_attr(attr) is Ok ==> (item_type(item) matches Err(m) ==> response_expansion(
            attr,
            item,
        ) == error_reports(m)),
        response_attr(attr) matches Ok(args) ==> (item_type(item) matches Ok(alias)
            ==> response_expansion(attr, item) == response_struct_code(alias, args)),
{
}

} // verus!
