//! The expansion of `#[derive(Schema)]`.

use crate::error::{error_reports, MacroError, Messages};
use crate::fields::{all_named, field_infos, parse_field_infos, FieldInfoModel};
use crate::input::{
    complaint, lemma_meta_path_weight, lemma_step_weights, located, meta_path, punct_step,
    string_step, weight, Input, Located,
};
use crate::items::{
    field_views, generics_for_impl, item_struct, split_generics, Field, ItemStruct, ItemStructModel,
};
use crate::json::{build_json_schema, json_schema_code};
use crate::request::{
    request_fields_code, request_fields_impl, request_machinery, request_machinery_code,
};
use crate::syntax::{
    are_placed, args_places, attr_trees, attribute_model, attribute_models, attribute_views,
    attributes_of, attrs_trees, AttributeModel, ReadAttribute,
};
use crate::text::{maybe, text_is};
use crate::tokens::{
    append, braces, code, emit, grouped, ident_tree, lexed, string_literal, string_tree,
    trees, Delimiter, Tok,
};
use proc_macro2::{Span, TokenStream};
use vstd::prelude::*;

verus! {

// ---------------------------------------------------------------------------
// Validated requests
// ---------------------------------------------------------------------------

/// Whether nested attributes are `validate` and nothing else, any number of
/// times.
pub open spec fn only_validate(tokens: Seq<Tok>) -> bool
    decreases weight(tokens),
{
    tokens.len() == 0 || match meta_path(tokens) {
        Err(_) => false,
        Ok((key, next)) => key == Some("validate"@) && (next.len() == 0 || match punct_step(
            next,
            ',',
        ) {
            None => false,
            Some(rest) => {
                proof {
                    lemma_meta_path_weight(tokens);
                    lemma_step_weights(next);
                }
                only_validate(rest)
            },
        }),
    }
}

/// Whether an attribute is the explicit opt-in, `#[schema(validate)]`. An empty
/// list says nothing.
pub open spec fn is_opt_in(attr: AttributeModel) -> bool {
    attr.is("schema"@) && (attr.meta->0.args matches Ok(tokens) && tokens.len() > 0
        && only_validate(tokens))
}

/// Whether one of the attributes is for `garde`.
pub open spec fn has_garde(attrs: Seq<AttributeModel>) -> bool {
    exists|i: int| 0 <= i < attrs.len() && (#[trigger] attrs[i]).is("garde"@)
}

/// Whether one of the attributes is the explicit opt-in.
pub open spec fn has_opt_in(attrs: Seq<AttributeModel>) -> bool {
    exists|i: int| 0 <= i < attrs.len() && is_opt_in(#[trigger] attrs[i])
}

/// Whether a struct is validated: it opts in explicitly, or it or one of its
/// fields carries an attribute for `garde`.
pub open spec fn is_validated(item: ItemStructModel) -> bool {
    ||| has_opt_in(attribute_models(item.attrs))
    ||| has_garde(attribute_models(item.attrs))
    ||| exists|i: int|
        0 <= i < item.fields.len() && has_garde(
            attribute_models((#[trigger] item.fields[i]).attrs),
        )
}

fn says_only_validate(tokens: TokenStream, end: Span) -> (only: bool)
    ensures
        only == only_validate(trees(tokens)),
{
    let mut input = Input::new(tokens, end);
    while !input.is_empty()
        invariant
            only_validate(input@.tokens) == only_validate(trees(tokens)),
        decreases weight(input@.tokens),
    {
        proof {
            lemma_meta_path_weight(input@.tokens);
        }
        match input.meta_path() {
            Ok((Some(key), _)) => {
                if !text_is(&key, "validate") {
                    return false;
                }
            },
            _ => return false,
        }
        if !input.is_empty() {
            proof {
                lemma_step_weights(input@.tokens);
            }
            match input.comma() {
                Ok(()) => {},
                Err(_) => return false,
            }
        }
    }
    true
}

fn opts_in(attr: &ReadAttribute) -> (opt_in: bool)
    ensures
        opt_in == is_opt_in(attr@),
{
    if attr.is("schema") {
        if let Some(meta) = &attr.meta {
            if let Ok(tokens) = &meta.args {
                return !tokens.is_empty() && says_only_validate(tokens.clone(), meta.end);
            }
        }
    }
    false
}

fn carries_garde(attrs: &Vec<syn::Attribute>) -> (found: bool)
    ensures
        found == has_garde(attribute_models(attrs_trees(attrs@))),
{
    let parsed = attributes_of(attrs);
    let ghost models = attribute_models(attrs_trees(attrs@));
    assert(attribute_views(parsed@).len() == models.len());
    let mut i: usize = 0;
    while i < parsed.len()
        invariant
            i <= parsed.len(),
            parsed.len() == models.len(),
            models == attribute_models(attrs_trees(attrs@)),
            attribute_views(parsed@) == models,
            forall|j: int| 0 <= j < i ==> !(#[trigger] models[j]).is("garde"@),
        decreases parsed.len() - i,
    {
        assert(models[i as int] == parsed[i as int]@);
        if parsed[i].is("garde") {
            return true;
        }
        i += 1;
    }
    false
}

fn carries_opt_in(attrs: &Vec<syn::Attribute>) -> (found: bool)
    ensures
        found == has_opt_in(attribute_models(attrs_trees(attrs@))),
{
    let parsed = attributes_of(attrs);
    let ghost models = attribute_models(attrs_trees(attrs@));
    assert(attribute_views(parsed@).len() == models.len());
    let mut i: usize = 0;
    while i < parsed.len()
        invariant
            i <= parsed.len(),
            parsed.len() == models.len(),
            models == attribute_models(attrs_trees(attrs@)),
            attribute_views(parsed@) == models,
            forall|j: int| 0 <= j < i ==> !is_opt_in(#[trigger] models[j]),
        decreases parsed.len() - i,
    {
        assert(models[i as int] == parsed[i as int]@);
        if opts_in(&parsed[i]) {
            return true;
        }
        i += 1;
    }
    false
}

/// Whether requests of this type are validated before a handler sees them.
///
/// A derive macro does not see which other macros are derived, so this goes by
/// the attributes for `garde`, which compile only where `Validate` is derived
/// too. `#[schema(validate)]` on the struct is an explicit opt-in.
pub fn derives_validate(input: &ItemStruct) -> (validated: bool)
    ensures
        validated == is_validated(input@),
{
    if carries_opt_in(&input.attrs) || carries_garde(&input.attrs) {
        return true;
    }
    let ghost fields = input@.fields;
    let mut i: usize = 0;
    while i < input.fields.len()
        invariant
            i <= input.fields.len(),
            fields == field_views(input.fields@),
            fields == input@.fields,
            forall|j: int|
                0 <= j < i ==> !has_garde(attribute_models((#[trigger] fields[j]).attrs)),
        decreases input.fields.len() - i,
    {
        assert(fields[i as int] == input.fields[i as int]@);
        if carries_garde(&input.fields[i].attrs) {
            return true;
        }
        i += 1;
    }
    false
}

// ---------------------------------------------------------------------------
// The description of a struct
// ---------------------------------------------------------------------------

/// The description that nested attributes give; the last one if several do.
pub open spec fn description_in(tokens: Seq<Tok>, known: Option<Seq<char>>) -> Result<
    Option<Seq<char>>,
    Messages,
>
    decreases weight(tokens),
{
    if tokens.len() == 0 {
        Ok(known)
    } else {
        match meta_path(tokens) {
            Err(m) => Err(m),
            Ok((key, after)) => if key == Some("description"@) {
                match punct_step(after, '=') {
                    None => Err(seq!["expected `=`"@]),
                    Some(value) => match string_step(value) {
                        None => Err(seq![complaint(value, "expected string literal"@)]),
                        Some((text, next)) => if next.len() == 0 {
                            Ok(Some(text))
                        } else {
                            match punct_step(next, ',') {
                                None => Err(seq!["expected `,`"@]),
                                Some(rest) => {
                                    proof {
                                        lemma_meta_path_weight(tokens);
                                        lemma_step_weights(after);
                                        lemma_step_weights(value);
                                        lemma_step_weights(next);
                                    }
                                    description_in(rest, Some(text))
                                },
                            }
                        },
                    },
                }
            } else {
                Err(seq!["expected `description = \"...\"`"@])
            },
        }
    }
}

/// Where a complaint about the nested attributes is reported: at an unknown key, or
/// at what comes next where a part is missing.
pub open spec fn description_in_site(source: Located) -> Option<Span>
    decreases weight(source.tokens),
{
    let tokens = source.tokens;
    if tokens.len() == 0 {
        None
    } else {
        match meta_path(tokens) {
            Err(_) => None,
            Ok((key, after)) => if key == Some("description"@) {
                match punct_step(after, '=') {
                    None => Some(source.behind(after).punct_site()),
                    Some(value) => {
                        let text = source.behind(after).behind(value);
                        match string_step(value) {
                            None => Some(text.here()),
                            Some((_, next)) => match punct_step(next, ',') {
                                Some(rest) => {
                                    proof {
                                        lemma_meta_path_weight(tokens);
                                        lemma_step_weights(after);
                                        lemma_step_weights(value);
                                        lemma_step_weights(next);
                                    }
                                    description_in_site(text.behind(next).behind(rest))
                                },
                                None => if next.len() == 0 {
                                    None
                                } else {
                                    Some(text.behind(next).punct_site())
                                },
                            },
                        }
                    },
                }
            } else if key is Some {
                Some(source.front().here())
            } else {
                None
            },
        }
    }
}

/// Where a complaint about a list of attributes is reported: in the first one that
/// there is one about.
pub open spec fn description_from_site(
    attrs: Seq<syn::Attribute>,
    known: Option<Seq<char>>,
) -> Option<Span>
    decreases attrs.len(),
{
    if attrs.len() == 0 {
        None
    } else {
        let attr = attribute_model(attr_trees(attrs[0]));
        match description_by(attr, known) {
            Err(_) => match attr.meta->0.args {
                Err(_) => None,
                Ok(tokens) => description_in_site(
                    Located {
                        tokens,
                        places: args_places(attrs[0]).0,
                        end: args_places(attrs[0]).1,
                    },
                ),
            },
            Ok(more) => description_from_site(attrs.skip(1), more),
        }
    }
}

/// The description known once an attribute has been read. The opt-in to
/// validation says nothing about it.
pub open spec fn description_by(attr: AttributeModel, known: Option<Seq<char>>) -> Result<
    Option<Seq<char>>,
    Messages,
> {
    if attr.is("schema"@) && !is_opt_in(attr) {
        match attr.meta->0.args {
            Err(m) => Err(m),
            Ok(tokens) => description_in(tokens, known),
        }
    } else {
        Ok(known)
    }
}

/// The description known once a list of attributes has been read.
pub open spec fn description_from(attrs: Seq<AttributeModel>, known: Option<Seq<char>>) -> Result<
    Option<Seq<char>>,
    Messages,
>
    decreases attrs.len(),
{
    if attrs.len() == 0 {
        Ok(known)
    } else {
        match description_by(attrs[0], known) {
            Err(m) => Err(m),
            Ok(more) => description_from(attrs.skip(1), more),
        }
    }
}

/// The description of a struct; its name stands in for a missing one.
pub open spec fn struct_description(item: ItemStructModel) -> Result<Seq<char>, Messages> {
    match description_from(attribute_models(item.attrs), None) {
        Err(m) => Err(m),
        Ok(Some(text)) => Ok(text),
        Ok(None) => Ok(item.ident),
    }
}

fn read_description(tokens: TokenStream, end: Span, known: Option<String>) -> (description: Result<
    Option<String>,
    MacroError,
>)
    ensures
        description matches Ok(d) ==> (description_in(trees(tokens), maybe(known)) matches Ok(t) && t
            == maybe(d)),
        description matches Err(e) ==> (description_in(trees(tokens), maybe(known)) matches Err(m)
            && m == e@) && e.is_at(description_in_site(located(tokens, end))),
{
    let mut input = Input::new(tokens, end);
    let mut description = known;
    while !input.is_empty()
        invariant
            description_in(input@.tokens, maybe(description)) == description_in(
                trees(tokens),
                maybe(known),
            ),
            description_in_site(input.located()) == description_in_site(located(tokens, end)),
        decreases weight(input@.tokens),
    {
        proof {
            lemma_meta_path_weight(input@.tokens);
        }
        match input.meta_path() {
            Ok((Some(key), span)) => {
                if !text_is(&key, "description") {
                    return Err(
                        MacroError::new(span, "expected `description = \"...\"`".to_owned()),
                    );
                }
            },
            Ok((None, span)) => return Err(
                MacroError::new(span, "expected `description = \"...\"`".to_owned()),
            ),
            Err(error) => return Err(error),
        }
        proof {
            lemma_step_weights(input@.tokens);
        }
        match input.eq() {
            Ok(()) => {},
            Err(error) => return Err(error),
        }
        proof {
            lemma_step_weights(input@.tokens);
        }
        match input.string() {
            Ok(text) => {
                description = Some(text);
            },
            Err(error) => return Err(error),
        }
        if !input.is_empty() {
            proof {
                lemma_step_weights(input@.tokens);
            }
            match input.comma() {
                Ok(()) => {},
                Err(error) => return Err(error),
            }
        }
    }
    Ok(description)
}

fn describe(item: &ItemStruct) -> (description: Result<String, MacroError>)
    ensures
        description matches Ok(d) ==> (struct_description(item@) matches Ok(t) && t == d@),
        description matches Err(e) ==> (struct_description(item@) matches Err(m) && m == e@)
            && e.is_at(description_from_site(item.attrs@, None)),
{
    let attrs = attributes_of(&item.attrs);
    let ghost models = attribute_models(item@.attrs);
    let mut description: Option<String> = None;
    let mut i: usize = 0;
    assert(models.skip(0) =~= models);
    assert(item.attrs@.skip(0) =~= item.attrs@);
    assert(attribute_views(attrs@).len() == models.len());
    while i < attrs.len()
        invariant
            i <= attrs.len(),
            attrs.len() == item.attrs.len(),
            models == attribute_models(item@.attrs),
            attribute_views(attrs@) == models,
            forall|j: int| 0 <= j < attrs.len() ==> are_placed(#[trigger] attrs[j], item.attrs[j]),
            description_from_site(item.attrs@.skip(i as int), maybe(description))
                == description_from_site(item.attrs@, None),
            description_from(models.skip(i as int), maybe(description)) == description_from(
                models,
                None,
            ),
        decreases attrs.len() - i,
    {
        proof {
            assert(models[i as int] == attrs[i as int]@);
            assert(models.skip(i as int)[0] == models[i as int]);
            assert(models.skip(i as int).skip(1) =~= models.skip(i + 1));
            assert(item.attrs@.skip(i as int)[0] == item.attrs[i as int]);
            assert(item.attrs@.skip(i as int).skip(1) =~= item.attrs@.skip(i + 1));
            assert(are_placed(attrs[i as int], item.attrs[i as int]));
        }
        if attrs[i].is("schema") && !opts_in(&attrs[i]) {
            if let Some(meta) = &attrs[i].meta {
                match &meta.args {
                    Ok(tokens) => {
                        match read_description(tokens.clone(), meta.end, description) {
                            Ok(more) => {
                                description = more;
                            },
                            Err(error) => return Err(error),
                        }
                    },
                    Err(error) => return Err(MacroError::Syntax(error.clone())),
                }
            }
        }
        i += 1;
    }
    match description {
        Some(text) => Ok(text),
        None => Ok(item.ident.to_text()),
    }
}

// ---------------------------------------------------------------------------
// The expansion
// ---------------------------------------------------------------------------

/// The implementation of `Endpoint` for a struct, under the bounds that the struct
/// itself has, and what request types need besides; only a struct without generic
/// parameters can be a request type.
pub open spec fn schema_impl_code(
    item: ItemStructModel,
    description: Seq<char>,
    infos: Seq<FieldInfoModel>,
) -> Seq<Tok> {
    lexed("impl"@) + split_generics(item.generics).0 + lexed(
        "::sevria_service_kit::http::Endpoint for"@,
    ) + ident_tree(item.ident) + split_generics(item.generics).1 + item.where_clause + grouped(
        Delimiter::Brace,
        lexed("fn description() -> & 'static str"@) + grouped(
            Delimiter::Brace,
            string_tree(description),
        ) + lexed("fn json_schema() -> ::sevria_service_kit::__private::serde_json::Value"@)
            + grouped(Delimiter::Brace, json_schema_code(infos)) + request_fields_code(infos),
    ) + (if item.generics.len() == 0 {
        request_machinery_code(item.ident, item.vis, infos, is_validated(item))
    } else {
        Seq::empty()
    })
}

/// What `#[derive(Schema)]` on a struct expands to.
pub open spec fn schema_code(item: ItemStructModel) -> Seq<Tok> {
    match struct_description(item) {
        Err(m) => error_reports(m),
        Ok(description) => match field_infos(item.fields) {
            Err(m) => error_reports(m),
            Ok(infos) => schema_impl_code(item, description, infos),
        },
    }
}

/// The structs that `#[derive(Schema)]` can be put on: those whose fields all
/// have a name. On any other the macro gives up, unless it has found something
/// to complain about by then.
pub open spec fn has_schema(item: ItemStructModel) -> bool {
    struct_description(item) is Err || all_named(item.fields)
}

/// Expands `#[derive(Schema)]` on a struct.
pub fn expand_schema(input: &ItemStruct) -> (stream: TokenStream)
    requires
        has_schema(input@),
    ensures
        trees(stream) == schema_code(input@),
{
    let validates = derives_validate(input);
    let description = match describe(input) {
        Ok(description) => description,
        Err(error) => return error.to_compile_error(),
    };
    let infos = match parse_field_infos(&input.fields) {
        Ok(infos) => infos,
        Err(error) => return error.to_compile_error(),
    };
    let mut block = code("fn description() -> & 'static str");
    append(&mut block, braces(string_literal(description.as_str())));
    emit(
        &mut block,
        "fn json_schema() -> ::sevria_service_kit::__private::serde_json::Value",
    );
    append(&mut block, braces(build_json_schema(&infos)));
    append(&mut block, request_fields_impl(&infos));
    let machinery = if input.generics.is_empty() {
        request_machinery(&input.ident, &input.vis, &infos, validates)
    } else {
        TokenStream::new()
    };
    let (declared, handed_on) = generics_for_impl(input.generics.clone());
    let mut stream = code("impl");
    append(&mut stream, declared);
    emit(&mut stream, "::sevria_service_kit::http::Endpoint for");
    append(&mut stream, input.ident.to_tokens());
    append(&mut stream, handed_on);
    append(&mut stream, input.where_clause.clone());
    append(&mut stream, braces(block));
    append(&mut stream, machinery);
    stream
}

/// Whether every field of a struct has a name.
fn fields_are_named(fields: &Vec<Field>) -> (named: bool)
    ensures
        named == all_named(field_views(fields@)),
{
    let ghost models = field_views(fields@);
    let mut i: usize = 0;
    while i < fields.len()
        invariant
            i <= fields.len(),
            models == field_views(fields@),
            forall|j: int| 0 <= j < i ==> (#[trigger] models[j]).ident is Some,
        decreases fields.len() - i,
    {
        assert(models[i as int] == fields[i as int]@);
        if fields[i].ident.is_none() {
            return false;
        }
        i += 1;
    }
    true
}

/// Whether [`expand_schema`] can be called on a struct.
pub fn schema_is_expandable(input: &ItemStruct) -> (able: bool)
    ensures
        able == has_schema(input@),
{
    fields_are_named(&input.fields) || describe(input).is_err()
}

/// What `#[derive(Schema)]` on a piece of source expands to.
pub open spec fn schema_expansion(item: Seq<Tok>) -> Seq<Tok> {
    match item_struct(item) {
        Err(m) => error_reports(m),
        Ok(model) => schema_code(model),
    }
}

/// The pieces of source that `#[derive(Schema)]` can be put on.
pub open spec fn can_expand_schema(item: Seq<Tok>) -> bool {
    item_struct(item) matches Ok(model) ==> has_schema(model)
}

} // verus!
