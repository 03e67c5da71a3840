//! What `#[derive(Schema)]` reads of a struct's fields.

use crate::error::{MacroError, Messages};
use crate::input::{
    complaint, concluded, fresh, lemma_meta_path_weight, lemma_step_weights, lemma_weight_first,
    located, meta_path, node_step, punct_step, string_step, weight, Input, InputModel, Located,
    Node,
};
use crate::items::{field_views, Field, FieldModel};
use crate::syntax::{
    are_placed, args_places, attr_trees, attribute_model, attribute_models, attribute_views,
    attributes_of, attrs_named, is_plain_path, last_segment, named_attrs, path_names,
    path_segments, segment_names, type_model, type_of, AttributeModel, Segment, Type, TypeModel,
};
use crate::text::{join3, maybe, text_is, trimmed};
use crate::tokens::{streams, trees, Ident, Tok};
use proc_macro2::{Span, TokenStream};
use vstd::prelude::*;

verus! {

// ---------------------------------------------------------------------------
// The model
// ---------------------------------------------------------------------------

/// The part of an HTTP request that a field belongs to.
#[derive(Clone, Copy, PartialEq, Eq, Structural)]
pub enum SourceKind {
    Path,
    Query,
    Body,
}

/// What is known of a field.
pub struct FieldInfo {
    pub ident: Ident,
    pub json_name: String,
    pub ty: Type,
    pub source: SourceKind,
    pub description: Option<String>,
    pub example: Option<String>,
    /// The attributes for `serde`.
    pub serde_attrs: Vec<TokenStream>,
    pub required: bool,
}

/// The model of a [`FieldInfo`].
pub struct FieldInfoModel {
    pub ident: Seq<char>,
    pub json_name: Seq<char>,
    pub ty: TypeModel,
    pub source: SourceKind,
    pub description: Option<Seq<char>>,
    pub example: Option<Seq<char>>,
    pub serde_attrs: Seq<Seq<Tok>>,
    pub required: bool,
}

impl View for FieldInfo {
    type V = FieldInfoModel;

    open spec fn view(&self) -> FieldInfoModel {
        FieldInfoModel {
            ident: self.ident@,
            json_name: self.json_name@,
            ty: self.ty@,
            source: self.source,
            description: maybe(self.description),
            example: maybe(self.example),
            serde_attrs: streams(self.serde_attrs@),
            required: self.required,
        }
    }
}

/// The views of a list of fields.
pub open spec fn info_views(infos: Seq<FieldInfo>) -> Seq<FieldInfoModel> {
    infos.map_values(|info: FieldInfo| info@)
}

// ---------------------------------------------------------------------------
// Optional fields
// ---------------------------------------------------------------------------

/// Whether a type is an `Option`, going by its last segment.
pub open spec fn is_option(ty: TypeModel) -> bool {
    last_segment(ty) matches Some(segment) && segment.ident == "Option"@
}

/// Whether a type is an `Option`.
pub fn is_option_type(ty: &Type) -> (option: bool)
    ensures
        option == is_option(ty@),
{
    match ty.last_segment() {
        Some(segment) => text_is(&segment.ident, "Option"),
        None => false,
    }
}

// ---------------------------------------------------------------------------
// Doc comments
// ---------------------------------------------------------------------------

/// The line that an attribute adds to a doc comment; empty for none.
pub open spec fn doc_line(attr: AttributeModel) -> Seq<char> {
    if attr.is("doc"@) && attr.meta->0.value is Some {
        trimmed(attr.meta->0.value->0)
    } else {
        Seq::empty()
    }
}

/// The lines of a doc comment that are not empty, one below the other.
pub open spec fn doc_text(attrs: Seq<AttributeModel>) -> Seq<char>
    decreases attrs.len(),
{
    if attrs.len() == 0 {
        Seq::empty()
    } else {
        let before = doc_text(attrs.drop_last());
        let line = doc_line(attrs.last());
        if line.len() == 0 {
            before
        } else if before.len() == 0 {
            line
        } else {
            before + "\n"@ + line
        }
    }
}

/// The doc comment among a field's attributes.
pub open spec fn doc_of(attrs: Seq<AttributeModel>) -> Option<Seq<char>> {
    if doc_text(attrs).len() == 0 {
        None
    } else {
        Some(doc_text(attrs))
    }
}

/// The doc comment of a field.
pub fn doc_comment(field: &Field) -> (doc: Option<String>)
    ensures
        maybe(doc) == doc_of(attribute_models(field@.attrs)),
{
    let attrs = attributes_of(&field.attrs);
    let ghost models = attribute_models(field@.attrs);
    let mut doc = String::new();
    let mut i: usize = 0;
    while i < attrs.len()
        invariant
            i <= attrs.len(),
            attribute_views(attrs@) == models,
            doc@ == doc_text(models.take(i as int)),
        decreases attrs.len() - i,
    {
        proof {
            assert(models[i as int] == attrs[i as int]@);
            assert(models.take(i + 1).drop_last() =~= models.take(i as int));
        }
        if attrs[i].is("doc") {
            if let Some(meta) = &attrs[i].meta {
                if let Some(value) = &meta.value {
                    let line = value.as_str().trim();
                    if line.unicode_len() > 0 {
                        if doc.as_str().unicode_len() > 0 {
                            doc = join3(doc.as_str(), "\n", line);
                        } else {
                            doc = line.to_owned();
                        }
                    }
                }
            }
        }
        i += 1;
    }
    assert(models.take(i as int) =~= models);
    if doc.as_str().unicode_len() == 0 {
        None
    } else {
        Some(doc)
    }
}

// ---------------------------------------------------------------------------
// Renamed fields
// ---------------------------------------------------------------------------

/// What is left behind the value of a nested attribute: everything from the next
/// comma on.
pub open spec fn past_value(tokens: Seq<Tok>) -> Seq<Tok>
    decreases tokens.len(),
{
    if tokens.len() == 0 || punct_step(tokens, ',') is Some {
        tokens
    } else {
        past_value(tokens.skip(1))
    }
}

/// Passing over a value adds nothing.
pub proof fn lemma_past_value_weight(tokens: Seq<Tok>)
    ensures
        weight(past_value(tokens)) <= weight(tokens),
    decreases tokens.len(),
{
    if tokens.len() > 0 && punct_step(tokens, ',') is None {
        lemma_weight_first(tokens);
        lemma_past_value_weight(tokens.skip(1));
    }
}

/// The name that nested attributes give by `rename = "..."`, the last one if
/// several do. Whatever other attributes are set to is passed over. Reading stops
/// where a `rename` is not well formed, and what came before still counts.
pub open spec fn rename_in(tokens: Seq<Tok>, found: Option<Seq<char>>) -> Option<Seq<char>>
    decreases weight(tokens),
{
    if tokens.len() == 0 {
        found
    } else {
        match rename_item(tokens, found) {
            (name, None) => name,
            (name, Some(next)) => if next.len() == 0 {
                name
            } else {
                match punct_step(next, ',') {
                    None => name,
                    Some(rest) => {
                        proof {
                            lemma_rename_item_weight(tokens, found);
                            lemma_step_weights(next);
                        }
                        rename_in(rest, name)
                    },
                }
            },
        }
    }
}

/// One nested attribute: the name known by then, and what follows it, unless it
/// is not well formed. Of any other attribute than `rename` everything up to the
/// next comma is passed over.
pub open spec fn rename_item(tokens: Seq<Tok>, found: Option<Seq<char>>) -> (
    Option<Seq<char>>,
    Option<Seq<Tok>>,
) {
    match meta_path(tokens) {
        Err(_) => (found, None),
        Ok((key, after)) => if key == Some("rename"@) {
            match punct_step(after, '=') {
                None => (found, None),
                Some(value) => match string_step(value) {
                    None => (found, None),
                    Some((text, rest)) => (Some(text), Some(rest)),
                },
            }
        } else {
            (found, Some(past_value(after)))
        },
    }
}

/// A nested attribute leaves less to read.
pub proof fn lemma_rename_item_weight(tokens: Seq<Tok>, found: Option<Seq<char>>)
    ensures
        rename_item(tokens, found).1 matches Some(next) ==> weight(next) < weight(tokens),
{
    lemma_meta_path_weight(tokens);
    if let Ok((key, after)) = meta_path(tokens) {
        lemma_step_weights(after);
        lemma_past_value_weight(after);
        if let Some(value) = punct_step(after, '=') {
            lemma_step_weights(value);
        }
    }
}

/// The name that an attribute for `serde` gives a field.
pub open spec fn rename_by(attr: AttributeModel) -> Option<Seq<char>> {
    if attr.is("serde"@) {
        match attr.meta->0.args {
            Ok(tokens) => rename_in(tokens, None),
            Err(_) => None,
        }
    } else {
        None
    }
}

/// The name that the first attribute that gives one gives a field.
pub open spec fn rename_of(attrs: Seq<AttributeModel>) -> Option<Seq<char>>
    decreases attrs.len(),
{
    if attrs.len() == 0 {
        None
    } else if rename_by(attrs[0]) is Some {
        rename_by(attrs[0])
    } else {
        rename_of(attrs.skip(1))
    }
}

/// Passes over the value of a nested attribute.
fn pass_value(input: &mut Input)
    ensures
        final(input)@.tokens == past_value(old(input)@.tokens),
{
    while !input.is_empty() && !input.peek_comma()
        invariant
            past_value(input@.tokens) == past_value(old(input)@.tokens),
        decreases input@.tokens.len(),
    {
        input.skip_tree();
    }
}

/// Reads one nested attribute; `false` where it is not well formed.
fn read_rename_item(input: &mut Input, found: &mut Option<String>) -> (well_formed: bool)
    requires
        old(input)@.tokens.len() > 0,
    ensures
        maybe(*final(found)) == rename_item(old(input)@.tokens, maybe(*old(found))).0,
        well_formed ==> rename_item(old(input)@.tokens, maybe(*old(found))).1 == Some(
            final(input)@.tokens,
        ),
        !well_formed ==> rename_item(old(input)@.tokens, maybe(*old(found))).1 is None,
{
    let key = match input.meta_path() {
        Ok(key) => key,
        Err(_) => return false,
    };
    let renames = match &key.0 {
        Some(name) => text_is(name, "rename"),
        None => false,
    };
    if renames {
        match input.eq() {
            Ok(()) => {},
            Err(_) => return false,
        }
        match input.string() {
            Ok(text) => {
                *found = Some(text);
            },
            Err(_) => return false,
        }
    } else {
        pass_value(input);
    }
    true
}

fn read_rename(tokens: TokenStream, end: Span) -> (found: Option<String>)
    ensures
        maybe(found) == rename_in(trees(tokens), None),
{
    let mut input = Input::new(tokens, end);
    let mut found: Option<String> = None;
    while !input.is_empty()
        invariant
            rename_in(input@.tokens, maybe(found)) == rename_in(trees(tokens), None),
        decreases weight(input@.tokens),
    {
        proof {
            lemma_rename_item_weight(input@.tokens, maybe(found));
        }
        if !read_rename_item(&mut input, &mut found) {
            return found;
        }
        if input.is_empty() {
            return found;
        }
        proof {
            lemma_step_weights(input@.tokens);
        }
        match input.comma() {
            Ok(()) => {},
            Err(_) => return found,
        }
    }
    found
}

/// The name that `#[serde(rename = "...")]` gives a field.
pub fn serde_rename(field: &Field) -> (name: Option<String>)
    ensures
        maybe(name) == rename_of(attribute_models(field@.attrs)),
{
    let attrs = attributes_of(&field.attrs);
    let ghost models = attribute_models(field@.attrs);
    let mut i: usize = 0;
    assert(models.skip(0) =~= models);
    while i < attrs.len()
        invariant
            i <= attrs.len(),
            models == attribute_models(field@.attrs),
            attribute_views(attrs@) == models,
            rename_of(models.skip(i as int)) == rename_of(models),
        decreases attrs.len() - i,
    {
        proof {
            assert(models[i as int] == attrs[i as int]@);
            assert(models.skip(i as int)[0] == models[i as int]);
            assert(models.skip(i as int).skip(1) =~= models.skip(i + 1));
        }
        if attrs[i].is("serde") {
            if let Some(meta) = &attrs[i].meta {
                if let Ok(tokens) = &meta.args {
                    let found = read_rename(tokens.clone(), meta.end);
                    if found.is_some() {
                        return found;
                    }
                }
            }
        }
        i += 1;
    }
    None
}

// ---------------------------------------------------------------------------
// Schema attributes
// ---------------------------------------------------------------------------

/// What `#[schema(...)]` says of a field.
pub struct FieldMeta {
    pub source: SourceKind,
    pub description: Option<String>,
    pub example: Option<String>,
}

/// The model of a [`FieldMeta`].
pub struct FieldMetaModel {
    pub source: SourceKind,
    pub description: Option<Seq<char>>,
    pub example: Option<Seq<char>>,
}

impl View for FieldMeta {
    type V = FieldMetaModel;

    open spec fn view(&self) -> FieldMetaModel {
        FieldMetaModel {
            source: self.source,
            description: maybe(self.description),
            example: maybe(self.example),
        }
    }
}

/// The source that the last segment of a path names.
pub open spec fn source_of(names: Seq<Seq<char>>) -> Result<SourceKind, Messages> {
    if names.len() == 0 {
        Err(seq!["expected a source path"@])
    } else if names.last() == "Path"@ {
        Ok(SourceKind::Path)
    } else if names.last() == "Query"@ {
        Ok(SourceKind::Query)
    } else if names.last() == "Body"@ {
        Ok(SourceKind::Body)
    } else {
        Err(
            seq![
                "expected `Source::Path`, `Source::Query`, or `Source::Body`, found `"@
                    + names.last() + "`"@,
            ],
        )
    }
}

/// The source that a path with these segments names. A complaint is reported at
/// the last segment; where there is none, at the given place.
pub fn source_from_path(segments: &Vec<Segment>, span: Span) -> (source: Result<
    SourceKind,
    MacroError,
>)
    ensures
        source matches Ok(s) ==> (source_of(segment_names(segments@)) matches Ok(k) && k == s),
        source matches Err(e) ==> (source_of(segment_names(segments@)) matches Err(m) && m == e@)
            && e.place() == (if segments@.len() == 0 {
            span
        } else {
            segments@.last().span
        }),
{
    if segments.len() == 0 {
        return Err(MacroError::new(span, "expected a source path".to_owned()));
    }
    let last = &segments[segments.len() - 1];
    assert(segment_names(segments@).last() == last.ident@);
    if text_is(&last.ident, "Path") {
        Ok(SourceKind::Path)
    } else if text_is(&last.ident, "Query") {
        Ok(SourceKind::Query)
    } else if text_is(&last.ident, "Body") {
        Ok(SourceKind::Body)
    } else {
        let message = join3(
            "expected `Source::Path`, `Source::Query`, or `Source::Body`, found `",
            last.ident.as_str(),
            "`",
        );
        Err(MacroError::new(last.span, message))
    }
}

/// The keys that a field's `#[schema(...)]` knows.
pub open spec fn is_field_key(key: Option<Seq<char>>) -> bool {
    key == Some("from"@) || key == Some("description"@) || key == Some("example"@)
}

/// One nested attribute of a field's `#[schema(...)]`.
pub open spec fn field_meta_item(input: InputModel, meta: FieldMetaModel) -> Result<
    (FieldMetaModel, InputModel),
    Messages,
> {
    match meta_path(input.tokens) {
        Err(m) => Err(m),
        Ok((key, after)) => if key == Some("from"@) {
            match punct_step(after, '=') {
                None => Err(seq!["expected `=`"@]),
                Some(value) => match node_step(Node::Path, InputModel { tokens: value, ..input }) {
                    Err(m) => Err(m),
                    Ok((path, rest)) => match source_of(path_names(path)) {
                        Err(m) => Err(m),
                        Ok(source) => Ok((FieldMetaModel { source, ..meta }, rest)),
                    },
                },
            }
        } else if key == Some("description"@) || key == Some("example"@) {
            match punct_step(after, '=') {
                None => Err(seq!["expected `=`"@]),
                Some(value) => match string_step(value) {
                    None => Err(seq![complaint(value, "expected string literal"@)]),
                    Some((text, rest)) => Ok(
                        (
                            if key == Some("description"@) {
                                FieldMetaModel { description: Some(text), ..meta }
                            } else {
                                FieldMetaModel { example: Some(text), ..meta }
                            },
                            InputModel { tokens: rest, ..input },
                        ),
                    ),
                },
            }
        } else {
            Err(seq!["expected `from`, `description`, or `example`"@])
        },
    }
}

/// Where a complaint about the source that a path names is reported: at the last
/// segment of a path without arguments. Otherwise it stands where the compiler joins
/// several places.
pub open spec fn source_site(path: Seq<Tok>, source: Located) -> Option<Span> {
    if is_plain_path(path) && path_names(path).len() > 0 {
        source.last_site(path)
    } else {
        None
    }
}

/// Where a complaint about one nested attribute is reported: at an unknown key, or at
/// what comes next where a part is missing. Those about a path are the parser's.
pub open spec fn field_meta_item_site(input: InputModel, source: Located) -> Option<Span> {
    match meta_path(input.tokens) {
        Err(_) => None,
        Ok((key, after)) => if is_field_key(key) {
            match punct_step(after, '=') {
                None => Some(source.behind(after).punct_site()),
                Some(value) => {
                    let behind = source.behind(after).behind(value);
                    if key == Some("from"@) {
                        match node_step(Node::Path, InputModel { tokens: value, ..input }) {
                            Err(_) => None,
                            Ok((path, _)) => source_site(path, behind),
                        }
                    } else {
                        Some(behind.here())
                    }
                },
            }
        } else if key is Some {
            Some(source.front().here())
        } else {
            None
        },
    }
}

/// What follows one nested attribute `key = value` that leaves `rest`.
pub open spec fn behind_meta(source: Located, rest: Seq<Tok>) -> Located {
    let after = (meta_path(source.tokens)->Ok_0).1;
    source.behind(after).behind(punct_step(after, '=')->0).behind(rest)
}

/// A nested attribute leaves less to read.
pub proof fn lemma_field_meta_item_weight(input: InputModel, meta: FieldMetaModel)
    ensures
        field_meta_item(input, meta) matches Ok(step) ==> weight(step.1.tokens) < weight(
            input.tokens,
        ),
{
    lemma_meta_path_weight(input.tokens);
    if let Ok((key, after)) = meta_path(input.tokens) {
        lemma_step_weights(after);
        if let Some(value) = punct_step(after, '=') {
            lemma_step_weights(value);
        }
    }
}

/// The nested attributes of a field's `#[schema(...)]`, separated by commas.
pub open spec fn field_meta_items(input: InputModel, meta: FieldMetaModel) -> Result<
    (FieldMetaModel, InputModel),
    Messages,
>
    decreases weight(input.tokens),
{
    if input.tokens.len() == 0 {
        Ok((meta, input))
    } else {
        match field_meta_item(input, meta) {
            Err(m) => Err(m),
            Ok((more, next)) => if next.tokens.len() == 0 {
                Ok((more, next))
            } else {
                match punct_step(next.tokens, ',') {
                    None => Err(seq!["expected `,`"@]),
                    Some(rest) => {
                        proof {
                            lemma_field_meta_item_weight(input, meta);
                            lemma_step_weights(next.tokens);
                        }
                        field_meta_items(InputModel { tokens: rest, ..next }, more)
                    },
                }
            },
        }
    }
}

/// Where a complaint about the nested attributes is reported.
pub open spec fn field_meta_items_site(
    input: InputModel,
    source: Located,
    meta: FieldMetaModel,
) -> Option<Span>
    decreases weight(input.tokens),
{
    if input.tokens.len() == 0 {
        None
    } else {
        match field_meta_item(input, meta) {
            Err(_) => field_meta_item_site(input, source),
            Ok((more, next)) => {
                let behind = behind_meta(source, next.tokens);
                match punct_step(next.tokens, ',') {
                    Some(rest) => {
                        proof {
                            lemma_field_meta_item_weight(input, meta);
                            lemma_step_weights(next.tokens);
                        }
                        field_meta_items_site(
                            InputModel { tokens: rest, ..next },
                            behind.behind(rest),
                            more,
                        )
                    },
                    None => if next.tokens.len() == 0 {
                        None
                    } else {
                        Some(behind.punct_site())
                    },
                }
            },
        }
    }
}

/// Where a complaint about one attribute of a field is reported.
pub open spec fn field_meta_by_site(attr: syn::Attribute, meta: FieldMetaModel) -> Option<Span> {
    match attribute_model(attr_trees(attr)).meta->0.args {
        Err(_) => None,
        Ok(tokens) => field_meta_items_site(
            fresh(tokens),
            Located { tokens, places: args_places(attr).0, end: args_places(attr).1 },
            meta,
        ),
    }
}

/// Where a complaint about a list of attributes of a field is reported: in the first
/// attribute that there is one about.
pub open spec fn field_meta_from_site(attrs: Seq<syn::Attribute>, meta: FieldMetaModel) -> Option<
    Span,
>
    decreases attrs.len(),
{
    if attrs.len() == 0 {
        None
    } else {
        match field_meta_by(attribute_model(attr_trees(attrs[0])), meta) {
            Err(_) => field_meta_by_site(attrs[0], meta),
            Ok(more) => field_meta_from_site(attrs.skip(1), more),
        }
    }
}

/// Where a complaint about the attributes of a field is reported, as far as it is
/// neither the parser's nor where the compiler joins several places.
pub open spec fn field_meta_site(attrs: Seq<syn::Attribute>) -> Option<Span> {
    field_meta_from_site(attrs, no_meta())
}

/// What is known of a field of which nothing is said.
pub open spec fn no_meta() -> FieldMetaModel {
    FieldMetaModel { source: SourceKind::Body, description: None, example: None }
}

/// What one attribute adds to what is known of a field.
pub open spec fn field_meta_by(attr: AttributeModel, meta: FieldMetaModel) -> Result<
    FieldMetaModel,
    Messages,
> {
    if attr.is("schema"@) {
        match attr.meta->0.args {
            Err(m) => Err(m),
            Ok(tokens) => concluded(field_meta_items(fresh(tokens), meta)),
        }
    } else {
        Ok(meta)
    }
}

/// What a list of attributes adds to what is known of a field.
pub open spec fn field_meta_from(attrs: Seq<AttributeModel>, meta: FieldMetaModel) -> Result<
    FieldMetaModel,
    Messages,
>
    decreases attrs.len(),
{
    if attrs.len() == 0 {
        Ok(meta)
    } else {
        match field_meta_by(attrs[0], meta) {
            Err(m) => Err(m),
            Ok(more) => field_meta_from(attrs.skip(1), more),
        }
    }
}

/// What a field's attributes say of it. It comes from the body unless they say
/// otherwise, and its doc comment stands in for a missing description.
pub open spec fn field_meta(attrs: Seq<AttributeModel>) -> Result<FieldMetaModel, Messages> {
    match field_meta_from(attrs, no_meta()) {
        Err(m) => Err(m),
        Ok(meta) => Ok(
            FieldMetaModel {
                description: if meta.description is None {
                    doc_of(attrs)
                } else {
                    meta.description
                },
                ..meta
            },
        ),
    }
}

fn read_source(input: &mut Input, span: Span) -> (source: Result<SourceKind, MacroError>)
    ensures
        source matches Ok(s) ==> (node_step(Node::Path, old(input)@) matches Ok(step) && step.1
            == final(input)@ && (source_of(path_names(step.0)) matches Ok(k) && k == s))
            && final(input).located() == old(input).located().behind(final(input)@.tokens),
        source matches Err(e) ==> (match node_step(Node::Path, old(input)@) {
            Err(m) => m == e@,
            Ok(step) => (source_of(path_names(step.0)) matches Err(m) && m == e@) && e.is_at(
                source_site(step.0, old(input).located()),
            ),
        }),
{
    let path = match input.node(Node::Path) {
        Ok(path) => path,
        Err(error) => return Err(error),
    };
    let segments = path_segments(path);
    assert(segments@.len() == segment_names(segments@).len());
    source_from_path(&segments, span)
}

/// Reads one nested attribute of a field's `#[schema(...)]`.
pub fn read_field_meta_item(input: &mut Input, meta: &mut FieldMeta) -> (read: Result<
    (),
    MacroError,
>)
    requires
        old(input)@.tokens.len() > 0,
    ensures
        read is Ok ==> (field_meta_item(old(input)@, old(meta)@) matches Ok(step) && step.0
            == final(meta)@ && step.1 == final(input)@) && final(input).located() == behind_meta(
            old(input).located(),
            final(input)@.tokens,
        ),
        read matches Err(e) ==> (field_meta_item(old(input)@, old(meta)@) matches Err(m) && m
            == e@) && e.is_at(field_meta_item_site(old(input)@, old(input).located())),
{
    let (key, span) = match input.meta_path() {
        Ok((Some(key), span)) => (key, span),
        Ok((None, span)) => return Err(
            MacroError::new(span, "expected `from`, `description`, or `example`".to_owned()),
        ),
        Err(error) => return Err(error),
    };
    if text_is(&key, "from") {
        match input.eq() {
            Ok(()) => {},
            Err(error) => return Err(error),
        }
        match read_source(input, span) {
            Ok(source) => {
                meta.source = source;
            },
            Err(error) => return Err(error),
        }
    } else if text_is(&key, "description") || text_is(&key, "example") {
        match input.eq() {
            Ok(()) => {},
            Err(error) => return Err(error),
        }
        let text = match input.string() {
            Ok(text) => text,
            Err(error) => return Err(error),
        };
        if text_is(&key, "description") {
            meta.description = Some(text);
        } else {
            meta.example = Some(text);
        }
    } else {
        return Err(
            MacroError::new(span, "expected `from`, `description`, or `example`".to_owned()),
        );
    }
    Ok(())
}

fn read_field_meta(tokens: TokenStream, end: Span, meta: &mut FieldMeta) -> (read: Result<(), MacroError>)
    ensures
        read is Ok ==> (concluded(field_meta_items(fresh(trees(tokens)), old(meta)@)) matches Ok(m)
            && m == final(meta)@),
        read matches Err(e) ==> (concluded(
            field_meta_items(fresh(trees(tokens)), old(meta)@),
        ) matches Err(m) && m == e@) && e.is_at(
            field_meta_items_site(fresh(trees(tokens)), located(tokens, end), old(meta)@),
        ),
{
    let mut input = Input::new(tokens, end);
    while !input.is_empty()
        invariant
            field_meta_items(input@, meta@) == field_meta_items(fresh(trees(tokens)), old(meta)@),
            field_meta_items_site(input@, input.located(), meta@) == field_meta_items_site(
                fresh(trees(tokens)),
                located(tokens, end),
                old(meta)@,
            ),
        decreases weight(input@.tokens),
    {
        proof {
            lemma_field_meta_item_weight(input@, meta@);
        }
        match read_field_meta_item(&mut input, meta) {
            Ok(()) => {},
            Err(error) => return Err(error),
        }
        if !input.is_empty() {
            proof {
                lemma_step_weights(input@.tokens);
            }
            match input.comma() {
                Ok(()) => {},
                Err(error) => return Err(error),
            }
        }
    }
    match input.unexpected {
        Some(error) => Err(error),
        None => Ok(()),
    }
}

/// Reads the attributes `#[schema(...)]` of a field. `from` stands for the body
/// where it is left out, and the doc comment for the description.
pub fn openapi_field_meta(field: &Field) -> (meta: Result<FieldMeta, MacroError>)
    ensures
        meta matches Ok(m) ==> (field_meta(attribute_models(field@.attrs)) matches Ok(model) && model
            == m@),
        meta matches Err(e) ==> (field_meta(attribute_models(field@.attrs)) matches Err(m) && m
            == e@) && e.is_at(field_meta_site(field.attrs@)),
{
    let attrs = attributes_of(&field.attrs);
    let ghost models = attribute_models(field@.attrs);
    let mut meta = FieldMeta { source: SourceKind::Body, description: None, example: None };
    let ghost start = meta@;
    let mut i: usize = 0;
    assert(models.skip(0) =~= models);
    assert(field.attrs@.skip(0) =~= field.attrs@);
    assert(attribute_views(attrs@).len() == models.len());
    while i < attrs.len()
        invariant
            i <= attrs.len(),
            attrs.len() == field.attrs.len(),
            models == attribute_models(field@.attrs),
            start == no_meta(),
            attribute_views(attrs@) == models,
            forall|j: int| 0 <= j < attrs.len() ==> are_placed(#[trigger] attrs[j], field.attrs[j]),
            field_meta_from(models.skip(i as int), meta@) == field_meta_from(models, start),
            field_meta_from_site(field.attrs@.skip(i as int), meta@) == field_meta_site(
                field.attrs@,
            ),
        decreases attrs.len() - i,
    {
        proof {
            assert(models[i as int] == attrs[i as int]@);
            assert(models.skip(i as int)[0] == models[i as int]);
            assert(models.skip(i as int).skip(1) =~= models.skip(i + 1));
            assert(field.attrs@.skip(i as int)[0] == field.attrs[i as int]);
            assert(field.attrs@.skip(i as int).skip(1) =~= field.attrs@.skip(i + 1));
            assert(are_placed(attrs[i as int], field.attrs[i as int]));
        }
        if attrs[i].is("schema") {
            if let Some(said) = &attrs[i].meta {
                match &said.args {
                    Ok(tokens) => {
                        match read_field_meta(tokens.clone(), said.end, &mut meta) {
                            Ok(()) => {},
                            Err(error) => return Err(error),
                        }
                    },
                    Err(error) => return Err(MacroError::Syntax(error.clone())),
                }
            }
        }
        i += 1;
    }
    if meta.description.is_none() {
        meta.description = doc_comment(field);
    }
    Ok(meta)
}

// ---------------------------------------------------------------------------
// All fields
// ---------------------------------------------------------------------------

/// What is known of a field with a name.
pub open spec fn field_info(field: FieldModel) -> Result<FieldInfoModel, Messages> {
    let attrs = attribute_models(field.attrs);
    match field_meta(attrs) {
        Err(m) => Err(m),
        Ok(meta) => Ok(
            FieldInfoModel {
                ident: field.ident->0,
                json_name: match rename_of(attrs) {
                    Some(name) => name,
                    None => field.ident->0,
                },
                ty: type_model(field.ty),
                source: meta.source,
                description: meta.description,
                example: meta.example,
                serde_attrs: attrs_named(field.attrs, "serde"@),
                required: !is_option(type_model(field.ty)),
            },
        ),
    }
}

/// What is known of each field; the first complaint where there is one.
pub open spec fn field_infos(fields: Seq<FieldModel>) -> Result<Seq<FieldInfoModel>, Messages>
    decreases fields.len(),
{
    if fields.len() == 0 {
        Ok(Seq::empty())
    } else {
        match field_infos(fields.drop_last()) {
            Err(m) => Err(m),
            Ok(infos) => match field_info(fields.last()) {
                Err(m) => Err(m),
                Ok(info) => Ok(infos.push(info)),
            },
        }
    }
}

/// Where a complaint about the fields is reported: at the first one that there is one
/// about.
pub open spec fn field_infos_site(fields: Seq<Field>) -> Option<Span>
    decreases fields.len(),
{
    if fields.len() == 0 {
        None
    } else if field_infos(field_views(fields.drop_last())) is Err {
        field_infos_site(fields.drop_last())
    } else {
        field_meta_site(fields.last().attrs@)
    }
}

/// Whether every field has a name.
pub open spec fn all_named(fields: Seq<FieldModel>) -> bool {
    forall|i: int| 0 <= i < fields.len() ==> (#[trigger] fields[i]).ident is Some
}

fn parse_field_info(field: &Field) -> (info: Result<FieldInfo, MacroError>)
    requires
        field@.ident is Some,
    ensures
        info matches Ok(i) ==> (field_info(field@) matches Ok(model) && model == i@),
        info matches Err(e) ==> (field_info(field@) matches Err(m) && m == e@) && e.is_at(
            field_meta_site(field.attrs@),
        ),
{
    let ident = field.ident.as_ref().unwrap().copy();
    let json_name = match serde_rename(field) {
        Some(name) => name,
        None => ident.to_text(),
    };
    let meta = match openapi_field_meta(field) {
        Ok(meta) => meta,
        Err(error) => return Err(error),
    };
    let serde_attrs = named_attrs(&field.attrs, "serde");
    let ty = type_of(field.ty.clone());
    let required = !is_option_type(&ty);
    Ok(
        FieldInfo {
            ident,
            json_name,
            ty,
            source: meta.source,
            description: meta.description,
            example: meta.example,
            serde_attrs,
            required,
        },
    )
}

/// Where a field is complained about, so is every list that begins with it and
/// the fields before it.
proof fn lemma_field_infos_prefix(fields: Seq<Field>, i: int)
    requires
        0 <= i <= fields.len(),
        field_infos(field_views(fields.take(i))) is Err,
    ensures
        field_infos(field_views(fields)) == field_infos(field_views(fields.take(i))),
        field_infos_site(fields) == field_infos_site(fields.take(i)),
    decreases fields.len() - i,
{
    if i < fields.len() {
        assert(fields.take(i + 1).drop_last() =~= fields.take(i));
        assert(field_views(fields.take(i + 1)).drop_last() =~= field_views(fields.take(i)));
        lemma_field_infos_prefix(fields, i + 1);
    } else {
        assert(fields.take(i) =~= fields);
    }
}

/// Reads what is known of each field of a struct.
pub fn parse_field_infos(fields: &Vec<Field>) -> (infos: Result<Vec<FieldInfo>, MacroError>)
    requires
        all_named(field_views(fields@)),
    ensures
        infos matches Ok(list) ==> (field_infos(field_views(fields@)) matches Ok(models) && models
            == info_views(list@)),
        infos matches Err(e) ==> (field_infos(field_views(fields@)) matches Err(m) && m == e@)
            && e.is_at(field_infos_site(fields@)),
{
    let ghost models = field_views(fields@);
    let mut infos: Vec<FieldInfo> = Vec::new();
    let mut i: usize = 0;
    assert(info_views(infos@) =~= Seq::empty());
    while i < fields.len()
        invariant
            i <= fields.len(),
            models == field_views(fields@),
            all_named(models),
            field_infos(models.take(i as int)) matches Ok(list) && list == info_views(infos@),
        decreases fields.len() - i,
    {
        proof {
            assert(models[i as int] == fields[i as int]@);
            assert(models.take(i + 1).drop_last() =~= models.take(i as int));
        }
        let ghost before = infos@;
        match parse_field_info(&fields[i]) {
            Ok(info) => {
                infos.push(info);
                assert(info_views(infos@) =~= info_views(before).push(info@));
            },
            Err(error) => {
                proof {
                    let taken = fields@.take(i + 1);
                    assert(taken.drop_last() =~= fields@.take(i as int));
                    assert(field_views(fields@.take(i as int)) =~= models.take(i as int));
                    assert(field_views(taken) =~= models.take(i + 1));
                    lemma_field_infos_prefix(fields@, i + 1);
                }
                return Err(error);
            },
        }
        i += 1;
    }
    assert(models.take(i as int) =~= models);
    Ok(infos)
}

} // verus!
