//! Types, expressions and attributes: what the expansions read of them.

use crate::error::{messages, Messages};
use crate::text::maybe;
use crate::tokens::{places, span_of, streams, trees, Spot, Tok};
use proc_macro2::{Span, TokenStream};
use quote::ToTokens;
use syn::spanned::Spanned;
use syn::PathArguments::AngleBracketed;
use syn::{GenericArgument, Type as SynType};
use vstd::prelude::*;

verus! {

// ---------------------------------------------------------------------------
// Types
// ---------------------------------------------------------------------------

/// A type, as its tokens and as its outermost form.
pub struct Type {
    pub tokens: TokenStream,
    pub kind: TypeKind,
}

/// The forms of a type that matter to the expansions.
pub enum TypeKind {
    /// A path, segment by segment.
    Path(Vec<TypeSegment>),
    /// A type in parentheses.
    Paren(Box<Type>),
    /// A tuple, by its number of elements.
    Tuple(usize),
    /// Any other type.
    Other,
}

/// One segment of a path: its name, and its arguments in angle brackets.
pub struct TypeSegment {
    pub ident: String,
    pub args: Option<Vec<GenericArg>>,
}

/// One argument in angle brackets.
pub enum GenericArg {
    Type(Type),
    /// A lifetime, a constant, a binding or a constraint.
    Other,
}

/// The model of a [`Type`].
pub struct TypeModel {
    pub tokens: Seq<Tok>,
    pub kind: TypeKindModel,
}

/// The model of a [`TypeKind`].
pub enum TypeKindModel {
    Path(Seq<TypeSegmentModel>),
    Paren(Box<TypeModel>),
    Tuple(nat),
    Other,
}

/// The model of a [`TypeSegment`].
pub struct TypeSegmentModel {
    pub ident: Seq<char>,
    pub args: Option<Seq<GenericArgModel>>,
}

/// The model of a [`GenericArg`].
pub enum GenericArgModel {
    Type(TypeModel),
    Other,
}

/// The view of a [`Type`].
pub open spec fn type_view(ty: Type) -> TypeModel
    decreases ty,
{
    TypeModel { tokens: trees(ty.tokens), kind: type_kind_view(ty.kind) }
}

/// The view of a [`TypeKind`].
pub open spec fn type_kind_view(kind: TypeKind) -> TypeKindModel
    decreases kind,
{
    match kind {
        TypeKind::Path(segments) => TypeKindModel::Path(type_segments_view(segments@)),
        TypeKind::Paren(inner) => TypeKindModel::Paren(Box::new(type_view(*inner))),
        TypeKind::Tuple(n) => TypeKindModel::Tuple(n as nat),
        TypeKind::Other => TypeKindModel::Other,
    }
}

/// The view of a [`TypeSegment`].
pub open spec fn type_segment_view(segment: TypeSegment) -> TypeSegmentModel
    decreases segment,
{
    TypeSegmentModel {
        ident: segment.ident@,
        args: match segment.args {
            Some(list) => Some(generic_args_view(list@)),
            None => None,
        },
    }
}

/// The views of a list of segments.
pub open spec fn type_segments_view(segments: Seq<TypeSegment>) -> Seq<TypeSegmentModel>
    decreases segments,
{
    if segments.len() == 0 {
        Seq::empty()
    } else {
        type_segments_view(segments.drop_last()).push(type_segment_view(segments.last()))
    }
}

/// The view of a [`GenericArg`].
pub open spec fn generic_arg_view(arg: GenericArg) -> GenericArgModel
    decreases arg,
{
    match arg {
        GenericArg::Type(ty) => GenericArgModel::Type(type_view(ty)),
        GenericArg::Other => GenericArgModel::Other,
    }
}

/// The views of a list of arguments.
pub open spec fn generic_args_view(args: Seq<GenericArg>) -> Seq<GenericArgModel>
    decreases args,
{
    if args.len() == 0 {
        Seq::empty()
    } else {
        generic_args_view(args.drop_last()).push(generic_arg_view(args.last()))
    }
}

impl View for Type {
    type V = TypeModel;

    open spec fn view(&self) -> TypeModel {
        type_view(*self)
    }
}

/// The view of a list of arguments is the list of the arguments' views.
pub proof fn lemma_generic_args_view(args: Seq<GenericArg>)
    ensures
        generic_args_view(args).len() == args.len(),
        forall|i: int|
            0 <= i < args.len() ==> #[trigger] generic_args_view(args)[i] == generic_arg_view(
                args[i],
            ),
    decreases args.len(),
{
    if args.len() > 0 {
        lemma_generic_args_view(args.drop_last());
    }
}

/// The form of the type that a piece of source is, as `syn` parses it;
/// [`TypeKindModel::Other`] where it is no type.
pub uninterp spec fn type_kind(tokens: Seq<Tok>) -> TypeKindModel;

/// The type that a piece of source is.
pub open spec fn type_model(tokens: Seq<Tok>) -> TypeModel {
    TypeModel { tokens, kind: type_kind(tokens) }
}

/// `syn::parse2::<syn::Type>`, read off form by form down to the innermost type.
/// What form a piece of source has is left to the parser and named [`type_kind`].
#[verifier::external_body]
fn type_kind_of(tokens: TokenStream) -> (kind: TypeKind)
    ensures
        type_kind_view(kind) == type_kind(trees(tokens)),
{
    let nested = |t: &SynType| type_of(t.to_token_stream());
    match syn::parse2(tokens) {
        Ok(SynType::Paren(t)) => TypeKind::Paren(Box::new(nested(&t.elem))),
        Ok(SynType::Tuple(t)) => TypeKind::Tuple(t.elems.len()),
        Ok(SynType::Path(t)) => TypeKind::Path(t.path.segments.iter().map(|segment| TypeSegment {
            ident: segment.ident.to_string(),
            args: match &segment.arguments {
                AngleBracketed(list) => Some(list.args.iter().map(|arg| match arg {
                    GenericArgument::Type(t) => GenericArg::Type(nested(t)),
                    _ => GenericArg::Other
                }).collect()),
                _ => None },
        }).collect()),
        _ => TypeKind::Other,
    }
}

/// The type with these tokens.
pub(crate) fn type_of(tokens: TokenStream) -> (ty: Type)
    ensures
        ty@ == type_model(trees(tokens)),
{
    let kind = type_kind_of(tokens.clone());
    Type { tokens, kind }
}

impl Type {
    /// The same type once more.
    pub fn copy(&self) -> (ty: Type)
        ensures
            ty@ == self@,
        decreases self,
    {
        let kind = match &self.kind {
            TypeKind::Path(segments) => TypeKind::Path(copy_segments(segments)),
            TypeKind::Paren(inner) => TypeKind::Paren(Box::new(inner.copy())),
            TypeKind::Tuple(n) => TypeKind::Tuple(*n),
            TypeKind::Other => TypeKind::Other,
        };
        Type { tokens: self.tokens.clone(), kind }
    }

    /// The last segment of a path.
    pub fn last_segment(&self) -> (segment: Option<&TypeSegment>)
        ensures
            segment matches Some(s) ==> last_segment(self@) == Some(type_segment_view(*s)),
            segment is None ==> last_segment(self@) is None,
    {
        match &self.kind {
            TypeKind::Path(segments) => {
                assert(type_kind_view(self.kind) == TypeKindModel::Path(
                    type_segments_view(segments@),
                ));
                if segments.len() > 0 {
                    Some(&segments[segments.len() - 1])
                } else {
                    None
                }
            },
            _ => None,
        }
    }
}

fn copy_segments(segments: &Vec<TypeSegment>) -> (list: Vec<TypeSegment>)
    ensures
        type_segments_view(list@) == type_segments_view(segments@),
    decreases segments,
{
    let mut list: Vec<TypeSegment> = Vec::new();
    let mut i: usize = 0;
    while i < segments.len()
        invariant
            i <= segments.len(),
            list.len() == i,
            type_segments_view(list@) == type_segments_view(segments@.take(i as int)),
        decreases segments.len() - i,
    {
        let segment = TypeSegment {
            ident: segments[i].ident.clone(),
            args: match &segments[i].args {
                Some(args) => Some(copy_args(args)),
                None => None,
            },
        };
        let ghost before = list@;
        assert(type_segment_view(segment) == type_segment_view(segments[i as int]));
        list.push(segment);
        i += 1;
        proof {
            assert(list@.drop_last() =~= before);
            assert(segments@.take(i as int).drop_last() =~= segments@.take(i - 1));
        }
    }
    assert(segments@.take(i as int) =~= segments@);
    list
}

fn copy_args(args: &Vec<GenericArg>) -> (list: Vec<GenericArg>)
    ensures
        generic_args_view(list@) == generic_args_view(args@),
    decreases args,
{
    let mut list: Vec<GenericArg> = Vec::new();
    let mut i: usize = 0;
    while i < args.len()
        invariant
            i <= args.len(),
            list.len() == i,
            generic_args_view(list@) == generic_args_view(args@.take(i as int)),
        decreases args.len() - i,
    {
        let arg = match &args[i] {
            GenericArg::Type(ty) => GenericArg::Type(ty.copy()),
            GenericArg::Other => GenericArg::Other,
        };
        let ghost before = list@;
        assert(generic_arg_view(arg) == generic_arg_view(args[i as int]));
        list.push(arg);
        i += 1;
        proof {
            assert(list@.drop_last() =~= before);
            assert(args@.take(i as int).drop_last() =~= args@.take(i - 1));
        }
    }
    assert(args@.take(i as int) =~= args@);
    list
}

/// The last segment of a path.
pub open spec fn last_segment(ty: TypeModel) -> Option<TypeSegmentModel> {
    match ty.kind {
        TypeKindModel::Path(segments) => if segments.len() > 0 {
            Some(segments.last())
        } else {
            None
        },
        _ => None,
    }
}

/// The arguments in angle brackets of the last segment of a path.
pub open spec fn last_args(ty: TypeModel) -> Option<Seq<GenericArgModel>> {
    match last_segment(ty) {
        Some(segment) => segment.args,
        None => None,
    }
}

/// The first argument in angle brackets, if it is a type.
pub open spec fn first_type_arg(ty: TypeModel) -> Option<TypeModel> {
    match last_args(ty) {
        Some(list) => if list.len() > 0 {
            match list[0] {
                GenericArgModel::Type(arg) => Some(arg),
                GenericArgModel::Other => None,
            }
        } else {
            None
        },
        None => None,
    }
}

/// A type's argument is smaller than the type.
pub proof fn lemma_first_type_arg_smaller(ty: TypeModel)
    ensures
        first_type_arg(ty) matches Some(arg) ==> decreases_to!(ty => arg),
{
    if let Some(arg) = first_type_arg(ty) {
        let segments = ty.kind->Path_0;
        let args = segments[segments.len() - 1].args;
        let list = args->0;
        assert(decreases_to!(ty => ty.kind));
        assert(decreases_to!(ty.kind => segments));
        assert(decreases_to!(segments => segments[segments.len() - 1]));
        assert(decreases_to!(segments[segments.len() - 1] => args));
        assert(decreases_to!(args => list));
        assert(decreases_to!(list => list[0]));
        assert(decreases_to!(list[0] => list[0]->Type_0));
    }
}

/// The first argument in angle brackets, if it is a type.
pub(crate) fn first_type_arg_of(ty: &Type) -> (arg: Option<&Type>)
    ensures
        arg matches Some(t) ==> first_type_arg(ty@) == Some(t@),
        arg is None ==> first_type_arg(ty@) is None,
{
    match ty.last_segment() {
        Some(TypeSegment { ident, args: Some(list) }) => {
            proof {
                lemma_generic_args_view(list@);
            }
            if list.len() > 0 {
                match &list[0] {
                    GenericArg::Type(arg) => Some(arg),
                    GenericArg::Other => None,
                }
            } else {
                None
            }
        },
        _ => None,
    }
}

// ---------------------------------------------------------------------------
// Expressions
// ---------------------------------------------------------------------------

/// An expression, as its tokens, as the form it has, and where it stands.
pub struct Expr {
    pub tokens: TokenStream,
    pub kind: ExprKind,
    pub span: Span,
}

/// One segment of a path, by its name, and where it stands.
pub struct Segment {
    pub ident: String,
    pub span: Span,
}

/// Whether a piece of source is made of identifiers and `::` alone.
pub open spec fn is_plain_path(tokens: Seq<Tok>) -> bool {
    forall|i: int|
        0 <= i < tokens.len() ==> (#[trigger] tokens[i] is Ident || (tokens[i] is Punct
            && tokens[i]->Punct_0 == ':'))
}

/// Whether the last segment of a plain path has the place of the last token.
pub open spec fn last_is_placed(segments: Seq<Segment>, path: TokenStream) -> bool {
    segments.len() > 0 && is_plain_path(trees(path)) ==> segments.last().span == places(
        path,
    )[trees(path).len() - 1].open
}

/// The names of the segments of a path.
pub open spec fn segment_names(segments: Seq<Segment>) -> Seq<Seq<char>> {
    segments.map_values(|segment: Segment| segment.ident@)
}

/// The forms of an expression that matter to the expansions.
pub enum ExprKind {
    /// A string literal, by its value.
    Str(String),
    /// An integer literal, by its digits in base ten.
    Int(String),
    /// Any other literal.
    Lit,
    /// A path, segment by segment.
    Path(Vec<Segment>),
    /// Any other expression.
    Other,
}

/// The model of an [`Expr`].
pub struct ExprModel {
    pub tokens: Seq<Tok>,
    pub kind: ExprKindModel,
}

/// The model of an [`ExprKind`].
pub enum ExprKindModel {
    Str(Seq<char>),
    Int(Seq<char>),
    Lit,
    Path(Seq<Seq<char>>),
    Other,
}

impl View for ExprKind {
    type V = ExprKindModel;

    open spec fn view(&self) -> ExprKindModel {
        match self {
            ExprKind::Str(value) => ExprKindModel::Str(value@),
            ExprKind::Int(digits) => ExprKindModel::Int(digits@),
            ExprKind::Lit => ExprKindModel::Lit,
            ExprKind::Path(segments) => ExprKindModel::Path(segment_names(segments@)),
            ExprKind::Other => ExprKindModel::Other,
        }
    }
}

impl View for Expr {
    type V = ExprModel;

    open spec fn view(&self) -> ExprModel {
        ExprModel { tokens: trees(self.tokens), kind: self.kind@ }
    }
}

/// The form of the expression that a piece of source is, as `syn` parses it;
/// [`ExprKindModel::Other`] where it is no expression.
pub uninterp spec fn expr_kind(tokens: Seq<Tok>) -> ExprKindModel;

/// The expression that a piece of source is.
pub open spec fn expr_model(tokens: Seq<Tok>) -> ExprModel {
    ExprModel { tokens, kind: expr_kind(tokens) }
}

/// `syn::parse2::<syn::Expr>`, read off form by form. What form a piece of source
/// has is left to the parser and named [`expr_kind`]. The last segment of a path
/// without arguments stands where its last token does.
#[verifier::external_body]
fn expr_kind_of(tokens: TokenStream) -> (kind: ExprKind)
    ensures
        kind@ == expr_kind(trees(tokens)),
        kind matches ExprKind::Path(segments) ==> last_is_placed(segments@, tokens),
{
    match syn::parse2::<syn::Expr>(tokens) {
        Ok(syn::Expr::Lit(e)) => match e.lit {
            syn::Lit::Str(value) => ExprKind::Str(value.value()),
            syn::Lit::Int(value) => ExprKind::Int(value.base10_digits().to_string()),
            _ => ExprKind::Lit,
        },
        Ok(syn::Expr::Path(e)) => ExprKind::Path(e.path.segments.iter().map(|segment| Segment {
            ident: segment.ident.to_string(),
            span: segment.span(),
        }).collect()),
        _ => ExprKind::Other,
    }
}

/// The expression with these tokens.
pub(crate) fn expr_of(tokens: TokenStream) -> (expr: Expr)
    ensures
        expr@ == expr_model(trees(tokens)),
        expr.tokens == tokens,
        trees(tokens).len() == 1 && !(trees(tokens)[0] is Group) ==> expr.span == places(
            tokens,
        )[0].open,
        expr.kind matches ExprKind::Path(segments) ==> last_is_placed(segments@, tokens),
{
    let kind = expr_kind_of(tokens.clone());
    let span = span_of(&tokens);
    Expr { tokens, kind, span }
}

// ---------------------------------------------------------------------------
// Paths
// ---------------------------------------------------------------------------

/// The names of the segments of the path that a piece of source is, as `syn`
/// parses it; none where it is no path.
pub uninterp spec fn path_names(path: Seq<Tok>) -> Seq<Seq<char>>;

/// `syn::parse2::<syn::Path>` and its segments. What they are is left to the
/// parser and named [`path_names`]. The last segment of a path without arguments
/// stands where its last token does.
#[verifier::external_body]
pub(crate) fn path_segments(path: TokenStream) -> (segments: Vec<Segment>)
    ensures
        segment_names(segments@) == path_names(trees(path)),
        last_is_placed(segments@, path),
{
    match syn::parse2::<syn::Path>(path) {
        Ok(path) => path.segments.iter().map(|segment| Segment {
            ident: segment.ident.to_string(),
            span: segment.span(),
        }).collect(),
        Err(_) => Vec::new(),
    }
}

// ---------------------------------------------------------------------------
// Attributes
// ---------------------------------------------------------------------------

/// The type `syn::Attribute`, an attribute as it was parsed; its tokens are
/// [`attr_trees`].
#[verifier::external_type_specification]
#[verifier::external_body]
pub struct ExAttribute(syn::Attribute);

/// The tokens of an attribute.
pub uninterp spec fn attr_trees(attr: syn::Attribute) -> Seq<Tok>;

/// Where the arguments of an attribute stand, and where they end: at the closing
/// delimiter.
pub uninterp spec fn args_places(attr: syn::Attribute) -> (Seq<Spot>, Span);

/// The tokens of a list of attributes.
pub open spec fn attrs_trees(attrs: Seq<syn::Attribute>) -> Seq<Seq<Tok>> {
    attrs.map_values(|attr: syn::Attribute| attr_trees(attr))
}

/// An attribute, as its tokens and as what it says.
pub struct ReadAttribute {
    pub tokens: TokenStream,
    pub meta: Option<Meta>,
}

/// What an attribute says.
pub struct Meta {
    /// Whether it is written `#![...]`.
    pub inner: bool,
    /// Its path, if that is a single identifier.
    pub name: Option<String>,
    /// Its arguments in brackets, or the complaint that it has none.
    pub args: Result<TokenStream, syn::Error>,
    /// Where its arguments end.
    pub end: Span,
    /// The string that it is set to by `name = "..."`.
    pub value: Option<String>,
}

/// The model of an [`ReadAttribute`].
pub struct AttributeModel {
    pub tokens: Seq<Tok>,
    pub meta: Option<MetaModel>,
}

/// The model of a [`Meta`].
pub struct MetaModel {
    pub inner: bool,
    pub name: Option<Seq<char>>,
    pub args: Result<Seq<Tok>, Messages>,
    pub value: Option<Seq<char>>,
}

impl View for Meta {
    type V = MetaModel;

    open spec fn view(&self) -> MetaModel {
        MetaModel {
            inner: self.inner,
            name: maybe(self.name),
            args: match self.args {
                Ok(stream) => Ok(trees(stream)),
                Err(error) => Err(messages(error)),
            },
            value: maybe(self.value),
        }
    }
}

impl View for ReadAttribute {
    type V = AttributeModel;

    open spec fn view(&self) -> AttributeModel {
        AttributeModel {
            tokens: trees(self.tokens),
            meta: match self.meta {
                Some(meta) => Some(meta@),
                None => None,
            },
        }
    }
}

/// What an attribute says, as `syn` parses it; `None` where the source is no
/// attribute.
pub uninterp spec fn attribute_meta(tokens: Seq<Tok>) -> Option<MetaModel>;

/// The attribute that a piece of source is.
pub open spec fn attribute_model(tokens: Seq<Tok>) -> AttributeModel {
    AttributeModel { tokens, meta: attribute_meta(tokens) }
}

/// The attributes that a list of pieces of source are.
pub open spec fn attribute_models(list: Seq<Seq<Tok>>) -> Seq<AttributeModel> {
    list.map_values(|tokens: Seq<Tok>| attribute_model(tokens))
}

/// The views of a list of attributes.
pub open spec fn attribute_views(attrs: Seq<ReadAttribute>) -> Seq<AttributeModel> {
    attrs.map_values(|attr: ReadAttribute| attr@)
}

impl AttributeModel {
    /// Whether the attribute's path is the given identifier.
    pub open spec fn is(self, name: Seq<char>) -> bool {
        self.meta is Some && self.meta->0.name == Some(name)
    }
}

/// `ToTokens` for an attribute, its tokens.
#[verifier::external_body]
fn attr_tokens(attr: &syn::Attribute) -> (stream: TokenStream)
    ensures
        trees(stream) == attr_trees(*attr),
{
    attr.to_token_stream()
}

/// `syn::Attribute`, read off: its style, its path, `parse_args` for its arguments,
/// the place of their closing delimiter, and its value. What an attribute with given
/// tokens says is left to the parser and named [`attribute_meta`].
#[verifier::external_body]
fn meta_of(attr: &syn::Attribute) -> (meta: Meta)
    ensures
        Some(meta@) == attribute_meta(attr_trees(*attr)),
        meta.args matches Ok(stream) ==> (places(stream), meta.end) == args_places(*attr),
{
    let inner = matches!(attr.style, syn::AttrStyle::Inner(_));
    let name = attr.path().get_ident().map(|ident| ident.to_string());
    let (value, end) = match &attr.meta {
        syn::Meta::NameValue(syn::MetaNameValue { value: syn::Expr::Lit(
            syn::ExprLit { lit: syn::Lit::Str(text), .. }), .. }) => (Some(text.value()), attr.span()),
        syn::Meta::List(list) => (None, list.delimiter.span().close()),
        _ => (None, attr.span()),
    };
    Meta { inner, name, args: attr.parse_args(), end, value }
}

/// What each attribute of a list says.
pub(crate) fn attributes_of(list: &Vec<syn::Attribute>) -> (attrs: Vec<ReadAttribute>)
    ensures
        attribute_views(attrs@) == attribute_models(attrs_trees(list@)),
        forall|i: int| 0 <= i < list.len() ==> are_placed(#[trigger] attrs[i], list[i]),
{
    let mut attrs: Vec<ReadAttribute> = Vec::new();
    let mut i: usize = 0;
    while i < list.len()
        invariant
            i <= list.len(),
            attrs.len() == i,
            attribute_views(attrs@) =~= attribute_models(attrs_trees(list@)).take(i as int),
            forall|j: int| 0 <= j < i ==> are_placed(#[trigger] attrs[j], list[j]),
        decreases list.len() - i,
    {
        let attr = ReadAttribute { tokens: attr_tokens(&list[i]), meta: Some(meta_of(&list[i])) };
        assert(attr@ == attribute_model(attr_trees(list[i as int])));
        attrs.push(attr);
        i += 1;
    }
    assert(attribute_models(attrs_trees(list@)).take(i as int) =~= attribute_models(
        attrs_trees(list@),
    ));
    attrs
}

/// Whether the arguments of an attribute stand where they were written.
pub open spec fn are_placed(attr: ReadAttribute, source: syn::Attribute) -> bool {
    attr.meta matches Some(meta) ==> (meta.args matches Ok(stream) ==> (places(stream), meta.end)
        == args_places(source))
}

impl ReadAttribute {
    /// Whether the attribute's path is the given identifier.
    pub fn is(&self, name: &str) -> (same: bool)
        ensures
            same == self@.is(name@),
    {
        match &self.meta {
            Some(meta) => match &meta.name {
                Some(own) => *own == name.to_owned(),
                None => false,
            },
            None => false,
        }
    }
}

/// The attributes with the given name, in order.
pub open spec fn attrs_named(attrs: Seq<Seq<Tok>>, name: Seq<char>) -> Seq<Seq<Tok>>
    decreases attrs.len(),
{
    if attrs.len() == 0 {
        Seq::empty()
    } else if attribute_model(attrs.last()).is(name) {
        attrs_named(attrs.drop_last(), name).push(attrs.last())
    } else {
        attrs_named(attrs.drop_last(), name)
    }
}

/// The attributes without those of the given name, in order.
pub open spec fn attrs_except(attrs: Seq<Seq<Tok>>, name: Seq<char>) -> Seq<Seq<Tok>>
    decreases attrs.len(),
{
    if attrs.len() == 0 {
        Seq::empty()
    } else if attribute_model(attrs.last()).is(name) {
        attrs_except(attrs.drop_last(), name)
    } else {
        attrs_except(attrs.drop_last(), name).push(attrs.last())
    }
}

/// The attributes with the given name.
pub(crate) fn named_attrs(attrs: &Vec<syn::Attribute>, name: &str) -> (named: Vec<TokenStream>)
    ensures
        streams(named@) == attrs_named(attrs_trees(attrs@), name@),
{
    let parsed = attributes_of(attrs);
    let ghost sources = attrs_trees(attrs@);
    assert(attribute_views(parsed@).len() == attribute_models(sources).len());
    let mut named: Vec<TokenStream> = Vec::new();
    let mut i: usize = 0;
    assert(streams(named@) =~= Seq::empty());
    while i < parsed.len()
        invariant
            i <= parsed.len(),
            parsed.len() == sources.len(),
            attribute_views(parsed@) == attribute_models(sources),
            streams(named@) == attrs_named(sources.take(i as int), name@),
        decreases parsed.len() - i,
    {
        proof {
            assert(attribute_models(sources)[i as int] == parsed[i as int]@);
            assert(sources.take(i + 1).drop_last() =~= sources.take(i as int));
        }
        let ghost before = named@;
        if parsed[i].is(name) {
            named.push(parsed[i].tokens.clone());
            assert(streams(named@) =~= streams(before).push(sources[i as int]));
        }
        i += 1;
    }
    assert(sources.take(i as int) =~= sources);
    named
}

/// The attributes without those of the given name.
pub(crate) fn other_attrs(attrs: &Vec<syn::Attribute>, name: &str) -> (others: Vec<TokenStream>)
    ensures
        streams(others@) == attrs_except(attrs_trees(attrs@), name@),
{
    let parsed = attributes_of(attrs);
    let ghost sources = attrs_trees(attrs@);
    assert(attribute_views(parsed@).len() == attribute_models(sources).len());
    let mut others: Vec<TokenStream> = Vec::new();
    let mut i: usize = 0;
    assert(streams(others@) =~= Seq::empty());
    while i < parsed.len()
        invariant
            i <= parsed.len(),
            parsed.len() == sources.len(),
            attribute_views(parsed@) == attribute_models(sources),
            streams(others@) == attrs_except(sources.take(i as int), name@),
        decreases parsed.len() - i,
    {
        proof {
            assert(attribute_models(sources)[i as int] == parsed[i as int]@);
            assert(sources.take(i + 1).drop_last() =~= sources.take(i as int));
        }
        let ghost before = others@;
        if !parsed[i].is(name) {
            others.push(parsed[i].tokens.clone());
            assert(streams(others@) =~= streams(before).push(sources[i as int]));
        }
        i += 1;
    }
    assert(sources.take(i as int) =~= sources);
    others
}

/// All attributes of a list.
pub(crate) fn all_attrs(attrs: &Vec<syn::Attribute>) -> (all: Vec<TokenStream>)
    ensures
        streams(all@) == attrs_trees(attrs@),
{
    let mut all: Vec<TokenStream> = Vec::new();
    let mut i: usize = 0;
    while i < attrs.len()
        invariant
            i <= attrs.len(),
            streams(all@) =~= attrs_trees(attrs@).take(i as int),
        decreases attrs.len() - i,
    {
        let ghost before = all@;
        all.push(attr_tokens(&attrs[i]));
        assert(streams(all@) =~= streams(before).push(attr_trees(attrs[i as int])));
        i += 1;
    }
    assert(attrs_trees(attrs@).take(i as int) =~= attrs_trees(attrs@));
    all
}

/// The attributes that are written inside the item, or those in front of it.
pub open spec fn attrs_placed(attrs: Seq<Seq<Tok>>, inner: bool) -> Seq<Seq<Tok>>
    decreases attrs.len(),
{
    if attrs.len() == 0 {
        Seq::empty()
    } else if is_inner(attrs.last()) == inner {
        attrs_placed(attrs.drop_last(), inner).push(attrs.last())
    } else {
        attrs_placed(attrs.drop_last(), inner)
    }
}

/// Whether an attribute is written `#![...]`.
pub open spec fn is_inner(attr: Seq<Tok>) -> bool {
    attribute_model(attr).meta matches Some(meta) && meta.inner
}

/// The attributes without those of the given name that are written inside the item,
/// or those that are written in front of it.
pub(crate) fn other_attrs_at(attrs: &Vec<syn::Attribute>, name: &str, inner: bool) -> (placed: Vec<
    TokenStream,
>)
    ensures
        streams(placed@) == attrs_placed(attrs_except(attrs_trees(attrs@), name@), inner),
{
    let parsed = attributes_of(attrs);
    let ghost sources = attrs_trees(attrs@);
    assert(attribute_views(parsed@).len() == attribute_models(sources).len());
    let mut placed: Vec<TokenStream> = Vec::new();
    let mut i: usize = 0;
    assert(streams(placed@) =~= Seq::empty());
    while i < parsed.len()
        invariant
            i <= parsed.len(),
            parsed.len() == sources.len(),
            attribute_views(parsed@) == attribute_models(sources),
            streams(placed@) == attrs_placed(
                attrs_except(sources.take(i as int), name@),
                inner,
            ),
        decreases parsed.len() - i,
    {
        let ghost others = attrs_except(sources.take(i as int), name@);
        proof {
            assert(attribute_models(sources)[i as int] == parsed[i as int]@);
            assert(sources.take(i + 1).drop_last() =~= sources.take(i as int));
            assert(others.push(sources[i as int]).drop_last() =~= others);
        }
        let own = match &parsed[i].meta {
            Some(meta) => meta.inner,
            None => false,
        };
        let ghost before = placed@;
        if !parsed[i].is(name) && own == inner {
            placed.push(parsed[i].tokens.clone());
            assert(streams(placed@) =~= streams(before).push(sources[i as int]));
        }
        i += 1;
    }
    assert(sources.take(i as int) =~= sources);
    placed
}

} // verus!
