//! The items that the macros are put on, taken apart.

use crate::error::{messages, MacroError, Messages};
use crate::syntax::attrs_trees;
use crate::tokens::{trees, Ident, Tok};
use proc_macro2::{Span, TokenStream};
use quote::ToTokens;
use syn::spanned::Spanned;
use vstd::prelude::*;

verus! {

// ---------------------------------------------------------------------------
// Signatures
// ---------------------------------------------------------------------------

/// A parameter of a function.
pub enum Param {
    /// The receiver: whether it is `self` or `mut self`, and its place.
    Receiver(bool, Span),
    /// Any other parameter, by its type.
    Typed(TokenStream),
}

/// The model of a [`Param`].
pub enum ParamModel {
    Receiver(bool),
    Typed(Seq<Tok>),
}

impl View for Param {
    type V = ParamModel;

    open spec fn view(&self) -> ParamModel {
        match self {
            Param::Receiver(by_value, span) => ParamModel::Receiver(*by_value),
            Param::Typed(ty) => ParamModel::Typed(trees(*ty)),
        }
    }
}

/// What the expansions read of a function's signature.
pub struct Signature {
    pub ident: Ident,
    pub params: Vec<Param>,
    /// The return type, where one is written.
    pub output: Option<TokenStream>,
    /// The place of the signature as a whole.
    pub span: Span,
}

/// The model of a [`Signature`].
pub struct SignatureModel {
    pub ident: Seq<char>,
    pub params: Seq<ParamModel>,
    pub output: Option<Seq<Tok>>,
}

/// The views of a list of parameters.
pub open spec fn param_views(params: Seq<Param>) -> Seq<ParamModel> {
    params.map_values(|param: Param| param@)
}

impl View for Signature {
    type V = SignatureModel;

    open spec fn view(&self) -> SignatureModel {
        SignatureModel {
            ident: self.ident@,
            params: param_views(self.params@),
            output: match self.output {
                Some(ty) => Some(trees(ty)),
                None => None,
            },
        }
    }
}

/// The signature that a piece of source is, as `syn` parses it.
pub uninterp spec fn signature(tokens: Seq<Tok>) -> Result<SignatureModel, Messages>;

/// `syn::parse2::<syn::Signature>`, read off part by part. What the parts are is
/// left to the parser and named [`signature`].
#[verifier::external_body]
fn parse_signature(tokens: TokenStream) -> (sig: Result<Signature, syn::Error>)
    ensures
        sig matches Ok(s) ==> (signature(trees(tokens)) matches Ok(model) && model == s@),
        sig matches Err(e) ==> (signature(trees(tokens)) matches Err(m) && m == messages(e)),
{
    let sig = syn::parse2::<syn::Signature>(tokens)?;
    let params = sig.inputs.iter().map(|arg| match arg {
        syn::FnArg::Receiver(r) => Param::Receiver(matches!(r.kind, syn::ReceiverKind::Value), r.span()),
        syn::FnArg::Typed(t) => Param::Typed(t.ty.to_token_stream()),
    }).collect();
    let output = match &sig.output {
        syn::ReturnType::Type(_, ty) => Some(ty.to_token_stream()),
        syn::ReturnType::Default => None,
    };
    let ident = Ident { text: sig.ident.to_string(), tokens: sig.ident.to_token_stream() };
    Ok(Signature { ident, params, output, span: sig.span() })
}

// ---------------------------------------------------------------------------
// Functions
// ---------------------------------------------------------------------------

/// A function.
pub struct ItemFn {
    pub attrs: Vec<syn::Attribute>,
    pub vis: TokenStream,
    /// What stands between the visibility and the body.
    pub head: TokenStream,
    pub sig: Signature,
    /// The statements of the body.
    pub body: TokenStream,
}

/// The model of an [`ItemFn`].
pub struct ItemFnModel {
    pub attrs: Seq<Seq<Tok>>,
    pub vis: Seq<Tok>,
    pub head: Seq<Tok>,
    pub sig: SignatureModel,
    pub body: Seq<Tok>,
}

impl View for ItemFn {
    type V = ItemFnModel;

    open spec fn view(&self) -> ItemFnModel {
        ItemFnModel {
            attrs: attrs_trees(self.attrs@),
            vis: trees(self.vis),
            head: trees(self.head),
            sig: self.sig@,
            body: trees(self.body),
        }
    }
}

/// The parts of a function, each as its tokens.
struct FnParts {
    attrs: Vec<syn::Attribute>,
    vis: TokenStream,
    sig: TokenStream,
    body: TokenStream,
}

/// The model of the parts of a function.
pub struct FnPartsModel {
    pub attrs: Seq<Seq<Tok>>,
    pub vis: Seq<Tok>,
    pub sig: Seq<Tok>,
    pub body: Seq<Tok>,
}

impl View for FnParts {
    type V = FnPartsModel;

    closed spec fn view(&self) -> FnPartsModel {
        FnPartsModel {
            attrs: attrs_trees(self.attrs@),
            vis: trees(self.vis),
            sig: trees(self.sig),
            body: trees(self.body),
        }
    }
}

/// The parts of the function that a piece of source is, as `syn` parses it.
pub uninterp spec fn fn_parts(tokens: Seq<Tok>) -> Result<FnPartsModel, Messages>;

/// `syn::parse2::<syn::ItemFn>`, read off part by part. What the parts are is
/// left to the parser and named [`fn_parts`].
#[verifier::external_body]
fn parse_fn(tokens: TokenStream) -> (parts: Result<FnParts, syn::Error>)
    ensures
        parts matches Ok(p) ==> (fn_parts(trees(tokens)) matches Ok(model) && model == p@),
        parts matches Err(e) ==> (fn_parts(trees(tokens)) matches Err(m) && m == messages(e)),
{
    let item = syn::parse2::<syn::ItemFn>(tokens)?;
    Ok(FnParts {
        attrs: item.attrs,
        vis: item.vis.to_token_stream(),
        sig: item.sig.to_token_stream(),
        body: item.block.stmts.iter().map(|stmt| stmt.to_token_stream()).collect(),
    })
}

/// The function that a piece of source is.
pub open spec fn item_fn(tokens: Seq<Tok>) -> Result<ItemFnModel, Messages> {
    match fn_parts(tokens) {
        Err(m) => Err(m),
        Ok(parts) => match signature(parts.sig) {
            Err(m) => Err(m),
            Ok(sig) => Ok(
                ItemFnModel {
                    attrs: parts.attrs,
                    vis: parts.vis,
                    head: parts.sig,
                    sig,
                    body: parts.body,
                },
            ),
        },
    }
}

impl ItemFn {
    /// Takes a function apart.
    pub fn parse(tokens: TokenStream) -> (item: Result<ItemFn, MacroError>)
        ensures
            item matches Ok(i) ==> (item_fn(trees(tokens)) matches Ok(model) && model == i@),
            item matches Err(e) ==> (item_fn(trees(tokens)) matches Err(m) && m == e@),
    {
        let parts = match parse_fn(tokens) {
            Ok(parts) => parts,
            Err(error) => return Err(MacroError::Syntax(error)),
        };
        match parse_signature(parts.sig.clone()) {
            Ok(sig) => Ok(
                ItemFn {
                    attrs: parts.attrs,
                    vis: parts.vis,
                    head: parts.sig,
                    sig,
                    body: parts.body,
                },
            ),
            Err(error) => Err(MacroError::Syntax(error)),
        }
    }
}

// ---------------------------------------------------------------------------
// Impl blocks
// ---------------------------------------------------------------------------

/// The type `syn::ImplItem`, a piece of an `impl` block as it was parsed; its tokens
/// are [`piece_trees`].
#[verifier::external_type_specification]
#[verifier::external_body]
pub struct ExImplItem(syn::ImplItem);

/// The tokens of a piece of an `impl` block.
pub uninterp spec fn piece_trees(piece: syn::ImplItem) -> Seq<Tok>;

/// The tokens of the pieces of an `impl` block.
pub open spec fn pieces_trees(pieces: Seq<syn::ImplItem>) -> Seq<Seq<Tok>> {
    pieces.map_values(|piece: syn::ImplItem| piece_trees(piece))
}

/// `ToTokens` for a piece of an `impl` block, its tokens.
#[verifier::external_body]
pub(crate) fn piece_tokens(piece: &syn::ImplItem) -> (stream: TokenStream)
    ensures
        trees(stream) == piece_trees(*piece),
{
    piece.to_token_stream()
}

/// An `impl` block without its trait, part by part.
pub struct ItemImpl {
    pub attrs: Vec<syn::Attribute>,
    pub defaultness: TokenStream,
    pub unsafety: TokenStream,
    pub polarity: TokenStream,
    pub generics: TokenStream,
    pub self_ty: TokenStream,
    pub where_clause: TokenStream,
    pub items: Vec<syn::ImplItem>,
}

/// The model of an [`ItemImpl`].
pub struct ItemImplModel {
    pub attrs: Seq<Seq<Tok>>,
    pub defaultness: Seq<Tok>,
    pub unsafety: Seq<Tok>,
    pub polarity: Seq<Tok>,
    pub generics: Seq<Tok>,
    pub self_ty: Seq<Tok>,
    pub where_clause: Seq<Tok>,
    pub items: Seq<Seq<Tok>>,
}

impl View for ItemImpl {
    type V = ItemImplModel;

    open spec fn view(&self) -> ItemImplModel {
        ItemImplModel {
            attrs: attrs_trees(self.attrs@),
            defaultness: trees(self.defaultness),
            unsafety: trees(self.unsafety),
            polarity: trees(self.polarity),
            generics: trees(self.generics),
            self_ty: trees(self.self_ty),
            where_clause: trees(self.where_clause),
            items: pieces_trees(self.items@),
        }
    }
}

/// The `impl` block that a piece of source is, as `syn` parses it.
pub uninterp spec fn item_impl(tokens: Seq<Tok>) -> Result<ItemImplModel, Messages>;

/// `syn::parse2::<syn::ItemImpl>`, read off part by part. What the parts are is
/// left to the parser and named [`item_impl`].
#[verifier::external_body]
fn parse_impl(tokens: TokenStream) -> (item: Result<ItemImpl, syn::Error>)
    ensures
        item matches Ok(i) ==> (item_impl(trees(tokens)) matches Ok(model) && model == i@),
        item matches Err(e) ==> (item_impl(trees(tokens)) matches Err(m) && m == messages(e)),
{
    let item = syn::parse2::<syn::ItemImpl>(tokens)?;
    Ok(ItemImpl {
        attrs: item.attrs,
        defaultness: item.modifiers.defaultness.to_token_stream(),
        unsafety: item.unsafety.to_token_stream(),
        polarity: item.modifiers.polarity.to_token_stream(),
        generics: item.generics.to_token_stream(),
        self_ty: item.self_ty.to_token_stream(),
        where_clause: item.generics.where_clause.to_token_stream(),
        items: item.items,
    })
}

impl ItemImpl {
    /// Takes an `impl` block apart.
    pub fn parse(tokens: TokenStream) -> (item: Result<ItemImpl, MacroError>)
        ensures
            item matches Ok(i) ==> (item_impl(trees(tokens)) matches Ok(model) && model == i@),
            item matches Err(e) ==> (item_impl(trees(tokens)) matches Err(m) && m == e@),
    {
        match parse_impl(tokens) {
            Ok(item) => Ok(item),
            Err(error) => Err(MacroError::Syntax(error)),
        }
    }
}

/// A function in an `impl` block.
pub struct Method {
    pub attrs: Vec<syn::Attribute>,
    /// What stands between the attributes and the body.
    pub head: TokenStream,
    pub sig: Signature,
    /// The statements of the body.
    pub body: TokenStream,
}

/// The model of a [`Method`].
pub struct MethodModel {
    pub attrs: Seq<Seq<Tok>>,
    pub head: Seq<Tok>,
    pub sig: SignatureModel,
    pub body: Seq<Tok>,
}

impl View for Method {
    type V = MethodModel;

    open spec fn view(&self) -> MethodModel {
        MethodModel {
            attrs: attrs_trees(self.attrs@),
            head: trees(self.head),
            sig: self.sig@,
            body: trees(self.body),
        }
    }
}

/// The parts of a method, each as its tokens.
struct MethodParts {
    attrs: Vec<syn::Attribute>,
    head: TokenStream,
    sig: TokenStream,
    body: TokenStream,
}

/// The model of the parts of a method.
pub struct MethodPartsModel {
    pub attrs: Seq<Seq<Tok>>,
    pub head: Seq<Tok>,
    pub sig: Seq<Tok>,
    pub body: Seq<Tok>,
}

impl View for MethodParts {
    type V = MethodPartsModel;

    closed spec fn view(&self) -> MethodPartsModel {
        MethodPartsModel {
            attrs: attrs_trees(self.attrs@),
            head: trees(self.head),
            sig: trees(self.sig),
            body: trees(self.body),
        }
    }
}

/// The parts of the function that a piece of an `impl` block is, as `syn` parses
/// it; `None` for a piece of another kind.
pub uninterp spec fn method_parts(tokens: Seq<Tok>) -> Option<MethodPartsModel>;

/// `syn::ImplItem`, read off part by part where it is a function. What the parts of
/// a piece with given tokens are is left to the parser and named [`method_parts`].
#[verifier::external_body]
fn parse_method(piece: &syn::ImplItem) -> (parts: Option<MethodParts>)
    ensures
        (match parts {
            Some(p) => Some(p@),
            None => None,
        }) == method_parts(piece_trees(*piece)),
{
    let syn::ImplItem::Fn(item) = piece else { return None };
    let mut head = item.vis.to_token_stream();
    item.modifiers.defaultness.to_tokens(&mut head);
    item.sig.to_tokens(&mut head);
    let attrs = item.attrs.clone();
    let body = item.block.stmts.iter().map(|stmt| stmt.to_token_stream()).collect();
    Some(MethodParts { attrs, head, sig: item.sig.to_token_stream(), body })
}

/// The function that a piece of an `impl` block is; `None` for a piece of another
/// kind.
pub open spec fn impl_method(tokens: Seq<Tok>) -> Option<MethodModel> {
    match method_parts(tokens) {
        None => None,
        Some(parts) => match signature(parts.sig) {
            Err(_) => None,
            Ok(sig) => Some(
                MethodModel { attrs: parts.attrs, head: parts.head, sig, body: parts.body },
            ),
        },
    }
}

/// Takes a function in an `impl` block apart; `None` for a piece of another kind.
pub(crate) fn method_of(piece: &syn::ImplItem) -> (method: Option<Method>)
    ensures
        (match method {
            Some(m) => Some(m@),
            None => None,
        }) == impl_method(piece_trees(*piece)),
{
    let parts = match parse_method(piece) {
        Some(parts) => parts,
        None => return None,
    };
    match parse_signature(parts.sig) {
        Ok(sig) => Some(
            Method { attrs: parts.attrs, head: parts.head, sig, body: parts.body },
        ),
        Err(_) => None,
    }
}

// ---------------------------------------------------------------------------
// Structs
// ---------------------------------------------------------------------------

/// A field of a struct.
pub struct Field {
    pub attrs: Vec<syn::Attribute>,
    /// The field's name; a tuple struct's fields have none.
    pub ident: Option<Ident>,
    pub ty: TokenStream,
}

/// The model of a [`Field`].
pub struct FieldModel {
    pub attrs: Seq<Seq<Tok>>,
    pub ident: Option<Seq<char>>,
    pub ty: Seq<Tok>,
}

impl View for Field {
    type V = FieldModel;

    open spec fn view(&self) -> FieldModel {
        FieldModel {
            attrs: attrs_trees(self.attrs@),
            ident: match self.ident {
                Some(ident) => Some(ident@),
                None => None,
            },
            ty: trees(self.ty),
        }
    }
}

/// The views of a list of fields.
pub open spec fn field_views(fields: Seq<Field>) -> Seq<FieldModel> {
    fields.map_values(|field: Field| field@)
}

/// A struct.
pub struct ItemStruct {
    pub attrs: Vec<syn::Attribute>,
    pub vis: TokenStream,
    pub ident: Ident,
    /// The generic parameters in angle brackets; nothing where there are none.
    pub generics: TokenStream,
    /// The `where` clause; nothing where there is none.
    pub where_clause: TokenStream,
    pub fields: Vec<Field>,
}

/// The model of an [`ItemStruct`].
pub struct ItemStructModel {
    pub attrs: Seq<Seq<Tok>>,
    pub vis: Seq<Tok>,
    pub ident: Seq<char>,
    pub generics: Seq<Tok>,
    pub where_clause: Seq<Tok>,
    pub fields: Seq<FieldModel>,
}

impl View for ItemStruct {
    type V = ItemStructModel;

    open spec fn view(&self) -> ItemStructModel {
        ItemStructModel {
            attrs: attrs_trees(self.attrs@),
            vis: trees(self.vis),
            ident: self.ident@,
            generics: trees(self.generics),
            where_clause: trees(self.where_clause),
            fields: field_views(self.fields@),
        }
    }
}

/// The struct that a piece of source is, as `syn` parses it.
pub uninterp spec fn item_struct(tokens: Seq<Tok>) -> Result<ItemStructModel, Messages>;

/// `syn::parse2::<syn::ItemStruct>`, read off part by part. What the parts are is
/// left to the parser and named [`item_struct`].
#[verifier::external_body]
fn parse_struct(tokens: TokenStream) -> (item: Result<ItemStruct, syn::Error>)
    ensures
        item matches Ok(i) ==> (item_struct(trees(tokens)) matches Ok(model) && model == i@),
        item matches Err(e) ==> (item_struct(trees(tokens)) matches Err(m) && m == messages(e)),
{
    let item = syn::parse2::<syn::ItemStruct>(tokens)?;
    let name = |i: &syn::Ident| Ident { text: i.to_string(), tokens: i.to_token_stream() };
    let fields = item.fields.into_iter().map(|field| Field {
        attrs: field.attrs,
        ident: field.ident.as_ref().map(name),
        ty: field.ty.to_token_stream(),
    }).collect();
    Ok(ItemStruct {
        attrs: item.attrs,
        vis: item.vis.to_token_stream(),
        ident: name(&item.ident),
        generics: item.generics.to_token_stream(),
        where_clause: item.generics.where_clause.to_token_stream(),
        fields,
    })
}

/// Generic parameters as an `impl` block declares them, and as it hands them to
/// the type that it is for.
pub uninterp spec fn split_generics(generics: Seq<Tok>) -> (Seq<Tok>, Seq<Tok>);

/// `syn::Generics::split_for_impl` on generic parameters: the parameters with
/// their bounds and without their defaults, and their names alone. What they are
/// is left to the parser and named [`split_generics`]; of none, both are nothing.
#[verifier::external_body]
pub(crate) fn generics_for_impl(generics: TokenStream) -> (split: (TokenStream, TokenStream))
    ensures
        (trees(split.0), trees(split.1)) == split_generics(trees(generics)),
        trees(generics).len() == 0 ==> trees(split.0).len() == 0 && trees(split.1).len() == 0,
{
    let generics = syn::parse2::<syn::Generics>(generics).unwrap_or_default();
    let (declared, handed_on, _) = generics.split_for_impl();
    (declared.to_token_stream(), handed_on.to_token_stream())
}

impl ItemStruct {
    /// Takes a struct apart.
    pub fn parse(tokens: TokenStream) -> (item: Result<ItemStruct, MacroError>)
        ensures
            item matches Ok(i) ==> (item_struct(trees(tokens)) matches Ok(model) && model == i@),
            item matches Err(e) ==> (item_struct(trees(tokens)) matches Err(m) && m == e@),
    {
        match parse_struct(tokens) {
            Ok(item) => Ok(item),
            Err(error) => Err(MacroError::Syntax(error)),
        }
    }
}

// ---------------------------------------------------------------------------
// Type aliases
// ---------------------------------------------------------------------------

/// A type alias.
pub struct ItemType {
    pub attrs: Vec<syn::Attribute>,
    pub vis: TokenStream,
    pub ident: Ident,
    /// The type that the alias stands for.
    pub ty: TokenStream,
}

/// The model of an [`ItemType`].
pub struct ItemTypeModel {
    pub attrs: Seq<Seq<Tok>>,
    pub vis: Seq<Tok>,
    pub ident: Seq<char>,
    pub ty: Seq<Tok>,
}

impl View for ItemType {
    type V = ItemTypeModel;

    open spec fn view(&self) -> ItemTypeModel {
        ItemTypeModel {
            attrs: attrs_trees(self.attrs@),
            vis: trees(self.vis),
            ident: self.ident@,
            ty: trees(self.ty),
        }
    }
}

/// The type alias that a piece of source is, as `syn` parses it.
pub uninterp spec fn item_type(tokens: Seq<Tok>) -> Result<ItemTypeModel, Messages>;

/// `syn::parse2::<syn::ItemType>`, read off part by part. What the parts are is
/// left to the parser and named [`item_type`].
#[verifier::external_body]
fn parse_alias(tokens: TokenStream) -> (item: Result<ItemType, syn::Error>)
    ensures
        item matches Ok(i) ==> (item_type(trees(tokens)) matches Ok(model) && model == i@),
        item matches Err(e) ==> (item_type(trees(tokens)) matches Err(m) && m == messages(e)),
{
    let item = syn::parse2::<syn::ItemType>(tokens)?;
    Ok(ItemType {
        attrs: item.attrs,
        vis: item.vis.to_token_stream(),
        ident: Ident { text: item.ident.to_string(), tokens: item.ident.to_token_stream() },
        ty: item.ty.to_token_stream(),
    })
}

impl ItemType {
    /// Takes a type alias apart.
    pub fn parse(tokens: TokenStream) -> (item: Result<ItemType, MacroError>)
        ensures
            item matches Ok(i) ==> (item_type(trees(tokens)) matches Ok(model) && model == i@),
            item matches Err(e) ==> (item_type(trees(tokens)) matches Err(m) && m == e@),
    {
        match parse_alias(tokens) {
            Ok(item) => Ok(item),
            Err(error) => Err(MacroError::Syntax(error)),
        }
    }
}

} // verus!
