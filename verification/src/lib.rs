//! The expansions of the macros of the Sevria service stack.
//!
//! Four macros turn annotated Rust items into HTTP endpoints with OpenAPI
//! documentation: [`endpoint`] on a handler function, [`router`] on an `impl`
//! block of handler methods, [`schema`] on a request or response struct, and
//! [`response`] on a response type alias. Each function here takes the tokens
//! that the compiler hands to the macro and gives the tokens that take their
//! place; what those are is stated by the functions' contracts.

use crate::args::OpenApiArgs;
use crate::endpoint::{
    can_expand_endpoint, endpoint_is_expandable, expand_endpoint, is_endpoint_expansion,
};
use crate::error::MacroError;
use crate::items::{ItemFn, ItemImpl, ItemStruct, ItemType};
use crate::response::{expand_response, response_expansion};
use crate::response_attr::ResponseAttr;
use crate::router::{
    can_expand_router, expand_router, is_router_expansion, router_is_expandable,
};
use crate::schema::{
    can_expand_schema, expand_schema, schema_expansion, schema_is_expandable,
};
use crate::tokens::trees;
use proc_macro2::{Span, TokenStream};
use vstd::prelude::*;

pub mod args;
pub mod derived;
pub mod endpoint;
pub mod error;
pub mod fields;
pub mod generated;
pub mod holding;
pub mod input;
pub mod items;
pub mod json;
pub mod laws;
pub mod order;
pub mod reading;
pub mod refusing;
pub mod request;
pub mod responding;
pub mod response;
pub mod response_attr;
pub mod router;
pub mod schema;
pub mod status;
pub mod syntax;
pub mod text;
pub mod tokens;

verus! {

/// Expands `#[endpoint(...)]` on an async handler function: adds the function that
/// registers it with its OpenAPI metadata, and a hidden constant that hands it to
/// a router.
pub fn endpoint(attr: TokenStream, item: TokenStream) -> (stream: TokenStream)
    requires
        can_expand_endpoint(trees(attr), trees(item)),
    ensures
        is_endpoint_expansion(trees(attr), trees(item), trees(stream)),
{
    let args = match OpenApiArgs::parse(attr, Span::call_site()) {
        Ok(args) => args,
        Err(error) => return error.to_compile_error(),
    };
    match ItemFn::parse(item) {
        Ok(item) => expand_endpoint(args, &item),
        Err(error) => error.to_compile_error(),
    }
}

/// Expands `#[endpoint(...)]` as [`endpoint`] does; `None` where its HTTP method is
/// no name.
pub fn try_endpoint(attr: TokenStream, item: TokenStream) -> (stream: Option<TokenStream>)
    ensures
        stream is Some <==> can_expand_endpoint(trees(attr), trees(item)),
        stream matches Some(s) ==> is_endpoint_expansion(trees(attr), trees(item), trees(s)),
{
    let able = match (OpenApiArgs::parse(attr.clone(), Span::call_site()), ItemFn::parse(item.clone())) {
        (Ok(args), Ok(item)) => endpoint_is_expandable(args, &item),
        _ => true,
    };
    if able {
        Some(endpoint(attr, item))
    } else {
        None
    }
}

/// Expands `#[router]` on an inherent `impl` block: takes `#[endpoint(...)]` off its
/// methods and adds a method `into_router` that registers every endpoint with its
/// OpenAPI metadata.
pub fn router(attr: TokenStream, item: TokenStream) -> (stream: TokenStream)
    requires
        can_expand_router(trees(attr), trees(item)),
    ensures
        is_router_expansion(trees(attr), trees(item), trees(stream)),
{
    if !attr.is_empty() {
        return MacroError::new(
            Span::call_site(),
            "`#[router]` takes no arguments".to_owned(),
        ).to_compile_error();
    }
    match ItemImpl::parse(item) {
        Ok(item) => expand_router(&item),
        Err(error) => error.to_compile_error(),
    }
}

/// Expands `#[router]` as [`router`] does; `None` where the HTTP method of an
/// endpoint is no name.
pub fn try_router(attr: TokenStream, item: TokenStream) -> (stream: Option<TokenStream>)
    ensures
        stream is Some <==> can_expand_router(trees(attr), trees(item)),
        stream matches Some(s) ==> is_router_expansion(trees(attr), trees(item), trees(s)),
{
    let able = !attr.is_empty() || match ItemImpl::parse(item.clone()) {
        Ok(item) => router_is_expandable(&item),
        Err(_) => true,
    };
    if able {
        Some(router(attr, item))
    } else {
        None
    }
}

/// Expands `#[derive(Schema)]` on a struct: implements `Endpoint` for it and, unless
/// it is generic, what it takes to read it out of a request.
pub fn schema(item: TokenStream) -> (stream: TokenStream)
    requires
        can_expand_schema(trees(item)),
    ensures
        trees(stream) == schema_expansion(trees(item)),
{
    match ItemStruct::parse(item) {
        Ok(input) => expand_schema(&input),
        Err(error) => error.to_compile_error(),
    }
}

/// Expands `#[derive(Schema)]` as [`schema`] does; `None` where a field has no name.
pub fn try_schema(item: TokenStream) -> (stream: Option<TokenStream>)
    ensures
        stream is Some <==> can_expand_schema(trees(item)),
        stream matches Some(s) ==> trees(s) == schema_expansion(trees(item)),
{
    let able = match ItemStruct::parse(item.clone()) {
        Ok(input) => schema_is_expandable(&input),
        Err(_) => true,
    };
    if able {
        Some(schema(item))
    } else {
        None
    }
}

/// Expands `#[response(...)]` on a type alias: makes a struct of it that implements
/// `Endpoint` and knows its status and description.
pub fn response(attr: TokenStream, item: TokenStream) -> (stream: TokenStream)
    ensures
        trees(stream) == response_expansion(trees(attr), trees(item)),
{
    let args = match ResponseAttr::parse(attr, Span::call_site()) {
        Ok(args) => args,
        Err(error) => return error.to_compile_error(),
    };
    match ItemType::parse(item) {
        Ok(alias) => expand_response(&alias, &args),
        Err(error) => error.to_compile_error(),
    }
}

} // verus!
