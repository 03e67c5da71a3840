//! Errors of an expansion, and the code that reports them.

use crate::tokens::{string_tree, trees, Delimiter, Tok};
use proc_macro2::{Span, TokenStream};
use vstd::prelude::*;

verus! {

/// The messages of an error, in order.
pub type Messages = Seq<Seq<char>>;

/// The type `syn::Error`, a list of messages with their places; what it says is
/// [`messages`].
#[verifier::external_type_specification]
#[verifier::external_body]
pub struct ExSynError(syn::Error);

/// The messages that a `syn::Error` holds, in order.
pub uninterp spec fn messages(error: syn::Error) -> Messages;

/// Where the first message that a `syn::Error` holds is reported.
pub uninterp spec fn reported_at(error: syn::Error) -> Span;

/// Why an expansion failed. The view is what is reported.
pub enum MacroError {
    /// The syntax parser refused its input.
    Syntax(syn::Error),
    /// The input parses but does not say what it has to.
    Invalid { span: Span, message: String },
}

impl View for MacroError {
    type V = Messages;

    open spec fn view(&self) -> Messages {
        match self {
            MacroError::Syntax(error) => messages(*error),
            MacroError::Invalid { span, message } => seq![message@],
        }
    }
}

impl MacroError {
    /// Where the error is reported.
    pub open spec fn place(&self) -> Span {
        match self {
            MacroError::Syntax(error) => reported_at(*error),
            MacroError::Invalid { span, message } => *span,
        }
    }

    /// Whether the error is reported at the given place, if one is given.
    pub open spec fn is_at(&self, site: Option<Span>) -> bool {
        site matches Some(place) ==> self.place() == place
    }
}

/// `:: core :: compile_error ! { "message" }`
pub open spec fn error_report(message: Seq<char>) -> Seq<Tok> {
    seq![
        Tok::Punct(':', true),
        Tok::Punct(':', false),
        Tok::Ident("core"@),
        Tok::Punct(':', true),
        Tok::Punct(':', false),
        Tok::Ident("compile_error"@),
        Tok::Punct('!', false),
        Tok::Group(Delimiter::Brace, string_tree(message)),
    ]
}

/// One `compile_error!` for each message.
pub open spec fn error_reports(reported: Messages) -> Seq<Tok>
    decreases reported.len(),
{
    if reported.len() == 0 {
        Seq::empty()
    } else {
        error_reports(reported.drop_last()) + error_report(reported.last())
    }
}

/// A clone of a `syn::Error` says the same in the same place.
pub assume_specification[ <syn::Error as Clone>::clone ](error: &syn::Error) -> (copy: syn::Error)
    ensures
        messages(copy) == messages(*error),
        reported_at(copy) == reported_at(*error),
;

/// `syn::Error::new` makes an error with the one message that it is given, reported
/// where it is told.
#[verifier::external_body]
fn syn_error(span: Span, message: &str) -> (error: syn::Error)
    ensures
        messages(error) == seq![message@],
        reported_at(error) == span,
{
    syn::Error::new(span, message)
}

/// `syn::Error::to_compile_error` writes one `compile_error!` for each message.
#[verifier::external_body]
fn syn_compile_error(error: &syn::Error) -> (stream: TokenStream)
    ensures
        trees(stream) == error_reports(messages(*error)),
{
    error.to_compile_error()
}

impl MacroError {
    /// An error with one message, reported at the given place.
    pub fn new(span: Span, message: String) -> (error: MacroError)
        ensures
            error@ == seq![message@],
            error.place() == span,
    {
        MacroError::Invalid { span, message }
    }

    /// The code that makes the compiler report this error.
    pub fn to_compile_error(&self) -> (stream: TokenStream)
        ensures
            trees(stream) == error_reports(self@),
    {
        match self {
            MacroError::Syntax(error) => syn_compile_error(error),
            MacroError::Invalid { span, message } => syn_compile_error(
                &syn_error(*span, message.as_str()),
            ),
        }
    }
}

} // verus!
