//! Token streams, seen as sequences of token trees.
//!
//! A [`proc_macro2::TokenStream`] is the collection that every expansion reads
//! and writes. Contracts speak of what it holds through [`trees`]; the source
//! locations that are carried along inside the streams are [`places`].

use crate::text::join3;
use proc_macro2::{Span, TokenStream};
use quote::ToTokens;
use syn::ext::IdentExt;
use syn::parse::Parser;
use vstd::prelude::*;

verus! {

// ---------------------------------------------------------------------------
// The model
// ---------------------------------------------------------------------------

/// What surrounds a group of tokens.
#[derive(Clone, Copy, PartialEq, Eq, Structural)]
pub enum Delimiter {
    /// `( ... )`
    Parenthesis,
    /// `{ ... }`
    Brace,
    /// `[ ... ]`
    Bracket,
    /// A group without visible delimiters, as macro expansion makes them.
    Invisible,
}

/// One token tree. A string literal is given by its value, however it is written;
/// an identifier and any other literal by the text they print as; a punctuation
/// character by itself and whether the next character joins it.
pub enum Tok {
    Ident(Seq<char>),
    Punct(char, bool),
    Str(Seq<char>),
    Literal(Seq<char>),
    Group(Delimiter, Seq<Tok>),
}

/// The type `proc_macro2::TokenStream`; what a stream holds is [`trees`].
#[verifier::external_type_specification]
#[verifier::external_body]
pub struct ExTokenStream(TokenStream);

/// The type `proc_macro2::Span`, a source location that is only carried along.
#[verifier::external_type_specification]
#[verifier::external_body]
pub struct ExSpan(Span);

/// The token trees that a stream holds, in order.
pub uninterp spec fn trees(stream: TokenStream) -> Seq<Tok>;

/// Where a token tree stands: where it begins and where it ends, and for a group
/// where the trees inside it stand. For a group the first two are its delimiters;
/// any other tree has one place.
pub struct Spot {
    pub open: Span,
    pub close: Span,
    pub inner: Seq<Spot>,
}

/// Where the token trees that a stream holds stand, in order.
pub uninterp spec fn places(stream: TokenStream) -> Seq<Spot>;

/// The token trees of a piece of source text, as `proc_macro2` lexes it; none
/// where the text does not lex.
pub uninterp spec fn lexed(text: Seq<char>) -> Seq<Tok>;

/// The identifier that a text lexes to, if it lexes to exactly one.
pub uninterp spec fn lexed_ident(text: Seq<char>) -> Option<Seq<char>>;

/// A text that is, as it stands, an identifier (raw or not, keywords included).
pub open spec fn is_ident_text(text: Seq<char>) -> bool {
    lexed_ident(text) == Some(text)
}

/// One group of tokens.
pub open spec fn grouped(delimiter: Delimiter, inner: Seq<Tok>) -> Seq<Tok> {
    seq![Tok::Group(delimiter, inner)]
}

/// One identifier.
pub open spec fn ident_tree(text: Seq<char>) -> Seq<Tok> {
    seq![Tok::Ident(text)]
}

/// One string literal with the given value.
pub open spec fn string_tree(value: Seq<char>) -> Seq<Tok> {
    seq![Tok::Str(value)]
}

/// The decimal digits of a number.
pub open spec fn decimal(n: nat) -> Seq<char>
    decreases n,
{
    if n < 10 {
        seq![(48 + n) as char]
    } else {
        decimal(n / 10).push((48 + n % 10) as char)
    }
}

/// One integer literal of type `u16`, suffix included.
pub open spec fn u16_tree(n: u16) -> Seq<Tok> {
    seq![Tok::Literal(decimal(n as nat) + "u16"@)]
}

/// `true` or `false`.
pub open spec fn bool_code(value: bool) -> Seq<Tok> {
    if value {
        lexed("true"@)
    } else {
        lexed("false"@)
    }
}

/// An identifier's text without the mark of a raw identifier.
pub open spec fn unraw(text: Seq<char>) -> Seq<char> {
    if text.len() >= 2 && text[0] == 'r' && text[1] == '#' {
        text.skip(2)
    } else {
        text
    }
}

/// Text that may stand anywhere but at the start of an identifier.
pub open spec fn is_ident_tail(text: Seq<char>) -> bool {
    forall|i: int|
        0 <= i < text.len() ==> (#[trigger] text[i] == '_' || 'a' <= text[i] <= 'z' || 'A'
            <= text[i] <= 'Z' || '0' <= text[i] <= '9')
}

/// Text that may stand at the start of an identifier: empty, or without a digit
/// in front.
pub open spec fn is_ident_lead(text: Seq<char>) -> bool {
    is_ident_tail(text) && (text.len() > 0 ==> !('0' <= text[0] <= '9'))
}

/// The pieces of `items`, one after the other.
pub open spec fn concatenated(items: Seq<Seq<Tok>>) -> Seq<Tok>
    decreases items.len(),
{
    if items.len() == 0 {
        Seq::empty()
    } else {
        concatenated(items.drop_last()) + items.last()
    }
}

/// The pieces of `items` with a comma between each two.
pub open spec fn comma_separated(items: Seq<Seq<Tok>>) -> Seq<Tok>
    decreases items.len(),
{
    if items.len() == 0 {
        Seq::empty()
    } else if items.len() == 1 {
        items[0]
    } else {
        comma_separated(items.drop_last()) + lexed(","@) + items.last()
    }
}

/// What the streams of a list hold.
pub open spec fn streams(items: Seq<TokenStream>) -> Seq<Seq<Tok>> {
    items.map_values(|stream: TokenStream| trees(stream))
}

// ---------------------------------------------------------------------------
// Building streams
// ---------------------------------------------------------------------------

/// `TokenStream::new` gives a stream that holds nothing.
pub assume_specification[ TokenStream::new ]() -> (stream: TokenStream)
    ensures
        trees(stream) == Seq::<Tok>::empty(),
;

/// `TokenStream::is_empty` tells whether a stream holds nothing.
pub assume_specification[ TokenStream::is_empty ](stream: &TokenStream) -> (empty: bool)
    ensures
        empty == (trees(*stream).len() == 0),
;

/// A clone of a stream holds the same trees at the same places.
pub assume_specification[ <TokenStream as Clone>::clone ](stream: &TokenStream) -> (copy:
    TokenStream)
    ensures
        trees(copy) == trees(*stream),
        places(copy) == places(*stream),
;

/// `Span::call_site`, the place where a macro is called. Nothing is claimed.
pub assume_specification[ Span::call_site ]() -> Span
;

/// `<TokenStream as Extend<TokenTree>>::extend` puts the trees of one stream
/// behind those of another.
#[verifier::external_body]
pub(crate) fn append(stream: &mut TokenStream, more: TokenStream)
    ensures
        trees(*final(stream)) == trees(*old(stream)) + trees(more),
{
    stream.extend(more);
}

/// `<TokenStream as FromStr>::from_str`, for the fixed parts of generated code.
/// What the lexer makes of a text is left to it and named [`lexed`].
#[verifier::external_body]
pub(crate) fn code(text: &str) -> (stream: TokenStream)
    ensures
        trees(stream) == lexed(text@),
{
    text.parse::<TokenStream>().unwrap_or_default()
}

/// `Group::new` makes one group of a stream.
#[verifier::external_body]
fn group(delimiter: Delimiter, inner: TokenStream) -> (stream: TokenStream)
    ensures
        trees(stream) == grouped(delimiter, trees(inner)),
{
    let delimiter = match delimiter {
        Delimiter::Parenthesis => proc_macro2::Delimiter::Parenthesis,
        Delimiter::Brace => proc_macro2::Delimiter::Brace,
        Delimiter::Bracket => proc_macro2::Delimiter::Bracket,
        Delimiter::Invisible => proc_macro2::Delimiter::None,
    };
    proc_macro2::Group::new(delimiter, inner).to_token_stream()
}

/// `Literal::string` makes the string literal with a given value.
#[verifier::external_body]
pub(crate) fn string_literal(value: &str) -> (stream: TokenStream)
    ensures
        trees(stream) == string_tree(value@),
{
    proc_macro2::Literal::string(value).to_token_stream()
}

/// `Literal::u16_suffixed` writes a number in decimal with the suffix `u16`.
#[verifier::external_body]
pub(crate) fn u16_literal(value: u16) -> (stream: TokenStream)
    ensures
        trees(stream) == u16_tree(value),
{
    proc_macro2::Literal::u16_suffixed(value).to_token_stream()
}

/// `<TokenStream as Display>::to_string`. How the tokens are spaced is up to the
/// printer, which may differ from one compiler to another: nothing is claimed of
/// the text.
#[verifier::external_body]
pub(crate) fn printed(stream: &TokenStream) -> String {
    stream.to_string()
}

/// `syn::spanned::Spanned::span`, the place that a stream covers: that of its token,
/// where it holds one. How several places are joined is up to the compiler, so
/// nothing is claimed of several tokens, nor of a group.
#[verifier::external_body]
pub(crate) fn span_of(stream: &TokenStream) -> (span: Span)
    ensures
        trees(*stream).len() == 1 && !(trees(*stream)[0] is Group) ==> span == places(
            *stream,
        )[0].open,
{
    syn::spanned::Spanned::span(stream)
}

/// `TokenTree::span` of the first tree, the place that it covers. Nothing is claimed
/// of a stream that holds none, nor of a group, whose places the compiler joins.
#[verifier::external_body]
pub(crate) fn first_span(stream: &TokenStream) -> (span: Span)
    ensures
        trees(*stream).len() > 0 && !(trees(*stream)[0] is Group) ==> span == places(
            *stream,
        )[0].open,
{
    stream.clone().into_iter().next().map_or_else(Span::call_site, |tree| tree.span())
}

/// Puts the code in `text` behind what the stream holds.
pub(crate) fn emit(stream: &mut TokenStream, text: &str)
    ensures
        trees(*final(stream)) == trees(*old(stream)) + lexed(text@),
{
    append(stream, code(text));
}

/// `( inner )`
pub(crate) fn parens(inner: TokenStream) -> (stream: TokenStream)
    ensures
        trees(stream) == grouped(Delimiter::Parenthesis, trees(inner)),
{
    group(Delimiter::Parenthesis, inner)
}

/// `{ inner }`
pub(crate) fn braces(inner: TokenStream) -> (stream: TokenStream)
    ensures
        trees(stream) == grouped(Delimiter::Brace, trees(inner)),
{
    group(Delimiter::Brace, inner)
}

/// `[ inner ]`
pub(crate) fn brackets(inner: TokenStream) -> (stream: TokenStream)
    ensures
        trees(stream) == grouped(Delimiter::Bracket, trees(inner)),
{
    group(Delimiter::Bracket, inner)
}

/// `true` or `false`, as code.
pub(crate) fn bool_literal(value: bool) -> (stream: TokenStream)
    ensures
        trees(stream) == bool_code(value),
{
    if value {
        code("true")
    } else {
        code("false")
    }
}

/// The streams of a list, one after the other.
pub(crate) fn concat(items: &Vec<TokenStream>) -> (stream: TokenStream)
    ensures
        trees(stream) == concatenated(streams(items@)),
{
    let mut stream = TokenStream::new();
    let mut i: usize = 0;
    while i < items.len()
        invariant
            i <= items.len(),
            trees(stream) == concatenated(streams(items@).take(i as int)),
        decreases items.len() - i,
    {
        append(&mut stream, items[i].clone());
        i += 1;
        proof {
            let taken = streams(items@).take(i as int);
            assert(taken.drop_last() =~= streams(items@).take(i - 1));
        }
    }
    assert(streams(items@).take(i as int) =~= streams(items@));
    stream
}

/// The streams of a list with a comma between each two.
pub(crate) fn commas(items: &Vec<TokenStream>) -> (stream: TokenStream)
    ensures
        trees(stream) == comma_separated(streams(items@)),
{
    let mut stream = TokenStream::new();
    let mut i: usize = 0;
    while i < items.len()
        invariant
            i <= items.len(),
            trees(stream) == comma_separated(streams(items@).take(i as int)),
        decreases items.len() - i,
    {
        if i > 0 {
            emit(&mut stream, ",");
        }
        append(&mut stream, items[i].clone());
        i += 1;
        proof {
            let taken = streams(items@).take(i as int);
            assert(taken.drop_last() =~= streams(items@).take(i - 1));
            if i == 1 {
                assert(trees(stream) =~= taken[0]);
            }
        }
    }
    assert(streams(items@).take(i as int) =~= streams(items@));
    stream
}

// ---------------------------------------------------------------------------
// Identifiers
// ---------------------------------------------------------------------------

/// An identifier with its place in the source. Its view is the text it prints
/// as, the `r#` of a raw identifier included.
pub struct Ident {
    pub(crate) text: String,
    pub(crate) tokens: TokenStream,
}

impl View for Ident {
    type V = Seq<char>;

    closed spec fn view(&self) -> Seq<char> {
        self.text@
    }
}

/// `Ident::parse_any` on a text. Which texts are identifiers is left to the
/// lexer and named [`lexed_ident`].
#[verifier::external_body]
fn lex_ident(text: &str) -> (ident: Option<Ident>)
    ensures
        ident is Some <==> lexed_ident(text@) is Some,
        ident matches Some(i) ==> Some(i@) == lexed_ident(text@),
{
    let ident = syn::Ident::parse_any.parse_str(text).ok()?;
    Some(Ident { text: ident.to_string(), tokens: ident.to_token_stream() })
}

/// Whether a text is an identifier's with letters, digits and underscores put
/// around it, which makes it an identifier again.
pub open spec fn extends_ident(text: Seq<char>, base: Seq<char>) -> bool {
    exists|prefix: Seq<char>, suffix: Seq<char>| #[trigger]
        is_ident_lead(prefix) && #[trigger] is_ident_tail(suffix) && text == prefix + unraw(base)
            + suffix
}

/// `proc_macro2::Ident::new` makes the identifier with a given text, at the place
/// of another one. The text is an identifier, so the call does not panic.
#[verifier::external_body]
fn new_ident(text: &String, base: &Ident) -> (ident: Ident)
    requires
        extends_ident(text@, base@),
    ensures
        ident@ == text@,
{
    let ident = proc_macro2::Ident::new(text, span_of(&base.tokens));
    Ident { text: text.clone(), tokens: ident.to_token_stream() }
}

/// An identifier's text without the mark of a raw identifier.
fn without_mark(text: &String) -> (stem: String)
    ensures
        stem@ == unraw(text@),
{
    let all = text.as_str();
    let n: usize = all.unicode_len();
    if n >= 2 && all.get_char(0) == 'r' && all.get_char(1) == '#' {
        assert(text@.subrange(2, n as int) =~= text@.skip(2));
        all.substring_char(2, n).to_owned()
    } else {
        text.clone()
    }
}

/// An identifier with letters, digits and underscores put around it, at its own
/// place. The mark of a raw identifier is dropped.
pub(crate) fn affixed_ident(prefix: &str, base: &Ident, suffix: &str) -> (ident: Ident)
    requires
        is_ident_lead(prefix@),
        is_ident_tail(suffix@),
    ensures
        ident@ == prefix@ + unraw(base@) + suffix@,
{
    let text = join3(prefix, without_mark(&base.text).as_str(), suffix);
    new_ident(&text, base)
}

impl Ident {
    /// The tokens are the identifier and nothing else.
    #[verifier::type_invariant]
    pub(crate) closed spec fn is_one_token(self) -> bool {
        trees(self.tokens) == ident_tree(self.text@)
    }

    /// The identifier with this text, if the text is one.
    pub fn from_text(text: &str) -> (ident: Option<Ident>)
        ensures
            ident is Some <==> is_ident_text(text@),
            ident matches Some(i) ==> i@ == text@,
    {
        match lex_ident(text) {
            Some(ident) => {
                if ident.text == text.to_owned() {
                    Some(ident)
                } else {
                    None
                }
            },
            None => None,
        }
    }

    /// The text the identifier prints as.
    pub fn to_text(&self) -> (text: String)
        ensures
            text@ == self@,
    {
        self.text.clone()
    }

    /// The identifier as one token.
    pub fn to_tokens(&self) -> (stream: TokenStream)
        ensures
            trees(stream) == ident_tree(self@),
    {
        proof {
            use_type_invariant(self);
        }
        self.tokens.clone()
    }

    /// Where the identifier stands.
    pub closed spec fn place(&self) -> Span {
        places(self.tokens)[0].open
    }

    /// Where the identifier stands.
    pub fn span(&self) -> (span: Span)
        ensures
            span == self.place(),
    {
        proof {
            use_type_invariant(self);
        }
        span_of(&self.tokens)
    }

    /// The same identifier once more.
    pub fn copy(&self) -> (ident: Ident)
        ensures
            ident@ == self@,
            ident.place() == self.place(),
    {
        proof {
            use_type_invariant(self);
        }
        Ident { text: self.text.clone(), tokens: self.tokens.clone() }
    }
}

} // verus!
