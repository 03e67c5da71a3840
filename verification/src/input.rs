//! Reading the tokens of an attribute's arguments, one piece at a time.

use crate::error::{messages, reported_at, MacroError, Messages};
use crate::syntax::{
    expr_model, expr_of, is_plain_path, type_model, type_of, Expr, ExprKind, ExprModel, Type,
    TypeModel,
};
use crate::text::{join2, maybe};
use crate::tokens::{first_span, places, trees, Delimiter, Ident, Spot, Tok};
use proc_macro2::{Span, TokenStream, TokenTree};
use quote::ToTokens;

use syn::parse::{ParseStream, Parser};
use syn::spanned::Spanned;
use vstd::prelude::*;

verus! {

// ---------------------------------------------------------------------------
// How much there is to read
// ---------------------------------------------------------------------------

/// The number of tokens in a tree, a group counting for one besides its content.
pub open spec fn tree_weight(tree: Tok) -> nat
    decreases tree,
{
    match tree {
        Tok::Group(_, inner) => 1 + weight(inner),
        _ => 1,
    }
}

/// The number of tokens in a sequence of trees.
pub open spec fn weight(tokens: Seq<Tok>) -> nat
    decreases tokens,
{
    if tokens.len() == 0 {
        0
    } else {
        weight(tokens.drop_last()) + tree_weight(tokens.last())
    }
}

/// The numbers of tokens add up.
pub proof fn lemma_weight_append(a: Seq<Tok>, b: Seq<Tok>)
    ensures
        weight(a + b) == weight(a) + weight(b),
    decreases b.len(),
{
    if b.len() == 0 {
        assert(a + b =~= a);
    } else {
        lemma_weight_append(a, b.drop_last());
        assert((a + b).drop_last() =~= a + b.drop_last());
    }
}

/// The first tree counts for something.
pub proof fn lemma_weight_first(tokens: Seq<Tok>)
    requires
        tokens.len() > 0,
    ensures
        weight(tokens) == tree_weight(tokens[0]) + weight(tokens.skip(1)),
        tree_weight(tokens[0]) >= 1,
        weight(tokens.skip(1)) < weight(tokens),
{
    let head = seq![tokens[0]];
    assert(tokens =~= head + tokens.skip(1));
    lemma_weight_append(head, tokens.skip(1));
    assert(head.drop_last() =~= Seq::empty());
    assert(weight(head) == tree_weight(tokens[0])) by {
        reveal_with_fuel(weight, 2);
    }
}

// ---------------------------------------------------------------------------
// What stands in front
// ---------------------------------------------------------------------------

/// The tokens with every invisible group in front opened. Groups that macro
/// expansion leaves around a fragment are read through like this.
pub open spec fn opened(tokens: Seq<Tok>) -> Seq<Tok>
    decreases weight(tokens),
{
    if tokens.len() > 0 && tokens[0] is Group && tokens[0]->Group_0 == Delimiter::Invisible {
        proof {
            lemma_weight_first(tokens);
            lemma_weight_append(tokens[0]->Group_1, tokens.skip(1));
        }
        opened(tokens[0]->Group_1 + tokens.skip(1))
    } else {
        tokens
    }
}

/// Opening the groups in front adds nothing.
pub proof fn lemma_opened_weight(tokens: Seq<Tok>)
    ensures
        weight(opened(tokens)) <= weight(tokens),
        opened(tokens).len() > 0 ==> weight(opened(tokens).skip(1)) < weight(tokens),
    decreases weight(tokens),
{
    if tokens.len() > 0 && tokens[0] is Group && tokens[0]->Group_0 == Delimiter::Invisible {
        lemma_weight_first(tokens);
        lemma_weight_append(tokens[0]->Group_1, tokens.skip(1));
        lemma_opened_weight(tokens[0]->Group_1 + tokens.skip(1));
    } else if tokens.len() > 0 {
        lemma_weight_first(tokens);
    }
}

/// A complaint about the place where `tokens` begin.
pub open spec fn complaint(tokens: Seq<Tok>, message: Seq<char>) -> Seq<char> {
    if tokens.len() == 0 {
        "unexpected end of input, "@ + message
    } else {
        message
    }
}

/// The words that are not taken as an identifier.
#[verifier::opaque]
pub open spec fn is_keyword(word: Seq<char>) -> bool {
    ||| word == "_"@ || word == "abstract"@ || word == "as"@ || word == "async"@
    ||| word == "await"@ || word == "become"@ || word == "box"@ || word == "break"@
    ||| word == "const"@ || word == "continue"@ || word == "crate"@ || word == "do"@
    ||| word == "dyn"@ || word == "else"@ || word == "enum"@
    ||| word == seq!['e', 'x', 't', 'e', 'r', 'n'] || word == "false"@ || word == "final"@
    ||| word == "fn"@ || word == "for"@ || word == "if"@ || word == "impl"@ || word == "in"@
    ||| word == "let"@ || word == "loop"@ || word == "macro"@ || word == "match"@
    ||| word == "mod"@ || word == "move"@ || word == "mut"@ || word == "override"@
    ||| word == "priv"@ || word == "pub"@ || word == "ref"@ || word == "return"@
    ||| word == "Self"@ || word == "self"@ || word == "static"@ || word == "struct"@
    ||| word == "super"@ || word == "trait"@ || word == "true"@ || word == "try"@
    ||| word == "type"@ || word == "typeof"@ || word == "unsafe"@ || word == "unsized"@
    ||| word == "use"@ || word == "virtual"@ || word == "where"@ || word == "while"@
    ||| word == "yield"@
}

/// What the keywords look like, as far as the words for arguments differ from them.
pub proof fn lemma_keyword_shapes(word: Seq<char>)
    ensures
        is_keyword(word) ==> {
            &&& word.len() <= 8
            &&& word.len() == 3 || word.len() == 4 ==> word[1] != 'a'
            &&& word.len() == 4 ==> word[3] != 'a'
            &&& word.len() == 5 ==> word[0] != 'e'
            &&& word.len() == 6 ==> word[0] != 'm' && word[4] != 'u'
            &&& word.len() == 7 ==> word[0] == 'u' || word[0] == 'v'
        },
{
    reveal(is_keyword);
    reveal_strlit("_");
    assert("_"@.len() == 1);
    reveal_strlit("abstract");
    assert("abstract"@.len() == 8);
    reveal_strlit("as");
    assert("as"@.len() == 2);
    reveal_strlit("async");
    assert("async"@.len() == 5 && "async"@[0] == 'a');
    reveal_strlit("await");
    assert("await"@.len() == 5 && "await"@[0] == 'a');
    reveal_strlit("become");
    assert("become"@.len() == 6 && "become"@[0] == 'b' && "become"@[4] == 'm');
    reveal_strlit("box");
    assert("box"@.len() == 3 && "box"@[1] == 'o');
    reveal_strlit("break");
    assert("break"@.len() == 5 && "break"@[0] == 'b');
    reveal_strlit("const");
    assert("const"@.len() == 5 && "const"@[0] == 'c');
    reveal_strlit("continue");
    assert("continue"@.len() == 8);
    reveal_strlit("crate");
    assert("crate"@.len() == 5 && "crate"@[0] == 'c');
    reveal_strlit("do");
    assert("do"@.len() == 2);
    reveal_strlit("dyn");
    assert("dyn"@.len() == 3 && "dyn"@[1] == 'y');
    reveal_strlit("else");
    assert("else"@.len() == 4 && "else"@[1] == 'l' && "else"@[3] == 'e');
    reveal_strlit("enum");
    assert("enum"@.len() == 4 && "enum"@[1] == 'n' && "enum"@[3] == 'm');
    reveal_strlit("false");
    assert("false"@.len() == 5 && "false"@[0] == 'f');
    reveal_strlit("final");
    assert("final"@.len() == 5 && "final"@[0] == 'f');
    reveal_strlit("fn");
    assert("fn"@.len() == 2);
    reveal_strlit("for");
    assert("for"@.len() == 3 && "for"@[1] == 'o');
    reveal_strlit("if");
    assert("if"@.len() == 2);
    reveal_strlit("impl");
    assert("impl"@.len() == 4 && "impl"@[1] == 'm' && "impl"@[3] == 'l');
    reveal_strlit("in");
    assert("in"@.len() == 2);
    reveal_strlit("let");
    assert("let"@.len() == 3 && "let"@[1] == 'e');
    reveal_strlit("loop");
    assert("loop"@.len() == 4 && "loop"@[1] == 'o' && "loop"@[3] == 'p');
    reveal_strlit("macro");
    assert("macro"@.len() == 5 && "macro"@[0] == 'm');
    reveal_strlit("match");
    assert("match"@.len() == 5 && "match"@[0] == 'm');
    reveal_strlit("mod");
    assert("mod"@.len() == 3 && "mod"@[1] == 'o');
    reveal_strlit("move");
    assert("move"@.len() == 4 && "move"@[1] == 'o' && "move"@[3] == 'e');
    reveal_strlit("mut");
    assert("mut"@.len() == 3 && "mut"@[1] == 'u');
    reveal_strlit("override");
    assert("override"@.len() == 8);
    reveal_strlit("priv");
    assert("priv"@.len() == 4 && "priv"@[1] == 'r' && "priv"@[3] == 'v');
    reveal_strlit("pub");
    assert("pub"@.len() == 3 && "pub"@[1] == 'u');
    reveal_strlit("ref");
    assert("ref"@.len() == 3 && "ref"@[1] == 'e');
    reveal_strlit("return");
    assert("return"@.len() == 6 && "return"@[0] == 'r' && "return"@[4] == 'r');
    reveal_strlit("Self");
    assert("Self"@.len() == 4 && "Self"@[1] == 'e' && "Self"@[3] == 'f');
    reveal_strlit("self");
    assert("self"@.len() == 4 && "self"@[1] == 'e' && "self"@[3] == 'f');
    reveal_strlit("static");
    assert("static"@.len() == 6 && "static"@[0] == 's' && "static"@[4] == 'i');
    reveal_strlit("struct");
    assert("struct"@.len() == 6 && "struct"@[0] == 's' && "struct"@[4] == 'c');
    reveal_strlit("super");
    assert("super"@.len() == 5 && "super"@[0] == 's');
    reveal_strlit("trait");
    assert("trait"@.len() == 5 && "trait"@[0] == 't');
    reveal_strlit("true");
    assert("true"@.len() == 4 && "true"@[1] == 'r' && "true"@[3] == 'e');
    reveal_strlit("try");
    assert("try"@.len() == 3 && "try"@[1] == 'r');
    reveal_strlit("type");
    assert("type"@.len() == 4 && "type"@[1] == 'y' && "type"@[3] == 'e');
    reveal_strlit("typeof");
    assert("typeof"@.len() == 6 && "typeof"@[0] == 't' && "typeof"@[4] == 'o');
    reveal_strlit("unsafe");
    assert("unsafe"@.len() == 6 && "unsafe"@[0] == 'u' && "unsafe"@[4] == 'f');
    reveal_strlit("unsized");
    assert("unsized"@.len() == 7 && "unsized"@[0] == 'u');
    reveal_strlit("use");
    assert("use"@.len() == 3 && "use"@[1] == 's');
    reveal_strlit("virtual");
    assert("virtual"@.len() == 7 && "virtual"@[0] == 'v');
    reveal_strlit("where");
    assert("where"@.len() == 5 && "where"@[0] == 'w');
    reveal_strlit("while");
    assert("while"@.len() == 5 && "while"@[0] == 'w');
    reveal_strlit("yield");
    assert("yield"@.len() == 5 && "yield"@[0] == 'y');
}

/// The identifier in front, and what follows it.
pub open spec fn ident_step(tokens: Seq<Tok>) -> Result<(Seq<char>, Seq<Tok>), Messages> {
    let front = opened(tokens);
    if front.len() == 0 || !(front[0] is Ident) {
        Err(seq![complaint(tokens, "expected identifier"@)])
    } else if is_keyword(front[0]->Ident_0) {
        Err(
            seq![
                complaint(
                    tokens,
                    "expected identifier, found keyword `"@ + front[0]->Ident_0 + "`"@,
                ),
            ],
        )
    } else {
        Ok((front[0]->Ident_0, front.skip(1)))
    }
}

/// What follows the given punctuation character, if it stands in front.
pub open spec fn punct_step(tokens: Seq<Tok>, c: char) -> Option<Seq<Tok>> {
    let front = opened(tokens);
    if front.len() > 0 && front[0] is Punct && front[0]->Punct_0 == c {
        Some(front.skip(1))
    } else {
        None
    }
}

/// The content of the group in front, and what follows it. An invisible group is
/// looked for as it stands, any other one through the invisible ones.
pub open spec fn group_step(tokens: Seq<Tok>, delimiter: Delimiter) -> Option<
    (Seq<Tok>, Seq<Tok>),
> {
    let front = if delimiter == Delimiter::Invisible {
        tokens
    } else {
        opened(tokens)
    };
    if front.len() > 0 && front[0] is Group && front[0]->Group_0 == delimiter {
        Some((front[0]->Group_1, front.skip(1)))
    } else {
        None
    }
}

/// Whether the text of a literal is that of a number.
pub open spec fn is_number(text: Seq<char>) -> bool {
    text.len() > 0 && '0' <= text[0] <= '9'
}

/// What is left once a literal of any kind in front has been read, `true`, `false`
/// and a number with a minus sign among them; everything where there is none.
pub open spec fn past_literal(tokens: Seq<Tok>) -> Seq<Tok> {
    let front = opened(tokens);
    if front.len() == 0 {
        tokens
    } else {
        match front[0] {
            Tok::Str(_) => front.skip(1),
            Tok::Literal(_) => front.skip(1),
            Tok::Ident(word) => if word == "true"@ || word == "false"@ {
                front.skip(1)
            } else {
                tokens
            },
            Tok::Punct(c, _) => {
                let next = opened(front.skip(1));
                if c == '-' && next.len() > 0 && next[0] is Literal && is_number(
                    next[0]->Literal_0,
                ) {
                    next.skip(1)
                } else {
                    tokens
                }
            },
            Tok::Group(..) => tokens,
        }
    }
}

/// The value of the string literal in front, and what follows it.
pub open spec fn string_step(tokens: Seq<Tok>) -> Option<(Seq<char>, Seq<Tok>)> {
    let front = opened(tokens);
    if front.len() > 0 && front[0] is Str {
        Some((front[0]->Str_0, front.skip(1)))
    } else {
        None
    }
}

/// The pieces of syntax that are read in one go.
#[derive(Clone, Copy, PartialEq, Eq, Structural)]
pub enum Node {
    Type,
    Expr,
    Path,
}

/// A piece of syntax that was read: its tokens, what follows it, and the
/// complaint about a group in it that was not read to its end.
pub struct NodePrefix {
    pub tokens: Seq<Tok>,
    pub rest: Seq<Tok>,
    pub unexpected: Option<Messages>,
}

/// The piece of syntax in front, as `syn` parses it.
pub uninterp spec fn node_prefix(node: Node, tokens: Seq<Tok>) -> Result<NodePrefix, Messages>;

/// What follows `::`, if it stands in front.
pub open spec fn colons_step(tokens: Seq<Tok>) -> Option<Seq<Tok>> {
    let front = opened(tokens);
    if front.len() > 0 && front[0] == Tok::Punct(':', true) {
        punct_step(front.skip(1), ':')
    } else {
        None
    }
}

/// The segments of a path behind its first one: whether there are any, and what
/// follows them.
pub open spec fn more_segments(tokens: Seq<Tok>) -> Result<(bool, Seq<Tok>), Messages>
    decreases weight(tokens),
{
    match colons_step(tokens) {
        None => Ok((false, tokens)),
        Some(next) => {
            let front = opened(next);
            if front.len() > 0 && front[0] is Ident {
                proof {
                    lemma_colons_weight(tokens);
                    lemma_opened_weight(next);
                }
                match more_segments(front.skip(1)) {
                    Err(m) => Err(m),
                    Ok((_, rest)) => Ok((true, rest)),
                }
            } else {
                Err(seq![complaint(next, "expected ident"@)])
            }
        },
    }
}

/// The path of the nested attribute in front, keywords being taken as any other
/// word: the identifier that it is, if it is one, and what follows it.
pub open spec fn meta_path(tokens: Seq<Tok>) -> Result<(Option<Seq<char>>, Seq<Tok>), Messages> {
    let global = colons_step(tokens) is Some;
    let start = if global {
        colons_step(tokens)->0
    } else {
        tokens
    };
    let front = opened(start);
    if front.len() > 0 && front[0] is Ident {
        match more_segments(front.skip(1)) {
            Err(m) => Err(m),
            Ok((more, rest)) => Ok(
                (
                    if global || more {
                        None
                    } else {
                        Some(front[0]->Ident_0)
                    },
                    rest,
                ),
            ),
        }
    } else if start.len() == 0 {
        Err(seq![complaint(start, "expected nested attribute"@)])
    } else if past_literal(start) != start {
        Err(seq!["unexpected literal in nested attribute, expected ident"@])
    } else {
        Err(seq!["unexpected token in nested attribute, expected ident"@])
    }
}

/// `::` leaves less to read.
pub proof fn lemma_colons_weight(tokens: Seq<Tok>)
    ensures
        colons_step(tokens) matches Some(rest) ==> weight(rest) < weight(tokens),
{
    let front = opened(tokens);
    lemma_opened_weight(tokens);
    if front.len() > 0 {
        lemma_opened_weight(front.skip(1));
    }
}

proof fn lemma_more_segments_weight(tokens: Seq<Tok>)
    ensures
        more_segments(tokens) matches Ok(step) ==> weight(step.1) <= weight(tokens),
    decreases weight(tokens),
{
    lemma_colons_weight(tokens);
    if let Some(next) = colons_step(tokens) {
        lemma_opened_weight(next);
        let front = opened(next);
        if front.len() > 0 && front[0] is Ident {
            lemma_more_segments_weight(front.skip(1));
        }
    }
}

/// The path of a nested attribute leaves less to read.
pub proof fn lemma_meta_path_weight(tokens: Seq<Tok>)
    ensures
        meta_path(tokens) matches Ok(step) ==> weight(step.1) < weight(tokens),
{
    lemma_colons_weight(tokens);
    let start = if colons_step(tokens) is Some {
        colons_step(tokens)->0
    } else {
        tokens
    };
    lemma_opened_weight(start);
    let front = opened(start);
    if front.len() > 0 {
        lemma_more_segments_weight(front.skip(1));
    }
}

// ---------------------------------------------------------------------------
// Where the tokens stand
// ---------------------------------------------------------------------------

/// Where the tokens of `rest` stand, which are left of `tokens` once some in front
/// have been read. Invisible groups are read through.
pub open spec fn places_behind(tokens: Seq<Tok>, places: Seq<Spot>, rest: Seq<Tok>) -> Seq<Spot>
    decreases weight(tokens),
{
    if tokens == rest || tokens.len() == 0 {
        places
    } else if tokens[0] is Group && tokens[0]->Group_0 == Delimiter::Invisible {
        proof {
            lemma_weight_first(tokens);
            lemma_weight_append(tokens[0]->Group_1, tokens.skip(1));
        }
        places_behind(
            tokens[0]->Group_1 + tokens.skip(1),
            places[0].inner + places.skip(1),
            rest,
        )
    } else {
        proof {
            lemma_weight_first(tokens);
        }
        places_behind(tokens.skip(1), places.skip(1), rest)
    }
}

/// Tokens that are to be read, where they stand, and where they end.
pub struct Located {
    pub tokens: Seq<Tok>,
    pub places: Seq<Spot>,
    pub end: Span,
}

/// The tokens of a stream, which ends where given.
pub open spec fn located(stream: TokenStream, end: Span) -> Located {
    Located { tokens: trees(stream), places: places(stream), end }
}

/// Whether the tokens of a piece of syntax stand where those that a stream begins
/// with stand.
pub open spec fn keeps_places(node: TokenStream, stream: TokenStream) -> bool {
    forall|i: int| 0 <= i < trees(node).len() ==> #[trigger] places(node)[i] == places(stream)[i]
}

impl Located {
    /// Where what comes next begins; where nothing does, the end.
    pub open spec fn here(self) -> Span {
        if self.tokens.len() == 0 {
            self.end
        } else {
            self.places[0].open
        }
    }

    /// What is left once some tokens in front have been read.
    pub open spec fn behind(self, rest: Seq<Tok>) -> Located {
        Located {
            tokens: rest,
            places: places_behind(self.tokens, self.places, rest),
            end: self.end,
        }
    }

    /// The same with the invisible groups in front opened.
    pub open spec fn front(self) -> Located {
        self.behind(opened(self.tokens))
    }

    /// The content of the group in front, which ends at its closing delimiter.
    pub open spec fn inside(self) -> Located {
        let group = self.front();
        Located {
            tokens: group.tokens[0]->Group_1,
            places: group.places[0].inner,
            end: group.places[0].close,
        }
    }

    /// Where a missing punctuation character is reported: at another one that
    /// stands in its stead, or else at what comes next.
    pub open spec fn punct_site(self) -> Span {
        let front = self.front();
        if front.tokens.len() > 0 && front.tokens[0] is Punct && front.tokens[0]->Punct_0 != '\'' {
            front.here()
        } else {
            self.here()
        }
    }

    /// Whether a piece of syntax stands in front as it is, and is a single token or
    /// a path without arguments.
    pub open spec fn stands(self, node: Seq<Tok>) -> bool {
        &&& 0 < node.len() <= self.tokens.len()
        &&& self.tokens.take(node.len() as int) == node
        &&& is_plain_path(node) || (node.len() == 1 && !(node[0] is Group))
    }

    /// Where the last token of such a piece of syntax stands; unknown of others.
    pub open spec fn last_site(self, node: Seq<Tok>) -> Option<Span> {
        if self.stands(node) {
            Some(self.places[node.len() - 1].open)
        } else {
            None
        }
    }
}

// ---------------------------------------------------------------------------
// The steps, as the parser takes them
// ---------------------------------------------------------------------------

// Each step is run as `syn` runs a parser on an attribute's arguments, by
// `Parser::__parse_scoped`: an input that ends too early is reported at `end`.

/// `ParseBuffer::parse::<Ident>` takes an identifier that is no keyword. A complaint
/// is reported at what comes next.
#[verifier::external_body]
fn take_ident(stream: &mut TokenStream, end: Span) -> (ident: Result<Ident, syn::Error>)
    ensures
        places(*final(stream)) == places_behind(
            trees(*old(stream)),
            places(*old(stream)),
            trees(*final(stream)),
        ),
        ident matches Ok(i) ==> (ident_step(trees(*old(stream))) matches Ok(step) && step.0 == i@
            && step.1 == trees(*final(stream))) && i.place() == located(
            *old(stream),
            end,
        ).front().here(),
        ident matches Err(e) ==> (ident_step(trees(*old(stream))) matches Err(m) && m == messages(e)
            && trees(*final(stream)) == trees(*old(stream))) && reported_at(e) == located(
            *old(stream),
            end,
        ).here(),
{
    let parser = |input: ParseStream| Ok((input.parse::<syn::Ident>()?, input.parse::<TokenStream>()?));
    let (ident, rest) = parser.__parse_scoped(end, stream.clone())?;
    *stream = rest;
    Ok(Ident { text: ident.to_string(), tokens: ident.to_token_stream() })
}

/// `ParseBuffer::peek` for `=`.
#[verifier::external_body]
fn sees_eq(stream: &TokenStream) -> (found: bool)
    ensures
        found == (punct_step(trees(*stream), '=') is Some),
{
    let parser = |input: ParseStream| {
        let found = input.peek(syn::token::Eq);
        input.parse::<TokenStream>().map(|_| found)
    };
    parser.parse2(stream.clone()).unwrap_or(false)
}

/// `ParseBuffer::span`, where what comes next begins; where nothing does, the end.
#[verifier::external_body]
fn next_span(stream: &TokenStream, end: Span) -> (span: Span)
    ensures
        span == located(*stream, end).here(),
{
    let parser = |input: ParseStream| {
        let span = input.span();
        input.parse::<TokenStream>().map(|_| span)
    };
    parser.__parse_scoped(end, stream.clone()).unwrap_or(end)
}

/// `ParseBuffer::parse::<token::Eq>` takes one `=`.
#[verifier::external_body]
fn take_eq(stream: &mut TokenStream, end: Span) -> (taken: Result<(), syn::Error>)
    ensures
        places(*final(stream)) == places_behind(
            trees(*old(stream)),
            places(*old(stream)),
            trees(*final(stream)),
        ),
        taken is Ok ==> punct_step(trees(*old(stream)), '=') == Some(trees(*final(stream))),
        taken matches Err(e) ==> punct_step(trees(*old(stream)), '=') is None && messages(e)
            == seq!["expected `=`"@] && trees(*final(stream)) == trees(*old(stream)) && reported_at(
            e,
        ) == located(*old(stream), end).punct_site(),
{
    let parser = |input: ParseStream| {
        input.parse::<syn::token::Eq>()?;
        input.parse::<TokenStream>()
    };
    *stream = parser.__parse_scoped(end, stream.clone())?;
    Ok(())
}

/// `ParseBuffer::parse::<token::Comma>` takes one `,`.
#[verifier::external_body]
fn take_comma(stream: &mut TokenStream, end: Span) -> (taken: Result<(), syn::Error>)
    ensures
        places(*final(stream)) == places_behind(
            trees(*old(stream)),
            places(*old(stream)),
            trees(*final(stream)),
        ),
        taken is Ok ==> punct_step(trees(*old(stream)), ',') == Some(trees(*final(stream))),
        taken matches Err(e) ==> punct_step(trees(*old(stream)), ',') is None && messages(e)
            == seq!["expected `,`"@] && trees(*final(stream)) == trees(*old(stream)) && reported_at(
            e,
        ) == located(*old(stream), end).punct_site(),
{
    let parser = |input: ParseStream| {
        input.parse::<syn::token::Comma>()?;
        input.parse::<TokenStream>()
    };
    *stream = parser.__parse_scoped(end, stream.clone())?;
    Ok(())
}

/// `ParseBuffer::parse::<TokenTree>` takes one token tree, whatever it is, and
/// fails only where nothing is left.
#[verifier::external_body]
fn take_tree(stream: &mut TokenStream) -> (taken: Result<(), syn::Error>)
    ensures
        taken is Ok ==> trees(*old(stream)).len() > 0 && trees(*final(stream)) == trees(
            *old(stream),
        ).skip(1),
        taken is Err ==> trees(*old(stream)).len() == 0 && trees(*final(stream)) == trees(
            *old(stream),
        ),
{
    let parser = |input: ParseStream| {
        input.parse::<TokenTree>()?;
        input.parse::<TokenStream>()
    };
    *stream = parser.parse2(stream.clone())?;
    Ok(())
}

/// `syn::buffer::Cursor::group` takes a group of the given kind and hands out
/// its content, whose tokens stand where they stood, and the place of its closing
/// delimiter.
#[verifier::external_body]
fn take_group(stream: &mut TokenStream, delimiter: Delimiter) -> (content: Option<
    (TokenStream, Span),
>)
    ensures
        places(*final(stream)) == places_behind(
            trees(*old(stream)),
            places(*old(stream)),
            trees(*final(stream)),
        ),
        content matches Some(c) ==> group_step(trees(*old(stream)), delimiter) == Some(
            (trees(c.0), trees(*final(stream))),
        ) && (if delimiter == Delimiter::Invisible {
            places(c.0) == places(*old(stream))[0].inner
        } else {
            located(c.0, c.1) == located(*old(stream), c.1).inside()
        }),
        content is None ==> group_step(trees(*old(stream)), delimiter) is None && trees(
            *final(stream),
        ) == trees(*old(stream)),
{
    let kind = match delimiter {
        Delimiter::Parenthesis => proc_macro2::Delimiter::Parenthesis,
        Delimiter::Brace => proc_macro2::Delimiter::Brace,
        Delimiter::Bracket => proc_macro2::Delimiter::Bracket,
        Delimiter::Invisible => proc_macro2::Delimiter::None,
    };
    let buffer = syn::buffer::TokenBuffer::new2(stream.clone());
    let (inside, span, rest) = buffer.begin().group(kind)?;
    *stream = rest.token_stream();
    Some((inside.token_stream(), span.close()))
}

/// `ParseBuffer::parse::<LitStr>` takes a string literal; `LitStr::value` gives
/// its value. A literal of another kind is refused but has been read, which is
/// named [`past_literal`]. A complaint is reported at what comes next.
#[verifier::external_body]
fn take_string(stream: &mut TokenStream, end: Span) -> (value: Result<String, syn::Error>)
    ensures
        places(*final(stream)) == places_behind(
            trees(*old(stream)),
            places(*old(stream)),
            trees(*final(stream)),
        ),
        value matches Ok(v) ==> string_step(trees(*old(stream))) == Some(
            (v@, trees(*final(stream))),
        ),
        value matches Err(e) ==> string_step(trees(*old(stream))) is None && messages(e)
            == seq![complaint(trees(*old(stream)), "expected string literal"@)] && trees(
            *final(stream),
        ) == past_literal(trees(*old(stream))) && reported_at(e) == located(
            *old(stream),
            end,
        ).here(),
{
    let mut rest = TokenStream::new();
    let parser = |input: ParseStream| {
        let value = input.parse::<syn::LitStr>().map(|literal| literal.value());
        rest = input.parse::<TokenStream>()?;
        value
    };
    let value = parser.__parse_scoped(end, stream.clone());
    *stream = rest;
    value
}

/// `ParseBuffer::parse` for a type, an expression or a path. What it takes is
/// left to the parser and named [`node_prefix`]; it never leaves more tokens than
/// there were. The tokens of what is but a token, or a path without arguments, keep
/// their places.
#[verifier::external_body]
fn take_node(stream: &mut TokenStream, node: Node, end: Span) -> (taken: Result<
    (TokenStream, Option<syn::Error>),
    syn::Error,
>)
    ensures
        taken matches Ok(t) ==> (node_prefix(node, trees(*old(stream))) matches Ok(prefix)
            && prefix.tokens == trees(t.0) && prefix.rest == trees(*final(stream))
            && prefix.unexpected == (match t.1 {
            Some(e) => Some(messages(e)),
            None => None,
        }) && weight(trees(*final(stream))) <= weight(trees(*old(stream)))),
        taken matches Ok(t) ==> places(*final(stream)) == places_behind(
            trees(*old(stream)),
            places(*old(stream)),
            trees(*final(stream)),
        ) && (located(*old(stream), end).stands(trees(t.0)) ==> keeps_places(t.0, *old(stream))),
        taken matches Err(e) ==> (node_prefix(node, trees(*old(stream))) matches Err(m) && m
            == messages(e)),
{
    let mut found = None;
    let parser = |input: ParseStream| {
        let tokens = match node {
            Node::Type => input.parse::<syn::Type>()?.to_token_stream(),
            Node::Expr => input.parse::<syn::Expr>()?.to_token_stream(),
            Node::Path => input.parse::<syn::Path>()?.to_token_stream(),
        };
        found = Some((tokens, input.parse::<TokenStream>()?));
        Ok(())
    };
    let outcome = parser.__parse_scoped(end, stream.clone());
    let Some((tokens, rest)) = found else { return Err(outcome.unwrap_err()) };
    *stream = rest;
    Ok((tokens, outcome.err()))
}

/// `syn::meta::parser` takes the path of one nested attribute and hands out the
/// identifier that it is, if it is one, and the place that it covers. Of a longer
/// path nothing is claimed of the place, which the compiler joins.
#[verifier::external_body]
fn take_meta_path(stream: &mut TokenStream, end: Span) -> (name: Result<
    (Option<String>, Span),
    syn::Error,
>)
    requires
        trees(*old(stream)).len() > 0,
    ensures
        name matches Ok(n) ==> (meta_path(trees(*old(stream))) matches Ok(path) && path.0 == maybe(
            n.0,
        ) && path.1 == trees(*final(stream))),
        name matches Ok(n) ==> places(*final(stream)) == places_behind(
            trees(*old(stream)),
            places(*old(stream)),
            trees(*final(stream)),
        ) && (n.0 is Some ==> n.1 == located(*old(stream), end).front().here()),
        name matches Err(e) ==> (meta_path(trees(*old(stream))) matches Err(m) && m == messages(e)),
{
    let mut found = None;
    let parser = syn::meta::parser(|meta| {
        let name = meta.path.get_ident().map(|ident| ident.to_string());
        found = Some(((name, meta.path.span()), meta.input.parse::<TokenStream>()?));
        Ok(())
    });
    let outcome = parser.__parse_scoped(end, stream.clone());
    let Some((name, rest)) = found else { return Err(outcome.unwrap_err()) };
    *stream = rest;
    Ok(name)
}

// ---------------------------------------------------------------------------
// The input of a parse
// ---------------------------------------------------------------------------

/// The tokens that are still to be read, and the complaint about a group that
/// was left before its end. Such a complaint does not stop the parse; it is
/// reported once the parse is through.
pub struct Input {
    pub tokens: TokenStream,
    pub unexpected: Option<MacroError>,
    /// Where the input ends.
    pub end: Span,
}

/// The model of an [`Input`].
pub struct InputModel {
    pub tokens: Seq<Tok>,
    pub unexpected: Option<Messages>,
}

impl View for Input {
    type V = InputModel;

    open spec fn view(&self) -> InputModel {
        InputModel {
            tokens: trees(self.tokens),
            unexpected: match self.unexpected {
                Some(error) => Some(error@),
                None => None,
            },
        }
    }
}

/// The earlier of two complaints.
pub open spec fn earlier(first: Option<Messages>, second: Option<Messages>) -> Option<Messages> {
    if first is Some {
        first
    } else {
        second
    }
}

/// The input of a fresh parse.
pub open spec fn fresh(tokens: Seq<Tok>) -> InputModel {
    InputModel { tokens, unexpected: None }
}

/// What a parse that went through its input comes to.
pub open spec fn concluded<T>(outcome: Result<(T, InputModel), Messages>) -> Result<T, Messages> {
    match outcome {
        Ok((value, input)) => match input.unexpected {
            Some(m) => Err(m),
            None => Ok(value),
        },
        Err(m) => Err(m),
    }
}

/// The piece of syntax in front, and the input behind it. No parse leaves more to
/// read than there was, so the last case does not come up; it is what lets the
/// grammars built on this step be seen to come to an end.
pub open spec fn node_step(node: Node, input: InputModel) -> Result<
    (Seq<Tok>, InputModel),
    Messages,
> {
    match node_prefix(node, input.tokens) {
        Ok(prefix) => if weight(prefix.rest) <= weight(input.tokens) {
            Ok(
                (
                    prefix.tokens,
                    InputModel {
                        tokens: prefix.rest,
                        unexpected: earlier(input.unexpected, prefix.unexpected),
                    },
                ),
            )
        } else {
            Err(Seq::empty())
        },
        Err(m) => Err(m),
    }
}

/// The type in front, and the input behind it.
pub open spec fn type_step(input: InputModel) -> Result<(TypeModel, InputModel), Messages> {
    match node_step(Node::Type, input) {
        Ok((tokens, rest)) => Ok((type_model(tokens), rest)),
        Err(m) => Err(m),
    }
}

/// The expression in front, and the input behind it.
pub open spec fn expr_step(input: InputModel) -> Result<(ExprModel, InputModel), Messages> {
    match node_step(Node::Expr, input) {
        Ok((tokens, rest)) => Ok((expr_model(tokens), rest)),
        Err(m) => Err(m),
    }
}

/// What is said of a group that was left before its end.
pub open spec fn leftover_message(delimiter: Delimiter) -> Seq<char> {
    match delimiter {
        Delimiter::Parenthesis => "unexpected token, expected `)`"@,
        Delimiter::Brace => "unexpected token, expected `}`"@,
        Delimiter::Bracket => "unexpected token, expected `]`"@,
        Delimiter::Invisible => "unexpected token"@,
    }
}

/// The complaint about tokens that nobody read at the end of a group; none where
/// there are no tokens but invisible groups around nothing.
pub open spec fn leftover(tokens: Seq<Tok>, delimiter: Delimiter) -> Option<Messages>
    decreases weight(tokens),
{
    if tokens.len() == 0 {
        None
    } else if tokens[0] is Group && tokens[0]->Group_0 == Delimiter::Invisible {
        proof {
            lemma_weight_first(tokens);
        }
        match leftover(tokens[0]->Group_1, Delimiter::Invisible) {
            Some(m) => Some(m),
            None => leftover(tokens.skip(1), delimiter),
        }
    } else {
        Some(seq![leftover_message(delimiter)])
    }
}

/// Where the complaint about tokens that nobody read is reported: at the first of
/// them. A group covers what the compiler joins.
pub open spec fn leftover_site(tokens: Seq<Tok>, places: Seq<Spot>) -> Option<Span>
    decreases weight(tokens),
{
    if tokens.len() == 0 {
        None
    } else if tokens[0] is Group && tokens[0]->Group_0 == Delimiter::Invisible {
        let inner = tokens[0]->Group_1;
        let rest = tokens.skip(1);
        proof {
            lemma_weight_first(tokens);
        }
        if leftover(inner, Delimiter::Invisible) is Some {
            leftover_site(inner, places[0].inner)
        } else {
            leftover_site(rest, places_behind(tokens, places, rest))
        }
    } else if tokens[0] is Group {
        None
    } else {
        Some(places[0].open)
    }
}

/// Each step that reads something leaves less to read.
pub proof fn lemma_step_weights(tokens: Seq<Tok>)
    ensures
        ident_step(tokens) matches Ok(step) ==> weight(step.1) < weight(tokens),
        forall|c: char|
            (#[trigger] punct_step(tokens, c)) matches Some(rest) ==> weight(rest) < weight(tokens),
        string_step(tokens) matches Some(step) ==> weight(step.1) < weight(tokens),
        group_step(tokens, Delimiter::Parenthesis) matches Some(step) ==> weight(step.1) < weight(
            tokens,
        ) && weight(step.0) < weight(tokens),
{
    lemma_opened_weight(tokens);
    let front = opened(tokens);
    if front.len() > 0 {
        lemma_weight_first(front);
    }
}

/// Whether an expression stands where it was read: the complaints about it and
/// about the last segment of its path are reported there.
pub open spec fn is_placed(expr: Expr, source: Located) -> bool {
    source.stands(trees(expr.tokens)) ==> {
        &&& trees(expr.tokens).len() == 1 ==> expr.span == source.places[0].open
        &&& expr.kind matches ExprKind::Path(segments) ==> (segments.len() > 0 && is_plain_path(
            trees(expr.tokens),
        ) ==> segments@.last().span == source.places[trees(expr.tokens).len() - 1].open)
    }
}

impl Input {
    /// An input of which nothing has been read, and which ends where given.
    pub fn new(tokens: TokenStream, end: Span) -> (input: Input)
        ensures
            input@ == fresh(trees(tokens)),
            input.located() == located(tokens, end),
    {
        Input { tokens, unexpected: None, end }
    }

    /// Whether everything has been read.
    pub fn is_empty(&self) -> (empty: bool)
        ensures
            empty == (self@.tokens.len() == 0),
    {
        self.tokens.is_empty()
    }

    /// The tokens that are still to be read, where they stand, and where they end.
    pub open spec fn located(&self) -> Located {
        located(self.tokens, self.end)
    }

    /// Where what comes next begins; where nothing does, that where the input ends.
    pub fn span(&self) -> (span: Span)
        ensures
            span == self.located().here(),
    {
        next_span(&self.tokens, self.end)
    }

    /// Takes an identifier.
    pub fn ident(&mut self) -> (ident: Result<Ident, MacroError>)
        ensures
            final(self).unexpected == old(self).unexpected,
            final(self).located() == old(self).located().behind(final(self)@.tokens),
            ident matches Ok(i) ==> (ident_step(old(self)@.tokens) matches Ok(step) && step.0 == i@
                && step.1 == final(self)@.tokens) && i.place()
                == old(self).located().front().here(),
            ident matches Err(e) ==> (ident_step(old(self)@.tokens) matches Err(m) && m == e@
                && final(self)@.tokens == old(self)@.tokens) && e.place()
                == old(self).located().here(),
    {
        match take_ident(&mut self.tokens, self.end) {
            Ok(ident) => Ok(ident),
            Err(error) => Err(MacroError::Syntax(error)),
        }
    }

    /// Whether `=` comes next.
    pub fn peek_eq(&self) -> (found: bool)
        ensures
            found == (punct_step(self@.tokens, '=') is Some),
    {
        sees_eq(&self.tokens)
    }

    /// Takes `=`.
    pub fn eq(&mut self) -> (taken: Result<(), MacroError>)
        ensures
            final(self).unexpected == old(self).unexpected,
            final(self).located() == old(self).located().behind(final(self)@.tokens),
            taken is Ok ==> punct_step(old(self)@.tokens, '=') == Some(final(self)@.tokens),
            taken matches Err(e) ==> punct_step(old(self)@.tokens, '=') is None && e@
                == seq!["expected `=`"@] && final(self)@.tokens == old(self)@.tokens && e.place()
                == old(self).located().punct_site(),
    {
        match take_eq(&mut self.tokens, self.end) {
            Ok(()) => Ok(()),
            Err(error) => Err(MacroError::Syntax(error)),
        }
    }

    /// Takes `,`.
    pub fn comma(&mut self) -> (taken: Result<(), MacroError>)
        ensures
            final(self).unexpected == old(self).unexpected,
            final(self).located() == old(self).located().behind(final(self)@.tokens),
            taken is Ok ==> punct_step(old(self)@.tokens, ',') == Some(final(self)@.tokens),
            taken matches Err(e) ==> punct_step(old(self)@.tokens, ',') is None && e@
                == seq!["expected `,`"@] && final(self)@.tokens == old(self)@.tokens && e.place()
                == old(self).located().punct_site(),
    {
        match take_comma(&mut self.tokens, self.end) {
            Ok(()) => Ok(()),
            Err(error) => Err(MacroError::Syntax(error)),
        }
    }

    /// Whether `,` comes next.
    pub fn peek_comma(&self) -> (found: bool)
        ensures
            found == (punct_step(self@.tokens, ',') is Some),
    {
        let mut tokens = self.tokens.clone();
        take_comma(&mut tokens, self.end).is_ok()
    }

    /// Passes over one token or group, if there is one.
    pub fn skip_tree(&mut self)
        ensures
            final(self).unexpected == old(self).unexpected,
            final(self)@.tokens == (if old(self)@.tokens.len() > 0 {
                old(self)@.tokens.skip(1)
            } else {
                old(self)@.tokens
            }),
    {
        let _ = take_tree(&mut self.tokens);
    }

    /// Takes a string literal and gives its value.
    pub fn string(&mut self) -> (value: Result<String, MacroError>)
        ensures
            final(self).unexpected == old(self).unexpected,
            final(self).located() == old(self).located().behind(final(self)@.tokens),
            value matches Ok(v) ==> string_step(old(self)@.tokens) == Some(
                (v@, final(self)@.tokens),
            ),
            value matches Err(e) ==> string_step(old(self)@.tokens) is None && e@ == seq![
                complaint(old(self)@.tokens, "expected string literal"@),
            ] && final(self)@.tokens == past_literal(old(self)@.tokens) && e.place()
                == old(self).located().here(),
    {
        match take_string(&mut self.tokens, self.end) {
            Ok(value) => Ok(value),
            Err(error) => Err(MacroError::Syntax(error)),
        }
    }

    /// Whether a group in parentheses comes next.
    pub fn peek_parens(&self) -> (found: bool)
        ensures
            found == (group_step(self@.tokens, Delimiter::Parenthesis) is Some),
    {
        let mut tokens = self.tokens.clone();
        take_group(&mut tokens, Delimiter::Parenthesis).is_some()
    }

    /// Takes a group in parentheses and gives its content as an input of its own,
    /// which the complaint so far goes with.
    pub fn enter_parens(&mut self) -> (content: Result<Input, MacroError>)
        ensures
            final(self).located() == old(self).located().behind(final(self)@.tokens),
            content matches Ok(c) ==> group_step(old(self)@.tokens, Delimiter::Parenthesis) == Some(
                (c@.tokens, final(self)@.tokens),
            ) && c.unexpected == old(self).unexpected && final(self).unexpected is None
                && c.located() == old(self).located().inside(),
            content matches Err(e) ==> group_step(
                old(self)@.tokens,
                Delimiter::Parenthesis,
            ) is None && e@ == seq![complaint(old(self)@.tokens, "expected parentheses"@)]
                && final(self)@ == old(self)@ && final(self).unexpected == old(self).unexpected && e.place() == old(self).located().here(),
    {
        match take_group(&mut self.tokens, Delimiter::Parenthesis) {
            Some((tokens, end)) => Ok(Input { tokens, unexpected: self.unexpected.take(), end }),
            None => {
                let message = if self.tokens.is_empty() {
                    join2("unexpected end of input, ", "expected parentheses")
                } else {
                    "expected parentheses".to_owned()
                };
                Err(MacroError::new(self.span(), message))
            },
        }
    }

    /// Goes on behind a group whose content has been read.
    pub fn leave(&mut self, content: Input)
        ensures
            final(self)@ == (InputModel {
                tokens: old(self)@.tokens,
                unexpected: content@.unexpected,
            }),
            final(self).located() == old(self).located(),
            final(self).unexpected == content.unexpected,
    {
        self.unexpected = content.unexpected;
    }

    /// Takes a piece of syntax and gives its tokens.
    pub fn node(&mut self, node: Node) -> (taken: Result<TokenStream, MacroError>)
        ensures
            taken matches Ok(t) ==> (node_step(node, old(self)@) matches Ok(step) && step.0
                == trees(t) && step.1 == final(self)@),
            taken matches Ok(t) ==> final(self).located() == old(self).located().behind(
                final(self)@.tokens,
            ) && (old(self).located().stands(trees(t)) ==> keeps_places(t, old(self).tokens)),
            taken matches Err(e) ==> (node_step(node, old(self)@) matches Err(m) && m == e@),
            old(self).unexpected is Some ==> final(self).unexpected == old(self).unexpected,
    {
        match take_node(&mut self.tokens, node, self.end) {
            Ok((tokens, unexpected)) => {
                if self.unexpected.is_none() {
                    self.unexpected = match unexpected {
                        Some(error) => Some(MacroError::Syntax(error)),
                        None => None,
                    };
                }
                Ok(tokens)
            },
            Err(error) => Err(MacroError::Syntax(error)),
        }
    }

    /// Takes a type.
    pub fn ty(&mut self) -> (ty: Result<Type, MacroError>)
        ensures
            ty matches Ok(t) ==> (type_step(old(self)@) matches Ok(step) && step.0 == t@ && step.1
                == final(self)@) && final(self).located() == old(self).located().behind(
                final(self)@.tokens,
            ),
            ty matches Err(e) ==> (type_step(old(self)@) matches Err(m) && m == e@),
    {
        match self.node(Node::Type) {
            Ok(tokens) => Ok(type_of(tokens)),
            Err(error) => Err(error),
        }
    }

    /// Takes an expression.
    pub fn expr(&mut self) -> (expr: Result<Expr, MacroError>)
        ensures
            expr matches Ok(x) ==> (expr_step(old(self)@) matches Ok(step) && step.0 == x@ && step.1
                == final(self)@) && final(self).located() == old(self).located().behind(
                final(self)@.tokens,
            ) && is_placed(x, old(self).located()),
            expr matches Err(e) ==> (expr_step(old(self)@) matches Err(m) && m == e@),
            old(self).unexpected is Some ==> final(self).unexpected == old(self).unexpected,
    {
        match self.node(Node::Expr) {
            Ok(tokens) => {
                assert(is_plain_path(trees(tokens)) && trees(tokens).len() > 0 ==> !(trees(
                    tokens,
                )[0] is Group));
                Ok(expr_of(tokens))
            },
            Err(error) => Err(error),
        }
    }

    /// Takes the path of a nested attribute and gives the identifier that it is,
    /// if it is one, and its place.
    pub fn meta_path(&mut self) -> (name: Result<(Option<String>, Span), MacroError>)
        requires
            old(self)@.tokens.len() > 0,
        ensures
            final(self)@.unexpected == old(self)@.unexpected,
            name matches Ok(n) ==> (meta_path(old(self)@.tokens) matches Ok(step) && step.0
                == maybe(n.0) && step.1 == final(self)@.tokens) && final(self).located()
                == old(self).located().behind(final(self)@.tokens) && (n.0 is Some ==> n.1
                == old(self).located().front().here()),
            name matches Err(e) ==> (meta_path(old(self)@.tokens) matches Err(m) && m == e@),
    {
        match take_meta_path(&mut self.tokens, self.end) {
            Ok(name) => Ok(name),
            Err(error) => Err(MacroError::Syntax(error)),
        }
    }
}

/// The complaint about tokens that nobody read at the end of a group.
pub fn check_leftover(tokens: TokenStream, delimiter: Delimiter) -> (error: Option<MacroError>)
    ensures
        (match error {
            Some(e) => Some(e@),
            None => None,
        }) == leftover(trees(tokens), delimiter),
        error matches Some(e) ==> e.is_at(leftover_site(trees(tokens), places(tokens))),
    decreases weight(trees(tokens)),
{
    let ghost all = trees(tokens);
    let mut rest = tokens;
    match take_group(&mut rest, Delimiter::Invisible) {
        Some((inner, _)) => {
            proof {
                lemma_weight_first(all);
            }
            match check_leftover(inner, Delimiter::Invisible) {
                Some(error) => Some(error),
                None => check_leftover(rest, delimiter),
            }
        },
        None => {
            if rest.is_empty() {
                None
            } else {
                let message = match delimiter {
                    Delimiter::Parenthesis => "unexpected token, expected `)`",
                    Delimiter::Brace => "unexpected token, expected `}`",
                    Delimiter::Bracket => "unexpected token, expected `]`",
                    Delimiter::Invisible => "unexpected token",
                };
                Some(MacroError::new(first_span(&rest), message.to_owned()))
            }
        },
    }
}

} // verus!
