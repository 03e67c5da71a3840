//! The arguments of `#[response(...)]`.

use crate::error::{MacroError, Messages};
use crate::input::{
    check_leftover, complaint, concluded, earlier, expr_step, fresh, group_step, ident_step,
    leftover, leftover_site, lemma_step_weights, located, past_literal, punct_step, string_step,
    weight, Input, InputModel, Located,
};
use crate::args::{behind_item, behind_key, key_site, key_step, read_key};
use crate::status::{status_from_expr, status_of};
use crate::syntax::{is_plain_path, ExprKindModel, ExprModel};
use crate::text::{join3, maybe, text_is};
use crate::tokens::{trees, Delimiter, Ident, Tok};
use proc_macro2::{Span, TokenStream};
use vstd::prelude::*;

verus! {

// ---------------------------------------------------------------------------
// One example of an error detail
// ---------------------------------------------------------------------------

/// An example `(field = "...", reason = "...")` inside `details`.
pub struct ErrorDetailExample {
    pub field: String,
    pub reason: String,
}

impl View for ErrorDetailExample {
    type V = (Seq<char>, Seq<char>);

    open spec fn view(&self) -> (Seq<char>, Seq<char>) {
        (self.field@, self.reason@)
    }
}

/// The views of a list of examples.
pub open spec fn detail_views(examples: Seq<ErrorDetailExample>) -> Seq<(Seq<char>, Seq<char>)> {
    examples.map_values(|example: ErrorDetailExample| example@)
}

struct DetailDraft {
    field: Option<String>,
    reason: Option<String>,
}

/// The parts of an example that have been read.
pub struct DetailDraftModel {
    pub field: Option<Seq<char>>,
    pub reason: Option<Seq<char>>,
}

impl View for DetailDraft {
    type V = DetailDraftModel;

    closed spec fn view(&self) -> DetailDraftModel {
        DetailDraftModel { field: maybe(self.field), reason: maybe(self.reason) }
    }
}

/// One `key = "value"` of an example: what has been read by then, and the tokens
/// that are left, whether it is well formed or not.
pub open spec fn detail_field(tokens: Seq<Tok>, draft: DetailDraftModel) -> (
    Result<DetailDraftModel, Messages>,
    Seq<Tok>,
) {
    match ident_step(tokens) {
        Err(m) => (Err(m), tokens),
        Ok((key, after)) => match punct_step(after, '=') {
            None => (Err(seq!["expected `=`"@]), after),
            Some(value) => if key == "field"@ || key == "reason"@ {
                match string_step(value) {
                    None => (
                        Err(seq![complaint(value, "expected string literal"@)]),
                        past_literal(value),
                    ),
                    Some((text, rest)) => (
                        Ok(
                            if key == "field"@ {
                                DetailDraftModel { field: Some(text), ..draft }
                            } else {
                                DetailDraftModel { reason: Some(text), ..draft }
                            },
                        ),
                        rest,
                    ),
                }
            } else {
                (Err(seq!["expected `field` or `reason`, found `"@ + key + "`"@]), value)
            },
        },
    }
}

/// Where a complaint about one `key = "value"` of an example is reported.
pub open spec fn detail_field_site(source: Located) -> Span {
    match key_step(source.tokens) {
        Err(_) => key_site(source),
        Ok((key, _)) => if key == "field"@ || key == "reason"@ {
            behind_key(source).here()
        } else {
            source.front().here()
        },
    }
}

/// A field of an example leaves less to read.
pub proof fn lemma_detail_field_weight(tokens: Seq<Tok>, draft: DetailDraftModel)
    ensures
        detail_field(tokens, draft).0 is Ok ==> weight(detail_field(tokens, draft).1) < weight(
            tokens,
        ),
{
    lemma_step_weights(tokens);
    if let Ok((key, after)) = ident_step(tokens) {
        lemma_step_weights(after);
        if let Some(value) = punct_step(after, '=') {
            lemma_step_weights(value);
        }
    }
}

/// The fields of an example, separated by commas, and the tokens that are left.
pub open spec fn detail_fields(tokens: Seq<Tok>, draft: DetailDraftModel) -> (
    Result<DetailDraftModel, Messages>,
    Seq<Tok>,
)
    decreases weight(tokens),
{
    if tokens.len() == 0 {
        (Ok(draft), tokens)
    } else {
        let (read, next) = detail_field(tokens, draft);
        match read {
            Err(m) => (Err(m), next),
            Ok(more) => if next.len() == 0 {
                (Ok(more), next)
            } else {
                match punct_step(next, ',') {
                    None => (Err(seq!["expected `,`"@]), next),
                    Some(rest) => {
                        proof {
                            lemma_detail_field_weight(tokens, draft);
                            lemma_step_weights(next);
                        }
                        detail_fields(rest, more)
                    },
                }
            },
        }
    }
}

/// Where a complaint about the fields of an example is reported, if there is one.
pub open spec fn detail_fields_site(source: Located, draft: DetailDraftModel) -> Option<Span>
    decreases weight(source.tokens),
{
    if source.tokens.len() == 0 {
        None
    } else {
        let (read, next) = detail_field(source.tokens, draft);
        let behind = behind_key(source).behind(next);
        match read {
            Err(_) => Some(detail_field_site(source)),
            Ok(more) => match punct_step(next, ',') {
                Some(rest) => {
                    proof {
                        lemma_detail_field_weight(source.tokens, draft);
                        lemma_step_weights(next);
                    }
                    detail_fields_site(behind.behind(rest), more)
                },
                None => if next.len() == 0 {
                    None
                } else {
                    Some(behind.punct_site())
                },
            },
        }
    }
}

/// Where the reading of one `key = "value"` of an example ends; `next` are the tokens
/// that are left.
pub open spec fn behind_detail_field(source: Located, next: Seq<Tok>) -> Located {
    match ident_step(source.tokens) {
        Err(_) => source,
        Ok((_, after)) => if punct_step(after, '=') is Some {
            behind_key(source).behind(next)
        } else {
            source.behind(after)
        },
    }
}

/// Where the reading of the fields of an example ends, whether they are well formed or
/// not.
pub open spec fn behind_detail_fields(source: Located, draft: DetailDraftModel) -> Located
    decreases weight(source.tokens),
{
    if source.tokens.len() == 0 {
        source
    } else {
        let (read, next) = detail_field(source.tokens, draft);
        let behind = behind_detail_field(source, next);
        match (read, punct_step(next, ',')) {
            (Ok(more), Some(rest)) => {
                proof {
                    lemma_detail_field_weight(source.tokens, draft);
                    lemma_step_weights(next);
                }
                behind_detail_fields(behind.behind(rest), more)
            },
            _ => behind,
        }
    }
}

/// Where the complaint about tokens of an example that were not read is reported.
pub open spec fn detail_example_unread(source: Located) -> Option<Span> {
    let left = behind_detail_fields(
        source.inside(),
        DetailDraftModel { field: None, reason: None },
    );
    leftover_site(left.tokens, left.places)
}

/// Where the reading of an example ends.
pub open spec fn behind_detail_example(source: Located) -> Located {
    match group_step(source.tokens, Delimiter::Parenthesis) {
        None => source,
        Some((_, rest)) => source.behind(rest),
    }
}

/// Where a complaint about an example is reported; one about a missing field behind
/// the parentheses.
pub open spec fn detail_example_site(source: Located) -> Span {
    match group_step(source.tokens, Delimiter::Parenthesis) {
        None => source.here(),
        Some((_, rest)) => match detail_fields_site(
            source.inside(),
            DetailDraftModel { field: None, reason: None },
        ) {
            Some(site) => site,
            None => source.behind(rest).here(),
        },
    }
}

/// An example in parentheses, and the input behind it. Where the example is not
/// well formed, tokens of it that were not read are complained about.
pub open spec fn detail_example(input: InputModel) -> (
    Result<(Seq<char>, Seq<char>), Messages>,
    InputModel,
) {
    match group_step(input.tokens, Delimiter::Parenthesis) {
        None => (Err(seq![complaint(input.tokens, "expected parentheses"@)]), input),
        Some((content, rest)) => {
            let (read, left) = detail_fields(
                content,
                DetailDraftModel { field: None, reason: None },
            );
            let behind = InputModel {
                tokens: rest,
                unexpected: earlier(input.unexpected, leftover(left, Delimiter::Parenthesis)),
            };
            match read {
                Err(m) => (Err(m), behind),
                Ok(draft) => match (draft.field, draft.reason) {
                    (None, _) => (Err(seq!["missing `field` in detail example"@]), behind),
                    (Some(_), None) => (
                        Err(seq!["missing `reason` in detail example"@]),
                        behind,
                    ),
                    (Some(field), Some(reason)) => (Ok((field, reason)), behind),
                },
            }
        },
    }
}

/// An example leaves less to read.
pub proof fn lemma_detail_example_weight(input: InputModel)
    ensures
        detail_example(input).0 is Ok ==> weight(detail_example(input).1.tokens) < weight(
            input.tokens,
        ),
{
    lemma_step_weights(input.tokens);
}

fn read_detail_field(input: &mut Input, draft: &mut DetailDraft) -> (read: Result<(), MacroError>)
    ensures
        final(input).unexpected == old(input).unexpected,
        final(input)@.tokens == detail_field(old(input)@.tokens, old(draft)@).1,
        read is Ok ==> (detail_field(old(input)@.tokens, old(draft)@).0 matches Ok(d) && d
            == final(draft)@),
        read matches Err(e) ==> (detail_field(old(input)@.tokens, old(draft)@).0 matches Err(m) && m
            == e@) && e.place() == detail_field_site(old(input).located()),
        read is Ok ==> final(input).located() == behind_key(old(input).located()).behind(
            final(input)@.tokens,
        ),
        final(input).located() == behind_detail_field(
            old(input).located(),
            final(input)@.tokens,
        ),
{
    let key = match input.ident() {
        Ok(key) => key,
        Err(error) => return Err(error),
    };
    match input.eq() {
        Ok(()) => {},
        Err(error) => return Err(error),
    }
    let name = key.to_text();
    if text_is(&name, "field") || text_is(&name, "reason") {
        let text = match input.string() {
            Ok(text) => text,
            Err(error) => return Err(error),
        };
        if text_is(&name, "field") {
            draft.field = Some(text);
        } else {
            draft.reason = Some(text);
        }
        Ok(())
    } else {
        let message = join3("expected `field` or `reason`, found `", name.as_str(), "`");
        Err(MacroError::new(key.span(), message))
    }
}

fn read_detail_fields(input: &mut Input, draft: &mut DetailDraft) -> (read: Result<(), MacroError>)
    ensures
        final(input).unexpected == old(input).unexpected,
        final(input).located() == behind_detail_fields(old(input).located(), old(draft)@),
        final(input)@.tokens == detail_fields(old(input)@.tokens, old(draft)@).1,
        read is Ok ==> (detail_fields(old(input)@.tokens, old(draft)@).0 matches Ok(d) && d
            == final(draft)@),
        read matches Err(e) ==> (detail_fields(old(input)@.tokens, old(draft)@).0 matches Err(m) && m
            == e@) && detail_fields_site(old(input).located(), old(draft)@) == Some(e.place()),
        read is Ok ==> detail_fields_site(old(input).located(), old(draft)@) is None,
{
    while !input.is_empty()
        invariant
            detail_fields_site(input.located(), draft@) == detail_fields_site(
                old(input).located(),
                old(draft)@,
            ),
            behind_detail_fields(input.located(), draft@) == behind_detail_fields(
                old(input).located(),
                old(draft)@,
            ),
            input.unexpected == old(input).unexpected,
            detail_fields(input@.tokens, draft@) == detail_fields(old(input)@.tokens, old(draft)@),
        decreases weight(input@.tokens),
    {
        proof {
            lemma_detail_field_weight(input@.tokens, draft@);
        }
        match read_detail_field(input, draft) {
            Ok(()) => {},
            Err(error) => return Err(error),
        }
        if !input.is_empty() {
            proof {
                lemma_step_weights(input@.tokens);
            }
            match input.comma() {
                Ok(()) => {},
                Err(error) => return Err(error),
            }
        }
    }
    Ok(())
}

impl ErrorDetailExample {
    /// Reads an example in parentheses.
    pub fn parse(input: &mut Input) -> (example: Result<ErrorDetailExample, MacroError>)
        ensures
            final(input)@ == detail_example(old(input)@).1,
            example matches Ok(x) ==> (detail_example(old(input)@).0 matches Ok(pair) && pair == x@),
            example matches Err(e) ==> (detail_example(old(input)@).0 matches Err(m) && m == e@)
                && e.place() == detail_example_site(old(input).located()),
            final(input).located() == behind_detail_example(old(input).located()),
            old(input).unexpected is Some ==> final(input).unexpected == old(input).unexpected,
            old(input).unexpected is None ==> (final(input).unexpected matches Some(u)
                ==> u.is_at(detail_example_unread(old(input).located()))),
    {
        let mut inner = match input.enter_parens() {
            Ok(inner) => inner,
            Err(error) => return Err(error),
        };
        let mut draft = DetailDraft { field: None, reason: None };
        let read = read_detail_fields(&mut inner, &mut draft);
        input.unexpected = match inner.unexpected {
            Some(error) => Some(error),
            None => check_leftover(inner.tokens, Delimiter::Parenthesis),
        };
        match read {
            Ok(()) => {},
            Err(error) => return Err(error),
        }
        let field = match draft.field {
            Some(field) => field,
            None => return Err(
                MacroError::new(input.span(), "missing `field` in detail example".to_owned()),
            ),
        };
        let reason = match draft.reason {
            Some(reason) => reason,
            None => return Err(
                MacroError::new(input.span(), "missing `reason` in detail example".to_owned()),
            ),
        };
        Ok(ErrorDetailExample { field, reason })
    }
}

// ---------------------------------------------------------------------------
// The list of examples
// ---------------------------------------------------------------------------

/// The examples behind those in `examples`, separated by commas, up to the end
/// of the input; none at all once one of them is not well formed.
pub open spec fn detail_examples(input: InputModel, examples: Seq<(Seq<char>, Seq<char>)>) -> (
    Seq<(Seq<char>, Seq<char>)>,
    InputModel,
)
    decreases weight(input.tokens),
{
    if input.tokens.len() == 0 {
        (examples, input)
    } else {
        let (read, next) = detail_example(input);
        match read {
            Err(_) => (Seq::empty(), next),
            Ok(example) => if next.tokens.len() == 0 {
                (examples.push(example), next)
            } else {
                match punct_step(next.tokens, ',') {
                    None => (Seq::empty(), next),
                    Some(rest) => {
                        proof {
                            lemma_detail_example_weight(input);
                            lemma_step_weights(next.tokens);
                        }
                        detail_examples(
                            InputModel { tokens: rest, ..next },
                            examples.push(example),
                        )
                    },
                }
            },
        }
    }
}

/// The examples that the tokens inside `details = (...)` list, and the complaint
/// that stands once they have been read.
pub open spec fn detail_list(content: Seq<Tok>, unexpected: Option<Messages>) -> (
    Seq<(Seq<char>, Seq<char>)>,
    Option<Messages>,
) {
    let (examples, end) = detail_examples(
        InputModel { tokens: content, unexpected },
        Seq::empty(),
    );
    (examples, earlier(end.unexpected, leftover(end.tokens, Delimiter::Parenthesis)))
}

/// Where the reading of the list ends.
pub open spec fn behind_detail_examples(input: InputModel, source: Located) -> Located
    decreases weight(input.tokens),
{
    if input.tokens.len() == 0 {
        source
    } else {
        let (read, next) = detail_example(input);
        let behind = behind_detail_example(source);
        match (read, punct_step(next.tokens, ',')) {
            (Ok(_), Some(rest)) => {
                proof {
                    lemma_detail_example_weight(input);
                    lemma_step_weights(next.tokens);
                }
                behind_detail_examples(InputModel { tokens: rest, ..next }, behind.behind(rest))
            },
            _ => behind,
        }
    }
}

/// Where the complaint about tokens that were not read is reported, in the first
/// example that has such tokens.
pub open spec fn detail_examples_unread(input: InputModel, source: Located) -> Option<Span>
    decreases weight(input.tokens),
{
    if input.tokens.len() == 0 {
        None
    } else {
        let (read, next) = detail_example(input);
        if next.unexpected is Some {
            detail_example_unread(source)
        } else {
            match (read, punct_step(next.tokens, ',')) {
                (Ok(_), Some(rest)) => {
                    proof {
                        lemma_detail_example_weight(input);
                        lemma_step_weights(next.tokens);
                    }
                    detail_examples_unread(
                        InputModel { tokens: rest, ..next },
                        behind_detail_example(source).behind(rest),
                    )
                },
                _ => None,
            }
        }
    }
}

/// Where the complaint about tokens inside `details = (...)` that were not read is
/// reported: in an example, or behind those that were read.
pub open spec fn detail_list_unread(source: Located) -> Option<Span> {
    let input = fresh(source.tokens);
    if detail_examples(input, Seq::empty()).1.unexpected is Some {
        detail_examples_unread(input, source)
    } else {
        let left = behind_detail_examples(input, source);
        leftover_site(left.tokens, left.places)
    }
}

fn read_detail_examples(input: &mut Input) -> (examples: Vec<ErrorDetailExample>)
    ensures
        detail_examples(old(input)@, Seq::empty()) == (detail_views(examples@), final(input)@),
        final(input).located() == behind_detail_examples(old(input)@, old(input).located()),
        old(input).unexpected is Some ==> final(input).unexpected == old(input).unexpected,
        old(input).unexpected is None ==> (final(input).unexpected matches Some(u) ==> u.is_at(
            detail_examples_unread(old(input)@, old(input).located()),
        )),
{
    let mut list: Vec<ErrorDetailExample> = Vec::new();
    assert(detail_views(list@) =~= Seq::empty());
    while !input.is_empty()
        invariant
            detail_examples(input@, detail_views(list@)) == detail_examples(
                old(input)@,
                Seq::empty(),
            ),
            behind_detail_examples(input@, input.located()) == behind_detail_examples(
                old(input)@,
                old(input).located(),
            ),
            old(input).unexpected is Some ==> input.unexpected == old(input).unexpected,
            old(input).unexpected is None ==> (match input.unexpected {
                Some(u) => u.is_at(detail_examples_unread(old(input)@, old(input).located())),
                None => detail_examples_unread(input@, input.located()) == detail_examples_unread(
                    old(input)@,
                    old(input).located(),
                ),
            }),
        decreases weight(input@.tokens),
    {
        proof {
            lemma_detail_example_weight(input@);
        }
        let ghost before = list@;
        match ErrorDetailExample::parse(input) {
            Ok(example) => {
                list.push(example);
            },
            Err(_) => {
                let none: Vec<ErrorDetailExample> = Vec::new();
                assert(detail_views(none@) =~= Seq::empty());
                return none;
            },
        }
        assert(detail_views(list@) =~= detail_views(before).push(list@.last()@));
        if input.is_empty() {
            return list;
        }
        proof {
            lemma_step_weights(input@.tokens);
        }
        match input.comma() {
            Ok(()) => {},
            Err(_) => {
                let none: Vec<ErrorDetailExample> = Vec::new();
                assert(detail_views(none@) =~= Seq::empty());
                return none;
            },
        }
    }
    list
}

// ---------------------------------------------------------------------------
// The error part
// ---------------------------------------------------------------------------

struct ErrorDraft {
    code: Option<String>,
    message: Option<String>,
    details: Vec<ErrorDetailExample>,
}

/// What `error = (...)` says.
pub struct ErrorDraftModel {
    pub code: Option<Seq<char>>,
    pub message: Option<Seq<char>>,
    pub details: Seq<(Seq<char>, Seq<char>)>,
}

impl View for ErrorDraft {
    type V = ErrorDraftModel;

    closed spec fn view(&self) -> ErrorDraftModel {
        ErrorDraftModel {
            code: maybe(self.code),
            message: maybe(self.message),
            details: detail_views(self.details@),
        }
    }
}

/// One `key = value` inside `error = (...)`.
pub open spec fn error_field(input: InputModel, draft: ErrorDraftModel) -> Result<
    (ErrorDraftModel, InputModel),
    Messages,
> {
    match key_step(input.tokens) {
        Err(m) => Err(m),
        Ok((key, value)) => if key == "code"@ || key == "message"@ {
            match string_step(value) {
                None => Err(seq![complaint(value, "expected string literal"@)]),
                Some((text, rest)) => Ok(
                    (
                        if key == "code"@ {
                            ErrorDraftModel { code: Some(text), ..draft }
                        } else {
                            ErrorDraftModel { message: Some(text), ..draft }
                        },
                        InputModel { tokens: rest, ..input },
                    ),
                ),
            }
        } else if key == "details"@ {
            match group_step(value, Delimiter::Parenthesis) {
                None => Err(seq![complaint(value, "expected parentheses"@)]),
                Some((content, rest)) => {
                    let (details, unexpected) = detail_list(content, input.unexpected);
                    Ok(
                        (
                            ErrorDraftModel { details, ..draft },
                            InputModel { tokens: rest, unexpected },
                        ),
                    )
                },
            }
        } else {
            Err(seq!["expected `code`, `message`, or `details`, found `"@ + key + "`"@])
        },
    }
}

/// Where a complaint about one `key = value` inside `error = (...)` is reported.
pub open spec fn error_field_site(source: Located) -> Option<Span> {
    match key_step(source.tokens) {
        Err(_) => Some(key_site(source)),
        Ok((key, _)) => if key == "code"@ || key == "message"@ || key == "details"@ {
            Some(behind_key(source).here())
        } else {
            Some(source.front().here())
        },
    }
}

/// Where the complaint about tokens of a part of an error that were not read is
/// reported.
pub open spec fn error_field_unread(source: Located) -> Option<Span> {
    detail_list_unread(behind_key(source).inside())
}

/// A part of an error leaves less to read.
pub proof fn lemma_error_field_weight(input: InputModel, draft: ErrorDraftModel)
    ensures
        error_field(input, draft) matches Ok(step) ==> weight(step.1.tokens) < weight(input.tokens),
{
    lemma_step_weights(input.tokens);
    if let Ok((key, after)) = ident_step(input.tokens) {
        lemma_step_weights(after);
        if let Some(value) = punct_step(after, '=') {
            lemma_step_weights(value);
        }
    }
}

/// Where a complaint about the parts of an error is reported.
pub open spec fn error_fields_site(
    input: InputModel,
    source: Located,
    draft: ErrorDraftModel,
) -> Option<Span>
    decreases weight(input.tokens),
{
    if input.tokens.len() == 0 {
        None
    } else {
        match error_field(input, draft) {
            Err(_) => error_field_site(source),
            Ok((more, next)) => {
                let behind = behind_key(source).behind(next.tokens);
                match punct_step(next.tokens, ',') {
                    Some(rest) => {
                        proof {
                            lemma_error_field_weight(input, draft);
                            lemma_step_weights(next.tokens);
                        }
                        error_fields_site(
                            InputModel { tokens: rest, ..next },
                            behind.behind(rest),
                            more,
                        )
                    },
                    None => if next.tokens.len() == 0 {
                        None
                    } else {
                        Some(behind.punct_site())
                    },
                }
            },
        }
    }
}

/// Where the complaint about tokens of an error that were not read is reported, in the
/// first part that has such tokens.
pub open spec fn error_fields_unread(
    input: InputModel,
    source: Located,
    draft: ErrorDraftModel,
) -> Option<Span>
    decreases weight(input.tokens),
{
    if input.tokens.len() == 0 {
        None
    } else {
        match error_field(input, draft) {
            Err(_) => None,
            Ok((more, next)) => if next.unexpected is Some {
                error_field_unread(source)
            } else {
                match punct_step(next.tokens, ',') {
                    Some(rest) => {
                        proof {
                            lemma_error_field_weight(input, draft);
                            lemma_step_weights(next.tokens);
                        }
                        error_fields_unread(
                            InputModel { tokens: rest, ..next },
                            behind_key(source).behind(next.tokens).behind(rest),
                            more,
                        )
                    },
                    None => None,
                }
            },
        }
    }
}

/// The parts of an error, separated by commas, up to the end of the input.
pub open spec fn error_fields(input: InputModel, draft: ErrorDraftModel) -> Result<
    (ErrorDraftModel, InputModel),
    Messages,
>
    decreases weight(input.tokens),
{
    if input.tokens.len() == 0 {
        Ok((draft, input))
    } else {
        match error_field(input, draft) {
            Err(m) => Err(m),
            Ok((more, next)) => if next.tokens.len() == 0 {
                Ok((more, next))
            } else {
                match punct_step(next.tokens, ',') {
                    Some(rest) => {
                        proof {
                            lemma_error_field_weight(input, draft);
                            lemma_step_weights(next.tokens);
                        }
                        error_fields(InputModel { tokens: rest, ..next }, more)
                    },
                    None => Err(seq!["expected `,`"@]),
                }
            },
        }
    }
}

fn read_error_field(input: &mut Input, draft: &mut ErrorDraft) -> (read: Result<(), MacroError>)
    ensures
        read is Ok ==> (error_field(old(input)@, old(draft)@) matches Ok(step) && step.0
            == final(draft)@ && step.1 == final(input)@) && final(input).located() == behind_key(
            old(input).located(),
        ).behind(final(input)@.tokens),
        read matches Err(e) ==> (error_field(old(input)@, old(draft)@) matches Err(m) && m == e@)
            && e.is_at(error_field_site(old(input).located())),
        read is Ok && old(input).unexpected is Some ==> final(input).unexpected
            == old(input).unexpected,
        read is Ok && old(input).unexpected is None ==> (final(input).unexpected matches Some(u)
            ==> u.is_at(error_field_unread(old(input).located()))),
{
    let key = match read_key(input) {
        Ok(key) => key,
        Err(error) => return Err(error),
    };
    let name = key.to_text();
    if text_is(&name, "code") || text_is(&name, "message") {
        let text = match input.string() {
            Ok(text) => text,
            Err(error) => return Err(error),
        };
        if text_is(&name, "code") {
            draft.code = Some(text);
        } else {
            draft.message = Some(text);
        }
        Ok(())
    } else if text_is(&name, "details") {
        let mut inner = match input.enter_parens() {
            Ok(inner) => inner,
            Err(error) => return Err(error),
        };
        draft.details = read_detail_examples(&mut inner);
        input.unexpected = match inner.unexpected {
            Some(error) => Some(error),
            None => check_leftover(inner.tokens, Delimiter::Parenthesis),
        };
        Ok(())
    } else {
        let message = join3(
            "expected `code`, `message`, or `details`, found `",
            name.as_str(),
            "`",
        );
        Err(MacroError::new(key.span(), message))
    }
}

fn read_error_fields(input: &mut Input, draft: &mut ErrorDraft) -> (read: Result<(), MacroError>)
    ensures
        read is Ok ==> (error_fields(old(input)@, old(draft)@) matches Ok(step) && step.0
            == final(draft)@ && step.1 == final(input)@),
        read matches Err(e) ==> (error_fields(old(input)@, old(draft)@) matches Err(m) && m == e@)
            && e.is_at(error_fields_site(old(input)@, old(input).located(), old(draft)@)),
        read is Ok && old(input).unexpected is Some ==> final(input).unexpected
            == old(input).unexpected,
        read is Ok && old(input).unexpected is None ==> (final(input).unexpected matches Some(u)
            ==> u.is_at(error_fields_unread(old(input)@, old(input).located(), old(draft)@))),
{
    while !input.is_empty()
        invariant
            error_fields(input@, draft@) == error_fields(old(input)@, old(draft)@),
            error_fields_site(input@, input.located(), draft@) == error_fields_site(
                old(input)@,
                old(input).located(),
                old(draft)@,
            ),
            old(input).unexpected is Some ==> input.unexpected == old(input).unexpected,
            old(input).unexpected is None ==> (match input.unexpected {
                Some(u) => u.is_at(
                    error_fields_unread(old(input)@, old(input).located(), old(draft)@),
                ),
                None => error_fields_unread(input@, input.located(), draft@)
                    == error_fields_unread(old(input)@, old(input).located(), old(draft)@),
            }),
        decreases weight(input@.tokens),
    {
        proof {
            lemma_error_field_weight(input@, draft@);
        }
        match read_error_field(input, draft) {
            Ok(()) => {},
            Err(error) => return Err(error),
        }
        if !input.is_empty() {
            proof {
                lemma_step_weights(input@.tokens);
            }
            match input.comma() {
                Ok(()) => {},
                Err(error) => return Err(error),
            }
        }
    }
    Ok(())
}

// ---------------------------------------------------------------------------
// All arguments
// ---------------------------------------------------------------------------

/// The arguments of `#[response(...)]`.
pub struct ResponseAttr {
    pub status: u16,
    pub description: String,
    pub summary: Option<String>,
    pub error_code: Option<String>,
    pub error_message: Option<String>,
    pub error_details: Vec<ErrorDetailExample>,
    /// Whether the flag `meta` is there.
    pub include_meta: bool,
}

/// The model of a [`ResponseAttr`].
pub struct ResponseAttrModel {
    pub status: u16,
    pub description: Seq<char>,
    pub summary: Option<Seq<char>>,
    pub error_code: Option<Seq<char>>,
    pub error_message: Option<Seq<char>>,
    pub error_details: Seq<(Seq<char>, Seq<char>)>,
    pub include_meta: bool,
}

impl View for ResponseAttr {
    type V = ResponseAttrModel;

    open spec fn view(&self) -> ResponseAttrModel {
        ResponseAttrModel {
            status: self.status,
            description: self.description@,
            summary: maybe(self.summary),
            error_code: maybe(self.error_code),
            error_message: maybe(self.error_message),
            error_details: detail_views(self.error_details@),
            include_meta: self.include_meta,
        }
    }
}

struct AttrDraft {
    status: Option<u16>,
    description: Option<String>,
    summary: Option<String>,
    error: ErrorDraft,
    include_meta: bool,
}

/// The arguments that have been read.
pub struct AttrDraftModel {
    pub status: Option<u16>,
    pub description: Option<Seq<char>>,
    pub summary: Option<Seq<char>>,
    pub error: ErrorDraftModel,
    pub include_meta: bool,
}

impl View for AttrDraft {
    type V = AttrDraftModel;

    closed spec fn view(&self) -> AttrDraftModel {
        AttrDraftModel {
            status: self.status,
            description: maybe(self.description),
            summary: maybe(self.summary),
            error: self.error@,
            include_meta: self.include_meta,
        }
    }
}

/// Where nothing has been read yet.
pub open spec fn empty_attr() -> AttrDraftModel {
    AttrDraftModel {
        status: None,
        description: None,
        summary: None,
        error: ErrorDraftModel { code: None, message: None, details: Seq::empty() },
        include_meta: false,
    }
}

/// The value behind `key =`, put into the arguments. A second `error` adds to
/// what the first one says.
pub open spec fn attr_value(key: Seq<char>, input: InputModel, attr: AttrDraftModel) -> Result<
    (AttrDraftModel, InputModel),
    Messages,
> {
    if key == "status"@ {
        match expr_step(input) {
            Err(m) => Err(m),
            Ok((expr, rest)) => match status_of(expr.kind) {
                Err(m) => Err(m),
                Ok(code) => Ok((AttrDraftModel { status: Some(code), ..attr }, rest)),
            },
        }
    } else if key == "description"@ || key == "summary"@ {
        match string_step(input.tokens) {
            None => Err(seq![complaint(input.tokens, "expected string literal"@)]),
            Some((text, rest)) => Ok(
                (
                    if key == "description"@ {
                        AttrDraftModel { description: Some(text), ..attr }
                    } else {
                        AttrDraftModel { summary: Some(text), ..attr }
                    },
                    InputModel { tokens: rest, ..input },
                ),
            ),
        }
    } else if key == "error"@ {
        match group_step(input.tokens, Delimiter::Parenthesis) {
            None => Err(seq![complaint(input.tokens, "expected parentheses"@)]),
            Some((content, rest)) => match error_fields(
                InputModel { tokens: content, ..input },
                attr.error,
            ) {
                Err(m) => Err(m),
                Ok((error, inner)) => Ok(
                    (
                        AttrDraftModel { error, ..attr },
                        InputModel { tokens: rest, unexpected: inner.unexpected },
                    ),
                ),
            },
        }
    } else {
        Err(seq!["expected `status`, `description`, or `error`, found `"@ + key + "`"@])
    }
}

/// Where a complaint about the value of `status` is reported: at the last segment of
/// a path without arguments, or at another value that is one token. Otherwise it
/// stands where the compiler joins several places.
pub open spec fn status_site(expr: ExprModel, source: Located) -> Option<Span> {
    let is_path = expr.kind matches ExprKindModel::Path(names) && names.len() > 0;
    if (if is_path {
        is_plain_path(expr.tokens)
    } else {
        expr.tokens.len() == 1
    }) {
        source.last_site(expr.tokens)
    } else {
        None
    }
}

/// Where a complaint about the value behind `key =` is reported; `at` is the place of
/// the key.
pub open spec fn attr_value_site(
    key: Seq<char>,
    at: Span,
    input: InputModel,
    source: Located,
    attr: AttrDraftModel,
) -> Option<Span> {
    if key == "status"@ {
        match expr_step(input) {
            Err(_) => None,
            Ok((expr, _)) => status_site(expr, source),
        }
    } else if key == "description"@ || key == "summary"@ {
        Some(source.here())
    } else if key == "error"@ {
        match group_step(input.tokens, Delimiter::Parenthesis) {
            None => Some(source.here()),
            Some((content, _)) => error_fields_site(
                InputModel { tokens: content, ..input },
                source.inside(),
                attr.error,
            ),
        }
    } else {
        Some(at)
    }
}

/// Where a complaint about one argument is reported: at an unknown key or flag, or
/// at what comes next where a part is missing.
pub open spec fn attr_item_site(input: InputModel, source: Located, attr: AttrDraftModel) -> Option<
    Span,
> {
    match ident_step(input.tokens) {
        Err(_) => Some(source.here()),
        Ok((key, after)) => match punct_step(after, '=') {
            Some(value) => attr_value_site(
                key,
                source.front().here(),
                InputModel { tokens: value, ..input },
                behind_key(source),
                attr,
            ),
            None => Some(source.front().here()),
        },
    }
}

/// One argument, `key = value` or a flag.
pub open spec fn attr_item(input: InputModel, attr: AttrDraftModel) -> Result<
    (AttrDraftModel, InputModel),
    Messages,
> {
    match ident_step(input.tokens) {
        Err(m) => Err(m),
        Ok((key, after)) => match punct_step(after, '=') {
            Some(value) => attr_value(key, InputModel { tokens: value, ..input }, attr),
            None => if key == "meta"@ {
                Ok(
                    (
                        AttrDraftModel { include_meta: true, ..attr },
                        InputModel { tokens: after, ..input },
                    ),
                )
            } else {
                Err(seq!["unknown flag `"@ + key + "`"@])
            },
        },
    }
}

/// An argument leaves less to read.
pub proof fn lemma_attr_item_weight(input: InputModel, attr: AttrDraftModel)
    ensures
        attr_item(input, attr) matches Ok(step) ==> weight(step.1.tokens) < weight(input.tokens),
{
    lemma_step_weights(input.tokens);
    if let Ok((key, after)) = ident_step(input.tokens) {
        lemma_step_weights(after);
        if let Some(value) = punct_step(after, '=') {
            lemma_step_weights(value);
        }
    }
}

/// The arguments, separated by commas, up to the end of the input.
pub open spec fn attr_items(input: InputModel, attr: AttrDraftModel) -> Result<
    (AttrDraftModel, InputModel),
    Messages,
>
    decreases weight(input.tokens),
{
    if input.tokens.len() == 0 {
        Ok((attr, input))
    } else {
        match attr_item(input, attr) {
            Err(m) => Err(m),
            Ok((more, next)) => if next.tokens.len() == 0 {
                Ok((more, next))
            } else {
                match punct_step(next.tokens, ',') {
                    Some(rest) => {
                        proof {
                            lemma_attr_item_weight(input, attr);
                            lemma_step_weights(next.tokens);
                        }
                        attr_items(InputModel { tokens: rest, ..next }, more)
                    },
                    None => Err(seq!["expected `,`"@]),
                }
            },
        }
    }
}

/// Where a complaint about the arguments is reported.
pub open spec fn attr_items_site(
    input: InputModel,
    source: Located,
    attr: AttrDraftModel,
) -> Option<Span>
    decreases weight(input.tokens),
{
    if input.tokens.len() == 0 {
        None
    } else {
        match attr_item(input, attr) {
            Err(_) => attr_item_site(input, source, attr),
            Ok((more, next)) => {
                let behind = behind_item(source, next.tokens);
                match punct_step(next.tokens, ',') {
                    Some(rest) => {
                        proof {
                            lemma_attr_item_weight(input, attr);
                            lemma_step_weights(next.tokens);
                        }
                        attr_items_site(
                            InputModel { tokens: rest, ..next },
                            behind.behind(rest),
                            more,
                        )
                    },
                    None => if next.tokens.len() == 0 {
                        None
                    } else {
                        Some(behind.punct_site())
                    },
                }
            },
        }
    }
}

/// Where the complaint about tokens of the value behind `key =` that were not read is
/// reported, as far as it is not the parser's.
pub open spec fn attr_value_unread(
    key: Seq<char>,
    input: InputModel,
    source: Located,
    attr: AttrDraftModel,
) -> Option<Span> {
    if key == "status"@ {
        None
    } else {
        error_fields_unread(
            InputModel { tokens: source.inside().tokens, ..input },
            source.inside(),
            attr.error,
        )
    }
}

/// Where the complaint about tokens of an argument that were not read is reported.
pub open spec fn attr_item_unread(
    input: InputModel,
    source: Located,
    attr: AttrDraftModel,
) -> Option<Span> {
    match key_step(input.tokens) {
        Err(_) => None,
        Ok((key, value)) => attr_value_unread(
            key,
            InputModel { tokens: value, ..input },
            behind_key(source),
            attr,
        ),
    }
}

/// Where the complaint about tokens that were not read is reported, in the first
/// argument that has such tokens.
pub open spec fn attr_items_unread(
    input: InputModel,
    source: Located,
    attr: AttrDraftModel,
) -> Option<Span>
    decreases weight(input.tokens),
{
    if input.tokens.len() == 0 {
        None
    } else {
        match attr_item(input, attr) {
            Err(_) => None,
            Ok((more, next)) => if next.unexpected is Some {
                attr_item_unread(input, source, attr)
            } else {
                match punct_step(next.tokens, ',') {
                    Some(rest) => {
                        proof {
                            lemma_attr_item_weight(input, attr);
                            lemma_step_weights(next.tokens);
                        }
                        attr_items_unread(
                            InputModel { tokens: rest, ..next },
                            behind_item(source, next.tokens).behind(rest),
                            more,
                        )
                    },
                    None => None,
                }
            },
        }
    }
}

/// The arguments that have been read, if all that have to be there are.
pub open spec fn completed_attr(draft: AttrDraftModel) -> Result<ResponseAttrModel, Messages> {
    match (draft.status, draft.description) {
        (None, _) => Err(seq!["missing `status`"@]),
        (Some(_), None) => Err(seq!["missing `description`"@]),
        (Some(status), Some(description)) => Ok(
            ResponseAttrModel {
                status,
                description,
                summary: draft.summary,
                error_code: draft.error.code,
                error_message: draft.error.message,
                error_details: draft.error.details,
                include_meta: draft.include_meta,
            },
        ),
    }
}

/// Where a complaint about the tokens in `#[response(...)]` is reported, as far as it
/// is neither the parser's nor where the compiler joins several places. One about a
/// missing argument is reported at their end.
pub open spec fn response_attr_site(source: Located) -> Option<Span> {
    match attr_items(fresh(source.tokens), empty_attr()) {
        Err(_) => attr_items_site(fresh(source.tokens), source, empty_attr()),
        Ok((draft, _)) => if completed_attr(draft) is Err {
            Some(source.end)
        } else {
            attr_items_unread(fresh(source.tokens), source, empty_attr())
        },
    }
}

/// The arguments that the tokens in `#[response(...)]` say.
pub open spec fn response_attr(tokens: Seq<Tok>) -> Result<ResponseAttrModel, Messages> {
    match attr_items(fresh(tokens), empty_attr()) {
        Err(m) => Err(m),
        Ok((draft, end)) => match completed_attr(draft) {
            Err(m) => Err(m),
            Ok(attr) => concluded(Ok((attr, end))),
        },
    }
}

fn read_attr_value(key: &Ident, input: &mut Input, attr: &mut AttrDraft) -> (read: Result<
    (),
    MacroError,
>)
    ensures
        read is Ok ==> (attr_value(key@, old(input)@, old(attr)@) matches Ok(step) && step.0
            == final(attr)@ && step.1 == final(input)@) && final(input).located()
            == old(input).located().behind(final(input)@.tokens),
        read matches Err(e) ==> (attr_value(key@, old(input)@, old(attr)@) matches Err(m) && m
            == e@) && e.is_at(
            attr_value_site(
                key@,
                key.place(),
                old(input)@,
                old(input).located(),
                old(attr)@,
            ),
        ),
        read is Ok && old(input).unexpected is Some ==> final(input).unexpected
            == old(input).unexpected,
        read is Ok && old(input).unexpected is None ==> (final(input).unexpected matches Some(u)
            ==> u.is_at(
            attr_value_unread(key@, old(input)@, old(input).located(), old(attr)@),
        )),
{
    let name = key.to_text();
    if text_is(&name, "status") {
        let expr = match input.expr() {
            Ok(expr) => expr,
            Err(error) => return Err(error),
        };
        match status_from_expr(&expr) {
            Ok(code) => {
                attr.status = Some(code);
            },
            Err(error) => return Err(error),
        }
    } else if text_is(&name, "description") || text_is(&name, "summary") {
        let text = match input.string() {
            Ok(text) => text,
            Err(error) => return Err(error),
        };
        if text_is(&name, "description") {
            attr.description = Some(text);
        } else {
            attr.summary = Some(text);
        }
    } else if text_is(&name, "error") {
        let mut inner = match input.enter_parens() {
            Ok(inner) => inner,
            Err(error) => return Err(error),
        };
        match read_error_fields(&mut inner, &mut attr.error) {
            Ok(()) => {},
            Err(error) => return Err(error),
        }
        input.leave(inner);
    } else {
        let message = join3(
            "expected `status`, `description`, or `error`, found `",
            name.as_str(),
            "`",
        );
        return Err(MacroError::new(key.span(), message));
    }
    Ok(())
}

fn read_attr_item(input: &mut Input, attr: &mut AttrDraft) -> (read: Result<(), MacroError>)
    ensures
        read is Ok ==> (attr_item(old(input)@, old(attr)@) matches Ok(step) && step.0
            == final(attr)@ && step.1 == final(input)@) && final(input).located() == behind_item(
            old(input).located(),
            final(input)@.tokens,
        ),
        read matches Err(e) ==> (attr_item(old(input)@, old(attr)@) matches Err(m) && m == e@)
            && e.is_at(attr_item_site(old(input)@, old(input).located(), old(attr)@)),
        read is Ok && old(input).unexpected is Some ==> final(input).unexpected
            == old(input).unexpected,
        read is Ok && old(input).unexpected is None ==> (final(input).unexpected matches Some(u)
            ==> u.is_at(attr_item_unread(old(input)@, old(input).located(), old(attr)@))),
{
    let key = match input.ident() {
        Ok(key) => key,
        Err(error) => return Err(error),
    };
    if input.peek_eq() {
        match input.eq() {
            Ok(()) => {},
            Err(error) => return Err(error),
        }
        read_attr_value(&key, input, attr)
    } else {
        let name = key.to_text();
        if text_is(&name, "meta") {
            attr.include_meta = true;
            Ok(())
        } else {
            Err(MacroError::new(key.span(), join3("unknown flag `", name.as_str(), "`")))
        }
    }
}

impl ResponseAttr {
    /// Reads the tokens in `#[response(...)]`, which end where given.
    pub fn parse(tokens: TokenStream, end: Span) -> (attr: Result<ResponseAttr, MacroError>)
        ensures
            attr matches Ok(a) ==> (response_attr(trees(tokens)) matches Ok(model) && model == a@),
            attr matches Err(e) ==> (response_attr(trees(tokens)) matches Err(m) && m == e@)
                && e.is_at(response_attr_site(located(tokens, end))),
    {
        let mut input = Input::new(tokens, end);
        let mut attr = AttrDraft {
            status: None,
            description: None,
            summary: None,
            error: ErrorDraft { code: None, message: None, details: Vec::new() },
            include_meta: false,
        };
        assert(attr@.error.details =~= Seq::empty());
        while !input.is_empty()
            invariant
                attr_items(input@, attr@) == attr_items(fresh(trees(tokens)), empty_attr()),
                input.end == end,
                attr_items_site(input@, input.located(), attr@) == attr_items_site(
                    fresh(trees(tokens)),
                    located(tokens, end),
                    empty_attr(),
                ),
                (match input.unexpected {
                    Some(u) => u.is_at(
                        attr_items_unread(
                            fresh(trees(tokens)),
                            located(tokens, end),
                            empty_attr(),
                        ),
                    ),
                    None => attr_items_unread(input@, input.located(), attr@)
                        == attr_items_unread(
                        fresh(trees(tokens)),
                        located(tokens, end),
                        empty_attr(),
                    ),
                }),
            decreases weight(input@.tokens),
        {
            proof {
                lemma_attr_item_weight(input@, attr@);
            }
            match read_attr_item(&mut input, &mut attr) {
                Ok(()) => {},
                Err(error) => return Err(error),
            }
            if !input.is_empty() {
                proof {
                    lemma_step_weights(input@.tokens);
                }
                match input.comma() {
                    Ok(()) => {},
                    Err(error) => return Err(error),
                }
            }
        }
        let status = match attr.status {
            Some(status) => status,
            None => return Err(MacroError::new(input.span(), "missing `status`".to_owned())),
        };
        let description = match attr.description {
            Some(description) => description,
            None => return Err(MacroError::new(input.span(), "missing `description`".to_owned())),
        };
        match input.unexpected {
            Some(error) => Err(error),
            None => Ok(
                ResponseAttr {
                    status,
                    description,
                    summary: attr.summary,
                    error_code: attr.error.code,
                    error_message: attr.error.message,
                    error_details: attr.error.details,
                    include_meta: attr.include_meta,
                },
            ),
        }
    }
}

} // verus!
