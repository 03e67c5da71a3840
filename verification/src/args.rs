//! The arguments of `#[endpoint(...)]`.

use crate::error::{MacroError, Messages};
use crate::input::{
    complaint, concluded, expr_step, fresh, group_step, ident_step, lemma_step_weights, located,
    punct_step, string_step, type_step, weight, Input, InputModel, Located,
};
use crate::syntax::{
    segment_names, Expr, ExprKind, ExprKindModel, ExprModel, Type, TypeModel,
};
use crate::text::{ascii_lower, join3, lowercase, maybe, text_is};
use crate::tokens::{trees, Delimiter, Ident, Tok};
use proc_macro2::{Span, TokenStream};
use vstd::prelude::*;
use vstd::utf8::is_ascii_chars;

verus! {

// ---------------------------------------------------------------------------
// One response in full: `(status = 200, schema = T, description = "...")`
// ---------------------------------------------------------------------------

/// A response with explicit metadata.
pub struct ResponseDef {
    /// The status, a number or a constant of a status enum.
    pub status: Expr,
    pub schema: Type,
    pub description: Option<String>,
}

/// The model of a [`ResponseDef`].
pub struct ResponseDefModel {
    pub status: ExprModel,
    pub schema: TypeModel,
    pub description: Option<Seq<char>>,
}

impl View for ResponseDef {
    type V = ResponseDefModel;

    open spec fn view(&self) -> ResponseDefModel {
        ResponseDefModel {
            status: self.status@,
            schema: self.schema@,
            description: maybe(self.description),
        }
    }
}

/// What has been read of a response so far.
struct ResponseDraft {
    status: Option<Expr>,
    schema: Option<Type>,
    description: Option<String>,
}

/// The model of what has been read of a response so far.
pub struct ResponseDraftModel {
    pub status: Option<ExprModel>,
    pub schema: Option<TypeModel>,
    pub description: Option<Seq<char>>,
}

impl View for ResponseDraft {
    type V = ResponseDraftModel;

    closed spec fn view(&self) -> ResponseDraftModel {
        ResponseDraftModel {
            status: match self.status {
                Some(expr) => Some(expr@),
                None => None,
            },
            schema: match self.schema {
                Some(ty) => Some(ty@),
                None => None,
            },
            description: maybe(self.description),
        }
    }
}

/// A key that comes before `=`, and what follows the two.
pub open spec fn key_step(tokens: Seq<Tok>) -> Result<(Seq<char>, Seq<Tok>), Messages> {
    match ident_step(tokens) {
        Ok((key, after)) => match punct_step(after, '=') {
            Some(value) => Ok((key, value)),
            None => Err(seq!["expected `=`"@]),
        },
        Err(m) => Err(m),
    }
}

/// What follows a key and the `=` behind it.
pub open spec fn behind_key(source: Located) -> Located {
    let after = ident_step(source.tokens)->Ok_0.1;
    source.behind(after).behind(punct_step(after, '=')->0)
}

/// Where a complaint about a key and the `=` behind it is reported.
pub open spec fn key_site(source: Located) -> Span {
    match ident_step(source.tokens) {
        Err(_) => source.here(),
        Ok((_, after)) => source.behind(after).punct_site(),
    }
}

/// One `key = value` of a response.
pub open spec fn response_field(input: InputModel, draft: ResponseDraftModel) -> Result<
    (ResponseDraftModel, InputModel),
    Messages,
> {
    match key_step(input.tokens) {
        Err(m) => Err(m),
        Ok((key, value)) => {
            let input = InputModel { tokens: value, ..input };
            if key == "status"@ {
                match expr_step(input) {
                    Ok((expr, rest)) => Ok(
                        (ResponseDraftModel { status: Some(expr), ..draft }, rest),
                    ),
                    Err(m) => Err(m),
                }
            } else if key == "schema"@ {
                match type_step(input) {
                    Ok((ty, rest)) => Ok((ResponseDraftModel { schema: Some(ty), ..draft }, rest)),
                    Err(m) => Err(m),
                }
            } else if key == "description"@ {
                match string_step(value) {
                    Some((text, rest)) => Ok(
                        (
                            ResponseDraftModel { description: Some(text), ..draft },
                            InputModel { tokens: rest, ..input },
                        ),
                    ),
                    None => Err(seq![complaint(value, "expected string literal"@)]),
                }
            } else {
                Err(
                    seq![
                        "expected `status`, `schema`, or `description`, found `"@ + key + "`"@,
                    ],
                )
            }
        },
    }
}

/// Where a complaint about one `key = value` of a response is reported: at an
/// unknown key, or at what comes next where a part is missing. Those about an
/// expression or a type are the parser's.
pub open spec fn response_field_site(source: Located) -> Option<Span> {
    match key_step(source.tokens) {
        Err(_) => Some(key_site(source)),
        Ok((key, _)) => if key == "status"@ || key == "schema"@ {
            None
        } else if key == "description"@ {
            Some(behind_key(source).here())
        } else {
            Some(source.front().here())
        },
    }
}

/// A value is shorter than the `key = value` that it stands in.
pub proof fn lemma_response_field_weight(input: InputModel, draft: ResponseDraftModel)
    ensures
        response_field(input, draft) matches Ok(step) ==> weight(step.1.tokens) < weight(
            input.tokens,
        ),
{
    lemma_step_weights(input.tokens);
    if let Ok((key, after)) = ident_step(input.tokens) {
        lemma_step_weights(after);
        if let Some(value) = punct_step(after, '=') {
            lemma_step_weights(value);
        }
    }
}

/// The fields of a response, separated by commas, up to the end of the input.
pub open spec fn response_fields(input: InputModel, draft: ResponseDraftModel) -> Result<
    (ResponseDraftModel, InputModel),
    Messages,
>
    decreases weight(input.tokens),
{
    if input.tokens.len() == 0 {
        Ok((draft, input))
    } else {
        match response_field(input, draft) {
            Err(m) => Err(m),
            Ok((more, next)) => if next.tokens.len() == 0 {
                Ok((more, next))
            } else {
                match punct_step(next.tokens, ',') {
                    Some(rest) => {
                        proof {
                            lemma_response_field_weight(input, draft);
                            lemma_step_weights(next.tokens);
                        }
                        response_fields(InputModel { tokens: rest, ..next }, more)
                    },
                    None => Err(seq!["expected `,`"@]),
                }
            },
        }
    }
}

/// Where a complaint about the fields of a response is reported. `input` is what
/// `source` holds, with the complaint so far.
pub open spec fn response_fields_site(
    input: InputModel,
    source: Located,
    draft: ResponseDraftModel,
) -> Option<Span>
    decreases weight(input.tokens),
{
    if input.tokens.len() == 0 {
        None
    } else {
        match response_field(input, draft) {
            Err(_) => response_field_site(source),
            Ok((more, next)) => {
                let behind = behind_key(source).behind(next.tokens);
                match punct_step(next.tokens, ',') {
                    Some(rest) => {
                        proof {
                            lemma_response_field_weight(input, draft);
                            lemma_step_weights(next.tokens);
                        }
                        response_fields_site(
                            InputModel { tokens: rest, ..next },
                            behind.behind(rest),
                            more,
                        )
                    },
                    None => if next.tokens.len() == 0 {
                        None
                    } else {
                        Some(behind.punct_site())
                    },
                }
            },
        }
    }
}

/// The fields of a response before any has been read.
pub open spec fn no_fields() -> ResponseDraftModel {
    ResponseDraftModel { status: None, schema: None, description: None }
}

/// Where a complaint about a response in parentheses is reported; one about a
/// missing field behind the parentheses.
pub open spec fn response_def_site(input: InputModel, source: Located) -> Option<Span> {
    match group_step(input.tokens, Delimiter::Parenthesis) {
        None => Some(source.here()),
        Some((content, rest)) => {
            let inner = InputModel { tokens: content, ..input };
            if response_fields(inner, no_fields()) is Err {
                response_fields_site(inner, source.inside(), no_fields())
            } else {
                Some(source.behind(rest).here())
            }
        },
    }
}

/// A response in parentheses, and the input behind it.
pub open spec fn response_def(input: InputModel) -> Result<
    (ResponseDefModel, InputModel),
    Messages,
> {
    match group_step(input.tokens, Delimiter::Parenthesis) {
        None => Err(seq![complaint(input.tokens, "expected parentheses"@)]),
        Some((content, rest)) => match response_fields(
            InputModel { tokens: content, ..input },
            no_fields(),
        ) {
            Err(m) => Err(m),
            Ok((draft, inner)) => match (draft.status, draft.schema) {
                (None, _) => Err(seq!["missing `status` in response"@]),
                (Some(_), None) => Err(seq!["missing `schema` in response"@]),
                (Some(status), Some(schema)) => Ok(
                    (
                        ResponseDefModel { status, schema, description: draft.description },
                        InputModel { tokens: rest, unexpected: inner.unexpected },
                    ),
                ),
            },
        },
    }
}

/// Reads a key and the `=` behind it.
pub(crate) fn read_key(input: &mut Input) -> (key: Result<Ident, MacroError>)
    ensures
        final(input).unexpected == old(input).unexpected,
        key matches Ok(k) ==> (key_step(old(input)@.tokens) matches Ok(step) && step.0 == k@
            && step.1 == final(input)@.tokens) && final(input).located() == behind_key(
            old(input).located(),
        ) && k.place() == old(input).located().front().here(),
        key matches Err(e) ==> (key_step(old(input)@.tokens) matches Err(m) && m == e@) && e.place()
            == key_site(old(input).located()),
{
    let key = match input.ident() {
        Ok(key) => key,
        Err(error) => return Err(error),
    };
    match input.eq() {
        Ok(()) => Ok(key),
        Err(error) => Err(error),
    }
}

fn read_response_field(input: &mut Input, draft: &mut ResponseDraft) -> (read: Result<
    (),
    MacroError,
>)
    ensures
        read is Ok ==> (response_field(old(input)@, old(draft)@) matches Ok(step) && step.0
            == final(draft)@ && step.1 == final(input)@) && final(input).located() == behind_key(
            old(input).located(),
        ).behind(final(input)@.tokens),
        read matches Err(e) ==> (response_field(old(input)@, old(draft)@) matches Err(m) && m
            == e@) && e.is_at(response_field_site(old(input).located())),
{
    let key = match read_key(input) {
        Ok(key) => key,
        Err(error) => return Err(error),
    };
    let name = key.to_text();
    if text_is(&name, "status") {
        match input.expr() {
            Ok(expr) => {
                draft.status = Some(expr);
            },
            Err(error) => return Err(error),
        }
    } else if text_is(&name, "schema") {
        match input.ty() {
            Ok(ty) => {
                draft.schema = Some(ty);
            },
            Err(error) => return Err(error),
        }
    } else if text_is(&name, "description") {
        match input.string() {
            Ok(text) => {
                draft.description = Some(text);
            },
            Err(error) => return Err(error),
        }
    } else {
        let message = join3(
            "expected `status`, `schema`, or `description`, found `",
            name.as_str(),
            "`",
        );
        return Err(MacroError::new(key.span(), message));
    }
    Ok(())
}

fn read_response_fields(input: &mut Input, draft: &mut ResponseDraft) -> (read: Result<
    (),
    MacroError,
>)
    ensures
        read is Ok ==> (response_fields(old(input)@, old(draft)@) matches Ok(step) && step.0
            == final(draft)@ && step.1 == final(input)@),
        read matches Err(e) ==> (response_fields(old(input)@, old(draft)@) matches Err(m) && m
            == e@) && e.is_at(
            response_fields_site(old(input)@, old(input).located(), old(draft)@),
        ),
{
    while !input.is_empty()
        invariant
            response_fields(input@, draft@) == response_fields(old(input)@, old(draft)@),
            response_fields_site(input@, input.located(), draft@) == response_fields_site(
                old(input)@,
                old(input).located(),
                old(draft)@,
            ),
        decreases weight(input@.tokens),
    {
        proof {
            lemma_response_field_weight(input@, draft@);
        }
        match read_response_field(input, draft) {
            Ok(()) => {},
            Err(error) => return Err(error),
        }
        if !input.is_empty() {
            proof {
                lemma_step_weights(input@.tokens);
            }
            match input.comma() {
                Ok(()) => {},
                Err(error) => return Err(error),
            }
        }
    }
    Ok(())
}

impl ResponseDef {
    /// Reads a response in parentheses.
    pub fn parse(input: &mut Input) -> (def: Result<ResponseDef, MacroError>)
        ensures
            def matches Ok(d) ==> (response_def(old(input)@) matches Ok(step) && step.0 == d@
                && step.1 == final(input)@) && final(input).located()
                == old(input).located().behind(final(input)@.tokens),
            def matches Err(e) ==> (response_def(old(input)@) matches Err(m) && m == e@) && e.is_at(
                response_def_site(old(input)@, old(input).located()),
            ),
    {
        let mut inner = match input.enter_parens() {
            Ok(inner) => inner,
            Err(error) => return Err(error),
        };
        let mut draft = ResponseDraft { status: None, schema: None, description: None };
        match read_response_fields(&mut inner, &mut draft) {
            Ok(()) => {},
            Err(error) => return Err(error),
        }
        input.leave(inner);
        let status = match draft.status {
            Some(status) => status,
            None => return Err(
                MacroError::new(input.span(), "missing `status` in response".to_owned()),
            ),
        };
        let schema = match draft.schema {
            Some(schema) => schema,
            None => return Err(
                MacroError::new(input.span(), "missing `schema` in response".to_owned()),
            ),
        };
        Ok(ResponseDef { status, schema, description: draft.description })
    }
}

// ---------------------------------------------------------------------------
// The list of responses
// ---------------------------------------------------------------------------

/// A response: a type that knows its own status and description, or one with
/// explicit metadata.
pub enum ResponseEntry {
    Full(ResponseDef),
    Bare(Type),
}

/// The model of a [`ResponseEntry`].
pub enum ResponseEntryModel {
    Full(ResponseDefModel),
    Bare(TypeModel),
}

impl View for ResponseEntry {
    type V = ResponseEntryModel;

    open spec fn view(&self) -> ResponseEntryModel {
        match self {
            ResponseEntry::Full(def) => ResponseEntryModel::Full(def@),
            ResponseEntry::Bare(ty) => ResponseEntryModel::Bare(ty@),
        }
    }
}

/// The views of a list of responses.
pub open spec fn entry_views(entries: Seq<ResponseEntry>) -> Seq<ResponseEntryModel> {
    entries.map_values(|entry: ResponseEntry| entry@)
}

/// A response, and the input behind it. One in parentheses is one in full.
pub open spec fn response_entry(input: InputModel) -> Result<
    (ResponseEntryModel, InputModel),
    Messages,
> {
    if group_step(input.tokens, Delimiter::Parenthesis) is Some {
        match response_def(input) {
            Ok((def, rest)) => Ok((ResponseEntryModel::Full(def), rest)),
            Err(m) => Err(m),
        }
    } else {
        match type_step(input) {
            Ok((ty, rest)) => Ok((ResponseEntryModel::Bare(ty), rest)),
            Err(m) => Err(m),
        }
    }
}

/// Where a complaint about a response is reported; one about a type is the parser's.
pub open spec fn response_entry_site(input: InputModel, source: Located) -> Option<Span> {
    if group_step(input.tokens, Delimiter::Parenthesis) is Some {
        response_def_site(input, source)
    } else {
        None
    }
}

/// Where a complaint about a list of responses is reported.
pub open spec fn response_entries_site(input: InputModel, source: Located) -> Option<Span>
    decreases weight(input.tokens),
{
    if input.tokens.len() == 0 {
        None
    } else {
        match response_entry(input) {
            Err(_) => response_entry_site(input, source),
            Ok((_, next)) => {
                let behind = source.behind(next.tokens);
                match punct_step(next.tokens, ',') {
                    Some(rest) => {
                        proof {
                            lemma_step_weights(input.tokens);
                            lemma_step_weights(next.tokens);
                        }
                        response_entries_site(
                            InputModel { tokens: rest, ..next },
                            behind.behind(rest),
                        )
                    },
                    None => if next.tokens.len() == 0 {
                        None
                    } else {
                        Some(behind.punct_site())
                    },
                }
            },
        }
    }
}

/// The responses behind those in `entries`, separated by commas, up to the end
/// of the input.
pub open spec fn response_entries(
    input: InputModel,
    entries: Seq<ResponseEntryModel>,
) -> Result<(Seq<ResponseEntryModel>, InputModel), Messages>
    decreases weight(input.tokens),
{
    if input.tokens.len() == 0 {
        Ok((entries, input))
    } else {
        match response_entry(input) {
            Err(m) => Err(m),
            Ok((entry, next)) => if next.tokens.len() == 0 {
                Ok((entries.push(entry), next))
            } else {
                match punct_step(next.tokens, ',') {
                    Some(rest) => {
                        proof {
                            lemma_step_weights(input.tokens);
                            lemma_step_weights(next.tokens);
                        }
                        response_entries(
                            InputModel { tokens: rest, ..next },
                            entries.push(entry),
                        )
                    },
                    None => Err(seq!["expected `,`"@]),
                }
            },
        }
    }
}

impl ResponseEntry {
    /// Reads a response.
    pub fn parse(input: &mut Input) -> (entry: Result<ResponseEntry, MacroError>)
        ensures
            entry matches Ok(r) ==> (response_entry(old(input)@) matches Ok(step) && step.0 == r@
                && step.1 == final(input)@) && final(input).located()
                == old(input).located().behind(final(input)@.tokens),
            entry matches Err(e) ==> (response_entry(old(input)@) matches Err(m) && m == e@)
                && e.is_at(response_entry_site(old(input)@, old(input).located())),
    {
        if input.peek_parens() {
            match ResponseDef::parse(input) {
                Ok(def) => Ok(ResponseEntry::Full(def)),
                Err(error) => Err(error),
            }
        } else {
            match input.ty() {
                Ok(ty) => Ok(ResponseEntry::Bare(ty)),
                Err(error) => Err(error),
            }
        }
    }
}

fn read_response_entries(input: &mut Input) -> (entries: Result<Vec<ResponseEntry>, MacroError>)
    ensures
        entries matches Ok(list) ==> (response_entries(old(input)@, Seq::empty()) matches Ok(step)
            && step.0 == entry_views(list@) && step.1 == final(input)@),
        entries matches Err(e) ==> (response_entries(old(input)@, Seq::empty()) matches Err(m) && m
            == e@) && e.is_at(response_entries_site(old(input)@, old(input).located())),
{
    let mut list: Vec<ResponseEntry> = Vec::new();
    assert(entry_views(list@) =~= Seq::empty());
    while !input.is_empty()
        invariant
            response_entries(input@, entry_views(list@)) == response_entries(
                old(input)@,
                Seq::empty(),
            ),
            response_entries_site(input@, input.located()) == response_entries_site(
                old(input)@,
                old(input).located(),
            ),
        decreases weight(input@.tokens),
    {
        proof {
            lemma_step_weights(input@.tokens);
        }
        let ghost before = list@;
        match ResponseEntry::parse(input) {
            Ok(entry) => {
                list.push(entry);
            },
            Err(error) => return Err(error),
        }
        assert(entry_views(list@) =~= entry_views(before).push(list@.last()@));
        if !input.is_empty() {
            proof {
                lemma_step_weights(input@.tokens);
            }
            match input.comma() {
                Ok(()) => {},
                Err(error) => return Err(error),
            }
        } else {
            return Ok(list);
        }
    }
    Ok(list)
}

// ---------------------------------------------------------------------------
// All arguments
// ---------------------------------------------------------------------------

/// The arguments of `#[endpoint(...)]`.
pub struct OpenApiArgs {
    pub path: Option<String>,
    pub method: String,
    pub tag: Option<String>,
    pub summary: Option<String>,
    pub description: Option<String>,
    pub deprecated: bool,
    pub request: Option<Type>,
    pub request_desc: Option<String>,
    pub responses: Vec<ResponseEntry>,
}

/// The model of [`OpenApiArgs`].
pub struct OpenApiArgsModel {
    pub path: Option<Seq<char>>,
    pub method: Seq<char>,
    pub tag: Option<Seq<char>>,
    pub summary: Option<Seq<char>>,
    pub description: Option<Seq<char>>,
    pub deprecated: bool,
    pub request: Option<TypeModel>,
    pub request_desc: Option<Seq<char>>,
    pub responses: Seq<ResponseEntryModel>,
}

/// The view of an optional type.
pub open spec fn maybe_type(ty: Option<Type>) -> Option<TypeModel> {
    match ty {
        Some(t) => Some(t@),
        None => None,
    }
}

impl View for OpenApiArgs {
    type V = OpenApiArgsModel;

    open spec fn view(&self) -> OpenApiArgsModel {
        OpenApiArgsModel {
            path: maybe(self.path),
            method: self.method@,
            tag: maybe(self.tag),
            summary: maybe(self.summary),
            description: maybe(self.description),
            deprecated: self.deprecated,
            request: maybe_type(self.request),
            request_desc: maybe(self.request_desc),
            responses: entry_views(self.responses@),
        }
    }
}

/// What holds where an argument is left out; the method is then `get`.
pub open spec fn default_args() -> OpenApiArgsModel {
    OpenApiArgsModel {
        path: None,
        method: "get"@,
        tag: None,
        summary: None,
        description: None,
        deprecated: false,
        request: None,
        request_desc: None,
        responses: Seq::empty(),
    }
}

/// The HTTP verb in lower case that the value of `method` stands for: a string
/// or the last segment of a path.
pub open spec fn method_of(kind: ExprKindModel) -> Result<Seq<char>, Messages> {
    match kind {
        ExprKindModel::Str(value) => Ok(lowercase(value)),
        ExprKindModel::Path(names) => if names.len() == 0 {
            Err(seq!["expected `Method::POST`"@])
        } else {
            Ok(lowercase(names.last()))
        },
        ExprKindModel::Int(_) => Err(seq!["expected a string like `\"post\"`"@]),
        ExprKindModel::Lit => Err(seq!["expected a string like `\"post\"`"@]),
        ExprKindModel::Other => Err(seq!["expected `\"post\"` or `Method::POST`"@]),
    }
}

/// The text or the name that the value of `method` consists of.
pub open spec fn method_word(kind: ExprKindModel) -> Option<Seq<char>> {
    match kind {
        ExprKindModel::Str(value) => Some(value),
        ExprKindModel::Path(names) => if names.len() == 0 {
            None
        } else {
            Some(names.last())
        },
        _ => None,
    }
}

/// Normalizes the value of `method`: `"post"` and `Method::POST` both become
/// `"post"`.
pub fn method_from_expr(expr: &Expr) -> (method: Result<String, MacroError>)
    ensures
        method_word(expr@.kind) matches Some(word) ==> (is_ascii_chars(word) ==> (method matches Ok(
            text,
        ) && text@ == word.map_values(|c: char| ascii_lower(c)))),
        method matches Ok(text) ==> (method_of(expr@.kind) matches Ok(t) && t == text@),
        method matches Err(e) ==> (method_of(expr@.kind) matches Err(m) && m == e@) && e.place() == expr.span,
{
    match &expr.kind {
        ExprKind::Str(value) => Ok(value.as_str().to_lowercase()),
        ExprKind::Path(segments) => {
            if segments.len() == 0 {
                return Err(MacroError::new(expr.span, "expected `Method::POST`".to_owned()));
            }
            let last = &segments[segments.len() - 1];
            assert(segment_names(segments@).last() == last.ident@);
            Ok(last.ident.as_str().to_lowercase())
        },
        ExprKind::Other => Err(
            MacroError::new(expr.span, "expected `\"post\"` or `Method::POST`".to_owned()),
        ),
        _ => Err(MacroError::new(expr.span, "expected a string like `\"post\"`".to_owned())),
    }
}

/// The arguments whose value is a string.
pub open spec fn is_string_key(key: Seq<char>) -> bool {
    key == "path"@ || key == "tag"@ || key == "summary"@ || key == "description"@ || key
        == "request_desc"@
}

/// The arguments with the one under a string key set.
pub open spec fn with_string(args: OpenApiArgsModel, key: Seq<char>, value: Seq<char>) ->
    OpenApiArgsModel {
    if key == "path"@ {
        OpenApiArgsModel { path: Some(value), ..args }
    } else if key == "tag"@ {
        OpenApiArgsModel { tag: Some(value), ..args }
    } else if key == "summary"@ {
        OpenApiArgsModel { summary: Some(value), ..args }
    } else if key == "description"@ {
        OpenApiArgsModel { description: Some(value), ..args }
    } else {
        OpenApiArgsModel { request_desc: Some(value), ..args }
    }
}

/// The value behind `key =`, put into the arguments.
pub open spec fn args_value(key: Seq<char>, input: InputModel, args: OpenApiArgsModel) -> Result<
    (OpenApiArgsModel, InputModel),
    Messages,
> {
    if is_string_key(key) {
        match string_step(input.tokens) {
            Some((value, rest)) => Ok(
                (with_string(args, key, value), InputModel { tokens: rest, ..input }),
            ),
            None => Err(seq![complaint(input.tokens, "expected string literal"@)]),
        }
    } else if key == "method"@ {
        match expr_step(input) {
            Ok((expr, rest)) => match method_of(expr.kind) {
                Ok(method) => Ok((OpenApiArgsModel { method, ..args }, rest)),
                Err(m) => Err(m),
            },
            Err(m) => Err(m),
        }
    } else if key == "request"@ {
        match type_step(input) {
            Ok((ty, rest)) => Ok((OpenApiArgsModel { request: Some(ty), ..args }, rest)),
            Err(m) => Err(m),
        }
    } else if key == "responses"@ {
        match group_step(input.tokens, Delimiter::Parenthesis) {
            None => Err(seq![complaint(input.tokens, "expected parentheses"@)]),
            Some((content, rest)) => match response_entries(
                InputModel { tokens: content, ..input },
                Seq::empty(),
            ) {
                Ok((responses, inner)) => Ok(
                    (
                        OpenApiArgsModel { responses, ..args },
                        InputModel { tokens: rest, unexpected: inner.unexpected },
                    ),
                ),
                Err(m) => Err(m),
            },
        }
    } else {
        Err(seq!["unknown key `"@ + key + "`"@])
    }
}

/// Where a complaint about the value behind `key =` is reported; `at` is the place of
/// the key. A complaint about a method that is more than one token stands where the
/// compiler joins their places.
pub open spec fn args_value_site(
    key: Seq<char>,
    at: Span,
    input: InputModel,
    source: Located,
) -> Option<Span> {
    if is_string_key(key) {
        Some(source.here())
    } else if key == "method"@ {
        match expr_step(input) {
            Ok((expr, _)) => if expr.tokens.len() == 1 {
                source.last_site(expr.tokens)
            } else {
                None
            },
            Err(_) => None,
        }
    } else if key == "request"@ {
        None
    } else if key == "responses"@ {
        match group_step(input.tokens, Delimiter::Parenthesis) {
            None => Some(source.here()),
            Some((content, _)) => response_entries_site(
                InputModel { tokens: content, ..input },
                source.inside(),
            ),
        }
    } else {
        Some(at)
    }
}

/// Where a complaint about one argument is reported: at an unknown key or flag, or
/// at what comes next where a part is missing.
pub open spec fn args_item_site(input: InputModel, source: Located) -> Option<Span> {
    match ident_step(input.tokens) {
        Err(_) => Some(source.here()),
        Ok((key, after)) => match punct_step(after, '=') {
            Some(value) => args_value_site(
                key,
                source.front().here(),
                InputModel { tokens: value, ..input },
                behind_key(source),
            ),
            None => Some(source.front().here()),
        },
    }
}

/// What follows one argument that leaves `rest`.
pub open spec fn behind_item(source: Located, rest: Seq<Tok>) -> Located {
    let after = ident_step(source.tokens)->Ok_0.1;
    if punct_step(after, '=') is Some {
        behind_key(source).behind(rest)
    } else {
        source.behind(rest)
    }
}

/// One argument, `key = value` or a flag.
pub open spec fn args_item(input: InputModel, args: OpenApiArgsModel) -> Result<
    (OpenApiArgsModel, InputModel),
    Messages,
> {
    match ident_step(input.tokens) {
        Err(m) => Err(m),
        Ok((key, after)) => match punct_step(after, '=') {
            Some(value) => args_value(key, InputModel { tokens: value, ..input }, args),
            None => if key == "deprecated"@ {
                Ok(
                    (
                        OpenApiArgsModel { deprecated: true, ..args },
                        InputModel { tokens: after, ..input },
                    ),
                )
            } else {
                Err(seq!["unknown flag `"@ + key + "`"@])
            },
        },
    }
}

/// An argument leaves less to read.
pub proof fn lemma_args_item_weight(input: InputModel, args: OpenApiArgsModel)
    ensures
        args_item(input, args) matches Ok(step) ==> weight(step.1.tokens) < weight(input.tokens),
{
    lemma_step_weights(input.tokens);
    if let Ok((key, after)) = ident_step(input.tokens) {
        lemma_step_weights(after);
        if let Some(value) = punct_step(after, '=') {
            lemma_step_weights(value);
        }
    }
}

/// The arguments, separated by commas, up to the end of the input; a later one
/// takes the place of an earlier one under the same key.
pub open spec fn args_items(input: InputModel, args: OpenApiArgsModel) -> Result<
    (OpenApiArgsModel, InputModel),
    Messages,
>
    decreases weight(input.tokens),
{
    if input.tokens.len() == 0 {
        Ok((args, input))
    } else {
        match args_item(input, args) {
            Err(m) => Err(m),
            Ok((more, next)) => if next.tokens.len() == 0 {
                Ok((more, next))
            } else {
                match punct_step(next.tokens, ',') {
                    Some(rest) => {
                        proof {
                            lemma_args_item_weight(input, args);
                            lemma_step_weights(next.tokens);
                        }
                        args_items(InputModel { tokens: rest, ..next }, more)
                    },
                    None => Err(seq!["expected `,`"@]),
                }
            },
        }
    }
}

/// Where a complaint about the arguments is reported.
pub open spec fn args_items_site(
    input: InputModel,
    source: Located,
    args: OpenApiArgsModel,
) -> Option<Span>
    decreases weight(input.tokens),
{
    if input.tokens.len() == 0 {
        None
    } else {
        match args_item(input, args) {
            Err(_) => args_item_site(input, source),
            Ok((more, next)) => {
                let behind = behind_item(source, next.tokens);
                match punct_step(next.tokens, ',') {
                    Some(rest) => {
                        proof {
                            lemma_args_item_weight(input, args);
                            lemma_step_weights(next.tokens);
                        }
                        args_items_site(
                            InputModel { tokens: rest, ..next },
                            behind.behind(rest),
                            more,
                        )
                    },
                    None => if next.tokens.len() == 0 {
                        None
                    } else {
                        Some(behind.punct_site())
                    },
                }
            },
        }
    }
}

/// Where a complaint about the tokens in `#[endpoint(...)]` is reported, as far as it
/// is neither the parser's nor where the compiler joins several places.
pub open spec fn endpoint_args_site(source: Located) -> Option<Span> {
    args_items_site(fresh(source.tokens), source, default_args())
}

/// The arguments that the tokens in `#[endpoint(...)]` say.
pub open spec fn endpoint_args(tokens: Seq<Tok>) -> Result<OpenApiArgsModel, Messages> {
    concluded(args_items(fresh(tokens), default_args()))
}

fn read_args_value(key: &Ident, input: &mut Input, args: &mut OpenApiArgs) -> (read: Result<
    (),
    MacroError,
>)
    ensures
        read is Ok ==> (args_value(key@, old(input)@, old(args)@) matches Ok(step) && step.0
            == final(args)@ && step.1 == final(input)@) && final(input).located()
            == old(input).located().behind(final(input)@.tokens),
        read matches Err(e) ==> (args_value(key@, old(input)@, old(args)@) matches Err(m) && m
            == e@) && e.is_at(
            args_value_site(key@, key.place(), old(input)@, old(input).located()),
        ),
{
    let name = key.to_text();
    if text_is(&name, "path") || text_is(&name, "tag") || text_is(&name, "summary") || text_is(
        &name,
        "description",
    ) || text_is(&name, "request_desc") {
        let value = match input.string() {
            Ok(value) => value,
            Err(error) => return Err(error),
        };
        if text_is(&name, "path") {
            args.path = Some(value);
        } else if text_is(&name, "tag") {
            args.tag = Some(value);
        } else if text_is(&name, "summary") {
            args.summary = Some(value);
        } else if text_is(&name, "description") {
            args.description = Some(value);
        } else {
            args.request_desc = Some(value);
        }
    } else if text_is(&name, "method") {
        let expr = match input.expr() {
            Ok(expr) => expr,
            Err(error) => return Err(error),
        };
        match method_from_expr(&expr) {
            Ok(method) => {
                args.method = method;
            },
            Err(error) => return Err(error),
        }
    } else if text_is(&name, "request") {
        match input.ty() {
            Ok(ty) => {
                args.request = Some(ty);
            },
            Err(error) => return Err(error),
        }
    } else if text_is(&name, "responses") {
        let mut inner = match input.enter_parens() {
            Ok(inner) => inner,
            Err(error) => return Err(error),
        };
        match read_response_entries(&mut inner) {
            Ok(responses) => {
                args.responses = responses;
            },
            Err(error) => return Err(error),
        }
        input.leave(inner);
    } else {
        return Err(MacroError::new(key.span(), join3("unknown key `", name.as_str(), "`")));
    }
    Ok(())
}

fn read_args_item(input: &mut Input, args: &mut OpenApiArgs) -> (read: Result<(), MacroError>)
    ensures
        read is Ok ==> (args_item(old(input)@, old(args)@) matches Ok(step) && step.0
            == final(args)@ && step.1 == final(input)@) && final(input).located() == behind_item(
            old(input).located(),
            final(input)@.tokens,
        ),
        read matches Err(e) ==> (args_item(old(input)@, old(args)@) matches Err(m) && m == e@)
            && e.is_at(args_item_site(old(input)@, old(input).located())),
{
    let key = match input.ident() {
        Ok(key) => key,
        Err(error) => return Err(error),
    };
    if input.peek_eq() {
        match input.eq() {
            Ok(()) => {},
            Err(error) => return Err(error),
        }
        read_args_value(&key, input, args)
    } else {
        let name = key.to_text();
        if text_is(&name, "deprecated") {
            args.deprecated = true;
            Ok(())
        } else {
            Err(MacroError::new(key.span(), join3("unknown flag `", name.as_str(), "`")))
        }
    }
}

impl OpenApiArgs {
    /// Reads the tokens in `#[endpoint(...)]`, which end where given.
    pub fn parse(tokens: TokenStream, end: Span) -> (args: Result<OpenApiArgs, MacroError>)
        ensures
            args matches Ok(a) ==> (endpoint_args(trees(tokens)) matches Ok(model) && model == a@),
            args matches Err(e) ==> (endpoint_args(trees(tokens)) matches Err(m) && m == e@)
                && e.is_at(endpoint_args_site(located(tokens, end))),
    {
        let mut input = Input::new(tokens, end);
        let mut args = OpenApiArgs {
            path: None,
            method: "get".to_owned(),
            tag: None,
            summary: None,
            description: None,
            deprecated: false,
            request: None,
            request_desc: None,
            responses: Vec::new(),
        };
        assert(args@.responses =~= Seq::empty());
        while !input.is_empty()
            invariant
                args_items(input@, args@) == args_items(fresh(trees(tokens)), default_args()),
                args_items_site(input@, input.located(), args@) == endpoint_args_site(
                    located(tokens, end),
                ),
            decreases weight(input@.tokens),
        {
            proof {
                lemma_args_item_weight(input@, args@);
            }
            match read_args_item(&mut input, &mut args) {
                Ok(()) => {},
                Err(error) => return Err(error),
            }
            if !input.is_empty() {
                proof {
                    lemma_step_weights(input@.tokens);
                }
                match input.comma() {
                    Ok(()) => {},
                    Err(error) => return Err(error),
                }
            }
        }
        match input.unexpected {
            Some(error) => Err(error),
            None => Ok(args),
        }
    }
}

} // verus!
