//! The order of a macro's arguments is of no account.

use crate::args::{
    args_item, args_items, default_args, endpoint_args, is_string_key, method_of, response_entries,
    OpenApiArgsModel, ResponseEntryModel,
};
use crate::error::Messages;
use crate::input::{
    expr_step, fresh, group_step, is_keyword, lemma_keyword_shapes, opened, punct_step,
    string_step, type_step, InputModel,
};
use crate::response_attr::{
    attr_item, attr_items, empty_attr, error_fields, response_attr, AttrDraftModel,
    ErrorDraftModel,
};
use crate::status::status_of;
use crate::syntax::{ExprModel, TypeModel};
use crate::tokens::{Delimiter, Tok};
use vstd::prelude::*;

verus! {

// ---------------------------------------------------------------------------
// Lists of arguments
// ---------------------------------------------------------------------------

/// An argument that sets something, under a key.
pub trait Setting<M>: Sized {
    /// The key that the argument stands under.
    spec fn key(self) -> Seq<char>;

    /// What is set, with this argument set too.
    spec fn set(self, known: M) -> M;

    /// Arguments under different keys do not get in each other's way.
    proof fn sets_commute(one: Self, other: Self, known: M)
        requires
            one.key() != other.key(),
        ensures
            one.set(other.set(known)) == other.set(one.set(known)),
    ;
}

/// An argument as it is written, and what it says.
pub struct Item<A> {
    pub tokens: Seq<Tok>,
    pub argument: A,
}

/// Whether an argument can end here: there is nothing more, or there is a comma.
pub open spec fn is_end(rest: Seq<Tok>) -> bool {
    rest.len() == 0 || (rest[0] is Punct && rest[0]->Punct_0 == ',')
}

/// Whether no two items of a list have the same key.
pub open spec fn keys_differ<M, A: Setting<M>>(items: Seq<Item<A>>) -> bool {
    forall|i: int, j: int|
        0 <= i < items.len() && 0 <= j < items.len() && i != j ==> (
        #[trigger] items[i]).argument.key() != (#[trigger] items[j]).argument.key()
}

/// A comma.
pub open spec fn comma() -> Seq<Tok> {
    seq![Tok::Punct(',', false)]
}

/// The items with commas between them, and one behind the last if `trailing`.
pub open spec fn listed<A>(items: Seq<Item<A>>, trailing: bool) -> Seq<Tok>
    decreases items.len(), 1nat,
{
    if items.len() == 0 {
        Seq::empty()
    } else {
        items[0].tokens + behind_first(items, trailing)
    }
}

/// What stands behind the first item of a list.
pub open spec fn behind_first<A>(items: Seq<Item<A>>, trailing: bool) -> Seq<Tok>
    decreases items.len(), 0nat,
{
    if items.len() > 1 || (items.len() == 1 && trailing) {
        comma() + listed(items.skip(1), trailing)
    } else {
        Seq::empty()
    }
}

/// What is set once the items have been read, one after the other.
pub open spec fn all_set<M, A: Setting<M>>(items: Seq<Item<A>>, known: M) -> M
    decreases items.len(),
{
    if items.len() == 0 {
        known
    } else {
        all_set(items.skip(1), items[0].argument.set(known))
    }
}

/// An item can as well come first, if no item in front of it has its key.
proof fn lemma_moved_to_front<M, A: Setting<M>>(items: Seq<Item<A>>, k: int, known: M)
    requires
        keys_differ::<M, A>(items),
        0 <= k < items.len(),
    ensures
        all_set(items, known) == all_set(items.remove(k), items[k].argument.set(known)),
    decreases k,
{
    let more = items.skip(1);
    if k == 0 {
        assert(items.remove(0) =~= more);
    } else {
        lemma_tail_keys_differ::<M, A>(items, 0);
        assert(items.remove(0) =~= more);
        lemma_moved_to_front(more, k - 1, items[0].argument.set(known));
        assert(more[k - 1] == items[k]);
        assert(items.remove(k).skip(1) =~= more.remove(k - 1));
        A::sets_commute(items[k].argument, items[0].argument, known);
    }
}

/// Taking an item off a list leaves keys that differ.
proof fn lemma_tail_keys_differ<M, A: Setting<M>>(items: Seq<Item<A>>, k: int)
    requires
        keys_differ::<M, A>(items),
        0 <= k < items.len(),
    ensures
        keys_differ::<M, A>(items.remove(k)),
{
    let left = items.remove(k);
    assert forall|i: int, j: int|
        0 <= i < left.len() && 0 <= j < left.len() && i != j implies (
    #[trigger] left[i]).argument.key() != (#[trigger] left[j]).argument.key() by {
        let a = if i < k {
            i
        } else {
            i + 1
        };
        let b = if j < k {
            j
        } else {
            j + 1
        };
        assert(left[i] == items[a] && left[j] == items[b]);
    }
}

/// Items under different keys set the same in every order.
proof fn lemma_any_order<M, A: Setting<M>>(items: Seq<Item<A>>, others: Seq<Item<A>>, known: M)
    requires
        keys_differ::<M, A>(items),
        items.to_multiset() == others.to_multiset(),
    ensures
        all_set(items, known) == all_set(others, known),
    decreases others.len(),
{
    broadcast use vstd::seq_lib::group_to_multiset_ensures;

    assert(items.len() == items.to_multiset().len());
    assert(others.len() == others.to_multiset().len());
    if others.len() > 0 {
        assert(others.contains(others[0]));
        assert(others.to_multiset().count(others[0]) > 0);
        assert(items.to_multiset().count(others[0]) > 0);
        let k = choose|k: int| 0 <= k < items.len() && items[k] == others[0];
        lemma_moved_to_front(items, k, known);
        lemma_tail_keys_differ::<M, A>(items, k);
        assert(others.skip(1) =~= others.remove(0));
        assert(items.remove(k).to_multiset() == items.to_multiset().remove(items[k]));
        assert(others.remove(0).to_multiset() == others.to_multiset().remove(others[0]));
        lemma_any_order(items.remove(k), others.skip(1), others[0].argument.set(known));
    }
}

/// Lists of the same items hold the same items.
proof fn lemma_same_items<A>(items: Seq<Item<A>>, others: Seq<Item<A>>, j: int)
    requires
        items.to_multiset() == others.to_multiset(),
        0 <= j < others.len(),
    ensures
        items.contains(others[j]),
{
    broadcast use vstd::seq_lib::group_to_multiset_ensures;

    assert(others.contains(others[j]));
    assert(others.to_multiset().count(others[j]) > 0);
    assert(items.to_multiset().count(others[j]) > 0);
}

/// Reading one list behind another sets what both set.
proof fn lemma_all_set_append<M, A: Setting<M>>(
    before: Seq<Item<A>>,
    after: Seq<Item<A>>,
    known: M,
)
    ensures
        all_set(before + after, known) == all_set(after, all_set(before, known)),
    decreases before.len(),
{
    if before.len() == 0 {
        assert(before + after =~= after);
    } else {
        assert((before + after).skip(1) =~= before.skip(1) + after);
        lemma_all_set_append(before.skip(1), after, before[0].argument.set(known));
    }
}

/// Neighbours under different keys set the same either way round.
proof fn lemma_swapped<M, A: Setting<M>>(
    before: Seq<Item<A>>,
    one: Item<A>,
    other: Item<A>,
    after: Seq<Item<A>>,
    known: M,
)
    requires
        one.argument.key() != other.argument.key(),
    ensures
        all_set(before + seq![one, other] + after, known) == all_set(
            before + seq![other, one] + after,
            known,
        ),
{
    let start = all_set(before, known);
    lemma_all_set_append(before + seq![one, other], after, known);
    lemma_all_set_append(before + seq![other, one], after, known);
    lemma_all_set_append(before, seq![one, other], known);
    lemma_all_set_append(before, seq![other, one], known);
    assert(all_set(seq![one, other], start) == other.argument.set(one.argument.set(start))) by {
        reveal_with_fuel(all_set, 3);
    }
    assert(all_set(seq![other, one], start) == one.argument.set(other.argument.set(start))) by {
        reveal_with_fuel(all_set, 3);
    }
    A::sets_commute(one.argument, other.argument, start);
}

// ---------------------------------------------------------------------------
// The arguments of an endpoint
// ---------------------------------------------------------------------------

/// What one argument of `#[endpoint(...)]` says.
pub enum Argument {
    Path(Seq<char>),
    Method(Seq<char>),
    Tag(Seq<char>),
    Summary(Seq<char>),
    Description(Seq<char>),
    Deprecated,
    Request(TypeModel),
    RequestDesc(Seq<char>),
    Responses(Seq<ResponseEntryModel>),
}

impl Setting<OpenApiArgsModel> for Argument {
    open spec fn key(self) -> Seq<char> {
        match self {
            Argument::Path(_) => "path"@,
            Argument::Method(_) => "method"@,
            Argument::Tag(_) => "tag"@,
            Argument::Summary(_) => "summary"@,
            Argument::Description(_) => "description"@,
            Argument::Deprecated => "deprecated"@,
            Argument::Request(_) => "request"@,
            Argument::RequestDesc(_) => "request_desc"@,
            Argument::Responses(_) => "responses"@,
        }
    }

    open spec fn set(self, known: OpenApiArgsModel) -> OpenApiArgsModel {
        match self {
            Argument::Path(text) => OpenApiArgsModel { path: Some(text), ..known },
            Argument::Method(method) => OpenApiArgsModel { method, ..known },
            Argument::Tag(text) => OpenApiArgsModel { tag: Some(text), ..known },
            Argument::Summary(text) => OpenApiArgsModel { summary: Some(text), ..known },
            Argument::Description(text) => OpenApiArgsModel { description: Some(text), ..known },
            Argument::Deprecated => OpenApiArgsModel { deprecated: true, ..known },
            Argument::Request(ty) => OpenApiArgsModel { request: Some(ty), ..known },
            Argument::RequestDesc(text) => OpenApiArgsModel { request_desc: Some(text), ..known },
            Argument::Responses(responses) => OpenApiArgsModel { responses, ..known },
        }
    }

    proof fn sets_commute(one: Self, other: Self, known: OpenApiArgsModel) {
    }
}

/// Whether an item is well formed: it is read as what it says, whatever the other
/// arguments are and wherever it stands among them.
pub open spec fn is_item(item: Item<Argument>) -> bool {
    forall|rest: Seq<Tok>, args: OpenApiArgsModel|
        is_end(rest) ==> #[trigger] args_item(fresh(item.tokens + rest), args) == Ok::<
            (OpenApiArgsModel, InputModel),
            Messages,
        >((item.argument.set(args), fresh(rest)))
}

/// Whether every item of a list is well formed.
pub open spec fn are_items(items: Seq<Item<Argument>>) -> bool {
    forall|i: int| 0 <= i < items.len() ==> is_item(#[trigger] items[i])
}

proof fn lemma_list_is_read(items: Seq<Item<Argument>>, trailing: bool, args: OpenApiArgsModel)
    requires
        are_items(items),
    ensures
        args_items(fresh(listed(items, trailing)), args) == Ok::<
            (OpenApiArgsModel, InputModel),
            Messages,
        >((all_set(items, args), fresh(Seq::empty()))),
    decreases items.len(),
{
    if items.len() > 0 {
        let more = items.skip(1);
        let rest = behind_first(items, trailing);
        let tokens = items[0].tokens + rest;
        let set = items[0].argument.set(args);
        assert(is_item(items[0]));
        assert(args_item(fresh(tokens), args) == Ok::<(OpenApiArgsModel, InputModel), Messages>(
            (set, fresh(rest)),
        ));
        if tokens.len() == 0 {
            assert(args_item(fresh(tokens), args) is Err);
        }
        assert forall|i: int| 0 <= i < more.len() implies is_item(#[trigger] more[i]) by {
            assert(more[i] == items[i + 1]);
        }
        lemma_list_is_read(more, trailing, set);
        if rest.len() > 0 {
            assert(opened(rest) == rest);
            assert(rest.skip(1) =~= listed(more, trailing));
        } else {
            assert(more =~= Seq::empty());
            assert(rest =~= Seq::empty());
        }
    }
}

/// A list of well-formed arguments sets each of them in turn, with a comma at its
/// end or without.
pub proof fn a_list_sets_each_argument(items: Seq<Item<Argument>>, trailing: bool)
    requires
        are_items(items),
    ensures
        endpoint_args(listed(items, trailing)) == Ok::<OpenApiArgsModel, Messages>(
            all_set(items, default_args()),
        ),
{
    lemma_list_is_read(items, trailing, default_args());
}

/// Well-formed arguments under different keys say the same in every order, with a
/// comma behind the last or without.
pub proof fn arguments_are_read_in_any_order(
    items: Seq<Item<Argument>>,
    others: Seq<Item<Argument>>,
    trailing: bool,
    other_trailing: bool,
)
    requires
        are_items(items),
        keys_differ::<OpenApiArgsModel, Argument>(items),
        items.to_multiset() == others.to_multiset(),
    ensures
        endpoint_args(listed(items, trailing)) is Ok,
        endpoint_args(listed(items, trailing)) == endpoint_args(listed(others, other_trailing)),
{
    assert forall|j: int| 0 <= j < others.len() implies is_item(#[trigger] others[j]) by {
        lemma_same_items(items, others, j);
        let i = choose|i: int| 0 <= i < items.len() && items[i] == others[j];
        assert(is_item(items[i]));
    }
    a_list_sets_each_argument(items, trailing);
    a_list_sets_each_argument(others, other_trailing);
    lemma_any_order(items, others, default_args());
}

/// Two neighbouring arguments under different keys can be swapped, whatever stands
/// around them.
pub proof fn neighbours_can_be_swapped(
    before: Seq<Item<Argument>>,
    one: Item<Argument>,
    other: Item<Argument>,
    after: Seq<Item<Argument>>,
    trailing: bool,
)
    requires
        are_items(before),
        are_items(after),
        is_item(one),
        is_item(other),
        one.argument.key() != other.argument.key(),
    ensures
        endpoint_args(listed(before + seq![one, other] + after, trailing)) == endpoint_args(
            listed(before + seq![other, one] + after, trailing),
        ),
{
    a_list_sets_each_argument(before + seq![one, other] + after, trailing);
    a_list_sets_each_argument(before + seq![other, one] + after, trailing);
    lemma_swapped(before, one, other, after, default_args());
}

/// What the keys look like, as far as they differ from one another and from the
/// keywords.
proof fn lemma_key_shapes()
    ensures
        "path"@.len() == 4 && "path"@[1] == 'a',
        "method"@.len() == 6 && "method"@[0] == 'm',
        "tag"@.len() == 3 && "tag"@[1] == 'a',
        "summary"@.len() == 7 && "summary"@[0] == 's',
        "description"@.len() == 11,
        "deprecated"@.len() == 10,
        "request"@.len() == 7 && "request"@[0] == 'r',
        "request_desc"@.len() == 12,
        "responses"@.len() == 9,
{
    reveal_strlit("path");
    reveal_strlit("method");
    reveal_strlit("tag");
    reveal_strlit("summary");
    reveal_strlit("description");
    reveal_strlit("deprecated");
    reveal_strlit("request");
    reveal_strlit("request_desc");
    reveal_strlit("responses");
}

/// The keys of the arguments are no keywords.
proof fn lemma_keys_are_no_keywords(argument: Argument)
    ensures
        !is_keyword(argument.key()),
{
    lemma_key_shapes();
    lemma_keyword_shapes(argument.key());
}

/// `key = value`.
pub open spec fn assignment(key: Seq<char>, joint: bool, value: Seq<Tok>) -> Seq<Tok> {
    seq![Tok::Ident(key), Tok::Punct('=', joint)] + value
}

/// `key = value` is taken apart into its key and its value.
proof fn lemma_assignment(key: Seq<char>, joint: bool, value: Seq<Tok>, rest: Seq<Tok>)
    ensures
        ({
            let tokens = assignment(key, joint, value) + rest;
            &&& opened(tokens) == tokens
            &&& tokens[0] == Tok::Ident(key)
            &&& punct_step(tokens.skip(1), '=') == Some(value + rest)
        }),
{
    let tokens = assignment(key, joint, value) + rest;
    assert(tokens.skip(1)[0] == Tok::Punct('=', joint));
    assert(opened(tokens.skip(1)) == tokens.skip(1));
    assert(tokens.skip(1).skip(1) =~= value + rest);
}

/// A text in front is taken off.
proof fn lemma_text(text: Seq<char>, rest: Seq<Tok>)
    ensures
        string_step(seq![Tok::Str(text)] + rest) == Some((text, rest)),
{
    let tokens = seq![Tok::Str(text)] + rest;
    assert(tokens[0] == Tok::Str(text));
    assert(opened(tokens) == tokens);
    assert(tokens.skip(1) =~= rest);
}

/// A group in parentheses in front is taken off.
proof fn lemma_group(content: Seq<Tok>, rest: Seq<Tok>)
    ensures
        group_step(
            seq![Tok::Group(Delimiter::Parenthesis, content)] + rest,
            Delimiter::Parenthesis,
        ) == Some((content, rest)),
{
    let tokens = seq![Tok::Group(Delimiter::Parenthesis, content)] + rest;
    assert(tokens[0] == Tok::Group(Delimiter::Parenthesis, content));
    assert(opened(tokens) == tokens);
    assert(tokens.skip(1) =~= rest);
}

/// The argument under a key whose value is a text.
pub open spec fn argument_of_text(key: Seq<char>, text: Seq<char>) -> Argument {
    if key == "path"@ {
        Argument::Path(text)
    } else if key == "tag"@ {
        Argument::Tag(text)
    } else if key == "summary"@ {
        Argument::Summary(text)
    } else if key == "description"@ {
        Argument::Description(text)
    } else {
        Argument::RequestDesc(text)
    }
}

/// `path`, `tag`, `summary`, `description` and `request_desc` are well formed with
/// any text.
pub proof fn texts_are_well_formed(key: Seq<char>, joint: bool, text: Seq<char>)
    requires
        is_string_key(key),
    ensures
        is_item(
            Item {
                tokens: assignment(key, joint, seq![Tok::Str(text)]),
                argument: argument_of_text(key, text),
            },
        ),
{
    let argument = argument_of_text(key, text);
    let value = seq![Tok::Str(text)];
    let item = Item { tokens: assignment(key, joint, value), argument };
    assert forall|rest: Seq<Tok>, args: OpenApiArgsModel|
        is_end(rest) implies #[trigger] args_item(fresh(item.tokens + rest), args) == Ok::<
        (OpenApiArgsModel, InputModel),
        Messages,
    >((argument.set(args), fresh(rest))) by {
        lemma_assignment(argument.key(), joint, value, rest);
        lemma_keys_are_no_keywords(argument);
        lemma_text(text, rest);
    }
}

/// `deprecated` is well formed.
pub proof fn deprecated_is_well_formed()
    ensures
        is_item(
            Item { tokens: seq![Tok::Ident("deprecated"@)], argument: Argument::Deprecated },
        ),
{
    let item = Item { tokens: seq![Tok::Ident("deprecated"@)], argument: Argument::Deprecated };
    lemma_keys_are_no_keywords(item.argument);
    assert forall|rest: Seq<Tok>, args: OpenApiArgsModel|
        is_end(rest) implies #[trigger] args_item(fresh(item.tokens + rest), args) == Ok::<
        (OpenApiArgsModel, InputModel),
        Messages,
    >((item.argument.set(args), fresh(rest))) by {
        let tokens = item.tokens + rest;
        assert(tokens[0] == Tok::Ident("deprecated"@));
        assert(opened(tokens) == tokens);
        assert(tokens.skip(1) =~= rest);
        assert(opened(rest) == rest);
        assert(punct_step(rest, '=') is None);
    }
}

/// `method = value` is well formed where the value is an expression that stands for
/// a method and ends in front of a comma.
pub proof fn methods_are_well_formed(
    joint: bool,
    value: Seq<Tok>,
    expr: ExprModel,
    method: Seq<char>,
)
    requires
        forall|rest: Seq<Tok>|
            is_end(rest) ==> #[trigger] expr_step(fresh(value + rest)) == Ok::<
                (ExprModel, InputModel),
                Messages,
            >((expr, fresh(rest))),
        method_of(expr.kind) == Ok::<Seq<char>, Messages>(method),
    ensures
        is_item(
            Item {
                tokens: assignment("method"@, joint, value),
                argument: Argument::Method(method),
            },
        ),
{
    let argument = Argument::Method(method);
    let item = Item { tokens: assignment("method"@, joint, value), argument };
    lemma_other_keys_are_no_texts();
    assert forall|rest: Seq<Tok>, args: OpenApiArgsModel|
        is_end(rest) implies #[trigger] args_item(fresh(item.tokens + rest), args) == Ok::<
        (OpenApiArgsModel, InputModel),
        Messages,
    >((argument.set(args), fresh(rest))) by {
        lemma_assignment(argument.key(), joint, value, rest);
        lemma_keys_are_no_keywords(argument);
        assert(expr_step(fresh(value + rest)) == Ok::<(ExprModel, InputModel), Messages>(
            (expr, fresh(rest)),
        ));
    }
}

/// `request = value` is well formed where the value is a type that ends in front of
/// a comma.
pub proof fn requests_are_well_formed(joint: bool, value: Seq<Tok>, ty: TypeModel)
    requires
        forall|rest: Seq<Tok>|
            is_end(rest) ==> #[trigger] type_step(fresh(value + rest)) == Ok::<
                (TypeModel, InputModel),
                Messages,
            >((ty, fresh(rest))),
    ensures
        is_item(
            Item {
                tokens: assignment("request"@, joint, value),
                argument: Argument::Request(ty),
            },
        ),
{
    let argument = Argument::Request(ty);
    let item = Item { tokens: assignment("request"@, joint, value), argument };
    lemma_other_keys_are_no_texts();
    assert forall|rest: Seq<Tok>, args: OpenApiArgsModel|
        is_end(rest) implies #[trigger] args_item(fresh(item.tokens + rest), args) == Ok::<
        (OpenApiArgsModel, InputModel),
        Messages,
    >((argument.set(args), fresh(rest))) by {
        lemma_assignment(argument.key(), joint, value, rest);
        lemma_keys_are_no_keywords(argument);
        assert(type_step(fresh(value + rest)) == Ok::<(TypeModel, InputModel), Messages>(
            (ty, fresh(rest)),
        ));
    }
}

/// `responses = (content)` is well formed where the content is a list of responses.
pub proof fn responses_are_well_formed(
    joint: bool,
    content: Seq<Tok>,
    responses: Seq<ResponseEntryModel>,
)
    requires
        response_entries(fresh(content), Seq::empty()) == Ok::<
            (Seq<ResponseEntryModel>, InputModel),
            Messages,
        >((responses, fresh(Seq::empty()))),
    ensures
        is_item(
            Item {
                tokens: assignment(
                    "responses"@,
                    joint,
                    seq![Tok::Group(Delimiter::Parenthesis, content)],
                ),
                argument: Argument::Responses(responses),
            },
        ),
{
    let argument = Argument::Responses(responses);
    let value = seq![Tok::Group(Delimiter::Parenthesis, content)];
    let item = Item { tokens: assignment("responses"@, joint, value), argument };
    lemma_other_keys_are_no_texts();
    assert forall|rest: Seq<Tok>, args: OpenApiArgsModel|
        is_end(rest) implies #[trigger] args_item(fresh(item.tokens + rest), args) == Ok::<
        (OpenApiArgsModel, InputModel),
        Messages,
    >((argument.set(args), fresh(rest))) by {
        lemma_assignment(argument.key(), joint, value, rest);
        lemma_keys_are_no_keywords(argument);
        lemma_group(content, rest);
    }
}

/// The keys that take no text, told apart.
proof fn lemma_other_keys_are_no_texts()
    ensures
        !is_string_key("method"@),
        !is_string_key("request"@),
        !is_string_key("responses"@),
        "request"@ != "method"@,
        "responses"@ != "method"@,
        "responses"@ != "request"@,
{
    lemma_key_shapes();
}

// ---------------------------------------------------------------------------
// The arguments of a response
// ---------------------------------------------------------------------------

/// What one argument of `#[response(...)]` says.
pub enum ResponseArgument {
    Status(u16),
    Description(Seq<char>),
    Summary(Seq<char>),
    /// The parts of the error that are given.
    Error(
        Option<Seq<char>>,
        Option<Seq<char>>,
        Option<Seq<(Seq<char>, Seq<char>)>>,
    ),
    Meta,
}

impl Setting<AttrDraftModel> for ResponseArgument {
    open spec fn key(self) -> Seq<char> {
        match self {
            ResponseArgument::Status(_) => "status"@,
            ResponseArgument::Description(_) => "description"@,
            ResponseArgument::Summary(_) => "summary"@,
            ResponseArgument::Error(..) => "error"@,
            ResponseArgument::Meta => "meta"@,
        }
    }

    open spec fn set(self, known: AttrDraftModel) -> AttrDraftModel {
        match self {
            ResponseArgument::Status(code) => AttrDraftModel { status: Some(code), ..known },
            ResponseArgument::Description(text) => AttrDraftModel {
                description: Some(text),
                ..known
            },
            ResponseArgument::Summary(text) => AttrDraftModel { summary: Some(text), ..known },
            ResponseArgument::Error(code, message, details) => AttrDraftModel {
                error: ErrorDraftModel {
                    code: if code is Some {
                        code
                    } else {
                        known.error.code
                    },
                    message: if message is Some {
                        message
                    } else {
                        known.error.message
                    },
                    details: match details {
                        Some(list) => list,
                        None => known.error.details,
                    },
                },
                ..known
            },
            ResponseArgument::Meta => AttrDraftModel { include_meta: true, ..known },
        }
    }

    proof fn sets_commute(one: Self, other: Self, known: AttrDraftModel) {
    }
}

/// Whether an item is well formed: it is read as what it says, whatever the other
/// arguments are and wherever it stands among them.
pub open spec fn is_response_item(item: Item<ResponseArgument>) -> bool {
    forall|rest: Seq<Tok>, attr: AttrDraftModel|
        is_end(rest) ==> #[trigger] attr_item(fresh(item.tokens + rest), attr) == Ok::<
            (AttrDraftModel, InputModel),
            Messages,
        >((item.argument.set(attr), fresh(rest)))
}

proof fn lemma_response_list_is_read(
    items: Seq<Item<ResponseArgument>>,
    trailing: bool,
    attr: AttrDraftModel,
)
    requires
        forall|i: int| 0 <= i < items.len() ==> is_response_item(#[trigger] items[i]),
    ensures
        attr_items(fresh(listed(items, trailing)), attr) == Ok::<
            (AttrDraftModel, InputModel),
            Messages,
        >((all_set(items, attr), fresh(Seq::empty()))),
    decreases items.len(),
{
    if items.len() > 0 {
        let more = items.skip(1);
        let rest = behind_first(items, trailing);
        let tokens = items[0].tokens + rest;
        let set = items[0].argument.set(attr);
        assert(is_response_item(items[0]));
        assert(attr_item(fresh(tokens), attr) == Ok::<(AttrDraftModel, InputModel), Messages>(
            (set, fresh(rest)),
        ));
        if tokens.len() == 0 {
            assert(attr_item(fresh(tokens), attr) is Err);
        }
        assert forall|i: int| 0 <= i < more.len() implies is_response_item(#[trigger] more[i]) by {
            assert(more[i] == items[i + 1]);
        }
        lemma_response_list_is_read(more, trailing, set);
        if rest.len() > 0 {
            assert(opened(rest) == rest);
            assert(rest.skip(1) =~= listed(more, trailing));
        } else {
            assert(more =~= Seq::empty());
            assert(rest =~= Seq::empty());
        }
    }
}

/// Well-formed arguments of a response under different keys say the same in every
/// order, with a comma behind the last or without.
pub proof fn response_arguments_are_read_in_any_order(
    items: Seq<Item<ResponseArgument>>,
    others: Seq<Item<ResponseArgument>>,
    trailing: bool,
    other_trailing: bool,
)
    requires
        forall|i: int| 0 <= i < items.len() ==> is_response_item(#[trigger] items[i]),
        keys_differ::<AttrDraftModel, ResponseArgument>(items),
        items.to_multiset() == others.to_multiset(),
    ensures
        response_attr(listed(items, trailing)) == response_attr(listed(others, other_trailing)),
{
    assert forall|j: int| 0 <= j < others.len() implies is_response_item(#[trigger] others[j]) by {
        lemma_same_items(items, others, j);
        let i = choose|i: int| 0 <= i < items.len() && items[i] == others[j];
        assert(is_response_item(items[i]));
    }
    lemma_response_list_is_read(items, trailing, empty_attr());
    lemma_response_list_is_read(others, other_trailing, empty_attr());
    lemma_any_order(items, others, empty_attr());
}

/// `status = value` is well formed where the value is an expression that stands for
/// a status and ends in front of a comma; `description` and `summary` are with any
/// text, and so is `meta`.
pub proof fn response_arguments_are_well_formed(
    joint: bool,
    value: Seq<Tok>,
    expr: ExprModel,
    code: u16,
    text: Seq<char>,
)
    requires
        forall|rest: Seq<Tok>|
            is_end(rest) ==> #[trigger] expr_step(fresh(value + rest)) == Ok::<
                (ExprModel, InputModel),
                Messages,
            >((expr, fresh(rest))),
        status_of(expr.kind) == Ok::<u16, Messages>(code),
    ensures
        is_response_item(
            Item {
                tokens: assignment("status"@, joint, value),
                argument: ResponseArgument::Status(code),
            },
        ),
        is_response_item(
            Item {
                tokens: assignment("description"@, joint, seq![Tok::Str(text)]),
                argument: ResponseArgument::Description(text),
            },
        ),
        is_response_item(
            Item {
                tokens: assignment("summary"@, joint, seq![Tok::Str(text)]),
                argument: ResponseArgument::Summary(text),
            },
        ),
        is_response_item(
            Item { tokens: seq![Tok::Ident("meta"@)], argument: ResponseArgument::Meta },
        ),
{
    lemma_key_shapes();
    lemma_response_key_shapes();
    lemma_keyword_shapes("status"@);
    lemma_keyword_shapes("description"@);
    lemma_keyword_shapes("summary"@);
    lemma_keyword_shapes("meta"@);
    assert forall|rest: Seq<Tok>, attr: AttrDraftModel| is_end(rest) implies #[trigger] attr_item(
        fresh(assignment("status"@, joint, value) + rest),
        attr,
    ) == Ok::<(AttrDraftModel, InputModel), Messages>(
        (ResponseArgument::Status(code).set(attr), fresh(rest)),
    ) by {
        lemma_assignment("status"@, joint, value, rest);
        assert(expr_step(fresh(value + rest)) == Ok::<(ExprModel, InputModel), Messages>(
            (expr, fresh(rest)),
        ));
    }
    let string = seq![Tok::Str(text)];
    assert forall|rest: Seq<Tok>, attr: AttrDraftModel| is_end(rest) implies #[trigger] attr_item(
        fresh(assignment("description"@, joint, string) + rest),
        attr,
    ) == Ok::<(AttrDraftModel, InputModel), Messages>(
        (ResponseArgument::Description(text).set(attr), fresh(rest)),
    ) by {
        lemma_assignment("description"@, joint, string, rest);
        lemma_text(text, rest);
    }
    assert forall|rest: Seq<Tok>, attr: AttrDraftModel| is_end(rest) implies #[trigger] attr_item(
        fresh(assignment("summary"@, joint, string) + rest),
        attr,
    ) == Ok::<(AttrDraftModel, InputModel), Messages>(
        (ResponseArgument::Summary(text).set(attr), fresh(rest)),
    ) by {
        lemma_assignment("summary"@, joint, string, rest);
        lemma_text(text, rest);
    }
    let meta = seq![Tok::Ident("meta"@)];
    assert forall|rest: Seq<Tok>, attr: AttrDraftModel| is_end(rest) implies #[trigger] attr_item(
        fresh(meta + rest),
        attr,
    ) == Ok::<(AttrDraftModel, InputModel), Messages>(
        (ResponseArgument::Meta.set(attr), fresh(rest)),
    ) by {
        let tokens = meta + rest;
        assert(tokens[0] == Tok::Ident("meta"@));
        assert(opened(tokens) == tokens);
        assert(tokens.skip(1) =~= rest);
        assert(opened(rest) == rest);
        assert(punct_step(rest, '=') is None);
    }
}

/// `error = (content)` is well formed where the content gives parts of an error.
pub proof fn errors_are_well_formed(
    joint: bool,
    content: Seq<Tok>,
    code: Option<Seq<char>>,
    message: Option<Seq<char>>,
    details: Option<Seq<(Seq<char>, Seq<char>)>>,
)
    requires
        forall|known: AttrDraftModel| #[trigger]
            error_fields(fresh(content), known.error) == Ok::<
                (ErrorDraftModel, InputModel),
                Messages,
            >(
                (
                    ResponseArgument::Error(code, message, details).set(known).error,
                    fresh(Seq::empty()),
                ),
            ),
    ensures
        is_response_item(
            Item {
                tokens: assignment(
                    "error"@,
                    joint,
                    seq![Tok::Group(Delimiter::Parenthesis, content)],
                ),
                argument: ResponseArgument::Error(code, message, details),
            },
        ),
{
    let argument = ResponseArgument::Error(code, message, details);
    let value = seq![Tok::Group(Delimiter::Parenthesis, content)];
    lemma_key_shapes();
    lemma_response_key_shapes();
    lemma_keyword_shapes("error"@);
    assert forall|rest: Seq<Tok>, attr: AttrDraftModel| is_end(rest) implies #[trigger] attr_item(
        fresh(assignment("error"@, joint, value) + rest),
        attr,
    ) == Ok::<(AttrDraftModel, InputModel), Messages>((argument.set(attr), fresh(rest))) by {
        lemma_assignment("error"@, joint, value, rest);
        lemma_group(content, rest);
        assert(error_fields(fresh(content), attr.error) == Ok::<
            (ErrorDraftModel, InputModel),
            Messages,
        >((argument.set(attr).error, fresh(Seq::empty()))));
    }
}

/// What the keys of a response look like.
proof fn lemma_response_key_shapes()
    ensures
        "status"@.len() == 6 && "status"@[0] == 's' && "status"@[4] == 'u',
        "error"@.len() == 5 && "error"@[0] == 'e',
        "meta"@.len() == 4 && "meta"@[1] == 'e' && "meta"@[3] == 'a',
{
    reveal_strlit("status");
    reveal_strlit("error");
    reveal_strlit("meta");
}

} // verus!
