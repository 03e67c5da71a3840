//! What holds of the expansions as a whole.

use crate::args::{
    args_item, args_items, default_args, endpoint_args, is_string_key, method_of, with_string,
    OpenApiArgsModel,
};
use crate::endpoint::{
    can_be_named, context_types, docs_code, endpoint_fn_code, endpoint_path, entry_type, first_occurrences,
    handle_name, is_endpoint_code, names_fit, register_name, registering_code, resolved_args,
    SchemaNamesModel,
};
use crate::error::{error_report, error_reports, Messages};
use crate::fields::{
    doc_of, field_infos, field_meta, field_meta_from, is_option, past_value, rename_by,
    rename_in, FieldInfoModel,
    FieldMetaModel, SourceKind,
};
use crate::input::{
    fresh, is_keyword, lemma_keyword_shapes, meta_path, opened, punct_step, string_step, InputModel,
};
use crate::items::{FieldModel, ItemFnModel, ItemImplModel, ItemStructModel, SignatureModel};
use crate::json::{json_type_code, required_names};
use crate::request::{
    all_sources, fields_by_source, fields_from, handler_code, part_name, part_suffix, used_among,
    used_sources,
};
use crate::response::{
    constructor_code, is_unit, path_is_named, response_properties_code, type_args, type_at,
};
use crate::response_attr::{response_attr, ResponseAttrModel};
use crate::router::{
    first_fault, has_method_name, inferred_request, is_router_code, item_names_fit, item_plan,
    item_registrations, kept_code, kept_codes, method_args, method_registration_code,
    router_impl_code, takes_self,
};
use crate::schema::{
    description_by, description_from, description_in, has_garde, is_opt_in, is_validated,
    struct_description,
};
use crate::status::{code_of_constant, decimal_value, status_of};
use crate::syntax::{
    attribute_model, attribute_models, attrs_except, attrs_placed, first_type_arg, is_inner,
    last_segment, type_model, AttributeModel, ExprKindModel, TypeModel,
};
use crate::text::lowercase;
use crate::tokens::{concatenated, decimal, grouped, lexed, unraw, Delimiter, Tok};
use vstd::multiset::Multiset;
use vstd::prelude::*;

verus! {

// ---------------------------------------------------------------------------
// Arguments
// ---------------------------------------------------------------------------

/// A method given as a text and one given as a constant, under whatever path, are
/// the same method where the two differ in letter case only.
pub proof fn method_text_and_constant_agree(text: Seq<char>, path: Seq<Seq<char>>)
    requires
        path.len() > 0,
        lowercase(text) == lowercase(path.last()),
    ensures
        method_of(ExprKindModel::Str(text)) == method_of(ExprKindModel::Path(path)),
{
}

/// Reading the decimal digits of a number gives the number.
pub proof fn decimal_digits_are_read_back(n: nat)
    ensures
        decimal_value(decimal(n)) == Some(n),
        decimal(n).len() > 0,
    decreases n,
{
    reveal_with_fuel(decimal_value, 2);
    if n < 10 {
        let digit = (48 + n) as char;
        assert(decimal(n).drop_last() =~= Seq::empty());
        assert(decimal(n).last() == digit);
    } else {
        decimal_digits_are_read_back(n / 10);
        assert(decimal(n).drop_last() =~= decimal(n / 10));
        assert(decimal(n).last() == (48 + n % 10) as char);
    }
}

/// A status given as a `Status::*` constant, under whatever path, and one given as
/// that constant's number are the same status.
pub proof fn status_number_and_constant_agree(path: Seq<Seq<char>>, digits: Seq<char>)
    requires
        path.len() > 0,
        code_of_constant(path.last()) is Some,
        digits == decimal(code_of_constant(path.last())->0 as nat),
    ensures
        status_of(ExprKindModel::Path(path)) == status_of(ExprKindModel::Int(digits)),
        status_of(ExprKindModel::Path(path)) is Ok,
{
    decimal_digits_are_read_back(code_of_constant(path.last())->0 as nat);
}

/// Without arguments an endpoint answers `GET` and has nothing else said of it.
pub proof fn endpoint_without_arguments(tokens: Seq<Tok>)
    requires
        tokens.len() == 0,
    ensures
        endpoint_args(tokens) == Ok::<OpenApiArgsModel, Messages>(default_args()),
{
}

/// The words for the arguments that are texts are no keywords.
proof fn lemma_text_keys_are_no_keywords()
    ensures
        !is_keyword("path"@),
        !is_keyword("tag"@),
        !is_keyword("summary"@),
        !is_keyword("description"@),
        !is_keyword("request_desc"@),
{
    reveal_strlit("path");
    assert("path"@.len() == 4 && "path"@[1] == 'a');
    reveal_strlit("tag");
    assert("tag"@.len() == 3 && "tag"@[1] == 'a');
    reveal_strlit("summary");
    assert("summary"@.len() == 7 && "summary"@[0] == 's');
    reveal_strlit("description");
    assert("description"@.len() == 11);
    reveal_strlit("request_desc");
    assert("request_desc"@.len() == 12);
    lemma_keyword_shapes("path"@);
    lemma_keyword_shapes("tag"@);
    lemma_keyword_shapes("summary"@);
    lemma_keyword_shapes("description"@);
    lemma_keyword_shapes("request_desc"@);
}

/// `key = "text"` sets the argument under that key, whatever the text, and leaves
/// the other arguments as they are.
pub proof fn text_arguments_are_read(
    key: Seq<char>,
    joint: bool,
    text: Seq<char>,
    args: OpenApiArgsModel,
)
    requires
        is_string_key(key),
    ensures
        args_items(
            fresh(seq![Tok::Ident(key), Tok::Punct('=', joint), Tok::Str(text)]),
            args,
        ) == Ok::<(OpenApiArgsModel, InputModel), Messages>(
            (with_string(args, key, text), fresh(Seq::empty())),
        ),
{
    lemma_text_keys_are_no_keywords();
    lemma_pair(key, joint, text);
}

/// The tokens of `key = "text" ,`.
pub open spec fn text_argument(key: Seq<char>, joint: bool, text: Seq<char>) -> Seq<Tok> {
    seq![Tok::Ident(key), Tok::Punct('=', joint), Tok::Str(text), Tok::Punct(',', false)]
}

/// Arguments are read one by one: what stands behind `key = "text" ,` is read as if
/// it stood alone, with the argument under that key set. That there need be nothing
/// behind it makes a comma at the end of no account.
pub proof fn arguments_are_read_one_by_one(
    key: Seq<char>,
    joint: bool,
    text: Seq<char>,
    rest: Seq<Tok>,
    args: OpenApiArgsModel,
)
    requires
        is_string_key(key),
    ensures
        args_items(fresh(text_argument(key, joint, text) + rest), args) == args_items(
            fresh(rest),
            with_string(args, key, text),
        ),
{
    lemma_text_keys_are_no_keywords();
    let tokens = text_argument(key, joint, text) + rest;
    let after = tokens.skip(1);
    let value = after.skip(1);
    let next = value.skip(1);
    assert(opened(tokens) == tokens);
    assert(after[0] == Tok::Punct('=', joint) && opened(after) == after);
    assert(value[0] == Tok::Str(text) && opened(value) == value);
    assert(next[0] == Tok::Punct(',', false) && opened(next) == next);
    assert(next.skip(1) =~= rest);
    assert(args_item(fresh(tokens), args) == Ok::<(OpenApiArgsModel, InputModel), Messages>(
        (with_string(args, key, text), fresh(next)),
    ));
}

/// An argument that is given twice has the value that it is given last.
pub proof fn later_arguments_take_precedence(
    key: Seq<char>,
    joint: bool,
    text: Seq<char>,
    later: Seq<char>,
    rest: Seq<Tok>,
    args: OpenApiArgsModel,
)
    requires
        is_string_key(key),
    ensures
        args_items(
            fresh(
                text_argument(key, joint, text) + (text_argument(key, joint, later) + rest),
            ),
            args,
        ) == args_items(fresh(text_argument(key, joint, later) + rest), args),
{
    arguments_are_read_one_by_one(
        key,
        joint,
        text,
        text_argument(key, joint, later) + rest,
        args,
    );
    arguments_are_read_one_by_one(key, joint, later, rest, with_string(args, key, text));
    arguments_are_read_one_by_one(key, joint, later, rest, args);
}

/// How `key = "text"` is taken apart.
proof fn lemma_pair(key: Seq<char>, joint: bool, text: Seq<char>)
    ensures
        ({
            let tokens = seq![Tok::Ident(key), Tok::Punct('=', joint), Tok::Str(text)];
            let after = seq![Tok::Punct('=', joint), Tok::Str(text)];
            let value = seq![Tok::Str(text)];
            &&& opened(tokens) == tokens && tokens.skip(1) == after
            &&& punct_step(after, '=') == Some(value)
            &&& string_step(value) == Some((text, Seq::<Tok>::empty()))
            &&& meta_path(tokens) == Ok::<(Option<Seq<char>>, Seq<Tok>), Messages>(
                (Some(key), after),
            )
        }),
{
    let tokens = seq![Tok::Ident(key), Tok::Punct('=', joint), Tok::Str(text)];
    let after = seq![Tok::Punct('=', joint), Tok::Str(text)];
    let value = seq![Tok::Str(text)];
    assert(tokens.skip(1) =~= after);
    assert(after.skip(1) =~= value);
    assert(value.skip(1) =~= Seq::empty());
    assert(opened(after) == after);
    assert(opened(value) == value);
}

/// Without a path of its own an endpoint has that of its function's name.
pub proof fn path_defaults_to_the_name(args: OpenApiArgsModel, ident: Seq<char>)
    ensures
        args.path is None ==> endpoint_path(args, ident) == "/"@ + ident,
        args.path matches Some(path) ==> endpoint_path(args, ident) == path,
{
}

/// The request type of a handler with a `Context` is that of its arguments, or that
/// of its `Context` where they leave it out; nothing else of the arguments changes.
pub proof fn request_is_inferred_from_the_context(args: OpenApiArgsModel, sig: SignatureModel)
    requires
        context_types(sig.params) is Some,
    ensures
        resolved_args(args, sig).request is Some,
        args.request is Some ==> resolved_args(args, sig) == args,
        args.request is None ==> resolved_args(args, sig) == (OpenApiArgsModel {
            request: Some((context_types(sig.params)->0).0),
            ..args
        }),
{
}

/// A response has to say its status and its description.
pub proof fn response_needs_status_and_description(tokens: Seq<Tok>)
    requires
        tokens.len() == 0,
    ensures
        response_attr(tokens) == Err::<ResponseAttrModel, Messages>(seq!["missing `status`"@]),
{
}

// ---------------------------------------------------------------------------
// Schemas of responses
// ---------------------------------------------------------------------------

/// Whether the `k`-th registration is for a name at position `i`, and for a response
/// that does not come after it.
pub open spec fn registers(names: Seq<Seq<char>>, k: int, i: int) -> bool {
    let positions = first_occurrences(names);
    0 <= k < positions.len() && positions[k] <= i && names[positions[k]] == names[i]
}

/// Every response has its schema registered, by itself or by an earlier one of the
/// same name.
pub proof fn every_schema_is_registered(names: Seq<Seq<char>>, i: int)
    requires
        0 <= i < names.len(),
    ensures
        exists|k: int| registers(names, k, i),
    decreases names.len(),
{
    let before = names.drop_last();
    let all = first_occurrences(names);
    if i < before.len() || before.contains(names.last()) {
        let j = if i < before.len() {
            i
        } else {
            choose|j: int| 0 <= j < before.len() && before[j] == names.last()
        };
        every_schema_is_registered(before, j);
        let k = choose|k: int| registers(before, k, j);
        schemas_are_registered_in_order(before);
        assert(all[k] == first_occurrences(before)[k]);
        assert(registers(names, k, i));
    } else {
        assert(all[all.len() - 1] == i);
        assert(registers(names, all.len() - 1, i));
    }
}

/// Schemas are registered in the order in which their names come up.
pub proof fn schemas_are_registered_in_order(names: Seq<Seq<char>>)
    ensures
        forall|k: int|
            0 <= k < first_occurrences(names).len() ==> 0 <= #[trigger] first_occurrences(names)[k]
                < names.len(),
        forall|k: int, l: int|
            0 <= k < l < first_occurrences(names).len() ==> #[trigger] first_occurrences(names)[k]
                < #[trigger] first_occurrences(names)[l],
    decreases names.len(),
{
    if names.len() > 0 {
        let old_ones = first_occurrences(names.drop_last());
        let all = first_occurrences(names);
        schemas_are_registered_in_order(names.drop_last());
        assert forall|k: int| 0 <= k < all.len() implies 0 <= #[trigger] all[k] < names.len() by {
            if k < old_ones.len() {
                assert(all[k] == old_ones[k]);
            }
        }
        assert forall|k: int, l: int| 0 <= k < l < all.len() implies #[trigger] all[k]
            < #[trigger] all[l] by {
            assert(all[k] == old_ones[k]);
            if l < old_ones.len() {
                assert(all[l] == old_ones[l]);
            }
        }
    }
}

/// No name is registered twice.
pub proof fn schemas_are_registered_once(names: Seq<Seq<char>>, k: int, l: int)
    requires
        0 <= k < l < first_occurrences(names).len(),
    ensures
        names[first_occurrences(names)[k]] != names[first_occurrences(names)[l]],
    decreases names.len(),
{
    let before = names.drop_last();
    let old_ones = first_occurrences(before);
    let all = first_occurrences(names);
    schemas_are_registered_in_order(before);
    assert(all[k] == old_ones[k]);
    assert(before[old_ones[k]] == names[all[k]]);
    if l < old_ones.len() {
        assert(all[l] == old_ones[l]);
        assert(before[old_ones[l]] == names[all[l]]);
        schemas_are_registered_once(before, k, l);
    } else {
        assert(all[l] == names.len() - 1);
        assert(!before.contains(names.last()));
    }
}

/// Whether every type that an endpoint mentions is a path.
pub open spec fn only_paths(args: OpenApiArgsModel) -> bool {
    &&& args.request matches Some(ty) ==> last_segment(ty) is Some
    &&& forall|i: int|
        0 <= i < args.responses.len() ==> last_segment(
            entry_type(#[trigger] args.responses[i]),
        ) is Some
}

/// Where every type that an endpoint mentions is a path, so are the names of its
/// schemas fixed, as far as the endpoint's code goes by them.
pub proof fn names_are_fixed_for_paths(
    args: OpenApiArgsModel,
    one: SchemaNamesModel,
    other: SchemaNamesModel,
)
    requires
        only_paths(args),
        names_fit(args, one),
        names_fit(args, other),
    ensures
        one.responses == other.responses,
        args.request is Some ==> one.request == other.request,
        forall|method: Seq<char>, path: Seq<char>| #[trigger]
            docs_code(args, one, method, path) == docs_code(args, other, method, path),
{
    assert forall|i: int| 0 <= i < one.responses.len() implies one.responses[i]
        == other.responses[i] by {
        let ty = entry_type(args.responses[i]);
        assert(can_be_named(ty, one.responses[i]) && can_be_named(ty, other.responses[i]));
    }
    assert(one.responses =~= other.responses);
}

/// Where every type that an endpoint mentions is a path, its expansion is fixed.
pub proof fn endpoint_is_fixed_for_paths(
    args: OpenApiArgsModel,
    item: ItemFnModel,
    one: Seq<Tok>,
    other: Seq<Tok>,
)
    requires
        only_paths(resolved_args(args, item.sig)),
        is_endpoint_code(args, item, one),
        is_endpoint_code(args, item, other),
    ensures
        one == other,
{
    let resolved = resolved_args(args, item.sig);
    let a = choose|names: SchemaNamesModel|
        names_fit(resolved, names) && one == #[trigger] endpoint_fn_code(resolved, item, names);
    let b = choose|names: SchemaNamesModel|
        names_fit(resolved, names) && other == #[trigger] endpoint_fn_code(resolved, item, names);
    names_are_fixed_for_paths(resolved, a, b);
}

/// The expansion of an endpoint begins with its function: each of its attributes
/// but `#[endpoint(...)]` once, its visibility once, its signature and its block.
/// What follows is the items that register it.
pub proof fn the_handler_comes_first(
    args: OpenApiArgsModel,
    item: ItemFnModel,
    names: SchemaNamesModel,
    kept: Seq<Seq<Tok>>,
)
    requires
        kept == attrs_except(item.attrs, "endpoint"@),
    ensures
        endpoint_fn_code(args, item, names) == concatenated(attrs_placed(kept, false)) + item.vis
            + item.head + grouped(
            Delimiter::Brace,
            concatenated(attrs_placed(kept, true)) + item.body,
        ) + registering_code(args, item, names),
        attrs_placed(kept, false).to_multiset().add(attrs_placed(kept, true).to_multiset())
            == kept.to_multiset(),
        (forall|i: int|
            0 <= i < item.attrs.len() ==> !attribute_model(#[trigger] item.attrs[i]).is(
                "endpoint"@,
            )) ==> kept == item.attrs,
{
    attributes_stay_in_place(kept);
    if forall|i: int|
        0 <= i < item.attrs.len() ==> !attribute_model(#[trigger] item.attrs[i]).is("endpoint"@) {
        lemma_nothing_taken_off(item.attrs, "endpoint"@);
    }
}

/// Attributes of other names all stay.
proof fn lemma_nothing_taken_off(attrs: Seq<Seq<Tok>>, name: Seq<char>)
    requires
        forall|i: int|
            0 <= i < attrs.len() ==> !attribute_model(#[trigger] attrs[i]).is(name),
    ensures
        attrs_except(attrs, name) == attrs,
    decreases attrs.len(),
{
    if attrs.len() > 0 {
        let before = attrs.drop_last();
        assert forall|i: int| 0 <= i < before.len() implies !attribute_model(
            #[trigger] before[i],
        ).is(name) by {
            assert(before[i] == attrs[i]);
        }
        lemma_nothing_taken_off(before, name);
        assert(attrs[attrs.len() - 1] == attrs.last());
        assert(before.push(attrs.last()) =~= attrs);
    }
}

// ---------------------------------------------------------------------------
// Fields
// ---------------------------------------------------------------------------

/// There is one description for each field, in order, and a field is required just
/// where its type is no `Option`.
pub proof fn fields_are_described_one_by_one(fields: Seq<FieldModel>)
    ensures
        field_infos(fields) matches Ok(infos) ==> {
            &&& infos.len() == fields.len()
            &&& forall|i: int|
                0 <= i < fields.len() ==> {
                    &&& (#[trigger] infos[i]).ident == fields[i].ident->0
                    &&& infos[i].ty == type_model(fields[i].ty)
                    &&& infos[i].required == !is_option(type_model(fields[i].ty))
                }
        },
    decreases fields.len(),
{
    if fields.len() > 0 {
        fields_are_described_one_by_one(fields.drop_last());
    }
}

/// The names listed as required are those of the required fields.
pub proof fn required_names_are_those_of_required_fields(infos: Seq<FieldInfoModel>)
    ensures
        forall|name: Seq<char>| #[trigger]
            required_names(infos).contains(name) <==> exists|i: int|
                0 <= i < infos.len() && (#[trigger] infos[i]).required && infos[i].json_name
                    == name,
    decreases infos.len(),
{
    if infos.len() > 0 {
        let before = infos.drop_last();
        required_names_are_those_of_required_fields(before);
        assert forall|name: Seq<char>| #[trigger]
            required_names(infos).contains(name) <==> exists|i: int|
            0 <= i < infos.len() && (#[trigger] infos[i]).required && infos[i].json_name == name by {
            let names = required_names(infos);
            if names.contains(name) {
                let k = choose|k: int| 0 <= k < names.len() && names[k] == name;
                if infos.last().required && k == names.len() - 1 {
                    assert(infos[infos.len() - 1].json_name == name);
                } else {
                    assert(required_names(before)[k] == name);
                    assert(required_names(before).contains(name));
                    let i = choose|i: int|
                        0 <= i < before.len() && (#[trigger] before[i]).required
                            && before[i].json_name == name;
                    assert(infos[i] == before[i]);
                }
            }
            if exists|i: int|
                0 <= i < infos.len() && (#[trigger] infos[i]).required && infos[i].json_name
                    == name {
                let i = choose|i: int|
                    0 <= i < infos.len() && (#[trigger] infos[i]).required && infos[i].json_name
                        == name;
                if i == infos.len() - 1 {
                    assert(names[names.len() - 1] == name);
                } else {
                    assert(before[i] == infos[i]);
                    assert(required_names(before).contains(name));
                    let k = choose|k: int|
                        0 <= k < required_names(before).len() && required_names(before)[k] == name;
                    assert(names[k] == name);
                }
            }
        }
    }
}

/// A field whose attributes say nothing about its schema comes from the body, has no
/// example, and is described by its doc comment.
pub proof fn fields_come_from_the_body_by_default(attrs: Seq<AttributeModel>)
    requires
        forall|i: int| 0 <= i < attrs.len() ==> !(#[trigger] attrs[i]).is("schema"@),
    ensures
        field_meta(attrs) == Ok::<FieldMetaModel, Messages>(
            FieldMetaModel {
                source: SourceKind::Body,
                description: doc_of(attrs),
                example: None,
            },
        ),
{
    lemma_nothing_said(
        attrs,
        FieldMetaModel { source: SourceKind::Body, description: None, example: None },
    );
}

proof fn lemma_nothing_said(attrs: Seq<AttributeModel>, meta: FieldMetaModel)
    requires
        forall|i: int| 0 <= i < attrs.len() ==> !(#[trigger] attrs[i]).is("schema"@),
    ensures
        field_meta_from(attrs, meta) == Ok::<FieldMetaModel, Messages>(meta),
    decreases attrs.len(),
{
    if attrs.len() > 0 {
        assert(!attrs[0].is("schema"@));
        lemma_nothing_said(attrs.skip(1), meta);
    }
}

/// A struct whose attributes say nothing about its schema is described by its name.
pub proof fn structs_are_described_by_their_name(item: ItemStructModel)
    requires
        forall|i: int|
            0 <= i < item.attrs.len() ==> !attribute_model(#[trigger] item.attrs[i]).is("schema"@),
    ensures
        struct_description(item) == Ok::<Seq<char>, Messages>(item.ident),
{
    lemma_nothing_described(attribute_models(item.attrs));
}

proof fn lemma_nothing_described(attrs: Seq<AttributeModel>)
    requires
        forall|i: int| 0 <= i < attrs.len() ==> !(#[trigger] attrs[i]).is("schema"@),
    ensures
        description_from(attrs, None) == Ok::<Option<Seq<char>>, Messages>(None),
    decreases attrs.len(),
{
    if attrs.len() > 0 {
        assert(!attrs[0].is("schema"@));
        lemma_nothing_described(attrs.skip(1));
    }
}

/// `#[schema(description = "text")]` describes a struct by the text, whatever it is.
pub proof fn descriptions_are_read(
    attr: AttributeModel,
    joint: bool,
    text: Seq<char>,
    known: Option<Seq<char>>,
)
    requires
        attr.is("schema"@),
        attr.meta->0.args == Ok::<Seq<Tok>, Messages>(
            seq![Tok::Ident("description"@), Tok::Punct('=', joint), Tok::Str(text)],
        ),
    ensures
        description_by(attr, known) == Ok::<Option<Seq<char>>, Messages>(Some(text)),
{
    reveal_strlit("description");
    reveal_strlit("validate");
    lemma_pair("description"@, joint, text);
}

/// `#[serde(rename = "text")]` renames a field to the text, whatever it is.
pub proof fn renames_are_read(attr: AttributeModel, joint: bool, text: Seq<char>)
    requires
        attr.is("serde"@),
        attr.meta->0.args == Ok::<Seq<Tok>, Messages>(
            seq![Tok::Ident("rename"@), Tok::Punct('=', joint), Tok::Str(text)],
        ),
    ensures
        rename_by(attr) == Some(text),
{
    lemma_pair("rename"@, joint, text);
}

/// Whether neither a comma nor an invisible group stands among the tokens.
pub open spec fn holds_no_comma(tokens: Seq<Tok>) -> bool {
    forall|i: int|
        0 <= i < tokens.len() ==> (match #[trigger] tokens[i] {
            Tok::Punct(c, _) => c != ',',
            Tok::Group(delimiter, _) => delimiter != Delimiter::Invisible,
            _ => true,
        })
}

proof fn lemma_value_is_passed_over(value: Seq<Tok>, rest: Seq<Tok>)
    requires
        holds_no_comma(value),
    ensures
        past_value(value + (seq![Tok::Punct(',', false)] + rest)) == seq![Tok::Punct(',', false)]
            + rest,
    decreases value.len(),
{
    let next = seq![Tok::Punct(',', false)] + rest;
    let tokens = value + next;
    if value.len() == 0 {
        assert(tokens =~= next);
        assert(next[0] == Tok::Punct(',', false));
        assert(opened(next) == next);
    } else {
        let more = value.skip(1);
        assert(tokens[0] == value[0]);
        assert(opened(tokens) == tokens);
        assert(tokens.skip(1) =~= more + next);
        assert forall|i: int| 0 <= i < more.len() implies (match #[trigger] more[i] {
            Tok::Punct(c, _) => c != ',',
            Tok::Group(delimiter, _) => delimiter != Delimiter::Invisible,
            _ => true,
        }) by {
            assert(more[i] == value[i + 1]);
        }
        lemma_value_is_passed_over(more, rest);
    }
}

/// Whatever else stands in `#[serde(...)]`, be it a flag, `key = value` or
/// `key(list)`, a name is found behind it as if it were not there.
pub proof fn other_attributes_are_passed_over(
    key: Seq<char>,
    value: Seq<Tok>,
    rest: Seq<Tok>,
    found: Option<Seq<char>>,
)
    requires
        key != "rename"@,
        holds_no_comma(value),
        value.len() > 0 ==> value[0] != Tok::Punct(':', true),
    ensures
        rename_in(seq![Tok::Ident(key)] + (value + (seq![Tok::Punct(',', false)] + rest)), found)
            == rename_in(rest, found),
{
    let next = seq![Tok::Punct(',', false)] + rest;
    let after = value + next;
    let tokens = seq![Tok::Ident(key)] + after;
    assert(tokens[0] == Tok::Ident(key) && opened(tokens) == tokens);
    assert(tokens.skip(1) =~= after);
    if value.len() > 0 {
        assert(after[0] == value[0]);
    } else {
        assert(after =~= next);
        assert(after[0] == Tok::Punct(',', false));
    }
    assert(opened(after) == after);
    assert(meta_path(tokens) == Ok::<(Option<Seq<char>>, Seq<Tok>), Messages>((Some(key), after)));
    lemma_value_is_passed_over(value, rest);
    assert(next[0] == Tok::Punct(',', false) && opened(next) == next);
    assert(next.skip(1) =~= rest);
}

/// Of several names in one `#[serde(...)]` the last one counts.
pub proof fn the_last_name_counts(
    joint: bool,
    text: Seq<char>,
    rest: Seq<Tok>,
    found: Option<Seq<char>>,
)
    ensures
        rename_in(text_argument("rename"@, joint, text) + rest, found) == rename_in(
            rest,
            Some(text),
        ),
{
    let tokens = text_argument("rename"@, joint, text) + rest;
    let after = tokens.skip(1);
    let value = after.skip(1);
    let next = value.skip(1);
    assert(opened(tokens) == tokens);
    assert(after[0] == Tok::Punct('=', joint) && opened(after) == after);
    assert(value[0] == Tok::Str(text) && opened(value) == value);
    assert(next[0] == Tok::Punct(',', false) && opened(next) == next);
    assert(next.skip(1) =~= rest);
    assert(meta_path(tokens) == Ok::<(Option<Seq<char>>, Seq<Tok>), Messages>(
        (Some("rename"@), after),
    ));
}

/// Of several descriptions in one `#[schema(...)]` the last one counts.
pub proof fn the_last_description_counts(
    joint: bool,
    text: Seq<char>,
    rest: Seq<Tok>,
    known: Option<Seq<char>>,
)
    ensures
        description_in(text_argument("description"@, joint, text) + rest, known)
            == description_in(rest, Some(text)),
        rest.len() == 0 ==> description_in(rest, known) == Ok::<Option<Seq<char>>, Messages>(known),
{
    let tokens = text_argument("description"@, joint, text) + rest;
    let after = tokens.skip(1);
    let value = after.skip(1);
    let next = value.skip(1);
    assert(opened(tokens) == tokens);
    assert(after[0] == Tok::Punct('=', joint) && opened(after) == after);
    assert(value[0] == Tok::Str(text) && opened(value) == value);
    assert(next[0] == Tok::Punct(',', false) && opened(next) == next);
    assert(next.skip(1) =~= rest);
    assert(meta_path(tokens) == Ok::<(Option<Seq<char>>, Seq<Tok>), Messages>(
        (Some("description"@), after),
    ));
}

/// `#[schema()]` says nothing: it is no opt-in to validation, and no description.
pub proof fn an_empty_list_says_nothing(attr: AttributeModel, known: Option<Seq<char>>)
    requires
        attr.is("schema"@),
        attr.meta->0.args == Ok::<Seq<Tok>, Messages>(Seq::empty()),
    ensures
        !is_opt_in(attr),
        description_by(attr, known) == Ok::<Option<Seq<char>>, Messages>(known),
{
}

/// `#[schema(validate)]` is the opt-in to validation.
pub proof fn validate_is_the_opt_in(attr: AttributeModel)
    requires
        attr.is("schema"@),
        attr.meta->0.args == Ok::<Seq<Tok>, Messages>(seq![Tok::Ident("validate"@)]),
    ensures
        is_opt_in(attr),
{
    let tokens = seq![Tok::Ident("validate"@)];
    assert(tokens.skip(1) =~= Seq::empty());
    assert(opened(tokens) == tokens);
    assert(meta_path(tokens) == Ok::<(Option<Seq<char>>, Seq<Tok>), Messages>(
        (Some("validate"@), Seq::empty()),
    ));
}

/// Opting in to validation makes a struct validated, and says nothing about its
/// description.
pub proof fn opting_in_is_accepted(item: ItemStructModel, i: int, known: Option<Seq<char>>)
    requires
        0 <= i < item.attrs.len(),
        is_opt_in(attribute_model(item.attrs[i])),
    ensures
        is_validated(item),
        description_by(attribute_model(item.attrs[i]), known) == Ok::<
            Option<Seq<char>>,
            Messages,
        >(known),
{
    assert(attribute_models(item.attrs)[i] == attribute_model(item.attrs[i]));
}

/// An attribute for `garde` on any field makes a struct validated.
pub proof fn garde_on_a_field_is_enough(item: ItemStructModel, i: int, j: int)
    requires
        0 <= i < item.fields.len(),
        0 <= j < item.fields[i].attrs.len(),
        attribute_model(item.fields[i].attrs[j]).is("garde"@),
    ensures
        is_validated(item),
{
    let attrs = attribute_models(item.fields[i].attrs);
    assert(attrs[j] == attribute_model(item.fields[i].attrs[j]));
    assert(has_garde(attrs));
}

/// One `Option` around a type makes no difference to its JSON schema.
pub proof fn option_does_not_change_the_json_type(ty: TypeModel)
    requires
        is_option(ty),
        first_type_arg(ty) is Some,
        !is_option(first_type_arg(ty)->0),
    ensures
        json_type_code(ty) == json_type_code(first_type_arg(ty)->0),
{
}

// ---------------------------------------------------------------------------
// The parts of a request
// ---------------------------------------------------------------------------

/// A part of a request holds the fields that come from its source, and only those.
pub proof fn part_holds_the_fields_of_its_source(infos: Seq<FieldInfoModel>, source: SourceKind)
    ensures
        forall|i: int|
            0 <= i < fields_from(infos, source).len() ==> (#[trigger] fields_from(
                infos,
                source,
            )[i]).source == source,
        fields_from(infos, source).to_multiset() == infos.to_multiset().filter(
            |info: FieldInfoModel| info.source == source,
        ),
    decreases infos.len(),
{
    broadcast use vstd::seq_lib::group_to_multiset_ensures;
    broadcast use vstd::multiset::group_multiset_axioms;

    let of_source = |info: FieldInfoModel| info.source == source;
    if infos.len() > 0 {
        let before = infos.drop_last();
        part_holds_the_fields_of_its_source(before, source);
        assert(infos =~= before.push(infos.last()));
        assert(infos.to_multiset() =~= before.to_multiset().insert(infos.last()));
        if infos.last().source == source {
            assert(infos.to_multiset().filter(of_source) =~= before.to_multiset().filter(
                of_source,
            ).insert(infos.last()));
        } else {
            assert(infos.to_multiset().filter(of_source) =~= before.to_multiset().filter(
                of_source,
            ));
        }
    } else {
        assert(infos.to_multiset().filter(of_source) =~= Multiset::empty());
        assert(fields_from(infos, source).to_multiset() =~= Multiset::empty());
    }
}

/// Every field is merged from the part that holds it, each exactly once.
pub proof fn every_field_is_merged_once(infos: Seq<FieldInfoModel>)
    ensures
        fields_by_source(used_sources(infos), infos).to_multiset() == infos.to_multiset(),
{
    broadcast use vstd::seq_lib::group_to_multiset_ensures;
    broadcast use vstd::multiset::group_multiset_axioms;

    let path = fields_from(infos, SourceKind::Path);
    let query = fields_from(infos, SourceKind::Query);
    let body = fields_from(infos, SourceKind::Body);
    lemma_used_sources(infos);
    assert(fields_by_source(used_sources(infos), infos) =~= path + query + body);
    part_holds_the_fields_of_its_source(infos, SourceKind::Path);
    part_holds_the_fields_of_its_source(infos, SourceKind::Query);
    part_holds_the_fields_of_its_source(infos, SourceKind::Body);
    vstd::seq_lib::lemma_multiset_commutative(path + query, body);
    vstd::seq_lib::lemma_multiset_commutative(path, query);
    assert((path + query + body).to_multiset() =~= infos.to_multiset());
}

proof fn lemma_used_sources(infos: Seq<FieldInfoModel>)
    ensures
        fields_by_source(used_sources(infos), infos) == fields_from(infos, SourceKind::Path)
            + fields_from(infos, SourceKind::Query) + fields_from(infos, SourceKind::Body),
{
    let all = all_sources();
    let two = all.drop_last();
    let one = two.drop_last();
    let none = one.drop_last();
    assert(two =~= seq![SourceKind::Path, SourceKind::Query]);
    assert(one =~= seq![SourceKind::Path]);
    assert(none =~= Seq::empty());
    let u0 = used_among(none, infos);
    let u1 = used_among(one, infos);
    let u2 = used_among(two, infos);
    let u3 = used_among(all, infos);
    assert(fields_by_source(u0, infos) =~= Seq::empty());
    assert(fields_by_source(u1, infos) =~= fields_from(infos, SourceKind::Path)) by {
        if fields_from(infos, SourceKind::Path).len() > 0 {
            assert(u1.drop_last() =~= u0);
        }
    }
    assert(fields_by_source(u2, infos) =~= fields_from(infos, SourceKind::Path) + fields_from(
        infos,
        SourceKind::Query,
    )) by {
        if fields_from(infos, SourceKind::Query).len() > 0 {
            assert(u2.drop_last() =~= u1);
        }
    }
    assert(fields_by_source(u3, infos) =~= fields_from(infos, SourceKind::Path) + fields_from(
        infos,
        SourceKind::Query,
    ) + fields_from(infos, SourceKind::Body)) by {
        if fields_from(infos, SourceKind::Body).len() > 0 {
            assert(u3.drop_last() =~= u2);
        }
    }
}

/// A source is extracted just where a field comes from it, none of them twice, and
/// the body last.
pub proof fn body_is_extracted_last(infos: Seq<FieldInfoModel>)
    ensures
        forall|source: SourceKind| #[trigger]
            used_sources(infos).contains(source) <==> fields_from(infos, source).len() > 0,
        used_sources(infos).no_duplicates(),
        used_sources(infos).contains(SourceKind::Body) ==> used_sources(infos).last()
            == SourceKind::Body,
{
    let all = all_sources();
    let two = all.drop_last();
    let one = two.drop_last();
    let none = one.drop_last();
    assert(two =~= seq![SourceKind::Path, SourceKind::Query]);
    assert(one =~= seq![SourceKind::Path]);
    assert(none =~= Seq::empty());
    let u1 = used_among(one, infos);
    let u2 = used_among(two, infos);
    let used = used_sources(infos);
    let path = fields_from(infos, SourceKind::Path).len() > 0;
    let query = fields_from(infos, SourceKind::Query).len() > 0;
    let body = fields_from(infos, SourceKind::Body).len() > 0;
    assert(used_among(none, infos) =~= Seq::empty());
    assert(u1 =~= if path {
        seq![SourceKind::Path]
    } else {
        Seq::empty()
    });
    assert(u2 =~= if query {
        u1.push(SourceKind::Query)
    } else {
        u1
    });
    assert(used =~= if body {
        u2.push(SourceKind::Body)
    } else {
        u2
    });
    if path {
        assert(used[0] == SourceKind::Path);
    }
    if query {
        assert(used[u1.len() as int] == SourceKind::Query);
    }
    if body {
        assert(used[u2.len() as int] == SourceKind::Body);
    }
}

/// The structs that hold the parts of a request have different names.
pub proof fn parts_have_different_names(name: Seq<char>, one: SourceKind, other: SourceKind)
    requires
        one != other,
    ensures
        part_name(name, one) != part_name(name, other),
        part_name(name, one) != unraw(name),
{
    reveal_strlit("");
    reveal_strlit("__RequestPath");
    reveal_strlit("__RequestQuery");
    reveal_strlit("__RequestBody");
    let stem = ""@ + unraw(name);
    assert(stem.len() == unraw(name).len());
    assert(part_name(name, one).skip(stem.len() as int) =~= part_suffix(one));
    assert(part_name(name, other).skip(stem.len() as int) =~= part_suffix(other));
    assert("__RequestPath"@[9] != "__RequestBody"@[9]);
    assert("__RequestPath"@[9] != "__RequestQuery"@[9]);
    assert("__RequestQuery"@[9] != "__RequestBody"@[9]);
}

/// The functions that register two endpoints have different names where the
/// endpoints have, and so have the constants that hand them out.
pub proof fn endpoints_have_names_of_their_own(one: Seq<char>, other: Seq<char>)
    requires
        unraw(one) != unraw(other),
    ensures
        register_name(one) != register_name(other),
        handle_name(one) != handle_name(other),
{
    reveal_strlit("");
    reveal_strlit("_handle");
    reveal_strlit("__openapi_register_");
    if register_name(one) == register_name(other) {
        assert(register_name(one).skip(19) =~= unraw(one));
        assert(register_name(other).skip(19) =~= unraw(other));
    }
    if handle_name(one) == handle_name(other) {
        assert(handle_name(one).len() == unraw(one).len() + 7);
        assert(handle_name(other).len() == unraw(other).len() + 7);
        assert(handle_name(one).take(unraw(one).len() as int) =~= unraw(one));
        assert(handle_name(other).take(unraw(other).len() as int) =~= unraw(other));
    }
}

/// Where requests are validated, a request is first built and validated; the handler
/// is called for a valid one only, and an invalid one is answered with the report.
pub proof fn invalid_requests_do_not_reach_the_handler(build: Seq<Tok>, state: Option<Seq<Tok>>)
    ensures
        exists|argument: Seq<Tok>|
            handler_code(true, build, state) == lexed("let __request ="@) + build + lexed(
                "; match ::sevria_service_kit::Validate::validate(&__request)"@,
            ) + grouped(
                Delimiter::Brace,
                lexed(
                    "Ok(()) => ::sevria_service_kit::http::__private::IntoResponse::into_response"@,
                ) + grouped(
                    Delimiter::Parenthesis,
                    lexed("handler"@) + #[trigger] grouped(Delimiter::Parenthesis, argument)
                        + lexed(".await,"@),
                ) + lexed(
                    ", Err(__report) => ::sevria_service_kit::http::validation_response(__report),"@,
                ),
            ),
{
    let argument = match state {
        Some(s) => lexed("::sevria_service_kit::http::Context::new"@) + grouped(
            Delimiter::Parenthesis,
            lexed("__request,"@) + s,
        ),
        None => lexed("__request"@),
    };
    assert(grouped(Delimiter::Parenthesis, argument).len() == 1);
}

// ---------------------------------------------------------------------------
// Responses
// ---------------------------------------------------------------------------

/// A response has no `data` where its data type is the unit type, and no `meta`
/// where that is not asked for or its type is the unit type.
pub proof fn unit_types_are_left_out(attr: ResponseAttrModel, ty: TypeModel)
    requires
        !path_is_named(ty, "ErrorResponse"@),
        is_unit(type_at(type_args(ty), 0)),
        !attr.include_meta || is_unit(type_at(type_args(ty), 1)),
    ensures
        response_properties_code(attr, ty) == lexed(
            "props.insert(\"success\".into(), ::sevria_service_kit::__private::serde_json::json!({\"type\": \"boolean\"}));"@,
        ),
{
    assert(response_properties_code(attr, ty) =~= lexed(
        "props.insert(\"success\".into(), ::sevria_service_kit::__private::serde_json::json!({\"type\": \"boolean\"}));"@,
    ));
}

/// The unit type stands in for type arguments that are missing.
pub proof fn missing_arguments_are_the_unit_type(ty: TypeModel, i: int)
    requires
        i >= type_args(ty).len(),
    ensures
        is_unit(type_at(type_args(ty), i)),
{
}

/// The schema of an error response says first that there was no success, whatever
/// else it says.
pub proof fn an_error_is_no_success(attr: ResponseAttrModel, ty: TypeModel)
    requires
        path_is_named(ty, "ErrorResponse"@),
    ensures
        lexed(
            "props.insert(\"success\".into(), ::sevria_service_kit::__private::serde_json::json!({\"type\": \"boolean\", \"example\": false}));"@,
        ).is_prefix_of(response_properties_code(attr, ty)),
{
    let first = lexed(
        "props.insert(\"success\".into(), ::sevria_service_kit::__private::serde_json::json!({\"type\": \"boolean\", \"example\": false}));"@,
    );
    let all = response_properties_code(attr, ty);
    assert(all.take(first.len() as int) =~= first);
}

/// Only a success response has a constructor.
pub proof fn only_a_success_can_be_constructed(ty: TypeModel)
    ensures
        constructor_code(ty).len() > 0 <==> path_is_named(ty, "Response"@),
{
}

// ---------------------------------------------------------------------------
// Routers
// ---------------------------------------------------------------------------

/// The positions of the endpoints among the items, in order.
pub open spec fn endpoint_positions(items: Seq<Seq<Tok>>) -> Seq<int>
    decreases items.len(),
{
    if items.len() == 0 {
        Seq::empty()
    } else {
        match item_plan(items.last()) {
            Ok(Some(_)) => endpoint_positions(items.drop_last()).push(items.len() - 1),
            _ => endpoint_positions(items.drop_last()),
        }
    }
}

/// The registration of the endpoint at a position.
pub open spec fn registration_at(
    items: Seq<Seq<Tok>>,
    names: Seq<SchemaNamesModel>,
    i: int,
) -> Seq<Tok> {
    let plan = item_plan(items[i])->Ok_0->0;
    method_registration_code(plan.args, plan.sig, names[i])
}

/// A router registers each of its endpoints once and in order, each by its own
/// arguments and signature, and nothing else.
pub proof fn every_endpoint_is_registered(items: Seq<Seq<Tok>>, names: Seq<SchemaNamesModel>)
    ensures
        item_registrations(items, names) == endpoint_positions(items).map_values(
            |i: int| registration_at(items, names, i),
        ),
        forall|i: int|
            0 <= i < items.len() ==> ((item_plan(#[trigger] items[i]) matches Ok(plan)
                && plan is Some) <==> endpoint_positions(items).contains(i)),
        forall|k: int|
            0 <= k < endpoint_positions(items).len() ==> 0 <= #[trigger] endpoint_positions(
                items,
            )[k] < items.len(),
        forall|k: int, l: int|
            0 <= k < l < endpoint_positions(items).len() ==> #[trigger] endpoint_positions(items)[k]
                < #[trigger] endpoint_positions(items)[l],
    decreases items.len(),
{
    if items.len() > 0 {
        let before = items.drop_last();
        every_endpoint_is_registered(before, names);
        let old_ones = endpoint_positions(before);
        let all = endpoint_positions(items);
        assert forall|i: int| 0 <= i < items.len() implies ((item_plan(
            #[trigger] items[i],
        ) matches Ok(plan) && plan is Some) <==> all.contains(i)) by {
            if i < before.len() {
                assert(before[i] == items[i]);
                if old_ones.contains(i) {
                    let k = choose|k: int| 0 <= k < old_ones.len() && old_ones[k] == i;
                    assert(all[k] == i);
                }
                if all.contains(i) {
                    let k = choose|k: int| 0 <= k < all.len() && all[k] == i;
                    assert(old_ones[k] == i);
                }
            } else {
                if item_plan(items[i]) matches Ok(plan) && plan is Some {
                    assert(all[all.len() - 1] == i);
                }
            }
        }
        assert forall|k: int| 0 <= k < old_ones.len() implies registration_at(
            items,
            names,
            #[trigger] old_ones[k],
        ) == registration_at(before, names, old_ones[k]) by {
            assert(before[old_ones[k]] == items[old_ones[k]]);
        }
        assert(item_registrations(items, names) =~= all.map_values(
            |i: int| registration_at(items, names, i),
        ));
    } else {
        assert(item_registrations(items, names) =~= endpoint_positions(items).map_values(
            |i: int| registration_at(items, names, i),
        ));
    }
}

/// Where every type that a router's endpoints mention is a path, its expansion is
/// fixed.
pub proof fn router_is_fixed_for_paths(item: ItemImplModel, one: Seq<Tok>, other: Seq<Tok>)
    requires
        forall|i: int|
            0 <= i < item.items.len() ==> (item_plan(#[trigger] item.items[i]) matches Ok(
                Some(plan),
            ) ==> only_paths(plan.args)),
        is_router_code(item, one),
        is_router_code(item, other),
    ensures
        one == other,
{
    if first_fault(item.items) is None {
        let a = choose|names: Seq<SchemaNamesModel>|
            item_names_fit(item.items, names) && one == #[trigger] router_impl_code(item, names);
        let b = choose|names: Seq<SchemaNamesModel>|
            item_names_fit(item.items, names) && other == #[trigger] router_impl_code(item, names);
        lemma_same_registrations(item.items, item.items, a, b);
    }
}

proof fn lemma_same_registrations(
    items: Seq<Seq<Tok>>,
    all: Seq<Seq<Tok>>,
    one: Seq<SchemaNamesModel>,
    other: Seq<SchemaNamesModel>,
)
    requires
        items.is_prefix_of(all),
        item_names_fit(all, one),
        item_names_fit(all, other),
        forall|i: int|
            0 <= i < all.len() ==> (item_plan(#[trigger] all[i]) matches Ok(Some(plan))
                ==> only_paths(plan.args)),
    ensures
        item_registrations(items, one) == item_registrations(items, other),
    decreases items.len(),
{
    if items.len() > 0 {
        let last = items.len() - 1;
        lemma_same_registrations(items.drop_last(), all, one, other);
        assert(all[last] == items.last());
        if let Ok(Some(plan)) = item_plan(all[last]) {
            names_are_fixed_for_paths(plan.args, one[last], other[last]);
        }
    }
}

/// A router keeps each of its items, in order.
pub proof fn every_item_is_kept(items: Seq<Seq<Tok>>)
    ensures
        kept_codes(items).len() == items.len(),
        forall|i: int|
            0 <= i < items.len() ==> #[trigger] kept_codes(items)[i] == kept_code(items[i]),
        forall|i: int|
            0 <= i < items.len() && (item_plan(#[trigger] items[i]) matches Ok(plan)
                && plan is None) ==> kept_codes(items)[i] == items[i],
{
}

/// Taking off the attributes of a name leaves none of that name, and every other
/// one.
pub proof fn attributes_are_taken_off(attrs: Seq<Seq<Tok>>, name: Seq<char>)
    ensures
        forall|attr: Seq<Tok>| #[trigger]
            attrs_except(attrs, name).contains(attr) <==> attrs.contains(attr) && !attribute_model(
                attr,
            ).is(name),
        attrs_except(attrs, name).len() <= attrs.len(),
    decreases attrs.len(),
{
    if attrs.len() > 0 {
        let before = attrs.drop_last();
        attributes_are_taken_off(before, name);
        let left = attrs_except(attrs, name);
        let old_left = attrs_except(before, name);
        assert forall|attr: Seq<Tok>| #[trigger] left.contains(attr) <==> attrs.contains(attr)
            && !attribute_model(attr).is(name) by {
            if attrs.contains(attr) && !attribute_model(attr).is(name) {
                let i = choose|i: int| 0 <= i < attrs.len() && attrs[i] == attr;
                if i < before.len() {
                    assert(before[i] == attr);
                    assert(old_left.contains(attr));
                    let k = choose|k: int| 0 <= k < old_left.len() && old_left[k] == attr;
                    assert(left[k] == attr);
                } else {
                    assert(left[left.len() - 1] == attr);
                }
            }
            if left.contains(attr) {
                let k = choose|k: int| 0 <= k < left.len() && left[k] == attr;
                if k < old_left.len() {
                    assert(old_left[k] == attr);
                    assert(old_left.contains(attr));
                    let i = choose|i: int| 0 <= i < before.len() && before[i] == attr;
                    assert(attrs[i] == attr);
                } else {
                    assert(attrs[attrs.len() - 1] == attr);
                }
            }
        }
    }
}

/// Each attribute of a function stays, once, where it is written: in front of the
/// function or inside it.
pub proof fn attributes_stay_in_place(attrs: Seq<Seq<Tok>>)
    ensures
        attrs_placed(attrs, false).to_multiset().add(attrs_placed(attrs, true).to_multiset())
            == attrs.to_multiset(),
        forall|inner: bool, i: int|
            0 <= i < attrs_placed(attrs, inner).len() ==> is_inner(
                #[trigger] attrs_placed(attrs, inner)[i],
            ) == inner,
    decreases attrs.len(),
{
    broadcast use vstd::seq_lib::group_to_multiset_ensures;

    if attrs.len() > 0 {
        let before = attrs.drop_last();
        attributes_stay_in_place(before);
        assert(before.push(attrs.last()) =~= attrs);
        assert forall|inner: bool, i: int|
            0 <= i < attrs_placed(attrs, inner).len() implies is_inner(
            #[trigger] attrs_placed(attrs, inner)[i],
        ) == inner by {
            if i < attrs_placed(before, inner).len() {
                assert(attrs_placed(attrs, inner)[i] == attrs_placed(before, inner)[i]);
            }
        }
    }
    assert(attrs_placed(attrs, false).to_multiset().add(attrs_placed(attrs, true).to_multiset())
        =~= attrs.to_multiset());
}

/// A request type that the signature of a method gives counts in every respect as
/// one that the arguments give, and nothing else of the arguments changes.
pub proof fn an_inferred_request_is_as_good_as_a_given_one(
    args: OpenApiArgsModel,
    sig: SignatureModel,
    request: TypeModel,
)
    requires
        args.request is None,
        inferred_request(sig) == Ok::<Option<TypeModel>, Messages>(Some(request)),
    ensures
        method_args(args, sig) == method_args(
            OpenApiArgsModel { request: Some(request), ..args },
            sig,
        ),
        has_method_name(args, sig) == has_method_name(
            OpenApiArgsModel { request: Some(request), ..args },
            sig,
        ),
        takes_self(sig) ==> method_args(args, sig) == Ok::<OpenApiArgsModel, Messages>(
            OpenApiArgsModel { request: Some(request), ..args },
        ),
{
}

// ---------------------------------------------------------------------------
// Errors
// ---------------------------------------------------------------------------

/// An error with one message is reported by one `compile_error!`.
pub proof fn one_message_is_one_report(message: Seq<char>)
    ensures
        error_reports(seq![message]) == error_report(message),
{
    reveal_with_fuel(error_reports, 2);
    assert(seq![message].drop_last() =~= Seq::empty());
    assert(error_reports(seq![message]) =~= error_report(message));
}

} // verus!
