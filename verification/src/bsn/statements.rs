//! What patches do: which statements are written for the fields that are given, and which errors
//! are found.
use vstd::prelude::*;

#[allow(unused_imports)]
use crate::bsn::context::{diags, interned, position, BsnCodegenCtx, Diag};
#[allow(unused_imports)]
use crate::bsn::laws::{extends, lemma_value_only_adds};
#[allow(unused_imports)]
use crate::bsn::patch::{
    dotted, entity_reference, enum_statement, env, is_duplicate, joined, members, patch_named,
    patch_state, patch_tuple, patch_type, patch_value, patchable, touch_type, variant_named,
    variant_tuple, variant_value, Env, Patch, VariantPatch,
};
#[allow(unused_imports)]
use crate::bsn::shapes::{group_runs, law_assignment, lit, p, r0, r1, r2, w};
#[allow(unused_imports)]
use crate::bsn::expressions::{law_expressions_mention_no_entity, mentions_entity};
#[allow(unused_imports)]
use crate::bsn::types::{BsnFields, BsnNamedField, BsnType, BsnUnnamedField, BsnValue, Member};
#[allow(unused_imports)]
use crate::bsn::values::{member_tok, value_printable, value_tokens};
#[allow(unused_imports)]
use crate::literals::decimal;
#[allow(unused_imports)]
use crate::tokens::{Ident, Tok, Tokens};
use proc_macro2::Span;

verus! {

/// Whether a value is a struct, which is patched field by field.
pub open spec fn is_struct(value: BsnValue) -> bool {
    value matches BsnValue::Type(ty) && ty.enum_variant is None
}

/// Whether an earlier field has the name of this one.
pub open spec fn named_before(fields: Seq<BsnNamedField>, i: int) -> bool {
    exists|k: int| 0 <= k < i && #[trigger] fields[k].name.text@ == fields[i].name.text@
}

/// `a.b.field = expression;`
pub open spec fn set_field(
    fields: Seq<Tok>,
    member: Tok,
    expression: Seq<Tok>,
    site: Span,
) -> Seq<Tok> {
    dotted(fields, site) + r2(member, p('=', site)) + expression + r1(p(';', site))
}

/// A field of a struct that is given anything but a struct gets exactly one statement, which sets it
/// to the expression of the value. A reference to a named entity is written with the index of its
/// name, and makes the name known; no other value changes what names are known. No error is found.
pub proof fn law_field_is_set(
    value: BsnValue,
    env: Env,
    st: Patch,
    fields: Seq<Tok>,
    member: Tok,
)
    requires
        !is_struct(value),
    ensures
        ({
            let done = patch_value(value, env, st, fields, member);
            let expression = match value {
                BsnValue::Name(ident) => entity_reference(position(st.names, ident.text@), env),
                _ => value_tokens(value, env.site),
            };
            &&& done.assigns == st.assigns.push(set_field(fields, member, expression, env.site))
            &&& done.errors == st.errors
            &&& done.names == match value {
                BsnValue::Name(ident) => interned(st.names, ident.text@),
                _ => st.names,
            }
        }),
{
    let expression = match value {
        BsnValue::Name(ident) => entity_reference(position(st.names, ident.text@), env),
        _ => value_tokens(value, env.site),
    };
    law_assignment(fields, member, expression, env);
}

/// A field of a struct that is given a struct is patched field by field, one level down: first the
/// type is mentioned, then each of its fields is patched at the path that leads to it.
pub proof fn law_struct_field_is_patched_inside(
    ty: BsnType,
    env: Env,
    st: Patch,
    fields: Seq<Tok>,
    member: Tok,
)
    requires
        ty.enum_variant is None,
    ensures
        ({
            let touched = Patch { assigns: st.assigns.push(touch_type(ty.path@, env)), ..st };
            patch_value(BsnValue::Type(ty), env, st, fields, member) == match ty.fields {
                BsnFields::Named(list) => patch_named(
                    list@,
                    list@.len(),
                    env,
                    touched,
                    fields.push(member),
                ),
                BsnFields::Tuple(list) => patch_tuple(
                    list@,
                    list@.len(),
                    env,
                    touched,
                    fields.push(member),
                ),
            }
        }),
{
}

/// What is patched at the root is not mentioned first, and all else is. A struct is patched by all
/// of its fields, in order; a variant by one statement.
pub proof fn law_type_is_patched(
    ty: BsnType,
    env: Env,
    st: Patch,
    is_root: bool,
    fields: Seq<Tok>,
    is_ref: bool,
)
    ensures
        ({
            let done = patch_type(ty, env, st, is_root, fields, is_ref);
            let touched = if is_root {
                st
            } else {
                Patch { assigns: st.assigns.push(touch_type(ty.path@, env)), ..st }
            };
            match (ty.enum_variant, ty.fields) {
                (None, BsnFields::Named(list)) => done == patch_named(
                    list@,
                    list@.len(),
                    env,
                    touched,
                    fields,
                ),
                (None, BsnFields::Tuple(list)) => done == patch_tuple(
                    list@,
                    list@.len(),
                    env,
                    touched,
                    fields,
                ),
                (Some(variant), _) => {
                    let given = given_fields(ty, env, st.names, st.errors);
                    &&& done.names == given.names
                    &&& done.errors == given.errors
                    &&& done.assigns == touched.assigns.push(
                        enum_statement(
                            ty,
                            variant,
                            env,
                            fields,
                            is_ref,
                            given.bindings,
                            given.updates,
                        ),
                    )
                },
            }
        }),
{
}

/// What all fields of a variant come to.
pub open spec fn given_fields(
    ty: BsnType,
    env: Env,
    names: Seq<Seq<char>>,
    errors: Seq<Diag>,
) -> VariantPatch {
    let start = VariantPatch { names, errors, bindings: r0(), updates: r0() };
    match ty.fields {
        BsnFields::Named(list) => variant_named(list@, list@.len(), env, start),
        BsnFields::Tuple(list) => variant_tuple(list@, list@.len(), env, start),
    }
}

/// The named fields of a struct are patched one after the other. A field whose name an earlier one
/// has is reported and gets no statement; a field without a value is reported and mentioned; any
/// other is patched with its value under its name.
pub proof fn law_named_fields_in_turn(
    fields: Seq<BsnNamedField>,
    i: int,
    env: Env,
    st: Patch,
    place: Seq<Tok>,
)
    requires
        0 <= i < fields.len(),
    ensures
        patch_named(fields, 0, env, st, place) == st,
        ({
            let before = patch_named(fields, i as nat, env, st, place);
            let done = patch_named(fields, (i + 1) as nat, env, st, place);
            let name = fields[i].name;
            let member = Tok::Ident { text: name.text@, span: name.span };
            if named_before(fields, i) {
                &&& done.names == before.names
                &&& done.assigns == before.assigns
                &&& done.errors == before.errors.push(
                    Diag {
                        span: name.span,
                        message: "Duplicate field `"@ + name.text@ + "` found in BSN struct"@,
                    },
                )
            } else {
                match fields[i].value {
                    Some(value) => done == patch_value(value, env, before, place, member),
                    None => {
                        &&& done.names == before.names
                        &&& done.assigns == before.assigns.push(
                            dotted(place, env.site) + r2(member, p(';', env.site)),
                        )
                        &&& done.errors == before.errors.push(
                            Diag {
                                span: name.span,
                                message: "Field `"@ + name.text@ + "` is missing a value."@,
                            },
                        )
                    },
                }
            }
        }),
{
    broadcast use group_runs;
}

/// The fields of a struct that are given by position are patched one after the other, each with its
/// value under its position.
pub proof fn law_tuple_fields_in_turn(
    fields: Seq<BsnUnnamedField>,
    i: int,
    env: Env,
    st: Patch,
    place: Seq<Tok>,
)
    requires
        0 <= i < fields.len(),
    ensures
        patch_tuple(fields, 0, env, st, place) == st,
        patch_tuple(fields, (i + 1) as nat, env, st, place) == patch_value(
            fields[i].value,
            env,
            patch_tuple(fields, i as nat, env, st, place),
            place,
            lit(decimal(i as nat), env.site),
        ),
{
}

/// The fields after one only add statements.
proof fn lemma_later_fields_only_add(
    fields: Seq<BsnNamedField>,
    from: nat,
    to: nat,
    env: Env,
    st: Patch,
    place: Seq<Tok>,
)
    requires
        from <= to <= fields.len(),
    ensures
        extends(
            patch_named(fields, from, env, st, place).assigns,
            patch_named(fields, to, env, st, place).assigns,
        ),
    decreases to,
{
    if from < to {
        let n = (to - 1) as nat;
        lemma_later_fields_only_add(fields, from, n, env, st, place);
        law_named_fields_in_turn(fields, n as int, env, st, place);
        if let Some(value) = fields[n as int].value {
            lemma_value_only_adds(
                value,
                env,
                patch_named(fields, n, env, st, place),
                place,
                fields[n as int].name@,
            );
        }
        let a = patch_named(fields, from, env, st, place).assigns;
        let b = patch_named(fields, n, env, st, place).assigns;
        let c = patch_named(fields, to, env, st, place).assigns;
        assert(extends(b, c));
        assert forall|k: int| 0 <= k < a.len() implies #[trigger] a[k] == c[k] by {
            assert(a[k] == b[k]);
        }
    }
}

/// In the patch of a struct, each field that is given a value for the first time, and not a struct,
/// has its statement, which sets it to that value, in the order in which the fields are given.
pub proof fn law_each_named_field_is_set(
    fields: Seq<BsnNamedField>,
    i: int,
    env: Env,
    st: Patch,
    place: Seq<Tok>,
)
    requires
        0 <= i < fields.len(),
        !named_before(fields, i),
        fields[i].value matches Some(value) && !is_struct(value) && !(value is Name),
    ensures
        ({
            let all = patch_named(fields, fields.len(), env, st, place).assigns;
            let at = patch_named(fields, i as nat, env, st, place).assigns.len();
            let name = fields[i].name;
            &&& at < all.len()
            &&& all[at as int] == set_field(
                place,
                Tok::Ident { text: name.text@, span: name.span },
                value_tokens(fields[i].value->0, env.site),
                env.site,
            )
        }),
{
    let before = patch_named(fields, i as nat, env, st, place);
    let after = patch_named(fields, (i + 1) as nat, env, st, place);
    let name = fields[i].name;
    law_named_fields_in_turn(fields, i, env, st, place);
    law_field_is_set(
        fields[i].value->0,
        env,
        before,
        place,
        Tok::Ident { text: name.text@, span: name.span },
    );
    lemma_later_fields_only_add(fields, (i + 1) as nat, fields.len(), env, st, place);
    assert(after.assigns[before.assigns.len() as int] == patch_named(
        fields,
        fields.len(),
        env,
        st,
        place,
    ).assigns[before.assigns.len() as int]);
}

/// The field of a variant that is bound to `name` is set through the reference that it is bound to:
/// `*name = expression;`, or, where it is given a struct, field by field.
pub proof fn law_bound_field_is_set(
    value: BsnValue,
    env: Env,
    names: Seq<Seq<char>>,
    errors: Seq<Diag>,
    name: Tok,
)
    ensures
        ({
            let s = env.site;
            let done = variant_value(value, env, names, errors, name);
            if is_struct(value) {
                let start = Patch { names, errors, assigns: Seq::empty() };
                let inner = patch_type(value->Type_0, env, start, false, r1(name), true);
                &&& done.tokens == joined(inner.assigns)
                &&& done.names == inner.names
                &&& done.errors == inner.errors
            } else {
                &&& done.tokens == r2(p('*', s), name) + r1(p('=', s)) + value_tokens(value, s)
                    + r1(p(';', s))
                &&& done.names == names
                &&& done.errors == errors
            }
        }),
{
    broadcast use group_runs;
    assert(seq![name] =~= r1(name));
}

/// The named fields of a variant are bound and set one after the other. A field whose name an
/// earlier one has is reported and neither bound nor set; a field without a value is reported, bound
/// and mentioned; any other is bound and set.
pub proof fn law_bound_fields_in_turn(
    fields: Seq<BsnNamedField>,
    i: int,
    env: Env,
    st: VariantPatch,
)
    requires
        0 <= i < fields.len(),
    ensures
        variant_named(fields, 0, env, st) == st,
        ({
            let s = env.site;
            let before = variant_named(fields, i as nat, env, st);
            let done = variant_named(fields, (i + 1) as nat, env, st);
            let name = fields[i].name;
            let word = Tok::Ident { text: name.text@, span: name.span };
            if named_before(fields, i) {
                &&& done.names == before.names
                &&& done.bindings == before.bindings
                &&& done.updates == before.updates
                &&& done.errors == before.errors.push(
                    Diag {
                        span: name.span,
                        message: "Duplicate field `"@ + name.text@ + "` found in BSN enum variant"@,
                    },
                )
            } else {
                &&& done.bindings == before.bindings + r2(word, p(',', s))
                &&& match fields[i].value {
                    Some(value) => {
                        let set = variant_value(value, env, before.names, before.errors, word);
                        &&& done.updates == before.updates + set.tokens
                        &&& done.names == set.names
                        &&& done.errors == set.errors
                    },
                    None => {
                        &&& done.updates == before.updates + r2(word, p(';', s))
                        &&& done.names == before.names
                        &&& done.errors == before.errors.push(
                            Diag {
                                span: name.span,
                                message: "Enum field `"@ + name.text@ + "` is missing a value"@,
                            },
                        )
                    },
                }
            }
        }),
{
    broadcast use group_runs;
}

/// The fields of a variant that are given by position are bound and set one after the other: the one
/// at position N is bound to `tN`.
pub proof fn law_bound_positions_in_turn(
    fields: Seq<BsnUnnamedField>,
    i: int,
    env: Env,
    st: VariantPatch,
)
    requires
        0 <= i < fields.len(),
    ensures
        variant_tuple(fields, 0, env, st) == st,
        ({
            let s = env.site;
            let before = variant_tuple(fields, i as nat, env, st);
            let done = variant_tuple(fields, (i + 1) as nat, env, st);
            let word = w("t"@ + decimal(i as nat), s);
            let set = variant_value(fields[i].value, env, before.names, before.errors, word);
            &&& done.bindings == before.bindings + r2(word, p(',', s))
            &&& done.updates == before.updates + set.tokens
            &&& done.names == set.names
            &&& done.errors == set.errors
        }),
{
    broadcast use group_runs;
}

/// Whether a value can be given for a field of a struct: a reference to a named entity, a struct
/// that can be patched, or a value that mentions no entity.
pub open spec fn can_be_given(value: BsnValue) -> bool {
    match value {
        BsnValue::Name(_) => true,
        BsnValue::Type(ty) if ty.enum_variant is None => patchable(ty),
        _ => !mentions_entity(value),
    }
}

/// What can be patched: a struct whose fields can all be given, as far as they are not repeated; and
/// a variant without a raw name, whose fields can all be given and are no entities.
pub proof fn law_what_can_be_patched(ty: BsnType)
    ensures
        patchable(ty) <==> {
            &&& ty.enum_variant matches Some(variant) ==> !(variant.text@.len() >= 2
                && variant.text@[0] == 'r' && variant.text@[1] == '#')
            &&& match ty.fields {
                BsnFields::Named(fields) => forall|i: int|
                    #![trigger fields@[i]]
                    0 <= i < fields@.len() && !named_before(fields@, i) ==> (fields@[i].value matches Some(
                        value,
                    ) ==> can_be_given(value) && (ty.enum_variant is Some ==> !(value is Name))),
                BsnFields::Tuple(fields) => {
                    &&& ty.enum_variant is None ==> fields@.len() <= u32::MAX
                    &&& forall|i: int|
                        #![trigger fields@[i]]
                        0 <= i < fields@.len() ==> can_be_given(fields@[i].value) && (
                        ty.enum_variant is Some ==> !(fields@[i].value is Name))
                },
            }
        },
{
    match ty.fields {
        BsnFields::Named(fields) => {
            assert forall|i: int| #![trigger fields@[i]] 0 <= i < fields@.len() implies (
            fields@[i].value matches Some(value) ==> value_printable(value) == !mentions_entity(
                value,
            )) by {
                if let Some(value) = fields@[i].value {
                    law_expressions_mention_no_entity(value);
                }
            }
            assert forall|i: int| 0 <= i < fields@.len() implies is_duplicate(fields@, i)
                == #[trigger] named_before(fields@, i) by {}
        },
        BsnFields::Tuple(fields) => {
            assert forall|i: int| #![trigger fields@[i]] 0 <= i < fields@.len() implies value_printable(
                fields@[i].value,
            ) == !mentions_entity(fields@[i].value) by {
                law_expressions_mention_no_entity(fields@[i].value);
            }
        },
    }
}

/// A patch is read as it is: the paths and the place of the context, its names and errors, the
/// statements in order, and the fields of a path in order.
pub proof fn law_patch_is_read_as_it_is(
    ctx: BsnCodegenCtx,
    statements: Seq<Tokens>,
    fields: Seq<Member>,
    site: Span,
)
    ensures
        env(ctx).scene == ctx.bevy_scene@,
        env(ctx).ecs == ctx.bevy_ecs@,
        env(ctx).site == ctx.call_site,
        patch_state(ctx, statements).errors == diags(ctx.errors@),
        patch_state(ctx, statements).assigns.len() == statements.len(),
        forall|i: int|
            0 <= i < statements.len() ==> #[trigger] patch_state(ctx, statements).assigns[i]
                == statements[i]@,
        members(fields, site).len() == fields.len(),
        forall|i: int|
            0 <= i < fields.len() ==> #[trigger] members(fields, site)[i] == member_tok(
                fields[i],
                site,
            ),
{
}

/// The positions after one only add statements.
proof fn lemma_later_positions_only_add(
    fields: Seq<BsnUnnamedField>,
    from: nat,
    to: nat,
    env: Env,
    st: Patch,
    place: Seq<Tok>,
)
    requires
        from <= to <= fields.len(),
    ensures
        extends(
            patch_tuple(fields, from, env, st, place).assigns,
            patch_tuple(fields, to, env, st, place).assigns,
        ),
    decreases to,
{
    if from < to {
        let n = (to - 1) as nat;
        lemma_later_positions_only_add(fields, from, n, env, st, place);
        law_tuple_fields_in_turn(fields, n as int, env, st, place);
        lemma_value_only_adds(
            fields[n as int].value,
            env,
            patch_tuple(fields, n, env, st, place),
            place,
            lit(decimal(n), env.site),
        );
        let a = patch_tuple(fields, from, env, st, place).assigns;
        let b = patch_tuple(fields, n, env, st, place).assigns;
        let c = patch_tuple(fields, to, env, st, place).assigns;
        assert forall|k: int| 0 <= k < a.len() implies #[trigger] a[k] == c[k] by {
            assert(a[k] == b[k]);
        }
    }
}

/// In the patch of a struct, each field that is given by position, and not a struct, has its
/// statement, which sets it to its value, in the order in which the fields are given.
pub proof fn law_each_tuple_field_is_set(
    fields: Seq<BsnUnnamedField>,
    i: int,
    env: Env,
    st: Patch,
    place: Seq<Tok>,
)
    requires
        0 <= i < fields.len(),
        !is_struct(fields[i].value),
        !(fields[i].value is Name),
    ensures
        ({
            let all = patch_tuple(fields, fields.len(), env, st, place).assigns;
            let at = patch_tuple(fields, i as nat, env, st, place).assigns.len();
            &&& at < all.len()
            &&& all[at as int] == set_field(
                place,
                lit(decimal(i as nat), env.site),
                value_tokens(fields[i].value, env.site),
                env.site,
            )
        }),
{
    let before = patch_tuple(fields, i as nat, env, st, place);
    let after = patch_tuple(fields, (i + 1) as nat, env, st, place);
    law_tuple_fields_in_turn(fields, i, env, st, place);
    law_field_is_set(fields[i].value, env, before, place, lit(decimal(i as nat), env.site));
    lemma_later_positions_only_add(fields, (i + 1) as nat, fields.len(), env, st, place);
    assert(after.assigns[before.assigns.len() as int] == patch_tuple(
        fields,
        fields.len(),
        env,
        st,
        place,
    ).assigns[before.assigns.len() as int]);
}

} // verus!
