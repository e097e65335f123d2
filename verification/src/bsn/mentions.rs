//! Entity names across a scene: every mention of a name is written with one index.
use vstd::prelude::*;

#[allow(unused_imports)]
use crate::bsn::closure::{closure_body, rewrite_closure, Rewrite};
#[allow(unused_imports)]
use crate::bsn::codegen::{
    closure_wrapper, generate_closure, generate_entries, generate_entry, generate_items,
    name_reference,
};
#[allow(unused_imports)]
use crate::bsn::context::{interned, lemma_position, position, Diag};
#[allow(unused_imports)]
use crate::bsn::laws::{
    captures_are, extends, law_captures_are_the_marked_names, law_entry_only_adds,
    law_every_entry_is_generated, law_every_item_is_generated, law_lookup_is_sequential,
    lemma_value_only_adds, lemma_variant_value_only_adds, marked_names,
};
#[allow(unused_imports)]
use crate::bsn::patch::{
    assignment, entity_reference, is_duplicate, patch_named, patch_tuple, patch_type, patch_value,
    touch_type, variant_named, variant_tuple, variant_value, Env, Patch, VariantPatch,
};
#[allow(unused_imports)]
use crate::bsn::types::{
    BsnAsyncClosure, BsnEntry, BsnFields, BsnNamedField, BsnSceneListItem, BsnType,
    BsnUnnamedField, BsnValue,
};
#[allow(unused_imports)]
use crate::literals::decimal;
#[allow(unused_imports)]
use crate::tokens::{Ident, Tok};

verus! {

/// A mention of an entity: its name, and the index that is written for it.
pub struct Mention {
    pub name: Seq<char>,
    pub index: nat,
}

/// The mention that a lookup of the name makes.
pub open spec fn looked_up_as(names: Seq<Seq<char>>, name: Seq<char>) -> Mention {
    Mention { name, index: position(names, name) }
}

/// The mentions in the patch of a type.
pub open spec fn type_mentions(
    ty: BsnType,
    env: Env,
    st: Patch,
    is_root: bool,
    path: Seq<Tok>,
) -> Seq<Mention>
    decreases ty, 2nat, 0nat,
{
    let touched = if is_root {
        st
    } else {
        st.assign(touch_type(ty.path@, env))
    };
    let start = VariantPatch {
        names: st.names,
        errors: st.errors,
        bindings: Seq::empty(),
        updates: Seq::empty(),
    };
    match (ty.enum_variant, ty.fields) {
        (Some(_), BsnFields::Named(fields)) => variant_named_mentions(
            fields@,
            fields@.len(),
            env,
            start,
        ),
        (Some(_), BsnFields::Tuple(fields)) => variant_tuple_mentions(
            fields@,
            fields@.len(),
            env,
            start,
        ),
        (None, BsnFields::Named(fields)) => named_mentions(
            fields@,
            fields@.len(),
            env,
            touched,
            path,
        ),
        (None, BsnFields::Tuple(fields)) => tuple_mentions(
            fields@,
            fields@.len(),
            env,
            touched,
            path,
        ),
    }
}

/// The mentions in the first `count` named fields of a struct.
pub open spec fn named_mentions(
    fields: Seq<BsnNamedField>,
    count: nat,
    env: Env,
    st: Patch,
    path: Seq<Tok>,
) -> Seq<Mention>
    decreases fields, 0nat, count,
{
    if count == 0 || count > fields.len() {
        Seq::empty()
    } else {
        let before = patch_named(fields, (count - 1) as nat, env, st, path);
        let field = fields[count - 1];
        named_mentions(fields, (count - 1) as nat, env, st, path) + match field.value {
            Some(value) if !is_duplicate(fields, count - 1) => value_mentions(
                value,
                env,
                before,
                path,
                field.name@,
            ),
            _ => Seq::empty(),
        }
    }
}

/// The mentions in the first `count` tuple fields of a struct.
pub open spec fn tuple_mentions(
    fields: Seq<BsnUnnamedField>,
    count: nat,
    env: Env,
    st: Patch,
    path: Seq<Tok>,
) -> Seq<Mention>
    decreases fields, 0nat, count,
{
    if count == 0 || count > fields.len() {
        Seq::empty()
    } else {
        let before = patch_tuple(fields, (count - 1) as nat, env, st, path);
        let member = Tok::Literal { text: decimal((count - 1) as nat), span: env.site };
        tuple_mentions(fields, (count - 1) as nat, env, st, path) + value_mentions(
            fields[count - 1].value,
            env,
            before,
            path,
            member,
        )
    }
}

/// The mentions in a value that a field of a struct is set to.
pub open spec fn value_mentions(
    value: BsnValue,
    env: Env,
    st: Patch,
    path: Seq<Tok>,
    member: Tok,
) -> Seq<Mention>
    decreases value, 0nat, 0nat,
{
    match value {
        BsnValue::Name(ident) => seq![looked_up_as(st.names, ident.text@)],
        BsnValue::Type(ty) if ty.enum_variant is None => type_mentions(
            ty,
            env,
            st,
            false,
            path.push(member),
        ),
        _ => Seq::empty(),
    }
}

/// The mentions in the first `count` named fields of a variant.
pub open spec fn variant_named_mentions(
    fields: Seq<BsnNamedField>,
    count: nat,
    env: Env,
    st: VariantPatch,
) -> Seq<Mention>
    decreases fields, 0nat, count,
{
    if count == 0 || count > fields.len() {
        Seq::empty()
    } else {
        let before = variant_named(fields, (count - 1) as nat, env, st);
        let field = fields[count - 1];
        variant_named_mentions(fields, (count - 1) as nat, env, st) + match field.value {
            Some(value) if !is_duplicate(fields, count - 1) => variant_value_mentions(
                value,
                env,
                before,
                field.name@,
            ),
            _ => Seq::empty(),
        }
    }
}

/// The mentions in the first `count` tuple fields of a variant.
pub open spec fn variant_tuple_mentions(
    fields: Seq<BsnUnnamedField>,
    count: nat,
    env: Env,
    st: VariantPatch,
) -> Seq<Mention>
    decreases fields, 0nat, count,
{
    if count == 0 || count > fields.len() {
        Seq::empty()
    } else {
        let before = variant_tuple(fields, (count - 1) as nat, env, st);
        let name = Tok::Ident { text: "t"@ + decimal((count - 1) as nat), span: env.site };
        variant_tuple_mentions(fields, (count - 1) as nat, env, st) + variant_value_mentions(
            fields[count - 1].value,
            env,
            before,
            name,
        )
    }
}

/// The mentions in a value that a field of a variant is set to.
pub open spec fn variant_value_mentions(
    value: BsnValue,
    env: Env,
    st: VariantPatch,
    name: Tok,
) -> Seq<Mention>
    decreases value, 0nat, 0nat,
{
    match value {
        BsnValue::Type(ty) if ty.enum_variant is None => type_mentions(
            ty,
            env,
            Patch { names: st.names, errors: st.errors, assigns: Seq::empty() },
            false,
            seq![name],
        ),
        _ => Seq::empty(),
    }
}

/// The mentions in an async closure: what it captures, as far as it is rewritten.
pub open spec fn closure_mentions(
    tokens: Seq<Tok>,
    env: Env,
    names: Seq<Seq<char>>,
) -> Seq<Mention> {
    let done = rewrite_closure(tokens, env.ecs, env.site, names, Seq::empty());
    let marked = marked_names(closure_body(tokens));
    if done.error is None {
        Seq::new(marked.len(), |k: int| Mention { name: marked[k], index: done.captured[k] as nat })
    } else {
        Seq::empty()
    }
}

/// The mentions in an entry of an entity.
pub open spec fn entry_mentions(
    entry: BsnEntry,
    env: Env,
    names: Seq<Seq<char>>,
    errors: Seq<Diag>,
) -> Seq<Mention>
    decreases entry, 0nat,
{
    let value = Tok::Ident { text: "value"@, span: env.site };
    let start = Patch { names, errors, assigns: Seq::empty() };
    match entry {
        BsnEntry::Name(ident) => seq![looked_up_as(names, ident.text@)],
        BsnEntry::TemplatePatch(ty) => type_mentions(ty, env, start, true, seq![value]),
        BsnEntry::FromTemplatePatch(ty) => type_mentions(ty, env, start, true, seq![value]),
        BsnEntry::AsyncClosure(closure) => closure_mentions(closure.tokens@, env, names),
        BsnEntry::RelatedSceneList(related) => {
            let items = related.scene_list.0.0@;
            items_mentions(items, items.len(), env, names, errors)
        },
        _ => Seq::empty(),
    }
}

/// The mentions in the first `count` entries of an entity.
pub open spec fn entries_mentions(
    entries: Seq<BsnEntry>,
    count: nat,
    env: Env,
    names: Seq<Seq<char>>,
    errors: Seq<Diag>,
) -> Seq<Mention>
    decreases entries, count,
{
    if count == 0 || count > entries.len() {
        Seq::empty()
    } else {
        let before = generate_entries(entries, (count - 1) as nat, env, names, errors);
        entries_mentions(entries, (count - 1) as nat, env, names, errors) + entry_mentions(
            entries[count - 1],
            env,
            before.names,
            before.errors,
        )
    }
}

/// The mentions in the first `count` items of a list of scenes.
pub open spec fn items_mentions(
    items: Seq<BsnSceneListItem>,
    count: nat,
    env: Env,
    names: Seq<Seq<char>>,
    errors: Seq<Diag>,
) -> Seq<Mention>
    decreases items, count,
{
    if count == 0 || count > items.len() {
        Seq::empty()
    } else {
        let before = generate_items(items, (count - 1) as nat, env, names, errors);
        items_mentions(items, (count - 1) as nat, env, names, errors) + match items[count - 1] {
            BsnSceneListItem::Scene(bsn) => entries_mentions(
                bsn.entries@,
                bsn.entries@.len(),
                env,
                before.names,
                before.errors,
            ),
            BsnSceneListItem::Expression(_) => Seq::empty(),
        }
    }
}

/// Whether each mention has the index at which its name stands among the names.
pub open spec fn mentions_hold(mentions: Seq<Mention>, names: Seq<Seq<char>>) -> bool {
    forall|k: int|
        #![trigger mentions[k]]
        0 <= k < mentions.len() ==> mentions[k].index < names.len()
            && names[mentions[k].index as int] == mentions[k].name
}

/// Mentions hold on when names are added, and so do more of them.
proof fn lemma_hold_on(
    first: Seq<Mention>,
    second: Seq<Mention>,
    before: Seq<Seq<char>>,
    after: Seq<Seq<char>>,
)
    requires
        mentions_hold(first, before),
        extends(before, after),
        mentions_hold(second, after),
    ensures
        mentions_hold(first + second, after),
{
    let all = first + second;
    assert forall|k: int| #![trigger all[k]] 0 <= k < all.len() implies all[k].index < after.len()
        && after[all[k].index as int] == all[k].name by {
        if k < first.len() {
            assert(all[k] == first[k]);
            assert(before[first[k].index as int] == after[first[k].index as int]);
        } else {
            assert(all[k] == second[k - first.len()]);
        }
    }
}

/// The mentions in a patch hold.
proof fn lemma_type_mentions(
    ty: BsnType,
    env: Env,
    st: Patch,
    is_root: bool,
    path: Seq<Tok>,
    is_ref: bool,
)
    ensures
        mentions_hold(
            type_mentions(ty, env, st, is_root, path),
            patch_type(ty, env, st, is_root, path, is_ref).names,
        ),
    decreases ty, 2nat, 0nat,
{
    let touched = if is_root {
        st
    } else {
        st.assign(touch_type(ty.path@, env))
    };
    let start = VariantPatch {
        names: st.names,
        errors: st.errors,
        bindings: Seq::empty(),
        updates: Seq::empty(),
    };
    match (ty.enum_variant, ty.fields) {
        (Some(_), BsnFields::Named(fields)) => {
            lemma_variant_named_mentions(fields@, fields@.len(), env, start);
        },
        (Some(_), BsnFields::Tuple(fields)) => {
            lemma_variant_tuple_mentions(fields@, fields@.len(), env, start);
        },
        (None, BsnFields::Named(fields)) => {
            lemma_named_mentions(fields@, fields@.len(), env, touched, path);
        },
        (None, BsnFields::Tuple(fields)) => {
            lemma_tuple_mentions(fields@, fields@.len(), env, touched, path);
        },
    }
}

/// The mentions in the named fields of a struct hold.
proof fn lemma_named_mentions(
    fields: Seq<BsnNamedField>,
    count: nat,
    env: Env,
    st: Patch,
    path: Seq<Tok>,
)
    ensures
        mentions_hold(
            named_mentions(fields, count, env, st, path),
            patch_named(fields, count, env, st, path).names,
        ),
    decreases fields, 0nat, count,
{
    if count > 0 && count <= fields.len() {
        let before = patch_named(fields, (count - 1) as nat, env, st, path);
        let field = fields[count - 1];
        lemma_named_mentions(fields, (count - 1) as nat, env, st, path);
        let first = named_mentions(fields, (count - 1) as nat, env, st, path);
        let after = patch_named(fields, count, env, st, path);
        if !is_duplicate(fields, count - 1) && field.value is Some {
            let value = field.value->0;
            lemma_value_mentions(value, env, before, path, field.name@);
            lemma_value_only_adds(value, env, before, path, field.name@);
            lemma_hold_on(
                first,
                value_mentions(value, env, before, path, field.name@),
                before.names,
                after.names,
            );
        } else {
            lemma_hold_on(first, Seq::empty(), before.names, after.names);
        }
    }
}

/// The mentions in the tuple fields of a struct hold.
proof fn lemma_tuple_mentions(
    fields: Seq<BsnUnnamedField>,
    count: nat,
    env: Env,
    st: Patch,
    path: Seq<Tok>,
)
    ensures
        mentions_hold(
            tuple_mentions(fields, count, env, st, path),
            patch_tuple(fields, count, env, st, path).names,
        ),
    decreases fields, 0nat, count,
{
    if count > 0 && count <= fields.len() {
        let before = patch_tuple(fields, (count - 1) as nat, env, st, path);
        let member = Tok::Literal { text: decimal((count - 1) as nat), span: env.site };
        let value = fields[count - 1].value;
        lemma_tuple_mentions(fields, (count - 1) as nat, env, st, path);
        lemma_value_mentions(value, env, before, path, member);
        lemma_value_only_adds(value, env, before, path, member);
        lemma_hold_on(
            tuple_mentions(fields, (count - 1) as nat, env, st, path),
            value_mentions(value, env, before, path, member),
            before.names,
            patch_tuple(fields, count, env, st, path).names,
        );
    }
}

/// The mentions in a value of a struct hold.
proof fn lemma_value_mentions(
    value: BsnValue,
    env: Env,
    st: Patch,
    path: Seq<Tok>,
    member: Tok,
)
    ensures
        mentions_hold(
            value_mentions(value, env, st, path, member),
            patch_value(value, env, st, path, member).names,
        ),
    decreases value, 0nat, 0nat,
{
    match value {
        BsnValue::Name(ident) => {
            lemma_lookup_holds(st.names, ident.text@);
        },
        BsnValue::Type(ty) => {
            if ty.enum_variant is None {
                lemma_type_mentions(ty, env, st, false, path.push(member), false);
            }
        },
        _ => {},
    }
}

/// The mention that a lookup makes holds.
proof fn lemma_lookup_holds(names: Seq<Seq<char>>, name: Seq<char>)
    ensures
        mentions_hold(seq![looked_up_as(names, name)], interned(names, name)),
{
    law_lookup_is_sequential(names, name);
    lemma_position(names, name);
}

/// The mentions in the named fields of a variant hold.
proof fn lemma_variant_named_mentions(
    fields: Seq<BsnNamedField>,
    count: nat,
    env: Env,
    st: VariantPatch,
)
    ensures
        mentions_hold(
            variant_named_mentions(fields, count, env, st),
            variant_named(fields, count, env, st).names,
        ),
    decreases fields, 0nat, count,
{
    if count > 0 && count <= fields.len() {
        let before = variant_named(fields, (count - 1) as nat, env, st);
        let field = fields[count - 1];
        lemma_variant_named_mentions(fields, (count - 1) as nat, env, st);
        let first = variant_named_mentions(fields, (count - 1) as nat, env, st);
        let after = variant_named(fields, count, env, st);
        if !is_duplicate(fields, count - 1) && field.value is Some {
            let value = field.value->0;
            lemma_variant_value_mentions(value, env, before, field.name@);
            lemma_variant_value_only_adds(
                value,
                env,
                before.names,
                before.errors,
                field.name@,
            );
            lemma_hold_on(
                first,
                variant_value_mentions(value, env, before, field.name@),
                before.names,
                after.names,
            );
        } else {
            lemma_hold_on(first, Seq::empty(), before.names, after.names);
        }
    }
}

/// The mentions in the tuple fields of a variant hold.
proof fn lemma_variant_tuple_mentions(
    fields: Seq<BsnUnnamedField>,
    count: nat,
    env: Env,
    st: VariantPatch,
)
    ensures
        mentions_hold(
            variant_tuple_mentions(fields, count, env, st),
            variant_tuple(fields, count, env, st).names,
        ),
    decreases fields, 0nat, count,
{
    if count > 0 && count <= fields.len() {
        let before = variant_tuple(fields, (count - 1) as nat, env, st);
        let name = Tok::Ident { text: "t"@ + decimal((count - 1) as nat), span: env.site };
        let value = fields[count - 1].value;
        lemma_variant_tuple_mentions(fields, (count - 1) as nat, env, st);
        lemma_variant_value_mentions(value, env, before, name);
        lemma_variant_value_only_adds(value, env, before.names, before.errors, name);
        lemma_hold_on(
            variant_tuple_mentions(fields, (count - 1) as nat, env, st),
            variant_value_mentions(value, env, before, name),
            before.names,
            variant_tuple(fields, count, env, st).names,
        );
    }
}

/// The mentions in a value of a variant hold.
proof fn lemma_variant_value_mentions(value: BsnValue, env: Env, st: VariantPatch, name: Tok)
    ensures
        mentions_hold(
            variant_value_mentions(value, env, st, name),
            variant_value(value, env, st.names, st.errors, name).names,
        ),
    decreases value, 0nat, 0nat,
{
    if let BsnValue::Type(ty) = value {
        if ty.enum_variant is None {
            let start = Patch { names: st.names, errors: st.errors, assigns: Seq::empty() };
            lemma_type_mentions(ty, env, start, false, seq![name], true);
        }
    }
}

/// The mentions in an entry hold.
proof fn lemma_entry_mentions(
    entry: BsnEntry,
    env: Env,
    names: Seq<Seq<char>>,
    errors: Seq<Diag>,
)
    requires
        generate_entry(entry, env, names, errors).names.len() <= usize::MAX,
    ensures
        mentions_hold(
            entry_mentions(entry, env, names, errors),
            generate_entry(entry, env, names, errors).names,
        ),
    decreases entry, 0nat,
{
    let value = Tok::Ident { text: "value"@, span: env.site };
    let start = Patch { names, errors, assigns: Seq::empty() };
    match entry {
        BsnEntry::Name(ident) => {
            lemma_lookup_holds(names, ident.text@);
        },
        BsnEntry::TemplatePatch(ty) => {
            lemma_type_mentions(ty, env, start, true, seq![value], true);
        },
        BsnEntry::FromTemplatePatch(ty) => {
            lemma_type_mentions(ty, env, start, true, seq![value], true);
        },
        BsnEntry::AsyncClosure(closure) => {
            let toks = closure.tokens@;
            let begin = Rewrite { names, captured: Seq::empty(), out: Seq::empty(), error: None };
            let done = rewrite_closure(toks, env.ecs, env.site, names, Seq::empty());
            if done.error is None {
                let body = closure_body(toks);
                law_captures_are_the_marked_names(body, env.site, begin);
                assert(captures_are(done.captured, 0, marked_names(body), done.names));
                assert forall|k: int| 0 <= k < marked_names(body).len() implies (
                #[trigger] done.captured[k]) < done.names.len() && done.names[done.captured[k] as int]
                    == marked_names(body)[k] by {
                    assert(done.captured[0 + k] < done.names.len());
                }
            }
        },
        BsnEntry::RelatedSceneList(related) => {
            let items = related.scene_list.0.0@;
            lemma_items_mentions(items, items.len(), env, names, errors);
        },
        _ => {},
    }
}

/// The mentions in the entries of an entity hold.
proof fn lemma_entries_mentions(
    entries: Seq<BsnEntry>,
    count: nat,
    env: Env,
    names: Seq<Seq<char>>,
    errors: Seq<Diag>,
)
    requires
        generate_entries(entries, count, env, names, errors).names.len() <= usize::MAX,
    ensures
        mentions_hold(
            entries_mentions(entries, count, env, names, errors),
            generate_entries(entries, count, env, names, errors).names,
        ),
    decreases entries, count,
{
    if count > 0 && count <= entries.len() {
        let before = generate_entries(entries, (count - 1) as nat, env, names, errors);
        let entry = entries[count - 1];
        law_entry_only_adds(entry, env, before.names, before.errors);
        lemma_entries_mentions(entries, (count - 1) as nat, env, names, errors);
        lemma_entry_mentions(entry, env, before.names, before.errors);
        lemma_hold_on(
            entries_mentions(entries, (count - 1) as nat, env, names, errors),
            entry_mentions(entry, env, before.names, before.errors),
            before.names,
            generate_entries(entries, count, env, names, errors).names,
        );
    }
}

/// The mentions in a list of scenes hold.
proof fn lemma_items_mentions(
    items: Seq<BsnSceneListItem>,
    count: nat,
    env: Env,
    names: Seq<Seq<char>>,
    errors: Seq<Diag>,
)
    requires
        generate_items(items, count, env, names, errors).names.len() <= usize::MAX,
    ensures
        mentions_hold(
            items_mentions(items, count, env, names, errors),
            generate_items(items, count, env, names, errors).names,
        ),
    decreases items, count,
{
    if count > 0 && count <= items.len() {
        let before = generate_items(items, (count - 1) as nat, env, names, errors);
        let after = generate_items(items, count, env, names, errors);
        let first = items_mentions(items, (count - 1) as nat, env, names, errors);
        match items[count - 1] {
            BsnSceneListItem::Scene(bsn) => {
                let entries = bsn.entries@;
                law_every_entry_is_generated(
                    entries,
                    entries.len(),
                    env,
                    before.names,
                    before.errors,
                );
                lemma_items_mentions(items, (count - 1) as nat, env, names, errors);
                lemma_entries_mentions(entries, entries.len(), env, before.names, before.errors);
                lemma_hold_on(
                    first,
                    entries_mentions(entries, entries.len(), env, before.names, before.errors),
                    before.names,
                    after.names,
                );
            },
            BsnSceneListItem::Expression(_) => {
                lemma_items_mentions(items, (count - 1) as nat, env, names, errors);
                lemma_hold_on(first, Seq::empty(), before.names, after.names);
            },
        }
    }
}

/// A mention is written with its index: in the reference that an entity's name becomes, in the one
/// that a field is set to, and in the list of what an async closure captures.
pub proof fn law_mentions_are_written(
    ident: Ident,
    closure: BsnAsyncClosure,
    env: Env,
    st: Patch,
    path: Seq<Tok>,
    member: Tok,
)
    requires
        generate_closure(closure.tokens@, env, st.names, st.errors).names.len() <= usize::MAX,
    ensures
        ({
            let named = entry_mentions(BsnEntry::Name(ident), env, st.names, st.errors);
            &&& named.len() == 1
            &&& generate_entry(BsnEntry::Name(ident), env, st.names, st.errors).tokens == Ok::<
                Seq<Tok>,
                Diag,
            >(name_reference(named[0].name, named[0].index, env))
        }),
        ({
            let value = BsnValue::Name(ident);
            let set = value_mentions(value, env, st, path, member);
            &&& set.len() == 1
            &&& set[0].name == ident.text@
            &&& patch_value(value, env, st, path, member).assigns == st.assigns.push(
                assignment(path, member, entity_reference(set[0].index, env), env),
            )
        }),
        ({
            let entry = BsnEntry::AsyncClosure(closure);
            let captured = entry_mentions(entry, env, st.names, st.errors);
            let done = rewrite_closure(closure.tokens@, env.ecs, env.site, st.names, Seq::empty());
            let indices = Seq::new(captured.len(), |k: int| captured[k].index as usize);
            done.error is None ==> generate_entry(entry, env, st.names, st.errors).tokens == Ok::<
                Seq<Tok>,
                Diag,
            >(closure_wrapper(done.out, indices, env))
        }),
{
    let done = rewrite_closure(closure.tokens@, env.ecs, env.site, st.names, Seq::empty());
    if done.error is None {
        let begin = Rewrite {
            names: st.names,
            captured: Seq::empty(),
            out: Seq::empty(),
            error: None,
        };
        let body = closure_body(closure.tokens@);
        law_captures_are_the_marked_names(body, env.site, begin);
        let captured = closure_mentions(closure.tokens@, env, st.names);
        assert(done.captured =~= Seq::new(captured.len(), |k: int| captured[k].index as usize));
    }
}

/// Of all mentions in the entries of an entity, as its name, as the value of a field or in an async
/// closure, and in the scenes related to it: those of one name have one index, and those of
/// different names have different ones. The names have to fit what can be indexed.
pub proof fn law_mentions_agree(
    entries: Seq<BsnEntry>,
    env: Env,
    names: Seq<Seq<char>>,
    errors: Seq<Diag>,
    i: int,
    j: int,
)
    requires
        names.no_duplicates(),
        generate_entries(entries, entries.len(), env, names, errors).names.len() <= usize::MAX,
        0 <= i < entries_mentions(entries, entries.len(), env, names, errors).len(),
        0 <= j < entries_mentions(entries, entries.len(), env, names, errors).len(),
    ensures
        ({
            let mentions = entries_mentions(entries, entries.len(), env, names, errors);
            mentions[i].name == mentions[j].name <==> mentions[i].index == mentions[j].index
        }),
{
    let mentions = entries_mentions(entries, entries.len(), env, names, errors);
    let known = generate_entries(entries, entries.len(), env, names, errors).names;
    law_every_entry_is_generated(entries, entries.len(), env, names, errors);
    lemma_entries_mentions(entries, entries.len(), env, names, errors);
    assert(known.no_duplicates());
    assert(known[mentions[i].index as int] == mentions[i].name);
    assert(known[mentions[j].index as int] == mentions[j].name);
}

/// The same of all mentions in a list of scenes.
pub proof fn law_mentions_agree_in_lists(
    items: Seq<BsnSceneListItem>,
    env: Env,
    names: Seq<Seq<char>>,
    errors: Seq<Diag>,
    i: int,
    j: int,
)
    requires
        names.no_duplicates(),
        generate_items(items, items.len(), env, names, errors).names.len() <= usize::MAX,
        0 <= i < items_mentions(items, items.len(), env, names, errors).len(),
        0 <= j < items_mentions(items, items.len(), env, names, errors).len(),
    ensures
        ({
            let mentions = items_mentions(items, items.len(), env, names, errors);
            mentions[i].name == mentions[j].name <==> mentions[i].index == mentions[j].index
        }),
{
    let mentions = items_mentions(items, items.len(), env, names, errors);
    let known = generate_items(items, items.len(), env, names, errors).names;
    law_every_item_is_generated(items, items.len(), env, names, errors);
    lemma_items_mentions(items, items.len(), env, names, errors);
    assert(known.no_duplicates());
    assert(known[mentions[i].index as int] == mentions[i].name);
    assert(known[mentions[j].index as int] == mentions[j].name);
}

} // verus!
