//! What becomes of the entries of an entity and of the scenes of a list: each is written, in full
//! and in order.
use vstd::prelude::*;

#[allow(unused_imports)]
use crate::bsn::closure::rewrite_closure;
#[allow(unused_imports)]
use crate::bsn::codegen::{
    auto_nest_tuple, closure_wrapper, entries_valid, entry_valid, from_template_constructor,
    generate_entries, generate_entry, generate_items, inherited_scene, name_from_expression,
    name_reference, patch_call, related_scenes, result_before_errors, template_constructor,
    BsnTokenStream, Generated, GeneratedList,
};
#[allow(unused_imports)]
use crate::bsn::context::{interned, position, Diag};
#[allow(unused_imports)]
use crate::bsn::patch::{joined, patch_type, patchable, streams, Env, Patch};
#[allow(unused_imports)]
use crate::bsn::sequences::{law_commas_between_all_pieces, total};
#[allow(unused_imports)]
use crate::bsn::shapes::{
    curly, group_runs, j, law_auto_nest_tuple, law_compile_error, lit, p, path, r1, r2, r3, round,
    w,
};
#[allow(unused_imports)]
use crate::bsn::types::{BsnEntry, BsnListRoot, BsnRoot, BsnSceneListItem, BsnType};
#[allow(unused_imports)]
use crate::literals::string_literal_text;
#[allow(unused_imports)]
use crate::tokens::Tok;

verus! {

/// Whether the tokens are all that an entry comes to: no name becomes known and no error is found.
pub open spec fn only_tokens(
    done: Generated,
    tokens: Seq<Tok>,
    names: Seq<Seq<char>>,
    errors: Seq<Diag>,
) -> bool {
    &&& done.tokens == Ok::<Seq<Tok>, Diag>(tokens)
    &&& done.names == names
    &&& done.errors == errors
}

/// Each entry is written as what it stands for. Patches, constants and constructors of a template
/// type go through `PatchTemplate::patch_template`, those of a type that has a template, and names
/// given by an expression, through `PatchFromTemplate::patch`.
pub proof fn law_entry_is_written(
    entry: BsnEntry,
    env: Env,
    names: Seq<Seq<char>>,
    errors: Seq<Diag>,
)
    ensures
        ({
            let s = env.site;
            let done = generate_entry(entry, env, names, errors);
            match entry {
                BsnEntry::Name(ident) => {
                    &&& done.tokens == Ok::<Seq<Tok>, Diag>(
                        name_reference(ident.text@, position(names, ident.text@), env),
                    )
                    &&& done.names == interned(names, ident.text@)
                    &&& done.errors == errors
                },
                BsnEntry::NameExpression(expr) => only_tokens(
                    done,
                    patch_call(
                        env.ecs + path("name"@, s) + path("Name"@, s),
                        "PatchFromTemplate"@,
                        "patch"@,
                        name_from_expression(expr@, env),
                        env,
                    ),
                    names,
                    errors,
                ),
                BsnEntry::FromTemplatePatch(ty) => patched(
                    done,
                    ty,
                    "PatchFromTemplate"@,
                    "patch"@,
                    env,
                    names,
                    errors,
                ),
                BsnEntry::TemplatePatch(ty) => patched(
                    done,
                    ty,
                    "PatchTemplate"@,
                    "patch_template"@,
                    env,
                    names,
                    errors,
                ),
                BsnEntry::FromTemplateConstructor(c) => only_tokens(
                    done,
                    patch_call(
                        c.type_path@,
                        "PatchFromTemplate"@,
                        "patch"@,
                        from_template_constructor(c, env),
                        env,
                    ),
                    names,
                    errors,
                ),
                BsnEntry::TemplateConstructor(c) => only_tokens(
                    done,
                    patch_call(
                        c.type_path@,
                        "PatchTemplate"@,
                        "patch_template"@,
                        template_constructor(c, env),
                        env,
                    ),
                    names,
                    errors,
                ),
                BsnEntry::TemplateConst { type_path, const_ident } => only_tokens(
                    done,
                    patch_call(
                        type_path@,
                        "PatchTemplate"@,
                        "patch_template"@,
                        r3(p('*', s), w("value"@, s), p('=', s)) + type_path@ + r3(
                            j(':', s),
                            p(':', s),
                            Tok::Ident { text: const_ident.text@, span: const_ident.span },
                        ) + r1(p(';', s)),
                        env,
                    ),
                    names,
                    errors,
                ),
                BsnEntry::SceneExpression(block) => only_tokens(
                    done,
                    r1(curly(block@, s)),
                    names,
                    errors,
                ),
                BsnEntry::InheritedScene(scene) => only_tokens(
                    done,
                    inherited_scene(scene, env),
                    names,
                    errors,
                ),
                BsnEntry::RelatedSceneList(related) => {
                    let items = related.scene_list.0.0@;
                    let scenes = generate_items(items, items.len(), env, names, errors);
                    only_tokens(
                        done,
                        related_scenes(
                            related.relationship_path@,
                            auto_nest_tuple(scenes.list, env),
                            env,
                        ),
                        scenes.names,
                        scenes.errors,
                    )
                },
                BsnEntry::AsyncClosure(closure) => {
                    let rewritten = rewrite_closure(closure.tokens@, env.ecs, s, names, Seq::empty());
                    &&& done.names == rewritten.names
                    &&& done.errors == errors
                    &&& done.tokens == match rewritten.error {
                        None => Ok(closure_wrapper(rewritten.out, rewritten.captured, env)),
                        Some(error) => Err::<Seq<Tok>, Diag>(error),
                    }
                },
            }
        }),
{
    broadcast use group_runs;
    let value = Tok::Ident { text: "value"@, span: env.site };
    assert(seq![value] =~= r1(value));
}

/// Whether an entry comes to the patch of a type: all statements of the patch, in the body of a call
/// of the method, where `value` is what is patched, by reference.
pub open spec fn patched(
    done: Generated,
    ty: BsnType,
    trait_name: Seq<char>,
    method: Seq<char>,
    env: Env,
    names: Seq<Seq<char>>,
    errors: Seq<Diag>,
) -> bool {
    let start = Patch { names, errors, assigns: Seq::empty() };
    let patch = patch_type(ty, env, start, true, r1(w("value"@, env.site)), true);
    only_tokens(
        done,
        patch_call(ty.path@, trait_name, method, joined(patch.assigns), env),
        patch.names,
        patch.errors,
    )
}

/// What is written for an entry: its tokens, or, where it is refused, a `compile_error!` in place of
/// them.
pub open spec fn piece(done: Generated) -> Seq<Tok> {
    match done.tokens {
        Ok(tokens) => tokens,
        Err(error) => path("core"@, error.span) + path("compile_error"@, error.span) + r2(
            p('!', error.span),
            curly(r1(lit(string_literal_text(error.message), error.span)), error.span),
        ),
    }
}

/// The entries of an entity are written one after the other, each as a piece of its own, with the
/// names known and the errors found by those before it.
pub proof fn law_entries_in_turn(
    entries: Seq<BsnEntry>,
    i: int,
    env: Env,
    names: Seq<Seq<char>>,
    errors: Seq<Diag>,
)
    requires
        0 <= i < entries.len(),
    ensures
        generate_entries(entries, 0, env, names, errors) == (GeneratedList {
            names,
            errors,
            list: Seq::empty(),
        }),
        ({
            let before = generate_entries(entries, i as nat, env, names, errors);
            let one = generate_entry(entries[i], env, before.names, before.errors);
            let done = generate_entries(entries, (i + 1) as nat, env, names, errors);
            &&& done.list == before.list.push(piece(one))
            &&& done.names == one.names
            &&& done.errors == one.errors
        }),
{
    let before = generate_entries(entries, i as nat, env, names, errors);
    let one = generate_entry(entries[i], env, before.names, before.errors);
    if let Err(error) = one.tokens {
        law_compile_error(error.span, string_literal_text(error.message));
    }
}

/// Every entry of an entity is written: the piece in the place of an entry is the one of that entry.
pub proof fn law_each_entry_has_its_piece(
    entries: Seq<BsnEntry>,
    count: nat,
    i: int,
    env: Env,
    names: Seq<Seq<char>>,
    errors: Seq<Diag>,
)
    requires
        0 <= i < count <= entries.len(),
    ensures
        ({
            let before = generate_entries(entries, i as nat, env, names, errors);
            let all = generate_entries(entries, count, env, names, errors);
            &&& all.list.len() == count
            &&& all.list[i] == piece(
                generate_entry(entries[i], env, before.names, before.errors),
            )
        }),
    decreases count,
{
    law_entries_in_turn(entries, count - 1, env, names, errors);
    if count > 1 {
        law_each_entry_has_its_piece(
            entries,
            (count - 1) as nat,
            if i < count - 1 { i } else { 0 },
            env,
            names,
            errors,
        );
    } else {
        assert(generate_entries(entries, 0, env, names, errors).list.len() == 0);
    }
}

/// The items of a list of scenes are written one after the other: a scene as an entity with all of
/// its entries, `bevy_scene::EntityScene(entries)`, and the statements of an expression as they are.
pub proof fn law_items_in_turn(
    items: Seq<BsnSceneListItem>,
    i: int,
    env: Env,
    names: Seq<Seq<char>>,
    errors: Seq<Diag>,
)
    requires
        0 <= i < items.len(),
    ensures
        generate_items(items, 0, env, names, errors) == (GeneratedList {
            names,
            errors,
            list: Seq::empty(),
        }),
        ({
            let s = env.site;
            let before = generate_items(items, i as nat, env, names, errors);
            let done = generate_items(items, (i + 1) as nat, env, names, errors);
            match items[i] {
                BsnSceneListItem::Scene(bsn) => {
                    let inner = generate_entries(
                        bsn.entries@,
                        bsn.entries@.len(),
                        env,
                        before.names,
                        before.errors,
                    );
                    &&& done.list == before.list.push(
                        env.scene + path("EntityScene"@, s) + r1(
                            round(auto_nest_tuple(inner.list, env), s),
                        ),
                    )
                    &&& done.names == inner.names
                    &&& done.errors == inner.errors
                },
                BsnSceneListItem::Expression(stmts) => {
                    &&& done.list == before.list.push(
                        joined(Seq::new(stmts@.len(), |k: int| stmts@[k]@)),
                    )
                    &&& done.names == before.names
                    &&& done.errors == before.errors
                },
            }
        }),
{
    broadcast use group_runs;
    if let BsnSceneListItem::Expression(stmts) = items[i] {
        assert(streams(stmts@) =~= Seq::new(stmts@.len(), |k: int| stmts@[k]@));
    }
}

/// The items written before one stay in their places, and there is one piece for each.
pub proof fn law_each_item_has_its_piece(
    items: Seq<BsnSceneListItem>,
    count: nat,
    i: int,
    env: Env,
    names: Seq<Seq<char>>,
    errors: Seq<Diag>,
)
    requires
        0 <= i < count <= items.len(),
    ensures
        ({
            let done = generate_items(items, (i + 1) as nat, env, names, errors);
            let all = generate_items(items, count, env, names, errors);
            &&& all.list.len() == count
            &&& done.list.len() == i + 1
            &&& all.list[i] == done.list[i]
        }),
    decreases count,
{
    law_items_in_turn(items, count - 1, env, names, errors);
    if count > 1 {
        law_each_item_has_its_piece(
            items,
            (count - 1) as nat,
            if i < count - 1 { i } else { 0 },
            env,
            names,
            errors,
        );
    } else {
        assert(generate_items(items, 0, env, names, errors).list.len() == 0);
    }
}

/// `bevy_scene::SceneScope({ let _res = entries; errors _res })`: a whole scene is all of its
/// entries, then every error, those found before among them.
pub proof fn law_scene_is_written(
    root: BsnRoot,
    env: Env,
    names: Seq<Seq<char>>,
    errors: Seq<Diag>,
    literals: Seq<Seq<char>>,
)
    ensures
        ({
            let s = env.site;
            let entries = root.0.entries@;
            let inner = generate_entries(entries, entries.len(), env, names, errors);
            only_tokens(
                root.generates(env, names, errors, literals),
                env.scene + path("SceneScope"@, s) + r1(
                    round(
                        result_before_errors(
                            auto_nest_tuple(inner.list, env),
                            inner.errors,
                            literals,
                            env,
                        ).toks,
                        s,
                    ),
                ),
                inner.names,
                inner.errors,
            )
        }),
{
    broadcast use group_runs;
}

/// `{ let _res = bevy_scene::SceneListScope(scenes); errors _res }`: a whole list of scenes is all
/// of its scenes, then every error, those found before among them.
pub proof fn law_scene_list_is_written(
    root: BsnListRoot,
    env: Env,
    names: Seq<Seq<char>>,
    errors: Seq<Diag>,
    literals: Seq<Seq<char>>,
)
    ensures
        ({
            let s = env.site;
            let items = root.0.0@;
            let inner = generate_items(items, items.len(), env, names, errors);
            &&& only_tokens(
                root.generates(env, names, errors, literals),
                result_before_errors(
                    env.scene + path("SceneListScope"@, s) + r1(
                        round(auto_nest_tuple(inner.list, env), s),
                    ),
                    inner.errors,
                    literals,
                    env,
                ).toks,
                inner.names,
                inner.errors,
            )
            &&& only_tokens(
                root.0.generates(env, names, errors, literals),
                auto_nest_tuple(inner.list, env),
                inner.names,
                inner.errors,
            )
        }),
{
    broadcast use group_runs;
}

/// What can be generated: an entity whose name holds no NUL, patches that can be written, related
/// scenes of entries that can be generated, and every other entry.
pub proof fn law_what_can_be_generated(entry: BsnEntry)
    ensures
        entry_valid(entry) <==> match entry {
            BsnEntry::Name(ident) => forall|i: int|
                0 <= i < ident.text@.len() ==> #[trigger] ident.text@[i] != '\0',
            BsnEntry::FromTemplatePatch(ty) => patchable(ty),
            BsnEntry::TemplatePatch(ty) => patchable(ty),
            BsnEntry::RelatedSceneList(related) => forall|i: int, k: int|
                #![trigger related.scene_list.0.0@[i]->Scene_0.entries@[k]]
                0 <= i < related.scene_list.0.0@.len() && related.scene_list.0.0@[i] is Scene && 0
                    <= k < related.scene_list.0.0@[i]->Scene_0.entries@.len() ==> entry_valid(
                    related.scene_list.0.0@[i]->Scene_0.entries@[k],
                ),
            _ => true,
        },
{
    if let BsnEntry::RelatedSceneList(related) = entry {
        let items = related.scene_list.0.0@;
        if !entry_valid(entry) {
            let i = choose|i: int|
                #![trigger items[i]]
                0 <= i < items.len() && items[i] is Scene && !entries_valid(
                    items[i]->Scene_0.entries@,
                );
            let entries = items[i]->Scene_0.entries@;
            let k = choose|k: int|
                #![trigger entries[k]]
                0 <= k < entries.len() && !entry_valid(entries[k]);
            assert(!entry_valid(related.scene_list.0.0@[i]->Scene_0.entries@[k]));
        } else {
            assert forall|i: int, k: int|
                #![trigger related.scene_list.0.0@[i]->Scene_0.entries@[k]]
                0 <= i < related.scene_list.0.0@.len() && related.scene_list.0.0@[i] is Scene && 0
                    <= k < related.scene_list.0.0@[i]->Scene_0.entries@.len() implies entry_valid(
                related.scene_list.0.0@[i]->Scene_0.entries@[k],
            ) by {
                assert(entries_valid(items[i]->Scene_0.entries@));
            }
        }
    }
}

/// A scene or a list of scenes can be generated if all of its entries can.
pub proof fn law_what_scenes_can_be_generated(root: BsnRoot, list: BsnListRoot)
    ensures
        root.is_valid() <==> forall|i: int|
            0 <= i < root.0.entries@.len() ==> entry_valid(#[trigger] root.0.entries@[i]),
        list.is_valid() <==> list.0.is_valid(),
        list.is_valid() <==> forall|i: int, k: int|
            #![trigger list.0.0@[i]->Scene_0.entries@[k]]
            0 <= i < list.0.0@.len() && list.0.0@[i] is Scene && 0 <= k
                < list.0.0@[i]->Scene_0.entries@.len() ==> entry_valid(
                list.0.0@[i]->Scene_0.entries@[k],
            ),
{
    let items = list.0.0@;
    if !list.is_valid() {
        let i = choose|i: int|
            #![trigger items[i]]
            0 <= i < items.len() && items[i] is Scene && !entries_valid(
                items[i]->Scene_0.entries@,
            );
        let entries = items[i]->Scene_0.entries@;
        let k = choose|k: int|
            #![trigger entries[k]]
            0 <= k < entries.len() && !entry_valid(entries[k]);
        assert(!entry_valid(list.0.0@[i]->Scene_0.entries@[k]));
    } else {
        assert forall|i: int, k: int|
            #![trigger list.0.0@[i]->Scene_0.entries@[k]]
            0 <= i < list.0.0@.len() && list.0.0@[i] is Scene && 0 <= k
                < list.0.0@[i]->Scene_0.entries@.len() implies entry_valid(
            list.0.0@[i]->Scene_0.entries@[k],
        ) by {
            assert(entries_valid(items[i]->Scene_0.entries@));
        }
    }
}

/// Every entry of an entity stands in what is written for the entity: all of its tokens, as one run
/// between the brackets of `auto_nest_tuple!(...)`, in the order of the entries, with a comma before
/// it if it is not the first.
pub proof fn law_each_entry_stands_in_the_scene(
    entries: Seq<BsnEntry>,
    i: int,
    env: Env,
    names: Seq<Seq<char>>,
    errors: Seq<Diag>,
)
    requires
        0 <= i < entries.len(),
    ensures
        ({
            let all = generate_entries(entries, entries.len(), env, names, errors).list;
            let before = generate_entries(entries, i as nat, env, names, errors);
            let one = piece(generate_entry(entries[i], env, before.names, before.errors));
            let written = auto_nest_tuple(all, env);
            let inside = written.last()->Group_body;
            let start = total(all, i) + i;
            &&& written.len() > 0
            &&& written.last() is Group
            &&& 0 <= start <= start + one.len() <= inside.len()
            &&& inside.subrange(start, start + one.len()) == one
            &&& i > 0 ==> inside[start - 1] == p(',', env.site)
            &&& inside.len() == total(all, entries.len() as int) + entries.len() - 1
        }),
{
    let all = generate_entries(entries, entries.len(), env, names, errors).list;
    law_each_entry_has_its_piece(entries, entries.len(), i, env, names, errors);
    law_commas_between_all_pieces(all, env.site, i);
    law_auto_nest_tuple(all, env);
}

/// Every scene of a list stands in what is written for the list, in the same way.
pub proof fn law_each_scene_stands_in_the_list(
    items: Seq<BsnSceneListItem>,
    i: int,
    env: Env,
    names: Seq<Seq<char>>,
    errors: Seq<Diag>,
)
    requires
        0 <= i < items.len(),
    ensures
        ({
            let all = generate_items(items, items.len(), env, names, errors).list;
            let one = generate_items(items, (i + 1) as nat, env, names, errors).list[i];
            let written = auto_nest_tuple(all, env);
            let inside = written.last()->Group_body;
            let start = total(all, i) + i;
            &&& written.len() > 0
            &&& written.last() is Group
            &&& 0 <= start <= start + one.len() <= inside.len()
            &&& inside.subrange(start, start + one.len()) == one
            &&& i > 0 ==> inside[start - 1] == p(',', env.site)
            &&& inside.len() == total(all, items.len() as int) + items.len() - 1
        }),
{
    let all = generate_items(items, items.len(), env, names, errors).list;
    law_each_item_has_its_piece(items, items.len(), i, env, names, errors);
    law_commas_between_all_pieces(all, env.site, i);
    law_auto_nest_tuple(all, env);
}

} // verus!
