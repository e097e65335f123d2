//! From scene notation to the tokens of a scene.
use vstd::prelude::*;

use crate::bsn::closure::rewrite_async_closure;
#[allow(unused_imports)]
use crate::bsn::closure::rewrite_closure;
#[allow(unused_imports)]
use crate::bsn::context::{
    are_literals_of, diags, interned, position, same_surroundings, Diag,
};
#[allow(unused_imports)]
use crate::bsn::printable::lemma_entry_error_printable;
use crate::bsn::context::{BsnCodegenCtx, Error};
use crate::bsn::patch::{join_streams, PatchTarget};
#[allow(unused_imports)]
use crate::bsn::patch::{
    env, joined, members, patch_type, patchable, streams, Env, Patch,
};
use crate::bsn::types::{
    Bsn, BsnAsyncClosure, BsnConstructor, BsnEntry, BsnInheritedScene, BsnListRoot,
    BsnRelatedSceneList, BsnRoot, BsnSceneListItem, BsnSceneListItems, BsnType, Member,
};
#[allow(unused_imports)]
use crate::bsn::values::into_call;
#[allow(unused_imports)]
use crate::literals::{
    compile_error_tokens, decimal, is_literal_of, printable, string_literal_text,
};
use crate::literals::{string_literal, usize_text};
use crate::tokens::{Ident, Literal, Quote, TokenTree, Tokens};
#[allow(unused_imports)]
use crate::tokens::{Template, Tok};
use proc_macro2::Span;

verus! {

/// Generated tokens, or the error in place of them, with the entity names known and the errors
/// found once they are written.
pub struct Generated {
    pub names: Seq<Seq<char>>,
    pub errors: Seq<Diag>,
    pub tokens: Result<Seq<Tok>, Diag>,
}

/// Several pieces of generated tokens, with the entity names known and the errors found.
pub struct GeneratedList {
    pub names: Seq<Seq<char>>,
    pub errors: Seq<Diag>,
    pub list: Seq<Seq<Tok>>,
}

impl GeneratedList {
    /// Adds a piece; an error takes the form of a `compile_error!`.
    pub open spec fn add(self, piece: Generated) -> GeneratedList {
        GeneratedList {
            names: piece.names,
            errors: piece.errors,
            list: self.list.push(
                match piece.tokens {
                    Ok(tokens) => tokens,
                    Err(diag) => compile_error_tokens(
                        diag.span,
                        string_literal_text(diag.message),
                    ),
                },
            ),
        }
    }
}

/// Token sequences, with commas between them.
pub open spec fn comma_separated(list: Seq<Seq<Tok>>, site: Span) -> Seq<Tok>
    decreases list.len(),
{
    if list.len() == 0 {
        Seq::empty()
    } else if list.len() == 1 {
        list[0]
    } else {
        Template { toks: comma_separated(list.drop_last(), site), site }.punct(',').tokens(
            list.last(),
        ).toks
    }
}

/// Numbers as literals of type `usize`.
pub open spec fn index_literals(indices: Seq<usize>, site: Span) -> Seq<Seq<Tok>> {
    Seq::new(
        indices.len(),
        |i: int| Template::at(site).literal(decimal(indices[i] as nat) + "usize"@).toks,
    )
}

/// Whether an entry can be generated: see [`patchable`]. The name of an entity can be written as a
/// literal.
pub open spec fn entry_valid(entry: BsnEntry) -> bool
    decreases entry,
{
    match entry {
        BsnEntry::Name(ident) => printable(ident.text@),
        BsnEntry::FromTemplatePatch(ty) => patchable(ty),
        BsnEntry::TemplatePatch(ty) => patchable(ty),
        BsnEntry::RelatedSceneList(related) => items_valid(related.scene_list.0.0@),
        _ => true,
    }
}

/// Whether all entries of an entity can be generated.
pub open spec fn entries_valid(entries: Seq<BsnEntry>) -> bool
    decreases entries,
{
    forall|i: int| #![trigger entries[i]] 0 <= i < entries.len() ==> entry_valid(entries[i])
}

/// Whether all items of a list of scenes can be generated.
pub open spec fn items_valid(items: Seq<BsnSceneListItem>) -> bool
    decreases items,
{
    forall|i: int|
        #![trigger items[i]]
        0 <= i < items.len() ==> match items[i] {
            BsnSceneListItem::Scene(bsn) => entries_valid(bsn.entries@),
            BsnSceneListItem::Expression(_) => true,
        }
}

/// `<Type as bevy_scene::Trait>::method(move |value, _context| { body })`
pub open spec fn patch_call(
    path: Seq<Tok>,
    trait_name: Seq<char>,
    method: Seq<char>,
    body: Seq<Tok>,
    env: Env,
) -> Seq<Tok> {
    env.t()
        .punct('<')
        .tokens(path)
        .word("as"@)
        .tokens(env.scene)
        .seg(trait_name)
        .punct('>')
        .seg(method)
        .paren(
            env.t()
                .word("move"@)
                .punct('|')
                .word("value"@)
                .punct(',')
                .word("_context"@)
                .punct('|')
                .brace(env.t().tokens(body)),
        )
        .toks
}

/// `*value = `
pub open spec fn set_value(env: Env) -> Template {
    env.t().punct('*').word("value"@).punct('=')
}

/// `Type::function(args)`
pub open spec fn constructor_call(t: Template, function: Tok, args: Seq<Tok>) -> Template {
    t.punct2(':', ':').tok(function).paren(Template::at(t.site).tokens(args))
}

/// `::bevy_malek_async::async_ui::AsyncClosureWrapper2(closure, vec![indices],)`
pub open spec fn closure_wrapper(closure: Seq<Tok>, indices: Seq<usize>, env: Env) -> Seq<Tok> {
    env.t()
        .seg("bevy_malek_async"@)
        .seg("async_ui"@)
        .seg("AsyncClosureWrapper2"@)
        .paren(
            env.t()
                .tokens(closure)
                .punct(',')
                .word("vec"@)
                .punct('!')
                .bracket(env.t().tokens(comma_separated(index_literals(indices, env.site), env.site)))
                .punct(','),
        )
        .toks
}

/// An async closure, rewritten and wrapped together with the entities it captures.
pub open spec fn generate_closure(
    tokens: Seq<Tok>,
    env: Env,
    names: Seq<Seq<char>>,
    errors: Seq<Diag>,
) -> Generated {
    let st = rewrite_closure(tokens, env.ecs, env.site, names, Seq::empty());
    Generated {
        names: st.names,
        errors,
        tokens: match st.error {
            Some(diag) => Err(diag),
            None => Ok(closure_wrapper(st.out, st.captured, env)),
        },
    }
}

/// A patch of a type, handed to a method of one of the patch traits.
pub open spec fn generate_patch(
    ty: BsnType,
    trait_name: Seq<char>,
    method: Seq<char>,
    env: Env,
    names: Seq<Seq<char>>,
    errors: Seq<Diag>,
) -> Generated {
    let value = Tok::Ident { text: "value"@, span: env.site };
    let patch = patch_type(
        ty,
        env,
        Patch { names, errors, assigns: Seq::empty() },
        true,
        seq![value],
        true,
    );
    Generated {
        names: patch.names,
        errors: patch.errors,
        tokens: Ok(patch_call(ty.path@, trait_name, method, joined(patch.assigns), env)),
    }
}

/// `bevy_scene::RelatedScenes::<<Path as bevy_ecs::relationship::RelationshipTarget>
/// ::Relationship, _>::new(scenes)`
pub open spec fn related_scenes(path: Seq<Tok>, scenes: Seq<Tok>, env: Env) -> Seq<Tok> {
    env.t()
        .tokens(env.scene)
        .seg("RelatedScenes"@)
        .punct2(':', ':')
        .punct2('<', '<')
        .tokens(path)
        .word("as"@)
        .tokens(env.ecs)
        .seg("relationship"@)
        .seg("RelationshipTarget"@)
        .punct('>')
        .seg("Relationship"@)
        .punct(',')
        .word("_"@)
        .punct('>')
        .seg("new"@)
        .paren(env.t().tokens(scenes))
        .toks
}

/// `bevy_scene::NameEntityReference { name: bevy_ecs::name::Name("name".into()), index: N }`
pub open spec fn name_reference(name: Seq<char>, index: nat, env: Env) -> Seq<Tok> {
    env.t()
        .tokens(env.scene)
        .seg("NameEntityReference"@)
        .brace(
            env.t()
                .word("name"@)
                .punct(':')
                .tokens(env.ecs)
                .seg("name"@)
                .seg("Name"@)
                .paren(into_call(env.t().literal(string_literal_text(name))))
                .punct(',')
                .word("index"@)
                .punct(':')
                .literal(decimal(index) + "usize"@),
        )
        .toks
}

/// The body that sets the name to the value of an expression.
pub open spec fn name_from_expression(expr: Seq<Tok>, env: Env) -> Seq<Tok> {
    set_value(env)
        .tokens(env.ecs)
        .seg("Name"@)
        .paren(into_call(env.t().brace(env.t().tokens(expr))))
        .punct(';')
        .toks
}

/// A scene to build upon.
pub open spec fn inherited_scene(scene: BsnInheritedScene, env: Env) -> Seq<Tok> {
    match scene {
        BsnInheritedScene::Asset(lit) => env.t()
            .tokens(env.scene)
            .seg("InheritSceneAsset"@)
            .seg("from"@)
            .paren(env.t().tok(Tok::Literal { text: lit.text@, span: lit.span }))
            .toks,
        BsnInheritedScene::Fn { function, args } => env.t()
            .tokens(env.scene)
            .seg("SceneScope"@)
            .paren(env.t().tokens(function@).paren(env.t().tokens(args@)))
            .toks,
    }
}

/// The body that sets the value to a constructor call on a template type.
pub open spec fn template_constructor(c: BsnConstructor, env: Env) -> Seq<Tok> {
    constructor_call(set_value(env).tokens(c.type_path@), c.function@, c.args@).punct(';').toks
}

/// The body that sets the value to a constructor call on the template of a type.
pub open spec fn from_template_constructor(c: BsnConstructor, env: Env) -> Seq<Tok> {
    constructor_call(
        set_value(env)
            .punct('<')
            .tokens(c.type_path@)
            .word("as"@)
            .tokens(env.ecs)
            .seg("template"@)
            .seg("FromTemplate"@)
            .punct('>')
            .seg("Template"@),
        c.function@,
        c.args@,
    ).punct(';').toks
}

/// One entry of an entity.
pub open spec fn generate_entry(
    entry: BsnEntry,
    env: Env,
    names: Seq<Seq<char>>,
    errors: Seq<Diag>,
) -> Generated
    decreases entry, 0nat,
{
    let done = |tokens: Seq<Tok>| Generated { names, errors, tokens: Ok(tokens) };
    match entry {
        BsnEntry::AsyncClosure(closure) => generate_closure(closure.tokens@, env, names, errors),
        BsnEntry::TemplatePatch(ty) => generate_patch(
            ty,
            "PatchTemplate"@,
            "patch_template"@,
            env,
            names,
            errors,
        ),
        BsnEntry::FromTemplatePatch(ty) => generate_patch(
            ty,
            "PatchFromTemplate"@,
            "patch"@,
            env,
            names,
            errors,
        ),
        BsnEntry::TemplateConst { type_path, const_ident } => done(
            patch_call(
                type_path@,
                "PatchTemplate"@,
                "patch_template"@,
                set_value(env).tokens(type_path@).punct2(':', ':').tok(const_ident@).punct(
                    ';',
                ).toks,
                env,
            ),
        ),
        BsnEntry::SceneExpression(block) => done(env.t().brace(env.t().tokens(block@)).toks),
        BsnEntry::TemplateConstructor(c) => done(
            patch_call(
                c.type_path@,
                "PatchTemplate"@,
                "patch_template"@,
                template_constructor(c, env),
                env,
            ),
        ),
        BsnEntry::FromTemplateConstructor(c) => done(
            patch_call(
                c.type_path@,
                "PatchFromTemplate"@,
                "patch"@,
                from_template_constructor(c, env),
                env,
            ),
        ),
        BsnEntry::RelatedSceneList(related) => {
            let items = related.scene_list.0.0@;
            let scenes = generate_items(items, items.len(), env, names, errors);
            Generated {
                names: scenes.names,
                errors: scenes.errors,
                tokens: Ok(
                    related_scenes(
                        related.relationship_path@,
                        auto_nest_tuple(scenes.list, env),
                        env,
                    ),
                ),
            }
        },
        BsnEntry::InheritedScene(scene) => done(inherited_scene(scene, env)),
        BsnEntry::Name(ident) => Generated {
            names: interned(names, ident.text@),
            errors,
            tokens: Ok(name_reference(ident.text@, position(names, ident.text@), env)),
        },
        BsnEntry::NameExpression(expr) => done(
            patch_call(
                env.t().tokens(env.ecs).seg("name"@).seg("Name"@).toks,
                "PatchFromTemplate"@,
                "patch"@,
                name_from_expression(expr@, env),
                env,
            ),
        ),
    }
}

/// The first `count` entries of an entity, in order.
pub open spec fn generate_entries(
    entries: Seq<BsnEntry>,
    count: nat,
    env: Env,
    names: Seq<Seq<char>>,
    errors: Seq<Diag>,
) -> GeneratedList
    decreases entries, count,
{
    if count == 0 || count > entries.len() {
        GeneratedList { names, errors, list: Seq::empty() }
    } else {
        let before = generate_entries(entries, (count - 1) as nat, env, names, errors);
        before.add(generate_entry(entries[count - 1], env, before.names, before.errors))
    }
}

/// The first `count` items of a list of scenes, in order.
pub open spec fn generate_items(
    items: Seq<BsnSceneListItem>,
    count: nat,
    env: Env,
    names: Seq<Seq<char>>,
    errors: Seq<Diag>,
) -> GeneratedList
    decreases items, count,
{
    if count == 0 || count > items.len() {
        GeneratedList { names, errors, list: Seq::empty() }
    } else {
        let before = generate_items(items, (count - 1) as nat, env, names, errors);
        match items[count - 1] {
            BsnSceneListItem::Scene(bsn) => {
                let inner = generate_entries(
                    bsn.entries@,
                    bsn.entries@.len(),
                    env,
                    before.names,
                    before.errors,
                );
                GeneratedList {
                    names: inner.names,
                    errors: inner.errors,
                    list: before.list.push(
                        env.t().tokens(env.scene).seg("EntityScene"@).paren(
                            env.t().tokens(auto_nest_tuple(inner.list, env)),
                        ).toks,
                    ),
                }
            },
            BsnSceneListItem::Expression(stmts) => GeneratedList {
                list: before.list.push(joined(streams(stmts@))),
                ..before
            },
        }
    }
}

/// `bevy_scene::auto_nest_tuple!(a, b, c)`
pub open spec fn auto_nest_tuple(list: Seq<Seq<Tok>>, env: Env) -> Seq<Tok> {
    env.t()
        .tokens(env.scene)
        .seg("auto_nest_tuple"@)
        .punct('!')
        .paren(env.t().tokens(comma_separated(list, env.site)))
        .toks
}

/// Errors, each as a `compile_error!` with its literal.
pub open spec fn compile_errors(errors: Seq<Diag>, literals: Seq<Seq<char>>) -> Seq<Seq<Tok>> {
    Seq::new(errors.len(), |i: int| compile_error_tokens(errors[i].span, literals[i]))
}

/// `{ let _res = tokens; errors _res }`: the result comes before the errors, so that what it is
/// made of can still be inferred when there are some.
pub open spec fn result_before_errors(
    tokens: Seq<Tok>,
    errors: Seq<Diag>,
    literals: Seq<Seq<char>>,
    env: Env,
) -> Template {
    env.t().brace(
        env.t()
            .word("let"@)
            .word("_res"@)
            .punct('=')
            .tokens(tokens)
            .punct(';')
            .tokens(joined(compile_errors(errors, literals)))
            .word("_res"@),
    )
}

/// Where generation stands, once tokens or an error have been written.
pub open spec fn generated(ctx: BsnCodegenCtx, tokens: Result<Tokens, Error>) -> Generated {
    Generated {
        names: ctx.entity_refs@,
        errors: diags(ctx.errors@),
        tokens: match tokens {
            Ok(tokens) => Ok(tokens@),
            Err(error) => Err(error@),
        },
    }
}

/// Where generation stands, once a list of tokens has been written.
pub open spec fn generated_list(ctx: BsnCodegenCtx, list: Seq<Tokens>) -> GeneratedList {
    GeneratedList { names: ctx.entity_refs@, errors: diags(ctx.errors@), list: streams(list) }
}

/// Token streams, with commas between them.
fn quote_comma_separated(list: &Vec<Tokens>, site: Span) -> (r: Tokens)
    ensures
        r@ == comma_separated(streams(list@), site),
{
    let mut out = Quote::at(site);
    let mut i: usize = 0;
    let ghost all = streams(list@);
    while i < list.len()
        invariant
            i <= list@.len(),
            all == streams(list@),
            out@ == (Template { toks: comma_separated(all.take(i as int), site), site }),
        decreases list@.len() - i,
    {
        if i > 0 {
            out = out.punct(',');
        }
        out = out.tokens(&list[i]);
        assert(all.take(i + 1).drop_last() =~= all.take(i as int));
        assert(i == 0 ==> out@.toks =~= all[0]);
        i += 1;
    }
    assert(all.take(i as int) =~= all);
    out.stream
}

/// `bevy_scene::auto_nest_tuple!(a, b, c)`
fn quote_auto_nest_tuple(ctx: &BsnCodegenCtx, list: &Vec<Tokens>) -> (r: Tokens)
    ensures
        r@ == auto_nest_tuple(streams(list@), env(*ctx)),
{
    let site = ctx.call_site;
    let items = quote_comma_separated(list, site);
    Quote::at(site)
        .tokens(ctx.bevy_scene)
        .seg("auto_nest_tuple")
        .punct('!')
        .paren(Quote::at(site).tokens(&items))
        .stream
}

/// `<Type as bevy_scene::Trait>::method(move |value, _context| { body })`
fn quote_patch_call(
    ctx: &BsnCodegenCtx,
    path: &Tokens,
    trait_name: &str,
    method: &str,
    body: &Tokens,
) -> (r: Tokens)
    ensures
        r@ == patch_call(path@, trait_name@, method@, body@, env(*ctx)),
{
    let site = ctx.call_site;
    let closure = Quote::at(site)
        .word("move")
        .punct('|')
        .word("value")
        .punct(',')
        .word("_context")
        .punct('|')
        .brace(Quote::at(site).tokens(body));
    Quote::at(site)
        .punct('<')
        .tokens(path)
        .word("as")
        .tokens(ctx.bevy_scene)
        .seg(trait_name)
        .punct('>')
        .seg(method)
        .paren(closure)
        .stream
}

/// `*value = `
fn quote_set_value(ctx: &BsnCodegenCtx) -> (r: Quote)
    ensures
        r@ == set_value(env(*ctx)),
{
    Quote::at(ctx.call_site).punct('*').word("value").punct('=')
}

impl BsnConstructor {
    /// The body that sets the value to a constructor call on a template type.
    fn quote_template_call(&self, ctx: &BsnCodegenCtx) -> (r: Tokens)
        ensures
            r@ == template_constructor(*self, env(*ctx)),
    {
        let site = ctx.call_site;
        quote_set_value(ctx)
            .tokens(&self.type_path)
            .punct2(':', ':')
            .ident(&self.function)
            .paren(Quote::at(site).tokens(&self.args))
            .punct(';')
            .stream
    }

    /// The body that sets the value to a constructor call on the template of a type.
    fn quote_from_template_call(&self, ctx: &BsnCodegenCtx) -> (r: Tokens)
        ensures
            r@ == from_template_constructor(*self, env(*ctx)),
    {
        let site = ctx.call_site;
        quote_set_value(ctx)
            .punct('<')
            .tokens(&self.type_path)
            .word("as")
            .tokens(ctx.bevy_ecs)
            .seg("template")
            .seg("FromTemplate")
            .punct('>')
            .seg("Template")
            .punct2(':', ':')
            .ident(&self.function)
            .paren(Quote::at(site).tokens(&self.args))
            .punct(';')
            .stream
    }
}

impl BsnInheritedScene {
    /// The scene to build upon.
    fn to_tokens(&self, ctx: &BsnCodegenCtx) -> (r: Tokens)
        ensures
            r@ == inherited_scene(*self, env(*ctx)),
    {
        let site = ctx.call_site;
        let t = Quote::at(site).tokens(ctx.bevy_scene);
        match self {
            BsnInheritedScene::Asset(lit) => {
                let literal = Literal { text: lit.text.clone(), span: lit.span };
                t.seg("InheritSceneAsset")
                    .seg("from")
                    .paren(Quote::at(site).tree(TokenTree::Literal(literal)))
                    .stream
            },
            BsnInheritedScene::Fn { function, args } => t.seg("SceneScope")
                .paren(
                    Quote::at(site)
                        .tokens(function)
                        .paren(Quote::at(site).tokens(args)),
                )
                .stream,
        }
    }
}

impl BsnAsyncClosure {
    /// Rewrites the closure and wraps it together with the indices of the entities it captures.
    pub fn to_tokens(&self, ctx: &mut BsnCodegenCtx) -> (r: Result<Tokens, Error>)
        ensures
            same_surroundings(*old(ctx), *final(ctx)),
            generated(*final(ctx), r) == generate_closure(
                self.tokens@,
                env(*old(ctx)),
                old(ctx).entity_refs@,
                diags(old(ctx).errors@),
            ),
    {
        let site = ctx.call_site;
        let mut captured_indices: Vec<usize> = Vec::new();
        let rewritten = match rewrite_async_closure(
            self.tokens.dup(),
            ctx,
            &mut captured_indices,
        ) {
            Ok(rewritten) => rewritten,
            Err(error) => {
                return Err(error);
            },
        };
        let mut literals: Vec<Tokens> = Vec::new();
        let mut i: usize = 0;
        while i < captured_indices.len()
            invariant
                i <= captured_indices@.len(),
                literals@.len() == i,
                forall|k: int|
                    0 <= k < i ==> #[trigger] literals@[k]@ == index_literals(
                        captured_indices@,
                        site,
                    )[k],
            decreases captured_indices@.len() - i,
        {
            literals.push(Quote::at(site).literal(usize_text(captured_indices[i])).stream);
            i += 1;
        }
        assert(streams(literals@) =~= index_literals(captured_indices@, site));
        let indices = quote_comma_separated(&literals, site);
        let wrapped = Quote::at(site)
            .seg("bevy_malek_async")
            .seg("async_ui")
            .seg("AsyncClosureWrapper2")
            .paren(
                Quote::at(site)
                    .tokens(&rewritten)
                    .punct(',')
                    .word("vec")
                    .punct('!')
                    .bracket(Quote::at(site).tokens(&indices))
                    .punct(','),
            );
        Ok(wrapped.stream)
    }
}

impl BsnType {
    /// The patch of the type, handed to a method of one of the patch traits.
    fn quote_patch(
        &self,
        ctx: &mut BsnCodegenCtx,
        trait_name: &str,
        method: &str,
    ) -> (r: Result<Tokens, Error>)
        requires
            patchable(*self),
        ensures
            same_surroundings(*old(ctx), *final(ctx)),
            generated(*final(ctx), r) == generate_patch(
                *self,
                trait_name@,
                method@,
                env(*old(ctx)),
                old(ctx).entity_refs@,
                diags(old(ctx).errors@),
            ),
    {
        let site = ctx.call_site;
        let mut assigns: Vec<Tokens> = Vec::new();
        let path = [Member::Named(Ident::new("value", site))];
        assert(members(path@, site) =~= seq![Tok::Ident { text: "value"@, span: site }]);
        assert(streams(assigns@) =~= Seq::empty());
        self.to_patch_tokens(
            ctx,
            &mut assigns,
            true,
            PatchTarget { path: path.as_slice(), is_ref: true },
        )?;
        let body = join_streams(&assigns);
        Ok(quote_patch_call(ctx, &self.path, trait_name, method, &body))
    }
}

impl BsnRelatedSceneList {
    /// The related scenes, given the tokens of the list.
    fn quote_scenes(&self, ctx: &BsnCodegenCtx, scenes: &Tokens) -> (r: Tokens)
        ensures
            r@ == related_scenes(self.relationship_path@, scenes@, env(*ctx)),
    {
        let site = ctx.call_site;
        Quote::at(site)
            .tokens(ctx.bevy_scene)
            .seg("RelatedScenes")
            .punct2(':', ':')
            .punct2('<', '<')
            .tokens(&self.relationship_path)
            .word("as")
            .tokens(ctx.bevy_ecs)
            .seg("relationship")
            .seg("RelationshipTarget")
            .punct('>')
            .seg("Relationship")
            .punct(',')
            .word("_")
            .punct('>')
            .seg("new")
            .paren(Quote::at(site).tokens(scenes))
            .stream
    }
}

/// `bevy_scene::NameEntityReference { name: bevy_ecs::name::Name("name".into()), index: N }`
fn quote_name_reference(ctx: &BsnCodegenCtx, name: &str, index: usize) -> (r: Tokens)
    requires
        printable(name@),
    ensures
        r@ == name_reference(name@, index as nat, env(*ctx)),
{
    let site = ctx.call_site;
    let text = Quote::at(site)
        .literal(string_literal(name))
        .punct('.')
        .word("into")
        .paren(Quote::at(site));
    Quote::at(site)
        .tokens(ctx.bevy_scene)
        .seg("NameEntityReference")
        .brace(
            Quote::at(site)
                .word("name")
                .punct(':')
                .tokens(ctx.bevy_ecs)
                .seg("name")
                .seg("Name")
                .paren(text)
                .punct(',')
                .word("index")
                .punct(':')
                .literal(usize_text(index)),
        )
        .stream
}

/// The body that sets the name to the value of an expression.
fn quote_name_from_expression(ctx: &BsnCodegenCtx, expr: &Tokens) -> (r: Tokens)
    ensures
        r@ == name_from_expression(expr@, env(*ctx)),
{
    let site = ctx.call_site;
    let value = Quote::at(site)
        .brace(Quote::at(site).tokens(expr))
        .punct('.')
        .word("into")
        .paren(Quote::at(site));
    quote_set_value(ctx)
        .tokens(ctx.bevy_ecs)
        .seg("Name")
        .paren(value)
        .punct(';')
        .stream
}

impl BsnEntry {
    /// Converts to tokens and performs validation checks.
    pub fn try_to_tokens(&self, ctx: &mut BsnCodegenCtx) -> (r: Result<Tokens, Error>)
        requires
            entry_valid(*self),
        ensures
            same_surroundings(*old(ctx), *final(ctx)),
            generated(*final(ctx), r) == generate_entry(
                *self,
                env(*old(ctx)),
                old(ctx).entity_refs@,
                diags(old(ctx).errors@),
            ),
        decreases self, 0nat,
    {
        let site = ctx.call_site;
        match self {
            BsnEntry::AsyncClosure(closure) => closure.to_tokens(ctx),
            BsnEntry::TemplatePatch(ty) => ty.quote_patch(ctx, "PatchTemplate", "patch_template"),
            BsnEntry::FromTemplatePatch(ty) => ty.quote_patch(ctx, "PatchFromTemplate", "patch"),
            BsnEntry::TemplateConst { type_path, const_ident } => {
                let body = quote_set_value(ctx)
                    .tokens(type_path)
                    .punct2(':', ':')
                    .ident(const_ident)
                    .punct(';');
                Ok(quote_patch_call(ctx, type_path, "PatchTemplate", "patch_template", &body.stream))
            },
            BsnEntry::SceneExpression(block) => Ok(
                Quote::at(site).brace(Quote::at(site).tokens(block)).stream,
            ),
            BsnEntry::TemplateConstructor(c) => {
                let body = c.quote_template_call(ctx);
                Ok(quote_patch_call(ctx, &c.type_path, "PatchTemplate", "patch_template", &body))
            },
            BsnEntry::FromTemplateConstructor(c) => {
                let body = c.quote_from_template_call(ctx);
                Ok(quote_patch_call(ctx, &c.type_path, "PatchFromTemplate", "patch", &body))
            },
            BsnEntry::RelatedSceneList(related) => {
                let list = related.scene_list.0.generate(ctx);
                let scenes = quote_auto_nest_tuple(ctx, &list);
                Ok(related.quote_scenes(ctx, &scenes))
            },
            BsnEntry::InheritedScene(scene) => Ok(scene.to_tokens(ctx)),
            BsnEntry::Name(ident) => {
                let index = ctx.entity_refs.get(ident.text.clone());
                Ok(quote_name_reference(ctx, ident.text.as_str(), index))
            },
            BsnEntry::NameExpression(expr) => {
                let path = Quote::at(site).tokens(ctx.bevy_ecs).seg("name").seg("Name");
                let body = quote_name_from_expression(ctx, expr);
                Ok(quote_patch_call(ctx, &path.stream, "PatchFromTemplate", "patch", &body))
            },
        }
    }
}

impl<const ALLOW_FLAT: bool> Bsn<ALLOW_FLAT> {
    /// The tokens of each entry, in order.
    fn generate(&self, ctx: &mut BsnCodegenCtx) -> (r: Vec<Tokens>)
        requires
            entries_valid(self.entries@),
        ensures
            same_surroundings(*old(ctx), *final(ctx)),
            generated_list(*final(ctx), r@) == generate_entries(
                self.entries@,
                self.entries@.len(),
                env(*old(ctx)),
                old(ctx).entity_refs@,
                diags(old(ctx).errors@),
            ),
        decreases self, 0nat,
    {
        let mut list: Vec<Tokens> = Vec::new();
        let mut i: usize = 0;
        assert(streams(list@) =~= Seq::empty());
        while i < self.entries.len()
            invariant
                i <= self.entries@.len(),
                entries_valid(self.entries@),
                same_surroundings(*old(ctx), *ctx),
                generated_list(*ctx, list@) == generate_entries(
                    self.entries@,
                    i as nat,
                    env(*old(ctx)),
                    old(ctx).entity_refs@,
                    diags(old(ctx).errors@),
                ),
            decreases self.entries@.len() - i,
        {
            let ghost before = list@;
            proof {
                lemma_entry_error_printable(
                    self.entries@[i as int],
                    env(*ctx),
                    ctx.entity_refs@,
                    diags(ctx.errors@),
                );
            }
            let tokens = match self.entries[i].try_to_tokens(ctx) {
                Ok(tokens) => tokens,
                Err(error) => error.to_compile_error(),
            };
            list.push(tokens);
            assert(streams(list@) =~= streams(before).push(tokens@));
            i += 1;
        }
        list
    }

    /// Converts to tokens and performs validation checks.
    /// Accumulates errors in [`BsnCodegenCtx`].
    pub fn try_to_tokens(&self, ctx: &mut BsnCodegenCtx) -> (r: Result<Tokens, Error>)
        requires
            entries_valid(self.entries@),
        ensures
            same_surroundings(*old(ctx), *final(ctx)),
            ({
                let done = generate_entries(
                    self.entries@,
                    self.entries@.len(),
                    env(*old(ctx)),
                    old(ctx).entity_refs@,
                    diags(old(ctx).errors@),
                );
                generated(*final(ctx), r) == (Generated {
                    names: done.names,
                    errors: done.errors,
                    tokens: Ok(auto_nest_tuple(done.list, env(*old(ctx)))),
                })
            }),
    {
        let list = self.generate(ctx);
        Ok(quote_auto_nest_tuple(ctx, &list))
    }

    /// Converts to tokens; an error takes the form of a `compile_error!`.
    pub fn to_tokens(&self, ctx: &mut BsnCodegenCtx) -> (r: Tokens)
        requires
            entries_valid(self.entries@),
        ensures
            same_surroundings(*old(ctx), *final(ctx)),
            ({
                let done = generate_entries(
                    self.entries@,
                    self.entries@.len(),
                    env(*old(ctx)),
                    old(ctx).entity_refs@,
                    diags(old(ctx).errors@),
                );
                &&& final(ctx).entity_refs@ == done.names
                &&& diags(final(ctx).errors@) == done.errors
                &&& r@ == auto_nest_tuple(done.list, env(*old(ctx)))
            }),
    {
        match self.try_to_tokens(ctx) {
            Ok(tokens) => tokens,
            Err(error) => error.to_compile_error(),
        }
    }
}

impl BsnSceneListItems {
    /// The tokens of each item, in order.
    fn generate(&self, ctx: &mut BsnCodegenCtx) -> (r: Vec<Tokens>)
        requires
            items_valid(self.0@),
        ensures
            same_surroundings(*old(ctx), *final(ctx)),
            generated_list(*final(ctx), r@) == generate_items(
                self.0@,
                self.0@.len(),
                env(*old(ctx)),
                old(ctx).entity_refs@,
                diags(old(ctx).errors@),
            ),
        decreases self, 0nat,
    {
        let mut list: Vec<Tokens> = Vec::new();
        let mut i: usize = 0;
        assert(streams(list@) =~= Seq::empty());
        while i < self.0.len()
            invariant
                i <= self.0@.len(),
                items_valid(self.0@),
                same_surroundings(*old(ctx), *ctx),
                generated_list(*ctx, list@) == generate_items(
                    self.0@,
                    i as nat,
                    env(*old(ctx)),
                    old(ctx).entity_refs@,
                    diags(old(ctx).errors@),
                ),
            decreases self.0@.len() - i,
        {
            let ghost before = list@;
            let site = ctx.call_site;
            let tokens = match &self.0[i] {
                BsnSceneListItem::Scene(bsn) => {
                    let entries = bsn.generate(ctx);
                    let inner = quote_auto_nest_tuple(ctx, &entries);
                    Quote::at(site)
                        .tokens(ctx.bevy_scene)
                        .seg("EntityScene")
                        .paren(Quote::at(site).tokens(&inner))
                        .stream
                },
                BsnSceneListItem::Expression(stmts) => join_streams(stmts),
            };
            list.push(tokens);
            assert(streams(list@) =~= streams(before).push(tokens@));
            i += 1;
        }
        list
    }
}

/// Something that tokens are generated from.
pub trait BsnTokenStream {
    /// Whether tokens can be generated.
    spec fn is_valid(&self) -> bool;

    /// The tokens, with the entity names known and the errors found once they are written;
    /// `literals` are the texts of the errors' messages as string literals.
    spec fn generates(
        &self,
        env: Env,
        names: Seq<Seq<char>>,
        errors: Seq<Diag>,
        literals: Seq<Seq<char>>,
    ) -> Generated;

    /// Generates the tokens.
    fn to_tokens(&self, ctx: &mut BsnCodegenCtx) -> (r: Tokens)
        requires
            self.is_valid(),
        ensures
            same_surroundings(*old(ctx), *final(ctx)),
            exists|literals: Seq<Seq<char>>| #[trigger]
                are_literals_of(diags(final(ctx).errors@), literals) && (Generated {
                    names: final(ctx).entity_refs@,
                    errors: diags(final(ctx).errors@),
                    tokens: Ok(r@),
                }) == self.generates(
                    env(*old(ctx)),
                    old(ctx).entity_refs@,
                    diags(old(ctx).errors@),
                    literals,
                ),
    ;
}

/// The errors found so far, each as a `compile_error!`.
fn quote_compile_errors(errors: &Vec<Error>) -> (r: (Tokens, Ghost<Seq<Seq<char>>>))
    ensures
        are_literals_of(diags(errors@), r.1@),
        r.0@ == joined(compile_errors(diags(errors@), r.1@)),
{
    let mut list: Vec<Tokens> = Vec::new();
    let ghost mut literals: Seq<Seq<char>> = Seq::empty();
    let mut i: usize = 0;
    while i < errors.len()
        invariant
            i <= errors@.len(),
            list@.len() == i,
            literals.len() == i,
            forall|k: int|
                #![trigger literals[k]]
                0 <= k < i ==> is_literal_of(errors@[k]@.message, literals[k]) && list@[k]@
                    == compile_error_tokens(errors@[k]@.span, literals[k]),
        decreases errors@.len() - i,
    {
        let tokens = errors[i].to_compile_error();
        proof {
            let message = errors@[i as int]@.message;
            let literal = choose|literal: Seq<char>| #[trigger]
                is_literal_of(message, literal) && tokens@ == compile_error_tokens(
                    errors@[i as int]@.span,
                    literal,
                );
            literals = literals.push(literal);
        }
        list.push(tokens);
        i += 1;
    }
    proof {
        assert forall|k: int| 0 <= k < list@.len() implies #[trigger] streams(list@)[k]
            == compile_errors(diags(errors@), literals)[k] by {
            assert(is_literal_of(errors@[k]@.message, literals[k]));
        }
        assert(streams(list@) =~= compile_errors(diags(errors@), literals));
    }
    (join_streams(&list), Ghost(literals))
}

/// `{ let _res = tokens; errors _res }`
fn quote_result_before_errors(ctx: &BsnCodegenCtx, tokens: &Tokens) -> (r: Quote)
    ensures
        exists|literals: Seq<Seq<char>>| #[trigger]
            are_literals_of(diags(ctx.errors@), literals) && r@ == result_before_errors(
                tokens@,
                diags(ctx.errors@),
                literals,
                env(*ctx),
            ),
{
    let site = ctx.call_site;
    let (errors, Ghost(literals)) = quote_compile_errors(&ctx.errors);
    let r = Quote::at(site).brace(
        Quote::at(site)
            .word("let")
            .word("_res")
            .punct('=')
            .tokens(tokens)
            .punct(';')
            .tokens(&errors)
            .word("_res"),
    );
    assert(r@ == result_before_errors(tokens@, diags(ctx.errors@), literals, env(*ctx)));
    r
}

impl BsnTokenStream for BsnSceneListItems {
    open spec fn is_valid(&self) -> bool {
        items_valid(self.0@)
    }

    open spec fn generates(
        &self,
        env: Env,
        names: Seq<Seq<char>>,
        errors: Seq<Diag>,
        literals: Seq<Seq<char>>,
    ) -> Generated {
        let done = generate_items(self.0@, self.0@.len(), env, names, errors);
        Generated {
            names: done.names,
            errors: done.errors,
            tokens: Ok(auto_nest_tuple(done.list, env)),
        }
    }

    fn to_tokens(&self, ctx: &mut BsnCodegenCtx) -> (r: Tokens) {
        let list = self.generate(ctx);
        proof {
            let errors = diags(ctx.errors@);
            let literals = Seq::new(
                errors.len(),
                |i: int| string_literal_text(errors[i].message),
            );
            assert(are_literals_of(errors, literals));
        }
        quote_auto_nest_tuple(ctx, &list)
    }
}

impl BsnTokenStream for BsnRoot {
    open spec fn is_valid(&self) -> bool {
        entries_valid(self.0.entries@)
    }

    /// `bevy_scene::SceneScope({ let _res = scene; errors _res })`
    open spec fn generates(
        &self,
        env: Env,
        names: Seq<Seq<char>>,
        errors: Seq<Diag>,
        literals: Seq<Seq<char>>,
    ) -> Generated {
        let done = generate_entries(
            self.0.entries@,
            self.0.entries@.len(),
            env,
            names,
            errors,
        );
        Generated {
            names: done.names,
            errors: done.errors,
            tokens: Ok(
                env.t()
                    .tokens(env.scene)
                    .seg("SceneScope"@)
                    .paren(
                        result_before_errors(
                            auto_nest_tuple(done.list, env),
                            done.errors,
                            literals,
                            env,
                        ),
                    )
                    .toks,
            ),
        }
    }

    fn to_tokens(&self, ctx: &mut BsnCodegenCtx) -> (r: Tokens) {
        let site = ctx.call_site;
        let tokens = self.0.to_tokens(ctx);
        let block = quote_result_before_errors(ctx, &tokens);
        Quote::at(site).tokens(ctx.bevy_scene).seg("SceneScope").paren(block).stream
    }
}

impl BsnTokenStream for BsnListRoot {
    open spec fn is_valid(&self) -> bool {
        self.0.is_valid()
    }

    /// `{ let _res = bevy_scene::SceneListScope(scenes); errors _res }`
    open spec fn generates(
        &self,
        env: Env,
        names: Seq<Seq<char>>,
        errors: Seq<Diag>,
        literals: Seq<Seq<char>>,
    ) -> Generated {
        let done = generate_items(self.0.0@, self.0.0@.len(), env, names, errors);
        let scope = env.t()
            .tokens(env.scene)
            .seg("SceneListScope"@)
            .paren(env.t().tokens(auto_nest_tuple(done.list, env)));
        Generated {
            names: done.names,
            errors: done.errors,
            tokens: Ok(result_before_errors(scope.toks, done.errors, literals, env).toks),
        }
    }

    fn to_tokens(&self, ctx: &mut BsnCodegenCtx) -> (r: Tokens) {
        let site = ctx.call_site;
        let tokens = self.0.to_tokens(ctx);
        let scope = Quote::at(site)
            .tokens(ctx.bevy_scene)
            .seg("SceneListScope")
            .paren(Quote::at(site).tokens(&tokens));
        quote_result_before_errors(ctx, &scope.stream).stream
    }
}

} // verus!
