//! What generated code looks like, token by token.
//!
//! The laws here spell tokens out one by one, so that they can be held against the code that is
//! wanted: a run of tokens is written with [`r1`] to [`r9`], and each token says what it is.
use vstd::prelude::*;

#[allow(unused_imports)]
use crate::bsn::codegen::{
    auto_nest_tuple, closure_wrapper, comma_separated, compile_errors, from_template_constructor,
    index_literals, inherited_scene, name_from_expression, name_reference, patch_call,
    related_scenes, result_before_errors, template_constructor,
};
#[allow(unused_imports)]
use crate::bsn::context::{position, Diag};
#[allow(unused_imports)]
use crate::bsn::patch::{
    assignment, dot_separated, dotted, entity_reference, enum_statement, joined, template_path,
    touch_type, variant_pattern, Env,
};
#[allow(unused_imports)]
use crate::bsn::types::{BsnConstructor, BsnFields, BsnInheritedScene, BsnType};
#[allow(unused_imports)]
use crate::literals::{compile_error_tokens, decimal, lowercase, string_literal_text};
#[allow(unused_imports)]
use crate::tokens::{Delimiter, Ident, Literal, Tok};
use proc_macro2::Span;

verus! {

/// A word.
pub open spec fn w(text: Seq<char>, site: Span) -> Tok {
    Tok::Ident { text, span: site }
}

/// A punctuation character that stands alone.
pub open spec fn p(ch: char, site: Span) -> Tok {
    Tok::Punct { ch, joint: false, span: site }
}

/// A punctuation character that is glued to the next.
pub open spec fn j(ch: char, site: Span) -> Tok {
    Tok::Punct { ch, joint: true, span: site }
}

/// A literal.
pub open spec fn lit(text: Seq<char>, site: Span) -> Tok {
    Tok::Literal { text, span: site }
}

/// `( ... )`
pub open spec fn round(body: Seq<Tok>, site: Span) -> Tok {
    Tok::Group { delimiter: Delimiter::Parenthesis, body, span: site }
}

/// `{ ... }`
pub open spec fn curly(body: Seq<Tok>, site: Span) -> Tok {
    Tok::Group { delimiter: Delimiter::Brace, body, span: site }
}

/// `[ ... ]`
pub open spec fn square(body: Seq<Tok>, site: Span) -> Tok {
    Tok::Group { delimiter: Delimiter::Bracket, body, span: site }
}

/// No tokens.
pub open spec fn r0() -> Seq<Tok> {
    Seq::empty()
}

/// One token.
pub open spec fn r1(a: Tok) -> Seq<Tok> {
    r0().push(a)
}

/// Two tokens, one after the other.
pub open spec fn r2(a: Tok, b: Tok) -> Seq<Tok> {
    r1(a).push(b)
}

/// Three tokens, one after the other.
pub open spec fn r3(a: Tok, b: Tok, c: Tok) -> Seq<Tok> {
    r2(a, b).push(c)
}

/// Four tokens, one after the other.
pub open spec fn r4(a: Tok, b: Tok, c: Tok, d: Tok) -> Seq<Tok> {
    r3(a, b, c).push(d)
}

/// Five tokens, one after the other.
pub open spec fn r5(a: Tok, b: Tok, c: Tok, d: Tok, e: Tok) -> Seq<Tok> {
    r4(a, b, c, d).push(e)
}

/// Six tokens, one after the other.
pub open spec fn r6(a: Tok, b: Tok, c: Tok, d: Tok, e: Tok, f: Tok) -> Seq<Tok> {
    r5(a, b, c, d, e).push(f)
}

/// Seven tokens, one after the other.
pub open spec fn r7(a: Tok, b: Tok, c: Tok, d: Tok, e: Tok, f: Tok, g: Tok) -> Seq<Tok> {
    r6(a, b, c, d, e, f).push(g)
}

/// Eight tokens, one after the other.
pub open spec fn r8(a: Tok, b: Tok, c: Tok, d: Tok, e: Tok, f: Tok, g: Tok, h: Tok) -> Seq<Tok> {
    r7(a, b, c, d, e, f, g).push(h)
}

/// Nine tokens, one after the other.
pub open spec fn r9(
    a: Tok,
    b: Tok,
    c: Tok,
    d: Tok,
    e: Tok,
    f: Tok,
    g: Tok,
    h: Tok,
    i: Tok,
) -> Seq<Tok> {
    r8(a, b, c, d, e, f, g, h).push(i)
}

/// `:: word`
pub open spec fn path(text: Seq<char>, site: Span) -> Seq<Tok> {
    r3(j(':', site), p(':', site), w(text, site))
}

/// Adding a run with one token more is adding the run and then that token.
pub broadcast proof fn lemma_add_push<A>(s: Seq<A>, t: Seq<A>, x: A)
    ensures
        #[trigger] (s + t.push(x)) == (s + t).push(x),
{
    assert(s + t.push(x) =~= (s + t).push(x));
}

/// Adding no tokens changes nothing.
pub broadcast proof fn lemma_add_empty<A>(s: Seq<A>)
    ensures
        #[trigger] (s + Seq::<A>::empty()) == s,
{
    assert(s + Seq::<A>::empty() =~= s);
}

/// A run added to no tokens is the run.
pub broadcast proof fn lemma_empty_add<A>(s: Seq<A>)
    ensures
        #[trigger] (Seq::<A>::empty() + s) == s,
{
    assert(Seq::<A>::empty() + s =~= s);
}

/// Runs can be put together in any grouping.
pub broadcast proof fn lemma_add_assoc<A>(a: Seq<A>, b: Seq<A>, c: Seq<A>)
    ensures
        #[trigger] (a + (b + c)) == (a + b) + c,
{
    assert(a + (b + c) =~= (a + b) + c);
}

/// How runs of tokens are put together.
pub broadcast group group_runs {
    lemma_add_push,
    lemma_add_empty,
    lemma_empty_add,
    lemma_add_assoc,
}

/// `<Type as bevy_scene::Trait>::method(move |value, _context| { body })`
pub proof fn law_patch_call(
    ty: Seq<Tok>,
    trait_name: Seq<char>,
    method: Seq<char>,
    body: Seq<Tok>,
    env: Env,
)
    ensures
        ({
            let s = env.site;
            patch_call(ty, trait_name, method, body, env) == r1(p('<', s)) + ty + r1(w("as"@, s))
                + env.scene + path(trait_name, s) + r1(p('>', s)) + path(method, s) + r1(
                round(
                    r7(
                        w("move"@, s),
                        p('|', s),
                        w("value"@, s),
                        p(',', s),
                        w("_context"@, s),
                        p('|', s),
                        curly(body, s),
                    ),
                    s,
                ),
            )
        }),
{
    broadcast use group_runs;
}

/// `*value = Type::function(args);`
pub proof fn law_template_constructor(c: BsnConstructor, env: Env)
    ensures
        ({
            let s = env.site;
            template_constructor(c, env) == r3(p('*', s), w("value"@, s), p('=', s)) + c.type_path@
                + r5(j(':', s), p(':', s), c.function@, round(c.args@, s), p(';', s))
        }),
{
    broadcast use group_runs;
}

/// `*value = <Type as bevy_ecs::template::FromTemplate>::Template::function(args);`
pub proof fn law_from_template_constructor(c: BsnConstructor, env: Env)
    ensures
        ({
            let s = env.site;
            from_template_constructor(c, env) == r4(p('*', s), w("value"@, s), p('=', s), p('<', s))
                + c.type_path@ + r1(w("as"@, s)) + env.ecs + path("template"@, s) + path(
                "FromTemplate"@,
                s,
            ) + r1(p('>', s)) + path("Template"@, s) + r5(
                j(':', s),
                p(':', s),
                c.function@,
                round(c.args@, s),
                p(';', s),
            )
        }),
{
    broadcast use group_runs;
}

/// `::bevy_malek_async::async_ui::AsyncClosureWrapper2(closure, vec![indices],)`
pub proof fn law_closure_wrapper(closure: Seq<Tok>, indices: Seq<usize>, env: Env)
    ensures
        ({
            let s = env.site;
            let listed = comma_separated(index_literals(indices, s), s);
            closure_wrapper(closure, indices, env) == path("bevy_malek_async"@, s) + path(
                "async_ui"@,
                s,
            ) + path("AsyncClosureWrapper2"@, s) + r1(
                round(
                    closure + r5(
                        p(',', s),
                        w("vec"@, s),
                        p('!', s),
                        square(listed, s),
                        p(',', s),
                    ),
                    s,
                ),
            )
        }),
{
    broadcast use group_runs;
}

/// Each index is one literal: its digits and `usize`.
pub proof fn law_index_literals(indices: Seq<usize>, site: Span)
    ensures
        index_literals(indices, site).len() == indices.len(),
        forall|i: int|
            0 <= i < indices.len() ==> #[trigger] index_literals(indices, site)[i] == r1(
                lit(decimal(indices[i] as nat) + "usize"@, site),
            ),
{
    broadcast use group_runs;
}

/// `bevy_scene::RelatedScenes::<<Path as bevy_ecs::relationship::RelationshipTarget>
/// ::Relationship, _>::new(scenes)`
pub proof fn law_related_scenes(target: Seq<Tok>, scenes: Seq<Tok>, env: Env)
    ensures
        ({
            let s = env.site;
            related_scenes(target, scenes, env) == env.scene + path("RelatedScenes"@, s) + r4(
                j(':', s),
                p(':', s),
                j('<', s),
                p('<', s),
            ) + target + r1(w("as"@, s)) + env.ecs + path("relationship"@, s) + path(
                "RelationshipTarget"@,
                s,
            ) + r1(p('>', s)) + path("Relationship"@, s) + r3(p(',', s), w("_"@, s), p('>', s))
                + path("new"@, s) + r1(round(scenes, s))
        }),
{
    broadcast use group_runs;
}

/// `bevy_scene::NameEntityReference { name: bevy_ecs::name::Name("name".into()), index: N }`
pub proof fn law_name_reference(name: Seq<char>, index: nat, env: Env)
    ensures
        ({
            let s = env.site;
            let text = r4(
                lit(string_literal_text(name), s),
                p('.', s),
                w("into"@, s),
                round(r0(), s),
            );
            name_reference(name, index, env) == env.scene + path("NameEntityReference"@, s) + r1(
                curly(
                    r2(w("name"@, s), p(':', s)) + env.ecs + path("name"@, s) + path("Name"@, s)
                        + r5(
                        round(text, s),
                        p(',', s),
                        w("index"@, s),
                        p(':', s),
                        lit(decimal(index) + "usize"@, s),
                    ),
                    s,
                ),
            )
        }),
{
    broadcast use group_runs;
}

/// `*value = bevy_ecs::Name({ expression }.into());`
pub proof fn law_name_from_expression(expr: Seq<Tok>, env: Env)
    ensures
        ({
            let s = env.site;
            let converted = r4(curly(expr, s), p('.', s), w("into"@, s), round(r0(), s));
            name_from_expression(expr, env) == r3(p('*', s), w("value"@, s), p('=', s)) + env.ecs
                + path("Name"@, s) + r2(round(converted, s), p(';', s))
        }),
{
    broadcast use group_runs;
}

/// `bevy_scene::InheritSceneAsset::from("path")`, or `bevy_scene::SceneScope(function(args))`
pub proof fn law_inherited_scene(scene: BsnInheritedScene, env: Env)
    ensures
        ({
            let s = env.site;
            match scene {
                BsnInheritedScene::Asset(asset) => inherited_scene(scene, env) == env.scene + path(
                    "InheritSceneAsset"@,
                    s,
                ) + path("from"@, s) + r1(round(r1(lit(asset.text@, asset.span)), s)),
                BsnInheritedScene::Fn { function, args } => inherited_scene(scene, env)
                    == env.scene + path("SceneScope"@, s) + r1(
                    round(function@ + r1(round(args@, s)), s),
                ),
            }
        }),
{
    broadcast use group_runs;
}

/// `bevy_scene::auto_nest_tuple!(pieces)`, with commas between the pieces.
pub proof fn law_auto_nest_tuple(list: Seq<Seq<Tok>>, env: Env)
    ensures
        ({
            let s = env.site;
            auto_nest_tuple(list, env) == env.scene + path("auto_nest_tuple"@, s) + r2(
                p('!', s),
                round(comma_separated(list, s), s),
            )
        }),
{
    broadcast use group_runs;
}

/// `:: core :: compile_error ! { literal }`, all of it at the place of the error.
pub proof fn law_compile_error(span: Span, literal: Seq<char>)
    ensures
        compile_error_tokens(span, literal) == path("core"@, span) + path("compile_error"@, span) + r2(
            p('!', span),
            curly(r1(lit(literal, span)), span),
        ),
{
    broadcast use group_runs;
}

/// `{ let _res = tokens; errors _res }`, with one `compile_error!` for each error, in order.
pub proof fn law_result_before_errors(
    tokens: Seq<Tok>,
    errors: Seq<Diag>,
    literals: Seq<Seq<char>>,
    env: Env,
)
    ensures
        ({
            let s = env.site;
            let reported = Seq::new(
                errors.len(),
                |i: int| path("core"@, errors[i].span) + path("compile_error"@, errors[i].span) + r2(
                    p('!', errors[i].span),
                    curly(r1(lit(literals[i], errors[i].span)), errors[i].span),
                ),
            );
            result_before_errors(tokens, errors, literals, env).toks == r1(
                curly(
                    r3(w("let"@, s), w("_res"@, s), p('=', s)) + tokens + r1(p(';', s)) + joined(
                        reported,
                    ) + r1(w("_res"@, s)),
                    s,
                ),
            )
        }),
{
    broadcast use group_runs;
    let reported = Seq::new(
        errors.len(),
        |i: int| path("core"@, errors[i].span) + path("compile_error"@, errors[i].span) + r2(
            p('!', errors[i].span),
            curly(r1(lit(literals[i], errors[i].span)), errors[i].span),
        ),
    );
    assert forall|i: int| 0 <= i < errors.len() implies #[trigger] compile_errors(errors, literals)[i]
        == reported[i] by {
        law_compile_error(errors[i].span, literals[i]);
    }
    assert(compile_errors(errors, literals) =~= reported);
}

/// `bevy_scene::macro_utils::touch_type::<Type>();`
pub proof fn law_touch_type(ty: Seq<Tok>, env: Env)
    ensures
        ({
            let s = env.site;
            touch_type(ty, env) == env.scene + path("macro_utils"@, s) + path("touch_type"@, s) + r3(
                j(':', s),
                p(':', s),
                p('<', s),
            ) + ty + r3(p('>', s), round(r0(), s), p(';', s))
        }),
{
    broadcast use group_runs;
}

/// `a.b.field = value;`
pub proof fn law_assignment(fields: Seq<Tok>, member: Tok, value: Seq<Tok>, env: Env)
    ensures
        ({
            let s = env.site;
            assignment(fields, member, value, env) == dotted(fields, s) + r2(member, p('=', s))
                + value + r1(p(';', s))
        }),
{
    broadcast use group_runs;
}

/// `bevy_ecs::template::EntityTemplate::ScopedEntityIndex(bevy_ecs::template::ScopedEntityIndex {
/// scope: _context.current_entity_scope(), index: N })`
pub proof fn law_entity_reference(index: nat, env: Env)
    ensures
        ({
            let s = env.site;
            let inner = r6(
                w("scope"@, s),
                p(':', s),
                w("_context"@, s),
                p('.', s),
                w("current_entity_scope"@, s),
                round(r0(), s),
            ) + r4(p(',', s), w("index"@, s), p(':', s), lit(decimal(index) + "usize"@, s));
            entity_reference(index, env) == env.ecs + path("template"@, s) + path(
                "EntityTemplate"@,
                s,
            ) + path("ScopedEntityIndex"@, s) + r1(
                round(
                    env.ecs + path("template"@, s) + path("ScopedEntityIndex"@, s) + r1(
                        curly(inner, s),
                    ),
                    s,
                ),
            )
        }),
{
    broadcast use group_runs;
}

/// `bevy_scene::macro_utils::PathResolveHelper::<<Type as bevy_ecs::template::FromTemplate>
/// ::Template>`
pub proof fn law_template_path(ty: Seq<Tok>, env: Env)
    ensures
        ({
            let s = env.site;
            template_path(ty, env) == env.scene + path("macro_utils"@, s) + path(
                "PathResolveHelper"@,
                s,
            ) + r4(j(':', s), p(':', s), j('<', s), p('<', s)) + ty + r1(w("as"@, s)) + env.ecs
                + path("template"@, s) + path("FromTemplate"@, s) + r1(p('>', s)) + path(
                "Template"@,
                s,
            ) + r1(p('>', s))
        }),
{
    broadcast use group_runs;
}

/// A pattern names the variant, binds what it is given and leaves the rest open: `V { a, .. }`,
/// `V(t0, ..)`, or `V` where nothing is given by position.
pub proof fn law_variant_pattern(variant: Tok, fields: BsnFields, bindings: Seq<Tok>, env: Env)
    ensures
        ({
            let s = env.site;
            let inner = bindings + r2(j('.', s), p('.', s));
            match fields {
                BsnFields::Named(_) => variant_pattern(variant, fields, bindings, env) == r2(
                    variant,
                    curly(inner, s),
                ),
                BsnFields::Tuple(list) => variant_pattern(variant, fields, bindings, env) == if list@.len()
                    == 0 {
                    r1(variant)
                } else {
                    r2(variant, round(inner, s))
                },
            }
        }),
{
    broadcast use group_runs;
}

/// The patch of a variant, whatever its fields: a value of another variant, and no other, becomes
/// the variant's default; then the fields are set. A target that is a reference is taken as it is
/// and assigned through `*`; any other is borrowed, and assigned without it.
pub proof fn law_variant_statement(
    ty: BsnType,
    variant: Ident,
    env: Env,
    fields: Seq<Tok>,
    is_ref: bool,
    bindings: Seq<Tok>,
    updates: Seq<Tok>,
)
    ensures
        ({
            let s = env.site;
            let named = template_path(ty.path@, env) + r2(j(':', s), p(':', s));
            let borrow = if is_ref {
                r0()
            } else {
                r2(p('&', s), w("mut"@, s))
            };
            let star = if is_ref {
                r1(p('*', s))
            } else {
                r0()
            };
            let is_other = r4(p('!', s), w("matches"@, s), p('!', s), round(
                r2(w("_node"@, s), p(',', s)) + named + variant_pattern(
                    variant@,
                    ty.fields,
                    r0(),
                    env,
                ),
                s,
            ));
            let reset = star + r2(w("_node"@, s), p('=', s)) + named + r3(
                w("default_"@ + lowercase(variant.text@), s),
                round(r0(), s),
                p(';', s),
            );
            enum_statement(ty, variant, env, fields, is_ref, bindings, updates) == r1(
                curly(
                    r3(w("let"@, s), w("_node"@, s), p('=', s)) + borrow + dot_separated(fields, s)
                        + r2(p(';', s), w("if"@, s)) + is_other + r3(
                        curly(reset, s),
                        w("if"@, s),
                        w("let"@, s),
                    ) + named + variant_pattern(variant@, ty.fields, bindings, env) + r3(
                        p('=', s),
                        w("_node"@, s),
                        curly(updates, s),
                    ),
                    s,
                ),
            )
        }),
{
    broadcast use group_runs;
    if is_ref {
        assert(enum_statement(ty, variant, env, fields, is_ref, bindings, updates).len() == 1);
    } else {
        assert(enum_statement(ty, variant, env, fields, is_ref, bindings, updates).len() == 1);
    }
}

/// Whether a condition on a value holds, given whether the value is of the variant that it is
/// matched against.
pub open spec fn holds(condition: Seq<Tok>, is_variant: bool) -> bool
    decreases condition.len(),
{
    if condition.len() == 0 {
        false
    } else if condition[0] matches Tok::Punct { ch, .. } && ch == '!' {
        !holds(condition.drop_first(), is_variant)
    } else {
        condition[0] matches Tok::Ident { text, .. } && text == "matches"@ && is_variant
    }
}

/// The patch of a variant resets a value exactly if the value is of another variant: so a value of
/// the variant keeps the fields that are not given, and any other becomes the variant.
pub proof fn law_only_other_variants_are_reset(
    ty: BsnType,
    variant: Ident,
    env: Env,
    fields: Seq<Tok>,
    is_ref: bool,
    bindings: Seq<Tok>,
    updates: Seq<Tok>,
)
    ensures
        ({
            let s = env.site;
            let statement = enum_statement(ty, variant, env, fields, is_ref, bindings, updates);
            let body = statement[0]->Group_body;
            let at = 5 + dot_separated(fields, s).len() as int + if is_ref { 0int } else { 2int };
            let condition = body.subrange(at, at + 4);
            &&& statement.len() == 1
            &&& body[at - 1] == w("if"@, s)
            &&& body[at + 4] matches Tok::Group { delimiter, .. } && delimiter == Delimiter::Brace
            &&& forall|is_variant: bool| #[trigger] holds(condition, is_variant) == !is_variant
        }),
{
    let s = env.site;
    law_variant_statement(ty, variant, env, fields, is_ref, bindings, updates);
    let named = template_path(ty.path@, env) + r2(j(':', s), p(':', s));
    let borrow = if is_ref {
        r0()
    } else {
        r2(p('&', s), w("mut"@, s))
    };
    let tested = round(
        r2(w("_node"@, s), p(',', s)) + named + variant_pattern(variant@, ty.fields, r0(), env),
        s,
    );
    let is_other = r4(p('!', s), w("matches"@, s), p('!', s), tested);
    let body = enum_statement(ty, variant, env, fields, is_ref, bindings, updates)[0]->Group_body;
    let head = r3(w("let"@, s), w("_node"@, s), p('=', s)) + borrow + dot_separated(fields, s) + r2(
        p(';', s),
        w("if"@, s),
    );
    let at = 5 + dot_separated(fields, s).len() as int + if is_ref { 0int } else { 2int };
    assert(head.len() == at);
    assert(body.subrange(at, at + 4) =~= is_other);
    let unnegated = is_other.drop_first();
    assert(unnegated[0] == w("matches"@, s));
    assert(is_other[0] == p('!', s));
    assert forall|is_variant: bool| #[trigger] holds(is_other, is_variant) == !is_variant by {
        assert(holds(unnegated, is_variant) == is_variant);
    }
}

} // verus!
