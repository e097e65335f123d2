//! Patches: the statements that bring a template to the values given for its fields.
use vstd::prelude::*;

#[allow(unused_imports)]
use crate::bsn::context::{diags, interned, position, same_surroundings, Diag};
use crate::bsn::context::{BsnCodegenCtx, Error};
use crate::bsn::types::{BsnFields, BsnNamedField, BsnType, BsnUnnamedField, BsnValue, Member};
#[allow(unused_imports)]
use crate::bsn::values::{
    member_tok, type_printable, type_tokens, value_printable, value_tokens,
};
#[allow(unused_imports)]
use crate::literals::{decimal, lowercase};
use crate::literals::{decimal_text, to_lowercase, usize_text};
use crate::tokens::{Ident, Quote, Tokens};
#[allow(unused_imports)]
use crate::tokens::{Template, Tok};
use proc_macro2::Span;

verus! {

/// What a patch refers to besides the type: the paths of the crates, and the span of new tokens.
pub struct Env {
    pub scene: Seq<Tok>,
    pub ecs: Seq<Tok>,
    pub site: Span,
}

impl Env {
    /// An empty template.
    pub open spec fn t(self) -> Template {
        Template::at(self.site)
    }
}

/// The surroundings of a code generation context.
pub open spec fn env(ctx: BsnCodegenCtx) -> Env {
    Env { scene: ctx.bevy_scene@, ecs: ctx.bevy_ecs@, site: ctx.call_site }
}

/// How far a patch has come: the entity names known, the errors found, and the statements.
pub struct Patch {
    pub names: Seq<Seq<char>>,
    pub errors: Seq<Diag>,
    pub assigns: Seq<Seq<Tok>>,
}

impl Patch {
    /// Adds a statement.
    pub open spec fn assign(self, statement: Seq<Tok>) -> Patch {
        Patch { assigns: self.assigns.push(statement), ..self }
    }

    /// Adds an error.
    pub open spec fn fail(self, span: Span, message: Seq<char>) -> Patch {
        Patch { errors: self.errors.push(Diag { span, message }), ..self }
    }
}

/// The values of a list of token streams.
pub open spec fn streams(list: Seq<Tokens>) -> Seq<Seq<Tok>> {
    Seq::new(list.len(), |i: int| list[i]@)
}

/// Token sequences, one after the other.
pub open spec fn joined(list: Seq<Seq<Tok>>) -> Seq<Tok>
    decreases list.len(),
{
    if list.len() == 0 {
        Seq::empty()
    } else {
        joined(list.drop_last()) + list.last()
    }
}

/// The tokens of a path of fields.
pub open spec fn members(path: Seq<Member>, site: Span) -> Seq<Tok> {
    Seq::new(path.len(), |i: int| member_tok(path[i], site))
}

/// A path of fields, with a dot after each.
pub open spec fn dotted(path: Seq<Tok>, site: Span) -> Seq<Tok>
    decreases path.len(),
{
    if path.len() == 0 {
        Seq::empty()
    } else {
        Template { toks: dotted(path.drop_last(), site), site }.tok(path.last()).punct('.').toks
    }
}

/// A path of fields, with dots between them.
pub open spec fn dot_separated(path: Seq<Tok>, site: Span) -> Seq<Tok> {
    if path.len() == 0 {
        Seq::empty()
    } else {
        dotted(path.drop_last(), site).push(path.last())
    }
}

/// Whether an earlier field has the same name.
pub open spec fn is_duplicate(fields: Seq<BsnNamedField>, i: int) -> bool {
    exists|j: int| 0 <= j < i && #[trigger] fields[j].name.text@ == fields[i].name.text@
}

/// Whether a word is a raw identifier.
pub open spec fn is_raw(text: Seq<char>) -> bool {
    text.len() >= 2 && text[0] == 'r' && text[1] == '#'
}

/// Whether a patch can be written for a type.
///
/// A reference to a named entity can stand where a field of a struct is set, but not inside a
/// tuple or an enum; the variant that is patched has no raw name; and the positions of tuple fields
/// fit what can be written.
pub open spec fn patchable(ty: BsnType) -> bool
    decreases ty, 1nat,
{
    match ty.enum_variant {
        Some(variant) => !is_raw(variant.text@) && enum_patchable(ty),
        None => struct_patchable(ty),
    }
}

/// Whether the fields of a struct can be set.
pub open spec fn struct_patchable(ty: BsnType) -> bool
    decreases ty, 0nat,
{
    match ty.fields {
        BsnFields::Named(fields) => forall|i: int|
            #![trigger fields@[i]]
            0 <= i < fields@.len() ==> (!is_duplicate(fields@, i) ==> match fields@[i].value {
                Some(BsnValue::Name(_)) => true,
                Some(BsnValue::Type(inner)) => if inner.enum_variant is Some {
                    type_printable(inner)
                } else {
                    patchable(inner)
                },
                Some(value) => value_printable(value),
                None => true,
            }),
        BsnFields::Tuple(fields) => fields@.len() <= u32::MAX && forall|i: int|
            #![trigger fields@[i]]
            0 <= i < fields@.len() ==> match fields@[i].value {
                BsnValue::Name(_) => true,
                BsnValue::Type(inner) => if inner.enum_variant is Some {
                    type_printable(inner)
                } else {
                    patchable(inner)
                },
                value => value_printable(value),
            },
    }
}

/// Whether the fields of a variant can be set.
pub open spec fn enum_patchable(ty: BsnType) -> bool
    decreases ty, 0nat,
{
    match ty.fields {
        BsnFields::Named(fields) => forall|i: int|
            #![trigger fields@[i]]
            0 <= i < fields@.len() ==> (!is_duplicate(fields@, i) ==> match fields@[i].value {
                Some(BsnValue::Type(inner)) => if inner.enum_variant is Some {
                    type_printable(inner)
                } else {
                    patchable(inner)
                },
                Some(value) => value_printable(value),
                None => true,
            }),
        BsnFields::Tuple(fields) => forall|i: int|
            #![trigger fields@[i]]
            0 <= i < fields@.len() ==> match fields@[i].value {
                BsnValue::Type(inner) => if inner.enum_variant is Some {
                    type_printable(inner)
                } else {
                    patchable(inner)
                },
                value => value_printable(value),
            },
    }
}

/// `bevy_scene::macro_utils::touch_type::<Type>();`
pub open spec fn touch_type(path: Seq<Tok>, env: Env) -> Seq<Tok> {
    env.t()
        .tokens(env.scene)
        .seg("macro_utils"@)
        .seg("touch_type"@)
        .punct2(':', ':')
        .punct('<')
        .tokens(path)
        .punct('>')
        .paren(env.t())
        .punct(';')
        .toks
}

/// `path.field = value;`
pub open spec fn assignment(path: Seq<Tok>, member: Tok, value: Seq<Tok>, env: Env) -> Seq<Tok> {
    env.t().tokens(dotted(path, env.site)).tok(member).punct('=').tokens(value).punct(';').toks
}

/// `bevy_ecs::template::EntityTemplate::ScopedEntityIndex(bevy_ecs::template::ScopedEntityIndex {
/// scope: _context.current_entity_scope(), index: N })`
pub open spec fn entity_reference(index: nat, env: Env) -> Seq<Tok> {
    env.t()
        .tokens(env.ecs)
        .seg("template"@)
        .seg("EntityTemplate"@)
        .seg("ScopedEntityIndex"@)
        .paren(
            env.t()
                .tokens(env.ecs)
                .seg("template"@)
                .seg("ScopedEntityIndex"@)
                .brace(
                    env.t()
                        .word("scope"@)
                        .punct(':')
                        .word("_context"@)
                        .punct('.')
                        .word("current_entity_scope"@)
                        .paren(env.t())
                        .punct(',')
                        .word("index"@)
                        .punct(':')
                        .literal(decimal(index) + "usize"@),
                ),
        )
        .toks
}

/// The patch of a type. A type that is not at the root is mentioned first, so that an unknown one
/// is reported.
pub open spec fn patch_type(
    ty: BsnType,
    env: Env,
    st: Patch,
    is_root: bool,
    path: Seq<Tok>,
    is_ref: bool,
) -> Patch
    decreases ty, 2nat, 0nat,
{
    let touched = if is_root {
        st
    } else {
        st.assign(touch_type(ty.path@, env))
    };
    match ty.enum_variant {
        Some(variant) => patch_enum(ty, variant, env, touched, path, is_ref),
        None => patch_struct(ty, env, touched, path),
    }
}

/// The patch of a struct: each of its fields in turn.
pub open spec fn patch_struct(ty: BsnType, env: Env, st: Patch, path: Seq<Tok>) -> Patch
    decreases ty, 1nat, 0nat,
{
    match ty.fields {
        BsnFields::Named(fields) => patch_named(fields@, fields@.len(), env, st, path),
        BsnFields::Tuple(fields) => patch_tuple(fields@, fields@.len(), env, st, path),
    }
}

/// The first `count` named fields of a struct. A repeated field is an error and is skipped; a
/// field without a value is an error and is still mentioned.
pub open spec fn patch_named(
    fields: Seq<BsnNamedField>,
    count: nat,
    env: Env,
    st: Patch,
    path: Seq<Tok>,
) -> Patch
    decreases fields, 0nat, count,
{
    if count == 0 || count > fields.len() {
        st
    } else {
        let before = patch_named(fields, (count - 1) as nat, env, st, path);
        let field = fields[count - 1];
        let name = field.name.text@;
        if is_duplicate(fields, count - 1) {
            before.fail(
                field.name.span,
                "Duplicate field `"@ + name + "` found in BSN struct"@,
            )
        } else {
            match field.value {
                Some(value) => patch_value(value, env, before, path, field.name@),
                None => before.fail(
                    field.name.span,
                    "Field `"@ + name + "` is missing a value."@,
                ).assign(env.t().tokens(dotted(path, env.site)).tok(field.name@).punct(';').toks),
            }
        }
    }
}

/// The first `count` tuple fields of a struct.
pub open spec fn patch_tuple(
    fields: Seq<BsnUnnamedField>,
    count: nat,
    env: Env,
    st: Patch,
    path: Seq<Tok>,
) -> Patch
    decreases fields, 0nat, count,
{
    if count == 0 || count > fields.len() {
        st
    } else {
        let before = patch_tuple(fields, (count - 1) as nat, env, st, path);
        let member = Tok::Literal { text: decimal((count - 1) as nat), span: env.site };
        patch_value(fields[count - 1].value, env, before, path, member)
    }
}

/// One field of a struct is set to a value. A struct value is patched field by field.
pub open spec fn patch_value(
    value: BsnValue,
    env: Env,
    st: Patch,
    path: Seq<Tok>,
    member: Tok,
) -> Patch
    decreases value, 0nat, 0nat,
{
    match value {
        BsnValue::Name(ident) => Patch {
            names: interned(st.names, ident.text@),
            ..st
        }.assign(
            assignment(path, member, entity_reference(position(st.names, ident.text@), env), env),
        ),
        BsnValue::Type(ty) => if ty.enum_variant is Some {
            st.assign(assignment(path, member, type_tokens(ty, env.site), env))
        } else {
            patch_type(ty, env, st, false, path.push(member), false)
        },
        _ => st.assign(assignment(path, member, value_tokens(value, env.site), env)),
    }
}

/// How far the patch of a variant has come: the entity names known, the errors found, the fields
/// bound by the pattern, and the statements that set them.
pub struct VariantPatch {
    pub names: Seq<Seq<char>>,
    pub errors: Seq<Diag>,
    pub bindings: Seq<Tok>,
    pub updates: Seq<Tok>,
}

/// The statements that set one field of a variant, with the entity names known and the errors
/// found once they are written.
pub struct FieldUpdate {
    pub names: Seq<Seq<char>>,
    pub errors: Seq<Diag>,
    pub tokens: Seq<Tok>,
}

impl VariantPatch {
    /// Binds a field and sets it.
    pub open spec fn field(self, name: Tok, update: FieldUpdate, site: Span) -> VariantPatch {
        VariantPatch {
            names: update.names,
            errors: update.errors,
            bindings: Template { toks: self.bindings, site }.tok(name).punct(',').toks,
            updates: self.updates + update.tokens,
        }
    }
}

/// The first `count` named fields of a variant. A repeated field is an error and is skipped; a
/// field without a value is an error and is still mentioned.
pub open spec fn variant_named(
    fields: Seq<BsnNamedField>,
    count: nat,
    env: Env,
    st: VariantPatch,
) -> VariantPatch
    decreases fields, 0nat, count,
{
    if count == 0 || count > fields.len() {
        st
    } else {
        let before = variant_named(fields, (count - 1) as nat, env, st);
        let field = fields[count - 1];
        let name = field.name.text@;
        if is_duplicate(fields, count - 1) {
            VariantPatch {
                errors: before.errors.push(
                    Diag {
                        span: field.name.span,
                        message: "Duplicate field `"@ + name + "` found in BSN enum variant"@,
                    },
                ),
                ..before
            }
        } else {
            let update = match field.value {
                Some(value) => variant_value(
                    value,
                    env,
                    before.names,
                    before.errors,
                    field.name@,
                ),
                None => missing_variant_value(field.name, env, before.names, before.errors),
            };
            before.field(field.name@, update, env.site)
        }
    }
}

/// The first `count` tuple fields of a variant, bound to `t0`, `t1` and so on.
pub open spec fn variant_tuple(
    fields: Seq<BsnUnnamedField>,
    count: nat,
    env: Env,
    st: VariantPatch,
) -> VariantPatch
    decreases fields, 0nat, count,
{
    if count == 0 || count > fields.len() {
        st
    } else {
        let before = variant_tuple(fields, (count - 1) as nat, env, st);
        let name = Tok::Ident { text: "t"@ + decimal((count - 1) as nat), span: env.site };
        let update = variant_value(
            fields[count - 1].value,
            env,
            before.names,
            before.errors,
            name,
        );
        before.field(name, update, env.site)
    }
}

/// A field of a variant that has no value: an error, and the field is mentioned.
pub open spec fn missing_variant_value(
    name: Ident,
    env: Env,
    names: Seq<Seq<char>>,
    errors: Seq<Diag>,
) -> FieldUpdate {
    FieldUpdate {
        names,
        errors: errors.push(
            Diag {
                span: name.span,
                message: "Enum field `"@ + name.text@ + "` is missing a value"@,
            },
        ),
        tokens: env.t().tok(name@).punct(';').toks,
    }
}

/// One field of a variant is set to a value through the reference that the pattern binds.
pub open spec fn variant_value(
    value: BsnValue,
    env: Env,
    names: Seq<Seq<char>>,
    errors: Seq<Diag>,
    name: Tok,
) -> FieldUpdate
    decreases value, 0nat, 0nat,
{
    match value {
        BsnValue::Type(ty) if ty.enum_variant is None => {
            let inner = patch_type(
                ty,
                env,
                Patch { names, errors, assigns: Seq::empty() },
                false,
                seq![name],
                true,
            );
            FieldUpdate {
                names: inner.names,
                errors: inner.errors,
                tokens: joined(inner.assigns),
            }
        },
        _ => FieldUpdate {
            names,
            errors,
            tokens: env.t().punct('*').tok(name).punct('=').tokens(
                value_tokens(value, env.site),
            ).punct(';').toks,
        },
    }
}

/// `bevy_scene::macro_utils::PathResolveHelper::<<Type as bevy_ecs::template::FromTemplate>
/// ::Template>`
pub open spec fn template_path(path: Seq<Tok>, env: Env) -> Seq<Tok> {
    env.t()
        .tokens(env.scene)
        .seg("macro_utils"@)
        .seg("PathResolveHelper"@)
        .punct2(':', ':')
        .punct2('<', '<')
        .tokens(path)
        .word("as"@)
        .tokens(env.ecs)
        .seg("template"@)
        .seg("FromTemplate"@)
        .punct('>')
        .seg("Template"@)
        .punct('>')
        .toks
}

/// The pattern of a variant that binds some of its fields and leaves the others open.
pub open spec fn variant_pattern(
    variant: Tok,
    fields: BsnFields,
    bindings: Seq<Tok>,
    env: Env,
) -> Seq<Tok> {
    let inner = Template { toks: bindings, site: env.site }.punct2('.', '.');
    match fields {
        BsnFields::Named(_) => env.t().tok(variant).brace(inner).toks,
        BsnFields::Tuple(list) => if list@.len() == 0 {
            env.t().tok(variant).toks
        } else {
            env.t().tok(variant).paren(inner).toks
        },
    }
}

/// The statement that patches a variant: unless the value is of that variant, it becomes the
/// variant's default; then the fields are set.
pub open spec fn enum_statement(
    ty: BsnType,
    variant: Ident,
    env: Env,
    path: Seq<Tok>,
    is_ref: bool,
    bindings: Seq<Tok>,
    updates: Seq<Tok>,
) -> Seq<Tok> {
    let helper = template_path(ty.path@, env);
    let node = env.t().word("let"@).word("_node"@).punct('=');
    let borrowed = if is_ref {
        node
    } else {
        node.punct('&').word("mut"@)
    };
    let target = if is_ref {
        env.t().punct('*')
    } else {
        env.t()
    };
    env.t().brace(
        borrowed
            .tokens(dot_separated(path, env.site))
            .punct(';')
            .word("if"@)
            .punct('!')
            .word("matches"@)
            .punct('!')
            .paren(
                env.t()
                    .word("_node"@)
                    .punct(',')
                    .tokens(helper)
                    .punct2(':', ':')
                    .tokens(variant_pattern(variant@, ty.fields, Seq::empty(), env)),
            )
            .brace(
                target
                    .word("_node"@)
                    .punct('=')
                    .tokens(helper)
                    .seg("default_"@ + lowercase(variant.text@))
                    .paren(env.t())
                    .punct(';'),
            )
            .word("if"@)
            .word("let"@)
            .tokens(helper)
            .punct2(':', ':')
            .tokens(variant_pattern(variant@, ty.fields, bindings, env))
            .punct('=')
            .word("_node"@)
            .brace(env.t().tokens(updates)),
    ).toks
}

/// The fields of a variant, bound and set.
pub open spec fn variant_fields(
    ty: BsnType,
    env: Env,
    names: Seq<Seq<char>>,
    errors: Seq<Diag>,
) -> VariantPatch
    decreases ty, 0nat, 0nat,
{
    let start = VariantPatch { names, errors, bindings: Seq::empty(), updates: Seq::empty() };
    match ty.fields {
        BsnFields::Named(fields) => variant_named(fields@, fields@.len(), env, start),
        BsnFields::Tuple(fields) => variant_tuple(fields@, fields@.len(), env, start),
    }
}

/// The patch of a variant.
pub open spec fn patch_enum(
    ty: BsnType,
    variant: Ident,
    env: Env,
    st: Patch,
    path: Seq<Tok>,
    is_ref: bool,
) -> Patch
    decreases ty, 1nat, 0nat,
{
    let done = variant_fields(ty, env, st.names, st.errors);
    Patch { names: done.names, errors: done.errors, ..st }.assign(
        enum_statement(ty, variant, env, path, is_ref, done.bindings, done.updates),
    )
}

/// Where a patch stands, given the context and the statements so far.
pub open spec fn patch_state(ctx: BsnCodegenCtx, assignments: Seq<Tokens>) -> Patch {
    Patch {
        names: ctx.entity_refs@,
        errors: diags(ctx.errors@),
        assigns: streams(assignments),
    }
}

/// The path to the field being patched, and whether it is a reference.
pub struct PatchTarget<'a> {
    /// The path to the field being patched.
    pub path: &'a [Member],
    /// Whether the target is a reference.
    /// - `true`: Requires dereferencing (`*`) to assign a value to the target.
    /// - `false`: Requires a mutable borrow (`&mut`) to create a temporary reference.
    pub is_ref: bool,
}

/// Adds an error to the context.
fn push_error(ctx: &mut BsnCodegenCtx, span: Span, before: &str, name: &str, after: &str)
    ensures
        same_surroundings(*old(ctx), *final(ctx)),
        final(ctx).entity_refs@ == old(ctx).entity_refs@,
        diags(final(ctx).errors@) == diags(old(ctx).errors@).push(
            Diag { span, message: before@ + name@ + after@ },
        ),
{
    let message = before.to_owned().concat(name).concat(after);
    ctx.errors.push(Error { span, message });
    assert(diags(ctx.errors@) =~= diags(old(ctx).errors@).push(
        Diag { span, message: before@ + name@ + after@ },
    ));
}

/// Adds a statement.
fn push_statement(assignments: &mut Vec<Tokens>, statement: Tokens)
    ensures
        streams(final(assignments)@) == streams(old(assignments)@).push(statement@),
{
    assignments.push(statement);
    assert(streams(assignments@) =~= streams(old(assignments)@).push(statement@));
}

/// Whether an earlier field has the same name.
pub fn has_duplicate(fields: &Vec<BsnNamedField>, i: usize) -> (r: bool)
    requires
        i < fields@.len(),
    ensures
        r == is_duplicate(fields@, i as int),
{
    let mut j: usize = 0;
    while j < i
        invariant
            j <= i < fields@.len(),
            forall|k: int| 0 <= k < j ==> #[trigger] fields@[k].name.text@ != fields@[i as int].name.text@,
        decreases i - j,
    {
        if fields[j].name.text == fields[i].name.text {
            assert(fields@[j as int].name.text@ == fields@[i as int].name.text@);
            return true;
        }
        j += 1;
    }
    false
}

/// A path of fields, with a dot after each.
fn quote_dotted(path: &[Member], site: Span) -> (r: Tokens)
    ensures
        r@ == dotted(members(path@, site), site),
{
    let mut out = Quote::at(site);
    let mut i: usize = 0;
    let ghost all = members(path@, site);
    while i < path.len()
        invariant
            i <= path@.len(),
            all == members(path@, site),
            out@ == (Template { toks: dotted(all.take(i as int), site), site }),
        decreases path@.len() - i,
    {
        out = out.tree(path[i].to_tree(site)).punct('.');
        assert(all.take(i + 1).drop_last() =~= all.take(i as int));
        i += 1;
    }
    assert(all.take(i as int) =~= all);
    out.stream
}

/// A path of fields, with dots between them.
fn quote_dot_separated(path: &[Member], site: Span) -> (r: Tokens)
    ensures
        r@ == dot_separated(members(path@, site), site),
{
    let mut out = Quote::at(site);
    let mut i: usize = 0;
    let ghost all = members(path@, site);
    while i < path.len()
        invariant
            i <= path@.len(),
            all == members(path@, site),
            out@ == (Template { toks: dot_separated(all.take(i as int), site), site }),
        decreases path@.len() - i,
    {
        if i > 0 {
            out = out.punct('.');
            assert(all.take(i as int).last() == all[i - 1]);
        }
        out = out.tree(path[i].to_tree(site));
        assert(all.take(i + 1).drop_last() =~= all.take(i as int));
        i += 1;
    }
    assert(all.take(i as int) =~= all);
    out.stream
}

/// Token streams, one after the other.
pub fn join_streams(list: &Vec<Tokens>) -> (r: Tokens)
    ensures
        r@ == joined(streams(list@)),
{
    let mut out = Tokens::new();
    let mut i: usize = 0;
    let ghost all = streams(list@);
    while i < list.len()
        invariant
            i <= list@.len(),
            all == streams(list@),
            out@ == joined(all.take(i as int)),
        decreases list@.len() - i,
    {
        out.extend(&list[i]);
        assert(all.take(i + 1).drop_last() =~= all.take(i as int));
        i += 1;
    }
    assert(all.take(i as int) =~= all);
    out
}

impl BsnType {
    /// Recursively generates the statements that patch the target.
    pub fn to_patch_tokens(
        &self,
        ctx: &mut BsnCodegenCtx,
        assignments: &mut Vec<Tokens>,
        is_root: bool,
        target: PatchTarget,
    ) -> (r: Result<(), Error>)
        requires
            patchable(*self),
        ensures
            r is Ok,
            same_surroundings(*old(ctx), *final(ctx)),
            patch_state(*final(ctx), final(assignments)@) == patch_type(
                *self,
                env(*old(ctx)),
                patch_state(*old(ctx), old(assignments)@),
                is_root,
                members(target.path@, old(ctx).call_site),
                target.is_ref,
            ),
        decreases self, 4nat,
    {
        if !is_root {
            let site = ctx.call_site;
            let touch = Quote::at(site)
                .tokens(ctx.bevy_scene)
                .seg("macro_utils")
                .seg("touch_type")
                .punct2(':', ':')
                .punct('<')
                .tokens(&self.path)
                .punct('>')
                .paren(Quote::at(site))
                .punct(';');
            push_statement(assignments, touch.stream);
        }
        match &self.enum_variant {
            Some(variant) => self.push_enum_patch(ctx, variant, assignments, target),
            None => self.push_struct_patch(ctx, assignments, target),
        }
    }

    /// Generates the statements that patch a struct.
    pub fn push_struct_patch(
        &self,
        ctx: &mut BsnCodegenCtx,
        assignments: &mut Vec<Tokens>,
        target: PatchTarget,
    ) -> (r: Result<(), Error>)
        requires
            struct_patchable(*self),
        ensures
            r is Ok,
            same_surroundings(*old(ctx), *final(ctx)),
            patch_state(*final(ctx), final(assignments)@) == patch_struct(
                *self,
                env(*old(ctx)),
                patch_state(*old(ctx), old(assignments)@),
                members(target.path@, old(ctx).call_site),
            ),
        decreases self, 2nat,
    {
        let ghost start = patch_state(*ctx, assignments@);
        let ghost path = members(target.path@, ctx.call_site);
        match &self.fields {
            BsnFields::Named(fields) => {
                let mut i: usize = 0;
                while i < fields.len()
                    invariant
                        i <= fields@.len(),
                        self.fields == BsnFields::Named(*fields),
                        decreases_to!(*self => fields@),
                        struct_patchable(*self),
                        same_surroundings(*old(ctx), *ctx),
                        path == members(target.path@, ctx.call_site),
                        patch_state(*ctx, assignments@) == patch_named(
                            fields@,
                            i as nat,
                            env(*old(ctx)),
                            start,
                            path,
                        ),
                    decreases fields@.len() - i,
                {
                    let field = &fields[i];
                    assert(decreases_to!(fields@ => fields@[i as int]));
                    if has_duplicate(fields, i) {
                        push_error(
                            ctx,
                            field.name.span,
                            "Duplicate field `",
                            field.name.text.as_str(),
                            "` found in BSN struct",
                        );
                    } else {
                        if field.value.is_none() {
                            push_error(
                                ctx,
                                field.name.span,
                                "Field `",
                                field.name.text.as_str(),
                                "` is missing a value.",
                            );
                        }
                        self.process_field(
                            ctx,
                            assignments,
                            target.path,
                            Member::Named(field.name.dup()),
                            field.value.as_ref(),
                        )?;
                    }
                    i += 1;
                }
                Ok(())
            },
            BsnFields::Tuple(fields) => {
                let mut i: usize = 0;
                while i < fields.len()
                    invariant
                        i <= fields@.len(),
                        self.fields == BsnFields::Tuple(*fields),
                        decreases_to!(*self => fields@),
                        struct_patchable(*self),
                        same_surroundings(*old(ctx), *ctx),
                        path == members(target.path@, ctx.call_site),
                        patch_state(*ctx, assignments@) == patch_tuple(
                            fields@,
                            i as nat,
                            env(*old(ctx)),
                            start,
                            path,
                        ),
                    decreases fields@.len() - i,
                {
                    assert(decreases_to!(fields@ => fields@[i as int]));
                    if let Err(err) = self.process_field(
                        ctx,
                        assignments,
                        target.path,
                        Member::Unnamed(i as u32),
                        Some(&fields[i].value),
                    ) {
                        ctx.errors.push(err);
                    }
                    i += 1;
                }
                Ok(())
            },
        }
    }

    /// Generates the statements that set one field of a struct.
    fn process_field(
        &self,
        ctx: &mut BsnCodegenCtx,
        assignments: &mut Vec<Tokens>,
        base_path: &[Member],
        member: Member,
        value: Option<&BsnValue>,
    ) -> (r: Result<(), Error>)
        requires
            value matches Some(v) ==> decreases_to!(*self => *v),
            match value {
                Some(BsnValue::Name(_)) => true,
                Some(BsnValue::Type(inner)) => if inner.enum_variant is Some {
                    type_printable(*inner)
                } else {
                    patchable(*inner)
                },
                Some(v) => value_printable(*v),
                None => true,
            },
        ensures
            r is Ok,
            same_surroundings(*old(ctx), *final(ctx)),
            ({
                let e = env(*old(ctx));
                let path = members(base_path@, e.site);
                let tok = member_tok(member, e.site);
                let before = patch_state(*old(ctx), old(assignments)@);
                patch_state(*final(ctx), final(assignments)@) == match value {
                    Some(v) => patch_value(*v, e, before, path, tok),
                    None => before.assign(
                        e.t().tokens(dotted(path, e.site)).tok(tok).punct(';').toks,
                    ),
                }
            }),
        decreases self, 1nat,
    {
        let site = ctx.call_site;
        let place = Quote::at(site).tokens(&quote_dotted(base_path, site)).tree(
            member.to_tree(site),
        );
        match value {
            // Naming the field without a value keeps completion of field names working.
            None => {
                push_statement(assignments, place.punct(';').stream);
            },
            Some(BsnValue::Name(ident)) => {
                let index = ctx.entity_refs.get(ident.text.clone());
                let scoped = Quote::at(site)
                    .tokens(ctx.bevy_ecs)
                    .seg("template")
                    .seg("ScopedEntityIndex")
                    .brace(
                        Quote::at(site)
                            .word("scope")
                            .punct(':')
                            .word("_context")
                            .punct('.')
                            .word("current_entity_scope")
                            .paren(Quote::at(site))
                            .punct(',')
                            .word("index")
                            .punct(':')
                            .literal(usize_text(index)),
                    );
                let reference = Quote::at(site)
                    .tokens(ctx.bevy_ecs)
                    .seg("template")
                    .seg("EntityTemplate")
                    .seg("ScopedEntityIndex")
                    .paren(scoped);
                let statement = place.punct('=').tokens(&reference.stream).punct(';');
                push_statement(assignments, statement.stream);
            },
            Some(BsnValue::Type(ty)) => {
                if ty.enum_variant.is_some() {
                    let mut tokens = Tokens::new();
                    ty.to_tokens(&mut tokens, site);
                    push_statement(assignments, place.punct('=').tokens(&tokens).punct(';').stream);
                } else {
                    let path = extended(base_path, member);
                    return ty.to_patch_tokens(
                        ctx,
                        assignments,
                        false,
                        PatchTarget { path: path.as_slice(), is_ref: false },
                    );
                }
            },
            Some(v) => {
                let mut tokens = Tokens::new();
                v.to_tokens(&mut tokens, site);
                push_statement(assignments, place.punct('=').tokens(&tokens).punct(';').stream);
            },
        }
        Ok(())
    }

    /// Generates the statement that patches a variant of an enum.
    pub fn push_enum_patch(
        &self,
        ctx: &mut BsnCodegenCtx,
        variant: &Ident,
        assignments: &mut Vec<Tokens>,
        target: PatchTarget,
    ) -> (r: Result<(), Error>)
        requires
            enum_patchable(*self),
            !is_raw(variant.text@),
        ensures
            r is Ok,
            same_surroundings(*old(ctx), *final(ctx)),
            patch_state(*final(ctx), final(assignments)@) == patch_enum(
                *self,
                *variant,
                env(*old(ctx)),
                patch_state(*old(ctx), old(assignments)@),
                members(target.path@, old(ctx).call_site),
                target.is_ref,
            ),
        decreases self, 3nat,
    {
        let (bindings, updates) = self.process_enum_fields(ctx)?;
        let statement = self.quote_enum_statement(ctx, variant, &target, bindings, &updates);
        push_statement(assignments, statement);
        Ok(())
    }

    /// Generates the names of the fields that the pattern of a variant binds, and the statements
    /// that set them.
    fn process_enum_fields(&self, ctx: &mut BsnCodegenCtx) -> (r: Result<(Quote, Tokens), Error>)
        requires
            enum_patchable(*self),
        ensures
            r is Ok,
            same_surroundings(*old(ctx), *final(ctx)),
            r->Ok_0.0.site == old(ctx).call_site,
            (VariantPatch {
                names: final(ctx).entity_refs@,
                errors: diags(final(ctx).errors@),
                bindings: r->Ok_0.0@.toks,
                updates: r->Ok_0.1@,
            }) == variant_fields(
                *self,
                env(*old(ctx)),
                old(ctx).entity_refs@,
                diags(old(ctx).errors@),
            ),
        decreases self, 2nat,
    {
        match &self.fields {
            BsnFields::Named(fields) => self.process_enum_named(ctx, fields),
            BsnFields::Tuple(fields) => self.process_enum_tuple(ctx, fields),
        }
    }

    /// The named fields of a variant: the bindings, and the statements.
    fn process_enum_named(
        &self,
        ctx: &mut BsnCodegenCtx,
        fields: &Vec<BsnNamedField>,
    ) -> (r: Result<(Quote, Tokens), Error>)
        requires
            enum_patchable(*self),
            self.fields == BsnFields::Named(*fields),
        ensures
            r is Ok,
            same_surroundings(*old(ctx), *final(ctx)),
            r->Ok_0.0.site == old(ctx).call_site,
            (VariantPatch {
                names: final(ctx).entity_refs@,
                errors: diags(final(ctx).errors@),
                bindings: r->Ok_0.0@.toks,
                updates: r->Ok_0.1@,
            }) == variant_named(
                fields@,
                fields@.len(),
                env(*old(ctx)),
                VariantPatch {
                    names: old(ctx).entity_refs@,
                    errors: diags(old(ctx).errors@),
                    bindings: Seq::empty(),
                    updates: Seq::empty(),
                },
            ),
        decreases self, 1nat,
    {
        let site = ctx.call_site;
        let ghost e = env(*ctx);
        let ghost start = VariantPatch {
            names: ctx.entity_refs@,
            errors: diags(ctx.errors@),
            bindings: Seq::empty(),
            updates: Seq::empty(),
        };
        let mut bindings = Quote::at(site);
        let mut updates = Quote::at(site);
        let mut i: usize = 0;
        while i < fields.len()
            invariant
                i <= fields@.len(),
                self.fields == BsnFields::Named(*fields),
                decreases_to!(*self => fields@),
                enum_patchable(*self),
                same_surroundings(*old(ctx), *ctx),
                e == env(*ctx),
                site == ctx.call_site,
                bindings.site == site,
                updates.site == site,
                variant_state(*ctx, bindings@, updates@) == variant_named(
                    fields@,
                    i as nat,
                    e,
                    start,
                ),
            decreases fields@.len() - i,
        {
            let field = &fields[i];
            assert(decreases_to!(fields@ => fields@[i as int]));
            if has_duplicate(fields, i) {
                push_error(
                    ctx,
                    field.name.span,
                    "Duplicate field `",
                    field.name.text.as_str(),
                    "` found in BSN enum variant",
                );
            } else {
                bindings = bindings.ident(&field.name).punct(',');
                let update = self.process_enum_field(ctx, &field.name, field.value.as_ref())?;
                updates = updates.tokens(&update);
            }
            i += 1;
        }
        Ok((bindings, updates.stream))
    }

    /// The tuple fields of a variant: the bindings, and the statements.
    fn process_enum_tuple(
        &self,
        ctx: &mut BsnCodegenCtx,
        fields: &Vec<BsnUnnamedField>,
    ) -> (r: Result<(Quote, Tokens), Error>)
        requires
            enum_patchable(*self),
            self.fields == BsnFields::Tuple(*fields),
        ensures
            r is Ok,
            same_surroundings(*old(ctx), *final(ctx)),
            r->Ok_0.0.site == old(ctx).call_site,
            (VariantPatch {
                names: final(ctx).entity_refs@,
                errors: diags(final(ctx).errors@),
                bindings: r->Ok_0.0@.toks,
                updates: r->Ok_0.1@,
            }) == variant_tuple(
                fields@,
                fields@.len(),
                env(*old(ctx)),
                VariantPatch {
                    names: old(ctx).entity_refs@,
                    errors: diags(old(ctx).errors@),
                    bindings: Seq::empty(),
                    updates: Seq::empty(),
                },
            ),
        decreases self, 1nat,
    {
        let site = ctx.call_site;
        let ghost e = env(*ctx);
        let ghost start = VariantPatch {
            names: ctx.entity_refs@,
            errors: diags(ctx.errors@),
            bindings: Seq::empty(),
            updates: Seq::empty(),
        };
        let mut bindings = Quote::at(site);
        let mut updates = Quote::at(site);
        let mut i: usize = 0;
        while i < fields.len()
            invariant
                i <= fields@.len(),
                self.fields == BsnFields::Tuple(*fields),
                decreases_to!(*self => fields@),
                enum_patchable(*self),
                same_surroundings(*old(ctx), *ctx),
                e == env(*ctx),
                site == ctx.call_site,
                bindings.site == site,
                updates.site == site,
                variant_state(*ctx, bindings@, updates@) == variant_tuple(
                    fields@,
                    i as nat,
                    e,
                    start,
                ),
            decreases fields@.len() - i,
        {
            assert(decreases_to!(fields@ => fields@[i as int]));
            let text = "t".to_owned().concat(decimal_text(i).as_str());
            let name = Ident { text, span: site };
            bindings = bindings.ident(&name).punct(',');
            let update = self.process_enum_field(ctx, &name, Some(&fields[i].value))?;
            updates = updates.tokens(&update);
            i += 1;
        }
        Ok((bindings, updates.stream))
    }

    /// Generates the statement that patches a variant, once its fields are processed.
    fn quote_enum_statement(
        &self,
        ctx: &BsnCodegenCtx,
        variant: &Ident,
        target: &PatchTarget,
        bindings: Quote,
        updates: &Tokens,
    ) -> (r: Tokens)
        requires
            bindings.site == ctx.call_site,
        ensures
            r@ == enum_statement(
                *self,
                *variant,
                env(*ctx),
                members(target.path@, ctx.call_site),
                target.is_ref,
                bindings@.toks,
                updates@,
            ),
    {
        let site = ctx.call_site;
        let helper = quote_template_path(ctx, &self.path);
        let check = quote_pattern(ctx, variant, &self.fields, Quote::at(site));
        let binding = quote_pattern(ctx, variant, &self.fields, bindings);
        let path = quote_dot_separated(target.path, site);
        let lower = to_lowercase(variant.text.as_str());
        let default = "default_".to_owned().concat(lower.as_str());
        let node = Quote::at(site).word("let").word("_node").punct('=');
        let borrowed = if target.is_ref {
            node
        } else {
            node.punct('&').word("mut")
        };
        let place = if target.is_ref {
            Quote::at(site).punct('*')
        } else {
            Quote::at(site)
        };
        let statement = Quote::at(site).brace(
            borrowed
                .tokens(&path)
                .punct(';')
                .word("if")
                .punct('!')
                .word("matches")
                .punct('!')
                .paren(
                    Quote::at(site)
                        .word("_node")
                        .punct(',')
                        .tokens(&helper)
                        .punct2(':', ':')
                        .tokens(&check),
                )
                .brace(
                    place
                        .word("_node")
                        .punct('=')
                        .tokens(&helper)
                        .seg(default.as_str())
                        .paren(Quote::at(site))
                        .punct(';'),
                )
                .word("if")
                .word("let")
                .tokens(&helper)
                .punct2(':', ':')
                .tokens(&binding)
                .punct('=')
                .word("_node")
                .brace(Quote::at(site).tokens(updates)),
        );
        statement.stream
    }

    /// Generates the statements that set one field of a variant.
    fn process_enum_field(
        &self,
        ctx: &mut BsnCodegenCtx,
        bind_name: &Ident,
        value: Option<&BsnValue>,
    ) -> (r: Result<Tokens, Error>)
        requires
            value matches Some(v) ==> decreases_to!(*self => *v),
            match value {
                Some(BsnValue::Type(inner)) => if inner.enum_variant is Some {
                    type_printable(*inner)
                } else {
                    patchable(*inner)
                },
                Some(v) => value_printable(*v),
                None => true,
            },
        ensures
            same_surroundings(*old(ctx), *final(ctx)),
            r is Ok,
            ({
                let names = old(ctx).entity_refs@;
                let errors = diags(old(ctx).errors@);
                (FieldUpdate {
                    names: final(ctx).entity_refs@,
                    errors: diags(final(ctx).errors@),
                    tokens: r->Ok_0@,
                }) == match value {
                    Some(v) => variant_value(*v, env(*old(ctx)), names, errors, bind_name@),
                    None => missing_variant_value(*bind_name, env(*old(ctx)), names, errors),
                }
            }),
        decreases self, 0nat,
    {
        let site = ctx.call_site;
        match value {
            None => {
                push_error(
                    ctx,
                    bind_name.span,
                    "Enum field `",
                    bind_name.text.as_str(),
                    "` is missing a value",
                );
                // Naming the field without a value keeps completion of field names working.
                Ok(Quote::at(site).ident(bind_name).punct(';').stream)
            },
            Some(v) => {
                if let BsnValue::Type(ty) = v {
                    if ty.enum_variant.is_none() {
                        let mut type_assigns: Vec<Tokens> = Vec::new();
                        let path = [Member::Named(bind_name.dup())];
                        assert(members(path@, site) =~= seq![bind_name@]);
                        assert(streams(type_assigns@) =~= Seq::empty());
                        ty.to_patch_tokens(
                            ctx,
                            &mut type_assigns,
                            false,
                            PatchTarget { path: path.as_slice(), is_ref: true },
                        )?;
                        return Ok(join_streams(&type_assigns));
                    }
                }
                let mut tokens = Tokens::new();
                v.to_tokens(&mut tokens, site);
                Ok(
                    Quote::at(site)
                        .punct('*')
                        .ident(bind_name)
                        .punct('=')
                        .tokens(&tokens)
                        .punct(';')
                        .stream,
                )
            },
        }
    }
}

/// Where the patch of a variant stands.
pub open spec fn variant_state(
    ctx: BsnCodegenCtx,
    bindings: Template,
    updates: Template,
) -> VariantPatch {
    VariantPatch {
        names: ctx.entity_refs@,
        errors: diags(ctx.errors@),
        bindings: bindings.toks,
        updates: updates.toks,
    }
}

/// The path of the template of a type.
fn quote_template_path(ctx: &BsnCodegenCtx, path: &Tokens) -> (r: Tokens)
    ensures
        r@ == template_path(path@, env(*ctx)),
{
    Quote::at(ctx.call_site)
        .tokens(ctx.bevy_scene)
        .seg("macro_utils")
        .seg("PathResolveHelper")
        .punct2(':', ':')
        .punct2('<', '<')
        .tokens(path)
        .word("as")
        .tokens(ctx.bevy_ecs)
        .seg("template")
        .seg("FromTemplate")
        .punct('>')
        .seg("Template")
        .punct('>')
        .stream
}

/// The pattern of a variant that binds some of its fields and leaves the others open.
fn quote_pattern(
    ctx: &BsnCodegenCtx,
    variant: &Ident,
    fields: &BsnFields,
    bindings: Quote,
) -> (r: Tokens)
    requires
        bindings.site == ctx.call_site,
    ensures
        r@ == variant_pattern(variant@, *fields, bindings@.toks, env(*ctx)),
{
    let name = Quote::at(ctx.call_site).ident(variant);
    let inner = bindings.punct2('.', '.');
    match fields {
        BsnFields::Named(_) => name.brace(inner).stream,
        BsnFields::Tuple(list) => {
            if list.len() == 0 {
                name.stream
            } else {
                name.paren(inner).stream
            }
        },
    }
}

/// The path, and one member more.
fn extended(path: &[Member], member: Member) -> (r: Vec<Member>)
    ensures
        forall|site: Span|
            #[trigger] members(r@, site) == members(path@, site).push(member_tok(member, site)),
{
    let mut out: Vec<Member> = Vec::new();
    let mut i: usize = 0;
    while i < path.len()
        invariant
            i <= path@.len(),
            out@.len() == i,
            forall|site: Span, k: int|
                0 <= k < i ==> #[trigger] member_tok(out@[k], site) == member_tok(path@[k], site),
        decreases path@.len() - i,
    {
        out.push(path[i].dup());
        i += 1;
    }
    out.push(member);
    assert forall|site: Span|
        #[trigger] members(out@, site) == members(path@, site).push(member_tok(member, site)) by {
        assert(members(out@, site) =~= members(path@, site).push(member_tok(member, site)));
    }
    out
}

} // verus!
