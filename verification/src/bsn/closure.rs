//! Async closures in a scene: `#Name` inside the body becomes a captured entity.
use vstd::prelude::*;

#[allow(unused_imports)]
use crate::bsn::context::{interned, position, same_surroundings, Diag};
use crate::bsn::context::{BsnCodegenCtx, Error};
#[allow(unused_imports)]
use crate::literals::{decimal, stream_tokens};
use crate::literals::{decimal_text, read_stream, usize_text};
#[allow(unused_imports)]
use crate::tokens::{lemma_trees_view_index, tree_view, Template, Tok};
use crate::tokens::{Delimiter, Group, Ident, Quote, TokenTree, Tokens};
use proc_macro2::Span;

verus! {

/// How far the rewriting of a closure body has come: the entity names known, the indices of the
/// captured ones in the order met, the tokens written, and the error that stopped it, if any.
pub struct Rewrite {
    pub names: Seq<Seq<char>>,
    pub captured: Seq<usize>,
    pub out: Seq<Tok>,
    pub error: Option<Diag>,
}

/// Whether a word is the name of a scene macro, whose own `#Name`s are left to it.
pub open spec fn is_scene_macro(text: Seq<char>) -> bool {
    text == "bsn"@ || text == "bsn_ui"@
}

/// Whether the tokens start with the name of a scene macro and `!`.
pub open spec fn starts_scene_macro(toks: Seq<Tok>) -> bool {
    &&& toks.len() >= 2
    &&& toks[0] matches Tok::Ident { text, .. } && is_scene_macro(text)
    &&& toks[1] matches Tok::Punct { ch, .. } && ch == '!'
}

/// The name of the local that holds the entity captured at the given position.
pub open spec fn local_name(position: nat) -> Seq<char> {
    "__bsn_scoped_entity_"@ + decimal(position)
}

/// The tokens `toks` of a closure body, rewritten after those of `st`.
///
/// `#Name` captures the entity of that name and becomes the local that holds it. The argument of a
/// scene macro is taken over as it is, and so is any other token; a group is rewritten inside.
pub open spec fn rewrite_body(toks: Seq<Tok>, site: Span, st: Rewrite) -> Rewrite
    decreases toks,
{
    if toks.len() == 0 {
        st
    } else if starts_scene_macro(toks) {
        let n: int = if toks.len() >= 3 { 3 } else { 2 };
        rewrite_body(
            toks.subrange(n, toks.len() as int),
            site,
            Rewrite { out: st.out + toks.subrange(0, n), ..st },
        )
    } else {
        match toks[0] {
            Tok::Punct { ch: '#', span, .. } => if toks.len() == 1 {
                Rewrite {
                    error: Some(
                        Diag {
                            span,
                            message: "`#` in async BSN closure must be followed by an identifier"@,
                        },
                    ),
                    ..st
                }
            } else {
                let rest = toks.subrange(2, toks.len() as int);
                match toks[1] {
                    Tok::Ident { text, .. } => rewrite_body(
                        rest,
                        site,
                        Rewrite {
                            names: interned(st.names, text),
                            captured: st.captured.push(position(st.names, text) as usize),
                            out: st.out.push(
                                Tok::Ident { text: local_name(st.captured.len()), span: site },
                            ),
                            ..st
                        },
                    ),
                    other => rewrite_body(
                        rest,
                        site,
                        Rewrite { out: st.out.push(toks[0]).push(other), ..st },
                    ),
                }
            },
            Tok::Group { delimiter, body, span } => {
                let inner = rewrite_body(body, site, Rewrite { out: Seq::empty(), ..st });
                if inner.error is Some {
                    Rewrite { out: st.out, ..inner }
                } else {
                    rewrite_body(
                        toks.subrange(1, toks.len() as int),
                        site,
                        Rewrite {
                            out: st.out.push(Tok::Group { delimiter, body: inner.out, span }),
                            ..inner
                        },
                    )
                }
            },
            other => rewrite_body(
                toks.subrange(1, toks.len() as int),
                site,
                Rewrite { out: st.out.push(other), ..st },
            ),
        }
    }
}

/// Index of the first `|` at or after `from`; the length if there is none.
pub open spec fn next_bar(toks: Seq<Tok>, from: int) -> int
    decreases toks.len() - from,
{
    if from >= toks.len() {
        toks.len() as int
    } else if is_punct(toks[from], '|') {
        from
    } else {
        next_bar(toks, from + 1)
    }
}

/// Whether a token is the given punctuation character.
pub open spec fn is_punct(tok: Tok, wanted: char) -> bool {
    tok matches Tok::Punct { ch, .. } && ch == wanted
}

/// `let __bsn_scoped_entity_N = __bsn_scoped_entities[Nusize].clone();`
pub open spec fn capture_binding(n: nat, site: Span) -> Seq<Tok> {
    Template::at(site)
        .word("let"@)
        .word(local_name(n))
        .punct('=')
        .word("__bsn_scoped_entities"@)
        .bracket(Template::at(site).literal(decimal(n) + "usize"@))
        .punct('.')
        .word("clone"@)
        .paren(Template::at(site))
        .punct(';')
        .toks
}

/// The bindings of the first `count` captured entities.
pub open spec fn capture_bindings(count: nat, site: Span) -> Seq<Tok>
    decreases count,
{
    if count == 0 {
        Seq::empty()
    } else {
        capture_bindings((count - 1) as nat, site) + capture_binding((count - 1) as nat, site)
    }
}

/// `__bsn_scoped_entities: Vec<bevy_ecs::entity::Entity>`
pub open spec fn scoped_entities_param(bevy_ecs: Seq<Tok>, site: Span) -> Seq<Tok> {
    Template::at(site)
        .word("__bsn_scoped_entities"@)
        .punct(':')
        .word("Vec"@)
        .punct('<')
        .tokens(bevy_ecs)
        .seg("entity"@)
        .seg("Entity"@)
        .punct('>')
        .toks
}

/// The closure that takes the captured entities as one more parameter, binds each to its local,
/// and goes on with the rewritten body.
pub open spec fn closure_tokens(
    params: Seq<Tok>,
    body: Seq<Tok>,
    count: nat,
    bevy_ecs: Seq<Tok>,
    site: Span,
) -> Seq<Tok> {
    let start = Template::at(site).word("async"@).word("move"@).punct('|');
    let own = if params.len() == 0 {
        start
    } else {
        start.tokens(params).punct(',')
    };
    own
        .tokens(scoped_entities_param(bevy_ecs, site))
        .punct('|')
        .brace(Template::at(site).tokens(capture_bindings(count, site)).tokens(body))
        .toks
}

/// What is wrong with the shape of an async closure, if anything: it is
/// `async | parameters | { body }` and nothing after it.
pub open spec fn closure_shape_error(toks: Seq<Tok>, site: Span) -> Option<Diag> {
    let close = next_bar(toks, 2);
    if toks.len() == 0 {
        Some(Diag { span: site, message: "expected async closure, found empty token stream"@ })
    } else if !(toks[0] matches Tok::Ident { text, .. } && text == "async"@) {
        Some(
            Diag {
                span: toks[0].span(),
                message: "expected `async` at the start of async closure"@,
            },
        )
    } else if toks.len() == 1 {
        Some(Diag { span: site, message: "expected `|` after `async`"@ })
    } else if !is_punct(toks[1], '|') {
        Some(Diag { span: toks[1].span(), message: "expected `|` after `async`"@ })
    } else if close == toks.len() {
        Some(
            Diag {
                span: site,
                message: "unterminated async closure parameter list; missing closing `|`"@,
            },
        )
    } else if close + 1 == toks.len() {
        Some(
            Diag {
                span: site,
                message: "expected `{ ... }` body after async closure parameters"@,
            },
        )
    } else if !(toks[close + 1] matches Tok::Group { delimiter, .. } && delimiter
        == Delimiter::Brace) {
        Some(
            Diag {
                span: toks[close + 1].span(),
                message: "expected `{ ... }` body after async closure parameters"@,
            },
        )
    } else if close + 2 < toks.len() {
        Some(
            Diag {
                span: toks[close + 2].span(),
                message: "unexpected trailing tokens after async closure body"@,
            },
        )
    } else {
        None
    }
}

/// The tokens between the bars of a well-shaped closure.
pub open spec fn closure_params(toks: Seq<Tok>) -> Seq<Tok> {
    toks.subrange(2, next_bar(toks, 2))
}

/// The tokens between the braces of a well-shaped closure.
pub open spec fn closure_body(toks: Seq<Tok>) -> Seq<Tok> {
    toks[next_bar(toks, 2) + 1]->Group_body
}

/// An async closure, rewritten to take the entities it names as a parameter.
pub open spec fn rewrite_closure(
    toks: Seq<Tok>,
    bevy_ecs: Seq<Tok>,
    site: Span,
    names: Seq<Seq<char>>,
    captured: Seq<usize>,
) -> Rewrite {
    let start = Rewrite { names, captured, out: Seq::empty(), error: None };
    match closure_shape_error(toks, site) {
        Some(diag) => Rewrite { error: Some(diag), ..start },
        None => {
            let body = rewrite_body(closure_body(toks), site, start);
            if body.error is Some {
                body
            } else {
                Rewrite {
                    out: closure_tokens(
                        closure_params(toks),
                        body.out,
                        body.captured.len(),
                        bevy_ecs,
                        site,
                    ),
                    ..body
                }
            }
        },
    }
}

/// Whether the identifier has the given text.
pub fn ident_is(ident: &Ident, text: &str) -> (r: bool)
    ensures
        r == (ident.text@ == text@),
{
    ident.text == text.to_owned()
}

/// Whether the tree is the given punctuation character.
pub fn tree_is_punct(tree: &TokenTree, wanted: char) -> (r: bool)
    ensures
        r == is_punct(tree_view(*tree), wanted),
{
    match tree {
        TokenTree::Punct(p) => p.ch == wanted,
        _ => false,
    }
}

/// The name of the local that holds the entity captured at the given position.
fn local_ident(position: usize) -> (r: String)
    ensures
        r@ == local_name(position as nat),
{
    "__bsn_scoped_entity_".to_owned().concat(decimal_text(position).as_str())
}

/// Recursively rewrites the tokens of an async closure body: `#Name` becomes
/// `__bsn_scoped_entity_N`, in nested groups too, but not in the argument of a scene macro.
pub fn rewrite_async_closure_body_stream(
    input: &Tokens,
    ctx: &mut BsnCodegenCtx,
    captured_indices: &mut Vec<usize>,
) -> (r: Result<Tokens, Error>)
    ensures
        ({
            let st = rewrite_body(
                input@,
                old(ctx).call_site,
                Rewrite {
                    names: old(ctx).entity_refs@,
                    captured: old(captured_indices)@,
                    out: Seq::empty(),
                    error: None,
                },
            );
            &&& final(ctx).entity_refs@ == st.names
            &&& final(captured_indices)@ == st.captured
            &&& match r {
                Ok(tokens) => st.error is None && tokens@ == st.out,
                Err(error) => st.error == Some(error@),
            }
        }),
        same_surroundings(*old(ctx), *final(ctx)),
        final(ctx).errors == old(ctx).errors,
    decreases input,
{
    let mut out = Tokens::new();
    let mut i: usize = 0;
    let ghost toks = input@;
    let ghost site = ctx.call_site;
    let ghost goal = rewrite_body(
        toks,
        site,
        Rewrite {
            names: ctx.entity_refs@,
            captured: captured_indices@,
            out: Seq::empty(),
            error: None,
        },
    );
    proof {
        lemma_trees_view_index(input.trees@);
        assert(toks.subrange(0, toks.len() as int) =~= toks);
    }
    while i < input.trees.len()
        invariant
            toks == input@,
            goal == rewrite_body(
                toks,
                old(ctx).call_site,
                Rewrite {
                    names: old(ctx).entity_refs@,
                    captured: old(captured_indices)@,
                    out: Seq::empty(),
                    error: None,
                },
            ),
            toks.len() == input.trees@.len(),
            forall|k: int|
                0 <= k < toks.len() ==> #[trigger] toks[k] == tree_view(input.trees@[k]),
            i <= toks.len(),
            site == ctx.call_site,
            same_surroundings(*old(ctx), *ctx),
            ctx.errors == old(ctx).errors,
            goal == rewrite_body(
                toks.subrange(i as int, toks.len() as int),
                site,
                Rewrite {
                    names: ctx.entity_refs@,
                    captured: captured_indices@,
                    out: out@,
                    error: None,
                },
            ),
        decreases input.trees@.len() - i,
    {
        let ghost here = toks.subrange(i as int, toks.len() as int);
        let left = input.trees.len() - i;
        assert(here[0] == toks[i as int]);
        assert(forall|n: int|
            0 <= n <= here.len() ==> #[trigger] here.subrange(n, here.len() as int)
                =~= toks.subrange(i + n, toks.len() as int));
        match &input.trees[i] {
            TokenTree::Ident(ident) if (ident_is(ident, "bsn") || ident_is(ident, "bsn_ui"))
                && left >= 2 && tree_is_punct(&input.trees[i + 1], '!') => {
                assert(here[1] == toks[i + 1]);
                assert(starts_scene_macro(here));
                let ghost before = out@;
                out.push(input.trees[i].dup());
                out.push(input.trees[i + 1].dup());
                if left >= 3 {
                    assert(here[2] == toks[i + 2]);
                    out.push(input.trees[i + 2].dup());
                    assert(out@ =~= before + here.subrange(0, 3));
                    i += 3;
                } else {
                    assert(out@ =~= before + here.subrange(0, 2));
                    i += 2;
                }
            },
            TokenTree::Punct(p) if p.ch == '#' => {
                if left == 1 {
                    return Err(
                        Error::new(
                            p.span,
                            "`#` in async BSN closure must be followed by an identifier",
                        ),
                    );
                }
                assert(here[1] == toks[i + 1]);
                match &input.trees[i + 1] {
                    TokenTree::Ident(name) => {
                        let capture_position = captured_indices.len();
                        let entity_ref_index = ctx.entity_refs.get(name.text.clone());
                        captured_indices.push(entity_ref_index);
                        let text = local_ident(capture_position);
                        out.push(TokenTree::Ident(Ident { text, span: ctx.call_site }));
                    },
                    other => {
                        out.push(input.trees[i].dup());
                        out.push(other.dup());
                    },
                }
                i += 2;
            },
            TokenTree::Group(group) => {
                match rewrite_async_closure_body_stream(&group.stream, ctx, captured_indices) {
                    Ok(inner) => {
                        out.push(
                            TokenTree::Group(
                                Group {
                                    delimiter: group.delimiter,
                                    stream: inner,
                                    span: group.span,
                                },
                            ),
                        );
                    },
                    Err(error) => {
                        return Err(error);
                    },
                }
                i += 1;
            },
            other => {
                out.push(other.dup());
                i += 1;
            },
        }
    }
    Ok(out)
}

/// The bindings of the first `count` captured entities.
fn quote_capture_bindings(count: usize, site: Span) -> (r: Tokens)
    ensures
        r@ == capture_bindings(count as nat, site),
{
    let mut out = Tokens::new();
    let mut n: usize = 0;
    while n < count
        invariant
            n <= count,
            out@ == capture_bindings(n as nat, site),
        decreases count - n,
    {
        let local = local_ident(n);
        let binding = Quote::at(site)
            .word("let")
            .word(local.as_str())
            .punct('=')
            .word("__bsn_scoped_entities")
            .bracket(Quote::at(site).literal(usize_text(n)))
            .punct('.')
            .word("clone")
            .paren(Quote::at(site))
            .punct(';');
        out.extend(&binding.stream);
        n += 1;
    }
    out
}

/// Rewrites
///
/// ```text
/// async |world: AsyncWorld| {
///     let my_entity: Entity = #Name;
/// }
/// ```
///
/// into
///
/// ```text
/// async move |world: AsyncWorld, __bsn_scoped_entities: Vec<bevy_ecs::entity::Entity>| {
///     let __bsn_scoped_entity_0 = __bsn_scoped_entities[0usize].clone();
///     let my_entity: Entity = __bsn_scoped_entity_0;
/// }
/// ```
///
/// The indices of the entity references go to the end of `captured_indices`, in the order met; the
/// closure indexes its new parameter by capture position.
pub fn rewrite_async_closure(
    input: Tokens,
    ctx: &mut BsnCodegenCtx,
    captured_indices: &mut Vec<usize>,
) -> (r: Result<Tokens, Error>)
    ensures
        ({
            let st = rewrite_closure(
                input@,
                old(ctx).bevy_ecs@,
                old(ctx).call_site,
                old(ctx).entity_refs@,
                old(captured_indices)@,
            );
            &&& final(ctx).entity_refs@ == st.names
            &&& final(captured_indices)@ == st.captured
            &&& match r {
                Ok(tokens) => st.error is None && tokens@ == st.out,
                Err(error) => st.error == Some(error@),
            }
        }),
        same_surroundings(*old(ctx), *final(ctx)),
        final(ctx).errors == old(ctx).errors,
{
    let site = ctx.call_site;
    let ghost toks = input@;
    proof {
        lemma_trees_view_index(input.trees@);
    }
    let len = input.trees.len();
    if len == 0 {
        return Err(Error::new(site, "expected async closure, found empty token stream"));
    }
    let starts_async = match &input.trees[0] {
        TokenTree::Ident(ident) => ident_is(ident, "async"),
        _ => false,
    };
    if !starts_async {
        return Err(
            Error::new(input.trees[0].span(), "expected `async` at the start of async closure"),
        );
    }
    if len == 1 {
        return Err(Error::new(site, "expected `|` after `async`"));
    }
    if !tree_is_punct(&input.trees[1], '|') {
        return Err(Error::new(input.trees[1].span(), "expected `|` after `async`"));
    }
    let mut params = Tokens::new();
    let mut close: usize = 2;
    assert(params@ =~= toks.subrange(2, 2));
    while close < len && !tree_is_punct(&input.trees[close], '|')
        invariant
            toks == input@,
            toks.len() == input.trees@.len(),
            len == toks.len(),
            forall|k: int|
                0 <= k < toks.len() ==> #[trigger] toks[k] == tree_view(input.trees@[k]),
            2 <= close <= len,
            next_bar(toks, 2) == next_bar(toks, close as int),
            params@ == toks.subrange(2, close as int),
        decreases len - close,
    {
        params.push(input.trees[close].dup());
        close += 1;
        assert(params@ =~= toks.subrange(2, close as int));
    }
    if close == len {
        return Err(
            Error::new(
                site,
                "unterminated async closure parameter list; missing closing `|`",
            ),
        );
    }
    if close + 1 == len {
        return Err(
            Error::new(site, "expected `{ ... }` body after async closure parameters"),
        );
    }
    let has_body = match &input.trees[close + 1] {
        TokenTree::Group(group) => group.delimiter == Delimiter::Brace,
        _ => false,
    };
    if !has_body {
        return Err(
            Error::new(
                input.trees[close + 1].span(),
                "expected `{ ... }` body after async closure parameters",
            ),
        );
    }
    if close + 2 < len {
        return Err(
            Error::new(
                input.trees[close + 2].span(),
                "unexpected trailing tokens after async closure body",
            ),
        );
    }
    let outcome = match &input.trees[close + 1] {
        TokenTree::Group(group) => rewrite_async_closure_body_stream(
            &group.stream,
            ctx,
            captured_indices,
        ),
        _ => Ok(Tokens::new()),
    };
    let body = match outcome {
        Ok(body) => body,
        Err(error) => {
            return Err(error);
        },
    };
    let scoped_entities = Quote::at(site)
        .word("__bsn_scoped_entities")
        .punct(':')
        .word("Vec")
        .punct('<')
        .tokens(ctx.bevy_ecs)
        .seg("entity")
        .seg("Entity")
        .punct('>');
    let start = Quote::at(site).word("async").word("move").punct('|');
    let own = if params.is_empty() {
        start
    } else {
        start.tokens(&params).punct(',')
    };
    let bindings = quote_capture_bindings(captured_indices.len(), site);
    let rewritten = own
        .tokens(&scoped_entities.stream)
        .punct('|')
        .brace(Quote::at(site).tokens(&bindings).tokens(&body));
    Ok(rewritten.stream)
}

/// Rewrites an async closure that is handed over by the compiler: see [`rewrite_async_closure`].
pub fn rewrite_async_closure_tokens(
    input: proc_macro2::TokenStream,
    ctx: &mut BsnCodegenCtx,
    captured_indices: &mut Vec<usize>,
) -> (r: Result<Tokens, Error>)
    ensures
        ({
            let st = rewrite_closure(
                stream_tokens(input),
                old(ctx).bevy_ecs@,
                old(ctx).call_site,
                old(ctx).entity_refs@,
                old(captured_indices)@,
            );
            &&& final(ctx).entity_refs@ == st.names
            &&& final(captured_indices)@ == st.captured
            &&& match r {
                Ok(tokens) => st.error is None && tokens@ == st.out,
                Err(error) => st.error == Some(error@),
            }
        }),
        same_surroundings(*old(ctx), *final(ctx)),
        final(ctx).errors == old(ctx).errors,
{
    rewrite_async_closure(read_stream(input), ctx, captured_indices)
}

} // verus!
