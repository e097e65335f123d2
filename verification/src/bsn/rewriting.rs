//! What rewriting an async closure does to its tokens, piece by piece.
use vstd::prelude::*;

#[allow(unused_imports)]
use crate::bsn::closure::{
    capture_bindings, closure_body, closure_params, closure_shape_error, next_bar, rewrite_body,
    rewrite_closure, Rewrite,
};
#[allow(unused_imports)]
use crate::bsn::context::{interned, position, Diag};
#[allow(unused_imports)]
use crate::bsn::laws::{
    at_scene_macro, ends_in_mark, law_mark_without_name_is_refused, law_marks_become_their_locals,
    marked_names, with_locals,
};
#[allow(unused_imports)]
use crate::bsn::shapes::{curly, group_runs, p, path, r0, r1, r2, r3, r4, w};
#[allow(unused_imports)]
use crate::literals::decimal;
#[allow(unused_imports)]
use crate::tokens::{Delimiter, Tok};
use proc_macro2::Span;

verus! {

/// Whether the token is the given word.
pub open spec fn is_word(tok: Tok, text: Seq<char>) -> bool {
    tok is Ident && tok->Ident_text == text
}

/// Whether the token is the given punctuation character.
pub open spec fn is_sign(tok: Tok, ch: char) -> bool {
    tok is Punct && tok->Punct_ch == ch
}

/// Whether the token is the name of a macro that makes a scene of its argument: `bsn` or `bsn_ui`.
pub open spec fn names_scene_macro(tok: Tok) -> bool {
    is_word(tok, "bsn"@) || is_word(tok, "bsn_ui"@)
}

/// No tokens are rewritten to none.
pub proof fn law_nothing_to_rewrite(site: Span, st: Rewrite)
    ensures
        rewrite_body(r0(), site, st) == st,
{
}

/// A token that is neither a group nor `#` is taken over as it is, and the rewriting goes on after
/// it; so is the name of a scene macro that no `!` follows.
pub proof fn law_plain_token_is_kept(tok: Tok, rest: Seq<Tok>, site: Span, st: Rewrite)
    requires
        !(tok is Group),
        !is_sign(tok, '#'),
        names_scene_macro(tok) ==> rest.len() == 0 || !is_sign(rest[0], '!'),
    ensures
        rewrite_body(r1(tok) + rest, site, st) == rewrite_body(
            rest,
            site,
            Rewrite { out: st.out.push(tok), ..st },
        ),
{
    let toks = r1(tok) + rest;
    assert(toks[0] == tok);
    if rest.len() > 0 {
        assert(toks[1] == rest[0]);
    }
    assert(toks.subrange(1, toks.len() as int) =~= rest);
}

/// `#Name` captures the entity of that name, with the index of the name, and becomes the local with
/// the number of the capture; the rewriting goes on after it.
pub proof fn law_mark_is_captured(
    mark: Tok,
    name: Tok,
    rest: Seq<Tok>,
    site: Span,
    st: Rewrite,
)
    requires
        is_sign(mark, '#'),
        name is Ident,
    ensures
        rewrite_body(r2(mark, name) + rest, site, st) == rewrite_body(
            rest,
            site,
            Rewrite {
                names: interned(st.names, name->Ident_text),
                captured: st.captured.push(position(st.names, name->Ident_text) as usize),
                out: st.out.push(
                    w("__bsn_scoped_entity_"@ + decimal(st.captured.len()), site),
                ),
                ..st
            },
        ),
{
    let toks = r2(mark, name) + rest;
    assert(toks[0] == mark);
    assert(toks[1] == name);
    assert(toks.subrange(2, toks.len() as int) =~= rest);
}

/// `#` before anything but a name is taken over with what follows it.
pub proof fn law_mark_before_no_name_is_kept(
    mark: Tok,
    next: Tok,
    rest: Seq<Tok>,
    site: Span,
    st: Rewrite,
)
    requires
        is_sign(mark, '#'),
        !(next is Ident),
    ensures
        rewrite_body(r2(mark, next) + rest, site, st) == rewrite_body(
            rest,
            site,
            Rewrite { out: st.out + r2(mark, next), ..st },
        ),
{
    broadcast use group_runs;
    let toks = r2(mark, next) + rest;
    assert(toks[0] == mark);
    assert(toks[1] == next);
    assert(toks.subrange(2, toks.len() as int) =~= rest);
    assert(st.out + r2(mark, next) =~= st.out.push(mark).push(next));
}

/// `#` at the end is refused, at its place; what was captured before stays captured.
pub proof fn law_mark_at_the_end_is_refused(mark: Tok, site: Span, st: Rewrite)
    requires
        is_sign(mark, '#'),
    ensures
        rewrite_body(r1(mark), site, st) == (Rewrite {
            error: Some(
                Diag {
                    span: mark->Punct_span,
                    message: "`#` in async BSN closure must be followed by an identifier"@,
                },
            ),
            ..st
        }),
{
}

/// A group is rewritten inside, and the rewriting goes on after it with what was captured there;
/// where the inside is refused, so is the whole.
pub proof fn law_group_is_rewritten_inside(
    delimiter: Delimiter,
    body: Seq<Tok>,
    span: Span,
    rest: Seq<Tok>,
    site: Span,
    st: Rewrite,
)
    ensures
        ({
            let inner = rewrite_body(body, site, Rewrite { out: r0(), ..st });
            let group = Tok::Group { delimiter, body: inner.out, span };
            rewrite_body(r1(Tok::Group { delimiter, body, span }) + rest, site, st)
                == if inner.error is None {
                rewrite_body(rest, site, Rewrite { out: st.out.push(group), ..inner })
            } else {
                Rewrite { out: st.out, ..inner }
            }
        }),
{
    let toks = r1(Tok::Group { delimiter, body, span }) + rest;
    assert(toks[0] == Tok::Group { delimiter, body, span });
    assert(toks.subrange(1, toks.len() as int) =~= rest);
}

/// `bsn!` and `bsn_ui!` are taken over with what follows them, whatever it marks, and nothing is
/// captured by it.
pub proof fn law_scene_macro_is_kept(
    name: Tok,
    bang: Tok,
    argument: Seq<Tok>,
    rest: Seq<Tok>,
    site: Span,
    st: Rewrite,
)
    requires
        names_scene_macro(name),
        is_sign(bang, '!'),
        argument.len() == 1 || argument.len() == 0 && rest.len() == 0,
    ensures
        rewrite_body(r2(name, bang) + argument + rest, site, st) == rewrite_body(
            rest,
            site,
            Rewrite { out: st.out + r2(name, bang) + argument, ..st },
        ),
{
    let toks = r2(name, bang) + argument + rest;
    let n = 2 + argument.len() as int;
    assert(toks[0] == name);
    assert(toks[1] == bang);
    assert(toks.subrange(n, toks.len() as int) =~= rest);
    assert(st.out + toks.subrange(0, n) =~= st.out + r2(name, bang) + argument);
}

/// The argument of any other macro is rewritten inside: it captures exactly what its tokens capture
/// on their own, and each mark in it becomes a local. Only `bsn` and `bsn_ui` are other words.
pub proof fn law_other_macros_are_rewritten_inside(
    name: Tok,
    bang: Tok,
    delimiter: Delimiter,
    body: Seq<Tok>,
    span: Span,
    site: Span,
    st: Rewrite,
)
    requires
        name is Ident,
        name->Ident_text != "bsn"@,
        name->Ident_text != "bsn_ui"@,
        is_sign(bang, '!'),
        st.error is None,
    ensures
        ({
            let alone = rewrite_body(body, site, Rewrite { out: r0(), ..st });
            let done = rewrite_body(
                r3(name, bang, Tok::Group { delimiter, body, span }),
                site,
                st,
            );
            &&& done.error == alone.error
            &&& done.names == alone.names
            &&& done.captured == alone.captured
            &&& alone.error is None ==> done.out == st.out + r3(
                name,
                bang,
                Tok::Group { delimiter, body: alone.out, span },
            )
        }),
{
    broadcast use group_runs;
    let group = Tok::Group { delimiter, body, span };
    let toks = r3(name, bang, group);
    assert(toks =~= r1(name) + r2(bang, group));
    assert(r2(bang, group) =~= r1(bang) + r1(group));
    assert(r1(group) =~= r1(group) + r0());
    assert(r2(bang, group)[0] == bang);
    law_plain_token_is_kept(name, r2(bang, group), site, st);
    let one = Rewrite { out: st.out.push(name), ..st };
    law_plain_token_is_kept(bang, r1(group), site, one);
    let two = Rewrite { out: one.out.push(bang), ..one };
    law_group_is_rewritten_inside(delimiter, body, span, r0(), site, two);
    let alone = rewrite_body(body, site, Rewrite { out: r0(), ..st });
    assert(Rewrite { out: r0(), ..two } == Rewrite { out: r0(), ..st });
    let rewritten = Tok::Group { delimiter, body: alone.out, span };
    assert(st.out + r3(name, bang, rewritten) =~= st.out.push(name).push(bang).push(rewritten));
}

/// What is captured and what was written before plays no part in what the rest is rewritten to: it
/// is added after it.
pub proof fn law_what_is_written_stays(toks: Seq<Tok>, site: Span, st: Rewrite)
    requires
        st.error is None,
        rewrite_body(toks, site, st).error is None,
    ensures
        ({
            let done = rewrite_body(toks, site, st);
            let alone = rewrite_body(toks, site, Rewrite { out: r0(), ..st });
            &&& done.out == st.out + alone.out
            &&& done.names == alone.names
            &&& done.captured == alone.captured
            &&& alone.error is None
        }),
{
    law_marks_become_their_locals(toks, site, st);
    lemma_out_plays_no_part(toks, site, st, r0());
    law_marks_become_their_locals(toks, site, Rewrite { out: r0(), ..st });
    let alone = rewrite_body(toks, site, Rewrite { out: r0(), ..st });
    assert(alone.out =~= with_locals(toks, st.captured.len(), site));
}

/// Whether it is refused, and what is captured, does not depend on what was written before.
proof fn lemma_out_plays_no_part(toks: Seq<Tok>, site: Span, st: Rewrite, other: Seq<Tok>)
    ensures
        ({
            let one = rewrite_body(toks, site, st);
            let two = rewrite_body(toks, site, Rewrite { out: other, ..st });
            &&& one.names == two.names
            &&& one.captured == two.captured
            &&& one.error == two.error
        }),
    decreases toks,
{
    if toks.len() > 0 {
        let n = toks.len() as int;
        if at_scene_macro(toks) {
            let k: int = if toks.len() >= 3 { 3 } else { 2 };
            let head = toks.subrange(0, k);
            lemma_out_plays_no_part(
                toks.subrange(k, n),
                site,
                Rewrite { out: st.out + head, ..st },
                other + head,
            );
        } else {
            match toks[0] {
                Tok::Punct { ch: '#', .. } => {
                    if n > 1 {
                        match toks[1] {
                            Tok::Ident { text, .. } => {
                                let local = w(
                                    "__bsn_scoped_entity_"@ + decimal(st.captured.len()),
                                    site,
                                );
                                lemma_out_plays_no_part(
                                    toks.subrange(2, n),
                                    site,
                                    Rewrite {
                                        names: interned(st.names, text),
                                        captured: st.captured.push(
                                            position(st.names, text) as usize,
                                        ),
                                        out: st.out.push(local),
                                        ..st
                                    },
                                    other.push(local),
                                );
                            },
                            next => {
                                lemma_out_plays_no_part(
                                    toks.subrange(2, n),
                                    site,
                                    Rewrite { out: st.out.push(toks[0]).push(next), ..st },
                                    other.push(toks[0]).push(next),
                                );
                            },
                        }
                    }
                },
                Tok::Group { delimiter, body, span } => {
                    let inner = rewrite_body(body, site, Rewrite { out: Seq::empty(), ..st });
                    if inner.error is None {
                        let group = Tok::Group { delimiter, body: inner.out, span };
                        lemma_out_plays_no_part(
                            toks.subrange(1, n),
                            site,
                            Rewrite { out: st.out.push(group), ..inner },
                            other.push(group),
                        );
                    }
                },
                tok => {
                    lemma_out_plays_no_part(
                        toks.subrange(1, n),
                        site,
                        Rewrite { out: st.out.push(tok), ..st },
                        other.push(tok),
                    );
                },
            }
        }
    }
}

/// Whether no token of the run is `|`.
pub open spec fn has_no_bar(toks: Seq<Tok>) -> bool {
    forall|i: int| 0 <= i < toks.len() ==> !is_sign(#[trigger] toks[i], '|')
}

/// The first bar is where it is: behind what has none.
proof fn lemma_next_bar(toks: Seq<Tok>, from: int, to: int)
    requires
        0 <= from <= to <= toks.len(),
        forall|i: int| from <= i < to ==> !is_sign(#[trigger] toks[i], '|'),
        to == toks.len() || is_sign(toks[to], '|'),
    ensures
        next_bar(toks, from) == to,
    decreases to - from,
{
    if from < to {
        assert(!is_sign(toks[from], '|'));
        lemma_next_bar(toks, from + 1, to);
    }
}

/// `async |params| { body }` is an async closure, with these parameters and this body.
pub proof fn law_closure_is_taken_apart(
    word: Tok,
    open: Tok,
    params: Seq<Tok>,
    close: Tok,
    body: Seq<Tok>,
    span: Span,
    site: Span,
)
    requires
        is_word(word, "async"@),
        is_sign(open, '|'),
        has_no_bar(params),
        is_sign(close, '|'),
    ensures
        ({
            let toks = r2(word, open) + params + r2(close, curly(body, span));
            &&& closure_shape_error(toks, site) is None
            &&& closure_params(toks) == params
            &&& closure_body(toks) == body
        }),
{
    let toks = r2(word, open) + params + r2(close, curly(body, span));
    let n = params.len() as int;
    assert forall|i: int| 2 <= i < n + 2 implies !is_sign(#[trigger] toks[i], '|') by {
        assert(toks[i] == params[i - 2]);
    }
    assert(toks[0] == word);
    assert(toks[1] == open);
    assert(toks[n + 2] == close);
    assert(toks[n + 3] == curly(body, span));
    lemma_next_bar(toks, 2, n + 2);
    assert(closure_params(toks) =~= params);
}

/// Nothing else is an async closure: what is accepted is a closure with its parameters and its
/// body, and no more.
pub proof fn law_only_closures_are_accepted(toks: Seq<Tok>, site: Span)
    requires
        closure_shape_error(toks, site) is None,
    ensures
        toks.len() >= 4,
        is_word(toks[0], "async"@),
        is_sign(toks[1], '|'),
        has_no_bar(toks.subrange(2, toks.len() - 2)),
        is_sign(toks[toks.len() - 2], '|'),
        toks.last() matches Tok::Group { delimiter, .. } && delimiter == Delimiter::Brace,
        closure_params(toks) == toks.subrange(2, toks.len() - 2),
        closure_body(toks) == toks.last()->Group_body,
{
    lemma_bar_found(toks, 2);
    let close = next_bar(toks, 2);
    let params = toks.subrange(2, close);
    assert forall|i: int| 0 <= i < params.len() implies !is_sign(#[trigger] params[i], '|') by {
        assert(params[i] == toks[i + 2]);
    }
}

/// The bar that is found is the first.
proof fn lemma_bar_found(toks: Seq<Tok>, from: int)
    requires
        0 <= from,
    ensures
        from <= toks.len() ==> from <= next_bar(toks, from) <= toks.len(),
        next_bar(toks, from) < toks.len() ==> is_sign(toks[next_bar(toks, from)], '|'),
        forall|i: int|
            from <= i < next_bar(toks, from) ==> i >= toks.len() || !is_sign(
                #[trigger] toks[i],
                '|',
            ),
    decreases toks.len() - from,
{
    if from < toks.len() && !is_sign(toks[from], '|') {
        lemma_bar_found(toks, from + 1);
    }
}

/// What is no async closure is refused at the first token that does not fit, or where the scene is
/// written if there is none, with what is missing there.
pub proof fn law_misshapen_closures_are_refused(
    word: Tok,
    open: Tok,
    params: Seq<Tok>,
    close: Tok,
    body: Tok,
    rest: Seq<Tok>,
    site: Span,
)
    requires
        has_no_bar(params),
    ensures
        closure_shape_error(r0(), site) == Some(
            Diag { span: site, message: "expected async closure, found empty token stream"@ },
        ),
        !is_word(word, "async"@) ==> closure_shape_error(r1(word) + rest, site) == Some(
            Diag {
                span: span_of(word),
                message: "expected `async` at the start of async closure"@,
            },
        ),
        is_word(word, "async"@) ==> closure_shape_error(r1(word), site) == Some(
            Diag { span: site, message: "expected `|` after `async`"@ },
        ),
        is_word(word, "async"@) && !is_sign(open, '|') ==> closure_shape_error(
            r2(word, open) + rest,
            site,
        ) == Some(Diag { span: span_of(open), message: "expected `|` after `async`"@ }),
        is_word(word, "async"@) && is_sign(open, '|') ==> closure_shape_error(
            r2(word, open) + params,
            site,
        ) == Some(
            Diag {
                span: site,
                message: "unterminated async closure parameter list; missing closing `|`"@,
            },
        ),
        is_word(word, "async"@) && is_sign(open, '|') && is_sign(close, '|')
            ==> closure_shape_error(r2(word, open) + params + r1(close), site) == Some(
            Diag {
                span: site,
                message: "expected `{ ... }` body after async closure parameters"@,
            },
        ),
        is_word(word, "async"@) && is_sign(open, '|') && is_sign(close, '|') && !(body is Group
            && body->Group_delimiter == Delimiter::Brace) ==> closure_shape_error(
            r2(word, open) + params + r2(close, body) + rest,
            site,
        ) == Some(
            Diag {
                span: span_of(body),
                message: "expected `{ ... }` body after async closure parameters"@,
            },
        ),
        is_word(word, "async"@) && is_sign(open, '|') && is_sign(close, '|') && body is Group
            && body->Group_delimiter == Delimiter::Brace && rest.len() > 0
            ==> closure_shape_error(r2(word, open) + params + r2(close, body) + rest, site)
            == Some(
            Diag {
                span: span_of(rest[0]),
                message: "unexpected trailing tokens after async closure body"@,
            },
        ),
{
    let n = params.len() as int;
    if is_word(word, "async"@) && is_sign(open, '|') {
        let one = r2(word, open) + params;
        let two = one + r1(close);
        let three = one + r2(close, body) + rest;
        assert forall|i: int| 2 <= i < n + 2 implies !is_sign(#[trigger] one[i], '|') by {
            assert(one[i] == params[i - 2]);
        }
        assert forall|i: int| 2 <= i < n + 2 implies !is_sign(#[trigger] two[i], '|') by {
            assert(two[i] == params[i - 2]);
        }
        assert forall|i: int| 2 <= i < n + 2 implies !is_sign(#[trigger] three[i], '|') by {
            assert(three[i] == params[i - 2]);
        }
        assert(one[0] == word && one[1] == open);
        assert(two[0] == word && two[1] == open && two[n + 2] == close);
        assert(three[0] == word && three[1] == open && three[n + 2] == close && three[n + 3]
            == body);
        lemma_next_bar(one, 2, n + 2);
        if is_sign(close, '|') {
            lemma_next_bar(two, 2, n + 2);
            lemma_next_bar(three, 2, n + 2);
            if rest.len() > 0 {
                assert(three[n + 4] == rest[0]);
            }
        }
    }
    assert((r1(word) + rest)[0] == word);
    assert((r2(word, open) + rest)[0] == word);
    assert((r2(word, open) + rest)[1] == open);
}

/// Where a token is.
pub open spec fn span_of(tok: Tok) -> Span {
    match tok {
        Tok::Group { span, .. } => span,
        Tok::Ident { span, .. } => span,
        Tok::Punct { span, .. } => span,
        Tok::Literal { span, .. } => span,
    }
}

/// `async move |params, __bsn_scoped_entities: Vec<bevy_ecs::entity::Entity>| { bindings body }`:
/// the closure keeps its parameters, takes the entities as one more, binds each capture to its local
/// and goes on with its body, rewritten. It captures what its body captures. Where the body is
/// refused, so is the closure.
pub proof fn law_closure_is_rewritten(
    toks: Seq<Tok>,
    ecs: Seq<Tok>,
    site: Span,
    names: Seq<Seq<char>>,
    captured: Seq<usize>,
)
    ensures
        ({
            let start = Rewrite { names, captured, out: r0(), error: None };
            let body = rewrite_body(closure_body(toks), site, start);
            let params = closure_params(toks);
            let done = rewrite_closure(toks, ecs, site, names, captured);
            match closure_shape_error(toks, site) {
                Some(error) => done == (Rewrite { error: Some(error), ..start }),
                None => {
                    &&& done.names == body.names
                    &&& done.captured == body.captured
                    &&& done.error == body.error
                    &&& body.error is None ==> done.out == r3(
                        w("async"@, site),
                        w("move"@, site),
                        p('|', site),
                    ) + (if params.len() == 0 {
                        r0()
                    } else {
                        params + r1(p(',', site))
                    }) + r4(
                        w("__bsn_scoped_entities"@, site),
                        p(':', site),
                        w("Vec"@, site),
                        p('<', site),
                    ) + ecs + path("entity"@, site) + path("Entity"@, site) + r3(
                        p('>', site),
                        p('|', site),
                        curly(capture_bindings(body.captured.len(), site) + body.out, site),
                    )
                },
            }
        }),
{
    broadcast use group_runs;
    if closure_params(toks).len() == 0 {
        assert(closure_shape_error(toks, site) is None || closure_shape_error(toks, site) is Some);
    } else {
        assert(closure_shape_error(toks, site) is None || closure_shape_error(toks, site) is Some);
    }
}

/// What the first tokens of a body are rewritten to starts with `!` only if the body does.
proof fn lemma_bang_comes_from_bang(toks: Seq<Tok>, from: nat, site: Span)
    requires
        toks.len() > 0,
        !is_sign(toks[0], '!'),
    ensures
        with_locals(toks, from, site).len() > 0,
        !is_sign(with_locals(toks, from, site)[0], '!'),
{
}

/// One token that is no group, no `#` and no scene macro marks nothing.
proof fn lemma_marks_behind(tok: Tok, rest: Seq<Tok>)
    requires
        !(tok is Group),
        !is_sign(tok, '#'),
        names_scene_macro(tok) ==> rest.len() == 0 || !is_sign(rest[0], '!'),
    ensures
        marked_names(r1(tok) + rest) == marked_names(rest),
{
    let toks = r1(tok) + rest;
    assert(toks[0] == tok);
    if rest.len() > 0 {
        assert(toks[1] == rest[0]);
    }
    assert(toks.subrange(1, toks.len() as int) =~= rest);
}

/// Every `#Name` in the body of a closure becomes a local: none is left, outside the arguments of
/// `bsn!` and `bsn_ui!`, however deep it stood and in whatever other macro.
pub proof fn law_no_mark_is_left(toks: Seq<Tok>, site: Span, st: Rewrite)
    requires
        st.error is None,
        rewrite_body(toks, site, st).error is None,
    ensures
        marked_names(rewrite_body(toks, site, Rewrite { out: r0(), ..st }).out) == Seq::<
            Seq<char>,
        >::empty(),
{
    lemma_out_plays_no_part(toks, site, st, r0());
    law_marks_become_their_locals(toks, site, Rewrite { out: r0(), ..st });
    let alone = rewrite_body(toks, site, Rewrite { out: r0(), ..st });
    assert(alone.out =~= with_locals(toks, st.captured.len(), site));
    law_mark_without_name_is_refused(toks, site, st);
    lemma_no_mark_is_left(toks, st.captured.len(), site);
}

/// Where every marked name is a local, no name is marked.
proof fn lemma_no_mark_is_left(toks: Seq<Tok>, from: nat, site: Span)
    requires
        !ends_in_mark(toks),
    ensures
        marked_names(with_locals(toks, from, site)) == Seq::<Seq<char>>::empty(),
    decreases toks,
{
    let out = with_locals(toks, from, site);
    let n = toks.len() as int;
    if n > 0 {
        if at_scene_macro(toks) {
            let k: int = if n >= 3 { 3 } else { 2 };
            let rest = toks.subrange(k, n);
            lemma_no_mark_is_left(rest, from, site);
            let then = with_locals(rest, from, site);
            assert(out[0] == toks[0] && out[1] == toks[1]);
            if n >= 3 {
                assert(out.subrange(3, out.len() as int) =~= then);
            } else {
                assert(then.len() == 0);
                assert(out.subrange(2, out.len() as int) =~= then);
            }
        } else {
            match toks[0] {
                Tok::Punct { ch: '#', .. } => {
                    let rest = toks.subrange(2, n);
                    match toks[1] {
                        Tok::Ident { .. } => {
                            let local = w("__bsn_scoped_entity_"@ + decimal(from), site);
                            let then = with_locals(rest, from + 1, site);
                            lemma_no_mark_is_left(rest, from + 1, site);
                            assert(out =~= r1(local) + then);
                            lemma_local_is_no_macro(from, site);
                            lemma_marks_behind(local, then);
                        },
                        next => {
                            let then = with_locals(rest, from, site);
                            lemma_no_mark_is_left(rest, from, site);
                            assert(out[0] == toks[0] && out[1] == next);
                            assert(out.subrange(2, out.len() as int) =~= then);
                        },
                    }
                },
                Tok::Group { delimiter, body, span } => {
                    let rest = toks.subrange(1, n);
                    let inner = with_locals(body, from, site);
                    let later = from + marked_names(body).len();
                    let then = with_locals(rest, later, site);
                    lemma_no_mark_is_left(body, from, site);
                    lemma_no_mark_is_left(rest, later, site);
                    assert(out[0] == Tok::Group { delimiter, body: inner, span });
                    assert(out.subrange(1, out.len() as int) =~= then);
                    assert(marked_names(inner) + marked_names(then) =~= Seq::empty());
                },
                tok => {
                    let rest = toks.subrange(1, n);
                    let then = with_locals(rest, from, site);
                    lemma_no_mark_is_left(rest, from, site);
                    assert(out =~= r1(tok) + then);
                    if n > 1 {
                        assert(rest[0] == toks[1]);
                        if names_scene_macro(tok) {
                            lemma_bang_comes_from_bang(rest, from, site);
                        }
                    }
                    lemma_marks_behind(tok, then);
                },
            }
        }
    }
}

/// A local is no scene macro.
proof fn lemma_local_is_no_macro(from: nat, site: Span)
    ensures
        !names_scene_macro(w("__bsn_scoped_entity_"@ + decimal(from), site)),
{
    reveal_strlit("__bsn_scoped_entity_");
    reveal_strlit("bsn");
    reveal_strlit("bsn_ui");
    let local = "__bsn_scoped_entity_"@ + decimal(from);
    assert(local[0] == '_');
    assert("bsn"@[0] == 'b');
    assert("bsn_ui"@[0] == 'b');
}

} // verus!
