//! What holds of code generation as a whole.
use vstd::prelude::*;

#[allow(unused_imports)]
use crate::bsn::closure::{
    closure_body, closure_params, closure_shape_error, closure_tokens, rewrite_body,
    rewrite_closure, Rewrite,
};
#[allow(unused_imports)]
use crate::bsn::codegen::{
    auto_nest_tuple, generate_entries, generate_entry, generate_items, generate_patch,
    result_before_errors, BsnTokenStream,
};
#[allow(unused_imports)]
use crate::bsn::context::{interned, lemma_position, position, Diag};
#[allow(unused_imports)]
use crate::bsn::patch::{
    dotted, is_duplicate, patch_named, patch_tuple, patch_type, patch_value, touch_type,
    variant_fields, variant_named, variant_tuple, variant_value, Env, Patch, VariantPatch,
};
#[allow(unused_imports)]
use crate::bsn::types::{
    BsnEntry, BsnFields, BsnListRoot, BsnNamedField, BsnRoot, BsnSceneListItem, BsnType,
    BsnUnnamedField, BsnValue,
};
#[allow(unused_imports)]
use crate::literals::decimal;
#[allow(unused_imports)]
use crate::tokens::Tok;
#[allow(unused_imports)]
use proc_macro2::Span;

verus! {

/// Whether `after` is `before` with more at the end.
pub open spec fn extends<A>(before: Seq<A>, after: Seq<A>) -> bool {
    &&& before.len() <= after.len()
    &&& forall|i: int| 0 <= i < before.len() ==> #[trigger] before[i] == after[i]
}

/// Whether the entity names have grown: the known ones keep their places, and distinct names stay
/// distinct.
pub open spec fn names_grown(before: Seq<Seq<char>>, after: Seq<Seq<char>>) -> bool {
    &&& extends(before, after)
    &&& before.no_duplicates() ==> after.no_duplicates()
}

/// Looking up a name keeps every known name in its place, knows the name afterwards, and adds it
/// only if it is new, with the next index in sequence.
pub proof fn law_lookup_is_sequential(names: Seq<Seq<char>>, name: Seq<char>)
    ensures
        names_grown(names, interned(names, name)),
        interned(names, name).contains(name),
        interned(names, name)[position(names, name) as int] == name,
        !names.contains(name) ==> position(names, name) == names.len(),
        interned(names, name).len() <= names.len() + 1,
{
    lemma_position(names, name);
    if !names.contains(name) {
        let after = interned(names, name);
        assert(after[names.len() as int] == name);
        if names.no_duplicates() {
            assert forall|i: int, j: int|
                0 <= i < after.len() && 0 <= j < after.len() && i != j implies after[i]
                != after[j] by {
                if i == names.len() {
                    assert(names.contains(names[j]));
                } else if j == names.len() {
                    assert(names.contains(names[i]));
                }
            }
        }
    }
}

/// The index of a known name does not change, however many names are looked up after it.
pub proof fn law_index_is_stable(
    names: Seq<Seq<char>>,
    later: Seq<Seq<char>>,
    name: Seq<char>,
)
    requires
        names.contains(name),
        extends(names, later),
    ensures
        position(later, name) == position(names, name),
{
    lemma_position(names, name);
    lemma_position(later, name);
    let k = position(names, name) as int;
    assert(names[k] == later[k]);
    assert(later.contains(name));
    let l = position(later, name) as int;
    if l < k {
        assert(names[l] == later[l]);
    }
}

/// The same name gets the same index again.
pub proof fn law_same_name_same_index(names: Seq<Seq<char>>, name: Seq<char>)
    ensures
        position(interned(names, name), name) == position(names, name),
        interned(interned(names, name), name) == interned(names, name),
{
    law_lookup_is_sequential(names, name);
    lemma_position(names, name);
    lemma_position(interned(names, name), name);
    if names.contains(name) {
        law_index_is_stable(names, interned(names, name), name);
    } else {
        let l = position(interned(names, name), name) as int;
        if l < names.len() {
            assert(names[l] == name);
        }
    }
}

/// A name that has been looked up is found under the same index ever after.
pub proof fn law_references_agree(
    names: Seq<Seq<char>>,
    later: Seq<Seq<char>>,
    name: Seq<char>,
)
    requires
        extends(interned(names, name), later),
    ensures
        position(later, name) == position(names, name),
{
    law_same_name_same_index(names, name);
    law_lookup_is_sequential(names, name);
    law_index_is_stable(interned(names, name), later, name);
}

/// Different names get different indices.
pub proof fn law_different_names_different_indices(
    names: Seq<Seq<char>>,
    one: Seq<char>,
    other: Seq<char>,
)
    requires
        names.contains(one),
        names.contains(other),
        one != other,
    ensures
        position(names, one) != position(names, other),
{
    lemma_position(names, one);
    lemma_position(names, other);
}

/// Whether the tokens start with `bsn!` or `bsn_ui!`: what follows is left to those macros.
pub open spec fn at_scene_macro(toks: Seq<Tok>) -> bool {
    &&& toks.len() >= 2
    &&& toks[0] matches Tok::Ident { text, .. } && (text == "bsn"@ || text == "bsn_ui"@)
    &&& toks[1] matches Tok::Punct { ch, .. } && ch == '!'
}

/// The names marked with `#` in the tokens of a closure body, in order; those in the argument of a
/// scene macro are not counted.
pub open spec fn marked_names(toks: Seq<Tok>) -> Seq<Seq<char>>
    decreases toks,
{
    if toks.len() == 0 {
        Seq::empty()
    } else if at_scene_macro(toks) {
        let n: int = if toks.len() >= 3 { 3 } else { 2 };
        marked_names(toks.subrange(n, toks.len() as int))
    } else {
        match toks[0] {
            Tok::Punct { ch: '#', .. } => if toks.len() == 1 {
                Seq::empty()
            } else {
                let rest = marked_names(toks.subrange(2, toks.len() as int));
                match toks[1] {
                    Tok::Ident { text, .. } => seq![text] + rest,
                    _ => rest,
                }
            },
            Tok::Group { body, .. } => marked_names(body) + marked_names(
                toks.subrange(1, toks.len() as int),
            ),
            _ => marked_names(toks.subrange(1, toks.len() as int)),
        }
    }
}

/// Whether no `#` stands in the tokens, outside the arguments of scene macros.
pub open spec fn unmarked(toks: Seq<Tok>) -> bool
    decreases toks,
{
    if toks.len() == 0 {
        true
    } else if at_scene_macro(toks) {
        let n: int = if toks.len() >= 3 { 3 } else { 2 };
        unmarked(toks.subrange(n, toks.len() as int))
    } else {
        let rest = toks.subrange(1, toks.len() as int);
        match toks[0] {
            Tok::Punct { ch: '#', .. } => false,
            Tok::Group { body, .. } => unmarked(body) && unmarked(rest),
            _ => unmarked(rest),
        }
    }
}

/// Whether the captures after `from` are the given names, by the indices that these have.
pub open spec fn captures_are(
    captured: Seq<usize>,
    from: nat,
    wanted: Seq<Seq<char>>,
    names: Seq<Seq<char>>,
) -> bool {
    &&& captured.len() == from + wanted.len()
    &&& forall|k: int|
        0 <= k < wanted.len() ==> {
            &&& #[trigger] captured[from + k] < names.len()
            &&& names[captured[from + k] as int] == wanted[k]
        }
}

/// Rewriting adds names and captures and takes none away, even where it fails.
pub proof fn law_rewriting_only_adds(toks: Seq<Tok>, site: Span, st: Rewrite)
    ensures
        names_grown(st.names, rewrite_body(toks, site, st).names),
        extends(st.captured, rewrite_body(toks, site, st).captured),
    decreases toks,
{
    if toks.len() == 0 {
    } else if at_scene_macro(toks) {
        let n: int = if toks.len() >= 3 { 3 } else { 2 };
        law_rewriting_only_adds(
            toks.subrange(n, toks.len() as int),
            site,
            Rewrite { out: st.out + toks.subrange(0, n), ..st },
        );
    } else {
        match toks[0] {
            Tok::Punct { ch: '#', .. } => if toks.len() > 1 {
                let rest = toks.subrange(2, toks.len() as int);
                match toks[1] {
                    Tok::Ident { text, .. } => {
                        let next = captured_next(text, site, st);
                        law_lookup_is_sequential(st.names, text);
                        law_rewriting_only_adds(rest, site, next);
                        assert forall|i: int| 0 <= i < st.captured.len() implies #[trigger]
                        st.captured[i] == rewrite_body(toks, site, st).captured[i] by {
                            assert(next.captured[i] == st.captured[i]);
                        }
                    },
                    other => {
                        law_rewriting_only_adds(
                            rest,
                            site,
                            Rewrite { out: st.out.push(toks[0]).push(other), ..st },
                        );
                    },
                }
            },
            Tok::Group { delimiter, body, span } => {
                let inner = rewrite_body(body, site, Rewrite { out: Seq::empty(), ..st });
                law_rewriting_only_adds(body, site, Rewrite { out: Seq::empty(), ..st });
                if inner.error is None {
                    law_rewriting_only_adds(
                        toks.subrange(1, toks.len() as int),
                        site,
                        Rewrite {
                            out: st.out.push(Tok::Group { delimiter, body: inner.out, span }),
                            ..inner
                        },
                    );
                }
            },
            other => {
                law_rewriting_only_adds(
                    toks.subrange(1, toks.len() as int),
                    site,
                    Rewrite { out: st.out.push(other), ..st },
                );
            },
        }
    }
}

/// The state once one more name has been captured.
pub open spec fn captured_next(text: Seq<char>, site: Span, st: Rewrite) -> Rewrite {
    Rewrite {
        names: interned(st.names, text),
        captured: st.captured.push(position(st.names, text) as usize),
        out: st.out.push(
            Tok::Ident {
                text: "__bsn_scoped_entity_"@ + decimal(st.captured.len()),
                span: site,
            },
        ),
        ..st
    }
}

/// The entities that a closure body captures are those marked in it, one capture for each mark, in
/// order. The names have to fit what can be indexed.
pub proof fn law_captures_are_the_marked_names(toks: Seq<Tok>, site: Span, st: Rewrite)
    requires
        st.error is None,
        rewrite_body(toks, site, st).error is None,
        rewrite_body(toks, site, st).names.len() <= usize::MAX,
    ensures
        captures_are(
            rewrite_body(toks, site, st).captured,
            st.captured.len(),
            marked_names(toks),
            rewrite_body(toks, site, st).names,
        ),
    decreases toks,
{
    let done = rewrite_body(toks, site, st);
    if toks.len() == 0 {
    } else if at_scene_macro(toks) {
        let n: int = if toks.len() >= 3 { 3 } else { 2 };
        law_captures_are_the_marked_names(
            toks.subrange(n, toks.len() as int),
            site,
            Rewrite { out: st.out + toks.subrange(0, n), ..st },
        );
    } else {
        match toks[0] {
            Tok::Punct { ch: '#', .. } => {
                let rest = toks.subrange(2, toks.len() as int);
                match toks[1] {
                    Tok::Ident { text, .. } => {
                        let next = captured_next(text, site, st);
                        law_captures_are_the_marked_names(rest, site, next);
                        law_rewriting_only_adds(rest, site, next);
                        law_lookup_is_sequential(st.names, text);
                        lemma_position(st.names, text);
                        let wanted = marked_names(toks);
                        assert forall|k: int| 0 <= k < wanted.len() implies {
                            &&& #[trigger] done.captured[st.captured.len() + k] < done.names.len()
                            &&& done.names[done.captured[st.captured.len() + k] as int]
                                == wanted[k]
                        } by {
                            if k == 0 {
                                let p = position(st.names, text);
                                assert(next.captured[st.captured.len() as int] == p as usize);
                                assert(next.names[p as int] == text);
                            } else {
                                assert(done.captured[next.captured.len() + (k - 1)]
                                    == done.captured[st.captured.len() + k]);
                                assert(wanted[k] == marked_names(rest)[k - 1]);
                            }
                        }
                    },
                    other => {
                        law_captures_are_the_marked_names(
                            rest,
                            site,
                            Rewrite { out: st.out.push(toks[0]).push(other), ..st },
                        );
                    },
                }
            },
            Tok::Group { delimiter, body, span } => {
                let start = Rewrite { out: Seq::empty(), ..st };
                let inner = rewrite_body(body, site, start);
                let rest = toks.subrange(1, toks.len() as int);
                let next = Rewrite {
                    out: st.out.push(Tok::Group { delimiter, body: inner.out, span }),
                    ..inner
                };
                law_rewriting_only_adds(rest, site, next);
                law_captures_are_the_marked_names(body, site, start);
                law_captures_are_the_marked_names(rest, site, next);
                let wanted = marked_names(toks);
                let first = marked_names(body);
                assert forall|k: int| 0 <= k < wanted.len() implies {
                    &&& #[trigger] done.captured[st.captured.len() + k] < done.names.len()
                    &&& done.names[done.captured[st.captured.len() + k] as int] == wanted[k]
                } by {
                    if k < first.len() {
                        assert(inner.captured[st.captured.len() + k]
                            == done.captured[st.captured.len() + k]);
                        assert(wanted[k] == first[k]);
                    } else {
                        let m = k - first.len();
                        assert(done.captured[next.captured.len() + m]
                            == done.captured[st.captured.len() + k]);
                        assert(wanted[k] == marked_names(rest)[m]);
                    }
                }
            },
            other => {
                law_captures_are_the_marked_names(
                    toks.subrange(1, toks.len() as int),
                    site,
                    Rewrite { out: st.out.push(other), ..st },
                );
            },
        }
    }
}

/// A closure body with every marked name replaced by a local: the locals are numbered in the order
/// of the marks, from `from` on. Arguments of scene macros stay as they are.
pub open spec fn with_locals(toks: Seq<Tok>, from: nat, site: Span) -> Seq<Tok>
    decreases toks,
{
    if toks.len() == 0 {
        Seq::empty()
    } else if at_scene_macro(toks) {
        let n: int = if toks.len() >= 3 { 3 } else { 2 };
        toks.subrange(0, n) + with_locals(toks.subrange(n, toks.len() as int), from, site)
    } else {
        match toks[0] {
            Tok::Punct { ch: '#', .. } => if toks.len() == 1 {
                toks
            } else {
                let rest = toks.subrange(2, toks.len() as int);
                match toks[1] {
                    Tok::Ident { .. } => seq![
                        Tok::Ident { text: "__bsn_scoped_entity_"@ + decimal(from), span: site },
                    ] + with_locals(rest, from + 1, site),
                    _ => toks.subrange(0, 2) + with_locals(rest, from, site),
                }
            },
            Tok::Group { delimiter, body, span } => seq![
                Tok::Group { delimiter, body: with_locals(body, from, site), span },
            ] + with_locals(
                toks.subrange(1, toks.len() as int),
                from + marked_names(body).len(),
                site,
            ),
            other => seq![other] + with_locals(toks.subrange(1, toks.len() as int), from, site),
        }
    }
}

/// The mark of the capture at a position becomes the local of that position, and all else in a
/// closure body stays as it is, so that each local stands for the entity of the name it replaces.
pub proof fn law_marks_become_their_locals(toks: Seq<Tok>, site: Span, st: Rewrite)
    requires
        st.error is None,
        rewrite_body(toks, site, st).error is None,
    ensures
        rewrite_body(toks, site, st).captured.len() == st.captured.len() + marked_names(toks).len(),
        rewrite_body(toks, site, st).out == st.out + with_locals(toks, st.captured.len(), site),
    decreases toks,
{
    let from = st.captured.len();
    let done = rewrite_body(toks, site, st);
    if toks.len() == 0 {
        assert(done.out =~= st.out + with_locals(toks, from, site));
    } else if at_scene_macro(toks) {
        let n: int = if toks.len() >= 3 { 3 } else { 2 };
        let rest = toks.subrange(n, toks.len() as int);
        law_marks_become_their_locals(
            rest,
            site,
            Rewrite { out: st.out + toks.subrange(0, n), ..st },
        );
        assert(done.out =~= st.out + with_locals(toks, from, site));
    } else {
        match toks[0] {
            Tok::Punct { ch: '#', .. } => {
                let rest = toks.subrange(2, toks.len() as int);
                match toks[1] {
                    Tok::Ident { text, .. } => {
                        law_marks_become_their_locals(rest, site, captured_next(text, site, st));
                    },
                    other => {
                        law_marks_become_their_locals(
                            rest,
                            site,
                            Rewrite { out: st.out.push(toks[0]).push(other), ..st },
                        );
                    },
                }
                assert(done.out =~= st.out + with_locals(toks, from, site));
            },
            Tok::Group { delimiter, body, span } => {
                let start = Rewrite { out: Seq::empty(), ..st };
                let inner = rewrite_body(body, site, start);
                let rest = toks.subrange(1, toks.len() as int);
                law_marks_become_their_locals(body, site, start);
                assert(inner.out =~= with_locals(body, from, site));
                law_marks_become_their_locals(
                    rest,
                    site,
                    Rewrite {
                        out: st.out.push(Tok::Group { delimiter, body: inner.out, span }),
                        ..inner
                    },
                );
                assert(done.out =~= st.out + with_locals(toks, from, site));
            },
            other => {
                law_marks_become_their_locals(
                    toks.subrange(1, toks.len() as int),
                    site,
                    Rewrite { out: st.out.push(other), ..st },
                );
                assert(done.out =~= st.out + with_locals(toks, from, site));
            },
        }
    }
}

/// A closure body in which nothing is marked is taken over as it is, and captures nothing.
pub proof fn law_unmarked_body_is_unchanged(toks: Seq<Tok>, site: Span, st: Rewrite)
    requires
        unmarked(toks),
        st.error is None,
    ensures
        rewrite_body(toks, site, st) == (Rewrite { out: st.out + toks, ..st }),
    decreases toks,
{
    if toks.len() == 0 {
        assert(st.out + toks =~= st.out);
    } else if at_scene_macro(toks) {
        let n: int = if toks.len() >= 3 { 3 } else { 2 };
        let rest = toks.subrange(n, toks.len() as int);
        let head = toks.subrange(0, n);
        law_unmarked_body_is_unchanged(rest, site, Rewrite { out: st.out + head, ..st });
        assert(st.out + head + rest =~= st.out + toks);
    } else {
        let rest = toks.subrange(1, toks.len() as int);
        match toks[0] {
            Tok::Group { delimiter, body, span } => {
                law_unmarked_body_is_unchanged(body, site, Rewrite { out: Seq::empty(), ..st });
                assert(Seq::<Tok>::empty() + body =~= body);
                law_unmarked_body_is_unchanged(
                    rest,
                    site,
                    Rewrite { out: st.out.push(toks[0]), ..st },
                );
            },
            other => {
                law_unmarked_body_is_unchanged(
                    rest,
                    site,
                    Rewrite { out: st.out.push(other), ..st },
                );
            },
        }
        assert(st.out.push(toks[0]) + rest =~= st.out + toks);
    }
}

/// Whether a closure body, or a group in it, ends with `#` and no name.
pub open spec fn ends_in_mark(toks: Seq<Tok>) -> bool
    decreases toks,
{
    if toks.len() == 0 {
        false
    } else if at_scene_macro(toks) {
        let n: int = if toks.len() >= 3 { 3 } else { 2 };
        ends_in_mark(toks.subrange(n, toks.len() as int))
    } else {
        match toks[0] {
            Tok::Punct { ch: '#', .. } => toks.len() == 1 || ends_in_mark(
                toks.subrange(2, toks.len() as int),
            ),
            Tok::Group { body, .. } => ends_in_mark(body) || ends_in_mark(
                toks.subrange(1, toks.len() as int),
            ),
            _ => ends_in_mark(toks.subrange(1, toks.len() as int)),
        }
    }
}

/// A closure body is refused exactly if it, or a group in it, ends with `#` and no name; what was
/// rewritten before plays no part.
pub proof fn law_mark_without_name_is_refused(toks: Seq<Tok>, site: Span, st: Rewrite)
    requires
        st.error is None,
    ensures
        rewrite_body(toks, site, st).error is Some <==> ends_in_mark(toks),
    decreases toks,
{
    if toks.len() > 0 {
        if at_scene_macro(toks) {
            let n: int = if toks.len() >= 3 { 3 } else { 2 };
            law_mark_without_name_is_refused(
                toks.subrange(n, toks.len() as int),
                site,
                Rewrite { out: st.out + toks.subrange(0, n), ..st },
            );
        } else {
            match toks[0] {
                Tok::Punct { ch: '#', .. } => {
                    if toks.len() > 1 {
                        let rest = toks.subrange(2, toks.len() as int);
                        let next = match toks[1] {
                            Tok::Ident { text, .. } => captured_next(text, site, st),
                            other => Rewrite { out: st.out.push(toks[0]).push(other), ..st },
                        };
                        law_mark_without_name_is_refused(rest, site, next);
                    }
                },
                Tok::Group { delimiter, body, span } => {
                    let within = Rewrite { out: Seq::empty(), ..st };
                    let inner = rewrite_body(body, site, within);
                    law_mark_without_name_is_refused(body, site, within);
                    if inner.error is None {
                        law_mark_without_name_is_refused(
                            toks.subrange(1, toks.len() as int),
                            site,
                            Rewrite {
                                out: st.out.push(Tok::Group { delimiter, body: inner.out, span }),
                                ..inner
                            },
                        );
                    }
                },
                other => {
                    law_mark_without_name_is_refused(
                        toks.subrange(1, toks.len() as int),
                        site,
                        Rewrite { out: st.out.push(other), ..st },
                    );
                },
            }
        }
    }
}

/// Whether a closure body ends where rewriting can be broken off and taken up again: not after `#`,
/// nor after the name of a scene macro, with or without its `!`, unless it is refused before.
pub open spec fn complete(toks: Seq<Tok>) -> bool
    decreases toks,
{
    if toks.len() == 0 {
        true
    } else if at_scene_macro(toks) {
        toks.len() >= 3 && complete(toks.subrange(3, toks.len() as int))
    } else {
        match toks[0] {
            Tok::Punct { ch: '#', .. } => toks.len() >= 2 && complete(
                toks.subrange(2, toks.len() as int),
            ),
            Tok::Ident { text, .. } => {
                &&& !((text == "bsn"@ || text == "bsn_ui"@) && toks.len() == 1)
                &&& complete(toks.subrange(1, toks.len() as int))
            },
            Tok::Group { body, .. } => ends_in_mark(body) || complete(
                toks.subrange(1, toks.len() as int),
            ),
            _ => complete(toks.subrange(1, toks.len() as int)),
        }
    }
}

/// Rewriting one run of tokens and then another is rewriting both at once; an error in the first
/// stops both.
pub proof fn law_rewriting_can_be_split(a: Seq<Tok>, b: Seq<Tok>, site: Span, st: Rewrite)
    requires
        complete(a),
        st.error is None,
    ensures
        rewrite_body(a + b, site, st) == if rewrite_body(a, site, st).error is None {
            rewrite_body(b, site, rewrite_body(a, site, st))
        } else {
            rewrite_body(a, site, st)
        },
    decreases a,
{
    let all = a + b;
    if a.len() == 0 {
        assert(all =~= b);
    } else {
        assert(all[0] == a[0]);
        if a.len() >= 2 {
            assert(all[1] == a[1]);
        }
        if at_scene_macro(a) {
            let rest = a.subrange(3, a.len() as int);
            assert(at_scene_macro(all));
            assert(all.subrange(3, all.len() as int) =~= rest + b);
            assert(all.subrange(0, 3) =~= a.subrange(0, 3));
            law_rewriting_can_be_split(
                rest,
                b,
                site,
                Rewrite { out: st.out + a.subrange(0, 3), ..st },
            );
        } else {
            assert(!at_scene_macro(all));
            match a[0] {
                Tok::Punct { ch: '#', .. } => {
                    let rest = a.subrange(2, a.len() as int);
                    assert(all.subrange(2, all.len() as int) =~= rest + b);
                    match a[1] {
                        Tok::Ident { text, .. } => {
                            law_rewriting_can_be_split(rest, b, site, captured_next(text, site, st));
                        },
                        other => {
                            law_rewriting_can_be_split(
                                rest,
                                b,
                                site,
                                Rewrite { out: st.out.push(a[0]).push(other), ..st },
                            );
                        },
                    }
                },
                Tok::Group { delimiter, body, span } => {
                    let rest = a.subrange(1, a.len() as int);
                    assert(all.subrange(1, all.len() as int) =~= rest + b);
                    let within = Rewrite { out: Seq::empty(), ..st };
                    let inner = rewrite_body(body, site, within);
                    law_mark_without_name_is_refused(body, site, within);
                    if inner.error is None {
                        law_rewriting_can_be_split(
                            rest,
                            b,
                            site,
                            Rewrite {
                                out: st.out.push(Tok::Group { delimiter, body: inner.out, span }),
                                ..inner
                            },
                        );
                    }
                },
                other => {
                    let rest = a.subrange(1, a.len() as int);
                    assert(all.subrange(1, all.len() as int) =~= rest + b);
                    law_rewriting_can_be_split(
                        rest,
                        b,
                        site,
                        Rewrite { out: st.out.push(other), ..st },
                    );
                },
            }
        }
    }
}

/// An invocation of a scene macro inside a closure body is taken over as it is, whatever its
/// argument marks, and the rewriting goes on after it.
pub proof fn law_scene_macro_is_left_alone(
    name: Tok,
    bang: Tok,
    argument: Tok,
    rest: Seq<Tok>,
    site: Span,
    st: Rewrite,
)
    requires
        at_scene_macro(seq![name, bang]),
    ensures
        rewrite_body(seq![name, bang, argument] + rest, site, st) == rewrite_body(
            rest,
            site,
            Rewrite { out: st.out + seq![name, bang, argument], ..st },
        ),
{
    let toks = seq![name, bang, argument] + rest;
    assert(seq![name, bang][0] == name && seq![name, bang][1] == bang);
    assert(toks[0] == name && toks[1] == bang);
    assert(at_scene_macro(toks));
    assert(toks.subrange(3, toks.len() as int) =~= rest);
    assert(toks.subrange(0, 3) =~= seq![name, bang, argument]);
}

/// A closure that is rewritten captures the entities marked in its body and uses the local of each
/// in place of its mark; a closure that is refused for its shape captures none and makes no name
/// known.
pub proof fn law_closure_captures(
    toks: Seq<Tok>,
    bevy_ecs: Seq<Tok>,
    site: Span,
    names: Seq<Seq<char>>,
)
    requires
        rewrite_closure(toks, bevy_ecs, site, names, Seq::empty()).names.len() <= usize::MAX,
    ensures
        ({
            let done = rewrite_closure(toks, bevy_ecs, site, names, Seq::empty());
            &&& names_grown(names, done.names)
            &&& done.error is None ==> captures_are(
                done.captured,
                0,
                marked_names(closure_body(toks)),
                done.names,
            ) && done.out == closure_tokens(
                closure_params(toks),
                with_locals(closure_body(toks), 0, site),
                done.captured.len(),
                bevy_ecs,
                site,
            )
            &&& closure_shape_error(toks, site) is Some ==> done.names == names
                && done.captured.len() == 0 && done.error == closure_shape_error(toks, site)
        }),
{
    let start = Rewrite { names, captured: Seq::empty(), out: Seq::empty(), error: None };
    if closure_shape_error(toks, site) is None {
        let body = closure_body(toks);
        law_rewriting_only_adds(body, site, start);
        if rewrite_body(body, site, start).error is None {
            law_captures_are_the_marked_names(body, site, start);
            law_marks_become_their_locals(body, site, start);
            assert(Seq::<Tok>::empty() + with_locals(body, 0, site) =~= with_locals(body, 0, site));
        }
    }
}

/// Whether a patch has gone on from another: nothing that was known, found or written is lost.
pub open spec fn patch_grown(before: Patch, after: Patch) -> bool {
    &&& names_grown(before.names, after.names)
    &&& extends(before.errors, after.errors)
    &&& extends(before.assigns, after.assigns)
}

/// Growing twice is growing.
proof fn lemma_extends_transitive<A>(one: Seq<A>, two: Seq<A>, three: Seq<A>)
    requires
        extends(one, two),
        extends(two, three),
    ensures
        extends(one, three),
{
    assert forall|i: int| 0 <= i < one.len() implies #[trigger] one[i] == three[i] by {
        assert(one[i] == two[i]);
        assert(two[i] == three[i]);
    }
}

/// Going on twice is going on.
proof fn lemma_patch_grown_transitive(one: Patch, two: Patch, three: Patch)
    requires
        patch_grown(one, two),
        patch_grown(two, three),
    ensures
        patch_grown(one, three),
{
    lemma_extends_transitive(one.names, two.names, three.names);
    lemma_extends_transitive(one.errors, two.errors, three.errors);
    lemma_extends_transitive(one.assigns, two.assigns, three.assigns);
}

/// A patch adds names, errors and statements and takes none away: an error in one field does not
/// stop the others. A type that is not at the root, and any enum, adds at least one statement.
pub proof fn law_patch_only_adds(
    ty: BsnType,
    env: Env,
    st: Patch,
    is_root: bool,
    path: Seq<Tok>,
    is_ref: bool,
)
    ensures
        patch_grown(st, patch_type(ty, env, st, is_root, path, is_ref)),
        !is_root || ty.enum_variant is Some ==> patch_type(
            ty,
            env,
            st,
            is_root,
            path,
            is_ref,
        ).assigns.len() > st.assigns.len(),
    decreases ty, 2nat, 0nat,
{
    let touched = if is_root {
        st
    } else {
        st.assign(touch_type(ty.path@, env))
    };
    assert(patch_grown(st, touched));
    let done = patch_type(ty, env, st, is_root, path, is_ref);
    match ty.enum_variant {
        Some(variant) => {
            lemma_variant_fields_only_add(ty, env, touched.names, touched.errors);
            assert(patch_grown(touched, done));
        },
        None => match ty.fields {
            BsnFields::Named(fields) => {
                lemma_named_fields_only_add(fields@, fields@.len(), env, touched, path);
            },
            BsnFields::Tuple(fields) => {
                lemma_tuple_fields_only_add(fields@, fields@.len(), env, touched, path);
            },
        },
    }
    lemma_patch_grown_transitive(st, touched, done);
}

/// The named fields of a struct only add to a patch.
proof fn lemma_named_fields_only_add(
    fields: Seq<BsnNamedField>,
    count: nat,
    env: Env,
    st: Patch,
    path: Seq<Tok>,
)
    ensures
        patch_grown(st, patch_named(fields, count, env, st, path)),
    decreases fields, 0nat, count,
{
    if count > 0 && count <= fields.len() {
        let before = patch_named(fields, (count - 1) as nat, env, st, path);
        lemma_named_fields_only_add(fields, (count - 1) as nat, env, st, path);
        let field = fields[count - 1];
        if !is_duplicate(fields, count - 1) && field.value is Some {
            lemma_value_only_adds(field.value->0, env, before, path, field.name@);
        }
        lemma_patch_grown_transitive(st, before, patch_named(fields, count, env, st, path));
    }
}

/// The tuple fields of a struct only add to a patch.
proof fn lemma_tuple_fields_only_add(
    fields: Seq<BsnUnnamedField>,
    count: nat,
    env: Env,
    st: Patch,
    path: Seq<Tok>,
)
    ensures
        patch_grown(st, patch_tuple(fields, count, env, st, path)),
    decreases fields, 0nat, count,
{
    if count > 0 && count <= fields.len() {
        let before = patch_tuple(fields, (count - 1) as nat, env, st, path);
        let member = Tok::Literal { text: decimal((count - 1) as nat), span: env.site };
        lemma_tuple_fields_only_add(fields, (count - 1) as nat, env, st, path);
        lemma_value_only_adds(fields[count - 1].value, env, before, path, member);
        lemma_patch_grown_transitive(st, before, patch_tuple(fields, count, env, st, path));
    }
}

/// Setting a field of a struct only adds to a patch, and adds at least one statement.
pub proof fn lemma_value_only_adds(
    value: BsnValue,
    env: Env,
    st: Patch,
    path: Seq<Tok>,
    member: Tok,
)
    ensures
        patch_grown(st, patch_value(value, env, st, path, member)),
        patch_value(value, env, st, path, member).assigns.len() > st.assigns.len(),
    decreases value, 0nat, 0nat,
{
    match value {
        BsnValue::Name(ident) => {
            law_lookup_is_sequential(st.names, ident.text@);
        },
        BsnValue::Type(ty) => {
            if ty.enum_variant is None {
                law_patch_only_adds(ty, env, st, false, path.push(member), false);
            }
        },
        _ => {},
    }
}

/// The fields of a variant only add names and errors.
proof fn lemma_variant_fields_only_add(
    ty: BsnType,
    env: Env,
    names: Seq<Seq<char>>,
    errors: Seq<Diag>,
)
    ensures
        names_grown(names, variant_fields(ty, env, names, errors).names),
        extends(errors, variant_fields(ty, env, names, errors).errors),
    decreases ty, 0nat, 0nat,
{
    let start = VariantPatch { names, errors, bindings: Seq::empty(), updates: Seq::empty() };
    match ty.fields {
        BsnFields::Named(fields) => {
            lemma_variant_named_only_adds(fields@, fields@.len(), env, start);
        },
        BsnFields::Tuple(fields) => {
            lemma_variant_tuple_only_adds(fields@, fields@.len(), env, start);
        },
    }
}

/// The named fields of a variant only add names and errors.
proof fn lemma_variant_named_only_adds(
    fields: Seq<BsnNamedField>,
    count: nat,
    env: Env,
    st: VariantPatch,
)
    ensures
        names_grown(st.names, variant_named(fields, count, env, st).names),
        extends(st.errors, variant_named(fields, count, env, st).errors),
    decreases fields, 0nat, count,
{
    if count > 0 && count <= fields.len() {
        let before = variant_named(fields, (count - 1) as nat, env, st);
        let done = variant_named(fields, count, env, st);
        lemma_variant_named_only_adds(fields, (count - 1) as nat, env, st);
        let field = fields[count - 1];
        if !is_duplicate(fields, count - 1) && field.value is Some {
            lemma_variant_value_only_adds(
                field.value->0,
                env,
                before.names,
                before.errors,
                field.name@,
            );
        }
        lemma_extends_transitive(st.names, before.names, done.names);
        lemma_extends_transitive(st.errors, before.errors, done.errors);
    }
}

/// The tuple fields of a variant only add names and errors.
proof fn lemma_variant_tuple_only_adds(
    fields: Seq<BsnUnnamedField>,
    count: nat,
    env: Env,
    st: VariantPatch,
)
    ensures
        names_grown(st.names, variant_tuple(fields, count, env, st).names),
        extends(st.errors, variant_tuple(fields, count, env, st).errors),
    decreases fields, 0nat, count,
{
    if count > 0 && count <= fields.len() {
        let before = variant_tuple(fields, (count - 1) as nat, env, st);
        let done = variant_tuple(fields, count, env, st);
        let name = Tok::Ident { text: "t"@ + decimal((count - 1) as nat), span: env.site };
        lemma_variant_tuple_only_adds(fields, (count - 1) as nat, env, st);
        lemma_variant_value_only_adds(
            fields[count - 1].value,
            env,
            before.names,
            before.errors,
            name,
        );
        lemma_extends_transitive(st.names, before.names, done.names);
        lemma_extends_transitive(st.errors, before.errors, done.errors);
    }
}

/// Setting a field of a variant only adds names and errors.
pub proof fn lemma_variant_value_only_adds(
    value: BsnValue,
    env: Env,
    names: Seq<Seq<char>>,
    errors: Seq<Diag>,
    name: Tok,
)
    ensures
        names_grown(names, variant_value(value, env, names, errors, name).names),
        extends(errors, variant_value(value, env, names, errors, name).errors),
    decreases value, 0nat, 0nat,
{
    match value {
        BsnValue::Type(ty) => {
            if ty.enum_variant is None {
                let start = Patch { names, errors, assigns: Seq::empty() };
                law_patch_only_adds(ty, env, start, false, seq![name], true);
            }
        },
        _ => {},
    }
}

/// A field given twice in a struct is reported once for each repetition, at the repetition, and
/// changes nothing else.
pub proof fn law_repeated_field_is_reported(
    fields: Seq<BsnNamedField>,
    i: int,
    env: Env,
    st: Patch,
    path: Seq<Tok>,
)
    requires
        0 <= i < fields.len(),
        is_duplicate(fields, i),
    ensures
        ({
            let before = patch_named(fields, i as nat, env, st, path);
            let after = patch_named(fields, (i + 1) as nat, env, st, path);
            &&& after.names == before.names
            &&& after.assigns == before.assigns
            &&& after.errors == before.errors.push(
                Diag {
                    span: fields[i].name.span,
                    message: "Duplicate field `"@ + fields[i].name.text@
                        + "` found in BSN struct"@,
                },
            )
        }),
{
}

/// A field that is not a repetition is always written, with a value or without: the patch of the
/// struct mentions it.
pub proof fn law_every_field_is_written(
    fields: Seq<BsnNamedField>,
    i: int,
    env: Env,
    st: Patch,
    path: Seq<Tok>,
)
    requires
        0 <= i < fields.len(),
        !is_duplicate(fields, i),
    ensures
        ({
            let before = patch_named(fields, i as nat, env, st, path);
            let after = patch_named(fields, (i + 1) as nat, env, st, path);
            &&& patch_grown(before, after)
            &&& after.assigns.len() > before.assigns.len()
            &&& fields[i].value is None ==> {
                &&& after.errors == before.errors.push(
                    Diag {
                        span: fields[i].name.span,
                        message: "Field `"@ + fields[i].name.text@ + "` is missing a value."@,
                    },
                )
                &&& after.assigns.last() == env.t().tokens(dotted(path, env.site)).tok(
                    fields[i].name@,
                ).punct(';').toks
            }
        }),
{
    let before = patch_named(fields, i as nat, env, st, path);
    if fields[i].value is Some {
        lemma_value_only_adds(fields[i].value->0, env, before, path, fields[i].name@);
    }
}

/// A field given twice in a variant is reported at the repetition, and changes nothing else.
pub proof fn law_repeated_variant_field_is_reported(
    fields: Seq<BsnNamedField>,
    i: int,
    env: Env,
    st: VariantPatch,
)
    requires
        0 <= i < fields.len(),
        is_duplicate(fields, i),
    ensures
        ({
            let before = variant_named(fields, i as nat, env, st);
            let after = variant_named(fields, (i + 1) as nat, env, st);
            &&& after.names == before.names
            &&& after.bindings == before.bindings
            &&& after.updates == before.updates
            &&& after.errors == before.errors.push(
                Diag {
                    span: fields[i].name.span,
                    message: "Duplicate field `"@ + fields[i].name.text@
                        + "` found in BSN enum variant"@,
                },
            )
        }),
{
}

/// One entry of an entity only adds names and errors.
pub proof fn law_entry_only_adds(
    entry: BsnEntry,
    env: Env,
    names: Seq<Seq<char>>,
    errors: Seq<Diag>,
)
    ensures
        names_grown(names, generate_entry(entry, env, names, errors).names),
        extends(errors, generate_entry(entry, env, names, errors).errors),
    decreases entry, 0nat,
{
    match entry {
        BsnEntry::AsyncClosure(closure) => {
            let start = Rewrite { names, captured: Seq::empty(), out: Seq::empty(), error: None };
            if closure_shape_error(closure.tokens@, env.site) is None {
                law_rewriting_only_adds(closure_body(closure.tokens@), env.site, start);
            }
        },
        BsnEntry::TemplatePatch(ty) => lemma_generated_patch_only_adds(ty, env, names, errors),
        BsnEntry::FromTemplatePatch(ty) => lemma_generated_patch_only_adds(ty, env, names, errors),
        BsnEntry::RelatedSceneList(related) => {
            let items = related.scene_list.0.0@;
            law_every_item_is_generated(items, items.len(), env, names, errors);
        },
        BsnEntry::Name(ident) => {
            law_lookup_is_sequential(names, ident.text@);
        },
        _ => {},
    }
}

/// A patch that is handed to a patch trait only adds names and errors.
proof fn lemma_generated_patch_only_adds(
    ty: BsnType,
    env: Env,
    names: Seq<Seq<char>>,
    errors: Seq<Diag>,
)
    ensures
        forall|trait_name: Seq<char>, method: Seq<char>|
            names_grown(
                names,
                (#[trigger] generate_patch(ty, trait_name, method, env, names, errors)).names,
            ) && extends(errors, generate_patch(ty, trait_name, method, env, names, errors).errors),
{
    let value = Tok::Ident { text: "value"@, span: env.site };
    let start = Patch { names, errors, assigns: Seq::empty() };
    law_patch_only_adds(ty, env, start, true, seq![value], true);
}

/// Every entry of an entity is generated, in order, one piece for each, whatever went wrong in the
/// entries before it; names and errors only add up.
pub proof fn law_every_entry_is_generated(
    entries: Seq<BsnEntry>,
    count: nat,
    env: Env,
    names: Seq<Seq<char>>,
    errors: Seq<Diag>,
)
    requires
        count <= entries.len(),
    ensures
        generate_entries(entries, count, env, names, errors).list.len() == count,
        names_grown(names, generate_entries(entries, count, env, names, errors).names),
        extends(errors, generate_entries(entries, count, env, names, errors).errors),
        count > 0 ==> extends(
            generate_entries(entries, (count - 1) as nat, env, names, errors).list,
            generate_entries(entries, count, env, names, errors).list,
        ),
    decreases entries, count,
{
    if count > 0 {
        let before = generate_entries(entries, (count - 1) as nat, env, names, errors);
        let done = generate_entries(entries, count, env, names, errors);
        law_every_entry_is_generated(entries, (count - 1) as nat, env, names, errors);
        law_entry_only_adds(entries[count - 1], env, before.names, before.errors);
        lemma_extends_transitive(names, before.names, done.names);
        lemma_extends_transitive(errors, before.errors, done.errors);
    }
}

/// Every item of a list of scenes is generated, in order, one piece for each; names and errors only
/// add up.
pub proof fn law_every_item_is_generated(
    items: Seq<BsnSceneListItem>,
    count: nat,
    env: Env,
    names: Seq<Seq<char>>,
    errors: Seq<Diag>,
)
    requires
        count <= items.len(),
    ensures
        generate_items(items, count, env, names, errors).list.len() == count,
        names_grown(names, generate_items(items, count, env, names, errors).names),
        extends(errors, generate_items(items, count, env, names, errors).errors),
        count > 0 ==> extends(
            generate_items(items, (count - 1) as nat, env, names, errors).list,
            generate_items(items, count, env, names, errors).list,
        ),
    decreases items, count,
{
    if count > 0 {
        let before = generate_items(items, (count - 1) as nat, env, names, errors);
        let done = generate_items(items, count, env, names, errors);
        law_every_item_is_generated(items, (count - 1) as nat, env, names, errors);
        match items[count - 1] {
            BsnSceneListItem::Scene(bsn) => {
                law_every_entry_is_generated(
                    bsn.entries@,
                    bsn.entries@.len(),
                    env,
                    before.names,
                    before.errors,
                );
            },
            BsnSceneListItem::Expression(_) => {},
        }
        lemma_extends_transitive(names, before.names, done.names);
        lemma_extends_transitive(errors, before.errors, done.errors);
    }
}

/// A scene goes out in full and with every error, those found before it among them: the errors
/// follow the scene, which is still the result.
pub proof fn law_root_reports_every_error(
    root: BsnRoot,
    env: Env,
    names: Seq<Seq<char>>,
    errors: Seq<Diag>,
    literals: Seq<Seq<char>>,
)
    ensures
        ({
            let done = generate_entries(
                root.0.entries@,
                root.0.entries@.len(),
                env,
                names,
                errors,
            );
            let reported = root.generates(env, names, errors, literals);
            &&& done.list.len() == root.0.entries@.len()
            &&& reported.errors == done.errors
            &&& extends(errors, reported.errors)
            &&& names_grown(names, reported.names)
            &&& reported.tokens == Ok::<Seq<Tok>, Diag>(
                env.t().tokens(env.scene).seg("SceneScope"@).paren(
                    result_before_errors(
                        auto_nest_tuple(done.list, env),
                        reported.errors,
                        literals,
                        env,
                    ),
                ).toks,
            )
        }),
{
    law_every_entry_is_generated(
        root.0.entries@,
        root.0.entries@.len(),
        env,
        names,
        errors,
    );
}

/// A list of scenes goes out in full and with every error, those found before it among them.
pub proof fn law_list_root_reports_every_error(
    root: BsnListRoot,
    env: Env,
    names: Seq<Seq<char>>,
    errors: Seq<Diag>,
    literals: Seq<Seq<char>>,
)
    ensures
        ({
            let done = generate_items(root.0.0@, root.0.0@.len(), env, names, errors);
            let reported = root.generates(env, names, errors, literals);
            &&& done.list.len() == root.0.0@.len()
            &&& reported.errors == done.errors
            &&& extends(errors, reported.errors)
            &&& names_grown(names, reported.names)
            &&& reported.tokens == Ok::<Seq<Tok>, Diag>(
                result_before_errors(
                    env.t().tokens(env.scene).seg("SceneListScope"@).paren(
                        env.t().tokens(auto_nest_tuple(done.list, env)),
                    ).toks,
                    reported.errors,
                    literals,
                    env,
                ).toks,
            )
        }),
{
    law_every_item_is_generated(root.0.0@, root.0.0@.len(), env, names, errors);
}

} // verus!
