//! An error that stands in place of an entry is a text without NUL, so its literal is known.
use vstd::prelude::*;

#[allow(unused_imports)]
use crate::bsn::closure::{
    closure_body, closure_shape_error, local_name, rewrite_body, starts_scene_macro, Rewrite,
};
#[allow(unused_imports)]
use crate::bsn::codegen::generate_entry;
#[allow(unused_imports)]
use crate::bsn::context::{interned, position, Diag};
#[allow(unused_imports)]
use crate::bsn::patch::Env;
#[allow(unused_imports)]
use crate::bsn::types::BsnEntry;
#[allow(unused_imports)]
use crate::literals::printable;
#[allow(unused_imports)]
use crate::tokens::Tok;
#[allow(unused_imports)]
use proc_macro2::Span;

verus! {

/// The fixed messages of a closure that is refused can be rendered.
proof fn lemma_closure_messages()
    ensures
        printable("`#` in async BSN closure must be followed by an identifier"@),
        printable("expected async closure, found empty token stream"@),
        printable("expected `async` at the start of async closure"@),
        printable("expected `|` after `async`"@),
        printable("unterminated async closure parameter list; missing closing `|`"@),
        printable("expected `{ ... }` body after async closure parameters"@),
        printable("unexpected trailing tokens after async closure body"@),
{
    reveal_strlit("`#` in async BSN closure must be followed by an identifier");
    reveal_strlit("expected async closure, found empty token stream");
    reveal_strlit("expected `async` at the start of async closure");
    reveal_strlit("expected `|` after `async`");
    reveal_strlit("unterminated async closure parameter list; missing closing `|`");
    reveal_strlit("expected `{ ... }` body after async closure parameters");
    reveal_strlit("unexpected trailing tokens after async closure body");
}

/// An error that stops the rewriting of a closure body can be rendered.
proof fn lemma_body_printable(toks: Seq<Tok>, site: Span, st: Rewrite)
    requires
        st.error is None,
    ensures
        rewrite_body(toks, site, st).error matches Some(error) ==> printable(error.message),
    decreases toks,
{
    lemma_closure_messages();
    if toks.len() > 0 {
        if starts_scene_macro(toks) {
            let n: int = if toks.len() >= 3 { 3 } else { 2 };
            lemma_body_printable(
                toks.subrange(n, toks.len() as int),
                site,
                Rewrite { out: st.out + toks.subrange(0, n), ..st },
            );
        } else {
            match toks[0] {
                Tok::Punct { ch: '#', .. } => if toks.len() > 1 {
                    let rest = toks.subrange(2, toks.len() as int);
                    match toks[1] {
                        Tok::Ident { text, .. } => lemma_body_printable(
                            rest,
                            site,
                            Rewrite {
                                names: interned(st.names, text),
                                captured: st.captured.push(position(st.names, text) as usize),
                                out: st.out.push(
                                    Tok::Ident { text: local_name(st.captured.len()), span: site },
                                ),
                                ..st
                            },
                        ),
                        other => lemma_body_printable(
                            rest,
                            site,
                            Rewrite { out: st.out.push(toks[0]).push(other), ..st },
                        ),
                    }
                },
                Tok::Group { delimiter, body, span } => {
                    let start = Rewrite { out: Seq::empty(), ..st };
                    let inner = rewrite_body(body, site, start);
                    lemma_body_printable(body, site, start);
                    if inner.error is None {
                        lemma_body_printable(
                            toks.subrange(1, toks.len() as int),
                            site,
                            Rewrite {
                                out: st.out.push(Tok::Group { delimiter, body: inner.out, span }),
                                ..inner
                            },
                        );
                    }
                },
                other => lemma_body_printable(
                    toks.subrange(1, toks.len() as int),
                    site,
                    Rewrite { out: st.out.push(other), ..st },
                ),
            }
        }
    }
}

/// An error that stands in place of an entry can be rendered.
pub proof fn lemma_entry_error_printable(
    entry: BsnEntry,
    env: Env,
    names: Seq<Seq<char>>,
    errors: Seq<Diag>,
)
    ensures
        generate_entry(entry, env, names, errors).tokens matches Err(error) ==> printable(
            error.message,
        ),
{
    if let BsnEntry::AsyncClosure(closure) = entry {
        let toks = closure.tokens@;
        let start = Rewrite { names, captured: Seq::empty(), out: Seq::empty(), error: None };
        lemma_closure_messages();
        if closure_shape_error(toks, env.site) is None {
            lemma_body_printable(closure_body(toks), env.site, start);
        }
    }
}

} // verus!
