//! What comes from the token crates: streams of tokens, and the text of literals.
use vstd::prelude::*;

use crate::tokens::{Delimiter, Group, Ident, Literal, Punct, Template, Tok, Tokens, TokenTree};
use proc_macro2::{Delimiter as Enclosing, Spacing, Span, TokenTree as Source};

verus! {

/// Declares [`proc_macro2::TokenStream`]: tokens as they are handed over by the compiler.
#[verifier::external_type_specification]
#[verifier::external_body]
pub struct ExTokenStream(proc_macro2::TokenStream);

/// The tokens that a [`proc_macro2::TokenStream`] holds.
pub uninterp spec fn stream_tokens(stream: proc_macro2::TokenStream) -> Seq<Tok>;

/// The source text of a string literal with the given contents, where these are [`printable`].
pub uninterp spec fn string_literal_text(contents: Seq<char>) -> Seq<char>;

/// The lowercase equivalent of a text.
pub uninterp spec fn lowercase(text: Seq<char>) -> Seq<char>;

/// Whether the text holds no NUL. How NUL is escaped depends on whether the compiler or the token
/// crate itself writes the literal; all else is escaped alike.
pub open spec fn printable(text: Seq<char>) -> bool {
    !text.contains('\0')
}

/// Whether the text holds no NUL.
pub fn is_printable(text: &str) -> (r: bool)
    ensures
        r == printable(text@),
{
    let len = text.unicode_len();
    let mut i: usize = 0;
    while i < len
        invariant
            i <= len,
            len == text@.len(),
            forall|k: int| 0 <= k < i ==> text@[k] != '\0',
        decreases len - i,
    {
        if text.get_char(i) == '\0' {
            assert(text@[i as int] == '\0');
            return false;
        }
        i += 1;
    }
    true
}

/// The decimal digits of a number, without leading zeros.
pub open spec fn decimal(n: nat) -> Seq<char>
    decreases n,
{
    if n < 10 {
        seq![(('0' as int) + n) as char]
    } else {
        decimal(n / 10).push((('0' as int) + n % 10) as char)
    }
}

/// The digit, as text.
fn digit_text(n: usize) -> (r: &'static str)
    requires
        n < 10,
    ensures
        r@ == seq![(('0' as int) + n) as char],
{
    proof {
        reveal_strlit("0");
        reveal_strlit("1");
        reveal_strlit("2");
        reveal_strlit("3");
        reveal_strlit("4");
        reveal_strlit("5");
        reveal_strlit("6");
        reveal_strlit("7");
        reveal_strlit("8");
        reveal_strlit("9");
    }
    match n {
        0 => "0",
        1 => "1",
        2 => "2",
        3 => "3",
        4 => "4",
        5 => "5",
        6 => "6",
        7 => "7",
        8 => "8",
        _ => "9",
    }
}

/// The decimal digits of a number, as text: an index, or a literal without a suffix.
pub fn decimal_text(n: usize) -> (r: String)
    ensures
        r@ == decimal(n as nat),
    decreases n,
{
    if n < 10 {
        digit_text(n).to_owned()
    } else {
        decimal_text(n / 10).concat(digit_text(n % 10))
    }
}

/// A literal of the type `usize`, as text: the decimal digits, then `usize`.
pub fn usize_text(n: usize) -> (r: String)
    ensures
        r@ == decimal(n as nat) + "usize"@,
{
    decimal_text(n).concat("usize")
}

/// Whether the text is that of a string literal with the given contents. Nothing is said of
/// contents that are not [`printable`].
pub open spec fn is_literal_of(contents: Seq<char>, text: Seq<char>) -> bool {
    printable(contents) ==> text == string_literal_text(contents)
}

/// `:: core :: compile_error ! { literal }`, every token with the given span.
pub open spec fn compile_error_tokens(span: Span, literal: Seq<char>) -> Seq<Tok> {
    Template::at(span)
        .seg("core"@)
        .seg("compile_error"@)
        .punct('!')
        .brace(Template::at(span).literal(literal))
        .toks
}

/// Whether the tokens are an invocation of `compile_error!` with the message as a string literal.
pub open spec fn reports(tokens: Seq<Tok>, span: Span, message: Seq<char>) -> bool {
    exists|literal: Seq<char>| #[trigger]
        is_literal_of(message, literal) && tokens == compile_error_tokens(span, literal)
}

/// [`proc_macro2::Literal::string`], as text: the contents quoted and escaped. The result is
/// named and not spelled out; where the contents hold NUL, nothing is said of it.
#[verifier::external_body]
pub(crate) fn string_literal(contents: &str) -> (r: String)
    ensures
        printable(contents@) ==> r@ == string_literal_text(contents@),
{
    proc_macro2::Literal::string(contents).to_string()
}

/// [`str::to_lowercase`]. The result is named and not spelled out.
#[verifier::external_body]
pub(crate) fn to_lowercase(text: &str) -> (r: String)
    ensures
        r@ == lowercase(text@),
{
    text.to_lowercase()
}

/// [`syn::Error::to_compile_error`] of an error at one span: an invocation of
/// `::core::compile_error!` with the message as a string literal, all of it at that span. Where the
/// message holds NUL, nothing is said of the literal's text.
#[verifier::external_body]
pub(crate) fn compile_error_stream(span: Span, message: &str) -> (r: proc_macro2::TokenStream)
    ensures
        reports(stream_tokens(r), span, message@),
{
    syn::Error::new(span, message).to_compile_error()
}

/// Reads a [`proc_macro2::TokenStream`] through its iterator: each tree becomes the tree of the
/// same kind, with the same text and span, and a group is read in the same way.
#[verifier::external_body]
pub(crate) fn read_stream(stream: proc_macro2::TokenStream) -> (r: Tokens)
    ensures
        r@ == stream_tokens(stream),
{
    let trees = stream.into_iter().map(|tree| {
        let span = tree.span();
        match tree {
            Source::Group(g) => TokenTree::Group(Group { delimiter: match g.delimiter() {
                Enclosing::Parenthesis => Delimiter::Parenthesis,
                Enclosing::Brace => Delimiter::Brace,
                Enclosing::Bracket => Delimiter::Bracket,
                Enclosing::None => Delimiter::Invisible,
            }, stream: read_stream(g.stream()), span }),
            Source::Ident(i) => TokenTree::Ident(Ident { text: i.to_string(), span }),
            Source::Punct(p) => TokenTree::Punct(Punct { ch: p.as_char(), joint: p.spacing() == Spacing::Joint, span }),
            Source::Literal(l) => TokenTree::Literal(Literal { text: l.to_string(), span }),
        }
    });
    Tokens { trees: trees.collect() }
}

impl Tokens {
    /// The tokens of a stream that is handed over by the compiler.
    pub fn read(stream: proc_macro2::TokenStream) -> (r: Tokens)
        ensures
            r@ == stream_tokens(stream),
    {
        read_stream(stream)
    }
}

} // verus!
