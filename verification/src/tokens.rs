//! Token trees: what the code generator reads and writes.
//!
//! A [`Tokens`] holds the tokens of a piece of source text as plain values. Its view is a
//! sequence of [`Tok`]. New tokens are written with a [`Quote`], whose methods have namesakes on
//! its view, [`Template`], so that a template reads the same in code and in a contract.
use vstd::prelude::*;

use proc_macro2::Span;

verus! {

/// Declares [`proc_macro2::Span`]: a region of source code, carried along with each token.
#[verifier::external_type_specification]
#[verifier::external_body]
pub struct ExSpan(proc_macro2::Span);

/// How the tokens of a [`Group`] are enclosed.
#[derive(Clone, Copy, Debug, PartialEq, Eq, Structural)]
pub enum Delimiter {
    /// `( ... )`
    Parenthesis,
    /// `{ ... }`
    Brace,
    /// `[ ... ]`
    Bracket,
    /// No visible delimiter.
    Invisible,
}

/// A word: an identifier or a keyword. A raw identifier keeps its `r#`.
#[derive(Debug)]
pub struct Ident {
    pub text: String,
    pub span: Span,
}

/// A single punctuation character; `joint` when the next token is glued to it.
#[derive(Debug)]
pub struct Punct {
    pub ch: char,
    pub joint: bool,
    pub span: Span,
}

/// A literal, as it is written in source text.
#[derive(Debug)]
pub struct Literal {
    pub text: String,
    pub span: Span,
}

/// A delimited run of tokens.
#[derive(Debug)]
pub struct Group {
    pub delimiter: Delimiter,
    pub stream: Tokens,
    pub span: Span,
}

/// One token, or one delimited run of tokens.
#[derive(Debug)]
pub enum TokenTree {
    Group(Group),
    Ident(Ident),
    Punct(Punct),
    Literal(Literal),
}

/// A sequence of token trees.
#[derive(Debug)]
pub struct Tokens {
    pub trees: Vec<TokenTree>,
}

/// The mathematical value of a [`TokenTree`].
pub enum Tok {
    Group { delimiter: Delimiter, body: Seq<Tok>, span: Span },
    Ident { text: Seq<char>, span: Span },
    Punct { ch: char, joint: bool, span: Span },
    Literal { text: Seq<char>, span: Span },
}

impl Tok {
    /// The span of the token; of a group, the span of the whole group.
    pub open spec fn span(self) -> Span {
        match self {
            Tok::Group { span, .. } => span,
            Tok::Ident { span, .. } => span,
            Tok::Punct { span, .. } => span,
            Tok::Literal { span, .. } => span,
        }
    }
}

/// The value of one token tree.
pub open spec fn tree_view(tree: TokenTree) -> Tok
    decreases tree,
{
    match tree {
        TokenTree::Group(g) => Tok::Group {
            delimiter: g.delimiter,
            body: trees_view(g.stream.trees@),
            span: g.span,
        },
        TokenTree::Ident(i) => Tok::Ident { text: i.text@, span: i.span },
        TokenTree::Punct(p) => Tok::Punct { ch: p.ch, joint: p.joint, span: p.span },
        TokenTree::Literal(l) => Tok::Literal { text: l.text@, span: l.span },
    }
}

/// The values of a run of token trees, in order.
pub open spec fn trees_view(trees: Seq<TokenTree>) -> Seq<Tok>
    decreases trees,
{
    if trees.len() == 0 {
        Seq::empty()
    } else {
        trees_view(trees.drop_last()).push(tree_view(trees.last()))
    }
}

impl View for Tokens {
    type V = Seq<Tok>;

    open spec fn view(&self) -> Seq<Tok> {
        trees_view(self.trees@)
    }
}

impl View for Ident {
    type V = Tok;

    open spec fn view(&self) -> Tok {
        Tok::Ident { text: self.text@, span: self.span }
    }
}

/// The value of one tree more is one value more.
pub proof fn lemma_trees_view_push(trees: Seq<TokenTree>, tree: TokenTree)
    ensures
        trees_view(trees.push(tree)) == trees_view(trees).push(tree_view(tree)),
{
    assert(trees.push(tree).drop_last() =~= trees);
}

/// The values stand where their trees stand.
pub proof fn lemma_trees_view_index(trees: Seq<TokenTree>)
    ensures
        trees_view(trees).len() == trees.len(),
        forall|i: int| 0 <= i < trees.len() ==> #[trigger] trees_view(trees)[i] == tree_view(trees[i]),
    decreases trees.len(),
{
    if trees.len() > 0 {
        lemma_trees_view_index(trees.drop_last());
    }
}

/// The value of a concatenation is the concatenation of the values.
pub proof fn lemma_trees_view_add(left: Seq<TokenTree>, right: Seq<TokenTree>)
    ensures
        trees_view(left + right) == trees_view(left) + trees_view(right),
{
    lemma_trees_view_index(left);
    lemma_trees_view_index(right);
    lemma_trees_view_index(left + right);
    assert(trees_view(left + right) =~= trees_view(left) + trees_view(right));
}

impl Ident {
    /// An identifier with the given text.
    pub fn new(text: &str, span: Span) -> (r: Ident)
        ensures
            r.text@ == text@,
            r.span == span,
    {
        Ident { text: text.to_owned(), span }
    }

    /// A copy of the identifier.
    pub fn dup(&self) -> (r: Ident)
        ensures
            r@ == self@,
    {
        Ident { text: self.text.clone(), span: self.span }
    }
}

impl TokenTree {
    /// A copy of the tree.
    pub fn dup(&self) -> (r: TokenTree)
        ensures
            tree_view(r) == tree_view(*self),
        decreases self,
    {
        match self {
            TokenTree::Group(g) => TokenTree::Group(
                Group { delimiter: g.delimiter, stream: g.stream.dup(), span: g.span },
            ),
            TokenTree::Ident(i) => TokenTree::Ident(i.dup()),
            TokenTree::Punct(p) => TokenTree::Punct(
                Punct { ch: p.ch, joint: p.joint, span: p.span },
            ),
            TokenTree::Literal(l) => TokenTree::Literal(
                Literal { text: l.text.clone(), span: l.span },
            ),
        }
    }

    /// The span of the tree.
    pub fn span(&self) -> (r: Span)
        ensures
            r == tree_view(*self).span(),
    {
        match self {
            TokenTree::Group(g) => g.span,
            TokenTree::Ident(i) => i.span,
            TokenTree::Punct(p) => p.span,
            TokenTree::Literal(l) => l.span,
        }
    }
}

impl Tokens {
    /// A stream without tokens.
    pub fn new() -> (r: Tokens)
        ensures
            r@ == Seq::<Tok>::empty(),
    {
        Tokens { trees: Vec::new() }
    }

    /// Whether the stream has no tokens.
    pub fn is_empty(&self) -> (r: bool)
        ensures
            r == (self@.len() == 0),
    {
        proof {
            lemma_trees_view_index(self.trees@);
        }
        self.trees.len() == 0
    }

    /// Adds one tree at the end.
    pub fn push(&mut self, tree: TokenTree)
        ensures
            final(self)@ == old(self)@.push(tree_view(tree)),
    {
        proof {
            lemma_trees_view_push(self.trees@, tree);
        }
        self.trees.push(tree);
    }

    /// Adds copies of the trees of `other` at the end.
    pub fn extend(&mut self, other: &Tokens)
        ensures
            final(self)@ == old(self)@ + other@,
    {
        let ghost before = self.trees@;
        let copy = other.dup();
        let mut trees = copy.trees;
        proof {
            lemma_trees_view_add(before, trees@);
        }
        self.trees.append(&mut trees);
    }

    /// A copy of the stream.
    pub fn dup(&self) -> (r: Tokens)
        ensures
            r@ == self@,
        decreases self,
    {
        let mut trees: Vec<TokenTree> = Vec::new();
        let mut i: usize = 0;
        while i < self.trees.len()
            invariant
                i <= self.trees@.len(),
                trees_view(trees@) == trees_view(self.trees@.take(i as int)),
            decreases self.trees@.len() - i,
        {
            let tree = self.trees[i].dup();
            proof {
                lemma_trees_view_push(trees@, tree);
                lemma_trees_view_push(self.trees@.take(i as int), self.trees@[i as int]);
                assert(self.trees@.take(i as int).push(self.trees@[i as int]) =~= self.trees@.take(
                    i + 1,
                ));
            }
            trees.push(tree);
            i += 1;
        }
        assert(self.trees@.take(i as int) =~= self.trees@);
        Tokens { trees }
    }
}

/// A template being filled in: the tokens written so far, and the span of the tokens that the
/// template itself adds.
pub struct Template {
    pub toks: Seq<Tok>,
    pub site: Span,
}

impl Template {
    /// An empty template.
    pub open spec fn at(site: Span) -> Template {
        Template { toks: Seq::empty(), site }
    }

    /// Adds one token.
    pub open spec fn tok(self, tok: Tok) -> Template {
        Template { toks: self.toks.push(tok), ..self }
    }

    /// Adds tokens that come from elsewhere, with the spans that they have.
    pub open spec fn tokens(self, toks: Seq<Tok>) -> Template {
        Template { toks: self.toks + toks, ..self }
    }

    /// Adds an identifier or a keyword.
    pub open spec fn word(self, text: Seq<char>) -> Template {
        self.tok(Tok::Ident { text, span: self.site })
    }

    /// Adds a punctuation character that stands alone.
    pub open spec fn punct(self, ch: char) -> Template {
        self.tok(Tok::Punct { ch, joint: false, span: self.site })
    }

    /// Adds an operator of two characters.
    pub open spec fn punct2(self, first: char, second: char) -> Template {
        self.tok(Tok::Punct { ch: first, joint: true, span: self.site }).punct(second)
    }

    /// Adds `::` and a word.
    pub open spec fn seg(self, text: Seq<char>) -> Template {
        self.punct2(':', ':').word(text)
    }

    /// Adds a literal.
    pub open spec fn literal(self, text: Seq<char>) -> Template {
        self.tok(Tok::Literal { text, span: self.site })
    }

    /// Adds a delimited group.
    pub open spec fn group(self, delimiter: Delimiter, body: Template) -> Template {
        self.tok(Tok::Group { delimiter, body: body.toks, span: self.site })
    }

    /// Adds `( ... )`.
    pub open spec fn paren(self, body: Template) -> Template {
        self.group(Delimiter::Parenthesis, body)
    }

    /// Adds `{ ... }`.
    pub open spec fn brace(self, body: Template) -> Template {
        self.group(Delimiter::Brace, body)
    }

    /// Adds `[ ... ]`.
    pub open spec fn bracket(self, body: Template) -> Template {
        self.group(Delimiter::Bracket, body)
    }
}

/// Fills in a [`Template`].
pub struct Quote {
    pub stream: Tokens,
    pub site: Span,
}

impl View for Quote {
    type V = Template;

    open spec fn view(&self) -> Template {
        Template { toks: self.stream@, site: self.site }
    }
}

impl Quote {
    /// An empty template, whose own tokens get the span `site`.
    pub fn at(site: Span) -> (r: Quote)
        ensures
            r@ == Template::at(site),
    {
        Quote { stream: Tokens::new(), site }
    }

    /// Adds copies of tokens that come from elsewhere.
    pub fn tokens(self, tokens: &Tokens) -> (r: Quote)
        ensures
            r@ == self@.tokens(tokens@),
    {
        let mut stream = self.stream;
        stream.extend(tokens);
        Quote { stream, site: self.site }
    }

    /// Adds one tree.
    pub fn tree(self, tree: TokenTree) -> (r: Quote)
        ensures
            r@ == self@.tok(tree_view(tree)),
    {
        let mut stream = self.stream;
        stream.push(tree);
        Quote { stream, site: self.site }
    }

    /// Adds a copy of an identifier that comes from elsewhere.
    pub fn ident(self, ident: &Ident) -> (r: Quote)
        ensures
            r@ == self@.tok(ident@),
    {
        self.tree(TokenTree::Ident(ident.dup()))
    }

    /// Adds an identifier or a keyword.
    pub fn word(self, text: &str) -> (r: Quote)
        ensures
            r@ == self@.word(text@),
    {
        let span = self.site;
        self.tree(TokenTree::Ident(Ident { text: text.to_owned(), span }))
    }

    /// Adds a punctuation character that stands alone.
    pub fn punct(self, ch: char) -> (r: Quote)
        ensures
            r@ == self@.punct(ch),
    {
        let span = self.site;
        self.tree(TokenTree::Punct(Punct { ch, joint: false, span }))
    }

    /// Adds an operator of two characters.
    pub fn punct2(self, first: char, second: char) -> (r: Quote)
        ensures
            r@ == self@.punct2(first, second),
    {
        let span = self.site;
        self.tree(TokenTree::Punct(Punct { ch: first, joint: true, span })).punct(second)
    }

    /// Adds `::` and a word.
    pub fn seg(self, text: &str) -> (r: Quote)
        ensures
            r@ == self@.seg(text@),
    {
        self.punct2(':', ':').word(text)
    }

    /// Adds a literal.
    pub fn literal(self, text: String) -> (r: Quote)
        ensures
            r@ == self@.literal(text@),
    {
        let span = self.site;
        self.tree(TokenTree::Literal(Literal { text, span }))
    }

    /// Adds a delimited group.
    pub fn group(self, delimiter: Delimiter, body: Quote) -> (r: Quote)
        ensures
            r@ == self@.group(delimiter, body@),
    {
        let span = self.site;
        self.tree(TokenTree::Group(Group { delimiter, stream: body.stream, span }))
    }

    /// Adds `( ... )`.
    pub fn paren(self, body: Quote) -> (r: Quote)
        ensures
            r@ == self@.paren(body@),
    {
        self.group(Delimiter::Parenthesis, body)
    }

    /// Adds `{ ... }`.
    pub fn brace(self, body: Quote) -> (r: Quote)
        ensures
            r@ == self@.brace(body@),
    {
        self.group(Delimiter::Brace, body)
    }

    /// Adds `[ ... ]`.
    pub fn bracket(self, body: Quote) -> (r: Quote)
        ensures
            r@ == self@.bracket(body@),
    {
        self.group(Delimiter::Bracket, body)
    }
}

/// A token is read as what it is: a group with what it encloses, in order, and any other token with
/// its text and its place.
pub proof fn law_tokens_are_read_as_they_are(tokens: Tokens, i: int)
    requires
        0 <= i < tokens.trees@.len(),
    ensures
        tokens@.len() == tokens.trees@.len(),
        match tokens.trees@[i] {
            TokenTree::Group(g) => tokens@[i] == (Tok::Group {
                delimiter: g.delimiter,
                body: g.stream@,
                span: g.span,
            }),
            TokenTree::Ident(word) => tokens@[i] == (Tok::Ident {
                text: word.text@,
                span: word.span,
            }) && word@ == tokens@[i],
            TokenTree::Punct(sign) => tokens@[i] == (Tok::Punct {
                ch: sign.ch,
                joint: sign.joint,
                span: sign.span,
            }),
            TokenTree::Literal(literal) => tokens@[i] == (Tok::Literal {
                text: literal.text@,
                span: literal.span,
            }),
        },
{
    lemma_trees_view_index(tokens.trees@);
}

} // verus!
