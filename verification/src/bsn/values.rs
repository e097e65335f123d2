//! Values and types as expressions.
use vstd::prelude::*;

use crate::bsn::types::{
    BsnFields, BsnNamedField, BsnType, BsnUnnamedField, BsnValue, Lit, Member,
};
#[allow(unused_imports)]
use crate::literals::decimal;
use crate::literals::decimal_text;
use crate::tokens::{Ident, Literal, Quote, TokenTree, Tokens};
#[allow(unused_imports)]
use crate::tokens::{tree_view, Template, Tok};
use proc_macro2::Span;

verus! {

/// `.into()`
pub open spec fn into_call(t: Template) -> Template {
    t.punct('.').word("into"@).paren(Template::at(t.site))
}

/// Whether a value is an expression of its own. A reference to a named entity is not: its
/// expression depends on where it stands.
pub open spec fn value_printable(value: BsnValue) -> bool
    decreases value,
{
    match value {
        BsnValue::Tuple(tuple) => forall|i: int|
            #![trigger tuple.0@[i]]
            0 <= i < tuple.0@.len() ==> value_printable(tuple.0@[i]),
        BsnValue::Type(ty) => type_printable(ty),
        BsnValue::Name(_) => false,
        _ => true,
    }
}

/// Whether all the values given for a type are expressions of their own.
pub open spec fn type_printable(ty: BsnType) -> bool
    decreases ty,
{
    match ty.fields {
        BsnFields::Named(fields) => forall|i: int|
            #![trigger fields@[i]]
            0 <= i < fields@.len() ==> match fields@[i].value {
                Some(value) => value_printable(value),
                None => true,
            },
        BsnFields::Tuple(fields) => forall|i: int|
            #![trigger fields@[i]]
            0 <= i < fields@.len() ==> value_printable(fields@[i].value),
    }
}

/// A value as an expression that converts into the type of its field.
pub open spec fn value_tokens(value: BsnValue, site: Span) -> Seq<Tok>
    decreases value, 0nat,
{
    let t = Template::at(site);
    match value {
        BsnValue::Expr(e) => into_call(t.brace(t.tokens(e@))).toks,
        BsnValue::Closure(c) => into_call(t.paren(t.tokens(c@))).toks,
        BsnValue::Ident(i) => into_call(t.paren(t.tok(i@))).toks,
        BsnValue::Lit(Lit::Str(s)) => into_call(
            t.tok(Tok::Literal { text: s.text@, span: s.span }),
        ).toks,
        BsnValue::Lit(Lit::Other(l)) => l@,
        BsnValue::Tuple(tuple) => t.paren(
            t.tokens(values_tokens(tuple.0@, tuple.0@.len(), site)),
        ).toks,
        BsnValue::Type(ty) => type_tokens(ty, site),
        BsnValue::Name(_) => Seq::empty(),
    }
}

/// The first `count` values, separated by commas.
pub open spec fn values_tokens(values: Seq<BsnValue>, count: nat, site: Span) -> Seq<Tok>
    decreases values, count,
{
    if count == 0 || count > values.len() {
        Seq::empty()
    } else {
        let before = values_tokens(values, (count - 1) as nat, site);
        let sep = if count == 1 {
            before
        } else {
            Template { toks: before, site }.punct(',').toks
        };
        sep + value_tokens(values[count - 1], site)
    }
}

/// A type or a variant with its fields, as an expression.
pub open spec fn type_tokens(ty: BsnType, site: Span) -> Seq<Tok>
    decreases ty, 0nat,
{
    let t = Template::at(site);
    let head = match ty.enum_variant {
        Some(variant) => t.tokens(ty.path@).punct2(':', ':').tok(variant@),
        None => t.tokens(ty.path@),
    };
    match ty.fields {
        BsnFields::Named(fields) => head.brace(
            t.tokens(named_tokens(fields@, fields@.len(), site)),
        ).toks,
        BsnFields::Tuple(fields) => head.paren(
            t.tokens(unnamed_tokens(fields@, fields@.len(), site)),
        ).toks,
    }
}

/// The first `count` fields as `name: value,`; a missing value is left out.
pub open spec fn named_tokens(fields: Seq<BsnNamedField>, count: nat, site: Span) -> Seq<Tok>
    decreases fields, count,
{
    if count == 0 || count > fields.len() {
        Seq::empty()
    } else {
        let field = fields[count - 1];
        let t = Template { toks: named_tokens(fields, (count - 1) as nat, site), site }.tok(
            field.name@,
        ).punct(':');
        match field.value {
            Some(value) => t.tokens(value_tokens(value, site)),
            None => t,
        }.punct(',').toks
    }
}

/// The first `count` fields as `value,`.
pub open spec fn unnamed_tokens(fields: Seq<BsnUnnamedField>, count: nat, site: Span) -> Seq<Tok>
    decreases fields, count,
{
    if count == 0 || count > fields.len() {
        Seq::empty()
    } else {
        Template { toks: unnamed_tokens(fields, (count - 1) as nat, site), site }.tokens(
            value_tokens(fields[count - 1].value, site),
        ).punct(',').toks
    }
}

/// A field, as one token.
pub open spec fn member_tok(member: Member, site: Span) -> Tok {
    match member {
        Member::Named(ident) => ident@,
        Member::Unnamed(index) => Tok::Literal { text: decimal(index as nat), span: site },
    }
}

impl Member {
    /// The field as a token.
    pub fn to_tree(&self, site: Span) -> (r: TokenTree)
        ensures
            tree_view(r) == member_tok(*self, site),
    {
        match self {
            Member::Named(ident) => TokenTree::Ident(ident.dup()),
            Member::Unnamed(index) => TokenTree::Literal(
                Literal { text: decimal_text(*index as usize), span: site },
            ),
        }
    }

    /// A copy of the member.
    pub fn dup(&self) -> (r: Member)
        ensures
            forall|site: Span| #[trigger] member_tok(r, site) == member_tok(*self, site),
    {
        match self {
            Member::Named(ident) => Member::Named(ident.dup()),
            Member::Unnamed(index) => Member::Unnamed(*index),
        }
    }
}

impl BsnValue {
    /// Writes the value as an expression to the end of `tokens`.
    pub fn to_tokens(&self, tokens: &mut Tokens, site: Span)
        requires
            value_printable(*self),
        ensures
            final(tokens)@ == old(tokens)@ + value_tokens(*self, site),
        decreases self, 0nat,
    {
        let quoted = self.quote(site);
        tokens.extend(&quoted);
    }

    /// The value as an expression.
    fn quote(&self, site: Span) -> (r: Tokens)
        requires
            value_printable(*self),
        ensures
            r@ == value_tokens(*self, site),
        decreases self, 1nat,
    {
        match self {
            BsnValue::Expr(e) => quote_into(Quote::at(site).brace(Quote::at(site).tokens(e))),
            BsnValue::Closure(c) => quote_into(Quote::at(site).paren(Quote::at(site).tokens(c))),
            BsnValue::Ident(i) => quote_into(Quote::at(site).paren(Quote::at(site).ident(i))),
            BsnValue::Lit(Lit::Str(s)) => quote_into(
                Quote::at(site).tree(
                    TokenTree::Literal(Literal { text: s.text.clone(), span: s.span }),
                ),
            ),
            BsnValue::Lit(Lit::Other(l)) => l.dup(),
            BsnValue::Tuple(tuple) => {
                let values = &tuple.0;
                let mut inner = Quote::at(site);
                let mut i: usize = 0;
                while i < values.len()
                    invariant
                        i <= values@.len(),
                        inner@ == (Template { toks: values_tokens(values@, i as nat, site), site }),
                        forall|k: int|
                            #![trigger values@[k]]
                            0 <= k < values@.len() ==> value_printable(values@[k]),
                        decreases_to!(*self => values@),
                    decreases values@.len() - i,
                {
                    if i > 0 {
                        inner = inner.punct(',');
                    }
                    assert(decreases_to!(values@ => values@[i as int]));
                    let value = values[i].quote(site);
                    inner = inner.tokens(&value);
                    i += 1;
                }
                Quote::at(site).paren(inner).stream
            },
            BsnValue::Type(ty) => ty.quote(site),
            BsnValue::Name(_) => Tokens::new(),
        }
    }
}

/// Adds `.into()`.
fn quote_into(t: Quote) -> (r: Tokens)
    ensures
        r@ == into_call(t@).toks,
{
    let site = t.site;
    t.punct('.').word("into").paren(Quote::at(site)).stream
}

impl BsnType {
    fn quote(&self, site: Span) -> (r: Tokens)
        requires
            type_printable(*self),
        ensures
            r@ == type_tokens(*self, site),
        decreases self, 1nat,
    {
        let head = match &self.enum_variant {
            Some(variant) => Quote::at(site).tokens(&self.path).punct2(':', ':').ident(variant),
            None => Quote::at(site).tokens(&self.path),
        };
        match &self.fields {
            BsnFields::Named(fields) => {
                let mut inner = Quote::at(site);
                let mut i: usize = 0;
                while i < fields.len()
                    invariant
                        i <= fields@.len(),
                        inner@ == (Template { toks: named_tokens(fields@, i as nat, site), site }),
                        forall|k: int|
                            #![trigger fields@[k]]
                            0 <= k < fields@.len() ==> match fields@[k].value {
                                Some(value) => value_printable(value),
                                None => true,
                            },
                        decreases_to!(*self => fields@),
                    decreases fields@.len() - i,
                {
                    assert(decreases_to!(fields@ => fields@[i as int]));
                    inner = inner.ident(&fields[i].name).punct(':');
                    if let Some(value) = &fields[i].value {
                        let value = value.quote(site);
                        inner = inner.tokens(&value);
                    }
                    inner = inner.punct(',');
                    i += 1;
                }
                head.brace(inner).stream
            },
            BsnFields::Tuple(fields) => {
                let mut inner = Quote::at(site);
                let mut i: usize = 0;
                while i < fields.len()
                    invariant
                        i <= fields@.len(),
                        inner@ == (Template { toks: unnamed_tokens(fields@, i as nat, site), site }),
                        forall|k: int|
                            #![trigger fields@[k]]
                            0 <= k < fields@.len() ==> value_printable(fields@[k].value),
                        decreases_to!(*self => fields@),
                    decreases fields@.len() - i,
                {
                    assert(decreases_to!(fields@ => fields@[i as int]));
                    let value = fields[i].value.quote(site);
                    inner = inner.tokens(&value).punct(',');
                    i += 1;
                }
                head.paren(inner).stream
            },
        }
    }

    /// Writes the type with its fields as an expression to the end of `tokens`.
    pub fn to_tokens(&self, tokens: &mut Tokens, site: Span)
        requires
            type_printable(*self),
        ensures
            final(tokens)@ == old(tokens)@ + type_tokens(*self, site),
    {
        let quoted = self.quote(site);
        tokens.extend(&quoted);
    }
}

} // verus!
