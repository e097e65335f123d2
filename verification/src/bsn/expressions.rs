//! What the expressions of values look like.
use vstd::prelude::*;

#[allow(unused_imports)]
use crate::bsn::codegen::comma_separated;
#[allow(unused_imports)]
use crate::bsn::patch::joined;
#[allow(unused_imports)]
use crate::bsn::shapes::{curly, group_runs, j, lit, p, r0, r1, r2, r3, r4, round, w};
#[allow(unused_imports)]
use crate::bsn::types::{BsnFields, BsnNamedField, BsnType, BsnUnnamedField, BsnValue, Lit, Member};
#[allow(unused_imports)]
use crate::bsn::values::{
    member_tok, named_tokens, type_printable, type_tokens, unnamed_tokens, value_printable,
    value_tokens, values_tokens,
};
#[allow(unused_imports)]
use crate::literals::decimal;
#[allow(unused_imports)]
use crate::tokens::Tok;
use proc_macro2::Span;

verus! {

/// `inner.into()`
pub open spec fn converted(inner: Tok, site: Span) -> Seq<Tok> {
    r4(inner, p('.', site), w("into"@, site), round(r0(), site))
}

/// The expressions of a list of values.
pub open spec fn expressions(values: Seq<BsnValue>, site: Span) -> Seq<Seq<Tok>> {
    Seq::new(values.len(), |i: int| value_tokens(values[i], site))
}

/// `name: value,`, without the value where there is none.
pub open spec fn named_field(field: BsnNamedField, site: Span) -> Seq<Tok> {
    r2(field.name@, p(':', site)) + match field.value {
        Some(value) => value_tokens(value, site),
        None => r0(),
    } + r1(p(',', site))
}

/// Each of the fields as `name: value,`.
pub open spec fn named_fields(fields: Seq<BsnNamedField>, site: Span) -> Seq<Seq<Tok>> {
    Seq::new(fields.len(), |i: int| named_field(fields[i], site))
}

/// Each of the fields as `value,`.
pub open spec fn unnamed_fields(fields: Seq<BsnUnnamedField>, site: Span) -> Seq<Seq<Tok>> {
    Seq::new(fields.len(), |i: int| value_tokens(fields[i].value, site) + r1(p(',', site)))
}

/// A value is written as an expression that gives it: an expression, a closure or a name in
/// brackets, and a string, are converted; any other literal stands as it is given; a tuple holds
/// all of its values, with commas between them.
pub proof fn law_value_as_expression(value: BsnValue, site: Span)
    ensures
        match value {
            BsnValue::Expr(e) => value_tokens(value, site) == converted(curly(e@, site), site),
            BsnValue::Closure(c) => value_tokens(value, site) == converted(round(c@, site), site),
            BsnValue::Ident(i) => value_tokens(value, site) == converted(
                round(r1(Tok::Ident { text: i.text@, span: i.span }), site),
                site,
            ),
            BsnValue::Lit(Lit::Str(s)) => value_tokens(value, site) == converted(
                lit(s.text@, s.span),
                site,
            ),
            BsnValue::Lit(Lit::Other(l)) => value_tokens(value, site) == l@,
            BsnValue::Tuple(tuple) => value_tokens(value, site) == r1(
                round(comma_separated(expressions(tuple.0@, site), site), site),
            ),
            BsnValue::Type(ty) => value_tokens(value, site) == type_tokens(ty, site),
            BsnValue::Name(_) => true,
        },
{
    broadcast use group_runs;
    if let BsnValue::Tuple(tuple) = value {
        lemma_values(tuple.0@, tuple.0@.len(), site);
        assert(expressions(tuple.0@, site).take(tuple.0@.len() as int) =~= expressions(
            tuple.0@,
            site,
        ));
    }
}

/// The values written so far, with commas between them.
proof fn lemma_values(values: Seq<BsnValue>, count: nat, site: Span)
    requires
        count <= values.len(),
    ensures
        values_tokens(values, count, site) == comma_separated(
            expressions(values, site).take(count as int),
            site,
        ),
    decreases count,
{
    let all = expressions(values, site);
    if count > 0 {
        lemma_values(values, (count - 1) as nat, site);
        assert(all.take(count as int).drop_last() =~= all.take(count - 1));
        if count == 1 {
            assert(values_tokens(values, 0, site) =~= Seq::empty());
            assert(values_tokens(values, 1, site) =~= all[0]);
        }
    }
}

/// A type with its fields starts with its path; where a variant is given, `::` and the variant
/// follow, whatever the fields; then come the fields, all of them and in order: in braces if they
/// have names, and else in round brackets.
pub proof fn law_type_as_expression(ty: BsnType, site: Span)
    ensures
        type_tokens(ty, site) == ty.path@ + match ty.enum_variant {
            Some(variant) => r3(
                j(':', site),
                p(':', site),
                Tok::Ident { text: variant.text@, span: variant.span },
            ),
            None => r0(),
        } + match ty.fields {
            BsnFields::Named(fields) => r1(curly(joined(named_fields(fields@, site)), site)),
            BsnFields::Tuple(fields) => r1(round(joined(unnamed_fields(fields@, site)), site)),
        },
{
    broadcast use group_runs;
    match ty.fields {
        BsnFields::Named(fields) => {
            let n = fields@.len();
            lemma_named(fields@, n, site);
            assert(named_fields(fields@, site).take(n as int) =~= named_fields(fields@, site));
        },
        BsnFields::Tuple(fields) => {
            let n = fields@.len();
            lemma_unnamed(fields@, n, site);
            assert(unnamed_fields(fields@, site).take(n as int) =~= unnamed_fields(fields@, site));
        },
    }
    match ty.enum_variant {
        Some(variant) => {},
        None => {},
    }
}

/// The named fields written so far.
proof fn lemma_named(fields: Seq<BsnNamedField>, count: nat, site: Span)
    requires
        count <= fields.len(),
    ensures
        named_tokens(fields, count, site) == joined(named_fields(fields, site).take(count as int)),
    decreases count,
{
    broadcast use group_runs;
    let all = named_fields(fields, site);
    if count > 0 {
        lemma_named(fields, (count - 1) as nat, site);
        assert(all.take(count as int).drop_last() =~= all.take(count - 1));
        let field = fields[count - 1];
        assert(all.take(count as int).last() == named_field(field, site));
        match field.value {
            Some(_) => {},
            None => {},
        }
    }
}

/// The fields by position written so far.
proof fn lemma_unnamed(fields: Seq<BsnUnnamedField>, count: nat, site: Span)
    requires
        count <= fields.len(),
    ensures
        unnamed_tokens(fields, count, site) == joined(
            unnamed_fields(fields, site).take(count as int),
        ),
    decreases count,
{
    broadcast use group_runs;
    let all = unnamed_fields(fields, site);
    if count > 0 {
        lemma_unnamed(fields, (count - 1) as nat, site);
        assert(all.take(count as int).drop_last() =~= all.take(count - 1));
    }
}

/// A field is written by its name, or by its position in decimal digits.
pub proof fn law_member_as_token(member: Member, site: Span)
    ensures
        match member {
            Member::Named(ident) => member_tok(member, site) == Tok::Ident {
                text: ident.text@,
                span: ident.span,
            },
            Member::Unnamed(index) => member_tok(member, site) == lit(decimal(index as nat), site),
        },
{
}

/// Whether a reference to a named entity stands anywhere in a value.
pub open spec fn mentions_entity(value: BsnValue) -> bool
    decreases value,
{
    match value {
        BsnValue::Name(_) => true,
        BsnValue::Tuple(tuple) => exists|i: int|
            0 <= i < tuple.0@.len() && mentions_entity(#[trigger] tuple.0@[i]),
        BsnValue::Type(ty) => type_mentions_entity(ty),
        _ => false,
    }
}

/// Whether a reference to a named entity stands anywhere in the values given for a type.
pub open spec fn type_mentions_entity(ty: BsnType) -> bool
    decreases ty,
{
    match ty.fields {
        BsnFields::Named(fields) => exists|i: int|
            0 <= i < fields@.len() && ((#[trigger] fields@[i]).value matches Some(value)
                && mentions_entity(value)),
        BsnFields::Tuple(fields) => exists|i: int|
            0 <= i < fields@.len() && mentions_entity((#[trigger] fields@[i]).value),
    }
}

/// The values that are expressions of their own are exactly those that mention no entity.
pub proof fn law_expressions_mention_no_entity(value: BsnValue)
    ensures
        value_printable(value) <==> !mentions_entity(value),
    decreases value,
{
    match value {
        BsnValue::Tuple(tuple) => {
            assert forall|i: int| 0 <= i < tuple.0@.len() implies value_printable(
                #[trigger] tuple.0@[i],
            ) == !mentions_entity(tuple.0@[i]) by {
                law_expressions_mention_no_entity(tuple.0@[i]);
            }
        },
        BsnValue::Type(ty) => {
            law_types_mention_no_entity(ty);
        },
        _ => {},
    }
}

/// The same of the types that are expressions of their own.
pub proof fn law_types_mention_no_entity(ty: BsnType)
    ensures
        type_printable(ty) <==> !type_mentions_entity(ty),
    decreases ty,
{
    match ty.fields {
        BsnFields::Named(fields) => {
            assert forall|i: int| 0 <= i < fields@.len() implies ((#[trigger] fields@[i]).value matches Some(
                value,
            ) ==> value_printable(value) == !mentions_entity(value)) by {
                if let Some(value) = fields@[i].value {
                    law_expressions_mention_no_entity(value);
                }
            }
        },
        BsnFields::Tuple(fields) => {
            assert forall|i: int| 0 <= i < fields@.len() implies value_printable(
                (#[trigger] fields@[i]).value,
            ) == !mentions_entity(fields@[i].value) by {
                law_expressions_mention_no_entity(fields@[i].value);
            }
        },
    }
}

} // verus!
