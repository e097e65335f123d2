//! Lists that are written out: every piece stands in what is written, in full and in order.
use vstd::prelude::*;

#[allow(unused_imports)]
use crate::bsn::closure::{capture_binding, capture_bindings};
#[allow(unused_imports)]
use crate::bsn::codegen::comma_separated;
#[allow(unused_imports)]
use crate::bsn::patch::{dot_separated, dotted, joined};
#[allow(unused_imports)]
use crate::bsn::shapes::{lit, p, r0, r1, r9, round, square, w};
#[allow(unused_imports)]
use crate::literals::decimal;
#[allow(unused_imports)]
use crate::tokens::Tok;
use proc_macro2::Span;

verus! {

/// How many tokens the first `count` pieces have together.
pub open spec fn total(list: Seq<Seq<Tok>>, count: int) -> int
    decreases count,
{
    if count <= 0 {
        0
    } else {
        total(list, count - 1) + list[count - 1].len()
    }
}

/// The pieces before the last have as many tokens without it.
proof fn lemma_total_drop_last(list: Seq<Seq<Tok>>, count: int)
    requires
        count < list.len(),
    ensures
        total(list.drop_last(), count) == total(list, count),
    decreases count,
{
    if count > 0 {
        lemma_total_drop_last(list, count - 1);
    }
}

/// The more pieces, the more tokens.
proof fn lemma_total_grows(list: Seq<Seq<Tok>>, from: int, to: int)
    requires
        0 <= from <= to <= list.len(),
    ensures
        0 <= total(list, from) <= total(list, to),
    decreases to,
{
    if from < to {
        lemma_total_grows(list, from, to - 1);
    } else if from > 0 {
        lemma_total_grows(list, from - 1, from - 1);
    }
}

/// Of pieces with commas between them, each stands as one run, the runs follow each other in order
/// with one comma between neighbours, and there is nothing else.
pub proof fn law_commas_between_all_pieces(list: Seq<Seq<Tok>>, site: Span, i: int)
    requires
        0 <= i < list.len(),
    ensures
        ({
            let out = comma_separated(list, site);
            let start = total(list, i) + i;
            &&& out.len() == total(list, list.len() as int) + list.len() - 1
            &&& 0 <= start <= start + list[i].len() <= out.len()
            &&& out.subrange(start, start + list[i].len()) == list[i]
            &&& i > 0 ==> out[start - 1] == p(',', site)
        }),
    decreases list.len(),
{
    let n = list.len() - 1;
    let out = comma_separated(list, site);
    lemma_total_grows(list, i, n);
    if n == 0 {
        assert(out.subrange(0, list[0].len() as int) =~= list[0]);
    } else {
        let rest = list.drop_last();
        let before = comma_separated(rest, site);
        lemma_total_drop_last(list, n);
        lemma_total_drop_last(list, i);
        law_commas_between_all_pieces(rest, site, if i < n { i } else { 0 });
        let start = total(list, i) + i;
        assert(out =~= before.push(p(',', site)) + list[n]);
        if i < n {
            lemma_total_grows(rest, i + 1, n);
            assert(out.subrange(start, start + list[i].len()) =~= before.subrange(
                start,
                start + list[i].len(),
            ));
        } else {
            assert(out.subrange(start, start + list[n].len()) =~= list[n]);
        }
    }
}

/// Without pieces nothing is written.
pub proof fn law_no_pieces_no_tokens(site: Span)
    ensures
        comma_separated(Seq::empty(), site) == r0(),
        joined(Seq::empty()) == r0(),
        capture_bindings(0, site) == r0(),
{
}

/// Of pieces that are joined, each stands as one run, the runs follow each other in order, and there
/// is nothing else.
pub proof fn law_joined_pieces(list: Seq<Seq<Tok>>, i: int)
    requires
        0 <= i < list.len(),
    ensures
        joined(list).len() == total(list, list.len() as int),
        0 <= total(list, i) <= total(list, i) + list[i].len() <= joined(list).len(),
        joined(list).subrange(total(list, i), total(list, i) + list[i].len()) == list[i],
    decreases list.len(),
{
    let n = list.len() - 1;
    let out = joined(list);
    let rest = list.drop_last();
    lemma_total_grows(list, i, n);
    lemma_total_drop_last(list, n);
    lemma_total_drop_last(list, i);
    if n > 0 {
        law_joined_pieces(rest, if i < n { i } else { 0 });
    }
    if i < n {
        lemma_total_grows(rest, i + 1, n);
        assert(out.subrange(total(list, i), total(list, i) + list[i].len()) =~= joined(
            rest,
        ).subrange(total(list, i), total(list, i) + list[i].len()));
    } else {
        assert(out.subrange(total(list, i), total(list, i) + list[i].len()) =~= list[n]);
    }
}

/// A path of fields is written in order, with a dot after each field.
pub proof fn law_dot_after_each_field(fields: Seq<Tok>, site: Span)
    ensures
        dotted(fields, site).len() == 2 * fields.len(),
        forall|i: int|
            0 <= i < fields.len() ==> #[trigger] dotted(fields, site)[2 * i] == fields[i],
        forall|i: int|
            0 <= i < fields.len() ==> #[trigger] dotted(fields, site)[2 * i + 1] == p('.', site),
    decreases fields.len(),
{
    if fields.len() > 0 {
        let n = fields.len() - 1;
        let rest = fields.drop_last();
        law_dot_after_each_field(rest, site);
        let before = dotted(rest, site);
        let out = dotted(fields, site);
        assert(out =~= before.push(fields[n]).push(p('.', site)));
        assert forall|i: int| 0 <= i < fields.len() implies #[trigger] out[2 * i] == fields[i] by {
            if i < n {
                assert(out[2 * i] == before[2 * i]);
            }
        }
        assert forall|i: int| 0 <= i < fields.len() implies #[trigger] out[2 * i + 1] == p(
            '.',
            site,
        ) by {
            if i < n {
                assert(out[2 * i + 1] == before[2 * i + 1]);
            }
        }
    }
}

/// A path of fields with dots between them is the one with a dot after each, without the last dot.
pub proof fn law_dots_between_fields(fields: Seq<Tok>, site: Span)
    ensures
        fields.len() == 0 ==> dot_separated(fields, site) == r0(),
        fields.len() > 0 ==> dot_separated(fields, site).push(p('.', site)) == dotted(fields, site),
{
}

/// `let __bsn_scoped_entity_N = __bsn_scoped_entities[Nusize].clone();`
pub open spec fn let_entity(n: nat, site: Span) -> Seq<Tok> {
    r9(
        w("let"@, site),
        w("__bsn_scoped_entity_"@ + decimal(n), site),
        p('=', site),
        w("__bsn_scoped_entities"@, site),
        square(r1(lit(decimal(n) + "usize"@, site)), site),
        p('.', site),
        w("clone"@, site),
        round(r0(), site),
        p(';', site),
    )
}

/// A captured entity is bound to the local with its number, from the place with its number.
pub proof fn law_capture_binding(n: nat, site: Span)
    ensures
        capture_binding(n, site) == let_entity(n, site),
        capture_binding(n, site).len() == 9,
{
}

/// Captured entities are bound one after the other, each once, and there is nothing else.
pub proof fn law_each_capture_is_bound(count: nat, site: Span, i: int)
    requires
        0 <= i < count,
    ensures
        capture_bindings(count, site).len() == 9 * count,
        capture_bindings(count, site).subrange(9 * i, 9 * i + 9) == let_entity(i as nat, site),
    decreases count,
{
    let n = (count - 1) as nat;
    let before = capture_bindings(n, site);
    let out = capture_bindings(count, site);
    law_capture_binding(n, site);
    lemma_bindings_len(n, site);
    lemma_bindings_len(count, site);
    lemma_nine_more(before, capture_binding(n, site), i, n as int);
    if i < n {
        law_each_capture_is_bound(n, site, i);
    }
}

/// Each binding has nine tokens.
proof fn lemma_bindings_len(count: nat, site: Span)
    ensures
        capture_bindings(count, site).len() == 9 * count,
    decreases count,
{
    if count > 0 {
        law_capture_binding((count - 1) as nat, site);
        lemma_bindings_len((count - 1) as nat, site);
    }
}

/// Nine tokens more leave those before in their places.
proof fn lemma_nine_more(before: Seq<Tok>, more: Seq<Tok>, i: int, n: int)
    requires
        before.len() == 9 * n,
        more.len() == 9,
        0 <= i <= n,
    ensures
        i < n ==> (before + more).subrange(9 * i, 9 * i + 9) == before.subrange(9 * i, 9 * i + 9),
        i == n ==> (before + more).subrange(9 * i, 9 * i + 9) == more,
{
    if i < n {
        assert((before + more).subrange(9 * i, 9 * i + 9) =~= before.subrange(9 * i, 9 * i + 9));
    } else {
        assert((before + more).subrange(9 * i, 9 * i + 9) =~= more);
    }
}

/// Whether a character is a decimal digit.
pub open spec fn is_digit(c: char) -> bool {
    '0' <= c <= '9'
}

/// The number that a run of digits stands for.
pub open spec fn number(digits: Seq<char>) -> int
    decreases digits.len(),
{
    if digits.len() == 0 {
        0
    } else {
        10 * number(digits.drop_last()) + (digits.last() as int - '0' as int)
    }
}

/// The decimal digits of a number are digits, stand for the number, and do not start with zero,
/// unless they are no more than that.
pub proof fn law_decimal_stands_for_its_number(n: nat)
    ensures
        number(decimal(n)) == n,
        decimal(n).len() > 0,
        forall|i: int| 0 <= i < decimal(n).len() ==> is_digit(#[trigger] decimal(n)[i]),
        decimal(n).len() > 1 ==> decimal(n)[0] != '0',
        n > 0 ==> decimal(n)[0] != '0',
    decreases n,
{
    if n < 10 {
        assert(decimal(n).drop_last() =~= Seq::<char>::empty());
        assert(number(decimal(n).drop_last()) == 0);
    } else {
        law_decimal_stands_for_its_number(n / 10);
        let rest = decimal(n / 10);
        assert(decimal(n).drop_last() =~= rest);
        assert(decimal(n)[0] == rest[0]);
        assert forall|i: int| 0 <= i < decimal(n).len() implies is_digit(#[trigger] decimal(n)[i]) by {
            if i < rest.len() {
                assert(decimal(n)[i] == rest[i]);
            }
        }
    }
}

/// Different numbers are written differently.
pub proof fn law_different_numbers_different_digits(m: nat, n: nat)
    requires
        m != n,
    ensures
        decimal(m) != decimal(n),
{
    law_decimal_stands_for_its_number(m);
    law_decimal_stands_for_its_number(n);
}

} // verus!
