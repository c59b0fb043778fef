//! Properties that hold across the library's functions.
use vstd::prelude::*;
use crate::layout::{
    exceeds_limit, filter_redefines, group_size, members_size, over_limit, redefines_step,
    groups_upto, weights_sum,
};
use crate::entry::{propagate_occurs, EntryView};
use crate::field::{symbols_size, x_symbol_size};
use crate::record::RecordView;
use crate::source::{keep_statement, kept_statements};
use crate::text::{
    contains, decimal, digit_char, digits_value, find_from, is_digit, is_whitespace,
    lemma_find_from, matches_at, parse_u32, remove_spaces, replace_from, trim_end, unsigned_part,
};

verus! {

proof fn lemma_decimal_digits(n: nat)
    ensures
        decimal(n).len() > 0,
        forall|i: int| 0 <= i < decimal(n).len() ==> is_digit(#[trigger] decimal(n)[i]),
        decimal(n)[0] != '+',
        digits_value(decimal(n)) == n,
    decreases n,
{
    if n >= 10 {
        lemma_decimal_digits(n / 10);
        let d = decimal(n);
        assert(d.drop_last() =~= decimal(n / 10));
        assert(d[0] == decimal(n / 10)[0]);
        assert(d.last() == digit_char(n % 10));
        assert((digit_char(n % 10) as nat - '0' as nat) as nat == n % 10);
        assert((n / 10) * 10 + n % 10 == n);
        assert(digits_value(d) == digits_value(d.drop_last()) * 10 + (d.last() as nat
            - '0' as nat) as nat);
        assert(digits_value(d.drop_last()) == n / 10);
        let q = n / 10;
        let r = n % 10;
        assert(digits_value(d) == q * 10 + r);
        assert(digits_value(d) == n);
    } else {
        let d = decimal(n);
        assert((digit_char(n) as nat - '0' as nat) as nat == n);
        assert(d.drop_last() =~= Seq::<char>::empty());
        assert(digits_value(d.drop_last()) == 0);
    }
}

/// Printing a number in decimal and reading it back gives the number.
pub proof fn law_decimal_parses_back(n: u32)
    ensures
        parse_u32(decimal(n as nat)) == Some(n),
{
    lemma_decimal_digits(n as nat);
    assert(unsigned_part(decimal(n as nat)) == decimal(n as nat));
}

/// Trimming trailing whitespace leaves a prefix that does not end in
/// whitespace, so trimming again changes nothing.
pub proof fn law_trim_end(s: Seq<char>)
    ensures
        trim_end(s).len() <= s.len(),
        trim_end(s) == s.take(trim_end(s).len() as int),
        trim_end(s).len() > 0 ==> !is_whitespace(trim_end(s).last()),
        trim_end(trim_end(s)) == trim_end(s),
    decreases s.len(),
{
    if s.len() > 0 && is_whitespace(s.last()) {
        law_trim_end(s.drop_last());
        let t = trim_end(s.drop_last());
        assert(s.drop_last().take(t.len() as int) =~= s.take(t.len() as int));
    } else {
        assert(s.take(s.len() as int) =~= s);
    }
}

proof fn lemma_replace_from_no_space(s: Seq<char>, start: int)
    requires
        0 <= start <= s.len(),
    ensures
        forall|k: int|
            0 <= k < replace_from(s, seq![' '], seq![], start).len() ==> #[trigger] replace_from(
                s,
                seq![' '],
                seq![],
                start,
            )[k] != ' ',
    decreases s.len() - start,
{
    let pat = seq![' '];
    let empty: Seq<char> = seq![];
    lemma_find_from(s, pat, start);
    let f = find_from(s, pat, start);
    let r = replace_from(s, pat, empty, start);
    if f is Some && start <= f->0 && f->0 + 1 <= s.len() {
        let i = f->0;
        lemma_replace_from_no_space(s, i + 1);
        let rest = replace_from(s, pat, empty, i + 1);
        assert(r == s.subrange(start, i) + empty + rest);
        assert forall|k: int| 0 <= k < r.len() implies r[k] != ' ' by {
            if k < i - start {
                let j = start + k;
                if s[j] == ' ' {
                    assert(s.subrange(j, j + 1) =~= pat);
                    assert(matches_at(s, pat, j));
                }
            } else {
                assert(r[k] == rest[k - (i - start)]);
            }
        }
    } else {
        assert forall|k: int| 0 <= k < r.len() implies r[k] != ' ' by {
            let j = start + k;
            if s[j] == ' ' {
                assert(s.subrange(j, j + 1) =~= pat);
                assert(matches_at(s, pat, j));
            }
        }
    }
}

/// Removing spaces leaves no space.
pub proof fn law_remove_spaces(s: Seq<char>)
    ensures
        !contains(remove_spaces(s), seq![' ']),
{
    lemma_replace_from_no_space(s, 0);
    let r = remove_spaces(s);
    if contains(r, seq![' ']) {
        let i = choose|i: int| matches_at(r, seq![' '], i);
        assert(r.subrange(i, i + 1)[0] == r[i]);
    }
}

/// Every statement kept is one that `keep_statement` accepts, and none is
/// added.
pub proof fn law_kept_statements(ps: Seq<Seq<char>>)
    ensures
        kept_statements(ps).len() <= ps.len(),
        forall|i: int|
            0 <= i < kept_statements(ps).len() ==> keep_statement(#[trigger] kept_statements(ps)[i]),
    decreases ps.len(),
{
    if ps.len() > 0 {
        law_kept_statements(ps.drop_last());
        let k = kept_statements(ps.drop_last());
        assert forall|i: int|
            0 <= i < kept_statements(ps).len() implies keep_statement(
            #[trigger] kept_statements(ps)[i],
        ) by {
            if i < k.len() {
                assert(kept_statements(ps)[i] == k[i]);
            }
        }
    }
}

/// A record that the REDEFINES filter keeps.
pub open spec fn survives_redefines(r: RecordView) -> bool {
    &&& r.pos != 88
    &&& r.pos != 66
    &&& !(r.field_type is PICXREDEFINES)
    &&& !(r.field_type is PIC9REDEFINES)
    &&& !(r.field_type is STRUCTREDEFINES)
}

/// The layout keeps no condition entry (level 88), no renames entry
/// (level 66) and no REDEFINES record, and only records of its input, in
/// order.
pub proof fn law_redefines_removed(rs: Seq<RecordView>)
    ensures
        filter_redefines(rs).1.len() <= rs.len(),
        forall|i: int|
            0 <= i < filter_redefines(rs).1.len() ==> survives_redefines(
                #[trigger] filter_redefines(rs).1[i],
            ),
        forall|i: int|
            0 <= i < filter_redefines(rs).1.len() ==> rs.contains(
                #[trigger] filter_redefines(rs).1[i],
            ),
    decreases rs.len(),
{
    if rs.len() > 0 {
        let rest = rs.drop_last();
        law_redefines_removed(rest);
        let (st, kept) = filter_redefines(rest);
        let (next, keep) = redefines_step(st, rs.last());
        let out = filter_redefines(rs).1;
        assert forall|i: int| 0 <= i < out.len() implies survives_redefines(#[trigger] out[i])
            && rs.contains(out[i]) by {
            if i < kept.len() {
                assert(out[i] == kept[i]);
                assert(rest.contains(kept[i]));
                let j = choose|j: int| 0 <= j < rest.len() && rest[j] == kept[i];
                assert(rs[j] == rest[j]);
            } else {
                assert(out[i] == rs.last());
                assert(rs[rs.len() - 1] == rs.last());
            }
        }
    }
}

/// The records above the RM/COBOL limit are exactly those of the input
/// that exceed it.
pub proof fn law_over_limit(rs: Seq<RecordView>)
    ensures
        over_limit(rs).len() <= rs.len(),
        forall|i: int| 0 <= i < over_limit(rs).len() ==> exceeds_limit(#[trigger] over_limit(rs)[i]),
        forall|i: int| 0 <= i < rs.len() && exceeds_limit(#[trigger] rs[i]) ==> over_limit(
            rs,
        ).contains(rs[i]),
    decreases rs.len(),
{
    if rs.len() > 0 {
        let rest = rs.drop_last();
        law_over_limit(rest);
        let k = over_limit(rest);
        let out = over_limit(rs);
        assert forall|i: int| 0 <= i < out.len() implies exceeds_limit(#[trigger] out[i]) by {
            if i < k.len() {
                assert(out[i] == k[i]);
            }
        }
        assert forall|i: int| 0 <= i < rs.len() && exceeds_limit(#[trigger] rs[i]) implies out.contains(
            rs[i],
        ) by {
            if i < rest.len() {
                assert(rest[i] == rs[i]);
                assert(k.contains(rest[i]));
                let j = choose|j: int| 0 <= j < k.len() && k[j] == rest[i];
                assert(out[j] == k[j]);
            } else {
                assert(out[out.len() - 1] == rs[i]);
            }
        }
    }
}

/// The size of a whole layout is the sum of the sizes of its parts.
pub proof fn law_total_is_additive(a: Seq<RecordView>, b: Seq<RecordView>)
    ensures
        weights_sum(a + b) == weights_sum(a) + weights_sum(b),
    decreases b.len(),
{
    if b.len() == 0 {
        assert(a + b =~= a);
    } else {
        law_total_is_additive(a, b.drop_last());
        assert((a + b).drop_last() =~= a + b.drop_last());
        assert((a + b).last() == b.last());
    }
}

/// A group directly followed by a record that is not deeper, or by
/// nothing, has size 0.
pub proof fn law_empty_group_has_no_size(rs: Seq<RecordView>, i: int)
    requires
        0 <= i < rs.len(),
        i + 1 == rs.len() || rs[i + 1].pos <= rs[i].pos,
    ensures
        group_size(rs, i) == 0,
{
}

/// A group's size counts each member once: it is the weight of its first
/// member plus the size of the rest of the group.
pub proof fn law_group_size_step(rs: Seq<RecordView>, i: int)
    requires
        0 <= i,
        i + 1 < rs.len(),
        rs[i + 1].pos > rs[i].pos,
    ensures
        group_size(rs, i) == crate::layout::record_weight(rs[i + 1]) + members_size(
            rs,
            rs[i].pos,
            i + 2,
        ),
{
}

/// The sized groups are the groups of the layout, in order, each with a
/// size in place of its kind.
pub proof fn law_sized_groups(rs: Seq<RecordView>, k: int)
    requires
        0 <= k <= rs.len(),
    ensures
        groups_upto(rs, k).len() <= k,
        forall|j: int|
            0 <= j < groups_upto(rs, k).len() ==> {
                let g = #[trigger] groups_upto(rs, k)[j];
                g.field_type is STRUCTSIZED || g.field_type is OCCURSSIZED
            },
    decreases k,
{
    if k > 0 {
        law_sized_groups(rs, k - 1);
        let prev = groups_upto(rs, k - 1);
        assert forall|j: int| 0 <= j < groups_upto(rs, k).len() implies {
            let g = #[trigger] groups_upto(rs, k)[j];
            g.field_type is STRUCTSIZED || g.field_type is OCCURSSIZED
        } by {
            if j < prev.len() {
                assert(groups_upto(rs, k)[j] == prev[j]);
            }
        }
    }
}

proof fn lemma_propagate_prefix(es: Seq<EntryView>, k: int)
    requires
        0 <= k <= es.len(),
    ensures
        propagate_occurs(es).1.len() == es.len(),
        propagate_occurs(es.take(k)).1 == propagate_occurs(es).1.take(k),
    decreases es.len(),
{
    if es.len() == 0 {
        assert(es.take(k) =~= es);
    } else if k == es.len() {
        lemma_propagate_prefix(es.drop_last(), 0);
        assert(es.take(k) =~= es);
        assert(propagate_occurs(es).1.take(k) =~= propagate_occurs(es).1);
    } else {
        lemma_propagate_prefix(es.drop_last(), k);
        assert(es.drop_last().take(k) =~= es.take(k));
        assert(propagate_occurs(es).1.take(k) =~= propagate_occurs(es.drop_last()).1.take(k));
    }
}

/// An entry with an OCCURS count, read while no OCCURS group is open,
/// opens a group, and the deeper entry that follows it takes its count.
pub proof fn law_occurs_carried(es: Seq<EntryView>, i: int)
    requires
        0 <= i,
        i + 1 < es.len(),
        !propagate_occurs(es.take(i)).0.active,
        es[i].occurs > 0,
        es[i + 1].pos > es[i].pos,
    ensures
        propagate_occurs(es).1[i].sw_occurs,
        propagate_occurs(es).1[i + 1].occurs == es[i].occurs,
{
    lemma_propagate_prefix(es, i + 2);
    let two = es.take(i + 2);
    assert(two.drop_last() =~= es.take(i + 1));
    assert(es.take(i + 1).drop_last() =~= es.take(i));
    lemma_propagate_prefix(es.take(i + 1), i);
    assert(propagate_occurs(es).1[i] == propagate_occurs(two).1[i]);
    assert(propagate_occurs(es).1[i + 1] == propagate_occurs(two).1[i + 1]);
}

/// The size of a picture's symbols is the sum of the sizes of its parts.
pub proof fn law_symbols_size_additive(a: Seq<Seq<char>>, b: Seq<Seq<char>>, numeric: bool)
    ensures
        symbols_size(a + b, numeric) == symbols_size(a, numeric) + symbols_size(b, numeric),
    decreases b.len(),
{
    if b.len() == 0 {
        assert(a + b =~= a);
    } else {
        law_symbols_size_additive(a, b.drop_last(), numeric);
        assert((a + b).drop_last() =~= a + b.drop_last());
        assert((a + b).last() == b.last());
    }
}

/// `k` bare `X` symbols take `k` bytes.
pub proof fn law_bare_x_symbols(k: nat)
    ensures
        symbols_size(Seq::new(k, |i: int| "X"@), false) == k,
    decreases k,
{
    reveal_strlit("X");
    reveal_strlit("X(");
    let ts = Seq::new(k, |i: int| "X"@);
    assert(x_symbol_size("X"@) == 1) by {
        assert(matches_at("X"@, "X"@, 0)) by {
            assert("X"@.subrange(0, 1) =~= "X"@);
        }
        if contains("X"@, "X("@) {
            let i = choose|i: int| matches_at("X"@, "X("@, i);
        }
    }
    if k > 0 {
        law_bare_x_symbols((k - 1) as nat);
        assert(ts.drop_last() =~= Seq::new((k - 1) as nat, |i: int| "X"@));
    }
}

} // verus!
