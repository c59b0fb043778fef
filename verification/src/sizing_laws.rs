//! Laws on picture sizes, usages, the REDEFINES filter, the RM/COBOL limit
//! and the sizes the report shows.
use vstd::prelude::*;
use crate::field::TypeView;
use crate::laws::survives_redefines;
use crate::layout::{filter_redefines, over_limit, RedefinesState};
use crate::record::RecordView;
use crate::report::display_size;
use crate::text::{
    all_digits, contains, digits_value, find_from, is_digit, lemma_find_from, matches_at,
    parse_u32, replace_all, replace_from, unsigned_part,
};

verus! {

// ---------------------------------------------------------------------------
// Searching and replacing, on given shapes
// ---------------------------------------------------------------------------

proof fn lemma_match_first_char(s: Seq<char>, pat: Seq<char>, j: int)
    requires
        pat.len() > 0,
        matches_at(s, pat, j),
    ensures
        s[j] == pat[0],
{
    assert(s.subrange(j, j + pat.len())[0] == s[j]);
}

/// Where `pat` does not occur from `start` on, replacing leaves the rest.
proof fn lemma_replace_none(s: Seq<char>, pat: Seq<char>, rep: Seq<char>, start: int)
    requires
        pat.len() > 0,
        0 <= start <= s.len(),
        forall|j: int| start <= j ==> !matches_at(s, pat, j),
    ensures
        replace_from(s, pat, rep, start) == s.subrange(start, s.len() as int),
{
    lemma_find_from(s, pat, start);
    if find_from(s, pat, start) is Some {
        let i = find_from(s, pat, start)->0;
        assert(matches_at(s, pat, i));
    }
}

/// Where the first occurrence of `pat` from `start` on is at `i`, replacing
/// keeps what precedes it.
proof fn lemma_replace_first(s: Seq<char>, pat: Seq<char>, rep: Seq<char>, start: int, i: int)
    requires
        pat.len() > 0,
        0 <= start <= i,
        matches_at(s, pat, i),
        forall|j: int| start <= j < i ==> !matches_at(s, pat, j),
    ensures
        replace_from(s, pat, rep, start) == s.subrange(start, i) + rep + replace_from(
            s,
            pat,
            rep,
            i + pat.len(),
        ),
{
    lemma_find_from(s, pat, start);
    if find_from(s, pat, start) is Some {
        let k = find_from(s, pat, start)->0;
        if k < i {
            assert(matches_at(s, pat, k));
        } else if k > i {
            assert(!matches_at(s, pat, i));
        }
    } else {
        assert(!matches_at(s, pat, i));
    }
}

/// A one-character pattern occurs exactly where its character does.
proof fn lemma_no_char(s: Seq<char>, c: char)
    requires
        forall|j: int| 0 <= j < s.len() ==> s[j] != c,
    ensures
        !contains(s, seq![c]),
{
    if contains(s, seq![c]) {
        let j = choose|j: int| matches_at(s, seq![c], j);
        lemma_match_first_char(s, seq![c], j);
    }
}

/// Removing the opening `open` (two characters, the second `(`) and the
/// closing `)` from `open + d + ")"` leaves `d`, when `d` holds neither the
/// first character of `open` nor `)`.
proof fn lemma_strip_repeat(open: Seq<char>, d: Seq<char>)
    requires
        open.len() == 2,
        open[1] == '(',
        open[0] != ')',
        forall|j: int| 0 <= j < d.len() ==> d[j] != open[0] && d[j] != ')',
    ensures
        contains(open + d + seq![')'], open),
        replace_all(replace_all(open + d + seq![')'], open, seq![]), seq![')'], seq![]) == d,
{
    let empty: Seq<char> = seq![];
    let close: Seq<char> = seq![')'];
    let t = open + d + close;
    let n = d.len() as int;
    assert(t.subrange(0, 2) =~= open);
    assert(matches_at(t, open, 0));
    lemma_replace_first(t, open, empty, 0, 0);
    assert forall|j: int| 2 <= j implies !matches_at(t, open, j) by {
        if matches_at(t, open, j) {
            lemma_match_first_char(t, open, j);
            if j < n + 2 {
                assert(t[j] == d[j - 2]);
            } else {
                assert(t[j] == ')');
            }
        }
    }
    lemma_replace_none(t, open, empty, 2);
    let u = replace_all(t, open, empty);
    assert(u =~= d + close);
    assert(u.subrange(n, n + 1) =~= close);
    assert(matches_at(u, close, n));
    assert forall|j: int| 0 <= j < n implies !matches_at(u, close, j) by {
        if matches_at(u, close, j) {
            lemma_match_first_char(u, close, j);
            assert(u[j] == d[j]);
        }
    }
    lemma_replace_first(u, close, empty, 0, n);
    lemma_replace_none(u, close, empty, n + 1);
    assert(replace_all(u, close, empty) =~= d);
}

// ---------------------------------------------------------------------------
// Picture sizes
// ---------------------------------------------------------------------------

proof fn lemma_digits_parse(d: Seq<char>)
    requires
        d.len() > 0,
        all_digits(d),
        digits_value(d) <= u32::MAX,
    ensures
        parse_u32(d) == Some(digits_value(d) as u32),
{
    assert(is_digit(d[0]));
    assert(unsigned_part(d) == d);
}

/// A repeated numeric symbol `9(n)` or `Z(n)` stands for `n` positions,
/// for every count `n` written in decimal without the digit 9 (such as
/// `9(10)`, `9(18)` or `Z(4)`).
pub proof fn law_repeat_count_size(d: Seq<char>)
    requires
        d.len() > 0,
        all_digits(d),
        forall|j: int| 0 <= j < d.len() ==> d[j] != '9',
        digits_value(d) <= u32::MAX,
    ensures
        crate::field::nine_symbol_size("9("@ + d + ")"@) == digits_value(d),
        crate::field::nine_symbol_size("Z("@ + d + ")"@) == digits_value(d),
{
    reveal_strlit("9(");
    reveal_strlit("Z(");
    reveal_strlit(")");
    reveal_strlit("9");
    reveal_strlit("Z");
    reveal_strlit("-");
    reveal_strlit(".");
    reveal_strlit("V");
    reveal_strlit("S");
    reveal_strlit("$");
    reveal_strlit("*");
    assert forall|j: int| 0 <= j < d.len() implies d[j] != 'Z' && d[j] != ')' && d[j] != '-'
        && d[j] != '.' && d[j] != 'V' && d[j] != 'S' && d[j] != '$' && d[j] != '*' by {
        assert(is_digit(d[j]));
    }
    assert(")"@ =~= seq![')']);
    assert("9"@ =~= seq!['9']);
    assert("Z"@ =~= seq!['Z']);
    assert("-"@ =~= seq!['-']);
    assert("."@ =~= seq!['.']);
    assert("V"@ =~= seq!['V']);
    assert("S"@ =~= seq!['S']);
    assert("$"@ =~= seq!['$']);
    assert("*"@ =~= seq!['*']);
    assert("9("@ =~= seq!['9', '(']);
    assert("Z("@ =~= seq!['Z', '(']);
    lemma_strip_repeat("9("@, d);
    lemma_strip_repeat("Z("@, d);
    lemma_no_char(d, '9');
    lemma_no_char(d, 'Z');
    lemma_no_char(d, '-');
    lemma_no_char(d, '.');
    lemma_no_char(d, 'V');
    lemma_no_char(d, 'S');
    lemma_no_char(d, '$');
    lemma_no_char(d, '*');
    lemma_digits_parse(d);
    assert(crate::field::strip_repeat("9("@ + d + ")"@, "9("@) == d);
    assert(crate::field::strip_repeat("Z("@ + d + ")"@, "Z("@) == d);
    assert(!crate::field::has_unit_symbol(d));
    let z = "Z("@ + d + ")"@;
    assert forall|j: int| true implies !matches_at(z, "9("@, j) by {
        if matches_at(z, "9("@, j) {
            lemma_match_first_char(z, "9("@, j);
            if j == 0 {
            } else if j == 1 {
            } else if j < d.len() + 2 {
                assert(z[j] == d[j - 2]);
            } else {
                assert(z[j] == ')');
            }
        }
    }
}

/// A repeated alphanumeric symbol `X(n)` stands for `n` bytes, for every
/// count `n` written in decimal.
pub proof fn law_repeat_x_size(d: Seq<char>)
    requires
        d.len() > 0,
        all_digits(d),
        digits_value(d) <= u32::MAX,
    ensures
        crate::field::x_symbol_size("X("@ + d + ")"@) == digits_value(d),
{
    reveal_strlit("X(");
    reveal_strlit("X");
    reveal_strlit(")");
    assert forall|j: int| 0 <= j < d.len() implies d[j] != 'X' && d[j] != ')' by {
        assert(is_digit(d[j]));
    }
    assert(")"@ =~= seq![')']);
    assert("X"@ =~= seq!['X']);
    assert("X("@ =~= seq!['X', '(']);
    lemma_strip_repeat("X("@, d);
    lemma_no_char(d, 'X');
    assert(crate::field::strip_repeat("X("@ + d + ")"@, "X("@) == d);
    lemma_digits_parse(d);
}

// ---------------------------------------------------------------------------
// Usages
// ---------------------------------------------------------------------------

/// In `p + kw`, where `p` does not hold the first character of `q` and `kw`
/// holds it only first, `q` occurs exactly when it begins `kw`.
proof fn lemma_keyword_at_end(p: Seq<char>, kw: Seq<char>, q: Seq<char>)
    requires
        q.len() > 0,
        forall|j: int| 0 <= j < p.len() ==> p[j] != q[0],
        forall|k: int| 1 <= k < kw.len() ==> kw[k] != q[0],
    ensures
        contains(p + kw, q) <==> (q.len() <= kw.len() && kw.subrange(0, q.len() as int) == q),
        contains(p + kw, q) ==> matches_at(p + kw, q, p.len() as int),
        forall|j: int| 0 <= j < p.len() ==> !matches_at(p + kw, q, j),
{
    let t = p + kw;
    let n = p.len() as int;
    assert forall|j: int| matches_at(t, q, j) implies j == n by {
        lemma_match_first_char(t, q, j);
        if j < n {
            assert(t[j] == p[j]);
        } else if j > n {
            assert(t[j] == kw[j - n]);
        }
    }
    if q.len() <= kw.len() && kw.subrange(0, q.len() as int) == q {
        assert(t.subrange(n, n + q.len()) =~= kw.subrange(0, q.len() as int));
        assert(matches_at(t, q, n));
    }
    if contains(t, q) {
        let j = choose|j: int| matches_at(t, q, j);
        assert(j == n);
        assert(t.subrange(n, n + q.len()) =~= kw.subrange(0, q.len() as int));
    }
}

/// `p + kw` with the keyword `kw` removed is `p`, where `p` does not hold
/// the first character of `kw` and `kw` holds it only first.
proof fn lemma_remove_keyword_at_end(p: Seq<char>, kw: Seq<char>)
    requires
        kw.len() > 0,
        forall|j: int| 0 <= j < p.len() ==> p[j] != kw[0],
        forall|k: int| 1 <= k < kw.len() ==> #[trigger] kw[k] != kw[0],
    ensures
        contains(p + kw, kw),
        replace_all(p + kw, kw, seq![]) == p,
{
    let t = p + kw;
    let n = p.len() as int;
    let empty: Seq<char> = seq![];
    lemma_keyword_at_end(p, kw, kw);
    assert(kw.subrange(0, kw.len() as int) =~= kw);
    lemma_replace_first(t, kw, empty, 0, n);
    lemma_replace_none(t, kw, empty, t.len() as int);
    assert(replace_all(t, kw, empty) =~= p);
}

/// The usage keyword `COMP-c`.
pub open spec fn comp_keyword(c: char) -> Seq<char> {
    seq!['C', 'O', 'M', 'P', '-', c]
}

/// In `p + COMP-c`, where `p` holds no `C`, the keyword `COMP-x` occurs
/// exactly when `x` is `c`, and removing `COMP-c` leaves `p`.
proof fn lemma_comp_suffix(p: Seq<char>, c: char, x: char)
    requires
        forall|j: int| 0 <= j < p.len() ==> p[j] != 'C',
        c != 'C',
    ensures
        contains(p + comp_keyword(c), comp_keyword(x)) <==> x == c,
        replace_all(p + comp_keyword(c), comp_keyword(c), seq![]) == p,
{
    let kc = comp_keyword(c);
    let kx = comp_keyword(x);
    assert(kc.len() == 6 && kx.len() == 6);
    assert(kc[0] == 'C' && kx[0] == 'C');
    assert(kc[1] == 'O' && kc[2] == 'M' && kc[3] == 'P' && kc[4] == '-' && kc[5] == c);
    assert(kx[5] == x);
    assert forall|k: int| 1 <= k < kc.len() implies #[trigger] kc[k] != kx[0] by {
        if k == 1 {
        } else if k == 2 {
        } else if k == 3 {
        } else if k == 4 {
        } else {
        }
    }
    assert forall|k: int| 1 <= k < kc.len() implies #[trigger] kc[k] != kc[0] by {
        assert(kc[k] != kx[0]);
    }
    lemma_keyword_at_end(p, kc, kx);
    lemma_remove_keyword_at_end(p, kc);
    assert(kc.subrange(0, 6) =~= kc);
    if x != c {
        assert(kc[5] != kx[5]);
        assert(kc.subrange(0, 6) != kx);
    } else {
        assert(kc =~= kx);
    }
}

proof fn lemma_comp_literals()
    ensures
        "COMP-1"@ == comp_keyword('1'),
        "COMP-3"@ == comp_keyword('3'),
        "COMP-4"@ == comp_keyword('4'),
        "COMP-5"@ == comp_keyword('5'),
        "COMP-6"@ == comp_keyword('6'),
{
    reveal_strlit("COMP-1");
    reveal_strlit("COMP-3");
    reveal_strlit("COMP-4");
    reveal_strlit("COMP-5");
    reveal_strlit("COMP-6");
    assert("COMP-1"@ =~= comp_keyword('1'));
    assert("COMP-3"@ =~= comp_keyword('3'));
    assert("COMP-4"@ =~= comp_keyword('4'));
    assert("COMP-5"@ =~= comp_keyword('5'));
    assert("COMP-6"@ =~= comp_keyword('6'));
}

proof fn lemma_usage_comp(p: Seq<char>, c: char)
    requires
        forall|j: int| 0 <= j < p.len() ==> p[j] != 'C',
        c == '1' || c == '3' || c == '4' || c == '5' || c == '6',
    ensures
        crate::record::usage_of(p + comp_keyword(c)) == (
            p,
            if c == '1' {
                crate::field::Binary::COMP1
            } else if c == '3' {
                crate::field::Binary::COMP3
            } else if c == '4' {
                crate::field::Binary::COMP4
            } else if c == '5' {
                crate::field::Binary::COMP5
            } else {
                crate::field::Binary::COMP6
            },
        ),
{
    lemma_comp_literals();
    lemma_comp_suffix(p, c, '1');
    lemma_comp_suffix(p, c, '3');
    lemma_comp_suffix(p, c, '4');
    lemma_comp_suffix(p, c, '5');
    lemma_comp_suffix(p, c, '6');
}

/// A picture without a `C` followed by a COMP usage keyword is classified
/// with that usage, and what remains is the picture: `usage_of(p +
/// "COMP-k") == (p, COMPk)` for each of COMP-1, COMP-3, COMP-4, COMP-5,
/// COMP-6.
pub proof fn law_comp_usage(p: Seq<char>)
    requires
        forall|j: int| 0 <= j < p.len() ==> p[j] != 'C',
    ensures
        crate::record::usage_of(p + "COMP-1"@) == (p, crate::field::Binary::COMP1),
        crate::record::usage_of(p + "COMP-3"@) == (p, crate::field::Binary::COMP3),
        crate::record::usage_of(p + "COMP-4"@) == (p, crate::field::Binary::COMP4),
        crate::record::usage_of(p + "COMP-5"@) == (p, crate::field::Binary::COMP5),
        crate::record::usage_of(p + "COMP-6"@) == (p, crate::field::Binary::COMP6),
{
    lemma_comp_literals();
    lemma_usage_comp(p, '1');
    lemma_usage_comp(p, '3');
    lemma_usage_comp(p, '4');
    lemma_usage_comp(p, '5');
    lemma_usage_comp(p, '6');
}

// ---------------------------------------------------------------------------
// REDEFINES
// ---------------------------------------------------------------------------

/// The filter's state when no REDEFINES group is open.
pub open spec fn no_redefines_open() -> RedefinesState {
    RedefinesState { active: false, level: 0 }
}

proof fn lemma_closed_state(rs: Seq<RecordView>)
    ensures
        !filter_redefines(rs).0.active ==> filter_redefines(rs).0 == no_redefines_open(),
    decreases rs.len(),
{
    if rs.len() > 0 {
        lemma_closed_state(rs.drop_last());
    }
}

/// A record that is kept (not a REDEFINES, not level 88 or 66) and is not
/// deeper than an open REDEFINES group closes it: it is kept, and the
/// filter is back in the state where no REDEFINES has been read.
pub proof fn law_redefines_closed(rs: Seq<RecordView>, r: RecordView)
    requires
        survives_redefines(r),
        filter_redefines(rs).0.active ==> r.pos <= filter_redefines(rs).0.level,
    ensures
        filter_redefines(rs.push(r)).0 == no_redefines_open(),
        filter_redefines(rs.push(r)).1 == filter_redefines(rs).1.push(r),
{
    lemma_closed_state(rs);
    assert(rs.push(r).drop_last() =~= rs);
    assert(rs.push(r).last() == r);
}

/// Once no REDEFINES group is open, the records that follow are filtered as
/// if they were the whole input.
pub proof fn law_redefines_restart(a: Seq<RecordView>, b: Seq<RecordView>)
    requires
        filter_redefines(a).0 == no_redefines_open(),
    ensures
        filter_redefines(a + b).0 == filter_redefines(b).0,
        filter_redefines(a + b).1 == filter_redefines(a).1 + filter_redefines(b).1,
    decreases b.len(),
{
    if b.len() == 0 {
        assert(a + b =~= a);
        assert(filter_redefines(a).1 + filter_redefines(b).1 =~= filter_redefines(a).1);
    } else {
        law_redefines_restart(a, b.drop_last());
        assert((a + b).drop_last() =~= a + b.drop_last());
        assert((a + b).last() == b.last());
        let k = filter_redefines(a).1;
        let kb = filter_redefines(b.drop_last()).1;
        assert((k + kb).push(b.last()) =~= k + kb.push(b.last()));
    }
}

// ---------------------------------------------------------------------------
// The RM/COBOL limit and the sizes the report shows
// ---------------------------------------------------------------------------

/// A sized group or sized OCCURS group is listed as over the RM/COBOL limit
/// exactly when its size is above 65280 bytes.
pub proof fn law_over_limit_sized(rs: Seq<RecordView>, r: RecordView, v: u32)
    requires
        r.field_type == TypeView::STRUCTSIZED(v) || r.field_type == TypeView::OCCURSSIZED(v),
    ensures
        over_limit(rs.push(r)) == if v > 65280 {
            over_limit(rs).push(r)
        } else {
            over_limit(rs)
        },
{
    assert(rs.push(r).drop_last() =~= rs);
    assert(rs.push(r).last() == r);
}

/// The report shows a sized OCCURS group with its size, whatever its
/// OCCURS count (the size counts the occurrences already), and a sized
/// group with its size times its count (a count of 0 counting once).
pub proof fn law_sized_group_shown_size(r: RecordView, v: u32)
    ensures
        r.field_type == TypeView::OCCURSSIZED(v) ==> display_size(r) == v,
        r.field_type == TypeView::STRUCTSIZED(v) ==> display_size(r) == v * (if r.occurs == 0 {
            1
        } else {
            r.occurs as int
        }),
{
}

} // verus!
