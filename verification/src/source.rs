//! From the lines of a copybook to its statements: comment lines and the
//! sequence area are dropped, and the text is cut at each period that ends
//! a line.
use vstd::prelude::*;
use crate::external::usize_is_even;
use crate::text::{
    char_seqs, chars_of, contains, contains_chars, push_all, quote_count, quote_count_chars,
    split_chars, split_on, string_seqs, sub_chars, trim_end, trim_end_chars,
};

verus! {

/// A line that carries code: it reaches the indicator area (column 7)
/// and has no `*` there.
pub open spec fn is_code_line(line: Seq<char>) -> bool {
    line.len() >= 7 && line[6] != '*'
}

/// The code lines of `lines`, each without its sequence area (columns 1
/// to 6) and followed by a line feed.
pub open spec fn code_text(lines: Seq<Seq<char>>) -> Seq<char>
    decreases lines.len(),
{
    if lines.len() == 0 {
        seq![]
    } else {
        code_text(lines.drop_last()) + if is_code_line(lines.last()) {
            lines.last().skip(6).push('\n')
        } else {
            seq![]
        }
    }
}

/// The source that the sizing works on: the code text without trailing
/// whitespace.
pub open spec fn filtered_source(lines: Seq<Seq<char>>) -> Seq<char> {
    trim_end(code_text(lines))
}

/// The code text of a copybook, without trailing whitespace.
pub fn filter_source(lines: &Vec<String>) -> (r: Vec<char>)
    ensures
        r@ == filtered_source(string_seqs(lines@)),
{
    let ghost all = string_seqs(lines@);
    let mut text: Vec<char> = Vec::new();
    let mut i: usize = 0;
    while i < lines.len()
        invariant
            i <= lines.len(),
            all == string_seqs(lines@),
            text@ == code_text(all.take(i as int)),
        decreases lines.len() - i,
    {
        let line = chars_of(lines[i].as_str());
        assert(all.take(i + 1).drop_last() =~= all.take(i as int));
        assert(all.take(i + 1).last() == line@);
        if line.len() >= 7 && line[6] != '*' {
            let code = sub_chars(&line, 6, line.len());
            let ghost before = text@;
            push_all(&mut text, &code);
            text.push('\n');
            assert(line@.skip(6) =~= code@);
            assert(text@ =~= before + line@.skip(6).push('\n'));
        } else {
            assert(code_text(all.take(i + 1)) =~= code_text(all.take(i as int)));
        }
        i += 1;
    }
    assert(all.take(lines.len() as int) =~= all);
    trim_end_chars(&text)
}

/// A statement is kept unless it has a VALUE clause with an odd number of
/// quote characters (its literal then runs on past the period).
pub open spec fn keep_statement(p: Seq<char>) -> bool {
    !contains(p, " VALUE "@) || quote_count(p) % 2 == 0
}

/// The statements of `ps` that `keep_statement` accepts, in order.
pub open spec fn kept_statements(ps: Seq<Seq<char>>) -> Seq<Seq<char>>
    decreases ps.len(),
{
    if ps.len() == 0 {
        seq![]
    } else {
        kept_statements(ps.drop_last()) + if keep_statement(ps.last()) {
            seq![ps.last()]
        } else {
            seq![]
        }
    }
}

/// `p` without its last character when, trailing whitespace aside, it
/// ends in a period.
pub open spec fn strip_final_period(p: Seq<char>) -> Seq<char> {
    let t = trim_end(p);
    if t.len() > 0 && t.last() == '.' {
        p.drop_last()
    } else {
        p
    }
}

/// The statements of a filtered source: the kept pieces between the
/// occurrences of a period followed by a line feed, the last one without
/// its closing period.
pub open spec fn statements(text: Seq<char>) -> Seq<Seq<char>> {
    let k = kept_statements(split_on(text, ".\n"@));
    if k.len() == 0 {
        k
    } else {
        k.update(k.len() - 1, strip_final_period(k.last()))
    }
}

pub fn keep_statement_exec(p: &Vec<char>, value_keyword: &Vec<char>) -> (r: bool)
    requires
        value_keyword@ == " VALUE "@,
    ensures
        r == keep_statement(p@),
{
    if contains_chars(p, value_keyword) {
        usize_is_even(quote_count_chars(p))
    } else {
        true
    }
}

/// The statements of a filtered source.
pub fn split_statements(text: &Vec<char>) -> (r: Vec<Vec<char>>)
    ensures
        char_seqs(r@) == statements(text@),
{
    let separator = chars_of(".\n");
    let value_keyword = chars_of(" VALUE ");
    proof {
        reveal_strlit(".\n");
    }
    let pieces = split_chars(text, &separator);
    let ghost all = char_seqs(pieces@);
    let mut kept: Vec<Vec<char>> = Vec::new();
    let mut i: usize = 0;
    while i < pieces.len()
        invariant
            i <= pieces.len(),
            all == char_seqs(pieces@),
            value_keyword@ == " VALUE "@,
            char_seqs(kept@) == kept_statements(all.take(i as int)),
        decreases pieces.len() - i,
    {
        assert(all.take(i + 1).drop_last() =~= all.take(i as int));
        assert(all.take(i + 1).last() == pieces@[i as int]@);
        let ghost before = char_seqs(kept@);
        if keep_statement_exec(&pieces[i], &value_keyword) {
            kept.push(pieces[i].clone());
            assert(char_seqs(kept@) =~= before + seq![pieces@[i as int]@]);
        }
        i += 1;
    }
    assert(all.take(pieces.len() as int) =~= all);
    let n = kept.len();
    if n > 0 {
        let last = kept.pop().unwrap();
        let trimmed = trim_end_chars(&last);
        let mut fixed = last;
        if trimmed.len() > 0 && trimmed[trimmed.len() - 1] == '.' {
            fixed.pop();
        }
        let ghost before = char_seqs(kept@);
        kept.push(fixed);
        assert(char_seqs(kept@) =~= statements(text@));
    }
    kept
}

} // verus!
