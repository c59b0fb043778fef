//! Copybook entries: the level number, name and clauses of each statement,
//! and the OCCURS counts that apply to them.
use vstd::prelude::*;
use crate::external::{regex_matches, regex_splitn};
use crate::patterns::{clause_pattern, pic_pattern, value_pattern, CobolPatterns};
use crate::text::{
    ascii_tokens, ascii_tokens_chars, char_seqs, chars_of, contains, contains_str,
    parse_i32_or_zero, parse_i32_or_zero_chars, parse_u32_or_zero, parse_u32_or_zero_chars,
    remove_spaces, remove_spaces_chars, same_chars, trim_end, trim_end_chars,
};

verus! {

/// One statement of a copybook, taken apart.
pub struct LineDebug {
    /// The level number (0 where there is none).
    pub pos: u32,
    /// The data name (`?` where there is none).
    pub name: Vec<char>,
    /// The OCCURS count (0 where there is none).
    pub occurs: u32,
    /// The entry opens an OCCURS group.
    pub sw_occurs: bool,
    /// The entry has an OCCURS clause inside its PICTURE clause.
    pub sw_occurs_inside: bool,
    /// The text before the PICTURE or OCCURS keyword.
    pub field_pos: Vec<char>,
    /// The clause after the keyword, without spaces.
    pub field_size: Vec<char>,
}

/// The mathematical value of a `LineDebug`.
pub struct EntryView {
    pub pos: u32,
    pub name: Seq<char>,
    pub occurs: u32,
    pub sw_occurs: bool,
    pub sw_occurs_inside: bool,
    pub field_pos: Seq<char>,
    pub field_size: Seq<char>,
}

impl View for LineDebug {
    type V = EntryView;

    open spec fn view(&self) -> EntryView {
        EntryView {
            pos: self.pos,
            name: self.name@,
            occurs: self.occurs,
            sw_occurs: self.sw_occurs,
            sw_occurs_inside: self.sw_occurs_inside,
            field_pos: self.field_pos@,
            field_size: self.field_size@,
        }
    }
}

pub open spec fn entry_views(v: Seq<LineDebug>) -> Seq<EntryView> {
    Seq::new(v.len(), |i: int| v[i]@)
}

pub open spec fn first_or_empty(v: Seq<Seq<char>>) -> Seq<char> {
    if v.len() > 0 {
        v[0]
    } else {
        seq![]
    }
}

pub open spec fn second_or_empty(v: Seq<Seq<char>>) -> Seq<char> {
    if v.len() > 1 {
        v[1]
    } else {
        seq![]
    }
}

/// The entry that the statement `c` describes, given the PICTURE and
/// OCCURS keywords found in it (`keywords`), `c` split at the first of them
/// (`halves`), and the text after that keyword split at its first VALUE or
/// BLANK ZERO keyword (`value_pieces`). The text before the keyword gives
/// the level number and the name; the text after it, up to VALUE or BLANK
/// ZERO and without spaces or trailing whitespace, is the clause; an
/// OCCURS keyword first gives the count. `halves` is read only where a
/// keyword was found, and `value_pieces` only where `halves` has a second
/// piece.
pub open spec fn entry_from_pieces(
    c: Seq<char>,
    keywords: Seq<Seq<char>>,
    halves: Seq<Seq<char>>,
    value_pieces: Seq<Seq<char>>,
) -> EntryView {
    let field_pos = if keywords.len() > 0 {
        first_or_empty(halves)
    } else {
        c
    };
    let field_size = if keywords.len() > 0 && halves.len() > 1 {
        trim_end(remove_spaces(first_or_empty(value_pieces)))
    } else {
        seq![]
    };
    let opens_occurs = keywords.len() > 0 && keywords[0] == " OCCURS"@;
    let words = ascii_tokens(field_pos);
    EntryView {
        pos: if words.len() > 0 {
            parse_u32_or_zero(words[0])
        } else {
            0
        },
        name: if words.len() > 1 {
            words[1]
        } else {
            "?"@
        },
        occurs: if opens_occurs {
            parse_u32_or_zero(field_size)
        } else {
            0
        },
        sw_occurs: false,
        sw_occurs_inside: false,
        field_pos,
        field_size,
    }
}

/// The entry that a statement describes, with the keywords and pieces
/// that the clause and value patterns find in it.
pub open spec fn entry_of(c: Seq<char>) -> EntryView {
    let halves = regex_splitn(clause_pattern(), c, 2);
    entry_from_pieces(
        c,
        regex_matches(clause_pattern(), c),
        halves,
        regex_splitn(value_pattern(), second_or_empty(halves), 2),
    )
}

/// The entry that the statement `c` describes, given the pieces the
/// patterns find in it (see `entry_from_pieces`).
pub fn assemble_entry(
    c: &Vec<char>,
    keywords: &Vec<Vec<char>>,
    halves: &Vec<Vec<char>>,
    value_pieces: &Vec<Vec<char>>,
) -> (r: LineDebug)
    ensures
        r@ == entry_from_pieces(
            c@,
            char_seqs(keywords@),
            char_seqs(halves@),
            char_seqs(value_pieces@),
        ),
{
    let mut field_pos: Vec<char> = Vec::new();
    let mut field_size: Vec<char> = Vec::new();
    if keywords.len() > 0 {
        if halves.len() > 0 {
            field_pos = halves[0].clone();
        }
        if halves.len() > 1 {
            let picture: Vec<char> = if value_pieces.len() > 0 {
                value_pieces[0].clone()
            } else {
                Vec::new()
            };
            assert(picture@ == first_or_empty(char_seqs(value_pieces@)));
            field_size = trim_end_chars(&remove_spaces_chars(&picture));
        }
        assert(field_pos@ == first_or_empty(char_seqs(halves@)));
    } else {
        field_pos = c.clone();
    }
    let occurs_keyword = chars_of(" OCCURS");
    let opens_occurs = keywords.len() > 0 && same_chars(&keywords[0], &occurs_keyword);
    let words = ascii_tokens_chars(&field_pos);
    let pos = if words.len() > 0 {
        parse_u32_or_zero_chars(&words[0])
    } else {
        0
    };
    let name = if words.len() > 1 {
        words[1].clone()
    } else {
        chars_of("?")
    };
    let occurs = if opens_occurs {
        parse_u32_or_zero_chars(&field_size)
    } else {
        0
    };
    LineDebug {
        pos,
        name,
        occurs,
        sw_occurs: false,
        sw_occurs_inside: false,
        field_pos,
        field_size,
    }
}

/// The entry that the statement `c` describes.
pub fn parse_entry(c: &Vec<char>, pats: &CobolPatterns) -> (r: LineDebug)
    requires
        pats.wf(),
    ensures
        r@ == entry_of(c@),
{
    let keywords = pats.clause_keywords(c);
    let none: Vec<Vec<char>> = Vec::new();
    if keywords.len() == 0 {
        return assemble_entry(c, &keywords, &none, &none);
    }
    let halves = pats.split_at_clause(c);
    if halves.len() > 1 {
        let value_pieces = pats.split_at_value(&halves[1]);
        assert(char_seqs(halves@)[1] == halves@[1]@);
        assemble_entry(c, &keywords, &halves, &value_pieces)
    } else {
        assemble_entry(c, &keywords, &halves, &none)
    }
}

/// An entry whose text before the keyword is not a nonzero `i32` on its
/// own (a bare level number or a stray number is no data entry).
pub open spec fn is_data_entry(e: EntryView) -> bool {
    e.field_pos.len() > 0 && parse_i32_or_zero(e.field_pos) == 0
}

/// The entries of the statements in `cs` that `is_data_entry` accepts.
pub open spec fn data_entries(cs: Seq<Seq<char>>) -> Seq<EntryView>
    decreases cs.len(),
{
    if cs.len() == 0 {
        seq![]
    } else {
        data_entries(cs.drop_last()) + if is_data_entry(entry_of(cs.last())) {
            seq![entry_of(cs.last())]
        } else {
            seq![]
        }
    }
}

/// The data entries of a sequence of statements.
pub fn parse_entries(cs: &Vec<Vec<char>>, pats: &CobolPatterns) -> (r: Vec<LineDebug>)
    requires
        pats.wf(),
    ensures
        entry_views(r@) == data_entries(char_seqs(cs@)),
{
    let ghost all = char_seqs(cs@);
    let mut out: Vec<LineDebug> = Vec::new();
    let mut i: usize = 0;
    while i < cs.len()
        invariant
            i <= cs.len(),
            pats.wf(),
            all == char_seqs(cs@),
            entry_views(out@) == data_entries(all.take(i as int)),
        decreases cs.len() - i,
    {
        assert(all.take(i + 1).drop_last() =~= all.take(i as int));
        assert(all.take(i + 1).last() == cs@[i as int]@);
        let e = parse_entry(&cs[i], pats);
        let ghost before = entry_views(out@);
        if e.field_pos.len() > 0 && parse_i32_or_zero_chars(&e.field_pos) == 0 {
            out.push(e);
            assert(entry_views(out@) =~= before + seq![e@]);
        } else {
            assert(entry_views(out@) =~= before);
        }
        i += 1;
    }
    assert(all.take(cs.len() as int) =~= all);
    out
}

/// The OCCURS group that the entries read so far are inside, if any.
#[derive(Clone, Copy)]
pub struct OccursState {
    /// A group is open.
    pub active: bool,
    /// The level number of the entry that opened it.
    pub level: u32,
    /// Its count.
    pub count: u32,
}

pub open spec fn closed_group() -> OccursState {
    OccursState { active: false, level: 0, count: 0 }
}

/// One entry read under `st`: inside an open group, an entry deeper than
/// the group takes its count, and any other entry closes the group without
/// opening one of its own; outside a group, an entry with a count opens
/// one.
pub open spec fn occurs_step(st: OccursState, e: EntryView) -> (OccursState, EntryView) {
    if st.active {
        if st.level < e.pos {
            (st, EntryView { occurs: st.count, sw_occurs: false, sw_occurs_inside: false, ..e })
        } else {
            (closed_group(), EntryView { sw_occurs: false, sw_occurs_inside: false, ..e })
        }
    } else {
        let next = if e.occurs > 0 {
            OccursState { active: true, level: e.pos, count: e.occurs }
        } else {
            st
        };
        (next, EntryView { sw_occurs: e.occurs > 0, sw_occurs_inside: false, ..e })
    }
}

/// The state after reading `es` from no open group, and the entries as
/// read.
pub open spec fn propagate_occurs(es: Seq<EntryView>) -> (OccursState, Seq<EntryView>)
    decreases es.len(),
{
    if es.len() == 0 {
        (closed_group(), seq![])
    } else {
        let (st, done) = propagate_occurs(es.drop_last());
        let (next, e) = occurs_step(st, es.last());
        (next, done.push(e))
    }
}

/// One step of `occurs_step`.
pub fn occurs_step_exec(st: OccursState, e: LineDebug) -> (r: (OccursState, LineDebug))
    ensures
        r.0 == occurs_step(st, e@).0,
        r.1@ == occurs_step(st, e@).1,
{
    if st.active {
        if st.level < e.pos {
            (st, LineDebug { occurs: st.count, sw_occurs: false, sw_occurs_inside: false, ..e })
        } else {
            (
                OccursState { active: false, level: 0, count: 0 },
                LineDebug { sw_occurs: false, sw_occurs_inside: false, ..e },
            )
        }
    } else {
        let opens = e.occurs > 0;
        let next = if opens {
            OccursState { active: true, level: e.pos, count: e.occurs }
        } else {
            st
        };
        (next, LineDebug { sw_occurs: opens, sw_occurs_inside: false, ..e })
    }
}

/// The entry with an OCCURS clause written before its PICTURE keyword,
/// given its clause split at the PIC keyword (`parts`): the text before PIC
/// gives the count, the text after it the picture.
pub open spec fn picture_occurs(e: EntryView, parts: Seq<Seq<char>>) -> EntryView {
    EntryView {
        occurs: parse_u32_or_zero(remove_spaces(first_or_empty(parts))),
        sw_occurs: false,
        sw_occurs_inside: true,
        field_size: remove_spaces(second_or_empty(parts)),
        ..e
    }
}

/// The entry with an OCCURS clause before its PICTURE keyword taken apart
/// (where its clause holds PIC).
pub open spec fn occurs_in_picture(e: EntryView) -> EntryView {
    if contains(e.field_size, "PIC"@) {
        picture_occurs(e, regex_splitn(pic_pattern(), e.field_size, 2))
    } else {
        EntryView { sw_occurs_inside: false, ..e }
    }
}

/// The entry taken apart as `picture_occurs` says, given its clause split
/// at the PIC keyword.
pub fn apply_picture_occurs(e: LineDebug, parts: &Vec<Vec<char>>) -> (r: LineDebug)
    ensures
        r@ == picture_occurs(e@, char_seqs(parts@)),
{
    let first: Vec<char> = if parts.len() > 0 {
        parts[0].clone()
    } else {
        Vec::new()
    };
    let second: Vec<char> = if parts.len() > 1 {
        parts[1].clone()
    } else {
        Vec::new()
    };
    assert(first@ == first_or_empty(char_seqs(parts@)));
    assert(second@ == second_or_empty(char_seqs(parts@)));
    let occurs = parse_u32_or_zero_chars(&remove_spaces_chars(&first));
    let field_size = remove_spaces_chars(&second);
    LineDebug { occurs, sw_occurs: false, sw_occurs_inside: true, field_size, ..e }
}

pub fn occurs_in_picture_exec(e: LineDebug, pats: &CobolPatterns) -> (r: LineDebug)
    requires
        pats.wf(),
    ensures
        r@ == occurs_in_picture(e@),
{
    if contains_str(&e.field_size, "PIC") {
        let parts = pats.split_at_pic(&e.field_size);
        apply_picture_occurs(e, &parts)
    } else {
        LineDebug { sw_occurs_inside: false, ..e }
    }
}

/// The entries with their OCCURS counts: the groups carried over, then each
/// OCCURS clause inside a picture taken apart.
pub open spec fn counted_entries(es: Seq<EntryView>) -> Seq<EntryView> {
    let read = propagate_occurs(es).1;
    Seq::new(read.len(), |i: int| occurs_in_picture(read[i]))
}

/// A copy of `e`.
pub fn copy_entry(e: &LineDebug) -> (r: LineDebug)
    ensures
        r@ == e@,
{
    LineDebug {
        pos: e.pos,
        name: e.name.clone(),
        occurs: e.occurs,
        sw_occurs: e.sw_occurs,
        sw_occurs_inside: e.sw_occurs_inside,
        field_pos: e.field_pos.clone(),
        field_size: e.field_size.clone(),
    }
}

/// The entries with their OCCURS counts.
pub fn count_occurs(es: &Vec<LineDebug>, pats: &CobolPatterns) -> (r: Vec<LineDebug>)
    requires
        pats.wf(),
    ensures
        entry_views(r@) == counted_entries(entry_views(es@)),
{
    let ghost all = entry_views(es@);
    let mut st = OccursState { active: false, level: 0, count: 0 };
    let mut out: Vec<LineDebug> = Vec::new();
    let mut i: usize = 0;
    while i < es.len()
        invariant
            pats.wf(),
            i <= es.len(),
            all == entry_views(es@),
            st == propagate_occurs(all.take(i as int)).0,
            propagate_occurs(all.take(i as int)).1.len() == i,
            entry_views(out@) == Seq::new(
                i as nat,
                |k: int| occurs_in_picture(propagate_occurs(all.take(i as int)).1[k]),
            ),
        decreases es.len() - i,
    {
        let e = copy_entry(&es[i]);
        assert(all.take(i + 1).drop_last() =~= all.take(i as int));
        let ghost prev = propagate_occurs(all.take(i as int));
        let (next, read) = occurs_step_exec(st, e);
        assert(propagate_occurs(all.take(i + 1)).1 == prev.1.push(read@));
        assert(propagate_occurs(all.take(i + 1)).0 == next);
        let done = occurs_in_picture_exec(read, pats);
        let ghost old_out = entry_views(out@);
        out.push(done);
        assert(entry_views(out@) =~= old_out.push(done@));
        st = next;
        i += 1;
        let ghost cur = propagate_occurs(all.take(i as int)).1;
        assert forall|k: int| 0 <= k < i implies entry_views(out@)[k] == occurs_in_picture(
            cur[k],
        ) by {
            if k < i - 1 {
                assert(cur[k] == prev.1[k]);
            }
        }
        assert(entry_views(out@) =~= Seq::new(
            i as nat,
            |k: int| occurs_in_picture(propagate_occurs(all.take(i as int)).1[k]),
        ));
    }
    assert(all.take(es.len() as int) =~= all);
    out
}

} // verus!
