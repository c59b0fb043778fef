//! The report: one line per record, indented by its depth in the layout,
//! with its size, level number, name and clause.
use vstd::prelude::*;
use crate::external::string_of;
use crate::field::{binary_text, type_size, Binary, Type, TypeView};

use crate::patterns::CobolPatterns;
use crate::record::{record_views, LineCobol, RecordView};
use crate::text::{
    chars_of, decimal, decimal_chars, pad_left, pad_left_chars, pad_right, pad_right_chars,
    push_all, repeat_char, string_seqs, trim_end, trim_end_chars,
};

verus! {

// ---------------------------------------------------------------------------
// Depth
// ---------------------------------------------------------------------------

/// The largest element of `s` (0 for the empty sequence).
pub open spec fn seq_max(s: Seq<u32>) -> u32
    decreases s.len(),
{
    if s.len() == 0 {
        0
    } else {
        let m = seq_max(s.drop_last());
        if s.len() == 1 || s.last() > m {
            s.last()
        } else {
            m
        }
    }
}

/// The elements of `s` below `p`, in order.
pub open spec fn keep_below(s: Seq<u32>, p: u32) -> Seq<u32>
    decreases s.len(),
{
    if s.len() == 0 {
        seq![]
    } else {
        keep_below(s.drop_last(), p) + if s.last() < p {
            seq![s.last()]
        } else {
            seq![]
        }
    }
}

/// The level numbers of the open groups after a record at level `pos`:
/// those not below it are closed, and `pos` is added.
pub open spec fn next_levels(levels: Seq<u32>, pos: u32) -> Seq<u32> {
    if levels.len() == 0 {
        seq![pos]
    } else {
        let open = if pos <= seq_max(levels) {
            keep_below(levels, pos)
        } else {
            levels
        };
        if open.contains(pos) {
            open
        } else {
            open.push(pos)
        }
    }
}

pub open spec fn strictly_increasing(s: Seq<u32>) -> bool {
    forall|i: int, j: int| 0 <= i < j < s.len() ==> s[i] < s[j]
}

proof fn lemma_max_of_increasing(s: Seq<u32>)
    requires
        strictly_increasing(s),
        s.len() > 0,
    ensures
        seq_max(s) == s.last(),
    decreases s.len(),
{
    if s.len() > 1 {
        lemma_max_of_increasing(s.drop_last());
    }
}

proof fn lemma_keep_below(s: Seq<u32>, p: u32)
    requires
        strictly_increasing(s),
    ensures
        strictly_increasing(keep_below(s, p)),
        forall|i: int| 0 <= i < keep_below(s, p).len() ==> #[trigger] keep_below(s, p)[i] < p,
        forall|i: int|
            0 <= i < keep_below(s, p).len() ==> s.contains(#[trigger] keep_below(s, p)[i]),
    decreases s.len(),
{
    if s.len() > 0 {
        let rest = s.drop_last();
        lemma_keep_below(rest, p);
        let k = keep_below(rest, p);
        if s.last() < p {
            assert forall|i: int| 0 <= i < k.len() implies k[i] < s.last() by {
                assert(rest.contains(k[i]));
                let j = choose|j: int| 0 <= j < rest.len() && rest[j] == k[i];
                assert(s[j] == rest[j]);
            }
            assert forall|i: int| 0 <= i < k.len() implies s.contains(k[i]) by {
                assert(rest.contains(k[i]));
                let j = choose|j: int| 0 <= j < rest.len() && rest[j] == k[i];
                assert(s[j] == k[i]);
            }
            assert(s.contains(s.last())) by {
                assert(s[s.len() - 1] == s.last());
            }
        } else {
            assert forall|i: int| 0 <= i < k.len() implies s.contains(k[i]) by {
                assert(rest.contains(k[i]));
                let j = choose|j: int| 0 <= j < rest.len() && rest[j] == k[i];
                assert(s[j] == k[i]);
            }
        }
    }
}

/// The open levels stay strictly increasing, and the record just read is
/// the innermost: its depth is the number of open levels, at least 1.
pub proof fn law_next_levels(levels: Seq<u32>, pos: u32)
    requires
        strictly_increasing(levels),
    ensures
        strictly_increasing(next_levels(levels, pos)),
        next_levels(levels, pos).len() >= 1,
        next_levels(levels, pos).last() == pos,
{
    if levels.len() > 0 {
        lemma_max_of_increasing(levels);
        if pos <= seq_max(levels) {
            lemma_keep_below(levels, pos);
            let open = keep_below(levels, pos);
            assert(!open.contains(pos));
        } else {
            assert(!levels.contains(pos));
        }
    }
}

/// The largest element of `s` (0 for the empty sequence).
fn max_level(s: &Vec<u32>) -> (r: u32)
    ensures
        r == seq_max(s@),
{
    let mut m: u32 = 0;
    let mut i: usize = 0;
    while i < s.len()
        invariant
            i <= s.len(),
            m == seq_max(s@.take(i as int)),
        decreases s.len() - i,
    {
        assert(s@.take(i + 1).drop_last() =~= s@.take(i as int));
        if i == 0 || s[i] > m {
            m = s[i];
        }
        i += 1;
    }
    assert(s@.take(s.len() as int) =~= s@);
    m
}

/// The open levels after a record at level `pos`.
pub fn next_levels_exec(levels: &Vec<u32>, pos: u32) -> (r: Vec<u32>)
    ensures
        r@ == next_levels(levels@, pos),
{
    if levels.len() == 0 {
        let r = vec![pos];
        assert(r@ =~= seq![pos]);
        return r;
    }
    let mut open: Vec<u32> = Vec::new();
    if pos <= max_level(levels) {
        let mut i: usize = 0;
        while i < levels.len()
            invariant
                i <= levels.len(),
                open@ == keep_below(levels@.take(i as int), pos),
            decreases levels.len() - i,
        {
            assert(levels@.take(i + 1).drop_last() =~= levels@.take(i as int));
            if levels[i] < pos {
                open.push(levels[i]);
            }
            i += 1;
        }
        assert(levels@.take(levels.len() as int) =~= levels@);
    } else {
        open = levels.clone();
        assert(open@ =~= levels@);
    }
    let mut found = false;
    let mut j: usize = 0;
    while j < open.len()
        invariant
            j <= open.len(),
            found == exists|k: int| 0 <= k < j && open@[k] == pos,
        decreases open.len() - j,
    {
        if open[j] == pos {
            found = true;
        }
        j += 1;
    }
    if !found {
        open.push(pos);
    }
    open
}

// ---------------------------------------------------------------------------
// Lines
// ---------------------------------------------------------------------------

/// The OCCURS count the report multiplies by: 1 for a sized OCCURS group
/// (its size is per occurrence already) and for a count of 0.
pub open spec fn display_count(r: RecordView) -> nat {
    if r.field_type is OCCURSSIZED || r.occurs == 0 {
        1
    } else {
        r.occurs as nat
    }
}

/// The size the report shows for a record.
pub open spec fn display_size(r: RecordView) -> nat {
    match type_size(r.field_type) {
        Some(s) => s * display_count(r),
        None => 0,
    }
}

/// `OCCURS n` for an item whose OCCURS clause precedes its picture.
pub open spec fn occurs_note(r: RecordView) -> Seq<char> {
    let inside = match r.field_type {
        TypeView::PICX((_, inside, _)) => inside,
        TypeView::PIC9((_, inside, _)) => inside,
        _ => false,
    };
    if inside {
        "OCCURS "@ + decimal(r.occurs as nat)
    } else {
        seq![]
    }
}

/// Four spaces for each level of depth beyond the first, at most seven
/// times.
pub open spec fn indentation(depth: nat) -> Seq<char> {
    let steps: nat = if 1 <= depth <= 7 {
        (depth - 1) as nat
    } else {
        7
    };
    repeat_char(' ', 4 * steps)
}

/// The size (6 wide), the indentation, the level number (2 digits), the
/// name and the OCCURS note, without trailing whitespace.
pub open spec fn line_head(r: RecordView, depth: nat) -> Seq<char> {
    trim_end(
        pad_left(decimal(display_size(r)), 6, ' ') + seq![' '] + indentation(depth) + pad_left(
            decimal(r.pos as nat),
            2,
            '0',
        ) + seq![' '] + r.name + seq![' '] + occurs_note(r),
    )
}

/// The picture clause after a head padded to 49 characters.
pub open spec fn picture_line(head: Seq<char>, picture: Seq<char>, b: Binary) -> Seq<char> {
    if b == Binary::NONE {
        pad_right(head, 49) + "PIC "@ + picture + "."@
    } else {
        pad_right(head, 49) + "PIC "@ + picture + " "@ + binary_text(b) + "."@
    }
}

/// The line for a record (empty for a record the report leaves out).
pub open spec fn line_body(r: RecordView, head: Seq<char>) -> Seq<char> {
    match r.field_type {
        TypeView::PICX((_, _, b)) => picture_line(head, r.field_type_original, b),
        TypeView::PIC9((_, _, b)) => picture_line(head, r.field_type_original, b),
        TypeView::STRUCT => head + "."@,
        TypeView::STRUCTSIZED(_) => head + "."@,
        TypeView::OCCURS => head + " OCCURS "@ + r.field_type_original + "."@,
        TypeView::OCCURSSIZED(_) => head + " OCCURS "@ + r.field_type_original + "."@,
        _ => seq![],
    }
}

/// A line followed, when asked, by the file name in column 81.
pub open spec fn with_file_name(body: Seq<char>, with_file: bool, file: Seq<char>) -> Seq<char> {
    if with_file {
        pad_right(body, 80) + file
    } else {
        body
    }
}

/// The open levels and the lines after the first `k` records.
pub open spec fn report_upto(rs: Seq<RecordView>, k: int, with_file: bool, file: Seq<char>) -> (
    Seq<u32>,
    Seq<Seq<char>>,
)
    decreases k,
{
    if k <= 0 || k > rs.len() {
        (seq![], seq![])
    } else {
        let (levels, lines) = report_upto(rs, k - 1, with_file, file);
        let r = rs[k - 1];
        let next = next_levels(levels, r.pos);
        let body = line_body(r, line_head(r, next.len()));
        (
            next,
            if body.len() > 0 {
                lines.push(with_file_name(body, with_file, file))
            } else {
                lines
            },
        )
    }
}

/// The first record from `i` on whose shown size does not fit in a `u32`
/// (the number of records where there is none).
pub open spec fn first_oversized(rs: Seq<RecordView>, i: int) -> int
    decreases rs.len() - i,
{
    if i < 0 || i >= rs.len() {
        rs.len() as int
    } else if display_size(rs[i]) > u32::MAX {
        i
    } else {
        first_oversized(rs, i + 1)
    }
}

/// The report of `rs`: the lines of the records before the first one whose
/// size does not fit, then, when all fit and it is asked for, a separator.
pub open spec fn report(rs: Seq<RecordView>, separator: bool, with_file: bool, file: Seq<char>) -> Seq<
    Seq<char>,
> {
    let stop = first_oversized(rs, 0);
    let lines = report_upto(rs, stop, with_file, file).1;
    if stop == rs.len() && separator {
        lines.push("------"@)
    } else {
        lines
    }
}

/// The lines of a report, and whether it stopped at a size that does not
/// fit in a `u32`.
pub struct Report {
    pub lines: Vec<String>,
    pub overflow: bool,
}

fn spaces(n: usize) -> (r: Vec<char>)
    ensures
        r@ == repeat_char(' ', n as nat),
{
    let mut r: Vec<char> = Vec::new();
    let mut i: usize = 0;
    while i < n
        invariant
            i <= n,
            r@ == repeat_char(' ', i as nat),
        decreases n - i,
    {
        r.push(' ');
        i += 1;
        assert(r@ =~= repeat_char(' ', i as nat));
    }
    r
}

/// The shown size of a record, where it fits in a `u32`.
pub fn display_size_exec(r: &LineCobol, pats: &CobolPatterns) -> (s: Option<u32>)
    requires
        pats.wf(),
    ensures
        s matches Some(v) ==> v == display_size(r@),
        s is None <==> display_size(r@) > u32::MAX,
{
    let mut occ: u32 = if r.occurs == 0 {
        1
    } else {
        r.occurs
    };
    if let Type::OCCURSSIZED(_) = r.field_type {
        occ = 1;
    }
    assert(occ == display_count(r@));
    let size = r.field_type.size(pats);
    proof {
        match type_size(r.field_type@) {
            Some(s) => {
                assert(s * occ >= s) by (nonlinear_arith)
                    requires
                        occ >= 1,
                ;
            },
            None => {},
        }
    }
    match size {
        Err(_) => None,
        Ok(None) => Some(0),
        Ok(Some(s)) => s.checked_mul(occ),
    }
}

fn occurs_note_exec(r: &LineCobol) -> (n: Vec<char>)
    ensures
        n@ == occurs_note(r@),
{
    let inside = match &r.field_type {
        Type::PICX((_, inside, _)) => *inside,
        Type::PIC9((_, inside, _)) => *inside,
        _ => false,
    };
    if inside {
        let mut n = chars_of("OCCURS ");
        push_all(&mut n, &decimal_chars(r.occurs));
        n
    } else {
        Vec::new()
    }
}

fn line_head_exec(r: &LineCobol, size: u32, depth: usize) -> (h: Vec<char>)
    requires
        size == display_size(r@),
    ensures
        h@ == line_head(r@, depth as nat),
{
    let steps: usize = if 1 <= depth && depth <= 7 {
        depth - 1
    } else {
        7
    };
    let mut h = pad_left_chars(&decimal_chars(size), 6, ' ');
    h.push(' ');
    push_all(&mut h, &spaces(4 * steps));
    push_all(&mut h, &pad_left_chars(&decimal_chars(r.pos), 2, '0'));
    h.push(' ');
    push_all(&mut h, &r.name);
    h.push(' ');
    push_all(&mut h, &occurs_note_exec(r));
    assert(h@ =~= pad_left(decimal(display_size(r@)), 6, ' ') + seq![' '] + indentation(
        depth as nat,
    ) + pad_left(decimal(r.pos as nat), 2, '0') + seq![' '] + r.name@ + seq![' '] + occurs_note(
        r@,
    ));
    trim_end_chars(&h)
}

fn picture_line_exec(head: &Vec<char>, picture: &Vec<char>, b: Binary) -> (l: Vec<char>)
    ensures
        l@ == picture_line(head@, picture@, b),
{
    let mut l = pad_right_chars(head, 49);
    push_all(&mut l, &chars_of("PIC "));
    push_all(&mut l, picture);
    if b != Binary::NONE {
        push_all(&mut l, &chars_of(" "));
        push_all(&mut l, &b.text_chars());
    }
    push_all(&mut l, &chars_of("."));
    l
}

fn line_body_exec(r: &LineCobol, head: &Vec<char>) -> (l: Vec<char>)
    ensures
        l@ == line_body(r@, head@),
{
    match &r.field_type {
        Type::PICX((_, _, b)) => picture_line_exec(head, &r.field_type_original, *b),
        Type::PIC9((_, _, b)) => picture_line_exec(head, &r.field_type_original, *b),
        Type::STRUCT | Type::STRUCTSIZED(_) => {
            let mut l = head.clone();
            push_all(&mut l, &chars_of("."));
            l
        },
        Type::OCCURS | Type::OCCURSSIZED(_) => {
            let mut l = head.clone();
            push_all(&mut l, &chars_of(" OCCURS "));
            push_all(&mut l, &r.field_type_original);
            push_all(&mut l, &chars_of("."));
            l
        },
        _ => Vec::new(),
    }
}

/// The report of `rs`.
pub fn display(
    rs: &Vec<LineCobol>,
    sw_separator: bool,
    sw_file_name_error: bool,
    file_name: &Vec<char>,
    pats: &CobolPatterns,
) -> (out: Report)
    requires
        pats.wf(),
    ensures
        string_seqs(out.lines@) == report(
            record_views(rs@),
            sw_separator,
            sw_file_name_error,
            file_name@,
        ),
        out.overflow <==> first_oversized(record_views(rs@), 0) < rs.len(),
{
    let ghost all = record_views(rs@);
    let mut levels: Vec<u32> = Vec::new();
    let mut lines: Vec<String> = Vec::new();
    let mut i: usize = 0;
    while i < rs.len()
        invariant
            pats.wf(),
            i <= rs.len(),
            all == record_views(rs@),
            first_oversized(all, 0) == first_oversized(all, i as int),
            levels@ == report_upto(all, i as int, sw_file_name_error, file_name@).0,
            string_seqs(lines@) == report_upto(all, i as int, sw_file_name_error, file_name@).1,
        decreases rs.len() - i,
    {
        let r = &rs[i];
        assert(all[i as int] == r@);
        let next = next_levels_exec(&levels, r.pos);
        let size = match display_size_exec(r, pats) {
            Some(v) => v,
            None => {
                return Report { lines, overflow: true };
            },
        };
        let head = line_head_exec(r, size, next.len());
        let body = line_body_exec(r, &head);
        if body.len() > 0 {
            let line = if sw_file_name_error {
                let mut l = pad_right_chars(&body, 80);
                push_all(&mut l, file_name);
                l
            } else {
                body
            };
            let ghost before = string_seqs(lines@);
            lines.push(string_of(&line));
            assert(string_seqs(lines@) =~= before.push(line@));
        }
        levels = next;
        i += 1;
    }
    if sw_separator {
        let ghost before = string_seqs(lines@);
        lines.push(string_of(&chars_of("------")));
        assert(string_seqs(lines@) =~= before.push("------"@));
    }
    Report { lines, overflow: false }
}

} // verus!
