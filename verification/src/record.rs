//! Classified records: the kind of each entry, the REDEFINES and
//! condition entries left out, and the sizes of groups and of the whole
//! layout.
use vstd::prelude::*;
use crate::entry::{first_or_empty, second_or_empty, EntryView, LineDebug};
use crate::external::regex_splitn;
use crate::field::{Binary, Type, TypeView};
use crate::patterns::{binary_pattern, CobolPatterns};
use crate::text::{
    char_seqs, chars_of, contains, contains_str, parse_u32_or_zero, parse_u32_or_zero_chars,
    remove_spaces, remove_spaces_chars, replace_all, replace_chars,
};

verus! {

/// A classified entry.
pub struct LineCobol {
    pub pos: u32,
    pub name: Vec<char>,
    pub occurs: u32,
    pub field_type: Type,
    /// The picture as the report shows it (the usage keyword removed).
    pub field_type_original: Vec<char>,
}

/// The mathematical value of a `LineCobol`.
pub struct RecordView {
    pub pos: u32,
    pub name: Seq<char>,
    pub occurs: u32,
    pub field_type: TypeView,
    pub field_type_original: Seq<char>,
}

impl View for LineCobol {
    type V = RecordView;

    open spec fn view(&self) -> RecordView {
        RecordView {
            pos: self.pos,
            name: self.name@,
            occurs: self.occurs,
            field_type: self.field_type@,
            field_type_original: self.field_type_original@,
        }
    }
}

pub open spec fn record_views(v: Seq<LineCobol>) -> Seq<RecordView> {
    Seq::new(v.len(), |i: int| v[i]@)
}

/// The usage named in a picture, and the picture without it. The
/// keywords are tried in the order COMP-1, COMP-3, COMP-4, COMP-5, COMP-6,
/// PACKED-DECIMAL, BINARY(.
pub open spec fn usage_of(fs: Seq<char>) -> (Seq<char>, Binary) {
    if contains(fs, "COMP-1"@) {
        (replace_all(fs, "COMP-1"@, seq![]), Binary::COMP1)
    } else if contains(fs, "COMP-3"@) {
        (replace_all(fs, "COMP-3"@, seq![]), Binary::COMP3)
    } else if contains(fs, "COMP-4"@) {
        (replace_all(fs, "COMP-4"@, seq![]), Binary::COMP4)
    } else if contains(fs, "COMP-5"@) {
        (replace_all(fs, "COMP-5"@, seq![]), Binary::COMP5)
    } else if contains(fs, "COMP-6"@) {
        (replace_all(fs, "COMP-6"@, seq![]), Binary::COMP6)
    } else if contains(fs, "PACKED-DECIMAL"@) {
        (replace_all(fs, "PACKED-DECIMAL"@, seq![]), Binary::PACKEDDECIMAL)
    } else if contains(fs, "BINARY("@) {
        binary_usage(regex_splitn(binary_pattern(), fs, 2))
    } else {
        (fs, Binary::NONE)
    }
}

/// A picture with a `BINARY(n)Y` usage, given the picture split at the
/// usage (`parts`): the text before the usage, without spaces, is the
/// picture; the text after it, without spaces, is the number of the usage
/// (0 where it is none).
pub open spec fn binary_usage(parts: Seq<Seq<char>>) -> (Seq<char>, Binary) {
    (
        remove_spaces(first_or_empty(parts)),
        Binary::BINARY(parse_u32_or_zero(remove_spaces(second_or_empty(parts)))),
    )
}

/// Whether a picture without an `X` is numeric.
pub open spec fn is_numeric_picture(fs: Seq<char>) -> bool {
    ||| contains(fs, "9"@)
    ||| contains(fs, "Z"@)
    ||| contains(fs, "-"@)
    ||| contains(fs, "."@)
    ||| contains(fs, "$"@)
    ||| contains(fs, "*"@)
}

/// The record an entry becomes: an OCCURS group, an alphanumeric or a
/// numeric item (or its REDEFINES), a group (level above 0), or unknown.
pub open spec fn record_of(e: EntryView) -> RecordView {
    let fs = e.field_size;
    let redefines = contains(e.field_pos, " REDEFINES "@);
    let (ty, picture) = if e.sw_occurs {
        (TypeView::OCCURS, fs)
    } else if contains(fs, "X"@) {
        if redefines {
            (TypeView::PICXREDEFINES, fs)
        } else {
            let (p, b) = usage_of(fs);
            (TypeView::PICX((p, e.sw_occurs_inside, b)), p)
        }
    } else if is_numeric_picture(fs) {
        if redefines {
            (TypeView::PIC9REDEFINES, fs)
        } else {
            let (p, b) = usage_of(fs);
            (TypeView::PIC9((p, e.sw_occurs_inside, b)), p)
        }
    } else if e.pos > 0 {
        if redefines {
            (TypeView::STRUCTREDEFINES, fs)
        } else {
            (TypeView::STRUCT, fs)
        }
    } else {
        (TypeView::UNKNOWN, fs)
    };
    RecordView {
        pos: e.pos,
        name: e.name,
        occurs: e.occurs,
        field_type: ty,
        field_type_original: picture,
    }
}

fn without(s: &Vec<char>, pat: &str) -> (r: Vec<char>)
    requires
        pat@.len() > 0,
    ensures
        r@ == replace_all(s@, pat@, seq![]),
{
    let empty: Vec<char> = Vec::new();
    assert(empty@ =~= seq![]);
    replace_chars(s, &chars_of(pat), &empty)
}

/// A picture with a `BINARY(n)Y` usage, given the picture split at the
/// usage (see `binary_usage`).
pub fn binary_usage_exec(parts: &Vec<Vec<char>>) -> (r: (Vec<char>, Binary))
    ensures
        (r.0@, r.1) == binary_usage(char_seqs(parts@)),
{
    let first: Vec<char> = if parts.len() > 0 {
        parts[0].clone()
    } else {
        Vec::new()
    };
    let second: Vec<char> = if parts.len() > 1 {
        parts[1].clone()
    } else {
        Vec::new()
    };
    assert(first@ == first_or_empty(char_seqs(parts@)));
    assert(second@ == second_or_empty(char_seqs(parts@)));
    (
        remove_spaces_chars(&first),
        Binary::BINARY(parse_u32_or_zero_chars(&remove_spaces_chars(&second))),
    )
}

/// The usage named in a picture, and the picture without it.
pub fn usage_of_exec(fs: &Vec<char>, pats: &CobolPatterns) -> (r: (Vec<char>, Binary))
    requires
        pats.wf(),
    ensures
        (r.0@, r.1) == usage_of(fs@),
{
    proof {
        reveal_strlit("COMP-1");
        reveal_strlit("COMP-3");
        reveal_strlit("COMP-4");
        reveal_strlit("COMP-5");
        reveal_strlit("COMP-6");
        reveal_strlit("PACKED-DECIMAL");
    }
    if contains_str(fs, "COMP-1") {
        (without(fs, "COMP-1"), Binary::COMP1)
    } else if contains_str(fs, "COMP-3") {
        (without(fs, "COMP-3"), Binary::COMP3)
    } else if contains_str(fs, "COMP-4") {
        (without(fs, "COMP-4"), Binary::COMP4)
    } else if contains_str(fs, "COMP-5") {
        (without(fs, "COMP-5"), Binary::COMP5)
    } else if contains_str(fs, "COMP-6") {
        (without(fs, "COMP-6"), Binary::COMP6)
    } else if contains_str(fs, "PACKED-DECIMAL") {
        (without(fs, "PACKED-DECIMAL"), Binary::PACKEDDECIMAL)
    } else if contains_str(fs, "BINARY(") {
        let parts = pats.split_at_binary(fs);
        binary_usage_exec(&parts)
    } else {
        (fs.clone(), Binary::NONE)
    }
}

/// The record an entry becomes.
pub fn classify(e: LineDebug, pats: &CobolPatterns) -> (r: LineCobol)
    requires
        pats.wf(),
    ensures
        r@ == record_of(e@),
{
    let redefines = contains_str(&e.field_pos, " REDEFINES ");
    let fs = e.field_size;
    let (ty, picture) = if e.sw_occurs {
        (Type::OCCURS, fs)
    } else if contains_str(&fs, "X") {
        if redefines {
            (Type::PICXREDEFINES, fs)
        } else {
            let (p, b) = usage_of_exec(&fs, pats);
            let shown = p.clone();
            (Type::PICX((p, e.sw_occurs_inside, b)), shown)
        }
    } else if contains_str(&fs, "9") || contains_str(&fs, "Z") || contains_str(&fs, "-") || contains_str(&fs, ".") || contains_str(&fs, "$")
        || contains_str(&fs, "*") {
        if redefines {
            (Type::PIC9REDEFINES, fs)
        } else {
            let (p, b) = usage_of_exec(&fs, pats);
            let shown = p.clone();
            (Type::PIC9((p, e.sw_occurs_inside, b)), shown)
        }
    } else if e.pos > 0 {
        if redefines {
            (Type::STRUCTREDEFINES, fs)
        } else {
            (Type::STRUCT, fs)
        }
    } else {
        (Type::UNKNOWN, fs)
    };
    LineCobol {
        pos: e.pos,
        name: e.name,
        occurs: e.occurs,
        field_type: ty,
        field_type_original: picture,
    }
}

} // verus!
