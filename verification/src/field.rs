//! Field types: the kind of each entry, its usage, and its size in bytes.
use vstd::prelude::*;
use crate::external::{regex_matches, string_of};
use crate::patterns::{nine_symbol_pattern, x_symbol_pattern, CobolPatterns};
use crate::text::{
    char_seqs, chars_of, contains, contains_str, decimal, decimal_chars, parse_u32_or_zero,
    parse_u32_or_zero_chars, push_all, replace_all, replace_chars,
};

verus! {

/// The USAGE of an elementary item.
#[derive(Clone, Copy, PartialEq, Eq, Structural)]
pub enum Binary {
    COMP1,
    COMP3,
    COMP4,
    COMP5,
    COMP6,
    PACKEDDECIMAL,
    BINARY(u32),
    NONE,
}

/// The text of a usage, as a copybook writes it.
pub open spec fn binary_text(b: Binary) -> Seq<char> {
    match b {
        Binary::COMP1 => "COMP-1"@,
        Binary::COMP3 => "COMP-3"@,
        Binary::COMP4 => "COMP-4"@,
        Binary::COMP5 => "COMP-5"@,
        Binary::COMP6 => "COMP-6"@,
        Binary::PACKEDDECIMAL => "PACKED-DECIMAL"@,
        Binary::BINARY(v) => "BINARY("@ + decimal(v as nat) + ")"@,
        Binary::NONE => seq![],
    }
}

impl Binary {
    /// The text of this usage, as characters.
    pub fn text_chars(&self) -> (r: Vec<char>)
        ensures
            r@ == binary_text(*self),
    {
        match self {
            Binary::COMP1 => chars_of("COMP-1"),
            Binary::COMP3 => chars_of("COMP-3"),
            Binary::COMP4 => chars_of("COMP-4"),
            Binary::COMP5 => chars_of("COMP-5"),
            Binary::COMP6 => chars_of("COMP-6"),
            Binary::PACKEDDECIMAL => chars_of("PACKED-DECIMAL"),
            Binary::BINARY(v) => {
                let mut r = chars_of("BINARY(");
                push_all(&mut r, &decimal_chars(*v));
                push_all(&mut r, &chars_of(")"));
                r
            },
            Binary::NONE => Vec::new(),
        }
    }

    /// The text of this usage.
    pub fn text(&self) -> (r: String)
        ensures
            r@ == binary_text(*self),
    {
        string_of(&self.text_chars())
    }
}

/// The kind of an entry.
pub enum Type {
    /// Alphanumeric picture, whether an OCCURS clause precedes it, usage.
    PICX((Vec<char>, bool, Binary)),
    PICXREDEFINES,
    /// Numeric picture, whether an OCCURS clause precedes it, usage.
    PIC9((Vec<char>, bool, Binary)),
    PIC9REDEFINES,
    STRUCT,
    STRUCTREDEFINES,
    OCCURS,
    UNKNOWN,
    /// A group with the size of its members.
    STRUCTSIZED(u32),
    /// An OCCURS group with the size of one occurrence.
    OCCURSSIZED(u32),
}

/// The mathematical value of a `Type`.
pub enum TypeView {
    PICX((Seq<char>, bool, Binary)),
    PICXREDEFINES,
    PIC9((Seq<char>, bool, Binary)),
    PIC9REDEFINES,
    STRUCT,
    STRUCTREDEFINES,
    OCCURS,
    UNKNOWN,
    STRUCTSIZED(u32),
    OCCURSSIZED(u32),
}

impl View for Type {
    type V = TypeView;

    open spec fn view(&self) -> TypeView {
        match self {
            Type::PICX((p, inside, b)) => TypeView::PICX((p@, *inside, *b)),
            Type::PICXREDEFINES => TypeView::PICXREDEFINES,
            Type::PIC9((p, inside, b)) => TypeView::PIC9((p@, *inside, *b)),
            Type::PIC9REDEFINES => TypeView::PIC9REDEFINES,
            Type::STRUCT => TypeView::STRUCT,
            Type::STRUCTREDEFINES => TypeView::STRUCTREDEFINES,
            Type::OCCURS => TypeView::OCCURS,
            Type::UNKNOWN => TypeView::UNKNOWN,
            Type::STRUCTSIZED(v) => TypeView::STRUCTSIZED(*v),
            Type::OCCURSSIZED(v) => TypeView::OCCURSSIZED(*v),
        }
    }
}

/// The digits of a repeated symbol `s(n)`: the symbol's opening and every
/// closing parenthesis removed.
pub open spec fn strip_repeat(t: Seq<char>, opening: Seq<char>) -> Seq<char> {
    replace_all(replace_all(t, opening, seq![]), ")"@, seq![])
}

/// The bytes one symbol of an alphanumeric picture stands for: the text
/// left once `X(` and every `)` are removed from `X(n)` (the symbol itself
/// otherwise) counts one if it holds an `X`, and its number otherwise (0
/// where it is none).
pub open spec fn x_symbol_size(t: Seq<char>) -> nat {
    let digits = if contains(t, "X("@) {
        strip_repeat(t, "X("@)
    } else {
        t
    };
    if contains(digits, "X"@) {
        1
    } else {
        parse_u32_or_zero(digits) as nat
    }
}

/// Whether `s` holds a symbol that counts one byte in a numeric picture.
pub open spec fn has_unit_symbol(s: Seq<char>) -> bool {
    ||| contains(s, "9"@)
    ||| contains(s, "Z"@)
    ||| contains(s, "-"@)
    ||| contains(s, "."@)
    ||| contains(s, "V"@)
    ||| contains(s, "S"@)
    ||| contains(s, "$"@)
    ||| contains(s, "*"@)
}

/// The bytes one symbol of a numeric picture stands for: the text left
/// once `9(` (or `Z(`) and every `)` are removed from `9(n)` (or `Z(n)`),
/// and the symbol itself otherwise, counts one if it holds a one-position
/// symbol (`9`, `Z`, `-`, `.`, `V`, `S`, `$`, `*`), and its number otherwise
/// (0 where it is none). So a repeat count that holds the digit 9, as in
/// `9(9)`, counts one.
pub open spec fn nine_symbol_size(t: Seq<char>) -> nat {
    let digits = if contains(t, "9("@) {
        strip_repeat(t, "9("@)
    } else if contains(t, "Z("@) {
        strip_repeat(t, "Z("@)
    } else {
        t
    };
    if has_unit_symbol(digits) {
        1
    } else {
        parse_u32_or_zero(digits) as nat
    }
}

pub open spec fn symbol_size(t: Seq<char>, numeric: bool) -> nat {
    if numeric {
        nine_symbol_size(t)
    } else {
        x_symbol_size(t)
    }
}

/// The sum of the sizes of the symbols `ts`.
pub open spec fn symbols_size(ts: Seq<Seq<char>>, numeric: bool) -> nat
    decreases ts.len(),
{
    if ts.len() == 0 {
        0
    } else {
        symbols_size(ts.drop_last(), numeric) + symbol_size(ts.last(), numeric)
    }
}

/// The size in bytes of a field of type `t`, where it has one.
pub open spec fn type_size(t: TypeView) -> Option<nat> {
    match t {
        TypeView::PICX((p, _, _)) => Some(symbols_size(regex_matches(x_symbol_pattern(), p), false)),
        TypeView::PIC9((p, _, _)) => Some(
            symbols_size(regex_matches(nine_symbol_pattern(), p), true),
        ),
        TypeView::STRUCTSIZED(v) => Some(v as nat),
        TypeView::OCCURSSIZED(v) => Some(v as nat),
        _ => None,
    }
}

/// A size that does not fit in 32 bits.
#[derive(Debug)]
pub struct SizeOverflow;

/// `Ok(type_size(t))` where that fits in a `u32`, the overflow otherwise.
pub open spec fn size_result(t: TypeView, r: Result<Option<u32>, SizeOverflow>) -> bool {
    match type_size(t) {
        None => r == Ok::<Option<u32>, SizeOverflow>(None),
        Some(n) => if n <= u32::MAX {
            r == Ok::<Option<u32>, SizeOverflow>(Some(n as u32))
        } else {
            r is Err
        },
    }
}

proof fn lemma_symbols_size_prefix(ts: Seq<Seq<char>>, numeric: bool, k: int)
    requires
        0 <= k <= ts.len(),
    ensures
        symbols_size(ts.take(k), numeric) <= symbols_size(ts, numeric),
    decreases ts.len() - k,
{
    if k < ts.len() {
        lemma_symbols_size_prefix(ts, numeric, k + 1);
        assert(ts.take(k + 1).drop_last() =~= ts.take(k));
    } else {
        assert(ts.take(k) =~= ts);
    }
}

fn strip_repeat_exec(t: &Vec<char>, opening: &str) -> (r: Vec<char>)
    requires
        opening@.len() > 0,
    ensures
        r@ == strip_repeat(t@, opening@),
{
    let empty: Vec<char> = Vec::new();
    let close = chars_of(")");
    proof {
        reveal_strlit(")");
    }
    assert(empty@ =~= seq![]);
    replace_chars(&replace_chars(t, &chars_of(opening), &empty), &close, &empty)
}

pub fn x_symbol_size_exec(t: &Vec<char>) -> (r: u32)
    ensures
        r == x_symbol_size(t@),
{
    proof {
        reveal_strlit("X(");
    }
    let digits = if contains_str(t, "X(") {
        strip_repeat_exec(t, "X(")
    } else {
        t.clone()
    };
    assert(digits@ == if contains(t@, "X("@) {
        strip_repeat(t@, "X("@)
    } else {
        t@
    });
    if contains_str(&digits, "X") {
        1
    } else {
        parse_u32_or_zero_chars(&digits)
    }
}

pub fn nine_symbol_size_exec(t: &Vec<char>) -> (r: u32)
    ensures
        r == nine_symbol_size(t@),
{
    proof {
        reveal_strlit("9(");
        reveal_strlit("Z(");
    }
    let digits = if contains_str(t, "9(") {
        strip_repeat_exec(t, "9(")
    } else if contains_str(t, "Z(") {
        strip_repeat_exec(t, "Z(")
    } else {
        t.clone()
    };
    assert(digits@ == if contains(t@, "9("@) {
        strip_repeat(t@, "9("@)
    } else if contains(t@, "Z("@) {
        strip_repeat(t@, "Z("@)
    } else {
        t@
    });
    if contains_str(&digits, "9") || contains_str(&digits, "Z") || contains_str(&digits, "-")
        || contains_str(&digits, ".") || contains_str(&digits, "V") || contains_str(&digits, "S")
        || contains_str(&digits, "$") || contains_str(&digits, "*") {
        1
    } else {
        parse_u32_or_zero_chars(&digits)
    }
}

/// The total size of the picture symbols `ts`, where it fits in a `u32`.
pub fn symbols_size_exec(ts: &Vec<Vec<char>>, numeric: bool) -> (r: Option<u32>)
    ensures
        r matches Some(v) ==> v == symbols_size(char_seqs(ts@), numeric),
        r is None <==> symbols_size(char_seqs(ts@), numeric) > u32::MAX,
{
    let ghost all = char_seqs(ts@);
    let mut total: u32 = 0;
    let mut i: usize = 0;
    while i < ts.len()
        invariant
            i <= ts.len(),
            all == char_seqs(ts@),
            total == symbols_size(all.take(i as int), numeric),
        decreases ts.len() - i,
    {
        assert(all.take(i + 1).drop_last() =~= all.take(i as int));
        assert(all.take(i + 1).last() == ts@[i as int]@);
        let size = if numeric {
            nine_symbol_size_exec(&ts[i])
        } else {
            x_symbol_size_exec(&ts[i])
        };
        if size > u32::MAX - total {
            proof {
                lemma_symbols_size_prefix(all, numeric, i + 1);
            }
            return None;
        }
        total = total + size;
        i += 1;
    }
    assert(all.take(ts.len() as int) =~= all);
    Some(total)
}

impl Type {
    /// The size in bytes of a field of this type, where it has one.
    pub fn size(&self, pats: &CobolPatterns) -> (r: Result<Option<u32>, SizeOverflow>)
        requires
            pats.wf(),
        ensures
            size_result(self@, r),
    {
        match self {
            Type::PICX((p, _, _)) => match symbols_size_exec(&pats.x_symbols(p), false) {
                Some(v) => Ok(Some(v)),
                None => Err(SizeOverflow),
            },
            Type::PIC9((p, _, _)) => match symbols_size_exec(&pats.nine_symbols(p), true) {
                Some(v) => Ok(Some(v)),
                None => Err(SizeOverflow),
            },
            Type::STRUCTSIZED(v) => Ok(Some(*v)),
            Type::OCCURSSIZED(v) => Ok(Some(*v)),
            _ => Ok(None),
        }
    }
}

} // verus!
