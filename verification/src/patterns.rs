//! The regular expressions that recognise the parts of a copybook entry.
use vstd::prelude::*;
use crate::external::{
    compile_regex, regex_compiles, regex_find_all, regex_matches, regex_split_limited,
    regex_splitn, CompiledRegex,
};
use crate::text::char_seqs;

verus! {

/// The keyword that starts a PICTURE or an OCCURS clause.
pub open spec fn clause_pattern() -> Seq<char> {
    " PIC| OCCURS"@
}

/// The keywords that end a picture string.
pub open spec fn value_pattern() -> Seq<char> {
    "VALUE|BLANK ZERO"@
}

/// The PICTURE keyword inside an OCCURS clause.
pub open spec fn pic_pattern() -> Seq<char> {
    "PIC"@
}

/// A `BINARY(n)` usage, as the RM/COBOL manual spells it.
pub open spec fn binary_pattern() -> Seq<char> {
    "BINARY\\((\\d{1,})\\)Y"@
}

/// The symbols of an alphanumeric picture.
pub open spec fn x_symbol_pattern() -> Seq<char> {
    "X\\((\\d{1,})\\)|X"@
}

/// The symbols of a numeric picture.
pub open spec fn nine_symbol_pattern() -> Seq<char> {
    "9\\((\\d{1,})\\)|Z\\((\\d{1,})\\)|9|Z|\\-|.|V|S"@
}

/// Whether every pattern compiles.
pub open spec fn all_patterns_compile() -> bool {
    &&& regex_compiles(clause_pattern())
    &&& regex_compiles(value_pattern())
    &&& regex_compiles(pic_pattern())
    &&& regex_compiles(binary_pattern())
    &&& regex_compiles(x_symbol_pattern())
    &&& regex_compiles(nine_symbol_pattern())
}

/// The compiled patterns.
pub struct CobolPatterns {
    clause: CompiledRegex,
    value: CompiledRegex,
    pic: CompiledRegex,
    binary: CompiledRegex,
    x_symbol: CompiledRegex,
    nine_symbol: CompiledRegex,
}

impl CobolPatterns {
    /// Each expression was compiled from its pattern.
    pub closed spec fn wf(&self) -> bool {
        &&& self.clause.source() == clause_pattern()
        &&& self.value.source() == value_pattern()
        &&& self.pic.source() == pic_pattern()
        &&& self.binary.source() == binary_pattern()
        &&& self.x_symbol.source() == x_symbol_pattern()
        &&& self.nine_symbol.source() == nine_symbol_pattern()
    }

    /// Compiles every pattern; the first that `regex` refuses gives the error.
    pub fn new() -> (r: Result<CobolPatterns, regex::Error>)
        ensures
            r is Ok <==> all_patterns_compile(),
            r matches Ok(p) ==> p.wf(),
    {
        let clause = compile_regex(" PIC| OCCURS")?;
        let value = compile_regex("VALUE|BLANK ZERO")?;
        let pic = compile_regex("PIC")?;
        let binary = compile_regex("BINARY\\((\\d{1,})\\)Y")?;
        let x_symbol = compile_regex("X\\((\\d{1,})\\)|X")?;
        let nine_symbol = compile_regex("9\\((\\d{1,})\\)|Z\\((\\d{1,})\\)|9|Z|\\-|.|V|S")?;
        Ok(CobolPatterns { clause, value, pic, binary, x_symbol, nine_symbol })
    }

    /// The PICTURE and OCCURS keywords found in `text`.
    pub fn clause_keywords(&self, text: &Vec<char>) -> (r: Vec<Vec<char>>)
        requires
            self.wf(),
        ensures
            char_seqs(r@) == regex_matches(clause_pattern(), text@),
    {
        regex_find_all(&self.clause, text)
    }

    /// `text` split at its first PICTURE or OCCURS keyword.
    pub fn split_at_clause(&self, text: &Vec<char>) -> (r: Vec<Vec<char>>)
        requires
            self.wf(),
        ensures
            char_seqs(r@) == regex_splitn(clause_pattern(), text@, 2),
    {
        regex_split_limited(&self.clause, text, 2)
    }

    /// `text` split at its first VALUE or BLANK ZERO keyword.
    pub fn split_at_value(&self, text: &Vec<char>) -> (r: Vec<Vec<char>>)
        requires
            self.wf(),
        ensures
            char_seqs(r@) == regex_splitn(value_pattern(), text@, 2),
    {
        regex_split_limited(&self.value, text, 2)
    }

    /// `text` split at its first PIC keyword.
    pub fn split_at_pic(&self, text: &Vec<char>) -> (r: Vec<Vec<char>>)
        requires
            self.wf(),
        ensures
            char_seqs(r@) == regex_splitn(pic_pattern(), text@, 2),
    {
        regex_split_limited(&self.pic, text, 2)
    }

    /// `text` split at its first `BINARY(n)Y` usage.
    pub fn split_at_binary(&self, text: &Vec<char>) -> (r: Vec<Vec<char>>)
        requires
            self.wf(),
        ensures
            char_seqs(r@) == regex_splitn(binary_pattern(), text@, 2),
    {
        regex_split_limited(&self.binary, text, 2)
    }

    /// The symbols of the alphanumeric picture `text`.
    pub fn x_symbols(&self, text: &Vec<char>) -> (r: Vec<Vec<char>>)
        requires
            self.wf(),
        ensures
            char_seqs(r@) == regex_matches(x_symbol_pattern(), text@),
    {
        regex_find_all(&self.x_symbol, text)
    }

    /// The symbols of the numeric picture `text`.
    pub fn nine_symbols(&self, text: &Vec<char>) -> (r: Vec<Vec<char>>)
        requires
            self.wf(),
        ensures
            char_seqs(r@) == regex_matches(nine_symbol_pattern(), text@),
    {
        regex_find_all(&self.nine_symbol, text)
    }
}

} // verus!
