//! Character-sequence operations: searching, replacing, splitting,
//! trimming, tokenizing, and decimal conversion in both directions.
use vstd::prelude::*;

verus! {

// ---------------------------------------------------------------------------
// Character classes
// ---------------------------------------------------------------------------

/// Unicode `White_Space` (the class `char::is_whitespace` tests).
pub open spec fn is_whitespace(c: char) -> bool {
    let u: u32 = c as u32;
    ||| 0x09 <= u <= 0x0D
    ||| u == 0x20
    ||| u == 0x85
    ||| u == 0xA0
    ||| u == 0x1680
    ||| 0x2000 <= u <= 0x200A
    ||| u == 0x2028
    ||| u == 0x2029
    ||| u == 0x202F
    ||| u == 0x205F
    ||| u == 0x3000
}

/// ASCII whitespace (space, tab, line feed, form feed, carriage return).
pub open spec fn is_ascii_whitespace(c: char) -> bool {
    c == ' ' || c == '\t' || c == '\n' || c == '\x0C' || c == '\r'
}

pub fn whitespace(c: char) -> (r: bool)
    ensures
        r == is_whitespace(c),
{
    let u: u32 = c as u32;
    (0x09 <= u && u <= 0x0D) || u == 0x20 || u == 0x85 || u == 0xA0 || u == 0x1680 || (0x2000
        <= u && u <= 0x200A) || u == 0x2028 || u == 0x2029 || u == 0x202F || u == 0x205F || u
        == 0x3000
}

pub fn ascii_whitespace(c: char) -> (r: bool)
    ensures
        r == is_ascii_whitespace(c),
{
    c == ' ' || c == '\t' || c == '\n' || c == '\x0C' || c == '\r'
}

// ---------------------------------------------------------------------------
// Slices of character vectors
// ---------------------------------------------------------------------------

/// The views of a sequence of character vectors.
pub open spec fn char_seqs(v: Seq<Vec<char>>) -> Seq<Seq<char>> {
    Seq::new(v.len(), |i: int| v[i]@)
}

/// The views of a sequence of strings.
pub open spec fn string_seqs(v: Seq<String>) -> Seq<Seq<char>> {
    Seq::new(v.len(), |i: int| v[i]@)
}

pub fn sub_chars(s: &Vec<char>, from: usize, to: usize) -> (r: Vec<char>)
    requires
        from <= to <= s.len(),
    ensures
        r@ == s@.subrange(from as int, to as int),
{
    let mut r: Vec<char> = Vec::new();
    let mut i: usize = from;
    while i < to
        invariant
            from <= i <= to <= s.len(),
            r@ == s@.subrange(from as int, i as int),
        decreases to - i,
    {
        r.push(s[i]);
        i += 1;
        assert(r@ =~= s@.subrange(from as int, i as int));
    }
    r
}

/// Appends `src` to the end of `dst`.
pub fn push_all(dst: &mut Vec<char>, src: &Vec<char>)
    ensures
        final(dst)@ == old(dst)@ + src@,
{
    let mut i: usize = 0;
    while i < src.len()
        invariant
            i <= src.len(),
            dst@ == old(dst)@ + src@.take(i as int),
        decreases src.len() - i,
    {
        dst.push(src[i]);
        i += 1;
        assert(dst@ =~= old(dst)@ + src@.take(i as int));
    }
    assert(src@.take(src.len() as int) =~= src@);
}

pub fn same_chars(a: &Vec<char>, b: &Vec<char>) -> (r: bool)
    ensures
        r == (a@ == b@),
{
    if a.len() != b.len() {
        return false;
    }
    let mut i: usize = 0;
    while i < a.len()
        invariant
            a.len() == b.len(),
            i <= a.len(),
            forall|j: int| 0 <= j < i ==> a@[j] == b@[j],
        decreases a.len() - i,
    {
        if a[i] != b[i] {
            return false;
        }
        i += 1;
    }
    assert(a@ =~= b@);
    true
}

// ---------------------------------------------------------------------------
// Searching
// ---------------------------------------------------------------------------

/// `pat` occurs in `s` at index `i`.
pub open spec fn matches_at(s: Seq<char>, pat: Seq<char>, i: int) -> bool {
    0 <= i && i + pat.len() <= s.len() && s.subrange(i, i + pat.len()) == pat
}

/// `pat` occurs somewhere in `s`.
pub open spec fn contains(s: Seq<char>, pat: Seq<char>) -> bool {
    exists|i: int| matches_at(s, pat, i)
}

/// The first index at or after `start` at which `pat` occurs in `s`.
pub open spec fn find_from(s: Seq<char>, pat: Seq<char>, start: int) -> Option<int>
    decreases s.len() - start,
{
    if start < 0 || start + pat.len() > s.len() {
        None
    } else if pat.len() == 0 || matches_at(s, pat, start) {
        Some(start)
    } else {
        find_from(s, pat, start + 1)
    }
}

pub proof fn lemma_find_from(s: Seq<char>, pat: Seq<char>, start: int)
    requires
        0 <= start,
    ensures
        find_from(s, pat, start) matches Some(i) ==> {
            &&& start <= i
            &&& i + pat.len() <= s.len()
            &&& matches_at(s, pat, i)
            &&& forall|j: int| start <= j < i ==> !matches_at(s, pat, j)
        },
        find_from(s, pat, start) is None ==> forall|j: int|
            start <= j ==> !matches_at(s, pat, j),
    decreases s.len() - start,
{
    if start + pat.len() > s.len() {
    } else if pat.len() == 0 {
        assert(s.subrange(start, start + pat.len()) =~= pat);
    } else if matches_at(s, pat, start) {
    } else {
        lemma_find_from(s, pat, start + 1);
    }
}

/// Whether `pat` occurs in `s` at index `i`.
pub fn matches_at_exec(s: &Vec<char>, pat: &Vec<char>, i: usize) -> (r: bool)
    requires
        i <= s.len(),
    ensures
        r == matches_at(s@, pat@, i as int),
{
    if pat.len() > s.len() - i {
        return false;
    }
    let mut k: usize = 0;
    while k < pat.len()
        invariant
            i + pat.len() <= s.len(),
            k <= pat.len(),
            forall|j: int| 0 <= j < k ==> s@[i + j] == pat@[j],
        decreases pat.len() - k,
    {
        if s[i + k] != pat[k] {
            assert(s@.subrange(i as int, i + pat.len())[k as int] != pat@[k as int]);
            return false;
        }
        k += 1;
    }
    assert(s@.subrange(i as int, i + pat.len()) =~= pat@);
    true
}

/// The first index at or after `start` at which `pat` occurs in `s`.
pub fn find_chars(s: &Vec<char>, pat: &Vec<char>, start: usize) -> (r: Option<usize>)
    requires
        start <= s.len(),
    ensures
        r matches Some(i) ==> find_from(s@, pat@, start as int) == Some(i as int),
        r is None ==> find_from(s@, pat@, start as int) is None,
{
    if pat.len() > s.len() - start {
        return None;
    }
    if pat.len() == 0 {
        return Some(start);
    }
    let mut i: usize = start;
    while pat.len() <= s.len() - i
        invariant
            start <= i <= s.len(),
            pat.len() > 0,
            find_from(s@, pat@, start as int) == find_from(s@, pat@, i as int),
        decreases s.len() - i,
    {
        if matches_at_exec(s, pat, i) {
            return Some(i);
        }
        i += 1;
    }
    None
}

/// Whether the characters of `pat` occur in `s`.
pub fn contains_str(s: &Vec<char>, pat: &str) -> (r: bool)
    ensures
        r == contains(s@, pat@),
{
    contains_chars(s, &chars_of(pat))
}

/// Whether `pat` occurs in `s`.
pub fn contains_chars(s: &Vec<char>, pat: &Vec<char>) -> (r: bool)
    ensures
        r == contains(s@, pat@),
{
    let f = find_chars(s, pat, 0);
    proof {
        lemma_find_from(s@, pat@, 0);
    }
    f.is_some()
}

// ---------------------------------------------------------------------------
// Replacing and splitting
// ---------------------------------------------------------------------------

/// `s[start..]` with each occurrence of `pat`, taken left to right without
/// overlap, replaced by `rep`.
pub open spec fn replace_from(s: Seq<char>, pat: Seq<char>, rep: Seq<char>, start: int) -> Seq<
    char,
>
    decreases s.len() - start,
{
    let f = find_from(s, pat, start);
    if pat.len() > 0 && 0 <= start && f is Some && start <= f->0 && f->0 + pat.len() <= s.len() {
        s.subrange(start, f->0) + rep + replace_from(s, pat, rep, f->0 + pat.len())
    } else {
        s.subrange(start, s.len() as int)
    }
}

/// `s` with each occurrence of a nonempty `pat`, taken left to right
/// without overlap, replaced by `rep` (what `str::replace` computes).
pub open spec fn replace_all(s: Seq<char>, pat: Seq<char>, rep: Seq<char>) -> Seq<char> {
    replace_from(s, pat, rep, 0)
}

/// `s` without its space characters.
pub open spec fn remove_spaces(s: Seq<char>) -> Seq<char> {
    replace_all(s, seq![' '], seq![])
}

pub fn replace_chars(s: &Vec<char>, pat: &Vec<char>, rep: &Vec<char>) -> (r: Vec<char>)
    requires
        pat.len() > 0,
    ensures
        r@ == replace_all(s@, pat@, rep@),
{
    let mut out: Vec<char> = Vec::new();
    let mut start: usize = 0;
    loop
        invariant
            pat.len() > 0,
            start <= s.len(),
            out@ + replace_from(s@, pat@, rep@, start as int) == replace_all(s@, pat@, rep@),
        decreases s.len() - start,
    {
        let f = find_chars(s, pat, start);
        proof {
            lemma_find_from(s@, pat@, start as int);
        }
        match f {
            None => {
                let tail = sub_chars(s, start, s.len());
                let ghost before = out@;
                push_all(&mut out, &tail);
                assert(out@ =~= before + replace_from(s@, pat@, rep@, start as int));
                return out;
            },
            Some(i) => {
                let piece = sub_chars(s, start, i);
                let ghost before = out@;
                push_all(&mut out, &piece);
                push_all(&mut out, rep);
                let ghost rest = replace_from(s@, pat@, rep@, (i + pat.len()) as int);
                assert(replace_from(s@, pat@, rep@, start as int) == s@.subrange(
                    start as int,
                    i as int,
                ) + rep@ + rest);
                assert(out@ + rest =~= before + replace_from(s@, pat@, rep@, start as int));
                start = i + pat.len();
            },
        }
    }
}

/// `s` without its space characters.
pub fn remove_spaces_chars(s: &Vec<char>) -> (r: Vec<char>)
    ensures
        r@ == remove_spaces(s@),
{
    let pat = vec![' '];
    let rep: Vec<char> = Vec::new();
    assert(pat@ =~= seq![' ']);
    assert(rep@ =~= Seq::<char>::empty());
    replace_chars(s, &pat, &rep)
}

/// The pieces of `s[start..]` between occurrences of `pat`, taken left to
/// right without overlap.
pub open spec fn split_from(s: Seq<char>, pat: Seq<char>, start: int) -> Seq<Seq<char>>
    decreases s.len() - start,
{
    let f = find_from(s, pat, start);
    if pat.len() > 0 && 0 <= start && f is Some && start <= f->0 && f->0 + pat.len() <= s.len() {
        seq![s.subrange(start, f->0)] + split_from(s, pat, f->0 + pat.len())
    } else {
        seq![s.subrange(start, s.len() as int)]
    }
}

/// The pieces of `s` between occurrences of a nonempty `pat` (what
/// `str::split` yields).
pub open spec fn split_on(s: Seq<char>, pat: Seq<char>) -> Seq<Seq<char>> {
    split_from(s, pat, 0)
}

pub fn split_chars(s: &Vec<char>, pat: &Vec<char>) -> (r: Vec<Vec<char>>)
    requires
        pat.len() > 0,
    ensures
        char_seqs(r@) == split_on(s@, pat@),
{
    let mut out: Vec<Vec<char>> = Vec::new();
    let mut start: usize = 0;
    loop
        invariant
            pat.len() > 0,
            start <= s.len(),
            char_seqs(out@) + split_from(s@, pat@, start as int) == split_on(s@, pat@),
        decreases s.len() - start,
    {
        let f = find_chars(s, pat, start);
        proof {
            lemma_find_from(s@, pat@, start as int);
        }
        let ghost before = char_seqs(out@);
        match f {
            None => {
                let tail = sub_chars(s, start, s.len());
                out.push(tail);
                assert(char_seqs(out@) =~= before + split_from(s@, pat@, start as int));
                return out;
            },
            Some(i) => {
                let piece = sub_chars(s, start, i);
                out.push(piece);
                let ghost rest = split_from(s@, pat@, (i + pat.len()) as int);
                assert(char_seqs(out@) =~= before + seq![s@.subrange(start as int, i as int)]);
                assert(char_seqs(out@) + rest =~= before + split_from(s@, pat@, start as int));
                start = i + pat.len();
            },
        }
    }
}

// ---------------------------------------------------------------------------
// Trimming and counting
// ---------------------------------------------------------------------------

/// `s` without its trailing whitespace (what `str::trim_end` yields).
pub open spec fn trim_end(s: Seq<char>) -> Seq<char>
    decreases s.len(),
{
    if s.len() > 0 && is_whitespace(s.last()) {
        trim_end(s.drop_last())
    } else {
        s
    }
}

pub fn trim_end_chars(s: &Vec<char>) -> (r: Vec<char>)
    ensures
        r@ == trim_end(s@),
{
    let mut end: usize = s.len();
    assert(s@.take(end as int) =~= s@);
    while end > 0 && whitespace(s[end - 1])
        invariant
            end <= s.len(),
            trim_end(s@.take(end as int)) == trim_end(s@),
        decreases end,
    {
        assert(s@.take(end as int).drop_last() =~= s@.take(end - 1));
        end -= 1;
    }
    sub_chars(s, 0, end)
}

/// The number of quote characters (`"` or `'`) in `s`.
pub open spec fn quote_count(s: Seq<char>) -> nat
    decreases s.len(),
{
    if s.len() == 0 {
        0
    } else {
        quote_count(s.drop_last()) + if s.last() == '"' || s.last() == '\'' {
            1nat
        } else {
            0nat
        }
    }
}

pub fn quote_count_chars(s: &Vec<char>) -> (r: usize)
    ensures
        r == quote_count(s@),
{
    let mut n: usize = 0;
    let mut i: usize = 0;
    while i < s.len()
        invariant
            i <= s.len(),
            n == quote_count(s@.take(i as int)),
            n <= i,
        decreases s.len() - i,
    {
        assert(s@.take(i + 1).drop_last() =~= s@.take(i as int));
        if s[i] == '"' || s[i] == '\'' {
            n += 1;
        }
        i += 1;
    }
    assert(s@.take(s.len() as int) =~= s@);
    n
}

// ---------------------------------------------------------------------------
// Whitespace-separated tokens
// ---------------------------------------------------------------------------

/// The end of the run of non-whitespace characters starting at `i`.
pub open spec fn word_end(s: Seq<char>, i: int) -> int
    decreases s.len() - i,
{
    if 0 <= i < s.len() && !is_ascii_whitespace(s[i]) {
        word_end(s, i + 1)
    } else {
        i
    }
}

/// The maximal runs of non-ASCII-whitespace characters in `s[i..]`, in
/// order (what `str::split_ascii_whitespace` yields).
pub open spec fn tokens_from(s: Seq<char>, i: int) -> Seq<Seq<char>>
    decreases s.len() - i,
{
    if i < 0 || i >= s.len() {
        seq![]
    } else if is_ascii_whitespace(s[i]) {
        tokens_from(s, i + 1)
    } else {
        let e = word_end(s, i);
        if i < e <= s.len() {
            seq![s.subrange(i, e)] + tokens_from(s, e)
        } else {
            seq![]
        }
    }
}

pub open spec fn ascii_tokens(s: Seq<char>) -> Seq<Seq<char>> {
    tokens_from(s, 0)
}

proof fn lemma_word_end(s: Seq<char>, i: int)
    requires
        0 <= i <= s.len(),
    ensures
        i <= word_end(s, i) <= s.len(),
    decreases s.len() - i,
{
    if i < s.len() && !is_ascii_whitespace(s[i]) {
        lemma_word_end(s, i + 1);
    }
}

pub fn ascii_tokens_chars(s: &Vec<char>) -> (r: Vec<Vec<char>>)
    ensures
        char_seqs(r@) == ascii_tokens(s@),
{
    let mut out: Vec<Vec<char>> = Vec::new();
    let mut i: usize = 0;
    while i < s.len()
        invariant
            i <= s.len(),
            char_seqs(out@) + tokens_from(s@, i as int) == ascii_tokens(s@),
        decreases s.len() - i,
    {
        if ascii_whitespace(s[i]) {
            i += 1;
        } else {
            let mut j: usize = i;
            while j < s.len() && !ascii_whitespace(s[j])
                invariant
                    i <= j <= s.len(),
                    word_end(s@, i as int) == word_end(s@, j as int),
                decreases s.len() - j,
            {
                j += 1;
            }
            proof {
                lemma_word_end(s@, i as int);
                lemma_word_end(s@, i + 1);
            }
            let word = sub_chars(s, i, j);
            let ghost before = char_seqs(out@);
            out.push(word);
            assert(char_seqs(out@) =~= before + seq![s@.subrange(i as int, j as int)]);
            assert(char_seqs(out@) + tokens_from(s@, j as int) =~= before + tokens_from(
                s@,
                i as int,
            ));
            i = j;
        }
    }
    out
}

// ---------------------------------------------------------------------------
// Decimal numbers
// ---------------------------------------------------------------------------

pub open spec fn is_digit(c: char) -> bool {
    '0' <= c <= '9'
}

/// The value of a string of decimal digits.
pub open spec fn digits_value(s: Seq<char>) -> nat
    decreases s.len(),
{
    if s.len() == 0 {
        0
    } else {
        digits_value(s.drop_last()) * 10 + (s.last() as nat - '0' as nat) as nat
    }
}

/// Every character of `d` is a decimal digit.
pub open spec fn all_digits(d: Seq<char>) -> bool {
    forall|i: int| 0 <= i < d.len() ==> is_digit(#[trigger] d[i])
}

/// The value of `d` where it is one or more digits with a value of at most
/// `bound`.
pub open spec fn bounded_digits(d: Seq<char>, bound: nat) -> Option<nat> {
    if d.len() > 0 && all_digits(d) && digits_value(d) <= bound {
        Some(digits_value(d))
    } else {
        None
    }
}

/// What `str::parse::<u32>` gives: an optional `+` followed by one or more
/// ASCII digits whose value fits in a `u32`.
pub open spec fn parse_u32(s: Seq<char>) -> Option<u32> {
    match bounded_digits(unsigned_part(s), u32::MAX as nat) {
        Some(v) => Some(v as u32),
        None => None,
    }
}

/// `s` without one leading `+`.
pub open spec fn unsigned_part(s: Seq<char>) -> Seq<char> {
    if s.len() > 0 && s[0] == '+' {
        s.drop_first()
    } else {
        s
    }
}

/// `parse_u32(s)`, or 0 where `s` is no number.
pub open spec fn parse_u32_or_zero(s: Seq<char>) -> u32 {
    match parse_u32(s) {
        Some(v) => v,
        None => 0,
    }
}

/// What `str::parse::<i32>` gives: an optional `+` or `-` followed by one or
/// more ASCII digits whose value fits in an `i32`.
pub open spec fn parse_i32(s: Seq<char>) -> Option<i32> {
    if s.len() > 0 && s[0] == '-' {
        match bounded_digits(s.drop_first(), 0x8000_0000) {
            Some(v) => Some((0 - v) as i32),
            None => None,
        }
    } else {
        match bounded_digits(unsigned_part(s), i32::MAX as nat) {
            Some(v) => Some(v as i32),
            None => None,
        }
    }
}

/// `parse_i32(s)`, or 0 where `s` is no number.
pub open spec fn parse_i32_or_zero(s: Seq<char>) -> i32 {
    match parse_i32(s) {
        Some(v) => v,
        None => 0,
    }
}

proof fn lemma_digits_value_prefix(s: Seq<char>, k: int)
    requires
        0 <= k <= s.len(),
        all_digits(s),
    ensures
        digits_value(s.take(k)) <= digits_value(s),
    decreases s.len() - k,
{
    if k < s.len() {
        lemma_digits_value_prefix(s, k + 1);
        assert(s.take(k + 1).drop_last() =~= s.take(k));
    } else {
        assert(s.take(k) =~= s);
    }
}

/// The value of the digits `s[from..]` where they are one or more and their
/// value is at most `bound`.
pub fn bounded_digits_chars(s: &Vec<char>, from: usize, bound: u32) -> (r: Option<u32>)
    requires
        from <= s.len(),
        bound >= 9,
    ensures
        r matches Some(v) ==> bounded_digits(s@.skip(from as int), bound as nat) == Some(v as nat),
        r is None <==> bounded_digits(s@.skip(from as int), bound as nat) is None,
{
    let ghost d = s@.skip(from as int);
    if from == s.len() {
        return None;
    }
    let mut value: u32 = 0;
    let mut i: usize = from;
    while i < s.len()
        invariant
            from <= i <= s.len(),
            bound >= 9,
            d == s@.skip(from as int),
            forall|k: int| 0 <= k < i - from ==> is_digit(#[trigger] d[k]),
            value == digits_value(d.take(i - from)),
            value <= bound,
        decreases s.len() - i,
    {
        let c = s[i];
        assert(d[i - from] == c);
        if !('0' <= c && c <= '9') {
            assert(!is_digit(d[i - from]));
            return None;
        }
        let digit: u32 = (c as u32) - ('0' as u32);
        assert(d.take(i - from + 1).drop_last() =~= d.take(i - from));
        if value > (bound - digit) / 10 {
            proof {
                if all_digits(d) {
                    lemma_digits_value_prefix(d, i - from + 1);
                    let t = d.take(i - from + 1);
                    assert(t.last() == c);
                    assert(digits_value(t) == digits_value(t.drop_last()) * 10 + digit);
                    assert(value * 10 + digit > bound) by (nonlinear_arith)
                        requires
                            value > (bound - digit) / 10,
                            digit <= 9,
                            bound >= 9,
                    ;
                }
            }
            return None;
        }
        assert(value * 10 + digit <= bound) by (nonlinear_arith)
            requires
                value <= (bound - digit) / 10,
                digit <= 9,
                bound >= 9,
        ;
        value = value * 10 + digit;
        i += 1;
    }
    assert(d.take(s.len() - from) =~= d);
    Some(value)
}

pub fn parse_u32_chars(s: &Vec<char>) -> (r: Option<u32>)
    ensures
        r == parse_u32(s@),
{
    let start: usize = if s.len() > 0 && s[0] == '+' {
        1
    } else {
        0
    };
    assert(unsigned_part(s@) =~= s@.skip(start as int));
    bounded_digits_chars(s, start, u32::MAX)
}

/// `parse_u32(s)`, or 0 where `s` is no number.
pub fn parse_u32_or_zero_chars(s: &Vec<char>) -> (r: u32)
    ensures
        r == parse_u32_or_zero(s@),
{
    match parse_u32_chars(s) {
        Some(v) => v,
        None => 0,
    }
}

pub fn parse_i32_chars(s: &Vec<char>) -> (r: Option<i32>)
    ensures
        r == parse_i32(s@),
{
    if s.len() > 0 && s[0] == '-' {
        assert(s@.drop_first() =~= s@.skip(1));
        match bounded_digits_chars(s, 1, 0x8000_0000) {
            Some(v) => {
                let n: i64 = 0 - (v as i64);
                Some(n as i32)
            },
            None => None,
        }
    } else {
        let start: usize = if s.len() > 0 && s[0] == '+' {
            1
        } else {
            0
        };
        assert(unsigned_part(s@) =~= s@.skip(start as int));
        match bounded_digits_chars(s, start, 0x7fff_ffff) {
            Some(v) => Some(v as i32),
            None => None,
        }
    }
}

/// `parse_i32(s)`, or 0 where `s` is no number.
pub fn parse_i32_or_zero_chars(s: &Vec<char>) -> (r: i32)
    ensures
        r == parse_i32_or_zero(s@),
{
    match parse_i32_chars(s) {
        Some(v) => v,
        None => 0,
    }
}

pub open spec fn digit_char(d: nat) -> char {
    (d + '0' as nat) as char
}

/// The decimal representation of `n` (what `{}` formats).
pub open spec fn decimal(n: nat) -> Seq<char>
    decreases n,
{
    if n < 10 {
        seq![digit_char(n)]
    } else {
        decimal(n / 10).push(digit_char(n % 10))
    }
}

pub fn decimal_chars(n: u32) -> (r: Vec<char>)
    ensures
        r@ == decimal(n as nat),
    decreases n,
{
    let d: u32 = n % 10;
    let c = char_of_digit(d);
    if n < 10 {
        let v = vec![c];
        assert(v@ =~= seq![c]);
        v
    } else {
        let mut v = decimal_chars(n / 10);
        v.push(c);
        v
    }
}

fn char_of_digit(d: u32) -> (c: char)
    requires
        d < 10,
    ensures
        c == digit_char(d as nat),
{
    match d {
        0 => '0',
        1 => '1',
        2 => '2',
        3 => '3',
        4 => '4',
        5 => '5',
        6 => '6',
        7 => '7',
        8 => '8',
        _ => '9',
    }
}

// ---------------------------------------------------------------------------
// Padding
// ---------------------------------------------------------------------------

/// `n` copies of `c`.
pub open spec fn repeat_char(c: char, n: nat) -> Seq<char> {
    Seq::new(n, |i: int| c)
}

/// `s` preceded by `fill` up to `width` characters (right alignment).
pub open spec fn pad_left(s: Seq<char>, width: nat, fill: char) -> Seq<char> {
    if s.len() >= width {
        s
    } else {
        repeat_char(fill, (width - s.len()) as nat) + s
    }
}

/// `s` followed by spaces up to `width` characters (left alignment).
pub open spec fn pad_right(s: Seq<char>, width: nat) -> Seq<char> {
    if s.len() >= width {
        s
    } else {
        s + repeat_char(' ', (width - s.len()) as nat)
    }
}

pub fn pad_left_chars(s: &Vec<char>, width: usize, fill: char) -> (r: Vec<char>)
    ensures
        r@ == pad_left(s@, width as nat, fill),
{
    let mut r: Vec<char> = Vec::new();
    let mut k: usize = s.len();
    while k < width
        invariant
            s.len() <= k <= width || (k == s.len() && s.len() >= width),
            r@ == repeat_char(fill, (k - s.len()) as nat),
        decreases width - k,
    {
        r.push(fill);
        k += 1;
        assert(r@ =~= repeat_char(fill, (k - s.len()) as nat));
    }
    push_all(&mut r, s);
    if s.len() >= width {
        assert(r@ =~= s@);
    }
    r
}

pub fn pad_right_chars(s: &Vec<char>, width: usize) -> (r: Vec<char>)
    ensures
        r@ == pad_right(s@, width as nat),
{
    let mut r: Vec<char> = Vec::new();
    push_all(&mut r, s);
    assert(r@ =~= s@);
    let mut k: usize = s.len();
    while k < width
        invariant
            s.len() <= k <= width || (k == s.len() && s.len() >= width),
            r@ == s@ + repeat_char(' ', (k - s.len()) as nat),
        decreases width - k,
    {
        r.push(' ');
        k += 1;
        assert(r@ =~= s@ + repeat_char(' ', (k - s.len()) as nat));
    }
    if s.len() >= width {
        assert(r@ =~= s@);
    }
    r
}



/// The characters of `s`.
pub fn chars_of(s: &str) -> (v: Vec<char>)
    ensures
        v@ == s@,
{
    broadcast use vstd::string::group_string_axioms;

    let mut v: Vec<char> = Vec::new();
    for c in it: s.chars()
        invariant
            v@ == it.seq().take(it.index() as int),
    {
        v.push(c);
    }
    v
}

} // verus!
