use cobol_sizer::config::Config;
use cobol_sizer::entry::{apply_picture_occurs, assemble_entry, LineDebug};
use cobol_sizer::record::binary_usage_exec;
use cobol_sizer::field::{Binary, Type};
use cobol_sizer::layout::{count_unknown, group_sizes, layout, records_over_limit, total_size};
use cobol_sizer::patterns::CobolPatterns;
use cobol_sizer::program::{run, total_text};
use cobol_sizer::record::LineCobol;
use cobol_sizer::report::{display, next_levels_exec};
use cobol_sizer::source::{filter_source, split_statements};
use cobol_sizer::text::{
    ascii_tokens_chars, chars_of, decimal_chars, pad_left_chars, pad_right_chars,
    parse_u32_chars, remove_spaces_chars, replace_chars, split_chars, trim_end_chars,
};

fn chars(s: &str) -> Vec<char> {
    s.chars().collect()
}

fn text(v: &[char]) -> String {
    v.iter().collect()
}

fn lines(src: &[&str]) -> Vec<String> {
    src.iter().map(|s| s.to_string()).collect()
}

fn sample() -> Vec<String> {
    lines(&[
        "      * Sample record",
        "       01 CLIENT.",
        "          05 NAME PIC X(30).",
        "          05 AGE PIC 9(3).",
        "          05 ADDR OCCURS 2.",
        "             10 STREET PIC X(20).",
        "             10 ZIP PIC 9(5).",
        "          05 BAL PIC S9(7)V99 COMP-3.",
    ])
}

fn config(result: bool, limit: bool, src: bool, compute: bool, groups: bool, sep: bool) -> Config {
    Config::from_flags("copy.cpy".to_string(), result, limit, src, compute, groups, sep)
}

fn records_of(src: &[&str]) -> Vec<LineCobol> {
    let pats = CobolPatterns::new().unwrap();
    let contents = filter_source(&lines(src));
    layout(&contents, &pats)
}

// ---------------------------------------------------------------------------
// Text operations
// ---------------------------------------------------------------------------

#[test]
fn parse_u32_accepts_plus_and_digits_only() {
    assert_eq!(parse_u32_chars(&chars("42")), Some(42));
    assert_eq!(parse_u32_chars(&chars("+7")), Some(7));
    assert_eq!(parse_u32_chars(&chars("007")), Some(7));
    assert_eq!(parse_u32_chars(&chars("")), None);
    assert_eq!(parse_u32_chars(&chars("+")), None);
    assert_eq!(parse_u32_chars(&chars("-1")), None);
    assert_eq!(parse_u32_chars(&chars(" 1")), None);
    assert_eq!(parse_u32_chars(&chars("4294967295")), Some(4294967295));
    assert_eq!(parse_u32_chars(&chars("4294967296")), None);
    assert_eq!(parse_u32_chars(&chars("99999999999x")), None);
}

#[test]
fn decimal_parses_back() {
    for n in [0u32, 7, 10, 65280, 4294967295] {
        let d = decimal_chars(n);
        assert_eq!(text(&d), n.to_string());
        assert_eq!(parse_u32_chars(&d), Some(n));
    }
}

#[test]
fn replace_and_remove_spaces() {
    assert_eq!(text(&replace_chars(&chars("9(7)V99COMP-3"), &chars("COMP-3"), &chars(""))), "9(7)V99");
    assert_eq!(text(&replace_chars(&chars("aaa"), &chars("aa"), &chars("b"))), "ba");
    assert_eq!(text(&replace_chars(&chars("X(10)"), &chars(")"), &chars(""))), "X(10");
    let r = remove_spaces_chars(&chars(" X ( 10 ) "));
    assert_eq!(text(&r), "X(10)");
    assert!(!r.contains(&' '));
}

#[test]
fn split_like_str_split() {
    let pieces = split_chars(&chars("a.\nb.\n.\nc"), &chars(".\n"));
    let got: Vec<String> = pieces.iter().map(|p| text(p)).collect();
    assert_eq!(got, vec!["a", "b", "", "c"]);
    let one = split_chars(&chars(""), &chars(".\n"));
    assert_eq!(one.len(), 1);
    assert!(one[0].is_empty());
}

#[test]
fn trim_end_is_idempotent() {
    let once = trim_end_chars(&chars("  ab \t\n\u{3000}"));
    assert_eq!(text(&once), "  ab");
    assert_eq!(trim_end_chars(&once), once);
    assert!(trim_end_chars(&chars(" \n ")).is_empty());
}

#[test]
fn tokens_split_on_ascii_whitespace() {
    let toks = ascii_tokens_chars(&chars("  05\tNAME \r\n X "));
    let got: Vec<String> = toks.iter().map(|t| text(t)).collect();
    assert_eq!(got, vec!["05", "NAME", "X"]);
    assert!(ascii_tokens_chars(&chars("   ")).is_empty());
}

#[test]
fn padding_widths() {
    assert_eq!(text(&pad_left_chars(&chars("42"), 6, ' ')), "    42");
    assert_eq!(text(&pad_left_chars(&chars("5"), 2, '0')), "05");
    assert_eq!(text(&pad_left_chars(&chars("1234567"), 6, ' ')), "1234567");
    assert_eq!(text(&pad_right_chars(&chars("ab"), 4)), "ab  ");
    assert_eq!(chars_of("é!"), vec!['é', '!']);
}

// ---------------------------------------------------------------------------
// Source and statements
// ---------------------------------------------------------------------------

#[test]
fn comment_and_short_lines_are_dropped() {
    let got = filter_source(&lines(&[
        "000100 01 REC.",
        "000200* a comment",
        "short",
        "000300     05 A PIC X(10).   ",
        "",
    ]));
    assert_eq!(text(&got), " 01 REC.\n     05 A PIC X(10).");
}

#[test]
fn statements_end_at_period_line_feed() {
    let src = chars(" 01 REC.\n 05 A PIC X.\n 05 B PIC 9.");
    let got: Vec<String> = split_statements(&src).iter().map(|s| text(s)).collect();
    assert_eq!(got, vec![" 01 REC", " 05 A PIC X", " 05 B PIC 9"]);
}

#[test]
fn odd_quotes_in_value_drop_the_statement() {
    let src = chars(" 05 A PIC X(2) VALUE \"A.\n 05 B PIC X(2) VALUE 'B'.\n 05 C PIC X.");
    let got: Vec<String> = split_statements(&src).iter().map(|s| text(s)).collect();
    assert_eq!(got, vec![" 05 B PIC X(2) VALUE 'B'", " 05 C PIC X"]);
}

#[test]
fn only_a_final_period_is_stripped() {
    let got: Vec<String> =
        split_statements(&chars(" 05 A PIC X. ")).iter().map(|s| text(s)).collect();
    assert_eq!(got, vec![" 05 A PIC X."]);
    assert!(split_statements(&chars("")).len() == 1);
}

// ---------------------------------------------------------------------------
// Types and sizes
// ---------------------------------------------------------------------------

#[test]
fn binary_text_names_each_usage() {
    assert_eq!(Binary::COMP1.text(), "COMP-1");
    assert_eq!(Binary::COMP3.text(), "COMP-3");
    assert_eq!(Binary::PACKEDDECIMAL.text(), "PACKED-DECIMAL");
    assert_eq!(Binary::BINARY(12).text(), "BINARY(12)");
    assert_eq!(Binary::NONE.text(), "");
}

#[test]
fn picture_sizes() {
    let pats = CobolPatterns::new().unwrap();
    let x = |p: &str| Type::PICX((chars(p), false, Binary::NONE)).size(&pats).unwrap();
    let n = |p: &str| Type::PIC9((chars(p), false, Binary::NONE)).size(&pats).unwrap();
    assert_eq!(x("X(30)"), Some(30));
    assert_eq!(x("XXX"), Some(3));
    assert_eq!(x("X(2)X"), Some(3));
    assert_eq!(n("9(3)"), Some(3));
    assert_eq!(n("S9(7)V99"), Some(11));
    assert_eq!(n("Z(4)9.99-"), Some(9));
    assert_eq!(n("9(8)"), Some(8));
    assert_eq!(n("9(9)"), Some(1));
    assert_eq!(n("9(19)"), Some(1));
    assert_eq!(n("Z(9)"), Some(1));
    assert_eq!(n("S9(9)V9(9)"), Some(4));
    assert_eq!(Type::STRUCT.size(&pats).unwrap(), None);
    assert_eq!(Type::STRUCTSIZED(8).size(&pats).unwrap(), Some(8));
    assert!(Type::PICX((chars("X(4294967295)X"), false, Binary::NONE)).size(&pats).is_err());
}

#[test]
fn sample_layout() {
    let recs = records_of(&sample().iter().map(|s| s.as_str()).collect::<Vec<_>>());
    let names: Vec<String> = recs.iter().map(|r| text(&r.name)).collect();
    assert_eq!(names, vec!["CLIENT", "NAME", "AGE", "ADDR", "STREET", "ZIP", "BAL"]);
    let levels: Vec<u32> = recs.iter().map(|r| r.pos).collect();
    assert_eq!(levels, vec![1, 5, 5, 5, 10, 10, 5]);
    let counts: Vec<u32> = recs.iter().map(|r| r.occurs).collect();
    assert_eq!(counts, vec![0, 0, 0, 2, 2, 2, 0]);
    assert!(matches!(recs[0].field_type, Type::STRUCT));
    assert!(matches!(recs[3].field_type, Type::OCCURS));
    match &recs[6].field_type {
        Type::PIC9((p, inside, b)) => {
            assert_eq!(text(p), "S9(7)V99");
            assert!(!inside);
            assert!(*b == Binary::COMP3);
        },
        _ => panic!("BAL is numeric"),
    }
    let pats = CobolPatterns::new().unwrap();
    assert_eq!(total_size(&recs, &pats).unwrap(), 94);
    let groups = group_sizes(&recs, &pats).unwrap();
    assert_eq!(groups.len(), 2);
    assert!(matches!(groups[0].field_type, Type::STRUCTSIZED(94)));
    assert!(matches!(groups[1].field_type, Type::OCCURSSIZED(50)));
    assert_eq!(count_unknown(&recs), 0);
    assert!(records_over_limit(&groups).is_empty());
}

#[test]
fn redefines_and_conditions_are_left_out() {
    let recs = records_of(&[
        "       01 R.",
        "          05 A PIC X(4).",
        "          05 B REDEFINES A PIC 9(4).",
        "          05 G REDEFINES A.",
        "             10 G1 PIC X(2).",
        "             10 G2 PIC X(2).",
        "          05 C PIC X.",
        "             88 C-ON VALUE 'Y'.",
    ]);
    let names: Vec<String> = recs.iter().map(|r| text(&r.name)).collect();
    assert_eq!(names, vec!["R", "A", "C"]);
    let pats = CobolPatterns::new().unwrap();
    assert_eq!(total_size(&recs, &pats).unwrap(), 5);
}

#[test]
fn occurs_before_picture() {
    let recs = records_of(&["       01 R.", "          05 T OCCURS 3 PIC X(2)."]);
    assert_eq!(recs[1].occurs, 3);
    match &recs[1].field_type {
        Type::PICX((p, inside, _)) => {
            assert_eq!(text(p), "X(2)");
            assert!(*inside);
        },
        _ => panic!("T is alphanumeric"),
    }
    let pats = CobolPatterns::new().unwrap();
    assert_eq!(total_size(&recs, &pats).unwrap(), 6);
}

#[test]
fn binary_usage_and_value_clause() {
    let recs = records_of(&[
        "       01 R.",
        "          05 N PIC 9(4) BINARY(2)Y5.",
        "          05 V PIC X(3) VALUE 'ABC'.",
        "          05 U.",
    ]);
    match &recs[1].field_type {
        Type::PIC9((p, _, b)) => {
            assert_eq!(text(p), "9(4)");
            assert!(*b == Binary::BINARY(5));
        },
        _ => panic!("N is numeric"),
    }
    assert_eq!(text(&recs[2].field_type_original), "X(3)");
    assert!(matches!(recs[3].field_type, Type::STRUCT));
}

#[test]
fn unknown_entries_are_counted() {
    let recs = records_of(&["       FILLER."]);
    assert_eq!(recs.len(), 1);
    assert!(matches!(recs[0].field_type, Type::UNKNOWN));
    assert_eq!(count_unknown(&recs), 1);
}

#[test]
fn oversized_group_is_reported_with_file_name() {
    let recs = records_of(&["       01 BIG.", "          05 F PIC X(70000)."]);
    let pats = CobolPatterns::new().unwrap();
    let groups = group_sizes(&recs, &pats).unwrap();
    let over = records_over_limit(&groups);
    assert_eq!(over.len(), 1);
    let out = display(&over, false, true, &chars("big.cpy"), &pats);
    assert!(!out.overflow);
    assert_eq!(out.lines, vec![format!("{:<80}big.cpy", " 70000 01 BIG.")]);
}

#[test]
fn overflowing_sizes_are_reported() {
    let recs = records_of(&[
        "       01 R.",
        "          05 A PIC X(4294967295).",
        "          05 B PIC X.",
    ]);
    let pats = CobolPatterns::new().unwrap();
    assert!(total_size(&recs, &pats).is_err());
    assert!(group_sizes(&recs, &pats).is_err());
    let out = run(&config(true, false, true, false, false, false), &lines(&[
        "       01 R.",
        "          05 A PIC X(4294967295).",
        "          05 B PIC X.",
    ]), &pats);
    assert!(out.overflow);
    assert_eq!(out.lines.len(), 1);
}

// ---------------------------------------------------------------------------
// Report
// ---------------------------------------------------------------------------

#[test]
fn levels_nest_and_close() {
    let a = next_levels_exec(&vec![], 1);
    assert_eq!(a, vec![1]);
    let b = next_levels_exec(&a, 5);
    assert_eq!(b, vec![1, 5]);
    let c = next_levels_exec(&b, 10);
    assert_eq!(c, vec![1, 5, 10]);
    let d = next_levels_exec(&c, 5);
    assert_eq!(d, vec![1, 5]);
    let e = next_levels_exec(&d, 1);
    assert_eq!(e, vec![1]);
}

#[test]
fn config_prints_total_when_nothing_else_is_asked() {
    assert!(config(false, false, false, false, false, false).result);
    assert!(!config(false, false, false, true, false, false).result);
    assert!(config(true, false, false, true, false, false).result);
    assert!(!config(false, true, false, false, false, false).result);
}

#[test]
fn total_formats() {
    assert_eq!(total_text(94, false), "94");
    assert_eq!(total_text(94, true), "    94");
}

#[test]
fn run_default_prints_total() {
    let pats = CobolPatterns::new().unwrap();
    let out = run(&config(false, false, false, false, false, false), &sample(), &pats);
    assert!(!out.overflow);
    assert_eq!(out.lines, vec!["94".to_string()]);
}

#[test]
fn run_detail_compute() {
    let pats = CobolPatterns::new().unwrap();
    let out = run(&config(true, false, false, true, false, true), &sample(), &pats);
    assert!(!out.overflow);
    let expected = vec![
        "     0 01 CLIENT.".to_string(),
        format!("{:<49}PIC X(30).", "    30     05 NAME"),
        format!("{:<49}PIC 9(3).", "     3     05 AGE"),
        "     0     05 ADDR OCCURS 2.".to_string(),
        format!("{:<49}PIC X(20).", "    40         10 STREET"),
        format!("{:<49}PIC 9(5).", "    10         10 ZIP"),
        format!("{:<49}PIC S9(7)V99 COMP-3.", "    11     05 BAL"),
        "------".to_string(),
        "    94".to_string(),
    ];
    assert_eq!(out.lines, expected);
}

#[test]
fn run_groups_and_source() {
    let pats = CobolPatterns::new().unwrap();
    let out = run(&config(false, false, true, false, true, false), &lines(&[
        "       01 R.",
        "          05 T OCCURS 3 PIC X(2).",
    ]), &pats);
    assert!(!out.overflow);
    assert_eq!(out.lines, vec![
         " 01 R.\n    05 T OCCURS 3 PIC X(2).".to_string(),
        "     6 01 R.".to_string(),
    ]);
}

#[test]
fn occurs_note_in_detail() {
    let pats = CobolPatterns::new().unwrap();
    let out = run(&config(false, false, false, true, false, false), &lines(&[
        "       01 R.",
        "          05 T OCCURS 3 PIC X(2).",
    ]), &pats);
    assert_eq!(out.lines, vec![
        "     0 01 R.".to_string(),
        format!("{:<49}PIC X(2).", "     6     05 T OCCURS 3"),
    ]);
}

#[test]
fn total_is_sum_of_parts() {
    let pats = CobolPatterns::new().unwrap();
    let mut all = records_of(&sample().iter().map(|s| s.as_str()).collect::<Vec<_>>());
    let whole = total_size(&all, &pats).unwrap();
    let tail = all.split_off(3);
    let head_total = total_size(&all, &pats).unwrap();
    let tail_total = total_size(&tail, &pats).unwrap();
    assert_eq!(whole, head_total + tail_total);
    assert_eq!((head_total, tail_total), (33, 61));
}

#[test]
fn empty_group_has_size_zero() {
    let recs = records_of(&["       01 A.", "       01 B.", "          05 F PIC X(3)."]);
    let pats = CobolPatterns::new().unwrap();
    let groups = group_sizes(&recs, &pats).unwrap();
    assert_eq!(groups.len(), 2);
    assert!(matches!(groups[0].field_type, Type::STRUCTSIZED(0)));
    assert!(matches!(groups[1].field_type, Type::STRUCTSIZED(3)));
}

#[test]
fn separator_follows_each_listing() {
    let pats = CobolPatterns::new().unwrap();
    let out = run(&config(false, true, true, false, false, true), &sample(), &pats);
    assert!(!out.overflow);
    assert_eq!(out.lines.len(), 3);
    assert_eq!(out.lines[1], "------");
    assert_eq!(out.lines[2], "------");
}

#[test]
fn stray_numbers_are_no_data_entries() {
    let recs = records_of(&["       01 R.", "      -5.", "      0.", "      +7.", "      3000000000."]);
    let levels: Vec<u32> = recs.iter().map(|r| r.pos).collect();
    assert_eq!(levels, vec![1, 0, 3000000000]);
    assert!(matches!(recs[1].field_type, Type::UNKNOWN));
    assert!(matches!(recs[2].field_type, Type::STRUCT));
}

#[test]
fn consecutive_occurs_groups() {
    let recs = records_of(&[
        "       01 R.",
        "          05 A OCCURS 2.",
        "             10 A1 PIC X.",
        "          05 B OCCURS 3.",
        "             10 B1 PIC X.",
    ]);
    let counts: Vec<u32> = recs.iter().map(|r| r.occurs).collect();
    assert_eq!(counts, vec![0, 2, 2, 3, 0]);
    assert!(matches!(recs[3].field_type, Type::STRUCT));
    let pats = CobolPatterns::new().unwrap();
    assert_eq!(total_size(&recs, &pats).unwrap(), 3);
}

#[test]
fn entry_from_given_pieces() {
    let c = chars("    05 AMOUNT PIC 9(5) VALUE 0");
    let keywords = vec![chars(" PIC")];
    let halves = vec![chars("    05 AMOUNT"), chars(" 9(5) VALUE 0")];
    let value_pieces = vec![chars(" 9(5) "), chars(" 0")];
    let e = assemble_entry(&c, &keywords, &halves, &value_pieces);
    assert_eq!((e.pos, text(&e.name), e.occurs), (5, "AMOUNT".to_string(), 0));
    assert_eq!(text(&e.field_size), "9(5)");
    assert_eq!(text(&e.field_pos), "    05 AMOUNT");
    let keywords = vec![chars(" OCCURS")];
    let halves = vec![chars("    05 T"), chars(" 12")];
    let value_pieces = vec![chars(" 12")];
    let e = assemble_entry(&chars("    05 T OCCURS 12"), &keywords, &halves, &value_pieces);
    assert_eq!(e.occurs, 12);
    let none: Vec<Vec<char>> = Vec::new();
    let e = assemble_entry(&chars(" 01 REC"), &none, &none, &none);
    assert_eq!((e.pos, text(&e.name), text(&e.field_pos)), (1, "REC".to_string(), " 01 REC".to_string()));
}

#[test]
fn picture_occurs_from_given_pieces() {
    let e = LineDebug {
        pos: 5,
        name: chars("T"),
        occurs: 0,
        sw_occurs: true,
        sw_occurs_inside: false,
        field_pos: chars("    05 T"),
        field_size: chars("4PICX(2)"),
    };
    let r = apply_picture_occurs(e, &vec![chars("4"), chars("X(2)")]);
    assert_eq!(r.occurs, 4);
    assert!(r.sw_occurs_inside && !r.sw_occurs);
    assert_eq!(text(&r.field_size), "X(2)");
}

#[test]
fn binary_usage_from_given_pieces() {
    let (pic, b) = binary_usage_exec(&vec![chars("9(4)"), chars("5")]);
    assert_eq!(text(&pic), "9(4)");
    assert!(b == Binary::BINARY(5));
    let (_, b) = binary_usage_exec(&vec![chars("9(4)"), chars("")]);
    assert!(b == Binary::BINARY(0));
    let (pic, b) = binary_usage_exec(&vec![chars("9 (4)BINARY(2)")]);
    assert_eq!(text(&pic), "9(4)BINARY(2)");
    assert!(b == Binary::BINARY(0));
}

#[test]
fn picture_sizes_add_up() {
    let pats = CobolPatterns::new().unwrap();
    let x = |p: &str| Type::PICX((chars(p), false, Binary::NONE)).size(&pats).unwrap().unwrap();
    assert_eq!(x("X(3)XX(4)"), x("X(3)X") + x("X(4)"));
    assert_eq!(x(&"X".repeat(17)), 17);
}
