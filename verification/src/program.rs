//! A whole run: from the options and the lines of a copybook to the lines
//! printed.
use vstd::prelude::*;
use crate::config::{Config, ConfigView};
use crate::external::string_of;
use crate::layout::{
    group_sizes, groups_fit, layout, layout_records, over_limit, records_over_limit, sized_groups,
    total_size, weights_sum,
};
use crate::patterns::CobolPatterns;
use crate::record::RecordView;
use crate::report::{display, first_oversized, report};
use crate::source::{filter_source, filtered_source};
use crate::text::{chars_of, decimal, decimal_chars, pad_left, pad_left_chars, string_seqs};

verus! {

/// The lines of one listing, and whether it stopped at a size that does
/// not fit in a `u32`.
pub open spec fn listing(rs: Seq<RecordView>, separator: bool, with_file: bool, file: Seq<char>) -> (
    Seq<Seq<char>>,
    bool,
) {
    (report(rs, separator, with_file, file), first_oversized(rs, 0) < rs.len())
}

/// The total size, right-aligned in 6 columns when the records are listed
/// too.
pub open spec fn total_line(total: nat, padded: bool) -> Seq<char> {
    if padded {
        pad_left(decimal(total), 6, ' ')
    } else {
        decimal(total)
    }
}

/// What a run prints, in order, and whether it ends at a size that does
/// not fit in a `u32`: the filtered source; the groups with their sizes;
/// the groups above the RM/COBOL limit, each followed by the file name;
/// every record; the total. Each listing is printed only when asked for,
/// and a listing that reaches a size that does not fit ends the run.
pub open spec fn program_output(c: ConfigView, lines: Seq<Seq<char>>) -> (Seq<Seq<char>>, bool) {
    let text = filtered_source(lines);
    let src: Seq<Seq<char>> = if c.filtered_src {
        if c.separator {
            seq![text, "------"@]
        } else {
            seq![text]
        }
    } else {
        seq![]
    };
    let records = layout_records(text);
    if !groups_fit(records) {
        (src, true)
    } else {
        let groups = sized_groups(records);
        let (l1, o1) = if c.compute_struct_and_occurs {
            listing(groups, c.separator, false, seq![])
        } else {
            (seq![], false)
        };
        let (l2, o2) = if c.rm_cobol_limit_65280 {
            listing(over_limit(groups), c.separator, true, c.file)
        } else {
            (seq![], false)
        };
        let (l3, o3) = if c.compute_src {
            listing(records, c.separator, false, seq![])
        } else {
            (seq![], false)
        };
        if o1 {
            (src + l1, true)
        } else if o2 {
            (src + l1 + l2, true)
        } else if o3 {
            (src + l1 + l2 + l3, true)
        } else if !c.result {
            (src + l1 + l2 + l3, false)
        } else if weights_sum(records) > u32::MAX {
            (src + l1 + l2 + l3, true)
        } else {
            (src + l1 + l2 + l3 + seq![total_line(weights_sum(records), c.compute_src)], false)
        }
    }
}

/// The lines a run prints, and whether it ended at a size that does not
/// fit in a `u32`.
pub struct RunOutput {
    pub lines: Vec<String>,
    pub overflow: bool,
}

fn append_strings(dst: &mut Vec<String>, src: &Vec<String>)
    ensures
        string_seqs(final(dst)@) == string_seqs(old(dst)@) + string_seqs(src@),
{
    let ghost start = string_seqs(dst@);
    let mut i: usize = 0;
    while i < src.len()
        invariant
            i <= src.len(),
            string_seqs(dst@) == start + string_seqs(src@).take(i as int),
        decreases src.len() - i,
    {
        let ghost before = string_seqs(dst@);
        dst.push(src[i].clone());
        assert(string_seqs(dst@) =~= before.push(src@[i as int]@));
        i += 1;
        assert(string_seqs(dst@) =~= start + string_seqs(src@).take(i as int));
    }
    assert(string_seqs(src@).take(src.len() as int) =~= string_seqs(src@));
}

/// The total size, right-aligned in 6 columns when `padded`.
pub fn total_text(total: u32, padded: bool) -> (s: String)
    ensures
        s@ == total_line(total as nat, padded),
{
    let digits = decimal_chars(total);
    if padded {
        string_of(&pad_left_chars(&digits, 6, ' '))
    } else {
        string_of(&digits)
    }
}

/// A whole run.
pub fn run(config: &Config, source_lines: &Vec<String>, pats: &CobolPatterns) -> (out: RunOutput)
    requires
        pats.wf(),
    ensures
        (string_seqs(out.lines@), out.overflow) == program_output(
            config@,
            string_seqs(source_lines@),
        ),
{
    let ghost c = config@;
    let mut lines: Vec<String> = Vec::new();
    let text = filter_source(source_lines);
    if config.filtered_src {
        lines.push(string_of(&text));
        if config.separator {
            lines.push(string_of(&chars_of("------")));
        }
    }
    let ghost src = string_seqs(lines@);
    assert(src =~= (if c.filtered_src {
        if c.separator {
            seq![text@, "------"@]
        } else {
            seq![text@]
        }
    } else {
        seq![]
    }));
    let records = layout(&text, pats);
    let groups = match group_sizes(&records, pats) {
        Ok(g) => g,
        Err(_) => {
            return RunOutput { lines, overflow: true };
        },
    };
    let no_file: Vec<char> = Vec::new();
    let ghost empty: Seq<char> = seq![];
    assert(no_file@ =~= empty);
    if config.compute_struct_and_occurs {
        let listed = display(&groups, config.separator, false, &no_file, pats);
        let stop = listed.overflow;
        append_strings(&mut lines, &listed.lines);
        if stop {
            return RunOutput { lines, overflow: true };
        }
    }
    let ghost after1 = string_seqs(lines@);
    if config.rm_cobol_limit_65280 {
        let oversized = records_over_limit(&groups);
        let file = chars_of(config.file.as_str());
        let listed = display(&oversized, config.separator, true, &file, pats);
        let stop = listed.overflow;
        append_strings(&mut lines, &listed.lines);
        if stop {
            return RunOutput { lines, overflow: true };
        }
    }
    let ghost after2 = string_seqs(lines@);
    if config.compute_src {
        let listed = display(&records, config.separator, false, &no_file, pats);
        let stop = listed.overflow;
        append_strings(&mut lines, &listed.lines);
        if stop {
            return RunOutput { lines, overflow: true };
        }
    }
    if config.result {
        match total_size(&records, pats) {
            Ok(total) => {
                let ghost before = string_seqs(lines@);
                lines.push(total_text(total, config.compute_src));
                assert(string_seqs(lines@) =~= before.push(
                    total_line(total as nat, config.compute_src),
                ));
            },
            Err(_) => {
                return RunOutput { lines, overflow: true };
            },
        }
    }
    RunOutput { lines, overflow: false }
}

} // verus!
