//! What the user asked for on the command line.
use vstd::prelude::*;

verus! {

/// The options of a run.
#[derive(Debug)]
pub struct Config {
    /// The copybook to analyse.
    pub file: String,
    /// Print the total size.
    pub result: bool,
    /// Print the groups larger than the RM/COBOL limit of 65280 bytes.
    pub rm_cobol_limit_65280: bool,
    /// Print the source without comments.
    pub filtered_src: bool,
    /// Print every record with its size.
    pub compute_src: bool,
    /// Print the groups and OCCURS groups with their sizes.
    pub compute_struct_and_occurs: bool,
    /// Print a separator line after each listing.
    pub separator: bool,
}

/// The mathematical value of a `Config`.
pub struct ConfigView {
    pub file: Seq<char>,
    pub result: bool,
    pub rm_cobol_limit_65280: bool,
    pub filtered_src: bool,
    pub compute_src: bool,
    pub compute_struct_and_occurs: bool,
    pub separator: bool,
}

impl View for Config {
    type V = ConfigView;

    open spec fn view(&self) -> ConfigView {
        ConfigView {
            file: self.file@,
            result: self.result,
            rm_cobol_limit_65280: self.rm_cobol_limit_65280,
            filtered_src: self.filtered_src,
            compute_src: self.compute_src,
            compute_struct_and_occurs: self.compute_struct_and_occurs,
            separator: self.separator,
        }
    }
}

impl Config {
    /// The options given the flags that were present on the command line:
    /// the total is printed when asked for, and also when no listing is.
    pub fn from_flags(
        file: String,
        result: bool,
        rm_cobol_limit: bool,
        show_filtered_src: bool,
        show_detail_compute: bool,
        compute_struct_and_occurs: bool,
        separator: bool,
    ) -> (c: Config)
        ensures
            c.file@ == file@,
            c.result == (result || !(compute_struct_and_occurs || show_detail_compute
                || show_filtered_src || rm_cobol_limit)),
            c.rm_cobol_limit_65280 == rm_cobol_limit,
            c.filtered_src == show_filtered_src,
            c.compute_src == show_detail_compute,
            c.compute_struct_and_occurs == compute_struct_and_occurs,
            c.separator == separator,
    {
        let shows_result = if !compute_struct_and_occurs && !show_detail_compute
            && !show_filtered_src && !rm_cobol_limit {
            true
        } else {
            result
        };
        Config {
            file,
            result: shows_result,
            rm_cobol_limit_65280: rm_cobol_limit,
            filtered_src: show_filtered_src,
            compute_src: show_detail_compute,
            compute_struct_and_occurs,
            separator,
        }
    }
}

} // verus!
