//! Size computation for COBOL copybooks (record layouts in the style of
//! Micro Focus RM/COBOL): comment filtering, statement splitting, field
//! classification, OCCURS and REDEFINES handling, group sizes and the
//! report lines.
#![allow(non_camel_case_types)]

pub mod text;
pub mod external;
pub mod patterns;
pub mod source;
pub mod entry;
pub mod field;
pub mod record;
pub mod layout;
pub mod report;
pub mod config;
pub mod program;
pub mod laws;
pub mod sizing_laws;
