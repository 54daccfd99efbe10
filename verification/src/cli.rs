//! The command line's settings, and what the program does with them.

use std::path::PathBuf;
use vstd::prelude::*;
use vstd::utf8::encode_utf8;

use crate::dump::{is_dump, plain_dump, render_rows};
use crate::highlight::all_plain;
use crate::row::views;

verus! {

/// `std::path::PathBuf`: a path is carried from the settings to the plan and
/// never looked into.
#[verifier::external_type_specification]
#[verifier::external_body]
pub struct ExPathBuf(PathBuf);

/// The number of bytes per row where none is given.
pub const DEFAULT_COLUMNS: i32 = 4;

/// The settings of one run.
#[derive(Debug)]
pub struct Cli {
    /// The file to dump, if one was named.
    pub path: Option<PathBuf>,
    /// Whether the tokens of bytes that stand out are highlighted.
    pub colored: bool,
    /// The number of bytes per row, as given.
    pub columns: i32,
}

/// What a run does first.
#[derive(Debug)]
pub enum Plan {
    /// There is nothing to dump: print `line` and stop.
    Report { line: String },
    /// The settings are refused: rows of `columns` bytes cannot be made.
    Reject { columns: i32 },
    /// Read the file at `path` as text, and hand what came of it to
    /// `process_file` with these settings.
    Read { path: PathBuf, colored: bool, stride: usize },
}

/// The line printed where no file was named.
pub open spec fn no_input_line() -> Seq<char> {
    "No input file"@
}

/// The line printed where the file could not be read, for the reader's
/// `message`.
pub open spec fn read_error_line(message: Seq<char>) -> Seq<char> {
    "Error reading file: "@ + message
}

impl Cli {
    /// Decides what the run does: without a path only a report is printed;
    /// with a path, a column count below one is refused, and any other
    /// becomes the stride of the dump of that file.
    pub fn go(self) -> (plan: Plan)
        ensures
            plan is Report <==> self.path is None,
            plan is Reject <==> self.path is Some && self.columns < 1,
            plan is Read <==> self.path is Some && self.columns >= 1,
            plan matches Plan::Report { line } ==> line@ == no_input_line(),
            plan matches Plan::Reject { columns } ==> columns == self.columns,
            plan matches Plan::Read { path, colored, stride } ==> {
                &&& Some(path) == self.path
                &&& colored == self.colored
                &&& stride == self.columns
                &&& stride >= 1
            },
    {
        match self.path {
            None => Plan::Report { line: "No input file".to_owned() },
            Some(path) => {
                if self.columns >= 1 {
                    Plan::Read { path, colored: self.colored, stride: self.columns as usize }
                } else {
                    Plan::Reject { columns: self.columns }
                }
            },
        }
    }
}

/// The lines to print for what reading the file gave: for its text, the
/// rows of the dump of its bytes (the plain rows if colour is off or no
/// byte stands out); for a failure, one line that reports the reader's
/// message, and no rows.
pub fn process_file(contents: Result<String, String>, colored_output: bool, stride: usize) -> (lines:
    Vec<String>)
    requires
        stride >= 1,
    ensures
        match contents {
            Ok(text) => {
                &&& is_dump(views(lines@), encode_utf8(text@), stride as int, colored_output)
                &&& all_plain(encode_utf8(text@), colored_output) ==> views(lines@) == plain_dump(
                    encode_utf8(text@),
                    stride as int,
                )
            },
            Err(message) => {
                &&& lines@.len() == 1
                &&& lines@[0]@ == read_error_line(message@)
            },
        },
{
    match contents {
        Ok(text) => render_rows(text.as_str().as_bytes(), stride, colored_output),
        Err(message) => {
            let line = "Error reading file: ".to_owned().concat(message.as_str());
            let mut lines: Vec<String> = Vec::new();
            lines.push(line);
            lines
        },
    }
}

} // verus!
