//! Small types shared by the start-up and file dialogs.

use vstd::prelude::*;

verus! {

/// What a look at the notes file's path found.
#[derive(Debug, PartialEq, Eq, Structural, Clone, Copy)]
pub enum FilePathCheckResult {
    DoesNotExist,
    NotAFile,
    Exists,
}

impl FilePathCheckResult {
    /// The sentence that tells the user what was found.
    pub open spec fn text(self) -> Seq<char> {
        match self {
            FilePathCheckResult::Exists => "File exists."@,
            FilePathCheckResult::DoesNotExist => "File doesn't exist."@,
            FilePathCheckResult::NotAFile => "The path exists but it's not a file."@,
        }
    }

    /// Tells the user what was found (see `text`).
    pub fn message(&self) -> (r: &'static str)
        ensures
            r@ == self.text(),
    {
        match *self {
            FilePathCheckResult::Exists => "File exists.",
            FilePathCheckResult::DoesNotExist => "File doesn't exist.",
            FilePathCheckResult::NotAFile => "The path exists but it's not a file.",
        }
    }
}

/// Settings given from outside the notes file, as typed: each one, where
/// present, takes the place of what the header records.
pub struct Settings {
    pub page_size: Option<String>,
    pub row_space: Option<String>,
    pub color_1: Option<String>,
    pub color_2: Option<String>,
    pub color_3: Option<String>,
    pub use_colors: Option<String>,
}

} // verus!
