//! What can go wrong while the inputs of a trace are put together.

use vstd::prelude::*;

verus! {

/// A failure to build the tracer's inputs. Tracing itself never fails.
#[derive(Debug, Clone, Copy, PartialEq, Eq, Structural)]
pub enum Error {
    /// The array archive could not be opened.
    NPZ,
    /// The compressed stream could not be read.
    Read,
    /// The table of samples could not be read.
    CSV,
    /// Text that is not UTF-8.
    UTF8,
    /// The archive does not hold all four surfaces, positions and
    /// directions alike.
    Surfaces,
    /// A surface does not hold three numbers for each position of the
    /// mask.
    Rows,
}

impl Error {
    /// The text of the message for this error.
    pub open spec fn text(self) -> Seq<char> {
        match self {
            Error::NPZ => "failed to open npz data file"@,
            Error::Read => "failed to read variable"@,
            Error::CSV => "failed to read csv data"@,
            Error::UTF8 => "failed to parse UTF8"@,
            Error::Surfaces => "failed to find the four surfaces"@,
            Error::Rows => "failed to match surface rows with the mask"@,
        }
    }

    /// A message for the user.
    pub fn message(&self) -> (s: String)
        ensures
            s@ == self.text(),
    {
        match self {
            Error::NPZ => "failed to open npz data file".to_owned(),
            Error::Read => "failed to read variable".to_owned(),
            Error::CSV => "failed to read csv data".to_owned(),
            Error::UTF8 => "failed to parse UTF8".to_owned(),
            Error::Surfaces => "failed to find the four surfaces".to_owned(),
            Error::Rows => "failed to match surface rows with the mask".to_owned(),
        }
    }
}

} // verus!
