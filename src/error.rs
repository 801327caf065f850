use vstd::prelude::*;

verus! {

/// The errors of the library.
///
/// `InvalidInput` carries the name of the stage that refused a value and the
/// shape of value that the stage expected.
#[derive(Debug, PartialEq)]
pub enum LibError {
    IO(String),
    InvalidInput(String, String),
    Json(String),
    Unknown(String),
}

/// What a `LibError` says, with its texts as character sequences.
pub enum ErrorV {
    IO(Seq<char>),
    InvalidInput(Seq<char>, Seq<char>),
    Json(Seq<char>),
    Unknown(Seq<char>),
}

impl View for LibError {
    type V = ErrorV;

    open spec fn view(&self) -> ErrorV {
        match self {
            LibError::IO(m) => ErrorV::IO(m@),
            LibError::InvalidInput(stage, expected) => ErrorV::InvalidInput(stage@, expected@),
            LibError::Json(m) => ErrorV::Json(m@),
            LibError::Unknown(m) => ErrorV::Unknown(m@),
        }
    }
}

impl LibError {
    /// The error of a stage named `stage` that was handed a value of a shape
    /// other than `expected`.
    pub fn invalid_input(stage: &str, expected: &str) -> (r: LibError)
        ensures
            r@ == ErrorV::InvalidInput(stage@, expected@),
    {
        LibError::InvalidInput(String::from_str(stage), String::from_str(expected))
    }

    /// The message of the error, as its variant and its texts.
    pub fn message(&self) -> (r: String)
        ensures
            r@ == self.spec_message(),
    {
        match self {
            LibError::IO(m) => String::from_str("IO error: ").concat(m.as_str()),
            LibError::InvalidInput(stage, expected) => String::from_str(
                "Invalid input for processor: ",
            ).concat(stage.as_str()).concat(" expects ").concat(expected.as_str()),
            LibError::Json(m) => String::from_str("JSON error: ").concat(m.as_str()),
            LibError::Unknown(m) => String::from_str("Unknown error: ").concat(m.as_str()),
        }
    }

    pub open spec fn spec_message(&self) -> Seq<char> {
        match self {
            LibError::IO(m) => "IO error: "@ + m@,
            LibError::InvalidInput(stage, expected) => "Invalid input for processor: "@ + stage@
                + " expects "@ + expected@,
            LibError::Json(m) => "JSON error: "@ + m@,
            LibError::Unknown(m) => "Unknown error: "@ + m@,
        }
    }
}

} // verus!
