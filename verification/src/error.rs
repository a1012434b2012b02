use vstd::prelude::*;

verus! {

/// Everything a command of the editor can fail with.
#[derive(Debug, Clone)]
pub enum AppError {
    MissingInput(String),
    UnreadableInput(String),
    UnsupportedInput(String),
    Probe(String),
    NoVideo,
    InvalidTrim(String),
    Destination(String),
    ExportBusy,
    Cancelled,
    Export(String),
    Internal(String),
}

/// The text shown for an error.
pub open spec fn error_text(e: AppError) -> Seq<char> {
    match e {
        AppError::MissingInput(p) => "Input does not exist: "@ + p@,
        AppError::UnreadableInput(p) => "Input is not a readable regular file: "@ + p@,
        AppError::UnsupportedInput(p) => "Only .mp4 input files are supported: "@ + p@,
        AppError::Probe(m) => "Media inspection failed: "@ + m@,
        AppError::NoVideo => "The MP4 contains no video stream"@,
        AppError::InvalidTrim(m) => "Invalid trim request: "@ + m@,
        AppError::Destination(m) => "Invalid destination: "@ + m@,
        AppError::ExportBusy => "An export is already running"@,
        AppError::Cancelled => "Export cancelled"@,
        AppError::Export(m) => "Export failed: "@ + m@,
        AppError::Internal(m) => "Internal error: "@ + m@,
    }
}

fn prefixed(prefix: &str, detail: &String) -> (r: String)
    ensures
        r@ == prefix@ + detail@,
{
    let s = String::from_str(prefix);
    s.concat(detail.as_str())
}

impl AppError {
    /// The text shown for this error.
    pub fn message(&self) -> (r: String)
        ensures
            r@ == error_text(*self),
    {
        match self {
            AppError::MissingInput(p) => prefixed("Input does not exist: ", p),
            AppError::UnreadableInput(p) => prefixed("Input is not a readable regular file: ", p),
            AppError::UnsupportedInput(p) => prefixed("Only .mp4 input files are supported: ", p),
            AppError::Probe(m) => prefixed("Media inspection failed: ", m),
            AppError::NoVideo => String::from_str("The MP4 contains no video stream"),
            AppError::InvalidTrim(m) => prefixed("Invalid trim request: ", m),
            AppError::Destination(m) => prefixed("Invalid destination: ", m),
            AppError::ExportBusy => String::from_str("An export is already running"),
            AppError::Cancelled => String::from_str("Export cancelled"),
            AppError::Export(m) => prefixed("Export failed: ", m),
            AppError::Internal(m) => prefixed("Internal error: ", m),
        }
    }
}

} // verus!
