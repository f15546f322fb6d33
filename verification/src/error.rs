//! Errors of the library and of the program around it.

use vstd::prelude::*;
use vstd::string::*;

verus! {

/// What can go wrong while preparing or running a conversion.
#[derive(Debug, Clone)]
pub enum AppError {
    /// Neither a single component id nor a batch file was given.
    MissingIdSource,
    /// A component id that does not have the form `C` followed by more text.
    InvalidLcscId(String),
    /// No kind of asset was selected for conversion.
    NoConversionSelected,
    /// A fill color that is not `#RRGGBB` or `#RRGGBBAA`.
    InvalidSymbolFillColor(String),
    /// The batch file holds no component id.
    NoIdsInBatch,
    /// There is neither a component id nor batch file text to read ids from.
    NoIdSource,
    /// A search pattern that the regular-expression engine refused.
    InvalidPattern(String),
    /// A symbol that was to be replaced is not in the symbol library.
    ComponentNotFound(String),
    /// A file-system operation failed.
    Io { context: String, path: String, message: String },
    /// Any other failure, described in words.
    Other(String),
}

/// The text shown to the user for an error.
pub open spec fn error_text(e: AppError) -> Seq<char> {
    match e {
        AppError::MissingIdSource => "Either --lcsc-id or --batch must be specified"@,
        AppError::InvalidLcscId(id) => "Invalid LCSC ID: "@ + id@,
        AppError::NoConversionSelected =>
            "At least one conversion option must be specified (--symbol, --footprint, --3d, or --full)"@,
        AppError::InvalidSymbolFillColor(v) => "Invalid symbol fill color (expected #RRGGBB or #RRGGBBAA): "@
            + v@,
        AppError::NoIdsInBatch => "No valid LCSC IDs found in batch file"@,
        AppError::NoIdSource => "No LCSC ID source specified"@,
        AppError::InvalidPattern(p) => "Invalid search pattern: "@ + p@,
        AppError::ComponentNotFound(name) => "Component "@ + name@ + " not found in library"@,
        AppError::Io { context, path, message } => "Failed to "@ + context@ + " "@ + path@ + ": "@
            + message@,
        AppError::Other(message) => message@,
    }
}

impl AppError {
    /// The text shown to the user for this error.
    pub fn message(&self) -> (res: String)
        ensures
            res@ == error_text(*self),
    {
        match self {
            AppError::MissingIdSource => "Either --lcsc-id or --batch must be specified".to_owned(),
            AppError::InvalidLcscId(id) => {
                let mut s = "Invalid LCSC ID: ".to_owned();
                s.append(id.as_str());
                s
            },
            AppError::NoConversionSelected =>
                "At least one conversion option must be specified (--symbol, --footprint, --3d, or --full)".to_owned(),
            AppError::InvalidSymbolFillColor(v) => {
                let mut s = "Invalid symbol fill color (expected #RRGGBB or #RRGGBBAA): ".to_owned();
                s.append(v.as_str());
                s
            },
            AppError::NoIdsInBatch => "No valid LCSC IDs found in batch file".to_owned(),
            AppError::NoIdSource => "No LCSC ID source specified".to_owned(),
            AppError::InvalidPattern(p) => {
                let mut s = "Invalid search pattern: ".to_owned();
                s.append(p.as_str());
                s
            },
            AppError::ComponentNotFound(name) => {
                let mut s = "Component ".to_owned();
                s.append(name.as_str());
                s.append(" not found in library");
                s
            },
            AppError::Io { context, path, message } => {
                let mut s = "Failed to ".to_owned();
                s.append(context.as_str());
                s.append(" ");
                s.append(path.as_str());
                s.append(": ");
                s.append(message.as_str());
                s
            },
            AppError::Other(message) => message.clone(),
        }
    }
}

} // verus!
