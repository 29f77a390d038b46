//! The failures that abort a whole resolution pass.

use vstd::prelude::*;
use vstd::string::StrSliceExecFns;
use vstd::string::StringExecFns;

verus! {

/// An error that occurred while parsing arguments, either from the CLI or
/// from environment variables. Any of these aborts the whole pass.
#[derive(Debug, Clone, PartialEq, Eq, Hash)]
pub enum ArgParseError {
    /// A flag was encountered that wasn't registered.
    UnknownFlag(String),
    /// A flag expected an accompanying value, but none was given.
    MissingValue(String),
    /// Multiple short flags in a cluster (e.g. `-abc`) tried to consume the
    /// same value (e.g. `-abc only_one_value`).
    ConsumedValue(String),
}

/// The mathematical shape of an [`ArgParseError`].
pub enum ErrorView {
    /// View of [`ArgParseError::UnknownFlag`].
    UnknownFlag(Seq<char>),
    /// View of [`ArgParseError::MissingValue`].
    MissingValue(Seq<char>),
    /// View of [`ArgParseError::ConsumedValue`].
    ConsumedValue(Seq<char>),
}

impl View for ArgParseError {
    type V = ErrorView;

    open spec fn view(&self) -> ErrorView {
        match self {
            ArgParseError::UnknownFlag(s) => ErrorView::UnknownFlag(s@),
            ArgParseError::MissingValue(s) => ErrorView::MissingValue(s@),
            ArgParseError::ConsumedValue(s) => ErrorView::ConsumedValue(s@),
        }
    }
}

impl ArgParseError {
    /// A human-readable description of the failure.
    pub fn message(&self) -> (r: String)
        ensures
            r@ == match self@ {
                ErrorView::UnknownFlag(s) => "Unknown flag: `"@ + s + "`"@,
                ErrorView::MissingValue(s) => "Expected value for `"@ + s + "`"@,
                ErrorView::ConsumedValue(s) => "Multiple arguments in `"@ + s
                    + "` tried to consume the same value"@,
            },
    {
        match self {
            ArgParseError::UnknownFlag(s) => String::from_str("Unknown flag: `").concat(
                s.as_str(),
            ).concat("`"),
            ArgParseError::MissingValue(s) => String::from_str("Expected value for `").concat(
                s.as_str(),
            ).concat("`"),
            ArgParseError::ConsumedValue(s) => String::from_str("Multiple arguments in `").concat(
                s.as_str(),
            ).concat("` tried to consume the same value"),
        }
    }
}

} // verus!
