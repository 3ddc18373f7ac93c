//! The failures that a run can end in, and the text shown for each.
//!
//! Paths and underlying system errors are held as text, so that every error is
//! a plain value that can be compared and rendered.

use crate::text::{decimal, decimal_string, nat_digits, nat_string};
use vstd::prelude::*;
use vstd::std_specs::convert::FromSpecImpl;
use vstd::string::StringExecFns;

verus! {

/// Failures at the file system and process boundary.
#[derive(Debug, Clone, PartialEq, Eq)]
pub enum IOError {
    /// A file or directory could not be read: its path, and the cause if known.
    ReadErr(String, Option<String>),
    /// A file could not be written: its path, and the cause if known.
    WriteErr(String, Option<String>),
    /// The path names no file.
    MissingFilenameErr(String),
    /// The file name at this path is not valid Unicode.
    FilenameNotUnicodeErr(String),
    /// The contents of the file at this path could not be read.
    BadFileContentsErr(String, Option<String>),
    /// The benchmarking command could not be started.
    CommandErr(Option<String>),
    /// The staging directory at this path could not be cleared and recreated.
    CannotRecreateTempDirErr(String, String),
}

/// Everything that can go wrong in a run.
#[derive(Debug, Clone, PartialEq, Eq)]
pub enum CalculateError {
    /// The text is no `major.minor.patch` version.
    VersionParseFail(String),
    /// The text is no `metricname___projectname` identity.
    MetricParseFail(String),
    /// The file at this path does not hold JSON of the expected shape.
    BadJSONErr(String, Option<String>),
    /// A value could not be serialized.
    SerializationErr(String),
    /// A failure at the file system or process boundary.
    CalculateIOError(IOError),
    /// The benchmarking tool exited with this non-zero code.
    HyperfineNonZeroExitCode(i32),
    /// A report holds no measurement, or a measurement that should hold
    /// exactly one timed run holds another number of them: the number found.
    MeasurementArityError(usize),
    /// There is no baseline to compare against.
    NoBaselinesFoundError,
}

/// The view of an optional text.
pub open spec fn opt_view(o: Option<String>) -> Option<Seq<char>> {
    match o {
        Some(s) => Some(s@),
        None => None,
    }
}

/// The text shown for an optional cause.
pub open spec fn cause_text(cause: Option<Seq<char>>) -> Seq<char> {
    match cause {
        Some(text) => text,
        None => "None"@,
    }
}

/// An `IOError` with each text as a sequence of characters.
pub enum IOErrorView {
    ReadErr(Seq<char>, Option<Seq<char>>),
    WriteErr(Seq<char>, Option<Seq<char>>),
    MissingFilenameErr(Seq<char>),
    FilenameNotUnicodeErr(Seq<char>),
    BadFileContentsErr(Seq<char>, Option<Seq<char>>),
    CommandErr(Option<Seq<char>>),
    CannotRecreateTempDirErr(Seq<char>, Seq<char>),
}

/// A `CalculateError` with each text as a sequence of characters.
pub enum CalculateErrorView {
    VersionParseFail(Seq<char>),
    MetricParseFail(Seq<char>),
    BadJSONErr(Seq<char>, Option<Seq<char>>),
    SerializationErr(Seq<char>),
    CalculateIOError(IOErrorView),
    HyperfineNonZeroExitCode(i32),
    MeasurementArityError(usize),
    NoBaselinesFoundError,
}

impl View for IOError {
    type V = IOErrorView;

    open spec fn view(&self) -> IOErrorView {
        match *self {
            IOError::ReadErr(path, cause) => IOErrorView::ReadErr(path@, opt_view(cause)),
            IOError::WriteErr(path, cause) => IOErrorView::WriteErr(path@, opt_view(cause)),
            IOError::MissingFilenameErr(path) => IOErrorView::MissingFilenameErr(path@),
            IOError::FilenameNotUnicodeErr(path) => IOErrorView::FilenameNotUnicodeErr(path@),
            IOError::BadFileContentsErr(path, cause) => IOErrorView::BadFileContentsErr(
                path@,
                opt_view(cause),
            ),
            IOError::CommandErr(cause) => IOErrorView::CommandErr(opt_view(cause)),
            IOError::CannotRecreateTempDirErr(path, cause) => IOErrorView::CannotRecreateTempDirErr(
                path@,
                cause@,
            ),
        }
    }
}

impl View for CalculateError {
    type V = CalculateErrorView;

    open spec fn view(&self) -> CalculateErrorView {
        match *self {
            CalculateError::VersionParseFail(input) => CalculateErrorView::VersionParseFail(input@),
            CalculateError::MetricParseFail(input) => CalculateErrorView::MetricParseFail(input@),
            CalculateError::BadJSONErr(path, cause) => CalculateErrorView::BadJSONErr(
                path@,
                opt_view(cause),
            ),
            CalculateError::SerializationErr(cause) => CalculateErrorView::SerializationErr(cause@),
            CalculateError::CalculateIOError(inner) => CalculateErrorView::CalculateIOError(inner@),
            CalculateError::HyperfineNonZeroExitCode(code) => {
                CalculateErrorView::HyperfineNonZeroExitCode(code)
            },
            CalculateError::MeasurementArityError(found) => {
                CalculateErrorView::MeasurementArityError(found)
            },
            CalculateError::NoBaselinesFoundError => CalculateErrorView::NoBaselinesFoundError,
        }
    }
}

impl IOErrorView {
    /// The text shown for this error.
    pub open spec fn message(self) -> Seq<char> {
        match self {
            IOErrorView::ReadErr(path, cause) => "ReadErr: The file cannot be read.\nFilepath: "@
                + path + "\nOriginating Exception: "@ + cause_text(cause),
            IOErrorView::WriteErr(path, cause) => {
                "WriteErr: The file cannot be written to.\nFilepath: "@ + path
                    + "\nOriginating Exception: "@ + cause_text(cause)
            },
            IOErrorView::MissingFilenameErr(path) => {
                "MissingFilenameErr: The path provided does not specify a file.\nFilepath: "@ + path
            },
            IOErrorView::FilenameNotUnicodeErr(path) => {
                "FilenameNotUnicodeErr: The filename is not expressible in unicode. Consider renaming the file.\nFilepath: "@
                    + path
            },
            IOErrorView::BadFileContentsErr(path, cause) => {
                "BadFileContentsErr: Check that the file exists and is readable.\nFilepath: "@
                    + path + "\nOriginating Exception: "@ + cause_text(cause)
            },
            IOErrorView::CommandErr(cause) => {
                "CommandErr: System command failed to run.\nOriginating Exception: "@ + cause_text(
                    cause,
                )
            },
            IOErrorView::CannotRecreateTempDirErr(path, cause) => {
                "CannotRerreateTempDirErr: attempted to delete and recreate temp dir at path "@
                    + path + "\nOriginating Exception: "@ + cause
            },
        }
    }
}

impl CalculateErrorView {
    /// The text shown for this error.
    pub open spec fn message(self) -> Seq<char> {
        match self {
            CalculateErrorView::VersionParseFail(input) => {
                "VersionParseFail: Error parsing input `"@ + input
                    + "`. Must be in the format \"major.minor.patch\" where each component is an integer."@
            },
            CalculateErrorView::MetricParseFail(input) => {
                "MetricParseFail: Error parsing input `"@ + input
                    + "`. Must be in the format \"metricname___projectname\" with no file extensions."@
            },
            CalculateErrorView::BadJSONErr(path, cause) => {
                "BadJSONErr: JSON in file cannot be deserialized as expected.\nFilepath: "@ + path
                    + "\nOriginating Exception: "@ + cause_text(cause)
            },
            CalculateErrorView::SerializationErr(cause) => {
                "SerializationErr: Object cannot be serialized as expected.\nOriginating Exception: "@
                    + cause
            },
            CalculateErrorView::CalculateIOError(inner) => inner.message(),
            CalculateErrorView::HyperfineNonZeroExitCode(code) => {
                "Hyperfine child process exited with non-zero exit code: "@ + decimal(code as int)
            },
            CalculateErrorView::MeasurementArityError(found) => {
                "MeasurementArityError: Unexpected number of measurements in the benchmark output: "@ + nat_digits(
                    found as nat,
                )
            },
            CalculateErrorView::NoBaselinesFoundError => {
                "NoBaselinesFoundError: No baselines found to compare against."@
            },
        }
    }
}

/// The text shown for an optional cause.
fn cause_str(cause: &Option<String>) -> (r: &str)
    ensures
        r@ == cause_text(opt_view(*cause)),
{
    match cause {
        Some(text) => text.as_str(),
        None => "None",
    }
}

/// `head`, then `path`, then the line that names the cause.
fn with_path_and_cause(head: &str, path: &String, cause: &str) -> (r: String)
    ensures
        r@ == head@ + path@ + "\nOriginating Exception: "@ + cause@,
{
    let mut r = String::from_str(head);
    r.append(path.as_str());
    r.append("\nOriginating Exception: ");
    r.append(cause);
    r
}

impl IOError {
    /// The text shown for this error.
    pub fn message(&self) -> (r: String)
        ensures
            r@ == self@.message(),
    {
        match self {
            IOError::ReadErr(path, cause) => with_path_and_cause(
                "ReadErr: The file cannot be read.\nFilepath: ",
                path,
                cause_str(cause),
            ),
            IOError::WriteErr(path, cause) => with_path_and_cause(
                "WriteErr: The file cannot be written to.\nFilepath: ",
                path,
                cause_str(cause),
            ),
            IOError::MissingFilenameErr(path) => String::from_str(
                "MissingFilenameErr: The path provided does not specify a file.\nFilepath: ",
            ).concat(path.as_str()),
            IOError::FilenameNotUnicodeErr(path) => String::from_str(
                "FilenameNotUnicodeErr: The filename is not expressible in unicode. Consider renaming the file.\nFilepath: ",
            ).concat(path.as_str()),
            IOError::BadFileContentsErr(path, cause) => with_path_and_cause(
                "BadFileContentsErr: Check that the file exists and is readable.\nFilepath: ",
                path,
                cause_str(cause),
            ),
            IOError::CommandErr(cause) => String::from_str(
                "CommandErr: System command failed to run.\nOriginating Exception: ",
            ).concat(cause_str(cause)),
            IOError::CannotRecreateTempDirErr(path, cause) => with_path_and_cause(
                "CannotRerreateTempDirErr: attempted to delete and recreate temp dir at path ",
                path,
                cause.as_str(),
            ),
        }
    }
}

impl CalculateError {
    /// The text shown for this error.
    pub fn message(&self) -> (r: String)
        ensures
            r@ == self@.message(),
    {
        match self {
            CalculateError::VersionParseFail(input) => String::from_str(
                "VersionParseFail: Error parsing input `",
            ).concat(input.as_str()).concat(
                "`. Must be in the format \"major.minor.patch\" where each component is an integer.",
            ),
            CalculateError::MetricParseFail(input) => String::from_str(
                "MetricParseFail: Error parsing input `",
            ).concat(input.as_str()).concat(
                "`. Must be in the format \"metricname___projectname\" with no file extensions.",
            ),
            CalculateError::BadJSONErr(path, cause) => with_path_and_cause(
                "BadJSONErr: JSON in file cannot be deserialized as expected.\nFilepath: ",
                path,
                cause_str(cause),
            ),
            CalculateError::SerializationErr(cause) => String::from_str(
                "SerializationErr: Object cannot be serialized as expected.\nOriginating Exception: ",
            ).concat(cause.as_str()),
            CalculateError::CalculateIOError(inner) => inner.message(),
            CalculateError::HyperfineNonZeroExitCode(code) => String::from_str(
                "Hyperfine child process exited with non-zero exit code: ",
            ).concat(decimal_string(*code as i64).as_str()),
            CalculateError::MeasurementArityError(found) => String::from_str(
                "MeasurementArityError: Unexpected number of measurements in the benchmark output: ",
            ).concat(nat_string(*found as u64).as_str()),
            CalculateError::NoBaselinesFoundError => String::from_str(
                "NoBaselinesFoundError: No baselines found to compare against.",
            ),
        }
    }
}

impl From<IOError> for CalculateError {
    fn from(item: IOError) -> (r: CalculateError) {
        CalculateError::CalculateIOError(item)
    }
}

impl FromSpecImpl<IOError> for CalculateError {
    open spec fn obeys_from_spec() -> bool {
        true
    }

    open spec fn from_spec(item: IOError) -> CalculateError {
        CalculateError::CalculateIOError(item)
    }
}

} // verus!
