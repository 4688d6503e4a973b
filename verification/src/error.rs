//! The failures of an install, as one closed type.
//!
//! Every failure reaches the user as a line of text in the end:
//! [`InstallError::message`] gives that line, and [`convert_err`] applies it
//! to a whole result.

use vstd::prelude::*;
use vstd::string::*;

verus! {

/// What went wrong, by kind; most kinds carry the detail that the failing
/// step reported.
#[derive(Debug, PartialEq, Eq)]
pub enum InstallError {
    /// A request could not be sent or its answer could not be read.
    NetworkError(String),
    /// A document could not be decoded or encoded.
    DecodeError(String),
    /// A file or directory could not be read, written or created.
    IOError(String),
    /// An executable could not be located; the field is the path that was
    /// tried, empty where no path is known.
    MissingExecutable(String),
    /// The system names no local data directory.
    NoLocalDataDirectory,
    /// A file of default applications has no section for them.
    NoDefaultApplicationsSection,
}

/// An [`InstallError`] with its texts as sequences of characters.
pub enum ErrorModel {
    NetworkError(Seq<char>),
    DecodeError(Seq<char>),
    IOError(Seq<char>),
    MissingExecutable(Seq<char>),
    NoLocalDataDirectory,
    NoDefaultApplicationsSection,
}

impl View for InstallError {
    type V = ErrorModel;

    open spec fn view(&self) -> ErrorModel {
        match self {
            InstallError::NetworkError(detail) => ErrorModel::NetworkError(detail@),
            InstallError::DecodeError(detail) => ErrorModel::DecodeError(detail@),
            InstallError::IOError(detail) => ErrorModel::IOError(detail@),
            InstallError::MissingExecutable(path) => ErrorModel::MissingExecutable(path@),
            InstallError::NoLocalDataDirectory => ErrorModel::NoLocalDataDirectory,
            InstallError::NoDefaultApplicationsSection => ErrorModel::NoDefaultApplicationsSection,
        }
    }
}

/// The line of text that stands for an error.
pub open spec fn message_of(e: ErrorModel) -> Seq<char> {
    match e {
        ErrorModel::NetworkError(detail) => detail,
        ErrorModel::DecodeError(detail) => detail,
        ErrorModel::IOError(detail) => detail,
        ErrorModel::MissingExecutable(_) => "Couldnt locate the binary"@,
        ErrorModel::NoLocalDataDirectory => "an xdg dir dosent exist"@,
        ErrorModel::NoDefaultApplicationsSection =>
            "Couldnt find [Default Applications] in mimetypes"@,
    }
}

impl InstallError {
    /// The line of text to show for this error.
    pub fn message(&self) -> (text: String)
        ensures
            text@ == message_of(self@),
    {
        match self {
            InstallError::NetworkError(detail) => detail.clone(),
            InstallError::DecodeError(detail) => detail.clone(),
            InstallError::IOError(detail) => detail.clone(),
            InstallError::MissingExecutable(_) => String::from_str("Couldnt locate the binary"),
            InstallError::NoLocalDataDirectory => String::from_str("an xdg dir dosent exist"),
            InstallError::NoDefaultApplicationsSection => String::from_str(
                "Couldnt find [Default Applications] in mimetypes",
            ),
        }
    }

    /// A copy of this error.
    pub fn duplicate(&self) -> (copy: InstallError)
        ensures
            copy@ == self@,
    {
        match self {
            InstallError::NetworkError(detail) => InstallError::NetworkError(detail.clone()),
            InstallError::DecodeError(detail) => InstallError::DecodeError(detail.clone()),
            InstallError::IOError(detail) => InstallError::IOError(detail.clone()),
            InstallError::MissingExecutable(path) => InstallError::MissingExecutable(path.clone()),
            InstallError::NoLocalDataDirectory => InstallError::NoLocalDataDirectory,
            InstallError::NoDefaultApplicationsSection => InstallError::NoDefaultApplicationsSection,
        }
    }
}

/// The path of the running program cannot be written as text.
#[derive(Debug, Clone, Copy, PartialEq, Eq)]
pub struct CouldntLocateExe;

/// The system names no directory of the kind that was asked for.
#[derive(Debug, Clone, Copy, PartialEq, Eq)]
pub struct CouldntGetFolder;

/// A file of default applications has no section for them.
#[derive(Debug, Clone, Copy, PartialEq, Eq)]
pub struct CouldntFindDefault;

impl CouldntLocateExe {
    /// The line of text to show for this error.
    pub fn message(&self) -> (text: String)
        ensures
            text@ == "Couldnt locate the binary"@,
    {
        String::from_str("Couldnt locate the binary")
    }

    /// The error of the closed type that this one stands for; it is shown
    /// with the same text.
    pub fn into_error(self) -> (e: InstallError)
        ensures
            e@ == ErrorModel::MissingExecutable(Seq::<char>::empty()),
            message_of(e@) == "Couldnt locate the binary"@,
    {
        InstallError::MissingExecutable(String::new())
    }
}

impl CouldntGetFolder {
    /// The line of text to show for this error.
    pub fn message(&self) -> (text: String)
        ensures
            text@ == "an xdg dir dosent exist"@,
    {
        String::from_str("an xdg dir dosent exist")
    }

    /// The error of the closed type that this one stands for; it is shown
    /// with the same text.
    pub fn into_error(self) -> (e: InstallError)
        ensures
            e@ == ErrorModel::NoLocalDataDirectory,
            message_of(e@) == "an xdg dir dosent exist"@,
    {
        InstallError::NoLocalDataDirectory
    }
}

impl CouldntFindDefault {
    /// The line of text to show for this error.
    pub fn message(&self) -> (text: String)
        ensures
            text@ == "Couldnt find [Default Applications] in mimetypes"@,
    {
        String::from_str("Couldnt find [Default Applications] in mimetypes")
    }

    /// The error of the closed type that this one stands for; it is shown
    /// with the same text.
    pub fn into_error(self) -> (e: InstallError)
        ensures
            e@ == ErrorModel::NoDefaultApplicationsSection,
            message_of(e@) == "Couldnt find [Default Applications] in mimetypes"@,
    {
        InstallError::NoDefaultApplicationsSection
    }
}

/// Turns the error of a result into the line of text to show for it; a
/// success passes through unchanged.
pub fn convert_err<T>(check: Result<T, InstallError>) -> (shown: Result<T, String>)
    ensures
        match check {
            Ok(value) => shown == Ok::<T, String>(value),
            Err(e) => shown matches Err(text) && text@ == message_of(e@),
        },
{
    match check {
        Ok(value) => Ok(value),
        Err(e) => Err(e.message()),
    }
}

} // verus!
