//! The errors that the engine reports, by class.
use vstd::prelude::*;
use vstd::string::StringExecFns;

verus! {

/// `std::io::Error`, carried through unread.
#[verifier::external_type_specification]
#[verifier::external_body]
pub struct ExIoError(std::io::Error);

/// What went wrong, by class. Only a configuration error stops a run; the
/// other classes concern one rule and are reported while the run goes on.
#[derive(Debug)]
pub enum AppError {
    /// A file or process could not be read.
    Io(std::io::Error),
    /// A script rule could not be imported or run.
    Python(String),
    /// A script rule file is not safe to run.
    Security(String),
    /// The configuration names something that cannot be resolved.
    Config(String),
}

pub type AppResult<T> = Result<T, AppError>;

/// What `message` puts before the detail of an I/O error.
pub open spec fn io_prefix() -> Seq<char> {
    "I/O error: "@
}

/// What `message` puts before the detail of a script error.
pub open spec fn python_prefix() -> Seq<char> {
    "Python error: "@
}

/// What `message` puts before the detail of a security error.
pub open spec fn security_prefix() -> Seq<char> {
    "Security violation: "@
}

/// What `message` puts before the detail of a configuration error.
pub open spec fn config_prefix() -> Seq<char> {
    "Configuration error: "@
}

impl AppError {
    /// The error as a line for the user: the name of its class, then the
    /// detail.
    pub fn to_string(&self) -> (line: String)
        ensures
            match self {
                AppError::Io(_) => io_prefix().is_prefix_of(line@),
                AppError::Python(detail) => line@ == python_prefix() + detail@,
                AppError::Security(detail) => line@ == security_prefix() + detail@,
                AppError::Config(detail) => line@ == config_prefix() + detail@,
            },
    {
        match self {
            AppError::Io(error) => {
                let mut line = "I/O error: ".to_owned();
                let detail = error.to_string();
                line.append(detail.as_str());
                line
            },
            AppError::Python(detail) => {
                let mut line = "Python error: ".to_owned();
                line.append(detail.as_str());
                line
            },
            AppError::Security(detail) => {
                let mut line = "Security violation: ".to_owned();
                line.append(detail.as_str());
                line
            },
            AppError::Config(detail) => {
                let mut line = "Configuration error: ".to_owned();
                line.append(detail.as_str());
                line
            },
        }
    }
}

} // verus!
