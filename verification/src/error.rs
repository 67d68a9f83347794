use vstd::prelude::*;

verus! {

/// What a device command left behind when it ended with a status other
/// than success.
#[derive(Debug)]
pub struct ExitError {
    /// The exit code, where the process had one.
    pub status: Option<i32>,
    /// Everything the command wrote to its standard output.
    pub stdout: Vec<u8>,
    /// Everything the command wrote to its standard error.
    pub stderr: Vec<u8>,
}

/// The ways in which an operation of this library fails.
#[derive(Debug)]
pub enum Error {
    /// A line of output that had to be there was missing.
    UnexpectedEof,
    /// Bytes that do not have the form they must have.
    InvalidData,
    /// The device command ended with a status other than success.
    ExternalCommandFailed(ExitError),
    /// Local input or output failed.
    Io,
}

impl Error {
    /// A short description for diagnostics.
    pub fn describe(&self) -> (text: &'static str)
        ensures
            text@ == (match *self {
                Error::UnexpectedEof => "unexpected end of output"@,
                Error::InvalidData => "invalid data"@,
                Error::ExternalCommandFailed(_) => "external command failed"@,
                Error::Io => "input or output failed"@,
            }),
    {
        match self {
            Error::UnexpectedEof => "unexpected end of output",
            Error::InvalidData => "invalid data",
            Error::ExternalCommandFailed(_) => "external command failed",
            Error::Io => "input or output failed",
        }
    }
}

} // verus!
