//! Errors produced while decoding command lines, and their mapping to
//! control-connection replies.

use vstd::prelude::*;

use crate::ftp::{Answer, AnswerV, ResultCode};

verus! {

#[verifier::external_type_specification]
#[verifier::external_body]
pub struct ExIoError(std::io::Error);

/// What can go wrong while framing and parsing a command line.
#[derive(Debug)]
pub enum Error {
    FromUtf8,
    Io(std::io::Error),
    Msg(String),
    Utf8,
}

/// Mathematical view of an [`Error`].
pub enum ErrorV {
    FromUtf8,
    Io,
    Msg(Seq<char>),
    Utf8,
}

impl View for Error {
    type V = ErrorV;

    open spec fn view(&self) -> ErrorV {
        match self {
            Error::FromUtf8 => ErrorV::FromUtf8,
            Error::Io(_) => ErrorV::Io,
            Error::Msg(s) => ErrorV::Msg(s@),
            Error::Utf8 => ErrorV::Utf8,
        }
    }
}

/// Relies on `std::io::Error::from(std::io::ErrorKind)`: builds an error of
/// the given kind.
#[verifier::external_body]
fn other_io_error() -> std::io::Error {
    std::io::ErrorKind::Other.into()
}

/// The reply sent for a command line that could not be parsed: the argument
/// rejected by `TYPE` gets its own code, every other parse failure is a bad
/// argument; an I/O error is a local processing error.
pub open spec fn spec_error_answer(e: ErrorV) -> AnswerV {
    match e {
        ErrorV::Msg(m) => if m == "command not implemented for that parameter"@ {
            AnswerV { code: ResultCode::CommandNotImplementedForThatParameter, message: m }
        } else {
            AnswerV { code: ResultCode::InvalidParameterOrArgument, message: m }
        },
        ErrorV::Utf8 | ErrorV::FromUtf8 => AnswerV {
            code: ResultCode::InvalidParameterOrArgument,
            message: "invalid UTF-8"@,
        },
        ErrorV::Io => AnswerV {
            code: ResultCode::LocalErrorInProcessing,
            message: "local error"@,
        },
    }
}

impl Error {
    /// An error that carries a plain text message.
    pub fn msg(message: &str) -> (e: Error)
        ensures
            e@ == ErrorV::Msg(message@),
    {
        Error::Msg(message.to_owned())
    }

    /// Collapse this error into a `std::io::Error` for unverified callers.
    pub fn to_io_error(self) -> std::io::Error {
        match self {
            Error::Io(error) => error,
            _ => other_io_error(),
        }
    }

    /// The reply to send on the control connection for this error.
    pub fn answer(&self) -> (a: Answer)
        ensures
            a@ == spec_error_answer(self@),
    {
        match self {
            Error::Msg(s) => {
                let t: String = "command not implemented for that parameter".to_owned();
                if *s == t {
                    Answer::new(ResultCode::CommandNotImplementedForThatParameter, s.as_str())
                } else {
                    Answer::new(ResultCode::InvalidParameterOrArgument, s.as_str())
                }
            },
            Error::Utf8 | Error::FromUtf8 => Answer::new(
                ResultCode::InvalidParameterOrArgument,
                "invalid UTF-8",
            ),
            Error::Io(_) => Answer::new(ResultCode::LocalErrorInProcessing, "local error"),
        }
    }
}

} // verus!
