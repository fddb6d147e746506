//! Reply codes and the `Answer` (status code plus message) sent on the
//! control connection.

use vstd::prelude::*;

verus! {

/// The standard protocol reply codes used by this server.
#[derive(Clone, Copy, Debug, PartialEq, Eq, Structural)]
pub enum ResultCode {
    RestartMarkerReply,
    ServiceReadInXXXMinutes,
    DataConnectionAlreadyOpen,
    FileStatusOk,
    Okay,
    CommandNotImplementedSuperfluousAtThisSite,
    SystemStatus,
    DirectoryStatus,
    FileStatus,
    HelpMessage,
    SystemType,
    ServiceReadyForNewUser,
    ServiceClosingControlConnection,
    DataConnectionOpen,
    ClosingDataConnection,
    EnteringPassiveMode,
    UserLoggedIn,
    RequestedFileActionOkay,
    PATHNAMECreated,
    UserNameOkayNeedPassword,
    NeedAccountForLogin,
    RequestedFileActionPendingFurtherInformation,
    ServiceNotAvailable,
    CantOpenDataConnection,
    ConnectionClosed,
    FileBusy,
    LocalErrorInProcessing,
    InsufficientStorageSpace,
    UnknownCommand,
    InvalidParameterOrArgument,
    CommandNotImplemented,
    BadSequenceOfCommands,
    CommandNotImplementedForThatParameter,
    NotLoggedIn,
    NeedAccountForStoringFiles,
    FileNotFound,
    PageTypeUnknown,
    ExceededStorageAllocation,
    FileNameNotAllowed,
}

impl ResultCode {
    /// The numeric value of this reply code on the wire.
    pub open spec fn spec_to_u32(self) -> u32 {
        match self {
            ResultCode::RestartMarkerReply => 110,
            ResultCode::ServiceReadInXXXMinutes => 120,
            ResultCode::DataConnectionAlreadyOpen => 125,
            ResultCode::FileStatusOk => 150,
            ResultCode::Okay => 200,
            ResultCode::CommandNotImplementedSuperfluousAtThisSite => 202,
            ResultCode::SystemStatus => 211,
            ResultCode::DirectoryStatus => 212,
            ResultCode::FileStatus => 213,
            ResultCode::HelpMessage => 214,
            ResultCode::SystemType => 215,
            ResultCode::ServiceReadyForNewUser => 220,
            ResultCode::ServiceClosingControlConnection => 221,
            ResultCode::DataConnectionOpen => 225,
            ResultCode::ClosingDataConnection => 226,
            ResultCode::EnteringPassiveMode => 227,
            ResultCode::UserLoggedIn => 230,
            ResultCode::RequestedFileActionOkay => 250,
            ResultCode::PATHNAMECreated => 257,
            ResultCode::UserNameOkayNeedPassword => 331,
            ResultCode::NeedAccountForLogin => 332,
            ResultCode::RequestedFileActionPendingFurtherInformation => 350,
            ResultCode::ServiceNotAvailable => 421,
            ResultCode::CantOpenDataConnection => 425,
            ResultCode::ConnectionClosed => 426,
            ResultCode::FileBusy => 450,
            ResultCode::LocalErrorInProcessing => 451,
            ResultCode::InsufficientStorageSpace => 452,
            ResultCode::UnknownCommand => 500,
            ResultCode::InvalidParameterOrArgument => 501,
            ResultCode::CommandNotImplemented => 502,
            ResultCode::BadSequenceOfCommands => 503,
            ResultCode::CommandNotImplementedForThatParameter => 504,
            ResultCode::NotLoggedIn => 530,
            ResultCode::NeedAccountForStoringFiles => 532,
            ResultCode::FileNotFound => 550,
            ResultCode::PageTypeUnknown => 551,
            ResultCode::ExceededStorageAllocation => 552,
            ResultCode::FileNameNotAllowed => 553,
        }
    }

    /// The numeric value of this reply code on the wire.
    #[verifier::when_used_as_spec(spec_to_u32)]
    pub fn to_u32(self) -> (n: u32)
        ensures
            n == self.spec_to_u32(),
    {
        match self {
            ResultCode::RestartMarkerReply => 110,
            ResultCode::ServiceReadInXXXMinutes => 120,
            ResultCode::DataConnectionAlreadyOpen => 125,
            ResultCode::FileStatusOk => 150,
            ResultCode::Okay => 200,
            ResultCode::CommandNotImplementedSuperfluousAtThisSite => 202,
            ResultCode::SystemStatus => 211,
            ResultCode::DirectoryStatus => 212,
            ResultCode::FileStatus => 213,
            ResultCode::HelpMessage => 214,
            ResultCode::SystemType => 215,
            ResultCode::ServiceReadyForNewUser => 220,
            ResultCode::ServiceClosingControlConnection => 221,
            ResultCode::DataConnectionOpen => 225,
            ResultCode::ClosingDataConnection => 226,
            ResultCode::EnteringPassiveMode => 227,
            ResultCode::UserLoggedIn => 230,
            ResultCode::RequestedFileActionOkay => 250,
            ResultCode::PATHNAMECreated => 257,
            ResultCode::UserNameOkayNeedPassword => 331,
            ResultCode::NeedAccountForLogin => 332,
            ResultCode::RequestedFileActionPendingFurtherInformation => 350,
            ResultCode::ServiceNotAvailable => 421,
            ResultCode::CantOpenDataConnection => 425,
            ResultCode::ConnectionClosed => 426,
            ResultCode::FileBusy => 450,
            ResultCode::LocalErrorInProcessing => 451,
            ResultCode::InsufficientStorageSpace => 452,
            ResultCode::UnknownCommand => 500,
            ResultCode::InvalidParameterOrArgument => 501,
            ResultCode::CommandNotImplemented => 502,
            ResultCode::BadSequenceOfCommands => 503,
            ResultCode::CommandNotImplementedForThatParameter => 504,
            ResultCode::NotLoggedIn => 530,
            ResultCode::NeedAccountForStoringFiles => 532,
            ResultCode::FileNotFound => 550,
            ResultCode::PageTypeUnknown => 551,
            ResultCode::ExceededStorageAllocation => 552,
            ResultCode::FileNameNotAllowed => 553,
        }
    }
}

/// A reply on the control connection: a code and a human-readable message.
#[derive(Debug, Clone, PartialEq, Eq)]
pub struct Answer {
    pub code: ResultCode,
    pub message: String,
}

/// Mathematical view of an [`Answer`]: the code and the message characters.
pub struct AnswerV {
    pub code: ResultCode,
    pub message: Seq<char>,
}

impl View for Answer {
    type V = AnswerV;

    open spec fn view(&self) -> AnswerV {
        AnswerV { code: self.code, message: self.message@ }
    }
}

impl Answer {
    pub fn new(code: ResultCode, message: &str) -> (a: Answer)
        ensures
            a.code == code,
            a.message@ == message@,
    {
        Answer { code, message: message.to_owned() }
    }
}

} // verus!
