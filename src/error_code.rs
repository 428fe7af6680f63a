//! The error codes carried by RST_STREAM and GOAWAY.
use vstd::prelude::*;

verus! {

/// Error codes of RFC 7540 section 7.
#[derive(Clone, Copy, Debug, PartialEq, Eq, Structural)]
pub enum ErrorCode {
    NoError,
    ProtocolError,
    InternalError,
    FlowControlError,
    SettingsTimeout,
    StreamClosed,
    FrameSizeError,
    RefusedStream,
    Cancel,
    CompressionError,
    ConnectError,
    EnhanceYourCalm,
    InadequateSecurity,
    Http11Required,
}

/// The 32-bit value that stands for the code on the wire.
pub open spec fn code_value(e: ErrorCode) -> u32 {
    match e {
        ErrorCode::NoError => 0,
        ErrorCode::ProtocolError => 1,
        ErrorCode::InternalError => 2,
        ErrorCode::FlowControlError => 3,
        ErrorCode::SettingsTimeout => 4,
        ErrorCode::StreamClosed => 5,
        ErrorCode::FrameSizeError => 6,
        ErrorCode::RefusedStream => 7,
        ErrorCode::Cancel => 8,
        ErrorCode::CompressionError => 9,
        ErrorCode::ConnectError => 10,
        ErrorCode::EnhanceYourCalm => 11,
        ErrorCode::InadequateSecurity => 12,
        ErrorCode::Http11Required => 13,
    }
}

impl ErrorCode {
    /// Wire value of the code.
    pub fn raw(self) -> (r: u32)
        ensures
            r == code_value(self),
    {
        match self {
            ErrorCode::NoError => 0,
            ErrorCode::ProtocolError => 1,
            ErrorCode::InternalError => 2,
            ErrorCode::FlowControlError => 3,
            ErrorCode::SettingsTimeout => 4,
            ErrorCode::StreamClosed => 5,
            ErrorCode::FrameSizeError => 6,
            ErrorCode::RefusedStream => 7,
            ErrorCode::Cancel => 8,
            ErrorCode::CompressionError => 9,
            ErrorCode::ConnectError => 10,
            ErrorCode::EnhanceYourCalm => 11,
            ErrorCode::InadequateSecurity => 12,
            ErrorCode::Http11Required => 13,
        }
    }

    /// Code for a wire value; values this protocol version does not define
    /// are treated as INTERNAL_ERROR, as RFC 7540 section 7 allows.
    pub fn from_raw(v: u32) -> (r: ErrorCode)
        ensures
            v <= 13 ==> code_value(r) == v,
            v > 13 ==> r == ErrorCode::InternalError,
    {
        match v {
            0 => ErrorCode::NoError,
            1 => ErrorCode::ProtocolError,
            2 => ErrorCode::InternalError,
            3 => ErrorCode::FlowControlError,
            4 => ErrorCode::SettingsTimeout,
            5 => ErrorCode::StreamClosed,
            6 => ErrorCode::FrameSizeError,
            7 => ErrorCode::RefusedStream,
            8 => ErrorCode::Cancel,
            9 => ErrorCode::CompressionError,
            10 => ErrorCode::ConnectError,
            11 => ErrorCode::EnhanceYourCalm,
            12 => ErrorCode::InadequateSecurity,
            13 => ErrorCode::Http11Required,
            _ => ErrorCode::InternalError,
        }
    }
}

} // verus!
