use vstd::prelude::*;

use crate::frame::FrameError;
use crate::page::PageError;
use crate::sign_type::SignTypeError;

verus! {

/// The kind of error raised while handling frames, pages and sign types.
#[derive(Debug, Copy, Clone, PartialEq, Eq, Structural)]
#[non_exhaustive]
pub enum ErrorKind {
    /// Data exceeded the maximum of 255 bytes.
    DataTooLong,
    /// Failed reading or writing a frame of data.
    Io,
    /// Failed to parse data into a frame.
    InvalidFrame,
    /// Frame data did not match the declared length.
    FrameDataMismatch,
    /// Frame checksum did not match the declared checksum.
    BadChecksum,
    /// Sign configuration data was not 16 bytes long.
    WrongConfigLength,
    /// Configuration data did not match any known sign.
    UnknownConfig,
    /// Data length did not match the width and height of the page.
    WrongPageLength,
}

/// A value that exceeded its maximum.
#[derive(Debug, Clone, PartialEq, Eq)]
pub struct MaxExceededError {
    /// The maximum that was exceeded.
    pub max: usize,
    /// The value that was provided.
    pub actual: usize,
    /// Which value was invalid.
    pub message: String,
}

impl MaxExceededError {
    /// Creates a `MaxExceededError` for a given failure.
    pub fn new(max: usize, actual: usize, message: String) -> (r: MaxExceededError)
        ensures
            r.max == max,
            r.actual == actual,
            r.message@ == message@,
    {
        MaxExceededError { max, actual, message }
    }
}

/// A value that did not match what was expected.
#[derive(Debug, Clone, PartialEq, Eq)]
pub struct WrongValueError {
    /// The expected value.
    pub expected: usize,
    /// The value that was provided.
    pub actual: usize,
    /// Which value was invalid.
    pub message: String,
}

impl WrongValueError {
    /// Creates a `WrongValueError` for a given failure.
    pub fn new(expected: usize, actual: usize, message: String) -> (r: WrongValueError)
        ensures
            r.expected == expected,
            r.actual == actual,
            r.message@ == message@,
    {
        WrongValueError { expected, actual, message }
    }
}

impl FrameError {
    /// The kind of this error.
    pub fn kind(&self) -> (r: ErrorKind)
        ensures
            r == match self {
                FrameError::DataTooLong { .. } => ErrorKind::DataTooLong,
                FrameError::Io { .. } => ErrorKind::Io,
                FrameError::InvalidFrame { .. } => ErrorKind::InvalidFrame,
                FrameError::FrameDataMismatch { .. } => ErrorKind::FrameDataMismatch,
                FrameError::BadChecksum { .. } => ErrorKind::BadChecksum,
            },
    {
        match self {
            FrameError::DataTooLong { .. } => ErrorKind::DataTooLong,
            FrameError::Io { .. } => ErrorKind::Io,
            FrameError::InvalidFrame { .. } => ErrorKind::InvalidFrame,
            FrameError::FrameDataMismatch { .. } => ErrorKind::FrameDataMismatch,
            FrameError::BadChecksum { .. } => ErrorKind::BadChecksum,
        }
    }
}

impl SignTypeError {
    /// The kind of this error.
    pub fn kind(&self) -> (r: ErrorKind)
        ensures
            r == match self {
                SignTypeError::WrongConfigLength { .. } => ErrorKind::WrongConfigLength,
                SignTypeError::UnknownConfig { .. } => ErrorKind::UnknownConfig,
            },
    {
        match self {
            SignTypeError::WrongConfigLength { .. } => ErrorKind::WrongConfigLength,
            SignTypeError::UnknownConfig { .. } => ErrorKind::UnknownConfig,
        }
    }
}

impl PageError {
    /// The kind of this error.
    pub fn kind(&self) -> (r: ErrorKind)
        ensures
            r == ErrorKind::WrongPageLength,
    {
        ErrorKind::WrongPageLength
    }
}

} // verus!
