//! The errors of the receiver, of the ledger client and of the sender.

use crate::messages::{ClientMessages, ServerMessages};
use crate::text::{decimal, decimal_text};
use vstd::prelude::*;
use vstd::string::*;

verus! {

/// Failures of one exchange with the ledger.
#[derive(Debug)]
pub enum ScottyError {
    /// A request or response body could not be encoded or decoded.
    SerdeError(String),
    /// The HTTP exchange itself failed.
    HttpError(String),
    /// The ledger answered with a status that is neither success nor a
    /// transient upstream failure: the status and the address.
    ScottyError(u16, String),
    /// Every attempt met a transient upstream failure.
    ScottyIsDown,
    /// Reading the response failed.
    IoError(String),
}

pub type ScottyResult<T> = Result<T, ScottyError>;

/// Failures of one receiving session.
#[derive(Debug)]
pub enum TransporterError {
    InvalidClientMessageCode(u8),
    InvalidProtocolVersion(u16),
    UnexpectedClientMessageCode(ClientMessages),
    ScottyError(ScottyError),
    /// The sender closed the connection in the middle of a file.
    ClientEOF,
    ClientIoError(String),
    StorageIoError(String),
    /// A file grew past the largest size the ledger can record.
    FileTooLarge,
}

pub type TransporterResult<T> = Result<T, TransporterError>;

/// Failures of one sending session.
#[derive(Debug)]
pub enum SenderError {
    InvalidServerMessageCode(u8),
    UnexpectedServerMessage(ServerMessages),
    IoError(String),
    /// The announced name does not fit the two-byte length field.
    FileNameTooLong,
}

impl ScottyError {
    pub open spec fn message(&self) -> Seq<char> {
        match self {
            ScottyError::SerdeError(e) => "Serde Error: "@ + e@,
            ScottyError::HttpError(e) => "HTTP Error: "@ + e@,
            ScottyError::ScottyError(code, url) => "Scotty returned "@ + decimal(*code as nat)
                + " for "@ + url@,
            ScottyError::ScottyIsDown => "Scotty is unreachable"@,
            ScottyError::IoError(e) => "IO Error: "@ + e@,
        }
    }

    /// A description of the failure.
    pub fn to_string(&self) -> (r: String)
        ensures
            r@ == self.message(),
    {
        match self {
            ScottyError::SerdeError(e) => String::from_str("Serde Error: ").concat(e.as_str()),
            ScottyError::HttpError(e) => String::from_str("HTTP Error: ").concat(e.as_str()),
            ScottyError::ScottyError(code, url) => {
                let digits = decimal_text(*code as u64);
                String::from_str("Scotty returned ").concat(digits.as_str()).concat(
                    " for ",
                ).concat(url.as_str())
            },
            ScottyError::ScottyIsDown => String::from_str("Scotty is unreachable"),
            ScottyError::IoError(e) => String::from_str("IO Error: ").concat(e.as_str()),
        }
    }
}

impl TransporterError {
    pub open spec fn message(&self) -> Seq<char> {
        match self {
            TransporterError::InvalidClientMessageCode(c) => "Invalid message code: "@ + decimal(
                *c as nat,
            ),
            TransporterError::InvalidProtocolVersion(v) => "Invalid protocol version: "@
                + decimal(*v as nat),
            TransporterError::UnexpectedClientMessageCode(m) => "Unexpected message code: "@
                + m.name(),
            TransporterError::ScottyError(e) => "Scotty error: "@ + e.message(),
            TransporterError::ClientEOF => "Client close the connection in a middle of a beam"@,
            TransporterError::ClientIoError(e) => "Client IO error: "@ + e@,
            TransporterError::StorageIoError(e) => "Storage IO error: "@ + e@,
            TransporterError::FileTooLarge => "File is too large"@,
        }
    }

    /// Whether the failure is the sender going away, an ordinary event that
    /// is not worth reporting beyond the ledger.
    pub open spec fn disconnection(&self) -> bool {
        self is ClientIoError || self is ClientEOF
    }

    pub fn is_disconnection(&self) -> (r: bool)
        ensures
            r == self.disconnection(),
    {
        matches!(*self, TransporterError::ClientIoError(_) | TransporterError::ClientEOF)
    }

    /// A description of the failure.
    pub fn to_string(&self) -> (r: String)
        ensures
            r@ == self.message(),
    {
        match self {
            TransporterError::InvalidClientMessageCode(c) => {
                let digits = decimal_text(*c as u64);
                String::from_str("Invalid message code: ").concat(digits.as_str())
            },
            TransporterError::InvalidProtocolVersion(v) => {
                let digits = decimal_text(*v as u64);
                String::from_str("Invalid protocol version: ").concat(digits.as_str())
            },
            TransporterError::UnexpectedClientMessageCode(m) => {
                let name = m.to_string();
                String::from_str("Unexpected message code: ").concat(name.as_str())
            },
            TransporterError::ScottyError(e) => {
                let inner = e.to_string();
                String::from_str("Scotty error: ").concat(inner.as_str())
            },
            TransporterError::ClientEOF => String::from_str(
                "Client close the connection in a middle of a beam",
            ),
            TransporterError::ClientIoError(e) => String::from_str("Client IO error: ").concat(
                e.as_str(),
            ),
            TransporterError::StorageIoError(e) => String::from_str("Storage IO error: ").concat(
                e.as_str(),
            ),
            TransporterError::FileTooLarge => String::from_str("File is too large"),
        }
    }
}

impl SenderError {
    pub open spec fn message(&self) -> Seq<char> {
        match self {
            SenderError::InvalidServerMessageCode(c) => "Invalid server message code: "@
                + decimal(*c as nat),
            SenderError::UnexpectedServerMessage(m) => "Unexpected server response: "@
                + m.name(),
            SenderError::IoError(e) => "IO error: "@ + e@,
            SenderError::FileNameTooLong => "File name is too long"@,
        }
    }

    /// A description of the failure.
    pub fn to_string(&self) -> (r: String)
        ensures
            r@ == self.message(),
    {
        match self {
            SenderError::InvalidServerMessageCode(c) => {
                let digits = decimal_text(*c as u64);
                String::from_str("Invalid server message code: ").concat(digits.as_str())
            },
            SenderError::UnexpectedServerMessage(m) => {
                let name = m.to_string();
                String::from_str("Unexpected server response: ").concat(name.as_str())
            },
            SenderError::IoError(e) => String::from_str("IO error: ").concat(e.as_str()),
            SenderError::FileNameTooLong => String::from_str("File name is too long"),
        }
    }
}

} // verus!
