//! Message tags of the wire protocol and the protocol version.

use crate::error::{SenderError, TransporterError, TransporterResult};
use vstd::prelude::*;

verus! {

/// Messages from the sender to the receiver, each sent as a one-byte tag.
#[derive(Debug, Clone, Copy, PartialEq, Eq, Structural)]
pub enum ClientMessages {
    BeamComplete,
    StartBeamingFile,
    FileChunk,
    FileDone,
    ProtocolVersion,
}

/// Replies from the receiver to the sender, each a single byte.
#[derive(Debug, Clone, Copy, PartialEq, Eq, Structural)]
pub enum ServerMessages {
    SkipFile,
    BeamFile,
    FileBeamed,
}

/// The protocol version a session negotiated.
#[derive(Debug, Clone, Copy, PartialEq, Eq, Structural)]
pub enum ProtocolVersion {
    V1,
    V2,
}

impl ClientMessages {
    /// The tag byte of the message.
    pub open spec fn code(self) -> u8 {
        match self {
            ClientMessages::BeamComplete => 0,
            ClientMessages::StartBeamingFile => 1,
            ClientMessages::FileChunk => 2,
            ClientMessages::FileDone => 3,
            ClientMessages::ProtocolVersion => 4,
        }
    }

    /// The message whose tag is `code`, if there is one.
    pub open spec fn of_code(code: u8) -> Option<ClientMessages> {
        if code == 0 {
            Some(ClientMessages::BeamComplete)
        } else if code == 1 {
            Some(ClientMessages::StartBeamingFile)
        } else if code == 2 {
            Some(ClientMessages::FileChunk)
        } else if code == 3 {
            Some(ClientMessages::FileDone)
        } else if code == 4 {
            Some(ClientMessages::ProtocolVersion)
        } else {
            None
        }
    }

    pub fn to_u8(&self) -> (r: u8)
        ensures
            r == self.code(),
    {
        match self {
            ClientMessages::BeamComplete => 0,
            ClientMessages::StartBeamingFile => 1,
            ClientMessages::FileChunk => 2,
            ClientMessages::FileDone => 3,
            ClientMessages::ProtocolVersion => 4,
        }
    }

    /// The name of the message.
    pub open spec fn name(self) -> Seq<char> {
        match self {
            ClientMessages::BeamComplete => "BeamComplete"@,
            ClientMessages::StartBeamingFile => "StartBeamingFile"@,
            ClientMessages::FileChunk => "FileChunk"@,
            ClientMessages::FileDone => "FileDone"@,
            ClientMessages::ProtocolVersion => "ProtocolVersion"@,
        }
    }

    /// Decodes a tag byte; a byte that is no client message is a protocol
    /// error.
    pub fn from_u8(code: u8) -> (r: TransporterResult<ClientMessages>)
        ensures
            r is Ok <==> code <= 4,
            r matches Ok(m) ==> Self::of_code(code) == Some(m) && m.code() == code,
            r matches Err(e) ==> e == TransporterError::InvalidClientMessageCode(code),
    {
        match code {
            0 => Ok(ClientMessages::BeamComplete),
            1 => Ok(ClientMessages::StartBeamingFile),
            2 => Ok(ClientMessages::FileChunk),
            3 => Ok(ClientMessages::FileDone),
            4 => Ok(ClientMessages::ProtocolVersion),
            _ => Err(TransporterError::InvalidClientMessageCode(code)),
        }
    }

    pub fn to_string(&self) -> (r: String)
        ensures
            r@ == self.name(),
    {
        let s = match self {
            ClientMessages::BeamComplete => "BeamComplete",
            ClientMessages::StartBeamingFile => "StartBeamingFile",
            ClientMessages::FileChunk => "FileChunk",
            ClientMessages::FileDone => "FileDone",
            ClientMessages::ProtocolVersion => "ProtocolVersion",
        };
        s.to_owned()
    }
}

impl ServerMessages {
    /// The reply byte of the message.
    pub open spec fn code(self) -> u8 {
        match self {
            ServerMessages::SkipFile => 0,
            ServerMessages::BeamFile => 1,
            ServerMessages::FileBeamed => 2,
        }
    }

    /// The reply whose byte is `code`, if there is one.
    pub open spec fn of_code(code: u8) -> Option<ServerMessages> {
        if code == 0 {
            Some(ServerMessages::SkipFile)
        } else if code == 1 {
            Some(ServerMessages::BeamFile)
        } else if code == 2 {
            Some(ServerMessages::FileBeamed)
        } else {
            None
        }
    }

    pub fn to_u8(&self) -> (r: u8)
        ensures
            r == self.code(),
    {
        match self {
            ServerMessages::SkipFile => 0,
            ServerMessages::BeamFile => 1,
            ServerMessages::FileBeamed => 2,
        }
    }

    /// Decodes a reply byte; a byte that is no reply is a protocol error.
    pub fn from_u8(code: u8) -> (r: Result<ServerMessages, SenderError>)
        ensures
            r is Ok <==> code <= 2,
            r matches Ok(m) ==> Self::of_code(code) == Some(m) && m.code() == code,
            r matches Err(e) ==> e == SenderError::InvalidServerMessageCode(code),
    {
        match code {
            0 => Ok(ServerMessages::SkipFile),
            1 => Ok(ServerMessages::BeamFile),
            2 => Ok(ServerMessages::FileBeamed),
            _ => Err(SenderError::InvalidServerMessageCode(code)),
        }
    }

    /// The name of the reply.
    pub open spec fn name(self) -> Seq<char> {
        match self {
            ServerMessages::SkipFile => "SkipFile"@,
            ServerMessages::BeamFile => "BeamFile"@,
            ServerMessages::FileBeamed => "FileBeamed"@,
        }
    }

    pub fn to_string(&self) -> (r: String)
        ensures
            r@ == self.name(),
    {
        let s = match self {
            ServerMessages::SkipFile => "SkipFile",
            ServerMessages::BeamFile => "BeamFile",
            ServerMessages::FileBeamed => "FileBeamed",
        };
        s.to_owned()
    }
}

impl ProtocolVersion {
    /// The version number sent on the wire.
    pub open spec fn number(self) -> u16 {
        match self {
            ProtocolVersion::V1 => 1,
            ProtocolVersion::V2 => 2,
        }
    }

    /// The version whose number is `code`, if there is one.
    pub open spec fn of_number(code: u16) -> Option<ProtocolVersion> {
        if code == 1 {
            Some(ProtocolVersion::V1)
        } else if code == 2 {
            Some(ProtocolVersion::V2)
        } else {
            None
        }
    }

    /// Whether a session of this version sends a modification time for each
    /// accepted file.
    pub open spec fn carries_mtime(self) -> bool {
        self != ProtocolVersion::V1
    }

    pub fn to_u16(&self) -> (r: u16)
        ensures
            r == self.number(),
    {
        match self {
            ProtocolVersion::V1 => 1,
            ProtocolVersion::V2 => 2,
        }
    }

    /// Decodes a version number; an unknown number is a protocol error.
    pub fn from_u16(code: u16) -> (r: TransporterResult<ProtocolVersion>)
        ensures
            r is Ok <==> (code == 1 || code == 2),
            r matches Ok(v) ==> Self::of_number(code) == Some(v) && v.number() == code,
            r matches Err(e) ==> e == TransporterError::InvalidProtocolVersion(code),
    {
        match code {
            1 => Ok(ProtocolVersion::V1),
            2 => Ok(ProtocolVersion::V2),
            _ => Err(TransporterError::InvalidProtocolVersion(code)),
        }
    }

    pub fn supports_mtime(&self) -> (r: bool)
        ensures
            r == self.carries_mtime(),
    {
        !matches!(*self, ProtocolVersion::V1)
    }
}

} // verus!
