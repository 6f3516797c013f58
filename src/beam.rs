//! The receiving side of one connection, as a state machine.
//!
//! The machine does no I/O of its own. Each call of [`BeamSession::step`]
//! takes the outcome of the previous action (an event) and returns the next
//! action: read from the sender, reply to it, ask or tell the ledger, open or
//! append to the storage target, or close the session. The caller performs
//! the action and hands back what came of it.

use crate::checksum::{sha512_hex, Checksum};
use crate::codec::{
    be_value, chunk_frame, lemma_chunk_frame_round_trip, read_be_u16, read_be_u32, read_be_u64,
};
use crate::error::{ScottyError, TransporterError};
use crate::messages::{ClientMessages, ProtocolVersion, ServerMessages};
use crate::scotty::{FilePostResponse, LedgerRequest, Scotty};
use crate::text::{decimal, decimal_text};
use crate::BeamId;
use vstd::prelude::*;
use vstd::string::*;
use vstd::utf8::{decode_utf8, valid_utf8};

verus! {

/// How a file name that is not valid UTF-8 is described: as the failure of
/// reading the name as text from the sender.
pub open spec fn invalid_name_text() -> Seq<char> {
    "stream did not contain valid UTF-8"@
}

/// The most bytes of a chunk read (and written to storage) at once.
pub const CHUNK_SIZE: usize = 1_048_576;

/// Relies on std's `String::from_utf8`: the text the bytes encode, when they
/// are valid UTF-8.
#[verifier::external_body]
fn utf8_text(bytes: Vec<u8>) -> (r: Option<String>)
    ensures
        r is Some <==> valid_utf8(bytes@),
        r matches Some(s) ==> s@ == decode_utf8(bytes@),
{
    String::from_utf8(bytes).ok()
}

/// Where a session stands.
#[derive(Debug, Clone, Copy, PartialEq, Eq, Structural)]
pub enum Phase {
    /// The connection is not yet accepted.
    Start,
    /// Reading the session's beam id.
    BeamId,
    /// Reading the tag of the next message.
    Message,
    /// Reading a protocol version number.
    Version,
    /// Reading the length of an announced file's name.
    NameLength,
    /// Reading an announced file's name.
    Name,
    /// Waiting for the ledger's answer on an announced file.
    Registering,
    /// Telling the sender to skip the file.
    Skipping,
    /// Telling the sender to send the file.
    Accepting,
    /// Reading the file's modification time.
    Mtime,
    /// Opening the storage target.
    Opening,
    /// Reading the tag of the next message of the file.
    ChunkTag,
    /// Reading a chunk's length.
    ChunkLength,
    /// Reading a chunk's bytes.
    ChunkData,
    /// Appending a chunk's bytes to the storage target.
    Writing,
    /// Reporting the file's outcome to the ledger.
    ReportingFile,
    /// Telling the sender that the file is stored.
    Confirming,
    /// Reporting the session's outcome to the ledger.
    ReportingBeam,
    /// The session is over.
    Closed,
}

impl Phase {
    /// The phases of an accepted file before its outcome is reported.
    pub open spec fn in_file(self) -> bool {
        self is Accepting || self is Mtime || self is Opening || self is ChunkTag
            || self is ChunkLength || self is ChunkData || self is Writing
    }

    /// The phases that wait for bytes from the sender.
    pub open spec fn reading(self) -> bool {
        self is BeamId || self is Message || self is Version || self is NameLength
            || self is Name || self is Mtime || self is ChunkTag || self is ChunkLength
            || self is ChunkData
    }
}

/// What came of the previous action.
pub enum ServerEvent {
    /// The connection was accepted.
    Accepted,
    /// The bytes read from the sender (for `ReadSome`, none when it closed
    /// the connection).
    Received(Vec<u8>),
    /// Reading from or writing to the sender failed.
    ClientFailed(String),
    /// The ledger's answer to an announced file.
    FileRegistered(FilePostResponse),
    /// A ledger request failed.
    LedgerFailed(ScottyError),
    /// Opening or appending to the storage target failed.
    StorageFailed(String),
    /// The action was carried out.
    Done,
}

/// What to do next.
pub enum ServerAction {
    /// Read exactly this many bytes from the sender.
    Read(usize),
    /// Read at least one and at most this many bytes from the sender; none
    /// when it has closed the connection.
    ReadSome(usize),
    /// Send this reply to the sender.
    Reply(ServerMessages),
    /// Make this ledger request.
    Ledger(LedgerRequest),
    /// Create the storage target under this name.
    OpenSink(String),
    /// Append these bytes to the storage target.
    Write(Vec<u8>),
    /// Close the connection; the session ended with this result.
    Close(Result<(), TransporterError>),
}

/// The file being received.
struct FileTransfer {
    file_id: String,
    storage_name: String,
    length: u64,
    mtime: Option<u64>,
    checksum: Checksum,
    remaining: u32,
}

/// The description of a session failure reported to the ledger.
pub open spec fn beam_error_text(e: TransporterError) -> Seq<char> {
    "Transporter Error: "@ + e.message()
}

/// One connection's session.
pub struct BeamSession {
    phase: Phase,
    want: usize,
    beam_id: BeamId,
    protocol_version: ProtocolVersion,
    scotty: Scotty,
    tags: Vec<(String, String)>,
    file: Option<FileTransfer>,
    failure: Option<TransporterError>,
    identified: Ghost<bool>,
    accepted: Ghost<nat>,
    skipped: Ghost<nat>,
    file_reports: Ghost<nat>,
    beam_reports: Ghost<nat>,
}

impl BeamSession {
    pub closed spec fn phase(&self) -> Phase {
        self.phase
    }

    /// How many bytes the pending read asks for (at most, for `ChunkData`).
    pub closed spec fn want(&self) -> nat {
        self.want as nat
    }

    pub closed spec fn beam_id(&self) -> BeamId {
        self.beam_id
    }

    pub closed spec fn version(&self) -> ProtocolVersion {
        self.protocol_version
    }

    pub closed spec fn ledger(&self) -> Seq<char> {
        self.scotty.base()
    }

    /// Whether the beam id has been read.
    pub closed spec fn identified(&self) -> bool {
        self.identified@
    }

    /// The number of files the ledger accepted.
    pub closed spec fn accepted(&self) -> nat {
        self.accepted@
    }

    /// The number of files the ledger rejected.
    pub closed spec fn skipped(&self) -> nat {
        self.skipped@
    }

    /// The number of file outcomes reported to the ledger.
    pub closed spec fn file_reports(&self) -> nat {
        self.file_reports@
    }

    /// The number of session outcomes reported to the ledger.
    pub closed spec fn beam_reports(&self) -> nat {
        self.beam_reports@
    }

    /// The failure that ends the session, once there is one.
    pub closed spec fn failure(&self) -> Option<TransporterError> {
        self.failure
    }

    /// The bytes of the current file stored so far.
    pub closed spec fn stored(&self) -> Seq<u8> {
        match self.file {
            Some(f) => f.checksum.input(),
            None => Seq::empty(),
        }
    }

    /// The bytes of the current chunk not read yet.
    pub closed spec fn remaining(&self) -> nat {
        match self.file {
            Some(f) => f.remaining as nat,
            None => 0,
        }
    }

    /// The current file's modification time, once read.
    pub closed spec fn mtime(&self) -> Option<u64> {
        match self.file {
            Some(f) => f.mtime,
            None => None,
        }
    }

    pub closed spec fn storage_name(&self) -> Seq<char> {
        match self.file {
            Some(f) => f.storage_name@,
            None => Seq::empty(),
        }
    }

    pub closed spec fn file_id(&self) -> Seq<char> {
        match self.file {
            Some(f) => f.file_id@,
            None => Seq::empty(),
        }
    }

    /// The session's invariant.
    pub closed spec fn wf(&self) -> bool {
        &&& self.file is Some <==> self.phase.in_file()
        &&& (self.phase is BeamId || self.phase is Mtime) ==> self.want == 8
        &&& (self.phase is Message || self.phase is ChunkTag) ==> self.want == 1
        &&& (self.phase is Version || self.phase is NameLength) ==> self.want == 2
        &&& self.phase is ChunkLength ==> self.want == 4
        &&& self.file matches Some(f) ==> f.length as nat == f.checksum.input().len()
        &&& self.phase is ChunkData ==> self.remaining() > 0 && self.want > 0 && self.want
            <= CHUNK_SIZE && self.want <= self.remaining()
        &&& self.file_reports@ + (if self.phase.in_file() {
            1nat
        } else {
            0nat
        }) == self.accepted@
        &&& self.beam_reports@ == (if self.phase is ReportingBeam || (self.phase is Closed
            && self.identified@) {
            1nat
        } else {
            0nat
        })
        &&& (self.phase is Start || self.phase is BeamId) ==> !self.identified@
        &&& !(self.phase is Start || self.phase is BeamId || self.phase is Closed)
            ==> self.identified@
        &&& !(self.phase is ReportingFile || self.phase is ReportingBeam || self.phase is Closed)
            ==> self.failure is None
    }

    /// A session for a connection not yet accepted, reporting to the ledger
    /// at `scotty`.
    pub fn new(scotty: Scotty) -> (r: BeamSession)
        ensures
            r.wf(),
            r.phase() == Phase::Start,
            r.ledger() == scotty.base(),
            r.version() == ProtocolVersion::V1,
            r.accepted() == 0 && r.skipped() == 0 && r.file_reports() == 0 && r.beam_reports()
                == 0,
    {
        BeamSession {
            phase: Phase::Start,
            want: 0,
            beam_id: 0,
            protocol_version: ProtocolVersion::V1,
            scotty,
            tags: Vec::new(),
            file: None,
            failure: None,
            identified: Ghost(false),
            accepted: Ghost(0),
            skipped: Ghost(0),
            file_reports: Ghost(0),
            beam_reports: Ghost(0),
        }
    }

    /// The diagnostic tags gathered so far (name, value).
    pub closed spec fn tag_list(&self) -> Seq<(Seq<char>, Seq<char>)> {
        self.tags@.map_values(|t: (String, String)| (t.0@, t.1@))
    }

    /// The diagnostic tags gathered so far (name, value): the beam id once
    /// read.
    pub fn tags(&self) -> (r: &Vec<(String, String)>)
        ensures
            r@.map_values(|t: (String, String)| (t.0@, t.1@)) == self.tag_list(),
    {
        &self.tags
    }

    /// Whether `event` can answer the pending action.
    pub open spec fn fits(&self, event: &ServerEvent) -> bool {
        match event {
            ServerEvent::Accepted => self.phase() is Start,
            ServerEvent::Received(b) => if self.phase() is ChunkData {
                b@.len() <= self.want()
            } else {
                self.phase().reading() && b@.len() == self.want()
            },
            ServerEvent::ClientFailed(_) => self.phase().reading() || self.phase() is Skipping
                || self.phase() is Accepting || self.phase() is Confirming,
            ServerEvent::FileRegistered(_) => self.phase() is Registering,
            ServerEvent::LedgerFailed(_) => self.phase() is Registering || self.phase() is ReportingFile
                || self.phase() is ReportingBeam,
            ServerEvent::StorageFailed(_) => self.phase() is Opening || self.phase() is Writing,
            ServerEvent::Done => self.phase() is Skipping || self.phase() is Accepting
                || self.phase() is Opening || self.phase() is Writing || self.phase() is ReportingFile
                || self.phase() is Confirming || self.phase() is ReportingBeam,
        }
    }

    /// Whether `event` can answer the pending action (callers check this
    /// before `step`).
    pub fn accepts(&self, event: &ServerEvent) -> (r: bool)
        ensures
            r == self.fits(event),
    {
        let p = self.phase;
        let reading = matches!(
            p,
            Phase::BeamId | Phase::Message | Phase::Version | Phase::NameLength | Phase::Name
                | Phase::Mtime | Phase::ChunkTag | Phase::ChunkLength | Phase::ChunkData
        );
        match event {
            ServerEvent::Accepted => matches!(p, Phase::Start),
            ServerEvent::Received(b) => if matches!(p, Phase::ChunkData) {
                b.len() <= self.want
            } else {
                reading && b.len() == self.want
            },
            ServerEvent::ClientFailed(_) => reading || matches!(
                p,
                Phase::Skipping | Phase::Accepting | Phase::Confirming
            ),
            ServerEvent::FileRegistered(_) => matches!(p, Phase::Registering),
            ServerEvent::LedgerFailed(_) => matches!(
                p,
                Phase::Registering | Phase::ReportingFile | Phase::ReportingBeam
            ),
            ServerEvent::StorageFailed(_) => matches!(p, Phase::Opening | Phase::Writing),
            ServerEvent::Done => matches!(
                p,
                Phase::Skipping | Phase::Accepting | Phase::Opening | Phase::Writing
                    | Phase::ReportingFile | Phase::Confirming | Phase::ReportingBeam
            ),
        }
    }

    /// Asks for `n` bytes in phase `phase`.
    fn read(&mut self, phase: Phase, n: usize) -> (act: ServerAction)
        ensures
            *final(self) == (BeamSession { phase, want: n, ..*old(self) }),
            act == ServerAction::Read(n),
    {
        self.phase = phase;
        self.want = n;
        ServerAction::Read(n)
    }

    /// Reports the session's outcome to the ledger.
    fn report_beam(&mut self) -> (act: ServerAction)
        requires
            old(self).identified@,
        ensures
            *final(self) == (BeamSession {
                phase: Phase::ReportingBeam,
                beam_reports: Ghost(old(self).beam_reports@ + 1),
                ..*old(self)
            }),
            act matches ServerAction::Ledger(LedgerRequest::EndBeam { url, body }) && url@
                == old(self).scotty.base() + "/beams/"@ + decimal(old(self).beam_id as nat)
                && body.beam.completed && (match old(self).failure {
                Some(e) => body.beam.error matches Some(t) && t@ == beam_error_text(e),
                None => body.beam.error is None,
            }),
    {
        let error = match &self.failure {
            Some(e) => {
                let text = e.to_string();
                Some(String::from_str("Transporter Error: ").concat(text.as_str()))
            },
            None => None,
        };
        let request = self.scotty.complete_beam(self.beam_id, error);
        self.phase = Phase::ReportingBeam;
        self.beam_reports = Ghost(self.beam_reports@ + 1);
        ServerAction::Ledger(request)
    }
    /// Ends the session with the failure `err`: the current file's failure
    /// is reported first if there is one, else the session's.
    #[verifier::rlimit(40)]
    fn fail(&mut self, err: TransporterError) -> (act: ServerAction)
        requires
            old(self).wf(),
            !(old(self).phase is ReportingFile || old(self).phase is ReportingBeam
                || old(self).phase is Closed || old(self).phase is Start),
        ensures
            final(self).wf(),
            fails(*old(self), *final(self), act, err),
            final(self).counted(*old(self), act),
            final(self).version() == old(self).version(),
            final(self).ledger() == old(self).ledger(),
            !(old(self).phase() is BeamId) ==> final(self).beam_id() == old(self).beam_id(),
            final(self).tags == old(self).tags,
    {
        if self.file.is_some() {
            let f = self.file.take().unwrap();
            let text = err.to_string();
            let request = self.scotty.file_beam_end(f.file_id.as_str(), Some(text), None, None, None);
            self.phase = Phase::ReportingFile;
            self.failure = Some(err);
            self.file_reports = Ghost(self.file_reports@ + 1);
            ServerAction::Ledger(request)
        } else if matches!(self.phase, Phase::BeamId) {
            self.phase = Phase::Closed;
            ServerAction::Close(Err(err))
        } else {
            self.failure = Some(err);
            self.report_beam()
        }
    }

    /// Takes the outcome of the previous action and returns the next one.
    #[verifier::rlimit(40)]
    pub fn step(&mut self, event: ServerEvent) -> (act: ServerAction)
        requires
            old(self).wf(),
            old(self).fits(&event),
        ensures
            final(self).wf(),
            final(self).counted(*old(self), act),
            transition(*old(self), event, *final(self), act),
            final(self).ledger() == old(self).ledger(),
            !(old(self).phase() is BeamId) ==> final(self).beam_id() == old(self).beam_id(),
    {
        let phase = self.phase;
        match event {
            ServerEvent::Accepted => self.read(Phase::BeamId, 8),
            ServerEvent::ClientFailed(text) => self.fail(TransporterError::ClientIoError(text)),
            ServerEvent::StorageFailed(text) => self.fail(TransporterError::StorageIoError(text)),
            ServerEvent::LedgerFailed(e) => {
                match phase {
                    Phase::Registering => self.fail(TransporterError::ScottyError(e)),
                    Phase::ReportingFile => {
                        self.failure = Some(TransporterError::ScottyError(e));
                        self.report_beam()
                    },
                    _ => {
                        self.phase = Phase::Closed;
                        ServerAction::Close(Err(TransporterError::ScottyError(e)))
                    },
                }
            },
            ServerEvent::FileRegistered(answer) => {
                if answer.should_beam {
                    self.file = Some(
                        FileTransfer {
                            file_id: answer.file_id,
                            storage_name: answer.storage_name,
                            length: 0,
                            mtime: None,
                            checksum: Checksum::new(),
                            remaining: 0,
                        },
                    );
                    self.phase = Phase::Accepting;
                    self.accepted = Ghost(self.accepted@ + 1);
                    ServerAction::Reply(ServerMessages::BeamFile)
                } else {
                    self.phase = Phase::Skipping;
                    self.skipped = Ghost(self.skipped@ + 1);
                    ServerAction::Reply(ServerMessages::SkipFile)
                }
            },
            ServerEvent::Done => self.on_done(),
            ServerEvent::Received(bytes) => self.on_bytes(bytes),
        }
    }

    /// The previous action was carried out.
    #[verifier::rlimit(40)]
    fn on_done(&mut self) -> (act: ServerAction)
        requires
            old(self).wf(),
            old(self).fits(&ServerEvent::Done),
        ensures
            final(self).wf(),
            final(self).counted(*old(self), act),
            transition(*old(self), ServerEvent::Done, *final(self), act),
            final(self).ledger() == old(self).ledger(),
            !(old(self).phase() is BeamId) ==> final(self).beam_id() == old(self).beam_id(),
    {
        match self.phase {
            Phase::Skipping | Phase::Confirming => self.read(Phase::Message, 1),
            Phase::Accepting => {
                if self.protocol_version.supports_mtime() {
                    self.read(Phase::Mtime, 8)
                } else {
                    self.open_sink()
                }
            },
            Phase::Opening => self.read(Phase::ChunkTag, 1),
            Phase::Writing => {
                let f = self.file.as_ref().unwrap();
                if f.remaining > 0 {
                    let n = if (f.remaining as usize) < CHUNK_SIZE {
                        f.remaining as usize
                    } else {
                        CHUNK_SIZE
                    };
                    self.phase = Phase::ChunkData;
                    self.want = n;
                    ServerAction::ReadSome(n)
                } else {
                    self.read(Phase::ChunkTag, 1)
                }
            },
            Phase::ReportingFile => {
                if self.failure.is_some() {
                    self.report_beam()
                } else {
                    self.phase = Phase::Confirming;
                    ServerAction::Reply(ServerMessages::FileBeamed)
                }
            },
            _ => {
                self.phase = Phase::Closed;
                match self.failure.take() {
                    Some(e) => ServerAction::Close(Err(e)),
                    None => ServerAction::Close(Ok(())),
                }
            },
        }
    }

    /// Opens the storage target of the accepted file.
    fn open_sink(&mut self) -> (act: ServerAction)
        requires
            old(self).wf(),
            old(self).phase.in_file(),
        ensures
            *final(self) == (BeamSession { phase: Phase::Opening, ..*old(self) }),
            act matches ServerAction::OpenSink(name) && name@ == old(self).storage_name(),
    {
        let name = self.file.as_ref().unwrap().storage_name.clone();
        self.phase = Phase::Opening;
        ServerAction::OpenSink(name)
    }

    /// Bytes arrived from the sender.
    #[verifier::rlimit(40)]
    fn on_bytes(&mut self, bytes: Vec<u8>) -> (act: ServerAction)
        requires
            old(self).wf(),
            old(self).fits(&ServerEvent::Received(bytes)),
        ensures
            final(self).wf(),
            final(self).counted(*old(self), act),
            transition(*old(self), ServerEvent::Received(bytes), *final(self), act),
            final(self).ledger() == old(self).ledger(),
            !(old(self).phase() is BeamId) ==> final(self).beam_id() == old(self).beam_id(),
    {
        match self.phase {
            Phase::BeamId => {
                let id = read_be_u64(bytes.as_slice());
                self.beam_id = id;
                let value = decimal_text(id);
                let ghost before = self.tag_list();
                self.tags.push((String::from_str("beam_id"), value));
                assert(self.tag_list() =~= before.push(("beam_id"@, decimal(id as nat))));
                self.identified = Ghost(true);
                self.read(Phase::Message, 1)
            },
            Phase::Message => match ClientMessages::from_u8(bytes[0]) {
                Err(e) => self.fail(e),
                Ok(ClientMessages::BeamComplete) => self.report_beam(),
                Ok(ClientMessages::StartBeamingFile) => self.read(Phase::NameLength, 2),
                Ok(ClientMessages::ProtocolVersion) => self.read(Phase::Version, 2),
                Ok(m) => self.fail(TransporterError::UnexpectedClientMessageCode(m)),
            },
            Phase::Version => {
                let number = read_be_u16(bytes.as_slice());
                match ProtocolVersion::from_u16(number) {
                    Ok(v) => {
                        self.protocol_version = v;
                        self.read(Phase::Message, 1)
                    },
                    Err(e) => self.fail(e),
                }
            },
            Phase::NameLength => {
                let n = read_be_u16(bytes.as_slice());
                self.read(Phase::Name, n as usize)
            },
            Phase::Name => match utf8_text(bytes) {
                Some(name) => {
                    let request = self.scotty.file_beam_start(self.beam_id, name);
                    self.phase = Phase::Registering;
                    ServerAction::Ledger(request)
                },
                None => {
                    let text = String::from_str("stream did not contain valid UTF-8");
                    let err = TransporterError::ClientIoError(text);
                    self.fail(err)
                },
            },
            Phase::Mtime => {
                let mtime = read_be_u64(bytes.as_slice());
                let mut f = self.file.take().unwrap();
                f.mtime = Some(mtime);
                self.file = Some(f);
                self.open_sink()
            },
            Phase::ChunkTag => match ClientMessages::from_u8(bytes[0]) {
                Err(e) => self.fail(e),
                Ok(ClientMessages::FileChunk) => self.read(Phase::ChunkLength, 4),
                Ok(ClientMessages::FileDone) => self.finish_file(),
                Ok(m) => self.fail(TransporterError::UnexpectedClientMessageCode(m)),
            },
            Phase::ChunkLength => {
                let n = read_be_u32(bytes.as_slice());
                if n == 0 {
                    self.read(Phase::ChunkTag, 1)
                } else {
                    let mut f = self.file.take().unwrap();
                    f.remaining = n;
                    self.file = Some(f);
                    let want = if (n as usize) < CHUNK_SIZE {
                        n as usize
                    } else {
                        CHUNK_SIZE
                    };
                    self.phase = Phase::ChunkData;
                    self.want = want;
                    ServerAction::ReadSome(want)
                }
            },
            _ => self.on_chunk_data(bytes),
        }
    }

    /// The sender ended the file: reports its length, checksum and
    /// modification time.
    fn finish_file(&mut self) -> (act: ServerAction)
        requires
            old(self).wf(),
            old(self).phase is ChunkTag,
        ensures
            final(self).wf(),
            final(self).counted(*old(self), act),
            final(self).phase() == Phase::ReportingFile,
            final(self).failure() is None,
            reports_file_success(*old(self), act),
            final(self).version() == old(self).version(),
            final(self).ledger() == old(self).ledger(),
            !(old(self).phase() is BeamId) ==> final(self).beam_id() == old(self).beam_id(),
            final(self).tags == old(self).tags,
    {
        let f = self.file.take().unwrap();
        let hex = f.checksum.result_str();
        let request = self.scotty.file_beam_end(
            f.file_id.as_str(),
            None,
            Some(f.length),
            Some(hex),
            f.mtime,
        );
        self.phase = Phase::ReportingFile;
        self.file_reports = Ghost(self.file_reports@ + 1);
        ServerAction::Ledger(request)
    }

    /// Some bytes of a chunk arrived: they go to the checksum and to storage.
    #[verifier::rlimit(40)]
    fn on_chunk_data(&mut self, bytes: Vec<u8>) -> (act: ServerAction)
        requires
            old(self).wf(),
            old(self).phase is ChunkData,
            bytes@.len() <= old(self).want,
        ensures
            final(self).wf(),
            final(self).counted(*old(self), act),
            transition(*old(self), ServerEvent::Received(bytes), *final(self), act),
            final(self).ledger() == old(self).ledger(),
            !(old(self).phase() is BeamId) ==> final(self).beam_id() == old(self).beam_id(),
    {
        if bytes.len() == 0 {
            return self.fail(TransporterError::ClientEOF);
        }
        let mut f = self.file.take().unwrap();
        if bytes.len() as u64 > u64::MAX - f.length {
            self.file = Some(f);
            return self.fail(TransporterError::FileTooLarge);
        }
        f.checksum.update(bytes.as_slice());
        f.length = f.length + bytes.len() as u64;
        f.remaining = f.remaining - bytes.len() as u32;
        self.file = Some(f);
        self.phase = Phase::Writing;
        ServerAction::Write(bytes)
    }

    /// The counters move with the reports and replies of `act`.
    pub closed spec fn counted(&self, pre: BeamSession, act: ServerAction) -> bool {
        &&& self.accepted@ == pre.accepted@ + (if act == ServerAction::Reply(ServerMessages::BeamFile) {
            1nat
        } else {
            0nat
        })
        &&& self.skipped@ == pre.skipped@ + (if act == ServerAction::Reply(ServerMessages::SkipFile) {
            1nat
        } else {
            0nat
        })
        &&& self.file_reports@ == pre.file_reports@ + (if act matches ServerAction::Ledger(
            LedgerRequest::EndFile { .. },
        ) {
            1nat
        } else {
            0nat
        })
        &&& self.beam_reports@ == pre.beam_reports@ + (if act matches ServerAction::Ledger(
            LedgerRequest::EndBeam { .. },
        ) {
            1nat
        } else {
            0nat
        })
        &&& self.identified@ == (pre.identified@ || (pre.phase is BeamId && self.phase is Message))
    }
}

/// `act` reports the success of the file of `pre` to the ledger, with its
/// length, checksum and modification time.
pub open spec fn reports_file_success(pre: BeamSession, act: ServerAction) -> bool {
    act matches ServerAction::Ledger(LedgerRequest::EndFile { url, body }) && url@ == pre.ledger()
        + "/files/"@ + pre.file_id() && body.success && body.error@ == Seq::<char>::empty()
        && body.size == Some(pre.stored().len() as u64) && (body.checksum matches Some(c) && c@
        == sha512_hex(pre.stored())) && body.mtime == pre.mtime()
}

/// The current file is the same in `pre` and `post`: same ledger id, same
/// storage name, same modification time, same bytes stored.
pub open spec fn same_file(pre: BeamSession, post: BeamSession) -> bool {
    &&& post.file_id() == pre.file_id()
    &&& post.storage_name() == pre.storage_name()
    &&& post.mtime() == pre.mtime()
    &&& post.stored() == pre.stored()
}

/// A read action asks for exactly what `post` expects to receive.
pub open spec fn asks(post: BeamSession, act: ServerAction) -> bool {
    &&& act matches ServerAction::Read(n) ==> post.want() == n
    &&& act matches ServerAction::ReadSome(n) ==> post.want() == n
}

/// The smaller of a chunk's unread bytes and the read size.
pub open spec fn next_read(remaining: nat) -> nat {
    if remaining < CHUNK_SIZE {
        remaining
    } else {
        CHUNK_SIZE as nat
    }
}

/// The step from `pre` on `event` leads to `post` with the action `act`.
pub open spec fn transition(pre: BeamSession, event: ServerEvent, post: BeamSession, act: ServerAction) -> bool {
    let keeps_version = post.version() == pre.version();
    &&& asks(post, act)
    &&& post.ledger() == pre.ledger()
    &&& post.tag_list() == if pre.phase() is BeamId && event is Received {
        pre.tag_list().push(("beam_id"@, decimal(post.beam_id() as nat)))
    } else {
        pre.tag_list()
    }
    &&& match event {
        ServerEvent::Accepted => post.phase() == Phase::BeamId && act == ServerAction::Read(8)
            && keeps_version,
        ServerEvent::ClientFailed(text) => fails(pre, post, act, TransporterError::ClientIoError(text))
            && keeps_version,
        ServerEvent::StorageFailed(text) => fails(pre, post, act, TransporterError::StorageIoError(text))
            && keeps_version,
        ServerEvent::LedgerFailed(e) => keeps_version && if pre.phase() is Registering {
            fails(pre, post, act, TransporterError::ScottyError(e))
        } else if pre.phase() is ReportingFile {
            post.phase() == Phase::ReportingBeam && post.failure() == Some(TransporterError::ScottyError(e))
                && reports_beam(pre, act, Some(TransporterError::ScottyError(e)))
        } else {
            post.phase() == Phase::Closed && act == ServerAction::Close(Err(TransporterError::ScottyError(e)))
        },
        ServerEvent::FileRegistered(answer) => keeps_version && if answer.should_beam {
            &&& post.phase() == Phase::Accepting
            &&& act == ServerAction::Reply(ServerMessages::BeamFile)
            &&& post.file_id() == answer.file_id@
            &&& post.storage_name() == answer.storage_name@
            &&& post.stored() == Seq::<u8>::empty()
            &&& post.mtime() is None
        } else {
            post.phase() == Phase::Skipping && act == ServerAction::Reply(ServerMessages::SkipFile)
        },
        ServerEvent::Done => keeps_version && match pre.phase() {
            Phase::Skipping | Phase::Confirming => post.phase() == Phase::Message && act
                == ServerAction::Read(1),
            Phase::Accepting => same_file(pre, post) && if pre.version().carries_mtime() {
                post.phase() == Phase::Mtime && act == ServerAction::Read(8)
            } else {
                post.phase() == Phase::Opening && (act matches ServerAction::OpenSink(name) && name@
                    == pre.storage_name())
            },
            Phase::Opening => post.phase() == Phase::ChunkTag && act == ServerAction::Read(1)
                && same_file(pre, post),
            Phase::Writing => same_file(pre, post) && if pre.remaining() > 0 {
                post.phase() == Phase::ChunkData && post.remaining() == pre.remaining() && act
                    == ServerAction::ReadSome(
                    next_read(pre.remaining()) as usize,
                )
            } else {
                post.phase() == Phase::ChunkTag && act == ServerAction::Read(1)
            },
            Phase::ReportingFile => match pre.failure() {
                Some(e) => post.phase() == Phase::ReportingBeam && post.failure() == Some(e)
                    && reports_beam(pre, act, Some(e)),
                None => post.phase() == Phase::Confirming && act == ServerAction::Reply(
                    ServerMessages::FileBeamed,
                ),
            },
            _ => post.phase() == Phase::Closed && act == ServerAction::Close(
                match pre.failure() {
                    Some(e) => Err(e),
                    None => Ok(()),
                },
            ),
        },
        ServerEvent::Received(b) => match pre.phase() {
            Phase::BeamId => post.phase() == Phase::Message && act == ServerAction::Read(1)
                && post.beam_id() as nat == be_value(b@) && keeps_version,
            Phase::Message => keeps_version && match ClientMessages::of_code(b@[0]) {
                None => fails(pre, post, act, TransporterError::InvalidClientMessageCode(b@[0])),
                Some(ClientMessages::BeamComplete) => post.phase() == Phase::ReportingBeam
                    && post.failure() is None && reports_beam(pre, act, None),
                Some(ClientMessages::StartBeamingFile) => post.phase() == Phase::NameLength && act
                    == ServerAction::Read(2),
                Some(ClientMessages::ProtocolVersion) => post.phase() == Phase::Version && act
                    == ServerAction::Read(2),
                Some(m) => fails(pre, post, act, TransporterError::UnexpectedClientMessageCode(m)),
            },
            Phase::Version => match ProtocolVersion::of_number(be_value(b@) as u16) {
                Some(v) => post.phase() == Phase::Message && act == ServerAction::Read(1)
                    && post.version() == v,
                None => keeps_version && fails(
                    pre,
                    post,
                    act,
                    TransporterError::InvalidProtocolVersion(be_value(b@) as u16),
                ),
            },
            Phase::NameLength => post.phase() == Phase::Name && act == ServerAction::Read(
                be_value(b@) as usize,
            ) && keeps_version,
            Phase::Name => keeps_version && if valid_utf8(b@) {
                post.phase() == Phase::Registering && (act matches ServerAction::Ledger(
                    LedgerRequest::BeginFile { url, body },
                ) && url@ == pre.ledger() + "/files"@ && body.file_name@ == decode_utf8(b@)
                    && body.beam_id == pre.beam_id())
            } else {
                post.failure() matches Some(e) && fails(pre, post, act, e) && (
                e matches TransporterError::ClientIoError(t) && t@ == invalid_name_text())
            },
            Phase::Mtime => keeps_version && post.phase() == Phase::Opening && post.mtime() == Some(
                be_value(b@) as u64,
            ) && post.stored() == pre.stored() && post.file_id() == pre.file_id()
                && post.storage_name() == pre.storage_name() && (act matches ServerAction::OpenSink(
                name,
            ) && name@ == pre.storage_name()),
            Phase::ChunkTag => keeps_version && match ClientMessages::of_code(b@[0]) {
                None => fails(pre, post, act, TransporterError::InvalidClientMessageCode(b@[0])),
                Some(ClientMessages::FileChunk) => post.phase() == Phase::ChunkLength && act
                    == ServerAction::Read(4) && same_file(pre, post),
                Some(ClientMessages::FileDone) => post.phase() == Phase::ReportingFile
                    && post.failure() is None && reports_file_success(pre, act),
                Some(m) => fails(pre, post, act, TransporterError::UnexpectedClientMessageCode(m)),
            },
            Phase::ChunkLength => keeps_version && same_file(pre, post) && if be_value(b@)
                == 0 {
                post.phase() == Phase::ChunkTag && act == ServerAction::Read(1)
            } else {
                post.phase() == Phase::ChunkData && post.remaining() == be_value(b@) && act
                    == ServerAction::ReadSome(next_read(be_value(b@)) as usize)
            },
            _ => keeps_version && if b@.len() == 0 {
                fails(pre, post, act, TransporterError::ClientEOF)
            } else if pre.stored().len() + b@.len() > u64::MAX {
                fails(pre, post, act, TransporterError::FileTooLarge)
            } else {
                &&& post.phase() == Phase::Writing
                &&& act == ServerAction::Write(b)
                &&& post.file_id() == pre.file_id()
                &&& post.storage_name() == pre.storage_name()
                &&& post.mtime() == pre.mtime()
                &&& post.stored() == pre.stored() + b@
                &&& post.remaining() == pre.remaining() - b@.len()
            },
        },
    }
}

/// `act` reports the failure of the file of `pre` to the ledger, with the
/// description of `err`.
pub open spec fn reports_file_failure(pre: BeamSession, act: ServerAction, err: TransporterError) -> bool {
    act matches ServerAction::Ledger(LedgerRequest::EndFile { url, body }) && url@ == pre.ledger()
        + "/files/"@ + pre.file_id() && !body.success && body.error@ == err.message()
        && body.size is None && body.checksum is None && body.mtime is None
}

/// `act` reports the end of the session of `pre` to the ledger, with the
/// failure `failure` if there is one.
pub open spec fn reports_beam(pre: BeamSession, act: ServerAction, failure: Option<TransporterError>) -> bool {
    act matches ServerAction::Ledger(LedgerRequest::EndBeam { url, body }) && url@ == pre.ledger()
        + "/beams/"@ + decimal(pre.beam_id() as nat) && body.beam.completed && (match failure {
        Some(e) => body.beam.error matches Some(t) && t@ == beam_error_text(e),
        None => body.beam.error is None,
    })
}

/// From `pre`, the step that meets the failure `err` ends the session: it
/// reports the current file's failure if a file is open, else the session's
/// failure; before the beam id is known there is nothing to report and the
/// connection is closed.
pub open spec fn fails(pre: BeamSession, post: BeamSession, act: ServerAction, err: TransporterError) -> bool {
    if pre.phase().in_file() {
        &&& post.phase() == Phase::ReportingFile
        &&& post.failure() == Some(err)
        &&& reports_file_failure(pre, act, err)
    } else if pre.identified() {
        &&& post.phase() == Phase::ReportingBeam
        &&& post.failure() == Some(err)
        &&& reports_beam(pre, act, Some(err))
    } else {
        &&& post.phase() == Phase::Closed
        &&& act == ServerAction::Close(Err(err))
    }
}

/// Past the beam id and before the close, a session knows its beam id.
pub proof fn lemma_identified(s: BeamSession)
    requires
        s.wf(),
        !(s.phase() is Start || s.phase() is BeamId || s.phase() is Closed),
    ensures
        s.identified(),
{
}

/// Every session whose beam id was read reports its outcome to the ledger
/// exactly once by the time it closes, and every file the ledger accepted
/// has had exactly one outcome reported. (The counters move only with the
/// reports and replies that `step` returns, and start at zero.)
pub proof fn lemma_closed_session_reported(s: BeamSession)
    requires
        s.wf(),
        s.phase() is Closed,
    ensures
        s.beam_reports() == (if s.identified() {
            1nat
        } else {
            0nat
        }),
        s.file_reports() == s.accepted(),
{
}

/// A file the ledger rejects is answered with `SkipFile` and gets no outcome
/// report; a file it accepts is answered with `BeamFile` and has its report
/// still owed.
#[verifier::rlimit(40)]
pub proof fn lemma_registration(pre: BeamSession, answer: FilePostResponse, post: BeamSession, act: ServerAction)
    requires
        pre.wf(),
        pre.fits(&ServerEvent::FileRegistered(answer)),
        transition(pre, ServerEvent::FileRegistered(answer), post, act),
        post.counted(pre, act),
        post.wf(),
    ensures
        !answer.should_beam ==> act == ServerAction::Reply(ServerMessages::SkipFile)
            && post.file_reports() == pre.file_reports() && post.accepted() == pre.accepted(),
        answer.should_beam ==> act == ServerAction::Reply(ServerMessages::BeamFile)
            && post.accepted() == pre.accepted() + 1 && post.file_reports() + 1 == post.accepted(),
{
}

/// The session's report carries an error exactly when the session failed.
#[verifier::rlimit(40)]
pub proof fn lemma_session_report_matches_failure(
    pre: BeamSession,
    event: ServerEvent,
    post: BeamSession,
    act: ServerAction,
)
    requires
        pre.wf(),
        pre.fits(&event),
        transition(pre, event, post, act),
        act matches ServerAction::Ledger(LedgerRequest::EndBeam { .. }),
    ensures
        reports_beam(pre, act, post.failure()),
{
}

/// Once a session has failed, it never goes back to reading messages: what
/// follows is the reports of the failure and the close, which carries an
/// error.
#[verifier::rlimit(40)]
pub proof fn lemma_failure_is_final(pre: BeamSession, event: ServerEvent, post: BeamSession, act: ServerAction)
    requires
        pre.wf(),
        pre.failure() is Some,
        pre.fits(&event),
        transition(pre, event, post, act),
    ensures
        post.phase() is ReportingBeam || post.phase() is Closed,
        act matches ServerAction::Close(r) ==> r is Err,
{
}

/// A tag byte that names no message, or names one that does not belong
/// where it comes, ends the session with a protocol error.
#[verifier::rlimit(40)]
pub proof fn lemma_bad_tag_fails(pre: BeamSession, b: Vec<u8>, post: BeamSession, act: ServerAction)
    requires
        pre.wf(),
        pre.phase() is Message || pre.phase() is ChunkTag,
        pre.fits(&ServerEvent::Received(b)),
        transition(pre, ServerEvent::Received(b), post, act),
        ClientMessages::of_code(b@[0]) is None,
    ensures
        post.failure() == Some(TransporterError::InvalidClientMessageCode(b@[0])),
        post.phase() is ReportingFile || post.phase() is ReportingBeam,
{
}

/// An unknown version number ends the session with a protocol error.
#[verifier::rlimit(40)]
pub proof fn lemma_bad_version_fails(pre: BeamSession, b: Vec<u8>, post: BeamSession, act: ServerAction)
    requires
        pre.wf(),
        pre.phase() is Version,
        pre.fits(&ServerEvent::Received(b)),
        transition(pre, ServerEvent::Received(b), post, act),
        ProtocolVersion::of_number(be_value(b@) as u16) is None,
    ensures
        post.failure() == Some(TransporterError::InvalidProtocolVersion(be_value(b@) as u16)),
        post.phase() is ReportingBeam,
{
}

/// Once a file is accepted, the receiver reads a modification time exactly
/// when the session's version carries one.
#[verifier::rlimit(40)]
pub proof fn lemma_mtime_gated_by_version(pre: BeamSession, post: BeamSession, act: ServerAction)
    requires
        pre.wf(),
        pre.phase() is Accepting,
        transition(pre, ServerEvent::Done, post, act),
    ensures
        post.phase() is Mtime <==> pre.version().carries_mtime(),
        pre.version().carries_mtime() ==> act == ServerAction::Read(8),
        !pre.version().carries_mtime() ==> act is OpenSink,
{
}

/// The bytes of a chunk are written to storage exactly as received, and the
/// file's checksum covers exactly the bytes written.
#[verifier::rlimit(40)]
pub proof fn lemma_chunk_stored(pre: BeamSession, b: Vec<u8>, post: BeamSession, act: ServerAction)
    requires
        pre.wf(),
        pre.phase() is ChunkData,
        transition(pre, ServerEvent::Received(b), post, act),
        b@.len() > 0,
        pre.stored().len() + b@.len() <= u64::MAX,
    ensures
        act matches ServerAction::Write(w) && w@ == b@,
        post.stored() == pre.stored() + b@,
{
}

#[verifier::rlimit(40)]
proof fn lemma_chunk_tag_step(s0: BeamSession, b: Vec<u8>, s1: BeamSession, a1: ServerAction)
    requires
        s0.phase() is ChunkTag,
        b@.len() == 1,
        b@[0] == ClientMessages::FileChunk.code(),
        transition(s0, ServerEvent::Received(b), s1, a1),
    ensures
        s1.phase() is ChunkLength,
        a1 == ServerAction::Read(4),
        s1.stored() == s0.stored(),
{
    assert(ClientMessages::of_code(b@[0]) == Some(ClientMessages::FileChunk));
}

#[verifier::rlimit(40)]
proof fn lemma_chunk_length_step(s1: BeamSession, b: Vec<u8>, s2: BeamSession, a2: ServerAction)
    requires
        s1.phase() is ChunkLength,
        0 < be_value(b@) <= CHUNK_SIZE,
        transition(s1, ServerEvent::Received(b), s2, a2),
    ensures
        s2.phase() is ChunkData,
        a2 == ServerAction::ReadSome(be_value(b@) as usize),
        s2.remaining() == be_value(b@),
        s2.stored() == s1.stored(),
{
}

#[verifier::rlimit(40)]
proof fn lemma_chunk_data_step(s2: BeamSession, b: Vec<u8>, s3: BeamSession, a3: ServerAction)
    requires
        s2.phase() is ChunkData,
        0 < b@.len(),
        s2.stored().len() + b@.len() <= u64::MAX,
        transition(s2, ServerEvent::Received(b), s3, a3),
    ensures
        s3.phase() is Writing,
        a3 == ServerAction::Write(b),
        s3.stored() == s2.stored() + b@,
        s3.remaining() == s2.remaining() - b@.len(),
{
}

#[verifier::rlimit(40)]
proof fn lemma_chunk_written_step(s3: BeamSession, s4: BeamSession, a4: ServerAction)
    requires
        s3.phase() is Writing,
        s3.remaining() == 0,
        transition(s3, ServerEvent::Done, s4, a4),
    ensures
        s4.phase() is ChunkTag,
        a4 == ServerAction::Read(1),
        s4.stored() == s3.stored(),
{
}

/// A chunk frame as the sender builds it, handed to the receiver piece by
/// piece in the reads the receiver asks for (its tag, its length, then its
/// payload in one read), is written to storage byte for byte, and the
/// receiver then waits for the file's next message.
pub proof fn lemma_chunk_frame_stored(
    payload: Seq<u8>,
    s0: BeamSession,
    b1: Vec<u8>,
    s1: BeamSession,
    a1: ServerAction,
    b2: Vec<u8>,
    s2: BeamSession,
    a2: ServerAction,
    b3: Vec<u8>,
    s3: BeamSession,
    a3: ServerAction,
    s4: BeamSession,
    a4: ServerAction,
)
    requires
        0 < payload.len() <= CHUNK_SIZE,
        s0.stored().len() + payload.len() <= u64::MAX,
        s0.phase() is ChunkTag,
        b1@ == chunk_frame(payload).subrange(0, 1),
        b2@ == chunk_frame(payload).subrange(1, 5),
        b3@ == chunk_frame(payload).subrange(5, 5 + payload.len() as int),
        transition(s0, ServerEvent::Received(b1), s1, a1),
        transition(s1, ServerEvent::Received(b2), s2, a2),
        transition(s2, ServerEvent::Received(b3), s3, a3),
        transition(s3, ServerEvent::Done, s4, a4),
    ensures
        a1 == ServerAction::Read(4),
        a2 == ServerAction::ReadSome(payload.len() as usize),
        a3 matches ServerAction::Write(w) && w@ == payload,
        s3.stored() == s0.stored() + payload,
        s4.stored() == s0.stored() + payload,
        s4.phase() is ChunkTag,
        a4 == ServerAction::Read(1),
{
    lemma_chunk_frame_round_trip(payload);
    assert(b1@[0] == chunk_frame(payload)[0]);
    lemma_chunk_tag_step(s0, b1, s1, a1);
    lemma_chunk_length_step(s1, b2, s2, a2);
    assert(b3@ == payload);
    lemma_chunk_data_step(s2, b3, s3, a3);
    lemma_chunk_written_step(s3, s4, a4);
}

/// The bytes an action writes to storage.
pub open spec fn written(act: ServerAction) -> Seq<u8> {
    match act {
        ServerAction::Write(b) => b@,
        _ => Seq::empty(),
    }
}

/// The bytes that the actions `acts` write to storage, in order.
pub open spec fn all_written(acts: Seq<ServerAction>) -> Seq<u8>
    decreases acts.len(),
{
    if acts.len() == 0 {
        Seq::empty()
    } else {
        all_written(acts.drop_last()) + written(acts.last())
    }
}

/// How many of `acts` satisfy `f`.
pub open spec fn count_acts(acts: Seq<ServerAction>, f: spec_fn(ServerAction) -> bool) -> nat
    decreases acts.len(),
{
    if acts.len() == 0 {
        0
    } else {
        count_acts(acts.drop_last(), f) + (if f(acts.last()) {
            1nat
        } else {
            0nat
        })
    }
}

pub open spec fn is_end_beam(act: ServerAction) -> bool {
    act matches ServerAction::Ledger(LedgerRequest::EndBeam { .. })
}

pub open spec fn is_end_file(act: ServerAction) -> bool {
    act matches ServerAction::Ledger(LedgerRequest::EndFile { .. })
}

pub open spec fn is_accept(act: ServerAction) -> bool {
    act == ServerAction::Reply(ServerMessages::BeamFile)
}

/// The bytes of a chunk that `event` brings in `pre` (none for any other
/// event).
pub open spec fn chunk_read(pre: BeamSession, event: ServerEvent) -> Seq<u8> {
    if pre.phase() is ChunkData {
        match event {
            ServerEvent::Received(b) => b@,
            _ => Seq::empty(),
        }
    } else {
        Seq::empty()
    }
}

/// The chunk bytes received over the first `n` steps of a run, in order.
pub open spec fn chunks_received(states: Seq<BeamSession>, events: Seq<ServerEvent>, n: int) -> Seq<u8>
    decreases n,
{
    if n <= 0 {
        Seq::empty()
    } else {
        chunks_received(states, events, n - 1) + chunk_read(states[n - 1], events[n - 1])
    }
}

/// The version a run has reached after `n` steps: the last valid version
/// message read, else the version it started with.
pub open spec fn version_after(states: Seq<BeamSession>, events: Seq<ServerEvent>, n: int) -> ProtocolVersion
    decreases n,
{
    if n <= 0 {
        states[0].version()
    } else {
        match (states[n - 1].phase(), events[n - 1]) {
            (Phase::Version, ServerEvent::Received(b)) => match ProtocolVersion::of_number(
                be_value(b@) as u16,
            ) {
                Some(v) => v,
                None => version_after(states, events, n - 1),
            },
            _ => version_after(states, events, n - 1),
        }
    }
}

/// `states` is a run of `step`: each state answers the next event, which
/// leads to the next state with the action in `acts`.
pub open spec fn run(states: Seq<BeamSession>, events: Seq<ServerEvent>, acts: Seq<ServerAction>) -> bool {
    &&& states.len() == events.len() + 1
    &&& acts.len() == events.len()
    &&& forall|i: int| 0 <= i < events.len() ==> #[trigger] step_at(states, events, acts, i)
}

/// Step `i` of a run.
pub open spec fn step_at(
    states: Seq<BeamSession>,
    events: Seq<ServerEvent>,
    acts: Seq<ServerAction>,
    i: int,
) -> bool {
    &&& transition(states[i], events[i], states[i + 1], acts[i])
    &&& states[i].wf()
    &&& states[i].fits(&events[i])
    &&& states[i + 1].counted(states[i], acts[i])
}

#[verifier::rlimit(40)]
proof fn lemma_in_file_step(pre: BeamSession, event: ServerEvent, post: BeamSession, act: ServerAction)
    requires
        pre.wf(),
        pre.fits(&event),
        transition(pre, event, post, act),
        pre.phase().in_file(),
        post.phase().in_file(),
    ensures
        post.file_id() == pre.file_id(),
        post.storage_name() == pre.storage_name(),
        post.stored() == pre.stored() + written(act),
        post.version() == pre.version(),
        pre.phase() is Mtime || post.mtime() == pre.mtime(),
        post.phase() is Mtime ==> pre.phase() is Accepting && pre.version().carries_mtime(),
        !(act is Write) ==> written(act) == Seq::<u8>::empty(),
        written(act) == chunk_read(pre, event),
{
    assert(pre.stored() + Seq::<u8>::empty() == pre.stored());
}

#[verifier::rlimit(40)]
proof fn lemma_leaves_file_with_success(
    pre: BeamSession,
    event: ServerEvent,
    post: BeamSession,
    act: ServerAction,
)
    requires
        pre.wf(),
        pre.fits(&event),
        transition(pre, event, post, act),
        pre.phase().in_file(),
        act matches ServerAction::Ledger(LedgerRequest::EndFile { body, .. }) && body.success,
    ensures
        reports_file_success(pre, act),
        written(act) == Seq::<u8>::empty(),
{
}

proof fn lemma_file_prefix(
    states: Seq<BeamSession>,
    events: Seq<ServerEvent>,
    acts: Seq<ServerAction>,
    n: int,
)
    requires
        run(states, events, acts),
        0 <= n < states.len(),
        states[0].phase() is Accepting,
        forall|i: int| 0 <= i <= n ==> #[trigger] states[i].phase().in_file(),
    ensures
        states[n].stored() == states[0].stored() + all_written(acts.take(n)),
        all_written(acts.take(n)) == chunks_received(states, events, n),
        states[n].file_id() == states[0].file_id(),
        states[n].storage_name() == states[0].storage_name(),
        states[n].version() == states[0].version(),
        !states[0].version().carries_mtime() ==> states[n].mtime() == states[0].mtime()
            && !(states[n].phase() is Mtime),
    decreases n,
{
    if n > 0 {
        lemma_file_prefix(states, events, acts, n - 1);
        assert(states[n - 1].phase().in_file());
        assert(states[n].phase().in_file());
        assert(step_at(states, events, acts, n - 1));
        lemma_in_file_step(states[n - 1], events[n - 1], states[n], acts[n - 1]);
        assert(acts.take(n).drop_last() == acts.take(n - 1));
        assert(acts.take(n).last() == acts[n - 1]);
    } else {
        assert(acts.take(0) == Seq::<ServerAction>::empty());
        assert(states[0].stored() + Seq::<u8>::empty() == states[0].stored());
    }
}

/// One accepted file, from the `BeamFile` reply to its success report: the
/// bytes written to storage are exactly the chunk bytes received, in order;
/// the report names the file id the ledger gave, and gives as size and
/// checksum the length and the SHA-512 of exactly those bytes, whatever the
/// chunking; its modification time is the one read,
/// and none when the session's version carries none.
pub proof fn lemma_file_run_reports_stored_bytes(
    states: Seq<BeamSession>,
    events: Seq<ServerEvent>,
    acts: Seq<ServerAction>,
)
    requires
        run(states, events, acts),
        events.len() >= 1,
        states[0].phase() is Accepting,
        states[0].stored() == Seq::<u8>::empty(),
        states[0].mtime() is None,
        forall|i: int| 0 <= i < events.len() ==> #[trigger] states[i].phase().in_file(),
        acts.last() matches ServerAction::Ledger(LedgerRequest::EndFile { body, .. })
            && body.success,
    ensures
        all_written(acts) == chunks_received(states, events, events.len() as int),
        ({
            let stored = all_written(acts);
            acts.last() matches ServerAction::Ledger(LedgerRequest::EndFile { url, body }) && url@
                == states[0].ledger() + "/files/"@ + states[0].file_id() && body.size == Some(
                stored.len() as u64,
            ) && (body.checksum matches Some(c) && c@ == sha512_hex(stored)) && body.mtime
                == states[events.len() - 1].mtime() && (!states[0].version().carries_mtime()
                ==> body.mtime is None)
        }),
{
    let k = events.len() - 1;
    lemma_file_prefix(states, events, acts, k);
    assert(step_at(states, events, acts, k));
    lemma_leaves_file_with_success(states[k], events[k], states[k + 1], acts[k]);
    assert(acts.drop_last() == acts.take(k));
    assert(acts.last() == acts[k]);
    assert(Seq::<u8>::empty() + all_written(acts.take(k)) == all_written(acts.take(k)));
    assert(all_written(acts) == all_written(acts.take(k)) + Seq::<u8>::empty());
    assert(chunk_read(states[k], events[k]) == Seq::<u8>::empty());
    assert(chunks_received(states, events, k + 1) == chunks_received(states, events, k)
        + Seq::<u8>::empty());
    lemma_ledger_kept(states, events, acts, k);
}

proof fn lemma_step_keeps_ledger(pre: BeamSession, event: ServerEvent, post: BeamSession, act: ServerAction)
    requires
        transition(pre, event, post, act),
    ensures
        post.ledger() == pre.ledger(),
{
}

proof fn lemma_ledger_kept(states: Seq<BeamSession>, events: Seq<ServerEvent>, acts: Seq<ServerAction>, n: int)
    requires
        run(states, events, acts),
        0 <= n < states.len(),
    ensures
        states[n].ledger() == states[0].ledger(),
    decreases n,
{
    if n > 0 {
        lemma_ledger_kept(states, events, acts, n - 1);
        assert(step_at(states, events, acts, n - 1));
        lemma_step_keeps_ledger(states[n - 1], events[n - 1], states[n], acts[n - 1]);
    }
}

proof fn lemma_counters_prefix(
    states: Seq<BeamSession>,
    events: Seq<ServerEvent>,
    acts: Seq<ServerAction>,
    n: int,
)
    requires
        run(states, events, acts),
        0 <= n < states.len(),
    ensures
        states[n].beam_reports() == states[0].beam_reports() + count_acts(
            acts.take(n),
            |a: ServerAction| is_end_beam(a),
        ),
        states[n].file_reports() == states[0].file_reports() + count_acts(
            acts.take(n),
            |a: ServerAction| is_end_file(a),
        ),
        states[n].accepted() == states[0].accepted() + count_acts(
            acts.take(n),
            |a: ServerAction| is_accept(a),
        ),
    decreases n,
{
    if n > 0 {
        lemma_counters_prefix(states, events, acts, n - 1);
        assert(step_at(states, events, acts, n - 1));
        assert(acts.take(n).drop_last() == acts.take(n - 1));
        assert(acts.take(n).last() == acts[n - 1]);
    }
}

/// A whole session, from a fresh session to its close: exactly one
/// session report was made if the beam id was read (none otherwise), and
/// exactly as many file reports as files the ledger accepted.
pub proof fn lemma_session_run_reports(states: Seq<BeamSession>, events: Seq<ServerEvent>, acts: Seq<ServerAction>)
    requires
        run(states, events, acts),
        states[0].phase() is Start,
        states[0].beam_reports() == 0 && states[0].file_reports() == 0 && states[0].accepted() == 0,
        states.last().phase() is Closed,
        states.last().wf(),
    ensures
        count_acts(acts, |a: ServerAction| is_end_beam(a)) == (if states.last().identified() {
            1nat
        } else {
            0nat
        }),
        count_acts(acts, |a: ServerAction| is_end_file(a)) == count_acts(
            acts,
            |a: ServerAction| is_accept(a),
        ),
{
    let n = events.len() as int;
    lemma_counters_prefix(states, events, acts, n);
    assert(acts.take(n) == acts);
    lemma_closed_session_reported(states.last());
}

/// The session's close carries an error exactly when the session report
/// before it did: the outcome returned and the outcome reported agree.
pub proof fn lemma_close_matches_report(
    s0: BeamSession,
    e0: ServerEvent,
    s1: BeamSession,
    a0: ServerAction,
    s2: BeamSession,
    a1: ServerAction,
)
    requires
        s0.wf(),
        s0.fits(&e0),
        transition(s0, e0, s1, a0),
        a0 matches ServerAction::Ledger(LedgerRequest::EndBeam { .. }),
        transition(s1, ServerEvent::Done, s2, a1),
    ensures
        s2.phase() is Closed,
        a1 matches ServerAction::Close(r) && (a0 matches ServerAction::Ledger(
            LedgerRequest::EndBeam { body, .. },
        ) && (r is Ok <==> body.beam.error is None)),
{
    lemma_session_report_matches_failure(s0, e0, s1, a0);
}

/// Over a run, the session's version is the one of the last valid version
/// message, or the version it started with (`V1` for a fresh session) when
/// there was none; each accepted file then reads a modification time
/// exactly when that version carries one.
pub proof fn lemma_version_over_run(
    states: Seq<BeamSession>,
    events: Seq<ServerEvent>,
    acts: Seq<ServerAction>,
    n: int,
)
    requires
        run(states, events, acts),
        0 <= n < states.len(),
    ensures
        states[n].version() == version_after(states, events, n),
    decreases n,
{
    if n > 0 {
        lemma_version_over_run(states, events, acts, n - 1);
        assert(step_at(states, events, acts, n - 1));
    }
}

} // verus!
