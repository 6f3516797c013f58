//! The sending side of the protocol, as a state machine per file, and the
//! frames that open and close a session.
//!
//! As on the receiving side, the machine does no I/O: each call of
//! [`FileSender::step`] takes what came of the previous action and returns
//! the next one.

use crate::codec::{
    be_value, beam_id_frame, chunk_frames, encode_chunks, lemma_start_file_frame_round_trip, chunk_frame, encode_beam_id, encode_chunk, encode_mtime, encode_start_file,
    encode_tag, encode_version, mtime_frame, start_file_frame, tag_frame, version_frame,
};
use crate::compress::{gunzip, ChunkCompressor};
use crate::error::SenderError;
use crate::messages::{ClientMessages, ProtocolVersion, ServerMessages};
use crate::paths::{compressible, get_textual_path, should_compress_file, textual_path};
use crate::BeamId;
use vstd::prelude::*;
use vstd::string::*;
use vstd::utf8::{decode_utf8, encode_utf8_decode_utf8, encode_utf8_valid_utf8, valid_utf8};

verus! {

/// The most bytes of a file read (and sent as one chunk) at once.
pub const CHUNK_SIZE: usize = 131072;

/// The version every sending session announces.
pub const SENDER_VERSION: ProtocolVersion = ProtocolVersion::V2;

/// The bytes that open a session: the beam id, then the version.
pub fn session_preamble(beam_id: BeamId, version: ProtocolVersion) -> (r: Vec<u8>)
    ensures
        r@ == beam_id_frame(beam_id) + version_frame(version),
{
    let mut out = encode_beam_id(beam_id);
    let mut v = encode_version(version);
    out.append(&mut v);
    out
}

/// The message that closes a session.
pub fn session_end() -> (r: Vec<u8>)
    ensures
        r@ == tag_frame(ClientMessages::BeamComplete),
{
    encode_tag(ClientMessages::BeamComplete)
}

/// Where the sending of one file stands.
#[derive(Debug, Clone, Copy, PartialEq, Eq, Structural)]
pub enum SendPhase {
    /// Not started.
    Start,
    /// The file was announced; waiting for the receiver's decision.
    Announced,
    /// Waiting for the file's modification time.
    Mtime,
    /// Waiting for the next bytes of the file.
    Reading,
    /// Sending a frame.
    Sending,
    /// The file is sent; waiting for the receiver's confirmation.
    Confirming,
    /// Over.
    Done,
}

/// How the sending of a file ended well.
#[derive(Debug, Clone, Copy, PartialEq, Eq, Structural)]
pub enum FileOutcome {
    /// The receiver did not want the file.
    Skipped,
    /// The receiver stored the file.
    Beamed,
}

/// What came of the previous action.
pub enum SenderEvent {
    /// Start with the file.
    Begin,
    /// The receiver's one-byte reply.
    Reply(u8),
    /// The file's modification time.
    Mtime(u64),
    /// The next bytes of the file; none at its end.
    Data(Vec<u8>),
    /// The bytes were sent.
    Sent,
    /// Talking to the receiver, or reading the file, failed.
    Failed(String),
}

/// What to do next.
pub enum SenderAction {
    /// Send these bytes, then read the receiver's one-byte reply.
    Exchange(Vec<u8>),
    /// Look up the file's modification time.
    QueryMtime,
    /// Send these bytes.
    Send(Vec<u8>),
    /// Read the next bytes of the file, at most this many.
    ReadFile(usize),
    /// The file is done with.
    Finish(Result<FileOutcome, SenderError>),
}

/// The sending of one file.
pub struct FileSender {
    phase: SendPhase,
    version: ProtocolVersion,
    name: String,
    compressor: Option<ChunkCompressor>,
    compress: bool,
    read: Ghost<Seq<u8>>,
    payloads: Ghost<Seq<u8>>,
}

impl FileSender {
    pub closed spec fn phase(&self) -> SendPhase {
        self.phase
    }

    pub closed spec fn version(&self) -> ProtocolVersion {
        self.version
    }

    /// The name the file is announced under.
    pub closed spec fn name(&self) -> Seq<char> {
        self.name@
    }

    /// Whether the file is compressed on the way.
    pub closed spec fn compressing(&self) -> bool {
        self.compress
    }

    /// The bytes of the file read so far.
    pub closed spec fn read(&self) -> Seq<u8> {
        self.read@
    }

    /// The payloads of the chunks sent so far, in order.
    pub closed spec fn payloads(&self) -> Seq<u8> {
        self.payloads@
    }

    pub closed spec fn wf(&self) -> bool {
        &&& (self.compressor is Some) <==> (self.compress && (self.phase is Start
            || self.phase is Announced || self.phase is Mtime || self.phase is Reading
            || self.phase is Sending))
        &&& self.compressor matches Some(c) ==> c.input() == self.read@ && c.taken()
            == self.payloads@
        &&& !self.compress ==> self.payloads@ == self.read@
        &&& self.compress && self.phase is Confirming ==> gunzip(self.payloads@) == Some(
            self.read@,
        )
    }

    /// The sending of the file at `path`, announced relative to `base_path`,
    /// in a session of version `version`.
    pub fn new(path: &str, base_path: Option<&str>, version: ProtocolVersion) -> (r: FileSender)
        ensures
            r.wf(),
            r.phase() == SendPhase::Start,
            r.version() == version,
            r.compressing() == compressible(path@),
            r.name() == textual_path(
                path@,
                match base_path {
                    Some(b) => Some(b@),
                    None => None,
                },
                compressible(path@),
            ),
            r.read() == Seq::<u8>::empty() && r.payloads() == Seq::<u8>::empty(),
    {
        let compress = should_compress_file(path);
        let name = get_textual_path(path, base_path, compress);
        let compressor = if compress {
            Some(ChunkCompressor::new())
        } else {
            None
        };
        FileSender {
            phase: SendPhase::Start,
            version,
            name,
            compressor,
            compress,
            read: Ghost(Seq::empty()),
            payloads: Ghost(Seq::empty()),
        }
    }

    /// Whether `event` can answer the pending action.
    pub open spec fn fits(&self, event: &SenderEvent) -> bool {
        match event {
            SenderEvent::Begin => self.phase() is Start,
            SenderEvent::Reply(_) => self.phase() is Announced || self.phase() is Confirming,
            SenderEvent::Mtime(_) => self.phase() is Mtime,
            SenderEvent::Data(d) => self.phase() is Reading && d@.len() <= CHUNK_SIZE,
            SenderEvent::Sent => self.phase() is Sending,
            SenderEvent::Failed(_) => !(self.phase() is Start || self.phase() is Done),
        }
    }

    /// Whether `event` can answer the pending action (callers check this
    /// before `step`).
    pub fn accepts(&self, event: &SenderEvent) -> (r: bool)
        ensures
            r == self.fits(event),
    {
        let p = self.phase;
        match event {
            SenderEvent::Begin => matches!(p, SendPhase::Start),
            SenderEvent::Reply(_) => matches!(p, SendPhase::Announced | SendPhase::Confirming),
            SenderEvent::Mtime(_) => matches!(p, SendPhase::Mtime),
            SenderEvent::Data(d) => matches!(p, SendPhase::Reading) && d.len() <= CHUNK_SIZE,
            SenderEvent::Sent => matches!(p, SendPhase::Sending),
            SenderEvent::Failed(_) => !matches!(p, SendPhase::Start | SendPhase::Done),
        }
    }

    fn finish(&mut self, r: Result<FileOutcome, SenderError>) -> (act: SenderAction)
        ensures
            final(self).phase == SendPhase::Done,
            final(self).version == old(self).version,
            final(self).compress == old(self).compress,
            final(self).name == old(self).name,
            final(self).read == old(self).read,
            final(self).payloads == old(self).payloads,
            final(self).compressor is None,
            act == SenderAction::Finish(r),
    {
        self.phase = SendPhase::Done;
        self.compressor = None;
        SenderAction::Finish(r)
    }

    /// Takes the outcome of the previous action and returns the next one.
    pub fn step(&mut self, event: SenderEvent) -> (act: SenderAction)
        requires
            old(self).wf(),
            old(self).fits(&event),
        ensures
            final(self).wf(),
            final(self).version() == old(self).version(),
            final(self).name() == old(self).name(),
            final(self).compressing() == old(self).compressing(),
            sender_transition(*old(self), event, *final(self), act),
    {
        match event {
            SenderEvent::Begin => {
                let bytes = self.name.as_str().as_bytes();
                if bytes.len() >= 0x10000 {
                    self.finish(Err(SenderError::FileNameTooLong))
                } else {
                    let frame = encode_start_file(bytes);
                    self.phase = SendPhase::Announced;
                    SenderAction::Exchange(frame)
                }
            },
            SenderEvent::Failed(text) => self.finish(Err(SenderError::IoError(text))),
            SenderEvent::Reply(code) => {
                let reply = ServerMessages::from_u8(code);
                if matches!(self.phase, SendPhase::Announced) {
                    match reply {
                        Err(e) => self.finish(Err(e)),
                        Ok(ServerMessages::SkipFile) => self.finish(Ok(FileOutcome::Skipped)),
                        Ok(ServerMessages::BeamFile) => {
                            if self.version.supports_mtime() {
                                self.phase = SendPhase::Mtime;
                                SenderAction::QueryMtime
                            } else {
                                self.phase = SendPhase::Reading;
                                SenderAction::ReadFile(CHUNK_SIZE)
                            }
                        },
                        Ok(m) => self.finish(Err(SenderError::UnexpectedServerMessage(m))),
                    }
                } else {
                    match reply {
                        Err(e) => self.finish(Err(e)),
                        Ok(ServerMessages::FileBeamed) => self.finish(Ok(FileOutcome::Beamed)),
                        Ok(m) => self.finish(Err(SenderError::UnexpectedServerMessage(m))),
                    }
                }
            },
            SenderEvent::Mtime(t) => {
                self.phase = SendPhase::Sending;
                SenderAction::Send(encode_mtime(t))
            },
            SenderEvent::Sent => {
                self.phase = SendPhase::Reading;
                SenderAction::ReadFile(CHUNK_SIZE)
            },
            SenderEvent::Data(data) => self.on_data(data),
        }
    }

    /// The next bytes of the file arrived (none at its end).
    fn on_data(&mut self, data: Vec<u8>) -> (act: SenderAction)
        requires
            old(self).wf(),
            old(self).phase is Reading,
            data@.len() <= CHUNK_SIZE,
        ensures
            final(self).wf(),
            final(self).version() == old(self).version(),
            final(self).name() == old(self).name(),
            final(self).compressing() == old(self).compressing(),
            sender_transition(*old(self), SenderEvent::Data(data), *final(self), act),
    {
        let ghost before = self.payloads@;
        if data.len() == 0 {
            let mut frames: Vec<u8> = Vec::new();
            if self.compress {
                let c = self.compressor.take().unwrap();
                let tail = c.finish();
                frames = encode_chunks(tail.as_slice());
                self.payloads = Ghost(self.payloads@ + tail@);
                assert(self.payloads@.subrange(before.len() as int, self.payloads@.len() as int)
                    == tail@);
                assert(self.payloads@.subrange(0, before.len() as int) == before);
            }
            let mut done = encode_tag(ClientMessages::FileDone);
            frames.append(&mut done);
            self.phase = SendPhase::Confirming;
            return SenderAction::Exchange(frames);
        }
        if self.compress {
            let mut c = self.compressor.take().unwrap();
            let payload = c.compress_chunk(data.as_slice());
            self.compressor = Some(c);
            let frames = encode_chunks(payload.as_slice());
            self.read = Ghost(self.read@ + data@);
            self.payloads = Ghost(self.payloads@ + payload@);
            assert(self.payloads@.subrange(before.len() as int, self.payloads@.len() as int)
                == payload@);
            assert(self.payloads@.subrange(0, before.len() as int) == before);
            assert(chunk_frames(payload@) + Seq::<u8>::empty() == chunk_frames(payload@));
            self.phase = SendPhase::Sending;
            SenderAction::Send(frames)
        } else {
            let frame = encode_chunk(data.as_slice());
            self.read = Ghost(self.read@ + data@);
            self.payloads = Ghost(self.payloads@ + data@);
            self.phase = SendPhase::Sending;
            SenderAction::Send(frame)
        }
    }
}

/// `post` has sent, as chunk frames, what was added to the payloads of
/// `pre`, followed by `trailer`.
pub open spec fn sends_new_payload(pre: FileSender, post: FileSender, frame: Seq<u8>, trailer: Seq<u8>) -> bool {
    let added = post.payloads().subrange(pre.payloads().len() as int, post.payloads().len() as int);
    &&& pre.payloads().len() <= post.payloads().len()
    &&& post.payloads().subrange(0, pre.payloads().len() as int) == pre.payloads()
    &&& frame == chunk_frames(added) + trailer
}

/// The decision on the receiver's reply `code` to the announcement.
pub open spec fn on_announce_reply(pre: FileSender, code: u8, post: FileSender, act: SenderAction) -> bool {
    match ServerMessages::of_code(code) {
        None => post.phase() == SendPhase::Done && act == SenderAction::Finish(
            Err(SenderError::InvalidServerMessageCode(code)),
        ),
        Some(ServerMessages::SkipFile) => post.phase() == SendPhase::Done && act
            == SenderAction::Finish(Ok(FileOutcome::Skipped)),
        Some(ServerMessages::BeamFile) => if pre.version().carries_mtime() {
            post.phase() == SendPhase::Mtime && act == SenderAction::QueryMtime
        } else {
            post.phase() == SendPhase::Reading && act == SenderAction::ReadFile(CHUNK_SIZE)
        },
        Some(m) => post.phase() == SendPhase::Done && act == SenderAction::Finish(
            Err(SenderError::UnexpectedServerMessage(m)),
        ),
    }
}

/// The decision on the receiver's reply `code` to the end of the file.
pub open spec fn on_confirm_reply(code: u8, post: FileSender, act: SenderAction) -> bool {
    &&& post.phase() == SendPhase::Done
    &&& match ServerMessages::of_code(code) {
        None => act == SenderAction::Finish(Err(SenderError::InvalidServerMessageCode(code))),
        Some(ServerMessages::FileBeamed) => act == SenderAction::Finish(Ok(FileOutcome::Beamed)),
        Some(m) => act == SenderAction::Finish(Err(SenderError::UnexpectedServerMessage(m))),
    }
}

/// The step from `pre` on `event` leads to `post` with the action `act`.
pub open spec fn sender_transition(
    pre: FileSender,
    event: SenderEvent,
    post: FileSender,
    act: SenderAction,
) -> bool {
    &&& !(event is Data) ==> post.read() == pre.read() && post.payloads() == pre.payloads()
    &&& match event {
        SenderEvent::Begin => if encode_utf8_of(pre.name()).len() < 0x10000 {
            post.phase() == SendPhase::Announced && (act matches SenderAction::Exchange(b) && b@
                == start_file_frame(encode_utf8_of(pre.name())))
        } else {
            post.phase() == SendPhase::Done && act == SenderAction::Finish(
                Err(SenderError::FileNameTooLong),
            )
        },
        SenderEvent::Failed(text) => post.phase() == SendPhase::Done && act == SenderAction::Finish(
            Err(SenderError::IoError(text)),
        ),
        SenderEvent::Reply(code) => if pre.phase() is Announced {
            on_announce_reply(pre, code, post, act)
        } else {
            on_confirm_reply(code, post, act)
        },
        SenderEvent::Mtime(t) => post.phase() == SendPhase::Sending && (act matches SenderAction::Send(
            b,
        ) && b@ == mtime_frame(t)),
        SenderEvent::Sent => post.phase() == SendPhase::Reading && act == SenderAction::ReadFile(
            CHUNK_SIZE,
        ),
        SenderEvent::Data(d) => if d@.len() == 0 {
            // The end of the file: the compressor's last output, if any, then
            // `FileDone`.
            if !pre.compressing() {
                post.phase() == SendPhase::Confirming && post.payloads() == pre.payloads()
                    && post.read() == pre.read() && (
                act matches SenderAction::Exchange(b) && b@ == tag_frame(ClientMessages::FileDone))
            } else {
                &&& post.phase() == SendPhase::Confirming
                &&& post.read() == pre.read()
                &&& gunzip(post.payloads()) == Some(post.read())
                &&& act matches SenderAction::Exchange(b) && sends_new_payload(
                    pre,
                    post,
                    b@,
                    tag_frame(ClientMessages::FileDone),
                )
            }
        } else {
            if !pre.compressing() {
                &&& post.phase() == SendPhase::Sending
                &&& post.read() == pre.read() + d@
                &&& post.payloads() == pre.payloads() + d@
                &&& act matches SenderAction::Send(b) && b@ == chunk_frame(d@)
            } else {
                &&& post.phase() == SendPhase::Sending
                &&& post.read() == pre.read() + d@
                &&& act matches SenderAction::Send(b) && sends_new_payload(
                    pre,
                    post,
                    b@,
                    Seq::empty(),
                )
            }
        },
    }
}

/// The bytes of the UTF-8 encoding of `s`.
pub open spec fn encode_utf8_of(s: Seq<char>) -> Seq<u8> {
    vstd::utf8::encode_utf8(s)
}

/// Once the receiver accepts a file, the sender sends a modification time
/// exactly when the session's version carries one.
pub proof fn lemma_sender_mtime_gated(pre: FileSender, code: u8, post: FileSender, act: SenderAction)
    requires
        pre.phase() is Announced,
        ServerMessages::of_code(code) == Some(ServerMessages::BeamFile),
        sender_transition(pre, SenderEvent::Reply(code), post, act),
    ensures
        act == SenderAction::QueryMtime <==> pre.version().carries_mtime(),
        !pre.version().carries_mtime() ==> act == SenderAction::ReadFile(CHUNK_SIZE),
{
}

/// A reply byte that names no reply, or a reply that does not belong where
/// it comes, ends the file's sending with a protocol error.
pub proof fn lemma_sender_bad_reply_fails(pre: FileSender, code: u8, post: FileSender, act: SenderAction)
    requires
        pre.phase() is Announced || pre.phase() is Confirming,
        sender_transition(pre, SenderEvent::Reply(code), post, act),
    ensures
        ServerMessages::of_code(code) is None ==> act == SenderAction::Finish(
            Err(SenderError::InvalidServerMessageCode(code)),
        ),
        pre.phase() is Announced && ServerMessages::of_code(code) == Some(
            ServerMessages::FileBeamed,
        ) ==> act == SenderAction::Finish(
            Err(SenderError::UnexpectedServerMessage(ServerMessages::FileBeamed)),
        ),
        pre.phase() is Confirming && ServerMessages::of_code(code) is Some
            && ServerMessages::of_code(code) != Some(ServerMessages::FileBeamed) ==> act
            is Finish && (act matches SenderAction::Finish(r) && r is Err),
        post.phase() is Done || (pre.phase() is Announced && ServerMessages::of_code(code) == Some(
            ServerMessages::BeamFile,
        )),
{
}

/// The name a sender announces is the name the receiver registers: the
/// announcement reads back as its tag, the length of the name's bytes and
/// those bytes, which are valid UTF-8 and decode to the name.
pub proof fn lemma_announced_name_round_trip(name: Seq<char>)
    requires
        encode_utf8_of(name).len() < 0x10000,
    ensures
        ({
            let f = start_file_frame(encode_utf8_of(name));
            let n = be_value(f.subrange(1, 3));
            &&& ClientMessages::of_code(f[0]) == Some(ClientMessages::StartBeamingFile)
            &&& f.len() == 3 + n
            &&& valid_utf8(f.subrange(3, 3 + n as int))
            &&& decode_utf8(f.subrange(3, 3 + n as int)) == name
        }),
{
    lemma_start_file_frame_round_trip(encode_utf8_of(name));
    encode_utf8_valid_utf8(name);
    encode_utf8_decode_utf8(name);
}

/// Sent without compression, the chunks carry exactly the file's bytes read
/// so far, in order.
pub proof fn lemma_payloads_are_file_bytes(s: FileSender)
    requires
        s.wf(),
        !s.compressing(),
    ensures
        s.payloads() == s.read(),
{
}

/// A file the receiver confirms has been sent whole: sent without
/// compression, its chunks carried exactly the file's bytes; sent with it,
/// they decompress to exactly the file's bytes.
pub proof fn lemma_sender_beamed_payloads(pre: FileSender, code: u8, post: FileSender, act: SenderAction)
    requires
        pre.wf(),
        pre.phase() is Confirming,
        sender_transition(pre, SenderEvent::Reply(code), post, act),
        act == SenderAction::Finish(Ok(FileOutcome::Beamed)),
    ensures
        pre.compressing() ==> gunzip(post.payloads()) == Some(post.read()),
        !pre.compressing() ==> post.payloads() == post.read(),
{
}

} // verus!
