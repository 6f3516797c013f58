use flate2::read::GzDecoder;
use std::collections::{HashMap, VecDeque};
use std::io::Read;
use transporter::beam::{BeamSession, ServerAction, ServerEvent};
use transporter::checksum::checksum_of;
use transporter::error::{SenderError, TransporterError};
use transporter::messages::{ProtocolVersion, ServerMessages};
use transporter::scotty::{FilePostResponse, LedgerRequest, Scotty};
use transporter::sender::{session_end, session_preamble, FileOutcome, FileSender, SenderAction, SenderEvent};

struct FileReport {
    url: String,
    success: bool,
    error: String,
    size: Option<u64>,
    checksum: Option<String>,
    mtime: Option<u64>,
}

/// The receiving end of an in-memory connection, with a scripted ledger and
/// storage.
struct Receiver {
    session: BeamSession,
    pending: Option<ServerAction>,
    wire: Vec<u8>,
    at: usize,
    replies: VecDeque<u8>,
    answers: VecDeque<(String, String, bool)>,
    announced: Vec<String>,
    stored: HashMap<String, Vec<u8>>,
    current: String,
    file_reports: Vec<FileReport>,
    beam_reports: Vec<(String, bool, Option<String>)>,
    closed: Option<Result<(), TransporterError>>,
    ledger_down: bool,
}

impl Receiver {
    fn new(answers: Vec<(&str, &str, bool)>) -> Receiver {
        let mut session = BeamSession::new(Scotty::new("http://ledger".to_string()));
        let first = session.step(ServerEvent::Accepted);
        Receiver {
            session,
            pending: Some(first),
            wire: Vec::new(),
            at: 0,
            replies: VecDeque::new(),
            answers: answers
                .into_iter()
                .map(|(a, b, c)| (a.to_string(), b.to_string(), c))
                .collect(),
            announced: Vec::new(),
            stored: HashMap::new(),
            current: String::new(),
            file_reports: Vec::new(),
            beam_reports: Vec::new(),
            closed: None,
            ledger_down: false,
        }
    }

    fn feed(&mut self, event: ServerEvent) {
        assert!(self.session.accepts(&event));
        self.pending = Some(self.session.step(event));
    }

    /// Runs the receiver until it needs bytes that have not arrived; with
    /// `eof`, a missing byte is the sender hanging up.
    fn pump(&mut self, eof: bool) {
        while let Some(action) = self.pending.take() {
            let available = self.wire.len() - self.at;
            let event = match action {
                ServerAction::Read(n) => {
                    if available >= n {
                        let b = self.wire[self.at..self.at + n].to_vec();
                        self.at += n;
                        ServerEvent::Received(b)
                    } else if eof {
                        ServerEvent::ClientFailed("failed to fill whole buffer".to_string())
                    } else {
                        self.pending = Some(ServerAction::Read(n));
                        return;
                    }
                }
                ServerAction::ReadSome(n) => {
                    if available > 0 {
                        let k = n.min(available);
                        let b = self.wire[self.at..self.at + k].to_vec();
                        self.at += k;
                        ServerEvent::Received(b)
                    } else if eof {
                        ServerEvent::Received(Vec::new())
                    } else {
                        self.pending = Some(ServerAction::ReadSome(n));
                        return;
                    }
                }
                ServerAction::Reply(m) => {
                    self.replies.push_back(m.to_u8());
                    ServerEvent::Done
                }
                ServerAction::Ledger(LedgerRequest::BeginFile { body, .. }) => {
                    self.announced.push(body.file_name);
                    if self.ledger_down {
                        ServerEvent::LedgerFailed(transporter::error::ScottyError::ScottyIsDown)
                    } else {
                        let (file_id, storage_name, should_beam) = self.answers.pop_front().unwrap();
                        ServerEvent::FileRegistered(FilePostResponse { file_id, storage_name, should_beam })
                    }
                }
                ServerAction::Ledger(LedgerRequest::EndFile { url, body }) => {
                    self.file_reports.push(FileReport {
                        url,
                        success: body.success,
                        error: body.error,
                        size: body.size,
                        checksum: body.checksum,
                        mtime: body.mtime,
                    });
                    ServerEvent::Done
                }
                ServerAction::Ledger(LedgerRequest::EndBeam { url, body }) => {
                    self.beam_reports.push((url, body.beam.completed, body.beam.error));
                    ServerEvent::Done
                }
                ServerAction::OpenSink(name) => {
                    self.stored.insert(name.clone(), Vec::new());
                    self.current = name;
                    ServerEvent::Done
                }
                ServerAction::Write(b) => {
                    self.stored.get_mut(&self.current).unwrap().extend(b);
                    ServerEvent::Done
                }
                ServerAction::Close(r) => {
                    self.closed = Some(r);
                    return;
                }
            };
            self.feed(event);
        }
    }
}

/// Sends `files` (path, content) under the root `/data` through a full
/// session against a receiver whose ledger gives `answers`.
fn run_session(
    version: ProtocolVersion,
    files: &[(&str, Vec<u8>)],
    answers: Vec<(&str, &str, bool)>,
    mtime: u64,
) -> (Receiver, Vec<Result<FileOutcome, SenderError>>, usize) {
    let mut rx = Receiver::new(answers);
    let mut outcomes = Vec::new();
    let mut mtime_queries = 0;
    rx.wire.extend(session_preamble(77, version));
    for (path, content) in files {
        let mut sender = FileSender::new(path, Some("/data"), version);
        let mut offset = 0;
        let mut action = sender.step(SenderEvent::Begin);
        loop {
            let event = match action {
                SenderAction::Exchange(b) => {
                    rx.wire.extend(b);
                    rx.pump(false);
                    SenderEvent::Reply(rx.replies.pop_front().expect("a reply"))
                }
                SenderAction::QueryMtime => {
                    mtime_queries += 1;
                    SenderEvent::Mtime(mtime)
                }
                SenderAction::Send(b) => {
                    rx.wire.extend(b);
                    SenderEvent::Sent
                }
                SenderAction::ReadFile(n) => {
                    let k = n.min(content.len() - offset);
                    let d = content[offset..offset + k].to_vec();
                    offset += k;
                    SenderEvent::Data(d)
                }
                SenderAction::Finish(r) => {
                    outcomes.push(r);
                    break;
                }
            };
            assert!(sender.accepts(&event));
            action = sender.step(event);
        }
    }
    rx.wire.extend(session_end());
    rx.pump(true);
    (rx, outcomes, mtime_queries)
}

fn gunzip(b: &[u8]) -> Vec<u8> {
    let mut out = Vec::new();
    GzDecoder::new(b).read_to_end(&mut out).unwrap();
    out
}

fn sample(n: usize, seed: u32) -> Vec<u8> {
    (0..n as u32).map(|i| ((i * 31 + seed) % 253) as u8).collect()
}

#[test]
fn full_session_stores_what_was_sent() {
    let log = sample(400_000, 1);
    let archive = sample(200_000, 2);
    let skipped = sample(10, 3);
    let files = [
        ("/data/sub/a.log", log.clone()),
        ("/data/b.tar.gz", archive.clone()),
        ("/data/c.txt", skipped),
    ];
    let answers = vec![("f1", "s1", true), ("f2", "s2", true), ("f3", "s3", false)];
    let (rx, outcomes, mtime_queries) = run_session(ProtocolVersion::V2, &files, answers, 1_600_000_000);

    assert_eq!(rx.announced, vec!["./sub/a.log.gz", "./b.tar.gz", "./c.txt.gz"]);
    assert!(matches!(outcomes[0], Ok(FileOutcome::Beamed)));
    assert!(matches!(outcomes[1], Ok(FileOutcome::Beamed)));
    assert!(matches!(outcomes[2], Ok(FileOutcome::Skipped)));
    assert_eq!(mtime_queries, 2);

    // Raw file: stored bytes are the file's bytes.
    assert_eq!(rx.stored["s2"], archive);
    // Compressed file: stored bytes decompress to the file's bytes.
    assert_eq!(gunzip(&rx.stored["s1"]), log);
    assert!(!rx.stored.contains_key("s3"));

    // One report per accepted file, none for the skipped one.
    assert_eq!(rx.file_reports.len(), 2);
    for (report, (id, name)) in rx.file_reports.iter().zip([("f1", "s1"), ("f2", "s2")]) {
        assert_eq!(report.url, format!("http://ledger/files/{}", id));
        assert!(report.success);
        assert_eq!(report.error, "");
        assert_eq!(report.size, Some(rx.stored[name].len() as u64));
        assert_eq!(report.checksum.as_deref(), Some(checksum_of(&rx.stored[name]).as_str()));
        assert_eq!(report.mtime, Some(1_600_000_000));
    }

    // Exactly one session report, without error.
    assert_eq!(rx.beam_reports, vec![("http://ledger/beams/77".to_string(), true, None)]);
    assert!(matches!(rx.closed, Some(Ok(()))));
    assert_eq!(rx.session.tags()[0].0, "beam_id");
    assert_eq!(rx.session.tags()[0].1, "77");
}

#[test]
fn version_one_session_carries_no_mtime() {
    let data = sample(1000, 5);
    let files = [("/data/x.zip", data.clone())];
    let (rx, outcomes, mtime_queries) = run_session(ProtocolVersion::V1, &files, vec![("f", "s", true)], 5);
    assert_eq!(mtime_queries, 0);
    assert!(matches!(outcomes[0], Ok(FileOutcome::Beamed)));
    assert_eq!(rx.stored["s"], data);
    assert_eq!(rx.file_reports.len(), 1);
    assert_eq!(rx.file_reports[0].mtime, None);
    assert_eq!(rx.beam_reports.len(), 1);
}

#[test]
fn empty_file_is_stored_empty() {
    let files = [("/data/empty.gz", Vec::new())];
    let (rx, _, _) = run_session(ProtocolVersion::V2, &files, vec![("f", "s", true)], 0);
    assert!(rx.stored["s"].is_empty());
    assert_eq!(rx.file_reports[0].size, Some(0));
    assert_eq!(rx.file_reports[0].checksum.as_deref(), Some(checksum_of(b"").as_str()));
}

fn scripted(wire: Vec<u8>, answers: Vec<(&str, &str, bool)>) -> Receiver {
    let mut rx = Receiver::new(answers);
    rx.wire = wire;
    rx.pump(true);
    rx
}

#[test]
fn unknown_message_tag_ends_the_session() {
    let mut wire = vec![0, 0, 0, 0, 0, 0, 0, 5];
    wire.push(9);
    wire.extend([0]);
    let rx = scripted(wire, vec![]);
    assert_eq!(
        rx.beam_reports,
        vec![(
            "http://ledger/beams/5".to_string(),
            true,
            Some("Transporter Error: Invalid message code: 9".to_string())
        )]
    );
    assert!(matches!(rx.closed, Some(Err(TransporterError::InvalidClientMessageCode(9)))));
    assert!(!rx.closed.unwrap().unwrap_err().is_disconnection());
}

#[test]
fn unknown_version_ends_the_session() {
    let wire = vec![0, 0, 0, 0, 0, 0, 0, 5, 4, 0, 3, 0];
    let rx = scripted(wire, vec![]);
    assert_eq!(rx.beam_reports.len(), 1);
    assert!(matches!(rx.closed, Some(Err(TransporterError::InvalidProtocolVersion(3)))));
}

#[test]
fn message_out_of_place_ends_the_session() {
    let wire = vec![0, 0, 0, 0, 0, 0, 0, 5, 3];
    let rx = scripted(wire, vec![]);
    assert_eq!(rx.beam_reports.len(), 1);
    assert!(rx.beam_reports[0].2.as_deref().unwrap().contains("Unexpected message code: FileDone"));
}

#[test]
fn bad_tag_inside_a_file_reports_the_file_then_the_session() {
    // beam id, start file "a" (V1), then a version tag where a chunk belongs.
    let wire = vec![0, 0, 0, 0, 0, 0, 0, 5, 1, 0, 1, b'a', 4];
    let rx = scripted(wire, vec![("f", "s", true)]);
    assert_eq!(rx.file_reports.len(), 1);
    assert!(!rx.file_reports[0].success);
    assert_eq!(rx.file_reports[0].error, "Unexpected message code: ProtocolVersion");
    assert_eq!(rx.file_reports[0].size, None);
    assert_eq!(rx.beam_reports.len(), 1);
    assert!(rx.beam_reports[0].2.is_some());
}

#[test]
fn disconnection_in_a_chunk() {
    // beam id, start file "a" (V1), chunk of 10 bytes of which 3 arrive.
    let wire = vec![0, 0, 0, 0, 0, 0, 0, 5, 1, 0, 1, b'a', 2, 0, 0, 0, 10, 1, 2, 3];
    let rx = scripted(wire, vec![("f", "s", true)]);
    assert_eq!(rx.stored["s"], vec![1, 2, 3]);
    assert_eq!(rx.file_reports.len(), 1);
    assert_eq!(
        rx.file_reports[0].error,
        "Client close the connection in a middle of a beam"
    );
    assert_eq!(rx.beam_reports.len(), 1);
    let err = rx.closed.unwrap().unwrap_err();
    assert!(matches!(err, TransporterError::ClientEOF));
    assert!(err.is_disconnection());
}

#[test]
fn skipped_file_gets_no_report() {
    let wire = vec![0, 0, 0, 0, 0, 0, 0, 5, 1, 0, 1, b'a', 0];
    let rx = scripted(wire, vec![("f", "s", false)]);
    assert_eq!(rx.replies, vec![ServerMessages::SkipFile.to_u8()]);
    assert!(rx.file_reports.is_empty());
    assert!(rx.stored.is_empty());
    assert_eq!(rx.beam_reports, vec![("http://ledger/beams/5".to_string(), true, None)]);
    assert!(matches!(rx.closed, Some(Ok(()))));
}

#[test]
fn hang_up_before_beam_id_reports_nothing() {
    let rx = scripted(vec![0, 0, 1], vec![]);
    assert!(rx.beam_reports.is_empty());
    assert!(matches!(rx.closed, Some(Err(TransporterError::ClientIoError(_)))));
}

#[test]
fn ledger_failure_on_announce_ends_the_session() {
    let mut rx = Receiver::new(vec![]);
    rx.ledger_down = true;
    rx.wire = vec![0, 0, 0, 0, 0, 0, 0, 5, 1, 0, 1, b'a'];
    rx.pump(true);
    assert!(rx.file_reports.is_empty());
    assert_eq!(rx.beam_reports.len(), 1);
    assert_eq!(
        rx.beam_reports[0].2.as_deref(),
        Some("Transporter Error: Scotty error: Scotty is unreachable")
    );
}

#[test]
fn invalid_file_name_ends_the_session() {
    let wire = vec![0, 0, 0, 0, 0, 0, 0, 5, 1, 0, 2, 0xff, 0xfe];
    let rx = scripted(wire, vec![]);
    assert!(rx.announced.is_empty());
    let err = rx.closed.unwrap().unwrap_err();
    match &err {
        TransporterError::ClientIoError(text) => assert_eq!(text, "stream did not contain valid UTF-8"),
        other => panic!("unexpected {:?}", other),
    }
    assert!(err.is_disconnection());
    assert_eq!(
        rx.beam_reports[0].2.as_deref(),
        Some("Transporter Error: Client IO error: stream did not contain valid UTF-8")
    );
}

#[test]
fn unexpected_reply_is_an_error_for_the_sender() {
    let mut sender = FileSender::new("/data/a.zip", Some("/data"), ProtocolVersion::V2);
    let _ = sender.step(SenderEvent::Begin);
    match sender.step(SenderEvent::Reply(2)) {
        SenderAction::Finish(Err(SenderError::UnexpectedServerMessage(ServerMessages::FileBeamed))) => (),
        _ => panic!("expected a protocol error"),
    }
    let mut sender = FileSender::new("/data/a.zip", Some("/data"), ProtocolVersion::V2);
    let _ = sender.step(SenderEvent::Begin);
    match sender.step(SenderEvent::Reply(7)) {
        SenderAction::Finish(Err(SenderError::InvalidServerMessageCode(7))) => (),
        _ => panic!("expected a protocol error"),
    }
}
