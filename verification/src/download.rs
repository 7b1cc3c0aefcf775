//! Subscription downloads: the decisions and the bookkeeping of a download,
//! from the answer's status to the bytes written and the progress reported.
//! The HTTP client, the byte stream and the file are driven by the caller,
//! which hands each event to a `DownloadSession`.

use vstd::prelude::*;
use crate::controller::is_success;
use crate::external::{canonical_reason, status_reason};
use crate::text::{all_digits, decimal, decimal_denotes_its_number, digits_value, push_decimal};

verus! {

/// How a download ended.
#[derive(Debug)]
pub struct DownloadResult {
    pub success: bool,
    pub file_size: u64,
    pub error_message: Option<String>,
}

/// Bytes received so far, out of the announced total (0 when the server
/// announced none).
#[derive(Debug, Clone, Copy, PartialEq, Eq, Structural)]
pub struct DownloadProgress {
    pub downloaded: u64,
    pub total: u64,
}

/// Receives the progress reports of a download.
pub trait DownloadProgressCallback: Send + Sync {
    fn on_progress(&self, progress: DownloadProgress);
}

/// The User-Agent sent when the caller gives none.
pub open spec fn default_user_agent() -> Seq<char> {
    "clash-android/1.0"@
}

/// The most redirects a download follows.
pub const MAX_REDIRECTS: usize = 10;

/// The User-Agent of a download: the caller's, or `clash-android/1.0`.
pub fn user_agent(requested: Option<String>) -> (r: String)
    ensures
        r@ == match requested {
            Some(ua) => ua@,
            None => default_user_agent(),
        },
{
    match requested {
        Some(ua) => ua,
        None => "clash-android/1.0".to_owned(),
    }
}

/// The error message of a download whose answer had status `code`.
pub open spec fn http_failure_message(code: u16) -> Seq<char> {
    "HTTP "@ + decimal(code as nat) + " - "@ + match canonical_reason(code) {
        Some(reason) => reason,
        None => "Unknown"@,
    }
}

/// The failure message of a download carries the status code: after the
/// fixed `HTTP ` come the decimal digits of the code, then ` - `.
pub proof fn http_failure_message_names_code(code: u16)
    ensures
        ({
            let m = http_failure_message(code);
            let head = "HTTP "@;
            let d = decimal(code as nat);
            &&& m.len() >= (head.len() + d.len() + (" - "@).len()) as int
            &&& m.take(head.len() as int) == head
            &&& m.subrange(head.len() as int, (head.len() + d.len()) as int) == d
            &&& m.subrange((head.len() + d.len()) as int, (head.len() + d.len() + (" - "@).len()) as int) == " - "@
            &&& all_digits(d) && digits_value(d) == code
        }),
{
    let head = "HTTP "@;
    let sep = " - "@;
    let d = decimal(code as nat);
    let reason = match canonical_reason(code) {
        Some(r) => r,
        None => "Unknown"@,
    };
    let m = http_failure_message(code);
    assert(m == head + d + sep + reason);
    assert(m.take(head.len() as int) =~= head);
    assert(m.subrange(head.len() as int, (head.len() + d.len()) as int) =~= d);
    assert(m.subrange((head.len() + d.len()) as int, (head.len() + d.len() + sep.len()) as int) =~= sep);
    decimal_denotes_its_number(code as nat);
}

/// State of a download in progress: the announced total and the bytes
/// received so far, in order.
pub struct DownloadSession {
    total: u64,
    received: Vec<u8>,
}

pub struct DownloadSessionView {
    pub total: u64,
    pub received: Seq<u8>,
}

impl View for DownloadSession {
    type V = DownloadSessionView;

    closed spec fn view(&self) -> DownloadSessionView {
        DownloadSessionView { total: self.total, received: self.received@ }
    }
}

/// The progress report of a session.
pub open spec fn progress_of(s: DownloadSessionView) -> DownloadProgress {
    DownloadProgress { downloaded: s.received.len() as u64, total: s.total }
}

/// A session after one more chunk of the stream.
pub open spec fn after_chunk(s: DownloadSessionView, chunk: Seq<u8>) -> DownloadSessionView {
    DownloadSessionView { total: s.total, received: s.received + chunk }
}

/// A session after the given chunks, in order.
pub open spec fn after_chunks(s: DownloadSessionView, chunks: Seq<Seq<u8>>) -> DownloadSessionView
    decreases chunks.len(),
{
    if chunks.len() == 0 {
        s
    } else {
        after_chunk(after_chunks(s, chunks.drop_last()), chunks.last())
    }
}

/// The result of a download whose stream ended and whose file was written.
pub open spec fn completed(s: DownloadSessionView) -> (bool, u64) {
    (true, s.received.len() as u64)
}

impl DownloadSession {
    /// Decides on the answer to the download request.  A status outside
    /// 200..=299 ends the download with a failed result that names the
    /// status; otherwise a session starts, expecting the announced length
    /// (0 when none was announced).
    pub fn start(status: u16, content_length: Option<u64>) -> (r: Result<
        DownloadSession,
        DownloadResult,
    >)
        ensures
            r is Ok <==> is_success(status),
            r matches Ok(s) ==> s@ == (DownloadSessionView {
                total: match content_length {
                    Some(n) => n,
                    None => 0,
                },
                received: seq![],
            }),
            r matches Err(res) ==> !res.success && res.file_size == 0
                && res.error_message.deep_view() == Some(http_failure_message(status)),
    {
        if 200 <= status && status < 300 {
            let total: u64 = match content_length {
                Some(n) => n,
                None => 0,
            };
            return Ok(DownloadSession { total, received: Vec::new() });
        }
        let mut message = "HTTP ".to_owned();
        push_decimal(&mut message, status as u64);
        message.append(" - ");
        match status_reason(status) {
            Some(reason) => message.append(reason.as_str()),
            None => message.append("Unknown"),
        }
        Err(DownloadResult { success: false, file_size: 0, error_message: Some(message) })
    }

    /// The progress to report now (before the first chunk: 0 of the total).
    pub fn progress(&self) -> (p: DownloadProgress)
        ensures
            p == progress_of(self@),
    {
        DownloadProgress { downloaded: self.received.len() as u64, total: self.total }
    }

    /// Takes the next chunk of the stream and gives the progress to report.
    pub fn receive(&mut self, chunk: &[u8]) -> (p: DownloadProgress)
        requires
            old(self)@.received.len() + chunk@.len() <= u64::MAX,
        ensures
            final(self)@ == after_chunk(old(self)@, chunk@),
            p == progress_of(final(self)@),
            p.downloaded == old(self)@.received.len() + chunk@.len(),
    {
        let ghost start = self.received@;
        let ghost total = self.total;
        for i in 0..chunk.len()
            invariant
                self.total == total,
                self.received@ =~= start + chunk@.take(i as int),
        {
            self.received.push(chunk[i]);
            assert(chunk@.take(i + 1) =~= chunk@.take(i as int).push(chunk@[i as int]));
        }
        assert(chunk@.take(chunk@.len() as int) =~= chunk@);
        self.progress()
    }

    /// Ends the session when the stream is over: the bytes to write to the
    /// output file, in the order received, and the successful result whose
    /// size is their count.
    pub fn finish(self) -> (r: (Vec<u8>, DownloadResult))
        ensures
            r.0@ == self@.received,
            (r.1.success, r.1.file_size) == completed(self@),
            r.1.success,
            r.1.file_size == self@.received.len(),
            r.1.error_message is None,
    {
        let file_size = self.received.len() as u64;
        (self.received, DownloadResult { success: true, file_size, error_message: None })
    }
}

/// The file holds the stream: after any sequence of chunks, the session has
/// received their concatenation, and its total is unchanged.
pub proof fn session_receives_the_stream(s: DownloadSessionView, chunks: Seq<Seq<u8>>)
    ensures
        after_chunks(s, chunks).received == s.received + chunks.flatten(),
        after_chunks(s, chunks).total == s.total,
    decreases chunks.len(),
{
    if chunks.len() > 0 {
        session_receives_the_stream(s, chunks.drop_last());
        chunks.drop_last().lemma_flatten_push(chunks.last());
        assert(chunks.drop_last().push(chunks.last()) =~= chunks);
        assert(s.received + chunks.drop_last().flatten() + chunks.last() =~= s.received + (
        chunks.drop_last().flatten() + chunks.last()));
    } else {
        assert(s.received + chunks.flatten() =~= s.received);
    }
}

/// A download whose stream ended succeeds whatever total was announced,
/// and its size is the number of bytes received.
pub proof fn finished_download_succeeds(s: DownloadSessionView)
    ensures
        completed(s).0,
        completed(s).1 == s.received.len() as u64,
{
}

/// Progress never goes back, and the last report of a download equals the
/// size of the file it writes.
pub proof fn progress_is_monotone_and_ends_at_file_size(
    s: DownloadSessionView,
    chunk: Seq<u8>,
)
    requires
        s.received.len() + chunk.len() <= u64::MAX,
    ensures
        progress_of(s).downloaded <= progress_of(after_chunk(s, chunk)).downloaded,
        progress_of(s).total == progress_of(after_chunk(s, chunk)).total,
        progress_of(s).downloaded == completed(s).1,
{
}

} // verus!
