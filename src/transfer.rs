use vstd::prelude::*;
use crate::content_range::{parse_spec, ContentRange, RangeError};
use crate::request::{
    classify_spec, classify_status, range_header_value, range_request, StatusClass,
};

verus! {

/// What probing the output path found.
#[derive(Clone, Copy, Debug, PartialEq, Eq, Structural)]
pub enum ProbeResult {
    /// The file exists and holds this many bytes.
    Length(u64),
    /// There is no file yet.
    NotFound,
    /// The path could not be inspected for another reason.
    Unreadable,
}

/// Why a transfer ended without the complete file.
#[derive(Clone, Copy, Debug, PartialEq, Eq, Structural)]
pub enum DownloadError {
    /// The output path could not be inspected.
    Unreadable,
    /// The request could not be sent.
    RequestFailed,
    /// The server answered with a status other than 206 or 416.
    Status(u16),
    /// A 206 response carried no `Content-Range` header.
    MissingContentRange,
    /// The `Content-Range` header could not be read.
    ContentRange(RangeError),
    /// The server's range does not start where the request asked.
    StartMismatch { requested: u64, declared: u64 },
    /// The server's range stops before the end of the resource.
    EndMismatch { end: u64, total: u64 },
    /// The output file could not be opened for appending.
    OpenFailed,
    /// The output file could not be flushed and closed after an error.
    CloseFailed,
    /// The retry policy allowed no further attempt.
    RetriesExhausted,
}

/// How often, and after what pause, the transfer starts over after a failure
/// in the middle of the body.
#[derive(Clone, Copy, Debug, PartialEq, Eq, Structural)]
pub struct RetryPolicy {
    /// The largest number of restarts, or `None` for no limit.
    pub limit: Option<u64>,
    /// Seconds to wait before probing the file again.
    pub delay_secs: u64,
}

pub open spec fn allows_spec(p: RetryPolicy, attempt: u64) -> bool {
    match p.limit {
        None => true,
        Some(m) => attempt <= m,
    }
}

impl RetryPolicy {
    /// Restarts without limit, one second apart.
    pub fn unlimited() -> (r: RetryPolicy)
        ensures
            r.limit is None,
            r.delay_secs == 1,
    {
        RetryPolicy { limit: None, delay_secs: 1 }
    }

    /// Whether restart number `attempt` (counting from 1) may go ahead.
    pub fn allows(&self, attempt: u64) -> (r: bool)
        ensures
            r == allows_spec(*self, attempt),
    {
        match self.limit {
            None => true,
            Some(m) => attempt <= m,
        }
    }
}

/// Where the transfer stands, and the event it waits for.
#[derive(Clone, Copy, Debug, PartialEq, Eq, Structural)]
pub enum Phase {
    /// Waits for the length of the output file.
    Probing,
    /// Waits for the response to a request from `offset`.
    Requesting { offset: u64 },
    /// Waits for the output file to be opened for appending.
    Opening,
    /// Waits for the next piece of the body.
    Reading,
    /// Waits for `len` bytes to be appended to the file.
    Appending { len: u64 },
    /// Waits for the file to be closed and the pause to pass.
    Recovering,
    /// The file is complete.
    Completed,
    /// The transfer stopped for good.
    Failed(DownloadError),
}

/// What a progress display shows: bytes in the file, the size of the
/// resource, and whether the transfer has ended.
#[derive(Clone, Copy, Debug, PartialEq, Eq, Structural)]
pub struct Progress {
    pub position: u64,
    pub length: u64,
    pub finished: bool,
}

/// The state of one resumable transfer.
#[derive(Clone, Copy, Debug, PartialEq, Eq, Structural)]
pub struct Transfer {
    pub phase: Phase,
    pub progress: Progress,
    /// Restarts made so far.
    pub attempts: u64,
    pub policy: RetryPolicy,
}

/// What happened when the caller carried out the last action.
#[derive(Clone, Debug, PartialEq, Eq)]
pub enum Event {
    Probed(ProbeResult),
    RequestFailed,
    Responded { status: u16, content_range: Option<Vec<u8>> },
    Opened,
    OpenFailed,
    Chunk(Vec<u8>),
    EndOfStream,
    StreamFailed,
    Appended,
    AppendFailed,
    Recovered,
    RecoverFailed,
}

pub enum EventView {
    Probed(ProbeResult),
    RequestFailed,
    Responded { status: u16, content_range: Option<Seq<u8>> },
    Opened,
    OpenFailed,
    Chunk(Seq<u8>),
    EndOfStream,
    StreamFailed,
    Appended,
    AppendFailed,
    Recovered,
    RecoverFailed,
}

impl View for Event {
    type V = EventView;

    open spec fn view(&self) -> EventView {
        match self {
            Event::Probed(p) => EventView::Probed(*p),
            Event::RequestFailed => EventView::RequestFailed,
            Event::Responded { status, content_range } => EventView::Responded {
                status: *status,
                content_range: match content_range {
                    Some(h) => Some(h@),
                    None => None,
                },
            },
            Event::Opened => EventView::Opened,
            Event::OpenFailed => EventView::OpenFailed,
            Event::Chunk(d) => EventView::Chunk(d@),
            Event::EndOfStream => EventView::EndOfStream,
            Event::StreamFailed => EventView::StreamFailed,
            Event::Appended => EventView::Appended,
            Event::AppendFailed => EventView::AppendFailed,
            Event::Recovered => EventView::Recovered,
            Event::RecoverFailed => EventView::RecoverFailed,
        }
    }
}

/// What the caller is to do next.
#[derive(Clone, Debug, PartialEq, Eq)]
pub enum Action {
    /// Find the length of the output file.
    Probe,
    /// Send a GET with the `Range` header value `range`, which asks for the
    /// resource from `offset` on.
    Request { offset: u64, range: Vec<u8> },
    /// Open the output file for appending, creating it if absent.
    OpenAppend,
    /// Read the next piece of the response body.
    ReadChunk,
    /// Append these bytes to the output file, in full.
    Append(Vec<u8>),
    /// Flush and close the output file, then wait this many seconds.
    Recover { delay_secs: u64 },
    /// The file is complete.
    Finish,
    /// Stop with this error.
    Fail(DownloadError),
}

pub enum ActionView {
    Probe,
    Request { offset: u64, range: Seq<u8> },
    OpenAppend,
    ReadChunk,
    Append(Seq<u8>),
    Recover { delay_secs: u64 },
    Finish,
    Fail(DownloadError),
}

impl View for Action {
    type V = ActionView;

    open spec fn view(&self) -> ActionView {
        match self {
            Action::Probe => ActionView::Probe,
            Action::Request { offset, range } => ActionView::Request { offset: *offset, range: range@ },
            Action::OpenAppend => ActionView::OpenAppend,
            Action::ReadChunk => ActionView::ReadChunk,
            Action::Append(d) => ActionView::Append(d@),
            Action::Recover { delay_secs } => ActionView::Recover { delay_secs: *delay_secs },
            Action::Finish => ActionView::Finish,
            Action::Fail(e) => ActionView::Fail(*e),
        }
    }
}

pub open spec fn initial(policy: RetryPolicy) -> Transfer {
    Transfer {
        phase: Phase::Probing,
        progress: Progress { position: 0, length: 0, finished: false },
        attempts: 0,
        policy,
    }
}

pub open spec fn sat_add(a: u64, b: u64) -> u64 {
    if a + b > u64::MAX {
        u64::MAX
    } else {
        (a + b) as u64
    }
}

pub open spec fn with_phase(s: Transfer, p: Phase) -> Transfer {
    Transfer { phase: p, ..s }
}

pub open spec fn with_position(s: Transfer, p: Phase, position: u64) -> Transfer {
    Transfer { phase: p, progress: Progress { position, ..s.progress }, ..s }
}

/// The end of the transfer: nothing more is awaited.
pub open spec fn ended(s: Transfer, p: Phase) -> Transfer {
    Transfer { phase: p, progress: Progress { finished: true, ..s.progress }, ..s }
}

pub open spec fn fail(s: Transfer, e: DownloadError) -> (Transfer, ActionView) {
    (ended(s, Phase::Failed(e)), ActionView::Fail(e))
}

/// A failure in the middle of the body: count the restart and recover, or stop
/// where the policy allows no more.
pub open spec fn transient(s: Transfer) -> (Transfer, ActionView) {
    let a = sat_add(s.attempts, 1);
    if allows_spec(s.policy, a) {
        (
            Transfer { phase: Phase::Recovering, attempts: a, ..s },
            ActionView::Recover { delay_secs: s.policy.delay_secs },
        )
    } else {
        fail(Transfer { attempts: a, ..s }, DownloadError::RetriesExhausted)
    }
}

/// The request from `offset` after probing found `offset` bytes in the file.
pub open spec fn resume_from(s: Transfer, offset: u64) -> (Transfer, ActionView) {
    (
        with_position(s, Phase::Requesting { offset }, offset),
        ActionView::Request { offset, range: range_request(offset as nat) },
    )
}

/// The answer to a response to the request from `offset`.
pub open spec fn on_response(s: Transfer, offset: u64, status: u16, header: Option<Seq<u8>>) -> (
    Transfer,
    ActionView,
) {
    match classify_spec(status) {
        StatusClass::AlreadyComplete => (ended(s, Phase::Completed), ActionView::Finish),
        StatusClass::Rejected => fail(s, DownloadError::Status(status)),
        StatusClass::Partial => match header {
            None => fail(s, DownloadError::MissingContentRange),
            Some(h) => match parse_spec(h) {
                Err(e) => fail(s, DownloadError::ContentRange(e)),
                Ok(cr) => {
                    if cr.start != offset {
                        fail(s, DownloadError::StartMismatch { requested: offset, declared: cr.start })
                    } else if cr.end + 1 != cr.total {
                        fail(s, DownloadError::EndMismatch { end: cr.end, total: cr.total })
                    } else {
                        (
                            Transfer {
                                phase: Phase::Opening,
                                progress: Progress { position: offset, length: cr.total, ..s.progress },
                                ..s
                            },
                            ActionView::OpenAppend,
                        )
                    }
                },
            },
        },
    }
}

/// The next state and action after event `e`, or `None` where the state does
/// not wait for an event of that kind.
pub open spec fn next(s: Transfer, e: EventView) -> Option<(Transfer, ActionView)> {
    match (s.phase, e) {
        (Phase::Probing, EventView::Probed(p)) => Some(
            match p {
                ProbeResult::Length(n) => resume_from(s, n),
                ProbeResult::NotFound => resume_from(s, 0),
                ProbeResult::Unreadable => fail(s, DownloadError::Unreadable),
            },
        ),
        (Phase::Requesting { .. }, EventView::RequestFailed) => Some(
            fail(s, DownloadError::RequestFailed),
        ),
        (Phase::Requesting { offset }, EventView::Responded { status, content_range }) => Some(
            on_response(s, offset, status, content_range),
        ),
        (Phase::Opening, EventView::Opened) => Some(
            (with_phase(s, Phase::Reading), ActionView::ReadChunk),
        ),
        (Phase::Opening, EventView::OpenFailed) => Some(fail(s, DownloadError::OpenFailed)),
        (Phase::Reading, EventView::Chunk(d)) => Some(
            (with_phase(s, Phase::Appending { len: d.len() as u64 }), ActionView::Append(d)),
        ),
        (Phase::Reading, EventView::EndOfStream) => Some(
            (ended(s, Phase::Completed), ActionView::Finish),
        ),
        (Phase::Reading, EventView::StreamFailed) => Some(transient(s)),
        (Phase::Appending { len }, EventView::Appended) => Some(
            (
                with_position(s, Phase::Reading, sat_add(s.progress.position, len)),
                ActionView::ReadChunk,
            ),
        ),
        (Phase::Appending { .. }, EventView::AppendFailed) => Some(transient(s)),
        (Phase::Recovering, EventView::Recovered) => Some(
            (with_phase(s, Phase::Probing), ActionView::Probe),
        ),
        (Phase::Recovering, EventView::RecoverFailed) => Some(
            fail(s, DownloadError::CloseFailed),
        ),
        _ => None,
    }
}

impl Transfer {
    /// A transfer that has done nothing yet; its first action is
    /// [`Action::Probe`], and it waits for [`Event::Probed`].
    pub fn new(policy: RetryPolicy) -> (r: Transfer)
        ensures
            r == initial(policy),
    {
        Transfer {
            phase: Phase::Probing,
            progress: Progress { position: 0, length: 0, finished: false },
            attempts: 0,
            policy,
        }
    }

    /// Whether the transfer waits for an event of this kind.
    pub fn accepts(&self, e: &Event) -> (r: bool)
        ensures
            r == next(*self, e@) is Some,
    {
        match (self.phase, e) {
            (Phase::Probing, Event::Probed(_)) => true,
            (Phase::Requesting { .. }, Event::RequestFailed) => true,
            (Phase::Requesting { .. }, Event::Responded { .. }) => true,
            (Phase::Opening, Event::Opened) => true,
            (Phase::Opening, Event::OpenFailed) => true,
            (Phase::Reading, Event::Chunk(_)) => true,
            (Phase::Reading, Event::EndOfStream) => true,
            (Phase::Reading, Event::StreamFailed) => true,
            (Phase::Appending { .. }, Event::Appended) => true,
            (Phase::Appending { .. }, Event::AppendFailed) => true,
            (Phase::Recovering, Event::Recovered) => true,
            (Phase::Recovering, Event::RecoverFailed) => true,
            _ => false,
        }
    }

    fn fail(&mut self, e: DownloadError) -> (a: Action)
        ensures
            fail(*old(self), e) == (*final(self), a@),
    {
        self.phase = Phase::Failed(e);
        self.progress.finished = true;
        Action::Fail(e)
    }

    fn transient(&mut self) -> (a: Action)
        ensures
            transient(*old(self)) == (*final(self), a@),
    {
        self.attempts = self.attempts.saturating_add(1);
        if self.policy.allows(self.attempts) {
            self.phase = Phase::Recovering;
            Action::Recover { delay_secs: self.policy.delay_secs }
        } else {
            self.fail(DownloadError::RetriesExhausted)
        }
    }

    fn resume_from(&mut self, offset: u64) -> (a: Action)
        ensures
            resume_from(*old(self), offset) == (*final(self), a@),
    {
        self.phase = Phase::Requesting { offset };
        self.progress.position = offset;
        Action::Request { offset, range: range_header_value(offset) }
    }

    fn on_response(&mut self, offset: u64, status: u16, header: Option<Vec<u8>>) -> (a: Action)
        ensures
            on_response(
                *old(self),
                offset,
                status,
                match header {
                    Some(h) => Some(h@),
                    None => None,
                },
            ) == (*final(self), a@),
    {
        match classify_status(status) {
            StatusClass::AlreadyComplete => {
                self.phase = Phase::Completed;
                self.progress.finished = true;
                Action::Finish
            },
            StatusClass::Rejected => self.fail(DownloadError::Status(status)),
            StatusClass::Partial => match header {
                None => self.fail(DownloadError::MissingContentRange),
                Some(h) => match ContentRange::parse(h.as_slice()) {
                    Err(e) => self.fail(DownloadError::ContentRange(e)),
                    Ok(cr) => {
                        if cr.start != offset {
                            self.fail(
                                DownloadError::StartMismatch { requested: offset, declared: cr.start },
                            )
                        } else if cr.end + 1 != cr.total {
                            self.fail(DownloadError::EndMismatch { end: cr.end, total: cr.total })
                        } else {
                            self.phase = Phase::Opening;
                            self.progress.position = offset;
                            self.progress.length = cr.total;
                            Action::OpenAppend
                        }
                    },
                },
            },
        }
    }

    /// Takes in what happened and returns what to do next. Bytes read from the
    /// body come back, unchanged, in [`Action::Append`]; the progress position
    /// grows by their number once [`Event::Appended`] reports them written.
    pub fn step(&mut self, e: Event) -> (a: Action)
        requires
            next(*old(self), e@) is Some,
        ensures
            next(*old(self), e@) == Some((*final(self), a@)),
    {
        match e {
            Event::Probed(ProbeResult::Length(n)) => self.resume_from(n),
            Event::Probed(ProbeResult::NotFound) => self.resume_from(0),
            Event::Probed(ProbeResult::Unreadable) => self.fail(DownloadError::Unreadable),
            Event::RequestFailed => self.fail(DownloadError::RequestFailed),
            Event::Responded { status, content_range } => {
                let offset = match self.phase {
                    Phase::Requesting { offset } => offset,
                    _ => 0,
                };
                self.on_response(offset, status, content_range)
            },
            Event::Opened => {
                self.phase = Phase::Reading;
                Action::ReadChunk
            },
            Event::OpenFailed => self.fail(DownloadError::OpenFailed),
            Event::Chunk(d) => {
                self.phase = Phase::Appending { len: d.len() as u64 };
                Action::Append(d)
            },
            Event::EndOfStream => {
                self.phase = Phase::Completed;
                self.progress.finished = true;
                Action::Finish
            },
            Event::StreamFailed => self.transient(),
            Event::Appended => {
                let len = match self.phase {
                    Phase::Appending { len } => len,
                    _ => 0,
                };
                self.phase = Phase::Reading;
                self.progress.position = self.progress.position.saturating_add(len);
                Action::ReadChunk
            },
            Event::AppendFailed => self.transient(),
            Event::Recovered => {
                self.phase = Phase::Probing;
                Action::Probe
            },
            Event::RecoverFailed => self.fail(DownloadError::CloseFailed),
        }
    }

    /// The progress display's view of the transfer.
    pub fn progress(&self) -> (r: Progress)
        ensures
            r == self.progress,
    {
        self.progress
    }

    /// Whether the transfer has reached its outcome.
    pub fn is_finished(&self) -> (r: bool)
        ensures
            r == self.progress.finished,
    {
        self.progress.finished
    }
}

} // verus!
