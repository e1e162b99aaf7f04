//! One transfer as a state machine.
//!
//! A transfer moves a file in chunks. The caller does the reading and the
//! writing and reports each outcome; the transfer decides what happens
//! next and which event is to be emitted. A transfer starts `Pending`,
//! runs while it is `Ready` (about to look at its cancellation flag) or
//! `Copying` (a chunk is under way), and ends `Completed`, `Cancelled` or
//! `Failed`. Nothing leads out of an ended transfer.

use vstd::prelude::*;
use vstd::string::*;
use crate::types::{ErrorKind, ErrorView, SftpError};

verus! {

/// The size of one chunk in bytes.
pub const CHUNK_SIZE: usize = 8192;

/// The direction of a transfer.
#[derive(Clone, Copy, Debug, PartialEq, Eq, Structural)]
pub enum TransferKind {
    Upload,
    Download,
}

impl TransferKind {
    /// The word for the direction in an event's payload.
    pub open spec fn label_text(self) -> Seq<char> {
        match self {
            TransferKind::Upload => "upload"@,
            TransferKind::Download => "download"@,
        }
    }

    /// The word for the direction in an event's payload.
    pub fn label(&self) -> (word: &'static str)
        ensures
            word@ == self.label_text(),
    {
        match self {
            TransferKind::Upload => "upload",
            TransferKind::Download => "download",
        }
    }
}

/// Where a transfer stands.
#[derive(Clone, Copy, Debug, PartialEq, Eq, Structural)]
pub enum TransferState {
    Pending,
    Ready,
    Copying,
    Completed,
    Cancelled,
    Failed,
}

impl TransferState {
    /// Whether the transfer has ended.
    pub open spec fn spec_is_terminal(&self) -> bool {
        *self == TransferState::Completed || *self == TransferState::Cancelled || *self
            == TransferState::Failed
    }

    /// Whether the transfer has ended.
    #[verifier::when_used_as_spec(spec_is_terminal)]
    pub fn is_terminal(&self) -> (b: bool)
        ensures
            b == self.spec_is_terminal(),
    {
        *self == TransferState::Completed || *self == TransferState::Cancelled || *self
            == TransferState::Failed
    }

    /// Whether the transfer's task is at work.
    pub open spec fn spec_is_running(&self) -> bool {
        *self == TransferState::Ready || *self == TransferState::Copying
    }

    /// Whether the transfer's task is at work.
    #[verifier::when_used_as_spec(spec_is_running)]
    pub fn is_running(&self) -> (b: bool)
        ensures
            b == self.spec_is_running(),
    {
        *self == TransferState::Ready || *self == TransferState::Copying
    }
}

/// What the caller is to do next.
#[derive(Clone, Copy, Debug, PartialEq, Eq, Structural)]
pub enum Directive {
    /// Open source and sink, find the total size, and report `Opened`.
    Open,
    /// Read the cancellation flag and report `Flag`.
    CheckFlag,
    /// Read one chunk and write it, and report `Chunk`; at the end of the
    /// source, flush the sink and report `Exhausted`.
    CopyChunk,
    /// Stop. With `remove_local`, delete the local file first.
    Stop { remove_local: bool },
}

/// One upload or download.
pub struct Transfer {
    pub id: String,
    pub kind: TransferKind,
    pub connection_id: String,
    pub local_path: String,
    pub remote_path: String,
    pub total: u64,
    pub total_known: bool,
    pub transferred: u64,
    pub state: TransferState,
    /// The message of the failure that ended the transfer, if one did.
    pub failure: Option<String>,
}

/// A transfer with its texts as sequences of characters.
pub struct TransferView {
    pub id: Seq<char>,
    pub kind: TransferKind,
    pub connection_id: Seq<char>,
    pub local_path: Seq<char>,
    pub remote_path: Seq<char>,
    pub total: u64,
    pub total_known: bool,
    pub transferred: u64,
    pub state: TransferState,
    pub failure: Option<Seq<char>>,
}

impl View for Transfer {
    type V = TransferView;

    open spec fn view(&self) -> TransferView {
        TransferView {
            id: self.id@,
            kind: self.kind,
            connection_id: self.connection_id@,
            local_path: self.local_path@,
            remote_path: self.remote_path@,
            total: self.total,
            total_known: self.total_known,
            transferred: self.transferred,
            state: self.state,
            failure: match self.failure {
                Some(message) => Some(message@),
                None => None,
            },
        }
    }
}

/// What the caller reports to a transfer.
pub enum TransferInput {
    /// Source and sink are open. `total` is the size of the source, where
    /// it could be found.
    Opened { total: Option<u64> },
    /// The cancellation flag was read.
    Flag { cancel_requested: bool },
    /// A chunk of `len` bytes was read and written.
    Chunk { len: u64 },
    /// The source is at its end and the sink is flushed.
    Exhausted,
    /// Something failed.
    Failure { message: String },
}

/// An input with its message as a sequence of characters.
pub enum InputView {
    Opened { total: Option<u64> },
    Flag { cancel_requested: bool },
    Chunk { len: u64 },
    Exhausted,
    Failure { message: Seq<char> },
}

impl View for TransferInput {
    type V = InputView;

    open spec fn view(&self) -> InputView {
        match self {
            TransferInput::Opened { total } => InputView::Opened { total: *total },
            TransferInput::Flag { cancel_requested } => InputView::Flag {
                cancel_requested: *cancel_requested,
            },
            TransferInput::Chunk { len } => InputView::Chunk { len: *len },
            TransferInput::Exhausted => InputView::Exhausted,
            TransferInput::Failure { message } => InputView::Failure { message: message@ },
        }
    }
}

/// What a transfer tells its listeners.
pub enum TransferEvent {
    Progress {
        connection_id: String,
        path: String,
        transferred: u64,
        total: u64,
        kind: TransferKind,
        transfer_id: String,
    },
    Cancelled { transfer_id: String, kind: TransferKind },
    Error { transfer_id: String, error: String, kind: TransferKind },
    Finished { connection_id: String, path: String, kind: TransferKind, transfer_id: String },
}

/// An event with its texts as sequences of characters.
pub enum EventView {
    Progress {
        connection_id: Seq<char>,
        path: Seq<char>,
        transferred: u64,
        total: u64,
        kind: TransferKind,
        transfer_id: Seq<char>,
    },
    Cancelled { transfer_id: Seq<char>, kind: TransferKind },
    Error { transfer_id: Seq<char>, error: Seq<char>, kind: TransferKind },
    Finished {
        connection_id: Seq<char>,
        path: Seq<char>,
        kind: TransferKind,
        transfer_id: Seq<char>,
    },
}

impl View for TransferEvent {
    type V = EventView;

    open spec fn view(&self) -> EventView {
        match self {
            TransferEvent::Progress {
                connection_id,
                path,
                transferred,
                total,
                kind,
                transfer_id,
            } => EventView::Progress {
                connection_id: connection_id@,
                path: path@,
                transferred: *transferred,
                total: *total,
                kind: *kind,
                transfer_id: transfer_id@,
            },
            TransferEvent::Cancelled { transfer_id, kind } => EventView::Cancelled {
                transfer_id: transfer_id@,
                kind: *kind,
            },
            TransferEvent::Error { transfer_id, error, kind } => EventView::Error {
                transfer_id: transfer_id@,
                error: error@,
                kind: *kind,
            },
            TransferEvent::Finished { connection_id, path, kind, transfer_id } => EventView::Finished {
                connection_id: connection_id@,
                path: path@,
                kind: *kind,
                transfer_id: transfer_id@,
            },
        }
    }
}

impl EventView {
    /// Whether the event closes its transfer.
    pub open spec fn is_terminal(self) -> bool {
        !(self is Progress)
    }

    /// The transfer that the event speaks of.
    pub open spec fn transfer_id(self) -> Seq<char> {
        match self {
            EventView::Progress { transfer_id, .. } => transfer_id,
            EventView::Cancelled { transfer_id, .. } => transfer_id,
            EventView::Error { transfer_id, .. } => transfer_id,
            EventView::Finished { transfer_id, .. } => transfer_id,
        }
    }
}

/// The name under which an event is emitted.
pub open spec fn channel_of(e: EventView) -> Seq<char> {
    match e {
        EventView::Progress { kind, .. } => match kind {
            TransferKind::Upload => "upload_progress"@,
            TransferKind::Download => "download_progress"@,
        },
        EventView::Cancelled { .. } => "transfer_cancelled"@,
        EventView::Error { .. } => "transfer_error"@,
        EventView::Finished { .. } => "process_finished"@,
    }
}

impl TransferEvent {
    /// The name under which the event is emitted.
    pub fn channel(&self) -> (name: &'static str)
        ensures
            name@ == channel_of(self@),
    {
        match self {
            TransferEvent::Progress { kind, .. } => match kind {
                TransferKind::Upload => "upload_progress",
                TransferKind::Download => "download_progress",
            },
            TransferEvent::Cancelled { .. } => "transfer_cancelled",
            TransferEvent::Error { .. } => "transfer_error",
            TransferEvent::Finished { .. } => "process_finished",
        }
    }

    /// Whether the event closes its transfer.
    pub fn is_terminal(&self) -> (b: bool)
        ensures
            b == self@.is_terminal(),
    {
        match self {
            TransferEvent::Progress { .. } => false,
            _ => true,
        }
    }
}

/// The event of a step, if any, and what the caller is to do next.
pub struct Step {
    pub event: Option<TransferEvent>,
    pub directive: Directive,
}

/// A step over views: the transfer after it, its event and its directive.
pub struct StepView {
    pub transfer: TransferView,
    pub event: Option<EventView>,
    pub directive: Directive,
}

/// The view of an event that may be missing.
pub open spec fn event_view(event: Option<TransferEvent>) -> Option<EventView> {
    match event {
        Some(e) => Some(e@),
        None => None,
    }
}

/// What a transfer in a given state waits for.
pub open spec fn awaited(state: TransferState) -> Directive {
    match state {
        TransferState::Pending => Directive::Open,
        TransferState::Ready => Directive::CheckFlag,
        TransferState::Copying => Directive::CopyChunk,
        _ => Directive::Stop { remove_local: false },
    }
}

/// The message of the failure that ends a transfer whose byte count would
/// leave the range of 64 bits.
pub open spec fn overflow_message() -> Seq<char> {
    "Transferred byte count out of range"@
}

/// The message of the failure that ends a transfer to which a chunk of
/// more than `CHUNK_SIZE` bytes is reported.
pub open spec fn oversize_message() -> Seq<char> {
    "Chunk exceeds the chunk size"@
}

/// Whether the last chunk has been written: some bytes have been moved,
/// and they are all the bytes that were announced. Of an empty source no
/// chunk is ever written, so this never holds of it.
pub open spec fn last_chunk_written(t: TransferView) -> bool {
    t.total_known && t.transferred > 0 && t.transferred >= t.total
}

/// The transfer ended by a failure with the given message.
pub open spec fn failed(t: TransferView, message: Seq<char>) -> StepView {
    StepView {
        transfer: TransferView { state: TransferState::Failed, failure: Some(message), ..t },
        event: Some(EventView::Error { transfer_id: t.id, error: message, kind: t.kind }),
        directive: Directive::Stop { remove_local: t.kind == TransferKind::Download },
    }
}

/// The step that a transfer takes on an input.
///
/// A request to cancel is seen before each chunk and ends the transfer,
/// with one exception: once the last chunk has been written the transfer
/// goes on to its completion. A transfer of an empty source writes no
/// chunk, so a request that is seen at its start cancels it.
/// A chunk holds at most `CHUNK_SIZE` bytes, and the byte count stays in
/// the range of 64 bits: a chunk that breaks either rule fails the
/// transfer. An input that the state does not wait for changes nothing.
pub open spec fn next(t: TransferView, input: InputView) -> StepView {
    match (t.state, input) {
        (TransferState::Pending, InputView::Opened { total }) => StepView {
            transfer: TransferView {
                total: match total {
                    Some(n) => n,
                    None => 0,
                },
                total_known: total is Some,
                state: TransferState::Ready,
                ..t
            },
            event: None,
            directive: Directive::CheckFlag,
        },
        (TransferState::Ready, InputView::Flag { cancel_requested }) => if cancel_requested
            && !last_chunk_written(t) {
            StepView {
                transfer: TransferView { state: TransferState::Cancelled, ..t },
                event: Some(EventView::Cancelled { transfer_id: t.id, kind: t.kind }),
                directive: Directive::Stop { remove_local: t.kind == TransferKind::Download },
            }
        } else {
            StepView {
                transfer: TransferView { state: TransferState::Copying, ..t },
                event: None,
                directive: Directive::CopyChunk,
            }
        },
        (TransferState::Copying, InputView::Chunk { len }) => if len > CHUNK_SIZE {
            failed(t, oversize_message())
        } else if t.transferred + len > u64::MAX {
            failed(t, overflow_message())
        } else {
            StepView {
                transfer: TransferView {
                    transferred: (t.transferred + len) as u64,
                    state: TransferState::Ready,
                    ..t
                },
                event: Some(
                    EventView::Progress {
                        connection_id: t.connection_id,
                        path: t.remote_path,
                        transferred: (t.transferred + len) as u64,
                        total: t.total,
                        kind: t.kind,
                        transfer_id: t.id,
                    },
                ),
                directive: Directive::CheckFlag,
            }
        },
        (TransferState::Copying, InputView::Exhausted) => StepView {
            transfer: TransferView { state: TransferState::Completed, ..t },
            event: Some(
                EventView::Finished {
                    connection_id: t.connection_id,
                    path: t.remote_path,
                    kind: t.kind,
                    transfer_id: t.id,
                },
            ),
            directive: Directive::Stop { remove_local: false },
        },
        (TransferState::Pending, InputView::Failure { message }) => failed(t, message),
        (TransferState::Ready, InputView::Failure { message }) => failed(t, message),
        (TransferState::Copying, InputView::Failure { message }) => failed(t, message),
        _ => StepView { transfer: t, event: None, directive: awaited(t.state) },
    }
}

/// A transfer that has been registered and not yet started.
pub open spec fn pending(
    id: Seq<char>,
    kind: TransferKind,
    connection_id: Seq<char>,
    local_path: Seq<char>,
    remote_path: Seq<char>,
) -> TransferView {
    TransferView {
        id,
        kind,
        connection_id,
        local_path,
        remote_path,
        total: 0,
        total_known: false,
        transferred: 0,
        state: TransferState::Pending,
        failure: None,
    }
}

/// How a transfer has ended, for one that has: well, by a request to
/// cancel, or by a failure.
pub open spec fn outcome_of(t: TransferView) -> Option<Result<(), ErrorView>> {
    match t.state {
        TransferState::Completed => Some(Ok(())),
        TransferState::Cancelled => Some(
            Err(ErrorView { kind: ErrorKind::Cancelled, message: "Transfer cancelled"@ }),
        ),
        TransferState::Failed => Some(
            Err(
                ErrorView {
                    kind: ErrorKind::Io,
                    message: match t.failure {
                        Some(message) => message,
                        None => Seq::empty(),
                    },
                },
            ),
        ),
        _ => None,
    }
}

/// The view of an outcome that may be missing.
pub open spec fn outcome_view(outcome: Option<Result<(), SftpError>>) -> Option<
    Result<(), ErrorView>,
> {
    match outcome {
        Some(Ok(_)) => Some(Ok(())),
        Some(Err(e)) => Some(Err(e@)),
        None => None,
    }
}

impl Transfer {
    /// A transfer that has been registered and not yet started.
    pub fn new(
        id: String,
        kind: TransferKind,
        connection_id: String,
        local_path: String,
        remote_path: String,
    ) -> (t: Transfer)
        ensures
            t@ == pending(id@, kind, connection_id@, local_path@, remote_path@),
    {
        Transfer {
            id,
            kind,
            connection_id,
            local_path,
            remote_path,
            total: 0,
            total_known: false,
            transferred: 0,
            state: TransferState::Pending,
            failure: None,
        }
    }

    /// How the transfer has ended, or `None` while it has not.
    pub fn outcome(&self) -> (r: Option<Result<(), SftpError>>)
        ensures
            outcome_view(r) == outcome_of(self@),
    {
        match self.state {
            TransferState::Completed => Some(Ok(())),
            TransferState::Cancelled => Some(Err(SftpError::Cancelled)),
            TransferState::Failed => {
                let message = match &self.failure {
                    Some(message) => message.clone(),
                    None => String::new(),
                };
                Some(Err(SftpError::Io { message }))
            },
            _ => None,
        }
    }

    /// What the transfer waits for.
    pub fn directive(&self) -> (d: Directive)
        ensures
            d == awaited(self.state),
    {
        match self.state {
            TransferState::Pending => Directive::Open,
            TransferState::Ready => Directive::CheckFlag,
            TransferState::Copying => Directive::CopyChunk,
            _ => Directive::Stop { remove_local: false },
        }
    }

    fn fail(&mut self, message: String) -> (step: Step)
        ensures
            final(self)@ == failed(old(self)@, message@).transfer,
            event_view(step.event) == failed(old(self)@, message@).event,
            step.directive == failed(old(self)@, message@).directive,
    {
        self.state = TransferState::Failed;
        self.failure = Some(message.clone());
        Step {
            event: Some(
                TransferEvent::Error { transfer_id: self.id.clone(), error: message, kind: self.kind },
            ),
            directive: Directive::Stop { remove_local: self.kind == TransferKind::Download },
        }
    }

    /// Takes one step: updates the transfer and says which event to emit
    /// and what to do next.
    pub fn step(&mut self, input: TransferInput) -> (step: Step)
        ensures
            final(self)@ == next(old(self)@, input@).transfer,
            event_view(step.event) == next(old(self)@, input@).event,
            step.directive == next(old(self)@, input@).directive,
    {
        match input {
            TransferInput::Opened { total } => {
                if self.state == TransferState::Pending {
                    self.total = match total {
                        Some(n) => n,
                        None => 0,
                    };
                    self.total_known = total.is_some();
                    self.state = TransferState::Ready;
                    Step { event: None, directive: Directive::CheckFlag }
                } else {
                    Step { event: None, directive: self.directive() }
                }
            },
            TransferInput::Flag { cancel_requested } => {
                if self.state == TransferState::Ready {
                    let last_chunk_written = self.total_known && self.transferred > 0
                        && self.transferred >= self.total;
                    if cancel_requested && !last_chunk_written {
                        self.state = TransferState::Cancelled;
                        Step {
                            event: Some(
                                TransferEvent::Cancelled {
                                    transfer_id: self.id.clone(),
                                    kind: self.kind,
                                },
                            ),
                            directive: Directive::Stop {
                                remove_local: self.kind == TransferKind::Download,
                            },
                        }
                    } else {
                        self.state = TransferState::Copying;
                        Step { event: None, directive: Directive::CopyChunk }
                    }
                } else {
                    Step { event: None, directive: self.directive() }
                }
            },
            TransferInput::Chunk { len } => {
                if self.state == TransferState::Copying {
                    if len > CHUNK_SIZE as u64 {
                        self.fail(String::from_str("Chunk exceeds the chunk size"))
                    } else if len > u64::MAX - self.transferred {
                        self.fail(String::from_str("Transferred byte count out of range"))
                    } else {
                        self.transferred = self.transferred + len;
                        self.state = TransferState::Ready;
                        Step {
                            event: Some(
                                TransferEvent::Progress {
                                    connection_id: self.connection_id.clone(),
                                    path: self.remote_path.clone(),
                                    transferred: self.transferred,
                                    total: self.total,
                                    kind: self.kind,
                                    transfer_id: self.id.clone(),
                                },
                            ),
                            directive: Directive::CheckFlag,
                        }
                    }
                } else {
                    Step { event: None, directive: self.directive() }
                }
            },
            TransferInput::Exhausted => {
                if self.state == TransferState::Copying {
                    self.state = TransferState::Completed;
                    Step {
                        event: Some(
                            TransferEvent::Finished {
                                connection_id: self.connection_id.clone(),
                                path: self.remote_path.clone(),
                                kind: self.kind,
                                transfer_id: self.id.clone(),
                            },
                        ),
                        directive: Directive::Stop { remove_local: false },
                    }
                } else {
                    Step { event: None, directive: self.directive() }
                }
            },
            TransferInput::Failure { message } => {
                if self.state.is_terminal() {
                    Step { event: None, directive: self.directive() }
                } else {
                    self.fail(message)
                }
            },
        }
    }
}

} // verus!
