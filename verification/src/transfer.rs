//! One transfer, as a machine that decides and never acts.
//!
//! A [`Transfer`] asks for one piece of outside work at a time, as an
//! [`Action`]; its driver performs it and hands back what came of it, as an
//! [`Event`]. Whether to start afresh, to resume or to do nothing, what to
//! count, when to stop and what to print are all decided here.

use vstd::prelude::*;
use vstd::pervasive::unreached;
use vstd::string::StringExecFns;
use vstd::utf8::encode_utf8;
use reqwest::Error as RequestError;
use reqwest::header::HeaderValue;
use tokio_util::sync::CancellationToken;
use crate::downloader::file_name_from_url;
use crate::downloader::final_segment;
use crate::errors::Error;
use crate::header::header_bytes;
use crate::header::range_header;
use crate::header::range_text;
use crate::progress::progress_text;
use crate::progress::update_progress;

verus! {

/// The signal that asks a transfer to stop, as `tokio-util` holds it.
#[verifier::external_type_specification]
#[verifier::external_body]
pub struct ExCancellationToken(CancellationToken);

/// `CancellationToken::new` makes a signal that nobody has set yet. Nothing
/// is claimed of it.
pub assume_specification[ CancellationToken::new ]() -> (token: CancellationToken)
;

/// `CancellationToken::is_cancelled` says whether the signal is set at the
/// moment of the call. Nothing is claimed of the answer.
pub assume_specification[ CancellationToken::is_cancelled ](token: &CancellationToken) -> (set:
    bool)
;

/// `CancellationToken::clone` makes another handle of the same signal: the
/// copy holds what the token holds, and the crate's own `==` finds the two
/// equal.
pub assume_specification[ <CancellationToken as Clone>::clone ](
    token: &CancellationToken,
) -> (copy: CancellationToken)
    ensures
        copy == *token,
;

/// What an existing output file means for the download, given the total
/// that the server's answer to the range request implies.
#[derive(Clone, Copy, Debug, PartialEq, Eq, Structural)]
pub enum Resumption {
    /// The file holds all there is: nothing is left to do.
    Complete,
    /// The file does not fit the resource: it is discarded, and the download
    /// starts afresh.
    Restart,
    /// The file is a proper beginning of the resource: the rest is appended.
    Resume,
}

/// The sum of two lengths in 64 bits, as the counters hold it: where the true
/// sum does not fit, it wraps round and comes out smaller than either.
pub open spec fn wrapped_sum(a: u64, b: u64) -> u64 {
    if a + b > u64::MAX {
        (a + b - 0x1_0000_0000_0000_0000) as u64
    } else {
        (a + b) as u64
    }
}

/// The rule behind [`classify`].
pub open spec fn resumption(file_len: u64, total: u64) -> Resumption {
    if total == file_len {
        Resumption::Complete
    } else if file_len > total || file_len == 0 {
        Resumption::Restart
    } else {
        Resumption::Resume
    }
}

/// Decides what to do with an output file of `file_len` bytes when the
/// resource has `total` bytes: nothing where the two are equal; start afresh
/// where the file is longer than the resource, or empty; resume otherwise.
pub fn classify(file_len: u64, total: u64) -> (r: Resumption)
    ensures
        r == resumption(file_len, total),
{
    if total == file_len {
        Resumption::Complete
    } else if file_len > total || file_len == 0 {
        Resumption::Restart
    } else {
        Resumption::Resume
    }
}

/// Where a transfer stands: the outside work that it waits for.
#[derive(Clone, Copy, Debug, PartialEq, Eq, Structural)]
pub enum Phase {
    /// The output path is being looked at.
    Inspecting,
    /// A range request from `file_len` on has been sent.
    Probing { file_len: u64 },
    /// A plain request has been sent.
    Requesting,
    /// The output file is being created or opened.
    Opening,
    /// The next chunk of the body is being pulled.
    Streaming,
    /// A chunk of `len` bytes is being written.
    Writing { len: u64 },
    /// The transfer is over.
    Finished,
}

/// The counters of a transfer, and where it stands.
#[derive(Clone, Copy, Debug, PartialEq, Eq, Structural)]
pub struct State {
    /// The outside work that the transfer waits for.
    pub phase: Phase,
    /// The bytes that the output file holds of the resource.
    pub downloaded_bytes: u64,
    /// The size of the resource as the server declared it; 0 while unknown.
    pub total_bytes: u64,
}

impl State {
    /// What holds of the state of every transfer: nothing is counted before
    /// the output file is opened, and a chunk that is being written fits the
    /// counter.
    pub open spec fn wf(self) -> bool {
        match self.phase {
            Phase::Inspecting | Phase::Probing { .. } | Phase::Requesting => {
                self.downloaded_bytes == 0 && self.total_bytes == 0
            },
            Phase::Writing { len } => self.downloaded_bytes + len <= u64::MAX,
            _ => true,
        }
    }
}

/// What came of the outside work that a transfer asked for.
#[derive(Debug)]
pub enum Event {
    /// The output path does not exist.
    Absent,
    /// The output path exists, and the file has that many bytes.
    Existing(u64),
    /// The response has arrived, and declares that many bytes for its body;
    /// 0 where it declares nothing.
    Responded(u64),
    /// The output file is open.
    Opened,
    /// A chunk of that many bytes has arrived.
    Chunk(u64),
    /// The body has ended.
    StreamEnded,
    /// The chunk is in the file.
    Written,
    /// The request, the response or its body failed.
    RequestFailed(RequestError),
    /// The file could not be inspected, opened or written.
    IoFailed(std::io::Error),
}

/// The outside work that a transfer asks for next.
#[derive(Debug)]
pub enum Action {
    /// Look at the output path: answer `Absent`, `Existing` with the file's
    /// length, or `IoFailed`.
    Inspect,
    /// Send a GET for the URL, with this `Range` header if there is one:
    /// answer `Responded` with the length that the response declares, or
    /// `RequestFailed`.
    Send { range: Option<HeaderValue> },
    /// Create the output file, or empty it if it exists: answer `Opened` or
    /// `IoFailed`.
    Create,
    /// Open the output file to append to it: answer `Opened` or `IoFailed`.
    Append,
    /// Print `report`, then pull the next chunk of the body: answer `Chunk`
    /// with its length, `StreamEnded`, or `RequestFailed`.
    Pull { report: String },
    /// Append the chunk just pulled to the file: answer `Written` or
    /// `IoFailed`.
    Write,
    /// Print `report`: the download has ended well.
    Done { report: String },
    /// The download has failed.
    Fail(Error),
}

/// An [`Action`] with its texts as sequences, and its header as bytes.
pub enum ActionView {
    Inspect,
    Send { range: Option<Seq<u8>> },
    Create,
    Append,
    Pull { report: Seq<char> },
    Write,
    Done { report: Seq<char> },
    Fail(Error),
}

impl View for Action {
    type V = ActionView;

    open spec fn view(&self) -> ActionView {
        match *self {
            Action::Inspect => ActionView::Inspect,
            Action::Send { range } => ActionView::Send {
                range: match range {
                    Some(value) => Some(header_bytes(value)),
                    None => None,
                },
            },
            Action::Create => ActionView::Create,
            Action::Append => ActionView::Append,
            Action::Pull { report } => ActionView::Pull { report: report@ },
            Action::Write => ActionView::Write,
            Action::Done { report } => ActionView::Done { report: report@ },
            Action::Fail(e) => ActionView::Fail(e),
        }
    }
}

/// The state of a transfer that has ended.
pub open spec fn finished(s: State) -> State {
    State { phase: Phase::Finished, ..s }
}

/// The state in which every transfer begins. Its first action is
/// [`Action::Inspect`].
pub open spec fn initial() -> State {
    State { phase: Phase::Inspecting, downloaded_bytes: 0, total_bytes: 0 }
}

/// The machine: the state that follows `s` on `event`, and the action asked
/// for next; `None` where `s` does not wait for `event`, or the counter of
/// downloaded bytes would leave 64 bits.
///
/// `name` is the name under which progress is reported; `cancelled` is
/// whether the signal was found set, which is looked at only when a chunk, or
/// the failure to get one, comes in.
///
/// An existing file is probed with a range request from its end on. The
/// total is the file's length and the length that the answer declares, summed
/// in 64 bits, and [`resumption`] decides by it.
pub open spec fn transition(name: Seq<char>, s: State, event: Event, cancelled: bool) -> Option<
    (State, ActionView),
> {
    match s.phase {
        Phase::Inspecting => match event {
            Event::Absent => Some(
                (State { phase: Phase::Requesting, ..s }, ActionView::Send { range: None }),
            ),
            Event::Existing(file_len) => Some(
                (
                    State { phase: Phase::Probing { file_len }, ..s },
                    ActionView::Send { range: Some(encode_utf8(range_text(file_len))) },
                ),
            ),
            Event::IoFailed(e) => Some((finished(s), ActionView::Fail(Error::IO(e)))),
            _ => None,
        },
        Phase::Probing { file_len } => match event {
            Event::Responded(remaining) => {
                let total = wrapped_sum(file_len, remaining);
                match resumption(file_len, total) {
                    Resumption::Complete => Some(
                        (
                            State {
                                phase: Phase::Finished,
                                downloaded_bytes: file_len,
                                total_bytes: total,
                            },
                            ActionView::Done { report: Seq::empty() },
                        ),
                    ),
                    Resumption::Restart => Some(
                        (State { phase: Phase::Requesting, ..s }, ActionView::Send { range: None }),
                    ),
                    Resumption::Resume => Some(
                        (
                            State {
                                phase: Phase::Opening,
                                downloaded_bytes: file_len,
                                total_bytes: total,
                            },
                            ActionView::Append,
                        ),
                    ),
                }
            },
            Event::RequestFailed(e) => Some(
                (finished(s), ActionView::Fail(Error::RequestFailed(e))),
            ),
            _ => None,
        },
        Phase::Requesting => match event {
            Event::Responded(declared) => Some(
                (
                    State { phase: Phase::Opening, downloaded_bytes: 0, total_bytes: declared },
                    ActionView::Create,
                ),
            ),
            Event::RequestFailed(e) => Some(
                (finished(s), ActionView::Fail(Error::RequestFailed(e))),
            ),
            _ => None,
        },
        Phase::Opening => match event {
            Event::Opened => Some(
                (State { phase: Phase::Streaming, ..s }, ActionView::Pull { report: Seq::empty() }),
            ),
            Event::IoFailed(e) => Some((finished(s), ActionView::Fail(Error::IO(e)))),
            _ => None,
        },
        Phase::Streaming => match event {
            Event::Chunk(len) => if s.downloaded_bytes + len > u64::MAX {
                None
            } else if cancelled {
                Some((finished(s), ActionView::Done { report: "\n"@ }))
            } else {
                Some((State { phase: Phase::Writing { len }, ..s }, ActionView::Write))
            },
            Event::RequestFailed(e) => if cancelled {
                Some((finished(s), ActionView::Done { report: "\n"@ }))
            } else {
                Some((finished(s), ActionView::Fail(Error::RequestFailed(e))))
            },
            Event::StreamEnded => Some((finished(s), ActionView::Done { report: "\n"@ })),
            _ => None,
        },
        Phase::Writing { len } => match event {
            Event::Written => if s.downloaded_bytes + len > u64::MAX {
                None
            } else {
                let downloaded = (s.downloaded_bytes + len) as u64;
                Some(
                    (
                        State { phase: Phase::Streaming, downloaded_bytes: downloaded, ..s },
                        ActionView::Pull { report: progress_text(name, downloaded, s.total_bytes) },
                    ),
                )
            },
            Event::IoFailed(e) => Some((finished(s), ActionView::Fail(Error::IO(e)))),
            _ => None,
        },
        Phase::Finished => None,
    }
}

/// Whether the signal is looked at when `event` comes in to a transfer in
/// state `s`: only while the body is streamed, and only for a chunk or for
/// the failure to get one.
pub open spec fn consults_signal(s: State, event: Event) -> bool {
    s.phase == Phase::Streaming && (event is Chunk || event is RequestFailed)
}

/// Where the signal is not looked at, it makes no difference to what
/// follows.
pub proof fn signal_matters_only_when_consulted(name: Seq<char>, s: State, event: Event)
    requires
        !consults_signal(s, event),
    ensures
        transition(name, s, event, true) == transition(name, s, event, false),
{
}

/// The counter of downloaded bytes never goes back, and what holds of the
/// state of every transfer goes on holding.
pub proof fn counter_never_goes_back(name: Seq<char>, state: State, event: Event, cancelled: bool)
    requires
        state.wf(),
        transition(name, state, event, cancelled) is Some,
    ensures
        transition(name, state, event, cancelled)->Some_0.0.wf(),
        transition(name, state, event, cancelled)->Some_0.0.downloaded_bytes
            >= state.downloaded_bytes,
{
}

/// One download in progress.
pub struct Transfer {
    source_url: String,
    output_path: String,
    token: CancellationToken,
    state: State,
}

/// A [`Transfer`] with its texts as sequences.
pub struct TransferView {
    /// The URL that is downloaded.
    pub source_url: Seq<char>,
    /// The path of the output file.
    pub output_path: Seq<char>,
    /// The signal that the transfer watches.
    pub token: CancellationToken,
    /// The counters, and where the transfer stands.
    pub state: State,
}

impl TransferView {
    /// The name under which progress is reported: the final segment of the
    /// output path.
    pub open spec fn display_name(self) -> Seq<char> {
        final_segment(self.output_path)
    }

    /// Whether the transfer waits for `event`, and can count it.
    pub open spec fn accepts(self, event: Event) -> bool {
        transition(self.display_name(), self.state, event, false) is Some
    }

    /// The transfer after `event`, and the action that it asks for next.
    pub open spec fn after(self, event: Event, cancelled: bool) -> (TransferView, ActionView)
        recommends
            self.accepts(event),
    {
        let next = transition(self.display_name(), self.state, event, cancelled)->Some_0;
        (TransferView { state: next.0, ..self }, next.1)
    }
}

impl View for Transfer {
    type V = TransferView;

    closed spec fn view(&self) -> TransferView {
        TransferView {
            source_url: self.source_url@,
            output_path: self.output_path@,
            token: self.token,
            state: self.state,
        }
    }
}

impl Transfer {
    #[verifier::type_invariant]
    spec fn inv(self) -> bool {
        self.state.wf()
    }

    /// A transfer of `source_url` to `output_path` that watches `token`. It
    /// has done nothing yet; its first action is [`Action::Inspect`].
    pub fn new(source_url: String, output_path: String, token: CancellationToken) -> (res: (
        Transfer,
        Action,
    ))
        ensures
            res.0@ == (TransferView {
                source_url: source_url@,
                output_path: output_path@,
                token,
                state: initial(),
            }),
            res.1@ == ActionView::Inspect,
    {
        let state = State { phase: Phase::Inspecting, downloaded_bytes: 0, total_bytes: 0 };
        (Transfer { source_url, output_path, token, state }, Action::Inspect)
    }

    /// The URL that is downloaded.
    pub fn source_url(&self) -> (url: &str)
        ensures
            url@ == self@.source_url,
    {
        self.source_url.as_str()
    }

    /// The path of the output file.
    pub fn output_path(&self) -> (path: &str)
        ensures
            path@ == self@.output_path,
    {
        self.output_path.as_str()
    }

    /// The counters, and where the transfer stands.
    pub fn state(&self) -> (s: State)
        ensures
            s == self@.state,
            s.wf(),
    {
        proof {
            use_type_invariant(self);
        }
        self.state
    }

    /// Whether the transfer waits for `event`, and can count it.
    pub fn accepts(&self, event: &Event) -> (ok: bool)
        ensures
            ok == self@.accepts(*event),
    {
        match self.state.phase {
            Phase::Inspecting => match event {
                Event::Absent => true,
                Event::Existing(_) => true,
                Event::IoFailed(_) => true,
                _ => false,
            },
            Phase::Probing { file_len } => match event {
                Event::Responded(_) => true,
                Event::RequestFailed(_) => true,
                _ => false,
            },
            Phase::Requesting => match event {
                Event::Responded(_) => true,
                Event::RequestFailed(_) => true,
                _ => false,
            },
            Phase::Opening => match event {
                Event::Opened => true,
                Event::IoFailed(_) => true,
                _ => false,
            },
            Phase::Streaming => match event {
                Event::Chunk(len) => *len <= u64::MAX - self.state.downloaded_bytes,
                Event::RequestFailed(_) => true,
                Event::StreamEnded => true,
                _ => false,
            },
            Phase::Writing { len } => match event {
                Event::Written => len <= u64::MAX - self.state.downloaded_bytes,
                Event::IoFailed(_) => true,
                _ => false,
            },
            Phase::Finished => false,
        }
    }

    /// Whether the signal is looked at when `event` comes in: only while the
    /// body is streamed, for a chunk or for the failure to get one.
    fn consults_token(&self, event: &Event) -> (watch: bool)
        ensures
            watch == consults_signal(self@.state, *event),
    {
        match self.state.phase {
            Phase::Streaming => match event {
                Event::Chunk(_) => true,
                Event::RequestFailed(_) => true,
                _ => false,
            },
            _ => false,
        }
    }

    /// Takes in what came of the action last asked for, and asks for the
    /// next: [`transition`], with the signal as the caller found it.
    pub fn advance(&mut self, event: Event, cancelled: bool) -> (action: Action)
        requires
            old(self)@.accepts(event),
        ensures
            (final(self)@, action@) == old(self)@.after(event, cancelled),
            final(self)@.state.wf(),
    {
        proof {
            use_type_invariant(&*self);
        }
        match self.state.phase {
            Phase::Inspecting => match event {
                Event::Absent => {
                    self.state.phase = Phase::Requesting;
                    Action::Send { range: None }
                },
                Event::Existing(file_len) => match range_header(file_len) {
                    Ok(value) => {
                        self.state.phase = Phase::Probing { file_len };
                        Action::Send { range: Some(value) }
                    },
                    Err(e) => {
                        self.state.phase = Phase::Finished;
                        Action::Fail(e)
                    },
                },
                Event::IoFailed(e) => {
                    self.state.phase = Phase::Finished;
                    Action::Fail(Error::from(e))
                },
                _ => unreached(),
            },
            Phase::Probing { file_len } => match event {
                Event::Responded(remaining) => {
                    let total = file_len.wrapping_add(remaining);
                    match classify(file_len, total) {
                        Resumption::Complete => {
                            self.state = State {
                                phase: Phase::Finished,
                                downloaded_bytes: file_len,
                                total_bytes: total,
                            };
                            Action::Done { report: String::new() }
                        },
                        Resumption::Restart => {
                            self.state.phase = Phase::Requesting;
                            Action::Send { range: None }
                        },
                        Resumption::Resume => {
                            self.state = State {
                                phase: Phase::Opening,
                                downloaded_bytes: file_len,
                                total_bytes: total,
                            };
                            Action::Append
                        },
                    }
                },
                Event::RequestFailed(e) => {
                    self.state.phase = Phase::Finished;
                    Action::Fail(Error::from(e))
                },
                _ => unreached(),
            },
            Phase::Requesting => match event {
                Event::Responded(declared) => {
                    self.state = State {
                        phase: Phase::Opening,
                        downloaded_bytes: 0,
                        total_bytes: declared,
                    };
                    Action::Create
                },
                Event::RequestFailed(e) => {
                    self.state.phase = Phase::Finished;
                    Action::Fail(Error::from(e))
                },
                _ => unreached(),
            },
            Phase::Opening => match event {
                Event::Opened => {
                    self.state.phase = Phase::Streaming;
                    Action::Pull { report: String::new() }
                },
                Event::IoFailed(e) => {
                    self.state.phase = Phase::Finished;
                    Action::Fail(Error::from(e))
                },
                _ => unreached(),
            },
            Phase::Streaming => match event {
                Event::Chunk(len) => {
                    if cancelled {
                        self.state.phase = Phase::Finished;
                        Action::Done { report: String::from_str("\n") }
                    } else {
                        self.state.phase = Phase::Writing { len };
                        Action::Write
                    }
                },
                Event::RequestFailed(e) => {
                    self.state.phase = Phase::Finished;
                    if cancelled {
                        Action::Done { report: String::from_str("\n") }
                    } else {
                        Action::Fail(Error::from(e))
                    }
                },
                Event::StreamEnded => {
                    self.state.phase = Phase::Finished;
                    Action::Done { report: String::from_str("\n") }
                },
                _ => unreached(),
            },
            Phase::Writing { len } => match event {
                Event::Written => {
                    let downloaded = self.state.downloaded_bytes + len;
                    self.state = State {
                        phase: Phase::Streaming,
                        downloaded_bytes: downloaded,
                        total_bytes: self.state.total_bytes,
                    };
                    let name = file_name_from_url(self.output_path.as_str());
                    Action::Pull {
                        report: update_progress(name, downloaded, self.state.total_bytes),
                    }
                },
                Event::IoFailed(e) => {
                    self.state.phase = Phase::Finished;
                    Action::Fail(Error::from(e))
                },
                _ => unreached(),
            },
            Phase::Finished => unreached(),
        }
    }

    /// Takes in what came of the action last asked for, and asks for the
    /// next. When a chunk comes in, or the failure to get one, the signal is
    /// looked at first: what follows is [`transition`] for the signal set or
    /// for the signal not set, whichever it was found to be.
    pub fn step(&mut self, event: Event) -> (action: Action)
        requires
            old(self)@.accepts(event),
        ensures
            (final(self)@, action@) == old(self)@.after(event, true) || (final(self)@, action@)
                == old(self)@.after(event, false),
            final(self)@.state.wf(),
    {
        let cancelled = self.consults_token(&event) && self.token.is_cancelled();
        proof {
            if !consults_signal(self@.state, event) {
                signal_matters_only_when_consulted(self@.display_name(), self@.state, event);
            }
        }
        self.advance(event, cancelled)
    }
}

} // verus!
