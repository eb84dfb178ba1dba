//! Whole downloads: what becomes of the output file when a transfer is run
//! by a driver that does as it is asked and meets no failure.
//!
//! Nothing here is executed. The [`World`] is what a transfer finds outside
//! itself, [`performed`] is what its driver owes it for each action, and the
//! proofs say what every such run comes to.

use vstd::prelude::*;
use crate::transfer::finished;
use crate::transfer::initial;
use crate::transfer::resumption;
use crate::transfer::transition;
use crate::transfer::wrapped_sum;
use crate::transfer::ActionView;
use crate::transfer::Event;
use crate::transfer::Phase;
use crate::transfer::Resumption;
use crate::transfer::State;

verus! {

/// What the server answers a request: the length that it declares, and the
/// body in the chunks in which it arrives.
pub struct Reply {
    pub declared: u64,
    pub chunks: Seq<Seq<u8>>,
}

/// What a transfer finds outside itself.
pub struct World {
    /// What the output path holds; `None` where it does not exist.
    pub file: Option<Seq<u8>>,
    /// What the server answers a request without a range.
    pub plain: Reply,
    /// What the server answers the request for the range that starts where
    /// the file ends.
    pub ranged: Reply,
    /// The chunks of the open response that have not been written.
    pub body: Seq<Seq<u8>>,
    /// How many more chunks are written before the signal is found set;
    /// `None` where it is never set.
    pub patience: Option<nat>,
    /// How many requests were sent.
    pub sent: nat,
    /// How often a chunk was asked for.
    pub pulled: nat,
    /// How many chunks were written.
    pub written: nat,
}

impl World {
    /// The bytes of the output file; none where it does not exist.
    pub open spec fn content(self) -> Seq<u8> {
        match self.file {
            Some(bytes) => bytes,
            None => Seq::empty(),
        }
    }

    /// The patience that is left after `k` more chunks.
    pub open spec fn patience_after(self, k: nat) -> Option<nat> {
        match self.patience {
            Some(p) => Some((p - k) as nat),
            None => None,
        }
    }
}

/// What the driver hands back when it has done what `action` asks for, with
/// the signal as it finds it, and the world as it leaves it; `None` where the
/// action ends the download, or cannot be done without a failure.
pub open spec fn performed(action: ActionView, w: World) -> Option<(Event, bool, World)> {
    match action {
        ActionView::Inspect => Some(
            (
                match w.file {
                    Some(bytes) => Event::Existing(bytes.len() as u64),
                    None => Event::Absent,
                },
                false,
                w,
            ),
        ),
        ActionView::Send { range } => {
            let reply = if range is Some {
                w.ranged
            } else {
                w.plain
            };
            Some(
                (
                    Event::Responded(reply.declared),
                    false,
                    World { body: reply.chunks, sent: w.sent + 1, ..w },
                ),
            )
        },
        ActionView::Create => Some((Event::Opened, false, World { file: Some(Seq::empty()), ..w })),
        ActionView::Append => if w.file is Some {
            Some((Event::Opened, false, w))
        } else {
            None
        },
        ActionView::Pull { report } => if w.body.len() == 0 {
            Some((Event::StreamEnded, false, World { pulled: w.pulled + 1, ..w }))
        } else {
            Some(
                (
                    Event::Chunk(w.body[0].len() as u64),
                    w.patience == Some(0nat),
                    World { pulled: w.pulled + 1, ..w },
                ),
            )
        },
        ActionView::Write => if w.file is Some && w.body.len() > 0 {
            Some(
                (
                    Event::Written,
                    false,
                    World {
                        file: Some(w.content() + w.body[0]),
                        body: w.body.skip(1),
                        patience: w.patience_after(1),
                        written: w.written + 1,
                        ..w
                    },
                ),
            )
        } else {
            None
        },
        ActionView::Done { report } => None,
        ActionView::Fail(e) => None,
    }
}

/// Where a run stands: the transfer, the action that it asks for, and the
/// world.
pub struct Run {
    pub state: State,
    pub action: ActionView,
    pub world: World,
}

/// The run after up to `fuel` actions were performed and taken in. It stops
/// before that where the action ends the download, cannot be done, or is
/// answered by an event that the transfer does not wait for.
pub open spec fn run(name: Seq<char>, state: State, action: ActionView, world: World, fuel: nat) -> Run
    decreases fuel,
{
    if fuel == 0 {
        Run { state, action, world }
    } else {
        match performed(action, world) {
            Some((event, cancelled, after)) => match transition(name, state, event, cancelled) {
                Some((next, asked)) => run(name, next, asked, after, (fuel - 1) as nat),
                None => Run { state, action, world },
            },
            None => Run { state, action, world },
        }
    }
}

/// As many actions as any download in `world` takes.
pub open spec fn enough(world: World) -> nat {
    2 * (world.plain.chunks.len() + world.ranged.chunks.len()) + 5
}

/// Where a download in `world` ends, its progress reported under `name`.
pub open spec fn outcome(name: Seq<char>, world: World) -> Run {
    run(name, initial(), ActionView::Inspect, world, enough(world))
}

/// How many of `chunks` are written before the download stops: all of them,
/// or as many as there is patience for.
pub open spec fn taken(patience: Option<nat>, chunks: Seq<Seq<u8>>) -> nat {
    match patience {
        Some(p) => if p < chunks.len() {
            p
        } else {
            chunks.len()
        },
        None => chunks.len(),
    }
}

/// Where the streaming of the open response ends, from a transfer in `state`
/// and a world `world` in which the output file is open: the chunks taken are
/// behind what the file held, in their order, and are counted; the rest of
/// the body is untouched.
pub open spec fn streamed(state: State, world: World) -> Run {
    let k = taken(world.patience, world.body);
    let bytes = world.body.take(k as int).flatten();
    Run {
        state: State {
            phase: Phase::Finished,
            downloaded_bytes: (state.downloaded_bytes + bytes.len()) as u64,
            total_bytes: state.total_bytes,
        },
        action: ActionView::Done { report: "\n"@ },
        world: World {
            file: Some(world.content() + bytes),
            body: world.body.skip(k as int),
            patience: world.patience_after(k),
            pulled: world.pulled + k + 1,
            written: world.written + k,
            ..world
        },
    }
}

/// Streaming ends as [`streamed`] says, whatever the chunks are.
pub proof fn lemma_streamed(
    name: Seq<char>,
    state: State,
    report: Seq<char>,
    world: World,
    fuel: nat,
)
    requires
        state.phase == Phase::Streaming,
        world.file is Some,
        state.downloaded_bytes + world.body.flatten().len() <= u64::MAX,
        fuel >= 2 * world.body.len() + 1,
    ensures
        run(name, state, ActionView::Pull { report }, world, fuel) == streamed(state, world),
    decreases world.body.len(),
{
    let body = world.body;
    let k = taken(world.patience, body) as int;
    let pulled = World { pulled: world.pulled + 1, ..world };
    let done = ActionView::Done { report: "\n"@ };
    if body.len() == 0 || world.patience == Some(0nat) {
        assert(k == 0);
        assert(body.take(0) =~= Seq::<Seq<u8>>::empty());
        assert(body.skip(0) =~= body);
        assert(world.content() + body.take(0).flatten() =~= world.content());
        assert(run(name, finished(state), done, pulled, (fuel - 1) as nat) == Run {
            state: finished(state),
            action: done,
            world: pulled,
        });
        assert(streamed(state, world).world == pulled);
    } else {
        let first = body[0];
        let rest = body.skip(1);
        assert(body.drop_first() =~= rest);
        assert(body.flatten() == first + rest.flatten());
        let writing = State { phase: Phase::Writing { len: first.len() as u64 }, ..state };
        let wrote = World {
            file: Some(world.content() + first),
            body: rest,
            patience: world.patience_after(1),
            written: world.written + 1,
            ..pulled
        };
        let counted = State {
            phase: Phase::Streaming,
            downloaded_bytes: (state.downloaded_bytes + first.len()) as u64,
            ..state
        };
        let next_report = crate::progress::progress_text(
            name,
            counted.downloaded_bytes,
            state.total_bytes,
        );
        assert(run(name, state, ActionView::Pull { report }, world, fuel) == run(
            name,
            writing,
            ActionView::Write,
            pulled,
            (fuel - 1) as nat,
        ));
        assert(run(name, writing, ActionView::Write, pulled, (fuel - 1) as nat) == run(
            name,
            counted,
            ActionView::Pull { report: next_report },
            wrote,
            (fuel - 2) as nat,
        ));
        lemma_streamed(name, counted, next_report, wrote, (fuel - 2) as nat);
        let k2 = taken(wrote.patience, rest) as int;
        assert(k2 == k - 1);
        assert(body.take(k).drop_first() =~= rest.take(k2));
        assert(body.take(k).first() == first);
        assert(body.take(k).flatten() == first + rest.take(k2).flatten());
        assert(rest.skip(k2) =~= body.skip(k));
        assert(wrote.content() + rest.take(k2).flatten() =~= world.content() + body.take(
            k,
        ).flatten());
        assert(streamed(counted, wrote).world == streamed(state, world).world);
    }
}

/// The transfer and the world at the moment when a fresh download has
/// created its file and begins to stream.
pub open spec fn fresh_start(world: World) -> (State, World) {
    (
        State { phase: Phase::Streaming, downloaded_bytes: 0, total_bytes: world.plain.declared },
        World {
            file: Some(Seq::empty()),
            body: world.plain.chunks,
            sent: world.sent + 1,
            ..world
        },
    )
}

/// The transfer and the world at the moment when a resumed download has
/// opened its file and begins to stream.
pub open spec fn resumed_start(world: World) -> (State, World) {
    (
        State {
            phase: Phase::Streaming,
            downloaded_bytes: world.content().len() as u64,
            total_bytes: (world.content().len() + world.ranged.declared) as u64,
        },
        World { body: world.ranged.chunks, sent: world.sent + 1, ..world },
    )
}

/// Where the output path does not exist, the download sends one plain
/// request, creates the file, and streams the body into it.
pub proof fn lemma_fresh_download(name: Seq<char>, world: World)
    requires
        world.file is None,
        world.plain.chunks.flatten().len() <= u64::MAX,
    ensures
        outcome(name, world) == streamed(fresh_start(world).0, fresh_start(world).1),
{
    let fuel = enough(world);
    let requesting = State { phase: Phase::Requesting, ..initial() };
    let plain = ActionView::Send { range: None };
    assert(outcome(name, world) == run(name, requesting, plain, world, (fuel - 1) as nat));
    lemma_plain_request(name, world, (fuel - 1) as nat);
}

/// From the plain request on, a download goes the same way whatever the
/// output path held and whatever response was open.
proof fn lemma_plain_request(name: Seq<char>, world: World, fuel: nat)
    requires
        world.plain.chunks.flatten().len() <= u64::MAX,
        fuel >= 2 * world.plain.chunks.len() + 3,
    ensures
        run(
            name,
            State { phase: Phase::Requesting, ..initial() },
            ActionView::Send { range: None },
            world,
            fuel,
        ) == streamed(fresh_start(world).0, fresh_start(world).1),
{
    let requesting = State { phase: Phase::Requesting, ..initial() };
    let plain = ActionView::Send { range: None };
    let opening = State {
        phase: Phase::Opening,
        downloaded_bytes: 0,
        total_bytes: world.plain.declared,
    };
    let answered = World { body: world.plain.chunks, sent: world.sent + 1, ..world };
    let start = fresh_start(world);
    let silent = ActionView::Pull { report: Seq::empty() };
    assert(run(name, requesting, plain, world, fuel) == run(
        name,
        opening,
        ActionView::Create,
        answered,
        (fuel - 1) as nat,
    ));
    assert(World { file: Some(Seq::<u8>::empty()), ..answered } == start.1);
    assert(run(name, opening, ActionView::Create, answered, (fuel - 1) as nat) == run(
        name,
        start.0,
        silent,
        start.1,
        (fuel - 2) as nat,
    ));
    lemma_streamed(name, start.0, Seq::empty(), start.1, (fuel - 2) as nat);
}

/// Where the output file is a proper beginning of the resource, the download
/// sends one range request, and streams its body to the end of the file.
pub proof fn lemma_resumed_download(name: Seq<char>, world: World)
    requires
        world.file is Some,
        world.content().len() > 0,
        world.ranged.declared > 0,
        world.content().len() + world.ranged.declared <= u64::MAX,
        world.content().len() + world.ranged.chunks.flatten().len() <= u64::MAX,
    ensures
        outcome(name, world) == streamed(resumed_start(world).0, resumed_start(world).1),
{
    let fuel = enough(world);
    let file_len = world.content().len() as u64;
    let probing = State { phase: Phase::Probing { file_len }, ..initial() };
    let ranged = ActionView::Send {
        range: Some(vstd::utf8::encode_utf8(crate::header::range_text(file_len))),
    };
    let start = resumed_start(world);
    let opening = State { phase: Phase::Opening, ..start.0 };
    let silent = ActionView::Pull { report: Seq::empty() };
    assert(outcome(name, world) == run(name, probing, ranged, world, (fuel - 1) as nat));
    assert(resumption(file_len, start.0.total_bytes) == Resumption::Resume);
    assert(run(name, probing, ranged, world, (fuel - 1) as nat) == run(
        name,
        opening,
        ActionView::Append,
        start.1,
        (fuel - 2) as nat,
    ));
    assert(run(name, opening, ActionView::Append, start.1, (fuel - 2) as nat) == run(
        name,
        start.0,
        silent,
        start.1,
        (fuel - 3) as nat,
    ));
    lemma_streamed(name, start.0, Seq::empty(), start.1, (fuel - 3) as nat);
}

/// A fresh download that is not cancelled leaves a file that holds the whole
/// body. Where the server sends as many bytes as it declared, the file is as
/// long as declared, and the counter has reached the total.
pub proof fn fresh_download_is_complete(name: Seq<char>, world: World)
    requires
        world.file is None,
        world.patience is None,
        world.plain.chunks.flatten().len() <= u64::MAX,
    ensures
        outcome(name, world).action == (ActionView::Done { report: "\n"@ }),
        outcome(name, world).world.file == Some(world.plain.chunks.flatten()),
        outcome(name, world).state.downloaded_bytes == world.plain.chunks.flatten().len(),
        outcome(name, world).state.total_bytes == world.plain.declared,
        outcome(name, world).world.sent == world.sent + 1,
        world.plain.chunks.flatten().len() == world.plain.declared ==> {
            &&& outcome(name, world).world.content().len() == world.plain.declared
            &&& outcome(name, world).state.downloaded_bytes == outcome(
                name,
                world,
            ).state.total_bytes
        },
{
    lemma_fresh_download(name, world);
    let chunks = world.plain.chunks;
    assert(chunks.take(chunks.len() as int) =~= chunks);
    assert(Seq::<u8>::empty() + chunks.flatten() =~= chunks.flatten());
}

/// A resumed download that is not cancelled leaves the bytes that the file
/// held, followed by the body of the range request, and nothing else.
pub proof fn resumed_download_appends(name: Seq<char>, world: World)
    requires
        world.file is Some,
        world.content().len() > 0,
        world.ranged.declared > 0,
        world.content().len() + world.ranged.declared <= u64::MAX,
        world.content().len() + world.ranged.chunks.flatten().len() <= u64::MAX,
        world.patience is None,
    ensures
        outcome(name, world).action == (ActionView::Done { report: "\n"@ }),
        outcome(name, world).world.file == Some(
            world.content() + world.ranged.chunks.flatten(),
        ),
        outcome(name, world).state.downloaded_bytes == world.content().len()
            + world.ranged.chunks.flatten().len(),
        outcome(name, world).state.total_bytes == world.content().len()
            + world.ranged.declared,
        outcome(name, world).world.sent == world.sent + 1,
{
    lemma_resumed_download(name, world);
    let chunks = world.ranged.chunks;
    assert(chunks.take(chunks.len() as int) =~= chunks);
}

/// A download to a file that already holds the whole resource ends well at
/// once: the file is as it was, no chunk was asked for, and none was written.
pub proof fn complete_file_is_left_alone(name: Seq<char>, world: World)
    requires
        world.file is Some,
        world.content().len() <= u64::MAX,
        world.ranged.declared == 0,
    ensures
        outcome(name, world).action == (ActionView::Done { report: Seq::empty() }),
        outcome(name, world).world.file == world.file,
        outcome(name, world).world.sent == world.sent + 1,
        outcome(name, world).world.pulled == world.pulled,
        outcome(name, world).world.written == world.written,
        outcome(name, world).state.phase == Phase::Finished,
{
    let fuel = enough(world);
    let file_len = world.content().len() as u64;
    let probing = State { phase: Phase::Probing { file_len }, ..initial() };
    let ranged = ActionView::Send {
        range: Some(vstd::utf8::encode_utf8(crate::header::range_text(file_len))),
    };
    let answered = World { body: world.ranged.chunks, sent: world.sent + 1, ..world };
    let over = State { phase: Phase::Finished, downloaded_bytes: file_len, total_bytes: file_len };
    let done = ActionView::Done { report: Seq::empty() };
    assert(outcome(name, world) == run(name, probing, ranged, world, (fuel - 1) as nat));
    assert(run(name, probing, ranged, world, (fuel - 1) as nat) == run(
        name,
        over,
        done,
        answered,
        (fuel - 2) as nat,
    ));
    assert(run(name, over, done, answered, (fuel - 2) as nat) == Run {
        state: over,
        action: done,
        world: answered,
    });
}

/// A download to a file that does not fit the resource, because it is empty
/// or longer than the total, discards the file: it ends as the download to a
/// path that does not exist ends, but for one request more, the one that
/// found the file unfit.
pub proof fn unfit_file_is_replaced(name: Seq<char>, world: World)
    requires
        world.file is Some,
        world.content().len() <= u64::MAX,
        resumption(
            world.content().len() as u64,
            wrapped_sum(world.content().len() as u64, world.ranged.declared),
        ) == Resumption::Restart,
        world.plain.chunks.flatten().len() <= u64::MAX,
    ensures
        outcome(name, world) == outcome(name, World { file: None, sent: world.sent + 1, ..world }),
        outcome(name, world).world.sent == world.sent + 2,
{
    let fuel = enough(world);
    let file_len = world.content().len() as u64;
    let absent = World { file: None, sent: world.sent + 1, ..world };
    let probing = State { phase: Phase::Probing { file_len }, ..initial() };
    let ranged = ActionView::Send {
        range: Some(vstd::utf8::encode_utf8(crate::header::range_text(file_len))),
    };
    let requesting = State { phase: Phase::Requesting, ..initial() };
    let plain = ActionView::Send { range: None };
    let answered = World { body: world.ranged.chunks, sent: world.sent + 1, ..world };
    assert(outcome(name, world) == run(name, probing, ranged, world, (fuel - 1) as nat));
    assert(run(name, probing, ranged, world, (fuel - 1) as nat) == run(
        name,
        requesting,
        plain,
        answered,
        (fuel - 2) as nat,
    ));
    lemma_plain_request(name, answered, (fuel - 2) as nat);
    lemma_fresh_download(name, absent);
    assert(fresh_start(answered) == fresh_start(absent));
}

/// A download that finds the signal set when `written` chunks are in the
/// file ends well, and leaves those chunks and no byte of the next behind
/// what the file held.
pub proof fn cancelled_download_keeps_what_was_written(
    name: Seq<char>,
    world: World,
    written: nat,
)
    requires
        world.patience == Some(written),
        world.file is None ==> {
            &&& written <= world.plain.chunks.len()
            &&& world.plain.chunks.flatten().len() <= u64::MAX
        },
        world.file is Some ==> {
            &&& written <= world.ranged.chunks.len()
            &&& world.content().len() > 0
            &&& world.ranged.declared > 0
            &&& world.content().len() + world.ranged.declared <= u64::MAX
            &&& world.content().len() + world.ranged.chunks.flatten().len() <= u64::MAX
        },
    ensures
        outcome(name, world).action == (ActionView::Done { report: "\n"@ }),
        outcome(name, world).world.written == world.written + written,
        outcome(name, world).world.content() == world.content() + (if world.file is None {
            world.plain.chunks
        } else {
            world.ranged.chunks
        }).take(written as int).flatten(),
        outcome(name, world).state.downloaded_bytes == outcome(name, world).world.content().len(),
{
    if world.file is None {
        lemma_fresh_download(name, world);
        let chunks = world.plain.chunks;
        lemma_flatten_take(chunks, written as int);
        assert(Seq::<u8>::empty() + chunks.take(written as int).flatten() =~= chunks.take(
            written as int,
        ).flatten());
    } else {
        lemma_resumed_download(name, world);
        lemma_flatten_take(world.ranged.chunks, written as int);
    }
}

/// The first chunks of a body hold no more bytes than the body.
pub proof fn lemma_flatten_take(chunks: Seq<Seq<u8>>, k: int)
    requires
        0 <= k <= chunks.len(),
    ensures
        chunks.take(k).flatten().len() <= chunks.flatten().len(),
    decreases k,
{
    if k > 0 {
        lemma_flatten_take(chunks.drop_first(), k - 1);
        assert(chunks.take(k).drop_first() =~= chunks.drop_first().take(k - 1));
        assert(chunks.take(k).first() == chunks.first());
    }
}

/// Whether every chunk has a length of 64 bits.
pub open spec fn chunks_fit(chunks: Seq<Seq<u8>>) -> bool {
    forall|i: int| 0 <= i < chunks.len() ==> (#[trigger] chunks[i]).len() <= u64::MAX
}

/// What ties a transfer to the world at every moment of a download: the
/// action asked for is the one that the transfer waits on, and from the
/// moment the output file is opened the counter says how many bytes the file
/// holds.
pub open spec fn in_step(state: State, action: ActionView, world: World) -> bool {
    &&& state.wf()
    &&& chunks_fit(world.plain.chunks)
    &&& chunks_fit(world.ranged.chunks)
    &&& world.content().len() <= u64::MAX
    &&& match state.phase {
        Phase::Inspecting => action == ActionView::Inspect,
        Phase::Probing { file_len } => {
            &&& action is Send
            &&& action->Send_range is Some
            &&& world.file is Some
            &&& file_len == world.content().len()
        },
        Phase::Requesting => action == (ActionView::Send { range: None }),
        Phase::Opening => {
            &&& chunks_fit(world.body)
            &&& (action == ActionView::Create && state.downloaded_bytes == 0) || (action
                == ActionView::Append && world.file is Some && state.downloaded_bytes
                == world.content().len())
        },
        Phase::Streaming => {
            &&& action is Pull
            &&& world.file is Some
            &&& chunks_fit(world.body)
            &&& state.downloaded_bytes == world.content().len()
        },
        Phase::Writing { len } => {
            &&& action == ActionView::Write
            &&& world.file is Some
            &&& chunks_fit(world.body)
            &&& world.body.len() > 0
            &&& len == world.body[0].len()
            &&& state.downloaded_bytes == world.content().len()
        },
        Phase::Finished => {
            &&& action is Done
            &&& state.downloaded_bytes == world.content().len()
        },
    }
}

/// One action performed and taken in leaves a run in step, and brings it
/// nearer to its end.
proof fn lemma_step_in_step(
    name: Seq<char>,
    state: State,
    action: ActionView,
    world: World,
)
    requires
        in_step(state, action, world),
        performed(action, world) is Some,
        transition(
            name,
            state,
            performed(action, world)->Some_0.0,
            performed(action, world)->Some_0.1,
        ) is Some,
    ensures
        ({
            let (event, cancelled, after) = performed(action, world)->Some_0;
            let (next, asked) = transition(name, state, event, cancelled)->Some_0;
            &&& in_step(next, asked, after)
            &&& actions_left(next, after) < actions_left(state, world)
        }),
{
    let (event, cancelled, after) = performed(action, world)->Some_0;
    if state.phase is Writing {
        assert(after.body =~= world.body.skip(1));
        assert(forall|i: int| 0 <= i < after.body.len() ==> after.body[i] == world.body[i + 1]);
    }
}

/// A run that is in step stays in step.
proof fn lemma_stays_in_step(
    name: Seq<char>,
    state: State,
    action: ActionView,
    world: World,
    fuel: nat,
)
    requires
        in_step(state, action, world),
    ensures
        ({
            let end = run(name, state, action, world, fuel);
            in_step(end.state, end.action, end.world)
        }),
    decreases fuel,
{
    if fuel > 0 {
        match performed(action, world) {
            Some((event, cancelled, after)) => match transition(name, state, event, cancelled) {
                Some((next, asked)) => {
                    lemma_step_in_step(name, state, action, world);
                    lemma_stays_in_step(name, next, asked, after, (fuel - 1) as nat);
                },
                None => {},
            },
            None => {},
        }
    }
}

/// However far a download has come, the transfer and the world are in step:
/// from the moment the output file is opened, the counter of downloaded bytes
/// is the length of the file.
pub proof fn counter_matches_file(name: Seq<char>, world: World, fuel: nat)
    requires
        world.content().len() <= u64::MAX,
        chunks_fit(world.plain.chunks),
        chunks_fit(world.ranged.chunks),
    ensures
        ({
            let now = run(name, initial(), ActionView::Inspect, world, fuel);
            in_step(now.state, now.action, now.world)
        }),
{
    lemma_stays_in_step(name, initial(), ActionView::Inspect, world, fuel);
}

/// No more actions than this are left to a transfer in `state`.
pub open spec fn actions_left(state: State, world: World) -> nat {
    match state.phase {
        Phase::Inspecting => enough(world),
        Phase::Probing { .. } => (enough(world) - 1) as nat,
        Phase::Requesting => 2 * world.plain.chunks.len() + 3,
        Phase::Opening => 2 * world.body.len() + 2,
        Phase::Streaming => 2 * world.body.len() + 1,
        Phase::Writing { .. } => 2 * world.body.len(),
        Phase::Finished => 0,
    }
}

/// Whether a run has come to rest: its action ends the download or cannot be
/// done, or its transfer does not wait for what comes of it.
pub open spec fn at_rest(name: Seq<char>, now: Run) -> bool {
    match performed(now.action, now.world) {
        Some((event, cancelled, after)) => transition(name, now.state, event, cancelled) is None,
        None => true,
    }
}

/// A run in step comes to rest within the actions that are left to it, and
/// stays there.
proof fn lemma_comes_to_rest(
    name: Seq<char>,
    state: State,
    action: ActionView,
    world: World,
    fuel: nat,
    more: nat,
)
    requires
        in_step(state, action, world),
        fuel >= actions_left(state, world),
        more >= fuel,
    ensures
        at_rest(name, run(name, state, action, world, fuel)),
        run(name, state, action, world, more) == run(name, state, action, world, fuel),
    decreases fuel,
{
    match performed(action, world) {
        Some((event, cancelled, after)) => match transition(name, state, event, cancelled) {
            Some((next, asked)) => {
                lemma_step_in_step(name, state, action, world);
                lemma_comes_to_rest(
                    name,
                    next,
                    asked,
                    after,
                    (fuel - 1) as nat,
                    (more - 1) as nat,
                );
            },
            None => {},
        },
        None => {},
    }
}

/// Every download comes to rest, within [`enough`] actions: where
/// [`outcome`] stands, nothing more happens, however long the driver goes on.
pub proof fn download_comes_to_rest(name: Seq<char>, world: World, fuel: nat)
    requires
        world.content().len() <= u64::MAX,
        chunks_fit(world.plain.chunks),
        chunks_fit(world.ranged.chunks),
        fuel >= enough(world),
    ensures
        at_rest(name, outcome(name, world)),
        run(name, initial(), ActionView::Inspect, world, fuel) == outcome(name, world),
{
    lemma_comes_to_rest(name, initial(), ActionView::Inspect, world, enough(world), fuel);
}

/// Whether the server sends no more than it declares: the body of the plain
/// response is no longer than its declared length, and the body of the range
/// response, with the file before it, no longer than the total.
pub open spec fn declarations_hold(world: World) -> bool {
    &&& world.plain.chunks.flatten().len() <= world.plain.declared
    &&& world.content().len() + world.ranged.declared <= u64::MAX
    &&& world.ranged.chunks.flatten().len() <= world.ranged.declared
}

/// Whether what is downloaded, and what is still to come of the open
/// response, is within the total.
pub open spec fn within_total(state: State, world: World) -> bool {
    match state.phase {
        Phase::Opening | Phase::Streaming | Phase::Writing { .. } => state.downloaded_bytes
            + world.body.flatten().len() <= state.total_bytes,
        _ => state.downloaded_bytes <= state.total_bytes,
    }
}

/// A run that is within its total stays within it.
proof fn lemma_stays_within_total(
    name: Seq<char>,
    state: State,
    action: ActionView,
    world: World,
    fuel: nat,
)
    requires
        in_step(state, action, world),
        within_total(state, world),
        world.plain.chunks.flatten().len() <= world.plain.declared,
        world.ranged.chunks.flatten().len() <= world.ranged.declared,
        state.phase is Inspecting || state.phase is Probing ==> world.content().len()
            + world.ranged.declared <= u64::MAX,
    ensures
        ({
            let end = run(name, state, action, world, fuel);
            within_total(end.state, end.world)
        }),
    decreases fuel,
{
    if fuel > 0 {
        match performed(action, world) {
            Some((event, cancelled, after)) => match transition(name, state, event, cancelled) {
                Some((next, asked)) => {
                    lemma_step_in_step(name, state, action, world);
                    if state.phase is Writing {
                        assert(world.body.drop_first() =~= after.body);
                    }
                    lemma_stays_within_total(name, next, asked, after, (fuel - 1) as nat);
                },
                None => {},
            },
            None => {},
        }
    }
}

/// Where the server sends no more than it declares, the counter of
/// downloaded bytes never exceeds the total, however far the download has
/// come.
pub proof fn counter_stays_within_total(name: Seq<char>, world: World, fuel: nat)
    requires
        chunks_fit(world.plain.chunks),
        chunks_fit(world.ranged.chunks),
        declarations_hold(world),
    ensures
        run(name, initial(), ActionView::Inspect, world, fuel).state.downloaded_bytes <= run(
            name,
            initial(),
            ActionView::Inspect,
            world,
            fuel,
        ).state.total_bytes,
{
    lemma_stays_within_total(name, initial(), ActionView::Inspect, world, fuel);
}

} // verus!
