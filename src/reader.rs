//! The decisions of a session's output reader: what to publish for each thing
//! it observes, and when its work is over.
//!
//! The reader reads the pseudo-terminal until the stream ends or a read fails,
//! publishing one output event per non-empty chunk, then waits for the shell
//! to exit and publishes one exit event. The reading and waiting are done by
//! the caller, who feeds each result to [`OutputReader::step`] and carries out
//! the action it returns.
use vstd::prelude::*;

verus! {

/// The text that lossy UTF-8 decoding makes of `bytes`.
pub uninterp spec fn lossy_text(bytes: Seq<u8>) -> Seq<char>;

/// Relies on `String::from_utf8_lossy`: decodes `bytes` as UTF-8, putting the
/// replacement character in place of each invalid sequence; the result
/// depends on the bytes alone.
#[verifier::external_body]
fn decode_lossy(bytes: &[u8]) -> (r: String)
    ensures
        r@ == lossy_text(bytes@),
{
    String::from_utf8_lossy(bytes).into_owned()
}

/// Where a reader stands in its life.
#[derive(Debug, Clone, Copy, PartialEq, Eq, Structural)]
pub enum ReaderPhase {
    /// Output is still being read.
    Reading,
    /// The output stream is over; the shell's exit is awaited.
    AwaitingExit,
    /// The exit has been published; nothing more will be.
    Finished,
}

/// What the caller observed on the reader's behalf.
#[derive(Debug, Clone)]
pub enum ReaderEvent {
    /// A read returned these bytes; an empty chunk is the end of the stream.
    Chunk(Vec<u8>),
    /// A read failed.
    ReadFailed,
    /// The shell exited, with its exit code when one could be had.
    ChildExited(Option<u32>),
}

/// The mathematical content of a [`ReaderEvent`].
pub enum EventModel {
    Chunk(Seq<u8>),
    ReadFailed,
    ChildExited(Option<u32>),
}

/// An output event for the presentation layer.
#[derive(Debug, Clone)]
pub struct TerminalOutput {
    pub id: u32,
    pub data: String,
}

/// The exit event for the presentation layer.
#[derive(Debug, Clone, Copy, PartialEq, Eq, Structural)]
pub struct TerminalExit {
    pub id: u32,
    pub code: Option<u32>,
}

/// What the caller is to do next.
#[derive(Debug, Clone)]
pub enum ReaderAction {
    /// Publish this output event, then read again.
    Publish(TerminalOutput),
    /// Stop reading and wait for the shell to exit.
    AwaitChild,
    /// Publish this exit event; the reader is done.
    PublishExit(TerminalExit),
    /// The event does not fit the reader's phase and was dropped.
    Ignored,
}

/// The mathematical content of a [`ReaderAction`], leaving out the session id.
pub enum StepModel {
    Output(Seq<char>),
    AwaitChild,
    Exit(Option<u32>),
    Ignored,
}

impl ReaderEvent {
    pub open spec fn model(&self) -> EventModel {
        match self {
            ReaderEvent::Chunk(b) => EventModel::Chunk(b@),
            ReaderEvent::ReadFailed => EventModel::ReadFailed,
            ReaderEvent::ChildExited(c) => EventModel::ChildExited(*c),
        }
    }
}

impl ReaderAction {
    pub open spec fn model(&self) -> StepModel {
        match self {
            ReaderAction::Publish(o) => StepModel::Output(o.data@),
            ReaderAction::AwaitChild => StepModel::AwaitChild,
            ReaderAction::PublishExit(x) => StepModel::Exit(x.code),
            ReaderAction::Ignored => StepModel::Ignored,
        }
    }

    /// Every event the action publishes carries session `id`.
    pub open spec fn addressed_to(&self, id: u32) -> bool {
        match self {
            ReaderAction::Publish(o) => o.id == id,
            ReaderAction::PublishExit(x) => x.id == id,
            _ => true,
        }
    }
}

/// Whether `e` ends the output stream: an empty read or a failed one.
pub open spec fn ends_stream(e: EventModel) -> bool {
    ||| e matches EventModel::Chunk(b) && b.len() == 0
    ||| e is ReadFailed
}

/// The reader's next phase and its step on observing `e` in phase `p`.
pub open spec fn transition(p: ReaderPhase, e: EventModel) -> (ReaderPhase, StepModel) {
    match p {
        ReaderPhase::Reading => match e {
            EventModel::Chunk(b) => if b.len() > 0 {
                (ReaderPhase::Reading, StepModel::Output(lossy_text(b)))
            } else {
                (ReaderPhase::AwaitingExit, StepModel::AwaitChild)
            },
            EventModel::ReadFailed => (ReaderPhase::AwaitingExit, StepModel::AwaitChild),
            EventModel::ChildExited(_) => (ReaderPhase::Reading, StepModel::Ignored),
        },
        ReaderPhase::AwaitingExit => match e {
            EventModel::ChildExited(c) => (ReaderPhase::Finished, StepModel::Exit(c)),
            _ => (ReaderPhase::AwaitingExit, StepModel::Ignored),
        },
        ReaderPhase::Finished => (ReaderPhase::Finished, StepModel::Ignored),
    }
}

/// The reader of one session.
pub struct OutputReader {
    id: u32,
    phase: ReaderPhase,
}

impl OutputReader {
    pub closed spec fn session(&self) -> u32 {
        self.id
    }

    pub closed spec fn current(&self) -> ReaderPhase {
        self.phase
    }

    /// A reader for session `id`, about to read.
    pub fn new(id: u32) -> (r: Self)
        ensures
            r.session() == id,
            r.current() == ReaderPhase::Reading,
    {
        OutputReader { id, phase: ReaderPhase::Reading }
    }

    /// The session this reader serves.
    pub fn id(&self) -> (r: u32)
        ensures
            r == self.session(),
    {
        self.id
    }

    /// Where the reader stands.
    pub fn phase(&self) -> (r: ReaderPhase)
        ensures
            r == self.current(),
    {
        self.phase
    }

    /// Takes in one observation and says what to do about it.
    pub fn step(&mut self, event: ReaderEvent) -> (r: ReaderAction)
        ensures
            final(self).session() == old(self).session(),
            (final(self).current(), r.model()) == transition(old(self).current(), event.model()),
            r.addressed_to(old(self).session()),
    {
        match self.phase {
            ReaderPhase::Reading => match event {
                ReaderEvent::Chunk(bytes) => {
                    if bytes.len() > 0 {
                        let data = decode_lossy(bytes.as_slice());
                        ReaderAction::Publish(TerminalOutput { id: self.id, data })
                    } else {
                        self.phase = ReaderPhase::AwaitingExit;
                        ReaderAction::AwaitChild
                    }
                },
                ReaderEvent::ReadFailed => {
                    self.phase = ReaderPhase::AwaitingExit;
                    ReaderAction::AwaitChild
                },
                ReaderEvent::ChildExited(_) => ReaderAction::Ignored,
            },
            ReaderPhase::AwaitingExit => match event {
                ReaderEvent::ChildExited(code) => {
                    self.phase = ReaderPhase::Finished;
                    ReaderAction::PublishExit(TerminalExit { id: self.id, code })
                },
                _ => ReaderAction::Ignored,
            },
            ReaderPhase::Finished => ReaderAction::Ignored,
        }
    }
}

/// The steps a reader takes, starting in phase `p`, on the observations `evs`.
pub open spec fn run(p: ReaderPhase, evs: Seq<EventModel>) -> Seq<StepModel>
    decreases evs.len(),
{
    if evs.len() == 0 {
        Seq::empty()
    } else {
        let (q, s) = transition(p, evs[0]);
        seq![s] + run(q, evs.drop_first())
    }
}

/// The texts of the output steps among `steps`, in order.
pub open spec fn outputs(steps: Seq<StepModel>) -> Seq<Seq<char>>
    decreases steps.len(),
{
    if steps.len() == 0 {
        Seq::empty()
    } else {
        let rest = outputs(steps.drop_first());
        match steps[0] {
            StepModel::Output(t) => seq![t] + rest,
            _ => rest,
        }
    }
}

/// The non-empty chunks the process produced before its output stream ended,
/// in the order they were read.
pub open spec fn stream_chunks(evs: Seq<EventModel>) -> Seq<Seq<u8>>
    decreases evs.len(),
{
    if evs.len() == 0 {
        Seq::empty()
    } else {
        match evs[0] {
            EventModel::Chunk(b) => if b.len() > 0 {
                seq![b] + stream_chunks(evs.drop_first())
            } else {
                Seq::empty()
            },
            EventModel::ReadFailed => Seq::empty(),
            EventModel::ChildExited(_) => stream_chunks(evs.drop_first()),
        }
    }
}

/// A reader takes one step per observation.
proof fn lemma_run_len(p: ReaderPhase, evs: Seq<EventModel>)
    ensures
        run(p, evs).len() == evs.len(),
    decreases evs.len(),
{
    if evs.len() > 0 {
        let (q, s) = transition(p, evs[0]);
        lemma_run_len(q, evs.drop_first());
    }
}

/// Once the output stream is over, no output is published.
proof fn lemma_no_output_after_stream(p: ReaderPhase, evs: Seq<EventModel>)
    requires
        p != ReaderPhase::Reading,
    ensures
        outputs(run(p, evs)) == Seq::<Seq<char>>::empty(),
    decreases evs.len(),
{
    if evs.len() > 0 {
        let (q, s) = transition(p, evs[0]);
        lemma_no_output_after_stream(q, evs.drop_first());
        assert((seq![s] + run(q, evs.drop_first())).drop_first() =~= run(q, evs.drop_first()));
    }
}

/// Output is passed on whole and in order: the output events of a session
/// are, one for one, the lossy decodings of the non-empty chunks the process
/// produced until its stream ended.
pub proof fn lemma_outputs_follow_stream(evs: Seq<EventModel>)
    ensures
        outputs(run(ReaderPhase::Reading, evs)) == stream_chunks(evs).map_values(
            |b: Seq<u8>| lossy_text(b),
        ),
    decreases evs.len(),
{
    if evs.len() > 0 {
        let rest = evs.drop_first();
        let (q, s) = transition(ReaderPhase::Reading, evs[0]);
        assert((seq![s] + run(q, rest)).drop_first() =~= run(q, rest));
        if q == ReaderPhase::Reading {
            lemma_outputs_follow_stream(rest);
            match evs[0] {
                EventModel::Chunk(b) => {
                    assert((seq![b] + stream_chunks(rest)).map_values(|b: Seq<u8>| lossy_text(b))
                        =~= seq![lossy_text(b)] + stream_chunks(rest).map_values(
                        |b: Seq<u8>| lossy_text(b),
                    ));
                },
                _ => {},
            }
        } else {
            lemma_no_output_after_stream(q, rest);
            assert(stream_chunks(evs).map_values(|b: Seq<u8>| lossy_text(b))
                =~= Seq::<Seq<char>>::empty());
        }
    } else {
        assert(stream_chunks(evs).map_values(|b: Seq<u8>| lossy_text(b))
            =~= Seq::<Seq<char>>::empty());
    }
}

/// A finished reader does nothing more.
proof fn lemma_finished_is_quiet(evs: Seq<EventModel>)
    ensures
        forall|j: int|
            0 <= j < evs.len() ==> #[trigger] run(ReaderPhase::Finished, evs)[j]
                is Ignored,
    decreases evs.len(),
{
    if evs.len() > 0 {
        let rest = evs.drop_first();
        lemma_finished_is_quiet(rest);
        lemma_run_len(ReaderPhase::Finished, rest);
        let r = run(ReaderPhase::Finished, evs);
        assert forall|j: int| 0 <= j < evs.len() implies #[trigger] r[j] is Ignored by {
            if j > 0 {
                assert(r[j] == run(ReaderPhase::Finished, rest)[j - 1]);
            }
        }
    }
}

/// The exit is the reader's last word: in any phase and on any observations,
/// every step after an exit step is ignored. So at most one exit event is
/// published, and never before an output event.
pub proof fn lemma_exit_is_last(p: ReaderPhase, evs: Seq<EventModel>)
    ensures
        run(p, evs).len() == evs.len(),
        forall|i: int, j: int|
            0 <= i < j < evs.len() && #[trigger] run(p, evs)[i] is Exit ==> #[trigger] run(
                p,
                evs,
            )[j] is Ignored,
    decreases evs.len(),
{
    if evs.len() > 0 {
        let rest = evs.drop_first();
        let (q, s) = transition(p, evs[0]);
        lemma_exit_is_last(q, rest);
        lemma_finished_is_quiet(rest);
        lemma_run_len(q, rest);
        let r = run(p, evs);
        assert forall|i: int, j: int|
            0 <= i < j < evs.len() && #[trigger] r[i] is Exit implies #[trigger] r[j] is Ignored by {
            assert(r[j] == run(q, rest)[j - 1]);
            if i > 0 {
                assert(r[i] == run(q, rest)[i - 1]);
            }
        }
    }
}

/// Where the stream has ended (at `k`, or before the reader started when it
/// is already awaiting the exit) and the exit is observed later (at `m`), an
/// exit step is taken.
proof fn lemma_exit_reached(p: ReaderPhase, evs: Seq<EventModel>, k: int, m: int)
    requires
        0 <= m < evs.len(),
        evs[m] is ChildExited,
        p == ReaderPhase::AwaitingExit || (p == ReaderPhase::Reading && 0 <= k < m && ends_stream(
            evs[k],
        )),
    ensures
        exists|i: int| 0 <= i < evs.len() && #[trigger] run(p, evs)[i] is Exit,
    decreases evs.len(),
{
    let rest = evs.drop_first();
    let (q, s) = transition(p, evs[0]);
    let r = run(p, evs);
    if s is Exit {
        assert(r[0] is Exit);
    } else {
        assert(m > 0);
        lemma_exit_reached(q, rest, k - 1, m - 1);
        lemma_run_len(q, rest);
        let i = choose|i: int| 0 <= i < rest.len() && #[trigger] run(q, rest)[i] is Exit;
        assert(r[i + 1] == run(q, rest)[i]);
        assert(r[i + 1] is Exit);
    }
}

/// A session that runs until its process ends gets exactly one exit event:
/// when its output stream ends (at `k`) and the exit is then observed (at
/// `m`), exactly one step is an exit, and only ignored steps follow it.
pub proof fn lemma_exactly_one_exit(evs: Seq<EventModel>, k: int, m: int)
    requires
        0 <= k < m < evs.len(),
        ends_stream(evs[k]),
        evs[m] is ChildExited,
    ensures
        exists|i: int|
            {
                &&& 0 <= i < evs.len()
                &&& #[trigger] run(ReaderPhase::Reading, evs)[i] is Exit
                &&& forall|j: int|
                    0 <= j < evs.len() && j != i ==> !(#[trigger] run(ReaderPhase::Reading, evs)[j] is Exit)
                &&& forall|j: int|
                    i < j < evs.len() ==> #[trigger] run(ReaderPhase::Reading, evs)[j] is Ignored
            },
{
    let r = run(ReaderPhase::Reading, evs);
    lemma_run_len(ReaderPhase::Reading, evs);
    lemma_exit_reached(ReaderPhase::Reading, evs, k, m);
    lemma_exit_is_last(ReaderPhase::Reading, evs);
    let i = choose|i: int| 0 <= i < evs.len() && #[trigger] r[i] is Exit;
    assert forall|j: int| 0 <= j < evs.len() && j != i implies !(#[trigger] r[j] is Exit) by {
        if j < i {
            if r[j] is Exit {
                assert(r[i] is Ignored);
            }
        } else {
            assert(r[j] is Ignored);
        }
    }
}

} // verus!
