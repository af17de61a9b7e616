//! The per-file tail worker: a state machine that consumes read events
//! from its driver and decides what to emit, when to sleep, when to
//! reopen after a rotation and when to stop.
//!
//! The driver does the blocking work (reading lines, polling the file
//! size, sleeping); every decision is taken here, and the whole history
//! of a worker is tracked in ghost state: the lines it consumed and the
//! records it emitted, in order.

use vstd::prelude::*;
use crate::classify::{classify, classify_spec};
use crate::cursor::{FileCursor, tail_skip, tail_skip_spec};
use crate::filter::{FilterSpec, FilterView, accepts_spec};
use crate::record::{LogRecord, Rec};

verus! {

/// Phase of one file's worker.
#[derive(PartialEq, Eq, Structural, Clone, Copy, Debug)]
pub enum WorkerState {
    /// Consuming lines that tail-N positioning skips.
    Positioning,
    /// Consuming and emitting lines.
    Reading,
    /// No new data; sleeping until the next poll.
    Waiting,
    /// Terminal: the worker is done.
    Stopped,
}

/// Where a worker starts within its file.
pub enum StartMode {
    /// From the first byte.
    FromStart,
    /// Show only the last `n` existing lines, then continue.
    TailLines(u64),
    /// From the current end: only new appends are shown.
    FromEnd,
}

/// One observation handed to the worker by its driver.
pub enum TailEvent {
    /// A line was read, terminator included.
    Line(Vec<u8>),
    /// The read returned no bytes.
    NoData,
    /// The poll interval elapsed; the file now has this size.
    Poll(u64),
    /// The cancellation flag was observed set.
    Cancel,
}

/// Mathematical form of an event.
pub enum Ev {
    Line(Seq<u8>),
    NoData,
    Poll(u64),
    Cancel,
}

impl View for TailEvent {
    type V = Ev;

    open spec fn view(&self) -> Ev {
        match self {
            TailEvent::Line(l) => Ev::Line(l@),
            TailEvent::NoData => Ev::NoData,
            TailEvent::Poll(s) => Ev::Poll(*s),
            TailEvent::Cancel => Ev::Cancel,
        }
    }
}

/// What the driver must do after a step.
pub enum TailAction {
    /// Hand this record to the presentation sink.
    Emit(LogRecord),
    /// Keep reading; nothing to show for this event.
    Advance,
    /// Sleep for the poll interval, then poll the file size.
    Sleep,
    /// The file rotated: reopen it, emit a fresh file header, read on.
    Reopen,
    /// The worker is finished.
    Stop,
}

/// Mathematical form of an action.
pub enum Act {
    Emit(Rec),
    Advance,
    Sleep,
    Reopen,
    Stop,
}

impl View for TailAction {
    type V = Act;

    open spec fn view(&self) -> Act {
        match self {
            TailAction::Emit(r) => Act::Emit(r@),
            TailAction::Advance => Act::Advance,
            TailAction::Sleep => Act::Sleep,
            TailAction::Reopen => Act::Reopen,
            TailAction::Stop => Act::Stop,
        }
    }
}

/// Records emitted for one consumed line: its classification when that
/// passes the filters, nothing otherwise.
pub open spec fn emit_of(line: Seq<u8>, f: FilterView) -> Seq<Rec> {
    if accepts_spec(f, classify_spec(line)) {
        seq![classify_spec(line)]
    } else {
        Seq::empty()
    }
}

/// Records emitted, in order, for a sequence of consumed lines.
pub open spec fn emitted_spec(lines: Seq<Seq<u8>>, f: FilterView) -> Seq<Rec>
    decreases lines.len(),
{
    if lines.len() == 0 {
        Seq::empty()
    } else {
        emitted_spec(lines.drop_last(), f) + emit_of(lines.last(), f)
    }
}

/// The lines after the first `k`; none when fewer than `k` came.
pub open spec fn after_skip(lines: Seq<Seq<u8>>, k: nat) -> Seq<Seq<u8>> {
    if k <= lines.len() {
        lines.subrange(k as int, lines.len() as int)
    } else {
        Seq::empty()
    }
}

/// Consuming one more line only appends to the emitted records: what was
/// already emitted keeps its place and its order.
pub proof fn lemma_emitted_append(lines: Seq<Seq<u8>>, l: Seq<u8>, f: FilterView)
    ensures
        emitted_spec(lines.push(l), f) == emitted_spec(lines, f) + emit_of(l, f),
{
    assert(lines.push(l).drop_last() =~= lines);
    assert(lines.push(l).last() == l);
}

/// Ordering: the records of a prefix of the lines are a prefix of the
/// records of the whole, in the same order.
pub proof fn lemma_emitted_prefix(a: Seq<Seq<u8>>, b: Seq<Seq<u8>>, f: FilterView)
    requires
        a.len() <= b.len(),
        a == b.subrange(0, a.len() as int),
    ensures
        emitted_spec(a, f).is_prefix_of(emitted_spec(b, f)),
    decreases b.len() - a.len(),
{
    if a.len() == b.len() {
        assert(a =~= b);
        assert(emitted_spec(a, f).is_prefix_of(emitted_spec(a, f)));
    } else {
        let b0 = b.drop_last();
        assert(a == b0.subrange(0, a.len() as int));
        lemma_emitted_prefix(a, b0, f);
        assert(b0.push(b.last()) =~= b);
        lemma_emitted_append(b0, b.last(), f);
        assert(emitted_spec(b, f) == emitted_spec(b0, f) + emit_of(b.last(), f));
    }
}

/// Appending a line past the skip point appends its emissions; a line
/// still within the skip point changes nothing.
pub proof fn lemma_after_skip_push(c: Seq<Seq<u8>>, l: Seq<u8>, k: nat)
    ensures
        k <= c.len() ==> after_skip(c.push(l), k) == after_skip(c, k).push(l),
        k > c.len() ==> after_skip(c.push(l), k) == after_skip(c, k),
{
    if k <= c.len() {
        assert(after_skip(c.push(l), k) =~= after_skip(c, k).push(l));
    } else if k <= c.len() + 1 {
        assert(after_skip(c.push(l), k) =~= Seq::<Seq<u8>>::empty());
    }
}

/// One file's tail worker.
pub struct TailWorker {
    /// Current phase.
    pub state: WorkerState,
    /// Lines still to be consumed without emitting (tail-N positioning).
    pub skip: u64,
    /// Whether the worker keeps following the file once it is exhausted.
    pub follow: bool,
    /// Read position within the file.
    pub cursor: FileCursor,
    /// The filters applied to every structured record.
    pub filter: FilterSpec,
    /// Every line consumed since the current file incarnation began.
    pub consumed: Ghost<Seq<Seq<u8>>>,
    /// How many leading consumed lines positioning withholds.
    pub skipped: Ghost<nat>,
    /// Every record emitted, in order.
    pub emitted: Ghost<Seq<Rec>>,
}

impl TailWorker {
    /// The worker invariant: the cursor is consistent, positioning and
    /// the skip count agree, and the emitted records are exactly the
    /// classifications of the consumed lines after the skip point that
    /// pass the filters, in consumption order.
    pub open spec fn wf(&self) -> bool {
        &&& self.cursor.wf()
        &&& (self.state == WorkerState::Positioning <==> self.skip > 0)
        &&& (self.state == WorkerState::Positioning ==> self.skipped@ == self.skip
            + self.consumed@.len())
        &&& (self.state != WorkerState::Positioning ==> self.skipped@ <= self.consumed@.len())
        &&& self.emitted@ == emitted_spec(after_skip(self.consumed@, self.skipped@), self.filter@)
    }

    /// Start a worker on a file of size `file_size` holding
    /// `total_lines` lines, positioned according to `mode`.
    pub fn new(mode: StartMode, follow: bool, filter: FilterSpec, file_size: u64, total_lines: u64) -> (w: TailWorker)
        ensures
            w.wf(),
            w.follow == follow,
            w.filter == filter,
            w.consumed@ == Seq::<Seq<u8>>::empty(),
            w.emitted@ == Seq::<Rec>::empty(),
            w.cursor.last_size == file_size,
            match mode {
                StartMode::FromStart => w.cursor.offset == 0 && w.skip == 0 && w.state
                    == WorkerState::Reading,
                StartMode::TailLines(n) => w.cursor.offset == 0 && w.skip == tail_skip_spec(
                    total_lines as nat,
                    n as nat,
                ) && w.skipped@ == w.skip && w.state == (if w.skip > 0 {
                    WorkerState::Positioning
                } else {
                    WorkerState::Reading
                }),
                StartMode::FromEnd => w.cursor.offset == file_size && w.skip == 0 && w.state
                    == WorkerState::Reading,
            },
    {
        let (offset, skip): (u64, u64) = match mode {
            StartMode::FromStart => (0, 0),
            StartMode::TailLines(n) => (0, tail_skip(total_lines, n)),
            StartMode::FromEnd => (file_size, 0),
        };
        let state = if skip > 0 {
            WorkerState::Positioning
        } else {
            WorkerState::Reading
        };
        TailWorker {
            state,
            skip,
            follow,
            cursor: FileCursor::new_at(offset, file_size),
            filter,
            consumed: Ghost(Seq::empty()),
            skipped: Ghost(skip as nat),
            emitted: Ghost(Seq::empty()),
        }
    }

    /// Consume one event and decide what the driver does next.
    ///
    /// A line consumed while positioning is withheld; a line consumed
    /// while reading is classified, filtered and possibly emitted, and
    /// the offset advances past it. No data means sleep (follow mode) or
    /// stop. A poll that observed a shrunken file is a rotation: the
    /// cursor resets to offset zero of the reopened file and a fresh
    /// history begins. Cancellation stops the worker from any state.
    pub fn step(&mut self, event: TailEvent) -> (act: TailAction)
        requires
            old(self).wf(),
            event matches TailEvent::Line(l) ==> old(self).cursor.offset + l@.len()
                <= u64::MAX,
        ensures
            final(self).wf(),
            final(self).follow == old(self).follow,
            final(self).filter == old(self).filter,
            step_rel(*old(self), event@, *final(self), act@),
    {
        let ghost pre = *self;
        if matches!(self.state, WorkerState::Stopped) {
            return TailAction::Stop;
        }
        match event {
            TailEvent::Cancel => {
                if matches!(self.state, WorkerState::Positioning) {
                    self.skipped = Ghost(self.consumed@.len());
                    proof {
                        assert(after_skip(self.consumed@, self.skipped@)
                            =~= Seq::<Seq<u8>>::empty());
                        assert(after_skip(pre.consumed@, pre.skipped@)
                            =~= Seq::<Seq<u8>>::empty());
                    }
                }
                self.skip = 0;
                self.state = WorkerState::Stopped;
                TailAction::Stop
            },
            TailEvent::Line(l) => {
                self.cursor.advance(l.len());
                proof {
                    lemma_after_skip_push(pre.consumed@, l@, pre.skipped@);
                }
                if matches!(self.state, WorkerState::Positioning) {
                    self.consumed = Ghost(self.consumed@.push(l@));
                    self.skip = self.skip - 1;
                    if self.skip == 0 {
                        self.state = WorkerState::Reading;
                    }
                    proof {
                        assert(after_skip(self.consumed@, self.skipped@)
                            =~= after_skip(pre.consumed@, pre.skipped@));
                    }
                    TailAction::Advance
                } else {
                    self.state = WorkerState::Reading;
                    let rec = classify(l.as_slice());
                    let ok = self.filter.accepts(&rec);
                    proof {
                        lemma_emitted_append(
                            after_skip(pre.consumed@, pre.skipped@),
                            l@,
                            pre.filter@,
                        );
                    }
                    self.consumed = Ghost(self.consumed@.push(l@));
                    self.emitted = Ghost(self.emitted@ + emit_of(l@, self.filter@));
                    if ok {
                        TailAction::Emit(rec)
                    } else {
                        TailAction::Advance
                    }
                }
            },
            TailEvent::NoData => {
                if matches!(self.state, WorkerState::Positioning) {
                    self.skip = 0;
                    self.skipped = Ghost(self.consumed@.len());
                    proof {
                        assert(after_skip(self.consumed@, self.skipped@)
                            =~= Seq::<Seq<u8>>::empty());
                        assert(after_skip(pre.consumed@, pre.skipped@)
                            =~= Seq::<Seq<u8>>::empty());
                    }
                }
                if self.follow {
                    self.state = WorkerState::Waiting;
                    TailAction::Sleep
                } else {
                    self.state = WorkerState::Stopped;
                    TailAction::Stop
                }
            },
            TailEvent::Poll(size) => {
                if matches!(self.state, WorkerState::Positioning) {
                    self.skip = 0;
                    self.skipped = Ghost(self.consumed@.len());
                    proof {
                        assert(after_skip(self.consumed@, self.skipped@)
                            =~= Seq::<Seq<u8>>::empty());
                        assert(after_skip(pre.consumed@, pre.skipped@)
                            =~= Seq::<Seq<u8>>::empty());
                    }
                }
                if self.cursor.detect_rotation(size) {
                    self.cursor.reset_for_rotation(size);
                    self.state = WorkerState::Reading;
                    self.consumed = Ghost(Seq::empty());
                    self.skipped = Ghost(0nat);
                    self.emitted = Ghost(Seq::empty());
                    TailAction::Reopen
                } else {
                    self.cursor.observe_size(size);
                    self.state = WorkerState::Reading;
                    TailAction::Advance
                }
            },
        }
    }
}

/// How a worker not yet stopped reacts to a consumed line.
pub open spec fn line_rel(pre: TailWorker, l: Seq<u8>, post: TailWorker, act: Act) -> bool {
    let new_off = pre.cursor.offset + l.len();
    let new_last = if new_off > pre.cursor.last_size {
        new_off
    } else {
        pre.cursor.last_size as int
    };
    &&& post.cursor.offset == new_off
    &&& post.cursor.last_size == new_last
    &&& post.consumed@ == pre.consumed@.push(l)
    &&& if pre.state == WorkerState::Positioning {
        &&& post.state == (if pre.skip == 1 {
            WorkerState::Reading
        } else {
            WorkerState::Positioning
        })
        &&& post.skip == pre.skip - 1
        &&& post.skipped@ == pre.skipped@
        &&& post.emitted@ == pre.emitted@
        &&& act == Act::Advance
    } else {
        &&& post.state == WorkerState::Reading
        &&& post.skip == 0
        &&& post.skipped@ == pre.skipped@
        &&& post.emitted@ == pre.emitted@ + emit_of(l, pre.filter@)
        &&& act == (if accepts_spec(pre.filter@, classify_spec(l)) {
            Act::Emit(classify_spec(l))
        } else {
            Act::Advance
        })
    }
}

/// How a worker not yet stopped reacts to an empty read.
pub open spec fn nodata_rel(pre: TailWorker, post: TailWorker, act: Act) -> bool {
    &&& post.cursor == pre.cursor
    &&& post.consumed@ == pre.consumed@
    &&& post.emitted@ == pre.emitted@
    &&& post.skip == 0
    &&& post.skipped@ == (if pre.state == WorkerState::Positioning {
        pre.consumed@.len()
    } else {
        pre.skipped@
    })
    &&& if pre.follow {
        post.state == WorkerState::Waiting && act == Act::Sleep
    } else {
        post.state == WorkerState::Stopped && act == Act::Stop
    }
}

/// How a worker not yet stopped reacts to an elapsed poll that observed
/// the file at `size` bytes. A shrunken file is a rotation.
pub open spec fn poll_rel(pre: TailWorker, size: u64, post: TailWorker, act: Act) -> bool {
    &&& post.state == WorkerState::Reading
    &&& post.skip == 0
    &&& if size < pre.cursor.last_size {
        &&& post.cursor.offset == 0
        &&& post.cursor.last_size == size
        &&& post.consumed@ == Seq::<Seq<u8>>::empty()
        &&& post.skipped@ == 0
        &&& post.emitted@ == Seq::<Rec>::empty()
        &&& act == Act::Reopen
    } else {
        &&& post.cursor.offset == pre.cursor.offset
        &&& post.cursor.last_size == size
        &&& post.consumed@ == pre.consumed@
        &&& post.skipped@ == (if pre.state == WorkerState::Positioning {
            pre.consumed@.len()
        } else {
            pre.skipped@
        })
        &&& post.emitted@ == pre.emitted@
        &&& act == Act::Advance
    }
}

/// The full transition relation of `TailWorker::step`.
pub open spec fn step_rel(pre: TailWorker, e: Ev, post: TailWorker, act: Act) -> bool {
    &&& post.follow == pre.follow
    &&& post.filter == pre.filter
    &&& if pre.state == WorkerState::Stopped {
        &&& post == pre
        &&& act == Act::Stop
    } else {
        match e {
            Ev::Cancel => {
                &&& post.state == WorkerState::Stopped
                &&& post.skip == 0
                &&& post.cursor == pre.cursor
                &&& post.consumed@ == pre.consumed@
                &&& post.skipped@ == (if pre.state == WorkerState::Positioning {
                    pre.consumed@.len()
                } else {
                    pre.skipped@
                })
                &&& post.emitted@ == pre.emitted@
                &&& act == Act::Stop
            },
            Ev::Line(l) => line_rel(pre, l, post, act),
            Ev::NoData => nodata_rel(pre, post, act),
            Ev::Poll(size) => poll_rel(pre, size, post, act),
        }
    }
}

/// Rotation safety: when a poll observes the file smaller than last
/// seen, the worker resets to offset zero of the reopened file, asks the
/// driver to reopen and announce it, and starts a clean history, so
/// nothing from the old incarnation is re-emitted and nothing of the new
/// file is skipped.
pub proof fn lemma_rotation_resets(pre: TailWorker, size: u64, post: TailWorker, act: Act)
    requires
        pre.wf(),
        pre.state != WorkerState::Stopped,
        size < pre.cursor.last_size,
        step_rel(pre, Ev::Poll(size), post, act),
    ensures
        act == Act::Reopen,
        post.state == WorkerState::Reading,
        post.cursor.offset == 0,
        post.cursor.last_size == size,
        post.consumed@ == Seq::<Seq<u8>>::empty(),
        post.emitted@ == Seq::<Rec>::empty(),
{
}

/// With no active filter, every consumed line is emitted: record `i` is
/// the classification of line `i`.
pub proof fn lemma_inactive_emits_all(lines: Seq<Seq<u8>>, f: FilterView)
    requires
        f.level is None,
        f.process is None,
        f.pattern is None,
    ensures
        emitted_spec(lines, f).len() == lines.len(),
        forall|i: int|
            0 <= i < lines.len() ==> emitted_spec(lines, f)[i] == classify_spec(lines[i]),
    decreases lines.len(),
{
    if lines.len() > 0 {
        lemma_inactive_emits_all(lines.drop_last(), f);
        crate::filter::lemma_inactive_accepts_all(f, classify_spec(lines.last()));
    }
}

/// Tail-N correctness: skipping `max(L - N, 0)` lines of an `L`-line
/// file shows exactly the last `min(N, L)` lines; when `N <= L` the
/// first record shown is that of line `L - N + 1` (counting from one),
/// and when `N > L` every line is shown.
pub proof fn lemma_tail_n(lines: Seq<Seq<u8>>, n: nat, f: FilterView)
    requires
        f.level is None,
        f.process is None,
        f.pattern is None,
    ensures
        emitted_spec(after_skip(lines, tail_skip_spec(lines.len(), n)), f).len() == (if n
            <= lines.len() {
            n
        } else {
            lines.len()
        }),
        n <= lines.len() && n > 0 ==> emitted_spec(
            after_skip(lines, tail_skip_spec(lines.len(), n)),
            f,
        )[0] == classify_spec(lines[lines.len() - n]),
{
    let k = tail_skip_spec(lines.len(), n);
    let tail = after_skip(lines, k);
    lemma_inactive_emits_all(tail, f);
}

} // verus!
