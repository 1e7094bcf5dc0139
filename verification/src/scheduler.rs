//! The chunk scheduler: which chunk a free worker renders next, and when the
//! render is over.
//!
//! The scheduler owns no thread. Whoever drives the workers tells it of every
//! free slot and every finished chunk, and does what it answers.

use vstd::prelude::*;
use crate::chunk::CHUNK_SIZE;

verus! {

/// How far the work on one chunk has come.
#[derive(Clone, Copy, Debug, PartialEq, Eq, Structural)]
pub enum ChunkState {
    Unrendered,
    InProgress,
    Done,
}

/// What a worker slot reports.
#[derive(Clone, Copy, Debug, PartialEq, Eq, Structural)]
pub enum Signal {
    /// A slot that has rendered nothing yet is free.
    SlotFree,
    /// The chunk with this index is finished, and its slot is free.
    ChunkDone(usize),
}

/// What the scheduler answers to a signal.
#[derive(Clone, Copy, Debug, PartialEq, Eq, Structural)]
pub enum Dispatch {
    /// Start a worker on the chunk with this index.
    Render(usize),
    /// Nothing is left to hand out, but some chunk is still being rendered.
    Wait,
    /// Every chunk is done.
    Finished,
}

/// The number of chunks that hold `num_pixels` pixels: the last one is
/// padded where the pixels do not fill it.
pub open spec fn chunks_needed(num_pixels: int) -> int {
    if num_pixels % (CHUNK_SIZE as int) == 0 {
        num_pixels / (CHUNK_SIZE as int)
    } else {
        num_pixels / (CHUNK_SIZE as int) + 1
    }
}

/// The index of the first chunk at or after `from` that is unrendered, or the
/// number of chunks where there is none.
pub open spec fn first_unrendered_from(states: Seq<ChunkState>, from: int) -> int
    decreases states.len() - from,
{
    if from < 0 || from >= states.len() {
        states.len() as int
    } else if states[from] is Unrendered {
        from
    } else {
        first_unrendered_from(states, from + 1)
    }
}

/// The index of the first unrendered chunk, or the number of chunks where
/// there is none.
pub open spec fn first_unrendered(states: Seq<ChunkState>) -> int {
    first_unrendered_from(states, 0)
}

/// The states of `n` chunks before a render: all unrendered.
pub open spec fn fresh(n: nat) -> Seq<ChunkState> {
    Seq::new(n, |i: int| ChunkState::Unrendered)
}

/// Whether a worker is still busy with some chunk.
pub open spec fn some_in_progress(states: Seq<ChunkState>) -> bool {
    exists|i: int| 0 <= i < states.len() && states[i] is InProgress
}

/// The chunk states once a signal has been taken note of.
pub open spec fn marked(states: Seq<ChunkState>, signal: Signal) -> Seq<ChunkState> {
    match signal {
        Signal::SlotFree => states,
        Signal::ChunkDone(i) => if i < states.len() {
            states.update(i as int, ChunkState::Done)
        } else {
            states
        },
    }
}

/// One step of the scheduler: the signal is taken note of; the first
/// unrendered chunk, if there is one, goes to the free slot and is in
/// progress from then on; with none left the scheduler waits while any chunk
/// is in progress, and is finished when none is.
pub open spec fn advance(states: Seq<ChunkState>, signal: Signal) -> (Seq<ChunkState>, Dispatch) {
    let noted = marked(states, signal);
    let k = first_unrendered(noted);
    if k < noted.len() {
        (noted.update(k, ChunkState::InProgress), Dispatch::Render(k as usize))
    } else if some_in_progress(noted) {
        (noted, Dispatch::Wait)
    } else {
        (noted, Dispatch::Finished)
    }
}

/// The number of finished chunks among the first `n`.
pub open spec fn done_among(states: Seq<ChunkState>, n: int) -> int
    decreases n,
{
    if n <= 0 {
        0
    } else {
        done_among(states, n - 1) + if states[n - 1] is Done {
            1int
        } else {
            0int
        }
    }
}

/// What `first_unrendered_from` finds: nothing unrendered lies between
/// `from` and the result, and the result is unrendered where it is a chunk.
pub proof fn lemma_first_unrendered_from(states: Seq<ChunkState>, from: int)
    requires
        0 <= from <= states.len(),
    ensures
        from <= first_unrendered_from(states, from) <= states.len(),
        forall|j: int| from <= j < first_unrendered_from(states, from) ==> !(#[trigger] states[j] is Unrendered),
        first_unrendered_from(states, from) < states.len() ==> states[first_unrendered_from(states, from)] is Unrendered,
    decreases states.len() - from,
{
    if from < states.len() && !(states[from] is Unrendered) {
        lemma_first_unrendered_from(states, from + 1);
    }
}

/// Computes the number of chunks for an image of `num_pixels` pixels.
pub fn chunk_count(num_pixels: usize) -> (count: usize)
    ensures
        count == chunks_needed(num_pixels as int),
        count * CHUNK_SIZE >= num_pixels,
{
    let whole: usize = num_pixels / CHUNK_SIZE;
    if num_pixels % CHUNK_SIZE == 0 {
        whole
    } else {
        whole + 1
    }
}

/// The state of every chunk of one render.
pub struct Scheduler {
    states: Vec<ChunkState>,
}

impl View for Scheduler {
    type V = Seq<ChunkState>;

    closed spec fn view(&self) -> Seq<ChunkState> {
        self.states@
    }
}

impl Scheduler {
    /// A scheduler for an image of `num_pixels` pixels, with every chunk
    /// unrendered.
    pub fn new(num_pixels: usize) -> (scheduler: Scheduler)
        ensures
            scheduler@ == fresh(chunks_needed(num_pixels as int) as nat),
    {
        let count: usize = chunk_count(num_pixels);
        let mut states: Vec<ChunkState> = Vec::new();
        let mut i: usize = 0;
        while i < count
            invariant
                i <= count,
                states@ == Seq::new(i as nat, |i: int| ChunkState::Unrendered),
            decreases count - i,
        {
            states.push(ChunkState::Unrendered);
            i += 1;
            assert(states@ =~= Seq::new(i as nat, |i: int| ChunkState::Unrendered));
        }
        Scheduler { states }
    }

    /// The number of chunks.
    pub fn chunk_total(&self) -> (total: usize)
        ensures
            total == self@.len(),
    {
        self.states.len()
    }

    /// The state of chunk `i`.
    pub fn state(&self, i: usize) -> (state: ChunkState)
        requires
            i < self@.len(),
        ensures
            state == self@[i as int],
    {
        self.states[i]
    }

    /// The progress of the render: the number of finished chunks, and the
    /// number of chunks.
    pub fn progress(&self) -> (progress: (usize, usize))
        ensures
            progress.0 == done_among(self@, self@.len() as int),
            progress.1 == self@.len(),
    {
        let mut done: usize = 0;
        let mut i: usize = 0;
        while i < self.states.len()
            invariant
                i <= self.states@.len(),
                done == done_among(self.states@, i as int),
                done <= i,
            decreases self.states@.len() - i,
        {
            match self.states[i] {
                ChunkState::Done => {
                    done += 1;
                },
                _ => {},
            }
            i += 1;
        }
        (done, self.states.len())
    }

    /// Takes a signal and says what to do next, as `advance` describes. A
    /// signal that names a chunk which there is not frees its slot and
    /// changes no chunk.
    pub fn on_signal(&mut self, signal: Signal) -> (dispatch: Dispatch)
        ensures
            (final(self)@, dispatch) == advance(old(self)@, signal),
    {
        match signal {
            Signal::ChunkDone(i) => {
                if i < self.states.len() {
                    self.states.set(i, ChunkState::Done);
                }
            },
            Signal::SlotFree => {},
        }
        let ghost noted = self.states@;
        assert(noted == marked(old(self)@, signal));
        let mut k: usize = 0;
        let mut busy: bool = false;
        while k < self.states.len()
            invariant
                self.states@ == noted,
                noted == marked(old(self)@, signal),
                k <= noted.len(),
                first_unrendered_from(noted, k as int) == first_unrendered(noted),
                busy == (exists|i: int| 0 <= i < k && noted[i] is InProgress),
            decreases noted.len() - k,
        {
            match self.states[k] {
                ChunkState::Unrendered => {
                    self.states.set(k, ChunkState::InProgress);
                    assert(first_unrendered_from(noted, k as int) == k);
                    assert(self.states@ == noted.update(k as int, ChunkState::InProgress));
                    return Dispatch::Render(k);
                },
                ChunkState::InProgress => {
                    busy = true;
                },
                ChunkState::Done => {},
            }
            k += 1;
        }
        if busy {
            Dispatch::Wait
        } else {
            Dispatch::Finished
        }
    }
}

/// A whole render as the scheduler sees it: the states it ends in after the
/// signals came in this order, and what it answered to each.
pub open spec fn run(states: Seq<ChunkState>, signals: Seq<Signal>) -> (Seq<ChunkState>, Seq<Dispatch>)
    decreases signals.len(),
{
    if signals.len() == 0 {
        (states, Seq::empty())
    } else {
        let before = run(states, signals.drop_last());
        let step = advance(before.0, signals.last());
        (step.0, before.1.push(step.1))
    }
}

/// Whether one of the first `b` answers handed out chunk `chunk`.
pub open spec fn rendered_before(answers: Seq<Dispatch>, chunk: usize, b: int) -> bool {
    exists|a: int| 0 <= a < b && a < answers.len() && #[trigger] answers[a] == Dispatch::Render(chunk)
}

/// Whether the workers report only what they were given: every chunk that a
/// signal calls done was handed out before that signal came.
pub open spec fn reports_follow_dispatch(states: Seq<ChunkState>, signals: Seq<Signal>) -> bool {
    forall|b: int|
        0 <= b < signals.len() && (#[trigger] signals[b]) is ChunkDone ==> rendered_before(
            run(states, signals).1,
            signals[b]->ChunkDone_0,
            b,
        )
}

/// One step never sets a chunk back to unrendered. A chunk that it hands out
/// was unrendered and is the first such. It says finished exactly when the
/// signal leaves every chunk done.
pub proof fn lemma_advance(states: Seq<ChunkState>, signal: Signal)
    requires
        states.len() <= usize::MAX,
    ensures
        advance(states, signal).0.len() == states.len(),
        forall|m: int|
            0 <= m < states.len() && !(states[m] is Unrendered) ==> !(#[trigger] advance(states, signal).0[m] is Unrendered),
        advance(states, signal).1 matches Dispatch::Render(k) ==> {
            &&& k < states.len()
            &&& states[k as int] is Unrendered
            &&& advance(states, signal).0[k as int] is InProgress
            &&& forall|m: int| 0 <= m <= k ==> !(#[trigger] advance(states, signal).0[m] is Unrendered)
            &&& forall|m: int|
                0 <= m < states.len() && m != k ==> #[trigger] advance(states, signal).0[m] == marked(states, signal)[m]
        },
        !(advance(states, signal).1 is Render) ==> advance(states, signal).0 == marked(states, signal),
        advance(states, signal).1 is Finished <==> forall|m: int|
            0 <= m < states.len() ==> #[trigger] marked(states, signal)[m] is Done,
{
    let noted = marked(states, signal);
    lemma_first_unrendered_from(noted, 0);
    let k = first_unrendered(noted);
    if k >= noted.len() && !some_in_progress(noted) {
        assert forall|m: int| 0 <= m < states.len() implies #[trigger] noted[m] is Done by {
            assert(!(noted[m] is Unrendered));
            assert(!(noted[m] is InProgress));
        }
    }
}

/// Chunks go out in the order of their indices, whatever the signals and
/// their order: of two answers that hand out a chunk, the later one hands
/// out the chunk with the greater index. So no chunk is rendered twice.
pub proof fn lemma_chunks_go_out_in_order(states: Seq<ChunkState>, signals: Seq<Signal>)
    requires
        states.len() <= usize::MAX,
    ensures
        run(states, signals).0.len() == states.len(),
        run(states, signals).1.len() == signals.len(),
        forall|a: int|
            0 <= a < signals.len() && (#[trigger] run(states, signals).1[a]) is Render ==> {
                &&& run(states, signals).1[a]->Render_0 < states.len()
                &&& forall|m: int|
                    0 <= m <= run(states, signals).1[a]->Render_0 ==> !(#[trigger] run(states, signals).0[m] is Unrendered)
            },
        forall|a: int, b: int|
            0 <= a < b < signals.len() && (#[trigger] run(states, signals).1[a]) is Render && (#[trigger] run(
                states,
                signals,
            ).1[b]) is Render ==> run(states, signals).1[a]->Render_0 < run(states, signals).1[b]->Render_0,
    decreases signals.len(),
{
    if signals.len() > 0 {
        let front = signals.drop_last();
        lemma_chunks_go_out_in_order(states, front);
        let before = run(states, front);
        let step = advance(before.0, signals.last());
        lemma_advance(before.0, signals.last());
        let end = run(states, signals);
        let last = signals.len() - 1;
        assert(end.1[last] == step.1);
        assert forall|a: int| 0 <= a < last implies end.1[a] == before.1[a] by {}
        assert forall|a: int| 0 <= a < signals.len() && (#[trigger] end.1[a]) is Render implies {
            &&& end.1[a]->Render_0 < states.len()
            &&& forall|m: int| 0 <= m <= end.1[a]->Render_0 ==> !(#[trigger] end.0[m] is Unrendered)
        } by {
            if a < last {
                assert(end.1[a] == before.1[a]);
                assert forall|m: int| 0 <= m <= end.1[a]->Render_0 implies !(#[trigger] end.0[m] is Unrendered) by {
                    assert(!(before.0[m] is Unrendered));
                }
            }
        }
        assert forall|a: int, b: int|
            0 <= a < b < signals.len() && (#[trigger] end.1[a]) is Render && (#[trigger] end.1[b]) is Render implies end.1[a]->Render_0
            < end.1[b]->Render_0 by {
            assert(end.1[a] == before.1[a]);
            if b < last {
                assert(end.1[b] == before.1[b]);
            } else {
                let i = before.1[a]->Render_0;
                let j = step.1->Render_0;
                if j <= i {
                    assert(!(before.0[j as int] is Unrendered));
                }
            }
        }
    }
}

/// Where the workers report only what they were given, every chunk that has
/// left the unrendered state was handed out by some answer.
pub proof fn lemma_started_chunks_were_dispatched(n: nat, signals: Seq<Signal>)
    requires
        n <= usize::MAX,
        reports_follow_dispatch(fresh(n), signals),
    ensures
        forall|i: int|
            0 <= i < n && !(#[trigger] run(fresh(n), signals).0[i] is Unrendered)
                ==> rendered_before(
                run(fresh(n), signals).1,
                i as usize,
                signals.len() as int,
            ),
    decreases signals.len(),
{
    let start = fresh(n);
    if signals.len() > 0 {
        let front = signals.drop_last();
        let before = run(start, front);
        let end = run(start, signals);
        let last = signals.len() - 1;
        let signal = signals.last();
        lemma_chunks_go_out_in_order(start, front);
        lemma_chunks_go_out_in_order(start, signals);
        assert forall|a: int| 0 <= a < last implies end.1[a] == before.1[a] by {}
        assert forall|b: int| 0 <= b < front.len() && (#[trigger] front[b]) is ChunkDone implies rendered_before(
            before.1,
            front[b]->ChunkDone_0,
            b,
        ) by {
            assert(front[b] == signals[b]);
            let i = signals[b]->ChunkDone_0;
            assert(rendered_before(end.1, i, b));
            let a = choose|a: int| 0 <= a < b && a < end.1.len() && #[trigger] end.1[a] == Dispatch::Render(i);
            assert(before.1[a] == Dispatch::Render(i));
        }
        lemma_started_chunks_were_dispatched(n, front);
        lemma_advance(before.0, signal);
        let step = advance(before.0, signal);
        assert(end.1[last] == step.1);
        assert forall|i: int| 0 <= i < n && !(#[trigger] end.0[i] is Unrendered) implies rendered_before(
            end.1,
            i as usize,
            signals.len() as int,
        ) by {
            if !(before.0[i] is Unrendered) {
                assert(rendered_before(before.1, i as usize, front.len() as int));
                let a = choose|a: int|
                    0 <= a < front.len() && a < before.1.len() && #[trigger] before.1[a] == Dispatch::Render(i as usize);
                assert(end.1[a] == Dispatch::Render(i as usize));
            } else if step.1 is Render && step.1->Render_0 == i {
                assert(end.1[last] == Dispatch::Render(i as usize));
            } else {
                assert(marked(before.0, signal)[i] is Done);
                assert(signal is ChunkDone && signal->ChunkDone_0 == i);
                assert(signals[last] == signal);
                assert(rendered_before(end.1, i as usize, last));
                let a = choose|a: int| 0 <= a < last && a < end.1.len() && #[trigger] end.1[a] == Dispatch::Render(i as usize);
                assert(end.1[a] == Dispatch::Render(i as usize));
            }
        }
    } else {
        assert forall|i: int| 0 <= i < n implies #[trigger] run(start, signals).0[i] is Unrendered by {}
    }
}

/// A render that starts with every chunk unrendered and ends with the
/// answer that it is finished has handed out every chunk, and each of them
/// once: whatever the number of workers, and in whatever order they finish.
pub proof fn lemma_finished_render_is_complete(n: nat, signals: Seq<Signal>)
    requires
        n <= usize::MAX,
        signals.len() > 0,
        reports_follow_dispatch(fresh(n), signals),
        run(fresh(n), signals).1.last() is Finished,
    ensures
        forall|i: int|
            0 <= i < n ==> #[trigger] rendered_before(
                run(fresh(n), signals).1,
                i as usize,
                signals.len() as int,
            ),
        forall|a: int, b: int|
            0 <= a < b < signals.len() && (#[trigger] run(fresh(n), signals).1[a])
                is Render ==> run(fresh(n), signals).1[a] != (#[trigger] run(fresh(n), signals).1[b]),
{
    let start = fresh(n);
    let end = run(start, signals);
    lemma_chunks_go_out_in_order(start, signals);
    lemma_chunks_go_out_in_order(start, signals.drop_last());
    lemma_started_chunks_were_dispatched(n, signals);
    lemma_advance(run(start, signals.drop_last()).0, signals.last());
    assert(end.1.last() == end.1[signals.len() - 1]);
    assert forall|i: int| 0 <= i < n implies #[trigger] rendered_before(end.1, i as usize, signals.len() as int) by {
        assert(end.0[i] is Done);
    }
}

} // verus!
