use vstd::prelude::*;
use crate::symbol::Symbol;

verus! {

/// Largest number of chunks that may wait in the output sink when another
/// one is appended.
pub const SINK_PENDING_CAP: usize = 3;

/// Output sample rate, in samples per second.
pub const SAMPLE_RATE: u64 = 48000;

/// Length of the rising edge of a tone, in nanoseconds.
pub const FADE_IN_NS: u64 = 400_000;

/// Length of the falling edge of a tone, in nanoseconds.
pub const FADE_OUT_NS: u64 = 200_000;

/// A symbol ends a chunk when it is a word gap or the last symbol.
pub open spec fn is_flush_point(syms: Seq<Symbol>, i: int) -> bool {
    0 <= i < syms.len() && (syms[i] == Symbol::WordGap || i == syms.len() - 1)
}

/// The indices at which playback hands a chunk to the sink, in increasing
/// order: every word gap, and the last symbol.
pub fn flush_points(syms: &Vec<Symbol>) -> (r: Vec<usize>)
    ensures
        forall|c: int| 0 <= c < r@.len() ==> is_flush_point(syms@, #[trigger] r@[c] as int),
        forall|c: int, d: int| 0 <= c < d < r@.len() ==> r@[c] < r@[d],
        forall|i: int| is_flush_point(syms@, i) ==> r@.contains(i as usize),
{
    let mut r: Vec<usize> = Vec::new();
    let mut k: usize = 0;
    while k < syms.len()
        invariant
            k <= syms.len(),
            forall|c: int| 0 <= c < r@.len() ==> is_flush_point(syms@, #[trigger] r@[c] as int),
            forall|c: int| 0 <= c < r@.len() ==> #[trigger] r@[c] < k,
            forall|c: int, d: int| 0 <= c < d < r@.len() ==> r@[c] < r@[d],
            forall|i: int| 0 <= i < k && is_flush_point(syms@, i) ==> r@.contains(i as usize),
        decreases syms.len() - k,
    {
        if syms[k] == Symbol::WordGap || k + 1 == syms.len() {
            let ghost prev = r@;
            r.push(k);
            assert forall|i: int| 0 <= i < k + 1 && is_flush_point(syms@, i) implies r@.contains(
                i as usize,
            ) by {
                if i < k {
                    let c = choose|c: int| 0 <= c < prev.len() && prev[c] == i as usize;
                    assert(r@[c] == i as usize);
                } else {
                    assert(r@[r@.len() - 1] == i as usize);
                }
            }
        }
        k = k + 1;
    }
    r
}

/// The symbols `[first, last]` of chunk `c`: it starts after the previous
/// flush point and ends at its own.
pub fn chunk_range(points: &Vec<usize>, c: usize) -> (r: (usize, usize))
    requires
        c < points@.len(),
        c > 0 ==> points@[c - 1] < points@[c as int],
    ensures
        r.0 == (if c == 0 { 0 } else { points@[c - 1] + 1 }),
        r.1 == points@[c as int],
        r.0 <= r.1,
{
    if c == 0 {
        (0, points[0])
    } else {
        (points[c - 1] + 1, points[c])
    }
}

/// Number of samples that a pulse of `duration_ns` nanoseconds takes,
/// rounded down.
pub fn sample_count(duration_ns: u64) -> (r: u64)
    ensures
        r == duration_ns as int * SAMPLE_RATE as int / 1_000_000_000,
{
    let d = duration_ns as u128;
    assert(d * 48000 <= 0xffff_ffff_ffff_ffffu128 * 48000) by (nonlinear_arith)
        requires
            d <= 0xffff_ffff_ffff_ffffu128,
    ;
    ((d * 48000) / 1_000_000_000u128) as u64
}

/// The lengths, in samples, of the rising and falling edges of a tone of
/// `n` samples; an edge never exceeds the tone.
pub fn fade_lengths(n: u64) -> (r: (u64, u64))
    ensures
        r.0 == (if n < FADE_IN_NS as int * SAMPLE_RATE as int / 1_000_000_000 {
            n as int
        } else {
            FADE_IN_NS as int * SAMPLE_RATE as int / 1_000_000_000
        }),
        r.1 == (if n < FADE_OUT_NS as int * SAMPLE_RATE as int / 1_000_000_000 {
            n as int
        } else {
            FADE_OUT_NS as int * SAMPLE_RATE as int / 1_000_000_000
        }),
{
    let fade_in = sample_count(FADE_IN_NS);
    let fade_out = sample_count(FADE_OUT_NS);
    (if n < fade_in { n } else { fade_in }, if n < fade_out { n } else { fade_out })
}

/// Where playback of a session stands.
#[derive(Clone, Copy, Debug, PartialEq, Eq, Structural)]
pub enum PlaybackState {
    Idle,
    /// Chunks before `next_chunk` have been appended to the sink.
    Streaming { next_chunk: usize },
    /// Every chunk was appended; waiting for the sink to play them.
    Draining,
    Done,
    Cancelled,
}

/// What the worker does next.
#[derive(Clone, Copy, Debug, PartialEq, Eq, Structural)]
pub enum SchedulerAction {
    /// Render chunk `chunk` and append it to the sink.
    Append { chunk: usize },
    /// Sleep one poll interval, then observe the sink again.
    Wait,
    /// Stop: playback is over, normally or cancelled.
    Finish,
}

/// The state after the last of `chunk_count` chunks, or of none.
pub open spec fn after_chunk(next: int, chunk_count: int) -> PlaybackState {
    if next < chunk_count {
        PlaybackState::Streaming { next_chunk: next as usize }
    } else {
        PlaybackState::Draining
    }
}

/// One step of the scheduler, given the sink's pending chunk count and the
/// cancellation flag observed for it.
pub open spec fn next_step(
    state: PlaybackState,
    chunk_count: int,
    pending: int,
    cancelled: bool,
) -> (PlaybackState, SchedulerAction) {
    let effective = match state {
        PlaybackState::Idle => after_chunk(0, chunk_count),
        _ => state,
    };
    match effective {
        PlaybackState::Streaming { next_chunk } => if cancelled {
            (PlaybackState::Cancelled, SchedulerAction::Finish)
        } else if pending <= SINK_PENDING_CAP {
            (after_chunk(next_chunk + 1, chunk_count), SchedulerAction::Append { chunk: next_chunk })
        } else {
            (effective, SchedulerAction::Wait)
        },
        PlaybackState::Draining => if cancelled {
            (PlaybackState::Cancelled, SchedulerAction::Finish)
        } else if pending == 0 {
            (PlaybackState::Done, SchedulerAction::Finish)
        } else {
            (effective, SchedulerAction::Wait)
        },
        _ => (effective, SchedulerAction::Finish),
    }
}

/// Cancellation stops the scheduler for good: the step that first sees the
/// flag set, from any state but a finished one, finishes in `Cancelled`
/// without appending; and every later step, whatever the sink and the flag
/// report, finishes again without appending.
pub proof fn lemma_cancellation_stops(
    state: PlaybackState,
    chunk_count: int,
    pending: int,
    later_pending: int,
    later_cancelled: bool,
)
    requires
        state != PlaybackState::Done,
        state != PlaybackState::Cancelled,
    ensures
        next_step(state, chunk_count, pending, true) == (
            PlaybackState::Cancelled,
            SchedulerAction::Finish,
        ),
        next_step(PlaybackState::Cancelled, chunk_count, later_pending, later_cancelled) == (
            PlaybackState::Cancelled,
            SchedulerAction::Finish,
        ),
{
}

/// Streams the chunks of a session to a sink: appends each chunk once the
/// sink holds at most `SINK_PENDING_CAP` pending chunks, then waits for the
/// sink to empty; the cancellation flag ends it at any step.
pub struct PlaybackScheduler {
    pub state: PlaybackState,
    pub chunk_count: usize,
}

impl PlaybackScheduler {
    pub open spec fn wf(self) -> bool {
        self.state matches PlaybackState::Streaming { next_chunk } ==> next_chunk < self.chunk_count
    }

    pub fn new(chunk_count: usize) -> (r: PlaybackScheduler)
        ensures
            r.state == PlaybackState::Idle,
            r.chunk_count == chunk_count,
            r.wf(),
    {
        PlaybackScheduler { state: PlaybackState::Idle, chunk_count }
    }

    /// Decides the next action from the sink's pending chunk count and the
    /// cancellation flag.
    pub fn step(&mut self, pending: usize, cancelled: bool) -> (r: SchedulerAction)
        requires
            old(self).wf(),
        ensures
            final(self).wf(),
            final(self).chunk_count == old(self).chunk_count,
            (final(self).state, r) == next_step(
                old(self).state,
                old(self).chunk_count as int,
                pending as int,
                cancelled,
            ),
            r is Append ==> pending <= SINK_PENDING_CAP,
            r matches SchedulerAction::Append { chunk } ==> chunk < old(self).chunk_count,
            cancelled ==> r == SchedulerAction::Finish,
    {
        let effective = match self.state {
            PlaybackState::Idle => if 0 < self.chunk_count {
                PlaybackState::Streaming { next_chunk: 0 }
            } else {
                PlaybackState::Draining
            },
            s => s,
        };
        let (next, action) = match effective {
            PlaybackState::Streaming { next_chunk } => if cancelled {
                (PlaybackState::Cancelled, SchedulerAction::Finish)
            } else if pending <= SINK_PENDING_CAP {
                let after = if next_chunk + 1 < self.chunk_count {
                    PlaybackState::Streaming { next_chunk: next_chunk + 1 }
                } else {
                    PlaybackState::Draining
                };
                (after, SchedulerAction::Append { chunk: next_chunk })
            } else {
                (effective, SchedulerAction::Wait)
            },
            PlaybackState::Draining => if cancelled {
                (PlaybackState::Cancelled, SchedulerAction::Finish)
            } else if pending == 0 {
                (PlaybackState::Done, SchedulerAction::Finish)
            } else {
                (effective, SchedulerAction::Wait)
            },
            _ => (effective, SchedulerAction::Finish),
        };
        self.state = next;
        action
    }
}

} // verus!
