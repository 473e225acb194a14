//! Loop bounds and arrangement step sequencing shared with the playback engine.
use vstd::prelude::*;

verus! {

/// The A-B loop of the playback engine, in samples.
#[derive(Debug, Clone, Copy)]
pub struct LoopBounds {
    pub a: usize,
    pub b: usize,
    pub enabled: bool,
}

impl LoopBounds {
    /// Looping is in effect: switched on and B lies after A.
    pub fn enabled(&self) -> (res: bool)
        ensures
            res == (self.enabled && self.b > self.a),
    {
        self.enabled && self.b > self.a
    }
}

/// What the playback reader does next: read that many samples from its position,
/// jump back to the loop start, or stop reading for this buffer.
#[derive(Debug, Clone, Copy, PartialEq, Eq, Structural)]
pub enum ReadStep {
    Read(usize),
    JumpTo(usize),
    Done,
}

/// Looping is in effect: switched on and B lies after A.
pub open spec fn looping(bounds: LoopBounds) -> bool {
    bounds.enabled && bounds.b > bounds.a
}

/// Where reading stops for samples of length `total_len`: B while looping,
/// else the end of the samples.
pub open spec fn read_end(bounds: LoopBounds, total_len: usize) -> usize {
    if looping(bounds) {
        bounds.b
    } else {
        total_len
    }
}

/// The reader's next step at `read_pos` with room for `room` more samples in its
/// chunk: at or past the read end it jumps back to A while looping and is done
/// otherwise; before it, it reads as much as fits, up to the read end.
pub open spec fn read_step_of(bounds: LoopBounds, total_len: usize, read_pos: usize, room: usize) -> ReadStep {
    let end = read_end(bounds, total_len);
    if read_pos >= end {
        if looping(bounds) {
            ReadStep::JumpTo(bounds.a)
        } else {
            ReadStep::Done
        }
    } else {
        let n = if room < end - read_pos {
            room
        } else {
            (end - read_pos) as usize
        };
        if n == 0 {
            ReadStep::Done
        } else {
            ReadStep::Read(n)
        }
    }
}

impl LoopBounds {
    /// The playback reader's next step at `read_pos`, for samples of length
    /// `total_len` and room for `room` more samples in the chunk being filled.
    pub fn read_step(&self, total_len: usize, read_pos: usize, room: usize) -> (res: ReadStep)
        ensures
            res == read_step_of(*self, total_len, read_pos, room),
    {
        let end = if self.enabled() {
            self.b
        } else {
            total_len
        };
        if read_pos >= end {
            if self.enabled() {
                ReadStep::JumpTo(self.a)
            } else {
                ReadStep::Done
            }
        } else {
            let n = if room < end - read_pos {
                room
            } else {
                end - read_pos
            };
            if n == 0 {
                ReadStep::Done
            } else {
                ReadStep::Read(n)
            }
        }
    }
}

/// Law: the reader never reads past the read end, and never past the samples when
/// the loop region lies within them (B at most the length); it reads as much as it
/// can (until the chunk is full or the read end is reached); a jump goes to A, and
/// reading resumes after it: at A, with room left, it reads at least one sample.
pub proof fn law_reads_stay_in_range(bounds: LoopBounds, total_len: usize, read_pos: usize, room: usize)
    ensures
        read_step_of(bounds, total_len, read_pos, room) matches ReadStep::Read(n) ==> {
            &&& 0 < n <= room
            &&& read_pos + n <= read_end(bounds, total_len)
            &&& (n == room || read_pos + n == read_end(bounds, total_len))
            &&& (!looping(bounds) || bounds.b <= total_len) ==> read_pos + n <= total_len
        },
        read_step_of(bounds, total_len, read_pos, room) matches ReadStep::JumpTo(p) ==> (looping(bounds) && p
            == bounds.a),
        looping(bounds) && room > 0 ==> (read_step_of(bounds, total_len, bounds.a, room) matches ReadStep::Read(
            m,
        ) && m > 0),
{
}

/// The playback watchdog after one more frame (about 16 ms): the frames without
/// progress, the last position seen, and whether the stream is taken for dead.
pub open spec fn watchdog_after(stuck: u32, last_pos: u64, cur_pos: u64) -> (u32, u64, bool) {
    if cur_pos == last_pos {
        ((stuck + 1) as u32, last_pos, stuck + 1 > 60)
    } else {
        (0, cur_pos, false)
    }
}

/// Counts frames in which the playback position has not moved; after more than 60
/// (about one second) the stream is taken for dead. A moved position resets it.
pub fn watchdog_tick(stuck: u32, last_pos: u64, cur_pos: u64) -> (res: (u32, u64, bool))
    requires
        cur_pos == last_pos ==> stuck < u32::MAX,
    ensures
        res == watchdog_after(stuck, last_pos, cur_pos),
{
    if cur_pos == last_pos {
        let n = stuck + 1;
        (n, last_pos, n > 60)
    } else {
        (0, cur_pos, false)
    }
}

/// Law: only a position that stands still counts as a stalled frame. Whenever the
/// position has moved, forward or back (as after seeking backwards), the watchdog
/// starts over from that position and never takes the stream for dead.
pub proof fn law_moved_position_resets_watchdog(stuck: u32, last_pos: u64, cur_pos: u64)
    requires
        cur_pos != last_pos,
    ensures
        watchdog_after(stuck, last_pos, cur_pos) == (0u32, cur_pos, false),
{
}

/// Law: a position that stands still adds one stalled frame and keeps the last
/// position; the stream is taken for dead exactly when more than 60 frames have
/// stalled in a row.
pub proof fn law_still_position_counts_a_stalled_frame(stuck: u32, pos: u64)
    requires
        stuck < u32::MAX,
    ensures
        watchdog_after(stuck, pos, pos).0 == stuck + 1,
        watchdog_after(stuck, pos, pos).1 == pos,
        watchdog_after(stuck, pos, pos).2 <==> stuck >= 60,
{
}

/// The watchdog after one frame for each position of `positions`, in order.
pub open spec fn watchdog_run(stuck: u32, last_pos: u64, positions: Seq<u64>) -> (u32, u64, bool)
    decreases positions.len(),
{
    if positions.len() == 0 {
        (stuck, last_pos, false)
    } else {
        let prev = watchdog_run(stuck, last_pos, positions.drop_last());
        watchdog_after(prev.0, prev.1, positions.last())
    }
}

/// Law: while playback keeps moving (each frame's position differs from the one
/// before), the watchdog never takes the stream for dead and its counter stays 0.
pub proof fn law_moving_playback_is_never_dead(stuck: u32, last_pos: u64, positions: Seq<u64>)
    requires
        positions.len() > 0,
        positions[0] != last_pos,
        forall|j: int| 0 < j < positions.len() ==> #[trigger] positions[j] != positions[j - 1],
    ensures
        watchdog_run(stuck, last_pos, positions) == (0u32, positions.last(), false),
    decreases positions.len(),
{
    if positions.len() > 1 {
        let prev = positions.drop_last();
        assert forall|j: int| 0 < j < prev.len() implies #[trigger] prev[j] != prev[j - 1] by {
            assert(positions[j] != positions[j - 1]);
        }
        law_moving_playback_is_never_dead(stuck, last_pos, prev);
        assert(positions[positions.len() - 1] != positions[positions.len() - 2]);
        assert(prev.last() == positions[positions.len() - 2]);
        assert(watchdog_run(stuck, last_pos, prev) == (0u32, prev.last(), false));
    } else {
        assert(positions.drop_last() =~= Seq::<u64>::empty());
        assert(positions.last() == positions[0]);
        assert(watchdog_run(stuck, last_pos, positions.drop_last()) == (stuck, last_pos, false));
    }
}

/// The watchdog after `n` frames at position `pos`, from a reset counter.
pub open spec fn watchdog_stuck(pos: u64, n: nat) -> (u32, u64, bool)
    decreases n,
{
    if n == 0 {
        (0, pos, false)
    } else {
        let prev = watchdog_stuck(pos, (n - 1) as nat);
        watchdog_after(prev.0, prev.1, pos)
    }
}

/// Law: with the position standing still, the counter after `n` frames is `n`, and
/// the stream is first taken for dead at the 61st frame.
pub proof fn law_watchdog_fires_after_sixty_frames(pos: u64, n: nat)
    requires
        n < u32::MAX,
    ensures
        watchdog_stuck(pos, n) == (n as u32, pos, n > 60),
    decreases n,
{
    if n > 0 {
        law_watchdog_fires_after_sixty_frames(pos, (n - 1) as nat);
    }
}

/// What arrangement playback reports when the loop of its current step has played
/// to its end: the step plays again, playback moves on to a step, or it is over.
#[derive(Debug, Clone, Copy, PartialEq, Eq, Structural)]
pub enum StepEvent {
    StepRepeated(usize),
    StepChanged(usize),
    ArrangementFinished,
}

/// Where arrangement playback stands: the step being played and how many plays of
/// it are due, the current one included; 0 means the step repeats forever.
#[derive(Debug, Clone, Copy, PartialEq, Eq, Structural)]
pub struct StepCursor {
    pub step: usize,
    pub plays_left: u32,
}

/// The cursor and event once the loop of the current step has played to its end,
/// for an arrangement whose steps repeat `repeats` times.
pub open spec fn end_of_step(c: StepCursor, repeats: Seq<u32>) -> (StepCursor, StepEvent) {
    if c.plays_left == 0 {
        (c, StepEvent::StepRepeated(c.step))
    } else if c.plays_left > 1 {
        (StepCursor { step: c.step, plays_left: (c.plays_left - 1) as u32 }, StepEvent::StepRepeated(c.step))
    } else if c.step + 1 < repeats.len() {
        (
            StepCursor { step: (c.step + 1) as usize, plays_left: repeats[c.step + 1] },
            StepEvent::StepChanged((c.step + 1) as usize),
        )
    } else {
        (c, StepEvent::ArrangementFinished)
    }
}

/// The cursor after the current step's loop has ended `n` times.
pub open spec fn after_ends(c: StepCursor, repeats: Seq<u32>, n: nat) -> StepCursor
    decreases n,
{
    if n == 0 {
        c
    } else {
        end_of_step(after_ends(c, repeats, (n - 1) as nat), repeats).0
    }
}

impl StepCursor {
    /// Playback at the first step of an arrangement whose steps repeat `repeats` times.
    pub fn start(repeats: &[u32]) -> (res: StepCursor)
        requires
            repeats.len() > 0,
        ensures
            res == (StepCursor { step: 0, plays_left: repeats@[0] }),
    {
        StepCursor { step: 0, plays_left: repeats[0] }
    }

    /// The cursor and event once the loop of the current step has played to its end:
    /// a step with plays left repeats (one fewer left, none counted for a step that
    /// repeats forever); after its last play comes the next step with all its plays,
    /// and after the last step the arrangement is finished.
    pub fn step_end(&self, repeats: &[u32]) -> (res: (StepCursor, StepEvent))
        requires
            self.step < repeats.len(),
        ensures
            res == end_of_step(*self, repeats@),
    {
        if self.plays_left == 0 {
            (*self, StepEvent::StepRepeated(self.step))
        } else if self.plays_left > 1 {
            (StepCursor { step: self.step, plays_left: self.plays_left - 1 }, StepEvent::StepRepeated(self.step))
        } else if self.step + 1 < repeats.len() {
            (StepCursor { step: self.step + 1, plays_left: repeats[self.step + 1] }, StepEvent::StepChanged(self.step + 1))
        } else {
            (*self, StepEvent::ArrangementFinished)
        }
    }
}

proof fn lemma_counting_down(c: StepCursor, repeats: Seq<u32>, k: nat)
    requires
        c.plays_left >= 1,
        k < c.plays_left,
    ensures
        after_ends(c, repeats, k) == (StepCursor { step: c.step, plays_left: (c.plays_left - k) as u32 }),
    decreases k,
{
    if k > 0 {
        lemma_counting_down(c, repeats, (k - 1) as nat);
    }
}

/// Law: a step entered with `r >= 1` plays is played exactly `r` times: its first
/// `r - 1` ends repeat it, and its `r`-th end moves on to the next step with all of
/// that step's plays, or finishes the arrangement after the last step.
pub proof fn law_step_plays_its_repeats(c: StepCursor, repeats: Seq<u32>)
    requires
        c.step < repeats.len(),
        c.plays_left >= 1,
    ensures
        forall|k: nat|
            k + 1 < c.plays_left ==> #[trigger] end_of_step(after_ends(c, repeats, k), repeats).1
                == StepEvent::StepRepeated(c.step),
        end_of_step(after_ends(c, repeats, (c.plays_left - 1) as nat), repeats) == (if c.step + 1 < repeats.len() {
            (
                StepCursor { step: (c.step + 1) as usize, plays_left: repeats[c.step + 1] },
                StepEvent::StepChanged((c.step + 1) as usize),
            )
        } else {
            (after_ends(c, repeats, (c.plays_left - 1) as nat), StepEvent::ArrangementFinished)
        }),
{
    assert forall|k: nat| k + 1 < c.plays_left implies #[trigger] end_of_step(after_ends(c, repeats, k), repeats).1
        == StepEvent::StepRepeated(c.step) by {
        lemma_counting_down(c, repeats, k);
    }
    lemma_counting_down(c, repeats, (c.plays_left - 1) as nat);
}

/// Law: a step with 0 plays repeats forever: however often its loop ends,
/// playback stays on it and reports it repeated.
pub proof fn law_zero_repeats_is_forever(c: StepCursor, repeats: Seq<u32>, n: nat)
    requires
        c.plays_left == 0,
    ensures
        after_ends(c, repeats, n) == c,
        end_of_step(after_ends(c, repeats, n), repeats) == (c, StepEvent::StepRepeated(c.step)),
    decreases n,
{
    if n > 0 {
        law_zero_repeats_is_forever(c, repeats, (n - 1) as nat);
    }
}

} // verus!
