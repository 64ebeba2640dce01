//! The animation clock: which frame is on show, and when a sequence ends.

use vstd::prelude::*;
use crate::state::{PlayDirective, PlayView};

verus! {

/// The playback of one action: the frame on show and the time it has been
/// on show.
#[derive(Clone, Copy, Debug, PartialEq, Eq, Structural)]
pub struct Animation {
    /// The frame on show.
    pub index: usize,
    /// The number of frames of the action.
    pub frame_count: usize,
    /// Whether the action starts over after its last frame.
    pub repeat: bool,
    /// Nanoseconds that each frame stays on show.
    pub frame_duration: u64,
    /// Nanoseconds that the frame on show has had so far.
    pub elapsed: u64,
    /// Whether the end of the sequence has been told.
    pub ended: bool,
}

/// Whether a repeating timer of `duration` nanoseconds that stands at
/// `elapsed` comes to its end within `delta` more nanoseconds.
pub open spec fn timer_finishes(duration: u64, elapsed: u64, delta: u64) -> bool {
    elapsed + delta >= duration
}

/// Where a repeating timer of `duration` nanoseconds that stands at
/// `elapsed` stands after `delta` more nanoseconds: a timer that comes to
/// its end starts over, and keeps the time beyond the last full round.
pub open spec fn timer_elapsed(duration: u64, elapsed: u64, delta: u64) -> int {
    if elapsed + delta < duration {
        elapsed + delta
    } else if duration == 0 {
        0
    } else {
        (elapsed + delta) % (duration as int)
    }
}

/// Ticks a repeating `bevy::time::Timer` of `duration` nanoseconds that
/// stands at `elapsed` by `delta` nanoseconds, and hands back where it
/// stands then and whether it is finished.
///
/// The contract is taken on trust from `Timer::tick`: the time is added;
/// the timer is finished when the sum has reached the duration; a finished
/// repeating timer is set to the remainder of the sum by the duration, or to
/// zero where the duration is zero.
#[verifier::external_body]
fn tick_repeating(duration: u64, elapsed: u64, delta: u64) -> (r: (u64, bool))
    ensures
        r.0 == timer_elapsed(duration, elapsed, delta),
        r.1 == timer_finishes(duration, elapsed, delta),
{
    let mut timer = bevy::time::Timer::new(
        std::time::Duration::from_nanos(duration),
        bevy::time::TimerMode::Repeating,
    );
    timer.set_elapsed(std::time::Duration::from_nanos(elapsed));
    timer.tick(std::time::Duration::from_nanos(delta));
    (timer.elapsed().as_nanos() as u64, timer.finished())
}

impl Animation {
    /// The frame on show is the last one, or lies beyond it.
    pub open spec fn at_last(self) -> bool {
        self.index + 1 >= self.frame_count
    }

    /// The playback has nothing more to show: it plays once and stands on
    /// its last frame.
    pub open spec fn at_end(self) -> bool {
        !self.repeat && self.at_last()
    }

    /// The playback has shown its last frame for its time and has told so.
    pub open spec fn is_over(self) -> bool {
        self.at_end() && self.ended
    }

    /// The playback after `delta` more nanoseconds. A playback that is
    /// over stands still. Otherwise the timer of the frame on show is
    /// ticked. When it finishes, the next frame comes on show, one frame at
    /// most for each tick and the first frame after the last; but a playback
    /// that plays once and stands on its last frame keeps that frame on show
    /// and is over.
    pub open spec fn spec_advance(self, delta: u64) -> Animation {
        let ticked = Animation {
            elapsed: timer_elapsed(self.frame_duration, self.elapsed, delta) as u64,
            ..self
        };
        if self.is_over() {
            self
        } else if !timer_finishes(self.frame_duration, self.elapsed, delta) {
            ticked
        } else if self.at_end() {
            Animation { ended: true, ..ticked }
        } else {
            Animation {
                index: if self.at_last() {
                    0
                } else {
                    (self.index + 1) as usize
                },
                ..ticked
            }
        }
    }

    /// Whether the tick of `delta` nanoseconds tells the end of the
    /// sequence: it does when the playback plays once, stands on its last
    /// frame, has not told its end yet, and the timer of that frame finishes
    /// within the tick.
    pub open spec fn spec_ends(self, delta: u64) -> bool {
        &&& self.at_end()
        &&& !self.ended
        &&& timer_finishes(self.frame_duration, self.elapsed, delta)
    }

    /// The playback that a directive starts.
    pub open spec fn spec_start(play: PlayView) -> Animation {
        Animation {
            index: 0,
            frame_count: play.frame_count as usize,
            repeat: play.repeat,
            frame_duration: play.frame_duration as u64,
            elapsed: 0,
            ended: false,
        }
    }

    /// Starts the playback that `play` orders: at the first frame, with a
    /// fresh clock.
    pub fn start(play: &PlayDirective) -> (a: Animation)
        ensures
            a == Animation::spec_start(play@),
            a.index == 0,
            a.elapsed == 0,
            !a.ended,
    {
        Animation {
            index: 0,
            frame_count: play.frame_count,
            repeat: play.repeat,
            frame_duration: play.frame_duration,
            elapsed: 0,
            ended: false,
        }
    }

    /// Lets `delta` nanoseconds pass. Returns whether the end of the
    /// sequence is to be told now: the last frame of an action that plays
    /// once is shown for its full time first.
    pub fn advance(&mut self, delta: u64) -> (ended: bool)
        ensures
            *final(self) == old(self).spec_advance(delta),
            ended == old(self).spec_ends(delta),
    {
        let at_last: bool = self.frame_count <= 1 || self.index >= self.frame_count - 1;
        let at_end: bool = !self.repeat && at_last;
        if at_end && self.ended {
            return false;
        }
        let (elapsed, finished) = tick_repeating(self.frame_duration, self.elapsed, delta);
        self.elapsed = elapsed;
        if !finished {
            return false;
        }
        if at_end {
            self.ended = true;
            return true;
        }
        self.index = if at_last {
            0
        } else {
            self.index + 1
        };
        false
    }
}

/// The playback after each of `deltas` has passed in turn.
pub open spec fn run(a: Animation, deltas: Seq<u64>) -> Animation
    decreases deltas.len(),
{
    if deltas.len() == 0 {
        a
    } else {
        run(a, deltas.drop_last()).spec_advance(deltas.last())
    }
}

/// How many of the ticks `deltas` tell the end of the sequence.
pub open spec fn endings(a: Animation, deltas: Seq<u64>) -> nat
    decreases deltas.len(),
{
    if deltas.len() == 0 {
        0
    } else {
        endings(a, deltas.drop_last()) + if run(a, deltas.drop_last()).spec_ends(deltas.last()) {
            1nat
        } else {
            0nat
        }
    }
}

/// A playback never shows a frame beyond its last, and what it plays does
/// not change under it.
pub proof fn lemma_advance_stays_in_range(a: Animation, delta: u64)
    requires
        a.index < a.frame_count,
    ensures
        a.spec_advance(delta).index < a.frame_count,
        a.spec_advance(delta).frame_count == a.frame_count,
        a.spec_advance(delta).repeat == a.repeat,
        a.spec_advance(delta).frame_duration == a.frame_duration,
{
}

/// The last frame of an action that plays once is shown for its full
/// time: a tick within that time tells no end and changes nothing but the
/// clock.
pub proof fn lemma_last_frame_keeps_its_time(a: Animation, delta: u64)
    requires
        a.at_end(),
        !a.ended,
        !timer_finishes(a.frame_duration, a.elapsed, delta),
    ensures
        !a.spec_ends(delta),
        a.spec_advance(delta) == (Animation { elapsed: (a.elapsed + delta) as u64, ..a }),
{
}

/// Once the end has been told, the playback stands still and the end is
/// not told again.
pub proof fn lemma_ended_stays_ended(a: Animation, deltas: Seq<u64>)
    requires
        a.is_over(),
    ensures
        run(a, deltas) == a,
        endings(a, deltas) == 0,
    decreases deltas.len(),
{
    if deltas.len() > 0 {
        lemma_ended_stays_ended(a, deltas.drop_last());
    }
}

/// However the ticks fall, the end of a sequence is told at most once, and
/// it has been told exactly when the playback says so.
pub proof fn lemma_end_is_told_once(a: Animation, deltas: Seq<u64>)
    requires
        !a.ended,
    ensures
        endings(a, deltas) <= 1,
        endings(a, deltas) == 1 <==> run(a, deltas).ended,
        run(a, deltas).ended ==> run(a, deltas).at_end(),
    decreases deltas.len(),
{
    if deltas.len() > 0 {
        lemma_end_is_told_once(a, deltas.drop_last());
    }
}

/// A playback that plays once and is given a full frame's time on every
/// tick tells its end at the tick that gives its last frame its time: of
/// `deltas`, the tick numbered by the frames still to show.
pub proof fn lemma_end_comes_after_last_frame(a: Animation, deltas: Seq<u64>)
    requires
        !a.repeat,
        !a.ended,
        a.index < a.frame_count,
        forall|i: int| 0 <= i < deltas.len() ==> #[trigger] deltas[i] >= a.frame_duration,
    ensures
        deltas.len() < a.frame_count - a.index ==> run(a, deltas).index == a.index + deltas.len()
            && endings(a, deltas) == 0,
        deltas.len() >= a.frame_count - a.index ==> run(a, deltas).index == a.frame_count - 1
            && endings(a, deltas) == 1,
    decreases deltas.len(),
{
    if deltas.len() > 0 {
        let before = deltas.drop_last();
        lemma_end_comes_after_last_frame(a, before);
        lemma_run_keeps_action(a, before);
        lemma_end_is_told_once(a, before);
        lemma_end_is_told_once(a, deltas);
        let b = run(a, before);
        assert(deltas.last() == deltas[deltas.len() - 1]);
        assert(b.elapsed + deltas.last() >= b.frame_duration);
    }
}

/// What a playback plays does not change while it runs.
pub proof fn lemma_run_keeps_action(a: Animation, deltas: Seq<u64>)
    ensures
        run(a, deltas).frame_count == a.frame_count,
        run(a, deltas).repeat == a.repeat,
        run(a, deltas).frame_duration == a.frame_duration,
    decreases deltas.len(),
{
    if deltas.len() > 0 {
        lemma_run_keeps_action(a, deltas.drop_last());
    }
}

} // verus!
