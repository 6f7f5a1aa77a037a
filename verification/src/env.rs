//! The stage machine of an ADSR envelope.
//!
//! The levels of an envelope are computed elsewhere; here stands what decides which stage an
//! envelope is in: key presses, key releases, and the moment a stage reaches its target level.
use vstd::prelude::*;

verus! {

/// The stage of an ADSR envelope.
#[derive(Clone, Copy, Debug, PartialEq, Eq, Structural)]
pub enum Stage {
    /// Silent and waiting for a key.
    Idle,
    /// Rising towards full level.
    Attack,
    /// Falling from full level towards the sustain level.
    Decay,
    /// Holding the sustain level while the key is down.
    Sustain,
    /// Falling towards silence after the key was released.
    Release,
}

impl Stage {
    /// A key press: the envelope starts its attack, whatever stage it was in.
    pub fn note_on(self) -> (r: Stage)
        ensures
            r == Stage::Attack,
    {
        Stage::Attack
    }

    /// The stage after a key release: release for a sounding envelope, idle for an idle one.
    pub open spec fn released(self) -> Stage {
        if self == Stage::Idle {
            Stage::Idle
        } else {
            Stage::Release
        }
    }

    /// A key release: a sounding envelope goes into release, an idle one stays idle.
    pub fn note_off(self) -> (r: Stage)
        ensures
            r == self.released(),
    {
        match self {
            Stage::Idle => Stage::Idle,
            _ => Stage::Release,
        }
    }

    /// Whether the envelope is sounding, i.e. not idle.
    pub open spec fn active(self) -> bool {
        self != Stage::Idle
    }

    /// Whether the envelope is sounding, i.e. not idle.
    pub fn is_active(self) -> (r: bool)
        ensures
            r == self.active(),
    {
        match self {
            Stage::Idle => false,
            _ => true,
        }
    }

    /// The stage after one sample, given whether the level arrived where the stage heads:
    /// full level in attack (then decay follows), the sustain level in decay (then sustain
    /// follows), and silence in release (then the envelope is idle). Idle and sustain stay.
    pub open spec fn stage_after(self, reached: bool) -> Stage {
        if !reached {
            self
        } else {
            match self {
                Stage::Attack => Stage::Decay,
                Stage::Decay => Stage::Sustain,
                Stage::Release => Stage::Idle,
                other => other,
            }
        }
    }

    /// The stage after one sample; see `stage_after`.
    pub fn after_tick(self, reached: bool) -> (r: Stage)
        ensures
            r == self.stage_after(reached),
    {
        if !reached {
            return self;
        }
        match self {
            Stage::Attack => Stage::Decay,
            Stage::Decay => Stage::Sustain,
            Stage::Release => Stage::Idle,
            Stage::Idle => Stage::Idle,
            Stage::Sustain => Stage::Sustain,
        }
    }
}

impl Default for Stage {
    fn default() -> (r: Stage)
        ensures
            r == Stage::Idle,
    {
        Stage::Idle
    }
}

/// An event that moves an envelope: a key press (`Stage::note_on`), a key release
/// (`Stage::note_off`), or one sample whose level reached, or did not reach, the target of the
/// current stage (`Stage::after_tick`).
pub ghost enum EnvEvent {
    KeyDown,
    KeyUp,
    Sample(bool),
}

/// The stage after one event, as the three transitions above give it.
pub open spec fn step(s: Stage, e: EnvEvent) -> Stage {
    match e {
        EnvEvent::KeyDown => Stage::Attack,
        EnvEvent::KeyUp => s.released(),
        EnvEvent::Sample(reached) => s.stage_after(reached),
    }
}

/// The stage after a whole sequence of events.
pub open spec fn run(s: Stage, events: Seq<EnvEvent>) -> Stage
    decreases events.len(),
{
    if events.len() == 0 {
        s
    } else {
        run(step(s, events[0]), events.drop_first())
    }
}

/// An envelope that is idle or releasing stays idle or releasing until the next key press:
/// releases and samples never bring it back to attack, decay or sustain.
pub proof fn quiet_without_key_down(s: Stage, events: Seq<EnvEvent>)
    requires
        s == Stage::Idle || s == Stage::Release,
        forall|i: int| 0 <= i < events.len() ==> events[i] != EnvEvent::KeyDown,
    ensures
        run(s, events) == Stage::Idle || run(s, events) == Stage::Release,
    decreases events.len(),
{
    if events.len() > 0 {
        assert(events[0] != EnvEvent::KeyDown);
        let rest = events.drop_first();
        assert forall|i: int| 0 <= i < rest.len() implies rest[i] != EnvEvent::KeyDown by {
            assert(rest[i] == events[i + 1]);
        }
        quiet_without_key_down(step(s, events[0]), rest);
    }
}

/// An idle envelope stays idle until the next key press.
pub proof fn idle_without_key_down(events: Seq<EnvEvent>)
    requires
        forall|i: int| 0 <= i < events.len() ==> events[i] != EnvEvent::KeyDown,
    ensures
        run(Stage::Idle, events) == Stage::Idle,
    decreases events.len(),
{
    if events.len() > 0 {
        let rest = events.drop_first();
        assert forall|i: int| 0 <= i < rest.len() implies rest[i] != EnvEvent::KeyDown by {
            assert(rest[i] == events[i + 1]);
        }
        idle_without_key_down(rest);
    }
}

/// A key press always makes the envelope sound, and a release never does so by itself.
pub proof fn key_events_and_activity(s: Stage)
    ensures
        step(s, EnvEvent::KeyDown).active(),
        !s.active() ==> !step(s, EnvEvent::KeyUp).active(),
        s.active() ==> step(s, EnvEvent::KeyUp) == Stage::Release,
{
}

} // verus!
