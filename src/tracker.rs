//! Signal tracker: turns the recent level changes of the three LEDs into a device state.
use vstd::prelude::*;

verus! {

/// Power levels of the device, as labelled on it. Each one has its own LED.
#[derive(Debug, Clone, Copy, PartialEq, Eq, Structural)]
pub enum PowerLevel {
    Low,
    Medium,
    High,
}

/// The device state observed from the LEDs.
#[derive(Debug, Clone, Copy, PartialEq, Eq, Structural)]
pub enum DeviceState {
    /// All LEDs are off.
    Off,
    /// An LED pattern that matches no other state; transitional patterns fall here too.
    Unknown,
    /// LEDs below the level are on, the LED of the level blinks, those above are off.
    Heating(PowerLevel),
    /// LEDs up to and including the level are on, those above are off.
    On(PowerLevel),
}

impl DeviceState {
    /// The payload that names the state on the message bus.
    pub open spec fn name(self) -> Seq<char> {
        match self {
            DeviceState::Off => "off"@,
            DeviceState::Unknown => "unknown"@,
            DeviceState::Heating(PowerLevel::Low) => "heating_low"@,
            DeviceState::Heating(PowerLevel::Medium) => "heating_medium"@,
            DeviceState::Heating(PowerLevel::High) => "heating_high"@,
            DeviceState::On(PowerLevel::Low) => "on_low"@,
            DeviceState::On(PowerLevel::Medium) => "on_medium"@,
            DeviceState::On(PowerLevel::High) => "on_high"@,
        }
    }

    /// Represents the state as text, for publishing on the message bus.
    pub fn as_bytes(&self) -> (r: &'static str)
        ensures
            r@ == self.name(),
    {
        let r = match self {
            DeviceState::Off => "off",
            DeviceState::Unknown => "unknown",
            DeviceState::Heating(PowerLevel::Low) => "heating_low",
            DeviceState::Heating(PowerLevel::Medium) => "heating_medium",
            DeviceState::Heating(PowerLevel::High) => "heating_high",
            DeviceState::On(PowerLevel::Low) => "on_low",
            DeviceState::On(PowerLevel::Medium) => "on_medium",
            DeviceState::On(PowerLevel::High) => "on_high",
        };
        proof {
            reveal_strlit("off");
            reveal_strlit("unknown");
            reveal_strlit("heating_low");
            reveal_strlit("heating_medium");
            reveal_strlit("heating_high");
            reveal_strlit("on_low");
            reveal_strlit("on_medium");
            reveal_strlit("on_high");
        }
        r
    }
}

/// Level of a digital input.
#[derive(Debug, Clone, Copy, PartialEq, Eq, Structural)]
pub enum Level {
    Low,
    High,
}

/// What one LED shows, judged from its last level change.
#[derive(Debug, Clone, Copy, PartialEq, Eq, Structural)]
pub enum LedState {
    /// Low for longer than the blink window.
    Off,
    /// High for longer than the blink window.
    On,
    /// Changed its level within the blink window.
    Blinking,
}

/// Time after which an LED that kept its level counts as steady.
pub const BLINK_DURATION_MS: u64 = 900;

/// The last level change of one LED: when it happened and the level it changed to.
#[derive(Debug, Clone, Copy, PartialEq, Eq, Structural)]
pub struct LedObservation {
    pub since: u64,
    pub level: Level,
}

/// Time from `since` to `now`; a clock reading earlier than `since` counts as no time.
pub open spec fn elapsed(since: u64, now: u64) -> int {
    if now >= since {
        now - since
    } else {
        0
    }
}

pub open spec fn led_state_spec(obs: LedObservation, now: u64) -> LedState {
    if elapsed(obs.since, now) > BLINK_DURATION_MS {
        match obs.level {
            Level::Low => LedState::Off,
            Level::High => LedState::On,
        }
    } else {
        LedState::Blinking
    }
}

/// The fixed table from the three LED states (low, medium, high) to the device state.
pub open spec fn classify_spec(a: LedState, b: LedState, c: LedState) -> DeviceState {
    match (a, b, c) {
        (LedState::Off, LedState::Off, LedState::Off) => DeviceState::Off,
        (LedState::On, LedState::Off, LedState::Off) => DeviceState::On(PowerLevel::Low),
        (LedState::On, LedState::On, LedState::Off) => DeviceState::On(PowerLevel::Medium),
        (LedState::On, LedState::On, LedState::On) => DeviceState::On(PowerLevel::High),
        (LedState::Blinking, LedState::Off, LedState::Off) => DeviceState::Heating(PowerLevel::Low),
        (LedState::On, LedState::Blinking, LedState::Off) => DeviceState::Heating(PowerLevel::Medium),
        (LedState::On, LedState::On, LedState::Blinking) => DeviceState::Heating(PowerLevel::High),
        _ => DeviceState::Unknown,
    }
}

/// The device state shown by three LED observations at time `now`.
pub open spec fn state_of(
    low: LedObservation,
    medium: LedObservation,
    high: LedObservation,
    now: u64,
) -> DeviceState {
    classify_spec(led_state_spec(low, now), led_state_spec(medium, now), led_state_spec(high, now))
}

/// Judges one LED at time `now` from its last level change.
pub fn led_state(obs: &LedObservation, now: u64) -> (r: LedState)
    ensures
        r == led_state_spec(*obs, now),
{
    let elapsed: u64 = if now >= obs.since {
        now - obs.since
    } else {
        0
    };
    if elapsed > BLINK_DURATION_MS {
        match obs.level {
            Level::Low => LedState::Off,
            Level::High => LedState::On,
        }
    } else {
        LedState::Blinking
    }
}

/// Looks up the device state for the three LED states (low, medium, high).
pub fn classify(a: LedState, b: LedState, c: LedState) -> (r: DeviceState)
    ensures
        r == classify_spec(a, b, c),
{
    match (a, b, c) {
        (LedState::Off, LedState::Off, LedState::Off) => DeviceState::Off,
        (LedState::On, LedState::Off, LedState::Off) => DeviceState::On(PowerLevel::Low),
        (LedState::On, LedState::On, LedState::Off) => DeviceState::On(PowerLevel::Medium),
        (LedState::On, LedState::On, LedState::On) => DeviceState::On(PowerLevel::High),
        (LedState::Blinking, LedState::Off, LedState::Off) => DeviceState::Heating(PowerLevel::Low),
        (LedState::On, LedState::Blinking, LedState::Off) => DeviceState::Heating(PowerLevel::Medium),
        (LedState::On, LedState::On, LedState::Blinking) => DeviceState::Heating(PowerLevel::High),
        _ => DeviceState::Unknown,
    }
}

/// Stores the last level change of each LED, and derives the device state from them.
#[derive(Debug, Clone, Copy, PartialEq, Eq, Structural)]
pub struct DeviceStateManager {
    pub low: LedObservation,
    pub medium: LedObservation,
    pub high: LedObservation,
}

impl DeviceStateManager {
    /// The observation kept for the LED of `led`.
    pub open spec fn led(self, led: PowerLevel) -> LedObservation {
        match led {
            PowerLevel::Low => self.low,
            PowerLevel::Medium => self.medium,
            PowerLevel::High => self.high,
        }
    }

    /// What `update` makes of `self`: the LED's observation changes only on a new level.
    pub open spec fn updated(self, led: PowerLevel, level: Level, now: u64) -> Self {
        if self.led(led).level == level {
            self
        } else {
            let obs = LedObservation { since: now, level };
            match led {
                PowerLevel::Low => DeviceStateManager { low: obs, ..self },
                PowerLevel::Medium => DeviceStateManager { medium: obs, ..self },
                PowerLevel::High => DeviceStateManager { high: obs, ..self },
            }
        }
    }

    pub open spec fn state_spec(self, now: u64) -> DeviceState {
        state_of(self.low, self.medium, self.high, now)
    }

    /// All LEDs off since the start of the clock.
    pub fn new() -> (r: DeviceStateManager)
        ensures
            r.low == (LedObservation { since: 0, level: Level::Low }),
            r.medium == (LedObservation { since: 0, level: Level::Low }),
            r.high == (LedObservation { since: 0, level: Level::Low }),
    {
        let obs = LedObservation { since: 0, level: Level::Low };
        DeviceStateManager { low: obs, medium: obs, high: obs }
    }

    /// Records the level sampled on the LED of `led` at time `now`; the stored observation
    /// changes only when the level differs from the stored one.
    pub fn update(&mut self, led: PowerLevel, level: Level, now: u64)
        ensures
            *final(self) == old(self).updated(led, level, now),
    {
        let obs = LedObservation { since: now, level };
        match led {
            PowerLevel::Low => {
                if self.low.level != level {
                    self.low = obs;
                }
            },
            PowerLevel::Medium => {
                if self.medium.level != level {
                    self.medium = obs;
                }
            },
            PowerLevel::High => {
                if self.high.level != level {
                    self.high = obs;
                }
            },
        }
    }

    /// The device state at time `now`.
    pub fn state(&self, now: u64) -> (r: DeviceState)
        ensures
            r == self.state_spec(now),
    {
        let a = led_state(&self.low, now);
        let b = led_state(&self.medium, now);
        let c = led_state(&self.high, now);
        classify(a, b, c)
    }

    /// Records the levels sampled on all three LEDs at time `now`.
    pub fn update_all(&mut self, low: Level, medium: Level, high: Level, now: u64)
        ensures
            *final(self) == old(self).updated(PowerLevel::Low, low, now).updated(
                PowerLevel::Medium,
                medium,
                now,
            ).updated(PowerLevel::High, high, now),
    {
        self.update(PowerLevel::Low, low, now);
        self.update(PowerLevel::Medium, medium, now);
        self.update(PowerLevel::High, high, now);
    }
}

/// One sample: an LED, the level read on it, and the time of the reading.
pub type Sample = (PowerLevel, Level, u64);

/// The tracker after recording `samples` in order, starting from `m`.
pub open spec fn replay(m: DeviceStateManager, samples: Seq<Sample>) -> DeviceStateManager
    decreases samples.len(),
{
    if samples.len() == 0 {
        m
    } else {
        let (led, level, t) = samples.last();
        replay(m, samples.drop_last()).updated(led, level, t)
    }
}

proof fn lemma_replay_concat(m: DeviceStateManager, p: Seq<Sample>, s: Seq<Sample>)
    ensures
        replay(m, p + s) == replay(replay(m, p), s),
    decreases s.len(),
{
    if s.len() > 0 {
        assert((p + s).drop_last() == p + s.drop_last());
        lemma_replay_concat(m, p, s.drop_last());
    }
}

/// The state after a history of samples depends on the earlier part of that history only
/// through the three LED observations it left: two histories that leave the same
/// observations give the same state after any further samples, at any time.
pub proof fn lemma_state_depends_on_observations_only(
    m: DeviceStateManager,
    p1: Seq<Sample>,
    p2: Seq<Sample>,
    s: Seq<Sample>,
    now: u64,
)
    requires
        replay(m, p1) == replay(m, p2),
    ensures
        replay(m, p1 + s).state_spec(now) == replay(m, p2 + s).state_spec(now),
        replay(m, p1 + s).state_spec(now) == state_of(
            replay(m, p1 + s).low,
            replay(m, p1 + s).medium,
            replay(m, p1 + s).high,
            now,
        ),
{
    lemma_replay_concat(m, p1, s);
    lemma_replay_concat(m, p2, s);
}

/// Whether some sample of `samples` reads on the LED of `led` a level other than `level`.
pub open spec fn changes_from(samples: Seq<Sample>, led: PowerLevel, level: Level) -> bool {
    exists|k: int| 0 <= k < samples.len() && #[trigger] samples[k].0 == led && samples[k].1 != level
}

proof fn lemma_updated_led(m: DeviceStateManager, led: PowerLevel, level: Level, t: u64)
    ensures
        forall|l: PowerLevel| #[trigger] m.updated(led, level, t).led(l) == (if l == led
            && m.led(l).level != level {
            LedObservation { since: t, level }
        } else {
            m.led(l)
        }),
{
    assert forall|l: PowerLevel| #[trigger] m.updated(led, level, t).led(l) == (if l == led
        && m.led(l).level != level {
        LedObservation { since: t, level }
    } else {
        m.led(l)
    }) by {
        match l {
            PowerLevel::Low => {},
            PowerLevel::Medium => {},
            PowerLevel::High => {},
        }
    }
}

proof fn lemma_replay_forgets(m1: DeviceStateManager, m2: DeviceStateManager, s: Seq<Sample>)
    requires
        forall|l: PowerLevel| #[trigger] m1.led(l).level == m2.led(l).level,
    ensures
        forall|l: PowerLevel| #[trigger] replay(m1, s).led(l).level == replay(m2, s).led(l).level,
        forall|l: PowerLevel|
            !changes_from(s, l, m1.led(l).level) ==> #[trigger] replay(m1, s).led(l) == m1.led(l)
                && replay(m2, s).led(l) == m2.led(l),
        forall|l: PowerLevel|
            changes_from(s, l, m1.led(l).level) ==> #[trigger] replay(m1, s).led(l) == replay(
                m2,
                s,
            ).led(l),
    decreases s.len(),
{
    if s.len() > 0 {
        let p = s.drop_last();
        lemma_replay_forgets(m1, m2, p);
        let (led, level, t) = s.last();
        assert(replay(m1, s) == replay(m1, p).updated(led, level, t));
        assert(replay(m2, s) == replay(m2, p).updated(led, level, t));
        lemma_updated_led(replay(m1, p), led, level, t);
        lemma_updated_led(replay(m2, p), led, level, t);
        assert forall|l: PowerLevel| changes_from(p, l, m1.led(l).level) implies changes_from(
            s,
            l,
            m1.led(l).level,
        ) by {
            let k = choose|k: int|
                0 <= k < p.len() && #[trigger] p[k].0 == l && p[k].1 != m1.led(l).level;
            assert(s[k] == p[k]);
        }
        assert forall|l: PowerLevel| !changes_from(p, l, m1.led(l).level) && !changes_from(
            s,
            l,
            m1.led(l).level,
        ) implies !(l == led && level != m1.led(l).level) by {
            if l == led && level != m1.led(l).level {
                assert(s[s.len() - 1].0 == l);
            }
        }
        assert forall|l: PowerLevel| changes_from(s, l, m1.led(l).level) && !changes_from(
            p,
            l,
            m1.led(l).level,
        ) implies l == led && level != m1.led(l).level by {
            let k = choose|k: int|
                0 <= k < s.len() && #[trigger] s[k].0 == l && s[k].1 != m1.led(l).level;
            if k < p.len() {
                assert(p[k] == s[k]);
            }
        }
    }
}

/// Once every LED has read a level other than the one the tracker started with, the state
/// no longer depends on the tracker's earlier history: two trackers that agree on the
/// levels, whatever the times of their last changes, give the same state after the same
/// samples, at any time.
pub proof fn lemma_earlier_history_forgotten(
    m1: DeviceStateManager,
    m2: DeviceStateManager,
    s: Seq<Sample>,
    now: u64,
)
    requires
        forall|l: PowerLevel| #[trigger] m1.led(l).level == m2.led(l).level,
        forall|l: PowerLevel| #[trigger] changes_from(s, l, m1.led(l).level),
    ensures
        replay(m1, s) == replay(m2, s),
        replay(m1, s).state_spec(now) == replay(m2, s).state_spec(now),
{
    lemma_replay_forgets(m1, m2, s);
    let r1 = replay(m1, s);
    let r2 = replay(m2, s);
    assert(r1.led(PowerLevel::Low) == r2.led(PowerLevel::Low));
    assert(r1.led(PowerLevel::Medium) == r2.led(PowerLevel::Medium));
    assert(r1.led(PowerLevel::High) == r2.led(PowerLevel::High));
}

/// Recording the level an LED already has changes nothing, so the state stays the same at
/// every time.
pub proof fn lemma_same_level_changes_nothing(
    m: DeviceStateManager,
    led: PowerLevel,
    level: Level,
    t: u64,
    now: u64,
)
    requires
        m.led(led).level == level,
    ensures
        m.updated(led, level, t) == m,
        m.updated(led, level, t).state_spec(now) == m.state_spec(now),
{
}

} // verus!
