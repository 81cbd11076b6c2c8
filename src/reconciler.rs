//! Actuation reconciler: picks the button action that moves the device toward a target.
use vstd::prelude::*;
use crate::tracker::{DeviceState, PowerLevel, elapsed};

verus! {

/// What the operator asked the device to be.
#[derive(Debug, Clone, Copy, PartialEq, Eq, Structural)]
pub enum TargetState {
    /// Reached when the device is off.
    Off,
    /// Reached when the device is heating or on at the given level.
    On(PowerLevel),
}

/// A button action.
#[derive(Debug, Clone, Copy, PartialEq, Eq, Structural)]
pub enum Action {
    NoPush,
    ShortPush,
    LongPush,
}

/// The outcome of one decision: the action, and how long the state has been unknown when
/// that is long enough to warrant a warning.
#[derive(Debug, Clone, Copy, PartialEq, Eq, Structural)]
pub struct Decision {
    pub action: Action,
    pub unknown_for: Option<u64>,
}

/// Time in the unknown state after which a warning is due.
pub const STATE_WARNING_TIMEOUT_MS: u64 = 11000;
/// Time in the unknown state after which the device is forced through a reset.
pub const RESET_TIMEOUT_MS: u64 = 21000;
/// Length of a short button press.
pub const SHORT_PUSH_MS: u64 = 500;
/// Length of a long button press.
pub const LONG_PUSH_MS: u64 = 2000;
/// Pause after each decision, so that the device can finish its own transition.
pub const SETTLE_MS: u64 = 5000;

/// The target that a classifiable device state already satisfies.
pub open spec fn goal_shape(s: DeviceState) -> Option<TargetState> {
    match s {
        DeviceState::Off => Some(TargetState::Off),
        DeviceState::Heating(p) => Some(TargetState::On(p)),
        DeviceState::On(p) => Some(TargetState::On(p)),
        DeviceState::Unknown => None,
    }
}

/// The action that moves a device showing `current` toward `target`.
pub open spec fn action_for(current: TargetState, target: TargetState) -> Action {
    if current == target {
        Action::NoPush
    } else {
        match (current, target) {
            (TargetState::On(_), TargetState::On(_)) => Action::ShortPush,
            _ => Action::LongPush,
        }
    }
}

/// How long the state has been unknown at `now`, given the stored start.
pub open spec fn unknown_time(since: Option<u64>, now: u64) -> int {
    match since {
        Some(t) => elapsed(t, now),
        None => 0,
    }
}

/// The decision for `current` and `target` at `now`, with the start of the unknown stretch
/// as stored before the call; also gives that start as stored after it.
pub open spec fn decide_spec(
    current: DeviceState,
    target: TargetState,
    now: u64,
    since: Option<u64>,
) -> (Decision, Option<u64>) {
    match goal_shape(current) {
        Some(shape) => (Decision { action: action_for(shape, target), unknown_for: None }, None),
        None => {
            let t = unknown_time(since, now);
            let warning = if t > STATE_WARNING_TIMEOUT_MS {
                Some(t as u64)
            } else {
                None
            };
            if t > RESET_TIMEOUT_MS {
                (Decision { action: Action::LongPush, unknown_for: warning }, None)
            } else {
                (
                    Decision { action: Action::NoPush, unknown_for: warning },
                    if since is None {
                        Some(now)
                    } else {
                        since
                    },
                )
            }
        },
    }
}

/// Returns the action that brings the device closer to `target`. `unknown_since` holds the
/// time at which the state was first seen unknown in the current unknown stretch.
pub fn get_action(
    current_state: DeviceState,
    target_state: TargetState,
    now: u64,
    unknown_state_since: &mut Option<u64>,
) -> (r: Decision)
    ensures
        (r, *final(unknown_state_since)) == decide_spec(
            current_state,
            target_state,
            now,
            *old(unknown_state_since),
        ),
{
    let current = match current_state {
        DeviceState::Off => TargetState::Off,
        DeviceState::Heating(x) => TargetState::On(x),
        DeviceState::On(x) => TargetState::On(x),
        DeviceState::Unknown => {
            let unknown_for: u64 = match *unknown_state_since {
                Some(x) => if now >= x {
                    now - x
                } else {
                    0
                },
                None => {
                    *unknown_state_since = Some(now);
                    0
                },
            };
            let warning = if unknown_for > STATE_WARNING_TIMEOUT_MS {
                Some(unknown_for)
            } else {
                None
            };
            if unknown_for > RESET_TIMEOUT_MS {
                *unknown_state_since = None;
                return Decision { action: Action::LongPush, unknown_for: warning };
            }
            return Decision { action: Action::NoPush, unknown_for: warning };
        },
    };
    *unknown_state_since = None;
    let action = if current == target_state {
        Action::NoPush
    } else {
        match (current, target_state) {
            (TargetState::On(_), TargetState::On(_)) => Action::ShortPush,
            _ => Action::LongPush,
        }
    };
    Decision { action, unknown_for: None }
}

/// How long the button is held for `action`; `None` when no press is due.
pub fn push_duration(action: Action) -> (r: Option<u64>)
    ensures
        r == (match action {
            Action::NoPush => None::<u64>,
            Action::ShortPush => Some(SHORT_PUSH_MS),
            Action::LongPush => Some(LONG_PUSH_MS),
        }),
{
    match action {
        Action::NoPush => None,
        Action::ShortPush => Some(SHORT_PUSH_MS),
        Action::LongPush => Some(LONG_PUSH_MS),
    }
}

} // verus!

verus! {

/// A device whose state already satisfies the target gets no push.
pub proof fn lemma_reached_target_needs_no_push(
    current: DeviceState,
    target: TargetState,
    now: u64,
    since: Option<u64>,
)
    requires
        goal_shape(current) == Some(target),
    ensures
        decide_spec(current, target, now, since).0.action == Action::NoPush,
{
}

/// Actions and final stored start for a run of decisions on an unknown device, one at each
/// time of `times` with the target at the same index of `targets`, starting from the stored
/// start `since`.
pub open spec fn unknown_run(since: Option<u64>, targets: Seq<TargetState>, times: Seq<u64>) -> (
    Seq<Action>,
    Option<u64>,
)
    decreases times.len(),
{
    if times.len() == 0 {
        (Seq::empty(), since)
    } else {
        let (d, next) = decide_spec(DeviceState::Unknown, targets[0], times[0], since);
        let (rest, fin) = unknown_run(next, targets.drop_first(), times.drop_first());
        (seq![d.action].add(rest), fin)
    }
}

pub open spec fn nondecreasing(times: Seq<u64>) -> bool {
    forall|i: int, j: int| 0 <= i <= j < times.len() ==> times[i] <= times[j]
}

proof fn lemma_unknown_run_from(t0: u64, targets: Seq<TargetState>, times: Seq<u64>)
    requires
        targets.len() == times.len(),
        nondecreasing(times),
        times.len() > 0 ==> t0 <= times[0],
        forall|j: int| 0 <= j < times.len() - 1 ==> times[j] - t0 <= RESET_TIMEOUT_MS,
    ensures
        unknown_run(Some(t0), targets, times).0.len() == times.len(),
        forall|k: int|
            0 <= k < times.len() ==> unknown_run(Some(t0), targets, times).0[k] == (if times[k] - t0
                > RESET_TIMEOUT_MS {
                Action::LongPush
            } else {
                Action::NoPush
            }),
        times.len() > 0 ==> (unknown_run(Some(t0), targets, times).1 is None <==> times.last() - t0
            > RESET_TIMEOUT_MS),
    decreases times.len(),
{
    if times.len() > 0 {
        let rest = times.drop_first();
        if times.len() > 1 {
            assert(times[0] <= times[1]);
            assert(times[0] - t0 <= RESET_TIMEOUT_MS);
        }
        let d = decide_spec(DeviceState::Unknown, targets[0], times[0], Some(t0));
        assert(unknown_time(Some(t0), times[0]) == times[0] - t0);
        if times.len() > 1 {
            assert(d.1 == Some(t0));
            assert forall|j: int| 0 <= j < rest.len() - 1 implies #[trigger] rest[j] - t0
                <= RESET_TIMEOUT_MS by {
                assert(rest[j] == times[j + 1]);
            }
            assert(rest.last() == times.last());
            lemma_unknown_run_from(t0, targets.drop_first(), rest);
        } else {
            assert(unknown_run(d.1, targets.drop_first(), rest) == (Seq::<Action>::empty(), d.1));
        }
        assert(unknown_run(Some(t0), targets, times) == (seq![d.0.action].add(unknown_run(d.1, targets.drop_first(), rest).0),
            unknown_run(d.1, targets.drop_first(), rest).1));
        assert forall|k: int| 0 <= k < times.len() implies unknown_run(Some(t0), targets, times).0[k] == (
        if times[k] - t0 > RESET_TIMEOUT_MS {
            Action::LongPush
        } else {
            Action::NoPush
        }) by {
            if k > 0 {
                assert(times[k] == rest[k - 1]);
            }
        }
    }
}

/// A device that stays unknown gets no push until more than the reset timeout has passed
/// since the first unknown reading; the first reading past it gets a long push, and the
/// stored start is cleared by it, so that the next unknown reading starts a new stretch.
/// The targets asked for meanwhile make no difference, and no call gets a short push.
pub proof fn lemma_unknown_escalation(targets: Seq<TargetState>, times: Seq<u64>)
    requires
        targets.len() == times.len(),
        times.len() > 0,
        nondecreasing(times),
        forall|j: int| 0 <= j < times.len() - 1 ==> #[trigger] times[j] - times[0] <= RESET_TIMEOUT_MS,
    ensures
        unknown_run(None, targets, times).0.len() == times.len(),
        forall|k: int|
            0 <= k < times.len() ==> unknown_run(None, targets, times).0[k] == (if times[k] - times[0]
                > RESET_TIMEOUT_MS {
                Action::LongPush
            } else {
                Action::NoPush
            }),
        unknown_run(None, targets, times).1 is None <==> times.last() - times[0] > RESET_TIMEOUT_MS,
        times.last() - times[0] > RESET_TIMEOUT_MS ==> forall|target: TargetState, t: u64|
            #[trigger] decide_spec(
                DeviceState::Unknown,
                target,
                t,
                unknown_run(None, targets, times).1,
            ) == (Decision { action: Action::NoPush, unknown_for: None }, Some(t)),
{
    let rest = times.drop_first();
    let t0 = times[0];
    if times.len() > 1 {
        assert(times[0] <= times[1]);
    }
    let d = decide_spec(DeviceState::Unknown, targets[0], times[0], None);
    assert(d.1 == Some(t0));
    assert forall|j: int| 0 <= j < rest.len() - 1 implies #[trigger] rest[j] - t0
        <= RESET_TIMEOUT_MS by {
        assert(rest[j] == times[j + 1]);
    }
    lemma_unknown_run_from(t0, targets.drop_first(), rest);
    assert(unknown_run(None, targets, times) == (seq![d.0.action].add(unknown_run(d.1, targets.drop_first(), rest).0),
        unknown_run(d.1, targets.drop_first(), rest).1));
    if times.len() > 1 {
        assert(rest.last() == times.last());
    }
    assert forall|k: int| 0 <= k < times.len() implies unknown_run(None, targets, times).0[k] == (
    if times[k] - times[0] > RESET_TIMEOUT_MS {
        Action::LongPush
    } else {
        Action::NoPush
    }) by {
        if k > 0 {
            assert(times[k] == rest[k - 1]);
        }
    }
}

} // verus!
