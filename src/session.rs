//! Session orchestrator: topic names, inbound command parsing, and the per-tick decisions of
//! the protocol session (resubscription and state telemetry).
use vstd::prelude::*;
use vstd::string::StringSliceAdditionalSpecFns;
use crate::reconciler::TargetState;
use crate::tracker::{DeviceState, PowerLevel, elapsed};

verus! {

/// Full topic names, all under one prefix.
pub struct MqttTopics {
    pub cmd: Vec<u8>,
    pub log: Vec<u8>,
    pub set: Vec<u8>,
    pub state: Vec<u8>,
}

pub open spec fn suffix_cmd() -> Seq<u8> {
    "/cmd".spec_bytes()
}

pub open spec fn suffix_log() -> Seq<u8> {
    "/log".spec_bytes()
}

pub open spec fn suffix_set() -> Seq<u8> {
    "/set".spec_bytes()
}

pub open spec fn suffix_state() -> Seq<u8> {
    "/state".spec_bytes()
}

pub open spec fn word_off() -> Seq<u8> {
    "off".spec_bytes()
}

pub open spec fn word_low() -> Seq<u8> {
    "low".spec_bytes()
}

pub open spec fn word_medium() -> Seq<u8> {
    "medium".spec_bytes()
}

pub open spec fn word_high() -> Seq<u8> {
    "high".spec_bytes()
}

/// The start of a ping command: `ping ` with a trailing space.
pub open spec fn word_ping() -> Seq<u8> {
    "ping ".spec_bytes()
}

pub open spec fn text_pong() -> Seq<u8> {
    "Pong: ".spec_bytes()
}

pub open spec fn text_unknown_set() -> Seq<u8> {
    "unknown set: ".spec_bytes()
}

pub open spec fn text_unknown_cmd() -> Seq<u8> {
    "unknown cmd: ".spec_bytes()
}

pub open spec fn text_unknown_topic() -> Seq<u8> {
    "unknown topic: ".spec_bytes()
}

/// `a` followed by `b`.
fn concat(a: &[u8], b: &[u8]) -> (r: Vec<u8>)
    ensures
        r@ == a@ + b@,
{
    let mut r: Vec<u8> = Vec::new();
    let mut i: usize = 0;
    while i < a.len()
        invariant
            0 <= i <= a@.len(),
            r@ == a@.take(i as int),
        decreases a@.len() - i,
    {
        r.push(a[i]);
        i = i + 1;
        assert(r@ == a@.take(i as int));
    }
    assert(a@.take(a@.len() as int) == a@);
    let mut j: usize = 0;
    while j < b.len()
        invariant
            0 <= j <= b@.len(),
            r@ == a@ + b@.take(j as int),
        decreases b@.len() - j,
    {
        r.push(b[j]);
        j = j + 1;
        assert(r@ == a@ + b@.take(j as int));
    }
    assert(b@.take(b@.len() as int) == b@);
    r
}

/// Whether `a` starts with `p`.
fn starts_with(a: &[u8], p: &[u8]) -> (r: bool)
    ensures
        r == (p@.len() <= a@.len() && a@.take(p@.len() as int) == p@),
{
    if p.len() > a.len() {
        return false;
    }
    let mut i: usize = 0;
    while i < p.len()
        invariant
            p@.len() <= a@.len(),
            0 <= i <= p@.len(),
            a@.take(i as int) == p@.take(i as int),
        decreases p@.len() - i,
    {
        if a[i] != p[i] {
            assert(a@.take(p@.len() as int)[i as int] != p@[i as int]);
            return false;
        }
        i = i + 1;
        assert(a@.take(i as int) == p@.take(i as int));
    }
    assert(p@.take(p@.len() as int) == p@);
    true
}

/// Whether `a` and `b` hold the same bytes.
fn bytes_eq(a: &[u8], b: &[u8]) -> (r: bool)
    ensures
        r == (a@ == b@),
{
    if a.len() != b.len() {
        return false;
    }
    let r = starts_with(a, b);
    proof {
        assert(a@.take(b@.len() as int) == a@);
    }
    r
}

/// The bytes of `a` from index `start` on.
fn tail(a: &[u8], start: usize) -> (r: Vec<u8>)
    requires
        start <= a@.len(),
    ensures
        r@ == a@.skip(start as int),
{
    let mut r: Vec<u8> = Vec::new();
    let mut i: usize = start;
    while i < a.len()
        invariant
            start <= i <= a@.len(),
            r@ == a@.subrange(start as int, i as int),
        decreases a@.len() - i,
    {
        r.push(a[i]);
        i = i + 1;
        assert(r@ == a@.subrange(start as int, i as int));
    }
    r
}

impl MqttTopics {
    pub open spec fn named(self, prefix: Seq<u8>) -> bool {
        &&& self.cmd@ == prefix + suffix_cmd()
        &&& self.log@ == prefix + suffix_log()
        &&& self.set@ == prefix + suffix_set()
        &&& self.state@ == prefix + suffix_state()
    }

    /// The four topics under `prefix`: `<prefix>/cmd`, `/log`, `/set` and `/state`.
    pub fn new(prefix: &[u8]) -> (r: MqttTopics)
        requires
            prefix@.len() + 6 <= usize::MAX,
        ensures
            r.named(prefix@),
    {
        let cmd: &[u8] = "/cmd".as_bytes();
        let log: &[u8] = "/log".as_bytes();
        let set: &[u8] = "/set".as_bytes();
        let state: &[u8] = "/state".as_bytes();
        MqttTopics {
            cmd: concat(prefix, cmd),
            log: concat(prefix, log),
            set: concat(prefix, set),
            state: concat(prefix, state),
        }
    }
}

/// A command that the device can receive over the message bus.
#[derive(Debug, Clone, Copy, PartialEq, Eq, Structural)]
pub enum MqttCommand {
    Unknown,
    SetTarget(TargetState),
}

/// A parsed inbound message: the command, and the line to send to the log topic, if any.
pub struct Incoming {
    pub command: MqttCommand,
    pub log: Option<Vec<u8>>,
}

/// The target that a payload on the set topic asks for.
pub open spec fn set_command(msg: Seq<u8>) -> Option<TargetState> {
    if msg == word_off() {
        Some(TargetState::Off)
    } else if msg == word_low() {
        Some(TargetState::On(PowerLevel::Low))
    } else if msg == word_medium() {
        Some(TargetState::On(PowerLevel::Medium))
    } else if msg == word_high() {
        Some(TargetState::On(PowerLevel::High))
    } else {
        None
    }
}

/// The command in a message on `topic`.
pub open spec fn command_of(topic: Seq<u8>, msg: Seq<u8>, topics: MqttTopics) -> MqttCommand {
    if topic == topics.set@ {
        match set_command(msg) {
            Some(t) => MqttCommand::SetTarget(t),
            None => MqttCommand::Unknown,
        }
    } else {
        MqttCommand::Unknown
    }
}

/// The log line that a message on `topic` produces, if any.
pub open spec fn log_of(topic: Seq<u8>, msg: Seq<u8>, topics: MqttTopics) -> Option<Seq<u8>> {
    if topic == topics.set@ {
        match set_command(msg) {
            Some(_) => None,
            None => Some(text_unknown_set() + msg),
        }
    } else if topic == topics.cmd@ {
        if word_ping().len() <= msg.len() && msg.take(word_ping().len() as int) == word_ping() {
            Some(text_pong() + msg.skip(word_ping().len() as int))
        } else {
            Some(text_unknown_cmd() + msg)
        }
    } else {
        Some(text_unknown_topic() + topic)
    }
}

/// Converts a raw inbound message into a command, and the line it leaves in the log.
pub fn process_incoming(topic: &[u8], msg: &[u8], mqtt_topics: &MqttTopics) -> (r: Incoming)
    ensures
        r.command == command_of(topic@, msg@, *mqtt_topics),
        r.log matches Some(l) ==> log_of(topic@, msg@, *mqtt_topics) == Some(l@),
        r.log is None ==> log_of(topic@, msg@, *mqtt_topics) is None,
{
    if bytes_eq(topic, mqtt_topics.set.as_slice()) {
        let off: &[u8] = "off".as_bytes();
        let low: &[u8] = "low".as_bytes();
        let medium: &[u8] = "medium".as_bytes();
        let high: &[u8] = "high".as_bytes();
        let target = if bytes_eq(msg, off) {
            Some(TargetState::Off)
        } else if bytes_eq(msg, low) {
            Some(TargetState::On(PowerLevel::Low))
        } else if bytes_eq(msg, medium) {
            Some(TargetState::On(PowerLevel::Medium))
        } else if bytes_eq(msg, high) {
            Some(TargetState::On(PowerLevel::High))
        } else {
            None
        };
        match target {
            Some(t) => Incoming { command: MqttCommand::SetTarget(t), log: None },
            None => {
                let head: &[u8] = "unknown set: ".as_bytes();
                Incoming { command: MqttCommand::Unknown, log: Some(concat(head, msg)) }
            },
        }
    } else if bytes_eq(topic, mqtt_topics.cmd.as_slice()) {
        let ping: &[u8] = "ping ".as_bytes();
        if starts_with(msg, ping) {
            let head: &[u8] = "Pong: ".as_bytes();
            let payload = tail(msg, ping.len());
            Incoming {
                command: MqttCommand::Unknown,
                log: Some(concat(head, payload.as_slice())),
            }
        } else {
            let head: &[u8] = "unknown cmd: ".as_bytes();
            Incoming { command: MqttCommand::Unknown, log: Some(concat(head, msg)) }
        }
    } else {
        let head: &[u8] = "unknown topic: ".as_bytes();
        Incoming { command: MqttCommand::Unknown, log: Some(concat(head, topic)) }
    }
}

} // verus!

verus! {

/// Time after which the state is published again even if it did not change.
pub const STATE_UPDATE_PERIOD_MS: u64 = 60000;
/// Period of the session loop.
pub const TICK_MS: u64 = 1000;

/// What one poll of the protocol client gave.
#[derive(Debug, Clone, Copy, PartialEq, Eq, Structural)]
pub enum PollOutcome {
    /// No inbound message.
    Idle,
    /// An inbound message, parsed into a command.
    Command(MqttCommand),
    /// The broker dropped the session: subscriptions must be made again.
    SessionReset,
    /// Any other failure; logged locally and otherwise ignored.
    Failed,
}

/// Whether the state is due for publishing at `now`, given the last published one.
pub open spec fn should_publish_spec(
    last_at: u64,
    last_state: DeviceState,
    now: u64,
    state: DeviceState,
) -> bool {
    elapsed(last_at, now) > STATE_UPDATE_PERIOD_MS || (last_state != state && !(state is Unknown))
}

/// The part of the session that outlives a tick: whether subscriptions are due, and the
/// last state published with the time it was published.
pub struct Session {
    pub need_resubscribe: bool,
    pub last_published_at: u64,
    pub last_published_state: DeviceState,
}

impl Session {
    /// A session started at `now`: subscriptions are due, and the state counts as published
    /// as unknown at `now`.
    pub fn new(now: u64) -> (r: Session)
        ensures
            r.need_resubscribe,
            r.last_published_at == now,
            r.last_published_state == DeviceState::Unknown,
    {
        Session {
            need_resubscribe: true,
            last_published_at: now,
            last_published_state: DeviceState::Unknown,
        }
    }

    /// Takes in the outcome of a poll; returns the target to set, if the poll brought one.
    pub fn on_poll(&mut self, outcome: PollOutcome) -> (r: Option<TargetState>)
        ensures
            r == (match outcome {
                PollOutcome::Command(MqttCommand::SetTarget(t)) => Some(t),
                _ => None::<TargetState>,
            }),
            final(self).need_resubscribe == (old(self).need_resubscribe
                || outcome is SessionReset),
            final(self).last_published_at == old(self).last_published_at,
            final(self).last_published_state == old(self).last_published_state,
    {
        match outcome {
            PollOutcome::Command(MqttCommand::SetTarget(t)) => Some(t),
            PollOutcome::SessionReset => {
                self.need_resubscribe = true;
                None
            },
            _ => None,
        }
    }

    /// Takes in whether a subscription attempt succeeded; a failed one is retried later.
    pub fn on_subscribe(&mut self, succeeded: bool)
        ensures
            final(self).need_resubscribe == (old(self).need_resubscribe && !succeeded),
            final(self).last_published_at == old(self).last_published_at,
            final(self).last_published_state == old(self).last_published_state,
    {
        if succeeded {
            self.need_resubscribe = false;
        }
    }

    /// Whether `state`, read at `now`, is to be published: when the last publication is more
    /// than the update period old, or when the state changed to one that is not unknown.
    pub fn should_publish(&self, now: u64, state: DeviceState) -> (r: bool)
        ensures
            r == should_publish_spec(self.last_published_at, self.last_published_state, now, state),
    {
        let since: u64 = if now >= self.last_published_at {
            now - self.last_published_at
        } else {
            0
        };
        since > STATE_UPDATE_PERIOD_MS || (self.last_published_state != state && !matches!(
            state,
            DeviceState::Unknown
        ))
    }

    /// Records that `state` was published at `now`.
    pub fn on_published(&mut self, now: u64, state: DeviceState)
        ensures
            final(self).need_resubscribe == old(self).need_resubscribe,
            final(self).last_published_at == now,
            final(self).last_published_state == state,
    {
        self.last_published_at = now;
        self.last_published_state = state;
    }
}

/// State telemetry throttling: an unchanged state is published again only once more than
/// the update period has passed; a changed state is published at once unless it is
/// unknown, and an unknown one only once the period has passed.
pub proof fn lemma_publish_throttling(
    last_at: u64,
    last_state: DeviceState,
    now: u64,
    state: DeviceState,
)
    ensures
        state == last_state ==> (should_publish_spec(last_at, last_state, now, state) <==> elapsed(
            last_at,
            now,
        ) > STATE_UPDATE_PERIOD_MS),
        state != last_state && !(state is Unknown) ==> should_publish_spec(
            last_at,
            last_state,
            now,
            state,
        ),
        state is Unknown ==> (should_publish_spec(last_at, last_state, now, state) <==> elapsed(
            last_at,
            now,
        ) > STATE_UPDATE_PERIOD_MS),
{
}

} // verus!
