//! Touch detection for the scdaemon proxy: which lines start and end a
//! touch-requiring operation, and the state machine that decides when the
//! alert starts and stops. The proxy's threads read and forward the lines and
//! keep the time; each decision is made here.
use vstd::prelude::*;
use vstd::string::*;
use vstd::utf8::{decode_utf8, valid_utf8};

use crate::event::Event;
use crate::sound::GRACE_PERIOD_MS;
use crate::text::{chars_of, has_prefix_in, trim, trim_bounds, trim_str};

verus! {

/// The full Unicode upper-case mapping of `s`, as `str::to_uppercase` computes it.
pub uninterp spec fn uppercased(s: Seq<char>) -> Seq<char>;

/// The characters that `String::from_utf8_lossy` decodes from `bytes`.
pub uninterp spec fn utf8_lossy(bytes: Seq<u8>) -> Seq<char>;

/// Calls `str::to_uppercase`; its result is named `uppercased` of the
/// argument's characters, and nothing more is claimed of it.
#[verifier::external_body]
fn to_uppercase(s: &str) -> (r: String)
    ensures
        r@ == uppercased(s@),
{
    s.to_uppercase()
}

/// Calls `String::from_utf8_lossy`; its result is named `utf8_lossy` of the
/// bytes, and, as its documentation states, bytes that are valid UTF-8 decode
/// to the characters they encode. What it makes of invalid bytes is not stated.
#[verifier::external_body]
pub(crate) fn from_utf8_lossy(bytes: &[u8]) -> (r: String)
    ensures
        r@ == utf8_lossy(bytes@),
        valid_utf8(bytes@) ==> r@ == decode_utf8(bytes@),
{
    String::from_utf8_lossy(bytes).into_owned()
}

/// Whether upper-cased text begins with one of the commands that need a touch.
pub open spec fn has_touch_command_prefix(upper: Seq<char>) -> bool {
    ||| "PKSIGN"@.is_prefix_of(upper)
    ||| "PKDECRYPT"@.is_prefix_of(upper)
    ||| "PKAUTH"@.is_prefix_of(upper)
}

/// Whether a line from gpg-agent is a command that needs a touch: trimmed and
/// upper-cased, it begins with `PKSIGN`, `PKDECRYPT` or `PKAUTH`.
pub open spec fn is_touch_line(line: Seq<char>) -> bool {
    has_touch_command_prefix(uppercased(trim(line)))
}

/// Whether a line from scdaemon ends an operation, and with which outcome:
/// trimmed, a line beginning with `OK` ends it in success, one beginning with
/// `ERR` in failure.
pub open spec fn completion_of(line: Seq<char>) -> Option<bool> {
    let t = trim(line);
    if "OK"@.is_prefix_of(t) {
        Some(true)
    } else if "ERR"@.is_prefix_of(t) {
        Some(false)
    } else {
        None
    }
}

/// `s` without any trailing `c`.
pub open spec fn trim_end_char(s: Seq<char>, c: char) -> Seq<char>
    decreases s.len(),
{
    if s.len() > 0 && s.last() == c {
        trim_end_char(s.drop_last(), c)
    } else {
        s
    }
}

/// A line's text without its line ending: any trailing newlines, then any
/// trailing carriage returns, removed.
pub open spec fn without_line_ending(text: Seq<char>) -> Seq<char> {
    trim_end_char(trim_end_char(text, '\n'), '\r')
}

/// The text of a line as read: its bytes decoded, without its line ending.
pub open spec fn received_line(bytes: Seq<u8>) -> Seq<char> {
    without_line_ending(utf8_lossy(bytes))
}

/// Whether upper-cased text begins with a command that needs a touch.
pub fn has_touch_prefix(upper: &str) -> (r: bool)
    ensures
        r == has_touch_command_prefix(upper@),
{
    let cs = chars_of(upper);
    assert(cs@.subrange(0, cs.len() as int) =~= upper@);
    has_prefix_in(&cs, 0, cs.len(), "PKSIGN") || has_prefix_in(&cs, 0, cs.len(), "PKDECRYPT")
        || has_prefix_in(&cs, 0, cs.len(), "PKAUTH")
}

/// Returns true if the line is a command that requires a YubiKey touch.
pub fn is_touch_command(line: &str) -> (r: bool)
    ensures
        r == is_touch_line(line@),
{
    let t = trim_str(line);
    let upper = to_uppercase(t.as_str());
    has_touch_prefix(upper.as_str())
}

/// Whether the line is a completion response from scdaemon, and its outcome.
pub fn is_completion(line: &str) -> (r: Option<bool>)
    ensures
        r == completion_of(line@),
{
    let cs = chars_of(line);
    let (lo, hi) = trim_bounds(&cs);
    if has_prefix_in(&cs, lo, hi, "OK") {
        Some(true)
    } else if has_prefix_in(&cs, lo, hi, "ERR") {
        Some(false)
    } else {
        None
    }
}

/// The end of `cs[..end]` once trailing `c` are removed.
fn trim_end_char_bound(cs: &Vec<char>, end: usize, c: char) -> (r: usize)
    requires
        end <= cs.len(),
    ensures
        r <= end,
        cs@.take(r as int) == trim_end_char(cs@.take(end as int), c),
{
    let mut k = end;
    while k > 0 && cs[k - 1] == c
        invariant
            k <= end <= cs.len(),
            trim_end_char(cs@.take(end as int), c) == trim_end_char(cs@.take(k as int), c),
        decreases k,
    {
        assert(cs@.take(k as int).drop_last() =~= cs@.take(k - 1));
        k = k - 1;
    }
    k
}

/// A decoded line without its line ending.
pub fn strip_line_ending(text: &str) -> (r: String)
    ensures
        r@ == without_line_ending(text@),
{
    let cs = chars_of(text);
    assert(cs@.take(cs.len() as int) =~= cs@);
    let a = trim_end_char_bound(&cs, cs.len(), '\n');
    let b = trim_end_char_bound(&cs, a, '\r');
    assert(cs@.take(b as int) =~= cs@.subrange(0, b as int));
    String::from_str(text.substring_char(0, b))
}

/// Decode a line read from either side, dropping its line ending.
pub fn decode_line(bytes: &[u8]) -> (r: String)
    ensures
        r@ == received_line(bytes@),
        valid_utf8(bytes@) ==> r@ == without_line_ending(decode_utf8(bytes@)),
{
    let text = from_utf8_lossy(bytes);
    strip_line_ending(text.as_str())
}

/// Where a touch-requiring operation stands.
enum TouchState {
    /// No touch operation in progress.
    Idle,
    /// A touch command was seen at `since_ms`; the alert waits for the grace period.
    Pending { since_ms: u64, command: String },
    /// The grace period passed and the alert is on.
    Alerting,
}

/// The touch state as a value.
pub enum TouchPhase {
    Idle,
    Pending { since_ms: u64, command: Seq<char> },
    Alerting,
}

/// The state of one proxy session.
pub struct ProxyState {
    touch: TouchState,
}

impl View for ProxyState {
    type V = TouchPhase;

    closed spec fn view(&self) -> TouchPhase {
        match self.touch {
            TouchState::Idle => TouchPhase::Idle,
            TouchState::Pending { since_ms, command } => TouchPhase::Pending {
                since_ms,
                command: command@,
            },
            TouchState::Alerting => TouchPhase::Alerting,
        }
    }
}

/// What the proxy must do after a decision.
pub enum ProxyAction {
    /// Report `Event::TouchRequired` with the command and start the alert.
    StartAlert { command: String },
    /// Report `Event::TouchCompleted`, stop the alert if it is on, and play
    /// the completion sound when the alert was on.
    Finish { success: bool, alert_was_active: bool },
}

impl ProxyAction {
    /// The event that reports this action.
    pub fn event(&self) -> (r: Event)
        ensures
            match self {
                ProxyAction::StartAlert { command } => r matches Event::TouchRequired { command: c }
                    && c@ == command@,
                ProxyAction::Finish { success, .. } => r == (Event::TouchCompleted {
                    success: *success,
                }),
            },
    {
        match self {
            ProxyAction::StartAlert { command } => Event::TouchRequired { command: command.clone() },
            ProxyAction::Finish { success, .. } => Event::TouchCompleted { success: *success },
        }
    }
}

/// The state after a line from gpg-agent at time `now`: a touch command
/// starts the grace period when nothing is in progress, and nothing else
/// changes the state.
pub open spec fn after_agent_line(s: TouchPhase, line: Seq<char>, now: u64) -> TouchPhase {
    if s is Idle && is_touch_line(line) {
        TouchPhase::Pending { since_ms: now, command: trim(line) }
    } else {
        s
    }
}

/// Whether the grace period of a pending operation has run out at `now`.
pub open spec fn alert_due(s: TouchPhase, now: u64) -> bool {
    match s {
        TouchPhase::Pending { since_ms, .. } => now >= since_ms + GRACE_PERIOD_MS,
        _ => false,
    }
}

/// The state at time `now`: a pending operation whose grace period has run
/// out turns into an alert.
pub open spec fn after_tick(s: TouchPhase, now: u64) -> TouchPhase {
    if alert_due(s, now) {
        TouchPhase::Alerting
    } else {
        s
    }
}

/// The state after a line from scdaemon: a completion ends an operation in
/// progress, and nothing else changes the state.
pub open spec fn after_scd_line(s: TouchPhase, line: Seq<char>) -> TouchPhase {
    if !(s is Idle) && completion_of(line) is Some {
        TouchPhase::Idle
    } else {
        s
    }
}

/// The milliseconds left before the alert of a pending operation is due at
/// `now` (none when no operation is pending), at most `u64::MAX`.
pub open spec fn millis_left(s: TouchPhase, now: u64) -> Option<u64> {
    match s {
        TouchPhase::Pending { since_ms, .. } => {
            let left = since_ms + GRACE_PERIOD_MS - now;
            Some(
                if left <= 0 {
                    0u64
                } else if left > u64::MAX {
                    u64::MAX
                } else {
                    left as u64
                },
            )
        },
        _ => None,
    }
}

impl ProxyState {
    /// A session with no touch operation in progress.
    pub fn new() -> (r: ProxyState)
        ensures
            r@ == TouchPhase::Idle,
    {
        ProxyState { touch: TouchState::Idle }
    }

    /// Whether a touch operation is pending or alerting.
    pub fn is_pending_or_alerting(&self) -> (r: bool)
        ensures
            r == !(self@ is Idle),
    {
        match self.touch {
            TouchState::Idle => false,
            _ => true,
        }
    }

    /// Take a line from gpg-agent, seen at `now_ms`. Returns whether it
    /// started the grace period of a touch operation.
    pub fn on_agent_line(&mut self, line: &str, now_ms: u64) -> (started: bool)
        ensures
            final(self)@ == after_agent_line(old(self)@, line@, now_ms),
            started == (old(self)@ is Idle && is_touch_line(line@)),
    {
        if is_touch_command(line) && !self.is_pending_or_alerting() {
            self.touch = TouchState::Pending { since_ms: now_ms, command: trim_str(line) };
            true
        } else {
            false
        }
    }

    /// The milliseconds until the alert of a pending operation is due.
    pub fn millis_until_alert(&self, now_ms: u64) -> (r: Option<u64>)
        ensures
            r == millis_left(self@, now_ms),
    {
        match &self.touch {
            TouchState::Pending { since_ms, .. } => {
                let since = *since_ms;
                if now_ms >= since && now_ms - since >= GRACE_PERIOD_MS {
                    Some(0)
                } else if now_ms >= since {
                    Some(GRACE_PERIOD_MS - (now_ms - since))
                } else if since - now_ms > u64::MAX - GRACE_PERIOD_MS {
                    Some(u64::MAX)
                } else {
                    Some(since - now_ms + GRACE_PERIOD_MS)
                }
            },
            _ => None,
        }
    }

    /// Take the time `now_ms`: when the grace period of a pending operation
    /// has run out, the alert starts.
    pub fn on_tick(&mut self, now_ms: u64) -> (r: Option<ProxyAction>)
        ensures
            final(self)@ == after_tick(old(self)@, now_ms),
            action_record(r) == record_of(old(self)@, ProxyInput::Tick { now: now_ms }),
            match r {
                Some(a) => {
                    &&& alert_due(old(self)@, now_ms)
                    &&& a matches ProxyAction::StartAlert { command }
                    &&& old(self)@ matches TouchPhase::Pending { command: c, .. }
                    &&& a->command@ == c
                },
                None => !alert_due(old(self)@, now_ms),
            },
    {
        let due = match &self.touch {
            TouchState::Pending { since_ms, .. } => now_ms >= *since_ms && now_ms - *since_ms
                >= GRACE_PERIOD_MS,
            _ => false,
        };
        if !due {
            return None;
        }
        let mut old_touch = TouchState::Alerting;
        std::mem::swap(&mut old_touch, &mut self.touch);
        match old_touch {
            TouchState::Pending { command, .. } => Some(ProxyAction::StartAlert { command }),
            _ => None,
        }
    }

    /// Take a line from scdaemon: a completion ends the operation in progress.
    pub fn on_scd_line(&mut self, line: &str) -> (r: Option<ProxyAction>)
        ensures
            final(self)@ == after_scd_line(old(self)@, line@),
            action_record(r) == record_of(old(self)@, ProxyInput::ScdLine { line: line@ }),
            match r {
                Some(a) => !(old(self)@ is Idle) && completion_of(line@) is Some && a
                    == (ProxyAction::Finish {
                    success: completion_of(line@)->0,
                    alert_was_active: old(self)@ is Alerting,
                }),
                None => old(self)@ is Idle || completion_of(line@) is None,
            },
    {
        if !self.is_pending_or_alerting() {
            return None;
        }
        match is_completion(line) {
            Some(success) => {
                let was_alerting = match self.touch {
                    TouchState::Alerting => true,
                    _ => false,
                };
                self.touch = TouchState::Idle;
                Some(ProxyAction::Finish { success, alert_was_active: was_alerting })
            },
            None => None,
        }
    }

    /// scdaemon disconnected: the session ends, and an alert that was on ends
    /// in failure.
    pub fn on_scd_closed(&mut self) -> (r: Option<ProxyAction>)
        ensures
            final(self)@ == TouchPhase::Idle,
            action_record(r) == record_of(old(self)@, ProxyInput::ScdClosed),
            match r {
                Some(a) => old(self)@ is Alerting && a == (ProxyAction::Finish {
                    success: false,
                    alert_was_active: true,
                }),
                None => !(old(self)@ is Alerting),
            },
    {
        let was_alerting = match self.touch {
            TouchState::Alerting => true,
            _ => false,
        };
        self.touch = TouchState::Idle;
        if was_alerting {
            Some(ProxyAction::Finish { success: false, alert_was_active: true })
        } else {
            None
        }
    }
}

/// When scdaemon answers a touch command within the grace period, no alert
/// fires: up to the answer the operation stays pending, the answer ends it,
/// and an idle session never alerts.
pub proof fn lemma_fast_reply_never_alerts(cmd: Seq<char>, sent: u64, now: u64, reply: Seq<char>)
    requires
        is_touch_line(cmd),
        now < sent + GRACE_PERIOD_MS,
        completion_of(reply) is Some,
    ensures
        ({
            let pending = after_agent_line(TouchPhase::Idle, cmd, sent);
            &&& pending is Pending
            &&& !alert_due(pending, now)
            &&& after_tick(pending, now) == pending
            &&& after_scd_line(after_tick(pending, now), reply) == TouchPhase::Idle
            &&& forall|later: u64| !alert_due(TouchPhase::Idle, later)
        }),
{
}

/// When a touch command gets no answer for the grace period, the alert
/// starts, and the answer that finally comes ends it.
pub proof fn lemma_slow_reply_alerts(cmd: Seq<char>, sent: u64, now: u64, reply: Seq<char>)
    requires
        is_touch_line(cmd),
        now >= sent + GRACE_PERIOD_MS,
        completion_of(reply) is Some,
    ensures
        ({
            let pending = after_agent_line(TouchPhase::Idle, cmd, sent);
            &&& alert_due(pending, now)
            &&& after_tick(pending, now) == TouchPhase::Alerting
            &&& after_scd_line(TouchPhase::Alerting, reply) == TouchPhase::Idle
        }),
{
}

/// A second touch command while one is pending or alerting changes nothing:
/// the grace period keeps running from the first.
pub proof fn lemma_busy_session_ignores_commands(s: TouchPhase, line: Seq<char>, now: u64)
    requires
        !(s is Idle),
    ensures
        after_agent_line(s, line, now) == s,
{
}

/// One step of a proxy session, as the session's threads observe it.
pub enum ProxyInput {
    /// A line from gpg-agent, read at `now`.
    AgentLine { line: Seq<char>, now: u64 },
    /// The clock reads `now`.
    Tick { now: u64 },
    /// A line from scdaemon.
    ScdLine { line: Seq<char> },
    /// scdaemon closed its side.
    ScdClosed,
}

/// What the log of a session shows for one step.
pub enum SessionRecord {
    /// The session began (`Event::ProxyStarted`).
    Started,
    /// Nothing to report.
    Quiet,
    /// A touch command was forwarded to scdaemon.
    TouchCommand,
    /// `Event::TouchRequired` was reported and the alert started.
    TouchRequired { command: Seq<char> },
    /// `Event::TouchCompleted` was reported.
    TouchCompleted { success: bool },
}

/// The state after one step.
pub open spec fn next_phase(s: TouchPhase, input: ProxyInput) -> TouchPhase {
    match input {
        ProxyInput::AgentLine { line, now } => after_agent_line(s, line, now),
        ProxyInput::Tick { now } => after_tick(s, now),
        ProxyInput::ScdLine { line } => after_scd_line(s, line),
        ProxyInput::ScdClosed => TouchPhase::Idle,
    }
}

/// What one step from state `s` shows in the log.
pub open spec fn record_of(s: TouchPhase, input: ProxyInput) -> SessionRecord {
    match input {
        ProxyInput::AgentLine { line, .. } => if is_touch_line(line) {
            SessionRecord::TouchCommand
        } else {
            SessionRecord::Quiet
        },
        ProxyInput::Tick { now } => match s {
            TouchPhase::Pending { command, .. } => if alert_due(s, now) {
                SessionRecord::TouchRequired { command }
            } else {
                SessionRecord::Quiet
            },
            _ => SessionRecord::Quiet,
        },
        ProxyInput::ScdLine { line } => if !(s is Idle) && completion_of(line) is Some {
            SessionRecord::TouchCompleted { success: completion_of(line)->0 }
        } else {
            SessionRecord::Quiet
        },
        ProxyInput::ScdClosed => if s is Alerting {
            SessionRecord::TouchCompleted { success: false }
        } else {
            SessionRecord::Quiet
        },
    }
}

/// What an action of the state machine shows in the log.
pub open spec fn action_record(a: Option<ProxyAction>) -> SessionRecord {
    match a {
        Some(ProxyAction::StartAlert { command }) => SessionRecord::TouchRequired { command: command@ },
        Some(ProxyAction::Finish { success, .. }) => SessionRecord::TouchCompleted { success },
        None => SessionRecord::Quiet,
    }
}

/// The state of a session after its first `n` steps.
pub open spec fn phase_after(inputs: Seq<ProxyInput>, n: nat) -> TouchPhase
    decreases n,
{
    if n == 0 || n > inputs.len() {
        TouchPhase::Idle
    } else {
        next_phase(phase_after(inputs, (n - 1) as nat), inputs[n - 1])
    }
}

/// What step `i` of a session shows in the log.
pub open spec fn step_record(inputs: Seq<ProxyInput>, i: int) -> SessionRecord {
    record_of(phase_after(inputs, i as nat), inputs[i])
}

/// The log of a whole session: its start, then one record per step.
pub open spec fn session_log(inputs: Seq<ProxyInput>) -> Seq<SessionRecord> {
    seq![SessionRecord::Started] + Seq::new(inputs.len(), |i: int| step_record(inputs, i))
}

/// Once alerting, a session leaves the alert only through a reported completion.
proof fn lemma_alert_ends_with_completion(inputs: Seq<ProxyInput>, a: nat, b: nat)
    requires
        a < b <= inputs.len(),
        phase_after(inputs, a) is Alerting,
        !(phase_after(inputs, b) is Alerting),
    ensures
        exists|k: int| a <= k < b && (#[trigger] step_record(inputs, k)) is TouchCompleted,
    decreases b,
{
    let prev = (b - 1) as nat;
    if phase_after(inputs, prev) is Alerting {
        assert(step_record(inputs, prev as int) is TouchCompleted);
    } else {
        lemma_alert_ends_with_completion(inputs, a, prev);
    }
}

/// A busy session became busy through a touch command, with no completion since.
proof fn lemma_busy_since_command(inputs: Seq<ProxyInput>, n: nat)
    requires
        n <= inputs.len(),
        !(phase_after(inputs, n) is Idle),
    ensures
        exists|i: int|
            0 <= i < n && (#[trigger] step_record(inputs, i)) is TouchCommand && forall|k: int|
                i < k < n ==> !(#[trigger] step_record(inputs, k) is TouchCompleted),
    decreases n,
{
    let prev = (n - 1) as nat;
    if phase_after(inputs, prev) is Idle {
        assert(step_record(inputs, prev as int) is TouchCommand);
        assert(forall|k: int| prev < k < n ==> !(#[trigger] step_record(inputs, k) is TouchCompleted));
    } else {
        lemma_busy_since_command(inputs, prev);
        let i = choose|i: int|
            0 <= i < prev && (#[trigger] step_record(inputs, i)) is TouchCommand && forall|k: int|
                i < k < prev ==> !(#[trigger] step_record(inputs, k) is TouchCompleted);
        assert(!(step_record(inputs, prev as int) is TouchCompleted));
        assert forall|k: int| i < k < n implies !(#[trigger] step_record(inputs, k) is TouchCompleted) by {
            if k < prev {
            }
        }
    }
}

/// The order of a session's log, whatever its steps: the session's start
/// comes first and only once; between two reports that a touch is required
/// there is a report of a completion; and every completion follows a touch
/// command forwarded since the previous completion.
pub proof fn lemma_session_event_order(inputs: Seq<ProxyInput>)
    ensures
        ({
            let log = session_log(inputs);
            &&& log[0] is Started
            &&& forall|i: int| 1 <= i < log.len() ==> !(#[trigger] log[i] is Started)
            &&& forall|i: int, j: int|
                0 <= i < j < log.len() && (#[trigger] log[i]) is TouchRequired
                    && (#[trigger] log[j]) is TouchRequired ==> exists|k: int|
                    i < k < j && (#[trigger] log[k]) is TouchCompleted
            &&& forall|j: int|
                0 <= j < log.len() && (#[trigger] log[j]) is TouchCompleted ==> exists|i: int|
                    0 <= i < j && (#[trigger] log[i]) is TouchCommand && forall|k: int|
                        i < k < j ==> !(#[trigger] log[k] is TouchCompleted)
        }),
{
    let log = session_log(inputs);
    assert forall|i: int| 1 <= i < log.len() implies log[i] == step_record(inputs, i - 1) by {}
    assert forall|i: int| 1 <= i < log.len() implies !(#[trigger] log[i] is Started) by {
        assert(log[i] == step_record(inputs, i - 1));
    }
    assert forall|i: int, j: int|
        0 <= i < j < log.len() && (#[trigger] log[i]) is TouchRequired
            && (#[trigger] log[j]) is TouchRequired implies exists|k: int|
            i < k < j && (#[trigger] log[k]) is TouchCompleted by {
        let a = i - 1;
        let b = j - 1;
        assert(log[i] == step_record(inputs, a));
        assert(log[j] == step_record(inputs, b));
        assert(phase_after(inputs, (a + 1) as nat) is Alerting);
        assert(phase_after(inputs, b as nat) is Pending);
        lemma_alert_ends_with_completion(inputs, (a + 1) as nat, b as nat);
        let k = choose|k: int| a + 1 <= k < b && (#[trigger] step_record(inputs, k)) is TouchCompleted;
        assert(log[k + 1] == step_record(inputs, k));
    }
    assert forall|j: int|
        0 <= j < log.len() && (#[trigger] log[j]) is TouchCompleted implies exists|i: int|
            0 <= i < j && (#[trigger] log[i]) is TouchCommand && forall|k: int|
                i < k < j ==> !(#[trigger] log[k] is TouchCompleted) by {
        let b = j - 1;
        assert(log[j] == step_record(inputs, b));
        assert(!(phase_after(inputs, b as nat) is Idle));
        lemma_busy_since_command(inputs, b as nat);
        let c = choose|c: int|
            0 <= c < b && (#[trigger] step_record(inputs, c)) is TouchCommand && forall|k: int|
                c < k < b ==> !(#[trigger] step_record(inputs, k) is TouchCompleted);
        assert(log[c + 1] == step_record(inputs, c));
        assert forall|k: int| c + 1 < k < j implies !(#[trigger] log[k] is TouchCompleted) by {
            assert(log[k] == step_record(inputs, k - 1));
        }
    }
}

/// The time left before an alert counts down with the clock: once the grace
/// period of a pending operation has run out it is zero, so the alert is due
/// at once; before that it is exactly the time until the deadline (capped at
/// `u64::MAX`); it never grows as the clock advances; and a session with
/// nothing pending has no deadline.
pub proof fn lemma_time_left_until_alert(s: TouchPhase, now: u64, later: u64)
    ensures
        match s {
            TouchPhase::Pending { since_ms, .. } => {
                &&& now >= since_ms + GRACE_PERIOD_MS ==> millis_left(s, now) == Some(0u64)
                &&& now < since_ms + GRACE_PERIOD_MS ==> (millis_left(s, now) is Some
                    && millis_left(s, now)->0 > 0 && (millis_left(s, now)->0 == u64::MAX || now
                    + millis_left(s, now)->0 == since_ms + GRACE_PERIOD_MS))
                &&& (millis_left(s, now) == Some(0u64) <==> alert_due(s, now))
                &&& now <= later ==> millis_left(s, later)->0 <= millis_left(s, now)->0
            },
            _ => millis_left(s, now) is None && !alert_due(s, now),
        },
{
}

/// Only `OK` and `ERR` lines end an operation: a line from scdaemon is a
/// completion exactly when its trimmed text begins with `OK` (success) or
/// `ERR` (failure), and any other line (an `INQUIRE`, `D`, `S` or comment
/// line) leaves the session as it is.
pub proof fn lemma_only_ok_and_err_complete(s: TouchPhase, line: Seq<char>)
    ensures
        completion_of(line) == Some(true) <==> "OK"@.is_prefix_of(trim(line)),
        completion_of(line) == Some(false) <==> !"OK"@.is_prefix_of(trim(line))
            && "ERR"@.is_prefix_of(trim(line)),
        completion_of(line) is Some ==> trim(line).len() >= 2 && (trim(line)[0] == 'O' && trim(
            line,
        )[1] == 'K' || trim(line)[0] == 'E' && trim(line)[1] == 'R'),
        !"OK"@.is_prefix_of(trim(line)) && !"ERR"@.is_prefix_of(trim(line)) ==> after_scd_line(
            s,
            line,
        ) == s,
{
    reveal_strlit("OK");
    reveal_strlit("ERR");
    if completion_of(line) is Some {
        let t = trim(line);
        if "OK"@.is_prefix_of(t) {
            assert(t[0] == "OK"@[0] && t[1] == "OK"@[1]);
        } else {
            assert(t[0] == "ERR"@[0] && t[1] == "ERR"@[1]);
        }
    }
}

/// Only the three commands need a touch: upper-cased text counts as a touch
/// command exactly when it begins with `PKSIGN`, `PKDECRYPT` or `PKAUTH`, so
/// it always begins with `PK`; a line is a touch line exactly when its
/// trimmed, upper-cased text does; a line such as `SETDATA`, `SERIALNO`,
/// `GETATTR` or `LEARN` is no touch line.
pub proof fn lemma_only_pk_commands_need_touch(upper: Seq<char>, line: Seq<char>)
    ensures
        has_touch_command_prefix(upper) <==> ("PKSIGN"@.is_prefix_of(upper) || "PKDECRYPT"@.is_prefix_of(
            upper,
        ) || "PKAUTH"@.is_prefix_of(upper)),
        has_touch_command_prefix(upper) ==> upper.len() >= 6 && upper[0] == 'P' && upper[1] == 'K',
        is_touch_line(line) <==> ("PKSIGN"@.is_prefix_of(uppercased(trim(line)))
            || "PKDECRYPT"@.is_prefix_of(uppercased(trim(line))) || "PKAUTH"@.is_prefix_of(
            uppercased(trim(line)),
        )),
        is_touch_line(line) ==> uppercased(trim(line)).len() >= 6 && uppercased(trim(line))[0]
            == 'P' && uppercased(trim(line))[1] == 'K',
{
    reveal_strlit("PKSIGN");
    reveal_strlit("PKDECRYPT");
    reveal_strlit("PKAUTH");
    let u = uppercased(trim(line));
    if has_touch_command_prefix(upper) {
        if "PKSIGN"@.is_prefix_of(upper) {
            assert(upper[0] == "PKSIGN"@[0] && upper[1] == "PKSIGN"@[1]);
        } else if "PKDECRYPT"@.is_prefix_of(upper) {
            assert(upper[0] == "PKDECRYPT"@[0] && upper[1] == "PKDECRYPT"@[1]);
        } else {
            assert(upper[0] == "PKAUTH"@[0] && upper[1] == "PKAUTH"@[1]);
        }
    }
    if is_touch_line(line) {
        if "PKSIGN"@.is_prefix_of(u) {
            assert(u[0] == "PKSIGN"@[0] && u[1] == "PKSIGN"@[1]);
        } else if "PKDECRYPT"@.is_prefix_of(u) {
            assert(u[0] == "PKDECRYPT"@[0] && u[1] == "PKDECRYPT"@[1]);
        } else {
            assert(u[0] == "PKAUTH"@[0] && u[1] == "PKAUTH"@[1]);
        }
    }
}

} // verus!
