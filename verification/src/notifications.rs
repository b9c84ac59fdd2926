//! Debouncing of mail change events into resource-update notifications.
//!
//! The listener for one account receives change events from the mail
//! server's event stream.  Changes to mail, mail delivery or mailboxes mark a
//! notification as pending and restart a quiet period; when the quiet period
//! ends with a notification pending, one notification is sent.  The event
//! loop, the timer and the sending stay with the caller, which feeds each
//! outcome to [`Debouncer::step`] and performs the action it returns.
use vstd::prelude::*;
use crate::text::concat2;

verus! {

/// Seconds of quiet before a pending notification is sent.
pub const DEBOUNCE_SECS: u64 = 2;

/// Kinds of object whose state changed, as reported by the mail server.
#[derive(Debug, Clone, Copy, PartialEq, Eq, Structural)]
pub enum ChangeKind {
    Email,
    EmailDelivery,
    Mailbox,
    Other,
}

/// Whether a kind concerns mail.
pub open spec fn is_mail_kind(k: ChangeKind) -> bool {
    k == ChangeKind::Email || k == ChangeKind::EmailDelivery || k == ChangeKind::Mailbox
}

/// Whether a change set holds a change to mail, mail delivery or mailboxes.
pub fn is_mail_change(kinds: &[ChangeKind]) -> (r: bool)
    ensures
        r == exists|i: int| 0 <= i < kinds@.len() && is_mail_kind(#[trigger] kinds@[i]),
{
    let mut i: usize = 0;
    while i < kinds.len()
        invariant
            i <= kinds@.len(),
            forall|j: int| 0 <= j < i ==> !is_mail_kind(#[trigger] kinds@[j]),
        decreases kinds.len() - i,
    {
        let k = kinds[i];
        if k == ChangeKind::Email || k == ChangeKind::EmailDelivery || k == ChangeKind::Mailbox {
            return true;
        }
        i = i + 1;
    }
    false
}

/// What happened to the listener.
#[derive(Debug, Clone, Copy, PartialEq, Eq, Structural)]
pub enum ListenerEvent {
    /// A state change arrived; `mail` tells whether it concerns mail.
    StateChange { mail: bool },
    /// A calendar alert arrived.
    CalendarAlert,
    /// The event stream failed.
    StreamError,
    /// The event stream ended.
    StreamEnded,
    /// The quiet period ended.
    QuietPeriodOver,
    /// Sending a notification failed (the client went away).
    SendFailed,
}

/// What the listener is to do next.
#[derive(Debug, Clone, Copy, PartialEq, Eq, Structural)]
pub enum ListenerAction {
    /// Keep waiting.
    Wait,
    /// Restart the quiet period.
    RestartQuietPeriod,
    /// Send one resource-update notification.
    Notify,
    /// Stop listening.
    Stop,
}

/// Abstract state of the debouncer.
pub struct DebounceState {
    pub pending: bool,
    pub stopped: bool,
}

/// The transition of the debouncer on one event.
pub open spec fn next(s: DebounceState, e: ListenerEvent) -> (DebounceState, ListenerAction) {
    if s.stopped {
        (s, ListenerAction::Stop)
    } else {
        match e {
            ListenerEvent::StateChange { mail } => if mail {
                (DebounceState { pending: true, stopped: false }, ListenerAction::RestartQuietPeriod)
            } else {
                (s, ListenerAction::Wait)
            },
            ListenerEvent::CalendarAlert => (s, ListenerAction::Wait),
            ListenerEvent::StreamError => (DebounceState { pending: s.pending, stopped: true }, ListenerAction::Stop),
            ListenerEvent::StreamEnded => (DebounceState { pending: s.pending, stopped: true }, ListenerAction::Stop),
            ListenerEvent::QuietPeriodOver => if s.pending {
                (DebounceState { pending: false, stopped: false }, ListenerAction::Notify)
            } else {
                (s, ListenerAction::Wait)
            },
            ListenerEvent::SendFailed => (DebounceState { pending: s.pending, stopped: true }, ListenerAction::Stop),
        }
    }
}

/// The debouncer of one account's listener.
pub struct Debouncer {
    pending: bool,
    stopped: bool,
}

impl View for Debouncer {
    type V = DebounceState;

    closed spec fn view(&self) -> DebounceState {
        DebounceState { pending: self.pending, stopped: self.stopped }
    }
}

impl Debouncer {
    /// A listener with nothing pending.
    pub fn new() -> (d: Debouncer)
        ensures
            !d@.pending,
            !d@.stopped,
    {
        Debouncer { pending: false, stopped: false }
    }

    /// Whether a notification is pending (the quiet-period timer only
    /// matters then).
    pub fn is_pending(&self) -> (r: bool)
        ensures
            r == self@.pending,
    {
        self.pending
    }

    /// Takes one event and says what to do.
    pub fn step(&mut self, event: ListenerEvent) -> (a: ListenerAction)
        ensures
            (final(self)@, a) == next(old(self)@, event),
    {
        if self.stopped {
            return ListenerAction::Stop;
        }
        match event {
            ListenerEvent::StateChange { mail } => {
                if mail {
                    self.pending = true;
                    ListenerAction::RestartQuietPeriod
                } else {
                    ListenerAction::Wait
                }
            },
            ListenerEvent::CalendarAlert => ListenerAction::Wait,
            ListenerEvent::StreamError | ListenerEvent::StreamEnded | ListenerEvent::SendFailed => {
                self.stopped = true;
                ListenerAction::Stop
            },
            ListenerEvent::QuietPeriodOver => {
                if self.pending {
                    self.pending = false;
                    ListenerAction::Notify
                } else {
                    ListenerAction::Wait
                }
            },
        }
    }
}

/// The resource that a notification for `account` announces as updated.
pub fn inbox_resource_uri(account: &str) -> (r: String)
    ensures
        r@ == "stalwart://inbox/"@ + account@,
{
    concat2("stalwart://inbox/", account)
}

/// A notification is sent only when a mail change is pending and the quiet
/// period ends, and it clears the pending mark.
pub proof fn lemma_notify_only_when_pending(s: DebounceState, e: ListenerEvent)
    ensures
        next(s, e).1 == ListenerAction::Notify ==> s.pending && !s.stopped
            && e == ListenerEvent::QuietPeriodOver && !next(s, e).0.pending,
{
}

/// One burst of changes gives one notification: right after a notification,
/// the end of another quiet period sends nothing.
pub proof fn lemma_one_notification_per_burst(s: DebounceState)
    ensures
        next(s, ListenerEvent::QuietPeriodOver).1 == ListenerAction::Notify ==> next(
            next(s, ListenerEvent::QuietPeriodOver).0,
            ListenerEvent::QuietPeriodOver,
        ).1 == ListenerAction::Wait,
{
}

/// Changes that do not concern mail, and calendar alerts, change nothing.
pub proof fn lemma_other_events_ignored(s: DebounceState)
    ensures
        !s.stopped ==> next(s, ListenerEvent::StateChange { mail: false }) == (s, ListenerAction::Wait),
        !s.stopped ==> next(s, ListenerEvent::CalendarAlert) == (s, ListenerAction::Wait),
{
}

/// Once stopped, the listener stays stopped whatever happens.
pub proof fn lemma_stop_is_final(s: DebounceState, e: ListenerEvent)
    ensures
        s.stopped ==> next(s, e).0 == s && next(s, e).1 == ListenerAction::Stop,
        next(s, e).1 == ListenerAction::Stop ==> next(s, e).0.stopped,
{
}


/// States and actions of the debouncer over a sequence of events, from `s`.
pub open spec fn replay(s: DebounceState, events: Seq<ListenerEvent>) -> (DebounceState, Seq<ListenerAction>)
    decreases events.len(),
{
    if events.len() == 0 {
        (s, Seq::empty())
    } else {
        let prev = replay(s, events.drop_last());
        let last = next(prev.0, events.last());
        (last.0, prev.1.push(last.1))
    }
}

/// The state of a listener that has just started.
pub open spec fn fresh() -> DebounceState {
    DebounceState { pending: false, stopped: false }
}

/// Whether an event is a state change that concerns mail.
pub open spec fn is_mail_event(e: ListenerEvent) -> bool {
    e == ListenerEvent::StateChange { mail: true }
}

/// Event `j` is a mail change that came before position `i`, and no
/// notification was sent after it and before `i`.
pub open spec fn change_before(
    events: Seq<ListenerEvent>,
    actions: Seq<ListenerAction>,
    j: int,
    i: int,
) -> bool {
    &&& 0 <= j < i
    &&& is_mail_event(events[j])
    &&& forall|k: int| j < k < i ==> actions[k] != ListenerAction::Notify
}

/// Some mail change came before position `i` with no notification since.
pub open spec fn announced(events: Seq<ListenerEvent>, actions: Seq<ListenerAction>, i: int) -> bool {
    exists|j: int| #[trigger] change_before(events, actions, j, i)
}

proof fn lemma_replay_len(s: DebounceState, events: Seq<ListenerEvent>)
    ensures
        replay(s, events).1.len() == events.len(),
    decreases events.len(),
{
    if events.len() > 0 {
        lemma_replay_len(s, events.drop_last());
    }
}

proof fn lemma_announced_extends(
    events: Seq<ListenerEvent>,
    actions: Seq<ListenerAction>,
    e: ListenerEvent,
    a: ListenerAction,
    i: int,
    extend: bool,
)
    requires
        0 <= i <= events.len(),
        actions.len() == events.len(),
        announced(events, actions, i),
        extend ==> i == events.len() && a != ListenerAction::Notify,
    ensures
        announced(events.push(e), actions.push(a), if extend { i + 1 } else { i }),
{
    let j = choose|j: int| #[trigger] change_before(events, actions, j, i);
    let i2 = if extend { i + 1 } else { i };
    assert(change_before(events.push(e), actions.push(a), j, i2));
}

proof fn lemma_replay_announces(events: Seq<ListenerEvent>)
    ensures
        replay(fresh(), events).0.pending ==> announced(events, replay(fresh(), events).1, events.len() as int),
        forall|i: int| 0 <= i < events.len() && #[trigger] replay(fresh(), events).1[i] == ListenerAction::Notify
            ==> announced(events, replay(fresh(), events).1, i),
    decreases events.len(),
{
    if events.len() > 0 {
        let prefix = events.drop_last();
        let e = events.last();
        lemma_replay_announces(prefix);
        lemma_replay_len(fresh(), prefix);
        let prev = replay(fresh(), prefix);
        let last = next(prev.0, e);
        let n = prefix.len() as int;
        assert(events == prefix.push(e));
        assert(replay(fresh(), events).1 == prev.1.push(last.1));
        assert forall|i: int| 0 <= i < events.len() && #[trigger] replay(fresh(), events).1[i] == ListenerAction::Notify
            implies announced(events, replay(fresh(), events).1, i) by {
            if i < n {
                assert(prev.1[i] == ListenerAction::Notify);
            }
            lemma_announced_extends(prefix, prev.1, e, last.1, i, false);
        }
        if last.0.pending {
            if is_mail_event(e) {
                assert(change_before(events, replay(fresh(), events).1, n, n + 1));
            } else {
                lemma_announced_extends(prefix, prev.1, e, last.1, n, true);
            }
        }
    }
}

/// A notification is sent only for a mail change: from a fresh listener,
/// every notification follows some change to mail, mail delivery or
/// mailboxes that arrived after the previous notification.  So between two
/// notifications a mail change always arrived and restarted the quiet period.
pub proof fn lemma_notifications_follow_changes(events: Seq<ListenerEvent>)
    ensures
        forall|i: int| 0 <= i < events.len() && #[trigger] replay(fresh(), events).1[i] == ListenerAction::Notify
            ==> events[i] == ListenerEvent::QuietPeriodOver && announced(events, replay(fresh(), events).1, i),
{
    lemma_replay_announces(events);
    assert forall|i: int| 0 <= i < events.len() && #[trigger] replay(fresh(), events).1[i] == ListenerAction::Notify
        implies events[i] == ListenerEvent::QuietPeriodOver by {
        lemma_replay_prefix(fresh(), events, i);
    }
}

proof fn lemma_replay_prefix(s: DebounceState, events: Seq<ListenerEvent>, i: int)
    requires
        0 <= i < events.len(),
    ensures
        replay(s, events).1[i] == next(replay(s, events.take(i)).0, events[i]).1,
    decreases events.len(),
{
    lemma_replay_len(s, events.drop_last());
    if i < events.len() - 1 {
        lemma_replay_prefix(s, events.drop_last(), i);
        assert(events.drop_last().take(i) == events.take(i));
    } else {
        assert(events.drop_last() == events.take(i));
    }
}

proof fn lemma_changes_replay(s: DebounceState, k: nat)
    requires
        !s.stopped,
    ensures
        replay(s, Seq::new(k, |i: int| ListenerEvent::StateChange { mail: true })).1
            == Seq::new(k, |i: int| ListenerAction::RestartQuietPeriod),
        replay(s, Seq::new(k, |i: int| ListenerEvent::StateChange { mail: true })).0
            == (DebounceState { pending: s.pending || k > 0, stopped: false }),
    decreases k,
{
    if k > 0 {
        lemma_changes_replay(s, (k - 1) as nat);
        assert(Seq::new(k, |i: int| ListenerEvent::StateChange { mail: true }).drop_last()
            == Seq::new((k - 1) as nat, |i: int| ListenerEvent::StateChange { mail: true }));
        assert(Seq::new((k - 1) as nat, |i: int| ListenerAction::RestartQuietPeriod).push(ListenerAction::RestartQuietPeriod)
            == Seq::new(k, |i: int| ListenerAction::RestartQuietPeriod));
    }
}

/// A burst of mail changes followed by a quiet period gives exactly one
/// notification: each change restarts the quiet period, the end of the quiet
/// period sends one notification, and afterwards nothing is pending.
pub proof fn lemma_burst_gives_one_notification(s: DebounceState, k: nat)
    requires
        !s.stopped,
        k >= 1,
    ensures
        replay(s, Seq::new(k, |i: int| ListenerEvent::StateChange { mail: true }).push(ListenerEvent::QuietPeriodOver)).1
            == Seq::new(k, |i: int| ListenerAction::RestartQuietPeriod).push(ListenerAction::Notify),
        replay(s, Seq::new(k, |i: int| ListenerEvent::StateChange { mail: true }).push(ListenerEvent::QuietPeriodOver)).0
            == fresh(),
{
    let changes = Seq::new(k, |i: int| ListenerEvent::StateChange { mail: true });
    lemma_changes_replay(s, k);
    assert(changes.push(ListenerEvent::QuietPeriodOver).drop_last() == changes);
}

} // verus!
