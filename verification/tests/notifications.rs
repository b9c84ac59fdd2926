use stalwart_mcp::notifications::{
    inbox_resource_uri, is_mail_change, ChangeKind, Debouncer, ListenerAction, ListenerEvent,
};

#[test]
fn burst_of_changes_gives_one_notification() {
    let mut d = Debouncer::new();
    assert!(!d.is_pending());
    assert_eq!(d.step(ListenerEvent::StateChange { mail: true }), ListenerAction::RestartQuietPeriod);
    assert_eq!(d.step(ListenerEvent::StateChange { mail: true }), ListenerAction::RestartQuietPeriod);
    assert!(d.is_pending());
    assert_eq!(d.step(ListenerEvent::QuietPeriodOver), ListenerAction::Notify);
    assert!(!d.is_pending());
    assert_eq!(d.step(ListenerEvent::QuietPeriodOver), ListenerAction::Wait);
}

#[test]
fn other_events_do_not_notify() {
    let mut d = Debouncer::new();
    assert_eq!(d.step(ListenerEvent::StateChange { mail: false }), ListenerAction::Wait);
    assert_eq!(d.step(ListenerEvent::CalendarAlert), ListenerAction::Wait);
    assert_eq!(d.step(ListenerEvent::QuietPeriodOver), ListenerAction::Wait);
}

#[test]
fn stream_end_stops_for_good() {
    let mut d = Debouncer::new();
    d.step(ListenerEvent::StateChange { mail: true });
    assert_eq!(d.step(ListenerEvent::StreamEnded), ListenerAction::Stop);
    assert_eq!(d.step(ListenerEvent::QuietPeriodOver), ListenerAction::Stop);
    let mut d = Debouncer::new();
    assert_eq!(d.step(ListenerEvent::StreamError), ListenerAction::Stop);
    let mut d = Debouncer::new();
    assert_eq!(d.step(ListenerEvent::SendFailed), ListenerAction::Stop);
    assert_eq!(d.step(ListenerEvent::StateChange { mail: true }), ListenerAction::Stop);
}

#[test]
fn mail_change_kinds() {
    assert!(is_mail_change(&[ChangeKind::Other, ChangeKind::Mailbox]));
    assert!(is_mail_change(&[ChangeKind::EmailDelivery]));
    assert!(is_mail_change(&[ChangeKind::Email]));
    assert!(!is_mail_change(&[ChangeKind::Other]));
    assert!(!is_mail_change(&[]));
    assert_eq!(inbox_resource_uri("work"), "stalwart://inbox/work");
}

#[test]
fn every_notification_follows_a_mail_change() {
    let mut d = Debouncer::new();
    let events = [
        ListenerEvent::StateChange { mail: true },
        ListenerEvent::CalendarAlert,
        ListenerEvent::StateChange { mail: false },
        ListenerEvent::StateChange { mail: true },
        ListenerEvent::QuietPeriodOver,
        ListenerEvent::CalendarAlert,
        ListenerEvent::QuietPeriodOver,
        ListenerEvent::StateChange { mail: true },
        ListenerEvent::QuietPeriodOver,
    ];
    let actions: Vec<ListenerAction> = events.iter().map(|e| d.step(*e)).collect();
    assert_eq!(
        actions,
        vec![
            ListenerAction::RestartQuietPeriod,
            ListenerAction::Wait,
            ListenerAction::Wait,
            ListenerAction::RestartQuietPeriod,
            ListenerAction::Notify,
            ListenerAction::Wait,
            ListenerAction::Wait,
            ListenerAction::RestartQuietPeriod,
            ListenerAction::Notify,
        ]
    );
}
