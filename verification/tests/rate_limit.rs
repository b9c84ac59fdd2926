use stalwart_mcp::error::ToolErrorKind;
use stalwart_mcp::rate_limit::{RateLimiters, TokenBucket, Tool, UNITS_PER_TOKEN};

#[test]
fn fresh_bucket_allows_burst_then_refuses() {
    let mut b = TokenBucket::new(60);
    for _ in 0..60 {
        assert!(b.consume_at(0));
    }
    assert!(!b.consume_at(0));
}

#[test]
fn one_second_refills_one_token_at_sixty_per_minute() {
    let mut b = TokenBucket::new(60);
    for _ in 0..60 {
        assert!(b.consume_at(0));
    }
    assert!(!b.consume_at(999_999_999));
    // the refused call kept 999_999_999 ns worth of refill; one more ns completes a token
    assert!(b.consume_at(1_000_000_000));
    assert!(!b.consume_at(1_000_000_000));
}

#[test]
fn minute_of_quiet_refills_completely() {
    let mut b = TokenBucket::new(5);
    for _ in 0..5 {
        assert!(b.consume_at(0));
    }
    assert!(!b.consume_at(0));
    assert!(b.consume_at(UNITS_PER_TOKEN * 10));
    for _ in 0..4 {
        assert!(b.consume_at(UNITS_PER_TOKEN * 10));
    }
    assert!(!b.consume_at(UNITS_PER_TOKEN * 10));
}

#[test]
fn huge_gap_does_not_overflow() {
    let mut b = TokenBucket::new(u32::MAX);
    assert!(b.consume_at(u128::MAX));
}

#[test]
fn earlier_reading_refills_nothing() {
    let mut b = TokenBucket::new(1);
    assert!(b.consume_at(UNITS_PER_TOKEN));
    assert!(!b.consume_at(5));
    // the bucket is now stamped 5: a minute after that refills one token
    assert!(b.consume_at(UNITS_PER_TOKEN + 5));
}

#[test]
fn zero_rate_bucket_refuses_everything() {
    let mut b = TokenBucket::new(0);
    assert!(!b.consume_at(0));
    assert!(!b.consume_at(UNITS_PER_TOKEN * 2));
}

#[test]
fn real_clock_bucket_allows_its_burst() {
    let mut b = TokenBucket::new(3);
    assert!(b.try_consume());
    assert!(b.try_consume());
    assert!(b.try_consume());
    assert!(!b.try_consume());
}

#[test]
fn send_limit_is_five_per_minute() {
    let mut r = RateLimiters::new();
    for _ in 0..5 {
        assert!(r.check("mail_send").is_ok());
    }
    let e = r.check("mail_send").unwrap_err();
    assert_eq!(e.kind, ToolErrorKind::InvalidRequest);
    assert_eq!(e.message, "Rate limit exceeded for 'mail_send'. Try again shortly.");
    // other tools keep their own buckets
    assert!(r.check("mail_get").is_ok());
}

#[test]
fn unknown_tool_is_never_limited() {
    let mut r = RateLimiters::default();
    for _ in 0..1000 {
        assert!(r.check("no_such_tool").is_ok());
    }
}

#[test]
fn bulk_tools_have_buckets() {
    let mut r = RateLimiters::new();
    for _ in 0..10 {
        assert!(r.check("mail_bulk_delete").is_ok());
    }
    assert!(r.check("mail_bulk_delete").is_err());
    for _ in 0..5 {
        assert!(r.check("spam_train").is_ok());
    }
    assert!(r.check("spam_train").is_err());
}

#[test]
fn tool_names_round_trip() {
    let all = [
        Tool::ListFolders, Tool::ListRecent, Tool::Search, Tool::Get, Tool::Flag, Tool::Move,
        Tool::Draft, Tool::Send, Tool::BulkJunk, Tool::BulkDelete, Tool::BulkRead, Tool::SpamTrain,
    ];
    for (i, t) in all.iter().enumerate() {
        assert_eq!(Tool::from_name(t.name()), Some(*t));
        assert_eq!(t.index(), i);
        assert_eq!(Tool::at(i), *t);
    }
    assert_eq!(Tool::from_name("mail_search"), Some(Tool::Search));
    assert_eq!(Tool::Search.per_minute(), 30);
    assert_eq!(Tool::Draft.per_minute(), 10);
    assert_eq!(Tool::from_name("Mail_Search"), None);
}

#[test]
fn calls_over_time_never_exceed_bucket_plus_refill() {
    // start full at 60/min, then call every 100 ms for 2 s: at most 60 + 2 allowed;
    // the first 100 ms refill nothing, as the bucket is full
    let mut b = TokenBucket::new(60);
    let mut allowed = 0;
    for i in 1..=20u128 {
        if b.consume_at(i * 100_000_000) {
            allowed += 1;
        }
    }
    for _ in 0..100 {
        if b.consume_at(2_000_000_000) {
            allowed += 1;
        }
    }
    assert!(allowed <= 62);
    assert_eq!(allowed, 61);
}

#[test]
fn every_tool_limit_is_between_five_and_sixty() {
    for name in [
        "mail_list_folders", "mail_list_recent", "mail_search", "mail_get", "mail_flag", "mail_move",
        "mail_draft", "mail_send", "mail_bulk_junk", "mail_bulk_delete", "mail_bulk_read", "spam_train",
    ] {
        let t = Tool::from_name(name).unwrap();
        assert!((5..=60).contains(&t.per_minute()));
    }
}

#[test]
fn quick_calls_within_one_token_refill_allow_exactly_the_limit() {
    // ten calls a minute: one token takes six seconds; eleven calls within
    // five seconds of a full bucket allow exactly the first ten
    let mut b = TokenBucket::new(10);
    let mut allowed = Vec::new();
    for i in 1..=11u128 {
        allowed.push(b.consume_at(i * 450_000_000));
    }
    let mut expected = vec![true; 10];
    expected.push(false);
    assert_eq!(allowed, expected);
}
