use alloy_flashblocks::client::{FlashblocksWsClient, DEFAULT_RECONNECT_DELAY_MS};
use alloy_flashblocks::transport::{Phase, StreamAction, StreamEvent, StreamSession, MAX_CONNECT_ATTEMPTS};

fn is_sleep(a: &StreamAction, ms: u64) -> bool {
    matches!(a, StreamAction::Sleep(x) if *x == ms)
}

#[test]
fn three_failed_attempts_end_in_failure() {
    let backoff = 5;
    let mut s = StreamSession::new(3, backoff, None);
    assert!(matches!(s.first_action(), StreamAction::Connect));
    assert!(is_sleep(&s.step(StreamEvent::ConnectFailed), backoff));
    assert!(matches!(s.step(StreamEvent::BackoffElapsed), StreamAction::Connect));
    assert!(is_sleep(&s.step(StreamEvent::ConnectFailed), backoff));
    assert!(matches!(s.step(StreamEvent::BackoffElapsed), StreamAction::Connect));
    assert!(matches!(s.step(StreamEvent::ConnectFailed), StreamAction::Fail));
    assert_eq!(s.phase, Phase::Failed);
    // no further attempt, whatever comes
    assert!(matches!(s.step(StreamEvent::BackoffElapsed), StreamAction::Fail));
    assert!(matches!(s.step(StreamEvent::Connected), StreamAction::Fail));
    assert_eq!(s.phase, Phase::Failed);
}

#[test]
fn success_on_second_attempt_resets_count() {
    let backoff = 1;
    let mut s = StreamSession::new(3, backoff, None);
    assert!(is_sleep(&s.step(StreamEvent::ConnectFailed), backoff));
    assert_eq!(s.failures, 1);
    assert!(matches!(s.step(StreamEvent::BackoffElapsed), StreamAction::Connect));
    assert!(matches!(s.step(StreamEvent::Connected), StreamAction::Read));
    assert_eq!(s.failures, 0);
    assert_eq!(s.phase, Phase::Streaming);
    // the connection drops: the whole allowance is there again
    assert!(is_sleep(&s.step(StreamEvent::StreamFailed), backoff));
    assert!(matches!(s.step(StreamEvent::BackoffElapsed), StreamAction::Connect));
    assert!(is_sleep(&s.step(StreamEvent::ConnectFailed), backoff));
    assert!(matches!(s.step(StreamEvent::BackoffElapsed), StreamAction::Connect));
    assert!(matches!(s.step(StreamEvent::ConnectFailed), StreamAction::Fail));
}

#[test]
fn ping_is_answered_with_same_payload() {
    let mut s = StreamSession::new(3, 1000, None);
    s.step(StreamEvent::Connected);
    match s.step(StreamEvent::Ping(vec![1, 2, 3])) {
        StreamAction::SendPong(p) => assert_eq!(p, vec![1, 2, 3]),
        other => panic!("unexpected action {:?}", other),
    }
    assert!(matches!(s.step(StreamEvent::Ignored), StreamAction::Read));
    assert_eq!(s.phase, Phase::Streaming);
}

#[test]
fn stops_after_enough_initial_fragments() {
    let mut s = StreamSession::new(3, 1000, Some(2));
    s.step(StreamEvent::Connected);
    assert!(matches!(s.step(StreamEvent::Fragment { initial: true }), StreamAction::Read));
    assert!(matches!(s.step(StreamEvent::Fragment { initial: false }), StreamAction::Read));
    assert!(matches!(s.step(StreamEvent::Fragment { initial: true }), StreamAction::Finish));
    assert_eq!(s.phase, Phase::Closed);
    assert_eq!(s.initial_fragments, 2);
}

#[test]
fn initial_fragment_count_survives_reconnect() {
    let mut s = StreamSession::new(3, 1000, Some(2));
    s.step(StreamEvent::Connected);
    s.step(StreamEvent::Fragment { initial: true });
    s.step(StreamEvent::StreamFailed);
    s.step(StreamEvent::BackoffElapsed);
    s.step(StreamEvent::Connected);
    assert!(matches!(s.step(StreamEvent::Fragment { initial: true }), StreamAction::Finish));
}

#[test]
fn server_close_finishes() {
    let mut s = StreamSession::new(3, 1000, None);
    s.step(StreamEvent::Connected);
    assert!(matches!(s.step(StreamEvent::ServerClosed), StreamAction::Finish));
    assert!(matches!(s.step(StreamEvent::Connected), StreamAction::Finish));
}

#[test]
fn no_attempts_allowed_fails_at_once() {
    let s = StreamSession::new(0, 1000, None);
    assert!(matches!(s.first_action(), StreamAction::Fail));
}

#[test]
fn out_of_place_event_repeats_awaited_action() {
    let backoff = 3;
    let mut s = StreamSession::new(3, backoff, None);
    assert!(matches!(s.step(StreamEvent::Ignored), StreamAction::Connect));
    s.step(StreamEvent::ConnectFailed);
    assert!(is_sleep(&s.step(StreamEvent::Connected), backoff));
    assert_eq!(s.phase, Phase::Backoff);
}

#[test]
fn client_session_uses_settings() {
    let url = url::Url::parse("wss://example.org/ws").unwrap();
    let client = FlashblocksWsClient::new(url.clone(), 5).with_reconnect_delay(250);
    assert_eq!(client.url(), &url);
    assert_eq!(client.max_blocks(), Some(5));
    assert_eq!(client.reconnect_delay_ms(), 250);
    let s = client.session();
    assert_eq!(s.max_attempts, MAX_CONNECT_ATTEMPTS);
    assert_eq!(s.max_blocks, Some(5));
    assert_eq!(s.backoff_ms, 250);
    assert_eq!(s.phase, Phase::Connecting);
    let plain = FlashblocksWsClient::new(url, 1);
    assert_eq!(plain.reconnect_delay_ms(), DEFAULT_RECONNECT_DELAY_MS);
    assert_eq!(plain.reconnect_delay_ms(), 1000);
    let open = plain.without_block_limit();
    assert_eq!(open.max_blocks(), None);
    assert_eq!(open.session().max_blocks, None);
    assert_eq!(open.reconnect_delay_ms(), 1000);
}
