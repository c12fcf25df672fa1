use hlds_exporter::session::DatagramOutcome;
use hlds_exporter::session::SessionState;

const TICK_MS: u64 = 5000;

fn preamble() -> Vec<u8> {
    let mut p = vec![0xFFu8, 0xFF, 0xFF, 0xFF, 0x54];
    p.extend(b"Source Engine Query\0".iter().copied());
    p
}

fn small_info_reply() -> Vec<u8> {
    let mut d = vec![0xFFu8, 0xFF, 0xFF, 0xFF, 0x49, 48];
    d.extend(b"N\0M\0F\0G\0".iter().copied());
    d.extend([7, 0, 3, 16, 1, b'd', b'l', 0, 0]);
    d.extend(b"1.0\0".iter().copied());
    d
}

fn challenge_reply(token: [u8; 4]) -> Vec<u8> {
    let mut d = vec![0xFFu8, 0xFF, 0xFF, 0xFF, 0x41];
    d.extend(token);
    d
}

#[test]
fn fresh_session_reports_down() {
    let s = SessionState::new(TICK_MS);
    let (query, up) = s.on_tick(123_456);
    assert!(!up);
    assert_eq!(query, preamble());
}

#[test]
fn liveness_window_is_strict() {
    let mut s = SessionState::new(TICK_MS);
    let out = s.on_datagram(&small_info_reply(), 1000);
    assert!(matches!(out, DatagramOutcome::Observe { .. }));

    let (_q, up) = s.on_tick(5999);
    assert!(up, "a parse strictly within one interval reports up");

    let (_q, up_at_boundary) = s.on_tick(6000);
    assert!(!up_at_boundary, "elapsed time equal to the interval is stale");

    let (_q, up_after) = s.on_tick(6001);
    assert!(!up_after);
}

#[test]
fn info_outcome_carries_observations() {
    let mut s = SessionState::new(TICK_MS);
    match s.on_datagram(&small_info_reply(), 42) {
        DatagramOutcome::Observe { players, bots, name, game, version } => {
            assert_eq!(players, 3);
            assert_eq!(bots, 1);
            assert_eq!(name, "N");
            assert_eq!(game, "G");
            assert_eq!(version, "1.0");
        },
        _ => panic!("expected observations"),
    }
}

#[test]
fn challenge_reply_reissues_query_with_token() {
    let mut s = SessionState::new(TICK_MS);
    let mut expected = preamble();
    expected.extend([9, 9, 8, 8]);

    match s.on_datagram(&challenge_reply([9, 9, 8, 8]), 100) {
        DatagramOutcome::QueryAgain { query } => assert_eq!(query, expected),
        _ => panic!("expected an immediate re-query"),
    }

    // the stored token rides along on every later tick
    let (query, up) = s.on_tick(200);
    assert_eq!(query, expected);
    assert!(!up, "a challenge is not a successful info parse");
}

#[test]
fn fresh_challenge_overwrites_stored_token() {
    let mut s = SessionState::new(TICK_MS);
    s.on_datagram(&challenge_reply([1, 1, 1, 1]), 10);
    s.on_datagram(&challenge_reply([2, 2, 2, 2]), 20);
    let (query, _up) = s.on_tick(30);
    let mut expected = preamble();
    expected.extend([2, 2, 2, 2]);
    assert_eq!(query, expected);
}

#[test]
fn malformed_datagram_leaves_state_unchanged() {
    let mut s = SessionState::new(TICK_MS);
    s.on_datagram(&small_info_reply(), 1000);

    let out = s.on_datagram(&vec![1, 2, 3], 2000);
    assert!(matches!(out, DatagramOutcome::Dropped));
    let out = s.on_datagram(&vec![0xFE, 0xFF, 0xFF, 0xFF, 0x49], 2500);
    assert!(matches!(out, DatagramOutcome::Dropped));

    // the last-success time still dates from the info reply at 1000
    let (_q, up) = s.on_tick(5999);
    assert!(up);
    let (_q, up_later) = s.on_tick(6000);
    assert!(!up_later);
}
