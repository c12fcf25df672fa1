use hlds_exporter::engine::Engine;
use hlds_exporter::engine::ServerTarget;
use hlds_exporter::session::DatagramOutcome;

const TICK_MS: u64 = 5000;

fn target(ip: u128, port: u16) -> ServerTarget {
    ServerTarget { ip, is_v6: false, port }
}

fn preamble() -> Vec<u8> {
    let mut p = vec![0xFFu8, 0xFF, 0xFF, 0xFF, 0x54];
    p.extend(b"Source Engine Query\0".iter().copied());
    p
}

fn small_info_reply() -> Vec<u8> {
    let mut d = vec![0xFFu8, 0xFF, 0xFF, 0xFF, 0x49, 48];
    d.extend(b"N\0M\0F\0G\0".iter().copied());
    d.extend([7, 0, 3, 16, 1, b'd', b'l', 0, 0]);
    d.extend(b"1.0\0".iter().copied());
    d
}

#[test]
fn duplicate_address_collapses_to_one_session() {
    let a = target(0x7F000001, 27015);
    let e = Engine::new(&vec![a, a], TICK_MS);
    assert_eq!(e.session_count(), 1);

    // one tick for that address issues exactly one query
    let (query, up) = e.handle_tick(0, 0);
    assert_eq!(query, preamble());
    assert!(!up);
}

#[test]
fn distinct_addresses_get_one_session_each() {
    let a = target(0x7F000001, 27015);
    let b = target(0x7F000001, 27016);
    let c = target(0x7F000002, 27015);
    let e = Engine::new(&vec![a, b, a, c, b], TICK_MS);
    assert_eq!(e.session_count(), 3);
}

#[test]
fn route_matches_configured_addresses_only() {
    let a = target(10, 1);
    let b = target(20, 2);
    let e = Engine::new(&vec![a, b], TICK_MS);

    assert_eq!(e.route(a), Some(0));
    assert_eq!(e.route(b), Some(1));
    assert_eq!(e.route(target(30, 3)), None);
    // same bits under the other family are a different server
    assert_eq!(e.route(ServerTarget { ip: 10, is_v6: true, port: 1 }), None);
}

#[test]
fn unknown_source_dropped_without_touching_sessions() {
    let a = target(10, 1);
    let b = target(20, 2);
    let mut e = Engine::new(&vec![a, b], TICK_MS);

    // one server answers; its session becomes fresh
    let idx = e.route(a).expect("configured address routes");
    let out = e.handle_datagram(idx, &small_info_reply(), 1000);
    assert!(matches!(out, DatagramOutcome::Observe { .. }));

    // a stray datagram routes nowhere, and no session is disturbed
    assert_eq!(e.route(target(99, 9)), None);
    let (_q, up_a) = e.handle_tick(0, 2000);
    let (_q, up_b) = e.handle_tick(1, 2000);
    assert!(up_a);
    assert!(!up_b);
}

#[test]
fn sessions_progress_independently() {
    let a = target(10, 1);
    let b = target(20, 2);
    let mut e = Engine::new(&vec![a, b], TICK_MS);

    e.handle_datagram(0, &small_info_reply(), 1000);
    let challenge = vec![0xFFu8, 0xFF, 0xFF, 0xFF, 0x41, 4, 3, 2, 1];
    match e.handle_datagram(1, &challenge, 1500) {
        DatagramOutcome::QueryAgain { query } => {
            let mut expected = preamble();
            expected.extend([4, 3, 2, 1]);
            assert_eq!(query, expected);
        },
        _ => panic!("expected an immediate re-query"),
    }

    // the first session's token is still empty, the second's state is its own
    let (query_a, up_a) = e.handle_tick(0, 2000);
    assert_eq!(query_a, preamble());
    assert!(up_a);
    let (_query_b, up_b) = e.handle_tick(1, 2000);
    assert!(!up_b);
}
