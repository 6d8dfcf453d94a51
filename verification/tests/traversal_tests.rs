use nat_punch::candidates::{parse_candidates, parse_port, split_host_port, split_lines};
use nat_punch::codec::{encode_binding_request, encode_binding_response, parse_stun, TransactionId};
use nat_punch::demux::{classify_datagram, rendezvous_ping, Inbound};
use nat_punch::discovery::{decode_discovery_response, DiscoveryError};
use nat_punch::endpoint::Endpoint;
use nat_punch::keepalive::{keepalive_ping, run_stun_cycle, KeepAliveConfig, ProbeOutcome};
use nat_punch::punch::{punch_run, punch_step, ConnectOutcome, PunchState};

#[test]
fn non_stun_datagram_is_classified_as_peer_and_echoed_verbatim() {
    let payload = vec![0x7f, 0x00, 0x42, 0x0a, 0x0d, 0xff];
    match classify_datagram(payload.clone()) {
        Inbound::Peer(echo) => assert_eq!(echo, payload),
        Inbound::Stun(_) => panic!("a datagram that fails STUN parsing must be peer data"),
    }
}

#[test]
fn stun_response_datagram_reports_the_mapped_endpoint() {
    let ep = Endpoint::new(100, 64, 0, 9, 51820);
    let tid = TransactionId::new(vec![5; 12]);
    let wire = encode_binding_response(&tid, ep);
    let classified = classify_datagram(wire);
    assert!(!classified.ends_rendezvous());
    assert_eq!(classified.observed(), Some(ep));
    match classified {
        Inbound::Stun(msg) => assert_eq!(msg.mapped, Some(ep)),
        Inbound::Peer(_) => panic!("a binding response must be classified as STUN"),
    }
}

#[test]
fn rendezvous_ping_is_peer_data_and_ends_the_exchange() {
    let ping = rendezvous_ping();
    assert_eq!(ping, b"DMS:CONSENSUS:PING".to_vec());
    let classified = classify_datagram(ping);
    assert!(classified.ends_rendezvous());
    match classified {
        Inbound::Peer(echo) => assert_eq!(echo, b"DMS:CONSENSUS:PING".to_vec()),
        Inbound::Stun(_) => panic!("the rendezvous ping must not look like STUN"),
    }
}

#[test]
fn keepalive_ping_is_not_stun() {
    let ping = keepalive_ping();
    assert_eq!(ping, b"DMS:NAT_TRAVERSAL:PING".to_vec());
    assert!(parse_stun(&ping).is_none());
}

#[test]
fn cycle_over_unreachable_candidates_completes_and_sleeps() {
    let cfg = KeepAliveConfig::standard();
    let outcomes = vec![ProbeOutcome::Unreachable; 5];
    let report = run_stun_cycle(&cfg, &outcomes);
    assert!(report.mapped.is_none());
    assert_eq!(report.attempts, 5);
    assert_eq!(report.failures, 5);
    assert_eq!(report.sleep_ms, 10000);
    assert_eq!(cfg.bind_port, 8080);
    assert_eq!(cfg.ping_timeout_ms, 1);
}

#[test]
fn cycle_stops_at_the_first_success() {
    let cfg = KeepAliveConfig::standard();
    let first = Endpoint::new(192, 0, 2, 10, 4000);
    let second = Endpoint::new(192, 0, 2, 11, 4001);
    let outcomes = vec![
        ProbeOutcome::Unreachable,
        ProbeOutcome::Mapped(first),
        ProbeOutcome::Mapped(second),
    ];
    let report = run_stun_cycle(&cfg, &outcomes);
    assert_eq!(report.mapped, Some(first));
    assert_eq!(report.attempts, 2);
    assert_eq!(report.failures, 1);
}

#[test]
fn cycle_over_an_empty_candidate_list_is_harmless() {
    let cfg = KeepAliveConfig::standard();
    let report = run_stun_cycle(&cfg, &Vec::new());
    assert!(report.mapped.is_none());
    assert_eq!(report.attempts, 0);
    assert_eq!(report.failures, 0);
    assert_eq!(report.sleep_ms, cfg.period_ms);
}

#[test]
fn punching_an_unreachable_peer_never_opens_and_never_crashes() {
    let outcomes = vec![ConnectOutcome::Failed; 16];
    assert_eq!(punch_run(&outcomes), PunchState::Probing);
}

#[test]
fn punching_succeeds_once_the_peer_becomes_reachable() {
    // The peer opens after the second interval; the third attempt lands.
    let outcomes = vec![
        ConnectOutcome::Failed,
        ConnectOutcome::Failed,
        ConnectOutcome::Connected,
    ];
    assert_eq!(punch_run(&outcomes), PunchState::Open);
}

#[test]
fn an_open_path_stays_open() {
    let s = punch_step(PunchState::Open, ConnectOutcome::Failed);
    assert_eq!(s, PunchState::Open);
}

#[test]
fn discovery_decodes_a_response_and_names_each_failure() {
    let ep = Endpoint::new(233, 252, 0, 6, 19302);
    let tid = TransactionId::new(vec![0x33; 12]);
    let wire = encode_binding_response(&tid, ep);
    assert_eq!(decode_discovery_response(&wire), Ok(ep));
    assert_eq!(
        decode_discovery_response(&vec![1, 2, 3]),
        Err(DiscoveryError::MalformedResponse)
    );
    let bare = encode_binding_request(&TransactionId::new(vec![0x44; 12]));
    assert_eq!(
        decode_discovery_response(&bare),
        Err(DiscoveryError::NoMappedAddress)
    );
}

#[test]
fn end_to_end_discovery_then_simultaneous_open() {
    // Two processes each discover their public endpoint through a mock
    // STUN server, then punch toward each other from the shared port.
    let public_a = Endpoint::new(198, 51, 100, 7, 8080);
    let public_b = Endpoint::new(203, 0, 113, 9, 8080);

    // Process A sends a binding request; the mock server answers it with
    // A's observed endpoint under A's transaction id.
    let request_a = encode_binding_request(&TransactionId::new(vec![0x0a; 12]));
    let seen_by_server = parse_stun(&request_a).expect("the server parses A's request");
    let response_a = encode_binding_response(&seen_by_server.tid, public_a);
    let e_a = decode_discovery_response(&response_a).expect("A learns its endpoint");
    assert_eq!(e_a, public_a);

    // Process B does the same.
    let request_b = encode_binding_request(&TransactionId::new(vec![0x0b; 12]));
    let seen_by_server = parse_stun(&request_b).expect("the server parses B's request");
    let response_b = encode_binding_response(&seen_by_server.tid, public_b);
    let e_b = decode_discovery_response(&response_b).expect("B learns its endpoint");
    assert_eq!(e_b, public_b);

    // Both sides now connect toward the other's observed endpoint from
    // the same fixed local port.  The first attempts race and fail; once
    // both NATs have seen outgoing flow, the handshake completes.
    let a_attempts = vec![
        ConnectOutcome::Failed,
        ConnectOutcome::Failed,
        ConnectOutcome::Connected,
    ];
    let b_attempts = vec![ConnectOutcome::Failed, ConnectOutcome::Connected];
    assert_eq!(punch_run(&a_attempts), PunchState::Open);
    assert_eq!(punch_run(&b_attempts), PunchState::Open);
}

#[test]
fn candidate_lines_split_like_a_line_reader() {
    let text = b"stun.example.net:3478\r\npeer.example.org:8080\n\nlast:9".to_vec();
    let lines = split_lines(&text);
    assert_eq!(
        lines,
        vec![
            b"stun.example.net:3478".to_vec(),
            b"peer.example.org:8080".to_vec(),
            b"".to_vec(),
            b"last:9".to_vec(),
        ]
    );
}

#[test]
fn empty_text_has_no_lines_and_trailing_newline_adds_none() {
    assert_eq!(split_lines(&Vec::new()).len(), 0);
    assert_eq!(split_lines(&b"one:1\n".to_vec()), vec![b"one:1".to_vec()]);
    // Only a carriage return before a newline is stripped; a bare one at
    // the end of the text belongs to the last line.
    assert_eq!(split_lines(&b"x\r".to_vec()), vec![b"x\r".to_vec()]);
}

#[test]
fn ports_parse_exactly_the_sixteen_bit_decimals() {
    assert_eq!(parse_port(&b"3478".to_vec()), Some(3478));
    assert_eq!(parse_port(&b"0".to_vec()), Some(0));
    assert_eq!(parse_port(&b"65535".to_vec()), Some(65535));
    assert_eq!(parse_port(&b"65536".to_vec()), None);
    assert_eq!(parse_port(&b"".to_vec()), None);
    assert_eq!(parse_port(&b"80a".to_vec()), None);
    assert_eq!(parse_port(&b"08080".to_vec()), Some(8080));
}

#[test]
fn host_and_port_split_at_the_last_colon() {
    let (host, port) = split_host_port(&b"stun.example.net:3478".to_vec()).unwrap();
    assert_eq!(host, b"stun.example.net".to_vec());
    assert_eq!(port, 3478);
    assert!(split_host_port(&b"no-colon".to_vec()).is_none());
    assert!(split_host_port(&b":8080".to_vec()).is_none());
    assert!(split_host_port(&b"host:".to_vec()).is_none());
    assert!(split_host_port(&b"host:port".to_vec()).is_none());
}

#[test]
fn malformed_candidate_lines_are_skipped_not_fatal() {
    let text = b"good.example:3478\nbad line\nalso.good:8080\n:7\n".to_vec();
    let cands = parse_candidates(&text);
    assert_eq!(cands.len(), 2);
    assert_eq!(cands[0].0, b"good.example".to_vec());
    assert_eq!(cands[0].1, 3478);
    assert_eq!(cands[1].0, b"also.good".to_vec());
    assert_eq!(cands[1].1, 8080);
}
