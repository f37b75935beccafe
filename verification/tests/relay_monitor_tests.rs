use sniproxy::monitor::Monitor;
use sniproxy::monitor::MonitorAction;
use sniproxy::relay::ReadOutcome;
use sniproxy::relay::RelayError;
use sniproxy::relay::RelayPhase;
use sniproxy::relay::RelayWorker;
use sniproxy::relay::Side;
use sniproxy::relay::drain_step;
use sniproxy::socks5::Socks5;

/// A ClientHello for `example.com`, padded with a trailing extension to the
/// requested total size.
fn client_hello_for_example_com(total_len: usize) -> Vec<u8> {
    let host = b"example.com";
    let hl = host.len();
    let mut sni = vec![
        0,
        0,
        ((hl + 5) / 256) as u8,
        ((hl + 5) % 256) as u8,
        ((hl + 3) / 256) as u8,
        ((hl + 3) % 256) as u8,
        0,
        (hl / 256) as u8,
        (hl % 256) as u8,
    ];
    sni.extend_from_slice(host);
    let mut v = vec![0u8; 43];
    v[0] = 22;
    v.push(0);
    v.push(0);
    v.push(4);
    v.extend_from_slice(&[0x13, 0x01, 0x13, 0x02]);
    v.push(1);
    v.push(0);
    let pad = total_len - v.len() - 2 - sni.len() - 4;
    let el = sni.len() + 4 + pad;
    v.push((el / 256) as u8);
    v.push((el % 256) as u8);
    v.extend_from_slice(&sni);
    v.push(0x00);
    v.push(0x15); // padding extension
    v.push((pad / 256) as u8);
    v.push((pad % 256) as u8);
    v.extend_from_slice(&vec![0u8; pad]);
    assert_eq!(v.len(), total_len);
    v
}

#[test]
fn end_to_end_relay_and_monitor_totals() {
    // The client opens connection 7 on the TLS port and sends a 300-byte
    // ClientHello for example.com; the mock upstream accepts the SOCKS5
    // handshake; the relay then moves 700 more bytes up and 2000 bytes down.
    let hello = client_hello_for_example_com(300);
    let mut w = RelayWorker::new(7, 443);
    let mut events: Vec<MonitorAction> = Vec::new();
    events.push(w.on_start());

    let name = w.on_first_read(&hello).expect("sniff must succeed");
    assert_eq!(name, b"example.com".to_vec());
    assert_eq!(w.phase, RelayPhase::Connecting);

    // Mock upstream side of the SOCKS5 handshake.
    assert_eq!(Socks5::greeting(), vec![0x05, 0x01, 0x00]);
    assert!(Socks5::check_method_selection(&[0x05, 0x00]).is_ok());
    let req = Socks5::build_connect_request(&name, 443).unwrap();
    assert_eq!(req[4] as usize, name.len());
    assert!(Socks5::parse_connect_reply(&[0x05, 0x00, 0x00, 0x01, 0, 0, 0, 0, 0, 0]).is_ok());

    for a in w.on_connect_ok(name, hello.len()) {
        events.push(a);
    }
    assert_eq!(w.phase, RelayPhase::Relaying);

    // One relay round: 2000 bytes drained upstream-to-client, 700 more
    // client-to-upstream, heartbeat due (last was 0).
    for a in w.on_relay_round(2000, 700, 100) {
        events.push(a);
    }

    let mut m = Monitor::new();
    m.process_actions(events, 90);

    assert_eq!(m.total_forward_traffic, 1000); // 1.0 KB forwarded
    assert_eq!(m.total_receive_traffic, 2000); // 2.0 KB received
    assert_eq!(m.conn_list.len(), 1);
    let rec = &m.conn_list[0];
    assert_eq!(rec.id, 7);
    assert_eq!(rec.server_port, 443);
    assert_eq!(rec.server_name.as_ref().unwrap(), &b"example.com".to_vec());
    assert_eq!(rec.total_forward_traffic, 1000);
    assert_eq!(rec.total_receive_traffic, 2000);
    assert_eq!(rec.last_timestamp, 100);
}

#[test]
fn client_disconnect_after_sniff_is_evicted_by_connecting_timeout() {
    // The client disconnects right after sniffing succeeds, before the
    // upstream handshake completes: the worker exits without ProxyOk, and
    // the monitor record is condemned by the 60-second connecting rule.
    let hello = client_hello_for_example_com(120);
    let mut w = RelayWorker::new(3, 443);
    let init = w.on_start();
    let name = w.on_first_read(&hello).expect("sniff must succeed");
    assert_eq!(name, b"example.com".to_vec());
    assert_eq!(w.phase, RelayPhase::Connecting);
    // The worker is dropped here: no ProxyOk, no further events.

    let mut m = Monitor::new();
    m.handle_action(init, 1);
    assert_eq!(m.conn_list.len(), 1);
    assert!(m.conn_list[0].server_name.is_none());

    // Within 60 seconds the record survives sweeps.
    m.frame_sweep(61);
    m.clear_dead_conn();
    assert_eq!(m.conn_list.len(), 1);

    // Past 60 seconds without a heartbeat it is condemned, then removed.
    m.frame_sweep(62);
    assert_eq!(m.conn_list[0].last_timestamp, 0);
    m.clear_dead_conn();
    assert_eq!(m.conn_list.len(), 0);
}

#[test]
fn aggregate_counters_equal_sum_of_connections() {
    let mut m = Monitor::new();
    let mut events: Vec<MonitorAction> = Vec::new();
    events.push(MonitorAction::ConnInit { id: 1, port: 443 });
    events.push(MonitorAction::ConnInit { id: 2, port: 80 });
    events.push(MonitorAction::ForwardTraffic { id: 1, length: 500 });
    events.push(MonitorAction::ReceiveTraffic { id: 1, length: 1500 });
    events.push(MonitorAction::ForwardTraffic { id: 2, length: 250 });
    events.push(MonitorAction::ForwardTraffic { id: 1, length: 250 });
    events.push(MonitorAction::ReceiveTraffic { id: 2, length: 40 });
    m.process_actions(events, 5);

    let sum_fwd: u64 = m.conn_list.iter().map(|c| c.total_forward_traffic).sum();
    let sum_rcv: u64 = m.conn_list.iter().map(|c| c.total_receive_traffic).sum();
    assert_eq!(m.total_forward_traffic, sum_fwd);
    assert_eq!(m.total_receive_traffic, sum_rcv);
    assert_eq!(sum_fwd, 1000);
    assert_eq!(sum_rcv, 1540);
}

#[test]
fn traffic_for_unknown_id_only_moves_aggregates() {
    let mut m = Monitor::new();
    m.handle_action(MonitorAction::ForwardTraffic { id: 9, length: 123 }, 0);
    assert_eq!(m.total_forward_traffic, 123);
    assert_eq!(m.conn_list.len(), 0);
}

#[test]
fn zero_sentinel_record_is_absent_after_sweep() {
    let mut m = Monitor::new();
    m.handle_action(MonitorAction::ConnInit { id: 1, port: 443 }, 10);
    m.handle_action(MonitorAction::ConnInit { id: 2, port: 80 }, 10);
    m.handle_action(MonitorAction::Heartbeat { id: 1, timestamp: 0 }, 10);
    m.clear_dead_conn();
    assert_eq!(m.conn_list.len(), 1);
    assert_eq!(m.conn_list[0].id, 2);
}

#[test]
fn connect_failure_emits_zero_sentinel() {
    let hello = client_hello_for_example_com(120);
    let mut w = RelayWorker::new(4, 443);
    let init = w.on_start();
    let _name = w.on_first_read(&hello).expect("sniff must succeed");
    let sentinel = w.on_connect_failed();
    assert_eq!(w.phase, RelayPhase::Closed);

    let mut m = Monitor::new();
    m.handle_action(init, 20);
    m.handle_action(sentinel, 20);
    assert_eq!(m.conn_list[0].last_timestamp, 0);
    m.clear_dead_conn();
    assert_eq!(m.conn_list.len(), 0);
}

#[test]
fn named_connection_condemned_after_ten_seconds() {
    let mut m = Monitor::new();
    m.handle_action(MonitorAction::ConnInit { id: 1, port: 443 }, 0);
    m.handle_action(
        MonitorAction::ProxyOk { id: 1, server_name: b"example.com".to_vec() },
        0,
    );
    m.handle_action(MonitorAction::Heartbeat { id: 1, timestamp: 50 }, 50);
    m.frame_sweep(60);
    m.clear_dead_conn();
    assert_eq!(m.conn_list.len(), 1);
    m.frame_sweep(61);
    m.clear_dead_conn();
    assert_eq!(m.conn_list.len(), 0);
}

#[test]
fn frame_sweep_snapshots_counters() {
    let mut m = Monitor::new();
    m.handle_action(MonitorAction::ConnInit { id: 1, port: 80 }, 0);
    m.handle_action(MonitorAction::ForwardTraffic { id: 1, length: 700 }, 0);
    let (df, dr) = sniproxy::monitor::frame_delta(&m.conn_list[0]);
    assert_eq!((df, dr), (700, 0));
    m.frame_sweep(1);
    let (df2, dr2) = sniproxy::monitor::frame_delta(&m.conn_list[0]);
    assert_eq!((df2, dr2), (0, 0));
    assert_eq!(m.conn_list[0].last_frame_total_forward_traffic, 700);
}

#[test]
fn aggregate_counters_saturate_instead_of_wrapping() {
    let mut m = Monitor::new();
    m.handle_action(MonitorAction::ConnInit { id: 1, port: 443 }, 1);
    m.handle_action(MonitorAction::ForwardTraffic { id: 1, length: u64::MAX - 10 }, 1);
    m.handle_action(MonitorAction::ForwardTraffic { id: 1, length: 100 }, 1);
    assert_eq!(m.total_forward_traffic, u64::MAX);
    assert_eq!(m.conn_list[0].total_forward_traffic, u64::MAX);
}

#[test]
fn drain_step_decisions() {
    // Data moves and counts; a timeout ends the pass; a zero read is fatal.
    assert_eq!(drain_step(&ReadOutcome::Data(4096), 1000, Side::Client), Ok((5096, true)));
    assert_eq!(drain_step(&ReadOutcome::TimedOut, 1000, Side::Client), Ok((1000, false)));
    assert_eq!(
        drain_step(&ReadOutcome::Data(0), 1000, Side::Upstream),
        Err(RelayError::PeerClosed(Side::Upstream))
    );
}

#[test]
fn heartbeat_cadence_five_seconds() {
    let mut w = RelayWorker::new(1, 80);
    let _ = w.on_start();
    let req = b"GET / HTTP/1.1\r\nHost: example.com\r\n\r\n";
    let name = w.on_first_read(req).expect("sniff must succeed");
    assert_eq!(name, b"example.com".to_vec());
    let _ = w.on_connect_ok(name, req.len());

    // At t=3 the last heartbeat stamp is 0 but only 3 seconds have passed.
    let acts = w.on_relay_round(0, 0, 3);
    assert_eq!(acts.len(), 0);
    assert_eq!(w.last_heartbeat_timestamp, 0);

    // At t=5 five seconds have passed: one heartbeat, nothing drained.
    let acts = w.on_relay_round(0, 0, 5);
    assert_eq!(acts.len(), 1);
    assert!(matches!(acts[0], MonitorAction::Heartbeat { id: 1, timestamp: 5 }));
    assert_eq!(w.last_heartbeat_timestamp, 5);

    // At t=9 only four seconds have passed since the last heartbeat.
    let acts = w.on_relay_round(0, 0, 9);
    assert_eq!(acts.len(), 0);
    assert_eq!(w.last_heartbeat_timestamp, 5);

    // At t=10 one is due again, after the traffic reports.
    let acts = w.on_relay_round(10, 20, 10);
    assert_eq!(acts.len(), 3);
    assert!(matches!(acts[0], MonitorAction::ReceiveTraffic { id: 1, length: 10 }));
    assert!(matches!(acts[1], MonitorAction::ForwardTraffic { id: 1, length: 20 }));
    assert!(matches!(acts[2], MonitorAction::Heartbeat { id: 1, timestamp: 10 }));
}

#[test]
fn empty_first_read_abandons_connection() {
    let mut w = RelayWorker::new(2, 443);
    let _ = w.on_start();
    assert!(w.on_first_read(&[]).is_none());
    assert_eq!(w.phase, RelayPhase::Closed);
}

#[test]
fn sniff_failure_closes_worker() {
    let mut w = RelayWorker::new(2, 80);
    let _ = w.on_start();
    assert!(w.on_first_read(b"GET / HTTP/1.1\r\nAccept: */*\r\n\r\n").is_none());
    assert_eq!(w.phase, RelayPhase::Closed);
}
