use aventuras_sync::discovery::{
    accept_reply, compute_broadcast_targets, discovery_request, discovery_response,
    is_discovery_request, responder_step, upsert_device, DiscoveryRequester, InterfaceAddr,
    Ipv4Net, RequesterAction, RequesterEvent, RequesterPhase, ResponderAction, ResponderEvent,
};
use aventuras_sync::protocol::{DiscoveredDevice, DiscoveryBroadcast, APP_IDENTIFIER, DISCOVERY_PORT};

fn v4(ip: [u8; 4], netmask: [u8; 4]) -> InterfaceAddr {
    InterfaceAddr { is_loopback: false, v4: Some(Ipv4Net { ip, netmask }) }
}

fn reply(app: &str, ip: &str, name: &str) -> DiscoveryBroadcast {
    DiscoveryBroadcast {
        app: app.to_string(),
        ip: ip.to_string(),
        port: 55555,
        version: "1.0.0".to_string(),
        device_name: name.to_string(),
    }
}

#[test]
fn slash_24_interface_gives_its_broadcast_and_the_fallback() {
    let targets = compute_broadcast_targets(&vec![v4([192, 168, 1, 42], [255, 255, 255, 0])]);
    assert_eq!(targets, vec!["192.168.1.255:55556".to_string(), "255.255.255.255:55556".to_string()]);
    assert_eq!(DISCOVERY_PORT, 55556);
}

#[test]
fn loopback_and_ipv6_only_interfaces_are_skipped() {
    let lo = InterfaceAddr { is_loopback: true, v4: Some(Ipv4Net { ip: [127, 0, 0, 1], netmask: [255, 0, 0, 0] }) };
    let v6 = InterfaceAddr { is_loopback: false, v4: None };
    let targets = compute_broadcast_targets(&vec![lo, v6]);
    assert_eq!(targets, vec!["255.255.255.255:55556".to_string()]);
}

#[test]
fn no_interfaces_still_give_the_fallback() {
    assert_eq!(compute_broadcast_targets(&vec![]), vec!["255.255.255.255:55556".to_string()]);
}

#[test]
fn non_default_netmasks_and_duplicates() {
    let targets = compute_broadcast_targets(&vec![
        v4([10, 1, 2, 3], [255, 255, 0, 0]),
        v4([172, 16, 5, 9], [255, 255, 255, 252]),
        v4([10, 1, 200, 7], [255, 255, 0, 0]),
        v4([8, 8, 8, 8], [0, 0, 0, 0]),
    ]);
    assert_eq!(
        targets,
        vec![
            "10.1.255.255:55556".to_string(),
            "172.16.5.11:55556".to_string(),
            "255.255.255.255:55556".to_string(),
        ]
    );
}

#[test]
fn probe_bytes_are_the_magic() {
    assert_eq!(discovery_request(), b"AVENTURAS_DISCOVER".to_vec());
}

#[test]
fn probe_detection_checks_the_prefix() {
    assert!(is_discovery_request(b"AVENTURAS_DISCOVER"));
    assert!(is_discovery_request(b"AVENTURAS_DISCOVER and more"));
    assert!(!is_discovery_request(b"AVENTURAS_DISCOVE"));
    assert!(!is_discovery_request(b"aventuras_discover"));
    assert!(!is_discovery_request(b""));
    assert!(!is_discovery_request(b"XAVENTURAS_DISCOVER"));
}

#[test]
fn responder_replies_ignores_and_backs_off() {
    let probe = ResponderEvent::Datagram { bytes: b"AVENTURAS_DISCOVER".to_vec() };
    assert_eq!(responder_step(&probe), ResponderAction::Reply);
    let noise = ResponderEvent::Datagram { bytes: b"hello".to_vec() };
    assert_eq!(responder_step(&noise), ResponderAction::Ignore);
    assert_eq!(responder_step(&ResponderEvent::ReceiveFailed), ResponderAction::Backoff { millis: 100 });
}

#[test]
fn responder_answer_names_the_app_and_no_token() {
    let r = discovery_response("192.168.1.42".into(), 55555, "2.0.0".into(), "Android Device".into());
    assert_eq!(r.app, APP_IDENTIFIER);
    assert_eq!(r.app, "aventuras");
    assert_eq!(r.ip, "192.168.1.42");
    assert_eq!(r.port, 55555);
    assert_eq!(r.version, "2.0.0");
    assert_eq!(r.device_name, "Android Device");
}

#[test]
fn foreign_or_unparsable_replies_are_ignored() {
    let mut devices: Vec<DiscoveredDevice> = Vec::new();
    assert!(!accept_reply(&mut devices, None));
    assert!(!accept_reply(&mut devices, Some(reply("other-app", "10.0.0.5", "X"))));
    assert!(!accept_reply(&mut devices, Some(reply("Aventuras", "10.0.0.5", "X"))));
    assert!(devices.is_empty());
    assert!(accept_reply(&mut devices, Some(reply("aventuras", "10.0.0.5", "X"))));
    assert_eq!(devices.len(), 1);
    assert_eq!(devices[0].device_name, "X");
}

#[test]
fn latest_reply_per_ip_wins() {
    let mut devices: Vec<DiscoveredDevice> = Vec::new();
    accept_reply(&mut devices, Some(reply("aventuras", "10.0.0.5", "Old")));
    accept_reply(&mut devices, Some(reply("aventuras", "10.0.0.6", "Other")));
    accept_reply(&mut devices, Some(reply("aventuras", "10.0.0.5", "New")));
    assert_eq!(devices.len(), 2);
    assert_eq!(devices[0].ip, "10.0.0.5");
    assert_eq!(devices[0].device_name, "New");
    assert_eq!(devices[1].device_name, "Other");
    let d = DiscoveredDevice { ip: "10.0.0.6".into(), port: 1, version: "v".into(), device_name: "Z".into() };
    upsert_device(&mut devices, d.clone());
    assert_eq!(devices[1], d);
}

#[test]
fn requester_round_trip() {
    let mut q = DiscoveryRequester::new();
    assert_eq!(q.phase(), RequesterPhase::Probing);
    assert!(q.devices().is_empty());
    let a = q.step(RequesterEvent::ProbesSent { now_ms: 10_000 });
    assert_eq!(a, RequesterAction::Receive { timeout_ms: 2000 });
    assert_eq!(q.phase(), RequesterPhase::Collecting { deadline_ms: 12_000 });
    let a = q.step(RequesterEvent::Reply { now_ms: 10_500, reply: Some(reply("aventuras", "10.0.0.5", "Phone")) });
    assert_eq!(a, RequesterAction::Receive { timeout_ms: 1500 });
    assert_eq!(q.devices().len(), 1);
    let a = q.step(RequesterEvent::Reply { now_ms: 12_000, reply: None });
    assert_eq!(a, RequesterAction::Pause { millis: 3000 });
    assert_eq!(q.phase(), RequesterPhase::Pausing);
    let a = q.step(RequesterEvent::PauseElapsed);
    assert_eq!(a, RequesterAction::SendProbes);
    q.step(RequesterEvent::ProbesSent { now_ms: 15_000 });
    let a = q.step(RequesterEvent::ReceiveEnded);
    assert_eq!(a, RequesterAction::Pause { millis: 3000 });
    assert_eq!(q.devices().len(), 1);
    q.clear_devices();
    assert!(q.devices().is_empty());
}

#[test]
fn requester_keeps_collecting_after_garbage() {
    let mut q = DiscoveryRequester::new();
    q.step(RequesterEvent::ProbesSent { now_ms: 0 });
    let a = q.step(RequesterEvent::Reply { now_ms: 100, reply: None });
    assert_eq!(a, RequesterAction::Receive { timeout_ms: 1900 });
    let a = q.step(RequesterEvent::Reply { now_ms: 200, reply: Some(reply("nope", "10.0.0.1", "N")) });
    assert_eq!(a, RequesterAction::Receive { timeout_ms: 1800 });
    assert!(q.devices().is_empty());
}
