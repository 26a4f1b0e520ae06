use vstd::prelude::*;

use crate::protocol::{DiscoveredDevice, DiscoveryBroadcast, APP_IDENTIFIER, DISCOVERY_PORT};
use crate::text::{decimal, push_char, push_decimal};

verus! {

/// An IPv4 address and netmask, octet by octet.
#[derive(Debug, Clone, Copy, PartialEq, Eq)]
pub struct Ipv4Net {
    pub ip: [u8; 4],
    pub netmask: [u8; 4],
}

/// One local network interface: whether it is a loopback interface, and
/// its IPv4 address, if it has one.
#[derive(Debug, Clone, Copy, PartialEq, Eq)]
pub struct InterfaceAddr {
    pub is_loopback: bool,
    pub v4: Option<Ipv4Net>,
}

/// The directed broadcast octet: `ip | !mask`.
pub open spec fn broadcast_octet(ip: u8, mask: u8) -> u8 {
    ip | !mask
}

/// `a.b.c.d:port`, each number in decimal.
pub open spec fn socket_text(o: Seq<u8>, port: u16) -> Seq<char> {
    decimal(o[0] as nat) + seq!['.'] + decimal(o[1] as nat) + seq!['.'] + decimal(o[2] as nat)
        + seq!['.'] + decimal(o[3] as nat) + seq![':'] + decimal(port as nat)
}

/// The broadcast address of a network, with the discovery port.
pub open spec fn broadcast_target(net: Ipv4Net) -> Seq<char> {
    socket_text(
        seq![
            broadcast_octet(net.ip[0], net.netmask[0]),
            broadcast_octet(net.ip[1], net.netmask[1]),
            broadcast_octet(net.ip[2], net.netmask[2]),
            broadcast_octet(net.ip[3], net.netmask[3]),
        ],
        DISCOVERY_PORT,
    )
}

/// The limited broadcast address, with the discovery port.
pub open spec fn fallback_target() -> Seq<char> {
    socket_text(seq![255u8, 255u8, 255u8, 255u8], DISCOVERY_PORT)
}

/// The broadcast target of each non-loopback IPv4 interface, in order.
pub open spec fn interface_targets(ifaces: Seq<InterfaceAddr>) -> Seq<Seq<char>>
    decreases ifaces.len(),
{
    if ifaces.len() == 0 {
        Seq::empty()
    } else {
        let rest = interface_targets(ifaces.drop_last());
        let last = ifaces.last();
        if !last.is_loopback && last.v4 is Some {
            rest.push(broadcast_target(last.v4->0))
        } else {
            rest
        }
    }
}

/// `s` with every repeat of an earlier element left out.
pub open spec fn dedup(s: Seq<Seq<char>>) -> Seq<Seq<char>>
    decreases s.len(),
{
    if s.len() == 0 {
        s
    } else {
        let rest = dedup(s.drop_last());
        if rest.contains(s.last()) { rest } else { rest.push(s.last()) }
    }
}

pub open spec fn no_duplicates(s: Seq<Seq<char>>) -> bool {
    forall|i: int, j: int| 0 <= i < j < s.len() ==> s[i] != s[j]
}

pub open spec fn texts(v: Seq<String>) -> Seq<Seq<char>> {
    v.map_values(|s: String| s@)
}

/// The discovery targets for the given interfaces: each non-loopback IPv4
/// interface's broadcast address, then the limited broadcast address, each
/// with the discovery port, without repeats.
pub open spec fn broadcast_targets(ifaces: Seq<InterfaceAddr>) -> Seq<Seq<char>> {
    dedup(interface_targets(ifaces).push(fallback_target()))
}

proof fn lemma_dedup_facts(s: Seq<Seq<char>>)
    ensures
        no_duplicates(dedup(s)),
        forall|x: Seq<char>| dedup(s).contains(x) <==> s.contains(x),
    decreases s.len(),
{
    if s.len() > 0 {
        let init = s.drop_last();
        lemma_dedup_facts(init);
        assert forall|x: Seq<char>| dedup(s).contains(x) <==> s.contains(x) by {
            if s.contains(x) && x != s.last() {
                let k = choose|k: int| 0 <= k < s.len() && s[k] == x;
                assert(init[k] == x);
            }
            if init.contains(x) {
                let k = choose|k: int| 0 <= k < init.len() && init[k] == x;
                assert(s[k] == x);
            }
            if dedup(s).contains(x) && x != s.last() {
                assert(dedup(init).contains(x)) by {
                    let d = dedup(init);
                    if !d.contains(s.last()) {
                        let k = choose|k: int| 0 <= k < d.push(s.last()).len() && d.push(s.last())[k] == x;
                        assert(d[k] == x);
                    }
                }
            }
            if x == s.last() && !dedup(init).contains(x) {
                assert(dedup(s)[dedup(init).len() as int] == x);
            }
            if dedup(init).contains(x) && !dedup(init).contains(s.last()) {
                let d = dedup(init);
                let k = choose|k: int| 0 <= k < d.len() && d[k] == x;
                assert(d.push(s.last())[k] == x);
            }
        }
    }
}

fn octets_text(out: &mut String, o: [u8; 4], port: u16)
    ensures
        final(out)@ == old(out)@ + socket_text(o@, port),
{
    push_decimal(out, o[0] as u64);
    push_char(out, '.');
    push_decimal(out, o[1] as u64);
    push_char(out, '.');
    push_decimal(out, o[2] as u64);
    push_char(out, '.');
    push_decimal(out, o[3] as u64);
    push_char(out, ':');
    push_decimal(out, port as u64);
    assert(final(out)@ =~= old(out)@ + socket_text(o@, port));
}

fn target_of(net: &Ipv4Net) -> (r: String)
    ensures
        r@ == broadcast_target(*net),
{
    let o: [u8; 4] = [
        net.ip[0] | !net.netmask[0],
        net.ip[1] | !net.netmask[1],
        net.ip[2] | !net.netmask[2],
        net.ip[3] | !net.netmask[3],
    ];
    let mut out = String::new();
    octets_text(&mut out, o, DISCOVERY_PORT);
    assert(o@ =~= seq![
        broadcast_octet(net.ip[0], net.netmask[0]),
        broadcast_octet(net.ip[1], net.netmask[1]),
        broadcast_octet(net.ip[2], net.netmask[2]),
        broadcast_octet(net.ip[3], net.netmask[3]),
    ]);
    out
}

fn contains_text(v: &Vec<String>, s: &String) -> (r: bool)
    ensures
        r == texts(v@).contains(s@),
{
    let mut i: usize = 0;
    while i < v.len()
        invariant
            i <= v.len(),
            forall|j: int| 0 <= j < i ==> v@[j]@ != s@,
        decreases v.len() - i,
    {
        if v[i] == *s {
            assert(texts(v@)[i as int] == s@);
            return true;
        }
        i += 1;
    }
    assert forall|k: int| 0 <= k < texts(v@).len() implies texts(v@)[k] != s@ by {
        assert(texts(v@)[k] == v@[k]@);
    }
    false
}

fn push_unique(v: &mut Vec<String>, s: String)
    ensures
        texts(final(v)@) == if texts(old(v)@).contains(s@) { texts(old(v)@) } else { texts(old(v)@).push(s@) },
{
    if !contains_text(v, &s) {
        let ghost before = v@;
        v.push(s);
        assert(texts(v@) =~= texts(before).push(v@.last()@));
    }
}

/// The addresses a discovery probe goes to: the directed broadcast address
/// (`ip | !netmask`) of every non-loopback IPv4 interface, then the limited
/// broadcast address `255.255.255.255`, each as `a.b.c.d:port` with the
/// discovery port, without repeats. Never empty.
pub fn compute_broadcast_targets(interfaces: &Vec<InterfaceAddr>) -> (r: Vec<String>)
    ensures
        texts(r@) == broadcast_targets(interfaces@),
        no_duplicates(texts(r@)),
        texts(r@).contains(fallback_target()),
        forall|i: int| 0 <= i < interfaces@.len() && !interfaces@[i].is_loopback && interfaces@[i].v4 is Some
            ==> texts(r@).contains(broadcast_target(interfaces@[i].v4->0)),
{
    let mut targets: Vec<String> = Vec::new();
    let mut i: usize = 0;
    while i < interfaces.len()
        invariant
            i <= interfaces.len(),
            texts(targets@) == dedup(interface_targets(interfaces@.subrange(0, i as int))),
        decreases interfaces.len() - i,
    {
        let ghost pre = interfaces@.subrange(0, i as int);
        assert(interfaces@.subrange(0, i + 1).drop_last() == pre);
        let iface = interfaces[i];
        if !iface.is_loopback {
            if let Some(net) = iface.v4 {
                push_unique(&mut targets, target_of(&net));
                assert(interface_targets(interfaces@.subrange(0, i + 1)).drop_last() == interface_targets(pre));
            }
        }
        i += 1;
    }
    assert(interfaces@.subrange(0, i as int) == interfaces@);
    let ghost cands = interface_targets(interfaces@);
    let mut fallback = String::new();
    octets_text(&mut fallback, [255u8, 255u8, 255u8, 255u8], DISCOVERY_PORT);
    assert(fallback@ == fallback_target()) by {
        assert([255u8, 255u8, 255u8, 255u8]@ =~= seq![255u8, 255u8, 255u8, 255u8]);
    }
    push_unique(&mut targets, fallback);
    assert(cands.push(fallback_target()).drop_last() == cands);
    proof {
        lemma_dedup_facts(cands.push(fallback_target()));
        lemma_interface_targets_cover(interfaces@);
        assert(cands.push(fallback_target())[cands.len() as int] == fallback_target());
        assert(texts(targets@) == dedup(cands.push(fallback_target())));
        assert(cands.push(fallback_target()).contains(fallback_target()));
        assert forall|i: int| 0 <= i < interfaces@.len() && !interfaces@[i].is_loopback && interfaces@[i].v4 is Some
            implies texts(targets@).contains(broadcast_target(interfaces@[i].v4->0)) by {
            let x = broadcast_target(interfaces@[i].v4->0);
            assert(cands.contains(x));
            let k = choose|k: int| 0 <= k < cands.len() && cands[k] == x;
            assert(cands.push(fallback_target())[k] == x);
            assert(cands.push(fallback_target()).contains(x));
        }
    }
    targets
}

proof fn lemma_interface_targets_cover(ifaces: Seq<InterfaceAddr>)
    ensures
        forall|i: int| 0 <= i < ifaces.len() && !ifaces[i].is_loopback && ifaces[i].v4 is Some
            ==> interface_targets(ifaces).contains(broadcast_target(ifaces[i].v4->0)),
    decreases ifaces.len(),
{
    if ifaces.len() > 0 {
        let init = ifaces.drop_last();
        lemma_interface_targets_cover(init);
        let t = interface_targets(ifaces);
        assert forall|i: int| 0 <= i < ifaces.len() && !ifaces[i].is_loopback && ifaces[i].v4 is Some
            implies t.contains(broadcast_target(ifaces[i].v4->0)) by {
            if i < init.len() {
                assert(init[i] == ifaces[i]);
                let x = broadcast_target(ifaces[i].v4->0);
                let k = choose|k: int| 0 <= k < interface_targets(init).len() && interface_targets(init)[k] == x;
                if !ifaces.last().is_loopback && ifaces.last().v4 is Some {
                    assert(t[k] == x);
                }
            } else {
                assert(t[t.len() - 1] == broadcast_target(ifaces[i].v4->0));
            }
        }
    }
}

/// The probe that identifies this application family: `AVENTURAS_DISCOVER`.
pub open spec fn discovery_magic() -> Seq<u8> {
    seq![65u8, 86u8, 69u8, 78u8, 84u8, 85u8, 82u8, 65u8, 83u8, 95u8, 68u8, 73u8, 83u8, 67u8, 79u8, 86u8, 69u8, 82u8]
}

/// A datagram that begins with the probe bytes.
pub open spec fn starts_with_magic(d: Seq<u8>) -> bool {
    d.len() >= discovery_magic().len() && d.subrange(0, discovery_magic().len() as int) == discovery_magic()
}

/// Milliseconds the responder waits after a failed receive.
pub const RESPONDER_BACKOFF_MS: u64 = 100;

/// Milliseconds the requester collects replies after sending its probes.
pub const COLLECT_WINDOW_MS: u64 = 2000;

/// Milliseconds the requester rests between two rounds.
pub const ROUND_PAUSE_MS: u64 = 3000;

/// The probe's bytes.
pub fn discovery_request() -> (r: Vec<u8>)
    ensures
        r@ == discovery_magic(),
{
    let r: Vec<u8> = vec![65u8, 86u8, 69u8, 78u8, 84u8, 85u8, 82u8, 65u8, 83u8, 95u8, 68u8, 73u8, 83u8, 67u8, 79u8, 86u8, 69u8, 82u8];
    assert(r@ =~= discovery_magic());
    r
}

/// Whether a received datagram is a discovery probe: it begins with the
/// probe bytes; anything after them is ignored.
pub fn is_discovery_request(datagram: &[u8]) -> (r: bool)
    ensures
        r == starts_with_magic(datagram@),
{
    let magic = discovery_request();
    if datagram.len() < magic.len() {
        return false;
    }
    let mut i: usize = 0;
    while i < magic.len()
        invariant
            magic@ == discovery_magic(),
            datagram@.len() >= magic@.len(),
            i <= magic.len(),
            datagram@.subrange(0, i as int) == magic@.subrange(0, i as int),
        decreases magic.len() - i,
    {
        if datagram[i] != magic[i] {
            assert(datagram@.subrange(0, magic@.len() as int)[i as int] != magic@[i as int]);
            return false;
        }
        assert(datagram@.subrange(0, i + 1) =~= datagram@.subrange(0, i as int).push(datagram@[i as int]));
        assert(magic@.subrange(0, i + 1) =~= magic@.subrange(0, i as int).push(magic@[i as int]));
        i += 1;
    }
    assert(magic@.subrange(0, i as int) == magic@);
    true
}

/// What the discovery responder learned from its socket.
#[derive(Debug, Clone, PartialEq, Eq)]
pub enum ResponderEvent {
    /// A datagram arrived; the reply, if any, goes back to its sender only.
    Datagram { bytes: Vec<u8> },
    /// Receiving failed.
    ReceiveFailed,
}

/// What the discovery responder does next.
#[derive(Debug, Clone, Copy, PartialEq, Eq)]
pub enum ResponderAction {
    /// Send the connection info back to the datagram's sender.
    Reply,
    /// Drop the datagram and keep listening.
    Ignore,
    /// Wait, then keep listening.
    Backoff { millis: u64 },
}

/// The responder's decision: reply to a probe, ignore any other datagram,
/// and back off briefly after a failed receive. It never stops by itself.
pub fn responder_step(event: &ResponderEvent) -> (r: ResponderAction)
    ensures
        event matches ResponderEvent::Datagram { bytes } ==> (r == if starts_with_magic(bytes@) {
            ResponderAction::Reply
        } else {
            ResponderAction::Ignore
        }),
        event is ReceiveFailed ==> r == (ResponderAction::Backoff { millis: RESPONDER_BACKOFF_MS }),
{
    match event {
        ResponderEvent::Datagram { bytes } => {
            if is_discovery_request(bytes.as_slice()) {
                ResponderAction::Reply
            } else {
                ResponderAction::Ignore
            }
        },
        ResponderEvent::ReceiveFailed => ResponderAction::Backoff { millis: RESPONDER_BACKOFF_MS },
    }
}

/// The responder's answer: the application identifier and how to reach
/// the server; never the session token.
pub fn discovery_response(ip: String, port: u16, version: String, device_name: String) -> (r: DiscoveryBroadcast)
    ensures
        r.app@ == APP_IDENTIFIER@,
        r.ip == ip,
        r.port == port,
        r.version == version,
        r.device_name == device_name,
{
    DiscoveryBroadcast { app: APP_IDENTIFIER.to_owned(), ip, port, version, device_name }
}

pub open spec fn ips_unique(devices: Seq<DiscoveredDevice>) -> bool {
    forall|i: int, j: int| 0 <= i < j < devices.len() ==> devices[i].ip@ != devices[j].ip@
}

/// `devices` with `device` in the place of the entry with its address, or
/// added at the end where there is none.
pub open spec fn upserted(devices: Seq<DiscoveredDevice>, device: DiscoveredDevice) -> Seq<DiscoveredDevice> {
    if exists|i: int| 0 <= i < devices.len() && devices[i].ip@ == device.ip@ {
        let i = choose|i: int| 0 <= i < devices.len() && devices[i].ip@ == device.ip@;
        devices.update(i, device)
    } else {
        devices.push(device)
    }
}

/// The device a reply describes.
pub open spec fn device_of(b: DiscoveryBroadcast) -> DiscoveredDevice {
    DiscoveredDevice { ip: b.ip, port: b.port, version: b.version, device_name: b.device_name }
}

/// A reply is admitted when it parsed and names this application exactly.
pub open spec fn admitted(reply: Option<DiscoveryBroadcast>) -> bool {
    reply matches Some(b) && b.app@ == APP_IDENTIFIER@
}

/// The device list after a reply: an admitted reply's device takes the
/// place of the entry with its address (latest wins) or is added; any other
/// reply leaves the list as it was.
pub open spec fn after_reply(devices: Seq<DiscoveredDevice>, reply: Option<DiscoveryBroadcast>) -> Seq<DiscoveredDevice> {
    if admitted(reply) { upserted(devices, device_of(reply->0)) } else { devices }
}

/// Records `device`, replacing the entry with the same address, if any.
pub fn upsert_device(devices: &mut Vec<DiscoveredDevice>, device: DiscoveredDevice)
    requires
        ips_unique(old(devices)@),
    ensures
        final(devices)@ == upserted(old(devices)@, device),
        ips_unique(final(devices)@),
{
    let mut i: usize = 0;
    while i < devices.len()
        invariant
            i <= devices.len(),
            devices@ == old(devices)@,
            ips_unique(devices@),
            forall|j: int| 0 <= j < i ==> devices@[j].ip@ != device.ip@,
        decreases devices.len() - i,
    {
        if devices[i].ip == device.ip {
            let ghost idx = i as int;
            proof {
                let c = choose|k: int| 0 <= k < devices@.len() && devices@[k].ip@ == device.ip@;
                assert(devices@[idx].ip@ == device.ip@);
                assert(c == idx) by {
                    if c < idx {
                        assert(devices@[c].ip@ != devices@[idx].ip@);
                    } else if c > idx {
                        assert(devices@[idx].ip@ != devices@[c].ip@);
                    }
                }
            }
            let ghost before = devices@;
            devices.set(i, device);
            assert forall|a: int, b: int| 0 <= a < b < devices@.len() implies devices@[a].ip@ != devices@[b].ip@ by {
                assert(devices@[a].ip@ == before[a].ip@);
                assert(devices@[b].ip@ == before[b].ip@);
            }
            return;
        }
        i += 1;
    }
    devices.push(device);
}

/// Handles one reply: an admitted one is recorded (see `after_reply`), a
/// foreign or unparsable one is ignored. Returns whether it was admitted.
pub fn accept_reply(devices: &mut Vec<DiscoveredDevice>, reply: Option<DiscoveryBroadcast>) -> (r: bool)
    requires
        ips_unique(old(devices)@),
    ensures
        r == admitted(reply),
        final(devices)@ == after_reply(old(devices)@, reply),
        ips_unique(final(devices)@),
{
    match reply {
        Some(b) => {
            if b.app.as_str().to_owned() == APP_IDENTIFIER.to_owned() {
                let device = DiscoveredDevice {
                    ip: b.ip,
                    port: b.port,
                    version: b.version,
                    device_name: b.device_name,
                };
                upsert_device(devices, device);
                true
            } else {
                false
            }
        },
        None => false,
    }
}

/// Where the discovery requester is in its round.
#[derive(Debug, Clone, Copy, PartialEq, Eq)]
pub enum RequesterPhase {
    /// About to send probes.
    Probing,
    /// Collecting replies until the deadline (milliseconds).
    Collecting { deadline_ms: u64 },
    /// Resting before the next round.
    Pausing,
}

/// What the requester's driver reports.
#[derive(Debug, Clone, PartialEq, Eq)]
pub enum RequesterEvent {
    /// The probes went out at `now_ms`.
    ProbesSent { now_ms: u64 },
    /// A datagram arrived at `now_ms`; `reply` is what it parsed to, if it
    /// parsed as a discovery reply at all.
    Reply { now_ms: u64, reply: Option<DiscoveryBroadcast> },
    /// Receiving timed out or failed.
    ReceiveEnded,
    /// The pause between rounds is over.
    PauseElapsed,
}

/// What the requester's driver does next.
#[derive(Debug, Clone, Copy, PartialEq, Eq)]
pub enum RequesterAction {
    /// Send the probe to every broadcast target.
    SendProbes,
    /// Wait for a reply, at most this long.
    Receive { timeout_ms: u64 },
    /// Rest this long.
    Pause { millis: u64 },
}

/// Collect while the deadline is ahead, else rest.
pub open spec fn collect_until(deadline_ms: u64, now_ms: u64) -> (RequesterPhase, RequesterAction) {
    if deadline_ms > now_ms {
        (RequesterPhase::Collecting { deadline_ms }, RequesterAction::Receive { timeout_ms: (deadline_ms - now_ms) as u64 })
    } else {
        (RequesterPhase::Pausing, RequesterAction::Pause { millis: ROUND_PAUSE_MS })
    }
}

/// The requester's next phase and action: after the probes, collect for the
/// collection window; after a reply, collect for what is left of it; when
/// it has run out or receiving ends, rest; after resting, probe again.
pub open spec fn requester_next(phase: RequesterPhase, event: RequesterEvent) -> (RequesterPhase, RequesterAction) {
    match event {
        RequesterEvent::ProbesSent { now_ms } => {
            let deadline = if now_ms + COLLECT_WINDOW_MS <= u64::MAX { (now_ms + COLLECT_WINDOW_MS) as u64 } else { u64::MAX };
            collect_until(deadline, now_ms)
        },
        RequesterEvent::Reply { now_ms, reply } => match phase {
            RequesterPhase::Collecting { deadline_ms } => collect_until(deadline_ms, now_ms),
            _ => (RequesterPhase::Pausing, RequesterAction::Pause { millis: ROUND_PAUSE_MS }),
        },
        RequesterEvent::ReceiveEnded => (RequesterPhase::Pausing, RequesterAction::Pause { millis: ROUND_PAUSE_MS }),
        RequesterEvent::PauseElapsed => (RequesterPhase::Probing, RequesterAction::SendProbes),
    }
}

/// The device list after an event: only a reply can change it.
pub open spec fn devices_after(devices: Seq<DiscoveredDevice>, event: RequesterEvent) -> Seq<DiscoveredDevice> {
    match event {
        RequesterEvent::Reply { reply, .. } => after_reply(devices, reply),
        _ => devices,
    }
}

/// The discovery requester: its phase and the servers it has found, at
/// most one per address.
#[derive(Debug, Clone)]
pub struct DiscoveryRequester {
    phase: RequesterPhase,
    devices: Vec<DiscoveredDevice>,
}

fn copy_device(d: &DiscoveredDevice) -> (r: DiscoveredDevice)
    ensures
        r == *d,
{
    DiscoveredDevice {
        ip: d.ip.clone(),
        port: d.port,
        version: d.version.clone(),
        device_name: d.device_name.clone(),
    }
}

fn collect_step(deadline_ms: u64, now_ms: u64) -> (r: (RequesterPhase, RequesterAction))
    ensures
        r == collect_until(deadline_ms, now_ms),
{
    if deadline_ms > now_ms {
        (RequesterPhase::Collecting { deadline_ms }, RequesterAction::Receive { timeout_ms: deadline_ms - now_ms })
    } else {
        (RequesterPhase::Pausing, RequesterAction::Pause { millis: ROUND_PAUSE_MS })
    }
}

impl DiscoveryRequester {
    pub closed spec fn phase_spec(&self) -> RequesterPhase {
        self.phase
    }

    pub closed spec fn devices_spec(&self) -> Seq<DiscoveredDevice> {
        self.devices@
    }

    /// At most one device per address.
    pub closed spec fn wf(&self) -> bool {
        ips_unique(self.devices@)
    }

    /// A requester that has found nothing yet and is about to probe.
    pub fn new() -> (r: Self)
        ensures
            r.wf(),
            r.phase_spec() == RequesterPhase::Probing,
            r.devices_spec().len() == 0,
    {
        DiscoveryRequester { phase: RequesterPhase::Probing, devices: Vec::new() }
    }

    /// The current phase.
    pub fn phase(&self) -> (r: RequesterPhase)
        ensures
            r == self.phase_spec(),
    {
        self.phase
    }

    /// The servers found so far, in the order first seen.
    pub fn devices(&self) -> (r: Vec<DiscoveredDevice>)
        ensures
            r@ == self.devices_spec(),
    {
        let mut out: Vec<DiscoveredDevice> = Vec::new();
        let mut i: usize = 0;
        while i < self.devices.len()
            invariant
                i <= self.devices.len(),
                out@ == self.devices@.subrange(0, i as int),
            decreases self.devices.len() - i,
        {
            out.push(copy_device(&self.devices[i]));
            assert(out@ =~= self.devices@.subrange(0, i + 1));
            i += 1;
        }
        out
    }

    /// Forgets the servers found so far.
    pub fn clear_devices(&mut self)
        ensures
            final(self).wf(),
            final(self).devices_spec().len() == 0,
            final(self).phase_spec() == old(self).phase_spec(),
    {
        self.devices.clear();
    }

    /// Takes one event and says what to do next. A reply that does not
    /// parse or names another application changes nothing but the phase,
    /// and no event ends the requester.
    pub fn step(&mut self, event: RequesterEvent) -> (r: RequesterAction)
        requires
            old(self).wf(),
        ensures
            final(self).wf(),
            (final(self).phase_spec(), r) == requester_next(old(self).phase_spec(), event),
            final(self).devices_spec() == devices_after(old(self).devices_spec(), event),
    {
        let (phase, action) = match event {
            RequesterEvent::ProbesSent { now_ms } => collect_step(now_ms.saturating_add(COLLECT_WINDOW_MS), now_ms),
            RequesterEvent::Reply { now_ms, reply } => {
                accept_reply(&mut self.devices, reply);
                match self.phase {
                    RequesterPhase::Collecting { deadline_ms } => collect_step(deadline_ms, now_ms),
                    _ => (RequesterPhase::Pausing, RequesterAction::Pause { millis: ROUND_PAUSE_MS }),
                }
            },
            RequesterEvent::ReceiveEnded => (RequesterPhase::Pausing, RequesterAction::Pause { millis: ROUND_PAUSE_MS }),
            RequesterEvent::PauseElapsed => (RequesterPhase::Probing, RequesterAction::SendProbes),
        };
        self.phase = phase;
        action
    }
}

/// A datagram that did not parse, or that names another application,
/// leaves the found servers as they were; while the collection window is
/// open the requester keeps receiving for what is left of it.
pub proof fn lemma_foreign_reply_ignored(
    devices: Seq<DiscoveredDevice>,
    deadline_ms: u64,
    now_ms: u64,
    reply: Option<DiscoveryBroadcast>,
)
    requires
        !admitted(reply),
        now_ms < deadline_ms,
    ensures
        devices_after(devices, RequesterEvent::Reply { now_ms, reply }) == devices,
        requester_next(RequesterPhase::Collecting { deadline_ms }, RequesterEvent::Reply { now_ms, reply }) == (
            RequesterPhase::Collecting { deadline_ms },
            RequesterAction::Receive { timeout_ms: (deadline_ms - now_ms) as u64 },
        ),
{
}

/// Latest wins: after admitted replies from one address, exactly one entry
/// has that address, and it is the last reply's device.
pub proof fn lemma_latest_reply_wins(devices: Seq<DiscoveredDevice>, first: DiscoveryBroadcast, second: DiscoveryBroadcast)
    requires
        ips_unique(devices),
        admitted(Some(first)),
        admitted(Some(second)),
        first.ip@ == second.ip@,
    ensures
        ({
            let after = after_reply(after_reply(devices, Some(first)), Some(second));
            &&& ips_unique(after)
            &&& exists|i: int| 0 <= i < after.len() && after[i] == device_of(second)
            &&& forall|i: int| 0 <= i < after.len() && after[i].ip@ == second.ip@ ==> after[i] == device_of(second)
        }),
{
    let mid = after_reply(devices, Some(first));
    lemma_upsert_facts(devices, device_of(first));
    lemma_upsert_facts(mid, device_of(second));
}

proof fn lemma_upsert_facts(devices: Seq<DiscoveredDevice>, device: DiscoveredDevice)
    requires
        ips_unique(devices),
    ensures
        ({
            let after = upserted(devices, device);
            &&& ips_unique(after)
            &&& exists|i: int| 0 <= i < after.len() && after[i] == device
            &&& forall|i: int| 0 <= i < after.len() && after[i].ip@ == device.ip@ ==> after[i] == device
        }),
{
    let after = upserted(devices, device);
    if exists|i: int| 0 <= i < devices.len() && devices[i].ip@ == device.ip@ {
        let k = choose|i: int| 0 <= i < devices.len() && devices[i].ip@ == device.ip@;
        assert(after[k] == device);
        assert forall|i: int| 0 <= i < after.len() && after[i].ip@ == device.ip@ implies after[i] == device by {
            if i != k {
                if i < k {
                    assert(devices[i].ip@ != devices[k].ip@);
                } else {
                    assert(devices[k].ip@ != devices[i].ip@);
                }
            }
        }
        assert forall|a: int, b: int| 0 <= a < b < after.len() implies after[a].ip@ != after[b].ip@ by {
            assert(after[a].ip@ == devices[a].ip@ || a == k);
            if a == k {
                assert(devices[k].ip@ != devices[b].ip@);
            } else if b == k {
                assert(devices[a].ip@ != devices[k].ip@);
            }
        }
    } else {
        assert(after[devices.len() as int] == device);
        assert forall|a: int, b: int| 0 <= a < b < after.len() implies after[a].ip@ != after[b].ip@ by {
            if b == devices.len() {
                assert(after[a] == devices[a]);
            } else {
                assert(after[a] == devices[a] && after[b] == devices[b]);
            }
        }
    }
}

} // verus!
