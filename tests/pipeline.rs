use dataplane::egress::handle_tcp_egress;
use dataplane::ingress::handle_tcp_ingress;
use dataplane::maps::Maps;
use dataplane::packet::Verdict;
use dataplane::server::{BackendService, Status, Target, Targets, Vip};
use dataplane::types::{BackendKey, ClientKey, TCPState};

const FIN: u8 = 0x01;
const RST: u8 = 0x04;
const ACK: u8 = 0x10;

fn ip(a: u8, b: u8, c: u8, d: u8) -> u32 {
    u32::from_be_bytes([a, b, c, d])
}

fn frame(src: u32, sport: u16, dst: u32, dport: u16, flags: u8) -> Vec<u8> {
    let mut f = vec![0u8; 14];
    f[12] = 0x08;
    f.extend_from_slice(&[0x45, 0x00, 0x00, 0x28, 0x12, 0x34, 0x40, 0x00, 0x40, 0x06, 0x00, 0x00]);
    f.extend_from_slice(&src.to_be_bytes());
    f.extend_from_slice(&dst.to_be_bytes());
    f.extend_from_slice(&sport.to_be_bytes());
    f.extend_from_slice(&dport.to_be_bytes());
    f.extend_from_slice(&[0, 0, 0, 1, 0, 0, 0, 0, 0x50, flags, 0xff, 0xff, 0xab, 0xcd, 0, 0]);
    f
}

fn ip_dst(f: &[u8]) -> u32 {
    u32::from_be_bytes([f[30], f[31], f[32], f[33]])
}

fn ip_src(f: &[u8]) -> u32 {
    u32::from_be_bytes([f[26], f[27], f[28], f[29]])
}

fn tcp_sport(f: &[u8]) -> u16 {
    u16::from_be_bytes([f[34], f[35]])
}

fn tcp_dport(f: &[u8]) -> u16 {
    u16::from_be_bytes([f[36], f[37]])
}

fn ip_header_ok(f: &[u8]) -> bool {
    let mut sum: u32 = 0;
    for k in 0..10 {
        sum += u16::from_be_bytes([f[14 + 2 * k], f[15 + 2 * k]]) as u32;
    }
    while sum >> 16 != 0 {
        sum = (sum & 0xffff) + (sum >> 16);
    }
    sum == 0xffff
}

fn vip() -> Vip {
    Vip { ip: 0x0A000001, port: 80 }
}

fn targets(daddr: u32, dport: u32, ifindex: u32) -> Targets {
    Targets { vip: Some(vip()), target: Some(Target { daddr, dport, ifindex }) }
}

fn service() -> BackendService {
    BackendService::new(Maps::new())
}

#[test]
fn update_then_forward() {
    let mut svc = service();
    let c = svc.update(targets(0xC0A80065, 8080, 3)).unwrap();
    assert_eq!(c.confirmation, "success, vip 10.0.0.1:80 was updated");
    let mut f = frame(ip(1, 2, 3, 4), 5555, ip(10, 0, 0, 1), 80, ACK);
    let v = handle_tcp_ingress(&mut f, &mut svc.maps);
    assert_eq!(v, Verdict::Redirect { ifindex: 3 });
    assert_eq!(ip_dst(&f), ip(192, 168, 0, 101));
    assert_eq!(tcp_dport(&f), 8080);
    assert_eq!(ip_src(&f), ip(1, 2, 3, 4));
    assert_eq!(tcp_sport(&f), 5555);
    assert!(ip_header_ok(&f));
    assert_eq!([f[50], f[51]], [0, 0]);
    let e = svc.maps.connection(ClientKey { ip: ip(1, 2, 3, 4), port: 5555 }).unwrap();
    assert_eq!(e.backend_key, BackendKey { ip: 0x0A000001, port: 80 });
    assert_eq!(e.state, TCPState::Established);
    assert_eq!(e.backend.daddr, 0xC0A80065);
    assert_eq!(e.backend.ifindex, 3);
    assert_eq!(svc.maps.gateway_index(BackendKey { ip: 0x0A000001, port: 80 }), Some(0));
}

#[test]
fn return_path() {
    let mut svc = service();
    svc.update(targets(0xC0A80065, 8080, 3)).unwrap();
    let mut f = frame(ip(1, 2, 3, 4), 5555, ip(10, 0, 0, 1), 80, ACK);
    handle_tcp_ingress(&mut f, &mut svc.maps);
    let mut back = frame(ip(192, 168, 0, 101), 8080, ip(1, 2, 3, 4), 5555, ACK);
    let v = handle_tcp_egress(&mut back, &mut svc.maps);
    assert_eq!(v, Verdict::Pipe);
    assert_eq!(ip_src(&back), ip(10, 0, 0, 1));
    assert_eq!(tcp_sport(&back), 80);
    assert_eq!(ip_dst(&back), ip(1, 2, 3, 4));
    assert_eq!(tcp_dport(&back), 5555);
    assert!(ip_header_ok(&back));
}

#[test]
fn round_robin() {
    let mut svc = service();
    svc.update(targets(ip(192, 168, 0, 100), 8080, 3)).unwrap();
    svc.update(targets(ip(192, 168, 0, 101), 8080, 4)).unwrap();
    assert_eq!(svc.maps.backends_len(BackendKey { ip: 0x0A000001, port: 80 }), Some(2));
    let mut picked = Vec::new();
    for port in [1000u16, 1001, 1002] {
        let mut f = frame(ip(1, 2, 3, 4), port, ip(10, 0, 0, 1), 80, ACK);
        let v = handle_tcp_ingress(&mut f, &mut svc.maps);
        picked.push((ip_dst(&f), v));
    }
    assert_eq!(
        picked,
        vec![
            (ip(192, 168, 0, 100), Verdict::Redirect { ifindex: 3 }),
            (ip(192, 168, 0, 101), Verdict::Redirect { ifindex: 4 }),
            (ip(192, 168, 0, 100), Verdict::Redirect { ifindex: 3 }),
        ]
    );
}

#[test]
fn rst_eviction() {
    let mut svc = service();
    svc.update(targets(ip(192, 168, 0, 100), 8080, 3)).unwrap();
    svc.update(targets(ip(192, 168, 0, 101), 8080, 4)).unwrap();
    let client = ClientKey { ip: ip(1, 2, 3, 4), port: 5555 };
    let mut f = frame(ip(1, 2, 3, 4), 5555, ip(10, 0, 0, 1), 80, ACK);
    handle_tcp_ingress(&mut f, &mut svc.maps);
    assert_eq!(svc.maps.connection(client).unwrap().backend.daddr, ip(192, 168, 0, 100));
    let mut r = frame(ip(1, 2, 3, 4), 5555, ip(10, 0, 0, 1), 80, RST | ACK);
    let v = handle_tcp_ingress(&mut r, &mut svc.maps);
    assert_eq!(v, Verdict::Redirect { ifindex: 3 });
    assert_eq!(ip_dst(&r), ip(192, 168, 0, 100));
    assert!(svc.maps.connection(client).is_none());
    let mut again = frame(ip(1, 2, 3, 4), 5555, ip(10, 0, 0, 1), 80, ACK);
    let v = handle_tcp_ingress(&mut again, &mut svc.maps);
    assert_eq!(v, Verdict::Redirect { ifindex: 4 });
    assert_eq!(svc.maps.connection(client).unwrap().backend.daddr, ip(192, 168, 0, 101));
}

#[test]
fn delete_idempotence() {
    let mut svc = service();
    svc.update(targets(0xC0A80065, 8080, 3)).unwrap();
    let first = svc.delete(vip()).unwrap();
    assert_eq!(first.confirmation, "success, vip 10.0.0.1:80 was deleted");
    let second = svc.delete(vip()).unwrap();
    assert_eq!(second.confirmation, "success, vip 10.0.0.1:80 did not exist");
    let third = svc.update(targets(0xC0A80065, 8080, 3)).unwrap();
    assert_eq!(third.confirmation, "success, vip 10.0.0.1:80 was updated");
    assert_eq!(svc.maps.backends_len(BackendKey { ip: 0x0A000001, port: 80 }), Some(1));
}

#[test]
fn missing_vip_packet() {
    let mut svc = service();
    svc.update(targets(0xC0A80065, 8080, 3)).unwrap();
    let mut f = frame(ip(1, 2, 3, 4), 5555, ip(10, 9, 9, 9), 80, ACK);
    let before = f.clone();
    let v = handle_tcp_ingress(&mut f, &mut svc.maps);
    assert_eq!(v, Verdict::Pass);
    assert_eq!(f, before);
    assert!(svc.maps.connection(ClientKey { ip: ip(1, 2, 3, 4), port: 5555 }).is_none());
    assert_eq!(svc.maps.gateway_index(BackendKey { ip: ip(10, 9, 9, 9), port: 80 }), None);
    assert!(svc.maps.tcp_connections.is_empty());
}

#[test]
fn update_refuses_missing_fields() {
    let mut svc = service();
    match svc.update(Targets { vip: None, target: Some(Target { daddr: 1, dport: 2, ifindex: 3 }) }) {
        Err(Status::InvalidArgument(m)) => assert_eq!(m, "missing vip ip and port"),
        other => panic!("unexpected {:?}", other),
    }
    match svc.update(Targets { vip: Some(vip()), target: None }) {
        Err(Status::InvalidArgument(m)) => assert_eq!(m, "missing targets for vip"),
        other => panic!("unexpected {:?}", other),
    }
    assert!(svc.maps.backends.is_empty());
}

#[test]
fn update_refuses_full_list() {
    let mut svc = service();
    for i in 0..128u32 {
        svc.update(targets(i, 8080, 1)).unwrap();
    }
    match svc.update(targets(999, 8080, 1)) {
        Err(Status::ResourceExhausted(m)) => assert_eq!(m, "too many targets for vip"),
        other => panic!("unexpected {:?}", other),
    }
    assert_eq!(svc.maps.backends_len(BackendKey { ip: 0x0A000001, port: 80 }), Some(128));
}

#[test]
fn confirmation_names_address_in_dotted_quad() {
    let mut svc = service();
    let t = Targets {
        vip: Some(Vip { ip: 0xFF00A8C0, port: 65535 }),
        target: Some(Target { daddr: 1, dport: 2, ifindex: 3 }),
    };
    let c = svc.update(t).unwrap();
    assert_eq!(c.confirmation, "success, vip 255.0.168.192:65535 was updated");
}

#[test]
fn confirmation_zero_octets_and_port() {
    let mut svc = service();
    let t = Targets {
        vip: Some(Vip { ip: 0, port: 0 }),
        target: Some(Target { daddr: 1, dport: 2, ifindex: 3 }),
    };
    let c = svc.update(t).unwrap();
    assert_eq!(c.confirmation, "success, vip 0.0.0.0:0 was updated");
    let d = svc.delete(Vip { ip: 0x7F000009, port: 4294967295 }).unwrap();
    assert_eq!(d.confirmation, "success, vip 127.0.0.9:4294967295 did not exist");
}

#[test]
fn short_frames_pass() {
    let mut maps = Maps::new();
    let mut f = frame(ip(1, 2, 3, 4), 5555, ip(10, 0, 0, 1), 80, ACK);
    f.truncate(53);
    let before = f.clone();
    assert_eq!(handle_tcp_ingress(&mut f, &mut maps), Verdict::Pass);
    assert_eq!(handle_tcp_egress(&mut f, &mut maps), Verdict::Pass);
    assert_eq!(f, before);
}

#[test]
fn egress_untracked_goes_on_unchanged() {
    let mut maps = Maps::new();
    let mut f = frame(ip(192, 168, 0, 101), 8080, ip(1, 2, 3, 4), 5555, ACK);
    let before = f.clone();
    assert_eq!(handle_tcp_egress(&mut f, &mut maps), Verdict::Pipe);
    assert_eq!(f, before);
}

#[test]
fn four_way_close_evicts_flow() {
    let mut svc = service();
    svc.update(targets(0xC0A80065, 8080, 3)).unwrap();
    let client = ClientKey { ip: ip(1, 2, 3, 4), port: 5555 };
    let mut f = frame(ip(1, 2, 3, 4), 5555, ip(10, 0, 0, 1), 80, ACK);
    handle_tcp_ingress(&mut f, &mut svc.maps);
    let mut fin = frame(ip(1, 2, 3, 4), 5555, ip(10, 0, 0, 1), 80, FIN | ACK);
    handle_tcp_ingress(&mut fin, &mut svc.maps);
    assert_eq!(svc.maps.connection(client).unwrap().state, TCPState::FinWait1);
    let mut ack = frame(ip(192, 168, 0, 101), 8080, ip(1, 2, 3, 4), 5555, ACK);
    handle_tcp_egress(&mut ack, &mut svc.maps);
    assert_eq!(svc.maps.connection(client).unwrap().state, TCPState::FinWait2);
    let mut fin2 = frame(ip(192, 168, 0, 101), 8080, ip(1, 2, 3, 4), 5555, FIN | ACK);
    handle_tcp_egress(&mut fin2, &mut svc.maps);
    assert_eq!(svc.maps.connection(client).unwrap().state, TCPState::TimeWait);
    let mut last = frame(ip(1, 2, 3, 4), 5555, ip(10, 0, 0, 1), 80, ACK);
    let v = handle_tcp_ingress(&mut last, &mut svc.maps);
    assert_eq!(v, Verdict::Redirect { ifindex: 3 });
    assert!(svc.maps.connection(client).is_none());
}

#[test]
fn pinned_flow_survives_update() {
    let mut svc = service();
    svc.update(targets(ip(192, 168, 0, 100), 8080, 3)).unwrap();
    let mut f = frame(ip(1, 2, 3, 4), 5555, ip(10, 0, 0, 1), 80, ACK);
    handle_tcp_ingress(&mut f, &mut svc.maps);
    svc.delete(vip()).unwrap();
    svc.update(targets(ip(192, 168, 0, 200), 9090, 7)).unwrap();
    let mut g = frame(ip(1, 2, 3, 4), 5555, ip(10, 0, 0, 1), 80, ACK);
    let v = handle_tcp_ingress(&mut g, &mut svc.maps);
    assert_eq!(v, Verdict::Redirect { ifindex: 3 });
    assert_eq!(ip_dst(&g), ip(192, 168, 0, 100));
    assert_eq!(tcp_dport(&g), 8080);
}
