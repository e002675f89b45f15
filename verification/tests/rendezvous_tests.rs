use hbbs::addr::{LanMask, PeerAddr};
use hbbs::blocker::ChangeEntry;
use hbbs::table::Table;
use hbbs::keys::SecretKey;
use hbbs::rendezvous::{
    choose_local_ip, get_pk, handle_punch_hole_request, hole_sent_response, licence_mismatch,
    accepts_admin_commands, local_addr_response, register_peer, update_pk, PkStore, register_pk_outcome, relay_request, relay_route, tcp_plan, tcp_punch_hole_route, test_nat_port,
    udp_punch_hole_route, update_addr, PeerRecord, PeerSnapshot, PunchHoleDecision,
    PunchHoleFailure, PunchHoleReply, PunchHoleRequest, RegisterPkResult, Registry, RelayForward, ResponseAddr,
    RkPrecheck, Route, ServerSettings, TcpRequest,
};

const NOW: i64 = 1_700_000_000_000_000_000;

fn v4(a: u8, b: u8, c: u8, d: u8, port: u16) -> PeerAddr {
    PeerAddr::V4 { ip: u32::from_be_bytes([a, b, c, d]), port }
}

fn request(key: &str, nat_type: i32) -> PunchHoleRequest {
    PunchHoleRequest { id: "123456789".to_string(), licence_key: key.to_string(), nat_type }
}

fn fresh_peer(addr: PeerAddr) -> Option<PeerSnapshot> {
    Some(PeerSnapshot { last_reg_time: NOW - 1_000_000_000, socket_addr: addr })
}

#[test]
fn licence_must_match_when_server_has_one() {
    assert!(licence_mismatch("secret", &"other".to_string()));
    assert!(!licence_mismatch("secret", &"secret".to_string()));
    assert!(!licence_mismatch("", &"anything".to_string()));
    let d = handle_punch_hole_request("secret", &request("wrong", 1), v4(1, 1, 1, 1, 1), fresh_peer(v4(2, 2, 2, 2, 2)), NOW, &None);
    assert_eq!(d, PunchHoleDecision { reply: PunchHoleReply::Failure(PunchHoleFailure::LicenseMismatch), to: None });
}

#[test]
fn unknown_peer_does_not_exist() {
    let d = handle_punch_hole_request("", &request("", 1), v4(1, 1, 1, 1, 1), None, NOW, &None);
    assert_eq!(d.reply, PunchHoleReply::Failure(PunchHoleFailure::IdNotExist));
    assert_eq!(d.to, None);
}

#[test]
fn stale_peer_is_offline() {
    let peer = Some(PeerSnapshot { last_reg_time: NOW - 30_000_000_000, socket_addr: v4(2, 2, 2, 2, 2) });
    let d = handle_punch_hole_request("", &request("", 1), v4(1, 1, 1, 1, 1), peer, NOW, &None);
    assert_eq!(d.reply, PunchHoleReply::Failure(PunchHoleFailure::Offline));
    assert_eq!(d.to, None);
}

#[test]
fn peers_behind_one_ip_fetch_local_addresses() {
    let requester = v4(8, 8, 8, 8, 1000);
    let peer = v4(8, 8, 8, 8, 2000);
    let d = handle_punch_hole_request("k", &request("k", 3), requester, fresh_peer(peer), NOW, &None);
    assert_eq!(d.reply, PunchHoleReply::FetchLocalAddr { socket_addr: requester });
    assert_eq!(d.to, Some(peer));
}

#[test]
fn peers_on_the_lan_fetch_local_addresses() {
    let mask = Some(LanMask::parse("192.168.0.0/16").unwrap());
    let requester = v4(192, 168, 1, 2, 1000);
    let peer = PeerAddr::V6 { ip: 0xffff_c0a8_0203, port: 2000, flowinfo: 0, scope_id: 0 };
    let d = handle_punch_hole_request("", &request("", 3), requester, fresh_peer(peer), NOW, &mask);
    assert_eq!(d.reply, PunchHoleReply::FetchLocalAddr { socket_addr: requester });
    assert_eq!(d.to, Some(peer));
}

#[test]
fn distant_peers_punch_a_hole() {
    let requester = v4(1, 2, 3, 4, 1000);
    let peer = v4(5, 6, 7, 8, 2000);
    let d = handle_punch_hole_request("", &request("", 2), requester, fresh_peer(peer), NOW, &None);
    assert_eq!(d.reply, PunchHoleReply::PunchHole { socket_addr: requester, nat_type: 2 });
    assert_eq!(d.to, Some(peer));
    // swapping who asks gives the same kind of answer
    let back = handle_punch_hole_request("", &request("", 2), peer, fresh_peer(requester), NOW, &None);
    assert!(matches!(back.reply, PunchHoleReply::PunchHole { .. }));
}

#[test]
fn punch_hole_routes() {
    let requester = PeerAddr::V6 { ip: 0xffff_0102_0304, port: 5, flowinfo: 0, scope_id: 0 };
    let peer = v4(9, 9, 9, 9, 9);
    let forward = PunchHoleDecision { reply: PunchHoleReply::PunchHole { socket_addr: requester, nat_type: 0 }, to: Some(peer) };
    let refuse = PunchHoleDecision { reply: PunchHoleReply::Failure(PunchHoleFailure::Offline), to: None };
    assert_eq!(tcp_punch_hole_route(&forward, requester), Route::Udp(peer));
    assert_eq!(tcp_punch_hole_route(&refuse, requester), Route::Tcp(v4(1, 2, 3, 4, 5)));
    assert_eq!(udp_punch_hole_route(&forward, requester), Route::Udp(peer));
    assert_eq!(udp_punch_hole_route(&refuse, requester), Route::Udp(requester));
    assert_eq!(relay_route(true, requester), Route::Udp(requester));
    assert_eq!(relay_route(false, requester), Route::Tcp(v4(1, 2, 3, 4, 5)));
}

#[test]
fn responses_carry_their_fields() {
    let r = local_addr_response(vec![1, 2, 3], vec![9], "relay".to_string());
    assert!(matches!(r.socket_addr, ResponseAddr::Encoded(ref b) if *b == vec![1, 2, 3]));
    assert!(r.is_local);
    assert_eq!(r.nat_type, None);
    let a = v4(1, 1, 1, 1, 1);
    let r = hole_sent_response(a, vec![], String::new(), Some(2));
    assert!(matches!(r.socket_addr, ResponseAddr::Addr(x) if x == a));
    assert!(!r.is_local);
    assert_eq!(r.nat_type, Some(2));
    assert_eq!(test_nat_port(&a), 1);
}

fn key() -> SecretKey {
    let (_pk, sk) = sodiumoxide::crypto::sign::gen_keypair();
    SecretKey::from_bytes(sk.0.to_vec()).unwrap()
}

#[test]
fn pk_is_signed_only_when_wanted() {
    let sk = key();
    let msg = vec![10u8, 20, 30];
    assert!(get_pk(&String::new(), &Some(key()), Some(msg.clone())).is_empty());
    assert!(get_pk(&"1.2.3".to_string(), &None, Some(msg.clone())).is_empty());
    assert!(get_pk(&"1.2.3".to_string(), &Some(key()), None).is_empty());
    let pk_bytes: [u8; 32] = sk.as_bytes()[32..].try_into().unwrap();
    let signed = get_pk(&"1.2.3".to_string(), &Some(sk), Some(msg.clone()));
    assert_eq!(signed.len(), 64 + msg.len());
    let opened = sodiumoxide::crypto::sign::verify(&signed, &sodiumoxide::crypto::sign::PublicKey(pk_bytes)).unwrap();
    assert_eq!(opened, msg);
}

fn record(pk: Vec<u8>, addr: PeerAddr, info_ip: &str) -> PeerRecord {
    PeerRecord {
        guid: vec![1, 2],
        uuid: vec![7; 16],
        pk,
        info_ip: info_ip.to_string(),
        socket_addr: addr,
        last_reg_time: 5,
        reg_pk_count: 0,
        reg_pk_at: 0,
    }
}

#[test]
fn register_peer_without_key_asks_for_it() {
    let mut p = record(vec![], v4(1, 1, 1, 1, 1), "1.1.1.1");
    let before_time = p.last_reg_time;
    assert!(update_addr(&mut p, v4(1, 1, 1, 1, 2), &"1.1.1.1".to_string(), NOW));
    assert_eq!(p.last_reg_time, before_time);
    assert_eq!(p.socket_addr, v4(1, 1, 1, 1, 1));
}

#[test]
fn register_peer_from_same_ip_refreshes() {
    let mut p = record(vec![1], v4(1, 1, 1, 1, 1), "1.1.1.1");
    assert!(!update_addr(&mut p, v4(1, 1, 1, 1, 2), &"1.1.1.1".to_string(), NOW));
    assert_eq!(p.last_reg_time, NOW);
    assert_eq!(p.socket_addr, v4(1, 1, 1, 1, 2));
}

#[test]
fn register_peer_from_new_ip_asks_for_key() {
    let mut p = record(vec![1], v4(1, 1, 1, 1, 1), "1.1.1.1");
    assert!(update_addr(&mut p, v4(2, 2, 2, 2, 2), &"2.2.2.2".to_string(), NOW));
    assert_eq!(p.socket_addr, v4(1, 1, 1, 1, 1));
    // without a socket address on record the IP text decides
    let mut q = record(vec![1], v4(0, 0, 0, 0, 0), "1.1.1.1");
    assert!(update_addr(&mut q, v4(2, 2, 2, 2, 2), &"2.2.2.2".to_string(), NOW));
    let mut r = record(vec![1], v4(0, 0, 0, 0, 0), "2.2.2.2");
    assert!(!update_addr(&mut r, v4(2, 2, 2, 2, 2), &"2.2.2.2".to_string(), NOW));
    // a move to the loopback address is no IP change
    let mut s = record(vec![1], v4(1, 1, 1, 1, 1), "1.1.1.1");
    assert!(!update_addr(&mut s, v4(127, 0, 0, 1, 9), &"127.0.0.1".to_string(), NOW));
}

#[test]
fn key_registration_first_checks() {
    let mut reg = Registry::new();
    let ip = "1.2.3.4".to_string();
    assert_eq!(reg.precheck_register_pk(&"12345678".to_string(), &vec![], &vec![1], &ip, 0), RkPrecheck::Ignore);
    assert_eq!(reg.precheck_register_pk(&"12345678".to_string(), &vec![1], &vec![], &ip, 0), RkPrecheck::Ignore);
    assert_eq!(
        reg.precheck_register_pk(&"12345".to_string(), &vec![1], &vec![1], &ip, 0),
        RkPrecheck::Reply(RegisterPkResult::UuidMismatch)
    );
    assert_eq!(reg.blocker.entries.len(), 0);
    assert_eq!(reg.precheck_register_pk(&"123456".to_string(), &vec![1], &vec![1], &ip, 0), RkPrecheck::Proceed);
    assert_eq!(reg.blocker.entries.len(), 1);
}

#[test]
fn key_registration_from_a_busy_ip_is_too_frequent() {
    let mut reg = Registry::new();
    let ip = "1.2.3.4".to_string();
    let id = "123456789".to_string();
    let mut answers = vec![];
    for i in 0..33u64 {
        answers.push(reg.precheck_register_pk(&id, &vec![1], &vec![1], &ip, i * 1_000_000));
    }
    // the first sighting, then 31 counted attempts, then refusal
    assert!(answers[..32].iter().all(|a| *a == RkPrecheck::Proceed));
    assert_eq!(answers[32], RkPrecheck::Reply(RegisterPkResult::TooFrequent));
}

#[test]
fn key_registration_by_new_peer() {
    let mut reg = Registry::new();
    let mut p = record(vec![], v4(0, 0, 0, 0, 0), "");
    p.uuid = vec![];
    let out = reg.register_pk(&mut p, &"123456789".to_string(), &vec![1; 16], &vec![2; 32], v4(3, 3, 3, 3, 3), &"3.3.3.3".to_string(), 10);
    assert_eq!(out.result, RegisterPkResult::Accepted);
    assert!(out.update_pk);
    assert_eq!(p.socket_addr, v4(3, 3, 3, 3, 3));
    assert_eq!(p.reg_pk_count, 1);
    assert_eq!(p.reg_pk_at, 10);
    assert_eq!(reg.changes.entries.len(), 0);
}

#[test]
fn key_registration_with_other_uuid_is_refused() {
    let mut reg = Registry::new();
    let mut p = record(vec![2; 32], v4(3, 3, 3, 3, 3), "3.3.3.3");
    let out = reg.register_pk(&mut p, &"123456789".to_string(), &vec![9; 16], &vec![2; 32], v4(3, 3, 3, 3, 4), &"3.3.3.3".to_string(), 10);
    assert_eq!(out.result, RegisterPkResult::UuidMismatch);
    assert!(!out.update_pk);
    assert_eq!(p.socket_addr, v4(3, 3, 3, 3, 3));
}

#[test]
fn key_registration_with_new_ip_and_new_key_is_refused() {
    let mut reg = Registry::new();
    let mut p = record(vec![2; 32], v4(3, 3, 3, 3, 3), "3.3.3.3");
    let out = reg.register_pk(&mut p, &"123456789".to_string(), &vec![7; 16], &vec![5; 32], v4(4, 4, 4, 4, 4), &"4.4.4.4".to_string(), 10);
    assert_eq!(out.result, RegisterPkResult::UuidMismatch);
}

#[test]
fn key_registration_from_new_ip_is_recorded() {
    let mut reg = Registry::new();
    let mut p = record(vec![2; 32], v4(3, 3, 3, 3, 3), "3.3.3.3");
    let id = "123456789".to_string();
    let out = reg.register_pk(&mut p, &id, &vec![7; 16], &vec![2; 32], v4(4, 4, 4, 4, 4), &"4.4.4.4".to_string(), 10);
    assert_eq!(out.result, RegisterPkResult::Accepted);
    assert!(out.update_pk);
    assert_eq!(reg.changes.entries.len(), 1);
    let (k, e) = reg.changes.entries.entry(0);
    assert_eq!(k, &id);
    assert_eq!(e.ips.len(), 1);
    assert_eq!(e.ips.entry(0), &("4.4.4.4".to_string(), 1));
}

#[test]
fn key_registrations_are_paced() {
    let mut reg = Registry::new();
    let mut p = record(vec![2; 32], v4(3, 3, 3, 3, 3), "3.3.3.3");
    let id = "123456789".to_string();
    let ip = "3.3.3.3".to_string();
    let mut results = vec![];
    for i in 0..4u64 {
        results.push(reg.register_pk(&mut p, &id, &vec![7; 16], &vec![2; 32], v4(3, 3, 3, 3, 3), &ip, 7_000_000_000 + i).result);
    }
    assert_eq!(results, vec![RegisterPkResult::Accepted, RegisterPkResult::Accepted, RegisterPkResult::Accepted, RegisterPkResult::TooFrequent]);
    assert_eq!(p.reg_pk_count, 3);
    // same key and IP: nothing to update
    let out = reg.register_pk(&mut p, &id, &vec![7; 16], &vec![2; 32], v4(3, 3, 3, 3, 3), &ip, 20_000_000_000);
    assert_eq!(out.result, RegisterPkResult::Accepted);
    assert!(!out.update_pk);
    assert_eq!(p.reg_pk_count, 1);
}

fn settings() -> ServerSettings {
    ServerSettings {
        serial: 3,
        version: "1.2.0".to_string(),
        software_url: "https://example.invalid/download".to_string(),
        mask: None,
        local_ip: String::new(),
    }
}

#[test]
fn configure_update_only_from_loopback_and_upward() {
    let mut s = settings();
    assert!(!s.configure_update(v4(8, 8, 8, 8, 1), 10));
    assert_eq!(s.serial, 3);
    assert!(!s.configure_update(v4(127, 0, 0, 1, 1), 2));
    assert_eq!(s.serial, 3);
    let mapped_loopback = PeerAddr::V6 { ip: 0xffff_7f00_0001, port: 1, flowinfo: 0, scope_id: 0 };
    assert!(s.configure_update(mapped_loopback, 10));
    assert_eq!(s.serial, 10);
}

#[test]
fn software_update_when_versions_differ() {
    let s = settings();
    assert_eq!(s.software_update(&"1.1.0".to_string()), Some("https://example.invalid/download".to_string()));
    assert_eq!(s.software_update(&"1.2.0".to_string()), None);
    let mut t = settings();
    t.version = String::new();
    assert_eq!(t.software_update(&"1.1.0".to_string()), None);
}

#[test]
fn local_ip_choice() {
    assert_eq!(choose_local_ip(false, Some("1.1.1.1".into()), Some("2.2.2.2".into())), "");
    assert_eq!(choose_local_ip(true, Some("1.1.1.1".into()), Some("2.2.2.2".into())), "1.1.1.1");
    assert_eq!(choose_local_ip(true, None, Some("2.2.2.2".into())), "2.2.2.2");
    assert_eq!(choose_local_ip(true, None, None), "");
}

#[test]
fn tcp_connections_kept_for_waiting_requests() {
    for k in [TcpRequest::PunchHoleRequest, TcpRequest::RequestRelay].iter() {
        let p = tcp_plan(*k);
        assert!(p.keep_sink && p.read_more);
    }
    for k in [TcpRequest::PunchHoleSent, TcpRequest::LocalAddr, TcpRequest::TestNatRequest, TcpRequest::RegisterPk, TcpRequest::Other].iter() {
        let p = tcp_plan(*k);
        assert!(!p.keep_sink && !p.read_more);
    }
}

#[test]
fn lan_check_uses_the_mask() {
    let mut s = settings();
    assert!(!s.is_lan(&v4(10, 0, 0, 1, 1)));
    s.mask = LanMask::parse("10.0.0.0/8");
    assert!(s.is_lan(&v4(10, 0, 0, 1, 1)));
}

#[test]
fn register_peer_needs_an_id() {
    let ip = "1.1.1.1".to_string();
    let mut known = Some(record(vec![1], v4(1, 1, 1, 1, 1), "1.1.1.1"));
    assert_eq!(register_peer(&String::new(), &mut known, v4(1, 1, 1, 1, 2), &ip, NOW), None);
    assert_eq!(known.as_ref().unwrap().last_reg_time, 5);
    assert_eq!(register_peer(&"peer1".to_string(), &mut known, v4(1, 1, 1, 1, 2), &ip, NOW), Some(false));
    assert_eq!(known.as_ref().unwrap().last_reg_time, NOW);
    let mut unknown = None;
    assert_eq!(register_peer(&"peer2".to_string(), &mut unknown, v4(1, 1, 1, 1, 2), &ip, NOW), Some(true));
    assert!(unknown.is_none());
}

#[test]
fn relay_requests_go_to_peers_in_memory() {
    assert_eq!(
        relay_request(Some(v4(2, 2, 2, 2, 2)), v4(1, 1, 1, 1, 1)),
        Some(RelayForward { to: v4(2, 2, 2, 2, 2), socket_addr: v4(1, 1, 1, 1, 1) })
    );
    assert_eq!(relay_request(None, v4(1, 1, 1, 1, 1)), None);
}

#[test]
fn key_registration_outcome_without_change() {
    let p = record(vec![2; 32], v4(3, 3, 3, 3, 3), "3.3.3.3");
    let o = register_pk_outcome(&p, &vec![7; 16], &vec![2; 32], &"4.4.4.4".to_string(), 10);
    assert_eq!(o.result, RegisterPkResult::Accepted);
    assert!(o.update_pk);
    let o = register_pk_outcome(&p, &vec![8; 16], &vec![2; 32], &"3.3.3.3".to_string(), 10);
    assert_eq!(o.result, RegisterPkResult::UuidMismatch);
}

#[test]
fn key_registration_fits_unless_an_accepted_move_overflows() {
    let id = "123456789".to_string();
    let mut ips = Table::new();
    ips.insert("4.4.4.4".to_string(), i32::MAX);
    let mut reg = Registry::new();
    reg.changes.entries.insert(id.clone(), ChangeEntry { at: 0, ips });
    let p = record(vec![2; 32], v4(3, 3, 3, 3, 3), "3.3.3.3");
    let ip = "4.4.4.4".to_string();
    // accepted and moving to an IP whose count is at the limit
    assert!(!reg.register_pk_fits(&p, &id, &vec![7; 16], &vec![2; 32], &ip, 10));
    // refused registrations change nothing, so they fit
    assert!(reg.register_pk_fits(&p, &id, &vec![9; 16], &vec![2; 32], &ip, 10));
    // no move
    let q = record(vec![2; 32], v4(4, 4, 4, 4, 4), "4.4.4.4");
    assert!(reg.register_pk_fits(&q, &id, &vec![7; 16], &vec![2; 32], &ip, 10));
}

#[test]
fn new_keys_are_stored() {
    let mut p = record(vec![2; 32], v4(3, 3, 3, 3, 3), "3.3.3.3");
    let store = update_pk(&mut p, v4(4, 4, 4, 4, 4), vec![8; 16], vec![9; 32], "4.4.4.4".to_string(), NOW);
    assert_eq!(store, PkStore::Update);
    assert_eq!((p.uuid.clone(), p.pk.clone(), p.info_ip.clone()), (vec![8; 16], vec![9; 32], "4.4.4.4".to_string()));
    assert_eq!((p.socket_addr, p.last_reg_time, p.guid.clone()), (v4(4, 4, 4, 4, 4), NOW, vec![1, 2]));
    p.guid = vec![];
    assert_eq!(update_pk(&mut p, v4(4, 4, 4, 4, 4), vec![8; 16], vec![9; 32], "4.4.4.4".to_string(), NOW), PkStore::Insert);
}

#[test]
fn admin_commands_only_from_loopback() {
    assert!(accepts_admin_commands(&v4(127, 0, 0, 1, 5)));
    assert!(accepts_admin_commands(&v4(127, 9, 9, 9, 5)));
    assert!(accepts_admin_commands(&PeerAddr::V6 { ip: 1, port: 5, flowinfo: 0, scope_id: 0 }));
    assert!(!accepts_admin_commands(&v4(10, 0, 0, 1, 5)));
    // as std's `IpAddr::is_loopback`, a mapped IPv4 loopback is not the IPv6 loopback
    assert!(!accepts_admin_commands(&PeerAddr::V6 { ip: 0xffff_7f00_0001, port: 5, flowinfo: 0, scope_id: 0 }));
}
