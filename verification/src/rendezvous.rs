//! The rendezvous decisions: what the server answers to each request, whom
//! it forwards a request to, and how a request changes what it remembers
//! about a peer. Transport, message encoding and the peer store are the
//! caller's; here requests and answers are plain values.
use vstd::prelude::*;
use crate::addr::{
    PeerAddr, LanMask, is_lan, is_loopback, port, same_ip, try_into_v4, spec_is_lan,
    spec_is_loopback, spec_port, spec_same_ip, spec_try_into_v4,
};
use crate::datatime_util::{
    registration_fresh, spec_registration_fresh, elapsed_secs, spec_elapsed_secs,
};
use crate::blocker::{IpBlocker, IpChanges, spec_blocker_step, spec_changes_step, spec_record_fits};
use crate::keys::{SecretKey, spec_sign};

verus! {

/// What a peer asks when it wants to reach peer `id`.
pub struct PunchHoleRequest {
    pub id: String,
    pub licence_key: String,
    pub nat_type: i32,
}

#[derive(PartialEq, Eq, Structural, Clone, Copy, Debug)]
pub enum PunchHoleFailure {
    IdNotExist,
    Offline,
    LicenseMismatch,
}

/// The message a punch-hole request produces.
#[derive(PartialEq, Eq, Structural, Clone, Copy, Debug)]
pub enum PunchHoleReply {
    /// Refusal, sent back to the requester.
    Failure(PunchHoleFailure),
    /// Sent to the wanted peer: both are on one network, so it should send
    /// its local addresses to the requester at `socket_addr`.
    FetchLocalAddr { socket_addr: PeerAddr },
    /// Sent to the wanted peer: punch a hole towards the requester at
    /// `socket_addr`, which is behind a NAT of type `nat_type`.
    PunchHole { socket_addr: PeerAddr, nat_type: i32 },
}

/// A reply and, when it goes to the wanted peer, that peer's address.
#[derive(PartialEq, Eq, Structural, Clone, Copy, Debug)]
pub struct PunchHoleDecision {
    pub reply: PunchHoleReply,
    pub to: Option<PeerAddr>,
}

/// What the server knows of the wanted peer when it is registered.
#[derive(PartialEq, Eq, Structural, Clone, Copy, Debug)]
pub struct PeerSnapshot {
    pub last_reg_time: i64,
    pub socket_addr: PeerAddr,
}

/// A server that has a licence key answers only requests carrying it.
pub open spec fn spec_licence_mismatch(key: Seq<char>, licence_key: Seq<char>) -> bool {
    key.len() > 0 && licence_key != key
}

pub fn licence_mismatch(key: &str, licence_key: &String) -> (r: bool)
    ensures
        r == spec_licence_mismatch(key@, licence_key@),
{
    !key.is_empty() && !(*licence_key == key.to_owned())
}

/// Two peers are on one intranet when both are on the LAN or both have the
/// same IP.
pub open spec fn spec_same_intranet(mask: Option<LanMask>, a: PeerAddr, b: PeerAddr) -> bool {
    (spec_is_lan(mask, a) && spec_is_lan(mask, b)) || spec_same_ip(a, b)
}

/// The answer to a punch-hole request from `addr`: a licence mismatch is
/// refused; an unknown peer does not exist; a peer whose registration is
/// stale is offline; otherwise the wanted peer is told to fetch local
/// addresses (same intranet) or to punch a hole towards the requester.
pub open spec fn spec_punch_hole(
    key: Seq<char>,
    ph: PunchHoleRequest,
    addr: PeerAddr,
    peer: Option<PeerSnapshot>,
    now: i64,
    mask: Option<LanMask>,
) -> PunchHoleDecision {
    if spec_licence_mismatch(key, ph.licence_key@) {
        PunchHoleDecision {
            reply: PunchHoleReply::Failure(PunchHoleFailure::LicenseMismatch),
            to: None,
        }
    } else {
        match peer {
            None => PunchHoleDecision {
                reply: PunchHoleReply::Failure(PunchHoleFailure::IdNotExist),
                to: None,
            },
            Some(p) => if !spec_registration_fresh(now, p.last_reg_time) {
                PunchHoleDecision {
                    reply: PunchHoleReply::Failure(PunchHoleFailure::Offline),
                    to: None,
                }
            } else if spec_same_intranet(mask, p.socket_addr, addr) {
                PunchHoleDecision {
                    reply: PunchHoleReply::FetchLocalAddr { socket_addr: addr },
                    to: Some(p.socket_addr),
                }
            } else {
                PunchHoleDecision {
                    reply: PunchHoleReply::PunchHole { socket_addr: addr, nat_type: ph.nat_type },
                    to: Some(p.socket_addr),
                }
            },
        }
    }
}

/// Decides a punch-hole request from `addr` for the peer `ph.id`, given
/// the wanted peer's registration (`None`: no such peer) and the wall-clock
/// time `now` in nanoseconds.
pub fn handle_punch_hole_request(
    key: &str,
    ph: &PunchHoleRequest,
    addr: PeerAddr,
    peer: Option<PeerSnapshot>,
    now: i64,
    mask: &Option<LanMask>,
) -> (d: PunchHoleDecision)
    requires
        !spec_licence_mismatch(key@, ph.licence_key@) ==> (peer matches Some(p) ==> i64::MIN <= now
            - p.last_reg_time <= i64::MAX),
    ensures
        d == spec_punch_hole(key@, *ph, addr, peer, now, *mask),
{
    if licence_mismatch(key, &ph.licence_key) {
        return PunchHoleDecision {
            reply: PunchHoleReply::Failure(PunchHoleFailure::LicenseMismatch),
            to: None,
        };
    }
    match peer {
        None => PunchHoleDecision {
            reply: PunchHoleReply::Failure(PunchHoleFailure::IdNotExist),
            to: None,
        },
        Some(p) => {
            if !registration_fresh(now, p.last_reg_time) {
                return PunchHoleDecision {
                    reply: PunchHoleReply::Failure(PunchHoleFailure::Offline),
                    to: None,
                };
            }
            let peer_is_lan = is_lan(mask, &p.socket_addr);
            let requester_is_lan = is_lan(mask, &addr);
            let same_intranet = (peer_is_lan && requester_is_lan) || same_ip(&p.socket_addr, &addr);
            if same_intranet {
                PunchHoleDecision {
                    reply: PunchHoleReply::FetchLocalAddr { socket_addr: addr },
                    to: Some(p.socket_addr),
                }
            } else {
                PunchHoleDecision {
                    reply: PunchHoleReply::PunchHole { socket_addr: addr, nat_type: ph.nat_type },
                    to: Some(p.socket_addr),
                }
            }
        },
    }
}

/// How a message leaves the server: as a datagram to an address, or over
/// the TCP connection kept for an address (keyed by its IPv4 form).
#[derive(PartialEq, Eq, Structural, Clone, Copy, Debug)]
pub enum Route {
    Udp(PeerAddr),
    Tcp(PeerAddr),
}

/// The punch-hole answer to a TCP request: to the wanted peer by datagram,
/// or back to the requester over its own connection.
pub fn tcp_punch_hole_route(d: &PunchHoleDecision, addr: PeerAddr) -> (r: Route)
    ensures
        r == (match d.to {
            Some(a) => Route::Udp(a),
            None => Route::Tcp(spec_try_into_v4(addr)),
        }),
{
    match d.to {
        Some(a) => Route::Udp(a),
        None => Route::Tcp(try_into_v4(addr)),
    }
}

/// The punch-hole answer to a datagram request: to the wanted peer, or
/// back to the requester.
pub fn udp_punch_hole_route(d: &PunchHoleDecision, addr: PeerAddr) -> (r: Route)
    ensures
        r == (match d.to {
            Some(a) => Route::Udp(a),
            None => Route::Udp(addr),
        }),
{
    match d.to {
        Some(a) => Route::Udp(a),
        None => Route::Udp(addr),
    }
}

/// Where the answer to a peer that relays an address goes: by datagram
/// when the request came by datagram, else over the TCP connection kept for
/// the requester.
pub fn relay_route(came_by_udp: bool, addr_a: PeerAddr) -> (r: Route)
    ensures
        r == (if came_by_udp {
            Route::Udp(addr_a)
        } else {
            Route::Tcp(spec_try_into_v4(addr_a))
        }),
{
    if came_by_udp {
        Route::Udp(addr_a)
    } else {
        Route::Tcp(try_into_v4(addr_a))
    }
}

/// The address field of a punch-hole response: bytes a peer sent in
/// already encoded form, or an address the caller encodes.
pub enum ResponseAddr {
    Encoded(Vec<u8>),
    Addr(PeerAddr),
}

/// A punch-hole response to the requester.
pub struct PunchHoleResponse {
    pub socket_addr: ResponseAddr,
    pub pk: Vec<u8>,
    pub relay_server: String,
    pub is_local: bool,
    pub nat_type: Option<i32>,
}

/// The response that passes a peer's local addresses to the requester.
pub fn local_addr_response(local_addr: Vec<u8>, pk: Vec<u8>, relay_server: String) -> (r:
    PunchHoleResponse)
    ensures
        r.socket_addr == ResponseAddr::Encoded(local_addr),
        r.pk == pk,
        r.relay_server == relay_server,
        r.is_local,
        r.nat_type is None,
{
    PunchHoleResponse {
        socket_addr: ResponseAddr::Encoded(local_addr),
        pk,
        relay_server,
        is_local: true,
        nat_type: None,
    }
}

/// The response telling the requester that peer `addr` has punched its
/// hole; `nat_type` is the peer's NAT type when it is a known one.
pub fn hole_sent_response(addr: PeerAddr, pk: Vec<u8>, relay_server: String, nat_type: Option<i32>) -> (r:
    PunchHoleResponse)
    ensures
        r.socket_addr == ResponseAddr::Addr(addr),
        r.pk == pk,
        r.relay_server == relay_server,
        !r.is_local,
        r.nat_type == nat_type,
{
    PunchHoleResponse {
        socket_addr: ResponseAddr::Addr(addr),
        pk,
        relay_server,
        is_local: false,
        nat_type,
    }
}

/// Whether a signed public key is wanted at all: the requester gave its
/// version and the server has a secret key.
pub open spec fn spec_pk_wanted(version: Seq<char>, sk: Option<SecretKey>) -> bool {
    version.len() > 0 && sk is Some
}

pub fn pk_wanted(version: &String, sk: &Option<SecretKey>) -> (r: bool)
    ensures
        r == spec_pk_wanted(version@, *sk),
{
    version.as_str().unicode_len() > 0 && sk.is_some()
}

/// The signed public key of a peer sent along a punch-hole response:
/// `id_pk` is the encoded pair of the peer's ID and public key when the
/// peer is known. It is the server's signature of that pair, or empty
/// when no key is wanted or the peer is unknown.
pub fn get_pk(version: &String, sk: &Option<SecretKey>, id_pk: Option<Vec<u8>>) -> (r: Vec<u8>)
    ensures
        !spec_pk_wanted(version@, *sk) ==> r@.len() == 0,
        spec_pk_wanted(version@, *sk) ==> (match id_pk {
            Some(m) => r@ == spec_sign(m@, sk->0@),
            None => r@.len() == 0,
        }),
{
    if !pk_wanted(version, sk) {
        return Vec::new();
    }
    match (id_pk, sk) {
        (Some(m), Some(k)) => k.sign(m.as_slice()),
        _ => Vec::new(),
    }
}

/// What the server remembers of a registered peer. `reg_pk_count` and
/// `reg_pk_at` (monotonic nanoseconds) pace its key registrations.
pub struct PeerRecord {
    pub guid: Vec<u8>,
    pub uuid: Vec<u8>,
    pub pk: Vec<u8>,
    pub info_ip: String,
    pub socket_addr: PeerAddr,
    pub last_reg_time: i64,
    pub reg_pk_count: u32,
    pub reg_pk_at: u64,
}

/// Whether two byte strings are equal.
pub fn bytes_eq(a: &Vec<u8>, b: &Vec<u8>) -> (r: bool)
    ensures
        r == (a@ == b@),
{
    if a.len() != b.len() {
        return false;
    }
    let mut i: usize = 0;
    while i < a.len()
        invariant
            i <= a@.len() == b@.len(),
            forall|j: int| 0 <= j < i ==> a@[j] == b@[j],
        decreases a@.len() - i,
    {
        if a[i] != b[i] {
            return false;
        }
        i = i + 1;
    }
    assert(a@ == b@);
    true
}

/// A registration from `addr` moves the peer to another IP when the IP
/// differs from the one on record (its socket address, or, before it has
/// one, the IP text of its info) and is not the loopback address.
pub open spec fn spec_is_ip_change(old: PeerRecord, addr: PeerAddr, ip_text: Seq<char>) -> bool {
    (if spec_port(old.socket_addr) != 0 {
        !spec_same_ip(addr, old.socket_addr)
    } else {
        ip_text != old.info_ip@
    }) && !spec_is_loopback(addr)
}

/// The server asks a registering peer for its public key when it has none
/// on record or the peer moved to another IP.
pub open spec fn spec_request_pk(old: PeerRecord, addr: PeerAddr, ip_text: Seq<char>) -> bool {
    old.pk@.len() == 0 || spec_is_ip_change(old, addr, ip_text)
}

/// A peer known in memory registers from `addr` (`ip_text` is that
/// address's IP as text) at wall-clock time `now`. Returns whether the
/// server asks for its public key. When it does not, the peer's address and
/// registration time are updated (and the caller records the new
/// registration time for the database); otherwise the record is untouched.
pub fn update_addr(peer: &mut PeerRecord, addr: PeerAddr, ip_text: &String, now: i64) -> (request_pk:
    bool)
    ensures
        request_pk == spec_request_pk(*old(peer), addr, ip_text@),
        request_pk ==> *final(peer) == *old(peer),
        !request_pk ==> *final(peer) == (PeerRecord {
            socket_addr: addr,
            last_reg_time: now,
            ..*old(peer)
        }),
{
    let ip_change = if port(&peer.socket_addr) != 0 {
        !same_ip(&addr, &peer.socket_addr)
    } else {
        !(*ip_text == peer.info_ip)
    } && !is_loopback(&addr);
    let request_pk = peer.pk.len() == 0 || ip_change;
    if !request_pk {
        peer.socket_addr = addr;
        peer.last_reg_time = now;
    }
    request_pk
}

/// Peer `id` registers from `addr`. A registration without an ID is
/// ignored (`None`: no answer, nothing changes). Otherwise the answer says
/// whether the server asks for the public key: a peer the server does not
/// hold in memory is asked for it; a known one goes by `update_addr`.
pub fn register_peer(
    id: &String,
    peer: &mut Option<PeerRecord>,
    addr: PeerAddr,
    ip_text: &String,
    now: i64,
) -> (r: Option<bool>)
    ensures
        id@.len() == 0 ==> r is None && *final(peer) == *old(peer),
        id@.len() > 0 && *old(peer) is None ==> r == Some(true) && *final(peer) == *old(peer),
        id@.len() > 0 ==> (*old(peer) matches Some(p) ==> {
            &&& r == Some(spec_request_pk(p, addr, ip_text@))
            &&& spec_request_pk(p, addr, ip_text@) ==> *final(peer) == *old(peer)
            &&& !spec_request_pk(p, addr, ip_text@) ==> *final(peer) == Some(
                PeerRecord { socket_addr: addr, last_reg_time: now, ..p },
            )
        }),
{
    if id.as_str().unicode_len() == 0 {
        return None;
    }
    match peer.take() {
        Some(mut p) => {
            let request_pk = update_addr(&mut p, addr, ip_text, now);
            *peer = Some(p);
            Some(request_pk)
        },
        None => Some(true),
    }
}

/// Where a relay request for a peer is passed on: to the wanted peer's
/// address, when the peer is held in memory, with the requester's address
/// put in the request.
#[derive(PartialEq, Eq, Structural, Clone, Copy, Debug)]
pub struct RelayForward {
    pub to: PeerAddr,
    pub socket_addr: PeerAddr,
}

/// A relay request from `addr` for a peer whose address in memory is
/// `peer_addr` (`None`: not in memory, and the request is dropped).
pub fn relay_request(peer_addr: Option<PeerAddr>, addr: PeerAddr) -> (r: Option<RelayForward>)
    ensures
        r == (match peer_addr {
            Some(p) => Some(RelayForward { to: p, socket_addr: addr }),
            None => None,
        }),
{
    match peer_addr {
        Some(p) => Some(RelayForward { to: p, socket_addr: addr }),
        None => None,
    }
}

/// How a peer's new key reaches the database: a peer without a database
/// row (empty guid) is inserted, any other is updated.
#[derive(PartialEq, Eq, Structural, Clone, Copy, Debug)]
pub enum PkStore {
    Insert,
    Update,
}

/// Stores a peer's new key after an accepted registration from `addr`:
/// the record takes the UUID, key, IP text and registration time `now`,
/// and the answer says whether its database row is inserted or updated.
pub fn update_pk(
    peer: &mut PeerRecord,
    addr: PeerAddr,
    uuid: Vec<u8>,
    pk: Vec<u8>,
    ip: String,
    now: i64,
) -> (store: PkStore)
    ensures
        *final(peer) == (PeerRecord {
            socket_addr: addr,
            uuid,
            pk,
            info_ip: ip,
            last_reg_time: now,
            ..*old(peer)
        }),
        store == (if old(peer).guid@.len() == 0 {
            PkStore::Insert
        } else {
            PkStore::Update
        }),
{
    peer.socket_addr = addr;
    peer.uuid = uuid;
    peer.pk = pk;
    peer.info_ip = ip;
    peer.last_reg_time = now;
    if peer.guid.len() == 0 {
        PkStore::Insert
    } else {
        PkStore::Update
    }
}

/// Administration commands are taken only from the loopback address
/// (IPv4 127.0.0.0/8 or IPv6 `::1`).
pub fn accepts_admin_commands(addr: &PeerAddr) -> (r: bool)
    ensures
        r == spec_is_loopback(*addr),
{
    is_loopback(addr)
}

/// The answer to a key registration.
#[derive(PartialEq, Eq, Structural, Clone, Copy, Debug)]
pub enum RegisterPkResult {
    Accepted,
    UuidMismatch,
    TooFrequent,
    NotSupport,
}

/// The first look at a key registration, before the peer is looked up.
#[derive(PartialEq, Eq, Structural, Clone, Copy, Debug)]
pub enum RkPrecheck {
    /// Silently dropped: no UUID or no key.
    Ignore,
    Reply(RegisterPkResult),
    /// Passed on to the per-IP rate limit.
    Proceed,
}

/// A registration without UUID or key is dropped; an ID shorter than six
/// bytes is refused.
pub open spec fn spec_rk_precheck(id: Seq<char>, uuid: Seq<u8>, pk: Seq<u8>) -> RkPrecheck {
    if uuid.len() == 0 || pk.len() == 0 {
        RkPrecheck::Ignore
    } else if vstd::utf8::encode_utf8(id).len() < 6 {
        RkPrecheck::Reply(RegisterPkResult::UuidMismatch)
    } else {
        RkPrecheck::Proceed
    }
}

/// Seconds after which a peer's key-registration counter starts over.
pub const REG_PK_WINDOW: u64 = 6;

/// Key registrations a peer may make within `REG_PK_WINDOW` seconds.
pub const REG_PK_LIMIT: u32 = 2;

/// The result of a key registration by a peer on record, and whether the
/// stored key must be replaced.
#[derive(PartialEq, Eq, Structural, Clone, Copy, Debug)]
pub struct RegisterPkOutcome {
    pub result: RegisterPkResult,
    pub update_pk: bool,
}

/// What a key registration with `uuid` and `pk` from IP `ip` does to the
/// peer on record: a peer with another UUID, or with the same UUID but
/// both another IP and another key, is refused; a peer that already
/// registered more than `REG_PK_LIMIT` times within `REG_PK_WINDOW`
/// seconds is refused; otherwise it is accepted, and the stored key is
/// replaced when the peer is new or its key or IP changed.
pub open spec fn spec_register_pk(
    peer: PeerRecord,
    uuid: Seq<u8>,
    pk: Seq<u8>,
    ip: Seq<char>,
    now: u64,
) -> RegisterPkOutcome {
    let known = peer.uuid@.len() > 0;
    if known && (peer.uuid@ != uuid || (peer.info_ip@ != ip && peer.pk@ != pk)) {
        RegisterPkOutcome { result: RegisterPkResult::UuidMismatch, update_pk: false }
    } else if spec_elapsed_secs(now, peer.reg_pk_at) <= REG_PK_WINDOW && peer.reg_pk_count
        > REG_PK_LIMIT {
        RegisterPkOutcome { result: RegisterPkResult::TooFrequent, update_pk: false }
    } else {
        RegisterPkOutcome {
            result: RegisterPkResult::Accepted,
            update_pk: !known || peer.pk@ != pk || peer.info_ip@ != ip,
        }
    }
}

/// The registration counter after an accepted key registration: it starts
/// over when the window has passed.
pub open spec fn spec_reg_count_after(peer: PeerRecord, now: u64) -> u32 {
    if spec_elapsed_secs(now, peer.reg_pk_at) > REG_PK_WINDOW {
        1u32
    } else {
        (peer.reg_pk_count + 1) as u32
    }
}

/// Key registrations are paced: an accepted one leaves the peer's counter
/// at most `REG_PK_LIMIT + 1`, and a peer at that count is refused until
/// the window has passed.
pub proof fn lemma_register_pk_paced(
    peer: PeerRecord,
    uuid: Seq<u8>,
    pk: Seq<u8>,
    ip: Seq<char>,
    now: u64,
)
    ensures
        spec_register_pk(peer, uuid, pk, ip, now).result == RegisterPkResult::Accepted
            ==> spec_reg_count_after(peer, now) <= REG_PK_LIMIT + 1,
        peer.reg_pk_count > REG_PK_LIMIT && spec_elapsed_secs(now, peer.reg_pk_at) <= REG_PK_WINDOW
            ==> spec_register_pk(peer, uuid, pk, ip, now).result != RegisterPkResult::Accepted,
{
}

/// A peer on record with a UUID never gets its key replaced by a
/// registration carrying another UUID.
pub proof fn lemma_register_pk_keeps_uuid(
    peer: PeerRecord,
    uuid: Seq<u8>,
    pk: Seq<u8>,
    ip: Seq<char>,
    now: u64,
)
    requires
        peer.uuid@.len() > 0,
        peer.uuid@ != uuid,
    ensures
        spec_register_pk(peer, uuid, pk, ip, now) == (RegisterPkOutcome {
            result: RegisterPkResult::UuidMismatch,
            update_pk: false,
        }),
{
}

/// Whether two peers count as being on one intranet does not depend on
/// which of them asks.
pub proof fn lemma_same_intranet_symmetric(mask: Option<LanMask>, a: PeerAddr, b: PeerAddr)
    ensures
        spec_same_intranet(mask, a, b) == spec_same_intranet(mask, b, a),
{
}

/// A punch-hole request is passed on only to a registered, fresh peer,
/// and never when the licence key does not match; what is passed on
/// carries the requester's address.
pub proof fn lemma_punch_hole_forwarding(
    key: Seq<char>,
    ph: PunchHoleRequest,
    addr: PeerAddr,
    peer: Option<PeerSnapshot>,
    now: i64,
    mask: Option<LanMask>,
)
    ensures
        ({
            let d = spec_punch_hole(key, ph, addr, peer, now, mask);
            &&& d.to is Some <==> (!spec_licence_mismatch(key, ph.licence_key@) && peer is Some
                && spec_registration_fresh(now, peer->0.last_reg_time))
            &&& d.to matches Some(a) ==> a == peer->0.socket_addr
            &&& d.to is Some ==> (match d.reply {
                PunchHoleReply::FetchLocalAddr { socket_addr } => socket_addr == addr,
                PunchHoleReply::PunchHole { socket_addr, .. } => socket_addr == addr,
                PunchHoleReply::Failure(_) => false,
            })
            &&& d.to is None ==> d.reply is Failure
        }),
{
}

/// The result of a key registration by the peer on record, without
/// changing anything (see `spec_register_pk`).
pub fn register_pk_outcome(peer: &PeerRecord, uuid: &Vec<u8>, pk: &Vec<u8>, ip: &String, now: u64) -> (r:
    RegisterPkOutcome)
    ensures
        r == spec_register_pk(*peer, uuid@, pk@, ip@, now),
{
    let known = peer.uuid.len() > 0;
    let same_ip = *ip == peer.info_ip;
    let same_pk = bytes_eq(&peer.pk, pk);
    if known {
        if !bytes_eq(&peer.uuid, uuid) || (!same_ip && !same_pk) {
            return RegisterPkOutcome { result: RegisterPkResult::UuidMismatch, update_pk: false };
        }
    }
    if !(elapsed_secs(now, peer.reg_pk_at) > REG_PK_WINDOW) && peer.reg_pk_count > REG_PK_LIMIT {
        return RegisterPkOutcome { result: RegisterPkResult::TooFrequent, update_pk: false };
    }
    RegisterPkOutcome { result: RegisterPkResult::Accepted, update_pk: !known || !same_pk || !same_ip }
}

/// A punch-hole request that is passed on tells the wanted peer to fetch
/// local addresses exactly when both peers are on the LAN or both carry the
/// same IP; otherwise it tells it to punch a hole, with the requester's NAT
/// type.
pub proof fn lemma_punch_hole_reply_kind(
    key: Seq<char>,
    ph: PunchHoleRequest,
    addr: PeerAddr,
    peer: Option<PeerSnapshot>,
    now: i64,
    mask: Option<LanMask>,
)
    requires
        !spec_licence_mismatch(key, ph.licence_key@),
        peer is Some,
        spec_registration_fresh(now, peer->0.last_reg_time),
    ensures
        ({
            let p = peer->0.socket_addr;
            let d = spec_punch_hole(key, ph, addr, peer, now, mask);
            let near = (spec_is_lan(mask, p) && spec_is_lan(mask, addr)) || spec_same_ip(p, addr);
            &&& d.to == Some(p)
            &&& near ==> d.reply == PunchHoleReply::FetchLocalAddr { socket_addr: addr }
            &&& !near ==> d.reply == PunchHoleReply::PunchHole {
                socket_addr: addr,
                nat_type: ph.nat_type,
            }
        }),
{
}

/// An accepted key registration stores the key exactly when the peer had
/// no UUID yet, or its key or IP differs from the one on record; a refused
/// one never stores it. A registration is refused for a UUID that differs
/// from the one on record, or for both another IP and another key, or when
/// the peer registered more than `REG_PK_LIMIT` times within the window.
pub proof fn lemma_register_pk_stores_changes(
    peer: PeerRecord,
    uuid: Seq<u8>,
    pk: Seq<u8>,
    ip: Seq<char>,
    now: u64,
)
    ensures
        ({
            let o = spec_register_pk(peer, uuid, pk, ip, now);
            let known = peer.uuid@.len() > 0;
            let mismatch = known && (peer.uuid@ != uuid || (peer.info_ip@ != ip && peer.pk@ != pk));
            let busy = spec_elapsed_secs(now, peer.reg_pk_at) <= REG_PK_WINDOW && peer.reg_pk_count
                > REG_PK_LIMIT;
            &&& mismatch ==> o.result == RegisterPkResult::UuidMismatch
            &&& !mismatch && busy ==> o.result == RegisterPkResult::TooFrequent
            &&& !mismatch && !busy ==> o.result == RegisterPkResult::Accepted
            &&& o.result == RegisterPkResult::Accepted ==> (o.update_pk <==> (!known || peer.pk@ != pk
                || peer.info_ip@ != ip))
            &&& o.result != RegisterPkResult::Accepted ==> !o.update_pk
        }),
{
}

/// The peer's IP moved with this registration.
pub open spec fn spec_rk_ip_changed(peer: PeerRecord, ip: Seq<char>) -> bool {
    peer.uuid@.len() > 0 && peer.info_ip@ != ip
}

/// The rate limits and IP history the server keeps across requests.
pub struct Registry {
    pub blocker: IpBlocker,
    pub changes: IpChanges,
}

impl Registry {
    pub open spec fn wf(self) -> bool {
        self.blocker.wf() && self.changes.wf()
    }

    pub fn new() -> (r: Registry)
        ensures
            r.wf(),
            r.blocker.entries.view().len() == 0,
            r.changes.entries.view().len() == 0,
    {
        Registry { blocker: IpBlocker::new(), changes: IpChanges::new() }
    }

    /// The checks of a key registration from IP `ip` before the peer is
    /// looked up. Only a registration that passes the first checks counts
    /// against the IP's rate limit; refusal there answers `TooFrequent`.
    pub fn precheck_register_pk(
        &mut self,
        id: &String,
        uuid: &Vec<u8>,
        pk: &Vec<u8>,
        ip: &String,
        now: u64,
    ) -> (r: RkPrecheck)
        requires
            old(self).wf(),
        ensures
            final(self).wf(),
            spec_rk_precheck(id@, uuid@, pk@) != RkPrecheck::Proceed ==> r == spec_rk_precheck(
                id@,
                uuid@,
                pk@,
            ) && *final(self) == *old(self),
            spec_rk_precheck(id@, uuid@, pk@) == RkPrecheck::Proceed ==> {
                let ok = r == RkPrecheck::Proceed;
                &&& ok || r == RkPrecheck::Reply(RegisterPkResult::TooFrequent)
                &&& spec_blocker_step(
                    old(self).blocker.entries.view(),
                    final(self).blocker.entries.view(),
                    *ip,
                    *id,
                    now,
                    ok,
                )
            },
            final(self).changes == old(self).changes,
    {
        if uuid.len() == 0 || pk.len() == 0 {
            return RkPrecheck::Ignore;
        }
        if id.as_str().as_bytes().len() < 6 {
            return RkPrecheck::Reply(RegisterPkResult::UuidMismatch);
        }
        if self.blocker.check_ip_blocker(ip, id, now) {
            RkPrecheck::Proceed
        } else {
            RkPrecheck::Reply(RegisterPkResult::TooFrequent)
        }
    }

    /// Whether `register_pk` can take this registration: an accepted one
    /// that moves the peer's IP must leave room in the IP's count.
    pub fn register_pk_fits(
        &self,
        peer: &PeerRecord,
        id: &String,
        uuid: &Vec<u8>,
        pk: &Vec<u8>,
        ip: &String,
        now: u64,
    ) -> (r: bool)
        requires
            self.wf(),
        ensures
            r == (spec_register_pk(*peer, uuid@, pk@, ip@, now).result == RegisterPkResult::Accepted
                && spec_rk_ip_changed(*peer, ip@) ==> spec_record_fits(
                self.changes.entries.view(),
                id@,
                ip@,
                now,
            )),
    {
        let o = register_pk_outcome(peer, uuid, pk, ip, now);
        let ip_changed = peer.uuid.len() > 0 && !(*ip == peer.info_ip);
        if o.result == RegisterPkResult::Accepted && ip_changed {
            self.changes.record_fits(id, ip, now)
        } else {
            true
        }
    }

    /// A key registration by the peer on record `peer`, from `addr` (whose
    /// IP as text is `ip`) at monotonic time `now`. An accepted registration
    /// counts against the peer's pace, moves the peer to `addr`, and, when
    /// the peer's IP moved, is added to the IP history; a refused one
    /// changes nothing.
    pub fn register_pk(
        &mut self,
        peer: &mut PeerRecord,
        id: &String,
        uuid: &Vec<u8>,
        pk: &Vec<u8>,
        addr: PeerAddr,
        ip: &String,
        now: u64,
    ) -> (r: RegisterPkOutcome)
        requires
            old(self).wf(),
            spec_register_pk(*old(peer), uuid@, pk@, ip@, now).result == RegisterPkResult::Accepted
                && spec_rk_ip_changed(*old(peer), ip@) ==> spec_record_fits(
                old(self).changes.entries.view(),
                id@,
                ip@,
                now,
            ),
        ensures
            final(self).wf(),
            r == spec_register_pk(*old(peer), uuid@, pk@, ip@, now),
            r.result != RegisterPkResult::Accepted ==> *final(peer) == *old(peer) && *final(self) == *old(
                self,
            ),
            r.result == RegisterPkResult::Accepted ==> {
                &&& *final(peer) == (PeerRecord {
                    socket_addr: addr,
                    reg_pk_count: spec_reg_count_after(*old(peer), now),
                    reg_pk_at: now,
                    ..*old(peer)
                })
                &&& final(self).blocker == old(self).blocker
                &&& !spec_rk_ip_changed(*old(peer), ip@) ==> final(self).changes == old(
                    self,
                ).changes
                &&& spec_rk_ip_changed(*old(peer), ip@) ==> spec_changes_step(
                    old(self).changes.entries.view(),
                    final(self).changes.entries.view(),
                    *id,
                    *ip,
                    now,
                )
            },
    {
        let outcome = register_pk_outcome(peer, uuid, pk, ip, now);
        if outcome.result != RegisterPkResult::Accepted {
            return outcome;
        }
        let ip_changed = peer.uuid.len() > 0 && !(*ip == peer.info_ip);
        let window_over = elapsed_secs(now, peer.reg_pk_at) > REG_PK_WINDOW;
        let count = if window_over {
            1
        } else {
            peer.reg_pk_count + 1
        };
        peer.reg_pk_count = count;
        peer.reg_pk_at = now;
        peer.socket_addr = addr;
        if ip_changed {
            self.changes.record(id, ip, now);
        }
        outcome
    }
}

/// The configurable part of the server: update serial, advertised
/// software, LAN mask and the server's own LAN IP.
pub struct ServerSettings {
    pub serial: i32,
    pub version: String,
    pub software_url: String,
    pub mask: Option<LanMask>,
    pub local_ip: String,
}

impl ServerSettings {
    /// Whether an address is on the server's LAN.
    pub fn is_lan(&self, addr: &PeerAddr) -> (r: bool)
        ensures
            r == spec_is_lan(self.mask, *addr),
    {
        is_lan(&self.mask, addr)
    }

    /// A configuration update: taken only from the loopback address, and
    /// only when it raises the serial.
    pub fn configure_update(&mut self, addr: PeerAddr, serial: i32) -> (applied: bool)
        ensures
            applied == (spec_is_loopback(spec_try_into_v4(addr)) && serial > old(self).serial),
            final(self).serial >= old(self).serial,
            applied ==> final(self).serial == serial,
            !applied ==> final(self).serial == old(self).serial,
            final(self).version == old(self).version,
            final(self).software_url == old(self).software_url,
            final(self).mask == old(self).mask,
            final(self).local_ip == old(self).local_ip,
    {
        if is_loopback(&try_into_v4(addr)) && serial > self.serial {
            self.serial = serial;
            true
        } else {
            false
        }
    }

    /// The download URL to send a peer that reports software at `url`:
    /// only when the server knows a version and the peer's differs.
    pub fn software_update(&self, url: &String) -> (r: Option<String>)
        ensures
            r is Some <==> (self.version@.len() > 0 && url@ != self.version@),
            r matches Some(u) ==> u@ == self.software_url@,
    {
        if self.version.as_str().unicode_len() > 0 && !(*url == self.version) {
            Some(self.software_url.clone())
        } else {
            None
        }
    }
}

/// The LAN IP the server advertises: none without a LAN mask; otherwise
/// the configured one, or else the detected one, or else none.
pub fn choose_local_ip(has_mask: bool, configured: Option<String>, detected: Option<String>) -> (r:
    String)
    ensures
        !has_mask ==> r@.len() == 0,
        has_mask ==> r@ == (match configured {
            Some(c) => c@,
            None => match detected {
                Some(d) => d@,
                None => Seq::<char>::empty(),
            },
        }),
{
    if !has_mask {
        return String::new();
    }
    match configured {
        Some(c) => c,
        None => match detected {
            Some(d) => d,
            None => String::new(),
        },
    }
}

/// The kinds of message a peer sends over a TCP connection.
#[derive(PartialEq, Eq, Structural, Clone, Copy, Debug)]
pub enum TcpRequest {
    PunchHoleRequest,
    RequestRelay,
    PunchHoleSent,
    LocalAddr,
    TestNatRequest,
    RegisterPk,
    Other,
}

/// What to do with a TCP connection for a message: keep its sending half
/// to answer later (requests that wait for the other peer), and whether to
/// read more messages from it.
#[derive(PartialEq, Eq, Structural, Clone, Copy, Debug)]
pub struct TcpPlan {
    pub keep_sink: bool,
    pub read_more: bool,
}

/// Requests that wait for the other peer keep the connection's sending half
/// and go on reading; every other message ends the connection after it is
/// handled.
pub fn tcp_plan(kind: TcpRequest) -> (p: TcpPlan)
    ensures
        p.keep_sink == (kind == TcpRequest::PunchHoleRequest || kind == TcpRequest::RequestRelay),
        p.read_more == p.keep_sink,
{
    match kind {
        TcpRequest::PunchHoleRequest | TcpRequest::RequestRelay => TcpPlan {
            keep_sink: true,
            read_more: true,
        },
        _ => TcpPlan { keep_sink: false, read_more: false },
    }
}

/// The port reported back to a NAT test: the one the request came from.
pub fn test_nat_port(addr: &PeerAddr) -> (r: u16)
    ensures
        r == spec_port(*addr),
{
    port(addr)
}

} // verus!
