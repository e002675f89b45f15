//! Rate limiting of key registrations per source IP, and the record of
//! peers whose IP keeps changing.
use vstd::prelude::*;
use crate::datatime_util::{elapsed_secs, spec_elapsed_secs};
use crate::table::{Table, spec_lookup, spec_index_of, unique_keys};

verus! {

/// Seconds after which the registration counter of an IP starts over.
pub const IP_BLOCK_DUR: u64 = 60;

/// Seconds after which the set of IDs seen from an IP starts over.
pub const DAY_SECONDS: u64 = 86400;

/// Seconds after which the IP history of a peer starts over.
pub const IP_CHANGE_DUR: u64 = 180;

/// Twice `IP_CHANGE_DUR`: how long an IP history is kept for listing.
pub const IP_CHANGE_DUR_X2: u64 = 360;

/// Registrations allowed from one IP within `IP_BLOCK_DUR` before it is
/// refused.
pub const MAX_HITS: u32 = 30;

/// Distinct IDs from one IP within a day after which new IDs are refused.
pub const MAX_IDS: usize = 300;

/// What is remembered about one source IP: how many registrations it made
/// and when the last one was, and which peer IDs it registered and when
/// that set last changed. Instants are monotonic nanoseconds.
pub struct BlockEntry {
    pub hits: u32,
    pub hits_at: u64,
    pub ids: Vec<String>,
    pub ids_at: u64,
}

pub open spec fn texts(v: Seq<String>) -> Seq<Seq<char>> {
    v.map_values(|s: String| s@)
}

/// No text occurs twice.
pub open spec fn distinct_texts(v: Seq<String>) -> bool {
    forall|i: int, j: int| 0 <= i < j < v.len() ==> v[i]@ != v[j]@
}

/// Whether `v` holds a text equal to `s`.
pub fn contains_text(v: &Vec<String>, s: &String) -> (r: bool)
    ensures
        r == texts(v@).contains(s@),
{
    let mut i: usize = 0;
    while i < v.len()
        invariant
            i <= v@.len(),
            forall|j: int| 0 <= j < i ==> v@[j]@ != s@,
        decreases v@.len() - i,
    {
        if v[i] == *s {
            assert(texts(v@)[i as int] == s@);
            return true;
        }
        i = i + 1;
    }
    proof {
        if texts(v@).contains(s@) {
            let j = choose|j: int| 0 <= j < texts(v@).len() && texts(v@)[j] == s@;
            assert(v@[j]@ == s@);
        }
    }
    false
}

/// The outcome of one registration attempt from an IP that is already
/// known: whether it is allowed, and the counter fields and the time stamp
/// of the ID set afterwards (the ID set itself is `spec_ids_after`).
pub open spec fn spec_check_entry(e: BlockEntry, id: String, now: u64) -> (bool, BlockEntry) {
    let hits_expired = spec_elapsed_secs(now, e.hits_at) > IP_BLOCK_DUR;
    if !hits_expired && e.hits > MAX_HITS {
        (false, e)
    } else {
        let hits = if hits_expired {
            1u32
        } else {
            (e.hits + 1) as u32
        };
        let is_new = !texts(e.ids@).contains(id@);
        let ids_expired = spec_elapsed_secs(now, e.ids_at) > DAY_SECONDS;
        if !ids_expired && e.ids@.len() > MAX_IDS {
            (!is_new, BlockEntry { hits, hits_at: now, ids: e.ids, ids_at: e.ids_at })
        } else {
            (true, BlockEntry { hits, hits_at: now, ids: e.ids, ids_at: now })
        }
    }
}

/// The IDs an entry holds after an allowed registration that reached the
/// ID set.
pub open spec fn spec_ids_after(e: BlockEntry, id: String, now: u64) -> Seq<String> {
    let is_new = !texts(e.ids@).contains(id@);
    let base = if spec_elapsed_secs(now, e.ids_at) > DAY_SECONDS {
        Seq::<String>::empty()
    } else {
        e.ids@
    };
    if is_new {
        base.push(id)
    } else {
        base
    }
}

/// Whether the ID set of the entry is touched by an attempt: the counter
/// allowed it and the set is not full (or has expired).
pub open spec fn spec_reaches_ids(e: BlockEntry, now: u64) -> bool {
    let hits_expired = spec_elapsed_secs(now, e.hits_at) > IP_BLOCK_DUR;
    let ids_expired = spec_elapsed_secs(now, e.ids_at) > DAY_SECONDS;
    (hits_expired || e.hits <= MAX_HITS) && (ids_expired || e.ids@.len() <= MAX_IDS)
}

/// Applies one registration attempt of `id` to the entry of a known IP.
pub fn check_entry(e: &mut BlockEntry, id: &String, now: u64) -> (ok: bool)
    requires
        distinct_texts(old(e).ids@),
    ensures
        distinct_texts(final(e).ids@),
        ok == spec_check_entry(*old(e), *id, now).0,
        final(e).hits == spec_check_entry(*old(e), *id, now).1.hits,
        final(e).hits_at == spec_check_entry(*old(e), *id, now).1.hits_at,
        final(e).ids_at == spec_check_entry(*old(e), *id, now).1.ids_at,
        spec_reaches_ids(*old(e), now) ==> final(e).ids@ == spec_ids_after(*old(e), *id, now),
        !spec_reaches_ids(*old(e), now) ==> final(e).ids@ == old(e).ids@,
        old(e).ids@.len() > MAX_IDS && spec_elapsed_secs(now, old(e).ids_at) <= DAY_SECONDS
            && !texts(old(e).ids@).contains(id@) ==> !ok && final(e).ids@ == old(e).ids@,
        ok && spec_elapsed_secs(now, old(e).ids_at) > DAY_SECONDS ==> final(e).ids@ == (if texts(
            old(e).ids@,
        ).contains(id@) {
            Seq::<String>::empty()
        } else {
            seq![*id]
        }),
{
    proof {
        lemma_full_id_set(*old(e), *id, now);
    }
    let hits_expired = elapsed_secs(now, e.hits_at) > IP_BLOCK_DUR;
    if hits_expired {
        e.hits = 0;
    } else if e.hits > MAX_HITS {
        return false;
    }
    e.hits = e.hits + 1;
    e.hits_at = now;
    let is_new = !contains_text(&e.ids, id);
    let ids_expired = elapsed_secs(now, e.ids_at) > DAY_SECONDS;
    if ids_expired {
        e.ids = Vec::new();
    } else if e.ids.len() > MAX_IDS {
        return !is_new;
    }
    if is_new {
        let ghost before = e.ids@;
        e.ids.push(id.clone());
        proof {
            assert forall|i: int, j: int| 0 <= i < j < e.ids@.len() implies e.ids@[i]@
                != e.ids@[j]@ by {
                if j == before.len() {
                    assert(texts(before)[i] == before[i]@);
                }
            }
        }
    }
    e.ids_at = now;
    true
}

/// One registration attempt of `id` from `ip` as the blocker records it
/// (`t0` before, `t1` after, `ok` the verdict): an IP seen for the first
/// time is allowed and gets an empty record at the end; a known IP goes by
/// `spec_check_entry`, and every other entry stays as it was.
pub open spec fn spec_blocker_step(
    t0: Seq<(String, BlockEntry)>,
    t1: Seq<(String, BlockEntry)>,
    ip: String,
    id: String,
    now: u64,
    ok: bool,
) -> bool {
    match spec_index_of(t0, ip@) {
        None => {
            &&& ok
            &&& t1.len() == t0.len() + 1
            &&& forall|j: int| 0 <= j < t0.len() ==> t1[j] == t0[j]
            &&& t1.last().0 == ip
            &&& t1.last().1.hits == 0
            &&& t1.last().1.hits_at == now
            &&& t1.last().1.ids@.len() == 0
            &&& t1.last().1.ids_at == now
        },
        Some(i) => {
            let e = t0[i].1;
            let e2 = t1[i].1;
            &&& ok == spec_check_entry(e, id, now).0
            &&& t1.len() == t0.len()
            &&& t1[i].0 == t0[i].0
            &&& forall|j: int| 0 <= j < t0.len() && j != i ==> t1[j] == t0[j]
            &&& e2.hits == spec_check_entry(e, id, now).1.hits
            &&& e2.hits_at == spec_check_entry(e, id, now).1.hits_at
            &&& e2.ids_at == spec_check_entry(e, id, now).1.ids_at
            &&& spec_reaches_ids(e, now) ==> e2.ids@ == spec_ids_after(e, id, now)
            &&& !spec_reaches_ids(e, now) ==> e2.ids@ == e.ids@
        },
    }
}

/// The counter of an IP stays small: an attempt that is allowed leaves it
/// at most `MAX_HITS + 1`; a recent record whose counter is past
/// `MAX_HITS` refuses every attempt and stays as it was; and an ID set of
/// at most `MAX_IDS + 1` IDs never grows beyond that.
pub proof fn lemma_blocker_bounds(e: BlockEntry, id: String, now: u64)
    ensures
        spec_check_entry(e, id, now).0 ==> spec_check_entry(e, id, now).1.hits <= MAX_HITS + 1,
        spec_elapsed_secs(now, e.hits_at) <= IP_BLOCK_DUR && e.hits > MAX_HITS ==> {
            &&& !spec_check_entry(e, id, now).0
            &&& spec_check_entry(e, id, now).1 == e
            &&& !spec_reaches_ids(e, now)
        },
        e.ids@.len() <= MAX_IDS + 1 && spec_reaches_ids(e, now) ==> spec_ids_after(e, id, now).len()
            <= MAX_IDS + 1,
{
}

/// A known IP whose ID set holds more than `MAX_IDS` IDs and changed at
/// most `DAY_SECONDS` ago refuses every ID not in the set and leaves the
/// set as it is, however old its hit counter. A set older than
/// `DAY_SECONDS` is cleared by an allowed attempt, which then adds its ID
/// only when the old set did not hold it (the attempt's ID counts as new
/// or known by the set before clearing).
pub proof fn lemma_full_id_set(e: BlockEntry, id: String, now: u64)
    ensures
        e.ids@.len() > MAX_IDS && spec_elapsed_secs(now, e.ids_at) <= DAY_SECONDS && !texts(
            e.ids@,
        ).contains(id@) ==> {
            &&& !spec_check_entry(e, id, now).0
            &&& !spec_reaches_ids(e, now)
        },
        spec_check_entry(e, id, now).0 && spec_elapsed_secs(now, e.ids_at) > DAY_SECONDS ==> {
            &&& spec_reaches_ids(e, now)
            &&& spec_ids_after(e, id, now) == (if texts(e.ids@).contains(id@) {
                Seq::<String>::empty()
            } else {
                seq![id]
            })
        },
{
    if spec_check_entry(e, id, now).0 && spec_elapsed_secs(now, e.ids_at) > DAY_SECONDS {
        assert(Seq::<String>::empty().push(id) =~= seq![id]);
    }
}

/// Registrations seen per source IP.
pub struct IpBlocker {
    pub entries: Table<BlockEntry>,
}

/// Every entry of the blocker keeps its ID set free of repeats.
pub open spec fn blocker_wf(t: Seq<(String, BlockEntry)>) -> bool {
    &&& unique_keys(t)
    &&& forall|i: int| 0 <= i < t.len() ==> distinct_texts(#[trigger] t[i].1.ids@)
}

impl IpBlocker {
    pub open spec fn wf(self) -> bool {
        self.entries.wf() && blocker_wf(self.entries.view())
    }

    pub fn new() -> (b: IpBlocker)
        ensures
            b.wf(),
            b.entries.view().len() == 0,
    {
        IpBlocker { entries: Table::new() }
    }

    /// Decides whether peer `id` may register a key from `ip` now, and
    /// records the attempt. An IP seen for the first time is allowed and
    /// starts with an empty record; a known IP goes by `spec_check_entry`.
    pub fn check_ip_blocker(&mut self, ip: &String, id: &String, now: u64) -> (ok: bool)
        requires
            old(self).wf(),
        ensures
            final(self).wf(),
            spec_blocker_step(old(self).entries.view(), final(self).entries.view(), *ip, *id, now, ok),
    {
        let ghost t0 = self.entries.view();
        match self.entries.index_of(ip) {
            Some(i) => {
                let (k, mut e) = self.entries.remove_at(i);
                proof {
                    assert(distinct_texts(t0[i as int].1.ids@));
                }
                let ok = check_entry(&mut e, id, now);
                proof {
                    assert forall|j: int| 0 <= j < self.entries.view().len() implies self.entries.view()[j].0@
                        != k@ by {
                        let j0 = if j < i { j } else { j + 1 };
                        assert(self.entries.view()[j] == t0[j0]);
                    }
                }
                self.entries.insert_at(i, (k, e));
                proof {
                    let t1 = self.entries.view();
                    assert(t1 == t0.remove(i as int).insert(i as int, (k, e)));
                    assert forall|j: int| 0 <= j < t1.len() implies distinct_texts(
                        #[trigger] t1[j].1.ids@,
                    ) by {
                        if j != i {
                            assert(t1[j] == t0[j]);
                        }
                    }
                }
                ok
            },
            None => {
                let e = BlockEntry { hits: 0, hits_at: now, ids: Vec::new(), ids_at: now };
                self.entries.insert(ip.clone(), e);
                proof {
                    let t1 = self.entries.view();
                    assert(t1 == t0.push((*ip, e)));
                    assert forall|j: int| 0 <= j < t1.len() implies distinct_texts(
                        #[trigger] t1[j].1.ids@,
                    ) by {
                        if j < t0.len() {
                            assert(t1[j] == t0[j]);
                        }
                    }
                }
                true
            },
        }
    }
}

/// The IPs a peer registered from recently, with how often each was seen.
pub struct ChangeEntry {
    pub at: u64,
    pub ips: Table<i32>,
}

/// The IP history of peers, keyed by peer ID.
pub struct IpChanges {
    pub entries: Table<ChangeEntry>,
}

/// The history a peer starts with: one sighting of `ip`, at `now`.
pub open spec fn spec_fresh_ips(ip: String) -> Seq<(String, i32)> {
    seq![(ip, 1i32)]
}

/// One sighting of peer `id` at `ip` as the IP history records it (`t0`
/// before, `t1` after): a peer without history, or whose history is older
/// than `IP_CHANGE_DUR`, starts over with one sighting of `ip` at `now`;
/// otherwise the count of `ip` goes up by one (a new IP starts at one) and
/// the history keeps its start time. Other peers' histories stay as they
/// were.
pub open spec fn spec_changes_step(
    t0: Seq<(String, ChangeEntry)>,
    t1: Seq<(String, ChangeEntry)>,
    id: String,
    ip: String,
    now: u64,
) -> bool {
    match spec_index_of(t0, id@) {
        None => {
            &&& t1.len() == t0.len() + 1
            &&& forall|j: int| 0 <= j < t0.len() ==> t1[j] == t0[j]
            &&& t1.last().0 == id
            &&& t1.last().1.at == now
            &&& t1.last().1.ips.view() == spec_fresh_ips(ip)
        },
        Some(i) => {
            let e = t0[i].1;
            let e2 = t1[i].1;
            &&& t1.len() == t0.len()
            &&& t1[i].0 == t0[i].0
            &&& forall|j: int| 0 <= j < t0.len() && j != i ==> t1[j] == t0[j]
            &&& if spec_elapsed_secs(now, e.at) > IP_CHANGE_DUR {
                e2.at == now && e2.ips.view() == spec_fresh_ips(ip)
            } else {
                &&& e2.at == e.at
                &&& spec_lookup(e2.ips.view(), ip@) == Some(
                    match spec_lookup(e.ips.view(), ip@) {
                        Some(v) => (v + 1) as i32,
                        None => 1i32,
                    },
                )
                &&& forall|q: Seq<char>|
                    q != ip@ ==> spec_lookup(e2.ips.view(), q) == spec_lookup(e.ips.view(), q)
            }
        },
    }
}

/// Whether recording a sighting of `id` at `ip` keeps the count of `ip`
/// within `i32`: it only grows when the history is recent and already
/// holds `ip`.
pub open spec fn spec_record_fits(
    t0: Seq<(String, ChangeEntry)>,
    id: Seq<char>,
    ip: Seq<char>,
    now: u64,
) -> bool {
    spec_index_of(t0, id) matches Some(i) ==> (spec_elapsed_secs(now, t0[i].1.at) <= IP_CHANGE_DUR
        ==> (spec_lookup(t0[i].1.ips.view(), ip) matches Some(v) ==> v < i32::MAX))
}

impl IpChanges {
    pub open spec fn wf(self) -> bool {
        &&& self.entries.wf()
        &&& forall|i: int|
            0 <= i < self.entries.view().len() ==> (#[trigger] self.entries.view()[i]).1.ips.wf()
    }

    pub fn new() -> (c: IpChanges)
        ensures
            c.wf(),
            c.entries.view().len() == 0,
    {
        IpChanges { entries: Table::new() }
    }

    /// Whether `record` can count this sighting without overflow.
    pub fn record_fits(&self, id: &String, ip: &String, now: u64) -> (r: bool)
        requires
            self.wf(),
        ensures
            r == spec_record_fits(self.entries.view(), id@, ip@, now),
    {
        match self.entries.index_of(id) {
            Some(i) => {
                let e = &self.entries.entry(i).1;
                if elapsed_secs(now, e.at) > IP_CHANGE_DUR {
                    return true;
                }
                assert(e.ips.wf());
                match e.ips.index_of(ip) {
                    Some(j) => {
                        proof {
                            crate::table::lemma_index_of_unique(e.ips.view(), j as int);
                        }
                        e.ips.entry(j).1 < i32::MAX
                    },
                    None => true,
                }
            },
            None => true,
        }
    }

    /// Records that peer `id` registered from `ip`. A peer without history,
    /// or whose history is older than `IP_CHANGE_DUR`, starts over with one
    /// sighting of `ip`; otherwise the count of `ip` goes up by one (a new
    /// IP starts at one) and the history keeps its start time.
    pub fn record(&mut self, id: &String, ip: &String, now: u64)
        requires
            old(self).wf(),
            spec_record_fits(old(self).entries.view(), id@, ip@, now),
        ensures
            final(self).wf(),
            spec_changes_step(old(self).entries.view(), final(self).entries.view(), *id, *ip, now),
    {
        let ghost t0 = self.entries.view();
        match self.entries.index_of(id) {
            Some(i) => {
                let (k, mut e) = self.entries.remove_at(i);
                assert(e == t0[i as int].1);
                if elapsed_secs(now, e.at) > IP_CHANGE_DUR {
                    e.at = now;
                    let mut ips: Table<i32> = Table::new();
                    ips.insert(ip.clone(), 1);
                    assert(ips.view() == spec_fresh_ips(*ip));
                    e.ips = ips;
                } else {
                    match e.ips.index_of(ip) {
                        Some(j) => {
                            let v = e.ips.entry(j).1;
                            proof {
                                crate::table::lemma_index_of_unique(e.ips.view(), j as int);
                            }
                            e.ips.insert(ip.clone(), v + 1);
                        },
                        None => {
                            e.ips.insert(ip.clone(), 1);
                        },
                    }
                }
                proof {
                    assert forall|j: int| 0 <= j < self.entries.view().len() implies self.entries.view()[j].0@
                        != k@ by {
                        let j0 = if j < i { j } else { j + 1 };
                        assert(self.entries.view()[j] == t0[j0]);
                    }
                }
                self.entries.insert_at(i, (k, e));
                proof {
                    let t1 = self.entries.view();
                    assert forall|j: int| 0 <= j < t1.len() implies (#[trigger] t1[j]).1.ips.wf() by {
                        if j != i {
                            assert(t1[j] == t0[j]);
                        }
                    }
                }
            },
            None => {
                let mut ips: Table<i32> = Table::new();
                ips.insert(ip.clone(), 1);
                assert(ips.view() == spec_fresh_ips(*ip));
                self.entries.insert(id.clone(), ChangeEntry { at: now, ips });
                proof {
                    let t1 = self.entries.view();
                    assert forall|j: int| 0 <= j < t1.len() implies (#[trigger] t1[j]).1.ips.wf() by {
                        if j < t0.len() {
                            assert(t1[j] == t0[j]);
                        }
                    }
                }
            },
        }
    }
}

} // verus!
