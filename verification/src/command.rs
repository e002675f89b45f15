//! The administration commands the server takes from the loopback
//! interface: help, and listing or clearing the rate-limit and IP-history
//! records. The answer is a report; its text form is the caller's.
use vstd::prelude::*;
use crate::blocker::{
    BlockEntry, ChangeEntry, IpBlocker, IpChanges, IP_BLOCK_DUR, DAY_SECONDS, IP_CHANGE_DUR_X2,
};
use crate::datatime_util::{elapsed_secs, spec_elapsed_secs};
use crate::table::{Table, filter_by_flags, spec_lookup, spec_index_of, unique_keys};
use crate::rendezvous::Registry;
use crate::report::{render_report, spec_render};
use crate::text::{parse_i32, spec_parse_i32, split_fields, split_text, spec_trim, trim_text};

verus! {

/// One line about an IP's registrations: the counter and its age in
/// seconds, the number of IDs seen and the age of that set.
#[derive(PartialEq, Eq, Structural, Clone, Copy, Debug)]
pub struct BlockLine {
    pub hits: u32,
    pub hits_secs: u64,
    pub ids: usize,
    pub ids_secs: u64,
}

/// One line about a peer's IPs: the age of its history in seconds and the
/// IPs with their counts.
pub struct ChangeLine {
    pub secs: u64,
    pub ips: Vec<(String, i32)>,
}

/// The answer to an administration command.
#[allow(inconsistent_fields)]
pub enum CmdReport {
    /// Not a command.
    Nothing,
    /// The list of commands.
    Help,
    /// The number of IPs on record, the line of the IP asked for (when it
    /// is on record), and a page of up to ten IPs with their lines.
    Blocker { count: usize, detail: Option<BlockLine>, rows: Vec<(String, BlockLine)> },
    /// The same for the IP histories of peers.
    Changes { count: usize, detail: Option<ChangeLine>, rows: Vec<(String, ChangeLine)> },
}

/// Rows per page of a listing.
pub const PAGE: usize = 10;

pub open spec fn spec_block_line(e: BlockEntry, now: u64) -> BlockLine {
    BlockLine {
        hits: e.hits,
        hits_secs: spec_elapsed_secs(now, e.hits_at),
        ids: e.ids@.len() as usize,
        ids_secs: spec_elapsed_secs(now, e.ids_at),
    }
}

/// An IP record is kept while its counter or its ID set is recent.
pub open spec fn spec_block_kept(e: BlockEntry, now: u64) -> bool {
    spec_elapsed_secs(now, e.hits_at) <= IP_BLOCK_DUR || spec_elapsed_secs(now, e.ids_at)
        <= DAY_SECONDS
}

/// An IP history is kept while it is recent and names more than one IP.
pub open spec fn spec_change_kept(e: ChangeEntry, now: u64) -> bool {
    spec_elapsed_secs(now, e.at) < IP_CHANGE_DUR_X2 && e.ips.view().len() > 1
}

pub open spec fn block_flags(t: Seq<(String, BlockEntry)>, now: u64) -> Seq<bool> {
    Seq::new(t.len(), |i: int| spec_block_kept(t[i].1, now))
}

pub open spec fn change_flags(t: Seq<(String, ChangeEntry)>, now: u64) -> Seq<bool> {
    Seq::new(t.len(), |i: int| spec_change_kept(t[i].1, now))
}

/// The words of a command: its trimmed text split at spaces.
pub open spec fn spec_words(cmd: Seq<char>) -> Seq<Seq<char>> {
    split_fields(spec_trim(cmd), ' ')
}

pub open spec fn spec_word(words: Seq<Seq<char>>, k: int) -> Option<Seq<char>> {
    if 0 <= k < words.len() {
        Some(words[k])
    } else {
        None
    }
}

/// The page start a command asks for: its first argument as a number, or
/// -1 when there is none or it is not a number.
pub open spec fn spec_start(arg: Option<Seq<char>>) -> int {
    match arg {
        Some(a) => match spec_parse_i32(a) {
            Some(v) => v as int,
            None => -1,
        },
        None => -1,
    }
}

/// The positions `start .. start + PAGE` that exist in a list of `len`.
pub open spec fn page_len(start: int, len: int) -> int {
    if start >= len {
        0
    } else if start + PAGE <= len {
        PAGE as int
    } else {
        len - start
    }
}

/// Whether the second argument asks to remove the record.
pub open spec fn spec_remove_asked(words: Seq<Seq<char>>) -> bool {
    spec_word(words, 2) == Some(seq!['-'])
}

/// Whether the first word of a command is one of the names.
pub open spec fn spec_named(word: Seq<char>, long: Seq<char>, short: Seq<char>) -> bool {
    word == long || word == short
}

/// Whether the first word names one of the listing commands.
pub open spec fn spec_lists(w0: Seq<char>) -> bool {
    spec_named(w0, "ip-blocker"@, "ib"@) || spec_named(w0, "ip-changes"@, "ic"@)
}

/// The command text is fine to run: for a listing, a page start given as a
/// number leaves room for a page after it within `i32`.
pub open spec fn spec_cmd_ok(cmd: Seq<char>) -> bool {
    let ws = spec_words(cmd);
    spec_lists(ws[0]) ==> spec_start(spec_word(ws, 1)) <= i32::MAX - PAGE
}

fn block_line(e: &BlockEntry, now: u64) -> (l: BlockLine)
    ensures
        l == spec_block_line(*e, now),
{
    BlockLine {
        hits: e.hits,
        hits_secs: elapsed_secs(now, e.hits_at),
        ids: e.ids.len(),
        ids_secs: elapsed_secs(now, e.ids_at),
    }
}

fn copy_ips(t: &Table<i32>) -> (v: Vec<(String, i32)>)
    ensures
        v@ == t.view(),
{
    let mut v: Vec<(String, i32)> = Vec::new();
    let mut i: usize = 0;
    while i < t.len()
        invariant
            i <= t.view().len(),
            v@ == t.view().take(i as int),
        decreases t.view().len() - i,
    {
        let e = t.entry(i);
        v.push((e.0.clone(), e.1));
        proof {
            assert(t.view().take(i + 1) == t.view().take(i as int).push(t.view()[i as int]));
        }
        i = i + 1;
    }
    proof {
        assert(t.view().take(t.view().len() as int) == t.view());
    }
    v
}

fn change_line(e: &ChangeEntry, now: u64) -> (l: ChangeLine)
    ensures
        l.secs == spec_elapsed_secs(now, e.at),
        l.ips@ == e.ips.view(),
{
    ChangeLine { secs: elapsed_secs(now, e.at), ips: copy_ips(&e.ips) }
}

/// Drops the IP records that are no longer recent.
pub fn prune_blocker(b: &mut IpBlocker, now: u64)
    requires
        old(b).wf(),
    ensures
        final(b).wf(),
        final(b).entries.view() == filter_by_flags(
            old(b).entries.view(),
            block_flags(old(b).entries.view(), now),
        ),
        forall|i: int|
            0 <= i < old(b).entries.view().len() ==> (final(b).entries.view().contains(
                #[trigger] old(b).entries.view()[i],
            ) <==> (spec_elapsed_secs(now, old(b).entries.view()[i].1.hits_at) <= IP_BLOCK_DUR
                || spec_elapsed_secs(now, old(b).entries.view()[i].1.ids_at) <= DAY_SECONDS)),
        forall|x: (String, BlockEntry)|
            final(b).entries.view().contains(x) ==> old(b).entries.view().contains(x),
{
    let ghost t0 = b.entries.view();
    let mut flags: Vec<bool> = Vec::new();
    let mut i: usize = 0;
    while i < b.entries.len()
        invariant
            b.entries.view() == t0,
            i <= t0.len(),
            flags@ == block_flags(t0, now).take(i as int),
        decreases t0.len() - i,
    {
        let e = b.entries.entry(i);
        let keep = elapsed_secs(now, e.1.hits_at) <= IP_BLOCK_DUR || elapsed_secs(now, e.1.ids_at)
            <= DAY_SECONDS;
        flags.push(keep);
        proof {
            assert(block_flags(t0, now).take(i + 1) == block_flags(t0, now).take(i as int).push(
                keep,
            ));
        }
        i = i + 1;
    }
    proof {
        assert(block_flags(t0, now).take(t0.len() as int) == block_flags(t0, now));
    }
    b.entries.keep(&flags);
    proof {
        lemma_filter_preserves(
            t0,
            block_flags(t0, now),
            |e: (String, BlockEntry)| crate::blocker::distinct_texts(e.1.ids@),
        );
        lemma_prune_blocker_keeps_recent(t0, now);
    }
}

/// Drops the IP histories that are old or name a single IP.
pub fn prune_changes(c: &mut IpChanges, now: u64)
    requires
        old(c).wf(),
    ensures
        final(c).wf(),
        final(c).entries.view() == filter_by_flags(
            old(c).entries.view(),
            change_flags(old(c).entries.view(), now),
        ),
{
    let ghost t0 = c.entries.view();
    let mut flags: Vec<bool> = Vec::new();
    let mut i: usize = 0;
    while i < c.entries.len()
        invariant
            c.entries.view() == t0,
            i <= t0.len(),
            flags@ == change_flags(t0, now).take(i as int),
        decreases t0.len() - i,
    {
        let e = c.entries.entry(i);
        let keep = elapsed_secs(now, e.1.at) < IP_CHANGE_DUR_X2 && e.1.ips.len() > 1;
        flags.push(keep);
        proof {
            assert(change_flags(t0, now).take(i + 1) == change_flags(t0, now).take(i as int).push(
                keep,
            ));
        }
        i = i + 1;
    }
    proof {
        assert(change_flags(t0, now).take(t0.len() as int) == change_flags(t0, now));
    }
    c.entries.keep(&flags);
    proof {
        lemma_filter_preserves(t0, change_flags(t0, now), |e: (String, ChangeEntry)| e.1.ips.wf());
    }
}

/// The line of the record under `k`, if there is one.
pub open spec fn spec_block_detail(t: Seq<(String, BlockEntry)>, k: Seq<char>, now: u64) -> Option<
    BlockLine,
> {
    match spec_lookup(t, k) {
        Some(e) => Some(spec_block_line(e, now)),
        None => None,
    }
}

/// The records after an optional removal of the one under `k`.
pub open spec fn spec_removed<V>(t: Seq<(String, V)>, k: Seq<char>, asked: bool) -> Seq<(String, V)> {
    if asked {
        match spec_index_of(t, k) {
            Some(i) => t.remove(i),
            None => t,
        }
    } else {
        t
    }
}

/// The page of records from `start` on.
pub open spec fn spec_block_rows(t: Seq<(String, BlockEntry)>, start: int, now: u64) -> Seq<
    (String, BlockLine),
> {
    Seq::new(
        page_len(start, t.len() as int) as nat,
        |j: int| (t[start + j].0, spec_block_line(t[start + j].1, now)),
    )
}

/// The page of records of `t` from `start` on, as `rows` lists them.
pub open spec fn change_rows_match(
    rows: Seq<(String, ChangeLine)>,
    t: Seq<(String, ChangeEntry)>,
    start: int,
    now: u64,
) -> bool {
    &&& rows.len() == page_len(start, t.len() as int)
    &&& forall|j: int|
        0 <= j < rows.len() ==> {
            &&& (#[trigger] rows[j]).0 == t[start + j].0
            &&& rows[j].1.secs == spec_elapsed_secs(now, t[start + j].1.at)
            &&& rows[j].1.ips@ == t[start + j].1.ips.view()
        }
}

/// The report of `ip-blocker` and the records after it (`t0` before,
/// `t_after` after): stale records are dropped first; then, when the first
/// argument is given and is not a page start, the line of that IP is shown
/// and the record removed if the second argument is `-`; otherwise the page
/// the first argument asks for (or the first page) is listed.
pub open spec fn spec_blocker_report(
    t0: Seq<(String, BlockEntry)>,
    t_after: Seq<(String, BlockEntry)>,
    ws: Seq<Seq<char>>,
    now: u64,
    r: CmdReport,
) -> bool {
    let t1 = filter_by_flags(t0, block_flags(t0, now));
    let start = spec_start(spec_word(ws, 1));
    match r {
        CmdReport::Blocker { count, detail, rows } => {
            &&& count == t1.len()
            &&& if start < 0 && spec_word(ws, 1) is Some {
                let ip = spec_word(ws, 1)->0;
                &&& detail == spec_block_detail(t1, ip, now)
                &&& rows@.len() == 0
                &&& t_after == spec_removed(t1, ip, spec_remove_asked(ws))
            } else {
                &&& detail is None
                &&& rows@ == spec_block_rows(t1, if start < 0 { 0 } else { start }, now)
                &&& t_after == t1
            }
        },
        _ => false,
    }
}

/// The report of `ip-changes` and the histories after it: stale
/// histories are dropped first; the history of the peer named by the first
/// argument is shown (and removed if the second argument is `-`) unless
/// that argument is a page start up to ten million; a page is listed when
/// the first argument is a page start or missing.
pub open spec fn spec_changes_report(
    t0: Seq<(String, ChangeEntry)>,
    t_after: Seq<(String, ChangeEntry)>,
    ws: Seq<Seq<char>>,
    now: u64,
    r: CmdReport,
) -> bool {
    let t1 = filter_by_flags(t0, change_flags(t0, now));
    let start = spec_start(spec_word(ws, 1));
    let in_range = 0 <= start <= 10_000_000;
    let shows_detail = !in_range && spec_word(ws, 1) is Some;
    let page_start = if !in_range && spec_word(ws, 1) is None {
        0
    } else {
        start
    };
    match r {
        CmdReport::Changes { count, detail, rows } => {
            &&& count == t1.len()
            &&& shows_detail ==> {
                let id = spec_word(ws, 1)->0;
                &&& match spec_lookup(t1, id) {
                    Some(e) => detail matches Some(l) && l.secs == spec_elapsed_secs(now, e.at)
                        && l.ips@ == e.ips.view(),
                    None => detail is None,
                }
                &&& t_after == spec_removed(t1, id, spec_remove_asked(ws))
            }
            &&& !shows_detail ==> detail is None && t_after == t1
            &&& page_start >= 0 ==> change_rows_match(rows@, t_after, page_start, now)
            &&& page_start < 0 ==> rows@.len() == 0
        },
        _ => false,
    }
}

/// Reads a word of a command.
fn word(words: &Vec<String>, k: usize) -> (r: Option<&String>)
    ensures
        match r {
            Some(w) => spec_word(words@.map_values(|f: String| f@), k as int) == Some(w@),
            None => spec_word(words@.map_values(|f: String| f@), k as int) is None,
        },
{
    if k < words.len() {
        Some(&words[k])
    } else {
        None
    }
}

/// The page start a command's words ask for (see `spec_start`).
fn start_of(words: &Vec<String>) -> (r: i32)
    ensures
        r as int == spec_start(spec_word(words@.map_values(|f: String| f@), 1)),
{
    match word(words, 1) {
        Some(a) => match parse_i32(a.as_str()) {
            Some(v) => v,
            None => -1,
        },
        None => -1,
    }
}

fn lists(w0: &String) -> (r: bool)
    ensures
        r == spec_lists(w0@),
{
    crate::text::text_eq(w0.as_str(), "ip-blocker") || crate::text::text_eq(w0.as_str(), "ib")
        || crate::text::text_eq(w0.as_str(), "ip-changes") || crate::text::text_eq(
        w0.as_str(),
        "ic",
    )
}

/// Whether `check_cmd` can run `cmd`: a listing must not ask for a page
/// start within `PAGE` of the largest `i32`.
pub fn cmd_ok(cmd: &str) -> (r: bool)
    ensures
        r == spec_cmd_ok(cmd@),
{
    let trimmed = trim_text(cmd);
    let words = split_text(trimmed.as_str(), ' ');
    !lists(&words[0]) || start_of(&words) <= i32::MAX - 10
}

fn block_rows(t: &Table<BlockEntry>, start: usize, now: u64) -> (rows: Vec<(String, BlockLine)>)
    ensures
        rows@ == spec_block_rows(t.view(), start as int, now),
{
    let n = t.len();
    let end = if start >= n {
        start
    } else if n - start >= PAGE {
        start + PAGE
    } else {
        n
    };
    let mut rows: Vec<(String, BlockLine)> = Vec::new();
    let mut i: usize = start;
    while i < end
        invariant
            n == t.view().len(),
            start <= i <= end,
            end == (if start >= n { start as int } else if n - start >= PAGE { start + PAGE } else { n as int }),
            rows@ == spec_block_rows(t.view(), start as int, now).take(i - start),
        decreases end - i,
    {
        let e = t.entry(i);
        let line = block_line(&e.1, now);
        rows.push((e.0.clone(), line));
        proof {
            let want = spec_block_rows(t.view(), start as int, now);
            assert(want.take(i - start + 1) == want.take(i - start).push(want[i - start]));
        }
        i = i + 1;
    }
    proof {
        let want = spec_block_rows(t.view(), start as int, now);
        assert(want.take(end - start) == want);
    }
    rows
}

fn change_rows(t: &Table<ChangeEntry>, start: usize, now: u64) -> (rows: Vec<(String, ChangeLine)>)
    ensures
        change_rows_match(rows@, t.view(), start as int, now),
{
    let n = t.len();
    let end = if start >= n {
        start
    } else if n - start >= PAGE {
        start + PAGE
    } else {
        n
    };
    let mut rows: Vec<(String, ChangeLine)> = Vec::new();
    let mut i: usize = start;
    while i < end
        invariant
            n == t.view().len(),
            start <= i <= end,
            end == (if start >= n { start as int } else if n - start >= PAGE { start + PAGE } else { n as int }),
            rows@.len() == i - start,
            forall|j: int|
                0 <= j < rows@.len() ==> {
                    &&& (#[trigger] rows@[j]).0 == t.view()[start + j].0
                    &&& rows@[j].1.secs == spec_elapsed_secs(now, t.view()[start + j].1.at)
                    &&& rows@[j].1.ips@ == t.view()[start + j].1.ips.view()
                },
        decreases end - i,
    {
        let e = t.entry(i);
        let line = change_line(&e.1, now);
        rows.push((e.0.clone(), line));
        i = i + 1;
    }
    rows
}

/// The `ip-blocker` listing: drops stale records, then either shows the
/// record of the IP given as first argument (and removes it when the
/// second argument is `-`), or, when the first argument is a page start or
/// missing, lists that page.
fn blocker_report(b: &mut IpBlocker, words: &Vec<String>, now: u64) -> (r: CmdReport)
    requires
        old(b).wf(),
        spec_start(spec_word(words@.map_values(|f: String| f@), 1)) <= i32::MAX - PAGE,
    ensures
        final(b).wf(),
        spec_blocker_report(
            old(b).entries.view(),
            final(b).entries.view(),
            words@.map_values(|f: String| f@),
            now,
            r,
        ),
{
    let ghost ws = words@.map_values(|f: String| f@);
    prune_blocker(b, now);
    let ghost t1 = b.entries.view();
    let count = b.entries.len();
    let arg = word(words, 1);
    let mut start: i32 = start_of(words);
    let mut detail: Option<BlockLine> = None;
    if start < 0 {
        match arg {
            Some(ip) => {
                match b.entries.index_of(ip) {
                    Some(i) => {
                        detail = Some(block_line(&b.entries.entry(i).1, now));
                        proof {
                            crate::table::lemma_index_of_unique(t1, i as int);
                        }
                    },
                    None => {},
                }
                let remove = match word(words, 2) {
                    Some(w) => crate::text::text_eq(w.as_str(), "-"),
                    None => false,
                };
                proof {
                    reveal_strlit("-");
                    assert("-"@ =~= seq!['-']);
                }
                if remove {
                    match b.entries.index_of(ip) {
                        Some(i) => {
                            let ghost before = b.entries.view();
                            let _ = b.entries.remove_at(i);
                            proof {
                                assert forall|j: int| 0 <= j < b.entries.view().len() implies crate::blocker::distinct_texts(
                                    #[trigger] b.entries.view()[j].1.ids@,
                                ) by {
                                    let j0 = if j < i { j } else { j + 1 };
                                    assert(b.entries.view()[j] == before[j0]);
                                }
                            }
                        },
                        None => {},
                    }
                }
            },
            None => {
                start = 0;
            },
        }
    }
    let rows = if start >= 0 {
        block_rows(&b.entries, start as usize, now)
    } else {
        Vec::new()
    };
    CmdReport::Blocker { count, detail, rows }
}

/// The `ip-changes` listing: drops stale histories, then shows the history
/// of the peer given as first argument unless that argument is a page start
/// up to ten million (removing it when the second argument is `-`), and
/// lists a page when the first argument is a page start or missing.
fn changes_report(c: &mut IpChanges, words: &Vec<String>, now: u64) -> (r: CmdReport)
    requires
        old(c).wf(),
        spec_start(spec_word(words@.map_values(|f: String| f@), 1)) <= i32::MAX - PAGE,
    ensures
        final(c).wf(),
        spec_changes_report(
            old(c).entries.view(),
            final(c).entries.view(),
            words@.map_values(|f: String| f@),
            now,
            r,
        ),
{
    let ghost ws = words@.map_values(|f: String| f@);
    prune_changes(c, now);
    let ghost t1 = c.entries.view();
    let count = c.entries.len();
    let arg = word(words, 1);
    let mut start: i32 = start_of(words);
    let mut detail: Option<ChangeLine> = None;
    if !(0 <= start && start <= 10_000_000) {
        match arg {
            Some(id) => {
                match c.entries.index_of(id) {
                    Some(i) => {
                        detail = Some(change_line(&c.entries.entry(i).1, now));
                        proof {
                            crate::table::lemma_index_of_unique(t1, i as int);
                        }
                    },
                    None => {},
                }
                let remove = match word(words, 2) {
                    Some(w) => crate::text::text_eq(w.as_str(), "-"),
                    None => false,
                };
                proof {
                    reveal_strlit("-");
                    assert("-"@ =~= seq!['-']);
                }
                if remove {
                    match c.entries.index_of(id) {
                        Some(i) => {
                            let ghost before = c.entries.view();
                            let _ = c.entries.remove_at(i);
                            proof {
                                assert forall|j: int| 0 <= j < c.entries.view().len() implies (
                                #[trigger] c.entries.view()[j]).1.ips.wf() by {
                                    let j0 = if j < i { j } else { j + 1 };
                                    assert(c.entries.view()[j] == before[j0]);
                                }
                            }
                        },
                        None => {},
                    }
                }
            },
            None => {
                start = 0;
            },
        }
    }
    let rows = if start >= 0 {
        change_rows(&c.entries, start as usize, now)
    } else {
        Vec::new()
    };
    CmdReport::Changes { count, detail, rows }
}

/// What an administration command does to the records and which report it
/// answers (`r0` before, `r1` after): `h` lists the commands, `ip-blocker`
/// (`ib`) and `ip-changes` (`ic`) report on and maintain the rate-limit
/// records and the IP histories; any other text does nothing.
pub open spec fn spec_check_cmd(r0: Registry, r1: Registry, cmd: Seq<char>, now: u64, r: CmdReport) -> bool {
    let ws = spec_words(cmd);
    let w0 = ws[0];
    if w0 == "h"@ {
        r is Help && r1 == r0
    } else if spec_named(w0, "ip-blocker"@, "ib"@) {
        &&& spec_blocker_report(r0.blocker.entries.view(), r1.blocker.entries.view(), ws, now, r)
        &&& r1.changes == r0.changes
    } else if spec_named(w0, "ip-changes"@, "ic"@) {
        &&& spec_changes_report(r0.changes.entries.view(), r1.changes.entries.view(), ws, now, r)
        &&& r1.blocker == r0.blocker
    } else {
        r is Nothing && r1 == r0
    }
}

/// Runs an administration command given as text at monotonic time `now`
/// and returns its report (see `spec_check_cmd`).
pub fn cmd_report(reg: &mut Registry, cmd: &str, now: u64) -> (r: CmdReport)
    requires
        old(reg).wf(),
        spec_cmd_ok(cmd@),
    ensures
        final(reg).wf(),
        spec_check_cmd(*old(reg), *final(reg), cmd@, now, r),
{
    let trimmed = trim_text(cmd);
    let words = split_text(trimmed.as_str(), ' ');
    let w0 = &words[0];
    if crate::text::text_eq(w0.as_str(), "h") {
        CmdReport::Help
    } else if crate::text::text_eq(w0.as_str(), "ip-blocker") || crate::text::text_eq(
        w0.as_str(),
        "ib",
    ) {
        blocker_report(&mut reg.blocker, &words, now)
    } else if crate::text::text_eq(w0.as_str(), "ip-changes") || crate::text::text_eq(
        w0.as_str(),
        "ic",
    ) {
        changes_report(&mut reg.changes, &words, now)
    } else {
        CmdReport::Nothing
    }
}

/// Runs an administration command and answers with the text of its
/// report (see `spec_render`): the list of commands for `h`, nothing for
/// unknown text, and for a listing the record count, the line of the
/// record asked for and the listed records, one per line.
pub fn check_cmd(reg: &mut Registry, cmd: &str, now: u64) -> (text: String)
    requires
        old(reg).wf(),
        spec_cmd_ok(cmd@),
    ensures
        final(reg).wf(),
        exists|r: CmdReport|
            #[trigger] spec_check_cmd(*old(reg), *final(reg), cmd@, now, r) && text@ == spec_render(r),
{
    let r = cmd_report(reg, cmd, now);
    render_report(&r)
}

/// Asking to remove a record forgets it: afterwards nothing is stored
/// under its key, and every other record is as it was.
pub proof fn lemma_removed_forgets<V>(t: Seq<(String, V)>, k: Seq<char>)
    requires
        unique_keys(t),
    ensures
        spec_lookup(spec_removed(t, k, true), k) is None,
        forall|q: Seq<char>| q != k ==> spec_lookup(spec_removed(t, k, true), q) == spec_lookup(t, q),
{
    match spec_index_of(t, k) {
        Some(i) => {
            crate::table::lemma_lookup_remove(t, i);
        },
        None => {},
    }
}

/// A property of every element of a list holds of every element kept by
/// a filter.
pub proof fn lemma_filter_preserves<A>(s: Seq<A>, flags: Seq<bool>, p: spec_fn(A) -> bool)
    requires
        flags.len() == s.len(),
        forall|i: int| 0 <= i < s.len() ==> p(#[trigger] s[i]),
    ensures
        forall|j: int|
            0 <= j < filter_by_flags(s, flags).len() ==> p(#[trigger] filter_by_flags(s, flags)[j]),
    decreases s.len(),
{
    if s.len() > 0 {
        let s0 = s.drop_last();
        assert forall|i: int| 0 <= i < s0.len() implies p(#[trigger] s0[i]) by {
            assert(s0[i] == s[i]);
        }
        lemma_filter_preserves(s0, flags.drop_last(), p);
        let f0 = filter_by_flags(s0, flags.drop_last());
        let f = filter_by_flags(s, flags);
        assert forall|j: int| 0 <= j < f.len() implies p(#[trigger] f[j]) by {
            if j < f0.len() {
                assert(f[j] == f0[j]);
            } else {
                assert(f[j] == s[s.len() - 1]);
            }
        }
    }
}

/// A filter keeps exactly the elements whose flag is set: each flagged
/// element is in the result, and everything in the result is a flagged
/// element.
pub proof fn lemma_filter_members<A>(s: Seq<A>, flags: Seq<bool>)
    requires
        flags.len() == s.len(),
    ensures
        forall|i: int|
            0 <= i < s.len() && flags[i] ==> filter_by_flags(s, flags).contains(#[trigger] s[i]),
        forall|x: A|
            filter_by_flags(s, flags).contains(x) ==> exists|i: int|
                0 <= i < s.len() && flags[i] && #[trigger] s[i] == x,
    decreases s.len(),
{
    if s.len() > 0 {
        let s0 = s.drop_last();
        let f0 = flags.drop_last();
        lemma_filter_members(s0, f0);
        let r0 = filter_by_flags(s0, f0);
        let r = filter_by_flags(s, flags);
        assert forall|i: int| 0 <= i < s.len() && flags[i] implies r.contains(#[trigger] s[i]) by {
            if i < s.len() - 1 {
                assert(s0[i] == s[i] && f0[i] == flags[i]);
                assert(r0.contains(s0[i]));
                let k = choose|k: int| 0 <= k < r0.len() && r0[k] == s0[i];
                if flags.last() {
                    assert(r[k] == r0[k]);
                } else {
                    assert(r == r0);
                }
            } else {
                assert(r[r.len() - 1] == s.last());
            }
        }
        assert forall|x: A| r.contains(x) implies exists|i: int|
            0 <= i < s.len() && flags[i] && #[trigger] s[i] == x by {
            let k = choose|k: int| 0 <= k < r.len() && r[k] == x;
            if flags.last() && k == r.len() - 1 {
                assert(s[s.len() - 1] == x);
            } else {
                if flags.last() {
                    assert(r[k] == r0[k]);
                }
                assert(r0.contains(x));
                let i = choose|i: int| 0 <= i < s0.len() && f0[i] && s0[i] == x;
                assert(s[i] == s0[i] && flags[i] == f0[i]);
            }
        }
    }
}

/// `ip-blocker` keeps every IP record whose hit counter is at most
/// `IP_BLOCK_DUR` seconds old or whose ID set is at most `DAY_SECONDS` old,
/// and drops only the records that are stale on both counts; it keeps no
/// record that was not there.
pub proof fn lemma_prune_blocker_keeps_recent(t0: Seq<(String, BlockEntry)>, now: u64)
    requires
        unique_keys(t0),
    ensures
        forall|i: int|
            0 <= i < t0.len() ==> (filter_by_flags(t0, block_flags(t0, now)).contains(
                #[trigger] t0[i],
            ) <==> (spec_elapsed_secs(now, t0[i].1.hits_at) <= IP_BLOCK_DUR || spec_elapsed_secs(
                now,
                t0[i].1.ids_at,
            ) <= DAY_SECONDS)),
        forall|x: (String, BlockEntry)|
            filter_by_flags(t0, block_flags(t0, now)).contains(x) ==> t0.contains(x),
{
    let flags = block_flags(t0, now);
    let r = filter_by_flags(t0, flags);
    lemma_filter_members(t0, flags);
    assert forall|i: int| 0 <= i < t0.len() implies (r.contains(#[trigger] t0[i]) <==> (
    spec_elapsed_secs(now, t0[i].1.hits_at) <= IP_BLOCK_DUR || spec_elapsed_secs(now, t0[i].1.ids_at)
        <= DAY_SECONDS)) by {
        assert(flags[i] == (spec_elapsed_secs(now, t0[i].1.hits_at) <= IP_BLOCK_DUR
            || spec_elapsed_secs(now, t0[i].1.ids_at) <= DAY_SECONDS));
        if r.contains(t0[i]) {
            let j = choose|j: int| 0 <= j < t0.len() && flags[j] && t0[j] == t0[i];
            if j != i {
                if j < i {
                    assert(t0[j].0@ != t0[i].0@);
                } else {
                    assert(t0[i].0@ != t0[j].0@);
                }
            }
        }
    }
    assert forall|x: (String, BlockEntry)| r.contains(x) implies t0.contains(x) by {
        let j = choose|j: int| 0 <= j < t0.len() && flags[j] && t0[j] == x;
    }
}

} // verus!
