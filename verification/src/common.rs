//! Settings: how an option's name maps to its environment variable, the
//! default when it is unset, and the list of servers given as text.
use vstd::prelude::*;
use crate::table::filter_by_flags;
use crate::text::{has_char, split_fields, split_text};

verus! {

/// The text `str::to_uppercase` makes of `s` (Unicode upper case).
pub uninterp spec fn spec_to_uppercase(s: Seq<char>) -> Seq<char>;

/// `str::to_uppercase`.
#[verifier::external_body]
fn to_uppercase(s: &str) -> (r: String)
    ensures
        r@ == spec_to_uppercase(s@),
{
    s.to_uppercase()
}

/// `s` with every `from` replaced by `to`.
pub open spec fn replace_char(s: Seq<char>, from: char, to: char) -> Seq<char> {
    s.map_values(|c: char| if c == from { to } else { c })
}

/// The environment variable that holds an option: its name in upper case
/// with `_` written as `-`.
pub open spec fn spec_arg_name(name: Seq<char>) -> Seq<char> {
    replace_char(spec_to_uppercase(name), '_', '-')
}

/// Writes every `_` of an upper-cased option name as `-`.
pub fn replace_underscores(upper: &str) -> (r: String)
    ensures
        r@ == replace_char(upper@, '_', '-'),
{
    let n = upper.unicode_len();
    let mut out: Vec<char> = Vec::new();
    let mut i: usize = 0;
    while i < n
        invariant
            n == upper@.len(),
            i <= n,
            out@ == replace_char(upper@, '_', '-').take(i as int),
        decreases n - i,
    {
        let c = upper.get_char(i);
        out.push(if c == '_' { '-' } else { c });
        proof {
            assert(replace_char(upper@, '_', '-').take(i + 1) == replace_char(upper@, '_', '-').take(
                i as int,
            ).push(if c == '_' { '-' } else { c }));
        }
        i = i + 1;
    }
    proof {
        assert(replace_char(upper@, '_', '-').take(n as int) == replace_char(upper@, '_', '-'));
    }
    crate::text::string_from_chars(out)
}

/// The environment variable of an option (see `spec_arg_name`).
pub fn arg_name(name: &str) -> (r: String)
    ensures
        r@ == spec_arg_name(name@),
{
    let upper = to_uppercase(name);
    replace_underscores(upper.as_str())
}

/// An option's variable name never holds `_`.
pub proof fn lemma_arg_name_has_no_underscore(name: Seq<char>)
    ensures
        !spec_arg_name(name).contains('_'),
{
    let r = spec_arg_name(name);
    if r.contains('_') {
        let i = choose|i: int| 0 <= i < r.len() && r[i] == '_';
        assert(r[i] == (if spec_to_uppercase(name)[i] == '_' {
            '-'
        } else {
            spec_to_uppercase(name)[i]
        }));
    }
}

/// An option's value: what its variable holds (`found`), or `default`
/// when it is unset.
pub fn get_arg_or(found: Option<String>, default: String) -> (r: String)
    ensures
        r == (match found {
            Some(v) => v,
            None => default,
        }),
{
    match found {
        Some(v) => v,
        None => default,
    }
}

/// An option's value, empty when its variable is unset.
pub fn get_arg(found: Option<String>) -> (r: String)
    ensures
        r@ == (match found {
            Some(v) => v@,
            None => Seq::<char>::empty(),
        }),
{
    get_arg_or(found, String::new())
}

/// The address text resolved to check a server: the host itself when it
/// names a port, else the host with port 0.
pub open spec fn spec_lookup_target(host: Seq<char>) -> Seq<char> {
    if host.contains(':') {
        host
    } else {
        host + seq![':', '0']
    }
}

pub fn server_lookup_target(host: &str) -> (r: String)
    ensures
        r@ == spec_lookup_target(host@),
{
    let mut s = host.to_owned();
    if !has_char(host, ':') {
        let mut tail: Vec<char> = Vec::new();
        tail.push(':');
        tail.push('0');
        let t = crate::text::string_from_chars(tail);
        s.append(t.as_str());
    }
    s
}

/// The non-empty texts of a list, in order.
pub open spec fn nonempty_fields(fields: Seq<Seq<char>>) -> Seq<Seq<char>>
    decreases fields.len(),
{
    if fields.len() == 0 {
        Seq::empty()
    } else if fields.last().len() > 0 {
        nonempty_fields(fields.drop_last()).push(fields.last())
    } else {
        nonempty_fields(fields.drop_last())
    }
}

/// The servers named in a comma-separated list, empty names left out.
pub open spec fn spec_server_candidates(s: Seq<char>) -> Seq<Seq<char>> {
    nonempty_fields(split_fields(s, ','))
}

pub fn server_candidates(s: &str) -> (r: Vec<String>)
    ensures
        r@.map_values(|f: String| f@) == spec_server_candidates(s@),
{
    let fields = split_text(s, ',');
    let ghost fs = fields@.map_values(|f: String| f@);
    let mut out: Vec<String> = Vec::new();
    let mut i: usize = 0;
    while i < fields.len()
        invariant
            fs == fields@.map_values(|f: String| f@),
            i <= fields@.len(),
            out@.map_values(|f: String| f@) == nonempty_fields(fs.take(i as int)),
        decreases fields@.len() - i,
    {
        let f = &fields[i];
        let ghost before = out@;
        proof {
            assert(fs.take(i + 1).drop_last() == fs.take(i as int));
            assert(fs.take(i + 1).last() == f@);
        }
        if f.as_str().unicode_len() > 0 {
            out.push(f.clone());
            proof {
                assert(out@.map_values(|g: String| g@) == before.map_values(|g: String| g@).push(
                    f@,
                ));
            }
        }
        i = i + 1;
    }
    proof {
        assert(fs.take(fields@.len() as int) == fs);
    }
    out
}

/// The servers of a comma-separated list that resolve: `resolvable[i]`
/// tells whether the `i`-th non-empty name resolved to an address.
pub fn get_servers(s: &str, resolvable: &Vec<bool>) -> (r: Vec<String>)
    requires
        resolvable@.len() == spec_server_candidates(s@).len(),
    ensures
        r@.map_values(|f: String| f@) == filter_by_flags(spec_server_candidates(s@), resolvable@),
{
    let candidates = server_candidates(s);
    let ghost cs = candidates@.map_values(|f: String| f@);
    let mut out: Vec<String> = Vec::new();
    let mut i: usize = 0;
    while i < candidates.len()
        invariant
            cs == candidates@.map_values(|f: String| f@),
            resolvable@.len() == cs.len(),
            i <= cs.len(),
            out@.map_values(|f: String| f@) == filter_by_flags(
                cs.take(i as int),
                resolvable@.take(i as int),
            ),
        decreases cs.len() - i,
    {
        let ghost before = out@;
        proof {
            assert(cs.take(i + 1).drop_last() == cs.take(i as int));
            assert(resolvable@.take(i + 1).drop_last() == resolvable@.take(i as int));
            assert(cs.take(i + 1).last() == candidates@[i as int]@);
            assert(resolvable@.take(i + 1).last() == resolvable@[i as int]);
        }
        if resolvable[i] {
            out.push(candidates[i].clone());
            proof {
                assert(out@.map_values(|g: String| g@) == before.map_values(|g: String| g@).push(
                    candidates@[i as int]@,
                ));
            }
        }
        i = i + 1;
    }
    proof {
        assert(cs.take(cs.len() as int) == cs);
        assert(resolvable@.take(cs.len() as int) == resolvable@);
    }
    out
}

/// `std::time::SystemTime`.
#[verifier::external_type_specification]
#[verifier::external_body]
pub struct ExSystemTime(std::time::SystemTime);

/// `SystemTime::now`: the clock's reading, about which nothing is known.
#[verifier::external_body]
fn system_time_now() -> (t: std::time::SystemTime) {
    std::time::SystemTime::now()
}

/// `SystemTime::duration_since(UNIX_EPOCH)`; `None` when the time lies
/// before the epoch. Nothing is known of the value.
#[verifier::external_body]
fn since_unix_epoch(t: &std::time::SystemTime) -> (r: Option<core::time::Duration>) {
    t.duration_since(std::time::UNIX_EPOCH).ok()
}

/// `Duration::as_secs`. Nothing is stated of the value.
#[verifier::external_body]
fn whole_secs(d: &core::time::Duration) -> (r: u64) {
    d.as_secs()
}

/// Whole seconds since the epoch from a clock reading (`None`: the clock
/// is set before the epoch, which counts as 0).
pub fn epoch_secs_or_zero(secs: Option<u64>) -> (r: u64)
    ensures
        r == (match secs {
            Some(s) => s,
            None => 0,
        }),
{
    match secs {
        Some(s) => s,
        None => 0,
    }
}

/// Seconds since the Unix epoch by the system clock; 0 when the clock is
/// set before the epoch.
pub fn now() -> (r: u64) {
    let t = system_time_now();
    let secs = match since_unix_epoch(&t) {
        Some(d) => Some(whole_secs(&d)),
        None => None,
    };
    epoch_secs_or_zero(secs)
}

} // verus!
