//! The text of an administration command's report, as the server writes it
//! back on the admin connection.
use vstd::prelude::*;
use crate::command::{BlockLine, ChangeLine, CmdReport};

verus! {

/// The character of a decimal digit.
pub open spec fn digit_char(d: int) -> char {
    if d == 0 {
        '0'
    } else if d == 1 {
        '1'
    } else if d == 2 {
        '2'
    } else if d == 3 {
        '3'
    } else if d == 4 {
        '4'
    } else if d == 5 {
        '5'
    } else if d == 6 {
        '6'
    } else if d == 7 {
        '7'
    } else if d == 8 {
        '8'
    } else {
        '9'
    }
}

/// A number in decimal, without leading zeros.
pub open spec fn spec_decimal(n: nat) -> Seq<char>
    decreases n,
{
    if n < 10 {
        seq![digit_char(n as int)]
    } else {
        spec_decimal(n / 10).push(digit_char((n % 10) as int))
    }
}

/// A signed number in decimal, with a leading `-` when negative.
pub open spec fn spec_signed(v: int) -> Seq<char> {
    if v < 0 {
        seq!['-'] + spec_decimal((-v) as nat)
    } else {
        spec_decimal(v as nat)
    }
}

/// The list of commands.
pub open spec fn spec_help_text() -> Seq<char> {
    "relay-servers(rs) <separated by ,>\nreload-geo(rg)\nip-blocker(ib) [<ip>|<number>] [-]\nip-changes(ic) [<id>|<number>] [-]\nalways-use-relay(aur)\ntest-geo(tg) <ip1> <ip2>\n"@
}

/// `hits/secs s ids/secs s` of an IP record.
pub open spec fn spec_block_text(l: BlockLine) -> Seq<char> {
    spec_decimal(l.hits as nat) + seq!['/'] + spec_decimal(l.hits_secs as nat) + seq!['s', ' ']
        + spec_decimal(l.ids as nat) + seq!['/'] + spec_decimal(l.ids_secs as nat) + seq!['s']
}

/// One IP with its counts, in the form `"ip": count`.
pub open spec fn spec_ip_entry(e: (String, i32)) -> Seq<char> {
    seq!['"'] + e.0@ + seq!['"', ':', ' '] + spec_signed(e.1 as int)
}

/// The IPs with their counts, separated by `, `.
pub open spec fn spec_ip_entries(ips: Seq<(String, i32)>) -> Seq<char>
    decreases ips.len(),
{
    if ips.len() == 0 {
        Seq::empty()
    } else if ips.len() == 1 {
        spec_ip_entry(ips[0])
    } else {
        spec_ip_entries(ips.drop_last()) + seq![',', ' '] + spec_ip_entry(ips.last())
    }
}

/// The IPs of a history as a map: `{"ip": count, ...}`, in the order the
/// history first saw each IP, with each IP's text written as it is.
pub open spec fn spec_ips_text(ips: Seq<(String, i32)>) -> Seq<char> {
    seq!['{'] + spec_ip_entries(ips) + seq!['}']
}

/// `secs s {ips}` of an IP history.
pub open spec fn spec_change_text(l: ChangeLine) -> Seq<char> {
    spec_decimal(l.secs as nat) + seq!['s', ' '] + spec_ips_text(l.ips@)
}

/// The listed IP records, one line each: `ip: hits/secs s ids/secs s`.
pub open spec fn spec_block_rows_text(rows: Seq<(String, BlockLine)>) -> Seq<char>
    decreases rows.len(),
{
    if rows.len() == 0 {
        Seq::empty()
    } else {
        spec_block_rows_text(rows.drop_last()) + rows.last().0@ + seq![':', ' ']
            + spec_block_text(rows.last().1) + seq!['\n']
    }
}

/// The listed IP histories, one line each: `id: secs s {ips}`.
pub open spec fn spec_change_rows_text(rows: Seq<(String, ChangeLine)>) -> Seq<char>
    decreases rows.len(),
{
    if rows.len() == 0 {
        Seq::empty()
    } else {
        spec_change_rows_text(rows.drop_last()) + rows.last().0@ + seq![':', ' ']
            + spec_change_text(rows.last().1) + seq!['\n']
    }
}

/// The text of a report: nothing for `Nothing`; the list of commands for
/// `Help`; for a listing, the number of records on a line of its own, then
/// the line of the record asked for, if any, then the listed records.
pub open spec fn spec_render(r: CmdReport) -> Seq<char> {
    match r {
        CmdReport::Nothing => Seq::empty(),
        CmdReport::Help => spec_help_text(),
        CmdReport::Blocker { count, detail, rows } => spec_decimal(count as nat) + seq!['\n'] + (
        match detail {
            Some(l) => spec_block_text(l) + seq!['\n'],
            None => Seq::empty(),
        }) + spec_block_rows_text(rows@),
        CmdReport::Changes { count, detail, rows } => spec_decimal(count as nat) + seq!['\n'] + (
        match detail {
            Some(l) => spec_change_text(l) + seq!['\n'],
            None => Seq::empty(),
        }) + spec_change_rows_text(rows@),
    }
}

fn digit(d: u64) -> (c: char)
    requires
        d < 10,
    ensures
        c == digit_char(d as int),
{
    if d == 0 {
        '0'
    } else if d == 1 {
        '1'
    } else if d == 2 {
        '2'
    } else if d == 3 {
        '3'
    } else if d == 4 {
        '4'
    } else if d == 5 {
        '5'
    } else if d == 6 {
        '6'
    } else if d == 7 {
        '7'
    } else if d == 8 {
        '8'
    } else {
        '9'
    }
}

fn push_decimal(out: &mut Vec<char>, n: u64)
    ensures
        final(out)@ == old(out)@ + spec_decimal(n as nat),
    decreases n,
{
    if n >= 10 {
        push_decimal(out, n / 10);
    }
    out.push(digit(n % 10));
    proof {
        if n >= 10 {
            assert(out@ =~= old(out)@ + spec_decimal((n / 10) as nat).push(digit_char((n % 10) as int)));
        } else {
            assert(out@ =~= old(out)@ + spec_decimal(n as nat));
        }
    }
}

fn push_signed(out: &mut Vec<char>, v: i32)
    ensures
        final(out)@ == old(out)@ + spec_signed(v as int),
{
    if v < 0 {
        out.push('-');
        let m: i64 = -(v as i64);
        push_decimal(out, m as u64);
        assert(out@ =~= old(out)@ + (seq!['-'] + spec_decimal((-v) as nat)));
    } else {
        push_decimal(out, v as u64);
    }
}

fn push_text(out: &mut Vec<char>, s: &str)
    ensures
        final(out)@ == old(out)@ + s@,
{
    let n = s.unicode_len();
    let mut i: usize = 0;
    while i < n
        invariant
            n == s@.len(),
            i <= n,
            out@ == old(out)@ + s@.take(i as int),
        decreases n - i,
    {
        out.push(s.get_char(i));
        assert(s@.take(i + 1) == s@.take(i as int).push(s@[i as int]));
        assert(out@ =~= old(out)@ + s@.take(i + 1));
        i = i + 1;
    }
    assert(s@.take(n as int) =~= s@);
}

fn push_block_text(out: &mut Vec<char>, l: &BlockLine)
    ensures
        final(out)@ == old(out)@ + spec_block_text(*l),
{
    let ghost o = out@;
    push_decimal(out, l.hits as u64);
    let ghost a = out@;
    out.push('/');
    push_decimal(out, l.hits_secs);
    let ghost b = out@;
    out.push('s');
    out.push(' ');
    push_decimal(out, l.ids as u64);
    let ghost c = out@;
    out.push('/');
    push_decimal(out, l.ids_secs);
    let ghost d = out@;
    out.push('s');
    proof {
        assert(a =~= o + spec_decimal(l.hits as nat));
        assert(b =~= o + spec_decimal(l.hits as nat) + seq!['/'] + spec_decimal(l.hits_secs as nat));
        assert(c =~= o + spec_decimal(l.hits as nat) + seq!['/'] + spec_decimal(l.hits_secs as nat)
            + seq!['s', ' '] + spec_decimal(l.ids as nat));
        assert(d =~= o + spec_decimal(l.hits as nat) + seq!['/'] + spec_decimal(l.hits_secs as nat)
            + seq!['s', ' '] + spec_decimal(l.ids as nat) + seq!['/'] + spec_decimal(
            l.ids_secs as nat,
        ));
        assert(out@ =~= o + spec_block_text(*l));
    }
}

fn push_ip_entry(out: &mut Vec<char>, e: &(String, i32))
    ensures
        final(out)@ == old(out)@ + spec_ip_entry(*e),
{
    let ghost o = out@;
    out.push('"');
    push_text(out, e.0.as_str());
    let ghost a = out@;
    out.push('"');
    out.push(':');
    out.push(' ');
    push_signed(out, e.1);
    proof {
        assert(a =~= o + seq!['"'] + e.0@);
        assert(out@ =~= o + spec_ip_entry(*e));
    }
}

fn push_ips_text(out: &mut Vec<char>, ips: &Vec<(String, i32)>)
    ensures
        final(out)@ == old(out)@ + spec_ips_text(ips@),
{
    let ghost o = out@;
    out.push('{');
    let ghost start = out@;
    let mut i: usize = 0;
    while i < ips.len()
        invariant
            i <= ips@.len(),
            out@ == start + spec_ip_entries(ips@.take(i as int)),
        decreases ips@.len() - i,
    {
        if i > 0 {
            out.push(',');
            out.push(' ');
        }
        push_ip_entry(out, &ips[i]);
        proof {
            let t = ips@.take(i + 1);
            assert(t.drop_last() =~= ips@.take(i as int));
            assert(t.last() == ips@[i as int]);
            if i == 0 {
                assert(t.len() == 1);
                assert(out@ =~= start + spec_ip_entries(t));
            } else {
                assert(out@ =~= start + spec_ip_entries(t));
            }
        }
        i = i + 1;
    }
    out.push('}');
    proof {
        assert(ips@.take(ips@.len() as int) =~= ips@);
        assert(out@ =~= o + spec_ips_text(ips@));
    }
}

fn push_change_text(out: &mut Vec<char>, l: &ChangeLine)
    ensures
        final(out)@ == old(out)@ + spec_change_text(*l),
{
    let ghost o = out@;
    push_decimal(out, l.secs);
    out.push('s');
    out.push(' ');
    let ghost a = out@;
    push_ips_text(out, &l.ips);
    proof {
        assert(a =~= o + spec_decimal(l.secs as nat) + seq!['s', ' ']);
        assert(out@ =~= o + spec_change_text(*l));
    }
}

fn push_count(out: &mut Vec<char>, count: usize)
    ensures
        final(out)@ == old(out)@ + spec_decimal(count as nat) + seq!['\n'],
{
    push_decimal(out, count as u64);
    let ghost a = out@;
    out.push('\n');
    assert(out@ =~= old(out)@ + spec_decimal(count as nat) + seq!['\n']);
}

/// The text of a report.
pub fn render_report(r: &CmdReport) -> (s: String)
    ensures
        s@ == spec_render(*r),
{
    match r {
        CmdReport::Nothing => String::new(),
        CmdReport::Help => String::from_str(
            "relay-servers(rs) <separated by ,>\nreload-geo(rg)\nip-blocker(ib) [<ip>|<number>] [-]\nip-changes(ic) [<id>|<number>] [-]\nalways-use-relay(aur)\ntest-geo(tg) <ip1> <ip2>\n",
        ),
        CmdReport::Blocker { count, detail, rows } => {
            let mut out: Vec<char> = Vec::new();
            push_count(&mut out, *count);
            match detail {
                Some(l) => {
                    push_block_text(&mut out, l);
                    out.push('\n');
                },
                None => {},
            }
            let ghost head = out@;
            proof {
                assert(head =~= spec_decimal(*count as nat) + seq!['\n'] + (match *detail {
                    Some(l) => spec_block_text(l) + seq!['\n'],
                    None => Seq::<char>::empty(),
                }));
            }
            let mut i: usize = 0;
            while i < rows.len()
                invariant
                    i <= rows@.len(),
                    out@ == head + spec_block_rows_text(rows@.take(i as int)),
                decreases rows@.len() - i,
            {
                let row = &rows[i];
                push_text(&mut out, row.0.as_str());
                out.push(':');
                out.push(' ');
                push_block_text(&mut out, &row.1);
                out.push('\n');
                proof {
                    let t = rows@.take(i + 1);
                    assert(t.drop_last() =~= rows@.take(i as int));
                    assert(t.last() == rows@[i as int]);
                    assert(out@ =~= head + spec_block_rows_text(t));
                }
                i = i + 1;
            }
            proof {
                assert(rows@.take(rows@.len() as int) =~= rows@);
            }
            crate::text::string_from_chars(out)
        },
        CmdReport::Changes { count, detail, rows } => {
            let mut out: Vec<char> = Vec::new();
            push_count(&mut out, *count);
            match detail {
                Some(l) => {
                    push_change_text(&mut out, l);
                    out.push('\n');
                },
                None => {},
            }
            let ghost head = out@;
            proof {
                assert(head =~= spec_decimal(*count as nat) + seq!['\n'] + (match *detail {
                    Some(l) => spec_change_text(l) + seq!['\n'],
                    None => Seq::<char>::empty(),
                }));
            }
            let mut i: usize = 0;
            while i < rows.len()
                invariant
                    i <= rows@.len(),
                    out@ == head + spec_change_rows_text(rows@.take(i as int)),
                decreases rows@.len() - i,
            {
                let row = &rows[i];
                push_text(&mut out, row.0.as_str());
                out.push(':');
                out.push(' ');
                push_change_text(&mut out, &row.1);
                out.push('\n');
                proof {
                    let t = rows@.take(i + 1);
                    assert(t.drop_last() =~= rows@.take(i as int));
                    assert(t.last() == rows@[i as int]);
                    assert(out@ =~= head + spec_change_rows_text(t));
                }
                i = i + 1;
            }
            proof {
                assert(rows@.take(rows@.len() as int) =~= rows@);
            }
            crate::text::string_from_chars(out)
        },
    }
}

} // verus!
