use hbbs::online::online_states;

#[test]
fn one_bit_per_peer_most_significant_first() {
    let now = 100_000_000_000i64;
    let fresh = Some(now - 1_000_000_000);
    let stale = Some(now - 31_000_000_000);
    // peers 0, 2 and 8 are online
    let regs = vec![fresh, stale, fresh, None, None, None, None, stale, fresh, None];
    let states = online_states(&regs, now);
    assert_eq!(states, vec![0b1010_0000, 0b1000_0000]);
}

#[test]
fn no_peers_no_bytes() {
    assert_eq!(online_states(&vec![], 0), Vec::<u8>::new());
}

#[test]
fn eight_peers_fill_one_byte() {
    let now = 50_000_000_000i64;
    let regs = vec![Some(now); 8];
    assert_eq!(online_states(&regs, now), vec![0xff]);
    let mut regs9 = regs.clone();
    regs9.push(Some(now));
    assert_eq!(online_states(&regs9, now), vec![0xff, 0x80]);
}
