//! The answer to an online query: one bit per asked peer, set when the peer
//! registered recently.
use vstd::prelude::*;
use crate::datatime_util::{registration_fresh, spec_registration_fresh};

verus! {

/// Bit `k` (0 is the most significant) of a byte.
pub open spec fn byte_bit(x: u8, k: int) -> bool {
    ((x >> ((7 - k) as u8)) & 1u8) == 1u8
}

/// The state bit of the `i`-th asked peer: bits are numbered from the most
/// significant bit of the first byte.
pub open spec fn state_bit(states: Seq<u8>, i: int) -> bool {
    byte_bit(states[i / 8], i % 8)
}

/// Whether a peer with this last registration time (none: not in memory)
/// counts as online at `now`.
pub open spec fn spec_peer_online(last_reg_time: Option<i64>, now: i64) -> bool {
    match last_reg_time {
        Some(t) => spec_registration_fresh(now, t),
        None => false,
    }
}

proof fn lemma_set_bit(x: u8, j: u8, k: u8)
    requires
        j < 8,
        k < 8,
    ensures
        ((x | (1u8 << ((7 - j) as u8))) >> ((7 - k) as u8)) & 1u8 == (if k == j {
            1u8
        } else {
            (x >> ((7 - k) as u8)) & 1u8
        }),
{
    assert(((x | (1u8 << ((7 - j) as u8))) >> ((7 - k) as u8)) & 1u8 == (if k == j {
        1u8
    } else {
        (x >> ((7 - k) as u8)) & 1u8
    })) by (bit_vector)
        requires
            j < 8,
            k < 8,
    ;
}

proof fn lemma_zero_bits(k: u8)
    requires
        k < 8,
    ensures
        (0u8 >> ((7 - k) as u8)) & 1u8 == 0u8,
{
    assert((0u8 >> ((7 - k) as u8)) & 1u8 == 0u8) by (bit_vector)
        requires
            k < 8,
    ;
}

/// The byte for peers `8 * b .. 8 * b + 8`.
fn state_byte(last_reg_times: &Vec<Option<i64>>, b: usize, now: i64) -> (x: u8)
    requires
        b < (last_reg_times@.len() + 7) / 8,
        last_reg_times@.len() + 7 <= usize::MAX,
        forall|i: int|
            0 <= i < last_reg_times@.len() ==> (#[trigger] last_reg_times@[i] matches Some(t) ==> (
            i64::MIN <= now - t <= i64::MAX)),
    ensures
        forall|k: int|
            0 <= k < 8 ==> byte_bit(x, k) == (8 * b + k < last_reg_times@.len() && spec_peer_online(
                last_reg_times@[8 * b + k],
                now,
            )),
{
    let n = last_reg_times.len();
    let mut x: u8 = 0;
    let mut j: usize = 0;
    proof {
        assert forall|k: int| 0 <= k < 8 implies !byte_bit(0u8, k) by {
            lemma_zero_bits(k as u8);
        }
    }
    while j < 8
        invariant
            j <= 8,
            n == last_reg_times@.len(),
            b < (n + 7) / 8,
            n + 7 <= usize::MAX,
            forall|i: int|
                0 <= i < n ==> (#[trigger] last_reg_times@[i] matches Some(t) ==> (i64::MIN <= now
                    - t <= i64::MAX)),
            forall|k: int|
                0 <= k < j ==> byte_bit(x, k) == (8 * b + k < n && spec_peer_online(
                    last_reg_times@[8 * b + k],
                    now,
                )),
            forall|k: int| j <= k < 8 ==> !byte_bit(x, k),
        decreases 8 - j,
    {
        assert(8 * b + 8 <= n + 7 + 8) by (nonlinear_arith)
            requires
                b < (n + 7) / 8,
        ;
        let i = 8 * b + j;
        let online = if i < n {
            match last_reg_times[i] {
                Some(t) => registration_fresh(now, t),
                None => false,
            }
        } else {
            false
        };
        if online {
            let x0 = x;
            x = x | (1u8 << (7u8 - j as u8));
            proof {
                assert forall|k: int| 0 <= k < 8 implies byte_bit(x, k) == (if k == j {
                    true
                } else {
                    byte_bit(x0, k)
                }) by {
                    lemma_set_bit(x0, j as u8, k as u8);
                }
            }
        }
        j = j + 1;
    }
    x
}

/// The online bitmap for the asked peers, given each one's last
/// registration time (or none). The bitmap has one byte per eight peers;
/// the bit of peer `i` is set exactly when that peer registered less than
/// `REG_TIMEOUT` milliseconds before `now`, and the padding bits are clear.
pub fn online_states(last_reg_times: &Vec<Option<i64>>, now: i64) -> (states: Vec<u8>)
    requires
        last_reg_times@.len() + 7 <= usize::MAX,
        forall|i: int|
            0 <= i < last_reg_times@.len() ==> (#[trigger] last_reg_times@[i] matches Some(t) ==> (
            i64::MIN <= now - t <= i64::MAX)),
    ensures
        states@.len() == (last_reg_times@.len() + 7) / 8,
        forall|i: int|
            0 <= i < last_reg_times@.len() ==> state_bit(states@, i) == spec_peer_online(
                #[trigger] last_reg_times@[i],
                now,
            ),
        forall|i: int|
            last_reg_times@.len() <= i < 8 * states@.len() ==> !#[trigger] state_bit(states@, i),
{
    let n = last_reg_times.len();
    let len = (n + 7) / 8;
    let mut states: Vec<u8> = Vec::new();
    let mut b: usize = 0;
    while b < len
        invariant
            n == last_reg_times@.len(),
            len == (n + 7) / 8,
            n + 7 <= usize::MAX,
            b <= len,
            states@.len() == b,
            forall|i: int|
                0 <= i < n ==> (#[trigger] last_reg_times@[i] matches Some(t) ==> (i64::MIN <= now
                    - t <= i64::MAX)),
            forall|c: int, k: int|
                0 <= c < b && 0 <= k < 8 ==> #[trigger] byte_bit(states@[c], k) == (8 * c + k < n
                    && spec_peer_online(last_reg_times@[8 * c + k], now)),
        decreases len - b,
    {
        let x = state_byte(last_reg_times, b, now);
        states.push(x);
        b = b + 1;
    }
    proof {
        assert forall|i: int| 0 <= i < 8 * states@.len() implies state_bit(states@, i) == (i < n
            && spec_peer_online(last_reg_times@[i], now)) by {
            let c = i / 8;
            let k = i % 8;
            assert(i == 8 * c + k && 0 <= k < 8 && 0 <= c < states@.len()) by (nonlinear_arith)
                requires
                    0 <= i < 8 * states@.len(),
                    c == i / 8,
                    k == i % 8,
            ;
            assert(byte_bit(states@[c], k) == (8 * c + k < n && spec_peer_online(
                last_reg_times@[8 * c + k],
                now,
            )));
        }
        assert(n <= 8 * ((n + 7) / 8)) by (nonlinear_arith);
    }
    states
}

} // verus!
