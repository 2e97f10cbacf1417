//! The Keccak-p[1600] permutation on 25 lanes of 64 bits.
//!
//! The state is a 5 x 5 grid of lanes; the lane at column `x` and row `y`
//! has index `x + 5 * y`. The specification functions state each step of a
//! round lane by lane; the executable code works in place.

use vstd::prelude::*;

verus! {

/// Rotation amount of every lane, indexed by `x + 5 * y`.
pub const RHO: [u32; 25] = [
    0, 1, 62, 28, 27, 36, 44, 6, 55, 20, 3, 10, 43, 25, 39, 41, 45, 15, 21, 8, 18, 2, 61, 56, 14,
];

/// The lanes in the order in which the combined rho and pi step visits them:
/// the lane that starts at index 1 moves to `PI[0]`, the lane that was at
/// `PI[0]` moves to `PI[1]`, and so on until the cycle closes at index 1.
pub const PI: [usize; 24] = [
    10, 7, 11, 17, 18, 3, 5, 16, 8, 21, 24, 4, 15, 23, 19, 13, 12, 2, 20, 14, 22, 9, 6, 1,
];

/// Round constants of the iota step.
pub const RC: [u64; 24] = [
    0x0000000000000001,
    0x0000000000008082,
    0x800000000000808a,
    0x8000000080008000,
    0x000000000000808b,
    0x0000000080000001,
    0x8000000080008081,
    0x8000000000008009,
    0x000000000000008a,
    0x0000000000000088,
    0x0000000080008009,
    0x000000008000000a,
    0x000000008000808b,
    0x800000000000008b,
    0x8000000000008089,
    0x8000000000008003,
    0x8000000000008002,
    0x8000000000000080,
    0x000000000000800a,
    0x800000008000000a,
    0x8000000080008081,
    0x8000000000008080,
    0x0000000080000001,
    0x8000000080008008,
];

/// Left rotation of a lane by `n` bit positions, `n < 64`.
pub open spec fn rotl(x: u64, n: u32) -> u64 {
    if n == 0 {
        x
    } else {
        (x << n) | (x >> ((64 - n) as u32))
    }
}

/// Parity of column `x`: the XOR of its five lanes.
pub open spec fn column_parity(a: Seq<u64>, x: int) -> u64 {
    a[x] ^ a[x + 5] ^ a[x + 10] ^ a[x + 15] ^ a[x + 20]
}

/// What theta adds to every lane of column `x`: the parity of the column to
/// the left and the rotated parity of the column to the right.
pub open spec fn theta_effect(a: Seq<u64>, x: int) -> u64 {
    column_parity(a, (x + 4) % 5) ^ rotl(column_parity(a, (x + 1) % 5), 1)
}

/// Theta: every lane is XORed with the effect of its column.
pub open spec fn theta(a: Seq<u64>) -> Seq<u64> {
    Seq::new(25, |i: int| a[i] ^ theta_effect(a, i % 5))
}

/// Rho: every lane is rotated by its own fixed amount.
pub open spec fn rho(a: Seq<u64>) -> Seq<u64> {
    Seq::new(25, |i: int| rotl(a[i], RHO[i]))
}

/// Index of the lane that pi moves to index `i`: the lane at `(x, y)` comes
/// from `((x + 3 * y) % 5, x)`.
pub open spec fn pi_source(i: int) -> int {
    (i % 5 + 3 * (i / 5)) % 5 + 5 * (i % 5)
}

/// Pi: the lanes change places, no bit moves inside a lane.
pub open spec fn pi(a: Seq<u64>) -> Seq<u64> {
    Seq::new(25, |i: int| a[pi_source(i)])
}

/// Chi: every lane is combined with the next two lanes of its row.
pub open spec fn chi(a: Seq<u64>) -> Seq<u64> {
    Seq::new(
        25,
        |i: int| a[i] ^ (!a[(i % 5 + 1) % 5 + 5 * (i / 5)] & a[(i % 5 + 2) % 5 + 5 * (i / 5)]),
    )
}

/// Iota: the round constant is XORed into lane 0.
pub open spec fn iota(a: Seq<u64>, rc: u64) -> Seq<u64> {
    a.update(0, a[0] ^ rc)
}

/// One round: theta, rho, pi, chi, iota.
pub open spec fn round(a: Seq<u64>, rc: u64) -> Seq<u64> {
    iota(chi(pi(rho(theta(a)))), rc)
}

/// The rounds with indices `first` to 23, applied in order.
pub open spec fn rounds_from(a: Seq<u64>, first: int) -> Seq<u64>
    decreases 24 - first,
{
    if 0 <= first < 24 {
        rounds_from(round(a, RC[first]), first + 1)
    } else {
        a
    }
}

/// Keccak-f[1600]: all 24 rounds.
pub open spec fn keccak_f(a: Seq<u64>) -> Seq<u64> {
    rounds_from(a, 0)
}

/// Keccak-p[1600, 12]: the last 12 rounds.
pub open spec fn keccak_p12(a: Seq<u64>) -> Seq<u64> {
    rounds_from(a, 12)
}

/// The rounds give 25 lanes back.
pub proof fn lemma_rounds_len(a: Seq<u64>, first: int)
    requires
        a.len() == 25,
    ensures
        rounds_from(a, first).len() == 25,
    decreases 24 - first,
{
    if 0 <= first < 24 {
        lemma_rounds_len(round(a, RC[first]), first + 1);
    }
}

/// Position of lane `i` in the cycle `PI`; 24 for lane 0, which stays.
pub open spec fn cycle_position(i: int) -> int {
    seq![
        24int, 23, 17, 5, 11, 6, 22, 1, 8, 21, 0, 2, 16, 15, 19, 12, 7, 3, 4, 14, 18, 9, 20, 13, 10,
    ][i]
}

/// Index of the lane that the step `t` of the cycle moves.
pub open spec fn cycle_source(t: int) -> int {
    if t == 0 {
        1
    } else {
        PI[t - 1] as int
    }
}

/// The cycle `PI` follows pi: step `t` writes the lane whose position is
/// `t`, and the lane written there is the one pi asks for.
pub proof fn lemma_cycle_step(t: int)
    requires
        0 <= t < 24,
    ensures
        0 < PI[t] < 25,
        0 < cycle_source(t) < 25,
        cycle_position(PI[t] as int) == t,
        pi_source(PI[t] as int) == cycle_source(t),
{
    assert(t == 0 || t == 1 || t == 2 || t == 3 || t == 4 || t == 5 || t == 6 || t == 7 || t == 8
        || t == 9 || t == 10 || t == 11 || t == 12 || t == 13 || t == 14 || t == 15 || t == 16 || t
        == 17 || t == 18 || t == 19 || t == 20 || t == 21 || t == 22 || t == 23);
}

/// No two lanes share a position in the cycle.
pub proof fn lemma_cycle_position_unique(i: int, t: int)
    requires
        0 <= i < 25,
        0 <= t < 24,
        cycle_position(i) == t,
    ensures
        i == PI[t],
{
    assert(i == 0 || i == 1 || i == 2 || i == 3 || i == 4 || i == 5 || i == 6 || i == 7 || i == 8
        || i == 9 || i == 10 || i == 11 || i == 12 || i == 13 || i == 14 || i == 15 || i == 16 || i
        == 17 || i == 18 || i == 19 || i == 20 || i == 21 || i == 22 || i == 23 || i == 24);
}

/// Every lane but lane 0 has a position in the cycle.
pub proof fn lemma_cycle_covers(i: int)
    requires
        0 <= i < 25,
    ensures
        0 <= cycle_position(i) <= 24,
        cycle_position(i) == 24 <==> i == 0,
        pi_source(0) == 0,
{
    assert(i == 0 || i == 1 || i == 2 || i == 3 || i == 4 || i == 5 || i == 6 || i == 7 || i == 8
        || i == 9 || i == 10 || i == 11 || i == 12 || i == 13 || i == 14 || i == 15 || i == 16 || i
        == 17 || i == 18 || i == 19 || i == 20 || i == 21 || i == 22 || i == 23 || i == 24);
}

/// The triangular number `1 + 2 + ... + n`.
pub open spec fn triangular(n: nat) -> nat
    decreases n,
{
    if n == 0 {
        0
    } else {
        n + triangular((n - 1) as nat)
    }
}

/// The rotation amounts follow the triangular numbers along the cycle: the
/// lane that step `t` moves is rotated by `1 + 2 + ... + (t + 1)` modulo 64,
/// and lane 0 is not rotated.
pub proof fn lemma_rho_is_triangular(t: int)
    requires
        0 <= t < 24,
    ensures
        RHO[cycle_source(t)] == triangular((t + 1) as nat) % 64,
        RHO[0] == 0,
{
    reveal_with_fuel(triangular, 25);
    assert(t == 0 || t == 1 || t == 2 || t == 3 || t == 4 || t == 5 || t == 6 || t == 7 || t == 8
        || t == 9 || t == 10 || t == 11 || t == 12 || t == 13 || t == 14 || t == 15 || t == 16 || t
        == 17 || t == 18 || t == 19 || t == 20 || t == 21 || t == 22 || t == 23);
}

fn rotate(x: u64, n: u32) -> (r: u64)
    requires
        n < 64,
    ensures
        r == rotl(x, n),
{
    if n == 0 {
        x
    } else {
        (x << n) | (x >> (64 - n))
    }
}

fn theta_step(a: &mut [u64; 25])
    ensures
        final(a)@ == theta(old(a)@),
{
    let mut c: [u64; 5] = [0u64; 5];
    let mut x: usize = 0;
    while x < 5
        invariant
            x <= 5,
            a@ == old(a)@,
            forall|k: int| 0 <= k < x ==> c@[k] == column_parity(old(a)@, k),
        decreases 5 - x,
    {
        c[x] = a[x] ^ a[x + 5] ^ a[x + 10] ^ a[x + 15] ^ a[x + 20];
        x += 1;
    }
    let mut i: usize = 0;
    while i < 25
        invariant
            i <= 25,
            forall|k: int| 0 <= k < 5 ==> c@[k] == column_parity(old(a)@, k),
            forall|j: int| 0 <= j < i ==> a@[j] == old(a)@[j] ^ theta_effect(old(a)@, j % 5),
            forall|j: int| i <= j < 25 ==> a@[j] == old(a)@[j],
        decreases 25 - i,
    {
        let x: usize = i % 5;
        let d: u64 = c[(x + 4) % 5] ^ rotate(c[(x + 1) % 5], 1);
        a[i] = a[i] ^ d;
        i += 1;
    }
    assert(a@ =~= theta(old(a)@));
}

fn rho_pi_step(a: &mut [u64; 25])
    ensures
        final(a)@ == pi(rho(old(a)@)),
{
    let mut source: usize = 1;
    let mut last: u64 = a[1];
    let mut t: usize = 0;
    while t < 24
        invariant
            t <= 24,
            0 < source < 25,
            t < 24 ==> source == cycle_source(t as int),
            t < 24 ==> last == old(a)@[source as int],
            forall|i: int|
                0 <= i < 25 ==> a@[i] == if cycle_position(i) < t {
                    rotl(old(a)@[pi_source(i)], RHO[pi_source(i)])
                } else {
                    old(a)@[i]
                },
        decreases 24 - t,
    {
        proof {
            lemma_cycle_step(t as int);
            if t < 23 {
                lemma_cycle_step(t + 1);
            }
        }
        let j: usize = PI[t];
        let moved: u64 = a[j];
        let ghost before = a@;
        a[j] = rotate(last, RHO[source]);
        assert forall|i: int| 0 <= i < 25 implies a@[i] == if cycle_position(i) < t + 1 {
            rotl(old(a)@[pi_source(i)], RHO[pi_source(i)])
        } else {
            old(a)@[i]
        } by {
            if i != j && cycle_position(i) == t {
                lemma_cycle_position_unique(i, t as int);
            }
        }
        last = moved;
        source = j;
        t += 1;
    }
    assert forall|i: int| 0 <= i < 25 implies a@[i] == pi(rho(old(a)@))[i] by {
        lemma_cycle_covers(i);
        lemma_cycle_covers(pi_source(i));
    }
    assert(a@ =~= pi(rho(old(a)@)));
}

fn chi_step(a: &mut [u64; 25])
    ensures
        final(a)@ == chi(old(a)@),
{
    let mut y: usize = 0;
    while y < 5
        invariant
            y <= 5,
            forall|i: int| 0 <= i < 5 * y ==> a@[i] == chi(old(a)@)[i],
            forall|i: int| 5 * y <= i < 25 ==> a@[i] == old(a)@[i],
        decreases 5 - y,
    {
        let r: usize = 5 * y;
        let b0: u64 = a[r];
        let b1: u64 = a[r + 1];
        let b2: u64 = a[r + 2];
        let b3: u64 = a[r + 3];
        let b4: u64 = a[r + 4];
        a[r] = b0 ^ (!b1 & b2);
        a[r + 1] = b1 ^ (!b2 & b3);
        a[r + 2] = b2 ^ (!b3 & b4);
        a[r + 3] = b3 ^ (!b4 & b0);
        a[r + 4] = b4 ^ (!b0 & b1);
        y += 1;
    }
    assert(a@ =~= chi(old(a)@));
}

fn round_step(a: &mut [u64; 25], rc: u64)
    ensures
        final(a)@ == round(old(a)@, rc),
{
    theta_step(a);
    rho_pi_step(a);
    chi_step(a);
    a[0] = a[0] ^ rc;
}

fn permute_from(a: &mut [u64; 25], first: usize)
    requires
        first <= 24,
    ensures
        final(a)@ == rounds_from(old(a)@, first as int),
{
    let mut i: usize = first;
    while i < 24
        invariant
            first <= i <= 24,
            rounds_from(a@, i as int) == rounds_from(old(a)@, first as int),
        decreases 24 - i,
    {
        round_step(a, RC[i]);
        i += 1;
    }
}

/// Applies Keccak-f[1600], the permutation of 24 rounds, in place.
pub fn keccakf(a: &mut [u64; 25])
    ensures
        final(a)@ == keccak_f(old(a)@),
{
    permute_from(a, 0);
}

/// Applies Keccak-p[1600, 12], the last 12 rounds of Keccak-f[1600], in
/// place.
pub fn keccakp(a: &mut [u64; 25])
    ensures
        final(a)@ == keccak_p12(old(a)@),
{
    permute_from(a, 12);
}

} // verus!
