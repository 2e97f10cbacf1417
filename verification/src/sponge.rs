//! The sponge engine: absorbing bytes into a permutation state, padding,
//! and squeezing bytes out of it.
//!
//! The model of a sponge is [`Sponge`]: the 25 lanes, the cursor into the
//! rate window, the rate, the delimiter and the mode. Byte `k` of the state
//! is byte `k % 8` of lane `k / 8`, least significant byte first.
//! [`absorb`], [`pad`], [`advance`] and [`stream`] say byte by byte what the
//! engine computes; [`KeccakState`] does the same work block by block.

use crate::keccakf::{keccak_f, keccak_p12, keccakf, keccakp, lemma_rounds_len};
use std::marker::PhantomData;
use vstd::prelude::*;

verus! {

/// Byte `k` of the state.
pub open spec fn lane_byte(lanes: Seq<u64>, k: int) -> u8 {
    (lanes[k / 8] >> ((8 * (k % 8)) as u64)) as u8
}

/// The state with `b` XORed into byte `k`.
pub open spec fn xor_byte(lanes: Seq<u64>, k: int, b: u8) -> Seq<u64> {
    lanes.update(k / 8, lanes[k / 8] ^ ((b as u64) << ((8 * (k % 8)) as u64)))
}

/// The state with `bytes` XORed into the bytes that start at `offset`.
pub open spec fn xor_bytes(lanes: Seq<u64>, offset: int, bytes: Seq<u8>) -> Seq<u64>
    decreases bytes.len(),
{
    if bytes.len() == 0 {
        lanes
    } else {
        xor_byte(
            xor_bytes(lanes, offset, bytes.drop_last()),
            offset + bytes.len() - 1,
            bytes.last(),
        )
    }
}

/// The `len` bytes of the state that start at `offset`.
pub open spec fn read_bytes(lanes: Seq<u64>, offset: int, len: nat) -> Seq<u8> {
    Seq::new(len, |i: int| lane_byte(lanes, offset + i))
}

/// The state after the padding block is XORed in: the delimiter at
/// `offset`, and the final bit `0x80` in the last byte of the rate window.
/// Where both fall on the same byte, they are combined with OR.
pub open spec fn pad_lanes(lanes: Seq<u64>, offset: int, delim: u8, rate: int) -> Seq<u64> {
    if offset == rate - 1 {
        xor_byte(lanes, offset, delim | 0x80)
    } else {
        xor_byte(xor_byte(lanes, offset, delim), rate - 1, 0x80)
    }
}

/// XORing a byte into the state changes that byte, by XOR, and no other.
pub proof fn lemma_xor_byte_reads_back(lanes: Seq<u64>, k: int, b: u8, j: int)
    requires
        lanes.len() == 25,
        0 <= k < 200,
        0 <= j < 200,
    ensures
        lane_byte(xor_byte(lanes, k, b), j) == if j == k {
            lane_byte(lanes, j) ^ b
        } else {
            lane_byte(lanes, j)
        },
{
    if j / 8 == k / 8 {
        let lane = lanes[k / 8];
        let s = (8 * (k % 8)) as u64;
        let t = (8 * (j % 8)) as u64;
        assert(((lane ^ ((b as u64) << s)) >> t) as u8 == if s == t {
            ((lane >> t) as u8) ^ b
        } else {
            (lane >> t) as u8
        }) by (bit_vector)
            requires
                s < 64,
                t < 64,
                s % 8 == 0,
                t % 8 == 0,
        ;
    }
}

/// Padding is never skipped: whatever the cursor, the padding block sets
/// the final bit of the rate window, so the padded state differs from the
/// state before in the last byte of the window.
pub proof fn lemma_padding_marks_state(lanes: Seq<u64>, offset: int, delim: u8, rate: int)
    requires
        lanes.len() == 25,
        0 <= offset < rate <= 200,
    ensures
        lane_byte(pad_lanes(lanes, offset, delim, rate), rate - 1) != lane_byte(lanes, rate - 1),
        offset < rate - 1 ==> lane_byte(pad_lanes(lanes, offset, delim, rate), offset)
            == lane_byte(lanes, offset) ^ delim,
{
    let last = lane_byte(lanes, rate - 1);
    if offset == rate - 1 {
        lemma_xor_byte_reads_back(lanes, offset, delim | 0x80, rate - 1);
        assert(last ^ (delim | 0x80) != last) by (bit_vector);
    } else {
        let marked = xor_byte(lanes, offset, delim);
        lemma_xor_byte_reads_back(lanes, offset, delim, rate - 1);
        lemma_xor_byte_reads_back(lanes, offset, delim, offset);
        lemma_xor_byte_reads_back(marked, rate - 1, 0x80, rate - 1);
        lemma_xor_byte_reads_back(marked, rate - 1, 0x80, offset);
        assert(last ^ 0x80 != last) by (bit_vector);
    }
}

/// The all-zero state.
pub open spec fn zero_lanes() -> Seq<u64> {
    Seq::new(25, |i: int| 0u64)
}

/// The 1600-bit state, stored as 25 lanes.
pub struct Buffer {
    pub lanes: [u64; 25],
}

impl View for Buffer {
    type V = Seq<u64>;

    open spec fn view(&self) -> Seq<u64> {
        self.lanes@
    }
}

impl Buffer {
    /// The all-zero state.
    pub fn new() -> (r: Self)
        ensures
            r@ == zero_lanes(),
    {
        let r = Buffer { lanes: [0u64; 25] };
        assert(r@ =~= zero_lanes());
        r
    }

    fn xor_at(&mut self, k: usize, b: u8)
        requires
            k < 200,
        ensures
            final(self)@ == xor_byte(old(self)@, k as int, b),
    {
        let w: usize = k / 8;
        let s: u64 = (8 * (k % 8)) as u64;
        let lane: u64 = self.lanes[w];
        self.lanes[w] = lane ^ ((b as u64) << s);
    }

    fn byte_at(&self, k: usize) -> (b: u8)
        requires
            k < 200,
        ensures
            b == lane_byte(self@, k as int),
    {
        let s: u64 = (8 * (k % 8)) as u64;
        #[verifier::truncate]
        ((self.lanes[k / 8] >> s) as u8)
    }

    /// XORs `src[from..from + len]` into the state bytes that start at `offset`.
    pub fn xorin(&mut self, src: &[u8], from: usize, offset: usize, len: usize)
        requires
            from + len <= src@.len(),
            offset + len <= 200,
        ensures
            final(self)@ == xor_bytes(
                old(self)@,
                offset as int,
                src@.subrange(from as int, from + len),
            ),
    {
        let total: usize = src.len();
        let mut i: usize = 0;
        while i < len
            invariant
                i <= len,
                from + len <= total,
                total == src@.len(),
                offset + len <= 200,
                self@ == xor_bytes(old(self)@, offset as int, src@.subrange(from as int, from + i)),
            decreases len - i,
        {
            let b: u8 = src[from + i];
            proof {
                let next = src@.subrange(from as int, from + i + 1);
                assert(next.drop_last() =~= src@.subrange(from as int, from + i));
                assert(next.last() == b);
            }
            self.xor_at(offset + i, b);
            i += 1;
        }
    }

    /// Copies the `len` state bytes that start at `offset` to `dst[at..at + len]`.
    pub fn setout(&self, dst: &mut [u8], at: usize, offset: usize, len: usize)
        requires
            at + len <= old(dst)@.len(),
            offset + len <= 200,
        ensures
            final(dst)@.len() == old(dst)@.len(),
            final(dst)@.subrange(at as int, at + len) == read_bytes(self@, offset as int, len as nat),
            forall|j: int|
                0 <= j < old(dst)@.len() && !(at <= j < at + len) ==> final(dst)@[j] == old(dst)@[j],
    {
        let total: usize = dst.len();
        let mut i: usize = 0;
        while i < len
            invariant
                i <= len,
                dst@.len() == old(dst)@.len(),
                at + len <= total,
                total == dst@.len(),
                offset + len <= 200,
                forall|j: int|
                    at <= j < at + i ==> dst@[j] == lane_byte(self@, offset + (j - at)),
                forall|j: int|
                    0 <= j < dst@.len() && !(at <= j < at + i) ==> dst@[j] == old(dst)@[j],
            decreases len - i,
        {
            dst[at + i] = self.byte_at(offset + i);
            i += 1;
        }
        assert(dst@.subrange(at as int, at + len) =~= read_bytes(self@, offset as int, len as nat));
    }

    /// XORs the padding block into the state.
    pub fn pad(&mut self, offset: usize, delim: u8, rate: usize)
        requires
            offset < rate <= 200,
        ensures
            final(self)@ == pad_lanes(old(self)@, offset as int, delim, rate as int),
    {
        if offset == rate - 1 {
            self.xor_at(offset, delim | 0x80);
        } else {
            self.xor_at(offset, delim);
            self.xor_at(rate - 1, 0x80);
        }
    }
}

/// A permutation of the 1600-bit state.
pub trait Permutation {
    /// The permutation as a function on the 25 lanes.
    spec fn permuted(lanes: Seq<u64>) -> Seq<u64>;

    /// The permutation gives 25 lanes back.
    proof fn lemma_permuted_len(lanes: Seq<u64>)
        requires
            lanes.len() == 25,
        ensures
            Self::permuted(lanes).len() == 25,
    ;

    /// Applies the permutation to the state in place.
    fn execute(buffer: &mut Buffer)
        ensures
            final(buffer)@ == Self::permuted(old(buffer)@),
    ;
}

/// Keccak-f[1600], the permutation of 24 rounds.
pub struct KeccakF;

impl Permutation for KeccakF {
    open spec fn permuted(lanes: Seq<u64>) -> Seq<u64> {
        keccak_f(lanes)
    }

    proof fn lemma_permuted_len(lanes: Seq<u64>) {
        lemma_rounds_len(lanes, 0);
    }

    fn execute(buffer: &mut Buffer) {
        keccakf(&mut buffer.lanes);
    }
}

/// Keccak-p[1600, 12], the permutation of 12 rounds.
pub struct KeccakP;

impl Permutation for KeccakP {
    open spec fn permuted(lanes: Seq<u64>) -> Seq<u64> {
        keccak_p12(lanes)
    }

    proof fn lemma_permuted_len(lanes: Seq<u64>) {
        lemma_rounds_len(lanes, 12);
    }

    fn execute(buffer: &mut Buffer) {
        keccakp(&mut buffer.lanes);
    }
}

/// The two phases of a sponge.
#[derive(Clone, Copy)]
pub enum Mode {
    Absorbing,
    Squeezing,
}

/// The model of a sponge.
pub struct Sponge {
    /// The 25 lanes of the permutation state.
    pub lanes: Seq<u64>,
    /// The cursor into the rate window.
    pub offset: nat,
    /// Bytes absorbed or squeezed per call of the permutation.
    pub rate: nat,
    /// The domain-separation byte of the padding.
    pub delim: u8,
    /// Whether padding has been applied and output has begun.
    pub squeezing: bool,
}

impl Sponge {
    /// A fresh sponge: the zero state, ready to absorb.
    pub open spec fn init(rate: nat, delim: u8) -> Sponge {
        Sponge { lanes: zero_lanes(), offset: 0, rate, delim, squeezing: false }
    }

    /// The rate leaves a capacity, and the cursor lies inside the rate window.
    pub open spec fn valid(self) -> bool {
        &&& self.lanes.len() == 25
        &&& 0 < self.rate < 200
        &&& self.offset < self.rate
    }
}

/// The sponge after one input byte: the byte is XORed in at the cursor, and
/// the state is permuted when the cursor reaches the rate.
pub open spec fn absorb_byte<P: Permutation>(s: Sponge, b: u8) -> Sponge {
    let lanes = xor_byte(s.lanes, s.offset as int, b);
    if s.offset + 1 == s.rate {
        Sponge { lanes: P::permuted(lanes), offset: 0, ..s }
    } else {
        Sponge { lanes, offset: s.offset + 1, ..s }
    }
}

/// The sponge after the bytes of `input`, absorbed in order.
pub open spec fn absorb<P: Permutation>(s: Sponge, input: Seq<u8>) -> Sponge
    decreases input.len(),
{
    if input.len() == 0 {
        s
    } else {
        absorb_byte::<P>(absorb::<P>(s, input.drop_last()), input.last())
    }
}

/// The sponge after the state is permuted and the cursor is set back to the
/// start of the rate window.
pub open spec fn fill<P: Permutation>(s: Sponge) -> Sponge {
    Sponge { lanes: P::permuted(s.lanes), offset: 0, ..s }
}

/// The absorbing sponge after padding and the permutation that follows it:
/// ready to be squeezed.
pub open spec fn pad<P: Permutation>(s: Sponge) -> Sponge {
    Sponge {
        lanes: P::permuted(pad_lanes(s.lanes, s.offset as int, s.delim, s.rate as int)),
        offset: 0,
        squeezing: true,
        ..s
    }
}

/// The sponge from which output is read: itself if it is squeezing already,
/// else padded.
pub open spec fn squeezing<P: Permutation>(s: Sponge) -> Sponge {
    if s.squeezing {
        s
    } else {
        pad::<P>(s)
    }
}

/// The squeezing sponge after one output byte: the cursor moves on, and the
/// state is permuted when the cursor reaches the rate.
pub open spec fn advance_byte<P: Permutation>(s: Sponge) -> Sponge {
    if s.offset + 1 == s.rate {
        Sponge { lanes: P::permuted(s.lanes), offset: 0, ..s }
    } else {
        Sponge { offset: s.offset + 1, ..s }
    }
}

/// The squeezing sponge after `n` output bytes.
pub open spec fn advance<P: Permutation>(s: Sponge, n: nat) -> Sponge
    decreases n,
{
    if n == 0 {
        s
    } else {
        advance_byte::<P>(advance::<P>(s, (n - 1) as nat))
    }
}

/// The first `n` output bytes of the squeezing sponge.
pub open spec fn stream<P: Permutation>(s: Sponge, n: nat) -> Seq<u8>
    decreases n,
{
    if n == 0 {
        Seq::empty()
    } else {
        let before = advance::<P>(s, (n - 1) as nat);
        stream::<P>(s, (n - 1) as nat).push(lane_byte(before.lanes, before.offset as int))
    }
}

/// The first `n` output bytes of the sponge function: `message` absorbed
/// into a fresh sponge, padded and squeezed.
pub open spec fn sponge<P: Permutation>(rate: nat, delim: u8, message: Seq<u8>, n: nat) -> Seq<u8> {
    stream::<P>(pad::<P>(absorb::<P>(Sponge::init(rate, delim), message)), n)
}

/// Absorbing is indifferent to how the input is cut into calls: `a` and
/// then `b` leave the sponge as `a + b` at once does.
pub proof fn lemma_absorb_concat<P: Permutation>(s: Sponge, a: Seq<u8>, b: Seq<u8>)
    ensures
        absorb::<P>(absorb::<P>(s, a), b) == absorb::<P>(s, a + b),
    decreases b.len(),
{
    if b.len() == 0 {
        assert(a + b =~= a);
    } else {
        lemma_absorb_concat::<P>(s, a, b.drop_last());
        assert((a + b).drop_last() =~= a + b.drop_last());
        assert((a + b).last() == b.last());
    }
}

/// Input that stays short of the end of the rate window is only XORed in.
pub proof fn lemma_absorb_within_block<P: Permutation>(s: Sponge, bytes: Seq<u8>)
    requires
        s.offset + bytes.len() < s.rate,
    ensures
        absorb::<P>(s, bytes) == (Sponge {
            lanes: xor_bytes(s.lanes, s.offset as int, bytes),
            offset: s.offset + bytes.len(),
            ..s
        }),
    decreases bytes.len(),
{
    if bytes.len() > 0 {
        lemma_absorb_within_block::<P>(s, bytes.drop_last());
    }
}

/// Input that ends at the end of the rate window is XORed in, and the
/// state is permuted once.
pub proof fn lemma_absorb_to_block_end<P: Permutation>(s: Sponge, bytes: Seq<u8>)
    requires
        bytes.len() > 0,
        s.offset + bytes.len() == s.rate,
    ensures
        absorb::<P>(s, bytes) == (Sponge {
            lanes: P::permuted(xor_bytes(s.lanes, s.offset as int, bytes)),
            offset: 0,
            ..s
        }),
{
    lemma_absorb_within_block::<P>(s, bytes.drop_last());
}

/// Absorbing keeps the configuration and the mode; the cursor advances by
/// the length of the input modulo the rate.
pub proof fn lemma_absorb_cursor<P: Permutation>(s: Sponge, input: Seq<u8>)
    requires
        0 < s.rate,
        s.offset < s.rate,
    ensures
        absorb::<P>(s, input).rate == s.rate,
        absorb::<P>(s, input).delim == s.delim,
        absorb::<P>(s, input).squeezing == s.squeezing,
        absorb::<P>(s, input).offset == (s.offset + input.len()) % s.rate,
    decreases input.len(),
{
    if input.len() == 0 {
        assert((s.offset as int) % (s.rate as int) == s.offset) by (nonlinear_arith)
            requires
                0 <= s.offset < s.rate,
        ;
    } else {
        lemma_absorb_cursor::<P>(s, input.drop_last());
        let r = s.rate as int;
        let n = s.offset + input.len() - 1;
        assert((n + 1) % r == if n % r + 1 == r {
            0
        } else {
            n % r + 1
        }) by (nonlinear_arith)
            requires
                r > 0,
                n >= 0,
        ;
    }
}

/// Absorbing keeps a valid sponge valid.
pub proof fn lemma_absorb_valid<P: Permutation>(s: Sponge, input: Seq<u8>)
    requires
        s.valid(),
    ensures
        absorb::<P>(s, input).valid(),
    decreases input.len(),
{
    lemma_absorb_cursor::<P>(s, input);
    if input.len() > 0 {
        lemma_absorb_valid::<P>(s, input.drop_last());
        let before = absorb::<P>(s, input.drop_last());
        P::lemma_permuted_len(xor_byte(before.lanes, before.offset as int, input.last()));
    }
}

/// The padding bytes for a cursor at `offset`: the delimiter first, the
/// final bit `0x80` in the last byte of the rate window, zero bytes between;
/// a single byte with both where the cursor is on the last byte.
pub open spec fn padding(offset: nat, delim: u8, rate: nat) -> Seq<u8> {
    Seq::new(
        (rate - offset) as nat,
        |i: int|
            (if i == 0 {
                delim
            } else {
                0u8
            }) | (if i == rate - offset - 1 {
                0x80u8
            } else {
                0u8
            }),
    )
}

/// XORing a zero byte into the state changes nothing.
pub proof fn lemma_xor_zero_byte(lanes: Seq<u64>, k: int)
    requires
        lanes.len() == 25,
        0 <= k < 200,
    ensures
        xor_byte(lanes, k, 0) == lanes,
{
    let lane = lanes[k / 8];
    let s = (8 * (k % 8)) as u64;
    assert(lane ^ ((0u8 as u64) << s) == lane) by (bit_vector);
    assert(xor_byte(lanes, k, 0) =~= lanes);
}

/// XORing a byte followed by zero bytes into the state is XORing the byte.
pub proof fn lemma_xor_byte_then_zeros(lanes: Seq<u64>, offset: int, bytes: Seq<u8>)
    requires
        lanes.len() == 25,
        0 <= offset,
        offset + bytes.len() <= 200,
        bytes.len() > 0,
        forall|i: int| 0 < i < bytes.len() ==> bytes[i] == 0,
    ensures
        xor_bytes(lanes, offset, bytes) == xor_byte(lanes, offset, bytes[0]),
    decreases bytes.len(),
{
    reveal_with_fuel(xor_bytes, 2);
    if bytes.len() > 1 {
        let front = bytes.drop_last();
        assert(front[0] == bytes[0]);
        lemma_xor_byte_then_zeros(lanes, offset, front);
        assert(bytes.last() == 0);
        lemma_xor_zero_byte(xor_byte(lanes, offset, bytes[0]), offset + bytes.len() - 1);
    }
}

/// Padding is absorbing the padding bytes: they fill the rate window up,
/// so one permutation follows, also where the cursor is at the start of
/// the window and a whole block of padding is absorbed.
pub proof fn lemma_pad_is_absorbed_padding<P: Permutation>(s: Sponge)
    requires
        s.valid(),
        !s.squeezing,
    ensures
        pad::<P>(s) == (Sponge {
            squeezing: true,
            ..absorb::<P>(s, padding(s.offset, s.delim, s.rate))
        }),
{
    reveal_with_fuel(xor_bytes, 2);
    let bytes = padding(s.offset, s.delim, s.rate);
    let delim = s.delim;
    assert(delim | 0u8 == delim) by (bit_vector);
    assert(0u8 | 0u8 == 0u8) by (bit_vector);
    assert(0u8 | 0x80u8 == 0x80u8) by (bit_vector);
    if bytes.len() == 1 {
        assert(bytes.last() == delim | 0x80);
    } else {
        let front = bytes.drop_last();
        assert(front[0] == delim);
        assert forall|i: int| 0 < i < front.len() implies front[i] == 0 by {
            assert(front[i] == bytes[i]);
        }
        lemma_xor_byte_then_zeros(s.lanes, s.offset as int, front);
        assert(bytes.last() == 0x80);
    }
    assert(xor_bytes(s.lanes, s.offset as int, bytes) == pad_lanes(
        s.lanes,
        s.offset as int,
        s.delim,
        s.rate as int,
    ));
    lemma_absorb_to_block_end::<P>(s, bytes);
}

/// The sponge function absorbs the padded message block by block and then
/// gives its output: the cursor is at the start of the rate window when the
/// padded message has been absorbed.
pub proof fn lemma_sponge_absorbs_padded_message<P: Permutation>(
    rate: nat,
    delim: u8,
    message: Seq<u8>,
    n: nat,
)
    requires
        0 < rate < 200,
    ensures
        ({
            let padded = message + padding(message.len() % rate, delim, rate);
            &&& padded.len() % rate == 0
            &&& absorb::<P>(Sponge::init(rate, delim), padded).offset == 0
            &&& sponge::<P>(rate, delim, message, n) == stream::<P>(
                Sponge { squeezing: true, ..absorb::<P>(Sponge::init(rate, delim), padded) },
                n,
            )
        }),
{
    let start = Sponge::init(rate, delim);
    let absorbed = absorb::<P>(start, message);
    lemma_absorb_cursor::<P>(start, message);
    assert(start.valid());
    lemma_absorb_valid::<P>(start, message);
    lemma_pad_is_absorbed_padding::<P>(absorbed);
    let tail = padding(message.len() % rate, delim, rate);
    lemma_absorb_concat::<P>(start, message, tail);
    let r = rate as int;
    let len = message.len() as int;
    assert((len + (r - len % r)) % r == 0) by (nonlinear_arith)
        requires
            r > 0,
            len >= 0,
    ;
}

/// Squeezing is indifferent to how the output is cut into calls: `n` bytes
/// and then `m` more are the first `n + m` bytes, and leave the sponge as
/// `n + m` at once do.
pub proof fn lemma_squeeze_concat<P: Permutation>(s: Sponge, n: nat, m: nat)
    ensures
        advance::<P>(advance::<P>(s, n), m) == advance::<P>(s, n + m),
        stream::<P>(s, n) + stream::<P>(advance::<P>(s, n), m) == stream::<P>(s, n + m),
    decreases m,
{
    if m == 0 {
        assert(stream::<P>(s, n) + Seq::<u8>::empty() =~= stream::<P>(s, n));
    } else {
        lemma_squeeze_concat::<P>(s, n, (m - 1) as nat);
        let t = advance::<P>(s, n);
        let before = advance::<P>(t, (m - 1) as nat);
        assert(stream::<P>(s, n) + stream::<P>(t, (m - 1) as nat).push(
            lane_byte(before.lanes, before.offset as int),
        ) =~= (stream::<P>(s, n) + stream::<P>(t, (m - 1) as nat)).push(
            lane_byte(before.lanes, before.offset as int),
        ));
    }
}

/// Output that stays short of the end of the rate window is read from the
/// state as it is.
pub proof fn lemma_squeeze_within_block<P: Permutation>(s: Sponge, n: nat)
    requires
        s.offset + n < s.rate,
    ensures
        advance::<P>(s, n) == (Sponge { offset: s.offset + n, ..s }),
        stream::<P>(s, n) == read_bytes(s.lanes, s.offset as int, n),
    decreases n,
{
    if n > 0 {
        lemma_squeeze_within_block::<P>(s, (n - 1) as nat);
    }
    assert(stream::<P>(s, n) =~= read_bytes(s.lanes, s.offset as int, n));
}

/// Output that ends at the end of the rate window is read from the state
/// as it is, and the state is permuted once.
pub proof fn lemma_squeeze_to_block_end<P: Permutation>(s: Sponge, n: nat)
    requires
        n > 0,
        s.offset + n == s.rate,
    ensures
        advance::<P>(s, n) == (Sponge { lanes: P::permuted(s.lanes), offset: 0, ..s }),
        stream::<P>(s, n) == read_bytes(s.lanes, s.offset as int, n),
{
    lemma_squeeze_within_block::<P>(s, (n - 1) as nat);
    assert(stream::<P>(s, n) =~= read_bytes(s.lanes, s.offset as int, n));
}

/// Squeezing keeps the configuration and the mode; the cursor advances by
/// the length of the output modulo the rate.
pub proof fn lemma_squeeze_cursor<P: Permutation>(s: Sponge, n: nat)
    requires
        0 < s.rate,
        s.offset < s.rate,
    ensures
        advance::<P>(s, n).rate == s.rate,
        advance::<P>(s, n).delim == s.delim,
        advance::<P>(s, n).squeezing == s.squeezing,
        advance::<P>(s, n).offset == (s.offset + n) % s.rate,
    decreases n,
{
    let r = s.rate as int;
    if n == 0 {
        assert((s.offset as int) % r == s.offset) by (nonlinear_arith)
            requires
                0 <= s.offset < r,
        ;
    } else {
        lemma_squeeze_cursor::<P>(s, (n - 1) as nat);
        let m = s.offset + n - 1;
        assert((m + 1) % r == if m % r + 1 == r {
            0
        } else {
            m % r + 1
        }) by (nonlinear_arith)
            requires
                r > 0,
                m >= 0,
        ;
    }
}

/// The output has the length asked for.
pub proof fn lemma_stream_len<P: Permutation>(s: Sponge, n: nat)
    ensures
        stream::<P>(s, n).len() == n,
    decreases n,
{
    if n > 0 {
        lemma_stream_len::<P>(s, (n - 1) as nat);
    }
}

/// Two sponges of the same configuration that absorb the same bytes give
/// the same output.
pub proof fn lemma_sponge_deterministic<P: Permutation>(
    a: Sponge,
    b: Sponge,
    input: Seq<u8>,
    n: nat,
)
    requires
        a == b,
    ensures
        absorb::<P>(a, input) == absorb::<P>(b, input),
        stream::<P>(squeezing::<P>(absorb::<P>(a, input)), n) == stream::<P>(
            squeezing::<P>(absorb::<P>(b, input)),
            n,
        ),
{
}

/// A sponge over the permutation `P`.
pub struct KeccakState<P> {
    buffer: Buffer,
    offset: usize,
    rate: usize,
    delim: u8,
    mode: Mode,
    permutation: PhantomData<P>,
}

impl<P: Permutation> View for KeccakState<P> {
    type V = Sponge;

    closed spec fn view(&self) -> Sponge {
        Sponge {
            lanes: self.buffer@,
            offset: self.offset as nat,
            rate: self.rate as nat,
            delim: self.delim,
            squeezing: self.mode is Squeezing,
        }
    }
}

impl<P: Permutation> Clone for KeccakState<P> {
    /// A fork: it continues as the sponge it was cloned from does.
    fn clone(&self) -> (r: Self)
        ensures
            r@ == self@,
    {
        KeccakState {
            buffer: Buffer { lanes: self.buffer.lanes },
            offset: self.offset,
            rate: self.rate,
            delim: self.delim,
            mode: self.mode,
            permutation: PhantomData,
        }
    }
}

impl<P: Permutation> KeccakState<P> {
    /// The model is valid.
    pub open spec fn wf(&self) -> bool {
        self@.valid()
    }

    /// A fresh sponge of the given rate and delimiter.
    pub fn new(rate: usize, delim: u8) -> (r: Self)
        requires
            0 < rate < 200,
        ensures
            r.wf(),
            r@ == Sponge::init(rate as nat, delim),
    {
        KeccakState {
            buffer: Buffer::new(),
            offset: 0,
            rate,
            delim,
            mode: Mode::Absorbing,
            permutation: PhantomData,
        }
    }

    /// Whether output has begun.
    pub fn is_squeezing(&self) -> (r: bool)
        ensures
            r == self@.squeezing,
    {
        match self.mode {
            Mode::Absorbing => false,
            Mode::Squeezing => true,
        }
    }

    /// The cursor into the rate window.
    pub fn offset(&self) -> (r: usize)
        ensures
            r == self@.offset,
    {
        self.offset
    }

    fn keccak(&mut self)
        ensures
            final(self)@ == (Sponge { lanes: P::permuted(old(self)@.lanes), ..old(self)@ }),
    {
        P::execute(&mut self.buffer);
    }

    /// Absorbs `input`.
    pub fn update(&mut self, input: &[u8])
        requires
            old(self).wf(),
            !old(self)@.squeezing,
        ensures
            final(self).wf(),
            !final(self)@.squeezing,
            final(self)@.rate == old(self)@.rate,
            final(self)@.delim == old(self)@.delim,
            final(self)@ == absorb::<P>(old(self)@, input@),
    {
        let ghost start = self@;
        let mut ip: usize = 0;
        let mut l: usize = input.len();
        let mut rate: usize = self.rate - self.offset;
        let mut offset: usize = self.offset;
        while l >= rate
            invariant
                ip + l == input@.len(),
                input@.len() <= usize::MAX,
                start.valid(),
                offset < self.rate,
                rate == self.rate - offset,
                (Sponge { offset: offset as nat, ..self@ }) == absorb::<P>(
                    start,
                    input@.subrange(0, ip as int),
                ),
                self@.rate == start.rate,
                self@.delim == start.delim,
                !self@.squeezing,
            decreases l,
        {
            let ghost before = Sponge { offset: offset as nat, ..self@ };
            let ghost block = input@.subrange(ip as int, ip + rate);
            self.buffer.xorin(input, ip, offset, rate);
            self.keccak();
            proof {
                lemma_absorb_to_block_end::<P>(before, block);
                lemma_absorb_concat::<P>(start, input@.subrange(0, ip as int), block);
                assert(input@.subrange(0, ip as int) + block =~= input@.subrange(0, ip + rate));
            }
            ip += rate;
            l -= rate;
            rate = self.rate;
            offset = 0;
        }
        let ghost before = Sponge { offset: offset as nat, ..self@ };
        let ghost rest = input@.subrange(ip as int, ip + l);
        self.buffer.xorin(input, ip, offset, l);
        self.offset = offset + l;
        proof {
            lemma_absorb_within_block::<P>(before, rest);
            lemma_absorb_concat::<P>(start, input@.subrange(0, ip as int), rest);
            assert(input@.subrange(0, ip as int) + rest =~= input@);
        }
    }

    /// Permutes the state and sets the cursor back to the start of the rate
    /// window.
    pub fn fill_block(&mut self)
        requires
            old(self).wf(),
        ensures
            final(self).wf(),
            final(self)@ == fill::<P>(old(self)@),
    {
        self.keccak();
        self.offset = 0;
    }

    /// Applies the padding and the permutation that follows it. The sponge
    /// is then squeezing.
    pub fn pad(&mut self)
        requires
            old(self).wf(),
            !old(self)@.squeezing,
        ensures
            final(self).wf(),
            final(self)@ == pad::<P>(old(self)@),
    {
        self.buffer.pad(self.offset, self.delim, self.rate);
        self.mode = Mode::Squeezing;
        self.fill_block();
    }

    /// Fills `output` with the next output bytes, padding first if the
    /// sponge was still absorbing.
    pub fn squeeze(&mut self, output: &mut [u8])
        requires
            old(self).wf(),
        ensures
            final(self).wf(),
            final(self)@.squeezing,
            final(self)@.rate == old(self)@.rate,
            final(self)@.delim == old(self)@.delim,
            final(self)@ == advance::<P>(squeezing::<P>(old(self)@), old(output)@.len()),
            final(output)@ == stream::<P>(squeezing::<P>(old(self)@), old(output)@.len()),
    {
        if !self.is_squeezing() {
            self.pad();
        }
        let ghost start = self@;
        let mut op: usize = 0;
        let mut l: usize = output.len();
        let mut rate: usize = self.rate - self.offset;
        let mut offset: usize = self.offset;
        while l >= rate
            invariant
                op + l == output@.len(),
                output@.len() <= usize::MAX,
                output@.len() == old(output)@.len(),
                start.valid(),
                start == squeezing::<P>(old(self)@),
                offset < self.rate,
                rate == self.rate - offset,
                (Sponge { offset: offset as nat, ..self@ }) == advance::<P>(start, op as nat),
                output@.subrange(0, op as int) == stream::<P>(start, op as nat),
                self@.rate == start.rate,
                self@.delim == start.delim,
                self@.squeezing,
                start.rate == old(self)@.rate,
                start.delim == old(self)@.delim,
            decreases l,
        {
            let ghost before = Sponge { offset: offset as nat, ..self@ };
            let ghost written = output@.subrange(0, op as int);
            self.buffer.setout(output, op, offset, rate);
            self.keccak();
            proof {
                lemma_squeeze_to_block_end::<P>(before, rate as nat);
                lemma_squeeze_concat::<P>(start, op as nat, rate as nat);
                assert(output@.subrange(0, op + rate) =~= written + output@.subrange(
                    op as int,
                    op + rate,
                ));
            }
            op += rate;
            l -= rate;
            rate = self.rate;
            offset = 0;
        }
        let ghost before = Sponge { offset: offset as nat, ..self@ };
        let ghost written = output@.subrange(0, op as int);
        self.buffer.setout(output, op, offset, l);
        self.offset = offset + l;
        proof {
            lemma_squeeze_within_block::<P>(before, l as nat);
            lemma_squeeze_concat::<P>(start, op as nat, l as nat);
            assert(output@ =~= written + output@.subrange(op as int, op + l));
        }
    }

    /// Fills `output` with the next output bytes and consumes the sponge.
    pub fn finalize(self, output: &mut [u8])
        requires
            self.wf(),
        ensures
            final(output)@ == stream::<P>(squeezing::<P>(self@), old(output)@.len()),
    {
        let mut state = self;
        state.squeeze(output);
    }
}

} // verus!
