//! The `Keccak` hash functions of the Keccak SHA-3 submission.

use crate::sponge::{absorb, squeezing, stream, KeccakF, KeccakState, Sponge};
use crate::{bits_to_rate, Hasher};
use vstd::prelude::*;

verus! {

/// The `Keccak` hash functions of the Keccak SHA-3 submission: a sponge over
/// Keccak-f[1600] with the delimiter `0x01`, whose output is as long as the
/// security level.
pub struct Keccak {
    state: KeccakState<KeccakF>,
}

impl View for Keccak {
    type V = Sponge;

    closed spec fn view(&self) -> Sponge {
        self.state@
    }
}

impl Clone for Keccak {
    /// A fork: it continues as the value it was cloned from does.
    fn clone(&self) -> (r: Self)
        ensures
            r@ == self@,
            r.wf() == self.wf(),
    {
        Keccak { state: self.state.clone() }
    }
}

impl Keccak {
    /// The domain-separation byte of the padding.
    pub const DELIM: u8 = 0x01;

    /// The length in bytes of the output of a sponge of the given rate: half
    /// the capacity.
    pub open spec fn digest_len(rate: nat) -> nat {
        ((200 - rate) / 2) as nat
    }

    /// Creates a new [`Keccak`] hasher with a security level of 224 bits.
    pub fn v224() -> (r: Keccak)
        ensures
            r.wf(),
            r@ == Sponge::init(144, 0x01),
    {
        Keccak::new(224)
    }

    /// Creates a new [`Keccak`] hasher with a security level of 256 bits.
    pub fn v256() -> (r: Keccak)
        ensures
            r.wf(),
            r@ == Sponge::init(136, 0x01),
    {
        Keccak::new(256)
    }

    /// Creates a new [`Keccak`] hasher with a security level of 384 bits.
    pub fn v384() -> (r: Keccak)
        ensures
            r.wf(),
            r@ == Sponge::init(104, 0x01),
    {
        Keccak::new(384)
    }

    /// Creates a new [`Keccak`] hasher with a security level of 512 bits.
    pub fn v512() -> (r: Keccak)
        ensures
            r.wf(),
            r@ == Sponge::init(72, 0x01),
    {
        Keccak::new(512)
    }

    fn new(bits: usize) -> (r: Keccak)
        requires
            0 < bits < 800,
            bits % 4 == 0,
        ensures
            r.wf(),
            r@ == Sponge::init((200 - bits / 4) as nat, 0x01),
    {
        Keccak { state: KeccakState::new(bits_to_rate(bits), Self::DELIM) }
    }
}

impl Hasher for Keccak {
    /// The sponge is valid and still absorbing.
    open spec fn wf(&self) -> bool {
        self@.valid() && !self@.squeezing
    }

    open spec fn accepts(v: Sponge) -> bool {
        true
    }

    open spec fn absorbed(v: Sponge, input: Seq<u8>) -> Sponge {
        absorb::<KeccakF>(v, input)
    }

    /// The output is as long as the security level.
    open spec fn output_len(v: Sponge, len: nat) -> bool {
        len == Self::digest_len(v.rate)
    }

    open spec fn digest(v: Sponge, len: nat) -> Seq<u8> {
        stream::<KeccakF>(squeezing::<KeccakF>(v), len)
    }

    /// Absorbs additional input. Can be called multiple times.
    fn update(&mut self, input: &[u8])
        ensures
            final(self)@.rate == old(self)@.rate,
            final(self)@.delim == old(self)@.delim,
    {
        self.state.update(input);
    }

    /// Pads, and fills `output` with the digest. Consumes the hasher.
    fn finalize(self, output: &mut [u8]) {
        self.state.finalize(output);
    }
}

} // verus!
