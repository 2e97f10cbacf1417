//! The `SHAKE` extendable-output functions defined in FIPS 202.

use crate::sponge::{absorb, advance, squeezing, stream, KeccakF, KeccakState, Sponge};
use crate::{bits_to_rate, Hasher, Xof};
use vstd::prelude::*;

verus! {

/// The `SHAKE` extendable-output functions defined in FIPS 202: a sponge
/// over Keccak-f[1600] with the delimiter `0x1f`.
pub struct Shake {
    state: KeccakState<KeccakF>,
}

impl View for Shake {
    type V = Sponge;

    closed spec fn view(&self) -> Sponge {
        self.state@
    }
}

impl Clone for Shake {
    /// A fork: it continues as the value it was cloned from does.
    fn clone(&self) -> (r: Self)
        ensures
            r@ == self@,
            r.wf() == self.wf(),
            r.xof_wf() == self.xof_wf(),
    {
        Shake { state: self.state.clone() }
    }
}

impl Shake {
    /// The domain-separation byte of the padding.
    pub const DELIM: u8 = 0x1f;

    /// Creates a new [`Shake`] hasher with a security level of 128 bits.
    pub fn v128() -> (r: Shake)
        ensures
            r.wf(),
            r.xof_wf(),
            r@ == Sponge::init(168, 0x1f),
    {
        Shake::new(128)
    }

    /// Creates a new [`Shake`] hasher with a security level of 256 bits.
    pub fn v256() -> (r: Shake)
        ensures
            r.wf(),
            r.xof_wf(),
            r@ == Sponge::init(136, 0x1f),
    {
        Shake::new(256)
    }

    pub(crate) fn new(bits: usize) -> (r: Shake)
        requires
            0 < bits < 800,
            bits % 4 == 0,
        ensures
            r.wf(),
            r.xof_wf(),
            r@ == Sponge::init((200 - bits / 4) as nat, 0x1f),
    {
        Shake { state: KeccakState::new(bits_to_rate(bits), Self::DELIM) }
    }
}

impl Hasher for Shake {
    /// The sponge is valid.
    open spec fn wf(&self) -> bool {
        self@.valid()
    }

    /// Input is accepted until output has begun.
    open spec fn accepts(v: Sponge) -> bool {
        !v.squeezing
    }

    open spec fn absorbed(v: Sponge, input: Seq<u8>) -> Sponge {
        absorb::<KeccakF>(v, input)
    }

    /// Output of any length.
    open spec fn output_len(v: Sponge, len: nat) -> bool {
        true
    }

    open spec fn digest(v: Sponge, len: nat) -> Seq<u8> {
        stream::<KeccakF>(squeezing::<KeccakF>(v), len)
    }

    /// Absorbs additional input. Can be called multiple times.
    fn update(&mut self, input: &[u8])
        ensures
            final(self)@.rate == old(self)@.rate,
            final(self)@.delim == old(self)@.delim,
    {
        self.state.update(input);
    }

    /// Pads if output has not begun, and fills `output` with the next bytes
    /// of output. Consumes the function.
    fn finalize(self, output: &mut [u8]) {
        self.state.finalize(output);
    }
}

impl Xof for Shake {
    /// The sponge is valid.
    open spec fn xof_wf(&self) -> bool {
        self@.valid()
    }

    open spec fn squeezed(v: Sponge, len: nat) -> Sponge {
        advance::<KeccakF>(squeezing::<KeccakF>(v), len)
    }

    open spec fn output(v: Sponge, len: nat) -> Seq<u8> {
        stream::<KeccakF>(squeezing::<KeccakF>(v), len)
    }

    /// Pads if output has not begun, and fills `output` with the next bytes
    /// of output.
    fn squeeze(&mut self, output: &mut [u8])
        ensures
            final(self)@.squeezing,
            final(self)@.rate == old(self)@.rate,
            final(self)@.delim == old(self)@.delim,
    {
        self.state.squeeze(output)
    }
}

} // verus!
