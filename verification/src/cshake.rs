//! The `cSHAKE` extendable-output functions defined in SP 800-185.

use crate::encoding::{left_encode, left_encoding};
use crate::sponge::{
    absorb, advance, fill, lemma_absorb_concat, lemma_absorb_cursor, squeezing, stream, KeccakF,
    KeccakState, Sponge,
};
use crate::{bits_to_rate, Hasher, Xof};
use vstd::prelude::*;

verus! {

/// What a customised sponge of the given rate absorbs before any input:
/// the encoded rate, then the function name and the customization string,
/// each behind its length in bits.
pub open spec fn cshake_prefix(rate: nat, name: Seq<u8>, custom_string: Seq<u8>) -> Seq<u8> {
    left_encoding(rate) + left_encoding(8 * name.len()) + name + left_encoding(
        8 * custom_string.len(),
    ) + custom_string
}

/// The sponge after zero bytes have filled the rate window up: unchanged
/// where the window is empty, else permuted, with the cursor at its start.
pub open spec fn filled_up(s: Sponge) -> Sponge {
    if s.offset == 0 {
        s
    } else {
        fill::<KeccakF>(s)
    }
}

/// The sponge of a new `cSHAKE` function. Without a name and a
/// customization string it is that of `SHAKE`; else it has the delimiter
/// `0x04` and has absorbed the prefix, filled up with zero bytes to a whole
/// number of blocks.
pub open spec fn cshake_init(rate: nat, name: Seq<u8>, custom_string: Seq<u8>) -> Sponge {
    if name.len() == 0 && custom_string.len() == 0 {
        Sponge::init(rate, 0x1f)
    } else {
        filled_up(
            absorb::<KeccakF>(Sponge::init(rate, 0x04), cshake_prefix(rate, name, custom_string)),
        )
    }
}

/// The `cSHAKE` extendable-output functions defined in SP 800-185.
pub struct CShake {
    state: KeccakState<KeccakF>,
}

impl View for CShake {
    type V = Sponge;

    closed spec fn view(&self) -> Sponge {
        self.state@
    }
}

impl Clone for CShake {
    /// A fork: it continues as the value it was cloned from does.
    fn clone(&self) -> (r: Self)
        ensures
            r@ == self@,
            r.wf() == self.wf(),
            r.xof_wf() == self.xof_wf(),
    {
        CShake { state: self.state.clone() }
    }
}

impl CShake {
    /// The domain-separation byte of the padding.
    pub const DELIM: u8 = 0x04;

    /// Creates a new [`CShake`] hasher with a security level of 128 bits.
    pub fn v128(name: &[u8], custom_string: &[u8]) -> (r: CShake)
        requires
            8 * name@.len() <= usize::MAX,
            8 * custom_string@.len() <= usize::MAX,
        ensures
            r.wf(),
            r.xof_wf(),
            !r@.squeezing,
            r@.rate == 168,
            r@ == cshake_init(168, name@, custom_string@),
    {
        CShake::new(name, custom_string, 128)
    }

    /// Creates a new [`CShake`] hasher with a security level of 256 bits.
    pub fn v256(name: &[u8], custom_string: &[u8]) -> (r: CShake)
        requires
            8 * name@.len() <= usize::MAX,
            8 * custom_string@.len() <= usize::MAX,
        ensures
            r.wf(),
            r.xof_wf(),
            !r@.squeezing,
            r@.rate == 136,
            r@ == cshake_init(136, name@, custom_string@),
    {
        CShake::new(name, custom_string, 256)
    }

    pub(crate) fn new(name: &[u8], custom_string: &[u8], bits: usize) -> (r: CShake)
        requires
            0 < bits < 800,
            bits % 4 == 0,
            8 * name@.len() <= usize::MAX,
            8 * custom_string@.len() <= usize::MAX,
        ensures
            r.wf(),
            r.xof_wf(),
            !r@.squeezing,
            r@.rate == 200 - bits / 4,
            r@ == cshake_init((200 - bits / 4) as nat, name@, custom_string@),
    {
        let rate: usize = bits_to_rate(bits);
        // if there is no name and no customization string
        // cSHAKE is SHAKE
        if name.len() == 0 && custom_string.len() == 0 {
            let state = KeccakState::new(rate, 0x1f);
            return CShake { state };
        }
        let ghost start = Sponge::init(rate as nat, 0x04);
        let ghost e1 = left_encoding(rate as nat);
        let ghost e2 = left_encoding((8 * name@.len()) as nat);
        let ghost e3 = left_encoding((8 * custom_string@.len()) as nat);

        let mut state = KeccakState::new(rate, Self::DELIM);
        let encoded = left_encode(rate);
        state.update(encoded.value());
        let encoded = left_encode(name.len() * 8);
        state.update(encoded.value());
        state.update(name);
        let encoded = left_encode(custom_string.len() * 8);
        state.update(encoded.value());
        state.update(custom_string);
        proof {
            lemma_absorb_concat::<KeccakF>(start, e1, e2);
            lemma_absorb_concat::<KeccakF>(start, e1 + e2, name@);
            lemma_absorb_concat::<KeccakF>(start, e1 + e2 + name@, e3);
            lemma_absorb_concat::<KeccakF>(start, e1 + e2 + name@ + e3, custom_string@);
            lemma_absorb_cursor::<KeccakF>(
                start,
                cshake_prefix(rate as nat, name@, custom_string@),
            );
        }
        if state.offset() != 0 {
            state.fill_block();
        }
        CShake { state }
    }

    /// Permutes the state and sets the cursor back to the start of the rate
    /// window, as absorbing zero bytes up to the end of the window does.
    pub fn fill_block(&mut self)
        requires
            old(self).wf(),
        ensures
            final(self).wf(),
            final(self).xof_wf(),
            final(self)@ == fill::<KeccakF>(old(self)@),
    {
        self.state.fill_block();
    }
}

impl Hasher for CShake {
    /// The sponge is valid.
    open spec fn wf(&self) -> bool {
        self@.valid()
    }

    /// Input is accepted until output has begun.
    open spec fn accepts(v: Sponge) -> bool {
        !v.squeezing
    }

    open spec fn absorbed(v: Sponge, input: Seq<u8>) -> Sponge {
        absorb::<KeccakF>(v, input)
    }

    /// Output of any length.
    open spec fn output_len(v: Sponge, len: nat) -> bool {
        true
    }

    open spec fn digest(v: Sponge, len: nat) -> Seq<u8> {
        stream::<KeccakF>(squeezing::<KeccakF>(v), len)
    }

    /// Absorbs additional input. Can be called multiple times.
    fn update(&mut self, input: &[u8])
        ensures
            final(self)@.rate == old(self)@.rate,
            final(self)@.delim == old(self)@.delim,
    {
        self.state.update(input);
    }

    /// Pads if output has not begun, and fills `output` with the next bytes
    /// of output. Consumes the function.
    fn finalize(self, output: &mut [u8]) {
        self.state.finalize(output);
    }
}

impl Xof for CShake {
    /// The sponge is valid.
    open spec fn xof_wf(&self) -> bool {
        self@.valid()
    }

    open spec fn squeezed(v: Sponge, len: nat) -> Sponge {
        advance::<KeccakF>(squeezing::<KeccakF>(v), len)
    }

    open spec fn output(v: Sponge, len: nat) -> Seq<u8> {
        stream::<KeccakF>(squeezing::<KeccakF>(v), len)
    }

    /// Pads if output has not begun, and fills `output` with the next bytes
    /// of output.
    fn squeeze(&mut self, output: &mut [u8])
        ensures
            final(self)@.squeezing,
            final(self)@.rate == old(self)@.rate,
            final(self)@.delim == old(self)@.delim,
    {
        self.state.squeeze(output);
    }
}

} // verus!
