//! Keccak-derived hash functions and extendable-output functions over
//! in-memory byte buffers.
//!
//! The permutation lives in [`keccakf`], the sponge engine in [`sponge`].
//! The named functions ([`Keccak`], [`Sha3`], [`Shake`], [`CShake`],
//! [`KangarooTwelve`]) configure a sponge and expose it through the
//! capabilities [`Hasher`] and [`Xof`].

pub mod cshake;
pub mod encoding;
pub mod kangaroo;
pub mod keccak;
pub mod keccakf;
pub mod sha3;
pub mod shake;
pub mod sponge;

pub use cshake::CShake;
pub use encoding::{left_encode, length_encode, right_encode, EncodedLen};
pub use kangaroo::{KangarooTwelve, KangarooTwelveXof};
pub use keccak::Keccak;
pub use keccakf::{keccakf, keccakp};
pub use sha3::Sha3;
pub use shake::Shake;
pub use sponge::{Buffer, KeccakF, KeccakP, KeccakState, Mode, Permutation};

use vstd::prelude::*;

verus! {

/// The rate in bytes of a sponge of the given security level in bits: the
/// capacity is twice the security level.
pub fn bits_to_rate(bits: usize) -> (rate: usize)
    requires
        bits <= 800,
    ensures
        rate == 200 - bits / 4,
{
    200 - bits / 4
}

/// A hash function that absorbs input in pieces and then gives its output
/// once.
pub trait Hasher: Sized + View {
    /// The hasher is in a state that its own methods have left it in.
    spec fn wf(&self) -> bool;

    /// More input may be absorbed.
    spec fn accepts(v: Self::V) -> bool;

    /// The hasher after `input`.
    spec fn absorbed(v: Self::V, input: Seq<u8>) -> Self::V;

    /// Whether the function has an output of `len` bytes.
    spec fn output_len(v: Self::V, len: nat) -> bool;

    /// The output of `len` bytes.
    spec fn digest(v: Self::V, len: nat) -> Seq<u8>;

    /// Absorbs additional input. Can be called multiple times.
    fn update(&mut self, input: &[u8])
        requires
            old(self).wf(),
            Self::accepts(old(self)@),
        ensures
            final(self).wf(),
            Self::accepts(final(self)@),
            final(self)@ == Self::absorbed(old(self)@, input@),
    ;

    /// Pads, and fills `output` with the output. Consumes the hasher.
    fn finalize(self, output: &mut [u8])
        requires
            self.wf(),
            Self::output_len(self@, old(output)@.len()),
        ensures
            final(output)@ == Self::digest(self@, old(output)@.len()),
    ;
}

/// An extendable-output function: output of any length, given in pieces.
pub trait Xof: Sized + View {
    /// The function is in a state that its own methods have left it in.
    spec fn xof_wf(&self) -> bool;

    /// The function after `len` bytes of output.
    spec fn squeezed(v: Self::V, len: nat) -> Self::V;

    /// The next `len` bytes of output.
    spec fn output(v: Self::V, len: nat) -> Seq<u8>;

    /// Fills `output` with the next bytes of output. Can be called multiple
    /// times.
    fn squeeze(&mut self, output: &mut [u8])
        requires
            old(self).xof_wf(),
        ensures
            final(self).xof_wf(),
            final(self)@ == Self::squeezed(old(self)@, old(output)@.len()),
            final(output)@ == Self::output(old(self)@, old(output)@.len()),
    ;
}

/// A hasher that turns into an extendable-output function when its input
/// is complete.
pub trait IntoXof: Sized + View {
    /// The function that gives the output.
    type Xof: Xof;

    /// The hasher is in a state that its own methods have left it in.
    spec fn convertible(&self) -> bool;

    /// The output function of a hasher, before any output.
    spec fn xof_model(v: Self::V) -> <Self::Xof as View>::V;

    /// Ends the input and gives the output function. Consumes the hasher.
    fn into_xof(self) -> (r: Self::Xof)
        requires
            self.convertible(),
        ensures
            r.xof_wf(),
            r@ == Self::xof_model(self@),
    ;
}

} // verus!
