//! The `KangarooTwelve` tree hash over Keccak-p[1600, 12].
//!
//! The input is collected first: what is hashed is the message, the
//! customization string and the encoded length of that string. Up to one
//! chunk of 8192 bytes is hashed by a single sponge. Longer input is cut
//! into chunks; every chunk but the first is replaced by its chaining value
//! of 32 bytes, and a final node holds the first chunk, the chaining values
//! in the order of their chunks, their number, and a trailer.

use crate::encoding::{length_encode, length_encoding};
use crate::sponge::{
    absorb, advance, lemma_absorb_concat, pad, sponge, squeezing, stream, KeccakP, KeccakState,
    Sponge,
};
use crate::{Hasher, IntoXof, Xof};
use vstd::prelude::*;
use vstd::slice::slice_subrange;

verus! {

/// What has been collected: the message so far and the customization
/// string.
pub struct Collected {
    pub message: Seq<u8>,
    pub custom_string: Seq<u8>,
}

/// The bytes that are hashed: the message, the customization string and the
/// encoded length of that string.
pub open spec fn k12_input(message: Seq<u8>, custom_string: Seq<u8>) -> Seq<u8> {
    message + custom_string + length_encoding(custom_string.len())
}

/// Chunk `i` of the input: 8192 bytes, or what is left for the last.
pub open spec fn chunk(input: Seq<u8>, i: int) -> Seq<u8> {
    input.subrange(
        8192 * i,
        if 8192 * (i + 1) <= input.len() {
            8192 * (i + 1)
        } else {
            input.len() as int
        },
    )
}

/// The number of chunks after the first; the last chunk is never empty.
pub open spec fn trailing_chunks(input: Seq<u8>) -> nat {
    if input.len() <= 8192 {
        0
    } else {
        ((input.len() - 1) / 8192) as nat
    }
}

/// The chaining value of a chunk: 32 bytes of output of a sponge of rate
/// 168 with the delimiter `0x0b`.
pub open spec fn chaining_value_of(chunk: Seq<u8>) -> Seq<u8> {
    sponge::<KeccakP>(168, 0x0b, chunk, 32)
}

/// The chaining values of the chunks 1 to `count`, in this order.
pub open spec fn chaining_values(input: Seq<u8>, count: nat) -> Seq<u8>
    decreases count,
{
    if count == 0 {
        Seq::empty()
    } else {
        chaining_values(input, (count - 1) as nat) + chaining_value_of(chunk(input, count as int))
    }
}

/// The final node built from given chaining values: the first chunk, a
/// marker, the chaining values, the encoded number of trailing chunks, and
/// the trailer `ff ff`.
pub open spec fn final_node_with(input: Seq<u8>, cvs: Seq<u8>) -> Seq<u8> {
    chunk(input, 0) + seq![3u8, 0u8, 0u8, 0u8, 0u8, 0u8, 0u8, 0u8] + cvs + length_encoding(
        trailing_chunks(input),
    ) + seq![0xffu8, 0xffu8]
}

/// The final node of an input of more than one chunk.
pub open spec fn final_node(input: Seq<u8>) -> Seq<u8> {
    final_node_with(input, chaining_values(input, trailing_chunks(input)))
}

/// The sponge that has absorbed the input: for up to one chunk the input
/// itself, with the delimiter `0x07`; else the final node, with the
/// delimiter `0x06`.
pub open spec fn k12_sponge(input: Seq<u8>) -> Sponge {
    if input.len() <= 8192 {
        absorb::<KeccakP>(Sponge::init(168, 0x07), input)
    } else {
        absorb::<KeccakP>(Sponge::init(168, 0x06), final_node(input))
    }
}

/// The first `n` bytes of `KangarooTwelve` of a message and a customization
/// string.
pub open spec fn k12(message: Seq<u8>, custom_string: Seq<u8>, n: nat) -> Seq<u8> {
    stream::<KeccakP>(pad::<KeccakP>(k12_sponge(k12_input(message, custom_string))), n)
}

/// Collecting is indifferent to how the message is cut into calls: `a` and
/// then `b` give the output that `a + b` at once gives.
pub proof fn lemma_collect_concat(v: Collected, a: Seq<u8>, b: Seq<u8>, n: nat)
    ensures
        KangarooTwelve::absorbed(KangarooTwelve::absorbed(v, a), b) == KangarooTwelve::absorbed(
            v,
            a + b,
        ),
        KangarooTwelve::digest(KangarooTwelve::absorbed(KangarooTwelve::absorbed(v, a), b), n)
            == KangarooTwelve::digest(KangarooTwelve::absorbed(v, a + b), n),
{
    assert(v.message + a + b =~= v.message + (a + b));
}

/// Chaining values are addressed by the index of their chunk. A buffer in
/// which the 32 bytes at place `i - 1` are the chaining value of chunk `i`,
/// for every chunk after the first, holds the chaining values in order,
/// whatever the order in which they were computed and stored.
pub proof fn lemma_chaining_values_by_index(input: Seq<u8>, count: nat, cvs: Seq<u8>)
    requires
        cvs.len() == 32 * count,
        forall|i: int|
            1 <= i <= count ==> #[trigger] cvs.subrange(32 * (i - 1), 32 * i) == chaining_value_of(
                chunk(input, i),
            ),
    ensures
        cvs == chaining_values(input, count),
    decreases count,
{
    if count == 0 {
        assert(cvs =~= Seq::<u8>::empty());
    } else {
        let head = cvs.subrange(0, 32 * (count - 1));
        assert forall|i: int| 1 <= i <= count - 1 implies #[trigger] head.subrange(
            32 * (i - 1),
            32 * i,
        ) == chaining_value_of(chunk(input, i)) by {
            assert(head.subrange(32 * (i - 1), 32 * i) =~= cvs.subrange(32 * (i - 1), 32 * i));
        }
        lemma_chaining_values_by_index(input, (count - 1) as nat, head);
        let n = count as int;
        assert(cvs.subrange(32 * (n - 1), 32 * n) == chaining_value_of(chunk(input, n)));
        assert(cvs =~= head + cvs.subrange(32 * (n - 1), 32 * n));
    }
}

/// The final node assembled from chaining values that were computed chunk
/// by chunk, each on its own, is the final node of the input.
pub proof fn lemma_final_node_from_chaining_values(input: Seq<u8>, cvs: Seq<u8>)
    requires
        cvs.len() == 32 * trailing_chunks(input),
        forall|i: int|
            1 <= i <= trailing_chunks(input) ==> #[trigger] cvs.subrange(32 * (i - 1), 32 * i)
                == chaining_value_of(chunk(input, i)),
    ensures
        final_node_with(input, cvs) == final_node(input),
{
    lemma_chaining_values_by_index(input, trailing_chunks(input), cvs);
}

/// The chaining value of one chunk. It depends on the bytes of the chunk
/// alone.
pub fn chaining_value(chunk: &[u8]) -> (cv: [u8; 32])
    ensures
        cv@ == chaining_value_of(chunk@),
{
    let mut state: KeccakState<KeccakP> = KeccakState::new(168, 0x0b);
    state.update(chunk);
    let mut cv: [u8; 32] = [0u8; 32];
    state.finalize(&mut cv);
    cv
}

/// The chaining values of all chunks after the first, in the order of the
/// chunks.
pub fn chaining_values_of(input: &[u8]) -> (cvs: Vec<u8>)
    requires
        input@.len() > 8192,
    ensures
        cvs@ == chaining_values(input@, trailing_chunks(input@)),
{
    let len: usize = input.len();
    let count: usize = (len - 1) / 8192;
    let mut cvs: Vec<u8> = Vec::new();
    let mut i: usize = 1;
    while i <= count
        invariant
            len == input@.len(),
            len > 8192,
            count == (len - 1) / 8192,
            1 <= i <= count + 1,
            cvs@ == chaining_values(input@, (i - 1) as nat),
        decreases count + 1 - i,
    {
        let start: usize = i * 8192;
        let end: usize = if len - start >= 8192 {
            start + 8192
        } else {
            len
        };
        let cv: [u8; 32] = chaining_value(slice_subrange(input, start, end));
        let ghost before = cvs@;
        cvs.extend_from_slice(cv.as_slice());
        assert(cvs@ =~= before + cv@);
        i += 1;
    }
    cvs
}

/// The output stream of `KangarooTwelve`.
pub struct KangarooTwelveXof {
    state: KeccakState<KeccakP>,
}

impl View for KangarooTwelveXof {
    type V = Sponge;

    closed spec fn view(&self) -> Sponge {
        self.state@
    }
}

impl Clone for KangarooTwelveXof {
    /// A fork: it continues as the stream it was cloned from does.
    fn clone(&self) -> (r: Self)
        ensures
            r@ == self@,
            r.xof_wf() == self.xof_wf(),
    {
        KangarooTwelveXof { state: self.state.clone() }
    }
}

impl Xof for KangarooTwelveXof {
    /// The sponge is valid.
    open spec fn xof_wf(&self) -> bool {
        self@.valid()
    }

    open spec fn squeezed(v: Sponge, len: nat) -> Sponge {
        advance::<KeccakP>(squeezing::<KeccakP>(v), len)
    }

    open spec fn output(v: Sponge, len: nat) -> Seq<u8> {
        stream::<KeccakP>(squeezing::<KeccakP>(v), len)
    }

    /// Pads if output has not begun, and fills `output` with the next bytes
    /// of output.
    fn squeeze(&mut self, output: &mut [u8])
        ensures
            final(self)@.squeezing,
            final(self)@.rate == old(self)@.rate,
            final(self)@.delim == old(self)@.delim,
    {
        self.state.squeeze(output);
    }
}

/// The sponge of the final node that holds the given chaining values: it
/// has absorbed the node and is not padded yet. Whoever computed the
/// chaining values, in whatever order, the node holds them as `cvs` gives
/// them.
pub fn final_node_xof(input: &[u8], cvs: &[u8]) -> (r: KangarooTwelveXof)
    requires
        input@.len() > 8192,
    ensures
        r.xof_wf(),
        !r@.squeezing,
        r@.rate == 168,
        r@.delim == 0x06,
        r@ == absorb::<KeccakP>(Sponge::init(168, 0x06), final_node_with(input@, cvs@)),
{
    let count: usize = (input.len() - 1) / 8192;
    let ghost start = Sponge::init(168, 0x06);
    let ghost first = chunk(input@, 0);
    let ghost marker_bytes = seq![3u8, 0u8, 0u8, 0u8, 0u8, 0u8, 0u8, 0u8];
    let ghost encoded_bytes = length_encoding(count as nat);
    let ghost trailer_bytes = seq![0xffu8, 0xffu8];

    let mut state: KeccakState<KeccakP> = KeccakState::new(168, 0x06);
    state.update(slice_subrange(input, 0, 8192));
    let marker: [u8; 8] = [3, 0, 0, 0, 0, 0, 0, 0];
    assert(marker@ =~= marker_bytes);
    state.update(marker.as_slice());
    state.update(cvs);
    let encoded = length_encode(count);
    state.update(encoded.value());
    let trailer: [u8; 2] = [0xff, 0xff];
    assert(trailer@ =~= trailer_bytes);
    state.update(trailer.as_slice());
    proof {
        lemma_absorb_concat::<KeccakP>(start, first, marker_bytes);
        lemma_absorb_concat::<KeccakP>(start, first + marker_bytes, cvs@);
        lemma_absorb_concat::<KeccakP>(start, first + marker_bytes + cvs@, encoded_bytes);
        lemma_absorb_concat::<KeccakP>(
            start,
            first + marker_bytes + cvs@ + encoded_bytes,
            trailer_bytes,
        );
    }
    KangarooTwelveXof { state }
}

/// The sponge that has absorbed the input, whole or as its final node, and
/// is not padded yet.
pub fn xof_of_input(input: &[u8]) -> (r: KangarooTwelveXof)
    ensures
        r.xof_wf(),
        !r@.squeezing,
        r@.rate == 168,
        r@ == k12_sponge(input@),
{
    if input.len() <= 8192 {
        let mut state: KeccakState<KeccakP> = KeccakState::new(168, 0x07);
        state.update(input);
        KangarooTwelveXof { state }
    } else {
        let cvs: Vec<u8> = chaining_values_of(input);
        final_node_xof(input, cvs.as_slice())
    }
}

/// The `KangarooTwelve` hash function with a customization string.
pub struct KangarooTwelve {
    input: Vec<u8>,
    custom_string: Vec<u8>,
}

impl View for KangarooTwelve {
    type V = Collected;

    closed spec fn view(&self) -> Collected {
        Collected { message: self.input@, custom_string: self.custom_string@ }
    }
}

impl Clone for KangarooTwelve {
    /// A fork: it continues as the hasher it was cloned from does.
    fn clone(&self) -> (r: Self)
        ensures
            r@ == self@,
    {
        let input: Vec<u8> = self.input.clone();
        let custom_string: Vec<u8> = self.custom_string.clone();
        assert(input@ =~= self.input@);
        assert(custom_string@ =~= self.custom_string@);
        KangarooTwelve { input, custom_string }
    }
}

impl KangarooTwelve {
    /// Creates a new [`KangarooTwelve`] hasher with the given customization
    /// string and no input yet.
    pub fn new(custom_string: &[u8]) -> (r: KangarooTwelve)
        ensures
            r@ == (Collected { message: Seq::empty(), custom_string: custom_string@ }),
    {
        let mut custom: Vec<u8> = Vec::new();
        custom.extend_from_slice(custom_string);
        assert(custom@ =~= custom_string@);
        KangarooTwelve { input: Vec::new(), custom_string: custom }
    }

    /// The bytes that are hashed: the message collected so far, the
    /// customization string and the encoded length of that string.
    pub fn into_input(self) -> (r: Vec<u8>)
        ensures
            r@ == k12_input(self@.message, self@.custom_string),
    {
        let mut input: Vec<u8> = self.input;
        let custom: Vec<u8> = self.custom_string;
        let encoded = length_encode(custom.len());
        let ghost message = input@;
        input.extend_from_slice(custom.as_slice());
        assert(input@ =~= message + custom@);
        input.extend_from_slice(encoded.value());
        assert(input@ =~= message + custom@ + encoded@);
        input
    }
}

impl Hasher for KangarooTwelve {
    open spec fn wf(&self) -> bool {
        true
    }

    open spec fn accepts(v: Collected) -> bool {
        true
    }

    open spec fn absorbed(v: Collected, input: Seq<u8>) -> Collected {
        Collected { message: v.message + input, ..v }
    }

    /// Output of any length.
    open spec fn output_len(v: Collected, len: nat) -> bool {
        true
    }

    open spec fn digest(v: Collected, len: nat) -> Seq<u8> {
        k12(v.message, v.custom_string, len)
    }

    /// Collects additional input. Can be called multiple times.
    fn update(&mut self, input: &[u8]) {
        let ghost before = self.input@;
        self.input.extend_from_slice(input);
        assert(self.input@ =~= before + input@);
    }

    /// Hashes what was collected and fills `output` with the first bytes of
    /// output. Consumes the hasher.
    fn finalize(self, output: &mut [u8]) {
        let mut xof = self.into_xof();
        xof.squeeze(output);
    }
}

impl IntoXof for KangarooTwelve {
    type Xof = KangarooTwelveXof;

    open spec fn convertible(&self) -> bool {
        true
    }

    open spec fn xof_model(v: Collected) -> Sponge {
        k12_sponge(k12_input(v.message, v.custom_string))
    }

    /// Hashes what was collected and gives the output stream.
    fn into_xof(self) -> (r: KangarooTwelveXof)
        ensures
            !r@.squeezing,
            r@.rate == 168,
    {
        let input: Vec<u8> = self.into_input();
        xof_of_input(input.as_slice())
    }
}

} // verus!
