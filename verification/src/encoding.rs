//! Length encodings: an integer as its big-endian bytes, with the number of
//! those bytes in front (left) or behind (right).

use vstd::prelude::*;
use vstd::slice::slice_subrange;

verus! {

/// The bytes of `n` in base 256, most significant first, without leading
/// zeros: none for 0.
pub open spec fn be_bytes(n: nat) -> Seq<u8>
    decreases n,
{
    if n == 0 {
        Seq::empty()
    } else {
        be_bytes(n / 256).push((n % 256) as u8)
    }
}

/// The bytes of `n` as `be_bytes` gives them, but one zero byte for 0.
pub open spec fn be_bytes_nonempty(n: nat) -> Seq<u8> {
    if n == 0 {
        seq![0u8]
    } else {
        be_bytes(n)
    }
}

/// The number of bytes, then the bytes; 0 has one byte.
pub open spec fn left_encoding(n: nat) -> Seq<u8> {
    seq![be_bytes_nonempty(n).len() as u8] + be_bytes_nonempty(n)
}

/// The bytes, then the number of bytes; 0 has one byte.
pub open spec fn right_encoding(n: nat) -> Seq<u8> {
    be_bytes_nonempty(n) + seq![be_bytes_nonempty(n).len() as u8]
}

/// The bytes, then the number of bytes; 0 has no byte, and is encoded as
/// the single byte 0.
pub open spec fn length_encoding(n: nat) -> Seq<u8> {
    be_bytes(n) + seq![be_bytes(n).len() as u8]
}

/// `256^k` for `k` up to 8.
pub open spec fn scale(k: int) -> int {
    if k <= 0 {
        1
    } else if k == 1 {
        0x100
    } else if k == 2 {
        0x1_0000
    } else if k == 3 {
        0x100_0000
    } else if k == 4 {
        0x1_0000_0000
    } else if k == 5 {
        0x100_0000_0000
    } else if k == 6 {
        0x1_0000_0000_0000
    } else if k == 7 {
        0x100_0000_0000_0000
    } else {
        0x1_0000_0000_0000_0000
    }
}

/// An encoded length: a buffer of nine bytes, of which those from `offset`
/// on are the encoding.
pub struct EncodedLen {
    offset: usize,
    buffer: [u8; 9],
}

impl View for EncodedLen {
    type V = Seq<u8>;

    closed spec fn view(&self) -> Seq<u8> {
        self.buffer@.subrange(self.offset as int, 9)
    }
}

impl EncodedLen {
    /// The encoding starts inside the buffer.
    pub closed spec fn wf(&self) -> bool {
        self.offset <= 9
    }

    /// The bytes of the encoding.
    pub fn value(&self) -> (r: &[u8])
        requires
            self.wf(),
        ensures
            r@ == self@,
    {
        slice_subrange(self.buffer.as_slice(), self.offset, 9)
    }
}

/// Writes the bytes of `value` so that they end before index `end`, and
/// returns the index of the first.
fn write_be_bytes(buffer: &mut [u8; 9], end: usize, value: u64) -> (start: usize)
    requires
        8 <= end <= 9,
    ensures
        end - 8 <= start <= end,
        final(buffer)@.subrange(start as int, end as int) == be_bytes(value as nat),
        forall|j: int| 0 <= j < 9 && !(start <= j < end) ==> final(buffer)@[j] == old(buffer)@[j],
{
    let mut i: usize = end;
    let mut v: u64 = value;
    while v > 0
        invariant
            8 <= end <= 9,
            end - 8 <= i <= end,
            v * scale(end - i) <= value,
            be_bytes(value as nat) == be_bytes(v as nat) + buffer@.subrange(i as int, end as int),
            forall|j: int| 0 <= j < 9 && !(i <= j < end) ==> buffer@[j] == old(buffer)@[j],
        decreases v,
    {
        let ghost k = end - i;
        assert(k < 8) by {
            if k == 8 {
                assert(v * scale(8) >= scale(8)) by (nonlinear_arith)
                    requires
                        v >= 1,
                        scale(8) >= 0,
                ;
            }
        }
        assert((v / 256) * scale(k + 1) <= v * scale(k)) by {
            assert(scale(k + 1) == 256 * scale(k));
            assert((v / 256) * (256 * scale(k)) <= v * scale(k)) by (nonlinear_arith)
                requires
                    v >= 0,
                    scale(k) >= 0,
            ;
        }
        let ghost tail = buffer@.subrange(i as int, end as int);
        i -= 1;
        buffer[i] = (v % 256) as u8;
        proof {
            assert(be_bytes(v as nat) == be_bytes((v / 256) as nat).push((v % 256) as u8));
            assert(buffer@.subrange(i as int, end as int) =~= seq![(v % 256) as u8] + tail);
            assert(be_bytes((v / 256) as nat).push((v % 256) as u8) + tail =~= be_bytes(
                (v / 256) as nat,
            ) + (seq![(v % 256) as u8] + tail));
        }
        v = v / 256;
    }
    proof {
        assert(be_bytes(0) + buffer@.subrange(i as int, end as int) =~= buffer@.subrange(
            i as int,
            end as int,
        ));
    }
    i
}

/// Encodes `len` with the number of its bytes in front.
pub fn left_encode(len: usize) -> (r: EncodedLen)
    ensures
        r.wf(),
        r@ == left_encoding(len as nat),
{
    let mut buffer: [u8; 9] = [0u8; 9];
    let mut start: usize = write_be_bytes(&mut buffer, 9, len as u64);
    if start == 9 {
        start = 8;
    }
    assert(buffer@.subrange(start as int, 9) =~= be_bytes_nonempty(len as nat));
    let ghost digits = buffer@.subrange(start as int, 9);
    buffer[start - 1] = (9 - start) as u8;
    assert(buffer@.subrange(start - 1, 9) =~= seq![(9 - start) as u8] + digits);
    EncodedLen { offset: start - 1, buffer }
}

/// Encodes `len` with the number of its bytes behind.
pub fn right_encode(len: usize) -> (r: EncodedLen)
    ensures
        r.wf(),
        r@ == right_encoding(len as nat),
{
    let mut buffer: [u8; 9] = [0u8; 9];
    let mut start: usize = write_be_bytes(&mut buffer, 8, len as u64);
    if start == 8 {
        start = 7;
    }
    assert(buffer@.subrange(start as int, 8) =~= be_bytes_nonempty(len as nat));
    let ghost digits = buffer@.subrange(start as int, 8);
    buffer[8] = (8 - start) as u8;
    assert(buffer@.subrange(start as int, 9) =~= digits + seq![(8 - start) as u8]);
    EncodedLen { offset: start, buffer }
}

/// Encodes `len` with the number of its bytes behind, and 0 as the single
/// byte 0.
pub fn length_encode(len: usize) -> (r: EncodedLen)
    ensures
        r.wf(),
        r@ == length_encoding(len as nat),
{
    let mut buffer: [u8; 9] = [0u8; 9];
    let start: usize = write_be_bytes(&mut buffer, 8, len as u64);
    let ghost digits = buffer@.subrange(start as int, 8);
    buffer[8] = (8 - start) as u8;
    assert(buffer@.subrange(start as int, 9) =~= digits + seq![(8 - start) as u8]);
    EncodedLen { offset: start, buffer }
}

} // verus!
