//! 256-bit values: contract identifiers and the digests they are made from.

use vstd::prelude::*;

verus! {

/// The four 64-bit words of a 256-bit value, most significant first.
pub type Words = (u64, u64, u64, u64);

/// A 256-bit value, held as four 64-bit words in big-endian order.
#[derive(Clone, Copy, Debug, PartialEq, Eq, Hash, Default)]
pub struct H256 {
    pub words: Words,
}

/// The 64-bit word whose big-endian bytes are the eight bytes of `bytes` from `at` on.
pub open spec fn be_word(bytes: Seq<u8>, at: int) -> u64 {
    (bytes[at] as u64) << 56 | (bytes[at + 1] as u64) << 48 | (bytes[at + 2] as u64) << 40 | (
    bytes[at + 3] as u64) << 32 | (bytes[at + 4] as u64) << 24 | (bytes[at + 5] as u64) << 16 | (
    bytes[at + 6] as u64) << 8 | (bytes[at + 7] as u64)
}

/// The words of the 256-bit value whose big-endian bytes are `bytes`.
pub open spec fn words_of(bytes: Seq<u8>) -> Words {
    (be_word(bytes, 0), be_word(bytes, 8), be_word(bytes, 16), be_word(bytes, 24))
}

/// Byte `i` of the big-endian bytes of `w`, byte 0 the most significant.
pub open spec fn be_byte(w: u64, i: int) -> u8 {
    ((w >> ((56 - 8 * i) as u64)) & 0xff) as u8
}

/// The 32 big-endian bytes of the 256-bit value with the given words.
pub open spec fn bytes_of(words: Words) -> Seq<u8> {
    Seq::new(
        32,
        |i: int|
            if i < 8 {
                be_byte(words.0, i)
            } else if i < 16 {
                be_byte(words.1, i - 8)
            } else if i < 24 {
                be_byte(words.2, i - 16)
            } else {
                be_byte(words.3, i - 24)
            },
    )
}

/// The BLAKE2b digest of `data` with an output of 256 bits, as 32 bytes.
pub uninterp spec fn blake2_256_digest(data: Seq<u8>) -> Seq<u8>;

/// Calls `hash` of `sp_runtime::traits::BlakeTwo256`: the result is the
/// BLAKE2b-256 digest of `data`, a function of the bytes of `data` alone.
#[verifier::external_body]
pub(crate) fn blake2_256(data: &Vec<u8>) -> (digest: [u8; 32])
    ensures
        digest@ == blake2_256_digest(data@),
{
    <sp_runtime::traits::BlakeTwo256 as sp_runtime::traits::Hash>::hash(data.as_slice()).0
}

/// The word made of the eight bytes of a word is that word.
pub proof fn lemma_word_of_bytes(w: u64)
    ensures
        be_word(Seq::new(8, |i: int| be_byte(w, i)), 0) == w,
{
    let b = Seq::new(8, |i: int| be_byte(w, i));
    assert(b[0] == ((w >> 56u64) & 0xff) as u8);
    assert(b[1] == ((w >> 48u64) & 0xff) as u8);
    assert(b[2] == ((w >> 40u64) & 0xff) as u8);
    assert(b[3] == ((w >> 32u64) & 0xff) as u8);
    assert(b[4] == ((w >> 24u64) & 0xff) as u8);
    assert(b[5] == ((w >> 16u64) & 0xff) as u8);
    assert(b[6] == ((w >> 8u64) & 0xff) as u8);
    assert(b[7] == ((w >> 0u64) & 0xff) as u8);
    assert((((w >> 56u64) & 0xff) as u8 as u64) << 56 | (((w >> 48u64) & 0xff) as u8 as u64) << 48
        | (((w >> 40u64) & 0xff) as u8 as u64) << 40 | (((w >> 32u64) & 0xff) as u8 as u64) << 32
        | (((w >> 24u64) & 0xff) as u8 as u64) << 24 | (((w >> 16u64) & 0xff) as u8 as u64) << 16
        | (((w >> 8u64) & 0xff) as u8 as u64) << 8 | (((w >> 0u64) & 0xff) as u8 as u64) == w)
        by (bit_vector);
}

/// The value made of the 32 bytes of a value is that value.
pub proof fn lemma_words_of_bytes(words: Words)
    ensures
        bytes_of(words).len() == 32,
        words_of(bytes_of(words)) == words,
{
    let b = bytes_of(words);
    lemma_word_of_bytes(words.0);
    lemma_word_of_bytes(words.1);
    lemma_word_of_bytes(words.2);
    lemma_word_of_bytes(words.3);
    let b0 = Seq::new(8, |i: int| be_byte(words.0, i));
    let b1 = Seq::new(8, |i: int| be_byte(words.1, i));
    let b2 = Seq::new(8, |i: int| be_byte(words.2, i));
    let b3 = Seq::new(8, |i: int| be_byte(words.3, i));
    assert(forall|i: int| 0 <= i < 8 ==> b[i] == b0[i] && b[i + 8] == b1[i] && b[i + 16] == b2[i]
        && b[i + 24] == b3[i]);
    assert(be_word(b, 0) == be_word(b0, 0));
    assert(be_word(b, 8) == be_word(b1, 0));
    assert(be_word(b, 16) == be_word(b2, 0));
    assert(be_word(b, 24) == be_word(b3, 0));
}

/// The eight bytes of the word made of eight bytes are those bytes.
pub proof fn lemma_bytes_of_word(bytes: Seq<u8>, at: int)
    requires
        0 <= at,
        at + 8 <= bytes.len(),
    ensures
        forall|i: int| 0 <= i < 8 ==> be_byte(be_word(bytes, at), i) == #[trigger] bytes[at + i],
{
    let b0 = bytes[at];
    let b1 = bytes[at + 1];
    let b2 = bytes[at + 2];
    let b3 = bytes[at + 3];
    let b4 = bytes[at + 4];
    let b5 = bytes[at + 5];
    let b6 = bytes[at + 6];
    let b7 = bytes[at + 7];
    let w = be_word(bytes, at);
    assert(w == (b0 as u64) << 56 | (b1 as u64) << 48 | (b2 as u64) << 40 | (b3 as u64) << 32
        | (b4 as u64) << 24 | (b5 as u64) << 16 | (b6 as u64) << 8 | (b7 as u64) ==> {
        &&& ((w >> 56u64) & 0xff) as u8 == b0
        &&& ((w >> 48u64) & 0xff) as u8 == b1
        &&& ((w >> 40u64) & 0xff) as u8 == b2
        &&& ((w >> 32u64) & 0xff) as u8 == b3
        &&& ((w >> 24u64) & 0xff) as u8 == b4
        &&& ((w >> 16u64) & 0xff) as u8 == b5
        &&& ((w >> 8u64) & 0xff) as u8 == b6
        &&& ((w >> 0u64) & 0xff) as u8 == b7
    }) by (bit_vector);
    assert forall|i: int| 0 <= i < 8 implies be_byte(w, i) == #[trigger] bytes[at + i] by {
        assert(i == 0 || i == 1 || i == 2 || i == 3 || i == 4 || i == 5 || i == 6 || i == 7);
    }
}

/// The 32 bytes of the value made of 32 bytes are those bytes.
pub proof fn lemma_bytes_of_words(bytes: Seq<u8>)
    requires
        bytes.len() == 32,
    ensures
        bytes_of(words_of(bytes)) == bytes,
{
    lemma_bytes_of_word(bytes, 0);
    lemma_bytes_of_word(bytes, 8);
    lemma_bytes_of_word(bytes, 16);
    lemma_bytes_of_word(bytes, 24);
    let again = bytes_of(words_of(bytes));
    assert forall|i: int| 0 <= i < 32 implies again[i] == bytes[i] by {
        if i < 8 {
            assert(bytes[0 + i] == bytes[i]);
        } else if i < 16 {
            assert(bytes[8 + (i - 8)] == bytes[i]);
        } else if i < 24 {
            assert(bytes[16 + (i - 16)] == bytes[i]);
        } else {
            assert(bytes[24 + (i - 24)] == bytes[i]);
        }
    }
    assert(again =~= bytes);
}

fn byte_of(w: u64, i: u32) -> (b: u8)
    requires
        i < 8,
    ensures
        b == be_byte(w, i as int),
{
    let shift: u64 = (56 - 8 * i) as u64;
    ((w >> shift) & 0xff) as u8
}

fn word_at(bytes: &[u8; 32], at: usize) -> (w: u64)
    requires
        at + 8 <= 32,
    ensures
        w == be_word(bytes@, at as int),
{
    (bytes[at] as u64) << 56 | (bytes[at + 1] as u64) << 48 | (bytes[at + 2] as u64) << 40 | (
    bytes[at + 3] as u64) << 32 | (bytes[at + 4] as u64) << 24 | (bytes[at + 5] as u64) << 16 | (
    bytes[at + 6] as u64) << 8 | (bytes[at + 7] as u64)
}

impl H256 {
    /// The value whose bits are all zero.
    pub fn zero() -> (r: H256)
        ensures
            r.words == (0u64, 0u64, 0u64, 0u64),
    {
        H256 { words: (0, 0, 0, 0) }
    }

    /// The value whose least significant word is `v` and whose other words are zero.
    pub fn from_low_u64_be(v: u64) -> (r: H256)
        ensures
            r.words == (0u64, 0u64, 0u64, v),
    {
        H256 { words: (0, 0, 0, v) }
    }

    /// The 32 big-endian bytes of the value.
    pub fn to_bytes(&self) -> (bytes: [u8; 32])
        ensures
            bytes@ == bytes_of(self.words),
    {
        let (a, b, c, d) = self.words;
        let bytes: [u8; 32] = [
            byte_of(a, 0), byte_of(a, 1), byte_of(a, 2), byte_of(a, 3),
            byte_of(a, 4), byte_of(a, 5), byte_of(a, 6), byte_of(a, 7),
            byte_of(b, 0), byte_of(b, 1), byte_of(b, 2), byte_of(b, 3),
            byte_of(b, 4), byte_of(b, 5), byte_of(b, 6), byte_of(b, 7),
            byte_of(c, 0), byte_of(c, 1), byte_of(c, 2), byte_of(c, 3),
            byte_of(c, 4), byte_of(c, 5), byte_of(c, 6), byte_of(c, 7),
            byte_of(d, 0), byte_of(d, 1), byte_of(d, 2), byte_of(d, 3),
            byte_of(d, 4), byte_of(d, 5), byte_of(d, 6), byte_of(d, 7),
        ];
        assert(bytes@ =~= bytes_of(self.words));
        bytes
    }

    /// The value whose big-endian bytes are `bytes`.
    pub fn from_bytes(bytes: &[u8; 32]) -> (r: H256)
        ensures
            r.words == words_of(bytes@),
    {
        H256 {
            words: (word_at(bytes, 0), word_at(bytes, 8), word_at(bytes, 16), word_at(bytes, 24)),
        }
    }
}

} // verus!
