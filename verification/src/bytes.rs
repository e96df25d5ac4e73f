//! Words and bytes: how 32-bit elements lie in memory.
use vstd::prelude::*;

verus! {

/// The byte of a word at place `k`, counted from the least significant one.
pub open spec fn word_byte(word: u32, k: int) -> u8 {
    if k == 0 {
        (word as int % 256) as u8
    } else if k == 1 {
        (word as int / 0x100 % 256) as u8
    } else if k == 2 {
        (word as int / 0x1_0000 % 256) as u8
    } else {
        (word as int / 0x100_0000 % 256) as u8
    }
}

/// The bytes of the words in order, each word with its least significant byte first.
pub open spec fn little_endian(words: Seq<u32>) -> Seq<u8> {
    Seq::new(4 * words.len(), |i: int| word_byte(words[i / 4], i % 4))
}

/// The bytes of the words in order, each word with its most significant byte first.
pub open spec fn big_endian(words: Seq<u32>) -> Seq<u8> {
    Seq::new(4 * words.len(), |i: int| word_byte(words[i / 4], 3 - i % 4))
}

/// Whether `bytes` are the words as the machine holds them in memory, whichever byte
/// order the machine has.
pub open spec fn in_memory(words: Seq<u32>, bytes: Seq<u8>) -> bool {
    bytes == little_endian(words) || bytes == big_endian(words)
}

/// A word is the sum of its four bytes, each at its place.
pub proof fn lemma_word_of_bytes(word: u32)
    ensures
        word == word_byte(word, 0) + 0x100 * word_byte(word, 1) + 0x1_0000 * word_byte(word, 2)
            + 0x100_0000 * word_byte(word, 3),
{
}

/// Words that were written come back unchanged: in either byte order, the bytes of a
/// list of words are the bytes of no other list.
pub proof fn lemma_words_round_trip(written: Seq<u32>, read: Seq<u32>, bytes: Seq<u8>)
    requires
        (bytes == little_endian(written) && bytes == little_endian(read)) || (bytes
            == big_endian(written) && bytes == big_endian(read)),
    ensures
        read == written,
{
    assert(4 * written.len() == bytes.len() && 4 * read.len() == bytes.len());
    assert(read.len() == written.len());
    assert forall|i: int| 0 <= i < written.len() implies read[i] == written[i] by {
        lemma_word_of_bytes(read[i]);
        lemma_word_of_bytes(written[i]);
        assert forall|k: int| 0 <= k < 4 implies word_byte(read[i], k) == word_byte(
            written[i],
            k,
        ) by {
            if bytes == little_endian(written) && bytes == little_endian(read) {
                assert((4 * i + k) / 4 == i && (4 * i + k) % 4 == k);
                assert(little_endian(written)[4 * i + k] == word_byte(written[i], k));
                assert(little_endian(read)[4 * i + k] == word_byte(read[i], k));
            } else {
                assert((4 * i + 3 - k) / 4 == i && (4 * i + 3 - k) % 4 == 3 - k);
                assert(big_endian(written)[4 * i + 3 - k] == word_byte(written[i], k));
                assert(big_endian(read)[4 * i + 3 - k] == word_byte(read[i], k));
            }
        }
        assert(word_byte(read[i], 0) == word_byte(written[i], 0));
        assert(word_byte(read[i], 1) == word_byte(written[i], 1));
        assert(word_byte(read[i], 2) == word_byte(written[i], 2));
        assert(word_byte(read[i], 3) == word_byte(written[i], 3));
    }
    assert(read =~= written);
}

/// Why bytes could not be read as words.
#[derive(Clone, Copy, Debug, PartialEq, Eq, Hash, Structural)]
pub enum CastError {
    /// The bytes do not begin at an address where a word may begin.
    TargetAlignmentGreaterAndInputNotAligned,
    /// The number of bytes is no multiple of four.
    OutputSliceWouldHaveSlop,
    /// The sizes of source and destination do not agree.
    SizeMismatch,
    /// The alignments of source and destination do not agree.
    AlignmentMismatch,
}

/// The bytes of `words` as they lie in memory.
///
/// Calls `bytemuck::cast_slice` from `u32` to `u8` and copies what it hands back. The
/// cast reinterprets the memory of the words, so the contract claims four bytes for each
/// word, in the byte order of the machine. From `u32` to `u8` the cast cannot fail.
#[verifier::external_body]
fn cast_words(words: &[u32]) -> (r: Vec<u8>)
    ensures
        in_memory(words@, r@),
{
    bytemuck::cast_slice::<u32, u8>(words).to_vec()
}

/// The words that `bytes` hold in memory.
///
/// Calls `bytemuck::try_cast_slice` from `u8` to `u32` and copies what it hands back. The
/// contract claims what the function's source shows: on success the bytes are whole words
/// in the byte order of the machine; the only failures are a start address that is no
/// multiple of four, which may happen to any input, and a length that is no multiple of
/// four, reported only for such a length.
#[verifier::external_body]
fn try_cast_bytes(bytes: &[u8]) -> (r: Result<Vec<u32>, CastError>)
    ensures
        r matches Ok(words) ==> in_memory(words@, bytes@),
        r matches Err(e) ==> e is TargetAlignmentGreaterAndInputNotAligned || (e
            is OutputSliceWouldHaveSlop && bytes@.len() % 4 != 0),
{
    match bytemuck::try_cast_slice::<u8, u32>(bytes) {
        Ok(words) => Ok(words.to_vec()),
        Err(bytemuck::PodCastError::TargetAlignmentGreaterAndInputNotAligned) => Err(
            CastError::TargetAlignmentGreaterAndInputNotAligned,
        ),
        Err(bytemuck::PodCastError::OutputSliceWouldHaveSlop) => Err(
            CastError::OutputSliceWouldHaveSlop,
        ),
        Err(bytemuck::PodCastError::SizeMismatch) => Err(CastError::SizeMismatch),
        Err(bytemuck::PodCastError::AlignmentMismatch) => Err(CastError::AlignmentMismatch),
    }
}

/// The bytes of `words` as they lie in memory: four for each word, in the byte order of
/// the machine.
pub fn words_to_bytes(words: &[u32]) -> (r: Vec<u8>)
    ensures
        in_memory(words@, r@),
        r@.len() == 4 * words@.len(),
{
    cast_words(words)
}

/// Reads bytes as the words they hold in memory. A length that is no multiple of four is
/// rejected as `OutputSliceWouldHaveSlop`. Bytes of such a length are read as whole words
/// in the byte order of the machine, unless they begin at an address where no word may
/// begin: that is rejected as `TargetAlignmentGreaterAndInputNotAligned`.
pub fn bytes_to_words(bytes: &[u8]) -> (r: Result<Vec<u32>, CastError>)
    ensures
        bytes@.len() % 4 != 0 <==> r == Err::<Vec<u32>, CastError>(
            CastError::OutputSliceWouldHaveSlop,
        ),
        r matches Ok(words) ==> in_memory(words@, bytes@) && 4 * words@.len() == bytes@.len(),
        r matches Err(e) ==> e is OutputSliceWouldHaveSlop || e
            is TargetAlignmentGreaterAndInputNotAligned,
{
    if bytes.len() % 4 != 0 {
        return Err(CastError::OutputSliceWouldHaveSlop);
    }
    try_cast_bytes(bytes)
}

} // verus!
