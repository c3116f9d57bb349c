use vstd::prelude::*;

verus! {

/// Most significant nibble of an instruction word: the operation selector.
pub open spec fn op_field(word: u16) -> u8 {
    (word / 4096) as u8
}

/// Second nibble of an instruction word (first operand).
pub open spec fn a_field(word: u16) -> u8 {
    ((word / 256) % 16) as u8
}

/// Third nibble of an instruction word (second operand).
pub open spec fn b_field(word: u16) -> u8 {
    ((word / 16) % 16) as u8
}

/// Least significant nibble of an instruction word (third operand).
pub open spec fn c_field(word: u16) -> u8 {
    (word % 16) as u8
}

/// The four nibbles of `word`, most significant first.
pub open spec fn nibbles_of(word: u16) -> Seq<u8> {
    seq![op_field(word), a_field(word), b_field(word), c_field(word)]
}

/// Puts four nibbles back together into a 16-bit word.
pub open spec fn assemble(n: Seq<u8>) -> int {
    n[0] * 4096 + n[1] * 256 + n[2] * 16 + n[3]
}

/// The 16-bit word whose high byte is `hi` and low byte is `lo`.
pub open spec fn word_of_bytes(hi: u8, lo: u8) -> u16 {
    (hi * 256 + lo) as u16
}

/// High byte of a word.
pub fn high_byte(word: u16) -> (r: u8)
    ensures
        r == word / 256,
{
    assert((word >> 8) as u8 == word / 256) by (bit_vector);
    (word >> 8) as u8
}

/// Low byte of a word.
pub fn low_byte(word: u16) -> (r: u8)
    ensures
        r == word % 256,
{
    assert(word as u8 == word % 256) by (bit_vector);
    word as u8
}

/// The word made of a high byte and a low byte.
pub fn join_bytes(hi: u8, lo: u8) -> (r: u16)
    ensures
        r == word_of_bytes(hi, lo),
        r == hi * 256 + lo,
{
    assert(((hi as u16) << 8) | (lo as u16) == hi * 256 + lo) by (bit_vector);
    ((hi as u16) << 8) | (lo as u16)
}

/// The fields of the word made of bytes `hi` and `lo` are the nibbles of those bytes.
pub proof fn lemma_fields_of_bytes(hi: u8, lo: u8)
    ensures
        op_field(word_of_bytes(hi, lo)) == hi / 16,
        a_field(word_of_bytes(hi, lo)) == hi % 16,
        b_field(word_of_bytes(hi, lo)) == lo / 16,
        c_field(word_of_bytes(hi, lo)) == lo % 16,
{
    let w = hi * 256 + lo;
    assert(w / 256 == hi && w % 256 == lo) by (nonlinear_arith)
        requires w == hi * 256 + lo, 0 <= lo < 256, 0 <= hi;
    lemma_nibbles_of_bytes(word_of_bytes(hi, lo));
}

/// The nibbles of a word are those of its high byte followed by those of its low byte.
pub proof fn lemma_nibbles_of_bytes(word: u16)
    ensures
        op_field(word) == (word / 256) / 16,
        a_field(word) == (word / 256) % 16,
        b_field(word) == (word % 256) / 16,
        c_field(word) == (word % 256) % 16,
{
    let w = word as int;
    assert(w / 4096 == (w / 256) / 16) by (nonlinear_arith)
        requires 0 <= w;
    assert((w / 16) % 16 == (w % 256) / 16) by (nonlinear_arith)
        requires 0 <= w;
    assert(w % 16 == (w % 256) % 16) by (nonlinear_arith)
        requires 0 <= w;
}

/// Decoding a word into its four nibbles and reassembling them gives the word back,
/// and each field is a 4-bit value.
pub proof fn lemma_decode_round_trip(word: u16)
    ensures
        assemble(nibbles_of(word)) == word,
        forall|i: int| 0 <= i < 4 ==> #[trigger] nibbles_of(word)[i] < 16,
{
    let w = word as int;
    assert(w / 4096 < 16);
    assert((w / 4096) * 4096 + ((w / 256) % 16) * 256 + ((w / 16) % 16) * 16 + w % 16 == w)
        by (nonlinear_arith)
        requires 0 <= w < 65536;
}

} // verus!
