//! Conversion between Modbus holding registers (`u16` words) and bytes, in
//! the word and byte orders that the gateway uses on little-endian hosts.
//!
//! Numeric registers hold the most significant word first; the bytes that
//! come out of [`decode_numeric_bytes`] are the little-endian bytes of that
//! integer. String registers hold two characters each, the first one in the
//! high byte.

pub mod big_endian;

use vstd::prelude::*;

verus! {

/// The low byte of a register.
pub open spec fn low_byte(word: u16) -> u8 {
    (word % 256) as u8
}

/// The high byte of a register.
pub open spec fn high_byte(word: u16) -> u8 {
    (word / 256) as u8
}

/// A register built from its low and high byte.
pub open spec fn word_of(low: u8, high: u8) -> u16 {
    (low + 256 * high) as u16
}

/// True when every register holds `0xFFFF`, the value devices report for a
/// register that has no reading.
pub open spec fn all_unset(data: Seq<u16>) -> bool {
    forall|i: int| 0 <= i < data.len() ==> data[i] == 0xFFFFu16
}

/// Registers laid out as little-endian bytes: the last register first, each
/// register low byte first.
pub open spec fn reversed_le_bytes(data: Seq<u16>) -> Seq<u8> {
    Seq::new(
        2 * data.len(),
        |i: int|
            if i % 2 == 0 {
                low_byte(data[data.len() - 1 - i / 2])
            } else {
                high_byte(data[data.len() - 1 - i / 2])
            },
    )
}

/// Registers laid out in order, each register high byte first.
pub open spec fn in_order_be_bytes(data: Seq<u16>) -> Seq<u8> {
    Seq::new(
        2 * data.len(),
        |i: int| if i % 2 == 0 { high_byte(data[i / 2]) } else { low_byte(data[i / 2]) },
    )
}

/// Registers laid out in order, each register low byte first.
pub open spec fn in_order_le_bytes(data: Seq<u16>) -> Seq<u8> {
    Seq::new(
        2 * data.len(),
        |i: int| if i % 2 == 0 { low_byte(data[i / 2]) } else { high_byte(data[i / 2]) },
    )
}

/// The bytes of a numeric register value: all zero when no register holds a
/// reading, the little-endian bytes of the value otherwise.
pub open spec fn numeric_bytes(data: Seq<u16>) -> Seq<u8> {
    if all_unset(data) {
        Seq::new(2 * data.len(), |i: int| 0u8)
    } else {
        reversed_le_bytes(data)
    }
}

/// The byte at position `i` of a sequence, or zero past its end.
pub open spec fn byte_or_zero(bytes: Seq<u8>, i: int) -> u8 {
    if 0 <= i < bytes.len() {
        bytes[i]
    } else {
        0u8
    }
}

/// Number of registers needed for `n` bytes: one per two bytes, rounded up.
pub open spec fn word_count(n: nat) -> nat {
    (n + 1) / 2
}

/// Bytes to registers for writing numeric values: the bytes are reversed and
/// taken two at a time, the first of each pair as the low byte; a missing
/// last byte counts as zero.
pub open spec fn numeric_words(bytes: Seq<u8>) -> Seq<u16> {
    Seq::new(
        word_count(bytes.len()),
        |j: int|
            word_of(
                byte_or_zero(bytes, bytes.len() - 1 - 2 * j),
                byte_or_zero(bytes, bytes.len() - 2 - 2 * j),
            ),
    )
}

/// Bytes to registers for writing text: the bytes are taken two at a time
/// in order, the first of each pair as the high byte; a missing last byte
/// counts as zero.
pub open spec fn string_words(bytes: Seq<u8>) -> Seq<u16> {
    Seq::new(
        word_count(bytes.len()),
        |j: int| word_of(byte_or_zero(bytes, 2 * j + 1), byte_or_zero(bytes, 2 * j)),
    )
}

proof fn lemma_word_bytes(word: u16)
    ensures
        word_of(low_byte(word), high_byte(word)) == word,
        low_byte(word) as int + 256 * high_byte(word) as int == word as int,
{
}

proof fn lemma_bytes_word(low: u8, high: u8)
    ensures
        low_byte(word_of(low, high)) == low,
        high_byte(word_of(low, high)) == high,
{
}

/// Registers of a numeric value as bytes (see [`numeric_bytes`]): a value
/// whose registers are all `0xFFFF` reads as zero.
pub fn decode_numeric_bytes(data: &[u16]) -> (bytes: Vec<u8>)
    requires
        2 * data@.len() <= usize::MAX,
    ensures
        bytes@ == numeric_bytes(data@),
{
    let n = data.len();
    let mut unset = true;
    let mut k: usize = 0;
    while k < n
        invariant
            n == data@.len(),
            k <= n,
            unset <==> (forall|i: int| 0 <= i < k ==> data@[i] == 0xFFFFu16),
        decreases n - k,
    {
        if data[k] != 0xFFFF {
            unset = false;
        }
        k = k + 1;
    }
    let mut bytes: Vec<u8> = Vec::new();
    if unset {
        let mut j: usize = 0;
        while j < n
            invariant
                n == data@.len(),
                2 * n <= usize::MAX,
                j <= n,
                bytes@ == Seq::new(2 * j as nat, |i: int| 0u8),
            decreases n - j,
        {
            bytes.push(0u8);
            bytes.push(0u8);
            j = j + 1;
            assert(bytes@ =~= Seq::new(2 * j as nat, |i: int| 0u8));
        }
        return bytes;
    }
    let mut j: usize = 0;
    while j < n
        invariant
            n == data@.len(),
            2 * n <= usize::MAX,
            j <= n,
            bytes@ =~= reversed_le_bytes(data@).take(2 * j as int),
        decreases n - j,
    {
        let word = data[n - 1 - j];
        bytes.push((word % 256) as u8);
        bytes.push((word / 256) as u8);
        j = j + 1;
        assert(bytes@ =~= reversed_le_bytes(data@).take(2 * j as int));
    }
    assert(reversed_le_bytes(data@).take(2 * n as int) =~= reversed_le_bytes(data@));
    bytes
}

/// Registers as bytes for numeric parsing, without the rule for unset
/// registers: the last register first, each register low byte first.
pub fn parse_numeric_bytes(data: &[u16]) -> (bytes: Vec<u8>)
    requires
        2 * data@.len() <= usize::MAX,
    ensures
        bytes@ == reversed_le_bytes(data@),
{
    let n = data.len();
    let mut bytes: Vec<u8> = Vec::new();
    let mut j: usize = 0;
    while j < n
        invariant
            n == data@.len(),
            2 * n <= usize::MAX,
            j <= n,
            bytes@ =~= reversed_le_bytes(data@).take(2 * j as int),
        decreases n - j,
    {
        let word = data[n - 1 - j];
        bytes.push((word % 256) as u8);
        bytes.push((word / 256) as u8);
        j = j + 1;
        assert(bytes@ =~= reversed_le_bytes(data@).take(2 * j as int));
    }
    assert(reversed_le_bytes(data@).take(2 * n as int) =~= reversed_le_bytes(data@));
    bytes
}

/// Registers of a text value as bytes: in order, each register high byte
/// first.
pub fn decode_string_bytes(data: &[u16]) -> (bytes: Vec<u8>)
    requires
        2 * data@.len() <= usize::MAX,
    ensures
        bytes@ == in_order_be_bytes(data@),
{
    let n = data.len();
    let mut bytes: Vec<u8> = Vec::new();
    let mut j: usize = 0;
    while j < n
        invariant
            n == data@.len(),
            2 * n <= usize::MAX,
            j <= n,
            bytes@ =~= in_order_be_bytes(data@).take(2 * j as int),
        decreases n - j,
    {
        let word = data[j];
        bytes.push((word / 256) as u8);
        bytes.push((word % 256) as u8);
        j = j + 1;
        assert(bytes@ =~= in_order_be_bytes(data@).take(2 * j as int));
    }
    assert(in_order_be_bytes(data@).take(2 * n as int) =~= in_order_be_bytes(data@));
    bytes
}

/// Registers as bytes for text parsing: the same layout as
/// [`decode_string_bytes`].
pub fn parse_string_bytes(data: &[u16]) -> (bytes: Vec<u8>)
    requires
        2 * data@.len() <= usize::MAX,
    ensures
        bytes@ == in_order_be_bytes(data@),
{
    decode_string_bytes(data)
}

/// The byte at position `i`, or zero past the end.
fn byte_at(bytes: &[u8], i: usize) -> (b: u8)
    ensures
        b == byte_or_zero(bytes@, i as int),
{
    if i < bytes.len() {
        bytes[i]
    } else {
        0
    }
}

/// Bytes of a numeric value as registers to write (see [`numeric_words`]).
pub fn encode_numeric_bytes(bytes: &[u8]) -> (words: Vec<u16>)
    ensures
        words@ == numeric_words(bytes@),
{
    let n = bytes.len();
    let count = n / 2 + n % 2;
    let mut words: Vec<u16> = Vec::new();
    let mut j: usize = 0;
    while j < count
        invariant
            n == bytes@.len(),
            count == word_count(n as nat),
            j <= count,
            words@ =~= numeric_words(bytes@).take(j as int),
        decreases count - j,
    {
        // the reversed sequence holds byte `n - 1 - i` at position `i`
        let first = if 2 * j + 1 <= n { byte_at(bytes, n - 1 - 2 * j) } else { 0 };
        let second = if 2 * j + 1 < n { byte_at(bytes, n - 2 - 2 * j) } else { 0 };
        let word = (first as u16) + 256 * (second as u16);
        words.push(word);
        j = j + 1;
        assert(words@ =~= numeric_words(bytes@).take(j as int));
    }
    assert(numeric_words(bytes@).take(count as int) =~= numeric_words(bytes@));
    words
}

/// Bytes of a text value as registers to write (see [`string_words`]).
pub fn encode_string_bytes(bytes: &[u8]) -> (words: Vec<u16>)
    ensures
        words@ == string_words(bytes@),
{
    let n = bytes.len();
    let count = n / 2 + n % 2;
    let mut words: Vec<u16> = Vec::new();
    let mut j: usize = 0;
    while j < count
        invariant
            n == bytes@.len(),
            count == word_count(n as nat),
            j <= count,
            words@ =~= string_words(bytes@).take(j as int),
        decreases count - j,
    {
        let first = byte_at(bytes, 2 * j);
        let second = if 2 * j + 1 < n { byte_at(bytes, 2 * j + 1) } else { 0 };
        let word = (second as u16) + 256 * (first as u16);
        words.push(word);
        j = j + 1;
        assert(words@ =~= string_words(bytes@).take(j as int));
    }
    assert(string_words(bytes@).take(count as int) =~= string_words(bytes@));
    words
}

/// Little-endian value of a byte sequence: the first byte is the least
/// significant.
pub open spec fn le_value(bytes: Seq<u8>) -> nat
    decreases bytes.len(),
{
    if bytes.len() == 0 {
        0
    } else {
        bytes[0] as nat + 256 * le_value(bytes.drop_first())
    }
}

/// Value of registers read most significant word first.
pub open spec fn be_word_value(data: Seq<u16>) -> nat
    decreases data.len(),
{
    if data.len() == 0 {
        0
    } else {
        65536 * be_word_value(data.drop_last()) + data.last() as nat
    }
}

proof fn lemma_reversed_le_bytes_push(data: Seq<u16>)
    requires
        data.len() > 0,
    ensures
        reversed_le_bytes(data) =~= seq![low_byte(data.last()), high_byte(data.last())]
            + reversed_le_bytes(data.drop_last()),
{
}

/// Law: the bytes of a numeric reading are the little-endian bytes of the
/// registers read most significant word first, and zero when every register
/// is unset.
pub proof fn law_numeric_bytes_value(data: Seq<u16>)
    ensures
        !all_unset(data) ==> le_value(numeric_bytes(data)) == be_word_value(data),
        all_unset(data) ==> le_value(numeric_bytes(data)) == 0,
        numeric_bytes(data).len() == 2 * data.len(),
    decreases data.len(),
{
    if all_unset(data) {
        lemma_le_value_zeros(2 * data.len());
    } else {
        lemma_reversed_le_value(data);
    }
}

proof fn lemma_le_value_zeros(n: nat)
    ensures
        le_value(Seq::new(n, |i: int| 0u8)) == 0,
    decreases n,
{
    if n > 0 {
        assert(Seq::new(n, |i: int| 0u8).drop_first() =~= Seq::new((n - 1) as nat, |i: int| 0u8));
        lemma_le_value_zeros((n - 1) as nat);
    }
}

proof fn lemma_reversed_le_value(data: Seq<u16>)
    ensures
        le_value(reversed_le_bytes(data)) == be_word_value(data),
    decreases data.len(),
{
    if data.len() > 0 {
        let w = data.last();
        let rest = reversed_le_bytes(data.drop_last());
        lemma_reversed_le_bytes_push(data);
        let all = seq![low_byte(w), high_byte(w)] + rest;
        assert(all.drop_first() =~= seq![high_byte(w)] + rest);
        assert((seq![high_byte(w)] + rest).drop_first() =~= rest);
        lemma_reversed_le_value(data.drop_last());
        lemma_word_bytes(w);
        assert(le_value(seq![high_byte(w)] + rest) == high_byte(w) as nat + 256 * le_value(rest));
        assert(le_value(all) == low_byte(w) as nat + 256 * le_value(seq![high_byte(w)] + rest));
        assert(le_value(all) == low_byte(w) as nat + 256 * (high_byte(w) as nat + 256 * le_value(rest)));
        assert(le_value(all) == low_byte(w) as nat + 256 * high_byte(w) as nat + 65536 * le_value(rest)) by (nonlinear_arith)
            requires
                le_value(all) == low_byte(w) as nat + 256 * (high_byte(w) as nat + 256 * le_value(rest)),
        ;
    }
}

/// Law: writing the bytes of text registers back as registers gives the
/// same registers.
pub proof fn law_string_registers_roundtrip(data: Seq<u16>)
    ensures
        string_words(in_order_be_bytes(data)) == data,
{
    let bytes = in_order_be_bytes(data);
    assert forall|j: int| 0 <= j < data.len() implies #[trigger] string_words(bytes)[j] == data[j] by {
        lemma_word_bytes(data[j]);
    }
    assert(string_words(bytes) =~= data);
}

/// Law: text written as registers reads back as the same bytes, with one
/// zero byte of padding when the text has an odd number of bytes.
pub proof fn law_string_bytes_roundtrip(bytes: Seq<u8>)
    ensures
        bytes.len() % 2 == 0 ==> in_order_be_bytes(string_words(bytes)) == bytes,
        bytes.len() % 2 == 1 ==> in_order_be_bytes(string_words(bytes)) == bytes.push(0u8),
{
    let words = string_words(bytes);
    let back = in_order_be_bytes(words);
    assert forall|i: int| 0 <= i < back.len() implies #[trigger] back[i] == byte_or_zero(bytes, i) by {
        lemma_bytes_word(byte_or_zero(bytes, 2 * (i / 2) + 1), byte_or_zero(bytes, 2 * (i / 2)));
    }
    if bytes.len() % 2 == 0 {
        assert(back =~= bytes);
    } else {
        assert(back =~= bytes.push(0u8));
    }
}

} // verus!
