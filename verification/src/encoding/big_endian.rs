//! The same conversions for big-endian hosts: registers stay in order and
//! each register is laid out low byte first.

use vstd::prelude::*;

use super::{all_unset, byte_or_zero, in_order_le_bytes, word_count, word_of};

verus! {

/// Registers taken two bytes at a time in order, the first of each pair as
/// the low byte; a missing last byte counts as zero.
pub open spec fn in_order_le_words(bytes: Seq<u8>) -> Seq<u16> {
    Seq::new(
        word_count(bytes.len()),
        |j: int| word_of(byte_or_zero(bytes, 2 * j), byte_or_zero(bytes, 2 * j + 1)),
    )
}

/// The bytes of a numeric reading on a big-endian host: all zero when no
/// register holds a reading.
pub open spec fn numeric_bytes_be(data: Seq<u16>) -> Seq<u8> {
    if all_unset(data) {
        Seq::new(2 * data.len(), |i: int| 0u8)
    } else {
        in_order_le_bytes(data)
    }
}

fn in_order_le(data: &[u16]) -> (bytes: Vec<u8>)
    requires
        2 * data@.len() <= usize::MAX,
    ensures
        bytes@ == in_order_le_bytes(data@),
{
    let n = data.len();
    let mut bytes: Vec<u8> = Vec::new();
    let mut j: usize = 0;
    while j < n
        invariant
            n == data@.len(),
            2 * n <= usize::MAX,
            j <= n,
            bytes@ =~= in_order_le_bytes(data@).take(2 * j as int),
        decreases n - j,
    {
        let word = data[j];
        bytes.push((word % 256) as u8);
        bytes.push((word / 256) as u8);
        j = j + 1;
        assert(bytes@ =~= in_order_le_bytes(data@).take(2 * j as int));
    }
    assert(in_order_le_bytes(data@).take(2 * n as int) =~= in_order_le_bytes(data@));
    bytes
}

fn in_order_words(bytes: &[u8]) -> (words: Vec<u16>)
    ensures
        words@ == in_order_le_words(bytes@),
{
    let n = bytes.len();
    let count = n / 2 + n % 2;
    let mut words: Vec<u16> = Vec::new();
    let mut j: usize = 0;
    while j < count
        invariant
            n == bytes@.len(),
            count == word_count(n as nat),
            j <= count,
            words@ =~= in_order_le_words(bytes@).take(j as int),
        decreases count - j,
    {
        let first = bytes[2 * j];
        let second = if 2 * j + 1 < n { bytes[2 * j + 1] } else { 0 };
        words.push((first as u16) + 256 * (second as u16));
        j = j + 1;
        assert(words@ =~= in_order_le_words(bytes@).take(j as int));
    }
    assert(in_order_le_words(bytes@).take(count as int) =~= in_order_le_words(bytes@));
    words
}

/// Registers of a numeric value as bytes on a big-endian host.
pub fn decode_numeric_bytes(data: &[u16]) -> (bytes: Vec<u8>)
    requires
        2 * data@.len() <= usize::MAX,
    ensures
        bytes@ == numeric_bytes_be(data@),
{
    let n = data.len();
    let mut unset = true;
    let mut k: usize = 0;
    while k < n
        invariant
            n == data@.len(),
            k <= n,
            unset <==> (forall|i: int| 0 <= i < k ==> data@[i] == 0xFFFFu16),
        decreases n - k,
    {
        if data[k] != 0xFFFF {
            unset = false;
        }
        k = k + 1;
    }
    if unset {
        let mut bytes: Vec<u8> = Vec::new();
        let mut j: usize = 0;
        while j < n
            invariant
                n == data@.len(),
                2 * n <= usize::MAX,
                j <= n,
                bytes@ == Seq::new(2 * j as nat, |i: int| 0u8),
            decreases n - j,
        {
            bytes.push(0u8);
            bytes.push(0u8);
            j = j + 1;
            assert(bytes@ =~= Seq::new(2 * j as nat, |i: int| 0u8));
        }
        bytes
    } else {
        in_order_le(data)
    }
}

/// Registers as bytes for numeric parsing on a big-endian host, without the
/// rule for unset registers.
pub fn parse_numeric_bytes(data: &[u16]) -> (bytes: Vec<u8>)
    requires
        2 * data@.len() <= usize::MAX,
    ensures
        bytes@ == in_order_le_bytes(data@),
{
    in_order_le(data)
}

/// Registers of a text value as bytes on a big-endian host.
pub fn decode_string_bytes(data: &[u16]) -> (bytes: Vec<u8>)
    requires
        2 * data@.len() <= usize::MAX,
    ensures
        bytes@ == in_order_le_bytes(data@),
{
    in_order_le(data)
}

/// Registers as bytes for text parsing on a big-endian host.
pub fn parse_string_bytes(data: &[u16]) -> (bytes: Vec<u8>)
    requires
        2 * data@.len() <= usize::MAX,
    ensures
        bytes@ == in_order_le_bytes(data@),
{
    in_order_le(data)
}

/// Bytes of a numeric value as registers to write on a big-endian host.
pub fn encode_numeric_bytes(bytes: &[u8]) -> (words: Vec<u16>)
    ensures
        words@ == in_order_le_words(bytes@),
{
    in_order_words(bytes)
}

/// Bytes of a text value as registers to write on a big-endian host.
pub fn encode_string_bytes(bytes: &[u8]) -> (words: Vec<u16>)
    ensures
        words@ == in_order_le_words(bytes@),
{
    in_order_words(bytes)
}

} // verus!
