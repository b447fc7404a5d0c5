//! Register kinds, register values, and the conversion between them and the
//! raw holding registers of a device.

use vstd::prelude::*;
use vstd::utf8::{decode_utf8, encode_utf8, valid_utf8};

use crate::decimal::{
    decimal_checked_mul, decimal_parts_valid, decimal_product, decimal_text, decimal_to_text, decimal_to_u16,
    decimal_to_u16_spec, DecimalValue,
};
use crate::encoding::{
    all_unset, be_word_value, encode_numeric_bytes, encode_string_bytes, high_byte, low_byte,
    numeric_words, string_words,
};
use crate::encoding::{decode_numeric_bytes, decode_string_bytes, in_order_be_bytes, law_numeric_bytes_value, le_value, numeric_bytes};
use crate::span::{Span, SpanParser};
use crate::text::{concat, copy_string, push_char, debug_raw_values, debug_string, raw_debug_text, string_debug_text, utf8_to_string};

verus! {

/// A point in time, as seconds and nanoseconds since the Unix epoch.
#[derive(Clone, Copy, Debug, PartialEq, Eq, Structural)]
pub struct Timestamp {
    pub seconds: i64,
    pub nanoseconds: u32,
}

/// Why registers could not be parsed.
#[derive(Clone, Copy, Debug, PartialEq, Eq, Structural)]
pub enum ParseError {
    /// The registers do not have the width of the value.
    SliceLength,
    /// Applying the multiplier overflowed.
    Multiplication,
    /// The registers of a text value are not UTF-8.
    InvalidUtf8,
    /// A floating point reading has no decimal value.
    FloatConversion,
    /// A span of a batch starts before the batch.
    SpanStart,
}

/// Kind of a numeric register value.
#[derive(Clone, Copy, Debug, PartialEq, Eq, Structural)]
pub enum NumericKind {
    U16,
    U32,
    U64,
    S16,
    S32,
    S64,
    F32,
    F64,
}

/// Number of registers that a numeric value takes.
pub open spec fn kind_quantity(kind: NumericKind) -> u16 {
    match kind {
        NumericKind::U16 => 1,
        NumericKind::S16 => 1,
        NumericKind::U32 => 2,
        NumericKind::S32 => 2,
        NumericKind::F32 => 2,
        NumericKind::U64 => 4,
        NumericKind::S64 => 4,
        NumericKind::F64 => 4,
    }
}

/// Number of registers that a numeric value takes.
pub open spec fn kind_words(kind: NumericKind) -> nat {
    kind_quantity(kind) as nat
}

/// True for the signed integer kinds.
pub open spec fn kind_signed(kind: NumericKind) -> bool {
    kind == NumericKind::S16 || kind == NumericKind::S32 || kind == NumericKind::S64
}

/// True for the floating point kinds.
pub open spec fn kind_float(kind: NumericKind) -> bool {
    kind == NumericKind::F32 || kind == NumericKind::F64
}

/// Number of distinct values of the kind's width: 2^16, 2^32 or 2^64.
pub open spec fn kind_range(kind: NumericKind) -> int {
    if kind_words(kind) == 1 {
        0x1_0000
    } else if kind_words(kind) == 2 {
        0x1_0000_0000
    } else {
        0x1_0000_0000_0000_0000
    }
}

/// The unsigned reading of numeric registers: zero when no register holds a
/// reading, the registers read most significant word first otherwise.
pub open spec fn raw_reading(data: Seq<u16>) -> int {
    if all_unset(data) {
        0
    } else {
        be_word_value(data) as int
    }
}

/// The integer that an unsigned reading stands for: two's complement for the
/// signed kinds, and the largest value of the kind reads as zero.
pub open spec fn typed_reading(raw: int, kind: NumericKind) -> int {
    let range = kind_range(kind);
    let typed = if kind_signed(kind) && raw >= range / 2 {
        raw - range
    } else {
        raw
    };
    let max = if kind_signed(kind) {
        range / 2 - 1
    } else {
        range - 1
    };
    if typed == max {
        0
    } else {
        typed
    }
}

/// Numeric register settings.
#[derive(Clone, Copy, Debug)]
pub struct NumericRegisterKind {
    pub multiplier: Option<DecimalValue>,
}

/// Text register settings.
#[derive(Clone, Copy, Debug)]
pub struct StringRegisterKind {
    pub length: u16,
}

/// Raw register settings.
#[derive(Clone, Copy, Debug)]
pub struct RawRegisterKind {
    pub length: u16,
}

/// How the registers of a value are read.
#[derive(Clone, Copy, Debug)]
pub enum RegisterKindStorage {
    U16(NumericRegisterKind),
    U32(NumericRegisterKind),
    U64(NumericRegisterKind),
    S16(NumericRegisterKind),
    S32(NumericRegisterKind),
    S64(NumericRegisterKind),
    F32(NumericRegisterKind),
    F64(NumericRegisterKind),
    String(StringRegisterKind),
    Raw(RawRegisterKind),
}

/// The parts of an optional decimal.
pub open spec fn option_parts(d: Option<DecimalValue>) -> Option<(i128, u32, bool)> {
    match d {
        Some(d) => Some(d@),
        None => None,
    }
}

/// True when an optional decimal is absent or valid.
pub open spec fn option_decimal_wf(d: Option<DecimalValue>) -> bool {
    match d {
        Some(d) => d.wf(),
        None => true,
    }
}

impl RegisterKindStorage {
    /// The numeric kind and multiplier of a numeric register.
    pub open spec fn numeric(&self) -> Option<(NumericKind, Option<DecimalValue>)> {
        match *self {
            RegisterKindStorage::U16(k) => Some((NumericKind::U16, k.multiplier)),
            RegisterKindStorage::U32(k) => Some((NumericKind::U32, k.multiplier)),
            RegisterKindStorage::U64(k) => Some((NumericKind::U64, k.multiplier)),
            RegisterKindStorage::S16(k) => Some((NumericKind::S16, k.multiplier)),
            RegisterKindStorage::S32(k) => Some((NumericKind::S32, k.multiplier)),
            RegisterKindStorage::S64(k) => Some((NumericKind::S64, k.multiplier)),
            RegisterKindStorage::F32(k) => Some((NumericKind::F32, k.multiplier)),
            RegisterKindStorage::F64(k) => Some((NumericKind::F64, k.multiplier)),
            _ => None,
        }
    }

    /// True when the multiplier, if any, is a valid decimal.
    pub open spec fn wf(&self) -> bool {
        match self.numeric() {
            Some((_, m)) => option_decimal_wf(m),
            None => true,
        }
    }

    /// Number of registers that a value of this kind takes.
    pub open spec fn spec_quantity(&self) -> u16 {
        match *self {
            RegisterKindStorage::String(k) => k.length,
            RegisterKindStorage::Raw(k) => k.length,
            _ => kind_quantity(self.numeric().unwrap().0),
        }
    }

}

impl RegisterStorage for RegisterKindStorage {
    open spec fn storage_quantity(&self) -> u16 {
        self.spec_quantity()
    }

    /// Number of registers that a value of this kind takes.
    fn quantity(&self) -> (r: u16) {
        match self {
            RegisterKindStorage::U16(_) => 1,
            RegisterKindStorage::U32(_) => 2,
            RegisterKindStorage::U64(_) => 4,
            RegisterKindStorage::S16(_) => 1,
            RegisterKindStorage::S32(_) => 2,
            RegisterKindStorage::S64(_) => 4,
            RegisterKindStorage::F32(_) => 2,
            RegisterKindStorage::F64(_) => 4,
            RegisterKindStorage::String(k) => k.length,
            RegisterKindStorage::Raw(k) => k.length,
        }
    }
}

/// Something that knows how many registers it takes.
pub trait RegisterStorage {
    spec fn storage_quantity(&self) -> u16;

    fn quantity(&self) -> (r: u16)
        ensures
            r == self.storage_quantity(),
    ;
}

/// A value read from registers, with the time it was read.
#[derive(Clone, Debug)]
pub struct RegisterValue<T> {
    pub value: T,
    pub timestamp: Timestamp,
}

/// A value of a register.
#[derive(Clone, Debug)]
pub enum RegisterValueStorage {
    U16(RegisterValue<DecimalValue>),
    U32(RegisterValue<DecimalValue>),
    U64(RegisterValue<DecimalValue>),
    S16(RegisterValue<DecimalValue>),
    S32(RegisterValue<DecimalValue>),
    S64(RegisterValue<DecimalValue>),
    F32(RegisterValue<DecimalValue>),
    F64(RegisterValue<DecimalValue>),
    String(RegisterValue<String>),
    Raw(RegisterValue<Vec<u16>>),
}

/// The model of a register value.
pub enum StorageView {
    Number(NumericKind, (i128, u32, bool), Timestamp),
    Text(Seq<char>, Timestamp),
    Raw(Seq<u16>, Timestamp),
}

impl View for RegisterValueStorage {
    type V = StorageView;

    open spec fn view(&self) -> StorageView {
        match self {
            RegisterValueStorage::U16(v) => StorageView::Number(NumericKind::U16, v.value@, v.timestamp),
            RegisterValueStorage::U32(v) => StorageView::Number(NumericKind::U32, v.value@, v.timestamp),
            RegisterValueStorage::U64(v) => StorageView::Number(NumericKind::U64, v.value@, v.timestamp),
            RegisterValueStorage::S16(v) => StorageView::Number(NumericKind::S16, v.value@, v.timestamp),
            RegisterValueStorage::S32(v) => StorageView::Number(NumericKind::S32, v.value@, v.timestamp),
            RegisterValueStorage::S64(v) => StorageView::Number(NumericKind::S64, v.value@, v.timestamp),
            RegisterValueStorage::F32(v) => StorageView::Number(NumericKind::F32, v.value@, v.timestamp),
            RegisterValueStorage::F64(v) => StorageView::Number(NumericKind::F64, v.value@, v.timestamp),
            RegisterValueStorage::String(v) => StorageView::Text(v.value@, v.timestamp),
            RegisterValueStorage::Raw(v) => StorageView::Raw(v.value@, v.timestamp),
        }
    }
}

/// True when a numeric value is a valid decimal.
pub open spec fn storage_view_wf(v: StorageView) -> bool {
    match v {
        StorageView::Number(_, d, _) => decimal_parts_valid(d),
        _ => true,
    }
}

/// Time at which a value was read.
pub open spec fn storage_timestamp(v: StorageView) -> Timestamp {
    match v {
        StorageView::Number(_, _, t) => t,
        StorageView::Text(_, t) => t,
        StorageView::Raw(_, t) => t,
    }
}

/// Number of registers of a value: a text value counts its UTF-8 bytes and a
/// raw value its registers, both cut to 16 bits.
pub open spec fn storage_quantity(v: StorageView) -> u16 {
    match v {
        StorageView::Number(k, _, _) => kind_quantity(k),
        StorageView::Text(s, _) => ((encode_utf8(s).len() as usize) % 0x1_0000) as u16,
        StorageView::Raw(r, _) => (r.len() % 0x1_0000) as u16,
    }
}

/// Text form of a value: the decimal for numbers, the `Debug` form for text
/// and raw values.
pub open spec fn storage_text(v: StorageView) -> Seq<char> {
    match v {
        StorageView::Number(_, d, _) => decimal_text(d),
        StorageView::Text(s, _) => string_debug_text(s),
        StorageView::Raw(r, _) => raw_debug_text(r),
    }
}

/// Registers written for a value: a number is converted to `u16` (zero when
/// it does not convert) and written through [`numeric_words`] from its native
/// bytes; text is written through [`string_words`] from its UTF-8 bytes; raw
/// values are written as they are.
pub open spec fn storage_words(v: StorageView) -> Seq<u16> {
    match v {
        StorageView::Number(_, d, _) => {
            let w: u16 = match decimal_to_u16_spec(d) {
                Some(x) => x,
                None => 0u16,
            };
            numeric_words(seq![low_byte(w), high_byte(w)])
        },
        StorageView::Text(s, _) => string_words(encode_utf8(s)),
        StorageView::Raw(r, _) => r,
    }
}

impl RegisterValueStorage {
    /// True when a numeric value is a valid decimal.
    pub open spec fn wf(&self) -> bool {
        storage_view_wf(self@)
    }

    /// Time at which the value was read.
    pub fn timestamp(&self) -> (t: Timestamp)
        ensures
            t == storage_timestamp(self@),
    {
        match self {
            RegisterValueStorage::U16(v) => v.timestamp,
            RegisterValueStorage::U32(v) => v.timestamp,
            RegisterValueStorage::U64(v) => v.timestamp,
            RegisterValueStorage::S16(v) => v.timestamp,
            RegisterValueStorage::S32(v) => v.timestamp,
            RegisterValueStorage::S64(v) => v.timestamp,
            RegisterValueStorage::F32(v) => v.timestamp,
            RegisterValueStorage::F64(v) => v.timestamp,
            RegisterValueStorage::String(v) => v.timestamp,
            RegisterValueStorage::Raw(v) => v.timestamp,
        }
    }

}

impl RegisterStorage for RegisterValueStorage {
    open spec fn storage_quantity(&self) -> u16 {
        storage_quantity(self@)
    }

    /// Number of registers of the value (see [`storage_quantity`]).
    fn quantity(&self) -> (r: u16) {
        match self {
            RegisterValueStorage::U16(_) => 1,
            RegisterValueStorage::U32(_) => 2,
            RegisterValueStorage::U64(_) => 4,
            RegisterValueStorage::S16(_) => 1,
            RegisterValueStorage::S32(_) => 2,
            RegisterValueStorage::S64(_) => 4,
            RegisterValueStorage::F32(_) => 2,
            RegisterValueStorage::F64(_) => 4,
            RegisterValueStorage::String(v) => (v.value.as_str().len() % 0x1_0000) as u16,
            RegisterValueStorage::Raw(v) => (v.value.len() % 0x1_0000) as u16,
        }
    }
}

impl RegisterValueStorage {
    /// The decimal of a numeric value.
    fn number(&self) -> (d: Option<DecimalValue>)
        ensures
            match self@ {
                StorageView::Number(_, p, _) => d matches Some(x) && x@ == p,
                _ => d is None,
            },
    {
        match self {
            RegisterValueStorage::U16(v) => Some(v.value),
            RegisterValueStorage::U32(v) => Some(v.value),
            RegisterValueStorage::U64(v) => Some(v.value),
            RegisterValueStorage::S16(v) => Some(v.value),
            RegisterValueStorage::S32(v) => Some(v.value),
            RegisterValueStorage::S64(v) => Some(v.value),
            RegisterValueStorage::F32(v) => Some(v.value),
            RegisterValueStorage::F64(v) => Some(v.value),
            _ => None,
        }
    }

    /// Text form of the value (see [`storage_text`]).
    pub fn to_text(&self) -> (s: String)
        requires
            self.wf(),
        ensures
            s@ == storage_text(self@),
    {
        match self {
            RegisterValueStorage::String(v) => debug_string(&v.value),
            RegisterValueStorage::Raw(v) => debug_raw_values(&v.value),
            _ => {
                let d = self.number();
                match d {
                    Some(d) => decimal_to_text(&d),
                    None => String::new(),
                }
            },
        }
    }

    /// Registers written for the value (see [`storage_words`]).
    pub fn values(&self) -> (words: Vec<u16>)
        requires
            self.wf(),
        ensures
            words@ == storage_words(self@),
    {
        match self {
            RegisterValueStorage::String(v) => encode_string_bytes(v.value.as_str().as_bytes()),
            RegisterValueStorage::Raw(v) => v.value.clone(),
            _ => {
                let d = self.number();
                match d {
                    Some(d) => {
                        let value: u16 = match decimal_to_u16(&d) {
                            Some(x) => x,
                            None => 0,
                        };
                        let native = vec![(value % 256) as u8, (value / 256) as u8];
                        let words = encode_numeric_bytes(native.as_slice());
                        assert(native@ =~= seq![low_byte(value), high_byte(value)]);
                        words
                    },
                    None => Vec::new(),
                }
            },
        }
    }
}

/// A floating point reading whose decimal value is still to be computed: the
/// raw bits as the registers give them.
#[derive(Clone, Copy, Debug)]
pub struct FloatReading {
    /// True for a 64-bit reading, false for a 32-bit one.
    pub wide: bool,
    pub bits: u64,
    pub multiplier: Option<DecimalValue>,
    pub timestamp: Timestamp,
}

/// What parsing registers gives: a value, or a floating point reading whose
/// conversion to a decimal is left to the caller.
#[derive(Clone, Debug)]
pub enum Reading {
    Value(RegisterValueStorage),
    Float(FloatReading),
}

/// The model of a reading.
pub enum ReadingView {
    Value(StorageView),
    Float(bool, u64, Option<(i128, u32, bool)>, Timestamp),
}

impl View for Reading {
    type V = ReadingView;

    open spec fn view(&self) -> ReadingView {
        match self {
            Reading::Value(v) => ReadingView::Value(v@),
            Reading::Float(f) => ReadingView::Float(
                f.wide,
                f.bits,
                option_parts(f.multiplier),
                f.timestamp,
            ),
        }
    }
}

impl Reading {
    /// True when the decimals the reading holds are valid.
    pub open spec fn wf(&self) -> bool {
        match self {
            Reading::Value(v) => v.wf(),
            Reading::Float(f) => option_decimal_wf(f.multiplier),
        }
    }
}

/// The model of a parse result.
pub open spec fn reading_result_view(r: Result<Reading, ParseError>) -> Result<ReadingView, ParseError> {
    match r {
        Ok(x) => Ok(x@),
        Err(e) => Err(e),
    }
}

/// The model of a finished result.
pub open spec fn storage_result_view(r: Result<RegisterValueStorage, ParseError>) -> Result<StorageView, ParseError> {
    match r {
        Ok(x) => Ok(x@),
        Err(e) => Err(e),
    }
}

/// A numeric value with its multiplier applied: the product when there is a
/// multiplier, a multiplication error when the product overflows.
pub open spec fn multiplied(
    kind: NumericKind,
    value: (i128, u32, bool),
    multiplier: Option<(i128, u32, bool)>,
    timestamp: Timestamp,
) -> Result<StorageView, ParseError> {
    match multiplier {
        None => Ok(StorageView::Number(kind, value, timestamp)),
        Some(m) => match decimal_product(value, m) {
            Some(p) => Ok(StorageView::Number(kind, p, timestamp)),
            None => Err(ParseError::Multiplication),
        },
    }
}

/// Parsing registers as a value of the given kind.
///
/// A numeric kind needs exactly as many registers as its width. Integers are
/// read most significant word first (zero when every register is unset),
/// signed kinds in two's complement; the largest value of a kind reads as
/// zero; the multiplier is then applied. Floating point readings keep their
/// bits. Text is the UTF-8 that the registers hold, high byte first; raw
/// registers are kept as they are.
pub open spec fn parse_spec(kind: RegisterKindStorage, data: Seq<u16>, timestamp: Timestamp) -> Result<
    ReadingView,
    ParseError,
> {
    match kind.numeric() {
        Some((k, m)) => if data.len() != kind_words(k) {
            Err(ParseError::SliceLength)
        } else if kind_float(k) {
            Ok(
                ReadingView::Float(
                    k == NumericKind::F64,
                    raw_reading(data) as u64,
                    option_parts(m),
                    timestamp,
                ),
            )
        } else {
            match multiplied(
                k,
                DecimalValue::spec_from_integer(typed_reading(raw_reading(data), k)),
                option_parts(m),
                timestamp,
            ) {
                Ok(v) => Ok(ReadingView::Value(v)),
                Err(e) => Err(e),
            }
        },
        None => match kind {
            RegisterKindStorage::String(_) => {
                let bytes = in_order_be_bytes(data);
                if valid_utf8(bytes) {
                    Ok(ReadingView::Value(StorageView::Text(decode_utf8(bytes), timestamp)))
                } else {
                    Err(ParseError::InvalidUtf8)
                }
            },
            _ => Ok(ReadingView::Value(StorageView::Raw(data, timestamp))),
        },
    }
}

/// Finishing a reading: a value stays as it is; a floating point reading
/// takes the decimal that its bits convert to (a conversion error when there
/// is none) and then its multiplier.
pub open spec fn finish_spec(reading: ReadingView, float_decimal: Option<(i128, u32, bool)>) -> Result<
    StorageView,
    ParseError,
> {
    match reading {
        ReadingView::Value(v) => Ok(v),
        ReadingView::Float(wide, _, m, timestamp) => match float_decimal {
            None => Err(ParseError::FloatConversion),
            Some(d) => multiplied(
                if wide {
                    NumericKind::F64
                } else {
                    NumericKind::F32
                },
                d,
                m,
                timestamp,
            ),
        },
    }
}

/// 256 to the power `n`.
pub open spec fn pow256(n: nat) -> nat
    decreases n,
{
    if n == 0 {
        1
    } else {
        256 * pow256((n - 1) as nat)
    }
}

proof fn lemma_pow256_values()
    ensures
        pow256(0) == 1,
        pow256(2) == 0x1_0000,
        pow256(4) == 0x1_0000_0000,
        pow256(7) == 0x100_0000_0000_0000,
        pow256(8) == 0x1_0000_0000_0000_0000,
        forall|k: nat| k <= 7 ==> #[trigger] pow256(k) <= 0x100_0000_0000_0000,
{
    reveal_with_fuel(pow256, 9);
    assert forall|k: nat| k <= 7 implies #[trigger] pow256(k) <= 0x100_0000_0000_0000 by {
        reveal_with_fuel(pow256, 9);
    }
}

/// Little-endian value of at most eight bytes.
fn le_u64(bytes: &[u8]) -> (v: u64)
    requires
        bytes@.len() <= 8,
    ensures
        v as int == le_value(bytes@),
        le_value(bytes@) < pow256(bytes@.len()),
{
    let n = bytes.len();
    let mut acc: u64 = 0;
    let mut i = n;
    proof {
        lemma_pow256_values();
        assert(bytes@.skip(n as int) =~= Seq::<u8>::empty());
    }
    while i > 0
        invariant
            i <= n,
            n == bytes@.len(),
            n <= 8,
            acc as int == le_value(bytes@.skip(i as int)),
            le_value(bytes@.skip(i as int)) < pow256((n - i) as nat),
            forall|k: nat| k <= 7 ==> #[trigger] pow256(k) <= 0x100_0000_0000_0000,
        decreases i,
    {
        i = i - 1;
        let b = bytes[i];
        let ghost prev = acc as int;
        let ghost p = pow256((n - i - 1) as nat);
        proof {
            assert(bytes@.skip(i as int).drop_first() =~= bytes@.skip(i + 1));
            assert(bytes@.skip(i as int)[0] == b);
            assert(pow256((n - i) as nat) == 256 * p);
            assert(prev * 256 + b < 256 * p) by (nonlinear_arith)
                requires
                    prev < p,
                    b < 256,
            ;
            assert(p <= 0x100_0000_0000_0000);
        }
        acc = acc * 256 + b as u64;
    }
    proof {
        assert(bytes@.skip(0) =~= bytes@);
    }
    acc
}

/// Registers that a numeric kind takes.
fn numeric_kind_words(kind: NumericKind) -> (w: usize)
    ensures
        w == kind_words(kind),
{
    match kind {
        NumericKind::U16 => 1,
        NumericKind::S16 => 1,
        NumericKind::U32 => 2,
        NumericKind::S32 => 2,
        NumericKind::F32 => 2,
        NumericKind::U64 => 4,
        NumericKind::S64 => 4,
        NumericKind::F64 => 4,
    }
}

/// The integer that an unsigned reading stands for (see [`typed_reading`]).
fn typed_value(raw: u64, kind: NumericKind) -> (v: i128)
    requires
        (raw as int) < kind_range(kind),
    ensures
        v as int == typed_reading(raw as int, kind),
        -0x1_0000_0000_0000_0000 <= v < 0x1_0000_0000_0000_0000,
{
    let range: i128 = match numeric_kind_words(kind) {
        1 => 0x1_0000,
        2 => 0x1_0000_0000,
        _ => 0x1_0000_0000_0000_0000,
    };
    let signed = kind == NumericKind::S16 || kind == NumericKind::S32 || kind == NumericKind::S64;
    let r = raw as i128;
    let typed = if signed && r >= range / 2 {
        r - range
    } else {
        r
    };
    let max = if signed {
        range / 2 - 1
    } else {
        range - 1
    };
    if typed == max {
        0
    } else {
        typed
    }
}

/// A numeric value of the given kind.
fn number_storage(kind: NumericKind, value: DecimalValue, timestamp: Timestamp) -> (s:
    RegisterValueStorage)
    ensures
        s@ == StorageView::Number(kind, value@, timestamp),
{
    let v = RegisterValue { value, timestamp };
    match kind {
        NumericKind::U16 => RegisterValueStorage::U16(v),
        NumericKind::U32 => RegisterValueStorage::U32(v),
        NumericKind::U64 => RegisterValueStorage::U64(v),
        NumericKind::S16 => RegisterValueStorage::S16(v),
        NumericKind::S32 => RegisterValueStorage::S32(v),
        NumericKind::S64 => RegisterValueStorage::S64(v),
        NumericKind::F32 => RegisterValueStorage::F32(v),
        NumericKind::F64 => RegisterValueStorage::F64(v),
    }
}

/// A numeric value with its multiplier applied (see [`multiplied`]).
fn apply_multiplier(
    kind: NumericKind,
    value: DecimalValue,
    multiplier: Option<DecimalValue>,
    timestamp: Timestamp,
) -> (r: Result<RegisterValueStorage, ParseError>)
    requires
        value.wf(),
        option_decimal_wf(multiplier),
    ensures
        storage_result_view(r) == multiplied(kind, value@, option_parts(multiplier), timestamp),
        r matches Ok(s) ==> s.wf(),
{
    match multiplier {
        None => Ok(number_storage(kind, value, timestamp)),
        Some(m) => match decimal_checked_mul(&value, &m) {
            Some(p) => Ok(number_storage(kind, p, timestamp)),
            None => Err(ParseError::Multiplication),
        },
    }
}

fn parse_numeric(
    kind: NumericKind,
    multiplier: Option<DecimalValue>,
    data: &[u16],
    timestamp: Timestamp,
) -> (r: Result<Reading, ParseError>)
    requires
        option_decimal_wf(multiplier),
        2 * data@.len() <= usize::MAX,
    ensures
        reading_result_view(r) == (if data@.len() != kind_words(kind) {
            Err(ParseError::SliceLength)
        } else if kind_float(kind) {
            Ok(
                ReadingView::Float(
                    kind == NumericKind::F64,
                    raw_reading(data@) as u64,
                    option_parts(multiplier),
                    timestamp,
                ),
            )
        } else {
            match multiplied(
                kind,
                DecimalValue::spec_from_integer(typed_reading(raw_reading(data@), kind)),
                option_parts(multiplier),
                timestamp,
            ) {
                Ok(v) => Ok(ReadingView::Value(v)),
                Err(e) => Err(e),
            }
        }),
        r matches Ok(x) ==> x.wf(),
{
    let bytes = decode_numeric_bytes(data);
    let width = numeric_kind_words(kind);
    if bytes.len() != 2 * width {
        return Err(ParseError::SliceLength);
    }
    let raw = le_u64(bytes.as_slice());
    proof {
        law_numeric_bytes_value(data@);
        lemma_pow256_values();
    }
    if kind == NumericKind::F32 || kind == NumericKind::F64 {
        return Ok(
            Reading::Float(FloatReading { wide: kind == NumericKind::F64, bits: raw, multiplier, timestamp }),
        );
    }
    let typed = typed_value(raw, kind);
    let value = DecimalValue::from_integer(typed);
    match apply_multiplier(kind, value, multiplier, timestamp) {
        Ok(s) => Ok(Reading::Value(s)),
        Err(e) => Err(e),
    }
}

/// Parses registers as a value of the given kind (see [`parse_spec`]).
pub fn parse_reading(kind: &RegisterKindStorage, data: &[u16], timestamp: Timestamp) -> (r: Result<
    Reading,
    ParseError,
>)
    requires
        kind.wf(),
        2 * data@.len() <= usize::MAX,
    ensures
        reading_result_view(r) == parse_spec(*kind, data@, timestamp),
        r matches Ok(x) ==> x.wf(),
{
    match kind {
        RegisterKindStorage::U16(k) => parse_numeric(NumericKind::U16, k.multiplier, data, timestamp),
        RegisterKindStorage::U32(k) => parse_numeric(NumericKind::U32, k.multiplier, data, timestamp),
        RegisterKindStorage::U64(k) => parse_numeric(NumericKind::U64, k.multiplier, data, timestamp),
        RegisterKindStorage::S16(k) => parse_numeric(NumericKind::S16, k.multiplier, data, timestamp),
        RegisterKindStorage::S32(k) => parse_numeric(NumericKind::S32, k.multiplier, data, timestamp),
        RegisterKindStorage::S64(k) => parse_numeric(NumericKind::S64, k.multiplier, data, timestamp),
        RegisterKindStorage::F32(k) => parse_numeric(NumericKind::F32, k.multiplier, data, timestamp),
        RegisterKindStorage::F64(k) => parse_numeric(NumericKind::F64, k.multiplier, data, timestamp),
        RegisterKindStorage::String(_) => {
            let bytes = decode_string_bytes(data);
            match utf8_to_string(bytes) {
                Some(s) => Ok(
                    Reading::Value(RegisterValueStorage::String(RegisterValue { value: s, timestamp })),
                ),
                None => Err(ParseError::InvalidUtf8),
            }
        },
        RegisterKindStorage::Raw(_) => {
            let mut values: Vec<u16> = Vec::new();
            let mut i: usize = 0;
            while i < data.len()
                invariant
                    i <= data@.len(),
                    values@ =~= data@.take(i as int),
                decreases data@.len() - i,
            {
                values.push(data[i]);
                i = i + 1;
            }
            assert(data@.take(data@.len() as int) =~= data@);
            Ok(Reading::Value(RegisterValueStorage::Raw(RegisterValue { value: values, timestamp })))
        },
    }
}

/// Finishes a reading (see [`finish_spec`]); `float_decimal` is the decimal
/// that the bits of a floating point reading convert to, when they convert.
pub fn finish_reading(reading: Reading, float_decimal: Option<DecimalValue>) -> (r: Result<
    RegisterValueStorage,
    ParseError,
>)
    requires
        reading.wf(),
        option_decimal_wf(float_decimal),
    ensures
        storage_result_view(r) == finish_spec(reading@, option_parts(float_decimal)),
        r matches Ok(s) ==> s.wf(),
{
    match reading {
        Reading::Value(v) => Ok(v),
        Reading::Float(f) => match float_decimal {
            None => Err(ParseError::FloatConversion),
            Some(d) => {
                let kind = if f.wide {
                    NumericKind::F64
                } else {
                    NumericKind::F32
                };
                apply_multiplier(kind, d, f.multiplier, f.timestamp)
            },
        },
    }
}

impl RegisterStorage for Reading {
    open spec fn storage_quantity(&self) -> u16 {
        match self {
            Reading::Value(v) => storage_quantity(v@),
            Reading::Float(f) => if f.wide {
                4u16
            } else {
                2u16
            },
        }
    }

    fn quantity(&self) -> (r: u16) {
        match self {
            Reading::Value(v) => v.quantity(),
            Reading::Float(f) => if f.wide {
                4
            } else {
                2
            },
        }
    }
}

/// The name that `regex::Regex::new` accepts as a valid pattern.
pub uninterp spec fn regex_valid(pattern: Seq<char>) -> bool;

/// Whether the compiled pattern finds a match in the text
/// (`regex::Regex::is_match`); false for a pattern that does not compile.
pub uninterp spec fn regex_match(pattern: Seq<char>, text: Seq<char>) -> bool;

/// `regex::Regex::new(pattern).is_ok()`. The contract claims that the result
/// is the named validity of the pattern.
#[verifier::external_body]
pub(crate) fn regex_compiles(pattern: &str) -> (r: bool)
    ensures
        r == regex_valid(pattern@),
{
    match regex::Regex::new(pattern) {
        Ok(_) => true,
        Err(_) => false,
    }
}

/// `regex::Regex::new(pattern)` followed by `is_match(text)`; false when the
/// pattern does not compile. The contract claims that the result is the
/// named match of the pattern on the text.
#[verifier::external_body]
pub(crate) fn regex_is_match(pattern: &str, text: &str) -> (r: bool)
    ensures
        r == regex_match(pattern@, text@),
{
    match regex::Regex::new(pattern) {
        Ok(regex) => regex.is_match(text),
        Err(_) => false,
    }
}

/// How a detect register recognizes a device: the register's text equals a
/// string, or a regular expression matches it.
#[derive(Debug)]
pub enum Matcher {
    Exact(String),
    Pattern(String),
}

/// The model of a matcher.
pub enum MatcherView {
    Exact(Seq<char>),
    Pattern(Seq<char>),
}

impl View for Matcher {
    type V = MatcherView;

    open spec fn view(&self) -> MatcherView {
        match self {
            Matcher::Exact(s) => MatcherView::Exact(s@),
            Matcher::Pattern(p) => MatcherView::Pattern(p@),
        }
    }
}

/// True when the matcher accepts the text.
pub open spec fn matcher_accepts(m: MatcherView, text: Seq<char>) -> bool {
    match m {
        MatcherView::Exact(s) => s == text,
        MatcherView::Pattern(p) => regex_match(p, text),
    }
}

/// The matcher configured by a string: a regular expression when the string
/// compiles as one, the string itself otherwise.
pub open spec fn matcher_for(pattern: Seq<char>) -> MatcherView {
    if regex_valid(pattern) {
        MatcherView::Pattern(pattern)
    } else {
        MatcherView::Exact(pattern)
    }
}

impl Matcher {
    /// The matcher configured by a string (see [`matcher_for`]).
    pub fn from_config(pattern: String) -> (m: Matcher)
        ensures
            m@ == matcher_for(pattern@),
    {
        if regex_compiles(pattern.as_str()) {
            Matcher::Pattern(pattern)
        } else {
            Matcher::Exact(pattern)
        }
    }

    /// A copy of the matcher.
    pub fn copy(&self) -> (m: Matcher)
        ensures
            m@ == self@,
    {
        match self {
            Matcher::Exact(s) => Matcher::Exact(copy_string(s)),
            Matcher::Pattern(p) => Matcher::Pattern(copy_string(p)),
        }
    }

    /// True when the matcher accepts the text.
    pub fn accepts(&self, text: &String) -> (r: bool)
        ensures
            r == matcher_accepts(self@, text@),
    {
        match self {
            Matcher::Exact(s) => *s == *text,
            Matcher::Pattern(p) => regex_is_match(p.as_str(), text.as_str()),
        }
    }
}

/// A register whose value is stored as a named measurement.
#[derive(Debug)]
pub struct MeasurementRegister<T> {
    pub address: u16,
    pub storage: T,
    pub name: String,
}

/// A register whose value tells whether a device is of a kind.
#[derive(Debug)]
pub struct DetectRegister<T> {
    pub address: u16,
    pub storage: T,
    pub matcher: Matcher,
}

/// A register whose value is part of a device's identity.
#[derive(Debug)]
pub struct IdRegister<T> {
    pub address: u16,
    pub storage: T,
}

/// A register that is written with a configured value.
#[derive(Debug)]
pub struct ValueRegister<T> {
    pub address: u16,
    pub storage: T,
}

impl<T: RegisterStorage> Span for MeasurementRegister<T> {
    open spec fn span_address(&self) -> u16 {
        self.address
    }

    open spec fn span_quantity(&self) -> u16 {
        self.storage.storage_quantity()
    }

    fn address(&self) -> (r: u16) {
        self.address
    }

    fn quantity(&self) -> (r: u16) {
        self.storage.quantity()
    }
}

impl<T: RegisterStorage> Span for DetectRegister<T> {
    open spec fn span_address(&self) -> u16 {
        self.address
    }

    open spec fn span_quantity(&self) -> u16 {
        self.storage.storage_quantity()
    }

    fn address(&self) -> (r: u16) {
        self.address
    }

    fn quantity(&self) -> (r: u16) {
        self.storage.quantity()
    }
}

impl<T: RegisterStorage> Span for IdRegister<T> {
    open spec fn span_address(&self) -> u16 {
        self.address
    }

    open spec fn span_quantity(&self) -> u16 {
        self.storage.storage_quantity()
    }

    fn address(&self) -> (r: u16) {
        self.address
    }

    fn quantity(&self) -> (r: u16) {
        self.storage.quantity()
    }
}

impl<T: RegisterStorage> Span for ValueRegister<T> {
    open spec fn span_address(&self) -> u16 {
        self.address
    }

    open spec fn span_quantity(&self) -> u16 {
        self.storage.storage_quantity()
    }

    fn address(&self) -> (r: u16) {
        self.address
    }

    fn quantity(&self) -> (r: u16) {
        self.storage.quantity()
    }
}

/// Whether parsing succeeds, and with which error it fails.
pub open spec fn parse_outcome(kind: RegisterKindStorage, data: Seq<u16>, timestamp: Timestamp) -> Result<
    (),
    ParseError,
> {
    match parse_spec(kind, data, timestamp) {
        Ok(_) => Ok(()),
        Err(e) => Err(e),
    }
}

/// The reading that parsing gives, when it succeeds.
pub open spec fn parsed_reading(kind: RegisterKindStorage, data: Seq<u16>, timestamp: Timestamp) -> ReadingView {
    match parse_spec(kind, data, timestamp) {
        Ok(r) => r,
        Err(_) => ReadingView::Value(StorageView::Raw(data, timestamp)),
    }
}

impl SpanParser for MeasurementRegister<RegisterKindStorage> {
    type Parsed = MeasurementRegister<Reading>;

    open spec fn parse_result(&self, data: Seq<u16>, timestamp: Timestamp) -> Result<(), ParseError> {
        parse_outcome(self.storage, data, timestamp)
    }

    open spec fn parsed_from(
        &self,
        data: Seq<u16>,
        timestamp: Timestamp,
        parsed: MeasurementRegister<Reading>,
    ) -> bool {
        &&& parsed.address == self.address
        &&& parsed.name@ == self.name@
        &&& parsed.storage@ == parsed_reading(self.storage, data, timestamp)
        &&& parsed.storage.wf()
    }

    open spec fn parser_wf(&self) -> bool {
        self.storage.wf()
    }

    fn parse_with_timestamp(&self, data: &[u16], timestamp: Timestamp) -> (r: Result<
        MeasurementRegister<Reading>,
        ParseError,
    >) {
        match parse_reading(&self.storage, data, timestamp) {
            Ok(storage) => Ok(
                MeasurementRegister { address: self.address, storage, name: copy_string(&self.name) },
            ),
            Err(e) => Err(e),
        }
    }
}

impl SpanParser for DetectRegister<RegisterKindStorage> {
    type Parsed = DetectRegister<Reading>;

    open spec fn parse_result(&self, data: Seq<u16>, timestamp: Timestamp) -> Result<(), ParseError> {
        parse_outcome(self.storage, data, timestamp)
    }

    open spec fn parsed_from(
        &self,
        data: Seq<u16>,
        timestamp: Timestamp,
        parsed: DetectRegister<Reading>,
    ) -> bool {
        &&& parsed.address == self.address
        &&& parsed.matcher@ == self.matcher@
        &&& parsed.storage@ == parsed_reading(self.storage, data, timestamp)
        &&& parsed.storage.wf()
    }

    open spec fn parser_wf(&self) -> bool {
        self.storage.wf()
    }

    fn parse_with_timestamp(&self, data: &[u16], timestamp: Timestamp) -> (r: Result<
        DetectRegister<Reading>,
        ParseError,
    >) {
        match parse_reading(&self.storage, data, timestamp) {
            Ok(storage) => Ok(
                DetectRegister { address: self.address, storage, matcher: self.matcher.copy() },
            ),
            Err(e) => Err(e),
        }
    }
}

impl SpanParser for IdRegister<RegisterKindStorage> {
    type Parsed = IdRegister<Reading>;

    open spec fn parse_result(&self, data: Seq<u16>, timestamp: Timestamp) -> Result<(), ParseError> {
        parse_outcome(self.storage, data, timestamp)
    }

    open spec fn parsed_from(&self, data: Seq<u16>, timestamp: Timestamp, parsed: IdRegister<Reading>) -> bool {
        &&& parsed.address == self.address
        &&& parsed.storage@ == parsed_reading(self.storage, data, timestamp)
        &&& parsed.storage.wf()
    }

    open spec fn parser_wf(&self) -> bool {
        self.storage.wf()
    }

    fn parse_with_timestamp(&self, data: &[u16], timestamp: Timestamp) -> (r: Result<
        IdRegister<Reading>,
        ParseError,
    >) {
        match parse_reading(&self.storage, data, timestamp) {
            Ok(storage) => Ok(IdRegister { address: self.address, storage }),
            Err(e) => Err(e),
        }
    }
}

impl SpanParser for ValueRegister<RegisterKindStorage> {
    type Parsed = ValueRegister<Reading>;

    open spec fn parse_result(&self, data: Seq<u16>, timestamp: Timestamp) -> Result<(), ParseError> {
        parse_outcome(self.storage, data, timestamp)
    }

    open spec fn parsed_from(&self, data: Seq<u16>, timestamp: Timestamp, parsed: ValueRegister<Reading>) -> bool {
        &&& parsed.address == self.address
        &&& parsed.storage@ == parsed_reading(self.storage, data, timestamp)
        &&& parsed.storage.wf()
    }

    open spec fn parser_wf(&self) -> bool {
        self.storage.wf()
    }

    fn parse_with_timestamp(&self, data: &[u16], timestamp: Timestamp) -> (r: Result<
        ValueRegister<Reading>,
        ParseError,
    >) {
        match parse_reading(&self.storage, data, timestamp) {
            Ok(storage) => Ok(ValueRegister { address: self.address, storage }),
            Err(e) => Err(e),
        }
    }
}

/// The result of finishing a register: the same register with its value, or
/// the error of finishing its reading.
pub open spec fn finished_storage(
    reading: ReadingView,
    float_decimal: Option<DecimalValue>,
    storage: RegisterValueStorage,
) -> bool {
    &&& finish_spec(reading, option_parts(float_decimal)) == Ok::<StorageView, ParseError>(storage@)
    &&& storage.wf()
}

impl MeasurementRegister<Reading> {
    /// Finishes the register's reading (see [`finish_spec`]).
    pub fn finish(self, float_decimal: Option<DecimalValue>) -> (r: Result<
        MeasurementRegister<RegisterValueStorage>,
        ParseError,
    >)
        requires
            self.storage.wf(),
            option_decimal_wf(float_decimal),
        ensures
            match r {
                Ok(reg) => reg.address == self.address && reg.name@ == self.name@ && finished_storage(
                    self.storage@,
                    float_decimal,
                    reg.storage,
                ),
                Err(e) => finish_spec(self.storage@, option_parts(float_decimal)) == Err::<
                    StorageView,
                    ParseError,
                >(e),
            },
    {
        match finish_reading(self.storage, float_decimal) {
            Ok(storage) => Ok(MeasurementRegister { address: self.address, storage, name: self.name }),
            Err(e) => Err(e),
        }
    }
}

impl DetectRegister<Reading> {
    /// Finishes the register's reading (see [`finish_spec`]).
    pub fn finish(self, float_decimal: Option<DecimalValue>) -> (r: Result<
        DetectRegister<RegisterValueStorage>,
        ParseError,
    >)
        requires
            self.storage.wf(),
            option_decimal_wf(float_decimal),
        ensures
            match r {
                Ok(reg) => reg.address == self.address && reg.matcher@ == self.matcher@
                    && finished_storage(self.storage@, float_decimal, reg.storage),
                Err(e) => finish_spec(self.storage@, option_parts(float_decimal)) == Err::<
                    StorageView,
                    ParseError,
                >(e),
            },
    {
        match finish_reading(self.storage, float_decimal) {
            Ok(storage) => Ok(DetectRegister { address: self.address, storage, matcher: self.matcher }),
            Err(e) => Err(e),
        }
    }
}

impl IdRegister<Reading> {
    /// Finishes the register's reading (see [`finish_spec`]).
    pub fn finish(self, float_decimal: Option<DecimalValue>) -> (r: Result<
        IdRegister<RegisterValueStorage>,
        ParseError,
    >)
        requires
            self.storage.wf(),
            option_decimal_wf(float_decimal),
        ensures
            match r {
                Ok(reg) => reg.address == self.address && finished_storage(
                    self.storage@,
                    float_decimal,
                    reg.storage,
                ),
                Err(e) => finish_spec(self.storage@, option_parts(float_decimal)) == Err::<
                    StorageView,
                    ParseError,
                >(e),
            },
    {
        match finish_reading(self.storage, float_decimal) {
            Ok(storage) => Ok(IdRegister { address: self.address, storage }),
            Err(e) => Err(e),
        }
    }
}

impl ValueRegister<Reading> {
    /// Finishes the register's reading (see [`finish_spec`]).
    pub fn finish(self, float_decimal: Option<DecimalValue>) -> (r: Result<
        ValueRegister<RegisterValueStorage>,
        ParseError,
    >)
        requires
            self.storage.wf(),
            option_decimal_wf(float_decimal),
        ensures
            match r {
                Ok(reg) => reg.address == self.address && finished_storage(
                    self.storage@,
                    float_decimal,
                    reg.storage,
                ),
                Err(e) => finish_spec(self.storage@, option_parts(float_decimal)) == Err::<
                    StorageView,
                    ParseError,
                >(e),
            },
    {
        match finish_reading(self.storage, float_decimal) {
            Ok(storage) => Ok(ValueRegister { address: self.address, storage }),
            Err(e) => Err(e),
        }
    }
}

impl DetectRegister<RegisterValueStorage> {
    /// True when the matcher accepts the text of the register's value.
    pub fn matches(&self) -> (r: bool)
        requires
            self.storage.wf(),
        ensures
            r == matcher_accepts(self.matcher@, storage_text(self.storage@)),
    {
        let text = self.storage.to_text();
        self.matcher.accepts(&text)
    }
}

/// The texts of values, concatenated.
pub open spec fn concat_texts(values: Seq<StorageView>) -> Seq<char>
    decreases values.len(),
{
    if values.len() == 0 {
        Seq::empty()
    } else {
        concat_texts(values.drop_last()) + storage_text(values.last())
    }
}

/// The values of id registers.
pub open spec fn id_values(ids: Seq<IdRegister<RegisterValueStorage>>) -> Seq<StorageView> {
    ids.map_values(|r: IdRegister<RegisterValueStorage>| r.storage@)
}

/// The identity of a device: its kind, a dash, and the texts of its id
/// register values in order.
pub open spec fn make_id_spec(kind: Seq<char>, values: Seq<StorageView>) -> Seq<char> {
    kind + seq!['-'] + concat_texts(values)
}

/// The identity of a device (see [`make_id_spec`]).
pub fn make_id(kind: &String, id_registers: &Vec<IdRegister<RegisterValueStorage>>) -> (id: String)
    requires
        forall|i: int| 0 <= i < id_registers@.len() ==> #[trigger] id_registers@[i].storage.wf(),
    ensures
        id@ == make_id_spec(kind@, id_values(id_registers@)),
{
    let mut id = copy_string(kind);
    push_char(&mut id, '-');
    let mut i: usize = 0;
    while i < id_registers.len()
        invariant
            i <= id_registers@.len(),
            forall|j: int| 0 <= j < id_registers@.len() ==> #[trigger] id_registers@[j].storage.wf(),
            id@ == kind@ + seq!['-'] + concat_texts(id_values(id_registers@.take(i as int))),
        decreases id_registers@.len() - i,
    {
        let text = id_registers[i].storage.to_text();
        let ghost before = id@;
        id = concat(&id, &text);
        proof {
            let vals = id_values(id_registers@.take(i + 1));
            assert(vals.drop_last() =~= id_values(id_registers@.take(i as int)));
            assert(vals.last() == id_registers@[i as int].storage@);
            assert(id@ =~= kind@ + seq!['-'] + concat_texts(vals));
        }
        i = i + 1;
    }
    assert(id_registers@.take(id_registers@.len() as int) =~= id_registers@);
    id
}

/// Upper-case hexadecimal digit of a value below 16.
pub open spec fn hex_digit(d: int) -> char {
    if d < 10 {
        (d + 48) as char
    } else {
        (d + 55) as char
    }
}

/// A register value written as `0x` and four upper-case hexadecimal digits.
pub open spec fn hex_text(v: u16) -> Seq<char> {
    seq![
        '0',
        'x',
        hex_digit(v as int / 4096),
        hex_digit((v as int / 256) % 16),
        hex_digit((v as int / 16) % 16),
        hex_digit(v as int % 16),
    ]
}

fn hex_char(d: u16) -> (c: char)
    requires
        d < 16,
    ensures
        c == hex_digit(d as int),
{
    let digits: [char; 16] = [
        '0', '1', '2', '3', '4', '5', '6', '7', '8', '9', 'A', 'B', 'C', 'D', 'E', 'F',
    ];
    let c = digits[d as usize];
    assert(c == hex_digit(d as int)) by {
        assert(digits@ == seq![
            '0', '1', '2', '3', '4', '5', '6', '7', '8', '9', 'A', 'B', 'C', 'D', 'E', 'F',
        ]);
    }
    c
}

/// A register value written as `0x` and four upper-case hexadecimal digits.
pub fn format_hex(v: u16) -> (s: String)
    ensures
        s@ == hex_text(v),
{
    let mut s = String::new();
    push_char(&mut s, '0');
    push_char(&mut s, 'x');
    push_char(&mut s, hex_char(v / 4096));
    push_char(&mut s, hex_char((v / 256) % 16));
    push_char(&mut s, hex_char((v / 16) % 16));
    push_char(&mut s, hex_char(v % 16));
    assert(s@ =~= hex_text(v));
    s
}

/// A measurement value as it is stored: a decimal, a text, or raw registers
/// written in hexadecimal.
#[derive(Debug)]
pub enum JsonField {
    Decimal(DecimalValue),
    Text(String),
    Hex(Vec<String>),
}

/// The model of a stored measurement value.
pub enum JsonFieldView {
    Decimal((i128, u32, bool)),
    Text(Seq<char>),
    Hex(Seq<Seq<char>>),
}

impl View for JsonField {
    type V = JsonFieldView;

    open spec fn view(&self) -> JsonFieldView {
        match self {
            JsonField::Decimal(d) => JsonFieldView::Decimal(d@),
            JsonField::Text(s) => JsonFieldView::Text(s@),
            JsonField::Hex(h) => JsonFieldView::Hex(h@.map_values(|x: String| x@)),
        }
    }
}

/// How a value is stored as a measurement.
pub open spec fn json_field_of(v: StorageView) -> JsonFieldView {
    match v {
        StorageView::Number(_, d, _) => JsonFieldView::Decimal(d),
        StorageView::Text(s, _) => JsonFieldView::Text(s),
        StorageView::Raw(r, _) => JsonFieldView::Hex(r.map_values(|w: u16| hex_text(w))),
    }
}

impl RegisterValueStorage {
    /// How the value is stored as a measurement (see [`json_field_of`]).
    pub fn serialize(&self) -> (f: JsonField)
        ensures
            f@ == json_field_of(self@),
    {
        match self {
            RegisterValueStorage::String(v) => JsonField::Text(copy_string(&v.value)),
            RegisterValueStorage::Raw(v) => {
                let mut hex: Vec<String> = Vec::new();
                let mut i: usize = 0;
                while i < v.value.len()
                    invariant
                        i <= v.value@.len(),
                        hex@.map_values(|x: String| x@) =~= v.value@.take(i as int).map_values(
                            |w: u16| hex_text(w),
                        ),
                    decreases v.value@.len() - i,
                {
                    let h = format_hex(v.value[i]);
                    let ghost old = hex@;
                    hex.push(h);
                    proof {
                        assert(hex@.map_values(|x: String| x@) =~= old.map_values(|x: String| x@).push(
                            hex_text(v.value@[i as int]),
                        ));
                        assert(v.value@.take(i + 1).map_values(|w: u16| hex_text(w)) =~= v.value@.take(
                            i as int,
                        ).map_values(|w: u16| hex_text(w)).push(hex_text(v.value@[i as int])));
                    }
                    i = i + 1;
                }
                assert(v.value@.take(v.value@.len() as int) =~= v.value@);
                JsonField::Hex(hex)
            },
            _ => {
                let d = self.number();
                match d {
                    Some(d) => JsonField::Decimal(d),
                    None => JsonField::Hex(Vec::new()),
                }
            },
        }
    }
}

/// The named values of measurement registers.
pub open spec fn serialized_registers(registers: Seq<MeasurementRegister<RegisterValueStorage>>) -> Seq<
    (Seq<char>, JsonFieldView),
> {
    registers.map_values(
        |r: MeasurementRegister<RegisterValueStorage>| (r.name@, json_field_of(r.storage@)),
    )
}

/// The named values of measurement registers, in order, to be stored as one
/// measurement object.
pub fn serialize_registers(registers: &Vec<MeasurementRegister<RegisterValueStorage>>) -> (fields: Vec<
    (String, JsonField),
>)
    ensures
        fields@.map_values(|f: (String, JsonField)| (f.0@, f.1@)) == serialized_registers(
            registers@,
        ),
{
    let mut fields: Vec<(String, JsonField)> = Vec::new();
    let mut i: usize = 0;
    while i < registers.len()
        invariant
            i <= registers@.len(),
            fields@.map_values(|f: (String, JsonField)| (f.0@, f.1@)) =~= serialized_registers(
                registers@.take(i as int),
            ),
        decreases registers@.len() - i,
    {
        let register = &registers[i];
        let ghost old = fields@;
        let entry = (copy_string(&register.name), register.storage.serialize());
        fields.push(entry);
        proof {
            assert(fields@.map_values(|f: (String, JsonField)| (f.0@, f.1@)) =~= old.map_values(
                |f: (String, JsonField)| (f.0@, f.1@),
            ).push((entry.0@, entry.1@)));
            assert(serialized_registers(registers@.take(i + 1)) =~= serialized_registers(
                registers@.take(i as int),
            ).push((registers@[i as int].name@, json_field_of(registers@[i as int].storage@))));
        }
        i = i + 1;
    }
    assert(registers@.take(registers@.len() as int) =~= registers@);
    fields
}

/// The decimal of an integer value read from registers: the integer as
/// mantissa, scale zero, the sign flag set for a negative value.
pub open spec fn integer_parts(v: int) -> (i128, u32, bool) {
    (v as i128, 0u32, v < 0)
}

/// The reading of registers of a numeric kind without multiplier.
pub open spec fn plain_reading(kind: NumericKind, v: int, t: Timestamp) -> Result<ReadingView, ParseError> {
    Ok(ReadingView::Value(StorageView::Number(kind, integer_parts(v), t)))
}

/// Law: integer registers are read most significant word first; the signed
/// kinds read in two's complement, so registers whose first word has its top
/// bit set read as their unsigned value minus 2^16, 2^32 or 2^64 by width;
/// unsigned kinds read their unsigned value; registers that all hold
/// `0xFFFF` (no reading) read as zero, and so does the largest value of a
/// signed kind (`0x7FFF` then `0xFFFF` words). Shown without a multiplier.
pub proof fn law_integer_registers(data: Seq<u16>, t: Timestamp)
    ensures
        data.len() == 1 && 0x8000 <= data[0] < 0xFFFF ==> parse_spec(
            RegisterKindStorage::S16(NumericRegisterKind { multiplier: None }),
            data,
            t,
        ) == plain_reading(NumericKind::S16, data[0] - 0x1_0000, t),
        data.len() == 2 && 0x8000 <= data[0] && !(data[0] == 0xFFFF && data[1] == 0xFFFF)
            ==> parse_spec(RegisterKindStorage::S32(NumericRegisterKind { multiplier: None }), data, t)
            == plain_reading(NumericKind::S32, 0x1_0000 * data[0] + data[1] - 0x1_0000_0000, t),
        data.len() == 4 && 0x8000 <= data[0] && !(data[0] == 0xFFFF && data[1] == 0xFFFF && data[2]
            == 0xFFFF && data[3] == 0xFFFF) ==> parse_spec(
            RegisterKindStorage::S64(NumericRegisterKind { multiplier: None }),
            data,
            t,
        ) == plain_reading(
            NumericKind::S64,
            0x1_0000_0000_0000 * data[0] + 0x1_0000_0000 * data[1] + 0x1_0000 * data[2] + data[3]
                - 0x1_0000_0000_0000_0000,
            t,
        ),
        data.len() == 4 && data[0] < 0x7FFF ==> parse_spec(
            RegisterKindStorage::S64(NumericRegisterKind { multiplier: None }),
            data,
            t,
        ) == plain_reading(
            NumericKind::S64,
            0x1_0000_0000_0000 * data[0] + 0x1_0000_0000 * data[1] + 0x1_0000 * data[2] + data[3],
            t,
        ),
        data.len() == 1 && data[0] < 0x7FFF ==> parse_spec(
            RegisterKindStorage::S16(NumericRegisterKind { multiplier: None }),
            data,
            t,
        ) == plain_reading(NumericKind::S16, data[0] as int, t),
        data.len() == 1 && data[0] < 0xFFFF ==> parse_spec(
            RegisterKindStorage::U16(NumericRegisterKind { multiplier: None }),
            data,
            t,
        ) == plain_reading(NumericKind::U16, data[0] as int, t),
        data.len() == 2 && !(data[0] == 0xFFFF && data[1] == 0xFFFF) ==> parse_spec(
            RegisterKindStorage::U32(NumericRegisterKind { multiplier: None }),
            data,
            t,
        ) == plain_reading(NumericKind::U32, 0x1_0000 * data[0] + data[1], t),
        data.len() == 4 && !(data[0] == 0xFFFF && data[1] == 0xFFFF && data[2] == 0xFFFF && data[3]
            == 0xFFFF) ==> parse_spec(RegisterKindStorage::U64(NumericRegisterKind { multiplier: None }), data, t)
            == plain_reading(
            NumericKind::U64,
            0x1_0000_0000_0000 * data[0] + 0x1_0000_0000 * data[1] + 0x1_0000 * data[2] + data[3],
            t,
        ),
        data.len() == 4 && data[0] == 0xFFFF && data[1] == 0xFFFF && data[2] == 0xFFFF && data[3]
            == 0xFFFF ==> parse_spec(RegisterKindStorage::S64(NumericRegisterKind { multiplier: None }), data, t)
            == plain_reading(NumericKind::S64, 0, t),
        data.len() == 2 && data[0] < 0x7FFF ==> parse_spec(
            RegisterKindStorage::S32(NumericRegisterKind { multiplier: None }),
            data,
            t,
        ) == plain_reading(NumericKind::S32, 0x1_0000 * data[0] + data[1], t),
        data.len() == 1 && data[0] == 0x7FFF ==> parse_spec(
            RegisterKindStorage::S16(NumericRegisterKind { multiplier: None }),
            data,
            t,
        ) == plain_reading(NumericKind::S16, 0, t),
        data.len() == 2 && data[0] == 0x7FFF && data[1] == 0xFFFF ==> parse_spec(
            RegisterKindStorage::S32(NumericRegisterKind { multiplier: None }),
            data,
            t,
        ) == plain_reading(NumericKind::S32, 0, t),
        data.len() == 4 && data[0] == 0x7FFF && data[1] == 0xFFFF && data[2] == 0xFFFF && data[3]
            == 0xFFFF ==> parse_spec(RegisterKindStorage::S64(NumericRegisterKind { multiplier: None }), data, t)
            == plain_reading(NumericKind::S64, 0, t),
{
    reveal_with_fuel(be_word_value, 5);
    if data.len() == 1 {
        assert(data.drop_last().len() == 0);
        assert(be_word_value(data) == data[0]);
        assert(data[0] != 0xFFFF ==> !all_unset(data));
    } else if data.len() == 2 {
        assert(data.drop_last().drop_last().len() == 0);
        assert(data.drop_last()[0] == data[0]);
        assert(be_word_value(data) == 0x1_0000 * data[0] + data[1]);
        assert(!(data[0] == 0xFFFF && data[1] == 0xFFFF) ==> !all_unset(data));
    } else if data.len() == 4 {
        let d3 = data.drop_last();
        let d2 = d3.drop_last();
        let d1 = d2.drop_last();
        assert(d1.drop_last().len() == 0);
        assert(d1[0] == data[0] && d2[1] == data[1] && d3[2] == data[2]);
        assert(be_word_value(data) == 0x1_0000_0000_0000 * data[0] + 0x1_0000_0000 * data[1] + 0x1_0000
            * data[2] + data[3]);
        assert(!(data[0] == 0xFFFF && data[1] == 0xFFFF && data[2] == 0xFFFF && data[3] == 0xFFFF)
            ==> !all_unset(data));
        if data[0] == 0xFFFF && data[1] == 0xFFFF && data[2] == 0xFFFF && data[3] == 0xFFFF {
            assert(all_unset(data));
        }
    }
}

} // verus!
