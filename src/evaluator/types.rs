//! Decoding of typed values from a byte buffer, with bounds checks.

use vstd::prelude::*;

use byteorder::{BigEndian, ByteOrder, LittleEndian, NativeEndian};

use crate::parser::ast::{Endianness, TypeKind, Value};
use crate::render::{decimal, push_decimal};

verus! {

/// Why a typed read failed.
#[derive(Debug, PartialEq, Eq)]
pub enum TypeReadError {
    /// The value does not fit in the buffer at the requested offset
    BufferOverrun {
        /// Requested offset
        offset: usize,
        /// Length of the buffer
        buffer_len: usize,
    },
    /// The type cannot be decoded by this engine
    UnsupportedType {
        /// Name of the type
        name: String,
    },
}

/// The message of a buffer overrun during a typed read.
pub open spec fn read_overrun_text(offset: usize, buffer_len: usize) -> Seq<char> {
    "Buffer overrun: attempted to read at offset "@ + decimal(offset as nat)
        + " but buffer length is "@ + decimal(buffer_len as nat)
}

/// The message of a read error.
pub open spec fn read_error_text(e: TypeReadError) -> Seq<char> {
    match e {
        TypeReadError::BufferOverrun { offset, buffer_len } => read_overrun_text(
            offset,
            buffer_len,
        ),
        TypeReadError::UnsupportedType { name } => "Unsupported type: "@ + name@,
    }
}

impl TypeReadError {
    /// Human-readable description of the error.
    pub fn to_string(&self) -> (r: String)
        ensures
            r@ == read_error_text(*self),
    {
        match self {
            TypeReadError::BufferOverrun { offset, buffer_len } => {
                let mut s = String::from_str("Buffer overrun: attempted to read at offset ");
                push_decimal(&mut s, *offset as u64);
                s.append(" but buffer length is ");
                push_decimal(&mut s, *buffer_len as u64);
                s
            },
            TypeReadError::UnsupportedType { name } => {
                let mut s = String::from_str("Unsupported type: ");
                s.append(name.as_str());
                s
            },
        }
    }
}

/// Number of bytes a type occupies (a string is never decoded, so it has none).
pub open spec fn type_size(t: TypeKind) -> nat {
    match t {
        TypeKind::Byte => 1,
        TypeKind::Short { .. } => 2,
        TypeKind::Long { .. } => 4,
        TypeKind::String { .. } => 0,
    }
}

/// A concrete byte order: the host's order is always little or big.
pub open spec fn is_byte_order(h: Endianness) -> bool {
    h is Little || h is Big
}

/// The byte order `e` stands for on a host whose order is `host`.
pub open spec fn effective_order(e: Endianness, host: Endianness) -> Endianness {
    if e is Native {
        host
    } else {
        e
    }
}

/// Two bytes at `i`, least significant first.
pub open spec fn le16(b: Seq<u8>, i: int) -> int {
    b[i] + 256 * b[i + 1]
}

/// Two bytes at `i`, most significant first.
pub open spec fn be16(b: Seq<u8>, i: int) -> int {
    256 * b[i] + b[i + 1]
}

/// Four bytes at `i`, least significant first.
pub open spec fn le32(b: Seq<u8>, i: int) -> int {
    b[i] + 256 * b[i + 1] + 65536 * b[i + 2] + 16777216 * b[i + 3]
}

/// Four bytes at `i`, most significant first.
pub open spec fn be32(b: Seq<u8>, i: int) -> int {
    16777216 * b[i] + 65536 * b[i + 1] + 256 * b[i + 2] + b[i + 3]
}

/// The unsigned number held by `width` bytes at `i` in byte order `order`.
pub open spec fn unsigned_at(b: Seq<u8>, i: int, width: nat, order: Endianness) -> int {
    if width == 1 {
        b[i] as int
    } else if width == 2 {
        if order is Big {
            be16(b, i)
        } else {
            le16(b, i)
        }
    } else if order is Big {
        be32(b, i)
    } else {
        le32(b, i)
    }
}

/// The two's complement reading of a `width`-byte unsigned number `u`.
pub open spec fn as_signed(u: int, width: nat) -> int {
    if width == 2 {
        if u >= 0x8000 {
            u - 0x10000
        } else {
            u
        }
    } else if u >= 0x8000_0000 {
        u - 0x1_0000_0000
    } else {
        u
    }
}

/// The value a fixed-width integer of `width` bytes at `i` decodes to.
pub open spec fn integer_value(
    b: Seq<u8>,
    i: int,
    width: nat,
    order: Endianness,
    signed: bool,
) -> Value {
    let u = unsigned_at(b, i, width, order);
    if signed {
        Value::Int(as_signed(u, width) as i64)
    } else {
        Value::Uint(u as u64)
    }
}

/// A type that occupies a fixed number of bytes (every type but a string).
pub open spec fn is_fixed_width(t: TypeKind) -> bool {
    !(t is String)
}

/// The value that the fixed-width type `t` decodes to at `i`, on a host of byte
/// order `host` (a string is never decoded; see `read_result`).
pub open spec fn decoded(b: Seq<u8>, i: int, t: TypeKind, host: Endianness) -> Value
    recommends
        is_fixed_width(t),
{
    match t {
        TypeKind::Byte => Value::Uint(b[i] as u64),
        TypeKind::Short { endian, signed } => integer_value(
            b,
            i,
            2,
            effective_order(endian, host),
            signed,
        ),
        TypeKind::Long { endian, signed } => integer_value(
            b,
            i,
            4,
            effective_order(endian, host),
            signed,
        ),
        TypeKind::String { .. } => Value::Uint(0),
    }
}

/// Outcome of decoding the fixed-width type `t` at `offset` (only meaningful for
/// fixed-width types: a string read always fails, as `read_outcome` and
/// `read_result` state).
pub open spec fn fixed_read(b: Seq<u8>, offset: usize, t: TypeKind, host: Endianness) -> Result<
    Value,
    TypeReadError,
>
    recommends
        is_fixed_width(t),
{
    if offset + type_size(t) <= b.len() {
        Ok(decoded(b, offset as int, t, host))
    } else {
        Err(TypeReadError::BufferOverrun { offset, buffer_len: b.len() as usize })
    }
}

/// What a typed read returns on a host of byte order `host`.
pub open spec fn read_outcome(
    r: Result<Value, TypeReadError>,
    b: Seq<u8>,
    offset: usize,
    t: TypeKind,
    host: Endianness,
) -> bool {
    if t is String {
        r matches Err(TypeReadError::UnsupportedType { name }) && name@ == "String"@
    } else {
        r == fixed_read(b, offset, t, host)
    }
}

/// What a typed read yields on a host of byte order `host`, or the message of its failure.
pub open spec fn read_result(b: Seq<u8>, offset: usize, t: TypeKind, host: Endianness) -> Result<
    Value,
    Seq<char>,
> {
    if t is String {
        Err("Unsupported type: "@ + "String"@)
    } else {
        match fixed_read(b, offset, t, host) {
            Ok(v) => Ok(v),
            Err(e) => Err(read_error_text(e)),
        }
    }
}

/// Relies on byteorder's LittleEndian::read_u16: the first two bytes, least significant first.
#[verifier::external_body]
fn le_u16(b: &[u8]) -> (r: u16)
    requires
        b@.len() >= 2,
    ensures
        r as int == le16(b@, 0),
{
    LittleEndian::read_u16(b)
}

/// Relies on byteorder's BigEndian::read_u16: the first two bytes, most significant first.
#[verifier::external_body]
fn be_u16(b: &[u8]) -> (r: u16)
    requires
        b@.len() >= 2,
    ensures
        r as int == be16(b@, 0),
{
    BigEndian::read_u16(b)
}

/// Relies on byteorder's LittleEndian::read_u32: the first four bytes, least significant first.
#[verifier::external_body]
fn le_u32(b: &[u8]) -> (r: u32)
    requires
        b@.len() >= 4,
    ensures
        r as int == le32(b@, 0),
{
    LittleEndian::read_u32(b)
}

/// Relies on byteorder's BigEndian::read_u32: the first four bytes, most significant first.
#[verifier::external_body]
fn be_u32(b: &[u8]) -> (r: u32)
    requires
        b@.len() >= 4,
    ensures
        r as int == be32(b@, 0),
{
    BigEndian::read_u32(b)
}

/// Relies on byteorder's NativeEndian::read_u16: the first two bytes in the host's
/// byte order, which is little or big.
#[verifier::external_body]
fn native_u16(b: &[u8]) -> (r: u16)
    requires
        b@.len() >= 2,
    ensures
        r as int == le16(b@, 0) || r as int == be16(b@, 0),
{
    NativeEndian::read_u16(b)
}

/// The byte order of this host, found by decoding a probe in native order.
pub fn host_byte_order() -> (r: Endianness)
    ensures
        is_byte_order(r),
{
    let probe: Vec<u8> = vec![1u8, 0u8];
    let v = native_u16(probe.as_slice());
    if v == 1 {
        Endianness::Little
    } else {
        Endianness::Big
    }
}

/// Reads the byte at `offset` as an unsigned value.
pub fn read_byte(buffer: &[u8], offset: usize) -> (r: Result<Value, TypeReadError>)
    ensures
        r == fixed_read(buffer@, offset, TypeKind::Byte, Endianness::Little),
{
    if offset < buffer.len() {
        Ok(Value::Uint(buffer[offset] as u64))
    } else {
        Err(TypeReadError::BufferOverrun { offset, buffer_len: buffer.len() })
    }
}

fn fits(buffer: &[u8], offset: usize, width: usize) -> (r: bool)
    ensures
        r == (offset + width <= buffer@.len()),
        buffer@.len() == buffer.len(),
{
    offset <= buffer.len() && buffer.len() - offset >= width
}

fn read_short_in(buffer: &[u8], offset: usize, order: Endianness, signed: bool) -> (r: Result<
    Value,
    TypeReadError,
>)
    requires
        is_byte_order(order),
    ensures
        r == fixed_read(
            buffer@,
            offset,
            TypeKind::Short { endian: order, signed },
            Endianness::Little,
        ),
{
    if !fits(buffer, offset, 2) {
        return Err(TypeReadError::BufferOverrun { offset, buffer_len: buffer.len() });
    }
    let bytes = vstd::slice::slice_subrange(buffer, offset, offset + 2);
    let v: u16 = match order {
        Endianness::Big => be_u16(bytes),
        _ => le_u16(bytes),
    };
    if signed {
        if v >= 0x8000 {
            Ok(Value::Int(v as i64 - 0x10000))
        } else {
            Ok(Value::Int(v as i64))
        }
    } else {
        Ok(Value::Uint(v as u64))
    }
}

fn read_long_in(buffer: &[u8], offset: usize, order: Endianness, signed: bool) -> (r: Result<
    Value,
    TypeReadError,
>)
    requires
        is_byte_order(order),
    ensures
        r == fixed_read(
            buffer@,
            offset,
            TypeKind::Long { endian: order, signed },
            Endianness::Little,
        ),
{
    if !fits(buffer, offset, 4) {
        return Err(TypeReadError::BufferOverrun { offset, buffer_len: buffer.len() });
    }
    let bytes = vstd::slice::slice_subrange(buffer, offset, offset + 4);
    let v: u32 = match order {
        Endianness::Big => be_u32(bytes),
        _ => le_u32(bytes),
    };
    if signed {
        if v >= 0x8000_0000 {
            Ok(Value::Int(v as i64 - 0x1_0000_0000))
        } else {
            Ok(Value::Int(v as i64))
        }
    } else {
        Ok(Value::Uint(v as u64))
    }
}

fn concrete_order(e: Endianness) -> (r: Endianness)
    ensures
        exists|h: Endianness| is_byte_order(h) && r == effective_order(e, h),
        is_byte_order(r),
{
    match e {
        Endianness::Native => {
            let h = host_byte_order();
            assert(is_byte_order(h) && h == effective_order(e, h));
            h
        },
        _ => {
            assert(is_byte_order(Endianness::Little) && e == effective_order(e, Endianness::Little));
            e
        },
    }
}

/// Reads two bytes at `offset` as a 16-bit integer in byte order `endian`.
pub fn read_short(buffer: &[u8], offset: usize, endian: Endianness, signed: bool) -> (r: Result<
    Value,
    TypeReadError,
>)
    ensures
        exists|h: Endianness|
            is_byte_order(h) && r == fixed_read(
                buffer@,
                offset,
                TypeKind::Short { endian, signed },
                h,
            ),
{
    let order = concrete_order(endian);
    let r = read_short_in(buffer, offset, order, signed);
    let ghost h = choose|h: Endianness| is_byte_order(h) && order == effective_order(endian, h);
    assert(r == fixed_read(buffer@, offset, TypeKind::Short { endian, signed }, h));
    r
}

/// Reads four bytes at `offset` as a 32-bit integer in byte order `endian`.
pub fn read_long(buffer: &[u8], offset: usize, endian: Endianness, signed: bool) -> (r: Result<
    Value,
    TypeReadError,
>)
    ensures
        exists|h: Endianness|
            is_byte_order(h) && r == fixed_read(
                buffer@,
                offset,
                TypeKind::Long { endian, signed },
                h,
            ),
{
    let order = concrete_order(endian);
    let r = read_long_in(buffer, offset, order, signed);
    let ghost h = choose|h: Endianness| is_byte_order(h) && order == effective_order(endian, h);
    assert(r == fixed_read(buffer@, offset, TypeKind::Long { endian, signed }, h));
    r
}

/// Decodes `type_kind` at `offset`, reading `Native` integers in byte order `host`.
pub fn read_typed_value_in(buffer: &[u8], offset: usize, type_kind: &TypeKind, host: Endianness) -> (r:
    Result<Value, TypeReadError>)
    requires
        is_byte_order(host),
    ensures
        read_outcome(r, buffer@, offset, *type_kind, host),
{
    match type_kind {
        TypeKind::Byte => read_byte(buffer, offset),
        TypeKind::Short { endian, signed } => {
            let order = match endian {
                Endianness::Native => host,
                _ => *endian,
            };
            read_short_in(buffer, offset, order, *signed)
        },
        TypeKind::Long { endian, signed } => {
            let order = match endian {
                Endianness::Native => host,
                _ => *endian,
            };
            read_long_in(buffer, offset, order, *signed)
        },
        TypeKind::String { .. } => Err(
            TypeReadError::UnsupportedType { name: String::from_str("String") },
        ),
    }
}

/// Decodes `type_kind` at `offset`, reading `Native` integers in this host's byte order.
pub fn read_typed_value(buffer: &[u8], offset: usize, type_kind: &TypeKind) -> (r: Result<
    Value,
    TypeReadError,
>)
    ensures
        exists|h: Endianness| is_byte_order(h) && read_outcome(r, buffer@, offset, *type_kind, h),
{
    let host = host_byte_order();
    read_typed_value_in(buffer, offset, type_kind, host)
}

/// A typed read stays inside the buffer: it succeeds only when every byte of the
/// value lies in `b`, and a value that does not fit is always an error.
pub proof fn lemma_read_within_bounds(b: Seq<u8>, offset: usize, t: TypeKind, host: Endianness)
    ensures
        read_result(b, offset, t, host) is Ok ==> 0 < type_size(t) && offset + type_size(t)
            <= b.len(),
        offset + type_size(t) > b.len() ==> read_result(b, offset, t, host) is Err,
{
}

/// Reading the bytes of a value least significant first gives what reading the
/// reversed bytes most significant first gives, for both widths and signednesses.
pub proof fn lemma_endianness_round_trip(
    x0: u8,
    x1: u8,
    x2: u8,
    x3: u8,
    signed: bool,
    host: Endianness,
)
    ensures
        fixed_read(seq![x0, x1], 0, TypeKind::Short { endian: Endianness::Little, signed }, host)
            == fixed_read(
            seq![x1, x0],
            0,
            TypeKind::Short { endian: Endianness::Big, signed },
            host,
        ),
        fixed_read(
            seq![x0, x1, x2, x3],
            0,
            TypeKind::Long { endian: Endianness::Little, signed },
            host,
        ) == fixed_read(
            seq![x3, x2, x1, x0],
            0,
            TypeKind::Long { endian: Endianness::Big, signed },
            host,
        ),
{
}

proof fn lemma_bits16(i: i64, u: u64)
    requires
        -0x8000 <= i < 0x8000,
        u as int == if i < 0 {
            i + 0x10000
        } else {
            i as int
        },
    ensures
        u <= 0xFFFF,
        u == (i as u64) & 0xFFFF,
        i == (u as u16 as i16) as i64,
{
    if i < 0 {
        assert(u == (i + 0x10000i64) as u64);
        assert((i as u64) & 0xFFFF == (i + 0x10000i64) as u64) by (bit_vector)
            requires
                -0x8000i64 <= i < 0i64,
        ;
        assert(i == (((i + 0x10000i64) as u64) as u16 as i16) as i64) by (bit_vector)
            requires
                -0x8000i64 <= i < 0i64,
        ;
    } else {
        assert(u == i as u64);
        assert((i as u64) & 0xFFFF == i as u64) by (bit_vector)
            requires
                0i64 <= i < 0x8000i64,
        ;
        assert(i == ((i as u64) as u16 as i16) as i64) by (bit_vector)
            requires
                0i64 <= i < 0x8000i64,
        ;
    }
}

proof fn lemma_bits32(i: i64, u: u64)
    requires
        -0x8000_0000 <= i < 0x8000_0000,
        u as int == if i < 0 {
            i + 0x1_0000_0000
        } else {
            i as int
        },
    ensures
        u <= 0xFFFF_FFFF,
        u == (i as u64) & 0xFFFF_FFFF,
        i == (u as u32 as i32) as i64,
{
    if i < 0 {
        assert(u == (i + 0x1_0000_0000i64) as u64);
        assert((i as u64) & 0xFFFF_FFFF == (i + 0x1_0000_0000i64) as u64) by (bit_vector)
            requires
                -0x8000_0000i64 <= i < 0i64,
        ;
        assert(i == (((i + 0x1_0000_0000i64) as u64) as u32 as i32) as i64) by (bit_vector)
            requires
                -0x8000_0000i64 <= i < 0i64,
        ;
    } else {
        assert(u == i as u64);
        assert((i as u64) & 0xFFFF_FFFF == i as u64) by (bit_vector)
            requires
                0i64 <= i < 0x8000_0000i64,
        ;
        assert(i == ((i as u64) as u32 as i32) as i64) by (bit_vector)
            requires
                0i64 <= i < 0x8000_0000i64,
        ;
    }
}

/// The unsigned and the signed reading of the same bytes have the same bit
/// pattern, for every byte order: the unsigned value is the signed one's low 16
/// (or 32) bits, and the signed value is the unsigned one sign-extended.
pub proof fn lemma_signed_unsigned_duality(b: Seq<u8>, offset: usize, e: Endianness, host: Endianness)
    ensures
        offset + 2 <= b.len() ==> ({
            let ru = fixed_read(b, offset, TypeKind::Short { endian: e, signed: false }, host);
            let rs = fixed_read(b, offset, TypeKind::Short { endian: e, signed: true }, host);
            &&& ru is Ok && ru->Ok_0 is Uint
            &&& rs is Ok && rs->Ok_0 is Int
            &&& ru->Ok_0->Uint_0 <= 0xFFFF
            &&& ru->Ok_0->Uint_0 == (rs->Ok_0->Int_0 as u64) & 0xFFFF
            &&& rs->Ok_0->Int_0 == (ru->Ok_0->Uint_0 as u16 as i16) as i64
        }),
        offset + 4 <= b.len() ==> ({
            let ru = fixed_read(b, offset, TypeKind::Long { endian: e, signed: false }, host);
            let rs = fixed_read(b, offset, TypeKind::Long { endian: e, signed: true }, host);
            &&& ru is Ok && ru->Ok_0 is Uint
            &&& rs is Ok && rs->Ok_0 is Int
            &&& ru->Ok_0->Uint_0 <= 0xFFFF_FFFF
            &&& ru->Ok_0->Uint_0 == (rs->Ok_0->Int_0 as u64) & 0xFFFF_FFFF
            &&& rs->Ok_0->Int_0 == (ru->Ok_0->Uint_0 as u32 as i32) as i64
        }),
{
    if offset + 2 <= b.len() {
        let t = TypeKind::Short { endian: e, signed: false };
        let us = TypeKind::Short { endian: e, signed: true };
        let u = decoded(b, offset as int, t, host)->Uint_0;
        let i = decoded(b, offset as int, us, host)->Int_0;
        lemma_bits16(i, u);
    }
    if offset + 4 <= b.len() {
        let t = TypeKind::Long { endian: e, signed: false };
        let us = TypeKind::Long { endian: e, signed: true };
        let u = decoded(b, offset as int, t, host)->Uint_0;
        let i = decoded(b, offset as int, us, host)->Int_0;
        lemma_bits32(i, u);
    }
}

} // verus!
