//! Resolution of offset specifications to positions inside a buffer.

use vstd::prelude::*;

use crate::evaluator::types::{
    is_byte_order, read_result, read_typed_value_in,
};
use crate::parser::ast::{Endianness, OffsetSpec, TypeKind, Value};
use crate::render::{decimal, push_decimal};
use crate::{reports, LibmagicError};

verus! {

/// Why an offset could not be resolved.
#[derive(Debug)]
pub enum OffsetError {
    /// The position lies outside the buffer
    BufferOverrun {
        /// The position asked for
        offset: usize,
        /// Length of the buffer
        buffer_len: usize,
    },
    /// The offset specification cannot be used
    InvalidOffset {
        /// Why
        reason: String,
    },
    /// Offset arithmetic left the range of the integer types
    ArithmeticOverflow,
}

/// The message of an offset error.
pub open spec fn offset_error_text(e: OffsetError) -> Seq<char> {
    match e {
        OffsetError::BufferOverrun { offset, buffer_len } => "Buffer overrun: offset "@ + decimal(
            offset as nat,
        ) + " is beyond buffer length "@ + decimal(buffer_len as nat),
        OffsetError::InvalidOffset { reason } => "Invalid offset: "@ + reason@,
        OffsetError::ArithmeticOverflow => "Arithmetic overflow in offset calculation"@,
    }
}

impl OffsetError {
    /// Human-readable description of the error.
    pub fn to_string(&self) -> (r: String)
        ensures
            r@ == offset_error_text(*self),
    {
        match self {
            OffsetError::BufferOverrun { offset, buffer_len } => {
                let mut s = String::from_str("Buffer overrun: offset ");
                push_decimal(&mut s, *offset as u64);
                s.append(" is beyond buffer length ");
                push_decimal(&mut s, *buffer_len as u64);
                s
            },
            OffsetError::InvalidOffset { reason } => {
                let mut s = String::from_str("Invalid offset: ");
                s.append(reason.as_str());
                s
            },
            OffsetError::ArithmeticOverflow => String::from_str(
                "Arithmetic overflow in offset calculation",
            ),
        }
    }
}

/// Where an absolute offset lands in a buffer of `len` bytes: from the start when
/// non-negative, from the end when negative.
pub open spec fn absolute_position(offset: i64, len: usize) -> Result<usize, OffsetError> {
    if offset >= 0 {
        if offset as int > usize::MAX as int {
            Err(OffsetError::ArithmeticOverflow)
        } else if offset as int >= len as int {
            Err(OffsetError::BufferOverrun { offset: offset as usize, buffer_len: len })
        } else {
            Ok(offset as usize)
        }
    } else if offset == i64::MIN || -offset > usize::MAX as int {
        Err(OffsetError::ArithmeticOverflow)
    } else if -offset > len as int {
        Err(OffsetError::BufferOverrun { offset: 0, buffer_len: len })
    } else {
        Ok((len + offset) as usize)
    }
}

/// An offset result with its error turned into its message.
pub open spec fn with_text(r: Result<usize, OffsetError>) -> Result<usize, Seq<char>> {
    match r {
        Ok(p) => Ok(p),
        Err(e) => Err(offset_error_text(e)),
    }
}

/// A position `p` computed by arithmetic, checked against a buffer of `len` bytes.
pub open spec fn checked_position(p: int, len: usize) -> Result<usize, Seq<char>> {
    if p < 0 || p > usize::MAX as int {
        Err(offset_error_text(OffsetError::ArithmeticOverflow))
    } else if p >= len {
        Err(offset_error_text(OffsetError::BufferOverrun { offset: p as usize, buffer_len: len }))
    } else {
        Ok(p as usize)
    }
}

/// `t` with its byte order replaced by `e` (types without a byte order are unchanged).
pub open spec fn with_order(t: TypeKind, e: Endianness) -> TypeKind {
    match t {
        TypeKind::Short { signed, .. } => TypeKind::Short { endian: e, signed },
        TypeKind::Long { signed, .. } => TypeKind::Long { endian: e, signed },
        _ => t,
    }
}

/// The number an integer value stands for.
pub open spec fn number_of(v: Value) -> int {
    match v {
        Value::Uint(u) => u as int,
        Value::Int(i) => i as int,
        _ => 0,
    }
}

/// The position a pointer value `v` plus `adjustment` designates, resolved as an
/// absolute offset.
pub open spec fn pointer_target(v: Value, adjustment: i64, len: usize) -> Result<usize, Seq<char>> {
    let p = number_of(v) + adjustment;
    if p < i64::MIN as int || p > i64::MAX as int {
        Err(offset_error_text(OffsetError::ArithmeticOverflow))
    } else {
        with_text(absolute_position(p as i64, len))
    }
}

/// Where `spec` designates in buffer `b`, when the previous match ended at `cursor`
/// and `Native` integers are read in byte order `host`; or the message of the failure.
pub open spec fn resolution(spec: OffsetSpec, b: Seq<u8>, cursor: usize, host: Endianness) -> Result<
    usize,
    Seq<char>,
> {
    let len = b.len() as usize;
    match spec {
        OffsetSpec::Absolute(n) => with_text(absolute_position(n, len)),
        OffsetSpec::FromEnd(n) => with_text(absolute_position(n, len)),
        OffsetSpec::Relative(n) => checked_position(cursor + n, len),
        OffsetSpec::Indirect { base_offset, pointer_type, adjustment, endian } => {
            match absolute_position(base_offset, len) {
                Err(e) => Err(offset_error_text(e)),
                Ok(base) => {
                    match read_result(b, base, with_order(pointer_type, endian), host) {
                        Err(m) => Err(m),
                        Ok(v) => pointer_target(v, adjustment, len),
                    }
                },
            }
        },
    }
}

/// Resolves an absolute offset: non-negative values count from the start of the
/// buffer, negative values from its end.
pub fn resolve_absolute_offset(offset: i64, buffer: &[u8]) -> (r: Result<usize, OffsetError>)
    ensures
        r == absolute_position(offset, buffer@.len() as usize),
{
    let buffer_len = buffer.len();
    if offset >= 0 {
        if offset as i128 > usize::MAX as i128 {
            return Err(OffsetError::ArithmeticOverflow);
        }
        let abs_offset = offset as usize;
        if abs_offset >= buffer_len {
            return Err(OffsetError::BufferOverrun { offset: abs_offset, buffer_len });
        }
        Ok(abs_offset)
    } else {
        if offset == i64::MIN {
            return Err(OffsetError::ArithmeticOverflow);
        }
        let from_end = -offset;
        if from_end as i128 > usize::MAX as i128 {
            return Err(OffsetError::ArithmeticOverflow);
        }
        let from_end = from_end as usize;
        if from_end > buffer_len {
            return Err(OffsetError::BufferOverrun { offset: 0, buffer_len });
        }
        Ok(buffer_len - from_end)
    }
}

fn absolute_with_text(offset: i64, buffer: &[u8]) -> (r: Result<usize, LibmagicError>)
    ensures
        reports(r, with_text(absolute_position(offset, buffer@.len() as usize))),
{
    match resolve_absolute_offset(offset, buffer) {
        Ok(p) => Ok(p),
        Err(e) => Err(LibmagicError::EvaluationError(e.to_string())),
    }
}

fn position_from(p: i128, buffer: &[u8]) -> (r: Result<usize, LibmagicError>)
    ensures
        reports(r, checked_position(p as int, buffer@.len() as usize)),
{
    if p < 0 || p > usize::MAX as i128 {
        return Err(
            LibmagicError::EvaluationError(OffsetError::ArithmeticOverflow.to_string()),
        );
    }
    let p = p as usize;
    if p >= buffer.len() {
        let e = OffsetError::BufferOverrun { offset: p, buffer_len: buffer.len() };
        return Err(LibmagicError::EvaluationError(e.to_string()));
    }
    Ok(p)
}

fn type_with_order(t: &TypeKind, e: Endianness) -> (r: TypeKind)
    ensures
        r == with_order(*t, e),
{
    match t {
        TypeKind::Byte => TypeKind::Byte,
        TypeKind::Short { signed, .. } => TypeKind::Short { endian: e, signed: *signed },
        TypeKind::Long { signed, .. } => TypeKind::Long { endian: e, signed: *signed },
        TypeKind::String { max_length } => TypeKind::String { max_length: *max_length },
    }
}

/// Resolves `spec` in `buffer`, with the previous match ending at `current_offset`
/// and `Native` integers read in byte order `host`.
pub fn resolve_offset_in(
    spec: &OffsetSpec,
    buffer: &[u8],
    current_offset: usize,
    host: Endianness,
) -> (r: Result<usize, LibmagicError>)
    requires
        is_byte_order(host),
    ensures
        reports(r, resolution(*spec, buffer@, current_offset, host)),
{
    match spec {
        OffsetSpec::Absolute(offset) => absolute_with_text(*offset, buffer),
        OffsetSpec::FromEnd(offset) => absolute_with_text(*offset, buffer),
        OffsetSpec::Relative(delta) => position_from(
            current_offset as i128 + *delta as i128,
            buffer,
        ),
        OffsetSpec::Indirect { base_offset, pointer_type, adjustment, endian } => {
            let base = match resolve_absolute_offset(*base_offset, buffer) {
                Ok(p) => p,
                Err(e) => {
                    return Err(LibmagicError::EvaluationError(e.to_string()));
                },
            };
            let t = type_with_order(pointer_type, *endian);
            let v = match read_typed_value_in(buffer, base, &t, host) {
                Ok(v) => v,
                Err(e) => {
                    return Err(LibmagicError::EvaluationError(e.to_string()));
                },
            };
            let n: i128 = match v {
                Value::Uint(u) => u as i128,
                Value::Int(i) => i as i128,
                _ => 0,
            };
            let p = n + *adjustment as i128;
            if p < i64::MIN as i128 || p > i64::MAX as i128 {
                return Err(
                    LibmagicError::EvaluationError(OffsetError::ArithmeticOverflow.to_string()),
                );
            }
            absolute_with_text(p as i64, buffer)
        },
    }
}

/// Resolves `spec` at the start of an evaluation (no previous match), reading
/// `Native` integers in this host's byte order.
pub fn resolve_offset(spec: &OffsetSpec, buffer: &[u8]) -> (r: Result<usize, LibmagicError>)
    ensures
        exists|h: Endianness| is_byte_order(h) && reports(r, resolution(*spec, buffer@, 0, h)),
{
    let host = crate::evaluator::types::host_byte_order();
    resolve_offset_in(spec, buffer, 0, host)
}

/// Every position an offset specification resolves to lies inside the buffer.
pub proof fn lemma_resolution_within_bounds(
    spec: OffsetSpec,
    b: Seq<u8>,
    cursor: usize,
    host: Endianness,
)
    ensures
        resolution(spec, b, cursor, host) is Ok ==> resolution(spec, b, cursor, host)->Ok_0
            < b.len(),
{
}

} // verus!
