//! Rule tree vocabulary: where to look, how to decode, how to compare.

use vstd::prelude::*;

verus! {

/// Where the bytes that a rule tests are found.
#[derive(Debug, Clone, PartialEq, Eq, Structural)]
pub enum OffsetSpec {
    /// Position from the start of the buffer; negative values count from its end.
    Absolute(i64),
    /// Read a pointer at `base_offset`, decode it as `pointer_type` in byte order
    /// `endian`, and add `adjustment`.
    Indirect {
        /// Where the pointer is stored
        base_offset: i64,
        /// How the pointer is encoded
        pointer_type: TypeKind,
        /// Added to the pointer value
        adjustment: i64,
        /// Byte order of the pointer
        endian: Endianness,
    },
    /// Position relative to where the previous match ended.
    Relative(i64),
    /// Position from the end of the buffer (negative values move towards its start).
    FromEnd(i64),
}

/// How the bytes at a resolved position are decoded.
#[derive(Debug, Clone, PartialEq, Eq, Structural)]
pub enum TypeKind {
    /// One byte, unsigned
    Byte,
    /// Two bytes
    Short {
        /// Byte order
        endian: Endianness,
        /// Whether the bits are read as two's complement
        signed: bool,
    },
    /// Four bytes
    Long {
        /// Byte order
        endian: Endianness,
        /// Whether the bits are read as two's complement
        signed: bool,
    },
    /// A run of text bytes (not decodable by this engine)
    String {
        /// Upper bound on the bytes to scan
        max_length: Option<usize>,
    },
}

/// Comparison applied between the decoded value and a rule's literal.
#[derive(Debug, Clone, Copy, PartialEq, Eq, Structural)]
pub enum Operator {
    /// Same variant and same payload
    Equal,
    /// Negation of `Equal`
    NotEqual,
    /// Non-zero bitwise AND of two integers
    BitwiseAnd,
}

/// A decoded value, or the literal a rule compares against.
#[derive(Debug, Clone, PartialEq, Eq)]
pub enum Value {
    /// Unsigned integer
    Uint(u64),
    /// Signed integer
    Int(i64),
    /// Byte sequence
    Bytes(Vec<u8>),
    /// Text
    String(String),
}

/// Byte order of a multi-byte integer.
#[derive(Debug, Clone, Copy, PartialEq, Eq, Structural)]
pub enum Endianness {
    /// Least significant byte first
    Little,
    /// Most significant byte first
    Big,
    /// The byte order of the machine doing the evaluation
    Native,
}

/// One node of a rule tree.
#[derive(Debug)]
pub struct MagicRule {
    /// Where to read
    pub offset: OffsetSpec,
    /// How to decode what is read
    pub typ: TypeKind,
    /// How to compare the decoded value with `value`
    pub op: Operator,
    /// The literal the decoded value is compared with
    pub value: Value,
    /// Description reported when the rule matches
    pub message: String,
    /// Rules tried only when this one matches
    pub children: Vec<MagicRule>,
    /// Nesting level: 0 for a root, one more than the parent for a child
    pub level: u32,
}

} // verus!
