//! Result records handed to formatters.

use vstd::prelude::*;

use crate::parser::ast::Value;

pub mod text;

verus! {

/// A match as reported to users: where it was found, what was read, how sure the
/// identification is, and the rules that led to it.
#[derive(Debug, Clone, PartialEq)]
pub struct MatchResult {
    /// The description of the match
    pub message: String,
    /// Where the matched data starts
    pub offset: usize,
    /// How many bytes the matched data spans
    pub length: usize,
    /// The data that matched
    pub value: Value,
    /// Names of the rules on the way to this match
    pub rule_path: Vec<String>,
    /// Confidence from 0 to 100
    pub confidence: u8,
    /// MIME type of the identified format, if known
    pub mime_type: Option<String>,
}

/// Bytes spanned by a value: its bytes, its UTF-8 encoding, or eight for an integer.
pub open spec fn value_length(v: Value) -> nat {
    match v {
        Value::Bytes(b) => b@.len(),
        Value::String(s) => vstd::utf8::encode_utf8(s@).len(),
        _ => 8,
    }
}

/// A confidence clamped to at most 100.
pub open spec fn clamped(c: u8) -> u8 {
    if c > 100 {
        100
    } else {
        c
    }
}

fn clamp_confidence(c: u8) -> (r: u8)
    ensures
        r == clamped(c),
{
    if c > 100 {
        100
    } else {
        c
    }
}

impl MatchResult {
    /// A match with moderate confidence (50), no rule path and no MIME type; its
    /// length is that of `value`.
    pub fn new(message: String, offset: usize, value: Value) -> (r: Self)
        ensures
            r.message == message,
            r.offset == offset,
            r.length == value_length(value) as usize,
            r.value == value,
            r.rule_path@.len() == 0,
            r.confidence == 50,
            r.mime_type is None,
    {
        let length: usize = match &value {
            Value::Bytes(bytes) => bytes.len(),
            Value::String(s) => s.as_str().len(),
            Value::Uint(_) | Value::Int(_) => 8,
        };
        MatchResult {
            message,
            offset,
            length,
            value,
            rule_path: Vec::new(),
            confidence: 50,
            mime_type: None,
        }
    }

    /// A match with every field given; the confidence is clamped to at most 100.
    pub fn with_metadata(
        message: String,
        offset: usize,
        length: usize,
        value: Value,
        rule_path: Vec<String>,
        confidence: u8,
        mime_type: Option<String>,
    ) -> (r: Self)
        ensures
            r.message == message,
            r.offset == offset,
            r.length == length,
            r.value == value,
            r.rule_path == rule_path,
            r.confidence == clamped(confidence),
            r.mime_type == mime_type,
    {
        MatchResult {
            message,
            offset,
            length,
            value,
            rule_path,
            confidence: clamp_confidence(confidence),
            mime_type,
        }
    }

    /// Sets the confidence, clamped to at most 100.
    pub fn set_confidence(&mut self, confidence: u8)
        ensures
            *final(self) == (MatchResult { confidence: clamped(confidence), ..*old(self) }),
    {
        self.confidence = clamp_confidence(confidence);
    }

    /// Appends a rule name to the path.
    pub fn add_rule_path(&mut self, rule_name: String)
        ensures
            final(self).rule_path@ == old(self).rule_path@.push(rule_name),
            final(self).message == old(self).message,
            final(self).offset == old(self).offset,
            final(self).length == old(self).length,
            final(self).value == old(self).value,
            final(self).confidence == old(self).confidence,
            final(self).mime_type == old(self).mime_type,
    {
        self.rule_path.push(rule_name);
    }

    /// Sets the MIME type.
    pub fn set_mime_type(&mut self, mime_type: Option<String>)
        ensures
            *final(self) == (MatchResult { mime_type, ..*old(self) }),
    {
        self.mime_type = mime_type;
    }
}

/// The position of the most confident match (the last one among equals), or `None`
/// when there is no match.
pub fn primary_match_index(matches: &[MatchResult]) -> (r: Option<usize>)
    ensures
        matches@.len() == 0 <==> r is None,
        r matches Some(i) ==> {
            &&& i < matches@.len()
            &&& forall|j: int|
                0 <= j < matches@.len() ==> matches@[j].confidence <= matches@[i as int].confidence
            &&& forall|j: int|
                i < j < matches@.len() ==> matches@[j].confidence < matches@[i as int].confidence
        },
{
    if matches.len() == 0 {
        return None;
    }
    let mut best: usize = 0;
    let mut i: usize = 1;
    while i < matches.len()
        invariant
            0 < i <= matches@.len(),
            best < i,
            forall|j: int| 0 <= j < i ==> matches@[j].confidence <= matches@[best as int].confidence,
            forall|j: int| best < j < i ==> matches@[j].confidence < matches@[best as int].confidence,
        decreases matches@.len() - i,
    {
        if matches[i].confidence >= matches[best].confidence {
            best = i;
        }
        i = i + 1;
    }
    Some(best)
}

} // verus!
