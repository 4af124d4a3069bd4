//! File type identification by evaluating trees of magic rules against a byte buffer.
//!
//! A rule says where to look in the buffer, how to decode the bytes found there and
//! how to compare the decoded value with a literal. Rules form trees: the children of
//! a rule are tried only when the rule itself matches. Every read is bounds-checked,
//! nesting is bounded by the configured recursion limit, and an optional timeout is
//! checked between sibling rules.

use vstd::prelude::*;

pub mod evaluator;
pub mod io;
pub mod output;
pub mod parser;
mod render;

pub use evaluator::{EvaluationContext, MatchResult};
pub use parser::ast::{Endianness, MagicRule, OffsetSpec, Operator, TypeKind, Value};

use render::{decimal, push_decimal};

verus! {

#[verifier::external_type_specification]
#[verifier::external_body]
pub struct ExIoError(std::io::Error);

/// Errors reported by the library.
#[derive(Debug)]
pub enum LibmagicError {
    /// A magic file could not be parsed
    ParseError {
        /// Line of the fault
        line: usize,
        /// What was wrong
        message: String,
    },
    /// A rule could not be evaluated against the buffer
    EvaluationError(String),
    /// An operating-system I/O failure
    IoError(std::io::Error),
    /// The file buffer could not be prepared
    FileBufferError(String),
    /// A configuration or magic file was rejected
    InvalidFormat(String),
    /// Evaluation ran longer than the configured limit
    Timeout {
        /// The configured limit in milliseconds
        timeout_ms: u64,
    },
}

/// Relies on std's `Display` for `std::io::Error`: the operating system's description.
#[verifier::external_body]
pub(crate) fn io_error_text(e: &std::io::Error) -> String {
    e.to_string()
}

/// The message of an error, for every variant whose payload is text or a number.
pub open spec fn error_text(e: LibmagicError) -> Seq<char> {
    match e {
        LibmagicError::ParseError { line, message } => "Parse error at line "@ + decimal(
            line as nat,
        ) + ": "@ + message@,
        LibmagicError::EvaluationError(m) => "Evaluation error: "@ + m@,
        LibmagicError::IoError(_) => "IO error: "@,
        LibmagicError::FileBufferError(m) => "File buffer error: "@ + m@,
        LibmagicError::InvalidFormat(m) => "Invalid magic file format: "@ + m@,
        LibmagicError::Timeout { timeout_ms } => "Evaluation timeout exceeded after "@ + decimal(
            timeout_ms as nat,
        ) + "ms"@,
    }
}

impl LibmagicError {
    /// The error that a failed file buffer is reported as: its message, as a
    /// file buffer error.
    pub fn file_buffer_error(err: &io::IoError) -> (r: Self)
        ensures
            r is FileBufferError,
            (err is BufferOverrun || err is InvalidAccess) ==> (r matches LibmagicError::FileBufferError(m)
                && m@ == io::access_error_text(*err)),
    {
        LibmagicError::FileBufferError(err.to_string())
    }

    /// Human-readable description of the error.
    pub fn to_string(&self) -> (r: String)
        ensures
            !(self is IoError) ==> r@ == error_text(*self),
            self is IoError ==> r@.len() >= error_text(*self).len() && r@.subrange(
                0,
                error_text(*self).len() as int,
            ) == error_text(*self),
    {
        match self {
            LibmagicError::ParseError { line, message } => {
                let mut s = String::from_str("Parse error at line ");
                push_decimal(&mut s, *line as u64);
                s.append(": ");
                s.append(message.as_str());
                s
            },
            LibmagicError::EvaluationError(m) => {
                let mut s = String::from_str("Evaluation error: ");
                s.append(m.as_str());
                s
            },
            LibmagicError::IoError(e) => {
                let mut s = String::from_str("IO error: ");
                let t = io_error_text(e);
                let ghost prefix = s@;
                s.append(t.as_str());
                assert(s@.subrange(0, prefix.len() as int) =~= prefix);
                s
            },
            LibmagicError::FileBufferError(m) => {
                let mut s = String::from_str("File buffer error: ");
                s.append(m.as_str());
                s
            },
            LibmagicError::InvalidFormat(m) => {
                let mut s = String::from_str("Invalid magic file format: ");
                s.append(m.as_str());
                s
            },
            LibmagicError::Timeout { timeout_ms } => {
                let mut s = String::from_str("Evaluation timeout exceeded after ");
                push_decimal(&mut s, *timeout_ms);
                s.append("ms");
                s
            },
        }
    }
}

/// `r` is the success `m` describes, or an evaluation error whose text `m` gives.
pub open spec fn reports<T>(r: Result<T, LibmagicError>, m: Result<T, Seq<char>>) -> bool {
    match m {
        Ok(v) => r == Ok::<T, LibmagicError>(v),
        Err(text) => r matches Err(LibmagicError::EvaluationError(s)) && s@ == text,
    }
}

/// Largest accepted recursion limit.
pub const MAX_RECURSION_LIMIT: u32 = 1000;

/// Largest accepted string length limit (1 MiB).
pub const MAX_STRING_LIMIT: usize = 1_048_576;

/// Largest accepted timeout (5 minutes).
pub const MAX_TIMEOUT_MS: u64 = 300_000;

/// Tunables of one evaluation run.
#[derive(Debug, Clone, Copy, PartialEq, Eq, Structural)]
pub struct EvaluationConfig {
    /// How many levels of child rules may be entered
    pub max_recursion_depth: u32,
    /// Upper bound on the bytes a string read may scan
    pub max_string_length: usize,
    /// Whether a sibling sequence ends at its first matching rule
    pub stop_at_first_match: bool,
    /// Whether callers should map descriptions to MIME types
    pub enable_mime_types: bool,
    /// Wall-clock limit in milliseconds, if any
    pub timeout_ms: Option<u64>,
}

impl Default for EvaluationConfig {
    fn default() -> (r: Self)
        ensures
            r == (EvaluationConfig {
                max_recursion_depth: 20,
                max_string_length: 8192,
                stop_at_first_match: true,
                enable_mime_types: false,
                timeout_ms: None,
            }),
    {
        EvaluationConfig {
            max_recursion_depth: 20,
            max_string_length: 8192,
            stop_at_first_match: true,
            enable_mime_types: false,
            timeout_ms: None,
        }
    }
}

/// The reason a configuration is rejected, or `None` when it is accepted.
pub open spec fn config_fault(c: EvaluationConfig) -> Option<Seq<char>> {
    if c.max_recursion_depth == 0 {
        Some("max_recursion_depth must be greater than 0"@)
    } else if c.max_recursion_depth > MAX_RECURSION_LIMIT {
        Some("max_recursion_depth must not exceed 1000 to prevent stack overflow"@)
    } else if c.max_string_length == 0 {
        Some("max_string_length must be greater than 0"@)
    } else if c.max_string_length > MAX_STRING_LIMIT {
        Some("max_string_length must not exceed 1MB to prevent memory exhaustion"@)
    } else if c.timeout_ms == Some(0u64) {
        Some("timeout_ms must be greater than 0 if specified"@)
    } else if c.timeout_ms is Some && c.timeout_ms->0 > MAX_TIMEOUT_MS {
        Some("timeout_ms must not exceed 300000 (5 minutes) to prevent denial of service"@)
    } else if c.max_recursion_depth > 100 && c.max_string_length > 65536 {
        Some(
            "High recursion depth combined with large string length may cause resource exhaustion"@,
        )
    } else {
        None
    }
}

impl EvaluationConfig {
    /// The default settings.
    pub open spec fn default_spec() -> Self {
        EvaluationConfig {
            max_recursion_depth: 20,
            max_string_length: 8192,
            stop_at_first_match: true,
            enable_mime_types: false,
            timeout_ms: None,
        }
    }

    /// The default configuration: depth 20, strings up to 8192 bytes, stop at the
    /// first match, no MIME mapping, no timeout.
    pub fn new() -> (r: Self)
        ensures
            r == EvaluationConfig::default_spec(),
    {
        EvaluationConfig::default()
    }

    /// Conservative limits for speed: depth 10, strings up to 1024 bytes, stop at the
    /// first match, no MIME mapping, one second.
    pub fn performance() -> (r: Self)
        ensures
            r == (EvaluationConfig {
                max_recursion_depth: 10,
                max_string_length: 1024,
                stop_at_first_match: true,
                enable_mime_types: false,
                timeout_ms: Some(1000),
            }),
    {
        EvaluationConfig {
            max_recursion_depth: 10,
            max_string_length: 1024,
            stop_at_first_match: true,
            enable_mime_types: false,
            timeout_ms: Some(1000),
        }
    }

    /// Generous limits for completeness: depth 50, strings up to 32768 bytes, all
    /// matches, MIME mapping, thirty seconds.
    pub fn comprehensive() -> (r: Self)
        ensures
            r == (EvaluationConfig {
                max_recursion_depth: 50,
                max_string_length: 32768,
                stop_at_first_match: false,
                enable_mime_types: true,
                timeout_ms: Some(30000),
            }),
    {
        EvaluationConfig {
            max_recursion_depth: 50,
            max_string_length: 32768,
            stop_at_first_match: false,
            enable_mime_types: true,
            timeout_ms: Some(30000),
        }
    }

    /// Rejects out-of-range limits and unsafe combinations before any evaluation.
    pub fn validate(&self) -> (r: Result<(), LibmagicError>)
        ensures
            config_fault(*self) is None <==> r is Ok,
            config_fault(*self) is Some ==> (r matches Err(LibmagicError::InvalidFormat(m))
                && m@ == config_fault(*self)->0),
    {
        if self.max_recursion_depth == 0 {
            return Err(
                LibmagicError::InvalidFormat(
                    String::from_str("max_recursion_depth must be greater than 0"),
                ),
            );
        }
        if self.max_recursion_depth > MAX_RECURSION_LIMIT {
            return Err(
                LibmagicError::InvalidFormat(
                    String::from_str(
                        "max_recursion_depth must not exceed 1000 to prevent stack overflow",
                    ),
                ),
            );
        }
        if self.max_string_length == 0 {
            return Err(
                LibmagicError::InvalidFormat(
                    String::from_str("max_string_length must be greater than 0"),
                ),
            );
        }
        if self.max_string_length > MAX_STRING_LIMIT {
            return Err(
                LibmagicError::InvalidFormat(
                    String::from_str(
                        "max_string_length must not exceed 1MB to prevent memory exhaustion",
                    ),
                ),
            );
        }
        if let Some(timeout) = self.timeout_ms {
            if timeout == 0 {
                return Err(
                    LibmagicError::InvalidFormat(
                        String::from_str("timeout_ms must be greater than 0 if specified"),
                    ),
                );
            }
            if timeout > MAX_TIMEOUT_MS {
                return Err(
                    LibmagicError::InvalidFormat(
                        String::from_str(
                            "timeout_ms must not exceed 300000 (5 minutes) to prevent denial of service",
                        ),
                    ),
                );
            }
        }
        if self.max_recursion_depth > 100 && self.max_string_length > 65536 {
            return Err(
                LibmagicError::InvalidFormat(
                    String::from_str(
                        "High recursion depth combined with large string length may cause resource exhaustion",
                    ),
                ),
            );
        }
        Ok(())
    }
}

/// A set of root rules together with the settings to evaluate them with.
#[derive(Debug)]
pub struct MagicDatabase {
    rules: Vec<MagicRule>,
    config: EvaluationConfig,
}

impl MagicDatabase {
    /// The root rules.
    pub closed spec fn spec_rules(&self) -> Seq<MagicRule> {
        self.rules@
    }

    /// The settings evaluations run with.
    pub closed spec fn spec_config(&self) -> EvaluationConfig {
        self.config
    }

    /// Opens a magic database. Magic files are not compiled into rules by this
    /// library, so the database starts without rules and with the default settings.
    pub fn load_from_file(path: &str) -> (r: Result<Self, LibmagicError>)
        ensures
            r matches Ok(db) && db.spec_rules().len() == 0 && db.spec_config()
                == EvaluationConfig::default_spec(),
    {
        Ok(MagicDatabase { rules: Vec::new(), config: EvaluationConfig::new() })
    }

    /// Evaluates the database's rules against `buffer` with its settings, from a
    /// fresh context.
    pub fn evaluate_buffer(&self, buffer: &[u8]) -> (r: Result<Vec<MatchResult>, LibmagicError>)
        ensures
            self.spec_rules().len() == 0 ==> r is Ok && r->Ok_0@.len() == 0,
            exists|h: Endianness|
                evaluator::types::is_byte_order(h) && evaluator::evaluation_reported(
                    r,
                    evaluator::evaluation(self.spec_rules(), buffer@, 0, 0, self.spec_config(), h),
                    self.spec_config(),
                ),
    {
        let rules = self.rules.as_slice();
        assert(rules@ == self.spec_rules());
        let r = evaluator::evaluate_rules_with_config(rules, buffer, self.config);
        proof {
            let h = choose|h: Endianness|
                evaluator::types::is_byte_order(h) && evaluator::evaluation_reported(
                    r,
                    evaluator::evaluation(rules@, buffer@, 0, 0, self.config, h),
                    self.config,
                );
            assert(evaluator::types::is_byte_order(h) && evaluator::evaluation_reported(
                r,
                evaluator::evaluation(self.spec_rules(), buffer@, 0, 0, self.spec_config(), h),
                self.spec_config(),
            ));
        }
        r
    }
}

/// The headline of an evaluation: the message of the first match, or "data" when
/// nothing matched.
pub fn primary_description(matches: &[MatchResult]) -> (r: String)
    ensures
        matches@.len() == 0 ==> r@ == "data"@,
        matches@.len() > 0 ==> r@ == matches@[0].message@,
{
    if matches.len() == 0 {
        String::from_str("data")
    } else {
        matches[0].message.clone()
    }
}

} // verus!
