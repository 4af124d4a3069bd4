//! Evaluation of rule trees against a byte buffer.
//!
//! Rules are tried in order, depth first. A rule's children are tried only after
//! the rule matched, one level deeper; the depth is bounded by the configuration.
//! Each match moves the cursor that relative offsets start from to the end of the
//! value that was read.

use vstd::prelude::*;

pub mod offset;
pub mod operators;
pub mod types;

use crate::parser::ast::{Endianness, MagicRule, TypeKind, Value};
use crate::{reports, EvaluationConfig, LibmagicError};
use offset::{resolution, resolve_offset_in};
use operators::{apply_operator, operator_holds};
use types::{host_byte_order, is_byte_order, read_result, read_typed_value_in, type_size};

verus! {

#[verifier::external_type_specification]
#[verifier::external_body]
pub struct ExInstant(std::time::Instant);

/// Relies on std::time::Instant::now: a reading of the monotonic clock.
#[verifier::external_body]
fn clock_now() -> std::time::Instant {
    std::time::Instant::now()
}

/// Relies on std::time::Instant::elapsed: whole milliseconds since `start`.
#[verifier::external_body]
fn millis_since(start: &std::time::Instant) -> u128 {
    start.elapsed().as_millis()
}

/// Whether `elapsed_ms` milliseconds overrun a limit of `timeout_ms`.
pub fn deadline_passed(elapsed_ms: u128, timeout_ms: u64) -> (r: bool)
    ensures
        r == (elapsed_ms > timeout_ms as u128),
{
    elapsed_ms > timeout_ms as u128
}

/// Mutable state of one evaluation: the cursor, the nesting depth and the settings.
#[derive(Debug, Clone)]
pub struct EvaluationContext {
    current_offset: usize,
    recursion_depth: u32,
    config: EvaluationConfig,
}

impl EvaluationContext {
    /// Where the previous match ended.
    pub closed spec fn spec_current_offset(&self) -> usize {
        self.current_offset
    }

    /// How many levels of child rules are entered.
    pub closed spec fn spec_recursion_depth(&self) -> u32 {
        self.recursion_depth
    }

    /// The settings of this evaluation.
    pub closed spec fn spec_config(&self) -> EvaluationConfig {
        self.config
    }

    /// A fresh context: cursor and depth at zero.
    pub fn new(config: EvaluationConfig) -> (r: Self)
        ensures
            r.spec_current_offset() == 0,
            r.spec_recursion_depth() == 0,
            r.spec_config() == config,
    {
        EvaluationContext { current_offset: 0, recursion_depth: 0, config }
    }

    /// Where the previous match ended.
    pub fn current_offset(&self) -> (r: usize)
        ensures
            r == self.spec_current_offset(),
    {
        self.current_offset
    }

    /// Moves the cursor.
    pub fn set_current_offset(&mut self, offset: usize)
        ensures
            final(self).spec_current_offset() == offset,
            final(self).spec_recursion_depth() == old(self).spec_recursion_depth(),
            final(self).spec_config() == old(self).spec_config(),
    {
        self.current_offset = offset;
    }

    /// How many levels of child rules are entered.
    pub fn recursion_depth(&self) -> (r: u32)
        ensures
            r == self.spec_recursion_depth(),
    {
        self.recursion_depth
    }

    /// Enters one more level, or fails when the configured limit is reached.
    pub fn increment_recursion_depth(&mut self) -> (r: Result<(), LibmagicError>)
        ensures
            old(self).spec_recursion_depth() < old(self).spec_config().max_recursion_depth
                ==> r is Ok && final(self).spec_recursion_depth() == old(
                self,
            ).spec_recursion_depth() + 1,
            old(self).spec_recursion_depth() >= old(self).spec_config().max_recursion_depth
                ==> (r matches Err(LibmagicError::EvaluationError(m)) && m@
                == "Maximum recursion depth exceeded"@) && final(self).spec_recursion_depth()
                == old(self).spec_recursion_depth(),
            final(self).spec_current_offset() == old(self).spec_current_offset(),
            final(self).spec_config() == old(self).spec_config(),
    {
        if self.recursion_depth >= self.config.max_recursion_depth {
            return Err(
                LibmagicError::EvaluationError(String::from_str("Maximum recursion depth exceeded")),
            );
        }
        self.recursion_depth = self.recursion_depth + 1;
        Ok(())
    }

    /// Leaves one level; never called at depth zero.
    pub fn decrement_recursion_depth(&mut self)
        requires
            old(self).spec_recursion_depth() > 0,
        ensures
            final(self).spec_recursion_depth() == old(self).spec_recursion_depth() - 1,
            final(self).spec_current_offset() == old(self).spec_current_offset(),
            final(self).spec_config() == old(self).spec_config(),
    {
        self.recursion_depth = self.recursion_depth - 1;
    }

    /// The settings of this evaluation.
    pub fn config(&self) -> (r: &EvaluationConfig)
        ensures
            *r == self.spec_config(),
    {
        &self.config
    }

    /// Whether a sibling sequence ends at its first match.
    pub fn should_stop_at_first_match(&self) -> (r: bool)
        ensures
            r == self.spec_config().stop_at_first_match,
    {
        self.config.stop_at_first_match
    }

    /// Upper bound on the bytes a string read may scan.
    pub fn max_string_length(&self) -> (r: usize)
        ensures
            r == self.spec_config().max_string_length,
    {
        self.config.max_string_length
    }

    /// Whether MIME mapping is asked for.
    pub fn enable_mime_types(&self) -> (r: bool)
        ensures
            r == self.spec_config().enable_mime_types,
    {
        self.config.enable_mime_types
    }

    /// The wall-clock limit in milliseconds, if any.
    pub fn timeout_ms(&self) -> (r: Option<u64>)
        ensures
            r == self.spec_config().timeout_ms,
    {
        self.config.timeout_ms
    }

    /// Puts cursor and depth back to zero and keeps the settings.
    pub fn reset(&mut self)
        ensures
            final(self).spec_current_offset() == 0,
            final(self).spec_recursion_depth() == 0,
            final(self).spec_config() == old(self).spec_config(),
    {
        self.current_offset = 0;
        self.recursion_depth = 0;
    }
}

/// One match: the rule's message, where its value was read, its level, and the
/// value read from the buffer.
#[derive(Debug, Clone, PartialEq)]
pub struct MatchResult {
    /// The message of the rule that matched
    pub message: String,
    /// Where the value was read
    pub offset: usize,
    /// The level of the rule
    pub level: u32,
    /// The value read from the buffer
    pub value: Value,
}

/// Testing one rule with the cursor at `cursor`: the position and value when it
/// matches, `None` when it does not, or the message of the failure.
pub open spec fn rule_outcome(rule: MagicRule, b: Seq<u8>, cursor: usize, host: Endianness) -> Result<
    Option<(usize, Value)>,
    Seq<char>,
> {
    match resolution(rule.offset, b, cursor, host) {
        Err(m) => Err(m),
        Ok(p) => match read_result(b, p, rule.typ, host) {
            Err(m) => Err(m),
            Ok(v) => if operator_holds(rule.op, v, rule.value) {
                Ok(Some((p, v)))
            } else {
                Ok(None)
            },
        },
    }
}

/// The record a matching rule contributes.
pub open spec fn match_of(rule: MagicRule, p: usize, v: Value) -> MatchResult {
    MatchResult { message: rule.message, offset: p, level: rule.level, value: v }
}

/// What remains of the recursion budget at `depth`.
pub open spec fn budget(cfg: EvaluationConfig, depth: u32) -> nat {
    if depth <= cfg.max_recursion_depth {
        (cfg.max_recursion_depth - depth) as nat
    } else {
        0
    }
}

/// The first `n` rules of a sibling sequence evaluated depth first, starting with
/// the cursor at `cursor` and `depth` levels entered: the matches in order, the
/// cursor after them, and whether the sequence stopped at a match; or the message
/// of the failure that aborted the evaluation.
pub open spec fn run_rules(
    rules: Seq<MagicRule>,
    n: nat,
    b: Seq<u8>,
    cursor: usize,
    depth: u32,
    cfg: EvaluationConfig,
    host: Endianness,
) -> Result<(Seq<MatchResult>, usize, bool), Seq<char>>
    decreases budget(cfg, depth), n,
{
    if n == 0 || n > rules.len() {
        Ok((Seq::empty(), cursor, false))
    } else {
        match run_rules(rules, (n - 1) as nat, b, cursor, depth, cfg, host) {
            Err(m) => Err(m),
            Ok((ms, cur, stopped)) => if stopped {
                Ok((ms, cur, true))
            } else {
                let rule = rules[n - 1];
                match rule_outcome(rule, b, cur, host) {
                    Err(m) => Err(m),
                    Ok(None) => Ok((ms, cur, false)),
                    Ok(Some((p, v))) => {
                        let found = ms.push(match_of(rule, p, v));
                        let end = (p + type_size(rule.typ)) as usize;
                        if rule.children.len() == 0 {
                            Ok((found, end, cfg.stop_at_first_match))
                        } else if depth >= cfg.max_recursion_depth {
                            Err("Maximum recursion depth exceeded"@)
                        } else {
                            match run_rules(
                                rule.children@,
                                rule.children@.len(),
                                b,
                                end,
                                (depth + 1) as u32,
                                cfg,
                                host,
                            ) {
                                Err(m) => Err(m),
                                Ok((inner, after, _)) => Ok(
                                    (found + inner, after, cfg.stop_at_first_match),
                                ),
                            }
                        }
                    },
                }
            },
        }
    }
}

/// A whole sibling sequence evaluated: the matches and the cursor after them, or
/// the message of the failure.
pub open spec fn evaluation(
    rules: Seq<MagicRule>,
    b: Seq<u8>,
    cursor: usize,
    depth: u32,
    cfg: EvaluationConfig,
    host: Endianness,
) -> Result<(Seq<MatchResult>, usize), Seq<char>> {
    match run_rules(rules, rules.len(), b, cursor, depth, cfg, host) {
        Ok((ms, cur, _)) => Ok((ms, cur)),
        Err(m) => Err(m),
    }
}

/// `r` holds the matches `evaluation` describes, or its failure, unless the
/// configured timeout struck first.
pub open spec fn evaluation_reported(
    r: Result<Vec<MatchResult>, LibmagicError>,
    m: Result<(Seq<MatchResult>, usize), Seq<char>>,
    cfg: EvaluationConfig,
) -> bool {
    match r {
        Err(LibmagicError::Timeout { timeout_ms }) => cfg.timeout_ms == Some(timeout_ms),
        _ => match m {
            Ok((ms, _)) => r matches Ok(v) && v@ == ms,
            Err(text) => r matches Err(LibmagicError::EvaluationError(s)) && s@ == text,
        },
    }
}

/// A rule that does not match contributes nothing: whatever its children would
/// match, none of them is evaluated or reported.
pub proof fn lemma_unmatched_parent_hides_children(
    rule: MagicRule,
    b: Seq<u8>,
    cursor: usize,
    depth: u32,
    cfg: EvaluationConfig,
    host: Endianness,
)
    requires
        rule_outcome(rule, b, cursor, host) == Ok::<Option<(usize, Value)>, Seq<char>>(None),
    ensures
        evaluation(seq![rule], b, cursor, depth, cfg, host) == Ok::<
            (Seq<MatchResult>, usize),
            Seq<char>,
        >((Seq::empty(), cursor)),
{
    assert(run_rules(seq![rule], 0, b, cursor, depth, cfg, host) == Ok::<
        (Seq<MatchResult>, usize, bool),
        Seq<char>,
    >((Seq::empty(), cursor, false)));
}

/// `rule` matches at `cursor` and has children; when `k > 0` its only child starts
/// such a chain `k - 1` levels long, at the cursor where `rule`'s value ended.
pub open spec fn descending_chain(rule: MagicRule, b: Seq<u8>, cursor: usize, host: Endianness, k: nat) -> bool
    decreases k,
{
    match rule_outcome(rule, b, cursor, host) {
        Ok(Some((p, v))) => rule.children@.len() > 0 && (k == 0 || (rule.children@.len() == 1
            && descending_chain(
            rule.children@[0],
            b,
            (p + type_size(rule.typ)) as usize,
            host,
            (k - 1) as nat,
        ))),
        _ => false,
    }
}

/// A chain of matching rules nested deeper than the recursion limit allows (the
/// rule at level `depth + k` matches and still has children to enter, with
/// `depth + k` at or past the limit) aborts the whole evaluation with the
/// recursion error, reporting no match at all.
pub proof fn lemma_recursion_ceiling(
    rule: MagicRule,
    b: Seq<u8>,
    cursor: usize,
    depth: u32,
    cfg: EvaluationConfig,
    host: Endianness,
    k: nat,
)
    requires
        descending_chain(rule, b, cursor, host, k),
        depth + k >= cfg.max_recursion_depth,
    ensures
        evaluation(seq![rule], b, cursor, depth, cfg, host) == Err::<
            (Seq<MatchResult>, usize),
            Seq<char>,
        >("Maximum recursion depth exceeded"@),
    decreases k,
{
    assert(run_rules(seq![rule], 0, b, cursor, depth, cfg, host) == Ok::<
        (Seq<MatchResult>, usize, bool),
        Seq<char>,
    >((Seq::empty(), cursor, false)));
    if depth < cfg.max_recursion_depth {
        let (p, v) = rule_outcome(rule, b, cursor, host)->Ok_0->Some_0;
        let child = rule.children@[0];
        let end = (p + type_size(rule.typ)) as usize;
        lemma_recursion_ceiling(child, b, end, (depth + 1) as u32, cfg, host, (k - 1) as nat);
        assert(rule.children@ =~= seq![child]);
    }
}

/// `rules2` is `rules` with the children of rule `k` replaced by `children`.
pub open spec fn with_children_at(
    rules: Seq<MagicRule>,
    rules2: Seq<MagicRule>,
    k: int,
    children: Vec<MagicRule>,
) -> bool {
    &&& rules2.len() == rules.len()
    &&& 0 <= k < rules.len()
    &&& rules2[k] == (MagicRule { children, ..rules[k] })
    &&& forall|j: int| 0 <= j < rules.len() && j != k ==> rules2[j] == rules[j]
}

proof fn lemma_children_of_unmatched_rule_unread(
    rules: Seq<MagicRule>,
    rules2: Seq<MagicRule>,
    k: int,
    children: Vec<MagicRule>,
    n: nat,
    b: Seq<u8>,
    cursor: usize,
    depth: u32,
    cfg: EvaluationConfig,
    host: Endianness,
)
    requires
        with_children_at(rules, rules2, k, children),
        n <= rules.len(),
        run_rules(rules, k as nat, b, cursor, depth, cfg, host) matches Ok((_, cur, false))
            ==> rule_outcome(rules[k], b, cur, host) == Ok::<Option<(usize, Value)>, Seq<char>>(
            None,
        ),
    ensures
        run_rules(rules, n, b, cursor, depth, cfg, host) == run_rules(
            rules2,
            n,
            b,
            cursor,
            depth,
            cfg,
            host,
        ),
    decreases n,
{
    if n > 0 {
        lemma_children_of_unmatched_rule_unread(
            rules,
            rules2,
            k,
            children,
            (n - 1) as nat,
            b,
            cursor,
            depth,
            cfg,
            host,
        );
        if n - 1 == k {
            let rule = rules[k];
            let rule2 = rules2[k];
            assert(rule_outcome(rule, b, cursor, host) == rule_outcome(rule2, b, cursor, host));
            match run_rules(rules, (n - 1) as nat, b, cursor, depth, cfg, host) {
                Ok((ms, cur, stopped)) => {
                    assert(rule_outcome(rule, b, cur, host) == rule_outcome(rule2, b, cur, host));
                },
                Err(_) => {},
            }
        }
    }
}

/// A rule that does not match where the walk reaches it hides its children: with
/// its children replaced by anything at all, the sibling sequence evaluates the same.
pub proof fn lemma_unmatched_rule_hides_children(
    rules: Seq<MagicRule>,
    rules2: Seq<MagicRule>,
    k: int,
    children: Vec<MagicRule>,
    b: Seq<u8>,
    cursor: usize,
    depth: u32,
    cfg: EvaluationConfig,
    host: Endianness,
)
    requires
        with_children_at(rules, rules2, k, children),
        run_rules(rules, k as nat, b, cursor, depth, cfg, host) matches Ok((_, cur, false))
            ==> rule_outcome(rules[k], b, cur, host) == Ok::<Option<(usize, Value)>, Seq<char>>(
            None,
        ),
    ensures
        evaluation(rules, b, cursor, depth, cfg, host) == evaluation(
            rules2,
            b,
            cursor,
            depth,
            cfg,
            host,
        ),
{
    lemma_children_of_unmatched_rule_unread(
        rules,
        rules2,
        k,
        children,
        rules.len(),
        b,
        cursor,
        depth,
        cfg,
        host,
    );
}

/// With stop-at-first-match, a sequence that has not stopped has matched nothing.
proof fn lemma_nothing_before_first_match(
    rules: Seq<MagicRule>,
    n: nat,
    b: Seq<u8>,
    cursor: usize,
    depth: u32,
    cfg: EvaluationConfig,
    host: Endianness,
)
    requires
        cfg.stop_at_first_match,
        run_rules(rules, n, b, cursor, depth, cfg, host) matches Ok((_, _, false)),
    ensures
        run_rules(rules, n, b, cursor, depth, cfg, host)->Ok_0.0.len() == 0,
    decreases n,
{
    if n > 0 && n <= rules.len() {
        lemma_nothing_before_first_match(rules, (n - 1) as nat, b, cursor, depth, cfg, host);
    }
}

/// With stop-at-first-match, the first rule `k` that matches decides the result:
/// no earlier rule contributed a match, the result starts with `k`'s own match
/// (followed by its children's) unless its children failed, and no later sibling
/// is evaluated.
pub proof fn lemma_stop_at_first_match(
    rules: Seq<MagicRule>,
    k: nat,
    b: Seq<u8>,
    cursor: usize,
    depth: u32,
    cfg: EvaluationConfig,
    host: Endianness,
)
    requires
        cfg.stop_at_first_match,
        k < rules.len(),
        run_rules(rules, k, b, cursor, depth, cfg, host) matches Ok((_, cur, false))
            && rule_outcome(rules[k as int], b, cur, host) matches Ok(Some(_)),
    ensures
        run_rules(rules, k, b, cursor, depth, cfg, host)->Ok_0.0.len() == 0,
        ({
            let cur = run_rules(rules, k, b, cursor, depth, cfg, host)->Ok_0.1;
            let (p, v) = rule_outcome(rules[k as int], b, cur, host)->Ok_0->Some_0;
            match evaluation(rules, b, cursor, depth, cfg, host) {
                Ok((ms, _)) => ms.len() >= 1 && ms[0] == match_of(rules[k as int], p, v),
                Err(_) => true,
            }
        }),
        evaluation(rules, b, cursor, depth, cfg, host) == evaluation(
            rules.subrange(0, k as int + 1),
            b,
            cursor,
            depth,
            cfg,
            host,
        ),
{
    lemma_nothing_before_first_match(rules, k, b, cursor, depth, cfg, host);
    lemma_settled(rules, k + 1, rules.len(), b, cursor, depth, cfg, host);
    lemma_prefix_runs_alike(rules, rules.subrange(0, k as int + 1), k + 1, b, cursor, depth, cfg, host);
}

/// Rules past the first `n` do not affect how the first `n` evaluate.
proof fn lemma_prefix_runs_alike(
    rules: Seq<MagicRule>,
    prefix: Seq<MagicRule>,
    n: nat,
    b: Seq<u8>,
    cursor: usize,
    depth: u32,
    cfg: EvaluationConfig,
    host: Endianness,
)
    requires
        n <= prefix.len() <= rules.len(),
        forall|j: int| 0 <= j < prefix.len() ==> prefix[j] == rules[j],
    ensures
        run_rules(rules, n, b, cursor, depth, cfg, host) == run_rules(
            prefix,
            n,
            b,
            cursor,
            depth,
            cfg,
            host,
        ),
    decreases n,
{
    if n > 0 {
        lemma_prefix_runs_alike(rules, prefix, (n - 1) as nat, b, cursor, depth, cfg, host);
    }
}

/// Once a sequence failed or stopped at a match, later rules change nothing: no
/// later sibling is evaluated.
pub proof fn lemma_settled(
    rules: Seq<MagicRule>,
    k: nat,
    n: nat,
    b: Seq<u8>,
    cursor: usize,
    depth: u32,
    cfg: EvaluationConfig,
    host: Endianness,
)
    requires
        1 <= k <= n <= rules.len(),
        run_rules(rules, k, b, cursor, depth, cfg, host) is Err || run_rules(
            rules,
            k,
            b,
            cursor,
            depth,
            cfg,
            host,
        )->Ok_0.2,
    ensures
        run_rules(rules, n, b, cursor, depth, cfg, host) == run_rules(
            rules,
            k,
            b,
            cursor,
            depth,
            cfg,
            host,
        ),
    decreases n,
{
    if n > k {
        lemma_settled(rules, k, (n - 1) as nat, b, cursor, depth, cfg, host);
    }
}

fn type_width(t: &TypeKind) -> (r: usize)
    ensures
        r == type_size(*t),
{
    match t {
        TypeKind::Byte => 1,
        TypeKind::Short { .. } => 2,
        TypeKind::Long { .. } => 4,
        TypeKind::String { .. } => 0,
    }
}

/// Tests one rule at the cursor without descending into its children.
fn test_rule(rule: &MagicRule, buffer: &[u8], cursor: usize, host: Endianness) -> (r: Result<
    Option<(usize, Value)>,
    LibmagicError,
>)
    requires
        is_byte_order(host),
    ensures
        reports(r, rule_outcome(*rule, buffer@, cursor, host)),
{
    let p = match resolve_offset_in(&rule.offset, buffer, cursor, host) {
        Ok(p) => p,
        Err(e) => {
            return Err(e);
        },
    };
    let v = match read_typed_value_in(buffer, p, &rule.typ, host) {
        Ok(v) => v,
        Err(e) => {
            return Err(LibmagicError::EvaluationError(e.to_string()));
        },
    };
    if apply_operator(&rule.op, &v, &rule.value) {
        Ok(Some((p, v)))
    } else {
        Ok(None)
    }
}

fn evaluate_sequence(
    rules: &[MagicRule],
    buffer: &[u8],
    context: &mut EvaluationContext,
    host: Endianness,
    start: &std::time::Instant,
) -> (r: Result<Vec<MatchResult>, LibmagicError>)
    requires
        is_byte_order(host),
    ensures
        final(context).recursion_depth == old(context).recursion_depth,
        final(context).config == old(context).config,
        evaluation_reported(
            r,
            evaluation(
                rules@,
                buffer@,
                old(context).current_offset,
                old(context).recursion_depth,
                old(context).config,
                host,
            ),
            old(context).config,
        ),
        rules@.len() == 0 ==> r is Ok && r->Ok_0@.len() == 0,
        r is Ok ==> final(context).current_offset == evaluation(
            rules@,
            buffer@,
            old(context).current_offset,
            old(context).recursion_depth,
            old(context).config,
            host,
        )->Ok_0.1,
    decreases budget(old(context).config, old(context).recursion_depth),
{
    let ghost cursor0 = context.current_offset;
    let ghost depth0 = context.recursion_depth;
    let ghost cfg = context.config;
    let mut matches: Vec<MatchResult> = Vec::new();
    let mut i: usize = 0;
    while i < rules.len()
        invariant
            0 <= i <= rules@.len(),
            is_byte_order(host),
            context.recursion_depth == depth0,
            context.config == cfg,
            depth0 == old(context).recursion_depth,
            cfg == old(context).config,
            cursor0 == old(context).current_offset,
            run_rules(rules@, i as nat, buffer@, cursor0, depth0, cfg, host) == Ok::<
                (Seq<MatchResult>, usize, bool),
                Seq<char>,
            >((matches@, context.current_offset, false)),
        decreases rules@.len() - i,
    {
        if let Some(limit) = context.config.timeout_ms {
            if deadline_passed(millis_since(start), limit) {
                return Err(LibmagicError::Timeout { timeout_ms: limit });
            }
        }
        let rule = &rules[i];
        let ghost before = context.current_offset;
        let outcome = test_rule(rule, buffer, context.current_offset, host);
        match outcome {
            Err(e) => {
                proof {
                    lemma_settled(rules@, (i + 1) as nat, rules@.len(), buffer@, cursor0, depth0, cfg, host);
                }
                return Err(e);
            },
            Ok(None) => {},
            Ok(Some((p, v))) => {
                let width = type_width(&rule.typ);
                let len = buffer.len();
                assert(p + width <= len);
                let end = p + width;
                let found = MatchResult {
                    message: rule.message.clone(),
                    offset: p,
                    level: rule.level,
                    value: v,
                };
                matches.push(found);
                context.current_offset = end;
                if rule.children.len() > 0 {
                    match context.increment_recursion_depth() {
                        Err(e) => {
                            proof {
                                lemma_settled(rules@, (i + 1) as nat, rules@.len(), buffer@, cursor0, depth0, cfg, host);
                            }
                            return Err(e);
                        },
                        Ok(()) => {},
                    }
                    let inner = evaluate_sequence(rule.children.as_slice(), buffer, context, host, start);
                    context.decrement_recursion_depth();
                    match inner {
                        Err(e) => {
                            proof {
                                if !(e is Timeout) {
                                    lemma_settled(rules@, (i + 1) as nat, rules@.len(), buffer@, cursor0, depth0, cfg, host);
                                }
                            }
                            return Err(e);
                        },
                        Ok(mut more) => {
                            matches.append(&mut more);
                        },
                    }
                }
                if context.config.stop_at_first_match {
                    proof {
                        lemma_settled(rules@, (i + 1) as nat, rules@.len(), buffer@, cursor0, depth0, cfg, host);
                    }
                    return Ok(matches);
                }
            },
        }
        i = i + 1;
    }
    Ok(matches)
}

/// Tests one rule against `buffer` (cursor at the start, `Native` integers in this
/// host's byte order); its children are not looked at.
pub fn evaluate_single_rule(rule: &MagicRule, buffer: &[u8]) -> (r: Result<bool, LibmagicError>)
    ensures
        exists|h: Endianness|
            is_byte_order(h) && match rule_outcome(*rule, buffer@, 0, h) {
                Ok(found) => r == Ok::<bool, LibmagicError>(found is Some),
                Err(text) => r matches Err(LibmagicError::EvaluationError(s)) && s@ == text,
            },
{
    let host = host_byte_order();
    match test_rule(rule, buffer, 0, host) {
        Ok(found) => Ok(found.is_some()),
        Err(e) => Err(e),
    }
}

/// Evaluates a sibling sequence of rules depth first and returns the matches in
/// pre-order. The cursor and depth of `context` are the starting point, and the
/// context is as before when the call returns.
pub fn evaluate_rules(rules: &[MagicRule], buffer: &[u8], context: &mut EvaluationContext) -> (r:
    Result<Vec<MatchResult>, LibmagicError>)
    ensures
        final(context).spec_recursion_depth() == old(context).spec_recursion_depth(),
        final(context).spec_current_offset() == old(context).spec_current_offset(),
        final(context).spec_config() == old(context).spec_config(),
        rules@.len() == 0 ==> r is Ok && r->Ok_0@.len() == 0,
        exists|h: Endianness|
            is_byte_order(h) && evaluation_reported(
                r,
                evaluation(
                    rules@,
                    buffer@,
                    old(context).spec_current_offset(),
                    old(context).spec_recursion_depth(),
                    old(context).spec_config(),
                    h,
                ),
                old(context).spec_config(),
            ),
{
    let start = clock_now();
    let host = host_byte_order();
    let cursor = context.current_offset;
    let r = evaluate_sequence(rules, buffer, context, host, &start);
    context.current_offset = cursor;
    r
}

/// Evaluates `rules` with a fresh context built from `config`.
pub fn evaluate_rules_with_config(rules: &[MagicRule], buffer: &[u8], config: EvaluationConfig) -> (r:
    Result<Vec<MatchResult>, LibmagicError>)
    ensures
        rules@.len() == 0 ==> r is Ok && r->Ok_0@.len() == 0,
        exists|h: Endianness|
            is_byte_order(h) && evaluation_reported(
                r,
                evaluation(rules@, buffer@, 0, 0, config, h),
                config,
            ),
{
    let mut context = EvaluationContext::new(config);
    evaluate_rules(rules, buffer, &mut context)
}

} // verus!
