//! The calculator-flavored subsystem: a pure decision function that turns a
//! command into either a domain event or a named rejection, and the total
//! fold that applies a validated event to the state.
//!
//! Commands may be rejected; events may not. The only path to the fold runs
//! through the decision function, and `lemma_decide_emits_ok` shows that
//! every event the decision function emits is safe to fold.

use vstd::prelude::*;

verus! {

/// Upper bound that additive results are clamped to and products must not exceed.
pub const MAX_VALUE: i32 = 10000;

/// Lower bound that subtractive results are clamped to.
pub const MIN_VALUE: i32 = 0;

#[derive(Debug, Clone)]
pub struct State {
    pub value: i32,
}

#[derive(Debug, Clone)]
pub enum Command {
    Add { value: i32 },
    Min { value: i32 },
    Mul { value: i32 },
    Div { value: i32 },
}

#[derive(Debug, Clone)]
pub enum EventType {
    ValueAdded { value: i32 },
    ValueSubtracted { value: i32 },
    ValueMultiplied { value: i32 },
    ValueDivided { value: i32 },
}

#[derive(Debug, Clone)]
pub enum CommandResult {
    Event(EventType),
    Error(String),
}

/// Spec-level image of a `CommandResult`: the emitted event, or the
/// rejection reason as a sequence of characters.
pub enum Outcome {
    Emit(EventType),
    Reject(Seq<char>),
}

/// A state value stays inside the band that the clamping and rejection
/// rules protect: divisions may drive it negative, but never below `-MAX_VALUE`.
pub open spec fn state_wf(s: State) -> bool {
    -(MAX_VALUE as int) <= s.value as int <= MAX_VALUE as int
}

pub open spec fn spec_clamp(x: int) -> int {
    if x > MAX_VALUE as int {
        MAX_VALUE as int
    } else if x < MIN_VALUE as int {
        MIN_VALUE as int
    } else {
        x
    }
}

pub open spec fn int_abs(x: int) -> int {
    if x < 0 {
        -x
    } else {
        x
    }
}

/// Truncating (toward-zero) integer division, the semantics of the
/// division events in this domain.
pub open spec fn div_trunc(a: int, b: int) -> int
    recommends
        b != 0,
{
    if (a >= 0) == (b >= 0) {
        int_abs(a) / int_abs(b)
    } else {
        -(int_abs(a) / int_abs(b))
    }
}

/// The value that folding `e` into `s` yields, as an unbounded integer.
pub open spec fn spec_apply(s: State, e: EventType) -> int {
    match e {
        EventType::ValueAdded { value } => s.value + value,
        EventType::ValueSubtracted { value } => s.value - value,
        EventType::ValueMultiplied { value } => s.value * value,
        EventType::ValueDivided { value } => div_trunc(s.value as int, value as int),
    }
}

/// An event is safe to fold: a division never divides by zero, and the
/// folded value stays inside the well-formed band.
pub open spec fn event_ok(s: State, e: EventType) -> bool {
    &&& (e matches EventType::ValueDivided { value } ==> value != 0)
    &&& -(MAX_VALUE as int) <= spec_apply(s, e) <= MAX_VALUE as int
}

pub open spec fn outcome_of(r: CommandResult) -> Outcome {
    match r {
        CommandResult::Event(e) => Outcome::Emit(e),
        CommandResult::Error(m) => Outcome::Reject(m@),
    }
}

/// What the decision function decides, as a function of state and command
/// alone:
/// - an additive or subtractive command is clamped so the result stays in
///   `[MIN_VALUE, MAX_VALUE]`; the emitted event carries the clamped delta;
/// - a multiplicative command is rejected outright when the mathematical
///   product leaves the band `[-MAX_VALUE, MAX_VALUE]`;
/// - a division by zero is rejected; any other division proceeds with
///   truncating semantics.
pub open spec fn spec_decide(s: State, c: Command) -> Outcome {
    match c {
        Command::Add { value } => Outcome::Emit(
            EventType::ValueAdded { value: (spec_clamp(s.value + value) - s.value) as i32 },
        ),
        Command::Min { value } => Outcome::Emit(
            EventType::ValueSubtracted { value: (s.value - spec_clamp(s.value - value)) as i32 },
        ),
        Command::Mul { value } => {
            if s.value * value > MAX_VALUE as int || s.value * value < -(MAX_VALUE as int) {
                Outcome::Reject("multiply_failed"@)
            } else {
                Outcome::Emit(EventType::ValueMultiplied { value })
            }
        },
        Command::Div { value } => {
            if value == 0 {
                Outcome::Reject("divide_failed"@)
            } else {
                Outcome::Emit(EventType::ValueDivided { value })
            }
        },
    }
}

pub struct Calculator;

impl Calculator {
    /// The pure decision function: validates a command against the current
    /// state and emits either an event or a named rejection. It never
    /// mutates the state, and its result is a function of `(state, command)`
    /// alone.
    pub fn handle_command(state: &State, command: Command) -> (r: CommandResult)
        requires
            state_wf(*state),
        ensures
            outcome_of(r) == spec_decide(*state, command),
    {
        match command {
            Command::Add { value: v } => {
                let sum: i64 = state.value as i64 + v as i64;
                let clamped: i64 = if sum > MAX_VALUE as i64 {
                    MAX_VALUE as i64
                } else if sum < MIN_VALUE as i64 {
                    MIN_VALUE as i64
                } else {
                    sum
                };
                let delta: i32 = (clamped - state.value as i64) as i32;
                CommandResult::Event(EventType::ValueAdded { value: delta })
            },
            Command::Min { value: v } => {
                let diff: i64 = state.value as i64 - v as i64;
                let clamped: i64 = if diff > MAX_VALUE as i64 {
                    MAX_VALUE as i64
                } else if diff < MIN_VALUE as i64 {
                    MIN_VALUE as i64
                } else {
                    diff
                };
                let delta: i32 = (state.value as i64 - clamped) as i32;
                CommandResult::Event(EventType::ValueSubtracted { value: delta })
            },
            Command::Mul { value: v } => {
                let sv: i64 = state.value as i64;
                let vv: i64 = v as i64;
                proof {
                    assert(-(0x8000_0000_0000i64 as int) <= sv as int * vv as int
                        <= 0x8000_0000_0000i64 as int) by (nonlinear_arith)
                        requires
                            -(MAX_VALUE as int) <= sv as int <= MAX_VALUE as int,
                            -0x8000_0000 <= vv as int && (vv as int) < 0x8000_0000;
                }
                let product: i64 = sv * vv;
                if product > MAX_VALUE as i64 || product < -(MAX_VALUE as i64) {
                    CommandResult::Error("multiply_failed".to_owned())
                } else {
                    CommandResult::Event(EventType::ValueMultiplied { value: v })
                }
            },
            Command::Div { value: v } => {
                if v == 0 {
                    CommandResult::Error("divide_failed".to_owned())
                } else {
                    CommandResult::Event(EventType::ValueDivided { value: v })
                }
            },
        }
    }

    /// The total fold: applies a validated event to the state and returns
    /// the replacement state. Well-formedness is preserved.
    pub fn handle_event(state: &State, event: EventType) -> (r: State)
        requires
            state_wf(*state),
            event_ok(*state, event),
        ensures
            r.value as int == spec_apply(*state, event),
            state_wf(r),
    {
        match event {
            EventType::ValueAdded { value: v } => State { value: state.value + v },
            EventType::ValueSubtracted { value: v } => State { value: state.value - v },
            EventType::ValueMultiplied { value: v } => State { value: state.value * v },
            EventType::ValueDivided { value: v } => State { value: Self::div_exec(state.value, v) },
        }
    }

    /// Truncating division on well-formed magnitudes, written over
    /// non-negative operands so the quotient is exact by construction.
    fn div_exec(s: i32, v: i32) -> (q: i32)
        requires
            -(MAX_VALUE as int) <= s as int <= MAX_VALUE as int,
            v != 0,
        ensures
            q as int == div_trunc(s as int, v as int),
            -(MAX_VALUE as int) <= q as int <= MAX_VALUE as int,
    {
        let sa: i32 = if s < 0 { -s } else { s };
        if v > MAX_VALUE || v < -MAX_VALUE {
            proof {
                assert(int_abs(s as int) < int_abs(v as int));
                assert(int_abs(s as int) / int_abs(v as int) == 0) by (nonlinear_arith)
                    requires
                        0 <= int_abs(s as int) < int_abs(v as int);
            }
            0
        } else {
            let va: i32 = if v < 0 { -v } else { v };
            let q_mag: i32 = sa / va;
            proof {
                assert(q_mag <= sa) by (nonlinear_arith)
                    requires
                        q_mag == sa as int / va as int,
                        0 <= sa,
                        1 <= va;
            }
            if (s >= 0) == (v >= 0) {
                q_mag
            } else {
                -q_mag
            }
        }
    }
}

/// Every event the decision function emits is safe to fold: the decision
/// step is the validation gate in front of the total fold.
pub proof fn lemma_decide_emits_ok(s: State, c: Command)
    requires
        state_wf(s),
    ensures
        spec_decide(s, c) matches Outcome::Emit(e) ==> event_ok(s, e),
{
    if let Command::Div { value } = c {
        if value != 0 {
            lemma_div_trunc_bounded(s.value as int, value as int);
        }
    }
}

/// A division command with divisor zero is rejected with reason
/// `divide_failed`, whatever the state; no event is emitted, so the state
/// cannot change.
pub proof fn lemma_div_zero_rejected(s: State)
    requires
        state_wf(s),
    ensures
        spec_decide(s, Command::Div { value: 0 }) == Outcome::Reject("divide_failed"@),
{
}

proof fn lemma_div_trunc_bounded(a: int, b: int)
    requires
        b != 0,
        -(MAX_VALUE as int) <= a <= MAX_VALUE as int,
    ensures
        -(MAX_VALUE as int) <= div_trunc(a, b) <= MAX_VALUE as int,
{
    assert(int_abs(a) / int_abs(b) <= int_abs(a)) by (nonlinear_arith)
        requires
            0 <= int_abs(a),
            1 <= int_abs(b)
    ;
    assert(int_abs(a) / int_abs(b) >= 0) by (nonlinear_arith)
        requires
            0 <= int_abs(a),
            1 <= int_abs(b);
}

} // verus!
