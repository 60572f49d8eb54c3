//! The calculator front end: one parsed expression, re-evaluated on demand
//! under a cyclic output-mode cursor.
//!
//! Evaluation is not cached: every call recomputes the result from the
//! stored expression, which the call never mutates. The inexact modes cycle
//! between radians and degrees presentation, starting with radians. A
//! second cursor is reserved for exact-fraction output modes; those modes
//! are an unimplemented extension point and the cursor is only carried
//! along.

use vstd::prelude::*;

use crate::erasable_cluster::ErasableCluster;
use crate::errors::ParsingError;
use crate::expression::{expression_model, Expression, SpecExpression};
use crate::inexact::{
    calculation_result_matches, expression_to_inexact, spec_eval_expression, spec_into_degrees,
    spec_into_radians, CalculationResult, SpecInexact,
};
use crate::parsers::{parse_into_expression, spec_parse_into_expression};

verus! {

/// How many inexact output modes the cursor cycles through: radians, then
/// degrees, then around again.
pub const INEXACT_OUTPUT_MODES: u64 = 2;

/// What one press of "show result" returns: the stored expression is
/// evaluated afresh, then re-expressed in the mode the cursor selects
/// (radians for an even cursor, degrees for an odd one).
pub open spec fn spec_next_inexact_output(e: SpecExpression, cursor: int) -> Result<
    SpecInexact,
    Seq<char>,
> {
    match spec_eval_expression(e) {
        Ok(v) => Ok(
            if cursor % 2 == 0 {
                spec_into_radians(v)
            } else {
                spec_into_degrees(v)
            },
        ),
        Err(m) => Err(m),
    }
}

/// The mode-cycling calculator over one parsed expression.
pub struct Calculator {
    expression: Expression,
    inexact_output_modes: u64,
    exact_output_modes: u64,
}

impl Calculator {
    /// The stored expression, as a mathematical value.
    pub closed spec fn spec_expression(self) -> SpecExpression {
        expression_model(self.expression@)
    }

    /// The inexact-mode cursor: the index of the mode the next evaluation
    /// will use.
    pub closed spec fn spec_inexact_mode_cursor(self) -> int {
        self.inexact_output_modes as int
    }

    /// The cursor stays within the mode cycle.
    pub open spec fn wf(self) -> bool {
        0 <= self.spec_inexact_mode_cursor() < 2
    }

    /// Parses the buffer's tokens once and starts both mode cursors at
    /// their first mode.
    pub fn build(from: &ErasableCluster) -> (r: Result<Calculator, ParsingError>)
        ensures
            match spec_parse_into_expression(from@) {
                Ok(se) => r matches Ok(c) && c.spec_expression() == se
                    && c.spec_inexact_mode_cursor() == 0 && c.wf(),
                Err(pe) => r matches Err(e) && e@ == pe,
            },
    {
        match parse_into_expression(from.iter()) {
            Ok(expression) => Ok(
                Calculator { expression, inexact_output_modes: 0, exact_output_modes: 0 },
            ),
            Err(e) => Err(e),
        }
    }

    /// Advances the inexact-mode cursor (wrapping around after the last
    /// mode), re-runs the evaluator against the stored expression, and
    /// converts the result to the selected presentation unit. The stored
    /// expression is never mutated, so the result is a pure function of
    /// the state at entry.
    pub fn next_inexact_output_mode(&mut self) -> (r: CalculationResult)
        requires
            old(self).wf(),
        ensures
            final(self).wf(),
            final(self).spec_expression() == old(self).spec_expression(),
            final(self).spec_inexact_mode_cursor() == (old(self).spec_inexact_mode_cursor() + 1)
                % 2,
            calculation_result_matches(
                r,
                spec_next_inexact_output(
                    old(self).spec_expression(),
                    old(self).spec_inexact_mode_cursor(),
                ),
            ),
    {
        let mode = self.inexact_output_modes;
        self.inexact_output_modes = if mode + 1 >= INEXACT_OUTPUT_MODES {
            0
        } else {
            mode + 1
        };
        match expression_to_inexact(&self.expression) {
            Ok(inexact) => {
                if mode == 0 {
                    Ok(inexact.into_radians())
                } else {
                    Ok(inexact.into_degrees())
                }
            },
            Err(e) => Err(e),
        }
    }
}

/// LAW — repeatable evaluation: the evaluation entry point never mutates
/// the stored expression (see the `ensures` of
/// [`Calculator::next_inexact_output_mode`]), and its result is a pure
/// function of the stored expression and the mode cursor. Hence two calls
/// in succession on an unmodified calculator, with the cursor put back
/// between them, derive their results independently and get identical
/// ones.
pub proof fn lemma_repeat_evaluation(before: Calculator, after: Calculator)
    requires
        after.spec_expression() == before.spec_expression(),
        after.spec_inexact_mode_cursor() == before.spec_inexact_mode_cursor(),
    ensures
        spec_next_inexact_output(after.spec_expression(), after.spec_inexact_mode_cursor())
            == spec_next_inexact_output(
            before.spec_expression(),
            before.spec_inexact_mode_cursor(),
        ),
{
}

} // verus!
