//! A parse-only front end: holds the expression a buffer parsed to,
//! without the mode-cycling evaluation of
//! [`crate::calculation::Calculator`].

use vstd::prelude::*;

use crate::erasable_cluster::ErasableCluster;
use crate::errors::ParsingError;
use crate::expression::{expression_model, Expression, SpecExpression};
use crate::parsers::{parse_into_expression, spec_parse_into_expression};

verus! {

/// The parsed expression of one input buffer.
pub struct ParsingCalculator {
    expression: Expression,
}

impl ParsingCalculator {
    /// The stored expression, as a mathematical value.
    pub closed spec fn spec_expression(self) -> SpecExpression {
        expression_model(self.expression@)
    }

    /// Parses the buffer's tokens once.
    pub fn build(from: &ErasableCluster) -> (r: Result<ParsingCalculator, ParsingError>)
        ensures
            match spec_parse_into_expression(from@) {
                Ok(se) => r matches Ok(c) && c.spec_expression() == se,
                Err(pe) => r matches Err(e) && e@ == pe,
            },
    {
        match parse_into_expression(from.iter()) {
            Ok(expression) => Ok(ParsingCalculator { expression }),
            Err(e) => Err(e),
        }
    }

    /// The stored expression.
    pub fn expression(&self) -> (e: &Expression)
        ensures
            expression_model(e@) == self.spec_expression(),
    {
        &self.expression
    }
}

} // verus!
