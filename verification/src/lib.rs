//! An interactive expression calculator, verified with Verus.
//!
//! Input is a sequence of single-character tokens ([`erasable::Erasable`]):
//! digits, operators, brackets, named constants, function names and
//! angle-unit markers. An editable buffer ([`erasable_cluster::ErasableCluster`])
//! holds the tokens together with a cursor. A recursive-descent parser
//! ([`parsers`]) turns the token sequence into an expression tree
//! ([`expression`]), and the evaluator ([`inexact`]) reduces the tree to a
//! numeric computation with an optional angle unit; the mode-cycling front
//! end ([`calculation`]) re-expresses one parsed expression in radians or
//! degrees on demand. The display modules carry the bookkeeping of the
//! nested pretty-printing layout, and [`attr_args`] the configuration of
//! the discriminant-string attribute the token alphabet is rendered with.

pub mod attr_args;
pub mod calculation;
pub mod display;
pub mod display_block;
pub mod display_segment;
pub mod erasable;
pub mod erasable_cluster;
pub mod errors;
pub mod expression;
pub mod helpers;
pub mod inexact;
pub mod parsers;
pub mod parsing_calculator;
pub mod range;
pub mod range_divider;
pub mod rational_number;
pub mod sign;
pub mod text;
pub mod wrapped_iter;
