//! Front end of a compiler for a dependently typed functional language:
//! a lexer, a lossless concrete syntax tree and the desugaring pass that
//! lowers that tree into a smaller core tree.

/// Source positions, spans and the tokens that the syntax tree keeps.
pub mod lexemes;
/// Tokens, lexical errors and their ranges.
pub mod tokens;
/// The scanner and its description.
pub mod lexer;
/// The concrete syntax tree.
pub mod concrete;
/// Shorthands for building expressions of the concrete tree.
pub mod builders;
/// The core tree.
pub mod desugared;
/// The pass from the concrete tree to the core tree.
pub mod desugar;
/// How diagnostics are drawn.
pub mod report;
