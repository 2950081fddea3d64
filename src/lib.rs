//! A small interpreter for a Monkey-like language: a lexer that turns source
//! text into tokens, a recursive-descent parser that turns tokens into a
//! syntax tree, and a tree-walking evaluator with lexically scoped closures.
//!
//! Each stage is stated as mathematics and proved against it: `lexer::lexes_as`
//! for the lexer, the rules of `grammar` for the parser, and `eval::eval_node`
//! for the evaluator.
pub mod ast;
pub mod eval;
pub mod grammar;
pub mod lexer;
pub mod parser;
pub mod spelling;
pub mod token;
