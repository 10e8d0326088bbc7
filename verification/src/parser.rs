//! From the source text to the expanded model: the tokens and the grammar
//! of the language, the parser that reads a source by them, the tree that
//! it hands over, the scopes in which the tree is evaluated, and the
//! expressions that come out.
pub mod ast;
pub mod evaluator;
pub mod exp;
pub mod frame;
pub mod functions;
pub mod grammar;
pub mod iterable_utils;
pub mod lexer;
pub mod pre_exp;
pub mod printer;
pub mod reader;
pub mod transformer;
