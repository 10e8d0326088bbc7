//! The static check of a model: the kind of every expression is inferred
//! from the kinds of the constants and of the names that blocks bind, and
//! every operator and built-in function is held to the kinds that it takes.
pub mod checker;
pub mod kinds;
pub mod tokens;
pub mod type_checker_context;
