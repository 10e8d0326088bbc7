//! A compiler from a small modelling language for optimisation problems to
//! linear models, together with the exact arithmetic those models are solved
//! with.
//!
//! A source text is read into a tree ([`parser::reader`], after the grammar
//! of [`parser::grammar`]), the kinds of its parts are checked
//! ([`type_checker`]), its blocks are unrolled over the constants of the
//! model ([`parser::transformer`]), what comes out is brought into linear
//! form and into standard form ([`transformers`]), and the model is solved
//! by the simplex ([`solvers`]). [`pipeline`] puts the steps together.
//!
//! Every number in this crate is exact: source literals are kept as decimals
//! ([`number::Number`]) and the solver works on reduced fractions
//! ([`fraction::Fraction`]), so that every contract is a statement about
//! mathematical integers and real numbers.
pub mod error;
pub mod fraction;
pub mod math;
pub mod number;
pub mod parser;
pub mod pipeline;
pub mod primitives;
pub mod solvers;
pub mod span;
pub mod text;
pub mod transformers;
pub mod type_checker;
