//! Solving linear models: the simplex on a tableau of exact fractions, the
//! two phases that solve a model with it, the theorems that say what a
//! solve gives, and what is decided before a model is handed to another
//! solver.
//!
//! - [`tableau`], [`simplex`]: the tableau, the pivot, and the solve.
//! - [`algebra`], [`theorems`], [`rays`]: what a pivot keeps, what an
//!   optimum is, and why a tableau at which no row can leave has no least
//!   value.
//! - [`two_phase`]: what the solve of a model in standard form gives, step
//!   by step.
//! - [`extension`], [`phases`], [`tidy`]: how the solutions of a model, of
//!   its standard form and of the tableaux of the two phases belong
//!   together, and why the artificial variables stay out of the way.
//! - [`linear_solver`]: the solver itself.
//! - [`external`]: the errors of a solver outside this crate.
pub mod algebra;
pub mod extension;
pub mod external;
pub mod linear_solver;
pub mod phases;
pub mod rays;
pub mod simplex;
pub mod tableau;
pub mod theorems;
pub mod tidy;
pub mod two_phase;
