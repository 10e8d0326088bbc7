//! Linear models and their standard form.
pub mod linear_model;
pub mod linearizer;
pub mod standardizer;
