//! The values that the language computes with before a model is expanded:
//! numbers, strings, booleans, graphs with their nodes and edges, tuples and
//! iterables, and the kind of each.
pub mod consts;
pub mod graph;
pub mod iterable;
pub mod kind;
pub mod primitive;
