//! Differentiation rules for shape-transforming tensor primitives.
//!
//! For each primitive operation (sum, max, expand, reshape, permute, pad,
//! crop) this crate defines the forward computation together with the state
//! it must capture, and the backward rule that turns an upstream gradient
//! into a gradient with respect to the operation's input. The tensor backend
//! itself is abstract: it is reached only through the capability trait in
//! [`tensor`], whose contracts name each operation's value with a spec-level
//! observer and state how it transforms shapes. Each op's contract then pins
//! its results to the exact composition of backend calls the rule makes.

pub mod ops;
pub mod shape;
pub mod tensor;
