//! A small declarative language for flat geometry: numbers, vectors, points
//! and polygons, combined by a fixed catalog of builtins that are lifted
//! over collections.
//!
//! # Numbers
//!
//! A number is an IEEE-754 single-precision value, held as its bit pattern.
//! The library never computes with numbers itself: every sum, product,
//! cosine and so on is an [`arith::Arith`] request that it hands to a
//! function `num` of the caller's. The one thing it reads off a bit pattern
//! is whether it is a zero, to refuse a division.
//!
//! # Contracts
//!
//! Because the arithmetic is the caller's, a contract does not say what the
//! result *is* but how it *came about*: [`builtins::adds`] holds of two
//! operands and an outcome if the outcome is an answer of `num` to the sum
//! that the operands call for. Each relation reads "`r` is a possible
//! outcome of ...": [`broadcast::lifted`] for an operation lifted over
//! collections, [`builtins::applies`] for a builtin on its arguments,
//! [`expr::evaluates`] for an expression in an environment and
//! [`exec::runs`] for a program. Failure is part of each relation, with the
//! order in which failures are looked for.
//!
//! Where `num` answers each request in one way only, each relation admits
//! one outcome only: that is what the module [`unique`] proves. The modules
//! [`laws`] and [`shape`] hold what is true of the builtins whatever the
//! arithmetic.
//!
//! # Layout
//!
//! - [`arith`]: the requests.
//! - [`defs`]: values, the syntax tree and the environment, with their
//!   models.
//! - [`broadcast`]: lifting an operation on two elements over collections.
//! - [`builtins`]: the catalog, each builtin on two elements and lifted.
//! - [`expr`]: evaluating an expression.
//! - [`exec`]: running statements and programs.
//! - [`svg`]: the text of a picture.

pub mod arith;
pub mod broadcast;
pub mod builtins;
pub mod defs;
pub mod exec;
pub mod expr;
pub mod laws;
pub mod shape;
pub mod svg;
pub mod unique;
