//! Escape-time fractal core: growth classification of iterated points and
//! the mapping from growth results to colors.
//!
//! The numeric driving of the complex recurrence lives outside this crate;
//! the library holds the discrete logic of the pipeline — palette
//! construction, growth classification over observed escape tests, the
//! growth-to-color rule, and the integer pixel geometry — each with a
//! verified contract.

pub mod color;
pub mod growth;
pub mod render;
