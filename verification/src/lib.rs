//! Property propagation for differentially private analysis graphs.
//!
//! Every node of an analysis graph carries static properties of the data it
//! produces: its shape (columns, rows), whether values may be null, whether
//! they may be released, their nature (continuous bounds or categories) and
//! their stability.  This crate computes the properties of arithmetic,
//! logical and comparison transforms from the properties of their arguments,
//! expands the differentially private histogram into its primitive parts, and
//! combines noise with integer data for the geometric mechanism.
//!
//! Floating-point values never appear in this crate: wherever a property may
//! hold floats, the element type is a parameter `F`, and every operation on
//! such elements is a closure supplied by the caller.

pub mod error;
pub mod properties;
pub mod operators;
pub mod columns;
pub mod transforms;
pub mod components;
pub mod dp_histogram;
pub mod mechanisms;

