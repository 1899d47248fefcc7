//! The front end of MLX's fused operations.
//!
//! [`fast`] turns the arguments of an operation into the call of MLX's C interface that carries
//! it out, [`forms`] tells the documented form of the results, [`form_laws`] holds these forms
//! to the arguments, and [`rope_2d`] models what the results of the two-dimensional rotation are
//! made of. [`metal`] configures the Metal backend. [`linkage`],
//! [`metallib`] and [`toolchain`] hold the decisions of the native build.

pub mod array;
pub mod error;
pub mod fast;
pub mod form_laws;
pub mod forms;
pub mod linkage;
pub mod metal;
pub mod metallib;
pub mod rope_2d;
pub mod text;
pub mod toolchain;
