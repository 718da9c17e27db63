//! Forward-mode automatic differentiation with dual numbers.
//!
//! A dual number carries a value together with its derivative, so one
//! forward evaluation of a function yields both the function's value and
//! exact directional derivatives.  The arithmetic core is generic over a
//! [`fluid::Value`] (the "real" component) and a [`fluid::Grad`] (the
//! derivative storage), with four interchangeable storage shapes: scalar,
//! fixed-size array, dynamic vector and sparse key map.

pub mod fixed;
pub mod fluid;
pub mod interop;
pub mod solid;
