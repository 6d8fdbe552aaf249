//! Math core for a ray tracer: an exact three-component vector type and a
//! parametric ray, with every operation verified against a rational-number
//! model. Components are exact fractions of 64-bit integers, so the algebraic
//! laws of vector arithmetic (commutativity, inverses, anticommutativity of
//! the cross product, and so on) hold exactly and are proved, not sampled.

pub mod ray;
pub mod scalar;
pub mod vec3;
