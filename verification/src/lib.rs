//! Affine spatial transformations over an exact scalar type.
//!
//! A transform maps points and vectors of 3-space through uniform scale,
//! rotation and translation.  Two representations are provided:
//! [`transform::Decomposed`], the information-preserving
//! (scale, rotation, displacement) triple with the full operation set,
//! and [`matrix::AffineMatrix3`], the dense homogeneous matrix that
//! [`transform::Decomposed::to_matrix4`] converts to losslessly.  Every
//! operation's contract is stated over one mathematical model, the
//! affine map a value denotes ([`model::AffModel`]), so the two
//! representations can be held to the same algebra.
//!
//! All arithmetic is exact.  A scalar is a fraction of machine integers,
//! so every contract can speak of the value itself instead of a
//! floating-point tolerance.

pub mod gcd;
pub mod matrix;
pub mod model;
pub mod point;
pub mod ray;
pub mod rotation;
pub mod scalar;
pub mod transform;
pub mod vector;
