//! Moving-least-squares affine deformation of the plane.
//!
//! A deformation is given by control points and the targets to which they
//! move. For a query point, [`deform::deform_affine`] fits the affine map
//! that best carries the control points to their targets, with each control
//! point weighted by the inverse of its squared distance to the query, and
//! returns the image of the query under that map.
//!
//! All arithmetic is exact. Coordinates are rational numbers of arbitrary
//! size ([`scalar::Scalar`], over [`natural::Natural`]), so a result is never
//! rounded and never overflows, and the laws of the deformation hold to the
//! letter: see [`laws`].
//!
//! - [`natural`]: arbitrary-precision natural numbers;
//! - [`scalar`]: exact rational scalars;
//! - [`point`]: points and vectors of the plane;
//! - [`matrix`]: two-by-two matrices;
//! - [`algebra`]: identities of vector and matrix algebra;
//! - [`deform`]: the deformation and its mathematical model;
//! - [`laws`]: interpolation, identity, translation, degeneracy, determinism.

pub mod natural;
pub mod scalar;
pub mod point;
pub mod matrix;
pub mod algebra;
pub mod deform;
pub mod laws;
