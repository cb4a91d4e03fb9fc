//! The numeric kernel: the collaborator that performs all real arithmetic
//! and supplies randomness.
//!
//! The verified core treats positions, velocities and masses as opaque
//! IEEE-754 bit patterns, so every floating-point formula of the simulation
//! is delegated to an implementation of this trait, injected into
//! [`crate::system::System::tick`].  The methods carry no contracts: the core
//! is verified for every value a kernel can return, and the random draw
//! behind [`Kernel::emit_trial`] makes two calls on equal arguments free to
//! disagree.  The doc comment of each method states the formula an
//! implementation is expected to compute, with the fixed constants
//! dt = 0.01, g = 0.00001, radiation coefficient 0.001 and escape radius 2.0.

use vstd::prelude::*;

use crate::body::Vec2;

verus! {

/// Real arithmetic and randomness for the simulation core.  All `Vec2` and
/// `u64` values are IEEE-754 double bit patterns.
pub trait Kernel {
    /// Whether the position `q` lies outside the simulated region:
    /// |q| > 2.0.  A body for which this holds is evicted.
    fn escaped(&self, q: Vec2) -> bool;

    /// The mutual gravitational kick of one unordered pair.  With
    /// u = (qj - qi)/r, r = |qj - qi| and f = u * g / r^2, returns the
    /// updated accelerations (ai + mj * f, aj - mi * f).  A coincident pair
    /// (r = 0) divides by zero; the core carries the resulting bit patterns
    /// unchanged, a documented limitation of the physics.
    fn gravitate(&self, ai: Vec2, aj: Vec2, qi: Vec2, qj: Vec2, mi: u64, mj: u64) -> (Vec2, Vec2);

    /// One Bernoulli trial deciding whether the comet at `qj` sheds a dust
    /// particle this tick: a uniform draw from [0, 1) compared against
    /// dt / r^2, with r the distance from the primary at `qi`.  The nominal
    /// probability is deliberately not clamped: below r = sqrt(dt) it
    /// exceeds 1 and the single trial always succeeds.
    fn emit_trial(&mut self, qi: Vec2, qj: Vec2) -> bool;

    /// Spawn state for a fresh dust particle shed by the comet at `qj`:
    /// returns (qj + u * dt, (qj - qpj) / dt), the offset spawn position
    /// along the unit separation u from the primary at `qi`, and the
    /// finite-difference velocity estimate from the comet's previous
    /// position `qpj`.
    fn spawn_state(&self, qi: Vec2, qj: Vec2, qpj: Vec2) -> (Vec2, Vec2);

    /// Radiation pressure from the primary at `qi` on the body at `qj` of
    /// mass `mj`: returns aj + 0.001 * u / (r^2 * sqrt(mj)).  Undefined for
    /// non-positive mass, a documented validation gap: the builder does not
    /// reject such masses and the core carries whatever bits come back.
    fn radiate(&self, aj: Vec2, qi: Vec2, qj: Vec2, mj: u64) -> Vec2;

    /// First integration step of a newborn body, whose previous-position
    /// field still holds its initial velocity v: returns
    /// q + v * dt + 0.5 * a * dt^2.
    fn step_first(&self, q: Vec2, v: Vec2, a: Vec2) -> Vec2;

    /// Stoermer-Verlet step for a body with a genuine previous position:
    /// returns 2 * q - qp + a * dt^2.
    fn step_verlet(&self, q: Vec2, qp: Vec2, a: Vec2) -> Vec2;
}

} // verus!
