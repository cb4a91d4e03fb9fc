//! A toy gravitational system: one dominant star, comets, planets, and
//! short-lived dust particles, advanced one fixed time step at a time.
//!
//! The verified core owns everything discrete about the simulation: identifier
//! assignment, lifetime bookkeeping, the eviction pass, the shape of the
//! pairwise interaction pass, dust spawning, and the Verlet-style bookkeeping
//! of current and previous positions.  Continuous state (masses, positions,
//! accelerations) is carried as IEEE-754 double bit patterns that the core
//! never interprets; every piece of real arithmetic goes through an injected
//! [`kernel::Kernel`], so the stepping logic is proved for every numeric
//! outcome the kernel can produce.

pub mod body;
pub mod kernel;
pub mod laws;
pub mod system;

pub use body::Body;
pub use body::BodyBuilder;
pub use body::BodyType;
pub use body::Vec2;
pub use kernel::Kernel;
pub use system::SimError;
pub use system::System;
