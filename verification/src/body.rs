//! The body record: one point mass of the simulation, together with the
//! fluent builder that configures it before it is handed to the system.

use vstd::prelude::*;

verus! {

/// Number of ticks a dust particle may survive; once its lifetime exceeds
/// this bound the eviction pass removes it.
pub const MAX_PARTICLE_AGE: u64 = 100;

/// IEEE-754 double bits of the default star mass, 1000.0.
pub const STAR_MASS_BITS: u64 = 0x408F_4000_0000_0000;

/// IEEE-754 double bits of the default comet mass, 1.0.
pub const COMET_MASS_BITS: u64 = 0x3FF0_0000_0000_0000;

/// IEEE-754 double bits of the dust particle mass, 0.00001.
pub const DUST_MASS_BITS: u64 = 0x3EE4_F8B5_88E3_68F1;

/// A plane vector whose two components are IEEE-754 double bit patterns.
///
/// The verified core stores and moves these words but never does arithmetic
/// on them; all real arithmetic is delegated to a [`crate::kernel::Kernel`].
/// The all-zero pattern is the bit image of the real vector (0.0, 0.0), so
/// resetting a vector to zero is a purely discrete operation.
#[derive(Clone, Copy, PartialEq, Eq, Structural, Debug)]
pub struct Vec2 {
    pub x: u64,
    pub y: u64,
}

impl Vec2 {
    /// The bit image of the real zero vector.
    pub open spec fn spec_zero() -> Vec2 {
        Vec2 { x: 0, y: 0 }
    }

    /// The bit image of the real zero vector.
    pub fn zero() -> (r: Vec2)
        ensures
            r == Vec2::spec_zero(),
    {
        Vec2 { x: 0, y: 0 }
    }
}

/// The closed set of body kinds.
#[derive(Clone, Copy, PartialEq, Eq, Structural, Debug)]
pub enum BodyType {
    Particle,
    Comet,
    Star,
    Planet,
}

/// The small discriminant code under which a kind is reported to the host
/// layer: Particle 0, Comet 1, Star 2, Planet 3.
pub open spec fn kind_code(k: BodyType) -> u8 {
    match k {
        BodyType::Particle => 0,
        BodyType::Comet => 1,
        BodyType::Star => 2,
        BodyType::Planet => 3,
    }
}

/// One point mass.
///
/// `prev_pos` is deliberately dual-purpose: while `lifetime == 0` (the body
/// has not yet been integrated) it holds the body's initial velocity; from
/// the first integration step on it holds the position of the previous tick.
/// `accel` is a transient accumulator: it is the zero pattern between ticks,
/// filled by the pairwise pass and reset when the body is integrated.
#[derive(Clone, Copy, PartialEq, Eq, Structural, Debug)]
pub struct Body {
    /// Stamped by [`crate::system::System::add`]; unique for the lifetime of
    /// the system and never reused, even after the body is evicted.
    pub id: u64,
    pub kind: BodyType,
    /// Count of integration steps this body has survived.
    pub lifetime: u64,
    /// IEEE-754 double bits of the body's mass.
    pub mass_bits: u64,
    /// Current position.
    pub pos: Vec2,
    /// Previous position, or initial velocity while `lifetime == 0`.
    pub prev_pos: Vec2,
    /// Acceleration accumulated by the current tick's pairwise pass.
    pub accel: Vec2,
}

impl Body {
    /// The star preset: the dominant mass, at rest at the origin.
    pub fn star() -> (b: Body)
        ensures
            b == (Body {
                id: 0,
                kind: BodyType::Star,
                lifetime: 0,
                mass_bits: STAR_MASS_BITS,
                pos: Vec2::spec_zero(),
                prev_pos: Vec2::spec_zero(),
                accel: Vec2::spec_zero(),
            }),
    {
        Body {
            id: 0,
            kind: BodyType::Star,
            lifetime: 0,
            mass_bits: STAR_MASS_BITS,
            pos: Vec2::zero(),
            prev_pos: Vec2::zero(),
            accel: Vec2::zero(),
        }
    }

    /// The comet preset, to be refined through the builder.
    pub fn comet() -> (b: BodyBuilder)
        ensures
            b.body == (Body {
                id: 0,
                kind: BodyType::Comet,
                lifetime: 0,
                mass_bits: COMET_MASS_BITS,
                pos: Vec2::spec_zero(),
                prev_pos: Vec2::spec_zero(),
                accel: Vec2::spec_zero(),
            }),
    {
        BodyBuilder {
            body: Body {
                id: 0,
                kind: BodyType::Comet,
                lifetime: 0,
                mass_bits: COMET_MASS_BITS,
                pos: Vec2::zero(),
                prev_pos: Vec2::zero(),
                accel: Vec2::zero(),
            },
        }
    }

    /// The dust preset.  `parent` provisionally fills the id field with the
    /// id of the comet that shed this particle; the system overwrites it with
    /// a fresh id when the particle is added.
    pub fn dust(parent: u64) -> (b: BodyBuilder)
        ensures
            b.body == (Body {
                id: parent,
                kind: BodyType::Particle,
                lifetime: 0,
                mass_bits: DUST_MASS_BITS,
                pos: Vec2::spec_zero(),
                prev_pos: Vec2::spec_zero(),
                accel: Vec2::spec_zero(),
            }),
    {
        BodyBuilder {
            body: Body {
                id: parent,
                kind: BodyType::Particle,
                lifetime: 0,
                mass_bits: DUST_MASS_BITS,
                pos: Vec2::zero(),
                prev_pos: Vec2::zero(),
                accel: Vec2::zero(),
            },
        }
    }

    /// Bits of the x coordinate of the current position.
    pub fn qx(&self) -> (r: u64)
        ensures
            r == self.pos.x,
    {
        self.pos.x
    }

    /// Bits of the y coordinate of the current position.
    pub fn qy(&self) -> (r: u64)
        ensures
            r == self.pos.y,
    {
        self.pos.y
    }

    /// Bits of the body's mass.
    pub fn mass(&self) -> (r: u64)
        ensures
            r == self.mass_bits,
    {
        self.mass_bits
    }

    /// The kind, as its small discriminant code.
    pub fn kind(&self) -> (r: u8)
        ensures
            r == kind_code(self.kind),
    {
        match self.kind {
            BodyType::Particle => 0,
            BodyType::Comet => 1,
            BodyType::Star => 2,
            BodyType::Planet => 3,
        }
    }

    /// The identifier stamped at insertion: the only stable handle across
    /// ticks, since positional indices are shuffled by the eviction pass.
    pub fn id(&self) -> (r: u64)
        ensures
            r == self.id,
    {
        self.id
    }

    /// How many integration steps this body has survived.
    pub fn lifetime(&self) -> (r: u64)
        ensures
            r == self.lifetime,
    {
        self.lifetime
    }
}

/// Fluent configuration of a body before it enters the system.
pub struct BodyBuilder {
    pub body: Body,
}

impl BodyBuilder {
    /// Overrides the mass with the given IEEE-754 double bits.
    pub fn mass(self, m: u64) -> (r: BodyBuilder)
        ensures
            r.body == (Body { mass_bits: m, ..self.body }),
    {
        let mut b = self.body;
        b.mass_bits = m;
        BodyBuilder { body: b }
    }

    /// Sets the initial position from IEEE-754 double bits.
    pub fn position(self, x: u64, y: u64) -> (r: BodyBuilder)
        ensures
            r.body == (Body { pos: Vec2 { x, y }, ..self.body }),
    {
        let mut b = self.body;
        b.pos = Vec2 { x, y };
        BodyBuilder { body: b }
    }

    /// Sets the initial velocity from IEEE-754 double bits; it is stored in
    /// the previous-position field, which doubles as the velocity until the
    /// body's first integration step.
    pub fn velocity(self, x: u64, y: u64) -> (r: BodyBuilder)
        ensures
            r.body == (Body { prev_pos: Vec2 { x, y }, ..self.body }),
    {
        let mut b = self.body;
        b.prev_pos = Vec2 { x, y };
        BodyBuilder { body: b }
    }

    /// Finishes the configuration.
    pub fn build(self) -> (r: Body)
        ensures
            r == self.body,
    {
        self.body
    }
}

} // verus!
