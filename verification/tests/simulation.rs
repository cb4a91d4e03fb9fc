//! End-to-end tests driving the simulation with a real numeric kernel:
//! nalgebra does the vector arithmetic and the random draws are scripted,
//! so every run is deterministic.

use cometsim::Body;
use cometsim::BodyType;
use cometsim::Kernel;
use cometsim::SimError;
use cometsim::System;
use cometsim::Vec2;
use nalgebra::Vector2;

const DT: f64 = 0.01;
const G: f64 = 0.00001;
const RAD: f64 = 0.001;

fn bv(v: Vec2) -> Vector2<f64> {
    Vector2::new(f64::from_bits(v.x), f64::from_bits(v.y))
}

fn vb(v: Vector2<f64>) -> Vec2 {
    Vec2 { x: v.x.to_bits(), y: v.y.to_bits() }
}

/// The reference kernel: the simulation's floating-point formulas over
/// nalgebra vectors, with a scripted sequence of uniform draws.
struct ScriptedKernel {
    draws: Vec<f64>,
    next: usize,
}

impl ScriptedKernel {
    fn new(draws: &[f64]) -> ScriptedKernel {
        ScriptedKernel { draws: draws.to_vec(), next: 0 }
    }
}

impl Kernel for ScriptedKernel {
    fn escaped(&self, q: Vec2) -> bool {
        bv(q).norm() > 2.0
    }

    fn gravitate(&self, ai: Vec2, aj: Vec2, qi: Vec2, qj: Vec2, mi: u64, mj: u64) -> (Vec2, Vec2) {
        let (qi, qj) = (bv(qi), bv(qj));
        let (mi, mj) = (f64::from_bits(mi), f64::from_bits(mj));
        let u = qj - qi;
        let r = u.norm();
        let u = u / r;
        let r2 = r * r;
        let f = u * G / r2;
        (vb(bv(ai) + mj * f), vb(bv(aj) + -mi * f))
    }

    fn emit_trial(&mut self, qi: Vec2, qj: Vec2) -> bool {
        let u = bv(qj) - bv(qi);
        let r = u.norm();
        let r2 = r * r;
        let d = self.draws[self.next];
        self.next += 1;
        d < DT / r2
    }

    fn spawn_state(&self, qi: Vec2, qj: Vec2, qpj: Vec2) -> (Vec2, Vec2) {
        let (qi, qj, qpj) = (bv(qi), bv(qj), bv(qpj));
        let u0 = qj - qi;
        let r = u0.norm();
        let u = u0 / r;
        let v = (qj - qpj) / DT;
        let dq = qj + u * DT;
        (vb(dq), vb(v))
    }

    fn radiate(&self, aj: Vec2, qi: Vec2, qj: Vec2, mj: u64) -> Vec2 {
        let (qi, qj) = (bv(qi), bv(qj));
        let mj = f64::from_bits(mj);
        let u0 = qj - qi;
        let r = u0.norm();
        let u = u0 / r;
        let r2 = r * r;
        vb(bv(aj) + RAD * u / (r2 * mj.sqrt()))
    }

    fn step_first(&self, q: Vec2, v: Vec2, a: Vec2) -> Vec2 {
        vb(bv(q) + bv(v) * DT + 0.5 * bv(a) * DT * DT)
    }

    fn step_verlet(&self, q: Vec2, qp: Vec2, a: Vec2) -> Vec2 {
        vb(2.0 * bv(q) - bv(qp) + bv(a) * DT * DT)
    }
}

fn single(b: Body) -> System {
    let mut s = System::new();
    s.add(b);
    s
}

#[test]
fn default_masses_are_the_documented_reals() {
    assert_eq!(Body::star().mass(), 1000.0f64.to_bits());
    assert_eq!(Body::comet().build().mass(), 1.0f64.to_bits());
    assert_eq!(Body::dust(7).build().mass(), 0.00001f64.to_bits());
}

#[test]
fn presets_have_the_documented_kind_codes() {
    assert_eq!(Body::star().kind(), 2);
    assert_eq!(Body::comet().build().kind(), 1);
    assert_eq!(Body::dust(0).build().kind(), 0);
    let planet = Body {
        id: 0,
        kind: BodyType::Planet,
        lifetime: 0,
        mass_bits: 1.0f64.to_bits(),
        pos: Vec2 { x: 0, y: 0 },
        prev_pos: Vec2 { x: 0, y: 0 },
        accel: Vec2 { x: 0, y: 0 },
    };
    assert_eq!(planet.kind(), 3);
}

#[test]
fn builder_overrides_mass_and_position() {
    let b = Body::comet()
        .mass(2.5f64.to_bits())
        .position(0.25f64.to_bits(), (-0.5f64).to_bits())
        .build();
    assert_eq!(b.mass(), 2.5f64.to_bits());
    assert_eq!(b.qx(), 0.25f64.to_bits());
    assert_eq!(b.qy(), (-0.5f64).to_bits());
    assert_eq!(b.lifetime(), 0);
}

#[test]
fn positional_lookup_fails_beyond_count() {
    let s = System::new();
    assert_eq!(s.count(), 0);
    assert_eq!(s.body(0), Err(SimError::IndexOutOfRange));
    let s = single(Body::star());
    assert_eq!(s.count(), 1);
    assert!(s.body(0).is_ok());
    assert_eq!(s.body(1), Err(SimError::IndexOutOfRange));
}

#[test]
fn ids_increase_across_adds_and_are_never_reused() {
    let mut s = System::new();
    s.add(Body::star());
    s.add(Body::comet().position(3.0f64.to_bits(), 0).build());
    assert_eq!(s.body(0).unwrap().id(), 0);
    assert_eq!(s.body(1).unwrap().id(), 1);
    // the far comet escapes at the first tick and is evicted
    let mut k = ScriptedKernel::new(&[]);
    s.tick(&mut k);
    assert_eq!(s.count(), 1);
    // the freed id is not handed out again
    s.add(Body::comet().build());
    assert_eq!(s.body(1).unwrap().id(), 2);
}

#[test]
fn tick_on_empty_system_is_a_clean_no_op() {
    let mut s = System::new();
    let mut k = ScriptedKernel::new(&[]);
    s.tick(&mut k);
    assert_eq!(s.count(), 0);
}

#[test]
fn lone_body_ticks_without_forces() {
    // a single body feels no pairwise pass: a star at rest stays put
    let mut s = single(Body::star());
    let mut k = ScriptedKernel::new(&[]);
    s.tick(&mut k);
    assert_eq!(s.count(), 1);
    let b = s.body(0).unwrap();
    assert_eq!(b.qx(), 0.0f64.to_bits());
    assert_eq!(b.qy(), 0.0f64.to_bits());
    assert_eq!(b.lifetime(), 1);
}

#[test]
fn first_tick_moves_a_lone_body_by_velocity_times_dt() {
    let mut s = single(
        Body::comet()
            .position(0.5f64.to_bits(), 0.75f64.to_bits())
            .velocity(0.5f64.to_bits(), (-0.25f64).to_bits())
            .build(),
    );
    let mut k = ScriptedKernel::new(&[]);
    s.tick(&mut k);
    let b = s.body(0).unwrap();
    // zero acceleration: the seed step is exactly q + v dt
    let expect = Vector2::new(0.5, 0.75) + Vector2::new(0.5, -0.25) * DT;
    assert_eq!(b.qx(), expect.x.to_bits());
    assert_eq!(b.qy(), expect.y.to_bits());
}

#[test]
fn later_ticks_follow_the_verlet_update() {
    let mut s = single(
        Body::comet()
            .position(0.5f64.to_bits(), 0.75f64.to_bits())
            .velocity(0.5f64.to_bits(), (-0.25f64).to_bits())
            .build(),
    );
    let mut k = ScriptedKernel::new(&[]);
    let q0 = Vector2::new(0.5, 0.75);
    s.tick(&mut k);
    let b1 = s.body(0).unwrap();
    let q1 = Vector2::new(f64::from_bits(b1.qx()), f64::from_bits(b1.qy()));
    s.tick(&mut k);
    let b2 = s.body(0).unwrap();
    // still no forces, so the step is exactly 2 q1 - q0
    let expect = 2.0 * q1 - q0 + Vector2::zeros() * DT * DT;
    assert_eq!(b2.qx(), expect.x.to_bits());
    assert_eq!(b2.qy(), expect.y.to_bits());
    assert_eq!(b2.lifetime(), 2);
}

#[test]
fn lone_dust_ages_out_after_its_hundred_ticks() {
    let mut s = single(Body::dust(0).build());
    let mut k = ScriptedKernel::new(&[]);
    for _ in 0..100 {
        s.tick(&mut k);
    }
    assert_eq!(s.count(), 1);
    assert_eq!(s.body(0).unwrap().lifetime(), 100);
    // the eviction pass fires only once the lifetime exceeds the bound
    s.tick(&mut k);
    assert_eq!(s.count(), 1);
    assert_eq!(s.body(0).unwrap().lifetime(), 101);
    s.tick(&mut k);
    assert_eq!(s.count(), 0);
}

#[test]
fn aged_planet_is_not_dust_and_stays() {
    // only Particle-kind bodies age out
    let planet = Body {
        id: 0,
        kind: BodyType::Planet,
        lifetime: 500,
        mass_bits: 1.0f64.to_bits(),
        pos: Vec2 { x: 0, y: 0 },
        prev_pos: Vec2 { x: 0, y: 0 },
        accel: Vec2 { x: 0, y: 0 },
    };
    let mut s = single(planet);
    let mut k = ScriptedKernel::new(&[]);
    s.tick(&mut k);
    assert_eq!(s.count(), 1);
    assert_eq!(s.body(0).unwrap().lifetime(), 501);
}

#[test]
fn body_pushed_outside_the_region_is_gone_next_tick() {
    let mut s = single(
        Body::comet()
            .position(1.9f64.to_bits(), 0)
            .velocity(50.0f64.to_bits(), 0)
            .build(),
    );
    let mut k = ScriptedKernel::new(&[]);
    s.tick(&mut k);
    // the integration step carried it to 2.4, beyond the escape radius
    assert_eq!(s.count(), 1);
    let expect = Vector2::new(1.9, 0.0) + Vector2::new(50.0, 0.0) * DT;
    assert_eq!(s.body(0).unwrap().qx(), expect.x.to_bits());
    // the next tick's eviction pass removes it
    s.tick(&mut k);
    assert_eq!(s.count(), 0);
}

#[test]
fn escaped_body_is_evicted_whatever_its_kind() {
    let mut s = System::new();
    s.add(Body::star());
    s.add(Body::comet().position(3.0f64.to_bits(), 0).build());
    let mut k = ScriptedKernel::new(&[]);
    s.tick(&mut k);
    assert_eq!(s.count(), 1);
    assert_eq!(s.body(0).unwrap().kind(), 2);
}

#[test]
fn two_body_golden_comet_step() {
    let mut s = System::new();
    s.add(Body::star());
    s.add(
        Body::comet()
            .position(1.0f64.to_bits(), 0)
            .velocity(0, 1.0f64.to_bits())
            .build(),
    );
    // a draw of 1.0 is never below the threshold dt / r^2 = 0.01: no dust
    let mut k = ScriptedKernel::new(&[1.0]);
    s.tick(&mut k);
    assert_eq!(s.count(), 2);
    let c = s.body(1).unwrap();
    assert_eq!(c.kind(), 1);
    // replay the pairwise formulas for the comet's acceleration
    let qi = Vector2::new(0.0, 0.0);
    let qj = Vector2::new(1.0, 0.0);
    let u0 = qj - qi;
    let r = u0.norm();
    let u = u0 / r;
    let r2 = r * r;
    let f = u * G / r2;
    let mut a = Vector2::zeros() + -1000.0 * f;
    a += RAD * u / (r2 * 1.0f64.sqrt());
    let expect = qj + Vector2::new(0.0, 1.0) * DT + 0.5 * a * DT * DT;
    assert_eq!(c.qx(), expect.x.to_bits());
    assert_eq!(c.qy(), expect.y.to_bits());
    // numeric sanity: gravity pulls in, radiation pushes out, net -0.009
    assert!((f64::from_bits(c.qx()) - (1.0 - 4.5e-7)).abs() < 1e-12);
    assert_eq!(f64::from_bits(c.qy()), 0.01);
}

#[test]
fn spawned_dust_is_newborn_and_unintegrated_for_its_first_tick() {
    let mut s = System::new();
    s.add(Body::star());
    s.add(Body::comet().position(0.5f64.to_bits(), 0).build());
    // dt / r^2 = 0.04 and the draw is below it: the comet sheds dust
    let mut k = ScriptedKernel::new(&[0.0]);
    s.tick(&mut k);
    assert_eq!(s.count(), 3);
    let d = s.body(2).unwrap();
    assert_eq!(d.kind(), 0);
    assert_eq!(d.lifetime(), 0);
    assert_eq!(d.mass(), 0.00001f64.to_bits());
    assert_eq!(d.id(), 2);
    // it sits at the spawn offset, untouched by this tick's integration
    let expect = Vector2::new(0.5, 0.0) + Vector2::new(1.0, 0.0) * DT;
    assert_eq!(d.qx(), expect.x.to_bits());
    assert_eq!(d.qy(), expect.y.to_bits());
}

#[test]
fn spawn_frequency_follows_the_unclamped_threshold() {
    // a comet held at r = 0.5 from the primary: threshold dt / r^2 = 0.04
    let draws = [0.03, 0.05, 0.01, 0.039, 0.04, 0.7, 0.039999, 0.2];
    let mut spawns = 0;
    for &d in draws.iter() {
        let mut s = System::new();
        s.add(Body::star());
        s.add(Body::comet().position(0.5f64.to_bits(), 0).build());
        let mut k = ScriptedKernel::new(&[d]);
        s.tick(&mut k);
        if s.count() == 3 {
            spawns += 1;
        }
    }
    assert_eq!(spawns, draws.iter().filter(|&&d| d < 0.04).count());
    // below r = sqrt(dt) the threshold exceeds 1 and is deliberately not
    // clamped: a single trial is drawn and every uniform draw succeeds
    for &d in [0.0, 0.5, 0.999999].iter() {
        let mut s = System::new();
        s.add(Body::star());
        s.add(Body::comet().position(0.05f64.to_bits(), 0).build());
        let mut k = ScriptedKernel::new(&[d]);
        s.tick(&mut k);
        assert_eq!(s.count(), 3);
    }
}

#[test]
fn coincident_pair_propagates_nan_as_documented() {
    // two bodies at the same point divide by zero in the unit-vector
    // computation; the library's documented policy is to carry the
    // resulting bit patterns, not to patch the physics
    let mut s = System::new();
    s.add(Body::star());
    s.add(Body::comet().build());
    // dt / r^2 is infinite, so the single trial always succeeds
    let mut k = ScriptedKernel::new(&[0.5]);
    s.tick(&mut k);
    assert_eq!(s.count(), 3);
    assert!(f64::from_bits(s.body(0).unwrap().qx()).is_nan());
    assert!(f64::from_bits(s.body(1).unwrap().qx()).is_nan());
}
