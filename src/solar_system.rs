use vstd::prelude::*;
use crate::geometry::{Color, Vec3, LIMIT, bounded, origin, div_floor};
use crate::trig::{TURN, UNIT, NORM_TOLERANCE, sin_of, cos_of, sine, cosine, lemma_unit_circle};

verus! {

/// Sub-millidegree steps per millidegree of phase: the motion
/// `speed · Δt · time_scale` of one step, with `Δt` and `time_scale` in
/// units of `1 / UNIT`, is a whole number of these, so none of it is lost.
pub open spec fn fine_unit() -> int {
    UNIT * UNIT
}

/// One full turn in sub-millidegree steps.
pub open spec fn fine_turn() -> int {
    TURN * fine_unit()
}

/// How far a body turns in one step, in sub-millidegree steps.
pub open spec fn motion(speed: int, delta_time: int, time_scale: int) -> int {
    speed * delta_time * time_scale
}

/// One orbiting entity (or the fixed central body) and its circular orbit.
pub struct CelestialBody {
    pub name: String,
    /// Relative rendering size, in units of `1 / UNIT`.
    pub radius: i64,
    /// Distance from the origin, in units of `1 / UNIT`; 0 for the central body.
    pub orbit_radius: i64,
    /// Angular velocity, in millidegrees per unit of simulated time.
    pub orbit_speed: i64,
    /// Orbital phase, in whole millidegrees, always in `0..TURN`.
    pub current_angle: i64,
    /// The part of the phase below a millidegree, in `0..UNIT²` steps of
    /// `1 / UNIT²` millidegree.
    pub angle_remainder: i64,
    pub color: Color,
    pub is_sun: bool,
}

impl CelestialBody {
    pub open spec fn wf(&self) -> bool {
        &&& 0 <= self.current_angle < TURN
        &&& 0 <= self.angle_remainder < fine_unit()
        &&& 0 <= self.radius <= LIMIT
        &&& 0 <= self.orbit_radius <= LIMIT
        &&& -LIMIT <= self.orbit_speed <= LIMIT
    }

    /// The whole phase in sub-millidegree steps.
    pub open spec fn phase(self) -> int {
        self.current_angle * fine_unit() + self.angle_remainder
    }

    /// The body after one simulation step of `delta_time` at `time_scale`:
    /// its phase moves by the exact motion, renormalised into one turn.
    pub open spec fn advanced(self, delta_time: int, time_scale: int) -> CelestialBody {
        if self.is_sun {
            self
        } else {
            let next = (self.phase() + motion(self.orbit_speed as int, delta_time, time_scale))
                % fine_turn();
            CelestialBody {
                current_angle: (next / fine_unit()) as i64,
                angle_remainder: (next % fine_unit()) as i64,
                ..self
            }
        }
    }

    /// The body after a sequence of steps, each a pair `(Δt, time_scale)`.
    pub open spec fn advanced_through(self, steps: Seq<(i64, i64)>) -> CelestialBody
        decreases steps.len(),
    {
        if steps.len() == 0 {
            self
        } else {
            self.advanced(steps[0].0 as int, steps[0].1 as int).advanced_through(steps.drop_first())
        }
    }

    /// Where the body stands: the origin for the central body, otherwise on a
    /// circle of `orbit_radius` in the XZ plane.
    pub open spec fn position(self) -> Vec3 {
        if self.is_sun {
            origin()
        } else {
            Vec3 {
                x: (self.orbit_radius * cos_of(self.current_angle as int) / UNIT as int) as i64,
                y: 0,
                z: (self.orbit_radius * sin_of(self.current_angle as int) / UNIT as int) as i64,
            }
        }
    }

    pub fn new(
        name: &str,
        radius: i64,
        orbit_radius: i64,
        orbit_speed: i64,
        color: Color,
        is_sun: bool,
    ) -> (r: CelestialBody)
        requires
            0 <= radius <= LIMIT,
            0 <= orbit_radius <= LIMIT,
            -LIMIT <= orbit_speed <= LIMIT,
        ensures
            r.wf(),
            r.name@ == name@,
            r.radius == radius,
            r.orbit_radius == orbit_radius,
            r.orbit_speed == orbit_speed,
            r.current_angle == 0,
            r.angle_remainder == 0,
            r.color == color,
            r.is_sun == is_sun,
    {
        let owned = name.to_string();
        proof {
            vstd::string::to_string_from_display_ensures_for_str(name, owned);
        }
        CelestialBody { name: owned, radius, orbit_radius, orbit_speed, current_angle: 0, angle_remainder: 0, color, is_sun }
    }

    /// Advances the orbital phase by `orbit_speed · delta_time · time_scale`,
    /// renormalised into `0..TURN`; the central body does not move.
    pub fn update(&mut self, delta_time: i64, time_scale: i64)
        requires
            old(self).wf(),
            -LIMIT <= delta_time <= LIMIT,
            -LIMIT <= time_scale <= LIMIT,
        ensures
            *final(self) == old(self).advanced(delta_time as int, time_scale as int),
            final(self).wf(),
    {
        if !self.is_sun {
            let speed = self.orbit_speed as i128;
            let dt = delta_time as i128;
            let scale = time_scale as i128;
            proof {
                let l = LIMIT as int;
                assert(-l * l <= speed * dt <= l * l) by (nonlinear_arith)
                    requires
                        -l <= speed <= l,
                        -l <= dt <= l,
                ;
                assert(-l * l * l <= speed * dt * scale <= l * l * l) by (nonlinear_arith)
                    requires
                        -l * l <= speed * dt <= l * l,
                        -l <= scale <= l,
                ;
            }
            let product = speed * dt * scale;
            let unit2: i128 = 100_000_000;
            let turn2: i128 = 36_000_000_000_000;
            assert(unit2 == fine_unit() && turn2 == fine_turn());
            let partial = match product.checked_rem_euclid(turn2) {
                Some(m) => m,
                None => 0,
            };
            let phase = self.current_angle as i128 * unit2 + self.angle_remainder as i128;
            let next = (phase + partial) % turn2;
            proof {
                vstd::arithmetic::div_mod::lemma_add_mod_noop_right(
                    phase as int,
                    product as int,
                    turn2 as int,
                );
                lemma_split_phase(next as int);
            }
            self.angle_remainder = (next % unit2) as i64;
            self.current_angle = (next / unit2) as i64;
        }
    }

    /// The body's position in world space (see `position`).
    pub fn get_position(&self) -> (r: Vec3)
        requires
            self.wf(),
        ensures
            r == self.position(),
    {
        if self.is_sun {
            Vec3 { x: 0, y: 0, z: 0 }
        } else {
            let c = cosine(self.current_angle);
            let s = sine(self.current_angle);
            proof {
                let l = LIMIT as int;
                let r = self.orbit_radius as int;
                assert(-l * UNIT <= r * c <= l * UNIT) by (nonlinear_arith)
                    requires
                        0 <= r <= l,
                        -UNIT <= c <= UNIT,
                ;
                assert(-l * UNIT <= r * s <= l * UNIT) by (nonlinear_arith)
                    requires
                        0 <= r <= l,
                        -UNIT <= s <= UNIT,
                ;
            }
            let x = div_floor(self.orbit_radius * c, UNIT);
            let z = div_floor(self.orbit_radius * s, UNIT);
            Vec3 { x, y: 0, z }
        }
    }
}

/// Rendering sizes of the initial bodies, central body first.
pub open spec fn initial_radii() -> Seq<int> {
    seq![1500, 300, 600, 600, 400, 1200, 1000, 800, 800]
}

/// Orbit radii of the initial bodies.
pub open spec fn initial_orbits() -> Seq<int> {
    seq![0, 5000, 8000, 12000, 16000, 25000, 35000, 45000, 55000]
}

/// Angular speeds of the initial bodies, in millidegrees per unit of time.
pub open spec fn initial_speeds() -> Seq<int> {
    seq![0, 2292, 1719, 1146, 859, 458, 344, 229, 172]
}

/// Colours of the initial bodies.
pub open spec fn initial_colors() -> Seq<Color> {
    seq![
        Color { r: 10000, g: 9000, b: 0 },
        Color { r: 7000, g: 7000, b: 7000 },
        Color { r: 9000, g: 8000, b: 5000 },
        Color { r: 2000, g: 5000, b: 8000 },
        Color { r: 8000, g: 4000, b: 2000 },
        Color { r: 8000, g: 7000, b: 6000 },
        Color { r: 9000, g: 8000, b: 6000 },
        Color { r: 5000, g: 8000, b: 9000 },
        Color { r: 3000, g: 5000, b: 9000 },
    ]
}

/// The cast of bodies and the multiplier applied to every time step.
pub struct SolarSystem {
    /// Bodies in a fixed order; the index is the only handle to a body.
    pub bodies: Vec<CelestialBody>,
    /// Multiplier on `Δt`, in units of `1 / UNIT`; 0 freezes, negative reverses.
    pub time_scale: i64,
}

impl SolarSystem {
    pub open spec fn wf(&self) -> bool {
        &&& forall|i: int| 0 <= i < self.bodies@.len() ==> (#[trigger] self.bodies@[i]).wf()
        &&& -LIMIT <= self.time_scale <= LIMIT
    }

    /// The central body and eight planets, all at phase 0, with a time scale of 1.
    pub open spec fn is_initial(self) -> bool {
        &&& self.bodies@.len() == 9
        &&& self.time_scale == UNIT
        &&& forall|i: int|
            0 <= i < 9 ==> {
                &&& (#[trigger] self.bodies@[i]).is_sun == (i == 0)
                &&& self.bodies@[i].current_angle == 0
                &&& self.bodies@[i].angle_remainder == 0
                &&& self.bodies@[i].radius == initial_radii()[i]
                &&& self.bodies@[i].orbit_radius == initial_orbits()[i]
                &&& self.bodies@[i].orbit_speed == initial_speeds()[i]
                &&& self.bodies@[i].color == initial_colors()[i]
            }
        &&& self.bodies@[0].name@ == "Sun"@
        &&& self.bodies@[1].name@ == "Mercury"@
        &&& self.bodies@[2].name@ == "Venus"@
        &&& self.bodies@[3].name@ == "Earth"@
        &&& self.bodies@[4].name@ == "Mars"@
        &&& self.bodies@[5].name@ == "Jupiter"@
        &&& self.bodies@[6].name@ == "Saturn"@
        &&& self.bodies@[7].name@ == "Uranus"@
        &&& self.bodies@[8].name@ == "Neptune"@
    }

    /// The initial cast (see `is_initial`).
    pub fn new() -> (r: SolarSystem)
        ensures
            r.wf(),
            r.is_initial(),
    {
        let mut bodies: Vec<CelestialBody> = Vec::new();
        bodies.push(CelestialBody::new("Sun", 1500, 0, 0, Color::new(10000, 9000, 0), true));
        bodies.push(CelestialBody::new("Mercury", 300, 5000, 2292, Color::new(7000, 7000, 7000), false));
        bodies.push(CelestialBody::new("Venus", 600, 8000, 1719, Color::new(9000, 8000, 5000), false));
        bodies.push(CelestialBody::new("Earth", 600, 12000, 1146, Color::new(2000, 5000, 8000), false));
        bodies.push(CelestialBody::new("Mars", 400, 16000, 859, Color::new(8000, 4000, 2000), false));
        bodies.push(CelestialBody::new("Jupiter", 1200, 25000, 458, Color::new(8000, 7000, 6000), false));
        bodies.push(CelestialBody::new("Saturn", 1000, 35000, 344, Color::new(9000, 8000, 6000), false));
        bodies.push(CelestialBody::new("Uranus", 800, 45000, 229, Color::new(5000, 8000, 9000), false));
        bodies.push(CelestialBody::new("Neptune", 800, 55000, 172, Color::new(3000, 5000, 9000), false));
        let r = SolarSystem { bodies, time_scale: UNIT };
        assert forall|i: int| 0 <= i < 9 implies {
            &&& (#[trigger] r.bodies@[i]).is_sun == (i == 0)
            &&& r.bodies@[i].current_angle == 0
            &&& r.bodies@[i].angle_remainder == 0
            &&& r.bodies@[i].radius == initial_radii()[i]
            &&& r.bodies@[i].orbit_radius == initial_orbits()[i]
            &&& r.bodies@[i].orbit_speed == initial_speeds()[i]
            &&& r.bodies@[i].color == initial_colors()[i]
        } by {
            assert(0 <= i < 9);
        }
        r
    }

    /// Advances every body by one step of `delta_time` at the current time scale.
    pub fn update(&mut self, delta_time: i64)
        requires
            old(self).wf(),
            -LIMIT <= delta_time <= LIMIT,
        ensures
            final(self).wf(),
            final(self).time_scale == old(self).time_scale,
            final(self).bodies@.len() == old(self).bodies@.len(),
            forall|i: int|
                0 <= i < old(self).bodies@.len() ==> #[trigger] final(self).bodies@[i] == old(
                    self,
                ).bodies@[i].advanced(delta_time as int, old(self).time_scale as int),
    {
        let n = self.bodies.len();
        let mut i: usize = 0;
        while i < n
            invariant
                n == self.bodies@.len(),
                n == old(self).bodies@.len(),
                self.time_scale == old(self).time_scale,
                -LIMIT <= self.time_scale <= LIMIT,
                -LIMIT <= delta_time <= LIMIT,
                0 <= i <= n,
                forall|j: int| 0 <= j < n ==> (#[trigger] self.bodies@[j]).wf(),
                forall|j: int|
                    0 <= j < i ==> #[trigger] self.bodies@[j] == old(self).bodies@[j].advanced(
                        delta_time as int,
                        old(self).time_scale as int,
                    ),
                forall|j: int| i <= j < n ==> #[trigger] self.bodies@[j] == old(self).bodies@[j],
            decreases n - i,
        {
            let scale = self.time_scale;
            self.bodies[i].update(delta_time, scale);
            i += 1;
        }
    }

    /// Replaces the multiplier; it applies from the next `update` on.
    pub fn set_time_scale(&mut self, scale: i64)
        requires
            -LIMIT <= scale <= LIMIT,
        ensures
            final(self).time_scale == scale,
            final(self).bodies == old(self).bodies,
    {
        self.time_scale = scale;
    }

    /// Mutable access to the body at `index`, or nothing when the index is out
    /// of range; the rest of the system is left as it was.
    pub fn get_body_mut(&mut self, index: usize) -> (r: Option<&mut CelestialBody>)
        ensures
            index < old(self).bodies@.len() ==> r is Some,
            index >= old(self).bodies@.len() ==> r is None && *final(self) == *old(self),
            match r {
                Some(b) => {
                    &&& *b == old(self).bodies@[index as int]
                    &&& final(self).bodies@ == old(self).bodies@.update(index as int, *final(b))
                    &&& final(self).time_scale == old(self).time_scale
                },
                None => true,
            },
    {
        if index < self.bodies.len() {
            Some(&mut self.bodies[index])
        } else {
            None
        }
    }

    /// The body at `index`, or nothing when the index is out of range.
    pub fn get_body(&self, index: usize) -> (r: Option<&CelestialBody>)
        ensures
            index < self.bodies@.len() ==> r == Some(&self.bodies@[index as int]),
            index >= self.bodies@.len() ==> r.is_none(),
    {
        if index < self.bodies.len() {
            Some(&self.bodies[index])
        } else {
            None
        }
    }
}

/// A phase within one turn splits into whole millidegrees within the turn
/// and a remainder, which put together give it back.
proof fn lemma_split_phase(p: int)
    requires
        0 <= p < fine_turn(),
    ensures
        0 <= p / fine_unit() < TURN,
        0 <= p % fine_unit() < fine_unit(),
        (p / fine_unit()) * fine_unit() + p % fine_unit() == p,
{
    let u = fine_unit();
    vstd::arithmetic::div_mod::lemma_fundamental_div_mod(p, u);
    assert(0 <= p / u < TURN) by (nonlinear_arith)
        requires
            p == u * (p / u) + p % u,
            0 <= p % u < u,
            0 <= p < TURN * u,
            u > 0,
    ;
}

/// The whole motion of a body of `speed` over `steps`.
pub open spec fn total_motion(speed: int, steps: Seq<(i64, i64)>) -> int
    decreases steps.len(),
{
    if steps.len() == 0 {
        0
    } else {
        motion(speed, steps[0].0 as int, steps[0].1 as int) + total_motion(
            speed,
            steps.drop_first(),
        )
    }
}

/// After any sequence of steps a body's phase has moved by its whole motion,
/// modulo a turn, and nothing else about it has changed.
pub proof fn lemma_angle_after_steps(b: CelestialBody, steps: Seq<(i64, i64)>)
    requires
        b.wf(),
    ensures
        b.advanced_through(steps).wf(),
        b.advanced_through(steps).is_sun == b.is_sun,
        b.advanced_through(steps).orbit_radius == b.orbit_radius,
        b.advanced_through(steps).orbit_speed == b.orbit_speed,
        b.advanced_through(steps).phase() == if b.is_sun {
            b.phase()
        } else {
            (b.phase() + total_motion(b.orbit_speed as int, steps)) % fine_turn()
        },
    decreases steps.len(),
{
    let u = fine_unit();
    assert(0 <= b.phase() < fine_turn()) by (nonlinear_arith)
        requires
            0 <= b.current_angle < TURN,
            0 <= b.angle_remainder < u,
            b.phase() == b.current_angle * u + b.angle_remainder,
            fine_turn() == TURN * u,
    ;
    if steps.len() == 0 {
        vstd::arithmetic::div_mod::lemma_small_mod(b.phase() as nat, fine_turn() as nat);
    } else {
        let first = b.advanced(steps[0].0 as int, steps[0].1 as int);
        if !b.is_sun {
            let m0 = motion(b.orbit_speed as int, steps[0].0 as int, steps[0].1 as int);
            let next = (b.phase() + m0) % fine_turn();
            vstd::arithmetic::div_mod::lemma_mod_bound(b.phase() + m0, fine_turn());
            lemma_split_phase(next);
            assert(first.phase() == next);
        }
        lemma_angle_after_steps(first, steps.drop_first());
        if !b.is_sun {
            let m0 = motion(b.orbit_speed as int, steps[0].0 as int, steps[0].1 as int);
            let rest = total_motion(b.orbit_speed as int, steps.drop_first());
            vstd::arithmetic::div_mod::lemma_add_mod_noop_right(
                rest,
                b.phase() + m0,
                fine_turn(),
            );
            assert(rest + (b.phase() + m0) == b.phase() + (m0 + rest));
        }
    }
}

/// Periodicity: when a body's whole motion over a sequence of steps is a
/// whole number of turns, it is back at exactly the phase it started from.
pub proof fn lemma_orbit_periodic(b: CelestialBody, steps: Seq<(i64, i64)>)
    requires
        b.wf(),
        total_motion(b.orbit_speed as int, steps) % fine_turn() == 0,
    ensures
        b.advanced_through(steps).current_angle == b.current_angle,
        b.advanced_through(steps).angle_remainder == b.angle_remainder,
{
    let after = b.advanced_through(steps);
    lemma_angle_after_steps(b, steps);
    let u = fine_unit();
    assert(0 <= b.phase() < fine_turn()) by (nonlinear_arith)
        requires
            0 <= b.current_angle < TURN,
            0 <= b.angle_remainder < u,
            b.phase() == b.current_angle * u + b.angle_remainder,
            fine_turn() == TURN * u,
    ;
    if !b.is_sun {
        vstd::arithmetic::div_mod::lemma_add_mod_noop_right(
            b.phase(),
            total_motion(b.orbit_speed as int, steps),
            fine_turn(),
        );
        vstd::arithmetic::div_mod::lemma_small_mod(b.phase() as nat, fine_turn() as nat);
    }
    assert(after.phase() == b.phase());
    vstd::arithmetic::div_mod::lemma_fundamental_div_mod_converse(
        b.phase(),
        u,
        b.current_angle as int,
        b.angle_remainder as int,
    );
    vstd::arithmetic::div_mod::lemma_fundamental_div_mod_converse(
        after.phase(),
        u,
        after.current_angle as int,
        after.angle_remainder as int,
    );
}

/// The central body stays at the origin however time advances.
pub proof fn lemma_central_body_fixed(b: CelestialBody, steps: Seq<(i64, i64)>)
    requires
        b.wf(),
        b.is_sun,
    ensures
        b.advanced_through(steps).position() == origin(),
{
    lemma_angle_after_steps(b, steps);
}

proof fn lemma_floor_square(big: int, u: int, bound: int)
    requires
        u > 0,
        -bound <= big <= bound,
    ensures
        big * big - 2 * u * bound <= (u * (big / u)) * (u * (big / u)) <= big * big + 2 * u * bound
            + u * u,
{
    let q = big / u;
    let e = big % u;
    vstd::arithmetic::div_mod::lemma_fundamental_div_mod(big, u);
    assert(u * q == big - e);
    assert((u * q) * (u * q) == big * big - 2 * e * big + e * e) by (nonlinear_arith)
        requires
            u * q == big - e,
    ;
    assert(0 <= e * e <= u * u) by (nonlinear_arith)
        requires
            0 <= e < u,
    ;
    let sq = (u * q) * (u * q);
    let t = e * big;
    assert(-(u * bound) <= t <= u * bound) by (nonlinear_arith)
        requires
            t == e * big,
            0 <= e < u,
            -bound <= big <= bound,
    ;
    assert(big * big - 2 * u * bound <= sq <= big * big + 2 * u * bound + u * u) by (nonlinear_arith)
        requires
            sq == big * big - 2 * e * big + e * e,
            t == e * big,
            -(u * bound) <= t <= u * bound,
            0 <= e * e <= u * u,
    ;
}

/// Circularity: an orbiting body stands at distance `orbit_radius` from the
/// origin, up to the rounding of the sine table (a relative error of
/// `NORM_TOLERANCE / UNIT²` in the squared distance) and of each coordinate
/// to a whole fixed-point step. Stated on squares scaled by `UNIT²`.
pub proof fn lemma_orbit_circular(b: CelestialBody)
    requires
        b.wf(),
        !b.is_sun,
    ensures
        ({
            let p = b.position();
            let r = b.orbit_radius as int;
            let u = UNIT as int;
            &&& p.y == 0
            &&& u * u * (p.x * p.x + p.z * p.z) <= r * r * (u * u + NORM_TOLERANCE) + 4 * r * u * u + 2
                * u * u
            &&& u * u * (p.x * p.x + p.z * p.z) >= r * r * (u * u - NORM_TOLERANCE) - 4 * r * u * u
        }),
{
    let r = b.orbit_radius as int;
    let u = UNIT as int;
    let c = cos_of(b.current_angle as int);
    let s = sin_of(b.current_angle as int);
    lemma_unit_circle(b.current_angle as int);
    let bx = r * c;
    let bz = r * s;
    assert(-r * u <= bx <= r * u) by (nonlinear_arith)
        requires
            bx == r * c,
            0 <= r,
            -u <= c <= u,
    ;
    assert(-r * u <= bz <= r * u) by (nonlinear_arith)
        requires
            bz == r * s,
            0 <= r,
            -u <= s <= u,
    ;
    let l = LIMIT as int;
    assert(r * u <= l * u) by (nonlinear_arith)
        requires
            0 <= r <= l,
            u > 0,
    ;
    let qx = bx / u;
    let qz = bz / u;
    vstd::arithmetic::div_mod::lemma_div_is_ordered(bx, r * u, u);
    vstd::arithmetic::div_mod::lemma_div_is_ordered(-r * u, bx, u);
    vstd::arithmetic::div_mod::lemma_div_is_ordered(bz, r * u, u);
    vstd::arithmetic::div_mod::lemma_div_is_ordered(-r * u, bz, u);
    vstd::arithmetic::div_mod::lemma_div_multiples_vanish(r, u);
    vstd::arithmetic::div_mod::lemma_div_multiples_vanish(-r, u);
    assert(b.position().x == qx);
    assert(b.position().z == qz);
    lemma_floor_square(bx, u, r * u);
    lemma_floor_square(bz, u, r * u);
    assert((u * qx) * (u * qx) == u * u * (qx * qx)) by (nonlinear_arith);
    assert((u * qz) * (u * qz) == u * u * (qz * qz)) by (nonlinear_arith);
    assert(bx * bx + bz * bz == r * r * (c * c + s * s)) by (nonlinear_arith)
        requires
            bx == r * c,
            bz == r * s,
    ;
    assert(r * r * (u * u - NORM_TOLERANCE) <= r * r * (c * c + s * s) <= r * r * (u * u
        + NORM_TOLERANCE)) by (nonlinear_arith)
        requires
            u * u - NORM_TOLERANCE <= c * c + s * s <= u * u + NORM_TOLERANCE,
    ;
    let sx = (u * qx) * (u * qx);
    let sz = (u * qz) * (u * qz);
    let total = bx * bx + bz * bz;
    let rr = r * r;
    let slack = 2 * u * (r * u);
    assert(total - 2 * slack <= sx + sz <= total + 2 * slack + 2 * (u * u));
    assert(rr * (u * u - NORM_TOLERANCE) <= total <= rr * (u * u + NORM_TOLERANCE));
    assert(slack == 2 * r * u * u) by (nonlinear_arith)
        requires
            slack == 2 * u * (r * u),
    ;
    assert(sx + sz == u * u * (qx * qx + qz * qz)) by (nonlinear_arith)
        requires
            sx == u * u * (qx * qx),
            sz == u * u * (qz * qz),
    ;
}

/// A well-formed body stands within `LIMIT` of the origin on every axis.
pub proof fn lemma_position_bounded(b: CelestialBody)
    requires
        b.wf(),
    ensures
        bounded(b.position()),
{
    if !b.is_sun {
        let r = b.orbit_radius as int;
        let u = UNIT as int;
        let c = cos_of(b.current_angle as int);
        let s = sin_of(b.current_angle as int);
        lemma_unit_circle(b.current_angle as int);
        assert(-r * u <= r * c <= r * u) by (nonlinear_arith)
            requires
                0 <= r,
                -u <= c <= u,
        ;
        assert(-r * u <= r * s <= r * u) by (nonlinear_arith)
            requires
                0 <= r,
                -u <= s <= u,
        ;
        vstd::arithmetic::div_mod::lemma_div_is_ordered(r * c, r * u, u);
        vstd::arithmetic::div_mod::lemma_div_is_ordered(-r * u, r * c, u);
        vstd::arithmetic::div_mod::lemma_div_is_ordered(r * s, r * u, u);
        vstd::arithmetic::div_mod::lemma_div_is_ordered(-r * u, r * s, u);
        vstd::arithmetic::div_mod::lemma_div_multiples_vanish(r, u);
        vstd::arithmetic::div_mod::lemma_div_multiples_vanish(-r, u);
        assert(r * u == u * r);
        assert(-r * u == u * (-r));
    }
}

impl SolarSystem {
    /// The point a camera following `index` looks at: that body's position,
    /// or the origin for `None` or an index out of range.
    pub open spec fn followed_position(self, index: Option<usize>) -> Vec3 {
        match index {
            Some(i) => if i < self.bodies@.len() {
                self.bodies@[i as int].position()
            } else {
                origin()
            },
            None => origin(),
        }
    }

    /// Resolves a follow reference to a position (see `followed_position`).
    pub fn target_position(&self, index: Option<usize>) -> (r: Vec3)
        requires
            self.wf(),
        ensures
            r == self.followed_position(index),
            bounded(r),
    {
        match index {
            Some(i) => {
                if i < self.bodies.len() {
                    proof {
                        lemma_position_bounded(self.bodies@[i as int]);
                    }
                    self.bodies[i].get_position()
                } else {
                    Vec3::zero()
                }
            },
            None => Vec3::zero(),
        }
    }
}

} // verus!
