use vstd::prelude::*;
use crate::geometry::{Vec2, Vec3, LIMIT, bounded, magnitude, origin, div_floor};
use crate::trig::{UNIT, sin_of, cos_of, sine, cosine};

verus! {

/// The smallest zoom divisor used; a smaller `distance` is raised to it.
pub const MIN_DISTANCE: i64 = 1;

/// Smoothstep on fixed-point values: `t²(3 − 2t)` with `t = p / UNIT`,
/// rounded down to a whole step.
pub open spec fn ease(p: int) -> int {
    (p * p * (3 * UNIT - 2 * p)) / (UNIT * UNIT)
}

/// `a` moved towards `b` by the fraction `t / UNIT`, rounded down.
pub open spec fn lerp(a: int, b: int, t: int) -> int {
    a + ((b - a) * t) / (UNIT as int)
}

/// `lerp` on each coordinate.
pub open spec fn lerp3(a: Vec3, b: Vec3, t: int) -> Vec3 {
    Vec3 {
        x: lerp(a.x as int, b.x as int, t) as i64,
        y: lerp(a.y as int, b.y as int, t) as i64,
        z: lerp(a.z as int, b.z as int, t) as i64,
    }
}

/// The part of a transition that `delta_time` covers, in units of `1 / UNIT`.
pub open spec fn progress_step(delta_time: int, duration: int) -> int {
    (delta_time * UNIT) / duration
}

/// Elapsed transition time held within `0..=duration`.
pub open spec fn clamp_elapsed(t: int, duration: int) -> int {
    if t < 0 {
        0
    } else if t > duration {
        duration
    } else {
        t
    }
}

/// An orbiting camera: zoom, pitch and yaw, and a look-at center eased
/// towards the followed body.
pub struct Camera {
    /// Zoom divisor, in units of `1 / UNIT`.
    pub distance: i64,
    /// Pitch, in millidegrees.
    pub angle_x: i64,
    /// Yaw, in millidegrees.
    pub angle_y: i64,
    pub followed_target: Option<usize>,
    pub current_center: Vec3,
    pub target_center: Vec3,
    /// Progress of the current transition, in `0..=UNIT`; `UNIT` is settled.
    pub transition_progress: i64,
    /// Length of a transition, in units of `1 / UNIT` of simulated time.
    pub transition_duration: i64,
    /// Time spent in the current transition, in `0..=transition_duration`;
    /// progress is derived from it, so no part of a step is lost.
    pub transition_elapsed: i64,
    /// Last known viewport width over height, in units of `1 / UNIT`.
    pub aspect_ratio: i64,
}

impl Camera {
    /// Progress within range, a positive duration, centers the camera can
    /// hold, and a settled camera resting on its target.
    pub open spec fn wf(&self) -> bool {
        &&& 0 <= self.transition_progress <= UNIT
        &&& 0 < self.transition_duration <= LIMIT
        &&& 0 <= self.transition_elapsed <= self.transition_duration
        &&& self.transition_progress == progress_step(
            self.transition_elapsed as int,
            self.transition_duration as int,
        )
        &&& bounded(self.current_center)
        &&& bounded(self.target_center)
        &&& self.transition_progress == UNIT ==> self.current_center == self.target_center
    }

    /// The camera after one `update_transition(delta_time, target)`.
    pub open spec fn transitioned(self, delta_time: int, target: Vec3) -> Camera {
        let elapsed = if self.transition_progress < UNIT {
            clamp_elapsed(
                self.transition_elapsed + delta_time,
                self.transition_duration as int,
            )
        } else {
            self.transition_elapsed as int
        };
        let progress = progress_step(elapsed, self.transition_duration as int);
        Camera {
            transition_elapsed: elapsed as i64,
            transition_progress: progress as i64,
            target_center: target,
            current_center: lerp3(self.current_center, target, ease(progress)),
            ..self
        }
    }

    /// The zoom divisor actually used: `distance`, raised to `MIN_DISTANCE`.
    pub open spec fn zoom(self) -> int {
        if self.distance < MIN_DISTANCE {
            MIN_DISTANCE as int
        } else {
            self.distance as int
        }
    }

    /// Three units away, level, looking at the origin, settled.
    pub open spec fn is_initial(self) -> bool {
        &&& self.distance == 3 * UNIT
        &&& self.angle_x == 0
        &&& self.angle_y == 0
        &&& self.followed_target.is_none()
        &&& self.current_center == origin()
        &&& self.target_center == origin()
        &&& self.transition_progress == UNIT
        &&& self.transition_duration == UNIT
        &&& self.transition_elapsed == UNIT
        &&& self.aspect_ratio == UNIT
    }

    /// A camera three units away, level, looking at the origin, settled.
    pub fn new() -> (r: Camera)
        ensures
            r.wf(),
            r.is_initial(),
            r.distance == 3 * UNIT,
            r.angle_x == 0,
            r.angle_y == 0,
            r.followed_target.is_none(),
            r.current_center == origin(),
            r.target_center == origin(),
            r.transition_progress == UNIT,
            r.transition_duration == UNIT,
            r.transition_elapsed == UNIT,
            r.aspect_ratio == UNIT,
    {
        let r = Camera {
            distance: 3 * UNIT,
            angle_x: 0,
            angle_y: 0,
            followed_target: None,
            current_center: Vec3::zero(),
            target_center: Vec3::zero(),
            transition_progress: UNIT,
            transition_duration: UNIT,
            transition_elapsed: UNIT,
            aspect_ratio: UNIT,
        };
        proof {
            vstd::arithmetic::div_mod::lemma_div_multiples_vanish(UNIT as int, UNIT as int);
        }
        r
    }

    /// Records a new viewport shape; nothing else changes.
    pub fn set_aspect_ratio(&mut self, aspect_ratio: i64)
        ensures
            *final(self) == (Camera { aspect_ratio, ..*old(self) }),
    {
        self.aspect_ratio = aspect_ratio;
    }

    pub fn set_distance(&mut self, distance: i64)
        ensures
            *final(self) == (Camera { distance, ..*old(self) }),
    {
        self.distance = distance;
    }

    pub fn set_angles(&mut self, angle_x: i64, angle_y: i64)
        ensures
            *final(self) == (Camera { angle_x, angle_y, ..*old(self) }),
    {
        self.angle_x = angle_x;
        self.angle_y = angle_y;
    }

    /// Follows another body (or the origin, for `None`) and restarts the
    /// transition from the current center.
    pub fn follow_target(&mut self, index: Option<usize>)
        requires
            old(self).wf(),
        ensures
            final(self).wf(),
            *final(self) == (Camera {
                followed_target: index,
                transition_progress: 0,
                transition_elapsed: 0,
                ..*old(self)
            }),
    {
        self.followed_target = index;
        self.transition_progress = 0;
        self.transition_elapsed = 0;
        proof {
            vstd::arithmetic::div_mod::lemma_div_multiples_vanish(0, self.transition_duration as int);
        }
    }

    /// Smoothstep of a progress value (see `ease`).
    pub fn smooth_step(t: i64) -> (r: i64)
        requires
            0 <= t <= UNIT,
        ensures
            r == ease(t as int),
            0 <= r <= UNIT,
    {
        proof {
            lemma_ease_range(t as int);
            assert(0 <= t * t <= UNIT * UNIT) by (nonlinear_arith)
                requires
                    0 <= t <= UNIT,
            ;
        }
        let cube = t * t * (3 * UNIT - 2 * t);
        div_floor(cube, 100_000_000)
    }

    pub fn get_current_center(&self) -> (r: Vec3)
        ensures
            r == self.current_center,
    {
        self.current_center
    }
}

proof fn lemma_ease_range(p: int)
    requires
        0 <= p <= UNIT,
    ensures
        0 <= p * p * (3 * UNIT - 2 * p) <= UNIT * UNIT * UNIT,
        0 <= ease(p) <= UNIT,
{
    let u = UNIT as int;
    assert(0 <= p * p * (3 * u - 2 * p) <= u * u * u) by (nonlinear_arith)
        requires
            0 <= p <= u,
            u > 0,
    ;
    vstd::arithmetic::div_mod::lemma_div_is_ordered(0, p * p * (3 * u - 2 * p), u * u);
    vstd::arithmetic::div_mod::lemma_div_is_ordered(p * p * (3 * u - 2 * p), u * u * u, u * u);
    vstd::arithmetic::div_mod::lemma_div_multiples_vanish(u, u * u);
    assert(u * u * u == (u * u) * u);
}

/// Dividing by a positive integer never increases the size of a value.
proof fn lemma_div_shrinks(a: int, b: int)
    requires
        b >= 1,
    ensures
        a >= 0 ==> 0 <= a / b <= a,
        a < 0 ==> a <= a / b < 0,
{
    let q = a / b;
    let m = a % b;
    vstd::arithmetic::div_mod::lemma_fundamental_div_mod(a, b);
    assert(a >= 0 ==> 0 <= q <= a) by (nonlinear_arith)
        requires
            a == b * q + m,
            0 <= m < b,
            b >= 1,
    ;
    assert(a < 0 ==> a <= q < 0) by (nonlinear_arith)
        requires
            a == b * q + m,
            0 <= m < b,
            b >= 1,
    ;
}

/// Progress derived from elapsed time stays within `0..=UNIT` and is
/// `UNIT` exactly when the whole duration has elapsed.
proof fn lemma_progress_of(t: int, duration: int)
    requires
        0 <= t <= duration,
        duration > 0,
    ensures
        0 <= progress_step(t, duration) <= UNIT,
        progress_step(t, duration) == UNIT <==> t == duration,
{
    let u = UNIT as int;
    let q = (t * u) / duration;
    let m = (t * u) % duration;
    vstd::arithmetic::div_mod::lemma_fundamental_div_mod(t * u, duration);
    assert(0 <= q <= u) by (nonlinear_arith)
        requires
            t * u == duration * q + m,
            0 <= m < duration,
            0 <= t <= duration,
            u > 0,
    ;
    assert(q == u ==> t == duration) by (nonlinear_arith)
        requires
            t * u == duration * q + m,
            0 <= m < duration,
            0 <= t <= duration,
            u > 0,
    ;
    if t == duration {
        vstd::arithmetic::div_mod::lemma_div_multiples_vanish(u, duration);
        assert(t * u == duration * u) by (nonlinear_arith)
            requires
                t == duration,
        ;
    }
}

/// `lerp` stays between its two end points and reaches the second at `t == UNIT`.
proof fn lemma_lerp_between(a: int, b: int, t: int)
    requires
        0 <= t <= UNIT,
    ensures
        a <= b ==> a <= lerp(a, b, t) <= b,
        b <= a ==> b <= lerp(a, b, t) <= a,
        t == UNIT ==> lerp(a, b, t) == b,
{
    let u = UNIT as int;
    let d = b - a;
    let prod = d * t;
    assert(d >= 0 ==> 0 <= prod <= d * u) by (nonlinear_arith)
        requires
            prod == d * t,
            0 <= t <= u,
    ;
    assert(d < 0 ==> d * u <= prod <= 0) by (nonlinear_arith)
        requires
            prod == d * t,
            0 <= t <= u,
    ;
    vstd::arithmetic::div_mod::lemma_div_multiples_vanish(d, u);
    assert(d * u == u * d);
    if d >= 0 {
        vstd::arithmetic::div_mod::lemma_div_is_ordered(0, prod, u);
        vstd::arithmetic::div_mod::lemma_div_is_ordered(prod, d * u, u);
    } else {
        vstd::arithmetic::div_mod::lemma_div_is_ordered(d * u, prod, u);
        vstd::arithmetic::div_mod::lemma_div_is_ordered(prod, 0, u);
    }
}

fn lerp_coord(a: i64, b: i64, t: i64) -> (r: i64)
    requires
        -LIMIT <= a <= LIMIT,
        -LIMIT <= b <= LIMIT,
        0 <= t <= UNIT,
    ensures
        r == lerp(a as int, b as int, t as int),
{
    proof {
        lemma_lerp_between(a as int, b as int, t as int);
        let l = LIMIT as int;
        let d = b - a;
        assert(-2 * l * UNIT <= d * t <= 2 * l * UNIT) by (nonlinear_arith)
            requires
                -2 * l <= d <= 2 * l,
                0 <= t <= UNIT,
        ;
    }
    a + div_floor((b - a) * t, UNIT)
}

fn lerp_vec(a: Vec3, b: Vec3, t: i64) -> (r: Vec3)
    requires
        bounded(a),
        bounded(b),
        0 <= t <= UNIT,
    ensures
        r == lerp3(a, b, t as int),
        bounded(r),
        t == UNIT ==> r == b,
{
    proof {
        lemma_lerp_between(a.x as int, b.x as int, t as int);
        lemma_lerp_between(a.y as int, b.y as int, t as int);
        lemma_lerp_between(a.z as int, b.z as int, t as int);
    }
    Vec3 { x: lerp_coord(a.x, b.x, t), y: lerp_coord(a.y, b.y, t), z: lerp_coord(a.z, b.z, t) }
}

impl Camera {
    /// Advances the transition's elapsed time by `delta_time` (held within
    /// the duration) and derives the progress from it, takes
    /// `target_position` as the new target, and eases the current center
    /// towards it by `ease(progress)`.
    pub fn update_transition(&mut self, delta_time: i64, target_position: Vec3)
        requires
            old(self).wf(),
            -LIMIT <= delta_time <= LIMIT,
            bounded(target_position),
        ensures
            *final(self) == old(self).transitioned(delta_time as int, target_position),
            final(self).wf(),
            final(self).transition_progress == UNIT ==> final(self).current_center
                == target_position,
    {
        if self.transition_progress < UNIT {
            let t = self.transition_elapsed + delta_time;
            let elapsed = if t < 0 {
                0
            } else if t > self.transition_duration {
                self.transition_duration
            } else {
                t
            };
            proof {
                let l = LIMIT as int;
                assert(0 <= elapsed * UNIT <= l * UNIT) by (nonlinear_arith)
                    requires
                        0 <= elapsed <= l,
                ;
                lemma_progress_of(elapsed as int, self.transition_duration as int);
            }
            self.transition_elapsed = elapsed;
            self.transition_progress = div_floor(elapsed * UNIT, self.transition_duration);
        }
        proof {
            lemma_progress_of(self.transition_elapsed as int, self.transition_duration as int);
        }
        self.target_center = target_position;
        let t = Camera::smooth_step(self.transition_progress);
        proof {
            if self.transition_progress == UNIT {
                lemma_ease_ends();
            }
        }
        self.current_center = lerp_vec(self.current_center, target_position, t);
    }
}

/// Smoothstep starts at 0, ends at `UNIT` and passes through the midpoint.
pub proof fn lemma_ease_ends()
    ensures
        ease(0) == 0,
        ease(UNIT as int) == UNIT,
        ease((UNIT / 2) as int) == UNIT / 2,
{
    assert(0int * 0 * (3 * 10000 - 2 * 0) == 100_000_000 * 0);
    vstd::arithmetic::div_mod::lemma_div_multiples_vanish(0, 100_000_000);
    assert(10000int * 10000 * (3 * 10000 - 2 * 10000) == 100_000_000 * 10000);
    vstd::arithmetic::div_mod::lemma_div_multiples_vanish(10000, 100_000_000);
    assert(5000int * 5000 * (3 * 10000 - 2 * 5000) == 100_000_000 * 5000);
    vstd::arithmetic::div_mod::lemma_div_multiples_vanish(5000, 100_000_000);
}

/// Smoothstep never decreases on `0..=UNIT`.
pub proof fn lemma_ease_monotone(p: int, q: int)
    requires
        0 <= p <= q <= UNIT,
    ensures
        ease(p) <= ease(q),
{
    let u = UNIT as int;
    let fp = p * p * (3 * u - 2 * p);
    let fq = q * q * (3 * u - 2 * q);
    let k = 3 * u * (q + p) - 2 * (q * q + q * p + p * p);
    assert(k >= 0) by (nonlinear_arith)
        requires
            k == 3 * u * (q + p) - 2 * (q * q + q * p + p * p),
            0 <= p <= q <= u,
    ;
    assert(fq - fp == (q - p) * k) by (nonlinear_arith)
        requires
            fp == p * p * (3 * u - 2 * p),
            fq == q * q * (3 * u - 2 * q),
            k == 3 * u * (q + p) - 2 * (q * q + q * p + p * p),
    ;
    assert((q - p) * k >= 0) by (nonlinear_arith)
        requires
            q - p >= 0,
            k >= 0,
    ;
    vstd::arithmetic::div_mod::lemma_div_is_ordered(fp, fq, u * u);
}

/// Smoothstep is symmetric about the midpoint: `ease(p)` and
/// `ease(UNIT - p)` add up to `UNIT`, less at most one step lost to rounding.
pub proof fn lemma_ease_symmetric(p: int)
    requires
        0 <= p <= UNIT,
    ensures
        UNIT - 1 <= ease(p) + ease(UNIT - p) <= UNIT,
{
    let u = UNIT as int;
    let q = u - p;
    let a = p * p * (3 * u - 2 * p);
    let b = q * q * (3 * u - 2 * q);
    assert(a + b == (u * u) * u) by (nonlinear_arith)
        requires
            a == p * p * (3 * u - 2 * p),
            b == q * q * (3 * u - 2 * q),
            q == u - p,
    ;
    let d = u * u;
    vstd::arithmetic::div_mod::lemma_fundamental_div_mod(a, d);
    vstd::arithmetic::div_mod::lemma_fundamental_div_mod(b, d);
    let qa = a / d;
    let qb = b / d;
    let ra = a % d;
    let rb = b % d;
    assert(d * (qa + qb) + ra + rb == d * u) by (nonlinear_arith)
        requires
            a == d * qa + ra,
            b == d * qb + rb,
            a + b == d * u,
    ;
    assert(u - 1 <= qa + qb <= u) by (nonlinear_arith)
        requires
            d * (qa + qb) + ra + rb == d * u,
            0 <= ra < d,
            0 <= rb < d,
            d > 0,
    ;
}

/// In the first half of a transition smoothstep stays below the identity.
proof fn lemma_ease_below(p: int)
    requires
        0 <= 2 * p <= UNIT,
    ensures
        0 <= ease(p) <= p,
{
    let u = UNIT as int;
    let f = p * p * (3 * u - 2 * p);
    assert(0 <= f <= (u * u) * p) by (nonlinear_arith)
        requires
            f == p * p * (3 * u - 2 * p),
            0 <= 2 * p <= u,
    ;
    vstd::arithmetic::div_mod::lemma_div_is_ordered(0, f, u * u);
    vstd::arithmetic::div_mod::lemma_div_is_ordered(f, (u * u) * p, u * u);
    vstd::arithmetic::div_mod::lemma_div_multiples_vanish(p, u * u);
}

proof fn lemma_axis_continuity(a: int, b: int, dt: int, duration: int)
    requires
        duration > 0,
        0 <= 2 * dt <= duration,
    ensures
        duration * magnitude(lerp(a, b, ease(progress_step(dt, duration))) - a) <= magnitude(b - a)
            * dt + duration,
{
    let u = UNIT as int;
    let p = progress_step(dt, duration);
    let pm = (dt * u) % duration;
    vstd::arithmetic::div_mod::lemma_fundamental_div_mod(dt * u, duration);
    assert(0 <= 2 * p <= u) by (nonlinear_arith)
        requires
            dt * u == duration * p + pm,
            0 <= pm < duration,
            0 <= 2 * dt <= duration,
            u > 0,
    ;
    assert(p * duration <= dt * u) by (nonlinear_arith)
        requires
            dt * u == duration * p + pm,
            0 <= pm,
    ;
    let e = ease(p);
    lemma_ease_below(p);
    let d = b - a;
    let step = (d * e) / u;
    let sm = (d * e) % u;
    vstd::arithmetic::div_mod::lemma_fundamental_div_mod(d * e, u);
    assert(u * magnitude(step) <= magnitude(d) * e + u) by (nonlinear_arith)
        requires
            d * e == u * step + sm,
            0 <= sm < u,
            e >= 0,
    ;
    assert(magnitude(d) * e <= magnitude(d) * p) by (nonlinear_arith)
        requires
            0 <= e <= p,
    ;
    assert(duration * (magnitude(d) * p) <= magnitude(d) * (dt * u)) by (nonlinear_arith)
        requires
            p * duration <= dt * u,
            duration > 0,
    ;
    assert(u * (duration * magnitude(step)) <= u * (magnitude(d) * dt + duration)) by (nonlinear_arith)
        requires
            u * magnitude(step) <= magnitude(d) * e + u,
            magnitude(d) * e <= magnitude(d) * p,
            duration * (magnitude(d) * p) <= magnitude(d) * (dt * u),
            duration > 0,
    ;
    assert(duration * magnitude(step) <= magnitude(d) * dt + duration) by (nonlinear_arith)
        requires
            u * (duration * magnitude(step)) <= u * (magnitude(d) * dt + duration),
            u > 0,
    ;
    assert(lerp(a, b, e) - a == step);
}

/// Continuity: right after `follow_target`, the next `update_transition`
/// moves each coordinate of the center by at most `delta_time / duration` of
/// its distance to the new target, plus one fixed-point step of rounding.
/// Stated for steps of at most half the transition.
pub proof fn lemma_follow_continuity(cam: Camera, index: Option<usize>, delta_time: int, target: Vec3)
    requires
        cam.wf(),
        0 <= 2 * delta_time <= cam.transition_duration,
    ensures
        ({
            let next = (Camera {
                followed_target: index,
                transition_progress: 0,
                transition_elapsed: 0,
                ..cam
            }).transitioned(delta_time, target);
            let c = cam.current_center;
            let n = next.current_center;
            let dur = cam.transition_duration as int;
            &&& dur * magnitude(n.x - c.x) <= magnitude(target.x - c.x) * delta_time + dur
            &&& dur * magnitude(n.y - c.y) <= magnitude(target.y - c.y) * delta_time + dur
            &&& dur * magnitude(n.z - c.z) <= magnitude(target.z - c.z) * delta_time + dur
        }),
{
    let dur = cam.transition_duration as int;
    let c = cam.current_center;
    let p = progress_step(delta_time, dur);
    lemma_axis_continuity(c.x as int, target.x as int, delta_time, dur);
    lemma_axis_continuity(c.y as int, target.y as int, delta_time, dur);
    lemma_axis_continuity(c.z as int, target.z as int, delta_time, dur);
    let u = UNIT as int;
    let pm = (delta_time * u) % dur;
    vstd::arithmetic::div_mod::lemma_fundamental_div_mod(delta_time * u, dur);
    assert(0 <= 2 * p <= u) by (nonlinear_arith)
        requires
            delta_time * u == dur * p + pm,
            0 <= pm < dur,
            0 <= 2 * delta_time <= dur,
            u > 0,
    ;
    assert(clamp_elapsed(0 + delta_time, dur) == delta_time);
    lemma_ease_below(p);
    lemma_lerp_between(c.x as int, target.x as int, ease(p));
    lemma_lerp_between(c.y as int, target.y as int, ease(p));
    lemma_lerp_between(c.z as int, target.z as int, ease(p));
}

impl Camera {
    /// The camera after a sequence of `update_transition` calls, each a pair
    /// `(Δt, target position)`.
    pub open spec fn transitioned_through(self, steps: Seq<(i64, Vec3)>) -> Camera
        decreases steps.len(),
    {
        if steps.len() == 0 {
            self
        } else {
            self.transitioned(steps[0].0 as int, steps[0].1).transitioned_through(steps.drop_first())
        }
    }
}

/// The time that a sequence of steps covers.
pub open spec fn total_time(steps: Seq<(i64, Vec3)>) -> int
    decreases steps.len(),
{
    if steps.len() == 0 {
        0
    } else {
        steps[0].0 + total_time(steps.drop_first())
    }
}

/// Steps forward in time towards targets that the camera can hold.
pub open spec fn forward_steps(steps: Seq<(i64, Vec3)>) -> bool {
    forall|i: int| 0 <= i < steps.len() ==> 0 <= (#[trigger] steps[i]).0 && bounded(steps[i].1)
}

proof fn lemma_transitioned_wf(cam: Camera, delta_time: int, target: Vec3)
    requires
        cam.wf(),
        bounded(target),
    ensures
        cam.transitioned(delta_time, target).wf(),
        cam.transitioned(delta_time, target).transition_duration == cam.transition_duration,
        cam.transitioned(delta_time, target).target_center == target,
        delta_time >= 0 ==> cam.transitioned(delta_time, target).transition_elapsed >= if cam.transition_elapsed
            + delta_time >= cam.transition_duration {
            cam.transition_duration as int
        } else {
            cam.transition_elapsed + delta_time
        },
{
    let next = cam.transitioned(delta_time, target);
    lemma_progress_of(cam.transition_elapsed as int, cam.transition_duration as int);
    lemma_progress_of(next.transition_elapsed as int, cam.transition_duration as int);
    let p = next.transition_progress as int;
    let e = ease(p);
    lemma_ease_range(p);
    if p == UNIT {
        lemma_ease_ends();
    }
    let c = cam.current_center;
    lemma_lerp_between(c.x as int, target.x as int, e);
    lemma_lerp_between(c.y as int, target.y as int, e);
    lemma_lerp_between(c.z as int, target.z as int, e);
}

proof fn lemma_total_time_nonneg(steps: Seq<(i64, Vec3)>)
    requires
        forward_steps(steps),
    ensures
        total_time(steps) >= 0,
    decreases steps.len(),
{
    if steps.len() > 0 {
        assert(forward_steps(steps.drop_first())) by {
            assert forall|i: int| 0 <= i < steps.drop_first().len() implies 0
                <= (#[trigger] steps.drop_first()[i]).0 && bounded(steps.drop_first()[i].1) by {
                assert(steps.drop_first()[i] == steps[i + 1]);
            }
        }
        lemma_total_time_nonneg(steps.drop_first());
        assert(0 <= steps[0].0);
    }
}

proof fn lemma_progress_through(cam: Camera, steps: Seq<(i64, Vec3)>)
    requires
        cam.wf(),
        forward_steps(steps),
    ensures
        cam.transitioned_through(steps).wf(),
        cam.transitioned_through(steps).transition_duration == cam.transition_duration,
        steps.len() > 0 ==> cam.transitioned_through(steps).target_center == steps.last().1,
        cam.transition_elapsed + total_time(steps) >= cam.transition_duration
            ==> cam.transitioned_through(steps).transition_progress == UNIT,
    decreases steps.len(),
{
    lemma_progress_of(cam.transition_elapsed as int, cam.transition_duration as int);
    if steps.len() > 0 {
        let dur = cam.transition_duration as int;
        let first = cam.transitioned(steps[0].0 as int, steps[0].1);
        assert(0 <= steps[0].0 && bounded(steps[0].1));
        lemma_transitioned_wf(cam, steps[0].0 as int, steps[0].1);
        let rest = steps.drop_first();
        assert(forward_steps(rest)) by {
            assert forall|i: int| 0 <= i < rest.len() implies 0 <= (#[trigger] rest[i]).0 && bounded(
                rest[i].1,
            ) by {
                assert(rest[i] == steps[i + 1]);
            }
        }
        lemma_progress_through(first, rest);
        lemma_total_time_nonneg(rest);
        lemma_progress_of(cam.transition_duration as int, dur);
        if steps.len() > 1 {
            assert(rest.last() == steps.last());
        }
    }
}

/// Settling: once a transition has been advanced, in forward steps, by a
/// total time of at least what remains of its duration, it is settled and
/// the center rests exactly on the target passed in the last step. After
/// `follow_target`, steps of at least `d > 0` settle it within
/// `⌈duration / d⌉` calls.
pub proof fn lemma_transition_settles(cam: Camera, steps: Seq<(i64, Vec3)>)
    requires
        cam.wf(),
        forward_steps(steps),
        steps.len() > 0,
        cam.transition_elapsed + total_time(steps) >= cam.transition_duration,
    ensures
        cam.transitioned_through(steps).transition_progress == UNIT,
        cam.transitioned_through(steps).current_center == steps.last().1,
{
    lemma_progress_through(cam, steps);
}

/// `(a·ca + b·cb) / UNIT`, rounded down: one coordinate of a rotation whose
/// coefficients `ca`, `cb` are fixed-point sines and cosines.
pub open spec fn mix(a: int, ca: int, b: int, cb: int) -> int {
    (a * ca + b * cb) / (UNIT as int)
}

fn mix_exec(a: i64, ca: i64, b: i64, cb: i64) -> (r: i64)
    requires
        -4 * LIMIT <= a <= 4 * LIMIT,
        -4 * LIMIT <= b <= 4 * LIMIT,
        -UNIT <= ca <= UNIT,
        -UNIT <= cb <= UNIT,
    ensures
        r == mix(a as int, ca as int, b as int, cb as int),
        -(magnitude(a as int) + magnitude(b as int)) <= r <= magnitude(a as int) + magnitude(
            b as int,
        ),
{
    proof {
        lemma_mix_bounded(a as int, ca as int, b as int, cb as int);
        let u = UNIT as int;
        let l = LIMIT as int;
        assert(-magnitude(a as int) * u <= a * ca <= magnitude(a as int) * u) by (nonlinear_arith)
            requires
                -u <= ca <= u,
        ;
        assert(-magnitude(b as int) * u <= b * cb <= magnitude(b as int) * u) by (nonlinear_arith)
            requires
                -u <= cb <= u,
        ;
        assert(magnitude(a as int) * u + magnitude(b as int) * u <= 8 * l * u) by (nonlinear_arith)
            requires
                magnitude(a as int) <= 4 * l,
                magnitude(b as int) <= 4 * l,
                u > 0,
        ;
    }
    div_floor(a * ca + b * cb, UNIT)
}

impl Camera {
    /// Where `point` lands on screen, and its depth, seen about `center`:
    /// translate by `-center`, yaw about Y, then pitch about X, and divide the
    /// rotated X and Y by the zoom.
    pub open spec fn projected(self, point: Vec3, center: Vec3) -> (Vec2, i64) {
        let x = point.x - center.x;
        let y = point.y - center.y;
        let z = point.z - center.z;
        let cy = cos_of(self.angle_y as int);
        let sy = sin_of(self.angle_y as int);
        let x_rotated = mix(x, cy, z, -sy);
        let z_rotated = mix(x, sy, z, cy);
        let cx = cos_of(self.angle_x as int);
        let sx = sin_of(self.angle_x as int);
        let y_rotated = mix(y, cx, z_rotated, -sx);
        let z_final = mix(y, sx, z_rotated, cx);
        (
            Vec2 {
                x: ((x_rotated * UNIT) / self.zoom()) as i64,
                y: ((y_rotated * UNIT) / self.zoom()) as i64,
            },
            z_final as i64,
        )
    }

    /// Projects `point` about `center` (see `projected`); the zoom divisor is
    /// floored to `MIN_DISTANCE`, so any `distance` gives a finite result.
    pub fn transform_point(&self, point: Vec3, center: Vec3) -> (r: (Vec2, i64))
        requires
            bounded(point),
            bounded(center),
        ensures
            r == self.projected(point, center),
    {
        let x = point.x - center.x;
        let y = point.y - center.y;
        let z = point.z - center.z;
        let cy = cosine(self.angle_y);
        let sy = sine(self.angle_y);
        let x_rotated = mix_exec(x, cy, z, -sy);
        let z_rotated = mix_exec(x, sy, z, cy);
        let cx = cosine(self.angle_x);
        let sx = sine(self.angle_x);
        let y_rotated = mix_exec(y, cx, z_rotated, -sx);
        let z_final = mix_exec(y, sx, z_rotated, cx);
        let zoom = if self.distance < MIN_DISTANCE {
            MIN_DISTANCE
        } else {
            self.distance
        };
        proof {
            let l = LIMIT as int;
            assert(-8 * l * UNIT <= x_rotated * UNIT <= 8 * l * UNIT) by (nonlinear_arith)
                requires
                    -8 * l <= x_rotated <= 8 * l,
            ;
            assert(-8 * l * UNIT <= y_rotated * UNIT <= 8 * l * UNIT) by (nonlinear_arith)
                requires
                    -8 * l <= y_rotated <= 8 * l,
            ;
        }
        let screen = Vec2 {
            x: div_floor(x_rotated * UNIT, zoom),
            y: div_floor(y_rotated * UNIT, zoom),
        };
        (screen, z_final)
    }
}

impl Camera {
    /// The depth of a projected point stays within `8 · LIMIT` in size.
    pub proof fn lemma_projected_depth_bounded(self, point: Vec3, center: Vec3)
        requires
            bounded(point),
            bounded(center),
        ensures
            -8 * LIMIT <= self.projected(point, center).1 <= 8 * LIMIT,
    {
        let x = point.x - center.x;
        let y = point.y - center.y;
        let z = point.z - center.z;
        let cy = cos_of(self.angle_y as int);
        let sy = sin_of(self.angle_y as int);
        let cx = cos_of(self.angle_x as int);
        let sx = sin_of(self.angle_x as int);
        crate::trig::lemma_unit_circle(self.angle_y as int);
        crate::trig::lemma_unit_circle(self.angle_x as int);
        lemma_mix_bounded(x, sy, z, cy);
        let z_rotated = mix(x, sy, z, cy);
        lemma_mix_bounded(y, sx, z_rotated, cx);
    }
}

proof fn lemma_mix_bounded(a: int, ca: int, b: int, cb: int)
    requires
        -UNIT <= ca <= UNIT,
        -UNIT <= cb <= UNIT,
    ensures
        -(magnitude(a) + magnitude(b)) <= mix(a, ca, b, cb) <= magnitude(a) + magnitude(b),
{
    let u = UNIT as int;
    let k = magnitude(a) + magnitude(b);
    assert(-magnitude(a) * u <= a * ca <= magnitude(a) * u) by (nonlinear_arith)
        requires
            -u <= ca <= u,
    ;
    assert(-magnitude(b) * u <= b * cb <= magnitude(b) * u) by (nonlinear_arith)
        requires
            -u <= cb <= u,
    ;
    let v = a * ca + b * cb;
    assert(-k * u <= v <= k * u) by (nonlinear_arith)
        requires
            v == a * ca + b * cb,
            k == magnitude(a) + magnitude(b),
            -magnitude(a) * u <= a * ca <= magnitude(a) * u,
            -magnitude(b) * u <= b * cb <= magnitude(b) * u,
    ;
    vstd::arithmetic::div_mod::lemma_div_is_ordered(-k * u, v, u);
    vstd::arithmetic::div_mod::lemma_div_is_ordered(v, k * u, u);
    vstd::arithmetic::div_mod::lemma_div_multiples_vanish(k, u);
    vstd::arithmetic::div_mod::lemma_div_multiples_vanish(-k, u);
    assert(k * u == u * k);
    assert(-k * u == u * (-k));
}

} // verus!
