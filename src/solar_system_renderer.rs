use vstd::prelude::*;
use crate::camera::{Camera, forward_steps, total_time, lemma_transition_settles};
use crate::geometry::{Color, Vec2, Vec3, origin, div_floor};
use crate::math::{Matrix, create_rotation_matrix_2d, rotation_matrix_2d};
use crate::solar_system::{CelestialBody, SolarSystem, lemma_position_bounded};
use crate::trig::UNIT;

verus! {

/// The smallest divisor in the depth falloff, a tenth of `UNIT`.
pub const DEPTH_FLOOR: i64 = 1_000;

/// One sphere to draw: its radius on screen, where it goes, in what colour and mode.
pub struct DrawCall {
    /// Radius of the sphere mesh, in units of `1 / UNIT`.
    pub radius: i64,
    /// Screen position of the sphere's center.
    pub translation: Vec2,
    pub color: Color,
    /// Screen-space placement: no rotation, unit scale, moved to `translation`.
    pub matrix: Matrix,
    pub wireframe: bool,
}

/// Pseudo-perspective falloff `1 / max(0.1, 1 + depth / 10)`, in units of `1 / UNIT`.
pub open spec fn depth_factor(depth: int) -> int {
    let d = UNIT + depth / 10;
    let denominator = if d < DEPTH_FLOOR {
        DEPTH_FLOOR as int
    } else {
        d
    };
    (UNIT * UNIT) / denominator
}

/// `radius / zoom · depth_factor(depth)`, each step rounded down.
pub open spec fn drawn_radius(radius: int, zoom: int, depth: int) -> int {
    ((radius * UNIT) / zoom * depth_factor(depth)) / (UNIT as int)
}

/// `call` is what the scene pass asks for `body` seen through `camera`.
pub open spec fn draws(call: DrawCall, body: CelestialBody, camera: Camera, wireframe: bool) -> bool {
    let (screen, depth) = camera.projected(body.position(), camera.current_center);
    &&& call.radius == drawn_radius(body.radius as int, camera.zoom(), depth as int)
    &&& call.translation == screen
    &&& call.color == body.color
    &&& call.matrix@ == rotation_matrix_2d(0, UNIT as int, screen)
    &&& call.wireframe == wireframe
}

fn depth_factor_exec(depth: i64) -> (r: i64)
    requires
        -8 * crate::geometry::LIMIT <= depth <= 8 * crate::geometry::LIMIT,
    ensures
        r == depth_factor(depth as int),
        0 <= r <= 100_000,
{
    let d = UNIT + div_floor(depth, 10);
    let denominator = if d < DEPTH_FLOOR {
        DEPTH_FLOOR
    } else {
        d
    };
    proof {
        vstd::arithmetic::div_mod::lemma_div_is_ordered_by_denominator(
            UNIT * UNIT,
            DEPTH_FLOOR as int,
            denominator as int,
        );
        vstd::arithmetic::div_mod::lemma_div_pos_is_pos(UNIT * UNIT, denominator as int);
    }
    div_floor(100_000_000, denominator)
}

/// The scene pass: no state of its own.
pub struct SolarSystemRenderer;

impl SolarSystemRenderer {
    /// One draw call per body, in the system's order (later bodies draw over
    /// earlier ones), each seen about the camera's current center.
    pub fn render(solar_system: &SolarSystem, camera: &Camera, wireframe_mode: bool) -> (r: Vec<
        DrawCall,
    >)
        requires
            solar_system.wf(),
            camera.wf(),
        ensures
            r@.len() == solar_system.bodies@.len(),
            forall|i: int|
                0 <= i < r@.len() ==> draws(
                    #[trigger] r@[i],
                    solar_system.bodies@[i],
                    *camera,
                    wireframe_mode,
                ),
    {
        let mut calls: Vec<DrawCall> = Vec::new();
        let n = solar_system.bodies.len();
        let mut i: usize = 0;
        while i < n
            invariant
                n == solar_system.bodies@.len(),
                solar_system.wf(),
                camera.wf(),
                0 <= i <= n,
                calls@.len() == i,
                forall|j: int|
                    0 <= j < i ==> draws(
                        #[trigger] calls@[j],
                        solar_system.bodies@[j],
                        *camera,
                        wireframe_mode,
                    ),
            decreases n - i,
        {
            let body = &solar_system.bodies[i];
            proof {
                lemma_position_bounded(*body);
            }
            let call = SolarSystemRenderer::draw_body(body, camera, wireframe_mode);
            calls.push(call);
            i += 1;
        }
        calls
    }

    /// The draw call for one body (see `draws`).
    pub fn draw_body(body: &CelestialBody, camera: &Camera, wireframe_mode: bool) -> (r: DrawCall)
        requires
            body.wf(),
            camera.wf(),
        ensures
            draws(r, *body, *camera, wireframe_mode),
    {
        proof {
            lemma_position_bounded(*body);
        }
        let position = body.get_position();
        let (screen, depth) = camera.transform_point(position, camera.current_center);
        proof {
            camera.lemma_projected_depth_bounded(position, camera.current_center);
        }
        let factor = depth_factor_exec(depth);
        let zoom = if camera.distance < crate::camera::MIN_DISTANCE {
            crate::camera::MIN_DISTANCE
        } else {
            camera.distance
        };
        proof {
            let l = crate::geometry::LIMIT as int;
            assert(0 <= body.radius * UNIT <= l * UNIT) by (nonlinear_arith)
                requires
                    0 <= body.radius <= l,
            ;
            vstd::arithmetic::div_mod::lemma_div_pos_is_pos(body.radius * UNIT, zoom as int);
            vstd::arithmetic::div_mod::lemma_div_is_ordered_by_denominator(
                body.radius * UNIT,
                1,
                zoom as int,
            );
        }
        let scaled = div_floor(body.radius * UNIT, zoom);
        proof {
            let l = crate::geometry::LIMIT as int;
            assert(0 <= scaled * factor <= l * UNIT * 100_000) by (nonlinear_arith)
                requires
                    0 <= scaled <= l * UNIT,
                    0 <= factor <= 100_000,
            ;
            vstd::arithmetic::div_mod::lemma_div_pos_is_pos(scaled * factor, UNIT as int);
            vstd::arithmetic::div_mod::lemma_div_is_ordered(
                scaled * factor,
                l * UNIT * 100_000,
                UNIT as int,
            );
            assert(l * UNIT * 100_000 == UNIT * (l * 100_000));
            vstd::arithmetic::div_mod::lemma_div_multiples_vanish(l * 100_000, UNIT as int);
        }
        let product = (scaled as i128) * (factor as i128);
        let radius = match product.checked_div_euclid(UNIT as i128) {
            Some(q) => q as i64,
            None => 0,
        };
        let matrix = create_rotation_matrix_2d(0, UNIT, screen);
        DrawCall { radius, translation: screen, color: body.color, matrix, wireframe: wireframe_mode }
    }
}

/// Following nothing: whatever was followed before, the target resolves to
/// the origin, and once the transition towards it has run its course every
/// body is drawn where the camera projects it about the origin.
pub proof fn lemma_unfollowed_view(
    system: SolarSystem,
    cam: Camera,
    steps: Seq<(i64, Vec3)>,
    body: CelestialBody,
    call: DrawCall,
    wireframe: bool,
)
    requires
        cam.wf(),
        forward_steps(steps),
        steps.len() > 0,
        forall|i: int| 0 <= i < steps.len() ==> (#[trigger] steps[i]).1 == system.followed_position(None),
        total_time(steps) >= cam.transition_duration,
    ensures
        system.followed_position(None) == origin(),
        ({
            let unfollowed = Camera {
                followed_target: None,
                transition_progress: 0,
                transition_elapsed: 0,
                ..cam
            };
            let settled = unfollowed.transitioned_through(steps);
            &&& settled.current_center == origin()
            &&& draws(call, body, settled, wireframe) ==> call.translation == settled.projected(
                body.position(),
                origin(),
            ).0
        }),
{
    let unfollowed = Camera {
        followed_target: None,
        transition_progress: 0,
        transition_elapsed: 0,
        ..cam
    };
    vstd::arithmetic::div_mod::lemma_div_multiples_vanish(0, cam.transition_duration as int);
    assert(unfollowed.wf());
    lemma_transition_settles(unfollowed, steps);
    assert(steps.last() == steps[steps.len() - 1]);
}

} // verus!
