use vstd::prelude::*;
use crate::camera::Camera;
use crate::geometry::{Color, Rgba, Vec2, LIMIT, origin};
use crate::math::{Matrix, create_rotation_matrix_2d, rotation_matrix_2d};
use crate::solar_system::SolarSystem;
use crate::solar_system_renderer::{DrawCall, SolarSystemRenderer, draws};
use crate::trig::UNIT;

verus! {

/// Everything a session holds apart from the drawing surface: the scene,
/// the camera, and the settings of the flat-shape view.
pub struct EngineState {
    /// Rotation of the flat shape, in millidegrees.
    pub rotation: i64,
    /// Scale of the flat shape, in units of `1 / UNIT`.
    pub scale: i64,
    pub color: Color,
    pub translation: Vec2,
    pub background_color: Rgba,
    pub wireframe_mode: bool,
    pub camera: Camera,
    pub solar_system: SolarSystem,
}

/// The follow reference that a host's signed index selects: none for a
/// negative index.
pub open spec fn follow_reference(index: i32) -> Option<usize> {
    if index < 0 {
        None
    } else {
        Some(index as usize)
    }
}

impl EngineState {
    pub open spec fn wf(&self) -> bool {
        &&& self.camera.wf()
        &&& self.solar_system.wf()
        &&& -LIMIT <= self.scale <= LIMIT
    }

    /// A fresh session: a white unscaled shape on black, the camera settled
    /// on the origin, the solar system at phase 0.
    pub fn new() -> (r: EngineState)
        ensures
            r.wf(),
            r.rotation == 0,
            r.scale == UNIT,
            r.color == (Color { r: UNIT, g: UNIT, b: UNIT }),
            r.translation == (Vec2 { x: 0, y: 0 }),
            r.background_color == (Rgba { r: 0, g: 0, b: 0, a: UNIT }),
            !r.wireframe_mode,
            r.camera.is_initial(),
            r.solar_system.is_initial(),
    {
        EngineState {
            rotation: 0,
            scale: UNIT,
            color: Color::new(UNIT, UNIT, UNIT),
            translation: Vec2::new(0, 0),
            background_color: Rgba::new(0, 0, 0, UNIT),
            wireframe_mode: false,
            camera: Camera::new(),
            solar_system: SolarSystem::new(),
        }
    }

    pub fn set_rotation(&mut self, rotation: i64)
        ensures
            *final(self) == (EngineState { rotation, ..*old(self) }),
    {
        self.rotation = rotation;
    }

    pub fn set_scale(&mut self, scale: i64)
        requires
            -LIMIT <= scale <= LIMIT,
        ensures
            *final(self) == (EngineState { scale, ..*old(self) }),
    {
        self.scale = scale;
    }

    pub fn set_color(&mut self, r: i64, g: i64, b: i64)
        ensures
            *final(self) == (EngineState { color: Color { r, g, b }, ..*old(self) }),
    {
        self.color = Color::new(r, g, b);
    }

    pub fn set_translation(&mut self, x: i64, y: i64)
        ensures
            *final(self) == (EngineState { translation: Vec2 { x, y }, ..*old(self) }),
    {
        self.translation = Vec2::new(x, y);
    }

    pub fn set_background_color(&mut self, r: i64, g: i64, b: i64, a: i64)
        ensures
            *final(self) == (EngineState { background_color: Rgba { r, g, b, a }, ..*old(self) }),
    {
        self.background_color = Rgba::new(r, g, b, a);
    }

    pub fn set_wireframe_mode(&mut self, wireframe: bool)
        ensures
            *final(self) == (EngineState { wireframe_mode: wireframe, ..*old(self) }),
    {
        self.wireframe_mode = wireframe;
    }

    pub fn set_camera_distance(&mut self, distance: i64)
        ensures
            *final(self) == (EngineState {
                camera: Camera { distance, ..old(self).camera },
                ..*old(self)
            }),
    {
        self.camera.set_distance(distance);
    }

    pub fn set_camera_angles(&mut self, angle_x: i64, angle_y: i64)
        ensures
            *final(self) == (EngineState {
                camera: Camera { angle_x, angle_y, ..old(self).camera },
                ..*old(self)
            }),
    {
        self.camera.set_angles(angle_x, angle_y);
    }

    /// Records the viewport's width over height.
    pub fn set_aspect_ratio(&mut self, aspect_ratio: i64)
        ensures
            *final(self) == (EngineState {
                camera: Camera { aspect_ratio, ..old(self).camera },
                ..*old(self)
            }),
    {
        self.camera.set_aspect_ratio(aspect_ratio);
    }

    pub fn set_time_scale(&mut self, scale: i64)
        requires
            old(self).wf(),
            -LIMIT <= scale <= LIMIT,
        ensures
            final(self).wf(),
            *final(self) == (EngineState {
                solar_system: SolarSystem { time_scale: scale, ..old(self).solar_system },
                ..*old(self)
            }),
    {
        self.solar_system.set_time_scale(scale);
    }

    /// One frame of simulation: advance the bodies by `delta_time`, then the
    /// camera's transition towards where the followed body now stands.
    pub fn update_solar_system(&mut self, delta_time: i64)
        requires
            old(self).wf(),
            -LIMIT <= delta_time <= LIMIT,
        ensures
            final(self).wf(),
            final(self).solar_system.time_scale == old(self).solar_system.time_scale,
            final(self).solar_system.bodies@.len() == old(self).solar_system.bodies@.len(),
            forall|i: int|
                0 <= i < old(self).solar_system.bodies@.len()
                    ==> #[trigger] final(self).solar_system.bodies@[i]
                    == old(self).solar_system.bodies@[i].advanced(
                    delta_time as int,
                    old(self).solar_system.time_scale as int,
                ),
            final(self).camera == old(self).camera.transitioned(
                delta_time as int,
                final(self).solar_system.followed_position(old(self).camera.followed_target),
            ),
            final(self).rotation == old(self).rotation,
            final(self).scale == old(self).scale,
            final(self).color == old(self).color,
            final(self).translation == old(self).translation,
            final(self).background_color == old(self).background_color,
            final(self).wireframe_mode == old(self).wireframe_mode,
    {
        self.solar_system.update(delta_time);
        let target = self.solar_system.target_position(self.camera.followed_target);
        self.camera.update_transition(delta_time, target);
    }

    /// Follows body `index`, or the origin for a negative index, starting a
    /// new transition.
    pub fn set_follow_planet(&mut self, index: i32)
        requires
            old(self).wf(),
        ensures
            final(self).wf(),
            *final(self) == (EngineState {
                camera: Camera {
                    followed_target: follow_reference(index),
                    transition_progress: 0,
                    transition_elapsed: 0,
                    ..old(self).camera
                },
                ..*old(self)
            }),
    {
        if index < 0 {
            self.camera.follow_target(None);
        } else {
            self.camera.follow_target(Some(index as usize));
        }
    }

    /// The followed index, or -1 when following the origin (or an index too
    /// large to report).
    pub fn get_follow_planet(&self) -> (r: i32)
        ensures
            r == match self.camera.followed_target {
                Some(i) => if i <= i32::MAX {
                    i as i32
                } else {
                    -1i32
                },
                None => -1i32,
            },
    {
        match self.camera.followed_target {
            Some(i) => {
                if i <= i32::MAX as usize {
                    i as i32
                } else {
                    -1
                }
            },
            None => -1,
        }
    }

    pub fn get_planet_count(&self) -> (r: usize)
        ensures
            r == self.solar_system.bodies@.len(),
    {
        self.solar_system.bodies.len()
    }

    /// The name of body `index`, or the empty string when out of range.
    pub fn get_planet_name(&self, index: usize) -> (r: String)
        ensures
            index < self.solar_system.bodies@.len() ==> r@ == self.solar_system.bodies@[index as int].name@,
            index >= self.solar_system.bodies@.len() ==> r@.len() == 0,
    {
        match self.solar_system.get_body(index) {
            Some(body) => body.name.clone(),
            None => String::new(),
        }
    }

    /// The placement matrix of the flat shape.
    pub fn shape_matrix(&self) -> (r: Matrix)
        requires
            self.wf(),
        ensures
            r@ == rotation_matrix_2d(self.rotation as int, self.scale as int, self.translation),
    {
        create_rotation_matrix_2d(self.rotation, self.scale, self.translation)
    }

    /// The draw calls of one frame of the solar system view.
    pub fn render_solar_system(&self) -> (r: Vec<DrawCall>)
        requires
            self.wf(),
        ensures
            r@.len() == self.solar_system.bodies@.len(),
            forall|i: int|
                0 <= i < r@.len() ==> draws(
                    #[trigger] r@[i],
                    self.solar_system.bodies@[i],
                    self.camera,
                    self.wireframe_mode,
                ),
    {
        SolarSystemRenderer::render(&self.solar_system, &self.camera, self.wireframe_mode)
    }
}

/// Following nothing means looking at the origin, whatever was followed
/// before and wherever the bodies stand.
pub proof fn lemma_unfollow_targets_origin(state: EngineState, index: i32)
    requires
        index < 0,
    ensures
        ({
            let next = EngineState {
                camera: Camera {
                    followed_target: follow_reference(index),
                    transition_progress: 0,
                    transition_elapsed: 0,
                    ..state.camera
                },
                ..state
            };
            next.solar_system.followed_position(next.camera.followed_target) == origin()
        }),
{
}

} // verus!
