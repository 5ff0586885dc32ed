use engine::camera::Camera;
use engine::engine_state::EngineState;
use engine::geometry::{Color, Rgba, Vec2, Vec3};
use engine::math::{
    create_aspect_corrected_matrix, create_perspective_matrix, create_rotation_matrix_2d,
    create_view_matrix, multiply_matrices, quotient,
};
use engine::shapes::{DrawMode, Rectangle, Sphere, Triangle};
use engine::solar_system::{CelestialBody, SolarSystem};
use engine::solar_system_renderer::SolarSystemRenderer;
use engine::trig::{cosine, reduce_angle, sine, TURN, UNIT};

fn identity() -> [i64; 16] {
    [
        UNIT, 0, 0, 0, 0, UNIT, 0, 0, 0, 0, UNIT, 0, 0, 0, 0, UNIT,
    ]
}

#[test]
fn nine_bodies_after_hundred_unit_steps() {
    let mut system = SolarSystem::new();
    assert_eq!(system.bodies.len(), 9);
    assert_eq!(system.time_scale, UNIT);
    for _ in 0..100 {
        system.update(UNIT);
    }
    assert_eq!(system.bodies[0].current_angle, 0);
    for body in &system.bodies[1..] {
        assert_eq!(body.current_angle, (body.orbit_speed * 100) % TURN);
    }
    assert_eq!(system.bodies[1].current_angle, 229_200);
}

#[test]
fn whole_turns_return_to_start() {
    let mut body = CelestialBody::new("Probe", 100, 20_000, 3_600, Color::new(0, 0, 0), false);
    body.update(UNIT, UNIT);
    let start = body.current_angle;
    for _ in 0..100 {
        body.update(UNIT, UNIT);
    }
    assert_eq!(body.current_angle, start);
    for _ in 0..50 {
        body.update(-2 * UNIT, UNIT);
    }
    assert_eq!(body.current_angle, start);
}

#[test]
fn negative_steps_wrap_into_range() {
    let mut body = CelestialBody::new("Probe", 100, 20_000, 1_000, Color::new(0, 0, 0), false);
    body.update(-UNIT, UNIT);
    assert_eq!(body.current_angle, TURN - 1_000);
    body.update(UNIT, 0);
    assert_eq!(body.current_angle, TURN - 1_000);
}

#[test]
fn time_scale_multiplies_steps() {
    let mut system = SolarSystem::new();
    system.set_time_scale(2 * UNIT);
    system.update(UNIT);
    assert_eq!(system.bodies[3].current_angle, 2 * 1_146);
    system.set_time_scale(UNIT / 2);
    system.update(UNIT);
    assert_eq!(system.bodies[3].current_angle, 2 * 1_146 + 573);
}

#[test]
fn central_body_stays_at_origin() {
    let mut system = SolarSystem::new();
    for _ in 0..37 {
        system.update(3 * UNIT);
    }
    assert_eq!(system.bodies[0].get_position(), Vec3::new(0, 0, 0));
}

#[test]
fn orbit_keeps_its_radius() {
    let mut body = CelestialBody::new("Probe", 100, 55_000, 7_321, Color::new(0, 0, 0), false);
    for _ in 0..60 {
        let p = body.get_position();
        assert_eq!(p.y, 0);
        let sq = (p.x as i128) * (p.x as i128) + (p.z as i128) * (p.z as i128);
        let r = 55_000i128;
        assert!((sq - r * r).abs() <= r * r / 500, "{:?}", p);
        body.update(UNIT, UNIT);
    }
}

#[test]
fn position_at_quarter_turn() {
    let mut body = CelestialBody::new("Probe", 100, 20_000, 90_000, Color::new(0, 0, 0), false);
    assert_eq!(body.get_position(), Vec3::new(20_000, 0, 0));
    body.update(UNIT, UNIT);
    assert_eq!(body.get_position(), Vec3::new(0, 0, 20_000));
    body.update(UNIT, UNIT);
    assert_eq!(body.get_position(), Vec3::new(-20_000, 0, 0));
}

#[test]
fn get_body_out_of_range_is_none() {
    let system = SolarSystem::new();
    assert!(system.get_body(9).is_none());
    assert!(system.get_body(usize::MAX).is_none());
    assert_eq!(system.get_body(3).map(|b| b.name.clone()), Some("Earth".to_string()));
}

#[test]
fn ease_end_points_and_midpoint() {
    assert_eq!(Camera::smooth_step(0), 0);
    assert_eq!(Camera::smooth_step(UNIT), UNIT);
    assert_eq!(Camera::smooth_step(UNIT / 2), UNIT / 2);
    assert_eq!(Camera::smooth_step(UNIT / 4), 1_562);
    let mut last = 0;
    for t in 0..=UNIT {
        let e = Camera::smooth_step(t);
        assert!(e >= last);
        last = e;
    }
}

#[test]
fn transition_reaches_followed_body() {
    let system = SolarSystem::new();
    let mut camera = Camera::new();
    camera.follow_target(Some(3));
    assert_eq!(camera.transition_progress, 0);
    let target = system.target_position(camera.followed_target);
    assert_eq!(target, Vec3::new(12_000, 0, 0));
    for _ in 0..10 {
        camera.update_transition(UNIT / 10, target);
    }
    assert_eq!(camera.transition_progress, UNIT);
    assert_eq!(camera.get_current_center(), target);
}

#[test]
fn switching_targets_moves_center_continuously() {
    let mut camera = Camera::new();
    camera.follow_target(Some(1));
    let first = Vec3::new(50_000, 0, 0);
    camera.update_transition(UNIT / 4, first);
    camera.update_transition(UNIT / 4, first);
    let before = camera.get_current_center();
    camera.follow_target(Some(2));
    let second = Vec3::new(-40_000, 0, 30_000);
    camera.update_transition(UNIT / 10, second);
    let after = camera.get_current_center();
    let dx = (after.x - before.x).abs();
    let dz = (after.z - before.z).abs();
    assert!(dx * 10 <= (second.x - before.x).abs() + 10);
    assert!(dz * 10 <= (second.z - before.z).abs() + 10);
    assert!(dx > 0);
}

#[test]
fn follow_none_targets_origin() {
    let mut system = SolarSystem::new();
    system.update(5 * UNIT);
    let mut camera = Camera::new();
    camera.follow_target(Some(4));
    assert_ne!(system.target_position(camera.followed_target), Vec3::new(0, 0, 0));
    camera.follow_target(None);
    assert_eq!(system.target_position(camera.followed_target), Vec3::new(0, 0, 0));
    assert_eq!(system.target_position(Some(42)), Vec3::new(0, 0, 0));
}

#[test]
fn projection_of_unit_x_at_distance_three() {
    let camera = Camera::new();
    assert_eq!(camera.distance, 3 * UNIT);
    let (screen, depth) = camera.transform_point(Vec3::new(UNIT, 0, 0), Vec3::new(0, 0, 0));
    assert_eq!(screen, Vec2::new(3_333, 0));
    assert_eq!(depth, 0);
}

#[test]
fn projection_yaw_and_pitch() {
    let mut camera = Camera::new();
    camera.set_distance(UNIT);
    camera.set_angles(0, 90_000);
    let (screen, depth) = camera.transform_point(Vec3::new(UNIT, 0, 0), Vec3::new(0, 0, 0));
    assert_eq!(screen, Vec2::new(0, 0));
    assert_eq!(depth, UNIT);
    camera.set_angles(90_000, 0);
    let (screen, depth) = camera.transform_point(Vec3::new(0, 0, UNIT), Vec3::new(0, 0, 0));
    assert_eq!(screen, Vec2::new(0, -UNIT));
    assert_eq!(depth, 0);
}

#[test]
fn zero_distance_is_floored() {
    let mut camera = Camera::new();
    camera.set_distance(0);
    let (screen, _) = camera.transform_point(Vec3::new(2, 0, 0), Vec3::new(0, 0, 0));
    assert_eq!(screen, Vec2::new(2 * UNIT, 0));
    camera.set_distance(-5);
    let (screen, _) = camera.transform_point(Vec3::new(2, 0, 0), Vec3::new(0, 0, 0));
    assert_eq!(screen, Vec2::new(2 * UNIT, 0));
}

#[test]
fn render_emits_one_call_per_body() {
    let system = SolarSystem::new();
    let camera = Camera::new();
    let calls = SolarSystemRenderer::render(&system, &camera, true);
    assert_eq!(calls.len(), 9);
    let sun = &calls[0];
    assert_eq!(sun.radius, 500);
    assert_eq!(sun.translation, Vec2::new(0, 0));
    assert_eq!(sun.color, Color::new(10_000, 9_000, 0));
    assert!(sun.wireframe);
    assert_eq!(sun.matrix, identity());
    let mercury = &calls[1];
    assert_eq!(mercury.translation, Vec2::new(1_666, 0));
    assert_eq!(mercury.radius, 100);
    let mut m = identity();
    m[12] = 1_666;
    assert_eq!(mercury.matrix, m);
}

#[test]
fn depth_scales_radius() {
    let system = SolarSystem::new();
    let mut camera = Camera::new();
    camera.set_distance(UNIT);
    camera.set_angles(0, 90_000);
    let calls = SolarSystemRenderer::render(&system, &camera, false);
    // Neptune at (5.5, 0, 0) turns to depth 5.5: factor 1 / 1.55.
    assert_eq!(calls[8].radius, 800 * 6_451 / UNIT);
    camera.set_angles(0, -90_000);
    let calls = SolarSystemRenderer::render(&system, &camera, false);
    // Depth -5.5: factor 1 / 0.45.
    assert_eq!(calls[8].radius, 800 * 22_222 / UNIT);
}

#[test]
fn trig_table_values() {
    assert_eq!(sine(0), 0);
    assert_eq!(cosine(0), UNIT);
    assert_eq!(sine(30_000), 5_000);
    assert_eq!(cosine(60_000), 5_000);
    assert_eq!(sine(-90_000), -UNIT);
    assert_eq!(sine(270_000 + TURN), -UNIT);
    assert_eq!(cosine(180_000), -UNIT);
    assert_eq!(sine(29_600), 4_939);
    assert_eq!(cosine(89_500), 87);
    assert_eq!(reduce_angle(-1), TURN - 1);
}

#[test]
fn sphere_tessellation() {
    let sphere = Sphere::new(UNIT, 16, 16);
    assert_eq!(sphere.get_vertex_count(), 16 * 16 * 6);
    assert_eq!(sphere.get_vertices().len(), 16 * 16 * 18);
    assert_eq!(&sphere.get_vertices()[0..3], &[0, UNIT, 0]);
    assert_eq!(sphere.get_draw_mode(true), DrawMode::LineStrip);
    assert_eq!(sphere.get_draw_mode(false), DrawMode::Triangles);
    let coarse = Sphere::new(2 * UNIT, 2, 4);
    let v = coarse.get_vertices();
    assert_eq!(v.len(), 2 * 4 * 18);
    // Second vertex of the first cell: the equator at azimuth 0.
    assert_eq!(&v[3..6], &[2 * UNIT, 0, 0]);
    let empty = Sphere::new(UNIT, 0, 8);
    assert_eq!(empty.get_vertex_count(), 0);
}

#[test]
fn flat_shapes() {
    let t = Triangle::new();
    assert_eq!(t.get_vertices(), &[0, 5_000, 0, -5_000, -5_000, 0, 5_000, -5_000, 0]);
    assert_eq!(t.get_vertex_count(), 3);
    assert_eq!(t.get_draw_mode(true), DrawMode::LineLoop);
    assert_eq!(t.get_draw_mode(false), DrawMode::Triangles);
    let r = Rectangle::new();
    assert_eq!(r.get_vertices().len(), 12);
    assert_eq!(r.get_vertex_count(), 4);
    assert_eq!(r.get_draw_mode(false), DrawMode::TriangleFan);
}

#[test]
fn rotation_matrix_values() {
    let m = create_rotation_matrix_2d(90_000, 2 * UNIT, Vec2::new(7, -7));
    assert_eq!(
        m,
        [0, 2 * UNIT, 0, 0, -2 * UNIT, 0, 0, 0, 0, 0, UNIT, 0, 7, -7, 0, UNIT]
    );
}

#[test]
fn view_matrix_values() {
    let m = create_view_matrix(Vec3::new(1, 2, 3), 0, 0);
    let mut expected = identity();
    expected[12] = -1;
    expected[13] = -2;
    expected[14] = -3;
    assert_eq!(m, expected);
}

#[test]
fn perspective_matrix_values() {
    let m = create_perspective_matrix(90_000, UNIT, UNIT, 100 * UNIT).unwrap();
    assert_eq!(m[0], UNIT);
    assert_eq!(m[5], UNIT);
    assert_eq!(m[10], -10_202);
    assert_eq!(m[11], -UNIT);
    assert_eq!(m[14], -20_202);
    assert!(create_perspective_matrix(0, UNIT, UNIT, 100 * UNIT).is_none());
    assert!(create_perspective_matrix(90_000, 0, UNIT, 100 * UNIT).is_none());
    assert!(create_perspective_matrix(90_000, UNIT, UNIT, UNIT).is_none());
}

#[test]
fn aspect_correction_values() {
    let wide = create_aspect_corrected_matrix(0, UNIT, Vec2::new(UNIT, UNIT), 2 * UNIT);
    assert_eq!(
        wide,
        [5_000, 0, 0, 0, 0, UNIT, 0, 0, 0, 0, UNIT, 0, 5_000, UNIT, 0, UNIT]
    );
    let tall = create_aspect_corrected_matrix(0, UNIT, Vec2::new(UNIT, UNIT), UNIT / 2);
    assert_eq!(
        tall,
        [UNIT, 0, 0, 0, 0, 5_000, 0, 0, 0, 0, UNIT, 0, UNIT, 5_000, 0, UNIT]
    );
}

#[test]
fn matrix_product_values() {
    let a = create_rotation_matrix_2d(90_000, UNIT, Vec2::new(0, 0));
    assert_eq!(multiply_matrices(&identity(), &a), a);
    assert_eq!(multiply_matrices(&a, &identity()), a);
    let twice = multiply_matrices(&a, &a);
    assert_eq!(twice, create_rotation_matrix_2d(180_000, UNIT, Vec2::new(0, 0)));
}

#[test]
fn euclidean_quotient() {
    assert_eq!(quotient(7, 2), 3);
    assert_eq!(quotient(-7, 2), -4);
    assert_eq!(quotient(7, -2), -3);
    assert_eq!(quotient(-7, -2), 4);
}


#[test]
fn engine_state_follow_reference() {
    let mut state = EngineState::new();
    assert_eq!(state.get_follow_planet(), -1);
    assert_eq!(state.get_planet_count(), 9);
    assert_eq!(state.get_planet_name(0), "Sun");
    assert_eq!(state.get_planet_name(8), "Neptune");
    assert_eq!(state.get_planet_name(9), "");
    state.set_follow_planet(3);
    assert_eq!(state.get_follow_planet(), 3);
    assert_eq!(state.camera.followed_target, Some(3));
    assert_eq!(state.camera.transition_progress, 0);
    state.set_follow_planet(-4);
    assert_eq!(state.get_follow_planet(), -1);
    assert_eq!(state.camera.followed_target, None);
}

#[test]
fn engine_frame_advances_bodies_then_camera() {
    let mut state = EngineState::new();
    state.set_follow_planet(2);
    state.update_solar_system(UNIT / 2);
    assert_eq!(state.solar_system.bodies[2].current_angle, 1_719 / 2);
    assert_eq!(state.camera.transition_progress, UNIT / 2);
    state.update_solar_system(UNIT / 2);
    assert_eq!(state.camera.transition_progress, UNIT);
    let venus = state.solar_system.bodies[2].get_position();
    assert_eq!(state.camera.get_current_center(), venus);
    assert_eq!(state.camera.target_center, venus);
}

#[test]
fn engine_settings_and_frames() {
    let mut state = EngineState::new();
    state.set_rotation(90_000);
    state.set_scale(UNIT / 2);
    state.set_translation(10, 20);
    assert_eq!(
        state.shape_matrix(),
        [0, 5_000, 0, 0, -5_000, 0, 0, 0, 0, 0, UNIT, 0, 10, 20, 0, UNIT]
    );
    state.set_color(1, 2, 3);
    assert_eq!(state.color, Color::new(1, 2, 3));
    state.set_background_color(4, 5, 6, 7);
    assert_eq!(state.background_color, Rgba::new(4, 5, 6, 7));
    state.set_wireframe_mode(true);
    state.set_camera_distance(UNIT);
    state.set_camera_angles(1, 2);
    assert_eq!((state.camera.angle_x, state.camera.angle_y), (1, 2));
    state.set_aspect_ratio(2 * UNIT);
    assert_eq!(state.camera.aspect_ratio, 2 * UNIT);
    state.set_time_scale(0);
    state.update_solar_system(UNIT);
    assert_eq!(state.solar_system.bodies[1].current_angle, 0);
    let calls = state.render_solar_system();
    assert_eq!(calls.len(), 9);
    assert!(calls.iter().all(|c| c.wireframe));
    assert_eq!(calls[0].radius, 1_500);
}

#[test]
fn body_mut_changes_one_body() {
    let mut system = SolarSystem::new();
    if let Some(body) = system.get_body_mut(4) {
        body.current_angle = 90_000;
    }
    assert!(system.get_body_mut(10).is_none());
    assert_eq!(system.bodies[4].get_position(), Vec3::new(0, 0, 16_000));
    assert_eq!(system.bodies[3].current_angle, 0);
}

#[test]
fn ease_symmetry_about_midpoint() {
    for p in 0..=UNIT {
        let sum = Camera::smooth_step(p) + Camera::smooth_step(UNIT - p);
        assert!(sum == UNIT || sum == UNIT - 1, "{} {}", p, sum);
    }
}

#[test]
fn initial_cast_parameters() {
    let system = SolarSystem::new();
    let names: Vec<&str> = system.bodies.iter().map(|b| b.name.as_str()).collect();
    assert_eq!(
        names,
        ["Sun", "Mercury", "Venus", "Earth", "Mars", "Jupiter", "Saturn", "Uranus", "Neptune"]
    );
    assert!(system.bodies[0].is_sun);
    assert!(system.bodies[1..].iter().all(|b| !b.is_sun));
    let orbits: Vec<i64> = system.bodies.iter().map(|b| b.orbit_radius).collect();
    assert_eq!(orbits, [0, 5_000, 8_000, 12_000, 16_000, 25_000, 35_000, 45_000, 55_000]);
    let speeds: Vec<i64> = system.bodies.iter().map(|b| b.orbit_speed).collect();
    assert_eq!(speeds, [0, 2_292, 1_719, 1_146, 859, 458, 344, 229, 172]);
}

#[test]
fn interpolated_trig_tracks_true_values() {
    let mut a: i64 = -720_000;
    while a <= 720_000 {
        let radians = (a as f64 / 1000.0).to_radians();
        let s = sine(a) as f64 / UNIT as f64;
        let c = cosine(a) as f64 / UNIT as f64;
        assert!((s - radians.sin()).abs() <= 2e-4, "sine at {}", a);
        assert!((c - radians.cos()).abs() <= 2e-4, "cosine at {}", a);
        a += 137;
    }
}

#[test]
fn position_between_whole_degrees() {
    let mut body = CelestialBody::new("Probe", 100, 55_000, 89_500, Color::new(0, 0, 0), false);
    body.update(UNIT, UNIT);
    assert_eq!(body.current_angle, 89_500);
    let p = body.get_position();
    assert_eq!(p, Vec3::new(478, 0, 54_994));
}

#[test]
fn projection_between_whole_degrees() {
    let mut camera = Camera::new();
    camera.set_angles(0, 89_500);
    let (screen, _) = camera.transform_point(Vec3::new(UNIT, 0, 0), Vec3::new(0, 0, 0));
    // cos 89.5° / 3 ≈ 0.0029
    assert_eq!(screen.x, 29);
    let m = create_rotation_matrix_2d(500, UNIT, Vec2::new(0, 0));
    assert_eq!(m[1], 87);
}

#[test]
fn small_fields_of_view_have_a_matrix() {
    let narrow = create_perspective_matrix(900, UNIT, UNIT, 100 * UNIT).unwrap();
    let expected = 1.0 / (0.45f64.to_radians()).tan();
    // Near 0° the table's four digits limit the relative precision.
    assert!((narrow[5] as f64 / UNIT as f64 - expected).abs() / expected < 5e-3);
    let m = create_perspective_matrix(45_000, UNIT, UNIT, 100 * UNIT).unwrap();
    let expected = 1.0 / (22.5f64.to_radians()).tan();
    assert!((m[5] as f64 / UNIT as f64 - expected).abs() < 1e-3, "{}", m[5]);
    assert!(create_perspective_matrix(1, UNIT, UNIT, 100 * UNIT).is_some());
    assert!(create_perspective_matrix(360_000, UNIT, UNIT, 100 * UNIT).is_none());
}

#[test]
fn tiny_steps_still_settle() {
    let mut camera = Camera::new();
    camera.transition_duration = 2 * UNIT;
    camera.transition_elapsed = 2 * UNIT;
    camera.follow_target(Some(1));
    let target = Vec3::new(5_000, 0, 0);
    for _ in 0..19_999 {
        camera.update_transition(1, target);
    }
    assert!(camera.transition_progress < UNIT);
    camera.update_transition(1, target);
    assert_eq!(camera.transition_progress, UNIT);
    assert_eq!(camera.get_current_center(), target);
}

#[test]
fn fractional_motion_is_kept() {
    let mut body = CelestialBody::new("Probe", 100, 20_000, 1, Color::new(0, 0, 0), false);
    for _ in 0..10_000 {
        body.update(3, UNIT);
    }
    assert_eq!(body.current_angle, 3);
    assert_eq!(body.angle_remainder, 0);
    for _ in 0..10_000 {
        body.update(-3, UNIT);
    }
    assert_eq!(body.current_angle, 0);
    assert_eq!(body.angle_remainder, 0);
}
