pub mod camera;
pub mod engine_state;
pub mod geometry;
pub mod math;
pub mod shapes;
pub mod solar_system;
pub mod solar_system_renderer;
pub mod trig;
