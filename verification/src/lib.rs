//! A platformer character controller: a per-tick control law that turns
//! contact geometry and player input into velocity-changing impulses.
//!
//! All quantities are fixed-point numbers with sixteen fractional bits, so
//! that the whole control law is exact integer arithmetic. The host hands in
//! contact normals, the current velocity, the tick length and an inverse
//! mass, and receives the impulses the law decided on; the physics engine
//! itself stays outside.

pub mod contact;
pub mod control;
pub mod fx;
pub mod jump;
pub mod laws;
pub mod movement;
pub mod settings;
pub mod slope;
pub mod state;
pub mod vec2;

pub use contact::resolve_standing_surface;
pub use control::{control_player, PlayerInput, TickImpulses};
pub use jump::JumpStatus;
pub use fx::FX_ONE;
pub use settings::PlayerMovementSettings;
pub use state::PlayerControl;
pub use vec2::Vec2;
