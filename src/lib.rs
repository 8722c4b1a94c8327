//! A login greeter's core: the animation engine that drives every screen
//! transition, the per-user login state machine, and the session manager's
//! decisions on terminals, desktop entries and process status.

pub mod animation;
pub mod animation_laws;
pub mod desktop;
pub mod easing;
pub mod fps;
pub mod greeter;
pub mod input;
pub mod login;
pub mod progress;
pub mod session;
pub mod table;
pub mod text;
pub mod textbox;
pub mod tracker;
