//! Core logic of a split-keyboard firmware half: the reactive controllers
//! (anti-idle pointer jiggling, pointing-device parameter policy, status
//! display rendering) and the monochrome bitmap transcoding they depend on.
//!
//! The surrounding runtime (event bus, report channels, display hardware)
//! is an external collaborator: it feeds plain event values into the
//! controllers and carries their outputs (input reports, device commands,
//! rendered frames) to the hardware.

pub mod events;
pub mod framebuffer;
pub mod jigglemode;
pub mod pointingdevcontroller;
pub mod ssd1306cont;
pub mod transcoder;
