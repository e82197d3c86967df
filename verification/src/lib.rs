//! Driver logic for an 84x48 monochrome dot-matrix display controller.
//!
//! The crate owns the framebuffer, the logical-to-physical coordinate
//! transform, the glyph blitting and line-wrapping text layout, and the
//! command sequencing of the controller protocol.  The serial bus and the
//! two discrete control lines are external collaborators: every protocol
//! operation is recorded as a sequence of [`protocol::Action`] values that
//! an unverified shell performs against the hardware.

pub mod acquire;
pub mod display;
pub mod font;
pub mod framebuffer;
pub mod geometry;
pub mod protocol;
pub mod render;

pub use acquire::AcquireResult;
pub use acquire::plan_acquire;
pub use display::PCD8544;
pub use font::Font;
pub use font::GLYPH_HEIGHT;
pub use font::GLYPH_WIDTH;
pub use geometry::Orientation;
pub use geometry::LCDWIDTH;
pub use geometry::LCDHEIGHT;
pub use protocol::Action;
