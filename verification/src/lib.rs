//! Screen-text location helpers: pixel luminance, text bitmaps, cursor search,
//! screen geometry and the hotkey session logic.

pub mod bits;
pub mod images;
pub mod pixel;
pub mod raster;
pub mod screen;
pub mod screenshot;
pub mod session;
