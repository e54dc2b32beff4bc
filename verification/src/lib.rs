//! Rendering substrate for an in-browser drawing tool.
//!
//! The crate models a stack of three synchronized drawing surfaces (draw,
//! interaction, cache) together with the two value types the stack depends
//! on: a 4-channel [`color::Color`] parsed from and rendered to hex/rgb
//! notation, and a 2D page-position [`offset::Offset`].  The geometric core
//! (offset accumulation over a chain of positioned ancestors, device-pixel
//! scaling of the surface backing stores) is verified here; the host-document
//! calls that feed it live outside the library.

pub mod canvas;
pub mod color;
pub mod offset;

pub use canvas::{Canvas, CanvasError, CanvasResult, PixelRatio, Surface};
pub use color::{Color, ColorError, ColorResult};
pub use offset::Offset;
