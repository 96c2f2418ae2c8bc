//! Platform pieces of a windowing library: the Orbital (Redox) backend's
//! identifiers, monitor handles and window-property paths, and the
//! Wayland-specific extension traits.

pub mod decimal;
pub mod dpi;
pub mod orbital;
pub mod split;
pub mod wayland;
