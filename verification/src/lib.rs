//! Núcleo verificado del diorama *El Continente Inacabado*.

pub mod accel;
pub mod brush;
pub mod brush_palette;
pub mod cli;
pub mod framebuffer;
pub mod hit;
pub mod input;
pub mod light;
pub mod renderer;
pub mod revelation;
pub mod ruido;
pub mod scene;
