pub mod encodings;
pub mod keysym;
pub mod pixel_formats;
pub mod rfb;
pub mod wire;
pub mod server;
pub mod laws;
