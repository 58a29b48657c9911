//! The modules of the library.
//!
//! - `random`: the linear-congruential generator.
//! - `render`: seeds, jobs and the accumulation buffer of a render.
//! - `ray`: the closest of the hits of a ray.
//! - `image`: the pixel grid and its text.
//! - `config`: quality and resolution, from presets or from numbers.
//! - `lexer`, `parser`, `scene`: scene files and mesh files, from text to
//!   blocks.
//! - `objs`: the cube as twelve triangles.
//! - `decimal`, `text`, `funcs`: numbers and texts.

pub mod config;
pub mod decimal;
pub mod funcs;
pub mod image;
pub mod lexer;
pub mod objs;
pub mod parser;
pub mod random;
pub mod ray;
pub mod render;
pub mod scene;
pub mod text;
