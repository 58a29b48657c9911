//! Verified integer core of a small path tracer.
//!
//! The library holds what a render decides without floating-point
//! arithmetic: the random stream and the seed of each pixel, the order of
//! the work and the cells of the accumulation buffer, the choice of the
//! closest hit, the pixel grid and its text, the presets of the command
//! line, and the grammar of scene files.
//! Every function states what it returns and is proved to return it, but
//! for the three questions that the lexer puts to the standard library: of
//! what kind a character is.

pub mod mods;
