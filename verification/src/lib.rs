//! Rendering of blueprint templates. A blueprint is a text with a directive
//! block at its top and placeholders for colors in its body; rendering it
//! replaces each placeholder by a color of the loaded colorscheme, or by a mix
//! of two of its colors, written in the format that the directives ask for.
//!
//! `rgb` holds the color itself, `colortable` the colorscheme with its cache
//! of mixes, `directive` and `placeholder` the two grammars, and `blueprint`
//! the rendering of a whole blueprint and of a batch of them. `cache` proves
//! that the mixes kept never change what is rendered. `cli`, `logging` and
//! `preview` hold what the program around the engine decides.

pub mod blueprint;
pub mod cache;
pub mod cli;
pub mod colortable;
pub mod config;
pub mod directive;
pub mod logging;
pub mod placeholder;
pub mod preview;
pub mod rgb;
pub mod text;
