//! Usagi engine core: the logic of the rapid 2D game prototyping engine
//! (project naming, script and launcher resolution, configuration
//! parsing, input mapping, key/pad remapping, export planning, refresh
//! and Love2D port decisions, shader selection, font atlas baking,
//! capture quantization, pixel reads, the synth event ring, the pause
//! menu), stated and proved with Verus.

pub mod text;
pub mod project_name;
pub mod error;
pub mod paths;
pub mod capture;
pub mod cli;
pub mod effect;
pub mod refresh;
pub mod modulator;
pub mod settings;
pub mod shader;
pub mod export;
pub mod keys;
pub mod config;
pub mod font;
pub mod font_bake;
pub mod input;
pub mod input_state;
pub mod loveify;
pub mod json;
pub mod keymap;
pub mod pad_map;
pub mod palette;
pub mod pixels;
pub mod audio;
pub mod launcher;
pub mod api;
pub mod assets;
pub mod diag;
pub mod pause;
