//! Icon asset generation engine.
//!
//! Turns one square RGBA source raster into the icon files that the major
//! desktop and mobile platforms expect: a multi-frame Windows `.ico`
//! container, a macOS `.icns` icon family, flat PNGs for Linux and custom
//! size lists, Android launcher icons (square, round and adaptive), and an
//! iOS asset catalog with its `Contents.json` manifest.
//!
//! The engine itself performs no file or network I/O: every recipe returns
//! the files it would produce as in-memory path/byte pairs, and a thin
//! caller persists them.

pub mod android;
pub mod badge;
pub mod color;
pub mod compose;
pub mod contents_json;
pub mod error;
pub mod icns;
pub mod ico;
pub mod ios;
pub mod jsonfmt;
pub mod plan;
pub mod pngenc;
pub mod raster;
pub mod recipes;
pub mod resample;
pub mod textfmt;
