//! Resolution of compatibility runners for installed games, the configuration
//! stores that persist a game's runner, and the plans by which a program is
//! started inside a game's prefix or a directory is wiped.
//!
//! The library reads and writes no file and starts no process: it takes what
//! was read as text and hands back what is to be written, started or removed.

pub mod gamelib_helper;
pub mod json;
pub mod keyvalues;
pub mod paths;
pub mod text;
