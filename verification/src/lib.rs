//! A manager for locally run language models: names, storage, engines, and the
//! rules by which the command line and the HTTP server treat them.

pub mod archive;
pub mod clock;
pub mod cmd;
pub mod container;
pub mod daemon;
pub mod ffi;
pub mod fmt;
pub mod hostgpu;
pub mod json;
pub mod keyed;
pub mod laws;
pub mod modelpack;
pub mod paths;
pub mod shortnames;
pub mod shortnames_laws;
pub mod storage;
pub mod text;
