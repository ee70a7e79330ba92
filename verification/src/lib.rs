//! Typed, verified decoding of host-machine facts from raw OS exposition
//! formats: pseudo-filesystem text, symbolic control-endpoint output, and
//! native-call results.

pub mod cpu;
pub mod error;
pub mod listing;
pub mod macos;
pub mod mem;
pub mod mounts;
pub mod net;
pub mod os_ext;
pub mod ps;
pub mod storage;
pub mod text;
pub mod windows;

pub use error::RsysError;
