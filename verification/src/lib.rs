//! Variable environment of an interactive shell: scoped variables, computed
//! ("electric") variables, a universal tier, pipeline statuses and the
//! flattened set of exported variables.

pub mod electric;
pub mod env_ffi;
pub mod environment;
pub mod export;
pub mod frame;
pub mod handle;
pub mod laws;
pub mod mode;
pub mod model;
pub mod names;
pub mod stack;
pub mod status;
pub mod text;
pub mod universal;
pub mod var;
