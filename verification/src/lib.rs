//! Hot-reload framework core: typed shared-memory regions, a one-slot
//! cross-process signalling channel, and the role-aware session that lets an
//! owner process and a reloadable child process materialize an identical
//! schema of named shared fields.

pub mod args;
pub mod channel;
pub mod errors;
pub mod hexnum;
pub mod ident;
pub mod region;
pub mod schema;
pub mod session;
