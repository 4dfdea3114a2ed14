//! Wire protocol engine and session dispatch core of a virtual-world
//! universe service: a tagged binary packet codec, a per-connection login
//! and role state machine, directory queries over a citizen table, and
//! presence upkeep (heartbeats, user lists, purging of dead connections).

pub mod attributes;
pub mod bytes;
pub mod citizen;
pub mod directory;
pub mod group;
pub mod login;
pub mod reason;
pub mod opcode;
pub mod packet;
pub mod presence;
pub mod purge;
pub mod session;
pub mod var;
pub mod var_id;
