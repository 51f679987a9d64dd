//! Server configuration of a smart-home hub: the entities it knows of
//! (structures, rooms, devices, users and the permissions that tie users to
//! structures), the lookups over them, the check that every reference between
//! them resolves, secret generation, and the token refresh protocol types.

pub mod search;
pub mod types;
pub mod externals;
pub mod text;
pub mod config;
pub mod secrets;
pub mod token;
pub mod device_command;
