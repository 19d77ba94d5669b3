//! The desktop state: its domains, the registry that assembles them, the
//! authority that publishes them and the adapters that read and change them.

pub mod adapters;
pub mod agents;
pub mod appearance;
pub mod audio;
pub mod authority;
pub mod bluetooth;
pub mod budget;
pub mod clipboard;
pub mod commands;
pub mod control;
pub mod dedupe;
pub mod display;
pub mod domain;
pub mod executor;
pub mod fraction;
pub mod guarantees;
pub mod localize;
pub mod locker;
pub mod media;
pub mod mutation;
pub mod network;
pub mod outcomes;
pub mod power;
pub mod promises;
pub mod publication;
pub mod registry;
pub mod resources;
pub mod runtime;
pub mod secret_agent;
pub mod snapshot;
pub mod states;
pub mod system;
pub mod tray;
pub mod utilities;
pub mod wire;
