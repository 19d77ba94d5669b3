//! Decision logic of a desktop session daemon.
//!
//! The crate holds what the daemon decides and computes: the desktop state
//! authority, the notification store, the launcher index, the secret exchange
//! and the parsers of the tools it reads. Reading and sending is left to the
//! program around it, which hands plain values in and takes plain values back.

pub mod command;
pub mod desktop;
pub mod doctor;
pub mod error;
pub mod id_map;
pub mod ids;
pub mod launcher;
pub mod meanings;
pub mod notifications;
pub mod osd;
pub mod overview;
pub mod paths;
pub mod promises;
pub mod rows;
pub mod sharing;
pub mod text;
pub mod text_map;
pub mod wiping;
