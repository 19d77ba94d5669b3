//! Desktop notifications: the documents, their durable store, the service
//! around it and the two interfaces that reach it.

pub mod dbus_server;
pub mod document;
pub mod files;
pub mod journal;
pub mod model;
pub mod promises;
pub mod provider;
pub mod reading;
pub mod replay;
pub mod sizes;
pub mod socket;
pub mod store;
