//! A monitor of network devices: it keeps a register of devices, polls each of them over HTTP,
//! records what it finds and serves the figures as JSON and as HTML pages.
//!
//! The modules say what is to be read, written and sent, and what follows from what came back.
//! Talking to the network and to the key-value store is left to the caller; the system clock is
//! read in [`calendar`].

pub mod calendar;
pub mod dashboard;
pub mod device;
pub mod handler;
pub mod history;
pub mod html;
pub mod http;
pub mod json;
pub mod metrics;
pub mod poll;
pub mod router;
pub mod service;
pub mod store;
pub mod template;
pub mod text;
pub mod url;
