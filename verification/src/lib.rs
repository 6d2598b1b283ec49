//! Talos: a self-hosted alarm system's verified core.

pub mod alarm;
pub mod alarm_laws;
pub mod bthome;
pub mod sensors;
pub mod text;
pub mod timers;
pub mod sia;
pub mod api;
pub mod cors;
pub mod auth;
