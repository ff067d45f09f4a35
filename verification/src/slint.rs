//! The host side: the bridge between host-owned rows and native channels,
//! and the registries of shared instances.

pub mod notify_model;
pub mod singleton;
