//! Verified core of the dstack quote sidecar: configuration, the Fluent Bit
//! identity fragment, and the startup sequence that persists it.

pub mod text;
pub mod layers;
pub mod settings;
pub mod fragment;
pub mod paths;
pub mod startup;
