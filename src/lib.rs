//! Decides whether a user may log in because one of the USB devices that the
//! user registered is attached to the host.
//!
//! `registry` reads a user's list of authorized devices from its text form,
//! and `scan` decides, device by device, whether the attached devices hold one
//! of them. Everything that touches the host (files, the USB stack, the
//! authentication stack) is done by the caller, which hands plain values in.
mod document;
pub mod registry;
pub mod scan;

pub use document::{FieldValue, TomlEntry, TomlField};
pub use registry::{
    device_from_entry, parse_config, parse_registry, registry_from_document, ConfigError,
    DeviceConfig, Registry,
};
pub use scan::{
    authentication_verdict, awaited, scan_step, search_devices, DeviceReport, Outcome,
    ScanAction, ScanEvent, ScanState, Verdict, PROBE_TIMEOUT_MS,
};
