//! Recovery-mode discovery for Apple devices.
//!
//! The library recognizes Apple recovery-family USB devices, parses the iBoot
//! descriptor string into owned types, watches devices come and go, opens a
//! device by ECID with retries, and frames recovery commands. It performs no
//! USB operation itself: where one is due it says which, and goes on with what
//! came of it.

pub mod client;
pub mod client_laws;
pub mod command;
pub mod command_laws;
pub mod db;
pub mod db_laws;
pub mod descriptor;
pub mod descriptor_laws;
pub mod device;
pub mod device_laws;
pub mod ecid;
pub mod ecid_laws;
pub mod error;
pub mod field_laws;
pub mod metadata;
pub mod mode;
pub mod open;
pub mod open_laws;
pub mod render;
pub mod render_laws;
pub mod text;
pub mod text_laws;
pub mod watch;
pub mod watch_laws;

pub use crate::client::{InitializedRecoveryDevice, RecoveryClient};
pub use crate::descriptor::RecoveryDeviceInfo;
pub use crate::device::{
    list_recovery_devices, list_recovery_devices_with_metadata, DeviceId, RecoveryDevice,
    UsbDeviceInfo,
};
pub use crate::ecid::{
    init_recovery_device, init_recovery_device_with_metadata, open_by_ecid,
    open_by_ecid_with_metadata, set_auto_boot_and_reboot,
};
pub use crate::error::RecoveryError;
pub use crate::metadata::{DeviceMetadata, DeviceMetadataResolver};
pub use crate::mode::RecoveryMode;
pub use crate::watch::{
    watch_recovery_devices, watch_recovery_devices_with_metadata, RecoveryDeviceWatch,
    RecoveryEvent,
};
