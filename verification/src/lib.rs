//! Device drivers: display, storage, sound and serial.
pub mod atomic;
pub mod atomic_laws;
pub mod bo;
pub mod bo_laws;
pub mod buffer_laws;
pub mod bus_laws;
pub mod bytes;
pub mod command_laws;
pub mod console;
pub mod console_commands;
pub mod console_properties;
pub mod control_laws;
pub mod cursor_laws;
pub mod drm;
pub mod drm_console;
pub mod drm_device_interface;
pub mod drm_driver;
pub mod drm_ioctl;
pub mod flip_events;
pub mod font;
pub mod font_laws;
pub mod framebuffer;
pub mod gpu_ctx;
pub mod grid;
pub mod hostvis;
pub mod kms;
pub mod kms_props;
pub mod line_laws;
pub mod mailbox_laws;
pub mod message;
pub mod message_laws;
pub mod mode_laws;
pub mod notes;
pub mod object_laws;
pub mod outlines;
pub mod pages;
pub mod pci;
pub mod pci_laws;
pub mod plane_laws;
pub mod prop_blobs;
pub mod raster;
pub mod registry;
pub mod reply_laws;
pub mod rpi_mailbox;
pub mod screen;
pub mod screen_laws;
pub mod sdhci;
pub mod sdhci_bus;
pub mod sdhci_card;
pub mod serial;
pub mod snd;
pub mod sound_laws;
pub mod storage_laws;
pub mod terminal;
pub mod terminal_laws;
pub mod text;
pub mod text_laws;
pub mod usb_hcd;
pub mod vector_font;
pub mod virtgpu;
pub mod words;

use vstd::prelude::*;

verus! {

/// What a driver operation can fail with.
#[derive(Debug, Clone, Copy, PartialEq, Eq, Structural)]
pub enum DriverError {
    NotFound,
    Io,
    Unsupported,
    InvalidParameter,
}

} // verus!
