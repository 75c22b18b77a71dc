//! Attachment of physical and virtual USB devices to libvirt virtual machines.

pub mod bytes;
pub mod conduct;
pub mod console;
pub mod daemon;
pub mod descriptor;
pub mod devices;
pub mod dialogue;
pub mod hid;
pub mod host;
pub mod inventory;
pub mod mishaps;
pub mod names;
pub mod number;
pub mod registry;
pub mod select;
pub mod selection;
pub mod storage;
pub mod text;
pub mod tool;
pub mod transfer;
pub mod usb;
pub mod usbip;
pub mod vhci;
pub mod vm;
