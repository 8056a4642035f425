//! Verified core of a fix for USB audio devices whose broken string
//! descriptors crash Microsoft Teams.

pub mod bits;
pub mod hook;
pub mod hubs;
pub mod inject;
pub mod injector;
pub mod lifecycle;
pub mod logging;
pub mod preflight;
pub mod serial;
pub mod service;
pub mod text;
pub mod tray;
pub mod usb;
pub mod watcher;
pub mod wide;
