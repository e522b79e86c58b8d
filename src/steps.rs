//! The installation steps whose commands the library decides.
pub mod format;
pub mod mount;
pub mod partition;
pub mod uefi;
