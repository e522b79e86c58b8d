//! Core of an interactive operating-system installer: a command runner that
//! recovers once from a missing executable, a resumable checkpoint record, and
//! the controller that walks the installation steps.
pub mod cmd;
pub mod config;
pub mod controller;
pub mod error;
pub mod heal;
pub mod lsblk;
pub mod privilege;
pub mod session;
pub mod steps;
pub mod text;
