//! HAL-9001: the logic of a terminal system monitor and hardware control hub.
//!
//! The modules hold the data models of each panel (storage, network,
//! Bluetooth, audio, displays, power) together with the parsers, the
//! decision rules and the state transitions that drive them.

pub mod text;
pub mod events;
pub mod storage;
pub mod udisks;
pub mod sort;
pub mod i18n;
pub mod system;
pub mod updates;
pub mod config;
pub mod network;
pub mod bluetooth;
pub mod audio;
pub mod display;
pub mod randr;
pub mod multiboot;
pub mod image;
pub mod analyzer;
pub mod ascii;
pub mod ipc;
pub mod agent;
pub mod deck;
pub mod terminal;
pub mod app;
pub mod keymap;
