//! Screen capture for the tray: the rules behind captures, hotkeys, settings
//! and the installer, each stated as a contract and proved.

pub mod capture;
pub mod clipboard;
pub mod commands;
pub mod config;
pub mod hotkeys;
pub mod jumplist;
pub mod order;
pub mod paths;
pub mod setup;
pub mod text;
