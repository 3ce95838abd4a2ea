//! FreeYourDisk core: the verified decision logic of a safe disk-cleanup tool.
pub mod actions;
pub mod apps;
pub mod headless;
pub mod elevate;
pub mod filetypes;
pub mod health;
pub mod helper;
pub mod ipc;
pub mod keyed;
pub mod monitor;
pub mod paths;
pub mod ranking;
pub mod routing;
pub mod schedule;
pub mod scan;
pub mod services;
pub mod settings;
pub mod smartdeps;
pub mod snapshot;
pub mod state;
pub mod taskmgr;
pub mod text;
pub mod toast;
pub mod tray;
pub mod winapps;
pub mod zones;
