//! Jail manager core: configuration model, jail database index, command
//! construction for the jail, network and storage utilities, and the
//! compensating transaction that creates a jail.

pub mod command;
pub mod config;
pub mod create;
pub mod errors;
pub mod images;
pub mod jail_config;
pub mod jails;
pub mod jdb;
pub mod lifecycle;
pub mod saga;
pub mod text;
pub mod update;
pub mod uuid;
pub mod zfs;
