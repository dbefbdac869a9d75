//! Verified core of the AstrBot instance manager: error values, path layout,
//! archive entry checks, proxy/mirror configuration, manifest bookkeeping and
//! the per-instance process state machine. File-system, network and process
//! I/O live outside this crate and hand plain values in and out.

pub mod text;
pub mod error;
pub mod assoc;
pub mod process_state;
pub mod monitor;
pub mod archive_path;
pub mod lexical_path;
pub mod config;
pub mod proxy;
pub mod sys_proxy;
pub mod network_config;
pub mod paths;
pub mod validation;
pub mod manifest;
pub mod backup;
pub mod control;
pub mod lifecycle;
pub mod component;
pub mod download;
pub mod version_order;
pub mod instances;
pub mod commands;
pub mod deploy;
pub mod rebuild;
pub mod cleanup;
pub mod extract;
pub mod update;
pub mod dispatch;
pub mod migration;
pub mod component_ops;
pub mod file_ops;
pub mod lock_check;
pub mod mirror_listing;
pub mod shutdown;
