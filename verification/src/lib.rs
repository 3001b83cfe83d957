//! Provisioning of K3s and RKE2 nodes: configuration, command plans, disk
//! scripts and partition tables.
//!
//! Nothing here does I/O. A function says which program is to be run, or what is
//! to be asked; what came of it is handed back and decides what follows.

pub mod cli;
pub mod cluster;
pub mod cluster_laws;
pub mod config;
pub mod course;
pub mod docker;
pub mod flash;
pub mod init;
pub mod message_laws;
pub mod node_laws;
pub mod packer;
pub mod plan;
pub mod process;
pub mod provision;
pub mod script_laws;
pub mod size;
pub mod ssh;
pub mod ssh_laws;
pub mod table_laws;
pub mod text;
pub mod text_laws;
pub mod token;
pub mod usb;
pub mod winflash;
