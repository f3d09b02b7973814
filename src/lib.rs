//! Recovery of saved wireless network credentials from the host's network
//! configuration: NetworkManager profiles, netplan files, and the Windows
//! wireless-profile listing.

pub mod command;
pub mod config;
pub mod netplan;
pub mod netsh;
pub mod nm;
pub mod text;
