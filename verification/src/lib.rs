pub mod applying;
pub mod buck;
pub mod cli;
pub mod collections;
pub mod doctor;
pub mod environment;
pub mod error;
pub mod git;
pub mod hooks;
pub mod listing;
pub mod manifest;
pub mod metadata;
pub mod node_admin;
pub mod order;
pub mod output;
pub mod panel;
pub mod planning;
pub mod process;
pub mod rbac;
pub mod state;
pub mod text;
pub mod tunnels;
pub mod workspace;

pub use error::Error;
