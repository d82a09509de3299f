//! A terminal client for an external DSH ACP runtime: what it decides between the terminal, the
//! agent process and the pane that it runs in.

pub mod acp;
pub mod config;
pub mod driver;
pub mod editor;
pub mod error;
pub mod keys;
pub mod launch;
pub mod laws;
pub mod options;
pub mod record;
