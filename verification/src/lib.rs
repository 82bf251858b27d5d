//! Arbitration of access-confirmation dialogs for a desktop portal.

pub mod access;
pub mod args;
pub mod dialog;
pub mod laws;
pub mod model;
pub mod options;
pub mod response;
pub mod selection;
