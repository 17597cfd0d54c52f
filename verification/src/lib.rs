//! Verified reader geometry, key bindings and session state of a comic
//! library manager.

pub mod geometry;
pub mod lists;
pub mod continuous;
pub mod display;
pub mod keys;
pub mod reader;
pub mod text;
pub mod session;
pub mod scan;
pub mod workspace;
pub mod commands;
pub mod pages;
pub mod export;
