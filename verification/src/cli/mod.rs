//! The decisions of the command line.
//!
//! The program reads the environment, talks to the server and prints. What it
//! asks for, and what it makes of the answers, is decided here.

pub mod args;
pub mod config;
pub mod encoding;
pub mod http;
pub mod status;
pub mod upload;
