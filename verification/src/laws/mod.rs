//! What holds of the library as a whole, across requests.

pub mod access;
pub mod collection;
pub mod command_line;
pub mod contents;
pub mod conversation;
pub mod effects;
pub mod nodes;
pub mod transfer;
pub mod upload;
pub mod values;
pub mod writing;
