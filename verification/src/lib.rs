//! SFTP version 3: wire codec, client sessions and the logic of a shell.
//!
//! Nothing here performs I/O. Requests come out as the bytes to send, replies
//! go in as the bytes that were received.

pub mod async_client;
pub mod attribute_laws;
pub mod attributes;
pub mod call_laws;
pub mod command;
pub mod command_laws;
pub mod constants;
pub mod error;
pub mod layout_laws;
pub mod listing;
pub mod listing_laws;
pub mod meaning_laws;
pub mod packet_laws;
pub mod path;
pub mod prefix_laws;
pub mod protocol;
pub mod reply;
pub mod reply_laws;
pub mod shell;
pub mod shell_laws;
pub mod stage;
pub mod steps;
pub mod sync;
pub mod text;
pub mod transfer_laws;
pub mod types;
pub mod wire;

pub use crate::async_client::AsyncSftpClient;
pub use crate::attributes::Attributes;
pub use crate::error::{Error, IoError, IoErrorKind};
pub use crate::sync::SftpClient;
pub use crate::types::{Directory, File, Kind, OpenOptions, TextHint};
