//! A relay for sharing files between clients: the rules of the server and of the client.

pub mod client;
pub mod commands;
pub mod config;
pub mod console_laws;
pub mod downloads;
pub mod exchange_laws;
pub mod folder_laws;
pub mod folders;
pub mod http;
pub mod laws;
pub mod messages;
pub mod path_laws;
pub mod paths;
pub mod prefixes;
pub mod relay;
pub mod reports;
pub mod secrets;
pub mod server_files;
pub mod streams;
pub mod table;
pub mod text;
pub mod text_laws;
pub mod transfer_laws;
pub mod view_laws;
