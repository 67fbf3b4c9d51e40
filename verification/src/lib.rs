//! The decisions of a small HTTP server that hands out a fixed list of files.
//!
//! The server reads one request from a connection, looks the requested path up
//! in its table of allowed files and answers with the file, with
//! `403 Forbidden` or with `400 Bad Request`. This crate holds everything the
//! server decides and every byte it puts together; sockets and files are left
//! to the program around it.

pub mod allow_list;
pub mod connection;
pub mod media_type;
pub mod request;
pub mod response;
pub mod text;
pub mod theorems;
