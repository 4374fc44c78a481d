//! File sharing over TCP, with the state of a terminal front end.
//!
//! The core is the transfer protocol: a header line that names a file and
//! declares its size, followed by exactly that many bytes. [`session`] says
//! what a server does with the bytes it reads, [`client`] what the other side
//! sends and receives, [`transfer`] how a payload passes through a buffer of
//! fixed size, [`storage`] where a name from the wire may point to, and
//! [`pool`] which worker serves which connection. [`laws`] holds what is
//! proved of the two sides together.
//!
//! Nothing here reads a socket, a file or the terminal: the caller does, and
//! asks these modules what to do with what it read.

pub mod text;
pub mod decimal;
pub mod header;
pub mod transfer;
pub mod storage;
pub mod request;
pub mod session;
pub mod client;
pub mod server;
pub mod pool;
pub mod laws;
pub mod locks;
pub mod strings;
pub mod popup;
pub mod button;
pub mod host_type;
pub mod protocol_popup;
pub mod assoc;
pub mod state;
pub mod event;
pub mod screens;
pub mod paths;
pub mod records;
pub mod config;
pub mod table;
pub mod home;
pub mod input;
pub mod enter;
pub mod events;
pub mod layout;
pub mod manager;
pub mod explorer;
pub mod store;
pub mod upnp;
pub mod http;
