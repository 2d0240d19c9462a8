pub mod assoc_map;
pub mod client;
pub mod connection;
pub mod connection_handle;
pub mod connection_laws;
pub mod error;
pub mod handler;
pub mod inbound;
pub mod json;
pub mod mcp;
pub mod operation;
pub mod router;
pub mod server;
pub mod service;
pub mod shutdown;
pub mod text;
pub mod transport;
pub mod typemap;
pub mod types;
pub mod wire;
pub mod wire_laws;
