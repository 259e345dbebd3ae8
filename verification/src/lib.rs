//! Client runtime core for the Linux Binder IPC device: wire formats, packet
//! codecs, command and return streams, reference accounting and the
//! transaction state machines, with machine-checked contracts.

pub mod assoc;
pub mod bytes;
pub mod object;
pub mod transaction;
pub mod protocol;
pub mod formats;
pub mod packet;
pub mod command_buffer;
pub mod return_buffer;
pub mod reference;
pub mod binder_object;
pub mod proxy;
pub mod context;
pub mod looper;
pub mod runtime;
pub mod client;
pub mod server;
pub mod service_manager;
pub mod util;
