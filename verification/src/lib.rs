//! Host-side bridge between a single-stepped emulator's CMIO channel and
//! vsock streams, with the NBD export server that backs the emulator's disk.
//!
//! The emulator's only I/O is a pair of shared buffers and a yield. At every
//! yield the guest may hand over one vsock packet and the host may hand back
//! one. Over this half-duplex channel the multiplexer keeps any number of
//! stream connections: services that the guest connects to, and clients that
//! connect into the guest.
//!
//! - [`wire`]: little-endian and big-endian fields.
//! - [`vsock_protocol`]: the packet codec.
//! - [`cmio`]: the yield word, and a driver over in-memory buffers.
//! - [`runner`], [`dispatch`], [`tick`]: the multiplexer's state, its
//!   dispatch table, and one tick of its loop.
//! - [`http_server`], [`http_client`], [`http_health_check_client`],
//!   [`http_service`]: the services and clients that come with it.
//! - [`guest_agent`], [`host_agent`]: the decisions of the two agents.
//! - [`nbd`]: the block export and the commands on it.
//! - [`text`], [`slots`]: helpers.
//!
//! The code here is verified against the contracts it states. The few calls
//! that cannot be seen into (big-endian fields by `byteorder`, lossy text
//! decoding, a mutable map entry) sit behind small wrappers that say what
//! they assume. What touches devices, sockets or the
//! emulator lives outside: it calls into this crate with plain values and
//! acts on what it gets back.

pub mod wire;
pub mod vsock_protocol;
pub mod cmio;
pub mod nbd;
pub mod slots;
pub mod runner;
pub mod dispatch;
pub mod tick;
pub mod text;
pub mod http_server;
pub mod http_client;
pub mod http_health_check_client;
pub mod http_service;
pub mod guest_agent;
pub mod host_agent;
