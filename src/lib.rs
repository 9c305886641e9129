//! A server-side SSH-2 protocol core: wire codec, packet framing, the
//! transport state machine with algorithm negotiation and key exchange, and
//! the channel multiplexer with flow control.
pub mod channels;
pub mod kex;
pub mod kexinit;
pub mod negotiation;
pub mod numbers;
pub mod packet;
pub mod server_channels;
pub mod session;
pub mod transport;
pub mod wire;
