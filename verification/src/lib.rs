//! A transparent, protocol-sniffing forward proxy library.
//!
//! The crate holds the verified core of the proxy: the binary sniffers that
//! pull a destination hostname out of a raw TLS ClientHello or an HTTP
//! request, the SOCKS5 upstream handshake codec, the per-connection relay
//! state machine, and the monitor that aggregates lifecycle and traffic
//! events from the relay workers. Socket, thread and terminal handling live
//! outside the library and drive it with plain values.

pub mod monitor;
pub mod relay;
pub mod sniff;
pub mod socks5;
