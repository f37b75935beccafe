//! SOCKS5 upstream handshake codec: builds the wire messages a client sends
//! to a SOCKS5 proxy and validates the proxy's replies, per RFC 1928's
//! subset for "no authentication" + CONNECT + domain-name address type.
//!
//! The codec is pure: the socket that carries these bytes is opened, written
//! and read outside the library.

use vstd::prelude::*;

verus! {

/// Failure of the upstream handshake: the proxy was unreachable, it refused
/// the offered "no authentication" method, the requested target port is not
/// a supported service port, its reply was too short to interpret, or it
/// answered the CONNECT request with a non-zero status.
#[derive(Clone, Copy, PartialEq, Eq, Structural, Debug)]
pub enum ConnectError {
    Unreachable,
    AuthRejected,
    UnsupportedPort,
    Malformed,
    Rejected(u8),
}

/// The SOCKS5 CONNECT request for `server_name` on `server_port`: version 5,
/// one command (CONNECT), reserved zero, domain-name address type, the
/// name's length and bytes, and the port in big-endian.
pub open spec fn connect_request(server_name: Seq<u8>, server_port: u32) -> Seq<u8> {
    seq![5u8, 1u8, 0u8, 3u8, server_name.len() as u8] + server_name + seq![
        (server_port / 256) as u8,
        (server_port % 256) as u8,
    ]
}

/// The SOCKS5 state machine the proxy talks to.
pub struct Socks5 {}

impl Socks5 {
    /// The greeting that opens the handshake: version 5, one method
    /// offered, "no authentication".
    pub fn greeting() -> (r: Vec<u8>)
        ensures
            r@ == seq![5u8, 1u8, 0u8],
    {
        let mut v: Vec<u8> = Vec::new();
        v.push(5u8);
        v.push(1u8);
        v.push(0u8);
        proof {
            assert(v@ =~= seq![5u8, 1u8, 0u8]);
        }
        v
    }

    /// Validates the proxy's method-selection reply: byte index 1 names the
    /// method the proxy selected, and anything but "no authentication"
    /// (0x00) rejects the handshake. A reply shorter than two bytes cannot
    /// be interpreted.
    pub fn check_method_selection(reply: &[u8]) -> (r: Result<(), ConnectError>)
        ensures
            reply@.len() < 2 ==> r == Err::<(), ConnectError>(ConnectError::Malformed),
            reply@.len() >= 2 && reply@[1] == 0 ==> r is Ok,
            reply@.len() >= 2 && reply@[1] != 0 ==> r == Err::<(), ConnectError>(
                ConnectError::AuthRejected,
            ),
    {
        if reply.len() < 2 {
            Err(ConnectError::Malformed)
        } else if reply[1] == 0 {
            Ok(())
        } else {
            Err(ConnectError::AuthRejected)
        }
    }

    /// Builds the CONNECT request for `server_name` on `server_port`. Only
    /// the two service ports the proxy listens for are valid targets; any
    /// other port is a configuration error, reported without touching the
    /// network. The name's length must fit the one-byte length field of the
    /// domain-name address type.
    pub fn build_connect_request(server_name: &[u8], server_port: u32) -> (r: Result<
        Vec<u8>,
        ConnectError,
    >)
        requires
            server_name@.len() <= 255,
        ensures
            server_port == 443 || server_port == 80 ==> (r matches Ok(v) && v@ == connect_request(
                server_name@,
                server_port,
            )),
            server_port != 443 && server_port != 80 ==> r == Err::<Vec<u8>, ConnectError>(
                ConnectError::UnsupportedPort,
            ),
    {
        if server_port != 443 && server_port != 80 {
            return Err(ConnectError::UnsupportedPort);
        }
        let mut data: Vec<u8> = Vec::new();
        data.push(5u8);
        data.push(1u8);
        data.push(0u8);
        data.push(3u8);
        data.push(server_name.len() as u8);
        let mut k: usize = 0;
        while k < server_name.len()
            invariant
                k <= server_name@.len() <= 255,
                data@ == seq![5u8, 1u8, 0u8, 3u8, server_name@.len() as u8] + server_name@.subrange(
                    0,
                    k as int,
                ),
            decreases server_name@.len() - k,
        {
            data.push(server_name[k]);
            proof {
                assert(server_name@.subrange(0, k + 1) =~= server_name@.subrange(0, k as int).push(
                    server_name@[k as int],
                ));
            }
            k = k + 1;
        }
        if server_port == 443 {
            data.push(0x01u8);
            data.push(0xbbu8);
        } else {
            data.push(0x00u8);
            data.push(0x50u8);
        }
        proof {
            assert(server_name@.subrange(0, server_name@.len() as int) =~= server_name@);
            assert(data@ =~= connect_request(server_name@, server_port));
        }
        Ok(data)
    }

    /// Interprets the proxy's CONNECT reply: byte index 1 is the SOCKS5
    /// status, zero on success; any other status is a rejection carrying
    /// that status. A reply shorter than two bytes cannot be interpreted.
    pub fn parse_connect_reply(reply: &[u8]) -> (r: Result<(), ConnectError>)
        ensures
            reply@.len() < 2 ==> r == Err::<(), ConnectError>(ConnectError::Malformed),
            reply@.len() >= 2 && reply@[1] == 0 ==> r is Ok,
            reply@.len() >= 2 && reply@[1] != 0 ==> r == Err::<(), ConnectError>(
                ConnectError::Rejected(reply@[1]),
            ),
    {
        if reply.len() < 2 {
            Err(ConnectError::Malformed)
        } else if reply[1] == 0 {
            Ok(())
        } else {
            Err(ConnectError::Rejected(reply[1]))
        }
    }
}

} // verus!

