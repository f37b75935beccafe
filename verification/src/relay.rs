//! The relay engine's decision core: one `RelayWorker` per accepted
//! connection walks the phases
//! `Init -> Sniffing -> Connecting -> Relaying -> Closed`, deciding at each
//! step which monitor events to emit and whether the connection lives on.
//! The sockets, the blocking reads and writes and the clock stay outside
//! the library; they feed the worker the bytes, outcomes and timestamps it
//! decides on.

use vstd::prelude::*;
use crate::monitor::ActionV;
use crate::monitor::MonitorAction;
use crate::monitor::sat_add;
use crate::monitor::sat_add_u64;
use crate::sniff;

verus! {

/// Which peer of the tunnel closed.
#[derive(Clone, Copy, PartialEq, Eq, Structural, Debug)]
pub enum Side {
    Client,
    Upstream,
}

/// Failure of the relay: a peer closed its end of the tunnel.
#[derive(Clone, Copy, PartialEq, Eq, Structural, Debug)]
pub enum RelayError {
    PeerClosed(Side),
}

/// What one read of a drain-copy pass yielded: `Data(n)` for a read of `n`
/// bytes (zero meaning the peer closed), `TimedOut` for an expired polling
/// timeout, which only says no data is pending right now.
#[derive(Clone, Copy, PartialEq, Eq, Structural, Debug)]
pub enum ReadOutcome {
    Data(usize),
    TimedOut,
}

/// The relay worker's phase.
#[derive(Clone, Copy, PartialEq, Eq, Structural, Debug)]
pub enum RelayPhase {
    Init,
    Sniffing,
    Connecting,
    Relaying,
    Closed,
}

/// The hostname the first client packet names, under the sniffer that
/// matches the service port: SNI for the TLS port, the Host header
/// otherwise.
pub open spec fn sniffed(port: u32, data: Seq<u8>) -> Result<Seq<u8>, sniff::ParseError> {
    if port == 443 {
        sniff::tls_sni(data)
    } else {
        sniff::http_host(data)
    }
}

/// Whether a heartbeat is due: five or more seconds have passed since the
/// last one.
pub open spec fn heartbeat_due(last: u64, now: u64) -> bool {
    now - last >= 5
}

/// The events one relay round reports: the received and forwarded byte
/// totals when nonzero, then a heartbeat when one is due.
pub open spec fn round_actions(id: u32, received: u64, forwarded: u64, due: bool, now: u64) -> Seq<
    ActionV,
> {
    (if received > 0 {
        seq![ActionV::ReceiveTraffic { id, length: received }]
    } else {
        Seq::empty()
    }) + (if forwarded > 0 {
        seq![ActionV::ForwardTraffic { id, length: forwarded }]
    } else {
        Seq::empty()
    }) + (if due {
        seq![ActionV::Heartbeat { id, timestamp: now }]
    } else {
        Seq::empty()
    })
}

/// One decision of a drain-copy pass over the side being read: data must be
/// written on to the peer and counted, an expired timeout ends the pass
/// with the total so far, and a zero-length read means `from` closed and
/// tears the connection down.
pub fn drain_step(outcome: &ReadOutcome, total: u64, from: Side) -> (r: Result<
    (u64, bool),
    RelayError,
>)
    ensures
        (match *outcome {
            ReadOutcome::Data(n) => if n == 0 {
                r == Err::<(u64, bool), RelayError>(RelayError::PeerClosed(from))
            } else {
                r == Ok::<(u64, bool), RelayError>((sat_add(total, n as u64), true))
            },
            ReadOutcome::TimedOut => r == Ok::<(u64, bool), RelayError>((total, false)),
        }),
{
    match *outcome {
        ReadOutcome::Data(n) => {
            if n == 0 {
                Err(RelayError::PeerClosed(from))
            } else {
                Ok((sat_add_u64(total, n as u64), true))
            }
        },
        ReadOutcome::TimedOut => Ok((total, false)),
    }
}

/// The per-connection relay worker's state.
pub struct RelayWorker {
    /// This connection's globally unique id.
    pub id: u32,
    /// The service port the client connected to.
    pub server_port: u32,
    /// Where the worker stands in its lifecycle.
    pub phase: RelayPhase,
    /// When the worker last reported a heartbeat.
    pub last_heartbeat_timestamp: u64,
}

impl RelayWorker {
    /// A fresh worker for one accepted connection.
    pub fn new(id: u32, server_port: u32) -> (w: RelayWorker)
        ensures
            w == (RelayWorker {
                id,
                server_port,
                phase: RelayPhase::Init,
                last_heartbeat_timestamp: 0,
            }),
    {
        RelayWorker { id, server_port, phase: RelayPhase::Init, last_heartbeat_timestamp: 0 }
    }

    /// Announces the connection to the monitor and starts sniffing.
    pub fn on_start(&mut self) -> (a: MonitorAction)
        requires
            old(self).phase is Init,
        ensures
            *final(self) == (RelayWorker { phase: RelayPhase::Sniffing, ..*old(self) }),
            a@ == (ActionV::ConnInit { id: old(self).id, port: old(self).server_port }),
    {
        self.phase = RelayPhase::Sniffing;
        MonitorAction::ConnInit { id: self.id, port: self.server_port }
    }

    /// Decides on the first packet the client sent: an empty read means the
    /// client disconnected before sending anything and the connection is
    /// abandoned; otherwise the sniffer matching the service port runs, a
    /// hostname moves the worker on to connecting, and a sniff failure is
    /// fatal to this connection. No event is emitted either way.
    pub fn on_first_read(&mut self, data: &[u8]) -> (r: Option<Vec<u8>>)
        requires
            old(self).phase is Sniffing,
        ensures
            final(self).id == old(self).id,
            final(self).server_port == old(self).server_port,
            final(self).last_heartbeat_timestamp == old(self).last_heartbeat_timestamp,
            data@.len() == 0 ==> r is None && final(self).phase is Closed,
            data@.len() > 0 ==> (match sniffed(old(self).server_port, data@) {
                Ok(name) => (r matches Some(v) && v@ == name) && final(self).phase is Connecting,
                Err(_) => r is None && final(self).phase is Closed,
            }),
    {
        if data.len() == 0 {
            self.phase = RelayPhase::Closed;
            return None;
        }
        let sniffed_name = if self.server_port == 443 {
            sniff::get_server_name_from_hello_client_message(data)
        } else {
            sniff::get_server_name_from_http_request_message(data)
        };
        match sniffed_name {
            Ok(name) => {
                self.phase = RelayPhase::Connecting;
                Some(name)
            },
            Err(_) => {
                self.phase = RelayPhase::Closed;
                None
            },
        }
    }

    /// The upstream handshake failed: the monitor gets the zero heartbeat
    /// sentinel so the record is evicted promptly, and the worker closes.
    pub fn on_connect_failed(&mut self) -> (a: MonitorAction)
        requires
            old(self).phase is Connecting,
        ensures
            *final(self) == (RelayWorker { phase: RelayPhase::Closed, ..*old(self) }),
            a@ == (ActionV::Heartbeat { id: old(self).id, timestamp: 0 }),
    {
        self.phase = RelayPhase::Closed;
        MonitorAction::Heartbeat { id: self.id, timestamp: 0 }
    }

    /// The upstream tunnel stands: the monitor learns the resolved hostname
    /// and the first packet's forwarded bytes, and relaying begins.
    pub fn on_connect_ok(&mut self, server_name: Vec<u8>, first_packet_len: usize) -> (acts: Vec<
        MonitorAction,
    >)
        requires
            old(self).phase is Connecting,
        ensures
            *final(self) == (RelayWorker { phase: RelayPhase::Relaying, ..*old(self) }),
            acts@.len() == 2,
            acts@[0]@ == (ActionV::ProxyOk { id: old(self).id, server_name: server_name@ }),
            acts@[1]@ == (ActionV::ForwardTraffic {
                id: old(self).id,
                length: first_packet_len as u64,
            }),
    {
        self.phase = RelayPhase::Relaying;
        let mut acts: Vec<MonitorAction> = Vec::new();
        acts.push(MonitorAction::ProxyOk { id: self.id, server_name });
        acts.push(
            MonitorAction::ForwardTraffic { id: self.id, length: first_packet_len as u64 },
        );
        acts
    }

    /// Reports one relay round: the bytes drained in each direction when
    /// nonzero, and a heartbeat when five seconds have passed since the
    /// last one.
    pub fn on_relay_round(&mut self, received: u64, forwarded: u64, now: u64) -> (acts: Vec<
        MonitorAction,
    >)
        requires
            old(self).phase is Relaying,
        ensures
            final(self).id == old(self).id,
            final(self).server_port == old(self).server_port,
            final(self).phase is Relaying,
            final(self).last_heartbeat_timestamp == if heartbeat_due(
                old(self).last_heartbeat_timestamp,
                now,
            ) {
                now
            } else {
                old(self).last_heartbeat_timestamp
            },
            Seq::new(acts@.len(), |i: int| acts@[i]@) == round_actions(
                old(self).id,
                received,
                forwarded,
                heartbeat_due(old(self).last_heartbeat_timestamp, now),
                now,
            ),
    {
        let ghost due = heartbeat_due(self.last_heartbeat_timestamp, now);
        let mut acts: Vec<MonitorAction> = Vec::new();
        if received > 0 {
            acts.push(MonitorAction::ReceiveTraffic { id: self.id, length: received });
        }
        if forwarded > 0 {
            acts.push(MonitorAction::ForwardTraffic { id: self.id, length: forwarded });
        }
        if now >= self.last_heartbeat_timestamp && now - self.last_heartbeat_timestamp >= 5 {
            acts.push(MonitorAction::Heartbeat { id: self.id, timestamp: now });
            self.last_heartbeat_timestamp = now;
        }
        proof {
            assert(Seq::new(acts@.len(), |i: int| acts@[i]@) =~= round_actions(
                old(self).id,
                received,
                forwarded,
                due,
                now,
            ));
        }
        acts
    }

    /// A peer closed its end during relaying: the worker tears down and
    /// emits nothing further; the monitor evicts the record once its
    /// heartbeat goes stale.
    pub fn on_peer_closed(&mut self)
        requires
            old(self).phase is Relaying,
        ensures
            *final(self) == (RelayWorker { phase: RelayPhase::Closed, ..*old(self) }),
    {
        self.phase = RelayPhase::Closed;
    }
}

} // verus!
