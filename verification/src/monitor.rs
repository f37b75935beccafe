//! The monitor: sole owner of the connection table and the aggregate
//! traffic counters. Relay workers report lifecycle and traffic events as
//! `MonitorAction` messages; the monitor folds each event into its table,
//! sweeps out records condemned by the zero heartbeat sentinel, and
//! condemns records whose heartbeat has gone stale. Rendering and the
//! event channel live outside the library; they hand events and the
//! current time in as plain values.
//!
//! Traffic is carried and accumulated in raw bytes; a renderer divides for
//! display.

use vstd::prelude::*;

verus! {

/// One event a relay worker reports to the monitor.
#[derive(Clone, Debug)]
pub enum MonitorAction {
    /// A connection was accepted on a service port.
    ConnInit { id: u32, port: u32 },
    /// The upstream proxy accepted the tunnel for this hostname.
    ProxyOk { id: u32, server_name: Vec<u8> },
    /// Bytes moved client to upstream.
    ForwardTraffic { id: u32, length: u64 },
    /// Bytes moved upstream to client.
    ReceiveTraffic { id: u32, length: u64 },
    /// Liveness report; a zero timestamp is the removal sentinel.
    Heartbeat { id: u32, timestamp: u64 },
}

/// The mathematical value of a `MonitorAction`.
#[verifier::ext_equal]
pub enum ActionV {
    ConnInit { id: u32, port: u32 },
    ProxyOk { id: u32, server_name: Seq<u8> },
    ForwardTraffic { id: u32, length: u64 },
    ReceiveTraffic { id: u32, length: u64 },
    Heartbeat { id: u32, timestamp: u64 },
}

impl View for MonitorAction {
    type V = ActionV;

    open spec fn view(&self) -> ActionV {
        match *self {
            MonitorAction::ConnInit { id, port } => ActionV::ConnInit { id, port },
            MonitorAction::ProxyOk { id, server_name } => ActionV::ProxyOk {
                id,
                server_name: server_name@,
            },
            MonitorAction::ForwardTraffic { id, length } => ActionV::ForwardTraffic { id, length },
            MonitorAction::ReceiveTraffic { id, length } => ActionV::ReceiveTraffic { id, length },
            MonitorAction::Heartbeat { id, timestamp } => ActionV::Heartbeat { id, timestamp },
        }
    }
}

/// One connection's record, owned exclusively by the monitor.
#[derive(Clone, Debug)]
pub struct Connection {
    /// Globally unique, monotonically assigned id.
    pub id: u32,
    /// Hostname resolved by the sniffer, once the upstream tunnel stands.
    pub server_name: Option<Vec<u8>>,
    /// The service port the client connected to.
    pub server_port: u32,
    /// Cumulative bytes moved client to upstream.
    pub total_forward_traffic: u64,
    /// Cumulative bytes moved upstream to client.
    pub total_receive_traffic: u64,
    /// Snapshot of `total_forward_traffic` at the previous render frame.
    pub last_frame_total_forward_traffic: u64,
    /// Snapshot of `total_receive_traffic` at the previous render frame.
    pub last_frame_total_receive_traffic: u64,
    /// Timestamp of the last heartbeat; zero condemns the record.
    pub last_timestamp: u64,
}

/// The mathematical value of a `Connection`.
#[verifier::ext_equal]
pub struct ConnectionV {
    pub id: u32,
    pub server_name: Option<Seq<u8>>,
    pub server_port: u32,
    pub total_forward_traffic: u64,
    pub total_receive_traffic: u64,
    pub last_frame_total_forward_traffic: u64,
    pub last_frame_total_receive_traffic: u64,
    pub last_timestamp: u64,
}

impl View for Connection {
    type V = ConnectionV;

    open spec fn view(&self) -> ConnectionV {
        ConnectionV {
            id: self.id,
            server_name: match self.server_name {
                Option::Some(v) => Option::Some(v@),
                Option::None => Option::None,
            },
            server_port: self.server_port,
            total_forward_traffic: self.total_forward_traffic,
            total_receive_traffic: self.total_receive_traffic,
            last_frame_total_forward_traffic: self.last_frame_total_forward_traffic,
            last_frame_total_receive_traffic: self.last_frame_total_receive_traffic,
            last_timestamp: self.last_timestamp,
        }
    }
}

/// The monitor's whole state: the connection table and the aggregate
/// counters over the process lifetime.
pub struct Monitor {
    pub conn_list: Vec<Connection>,
    pub total_forward_traffic: u64,
    pub total_receive_traffic: u64,
}

/// The mathematical value of the monitor's state.
#[verifier::ext_equal]
pub struct MonitorV {
    pub conns: Seq<ConnectionV>,
    pub total_forward_traffic: u64,
    pub total_receive_traffic: u64,
}

impl View for Monitor {
    type V = MonitorV;

    open spec fn view(&self) -> MonitorV {
        MonitorV {
            conns: Seq::new(self.conn_list@.len(), |i: int| self.conn_list@[i]@),
            total_forward_traffic: self.total_forward_traffic,
            total_receive_traffic: self.total_receive_traffic,
        }
    }
}

/// Index of the first record with this id, if any.
pub open spec fn find_index(s: Seq<ConnectionV>, id: u32) -> Option<int>
    decreases s.len(),
{
    if s.len() == 0 {
        Option::None
    } else if s[0].id == id {
        Option::Some(0int)
    } else {
        match find_index(s.subrange(1, s.len() as int), id) {
            Option::None => Option::None,
            Option::Some(j) => Option::Some(j + 1),
        }
    }
}

/// `find_index` names the first matching record and nothing before it.
pub proof fn lemma_find_index_first(s: Seq<ConnectionV>, id: u32)
    ensures
        (match find_index(s, id) {
            Option::None => forall|j: int| 0 <= j < s.len() ==> s[j].id != id,
            Option::Some(k) => 0 <= k < s.len() && s[k].id == id && (forall|j: int|
                0 <= j < k ==> s[j].id != id),
        }),
    decreases s.len(),
{
    if s.len() > 0 && s[0].id != id {
        let rest = s.subrange(1, s.len() as int);
        lemma_find_index_first(rest, id);
        assert(forall|j: int| 1 <= j < s.len() ==> s[j] == rest[j - 1]);
        match find_index(rest, id) {
            Option::None => {
                assert(forall|j: int| 0 <= j < s.len() ==> s[j].id != id) by {
                    assert(forall|j: int| 1 <= j < s.len() ==> s[j].id == rest[j - 1].id);
                }
            },
            Option::Some(jk) => {
                assert(s[jk + 1] == rest[jk]);
                assert(forall|j: int| 0 <= j < jk + 1 ==> s[j].id != id) by {
                    assert(forall|j: int| 1 <= j < jk + 1 ==> s[j].id == rest[j - 1].id);
                }
            },
        }
    }
}

/// The record a `ConnInit` event creates: no name yet, zero counters, the
/// current time as its first heartbeat.
pub open spec fn init_conn(id: u32, port: u32, now: u64) -> ConnectionV {
    ConnectionV {
        id,
        server_name: Option::None,
        server_port: port,
        total_forward_traffic: 0,
        total_receive_traffic: 0,
        last_frame_total_forward_traffic: 0,
        last_frame_total_receive_traffic: 0,
        last_timestamp: now,
    }
}

/// Addition on u64 that stops at the top instead of wrapping.
pub open spec fn sat_add(a: u64, b: u64) -> u64 {
    if a + b <= u64::MAX {
        (a + b) as u64
    } else {
        u64::MAX
    }
}

/// What one event does to the monitor's state: `ConnInit` appends a fresh
/// record; `ProxyOk` names the first record with that id; the traffic
/// events add to the aggregate counter always and to the first matching
/// record's counter when one exists; `Heartbeat` stamps the first matching
/// record. An event whose id has no record leaves the table unchanged.
pub open spec fn step(m: MonitorV, a: ActionV, now: u64) -> MonitorV {
    match a {
        ActionV::ConnInit { id, port } => MonitorV {
            conns: m.conns.push(init_conn(id, port, now)),
            ..m
        },
        ActionV::ProxyOk { id, server_name } => match find_index(m.conns, id) {
            Option::None => m,
            Option::Some(k) => MonitorV {
                conns: m.conns.update(
                    k,
                    ConnectionV { server_name: Option::Some(server_name), ..m.conns[k] },
                ),
                ..m
            },
        },
        ActionV::ForwardTraffic { id, length } => {
            let conns = match find_index(m.conns, id) {
                Option::None => m.conns,
                Option::Some(k) => m.conns.update(
                    k,
                    ConnectionV {
                        total_forward_traffic: sat_add(m.conns[k].total_forward_traffic, length),
                        ..m.conns[k]
                    },
                ),
            };
            MonitorV { conns, total_forward_traffic: sat_add(m.total_forward_traffic, length), ..m }
        },
        ActionV::ReceiveTraffic { id, length } => {
            let conns = match find_index(m.conns, id) {
                Option::None => m.conns,
                Option::Some(k) => m.conns.update(
                    k,
                    ConnectionV {
                        total_receive_traffic: sat_add(m.conns[k].total_receive_traffic, length),
                        ..m.conns[k]
                    },
                ),
            };
            MonitorV { conns, total_receive_traffic: sat_add(m.total_receive_traffic, length), ..m }
        },
        ActionV::Heartbeat { id, timestamp } => match find_index(m.conns, id) {
            Option::None => m,
            Option::Some(k) => MonitorV {
                conns: m.conns.update(
                    k,
                    ConnectionV { last_timestamp: timestamp, ..m.conns[k] },
                ),
                ..m
            },
        },
    }
}

impl Monitor {
    /// A fresh monitor: empty table, zero aggregates.
    pub fn new() -> (m: Monitor)
        ensures
            m@ == (MonitorV {
                conns: Seq::<ConnectionV>::empty(),
                total_forward_traffic: 0,
                total_receive_traffic: 0,
            }),
    {
        let m = Monitor {
            conn_list: Vec::new(),
            total_forward_traffic: 0,
            total_receive_traffic: 0,
        };
        proof {
            assert(m@.conns =~= Seq::<ConnectionV>::empty());
            assert(m@ =~= (MonitorV {
                conns: Seq::<ConnectionV>::empty(),
                total_forward_traffic: 0,
                total_receive_traffic: 0,
            }));
        }
        m
    }

    /// Appends a record to the table.
    pub fn add_conn(&mut self, conn: Connection)
        ensures
            final(self)@.conns == old(self)@.conns.push(conn@),
            final(self)@.total_forward_traffic == old(self)@.total_forward_traffic,
            final(self)@.total_receive_traffic == old(self)@.total_receive_traffic,
    {
        self.conn_list.push(conn);
        proof {
            assert(self@.conns =~= old(self)@.conns.push(conn@));
        }
    }

    /// Position of the first record with this id, if any.
    pub fn find_conn_by_id(&self, id: u32) -> (r: Option<usize>)
        ensures
            (match find_index(self@.conns, id) {
                Option::None => r is None,
                Option::Some(k) => r matches Some(u) && u as int == k,
            }),
    {
        let n = self.conn_list.len();
        let mut k: usize = 0;
        while k < n
            invariant
                n == self.conn_list@.len(),
                k <= n,
                forall|j: int| 0 <= j < k ==> self@.conns[j].id != id,
            decreases n - k,
        {
            if self.conn_list[k].id == id {
                proof {
                    lemma_find_index_first(self@.conns, id);
                    assert(self@.conns[k as int].id == id);
                    match find_index(self@.conns, id) {
                        Option::None => {
                            assert(false);
                        },
                        Option::Some(kk) => {
                            if kk < k as int {
                                assert(self@.conns[kk].id != id);
                            } else if kk > k as int {
                                assert(self@.conns[k as int].id != id);
                            }
                        },
                    }
                }
                return Some(k);
            }
            k = k + 1;
        }
        proof {
            lemma_find_index_first(self@.conns, id);
            match find_index(self@.conns, id) {
                Option::None => {},
                Option::Some(kk) => {
                    assert(self@.conns[kk].id != id);
                },
            }
        }
        None
    }

    /// Folds one event into the state, exactly as `step` says.
    pub fn handle_action(&mut self, action: MonitorAction, now: u64)
        ensures
            final(self)@ == step(old(self)@, action@, now),
    {
        match action {
            MonitorAction::ConnInit { id, port } => {
                self.add_conn(
                    Connection {
                        id,
                        server_name: None,
                        server_port: port,
                        total_forward_traffic: 0,
                        total_receive_traffic: 0,
                        last_frame_total_forward_traffic: 0,
                        last_frame_total_receive_traffic: 0,
                        last_timestamp: now,
                    },
                );
                proof {
                    assert(self@ =~= step(old(self)@, action@, now));
                }
            },
            MonitorAction::ProxyOk { id, server_name } => {
                match self.find_conn_by_id(id) {
                    Some(k) => {
                        proof {
                            lemma_find_index_first(old(self)@.conns, id);
                            assert(self@.conns =~= old(self)@.conns);
                        }
                        let c = &mut self.conn_list[k];
                        c.server_name = Some(server_name);
                        proof {
                            assert(self@.conns =~= step(old(self)@, action@, now).conns);
                            assert(self@ =~= step(old(self)@, action@, now));
                        }
                    },
                    None => {
                        proof {
                            assert(self@ =~= step(old(self)@, action@, now));
                        }
                    },
                }
            },
            MonitorAction::ForwardTraffic { id, length } => {
                self.total_forward_traffic = sat_add_u64(self.total_forward_traffic, length);
                match self.find_conn_by_id(id) {
                    Some(k) => {
                        proof {
                            lemma_find_index_first(old(self)@.conns, id);
                            assert(self@.conns =~= old(self)@.conns);
                        }
                        let c = &mut self.conn_list[k];
                        c.total_forward_traffic = sat_add_u64(c.total_forward_traffic, length);
                        proof {
                            assert(self@.conns =~= step(old(self)@, action@, now).conns);
                            assert(self@ =~= step(old(self)@, action@, now));
                        }
                    },
                    None => {
                        proof {
                            assert(self@.conns =~= step(old(self)@, action@, now).conns);
                            assert(self@ =~= step(old(self)@, action@, now));
                        }
                    },
                }
            },
            MonitorAction::ReceiveTraffic { id, length } => {
                self.total_receive_traffic = sat_add_u64(self.total_receive_traffic, length);
                match self.find_conn_by_id(id) {
                    Some(k) => {
                        proof {
                            lemma_find_index_first(old(self)@.conns, id);
                            assert(self@.conns =~= old(self)@.conns);
                        }
                        let c = &mut self.conn_list[k];
                        c.total_receive_traffic = sat_add_u64(c.total_receive_traffic, length);
                        proof {
                            assert(self@.conns =~= step(old(self)@, action@, now).conns);
                            assert(self@ =~= step(old(self)@, action@, now));
                        }
                    },
                    None => {
                        proof {
                            assert(self@.conns =~= step(old(self)@, action@, now).conns);
                            assert(self@ =~= step(old(self)@, action@, now));
                        }
                    },
                }
            },
            MonitorAction::Heartbeat { id, timestamp } => {
                match self.find_conn_by_id(id) {
                    Some(k) => {
                        proof {
                            lemma_find_index_first(old(self)@.conns, id);
                            assert(self@.conns =~= old(self)@.conns);
                        }
                        let c = &mut self.conn_list[k];
                        c.last_timestamp = timestamp;
                        proof {
                            assert(self@.conns =~= step(old(self)@, action@, now).conns);
                            assert(self@ =~= step(old(self)@, action@, now));
                        }
                    },
                    None => {
                        proof {
                            assert(self@ =~= step(old(self)@, action@, now));
                        }
                    },
                }
            },
        }
    }
}

/// Addition on u64 that stops at the top instead of wrapping, the
/// executable twin of `sat_add`.
pub fn sat_add_u64(a: u64, b: u64) -> (r: u64)
    ensures
        r == sat_add(a, b),
{
    if a <= u64::MAX - b {
        a + b
    } else {
        u64::MAX
    }
}

/// The records that survive a sweep: those whose last heartbeat is not the
/// zero sentinel, in their original order.
pub open spec fn live_conns(s: Seq<ConnectionV>) -> Seq<ConnectionV>
    decreases s.len(),
{
    if s.len() == 0 {
        Seq::empty()
    } else if s.last().last_timestamp != 0 {
        live_conns(s.drop_last()).push(s.last())
    } else {
        live_conns(s.drop_last())
    }
}

/// Whether the staleness policy condemns this record at time `now`: a named
/// connection silent for more than 10 seconds, or one still connecting for
/// more than 60.
pub open spec fn condemned(c: ConnectionV, now: u64) -> bool {
    match c.server_name {
        Option::Some(_) => now - c.last_timestamp > 10,
        Option::None => now - c.last_timestamp > 60,
    }
}

/// One record after a render frame: both frame snapshots catch up with the
/// cumulative counters, and a stale record's heartbeat is set to the zero
/// sentinel so the next sweep removes it.
pub open spec fn frame_and_condemn(c: ConnectionV, now: u64) -> ConnectionV {
    ConnectionV {
        last_frame_total_forward_traffic: c.total_forward_traffic,
        last_frame_total_receive_traffic: c.total_receive_traffic,
        last_timestamp: if condemned(c, now) {
            0
        } else {
            c.last_timestamp
        },
        ..c
    }
}

/// The whole table after a render frame.
pub open spec fn swept(s: Seq<ConnectionV>, now: u64) -> Seq<ConnectionV> {
    Seq::new(s.len(), |i: int| frame_and_condemn(s[i], now))
}

/// Sum of the per-connection forwarded-bytes counters.
pub open spec fn sum_forward(s: Seq<ConnectionV>) -> int
    decreases s.len(),
{
    if s.len() == 0 {
        0
    } else {
        sum_forward(s.drop_last()) + s.last().total_forward_traffic
    }
}

/// Sum of the per-connection received-bytes counters.
pub open spec fn sum_receive(s: Seq<ConnectionV>) -> int
    decreases s.len(),
{
    if s.len() == 0 {
        0
    } else {
        sum_receive(s.drop_last()) + s.last().total_receive_traffic
    }
}

/// The reconciliation invariant: each aggregate counter equals the sum of
/// the matching per-connection counters.
pub open spec fn aggregates_reconciled(m: MonitorV) -> bool {
    &&& m.total_forward_traffic == sum_forward(m.conns)
    &&& m.total_receive_traffic == sum_receive(m.conns)
}

/// The state after a whole batch of events, folded in order.
pub open spec fn step_all(m: MonitorV, actions: Seq<ActionV>, now: u64) -> MonitorV
    decreases actions.len(),
{
    if actions.len() == 0 {
        m
    } else {
        step_all(step(m, actions[0], now), actions.subrange(1, actions.len() as int), now)
    }
}

/// The mathematical value of a list of events.
pub open spec fn actions_view(s: Seq<MonitorAction>) -> Seq<ActionV> {
    Seq::new(s.len(), |i: int| s[i]@)
}

/// Whether one event keeps the reconciliation invariant provable: a traffic
/// event must target a record the table holds, and must not saturate the
/// aggregate counter.
pub open spec fn step_reconcilable(m: MonitorV, a: ActionV) -> bool {
    match a {
        ActionV::ForwardTraffic { id, length } => find_index(m.conns, id) is Some
            && m.total_forward_traffic + length <= u64::MAX,
        ActionV::ReceiveTraffic { id, length } => find_index(m.conns, id) is Some
            && m.total_receive_traffic + length <= u64::MAX,
        _ => true,
    }
}

/// `step_reconcilable`, extended over a batch folded in order.
pub open spec fn batch_reconcilable(m: MonitorV, actions: Seq<ActionV>, now: u64) -> bool
    decreases actions.len(),
{
    if actions.len() == 0 {
        true
    } else {
        step_reconcilable(m, actions[0]) && batch_reconcilable(
            step(m, actions[0], now),
            actions.subrange(1, actions.len() as int),
            now,
        )
    }
}

/// Each per-connection counter is bounded by the sum over the table.
proof fn lemma_sum_bounds(s: Seq<ConnectionV>, k: int)
    requires
        0 <= k < s.len(),
    ensures
        0 <= s[k].total_forward_traffic <= sum_forward(s),
        0 <= s[k].total_receive_traffic <= sum_receive(s),
        sum_forward(s) >= 0,
        sum_receive(s) >= 0,
    decreases s.len(),
{
    if k == s.len() - 1 {
        lemma_sum_nonneg(s.drop_last());
        assert(s.last() == s[k]);
    } else {
        lemma_sum_bounds(s.drop_last(), k);
        assert(s.drop_last()[k] == s[k]);
    }
}

/// The counter sums are never negative.
proof fn lemma_sum_nonneg(s: Seq<ConnectionV>)
    ensures
        sum_forward(s) >= 0,
        sum_receive(s) >= 0,
    decreases s.len(),
{
    if s.len() > 0 {
        lemma_sum_nonneg(s.drop_last());
    }
}

/// Updating one record changes the sums by exactly the counter deltas.
proof fn lemma_sum_update(s: Seq<ConnectionV>, k: int, v: ConnectionV)
    requires
        0 <= k < s.len(),
    ensures
        sum_forward(s.update(k, v)) == sum_forward(s) - s[k].total_forward_traffic
            + v.total_forward_traffic,
        sum_receive(s.update(k, v)) == sum_receive(s) - s[k].total_receive_traffic
            + v.total_receive_traffic,
    decreases s.len(),
{
    let t = s.update(k, v);
    if k == s.len() - 1 {
        assert(t.drop_last() =~= s.drop_last());
    } else {
        assert(t.drop_last() =~= s.drop_last().update(k, v));
        lemma_sum_update(s.drop_last(), k, v);
    }
}

/// Appending a record adds its counters to the sums.
proof fn lemma_sum_push(s: Seq<ConnectionV>, v: ConnectionV)
    ensures
        sum_forward(s.push(v)) == sum_forward(s) + v.total_forward_traffic,
        sum_receive(s.push(v)) == sum_receive(s) + v.total_receive_traffic,
{
    assert(s.push(v).drop_last() =~= s);
}

/// The aggregate counters equal the sum of the per-connection counters
/// after any event whose traffic target the table holds and that does not
/// saturate an aggregate counter.
pub proof fn lemma_step_reconciliation(m: MonitorV, a: ActionV, now: u64)
    requires
        aggregates_reconciled(m),
        step_reconcilable(m, a),
    ensures
        aggregates_reconciled(step(m, a, now)),
{
    match a {
        ActionV::ConnInit { id, port } => {
            lemma_sum_push(m.conns, init_conn(id, port, now));
        },
        ActionV::ProxyOk { id, server_name } => {
            match find_index(m.conns, id) {
                Option::None => {},
                Option::Some(k) => {
                    lemma_find_index_first(m.conns, id);
                    lemma_sum_update(
                        m.conns,
                        k,
                        ConnectionV { server_name: Option::Some(server_name), ..m.conns[k] },
                    );
                },
            }
        },
        ActionV::ForwardTraffic { id, length } => {
            let k = find_index(m.conns, id)->Some_0;
            lemma_find_index_first(m.conns, id);
            lemma_sum_bounds(m.conns, k);
            lemma_sum_update(
                m.conns,
                k,
                ConnectionV {
                    total_forward_traffic: sat_add(m.conns[k].total_forward_traffic, length),
                    ..m.conns[k]
                },
            );
        },
        ActionV::ReceiveTraffic { id, length } => {
            let k = find_index(m.conns, id)->Some_0;
            lemma_find_index_first(m.conns, id);
            lemma_sum_bounds(m.conns, k);
            lemma_sum_update(
                m.conns,
                k,
                ConnectionV {
                    total_receive_traffic: sat_add(m.conns[k].total_receive_traffic, length),
                    ..m.conns[k]
                },
            );
        },
        ActionV::Heartbeat { id, timestamp } => {
            match find_index(m.conns, id) {
                Option::None => {},
                Option::Some(k) => {
                    lemma_find_index_first(m.conns, id);
                    lemma_sum_update(
                        m.conns,
                        k,
                        ConnectionV { last_timestamp: timestamp, ..m.conns[k] },
                    );
                },
            }
        },
    }
}

/// The reconciliation invariant holds at every point along a batch of
/// events, provided each traffic event targets a record the table holds at
/// that point and no aggregate counter saturates.
pub proof fn lemma_batch_reconciliation(m: MonitorV, actions: Seq<ActionV>, now: u64)
    requires
        aggregates_reconciled(m),
        batch_reconcilable(m, actions, now),
    ensures
        aggregates_reconciled(step_all(m, actions, now)),
    decreases actions.len(),
{
    if actions.len() > 0 {
        lemma_step_reconciliation(m, actions[0], now);
        lemma_batch_reconciliation(
            step(m, actions[0], now),
            actions.subrange(1, actions.len() as int),
            now,
        );
    }
}

/// After a sweep no record carries the zero heartbeat sentinel, and every
/// record free of it survives.
pub proof fn lemma_sweep_removes_condemned(s: Seq<ConnectionV>)
    ensures
        forall|k: int|
            0 <= k < live_conns(s).len() ==> #[trigger] live_conns(s)[k].last_timestamp != 0,
        forall|k: int|
            0 <= k < s.len() && s[k].last_timestamp != 0 ==> live_conns(s).contains(#[trigger] s[k]),
    decreases s.len(),
{
    if s.len() > 0 {
        lemma_sweep_removes_condemned(s.drop_last());
        let l = live_conns(s);
        let ld = live_conns(s.drop_last());
        assert(forall|k: int| 0 <= k < s.len() - 1 ==> s[k] == s.drop_last()[k]);
        if s.last().last_timestamp != 0 {
            assert(forall|j: int| 0 <= j < ld.len() ==> l[j] == ld[j]);
            assert(l[l.len() - 1] == s.last());
            assert(forall|k: int|
                0 <= k < s.len() && s[k].last_timestamp != 0 ==> l.contains(#[trigger] s[k])) by {
                assert(forall|j: int|
                    0 <= j < ld.len() && ld.contains(#[trigger] ld[j]) ==> l.contains(ld[j]));
                assert(forall|j: int| 0 <= j < ld.len() ==> l.contains(#[trigger] ld[j]));
            }
        }
    }
}

impl Monitor {
    /// Removes every record condemned by the zero heartbeat sentinel,
    /// keeping the rest in order.
    pub fn clear_dead_conn(&mut self)
        ensures
            final(self)@.conns == live_conns(old(self)@.conns),
            final(self)@.total_forward_traffic == old(self)@.total_forward_traffic,
            final(self)@.total_receive_traffic == old(self)@.total_receive_traffic,
    {
        let ghost orig = self@.conns;
        let ghost tf = self.total_forward_traffic;
        let ghost tr = self.total_receive_traffic;
        let mut kept: Vec<Connection> = Vec::new();
        let ghost mut done: Seq<ConnectionV> = Seq::empty();
        while self.conn_list.len() > 0
            invariant
                orig =~= done + Seq::new(self.conn_list@.len(), |j: int| self.conn_list@[j]@),
                Seq::new(kept@.len(), |j: int| kept@[j]@) =~= live_conns(done),
                self.total_forward_traffic == tf,
                self.total_receive_traffic == tr,
            decreases self.conn_list@.len(),
        {
            let ghost before = Seq::new(self.conn_list@.len(), |j: int| self.conn_list@[j]@);
            let c = self.conn_list.remove(0);
            let ghost cv = c@;
            proof {
                assert(done.push(cv).drop_last() =~= done);
                assert(before =~= seq![cv] + Seq::new(
                    self.conn_list@.len(),
                    |j: int| self.conn_list@[j]@,
                ));
            }
            if c.last_timestamp != 0 {
                kept.push(c);
            }
            proof {
                done = done.push(cv);
            }
        }
        proof {
            assert(done =~= orig);
        }
        self.conn_list = kept;
    }

    /// Closes a render frame: every record's frame snapshots catch up with
    /// its cumulative counters, and the staleness policy condemns silent
    /// records by setting their heartbeat to the zero sentinel.
    pub fn frame_sweep(&mut self, now: u64)
        ensures
            final(self)@.conns == swept(old(self)@.conns, now),
            final(self)@.total_forward_traffic == old(self)@.total_forward_traffic,
            final(self)@.total_receive_traffic == old(self)@.total_receive_traffic,
    {
        let ghost orig = self@.conns;
        let n = self.conn_list.len();
        let mut i: usize = 0;
        while i < n
            invariant
                i <= n,
                n == self.conn_list@.len(),
                orig.len() == n,
                forall|j: int| i <= j < n ==> self@.conns[j] == orig[j],
                forall|j: int|
                    0 <= j < i ==> self@.conns[j] == frame_and_condemn(#[trigger] orig[j], now),
                self.total_forward_traffic == old(self).total_forward_traffic,
                self.total_receive_traffic == old(self).total_receive_traffic,
            decreases n - i,
        {
            let ghost pre = self@.conns[i as int];
            let c = &mut self.conn_list[i];
            c.last_frame_total_forward_traffic = c.total_forward_traffic;
            c.last_frame_total_receive_traffic = c.total_receive_traffic;
            let stale = if c.server_name.is_some() {
                now > c.last_timestamp && now - c.last_timestamp > 10
            } else {
                now > c.last_timestamp && now - c.last_timestamp > 60
            };
            if stale {
                c.last_timestamp = 0;
            }
            proof {
                assert(self@.conns[i as int] =~= frame_and_condemn(pre, now));
            }
            i = i + 1;
        }
        proof {
            assert(self@.conns =~= swept(orig, now));
        }
    }

    /// Folds a whole batch of events into the state, in order.
    pub fn process_actions(&mut self, actions: Vec<MonitorAction>, now: u64)
        ensures
            final(self)@ == step_all(old(self)@, actions_view(actions@), now),
    {
        let ghost all = actions_view(actions@);
        let mut rest = actions;
        while rest.len() > 0
            invariant
                step_all(old(self)@, all, now) == step_all(self@, actions_view(rest@), now),
            decreases rest@.len(),
        {
            let ghost before = actions_view(rest@);
            let a = rest.remove(0);
            let ghost prev = self@;
            self.handle_action(a, now);
            proof {
                assert(before[0] == a@);
                assert(before.subrange(1, before.len() as int) =~= actions_view(rest@));
                assert(step_all(prev, before, now) == step_all(self@, actions_view(rest@), now));
            }
        }
        proof {
            assert(actions_view(rest@) =~= Seq::<ActionV>::empty());
        }
    }
}

/// The traffic moved since the previous render frame: the forwarded and
/// received deltas against the frame snapshots, floored at zero.
pub fn frame_delta(c: &Connection) -> (r: (u64, u64))
    ensures
        r.0 == if c@.total_forward_traffic >= c@.last_frame_total_forward_traffic {
            (c@.total_forward_traffic - c@.last_frame_total_forward_traffic) as u64
        } else {
            0u64
        },
        r.1 == if c@.total_receive_traffic >= c@.last_frame_total_receive_traffic {
            (c@.total_receive_traffic - c@.last_frame_total_receive_traffic) as u64
        } else {
            0u64
        },
{
    let f = if c.total_forward_traffic >= c.last_frame_total_forward_traffic {
        c.total_forward_traffic - c.last_frame_total_forward_traffic
    } else {
        0
    };
    let r = if c.total_receive_traffic >= c.last_frame_total_receive_traffic {
        c.total_receive_traffic - c.last_frame_total_receive_traffic
    } else {
        0
    };
    (f, r)
}

} // verus!
