//! The deterministic model of the tracing engine a session drives.
//!
//! One `Engine` value stands for the whole engine-side state reachable through
//! one connection: lifecycle state, the option table, the principal event
//! buffer, the aggregation buffer and its staged snapshot, handler slots, and
//! the logical clock against which the three consumption rates are reconciled.
//! Test rigs seed this state through the session handle and drive the
//! consumption protocol against it.

use vstd::prelude::*;
use crate::opts::{OptEntry, opt_value_of};
use crate::aggregate::AggRecord;

verus! {

/// The protocol version this engine speaks.
pub const DTRACE_VERSION: i32 = 3;

/// Do not attempt to open tracing devices.
pub const DTRACE_O_NODEV: i32 = 0x01;

/// Do not attempt to enable providers.
pub const DTRACE_O_NOSYS: i32 = 0x02;

/// Operate in 64-bit pointer mode.
pub const DTRACE_O_LP64: i32 = 0x04;

/// Operate in 32-bit pointer mode.
pub const DTRACE_O_ILP32: i32 = 0x08;

/// Every recognized open flag.
pub const DTRACE_O_MASK: i32 = 0x0f;

/// Default value of the three rates, in logical milliseconds.
pub const DEFAULT_RATE: i64 = 1000;

/// Default principal buffer size option value.
pub const DEFAULT_BUFSIZE: i64 = 4194304;

/// Default ceiling on enabled probes.
pub const DEFAULT_PROBE_LIMIT: u64 = 1000;

/// Lifecycle of one session: opened (configurable), running (probes enabled),
/// stopped (probes disabled, buffers released).
#[derive(Clone, Copy, PartialEq, Eq, Structural, Debug)]
pub enum SessionState {
    Opened,
    Running,
    Stopped,
}

/// One traced event in the principal buffer: an enabled-probe occurrence, the
/// data records that belong to it in buffer order, and whether the event was
/// an exit action, which completes tracing once consumed.
pub struct Event {
    pub epid: u64,
    pub records: Vec<i64>,
    pub exits: bool,
}

/// A status snapshot: whether tracing has completed, and how many records the
/// engine has dropped so far.
#[allow(non_camel_case_types)]
#[derive(Clone, Copy, PartialEq, Eq, Structural, Debug)]
pub struct dtrace_status {
    pub exited: bool,
    pub drops: u64,
}

/// The engine-side state reachable through one connection.
pub struct Engine {
    pub oflags: i32,
    pub run_state: SessionState,
    pub closed: bool,
    pub teardown_count: u64,
    pub errno: i32,
    pub compiler_msg: Option<String>,
    pub options: Vec<OptEntry>,
    pub now: u64,
    pub last_switch: u64,
    pub last_status: u64,
    pub last_agg: u64,
    pub enabled_probes: u64,
    pub probe_limit: u64,
    pub exited: bool,
    pub drops: u64,
    pub principal: Vec<Event>,
    pub aggregates: Vec<AggRecord>,
    pub snapshot: Vec<AggRecord>,
    pub fault: Option<i32>,
    pub h_buffered: Option<u64>,
    pub h_drop: Option<u64>,
    pub h_err: Option<u64>,
    pub h_setopt: Option<u64>,
    pub sink_attached: bool,
    pub sink_out: Vec<i64>,
    pub buffered_out: Vec<i64>,
}

impl Engine {
    /// Internal consistency: the three last-occurrence times never run ahead
    /// of the clock, option values are the engine's nonnegative integer form,
    /// and the probe budget is respected.
    pub open spec fn wf(self) -> bool {
        &&& self.last_switch <= self.now
        &&& self.last_status <= self.now
        &&& self.last_agg <= self.now
        &&& forall|i: int|
            0 <= i < self.options@.len() ==> (#[trigger] self.options@[i]).value >= 0
        &&& self.enabled_probes <= self.probe_limit
    }

    /// The configured value under `name`, or `DEFAULT_RATE` when unset.
    pub open spec fn rate_of(self, name: Seq<char>) -> int {
        match opt_value_of(self.options@, name) {
            Option::Some(v) => v as int,
            Option::None => DEFAULT_RATE as int,
        }
    }

    /// How often principal buffers are consumed.
    pub open spec fn switchrate(self) -> int {
        self.rate_of("switchrate"@)
    }

    /// How often the status is polled.
    pub open spec fn statusrate(self) -> int {
        self.rate_of("statusrate"@)
    }

    /// How often aggregation buffers are snapshotted.
    pub open spec fn aggrate(self) -> int {
        self.rate_of("aggrate"@)
    }

    /// The switch rate has elapsed since the principal buffers were last
    /// consumed.
    pub open spec fn switch_elapsed(self) -> bool {
        self.now - self.last_switch >= self.switchrate()
    }

    /// The aggregation rate has elapsed since the last snapshot.
    pub open spec fn agg_elapsed(self) -> bool {
        self.now - self.last_agg >= self.aggrate()
    }
}

/// The set of epids of a buffer, in buffer order: one probe visit per event.
pub open spec fn epids_of(evs: Seq<Event>) -> Seq<u64> {
    evs.map_values(|e: Event| e.epid)
}

/// All data records of a buffer, in buffer order.
pub open spec fn records_of(evs: Seq<Event>) -> Seq<i64>
    decreases evs.len(),
{
    if evs.len() == 0 {
        Seq::empty()
    } else {
        evs[0].records@ + records_of(evs.drop_first())
    }
}

/// Whether some event of the buffer is an exit action.
pub open spec fn any_exit(evs: Seq<Event>) -> bool {
    exists|i: int| 0 <= i < evs.len() && (#[trigger] evs[i]).exits
}

/// Appending one event extends the record stream by that event's records.
pub proof fn lemma_records_of_push(evs: Seq<Event>, e: Event)
    ensures
        records_of(evs.push(e)) == records_of(evs) + e.records@,
    decreases evs.len(),
{
    let s = evs.push(e);
    if evs.len() == 0 {
        assert(s.drop_first() =~= Seq::<Event>::empty());
        assert(records_of(s) == s[0].records@ + records_of(s.drop_first()));
        assert(s[0] == e);
        assert(records_of(s) =~= records_of(evs) + e.records@);
    } else {
        lemma_records_of_push(evs.drop_first(), e);
        assert(s.drop_first() =~= evs.drop_first().push(e));
        assert(s[0] == evs[0]);
        assert(records_of(s) == s[0].records@ + records_of(s.drop_first()));
        assert(records_of(s.drop_first()) == records_of(evs.drop_first()) + e.records@);
        assert(records_of(evs) == evs[0].records@ + records_of(evs.drop_first()));
        assert(records_of(s) =~= records_of(evs) + e.records@);
    }
    assert(records_of(evs.push(e)) == records_of(evs) + e.records@);
}

/// Appending one event adds its exit mark to the buffer's.
pub proof fn lemma_any_exit_push(evs: Seq<Event>, e: Event)
    ensures
        any_exit(evs.push(e)) == (any_exit(evs) || e.exits),
{
    let s = evs.push(e);
    if any_exit(evs) {
        let i = choose|i: int| 0 <= i < evs.len() && evs[i].exits;
        assert(s[i].exits);
    }
    if e.exits {
        assert(s[evs.len() as int].exits);
    }
    if any_exit(s) {
        let i = choose|i: int| 0 <= i < s.len() && s[i].exits;
        if i < evs.len() {
            assert(evs[i].exits);
        }
    }
}

} // verus!
