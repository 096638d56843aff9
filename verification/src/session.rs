//! The session handle: exclusive owner of one engine connection.
//!
//! A handle is created by a successful open, drives the engine through the
//! lifecycle `Opened -> Running -> Stopped`, and is destroyed by `dtrace_close`,
//! which consumes it.  Because closing takes the handle by value and every
//! operation keeps the connection unreleased, the connection is released
//! exactly once per session, on every exit path.

use vstd::prelude::*;
use crate::errors::{
    Error, global_errmsg, spec_errmsg, EDT_VERSION, EDT_BADFLAGS, EDT_COMPILER, EDT_ACTIVE,
    EDT_STOPPED, EDT_NOTRUNNING, EDT_BADOPTNAME, EDT_BADOPTVAL, EDT_NOTSUP,
};
use crate::engine::{
    Engine, Event, SessionState, DTRACE_VERSION, DTRACE_O_MASK, DTRACE_O_LP64, DTRACE_O_ILP32,
    DEFAULT_RATE, DEFAULT_BUFSIZE, DEFAULT_PROBE_LIMIT,
};
use crate::opts::{
    OptEntry, opt_value_of, opt_store_set, dec_val_i64, optval_accepted, parse_optval,
    lemma_opt_found_at, lemma_opt_absent, lemma_opt_set_unknown, lemma_opt_set_then_get,
    lemma_dec_val_bound, lemma_pow10_mono, lemma_pow10_18,
};
use crate::aggregate::AggRecord;

verus! {

/// The integer form of an option value.
#[allow(non_camel_case_types)]
pub type dtrace_optval_t = i64;

/// One handler registration: a callback class tag carrying an opaque
/// reference to the host callback.  Installing a registration replaces the
/// previous handler of the same class; the process-control class is reserved
/// and not supported by this engine.
#[allow(non_camel_case_types)]
#[derive(Clone, Copy, PartialEq, Eq, Structural, Debug)]
pub enum dtrace_handler {
    Buffered(u64),
    DropData(u64),
    ErrData(u64),
    SetOpt(u64),
    Proc(u64),
}

/// A handle to one tracing session.
#[allow(non_camel_case_types)]
pub struct dtrace_hdl {
    pub engine: Engine,
}

/// Whether an open request is accepted: the version must match and the flags
/// must use only recognized bits, with at most one pointer-width bit.
pub open spec fn spec_open_ok(version: i32, flags: i32) -> bool {
    &&& version == DTRACE_VERSION
    &&& (flags | DTRACE_O_MASK) == DTRACE_O_MASK
    &&& !((flags & DTRACE_O_LP64) != 0 && (flags & DTRACE_O_ILP32) != 0)
}

/// The option table a fresh session starts with.
pub open spec fn fresh_options(opts: Seq<OptEntry>) -> bool {
    &&& opts.len() == 4
    &&& opts[0].name@ == "switchrate"@ && opts[0].value == DEFAULT_RATE
    &&& opts[1].name@ == "statusrate"@ && opts[1].value == DEFAULT_RATE
    &&& opts[2].name@ == "aggrate"@ && opts[2].value == DEFAULT_RATE
    &&& opts[3].name@ == "bufsize"@ && opts[3].value == DEFAULT_BUFSIZE
}

/// The engine state behind a freshly opened session.
pub open spec fn is_fresh_engine(e: Engine, flags: i32) -> bool {
    &&& e.oflags == flags
    &&& e.run_state == SessionState::Opened
    &&& !e.closed
    &&& e.teardown_count == 0
    &&& e.errno == 0
    &&& e.compiler_msg is None
    &&& fresh_options(e.options@)
    &&& e.now == 0 && e.last_switch == 0 && e.last_status == 0 && e.last_agg == 0
    &&& e.enabled_probes == 0
    &&& e.probe_limit == DEFAULT_PROBE_LIMIT
    &&& !e.exited
    &&& e.drops == 0
    &&& e.principal@.len() == 0
    &&& e.aggregates@.len() == 0
    &&& e.snapshot@.len() == 0
    &&& e.fault is None
    &&& e.h_buffered is None && e.h_drop is None && e.h_err is None && e.h_setopt is None
    &&& !e.sink_attached
    &&& e.sink_out@.len() == 0
    &&& e.buffered_out@.len() == 0
}

/// The engine after an operation fails with `code`.
pub open spec fn spec_err(e: Engine, code: i32) -> Engine {
    Engine { errno: code, ..e }
}

/// The engine after its connection is released.
pub open spec fn spec_close(e: Engine) -> Engine {
    Engine {
        closed: true,
        teardown_count: if e.teardown_count == u64::MAX {
            u64::MAX
        } else {
            (e.teardown_count + 1) as u64
        },
        run_state: SessionState::Stopped,
        ..e
    }
}

/// The message a handle reports for a code: the handle-held compiler message
/// for the compiler code when one is recorded, the shared table otherwise.
pub open spec fn handle_errmsg(e: Engine, code: i32) -> Seq<char> {
    if code == EDT_COMPILER && e.compiler_msg is Some {
        e.compiler_msg.unwrap()@
    } else {
        spec_errmsg(code)
    }
}

/// Earliest of the three deadlines the sleep primitive waits for.
pub open spec fn wake_time(e: Engine) -> int {
    let d1 = e.last_switch + e.switchrate();
    let d2 = e.last_status + e.statusrate();
    let d3 = e.last_agg + e.aggrate();
    if d1 <= d2 && d1 <= d3 {
        d1
    } else if d2 <= d3 {
        d2
    } else {
        d3
    }
}

/// The clock after a sleep: unchanged when the wake time has passed, else the
/// wake time, clamped to the clock's range.
pub open spec fn sleep_target(e: Engine) -> int {
    if wake_time(e) <= e.now {
        e.now as int
    } else if wake_time(e) > u64::MAX {
        u64::MAX as int
    } else {
        wake_time(e)
    }
}

impl dtrace_hdl {
    /// A live handle: the connection is open and has never been released.
    pub open spec fn wf(self) -> bool {
        &&& self.engine.wf()
        &&& !self.engine.closed
        &&& self.engine.teardown_count == 0
    }

    /// Requests a connection from the engine.  Succeeds exactly when the
    /// version matches and the flags are a recognized, consistent bitset; a
    /// failed open yields no handle at all.
    pub fn dtrace_open(version: i32, flags: i32) -> (r: Result<dtrace_hdl, Error>)
        ensures
            r is Ok <==> spec_open_ok(version, flags),
            r is Ok ==> is_fresh_engine(r->Ok_0.engine, flags) && r->Ok_0.wf(),
            r is Err ==> r->Err_0.code == (if version != DTRACE_VERSION {
                EDT_VERSION
            } else {
                EDT_BADFLAGS
            }),
    {
        if version != DTRACE_VERSION {
            return Err(Error::from_code(EDT_VERSION));
        }
        if (flags | DTRACE_O_MASK) != DTRACE_O_MASK || ((flags & DTRACE_O_LP64) != 0 && (flags
            & DTRACE_O_ILP32) != 0) {
            return Err(Error::from_code(EDT_BADFLAGS));
        }
        let mut options: Vec<OptEntry> = Vec::new();
        options.push(OptEntry { name: String::from_str("switchrate"), value: DEFAULT_RATE });
        options.push(OptEntry { name: String::from_str("statusrate"), value: DEFAULT_RATE });
        options.push(OptEntry { name: String::from_str("aggrate"), value: DEFAULT_RATE });
        options.push(OptEntry { name: String::from_str("bufsize"), value: DEFAULT_BUFSIZE });
        Ok(
            dtrace_hdl {
                engine: Engine {
                    oflags: flags,
                    run_state: SessionState::Opened,
                    closed: false,
                    teardown_count: 0,
                    errno: 0,
                    compiler_msg: None,
                    options,
                    now: 0,
                    last_switch: 0,
                    last_status: 0,
                    last_agg: 0,
                    enabled_probes: 0,
                    probe_limit: DEFAULT_PROBE_LIMIT,
                    exited: false,
                    drops: 0,
                    principal: Vec::new(),
                    aggregates: Vec::new(),
                    snapshot: Vec::new(),
                    fault: None,
                    h_buffered: None,
                    h_drop: None,
                    h_err: None,
                    h_setopt: None,
                    sink_attached: false,
                    sink_out: Vec::new(),
                    buffered_out: Vec::new(),
                },
            },
        )
    }

    /// Releases the connection.  The handle is consumed, so release happens
    /// exactly once per session, whatever path led here; the final engine
    /// state is returned so the teardown can be observed.
    pub fn dtrace_close(self) -> (r: Engine)
        ensures
            r == spec_close(self.engine),
            self.wf() ==> r.teardown_count == 1,
    {
        let mut e = self.engine;
        if e.teardown_count < u64::MAX {
            e.teardown_count = e.teardown_count + 1;
        }
        e.closed = true;
        e.run_state = SessionState::Stopped;
        e
    }

    /// Enables the probes of every executed program and starts tracing.
    /// Succeeds exactly when the session has not yet been started.
    pub fn dtrace_go(&mut self) -> (r: Result<(), Error>)
        requires
            old(self).wf(),
        ensures
            final(self).wf(),
            old(self).engine.run_state == SessionState::Opened ==> r is Ok && final(self).engine
                == (Engine {
                run_state: SessionState::Running,
                last_switch: old(self).engine.now,
                last_status: old(self).engine.now,
                last_agg: old(self).engine.now,
                ..old(self).engine
            }),
            old(self).engine.run_state == SessionState::Running ==> r is Err
                && r->Err_0.code == EDT_ACTIVE && final(self).engine == spec_err(
                old(self).engine,
                EDT_ACTIVE,
            ),
            old(self).engine.run_state == SessionState::Stopped ==> r is Err
                && r->Err_0.code == EDT_STOPPED && final(self).engine == spec_err(
                old(self).engine,
                EDT_STOPPED,
            ),
    {
        match self.engine.run_state {
            SessionState::Opened => {
                self.engine.run_state = SessionState::Running;
                self.engine.last_switch = self.engine.now;
                self.engine.last_status = self.engine.now;
                self.engine.last_agg = self.engine.now;
                Ok(())
            },
            SessionState::Running => {
                self.engine.errno = EDT_ACTIVE;
                Err(Error::from_code(EDT_ACTIVE))
            },
            SessionState::Stopped => {
                self.engine.errno = EDT_STOPPED;
                Err(Error::from_code(EDT_STOPPED))
            },
        }
    }

    /// Disables the probes and releases engine-side buffer memory.  Succeeds
    /// exactly when the session is running; stopping is not idempotent.
    pub fn dtrace_stop(&mut self) -> (r: Result<(), Error>)
        requires
            old(self).wf(),
        ensures
            final(self).wf(),
            old(self).engine.run_state == SessionState::Running ==> r is Ok && final(self).engine
                == (Engine { run_state: SessionState::Stopped, ..old(self).engine }),
            old(self).engine.run_state != SessionState::Running ==> r is Err
                && r->Err_0.code == EDT_NOTRUNNING && final(self).engine == spec_err(
                old(self).engine,
                EDT_NOTRUNNING,
            ),
    {
        match self.engine.run_state {
            SessionState::Running => {
                self.engine.run_state = SessionState::Stopped;
                Ok(())
            },
            _ => {
                self.engine.errno = EDT_NOTRUNNING;
                Err(Error::from_code(EDT_NOTRUNNING))
            },
        }
    }

    /// Last recorded error code for this handle.
    pub fn dtrace_errno(&self) -> (r: i32)
        ensures
            r == self.engine.errno,
    {
        self.engine.errno
    }

    /// Stateless message lookup: with a handle, the handle's tables; without
    /// one, the global table, for errors that precede any session.
    pub fn dtrace_errmsg<'a>(handle: Option<&'a dtrace_hdl>, errno: i32) -> (r: &'a str)
        ensures
            r@ == (match handle {
                Option::Some(h) => handle_errmsg(h.engine, errno),
                Option::None => spec_errmsg(errno),
            }),
    {
        match handle {
            Some(h) => {
                if errno == EDT_COMPILER {
                    match &h.engine.compiler_msg {
                        Some(m) => m.as_str(),
                        None => global_errmsg(errno),
                    }
                } else {
                    global_errmsg(errno)
                }
            },
            None => global_errmsg(errno),
        }
    }

    /// The value currently stored under `option`, if the engine knows the
    /// name.
    pub fn opt_find(&self, option: &str) -> (r: Option<i64>)
        ensures
            r == opt_value_of(self.engine.options@, option@),
    {
        let key = String::from_str(option);
        let n = self.engine.options.len();
        let mut i: usize = 0;
        while i < n
            invariant
                0 <= i <= n,
                n == self.engine.options@.len(),
                key@ == option@,
                forall|j: int| 0 <= j < i ==> (#[trigger] self.engine.options@[j]).name@ != option@,
            decreases n - i,
        {
            if self.engine.options[i].name.eq(&key) {
                proof {
                    lemma_opt_found_at(self.engine.options@, option@, 0, i as int);
                }
                return Some(self.engine.options[i].value);
            }
            i = i + 1;
        }
        proof {
            lemma_opt_absent(self.engine.options@, option@);
        }
        None
    }

    /// Sets a named option.  Both name and value are text; the engine rejects
    /// unknown names and malformed values, and a set does not report the
    /// previous value.
    pub fn dtrace_setopt(&mut self, option: &str, value: &str) -> (r: Result<(), Error>)
        requires
            old(self).wf(),
        ensures
            final(self).wf(),
            r is Ok <==> opt_value_of(old(self).engine.options@, option@) is Some
                && optval_accepted(value@),
            r is Ok ==> final(self).engine == (Engine {
                options: final(self).engine.options,
                ..old(self).engine
            }) && final(self).engine.options@ == opt_store_set(
                old(self).engine.options@,
                option@,
                dec_val_i64(value@),
            ),
            r is Err ==> r->Err_0.code == (if opt_value_of(old(self).engine.options@, option@)
                is None {
                EDT_BADOPTNAME
            } else {
                EDT_BADOPTVAL
            }) && final(self).engine == spec_err(old(self).engine, r->Err_0.code),
    {
        let key = String::from_str(option);
        let n = self.engine.options.len();
        let mut i: usize = 0;
        while i < n
            invariant
                0 <= i <= n,
                *self == *old(self),
                old(self).wf(),
                n == self.engine.options@.len(),
                key@ == option@,
                forall|j: int| 0 <= j < i ==> (#[trigger] self.engine.options@[j]).name@ != option@,
            decreases n - i,
        {
            if self.engine.options[i].name.eq(&key) {
                proof {
                    lemma_opt_found_at(self.engine.options@, option@, 0, i as int);
                }
                match parse_optval(value) {
                    Ok(v) => {
                        proof {
                            lemma_opt_found_at(self.engine.options@, option@, v, i as int);
                            lemma_dec_val_bound(value@);
                            lemma_pow10_mono(value@.len(), 18);
                            lemma_pow10_18();
                        }
                        let name = self.engine.options[i].name.clone();
                        self.engine.options.set(i, OptEntry { name, value: v });
                        proof {
                            assert(self.engine.options@ =~= opt_store_set(
                                old(self).engine.options@,
                                option@,
                                dec_val_i64(value@),
                            ));
                            assert(v >= 0);
                            assert forall|j: int|
                                0 <= j < self.engine.options@.len() implies (
                            #[trigger] self.engine.options@[j]).value >= 0 by {
                                if j != i as int {
                                    assert(self.engine.options@[j]
                                        == old(self).engine.options@[j]);
                                }
                            }
                            assert(self.engine.wf());
                        }
                        return Ok(());
                    },
                    Err(_) => {
                        self.engine.errno = EDT_BADOPTVAL;
                        return Err(Error::from_code(EDT_BADOPTVAL));
                    },
                }
            }
            i = i + 1;
        }
        proof {
            lemma_opt_absent(self.engine.options@, option@);
        }
        self.engine.errno = EDT_BADOPTNAME;
        Err(Error::from_code(EDT_BADOPTNAME))
    }

    /// Reads a named option's current integer value.  Fails exactly on names
    /// the engine does not know.
    pub fn dtrace_getopt(&mut self, option: &str) -> (r: Result<dtrace_optval_t, Error>)
        requires
            old(self).wf(),
        ensures
            final(self).wf(),
            r is Ok <==> opt_value_of(old(self).engine.options@, option@) is Some,
            r is Ok ==> r->Ok_0 == opt_value_of(old(self).engine.options@, option@).unwrap()
                && *final(self) == *old(self),
            r is Err ==> r->Err_0.code == EDT_BADOPTNAME && final(self).engine == spec_err(
                old(self).engine,
                EDT_BADOPTNAME,
            ),
    {
        match self.opt_find(option) {
            Some(v) => Ok(v),
            None => {
                self.engine.errno = EDT_BADOPTNAME;
                Err(Error::from_code(EDT_BADOPTNAME))
            },
        }
    }

    /// Installs a handler for one callback class, replacing any previous
    /// handler of that class.  The process-control class is reserved and is
    /// the only registration the engine refuses.
    pub fn dtrace_register_handler(&mut self, handler: dtrace_handler) -> (r: Result<(), Error>)
        requires
            old(self).wf(),
        ensures
            final(self).wf(),
            r is Ok <==> !(handler is Proc),
            handler matches dtrace_handler::Buffered(id) ==> final(self).engine == (Engine {
                h_buffered: Some(id),
                ..old(self).engine
            }),
            handler matches dtrace_handler::DropData(id) ==> final(self).engine == (Engine {
                h_drop: Some(id),
                ..old(self).engine
            }),
            handler matches dtrace_handler::ErrData(id) ==> final(self).engine == (Engine {
                h_err: Some(id),
                ..old(self).engine
            }),
            handler matches dtrace_handler::SetOpt(id) ==> final(self).engine == (Engine {
                h_setopt: Some(id),
                ..old(self).engine
            }),
            handler is Proc ==> r->Err_0.code == EDT_NOTSUP && final(self).engine == spec_err(
                old(self).engine,
                EDT_NOTSUP,
            ),
    {
        match handler {
            dtrace_handler::Buffered(id) => {
                self.engine.h_buffered = Some(id);
                Ok(())
            },
            dtrace_handler::DropData(id) => {
                self.engine.h_drop = Some(id);
                Ok(())
            },
            dtrace_handler::ErrData(id) => {
                self.engine.h_err = Some(id);
                Ok(())
            },
            dtrace_handler::SetOpt(id) => {
                self.engine.h_setopt = Some(id);
                Ok(())
            },
            dtrace_handler::Proc(_) => {
                self.engine.errno = EDT_NOTSUP;
                Err(Error::from_code(EDT_NOTSUP))
            },
        }
    }

    /// The configured rate under `name`, or the default when unset.
    pub fn rate_lookup(&self, name: &str) -> (r: i64)
        requires
            self.wf(),
        ensures
            r == self.engine.rate_of(name@),
            r >= 0,
    {
        proof {
            crate::opts::lemma_opt_value_nonneg(self.engine.options@, name@);
        }
        match self.opt_find(name) {
            Some(v) => v,
            None => DEFAULT_RATE,
        }
    }

    /// Blocks until the earliest of the three rate deadlines; a deadline in
    /// the past is a no-op.  Blocking is modelled as advancing the logical
    /// clock to the wake time.
    pub fn dtrace_sleep(&mut self)
        requires
            old(self).wf(),
        ensures
            final(self).wf(),
            final(self).engine == (Engine { now: final(self).engine.now, ..old(self).engine }),
            final(self).engine.now == sleep_target(old(self).engine),
    {
        let rs = self.rate_lookup("switchrate");
        let rt = self.rate_lookup("statusrate");
        let ra = self.rate_lookup("aggrate");
        let d1: u128 = self.engine.last_switch as u128 + rs as u128;
        let d2: u128 = self.engine.last_status as u128 + rt as u128;
        let d3: u128 = self.engine.last_agg as u128 + ra as u128;
        let mut w = d1;
        if d2 < w {
            w = d2;
        }
        if d3 < w {
            w = d3;
        }
        proof {
            assert(w == wake_time(old(self).engine));
        }
        if w > self.engine.now as u128 {
            if w > u64::MAX as u128 {
                self.engine.now = u64::MAX;
            } else {
                self.engine.now = w as u64;
            }
        }
    }

    /// Queues one traced event on the engine-side principal buffer.
    pub fn seed_event(&mut self, epid: u64, records: Vec<i64>, exits: bool)
        requires
            old(self).wf(),
        ensures
            final(self).wf(),
            final(self).engine == (Engine {
                principal: final(self).engine.principal,
                ..old(self).engine
            }),
            final(self).engine.principal@ == old(self).engine.principal@.push(
                Event { epid, records, exits },
            ),
    {
        self.engine.principal.push(Event { epid, records, exits });
    }

    /// Adds one record to the engine-side aggregation buffer.
    pub fn seed_aggregation(&mut self, rec: AggRecord)
        requires
            old(self).wf(),
        ensures
            final(self).wf(),
            final(self).engine == (Engine {
                aggregates: final(self).engine.aggregates,
                ..old(self).engine
            }),
            final(self).engine.aggregates@ == old(self).engine.aggregates@.push(rec),
    {
        self.engine.aggregates.push(rec);
    }

    /// Sets the engine-side dropped-record counter.
    pub fn seed_drops(&mut self, drops: u64)
        requires
            old(self).wf(),
        ensures
            final(self).wf(),
            final(self).engine == (Engine { drops, ..old(self).engine }),
    {
        self.engine.drops = drops;
    }

    /// Sets the engine-side probe budget.
    pub fn set_probe_limit(&mut self, limit: u64)
        requires
            old(self).wf(),
            limit >= old(self).engine.enabled_probes,
        ensures
            final(self).wf(),
            final(self).engine == (Engine { probe_limit: limit, ..old(self).engine }),
    {
        self.engine.probe_limit = limit;
    }

    /// Arms a one-shot engine fault: the next consumption round-trip fails
    /// with this code.
    pub fn inject_fault(&mut self, code: i32)
        requires
            old(self).wf(),
        ensures
            final(self).wf(),
            final(self).engine == (Engine { fault: Some(code), ..old(self).engine }),
    {
        self.engine.fault = Some(code);
    }

    /// Advances the logical clock.
    pub fn advance_time(&mut self, delta: u64)
        requires
            old(self).wf(),
            old(self).engine.now + delta <= u64::MAX,
        ensures
            final(self).wf(),
            final(self).engine == (Engine {
                now: (old(self).engine.now + delta) as u64,
                ..old(self).engine
            }),
    {
        self.engine.now = self.engine.now + delta;
    }

    /// Supplies an output sink: formatted consumption output goes there until
    /// it is detached.
    pub fn attach_sink(&mut self)
        requires
            old(self).wf(),
        ensures
            final(self).wf(),
            final(self).engine == (Engine { sink_attached: true, ..old(self).engine }),
    {
        self.engine.sink_attached = true;
    }

    /// Removes the output sink: formatted output falls back to the buffered
    /// handler, or is discarded when none is registered.
    pub fn detach_sink(&mut self)
        requires
            old(self).wf(),
        ensures
            final(self).wf(),
            final(self).engine == (Engine { sink_attached: false, ..old(self).engine }),
    {
        self.engine.sink_attached = false;
    }

    /// Everything written to the sink so far.
    pub fn sink_data(&self) -> (r: &Vec<i64>)
        ensures
            r@ == self.engine.sink_out@,
    {
        &self.engine.sink_out
    }

    /// Everything routed to the buffered handler so far.
    pub fn buffered_data(&self) -> (r: &Vec<i64>)
        ensures
            r@ == self.engine.buffered_out@,
    {
        &self.engine.buffered_out
    }
}

/// For every session the connection is released exactly once: every live
/// handle holds an unreleased connection, every operation on a live handle,
/// failing or not, keeps it unreleased (their contracts preserve `wf`), and
/// the one release is the close, which consumes the handle.
pub proof fn lemma_teardown_exactly_once(h: dtrace_hdl)
    requires
        h.wf(),
    ensures
        h.engine.teardown_count == 0,
        spec_close(h.engine).teardown_count == 1,
        spec_close(h.engine).closed,
{
}

/// On a fresh session the handle's message tables and the global table agree
/// for every code.
pub proof fn lemma_errmsg_fresh_session_agrees(e: Engine, code: i32)
    requires
        e.compiler_msg is None,
    ensures
        handle_errmsg(e, code) == spec_errmsg(code),
{
}

/// Setting an option and immediately reading it back yields the engine's
/// integer form of the value set, for every name the engine accepts; an
/// unknown name fails both directions consistently (the store is unchanged
/// and holds no value for it).
pub proof fn lemma_setopt_then_getopt(opts: Seq<OptEntry>, name: Seq<char>, v: i64)
    ensures
        opt_value_of(opts, name) is Some ==> opt_value_of(opt_store_set(opts, name, v), name)
            == Option::<i64>::Some(v),
        opt_value_of(opts, name) is None ==> opt_store_set(opts, name, v) == opts
            && opt_value_of(opt_store_set(opts, name, v), name) is None,
{
    if opt_value_of(opts, name) is Some {
        lemma_opt_set_then_get(opts, name, v);
    } else {
        lemma_opt_set_unknown(opts, name, v);
    }
}

} // verus!
