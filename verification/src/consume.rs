//! The periodic buffer-consumption protocol.
//!
//! A consumer polls the status, snapshots aggregation buffers, and drains the
//! principal buffer, reconciling the three configured rates against the
//! logical clock.  Every engine round-trip first surfaces a pending engine
//! fault, and requires a running session; a walk over already-staged
//! aggregation data is local and cannot fail.  Data already delivered to a
//! visitor is never retracted: the logs only grow.

use vstd::prelude::*;
use crate::errors::{Error, EDT_NOTRUNNING};
use crate::engine::{
    Engine, Event, SessionState, dtrace_status, epids_of, records_of, any_exit,
    lemma_records_of_push, lemma_any_exit_push,
};
use crate::session::dtrace_hdl;
use crate::aggregate::{
    AggRecord, Slot, dtrace_aggwalk_order, is_agg_plan, agg_plan, agg_plan_of,
};
use crate::visit::{VisitPolicy, visit_cap, visit_cap_exec};

verus! {

/// Outcome of one periodic work cycle: more work expected, or tracing has
/// completed.  A failing cycle is reported as this layer's error instead.
#[allow(non_camel_case_types)]
#[derive(Clone, Copy, PartialEq, Eq, Structural, Debug)]
pub enum dtrace_workstatus_t {
    Okay,
    Done,
}

/// The error an engine round-trip reports before doing any work: the session
/// must be running, and an armed fault fires first.
pub open spec fn roundtrip_err(e: Engine) -> Option<i32> {
    if e.run_state != SessionState::Running {
        Option::Some(EDT_NOTRUNNING)
    } else {
        e.fault
    }
}

/// The engine after a round-trip failed: the code is recorded and an armed
/// fault is spent.
pub open spec fn spec_roundtrip_fail(e: Engine, code: i32) -> Engine {
    Engine { errno: code, fault: Option::None, ..e }
}

/// Where consumption output lands: an attached sink wins, else a registered
/// buffered handler, else the output is discarded.
pub open spec fn routed_sink(e: Engine, vals: Seq<i64>) -> Seq<i64> {
    if e.sink_attached {
        e.sink_out@ + vals
    } else {
        e.sink_out@
    }
}

/// See [`routed_sink`]: the buffered handler's share of the output.
pub open spec fn routed_buffered(e: Engine, vals: Seq<i64>) -> Seq<i64> {
    if !e.sink_attached && e.h_buffered is Some {
        e.buffered_out@ + vals
    } else {
        e.buffered_out@
    }
}

/// Whether a work cycle snapshots the aggregation buffers: on completion, or
/// when the aggregation rate has elapsed.
pub open spec fn work_does_agg(e: Engine) -> bool {
    e.exited || e.agg_elapsed()
}

/// Whether a work cycle drains the principal buffers: on completion, or when
/// the switch rate has elapsed.
pub open spec fn work_does_switch(e: Engine) -> bool {
    e.exited || e.switch_elapsed()
}

/// Copies a record buffer.
fn copy_recs(src: &Vec<AggRecord>) -> (out: Vec<AggRecord>)
    ensures
        out@ == src@,
{
    let mut out: Vec<AggRecord> = Vec::new();
    let mut i: usize = 0;
    while i < src.len()
        invariant
            0 <= i <= src@.len(),
            out@ == src@.take(i as int),
        decreases src@.len() - i,
    {
        out.push(src[i]);
        i = i + 1;
        proof {
            assert(out@ =~= src@.take(i as int));
        }
    }
    proof {
        assert(src@.take(src@.len() as int) =~= src@);
    }
    out
}

/// Appends every element of `src` to `dst`.
fn append_vals<T: Copy>(dst: &mut Vec<T>, src: &Vec<T>)
    ensures
        final(dst)@ == old(dst)@ + src@,
{
    let mut i: usize = 0;
    while i < src.len()
        invariant
            0 <= i <= src@.len(),
            dst@ == old(dst)@ + src@.take(i as int),
        decreases src@.len() - i,
    {
        dst.push(src[i]);
        i = i + 1;
        proof {
            assert(old(dst)@ + src@.take(i as int) =~= (old(dst)@ + src@.take(i - 1 as int)).push(
                src@[i - 1 as int],
            ));
        }
    }
    proof {
        assert(old(dst)@ + src@.take(src@.len() as int) =~= old(dst)@ + src@);
    }
}

/// Flattens a principal buffer into its probe visits, record visits, and
/// whether an exit action is among the events.
fn drain_records(evs: &Vec<Event>) -> (out: (Vec<u64>, Vec<i64>, bool))
    ensures
        out.0@ == epids_of(evs@),
        out.1@ == records_of(evs@),
        out.2 == any_exit(evs@),
{
    let mut epids: Vec<u64> = Vec::new();
    let mut recs: Vec<i64> = Vec::new();
    let mut ex = false;
    let mut i: usize = 0;
    while i < evs.len()
        invariant
            0 <= i <= evs@.len(),
            epids@ == epids_of(evs@.take(i as int)),
            recs@ == records_of(evs@.take(i as int)),
            ex == any_exit(evs@.take(i as int)),
        decreases evs@.len() - i,
    {
        epids.push(evs[i].epid);
        append_vals(&mut recs, &evs[i].records);
        if evs[i].exits {
            ex = true;
        }
        i = i + 1;
        proof {
            assert(evs@.take(i as int) =~= evs@.take(i - 1 as int).push(evs@[i - 1 as int]));
            lemma_records_of_push(evs@.take(i - 1 as int), evs@[i - 1 as int]);
            lemma_any_exit_push(evs@.take(i - 1 as int), evs@[i - 1 as int]);
            assert(epids@ =~= epids_of(evs@.take(i as int)));
        }
    }
    proof {
        assert(evs@.take(evs@.len() as int) =~= evs@);
    }
    (epids, recs, ex)
}

impl dtrace_hdl {
    /// One blocking status round-trip: whether tracing has completed, and the
    /// dropped-record count so far.
    pub fn dtrace_status(&mut self) -> (r: Result<dtrace_status, Error>)
        requires
            old(self).wf(),
        ensures
            final(self).wf(),
            roundtrip_err(old(self).engine) matches Some(c) ==> r is Err && r->Err_0.code == c
                && final(self).engine == spec_roundtrip_fail(old(self).engine, c),
            roundtrip_err(old(self).engine) is None ==> r is Ok && r->Ok_0 == (dtrace_status {
                exited: old(self).engine.exited,
                drops: old(self).engine.drops,
            }) && final(self).engine == (Engine {
                last_status: old(self).engine.now,
                ..old(self).engine
            }),
    {
        if !matches!(self.engine.run_state, SessionState::Running) {
            self.engine.errno = EDT_NOTRUNNING;
            self.engine.fault = None;
            return Err(Error::from_code(EDT_NOTRUNNING));
        }
        match self.engine.fault {
            Some(c) => {
                self.engine.errno = c;
                self.engine.fault = None;
                Err(Error::from_code(c))
            },
            None => {
                self.engine.last_status = self.engine.now;
                Ok(dtrace_status { exited: self.engine.exited, drops: self.engine.drops })
            },
        }
    }

    /// Transfers the in-kernel aggregation buffers to the user-visible
    /// staging area, without interpreting them.
    pub fn dtrace_aggregate_snap(&mut self) -> (r: Result<(), Error>)
        requires
            old(self).wf(),
        ensures
            final(self).wf(),
            roundtrip_err(old(self).engine) matches Some(c) ==> r is Err && r->Err_0.code == c
                && final(self).engine == spec_roundtrip_fail(old(self).engine, c),
            roundtrip_err(old(self).engine) is None ==> r is Ok && final(self).engine == (Engine {
                snapshot: final(self).engine.snapshot,
                last_agg: old(self).engine.now,
                ..old(self).engine
            }) && final(self).engine.snapshot@ == old(self).engine.aggregates@,
    {
        if !matches!(self.engine.run_state, SessionState::Running) {
            self.engine.errno = EDT_NOTRUNNING;
            self.engine.fault = None;
            return Err(Error::from_code(EDT_NOTRUNNING));
        }
        match self.engine.fault {
            Some(c) => {
                self.engine.errno = c;
                self.engine.fault = None;
                Err(Error::from_code(c))
            },
            None => {
                self.engine.snapshot = copy_recs(&self.engine.aggregates);
                self.engine.last_agg = self.engine.now;
                Ok(())
            },
        }
    }

    /// Drains the principal buffer: one probe visit per event, then one
    /// record visit per record of that event, in buffer order; visits are
    /// appended to the two logs.  Formatted output is routed to the sink, or
    /// to the buffered handler, or discarded.  An exit action among the
    /// events completes tracing.  A buffer with no events makes no visits and
    /// still succeeds.
    pub fn dtrace_consume(&mut self, probe_log: &mut Vec<u64>, rec_log: &mut Vec<i64>) -> (r:
        Result<(), Error>)
        requires
            old(self).wf(),
        ensures
            final(self).wf(),
            roundtrip_err(old(self).engine) matches Some(c) ==> r is Err && r->Err_0.code == c
                && final(self).engine == spec_roundtrip_fail(old(self).engine, c)
                && final(probe_log)@ == old(probe_log)@ && final(rec_log)@ == old(rec_log)@,
            roundtrip_err(old(self).engine) is None ==> {
                let evs = old(self).engine.principal@;
                &&& r is Ok
                &&& final(probe_log)@ == old(probe_log)@ + epids_of(evs)
                &&& final(rec_log)@ == old(rec_log)@ + records_of(evs)
                &&& final(self).engine == (Engine {
                    principal: final(self).engine.principal,
                    exited: old(self).engine.exited || any_exit(evs),
                    sink_out: final(self).engine.sink_out,
                    buffered_out: final(self).engine.buffered_out,
                    last_switch: old(self).engine.now,
                    ..old(self).engine
                })
                &&& final(self).engine.principal@.len() == 0
                &&& final(self).engine.sink_out@ == routed_sink(old(self).engine, records_of(evs))
                &&& final(self).engine.buffered_out@ == routed_buffered(
                    old(self).engine,
                    records_of(evs),
                )
            },
    {
        if !matches!(self.engine.run_state, SessionState::Running) {
            self.engine.errno = EDT_NOTRUNNING;
            self.engine.fault = None;
            return Err(Error::from_code(EDT_NOTRUNNING));
        }
        match self.engine.fault {
            Some(c) => {
                self.engine.errno = c;
                self.engine.fault = None;
                return Err(Error::from_code(c));
            },
            None => {},
        }
        let (epids, recs, ex) = drain_records(&self.engine.principal);
        append_vals(probe_log, &epids);
        append_vals(rec_log, &recs);
        if self.engine.sink_attached {
            append_vals(&mut self.engine.sink_out, &recs);
        } else if self.engine.h_buffered.is_some() {
            append_vals(&mut self.engine.buffered_out, &recs);
        }
        self.engine.principal = Vec::new();
        if ex {
            self.engine.exited = true;
        }
        self.engine.last_switch = self.engine.now;
        Ok(())
    }

    /// One canonical periodic tick: a status round-trip, then, when the
    /// aggregation rate has elapsed, a snapshot, then, when the switch rate
    /// has elapsed, a principal-buffer drain; on a completed trace both are
    /// performed unconditionally.  Reports completion exactly when tracing
    /// had completed before this tick; completion is not a failure.
    pub fn dtrace_work(&mut self, probe_log: &mut Vec<u64>, rec_log: &mut Vec<i64>) -> (r: Result<
        dtrace_workstatus_t,
        Error,
    >)
        requires
            old(self).wf(),
        ensures
            final(self).wf(),
            roundtrip_err(old(self).engine) matches Some(c) ==> r is Err && r->Err_0.code == c
                && final(self).engine == spec_roundtrip_fail(old(self).engine, c)
                && final(probe_log)@ == old(probe_log)@ && final(rec_log)@ == old(rec_log)@,
            roundtrip_err(old(self).engine) is None ==> {
                let e = old(self).engine;
                let evs = e.principal@;
                let agg = work_does_agg(e);
                let sw = work_does_switch(e);
                &&& r is Ok
                &&& (r->Ok_0 == dtrace_workstatus_t::Done <==> e.exited)
                &&& final(probe_log)@ == old(probe_log)@ + (if sw {
                    epids_of(evs)
                } else {
                    Seq::<u64>::empty()
                })
                &&& final(rec_log)@ == old(rec_log)@ + (if sw {
                    records_of(evs)
                } else {
                    Seq::<i64>::empty()
                })
                &&& final(self).engine == (Engine {
                    last_status: e.now,
                    last_agg: if agg {
                        e.now
                    } else {
                        e.last_agg
                    },
                    last_switch: if sw {
                        e.now
                    } else {
                        e.last_switch
                    },
                    snapshot: final(self).engine.snapshot,
                    principal: final(self).engine.principal,
                    exited: e.exited || (sw && any_exit(evs)),
                    sink_out: final(self).engine.sink_out,
                    buffered_out: final(self).engine.buffered_out,
                    ..e
                })
                &&& final(self).engine.snapshot@ == (if agg {
                    e.aggregates@
                } else {
                    e.snapshot@
                })
                &&& final(self).engine.principal@ == (if sw {
                    Seq::<Event>::empty()
                } else {
                    evs
                })
                &&& final(self).engine.sink_out@ == (if sw {
                    routed_sink(e, records_of(evs))
                } else {
                    e.sink_out@
                })
                &&& final(self).engine.buffered_out@ == (if sw {
                    routed_buffered(e, records_of(evs))
                } else {
                    e.buffered_out@
                })
            },
    {
        if !matches!(self.engine.run_state, SessionState::Running) {
            self.engine.errno = EDT_NOTRUNNING;
            self.engine.fault = None;
            return Err(Error::from_code(EDT_NOTRUNNING));
        }
        match self.engine.fault {
            Some(c) => {
                self.engine.errno = c;
                self.engine.fault = None;
                return Err(Error::from_code(c));
            },
            None => {},
        }
        let done = self.engine.exited;
        self.engine.last_status = self.engine.now;
        let ra = self.rate_lookup("aggrate");
        if done || self.engine.now - self.engine.last_agg >= ra as u64 {
            self.engine.snapshot = copy_recs(&self.engine.aggregates);
            self.engine.last_agg = self.engine.now;
        }
        let rs = self.rate_lookup("switchrate");
        if done || self.engine.now - self.engine.last_switch >= rs as u64 {
            let (epids, recs, ex) = drain_records(&self.engine.principal);
            append_vals(probe_log, &epids);
            append_vals(rec_log, &recs);
            if self.engine.sink_attached {
                append_vals(&mut self.engine.sink_out, &recs);
            } else if self.engine.h_buffered.is_some() {
                append_vals(&mut self.engine.buffered_out, &recs);
            }
            self.engine.principal = Vec::new();
            if ex {
                self.engine.exited = true;
            }
            self.engine.last_switch = self.engine.now;
        }
        if done {
            Ok(dtrace_workstatus_t::Done)
        } else {
            Ok(dtrace_workstatus_t::Okay)
        }
    }

    /// Walks the staged aggregation snapshot under an ordering policy,
    /// handing each record to the visitor in that order; the visitor's stop
    /// signal ends the walk at once, without error.  Visited records are
    /// appended to `log`.
    pub fn dtrace_aggregate_walk(
        &self,
        log: &mut Vec<AggRecord>,
        policy: VisitPolicy,
        order: dtrace_aggwalk_order,
    ) -> (r: Result<(), Error>)
        ensures
            r is Ok,
            is_agg_plan(order, self.engine.snapshot@, agg_plan_of(order, self.engine.snapshot@)),
            final(log)@ == old(log)@ + agg_plan_of(order, self.engine.snapshot@).map_values(
                |s: Slot| s.rec,
            ).take(visit_cap(policy, self.engine.snapshot@.len()) as int),
    {
        let plan = agg_plan(order, &self.engine.snapshot);
        let cap = visit_cap_exec(policy, plan.len());
        let mut i: usize = 0;
        while i < cap
            invariant
                0 <= i <= cap,
                cap <= plan@.len(),
                log@ == old(log)@ + plan@.map_values(|s: Slot| s.rec).take(i as int),
            decreases cap - i,
        {
            let s = plan[i];
            log.push(s.rec);
            i = i + 1;
            proof {
                assert(old(log)@ + plan@.map_values(|s: Slot| s.rec).take(i as int) =~= (old(log)@
                    + plan@.map_values(|s: Slot| s.rec).take(i - 1 as int)).push(
                    plan@[i - 1 as int].rec,
                ));
            }
        }
        Ok(())
    }

    /// Formats and writes the whole staged snapshot in the engine's default
    /// sorted order, routing the output like any other consumption output.
    pub fn dtrace_aggregate_print(&mut self) -> (r: Result<(), Error>)
        requires
            old(self).wf(),
        ensures
            final(self).wf(),
            r is Ok,
            ({
                let plan = agg_plan_of(dtrace_aggwalk_order::ValSorted, old(self).engine.snapshot@);
                let vals = plan.map_values(|s: Slot| s.rec.value);
                &&& is_agg_plan(dtrace_aggwalk_order::ValSorted, old(self).engine.snapshot@, plan)
                &&& final(self).engine == (Engine {
                    sink_out: final(self).engine.sink_out,
                    buffered_out: final(self).engine.buffered_out,
                    ..old(self).engine
                })
                &&& final(self).engine.sink_out@ == routed_sink(old(self).engine, vals)
                &&& final(self).engine.buffered_out@ == routed_buffered(old(self).engine, vals)
            }),
    {
        let plan = agg_plan(dtrace_aggwalk_order::ValSorted, &self.engine.snapshot);
        let mut vals: Vec<i64> = Vec::new();
        let mut i: usize = 0;
        while i < plan.len()
            invariant
                0 <= i <= plan@.len(),
                vals@ == plan@.map_values(|s: Slot| s.rec.value).take(i as int),
            decreases plan@.len() - i,
        {
            let s = plan[i];
            vals.push(s.rec.value);
            i = i + 1;
            proof {
                assert(vals@ =~= plan@.map_values(|s: Slot| s.rec.value).take(i as int));
            }
        }
        proof {
            assert(plan@.map_values(|s: Slot| s.rec.value).take(plan@.len() as int)
                =~= plan@.map_values(|s: Slot| s.rec.value));
        }
        if self.engine.sink_attached {
            append_vals(&mut self.engine.sink_out, &vals);
        } else if self.engine.h_buffered.is_some() {
            append_vals(&mut self.engine.buffered_out, &vals);
        }
        Ok(())
    }
}

} // verus!
