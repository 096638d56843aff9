use dtrace_consumer::session::{dtrace_hdl, dtrace_handler};
use dtrace_consumer::engine::DTRACE_VERSION;
use dtrace_consumer::errors::{ErrorKind, EDT_NOTRUNNING, EDT_DROPPED};
use dtrace_consumer::program::{dtrace_probespec, SourceHandle};
use dtrace_consumer::aggregate::{AggRecord, dtrace_aggwalk_order};
use dtrace_consumer::visit::VisitPolicy;
use dtrace_consumer::consume::dtrace_workstatus_t;

fn open() -> dtrace_hdl {
    dtrace_hdl::dtrace_open(DTRACE_VERSION, 0).unwrap()
}

fn rec(varid: u64, key: i64, value: i64) -> AggRecord {
    AggRecord { varid, key, value }
}

#[test]
fn compile_counts_clauses_and_aggregations() {
    let mut h = open();
    let prog = h
        .dtrace_program_strcompile(
            "pa { act1 } pb { act2 } pc { @counts = count(); }",
            dtrace_probespec::NoContext,
            0,
            Some(vec![String::from("argone")]),
        )
        .unwrap();
    assert_eq!(prog.stmts, vec![0, 1, 2]);
    assert_eq!(prog.naggs, 1);
    assert_eq!(prog.nargs, 1);
}

#[test]
fn fcompile_reads_the_source_handle_or_the_default() {
    let mut h = open();
    let src = SourceHandle { text: String::from("one { } two { }") };
    let prog = h.dtrace_program_fcompile(Some(&src), 0, None).unwrap();
    assert_eq!(prog.stmts.len(), 2);
    let dflt = h.dtrace_program_fcompile(None, 0, None).unwrap();
    assert_eq!(dflt.stmts.len(), 1);
}

#[test]
fn exec_populates_proginfo() {
    let mut h = open();
    let mut prog = h
        .dtrace_program_strcompile(
            "pa { } pb { @a = sum(1); @b = max(2); }",
            dtrace_probespec::NoContext,
            0,
            None,
        )
        .unwrap();
    let info = h.dtrace_program_exec(&mut prog).unwrap();
    assert_eq!(info.matched_probes, 2);
    assert_eq!(info.agg_count, 2);
}

#[test]
fn exec_respects_the_probe_budget() {
    let mut h = open();
    h.set_probe_limit(2);
    let mut prog = h
        .dtrace_program_strcompile("a { } b { } c { }", dtrace_probespec::NoContext, 0, None)
        .unwrap();
    let e = h.dtrace_program_exec(&mut prog).err().unwrap();
    assert_eq!(e.kind(), ErrorKind::ExecFailure);
}

#[test]
fn exec_after_go_is_a_lifecycle_error() {
    let mut h = open();
    let mut prog = h
        .dtrace_program_strcompile("a { }", dtrace_probespec::NoContext, 0, None)
        .unwrap();
    h.dtrace_go().unwrap();
    let e = h.dtrace_program_exec(&mut prog).err().unwrap();
    assert_eq!(e.kind(), ErrorKind::LifecycleFailure);
}

#[test]
fn stmt_iter_visits_in_declared_order_and_stops_on_signal() {
    let mut h = open();
    let prog = h
        .dtrace_program_strcompile("a { } b { } c { }", dtrace_probespec::NoContext, 0, None)
        .unwrap();
    let mut log: Vec<u64> = Vec::new();
    h.dtrace_stmt_iter(&prog, &mut log, VisitPolicy::All).unwrap();
    assert_eq!(log, vec![0, 1, 2]);

    let mut log2: Vec<u64> = Vec::new();
    h.dtrace_stmt_iter(&prog, &mut log2, VisitPolicy::StopAfter(2)).unwrap();
    assert_eq!(log2, vec![0, 1]);

    let mut log3: Vec<u64> = Vec::new();
    h.dtrace_stmt_iter(&prog, &mut log3, VisitPolicy::StopAfter(1)).unwrap();
    assert_eq!(log3, vec![0]);
}

#[test]
fn consume_with_no_events_makes_no_visits_and_succeeds() {
    let mut h = open();
    h.dtrace_go().unwrap();
    let mut probes: Vec<u64> = Vec::new();
    let mut recs: Vec<i64> = Vec::new();
    h.dtrace_consume(&mut probes, &mut recs).unwrap();
    assert!(probes.is_empty());
    assert!(recs.is_empty());
}

#[test]
fn consume_before_go_is_a_lifecycle_error() {
    let mut h = open();
    let mut probes: Vec<u64> = Vec::new();
    let mut recs: Vec<i64> = Vec::new();
    let e = h.dtrace_consume(&mut probes, &mut recs).err().unwrap();
    assert_eq!(e.code, EDT_NOTRUNNING);
    assert_eq!(e.kind(), ErrorKind::LifecycleFailure);
}

#[test]
fn consume_visits_probes_then_records_in_buffer_order() {
    let mut h = open();
    h.seed_event(7, vec![1, 2], false);
    h.seed_event(9, vec![3], false);
    h.dtrace_go().unwrap();
    let mut probes: Vec<u64> = Vec::new();
    let mut recs: Vec<i64> = Vec::new();
    h.dtrace_consume(&mut probes, &mut recs).unwrap();
    assert_eq!(probes, vec![7, 9]);
    assert_eq!(recs, vec![1, 2, 3]);
    // the buffer was drained: a second consume delivers nothing new
    h.dtrace_consume(&mut probes, &mut recs).unwrap();
    assert_eq!(probes, vec![7, 9]);
    assert_eq!(recs, vec![1, 2, 3]);
}

#[test]
fn consume_routes_output_to_buffered_handler_or_sink() {
    let mut h = open();
    h.dtrace_go().unwrap();
    let mut probes: Vec<u64> = Vec::new();
    let mut recs: Vec<i64> = Vec::new();

    // no sink, no buffered handler: output is discarded
    h.seed_event(1, vec![10], false);
    h.dtrace_consume(&mut probes, &mut recs).unwrap();
    assert!(h.buffered_data().is_empty());
    assert!(h.sink_data().is_empty());

    // a registered buffered handler receives the output
    h.dtrace_register_handler(dtrace_handler::Buffered(1)).unwrap();
    h.seed_event(2, vec![20, 21], false);
    h.dtrace_consume(&mut probes, &mut recs).unwrap();
    assert_eq!(h.buffered_data(), &vec![20, 21]);

    // an attached sink wins over the buffered handler
    h.attach_sink();
    h.seed_event(3, vec![30], false);
    h.dtrace_consume(&mut probes, &mut recs).unwrap();
    assert_eq!(h.sink_data(), &vec![30]);
    assert_eq!(h.buffered_data(), &vec![20, 21]);
}

#[test]
fn status_reports_completion_and_drops() {
    let mut h = open();
    h.seed_drops(4);
    h.dtrace_go().unwrap();
    let s = h.dtrace_status().unwrap();
    assert!(!s.exited);
    assert_eq!(s.drops, 4);
}

#[test]
fn injected_fault_fails_one_round_trip_then_clears() {
    let mut h = open();
    h.dtrace_go().unwrap();
    h.inject_fault(EDT_DROPPED);
    let e = h.dtrace_status().err().unwrap();
    assert_eq!(e.code, EDT_DROPPED);
    assert_eq!(e.kind(), ErrorKind::ConsumptionFailure);
    assert_eq!(h.dtrace_errno(), EDT_DROPPED);
    assert!(h.dtrace_status().is_ok());
}

#[test]
fn work_returns_done_exactly_once_tracing_completed() {
    let mut h = open();
    h.dtrace_setopt("switchrate", "0").unwrap();
    h.dtrace_setopt("aggrate", "0").unwrap();
    h.seed_event(1, vec![5], false);
    h.dtrace_go().unwrap();
    let mut probes: Vec<u64> = Vec::new();
    let mut recs: Vec<i64> = Vec::new();
    // nothing has completed tracing yet: every tick reports more work
    assert_eq!(h.dtrace_work(&mut probes, &mut recs).unwrap(), dtrace_workstatus_t::Okay);
    assert_eq!(h.dtrace_work(&mut probes, &mut recs).unwrap(), dtrace_workstatus_t::Okay);
    // an exit action fires; the tick that consumes it still reports Okay,
    // the next one reports Done
    h.seed_event(2, vec![], true);
    assert_eq!(h.dtrace_work(&mut probes, &mut recs).unwrap(), dtrace_workstatus_t::Okay);
    assert_eq!(h.dtrace_work(&mut probes, &mut recs).unwrap(), dtrace_workstatus_t::Done);
    assert_eq!(probes, vec![1, 2]);
    assert_eq!(recs, vec![5]);
}

#[test]
fn work_respects_the_configured_rates() {
    let mut h = open();
    h.seed_event(1, vec![5], false);
    h.dtrace_go().unwrap();
    let mut probes: Vec<u64> = Vec::new();
    let mut recs: Vec<i64> = Vec::new();
    // default rates have not elapsed at the logical instant of go
    h.dtrace_work(&mut probes, &mut recs).unwrap();
    assert!(probes.is_empty());
    h.advance_time(1000);
    h.dtrace_work(&mut probes, &mut recs).unwrap();
    assert_eq!(probes, vec![1]);
    assert_eq!(recs, vec![5]);
}

#[test]
fn aggregate_walk_sees_only_snapshotted_data() {
    let mut h = open();
    h.seed_aggregation(rec(1, 1, 10));
    h.dtrace_go().unwrap();
    let mut log: Vec<AggRecord> = Vec::new();
    h.dtrace_aggregate_walk(&mut log, VisitPolicy::All, dtrace_aggwalk_order::Unordered).unwrap();
    assert!(log.is_empty());
    h.dtrace_aggregate_snap().unwrap();
    h.dtrace_aggregate_walk(&mut log, VisitPolicy::All, dtrace_aggwalk_order::Unordered).unwrap();
    assert_eq!(log.len(), 1);
}

#[test]
fn aggregate_walk_orders_keys() {
    let mut h = open();
    h.seed_aggregation(rec(1, 3, 30));
    h.seed_aggregation(rec(1, 1, 10));
    h.seed_aggregation(rec(1, 2, 20));
    h.dtrace_go().unwrap();
    h.dtrace_aggregate_snap().unwrap();

    let mut asc: Vec<AggRecord> = Vec::new();
    h.dtrace_aggregate_walk(&mut asc, VisitPolicy::All, dtrace_aggwalk_order::KeySorted).unwrap();
    assert_eq!(asc.iter().map(|r| r.key).collect::<Vec<i64>>(), vec![1, 2, 3]);

    let mut desc: Vec<AggRecord> = Vec::new();
    h.dtrace_aggregate_walk(&mut desc, VisitPolicy::All, dtrace_aggwalk_order::KeyRevSorted)
        .unwrap();
    assert_eq!(desc.iter().map(|r| r.key).collect::<Vec<i64>>(), vec![3, 2, 1]);

    // unordered visits each record exactly once, in snapshot order
    let mut un: Vec<AggRecord> = Vec::new();
    h.dtrace_aggregate_walk(&mut un, VisitPolicy::All, dtrace_aggwalk_order::Unordered).unwrap();
    assert_eq!(un.iter().map(|r| r.key).collect::<Vec<i64>>(), vec![3, 1, 2]);
}

#[test]
fn aggregate_walk_orders_values_and_variables() {
    let mut h = open();
    h.seed_aggregation(rec(2, 1, 50));
    h.seed_aggregation(rec(1, 2, 70));
    h.seed_aggregation(rec(1, 3, 60));
    h.dtrace_go().unwrap();
    h.dtrace_aggregate_snap().unwrap();

    let mut byval: Vec<AggRecord> = Vec::new();
    h.dtrace_aggregate_walk(&mut byval, VisitPolicy::All, dtrace_aggwalk_order::ValSorted)
        .unwrap();
    assert_eq!(byval.iter().map(|r| r.value).collect::<Vec<i64>>(), vec![50, 60, 70]);

    let mut byvar: Vec<AggRecord> = Vec::new();
    h.dtrace_aggregate_walk(&mut byvar, VisitPolicy::All, dtrace_aggwalk_order::KeyVarSorted)
        .unwrap();
    assert_eq!(
        byvar.iter().map(|r| (r.varid, r.key)).collect::<Vec<(u64, i64)>>(),
        vec![(1, 2), (1, 3), (2, 1)]
    );

    let mut byvarval: Vec<AggRecord> = Vec::new();
    h.dtrace_aggregate_walk(&mut byvarval, VisitPolicy::All, dtrace_aggwalk_order::ValVarRevSorted)
        .unwrap();
    assert_eq!(
        byvarval.iter().map(|r| (r.varid, r.value)).collect::<Vec<(u64, i64)>>(),
        vec![(2, 50), (1, 70), (1, 60)]
    );
}

#[test]
fn aggregate_walk_ties_keep_insertion_order() {
    let mut h = open();
    h.seed_aggregation(rec(1, 9, 5));
    h.seed_aggregation(rec(1, 4, 5));
    h.seed_aggregation(rec(1, 6, 5));
    h.dtrace_go().unwrap();
    h.dtrace_aggregate_snap().unwrap();
    let mut log: Vec<AggRecord> = Vec::new();
    h.dtrace_aggregate_walk(&mut log, VisitPolicy::All, dtrace_aggwalk_order::ValSorted).unwrap();
    assert_eq!(log.iter().map(|r| r.key).collect::<Vec<i64>>(), vec![9, 4, 6]);
}

#[test]
fn aggregate_walk_honors_early_stop() {
    let mut h = open();
    h.seed_aggregation(rec(1, 3, 30));
    h.seed_aggregation(rec(1, 1, 10));
    h.seed_aggregation(rec(1, 2, 20));
    h.dtrace_go().unwrap();
    h.dtrace_aggregate_snap().unwrap();
    let mut log: Vec<AggRecord> = Vec::new();
    h.dtrace_aggregate_walk(&mut log, VisitPolicy::StopAfter(2), dtrace_aggwalk_order::KeySorted)
        .unwrap();
    assert_eq!(log.iter().map(|r| r.key).collect::<Vec<i64>>(), vec![1, 2]);
}

#[test]
fn aggregate_print_writes_default_sorted_values() {
    let mut h = open();
    h.seed_aggregation(rec(1, 1, 30));
    h.seed_aggregation(rec(1, 2, 10));
    h.dtrace_go().unwrap();
    h.dtrace_aggregate_snap().unwrap();
    h.dtrace_register_handler(dtrace_handler::Buffered(1)).unwrap();
    h.dtrace_aggregate_print().unwrap();
    assert_eq!(h.buffered_data(), &vec![10, 30]);
}

#[test]
fn snap_restages_current_aggregates() {
    let mut h = open();
    h.seed_aggregation(rec(1, 1, 10));
    h.dtrace_go().unwrap();
    h.dtrace_aggregate_snap().unwrap();
    h.seed_aggregation(rec(1, 2, 20));
    let mut log: Vec<AggRecord> = Vec::new();
    h.dtrace_aggregate_walk(&mut log, VisitPolicy::All, dtrace_aggwalk_order::Unordered).unwrap();
    assert_eq!(log.len(), 1);
    h.dtrace_aggregate_snap().unwrap();
    let mut log2: Vec<AggRecord> = Vec::new();
    h.dtrace_aggregate_walk(&mut log2, VisitPolicy::All, dtrace_aggwalk_order::Unordered).unwrap();
    assert_eq!(log2.len(), 2);
}

#[test]
fn visitor_that_stops_from_the_outset_still_sees_one_item() {
    let mut h = open();
    let prog = h
        .dtrace_program_strcompile("a { } b { }", dtrace_probespec::NoContext, 0, None)
        .unwrap();
    let mut log: Vec<u64> = Vec::new();
    h.dtrace_stmt_iter(&prog, &mut log, VisitPolicy::StopAfter(0)).unwrap();
    assert_eq!(log, vec![0]);
}

#[test]
fn default_sorted_order_matches_value_sorted() {
    let mut h = open();
    h.seed_aggregation(rec(1, 1, 30));
    h.seed_aggregation(rec(1, 2, 10));
    h.seed_aggregation(rec(1, 3, 20));
    h.dtrace_go().unwrap();
    h.dtrace_aggregate_snap().unwrap();
    let mut a: Vec<AggRecord> = Vec::new();
    h.dtrace_aggregate_walk(&mut a, VisitPolicy::All, dtrace_aggwalk_order::Sorted).unwrap();
    let mut b: Vec<AggRecord> = Vec::new();
    h.dtrace_aggregate_walk(&mut b, VisitPolicy::All, dtrace_aggwalk_order::ValSorted).unwrap();
    assert_eq!(a, b);
    assert_eq!(a.iter().map(|r| r.value).collect::<Vec<i64>>(), vec![10, 20, 30]);
}

#[test]
fn work_on_a_stopped_session_is_a_lifecycle_error() {
    let mut h = open();
    h.dtrace_go().unwrap();
    h.dtrace_stop().unwrap();
    let mut probes: Vec<u64> = Vec::new();
    let mut recs: Vec<i64> = Vec::new();
    let e = h.dtrace_work(&mut probes, &mut recs).err().unwrap();
    assert_eq!(e.code, EDT_NOTRUNNING);
    assert_eq!(e.message(), "tracing is not running");
}
