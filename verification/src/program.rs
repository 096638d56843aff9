//! Program artifacts: compilation, execution, and statement iteration.
//!
//! The compiler is an engine-side service; its model here is deterministic
//! over the program text alone: each clause (brace-opened block) becomes one
//! statement descriptor, each aggregation sigil counts one aggregation, and a
//! text without a single clause is rejected with a compiler error recorded on
//! the handle.  Executing an artifact enables one probe per statement against
//! the engine's probe budget.

use vstd::prelude::*;
use crate::errors::{Error, EDT_COMPILER, EDT_NOMEM, EDT_ACTIVE, EDT_STOPPED};
use crate::engine::{Engine, SessionState};
use crate::session::{dtrace_hdl, spec_err};
use crate::visit::{VisitPolicy, visit_cap, visit_cap_exec};

verus! {

/// Permit probe definitions that do not match existing probes.
pub const DTRACE_C_ZDEFS: u32 = 0x01;

/// Emit intermediate-representation diagnostics.
pub const DTRACE_C_DIFV: u32 = 0x02;

/// Run the text preprocessor before compiling.
pub const DTRACE_C_CPP: u32 = 0x04;

/// The probe-clause context a program is compiled against.
#[allow(non_camel_case_types)]
#[derive(Clone, Copy, PartialEq, Eq, Structural, Debug)]
pub enum dtrace_probespec {
    NoContext,
    Provider,
    Module,
    Function,
    Name,
}

/// An externally owned source, handed to the file-reading compile entry; the
/// model carries the text such a resource holds.
pub struct SourceHandle {
    pub text: String,
}

/// A compiled program: one statement descriptor per clause, in declaration
/// order, plus what the compiler was invoked with.
#[allow(non_camel_case_types)]
pub struct dtrace_prog {
    pub stmts: Vec<u64>,
    pub naggs: u64,
    pub nargs: usize,
    pub probespec: dtrace_probespec,
    pub cflags: u32,
}

/// Probe and aggregation counts of an executed program.
#[allow(non_camel_case_types)]
#[derive(Clone, Copy, PartialEq, Eq, Structural, Debug)]
pub struct dtrace_proginfo {
    pub matched_probes: u64,
    pub agg_count: u64,
}

/// How often `c` occurs in `s`.
pub open spec fn count_char(s: Seq<char>, c: char) -> nat
    decreases s.len(),
{
    if s.len() == 0 {
        0
    } else {
        count_char(s.drop_last(), c) + (if s.last() == c {
            1nat
        } else {
            0nat
        })
    }
}

/// Statements of a program text: one per opening brace.
pub open spec fn clause_count(src: Seq<char>) -> nat {
    count_char(src, '{')
}

/// Aggregations of a program text: one per aggregation sigil.
pub open spec fn agg_count(src: Seq<char>) -> nat {
    count_char(src, '@')
}

/// The compiler accepts exactly the texts with at least one clause.
pub open spec fn compile_accepted(src: Seq<char>) -> bool {
    clause_count(src) >= 1
}

/// Statement descriptors in declaration order.
pub open spec fn stmt_ids(n: nat) -> Seq<u64> {
    Seq::new(n, |i: int| i as u64)
}

/// The message a rejected compilation records on the handle.
pub open spec fn compiler_reject_msg() -> Seq<char> {
    "no probe clauses in program text"@
}

/// How many arguments an optional argument list passes through.
pub open spec fn arg_count(args: Option<Vec<String>>) -> int {
    match args {
        Option::Some(a) => a@.len() as int,
        Option::None => 0,
    }
}

/// Counts occurrences of `c` in `s`.
pub fn count_char_in(s: &str, c: char) -> (r: usize)
    ensures
        r == count_char(s@, c),
{
    let n = s.unicode_len();
    let mut cnt: usize = 0;
    let mut i: usize = 0;
    while i < n
        invariant
            0 <= i <= n,
            n == s@.len(),
            cnt == count_char(s@.take(i as int), c),
            cnt <= i,
        decreases n - i,
    {
        proof {
            assert(s@.take(i + 1 as int).drop_last() =~= s@.take(i as int));
            assert(s@.take(i + 1 as int).last() == s@[i as int]);
        }
        if s.get_char(i) == c {
            cnt = cnt + 1;
        }
        i = i + 1;
    }
    proof {
        assert(s@.take(n as int) =~= s@);
    }
    cnt
}

/// `r->Ok_0` is the artifact the model compiler produces for `src`.
pub open spec fn compiles_to(
    r: Result<dtrace_prog, Error>,
    src: Seq<char>,
    probespec: dtrace_probespec,
    flags: u32,
    args: Option<Vec<String>>,
) -> bool {
    &&& r is Ok
    &&& r->Ok_0.stmts@ == stmt_ids(clause_count(src))
    &&& r->Ok_0.naggs == agg_count(src)
    &&& r->Ok_0.nargs == arg_count(args)
    &&& r->Ok_0.probespec == probespec
    &&& r->Ok_0.cflags == flags
}

impl dtrace_hdl {
    /// Compiles a program from text against a probe-context specification,
    /// compiler flags and optional macro-substitution arguments.  Succeeds
    /// exactly when the text holds a clause; a rejection records the compiler
    /// message on the handle.
    pub fn dtrace_program_strcompile(
        &mut self,
        program: &str,
        probespec: dtrace_probespec,
        flags: u32,
        args: Option<Vec<String>>,
    ) -> (r: Result<dtrace_prog, Error>)
        requires
            old(self).wf(),
        ensures
            final(self).wf(),
            r is Ok <==> compile_accepted(program@),
            r is Ok ==> compiles_to(r, program@, probespec, flags, args)
                && *final(self) == *old(self),
            r is Err ==> r->Err_0.code == EDT_COMPILER && final(self).engine == (Engine {
                errno: EDT_COMPILER,
                compiler_msg: final(self).engine.compiler_msg,
                ..old(self).engine
            }) && final(self).engine.compiler_msg is Some
                && final(self).engine.compiler_msg.unwrap()@ == compiler_reject_msg(),
    {
        let n_clauses = count_char_in(program, '{');
        if n_clauses == 0 {
            self.engine.errno = EDT_COMPILER;
            self.engine.compiler_msg = Some(
                String::from_str("no probe clauses in program text"),
            );
            return Err(Error::from_code(EDT_COMPILER));
        }
        let n_aggs = count_char_in(program, '@');
        let mut stmts: Vec<u64> = Vec::new();
        let mut i: usize = 0;
        while i < n_clauses
            invariant
                0 <= i <= n_clauses,
                stmts@ == stmt_ids(i as nat),
            decreases n_clauses - i,
        {
            stmts.push(i as u64);
            i = i + 1;
            proof {
                assert(stmts@ =~= stmt_ids(i as nat));
            }
        }
        let nargs = match &args {
            Some(a) => a.len(),
            None => 0,
        };
        Ok(dtrace_prog { stmts, naggs: n_aggs as u64, nargs, probespec, cflags: flags })
    }

    /// Compiles from an externally owned source resource; with no resource,
    /// the implicit default source is compiled.
    pub fn dtrace_program_fcompile(
        &mut self,
        file: Option<&SourceHandle>,
        flags: u32,
        args: Option<Vec<String>>,
    ) -> (r: Result<dtrace_prog, Error>)
        requires
            old(self).wf(),
        ensures
            final(self).wf(),
            ({
                let src = match file {
                    Option::Some(f) => f.text@,
                    Option::None => "dtrace:::BEGIN { }"@,
                };
                &&& r is Ok <==> compile_accepted(src)
                &&& r is Ok ==> compiles_to(r, src, dtrace_probespec::NoContext, flags, args)
                    && *final(self) == *old(self)
                &&& r is Err ==> r->Err_0.code == EDT_COMPILER && final(self).engine == (Engine {
                    errno: EDT_COMPILER,
                    compiler_msg: final(self).engine.compiler_msg,
                    ..old(self).engine
                }) && final(self).engine.compiler_msg is Some
                    && final(self).engine.compiler_msg.unwrap()@ == compiler_reject_msg()
            }),
    {
        match file {
            Some(f) => self.dtrace_program_strcompile(
                f.text.as_str(),
                dtrace_probespec::NoContext,
                flags,
                args,
            ),
            None => self.dtrace_program_strcompile(
                "dtrace:::BEGIN { }",
                dtrace_probespec::NoContext,
                flags,
                args,
            ),
        }
    }

    /// Generates the executable object and downloads it into the engine,
    /// enabling one probe per statement.  Fails when the session has already
    /// been started, or when the probe budget would be exceeded; on success
    /// the returned record reports the program's probe and aggregation
    /// counts.
    pub fn dtrace_program_exec(&mut self, program: &mut dtrace_prog) -> (r: Result<
        dtrace_proginfo,
        Error,
    >)
        requires
            old(self).wf(),
        ensures
            final(self).wf(),
            *final(program) == *old(program),
            old(self).engine.run_state == SessionState::Running ==> r is Err
                && r->Err_0.code == EDT_ACTIVE && final(self).engine == spec_err(
                old(self).engine,
                EDT_ACTIVE,
            ),
            old(self).engine.run_state == SessionState::Stopped ==> r is Err
                && r->Err_0.code == EDT_STOPPED && final(self).engine == spec_err(
                old(self).engine,
                EDT_STOPPED,
            ),
            old(self).engine.run_state == SessionState::Opened ==> {
                let fits = old(self).engine.enabled_probes + old(program).stmts@.len() <= old(
                    self,
                ).engine.probe_limit;
                &&& r is Ok <==> fits
                &&& fits ==> final(self).engine == (Engine {
                    enabled_probes: (old(self).engine.enabled_probes
                        + old(program).stmts@.len()) as u64,
                    ..old(self).engine
                }) && r->Ok_0 == (dtrace_proginfo {
                    matched_probes: old(program).stmts@.len() as u64,
                    agg_count: old(program).naggs,
                })
                &&& !fits ==> r->Err_0.code == EDT_NOMEM && final(self).engine == spec_err(
                    old(self).engine,
                    EDT_NOMEM,
                )
            },
    {
        match self.engine.run_state {
            SessionState::Running => {
                self.engine.errno = EDT_ACTIVE;
                Err(Error::from_code(EDT_ACTIVE))
            },
            SessionState::Stopped => {
                self.engine.errno = EDT_STOPPED;
                Err(Error::from_code(EDT_STOPPED))
            },
            SessionState::Opened => {
                let n = program.stmts.len() as u64;
                if n > self.engine.probe_limit - self.engine.enabled_probes {
                    self.engine.errno = EDT_NOMEM;
                    Err(Error::from_code(EDT_NOMEM))
                } else {
                    self.engine.enabled_probes = self.engine.enabled_probes + n;
                    Ok(
                        dtrace_proginfo {
                            matched_probes: n,
                            agg_count: program.naggs,
                        },
                    )
                }
            },
        }
    }

    /// Invokes the visitor once per statement descriptor, in declaration
    /// order; a stop signal from the visitor ends the iteration at once and
    /// is not an error.  Visited descriptors are appended to `log`.
    pub fn dtrace_stmt_iter(
        &self,
        program: &dtrace_prog,
        log: &mut Vec<u64>,
        policy: VisitPolicy,
    ) -> (r: Result<(), Error>)
        ensures
            r is Ok,
            final(log)@ == old(log)@ + program.stmts@.take(
                visit_cap(policy, program.stmts@.len()) as int,
            ),
    {
        let cap = visit_cap_exec(policy, program.stmts.len());
        let mut i: usize = 0;
        while i < cap
            invariant
                0 <= i <= cap,
                cap <= program.stmts@.len(),
                log@ == old(log)@ + program.stmts@.take(i as int),
            decreases cap - i,
        {
            log.push(program.stmts[i]);
            i = i + 1;
            proof {
                assert(old(log)@ + program.stmts@.take(i as int) =~= (old(log)@
                    + program.stmts@.take(i - 1 as int)).push(program.stmts@[i - 1 as int]));
            }
        }
        Ok(())
    }
}

} // verus!
