//! The supervisor: the state machine governing one supervised process
//! instance.
//!
//! The caller spawns the child, then feeds the merged event stream into
//! `handle_event`, one event at a time.  Standard-output lines run
//! through the readiness parser; the first match publishes the port
//! into the shared cell and yields the one navigation directive.  Later
//! readiness lines change nothing.  Standard-error lines are diagnostic
//! only and are never parsed.  A termination or process error ends the
//! supervision; a spawn failure never starts it.

use vstd::prelude::*;

use crate::cell::PortCell;
use crate::notifier::{loopback_url, NavDirective, UiNotifier, DEFAULT_SETTLE_MILLIS};
use crate::parser::{parse_readiness_line, readiness_port};

verus! {

/// How the supervised process ended, as its lifecycle channel reports
/// it: an exit code, a signal, or neither when the platform gives none.
#[derive(Clone, Copy, Debug)]
pub struct ExitStatus {
    pub code: Option<i32>,
    pub signal: Option<i32>,
}

/// One event of the child's merged output and lifecycle stream.  Lines
/// arrive as raw bytes, exactly as the child wrote them.
#[derive(Debug)]
pub enum ChildEvent {
    /// A line of the child's standard output.
    StdoutLine(Vec<u8>),
    /// A line of the child's standard error.
    StderrLine(Vec<u8>),
    /// The stream reported a process error; supervision ends.
    ProcessError(String),
    /// The child terminated; supervision ends.
    Terminated(ExitStatus),
}

/// The states of one supervised process instance.
#[derive(Clone, Copy, Debug)]
pub enum SupervisorState {
    /// Created, child not spawned yet.
    Starting,
    /// Child running; `port` holds the discovered port once known.
    Running { port: Option<u16> },
    /// Child gone (exit or process error); `port` keeps what was known.
    Terminated { port: Option<u16> },
    /// The child could not be spawned; supervision never started.
    SpawnFailed,
}

/// What one step of the supervisor changes and produces, as a value:
/// the next state, the notifier's guard flag, the cell's content, the
/// port announced by this step if any, and whether supervision is over.
pub struct StepModel {
    pub state: SupervisorState,
    pub fired: bool,
    pub cell: Option<u16>,
    pub notified: Option<u16>,
    pub done: bool,
}

/// What a whole run over an event sequence leaves behind: the final
/// state, guard flag and cell content, and every port that was handed
/// to the UI notifier, in order.
pub struct RunModel {
    pub state: SupervisorState,
    pub fired: bool,
    pub cell: Option<u16>,
    pub notified: Seq<u16>,
}

/// What the caller must act on after one event: the navigation
/// directive, if this event produced the one readiness match, and
/// whether the supervision loop is over.
pub struct StepOutcome {
    pub directive: Option<NavDirective>,
    pub done: bool,
}

/// The port a supervisor state knows, if any.
pub open spec fn state_port(st: SupervisorState) -> Option<u16> {
    match st {
        SupervisorState::Starting => None,
        SupervisorState::Running { port } => port,
        SupervisorState::Terminated { port } => port,
        SupervisorState::SpawnFailed => None,
    }
}

/// One step of the supervision state machine over one event.
pub open spec fn step_spec(
    st: SupervisorState,
    fired: bool,
    cell: Option<u16>,
    ev: ChildEvent,
) -> StepModel {
    match ev {
        ChildEvent::StdoutLine(l) => {
            if st == (SupervisorState::Running { port: None::<u16> })
                && readiness_port(l@) is Some {
                let p = readiness_port(l@)->0;
                StepModel {
                    state: SupervisorState::Running { port: Some(p) },
                    fired: true,
                    cell: PortCell::write_result(cell, p),
                    notified: if fired {
                        None
                    } else {
                        Some(p)
                    },
                    done: false,
                }
            } else {
                StepModel { state: st, fired, cell, notified: None, done: false }
            }
        },
        ChildEvent::StderrLine(_) => StepModel {
            state: st,
            fired,
            cell,
            notified: None,
            done: false,
        },
        ChildEvent::ProcessError(_) => StepModel {
            state: SupervisorState::Terminated { port: state_port(st) },
            fired,
            cell,
            notified: None,
            done: true,
        },
        ChildEvent::Terminated(_) => StepModel {
            state: SupervisorState::Terminated { port: state_port(st) },
            fired,
            cell,
            notified: None,
            done: true,
        },
    }
}

/// A whole run: steps through the events in order, stopping as soon as
/// the state leaves `Running`, as the supervision loop does.
pub open spec fn run_spec(
    st: SupervisorState,
    fired: bool,
    cell: Option<u16>,
    events: Seq<ChildEvent>,
) -> RunModel
    decreases events.len(),
{
    if events.len() == 0 || !(st is Running) {
        RunModel { state: st, fired, cell, notified: Seq::empty() }
    } else {
        let m = step_spec(st, fired, cell, events[0]);
        let rest = run_spec(m.state, m.fired, m.cell, events.drop_first());
        RunModel {
            state: rest.state,
            fired: rest.fired,
            cell: rest.cell,
            notified: (match m.notified {
                Some(p) => seq![p] + rest.notified,
                None => rest.notified,
            }),
        }
    }
}

/// A run model with more notified ports put in front: what a run looks
/// like from a point where some directives already went out.
pub open spec fn prepend_notified(ports: Seq<u16>, r: RunModel) -> RunModel {
    RunModel { state: r.state, fired: r.fired, cell: r.cell, notified: ports + r.notified }
}

/// The UI notifier fires at most once per run, and not at all once the
/// guard flag is set — however many readiness lines the events hold.
pub proof fn lemma_notifies_at_most_once(
    st: SupervisorState,
    fired: bool,
    cell: Option<u16>,
    events: Seq<ChildEvent>,
)
    ensures
        run_spec(st, fired, cell, events).notified.len() <= 1,
        fired ==> run_spec(st, fired, cell, events).notified.len() == 0,
    decreases events.len(),
{
    if events.len() > 0 && st is Running {
        let m = step_spec(st, fired, cell, events[0]);
        lemma_notifies_at_most_once(m.state, m.fired, m.cell, events.drop_first());
    }
}

/// The cell never loses or changes a value during a run: once it holds
/// `p`, it holds `p` at the end of any event sequence.
pub proof fn lemma_run_keeps_written_port(
    st: SupervisorState,
    fired: bool,
    cell: Option<u16>,
    events: Seq<ChildEvent>,
    p: u16,
)
    requires
        cell == Some(p),
    ensures
        run_spec(st, fired, cell, events).cell == Some(p),
    decreases events.len(),
{
    if events.len() > 0 && st is Running {
        let m = step_spec(st, fired, cell, events[0]);
        lemma_run_keeps_written_port(m.state, m.fired, m.cell, events.drop_first(), p);
    }
}

/// A port once discovered stays discovered: with the notifier's guard
/// set, the state keeps its port through any further events and no
/// further directive goes out.
pub proof fn lemma_known_port_stays(
    st: SupervisorState,
    fired: bool,
    cell: Option<u16>,
    events: Seq<ChildEvent>,
    p: u16,
)
    requires
        state_port(st) == Some(p),
        fired,
    ensures
        state_port(run_spec(st, fired, cell, events).state) == Some(p),
        run_spec(st, fired, cell, events).notified.len() == 0,
    decreases events.len(),
{
    if events.len() > 0 && st is Running {
        let m = step_spec(st, fired, cell, events[0]);
        lemma_known_port_stays(m.state, m.fired, m.cell, events.drop_first(), p);
    }
}

/// The directive goes to the discovered port: when a fresh supervision
/// run hands one port to the notifier, that same port is what the cell
/// and the state hold from then on.
pub proof fn lemma_notified_port_is_discovered_port(
    st: SupervisorState,
    fired: bool,
    cell: Option<u16>,
    events: Seq<ChildEvent>,
)
    requires
        st == (SupervisorState::Running { port: None::<u16> }),
        !fired,
        cell is None,
    ensures
        ({
            let r = run_spec(st, fired, cell, events);
            r.notified.len() == 1 ==> r.cell == Some(r.notified[0]) && state_port(r.state)
                == Some(r.notified[0])
        }),
    decreases events.len(),
{
    if events.len() > 0 {
        let m = step_spec(st, fired, cell, events[0]);
        let rest = run_spec(m.state, m.fired, m.cell, events.drop_first());
        match m.notified {
            Some(p) => {
                lemma_known_port_stays(m.state, m.fired, m.cell, events.drop_first(), p);
                lemma_run_keeps_written_port(m.state, m.fired, m.cell, events.drop_first(), p);
            },
            None => {
                if m.state is Running {
                    lemma_notified_port_is_discovered_port(
                        m.state,
                        m.fired,
                        m.cell,
                        events.drop_first(),
                    );
                }
            },
        }
    }
}

/// Whether an event is a standard-output line that announces readiness.
pub open spec fn is_readiness_event(ev: ChildEvent) -> bool {
    ev matches ChildEvent::StdoutLine(l) && readiness_port(l@) is Some
}

/// Without a readiness announcement nothing happens: over events none
/// of which is a readiness line on standard output, an empty cell stays
/// empty, no directive goes out, and the state's port stays unknown —
/// however the run ends.
pub proof fn lemma_no_readiness_no_port(
    st: SupervisorState,
    fired: bool,
    cell: Option<u16>,
    events: Seq<ChildEvent>,
)
    requires
        forall|k: int| 0 <= k < events.len() ==> !is_readiness_event(events[k]),
        cell is None,
        state_port(st) is None,
    ensures
        run_spec(st, fired, cell, events).cell is None,
        run_spec(st, fired, cell, events).notified.len() == 0,
        state_port(run_spec(st, fired, cell, events).state) is None,
        run_spec(st, fired, cell, events).fired == fired,
    decreases events.len(),
{
    if events.len() > 0 && st is Running {
        assert(!is_readiness_event(events[0]));
        let m = step_spec(st, fired, cell, events[0]);
        assert(forall|k: int|
            0 <= k < events.drop_first().len() ==> !is_readiness_event(
                #[trigger] events.drop_first()[k],
            ));
        lemma_no_readiness_no_port(m.state, m.fired, m.cell, events.drop_first());
    }
}

/// Drives one supervised process instance and owns its notifier.
pub struct Supervisor {
    state: SupervisorState,
    notifier: UiNotifier,
}

impl Supervisor {
    /// The supervisor's current state.
    pub closed spec fn state(&self) -> SupervisorState {
        self.state
    }

    /// Whether the one-time UI notification has gone out.
    pub closed spec fn fired(&self) -> bool {
        self.notifier.has_fired()
    }

    /// The settle delay the notifier hands out.
    pub closed spec fn settle(&self) -> u64 {
        self.notifier.settle()
    }

    /// The port this supervisor has discovered, if any.
    pub open spec fn known_port(&self) -> Option<u16> {
        state_port(self.state())
    }

    /// Internal coherence: once a port is known, the notifier has
    /// fired.
    pub open spec fn inv(&self) -> bool {
        state_port(self.state()) is Some ==> self.fired()
    }

    /// A fresh supervisor, child not spawned yet.
    pub fn new() -> (s: Supervisor)
        ensures
            s.state() is Starting,
            !s.fired(),
            s.settle() == DEFAULT_SETTLE_MILLIS,
            s.inv(),
    {
        Supervisor { state: SupervisorState::Starting, notifier: UiNotifier::new() }
    }

    /// A fresh supervisor whose directives carry a chosen settle delay.
    pub fn with_settle_millis(settle_millis: u64) -> (s: Supervisor)
        ensures
            s.state() is Starting,
            !s.fired(),
            s.settle() == settle_millis,
            s.inv(),
    {
        Supervisor {
            state: SupervisorState::Starting,
            notifier: UiNotifier::with_settle_millis(settle_millis),
        }
    }

    /// Records that the child was spawned: supervision begins.
    pub fn note_spawned(&mut self)
        requires
            old(self).state() is Starting,
        ensures
            final(self).state() == (SupervisorState::Running { port: None::<u16> }),
            final(self).fired() == old(self).fired(),
            final(self).settle() == old(self).settle(),
            final(self).inv(),
    {
        self.state = SupervisorState::Running { port: None };
    }

    /// Records that the spawn failed: supervision never starts, and the
    /// failure surfaces to whoever asked for it.
    pub fn note_spawn_failed(&mut self)
        requires
            old(self).state() is Starting,
        ensures
            final(self).state() is SpawnFailed,
            final(self).fired() == old(self).fired(),
            final(self).settle() == old(self).settle(),
            final(self).inv(),
    {
        self.state = SupervisorState::SpawnFailed;
    }

    /// The supervisor's port, for callers outside the proof.
    pub fn port(&self) -> (r: Option<u16>)
        ensures
            r == self.known_port(),
    {
        match self.state {
            SupervisorState::Running { port } => port,
            SupervisorState::Terminated { port } => port,
            _ => None,
        }
    }

    /// Whether the child is (believed) running.
    pub fn is_running(&self) -> (r: bool)
        ensures
            r == self.state() is Running,
    {
        match self.state {
            SupervisorState::Running { .. } => true,
            _ => false,
        }
    }

    /// Whether supervision ended with the child's termination.
    pub fn is_terminated(&self) -> (r: bool)
        ensures
            r == self.state() is Terminated,
    {
        match self.state {
            SupervisorState::Terminated { .. } => true,
            _ => false,
        }
    }

    /// Whether the spawn failed.
    pub fn spawn_failed(&self) -> (r: bool)
        ensures
            r == self.state() is SpawnFailed,
    {
        match self.state {
            SupervisorState::SpawnFailed => true,
            _ => false,
        }
    }

    /// Handles one event of the child's stream: exactly one step of
    /// `step_spec` over the supervisor, the cell and the notifier.
    pub fn handle_event(&mut self, cell: &mut PortCell, ev: &ChildEvent) -> (out: StepOutcome)
        requires
            old(self).inv(),
            old(self).state() is Running,
            old(cell)@ == old(self).known_port(),
        ensures
            final(self).inv(),
            final(self).settle() == old(self).settle(),
            final(cell)@ == final(self).known_port(),
            ({
                let m = step_spec(old(self).state(), old(self).fired(), old(cell)@, *ev);
                &&& final(self).state() == m.state
                &&& final(self).fired() == m.fired
                &&& final(cell)@ == m.cell
                &&& out.done == m.done
                &&& (out.directive is Some <==> m.notified is Some)
                &&& (out.directive matches Some(d) ==> (m.notified matches Some(p) && d.url@
                    == loopback_url(p) && d.settle_millis == old(self).settle()))
            }),
            out.done <==> !(final(self).state() is Running),
    {
        match ev {
            ChildEvent::StdoutLine(l) => {
                let already_known = match self.state {
                    SupervisorState::Running { port: Some(_) } => true,
                    _ => false,
                };
                if already_known {
                    return StepOutcome { directive: None, done: false };
                }
                match parse_readiness_line(l.as_slice()) {
                    Some(p) => {
                        self.state = SupervisorState::Running { port: Some(p) };
                        cell.write_once(p);
                        let d = self.notifier.notify(p);
                        StepOutcome { directive: d, done: false }
                    },
                    None => StepOutcome { directive: None, done: false },
                }
            },
            ChildEvent::StderrLine(_) => StepOutcome { directive: None, done: false },
            ChildEvent::ProcessError(_) => {
                let port = self.port();
                self.state = SupervisorState::Terminated { port };
                StepOutcome { directive: None, done: true }
            },
            ChildEvent::Terminated(_) => {
                let port = self.port();
                self.state = SupervisorState::Terminated { port };
                StepOutcome { directive: None, done: true }
            },
        }
    }

    /// Runs the supervision loop over a whole event sequence: handles
    /// the events in order, stopping at the first terminal one, and
    /// collects the navigation directives that went out — at most one,
    /// however many readiness lines the events hold.
    pub fn drive(&mut self, cell: &mut PortCell, events: &Vec<ChildEvent>) -> (directives: Vec<
        NavDirective,
    >)
        requires
            old(self).inv(),
            old(self).state() is Running,
            old(cell)@ == old(self).known_port(),
        ensures
            final(self).inv(),
            final(self).settle() == old(self).settle(),
            final(cell)@ == final(self).known_port(),
            ({
                let r = run_spec(old(self).state(), old(self).fired(), old(cell)@, events@);
                &&& final(self).state() == r.state
                &&& final(self).fired() == r.fired
                &&& final(cell)@ == r.cell
                &&& directives@.len() == r.notified.len()
                &&& (forall|k: int|
                    0 <= k < r.notified.len() ==> #[trigger] directives@[k].url@ == loopback_url(
                        r.notified[k],
                    ))
                &&& (forall|k: int|
                    0 <= k < directives@.len() ==> #[trigger] directives@[k].settle_millis == old(
                        self,
                    ).settle())
            }),
            directives@.len() <= 1,
    {
        let ghost total = run_spec(old(self).state(), old(self).fired(), old(cell)@, events@);
        let mut directives: Vec<NavDirective> = Vec::new();
        let ghost mut ports: Seq<u16> = Seq::empty();
        let mut i: usize = 0;
        let mut done = false;
        proof {
            assert(events@.subrange(0, events@.len() as int) =~= events@);
            assert(Seq::<u16>::empty() + total.notified =~= total.notified);
        }
        while !done && i < events.len()
            invariant
                i <= events@.len(),
                self.inv(),
                cell@ == self.known_port(),
                self.settle() == old(self).settle(),
                done == !(self.state() is Running),
                directives@.len() == ports.len(),
                forall|k: int|
                    0 <= k < ports.len() ==> #[trigger] directives@[k].url@ == loopback_url(
                        ports[k],
                    ),
                forall|k: int|
                    0 <= k < directives@.len() ==> #[trigger] directives@[k].settle_millis == old(
                        self,
                    ).settle(),
                total == run_spec(old(self).state(), old(self).fired(), old(cell)@, events@),
                total == prepend_notified(
                    ports,
                    run_spec(
                        self.state(),
                        self.fired(),
                        cell@,
                        events@.subrange(i as int, events@.len() as int),
                    ),
                ),
            decreases events@.len() - i,
        {
            let ghost pre_state = self.state();
            let ghost pre_fired = self.fired();
            let ghost pre_cell = cell@;
            let ghost sub = events@.subrange(i as int, events@.len() as int);
            let ev = &events[i];
            let out = self.handle_event(cell, ev);
            proof {
                let m = step_spec(pre_state, pre_fired, pre_cell, events@[i as int]);
                assert(sub[0] == events@[i as int]);
                assert(sub.drop_first() =~= events@.subrange(i + 1, events@.len() as int));
                match m.notified {
                    Some(p) => {
                        assert(ports + (seq![p] + run_spec(
                            m.state,
                            m.fired,
                            m.cell,
                            sub.drop_first(),
                        ).notified) =~= ports.push(p) + run_spec(
                            m.state,
                            m.fired,
                            m.cell,
                            sub.drop_first(),
                        ).notified);
                        ports = ports.push(p);
                    },
                    None => {},
                }
            }
            match out.directive {
                Some(d) => directives.push(d),
                None => {},
            }
            if out.done {
                done = true;
            }
            i = i + 1;
        }
        proof {
            let rest = run_spec(
                self.state(),
                self.fired(),
                cell@,
                events@.subrange(i as int, events@.len() as int),
            );
            if done {
                assert(rest.notified =~= Seq::<u16>::empty());
            } else {
                assert(events@.subrange(i as int, events@.len() as int).len() == 0);
            }
            assert(ports + rest.notified =~= ports);
            assert(total.notified == ports);
            lemma_notifies_at_most_once(
                old(self).state(),
                old(self).fired(),
                old(cell)@,
                events@,
            );
        }
        directives
    }
}

} // verus!
