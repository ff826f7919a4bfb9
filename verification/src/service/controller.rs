use vstd::prelude::*;

use crate::service::ledger::{
    complete_outcome, lemma_position_of_key, open_outcome, position_of_key, rejected_entries,
    rejection_replies, replies, sessions_of, stopping_response, value_for, with_inserted,
    ControllerAction, RequestLedger, StateView,
};
use crate::service::protocol::{OpenError, OpenErrorCode, RequestId, ServiceResponse};

verus! {

/// The sentence that refuses a request because the service stops.
pub open spec fn stopping_text() -> Seq<char> {
    "Lens background service is stopping"@
}

/// Where the controller stands: running, stopping (with the stop requests to answer and how
/// far shutdown has come), or stopped.
#[derive(Debug)]
pub enum ControllerPhase {
    Running,
    Stopping {
        stop_waiters: Vec<u64>,
        endpoint_removed: bool,
        cleanup_started: bool,
        cleanup_complete: bool,
        force_requested: bool,
    },
    Stopped,
}

/// A phase with its stop waiters as a sequence.
pub enum PhaseView {
    Running,
    Stopping {
        stop_waiters: Seq<u64>,
        endpoint_removed: bool,
        cleanup_started: bool,
        cleanup_complete: bool,
        force_requested: bool,
    },
    Stopped,
}

/// The view of a phase.
pub open spec fn phase_view(phase: ControllerPhase) -> PhaseView {
    match phase {
        ControllerPhase::Running => PhaseView::Running,
        ControllerPhase::Stopping {
            stop_waiters,
            endpoint_removed,
            cleanup_started,
            cleanup_complete,
            force_requested,
        } => PhaseView::Stopping {
            stop_waiters: stop_waiters@,
            endpoint_removed,
            cleanup_started,
            cleanup_complete,
            force_requested,
        },
        ControllerPhase::Stopped => PhaseView::Stopped,
    }
}

/// What a session creation ended with: the request, its response, and the session it made.
#[derive(Debug)]
pub struct Completion {
    pub request_id: RequestId,
    pub response: ServiceResponse,
    pub session: Option<u64>,
}

/// What happens to the controller.
#[derive(Debug)]
pub enum ControllerEvent {
    /// An open request arrived, with the waiter to answer.
    Open { request_id: RequestId, waiter: u64 },
    /// A stop request arrived, with the waiter to answer.
    Stop { waiter: u64 },
    /// The service removed its endpoint.
    EndpointRemoved,
    /// The shutdown timer ran out.
    ForceShutdown,
    /// A session creation ended; cancelled or failed creations carry no completion.
    CreationJoined { completion: Option<Completion> },
    /// A session shutdown ended.
    CleanupJoined,
}

/// The whole state of the controller.
pub struct ControllerView {
    pub requests: Seq<([u8; 16], StateView)>,
    pub phase: PhaseView,
    pub creations: usize,
    pub cleanup_tasks: usize,
    pub late_sessions: Seq<u64>,
    pub force_channel_open: bool,
    pub stopping_message: String,
}

/// The state and actions after the controller handles an event itself.
pub open spec fn handle_spec(v: ControllerView, event: ControllerEvent) -> (ControllerView, Seq<ControllerAction>) {
    match event {
        ControllerEvent::Open { request_id, waiter } => {
            if v.phase is Running {
                let (requests, actions) = open_outcome(v.requests, request_id.0, waiter);
                let creations = if value_for(v.requests, request_id.0) is None {
                    v.creations.saturating_add(1)
                } else {
                    v.creations
                };
                (ControllerView { requests, creations, ..v }, actions)
            } else {
                (
                    v,
                    seq![
                        ControllerAction::Reply {
                            waiter,
                            response: stopping_response(request_id.0, v.stopping_message),
                        },
                    ],
                )
            }
        },
        ControllerEvent::Stop { waiter } => match v.phase {
            PhaseView::Running => (
                ControllerView {
                    requests: rejected_entries(v.requests, v.stopping_message),
                    phase: PhaseView::Stopping {
                        stop_waiters: seq![waiter],
                        endpoint_removed: false,
                        cleanup_started: false,
                        cleanup_complete: false,
                        force_requested: false,
                    },
                    ..v
                },
                rejection_replies(v.requests, v.stopping_message) + seq![
                    ControllerAction::AbortCreations,
                    ControllerAction::StartDeadline,
                    ControllerAction::SignalStopRequested,
                ],
            ),
            PhaseView::Stopping {
                stop_waiters,
                endpoint_removed,
                cleanup_started,
                cleanup_complete,
                force_requested,
            } => (
                ControllerView {
                    phase: PhaseView::Stopping {
                        stop_waiters: stop_waiters.push(waiter),
                        endpoint_removed,
                        cleanup_started,
                        cleanup_complete,
                        force_requested,
                    },
                    ..v
                },
                Seq::empty(),
            ),
            PhaseView::Stopped => (
                v,
                seq![ControllerAction::Reply { waiter, response: ServiceResponse::Stopped }],
            ),
        },
        ControllerEvent::EndpointRemoved => match v.phase {
            PhaseView::Stopping {
                stop_waiters,
                cleanup_started,
                cleanup_complete,
                force_requested,
                ..
            } => (
                ControllerView {
                    phase: PhaseView::Stopping {
                        stop_waiters,
                        endpoint_removed: true,
                        cleanup_started,
                        cleanup_complete,
                        force_requested,
                    },
                    ..v
                },
                Seq::empty(),
            ),
            _ => (v, Seq::empty()),
        },
        ControllerEvent::ForceShutdown => match v.phase {
            PhaseView::Stopping {
                stop_waiters,
                endpoint_removed,
                cleanup_started,
                cleanup_complete,
                ..
            } => (
                ControllerView {
                    phase: PhaseView::Stopping {
                        stop_waiters,
                        endpoint_removed,
                        cleanup_started,
                        cleanup_complete,
                        force_requested: true,
                    },
                    ..v
                },
                if v.force_channel_open {
                    seq![ControllerAction::AbortCreations, ControllerAction::SignalForce]
                } else {
                    seq![ControllerAction::AbortCreations]
                },
            ),
            _ => (v, Seq::empty()),
        },
        ControllerEvent::CreationJoined { completion } => {
            let joined = ControllerView { creations: v.creations.saturating_sub(1), ..v };
            match completion {
                Some(c) => if v.phase is Running {
                    let (requests, actions) = complete_outcome(
                        v.requests,
                        c.request_id.0,
                        c.response,
                        c.session,
                    );
                    (ControllerView { requests, ..joined }, actions)
                } else {
                    match c.session {
                        Some(s) => (
                            ControllerView { late_sessions: v.late_sessions.push(s), ..joined },
                            Seq::empty(),
                        ),
                        None => (joined, Seq::empty()),
                    }
                },
                None => (joined, Seq::empty()),
            }
        },
        ControllerEvent::CleanupJoined => (
            ControllerView { cleanup_tasks: v.cleanup_tasks.saturating_sub(1), ..v },
            Seq::empty(),
        ),
    }
}

/// Shutdown requests for sessions, each with the same force.
pub open spec fn shutdowns(sessions: Seq<u64>, force: bool) -> Seq<ControllerAction> {
    sessions.map_values(|s: u64| ControllerAction::ShutDownSession { session: s, force })
}

/// Starts shutting sessions down once stopping has begun and no creation is under way: every
/// session that answered a request or came late is shut down, and the requests are forgotten.
pub open spec fn start_cleanup_spec(v: ControllerView) -> (ControllerView, Seq<ControllerAction>) {
    match v.phase {
        PhaseView::Stopping {
            stop_waiters,
            endpoint_removed,
            cleanup_started,
            cleanup_complete,
            force_requested,
        } => if !cleanup_started && v.creations == 0 {
            let sessions = sessions_of(v.requests) + v.late_sessions;
            (
                ControllerView {
                    requests: Seq::empty(),
                    phase: PhaseView::Stopping {
                        stop_waiters,
                        endpoint_removed,
                        cleanup_started: true,
                        cleanup_complete,
                        force_requested,
                    },
                    cleanup_tasks: v.cleanup_tasks.saturating_add(sessions.len() as usize),
                    late_sessions: Seq::empty(),
                    force_channel_open: true,
                    ..v
                },
                shutdowns(sessions, force_requested),
            )
        } else {
            (v, Seq::empty())
        },
        _ => (v, Seq::empty()),
    }
}

/// Marks cleanup complete once it started and no creation or shutdown is under way.
pub open spec fn complete_cleanup_spec(v: ControllerView) -> (ControllerView, Seq<ControllerAction>) {
    match v.phase {
        PhaseView::Stopping {
            stop_waiters,
            endpoint_removed,
            cleanup_started,
            cleanup_complete,
            force_requested,
        } => if cleanup_started && !cleanup_complete && v.creations == 0 && v.cleanup_tasks == 0 {
            (
                ControllerView {
                    phase: PhaseView::Stopping {
                        stop_waiters,
                        endpoint_removed,
                        cleanup_started,
                        cleanup_complete: true,
                        force_requested,
                    },
                    force_channel_open: false,
                    ..v
                },
                seq![ControllerAction::SignalCleanupComplete],
            )
        } else {
            (v, Seq::empty())
        },
        _ => (v, Seq::empty()),
    }
}

/// Stops once the endpoint is removed and cleanup is complete: every stop request is answered.
pub open spec fn finish_spec(v: ControllerView) -> (ControllerView, Seq<ControllerAction>) {
    match v.phase {
        PhaseView::Stopping { stop_waiters, endpoint_removed, cleanup_complete, .. } => if endpoint_removed
            && cleanup_complete {
            (
                ControllerView { phase: PhaseView::Stopped, ..v },
                seq![ControllerAction::CancelDeadline] + replies(
                    stop_waiters,
                    ServiceResponse::Stopped,
                ) + seq![ControllerAction::SignalStopped],
            )
        } else {
            (v, Seq::empty())
        },
        _ => (v, Seq::empty()),
    }
}

/// The state and actions after an event: the controller handles it, then starts cleanup,
/// completes it and finishes shutdown where each is due.
pub open spec fn step_spec(v: ControllerView, event: ControllerEvent) -> (ControllerView, Seq<ControllerAction>) {
    let (v1, a1) = handle_spec(v, event);
    let (v2, a2) = start_cleanup_spec(v1);
    let (v3, a3) = complete_cleanup_spec(v2);
    let (v4, a4) = finish_spec(v3);
    (v4, a1 + a2 + a3 + a4)
}

/// The controller of the background service: it records open requests so that a retried
/// request is answered once, and it runs the shutdown that a stop request begins.
pub struct ServiceController {
    requests: RequestLedger,
    phase: ControllerPhase,
    creations: usize,
    cleanup_tasks: usize,
    late_sessions: Vec<u64>,
    force_channel_open: bool,
    stopping_message: String,
}

impl ServiceController {
    /// The state of the controller.
    pub closed spec fn view(&self) -> ControllerView {
        ControllerView {
            requests: self.requests.requests(),
            phase: phase_view(self.phase),
            creations: self.creations,
            cleanup_tasks: self.cleanup_tasks,
            late_sessions: self.late_sessions@,
            force_channel_open: self.force_channel_open,
            stopping_message: self.stopping_message,
        }
    }

    /// A running controller without requests.
    pub fn new() -> (controller: Self)
        ensures
            controller.view().requests == Seq::<([u8; 16], StateView)>::empty(),
            controller.view().phase == PhaseView::Running,
            controller.view().creations == 0,
            controller.view().cleanup_tasks == 0,
            controller.view().late_sessions == Seq::<u64>::empty(),
            !controller.view().force_channel_open,
            controller.view().stopping_message@ == stopping_text(),
    {
        ServiceController {
            requests: RequestLedger::new(),
            phase: ControllerPhase::Running,
            creations: 0,
            cleanup_tasks: 0,
            late_sessions: Vec::new(),
            force_channel_open: false,
            stopping_message: "Lens background service is stopping".to_owned(),
        }
    }

    /// Whether the controller has stopped.
    pub fn is_stopped(&self) -> (stopped: bool)
        ensures
            stopped == (self.view().phase is Stopped),
    {
        match self.phase {
            ControllerPhase::Stopped => true,
            _ => false,
        }
    }

    /// Handles an event itself.
    fn handle_event(&mut self, event: ControllerEvent) -> (actions: Vec<ControllerAction>)
        ensures
            (final(self).view(), actions@) == handle_spec(old(self).view(), event),
    {
        let ghost before = self.view();
        match event {
            ControllerEvent::Open { request_id, waiter } => {
                match self.phase {
                    ControllerPhase::Running => {
                        let actions = self.requests.open(request_id, waiter);
                        if actions.len() == 1 {
                            if let ControllerAction::SpawnCreation = actions[0] {
                                self.creations = self.creations.saturating_add(1);
                            }
                        }
                        proof {
                            lemma_open_spawns_when_new(before.requests, request_id.0, waiter);
                        }
                        actions
                    },
                    _ => {
                        let response = ServiceResponse::Rejected {
                            request_id,
                            error: OpenError {
                                code: OpenErrorCode::ServiceStopping,
                                message: self.stopping_message.clone(),
                            },
                        };
                        let mut actions: Vec<ControllerAction> = Vec::new();
                        actions.push(ControllerAction::Reply { waiter, response });
                        proof {
                            assert(actions@ =~= handle_spec(before, event).1);
                        }
                        actions
                    },
                }
            },
            ControllerEvent::Stop { waiter } => {
                let mut phase = ControllerPhase::Stopped;
                std::mem::swap(&mut phase, &mut self.phase);
                match phase {
                    ControllerPhase::Running => {
                        let mut actions = self.requests.reject_inflight(&self.stopping_message);
                        actions.push(ControllerAction::AbortCreations);
                        actions.push(ControllerAction::StartDeadline);
                        actions.push(ControllerAction::SignalStopRequested);
                        let mut stop_waiters: Vec<u64> = Vec::new();
                        stop_waiters.push(waiter);
                        self.phase = ControllerPhase::Stopping {
                            stop_waiters,
                            endpoint_removed: false,
                            cleanup_started: false,
                            cleanup_complete: false,
                            force_requested: false,
                        };
                        proof {
                            assert(actions@ =~= handle_spec(before, event).1);
                            assert(self.view().phase == handle_spec(before, event).0.phase);
                        }
                        actions
                    },
                    ControllerPhase::Stopping {
                        stop_waiters,
                        endpoint_removed,
                        cleanup_started,
                        cleanup_complete,
                        force_requested,
                    } => {
                        let mut stop_waiters = stop_waiters;
                        stop_waiters.push(waiter);
                        self.phase = ControllerPhase::Stopping {
                            stop_waiters,
                            endpoint_removed,
                            cleanup_started,
                            cleanup_complete,
                            force_requested,
                        };
                        let actions: Vec<ControllerAction> = Vec::new();
                        proof {
                            assert(actions@ =~= handle_spec(before, event).1);
                        }
                        actions
                    },
                    ControllerPhase::Stopped => {
                        self.phase = ControllerPhase::Stopped;
                        let mut actions: Vec<ControllerAction> = Vec::new();
                        actions.push(ControllerAction::Reply { waiter, response: ServiceResponse::Stopped });
                        proof {
                            assert(actions@ =~= handle_spec(before, event).1);
                        }
                        actions
                    },
                }
            },
            ControllerEvent::EndpointRemoved => {
                let mut phase = ControllerPhase::Stopped;
                std::mem::swap(&mut phase, &mut self.phase);
                match phase {
                    ControllerPhase::Stopping {
                        stop_waiters,
                        cleanup_started,
                        cleanup_complete,
                        force_requested,
                        ..
                    } => {
                        self.phase = ControllerPhase::Stopping {
                            stop_waiters,
                            endpoint_removed: true,
                            cleanup_started,
                            cleanup_complete,
                            force_requested,
                        };
                    },
                    other => {
                        self.phase = other;
                    },
                }
                let actions: Vec<ControllerAction> = Vec::new();
                proof {
                    assert(actions@ =~= handle_spec(before, event).1);
                }
                actions
            },
            ControllerEvent::ForceShutdown => {
                let mut phase = ControllerPhase::Stopped;
                std::mem::swap(&mut phase, &mut self.phase);
                let mut actions: Vec<ControllerAction> = Vec::new();
                match phase {
                    ControllerPhase::Stopping {
                        stop_waiters,
                        endpoint_removed,
                        cleanup_started,
                        cleanup_complete,
                        ..
                    } => {
                        self.phase = ControllerPhase::Stopping {
                            stop_waiters,
                            endpoint_removed,
                            cleanup_started,
                            cleanup_complete,
                            force_requested: true,
                        };
                        actions.push(ControllerAction::AbortCreations);
                        if self.force_channel_open {
                            actions.push(ControllerAction::SignalForce);
                        }
                    },
                    other => {
                        self.phase = other;
                    },
                }
                proof {
                    assert(actions@ =~= handle_spec(before, event).1);
                }
                actions
            },
            ControllerEvent::CreationJoined { completion } => {
                self.creations = self.creations.saturating_sub(1);
                let running = match self.phase {
                    ControllerPhase::Running => true,
                    _ => false,
                };
                match completion {
                    Some(c) => {
                        if running {
                            self.requests.complete(c.request_id, c.response, c.session)
                        } else {
                            match c.session {
                                Some(s) => {
                                    self.late_sessions.push(s);
                                },
                                None => {},
                            }
                            let actions: Vec<ControllerAction> = Vec::new();
                            proof {
                                assert(actions@ =~= handle_spec(before, event).1);
                            }
                            actions
                        }
                    },
                    None => {
                        let actions: Vec<ControllerAction> = Vec::new();
                        proof {
                            assert(actions@ =~= handle_spec(before, event).1);
                        }
                        actions
                    },
                }
            },
            ControllerEvent::CleanupJoined => {
                self.cleanup_tasks = self.cleanup_tasks.saturating_sub(1);
                let actions: Vec<ControllerAction> = Vec::new();
                proof {
                    assert(actions@ =~= handle_spec(before, event).1);
                }
                actions
            },
        }
    }
}

impl ServiceController {
    /// Starts cleanup where it is due.
    fn start_cleanup(&mut self) -> (actions: Vec<ControllerAction>)
        ensures
            (final(self).view(), actions@) == start_cleanup_spec(old(self).view()),
    {
        let ghost before = self.view();
        let mut phase = ControllerPhase::Stopped;
        std::mem::swap(&mut phase, &mut self.phase);
        match phase {
            ControllerPhase::Stopping {
                stop_waiters,
                endpoint_removed,
                cleanup_started,
                cleanup_complete,
                force_requested,
            } => {
                if !cleanup_started && self.creations == 0 {
                    self.phase = ControllerPhase::Stopping {
                        stop_waiters,
                        endpoint_removed,
                        cleanup_started: true,
                        cleanup_complete,
                        force_requested,
                    };
                    self.force_channel_open = true;
                    let mut sessions = self.requests.take_sessions();
                    let mut late: Vec<u64> = Vec::new();
                    std::mem::swap(&mut late, &mut self.late_sessions);
                    let ghost taken = sessions@;
                    let mut index: usize = 0;
                    while index < late.len()
                        invariant
                            index <= late@.len(),
                            sessions@ == taken + late@.subrange(0, index as int),
                        decreases late@.len() - index,
                    {
                        sessions.push(late[index]);
                        index = index + 1;
                        assert(sessions@ =~= taken + late@.subrange(0, index as int));
                    }
                    assert(late@.subrange(0, index as int) =~= late@);
                    self.cleanup_tasks = self.cleanup_tasks.saturating_add(sessions.len());
                    let mut actions: Vec<ControllerAction> = Vec::new();
                    let mut position: usize = 0;
                    while position < sessions.len()
                        invariant
                            position <= sessions@.len(),
                            actions@ == shutdowns(sessions@.subrange(0, position as int), force_requested),
                        decreases sessions@.len() - position,
                    {
                        actions.push(
                            ControllerAction::ShutDownSession { session: sessions[position], force: force_requested },
                        );
                        position = position + 1;
                        assert(actions@ =~= shutdowns(sessions@.subrange(0, position as int), force_requested));
                    }
                    assert(sessions@.subrange(0, position as int) =~= sessions@);
                    proof {
                        assert(self.view().late_sessions =~= Seq::<u64>::empty());
                        assert(self.view() == start_cleanup_spec(before).0);
                    }
                    actions
                } else {
                    self.phase = ControllerPhase::Stopping {
                        stop_waiters,
                        endpoint_removed,
                        cleanup_started,
                        cleanup_complete,
                        force_requested,
                    };
                    let actions: Vec<ControllerAction> = Vec::new();
                    proof {
                        assert(actions@ =~= start_cleanup_spec(before).1);
                    }
                    actions
                }
            },
            other => {
                self.phase = other;
                let actions: Vec<ControllerAction> = Vec::new();
                proof {
                    assert(actions@ =~= start_cleanup_spec(before).1);
                }
                actions
            },
        }
    }

    /// Completes cleanup where it is due.
    fn complete_cleanup(&mut self) -> (actions: Vec<ControllerAction>)
        ensures
            (final(self).view(), actions@) == complete_cleanup_spec(old(self).view()),
    {
        let ghost before = self.view();
        let mut phase = ControllerPhase::Stopped;
        std::mem::swap(&mut phase, &mut self.phase);
        let mut actions: Vec<ControllerAction> = Vec::new();
        match phase {
            ControllerPhase::Stopping {
                stop_waiters,
                endpoint_removed,
                cleanup_started,
                cleanup_complete,
                force_requested,
            } => {
                let due = cleanup_started && !cleanup_complete && self.creations == 0
                    && self.cleanup_tasks == 0;
                self.phase = ControllerPhase::Stopping {
                    stop_waiters,
                    endpoint_removed,
                    cleanup_started,
                    cleanup_complete: cleanup_complete || due,
                    force_requested,
                };
                if due {
                    self.force_channel_open = false;
                    actions.push(ControllerAction::SignalCleanupComplete);
                }
            },
            other => {
                self.phase = other;
            },
        }
        proof {
            assert(actions@ =~= complete_cleanup_spec(before).1);
        }
        actions
    }

    /// Finishes shutdown where it is due.
    fn finish(&mut self) -> (actions: Vec<ControllerAction>)
        ensures
            (final(self).view(), actions@) == finish_spec(old(self).view()),
    {
        let ghost before = self.view();
        let mut phase = ControllerPhase::Stopped;
        std::mem::swap(&mut phase, &mut self.phase);
        let mut actions: Vec<ControllerAction> = Vec::new();
        match phase {
            ControllerPhase::Stopping {
                stop_waiters,
                endpoint_removed,
                cleanup_started,
                cleanup_complete,
                force_requested,
            } => {
                if endpoint_removed && cleanup_complete {
                    actions.push(ControllerAction::CancelDeadline);
                    let mut index: usize = 0;
                    while index < stop_waiters.len()
                        invariant
                            index <= stop_waiters@.len(),
                            actions@ == seq![ControllerAction::CancelDeadline] + replies(
                                stop_waiters@.subrange(0, index as int),
                                ServiceResponse::Stopped,
                            ),
                        decreases stop_waiters@.len() - index,
                    {
                        actions.push(
                            ControllerAction::Reply { waiter: stop_waiters[index], response: ServiceResponse::Stopped },
                        );
                        index = index + 1;
                        assert(actions@ =~= seq![ControllerAction::CancelDeadline] + replies(
                            stop_waiters@.subrange(0, index as int),
                            ServiceResponse::Stopped,
                        ));
                    }
                    assert(stop_waiters@.subrange(0, index as int) =~= stop_waiters@);
                    actions.push(ControllerAction::SignalStopped);
                } else {
                    self.phase = ControllerPhase::Stopping {
                        stop_waiters,
                        endpoint_removed,
                        cleanup_started,
                        cleanup_complete,
                        force_requested,
                    };
                }
            },
            other => {
                self.phase = other;
            },
        }
        proof {
            assert(actions@ =~= finish_spec(before).1);
        }
        actions
    }

    /// Takes an event: the controller handles it, then starts cleanup, completes it and
    /// finishes shutdown where each is due, and says what the service must do.
    pub fn step(&mut self, event: ControllerEvent) -> (actions: Vec<ControllerAction>)
        ensures
            (final(self).view(), actions@) == step_spec(old(self).view(), event),
    {
        let mut actions = self.handle_event(event);
        let mut more = self.start_cleanup();
        actions.append(&mut more);
        let mut cleanup = self.complete_cleanup();
        actions.append(&mut cleanup);
        let mut finished = self.finish();
        actions.append(&mut finished);
        actions
    }
}

/// A new request's open spawns exactly its creation; a known one spawns none.
proof fn lemma_open_spawns_when_new(entries: Seq<([u8; 16], StateView)>, key: [u8; 16], waiter: u64)
    ensures
        value_for(entries, key) is None ==> open_outcome(entries, key, waiter).1 == seq![
            ControllerAction::SpawnCreation,
        ],
        value_for(entries, key) is Some ==> !(open_outcome(entries, key, waiter).1.len() == 1
            && open_outcome(entries, key, waiter).1[0] is SpawnCreation),
{
}

proof fn lemma_inserted_value<V>(entries: Seq<([u8; 16], V)>, key: [u8; 16], value: V)
    ensures
        value_for(with_inserted(entries, key, value), key) == Some(value),
{
    lemma_position_of_key(entries, key);
    let after = with_inserted(entries, key, value);
    lemma_position_of_key(after, key);
    match position_of_key(entries, key) {
        Some(i) => {
            if let Some(p) = position_of_key(after, key) {
                if p < i {
                    assert(after[p] == entries[p]);
                }
                assert(after[i].0 == key);
            }
        },
        None => {
            assert(after[entries.len() as int].0 == key);
            if let Some(p) = position_of_key(after, key) {
                if p < entries.len() {
                    assert(after[p] == entries[p]);
                }
            }
        },
    }
}

/// A request opened twice while the service runs starts one session creation: the first open
/// records it as waiting and starts the creation, and the retry only joins the waiters.
pub proof fn lemma_retried_open_creates_once(v: ControllerView, request_id: RequestId, first: u64, second: u64)
    requires
        v.phase is Running,
        value_for(v.requests, request_id.0) is None,
    ensures
        ({
            let (v1, a1) = handle_spec(v, ControllerEvent::Open { request_id, waiter: first });
            let (v2, a2) = handle_spec(v1, ControllerEvent::Open { request_id, waiter: second });
            &&& a1 == seq![ControllerAction::SpawnCreation]
            &&& a2 == Seq::<ControllerAction>::empty()
            &&& v2.creations == v.creations.saturating_add(1)
            &&& value_for(v2.requests, request_id.0) == Some(
                StateView::InFlight { waiters: seq![first, second] },
            )
        }),
{
    let key = request_id.0;
    let first_state = StateView::InFlight { waiters: seq![first] };
    let e1 = with_inserted(v.requests, key, first_state);
    lemma_inserted_value(v.requests, key, first_state);
    let second_state = StateView::InFlight { waiters: seq![first].push(second) };
    lemma_inserted_value(e1, key, second_state);
    assert(seq![first].push(second) =~= seq![first, second]);
}

/// A request that was already answered is answered again with the same response, and nothing
/// else changes.
pub proof fn lemma_answered_open_replays_response(v: ControllerView, request_id: RequestId, waiter: u64)
    requires
        v.phase is Running,
        value_for(v.requests, request_id.0) matches Some(StateView::Complete { .. }),
    ensures
        handle_spec(v, ControllerEvent::Open { request_id, waiter }) == (
            v,
            seq![
                ControllerAction::Reply {
                    waiter,
                    response: value_for(v.requests, request_id.0)->Some_0->Complete_response,
                },
            ],
        ),
{
    assert(handle_spec(v, ControllerEvent::Open { request_id, waiter }).0 =~= v);
}

/// An open request that arrives once stopping has begun is refused as the service stopping,
/// and nothing changes.
pub proof fn lemma_open_while_stopping_refused(v: ControllerView, request_id: RequestId, waiter: u64)
    requires
        !(v.phase is Running),
    ensures
        handle_spec(v, ControllerEvent::Open { request_id, waiter }) == (
            v,
            seq![
                ControllerAction::Reply {
                    waiter,
                    response: stopping_response(request_id.0, v.stopping_message),
                },
            ],
        ),
{
}

/// A stop accepted while running answers every waiting request as refused and leaves no
/// request waiting.
pub proof fn lemma_stop_leaves_no_waiting_request(v: ControllerView, waiter: u64)
    requires
        v.phase is Running,
    ensures
        ({
            let (after, actions) = handle_spec(v, ControllerEvent::Stop { waiter });
            &&& after.requests.len() == v.requests.len()
            &&& forall|i: int| 0 <= i < after.requests.len() ==> !(#[trigger] after.requests[i].1 is InFlight)
            &&& actions == rejection_replies(v.requests, v.stopping_message) + seq![
                ControllerAction::AbortCreations,
                ControllerAction::StartDeadline,
                ControllerAction::SignalStopRequested,
            ]
            &&& after.phase == PhaseView::Stopping {
                stop_waiters: seq![waiter],
                endpoint_removed: false,
                cleanup_started: false,
                cleanup_complete: false,
                force_requested: false,
            }
        }),
{
}

/// A stop request to a stopped controller is answered as stopped, and nothing changes.
pub proof fn lemma_stop_when_stopped(v: ControllerView, waiter: u64)
    requires
        v.phase is Stopped,
    ensures
        step_spec(v, ControllerEvent::Stop { waiter }) == (
            v,
            seq![ControllerAction::Reply { waiter, response: ServiceResponse::Stopped }],
        ),
{
    assert(seq![ControllerAction::Reply { waiter, response: ServiceResponse::Stopped }]
        + Seq::<ControllerAction>::empty() + Seq::<ControllerAction>::empty() + Seq::<
        ControllerAction,
    >::empty() =~= seq![ControllerAction::Reply { waiter, response: ServiceResponse::Stopped }]);
}

/// A stopped controller stays stopped, whatever happens.
pub proof fn lemma_stopped_stays_stopped(v: ControllerView, event: ControllerEvent)
    requires
        v.phase is Stopped,
    ensures
        step_spec(v, event).0.phase is Stopped,
{
}

/// The controller stops only from a stopping phase whose endpoint was removed, before or by the
/// event, and whose cleanup is complete; every stop request is then answered as stopped.
pub proof fn lemma_stopped_only_after_endpoint_removal(v: ControllerView, event: ControllerEvent)
    requires
        !(v.phase is Stopped),
        step_spec(v, event).0.phase is Stopped,
    ensures
        v.phase matches PhaseView::Stopping { endpoint_removed, .. } && (endpoint_removed
            || event is EndpointRemoved),
{
}

} // verus!
