//! The cleanup sweep: what is done when the process is asked to stop.
//!
//! The identifiers in the log are read, a deletion is attempted for each
//! in the order of the log, whether or not the one before succeeded, and
//! then the log is removed and the process ends with success. As with the
//! cycle, this is a state machine: the caller carries out each action and
//! reports its outcome as the next event.

use vstd::prelude::*;
use crate::config::{Config, ConfigView};
use crate::message_log::{log_entries, read_all, texts};
use crate::transport::{
    delete_request,
    delete_request_for,
    DeleteRequest,
    DeleteRequestView,
    TransportError,
    TransportErrorView,
};

verus! {

/// The exit code of a process that has cleaned up.
pub const EXIT_SUCCESS: i32 = 0;

/// What the sweep is waiting for.
#[derive(Clone, Copy, Debug, PartialEq, Eq, Structural)]
pub enum SweepPhase {
    /// For the outcome of a deletion.
    Deleting,
    /// For the outcome of the removal of the log.
    Removing,
    /// For nothing: the process is to exit with success.
    Finished,
    /// For nothing: the sweep has ended on a fault.
    Failed,
}

/// What has happened during the sweep.
#[derive(Debug)]
pub enum SweepEvent {
    /// A deletion has ended, well or with an error.
    Deleted(Result<(), TransportError>),
    /// The removal of the log has ended, well or not.
    LogRemoved(bool),
}

/// An event of the sweep as a mathematical value.
pub enum SweepEventView {
    Deleted(Result<(), TransportErrorView>),
    LogRemoved(bool),
}

impl View for SweepEvent {
    type V = SweepEventView;

    open spec fn view(&self) -> SweepEventView {
        match self {
            SweepEvent::Deleted(Ok(())) => SweepEventView::Deleted(Ok(())),
            SweepEvent::Deleted(Err(error)) => SweepEventView::Deleted(Err(error@)),
            SweepEvent::LogRemoved(ok) => SweepEventView::LogRemoved(*ok),
        }
    }
}

/// Why the sweep has ended without success.
#[derive(Clone, Copy, Debug, PartialEq, Eq, Structural)]
pub enum SweepFault {
    /// The log could not be removed.
    LogNotRemoved,
    /// An event came that the sweep was not waiting for.
    OutOfTurn,
}

/// What is to be done next during the sweep.
#[derive(Debug)]
pub enum SweepAction {
    /// Send this request and report how it ended.
    Delete(DeleteRequest),
    /// Remove the log and report how it ended.
    RemoveLog,
    /// End the process with this exit code.
    Exit(i32),
    /// End the process abnormally.
    Abort(SweepFault),
}

/// An action of the sweep as a mathematical value.
pub enum SweepActionView {
    Delete(DeleteRequestView),
    RemoveLog,
    Exit(i32),
    Abort(SweepFault),
}

impl View for SweepAction {
    type V = SweepActionView;

    open spec fn view(&self) -> SweepActionView {
        match self {
            SweepAction::Delete(request) => SweepActionView::Delete(request@),
            SweepAction::RemoveLog => SweepActionView::RemoveLog,
            SweepAction::Exit(code) => SweepActionView::Exit(*code),
            SweepAction::Abort(fault) => SweepActionView::Abort(*fault),
        }
    }
}

/// The state of the sweep as a mathematical value.
pub struct SweepView {
    /// The identifiers that were read from the log, in its order.
    pub ids: Seq<Seq<char>>,
    /// For how many of them, from the first on, a deletion was asked.
    pub attempted: nat,
    /// What the sweep is waiting for.
    pub phase: SweepPhase,
}

impl SweepView {
    /// The sweep over a log with the content `content` before anything
    /// was asked.
    pub open spec fn over(content: Seq<char>) -> SweepView {
        SweepView { ids: log_entries(content), attempted: 0, phase: SweepPhase::Deleting }
    }

    /// At most every identifier was attempted.
    pub open spec fn valid(self) -> bool {
        self.attempted <= self.ids.len()
    }

    /// The next thing to ask while deleting: the deletion of the first
    /// identifier not yet attempted, or, when none is left, the removal of
    /// the log.
    pub open spec fn advanced(self, config: ConfigView) -> (SweepView, SweepActionView) {
        if self.attempted < self.ids.len() {
            (
                SweepView { attempted: self.attempted + 1, ..self },
                SweepActionView::Delete(
                    delete_request_for(config.room_id, config.token, self.ids[self.attempted as int]),
                ),
            )
        } else {
            (SweepView { phase: SweepPhase::Removing, ..self }, SweepActionView::RemoveLog)
        }
    }

    /// This state after a fault.
    pub open spec fn failed(self) -> SweepView {
        SweepView { phase: SweepPhase::Failed, ..self }
    }
}

/// The state machine of the sweep: the state after `event` has come in
/// `state`, and the action that answers it. How a deletion ended makes no
/// difference to what follows.
pub open spec fn sweep_transition(state: SweepView, config: ConfigView, event: SweepEventView) -> (
    SweepView,
    SweepActionView,
) {
    match (state.phase, event) {
        (SweepPhase::Deleting, SweepEventView::Deleted(_)) => state.advanced(config),
        (SweepPhase::Removing, SweepEventView::LogRemoved(ok)) => {
            if ok {
                (
                    SweepView { phase: SweepPhase::Finished, ..state },
                    SweepActionView::Exit(EXIT_SUCCESS),
                )
            } else {
                (state.failed(), SweepActionView::Abort(SweepFault::LogNotRemoved))
            }
        },
        _ => (state.failed(), SweepActionView::Abort(SweepFault::OutOfTurn)),
    }
}

/// The sweep in progress.
#[derive(Debug)]
pub struct Sweep {
    ids: Vec<String>,
    attempted: usize,
    phase: SweepPhase,
}

impl View for Sweep {
    type V = SweepView;

    closed spec fn view(&self) -> SweepView {
        SweepView { ids: texts(self.ids@), attempted: self.attempted as nat, phase: self.phase }
    }
}

impl Sweep {
    #[verifier::type_invariant]
    spec fn well_formed(self) -> bool {
        self.attempted <= self.ids.len()
    }

    /// Asks for the next thing while deleting.
    fn advance(&mut self, config: &Config) -> (action: SweepAction)
        ensures
            (final(self)@, action@) == old(self)@.advanced(config@),
    {
        proof {
            use_type_invariant(&*self);
        }
        if self.attempted < self.ids.len() {
            let request = delete_request(
                config.room_id(),
                config.token(),
                self.ids[self.attempted].as_str(),
            );
            self.attempted = self.attempted + 1;
            SweepAction::Delete(request)
        } else {
            self.phase = SweepPhase::Removing;
            SweepAction::RemoveLog
        }
    }

    /// Ends the sweep on `fault`.
    fn fail(&mut self, fault: SweepFault) -> (action: SweepAction)
        ensures
            final(self)@ == old(self)@.failed(),
            action@ == SweepActionView::Abort(fault),
    {
        proof {
            use_type_invariant(&*self);
        }
        self.phase = SweepPhase::Failed;
        SweepAction::Abort(fault)
    }

    /// Begins the sweep over a log with the content `content`: reads the
    /// identifiers and asks for the first thing to do.
    pub fn begin(config: &Config, content: &str) -> (started: (Sweep, SweepAction))
        ensures
            (started.0@, started.1@) == SweepView::over(content@).advanced(config@),
    {
        let mut sweep = Sweep { ids: read_all(content), attempted: 0, phase: SweepPhase::Deleting };
        let action = sweep.advance(config);
        (sweep, action)
    }

    /// Takes the event in and answers with the action that follows.
    pub fn step(&mut self, config: &Config, event: SweepEvent) -> (action: SweepAction)
        ensures
            (final(self)@, action@) == sweep_transition(old(self)@, config@, event@),
    {
        proof {
            use_type_invariant(&*self);
        }
        match event {
            SweepEvent::Deleted(_) => {
                if self.phase == SweepPhase::Deleting {
                    self.advance(config)
                } else {
                    self.fail(SweepFault::OutOfTurn)
                }
            },
            SweepEvent::LogRemoved(ok) => {
                if self.phase == SweepPhase::Removing {
                    if ok {
                        self.phase = SweepPhase::Finished;
                        SweepAction::Exit(EXIT_SUCCESS)
                    } else {
                        self.fail(SweepFault::LogNotRemoved)
                    }
                } else {
                    self.fail(SweepFault::OutOfTurn)
                }
            },
        }
    }

    /// The identifiers that were read from the log, in its order.
    pub fn identifiers(&self) -> (ids: &Vec<String>)
        ensures
            texts(ids@) == self@.ids,
    {
        &self.ids
    }

    /// For how many identifiers, from the first on, a deletion was asked.
    pub fn attempted(&self) -> (count: usize)
        ensures
            count == self@.attempted,
            self@.valid(),
    {
        proof {
            use_type_invariant(self);
        }
        self.attempted
    }

    /// The identifier whose deletion was asked last, if any was.
    pub fn last_attempted(&self) -> (id: Option<&str>)
        ensures
            self@.valid(),
            match id {
                Some(text) => self@.attempted > 0 && text@ == self@.ids[self@.attempted - 1],
                None => self@.attempted == 0,
            },
    {
        proof {
            use_type_invariant(self);
        }
        if self.attempted > 0 {
            Some(self.ids[self.attempted - 1].as_str())
        } else {
            None
        }
    }

    /// What the sweep is waiting for.
    pub fn phase(&self) -> (phase: SweepPhase)
        ensures
            phase == self@.phase,
    {
        self.phase
    }
}

/// The actions that answer the events `events`, one after the other,
/// beginning in `state`.
pub open spec fn sweep_actions(
    state: SweepView,
    config: ConfigView,
    events: Seq<SweepEventView>,
) -> Seq<SweepActionView>
    decreases events.len(),
{
    if events.len() == 0 {
        Seq::empty()
    } else {
        let (next, action) = sweep_transition(state, config, events.first());
        seq![action] + sweep_actions(next, config, events.drop_first())
    }
}

/// The events of a sweep whose deletions end with `outcomes`, in this
/// order, and whose removal of the log succeeds.
pub open spec fn reports_of(outcomes: Seq<Result<(), TransportErrorView>>) -> Seq<SweepEventView> {
    Seq::new(outcomes.len(), |i: int| SweepEventView::Deleted(outcomes[i])) + seq![
        SweepEventView::LogRemoved(true),
    ]
}

/// The deletions of the identifiers `ids` from the one at `from` on, in
/// their order.
pub open spec fn deletions_from(ids: Seq<Seq<char>>, config: ConfigView, from: int) -> Seq<
    SweepActionView,
> {
    Seq::new(
        (ids.len() - from) as nat,
        |i: int|
            SweepActionView::Delete(delete_request_for(config.room_id, config.token, ids[from + i])),
    )
}

/// The sweep from the identifier at `state.attempted` on.
proof fn lemma_sweep_continues(
    state: SweepView,
    config: ConfigView,
    outcomes: Seq<Result<(), TransportErrorView>>,
)
    requires
        state.phase == SweepPhase::Deleting,
        state.attempted + outcomes.len() == state.ids.len(),
    ensures
        seq![state.advanced(config).1] + sweep_actions(
            state.advanced(config).0,
            config,
            reports_of(outcomes),
        ) == deletions_from(state.ids, config, state.attempted as int) + seq![
            SweepActionView::RemoveLog,
            SweepActionView::Exit(EXIT_SUCCESS),
        ],
    decreases outcomes.len(),
{
    let (next, action) = state.advanced(config);
    let events = reports_of(outcomes);
    let tail = seq![SweepActionView::RemoveLog, SweepActionView::Exit(EXIT_SUCCESS)];
    if outcomes.len() == 0 {
        assert(events.first() == SweepEventView::LogRemoved(true));
        assert(events.drop_first() =~= Seq::<SweepEventView>::empty());
        let (last, exit) = sweep_transition(next, config, events.first());
        assert(sweep_actions(last, config, events.drop_first()) =~= Seq::<SweepActionView>::empty());
        assert(sweep_actions(next, config, events) =~= seq![exit]);
        assert(seq![action] + sweep_actions(next, config, events) =~= deletions_from(
            state.ids,
            config,
            state.attempted as int,
        ) + tail);
    } else {
        assert(events.first() == SweepEventView::Deleted(outcomes[0]));
        assert(events.drop_first() =~= reports_of(outcomes.drop_first()));
        lemma_sweep_continues(next, config, outcomes.drop_first());
        assert(sweep_actions(next, config, events) =~= seq![next.advanced(config).1]
            + sweep_actions(next.advanced(config).0, config, reports_of(outcomes.drop_first())));
        assert(seq![action] + (deletions_from(state.ids, config, state.attempted as int + 1) + tail)
            =~= deletions_from(state.ids, config, state.attempted as int) + tail);
    }
}

/// Every identifier in the log gets its attempt, in the order of the log
/// and whatever the outcomes of the attempts before it; then the log is
/// removed; then, the removal done, the process is to exit with success.
/// `outcomes` holds how the deletions end, one outcome for each
/// identifier.
pub proof fn lemma_sweep_attempts_every_identifier(
    config: ConfigView,
    content: Seq<char>,
    outcomes: Seq<Result<(), TransportErrorView>>,
)
    requires
        outcomes.len() == log_entries(content).len(),
    ensures
        ({
            let (started, first) = SweepView::over(content).advanced(config);
            seq![first] + sweep_actions(started, config, reports_of(outcomes)) == deletions_from(
                log_entries(content),
                config,
                0,
            ) + seq![SweepActionView::RemoveLog, SweepActionView::Exit(EXIT_SUCCESS)]
        }),
{
    lemma_sweep_continues(SweepView::over(content), config, outcomes);
}

} // verus!
