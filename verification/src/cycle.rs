//! The cycle controller: a state machine that takes what has happened and
//! answers with what is to be done next.
//!
//! One turn of the cycle is: wake, flip the mode, announce the time of the
//! next transition; when the announcement is sent, record its identifier
//! in the log; when that is written, sleep until the transition. The
//! caller carries out each action and reports its outcome as the next
//! event. A failed send and a failed write end the cycle.

use vstd::prelude::*;
use crate::clock::{
    clock_text,
    clock_time,
    lemma_clock_substitution_is_complete,
    local_offset_at,
    now,
};
use crate::config::{Config, ConfigView};
use crate::message::{
    broadcast_message,
    broadcast_text,
    free_of,
    substituted,
    BROADCAST_MARKER,
    PLACEHOLDER,
};
use crate::message_log::{
    lemma_append_adds_one_entry,
    log_entries,
    record_line,
    record_text,
    terminated,
    valid_identifier,
};
use crate::schedule::{
    second_of_day_at,
    CycleState,
    InstantView,
    LocalInstant,
    EARLIEST_SECOND,
    LATEST_SECOND,
    SECONDS_PER_DAY,
};
use crate::transport::{
    form_for,
    send_request,
    send_request_for,
    SendRequest,
    SendRequestView,
    TransportError,
    TransportErrorView,
};

verus! {

/// What the controller is waiting for.
#[derive(Clone, Copy, Debug, PartialEq, Eq, Structural)]
pub enum Phase {
    /// For the process to start, or for a sleep to end.
    Idle,
    /// For the outcome of a send.
    Sending,
    /// For the outcome of an append to the log.
    Recording,
    /// For nothing: the cycle has ended on a fault.
    Halted,
}

/// The state of the cycle between two events.
#[derive(Clone, Copy, Debug, PartialEq, Eq, Structural)]
pub struct Controller {
    /// The mode of the interval that was last begun.
    pub mode: CycleState,
    /// What the controller is waiting for.
    pub phase: Phase,
    /// The second in which that interval ends.
    pub deadline: i64,
}

/// The state of the cycle as a mathematical value.
pub struct ControllerView {
    pub mode: CycleState,
    pub phase: Phase,
    pub deadline: int,
}

impl View for Controller {
    type V = ControllerView;

    open spec fn view(&self) -> ControllerView {
        ControllerView { mode: self.mode, phase: self.phase, deadline: self.deadline as int }
    }
}

/// What has happened.
#[derive(Debug)]
pub enum Event {
    /// The process has started or a sleep has ended. `now` is a reading of
    /// the clock, and `deadline_offset` the offset of local time from UTC,
    /// in seconds, at the transition that follows from it.
    Wake { now: LocalInstant, deadline_offset: i32 },
    /// A send has ended, with the identifier of the new message or with
    /// an error.
    SendFinished(Result<String, TransportError>),
    /// An append to the log has ended, well or not. `now` is a reading of
    /// the clock taken after it.
    LogAppended { ok: bool, now: LocalInstant },
}

/// An event as a mathematical value.
pub enum EventView {
    Wake { now: InstantView, deadline_offset: int },
    SendFinished(Result<Seq<char>, TransportErrorView>),
    LogAppended { ok: bool, now: InstantView },
}

impl View for Event {
    type V = EventView;

    open spec fn view(&self) -> EventView {
        match self {
            Event::Wake { now, deadline_offset } => EventView::Wake {
                now: now@,
                deadline_offset: *deadline_offset as int,
            },
            Event::SendFinished(Ok(id)) => EventView::SendFinished(Ok(id@)),
            Event::SendFinished(Err(error)) => EventView::SendFinished(Err(error@)),
            Event::LogAppended { ok, now } => EventView::LogAppended { ok: *ok, now: now@ },
        }
    }
}

/// Why the cycle has ended.
#[derive(Debug)]
pub enum Fault {
    /// A send failed.
    SendFailed(TransportError),
    /// An identifier could not be written to the log.
    LogNotWritten,
    /// The transition lay in the past when the sleep was to begin.
    DeadlinePassed,
    /// An event came that the controller was not waiting for.
    OutOfTurn,
}

/// A fault as a mathematical value.
pub enum FaultView {
    SendFailed(TransportErrorView),
    LogNotWritten,
    DeadlinePassed,
    OutOfTurn,
}

impl View for Fault {
    type V = FaultView;

    open spec fn view(&self) -> FaultView {
        match self {
            Fault::SendFailed(error) => FaultView::SendFailed(error@),
            Fault::LogNotWritten => FaultView::LogNotWritten,
            Fault::DeadlinePassed => FaultView::DeadlinePassed,
            Fault::OutOfTurn => FaultView::OutOfTurn,
        }
    }
}

/// What is to be done next.
#[derive(Debug)]
pub enum Action {
    /// Send this request and report how it ended.
    Send(SendRequest),
    /// Append this text to the log and report how it ended.
    AppendToLog(String),
    /// Sleep for this many seconds and report the end of the sleep.
    Sleep(u64),
    /// End the process abnormally.
    Abort(Fault),
}

/// An action as a mathematical value.
pub enum ActionView {
    Send(SendRequestView),
    AppendToLog(Seq<char>),
    Sleep(nat),
    Abort(FaultView),
}

impl View for Action {
    type V = ActionView;

    open spec fn view(&self) -> ActionView {
        match self {
            Action::Send(request) => ActionView::Send(request@),
            Action::AppendToLog(text) => ActionView::AppendToLog(text@),
            Action::Sleep(seconds) => ActionView::Sleep(*seconds as nat),
            Action::Abort(fault) => ActionView::Abort(fault@),
        }
    }
}

impl ControllerView {
    /// The state of a process that has just started: it rests and waits to
    /// be woken.
    pub open spec fn initial() -> ControllerView {
        ControllerView { mode: CycleState::Resting, phase: Phase::Idle, deadline: 0 }
    }

    /// This state after a fault.
    pub open spec fn halted(self) -> ControllerView {
        ControllerView { phase: Phase::Halted, ..self }
    }
}

/// The request that announces an interval in the mode `mode` which ends in
/// the second `deadline`, where local time is `deadline_offset` seconds
/// ahead of UTC: the template of the mode, with the clock time of the
/// deadline in it, behind the broadcast marker, posted to the room.
pub open spec fn announcement(
    config: ConfigView,
    mode: CycleState,
    deadline: int,
    deadline_offset: int,
) -> SendRequestView {
    send_request_for(
        config.room_id,
        config.token,
        broadcast_text(
            config.template(mode),
            clock_text(second_of_day_at(deadline, deadline_offset)),
        ),
    )
}

/// The state machine: the state after `event` has come in `state`, and the
/// action that answers it.
pub open spec fn transition(state: ControllerView, config: ConfigView, event: EventView) -> (
    ControllerView,
    ActionView,
) {
    match (state.phase, event) {
        (Phase::Idle, EventView::Wake { now, deadline_offset }) => {
            let mode = state.mode.flipped();
            let deadline = now.transition(config.minutes(mode));
            (
                ControllerView { mode, phase: Phase::Sending, deadline },
                ActionView::Send(announcement(config, mode, deadline, deadline_offset)),
            )
        },
        (Phase::Sending, EventView::SendFinished(Ok(id))) => (
            ControllerView { phase: Phase::Recording, ..state },
            ActionView::AppendToLog(record_text(id)),
        ),
        (Phase::Sending, EventView::SendFinished(Err(error))) => (
            state.halted(),
            ActionView::Abort(FaultView::SendFailed(error)),
        ),
        (Phase::Recording, EventView::LogAppended { ok, now }) => {
            if !ok {
                (state.halted(), ActionView::Abort(FaultView::LogNotWritten))
            } else {
                match now.seconds_until(state.deadline) {
                    Some(seconds) => (
                        ControllerView { phase: Phase::Idle, ..state },
                        ActionView::Sleep(seconds),
                    ),
                    None => (state.halted(), ActionView::Abort(FaultView::DeadlinePassed)),
                }
            }
        },
        _ => (state.halted(), ActionView::Abort(FaultView::OutOfTurn)),
    }
}

impl Controller {
    /// The controller of a process that has just started.
    pub fn new() -> (controller: Controller)
        ensures
            controller@ == ControllerView::initial(),
    {
        Controller { mode: CycleState::initial(), phase: Phase::Idle, deadline: 0 }
    }

    /// Ends the cycle on `fault`.
    fn halt(&mut self, fault: Fault) -> (action: Action)
        ensures
            final(self)@ == old(self)@.halted(),
            action@ == ActionView::Abort(fault@),
    {
        self.phase = Phase::Halted;
        Action::Abort(fault)
    }

    /// Takes the event in and answers with the action that follows.
    pub fn step(&mut self, config: &Config, event: Event) -> (action: Action)
        ensures
            (final(self)@, action@) == transition(old(self)@, config@, event@),
    {
        match event {
            Event::Wake { now, deadline_offset } => {
                if self.phase == Phase::Idle {
                    let mode = self.mode.flip();
                    let deadline = now.transition_time(config.minutes_for(mode));
                    let time = clock_time(deadline, deadline_offset);
                    let message = broadcast_message(config.template_for(mode), time.as_str());
                    let request = send_request(config.room_id(), config.token(), message.as_str());
                    self.mode = mode;
                    self.phase = Phase::Sending;
                    self.deadline = deadline;
                    Action::Send(request)
                } else {
                    self.halt(Fault::OutOfTurn)
                }
            },
            Event::SendFinished(outcome) => {
                if self.phase == Phase::Sending {
                    match outcome {
                        Ok(id) => {
                            self.phase = Phase::Recording;
                            Action::AppendToLog(record_line(id.as_str()))
                        },
                        Err(error) => self.halt(Fault::SendFailed(error)),
                    }
                } else {
                    self.halt(Fault::OutOfTurn)
                }
            },
            Event::LogAppended { ok, now } => {
                if self.phase == Phase::Recording {
                    if !ok {
                        self.halt(Fault::LogNotWritten)
                    } else {
                        match now.seconds_until(self.deadline) {
                            Some(seconds) => {
                                self.phase = Phase::Idle;
                                Action::Sleep(seconds)
                            },
                            None => self.halt(Fault::DeadlinePassed),
                        }
                    }
                } else {
                    self.halt(Fault::OutOfTurn)
                }
            },
        }
    }

    /// Reads the clock and the time zone and makes the event that wakes
    /// the controller of them. If the transition that follows from the
    /// reading lies outside the years that the clock can hold, there is no
    /// such event, and the reading is handed back as the error.
    pub fn wake_event(&self, config: &Config) -> (event: Result<Event, LocalInstant>)
        ensures
            match event {
                Ok(woken) => {
                    &&& woken@ matches EventView::Wake { now, deadline_offset }
                    &&& now.valid()
                    &&& -SECONDS_PER_DAY < deadline_offset < SECONDS_PER_DAY
                    &&& EARLIEST_SECOND <= now.transition(config@.minutes(self.mode.flipped()))
                        <= LATEST_SECOND
                },
                Err(now) => {
                    &&& now@.valid()
                    &&& !(EARLIEST_SECOND <= now@.transition(config@.minutes(self.mode.flipped()))
                        <= LATEST_SECOND)
                },
            },
    {
        let reading = now();
        let deadline = reading.transition_time(config.minutes_for(self.mode.flip()));
        match local_offset_at(deadline) {
            Some(deadline_offset) => Ok(Event::Wake { now: reading, deadline_offset }),
            None => Err(reading),
        }
    }

    /// Reads the clock and makes the event that reports how an append to
    /// the log has ended.
    pub fn appended_event(ok: bool) -> (event: Event)
        ensures
            event@ matches EventView::LogAppended { ok: reported, now } && reported == ok
                && now.valid(),
    {
        Event::LogAppended { ok, now: now() }
    }
}

/// The content of the log after the events `events` have come one after
/// the other, beginning in `state` with a log that holds `log`: every
/// action that appends extends it, no other action touches it.
pub open spec fn log_after(
    state: ControllerView,
    config: ConfigView,
    events: Seq<EventView>,
    log: Seq<char>,
) -> Seq<char>
    decreases events.len(),
{
    if events.len() == 0 {
        log
    } else {
        let (next, action) = transition(state, config, events.first());
        let extended = match action {
            ActionView::AppendToLog(text) => log + text,
            _ => log,
        };
        log_after(next, config, events.drop_first(), extended)
    }
}

/// The identifiers of the sends that have succeeded after the events
/// `events` have come one after the other, beginning in `state` with the
/// identifiers `sent`: each report of a successful send that the
/// controller was waiting for adds its identifier.
pub open spec fn sent_after(
    state: ControllerView,
    config: ConfigView,
    events: Seq<EventView>,
    sent: Seq<Seq<char>>,
) -> Seq<Seq<char>>
    decreases events.len(),
{
    if events.len() == 0 {
        sent
    } else {
        let (next, _) = transition(state, config, events.first());
        let extended = match (state.phase, events.first()) {
            (Phase::Sending, EventView::SendFinished(Ok(id))) => sent.push(id),
            _ => sent,
        };
        sent_after(next, config, events.drop_first(), extended)
    }
}

/// Whether every identifier that the events report is one that the log
/// hands back as it was written.
pub open spec fn reports_valid_identifiers(events: Seq<EventView>) -> bool {
    forall|i: int|
        0 <= i < events.len() ==> (#[trigger] events[i] matches EventView::SendFinished(Ok(id))
            ==> valid_identifier(id))
}

/// The first transition after the start of the process is into work:
/// whatever the configuration and the time, waking the initial state
/// makes the mode `Working` and asks for the announcement to be sent.
pub proof fn lemma_first_transition_enters_work(
    config: ConfigView,
    now: InstantView,
    deadline_offset: int,
)
    ensures
        ({
            let (next, action) = transition(
                ControllerView::initial(),
                config,
                EventView::Wake { now, deadline_offset },
            );
            &&& next.mode == CycleState::Working
            &&& next.phase == Phase::Sending
            &&& action is Send
        }),
{
}

/// Every announcement is complete: its text is the broadcast marker and
/// the template of the mode with the clock time of the transition in the
/// place of every placeholder, so that no placeholder is left in it.
pub proof fn lemma_announcement_leaves_no_placeholder(
    config: ConfigView,
    mode: CycleState,
    deadline: int,
    deadline_offset: int,
)
    ensures
        ({
            let time = clock_text(second_of_day_at(deadline, deadline_offset));
            let text = substituted(config.template(mode), PLACEHOLDER@, time);
            &&& announcement(config, mode, deadline, deadline_offset).form == form_for(
                BROADCAST_MARKER@ + text,
            )
            &&& free_of(text, PLACEHOLDER@)
        }),
{
    lemma_clock_substitution_is_complete(
        config.template(mode),
        second_of_day_at(deadline, deadline_offset),
    );
}

/// The mode changes with every wake that the controller was waiting for,
/// and with nothing else: there is no turn of the cycle that stays in its
/// mode, and no other event touches the mode.
pub proof fn lemma_mode_flips_once_per_turn(
    state: ControllerView,
    config: ConfigView,
    event: EventView,
)
    ensures
        ({
            let (next, action) = transition(state, config, event);
            if state.phase == Phase::Idle && event is Wake {
                next.mode == state.mode.flipped() && next.mode != state.mode
            } else {
                next.mode == state.mode
            }
        }),
{
}

/// The identifier of a successful send is recorded exactly once: the
/// answer to its report is the append of its record, and no other event
/// is answered with an append.
pub proof fn lemma_identifier_is_recorded_once(
    state: ControllerView,
    config: ConfigView,
    event: EventView,
)
    ensures
        ({
            let (next, action) = transition(state, config, event);
            match (state.phase, event) {
                (Phase::Sending, EventView::SendFinished(Ok(id))) => action
                    == ActionView::AppendToLog(record_text(id)) && next.phase == Phase::Recording,
                _ => !(action is AppendToLog) && next.phase != Phase::Recording,
            }
        }),
{
}

/// The log is the record of the sends: if the log, read back, holds the
/// identifiers sent so far, then after any events it holds, read back,
/// the identifiers sent by then, in the order of sending. The identifiers
/// must be ones that the log hands back as they were written.
pub proof fn lemma_log_holds_what_was_sent(
    state: ControllerView,
    config: ConfigView,
    events: Seq<EventView>,
    log: Seq<char>,
    sent: Seq<Seq<char>>,
)
    requires
        terminated(log),
        log_entries(log) == sent,
        reports_valid_identifiers(events),
    ensures
        log_entries(log_after(state, config, events, log)) == sent_after(
            state,
            config,
            events,
            sent,
        ),
        terminated(log_after(state, config, events, log)),
    decreases events.len(),
{
    if events.len() > 0 {
        let event = events.first();
        let (next, action) = transition(state, config, event);
        let rest = events.drop_first();
        assert forall|i: int| 0 <= i < rest.len() implies (#[trigger] rest[i] matches EventView::SendFinished(
            Ok(id),
        ) ==> valid_identifier(id)) by {
            assert(rest[i] == events[i + 1]);
        }
        lemma_identifier_is_recorded_once(state, config, event);
        match (state.phase, event) {
            (Phase::Sending, EventView::SendFinished(Ok(id))) => {
                assert(events[0] == event);
                lemma_append_adds_one_entry(log, id);
                lemma_log_holds_what_was_sent(
                    next,
                    config,
                    rest,
                    log + record_text(id),
                    sent.push(id),
                );
            },
            _ => {
                lemma_log_holds_what_was_sent(next, config, rest, log, sent);
            },
        }
    }
}

} // verus!
