//! The runner as a pure machine: its state, and for each state and reply the
//! state that follows, the effects that are due and the next request.
//!
//! One iteration of a runner goes through its phases in a fixed order: it
//! drains the control queue, checks the heartbeat, waits for a frame, reports
//! a change of stage, carries out the action that the frame called for,
//! offers the event to the filters, dispatches it, and checks that the
//! connection is alive.

use crate::model::{
    ConnectionStage, ConnectionStatus, FilterId, GatewayError, InterMessage, ReconnectType,
    ShardAction, ShardClientMessage, ShardId, ShardInfo, ShardManagerMessage, ShardRunnerMessage,
};
use crate::protocol::{
    Arrival, ClientEvent, Command, ConnectionOp, DispatchEvent, Effect, Envelope, Event,
    EventKind, FilterKind, Handled, Outcome, Phase, Polled, Received, Reply, Request,
    ShardStageUpdateEvent, Step, VoiceSignal,
};
use vstd::prelude::*;

verus! {

/// The close code that a runner sends when its manager restarts it.
pub const RESTART_CLOSE_CODE: u16 = 4000;

/// The filters of a category that stay registered after an event was offered
/// to them: those whose verdict is `true`, in their order.
pub open spec fn kept(filters: Seq<FilterId>, verdicts: Seq<bool>) -> Seq<FilterId>
    recommends
        filters.len() == verdicts.len(),
    decreases filters.len(),
{
    if filters.len() == 0 {
        Seq::empty()
    } else {
        let before = kept(filters.drop_last(), verdicts.drop_last());
        if verdicts.last() {
            before.push(filters.last())
        } else {
            before
        }
    }
}

/// The category of filters that an event goes to because of its subtype, if
/// there is one. Every event goes to the filters of `FilterKind::Event` as
/// well.
pub open spec fn typed_filter(event: EventKind) -> Option<FilterKind> {
    match event {
        EventKind::MessageCreate => Some(FilterKind::Message),
        EventKind::ReactionAdd => Some(FilterKind::Reaction),
        EventKind::ReactionRemove => Some(FilterKind::Reaction),
        EventKind::ComponentInteraction => Some(FilterKind::ComponentInteraction),
        EventKind::ModalSubmit => Some(FilterKind::ModalInteraction),
        _ => None,
    }
}

/// The category that an event is offered to first.
pub open spec fn first_offer(event: EventKind) -> FilterKind {
    match typed_filter(event) {
        Some(kind) => kind,
        None => FilterKind::Event,
    }
}

/// The registered filters, by category, each in the order of registration.
pub ghost struct FilterSetView {
    pub event: Seq<FilterId>,
    pub message: Seq<FilterId>,
    pub reaction: Seq<FilterId>,
    pub component_interaction: Seq<FilterId>,
    pub modal_interaction: Seq<FilterId>,
}

impl FilterSetView {
    /// No filter in any category.
    pub open spec fn empty() -> FilterSetView {
        FilterSetView {
            event: Seq::empty(),
            message: Seq::empty(),
            reaction: Seq::empty(),
            component_interaction: Seq::empty(),
            modal_interaction: Seq::empty(),
        }
    }

    /// The filters of a category.
    pub open spec fn of(self, kind: FilterKind) -> Seq<FilterId> {
        match kind {
            FilterKind::Event => self.event,
            FilterKind::Message => self.message,
            FilterKind::Reaction => self.reaction,
            FilterKind::ComponentInteraction => self.component_interaction,
            FilterKind::ModalInteraction => self.modal_interaction,
        }
    }

    /// The set with the filters of one category replaced.
    pub open spec fn with(self, kind: FilterKind, filters: Seq<FilterId>) -> FilterSetView {
        match kind {
            FilterKind::Event => FilterSetView { event: filters, ..self },
            FilterKind::Message => FilterSetView { message: filters, ..self },
            FilterKind::Reaction => FilterSetView { reaction: filters, ..self },
            FilterKind::ComponentInteraction => FilterSetView {
                component_interaction: filters,
                ..self
            },
            FilterKind::ModalInteraction => FilterSetView { modal_interaction: filters, ..self },
        }
    }
}

/// The state of a runner.
pub ghost struct RunnerView {
    /// The shard that the runner is responsible for.
    pub shard: ShardInfo,
    /// Whether a voice subsystem is attached.
    pub voice: bool,
    pub phase: Phase,
    pub filters: FilterSetView,
}

/// The result of a transition.
pub ghost struct Transition {
    pub state: RunnerView,
    pub effects: Seq<Effect>,
    pub next: Request,
}

impl Transition {
    /// Whether a runner in state `after` and a step are what this transition
    /// says.
    pub open spec fn yields(self, after: RunnerView, step: Step) -> bool {
        self.state == after && self.effects == step.effects@ && self.next == step.next
    }
}

/// Whether a list of steps is the record of a session: as many steps as
/// transitions, each with the effects and the request of its transition.
pub open spec fn recorded(session: Seq<Transition>, steps: Seq<Step>) -> bool {
    &&& steps.len() == session.len()
    &&& forall|i: int|
        0 <= i < steps.len() ==> session[i].effects == (#[trigger] steps[i]).effects@
            && session[i].next == steps[i].next
}

/// The state of a runner after a session.
pub open spec fn state_after(start: RunnerView, session: Seq<Transition>) -> RunnerView {
    if session.len() == 0 {
        start
    } else {
        session.last().state
    }
}

/// The message that tells the manager how the connection stands.
pub open spec fn status_report(shard: ShardInfo, status: ConnectionStatus) -> ShardManagerMessage {
    ShardManagerMessage::ShardUpdate {
        id: ShardId(shard.index),
        latency: status.latency,
        stage: status.stage,
    }
}

/// The message that tells the manager of a failure that is not retried.
pub open spec fn failure_report(error: GatewayError) -> ShardManagerMessage {
    match error {
        GatewayError::InvalidAuthentication => ShardManagerMessage::ShardInvalidAuthentication,
        GatewayError::InvalidGatewayIntents => ShardManagerMessage::ShardInvalidGatewayIntents,
        GatewayError::DisallowedGatewayIntents => ShardManagerMessage::ShardDisallowedGatewayIntents,
    }
}

/// What a request for a restart consists of: the status goes to the manager,
/// then the request itself, then the voice routing of the shard is given up.
pub open spec fn restart_effects(shard: ShardInfo, voice: bool, status: ConnectionStatus) -> Seq<
    Effect,
> {
    let asked = seq![
        Effect::Notify(status_report(shard, status)),
        Effect::Notify(ShardManagerMessage::Restart(ShardId(shard.index))),
    ];
    if voice {
        asked.push(Effect::Voice(VoiceSignal::Deregister(shard.index)))
    } else {
        asked
    }
}

/// What a change of stage across the wait for a frame gives rise to: the
/// status goes to the manager, and the change to the handlers.
pub open spec fn stage_effects(shard: ShardInfo, pre: ConnectionStage, status: ConnectionStatus) -> Seq<
    Effect,
> {
    if status.stage != pre {
        seq![
            Effect::Notify(status_report(shard, status)),
            Effect::Dispatch {
                event: DispatchEvent::Client(
                    ClientEvent::ShardStageUpdate(
                        ShardStageUpdateEvent {
                            new: status.stage,
                            old: pre,
                            shard_id: ShardId(shard.index),
                        },
                    ),
                ),
                shard: shard.index,
            },
        ]
    } else {
        Seq::empty()
    }
}

/// What an event means to the voice subsystem.
pub open spec fn voice_effects(shard: ShardInfo, event: EventKind) -> Seq<Effect> {
    match event {
        EventKind::Ready => seq![Effect::Voice(VoiceSignal::Register(shard.index))],
        EventKind::VoiceServerUpdate(Some(guild)) => seq![
            Effect::Voice(VoiceSignal::ServerUpdate(guild)),
        ],
        EventKind::VoiceStateUpdate(Some(guild)) => seq![
            Effect::Voice(VoiceSignal::StateUpdate(guild)),
        ],
        _ => Seq::empty(),
    }
}

/// What a frame that the connection took gives rise to before anything is
/// decided: an acknowledged heartbeat is reported to the manager, and a
/// domain event is shown to the voice subsystem, if one is attached.
pub open spec fn frame_effects(
    shard: ShardInfo,
    voice: bool,
    envelope: Envelope,
    status: ConnectionStatus,
) -> Seq<Effect> {
    match envelope {
        Envelope::HeartbeatAck => seq![Effect::Notify(status_report(shard, status))],
        Envelope::Dispatch(event) => if voice {
            voice_effects(shard, event)
        } else {
            Seq::empty()
        },
        _ => Seq::empty(),
    }
}

/// The domain event of an envelope, if it carries one.
pub open spec fn event_of(envelope: Envelope) -> Option<EventKind> {
    match envelope {
        Envelope::Dispatch(event) => Some(event),
        _ => None,
    }
}

/// The operation that carries out an action. Reidentifying is no operation
/// of the connection: the runner asks to be restarted instead.
pub open spec fn operation(action: ShardAction) -> Option<ConnectionOp> {
    match action {
        ShardAction::Reconnect(ReconnectType::Reidentify) => None,
        ShardAction::Reconnect(ReconnectType::Resume) => Some(ConnectionOp::Resume),
        ShardAction::Heartbeat => Some(ConnectionOp::Heartbeat),
        ShardAction::Identify => Some(ConnectionOp::Identify),
    }
}

/// The command that a message addressed to the runner hands to the
/// connection, if it is one for the connection.
pub open spec fn runner_command(message: ShardRunnerMessage) -> Option<Command> {
    match message {
        ShardRunnerMessage::ChunkGuild { guild_id, limit, filter, nonce } => Some(
            Command::ChunkGuild { guild_id, limit, filter, nonce },
        ),
        ShardRunnerMessage::Close(code, reason) => Some(Command::Close { code, reason }),
        ShardRunnerMessage::Message(message) => Some(Command::Message(message)),
        ShardRunnerMessage::SetActivity(activity) => Some(Command::SetActivity(activity)),
        ShardRunnerMessage::SetPresence(status, activity) => Some(
            Command::SetPresence(status, activity),
        ),
        ShardRunnerMessage::SetStatus(status) => Some(Command::SetStatus(status)),
        _ => None,
    }
}

/// The filter that a message addressed to the runner registers, with its
/// category, if it registers one.
pub open spec fn registration(message: ShardRunnerMessage) -> Option<(FilterKind, FilterId)> {
    match message {
        ShardRunnerMessage::SetEventFilter(filter) => Some((FilterKind::Event, filter)),
        ShardRunnerMessage::SetMessageFilter(filter) => Some((FilterKind::Message, filter)),
        ShardRunnerMessage::SetReactionFilter(filter) => Some((FilterKind::Reaction, filter)),
        ShardRunnerMessage::SetComponentInteractionFilter(filter) => Some(
            (FilterKind::ComponentInteraction, filter),
        ),
        ShardRunnerMessage::SetModalInteractionFilter(filter) => Some(
            (FilterKind::ModalInteraction, filter),
        ),
        _ => None,
    }
}

/// The shard and the close code of the shutdown that a message of the manager
/// orders, if it orders one. A restart is a shutdown with the code
/// `RESTART_CLOSE_CODE`.
pub open spec fn shutdown_order(message: ShardManagerMessage) -> Option<(ShardId, u16)> {
    match message {
        ShardManagerMessage::Restart(id) => Some((id, RESTART_CLOSE_CODE)),
        ShardManagerMessage::Shutdown(id, code) => Some((id, code)),
        _ => None,
    }
}

impl RunnerView {
    /// A runner before its first iteration.
    pub open spec fn initial(shard: ShardInfo, voice: bool) -> RunnerView {
        RunnerView { shard, voice, phase: Phase::Draining, filters: FilterSetView::empty() }
    }

    /// The same runner in another phase.
    pub open spec fn at(self, phase: Phase) -> RunnerView {
        RunnerView { phase, ..self }
    }

    /// Whether a reply answers the request that is pending.
    pub open spec fn accepts(self, reply: Reply) -> bool {
        match (self.phase, reply) {
            (Phase::Draining, Reply::Polled(_)) => true,
            (Phase::Applying, Reply::Applied(_)) => true,
            (Phase::Leaving, Reply::Applied(_)) => true,
            (Phase::Closing(_), Reply::Applied(_)) => true,
            (Phase::AwaitingClose(_), Reply::Awaited(_)) => true,
            (Phase::Heartbeat, Reply::Heartbeat(_)) => true,
            (Phase::Receiving(_), Reply::Received(_)) => true,
            (Phase::Recovering(_), Reply::Performed(_)) => true,
            (Phase::Reporting(_), Reply::Delivered(_)) => true,
            (Phase::Acting(_), Reply::Performed(_)) => true,
            (Phase::Retrying(_), Reply::Performed(_)) => true,
            (Phase::Offering { kind, .. }, Reply::Verdicts(verdicts)) => verdicts@.len()
                == self.filters.of(kind).len(),
            _ => false,
        }
    }

    /// The runner goes back to its control queue.
    pub open spec fn resume_draining(self, effects: Seq<Effect>) -> Transition {
        Transition { state: self.at(Phase::Draining), effects, next: Request::Poll }
    }

    /// The runner ends.
    pub open spec fn stop(self, effects: Seq<Effect>, outcome: Outcome) -> Transition {
        Transition { state: self.at(Phase::Stopped(outcome)), effects, next: Request::Stop(outcome) }
    }

    /// The runner asks its manager for a restart and ends. It does not
    /// re-establish the connection itself.
    pub open spec fn request_restart(self, effects: Seq<Effect>, status: ConnectionStatus) -> Transition {
        self.stop(effects + restart_effects(self.shard, self.voice, status), Outcome::Finished)
    }

    /// A command goes to the connection. A close frame is the last thing
    /// that a runner hands to its connection: the runner ends once the
    /// connection has had it.
    pub open spec fn apply(self, command: Command) -> Transition {
        Transition {
            state: self.at(
                if command is Close {
                    Phase::Leaving
                } else {
                    Phase::Applying
                },
            ),
            effects: Seq::empty(),
            next: Request::Apply(command),
        }
    }

    /// A shutdown that the manager ordered. An order for another shard is
    /// left alone and the runner stays active. For its own shard the runner
    /// sends a close frame with the code and no reason.
    pub open spec fn checked_shutdown(self, id: ShardId, close_code: u16) -> Transition {
        if id.0 != self.shard.index {
            self.resume_draining(Seq::empty())
        } else {
            Transition {
                state: self.at(Phase::Closing(id)),
                effects: Seq::empty(),
                next: Request::Apply(Command::Close { code: close_code, reason: None }),
            }
        }
    }

    /// A filter is registered behind those of its category.
    pub open spec fn register(self, kind: FilterKind, filter: FilterId) -> Transition {
        RunnerView {
            filters: self.filters.with(kind, self.filters.of(kind).push(filter)),
            ..self
        }.resume_draining(Seq::empty())
    }

    /// A control message is taken from the queue.
    pub open spec fn handle_rx_value(self, value: InterMessage) -> Transition {
        match value {
            InterMessage::Json(payload) => self.apply(Command::Json(payload)),
            InterMessage::Client(message) => match *message {
                ShardClientMessage::Manager(message) => match shutdown_order(message) {
                    Some((id, close_code)) => self.checked_shutdown(id, close_code),
                    None => self.resume_draining(Seq::empty()),
                },
                ShardClientMessage::Runner(message) => match runner_command(message) {
                    Some(command) => self.apply(command),
                    None => match registration(message) {
                        Some((kind, filter)) => self.register(kind, filter),
                        None => self.resume_draining(Seq::empty()),
                    },
                },
            },
        }
    }

    /// The control queue was looked at. A message is handled at once. A queue
    /// without senders makes the runner ask for a restart. An empty queue
    /// lets the iteration go on to the heartbeat.
    pub open spec fn recv(self, polled: Polled, status: ConnectionStatus) -> Transition {
        match polled {
            Polled::Message(value) => self.handle_rx_value(value),
            Polled::Disconnected => self.request_restart(Seq::empty(), status),
            Polled::Empty => Transition {
                state: self.at(Phase::Heartbeat),
                effects: Seq::empty(),
                next: Request::CheckHeartbeat,
            },
        }
    }

    /// The end of an iteration. A wait that failed while the connection is
    /// not being established makes the runner ask for a restart.
    pub open spec fn conclude(self, effects: Seq<Effect>, successful: bool, status: ConnectionStatus) -> Transition {
        if !successful && !status.stage.connecting() {
            self.request_restart(effects, status)
        } else {
            self.resume_draining(effects)
        }
    }

    /// The event at hand is offered to the filters of a category.
    pub open spec fn offer(self, effects: Seq<Effect>, event: EventKind, kind: FilterKind) -> Transition {
        Transition {
            state: self.at(Phase::Offering { event, kind }),
            effects,
            next: Request::Offer(kind),
        }
    }

    /// The event of the frame, if there is one, goes to the filters and then
    /// to the handlers, and the iteration ends.
    pub open spec fn deliver(
        self,
        effects: Seq<Effect>,
        event: Option<EventKind>,
        successful: bool,
        status: ConnectionStatus,
    ) -> Transition {
        match event {
            Some(event) => self.offer(effects, event, first_offer(event)),
            None => self.conclude(effects, successful, status),
        }
    }

    /// What follows the wait for a frame. A change of stage is reported
    /// first. An action to reidentify makes the runner ask for a restart,
    /// whatever else holds; another action is carried out; without an action
    /// the event is delivered.
    pub open spec fn settle(
        self,
        pre: ConnectionStage,
        effects: Seq<Effect>,
        event: Option<EventKind>,
        action: Option<ShardAction>,
        successful: bool,
        status: ConnectionStatus,
    ) -> Transition {
        let effects = effects + stage_effects(self.shard, pre, status);
        match action {
            Some(action) => match operation(action) {
                None => self.request_restart(effects, status),
                Some(op) => Transition {
                    state: self.at(Phase::Acting(event)),
                    effects,
                    next: Request::Perform(op),
                },
            },
            None => self.deliver(effects, event, successful, status),
        }
    }

    /// The wait for a frame is over. `pre` is the stage before the wait.
    pub open spec fn recv_event(self, pre: ConnectionStage, received: Received, status: ConnectionStatus) -> Transition {
        match received {
            Received::Nothing => self.settle(pre, Seq::empty(), None, None, true, status),
            Received::IoError => match status.reconnection {
                ReconnectType::Reidentify => self.settle(pre, Seq::empty(), None, None, false, status),
                ReconnectType::Resume => Transition {
                    state: self.at(Phase::Recovering(pre)),
                    effects: Seq::empty(),
                    next: Request::Perform(ConnectionOp::Resume),
                },
            },
            Received::Frame { envelope, handled } => match handled {
                Handled::Proceed(action) => self.settle(
                    pre,
                    frame_effects(self.shard, self.voice, envelope, status),
                    event_of(envelope),
                    action,
                    true,
                    status,
                ),
                Handled::Fatal(error) => Transition {
                    state: self.at(Phase::Reporting(error)),
                    effects: Seq::empty(),
                    next: Request::Report(failure_report(error)),
                },
                Handled::Failed => self.settle(pre, Seq::empty(), None, None, true, status),
            },
        }
    }

    /// The action that a frame called for was carried out, or failed. After
    /// a failure the connection says how to reconnect: to reidentify is to
    /// ask for a restart, to resume is tried at once.
    pub open spec fn acted(self, event: Option<EventKind>, ok: bool, status: ConnectionStatus) -> Transition {
        if ok {
            self.deliver(Seq::empty(), event, true, status)
        } else {
            match status.reconnection {
                ReconnectType::Reidentify => self.request_restart(Seq::empty(), status),
                ReconnectType::Resume => Transition {
                    state: self.at(Phase::Retrying(event)),
                    effects: Seq::empty(),
                    next: Request::Perform(ConnectionOp::Resume),
                },
            }
        }
    }

    /// The resume after a failed action succeeded, or failed too.
    pub open spec fn retried(self, event: Option<EventKind>, ok: bool, status: ConnectionStatus) -> Transition {
        if ok {
            self.deliver(Seq::empty(), event, true, status)
        } else {
            self.request_restart(Seq::empty(), status)
        }
    }

    /// The filters of a category gave their verdicts. Those that are no
    /// longer interested leave the set. After the category of its subtype the
    /// event goes to the filters over every event, and after those to the
    /// handlers.
    pub open spec fn handle_filters(
        self,
        event: EventKind,
        kind: FilterKind,
        verdicts: Seq<bool>,
        status: ConnectionStatus,
    ) -> Transition {
        let compacted = RunnerView {
            filters: self.filters.with(kind, kept(self.filters.of(kind), verdicts)),
            ..self
        };
        if kind != FilterKind::Event {
            compacted.offer(Seq::empty(), event, FilterKind::Event)
        } else {
            compacted.conclude(
                seq![Effect::Dispatch { event: DispatchEvent::Model(event), shard: self.shard.index }],
                true,
                status,
            )
        }
    }

    /// The close frame of the service came, or something else did.
    pub open spec fn awaited(self, id: ShardId, arrival: Arrival) -> Transition {
        match arrival {
            Arrival::Other => Transition {
                state: self,
                effects: Seq::empty(),
                next: Request::AwaitClose,
            },
            _ => self.stop(
                seq![Effect::Notify(ShardManagerMessage::ShutdownFinished(id))],
                Outcome::Finished,
            ),
        }
    }

    /// The transition that a reply brings about. `status` is the state of
    /// the connection as the reply was given. It is meaningful where
    /// `accepts` holds.
    pub open spec fn step(self, reply: Reply, status: ConnectionStatus) -> Transition {
        match (self.phase, reply) {
            (Phase::Draining, Reply::Polled(polled)) => self.recv(polled, status),
            (Phase::Applying, Reply::Applied(ok)) => if ok {
                self.resume_draining(Seq::empty())
            } else {
                self.stop(Seq::empty(), Outcome::Finished)
            },
            (Phase::Leaving, Reply::Applied(_)) => self.stop(Seq::empty(), Outcome::Finished),
            (Phase::Closing(id), Reply::Applied(_)) => Transition {
                state: self.at(Phase::AwaitingClose(id)),
                effects: Seq::empty(),
                next: Request::AwaitClose,
            },
            (Phase::AwaitingClose(id), Reply::Awaited(arrival)) => self.awaited(id, arrival),
            (Phase::Heartbeat, Reply::Heartbeat(ok)) => if ok {
                Transition {
                    state: self.at(Phase::Receiving(status.stage)),
                    effects: Seq::empty(),
                    next: Request::Receive,
                }
            } else {
                self.request_restart(Seq::empty(), status)
            },
            (Phase::Receiving(pre), Reply::Received(received)) => self.recv_event(
                pre,
                received,
                status,
            ),
            (Phase::Recovering(pre), Reply::Performed(ok)) => self.settle(
                pre,
                Seq::empty(),
                None,
                None,
                ok,
                status,
            ),
            (Phase::Reporting(error), Reply::Delivered(ok)) => self.stop(
                Seq::empty(),
                if ok {
                    Outcome::Failed(error)
                } else {
                    Outcome::ManagerUnreachable(error)
                },
            ),
            (Phase::Acting(event), Reply::Performed(ok)) => self.acted(event, ok, status),
            (Phase::Retrying(event), Reply::Performed(ok)) => self.retried(event, ok, status),
            (Phase::Offering { event, kind }, Reply::Verdicts(verdicts)) => self.handle_filters(
                event,
                kind,
                verdicts@,
                status,
            ),
            _ => Transition { state: self, effects: Seq::empty(), next: Request::Poll },
        }
    }

    /// The transitions of a session. The replies are taken in order for as
    /// long as each answers the pending request; the first that does not
    /// ends the session. A runner that has ended accepts none.
    pub open spec fn run(self, events: Seq<Event>) -> Seq<Transition>
        decreases events.len(),
    {
        if events.len() == 0 || !self.accepts(events[0].reply) {
            Seq::empty()
        } else {
            let first = self.step(events[0].reply, events[0].status);
            seq![first] + first.state.run(events.drop_first())
        }
    }
}

} // verus!
