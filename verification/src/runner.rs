//! The runner of one shard.
//!
//! The application owns the connection and drives the runner: it starts with
//! [`Request::Poll`], carries out each request, and passes the reply to
//! [`ShardRunner::step`] together with the status of the connection at that
//! moment. Two requests the runner serves from its own queues:
//! [`ShardRunner::recv`] answers `Poll` from the control queue, and
//! [`ShardRunner::report`] answers `Report` through the queue of the manager.
//! The effects of a step are carried out in order, each after a pass through
//! [`ShardRunner::perform`], which sends the notifications to the manager and
//! hands back what is left to the application.

use crate::channel::{control_queue, poll_control, send_to_manager};
use crate::filters::{typed_filter, FilterSet};
use crate::machine::{
    frame_effects, operation, recorded, restart_effects, stage_effects, state_after,
    status_report, voice_effects, RunnerView, Transition, RESTART_CLOSE_CODE,
};
use crate::model::{
    ConnectionStage, ConnectionStatus, FilterId, GatewayError, InterMessage, ReconnectType,
    ShardAction, ShardClientMessage, ShardId, ShardInfo, ShardManagerMessage, ShardRunnerMessage,
};
use crate::protocol::{
    Arrival, ClientEvent, Command, ConnectionOp, DispatchEvent, Effect, Envelope, Event,
    EventKind, FilterKind, Handled, Outcome, Phase, Polled, Received, Reply, Request,
    ShardStageUpdateEvent, Step, VoiceSignal,
};
use futures::channel::mpsc::{UnboundedReceiver, UnboundedSender};
use vstd::prelude::*;

verus! {

/// What a runner is made from.
pub struct ShardRunnerOptions {
    /// The queue on which the manager takes the messages of its runners.
    pub manager_tx: UnboundedSender<ShardManagerMessage>,
    /// The shard that the runner is responsible for.
    pub shard: ShardInfo,
    /// Whether a voice subsystem is attached.
    pub voice: bool,
}

/// A runner for one shard and its connection.
pub struct ShardRunner {
    manager_tx: UnboundedSender<ShardManagerMessage>,
    // The control queue. The runner keeps a sender of its own, so that the
    // queue cannot lose its last sender while the runner lives.
    runner_rx: UnboundedReceiver<InterMessage>,
    runner_tx: UnboundedSender<InterMessage>,
    shard: ShardInfo,
    voice: bool,
    phase: Phase,
    filters: FilterSet,
}

impl View for ShardRunner {
    type V = RunnerView;

    closed spec fn view(&self) -> RunnerView {
        RunnerView { shard: self.shard, voice: self.voice, phase: self.phase, filters: self.filters@ }
    }
}

/// The message that tells the manager of a failure that is not retried.
pub fn failure_report(error: GatewayError) -> (report: ShardManagerMessage)
    ensures
        report == crate::machine::failure_report(error),
{
    match error {
        GatewayError::InvalidAuthentication => ShardManagerMessage::ShardInvalidAuthentication,
        GatewayError::InvalidGatewayIntents => ShardManagerMessage::ShardInvalidGatewayIntents,
        GatewayError::DisallowedGatewayIntents => ShardManagerMessage::ShardDisallowedGatewayIntents,
    }
}

impl ShardRunner {
    /// The sender into its own control queue that the runner was made with.
    /// The runner keeps it for as long as it lives, whatever it is told, so
    /// that its queue never loses its last sender.
    pub closed spec fn control_sender(&self) -> UnboundedSender<InterMessage> {
        self.runner_tx
    }

    /// The sender into the queue of the manager that the runner was made
    /// with. The runner keeps it for as long as it lives: every notification
    /// and every report of a failure goes through it.
    pub closed spec fn manager_sender(&self) -> UnboundedSender<ShardManagerMessage> {
        self.manager_tx
    }

    /// Creates a runner for a shard, with the sender to its manager that
    /// the options hold, a control queue of its own and no filters. It
    /// starts by draining that queue.
    pub fn new(opt: ShardRunnerOptions) -> (runner: ShardRunner)
        ensures
            runner@ == RunnerView::initial(opt.shard, opt.voice),
            runner.manager_sender() == opt.manager_tx,
    {
        let (tx, rx) = control_queue();
        ShardRunner {
            manager_tx: opt.manager_tx,
            runner_rx: rx,
            runner_tx: tx,
            shard: opt.shard,
            voice: opt.voice,
            phase: Phase::Draining,
            filters: FilterSet::new(),
        }
    }

    /// The sender that the runner keeps into its own control queue. Whoever
    /// is to send control messages to the runner takes a clone of it.
    pub fn runner_tx(&self) -> (tx: &UnboundedSender<InterMessage>)
        ensures
            *tx == self.control_sender(),
    {
        &self.runner_tx
    }

    /// The shard that the runner is responsible for.
    pub fn shard_info(&self) -> (shard: ShardInfo)
        ensures
            shard == self@.shard,
    {
        self.shard
    }

    /// The phase that the runner is in.
    pub fn phase(&self) -> (phase: Phase)
        ensures
            phase == self@.phase,
    {
        self.phase
    }

    /// The filters of a category, in the order in which an event is offered
    /// to them. The verdicts that answer `Request::Offer` come in this order.
    pub fn filters(&self, kind: FilterKind) -> (filters: &Vec<FilterId>)
        ensures
            filters@ == self@.filters.of(kind),
    {
        self.filters.of(kind)
    }

    /// Whether a reply answers the request that is pending.
    pub fn accepts(&self, reply: &Reply) -> (accepted: bool)
        ensures
            accepted == self@.accepts(*reply),
    {
        match (self.phase, reply) {
            (Phase::Draining, Reply::Polled(_)) => true,
            (Phase::Applying, Reply::Applied(_)) => true,
            (Phase::Leaving, Reply::Applied(_)) => true,
            (Phase::Closing(_), Reply::Applied(_)) => true,
            (Phase::AwaitingClose(_), Reply::Awaited(_)) => true,
            (Phase::Heartbeat, Reply::Heartbeat(_)) => true,
            (Phase::Receiving(_), Reply::Received(_)) => true,
            (Phase::Recovering(_), Reply::Performed(_)) => true,
            (Phase::Reporting(_), Reply::Delivered(_)) => true,
            (Phase::Acting(_), Reply::Performed(_)) => true,
            (Phase::Retrying(_), Reply::Performed(_)) => true,
            (Phase::Offering { kind, .. }, Reply::Verdicts(verdicts)) => verdicts.len()
                == self.filters.of(kind).len(),
            _ => false,
        }
    }

    /// Adds to `effects` the report of the connection's status to the
    /// manager.
    fn update_manager(&self, effects: &mut Vec<Effect>, status: ConnectionStatus)
        ensures
            final(effects)@ == old(effects)@.push(
                Effect::Notify(status_report(self@.shard, status)),
            ),
    {
        effects.push(
            Effect::Notify(
                ShardManagerMessage::ShardUpdate {
                    id: ShardId(self.shard.index),
                    latency: status.latency,
                    stage: status.stage,
                },
            ),
        );
    }

    /// Adds to `effects` the dispatch of an event to the handlers, under the
    /// index of this shard.
    fn dispatch(&self, effects: &mut Vec<Effect>, event: DispatchEvent)
        ensures
            final(effects)@ == old(effects)@.push(
                Effect::Dispatch { event, shard: self@.shard.index },
            ),
    {
        effects.push(Effect::Dispatch { event, shard: self.shard.index });
    }

    /// Adds to `effects` what an event means to the voice subsystem.
    fn handle_voice_event(&self, effects: &mut Vec<Effect>, event: EventKind)
        ensures
            final(effects)@ == old(effects)@ + voice_effects(self@.shard, event),
    {
        let ghost before = effects@;
        match event {
            EventKind::Ready => {
                effects.push(Effect::Voice(VoiceSignal::Register(self.shard.index)));
            },
            EventKind::VoiceServerUpdate(Some(guild)) => {
                effects.push(Effect::Voice(VoiceSignal::ServerUpdate(guild)));
            },
            EventKind::VoiceStateUpdate(Some(guild)) => {
                effects.push(Effect::Voice(VoiceSignal::StateUpdate(guild)));
            },
            _ => {},
        }
        assert(effects@ =~= before + voice_effects(self@.shard, event));
    }

    /// Goes back to the control queue.
    fn resume_draining(&mut self, effects: Vec<Effect>) -> (step: Step)
        ensures
            final(self).control_sender() == old(self).control_sender(),
            final(self).manager_sender() == old(self).manager_sender(),
            old(self)@.resume_draining(effects@).yields(final(self)@, step),
    {
        self.phase = Phase::Draining;
        Step { effects, next: Request::Poll }
    }

    /// Ends the runner.
    fn stop(&mut self, effects: Vec<Effect>, outcome: Outcome) -> (step: Step)
        ensures
            final(self).control_sender() == old(self).control_sender(),
            final(self).manager_sender() == old(self).manager_sender(),
            old(self)@.stop(effects@, outcome).yields(final(self)@, step),
    {
        self.phase = Phase::Stopped(outcome);
        Step { effects, next: Request::Stop(outcome) }
    }

    /// Asks the manager for a restart and ends the runner: the status goes to
    /// the manager, then the request, then the voice routing is given up.
    fn request_restart(&mut self, effects: Vec<Effect>, status: ConnectionStatus) -> (step: Step)
        ensures
            final(self).control_sender() == old(self).control_sender(),
            final(self).manager_sender() == old(self).manager_sender(),
            old(self)@.request_restart(effects@, status).yields(final(self)@, step),
    {
        let ghost before = effects@;
        let mut effects = effects;
        self.update_manager(&mut effects, status);
        effects.push(Effect::Notify(ShardManagerMessage::Restart(ShardId(self.shard.index))));
        if self.voice {
            effects.push(Effect::Voice(VoiceSignal::Deregister(self.shard.index)));
        }
        assert(effects@ =~= before + restart_effects(self@.shard, self@.voice, status));
        self.stop(effects, Outcome::Finished)
    }

    /// Hands a command to the connection. After a close frame the runner
    /// ends.
    fn apply(&mut self, command: Command) -> (step: Step)
        ensures
            final(self).control_sender() == old(self).control_sender(),
            final(self).manager_sender() == old(self).manager_sender(),
            old(self)@.apply(command).yields(final(self)@, step),
    {
        self.phase = match command {
            Command::Close { .. } => Phase::Leaving,
            _ => Phase::Applying,
        };
        Step { effects: Vec::new(), next: Request::Apply(command) }
    }

    /// Takes an order of the manager to shut down. An order for another
    /// shard is left alone. For its own shard the runner sends a close frame
    /// with the code.
    fn checked_shutdown(&mut self, id: ShardId, close_code: u16) -> (step: Step)
        ensures
            final(self).control_sender() == old(self).control_sender(),
            final(self).manager_sender() == old(self).manager_sender(),
            old(self)@.checked_shutdown(id, close_code).yields(final(self)@, step),
    {
        if id.0 != self.shard.index {
            // Not meant for this runner: it stays active.
            return self.resume_draining(Vec::new());
        }
        self.phase = Phase::Closing(id);
        Step {
            effects: Vec::new(),
            next: Request::Apply(Command::Close { code: close_code, reason: None }),
        }
    }

    /// Registers a filter.
    fn register(&mut self, kind: FilterKind, filter: FilterId) -> (step: Step)
        ensures
            final(self).control_sender() == old(self).control_sender(),
            final(self).manager_sender() == old(self).manager_sender(),
            old(self)@.register(kind, filter).yields(final(self)@, step),
    {
        self.filters.push(kind, filter);
        self.resume_draining(Vec::new())
    }

    /// Handles a message taken from the control queue.
    fn handle_rx_value(&mut self, value: InterMessage) -> (step: Step)
        ensures
            final(self).control_sender() == old(self).control_sender(),
            final(self).manager_sender() == old(self).manager_sender(),
            old(self)@.handle_rx_value(value).yields(final(self)@, step),
    {
        match value {
            InterMessage::Client(message) => match *message {
                ShardClientMessage::Manager(ShardManagerMessage::Restart(id)) => {
                    self.checked_shutdown(id, RESTART_CLOSE_CODE)
                },
                ShardClientMessage::Manager(ShardManagerMessage::Shutdown(id, code)) => {
                    self.checked_shutdown(id, code)
                },
                ShardClientMessage::Manager(ShardManagerMessage::ShutdownAll) => {
                    // Never meant for a runner.
                    self.resume_draining(Vec::new())
                },
                ShardClientMessage::Manager(
                    ShardManagerMessage::ShardUpdate { .. }
                    | ShardManagerMessage::ShutdownInitiated
                    | ShardManagerMessage::ShutdownFinished(_),
                ) => {
                    // What runners send, not what they take.
                    self.resume_draining(Vec::new())
                },
                ShardClientMessage::Manager(
                    ShardManagerMessage::ShardDisallowedGatewayIntents
                    | ShardManagerMessage::ShardInvalidAuthentication
                    | ShardManagerMessage::ShardInvalidGatewayIntents,
                ) => {
                    // Never meant for a runner.
                    self.resume_draining(Vec::new())
                },
                ShardClientMessage::Runner(
                    ShardRunnerMessage::ChunkGuild { guild_id, limit, filter, nonce },
                ) => self.apply(Command::ChunkGuild { guild_id, limit, filter, nonce }),
                ShardClientMessage::Runner(ShardRunnerMessage::Close(code, reason)) => {
                    self.apply(Command::Close { code, reason })
                },
                ShardClientMessage::Runner(ShardRunnerMessage::Message(message)) => {
                    self.apply(Command::Message(message))
                },
                ShardClientMessage::Runner(ShardRunnerMessage::SetActivity(activity)) => {
                    self.apply(Command::SetActivity(activity))
                },
                ShardClientMessage::Runner(ShardRunnerMessage::SetPresence(status, activity)) => {
                    self.apply(Command::SetPresence(status, activity))
                },
                ShardClientMessage::Runner(ShardRunnerMessage::SetStatus(status)) => {
                    self.apply(Command::SetStatus(status))
                },
                ShardClientMessage::Runner(ShardRunnerMessage::SetEventFilter(filter)) => {
                    self.register(FilterKind::Event, filter)
                },
                ShardClientMessage::Runner(ShardRunnerMessage::SetMessageFilter(filter)) => {
                    self.register(FilterKind::Message, filter)
                },
                ShardClientMessage::Runner(ShardRunnerMessage::SetReactionFilter(filter)) => {
                    self.register(FilterKind::Reaction, filter)
                },
                ShardClientMessage::Runner(
                    ShardRunnerMessage::SetComponentInteractionFilter(filter),
                ) => self.register(FilterKind::ComponentInteraction, filter),
                ShardClientMessage::Runner(
                    ShardRunnerMessage::SetModalInteractionFilter(filter),
                ) => self.register(FilterKind::ModalInteraction, filter),
            },
            InterMessage::Json(payload) => self.apply(Command::Json(payload)),
        }
    }

    /// Takes what a look at the control queue found.
    fn polled(&mut self, polled: Polled, status: ConnectionStatus) -> (step: Step)
        ensures
            final(self).control_sender() == old(self).control_sender(),
            final(self).manager_sender() == old(self).manager_sender(),
            old(self)@.recv(polled, status).yields(final(self)@, step),
    {
        match polled {
            Polled::Message(value) => self.handle_rx_value(value),
            Polled::Disconnected => {
                // Cannot happen while the runner keeps its own sender.
                self.request_restart(Vec::new(), status)
            },
            Polled::Empty => {
                self.phase = Phase::Heartbeat;
                Step { effects: Vec::new(), next: Request::CheckHeartbeat }
            },
        }
    }

    /// Ends an iteration.
    fn conclude(&mut self, effects: Vec<Effect>, successful: bool, status: ConnectionStatus) -> (step:
        Step)
        ensures
            final(self).control_sender() == old(self).control_sender(),
            final(self).manager_sender() == old(self).manager_sender(),
            old(self)@.conclude(effects@, successful, status).yields(final(self)@, step),
    {
        if !successful && !status.stage.is_connecting() {
            self.request_restart(effects, status)
        } else {
            self.resume_draining(effects)
        }
    }

    /// Offers the event at hand to the filters of a category.
    fn offer(&mut self, effects: Vec<Effect>, event: EventKind, kind: FilterKind) -> (step: Step)
        ensures
            final(self).control_sender() == old(self).control_sender(),
            final(self).manager_sender() == old(self).manager_sender(),
            old(self)@.offer(effects@, event, kind).yields(final(self)@, step),
    {
        self.phase = Phase::Offering { event, kind };
        Step { effects, next: Request::Offer(kind) }
    }

    /// Sends the event of the frame, if there is one, on its way to the
    /// filters and the handlers; without one the iteration ends.
    fn deliver(
        &mut self,
        effects: Vec<Effect>,
        event: Option<EventKind>,
        successful: bool,
        status: ConnectionStatus,
    ) -> (step: Step)
        ensures
            final(self).control_sender() == old(self).control_sender(),
            final(self).manager_sender() == old(self).manager_sender(),
            old(self)@.deliver(effects@, event, successful, status).yields(final(self)@, step),
    {
        match event {
            Some(event) => {
                let kind = match typed_filter(event) {
                    Some(kind) => kind,
                    None => FilterKind::Event,
                };
                self.offer(effects, event, kind)
            },
            None => self.conclude(effects, successful, status),
        }
    }

    /// Takes an action that the connection has asked for. To reidentify is
    /// to ask for a restart; the other actions are operations of the
    /// connection.
    fn action(
        &mut self,
        effects: Vec<Effect>,
        action: ShardAction,
        event: Option<EventKind>,
        status: ConnectionStatus,
    ) -> (step: Step)
        ensures
            final(self).control_sender() == old(self).control_sender(),
            final(self).manager_sender() == old(self).manager_sender(),
            match operation(action) {
                None => old(self)@.request_restart(effects@, status).yields(final(self)@, step),
                Some(op) => final(self)@ == old(self)@.at(Phase::Acting(event)) && step.effects@
                    == effects@ && step.next == Request::Perform(op),
            },
    {
        let op = match action {
            ShardAction::Reconnect(ReconnectType::Reidentify) => {
                return self.request_restart(effects, status);
            },
            ShardAction::Reconnect(ReconnectType::Resume) => ConnectionOp::Resume,
            ShardAction::Heartbeat => ConnectionOp::Heartbeat,
            ShardAction::Identify => ConnectionOp::Identify,
        };
        self.phase = Phase::Acting(event);
        Step { effects, next: Request::Perform(op) }
    }

    /// Goes on after the wait for a frame.
    fn settle(
        &mut self,
        pre: ConnectionStage,
        effects: Vec<Effect>,
        event: Option<EventKind>,
        action: Option<ShardAction>,
        successful: bool,
        status: ConnectionStatus,
    ) -> (step: Step)
        ensures
            final(self).control_sender() == old(self).control_sender(),
            final(self).manager_sender() == old(self).manager_sender(),
            old(self)@.settle(pre, effects@, event, action, successful, status).yields(
                final(self)@,
                step,
            ),
    {
        let ghost before = effects@;
        let mut effects = effects;
        if status.stage != pre {
            self.update_manager(&mut effects, status);
            self.dispatch(
                &mut effects,
                DispatchEvent::Client(
                    ClientEvent::ShardStageUpdate(
                        ShardStageUpdateEvent {
                            new: status.stage,
                            old: pre,
                            shard_id: ShardId(self.shard.index),
                        },
                    ),
                ),
            );
        }
        assert(effects@ =~= before + stage_effects(self@.shard, pre, status));
        match action {
            Some(action) => self.action(effects, action, event, status),
            None => self.deliver(effects, event, successful, status),
        }
    }

    /// Takes the outcome of the wait for a frame. `pre` is the stage of the
    /// connection before the wait.
    fn recv_event(&mut self, pre: ConnectionStage, received: Received, status: ConnectionStatus) -> (step:
        Step)
        ensures
            final(self).control_sender() == old(self).control_sender(),
            final(self).manager_sender() == old(self).manager_sender(),
            old(self)@.recv_event(pre, received, status).yields(final(self)@, step),
    {
        match received {
            Received::Nothing => self.settle(pre, Vec::new(), None, None, true, status),
            Received::IoError => match status.reconnection {
                ReconnectType::Reidentify => self.settle(pre, Vec::new(), None, None, false, status),
                ReconnectType::Resume => {
                    self.phase = Phase::Recovering(pre);
                    Step { effects: Vec::new(), next: Request::Perform(ConnectionOp::Resume) }
                },
            },
            Received::Frame { envelope, handled } => match handled {
                Handled::Proceed(action) => {
                    let mut effects = Vec::new();
                    let mut event = None;
                    match envelope {
                        Envelope::HeartbeatAck => {
                            self.update_manager(&mut effects, status);
                        },
                        Envelope::Dispatch(kind) => {
                            if self.voice {
                                self.handle_voice_event(&mut effects, kind);
                            }
                            event = Some(kind);
                        },
                        _ => {},
                    }
                    assert(effects@ =~= frame_effects(self@.shard, self@.voice, envelope, status));
                    self.settle(pre, effects, event, action, true, status)
                },
                Handled::Fatal(error) => {
                    self.phase = Phase::Reporting(error);
                    Step { effects: Vec::new(), next: Request::Report(failure_report(error)) }
                },
                Handled::Failed => self.settle(pre, Vec::new(), None, None, true, status),
            },
        }
    }

    /// Takes the verdicts of the filters of a category on the event at hand,
    /// and drops the filters that are no longer interested.
    fn handle_filters(
        &mut self,
        event: EventKind,
        kind: FilterKind,
        verdicts: &Vec<bool>,
        status: ConnectionStatus,
    ) -> (step: Step)
        requires
            verdicts@.len() == old(self)@.filters.of(kind).len(),
        ensures
            final(self).control_sender() == old(self).control_sender(),
            final(self).manager_sender() == old(self).manager_sender(),
            old(self)@.handle_filters(event, kind, verdicts@, status).yields(final(self)@, step),
    {
        let taken = self.filters.retain(kind, verdicts);
        assert(taken);
        match kind {
            FilterKind::Event => {
                let mut effects = Vec::new();
                self.dispatch(&mut effects, DispatchEvent::Model(event));
                assert(effects@ =~= seq![
                    Effect::Dispatch { event: DispatchEvent::Model(event), shard: self@.shard.index },
                ]);
                self.conclude(effects, true, status)
            },
            _ => self.offer(Vec::new(), event, FilterKind::Event),
        }
    }

    /// Takes the outcome of the action that a frame called for. After a
    /// failure the connection says how to reconnect: to reidentify is to ask
    /// for a restart, to resume is tried at once.
    fn acted(&mut self, event: Option<EventKind>, ok: bool, status: ConnectionStatus) -> (step: Step)
        ensures
            final(self).control_sender() == old(self).control_sender(),
            final(self).manager_sender() == old(self).manager_sender(),
            old(self)@.acted(event, ok, status).yields(final(self)@, step),
    {
        if ok {
            return self.deliver(Vec::new(), event, true, status);
        }
        match status.reconnection {
            ReconnectType::Reidentify => self.request_restart(Vec::new(), status),
            ReconnectType::Resume => {
                self.phase = Phase::Retrying(event);
                Step { effects: Vec::new(), next: Request::Perform(ConnectionOp::Resume) }
            },
        }
    }

    /// Takes the outcome of the resume that followed a failed action.
    fn retried(&mut self, event: Option<EventKind>, ok: bool, status: ConnectionStatus) -> (step:
        Step)
        ensures
            final(self).control_sender() == old(self).control_sender(),
            final(self).manager_sender() == old(self).manager_sender(),
            old(self)@.retried(event, ok, status).yields(final(self)@, step),
    {
        if ok {
            self.deliver(Vec::new(), event, true, status)
        } else {
            self.request_restart(Vec::new(), status)
        }
    }

    /// Takes what came while the close frame of the service was awaited. The
    /// close frame or a failure of the connection ends the shutdown, and the
    /// manager is told; anything else is waited out.
    fn awaited(&mut self, id: ShardId, arrival: Arrival) -> (step: Step)
        ensures
            final(self).control_sender() == old(self).control_sender(),
            final(self).manager_sender() == old(self).manager_sender(),
            old(self)@.awaited(id, arrival).yields(final(self)@, step),
    {
        match arrival {
            Arrival::Other => Step { effects: Vec::new(), next: Request::AwaitClose },
            Arrival::Close | Arrival::Error => {
                let mut effects = Vec::new();
                effects.push(Effect::Notify(ShardManagerMessage::ShutdownFinished(id)));
                assert(effects@ =~= seq![Effect::Notify(ShardManagerMessage::ShutdownFinished(id))]);
                self.stop(effects, Outcome::Finished)
            },
        }
    }

    /// Takes the reply to the pending request and says what is to be done
    /// next. `status` is the state of the connection as the reply was given.
    /// A reply that does not answer the pending request is not taken: the
    /// runner stays as it is, and the result is `None`.
    pub fn step(&mut self, reply: Reply, status: ConnectionStatus) -> (step: Option<Step>)
        ensures
            final(self).control_sender() == old(self).control_sender(),
            final(self).manager_sender() == old(self).manager_sender(),
            step is Some <==> old(self)@.accepts(reply),
            step matches Some(step) ==> old(self)@.step(reply, status).yields(final(self)@, step),
            step is None ==> final(self)@ == old(self)@,
    {
        match (self.phase, reply) {
            (Phase::Draining, Reply::Polled(polled)) => Some(self.polled(polled, status)),
            (Phase::Applying, Reply::Applied(ok)) => {
                if ok {
                    Some(self.resume_draining(Vec::new()))
                } else {
                    Some(self.stop(Vec::new(), Outcome::Finished))
                }
            },
            (Phase::Leaving, Reply::Applied(_)) => {
                // The close frame was the last word of this runner.
                Some(self.stop(Vec::new(), Outcome::Finished))
            },
            (Phase::Closing(id), Reply::Applied(_)) => {
                // Whether or not the close frame went out, the wait decides.
                self.phase = Phase::AwaitingClose(id);
                Some(Step { effects: Vec::new(), next: Request::AwaitClose })
            },
            (Phase::AwaitingClose(id), Reply::Awaited(arrival)) => Some(self.awaited(id, arrival)),
            (Phase::Heartbeat, Reply::Heartbeat(ok)) => {
                if ok {
                    self.phase = Phase::Receiving(status.stage);
                    Some(Step { effects: Vec::new(), next: Request::Receive })
                } else {
                    Some(self.request_restart(Vec::new(), status))
                }
            },
            (Phase::Receiving(pre), Reply::Received(received)) => Some(
                self.recv_event(pre, received, status),
            ),
            (Phase::Recovering(pre), Reply::Performed(ok)) => Some(
                self.settle(pre, Vec::new(), None, None, ok, status),
            ),
            (Phase::Reporting(error), Reply::Delivered(ok)) => {
                let outcome = if ok {
                    Outcome::Failed(error)
                } else {
                    Outcome::ManagerUnreachable(error)
                };
                Some(self.stop(Vec::new(), outcome))
            },
            (Phase::Acting(event), Reply::Performed(ok)) => Some(self.acted(event, ok, status)),
            (Phase::Retrying(event), Reply::Performed(ok)) => Some(self.retried(event, ok, status)),
            (Phase::Offering { event, kind }, Reply::Verdicts(verdicts)) => {
                if verdicts.len() == self.filters.of(kind).len() {
                    Some(self.handle_filters(event, kind, &verdicts, status))
                } else {
                    None
                }
            },
            _ => None,
        }
    }

    /// Answers `Request::Poll` from the control queue of this runner: looks
    /// at the queue without waiting and takes what it finds. Whatever it
    /// finds, the result is the step that `step` gives for it. In another
    /// phase than draining the queue is left alone, and the result is `None`.
    pub fn recv(&mut self, status: ConnectionStatus) -> (step: Option<Step>)
        ensures
            final(self).control_sender() == old(self).control_sender(),
            final(self).manager_sender() == old(self).manager_sender(),
            step is Some <==> old(self)@.phase == Phase::Draining,
            step matches Some(step) ==> exists|polled: Polled| #[trigger]
                old(self)@.recv(polled, status).yields(final(self)@, step),
            step is None ==> final(self)@ == old(self)@,
    {
        match self.phase {
            Phase::Draining => {
                let polled = poll_control(&mut self.runner_rx);
                let step = self.polled(polled, status);
                assert(old(self)@.recv(polled, status).yields(self@, step));
                Some(step)
            },
            _ => None,
        }
    }

    /// Answers `Request::Report`: sends the failure at hand to the manager
    /// and ends the runner. If the manager took the message, the outcome is
    /// `Outcome::Failed`, else `Outcome::ManagerUnreachable`. In another
    /// phase than reporting nothing is sent, and the result is `None`.
    pub fn report(&mut self, status: ConnectionStatus) -> (step: Option<Step>)
        ensures
            final(self).control_sender() == old(self).control_sender(),
            final(self).manager_sender() == old(self).manager_sender(),
            step is Some <==> old(self)@.phase is Reporting,
            step matches Some(step) ==> exists|ok: bool| #[trigger]
                old(self)@.step(Reply::Delivered(ok), status).yields(final(self)@, step),
            step is None ==> final(self)@ == old(self)@,
    {
        match self.phase {
            Phase::Reporting(error) => {
                let ok = send_to_manager(&self.manager_tx, failure_report(error));
                let step = self.step(Reply::Delivered(ok), status);
                assert(old(self)@.step(Reply::Delivered(ok), status).yields(self@, step.unwrap()));
                step
            },
            _ => None,
        }
    }

    /// Carries out an effect as far as the runner can: a notification goes
    /// to the manager, and nothing is left of it, whether or not the manager
    /// took it. Any other effect is handed back for the application to
    /// carry out.
    pub fn perform(&self, effect: Effect) -> (left: Option<Effect>)
        ensures
            left == (if effect is Notify {
                None
            } else {
                Some(effect)
            }),
    {
        match effect {
            Effect::Notify(message) => {
                let _ = send_to_manager(&self.manager_tx, message);
                None
            },
            other => Some(other),
        }
    }

    /// Runs the runner over the events of a session, in order, and returns
    /// the step that each of them led to. The session ends with the events,
    /// or before the first event whose reply does not answer the pending
    /// request; none does once the runner has ended.
    pub fn run(&mut self, events: Vec<Event>) -> (steps: Vec<Step>)
        ensures
            final(self).control_sender() == old(self).control_sender(),
            final(self).manager_sender() == old(self).manager_sender(),
            recorded(old(self)@.run(events@), steps@),
            final(self)@ == state_after(old(self)@, old(self)@.run(events@)),
    {
        let ghost all = events@;
        let ghost start = self@;
        let ghost session = start.run(all);
        // The events are taken off the end of a list: turn it round first.
        let mut events = events;
        let mut pending: Vec<Event> = Vec::new();
        while events.len() > 0
            invariant
                events@.len() + pending@.len() == all.len(),
                forall|j: int| 0 <= j < events@.len() ==> events@[j] == all[j],
                forall|j: int| 0 <= j < pending@.len() ==> pending@[j] == all[all.len() - 1 - j],
            decreases events@.len(),
        {
            let event = events.pop().unwrap();
            pending.push(event);
        }
        let mut steps: Vec<Step> = Vec::new();
        let mut going = true;
        proof {
            assert(all.skip(0) == all);
            assert(session == session.take(0) + session);
        }
        while going && pending.len() > 0
            invariant
                self.control_sender() == old(self).control_sender(),
                self.manager_sender() == old(self).manager_sender(),
                session == start.run(all),
                steps@.len() <= all.len(),
                going ==> pending@.len() == all.len() - steps@.len(),
                going ==> forall|j: int|
                    0 <= j < pending@.len() ==> pending@[j] == all[all.len() - 1 - j],
                going ==> session == session.take(steps@.len() as int) + self@.run(
                    all.skip(steps@.len() as int),
                ),
                !going ==> session.len() == steps@.len(),
                session.len() >= steps@.len(),
                recorded(session.take(steps@.len() as int), steps@),
                self@ == state_after(start, session.take(steps@.len() as int)),
            decreases pending@.len() + (if going { 1nat } else { 0nat }),
        {
            let ghost done = steps@.len() as int;
            let ghost before = self@;
            let event = pending.pop().unwrap();
            proof {
                assert(event == all[done]);
                assert(all.skip(done)[0] == all[done]);
                assert(all.skip(done).drop_first() == all.skip(done + 1));
            }
            match self.step(event.reply, event.status) {
                Some(step) => {
                    let ghost taken = before.step(event.reply, event.status);
                    proof {
                        assert(before.run(all.skip(done)) == seq![taken] + taken.state.run(
                            all.skip(done + 1),
                        ));
                        assert(session[done] == taken);
                        assert(session.take(done + 1) == session.take(done).push(taken));
                        assert(session == session.take(done + 1) + self@.run(all.skip(done + 1)));
                    }
                    steps.push(step);
                },
                None => {
                    proof {
                        assert(before.run(all.skip(done)) == Seq::<Transition>::empty());
                        assert(session == session.take(done));
                    }
                    going = false;
                },
            }
        }
        proof {
            if going {
                assert(all.skip(all.len() as int).len() == 0);
                assert(session == session.take(steps@.len() as int));
            }
            assert(session.take(steps@.len() as int) == session);
        }
        steps
    }
}

} // verus!
