use std::time::Duration;

use futures::channel::mpsc::{unbounded, UnboundedReceiver};
use shard_runner::model::{
    ConnectionStage, ConnectionStatus, GatewayError, GuildId, ReconnectType, ShardAction, ShardId,
    ShardInfo, ShardManagerMessage,
};
use shard_runner::protocol::{
    ClientEvent, ConnectionOp, DispatchEvent, Effect, Envelope, Event, EventKind, FilterKind,
    Handled, Outcome, Phase, Polled, Received, Reply, Request, ShardStageUpdateEvent, Step,
    VoiceSignal,
};
use shard_runner::runner::{ShardRunner, ShardRunnerOptions};

fn runner(index: u64, voice: bool) -> (ShardRunner, UnboundedReceiver<ShardManagerMessage>) {
    let (manager_tx, manager_rx) = unbounded();
    let options = ShardRunnerOptions { manager_tx, shard: ShardInfo { index, total: 4 }, voice };
    (ShardRunner::new(options), manager_rx)
}

fn status(stage: ConnectionStage, reconnection: ReconnectType) -> ConnectionStatus {
    ConnectionStatus { stage, latency: Some(Duration::from_millis(42)), reconnection }
}

fn connected() -> ConnectionStatus {
    status(ConnectionStage::Connected, ReconnectType::Resume)
}

fn report(index: u64, stage: ConnectionStage) -> Effect {
    Effect::Notify(ShardManagerMessage::ShardUpdate {
        id: ShardId(index),
        latency: Some(Duration::from_millis(42)),
        stage,
    })
}

fn restart(index: u64, stage: ConnectionStage) -> Vec<Effect> {
    vec![report(index, stage), Effect::Notify(ShardManagerMessage::Restart(ShardId(index)))]
}

fn frame(envelope: Envelope, action: Option<ShardAction>) -> Reply {
    Reply::Received(Received::Frame { envelope, handled: Handled::Proceed(action) })
}

/// A runner that waits for a frame on a connection in the given state.
fn receiving(index: u64, voice: bool, before: ConnectionStatus) -> (ShardRunner, UnboundedReceiver<ShardManagerMessage>) {
    let (mut runner, manager) = runner(index, voice);
    runner.step(Reply::Polled(Polled::Empty), before).unwrap();
    let step = runner.step(Reply::Heartbeat(true), before).unwrap();
    assert_eq!(step, Step { effects: vec![], next: Request::Receive });
    assert_eq!(runner.phase(), Phase::Receiving(before.stage));
    (runner, manager)
}

#[test]
fn a_quiet_wait_starts_the_next_iteration() {
    let (mut runner, _manager) = receiving(0, false, connected());
    let step = runner.step(Reply::Received(Received::Nothing), connected()).unwrap();
    assert_eq!(step, Step { effects: vec![], next: Request::Poll });
    assert_eq!(runner.phase(), Phase::Draining);
}

#[test]
fn a_failed_heartbeat_asks_for_one_restart() {
    let (mut runner, mut manager) = runner(3, false);
    runner.step(Reply::Polled(Polled::Empty), connected()).unwrap();
    let step = runner.step(Reply::Heartbeat(false), connected()).unwrap();
    assert_eq!(
        step,
        Step { effects: restart(3, ConnectionStage::Connected), next: Request::Stop(Outcome::Finished) }
    );
    for effect in step.effects {
        assert_eq!(runner.perform(effect), None);
    }
    assert_eq!(
        manager.try_recv().unwrap(),
        ShardManagerMessage::ShardUpdate {
            id: ShardId(3),
            latency: Some(Duration::from_millis(42)),
            stage: ConnectionStage::Connected,
        }
    );
    assert_eq!(manager.try_recv().unwrap(), ShardManagerMessage::Restart(ShardId(3)));
    assert!(manager.try_recv().is_err());
    // Nothing is taken afterwards.
    assert_eq!(runner.step(Reply::Applied(true), connected()), None);
    assert_eq!(runner.step(Reply::Received(Received::Nothing), connected()), None);
    assert_eq!(runner.recv(connected()), None);
    assert_eq!(runner.phase(), Phase::Stopped(Outcome::Finished));
}

#[test]
fn a_restart_gives_up_the_voice_routing() {
    let (mut runner, _manager) = runner(3, true);
    runner.step(Reply::Polled(Polled::Empty), connected()).unwrap();
    let step = runner.step(Reply::Heartbeat(false), connected()).unwrap();
    let mut effects = restart(3, ConnectionStage::Connected);
    effects.push(Effect::Voice(VoiceSignal::Deregister(3)));
    assert_eq!(step, Step { effects, next: Request::Stop(Outcome::Finished) });
}

#[test]
fn a_change_of_stage_is_reported_and_dispatched() {
    let before = status(ConnectionStage::Handshake, ReconnectType::Reidentify);
    let after = status(ConnectionStage::Identifying, ReconnectType::Reidentify);
    let (mut runner, _manager) = receiving(2, false, before);
    let step = runner.step(frame(Envelope::Control, Some(ShardAction::Identify)), after).unwrap();
    assert_eq!(
        step,
        Step {
            effects: vec![
                report(2, ConnectionStage::Identifying),
                Effect::Dispatch {
                    event: DispatchEvent::Client(ClientEvent::ShardStageUpdate(
                        ShardStageUpdateEvent {
                            new: ConnectionStage::Identifying,
                            old: ConnectionStage::Handshake,
                            shard_id: ShardId(2),
                        }
                    )),
                    shard: 2,
                },
            ],
            next: Request::Perform(ConnectionOp::Identify),
        }
    );
    assert_eq!(runner.phase(), Phase::Acting(None));
    let step = runner.step(Reply::Performed(true), after).unwrap();
    assert_eq!(step, Step { effects: vec![], next: Request::Poll });
}

#[test]
fn each_action_is_an_operation_of_the_connection() {
    let cases = vec![
        (ShardAction::Heartbeat, ConnectionOp::Heartbeat),
        (ShardAction::Identify, ConnectionOp::Identify),
        (ShardAction::Reconnect(ReconnectType::Resume), ConnectionOp::Resume),
    ];
    for (action, op) in cases {
        let (mut runner, _manager) = receiving(0, false, connected());
        let step = runner.step(frame(Envelope::Control, Some(action)), connected()).unwrap();
        assert_eq!(step, Step { effects: vec![], next: Request::Perform(op) });
    }
}

#[test]
fn reidentify_wins_over_resume() {
    // The connection would resume, and the frame carries an event: the
    // action to reidentify still decides.
    let (mut runner, _manager) = receiving(1, false, connected());
    let reidentify = Some(ShardAction::Reconnect(ReconnectType::Reidentify));
    let step = runner
        .step(frame(Envelope::Dispatch(EventKind::MessageCreate), reidentify), connected())
        .unwrap();
    assert_eq!(
        step,
        Step { effects: restart(1, ConnectionStage::Connected), next: Request::Stop(Outcome::Finished) }
    );
    assert_eq!(runner.step(Reply::Performed(true), connected()), None);
}

#[test]
fn a_failed_action_resumes_where_the_connection_allows() {
    let (mut runner, _manager) = receiving(1, false, connected());
    let event = EventKind::Other;
    runner.step(frame(Envelope::Dispatch(event), Some(ShardAction::Heartbeat)), connected()).unwrap();
    assert_eq!(runner.phase(), Phase::Acting(Some(event)));
    let step = runner.step(Reply::Performed(false), connected()).unwrap();
    assert_eq!(step, Step { effects: vec![], next: Request::Perform(ConnectionOp::Resume) });
    assert_eq!(runner.phase(), Phase::Retrying(Some(event)));
    // The resume succeeds: the event is still delivered.
    let step = runner.step(Reply::Performed(true), connected()).unwrap();
    assert_eq!(step, Step { effects: vec![], next: Request::Offer(FilterKind::Event) });
}

#[test]
fn a_failed_resume_after_a_failed_action_asks_for_a_restart() {
    let (mut runner, _manager) = receiving(1, false, connected());
    runner.step(frame(Envelope::Control, Some(ShardAction::Heartbeat)), connected()).unwrap();
    runner.step(Reply::Performed(false), connected()).unwrap();
    let after = status(ConnectionStage::Disconnected, ReconnectType::Resume);
    let step = runner.step(Reply::Performed(false), after).unwrap();
    assert_eq!(
        step,
        Step { effects: restart(1, ConnectionStage::Disconnected), next: Request::Stop(Outcome::Finished) }
    );
}

#[test]
fn a_failed_action_restarts_where_the_connection_must_reidentify() {
    let (mut runner, _manager) = receiving(1, false, connected());
    runner.step(frame(Envelope::Control, Some(ShardAction::Reconnect(ReconnectType::Resume))), connected()).unwrap();
    let after = status(ConnectionStage::Connecting, ReconnectType::Reidentify);
    let step = runner.step(Reply::Performed(false), after).unwrap();
    assert_eq!(
        step,
        Step { effects: restart(1, ConnectionStage::Connecting), next: Request::Stop(Outcome::Finished) }
    );
}

#[test]
fn a_transport_failure_resumes_inline() {
    let (mut runner, _manager) = receiving(1, false, connected());
    let step = runner.step(Reply::Received(Received::IoError), connected()).unwrap();
    assert_eq!(step, Step { effects: vec![], next: Request::Perform(ConnectionOp::Resume) });
    assert_eq!(runner.phase(), Phase::Recovering(ConnectionStage::Connected));
    // The resume succeeds, and the stage has changed meanwhile.
    let after = status(ConnectionStage::Resuming, ReconnectType::Resume);
    let step = runner.step(Reply::Performed(true), after).unwrap();
    assert_eq!(
        step,
        Step {
            effects: vec![
                report(1, ConnectionStage::Resuming),
                Effect::Dispatch {
                    event: DispatchEvent::Client(ClientEvent::ShardStageUpdate(
                        ShardStageUpdateEvent {
                            new: ConnectionStage::Resuming,
                            old: ConnectionStage::Connected,
                            shard_id: ShardId(1),
                        }
                    )),
                    shard: 1,
                },
            ],
            next: Request::Poll,
        }
    );
}

#[test]
fn a_failed_resume_after_a_transport_failure_asks_for_a_restart() {
    let (mut runner, _manager) = receiving(1, false, connected());
    runner.step(Reply::Received(Received::IoError), connected()).unwrap();
    let step = runner.step(Reply::Performed(false), connected()).unwrap();
    assert_eq!(
        step,
        Step { effects: restart(1, ConnectionStage::Connected), next: Request::Stop(Outcome::Finished) }
    );
}

#[test]
fn a_transport_failure_without_a_session_asks_for_a_restart() {
    let lost = status(ConnectionStage::Connected, ReconnectType::Reidentify);
    let (mut runner, _manager) = receiving(1, false, lost);
    let step = runner.step(Reply::Received(Received::IoError), lost).unwrap();
    assert_eq!(
        step,
        Step { effects: restart(1, ConnectionStage::Connected), next: Request::Stop(Outcome::Finished) }
    );
}

#[test]
fn a_transport_failure_while_connecting_is_waited_out() {
    let connecting = status(ConnectionStage::Connecting, ReconnectType::Reidentify);
    let (mut runner, _manager) = receiving(1, false, connecting);
    let step = runner.step(Reply::Received(Received::IoError), connecting).unwrap();
    assert_eq!(step, Step { effects: vec![], next: Request::Poll });
    assert_eq!(runner.phase(), Phase::Draining);
}

#[test]
fn a_frame_that_cannot_be_decoded_is_passed_over() {
    let (mut runner, _manager) = receiving(1, false, connected());
    let step = runner.step(frame(Envelope::Undecoded, None), connected()).unwrap();
    assert_eq!(step, Step { effects: vec![], next: Request::Poll });

    let (mut runner, _manager) = receiving(1, false, connected());
    let refused = Reply::Received(Received::Frame {
        envelope: Envelope::Dispatch(EventKind::MessageCreate),
        handled: Handled::Failed,
    });
    let step = runner.step(refused, connected()).unwrap();
    assert_eq!(step, Step { effects: vec![], next: Request::Poll });
}

#[test]
fn an_acknowledged_heartbeat_is_reported() {
    let (mut runner, _manager) = receiving(4, true, connected());
    let step = runner.step(frame(Envelope::HeartbeatAck, None), connected()).unwrap();
    assert_eq!(
        step,
        Step { effects: vec![report(4, ConnectionStage::Connected)], next: Request::Poll }
    );
}

#[test]
fn an_authentication_failure_is_reported_once_and_ends_the_runner() {
    let (mut runner, mut manager) = receiving(0, false, connected());
    let failure = Reply::Received(Received::Frame {
        envelope: Envelope::Undecoded,
        handled: Handled::Fatal(GatewayError::InvalidAuthentication),
    });
    let step = runner.step(failure, connected()).unwrap();
    assert_eq!(
        step,
        Step {
            effects: vec![],
            next: Request::Report(ShardManagerMessage::ShardInvalidAuthentication),
        }
    );
    assert_eq!(runner.phase(), Phase::Reporting(GatewayError::InvalidAuthentication));
    let step = runner.report(connected()).unwrap();
    assert_eq!(
        step,
        Step {
            effects: vec![],
            next: Request::Stop(Outcome::Failed(GatewayError::InvalidAuthentication)),
        }
    );
    assert_eq!(manager.try_recv().unwrap(), ShardManagerMessage::ShardInvalidAuthentication);
    assert!(manager.try_recv().is_err());
    // No reconnection is tried.
    assert_eq!(runner.step(Reply::Performed(true), connected()), None);
    assert_eq!(runner.report(connected()), None);
    assert!(manager.try_recv().is_err());
}

#[test]
fn each_fatal_failure_has_its_own_signal() {
    let cases = vec![
        (GatewayError::InvalidAuthentication, ShardManagerMessage::ShardInvalidAuthentication),
        (GatewayError::InvalidGatewayIntents, ShardManagerMessage::ShardInvalidGatewayIntents),
        (GatewayError::DisallowedGatewayIntents, ShardManagerMessage::ShardDisallowedGatewayIntents),
    ];
    for (error, signal) in cases {
        let (mut runner, mut manager) = receiving(0, false, connected());
        let failure = Reply::Received(Received::Frame {
            envelope: Envelope::Undecoded,
            handled: Handled::Fatal(error),
        });
        let step = runner.step(failure, connected()).unwrap();
        assert_eq!(step.next, Request::Report(signal.clone()));
        let step = runner.report(connected()).unwrap();
        assert_eq!(step.next, Request::Stop(Outcome::Failed(error)));
        assert_eq!(manager.try_recv().unwrap(), signal);
        assert!(manager.try_recv().is_err());
    }
}

#[test]
fn a_manager_that_is_gone_cannot_be_told_of_a_failure() {
    let (mut runner, manager) = receiving(0, false, connected());
    drop(manager);
    let failure = Reply::Received(Received::Frame {
        envelope: Envelope::Undecoded,
        handled: Handled::Fatal(GatewayError::DisallowedGatewayIntents),
    });
    runner.step(failure, connected()).unwrap();
    let step = runner.report(connected()).unwrap();
    assert_eq!(
        step.next,
        Request::Stop(Outcome::ManagerUnreachable(GatewayError::DisallowedGatewayIntents))
    );
    assert_eq!(
        runner.phase(),
        Phase::Stopped(Outcome::ManagerUnreachable(GatewayError::DisallowedGatewayIntents))
    );
}

#[test]
fn the_delivery_of_a_failure_decides_the_outcome() {
    for (delivered, outcome) in [
        (true, Outcome::Failed(GatewayError::InvalidGatewayIntents)),
        (false, Outcome::ManagerUnreachable(GatewayError::InvalidGatewayIntents)),
    ] {
        let (mut runner, _manager) = receiving(0, false, connected());
        let failure = Reply::Received(Received::Frame {
            envelope: Envelope::Control,
            handled: Handled::Fatal(GatewayError::InvalidGatewayIntents),
        });
        runner.step(failure, connected()).unwrap();
        let step = runner.step(Reply::Delivered(delivered), connected()).unwrap();
        assert_eq!(step, Step { effects: vec![], next: Request::Stop(outcome) });
    }
}

#[test]
fn events_are_shown_to_the_voice_subsystem() {
    let cases = vec![
        (EventKind::Ready, vec![Effect::Voice(VoiceSignal::Register(6))]),
        (
            EventKind::VoiceServerUpdate(Some(GuildId(9))),
            vec![Effect::Voice(VoiceSignal::ServerUpdate(GuildId(9)))],
        ),
        (
            EventKind::VoiceStateUpdate(Some(GuildId(9))),
            vec![Effect::Voice(VoiceSignal::StateUpdate(GuildId(9)))],
        ),
        (EventKind::VoiceServerUpdate(None), vec![]),
        (EventKind::VoiceStateUpdate(None), vec![]),
        (EventKind::MessageCreate, vec![]),
    ];
    for (event, effects) in cases {
        let (mut runner, _manager) = receiving(6, true, connected());
        let step = runner.step(frame(Envelope::Dispatch(event), None), connected()).unwrap();
        assert_eq!(step.effects, effects);
        // Without a voice subsystem nothing is signalled.
        let (mut runner, _manager) = receiving(6, false, connected());
        let step = runner.step(frame(Envelope::Dispatch(event), None), connected()).unwrap();
        assert_eq!(step.effects, vec![]);
    }
}

#[test]
fn a_whole_iteration_can_be_replayed() {
    let (mut runner, _manager) = runner(0, false);
    let before = connected();
    let events = vec![
        Event { reply: Reply::Polled(Polled::Empty), status: before },
        Event { reply: Reply::Heartbeat(true), status: before },
        Event { reply: frame(Envelope::Dispatch(EventKind::Other), None), status: before },
        Event { reply: Reply::Verdicts(vec![]), status: before },
        Event { reply: Reply::Polled(Polled::Empty), status: before },
        // Not what the runner waits for: the replay ends here.
        Event { reply: Reply::Polled(Polled::Empty), status: before },
        Event { reply: Reply::Heartbeat(true), status: before },
    ];
    let steps = runner.run(events);
    assert_eq!(
        steps,
        vec![
            Step { effects: vec![], next: Request::CheckHeartbeat },
            Step { effects: vec![], next: Request::Receive },
            Step { effects: vec![], next: Request::Offer(FilterKind::Event) },
            Step {
                effects: vec![Effect::Dispatch {
                    event: DispatchEvent::Model(EventKind::Other),
                    shard: 0,
                }],
                next: Request::Poll,
            },
            Step { effects: vec![], next: Request::CheckHeartbeat },
        ]
    );
    assert_eq!(runner.phase(), Phase::Heartbeat);
    assert_eq!(runner.run(vec![]), vec![]);
    assert_eq!(runner.phase(), Phase::Heartbeat);
}

#[test]
fn events_reach_the_handlers_in_the_order_of_their_frames() {
    let (mut runner, _manager) = runner(0, false);
    let at = connected();
    let mut events = Vec::new();
    let kinds = [EventKind::MessageCreate, EventKind::Ready, EventKind::ReactionAdd];
    for kind in kinds {
        events.push(Event { reply: Reply::Polled(Polled::Empty), status: at });
        events.push(Event { reply: Reply::Heartbeat(true), status: at });
        events.push(Event { reply: frame(Envelope::Dispatch(kind), None), status: at });
        if kind != EventKind::Ready {
            // The filters of the subtype come first.
            events.push(Event { reply: Reply::Verdicts(vec![]), status: at });
        }
        events.push(Event { reply: Reply::Verdicts(vec![]), status: at });
    }
    // A last frame whose event is still at hand as the replay ends.
    events.push(Event { reply: Reply::Polled(Polled::Empty), status: at });
    events.push(Event { reply: Reply::Heartbeat(true), status: at });
    events.push(Event { reply: frame(Envelope::Dispatch(EventKind::Other), None), status: at });

    let steps = runner.run(events);
    assert_eq!(steps.len(), 17);
    let handed: Vec<EventKind> = steps
        .iter()
        .flat_map(|step| step.effects.iter())
        .filter_map(|effect| match effect {
            Effect::Dispatch { event: DispatchEvent::Model(kind), .. } => Some(*kind),
            _ => None,
        })
        .collect();
    assert_eq!(handed, kinds.to_vec());
    assert_eq!(
        runner.phase(),
        Phase::Offering { event: EventKind::Other, kind: FilterKind::Event }
    );
}
