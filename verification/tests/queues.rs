use std::time::Duration;

use futures::channel::mpsc::{unbounded, UnboundedReceiver};
use shard_runner::model::{
    ConnectionStage, ConnectionStatus, InterMessage, OnlineStatus, ReconnectType,
    ShardClientMessage, ShardId, ShardInfo, ShardManagerMessage, ShardRunnerMessage,
};
use shard_runner::protocol::{
    Command, DispatchEvent, Effect, EventKind, Phase, Polled, Reply, Request, Step, VoiceSignal,
};
use shard_runner::runner::{ShardRunner, ShardRunnerOptions};

fn runner(index: u64) -> (ShardRunner, UnboundedReceiver<ShardManagerMessage>) {
    let (manager_tx, manager_rx) = unbounded();
    let options = ShardRunnerOptions { manager_tx, shard: ShardInfo { index, total: 4 }, voice: false };
    (ShardRunner::new(options), manager_rx)
}

fn connected() -> ConnectionStatus {
    ConnectionStatus {
        stage: ConnectionStage::Connected,
        latency: None,
        reconnection: ReconnectType::Resume,
    }
}

fn set_status(status: OnlineStatus) -> InterMessage {
    InterMessage::Client(Box::new(ShardClientMessage::Runner(ShardRunnerMessage::SetStatus(status))))
}

#[test]
fn a_new_runner_drains_its_queue() {
    let (runner, _manager) = runner(2);
    assert_eq!(runner.phase(), Phase::Draining);
    assert_eq!(runner.shard_info(), ShardInfo { index: 2, total: 4 });
    assert!(runner.filters(shard_runner::protocol::FilterKind::Event).is_empty());
}

#[test]
fn an_empty_queue_of_its_own_is_found_empty() {
    let (mut runner, _manager) = runner(0);
    let step = runner.recv(connected()).unwrap();
    assert_eq!(step, Step { effects: vec![], next: Request::CheckHeartbeat });
    assert_eq!(runner.phase(), Phase::Heartbeat);
}

#[test]
fn what_is_sent_to_a_runner_is_what_it_finds() {
    let (mut runner, _manager) = runner(0);
    let first = runner.runner_tx().clone();
    let second = runner.runner_tx().clone();
    first.unbounded_send(set_status(OnlineStatus::Idle)).unwrap();
    second.unbounded_send(set_status(OnlineStatus::Offline)).unwrap();
    first.unbounded_send(InterMessage::Json("{}".to_string())).unwrap();
    drop(first);
    drop(second);

    let step = runner.recv(connected()).unwrap();
    assert_eq!(step.next, Request::Apply(Command::SetStatus(OnlineStatus::Idle)));
    runner.step(Reply::Applied(true), connected()).unwrap();
    let step = runner.recv(connected()).unwrap();
    assert_eq!(step.next, Request::Apply(Command::SetStatus(OnlineStatus::Offline)));
    runner.step(Reply::Applied(true), connected()).unwrap();
    let step = runner.recv(connected()).unwrap();
    assert_eq!(step.next, Request::Apply(Command::Json("{}".to_string())));
    runner.step(Reply::Applied(true), connected()).unwrap();
    // The runner holds a sender of its own: the queue is empty, not closed.
    let step = runner.recv(connected()).unwrap();
    assert_eq!(step.next, Request::CheckHeartbeat);
}

#[test]
fn a_queue_is_polled_only_while_draining() {
    let (mut runner, _manager) = runner(0);
    let tx = runner.runner_tx().clone();
    runner.step(Reply::Polled(Polled::Empty), connected()).unwrap();
    tx.unbounded_send(set_status(OnlineStatus::Idle)).unwrap();
    assert_eq!(runner.recv(connected()), None);
    assert_eq!(runner.phase(), Phase::Heartbeat);
    // The message is still there for the next iteration.
    runner.step(Reply::Heartbeat(true), connected()).unwrap();
    runner.step(Reply::Received(shard_runner::protocol::Received::Nothing), connected()).unwrap();
    let step = runner.recv(connected()).unwrap();
    assert_eq!(step.next, Request::Apply(Command::SetStatus(OnlineStatus::Idle)));
}

#[test]
fn notifications_reach_the_manager_in_order() {
    let (runner, mut manager) = runner(1);
    let update = ShardManagerMessage::ShardUpdate {
        id: ShardId(1),
        latency: Some(Duration::from_millis(7)),
        stage: ConnectionStage::Resuming,
    };
    assert_eq!(runner.perform(Effect::Notify(update.clone())), None);
    assert_eq!(runner.perform(Effect::Notify(ShardManagerMessage::Restart(ShardId(1)))), None);
    assert_eq!(manager.try_recv().unwrap(), update);
    assert_eq!(manager.try_recv().unwrap(), ShardManagerMessage::Restart(ShardId(1)));
    assert!(manager.try_recv().is_err());
}

#[test]
fn other_effects_are_left_to_the_application() {
    let (runner, mut manager) = runner(1);
    let dispatch = Effect::Dispatch { event: DispatchEvent::Model(EventKind::Ready), shard: 1 };
    let voice = Effect::Voice(VoiceSignal::Deregister(1));
    assert_eq!(runner.perform(dispatch.clone()), Some(dispatch));
    assert_eq!(runner.perform(voice.clone()), Some(voice));
    assert!(manager.try_recv().is_err());
}

#[test]
fn a_notification_to_a_manager_that_is_gone_is_no_failure() {
    let (runner, manager) = runner(1);
    drop(manager);
    assert_eq!(runner.perform(Effect::Notify(ShardManagerMessage::Restart(ShardId(1)))), None);
    assert_eq!(runner.phase(), Phase::Draining);
}

#[test]
fn nothing_is_reported_without_a_failure() {
    let (mut runner, mut manager) = runner(1);
    assert_eq!(runner.report(connected()), None);
    assert_eq!(runner.phase(), Phase::Draining);
    assert!(manager.try_recv().is_err());
}
