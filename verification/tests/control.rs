use std::time::Duration;

use futures::channel::mpsc::{unbounded, UnboundedReceiver};
use shard_runner::model::{
    ActivityData, ActivityType, ChunkGuildFilter, ConnectionStage, ConnectionStatus, FilterId,
    GuildId, InterMessage, OnlineStatus, ReconnectType, ShardClientMessage, ShardId, ShardInfo,
    ShardManagerMessage, ShardRunnerMessage, UserId, WsMessage,
};
use shard_runner::protocol::{
    Command, Effect, FilterKind, Outcome, Phase, Polled, Reply, Request, Step,
};
use shard_runner::runner::{ShardRunner, ShardRunnerOptions};

fn runner(index: u64) -> (ShardRunner, UnboundedReceiver<ShardManagerMessage>) {
    let (manager_tx, manager_rx) = unbounded();
    let options = ShardRunnerOptions { manager_tx, shard: ShardInfo { index, total: 4 }, voice: false };
    (ShardRunner::new(options), manager_rx)
}

fn connected() -> ConnectionStatus {
    ConnectionStatus {
        stage: ConnectionStage::Connected,
        latency: Some(Duration::from_millis(42)),
        reconnection: ReconnectType::Resume,
    }
}

fn to_runner(message: ShardRunnerMessage) -> InterMessage {
    InterMessage::Client(Box::new(ShardClientMessage::Runner(message)))
}

fn from_manager(message: ShardManagerMessage) -> InterMessage {
    InterMessage::Client(Box::new(ShardClientMessage::Manager(message)))
}

fn polled(message: InterMessage) -> Reply {
    Reply::Polled(Polled::Message(message))
}

fn idle() -> Step {
    Step { effects: vec![], next: Request::Poll }
}

/// A connection that remembers what it was told.
struct Connection {
    status: OnlineStatus,
    frames: Vec<String>,
    closed: bool,
}

impl Connection {
    fn apply(&mut self, command: Command) -> bool {
        match command {
            Command::SetStatus(status) => self.status = status,
            Command::ChunkGuild { guild_id, .. } => self.frames.push(format!("chunk {}", guild_id.0)),
            Command::Close { code, reason } => {
                self.frames.push(format!("close {} {}", code, reason.unwrap_or_default()));
                self.closed = true;
            },
            other => self.frames.push(format!("{:?}", other)),
        }
        true
    }
}

#[test]
fn queued_messages_are_applied_in_order() {
    let (mut runner, mut manager) = runner(0);
    let tx = runner.runner_tx().clone();
    tx.unbounded_send(to_runner(ShardRunnerMessage::SetStatus(OnlineStatus::Idle))).unwrap();
    tx.unbounded_send(to_runner(ShardRunnerMessage::ChunkGuild {
        guild_id: GuildId(7),
        limit: None,
        filter: ChunkGuildFilter::Unfiltered,
        nonce: None,
    }))
    .unwrap();
    tx.unbounded_send(to_runner(ShardRunnerMessage::Close(1000, Some("bye".to_string())))).unwrap();

    let mut connection = Connection { status: OnlineStatus::Online, frames: vec![], closed: false };
    let mut applied = 0;
    let mut request = Request::Poll;
    let outcome = loop {
        let step = match request {
            Request::Poll => {
                // The runner goes on for as long as the connection is open.
                assert!(!connection.closed);
                runner.recv(connected()).unwrap()
            },
            Request::Apply(command) => {
                let ok = connection.apply(command);
                applied += 1;
                runner.step(Reply::Applied(ok), connected()).unwrap()
            },
            Request::Stop(outcome) => break outcome,
            other => panic!("unexpected request {:?}", other),
        };
        assert_eq!(step.effects, vec![]);
        request = step.next;
    };

    // The runner ends with the close frame, and not before it.
    assert_eq!(outcome, Outcome::Finished);
    assert_eq!(applied, 3);
    assert!(connection.closed);
    assert_eq!(connection.status, OnlineStatus::Idle);
    assert_eq!(connection.frames, vec!["chunk 7".to_string(), "close 1000 bye".to_string()]);
    assert_eq!(runner.phase(), Phase::Stopped(Outcome::Finished));
    assert_eq!(runner.recv(connected()), None);
    assert!(manager.try_recv().is_err());
}

#[test]
fn a_close_ends_the_runner_whether_or_not_it_went_out() {
    for sent in [true, false] {
        let (mut runner, mut manager) = runner(0);
        let close = to_runner(ShardRunnerMessage::Close(1000, Some("bye".to_string())));
        let step = runner.step(polled(close), connected()).unwrap();
        assert_eq!(
            step,
            Step {
                effects: vec![],
                next: Request::Apply(Command::Close { code: 1000, reason: Some("bye".to_string()) }),
            }
        );
        assert_eq!(runner.phase(), Phase::Leaving);
        let step = runner.step(Reply::Applied(sent), connected()).unwrap();
        assert_eq!(step, Step { effects: vec![], next: Request::Stop(Outcome::Finished) });
        assert_eq!(runner.phase(), Phase::Stopped(Outcome::Finished));
        assert_eq!(runner.step(Reply::Polled(Polled::Empty), connected()), None);
        assert!(manager.try_recv().is_err());
    }
}

#[test]
fn a_raw_close_message_is_a_message_like_any_other() {
    let (mut runner, _manager) = runner(0);
    let raw = to_runner(ShardRunnerMessage::Message(WsMessage::Close(None)));
    let step = runner.step(polled(raw), connected()).unwrap();
    assert_eq!(step.next, Request::Apply(Command::Message(WsMessage::Close(None))));
    assert_eq!(runner.phase(), Phase::Applying);
    assert_eq!(runner.step(Reply::Applied(true), connected()), Some(idle()));
}

#[test]
fn each_command_goes_out_as_it_came_in() {
    let (mut runner, _manager) = runner(0);
    let activity = ActivityData {
        name: "chess".to_string(),
        kind: ActivityType::Playing,
        url: None,
    };
    let cases = vec![
        (
            to_runner(ShardRunnerMessage::ChunkGuild {
                guild_id: GuildId(7),
                limit: Some(50),
                filter: ChunkGuildFilter::Query("ab".to_string()),
                nonce: Some("n1".to_string()),
            }),
            Command::ChunkGuild {
                guild_id: GuildId(7),
                limit: Some(50),
                filter: ChunkGuildFilter::Query("ab".to_string()),
                nonce: Some("n1".to_string()),
            },
        ),
        (
            to_runner(ShardRunnerMessage::ChunkGuild {
                guild_id: GuildId(8),
                limit: None,
                filter: ChunkGuildFilter::UserIds(vec![UserId(1), UserId(2)]),
                nonce: None,
            }),
            Command::ChunkGuild {
                guild_id: GuildId(8),
                limit: None,
                filter: ChunkGuildFilter::UserIds(vec![UserId(1), UserId(2)]),
                nonce: None,
            },
        ),
        (
            to_runner(ShardRunnerMessage::Close(1000, Some("bye".to_string()))),
            Command::Close { code: 1000, reason: Some("bye".to_string()) },
        ),
        (
            to_runner(ShardRunnerMessage::Close(4123, None)),
            Command::Close { code: 4123, reason: None },
        ),
        (
            to_runner(ShardRunnerMessage::Message(WsMessage::Text("ping".to_string()))),
            Command::Message(WsMessage::Text("ping".to_string())),
        ),
        (
            to_runner(ShardRunnerMessage::Message(WsMessage::Binary(vec![1, 2, 3]))),
            Command::Message(WsMessage::Binary(vec![1, 2, 3])),
        ),
        (
            to_runner(ShardRunnerMessage::SetActivity(Some(activity.clone()))),
            Command::SetActivity(Some(activity.clone())),
        ),
        (
            to_runner(ShardRunnerMessage::SetPresence(OnlineStatus::DoNotDisturb, None)),
            Command::SetPresence(OnlineStatus::DoNotDisturb, None),
        ),
        (
            to_runner(ShardRunnerMessage::SetStatus(OnlineStatus::Invisible)),
            Command::SetStatus(OnlineStatus::Invisible),
        ),
        (InterMessage::Json("{\"op\":1}".to_string()), Command::Json("{\"op\":1}".to_string())),
    ];
    for (message, command) in cases {
        let closes = matches!(command, Command::Close { .. });
        let step = runner.step(polled(message), connected()).unwrap();
        assert_eq!(step, Step { effects: vec![], next: Request::Apply(command) });
        if closes {
            assert_eq!(runner.phase(), Phase::Leaving);
            // A new runner for what is left.
            runner = self::runner(0).0;
        } else {
            assert_eq!(runner.phase(), Phase::Applying);
            assert_eq!(runner.step(Reply::Applied(true), connected()), Some(idle()));
            assert_eq!(runner.phase(), Phase::Draining);
        }
    }
}

#[test]
fn a_command_that_the_connection_refuses_ends_the_runner() {
    let (mut runner, mut manager) = runner(0);
    let message = to_runner(ShardRunnerMessage::SetStatus(OnlineStatus::Idle));
    runner.step(polled(message), connected()).unwrap();
    let step = runner.step(Reply::Applied(false), connected()).unwrap();
    assert_eq!(step, Step { effects: vec![], next: Request::Stop(Outcome::Finished) });
    assert_eq!(runner.phase(), Phase::Stopped(Outcome::Finished));
    assert!(manager.try_recv().is_err());
}

#[test]
fn later_messages_wait_behind_a_refused_command() {
    let (mut runner, _manager) = runner(0);
    let tx = runner.runner_tx().clone();
    tx.unbounded_send(to_runner(ShardRunnerMessage::SetStatus(OnlineStatus::Idle))).unwrap();
    tx.unbounded_send(to_runner(ShardRunnerMessage::SetStatus(OnlineStatus::Online))).unwrap();
    let step = runner.recv(connected()).unwrap();
    assert_eq!(step.next, Request::Apply(Command::SetStatus(OnlineStatus::Idle)));
    // The second message is not looked at while the first is with the
    // connection, nor after the runner has ended.
    assert_eq!(runner.recv(connected()), None);
    runner.step(Reply::Applied(false), connected()).unwrap();
    assert_eq!(runner.recv(connected()), None);
}

#[test]
fn messages_that_are_not_for_a_runner_are_passed_over() {
    let (mut runner, mut manager) = runner(0);
    let strays = vec![
        ShardManagerMessage::ShutdownAll,
        ShardManagerMessage::ShutdownInitiated,
        ShardManagerMessage::ShutdownFinished(ShardId(0)),
        ShardManagerMessage::ShardUpdate {
            id: ShardId(0),
            latency: None,
            stage: ConnectionStage::Connected,
        },
        ShardManagerMessage::ShardDisallowedGatewayIntents,
        ShardManagerMessage::ShardInvalidAuthentication,
        ShardManagerMessage::ShardInvalidGatewayIntents,
    ];
    for stray in strays {
        assert_eq!(runner.step(polled(from_manager(stray)), connected()), Some(idle()));
        assert_eq!(runner.phase(), Phase::Draining);
    }
    assert!(manager.try_recv().is_err());
}

#[test]
fn a_shutdown_of_another_shard_leaves_the_runner_active() {
    let (mut runner, mut manager) = runner(2);
    let order = from_manager(ShardManagerMessage::Shutdown(ShardId(3), 1000));
    assert_eq!(runner.step(polled(order), connected()), Some(idle()));
    assert_eq!(runner.phase(), Phase::Draining);
    let order = from_manager(ShardManagerMessage::Restart(ShardId(0)));
    assert_eq!(runner.step(polled(order), connected()), Some(idle()));
    assert_eq!(runner.phase(), Phase::Draining);
    assert!(manager.try_recv().is_err());
}

#[test]
fn a_restart_closes_with_the_restart_code() {
    let (mut runner, _manager) = runner(2);
    let order = from_manager(ShardManagerMessage::Restart(ShardId(2)));
    let step = runner.step(polled(order), connected()).unwrap();
    assert_eq!(
        step,
        Step { effects: vec![], next: Request::Apply(Command::Close { code: 4000, reason: None }) }
    );
    assert_eq!(runner.phase(), Phase::Closing(ShardId(2)));
}

#[test]
fn filters_are_registered_in_order_and_by_category() {
    let (mut runner, _manager) = runner(0);
    let registrations = vec![
        ShardRunnerMessage::SetMessageFilter(FilterId(10)),
        ShardRunnerMessage::SetEventFilter(FilterId(11)),
        ShardRunnerMessage::SetMessageFilter(FilterId(12)),
        ShardRunnerMessage::SetReactionFilter(FilterId(13)),
        ShardRunnerMessage::SetComponentInteractionFilter(FilterId(14)),
        ShardRunnerMessage::SetModalInteractionFilter(FilterId(15)),
        ShardRunnerMessage::SetMessageFilter(FilterId(10)),
    ];
    for registration in registrations {
        assert_eq!(runner.step(polled(to_runner(registration)), connected()), Some(idle()));
    }
    assert_eq!(runner.filters(FilterKind::Message), &vec![FilterId(10), FilterId(12), FilterId(10)]);
    assert_eq!(runner.filters(FilterKind::Event), &vec![FilterId(11)]);
    assert_eq!(runner.filters(FilterKind::Reaction), &vec![FilterId(13)]);
    assert_eq!(runner.filters(FilterKind::ComponentInteraction), &vec![FilterId(14)]);
    assert_eq!(runner.filters(FilterKind::ModalInteraction), &vec![FilterId(15)]);
}

#[test]
fn an_empty_queue_lets_the_iteration_go_on() {
    let (mut runner, _manager) = runner(0);
    let step = runner.step(Reply::Polled(Polled::Empty), connected()).unwrap();
    assert_eq!(step, Step { effects: vec![], next: Request::CheckHeartbeat });
    assert_eq!(runner.phase(), Phase::Heartbeat);
}

#[test]
fn a_queue_without_senders_asks_for_a_restart() {
    let (mut runner, _manager) = runner(5);
    let step = runner.step(Reply::Polled(Polled::Disconnected), connected()).unwrap();
    assert_eq!(
        step,
        Step {
            effects: vec![
                Effect::Notify(ShardManagerMessage::ShardUpdate {
                    id: ShardId(5),
                    latency: Some(Duration::from_millis(42)),
                    stage: ConnectionStage::Connected,
                }),
                Effect::Notify(ShardManagerMessage::Restart(ShardId(5))),
            ],
            next: Request::Stop(Outcome::Finished),
        }
    );
}

#[test]
fn a_reply_to_another_request_is_not_taken() {
    let (mut runner, _manager) = runner(0);
    let strays = vec![
        Reply::Applied(true),
        Reply::Heartbeat(true),
        Reply::Performed(true),
        Reply::Delivered(true),
        Reply::Verdicts(vec![]),
    ];
    for stray in strays {
        assert!(!runner.accepts(&stray));
        assert_eq!(runner.step(stray, connected()), None);
        assert_eq!(runner.phase(), Phase::Draining);
    }
    assert!(runner.accepts(&Reply::Polled(Polled::Empty)));
}
