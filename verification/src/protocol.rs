//! The exchange between the runner and the application that drives it.
//!
//! The runner asks for one thing at a time ([`Request`]) and is told how it
//! went ([`Reply`]). Along with each request it hands out the notifications
//! and dispatches that are due before it ([`Effect`]), in the order in which
//! they have to be carried out.

use crate::model::{
    ActivityData, ChunkGuildFilter, ConnectionStage, ConnectionStatus, GatewayError, GuildId,
    InterMessage, OnlineStatus, ShardAction, ShardId, ShardManagerMessage, WsMessage,
};
use vstd::prelude::*;

verus! {

/// The categories of collector filters.
#[derive(Clone, Copy, Debug, PartialEq, Eq, Structural, Hash)]
pub enum FilterKind {
    /// Filters over every decoded event.
    Event,
    /// Filters over created messages.
    Message,
    /// Filters over added and removed reactions.
    Reaction,
    /// Filters over component interactions.
    ComponentInteraction,
    /// Filters over submitted modals.
    ModalInteraction,
}

/// What the runner reads of a decoded event: its subtype. The payload stays
/// with the application.
#[derive(Clone, Copy, Debug, PartialEq, Eq, Structural, Hash)]
pub enum EventKind {
    MessageCreate,
    ReactionAdd,
    ReactionRemove,
    /// An interaction with a message component.
    ComponentInteraction,
    /// A submitted modal.
    ModalSubmit,
    Ready,
    /// A voice server update, with the guild it names, if any.
    VoiceServerUpdate(Option<GuildId>),
    /// A voice state update, with the guild it names, if any.
    VoiceStateUpdate(Option<GuildId>),
    /// Any other event, interactions of other kinds among them.
    Other,
}

/// What the runner reads of a protocol envelope.
#[derive(Clone, Copy, Debug, PartialEq, Eq, Structural, Hash)]
pub enum Envelope {
    /// A domain event.
    Dispatch(EventKind),
    /// The acknowledgement of a heartbeat.
    HeartbeatAck,
    /// Any other envelope.
    Control,
    /// Nothing could be decoded: the frame was malformed, or receiving it
    /// failed for another reason than the transport.
    Undecoded,
}

/// How the connection took a frame.
#[derive(Clone, Copy, Debug, PartialEq, Eq, Structural, Hash)]
pub enum Handled {
    /// It was taken, and may call for an action.
    Proceed(Option<ShardAction>),
    /// It revealed a failure that must not be retried.
    Fatal(GatewayError),
    /// It was refused for a reason that leaves the connection usable.
    Failed,
}

/// The outcome of one bounded wait for a frame.
#[derive(Clone, Copy, Debug, PartialEq, Eq, Structural, Hash)]
pub enum Received {
    /// No frame came within the wait.
    Nothing,
    /// The transport failed.
    IoError,
    /// A frame, or a failure other than the transport's, went to the
    /// connection, which took it as `handled` says.
    Frame { envelope: Envelope, handled: Handled },
}

/// What a look at the control queue found.
#[derive(Clone, Debug, PartialEq, Eq)]
pub enum Polled {
    Message(InterMessage),
    /// Every sender is gone.
    Disconnected,
    /// Nothing is queued.
    Empty,
}

/// What came from the service while a close frame was awaited.
#[derive(Clone, Copy, Debug, PartialEq, Eq, Structural, Hash)]
pub enum Arrival {
    /// The close frame.
    Close,
    /// A failure of the connection.
    Error,
    /// Anything else, the end of the stream included.
    Other,
}

/// The answer to a [`Request`].
#[derive(Clone, Debug, PartialEq, Eq)]
pub enum Reply {
    /// To `Poll`.
    Polled(Polled),
    /// To `Apply`: whether the connection accepted the command.
    Applied(bool),
    /// To `AwaitClose`.
    Awaited(Arrival),
    /// To `CheckHeartbeat`: whether the heartbeat is in order.
    Heartbeat(bool),
    /// To `Receive`.
    Received(Received),
    /// To `Perform`: whether the operation succeeded.
    Performed(bool),
    /// To `Offer`: for each filter of the category, in order, whether it is
    /// still interested.
    Verdicts(Vec<bool>),
    /// To `Report`: whether the manager could be reached.
    Delivered(bool),
}

/// A reply together with the state of the connection when it was given.
#[derive(Clone, Debug, PartialEq, Eq)]
pub struct Event {
    pub reply: Reply,
    pub status: ConnectionStatus,
}

/// Something for the connection to send or to change, taken from a control
/// message.
#[derive(Clone, Debug, PartialEq, Eq)]
pub enum Command {
    ChunkGuild { guild_id: GuildId, limit: Option<u16>, filter: ChunkGuildFilter, nonce: Option<String> },
    /// Send a close frame. Without a reason the frame carries an empty one.
    Close { code: u16, reason: Option<String> },
    Message(WsMessage),
    /// Send a serialised payload as it is.
    Json(String),
    /// Set the activity, then send the presence.
    SetActivity(Option<ActivityData>),
    /// Set status and activity, then send the presence.
    SetPresence(OnlineStatus, Option<ActivityData>),
    /// Set the status, then send the presence.
    SetStatus(OnlineStatus),
}

/// An operation of the connection that re-establishes or keeps the session.
#[derive(Clone, Copy, Debug, PartialEq, Eq, Structural, Hash)]
pub enum ConnectionOp {
    Resume,
    Heartbeat,
    Identify,
}

/// How a runner ended.
#[derive(Clone, Copy, Debug, PartialEq, Eq, Structural, Hash)]
pub enum Outcome {
    /// The runner stopped in good order: it was shut down, or it asked its
    /// manager for a restart.
    Finished,
    /// The connection failed in a way that must not be retried, and the
    /// manager knows.
    Failed(GatewayError),
    /// The connection failed in a way that must not be retried, and the
    /// manager could not be told. Nothing is left that could supervise the
    /// shard.
    ManagerUnreachable(GatewayError),
}

/// What the application has to do next. Each request but `Stop` is answered
/// by one [`Reply`].
#[derive(Clone, Debug, PartialEq, Eq)]
pub enum Request {
    /// Look at the control queue without waiting.
    Poll,
    /// Hand a command to the connection.
    Apply(Command),
    /// Wait for the next raw frame.
    AwaitClose,
    /// Ask the connection whether the heartbeat is in order.
    CheckHeartbeat,
    /// Wait a bounded time for a frame, decode it and let the connection
    /// handle it.
    Receive,
    /// Let the connection carry out an operation.
    Perform(ConnectionOp),
    /// Offer the event at hand to the filters of a category.
    Offer(FilterKind),
    /// Tell the manager of a failure, and say whether it could be reached.
    Report(ShardManagerMessage),
    /// Nothing: the runner has ended.
    Stop(Outcome),
}

/// A change of stage of a shard's connection.
#[derive(Clone, Copy, Debug, PartialEq, Eq, Structural, Hash)]
pub struct ShardStageUpdateEvent {
    pub new: ConnectionStage,
    pub old: ConnectionStage,
    pub shard_id: ShardId,
}

/// An event that the runner itself gives rise to.
#[derive(Clone, Copy, Debug, PartialEq, Eq, Structural, Hash)]
pub enum ClientEvent {
    ShardStageUpdate(ShardStageUpdateEvent),
}

/// What goes to the handlers.
#[derive(Clone, Copy, Debug, PartialEq, Eq, Structural, Hash)]
pub enum DispatchEvent {
    Client(ClientEvent),
    /// The decoded event at hand.
    Model(EventKind),
}

/// A signal to the voice subsystem.
#[derive(Clone, Copy, Debug, PartialEq, Eq, Structural, Hash)]
pub enum VoiceSignal {
    /// Route the voice traffic of a shard through this runner.
    Register(u64),
    /// The voice server of a guild changed.
    ServerUpdate(GuildId),
    /// A voice state in a guild changed.
    StateUpdate(GuildId),
    /// Stop routing the voice traffic of a shard.
    Deregister(u64),
}

/// Something to carry out without an answer.
#[derive(Clone, Debug, PartialEq, Eq)]
pub enum Effect {
    /// Send a message to the manager. That it cannot be delivered is no
    /// failure of the runner.
    Notify(ShardManagerMessage),
    /// Hand an event to the handlers, with the index of this shard.
    Dispatch { event: DispatchEvent, shard: u64 },
    /// Signal the voice subsystem.
    Voice(VoiceSignal),
}

/// The result of one transition: the effects that are due, in order, and
/// then the request that the next reply answers.
#[derive(Clone, Debug, PartialEq, Eq)]
pub struct Step {
    pub effects: Vec<Effect>,
    pub next: Request,
}

/// Where in its iteration a runner stands, that is, which reply it waits for.
#[derive(Clone, Copy, Debug, PartialEq, Eq, Structural, Hash)]
pub enum Phase {
    /// Draining the control queue: waits for `Polled`.
    Draining,
    /// A command from the control queue is with the connection: waits for
    /// `Applied`.
    Applying,
    /// The close frame that a control message asked for is with the
    /// connection, and the runner ends after it: waits for `Applied`.
    Leaving,
    /// The close frame of a shutdown is with the connection: waits for
    /// `Applied`.
    Closing(ShardId),
    /// The close frame of the service is awaited: waits for `Awaited`.
    AwaitingClose(ShardId),
    /// The heartbeat is being checked: waits for `Heartbeat`.
    Heartbeat,
    /// A frame is awaited; the stage before the wait is kept: waits for
    /// `Received`.
    Receiving(ConnectionStage),
    /// The transport failed and a resume is under way: waits for
    /// `Performed`.
    Recovering(ConnectionStage),
    /// A failure is on its way to the manager: waits for `Delivered`.
    Reporting(GatewayError),
    /// The action that a frame called for is under way; the event of that
    /// frame is kept: waits for `Performed`.
    Acting(Option<EventKind>),
    /// That action failed and a resume is under way: waits for `Performed`.
    Retrying(Option<EventKind>),
    /// The event is with the filters of a category: waits for `Verdicts`.
    Offering { event: EventKind, kind: FilterKind },
    /// The runner has ended and takes no reply.
    Stopped(Outcome),
}

} // verus!
