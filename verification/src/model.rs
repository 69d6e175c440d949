//! The vocabulary shared by the runner, its manager and the connection.

use core::time::Duration;
use vstd::prelude::*;

verus! {

/// The index of a shard within the pool of a manager.
#[derive(Clone, Copy, Debug, PartialEq, Eq, Structural, Hash)]
pub struct ShardId(pub u64);

/// The identifier of a guild.
#[derive(Clone, Copy, Debug, PartialEq, Eq, Structural, Hash)]
pub struct GuildId(pub u64);

/// The identifier of a user.
#[derive(Clone, Copy, Debug, PartialEq, Eq, Structural, Hash)]
pub struct UserId(pub u64);

/// The handle under which the application keeps a registered collector
/// filter. The runner never looks inside a filter: it only decides which
/// filters are offered an event and which of them stay registered.
#[derive(Clone, Copy, Debug, PartialEq, Eq, Structural, Hash)]
pub struct FilterId(pub u64);

/// The position of a shard in its pool: its index and the size of the pool.
#[derive(Clone, Copy, Debug, PartialEq, Eq, Structural)]
pub struct ShardInfo {
    pub index: u64,
    pub total: u64,
}

/// The lifecycle phase of a shard's connection. The connection owns this
/// value; the runner only compares it across an iteration.
#[derive(Clone, Copy, Debug, PartialEq, Eq, Structural, Hash)]
pub enum ConnectionStage {
    Connected,
    Connecting,
    Disconnected,
    Handshake,
    Identifying,
    Resuming,
}

impl ConnectionStage {
    /// Whether the connection is on its way to being established.
    pub open spec fn connecting(self) -> bool {
        self is Connecting || self is Handshake || self is Identifying || self is Resuming
    }

    /// Whether the connection is on its way to being established: connecting,
    /// in its handshake, identifying or resuming.
    #[verifier::when_used_as_spec(connecting)]
    pub fn is_connecting(self) -> (b: bool)
        ensures
            b == self.connecting(),
    {
        match self {
            ConnectionStage::Connecting
            | ConnectionStage::Handshake
            | ConnectionStage::Identifying
            | ConnectionStage::Resuming => true,
            ConnectionStage::Connected | ConnectionStage::Disconnected => false,
        }
    }
}

/// What the connection reports of itself when asked.
#[derive(Clone, Copy, Debug, PartialEq, Eq)]
pub struct ConnectionStatus {
    pub stage: ConnectionStage,
    pub latency: Option<Duration>,
    pub reconnection: ReconnectType,
}

/// How a lost connection is to be re-established.
#[derive(Clone, Copy, Debug, PartialEq, Eq, Structural, Hash)]
pub enum ReconnectType {
    /// From scratch, giving up the session.
    Reidentify,
    /// With the session id and sequence number of the lost connection.
    Resume,
}

/// An operation that the connection asks the runner to carry out, decided
/// from the latest frame.
#[derive(Clone, Copy, Debug, PartialEq, Eq, Structural, Hash)]
pub enum ShardAction {
    Heartbeat,
    Identify,
    Reconnect(ReconnectType),
}

/// A failure of authentication or authorisation. None of them is ever
/// retried.
#[derive(Clone, Copy, Debug, PartialEq, Eq, Structural, Hash)]
pub enum GatewayError {
    InvalidAuthentication,
    InvalidGatewayIntents,
    DisallowedGatewayIntents,
}

/// The online status shown for the account.
#[derive(Clone, Copy, Debug, PartialEq, Eq, Structural, Hash)]
pub enum OnlineStatus {
    DoNotDisturb,
    Idle,
    Invisible,
    Offline,
    Online,
}

/// The kind of an activity.
#[derive(Clone, Copy, Debug, PartialEq, Eq, Structural, Hash)]
pub enum ActivityType {
    Playing,
    Streaming,
    Listening,
    Watching,
    Competing,
}

/// An activity shown with the presence of the account.
#[derive(Clone, Debug, PartialEq, Eq)]
pub struct ActivityData {
    pub name: String,
    pub kind: ActivityType,
    pub url: Option<String>,
}

/// Which members a chunk request asks for.
#[derive(Clone, Debug, PartialEq, Eq)]
pub enum ChunkGuildFilter {
    /// Every member of the guild.
    Unfiltered,
    /// The members whose name starts with the text.
    Query(String),
    /// The members with these identifiers.
    UserIds(Vec<UserId>),
}

/// The close frame of a websocket.
#[derive(Clone, Debug, PartialEq, Eq)]
pub struct CloseFrame {
    pub code: u16,
    pub reason: String,
}

/// A websocket message that is forwarded as it is.
#[derive(Clone, Debug, PartialEq, Eq)]
pub enum WsMessage {
    Text(String),
    Binary(Vec<u8>),
    Ping(Vec<u8>),
    Pong(Vec<u8>),
    Close(Option<CloseFrame>),
}

/// A message between a runner and the manager of its pool. A runner sends
/// `ShardUpdate`, `Restart`, `ShutdownFinished` and the three error signals;
/// it acts on `Restart` and `Shutdown` and takes no action on the others.
#[derive(Clone, Debug, PartialEq, Eq)]
pub enum ShardManagerMessage {
    Restart(ShardId),
    ShardUpdate { id: ShardId, latency: Option<Duration>, stage: ConnectionStage },
    Shutdown(ShardId, u16),
    ShutdownAll,
    ShutdownInitiated,
    ShutdownFinished(ShardId),
    ShardDisallowedGatewayIntents,
    ShardInvalidAuthentication,
    ShardInvalidGatewayIntents,
}

/// A message addressed to the runner itself.
#[derive(Clone, Debug, PartialEq, Eq)]
pub enum ShardRunnerMessage {
    /// Ask the service for the members of a guild.
    ChunkGuild { guild_id: GuildId, limit: Option<u16>, filter: ChunkGuildFilter, nonce: Option<String> },
    /// Close the connection with a code and a reason.
    Close(u16, Option<String>),
    /// Send a raw websocket message.
    Message(WsMessage),
    SetActivity(Option<ActivityData>),
    SetPresence(OnlineStatus, Option<ActivityData>),
    SetStatus(OnlineStatus),
    /// Register a filter over every decoded event.
    SetEventFilter(FilterId),
    /// Register a filter over created messages.
    SetMessageFilter(FilterId),
    /// Register a filter over added and removed reactions.
    SetReactionFilter(FilterId),
    /// Register a filter over component interactions.
    SetComponentInteractionFilter(FilterId),
    /// Register a filter over submitted modals.
    SetModalInteractionFilter(FilterId),
}

/// A message of either origin.
#[derive(Clone, Debug, PartialEq, Eq)]
pub enum ShardClientMessage {
    Manager(ShardManagerMessage),
    Runner(ShardRunnerMessage),
}

/// What travels over the control queue of a runner.
#[derive(Clone, Debug, PartialEq, Eq)]
pub enum InterMessage {
    Client(Box<ShardClientMessage>),
    /// A serialised payload that is forwarded to the service verbatim.
    Json(String),
}

} // verus!
