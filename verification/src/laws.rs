//! What holds of every session of a runner, proved from the machine.

use crate::machine::{
    event_of, failure_report, first_offer, frame_effects, kept, registration, restart_effects,
    runner_command, shutdown_order, stage_effects, state_after, status_report, RunnerView,
    Transition,
};
use crate::model::{
    ConnectionStage, ConnectionStatus, FilterId, GatewayError, InterMessage, ReconnectType,
    ShardAction, ShardClientMessage, ShardId, ShardInfo, ShardManagerMessage, ShardRunnerMessage,
};
use crate::protocol::{
    Arrival, Command, ConnectionOp, DispatchEvent, Effect, Envelope, Event, EventKind,
    FilterKind, Handled, Outcome, Phase, Polled, Received, Reply, Request,
};
use vstd::prelude::*;

verus! {

/// The event that reports a reply under a status.
pub open spec fn event(reply: Reply, status: ConnectionStatus) -> Event {
    Event { reply, status }
}

/// The messages to the manager among some effects, in order.
pub open spec fn notifications(effects: Seq<Effect>) -> Seq<ShardManagerMessage>
    decreases effects.len(),
{
    if effects.len() == 0 {
        Seq::empty()
    } else {
        let before = notifications(effects.drop_last());
        match effects.last() {
            Effect::Notify(message) => before.push(message),
            _ => before,
        }
    }
}

/// The messages to the manager in a session, in order.
pub open spec fn session_notifications(session: Seq<Transition>) -> Seq<ShardManagerMessage>
    decreases session.len(),
{
    if session.len() == 0 {
        Seq::empty()
    } else {
        notifications(session[0].effects) + session_notifications(session.drop_first())
    }
}

/// The command that a transition hands to the connection, if it hands it
/// one.
pub open spec fn applied(transition: Transition) -> Seq<Command> {
    match transition.next {
        Request::Apply(command) => seq![command],
        _ => Seq::empty(),
    }
}

/// The commands that a session hands to the connection, in order.
pub open spec fn session_commands(session: Seq<Transition>) -> Seq<Command>
    decreases session.len(),
{
    if session.len() == 0 {
        Seq::empty()
    } else {
        applied(session[0]) + session_commands(session.drop_first())
    }
}

/// The operations that a session asks of the connection, in order.
pub open spec fn session_operations(session: Seq<Transition>) -> Seq<ConnectionOp>
    decreases session.len(),
{
    if session.len() == 0 {
        Seq::empty()
    } else {
        let rest = session_operations(session.drop_first());
        match session[0].next {
            Request::Perform(op) => seq![op] + rest,
            _ => rest,
        }
    }
}

/// The command that a control message means for the connection of a shard,
/// if it means one: a payload to forward, a command addressed to the runner,
/// or the close frame of a shutdown that the manager orders of this shard.
pub open spec fn command_of(shard: ShardInfo, message: InterMessage) -> Option<Command> {
    match message {
        InterMessage::Json(payload) => Some(Command::Json(payload)),
        InterMessage::Client(message) => match *message {
            ShardClientMessage::Runner(message) => runner_command(message),
            ShardClientMessage::Manager(message) => match shutdown_order(message) {
                Some((id, code)) => if id.0 == shard.index {
                    Some(Command::Close { code, reason: None })
                } else {
                    None
                },
                None => None,
            },
        },
    }
}

/// The command that an event brings from the control queue, if it brings
/// one.
pub open spec fn arrived(shard: ShardInfo, event: Event) -> Seq<Command> {
    match event.reply {
        Reply::Polled(Polled::Message(message)) => match command_of(shard, message) {
            Some(command) => seq![command],
            None => Seq::empty(),
        },
        _ => Seq::empty(),
    }
}

/// The commands that some events bring from the control queue, in order.
pub open spec fn arrivals(shard: ShardInfo, events: Seq<Event>) -> Seq<Command>
    decreases events.len(),
{
    if events.len() == 0 {
        Seq::empty()
    } else {
        arrived(shard, events[0]) + arrivals(shard, events.drop_first())
    }
}

/// The filter that an event registers with a category, if it registers one
/// with it.
pub open spec fn registered(kind: FilterKind, event: Event) -> Seq<FilterId> {
    match event.reply {
        Reply::Polled(Polled::Message(InterMessage::Client(message))) => match *message {
            ShardClientMessage::Runner(message) => match registration(message) {
                Some((registered, filter)) => if registered == kind {
                    seq![filter]
                } else {
                    Seq::empty()
                },
                None => Seq::empty(),
            },
            _ => Seq::empty(),
        },
        _ => Seq::empty(),
    }
}

/// The filters that some events register with a category, in order.
pub open spec fn registrations(kind: FilterKind, events: Seq<Event>) -> Seq<FilterId>
    decreases events.len(),
{
    if events.len() == 0 {
        Seq::empty()
    } else {
        registered(kind, events[0]) + registrations(kind, events.drop_first())
    }
}

/// Whether an event registers a filter.
pub open spec fn registers(event: Event) -> bool {
    event.reply matches Reply::Polled(Polled::Message(InterMessage::Client(message)))
        && *message matches ShardClientMessage::Runner(message) && registration(message) is Some
}

/// The number of verdicts that report continued interest.
pub open spec fn interested(verdicts: Seq<bool>) -> nat
    decreases verdicts.len(),
{
    if verdicts.len() == 0 {
        0
    } else if verdicts.last() {
        interested(verdicts.drop_last()) + 1
    } else {
        interested(verdicts.drop_last())
    }
}

/// Whether a reply is an answer to a request of a runner in a given state.
pub open spec fn answers(state: RunnerView, request: Request, reply: Reply) -> bool {
    match (request, reply) {
        (Request::Poll, Reply::Polled(_)) => true,
        (Request::Apply(_), Reply::Applied(_)) => true,
        (Request::AwaitClose, Reply::Awaited(_)) => true,
        (Request::CheckHeartbeat, Reply::Heartbeat(_)) => true,
        (Request::Receive, Reply::Received(_)) => true,
        (Request::Perform(_), Reply::Performed(_)) => true,
        (Request::Offer(kind), Reply::Verdicts(verdicts)) => verdicts@.len() == state.filters.of(
            kind,
        ).len(),
        (Request::Report(_), Reply::Delivered(_)) => true,
        _ => false,
    }
}

/// The order of the phases: which phase may follow which. An iteration
/// drains the control queue, checks the heartbeat, waits for a frame, carries
/// out its action, offers and dispatches its event, and begins again. A
/// runner ends while it drains the queue, at the heartbeat, after the wait
/// or after an action, and nowhere else.
pub open spec fn may_follow(before: Phase, after: Phase) -> bool {
    match before {
        Phase::Draining => after is Draining || after is Applying || after is Leaving || after
            is Closing || after is Heartbeat || after == Phase::Stopped(Outcome::Finished),
        Phase::Applying => after is Draining || after == Phase::Stopped(Outcome::Finished),
        Phase::Leaving => after == Phase::Stopped(Outcome::Finished),
        Phase::Closing(id) => after == Phase::AwaitingClose(id),
        Phase::AwaitingClose(id) => after == before || after == Phase::Stopped(Outcome::Finished),
        Phase::Heartbeat => after is Receiving || after == Phase::Stopped(Outcome::Finished),
        Phase::Receiving(pre) => after == Phase::Recovering(pre) || after is Reporting || after
            is Acting || after is Offering || after is Draining || after == Phase::Stopped(
            Outcome::Finished,
        ),
        Phase::Recovering(_) => after is Draining || after == Phase::Stopped(Outcome::Finished),
        Phase::Reporting(error) => after == Phase::Stopped(Outcome::Failed(error)) || after
            == Phase::Stopped(Outcome::ManagerUnreachable(error)),
        Phase::Acting(event) => after == Phase::Retrying(event) || after is Offering || after
            is Draining || after == Phase::Stopped(Outcome::Finished),
        Phase::Retrying(_) => after is Offering || after is Draining || after == Phase::Stopped(
            Outcome::Finished,
        ),
        Phase::Offering { event, kind } => if kind == FilterKind::Event {
            after is Draining
        } else {
            after == (Phase::Offering { event, kind: FilterKind::Event })
        },
        Phase::Stopped(_) => false,
    }
}

/// The events that go to the handlers among some effects, in order.
pub open spec fn dispatched(effects: Seq<Effect>) -> Seq<EventKind>
    decreases effects.len(),
{
    if effects.len() == 0 {
        Seq::empty()
    } else {
        let before = dispatched(effects.drop_last());
        match effects.last() {
            Effect::Dispatch { event: DispatchEvent::Model(event), .. } => before.push(event),
            _ => before,
        }
    }
}

/// The events that go to the handlers in a session, in order.
pub open spec fn session_dispatches(session: Seq<Transition>) -> Seq<EventKind>
    decreases session.len(),
{
    if session.len() == 0 {
        Seq::empty()
    } else {
        dispatched(session[0].effects) + session_dispatches(session.drop_first())
    }
}

/// The event that a reply brings with a frame that the connection took, if
/// it brings one.
pub open spec fn brought(event: Event) -> Seq<EventKind> {
    match event.reply {
        Reply::Received(
            Received::Frame { envelope: Envelope::Dispatch(kind), handled: Handled::Proceed(_) },
        ) => seq![kind],
        _ => Seq::empty(),
    }
}

/// The events that some replies bring with their frames, in order.
pub open spec fn frames(events: Seq<Event>) -> Seq<EventKind>
    decreases events.len(),
{
    if events.len() == 0 {
        Seq::empty()
    } else {
        brought(events[0]) + frames(events.drop_first())
    }
}

/// The event that a runner has at hand in a phase, on its way to the
/// filters and the handlers, if it has one.
pub open spec fn held(phase: Phase) -> Seq<EventKind> {
    match phase {
        Phase::Acting(Some(event)) => seq![event],
        Phase::Retrying(Some(event)) => seq![event],
        Phase::Offering { event, .. } => seq![event],
        _ => Seq::empty(),
    }
}

/// Whether none of some effects hands a decoded event to the handlers.
pub open spec fn silent(effects: Seq<Effect>) -> bool {
    forall|i: int|
        0 <= i < effects.len() ==> !((#[trigger] effects[i]) matches Effect::Dispatch {
            event: DispatchEvent::Model(_),
            ..
        })
}

/// Whether an effect tells the manager that the runner is done with its
/// connection: that it asks for a restart, or that a shutdown is finished.
pub open spec fn is_parting(effect: Effect) -> bool {
    effect matches Effect::Notify(message) && (message is Restart || message is ShutdownFinished)
}

/// The replies of a close handshake: any number of arrivals that are not
/// the close frame, and then the close frame or a failure of the
/// connection.
pub open spec fn close_handshake(events: Seq<Event>) -> bool {
    &&& events.len() > 0
    &&& forall|i: int|
        0 <= i < events.len() - 1 ==> (#[trigger] events[i]).reply == Reply::Awaited(
            Arrival::Other,
        )
    &&& (events.last().reply == Reply::Awaited(Arrival::Close) || events.last().reply
        == Reply::Awaited(Arrival::Error))
}

/// A transition changes neither the shard of a runner nor whether a voice
/// subsystem is attached.
pub proof fn lemma_step_keeps_identity(start: RunnerView, reply: Reply, status: ConnectionStatus)
    ensures
        start.step(reply, status).state.shard == start.shard,
        start.step(reply, status).state.voice == start.voice,
{
}

/// A session has at most as many transitions as there are events.
pub proof fn lemma_session_within_events(start: RunnerView, events: Seq<Event>)
    ensures
        start.run(events).len() <= events.len(),
    decreases events.len(),
{
    if events.len() != 0 && start.accepts(events[0].reply) {
        let first = start.step(events[0].reply, events[0].status);
        lemma_session_within_events(first.state, events.drop_first());
    }
}

/// A runner takes exactly the replies that answer its last request: an
/// application that answers each request is never turned away, and a runner
/// that has asked to stop takes nothing.
pub proof fn lemma_requests_are_answerable(
    start: RunnerView,
    reply: Reply,
    status: ConnectionStatus,
    answer: Reply,
)
    requires
        start.accepts(reply),
    ensures
        ({
            let taken = start.step(reply, status);
            taken.state.accepts(answer) == answers(taken.state, taken.next, answer)
        }),
{
}

/// A new runner takes exactly the answers to `Request::Poll`.
pub proof fn lemma_first_request_is_poll(shard: ShardInfo, voice: bool, answer: Reply)
    ensures
        ({
            let start = RunnerView::initial(shard, voice);
            start.accepts(answer) == answers(start, Request::Poll, answer)
        }),
{
}

/// The phases of a runner follow each other in the order of an iteration,
/// whatever the replies are.
pub proof fn lemma_phases_in_order(start: RunnerView, reply: Reply, status: ConnectionStatus)
    requires
        start.accepts(reply),
    ensures
        may_follow(start.phase, start.step(reply, status).state.phase),
{
}

/// A frame is only ever awaited right after a check of the heartbeat that
/// found it in order.
pub proof fn lemma_heartbeat_is_checked_before_each_wait(
    start: RunnerView,
    reply: Reply,
    status: ConnectionStatus,
)
    requires
        start.accepts(reply),
        start.step(reply, status).next == Request::Receive,
    ensures
        start.phase == Phase::Heartbeat,
        reply == Reply::Heartbeat(true),
{
}

/// A request to stop is the last of its session: the runner has ended when
/// it is made.
pub proof fn lemma_stop_ends_session(start: RunnerView, reply: Reply, status: ConnectionStatus)
    requires
        start.accepts(reply),
    ensures
        start.step(reply, status).next is Stop <==> start.step(reply, status).state.phase
            is Stopped,
        start.step(reply, status).next matches Request::Stop(outcome) ==> start.step(
            reply,
            status,
        ).state.phase == Phase::Stopped(outcome),
{
}

/// A runner that has ended takes no reply: whatever events follow, nothing
/// is asked of the connection and nothing is sent.
pub proof fn lemma_stopped_is_final(start: RunnerView, events: Seq<Event>)
    requires
        start.phase is Stopped,
    ensures
        start.run(events).len() == 0,
{
}

/// A command goes to the connection in the very transition that takes it
/// from the control queue, and nothing else is ever handed to the
/// connection as a command.
pub proof fn lemma_step_applies_what_arrived(start: RunnerView, reply: Reply, status: ConnectionStatus)
    requires
        start.accepts(reply),
    ensures
        applied(start.step(reply, status)) == arrived(start.shard, event(reply, status)),
{
}

/// Control messages are applied in the order of their arrival: the commands
/// that a session hands to the connection are the commands that its events
/// brought from the control queue, one for one and in the same order,
/// whatever frames and other replies come between them.
pub proof fn lemma_commands_in_arrival_order(start: RunnerView, events: Seq<Event>)
    ensures
        start.run(events).len() <= events.len(),
        session_commands(start.run(events)) == arrivals(
            start.shard,
            events.take(start.run(events).len() as int),
        ),
    decreases events.len(),
{
    let session = start.run(events);
    if events.len() == 0 || !start.accepts(events[0].reply) {
        assert(events.take(0) =~= Seq::<Event>::empty());
    } else {
        let first = start.step(events[0].reply, events[0].status);
        let rest = events.drop_first();
        let later = first.state.run(rest);
        lemma_commands_in_arrival_order(first.state, rest);
        lemma_step_applies_what_arrived(start, events[0].reply, events[0].status);
        lemma_step_keeps_identity(start, events[0].reply, events[0].status);
        assert(session == seq![first] + later);
        assert(session.drop_first() =~= later);
        let taken = events.take(session.len() as int);
        assert(taken.drop_first() =~= rest.take(later.len() as int));
        assert(taken[0] == events[0]);
        assert(event(events[0].reply, events[0].status) == events[0]);
    }
}

/// Filters are registered in the order of their arrival: across events that
/// bring no verdicts, the filters of a category after a session are those
/// before it, followed by those that the events of the session registered,
/// one for one and in the same order.
pub proof fn lemma_filters_in_arrival_order(start: RunnerView, events: Seq<Event>, kind: FilterKind)
    requires
        forall|i: int| 0 <= i < events.len() ==> !((#[trigger] events[i]).reply is Verdicts),
    ensures
        start.run(events).len() <= events.len(),
        state_after(start, start.run(events)).filters.of(kind) == start.filters.of(kind)
            + registrations(kind, events.take(start.run(events).len() as int)),
    decreases events.len(),
{
    let session = start.run(events);
    if events.len() == 0 || !start.accepts(events[0].reply) {
        assert(events.take(0) =~= Seq::<Event>::empty());
        assert(start.filters.of(kind) + Seq::<FilterId>::empty() =~= start.filters.of(kind));
    } else {
        let first = start.step(events[0].reply, events[0].status);
        let rest = events.drop_first();
        let later = first.state.run(rest);
        assert forall|i: int| 0 <= i < rest.len() implies !((#[trigger] rest[i]).reply
            is Verdicts) by {
            assert(rest[i] == events[i + 1]);
        }
        lemma_filters_in_arrival_order(first.state, rest, kind);
        assert(!(events[0].reply is Verdicts));
        assert(first.state.filters.of(kind) =~= start.filters.of(kind) + registered(
            kind,
            events[0],
        ));
        assert(session == seq![first] + later);
        let taken = events.take(session.len() as int);
        assert(taken.drop_first() =~= rest.take(later.len() as int));
        assert(taken[0] == events[0]);
        if later.len() == 0 {
            assert(session.last() == first);
        } else {
            assert(session.last() == later.last());
        }
        assert(state_after(start, session) == state_after(first.state, later));
        assert(state_after(start, session).filters.of(kind) =~= start.filters.of(kind)
            + registrations(kind, taken));
    }
}

/// An action to reidentify wins over everything else that the same frame or
/// the connection would allow: the runner asks for a restart and ends, also
/// where the connection would resume, and whatever events follow, no resume
/// or other operation is asked of the connection.
pub proof fn lemma_reidentify_wins(
    start: RunnerView,
    pre: ConnectionStage,
    envelope: Envelope,
    status: ConnectionStatus,
    later: Seq<Event>,
)
    requires
        start.phase == Phase::Receiving(pre),
    ensures
        ({
            let frame = Received::Frame {
                envelope,
                handled: Handled::Proceed(Some(ShardAction::Reconnect(ReconnectType::Reidentify))),
            };
            let session = start.run(seq![event(Reply::Received(frame), status)] + later);
            &&& session.len() == 1
            &&& session[0].next == Request::Stop(Outcome::Finished)
            &&& session_operations(session) == Seq::<ConnectionOp>::empty()
        }),
{
    let frame = Received::Frame {
        envelope,
        handled: Handled::Proceed(Some(ShardAction::Reconnect(ReconnectType::Reidentify))),
    };
    let events = seq![event(Reply::Received(frame), status)] + later;
    let first = start.step(Reply::Received(frame), status);
    assert(events[0] == event(Reply::Received(frame), status));
    lemma_stopped_is_final(first.state, events.drop_first());
    let session = start.run(events);
    assert(session =~= seq![first]);
    assert(session.drop_first() =~= Seq::<Transition>::empty());
    assert(session_operations(session.drop_first()) =~= Seq::empty());
}

/// Where an operation of the connection failed and the connection says that
/// it must reidentify, no resume is tried: the runner asks for a restart and
/// ends.
pub proof fn lemma_no_resume_after_reidentify(
    start: RunnerView,
    status: ConnectionStatus,
    later: Seq<Event>,
)
    requires
        start.phase is Acting || start.phase is Receiving,
        status.reconnection == ReconnectType::Reidentify,
        start.phase is Receiving ==> !status.stage.connecting(),
    ensures
        ({
            let reply = if start.phase is Acting {
                Reply::Performed(false)
            } else {
                Reply::Received(Received::IoError)
            };
            let session = start.run(seq![event(reply, status)] + later);
            &&& session.len() == 1
            &&& session[0].next == Request::Stop(Outcome::Finished)
            &&& session_operations(session) == Seq::<ConnectionOp>::empty()
        }),
{
    let reply = if start.phase is Acting {
        Reply::Performed(false)
    } else {
        Reply::Received(Received::IoError)
    };
    let events = seq![event(reply, status)] + later;
    let first = start.step(reply, status);
    assert(events[0] == event(reply, status));
    lemma_stopped_is_final(first.state, events.drop_first());
    let session = start.run(events);
    assert(session =~= seq![first]);
    assert(session.drop_first() =~= Seq::<Transition>::empty());
    assert(session_operations(session.drop_first()) =~= Seq::empty());
}

/// A failure of authentication or of the intents is never retried: the
/// manager is told once, the runner ends with the failure, and whatever
/// events follow, no command or operation is asked of the connection. If
/// the manager could not be told, the outcome says so.
pub proof fn lemma_fatal_failure_is_reported_once(
    start: RunnerView,
    pre: ConnectionStage,
    envelope: Envelope,
    error: GatewayError,
    status: ConnectionStatus,
    delivered: Event,
    later: Seq<Event>,
)
    requires
        start.phase == Phase::Receiving(pre),
        delivered.reply is Delivered,
    ensures
        ({
            let frame = Received::Frame { envelope, handled: Handled::Fatal(error) };
            let session = start.run(
                seq![event(Reply::Received(frame), status), delivered] + later,
            );
            &&& session.len() == 2
            &&& session[0].effects == Seq::<Effect>::empty()
            &&& session[0].next == Request::Report(failure_report(error))
            &&& session[1].effects == Seq::<Effect>::empty()
            &&& session[1].next == Request::Stop(
                if delivered.reply == Reply::Delivered(true) {
                    Outcome::Failed(error)
                } else {
                    Outcome::ManagerUnreachable(error)
                },
            )
            &&& session_commands(session) == Seq::<Command>::empty()
            &&& session_operations(session) == Seq::<ConnectionOp>::empty()
        }),
{
    let frame = Received::Frame { envelope, handled: Handled::Fatal(error) };
    let events = seq![event(Reply::Received(frame), status), delivered] + later;
    let first = start.step(Reply::Received(frame), status);
    let second = first.state.step(delivered.reply, delivered.status);
    assert(events[0] == event(Reply::Received(frame), status));
    assert(events.drop_first()[0] == delivered);
    lemma_stopped_is_final(second.state, events.drop_first().drop_first());
    assert(first.state.run(events.drop_first()) =~= seq![second]);
    let session = start.run(events);
    assert(session =~= seq![first, second]);
    assert(session.drop_first() =~= seq![second]);
    assert(session.drop_first().drop_first() =~= Seq::<Transition>::empty());
    assert(session_commands(session.drop_first().drop_first()) =~= Seq::empty());
    assert(session_operations(session.drop_first().drop_first()) =~= Seq::empty());
    assert(session_commands(session.drop_first()) =~= Seq::empty());
    assert(session_operations(session.drop_first()) =~= Seq::empty());
}

/// A transition that asks to stop is the last of its session.
pub proof fn lemma_stop_is_last(start: RunnerView, events: Seq<Event>, i: int)
    requires
        0 <= i < start.run(events).len(),
        start.run(events)[i].next is Stop,
    ensures
        i == start.run(events).len() - 1,
    decreases events.len(),
{
    let first = start.step(events[0].reply, events[0].status);
    let later = first.state.run(events.drop_first());
    assert(start.run(events) == seq![first] + later);
    if i == 0 {
        lemma_stop_ends_session(start, events[0].reply, events[0].status);
        lemma_stopped_is_final(first.state, events.drop_first());
    } else {
        assert(start.run(events)[i] == later[i - 1]);
        lemma_stop_is_last(first.state, events.drop_first(), i - 1);
    }
}

/// Whether none of some effects tells the manager that the runner is done
/// with its connection.
pub open spec fn quiet(effects: Seq<Effect>) -> bool {
    forall|i: int| 0 <= i < effects.len() ==> !is_parting(#[trigger] effects[i])
}

/// Whether a transition tells the manager at most once that the runner is
/// done with its connection, and only as it ends the runner.
pub open spec fn parts_once(taken: Transition) -> bool {
    forall|i: int, j: int|
        0 <= i < taken.effects.len() && 0 <= j < taken.effects.len() && is_parting(
            #[trigger] taken.effects[i],
        ) && is_parting(#[trigger] taken.effects[j]) ==> i == j && taken.next == Request::Stop(
            Outcome::Finished,
        )
}

/// A request for a restart after effects that are quiet asks for the
/// restart once.
proof fn lemma_restart_parts_once(start: RunnerView, before: Seq<Effect>, status: ConnectionStatus)
    requires
        quiet(before),
    ensures
        parts_once(start.request_restart(before, status)),
{
    let taken = start.request_restart(before, status);
    let asked = restart_effects(start.shard, start.voice, status);
    assert(taken.effects == before + asked);
    assert forall|i: int| 0 <= i < taken.effects.len() && is_parting(
        #[trigger] taken.effects[i],
    ) implies i == before.len() + 1 by {
        if i < before.len() {
            assert(taken.effects[i] == before[i]);
        } else {
            assert(taken.effects[i] == asked[i - before.len()]);
        }
    }
}

/// The end of an iteration after effects that are quiet asks for a restart
/// at most once.
proof fn lemma_conclude_parts_once(
    start: RunnerView,
    before: Seq<Effect>,
    successful: bool,
    status: ConnectionStatus,
)
    requires
        quiet(before),
    ensures
        parts_once(start.conclude(before, successful, status)),
        forall|event: Option<EventKind>|
            parts_once(#[trigger] start.deliver(before, event, successful, status)),
{
    lemma_restart_parts_once(start, before, status);
}

/// What follows the wait for a frame, after effects that are quiet, asks for
/// a restart at most once.
proof fn lemma_settle_parts_once(
    start: RunnerView,
    pre: ConnectionStage,
    before: Seq<Effect>,
    event: Option<EventKind>,
    action: Option<ShardAction>,
    successful: bool,
    status: ConnectionStatus,
)
    requires
        quiet(before),
    ensures
        parts_once(start.settle(pre, before, event, action, successful, status)),
{
    let effects = before + stage_effects(start.shard, pre, status);
    assert(quiet(effects)) by {
        assert forall|i: int| 0 <= i < effects.len() implies !is_parting(#[trigger] effects[i]) by {
            if i < before.len() {
                assert(effects[i] == before[i]);
            } else {
                assert(effects[i] == stage_effects(start.shard, pre, status)[i - before.len()]);
            }
        }
    }
    lemma_restart_parts_once(start, effects, status);
    lemma_conclude_parts_once(start, effects, successful, status);
}

/// A transition tells the manager at most once that the runner is done with
/// its connection, and only as it ends the runner.
pub proof fn lemma_step_parts_once(start: RunnerView, reply: Reply, status: ConnectionStatus)
    requires
        start.accepts(reply),
    ensures
        parts_once(start.step(reply, status)),
{
    let none = Seq::<Effect>::empty();
    assert(quiet(none));
    lemma_restart_parts_once(start, none, status);
    match (start.phase, reply) {
        (Phase::Receiving(pre), Reply::Received(received)) => {
            match received {
                Received::Frame { envelope, handled: Handled::Proceed(action) } => {
                    let before = frame_effects(start.shard, start.voice, envelope, status);
                    assert(quiet(before));
                    lemma_settle_parts_once(
                        start,
                        pre,
                        before,
                        event_of(envelope),
                        action,
                        true,
                        status,
                    );
                },
                _ => {
                    lemma_settle_parts_once(start, pre, none, None, None, true, status);
                    lemma_settle_parts_once(start, pre, none, None, None, false, status);
                },
            }
        },
        (Phase::Recovering(pre), Reply::Performed(ok)) => {
            lemma_settle_parts_once(start, pre, none, None, None, ok, status);
        },
        (Phase::Acting(event), Reply::Performed(_)) => {
            lemma_conclude_parts_once(start, none, true, status);
        },
        (Phase::Retrying(event), Reply::Performed(_)) => {
            lemma_conclude_parts_once(start, none, true, status);
        },
        (Phase::Offering { event, kind }, Reply::Verdicts(verdicts)) => {
            let compacted = RunnerView {
                filters: start.filters.with(kind, kept(start.filters.of(kind), verdicts@)),
                ..start
            };
            let dispatched = seq![
                Effect::Dispatch { event: DispatchEvent::Model(event), shard: start.shard.index },
            ];
            assert(quiet(dispatched));
            lemma_conclude_parts_once(compacted, dispatched, true, status);
        },
        _ => {},
    }
}

/// In the whole of a session the manager is told at most once that the
/// runner is done with its connection: a runner asks for one restart or
/// reports one finished shutdown, never both and never twice, and it does so
/// in its last transition.
pub proof fn lemma_session_parts_once(
    start: RunnerView,
    events: Seq<Event>,
    i: int,
    j: int,
    k: int,
    l: int,
)
    requires
        0 <= i < start.run(events).len(),
        0 <= j < start.run(events)[i].effects.len(),
        is_parting(start.run(events)[i].effects[j]),
        0 <= k < start.run(events).len(),
        0 <= l < start.run(events)[k].effects.len(),
        is_parting(start.run(events)[k].effects[l]),
    ensures
        i == k,
        j == l,
        i == start.run(events).len() - 1,
        start.run(events)[i].next == Request::Stop(Outcome::Finished),
{
    let session = start.run(events);
    lemma_transitions_part_once(start, events, i);
    lemma_transitions_part_once(start, events, k);
    assert(parts_once(session[i]));
    assert(parts_once(session[k]));
    assert(is_parting(session[i].effects[j]) && is_parting(session[i].effects[j]));
    assert(is_parting(session[k].effects[l]) && is_parting(session[k].effects[l]));
    lemma_stop_is_last(start, events, i);
    lemma_stop_is_last(start, events, k);
}

/// Each transition of a session tells the manager at most once that the
/// runner is done with its connection.
pub proof fn lemma_transitions_part_once(start: RunnerView, events: Seq<Event>, i: int)
    requires
        0 <= i < start.run(events).len(),
    ensures
        parts_once(start.run(events)[i]),
    decreases events.len(),
{
    let first = start.step(events[0].reply, events[0].status);
    let later = first.state.run(events.drop_first());
    assert(start.run(events) == seq![first] + later);
    if i == 0 {
        lemma_step_parts_once(start, events[0].reply, events[0].status);
    } else {
        assert(start.run(events)[i] == later[i - 1]);
        lemma_transitions_part_once(first.state, events.drop_first(), i - 1);
    }
}

/// An order to shut down or to restart another shard changes nothing: the
/// runner stays as it is, nothing is sent, and it goes on with its control
/// queue.
pub proof fn lemma_foreign_shutdown_is_ignored(
    start: RunnerView,
    order: ShardManagerMessage,
    status: ConnectionStatus,
)
    requires
        start.phase == Phase::Draining,
        shutdown_order(order) matches Some((id, _)) && id.0 != start.shard.index,
    ensures
        ({
            let message = InterMessage::Client(Box::new(ShardClientMessage::Manager(order)));
            let taken = start.step(Reply::Polled(Polled::Message(message)), status);
            &&& taken.state == start
            &&& taken.effects == Seq::<Effect>::empty()
            &&& taken.next == Request::Poll
        }),
{
}

/// A runner that awaits the close frame of the service goes through the
/// handshake to its end, and tells the manager once that the shutdown is
/// finished, and nothing else.
pub proof fn lemma_handshake_finishes_once(start: RunnerView, id: ShardId, events: Seq<Event>)
    requires
        start.phase == Phase::AwaitingClose(id),
        close_handshake(events),
    ensures
        start.run(events).len() == events.len(),
        start.run(events).last().next == Request::Stop(Outcome::Finished),
        session_notifications(start.run(events)) == seq![ShardManagerMessage::ShutdownFinished(id)],
        session_commands(start.run(events)) == Seq::<Command>::empty(),
    decreases events.len(),
{
    let first = start.step(events[0].reply, events[0].status);
    let rest = events.drop_first();
    let session = start.run(events);
    assert(session == seq![first] + first.state.run(rest));
    assert(session.drop_first() =~= first.state.run(rest));
    if events.len() == 1 {
        assert(events[0] == events.last());
        assert(first.state.run(rest) =~= Seq::<Transition>::empty());
        lemma_notifications_one(Effect::Notify(ShardManagerMessage::ShutdownFinished(id)));
        assert(session_notifications(session.drop_first()) =~= Seq::empty());
        assert(session_commands(session.drop_first()) =~= Seq::empty());
    } else {
        assert(events[0].reply == Reply::Awaited(Arrival::Other));
        assert(rest.last() == events.last());
        assert forall|i: int| 0 <= i < rest.len() - 1 implies (#[trigger] rest[i]).reply
            == Reply::Awaited(Arrival::Other) by {
            assert(rest[i] == events[i + 1]);
        }
        lemma_handshake_finishes_once(first.state, id, rest);
        assert(notifications(first.effects) =~= Seq::empty());
        assert(session.last() == first.state.run(rest).last());
    }
}

/// A shutdown that the manager orders of this shard always ends with
/// exactly one notification that it is finished, whether the close frame
/// could be sent or not, whatever else arrives before the close frame of
/// the service, and also where a failure of the connection ends the wait
/// in its place. The one command that goes to the connection is the close
/// frame with the code of the order.
pub proof fn lemma_shutdown_finishes_once(
    start: RunnerView,
    order: Event,
    sent: Event,
    handshake: Seq<Event>,
)
    requires
        start.phase == Phase::Draining,
        order.reply matches Reply::Polled(
            Polled::Message(InterMessage::Client(message)),
        ) && *message matches ShardClientMessage::Manager(order) && shutdown_order(order)
            matches Some((id, _)) && id.0 == start.shard.index,
        sent.reply is Applied,
        close_handshake(handshake),
    ensures
        ({
            let events = seq![order, sent] + handshake;
            let session = start.run(events);
            let id = ShardId(start.shard.index);
            &&& session.len() == events.len()
            &&& session.last().next == Request::Stop(Outcome::Finished)
            &&& session_notifications(session) == seq![ShardManagerMessage::ShutdownFinished(id)]
            &&& session_commands(session) == arrived(start.shard, order)
            &&& arrived(start.shard, order).len() == 1
        }),
{
    let events = seq![order, sent] + handshake;
    let id = ShardId(start.shard.index);
    let first = start.step(order.reply, order.status);
    let second = first.state.step(sent.reply, sent.status);
    let session = start.run(events);
    let tail = second.state.run(handshake);
    assert(events[0] == order);
    assert(events.drop_first()[0] == sent);
    assert(events.drop_first().drop_first() =~= handshake);
    assert(first.state.phase == Phase::Closing(id));
    assert(first.state.run(events.drop_first()) == seq![second] + tail);
    assert(session == seq![first] + (seq![second] + tail));
    assert(session.drop_first() =~= seq![second] + tail);
    assert(session.drop_first().drop_first() =~= tail);
    lemma_handshake_finishes_once(second.state, id, handshake);
    assert(session.last() == tail.last());
    assert(notifications(first.effects) =~= Seq::empty());
    assert(notifications(second.effects) =~= Seq::empty());
    assert(session_notifications(session.drop_first()) == notifications(second.effects)
        + session_notifications(tail));
    assert(session_commands(session.drop_first()) == applied(second) + session_commands(tail));
}

/// The notifications among a single effect.
pub proof fn lemma_notifications_one(effect: Effect)
    ensures
        notifications(seq![effect]) == (match effect {
            Effect::Notify(message) => seq![message],
            _ => Seq::empty(),
        }),
{
    assert(seq![effect].drop_last() =~= Seq::<Effect>::empty());
    assert(notifications(seq![effect].drop_last()) =~= Seq::empty());
    assert(seq![effect].last() == effect);
    match effect {
        Effect::Notify(message) => {
            assert(Seq::<ShardManagerMessage>::empty().push(message) =~= seq![message]);
        },
        _ => {},
    }
}

/// What a request for a restart sends to the manager: the status of the
/// connection, and then one request to restart the shard.
pub proof fn lemma_restart_notifications(shard: ShardInfo, voice: bool, status: ConnectionStatus)
    ensures
        notifications(restart_effects(shard, voice, status)) == seq![
            status_report(shard, status),
            ShardManagerMessage::Restart(ShardId(shard.index)),
        ],
{
    let report = Effect::Notify(status_report(shard, status));
    let restart = Effect::Notify(ShardManagerMessage::Restart(ShardId(shard.index)));
    let asked = seq![report, restart];
    lemma_notifications_one(report);
    assert(asked.drop_last() =~= seq![report]);
    assert(notifications(asked) =~= seq![
        status_report(shard, status),
        ShardManagerMessage::Restart(ShardId(shard.index)),
    ]);
    if voice {
        assert(restart_effects(shard, voice, status).drop_last() =~= asked);
    }
}

/// A heartbeat that is not in order always ends the runner with exactly one
/// request for a restart: the status and the request go to the manager, and
/// whatever events follow, nothing is handed to the connection any more.
pub proof fn lemma_heartbeat_failure_restarts_once(
    start: RunnerView,
    status: ConnectionStatus,
    later: Seq<Event>,
)
    requires
        start.phase == Phase::Heartbeat,
    ensures
        ({
            let session = start.run(seq![event(Reply::Heartbeat(false), status)] + later);
            &&& session.len() == 1
            &&& session[0].next == Request::Stop(Outcome::Finished)
            &&& session_notifications(session) == seq![
                status_report(start.shard, status),
                ShardManagerMessage::Restart(ShardId(start.shard.index)),
            ]
            &&& session_commands(session) == Seq::<Command>::empty()
            &&& session_operations(session) == Seq::<ConnectionOp>::empty()
        }),
{
    let events = seq![event(Reply::Heartbeat(false), status)] + later;
    let first = start.step(Reply::Heartbeat(false), status);
    assert(events[0] == event(Reply::Heartbeat(false), status));
    lemma_stopped_is_final(first.state, events.drop_first());
    let session = start.run(events);
    assert(session =~= seq![first]);
    assert(session.drop_first() =~= Seq::<Transition>::empty());
    lemma_restart_notifications(start.shard, start.voice, status);
    assert(first.effects =~= restart_effects(start.shard, start.voice, status));
    assert(session_notifications(session.drop_first()) =~= Seq::empty());
    assert(session_commands(session.drop_first()) =~= Seq::empty());
    assert(session_operations(session.drop_first()) =~= Seq::empty());
}

/// As many filters stay as report continued interest, so that there are
/// never more of them after an event than before it.
pub proof fn lemma_kept_shrinks(filters: Seq<FilterId>, verdicts: Seq<bool>)
    requires
        filters.len() == verdicts.len(),
    ensures
        kept(filters, verdicts).len() == interested(verdicts),
        kept(filters, verdicts).len() <= filters.len(),
    decreases filters.len(),
{
    if filters.len() != 0 {
        lemma_kept_shrinks(filters.drop_last(), verdicts.drop_last());
    }
}

/// Once none of them reports continued interest, the filters of a category
/// are gone.
pub proof fn lemma_kept_none(filters: Seq<FilterId>, verdicts: Seq<bool>)
    requires
        filters.len() == verdicts.len(),
        forall|i: int| 0 <= i < verdicts.len() ==> !verdicts[i],
    ensures
        kept(filters, verdicts) == Seq::<FilterId>::empty(),
    decreases filters.len(),
{
    if filters.len() != 0 {
        lemma_kept_none(filters.drop_last(), verdicts.drop_last());
    }
}

/// Each filter that stays was registered and said that it is still
/// interested.
pub proof fn lemma_kept_from(filters: Seq<FilterId>, verdicts: Seq<bool>, i: int)
    requires
        filters.len() == verdicts.len(),
        0 <= i < kept(filters, verdicts).len(),
    ensures
        exists|a: int|
            0 <= a < filters.len() && verdicts[a] && filters[a] == kept(filters, verdicts)[i],
    decreases filters.len(),
{
    let n = filters.len() - 1;
    let before = kept(filters.drop_last(), verdicts.drop_last());
    if verdicts.last() && i == before.len() {
        assert(0 <= n < filters.len() && verdicts[n] && filters[n] == kept(filters, verdicts)[i]);
    } else {
        lemma_kept_from(filters.drop_last(), verdicts.drop_last(), i);
        let a = choose|a: int|
            0 <= a < filters.drop_last().len() && verdicts.drop_last()[a] && filters.drop_last()[a]
                == before[i];
        assert(0 <= a < filters.len() && verdicts[a] && filters[a] == kept(filters, verdicts)[i]);
    }
}

/// Each filter that stays was registered and said that it is still
/// interested, and the filters that stay keep their order.
pub proof fn lemma_kept_in_order(filters: Seq<FilterId>, verdicts: Seq<bool>, i: int, j: int)
    requires
        filters.len() == verdicts.len(),
        0 <= i < j < kept(filters, verdicts).len(),
    ensures
        exists|a: int, b: int|
            0 <= a < b < filters.len() && verdicts[a] && verdicts[b] && filters[a] == kept(
                filters,
                verdicts,
            )[i] && filters[b] == kept(filters, verdicts)[j],
    decreases filters.len(),
{
    let n = filters.len() - 1;
    let before = kept(filters.drop_last(), verdicts.drop_last());
    if verdicts.last() && j == before.len() {
        lemma_kept_from(filters.drop_last(), verdicts.drop_last(), i);
        let a = choose|a: int|
            0 <= a < filters.drop_last().len() && verdicts.drop_last()[a] && filters.drop_last()[a]
                == before[i];
        assert(0 <= a < n && verdicts[a] && verdicts[n] && filters[a] == kept(filters, verdicts)[i]
            && filters[n] == kept(filters, verdicts)[j]);
    } else {
        lemma_kept_in_order(filters.drop_last(), verdicts.drop_last(), i, j);
        let (a, b) = choose|a: int, b: int|
            0 <= a < b < filters.drop_last().len() && verdicts.drop_last()[a]
                && verdicts.drop_last()[b] && filters.drop_last()[a] == before[i]
                && filters.drop_last()[b] == before[j];
        assert(0 <= a < b < filters.len() && verdicts[a] && verdicts[b] && filters[a] == kept(
            filters,
            verdicts,
        )[i] && filters[b] == kept(filters, verdicts)[j]);
    }
}

/// No transition but the registration of a filter adds a filter to any
/// category.
pub proof fn lemma_step_never_adds_filters(
    start: RunnerView,
    reply: Reply,
    status: ConnectionStatus,
    kind: FilterKind,
)
    requires
        start.accepts(reply),
        !registers(event(reply, status)),
    ensures
        start.step(reply, status).state.filters.of(kind).len() <= start.filters.of(kind).len(),
{
    match (start.phase, reply) {
        (Phase::Offering { kind: offered, .. }, Reply::Verdicts(verdicts)) => {
            lemma_kept_shrinks(start.filters.of(offered), verdicts@);
        },
        _ => {},
    }
}

/// Filters only ever leave: across any events none of which registers a
/// filter, no category has more filters after the session than before it.
pub proof fn lemma_filters_never_grow(start: RunnerView, events: Seq<Event>, kind: FilterKind)
    requires
        forall|i: int| 0 <= i < events.len() ==> !registers(#[trigger] events[i]),
    ensures
        state_after(start, start.run(events)).filters.of(kind).len() <= start.filters.of(
            kind,
        ).len(),
    decreases events.len(),
{
    if events.len() != 0 && start.accepts(events[0].reply) {
        let first = start.step(events[0].reply, events[0].status);
        let rest = events.drop_first();
        let later = first.state.run(rest);
        assert(!registers(events[0]));
        assert(event(events[0].reply, events[0].status) == events[0]);
        lemma_step_never_adds_filters(start, events[0].reply, events[0].status, kind);
        assert forall|i: int| 0 <= i < rest.len() implies !registers(#[trigger] rest[i]) by {
            assert(rest[i] == events[i + 1]);
        }
        lemma_filters_never_grow(first.state, rest, kind);
        let session = start.run(events);
        assert(session == seq![first] + later);
        if later.len() == 0 {
            assert(session.last() == first);
        } else {
            assert(session.last() == later.last());
        }
    }
}

/// When every filter of the category that an event is offered to says that
/// it is no longer interested, that category is empty afterwards.
pub proof fn lemma_uninterested_filters_leave(
    start: RunnerView,
    offered: EventKind,
    kind: FilterKind,
    verdicts: Vec<bool>,
    status: ConnectionStatus,
)
    requires
        start.phase == (Phase::Offering { event: offered, kind }),
        verdicts@.len() == start.filters.of(kind).len(),
        forall|i: int| 0 <= i < verdicts@.len() ==> !verdicts@[i],
    ensures
        start.step(Reply::Verdicts(verdicts), status).state.filters.of(kind) == Seq::<
            FilterId,
        >::empty(),
{
    lemma_kept_none(start.filters.of(kind), verdicts@);
}

/// An event that is on its way to the filters reaches the handlers exactly
/// once, after the filters of its subtype and the filters over every event
/// have seen it, and whatever their verdicts are. Then the next iteration
/// begins.
pub proof fn lemma_offered_event_is_dispatched_once(
    start: RunnerView,
    offered: EventKind,
    typed: Event,
    all: Event,
)
    requires
        start.phase == (Phase::Offering { event: offered, kind: first_offer(offered) }),
        typed.reply matches Reply::Verdicts(verdicts) && verdicts@.len() == start.filters.of(
            first_offer(offered),
        ).len(),
        all.reply matches Reply::Verdicts(verdicts) && verdicts@.len() == start.filters.of(
            FilterKind::Event,
        ).len(),
    ensures
        ({
            let events = if first_offer(offered) == FilterKind::Event {
                seq![all]
            } else {
                seq![typed, all]
            };
            let session = start.run(events);
            &&& session.len() == events.len()
            &&& session.last().next == Request::Poll
            &&& session.last().effects == seq![
                Effect::Dispatch { event: DispatchEvent::Model(offered), shard: start.shard.index },
            ]
            &&& forall|i: int|
                0 <= i < session.len() - 1 ==> (#[trigger] session[i]).effects == Seq::<
                    Effect,
                >::empty() && session[i].next == Request::Offer(FilterKind::Event)
        }),
{
    if first_offer(offered) == FilterKind::Event {
        let events = seq![all];
        let first = start.step(all.reply, all.status);
        assert(events[0] == all);
        assert(first.state.run(events.drop_first()) =~= Seq::<Transition>::empty());
        assert(start.run(events) =~= seq![first]);
    } else {
        let events = seq![typed, all];
        let first = start.step(typed.reply, typed.status);
        let second = first.state.step(all.reply, all.status);
        assert(events[0] == typed);
        assert(events.drop_first()[0] == all);
        assert(first.state.filters.of(FilterKind::Event) == start.filters.of(FilterKind::Event));
        assert(second.state.run(events.drop_first().drop_first()) =~= Seq::<Transition>::empty());
        assert(first.state.run(events.drop_first()) =~= seq![second]);
        assert(start.run(events) =~= seq![first, second]);
    }
}

/// A close that a control message asks for is the last thing that a runner
/// hands to its connection: the close frame goes out with its code and its
/// reason, and the runner ends after it, whether or not the connection took
/// it, without a word to the manager and whatever events follow.
pub proof fn lemma_close_ends_the_runner(
    start: RunnerView,
    code: u16,
    reason: Option<String>,
    status: ConnectionStatus,
    sent: Event,
    later: Seq<Event>,
)
    requires
        start.phase == Phase::Draining,
        sent.reply is Applied,
    ensures
        ({
            let close = InterMessage::Client(
                Box::new(ShardClientMessage::Runner(ShardRunnerMessage::Close(code, reason))),
            );
            let session = start.run(
                seq![event(Reply::Polled(Polled::Message(close)), status), sent] + later,
            );
            &&& session.len() == 2
            &&& session[0].effects == Seq::<Effect>::empty()
            &&& session[0].next == Request::Apply(Command::Close { code, reason })
            &&& session[1].effects == Seq::<Effect>::empty()
            &&& session[1].next == Request::Stop(Outcome::Finished)
            &&& session_commands(session) == seq![Command::Close { code, reason }]
        }),
{
    let close = InterMessage::Client(
        Box::new(ShardClientMessage::Runner(ShardRunnerMessage::Close(code, reason))),
    );
    let asked = event(Reply::Polled(Polled::Message(close)), status);
    let events = seq![asked, sent] + later;
    let first = start.step(asked.reply, asked.status);
    let second = first.state.step(sent.reply, sent.status);
    assert(events[0] == asked);
    assert(events.drop_first()[0] == sent);
    lemma_stopped_is_final(second.state, events.drop_first().drop_first());
    assert(first.state.run(events.drop_first()) =~= seq![second]);
    let session = start.run(events);
    assert(session =~= seq![first, second]);
    assert(session.drop_first() =~= seq![second]);
    assert(session.drop_first().drop_first() =~= Seq::<Transition>::empty());
    assert(session_commands(session.drop_first().drop_first()) =~= Seq::empty());
    assert(session_commands(session.drop_first()) =~= Seq::empty());
    assert(session_commands(session) =~= seq![Command::Close { code, reason }]);
}

/// Effects none of which hands an event to the handlers hand none to them.
proof fn lemma_silent_dispatches_nothing(effects: Seq<Effect>)
    requires
        silent(effects),
    ensures
        dispatched(effects) == Seq::<EventKind>::empty(),
    decreases effects.len(),
{
    if effects.len() != 0 {
        assert(silent(effects.drop_last())) by {
            assert forall|i: int| 0 <= i < effects.drop_last().len() implies !((
            #[trigger] effects.drop_last()[i]) matches Effect::Dispatch {
                event: DispatchEvent::Model(_),
                ..
            }) by {
                assert(effects.drop_last()[i] == effects[i]);
            }
        }
        lemma_silent_dispatches_nothing(effects.drop_last());
        assert(effects.last() == effects[effects.len() - 1]);
    }
}

/// A request for a restart after silent effects is silent.
proof fn lemma_restart_is_silent(start: RunnerView, before: Seq<Effect>, status: ConnectionStatus)
    requires
        silent(before),
    ensures
        silent(start.request_restart(before, status).effects),
{
    let taken = start.request_restart(before, status);
    let asked = restart_effects(start.shard, start.voice, status);
    assert(taken.effects == before + asked);
    assert forall|i: int| 0 <= i < taken.effects.len() implies !((
    #[trigger] taken.effects[i]) matches Effect::Dispatch { event: DispatchEvent::Model(_), .. }) by {
        if i < before.len() {
            assert(taken.effects[i] == before[i]);
        } else {
            assert(taken.effects[i] == asked[i - before.len()]);
        }
    }
}

/// What follows the wait for a frame, after silent effects, is silent: an
/// event never reaches the handlers before the filters have seen it.
proof fn lemma_settle_is_silent(
    start: RunnerView,
    pre: ConnectionStage,
    before: Seq<Effect>,
    event: Option<EventKind>,
    action: Option<ShardAction>,
    successful: bool,
    status: ConnectionStatus,
)
    requires
        silent(before),
    ensures
        silent(start.settle(pre, before, event, action, successful, status).effects),
{
    let effects = before + stage_effects(start.shard, pre, status);
    assert(silent(effects)) by {
        assert forall|i: int| 0 <= i < effects.len() implies !((
        #[trigger] effects[i]) matches Effect::Dispatch { event: DispatchEvent::Model(_), .. }) by {
            if i < before.len() {
                assert(effects[i] == before[i]);
            } else {
                assert(effects[i] == stage_effects(start.shard, pre, status)[i - before.len()]);
            }
        }
    }
    lemma_restart_is_silent(start, effects, status);
}

/// A transition hands an event to the handlers only as it takes the verdicts
/// of the filters over every event, and then it hands them the one event
/// that it has at hand.
pub proof fn lemma_step_dispatches_what_it_holds(
    start: RunnerView,
    reply: Reply,
    status: ConnectionStatus,
)
    requires
        start.accepts(reply),
    ensures
        dispatched(start.step(reply, status).effects) == (match start.phase {
            Phase::Offering { event, kind: FilterKind::Event } => seq![event],
            _ => Seq::<EventKind>::empty(),
        }),
{
    let none = Seq::<Effect>::empty();
    let taken = start.step(reply, status);
    assert(silent(none));
    lemma_restart_is_silent(start, none, status);
    match (start.phase, reply) {
        (Phase::Offering { event, kind }, Reply::Verdicts(verdicts)) => {
            if kind == FilterKind::Event {
                let handed = Effect::Dispatch {
                    event: DispatchEvent::Model(event),
                    shard: start.shard.index,
                };
                assert(taken.effects == seq![handed]);
                assert(seq![handed].drop_last() =~= none);
                assert(dispatched(seq![handed].drop_last()) =~= Seq::<EventKind>::empty());
                assert(seq![handed].last() == handed);
                assert(dispatched(taken.effects) =~= seq![event]);
            } else {
                lemma_silent_dispatches_nothing(taken.effects);
            }
        },
        (Phase::Receiving(pre), Reply::Received(received)) => {
            match received {
                Received::Frame { envelope, handled: Handled::Proceed(action) } => {
                    let before = frame_effects(start.shard, start.voice, envelope, status);
                    assert(silent(before));
                    lemma_settle_is_silent(
                        start,
                        pre,
                        before,
                        event_of(envelope),
                        action,
                        true,
                        status,
                    );
                },
                _ => {
                    lemma_settle_is_silent(start, pre, none, None, None, true, status);
                    lemma_settle_is_silent(start, pre, none, None, None, false, status);
                },
            }
            lemma_silent_dispatches_nothing(taken.effects);
        },
        (Phase::Recovering(pre), Reply::Performed(ok)) => {
            lemma_settle_is_silent(start, pre, none, None, None, ok, status);
            lemma_silent_dispatches_nothing(taken.effects);
        },
        _ => {
            assert(silent(taken.effects));
            lemma_silent_dispatches_nothing(taken.effects);
        },
    }
}

/// A runner has one event at hand at most. A transition that does not end
/// the runner either keeps the event at hand, or hands it to the handlers,
/// or takes the event of a new frame in hand when it has none; a transition
/// that ends the runner hands nothing to the handlers.
pub proof fn lemma_step_passes_its_event_on(
    start: RunnerView,
    reply: Reply,
    status: ConnectionStatus,
)
    requires
        start.accepts(reply),
    ensures
        ({
            let taken = start.step(reply, status);
            let before = held(start.phase) + brought(event(reply, status));
            if taken.state.phase is Stopped {
                dispatched(taken.effects) == Seq::<EventKind>::empty() && before.len() <= 1
            } else {
                before == dispatched(taken.effects) + held(taken.state.phase)
            }
        }),
{
    lemma_step_dispatches_what_it_holds(start, reply, status);
    let taken = start.step(reply, status);
    let before = held(start.phase) + brought(event(reply, status));
    if !(taken.state.phase is Stopped) {
        assert(before =~= dispatched(taken.effects) + held(taken.state.phase));
    }
}

/// Events reach the handlers in the order of their frames: what a session
/// hands to the handlers are the events that its frames brought, one for one
/// and in the same order, but for the last of them where it is still at hand
/// as the session ends, or was given up as the runner ended. No event is
/// handed over twice, none overtakes another, and none is made up.
pub proof fn lemma_events_in_frame_order(start: RunnerView, events: Seq<Event>)
    ensures
        ({
            let session = start.run(events);
            let arrived = held(start.phase) + frames(events.take(session.len() as int));
            let handed = session_dispatches(session);
            &&& session.len() <= events.len()
            &&& handed.len() <= arrived.len() <= handed.len() + 1
            &&& handed == arrived.take(handed.len() as int)
            &&& !(state_after(start, session).phase is Stopped) ==> arrived == handed + held(
                state_after(start, session).phase,
            )
        }),
    decreases events.len(),
{
    let session = start.run(events);
    let taken = events.take(session.len() as int);
    let arrived = held(start.phase) + frames(taken);
    let handed = session_dispatches(session);
    if events.len() == 0 || !start.accepts(events[0].reply) {
        assert(taken =~= Seq::<Event>::empty());
        assert(arrived =~= held(start.phase));
        assert(handed =~= arrived.take(0));
        assert(arrived =~= handed + held(start.phase));
    } else {
        let first = start.step(events[0].reply, events[0].status);
        let rest = events.drop_first();
        let later = first.state.run(rest);
        lemma_step_passes_its_event_on(start, events[0].reply, events[0].status);
        lemma_events_in_frame_order(first.state, rest);
        assert(event(events[0].reply, events[0].status) == events[0]);
        assert(session == seq![first] + later);
        assert(session.drop_first() =~= later);
        assert(taken.drop_first() =~= rest.take(later.len() as int));
        assert(taken[0] == events[0]);
        let arrived_later = held(first.state.phase) + frames(rest.take(later.len() as int));
        let handed_later = session_dispatches(later);
        let now = dispatched(first.effects);
        assert(handed == now + handed_later);
        if first.state.phase is Stopped {
            lemma_stopped_is_final(first.state, rest);
            assert(rest.take(0) =~= Seq::<Event>::empty());
            assert(handed =~= Seq::<EventKind>::empty());
            assert(arrived =~= held(start.phase) + brought(events[0]));
            assert(handed =~= arrived.take(0));
            assert(session.last() == first);
        } else {
            assert(arrived =~= now + arrived_later);
            assert(handed =~= arrived.take(handed.len() as int));
            if later.len() == 0 {
                assert(session.last() == first);
            } else {
                assert(session.last() == later.last());
            }
            if !(state_after(start, session).phase is Stopped) {
                assert(arrived =~= handed + held(state_after(start, session).phase));
            }
        }
    }
}

} // verus!
