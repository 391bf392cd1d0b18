//! The tray host: what it knows, and how it reacts to what comes from the bus.
//!
//! The host does no I/O of its own. [`TrayHost::poll`] begins a round, and
//! [`TrayHost::resume`] carries it on: it says what to do with the connection next, and is
//! told what came of it.

use std::collections::VecDeque;

use rustbus::connection::Error as ConnectionError;
use vstd::hash_map::StringHashMap;
use vstd::prelude::*;

use crate::error::{Error, ErrorView};
use crate::item::{self, ItemId, TrayItem, TrayItemView};
use crate::items::{self, Items, TrayEvent, TrayEventView};
use crate::menu::{self, EventWait, MenuItemProps, MenuNode, PropValue};
use crate::message::{Message, MessageType, MessageView};
use crate::text;
use crate::watcher::{
    self, CallOutcome, CallOutcomeView, SignalEffect, SignalOutcome, SignalOutcomeView, Target,
    TargetView,
};

verus! {

/// How long a probe may take, in nanoseconds.
pub const PROBE_NANOS: u64 = 500_000_000;

/// How often a name is probed again after a probe of it timed out.
pub const PROBE_RETRIES: u32 = 3;

/// A `GetAll` call to a connection that may be a tray item.
#[derive(Debug)]
pub struct Probe {
    pub serial: u32,
    pub name: String,
    /// When the call was sent, in nanoseconds.
    pub started: u64,
}

/// What a [`Probe`] holds.
pub struct ProbeView {
    pub serial: u32,
    pub name: Seq<char>,
    pub started: u64,
}

impl View for Probe {
    type V = ProbeView;

    open spec fn view(&self) -> ProbeView {
        ProbeView { serial: self.serial, name: self.name@, started: self.started }
    }
}

/// The contents of an optional probe.
pub open spec fn optional_probe(probe: Option<Probe>) -> Option<ProbeView> {
    match probe {
        Some(p) => Some(p@),
        None => None,
    }
}

/// What the properties of an item are read for.
#[derive(Debug)]
pub enum Purpose {
    /// To register the item, and to send this reply in the end.
    Register(Message),
    /// To bring the item up to date.
    Refresh,
}

/// What a [`Purpose`] holds.
pub enum PurposeView {
    Register(MessageView),
    Refresh,
}

impl View for Purpose {
    type V = PurposeView;

    open spec fn view(&self) -> PurposeView {
        match self {
            Purpose::Register(reply) => PurposeView::Register(reply@),
            Purpose::Refresh => PurposeView::Refresh,
        }
    }
}

/// A `GetAll` call to an item that has not been answered yet.
#[derive(Debug)]
pub struct Fetch {
    pub serial: u32,
    pub target: Target,
    pub purpose: Purpose,
    /// Whether the bus name has lost its owner since: an item that is added is then removed
    /// again.
    pub orphaned: bool,
}

/// What a [`Fetch`] holds.
pub struct FetchView {
    pub serial: u32,
    pub target: TargetView,
    pub purpose: PurposeView,
    pub orphaned: bool,
}

impl View for Fetch {
    type V = FetchView;

    open spec fn view(&self) -> FetchView {
        FetchView {
            serial: self.serial,
            target: self.target@,
            purpose: self.purpose@,
            orphaned: self.orphaned,
        }
    }
}

/// The contents of a row of fetches.
pub open spec fn fetch_views(fetches: Seq<Fetch>) -> Seq<FetchView> {
    Seq::new(fetches.len(), |i: int| fetches[i]@)
}

/// The contents of a row of messages.
pub open spec fn message_views(messages: Seq<Message>) -> Seq<MessageView> {
    Seq::new(messages.len(), |i: int| messages[i]@)
}

/// The state of a tray host.
pub struct TrayHost {
    items: Items,
    pending_events: Vec<TrayEvent>,
    /// Unique names (:1.xxx) not yet probed for SNI support.
    pending_unique_names: Vec<String>,
    /// Retry count per unique name.
    pending_unique_retries: StringHashMap<u32>,
    /// The probe in flight, if any.
    probe: Option<Probe>,
    /// The properties that were asked for and have not come yet.
    fetches: Vec<Fetch>,
    /// Messages that arrived while something else was awaited.
    pending_messages: VecDeque<Message>,
    /// The well-known name of the host.
    host_name: String,
}

/// What a [`TrayHost`] knows.
pub struct TrayHostView {
    pub items: Seq<TrayItemView>,
    pub pending_events: Seq<TrayEventView>,
    pub names: Seq<Seq<char>>,
    pub retries: Map<Seq<char>, u32>,
    pub probe: Option<ProbeView>,
    pub fetches: Seq<FetchView>,
    pub messages: Seq<MessageView>,
    pub host_name: Seq<char>,
}

impl View for TrayHost {
    type V = TrayHostView;

    closed spec fn view(&self) -> TrayHostView {
        TrayHostView {
            items: self.items@,
            pending_events: items::event_views(self.pending_events@),
            names: crate::wire::text_views(self.pending_unique_names@),
            retries: self.pending_unique_retries@,
            probe: optional_probe(self.probe),
            fetches: fetch_views(self.fetches@),
            messages: message_views(self.pending_messages@),
            host_name: self.host_name@,
        }
    }
}

/// What every state of a host is like: no identifier stands for two items, no name has been
/// tried again more often than is allowed, and only a shutdown can be told of before a round
/// begins.
pub open spec fn consistent(host: TrayHostView) -> bool {
    &&& items::ids_distinct(host.items)
    &&& forall|i: int|
        0 <= i < host.pending_events.len() ==> #[trigger] host.pending_events[i]
            == TrayEventView::HostShutdown
    &&& forall|name: Seq<char>| #[trigger]
        host.retries.contains_key(name) ==> host.retries[name] <= PROBE_RETRIES
}

// ---------------------------------------------------------------------------
// A round of polling

/// Where a message came from, and where the round goes on after it.
#[derive(Debug, Clone, Copy, PartialEq, Eq, Structural)]
pub enum Origin {
    /// It had been kept while something else was awaited.
    Queue,
    /// It was read from the socket.
    Socket,
}

/// How far a round of polling has come: what was asked for last.
#[derive(Debug)]
pub enum Stage {
    /// To be called again, for the next message that was kept.
    Queue,
    /// To read from the socket.
    Reading,
    /// To take a complete message out of what was read.
    Taking,
    /// To send a reply.
    Replying(Origin),
    /// To send the signal that an item is gone, or the reply that comes before it. These are to
    /// be removed next.
    Vanishing(Origin, Vec<ItemId>),
    /// To send the call that reads properties.
    FetchSending(Origin, Target, Purpose),
    /// To send the signal that an item was registered. This reply is sent next, and these are
    /// to be removed then.
    Announcing(Origin, Message, Vec<ItemId>),
    /// To send the signal that a probed item was registered.
    ProbeAnnouncing(Origin),
    /// To send a probe.
    ProbeSending(String),
    /// Nothing more.
    Over,
}

/// What a [`Stage`] holds.
pub enum StageView {
    Queue,
    Reading,
    Taking,
    Replying(Origin),
    Vanishing(Origin, Seq<Seq<char>>),
    FetchSending(Origin, TargetView, PurposeView),
    Announcing(Origin, MessageView, Seq<Seq<char>>),
    ProbeAnnouncing(Origin),
    ProbeSending(Seq<char>),
    Over,
}

impl View for Stage {
    type V = StageView;

    open spec fn view(&self) -> StageView {
        match self {
            Stage::Queue => StageView::Queue,
            Stage::Reading => StageView::Reading,
            Stage::Taking => StageView::Taking,
            Stage::Replying(origin) => StageView::Replying(*origin),
            Stage::Vanishing(origin, ids) => StageView::Vanishing(*origin, items::id_views(ids@)),
            Stage::FetchSending(origin, target, purpose) => StageView::FetchSending(
                *origin,
                target@,
                purpose@,
            ),
            Stage::Announcing(origin, reply, ids) => StageView::Announcing(
                *origin,
                reply@,
                items::id_views(ids@),
            ),
            Stage::ProbeAnnouncing(origin) => StageView::ProbeAnnouncing(*origin),
            Stage::ProbeSending(name) => StageView::ProbeSending(name@),
            Stage::Over => StageView::Over,
        }
    }
}

/// A round of polling: how far it has come, and the events so far.
#[derive(Debug)]
pub struct Poll {
    pub events: Vec<TrayEvent>,
    pub stage: Stage,
}

/// What a [`Poll`] holds.
pub struct PollView {
    pub events: Seq<TrayEventView>,
    pub stage: StageView,
}

impl View for Poll {
    type V = PollView;

    open spec fn view(&self) -> PollView {
        PollView { events: items::event_views(self.events@), stage: self.stage@ }
    }
}

/// What to do with the connection next.
#[derive(Debug)]
pub enum Request {
    /// Nothing: just go on.
    Proceed,
    /// Send a message.
    Send(Message),
    /// Wait for a message. No round of polling asks for this.
    Receive,
    /// Read from the socket, without blocking.
    Read,
    /// Take a complete message out of what was read.
    Take,
    /// Nothing: the round is over, and these are its events.
    Finished(Vec<TrayEvent>),
    /// Nothing: the round has failed.
    Failed(Error),
}

/// What a [`Request`] holds.
pub enum RequestView {
    Proceed,
    Send(MessageView),
    Receive,
    Read,
    Take,
    Finished(Seq<TrayEventView>),
    Failed(ErrorView),
}

impl View for Request {
    type V = RequestView;

    open spec fn view(&self) -> RequestView {
        match self {
            Request::Proceed => RequestView::Proceed,
            Request::Send(message) => RequestView::Send(message@),
            Request::Receive => RequestView::Receive,
            Request::Read => RequestView::Read,
            Request::Take => RequestView::Take,
            Request::Finished(events) => RequestView::Finished(items::event_views(events@)),
            Request::Failed(error) => RequestView::Failed(error@),
        }
    }
}

/// What came of a request.
#[derive(Debug)]
pub enum Answer {
    /// Go on.
    Proceed,
    /// The message was sent with this serial number, at that time in nanoseconds.
    Sent(u32, u64),
    /// A message.
    Received(Message),
    /// Something was read.
    Progress,
    /// There is no complete message.
    Nothing,
    /// There is nothing more to read, at that time in nanoseconds.
    TimedOut(u64),
    /// The connection failed.
    Failed(ConnectionError),
}

/// What an [`Answer`] says.
pub enum AnswerView {
    Proceed,
    Sent(u32, u64),
    Received(MessageView),
    Progress,
    Nothing,
    TimedOut(u64),
    Failed,
}

impl View for Answer {
    type V = AnswerView;

    open spec fn view(&self) -> AnswerView {
        match self {
            Answer::Proceed => AnswerView::Proceed,
            Answer::Sent(serial, now) => AnswerView::Sent(*serial, *now),
            Answer::Received(message) => AnswerView::Received(message@),
            Answer::Progress => AnswerView::Progress,
            Answer::Nothing => AnswerView::Nothing,
            Answer::TimedOut(now) => AnswerView::TimedOut(*now),
            Answer::Failed(_) => AnswerView::Failed,
        }
    }
}

impl StageView {
    /// The answer is one to what was asked for last.
    pub open spec fn accepts(self, answer: AnswerView) -> bool {
        match self {
            StageView::Queue => answer is Proceed,
            StageView::Reading => answer is Progress || answer is TimedOut || answer is Failed,
            StageView::Taking => answer is Received || answer is Nothing || answer is Failed,
            StageView::Over => false,
            _ => answer is Sent || answer is Failed,
        }
    }
}

/// How a round goes on, and what to do next.
#[derive(Debug)]
pub struct Turn {
    pub poll: Poll,
    pub request: Request,
}

/// The state of host and round after a step, and what to do next.
pub struct Step {
    pub host: TrayHostView,
    pub poll: PollView,
    pub request: RequestView,
}

/// A step that leads to a stage.
pub open spec fn step_to(
    host: TrayHostView,
    events: Seq<TrayEventView>,
    stage: StageView,
    request: RequestView,
) -> Step {
    Step { host, poll: PollView { events, stage }, request }
}

/// The beginning of a round, with the events that were pending.
pub open spec fn begin(host: TrayHostView) -> Step {
    step_to(
        TrayHostView { pending_events: seq![], ..host },
        host.pending_events,
        StageView::Queue,
        RequestView::Proceed,
    )
}

/// The end of a round, with its events. As long as there are messages that were kept, the
/// round does not end.
pub open spec fn finish(host: TrayHostView, events: Seq<TrayEventView>) -> Step {
    if host.messages.len() > 0 {
        step_to(host, events, StageView::Queue, RequestView::Proceed)
    } else {
        step_to(host, seq![], StageView::Over, RequestView::Finished(events))
    }
}

/// The end of a round that fails.
pub open spec fn fail(host: TrayHostView, error: ErrorView) -> Step {
    step_to(host, seq![], StageView::Over, RequestView::Failed(error))
}

/// Go on with the next message.
pub open spec fn next_message(
    host: TrayHostView,
    events: Seq<TrayEventView>,
    origin: Origin,
) -> Step {
    match origin {
        Origin::Queue => step_to(host, events, StageView::Queue, RequestView::Proceed),
        Origin::Socket => step_to(host, events, StageView::Taking, RequestView::Take),
    }
}

/// Send a reply.
pub open spec fn send_reply(
    host: TrayHostView,
    events: Seq<TrayEventView>,
    origin: Origin,
    reply: MessageView,
) -> Step {
    step_to(host, events, StageView::Replying(origin), RequestView::Send(reply))
}

/// Send a reply, and remove the items that are gone then.
pub open spec fn send_reply_first(
    host: TrayHostView,
    events: Seq<TrayEventView>,
    origin: Origin,
    reply: MessageView,
    ids: Seq<Seq<char>>,
) -> Step {
    if ids.len() == 0 {
        send_reply(host, events, origin, reply)
    } else {
        step_to(host, events, StageView::Vanishing(origin, ids), RequestView::Send(reply))
    }
}

/// Remove the first of the items that are gone, and tell of it.
pub open spec fn remove_next(
    host: TrayHostView,
    events: Seq<TrayEventView>,
    origin: Origin,
    ids: Seq<Seq<char>>,
) -> Step {
    if ids.len() == 0 {
        next_message(host, events, origin)
    } else {
        step_to(
            TrayHostView { items: items::removed(host.items, ids[0]), ..host },
            events.push(TrayEventView::ItemRemoved(ids[0])),
            StageView::Vanishing(origin, ids.drop_first()),
            RequestView::Send(watcher::unregistered(ids[0])),
        )
    }
}

/// Ask for the properties of an item.
pub open spec fn start_fetch(
    host: TrayHostView,
    events: Seq<TrayEventView>,
    origin: Origin,
    target: TargetView,
    purpose: PurposeView,
) -> Step {
    step_to(
        host,
        events,
        StageView::FetchSending(origin, target, purpose),
        RequestView::Send(item::get_all_call(target.bus_name, target.object_path)),
    )
}

/// The properties of an item were asked for. The round goes on; they are taken when they come.
pub open spec fn fetch_sent(
    host: TrayHostView,
    events: Seq<TrayEventView>,
    origin: Origin,
    fetch: FetchView,
) -> Step {
    next_message(
        TrayHostView { fetches: host.fetches.push(fetch), ..host },
        events,
        origin,
    )
}

/// Go on without the properties of an item: a registration is answered all the same.
pub open spec fn fetch_failed(
    host: TrayHostView,
    events: Seq<TrayEventView>,
    origin: Origin,
    purpose: PurposeView,
) -> Step {
    match purpose {
        PurposeView::Register(reply) => send_reply(host, events, origin, reply),
        PurposeView::Refresh => next_message(host, events, origin),
    }
}

/// An item is registered only once: neither its identifier nor its bus name is known.
pub open spec fn is_new(items: Seq<TrayItemView>, target: TargetView) -> bool {
    !items::has_id(items, target.service_id) && !items::bus_known(items, target.bus_name)
}

/// The identifier of the item that keeps a registration from being new.
pub open spec fn known_id(items: Seq<TrayItemView>, target: TargetView) -> Seq<char> {
    if items::has_id(items, target.service_id) {
        target.service_id
    } else {
        items[items::bus_position(items, target.bus_name)].id
    }
}

/// Go on with the properties of an item. Registering a known item leaves the items as they
/// are, and tells that the item has changed. Where the bus name of a new item has lost its owner
/// in the meantime, the item is removed again once it is registered. An item that is to be
/// brought up to date is left out where it is not known any more.
pub open spec fn fetch_done(
    host: TrayHostView,
    events: Seq<TrayEventView>,
    origin: Origin,
    fetch: FetchView,
    item: TrayItemView,
) -> Step {
    let target = fetch.target;
    let with_item = TrayHostView { items: items::inserted(host.items, item), ..host };
    match fetch.purpose {
        PurposeView::Register(reply) => {
            let request = RequestView::Send(watcher::registered(target.service_id));
            if is_new(host.items, target) {
                let gone = if fetch.orphaned {
                    seq![item.id]
                } else {
                    seq![]
                };
                step_to(
                    with_item,
                    events.push(TrayEventView::ItemAdded(item.id)),
                    StageView::Announcing(origin, reply, gone),
                    request,
                )
            } else {
                step_to(
                    host,
                    events.push(TrayEventView::ItemChanged(known_id(host.items, target))),
                    StageView::Announcing(origin, reply, seq![]),
                    request,
                )
            }
        },
        PurposeView::Refresh => if items::has_id(host.items, item.id) {
            next_message(with_item, events.push(TrayEventView::ItemChanged(item.id)), origin)
        } else {
            next_message(host, events, origin)
        },
    }
}

/// There is a fetch with that serial number.
pub open spec fn has_fetch(fetches: Seq<FetchView>, serial: u32) -> bool {
    exists|i: int| 0 <= i < fetches.len() && (#[trigger] fetches[i]).serial == serial
}

/// The position of the first fetch with that serial number, or the number of fetches.
pub open spec fn fetch_position(fetches: Seq<FetchView>, serial: u32) -> int
    decreases fetches.len(),
{
    if fetches.len() == 0 {
        0
    } else if fetches[0].serial == serial {
        0
    } else {
        1 + fetch_position(fetches.drop_first(), serial)
    }
}

/// The message answers a fetch: it is the reply to it, or an error.
pub open spec fn answers_fetch(fetches: Seq<FetchView>, message: MessageView) -> bool {
    &&& message.typ == MessageType::Reply || message.typ == MessageType::Error
    &&& message.response_serial matches Some(serial) && has_fetch(fetches, serial)
}

/// Go on with the answer to a fetch.
pub open spec fn fetch_answered(
    host: TrayHostView,
    events: Seq<TrayEventView>,
    origin: Origin,
    fetch: FetchView,
    message: MessageView,
) -> Step {
    let target = fetch.target;
    match item::fetched(
        message,
        fetch.serial,
        target.service_id,
        target.bus_name,
        target.object_path,
    ) {
        Some(Ok(item)) => fetch_done(host, events, origin, fetch, item),
        _ => fetch_failed(host, events, origin, fetch.purpose),
    }
}

/// The fetches after a bus name has lost its owner.
pub open spec fn without_owner(fetches: Seq<FetchView>, bus_name: Seq<char>) -> Seq<FetchView> {
    Seq::new(
        fetches.len(),
        |i: int|
            FetchView {
                orphaned: fetches[i].orphaned || fetches[i].target.bus_name == bus_name,
                ..fetches[i]
            },
    )
}

/// Go on with what a signal leads to.
pub open spec fn after_signal(
    host: TrayHostView,
    events: Seq<TrayEventView>,
    origin: Origin,
    effect: Result<SignalEffect, ErrorView>,
) -> Step {
    match effect {
        Err(error) => fail(host, error),
        Ok(effect) => {
            let now = TrayHostView { names: effect.names, ..host };
            let all = events + effect.events;
            match effect.outcome {
                SignalOutcomeView::Done => next_message(now, all, origin),
                SignalOutcomeView::Vanished(name, ids) => remove_next(
                    TrayHostView { fetches: without_owner(now.fetches, name), ..now },
                    all,
                    origin,
                    ids,
                ),
                SignalOutcomeView::Refresh(target) => start_fetch(
                    now,
                    all,
                    origin,
                    target,
                    PurposeView::Refresh,
                ),
            }
        },
    }
}

/// Go on with what a method call leads to.
pub open spec fn after_call(
    host: TrayHostView,
    events: Seq<TrayEventView>,
    origin: Origin,
    outcome: Result<CallOutcomeView, ErrorView>,
) -> Step {
    match outcome {
        Err(error) => fail(host, error),
        Ok(CallOutcomeView::Reply(reply)) => send_reply(host, events, origin, reply),
        Ok(CallOutcomeView::Register(registration)) => start_fetch(
            host,
            events,
            origin,
            TargetView {
                service_id: registration.service_id,
                bus_name: registration.bus_name,
                object_path: registration.object_path,
            },
            PurposeView::Register(registration.reply),
        ),
    }
}

/// `step` is how a message is handled. Signals and method calls are; anything else is ignored.
pub open spec fn is_dispatch(
    host: TrayHostView,
    events: Seq<TrayEventView>,
    origin: Origin,
    message: MessageView,
    step: Step,
) -> bool {
    if message.typ == MessageType::Signal {
        step == after_signal(
            host,
            events,
            origin,
            watcher::signal_effect(message, host.items, host.names),
        )
    } else if message.typ == MessageType::Call {
        exists|outcome: Result<CallOutcomeView, ErrorView>| #[trigger]
            watcher::is_call_outcome(message, host.items, host.host_name, outcome) && step
                == after_call(host, events, origin, outcome)
    } else {
        step == next_message(host, events, origin)
    }
}

/// Go on with the reply to a probe. An item is added unless another one calls itself the same.
pub open spec fn probe_answered(
    host: TrayHostView,
    events: Seq<TrayEventView>,
    origin: Origin,
    name: Seq<char>,
    reply: MessageView,
) -> Step {
    let item = TrayItemView::from_reply(reply.body, name, name, watcher::DEFAULT_ITEM_PATH@);
    if items::name_taken(host.items, item.item_id) {
        next_message(host, events, origin)
    } else {
        step_to(
            TrayHostView { items: items::inserted(host.items, item), ..host },
            events.push(TrayEventView::ItemAdded(name)),
            StageView::ProbeAnnouncing(origin),
            RequestView::Send(watcher::registered(name)),
        )
    }
}

/// `step` is how a message is handled. The reply to the probe in flight ends the probe; an
/// error says that there is no item. The answer to a fetch ends the fetch.
pub open spec fn is_message_step(
    host: TrayHostView,
    events: Seq<TrayEventView>,
    origin: Origin,
    message: MessageView,
    step: Step,
) -> bool {
    if host.probe matches Some(probe) && message.answers(MessageType::Reply, probe.serial) {
        let idle = TrayHostView { probe: None, ..host };
        step == probe_answered(idle, events, origin, host.probe->0.name, message)
    } else if host.probe matches Some(probe) && message.answers(
        MessageType::Error,
        probe.serial,
    ) {
        let idle = TrayHostView { probe: None, ..host };
        step == next_message(idle, events, origin)
    } else if answers_fetch(host.fetches, message) {
        let at = fetch_position(host.fetches, message.response_serial->0);
        let less = TrayHostView { fetches: host.fetches.remove(at), ..host };
        step == fetch_answered(less, events, origin, host.fetches[at], message)
    } else {
        is_dispatch(host, events, origin, message, step)
    }
}

/// The host after the probe of a name has timed out. The name is tried again later, but not
/// more than a few times.
pub open spec fn timed_out(host: TrayHostView, name: Seq<char>) -> TrayHostView {
    let tried = if host.retries.contains_key(name) {
        host.retries[name]
    } else {
        0
    };
    if tried < PROBE_RETRIES {
        TrayHostView {
            probe: None,
            retries: host.retries.insert(name, (tried + 1) as u32),
            names: host.names.push(name),
            ..host
        }
    } else {
        TrayHostView { probe: None, retries: host.retries.remove(name), ..host }
    }
}

/// The host after a look at the clock. A probe that takes too long is given up.
pub open spec fn expire_probe(host: TrayHostView, now: u64) -> TrayHostView {
    match host.probe {
        Some(probe) => if probe.started + PROBE_NANOS <= now {
            timed_out(host, probe.name)
        } else {
            host
        },
        None => host,
    }
}

/// The end of a round: probe the next name, unless a probe is in flight. Messages that were
/// kept come first.
pub open spec fn start_probe(host: TrayHostView, events: Seq<TrayEventView>) -> Step {
    if host.messages.len() == 0 && host.probe is None && host.names.len() > 0 {
        step_to(
            TrayHostView { names: host.names.drop_first(), ..host },
            events,
            StageView::ProbeSending(host.names[0]),
            RequestView::Send(item::get_all_call(host.names[0], watcher::DEFAULT_ITEM_PATH@)),
        )
    } else {
        finish(host, events)
    }
}

/// `step` is how a round goes on after an answer.
pub open spec fn is_step(
    host: TrayHostView,
    poll: PollView,
    answer: AnswerView,
    step: Step,
) -> bool {
    let events = poll.events;
    match poll.stage {
        StageView::Queue => if host.messages.len() == 0 {
            step == step_to(host, events, StageView::Reading, RequestView::Read)
        } else {
            is_message_step(
                TrayHostView { messages: host.messages.drop_first(), ..host },
                events,
                Origin::Queue,
                host.messages[0],
                step,
            )
        },
        StageView::Reading => match answer {
            AnswerView::Progress => step == step_to(
                host,
                events,
                StageView::Taking,
                RequestView::Take,
            ),
            AnswerView::TimedOut(now) => step == start_probe(expire_probe(host, now), events),
            _ => step == fail(host, ErrorView::Bus),
        },
        StageView::Taking => match answer {
            AnswerView::Received(message) => is_message_step(
                host,
                events,
                Origin::Socket,
                message,
                step,
            ),
            AnswerView::Nothing => step == step_to(
                host,
                events,
                StageView::Reading,
                RequestView::Read,
            ),
            _ => step == fail(host, ErrorView::Bus),
        },
        StageView::Replying(origin) => step == match answer {
            AnswerView::Sent(_, _) => next_message(host, events, origin),
            _ => fail(host, ErrorView::Bus),
        },
        StageView::Vanishing(origin, ids) => step == match answer {
            AnswerView::Sent(_, _) => remove_next(host, events, origin, ids),
            _ => fail(host, ErrorView::Bus),
        },
        StageView::FetchSending(origin, target, purpose) => step == match answer {
            AnswerView::Sent(serial, _) => fetch_sent(
                host,
                events,
                origin,
                FetchView { serial, target, purpose, orphaned: false },
            ),
            _ => fetch_failed(host, events, origin, purpose),
        },
        StageView::Announcing(origin, reply, ids) => step == match answer {
            AnswerView::Sent(_, _) => send_reply_first(host, events, origin, reply, ids),
            _ => fail(host, ErrorView::Bus),
        },
        StageView::ProbeAnnouncing(origin) => step == next_message(host, events, origin),
        StageView::ProbeSending(name) => step == match answer {
            AnswerView::Sent(serial, now) => finish(
                TrayHostView {
                    probe: Some(ProbeView { serial, name, started: now }),
                    ..host
                },
                events,
            ),
            _ => finish(host, events),
        },
        StageView::Over => true,
    }
}

// ---------------------------------------------------------------------------
// The steps

/// The step that leads to a state of the host and a turn.
pub open spec fn step_of(host: TrayHostView, turn: Turn) -> Step {
    Step { host, poll: turn.poll@, request: turn.request@ }
}

/// The item under an identifier is the first that has it.
proof fn lemma_found(items: Seq<TrayItemView>, id: Seq<char>)
    ensures
        forall|i: int|
            0 <= i < items.len() && (#[trigger] items[i]).id == id && (forall|k: int|
                0 <= k < i ==> (#[trigger] items[k]).id != id) ==> items::found(items, id) == Some(
                items[i],
            ),
        items::found(items, id) is None <==> forall|i: int|
            0 <= i < items.len() ==> (#[trigger] items[i]).id != id,
{
    items::lemma_position(items, id);
}

/// The position of a fetch is where its serial number occurs first.
pub proof fn lemma_fetch_position(fetches: Seq<FetchView>, serial: u32)
    requires
        has_fetch(fetches, serial),
    ensures
        0 <= fetch_position(fetches, serial) < fetches.len(),
        fetches[fetch_position(fetches, serial)].serial == serial,
        forall|i: int|
            0 <= i < fetch_position(fetches, serial) ==> (#[trigger] fetches[i]).serial != serial,
    decreases fetches.len(),
{
    if fetches[0].serial != serial {
        let rest = fetches.drop_first();
        let at = choose|i: int| 0 <= i < fetches.len() && (#[trigger] fetches[i]).serial == serial;
        assert(rest[at - 1].serial == serial);
        lemma_fetch_position(rest, serial);
        let p = fetch_position(fetches, serial);
        assert(rest[p - 1] == fetches[p]);
        assert forall|i: int| 0 <= i < p implies (#[trigger] fetches[i]).serial != serial by {
            if i > 0 {
                assert(rest[i - 1] == fetches[i]);
            }
        }
    }
}

proof fn lemma_event_views_push(events: Seq<TrayEvent>, event: TrayEvent)
    ensures
        items::event_views(events.push(event)) == items::event_views(events).push(event@),
{
    assert(items::event_views(events.push(event)) =~= items::event_views(events).push(event@));
}

fn turn(events: Vec<TrayEvent>, stage: Stage, request: Request) -> (res: Turn)
    ensures
        res.poll@ == (PollView { events: items::event_views(events@), stage: stage@ }),
        res.request == request,
{
    Turn { poll: Poll { events, stage }, request }
}

impl TrayHost {
    fn finish(&self, events: Vec<TrayEvent>) -> (res: Turn)
        ensures
            step_of(self@, res) == finish(self@, items::event_views(events@)),
    {
        if self.pending_messages.len() > 0 {
            return turn(events, Stage::Queue, Request::Proceed);
        }
        let none: Vec<TrayEvent> = Vec::new();
        assert(items::event_views(none@) =~= seq![]);
        turn(none, Stage::Over, Request::Finished(events))
    }

    fn fail(&self, error: Error) -> (res: Turn)
        ensures
            step_of(self@, res) == fail(self@, error@),
            res.request == Request::Failed(error),
    {
        let none: Vec<TrayEvent> = Vec::new();
        assert(items::event_views(none@) =~= seq![]);
        turn(none, Stage::Over, Request::Failed(error))
    }

    fn next_message(&self, events: Vec<TrayEvent>, origin: Origin) -> (res: Turn)
        ensures
            step_of(self@, res) == next_message(self@, items::event_views(events@), origin),
    {
        match origin {
            Origin::Queue => turn(events, Stage::Queue, Request::Proceed),
            Origin::Socket => turn(events, Stage::Taking, Request::Take),
        }
    }

    fn send_reply(&self, events: Vec<TrayEvent>, origin: Origin, reply: Message) -> (res: Turn)
        ensures
            step_of(self@, res) == send_reply(
                self@,
                items::event_views(events@),
                origin,
                reply@,
            ),
    {
        turn(events, Stage::Replying(origin), Request::Send(reply))
    }

    fn send_reply_first(
        &self,
        events: Vec<TrayEvent>,
        origin: Origin,
        reply: Message,
        ids: Vec<ItemId>,
    ) -> (res: Turn)
        ensures
            step_of(self@, res) == send_reply_first(
                self@,
                items::event_views(events@),
                origin,
                reply@,
                items::id_views(ids@),
            ),
    {
        if ids.len() == 0 {
            return self.send_reply(events, origin, reply);
        }
        turn(events, Stage::Vanishing(origin, ids), Request::Send(reply))
    }

    fn remove_next(
        &mut self,
        events: Vec<TrayEvent>,
        origin: Origin,
        ids: Vec<ItemId>,
    ) -> (res: Turn)
        ensures
            step_of(final(self)@, res) == remove_next(
                old(self)@,
                items::event_views(events@),
                origin,
                items::id_views(ids@),
            ),
    {
        if ids.len() == 0 {
            return self.next_message(events, origin);
        }
        let ghost all = items::id_views(ids@);
        let mut events: Vec<TrayEvent> = events;
        let mut ids: Vec<ItemId> = ids;
        let id: ItemId = ids.remove(0);
        assert(items::id_views(ids@) =~= all.drop_first());
        assert(id@ == all[0]);
        let signal: Message = watcher::unregistered_signal(id.0.as_str());
        self.items.remove(&id);
        proof {
            lemma_event_views_push(events@, TrayEvent::ItemRemoved(id));
        }
        events.push(TrayEvent::ItemRemoved(id));
        turn(events, Stage::Vanishing(origin, ids), Request::Send(signal))
    }

    fn start_fetch(
        &self,
        events: Vec<TrayEvent>,
        origin: Origin,
        target: Target,
        purpose: Purpose,
    ) -> (res: Turn)
        ensures
            step_of(self@, res) == start_fetch(
                self@,
                items::event_views(events@),
                origin,
                target@,
                purpose@,
            ),
    {
        let call: Message = TrayItem::send_get_all(
            target.bus_name.as_str(),
            target.object_path.as_str(),
        );
        turn(events, Stage::FetchSending(origin, target, purpose), Request::Send(call))
    }

    fn fetch_sent(&mut self, events: Vec<TrayEvent>, origin: Origin, fetch: Fetch) -> (res: Turn)
        ensures
            step_of(final(self)@, res) == fetch_sent(
                old(self)@,
                items::event_views(events@),
                origin,
                fetch@,
            ),
    {
        self.fetches.push(fetch);
        assert(self@.fetches =~= old(self)@.fetches.push(fetch@));
        self.next_message(events, origin)
    }

    fn fetch_failed(&self, events: Vec<TrayEvent>, origin: Origin, purpose: Purpose) -> (res: Turn)
        ensures
            step_of(self@, res) == fetch_failed(
                self@,
                items::event_views(events@),
                origin,
                purpose@,
            ),
    {
        match purpose {
            Purpose::Register(reply) => self.send_reply(events, origin, reply),
            Purpose::Refresh => self.next_message(events, origin),
        }
    }

    /// The identifier of the item that keeps a registration from being new.
    fn known_id(&self, target: &Target) -> (res: Option<ItemId>)
        ensures
            match res {
                Some(id) => !is_new(self@.items, target@) && id@ == known_id(self@.items, target@),
                None => is_new(self@.items, target@),
            },
    {
        let id: ItemId = ItemId(target.service_id.clone());
        if self.items.contains_key(&id) {
            return Some(id);
        }
        match self.items.find_on_bus(target.bus_name.as_str()) {
            Some(i) => Some(self.items.at(i).id.clone()),
            None => None,
        }
    }

    fn fetch_done(
        &mut self,
        events: Vec<TrayEvent>,
        origin: Origin,
        fetch: Fetch,
        item: TrayItem,
    ) -> (res: Turn)
        ensures
            step_of(final(self)@, res) == fetch_done(
                old(self)@,
                items::event_views(events@),
                origin,
                fetch@,
                item@,
            ),
    {
        let mut events: Vec<TrayEvent> = events;
        let id: ItemId = item.id.clone();
        match fetch.purpose {
            Purpose::Register(reply) => {
                let signal: Message = watcher::registered_signal(fetch.target.service_id.as_str());
                let known: Option<ItemId> = self.known_id(&fetch.target);
                let mut gone: Vec<ItemId> = Vec::new();
                assert(items::id_views(gone@) =~= seq![]);
                match known {
                    Some(known) => {
                        // Keep the item that is there, but tell that it has changed
                        proof {
                            lemma_event_views_push(events@, TrayEvent::ItemChanged(known));
                        }
                        events.push(TrayEvent::ItemChanged(known));
                    },
                    None => {
                        if fetch.orphaned {
                            gone.push(id.clone());
                            assert(items::id_views(gone@) =~= seq![item@.id]);
                        }
                        self.items.insert(item);
                        proof {
                            lemma_event_views_push(events@, TrayEvent::ItemAdded(id));
                        }
                        events.push(TrayEvent::ItemAdded(id));
                    },
                }
                turn(events, Stage::Announcing(origin, reply, gone), Request::Send(signal))
            },
            Purpose::Refresh => {
                // The item may have vanished in the meantime
                if !self.items.contains_key(&id) {
                    return self.next_message(events, origin);
                }
                self.items.insert(item);
                proof {
                    lemma_event_views_push(events@, TrayEvent::ItemChanged(id));
                }
                events.push(TrayEvent::ItemChanged(id));
                self.next_message(events, origin)
            },
        }
    }

    /// Keep a message for the next round.
    pub(crate) fn keep(&mut self, message: Message)
        ensures
            final(self)@ == keeping(old(self)@, message@),
    {
        self.pending_messages.push_back(message);
        assert(self@.messages =~= old(self)@.messages.push(message@));
    }

    /// The position of the fetch that a message answers.
    fn find_fetch(&self, message: &Message) -> (res: Option<usize>)
        ensures
            match res {
                Some(i) => {
                    &&& answers_fetch(self@.fetches, message@)
                    &&& i == fetch_position(self@.fetches, message@.response_serial->0)
                    &&& i < self.fetches@.len()
                },
                None => !answers_fetch(self@.fetches, message@),
            },
    {
        if message.typ != MessageType::Reply && message.typ != MessageType::Error {
            return None;
        }
        let serial: u32 = match message.response_serial {
            Some(serial) => serial,
            None => return None,
        };
        let mut i: usize = 0;
        while i < self.fetches.len()
            invariant
                i <= self.fetches@.len(),
                message@.typ == MessageType::Reply || message@.typ == MessageType::Error,
                message@.response_serial == Some(serial),
                forall|k: int| 0 <= k < i ==> (#[trigger] self@.fetches[k]).serial != serial,
            decreases self.fetches@.len() - i,
        {
            if self.fetches[i].serial == serial {
                proof {
                    assert(self@.fetches[i as int].serial == serial);
                    lemma_fetch_position(self@.fetches, serial);
                }
                return Some(i);
            }
            assert(self@.fetches[i as int].serial != serial);
            i = i + 1;
        }
        None
    }

    fn fetch_answered(
        &mut self,
        events: Vec<TrayEvent>,
        origin: Origin,
        fetch: Fetch,
        message: &Message,
    ) -> (res: Turn)
        ensures
            step_of(final(self)@, res) == fetch_answered(
                old(self)@,
                items::event_views(events@),
                origin,
                fetch@,
                message@,
            ),
    {
        let outcome: Option<Result<TrayItem, Error>> = TrayItem::from_bus_get_all(
            message,
            fetch.serial,
            fetch.target.service_id.as_str(),
            fetch.target.bus_name.as_str(),
            fetch.target.object_path.as_str(),
        );
        match outcome {
            Some(Ok(item)) => self.fetch_done(events, origin, fetch, item),
            _ => self.fetch_failed(events, origin, fetch.purpose),
        }
    }

    /// Note that a bus name has lost its owner, for the properties that still come from it.
    fn lose_owner(&mut self, name: &str)
        ensures
            final(self)@ == (TrayHostView {
                fetches: without_owner(old(self)@.fetches, name@),
                ..old(self)@
            }),
    {
        let ghost before = self.fetches@;
        let mut kept: Vec<Fetch> = Vec::new();
        let mut left: Vec<Fetch> = Vec::new();
        std::mem::swap(&mut left, &mut self.fetches);
        while left.len() > 0
            invariant
                kept@.len() + left@.len() == before.len(),
                forall|i: int| 0 <= i < left@.len() ==> left@[i] == before[kept@.len() + i],
                forall|i: int|
                    0 <= i < kept@.len() ==> #[trigger] kept@[i]@ == without_owner(
                        fetch_views(before),
                        name@,
                    )[i],
            decreases left@.len(),
        {
            let mut fetch: Fetch = left.remove(0);
            assert(fetch == before[kept@.len() as int]);
            if text::same(fetch.target.bus_name.as_str(), name) {
                fetch.orphaned = true;
            }
            kept.push(fetch);
        }
        self.fetches = kept;
        assert(self@.fetches =~= without_owner(old(self)@.fetches, name@));
    }

    fn handle_signal(&mut self, events: Vec<TrayEvent>, origin: Origin, signal: &Message) -> (res:
        Turn)
        ensures
            step_of(final(self)@, res) == after_signal(
                old(self)@,
                items::event_views(events@),
                origin,
                watcher::signal_effect(signal@, old(self)@.items, old(self)@.names),
            ),
    {
        let mut events: Vec<TrayEvent> = events;
        match watcher::handle_signal(
            signal,
            &self.items,
            &mut events,
            &mut self.pending_unique_names,
        ) {
            Err(error) => self.fail(error),
            Ok(SignalOutcome::Done) => self.next_message(events, origin),
            Ok(SignalOutcome::Vanished(name, ids)) => {
                self.lose_owner(name.as_str());
                self.remove_next(events, origin, ids)
            },
            Ok(SignalOutcome::Refresh(target)) => self.start_fetch(
                events,
                origin,
                target,
                Purpose::Refresh,
            ),
        }
    }

    fn handle_call(&self, events: Vec<TrayEvent>, origin: Origin, call: &Message) -> (res: Turn)
        ensures
            exists|outcome: Result<CallOutcomeView, ErrorView>| #[trigger]
                watcher::is_call_outcome(call@, self@.items, self@.host_name, outcome) && step_of(
                    self@,
                    res,
                ) == after_call(self@, items::event_views(events@), origin, outcome),
    {
        let outcome: Result<CallOutcome, Error> = watcher::handle_call(
            call,
            &self.items,
            self.host_name.as_str(),
        );
        assert(watcher::is_call_outcome(
            call@,
            self@.items,
            self@.host_name,
            watcher::outcome_view(outcome),
        ));
        match outcome {
            Err(error) => self.fail(error),
            Ok(CallOutcome::Reply(reply)) => self.send_reply(events, origin, reply),
            Ok(CallOutcome::Register(registration)) => {
                let target = Target {
                    service_id: registration.service_id,
                    bus_name: registration.bus_name,
                    object_path: registration.object_path,
                };
                self.start_fetch(events, origin, target, Purpose::Register(registration.reply))
            },
        }
    }

    /// Handle a message that is no reply to anything that the host is waiting for.
    fn dispatch(&mut self, events: Vec<TrayEvent>, origin: Origin, message: Message) -> (res: Turn)
        ensures
            is_dispatch(
                old(self)@,
                items::event_views(events@),
                origin,
                message@,
                step_of(final(self)@, res),
            ),
    {
        match message.typ {
            MessageType::Signal => self.handle_signal(events, origin, &message),
            MessageType::Call => self.handle_call(events, origin, &message),
            _ => self.next_message(events, origin),
        }
    }

    /// Process a successful probe reply.
    fn process_probe_ok(
        &mut self,
        events: Vec<TrayEvent>,
        origin: Origin,
        name: String,
        reply: &Message,
    ) -> (res: Turn)
        ensures
            step_of(final(self)@, res) == probe_answered(
                old(self)@,
                items::event_views(events@),
                origin,
                name@,
                reply@,
            ),
    {
        match TrayItem::from_get_all_reply(
            reply,
            name.as_str(),
            name.as_str(),
            watcher::DEFAULT_ITEM_PATH,
        ) {
            Ok(item) => {
                // Skip the item if another one with its `Id` is already registered
                if self.items.knows_name(item.item_id.as_str()) {
                    return self.next_message(events, origin);
                }
                let mut events: Vec<TrayEvent> = events;
                let id: ItemId = item.id.clone();
                self.items.insert(item);
                proof {
                    lemma_event_views_push(events@, TrayEvent::ItemAdded(id));
                }
                events.push(TrayEvent::ItemAdded(id));
                let signal: Message = watcher::registered_signal(name.as_str());
                turn(events, Stage::ProbeAnnouncing(origin), Request::Send(signal))
            },
            Err(_) => self.next_message(events, origin),
        }
    }

    /// Handle a message: what the host is waiting for first, and then anything else.
    fn handle(&mut self, events: Vec<TrayEvent>, origin: Origin, message: Message) -> (res: Turn)
        ensures
            is_message_step(
                old(self)@,
                items::event_views(events@),
                origin,
                message@,
                step_of(final(self)@, res),
            ),
    {
        let (is_item, is_none): (bool, bool) = match &self.probe {
            Some(probe) => (
                message.answers(MessageType::Reply, probe.serial),
                message.answers(MessageType::Error, probe.serial),
            ),
            None => (false, false),
        };
        if is_item || is_none {
            if let Some(probe) = self.probe.take() {
                if is_item {
                    return self.process_probe_ok(events, origin, probe.name, &message);
                }
            }
            return self.next_message(events, origin);
        }
        if let Some(i) = self.find_fetch(&message) {
            let fetch: Fetch = self.fetches.remove(i);
            assert(self@.fetches =~= old(self)@.fetches.remove(i as int));
            assert(fetch@ == old(self)@.fetches[i as int]);
            return self.fetch_answered(events, origin, fetch, &message);
        }
        self.dispatch(events, origin, message)
    }

    /// Give up the probe in flight where it takes too long.
    fn expire_probe(&mut self, now: u64)
        ensures
            final(self)@ == expire_probe(old(self)@, now),
    {
        let expired: bool = match &self.probe {
            Some(probe) => now >= probe.started && now - probe.started >= PROBE_NANOS,
            None => false,
        };
        if !expired {
            return;
        }
        if let Some(probe) = self.probe.take() {
            let tried: u32 = match self.pending_unique_retries.get(probe.name.as_str()) {
                Some(n) => *n,
                None => 0,
            };
            if tried < PROBE_RETRIES {
                self.pending_unique_retries.insert(probe.name.clone(), tried + 1);
                self.pending_unique_names.push(probe.name);
                assert(self@.names =~= old(self)@.names.push(probe.name@));
            } else {
                self.pending_unique_retries.remove(probe.name.as_str());
            }
        }
    }

    fn start_probe(&mut self, events: Vec<TrayEvent>) -> (res: Turn)
        ensures
            step_of(final(self)@, res) == start_probe(old(self)@, items::event_views(events@)),
    {
        if self.pending_messages.len() == 0 && self.probe.is_none()
            && self.pending_unique_names.len() > 0 {
            let name: String = self.pending_unique_names.remove(0);
            assert(self@.names =~= old(self)@.names.drop_first());
            assert(name@ == old(self)@.names[0]);
            let call: Message = TrayItem::send_get_all(name.as_str(), watcher::DEFAULT_ITEM_PATH);
            return turn(events, Stage::ProbeSending(name), Request::Send(call));
        }
        self.finish(events)
    }

    /// Begin a round: handle all pending D-Bus messages, and collect tray events.
    ///
    /// The events that were pending come first. A round never waits for a message: the
    /// properties of an item are asked for, and taken when they come. At the end of the round
    /// one pending unique name is probed; the reply is handled in a later round.
    pub fn poll(&mut self) -> (res: Turn)
        ensures
            step_of(final(self)@, res) == begin(old(self)@),
            consistent(old(self)@) ==> consistent(final(self)@),
    {
        let mut events: Vec<TrayEvent> = Vec::new();
        std::mem::swap(&mut events, &mut self.pending_events);
        assert(self@.pending_events =~= seq![]);
        turn(events, Stage::Queue, Request::Proceed)
    }

    /// Carry on a round of polling with what came of the request.
    pub fn resume(&mut self, poll: Poll, answer: Answer) -> (res: Turn)
        requires
            poll@.stage.accepts(answer@),
        ensures
            is_step(old(self)@, poll@, answer@, step_of(final(self)@, res)),
            consistent(old(self)@) ==> consistent(final(self)@),
            !(res.request is Receive),
            res.request is Finished ==> final(self)@.messages.len() == 0,
            answer matches Answer::Failed(error) ==> (res.request is Failed ==> res.request
                == Request::Failed(Error::Bus(error))),
    {
        let ghost (polled, answered) = (poll@, answer@);
        let res: Turn = self.step(poll, answer);
        proof {
            if consistent(old(self)@) {
                let step = step_of(self@, res);
                crate::laws::law_steps_keep_consistency(old(self)@, polled, answered, step);
            }
        }
        res
    }

    fn step(&mut self, poll: Poll, answer: Answer) -> (res: Turn)
        requires
            poll@.stage.accepts(answer@),
        ensures
            is_step(old(self)@, poll@, answer@, step_of(final(self)@, res)),
            answer matches Answer::Failed(error) ==> (res.request is Failed ==> res.request
                == Request::Failed(Error::Bus(error))),
    {
        let events: Vec<TrayEvent> = poll.events;
        match (poll.stage, answer) {
            (Stage::Queue, _) => {
                match self.pending_messages.pop_front() {
                    Some(message) => {
                        assert(self@.messages =~= old(self)@.messages.drop_first());
                        self.handle(events, Origin::Queue, message)
                    },
                    None => turn(events, Stage::Reading, Request::Read),
                }
            },
            (Stage::Reading, Answer::Progress) => turn(events, Stage::Taking, Request::Take),
            (Stage::Reading, Answer::TimedOut(now)) => {
                self.expire_probe(now);
                self.start_probe(events)
            },
            (Stage::Taking, Answer::Received(message)) => self.handle(
                events,
                Origin::Socket,
                message,
            ),
            (Stage::Taking, Answer::Nothing) => turn(events, Stage::Reading, Request::Read),
            (Stage::Replying(origin), Answer::Sent(_, _)) => self.next_message(events, origin),
            (Stage::Vanishing(origin, ids), Answer::Sent(_, _)) => self.remove_next(
                events,
                origin,
                ids,
            ),
            (Stage::FetchSending(origin, target, purpose), Answer::Sent(serial, _)) =>
                self.fetch_sent(events, origin, Fetch { serial, target, purpose, orphaned: false }),
            (Stage::FetchSending(origin, _, purpose), _) => self.fetch_failed(
                events,
                origin,
                purpose,
            ),
            (Stage::Announcing(origin, reply, ids), Answer::Sent(_, _)) => self.send_reply_first(
                events,
                origin,
                reply,
                ids,
            ),
            (Stage::ProbeAnnouncing(origin), _) => self.next_message(events, origin),
            (Stage::ProbeSending(name), Answer::Sent(serial, now)) => {
                self.probe = Some(Probe { serial, name, started: now });
                self.finish(events)
            },
            (Stage::ProbeSending(_), _) => self.finish(events),
            (_, Answer::Failed(error)) => self.fail(Error::Bus(error)),
            (_, _) => self.finish(events),
        }
    }
}

// ---------------------------------------------------------------------------
// What callers ask of the host

/// The host before anything has happened.
pub open spec fn new_host(host_name: Seq<char>) -> TrayHostView {
    TrayHostView {
        items: seq![],
        pending_events: seq![],
        names: seq![],
        retries: Map::empty(),
        probe: None,
        fetches: seq![],
        messages: seq![],
        host_name,
    }
}

/// The host after it has said that it goes away.
pub open spec fn shut_down(host: TrayHostView) -> TrayHostView {
    TrayHostView {
        pending_events: host.pending_events.push(TrayEventView::HostShutdown),
        ..host
    }
}

/// A call to an item, where the item is known.
pub open spec fn call_to(
    items: Seq<TrayItemView>,
    id: Seq<char>,
    method: Seq<char>,
    body: crate::wire::BodyView,
) -> Result<MessageView, ErrorView> {
    match items::found(items, id) {
        Some(item) => Ok(item::item_call(item.bus_name, item.object_path, method, body)),
        None => Err(ErrorView::ItemNotFound(id)),
    }
}

/// The contents of a call to an item.
pub open spec fn call_view(call: Result<Message, Error>) -> Result<MessageView, ErrorView> {
    match call {
        Ok(message) => Ok(message@),
        Err(error) => Err(error@),
    }
}

/// The item, where it is known and has a menu.
pub open spec fn with_menu(items: Seq<TrayItemView>, id: Seq<char>) -> Option<TrayItemView> {
    match items::found(items, id) {
        Some(item) => if item::names_menu(item.menu_path) {
            Some(item)
        } else {
            None
        },
        None => None,
    }
}

/// The contents of an optional message.
pub open spec fn optional_message(message: Option<Message>) -> Option<MessageView> {
    match message {
        Some(m) => Some(m@),
        None => None,
    }
}

/// The host with one more message for the next round.
pub open spec fn keeping(host: TrayHostView, message: MessageView) -> TrayHostView {
    TrayHostView { messages: host.messages.push(message), ..host }
}

/// The host after a message arrived while the answer to a call about a menu is awaited. Signals
/// are skipped; calls, and answers to other calls, are kept for the next round.
pub open spec fn keeping_others(
    host: TrayHostView,
    message: MessageView,
    serial: u32,
) -> TrayHostView {
    if menu::ends_wait(message, serial) || message.typ == MessageType::Signal {
        host
    } else {
        keeping(host, message)
    }
}

/// The host after a message arrived while the properties of an item to add are awaited, and
/// what there is to say about the item.
pub open spec fn add_received(
    host: TrayHostView,
    message: MessageView,
    serial: u32,
    bus_name: Seq<char>,
    object_path: Seq<char>,
) -> (TrayHostView, Option<Result<Seq<char>, ErrorView>>) {
    match item::fetched(message, serial, bus_name, bus_name, object_path) {
        Some(Ok(item)) => (
            TrayHostView { items: items::inserted(host.items, item), ..host },
            Some(Ok(item.id)),
        ),
        Some(Err(error)) => (host, Some(Err(error))),
        None => (keeping(host, message), None),
    }
}

impl TrayHost {
    /// A host that knows nothing yet, in the process with the given number.
    pub fn new(pid: u32) -> (res: TrayHost)
        ensures
            res@ == new_host(crate::host::host_name_of(pid)),
            consistent(res@),
    {
        let res = TrayHost {
            items: Items::new(),
            pending_events: Vec::new(),
            pending_unique_names: Vec::new(),
            pending_unique_retries: StringHashMap::new(),
            probe: None,
            fetches: Vec::new(),
            pending_messages: VecDeque::new(),
            host_name: crate::host::host_name(pid),
        };
        proof {
            assert(res@.pending_events =~= seq![]);
            assert(res@.names =~= seq![]);
            assert(res@.fetches =~= seq![]);
            assert(res@.messages =~= seq![]);
        }
        res
    }

    /// The well-known name of the host.
    pub fn host_name(&self) -> (res: &str)
        ensures
            res@ == self@.host_name,
    {
        self.host_name.as_str()
    }

    /// Set the names that are to be probed.
    pub(crate) fn set_names(&mut self, names: Vec<String>)
        ensures
            final(self)@ == (TrayHostView {
                names: crate::wire::text_views(names@),
                ..old(self)@
            }),
    {
        self.pending_unique_names = names;
    }

    /// Current tray items.
    pub fn items(&self) -> (res: &Items)
        ensures
            res@ == self@.items,
    {
        &self.items
    }

    /// The call of an (x, y) method of an item.
    fn call_item(&self, id: &ItemId, method: &str, x: i32, y: i32) -> (res: Result<Message, Error>)
        ensures
            call_view(res) == call_to(
                self@.items,
                id@,
                method@,
                crate::wire::BodyView::empty().with_i32(x).with_i32(y),
            ),
    {
        match self.items.get(id) {
            Some(known) => Ok(
                item::call_method(
                    known.bus_name.as_str(),
                    known.object_path.as_str(),
                    method,
                    x,
                    y,
                ),
            ),
            None => Err(Error::ItemNotFound(id.clone())),
        }
    }

    /// The call of the item's `Activate` method.
    pub fn activate(&self, id: &ItemId, x: i32, y: i32) -> (res: Result<Message, Error>)
        ensures
            call_view(res) == call_to(
                self@.items,
                id@,
                "Activate"@,
                crate::wire::BodyView::empty().with_i32(x).with_i32(y),
            ),
            forall|i: int|
                0 <= i < self@.items.len() && (#[trigger] self@.items[i]).id == id@ && (forall|
                    k: int,
                |
                    0 <= k < i ==> (#[trigger] self@.items[k]).id != id@) ==> (
                res matches Ok(call) && {
                    &&& call@.typ == MessageType::Call
                    &&& call@.destination == Some(self@.items[i].bus_name)
                    &&& call@.object == Some(self@.items[i].object_path)
                    &&& call@.interface == Some("org.kde.StatusNotifierItem"@)
                    &&& call@.member == Some("Activate"@)
                    &&& call@.body == crate::wire::BodyView::empty().with_i32(x).with_i32(y)
                }),
            res is Err <==> forall|i: int|
                0 <= i < self@.items.len() ==> (#[trigger] self@.items[i]).id != id@,
            res matches Err(error) ==> error@ == ErrorView::ItemNotFound(id@),
    {
        proof {
            lemma_found(self@.items, id@);
        }
        self.call_item(id, "Activate", x, y)
    }

    /// The call of the item's `ContextMenu` method.
    pub fn context_menu(&self, id: &ItemId, x: i32, y: i32) -> (res: Result<Message, Error>)
        ensures
            call_view(res) == call_to(
                self@.items,
                id@,
                "ContextMenu"@,
                crate::wire::BodyView::empty().with_i32(x).with_i32(y),
            ),
            forall|i: int|
                0 <= i < self@.items.len() && (#[trigger] self@.items[i]).id == id@ && (forall|
                    k: int,
                |
                    0 <= k < i ==> (#[trigger] self@.items[k]).id != id@) ==> (
                res matches Ok(call) && {
                    &&& call@.typ == MessageType::Call
                    &&& call@.destination == Some(self@.items[i].bus_name)
                    &&& call@.object == Some(self@.items[i].object_path)
                    &&& call@.interface == Some("org.kde.StatusNotifierItem"@)
                    &&& call@.member == Some("ContextMenu"@)
                    &&& call@.body == crate::wire::BodyView::empty().with_i32(x).with_i32(y)
                }),
            res is Err <==> forall|i: int|
                0 <= i < self@.items.len() ==> (#[trigger] self@.items[i]).id != id@,
            res matches Err(error) ==> error@ == ErrorView::ItemNotFound(id@),
    {
        proof {
            lemma_found(self@.items, id@);
        }
        self.call_item(id, "ContextMenu", x, y)
    }

    /// The call of the item's `SecondaryActivate` method.
    pub fn secondary_activate(&self, id: &ItemId, x: i32, y: i32) -> (res: Result<Message, Error>)
        ensures
            call_view(res) == call_to(
                self@.items,
                id@,
                "SecondaryActivate"@,
                crate::wire::BodyView::empty().with_i32(x).with_i32(y),
            ),
            forall|i: int|
                0 <= i < self@.items.len() && (#[trigger] self@.items[i]).id == id@ && (forall|
                    k: int,
                |
                    0 <= k < i ==> (#[trigger] self@.items[k]).id != id@) ==> (
                res matches Ok(call) && {
                    &&& call@.typ == MessageType::Call
                    &&& call@.destination == Some(self@.items[i].bus_name)
                    &&& call@.object == Some(self@.items[i].object_path)
                    &&& call@.interface == Some("org.kde.StatusNotifierItem"@)
                    &&& call@.member == Some("SecondaryActivate"@)
                    &&& call@.body == crate::wire::BodyView::empty().with_i32(x).with_i32(y)
                }),
            res is Err <==> forall|i: int|
                0 <= i < self@.items.len() ==> (#[trigger] self@.items[i]).id != id@,
            res matches Err(error) ==> error@ == ErrorView::ItemNotFound(id@),
    {
        proof {
            lemma_found(self@.items, id@);
        }
        self.call_item(id, "SecondaryActivate", x, y)
    }

    /// The call of the item's `Scroll` method.
    pub fn scroll(&self, id: &ItemId, delta: i32, orientation: &str) -> (res: Result<
        Message,
        Error,
    >)
        ensures
            call_view(res) == call_to(
                self@.items,
                id@,
                "Scroll"@,
                crate::wire::BodyView::empty().with_i32(delta).with_str(orientation@),
            ),
            forall|i: int|
                0 <= i < self@.items.len() && (#[trigger] self@.items[i]).id == id@ && (forall|
                    k: int,
                |
                    0 <= k < i ==> (#[trigger] self@.items[k]).id != id@) ==> (
                res matches Ok(call) && {
                    &&& call@.typ == MessageType::Call
                    &&& call@.destination == Some(self@.items[i].bus_name)
                    &&& call@.object == Some(self@.items[i].object_path)
                    &&& call@.interface == Some("org.kde.StatusNotifierItem"@)
                    &&& call@.member == Some("Scroll"@)
                    &&& call@.body == crate::wire::BodyView::empty().with_i32(delta).with_str(
                        orientation@,
                    )
                }),
            res is Err <==> forall|i: int|
                0 <= i < self@.items.len() ==> (#[trigger] self@.items[i]).id != id@,
            res matches Err(error) ==> error@ == ErrorView::ItemNotFound(id@),
    {
        proof {
            lemma_found(self@.items, id@);
        }
        match self.items.get(id) {
            Some(known) => Ok(
                item::call_method_i32_str(
                    known.bus_name.as_str(),
                    known.object_path.as_str(),
                    "Scroll",
                    delta,
                    orientation,
                ),
            ),
            None => Err(Error::ItemNotFound(id.clone())),
        }
    }

    /// The call of the item's `ProvideXdgActivationToken` method.
    pub fn provide_xdg_activation_token(&self, id: &ItemId, token: &str) -> (res: Result<
        Message,
        Error,
    >)
        ensures
            call_view(res) == call_to(
                self@.items,
                id@,
                "ProvideXdgActivationToken"@,
                crate::wire::BodyView::empty().with_str(token@),
            ),
            forall|i: int|
                0 <= i < self@.items.len() && (#[trigger] self@.items[i]).id == id@ && (forall|
                    k: int,
                |
                    0 <= k < i ==> (#[trigger] self@.items[k]).id != id@) ==> (
                res matches Ok(call) && {
                    &&& call@.typ == MessageType::Call
                    &&& call@.destination == Some(self@.items[i].bus_name)
                    &&& call@.object == Some(self@.items[i].object_path)
                    &&& call@.interface == Some("org.kde.StatusNotifierItem"@)
                    &&& call@.member == Some("ProvideXdgActivationToken"@)
                    &&& call@.body == crate::wire::BodyView::empty().with_str(token@)
                }),
            res is Err <==> forall|i: int|
                0 <= i < self@.items.len() ==> (#[trigger] self@.items[i]).id != id@,
            res matches Err(error) ==> error@ == ErrorView::ItemNotFound(id@),
    {
        proof {
            lemma_found(self@.items, id@);
        }
        match self.items.get(id) {
            Some(known) => Ok(
                item::call_method_str(
                    known.bus_name.as_str(),
                    known.object_path.as_str(),
                    "ProvideXdgActivationToken",
                    token,
                ),
            ),
            None => Err(Error::ItemNotFound(id.clone())),
        }
    }

    /// The item, where it is known and has a menu.
    fn item_with_menu(&self, id: &ItemId) -> (res: Option<&TrayItem>)
        ensures
            match res {
                Some(known) => with_menu(self@.items, id@) == Some(known@),
                None => with_menu(self@.items, id@) is None,
            },
    {
        match self.items.get(id) {
            Some(known) => if known.has_menu() {
                Some(known)
            } else {
                None
            },
            None => None,
        }
    }

    /// The call that gets the menu layout for a tray item. `None` where the item is unknown or
    /// has no menu: the menu is then empty.
    pub fn get_menu(&self, id: &ItemId, parent_id: i32) -> (res: Option<Message>)
        ensures
            optional_message(res) == match with_menu(self@.items, id@) {
                Some(known) => Some(
                    menu::layout_call(known.bus_name, known.menu_path, parent_id),
                ),
                None => None,
            },
            forall|i: int|
                0 <= i < self@.items.len() && (#[trigger] self@.items[i]).id == id@ && (forall|
                    k: int,
                |
                    0 <= k < i ==> (#[trigger] self@.items[k]).id != id@) ==> match res {
                    Some(call) => {
                        &&& self@.items[i].menu_path.len() > 0
                        &&& self@.items[i].menu_path != "/"@
                        &&& call@.typ == MessageType::Call
                        &&& call@.destination == Some(self@.items[i].bus_name)
                        &&& call@.object == Some(self@.items[i].menu_path)
                        &&& call@.interface == Some("com.canonical.dbusmenu"@)
                        &&& call@.member == Some("GetLayout"@)
                        &&& call@.body == crate::wire::BodyView::empty().with_i32(parent_id).with_i32(
                            (-1) as i32,
                        ).with_strs(seq![])
                    },
                    None => self@.items[i].menu_path.len() == 0 || self@.items[i].menu_path == "/"@,
                },
            (forall|i: int| 0 <= i < self@.items.len() ==> (#[trigger] self@.items[i]).id != id@)
                ==> res is None,
    {
        proof {
            lemma_found(self@.items, id@);
        }
        match self.item_with_menu(id) {
            Some(known) => Some(
                menu::get_layout(known.bus_name.as_str(), known.menu_path.as_str(), parent_id),
            ),
            None => None,
        }
    }

    /// The call that fires a click event on a menu item. `None` where the item is unknown or
    /// has no menu: there is then nothing to click.
    pub fn menu_click(&self, id: &ItemId, menu_id: i32) -> (res: Option<Message>)
        ensures
            optional_message(res) == match with_menu(self@.items, id@) {
                Some(known) => Some(
                    menu::event_call(known.bus_name, known.menu_path, menu_id, "clicked"@),
                ),
                None => None,
            },
            forall|i: int|
                0 <= i < self@.items.len() && (#[trigger] self@.items[i]).id == id@ && (forall|
                    k: int,
                |
                    0 <= k < i ==> (#[trigger] self@.items[k]).id != id@) ==> match res {
                    Some(call) => {
                        &&& self@.items[i].menu_path.len() > 0
                        &&& self@.items[i].menu_path != "/"@
                        &&& call@.typ == MessageType::Call
                        &&& call@.destination == Some(self@.items[i].bus_name)
                        &&& call@.object == Some(self@.items[i].menu_path)
                        &&& call@.interface == Some("com.canonical.dbusmenu"@)
                        &&& call@.member == Some("Event"@)
                        &&& call@.body == crate::wire::BodyView::empty().with_i32(menu_id).with_str(
                            "clicked"@,
                        ).with_variant_i32(0).with_u32(0)
                    },
                    None => self@.items[i].menu_path.len() == 0 || self@.items[i].menu_path == "/"@,
                },
            (forall|i: int| 0 <= i < self@.items.len() ==> (#[trigger] self@.items[i]).id != id@)
                ==> res is None,
    {
        proof {
            lemma_found(self@.items, id@);
        }
        match self.item_with_menu(id) {
            Some(known) => Some(
                menu::event(
                    known.bus_name.as_str(),
                    known.menu_path.as_str(),
                    menu_id,
                    "clicked",
                ),
            ),
            None => None,
        }
    }

    /// The call that gets properties for multiple menu items at once via
    /// `GetGroupProperties`. `None` where the item is unknown or has no menu.
    pub fn get_menu_group_properties(
        &self,
        id: &ItemId,
        ids: &[i32],
        property_names: &[&str],
    ) -> (res: Option<Message>)
        requires
            with_menu(self@.items, id@) is Some ==> ids@.len() * 4 <= u32::MAX,
        ensures
            optional_message(res) == match with_menu(self@.items, id@) {
                Some(known) => Some(
                    menu::group_properties_call(
                        known.bus_name,
                        known.menu_path,
                        ids@,
                        crate::wire::str_views(property_names@),
                    ),
                ),
                None => None,
            },
            forall|i: int|
                0 <= i < self@.items.len() && (#[trigger] self@.items[i]).id == id@ && (forall|
                    k: int,
                |
                    0 <= k < i ==> (#[trigger] self@.items[k]).id != id@) ==> match res {
                    Some(call) => {
                        &&& self@.items[i].menu_path.len() > 0
                        &&& self@.items[i].menu_path != "/"@
                        &&& call@.typ == MessageType::Call
                        &&& call@.destination == Some(self@.items[i].bus_name)
                        &&& call@.object == Some(self@.items[i].menu_path)
                        &&& call@.interface == Some("com.canonical.dbusmenu"@)
                        &&& call@.member == Some("GetGroupProperties"@)
                        &&& call@.body == crate::wire::BodyView::empty().with_i32s(ids@).with_strs(
                            crate::wire::str_views(property_names@),
                        )
                    },
                    None => self@.items[i].menu_path.len() == 0 || self@.items[i].menu_path == "/"@,
                },
            (forall|i: int| 0 <= i < self@.items.len() ==> (#[trigger] self@.items[i]).id != id@)
                ==> res is None,
    {
        proof {
            lemma_found(self@.items, id@);
        }
        match self.item_with_menu(id) {
            Some(known) => Some(
                menu::get_group_properties(
                    known.bus_name.as_str(),
                    known.menu_path.as_str(),
                    ids,
                    property_names,
                ),
            ),
            None => None,
        }
    }

    /// The call that gets a single property from a menu item via `GetProperty`. `None` where
    /// the item is unknown or has no menu.
    pub fn get_menu_property(&self, id: &ItemId, menu_id: i32, name: &str) -> (res: Option<Message>)
        ensures
            optional_message(res) == match with_menu(self@.items, id@) {
                Some(known) => Some(
                    menu::property_call(known.bus_name, known.menu_path, menu_id, name@),
                ),
                None => None,
            },
            forall|i: int|
                0 <= i < self@.items.len() && (#[trigger] self@.items[i]).id == id@ && (forall|
                    k: int,
                |
                    0 <= k < i ==> (#[trigger] self@.items[k]).id != id@) ==> match res {
                    Some(call) => {
                        &&& self@.items[i].menu_path.len() > 0
                        &&& self@.items[i].menu_path != "/"@
                        &&& call@.typ == MessageType::Call
                        &&& call@.destination == Some(self@.items[i].bus_name)
                        &&& call@.object == Some(self@.items[i].menu_path)
                        &&& call@.interface == Some("com.canonical.dbusmenu"@)
                        &&& call@.member == Some("GetProperty"@)
                        &&& call@.body == crate::wire::BodyView::empty().with_i32(menu_id).with_str(
                            name@,
                        )
                    },
                    None => self@.items[i].menu_path.len() == 0 || self@.items[i].menu_path == "/"@,
                },
            (forall|i: int| 0 <= i < self@.items.len() ==> (#[trigger] self@.items[i]).id != id@)
                ==> res is None,
    {
        proof {
            lemma_found(self@.items, id@);
        }
        match self.item_with_menu(id) {
            Some(known) => Some(
                menu::get_property(
                    known.bus_name.as_str(),
                    known.menu_path.as_str(),
                    menu_id,
                    name,
                ),
            ),
            None => None,
        }
    }

    /// Keep a message that arrived while the answer to a call about a menu is awaited, unless it
    /// is that answer, or a signal.
    fn keep_other(&mut self, message: Message, serial: u32)
        ensures
            final(self)@ == keeping_others(old(self)@, message@, serial),
    {
        let is_answer: bool = message.answers(MessageType::Reply, serial) || message.answers(
            MessageType::Error,
            serial,
        );
        if !is_answer && message.typ != MessageType::Signal {
            self.keep(message);
        }
    }

    /// Take in a message that arrives while the reply to the call of [`TrayHost::get_menu`] is
    /// awaited. `None` where the wait goes on; a signal is skipped, and any other message kept
    /// for the next round.
    pub fn get_menu_reply(&mut self, message: Message, serial: u32) -> (res: Option<
        Result<Vec<MenuNode>, Error>,
    >)
        ensures
            final(self)@ == keeping_others(old(self)@, message@, serial),
            menu::is_layout_reply(message@, serial, res),
    {
        let res: Option<Result<Vec<MenuNode>, Error>> = menu::layout_reply(&message, serial);
        self.keep_other(message, serial);
        res
    }

    /// Take in a message that arrives when the reply to the call of [`TrayHost::menu_click`]
    /// has been waited for `elapsed` nanoseconds. A signal is skipped, and any other message that
    /// does not answer the call kept for the next round.
    pub fn menu_click_reply(&mut self, message: Message, serial: u32, elapsed: u64) -> (res:
        EventWait)
        ensures
            final(self)@ == keeping_others(old(self)@, message@, serial),
            res@ == menu::event_answered(message@, serial, elapsed),
    {
        let res: EventWait = menu::event_reply(&message, serial, elapsed);
        self.keep_other(message, serial);
        res
    }

    /// Take in a message that arrives while the reply to the call of
    /// [`TrayHost::get_menu_group_properties`] is awaited. `None` where the wait goes on; a signal
    /// is skipped, and any other message kept for the next round.
    pub fn get_menu_group_properties_reply(&mut self, message: Message, serial: u32) -> (res:
        Option<Vec<MenuItemProps>>)
        ensures
            final(self)@ == keeping_others(old(self)@, message@, serial),
            menu::is_group_properties_reply(message@, serial, res),
    {
        let res: Option<Vec<MenuItemProps>> = menu::group_properties_reply(&message, serial);
        self.keep_other(message, serial);
        res
    }

    /// Take in a message that arrives while the reply to the call of
    /// [`TrayHost::get_menu_property`] is awaited. `None` where the wait goes on; a signal is
    /// skipped, and any other message kept for the next round.
    pub fn get_menu_property_reply(&mut self, message: Message, serial: u32) -> (res: Option<
        Option<PropValue>,
    >)
        ensures
            final(self)@ == keeping_others(old(self)@, message@, serial),
            menu::is_property_reply(message@, serial, res),
    {
        let res: Option<Option<PropValue>> = menu::property_reply(&message, serial);
        self.keep_other(message, serial);
        res
    }

    /// The signal to emit before the host goes away.
    pub fn shutdown(&self) -> (res: Message)
        ensures
            res@ == watcher::host_unregistered(),
            res@ == MessageView::signal(
                "org.kde.StatusNotifierWatcher"@,
                "StatusNotifierHostUnregistered"@,
                "/StatusNotifierWatcher"@,
            ),
    {
        watcher::host_unregistered_signal()
    }

    /// Note that the signal of [`TrayHost::shutdown`] was sent: the next round tells of it.
    pub fn shutdown_sent(&mut self)
        ensures
            final(self)@ == shut_down(old(self)@),
            consistent(old(self)@) ==> consistent(final(self)@),
    {
        proof {
            lemma_event_views_push(self.pending_events@, TrayEvent::HostShutdown);
        }
        self.pending_events.push(TrayEvent::HostShutdown);
    }

    /// The call that reads the properties of an item that is to be added by its bus name.
    pub fn add_item(&self, bus_name: &str, object_path: &str) -> (res: Message)
        ensures
            res@ == item::get_all_call(bus_name@, object_path@),
            res@.destination == Some(bus_name@),
            res@.object == Some(object_path@),
    {
        TrayItem::send_get_all(bus_name, object_path)
    }

    /// Take in a message that arrives while the reply to the call of [`TrayHost::add_item`]
    /// is awaited.
    ///
    /// `None` where the wait goes on; the message is kept for the next round. Otherwise the
    /// identifier under which the item was added, or why it was not.
    pub fn add_item_reply(
        &mut self,
        message: Message,
        serial: u32,
        bus_name: &str,
        object_path: &str,
    ) -> (res: Option<Result<ItemId, Error>>)
        ensures
            ({
                let (host, outcome) = add_received(
                    old(self)@,
                    message@,
                    serial,
                    bus_name@,
                    object_path@,
                );
                &&& final(self)@ == host
                &&& consistent(old(self)@) ==> consistent(host)
                &&& match res {
                    Some(Ok(id)) => outcome == Some(Ok::<Seq<char>, ErrorView>(id@)),
                    Some(Err(error)) => outcome == Some(Err::<Seq<char>, ErrorView>(error@)),
                    None => outcome is None,
                }
            }),
    {
        proof {
            if consistent(self@) {
                crate::laws::law_add_item_keeps_consistency(
                    self@,
                    message@,
                    serial,
                    bus_name@,
                    object_path@,
                );
            }
        }
        match TrayItem::from_bus_get_all(&message, serial, bus_name, bus_name, object_path) {
            Some(Ok(item)) => {
                let id: ItemId = item.id.clone();
                self.items.insert(item);
                Some(Ok(id))
            },
            Some(Err(error)) => Some(Err(error)),
            None => {
                self.keep(message);
                None
            },
        }
    }
}

/// What is stated of a request is stated of what it asks for.
pub proof fn law_request_view_shows_the_request(
    message: Message,
    events: Vec<TrayEvent>,
    error: Error,
)
    ensures
        Request::Proceed@ == RequestView::Proceed,
        Request::Send(message)@ == RequestView::Send(message@),
        Request::Receive@ == RequestView::Receive,
        Request::Read@ == RequestView::Read,
        Request::Take@ == RequestView::Take,
        Request::Finished(events)@ == RequestView::Finished(items::event_views(events@)),
        Request::Failed(error)@ == RequestView::Failed(error@),
{
}

/// What is stated of an answer is stated of what it says.
pub proof fn law_answer_view_shows_the_answer(
    message: Message,
    serial: u32,
    now: u64,
    error: ConnectionError,
)
    ensures
        Answer::Proceed@ == AnswerView::Proceed,
        Answer::Sent(serial, now)@ == AnswerView::Sent(serial, now),
        Answer::Received(message)@ == AnswerView::Received(message@),
        Answer::Progress@ == AnswerView::Progress,
        Answer::Nothing@ == AnswerView::Nothing,
        Answer::TimedOut(now)@ == AnswerView::TimedOut(now),
        Answer::Failed(error)@ == AnswerView::Failed,
{
}

} // verus!
