//! How the host comes up: the bus names it takes, the signals it subscribes to, and the items
//! that are already there.

use vstd::prelude::*;

use crate::error::{Error, ErrorView};
use crate::host;
use crate::items::{TrayEvent, TrayEventView};
use crate::message::{Message, MessageType, MessageView};
use crate::tray::{self, Answer, AnswerView, Request, RequestView, TrayHost, TrayHostView};
use crate::watcher::{self, NameVerdict};

verus! {

/// The well-known names of the watcher.
pub const WATCHER_NAME_FREEDESKTOP: &'static str = "org.freedesktop.StatusNotifierWatcher";

pub const WATCHER_NAME_KDE: &'static str = "org.kde.StatusNotifierWatcher";

/// The signals that tell when connections appear and vanish.
pub const OWNER_RULE: &'static str =
    "type='signal',interface='org.freedesktop.DBus',member='NameOwnerChanged'";

/// The signals that tell of changes to menus.
pub const MENU_RULE: &'static str = "type='signal',interface='com.canonical.dbusmenu'";

/// How far the host has come up: what was asked for last.
#[derive(Debug, Clone, Copy, PartialEq, Eq, Structural)]
pub enum Startup {
    /// To ask for the first name of the watcher.
    AskingFirst,
    /// To receive the answer to the call with that serial number.
    AwaitingFirst(u32),
    /// To ask for the second name of the watcher.
    AskingSecond,
    /// To receive the answer to the call with that serial number.
    AwaitingSecond(u32),
    /// To subscribe to changes of owners.
    WatchingOwners,
    /// To subscribe to changes of menus.
    WatchingMenus,
    /// To ask for the name of the host.
    AskingHost,
    /// To receive the answer to the call with that serial number.
    AwaitingHost(u32),
    /// To tell items that there is a host.
    Announcing,
    /// To ask who is on the bus.
    Listing,
    /// To receive the answer to the call with that serial number.
    AwaitingList(u32),
    /// Nothing more.
    Over,
}

impl Startup {
    /// The answer is one to what was asked for last.
    pub open spec fn accepts(self, answer: AnswerView) -> bool {
        match self {
            Startup::AwaitingFirst(_) => answer is Received || answer is Failed,
            Startup::AwaitingSecond(_) => answer is Received || answer is Failed,
            Startup::AwaitingHost(_) => answer is Received || answer is Failed,
            Startup::AwaitingList(_) => answer is Received || answer is Failed,
            Startup::Over => false,
            _ => answer is Sent || answer is Failed,
        }
    }

    /// The stages come in this order.
    pub open spec fn rank(self) -> int {
        match self {
            Startup::AskingFirst => 0,
            Startup::AwaitingFirst(_) => 1,
            Startup::AskingSecond => 2,
            Startup::AwaitingSecond(_) => 3,
            Startup::WatchingOwners => 4,
            Startup::WatchingMenus => 5,
            Startup::AskingHost => 6,
            Startup::AwaitingHost(_) => 7,
            Startup::Announcing => 8,
            Startup::Listing => 9,
            Startup::AwaitingList(_) => 10,
            Startup::Over => 11,
        }
    }
}

/// The state of the host while it comes up, and what to do next.
pub struct StartStep {
    pub host: TrayHostView,
    pub stage: Startup,
    pub request: RequestView,
}

/// A step that sends a message.
pub open spec fn sending(host: TrayHostView, stage: Startup, message: MessageView) -> StartStep {
    StartStep { host, stage, request: RequestView::Send(message) }
}

/// A step that waits for a message.
pub open spec fn waiting(host: TrayHostView, stage: Startup) -> StartStep {
    StartStep { host, stage, request: RequestView::Receive }
}

/// The host does not come up.
pub open spec fn gave_up(host: TrayHostView, error: ErrorView) -> StartStep {
    StartStep { host, stage: Startup::Over, request: RequestView::Failed(error) }
}

/// The host is up.
pub open spec fn came_up(host: TrayHostView) -> StartStep {
    StartStep { host, stage: Startup::Over, request: RequestView::Finished(seq![]) }
}

/// The first step.
pub open spec fn first_step(host: TrayHostView) -> StartStep {
    sending(
        host,
        Startup::AskingFirst,
        MessageView::request_name(WATCHER_NAME_FREEDESKTOP@, 0),
    )
}

/// A message arrived while a name of the watcher is awaited. Unrelated signals are skipped;
/// other unrelated messages are kept.
pub open spec fn after_name(
    host: TrayHostView,
    stage: Startup,
    serial: u32,
    message: MessageView,
    next: StartStep,
) -> StartStep {
    match watcher::name_verdict(message, serial) {
        NameVerdict::GoOn => next,
        NameVerdict::Taken => gave_up(host, ErrorView::WatcherAlreadyRunning),
        NameVerdict::Wait => if message.typ == MessageType::Signal {
            waiting(host, stage)
        } else {
            waiting(tray::keeping(host, message), stage)
        },
    }
}

/// How the host goes on coming up after an answer.
///
/// Both names of the watcher must be free. Messages that arrive while something else is awaited
/// are kept, but for signals while a name of the watcher is. Only when the host has its name are items told of it. That the bus cannot be
/// listed does not keep the host from coming up.
pub open spec fn start_step(host: TrayHostView, stage: Startup, answer: AnswerView) -> StartStep {
    match stage {
        Startup::AskingFirst => match answer {
            AnswerView::Sent(serial, _) => waiting(host, Startup::AwaitingFirst(serial)),
            _ => gave_up(host, ErrorView::Bus),
        },
        Startup::AwaitingFirst(serial) => match answer {
            AnswerView::Received(message) => after_name(
                host,
                stage,
                serial,
                message,
                sending(
                    host,
                    Startup::AskingSecond,
                    MessageView::request_name(WATCHER_NAME_KDE@, 0),
                ),
            ),
            _ => gave_up(host, ErrorView::Bus),
        },
        Startup::AskingSecond => match answer {
            AnswerView::Sent(serial, _) => waiting(host, Startup::AwaitingSecond(serial)),
            _ => gave_up(host, ErrorView::Bus),
        },
        Startup::AwaitingSecond(serial) => match answer {
            AnswerView::Received(message) => after_name(
                host,
                stage,
                serial,
                message,
                sending(host, Startup::WatchingOwners, MessageView::add_match(OWNER_RULE@)),
            ),
            _ => gave_up(host, ErrorView::Bus),
        },
        Startup::WatchingOwners => match answer {
            AnswerView::Sent(_, _) => sending(
                host,
                Startup::WatchingMenus,
                MessageView::add_match(MENU_RULE@),
            ),
            _ => gave_up(host, ErrorView::Bus),
        },
        Startup::WatchingMenus => match answer {
            AnswerView::Sent(_, _) => sending(
                host,
                Startup::AskingHost,
                MessageView::request_name(host.host_name, 0),
            ),
            _ => gave_up(host, ErrorView::Bus),
        },
        Startup::AskingHost => match answer {
            AnswerView::Sent(serial, _) => waiting(host, Startup::AwaitingHost(serial)),
            _ => gave_up(host, ErrorView::Bus),
        },
        Startup::AwaitingHost(serial) => match answer {
            AnswerView::Received(message) => if message.response_serial == Some(serial) {
                sending(host, Startup::Announcing, watcher::host_registered())
            } else {
                waiting(tray::keeping(host, message), stage)
            },
            _ => gave_up(host, ErrorView::Bus),
        },
        Startup::Announcing => match answer {
            AnswerView::Sent(_, _) => sending(host, Startup::Listing, MessageView::list_names()),
            _ => gave_up(host, ErrorView::Bus),
        },
        Startup::Listing => match answer {
            AnswerView::Sent(serial, _) => waiting(host, Startup::AwaitingList(serial)),
            _ => came_up(host),
        },
        Startup::AwaitingList(serial) => match answer {
            AnswerView::Received(message) => match watcher::discovered(message, serial) {
                Some(names) => came_up(TrayHostView { names, ..host }),
                None => waiting(tray::keeping(host, message), stage),
            },
            _ => came_up(host),
        },
        Startup::Over => came_up(host),
    }
}

/// The contents of a step.
pub open spec fn start_view(host: TrayHostView, step: (Startup, Request)) -> StartStep {
    StartStep { host, stage: step.0, request: step.1@ }
}

fn failed(error: Error) -> (res: (Startup, Request))
    ensures
        forall|host: TrayHostView| #[trigger] start_view(host, res) == gave_up(host, error@),
        res.1 == Request::Failed(error),
{
    (Startup::Over, Request::Failed(error))
}

fn ready() -> (res: (Startup, Request))
    ensures
        forall|host: TrayHostView| #[trigger] start_view(host, res) == came_up(host),
{
    let none: Vec<TrayEvent> = Vec::new();
    assert(crate::items::event_views(none@) =~= Seq::<TrayEventView>::empty());
    (Startup::Over, Request::Finished(none))
}

impl TrayHost {
    /// Begin to register as StatusNotifierWatcher and StatusNotifierHost.
    pub fn start(&self) -> (res: (Startup, Request))
        ensures
            start_view(self@, res) == first_step(self@),
    {
        (
            Startup::AskingFirst,
            Request::Send(Message::request_name(WATCHER_NAME_FREEDESKTOP, 0)),
        )
    }

    /// Carry on the registration with what came of the request. The request that ends it is
    /// `Finished`, or `Failed` with `WatcherAlreadyRunning` if another watcher is active.
    pub fn start_resume(&mut self, stage: Startup, answer: Answer) -> (res: (Startup, Request))
        requires
            stage.accepts(answer@),
        ensures
            start_view(final(self)@, res) == start_step(old(self)@, stage, answer@),
            tray::consistent(old(self)@) ==> tray::consistent(final(self)@),
            answer matches Answer::Failed(error) ==> (res.1 is Failed ==> res.1 == Request::Failed(
                Error::Bus(error),
            )),
    {
        match (stage, answer) {
            (Startup::AskingFirst, Answer::Sent(serial, _)) => (
                Startup::AwaitingFirst(serial),
                Request::Receive,
            ),
            (Startup::AwaitingFirst(serial), Answer::Received(message)) => match watcher::register(
                &message,
                serial,
            ) {
                NameVerdict::GoOn => (
                    Startup::AskingSecond,
                    Request::Send(Message::request_name(WATCHER_NAME_KDE, 0)),
                ),
                NameVerdict::Taken => failed(Error::WatcherAlreadyRunning),
                NameVerdict::Wait => {
                    // Skip unrelated signals
                    if message.typ != MessageType::Signal {
                        self.keep(message);
                    }
                    (stage, Request::Receive)
                },
            },
            (Startup::AskingSecond, Answer::Sent(serial, _)) => (
                Startup::AwaitingSecond(serial),
                Request::Receive,
            ),
            (Startup::AwaitingSecond(serial), Answer::Received(message)) => match watcher::register(
                &message,
                serial,
            ) {
                NameVerdict::GoOn => (
                    Startup::WatchingOwners,
                    Request::Send(Message::add_match(OWNER_RULE)),
                ),
                NameVerdict::Taken => failed(Error::WatcherAlreadyRunning),
                NameVerdict::Wait => {
                    // Skip unrelated signals
                    if message.typ != MessageType::Signal {
                        self.keep(message);
                    }
                    (stage, Request::Receive)
                },
            },
            (Startup::WatchingOwners, Answer::Sent(_, _)) => (
                Startup::WatchingMenus,
                Request::Send(Message::add_match(MENU_RULE)),
            ),
            (Startup::WatchingMenus, Answer::Sent(_, _)) => (
                Startup::AskingHost,
                Request::Send(host::register(self.host_name())),
            ),
            (Startup::AskingHost, Answer::Sent(serial, _)) => (
                Startup::AwaitingHost(serial),
                Request::Receive,
            ),
            (Startup::AwaitingHost(serial), Answer::Received(message)) => {
                if message.responds_to(serial) {
                    (Startup::Announcing, Request::Send(watcher::host_registered_signal()))
                } else {
                    self.keep(message);
                    (stage, Request::Receive)
                }
            },
            (Startup::Announcing, Answer::Sent(_, _)) => (
                Startup::Listing,
                Request::Send(Message::list_names()),
            ),
            (Startup::Listing, Answer::Sent(serial, _)) => (
                Startup::AwaitingList(serial),
                Request::Receive,
            ),
            (Startup::AwaitingList(serial), Answer::Received(message)) => {
                match watcher::discover_existing_items(&message, serial) {
                    Some(names) => {
                        self.set_names(names);
                        ready()
                    },
                    None => {
                        self.keep(message);
                        (stage, Request::Receive)
                    },
                }
            },
            (Startup::Listing, _) => ready(),
            (Startup::AwaitingList(_), _) => ready(),
            (_, Answer::Failed(error)) => failed(Error::Bus(error)),
            (_, _) => ready(),
        }
    }
}

// ---------------------------------------------------------------------------
// Laws

/// Coming up never goes back: each step stays where it is, and waits, or moves on.
pub proof fn law_startup_moves_on(host: TrayHostView, stage: Startup, answer: AnswerView)
    requires
        stage.accepts(answer),
    ensures
        ({
            let step = start_step(host, stage, answer);
            step.stage.rank() > stage.rank() || (step.stage == stage && step.request
                == RequestView::Receive)
        }),
{
}

/// Another watcher is reported exactly when a name of the watcher is refused.
pub proof fn law_watcher_already_running(host: TrayHostView, stage: Startup, answer: AnswerView)
    requires
        stage.accepts(answer),
    ensures
        start_step(host, stage, answer).request == RequestView::Failed(
            ErrorView::WatcherAlreadyRunning,
        ) <==> ({
            ||| stage matches Startup::AwaitingFirst(serial) && answer matches AnswerView::Received(
                message,
            ) && watcher::name_verdict(message, serial) == NameVerdict::Taken
            ||| stage matches Startup::AwaitingSecond(serial)
                && answer matches AnswerView::Received(message) && watcher::name_verdict(
                message,
                serial,
            ) == NameVerdict::Taken
        }),
{
}

/// Items are told of the host only once the bus has answered the request for its name.
pub proof fn law_host_is_announced_after_registration(
    host: TrayHostView,
    stage: Startup,
    answer: AnswerView,
)
    requires
        stage.accepts(answer),
        start_step(host, stage, answer).stage == Startup::Announcing,
    ensures
        start_step(host, stage, answer).request == RequestView::Send(watcher::host_registered()),
        stage matches Startup::AwaitingHost(serial) && answer matches AnswerView::Received(message)
            && message.response_serial == Some(serial),
{
}

/// A message that arrives while the host comes up is the awaited one, or it is kept behind those
/// that were kept before, and the wait goes on. Only signals are skipped, and only while a name
/// of the watcher is awaited.
pub proof fn law_startup_keeps_messages(
    host: TrayHostView,
    stage: Startup,
    serial: u32,
    message: MessageView,
)
    requires
        ({
            ||| stage == Startup::AwaitingFirst(serial)
            ||| stage == Startup::AwaitingSecond(serial)
            ||| stage == Startup::AwaitingHost(serial)
            ||| stage == Startup::AwaitingList(serial)
        }),
    ensures
        ({
            let step = start_step(host, stage, AnswerView::Received(message));
            ||| message.response_serial == Some(serial) && step.host.messages == host.messages
            ||| step == waiting(tray::keeping(host, message), stage)
            ||| step == waiting(host, stage) && message.typ == MessageType::Signal && (stage
                == Startup::AwaitingFirst(serial) || stage == Startup::AwaitingSecond(serial))
        }),
{
}

/// Only unique names are queued for probing at startup.
pub proof fn law_startup_queues_unique_names(
    host: TrayHostView,
    stage: Startup,
    answer: AnswerView,
    name: Seq<char>,
)
    requires
        stage.accepts(answer),
        host.names.contains(name) ==> watcher::is_unique_name(name),
    ensures
        start_step(host, stage, answer).host.names.contains(name) ==> watcher::is_unique_name(name),
{
    if let Startup::AwaitingList(serial) = stage {
        if let AnswerView::Received(message) = answer {
            if let Some(names) = message.body.string_array() {
                watcher::law_discovered_names_are_unique_names(names, name);
            }
        }
    }
}

/// What is asked for at each stage, in the order of the stages: the two names of the watcher, the
/// signals about owners and about menus, the name of the host, the announcement of the host, and
/// the list of names. Each stage comes when what was asked for before it is granted, and none of
/// this changes the host.
pub proof fn law_startup_asks_in_order(
    host: TrayHostView,
    serial: u32,
    now: u64,
    granted: MessageView,
)
    requires
        granted.typ == MessageType::Reply,
        granted.response_serial == Some(serial),
        granted.body.first_u32() == Some(1u32) || granted.body.first_u32() == Some(4u32),
    ensures
        first_step(host) == (StartStep {
            host,
            stage: Startup::AskingFirst,
            request: RequestView::Send(
                MessageView::request_name("org.freedesktop.StatusNotifierWatcher"@, 0),
            ),
        }),
        start_step(host, Startup::AwaitingFirst(serial), AnswerView::Received(granted)) == (
        StartStep {
            host,
            stage: Startup::AskingSecond,
            request: RequestView::Send(
                MessageView::request_name("org.kde.StatusNotifierWatcher"@, 0),
            ),
        }),
        start_step(host, Startup::AwaitingSecond(serial), AnswerView::Received(granted)) == (
        StartStep {
            host,
            stage: Startup::WatchingOwners,
            request: RequestView::Send(
                MessageView::add_match(
                    "type='signal',interface='org.freedesktop.DBus',member='NameOwnerChanged'"@,
                ),
            ),
        }),
        start_step(host, Startup::WatchingOwners, AnswerView::Sent(serial, now)) == (StartStep {
            host,
            stage: Startup::WatchingMenus,
            request: RequestView::Send(
                MessageView::add_match("type='signal',interface='com.canonical.dbusmenu'"@),
            ),
        }),
        start_step(host, Startup::WatchingMenus, AnswerView::Sent(serial, now)) == (StartStep {
            host,
            stage: Startup::AskingHost,
            request: RequestView::Send(MessageView::request_name(host.host_name, 0)),
        }),
        start_step(host, Startup::AwaitingHost(serial), AnswerView::Received(granted)) == (
        StartStep {
            host,
            stage: Startup::Announcing,
            request: RequestView::Send(
                MessageView::signal(
                    "org.kde.StatusNotifierWatcher"@,
                    "StatusNotifierHostRegistered"@,
                    "/StatusNotifierWatcher"@,
                ),
            ),
        }),
        start_step(host, Startup::Announcing, AnswerView::Sent(serial, now)) == (StartStep {
            host,
            stage: Startup::Listing,
            request: RequestView::Send(MessageView::list_names()),
        }),
{
    watcher::law_watcher_signals_name_the_item(host.host_name);
}

/// Once a question was sent, its answer is waited for under its own serial number.
pub proof fn law_startup_awaits_each_answer(host: TrayHostView, serial: u32, now: u64)
    ensures
        ({
            let sent = AnswerView::Sent(serial, now);
            let receive = RequestView::Receive;
            &&& start_step(host, Startup::AskingFirst, sent) == (StartStep {
                host,
                stage: Startup::AwaitingFirst(serial),
                request: receive,
            })
            &&& start_step(host, Startup::AskingSecond, sent) == (StartStep {
                host,
                stage: Startup::AwaitingSecond(serial),
                request: receive,
            })
            &&& start_step(host, Startup::AskingHost, sent) == (StartStep {
                host,
                stage: Startup::AwaitingHost(serial),
                request: receive,
            })
            &&& start_step(host, Startup::Listing, sent) == (StartStep {
                host,
                stage: Startup::AwaitingList(serial),
                request: receive,
            })
        }),
{
}

/// Any other answer to the request for a name of the watcher means that another watcher is
/// running, and the host does not come up.
pub proof fn law_refused_watcher_name_ends_startup(
    host: TrayHostView,
    serial: u32,
    refused: MessageView,
)
    requires
        refused.response_serial == Some(serial),
        refused.typ != MessageType::Reply || (refused.body.first_u32() != Some(1u32)
            && refused.body.first_u32() != Some(4u32)),
    ensures
        ({
            let over = StartStep {
                host,
                stage: Startup::Over,
                request: RequestView::Failed(ErrorView::WatcherAlreadyRunning),
            };
            let answer = AnswerView::Received(refused);
            &&& start_step(host, Startup::AwaitingFirst(serial), answer) == over
            &&& start_step(host, Startup::AwaitingSecond(serial), answer) == over
        }),
{
}

/// The list of names ends startup: those among them that begin with `:1.` are to be probed, in
/// their order, and none where there is no list. The host comes up without a list, too, where it
/// cannot be had.
pub proof fn law_list_of_names_ends_startup(
    host: TrayHostView,
    serial: u32,
    list: MessageView,
)
    requires
        list.typ == MessageType::Reply,
        list.response_serial == Some(serial),
    ensures
        ({
            let up = start_step(host, Startup::AwaitingList(serial), AnswerView::Received(list));
            &&& up.stage == Startup::Over && up.request == RequestView::Finished(seq![])
            &&& up.host == (TrayHostView { names: up.host.names, ..host })
            &&& match list.body.string_array() {
                Some(names) => up.host.names == watcher::unique_among(names),
                None => up.host.names.len() == 0,
            }
        }),
        ({
            let up = StartStep {
                host,
                stage: Startup::Over,
                request: RequestView::Finished(seq![]),
            };
            &&& start_step(host, Startup::Listing, AnswerView::Failed) == up
            &&& start_step(host, Startup::AwaitingList(serial), AnswerView::Failed) == up
        }),
{
}

/// Where the connection fails before, the host does not come up.
pub proof fn law_startup_fails_with_the_connection(host: TrayHostView, stage: Startup)
    requires
        stage.accepts(AnswerView::Failed),
        stage != Startup::Listing,
        !(stage is AwaitingList),
    ensures
        start_step(host, stage, AnswerView::Failed) == (StartStep {
            host,
            stage: Startup::Over,
            request: RequestView::Failed(ErrorView::Bus),
        }),
{
}

} // verus!
