//! What holds of the tray host in every state, and over several steps.

use vstd::prelude::*;

use crate::error::ErrorView;
use crate::item::{self, TrayItemView};
use crate::items::{self, TrayEventView};
use crate::menu;
use crate::message::{MessageType, MessageView};
use crate::startup::{self, Startup};
use crate::tray::{
    self, AnswerView, FetchView, Origin, PollView, ProbeView, PurposeView, RequestView, StageView,
    Step, TrayHostView, PROBE_NANOS, PROBE_RETRIES,
};
use crate::watcher::{self, CallOutcomeView, TargetView};

verus! {

/// A new host is consistent.
pub proof fn law_new_host_is_consistent(host_name: Seq<char>)
    ensures
        tray::consistent(tray::new_host(host_name)),
{
}

/// Every step of a round of polling keeps the host consistent.
pub proof fn law_steps_keep_consistency(
    host: TrayHostView,
    poll: PollView,
    answer: AnswerView,
    step: Step,
)
    requires
        tray::consistent(host),
        poll.stage.accepts(answer),
        tray::is_step(host, poll, answer, step),
    ensures
        tray::consistent(step.host),
{
    match poll.stage {
        StageView::Queue => if host.messages.len() > 0 {
            let rest = TrayHostView { messages: host.messages.drop_first(), ..host };
            lemma_message_keeps(rest, poll.events, Origin::Queue, host.messages[0], step);
        },
        StageView::Reading => if let AnswerView::TimedOut(now) = answer {
            lemma_expiry_keeps(host, now);
        },
        StageView::Taking => if let AnswerView::Received(message) = answer {
            lemma_message_keeps(host, poll.events, Origin::Socket, message, step);
        },
        StageView::Vanishing(origin, ids) => if ids.len() > 0 {
            items::law_remove(host.items, ids[0], ids[0]);
        },
        _ => {},
    }
}

proof fn lemma_dispatch_keeps(
    host: TrayHostView,
    events: Seq<TrayEventView>,
    origin: Origin,
    message: MessageView,
    step: Step,
)
    requires
        tray::consistent(host),
        tray::is_dispatch(host, events, origin, message, step),
    ensures
        tray::consistent(step.host),
{
    if message.typ == MessageType::Signal {
        if let Ok(effect) = watcher::signal_effect(message, host.items, host.names) {
            if let watcher::SignalOutcomeView::Vanished(_, ids) = effect.outcome {
                if ids.len() > 0 {
                    items::law_remove(host.items, ids[0], ids[0]);
                }
            }
        }
    }
}

proof fn lemma_message_keeps(
    host: TrayHostView,
    events: Seq<TrayEventView>,
    origin: Origin,
    message: MessageView,
    step: Step,
)
    requires
        tray::consistent(host),
        tray::is_message_step(host, events, origin, message, step),
    ensures
        tray::consistent(step.host),
{
    if ends_probe(host, message) {
        let name = host.probe->0.name;
        let item = TrayItemView::from_reply(message.body, name, name, watcher::DEFAULT_ITEM_PATH@);
        items::law_insert(host.items, item, item.id);
    } else if tray::answers_fetch(host.fetches, message) {
        let at = tray::fetch_position(host.fetches, message.response_serial->0);
        let target = host.fetches[at].target;
        if let Some(Ok(item)) = item::fetched(
            message,
            host.fetches[at].serial,
            target.service_id,
            target.bus_name,
            target.object_path,
        ) {
            items::law_insert(host.items, item, item.id);
        }
    } else {
        lemma_dispatch_keeps(host, events, origin, message, step);
    }
}

/// The message answers the probe in flight: it is the reply to it, or an error.
pub open spec fn ends_probe(host: TrayHostView, message: MessageView) -> bool {
    host.probe matches Some(probe) && menu::ends_wait(message, probe.serial)
}

proof fn lemma_expiry_keeps(host: TrayHostView, now: u64)
    requires
        tray::consistent(host),
    ensures
        tray::consistent(tray::expire_probe(host, now)),
{
}

/// Coming up keeps the host consistent.
pub proof fn law_startup_keeps_consistency(host: TrayHostView, stage: Startup, answer: AnswerView)
    requires
        tray::consistent(host),
        stage.accepts(answer),
    ensures
        tray::consistent(startup::start_step(host, stage, answer).host),
{
}

/// Saying that the host goes away keeps it consistent.
pub proof fn law_shutdown_keeps_consistency(host: TrayHostView)
    requires
        tray::consistent(host),
    ensures
        tray::consistent(tray::shut_down(host)),
{
}

/// No call and no answer is lost while the answer about a menu is awaited, and nothing else
/// changes: a message is the awaited one, or a signal, which is skipped, or it is kept behind
/// those that were kept before.
pub proof fn law_menu_waits_skip_only_signals(host: TrayHostView, message: MessageView, serial: u32)
    ensures
        ({
            let after = tray::keeping_others(host, message, serial);
            &&& after.messages == if message.typ == MessageType::Signal || message.answers(
                MessageType::Reply,
                serial,
            ) || message.answers(MessageType::Error, serial) {
                host.messages
            } else {
                host.messages.push(message)
            }
            &&& after == (TrayHostView { messages: after.messages, ..host })
            &&& tray::consistent(host) ==> tray::consistent(after)
        }),
{
}

/// Adding an item by its bus name keeps the host consistent, whatever message arrives.
pub proof fn law_add_item_keeps_consistency(
    host: TrayHostView,
    message: MessageView,
    serial: u32,
    bus_name: Seq<char>,
    object_path: Seq<char>,
)
    requires
        tray::consistent(host),
    ensures
        tray::consistent(tray::add_received(host, message, serial, bus_name, object_path).0),
{
    if let Some(Ok(item)) = item::fetched(message, serial, bus_name, bus_name, object_path) {
        items::law_insert(host.items, item, item.id);
    }
}

/// An item that was added by its bus name is found under the identifier that is returned.
pub proof fn law_added_item_is_found(
    host: TrayHostView,
    message: MessageView,
    serial: u32,
    bus_name: Seq<char>,
    object_path: Seq<char>,
)
    requires
        tray::consistent(host),
    ensures
        ({
            let (after, outcome) = tray::add_received(
                host,
                message,
                serial,
                bus_name,
                object_path,
            );
            outcome matches Some(Ok(id)) ==> id == bus_name && items::found(after.items, id)
                == Some(TrayItemView::from_reply(message.body, bus_name, bus_name, object_path))
        }),
{
    if let Some(Ok(item)) = item::fetched(message, serial, bus_name, bus_name, object_path) {
        items::law_insert(host.items, item, item.id);
    }
}

// ---------------------------------------------------------------------------
// Registration

/// Registering a service again, or another service on a known bus name, changes no item. It
/// tells that the known item has changed, and nothing else.
pub proof fn law_known_service_is_not_added_again(
    host: TrayHostView,
    events: Seq<TrayEventView>,
    origin: Origin,
    fetch: FetchView,
    item: TrayItemView,
)
    requires
        tray::consistent(host),
        fetch.purpose is Register,
        items::has_id(host.items, fetch.target.service_id) || items::bus_known(
            host.items,
            fetch.target.bus_name,
        ),
    ensures
        ({
            let target = fetch.target;
            let step = tray::fetch_done(host, events, origin, fetch, item);
            let known = tray::known_id(host.items, target);
            &&& step.host == host
            &&& step.poll.events == events.push(TrayEventView::ItemChanged(known))
            &&& items::found(host.items, known) matches Some(kept) && (kept.id == target.service_id
                || kept.bus_name == target.bus_name)
        }),
{
    let target = fetch.target;
    if items::has_id(host.items, target.service_id) {
        items::lemma_position(host.items, target.service_id);
    } else {
        let i = choose|i: int|
            0 <= i < host.items.len() && (#[trigger] host.items[i]).bus_name == target.bus_name;
        lemma_bus_position_in_range(host.items, target.bus_name, i);
        let known = tray::known_id(host.items, target);
        let at = items::bus_position(host.items, target.bus_name);
        assert(host.items[at].id == known);
        items::lemma_position(host.items, known);
        assert(items::position(host.items, known) == at);
    }
}

/// A new service is found under its identifier once it is registered, with an event that tells
/// of it.
pub proof fn law_new_service_is_added(
    host: TrayHostView,
    events: Seq<TrayEventView>,
    origin: Origin,
    fetch: FetchView,
    body: crate::wire::BodyView,
)
    requires
        tray::consistent(host),
        fetch.purpose is Register,
        tray::is_new(host.items, fetch.target),
    ensures
        ({
            let target = fetch.target;
            let item = TrayItemView::from_reply(
                body,
                target.service_id,
                target.bus_name,
                target.object_path,
            );
            let step = tray::fetch_done(host, events, origin, fetch, item);
            &&& items::found(step.host.items, target.service_id) == Some(item)
            &&& step.poll.events == events.push(TrayEventView::ItemAdded(target.service_id))
        }),
{
    let target = fetch.target;
    let item = TrayItemView::from_reply(
        body,
        target.service_id,
        target.bus_name,
        target.object_path,
    );
    items::law_insert(host.items, item, item.id);
}

/// No two items live on the same bus name.
pub open spec fn bus_names_distinct(items: Seq<TrayItemView>) -> bool {
    forall|i: int, j: int|
        0 <= i < j < items.len() ==> (#[trigger] items[i]).bus_name != (
        #[trigger] items[j]).bus_name
}

/// Registering keeps the bus names of the items distinct, whatever answers the call that reads
/// the properties.
pub proof fn law_registration_keeps_bus_names_distinct(
    host: TrayHostView,
    events: Seq<TrayEventView>,
    origin: Origin,
    fetch: FetchView,
    message: MessageView,
)
    requires
        fetch.purpose is Register,
        bus_names_distinct(host.items),
    ensures
        bus_names_distinct(
            tray::fetch_answered(host, events, origin, fetch, message).host.items,
        ),
{
}

/// The stage of a round in which a registration has not been answered yet.
pub open spec fn owed_by_stage(stage: StageView, reply: MessageView) -> bool {
    match stage {
        StageView::FetchSending(_, _, PurposeView::Register(r)) => r == reply,
        StageView::Announcing(_, r, _) => r == reply,
        _ => false,
    }
}

/// A registration has not been answered yet: its reply is owed, by the stage of the round or by
/// a fetch in flight.
pub open spec fn owes_reply(host: TrayHostView, stage: StageView, reply: MessageView) -> bool {
    ||| owed_by_stage(stage, reply)
    ||| exists|i: int|
        0 <= i < host.fetches.len() && (#[trigger] host.fetches[i]).purpose
            == PurposeView::Register(reply)
}

/// A registration is not forgotten, whether or not the properties of the item can be read: the
/// reply stays owed until it is sent, unless the connection fails. How long the properties may
/// take is not limited.
pub proof fn law_reply_to_registration_stays_owed(
    host: TrayHostView,
    poll: PollView,
    answer: AnswerView,
    step: Step,
    reply: MessageView,
)
    requires
        owes_reply(host, poll.stage, reply),
        poll.stage.accepts(answer),
        tray::is_step(host, poll, answer, step),
    ensures
        ({
            ||| owes_reply(step.host, step.poll.stage, reply)
            ||| step.request == RequestView::Send(reply)
            ||| answer is Failed && step.request == RequestView::Failed(ErrorView::Bus)
        }),
{
    if owed_by_stage(poll.stage, reply) {
        if poll.stage is FetchSending && answer is Sent {
            let last = step.host.fetches.len() - 1;
            assert(step.host.fetches[last].purpose == PurposeView::Register(reply));
        }
    } else {
        let i = choose|i: int|
            0 <= i < host.fetches.len() && (#[trigger] host.fetches[i]).purpose
                == PurposeView::Register(reply);
        match poll.stage {
            StageView::Queue => if host.messages.len() > 0 {
                let rest = TrayHostView { messages: host.messages.drop_first(), ..host };
                let (events, message) = (poll.events, host.messages[0]);
                lemma_message_keeps_fetch(rest, events, Origin::Queue, message, step, i, reply);
            },
            StageView::Taking => if let AnswerView::Received(message) = answer {
                let events = poll.events;
                lemma_message_keeps_fetch(host, events, Origin::Socket, message, step, i, reply);
            },
            _ => {
                assert(step.host.fetches[i] == host.fetches[i]);
            },
        }
    }
}

/// A message ends no fetch but the one that it answers.
proof fn lemma_message_keeps_fetch(
    host: TrayHostView,
    events: Seq<TrayEventView>,
    origin: Origin,
    message: MessageView,
    step: Step,
    i: int,
    reply: MessageView,
)
    requires
        0 <= i < host.fetches.len(),
        host.fetches[i].purpose == PurposeView::Register(reply),
        tray::is_message_step(host, events, origin, message, step),
    ensures
        ({
            ||| owes_reply(step.host, step.poll.stage, reply)
            ||| step.request == RequestView::Send(reply)
        }),
{
    if ends_probe(host, message) {
        assert(step.host.fetches[i] == host.fetches[i]);
    } else if tray::answers_fetch(host.fetches, message) {
        let serial = message.response_serial->0;
        tray::lemma_fetch_position(host.fetches, serial);
        let at = tray::fetch_position(host.fetches, serial);
        if i != at {
            let j = if i < at { i } else { i - 1 };
            assert(step.host.fetches[j] == host.fetches[i]);
        }
    } else {
        assert(step.host.fetches[i].purpose == host.fetches[i].purpose);
    }
}

/// Whatever answers a fetch that is to register an item, the registration is answered: right
/// then, or after it was announced.
pub proof fn law_answered_fetch_answers_the_registration(
    host: TrayHostView,
    events: Seq<TrayEventView>,
    origin: Origin,
    message: MessageView,
    step: Step,
    reply: MessageView,
)
    requires
        !ends_probe(host, message),
        tray::answers_fetch(host.fetches, message),
        host.fetches[tray::fetch_position(
            host.fetches,
            message.response_serial->0,
        )].purpose == PurposeView::Register(reply),
        tray::is_message_step(host, events, origin, message, step),
    ensures
        ({
            ||| step.poll.stage == StageView::Replying(origin) && step.request == RequestView::Send(
                reply,
            )
            ||| owed_by_stage(step.poll.stage, reply) && step.request is Send
        }),
{
}

/// The registration of a new item, from the call to the reply: its properties are asked for,
/// the round goes on without waiting for them, and when they come, in this round or in a later
/// one, the registration is announced, the call is answered, and the item is there.
///
/// `later` is the host when the properties come, and `before` are the events of that round so
/// far.
pub proof fn law_registration_runs_to_its_end(
    host: TrayHostView,
    events: Seq<TrayEventView>,
    call: MessageView,
    properties: MessageView,
    serial: u32,
    sent: (u64, (u32, u64), (u32, u64)),
    later: TrayHostView,
    before: Seq<TrayEventView>,
    asked: Step,
    parked: Step,
    announced: Step,
    answered: Step,
    done: Step,
)
    requires
        call.typ == MessageType::Call,
        call.interface == Some(watcher::WATCHER_INTERFACE@),
        call.member == Some("RegisterStatusNotifierItem"@),
        call.object == Some(watcher::WATCHER_PATH@),
        watcher::registration(call) matches Ok(CallOutcomeView::Register(_)),
        tray::is_step(
            host,
            PollView { events, stage: StageView::Taking },
            AnswerView::Received(call),
            asked,
        ),
        tray::is_step(asked.host, asked.poll, AnswerView::Sent(serial, sent.0), parked),
        // The reply is to this call and to no other that is in flight.
        properties.answers(MessageType::Reply, serial),
        !ends_probe(later, properties),
        later.fetches == host.fetches.push(
            FetchView {
                serial,
                target: target_of(call),
                purpose: PurposeView::Register(call.response()),
                orphaned: false,
            },
        ),
        !tray::has_fetch(host.fetches, serial),
        tray::is_new(later.items, target_of(call)),
        tray::is_step(
            later,
            PollView { events: before, stage: StageView::Taking },
            AnswerView::Received(properties),
            announced,
        ),
        tray::is_step(
            announced.host,
            announced.poll,
            AnswerView::Sent(sent.1.0, sent.1.1),
            answered,
        ),
        tray::is_step(
            answered.host,
            answered.poll,
            AnswerView::Sent(sent.2.0, sent.2.1),
            done,
        ),
    ensures
        ({
            let target = target_of(call);
            let item = TrayItemView::from_reply(
                properties.body,
                target.service_id,
                target.bus_name,
                target.object_path,
            );
            &&& asked.request == RequestView::Send(
                item::get_all_call(target.bus_name, target.object_path),
            )
            &&& parked.request == RequestView::Take
            &&& parked.host == (TrayHostView { fetches: later.fetches, ..host })
            &&& parked.poll.events == events
            &&& announced.request == RequestView::Send(watcher::registered(target.service_id))
            &&& answered.request == RequestView::Send(call.response())
            &&& done.request == RequestView::Take
            &&& done.host == (TrayHostView {
                items: later.items.push(item),
                fetches: host.fetches,
                ..later
            })
            &&& done.poll.events == before.push(TrayEventView::ItemAdded(target.service_id))
        }),
{
    reveal_strlit("org.kde.StatusNotifierWatcher");
    reveal_strlit("org.freedesktop.DBus.Introspectable");
    assert("org.kde.StatusNotifierWatcher"@.len() != "org.freedesktop.DBus.Introspectable"@.len());
    let at = host.fetches.len() as int;
    assert(later.fetches[at].serial == serial);
    tray::lemma_fetch_position(later.fetches, serial);
    let p = tray::fetch_position(later.fetches, serial);
    if p < at {
        assert(host.fetches[p].serial == serial);
    }
    assert(later.fetches.remove(at) =~= host.fetches);
}

/// Where the properties of an item that registers itself are to be read.
pub open spec fn target_of(call: MessageView) -> TargetView {
    match watcher::registration(call) {
        Ok(CallOutcomeView::Register(registration)) => TargetView {
            service_id: registration.service_id,
            bus_name: registration.bus_name,
            object_path: registration.object_path,
        },
        _ => arbitrary(),
    }
}

/// Reading the properties of a known item again keeps its place, its identifier and its
/// object path: the identifiers of the items stay the same.
pub proof fn law_refresh_keeps_identifiers(
    host: TrayHostView,
    sender: Seq<char>,
    body: crate::wire::BodyView,
)
    requires
        watcher::refresh(host.items, sender) is Refresh,
    ensures
        watcher::refresh(host.items, sender) matches watcher::SignalOutcomeView::Refresh(target)
            ==> {
            let item = TrayItemView::from_reply(
                body,
                target.service_id,
                target.bus_name,
                target.object_path,
            );
            &&& items::has_id(host.items, target.service_id)
            &&& items::all_ids(items::inserted(host.items, item)) == items::all_ids(host.items)
        },
{
    let i = choose|i: int|
        0 <= i < host.items.len() && (#[trigger] host.items[i]).bus_name == sender;
    lemma_bus_position_in_range(host.items, sender, i);
    let at = items::bus_position(host.items, sender);
    let id = host.items[at].id;
    assert(items::has_id(host.items, id));
    items::lemma_position(host.items, id);
    if let watcher::SignalOutcomeView::Refresh(target) = watcher::refresh(host.items, sender) {
        let item = TrayItemView::from_reply(
            body,
            target.service_id,
            target.bus_name,
            target.object_path,
        );
        assert(items::all_ids(items::inserted(host.items, item)) =~= items::all_ids(host.items));
    }
}

proof fn lemma_bus_position_in_range(items: Seq<TrayItemView>, bus_name: Seq<char>, i: int)
    requires
        0 <= i < items.len(),
        items[i].bus_name == bus_name,
    ensures
        0 <= items::bus_position(items, bus_name) <= i,
        items[items::bus_position(items, bus_name)].bus_name == bus_name,
    decreases items.len(),
{
    if items[0].bus_name != bus_name {
        let rest = items.drop_first();
        assert(rest[i - 1] == items[i]);
        lemma_bus_position_in_range(rest, bus_name, i - 1);
    }
}

// ---------------------------------------------------------------------------
// Items that vanish

/// The step that the removal of the items leads to in the end, where each signal is sent.
pub open spec fn remove_all(
    host: TrayHostView,
    events: Seq<TrayEventView>,
    origin: Origin,
    ids: Seq<Seq<char>>,
) -> Step
    decreases ids.len(),
{
    let step = tray::remove_next(host, events, origin, ids);
    if ids.len() == 0 {
        step
    } else {
        remove_all(step.host, step.poll.events, origin, ids.drop_first())
    }
}

/// The items that do not live on the bus name.
pub open spec fn off_bus(items: Seq<TrayItemView>, bus_name: Seq<char>) -> Seq<TrayItemView>
    decreases items.len(),
{
    if items.len() == 0 {
        seq![]
    } else {
        let before = off_bus(items.drop_last(), bus_name);
        if items.last().bus_name == bus_name {
            before
        } else {
            before.push(items.last())
        }
    }
}

/// Removal events for each of the identifiers.
pub open spec fn removals(ids: Seq<Seq<char>>) -> Seq<TrayEventView> {
    Seq::new(ids.len(), |i: int| TrayEventView::ItemRemoved(ids[i]))
}

/// When a connection goes away, its items are removed and no others, with one event for each.
/// The rest of the host stays as it was.
pub proof fn law_vanished_items_are_removed(
    host: TrayHostView,
    events: Seq<TrayEventView>,
    origin: Origin,
    bus_name: Seq<char>,
)
    requires
        tray::consistent(host),
    ensures
        ({
            let ids = items::ids_on_bus(host.items, bus_name);
            remove_all(host, events, origin, ids) == tray::next_message(
                TrayHostView { items: off_bus(host.items, bus_name), ..host },
                events + removals(ids),
                origin,
            )
        }),
{
    lemma_removed_in_the_end(host, events, origin, bus_name);
}

proof fn lemma_nothing_on_bus(items: Seq<TrayItemView>, bus_name: Seq<char>)
    requires
        items::ids_on_bus(items, bus_name).len() == 0,
    ensures
        off_bus(items, bus_name) == items,
    decreases items.len(),
{
    if items.len() > 0 {
        lemma_nothing_on_bus(items.drop_last(), bus_name);
        assert(items.drop_last().push(items.last()) =~= items);
    } else {
        assert(off_bus(items, bus_name) =~= items);
    }
}

/// Removing the first identifier on a bus name leaves the others on it, and everything off it.
proof fn lemma_first_removed(items: Seq<TrayItemView>, bus_name: Seq<char>)
    requires
        items::ids_distinct(items),
        items::ids_on_bus(items, bus_name).len() > 0,
    ensures
        ({
            let ids = items::ids_on_bus(items, bus_name);
            let less = items::removed(items, ids[0]);
            &&& items::ids_on_bus(less, bus_name) == ids.drop_first()
            &&& off_bus(less, bus_name) == off_bus(items, bus_name)
            &&& less.len() < items.len()
            &&& items::has_id(items, ids[0])
        }),
    decreases items.len(),
{
    let ids = items::ids_on_bus(items, bus_name);
    let rest = items.drop_last();
    let last = items.last();
    let before = items::ids_on_bus(rest, bus_name);
    assert(items::ids_distinct(rest)) by {
        assert forall|i: int, j: int| 0 <= i < j < rest.len() implies (#[trigger] rest[i]).id != (
        #[trigger] rest[j]).id by {
            assert(rest[i] == items[i] && rest[j] == items[j]);
        }
    }
    if before.len() == 0 {
        // The last item is the only one on the bus name.
        lemma_nothing_on_bus(rest, bus_name);
        let at = items.len() - 1;
        assert(items[at].id == ids[0]);
        assert(items::has_id(items, ids[0]));
        items::lemma_position(items, ids[0]);
        assert(items::position(items, ids[0]) == at) by {
            let p = items::position(items, ids[0]);
            if p < at {
                assert(items[p].id != items[at].id);
            }
        }
        assert(items::removed(items, ids[0]) =~= rest);
        assert(ids.drop_first() =~= before);
    } else {
        lemma_first_removed(rest, bus_name);
        assert(ids[0] == before[0]);
        let id = ids[0];
        items::lemma_position(rest, id);
        let p = items::position(rest, id);
        assert(items[p] == rest[p]);
        assert(items::has_id(items, id));
        items::lemma_position(items, id);
        let q = items::position(items, id);
        assert(q == p) by {
            if q < p {
                assert(items[q].id != items[p].id);
            } else if p < q {
                assert(items[p].id != items[q].id);
            }
        }
        let less = items::removed(items, id);
        assert(less.drop_last() =~= items::removed(rest, id));
        assert(less.last() == last);
        if last.bus_name == bus_name {
            assert(ids.drop_first() =~= before.drop_first().push(last.id));
        } else {
            assert(ids.drop_first() =~= before.drop_first());
        }
    }
}

/// Where a bus name loses its owner before the properties of its new item come, the item is
/// registered, announced and answered for when they come, and then removed again, with an event
/// for either.
pub proof fn law_item_of_lost_name_is_removed_again(
    host: TrayHostView,
    events: Seq<TrayEventView>,
    origin: Origin,
    fetch: FetchView,
    reply: MessageView,
    message: MessageView,
    sent: ((u32, u64), (u32, u64), (u32, u64)),
    answered: Step,
    removed: Step,
    done: Step,
)
    requires
        fetch.purpose == PurposeView::Register(reply),
        message.answers(MessageType::Reply, fetch.serial),
        tray::is_new(host.items, fetch.target),
        ({
            let lost = tray::without_owner(seq![fetch], fetch.target.bus_name)[0];
            let announced = tray::fetch_answered(host, events, origin, lost, message);
            &&& tray::is_step(
                announced.host,
                announced.poll,
                AnswerView::Sent(sent.0.0, sent.0.1),
                answered,
            )
            &&& tray::is_step(
                answered.host,
                answered.poll,
                AnswerView::Sent(sent.1.0, sent.1.1),
                removed,
            )
            &&& tray::is_step(
                removed.host,
                removed.poll,
                AnswerView::Sent(sent.2.0, sent.2.1),
                done,
            )
        }),
    ensures
        ({
            let id = fetch.target.service_id;
            let lost = tray::without_owner(seq![fetch], fetch.target.bus_name)[0];
            let announced = tray::fetch_answered(host, events, origin, lost, message);
            &&& announced.request == RequestView::Send(watcher::registered(id))
            &&& items::has_id(announced.host.items, id)
            &&& answered.request == RequestView::Send(reply)
            &&& removed.request == RequestView::Send(watcher::unregistered(id))
            &&& done == tray::next_message(
                host,
                events.push(TrayEventView::ItemAdded(id)).push(TrayEventView::ItemRemoved(id)),
                origin,
            )
        }),
{
    let target = fetch.target;
    let item = TrayItemView::from_reply(
        message.body,
        target.service_id,
        target.bus_name,
        target.object_path,
    );
    let with_item = host.items.push(item);
    let last = host.items.len() as int;
    assert(with_item[last].id == target.service_id);
    items::lemma_position(with_item, target.service_id);
    let at = items::position(with_item, target.service_id);
    if at < last {
        assert(host.items[at].id == target.service_id);
    }
    assert(with_item.remove(last) =~= host.items);
    assert(seq![item.id].drop_first() =~= Seq::<Seq<char>>::empty());
}

// ---------------------------------------------------------------------------
// Events and messages

/// Events are never lost or reordered: a step of a round only adds events behind those there
/// are, and the round ends with all of them, unless it fails.
pub proof fn law_events_are_kept(
    host: TrayHostView,
    poll: PollView,
    answer: AnswerView,
    step: Step,
)
    requires
        poll.stage.accepts(answer),
        tray::is_step(host, poll, answer, step),
    ensures
        step.request is Failed || poll.events.is_prefix_of(told(step)),
{
    lemma_step_tells(host, poll, answer, step);
}

/// A round never waits for a message, and does not leave one behind that was kept.
pub proof fn law_rounds_do_not_wait(
    host: TrayHostView,
    poll: PollView,
    answer: AnswerView,
    step: Step,
)
    requires
        poll.stage.accepts(answer),
        tray::is_step(host, poll, answer, step),
    ensures
        step.request != RequestView::Receive,
        step.request is Finished ==> step.host.messages.len() == 0,
        !(step.request is Finished) && !(step.request is Failed) ==> !(step.poll.stage is Over),
{
    lemma_step_tells(host, poll, answer, step);
}

/// A round ends only when there is nothing more to read from the socket: right then, or after
/// the probe that is sent then.
pub proof fn law_rounds_read_everything(
    host: TrayHostView,
    poll: PollView,
    answer: AnswerView,
    step: Step,
)
    requires
        poll.stage.accepts(answer),
        tray::is_step(host, poll, answer, step),
    ensures
        step.request is Finished ==> poll.stage is Reading && answer is TimedOut
            || poll.stage is ProbeSending,
        step.poll.stage is ProbeSending ==> poll.stage is Reading && answer is TimedOut,
{
    lemma_step_tells(host, poll, answer, step);
}

/// Messages that were kept are handled first, in the order in which they came: nothing is read
/// from the socket before.
pub proof fn law_kept_messages_come_first(host: TrayHostView, poll: PollView, step: Step)
    requires
        poll.stage == StageView::Queue,
        host.messages.len() > 0,
        tray::is_step(host, poll, AnswerView::Proceed, step),
    ensures
        step.request != RequestView::Read,
        step.host.messages == host.messages.drop_first(),
        tray::is_message_step(
            TrayHostView { messages: host.messages.drop_first(), ..host },
            poll.events,
            Origin::Queue,
            host.messages[0],
            step,
        ),
{
}

/// The events of a round after a step.
pub open spec fn told(step: Step) -> Seq<TrayEventView> {
    match step.request {
        RequestView::Finished(events) => events,
        _ => step.poll.events,
    }
}

/// The identifiers that an observer knows of who knew `ids` and was then told of `events`.
pub open spec fn replay(ids: Seq<Seq<char>>, events: Seq<TrayEventView>) -> Seq<Seq<char>>
    decreases events.len(),
{
    if events.len() == 0 {
        ids
    } else {
        let before = replay(ids, events.drop_last());
        match events.last() {
            TrayEventView::ItemAdded(id) => if before.contains(id) {
                before
            } else {
                before.push(id)
            },
            TrayEventView::ItemRemoved(id) => if before.contains(id) {
                before.remove(before.index_of(id))
            } else {
                before
            },
            _ => before,
        }
    }
}

/// The host says nowhere in these events that it goes away.
pub open spec fn no_shutdown(events: Seq<TrayEventView>) -> bool {
    forall|i: int| 0 <= i < events.len() ==> #[trigger] events[i] != TrayEventView::HostShutdown
}

/// Replaying events of which none adds or removes an item changes nothing.
proof fn lemma_replay_nothing(ids: Seq<Seq<char>>, events: Seq<TrayEventView>)
    requires
        forall|i: int|
            0 <= i < events.len() ==> !(#[trigger] events[i] is ItemAdded) && !(events[i] is ItemRemoved),
    ensures
        replay(ids, events) == ids,
    decreases events.len(),
{
    if events.len() > 0 {
        let rest = events.drop_last();
        assert forall|i: int| 0 <= i < rest.len() implies !(#[trigger] rest[i] is ItemAdded) && !(
        rest[i] is ItemRemoved) by {
            assert(rest[i] == events[i]);
        }
        lemma_replay_nothing(ids, rest);
        assert(events.last() == events[events.len() - 1]);
    }
}

/// Events can be replayed bit by bit.
proof fn lemma_replay_parts(
    ids: Seq<Seq<char>>,
    first: Seq<TrayEventView>,
    second: Seq<TrayEventView>,
)
    ensures
        replay(ids, first + second) == replay(replay(ids, first), second),
    decreases second.len(),
{
    if second.len() == 0 {
        assert(first + second =~= first);
    } else {
        assert((first + second).drop_last() =~= first + second.drop_last());
        assert((first + second).last() == second.last());
        lemma_replay_parts(ids, first, second.drop_last());
    }
}

/// The events that a step adds to those before.
pub open spec fn news(events: Seq<TrayEventView>, step: Step) -> Seq<TrayEventView> {
    told(step).skip(events.len() as int)
}

/// What a step says: it only adds events, of which none is a shutdown, and an observer learns
/// of each item that it adds or removes.
pub open spec fn tells(host: TrayHostView, events: Seq<TrayEventView>, step: Step) -> bool {
    &&& step.host.pending_events == host.pending_events
    &&& step.request != RequestView::Receive
    &&& (step.request is Finished || step.request is Failed) == (step.poll.stage is Over)
    &&& step.request is Failed || {
        &&& events.is_prefix_of(told(step))
        &&& no_shutdown(news(events, step))
        &&& items::ids_distinct(host.items) ==> items::all_ids(step.host.items) == replay(
            items::all_ids(host.items),
            news(events, step),
        )
    }
}

/// What holds of a step whose events are known.
proof fn lemma_tells(
    host: TrayHostView,
    events: Seq<TrayEventView>,
    step: Step,
    added: Seq<TrayEventView>,
)
    requires
        step.host.pending_events == host.pending_events,
        step.request != RequestView::Receive,
        (step.request is Finished || step.request is Failed) == (step.poll.stage is Over),
        told(step) == events + added,
        no_shutdown(added),
        items::ids_distinct(host.items) ==> items::all_ids(step.host.items) == replay(
            items::all_ids(host.items),
            added,
        ),
    ensures
        tells(host, events, step),
{
    assert(news(events, step) =~= added);
}

/// What holds of a step without an event.
proof fn lemma_tells_nothing(host: TrayHostView, events: Seq<TrayEventView>, step: Step)
    requires
        step.host.pending_events == host.pending_events,
        step.host.items == host.items,
        step.request != RequestView::Receive,
        (step.request is Finished || step.request is Failed) == (step.poll.stage is Over),
        told(step) == events,
    ensures
        tells(host, events, step),
{
    assert(told(step) =~= events + seq![]);
    lemma_tells(host, events, step, seq![]);
}

/// What holds of a step with one event.
proof fn lemma_tells_one(
    host: TrayHostView,
    events: Seq<TrayEventView>,
    step: Step,
    event: TrayEventView,
)
    requires
        step.host.pending_events == host.pending_events,
        step.request != RequestView::Receive,
        !(step.request is Finished) && !(step.request is Failed) && !(step.poll.stage is Over),
        step.poll.events == events.push(event),
        items::ids_distinct(host.items) ==> {
            let (ids, now) = (items::all_ids(host.items), items::all_ids(step.host.items));
            match event {
                TrayEventView::ItemAdded(id) => now == if ids.contains(id) {
                    ids
                } else {
                    ids.push(id)
                },
                TrayEventView::ItemRemoved(id) => now == if ids.contains(id) {
                    ids.remove(ids.index_of(id))
                } else {
                    ids
                },
                _ => now == ids,
            }
        },
        event != TrayEventView::HostShutdown,
    ensures
        tells(host, events, step),
{
    let added = seq![event];
    assert(told(step) =~= events + added);
    assert(added.drop_last() =~= seq![]);
    reveal_with_fuel(replay, 2);
    lemma_tells(host, events, step, added);
}

/// The identifiers after an item was put in.
proof fn lemma_inserted_ids(items: Seq<TrayItemView>, item: TrayItemView)
    ensures
        items::all_ids(items).contains(item.id) <==> items::has_id(items, item.id),
        items::all_ids(items::inserted(items, item)) == if items::has_id(items, item.id) {
            items::all_ids(items)
        } else {
            items::all_ids(items).push(item.id)
        },
{
    items::lemma_position(items, item.id);
    lemma_ids_contain(items, item.id);
    let now = items::all_ids(items::inserted(items, item));
    if items::has_id(items, item.id) {
        assert(now =~= items::all_ids(items));
    } else {
        assert(now =~= items::all_ids(items).push(item.id));
    }
}

proof fn lemma_ids_contain(items: Seq<TrayItemView>, id: Seq<char>)
    ensures
        items::all_ids(items).contains(id) <==> items::has_id(items, id),
{
    let ids = items::all_ids(items);
    if items::has_id(items, id) {
        let i = choose|i: int| 0 <= i < items.len() && (#[trigger] items[i]).id == id;
        assert(ids[i] == id);
    }
    if ids.contains(id) {
        let i = choose|i: int| 0 <= i < ids.len() && ids[i] == id;
        assert(items[i].id == id);
    }
}

/// The identifiers after an item was taken out.
proof fn lemma_removed_ids(items: Seq<TrayItemView>, id: Seq<char>)
    requires
        items::ids_distinct(items),
    ensures
        ({
            let ids = items::all_ids(items);
            items::all_ids(items::removed(items, id)) == if ids.contains(id) {
                ids.remove(ids.index_of(id))
            } else {
                ids
            }
        }),
{
    items::lemma_position(items, id);
    lemma_ids_contain(items, id);
    let ids = items::all_ids(items);
    let now = items::all_ids(items::removed(items, id));
    if ids.contains(id) {
        let at = items::position(items, id);
        let i = ids.index_of(id);
        assert(0 <= i < ids.len() && ids[i] == id);
        assert(items[i].id == items[at].id);
        assert(i == at);
        assert(now =~= ids.remove(at));
    }
}

proof fn lemma_remove_tells(
    host: TrayHostView,
    events: Seq<TrayEventView>,
    origin: Origin,
    ids: Seq<Seq<char>>,
)
    ensures
        tells(host, events, tray::remove_next(host, events, origin, ids)),
{
    let step = tray::remove_next(host, events, origin, ids);
    if ids.len() == 0 {
        lemma_tells_nothing(host, events, step);
    } else {
        if items::ids_distinct(host.items) {
            lemma_removed_ids(host.items, ids[0]);
        }
        lemma_tells_one(host, events, step, TrayEventView::ItemRemoved(ids[0]));
    }
}

proof fn lemma_fetch_tells(
    host: TrayHostView,
    events: Seq<TrayEventView>,
    origin: Origin,
    fetch: FetchView,
    message: MessageView,
)
    ensures
        tells(host, events, tray::fetch_answered(host, events, origin, fetch, message)),
{
    let step = tray::fetch_answered(host, events, origin, fetch, message);
    let target = fetch.target;
    match item::fetched(
        message,
        fetch.serial,
        target.service_id,
        target.bus_name,
        target.object_path,
    ) {
        Some(Ok(item)) => {
            lemma_inserted_ids(host.items, item);
            if fetch.purpose is Register {
                if tray::is_new(host.items, target) {
                    lemma_tells_one(host, events, step, TrayEventView::ItemAdded(item.id));
                } else {
                    let known = tray::known_id(host.items, target);
                    lemma_tells_one(host, events, step, TrayEventView::ItemChanged(known));
                }
            } else if items::has_id(host.items, item.id) {
                lemma_tells_one(host, events, step, TrayEventView::ItemChanged(item.id));
            } else {
                lemma_tells_nothing(host, events, step);
            }
        },
        _ => {
            lemma_tells_nothing(host, events, step);
        },
    }
}

proof fn lemma_dispatch_tells(
    host: TrayHostView,
    events: Seq<TrayEventView>,
    origin: Origin,
    message: MessageView,
    step: Step,
)
    requires
        tray::is_dispatch(host, events, origin, message, step),
    ensures
        tells(host, events, step),
{
    if message.typ == MessageType::Signal {
        match watcher::signal_effect(message, host.items, host.names) {
            Err(_) => {},
            Ok(effect) => match effect.outcome {
                watcher::SignalOutcomeView::Vanished(name, ids) => {
                    assert(events + effect.events =~= events);
                    let now = TrayHostView {
                        names: effect.names,
                        fetches: tray::without_owner(host.fetches, name),
                        ..host
                    };
                    lemma_remove_tells(now, events, origin, ids);
                },
                _ => {
                    lemma_replay_nothing(items::all_ids(host.items), effect.events);
                    lemma_tells(host, events, step, effect.events);
                },
            },
        }
    } else if message.typ == MessageType::Call {
        let outcome = choose|outcome: Result<CallOutcomeView, ErrorView>| #[trigger]
            watcher::is_call_outcome(message, host.items, host.host_name, outcome) && step
                == tray::after_call(host, events, origin, outcome);
        if outcome is Ok {
            lemma_tells_nothing(host, events, step);
        }
    } else {
        lemma_tells_nothing(host, events, step);
    }
}

proof fn lemma_message_tells(
    host: TrayHostView,
    events: Seq<TrayEventView>,
    origin: Origin,
    message: MessageView,
    step: Step,
)
    requires
        tray::is_message_step(host, events, origin, message, step),
    ensures
        tells(host, events, step),
        step.host.messages == host.messages,
        !(step.request is Finished),
        !(step.poll.stage is ProbeSending),
{
    if ends_probe(host, message) {
        let idle = TrayHostView { probe: None, ..host };
        let name = host.probe->0.name;
        let item = TrayItemView::from_reply(message.body, name, name, watcher::DEFAULT_ITEM_PATH@);
        lemma_inserted_ids(host.items, item);
        if step.poll.stage is ProbeAnnouncing {
            lemma_tells_one(idle, events, step, TrayEventView::ItemAdded(name));
        } else {
            lemma_tells_nothing(idle, events, step);
        }
    } else if tray::answers_fetch(host.fetches, message) {
        let at = tray::fetch_position(host.fetches, message.response_serial->0);
        let less = TrayHostView { fetches: host.fetches.remove(at), ..host };
        lemma_fetch_tells(less, events, origin, host.fetches[at], message);
    } else {
        lemma_dispatch_tells(host, events, origin, message, step);
    }
}

proof fn lemma_step_tells(host: TrayHostView, poll: PollView, answer: AnswerView, step: Step)
    requires
        poll.stage.accepts(answer),
        tray::is_step(host, poll, answer, step),
    ensures
        tells(host, poll.events, step),
        step.request is Finished ==> step.host.messages.len() == 0,
        step.request is Finished ==> poll.stage is Reading && answer is TimedOut
            || poll.stage is ProbeSending,
        step.poll.stage is ProbeSending ==> poll.stage is Reading && answer is TimedOut,
{
    let events = poll.events;
    match poll.stage {
        StageView::Queue => if host.messages.len() > 0 {
            let rest = TrayHostView { messages: host.messages.drop_first(), ..host };
            lemma_message_tells(rest, events, Origin::Queue, host.messages[0], step);
        } else {
            lemma_tells_nothing(host, events, step);
        },
        StageView::Taking => if let AnswerView::Received(message) = answer {
            lemma_message_tells(host, events, Origin::Socket, message, step);
        } else if answer is Nothing {
            lemma_tells_nothing(host, events, step);
        },
        StageView::Vanishing(origin, ids) => if answer is Sent {
            lemma_remove_tells(host, events, origin, ids);
        },
        _ => if !(step.request is Failed) {
            lemma_tells_nothing(host, events, step);
        },
    }
}

/// A step of a round and the next one.
pub open spec fn goes_on(steps: Seq<Step>, answers: Seq<AnswerView>, i: int) -> bool {
    &&& steps[i].poll.stage.accepts(answers[i])
    &&& tray::is_step(steps[i].host, steps[i].poll, answers[i], steps[i + 1])
}

/// The steps of a round of polling, up to some point, and the answers that lead from one to the
/// next.
pub open spec fn is_round(
    host: TrayHostView,
    steps: Seq<Step>,
    answers: Seq<AnswerView>,
) -> bool {
    &&& steps.len() == answers.len() + 1
    &&& steps[0] == tray::begin(host)
    &&& forall|i: int| 0 <= i < answers.len() ==> #[trigger] goes_on(steps, answers, i)
}

proof fn lemma_round_tells(
    host: TrayHostView,
    steps: Seq<Step>,
    answers: Seq<AnswerView>,
    n: int,
)
    requires
        tray::consistent(host),
        is_round(host, steps, answers),
        0 <= n < steps.len(),
    ensures
        tray::consistent(steps[n].host),
        steps[n].host.pending_events.len() == 0,
        (steps[n].request is Finished || steps[n].request is Failed) == (steps[n].poll.stage
            is Over),
        steps[n].request is Failed || {
            &&& replay(items::all_ids(host.items), told(steps[n])) == items::all_ids(
                steps[n].host.items,
            )
            &&& host.pending_events.is_prefix_of(told(steps[n]))
            &&& no_shutdown(told(steps[n]).skip(host.pending_events.len() as int))
        },
    decreases n,
{
    let ids = items::all_ids(host.items);
    let owed = host.pending_events.len() as int;
    if n == 0 {
        lemma_replay_nothing(ids, host.pending_events);
        assert(told(steps[0]) == host.pending_events);
    } else {
        lemma_round_tells(host, steps, answers, n - 1);
        assert(goes_on(steps, answers, n - 1));
        let (last, step) = (steps[n - 1], steps[n]);
        law_steps_keep_consistency(last.host, last.poll, answers[n - 1], step);
        lemma_step_tells(last.host, last.poll, answers[n - 1], step);
        let (before, added) = (last.poll.events, news(last.poll.events, step));
        assert(told(last) == before);
        if !(step.request is Failed) {
            assert(told(step) =~= before + added);
            lemma_replay_parts(ids, before, added);
            let late = told(step).skip(owed);
            assert forall|i: int| 0 <= i < late.len() implies #[trigger] late[i]
                != TrayEventView::HostShutdown by {
                if i + owed < before.len() {
                    assert(late[i] == before.skip(owed)[i]);
                } else {
                    assert(late[i] == added[i + owed - before.len()]);
                }
            }
        }
    }
}

/// The events of a round tell all there is to tell about which items there are: replayed on the
/// identifiers before the round, they give those after it.
pub proof fn law_events_tell_of_all_items(
    host: TrayHostView,
    steps: Seq<Step>,
    answers: Seq<AnswerView>,
    events: Seq<TrayEventView>,
)
    requires
        tray::consistent(host),
        is_round(host, steps, answers),
        steps.last().request == RequestView::Finished(events),
    ensures
        replay(items::all_ids(host.items), events) == items::all_ids(steps.last().host.items),
{
    lemma_round_tells(host, steps, answers, steps.len() - 1);
}

/// A shutdown is told of once: first thing in the next round, and not in the one after. Where
/// more than one shutdown is pending, there is one event for each.
///
/// `later` is the host when the round after begins.
pub proof fn law_shutdown_is_told_of_once(
    host: TrayHostView,
    steps: Seq<Step>,
    answers: Seq<AnswerView>,
    events: Seq<TrayEventView>,
    later: TrayHostView,
    later_steps: Seq<Step>,
    later_answers: Seq<AnswerView>,
    later_events: Seq<TrayEventView>,
)
    requires
        tray::consistent(host),
        is_round(tray::shut_down(host), steps, answers),
        steps.last().request == RequestView::Finished(events),
        tray::consistent(later),
        later.pending_events == steps.last().host.pending_events,
        is_round(later, later_steps, later_answers),
        later_steps.last().request == RequestView::Finished(later_events),
    ensures
        events.len() > host.pending_events.len(),
        forall|i: int|
            0 <= i < events.len() ==> (#[trigger] events[i] == TrayEventView::HostShutdown <==> i
                <= host.pending_events.len()),
        no_shutdown(later_events),
{
    let down = tray::shut_down(host);
    let owed = down.pending_events.len() as int;
    law_shutdown_keeps_consistency(host);
    lemma_round_tells(down, steps, answers, steps.len() - 1);
    assert forall|i: int| 0 <= i < events.len() implies (#[trigger] events[i]
        == TrayEventView::HostShutdown <==> i <= host.pending_events.len()) by {
        if i < owed {
            assert(events[i] == down.pending_events[i]);
        } else {
            assert(events[i] == events.skip(owed)[i - owed]);
        }
    }
    lemma_round_tells(later, later_steps, later_answers, later_steps.len() - 1);
    assert(later_events.skip(0) =~= later_events);
}

// ---------------------------------------------------------------------------
// Probes

/// A round sends at most one probe, as the last thing it does, and only while no other is in
/// flight.
pub proof fn law_one_probe_per_round(
    host: TrayHostView,
    poll: PollView,
    answer: AnswerView,
    step: Step,
)
    requires
        poll.stage.accepts(answer),
        tray::is_step(host, poll, answer, step),
    ensures
        poll.stage is ProbeSending && host.messages.len() == 0 ==> step.request is Finished,
        step.poll.stage is ProbeSending ==> {
            &&& step.host.probe is None
            &&& step.host.messages.len() == 0
            &&& poll.stage is Reading && answer is TimedOut
        },
{
    lemma_step_tells(host, poll, answer, step);
}

/// Queued names are probed in their order: with no probe in flight, a round ends with a probe
/// of the first name, which leaves the queue.
pub proof fn law_names_are_probed_in_turn(
    host: TrayHostView,
    events: Seq<TrayEventView>,
    now: u64,
    step: Step,
)
    requires
        host.messages.len() == 0,
        host.probe is None,
        host.names.len() > 0,
        tray::is_step(
            host,
            PollView { events, stage: StageView::Reading },
            AnswerView::TimedOut(now),
            step,
        ),
    ensures
        step.request == RequestView::Send(
            item::get_all_call(host.names[0], watcher::DEFAULT_ITEM_PATH@),
        ),
        step.poll.stage == StageView::ProbeSending(host.names[0]),
        step.host.names == host.names.drop_first(),
{
}

/// A probe is given up exactly when its time is over.
pub proof fn law_probe_times_out(host: TrayHostView, probe: ProbeView, now: u64)
    requires
        host.probe == Some(probe),
    ensures
        tray::expire_probe(host, now).probe is None <==> now >= probe.started + PROBE_NANOS,
{
}

/// The host after the probe of a name has timed out so many times in a row.
pub open spec fn after_timeouts(host: TrayHostView, name: Seq<char>, times: nat) -> TrayHostView
    decreases times,
{
    if times == 0 {
        host
    } else {
        tray::timed_out(after_timeouts(host, name, (times - 1) as nat), name)
    }
}

/// A name whose probes time out is queued again three times, and then given up and forgotten.
pub proof fn law_probe_is_retried_three_times(host: TrayHostView, name: Seq<char>)
    requires
        !host.retries.contains_key(name),
    ensures
        after_timeouts(host, name, 1).names == host.names.push(name),
        after_timeouts(host, name, 2).names == host.names.push(name).push(name),
        after_timeouts(host, name, 3).names == host.names.push(name).push(name).push(name),
        after_timeouts(host, name, 4).names == after_timeouts(host, name, 3).names,
        after_timeouts(host, name, 4).retries == host.retries,
{
    reveal_with_fuel(after_timeouts, 5);
    assert(after_timeouts(host, name, 4).retries =~= host.retries);
}

/// The probe of a name that belongs to a tray item, over two rounds: the first sends the probe
/// and does not wait for the reply; the second takes the reply, announces the item and adds it.
pub proof fn law_probe_runs_to_its_end(
    host: TrayHostView,
    events: Seq<TrayEventView>,
    later: Seq<TrayEventView>,
    reply: MessageView,
    serial: u32,
    now: u64,
    signal: (u32, u64),
    sent: Step,
    ended: Step,
    announced: Step,
    done: Step,
)
    requires
        host.messages.len() == 0,
        host.probe is None,
        host.names.len() > 0,
        tray::is_step(
            host,
            PollView { events, stage: StageView::Reading },
            AnswerView::TimedOut(now),
            sent,
        ),
        tray::is_step(sent.host, sent.poll, AnswerView::Sent(serial, now), ended),
        reply.answers(MessageType::Reply, serial),
        !items::name_taken(
            host.items,
            TrayItemView::from_reply(
                reply.body,
                host.names[0],
                host.names[0],
                watcher::DEFAULT_ITEM_PATH@,
            ).item_id,
        ),
        tray::is_step(
            ended.host,
            PollView { events: later, stage: StageView::Taking },
            AnswerView::Received(reply),
            announced,
        ),
        tray::is_step(
            announced.host,
            announced.poll,
            AnswerView::Sent(signal.0, signal.1),
            done,
        ),
    ensures
        ({
            let name = host.names[0];
            let item = TrayItemView::from_reply(
                reply.body,
                name,
                name,
                watcher::DEFAULT_ITEM_PATH@,
            );
            &&& ended.request == RequestView::Finished(events)
            &&& announced.request == RequestView::Send(watcher::registered(name))
            &&& done.request == RequestView::Take
            &&& done.poll.events == announced.poll.events
            &&& done.poll.events == later.push(TrayEventView::ItemAdded(name))
            &&& done.host == (TrayHostView {
                items: items::inserted(host.items, item),
                names: host.names.drop_first(),
                ..host
            })
        }),
{
}

/// A probed item with an `Id` that another item has is left out.
pub proof fn law_probed_item_with_known_name_is_left_out(
    host: TrayHostView,
    events: Seq<TrayEventView>,
    origin: Origin,
    name: Seq<char>,
    reply: MessageView,
    at: int,
)
    requires
        0 <= at < host.items.len(),
        host.items[at].item_id.len() > 0,
        host.items[at].item_id == TrayItemView::from_reply(
            reply.body,
            name,
            name,
            watcher::DEFAULT_ITEM_PATH@,
        ).item_id,
    ensures
        tray::probe_answered(host, events, origin, name, reply) == tray::next_message(
            host,
            events,
            origin,
        ),
{
}

// ---------------------------------------------------------------------------
// Calls

/// The reply that a step sends, or that it still owes.
pub open spec fn reply_of(step: Step) -> Option<MessageView> {
    match (step.poll.stage, step.request) {
        (StageView::Replying(_), RequestView::Send(reply)) => Some(reply),
        (StageView::FetchSending(_, _, PurposeView::Register(reply)), _) => Some(reply),
        _ => None,
    }
}

/// What the host does about a call is to send a reply to the caller, or to read the properties
/// of an item and then send it.
pub proof fn law_calls_lead_to_replies(
    host: TrayHostView,
    events: Seq<TrayEventView>,
    origin: Origin,
    call: MessageView,
    outcome: Result<CallOutcomeView, ErrorView>,
)
    requires
        watcher::is_call_outcome(call, host.items, host.host_name, outcome),
    ensures
        reply_of(tray::after_call(host, events, origin, outcome)) matches Some(reply)
            && reply.destination == call.sender && reply.response_serial == call.serial,
{
    watcher::law_every_call_is_answered(call, host.items, host.host_name, outcome);
}

/// A menu is asked for exactly where the item is known and has one.
pub proof fn law_menu_is_asked_for_where_there_is_one(items: Seq<TrayItemView>, id: Seq<char>)
    ensures
        tray::with_menu(items, id) is Some <==> (items::found(items, id) matches Some(item)
            && item.menu_path.len() > 0 && item.menu_path != "/"@),
{
}

// ---------------------------------------------------------------------------
// What each message leads to

/// The step goes on to the next message: of those that were kept, or of those on the socket.
pub open spec fn takes_next(step: Step, origin: Origin) -> bool {
    match origin {
        Origin::Queue => step.poll.stage == StageView::Queue && step.request
            == RequestView::Proceed,
        Origin::Socket => step.poll.stage == StageView::Taking && step.request
            == RequestView::Take,
    }
}

/// Whether an item lives on a bus name.
pub open spec fn lives_on(bus_name: Seq<char>) -> spec_fn(TrayItemView) -> bool {
    |item: TrayItemView| item.bus_name == bus_name
}

/// Whether an item lives elsewhere.
pub open spec fn lives_off(bus_name: Seq<char>) -> spec_fn(TrayItemView) -> bool {
    |item: TrayItemView| item.bus_name != bus_name
}

proof fn lemma_off_bus_filters(items: Seq<TrayItemView>, bus_name: Seq<char>)
    ensures
        off_bus(items, bus_name) == items.filter(lives_off(bus_name)),
        items::ids_on_bus(items, bus_name).len() == items.filter(lives_on(bus_name)).len(),
        forall|i: int|
            0 <= i < items.filter(lives_on(bus_name)).len() ==> (#[trigger] items::ids_on_bus(
                items,
                bus_name,
            )[i]) == items.filter(lives_on(bus_name))[i].id,
        forall|i: int|
            0 <= i < items.filter(lives_off(bus_name)).len() ==> (#[trigger] items.filter(
                lives_off(bus_name),
            )[i]).bus_name != bus_name,
    decreases items.len(),
{
    reveal(Seq::filter);
    if items.len() > 0 {
        lemma_off_bus_filters(items.drop_last(), bus_name);
    } else {
        assert(off_bus(items, bus_name) =~= items.filter(lives_off(bus_name)));
    }
}

proof fn lemma_removal_runs(
    host: TrayHostView,
    events: Seq<TrayEventView>,
    origin: Origin,
    ids: Seq<Seq<char>>,
    steps: Seq<Step>,
    answers: Seq<AnswerView>,
)
    requires
        steps.len() == answers.len() + 1,
        steps[0] == tray::remove_next(host, events, origin, ids),
        forall|i: int|
            0 <= i < answers.len() ==> {
                &&& #[trigger] answers[i] is Sent
                &&& steps[i].poll.stage is Vanishing
                &&& tray::is_step(steps[i].host, steps[i].poll, answers[i], steps[i + 1])
            },
        !(steps.last().poll.stage is Vanishing),
    ensures
        steps.last() == remove_all(host, events, origin, ids),
        steps.len() == ids.len() + 1,
        forall|i: int|
            0 <= i < ids.len() ==> (#[trigger] steps[i]).request == RequestView::Send(
                watcher::unregistered(ids[i]),
            ),
    decreases ids.len(),
{
    if ids.len() == 0 {
        if answers.len() > 0 {
            assert(answers[0] is Sent);
        }
        assert(steps.last() == steps[0]);
    } else {
        if answers.len() == 0 {
            assert(steps.last() == steps[0]);
        }
        assert(answers[0] is Sent);
        let rest = ids.drop_first();
        let (more, later) = (steps.drop_first(), answers.drop_first());
        assert(more[0] == steps[1]);
        assert forall|i: int| 0 <= i < later.len() implies {
            &&& #[trigger] later[i] is Sent
            &&& more[i].poll.stage is Vanishing
            &&& tray::is_step(more[i].host, more[i].poll, later[i], more[i + 1])
        } by {
            assert(answers[i + 1] is Sent);
            assert(more[i + 1] == steps[i + 2]);
        }
        assert(more.last() == steps.last());
        lemma_removal_runs(steps[0].host, steps[0].poll.events, origin, rest, more, later);
        assert forall|i: int| 0 <= i < ids.len() implies (#[trigger] steps[i]).request
            == RequestView::Send(watcher::unregistered(ids[i])) by {
            if i > 0 {
                assert(more[i - 1] == steps[i]);
                assert(rest[i - 1] == ids[i]);
            }
        }
    }
}

/// The first step that the loss of a name leads to.
proof fn lemma_lost_name_begins_removal(
    host: TrayHostView,
    events: Seq<TrayEventView>,
    origin: Origin,
    message: MessageView,
    texts: Seq<Seq<char>>,
    step: Step,
)
    requires
        message.typ == MessageType::Signal,
        message.interface == Some("org.freedesktop.DBus"@),
        message.member == Some("NameOwnerChanged"@),
        message.body.strings(3) == Some(texts),
        texts[2].len() == 0,
        tray::is_message_step(host, events, origin, message, step),
    ensures
        step == tray::remove_next(
            TrayHostView { fetches: tray::without_owner(host.fetches, texts[0]), ..host },
            events,
            origin,
            items::ids_on_bus(host.items, texts[0]),
        ),
{
    assert(events + Seq::<TrayEventView>::empty() =~= events);
}

/// Where a name loses its owner, whoever that was, the items on it are removed: handled to its
/// end, the signal leaves no item on the name and every other item in its place. There is one
/// `ItemRemoved` for each item that is gone, in their order and behind the events before, and one
/// `StatusNotifierItemUnregistered` that names it. Nothing else of the host changes, but that
/// fetches from the name are marked.
///
/// `steps` leads from the step that the signal leads to, over the signals that are sent, to the
/// first step that removes nothing more.
pub proof fn law_items_of_a_lost_name_are_removed(
    host: TrayHostView,
    events: Seq<TrayEventView>,
    origin: Origin,
    message: MessageView,
    texts: Seq<Seq<char>>,
    steps: Seq<Step>,
    answers: Seq<AnswerView>,
)
    requires
        forall|i: int, j: int|
            0 <= i < j < host.items.len() ==> (#[trigger] host.items[i]).id != (
            #[trigger] host.items[j]).id,
        message.typ == MessageType::Signal,
        message.interface == Some("org.freedesktop.DBus"@),
        message.member == Some("NameOwnerChanged"@),
        message.body.strings(3) == Some(texts),
        texts[2].len() == 0,
        steps.len() == answers.len() + 1,
        tray::is_message_step(host, events, origin, message, steps[0]),
        forall|i: int|
            0 <= i < answers.len() ==> {
                &&& #[trigger] answers[i] is Sent
                &&& steps[i].poll.stage is Vanishing
                &&& tray::is_step(steps[i].host, steps[i].poll, answers[i], steps[i + 1])
            },
        !(steps.last().poll.stage is Vanishing),
    ensures
        ({
            let name = texts[0];
            let gone = host.items.filter(lives_on(name));
            let done = steps.last();
            &&& forall|i: int|
                0 <= i < done.host.items.len() ==> (#[trigger] done.host.items[i]).bus_name != name
            &&& done.host.items == host.items.filter(lives_off(name))
            &&& done.poll.events == events + Seq::new(
                gone.len(),
                |i: int| TrayEventView::ItemRemoved(gone[i].id),
            )
            &&& forall|i: int|
                0 <= i < host.items.len() && (#[trigger] host.items[i]).bus_name == name
                    ==> done.poll.events.contains(TrayEventView::ItemRemoved(host.items[i].id))
            &&& steps.len() == gone.len() + 1
            &&& forall|i: int|
                0 <= i < gone.len() ==> (#[trigger] steps[i].request) == RequestView::Send(
                    MessageView::signal(
                        "org.kde.StatusNotifierWatcher"@,
                        "StatusNotifierItemUnregistered"@,
                        "/StatusNotifierWatcher"@,
                    ).with_body(crate::wire::BodyView::empty().with_str(gone[i].id)),
                )
            &&& takes_next(done, origin)
            &&& done.host.fetches.len() == host.fetches.len()
            &&& forall|i: int|
                0 <= i < host.fetches.len() ==> (#[trigger] done.host.fetches[i]) == (FetchView {
                    orphaned: host.fetches[i].orphaned || host.fetches[i].target.bus_name == name,
                    ..host.fetches[i]
                })
            &&& done.host == (TrayHostView {
                items: done.host.items,
                fetches: done.host.fetches,
                ..host
            })
        }),
{
    let name = texts[0];
    let ids = items::ids_on_bus(host.items, name);
    let gone = host.items.filter(lives_on(name));
    let done = steps.last();
    let marked = TrayHostView { fetches: tray::without_owner(host.fetches, name), ..host };
    lemma_lost_name_begins_removal(host, events, origin, message, texts, steps[0]);
    lemma_removal_runs(marked, events, origin, ids, steps, answers);
    assert(items::ids_distinct(marked.items));
    lemma_removed_in_the_end(marked, events, origin, name);
    lemma_off_bus_filters(host.items, name);
    let added = Seq::new(gone.len(), |i: int| TrayEventView::ItemRemoved(gone[i].id));
    assert(removals(ids) =~= added);
    assert forall|i: int|
        0 <= i < host.items.len() && (#[trigger] host.items[i]).bus_name
            == name implies done.poll.events.contains(
        TrayEventView::ItemRemoved(host.items[i].id),
    ) by {
        items::law_ids_on_bus_are_all_of_them(host.items, name, host.items[i].id);
        let k = choose|k: int| 0 <= k < ids.len() && ids[k] == host.items[i].id;
        assert(done.poll.events[events.len() + k] == removals(ids)[k]);
    }
    assert forall|i: int| 0 <= i < gone.len() implies (#[trigger] steps[i].request)
        == RequestView::Send(
        MessageView::signal(
            "org.kde.StatusNotifierWatcher"@,
            "StatusNotifierItemUnregistered"@,
            "/StatusNotifierWatcher"@,
        ).with_body(crate::wire::BodyView::empty().with_str(gone[i].id)),
    ) by {
        assert(ids[i] == gone[i].id);
        watcher::law_watcher_signals_name_the_item(gone[i].id);
    }
}

/// The removal of the items on a bus name, from its beginning to its end.
proof fn lemma_removed_in_the_end(
    host: TrayHostView,
    events: Seq<TrayEventView>,
    origin: Origin,
    bus_name: Seq<char>,
)
    requires
        items::ids_distinct(host.items),
    ensures
        ({
            let ids = items::ids_on_bus(host.items, bus_name);
            remove_all(host, events, origin, ids) == tray::next_message(
                TrayHostView { items: off_bus(host.items, bus_name), ..host },
                events + removals(ids),
                origin,
            )
        }),
    decreases host.items.len(),
{
    let ids = items::ids_on_bus(host.items, bus_name);
    if ids.len() == 0 {
        lemma_nothing_on_bus(host.items, bus_name);
        assert(events + removals(ids) =~= events);
    } else {
        lemma_first_removed(host.items, bus_name);
        let less = items::removed(host.items, ids[0]);
        items::law_remove(host.items, ids[0], ids[0]);
        let next = TrayHostView { items: less, ..host };
        let more = events.push(TrayEventView::ItemRemoved(ids[0]));
        lemma_removed_in_the_end(next, more, origin, bus_name);
        assert(more + removals(ids.drop_first()) =~= events + removals(ids));
    }
}

/// Where a name gets an owner, no item changes and there is no event. A unique name that had
/// none before is put in front of the names to probe, unless it is among them.
pub proof fn law_new_connections_are_probed_first(
    host: TrayHostView,
    events: Seq<TrayEventView>,
    origin: Origin,
    message: MessageView,
    step: Step,
    texts: Seq<Seq<char>>,
)
    requires
        message.typ == MessageType::Signal,
        message.interface == Some("org.freedesktop.DBus"@),
        message.member == Some("NameOwnerChanged"@),
        message.body.strings(3) == Some(texts),
        texts[2].len() > 0,
        tray::is_message_step(host, events, origin, message, step),
    ensures
        takes_next(step, origin),
        step.poll.events == events,
        step.host == (TrayHostView { names: step.host.names, ..host }),
        (exists|rest: Seq<char>| texts[0] == #[trigger] (":1."@ + rest)) && texts[1].len() == 0
            && !host.names.contains(texts[0]) ==> step.host.names == seq![texts[0]] + host.names,
        (forall|rest: Seq<char>| texts[0] != #[trigger] (":1."@ + rest)) || texts[1].len() > 0
            || host.names.contains(texts[0]) ==> step.host.names == host.names,
{
    assert(events + Seq::<TrayEventView>::empty() =~= events);
    let name = texts[0];
    if exists|rest: Seq<char>| name == #[trigger] (":1."@ + rest) {
        let rest = choose|rest: Seq<char>| name == #[trigger] (":1."@ + rest);
        crate::text::law_begins_with(":1."@, rest, name);
    } else {
        let rest = name.skip(":1."@.len() as int);
        crate::text::law_begins_with(":1."@, rest, name);
        assert(name != ":1."@ + rest);
    }
}

/// A `NameOwnerChanged` signal that cannot be read fails the round and changes nothing.
pub proof fn law_unreadable_owner_change_fails(
    host: TrayHostView,
    events: Seq<TrayEventView>,
    origin: Origin,
    message: MessageView,
    step: Step,
)
    requires
        message.typ == MessageType::Signal,
        message.interface == Some("org.freedesktop.DBus"@),
        message.member == Some("NameOwnerChanged"@),
        message.body.strings(3) is None,
        tray::is_message_step(host, events, origin, message, step),
    ensures
        step.request == RequestView::Failed(ErrorView::Unmarshal),
        step.host == host,
{
}

proof fn lemma_interfaces_differ()
    ensures
        "org.freedesktop.DBus"@ != "org.kde.StatusNotifierItem"@,
        "org.freedesktop.DBus"@ != "com.canonical.dbusmenu"@,
        "org.kde.StatusNotifierItem"@ != "com.canonical.dbusmenu"@,
        "LayoutUpdated"@ != "ItemActivationRequested"@,
        "ItemsPropertiesUpdated"@ != "ItemActivationRequested"@,
        "org.freedesktop.DBus"@.len() > 0,
        "org.kde.StatusNotifierItem"@.len() > 0,
        "com.canonical.dbusmenu"@.len() > 0,
{
    reveal_strlit("org.freedesktop.DBus");
    reveal_strlit("org.kde.StatusNotifierItem");
    reveal_strlit("com.canonical.dbusmenu");
    reveal_strlit("LayoutUpdated");
    reveal_strlit("ItemsPropertiesUpdated");
    reveal_strlit("ItemActivationRequested");
    assert("org.freedesktop.DBus"@.len() != "org.kde.StatusNotifierItem"@.len());
    assert("org.freedesktop.DBus"@.len() != "com.canonical.dbusmenu"@.len());
    assert("org.kde.StatusNotifierItem"@.len() != "com.canonical.dbusmenu"@.len());
    assert("LayoutUpdated"@.len() != "ItemActivationRequested"@.len());
    assert("ItemsPropertiesUpdated"@.len() != "ItemActivationRequested"@.len());
}

/// When an item says that it has changed, the properties of the first item on the bus name of the
/// sender are asked for again, at the bus name and at the object path of that item, to be known
/// under its identifier. Nothing else changes.
pub proof fn law_changed_item_is_read_again(
    host: TrayHostView,
    events: Seq<TrayEventView>,
    origin: Origin,
    message: MessageView,
    step: Step,
    sender: Seq<char>,
    at: int,
)
    requires
        message.typ == MessageType::Signal,
        message.interface == Some("org.kde.StatusNotifierItem"@),
        message.sender == Some(sender),
        sender.len() > 0,
        0 <= at < host.items.len(),
        host.items[at].bus_name == sender,
        forall|k: int| 0 <= k < at ==> (#[trigger] host.items[k]).bus_name != sender,
        tray::is_message_step(host, events, origin, message, step),
    ensures
        step.request == RequestView::Send(
            MessageView::call(
                sender,
                host.items[at].object_path,
                "org.freedesktop.DBus.Properties"@,
                "GetAll"@,
            ).with_body(crate::wire::BodyView::empty().with_str("org.kde.StatusNotifierItem"@)),
        ),
        step.poll.stage == StageView::FetchSending(
            origin,
            TargetView {
                service_id: host.items[at].id,
                bus_name: sender,
                object_path: host.items[at].object_path,
            },
            PurposeView::Refresh,
        ),
        step.poll.events == events,
        step.host == host,
{
    lemma_interfaces_differ();
    items::lemma_bus_position(host.items, sender, at);
    assert(items::bus_known(host.items, sender));
    assert(events + Seq::<TrayEventView>::empty() =~= events);
    item::law_get_all_goes_to_the_item(sender, host.items[at].object_path);
}

/// Signals of a menu tell of the items of their sender, one event for each and in their order:
/// that the menu has changed, or that it wants to be shown. Nothing else changes.
pub proof fn law_menu_signals_tell_of_the_items_of_the_sender(
    host: TrayHostView,
    events: Seq<TrayEventView>,
    origin: Origin,
    message: MessageView,
    step: Step,
    sender: Seq<char>,
)
    requires
        message.typ == MessageType::Signal,
        message.interface == Some("com.canonical.dbusmenu"@),
        message.sender == Some(sender),
        sender.len() > 0,
        tray::is_message_step(host, events, origin, message, step),
    ensures
        ({
            let mine = host.items.filter(lives_on(sender));
            &&& takes_next(step, origin)
            &&& step.host == host
            &&& message.member == Some("LayoutUpdated"@) || message.member == Some(
                "ItemsPropertiesUpdated"@,
            ) ==> step.poll.events == events + Seq::new(
                mine.len(),
                |i: int| TrayEventView::MenuChanged(mine[i].id),
            )
            &&& message.member == Some("ItemActivationRequested"@) ==> step.poll.events == events
                + Seq::new(
                mine.len(),
                |i: int| TrayEventView::MenuActivationRequested(mine[i].id),
            )
            &&& message.member != Some("LayoutUpdated"@) && message.member != Some(
                "ItemsPropertiesUpdated"@,
            ) && message.member != Some("ItemActivationRequested"@) ==> step.poll.events == events
        }),
{
    lemma_interfaces_differ();
    reveal_strlit("LayoutUpdated");
    reveal_strlit("ItemsPropertiesUpdated");
    reveal_strlit("ItemActivationRequested");
    lemma_off_bus_filters(host.items, sender);
    let mine = host.items.filter(lives_on(sender));
    let ids = items::ids_on_bus(host.items, sender);
    assert(events + Seq::<TrayEventView>::empty() =~= events);
    assert(watcher::menu_changes(ids) =~= Seq::new(
        mine.len(),
        |i: int| TrayEventView::MenuChanged(mine[i].id),
    ));
    assert(watcher::activation_requests(ids) =~= Seq::new(
        mine.len(),
        |i: int| TrayEventView::MenuActivationRequested(mine[i].id),
    ));
}

/// Other signals, and signals of items and menus that nobody knows, change nothing.
pub proof fn law_other_signals_change_nothing(
    host: TrayHostView,
    events: Seq<TrayEventView>,
    origin: Origin,
    message: MessageView,
    step: Step,
)
    requires
        message.typ == MessageType::Signal,
        message.interface != Some("org.freedesktop.DBus"@) || message.member != Some(
            "NameOwnerChanged"@,
        ),
        message.interface == Some("org.kde.StatusNotifierItem"@) || message.interface == Some(
            "com.canonical.dbusmenu"@,
        ) ==> forall|i: int|
            0 <= i < host.items.len() ==> message.sender != Some(
                (#[trigger] host.items[i]).bus_name,
            ) || host.items[i].bus_name.len() == 0,
        tray::is_message_step(host, events, origin, message, step),
    ensures
        takes_next(step, origin),
        step.host == host,
        step.poll.events == events,
{
    lemma_interfaces_differ();
    reveal_strlit("NameOwnerChanged");
    assert(events + Seq::<TrayEventView>::empty() =~= events);
    if let Some(sender) = message.sender {
        if sender.len() > 0 && (message.interface == Some("org.kde.StatusNotifierItem"@)
            || message.interface == Some("com.canonical.dbusmenu"@)) {
            assert(!items::bus_known(host.items, sender));
            let ids = items::ids_on_bus(host.items, sender);
            if ids.len() > 0 {
                items::law_ids_on_bus_are_all_of_them(host.items, sender, ids[0]);
                assert(ids.contains(ids[0]));
            }
            assert(events + watcher::menu_changes(ids) =~= events);
            assert(events + watcher::activation_requests(ids) =~= events);
        } else {
            let none = Seq::<Seq<char>>::empty();
            assert(watcher::menu_changes(none) =~= seq![]);
            assert(watcher::activation_requests(none) =~= seq![]);
        }
    } else {
        let none = Seq::<Seq<char>>::empty();
        assert(watcher::menu_changes(none) =~= seq![]);
        assert(watcher::activation_requests(none) =~= seq![]);
    }
}

/// A call is answered at once, or the properties of the item that it registers are asked for, at
/// the bus name and object path of the item, and the reply is owed. Nothing else changes.
///
/// `outcome` is what the watcher makes of the call.
pub proof fn law_call_is_answered_or_leads_to_a_fetch(
    host: TrayHostView,
    events: Seq<TrayEventView>,
    origin: Origin,
    message: MessageView,
    step: Step,
) -> (outcome: Result<CallOutcomeView, ErrorView>)
    requires
        message.typ == MessageType::Call,
        tray::is_message_step(host, events, origin, message, step),
    ensures
        watcher::is_call_outcome(message, host.items, host.host_name, outcome),
        step.host == host,
        step.poll.events == events,
        match outcome {
            Ok(CallOutcomeView::Reply(reply)) => step.request == RequestView::Send(reply)
                && step.poll.stage == StageView::Replying(origin),
            Ok(CallOutcomeView::Register(registration)) => {
                &&& step.request == RequestView::Send(
                    MessageView::call(
                        registration.bus_name,
                        registration.object_path,
                        "org.freedesktop.DBus.Properties"@,
                        "GetAll"@,
                    ).with_body(
                        crate::wire::BodyView::empty().with_str("org.kde.StatusNotifierItem"@),
                    ),
                )
                &&& step.poll.stage == StageView::FetchSending(
                    origin,
                    TargetView {
                        service_id: registration.service_id,
                        bus_name: registration.bus_name,
                        object_path: registration.object_path,
                    },
                    PurposeView::Register(registration.reply),
                )
            },
            Err(_) => false,
        },
{
    let outcome = choose|outcome: Result<CallOutcomeView, ErrorView>| #[trigger]
        watcher::is_call_outcome(message, host.items, host.host_name, outcome) && step
            == tray::after_call(host, events, origin, outcome);
    watcher::law_every_call_is_answered(message, host.items, host.host_name, outcome);
    if let Ok(CallOutcomeView::Register(registration)) = outcome {
        item::law_get_all_goes_to_the_item(registration.bus_name, registration.object_path);
    }
    outcome
}

/// A registration by path, from the socket: the properties are asked for at the bus name of the
/// sender and at that path, and the item is to be known as the sender and the path.
pub proof fn law_registration_by_path_asks_the_sender(
    host: TrayHostView,
    events: Seq<TrayEventView>,
    origin: Origin,
    message: MessageView,
    step: Step,
    sender: Seq<char>,
    path: Seq<char>,
)
    requires
        message.typ == MessageType::Call,
        message.object == Some("/StatusNotifierWatcher"@),
        message.interface == Some("org.kde.StatusNotifierWatcher"@),
        message.member == Some("RegisterStatusNotifierItem"@),
        message.sender == Some(sender),
        message.body.strings(1) == Some(seq![path]),
        path.len() > 0 && path[0] == '/',
        tray::is_message_step(host, events, origin, message, step),
    ensures
        step.request == RequestView::Send(
            MessageView::call(sender, path, "org.freedesktop.DBus.Properties"@, "GetAll"@).with_body(
                crate::wire::BodyView::empty().with_str("org.kde.StatusNotifierItem"@),
            ),
        ),
        step.poll.stage matches StageView::FetchSending(_, target, PurposeView::Register(_))
            && target == (TargetView {
            service_id: sender + path,
            bus_name: sender,
            object_path: path,
        }),
{
    let outcome = law_call_is_answered_or_leads_to_a_fetch(host, events, origin, message, step);
    watcher::law_register_item_reads_the_service(
        message,
        host.items,
        host.host_name,
        outcome,
        sender,
    );
    watcher::law_service_names_have_three_forms(sender, path, path.skip(1));
    assert(seq!['/'] + path.skip(1) =~= path);
}

/// A registration by bus name, from the socket: the properties are asked for at that bus name and
/// at the default path, and the item is to be known as the bus name.
pub proof fn law_registration_by_bus_name_asks_there(
    host: TrayHostView,
    events: Seq<TrayEventView>,
    origin: Origin,
    message: MessageView,
    step: Step,
    sender: Seq<char>,
    name: Seq<char>,
)
    requires
        message.typ == MessageType::Call,
        message.object == Some("/StatusNotifierWatcher"@),
        message.interface == Some("org.kde.StatusNotifierWatcher"@),
        message.member == Some("RegisterStatusNotifierItem"@),
        message.sender == Some(sender),
        message.body.strings(1) == Some(seq![name]),
        name.contains('.') && !name.contains('/'),
        tray::is_message_step(host, events, origin, message, step),
    ensures
        step.request == RequestView::Send(
            MessageView::call(
                name,
                "/StatusNotifierItem"@,
                "org.freedesktop.DBus.Properties"@,
                "GetAll"@,
            ).with_body(crate::wire::BodyView::empty().with_str("org.kde.StatusNotifierItem"@)),
        ),
        step.poll.stage matches StageView::FetchSending(_, target, PurposeView::Register(_))
            && target == (TargetView {
            service_id: name,
            bus_name: name,
            object_path: "/StatusNotifierItem"@,
        }),
{
    let outcome = law_call_is_answered_or_leads_to_a_fetch(host, events, origin, message, step);
    watcher::law_register_item_reads_the_service(
        message,
        host.items,
        host.host_name,
        outcome,
        sender,
    );
    watcher::law_service_names_have_three_forms(sender, name, name);
    if name[0] == '/' {
        assert(name.contains(name[0]));
    }
}

/// A registration by bus name and path, from the socket: the properties are asked for there, and
/// the item is to be known as what the service called itself.
pub proof fn law_registration_by_name_and_path_asks_there(
    host: TrayHostView,
    events: Seq<TrayEventView>,
    origin: Origin,
    message: MessageView,
    step: Step,
    sender: Seq<char>,
    name: Seq<char>,
    rest: Seq<char>,
)
    requires
        message.typ == MessageType::Call,
        message.object == Some("/StatusNotifierWatcher"@),
        message.interface == Some("org.kde.StatusNotifierWatcher"@),
        message.member == Some("RegisterStatusNotifierItem"@),
        message.sender == Some(sender),
        message.body.strings(1) == Some(seq![name + seq!['/'] + rest]),
        name.len() > 0 && !name.contains('/'),
        tray::is_message_step(host, events, origin, message, step),
    ensures
        step.request == RequestView::Send(
            MessageView::call(
                name,
                seq!['/'] + rest,
                "org.freedesktop.DBus.Properties"@,
                "GetAll"@,
            ).with_body(crate::wire::BodyView::empty().with_str("org.kde.StatusNotifierItem"@)),
        ),
        step.poll.stage matches StageView::FetchSending(_, target, PurposeView::Register(_))
            && target == (TargetView {
            service_id: name + seq!['/'] + rest,
            bus_name: name,
            object_path: seq!['/'] + rest,
        }),
{
    let outcome = law_call_is_answered_or_leads_to_a_fetch(host, events, origin, message, step);
    watcher::law_register_item_reads_the_service(
        message,
        host.items,
        host.host_name,
        outcome,
        sender,
    );
    watcher::law_service_names_have_three_forms(sender, name, rest);
    let service = name + seq!['/'] + rest;
    assert(service[0] == name[0] && name.contains(name[0]));
}

/// A registration owes the reply to its own call: to its sender, with its serial number.
pub proof fn law_registration_owes_the_reply_to_its_call(
    host: TrayHostView,
    events: Seq<TrayEventView>,
    origin: Origin,
    message: MessageView,
    step: Step,
    target: TargetView,
    reply: MessageView,
)
    requires
        message.typ == MessageType::Call,
        tray::is_message_step(host, events, origin, message, step),
        step.poll.stage == StageView::FetchSending(origin, target, PurposeView::Register(reply)),
    ensures
        reply.typ == MessageType::Reply,
        reply.destination == message.sender,
        reply.response_serial == message.serial,
        reply.error_name is None,
        reply.body == crate::wire::BodyView::empty(),
{
    let outcome = law_call_is_answered_or_leads_to_a_fetch(host, events, origin, message, step);
    watcher::law_every_call_is_answered(message, host.items, host.host_name, outcome);
}

/// When the properties of a service that registers arrive, and no known item has its identifier
/// or its bus name, the service is added behind the other items, whatever its object path is. It
/// is described by the reply. The event is `ItemAdded`, the registration is announced, and the
/// reply to it is sent next.
pub proof fn law_unknown_service_is_added(
    host: TrayHostView,
    events: Seq<TrayEventView>,
    origin: Origin,
    message: MessageView,
    step: Step,
    serial: u32,
    at: int,
    reply: MessageView,
)
    requires
        message.typ == MessageType::Reply,
        0 <= at < host.fetches.len(),
        host.fetches[at].serial == serial,
        forall|k: int| 0 <= k < at ==> (#[trigger] host.fetches[k]).serial != serial,
        message.response_serial == Some(serial),
        host.probe matches Some(probe) ==> probe.serial != serial,
        host.fetches[at].purpose == PurposeView::Register(reply),
        forall|i: int|
            0 <= i < host.items.len() ==> (#[trigger] host.items[i]).id
                != host.fetches[at].target.service_id && host.items[i].bus_name
                != host.fetches[at].target.bus_name,
        tray::is_message_step(host, events, origin, message, step),
    ensures
        ({
            let target = host.fetches[at].target;
            let item = TrayItemView::from_reply(
                message.body,
                target.service_id,
                target.bus_name,
                target.object_path,
            );
            &&& item.id == target.service_id && item.bus_name == target.bus_name
            &&& item.object_path == target.object_path
            &&& step.host == (TrayHostView {
                items: host.items.push(item),
                fetches: host.fetches.remove(at),
                ..host
            })
            &&& items::found(step.host.items, target.service_id) == Some(item)
            &&& step.poll.events == events.push(TrayEventView::ItemAdded(target.service_id))
            &&& step.request == RequestView::Send(
                MessageView::signal(
                    "org.kde.StatusNotifierWatcher"@,
                    "StatusNotifierItemRegistered"@,
                    "/StatusNotifierWatcher"@,
                ).with_body(crate::wire::BodyView::empty().with_str(target.service_id)),
            )
            &&& step.poll.stage == StageView::Announcing(
                origin,
                reply,
                if host.fetches[at].orphaned {
                    seq![target.service_id]
                } else {
                    seq![]
                },
            )
        }),
{
    lemma_fetch_is_taken(host, events, origin, message, step, serial, at);
    let target = host.fetches[at].target;
    let item = TrayItemView::from_reply(
        message.body,
        target.service_id,
        target.bus_name,
        target.object_path,
    );
    let now = host.items.push(item);
    watcher::law_watcher_signals_name_the_item(target.service_id);
    assert(now[host.items.len() as int].id == target.service_id);
    items::lemma_position(now, target.service_id);
    let p = items::position(now, target.service_id);
    if p < host.items.len() {
        assert(now[p] == host.items[p]);
    }
}

/// The answer to a fetch is handled as such, and ends it.
proof fn lemma_fetch_is_taken(
    host: TrayHostView,
    events: Seq<TrayEventView>,
    origin: Origin,
    message: MessageView,
    step: Step,
    serial: u32,
    at: int,
)
    requires
        message.typ == MessageType::Reply || message.typ == MessageType::Error,
        0 <= at < host.fetches.len(),
        host.fetches[at].serial == serial,
        forall|k: int| 0 <= k < at ==> (#[trigger] host.fetches[k]).serial != serial,
        message.response_serial == Some(serial),
        host.probe matches Some(probe) ==> probe.serial != serial,
        tray::is_message_step(host, events, origin, message, step),
    ensures
        step == tray::fetch_answered(
            TrayHostView { fetches: host.fetches.remove(at), ..host },
            events,
            origin,
            host.fetches[at],
            message,
        ),
{
    assert(tray::has_fetch(host.fetches, serial));
    tray::lemma_fetch_position(host.fetches, serial);
    let p = tray::fetch_position(host.fetches, serial);
    if p < at {
        assert(host.fetches[p].serial != serial);
    }
}

/// When the properties of a service that registers arrive, and a known item has its identifier or
/// its bus name, the items stay as they are. The event is `ItemChanged` of the item with that
/// identifier, or else of the first item on that bus name. The registration is announced and
/// answered all the same.
pub proof fn law_known_service_stays_as_it_is(
    host: TrayHostView,
    events: Seq<TrayEventView>,
    origin: Origin,
    message: MessageView,
    step: Step,
    serial: u32,
    at: int,
    reply: MessageView,
    known: int,
)
    requires
        message.typ == MessageType::Reply,
        0 <= at < host.fetches.len(),
        host.fetches[at].serial == serial,
        forall|k: int| 0 <= k < at ==> (#[trigger] host.fetches[k]).serial != serial,
        message.response_serial == Some(serial),
        host.probe matches Some(probe) ==> probe.serial != serial,
        host.fetches[at].purpose == PurposeView::Register(reply),
        0 <= known < host.items.len(),
        host.items[known].id == host.fetches[at].target.service_id || host.items[known].bus_name
            == host.fetches[at].target.bus_name,
        tray::is_message_step(host, events, origin, message, step),
    ensures
        ({
            let target = host.fetches[at].target;
            &&& step.host == (TrayHostView { fetches: host.fetches.remove(at), ..host })
            &&& host.items[known].id == target.service_id ==> step.poll.events == events.push(
                TrayEventView::ItemChanged(target.service_id),
            )
            &&& (forall|i: int|
                0 <= i < host.items.len() ==> (#[trigger] host.items[i]).id != target.service_id)
                && (forall|i: int|
                0 <= i < known ==> (#[trigger] host.items[i]).bus_name != target.bus_name)
                ==> step.poll.events == events.push(
                TrayEventView::ItemChanged(host.items[known].id),
            )
            &&& exists|i: int|
                {
                    &&& 0 <= i < host.items.len()
                    &&& (#[trigger] host.items[i]).id == target.service_id
                        || host.items[i].bus_name == target.bus_name
                    &&& step.poll.events == events.push(
                        TrayEventView::ItemChanged(host.items[i].id),
                    )
                }
            &&& step.request == RequestView::Send(
                MessageView::signal(
                    "org.kde.StatusNotifierWatcher"@,
                    "StatusNotifierItemRegistered"@,
                    "/StatusNotifierWatcher"@,
                ).with_body(crate::wire::BodyView::empty().with_str(target.service_id)),
            )
            &&& step.poll.stage == StageView::Announcing(origin, reply, seq![])
        }),
{
    lemma_fetch_is_taken(host, events, origin, message, step, serial, at);
    let target = host.fetches[at].target;
    watcher::law_watcher_signals_name_the_item(target.service_id);
    assert(host.items[known].id == target.service_id ==> items::has_id(
        host.items,
        target.service_id,
    ));
    assert(host.items[known].bus_name == target.bus_name ==> items::bus_known(
        host.items,
        target.bus_name,
    ));
    if items::has_id(host.items, target.service_id) {
        items::lemma_position(host.items, target.service_id);
        let i = items::position(host.items, target.service_id);
        assert(host.items[i].id == target.service_id);
    } else {
        lemma_bus_position_in_range(host.items, target.bus_name, known);
        let i = items::bus_position(host.items, target.bus_name);
        assert(host.items[i].bus_name == target.bus_name);
        if forall|i: int|
            0 <= i < known ==> (#[trigger] host.items[i]).bus_name != target.bus_name {
            items::lemma_bus_position(host.items, target.bus_name, known);
        }
    }
}

/// The properties of an item that is read again take the place of the old ones, with an
/// `ItemChanged`. Where the item is gone in the meantime, nothing happens.
pub proof fn law_refreshed_item_takes_its_place(
    host: TrayHostView,
    events: Seq<TrayEventView>,
    origin: Origin,
    message: MessageView,
    step: Step,
    serial: u32,
    at: int,
    known: int,
)
    requires
        forall|i: int, j: int|
            0 <= i < j < host.items.len() ==> (#[trigger] host.items[i]).id != (
            #[trigger] host.items[j]).id,
        message.typ == MessageType::Reply,
        0 <= at < host.fetches.len(),
        host.fetches[at].serial == serial,
        forall|k: int| 0 <= k < at ==> (#[trigger] host.fetches[k]).serial != serial,
        message.response_serial == Some(serial),
        host.probe matches Some(probe) ==> probe.serial != serial,
        host.fetches[at].purpose == PurposeView::Refresh,
        tray::is_message_step(host, events, origin, message, step),
    ensures
        ({
            let target = host.fetches[at].target;
            let item = TrayItemView::from_reply(
                message.body,
                target.service_id,
                target.bus_name,
                target.object_path,
            );
            let less = TrayHostView { fetches: host.fetches.remove(at), ..host };
            &&& takes_next(step, origin)
            &&& 0 <= known < host.items.len() && host.items[known].id == target.service_id ==> {
                &&& step.host == (TrayHostView { items: host.items.update(known, item), ..less })
                &&& step.poll.events == events.push(TrayEventView::ItemChanged(target.service_id))
            }
            &&& (forall|i: int|
                0 <= i < host.items.len() ==> (#[trigger] host.items[i]).id != target.service_id)
                ==> step.host == less && step.poll.events == events
        }),
{
    lemma_fetch_is_taken(host, events, origin, message, step, serial, at);
    let target = host.fetches[at].target;
    let item = TrayItemView::from_reply(
        message.body,
        target.service_id,
        target.bus_name,
        target.object_path,
    );
    items::law_insert_changes_one_place(host.items, item, known);
    if 0 <= known < host.items.len() && host.items[known].id == target.service_id {
        assert(items::has_id(host.items, target.service_id));
    }
}

/// An error in answer to a fetch changes no item and causes no event. A registration is answered
/// all the same.
pub proof fn law_refused_fetch_changes_nothing(
    host: TrayHostView,
    events: Seq<TrayEventView>,
    origin: Origin,
    message: MessageView,
    step: Step,
    serial: u32,
    at: int,
)
    requires
        message.typ == MessageType::Error,
        0 <= at < host.fetches.len(),
        host.fetches[at].serial == serial,
        forall|k: int| 0 <= k < at ==> (#[trigger] host.fetches[k]).serial != serial,
        message.response_serial == Some(serial),
        host.probe matches Some(probe) ==> probe.serial != serial,
        tray::is_message_step(host, events, origin, message, step),
    ensures
        step.host == (TrayHostView { fetches: host.fetches.remove(at), ..host }),
        step.poll.events == events,
        match host.fetches[at].purpose {
            PurposeView::Register(reply) => step.request == RequestView::Send(reply)
                && step.poll.stage == StageView::Replying(origin),
            PurposeView::Refresh => takes_next(step, origin),
        },
{
    lemma_fetch_is_taken(host, events, origin, message, step, serial, at);
}

/// The reply to the probe in flight adds an item under the name that was probed, at the default
/// path and behind the others where the name is new, with an `ItemAdded` and an announcement;
/// unless a known item has the `Id` of the item, and that is not empty: then there is no event
/// and no item. Either way the probe is over.
pub proof fn law_probed_item_is_added(
    host: TrayHostView,
    events: Seq<TrayEventView>,
    origin: Origin,
    message: MessageView,
    step: Step,
    probe: ProbeView,
)
    requires
        forall|i: int, j: int|
            0 <= i < j < host.items.len() ==> (#[trigger] host.items[i]).id != (
            #[trigger] host.items[j]).id,
        host.probe == Some(probe),
        message.typ == MessageType::Reply,
        message.response_serial == Some(probe.serial),
        tray::is_message_step(host, events, origin, message, step),
    ensures
        ({
            let item = TrayItemView::from_reply(
                message.body,
                probe.name,
                probe.name,
                "/StatusNotifierItem"@,
            );
            if exists|i: int|
                0 <= i < host.items.len() && (#[trigger] host.items[i]).item_id == item.item_id
                    && item.item_id.len() > 0 {
                &&& takes_next(step, origin)
                &&& step.poll.events == events
                &&& step.host == (TrayHostView { probe: None, ..host })
            } else {
                &&& step.poll.events == events.push(TrayEventView::ItemAdded(probe.name))
                &&& step.poll.stage == StageView::ProbeAnnouncing(origin)
                &&& step.request == RequestView::Send(
                    MessageView::signal(
                        "org.kde.StatusNotifierWatcher"@,
                        "StatusNotifierItemRegistered"@,
                        "/StatusNotifierWatcher"@,
                    ).with_body(crate::wire::BodyView::empty().with_str(probe.name)),
                )
                &&& step.host == (TrayHostView { probe: None, items: step.host.items, ..host })
                &&& (forall|i: int|
                    0 <= i < host.items.len() ==> (#[trigger] host.items[i]).id != probe.name)
                    ==> step.host.items == host.items.push(item)
                &&& forall|i: int|
                    0 <= i < host.items.len() && (#[trigger] host.items[i]).id == probe.name
                        ==> step.host.items == host.items.update(i, item)
            }
        }),
{
    let item = TrayItemView::from_reply(
        message.body,
        probe.name,
        probe.name,
        "/StatusNotifierItem"@,
    );
    watcher::law_watcher_signals_name_the_item(probe.name);
    items::law_insert_changes_one_place(host.items, item, 0);
    assert forall|i: int| 0 <= i < host.items.len() && (#[trigger] host.items[i]).id
        == probe.name implies items::inserted(host.items, item) == host.items.update(i, item) by {
        items::law_insert_changes_one_place(host.items, item, i);
    }
    if exists|i: int|
        0 <= i < host.items.len() && (#[trigger] host.items[i]).item_id == item.item_id
            && item.item_id.len() > 0 {
        assert(items::name_taken(host.items, item.item_id));
    }
}

/// An error in answer to the probe in flight ends the probe and does nothing else.
pub proof fn law_refused_probe_changes_nothing(
    host: TrayHostView,
    events: Seq<TrayEventView>,
    origin: Origin,
    message: MessageView,
    step: Step,
    probe: ProbeView,
)
    requires
        host.probe == Some(probe),
        message.typ == MessageType::Error,
        message.response_serial == Some(probe.serial),
        tray::is_message_step(host, events, origin, message, step),
    ensures
        takes_next(step, origin),
        step.poll.events == events,
        step.host == (TrayHostView { probe: None, ..host }),
{
}

/// Answers to anything else, and messages that are neither answers nor signals nor calls, are
/// ignored.
pub proof fn law_other_answers_change_nothing(
    host: TrayHostView,
    events: Seq<TrayEventView>,
    origin: Origin,
    message: MessageView,
    step: Step,
)
    requires
        message.typ != MessageType::Signal && message.typ != MessageType::Call,
        host.probe matches Some(probe) ==> message.response_serial != Some(probe.serial),
        forall|i: int|
            0 <= i < host.fetches.len() ==> message.response_serial != Some(
                (#[trigger] host.fetches[i]).serial,
            ),
        tray::is_message_step(host, events, origin, message, step),
    ensures
        takes_next(step, origin),
        step.poll.events == events,
        step.host == host,
{
    if tray::answers_fetch(host.fetches, message) {
        let serial = message.response_serial->0;
        tray::lemma_fetch_position(host.fetches, serial);
        let p = tray::fetch_position(host.fetches, serial);
        assert(host.fetches[p].serial == serial);
    }
}

// ---------------------------------------------------------------------------
// How a round goes on

/// A round begins with the events that were pending, which are then pending no more, and with
/// the messages that were kept.
pub proof fn law_round_begins_with_what_was_pending(host: TrayHostView)
    ensures
        ({
            let step = tray::begin(host);
            &&& step.poll.events == host.pending_events
            &&& step.poll.stage == StageView::Queue && step.request == RequestView::Proceed
            &&& step.host.pending_events.len() == 0
            &&& step.host == (TrayHostView { pending_events: step.host.pending_events, ..host })
        }),
{
}

/// When no message is left that was kept, the socket is read. What was read is taken message by
/// message, until there is no complete one, and then the socket is read again. Each message is
/// handled where it is taken. None of this changes the host by itself.
pub proof fn law_every_message_is_taken(
    host: TrayHostView,
    poll: PollView,
    answer: AnswerView,
    step: Step,
)
    requires
        poll.stage.accepts(answer),
        tray::is_step(host, poll, answer, step),
    ensures
        poll.stage is Queue && host.messages.len() == 0 ==> step.request == RequestView::Read
            && step.poll.stage == StageView::Reading && step.host == host && step.poll.events
            == poll.events,
        poll.stage is Queue && host.messages.len() > 0 ==> tray::is_message_step(
            TrayHostView { messages: host.messages.drop_first(), ..host },
            poll.events,
            Origin::Queue,
            host.messages[0],
            step,
        ),
        poll.stage is Reading && answer is Progress ==> step.request == RequestView::Take
            && step.poll.stage == StageView::Taking && step.host == host && step.poll.events
            == poll.events,
        poll.stage is Taking && answer is Nothing ==> step.request == RequestView::Read
            && step.poll.stage == StageView::Reading && step.host == host && step.poll.events
            == poll.events,
        poll.stage is Taking ==> (answer matches AnswerView::Received(message)
            ==> tray::is_message_step(host, poll.events, Origin::Socket, message, step)),
{
}

/// Once something was sent, the round goes on: after a reply or an announcement of a probed item
/// with the next message, and after the announcement of a registration with the reply to it. A
/// call that reads properties is remembered, to be answered later.
pub proof fn law_round_goes_on_after_sending(
    host: TrayHostView,
    poll: PollView,
    serial: u32,
    now: u64,
    step: Step,
)
    requires
        tray::is_step(host, poll, AnswerView::Sent(serial, now), step),
    ensures
        poll.stage matches StageView::Replying(origin) ==> takes_next(step, origin) && step.host
            == host && step.poll.events == poll.events,
        poll.stage matches StageView::ProbeAnnouncing(origin) ==> takes_next(step, origin)
            && step.host == host && step.poll.events == poll.events,
        poll.stage matches StageView::Announcing(origin, reply, ids) ==> step.request
            == RequestView::Send(reply) && step.host == host && step.poll.events == poll.events
            && step.poll.stage == if ids.len() == 0 {
            StageView::Replying(origin)
        } else {
            StageView::Vanishing(origin, ids)
        },
        poll.stage matches StageView::FetchSending(origin, target, purpose) ==> takes_next(
            step,
            origin,
        ) && step.poll.events == poll.events && step.host == (TrayHostView {
            fetches: host.fetches.push(FetchView { serial, target, purpose, orphaned: false }),
            ..host
        }),
{
}

/// Where the connection fails, so does the round, and the host stays as it is. Only a call that
/// reads properties, a probe, and the announcement of a probed item may fail without that: then
/// a registration is answered all the same, and the round goes on or ends.
pub proof fn law_round_fails_with_the_connection(host: TrayHostView, poll: PollView, step: Step)
    requires
        poll.stage.accepts(AnswerView::Failed),
        tray::is_step(host, poll, AnswerView::Failed, step),
    ensures
        step.host == host,
        match poll.stage {
            StageView::FetchSending(origin, _, PurposeView::Register(reply)) => step.request
                == RequestView::Send(reply) && step.poll.stage == StageView::Replying(origin)
                && step.poll.events == poll.events,
            StageView::FetchSending(origin, _, PurposeView::Refresh) => takes_next(step, origin)
                && step.poll.events == poll.events,
            StageView::ProbeAnnouncing(origin) => takes_next(step, origin) && step.poll.events
                == poll.events,
            StageView::ProbeSending(_) => host.messages.len() == 0 ==> step.request
                == RequestView::Finished(poll.events),
            _ => step.request == RequestView::Failed(ErrorView::Bus),
        },
{
}

/// When there is nothing more to read, and no message left that was kept, a probe that has taken
/// half a second is given up. Then the first name that is waiting is probed at the default path,
/// unless a probe is still in flight; otherwise the round ends with all its events.
pub proof fn law_round_ends_with_a_probe(
    host: TrayHostView,
    poll: PollView,
    now: u64,
    step: Step,
)
    requires
        poll.stage == StageView::Reading,
        host.messages.len() == 0,
        tray::is_step(host, poll, AnswerView::TimedOut(now), step),
    ensures
        ({
            let over = host.probe matches Some(probe) && now - probe.started >= 500_000_000;
            let idle = host.probe is None || over;
            let tried = if over && host.retries.contains_key(host.probe->0.name) {
                host.retries[host.probe->0.name]
            } else {
                0
            };
            let waiting = if over && tried < 3 {
                host.names.push(host.probe->0.name)
            } else {
                host.names
            };
            &&& step.host == (TrayHostView {
                names: step.host.names,
                retries: step.host.retries,
                probe: step.host.probe,
                ..host
            })
            &&& step.host.probe == if over {
                None
            } else {
                host.probe
            }
            &&& !over ==> step.host.retries == host.retries
            &&& over && tried < 3 ==> step.host.retries == host.retries.insert(
                host.probe->0.name,
                (tried + 1) as u32,
            )
            &&& over && tried >= 3 ==> step.host.retries == host.retries.remove(host.probe->0.name)
            &&& if idle && waiting.len() > 0 {
                &&& step.host.names == waiting.drop_first()
                &&& step.poll.events == poll.events
                &&& step.poll.stage == StageView::ProbeSending(waiting[0])
                &&& step.request == RequestView::Send(
                    MessageView::call(
                        waiting[0],
                        "/StatusNotifierItem"@,
                        "org.freedesktop.DBus.Properties"@,
                        "GetAll"@,
                    ).with_body(
                        crate::wire::BodyView::empty().with_str("org.kde.StatusNotifierItem"@),
                    ),
                )
            } else {
                &&& step.host.names == waiting
                &&& step.request == RequestView::Finished(poll.events)
            }
        }),
{
    let expired = tray::expire_probe(host, now);
    if expired.names.len() > 0 {
        item::law_get_all_goes_to_the_item(expired.names[0], watcher::DEFAULT_ITEM_PATH@);
    }
}

/// When there is nothing more to read, but a message is left that was kept, the round goes back
/// to it with all its events.
pub proof fn law_round_does_not_end_before_kept_messages(
    host: TrayHostView,
    poll: PollView,
    now: u64,
    step: Step,
)
    requires
        poll.stage == StageView::Reading,
        host.messages.len() > 0,
        tray::is_step(host, poll, AnswerView::TimedOut(now), step),
    ensures
        step.request == RequestView::Proceed,
        step.poll.stage == StageView::Queue,
        step.poll.events == poll.events,
        step.host.messages == host.messages,
        step.host.items == host.items,
        step.host.fetches == host.fetches,
        step.host.pending_events == host.pending_events,
{
}

/// Saying that the host goes away makes one more event pending, behind those that are, and
/// changes nothing else. A new host has nothing pending, and knows nothing but its own name.
pub proof fn law_shutdown_is_pending(host: TrayHostView, host_name: Seq<char>)
    ensures
        tray::shut_down(host).pending_events == host.pending_events.push(
            TrayEventView::HostShutdown,
        ),
        tray::shut_down(host) == (TrayHostView {
            pending_events: tray::shut_down(host).pending_events,
            ..host
        }),
        ({
            let new = tray::new_host(host_name);
            &&& new.host_name == host_name
            &&& new.items.len() == 0 && new.pending_events.len() == 0 && new.names.len() == 0
            &&& new.fetches.len() == 0 && new.messages.len() == 0 && new.probe is None
            &&& forall|name: Seq<char>| !#[trigger] new.retries.contains_key(name)
        }),
{
}

/// A probe that was sent is in flight from then on, under its name, its serial number and its
/// time. The round ends with all its events.
pub proof fn law_sent_probe_is_in_flight(
    host: TrayHostView,
    events: Seq<TrayEventView>,
    name: Seq<char>,
    serial: u32,
    now: u64,
    step: Step,
)
    requires
        host.messages.len() == 0,
        tray::is_step(
            host,
            PollView { events, stage: StageView::ProbeSending(name) },
            AnswerView::Sent(serial, now),
            step,
        ),
    ensures
        step.request == RequestView::Finished(events),
        step.host == (TrayHostView {
            probe: Some(ProbeView { serial, name, started: now }),
            ..host
        }),
{
}

/// What an event says of the items: an item that was added, or that has changed, or whose menu
/// has, is there; an item that was removed is not.
pub open spec fn event_is_true(event: TrayEventView, items: Seq<TrayItemView>) -> bool {
    match event {
        TrayEventView::ItemRemoved(id) => forall|i: int|
            0 <= i < items.len() ==> (#[trigger] items[i]).id != id,
        TrayEventView::ItemAdded(id) => exists|i: int|
            0 <= i < items.len() && (#[trigger] items[i]).id == id,
        TrayEventView::ItemChanged(id) => exists|i: int|
            0 <= i < items.len() && (#[trigger] items[i]).id == id,
        TrayEventView::MenuChanged(id) => exists|i: int|
            0 <= i < items.len() && (#[trigger] items[i]).id == id,
        TrayEventView::MenuActivationRequested(id) => exists|i: int|
            0 <= i < items.len() && (#[trigger] items[i]).id == id,
        TrayEventView::HostShutdown => true,
    }
}

/// Every event that a step adds is true of the items after the step. In particular `ItemChanged`
/// always names an item that is there.
pub proof fn law_events_are_true(
    host: TrayHostView,
    poll: PollView,
    answer: AnswerView,
    step: Step,
)
    requires
        forall|i: int, j: int|
            0 <= i < j < host.items.len() ==> (#[trigger] host.items[i]).id != (
            #[trigger] host.items[j]).id,
        poll.stage.accepts(answer),
        tray::is_step(host, poll, answer, step),
    ensures
        forall|k: int|
            poll.events.len() <= k < step.poll.events.len() ==> #[trigger] event_is_true(
                step.poll.events[k],
                step.host.items,
            ),
{
    assert(items::ids_distinct(host.items));
    match poll.stage {
        StageView::Queue => if host.messages.len() > 0 {
            let rest = TrayHostView { messages: host.messages.drop_first(), ..host };
            lemma_message_events_are_true(
                rest,
                poll.events,
                Origin::Queue,
                host.messages[0],
                step,
            );
        },
        StageView::Taking => if let AnswerView::Received(message) = answer {
            lemma_message_events_are_true(host, poll.events, Origin::Socket, message, step);
        },
        StageView::Vanishing(origin, ids) => {
            lemma_removal_is_true(host, poll.events, origin, ids);
        },
        _ => {},
    }
}

proof fn lemma_removal_is_true(
    host: TrayHostView,
    events: Seq<TrayEventView>,
    origin: Origin,
    ids: Seq<Seq<char>>,
)
    requires
        items::ids_distinct(host.items),
    ensures
        ({
            let step = tray::remove_next(host, events, origin, ids);
            forall|k: int|
                events.len() <= k < step.poll.events.len() ==> #[trigger] event_is_true(
                    step.poll.events[k],
                    step.host.items,
                )
        }),
{
    if ids.len() > 0 {
        items::law_remove(host.items, ids[0], ids[0]);
        let now = items::removed(host.items, ids[0]);
        assert(!items::has_id(now, ids[0]));
        assert forall|i: int| 0 <= i < now.len() implies (#[trigger] now[i]).id != ids[0] by {}
    }
}

proof fn lemma_message_events_are_true(
    host: TrayHostView,
    events: Seq<TrayEventView>,
    origin: Origin,
    message: MessageView,
    step: Step,
)
    requires
        items::ids_distinct(host.items),
        tray::is_message_step(host, events, origin, message, step),
    ensures
        forall|k: int|
            events.len() <= k < step.poll.events.len() ==> #[trigger] event_is_true(
                step.poll.events[k],
                step.host.items,
            ),
{
    if ends_probe(host, message) {
        let name = host.probe->0.name;
        let item = TrayItemView::from_reply(message.body, name, name, watcher::DEFAULT_ITEM_PATH@);
        items::law_insert(host.items, item, item.id);
        assert(items::has_id(items::inserted(host.items, item), name));
    } else if tray::answers_fetch(host.fetches, message) {
        let at = tray::fetch_position(host.fetches, message.response_serial->0);
        let target = host.fetches[at].target;
        if let Some(Ok(item)) = item::fetched(
            message,
            host.fetches[at].serial,
            target.service_id,
            target.bus_name,
            target.object_path,
        ) {
            items::law_insert(host.items, item, item.id);
            assert(items::has_id(items::inserted(host.items, item), item.id));
            if items::bus_known(host.items, target.bus_name) {
                let i = choose|i: int|
                    0 <= i < host.items.len() && (#[trigger] host.items[i]).bus_name
                        == target.bus_name;
                lemma_bus_position_in_range(host.items, target.bus_name, i);
                let p = items::bus_position(host.items, target.bus_name);
                assert(items::has_id(host.items, host.items[p].id));
            }
        }
    } else if message.typ == MessageType::Signal {
        if let Ok(effect) = watcher::signal_effect(message, host.items, host.names) {
            let all = events + effect.events;
            if let watcher::SignalOutcomeView::Vanished(name, ids) = effect.outcome {
                let now = TrayHostView {
                    names: effect.names,
                    fetches: tray::without_owner(host.fetches, name),
                    ..host
                };
                assert(all =~= events);
                lemma_removal_is_true(now, events, origin, ids);
            } else {
                let ids = watcher::sender_ids(message, host.items);
                assert forall|k: int| events.len() <= k < step.poll.events.len() implies
                    #[trigger] event_is_true(step.poll.events[k], step.host.items) by {
                    let id = ids[k - events.len()];
                    assert(ids.contains(id));
                    items::law_ids_on_bus_are_all_of_them(
                        host.items,
                        message.sender->0,
                        id,
                    );
                }
            }
        }
    }
}

// ---------------------------------------------------------------------------
// What callers ask for

/// The item that is found first under an identifier.
proof fn lemma_found_first(items: Seq<TrayItemView>, id: Seq<char>, at: int)
    requires
        0 <= at < items.len(),
        items[at].id == id,
        forall|k: int| 0 <= k < at ==> (#[trigger] items[k]).id != id,
    ensures
        items::found(items, id) == Some(items[at]),
{
    items::lemma_position(items, id);
    assert(items::has_id(items, id));
    let p = items::position(items, id);
    if at < p {
        assert(items[at].id != id);
    }
}

/// A call of a method of a known item goes to the bus name and to the object path of the item,
/// on the interface of items, with that method and those parameters. There is no call to an item
/// that nobody knows, but an error that names it.
pub proof fn law_calls_go_to_the_known_item(
    items: Seq<TrayItemView>,
    id: Seq<char>,
    at: int,
    method: Seq<char>,
    body: crate::wire::BodyView,
)
    ensures
        0 <= at < items.len() && items[at].id == id && (forall|k: int|
            0 <= k < at ==> (#[trigger] items[k]).id != id) ==> (tray::call_to(
            items,
            id,
            method,
            body,
        ) matches Ok(call) && {
            &&& call.typ == MessageType::Call
            &&& call.destination == Some(items[at].bus_name)
            &&& call.object == Some(items[at].object_path)
            &&& call.interface == Some("org.kde.StatusNotifierItem"@)
            &&& call.member == Some(method)
            &&& call.body == body
        }),
        (forall|k: int| 0 <= k < items.len() ==> (#[trigger] items[k]).id != id) ==> tray::call_to(
            items,
            id,
            method,
            body,
        ) == Err::<MessageView, ErrorView>(ErrorView::ItemNotFound(id)),
{
    if 0 <= at < items.len() && items[at].id == id && (forall|k: int|
        0 <= k < at ==> (#[trigger] items[k]).id != id) {
        lemma_found_first(items, id, at);
        item::law_item_call_goes_to_the_item(
            items[at].bus_name,
            items[at].object_path,
            method,
            body,
        );
    }
    items::lemma_position(items, id);
}

/// The item whose menu is asked for is the one under the identifier, and its menu path is neither
/// empty nor the root. Otherwise there is nothing to ask.
pub proof fn law_menu_belongs_to_the_known_item(items: Seq<TrayItemView>, id: Seq<char>, at: int)
    ensures
        0 <= at < items.len() && items[at].id == id && (forall|k: int|
            0 <= k < at ==> (#[trigger] items[k]).id != id) ==> tray::with_menu(items, id) == if
        items[at].menu_path.len() > 0 && items[at].menu_path != "/"@ {
            Some(items[at])
        } else {
            None
        },
        (forall|k: int| 0 <= k < items.len() ==> (#[trigger] items[k]).id != id)
            ==> tray::with_menu(items, id) is None,
{
    if 0 <= at < items.len() && items[at].id == id && (forall|k: int|
        0 <= k < at ==> (#[trigger] items[k]).id != id) {
        lemma_found_first(items, id, at);
    }
    items::lemma_position(items, id);
}

/// A reply about an item to add adds it under its bus name, at the given path, behind the others
/// where the name is new and else in the place of the item that has it. An error adds nothing and
/// is handed on. Any other message is kept, and the wait goes on.
pub proof fn law_item_to_add_is_added(
    host: TrayHostView,
    message: MessageView,
    serial: u32,
    bus_name: Seq<char>,
    object_path: Seq<char>,
)
    requires
        forall|i: int, j: int|
            0 <= i < j < host.items.len() ==> (#[trigger] host.items[i]).id != (
            #[trigger] host.items[j]).id,
    ensures
        ({
            let (after, outcome) = tray::add_received(
                host,
                message,
                serial,
                bus_name,
                object_path,
            );
            let item = TrayItemView::from_reply(message.body, bus_name, bus_name, object_path);
            if message.response_serial == Some(serial) && message.typ == MessageType::Reply {
                &&& outcome == Some(Ok::<Seq<char>, ErrorView>(bus_name))
                &&& after == (TrayHostView { items: after.items, ..host })
                &&& (forall|i: int|
                    0 <= i < host.items.len() ==> (#[trigger] host.items[i]).id != bus_name)
                    ==> after.items == host.items.push(item)
                &&& forall|i: int|
                    0 <= i < host.items.len() && (#[trigger] host.items[i]).id == bus_name
                        ==> after.items == host.items.update(i, item)
            } else if message.response_serial == Some(serial) && message.typ
                == MessageType::Error {
                &&& after == host
                &&& outcome matches Some(Err(ErrorView::MethodCall(why)))
                    && match message.body.strings(1) {
                    Some(texts) => why == texts[0],
                    None => why.len() == 0,
                }
            } else {
                &&& outcome is None
                &&& after == (TrayHostView { messages: host.messages.push(message), ..host })
            }
        }),
{
    let item = TrayItemView::from_reply(message.body, bus_name, bus_name, object_path);
    items::law_insert_changes_one_place(host.items, item, 0);
    assert forall|i: int| 0 <= i < host.items.len() && (#[trigger] host.items[i]).id
        == bus_name implies items::inserted(host.items, item) == host.items.update(i, item) by {
        items::law_insert_changes_one_place(host.items, item, i);
    }
}

} // verus!
