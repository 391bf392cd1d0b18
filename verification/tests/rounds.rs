// Rounds of polling, played through without a bus.

use rustbus::message_builder::MarshalledMessage;
use rustbus::params::{Base, Container, Dict, DictMap, Param, Variant};
use rustbus::signature::{Base as SBase, Container as SContainer, Type};
use rustbus::{ByteOrder, MessageBuilder};
use rustsni::menu::EventWait;
use rustsni::message::{Message, MessageType};
use rustsni::tray::{Answer, Poll, Request, Turn};
use rustsni::value::{Key, Value};
use rustsni::wire::Body;
use rustsni::{Error, ItemId, TrayEvent, TrayHost};

const MS: u64 = 1_000_000;

fn scratch() -> MarshalledMessage {
    MessageBuilder::with_byteorder(ByteOrder::LittleEndian).signal("a.b", "C", "/d").build()
}

fn body_of(message: &MarshalledMessage) -> Body {
    Body {
        signature: message.get_sig().to_owned(),
        bytes: message.get_buf().to_vec(),
        big_endian: false,
        fds: 0,
    }
}

fn strings(texts: &[&str]) -> Body {
    let mut message = scratch();
    for text in texts {
        message.body.push_param(*text).unwrap();
    }
    body_of(&message)
}

fn properties(id: &str, title: &str) -> Body {
    let mut map = DictMap::new();
    for (name, value) in [("Id", id), ("Title", title), ("Menu", "/MenuBar")] {
        map.insert(
            Base::String(name.to_owned()),
            Param::Container(Container::Variant(Box::new(Variant {
                sig: Type::Base(SBase::String),
                value: Param::Base(Base::String(value.to_owned())),
            }))),
        );
    }
    let mut message = scratch();
    message
        .body
        .push_old_param(&Param::Container(Container::Dict(Dict {
            key_sig: SBase::String,
            value_sig: Type::Container(SContainer::Variant),
            map,
        })))
        .unwrap();
    body_of(&message)
}

fn message(typ: MessageType, body: Body) -> Message {
    Message {
        typ,
        interface: None,
        member: None,
        object: None,
        destination: None,
        sender: None,
        error_name: None,
        serial: None,
        response_serial: None,
        body,
    }
}

fn call(interface: &str, member: &str, object: &str, body: Body) -> Message {
    let mut call = message(MessageType::Call, body);
    call.interface = Some(interface.to_owned());
    call.member = Some(member.to_owned());
    call.object = Some(object.to_owned());
    call.sender = Some(":1.42".to_owned());
    call.serial = Some(900);
    call
}

fn signal(interface: &str, member: &str, sender: &str, body: Body) -> Message {
    let mut signal = message(MessageType::Signal, body);
    signal.interface = Some(interface.to_owned());
    signal.member = Some(member.to_owned());
    signal.sender = Some(sender.to_owned());
    signal
}

fn reply(serial: u32, body: Body) -> Message {
    let mut reply = message(MessageType::Reply, body);
    reply.response_serial = Some(serial);
    reply
}

fn error(serial: u32, text: &str) -> Message {
    let mut error = message(MessageType::Error, strings(&[text]));
    error.response_serial = Some(serial);
    error
}

fn registration(service: &str) -> Message {
    call(
        "org.kde.StatusNotifierWatcher",
        "RegisterStatusNotifierItem",
        "/StatusNotifierWatcher",
        strings(&[service]),
    )
}

fn owner_changed(name: &str, old: &str, new: &str) -> Message {
    signal("org.freedesktop.DBus", "NameOwnerChanged", "org.freedesktop.DBus", strings(&[name, old, new]))
}

/// A bus that hands out the given messages, and remembers what was sent. The first message that
/// is sent gets the serial number 1.
struct Bus {
    socket: Vec<Message>,
    sent: Vec<Message>,
    now: u64,
}

impl Bus {
    fn new(socket: Vec<Message>) -> Bus {
        Bus { socket, sent: Vec::new(), now: 0 }
    }

    fn answer(&mut self, request: Request) -> Result<Answer, Result<Vec<TrayEvent>, Error>> {
        Ok(match request {
            Request::Proceed => Answer::Proceed,
            Request::Send(message) => {
                self.sent.push(message);
                Answer::Sent(self.sent.len() as u32, self.now)
            }
            Request::Receive => panic!("a round does not wait"),
            Request::Read => {
                if self.socket.is_empty() {
                    Answer::TimedOut(self.now)
                } else {
                    Answer::Progress
                }
            }
            Request::Take => {
                if self.socket.is_empty() {
                    Answer::Nothing
                } else {
                    Answer::Received(self.socket.remove(0))
                }
            }
            Request::Finished(events) => return Err(Ok(events)),
            Request::Failed(error) => return Err(Err(error)),
        })
    }

    fn run(&mut self, host: &mut TrayHost) -> Result<Vec<TrayEvent>, Error> {
        let mut turn: Turn = host.poll();
        loop {
            let poll: Poll = turn.poll;
            match self.answer(turn.request) {
                Ok(answer) => turn = host.resume(poll, answer),
                Err(end) => return end,
            }
        }
    }

    fn members(&self) -> Vec<String> {
        self.sent
            .iter()
            .map(|m| m.member.clone().unwrap_or_else(|| "(reply)".to_owned()))
            .collect()
    }
}

fn id(text: &str) -> ItemId {
    ItemId(text.to_owned())
}

fn host_with_item() -> TrayHost {
    let mut host = TrayHost::new(7);
    let mut bus =
        Bus::new(vec![registration("/StatusNotifierItem"), reply(1, properties("chat", "Chat"))]);
    let events = bus.run(&mut host).unwrap();
    assert_eq!(events, vec![TrayEvent::ItemAdded(id(":1.42/StatusNotifierItem"))]);
    host
}

fn only_reply(bus: &Bus) -> &Message {
    assert_eq!(bus.sent.len(), 1);
    let reply = &bus.sent[0];
    assert_eq!(reply.typ, MessageType::Reply);
    assert_eq!(reply.destination.as_deref(), Some(":1.42"));
    assert_eq!(reply.response_serial, Some(900));
    reply
}

fn answer_to(host: &mut TrayHost, call: Message) -> Message {
    let mut bus = Bus::new(vec![call]);
    assert_eq!(bus.run(host).unwrap(), vec![]);
    only_reply(&bus);
    bus.sent.remove(0)
}

#[test]
fn nothing_to_read_gives_no_events() {
    let mut host = TrayHost::new(7);
    let mut bus = Bus::new(vec![]);
    assert_eq!(bus.run(&mut host).unwrap(), vec![]);
    assert!(bus.sent.is_empty());
    assert_eq!(host.items().len(), 0);
}

#[test]
fn a_registration_adds_an_item_and_is_answered() {
    let mut host = TrayHost::new(7);
    let mut bus =
        Bus::new(vec![registration("/StatusNotifierItem"), reply(1, properties("chat", "Chat"))]);
    let events = bus.run(&mut host).unwrap();
    let key = id(":1.42/StatusNotifierItem");
    assert_eq!(events, vec![TrayEvent::ItemAdded(key.clone())]);
    assert_eq!(bus.members(), vec!["GetAll", "StatusNotifierItemRegistered", "(reply)"]);
    assert_eq!(bus.sent[0].destination.as_deref(), Some(":1.42"));
    assert_eq!(bus.sent[0].object.as_deref(), Some("/StatusNotifierItem"));
    assert_eq!(bus.sent[1].body.read_string().unwrap(), ":1.42/StatusNotifierItem");
    assert_eq!(bus.sent[2].response_serial, Some(900));
    let item = host.items().get(&key).unwrap();
    assert_eq!(item.title, "Chat");
    assert_eq!(item.bus_name, ":1.42");
    assert!(host.items().contains_key(&key));
    assert_eq!(host.items().keys(), vec![":1.42/StatusNotifierItem"]);
}

#[test]
fn a_round_does_not_wait_for_properties() {
    let mut host = TrayHost::new(7);
    let mut bus = Bus::new(vec![
        registration("/StatusNotifierItem"),
        call("some.Interface", "Ping", "/", Body::new()),
    ]);
    assert_eq!(bus.run(&mut host).unwrap(), vec![]);
    assert_eq!(bus.members(), vec!["GetAll", "(reply)"]);
    assert_eq!(
        bus.sent[1].error_name.as_deref(),
        Some("org.freedesktop.DBus.Error.UnknownObject")
    );
    assert_eq!(host.items().len(), 0);
    // a round without news leaves the fetch in flight
    let mut bus = Bus::new(vec![]);
    assert_eq!(bus.run(&mut host).unwrap(), vec![]);
    assert!(bus.sent.is_empty());
    // the registration is answered when the properties come
    let mut bus = Bus::new(vec![reply(1, properties("chat", "Chat"))]);
    let key = id(":1.42/StatusNotifierItem");
    assert_eq!(bus.run(&mut host).unwrap(), vec![TrayEvent::ItemAdded(key)]);
    assert_eq!(bus.members(), vec!["StatusNotifierItemRegistered", "(reply)"]);
    assert_eq!(bus.sent[1].typ, MessageType::Reply);
    assert_eq!(bus.sent[1].response_serial, Some(900));
    assert_eq!(bus.sent[1].destination.as_deref(), Some(":1.42"));
    assert_eq!(host.items().at(0).title, "Chat");
    // and only once
    let mut bus = Bus::new(vec![reply(1, properties("chat", "Chat"))]);
    assert_eq!(bus.run(&mut host).unwrap(), vec![]);
    assert!(bus.sent.is_empty());
}

#[test]
fn properties_may_come_in_any_order() {
    let mut host = TrayHost::new(7);
    let mut bus = Bus::new(vec![
        registration("com.a/One"),
        registration("com.b/Two"),
        reply(2, properties("", "Second")),
        reply(1, properties("", "First")),
    ]);
    assert_eq!(
        bus.run(&mut host).unwrap(),
        vec![TrayEvent::ItemAdded(id("com.b/Two")), TrayEvent::ItemAdded(id("com.a/One"))]
    );
    assert_eq!(host.items().get(&id("com.a/One")).unwrap().title, "First");
    assert_eq!(host.items().get(&id("com.b/Two")).unwrap().title, "Second");
}

#[test]
fn registering_again_changes_no_item_but_tells_of_a_change() {
    let mut host = host_with_item();
    let key = id(":1.42/StatusNotifierItem");
    let mut bus = Bus::new(vec![
        registration("/StatusNotifierItem"),
        reply(1, properties("chat", "Other")),
        // another service on the same bus name
        registration(":1.42"),
        reply(4, properties("x", "Other")),
    ]);
    assert_eq!(
        bus.run(&mut host).unwrap(),
        vec![TrayEvent::ItemChanged(key.clone()), TrayEvent::ItemChanged(key)]
    );
    assert_eq!(host.items().len(), 1);
    assert_eq!(host.items().at(0).title, "Chat");
    // both are announced and answered all the same
    assert_eq!(
        bus.members(),
        vec![
            "GetAll", "StatusNotifierItemRegistered", "(reply)",
            "GetAll", "StatusNotifierItemRegistered", "(reply)",
        ]
    );
}

#[test]
fn a_service_that_registers_twice_at_once_is_added_once() {
    let mut host = TrayHost::new(7);
    let mut bus = Bus::new(vec![
        registration("com.a/One"),
        registration("com.a/One"),
        reply(1, properties("", "A")),
        reply(2, properties("", "A")),
    ]);
    assert_eq!(
        bus.run(&mut host).unwrap(),
        vec![TrayEvent::ItemAdded(id("com.a/One")), TrayEvent::ItemChanged(id("com.a/One"))]
    );
    assert_eq!(host.items().len(), 1);
    let replies = bus.sent.iter().filter(|m| m.typ == MessageType::Reply).count();
    assert_eq!(replies, 2);
}

#[test]
fn a_registration_without_properties_is_still_answered() {
    let mut host = TrayHost::new(7);
    let mut bus = Bus::new(vec![registration("com.example.App"), error(1, "no")]);
    assert_eq!(bus.run(&mut host).unwrap(), vec![]);
    assert_eq!(bus.members(), vec!["GetAll", "(reply)"]);
    assert_eq!(bus.sent[0].destination.as_deref(), Some("com.example.App"));
    assert_eq!(bus.sent[0].object.as_deref(), Some("/StatusNotifierItem"));
    assert_eq!(host.items().len(), 0);
    // nor does a call that cannot be sent keep the reply back
    let turn = host.poll();
    let turn = host.resume(turn.poll, Answer::Proceed);
    let turn = host.resume(turn.poll, Answer::Progress);
    let turn = host.resume(turn.poll, Answer::Received(registration("4711-1")));
    match &turn.request {
        Request::Send(call) => assert_eq!(
            call.destination.as_deref(),
            Some("org.freedesktop.StatusNotifierItem-4711-1")
        ),
        other => panic!("expected a call, not {:?}", other),
    }
    let failed = Answer::Failed(rustbus::connection::Error::ConnectionClosed);
    let turn = host.resume(turn.poll, failed);
    match turn.request {
        Request::Send(answer) => {
            assert_eq!(answer.typ, MessageType::Reply);
            assert_eq!(answer.response_serial, Some(900));
        }
        other => panic!("expected a reply, not {:?}", other),
    }
}

#[test]
fn an_unreadable_registration_is_answered_with_an_error() {
    let mut host = TrayHost::new(7);
    let mut bad = registration("x");
    bad.body = Body::new();
    let answer = answer_to(&mut host, bad);
    assert_eq!(answer.error_name.as_deref(), Some("org.freedesktop.DBus.Error.InvalidArgs"));
    assert_eq!(
        answer.body.read_string().unwrap(),
        "Invalid arguments for calls to \
         org.kde.StatusNotifierWatcher.RegisterStatusNotifierItem on object \
         /StatusNotifierWatcher expected signature: s"
    );
    assert_eq!(host.items().len(), 0);
}

#[test]
fn an_item_that_vanishes_before_its_properties_come_is_added_and_removed() {
    let mut host = host_with_item();
    let mut bus = Bus::new(vec![
        registration("com.a/One"),
        owner_changed("com.a", "x", ""),
        reply(1, properties("", "A")),
    ]);
    assert_eq!(
        bus.run(&mut host).unwrap(),
        vec![TrayEvent::ItemAdded(id("com.a/One")), TrayEvent::ItemRemoved(id("com.a/One"))]
    );
    assert_eq!(
        bus.members(),
        vec!["GetAll", "StatusNotifierItemRegistered", "(reply)", "StatusNotifierItemUnregistered"]
    );
    assert_eq!(bus.sent[3].body.read_string().unwrap(), "com.a/One");
    assert_eq!(host.items().keys(), vec![":1.42/StatusNotifierItem"]);
    // without properties there is nothing to add
    let mut bus = Bus::new(vec![
        registration("com.a/One"),
        owner_changed("com.a", "x", ""),
        error(1, "no reply"),
    ]);
    assert_eq!(bus.run(&mut host).unwrap(), vec![]);
    assert_eq!(bus.members(), vec!["GetAll", "(reply)"]);
    // a name that was lost before the registration is another matter
    let mut bus = Bus::new(vec![
        owner_changed("com.a", "x", ""),
        registration("com.a/One"),
        reply(1, properties("", "A")),
    ]);
    assert_eq!(bus.run(&mut host).unwrap(), vec![TrayEvent::ItemAdded(id("com.a/One"))]);
    // nor does one that is read again come back
    let mut host = host_with_item();
    let mut bus = Bus::new(vec![
        signal("org.kde.StatusNotifierItem", "NewTitle", ":1.42", Body::new()),
        owner_changed(":1.42", "x", ""),
        reply(1, properties("chat", "Renamed")),
    ]);
    assert_eq!(
        bus.run(&mut host).unwrap(),
        vec![TrayEvent::ItemRemoved(id(":1.42/StatusNotifierItem"))]
    );
    assert_eq!(host.items().len(), 0);
}

#[test]
fn calls_during_a_wait_are_handled_in_the_next_round() {
    let mut host = host_with_item();
    let ping = || call("some.Interface", "Ping", "/", Body::new());
    // while each of the answers about a menu is awaited
    assert!(host.get_menu_reply(ping(), 20).is_none());
    assert!(host.get_menu_group_properties_reply(ping(), 20).is_none());
    assert!(host.get_menu_property_reply(ping(), 20).is_none());
    assert!(matches!(host.menu_click_reply(ping(), 20, 0), EventWait::Wait(_)));
    // also where it is the last message that is waited for
    assert!(matches!(host.menu_click_reply(ping(), 20, 100 * MS), EventWait::Done(Ok(()))));
    // the awaited answers are not kept
    assert!(matches!(host.get_menu_reply(error(20, "no"), 20), Some(Ok(nodes)) if nodes.is_empty()));
    assert!(host.get_menu_group_properties_reply(reply(20, Body::new()), 20).is_some());
    assert!(matches!(host.get_menu_property_reply(reply(20, Body::new()), 20), Some(None)));
    assert!(matches!(host.menu_click_reply(reply(20, Body::new()), 20, 0), EventWait::Done(Ok(()))));
    // nor are signals
    let gone = || owner_changed(":1.42", "x", "");
    assert!(host.get_menu_reply(gone(), 20).is_none());
    assert!(host.get_menu_group_properties_reply(gone(), 20).is_none());
    assert!(host.get_menu_property_reply(gone(), 20).is_none());
    assert!(matches!(host.menu_click_reply(gone(), 20, 0), EventWait::Wait(_)));
    let mut bus = Bus::new(vec![]);
    assert_eq!(bus.run(&mut host).unwrap(), vec![]);
    assert_eq!(host.items().len(), 1);
    assert_eq!(bus.sent.len(), 5);
    for answer in &bus.sent {
        assert_eq!(
            answer.error_name.as_deref(),
            Some("org.freedesktop.DBus.Error.UnknownObject")
        );
    }
    let mut bus = Bus::new(vec![]);
    bus.run(&mut host).unwrap();
    assert!(bus.sent.is_empty());
}

#[test]
fn kept_messages_are_handled_in_order_before_others() {
    let mut host = TrayHost::new(7);
    assert!(host.get_menu_reply(registration("com.a/One"), 20).is_none());
    assert!(host.get_menu_reply(registration("com.b/Two"), 20).is_none());
    let mut bus = Bus::new(vec![
        registration("com.c/Three"),
        reply(1, properties("", "A")),
        reply(2, properties("", "B")),
        reply(3, properties("", "C")),
    ]);
    bus.run(&mut host).unwrap();
    assert_eq!(bus.sent[0].destination.as_deref(), Some("com.a"));
    assert_eq!(bus.sent[1].destination.as_deref(), Some("com.b"));
    assert_eq!(bus.sent[2].destination.as_deref(), Some("com.c"));
    assert_eq!(host.items().keys(), vec!["com.a/One", "com.b/Two", "com.c/Three"]);
}

#[test]
fn answers_that_were_kept_are_taken_from_the_queue() {
    let mut host = TrayHost::new(7);
    let mut bus =
        Bus::new(vec![registration("com.a/One"), owner_changed(":1.50", "", ":1.50")]);
    bus.run(&mut host).unwrap();
    assert_eq!(bus.members(), vec!["GetAll", "GetAll"]);
    // the answers to the fetch and to the probe arrive while a menu is awaited
    assert!(host.get_menu_reply(reply(1, properties("", "A")), 20).is_none());
    assert!(host.get_menu_reply(reply(2, properties("mail", "Mail")), 20).is_none());
    let mut bus = Bus::new(vec![]);
    assert_eq!(
        bus.run(&mut host).unwrap(),
        vec![TrayEvent::ItemAdded(id("com.a/One")), TrayEvent::ItemAdded(id(":1.50"))]
    );
    assert_eq!(
        bus.members(),
        vec!["StatusNotifierItemRegistered", "(reply)", "StatusNotifierItemRegistered"]
    );
    assert_eq!(host.items().get(&id(":1.50")).unwrap().title, "Mail");
}

#[test]
fn a_vanished_connection_takes_its_items_along() {
    let mut host = host_with_item();
    let mut bus = Bus::new(vec![
        registration("com.a/One"),
        registration("com.b/Two"),
        reply(1, properties("", "A")),
        reply(2, properties("", "B")),
    ]);
    bus.run(&mut host).unwrap();
    assert_eq!(host.items().len(), 3);
    let mut bus = Bus::new(vec![owner_changed("com.a", "x", "")]);
    assert_eq!(bus.run(&mut host).unwrap(), vec![TrayEvent::ItemRemoved(id("com.a/One"))]);
    assert_eq!(bus.members(), vec!["StatusNotifierItemUnregistered"]);
    assert_eq!(bus.sent[0].body.read_string().unwrap(), "com.a/One");
    assert_eq!(host.items().keys(), vec![":1.42/StatusNotifierItem", "com.b/Two"]);
    // a name that changes hands is still there
    let mut bus = Bus::new(vec![owner_changed("com.b", "x", "y")]);
    assert_eq!(bus.run(&mut host).unwrap(), vec![]);
    assert_eq!(host.items().len(), 2);
}

#[test]
fn an_unreadable_owner_change_fails_the_round() {
    let mut host = host_with_item();
    let mut bad = owner_changed(":1.42", "x", "");
    bad.body = strings(&[":1.42", "x"]);
    let mut bus = Bus::new(vec![bad]);
    assert!(matches!(bus.run(&mut host), Err(Error::Unmarshal(_))));
    assert_eq!(host.items().len(), 1);
}

#[test]
fn an_item_that_changes_is_read_again() {
    let mut host = host_with_item();
    let mut bus = Bus::new(vec![
        signal("org.kde.StatusNotifierItem", "NewTitle", ":1.42", Body::new()),
        reply(1, properties("chat", "Renamed")),
    ]);
    let key = id(":1.42/StatusNotifierItem");
    assert_eq!(bus.run(&mut host).unwrap(), vec![TrayEvent::ItemChanged(key.clone())]);
    assert_eq!(host.items().get(&key).unwrap().title, "Renamed");
    assert_eq!(host.items().get(&key).unwrap().object_path, "/StatusNotifierItem");
    assert_eq!(host.items().len(), 1);
    // a failure to read leaves it as it was
    let mut bus = Bus::new(vec![
        signal("org.kde.StatusNotifierItem", "NewTitle", ":1.42", Body::new()),
        error(1, "no"),
    ]);
    assert_eq!(bus.run(&mut host).unwrap(), vec![]);
    assert_eq!(host.items().get(&key).unwrap().title, "Renamed");
    // an unknown sender is no reason to read anything
    let mut bus =
        Bus::new(vec![signal("org.kde.StatusNotifierItem", "NewTitle", ":1.7", Body::new())]);
    assert_eq!(bus.run(&mut host).unwrap(), vec![]);
    assert!(bus.sent.is_empty());
}

#[test]
fn menu_signals_become_events() {
    let mut host = host_with_item();
    let key = id(":1.42/StatusNotifierItem");
    let menu = |member: &str, sender: &str| {
        signal("com.canonical.dbusmenu", member, sender, Body::new())
    };
    let mut bus = Bus::new(vec![
        menu("LayoutUpdated", ":1.42"),
        menu("ItemsPropertiesUpdated", ":1.42"),
        menu("ItemActivationRequested", ":1.42"),
        menu("LayoutUpdated", ":1.7"),
        menu("LayoutUpdated", ""),
        menu("SomethingElse", ":1.42"),
    ]);
    assert_eq!(
        bus.run(&mut host).unwrap(),
        vec![
            TrayEvent::MenuChanged(key.clone()),
            TrayEvent::MenuChanged(key.clone()),
            TrayEvent::MenuActivationRequested(key),
        ]
    );
}

#[test]
fn replies_and_errors_to_nothing_are_ignored() {
    let mut host = host_with_item();
    let mut bus = Bus::new(vec![reply(55, Body::new()), error(56, "x")]);
    assert_eq!(bus.run(&mut host).unwrap(), vec![]);
    assert!(bus.sent.is_empty());
}

#[test]
fn introspection_is_answered_on_every_path() {
    let mut host = TrayHost::new(7);
    let introspect =
        |object: &str| call("org.freedesktop.DBus.Introspectable", "Introspect", object, Body::new());
    let at_watcher = answer_to(&mut host, introspect("/StatusNotifierWatcher"));
    let xml = at_watcher.body.read_string().unwrap();
    for name in [
        "RegisterStatusNotifierItem",
        "RegisterStatusNotifierHost",
        "GetHostServiceName",
        "RegisteredStatusNotifierItems",
        "IsStatusNotifierHostRegistered",
        "ProtocolVersion",
        "StatusNotifierItemRegistered",
        "StatusNotifierItemUnregistered",
        "StatusNotifierHostRegistered",
        "StatusNotifierHostUnregistered",
    ] {
        assert!(xml.contains(&format!("name=\"{name}\"")));
    }
    let elsewhere = answer_to(&mut host, introspect("/"));
    let xml = elsewhere.body.read_string().unwrap();
    assert!(xml.contains("<node name=\"StatusNotifierWatcher\"/>"));
    assert!(!xml.contains("interface"));
}

#[test]
fn calls_on_other_objects_are_errors() {
    let mut host = TrayHost::new(7);
    let answer = answer_to(&mut host, call("x.y", "Z", "/nowhere", Body::new()));
    assert_eq!(
        answer.error_name.as_deref(),
        Some("org.freedesktop.DBus.Error.UnknownObject")
    );
    assert_eq!(
        answer.body.read_string().unwrap(),
        "This service does not implement the object path: /nowhere"
    );
}

#[test]
fn unknown_methods_are_errors() {
    let mut host = TrayHost::new(7);
    for interface in
        ["x.y", "org.kde.StatusNotifierWatcher", "org.freedesktop.DBus.Properties"]
    {
        let answer =
            answer_to(&mut host, call(interface, "Nothing", "/StatusNotifierWatcher", Body::new()));
        assert_eq!(
            answer.error_name.as_deref(),
            Some("org.freedesktop.DBus.Error.UnknownMethod")
        );
        assert_eq!(
            answer.body.read_string().unwrap(),
            format!("No calls to {interface}.Nothing are accepted for object /StatusNotifierWatcher")
        );
    }
}

#[test]
fn hosts_can_register_and_ask_for_the_host_name() {
    let mut host = TrayHost::new(4711);
    let watcher = |member: &str| {
        call("org.kde.StatusNotifierWatcher", member, "/StatusNotifierWatcher", Body::new())
    };
    let answer = answer_to(&mut host, watcher("RegisterStatusNotifierHost"));
    assert_eq!(answer.body.signature, "");
    assert_eq!(answer.error_name, None);
    let answer = answer_to(&mut host, watcher("GetHostServiceName"));
    assert_eq!(answer.body.read_string().unwrap(), "org.freedesktop.StatusNotifierHost-4711");
    assert_eq!(host.host_name(), "org.freedesktop.StatusNotifierHost-4711");
}

fn get(interface: &str, property: &str) -> Message {
    call(
        "org.freedesktop.DBus.Properties",
        "Get",
        "/StatusNotifierWatcher",
        strings(&[interface, property]),
    )
}

fn inner(answer: &Message) -> Value {
    match answer.body.read_param().unwrap() {
        Value::Variant(inner) => *inner,
        other => panic!("expected a variant, not {:?}", other),
    }
}

fn texts(value: &Value) -> Vec<String> {
    match value {
        Value::Array(values) => values
            .iter()
            .map(|v| match v {
                Value::Str(s) => s.clone(),
                other => panic!("expected a string, not {:?}", other),
            })
            .collect(),
        other => panic!("expected an array, not {:?}", other),
    }
}

#[test]
fn watcher_properties_can_be_read_one_by_one() {
    let mut host = host_with_item();
    let iface = "org.kde.StatusNotifierWatcher";
    let answer = answer_to(&mut host, get(iface, "RegisteredStatusNotifierItems"));
    assert_eq!(answer.body.signature, "v");
    assert_eq!(texts(&inner(&answer)), vec![":1.42/StatusNotifierItem"]);
    let answer = answer_to(&mut host, get(iface, "IsStatusNotifierHostRegistered"));
    assert!(matches!(inner(&answer), Value::Boolean(true)));
    let answer = answer_to(&mut host, get(iface, "ProtocolVersion"));
    assert!(matches!(inner(&answer), Value::Int32(0)));
    let answer = answer_to(&mut host, get(iface, "Nothing"));
    assert_eq!(
        answer.error_name.as_deref(),
        Some("org.freedesktop.DBus.Error.UnknownProperty")
    );
    assert_eq!(answer.body.read_string().unwrap(), "Unknown property: Nothing");
    let answer = answer_to(&mut host, get("x.y", "ProtocolVersion"));
    assert_eq!(
        answer.error_name.as_deref(),
        Some("org.freedesktop.DBus.Error.UnknownProperty")
    );
    assert_eq!(answer.body.read_string().unwrap(), "Unknown interface: x.y");
}

#[test]
fn a_property_call_without_parameters_is_answered_with_an_error() {
    let mut host = TrayHost::new(7);
    let mut bad = get("a", "b");
    bad.body = strings(&["a"]);
    let answer = answer_to(&mut host, bad);
    assert_eq!(answer.error_name.as_deref(), Some("org.freedesktop.DBus.Error.InvalidArgs"));
    assert_eq!(
        answer.body.read_string().unwrap(),
        "Invalid arguments for calls to org.freedesktop.DBus.Properties.Get on object \
         /StatusNotifierWatcher expected signature: ss"
    );
}

#[test]
fn watcher_properties_can_be_read_at_once() {
    let mut host = host_with_item();
    let get_all = || {
        call("org.freedesktop.DBus.Properties", "GetAll", "/StatusNotifierWatcher", Body::new())
    };
    let answer = answer_to(&mut host, get_all());
    assert_eq!(answer.body.signature, "a{sv}");
    let entries = match answer.body.read_param().unwrap() {
        Value::Dict(entries) => entries,
        other => panic!("expected a dictionary, not {:?}", other),
    };
    assert_eq!(entries.len(), 3);
    for (key, value) in entries {
        let name = match key {
            Key::Str(name) => name,
            Key::Other => panic!("expected a string key"),
        };
        let inner = match value {
            Value::Variant(inner) => *inner,
            other => panic!("expected a variant, not {:?}", other),
        };
        match name.as_str() {
            "RegisteredStatusNotifierItems" => {
                assert_eq!(texts(&inner), vec![":1.42/StatusNotifierItem"])
            }
            "IsStatusNotifierHostRegistered" => assert!(matches!(inner, Value::Boolean(true))),
            "ProtocolVersion" => assert!(matches!(inner, Value::Int32(0))),
            other => panic!("unexpected property {}", other),
        }
    }
    // an identifier that D-Bus cannot carry
    assert!(matches!(
        host.add_item_reply(reply(3, Body::new()), 3, "a\0b", "/p"),
        Some(Ok(_))
    ));
    let answer = answer_to(&mut host, get_all());
    assert_eq!(answer.error_name.as_deref(), Some("org.freedesktop.DBus.Error.Failed"));
    assert_eq!(
        answer.body.read_string().unwrap(),
        "An item has an identifier that cannot be written"
    );
}

#[test]
fn a_new_connection_is_probed_and_added() {
    let mut host = TrayHost::new(7);
    let mut bus = Bus::new(vec![owner_changed(":1.50", "", ":1.50")]);
    assert_eq!(bus.run(&mut host).unwrap(), vec![]);
    assert_eq!(bus.members(), vec!["GetAll"]);
    assert_eq!(bus.sent[0].destination.as_deref(), Some(":1.50"));
    assert_eq!(bus.sent[0].object.as_deref(), Some("/StatusNotifierItem"));
    let mut bus = Bus::new(vec![reply(1, properties("mail", "Mail"))]);
    assert_eq!(bus.run(&mut host).unwrap(), vec![TrayEvent::ItemAdded(id(":1.50"))]);
    assert_eq!(bus.members(), vec!["StatusNotifierItemRegistered"]);
    assert_eq!(host.items().get(&id(":1.50")).unwrap().title, "Mail");
}

#[test]
fn a_probe_that_is_refused_adds_nothing() {
    let mut host = TrayHost::new(7);
    Bus::new(vec![owner_changed(":1.50", "", ":1.50")]).run(&mut host).unwrap();
    let mut bus = Bus::new(vec![error(1, "UnknownInterface")]);
    assert_eq!(bus.run(&mut host).unwrap(), vec![]);
    assert_eq!(host.items().len(), 0);
    assert!(bus.sent.is_empty());
}

#[test]
fn a_probed_item_with_a_known_id_is_left_out() {
    let mut host = host_with_item();
    Bus::new(vec![owner_changed(":1.50", "", ":1.50")]).run(&mut host).unwrap();
    let mut bus = Bus::new(vec![reply(1, properties("chat", "Again"))]);
    assert_eq!(bus.run(&mut host).unwrap(), vec![]);
    assert_eq!(host.items().len(), 1);
    assert!(bus.sent.is_empty());
}

#[test]
fn probed_items_without_an_id_are_not_the_same() {
    let mut host = TrayHost::new(7);
    for name in [":1.50", ":1.51"] {
        Bus::new(vec![owner_changed(name, "", name)]).run(&mut host).unwrap();
        let mut bus = Bus::new(vec![reply(1, properties("", "Nameless"))]);
        assert_eq!(bus.run(&mut host).unwrap(), vec![TrayEvent::ItemAdded(id(name))]);
    }
    assert_eq!(host.items().len(), 2);
}

#[test]
fn names_that_are_not_unique_names_are_not_probed() {
    let mut host = TrayHost::new(7);
    let mut bus = Bus::new(vec![
        owner_changed("org.example", "", ":1.50"),
        owner_changed(":1.51", ":1.51", ":1.52"),
        owner_changed(":1.53", "", ""),
    ]);
    bus.run(&mut host).unwrap();
    assert!(bus.sent.is_empty());
}

#[test]
fn one_name_is_probed_per_round_and_the_newest_first() {
    let mut host = TrayHost::new(7);
    let mut bus = Bus::new(vec![
        owner_changed(":1.50", "", ":1.50"),
        owner_changed(":1.51", "", ":1.51"),
        owner_changed(":1.50", "", ":1.50"),
    ]);
    bus.run(&mut host).unwrap();
    assert_eq!(bus.sent.len(), 1);
    assert_eq!(bus.sent[0].destination.as_deref(), Some(":1.51"));
    // the first probe is still in flight
    let mut bus = Bus::new(vec![]);
    bus.run(&mut host).unwrap();
    assert!(bus.sent.is_empty());
    let mut bus = Bus::new(vec![error(1, "no")]);
    bus.run(&mut host).unwrap();
    assert_eq!(bus.sent.len(), 1);
    assert_eq!(bus.sent[0].destination.as_deref(), Some(":1.50"));
}

#[test]
fn a_probe_is_retried_three_times_and_then_given_up() {
    let mut host = TrayHost::new(7);
    let mut bus = Bus::new(vec![owner_changed(":1.50", "", ":1.50")]);
    bus.run(&mut host).unwrap();
    let mut probes = bus.sent.len();
    let mut now = 0;
    for _ in 0..10 {
        // just before the time is over nothing happens
        let mut bus = Bus::new(vec![]);
        bus.now = now + 500 * MS - 1;
        bus.run(&mut host).unwrap();
        assert!(bus.sent.is_empty());
        now += 500 * MS;
        let mut bus = Bus::new(vec![]);
        bus.now = now;
        bus.run(&mut host).unwrap();
        probes += bus.sent.len();
    }
    assert_eq!(probes, 4);
    // forgotten: it is tried afresh when it appears again
    let mut bus = Bus::new(vec![owner_changed(":1.50", "", ":1.50")]);
    bus.now = now;
    bus.run(&mut host).unwrap();
    assert_eq!(bus.sent.len(), 1);
}

#[test]
fn shutdown_is_told_in_the_next_round() {
    let mut host = host_with_item();
    host.shutdown_sent();
    let mut bus = Bus::new(vec![owner_changed(":1.42", "x", "")]);
    assert_eq!(
        bus.run(&mut host).unwrap(),
        vec![
            TrayEvent::HostShutdown,
            TrayEvent::ItemRemoved(id(":1.42/StatusNotifierItem")),
        ]
    );
    assert_eq!(Bus::new(vec![]).run(&mut host).unwrap(), vec![]);
}

/// The identifiers that are known to someone who knew `ids` and is told of the events.
fn replay(mut ids: Vec<String>, events: &[TrayEvent]) -> Vec<String> {
    for event in events {
        match event {
            TrayEvent::ItemAdded(id) => {
                if !ids.contains(&id.0) {
                    ids.push(id.0.clone());
                }
            }
            TrayEvent::ItemRemoved(id) => ids.retain(|known| *known != id.0),
            _ => {}
        }
    }
    ids
}

#[test]
fn events_tell_which_items_there_are() {
    let mut host = host_with_item();
    let mut ids: Vec<String> = host.items().keys().iter().map(|id| id.to_string()).collect();
    for socket in [
        vec![
            registration("com.a/One"),
            registration("com.b/Two"),
            reply(2, properties("", "B")),
            reply(1, properties("", "A")),
            registration("com.a/One"),
            owner_changed(":1.42", "x", ""),
        ],
        vec![owner_changed(":1.50", "", ":1.50"), owner_changed("com.b", "x", "")],
        vec![
            reply(2, properties("mail", "Mail")),
            signal("org.kde.StatusNotifierItem", "NewIcon", "com.a", Body::new()),
        ],
    ] {
        let events = Bus::new(socket).run(&mut host).unwrap();
        ids = replay(ids, &events);
        assert_eq!(ids, host.items().keys());
    }
    assert_eq!(ids, vec!["com.a/One", ":1.50"]);
}

#[test]
fn a_connection_that_fails_ends_the_round() {
    let mut host = host_with_item();
    let turn = host.poll();
    let turn = host.resume(turn.poll, Answer::Proceed);
    assert!(matches!(turn.request, Request::Read));
    let turn = host.resume(
        turn.poll,
        Answer::Failed(rustbus::connection::Error::ConnectionClosed),
    );
    assert!(matches!(
        turn.request,
        Request::Failed(Error::Bus(rustbus::connection::Error::ConnectionClosed))
    ));
    // a reply that cannot be sent ends it too
    let turn = host.poll();
    let turn = host.resume(turn.poll, Answer::Proceed);
    let turn = host.resume(turn.poll, Answer::Progress);
    let turn = host.resume(
        turn.poll,
        Answer::Received(call("x.y", "Z", "/", Body::new())),
    );
    assert!(matches!(turn.request, Request::Send(_)));
    let turn = host.resume(
        turn.poll,
        Answer::Failed(rustbus::connection::Error::ConnectionClosed),
    );
    assert!(matches!(turn.request, Request::Failed(Error::Bus(_))));
}

#[test]
fn calls_to_items_need_a_known_item() {
    let host = host_with_item();
    let key = id(":1.42/StatusNotifierItem");
    for (call, member, signature) in [
        (host.activate(&key, 1, 2), "Activate", "ii"),
        (host.context_menu(&key, 1, 2), "ContextMenu", "ii"),
        (host.secondary_activate(&key, 1, 2), "SecondaryActivate", "ii"),
        (host.scroll(&key, 3, "vertical"), "Scroll", "is"),
        (host.provide_xdg_activation_token(&key, "t"), "ProvideXdgActivationToken", "s"),
    ] {
        let call = call.unwrap();
        assert_eq!(call.member.as_deref(), Some(member));
        assert_eq!(call.destination.as_deref(), Some(":1.42"));
        assert_eq!(call.object.as_deref(), Some("/StatusNotifierItem"));
        assert_eq!(call.interface.as_deref(), Some("org.kde.StatusNotifierItem"));
        assert_eq!(call.body.signature, signature);
    }
    let other = id("other");
    for call in [
        host.activate(&other, 1, 2),
        host.context_menu(&other, 1, 2),
        host.secondary_activate(&other, 1, 2),
        host.scroll(&other, 3, "vertical"),
        host.provide_xdg_activation_token(&other, "t"),
    ] {
        assert!(matches!(call, Err(Error::ItemNotFound(missing)) if missing == other));
    }
}

#[test]
fn menus_are_asked_for_where_there_is_one() {
    let mut host = host_with_item();
    let key = id(":1.42/StatusNotifierItem");
    for (call, member) in [
        (host.get_menu(&key, 0), "GetLayout"),
        (host.menu_click(&key, 5), "Event"),
        (host.get_menu_group_properties(&key, &[1, 2], &["label"]), "GetGroupProperties"),
        (host.get_menu_property(&key, 5, "label"), "GetProperty"),
    ] {
        let call = call.unwrap();
        assert_eq!(call.member.as_deref(), Some(member));
        assert_eq!(call.destination.as_deref(), Some(":1.42"));
        assert_eq!(call.object.as_deref(), Some("/MenuBar"));
    }
    // without a menu path, and without an item
    assert!(matches!(
        host.add_item_reply(reply(3, Body::new()), 3, ":1.9", "/p"),
        Some(Ok(_))
    ));
    for missing in [id(":1.9"), id("other")] {
        assert!(host.get_menu(&missing, 0).is_none());
        assert!(host.menu_click(&missing, 5).is_none());
        assert!(host.get_menu_group_properties(&missing, &[], &[]).is_none());
        assert!(host.get_menu_property(&missing, 5, "label").is_none());
    }
}

#[test]
fn an_item_can_be_added_by_its_bus_name() {
    let mut host = TrayHost::new(7);
    let kept = call("x.y", "Z", "/", Body::new());
    assert!(host.add_item_reply(kept, 3, ":1.9", "/Item").is_none());
    let added = host.add_item_reply(reply(3, properties("mail", "Mail")), 3, ":1.9", "/Item");
    assert!(matches!(&added, Some(Ok(key)) if *key == id(":1.9")));
    let item = host.items().get(&id(":1.9")).unwrap();
    assert_eq!(item.title, "Mail");
    assert_eq!(item.object_path, "/Item");
    // adding it again replaces it
    host.add_item_reply(reply(4, properties("mail", "Post")), 4, ":1.9", "/Item");
    assert_eq!(host.items().len(), 1);
    assert_eq!(host.items().at(0).title, "Post");
    let refused = host.add_item_reply(error(5, "no"), 5, ":1.10", "/Item");
    assert!(matches!(refused, Some(Err(Error::MethodCall(text))) if text == "no"));
    // what arrived meanwhile is handled in the next round
    let mut bus = Bus::new(vec![]);
    bus.run(&mut host).unwrap();
    assert_eq!(bus.sent.len(), 1);
}
