// The messages that the library builds, held against those of the D-Bus crate.

use rustbus::message_builder::{DynamicHeader, MarshalledMessage};
use rustbus::{standard_messages, ByteOrder, MessageBuilder};
use rustsni::item::{call_method, call_method_i32_str, call_method_str};
use rustsni::message::{Message, MessageType};
use rustsni::wire::Body;
use rustsni::{menu, watcher, TrayHost, TrayItem};

fn assert_same(ours: &Message, theirs: &MarshalledMessage) {
    let header = &theirs.dynheader;
    let typ = match ours.typ {
        MessageType::Signal => rustbus::MessageType::Signal,
        MessageType::Error => rustbus::MessageType::Error,
        MessageType::Call => rustbus::MessageType::Call,
        MessageType::Reply => rustbus::MessageType::Reply,
        MessageType::Invalid => rustbus::MessageType::Invalid,
    };
    assert_eq!(typ, theirs.typ);
    assert_eq!(ours.interface, header.interface);
    assert_eq!(ours.member, header.member);
    assert_eq!(ours.object, header.object);
    assert_eq!(ours.destination, header.destination);
    assert_eq!(ours.sender, header.sender);
    assert_eq!(ours.error_name, header.error_name);
    assert_eq!(ours.serial, header.serial);
    assert_eq!(ours.response_serial, header.response_serial);
    assert_eq!(ours.body.signature, theirs.get_sig());
    assert_eq!(ours.body.bytes, theirs.get_buf());
    assert!(!ours.body.big_endian);
    assert_eq!(ours.body.fds, 0);
}

fn little_endian() -> MessageBuilder {
    MessageBuilder::with_byteorder(ByteOrder::LittleEndian)
}

fn header() -> DynamicHeader {
    let mut header = DynamicHeader::default();
    header.interface = Some("some.Interface".to_owned());
    header.member = Some("Member".to_owned());
    header.object = Some("/object".to_owned());
    header.sender = Some(":1.5".to_owned());
    header.serial = Some(77);
    header
}

fn incoming() -> Message {
    let header = header();
    Message {
        typ: MessageType::Call,
        interface: header.interface,
        member: header.member,
        object: header.object,
        destination: None,
        sender: header.sender,
        error_name: None,
        serial: header.serial,
        response_serial: None,
        body: Body::new(),
    }
}

#[test]
fn bus_calls_are_those_of_the_crate() {
    assert_same(&Message::request_name("org.x", 4), &standard_messages::request_name("org.x", 4));
    assert_same(&Message::add_match("type='signal'"), &standard_messages::add_match("type='signal'"));
    assert_same(&Message::list_names(), &standard_messages::list_names());
}

#[test]
fn responses_are_those_of_the_crate() {
    assert_same(&incoming().make_response(Body::new()), &header().make_response());
    assert_same(
        &incoming().make_error_response("some.Error", "text"),
        &header().make_error_response("some.Error", Some("text".to_owned())),
    );
    assert_same(&incoming().unknown_method(), &standard_messages::unknown_method(&header()));
    assert_same(
        &incoming().invalid_args("ss"),
        &standard_messages::invalid_args(&header(), Some("ss")),
    );
    let mut bare = incoming();
    bare.interface = None;
    bare.member = None;
    bare.object = None;
    let mut bare_header = header();
    bare_header.interface = None;
    bare_header.member = None;
    bare_header.object = None;
    assert_same(&bare.unknown_method(), &standard_messages::unknown_method(&bare_header));
    assert_same(
        &bare.invalid_args("s"),
        &standard_messages::invalid_args(&bare_header, Some("s")),
    );
}

#[test]
fn get_all_call_is_that_of_the_crate() {
    let mut call = little_endian()
        .call("GetAll")
        .on("/Item")
        .with_interface("org.freedesktop.DBus.Properties")
        .at(":1.7")
        .build();
    call.body.push_param("org.kde.StatusNotifierItem").unwrap();
    assert_same(&TrayItem::send_get_all(":1.7", "/Item"), &call);
    assert_same(&TrayHost::new(1).add_item(":1.7", "/Item"), &call);
}

#[test]
fn item_calls_are_those_of_the_crate() {
    let mut call = little_endian()
        .call("Activate")
        .on("/Item")
        .with_interface("org.kde.StatusNotifierItem")
        .at(":1.7")
        .build();
    call.body.push_param(-3i32).unwrap();
    call.body.push_param(i32::MAX).unwrap();
    assert_same(&call_method(":1.7", "/Item", "Activate", -3, i32::MAX), &call);

    let mut call = little_endian()
        .call("Token")
        .on("/Item")
        .with_interface("org.kde.StatusNotifierItem")
        .at(":1.7")
        .build();
    call.body.push_param("täxt").unwrap();
    assert_same(&call_method_str(":1.7", "/Item", "Token", "täxt"), &call);

    let mut call = little_endian()
        .call("Scroll")
        .on("/Item")
        .with_interface("org.kde.StatusNotifierItem")
        .at(":1.7")
        .build();
    call.body.push_param(i32::MIN).unwrap();
    call.body.push_param("vertical").unwrap();
    assert_same(&call_method_i32_str(":1.7", "/Item", "Scroll", i32::MIN, "vertical"), &call);
}

fn menu_builder(member: &str) -> MarshalledMessage {
    little_endian()
        .call(member)
        .on("/Menu")
        .with_interface("com.canonical.dbusmenu")
        .at(":1.7")
        .build()
}

#[test]
fn menu_calls_are_those_of_the_crate() {
    let mut call = menu_builder("GetLayout");
    call.body.push_param(5i32).unwrap();
    call.body.push_param(-1i32).unwrap();
    call.body.push_param(Vec::<&str>::new()).unwrap();
    assert_same(&menu::get_layout(":1.7", "/Menu", 5), &call);

    let mut call = menu_builder("GetGroupProperties");
    let ids: &[i32] = &[1, -2, 3];
    let names: &[&str] = &["label", "", "icon-name"];
    call.body.push_param(ids).unwrap();
    call.body.push_param(names).unwrap();
    assert_same(&menu::get_group_properties(":1.7", "/Menu", ids, names), &call);

    let mut call = menu_builder("GetProperty");
    call.body.push_param(9i32).unwrap();
    call.body.push_param("label").unwrap();
    assert_same(&menu::get_property(":1.7", "/Menu", 9, "label"), &call);

    let mut call = menu_builder("Event");
    call.body.push_param(9i32).unwrap();
    call.body.push_param("clicked").unwrap();
    call.body.push_variant(0i32).unwrap();
    call.body.push_param(0u32).unwrap();
    assert_same(&menu::event(":1.7", "/Menu", 9, "clicked"), &call);
    assert_same(&menu::fire_click(":1.7", "/Menu", 9), &call);
    assert_same(&rustsni::fire_menu_click(":1.7", "/Menu", 9), &call);
}

#[test]
fn watcher_signals_are_those_of_the_crate() {
    for (ours, member) in [
        (watcher::registered_signal(":1.7/Item"), "StatusNotifierItemRegistered"),
        (watcher::unregistered_signal(":1.7/Item"), "StatusNotifierItemUnregistered"),
    ] {
        let mut signal = little_endian()
            .signal("org.kde.StatusNotifierWatcher", member, "/StatusNotifierWatcher")
            .build();
        signal.body.push_param(":1.7/Item").unwrap();
        assert_same(&ours, &signal);
        assert_eq!(ours.body.read_string().unwrap(), ":1.7/Item");
    }
    for (ours, member) in [
        (watcher::host_registered_signal(), "StatusNotifierHostRegistered"),
        (watcher::host_unregistered_signal(), "StatusNotifierHostUnregistered"),
        (TrayHost::new(1).shutdown(), "StatusNotifierHostUnregistered"),
    ] {
        let signal = little_endian()
            .signal("org.kde.StatusNotifierWatcher", member, "/StatusNotifierWatcher")
            .build();
        assert_same(&ours, &signal);
    }
}

// The exact bytes of each type of parameter.

#[test]
fn wire_format_of_numbers_and_strings() {
    let call = call_method_i32_str("b", "/o", "m", -2, "abc");
    assert_eq!(call.body.signature, "is");
    assert_eq!(
        call.body.bytes,
        vec![0xfe, 0xff, 0xff, 0xff, 3, 0, 0, 0, b'a', b'b', b'c', 0]
    );
    // the number behind the string is aligned
    let name = Message::request_name("ab", 0x01020304);
    assert_eq!(name.body.signature, "su");
    assert_eq!(
        name.body.bytes,
        vec![2, 0, 0, 0, b'a', b'b', 0, 0, 4, 3, 2, 1]
    );
}

#[test]
fn wire_format_of_arrays_and_variants() {
    let call = menu::get_group_properties("b", "/o", &[7], &["a", "bc"]);
    assert_eq!(call.body.signature, "aias");
    assert_eq!(
        call.body.bytes,
        vec![
            4, 0, 0, 0, 7, 0, 0, 0, // ai
            15, 0, 0, 0, 1, 0, 0, 0, b'a', 0, 0, 0, 2, 0, 0, 0, b'b', b'c', 0, // as
        ]
    );
    let event = menu::event("b", "/o", 1, "x");
    assert_eq!(event.body.signature, "isvu");
    assert_eq!(
        event.body.bytes,
        vec![
            1, 0, 0, 0, // i
            1, 0, 0, 0, b'x', 0, // s
            1, b'i', 0, 0, 0, 0, 0, 0, 0, 0, // v
            0, 0, 0, 0, // u
        ]
    );
}
