// What the library reads from bodies that the D-Bus crate has written.

use std::collections::HashMap;

use rustbus::message_builder::MarshalledMessage;
use rustbus::params::{Array, Base, Container, Dict, DictMap, Param, Variant};
use rustbus::signature::{Base as SBase, Container as SContainer, Type};
use rustbus::{ByteOrder, MessageBuilder};
use rustsni::item::read_error_text;
use rustsni::message::{Message, MessageType};
use rustsni::value::{Key, Value};
use rustsni::wire::Body;
use rustsni::TrayItem;

fn little_endian() -> MarshalledMessage {
    MessageBuilder::with_byteorder(ByteOrder::LittleEndian).signal("a.b", "C", "/d").build()
}

fn big_endian() -> MarshalledMessage {
    MessageBuilder::with_byteorder(ByteOrder::BigEndian).signal("a.b", "C", "/d").build()
}

fn body_of(message: &MarshalledMessage, big_endian: bool) -> Body {
    Body {
        signature: message.get_sig().to_owned(),
        bytes: message.get_buf().to_vec(),
        big_endian,
        fds: 0,
    }
}

fn reply_with(body: Body) -> Message {
    let mut reply = Message::list_names().make_response(body);
    reply.typ = MessageType::Reply;
    reply
}

fn in_variant(typ: Type, value: Param<'static, 'static>) -> Param<'static, 'static> {
    Param::Container(Container::Variant(Box::new(Variant { sig: typ, value })))
}

fn properties(entries: Vec<(&'static str, Param<'static, 'static>)>) -> Param<'static, 'static> {
    let mut map = DictMap::new();
    for (name, value) in entries {
        map.insert(Base::String(name.to_owned()), value);
    }
    Param::Container(Container::Dict(Dict {
        key_sig: SBase::String,
        value_sig: Type::Container(SContainer::Variant),
        map,
    }))
}

#[test]
fn strings_are_read_in_either_byte_order() {
    let mut message = little_endian();
    message.body.push_param("one").unwrap();
    message.body.push_param("zwölf").unwrap();
    message.body.push_param("").unwrap();
    message.body.push_param(5u32).unwrap();
    let body = body_of(&message, false);
    assert_eq!(body.read_string().unwrap(), "one");
    assert_eq!(body.read_two_strings().unwrap(), ("one".to_owned(), "zwölf".to_owned()));
    assert_eq!(
        body.read_three_strings().unwrap(),
        ("one".to_owned(), "zwölf".to_owned(), String::new())
    );

    let mut message = big_endian();
    message.body.push_param("one").unwrap();
    message.body.push_param("zwölf").unwrap();
    message.body.push_param("three").unwrap();
    let body = body_of(&message, true);
    assert_eq!(
        body.read_three_strings().unwrap(),
        ("one".to_owned(), "zwölf".to_owned(), "three".to_owned())
    );
    // the wrong byte order makes nonsense of the lengths
    assert!(body_of(&message, false).read_string().is_err());
}

#[test]
fn strings_of_other_types_or_missing_are_errors() {
    assert!(Body::new().read_string().is_err());
    let mut message = little_endian();
    message.body.push_param(5u32).unwrap();
    let number = body_of(&message, false);
    assert!(number.read_string().is_err());
    assert!(number.read_strings().is_err());
    let mut message = little_endian();
    message.body.push_param("one").unwrap();
    let one = body_of(&message, false);
    assert!(one.read_two_strings().is_err());
    assert!(one.read_three_strings().is_err());
    assert!(one.read_u32().is_err());
}

#[test]
fn malformed_bodies_are_errors() {
    let mut message = little_endian();
    message.body.push_param("one").unwrap();
    let mut cut = body_of(&message, false);
    cut.bytes.pop();
    assert!(cut.read_string().is_err());
    let mut zero = body_of(&message, false);
    zero.bytes[5] = 0;
    assert!(zero.read_string().is_err());
    let mut utf8 = body_of(&message, false);
    utf8.bytes[5] = 0xff;
    assert!(utf8.read_string().is_err());
    for signature in ["(", "a", "s(", "sa", "a{s", "z", "ä", ")"] {
        let mut odd = body_of(&message, false);
        odd.signature = signature.to_owned();
        assert!(odd.read_string().is_err());
        assert!(odd.read_u32().is_err());
        assert!(odd.read_strings().is_err());
        assert!(odd.read_param().is_err());
        assert!(odd.read_second_param().is_err());
    }
}

#[test]
fn types_that_cannot_be_parsed_are_errors() {
    // valid signatures, but with types that the reader does not take
    for signature in ["()", "a{bs}"] {
        let odd = Body {
            signature: signature.to_owned(),
            bytes: vec![0; 64],
            big_endian: false,
            fds: 0,
        };
        assert!(odd.read_param().is_err());
    }
    // behind the value that is read they do no harm
    let mut message = little_endian();
    message.body.push_param("one").unwrap();
    let mut behind = body_of(&message, false);
    behind.signature = "sa{bs}".to_owned();
    assert_eq!(behind.read_string().unwrap(), "one");
    assert!(matches!(behind.read_param(), Ok(Value::Str(s)) if s == "one"));
}

#[test]
fn numbers_are_read() {
    let mut message = little_endian();
    message.body.push_param(0x01020304u32).unwrap();
    assert_eq!(body_of(&message, false).read_u32().unwrap(), 0x01020304);
    assert_eq!(body_of(&message, true).read_u32().unwrap(), 0x04030201);
    let mut message = little_endian();
    message.body.push_param(1i32).unwrap();
    assert!(body_of(&message, false).read_u32().is_err());
    assert!(Body::new().read_u32().is_err());
}

#[test]
fn string_arrays_are_read() {
    let names: Vec<&str> = vec![":1.1", "org.freedesktop.DBus", ""];
    let mut message = little_endian();
    message.body.push_param(names).unwrap();
    assert_eq!(
        body_of(&message, false).read_strings().unwrap(),
        vec![":1.1".to_owned(), "org.freedesktop.DBus".to_owned(), String::new()]
    );
    let mut message = little_endian();
    message.body.push_param(Vec::<&str>::new()).unwrap();
    assert!(body_of(&message, false).read_strings().unwrap().is_empty());
    let mut message = little_endian();
    message.body.push_param(vec![1i32]).unwrap();
    assert!(body_of(&message, false).read_strings().is_err());
}

#[test]
fn every_type_of_value_is_told_apart() {
    let mut message = little_endian();
    let values: Vec<Param> = vec![
        Param::Base(Base::Byte(7)),
        Param::Base(Base::Boolean(true)),
        Param::Base(Base::Int32(-5)),
        Param::Base(Base::String("text".to_owned())),
        Param::Base(Base::ObjectPath("/path".to_owned())),
        Param::Base(Base::Uint32(5)),
        Param::Base(Base::Double(0)),
    ];
    message.body.push_old_param(&Param::Container(Container::Struct(values))).unwrap();
    let value = body_of(&message, false).read_param().unwrap();
    match value {
        Value::Struct(fields) => {
            assert_eq!(fields.len(), 7);
            assert!(matches!(fields[0], Value::Byte(7)));
            assert!(matches!(fields[1], Value::Boolean(true)));
            assert!(matches!(fields[2], Value::Int32(-5)));
            assert!(matches!(&fields[3], Value::Str(s) if s == "text"));
            assert!(matches!(&fields[4], Value::ObjectPath(s) if s == "/path"));
            assert!(matches!(fields[5], Value::Other));
            assert!(matches!(fields[6], Value::Other));
        }
        other => panic!("expected a structure, not {:?}", other),
    }
}

#[test]
fn dictionaries_and_variants_are_read() {
    let mut message = little_endian();
    let mut map: HashMap<String, u8> = HashMap::new();
    map.insert("a".to_owned(), 1);
    map.insert("b".to_owned(), 2);
    message.body.push_param(&map).unwrap();
    match body_of(&message, false).read_param().unwrap() {
        Value::Dict(entries) => {
            assert_eq!(entries.len(), 2);
            for (key, value) in entries {
                match (key, value) {
                    (Key::Str(k), Value::Byte(b)) => assert_eq!(map[&k], b),
                    other => panic!("unexpected entry {:?}", other),
                }
            }
        }
        other => panic!("expected a dictionary, not {:?}", other),
    }
    let mut message = little_endian();
    message.body.push_variant(vec![1u8, 2]).unwrap();
    match body_of(&message, false).read_param().unwrap() {
        Value::Variant(inner) => assert!(matches!(*inner, Value::Array(v) if v.len() == 2)),
        other => panic!("expected a variant, not {:?}", other),
    }
    let mut message = little_endian();
    let mut map: HashMap<u32, u8> = HashMap::new();
    map.insert(3, 1);
    message.body.push_param(&map).unwrap();
    match body_of(&message, false).read_param().unwrap() {
        Value::Dict(entries) => assert!(matches!(entries[0].0, Key::Other)),
        other => panic!("expected a dictionary, not {:?}", other),
    }
}

#[test]
fn the_second_parameter_is_read_behind_a_number() {
    let mut message = little_endian();
    message.body.push_param(1u32).unwrap();
    message.body.push_param(-9i32).unwrap();
    let body = body_of(&message, false);
    assert!(matches!(body.read_second_param(), Ok(Value::Int32(-9))));
    let mut message = little_endian();
    message.body.push_param("no number").unwrap();
    message.body.push_param(-9i32).unwrap();
    assert!(body_of(&message, false).read_second_param().is_err());
    let mut message = little_endian();
    message.body.push_param(1u32).unwrap();
    assert!(body_of(&message, false).read_second_param().is_err());
}

#[test]
fn file_descriptors_are_counted() {
    // a body whose only parameter is the first descriptor of the message
    let body = |fds: u16| Body {
        signature: "h".to_owned(),
        bytes: vec![0, 0, 0, 0],
        big_endian: false,
        fds,
    };
    assert!(body(0).read_param().is_err());
    assert!(matches!(body(1).read_param(), Ok(Value::Other)));
}

#[test]
fn an_item_is_read_from_a_reply() {
    let string = Type::Base(SBase::String);
    let props = properties(vec![
        ("Id", in_variant(string.clone(), Param::Base(Base::String("chat".to_owned())))),
        ("Title", in_variant(string, Param::Base(Base::String("Chat".to_owned())))),
        (
            "Menu",
            in_variant(
                Type::Base(SBase::ObjectPath),
                Param::Base(Base::ObjectPath("/MenuBar".to_owned())),
            ),
        ),
        (
            "IconPixmap",
            in_variant(
                Type::Container(SContainer::Array(Box::new(Type::Base(SBase::Byte)))),
                Param::Container(Container::Array(Array {
                    element_sig: Type::Base(SBase::Byte),
                    values: vec![Param::Base(Base::Byte(1))],
                })),
            ),
        ),
    ]);
    let mut message = little_endian();
    message.body.push_old_param(&props).unwrap();
    let reply = reply_with(body_of(&message, false));
    let item = TrayItem::from_get_all_reply(&reply, "service", ":1.5", "/Path").unwrap();
    assert_eq!(item.id.to_string(), "service");
    assert_eq!(item.bus_name, ":1.5");
    assert_eq!(item.object_path, "/Path");
    assert_eq!(item.item_id, "chat");
    assert_eq!(item.title, "Chat");
    assert!(item.has_menu());
    assert!(item.icon_pixmaps.is_empty());
}

#[test]
fn a_reply_without_properties_gives_a_bare_item() {
    let item = TrayItem::from_get_all_reply(&reply_with(Body::new()), "s", "b", "/p").unwrap();
    assert_eq!(item.title, "");
    assert_eq!(item.bus_name, "b");
    let mut message = little_endian();
    message.body.push_param("no dictionary").unwrap();
    let reply = reply_with(body_of(&message, false));
    let item = TrayItem::from_get_all_reply(&reply, "s", "b", "/p").unwrap();
    assert_eq!(item.title, "");
}

#[test]
fn the_text_of_an_error_is_its_first_string() {
    let mut message = little_endian();
    message.body.push_param("No such interface").unwrap();
    assert_eq!(read_error_text(&body_of(&message, false)), "No such interface");
    assert_eq!(read_error_text(&Body::new()), "");
}

#[test]
fn only_the_reply_to_the_call_gives_an_item() {
    let mut reply = reply_with(Body::new());
    reply.response_serial = Some(5);
    let fetched = TrayItem::from_bus_get_all(&reply, 5, "s", "b", "/p");
    assert!(matches!(fetched, Some(Ok(item)) if item.id.to_string() == "s"));
    assert!(TrayItem::from_bus_get_all(&reply, 6, "s", "b", "/p").is_none());
    reply.typ = MessageType::Signal;
    assert!(TrayItem::from_bus_get_all(&reply, 5, "s", "b", "/p").is_none());
    reply.typ = MessageType::Error;
    let mut message = little_endian();
    message.body.push_param("gone").unwrap();
    reply.body = body_of(&message, false);
    let fetched = TrayItem::from_bus_get_all(&reply, 5, "s", "b", "/p");
    assert!(matches!(fetched, Some(Err(rustsni::Error::MethodCall(text))) if text == "gone"));
}
