// What menus reply.

use std::collections::HashMap;

use rustbus::message_builder::MarshalledMessage;
use rustbus::params::{Array, Base, Container, Dict, DictMap, Param, Variant};
use rustbus::signature::{Base as SBase, Container as SContainer, StructTypes, Type};
use rustbus::{ByteOrder, MessageBuilder};
use rustsni::menu::{event_reply, group_properties_reply, layout_reply, property_reply, EventWait};
use rustsni::message::{Message, MessageType};
use rustsni::wire::Body;
use rustsni::{Error, PropValue};

fn scratch() -> MarshalledMessage {
    MessageBuilder::with_byteorder(ByteOrder::LittleEndian).signal("a.b", "C", "/d").build()
}

fn body_of(message: &MarshalledMessage) -> Body {
    Body {
        signature: message.get_sig().to_owned(),
        bytes: message.get_buf().to_vec(),
        big_endian: false,
        fds: 0,
    }
}

fn message(typ: MessageType, serial: u32, body: Body) -> Message {
    let mut message = Message::list_names().make_response(body);
    message.typ = typ;
    message.response_serial = Some(serial);
    message
}

fn dict_of_variants(label: &str) -> Param<'static, 'static> {
    let mut map = DictMap::new();
    map.insert(
        Base::String("label".to_owned()),
        Param::Container(Container::Variant(Box::new(Variant {
            sig: Type::Base(SBase::String),
            value: Param::Base(Base::String(label.to_owned())),
        }))),
    );
    map.insert(
        Base::String("enabled".to_owned()),
        Param::Container(Container::Variant(Box::new(Variant {
            sig: Type::Base(SBase::Boolean),
            value: Param::Base(Base::Boolean(false)),
        }))),
    );
    Param::Container(Container::Dict(Dict {
        key_sig: SBase::String,
        value_sig: Type::Container(SContainer::Variant),
        map,
    }))
}

fn variants() -> Type {
    Type::Container(SContainer::Variant)
}

fn node_type() -> Type {
    let props = SContainer::Dict(SBase::String, Box::new(variants()));
    Type::Container(SContainer::Struct(
        StructTypes::new(vec![
            Type::Base(SBase::Int32),
            Type::Container(props),
            Type::Container(SContainer::Array(Box::new(variants()))),
        ])
        .unwrap(),
    ))
}

fn node(
    id: i32,
    label: &str,
    children: Vec<Param<'static, 'static>>,
) -> Param<'static, 'static> {
    Param::Container(Container::Struct(vec![
        Param::Base(Base::Int32(id)),
        dict_of_variants(label),
        Param::Container(Container::Array(Array {
            element_sig: variants(),
            values: children
                .into_iter()
                .map(|child| {
                    Param::Container(Container::Variant(Box::new(Variant {
                        sig: node_type(),
                        value: child,
                    })))
                })
                .collect(),
        })),
    ]))
}

fn layout() -> Body {
    let root = node(0, "root", vec![node(1, "One", vec![node(2, "Two", vec![])]), node(3, "Three", vec![])]);
    let mut message = scratch();
    message.body.push_param(77u32).unwrap();
    message.body.push_old_param(&root).unwrap();
    body_of(&message)
}

#[test]
fn a_layout_is_read_from_the_reply() {
    let reply = message(MessageType::Reply, 5, layout());
    let nodes = layout_reply(&reply, 5).unwrap().unwrap();
    assert_eq!(nodes.len(), 2);
    assert_eq!(nodes[0].id, 1);
    assert_eq!(nodes[0].label, "One");
    assert!(!nodes[0].enabled);
    assert!(nodes[0].visible);
    assert!(nodes[0].is_submenu);
    assert_eq!(nodes[0].children[0].id, 2);
    assert_eq!(nodes[1].label, "Three");
    assert!(!nodes[1].is_submenu);
}

#[test]
fn a_layout_without_revision_is_an_error() {
    let mut number = scratch();
    number.body.push_param("no revision").unwrap();
    let reply = message(MessageType::Reply, 5, body_of(&number));
    assert!(matches!(layout_reply(&reply, 5), Some(Err(Error::Unmarshal(_)))));
    // without anything behind the revision it is empty
    let mut number = scratch();
    number.body.push_param(1u32).unwrap();
    let reply = message(MessageType::Reply, 5, body_of(&number));
    assert!(matches!(layout_reply(&reply, 5), Some(Ok(nodes)) if nodes.is_empty()));
    let mut number = scratch();
    number.body.push_param(1u32).unwrap();
    number.body.push_param("no structure").unwrap();
    let reply = message(MessageType::Reply, 5, body_of(&number));
    assert!(matches!(layout_reply(&reply, 5), Some(Ok(nodes)) if nodes.is_empty()));
}

#[test]
fn replies_to_other_calls_and_errors_give_nothing() {
    let other = message(MessageType::Reply, 6, layout());
    assert!(layout_reply(&other, 5).is_none());
    assert!(group_properties_reply(&other, 5).is_none());
    assert!(property_reply(&other, 5).is_none());
    let other = message(MessageType::Error, 6, layout());
    assert!(layout_reply(&other, 5).is_none());
    assert!(group_properties_reply(&other, 5).is_none());
    assert!(property_reply(&other, 5).is_none());
    let error = message(MessageType::Error, 5, layout());
    assert!(matches!(layout_reply(&error, 5), Some(Ok(nodes)) if nodes.is_empty()));
    assert!(matches!(group_properties_reply(&error, 5), Some(items) if items.is_empty()));
    assert!(matches!(property_reply(&error, 5), Some(None)));
    for typ in [MessageType::Signal, MessageType::Call] {
        let skipped = message(typ, 5, layout());
        assert!(layout_reply(&skipped, 5).is_none());
        assert!(group_properties_reply(&skipped, 5).is_none());
        assert!(property_reply(&skipped, 5).is_none());
    }
}

#[test]
fn group_properties_are_read_from_the_reply() {
    let element = |id: i32, label: &str| {
        Param::Container(Container::Struct(vec![
            Param::Base(Base::Int32(id)),
            dict_of_variants(label),
        ]))
    };
    let props = SContainer::Dict(SBase::String, Box::new(variants()));
    let element_sig = Type::Container(SContainer::Struct(
        StructTypes::new(vec![Type::Base(SBase::Int32), Type::Container(props)]).unwrap(),
    ));
    let mut list = scratch();
    list.body
        .push_old_param(&Param::Container(Container::Array(Array {
            element_sig,
            values: vec![element(4, "Four"), element(9, "Nine")],
        })))
        .unwrap();
    let reply = message(MessageType::Reply, 5, body_of(&list));
    let items = group_properties_reply(&reply, 5).unwrap();
    assert_eq!(items.len(), 2);
    assert_eq!(items[0].id, 4);
    assert_eq!(items[1].id, 9);
    for (item, label) in [(&items[0], "Four"), (&items[1], "Nine")] {
        assert_eq!(item.props.len(), 2);
        let found = item.props.iter().find(|(k, _)| k == "label").unwrap();
        assert!(matches!(&found.1, PropValue::Str(s) if s == label));
        let found = item.props.iter().find(|(k, _)| k == "enabled").unwrap();
        assert!(matches!(&found.1, PropValue::Bool(false)));
    }
    let broken = message(MessageType::Reply, 5, Body::new());
    assert!(group_properties_reply(&broken, 5).unwrap().is_empty());
}

#[test]
fn a_property_is_read_from_the_reply() {
    let mut value = scratch();
    value.body.push_variant("Label").unwrap();
    let reply = message(MessageType::Reply, 5, body_of(&value));
    assert!(matches!(property_reply(&reply, 5), Some(Some(PropValue::Str(s))) if s == "Label"));
    let mut value = scratch();
    let map: HashMap<String, u32> = HashMap::new();
    value.body.push_param(&map).unwrap();
    let reply = message(MessageType::Reply, 5, body_of(&value));
    assert!(matches!(property_reply(&reply, 5), Some(None)));
    let broken = message(MessageType::Reply, 5, Body::new());
    assert!(matches!(property_reply(&broken, 5), Some(None)));
}

#[test]
fn the_reply_to_an_event_ends_the_wait() {
    let reply = message(MessageType::Reply, 5, Body::new());
    assert!(matches!(event_reply(&reply, 5, 0), EventWait::Done(Ok(()))));
    assert!(matches!(event_reply(&reply, 6, 30_000_000), EventWait::Wait(70_000_000)));
    assert!(matches!(event_reply(&reply, 6, 100_000_000), EventWait::Done(Ok(()))));
    let mut text = scratch();
    text.body.push_param("no such item").unwrap();
    let error = message(MessageType::Error, 5, body_of(&text));
    assert!(matches!(
        event_reply(&error, 5, 0),
        EventWait::Done(Err(Error::MethodCall(text))) if text == "no such item"
    ));
    assert!(matches!(event_reply(&error, 6, 0), EventWait::Wait(100_000_000)));
    let signal = message(MessageType::Signal, 5, Body::new());
    assert!(matches!(event_reply(&signal, 5, 0), EventWait::Wait(100_000_000)));
}
