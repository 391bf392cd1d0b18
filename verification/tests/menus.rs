use rustsni::menu::{
    convert_props, event_pending, extract_prop_value, get_bool_prop, get_bytes_prop, get_int_prop,
    get_str_prop, get_variant, group_properties_of, layout_of, parse_menu_node, EventWait,
};
use rustsni::value::{Key, Value};
use rustsni::PropValue;

fn variant(value: Value) -> Value {
    Value::Variant(Box::new(value))
}

fn make_variant_str(s: &str) -> Value {
    variant(Value::Str(s.to_owned()))
}

fn make_variant_bool(b: bool) -> Value {
    variant(Value::Boolean(b))
}

fn make_variant_i32(n: i32) -> Value {
    variant(Value::Int32(n))
}

fn key(s: &str) -> Key {
    Key::Str(s.to_owned())
}

fn node(id: i32, props: Vec<(Key, Value)>, children: Vec<Value>) -> Value {
    variant(Value::Struct(vec![Value::Int32(id), Value::Dict(props), Value::Array(children)]))
}

#[test]
fn str_prop_found() {
    let mut props = Vec::new();
    props.push((key("label"), make_variant_str("Hello")));
    assert_eq!(get_str_prop(&props, "label"), "Hello");
}

#[test]
fn str_prop_missing() {
    let props = Vec::new();
    assert_eq!(get_str_prop(&props, "label"), "");
}

#[test]
fn bool_prop_found() {
    let mut props = Vec::new();
    props.push((key("enabled"), make_variant_bool(false)));
    assert_eq!(get_bool_prop(&props, "enabled"), Some(false));
}

#[test]
fn bool_prop_missing() {
    let props = Vec::new();
    assert_eq!(get_bool_prop(&props, "enabled"), None);
}

#[test]
fn int_prop_found() {
    let mut props = Vec::new();
    props.push((key("toggle-state"), make_variant_i32(1)));
    assert_eq!(get_int_prop(&props, "toggle-state"), Some(1));
}

#[test]
fn int_prop_missing() {
    let props = Vec::new();
    assert_eq!(get_int_prop(&props, "toggle-state"), None);
}

#[test]
fn bytes_prop_empty() {
    let props = Vec::new();
    assert!(get_bytes_prop(&props, "icon-data").is_empty());
}

#[test]
fn parse_menu_node_full() {
    let mut props = Vec::new();
    props.push((key("label"), make_variant_str("Test")));
    props.push((key("enabled"), make_variant_bool(true)));
    props.push((key("visible"), make_variant_bool(true)));
    props.push((key("icon-name"), make_variant_str("icon")));
    props.push((key("toggle-type"), make_variant_str("checkmark")));
    props.push((key("toggle-state"), make_variant_i32(1)));
    // parse_menu_node expects a Variant wrapping the struct (as in av arrays)
    let node = node(42, props, vec![]);

    let parsed = parse_menu_node(&node).unwrap();
    assert_eq!(parsed.id, 42);
    assert_eq!(parsed.label, "Test");
    assert!(parsed.enabled);
    assert!(parsed.visible);
    assert_eq!(parsed.icon_name, "icon");
    assert_eq!(parsed.toggle_type, "checkmark");
    assert_eq!(parsed.toggle_state, 1);
    assert!(!parsed.is_submenu);
}

#[test]
fn parse_menu_node_wrong_type() {
    let node = Value::Int32(0);
    assert!(parse_menu_node(&node).is_none());
}

#[test]
fn extract_prop_value_str() {
    let p = make_variant_str("hello");
    match extract_prop_value(&p) {
        Some(PropValue::Str(s)) => assert_eq!(s, "hello"),
        _ => panic!("expected Str"),
    }
}

#[test]
fn extract_prop_value_bool() {
    let p = make_variant_bool(true);
    match extract_prop_value(&p) {
        Some(PropValue::Bool(b)) => assert!(b),
        _ => panic!("expected Bool"),
    }
}

#[test]
fn extract_prop_value_int() {
    let p = make_variant_i32(42);
    match extract_prop_value(&p) {
        Some(PropValue::Int(n)) => assert_eq!(n, 42),
        _ => panic!("expected Int"),
    }
}

#[test]
fn extract_prop_value_bytes_variant() {
    let p = variant(Value::Array(vec![Value::Byte(0xAA), Value::Byte(0xBB)]));
    match extract_prop_value(&p) {
        Some(PropValue::Bytes(b)) => assert_eq!(b, vec![0xAA, 0xBB]),
        _ => panic!("expected Bytes"),
    }
}

#[test]
fn extract_prop_value_none_for_struct() {
    let p = Value::Struct(vec![]);
    assert!(extract_prop_value(&p).is_none());
}

#[test]
fn convert_props_basic() {
    let mut dict = Vec::new();
    dict.push((key("label"), make_variant_str("Test")));
    dict.push((key("enabled"), make_variant_bool(false)));
    let result = convert_props(&dict);
    assert_eq!(result.len(), 2);
    let label = result.iter().find(|(k, _)| k == "label").unwrap();
    match &label.1 {
        PropValue::Str(s) => assert_eq!(s, "Test"),
        _ => panic!("expected Str"),
    }
    let enabled = result.iter().find(|(k, _)| k == "enabled").unwrap();
    match &enabled.1 {
        PropValue::Bool(b) => assert!(!b),
        _ => panic!("expected Bool"),
    }
}

#[test]
fn convert_props_skips_what_has_no_value() {
    let dict = vec![
        (key("path"), variant(Value::ObjectPath("/p".to_owned()))),
        (Key::Other, make_variant_str("no name")),
        (key("bare"), Value::Int32(5)),
    ];
    let result = convert_props(&dict);
    assert_eq!(result.len(), 1);
    assert_eq!(result[0].0, "bare");
    assert!(matches!(result[0].1, PropValue::Int(5)));
}

#[test]
fn extract_prop_value_of_bytes() {
    assert!(matches!(extract_prop_value(&variant(Value::Byte(7))),
        Some(PropValue::Bytes(b)) if b == vec![7]));
    assert!(matches!(extract_prop_value(&Value::Array(vec![])),
        Some(PropValue::Bytes(b)) if b.is_empty()));
    let mixed = Value::Array(vec![Value::Byte(1), Value::Int32(2)]);
    assert!(extract_prop_value(&mixed).is_none());
}

#[test]
fn a_property_outside_a_variant_is_not_found() {
    let props = vec![(key("label"), Value::Str("bare".to_owned()))];
    assert!(get_variant(&props, "label").is_none());
    assert_eq!(get_str_prop(&props, "label"), "");
}

#[test]
fn bytes_prop_keeps_the_bytes() {
    let data = Value::Array(vec![Value::Byte(1), Value::Int32(9), Value::Byte(2)]);
    let props = vec![(key("icon-data"), variant(data))];
    assert_eq!(get_bytes_prop(&props, "icon-data"), vec![1, 2]);
}

#[test]
fn a_bare_node_has_defaults() {
    let parsed = parse_menu_node(&node(3, vec![], vec![])).unwrap();
    assert_eq!(parsed.label, "");
    assert!(parsed.enabled && parsed.visible);
    assert_eq!(parsed.toggle_state, -1);
    assert!(!parsed.is_submenu);
    assert!(parsed.children.is_empty());
}

#[test]
fn a_node_with_children_is_a_submenu() {
    let inner = node(8, vec![(key("label"), make_variant_str("Inner"))], vec![]);
    let parsed = parse_menu_node(&node(7, vec![], vec![Value::Int32(0), inner])).unwrap();
    assert!(parsed.is_submenu);
    assert_eq!(parsed.children.len(), 1);
    assert_eq!(parsed.children[0].id, 8);
    assert_eq!(parsed.children[0].label, "Inner");
    let copy = parsed.clone();
    assert_eq!(copy.children[0].label, "Inner");
}

#[test]
fn children_display_makes_a_submenu() {
    let props = vec![(key("children-display"), make_variant_str("submenu"))];
    assert!(parse_menu_node(&node(7, props, vec![])).unwrap().is_submenu);
    // whatever its value
    let props = vec![(key("children-display"), Value::Int32(0))];
    assert!(parse_menu_node(&node(7, props, vec![])).unwrap().is_submenu);
}

#[test]
fn nodes_need_all_three_fields() {
    let short = variant(Value::Struct(vec![Value::Int32(1), Value::Dict(vec![])]));
    assert!(parse_menu_node(&short).is_none());
    let no_id = variant(Value::Struct(vec![
        Value::Str("1".to_owned()),
        Value::Dict(vec![]),
        Value::Array(vec![]),
    ]));
    assert!(parse_menu_node(&no_id).is_none());
    let no_props = variant(Value::Struct(vec![
        Value::Int32(1),
        Value::Array(vec![]),
        Value::Array(vec![]),
    ]));
    assert!(parse_menu_node(&no_props).is_none());
    let no_children = variant(Value::Struct(vec![
        Value::Int32(1),
        Value::Dict(vec![]),
        Value::Dict(vec![]),
    ]));
    assert!(parse_menu_node(&no_children).is_none());
}

#[test]
fn layout_yields_the_children_of_the_root() {
    let root = Value::Struct(vec![
        Value::Int32(0),
        Value::Dict(vec![]),
        Value::Array(vec![node(1, vec![], vec![]), Value::Int32(5), node(2, vec![], vec![])]),
    ]);
    let ids: Vec<i32> = layout_of(&root).iter().map(|n| n.id).collect();
    assert_eq!(ids, vec![1, 2]);
    assert!(layout_of(&Value::Struct(vec![Value::Int32(0)])).is_empty());
    assert!(layout_of(&Value::Int32(0)).is_empty());
}

#[test]
fn group_properties_skip_malformed_elements() {
    let good = Value::Struct(vec![
        Value::Int32(4),
        Value::Dict(vec![(key("label"), make_variant_str("Four"))]),
    ]);
    let no_id = Value::Struct(vec![Value::Str("4".to_owned()), Value::Dict(vec![])]);
    let short = Value::Struct(vec![Value::Int32(5)]);
    let no_dict = Value::Struct(vec![Value::Int32(6), Value::Int32(6)]);
    let list = Value::Array(vec![no_id, good, short, no_dict, Value::Int32(0)]);
    let items = group_properties_of(&list);
    assert_eq!(items.len(), 1);
    assert_eq!(items[0].id, 4);
    assert_eq!(items[0].props.len(), 1);
    assert_eq!(items[0].props[0].0, "label");
    assert!(group_properties_of(&Value::Int32(0)).is_empty());
}

#[test]
fn an_event_is_waited_for_at_most_a_tenth_of_a_second() {
    assert!(matches!(event_pending(0), EventWait::Wait(100_000_000)));
    assert!(matches!(event_pending(99_999_999), EventWait::Wait(1)));
    assert!(matches!(event_pending(100_000_000), EventWait::Done(Ok(()))));
    assert!(matches!(event_pending(u64::MAX), EventWait::Done(Ok(()))));
}
