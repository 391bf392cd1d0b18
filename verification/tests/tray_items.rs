use rustsni::item::{extract_pixmaps_from_param, extract_tooltip_from_param, parse_pixmap_struct};
use rustsni::value::{Key, Value};
use rustsni::{IconPixmap, ItemId, Items, ToolTip, TrayItem};

fn text(s: &str) -> Value {
    Value::Str(s.to_owned())
}

fn bytes(data: &[u8]) -> Value {
    Value::Array(data.iter().map(|b| Value::Byte(*b)).collect())
}

fn variant(value: Value) -> Value {
    Value::Variant(Box::new(value))
}

fn pixmap(w: i32, h: i32, data: &[u8]) -> Value {
    Value::Struct(vec![Value::Int32(w), Value::Int32(h), bytes(data)])
}

fn entry(key: &str, value: Value) -> (Key, Value) {
    (Key::Str(key.to_owned()), variant(value))
}

#[test]
fn tooltip_parse_full() {
    // (sa(iiay)ss) — struct with 4 fields
    let icon_name = text("my-icon");
    let pixmaps = Value::Array(vec![pixmap(1, 1, &[0xFF, 0x11, 0x22, 0x33])]);
    let title = text("Title Text");
    let description = text("Description");

    // Wrap in variant (as Properties.Get returns)
    let param = variant(Value::Struct(vec![icon_name, pixmaps, title, description]));

    let tooltip = extract_tooltip_from_param(&param);
    assert_eq!(tooltip.icon_name, "my-icon");
    assert_eq!(tooltip.title, "Title Text");
    assert_eq!(tooltip.text, "Description");
    let px = tooltip.icon_pixmap.unwrap();
    assert_eq!(px.width, 1);
    assert_eq!(px.height, 1);
    // big-endian [A,R,G,B] → LE [B,G,R,A]
    assert_eq!(&px.data, &[0x33, 0x22, 0x11, 0xFF]);
}

#[test]
fn tooltip_parse_empty_icon_array() {
    let param = variant(Value::Struct(vec![text(""), Value::Array(vec![]), text("T"), text("")]));

    let tooltip = extract_tooltip_from_param(&param);
    assert_eq!(tooltip.icon_name, "");
    assert!(tooltip.icon_pixmap.is_none());
    assert_eq!(tooltip.title, "T");
}

#[test]
fn tooltip_parse_wrong_type_returns_default() {
    let param = Value::Int32(42);
    let tooltip = extract_tooltip_from_param(&param);
    assert_eq!(tooltip, ToolTip::default());
}

#[test]
fn tooltip_parse_short_struct_returns_default() {
    // Only 2 fields, need 4
    let param = variant(Value::Struct(vec![text("a"), text("b")]));
    let tooltip = extract_tooltip_from_param(&param);
    assert_eq!(tooltip, ToolTip::default());
}

#[test]
fn tooltip_default_values() {
    let t = ToolTip::default();
    assert_eq!(t.icon_name, "");
    assert!(t.icon_pixmap.is_none());
    assert_eq!(t.title, "");
    assert_eq!(t.text, "");
}

#[test]
fn tooltip_parse_multiple_pixmaps_takes_first() {
    let pixel_1x1 = pixmap(1, 1, &[0xAA, 0xBB, 0xCC, 0xDD]);
    let pixel_2x1 = pixmap(2, 1, &[0x11, 0x22, 0x33, 0x44, 0x55, 0x66, 0x77, 0x88]);
    let param = variant(Value::Struct(vec![
        text(""),
        Value::Array(vec![pixel_1x1, pixel_2x1]),
        text(""),
        text(""),
    ]));

    let tooltip = extract_tooltip_from_param(&param);
    let px = tooltip.icon_pixmap.unwrap();
    // Should take the first pixmap (1x1), not the second (2x1)
    assert_eq!(px.width, 1);
    assert_eq!(px.height, 1);
}

fn square(side: u32) -> IconPixmap {
    IconPixmap {
        width: side,
        height: side,
        data: vec![0; (side * side * 4) as usize],
    }
}

fn make_test_item() -> TrayItem {
    TrayItem {
        id: ItemId("test".to_owned()),
        bus_name: ":1.1".to_owned(),
        object_path: "/StatusNotifierItem".to_owned(),
        category: String::new(),
        item_id: String::new(),
        title: String::new(),
        status: String::new(),
        window_id: 0,
        icon_theme_path: "/usr/share/icons/hicolor".to_owned(),
        icon_name: String::new(),
        icon_pixmaps: vec![square(16), square(32), square(24)],
        attention_icon_name: String::new(),
        attention_icon_pixmaps: vec![square(16)],
        attention_movie_name: String::new(),
        overlay_icon_name: String::new(),
        overlay_icon_pixmaps: vec![square(8), square(22)],
        item_is_menu: false,
        menu_path: "/MenuBar".to_owned(),
        tooltip: ToolTip::default(),
    }
}

#[test]
fn has_menu_with_path() {
    let item = make_test_item();
    assert!(item.has_menu());
}

#[test]
fn has_menu_empty_path() {
    let mut item = make_test_item();
    item.menu_path = String::new();
    assert!(!item.has_menu());
}

#[test]
fn has_menu_slash_only() {
    let mut item = make_test_item();
    item.menu_path = "/".to_owned();
    assert!(!item.has_menu());
}

#[test]
fn best_icon_pixmap_selects_largest() {
    let item = make_test_item();
    let best = item.best_icon_pixmap().unwrap();
    assert_eq!(best.width, 32);
    assert_eq!(best.height, 32);
}

#[test]
fn best_icon_pixmap_empty() {
    let mut item = make_test_item();
    item.icon_pixmaps.clear();
    assert!(item.best_icon_pixmap().is_none());
}

#[test]
fn best_overlay_icon_pixmap_selects_largest() {
    let item = make_test_item();
    let best = item.best_overlay_icon_pixmap().unwrap();
    assert_eq!(best.width, 22);
}

#[test]
fn best_attention_icon_pixmap_selects_largest() {
    let item = make_test_item();
    let best = item.best_attention_icon_pixmap().unwrap();
    assert_eq!(best.width, 16);
}

#[test]
fn icon_search_paths_with_theme() {
    let item = make_test_item();
    let paths = item.icon_search_paths();
    assert_eq!(
        paths,
        vec!["/usr/share/icons/hicolor", "/usr/share/pixmaps"]
    );
}

#[test]
fn icon_search_paths_without_theme() {
    let mut item = make_test_item();
    item.icon_theme_path = String::new();
    let paths = item.icon_search_paths();
    assert_eq!(paths, vec!["/usr/share/pixmaps"]);
}

#[test]
fn of_equally_large_pixmaps_the_last_is_best() {
    let mut item = make_test_item();
    let mut last = square(32);
    last.data[0] = 7;
    item.icon_pixmaps.push(last);
    assert_eq!(item.best_icon_pixmap().unwrap().data[0], 7);
}

#[test]
fn pixel_counts_beyond_32_bits_are_compared() {
    let mut item = make_test_item();
    let huge = IconPixmap { width: 0x10000, height: 0x10000, data: vec![] };
    item.icon_pixmaps.insert(0, huge);
    assert_eq!(item.best_icon_pixmap().unwrap().width, 0x10000);
}

#[test]
fn pixmaps_that_do_not_decode_are_left_out() {
    let param = variant(Value::Array(vec![
        pixmap(1, 1, &[1, 2, 3, 4]),
        pixmap(1, 1, &[1]),
        Value::Int32(0),
        pixmap(1, 1, &[5, 6, 7, 8]),
    ]));
    let data: Vec<Vec<u8>> =
        extract_pixmaps_from_param(&param).into_iter().map(|p| p.data).collect();
    assert_eq!(data, vec![vec![4, 3, 2, 1], vec![8, 7, 6, 5]]);
    assert!(extract_pixmaps_from_param(&Value::Array(vec![])).is_empty());
    assert!(extract_pixmaps_from_param(&variant(text("x"))).is_empty());
}

#[test]
fn pixmap_struct_needs_numbers_and_bytes() {
    assert!(parse_pixmap_struct(&vec![Value::Int32(1), Value::Int32(1)]).is_none());
    assert!(parse_pixmap_struct(&vec![text("1"), Value::Int32(1), bytes(&[1, 2, 3, 4])]).is_none());
    assert!(parse_pixmap_struct(&vec![Value::Int32(1), text("1"), bytes(&[1, 2, 3, 4])]).is_none());
    assert!(parse_pixmap_struct(&vec![Value::Int32(1), Value::Int32(1), text("")]).is_none());
    // what is not a byte does not count
    let mixed = Value::Array(vec![
        Value::Byte(1),
        text("no byte"),
        Value::Byte(2),
        Value::Byte(3),
        Value::Byte(4),
    ]);
    let px = parse_pixmap_struct(&vec![Value::Int32(1), Value::Int32(1), mixed]).unwrap();
    assert_eq!(px.data, vec![4, 3, 2, 1]);
}

#[test]
fn properties_fill_the_item() {
    let props = Value::Dict(vec![
        entry("Category", text("Communications")),
        entry("Id", text("chat")),
        entry("Title", text("Chat")),
        entry("Status", text("Active")),
        entry("WindowId", Value::Int32(-7)),
        entry("IconThemePath", text("/theme")),
        entry("IconName", text("icon")),
        entry("IconPixmap", Value::Array(vec![pixmap(1, 1, &[1, 2, 3, 4])])),
        entry("AttentionIconName", text("attention")),
        entry("AttentionIconPixmap", Value::Array(vec![pixmap(1, 1, &[2, 2, 2, 2])])),
        entry("AttentionMovieName", text("movie")),
        entry("OverlayIconName", text("overlay")),
        entry("OverlayIconPixmap", Value::Array(vec![pixmap(1, 1, &[3, 3, 3, 3])])),
        entry("ItemIsMenu", Value::Boolean(true)),
        entry("Menu", Value::ObjectPath("/MenuBar".to_owned())),
        entry(
            "ToolTip",
            Value::Struct(vec![text("tip"), Value::Array(vec![]), text("T"), text("D")]),
        ),
        (Key::Other, variant(text("ignored"))),
    ]);
    let item = TrayItem::from_properties(&props, "service", ":1.5", "/Path");
    assert_eq!(item.id, ItemId("service".to_owned()));
    assert_eq!(item.bus_name, ":1.5");
    assert_eq!(item.object_path, "/Path");
    assert_eq!(item.category, "Communications");
    assert_eq!(item.item_id, "chat");
    assert_eq!(item.title, "Chat");
    assert_eq!(item.status, "Active");
    assert_eq!(item.window_id, -7);
    assert_eq!(item.icon_theme_path, "/theme");
    assert_eq!(item.icon_name, "icon");
    assert_eq!(item.icon_pixmaps[0].data, vec![4, 3, 2, 1]);
    assert_eq!(item.attention_icon_name, "attention");
    assert_eq!(item.attention_icon_pixmaps[0].data, vec![2, 2, 2, 2]);
    assert_eq!(item.attention_movie_name, "movie");
    assert_eq!(item.overlay_icon_name, "overlay");
    assert_eq!(item.overlay_icon_pixmaps[0].data, vec![3, 3, 3, 3]);
    assert!(item.item_is_menu);
    assert_eq!(item.menu_path, "/MenuBar");
    assert_eq!(item.tooltip.icon_name, "tip");
    assert_eq!(item.tooltip.title, "T");
    assert_eq!(item.tooltip.text, "D");
}

#[test]
fn properties_of_other_types_are_left_empty() {
    let props = Value::Dict(vec![
        entry("Title", Value::Int32(1)),
        entry("WindowId", text("7")),
        entry("ItemIsMenu", Value::Int32(1)),
        // not in a variant
        (Key::Str("Id".to_owned()), text("chat")),
    ]);
    let item = TrayItem::from_properties(&props, "s", "b", "p");
    assert_eq!(item.title, "");
    assert_eq!(item.window_id, 0);
    assert!(!item.item_is_menu);
    assert_eq!(item.item_id, "");
    let none = TrayItem::from_properties(&Value::Int32(3), "s", "b", "p");
    assert_eq!(none.title, "");
    assert!(none.icon_pixmaps.is_empty());
    assert_eq!(none.id.to_string(), "s");
}

#[test]
fn the_order_of_properties_does_not_matter() {
    let one = Value::Dict(vec![entry("Id", text("chat")), entry("Title", text("Chat"))]);
    let other = Value::Dict(vec![entry("Title", text("Chat")), entry("Id", text("chat"))]);
    for props in [one, other] {
        let item = TrayItem::from_properties(&props, "s", "b", "p");
        assert_eq!(item.item_id, "chat");
        assert_eq!(item.title, "Chat");
    }
}

#[test]
fn items_are_kept_by_identifier() {
    let mut items = Items::new();
    for name in ["a", "b", "c"] {
        let mut item = make_test_item();
        item.id = ItemId(name.to_owned());
        items.insert(item);
    }
    let mut again = make_test_item();
    again.id = ItemId("b".to_owned());
    again.title = "again".to_owned();
    items.insert(again);
    assert_eq!(items.keys(), vec!["a", "b", "c"]);
    assert_eq!(items.get(&ItemId("b".to_owned())).unwrap().title, "again");
    items.remove(&ItemId("a".to_owned()));
    items.remove(&ItemId("unknown".to_owned()));
    assert_eq!(items.len(), 2);
    assert!(items.get(&ItemId("a".to_owned())).is_none());
    assert!(!items.contains_key(&ItemId("a".to_owned())));
    let ids: Vec<&str> = items.values().iter().map(|item| item.id.0.as_str()).collect();
    assert_eq!(ids, vec!["b", "c"]);
    assert_eq!(items.find_on_bus(":1.1"), Some(0));
    assert_eq!(items.find_on_bus(":1.2"), None);
    assert_eq!(items.on_bus(":1.1").len(), 2);
    assert!(!items.knows_name(""));
}
