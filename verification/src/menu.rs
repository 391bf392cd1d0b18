//! `com.canonical.dbusmenu` support.
//!
//! The client side of the DBusMenu protocol, which StatusNotifierItems use to expose
//! hierarchical menus over D-Bus: the calls to send, and what the replies say.
//!
//! Menu items are identified by numeric IDs and carry a dictionary of properties
//! (label, icon, enabled, visible, toggle state, etc.).

use vstd::prelude::*;

use crate::error::{Error, ErrorView};
use crate::item;
use crate::message::{Message, MessageType, MessageView};
use crate::value::{self, Key, Value, ValueView};
use crate::wire::{Body, BodyView};

verus! {

/// An owned property value from the DBusMenu protocol.
///
/// Matches the variant types used in DBusMenu property dictionaries.
#[derive(Debug, Clone)]
pub enum PropValue {
    /// A string property (e.g. `"label"`, `"icon-name"`, `"toggle-type"`).
    Str(String),
    /// A boolean property (e.g. `"enabled"`, `"visible"`).
    Bool(bool),
    /// An integer property (e.g. `"toggle-state"`, item id).
    Int(i32),
    /// A byte-array property (e.g. `"icon-data"` as raw PNG).
    Bytes(Vec<u8>),
}

/// Properties for a single menu item, as `GetGroupProperties` returns them.
#[derive(Debug, Clone)]
pub struct MenuItemProps {
    /// Numeric ID of the menu item.
    pub id: i32,
    /// Key-value property pairs (property name and value).
    pub props: Vec<(String, PropValue)>,
}

/// A node in the DBusMenu layout tree.
///
/// Nodes are arranged recursively: each node may have `children` that are
/// themselves `MenuNode`s, forming the full menu hierarchy.
#[derive(Debug)]
pub struct MenuNode {
    /// Numeric ID of this menu item.
    pub id: i32,
    /// Display label (underscores indicate access keys per freedesktop convention).
    pub label: String,
    /// Whether the item can be activated.
    pub enabled: bool,
    /// Whether the item is visible in the menu.
    pub visible: bool,
    /// Freedesktop-compliant icon name.
    pub icon_name: String,
    /// Raw icon data (typically PNG bytes).
    pub icon_data: Vec<u8>,
    /// Toggle behaviour: `""` (none), `"checkmark"`, or `"radio"`.
    pub toggle_type: String,
    /// Toggle state: `0` (off), `1` (on), or `-1` (indeterminate / no toggle).
    pub toggle_state: i32,
    /// Whether this node has children or has `children-display` set.
    pub is_submenu: bool,
    /// Child menu items (populated when `is_submenu` is true).
    pub children: Vec<MenuNode>,
}

/// What a [`PropValue`] holds.
pub enum PropValueView {
    Str(Seq<char>),
    Bool(bool),
    Int(i32),
    Bytes(Seq<u8>),
}

impl View for PropValue {
    type V = PropValueView;

    open spec fn view(&self) -> PropValueView {
        match self {
            PropValue::Str(s) => PropValueView::Str(s@),
            PropValue::Bool(b) => PropValueView::Bool(*b),
            PropValue::Int(n) => PropValueView::Int(*n),
            PropValue::Bytes(bytes) => PropValueView::Bytes(bytes@),
        }
    }
}

/// What a [`MenuItemProps`] holds.
pub struct MenuItemPropsView {
    pub id: i32,
    pub props: Seq<(Seq<char>, PropValueView)>,
}

/// The contents of a row of properties.
pub open spec fn prop_views(props: Seq<(String, PropValue)>) -> Seq<(Seq<char>, PropValueView)> {
    Seq::new(props.len(), |i: int| (props[i].0@, props[i].1@))
}

impl View for MenuItemProps {
    type V = MenuItemPropsView;

    open spec fn view(&self) -> MenuItemPropsView {
        MenuItemPropsView { id: self.id, props: prop_views(self.props@) }
    }
}

/// What a [`MenuNode`] holds.
pub struct MenuNodeView {
    pub id: i32,
    pub label: Seq<char>,
    pub enabled: bool,
    pub visible: bool,
    pub icon_name: Seq<char>,
    pub icon_data: Seq<u8>,
    pub toggle_type: Seq<char>,
    pub toggle_state: i32,
    pub is_submenu: bool,
    pub children: Seq<MenuNodeView>,
}

impl MenuNode {
    /// The node as plain mathematics.
    pub open spec fn model(self) -> MenuNodeView
        decreases self,
    {
        MenuNodeView {
            id: self.id,
            label: self.label@,
            enabled: self.enabled,
            visible: self.visible,
            icon_name: self.icon_name@,
            icon_data: self.icon_data@,
            toggle_type: self.toggle_type@,
            toggle_state: self.toggle_state,
            is_submenu: self.is_submenu,
            children: node_models(self.children@),
        }
    }
}

impl View for MenuNode {
    type V = MenuNodeView;

    open spec fn view(&self) -> MenuNodeView {
        self.model()
    }
}

/// The nodes of a row as plain mathematics.
pub open spec fn node_models(nodes: Seq<MenuNode>) -> Seq<MenuNodeView>
    decreases nodes,
{
    Seq::new(
        nodes.len(),
        |i: int|
            if 0 <= i < nodes.len() {
                nodes[i].model()
            } else {
                arbitrary()
            },
    )
}

impl Clone for MenuNode {
    fn clone(&self) -> (res: Self)
        ensures
            res@ == self@,
    {
        copy_node(self)
    }
}

fn copy_node(node: &MenuNode) -> (res: MenuNode)
    ensures
        res@ == node@,
    decreases node,
{
    let icon_data: Vec<u8> = node.icon_data.clone();
    assert(icon_data@ =~= node.icon_data@);
    MenuNode {
        id: node.id,
        label: node.label.clone(),
        enabled: node.enabled,
        visible: node.visible,
        icon_name: node.icon_name.clone(),
        icon_data,
        toggle_type: node.toggle_type.clone(),
        toggle_state: node.toggle_state,
        is_submenu: node.is_submenu,
        children: copy_nodes(&node.children),
    }
}

fn copy_nodes(nodes: &Vec<MenuNode>) -> (res: Vec<MenuNode>)
    ensures
        node_models(res@) == node_models(nodes@),
    decreases nodes,
{
    let mut out: Vec<MenuNode> = Vec::new();
    let mut i: usize = 0;
    while i < nodes.len()
        invariant
            i <= nodes@.len(),
            out@.len() == i,
            forall|k: int| 0 <= k < i ==> (#[trigger] out@[k])@ == nodes@[k]@,
        decreases nodes@.len() - i,
    {
        out.push(copy_node(&nodes[i]));
        i = i + 1;
    }
    assert(node_models(out@) =~= node_models(nodes@)) by {
        assert forall|k: int| 0 <= k < out@.len() implies node_models(out@)[k] == node_models(
            nodes@,
        )[k] by {
            assert(out@[k]@ == nodes@[k]@);
        }
    }
    out
}

// ---------------------------------------------------------------------------
// What values say

/// The string property `key`, empty where it is missing or something else.
pub open spec fn str_prop(props: Map<Seq<char>, ValueView>, key: Seq<char>) -> Seq<char> {
    match value::variant_at(props, key) {
        Some(ValueView::Str(s)) => s,
        _ => seq![],
    }
}

/// The boolean property `key`, where there is one.
pub open spec fn bool_prop(props: Map<Seq<char>, ValueView>, key: Seq<char>) -> Option<bool> {
    match value::variant_at(props, key) {
        Some(ValueView::Boolean(b)) => Some(b),
        _ => None,
    }
}

/// The number property `key`, where there is one.
pub open spec fn int_prop(props: Map<Seq<char>, ValueView>, key: Seq<char>) -> Option<i32> {
    match value::variant_at(props, key) {
        Some(ValueView::Int32(n)) => Some(n),
        _ => None,
    }
}

/// The bytes in the array property `key`, none where it is missing or something else.
pub open spec fn bytes_prop(props: Map<Seq<char>, ValueView>, key: Seq<char>) -> Seq<u8> {
    match value::variant_at(props, key) {
        Some(ValueView::Array(values)) => value::bytes_among(values),
        _ => seq![],
    }
}

/// The property value that a value stands for, in a variant or not. A single byte counts as
/// an array of one; an array stands for something only where it holds nothing but bytes.
pub open spec fn prop_value(value: ValueView) -> Option<PropValueView> {
    let inner = match value {
        ValueView::Variant(inner) => *inner,
        other => other,
    };
    match inner {
        ValueView::Str(s) => Some(PropValueView::Str(s)),
        ValueView::Boolean(b) => Some(PropValueView::Bool(b)),
        ValueView::Int32(n) => Some(PropValueView::Int(n)),
        ValueView::Byte(b) => Some(PropValueView::Bytes(seq![b])),
        ValueView::Array(values) => if value::bytes_among(values).len() == values.len() {
            Some(PropValueView::Bytes(value::bytes_among(values)))
        } else {
            None
        },
        _ => None,
    }
}

/// The entries with a string key and a property value, in their order.
pub open spec fn converted(entries: Seq<(Key, Value)>) -> Seq<(Seq<char>, PropValueView)>
    decreases entries.len(),
{
    if entries.len() == 0 {
        seq![]
    } else {
        let before = converted(entries.drop_last());
        match (entries.last().0, prop_value(entries.last().1@)) {
            (Key::Str(name), Some(value)) => before.push((name@, value)),
            _ => before,
        }
    }
}

/// The menu node in a variant that holds a structure `(ia{sv}av)`, with its children.
/// Further fields are ignored. Anything else is no menu node.
pub open spec fn menu_node(value: ValueView) -> Option<MenuNodeView>
    decreases value,
{
    match value {
        ValueView::Variant(inner) => match *inner {
            ValueView::Struct(fields) => if fields.len() < 3 {
                None
            } else {
                match (fields[0], fields[1], fields[2]) {
                    (
                        ValueView::Int32(id),
                        ValueView::Dict(props),
                        ValueView::Array(children),
                    ) => Some(node_with(id, props, menu_nodes(children))),
                    _ => None,
                }
            },
            _ => None,
        },
        _ => None,
    }
}

/// The menu nodes of those among `values` that are one, in their order.
pub open spec fn menu_nodes(values: Seq<ValueView>) -> Seq<MenuNodeView>
    decreases values,
{
    if values.len() == 0 {
        seq![]
    } else {
        let before = menu_nodes(values.drop_last());
        match menu_node(values.last()) {
            Some(node) => before.push(node),
            None => before,
        }
    }
}

/// The menu node with the given properties and children. An item is enabled and visible
/// unless it says otherwise, and its toggle state is unknown unless it says what it is.
pub open spec fn node_with(
    id: i32,
    props: Map<Seq<char>, ValueView>,
    children: Seq<MenuNodeView>,
) -> MenuNodeView {
    MenuNodeView {
        id,
        label: str_prop(props, "label"@),
        enabled: bool_prop(props, "enabled"@) != Some(false),
        visible: bool_prop(props, "visible"@) != Some(false),
        icon_name: str_prop(props, "icon-name"@),
        icon_data: bytes_prop(props, "icon-data"@),
        toggle_type: str_prop(props, "toggle-type"@),
        toggle_state: match int_prop(props, "toggle-state"@) {
            Some(n) => n,
            None => (-1) as i32,
        },
        is_submenu: props.contains_key("children-display"@) || children.len() > 0,
        children,
    }
}

/// The menu nodes below the root that a layout holds: the children of a structure
/// `(ia{sv}av)`. Anything else has none.
pub open spec fn layout_nodes(root: ValueView) -> Seq<MenuNodeView> {
    match root {
        ValueView::Struct(fields) => if fields.len() < 3 {
            seq![]
        } else {
            match fields[2] {
                ValueView::Array(children) => menu_nodes(children),
                _ => seq![],
            }
        },
        _ => seq![],
    }
}

// ---------------------------------------------------------------------------
// Reading values

/// Look up a key among the entries and return what the variant under it holds.
pub fn get_variant<'a>(props: &'a Vec<(Key, Value)>, key: &str) -> (res: Option<&'a Value>)
    ensures
        match res {
            Some(value) => value::variant_at(value::entry_map(props@), key@) == Some(value@),
            None => value::variant_at(value::entry_map(props@), key@) is None,
        },
{
    value::variant_under(props, key)
}

/// The string property `key`, empty where it is missing or something else.
pub fn get_str_prop(props: &Vec<(Key, Value)>, key: &str) -> (res: String)
    ensures
        res@ == str_prop(value::entry_map(props@), key@),
{
    match get_variant(props, key) {
        Some(Value::Str(s)) => s.clone(),
        _ => {
            let res: String = String::new();
            assert(res@ =~= seq![]);
            res
        },
    }
}

/// The boolean property `key`, where there is one.
pub fn get_bool_prop(props: &Vec<(Key, Value)>, key: &str) -> (res: Option<bool>)
    ensures
        res == bool_prop(value::entry_map(props@), key@),
{
    match get_variant(props, key) {
        Some(Value::Boolean(b)) => Some(*b),
        _ => None,
    }
}

/// The number property `key`, where there is one.
pub fn get_int_prop(props: &Vec<(Key, Value)>, key: &str) -> (res: Option<i32>)
    ensures
        res == int_prop(value::entry_map(props@), key@),
{
    match get_variant(props, key) {
        Some(Value::Int32(n)) => Some(*n),
        _ => None,
    }
}

/// The bytes in the array property `key`, none where it is missing or something else.
pub fn get_bytes_prop(props: &Vec<(Key, Value)>, key: &str) -> (res: Vec<u8>)
    ensures
        res@ == bytes_prop(value::entry_map(props@), key@),
{
    match get_variant(props, key) {
        Some(Value::Array(values)) => value::collect_bytes(values),
        _ => {
            let res: Vec<u8> = Vec::new();
            assert(res@ =~= seq![]);
            res
        },
    }
}

/// The contents of an optional property value.
pub open spec fn optional_prop(value: Option<PropValue>) -> Option<PropValueView> {
    match value {
        Some(v) => Some(v@),
        None => None,
    }
}

/// Extract an owned property value from a value, which is usually a variant.
pub fn extract_prop_value(param: &Value) -> (res: Option<PropValue>)
    ensures
        optional_prop(res) == prop_value(param@),
{
    let inner: &Value = match param {
        Value::Variant(inner) => &**inner,
        other => other,
    };
    let ghost seen = inner@;
    match inner {
        Value::Str(s) => Some(PropValue::Str(s.clone())),
        Value::Boolean(b) => Some(PropValue::Bool(*b)),
        Value::Int32(n) => Some(PropValue::Int(*n)),
        Value::Byte(b) => {
            let bytes: Vec<u8> = vec![*b];
            assert(bytes@ =~= seq![*b]);
            Some(PropValue::Bytes(bytes))
        },
        Value::Array(values) => {
            assert(seen == ValueView::Array(value::models(values@)));
            let bytes: Vec<u8> = value::collect_bytes(values);
            if bytes.len() == values.len() {
                Some(PropValue::Bytes(bytes))
            } else {
                None
            }
        },
        _ => None,
    }
}

/// Convert the entries of a dictionary into owned (String, PropValue) pairs.
pub fn convert_props(dict: &Vec<(Key, Value)>) -> (res: Vec<(String, PropValue)>)
    ensures
        prop_views(res@) == converted(dict@),
{
    let mut out: Vec<(String, PropValue)> = Vec::new();
    let mut i: usize = 0;
    assert(prop_views(out@) =~= converted(dict@.take(0)));
    while i < dict.len()
        invariant
            i <= dict@.len(),
            prop_views(out@) == converted(dict@.take(i as int)),
        decreases dict@.len() - i,
    {
        let ghost before = out@;
        assert(dict@.take(i + 1).drop_last() =~= dict@.take(i as int));
        if let Key::Str(name) = &dict[i].0 {
            if let Some(value) = extract_prop_value(&dict[i].1) {
                out.push((name.clone(), value));
                assert(prop_views(out@) =~= prop_views(before).push((name@, value@)));
            }
        }
        i = i + 1;
    }
    assert(dict@.take(i as int) =~= dict@);
    out
}

/// The contents of an optional menu node.
pub open spec fn optional_node(node: Option<MenuNode>) -> Option<MenuNodeView> {
    match node {
        Some(n) => Some(n@),
        None => None,
    }
}

/// Parse a variant containing `(i32, a{sv}, av)` into a MenuNode.
pub fn parse_menu_node(param: &Value) -> (res: Option<MenuNode>)
    ensures
        optional_node(res) == menu_node(param@),
    decreases param,
{
    let inner: &Value = match param {
        Value::Variant(inner) => &**inner,
        _ => return None,
    };
    assert(param@ == ValueView::Variant(Box::new(inner@)));
    let fields: &Vec<Value> = match inner {
        Value::Struct(fields) => fields,
        _ => return None,
    };
    assert(inner@ == ValueView::Struct(value::models(fields@)));
    if fields.len() < 3 {
        return None;
    }
    proof {
        let all = value::models(fields@);
        assert(all[0] == fields@[0]@ && all[1] == fields@[1]@ && all[2] == fields@[2]@);
    }
    let id: i32 = match &fields[0] {
        Value::Int32(n) => *n,
        _ => return None,
    };
    let props: &Vec<(Key, Value)> = match &fields[1] {
        Value::Dict(entries) => entries,
        _ => return None,
    };
    assert(fields@[1]@ == ValueView::Dict(value::entry_map(props@)));
    let label: String = get_str_prop(props, "label");
    let enabled: bool = match get_bool_prop(props, "enabled") {
        Some(b) => b,
        None => true,
    };
    let visible: bool = match get_bool_prop(props, "visible") {
        Some(b) => b,
        None => true,
    };
    let icon_name: String = get_str_prop(props, "icon-name");
    let icon_data: Vec<u8> = get_bytes_prop(props, "icon-data");
    let toggle_type: String = get_str_prop(props, "toggle-type");
    let toggle_state: i32 = match get_int_prop(props, "toggle-state") {
        Some(n) => n,
        None => -1,
    };
    let is_submenu: bool = value::lookup(props, "children-display").is_some();
    let values: &Vec<Value> = match &fields[2] {
        Value::Array(values) => values,
        _ => return None,
    };
    assert(fields@[2]@ == ValueView::Array(value::models(values@)));
    let children: Vec<MenuNode> = parse_menu_nodes(values);
    let has_children: bool = children.len() > 0;
    let node = MenuNode {
        id,
        label,
        enabled,
        visible,
        icon_name,
        icon_data,
        toggle_type,
        toggle_state,
        is_submenu: is_submenu || has_children,
        children,
    };
    Some(node)
}

/// Parse those values of an array that are menu nodes.
pub fn parse_menu_nodes(values: &Vec<Value>) -> (res: Vec<MenuNode>)
    ensures
        node_models(res@) == menu_nodes(value::models(values@)),
    decreases values,
{
    let ghost all = value::models(values@);
    let mut out: Vec<MenuNode> = Vec::new();
    let mut i: usize = 0;
    assert(node_models(out@) =~= menu_nodes(all.take(0)));
    while i < values.len()
        invariant
            i <= values@.len(),
            all == value::models(values@),
            node_models(out@) == menu_nodes(all.take(i as int)),
        decreases values@.len() - i,
    {
        let ghost before = out@;
        proof {
            assert(all.take(i + 1).drop_last() =~= all.take(i as int));
            assert(all.take(i + 1).last() == values@[i as int]@);
        }
        if let Some(node) = parse_menu_node(&values[i]) {
            out.push(node);
            proof {
                lemma_node_models_push(before, node);
            }
        }
        i = i + 1;
    }
    assert(all.take(i as int) =~= all);
    out
}

proof fn lemma_node_models_push(nodes: Seq<MenuNode>, node: MenuNode)
    ensures
        node_models(nodes.push(node)) == node_models(nodes).push(node@),
{
    let longer = nodes.push(node);
    assert(node_models(longer) =~= node_models(nodes).push(node@)) by {
        assert forall|k: int| 0 <= k < longer.len() implies node_models(longer)[k] == node_models(
            nodes,
        ).push(node@)[k] by {
            if k < nodes.len() {
                assert(longer[k] == nodes[k]);
            }
        }
    }
}

// ---------------------------------------------------------------------------
// Properties of several items

/// The properties of an item that a structure `(ia{sv})` holds.
pub open spec fn item_props(value: Value) -> Option<MenuItemPropsView> {
    match value {
        Value::Struct(fields) => if fields@.len() < 2 {
            None
        } else {
            match (fields@[0], fields@[1]) {
                (Value::Int32(id), Value::Dict(entries)) => Some(
                    MenuItemPropsView { id, props: converted(entries@) },
                ),
                _ => None,
            }
        },
        _ => None,
    }
}

/// The properties of those items among `values` that have any, in their order.
pub open spec fn grouped(values: Seq<Value>) -> Seq<MenuItemPropsView>
    decreases values.len(),
{
    if values.len() == 0 {
        seq![]
    } else {
        let before = grouped(values.drop_last());
        match item_props(values.last()) {
            Some(props) => before.push(props),
            None => before,
        }
    }
}

/// The contents of a row of item properties.
pub open spec fn item_props_views(items: Seq<MenuItemProps>) -> Seq<MenuItemPropsView> {
    Seq::new(items.len(), |i: int| items[i]@)
}

fn read_item_props(value: &Value) -> (res: Option<MenuItemProps>)
    ensures
        match res {
            Some(props) => item_props(*value) == Some(props@),
            None => item_props(*value) is None,
        },
{
    let fields: &Vec<Value> = match value {
        Value::Struct(fields) => fields,
        _ => return None,
    };
    if fields.len() < 2 {
        return None;
    }
    let id: i32 = match &fields[0] {
        Value::Int32(n) => *n,
        _ => return None,
    };
    let props: Vec<(String, PropValue)> = match &fields[1] {
        Value::Dict(entries) => convert_props(entries),
        _ => return None,
    };
    Some(MenuItemProps { id, props })
}

/// The properties of the items in an array of structures `(ia{sv})`. Elements that are
/// something else are skipped, and a value that is no array has none.
pub fn group_properties_of(value: &Value) -> (res: Vec<MenuItemProps>)
    ensures
        item_props_views(res@) == match *value {
            Value::Array(values) => grouped(values@),
            _ => seq![],
        },
{
    let mut out: Vec<MenuItemProps> = Vec::new();
    let values: &Vec<Value> = match value {
        Value::Array(values) => values,
        _ => {
            assert(item_props_views(out@) =~= seq![]);
            return out;
        },
    };
    let mut i: usize = 0;
    assert(item_props_views(out@) =~= grouped(values@.take(0)));
    while i < values.len()
        invariant
            i <= values@.len(),
            item_props_views(out@) == grouped(values@.take(i as int)),
        decreases values@.len() - i,
    {
        let ghost before = out@;
        assert(values@.take(i + 1).drop_last() =~= values@.take(i as int));
        if let Some(props) = read_item_props(&values[i]) {
            out.push(props);
            assert(item_props_views(out@) =~= item_props_views(before).push(props@));
        }
        i = i + 1;
    }
    assert(values@.take(i as int) =~= values@);
    out
}

/// The properties of an item, whatever order they stand in.
pub struct PropTable {
    pub id: i32,
    pub props: Map<Seq<char>, PropValueView>,
}

/// The entries of a dictionary that have a property value.
pub open spec fn prop_table(dict: Map<Seq<char>, ValueView>) -> Map<Seq<char>, PropValueView> {
    Map::new(
        |key: Seq<char>| dict.contains_key(key) && prop_value(dict[key]) is Some,
        |key: Seq<char>| prop_value(dict[key])->0,
    )
}

/// The properties of an item that a structure `(ia{sv})` holds, in any order.
pub open spec fn item_table(value: ValueView) -> Option<PropTable> {
    match value {
        ValueView::Struct(fields) => if fields.len() < 2 {
            None
        } else {
            match (fields[0], fields[1]) {
                (ValueView::Int32(id), ValueView::Dict(dict)) => Some(
                    PropTable { id, props: prop_table(dict) },
                ),
                _ => None,
            }
        },
        _ => None,
    }
}

/// The properties of those items among `values` that have any: the items in their order,
/// their properties in any.
pub open spec fn item_tables(values: Seq<ValueView>) -> Seq<PropTable>
    decreases values.len(),
{
    if values.len() == 0 {
        seq![]
    } else {
        let before = item_tables(values.drop_last());
        match item_table(values.last()) {
            Some(table) => before.push(table),
            None => before,
        }
    }
}

/// The items that the body of a reply describes.
pub open spec fn tables_in(param: Option<ValueView>) -> Seq<PropTable> {
    match param {
        Some(ValueView::Array(values)) => item_tables(values),
        _ => seq![],
    }
}

/// The pairs are the entries of the map, each of them once.
pub open spec fn lists(
    pairs: Seq<(Seq<char>, PropValueView)>,
    table: Map<Seq<char>, PropValueView>,
) -> bool {
    &&& forall|i: int, j: int|
        0 <= i < j < pairs.len() ==> (#[trigger] pairs[i]).0 != (#[trigger] pairs[j]).0
    &&& forall|i: int|
        0 <= i < pairs.len() ==> table.contains_key((#[trigger] pairs[i]).0) && table[pairs[i].0]
            == pairs[i].1
    &&& forall|key: Seq<char>| #[trigger]
        table.contains_key(key) ==> exists|i: int|
            0 <= i < pairs.len() && (#[trigger] pairs[i]).0 == key
}

/// The rows list the tables, one each.
pub open spec fn list_all(rows: Seq<MenuItemPropsView>, tables: Seq<PropTable>) -> bool {
    &&& rows.len() == tables.len()
    &&& forall|i: int|
        0 <= i < rows.len() ==> (#[trigger] rows[i]).id == tables[i].id && lists(
            rows[i].props,
            tables[i].props,
        )
}

/// Converting the entries of a dictionary lists the property values in it, where no key
/// occurs twice.
pub proof fn law_convert_props_lists_dictionary(entries: Seq<(Key, Value)>)
    requires
        value::distinct_text_keys(entries),
    ensures
        lists(converted(entries), prop_table(value::entry_map(entries))),
    decreases entries.len(),
{
    if entries.len() > 0 {
        let rest = entries.drop_last();
        assert(value::distinct_text_keys(rest)) by {
            assert forall|i: int, j: int|
                #![trigger rest[i], rest[j]]
                0 <= i < j < rest.len() implies (rest[i].0 matches Key::Str(s)
                ==> !rest[j].0.is_text(s@)) by {
                assert(rest[i] == entries[i] && rest[j] == entries[j]);
            }
        }
        law_convert_props_lists_dictionary(rest);
        let before = converted(rest);
        let all = converted(entries);
        let small = prop_table(value::entry_map(rest));
        let table = prop_table(value::entry_map(entries));
        if let Key::Str(s) = entries.last().0 {
            assert forall|i: int| 0 <= i < rest.len() implies !(#[trigger] rest[i]).0.is_text(
                s@,
            ) by {
                let e = entries[i];
                assert(rest[i] == e);
                if e.0.is_text(s@) {
                    assert(!entries[entries.len() - 1].0.is_text(e.0->Str_0@));
                }
            }
            value::lemma_entry_missing(rest, s@);
            assert(!small.contains_key(s@));
            match prop_value(entries.last().1@) {
                Some(v) => {
                    assert(table =~= small.insert(s@, v));
                    assert forall|key: Seq<char>| #[trigger] table.contains_key(key) implies exists|
                        i: int,
                    |
                        0 <= i < all.len() && (#[trigger] all[i]).0 == key by {
                        if key == s@ {
                            assert(all[all.len() - 1].0 == key);
                        } else {
                            assert(small.contains_key(key));
                            let i = choose|i: int|
                                0 <= i < before.len() && (#[trigger] before[i]).0 == key;
                            assert(all[i] == before[i]);
                        }
                    }
                },
                None => {
                    assert(table =~= small);
                },
            }
        } else {
            assert(table =~= small);
        }
    }
}

proof fn lemma_grouped_lists(values: Seq<Value>)
    requires
        forall|i: int| 0 <= i < values.len() ==> (#[trigger] values[i]).keys_distinct(),
    ensures
        list_all(grouped(values), item_tables(value::models(values))),
    decreases values.len(),
{
    let all = value::models(values);
    if values.len() > 0 {
        let rest = values.drop_last();
        assert(all.drop_last() =~= value::models(rest));
        assert forall|i: int| 0 <= i < rest.len() implies (#[trigger] rest[i]).keys_distinct() by {
            assert(rest[i] == values[i]);
        }
        lemma_grouped_lists(rest);
        let last = values.last();
        assert(all.last() == last@);
        assert(values[values.len() - 1].keys_distinct());
        if let Value::Struct(fields) = last {
            assert(last@ == ValueView::Struct(value::models(fields@)));
            if fields@.len() >= 2 {
                assert(value::models(fields@)[0] == fields@[0]@);
                assert(value::models(fields@)[1] == fields@[1]@);
                assert(fields@[1].keys_distinct());
                if let Value::Dict(entries) = fields@[1] {
                    assert(fields@[1]@ == ValueView::Dict(value::entry_map(entries@)));
                    law_convert_props_lists_dictionary(entries@);
                }
            }
        }
    }
}

// ---------------------------------------------------------------------------
// Calls, and the messages that arrive while a reply is awaited

/// The D-Bus interface of menus.
pub const MENU_IFACE: &'static str = "com.canonical.dbusmenu";

/// How long the reply to an event is waited for, in nanoseconds.
pub const EVENT_REPLY_NANOS: u64 = 100_000_000;

/// A call of a method of a menu.
pub open spec fn menu_call(
    bus_name: Seq<char>,
    menu_path: Seq<char>,
    method: Seq<char>,
    body: BodyView,
) -> MessageView {
    MessageView::call(bus_name, menu_path, MENU_IFACE@, method).with_body(body)
}

/// The call that fetches the layout below an item, to any depth and with all properties.
pub open spec fn layout_call(
    bus_name: Seq<char>,
    menu_path: Seq<char>,
    parent_id: i32,
) -> MessageView {
    menu_call(
        bus_name,
        menu_path,
        "GetLayout"@,
        BodyView::empty().with_i32(parent_id).with_i32((-1) as i32).with_strs(seq![]),
    )
}

/// The call that fetches properties of several items.
pub open spec fn group_properties_call(
    bus_name: Seq<char>,
    menu_path: Seq<char>,
    ids: Seq<i32>,
    names: Seq<Seq<char>>,
) -> MessageView {
    menu_call(
        bus_name,
        menu_path,
        "GetGroupProperties"@,
        BodyView::empty().with_i32s(ids).with_strs(names),
    )
}

/// The call that fetches one property of an item.
pub open spec fn property_call(
    bus_name: Seq<char>,
    menu_path: Seq<char>,
    id: i32,
    name: Seq<char>,
) -> MessageView {
    menu_call(
        bus_name,
        menu_path,
        "GetProperty"@,
        BodyView::empty().with_i32(id).with_str(name),
    )
}

/// The call that tells an item of an event, with no data and no timestamp.
pub open spec fn event_call(
    bus_name: Seq<char>,
    menu_path: Seq<char>,
    id: i32,
    event_id: Seq<char>,
) -> MessageView {
    menu_call(
        bus_name,
        menu_path,
        "Event"@,
        BodyView::empty().with_i32(id).with_str(event_id).with_variant_i32(0).with_u32(0),
    )
}

/// The call that fetches the menu layout tree starting from `parent_id`.
///
/// `com.canonical.dbusmenu.GetLayout` with `recursion_depth = -1` (unlimited) and all
/// properties. Pass `0` to get the root layout, or an item's ID to get its submenu.
pub fn get_layout(bus_name: &str, menu_path: &str, parent_id: i32) -> (res: Message)
    ensures
        res@ == layout_call(bus_name@, menu_path@, parent_id),
{
    let names: Vec<&str> = Vec::new();
    assert(crate::wire::str_views(names@) =~= seq![]);
    let body: Body = Body::new().with_i32(parent_id).with_i32(-1).with_strs(names.as_slice());
    Message::call(bus_name, menu_path, MENU_IFACE, "GetLayout", body)
}

/// The call that fetches properties for one or more menu items
/// (`com.canonical.dbusmenu.GetGroupProperties`).
pub fn get_group_properties(
    bus_name: &str,
    menu_path: &str,
    ids: &[i32],
    property_names: &[&str],
) -> (res: Message)
    requires
        ids@.len() * 4 <= u32::MAX,
    ensures
        res@ == group_properties_call(
            bus_name@,
            menu_path@,
            ids@,
            crate::wire::str_views(property_names@),
        ),
{
    let body: Body = Body::new().with_i32s(ids).with_strs(property_names);
    Message::call(bus_name, menu_path, MENU_IFACE, "GetGroupProperties", body)
}

/// The call that fetches a single menu item property (`com.canonical.dbusmenu.GetProperty`).
pub fn get_property(bus_name: &str, menu_path: &str, id: i32, name: &str) -> (res: Message)
    ensures
        res@ == property_call(bus_name@, menu_path@, id, name@),
{
    let body: Body = Body::new().with_i32(id).with_str(name);
    Message::call(bus_name, menu_path, MENU_IFACE, "GetProperty", body)
}

/// The call that sends an event notification to a menu item (`com.canonical.dbusmenu.Event`).
///
/// Common event types are `"clicked"` and `"hovered"`. Vendor-specific events can be prefixed
/// with `"x-<vendor>-"`.
pub fn event(bus_name: &str, menu_path: &str, id: i32, event_id: &str) -> (res: Message)
    ensures
        res@ == event_call(bus_name@, menu_path@, id, event_id@),
{
    let body: Body = Body::new().with_i32(id).with_str(event_id).with_variant_i32(0).with_u32(0);
    Message::call(bus_name, menu_path, MENU_IFACE, "Event", body)
}

/// The call that clicks a menu item.
pub fn fire_click(bus_name: &str, menu_path: &str, menu_id: i32) -> (res: Message)
    ensures
        res@ == event_call(bus_name@, menu_path@, menu_id, "clicked"@),
{
    event(bus_name, menu_path, menu_id, "clicked")
}

/// The message ends the wait for the reply to the call with that serial number: it is the
/// reply, or an error.
pub open spec fn ends_wait(message: MessageView, serial: u32) -> bool {
    message.answers(MessageType::Reply, serial) || message.answers(MessageType::Error, serial)
}

/// The message is the reply that was waited for.
pub open spec fn is_reply(message: MessageView, serial: u32) -> bool {
    message.answers(MessageType::Reply, serial)
}

/// What the reply to a `GetLayout` call says.
pub open spec fn layout_in(body: BodyView) -> Result<Seq<MenuNodeView>, ErrorView> {
    match body.first_u32() {
        None => Err(ErrorView::Unmarshal),
        Some(_) => Ok(
            match body.second_param() {
                Some(root) => layout_nodes(root),
                None => seq![],
            },
        ),
    }
}

/// The menu nodes below the root of a layout `(ia{sv}av)`. A value that is something else
/// has none.
pub fn layout_of(root: &Value) -> (res: Vec<MenuNode>)
    ensures
        node_models(res@) == layout_nodes(root@),
{
    if let Value::Struct(fields) = root {
        assert(root@ == ValueView::Struct(value::models(fields@)));
        if fields.len() >= 3 {
            assert(value::models(fields@)[2] == fields@[2]@);
            if let Value::Array(children) = &fields[2] {
                assert(fields@[2]@ == ValueView::Array(value::models(children@)));
                return parse_menu_nodes(children);
            }
        }
    }
    no_nodes()
}

fn no_nodes() -> (res: Vec<MenuNode>)
    ensures
        res@.len() == 0,
        node_models(res@) == Seq::<MenuNodeView>::empty(),
{
    let res: Vec<MenuNode> = Vec::new();
    assert(node_models(res@) =~= seq![]);
    res
}

/// `outcome` is what a message means while the reply to a `GetLayout` call is awaited.
pub open spec fn is_layout_reply(
    message: MessageView,
    serial: u32,
    outcome: Option<Result<Vec<MenuNode>, Error>>,
) -> bool {
    match outcome {
        None => !ends_wait(message, serial),
        Some(Ok(nodes)) => if is_reply(message, serial) {
            layout_in(message.body) == Ok::<Seq<MenuNodeView>, ErrorView>(node_models(nodes@))
        } else {
            ends_wait(message, serial) && nodes@.len() == 0
        },
        Some(Err(error)) => is_reply(message, serial) && layout_in(message.body) == Err::<
            Seq<MenuNodeView>,
            ErrorView,
        >(error@),
    }
}

/// `outcome` is what a message means while the reply to a `GetGroupProperties` call is awaited.
pub open spec fn is_group_properties_reply(
    message: MessageView,
    serial: u32,
    outcome: Option<Vec<MenuItemProps>>,
) -> bool {
    match outcome {
        None => !ends_wait(message, serial),
        Some(items) => if is_reply(message, serial) {
            list_all(item_props_views(items@), tables_in(message.body.param()))
        } else {
            ends_wait(message, serial) && items@.len() == 0
        },
    }
}

/// `outcome` is what a message means while the reply to a `GetProperty` call is awaited.
pub open spec fn is_property_reply(
    message: MessageView,
    serial: u32,
    outcome: Option<Option<PropValue>>,
) -> bool {
    match outcome {
        None => !ends_wait(message, serial),
        Some(value) => if is_reply(message, serial) {
            optional_prop(value) == match message.body.param() {
                Some(param) => prop_value(param),
                None => None,
            }
        } else {
            ends_wait(message, serial) && value is None
        },
    }
}

/// What a message that arrives while the reply to a `GetLayout` call is awaited means.
///
/// `None` where the message does not answer the call, and the wait goes on. The root-level
/// menu items where the message is the reply; none where the call failed, or where the reply
/// cannot be understood. A reply that does not begin with a revision number is an error.
pub fn layout_reply(message: &Message, serial: u32) -> (res: Option<Result<Vec<MenuNode>, Error>>)
    ensures
        res is Some <==> ends_wait(message@, serial),
        is_layout_reply(message@, serial, res),
{
    if message.answers(MessageType::Error, serial) {
        return Some(Ok(no_nodes()));
    }
    if !message.answers(MessageType::Reply, serial) {
        return None;
    }
    match message.body.read_u32() {
        Err(error) => return Some(Err(Error::Unmarshal(error))),
        Ok(_) => {},
    }
    match message.body.read_second_param() {
        Ok(root) => Some(Ok(layout_of(&root))),
        Err(_) => Some(Ok(no_nodes())),
    }
}

/// What a message that arrives while the reply to a `GetGroupProperties` call is awaited
/// means.
///
/// `None` where the message does not answer the call, and the wait goes on. The properties of
/// the items where the message is the reply; none where the call failed, or where the reply
/// cannot be understood.
pub fn group_properties_reply(message: &Message, serial: u32) -> (res: Option<Vec<MenuItemProps>>)
    ensures
        res is Some <==> ends_wait(message@, serial),
        is_group_properties_reply(message@, serial, res),
{
    if message.answers(MessageType::Error, serial) {
        return Some(Vec::new());
    }
    if !message.answers(MessageType::Reply, serial) {
        return None;
    }
    match message.body.read_param() {
        Ok(value) => {
            proof {
                if let Value::Array(values) = &value {
                    assert(value@ == ValueView::Array(value::models(values@)));
                    lemma_grouped_lists(values@);
                }
            }
            Some(group_properties_of(&value))
        },
        Err(_) => Some(Vec::new()),
    }
}

/// What a message that arrives while the reply to a `GetProperty` call is awaited means.
///
/// `None` where the message does not answer the call, and the wait goes on. `Some(None)` where
/// the call failed, or where the reply holds no property value.
pub fn property_reply(message: &Message, serial: u32) -> (res: Option<Option<PropValue>>)
    ensures
        res is Some <==> ends_wait(message@, serial),
        is_property_reply(message@, serial, res),
{
    if message.answers(MessageType::Error, serial) {
        return Some(None);
    }
    if !message.answers(MessageType::Reply, serial) {
        return None;
    }
    match message.body.read_param() {
        Ok(value) => Some(extract_prop_value(&value)),
        Err(_) => Some(None),
    }
}

/// What to do while the reply to an event is awaited.
#[derive(Debug)]
pub enum EventWait {
    /// Wait for a message, for at most so many nanoseconds.
    Wait(u64),
    /// The wait is over.
    Done(Result<(), Error>),
}

/// What an [`EventWait`] says.
pub enum EventWaitView {
    Wait(u64),
    Done(Option<ErrorView>),
}

impl View for EventWait {
    type V = EventWaitView;

    open spec fn view(&self) -> EventWaitView {
        match self {
            EventWait::Wait(nanos) => EventWaitView::Wait(*nanos),
            EventWait::Done(Ok(_)) => EventWaitView::Done(None),
            EventWait::Done(Err(error)) => EventWaitView::Done(Some(error@)),
        }
    }
}

/// What to do about an event whose reply has been waited for `elapsed` nanoseconds.
pub open spec fn event_wait(elapsed: u64) -> EventWaitView {
    if elapsed >= EVENT_REPLY_NANOS {
        EventWaitView::Done(None)
    } else {
        EventWaitView::Wait((EVENT_REPLY_NANOS - elapsed) as u64)
    }
}

/// What to do once the reply to an event has been waited for `elapsed` nanoseconds.
///
/// Many servers do not reply to `Event` calls, so at the end of the time the event counts as
/// delivered.
pub fn event_pending(elapsed: u64) -> (res: EventWait)
    ensures
        res@ == event_wait(elapsed),
{
    if elapsed >= EVENT_REPLY_NANOS {
        EventWait::Done(Ok(()))
    } else {
        EventWait::Wait(EVENT_REPLY_NANOS - elapsed)
    }
}

/// What to do about a message that arrives when the reply to an event has been waited for
/// `elapsed` nanoseconds.
pub open spec fn event_answered(message: MessageView, serial: u32, elapsed: u64) -> EventWaitView {
    if message.answers(MessageType::Reply, serial) {
        EventWaitView::Done(None)
    } else if message.answers(MessageType::Error, serial) {
        EventWaitView::Done(Some(ErrorView::MethodCall(item::error_text(message.body))))
    } else {
        event_wait(elapsed)
    }
}

/// What to do about a message that arrives while the reply to an event is awaited.
pub fn event_reply(message: &Message, serial: u32, elapsed: u64) -> (res: EventWait)
    ensures
        res@ == event_answered(message@, serial, elapsed),
{
    if message.answers(MessageType::Reply, serial) {
        return EventWait::Done(Ok(()));
    }
    if message.answers(MessageType::Error, serial) {
        return EventWait::Done(Err(Error::MethodCall(item::read_error_text(&message.body))));
    }
    event_pending(elapsed)
}

// ---------------------------------------------------------------------------
// Laws

/// A menu node that has children is a submenu.
pub proof fn law_node_with_children_is_submenu(value: ValueView)
    ensures
        menu_node(value) matches Some(node) ==> (node.children.len() > 0 ==> node.is_submenu),
{
}

/// A menu node that says nothing of itself is enabled, visible, and neither on nor off.
pub proof fn law_bare_node_has_defaults(id: i32)
    ensures
        ({
            let node = node_with(id, Map::empty(), seq![]);
            &&& node.id == id && node.label.len() == 0
            &&& node.enabled && node.visible && node.toggle_state == -1
            &&& !node.is_submenu
        }),
{
}

/// The nodes of a layout are those children that are one: each node comes from a child, and
/// every child that is a node is there.
pub proof fn law_layout_nodes_are_the_children(values: Seq<ValueView>)
    ensures
        menu_nodes(values).len() <= values.len(),
        forall|i: int|
            0 <= i < menu_nodes(values).len() ==> exists|j: int|
                0 <= j < values.len() && menu_node(#[trigger] values[j]) == Some(
                    #[trigger] menu_nodes(values)[i],
                ),
        forall|j: int|
            0 <= j < values.len() ==> (menu_node(#[trigger] values[j]) matches Some(node)
                ==> menu_nodes(values).contains(node)),
    decreases values.len(),
{
    if values.len() > 0 {
        let rest = values.drop_last();
        law_layout_nodes_are_the_children(rest);
        let all = menu_nodes(values);
        let before = menu_nodes(rest);
        assert forall|i: int| 0 <= i < all.len() implies exists|j: int|
            0 <= j < values.len() && menu_node(#[trigger] values[j]) == Some(#[trigger] all[i]) by {
            if i < before.len() {
                assert(all[i] == before[i]);
                let j = choose|j: int|
                    0 <= j < rest.len() && menu_node(#[trigger] rest[j]) == Some(before[i]);
                assert(values[j] == rest[j]);
            } else {
                assert(values[values.len() - 1] == values.last());
            }
        }
        assert forall|j: int| 0 <= j < values.len() implies (menu_node(
            #[trigger] values[j],
        ) matches Some(node) ==> all.contains(node)) by {
            if let Some(node) = menu_node(values[j]) {
                if j < rest.len() {
                    assert(rest[j] == values[j]);
                    assert(before.contains(node));
                    let k = choose|k: int| 0 <= k < before.len() && before[k] == node;
                    assert(all[k] == node);
                } else {
                    assert(all[all.len() - 1] == node);
                }
            }
        }
    }
}

/// Waiting for the reply to an event ends: what is left to wait and what has been waited
/// make up the whole time.
pub proof fn law_event_wait_is_bounded(elapsed: u64)
    ensures
        event_wait(elapsed) matches EventWaitView::Wait(left) ==> left > 0 && elapsed + left
            == EVENT_REPLY_NANOS,
        elapsed >= EVENT_REPLY_NANOS ==> event_wait(elapsed) == EventWaitView::Done(None),
{
}

/// A structure of a number, a dictionary and an array, in a variant, is a menu node. Each field
/// of the node is what the dictionary has under its key, and has its default where the
/// dictionary has no such thing there: an item without further words is enabled and visible,
/// and neither on nor off. Its children are the nodes in the array.
pub proof fn law_menu_node_shows_its_properties(
    fields: Seq<ValueView>,
    id: i32,
    props: Map<Seq<char>, ValueView>,
    children: Seq<ValueView>,
    text: Seq<char>,
    flag: bool,
    number: i32,
    bytes: Seq<ValueView>,
)
    requires
        fields.len() >= 3,
        fields[0] == ValueView::Int32(id),
        fields[1] == ValueView::Dict(props),
        fields[2] == ValueView::Array(children),
    ensures
        menu_node(ValueView::Variant(Box::new(ValueView::Struct(fields)))) matches Some(node) && {
            &&& node.id == id
            &&& value::says(props, "label"@, ValueView::Str(text)) ==> node.label == text
            &&& node.label.len() > 0 ==> value::says(props, "label"@, ValueView::Str(node.label))
            &&& value::says(props, "enabled"@, ValueView::Boolean(flag)) ==> node.enabled == flag
            &&& !node.enabled ==> value::says(props, "enabled"@, ValueView::Boolean(false))
            &&& value::says(props, "visible"@, ValueView::Boolean(flag)) ==> node.visible == flag
            &&& !node.visible ==> value::says(props, "visible"@, ValueView::Boolean(false))
            &&& value::says(props, "icon-name"@, ValueView::Str(text)) ==> node.icon_name == text
            &&& node.icon_name.len() > 0 ==> value::says(props, "icon-name"@, ValueView::Str(node.icon_name))
            &&& value::says(props, "toggle-type"@, ValueView::Str(text)) ==> node.toggle_type == text
            &&& node.toggle_type.len() > 0 ==> value::says(props, "toggle-type"@, ValueView::Str(node.toggle_type))
            &&& value::says(props, "icon-data"@, ValueView::Array(bytes)) ==> node.icon_data
                == value::bytes_among(bytes)
            &&& node.icon_data.len() > 0 ==> exists|data: Seq<ValueView>| #[trigger]
                value::says(props, "icon-data"@, ValueView::Array(data))
            &&& value::says(props, "toggle-state"@, ValueView::Int32(number)) ==> node.toggle_state
                == number
            &&& node.toggle_state != -1 ==> value::says(
                props,
                "toggle-state"@,
                ValueView::Int32(node.toggle_state),
            )
            &&& node.is_submenu <==> props.contains_key("children-display"@) || node.children.len()
                > 0
            &&& node.children == menu_nodes(children)
        },
{
    if let Some(node) = menu_node(ValueView::Variant(Box::new(ValueView::Struct(fields)))) {
        if node.icon_data.len() > 0 {
            if let ValueView::Variant(inner) = props["icon-data"@] {
                if let ValueView::Array(data) = *inner {
                    assert(value::says(props, "icon-data"@, ValueView::Array(data)));
                }
            }
        }
    }
}

/// Icon data that consists of bytes is what the node has for it, byte by byte.
pub proof fn law_menu_node_keeps_icon_bytes(
    fields: Seq<ValueView>,
    id: i32,
    props: Map<Seq<char>, ValueView>,
    children: Seq<ValueView>,
    bytes: Seq<u8>,
)
    requires
        fields.len() >= 3,
        fields[0] == ValueView::Int32(id),
        fields[1] == ValueView::Dict(props),
        fields[2] == ValueView::Array(children),
        value::says(
            props,
            "icon-data"@,
            ValueView::Array(Seq::new(bytes.len(), |i: int| ValueView::Byte(bytes[i]))),
        ),
    ensures
        menu_node(ValueView::Variant(Box::new(ValueView::Struct(fields)))) matches Some(node)
            && node.icon_data == bytes,
{
    let values = Seq::new(bytes.len(), |i: int| ValueView::Byte(bytes[i]));
    value::law_bytes_are_kept(values);
    assert forall|i: int| 0 <= i < bytes.len() implies value::bytes_among(values)[i]
        == bytes[i] by {
        assert(values[i] == ValueView::Byte(bytes[i]));
    }
    assert(value::bytes_among(values) =~= bytes);
}

/// Nothing but a structure of a number, a dictionary and an array, in a variant, is a menu node.
pub proof fn law_other_values_are_no_menu_nodes(value: ValueView)
    requires
        menu_node(value) is Some,
    ensures
        value matches ValueView::Variant(inner) && (*inner matches ValueView::Struct(fields)
            && fields.len() >= 3 && fields[0] is Int32 && fields[1] is Dict && fields[2] is Array),
{
}

/// The nodes of two rows of values are those of each, one behind the other. A value that is a
/// node gives that node, and any other gives none.
pub proof fn law_menu_nodes_join(
    first: Seq<ValueView>,
    second: Seq<ValueView>,
    value: ValueView,
)
    ensures
        menu_nodes(first + second) == menu_nodes(first) + menu_nodes(second),
        menu_node(value) matches Some(node) ==> menu_nodes(seq![value]) == seq![node],
        menu_node(value) is None ==> menu_nodes(seq![value]).len() == 0,
    decreases second.len(),
{
    if second.len() == 0 {
        assert(first + second =~= first);
        assert(menu_nodes(first) + menu_nodes(second) =~= menu_nodes(first));
    } else {
        assert((first + second).drop_last() =~= first + second.drop_last());
        law_menu_nodes_join(first, second.drop_last(), value);
        assert(menu_nodes(first + second) =~= menu_nodes(first) + menu_nodes(second));
    }
    let row = seq![value];
    assert(row.drop_last() =~= seq![]);
    assert(menu_nodes(row.drop_last()) =~= seq![]);
    assert(row.last() == value);
    if let Some(node) = menu_node(value) {
        assert(menu_nodes(row) =~= seq![node]);
    }
}

/// What a message means while the reply to a `GetLayout` call is awaited. The wait goes on
/// unless the message carries the serial number of the call and is a reply or an error. An error
/// means an empty menu. A reply means the nodes in the array that ends the structure behind its
/// number, and an empty menu where there is no such structure.
pub proof fn law_layout_reply_gives_the_menu(
    message: MessageView,
    serial: u32,
    outcome: Option<Result<Vec<MenuNode>, Error>>,
)
    requires
        is_layout_reply(message, serial, outcome),
    ensures
        outcome is Some <==> message.response_serial == Some(serial) && (message.typ
            == MessageType::Reply || message.typ == MessageType::Error),
        outcome is Some && message.typ == MessageType::Error ==> (outcome->0 matches Ok(nodes)
            && nodes@.len() == 0),
        outcome is Some && message.typ == MessageType::Reply ==> match outcome->0 {
            Err(error) => error is Unmarshal && message.body.first_u32() is None,
            Ok(nodes) => message.body.first_u32() is Some && match message.body.second_param() {
                Some(ValueView::Struct(fields)) => if fields.len() >= 3 {
                    match fields[2] {
                        ValueView::Array(children) => node_models(nodes@) == menu_nodes(children),
                        _ => nodes@.len() == 0,
                    }
                } else {
                    nodes@.len() == 0
                },
                _ => nodes@.len() == 0,
            },
        },
{
    if let Some(Ok(nodes)) = outcome {
        assert(node_models(nodes@).len() == nodes@.len());
    }
}

/// What a message means while the reply to a `GetProperty` call is awaited. The wait goes on
/// unless the message carries the serial number of the call and is a reply or an error. An error
/// means no value, and a reply the value in it.
pub proof fn law_property_reply_gives_the_value(
    message: MessageView,
    serial: u32,
    outcome: Option<Option<PropValue>>,
)
    requires
        is_property_reply(message, serial, outcome),
    ensures
        outcome is Some <==> message.response_serial == Some(serial) && (message.typ
            == MessageType::Reply || message.typ == MessageType::Error),
        outcome is Some && message.typ == MessageType::Error ==> outcome->0 is None,
        outcome is Some && message.typ == MessageType::Reply ==> match outcome->0 {
            Some(value) => message.body.param() matches Some(param) && prop_value(param) == Some(
                value@,
            ),
            None => message.body.param() matches Some(param) ==> prop_value(param) is None,
        },
{
}

/// A string, a boolean and a number stand for themselves, in a variant or not. A byte stands for
/// an array of one, and an array of bytes for these.
pub proof fn law_prop_value_is_what_is_there(
    text: Seq<char>,
    flag: bool,
    number: i32,
    byte: u8,
    values: Seq<ValueView>,
)
    ensures
        prop_value(ValueView::Str(text)) == Some(PropValueView::Str(text)),
        prop_value(ValueView::Boolean(flag)) == Some(PropValueView::Bool(flag)),
        prop_value(ValueView::Int32(number)) == Some(PropValueView::Int(number)),
        prop_value(ValueView::Byte(byte)) == Some(PropValueView::Bytes(seq![byte])),
        (forall|i: int| 0 <= i < values.len() ==> #[trigger] values[i] is Byte) ==> (prop_value(
            ValueView::Array(values),
        ) matches Some(PropValueView::Bytes(bytes)) && bytes.len() == values.len() && forall|i: int|
            0 <= i < values.len() ==> #[trigger] values[i] == ValueView::Byte(bytes[i])),
        (exists|i: int| 0 <= i < values.len() && !(#[trigger] values[i] is Byte)) ==> prop_value(
            ValueView::Array(values),
        ) is None,
{
    value::law_bytes_are_kept(values);
}

/// A variant stands for what the value in it stands for, unless that is a variant again. Nothing
/// else than a string, a boolean, a number, a byte or an array stands for anything.
pub proof fn law_prop_value_looks_into_a_variant(value: ValueView)
    ensures
        !(value is Variant) ==> prop_value(ValueView::Variant(Box::new(value))) == prop_value(
            value,
        ),
        prop_value(value) is Some && !(value is Variant) ==> value is Str || value is Boolean
            || value is Int32 || value is Byte || value is Array,
        value is Variant ==> prop_value(ValueView::Variant(Box::new(value))) is None,
{
}

/// What a message means while the reply to a `GetGroupProperties` call is awaited. The wait goes
/// on unless the message carries the serial number of the call and is a reply or an error. An
/// error means no items.
pub proof fn law_group_properties_reply_ends_the_wait(
    message: MessageView,
    serial: u32,
    outcome: Option<Vec<MenuItemProps>>,
)
    requires
        is_group_properties_reply(message, serial, outcome),
    ensures
        outcome is Some <==> message.response_serial == Some(serial) && (message.typ
            == MessageType::Reply || message.typ == MessageType::Error),
        outcome is Some && message.typ == MessageType::Error ==> outcome->0@.len() == 0,
        outcome is Some && !(message.body.param() matches Some(ValueView::Array(_)))
            ==> outcome->0@.len() == 0,
{
}

/// The reply to a `GetGroupProperties` call lists the items in their order. Of each item it has
/// the number and every property of the dictionary that has a value, once and under its key, and
/// no others.
pub proof fn law_group_properties_reply_lists_the_items(
    message: MessageView,
    serial: u32,
    items: Vec<MenuItemProps>,
    ids: Seq<i32>,
    dicts: Seq<Map<Seq<char>, ValueView>>,
    values: Seq<ValueView>,
)
    requires
        is_group_properties_reply(message, serial, Some(items)),
        message.typ == MessageType::Reply,
        message.body.param() == Some(ValueView::Array(values)),
        ids.len() == values.len(),
        dicts.len() == values.len(),
        forall|i: int|
            0 <= i < values.len() ==> (#[trigger] values[i] matches ValueView::Struct(fields)
                && fields.len() >= 2 && fields[0] == ValueView::Int32(ids[i]) && fields[1]
                == ValueView::Dict(dicts[i])),
    ensures
        items@.len() == values.len(),
        forall|i: int|
            0 <= i < values.len() ==> {
                &&& (#[trigger] items@[i]).id == ids[i]
                &&& forall|j: int|
                    0 <= j < items@[i].props@.len() ==> {
                        let entry = #[trigger] items@[i].props@[j];
                        dicts[i].contains_key(entry.0@) && prop_value(dicts[i][entry.0@]) == Some(entry.1@)
                    }
                &&& forall|key: Seq<char>| #[trigger]
                    dicts[i].contains_key(key) && prop_value(dicts[i][key]) is Some ==> exists|
                        j: int,
                    |
                        0 <= j < items@[i].props@.len() && (#[trigger] items@[i].props@[j]).0@
                            == key
                &&& forall|j: int, k: int|
                    0 <= j < k < items@[i].props@.len() ==> (#[trigger] items@[i].props@[j]).0@ != (
                    #[trigger] items@[i].props@[k]).0@
            },
{
    lemma_tables_of_items(values, ids, dicts);
    let tables = item_tables(values);
    let rows = item_props_views(items@);
    assert forall|i: int| 0 <= i < values.len() implies {
        &&& (#[trigger] items@[i]).id == ids[i]
        &&& forall|j: int|
            0 <= j < items@[i].props@.len() ==> {
                let entry = #[trigger] items@[i].props@[j];
                dicts[i].contains_key(entry.0@) && prop_value(dicts[i][entry.0@]) == Some(entry.1@)
            }
        &&& forall|key: Seq<char>| #[trigger]
            dicts[i].contains_key(key) && prop_value(dicts[i][key]) is Some ==> exists|j: int|
                0 <= j < items@[i].props@.len() && (#[trigger] items@[i].props@[j]).0@ == key
        &&& forall|j: int, k: int|
            0 <= j < k < items@[i].props@.len() ==> (#[trigger] items@[i].props@[j]).0@ != (
            #[trigger] items@[i].props@[k]).0@
    } by {
        let props = items@[i].props@;
        let pairs = rows[i].props;
        let table = tables[i].props;
        assert(rows[i] == items@[i]@);
        assert(pairs == prop_views(props));
        assert(lists(pairs, table));
        assert forall|j: int| 0 <= j < props.len() implies {
            let entry = #[trigger] props[j];
            dicts[i].contains_key(entry.0@) && prop_value(dicts[i][entry.0@]) == Some(entry.1@)
        } by {
            assert(pairs[j] == (props[j].0@, props[j].1@));
            assert(table.contains_key(pairs[j].0));
        }
        assert forall|key: Seq<char>| #[trigger]
            dicts[i].contains_key(key) && prop_value(dicts[i][key]) is Some implies exists|j: int|
            0 <= j < props.len() && (#[trigger] props[j]).0@ == key by {
            assert(table.contains_key(key));
            let j = choose|j: int| 0 <= j < pairs.len() && (#[trigger] pairs[j]).0 == key;
            assert(props[j].0@ == key);
        }
        assert forall|j: int, k: int| 0 <= j < k < props.len() implies (#[trigger] props[j]).0@ != (
        #[trigger] props[k]).0@ by {
            assert(pairs[j].0 != pairs[k].0);
        }
    }
}

proof fn lemma_tables_of_items(
    values: Seq<ValueView>,
    ids: Seq<i32>,
    dicts: Seq<Map<Seq<char>, ValueView>>,
)
    requires
        ids.len() == values.len(),
        dicts.len() == values.len(),
        forall|i: int|
            0 <= i < values.len() ==> (#[trigger] values[i] matches ValueView::Struct(fields)
                && fields.len() >= 2 && fields[0] == ValueView::Int32(ids[i]) && fields[1]
                == ValueView::Dict(dicts[i])),
    ensures
        item_tables(values).len() == values.len(),
        forall|i: int|
            0 <= i < values.len() ==> (#[trigger] item_tables(values)[i]) == (PropTable {
                id: ids[i],
                props: prop_table(dicts[i]),
            }),
    decreases values.len(),
{
    if values.len() > 0 {
        let rest = values.drop_last();
        assert forall|i: int| 0 <= i < rest.len() implies (
        #[trigger] rest[i] matches ValueView::Struct(fields) && fields.len() >= 2 && fields[0]
            == ValueView::Int32(ids.drop_last()[i]) && fields[1] == ValueView::Dict(
            dicts.drop_last()[i],
        )) by {
            assert(rest[i] == values[i]);
        }
        lemma_tables_of_items(rest, ids.drop_last(), dicts.drop_last());
        let last = values.len() - 1;
        assert(values[last] is Struct);
        assert(item_table(values.last()) == Some(
            PropTable { id: ids[last], props: prop_table(dicts[last]) },
        ));
        assert forall|i: int| 0 <= i < values.len() implies (#[trigger] item_tables(values)[i]) == (
        PropTable { id: ids[i], props: prop_table(dicts[i]) }) by {
            if i < last {
                assert(item_tables(values)[i] == item_tables(rest)[i]);
                assert(dicts.drop_last()[i] == dicts[i] && ids.drop_last()[i] == ids[i]);
            }
        }
    }
}

/// The items of two rows of values are those of each, one behind the other. A value gives an
/// item exactly where it is a structure of a number and a dictionary.
pub proof fn law_item_tables_join(
    first: Seq<ValueView>,
    second: Seq<ValueView>,
    value: ValueView,
)
    ensures
        item_tables(first + second) == item_tables(first) + item_tables(second),
        item_tables(seq![value]).len() == if value matches ValueView::Struct(fields) && fields.len()
            >= 2 && fields[0] is Int32 && fields[1] is Dict {
            1nat
        } else {
            0nat
        },
    decreases second.len(),
{
    if second.len() == 0 {
        assert(first + second =~= first);
        assert(item_tables(first) + item_tables(second) =~= item_tables(first));
    } else {
        assert((first + second).drop_last() =~= first + second.drop_last());
        law_item_tables_join(first, second.drop_last(), value);
        assert(item_tables(first + second) =~= item_tables(first) + item_tables(second));
    }
    let row = seq![value];
    assert(row.drop_last() =~= seq![]);
    assert(item_tables(row.drop_last()) =~= seq![]);
    assert(row.last() == value);
}

/// Converting two rows of entries gives what each gives, one behind the other. An entry with a
/// string key and a value gives these, and any other entry gives nothing.
pub proof fn law_converted_entries_join(
    first: Seq<(Key, Value)>,
    second: Seq<(Key, Value)>,
    entry: (Key, Value),
)
    ensures
        converted(first + second) == converted(first) + converted(second),
        match (entry.0, prop_value(entry.1@)) {
            (Key::Str(name), Some(value)) => converted(seq![entry]) == seq![(name@, value)],
            _ => converted(seq![entry]).len() == 0,
        },
    decreases second.len(),
{
    if second.len() == 0 {
        assert(first + second =~= first);
        assert(converted(first) + converted(second) =~= converted(first));
    } else {
        assert((first + second).drop_last() =~= first + second.drop_last());
        law_converted_entries_join(first, second.drop_last(), entry);
        assert(converted(first + second) =~= converted(first) + converted(second));
    }
    let row = seq![entry];
    assert(row.drop_last() =~= seq![]);
    assert(converted(row.drop_last()) =~= seq![]);
    assert(row.last() == entry);
    match (entry.0, prop_value(entry.1@)) {
        (Key::Str(name), Some(value)) => {
            assert(converted(row) =~= seq![(name@, value)]);
        },
        _ => {},
    }
}

/// The calls to a menu go to the given bus name and menu path, on the interface of menus, each
/// with its method and its parameters.
pub proof fn law_menu_calls_go_to_the_menu(
    bus_name: Seq<char>,
    menu_path: Seq<char>,
    id: i32,
    text: Seq<char>,
    ids: Seq<i32>,
    names: Seq<Seq<char>>,
)
    ensures
        ({
            let call = layout_call(bus_name, menu_path, id);
            &&& call.typ == MessageType::Call
            &&& call.destination == Some(bus_name) && call.object == Some(menu_path)
            &&& call.interface == Some("com.canonical.dbusmenu"@)
            &&& call.member == Some("GetLayout"@)
            &&& call.body == BodyView::empty().with_i32(id).with_i32((-1) as i32).with_strs(seq![])
        }),
        ({
            let call = group_properties_call(bus_name, menu_path, ids, names);
            &&& call.typ == MessageType::Call
            &&& call.destination == Some(bus_name) && call.object == Some(menu_path)
            &&& call.interface == Some("com.canonical.dbusmenu"@)
            &&& call.member == Some("GetGroupProperties"@)
            &&& call.body == BodyView::empty().with_i32s(ids).with_strs(names)
        }),
        ({
            let call = property_call(bus_name, menu_path, id, text);
            &&& call.typ == MessageType::Call
            &&& call.destination == Some(bus_name) && call.object == Some(menu_path)
            &&& call.interface == Some("com.canonical.dbusmenu"@)
            &&& call.member == Some("GetProperty"@)
            &&& call.body == BodyView::empty().with_i32(id).with_str(text)
        }),
        ({
            let call = event_call(bus_name, menu_path, id, text);
            &&& call.typ == MessageType::Call
            &&& call.destination == Some(bus_name) && call.object == Some(menu_path)
            &&& call.interface == Some("com.canonical.dbusmenu"@)
            &&& call.member == Some("Event"@)
            &&& call.body == BodyView::empty().with_i32(id).with_str(text).with_variant_i32(
                0,
            ).with_u32(0)
        }),
{
}

/// The reply to an event ends the wait at once, and an error ends it with the text of the error.
/// Any other message leaves what there is left of a tenth of a second, and nothing after that.
pub proof fn law_event_ends_with_its_answer_or_in_time(
    message: MessageView,
    serial: u32,
    elapsed: u64,
)
    ensures
        ({
            let wait = event_answered(message, serial, elapsed);
            let mine = message.response_serial == Some(serial);
            if mine && message.typ == MessageType::Reply {
                wait == EventWaitView::Done(None)
            } else if mine && message.typ == MessageType::Error {
                wait matches EventWaitView::Done(Some(ErrorView::MethodCall(why)))
                    && match message.body.strings(1) {
                    Some(texts) => why == texts[0],
                    None => why.len() == 0,
                }
            } else if elapsed < 100_000_000 {
                wait matches EventWaitView::Wait(left) && elapsed + left == 100_000_000
            } else {
                wait == EventWaitView::Done(None)
            }
        }),
        elapsed < 100_000_000 ==> (event_wait(elapsed) matches EventWaitView::Wait(left) && elapsed
            + left == 100_000_000),
        elapsed >= 100_000_000 ==> event_wait(elapsed) == EventWaitView::Done(None),
{
}

/// What is stated of a menu node is stated of its own fields.
pub proof fn law_node_view_shows_fields(node: MenuNode)
    ensures
        node@.id == node.id,
        node@.label == node.label@,
        node@.enabled == node.enabled,
        node@.visible == node.visible,
        node@.icon_name == node.icon_name@,
        node@.icon_data == node.icon_data@,
        node@.toggle_type == node.toggle_type@,
        node@.toggle_state == node.toggle_state,
        node@.is_submenu == node.is_submenu,
        node@.children == node_models(node.children@),
{
}

/// The contents of a row of nodes are the contents of each, in their order.
pub proof fn law_node_models_show_each(nodes: Seq<MenuNode>)
    ensures
        node_models(nodes).len() == nodes.len(),
        forall|i: int| 0 <= i < nodes.len() ==> (#[trigger] node_models(nodes)[i]) == nodes[i]@,
{
}

/// What is stated of a property value is stated of what it holds.
pub proof fn law_prop_value_view_shows_the_value(
    text: String,
    flag: bool,
    number: i32,
    bytes: Vec<u8>,
)
    ensures
        PropValue::Str(text)@ == PropValueView::Str(text@),
        PropValue::Bool(flag)@ == PropValueView::Bool(flag),
        PropValue::Int(number)@ == PropValueView::Int(number),
        PropValue::Bytes(bytes)@ == PropValueView::Bytes(bytes@),
{
}

/// What is stated of the wait for an event is stated of what it says.
pub proof fn law_event_wait_view_shows_the_wait(nanos: u64, error: Error)
    ensures
        EventWait::Wait(nanos)@ == EventWaitView::Wait(nanos),
        EventWait::Done(Ok(()))@ == EventWaitView::Done(None),
        EventWait::Done(Err(error))@ == EventWaitView::Done(Some(error@)),
{
}

} // verus!
