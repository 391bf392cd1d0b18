//! Tray items: the data model, and how properties are read.

use vstd::prelude::*;

use crate::error::{Error, ErrorView};
use crate::icon::{self, IconPixmap, PixmapView};
use crate::message::{Message, MessageType, MessageView};
use crate::text;
use crate::value::{self, Key, Value, ValueView};
use crate::wire::{Body, BodyView};

verus! {

/// A tray item's unique identifier: its D-Bus bus name.
#[derive(Debug, PartialEq, Eq, Hash)]
pub struct ItemId(pub String);

impl View for ItemId {
    type V = Seq<char>;

    open spec fn view(&self) -> Seq<char> {
        self.0@
    }
}

impl Clone for ItemId {
    fn clone(&self) -> (res: Self)
        ensures
            res@ == self@,
    {
        ItemId(self.0.clone())
    }
}

impl ItemId {
    /// The identifier as text.
    pub fn to_string(&self) -> (res: String)
        ensures
            res@ == self@,
    {
        self.0.clone()
    }
}

/// Tooltip data: icon name, optional icon pixmap, title, and descriptive text.
#[derive(Debug, Clone, PartialEq)]
pub struct ToolTip {
    pub icon_name: String,
    pub icon_pixmap: Option<IconPixmap>,
    pub title: String,
    pub text: String,
}

/// What a [`ToolTip`] holds.
pub struct ToolTipView {
    pub icon_name: Seq<char>,
    pub icon_pixmap: Option<PixmapView>,
    pub title: Seq<char>,
    pub text: Seq<char>,
}

impl View for ToolTip {
    type V = ToolTipView;

    open spec fn view(&self) -> ToolTipView {
        ToolTipView {
            icon_name: self.icon_name@,
            icon_pixmap: match self.icon_pixmap {
                Some(pixmap) => Some(pixmap@),
                None => None,
            },
            title: self.title@,
            text: self.text@,
        }
    }
}

impl ToolTipView {
    /// No tooltip.
    pub open spec fn blank() -> ToolTipView {
        ToolTipView { icon_name: seq![], icon_pixmap: None, title: seq![], text: seq![] }
    }
}

impl Default for ToolTip {
    fn default() -> (res: Self)
        ensures
            res@ == ToolTipView::blank(),
    {
        let res = ToolTip {
            icon_name: String::new(),
            icon_pixmap: None,
            title: String::new(),
            text: String::new(),
        };
        proof {
            assert(res@.icon_name =~= seq![]);
            assert(res@.title =~= seq![]);
            assert(res@.text =~= seq![]);
        }
        res
    }
}

/// Resolved properties of a StatusNotifierItem.
#[derive(Debug, Clone)]
pub struct TrayItem {
    pub id: ItemId,
    pub bus_name: String,
    pub object_path: String,
    pub category: String,
    pub item_id: String,
    pub title: String,
    pub status: String,
    pub window_id: i32,
    pub icon_theme_path: String,
    pub icon_name: String,
    pub icon_pixmaps: Vec<IconPixmap>,
    pub attention_icon_name: String,
    pub attention_icon_pixmaps: Vec<IconPixmap>,
    pub attention_movie_name: String,
    pub overlay_icon_name: String,
    pub overlay_icon_pixmaps: Vec<IconPixmap>,
    pub item_is_menu: bool,
    pub menu_path: String,
    pub tooltip: ToolTip,
}

/// What a [`TrayItem`] holds.
pub struct TrayItemView {
    pub id: Seq<char>,
    pub bus_name: Seq<char>,
    pub object_path: Seq<char>,
    pub category: Seq<char>,
    pub item_id: Seq<char>,
    pub title: Seq<char>,
    pub status: Seq<char>,
    pub window_id: i32,
    pub icon_theme_path: Seq<char>,
    pub icon_name: Seq<char>,
    pub icon_pixmaps: Seq<PixmapView>,
    pub attention_icon_name: Seq<char>,
    pub attention_icon_pixmaps: Seq<PixmapView>,
    pub attention_movie_name: Seq<char>,
    pub overlay_icon_name: Seq<char>,
    pub overlay_icon_pixmaps: Seq<PixmapView>,
    pub item_is_menu: bool,
    pub menu_path: Seq<char>,
    pub tooltip: ToolTipView,
}

impl View for TrayItem {
    type V = TrayItemView;

    open spec fn view(&self) -> TrayItemView {
        TrayItemView {
            id: self.id@,
            bus_name: self.bus_name@,
            object_path: self.object_path@,
            category: self.category@,
            item_id: self.item_id@,
            title: self.title@,
            status: self.status@,
            window_id: self.window_id,
            icon_theme_path: self.icon_theme_path@,
            icon_name: self.icon_name@,
            icon_pixmaps: icon::pixmap_views(self.icon_pixmaps@),
            attention_icon_name: self.attention_icon_name@,
            attention_icon_pixmaps: icon::pixmap_views(self.attention_icon_pixmaps@),
            attention_movie_name: self.attention_movie_name@,
            overlay_icon_name: self.overlay_icon_name@,
            overlay_icon_pixmaps: icon::pixmap_views(self.overlay_icon_pixmaps@),
            item_is_menu: self.item_is_menu,
            menu_path: self.menu_path@,
            tooltip: self.tooltip@,
        }
    }
}

/// The D-Bus interface of tray items.
pub const SNI_IFACE: &'static str = "org.kde.StatusNotifierItem";

// ---------------------------------------------------------------------------
// What a reply says of an item

/// The text of a string; empty for anything else.
pub open spec fn string_of(value: ValueView) -> Seq<char> {
    match value {
        ValueView::Str(s) => s,
        _ => seq![],
    }
}

/// The text property `key`: a string or an object path, empty for anything else.
pub open spec fn text_property(props: Map<Seq<char>, ValueView>, key: Seq<char>) -> Seq<char> {
    match value::variant_at(props, key) {
        Some(ValueView::Str(s)) => s,
        Some(ValueView::ObjectPath(s)) => s,
        _ => seq![],
    }
}

/// The boolean property `key`, false where it is something else.
pub open spec fn bool_property(props: Map<Seq<char>, ValueView>, key: Seq<char>) -> bool {
    value::variant_at(props, key) == Some(ValueView::Boolean(true))
}

/// The number property `key`, zero where it is something else.
pub open spec fn i32_property(props: Map<Seq<char>, ValueView>, key: Seq<char>) -> i32 {
    match value::variant_at(props, key) {
        Some(ValueView::Int32(n)) => n,
        _ => 0,
    }
}

/// The pixmap that the fields `(iiay)` stand for. Further fields are ignored, and so is
/// everything among the pixel data that is not a byte.
pub open spec fn pixmap_of(fields: Seq<ValueView>) -> Option<PixmapView> {
    if fields.len() < 3 {
        None
    } else {
        match (fields[0], fields[1], fields[2]) {
            (ValueView::Int32(w), ValueView::Int32(h), ValueView::Array(raw)) => icon::decoded(
                w as int,
                h as int,
                value::bytes_among(raw),
            ),
            _ => None,
        }
    }
}

/// The pixmap that a value stands for, where it is a structure that stands for one.
pub open spec fn pixmap_in(value: ValueView) -> Option<PixmapView> {
    match value {
        ValueView::Struct(fields) => pixmap_of(fields),
        _ => None,
    }
}

/// The pixmaps of those among `values` that stand for one, in their order.
pub open spec fn pixmaps_among(values: Seq<ValueView>) -> Seq<PixmapView>
    decreases values.len(),
{
    if values.len() == 0 {
        seq![]
    } else {
        let before = pixmaps_among(values.drop_last());
        match pixmap_in(values.last()) {
            Some(pixmap) => before.push(pixmap),
            None => before,
        }
    }
}

/// The pixmaps in a variant that holds an array of them.
pub open spec fn pixmaps_of(value: ValueView) -> Seq<PixmapView> {
    match value {
        ValueView::Variant(inner) => match *inner {
            ValueView::Array(values) => pixmaps_among(values),
            _ => seq![],
        },
        _ => seq![],
    }
}

/// The first pixmap in an array of them, where the first element stands for one.
pub open spec fn first_pixmap(value: ValueView) -> Option<PixmapView> {
    match value {
        ValueView::Array(values) => if values.len() == 0 {
            None
        } else {
            pixmap_in(values[0])
        },
        _ => None,
    }
}

/// The tooltip in a variant that holds a structure `(sa(iiay)ss)`. Anything else, and a
/// structure with fewer fields, is no tooltip.
pub open spec fn tooltip_of(value: ValueView) -> ToolTipView {
    match value {
        ValueView::Variant(inner) => match *inner {
            ValueView::Struct(fields) => if fields.len() < 4 {
                ToolTipView::blank()
            } else {
                ToolTipView {
                    icon_name: string_of(fields[0]),
                    icon_pixmap: first_pixmap(fields[1]),
                    title: string_of(fields[2]),
                    text: string_of(fields[3]),
                }
            },
            _ => ToolTipView::blank(),
        },
        _ => ToolTipView::blank(),
    }
}

/// The pixmaps property `key`, empty where there is none.
pub open spec fn pixmaps_property(props: Map<Seq<char>, ValueView>, key: Seq<char>) -> Seq<
    PixmapView,
> {
    if props.contains_key(key) {
        pixmaps_of(props[key])
    } else {
        seq![]
    }
}

/// The tooltip property `key`, blank where there is none.
pub open spec fn tooltip_property(
    props: Map<Seq<char>, ValueView>,
    key: Seq<char>,
) -> ToolTipView {
    if props.contains_key(key) {
        tooltip_of(props[key])
    } else {
        ToolTipView::blank()
    }
}

/// The properties in the body of a reply, none where it does not begin with a dictionary.
pub open spec fn properties_in(param: Option<ValueView>) -> Map<Seq<char>, ValueView> {
    match param {
        Some(ValueView::Dict(props)) => props,
        _ => Map::empty(),
    }
}

impl TrayItemView {
    /// The item with the given properties.
    pub open spec fn from_properties(
        props: Map<Seq<char>, ValueView>,
        service_id: Seq<char>,
        bus_name: Seq<char>,
        object_path: Seq<char>,
    ) -> TrayItemView {
        TrayItemView {
            id: service_id,
            bus_name,
            object_path,
            category: text_property(props, "Category"@),
            item_id: text_property(props, "Id"@),
            title: text_property(props, "Title"@),
            status: text_property(props, "Status"@),
            window_id: i32_property(props, "WindowId"@),
            icon_theme_path: text_property(props, "IconThemePath"@),
            icon_name: text_property(props, "IconName"@),
            icon_pixmaps: pixmaps_property(props, "IconPixmap"@),
            attention_icon_name: text_property(props, "AttentionIconName"@),
            attention_icon_pixmaps: pixmaps_property(props, "AttentionIconPixmap"@),
            attention_movie_name: text_property(props, "AttentionMovieName"@),
            overlay_icon_name: text_property(props, "OverlayIconName"@),
            overlay_icon_pixmaps: pixmaps_property(props, "OverlayIconPixmap"@),
            item_is_menu: bool_property(props, "ItemIsMenu"@),
            menu_path: text_property(props, "Menu"@),
            tooltip: tooltip_property(props, "ToolTip"@),
        }
    }

    /// The item that a reply to `GetAll` describes.
    pub open spec fn from_reply(
        reply: BodyView,
        service_id: Seq<char>,
        bus_name: Seq<char>,
        object_path: Seq<char>,
    ) -> TrayItemView {
        TrayItemView::from_properties(
            properties_in(reply.param()),
            service_id,
            bus_name,
            object_path,
        )
    }
}

/// What a received message says of the `GetAll` call with that serial number: nothing, or
/// the item, or why there is none.
pub open spec fn fetched(
    message: MessageView,
    serial: u32,
    service_id: Seq<char>,
    bus_name: Seq<char>,
    object_path: Seq<char>,
) -> Option<Result<TrayItemView, ErrorView>> {
    if message.answers(MessageType::Reply, serial) {
        Some(Ok(TrayItemView::from_reply(message.body, service_id, bus_name, object_path)))
    } else if message.answers(MessageType::Error, serial) {
        Some(Err(ErrorView::MethodCall(error_text(message.body))))
    } else {
        None
    }
}

/// The text of an error reply: its first parameter where that is a string, else nothing.
pub open spec fn error_text(body: BodyView) -> Seq<char> {
    match body.strings(1) {
        Some(texts) => texts[0],
        None => seq![],
    }
}

// ---------------------------------------------------------------------------
// Reading a reply

fn text_at(props: &Vec<(Key, Value)>, key: &str) -> (res: String)
    ensures
        res@ == text_property(value::entry_map(props@), key@),
{
    match value::variant_under(props, key) {
        Some(Value::Str(s)) => s.clone(),
        Some(Value::ObjectPath(s)) => s.clone(),
        _ => empty_text(),
    }
}

fn bool_at(props: &Vec<(Key, Value)>, key: &str) -> (res: bool)
    ensures
        res == bool_property(value::entry_map(props@), key@),
{
    match value::variant_under(props, key) {
        Some(Value::Boolean(b)) => *b,
        _ => false,
    }
}

fn i32_at(props: &Vec<(Key, Value)>, key: &str) -> (res: i32)
    ensures
        res == i32_property(value::entry_map(props@), key@),
{
    match value::variant_under(props, key) {
        Some(Value::Int32(n)) => *n,
        _ => 0,
    }
}

fn pixmaps_at(props: &Vec<(Key, Value)>, key: &str) -> (res: Vec<IconPixmap>)
    ensures
        icon::pixmap_views(res@) == pixmaps_property(value::entry_map(props@), key@),
{
    match value::lookup(props, key) {
        Some(found) => extract_pixmaps_from_param(found),
        None => no_pixmaps(),
    }
}

fn tooltip_at(props: &Vec<(Key, Value)>, key: &str) -> (res: ToolTip)
    ensures
        res@ == tooltip_property(value::entry_map(props@), key@),
{
    match value::lookup(props, key) {
        Some(found) => extract_tooltip_from_param(found),
        None => ToolTip::default(),
    }
}

fn empty_text() -> (res: String)
    ensures
        res@ == Seq::<char>::empty(),
{
    let res: String = String::new();
    assert(res@ =~= seq![]);
    res
}

fn no_pixmaps() -> (res: Vec<IconPixmap>)
    ensures
        icon::pixmap_views(res@) == Seq::<PixmapView>::empty(),
{
    let res: Vec<IconPixmap> = Vec::new();
    assert(icon::pixmap_views(res@) =~= seq![]);
    res
}

fn string_in(field: &Value) -> (res: String)
    ensures
        res@ == string_of(field@),
{
    match field {
        Value::Str(s) => s.clone(),
        _ => empty_text(),
    }
}

/// Parse a single `(i32, i32, ay)` struct into an IconPixmap.
pub fn parse_pixmap_struct(fields: &Vec<Value>) -> (res: Option<IconPixmap>)
    ensures
        match res {
            Some(pixmap) => pixmap_of(value::models(fields@)) == Some(pixmap@),
            None => pixmap_of(value::models(fields@)) is None,
        },
{
    if fields.len() < 3 {
        return None;
    }
    proof {
        let all = value::models(fields@);
        assert(all[0] == fields@[0]@ && all[1] == fields@[1]@ && all[2] == fields@[2]@);
    }
    let w: i32 = match &fields[0] {
        Value::Int32(n) => *n,
        _ => return None,
    };
    let h: i32 = match &fields[1] {
        Value::Int32(n) => *n,
        _ => return None,
    };
    let raw: Vec<u8> = match &fields[2] {
        Value::Array(values) => value::collect_bytes(values),
        _ => return None,
    };
    IconPixmap::from_argb32be(w, h, raw.as_slice())
}

fn pixmap_from(value: &Value) -> (res: Option<IconPixmap>)
    ensures
        match res {
            Some(pixmap) => pixmap_in(value@) == Some(pixmap@),
            None => pixmap_in(value@) is None,
        },
{
    match value {
        Value::Struct(fields) => parse_pixmap_struct(fields),
        _ => None,
    }
}

/// Extract IconPixmaps from a value (a variant containing `a(iiay)`).
pub fn extract_pixmaps_from_param(param: &Value) -> (res: Vec<IconPixmap>)
    ensures
        icon::pixmap_views(res@) == pixmaps_of(param@),
{
    let inner: &Value = match param {
        Value::Variant(inner) => &**inner,
        _ => return no_pixmaps(),
    };
    assert(param@ == ValueView::Variant(Box::new(inner@)));
    let array: &Vec<Value> = match inner {
        Value::Array(values) => values,
        _ => return no_pixmaps(),
    };
    let ghost all = value::models(array@);
    let mut out: Vec<IconPixmap> = no_pixmaps();
    let mut i: usize = 0;
    while i < array.len()
        invariant
            i <= array@.len(),
            all == value::models(array@),
            icon::pixmap_views(out@) == pixmaps_among(all.take(i as int)),
        decreases array@.len() - i,
    {
        let ghost before = out@;
        proof {
            assert(all.take(i + 1).drop_last() =~= all.take(i as int));
            assert(all.take(i + 1).last() == array@[i as int]@);
        }
        if let Some(pixmap) = pixmap_from(&array[i]) {
            out.push(pixmap);
            proof {
                assert(icon::pixmap_views(out@) =~= icon::pixmap_views(before).push(pixmap@));
            }
        }
        i = i + 1;
    }
    proof {
        assert(all.take(i as int) =~= all);
    }
    out
}

/// Parse a variant containing `(sa(iiay)ss)` into a ToolTip.
pub fn extract_tooltip_from_param(param: &Value) -> (res: ToolTip)
    ensures
        res@ == tooltip_of(param@),
{
    let inner: &Value = match param {
        Value::Variant(inner) => &**inner,
        _ => return ToolTip::default(),
    };
    assert(param@ == ValueView::Variant(Box::new(inner@)));
    let fields: &Vec<Value> = match inner {
        Value::Struct(fields) => fields,
        _ => return ToolTip::default(),
    };
    assert(inner@ == ValueView::Struct(value::models(fields@)));
    if fields.len() < 4 {
        return ToolTip::default();
    }
    proof {
        let all = value::models(fields@);
        assert(all[0] == fields@[0]@ && all[1] == fields@[1]@);
        assert(all[2] == fields@[2]@ && all[3] == fields@[3]@);
    }
    let icon_name: String = string_in(&fields[0]);
    // icon pixmap: a(iiay), of which the first image is taken if present
    let icon_pixmap: Option<IconPixmap> = match &fields[1] {
        Value::Array(values) => {
            assert(fields@[1]@ == ValueView::Array(value::models(values@)));
            if values.len() == 0 {
                None
            } else {
                pixmap_from(&values[0])
            }
        },
        _ => None,
    };
    let title: String = string_in(&fields[2]);
    let text: String = string_in(&fields[3]);
    ToolTip { icon_name, icon_pixmap, title, text }
}

impl TrayItem {
    /// The item that a dictionary of properties describes. A value that is no dictionary
    /// describes an item without any.
    pub fn from_properties(
        value: &Value,
        service_id: &str,
        bus_name: &str,
        object_path: &str,
    ) -> (res: TrayItem)
        ensures
            res@ == TrayItemView::from_properties(
                properties_in(Some(value@)),
                service_id@,
                bus_name@,
                object_path@,
            ),
    {
        let none: Vec<(Key, Value)> = Vec::new();
        let props: &Vec<(Key, Value)> = match value {
            Value::Dict(entries) => entries,
            _ => &none,
        };
        proof {
            assert(value::entry_map(none@) =~= Map::empty());
            assert(value::entry_map(props@) == properties_in(Some(value@)));
        }
        TrayItem {
            id: ItemId(service_id.to_owned()),
            bus_name: bus_name.to_owned(),
            object_path: object_path.to_owned(),
            category: text_at(props, "Category"),
            item_id: text_at(props, "Id"),
            title: text_at(props, "Title"),
            status: text_at(props, "Status"),
            window_id: i32_at(props, "WindowId"),
            icon_theme_path: text_at(props, "IconThemePath"),
            icon_name: text_at(props, "IconName"),
            icon_pixmaps: pixmaps_at(props, "IconPixmap"),
            attention_icon_name: text_at(props, "AttentionIconName"),
            attention_icon_pixmaps: pixmaps_at(props, "AttentionIconPixmap"),
            attention_movie_name: text_at(props, "AttentionMovieName"),
            overlay_icon_name: text_at(props, "OverlayIconName"),
            overlay_icon_pixmaps: pixmaps_at(props, "OverlayIconPixmap"),
            item_is_menu: bool_at(props, "ItemIsMenu"),
            menu_path: text_at(props, "Menu"),
            tooltip: tooltip_at(props, "ToolTip"),
        }
    }

    /// Build a TrayItem from a `GetAll` reply message. The reply must be a Reply (not an
    /// Error), and it is for the caller to check that it answers the call.
    ///
    /// Properties that are missing or of another type than expected are left empty.
    pub fn from_get_all_reply(
        reply: &Message,
        service_id: &str,
        bus_name: &str,
        object_path: &str,
    ) -> (res: Result<TrayItem, Error>)
        ensures
            res matches Ok(item) && item@ == TrayItemView::from_reply(
                reply@.body,
                service_id@,
                bus_name@,
                object_path@,
            ),
    {
        let value: Value = match reply.body.read_param() {
            Ok(value) => value,
            Err(_) => Value::Other,
        };
        proof {
            assert(properties_in(Some(value@)) == properties_in(reply@.body.param()));
        }
        Ok(TrayItem::from_properties(&value, service_id, bus_name, object_path))
    }

    /// The `Properties.GetAll` call that reads all properties of an item at once.
    pub fn send_get_all(bus_name: &str, object_path: &str) -> (res: Message)
        ensures
            res@ == get_all_call(bus_name@, object_path@),
    {
        Message::call(
            bus_name,
            object_path,
            "org.freedesktop.DBus.Properties",
            "GetAll",
            Body::new().with_str(SNI_IFACE),
        )
    }

    /// What a message that arrives while the reply to the `GetAll` call with that serial
    /// number is awaited has to say about it.
    ///
    /// `None` where the message is not about the call; the caller keeps it for later.
    pub fn from_bus_get_all(
        message: &Message,
        serial: u32,
        service_id: &str,
        bus_name: &str,
        object_path: &str,
    ) -> (res: Option<Result<TrayItem, Error>>)
        ensures
            fetched_view(res) == fetched(
                message@,
                serial,
                service_id@,
                bus_name@,
                object_path@,
            ),
    {
        if message.answers(MessageType::Reply, serial) {
            return Some(TrayItem::from_get_all_reply(message, service_id, bus_name, object_path));
        }
        // Error for our call (UnknownInterface etc.): not an SNI item
        if message.answers(MessageType::Error, serial) {
            return Some(Err(Error::MethodCall(read_error_text(&message.body))));
        }
        None
    }
}

/// The contents of the outcome of a fetch.
pub open spec fn fetched_view(outcome: Option<Result<TrayItem, Error>>) -> Option<
    Result<TrayItemView, ErrorView>,
> {
    match outcome {
        Some(Ok(item)) => Some(Ok(item@)),
        Some(Err(error)) => Some(Err(error@)),
        None => None,
    }
}

/// The `Properties.GetAll` call that reads all properties of an item.
pub open spec fn get_all_call(bus_name: Seq<char>, object_path: Seq<char>) -> MessageView {
    MessageView::call(
        bus_name,
        object_path,
        "org.freedesktop.DBus.Properties"@,
        "GetAll"@,
    ).with_body(BodyView::empty().with_str(SNI_IFACE@))
}

/// The text of an error reply: its first parameter where that is a string, else nothing.
pub fn read_error_text(body: &Body) -> (res: String)
    ensures
        res@ == error_text(body@),
{
    match body.read_string() {
        Ok(text) => text,
        Err(_) => empty_text(),
    }
}

// ---------------------------------------------------------------------------
// Questions about an item

/// A menu can be asked for at that path: it is neither empty nor the root.
pub open spec fn names_menu(path: Seq<char>) -> bool {
    path.len() > 0 && path != "/"@
}

/// The pixmap at `at` has the most pixels, and every one behind it has fewer.
pub open spec fn is_last_largest(pixmaps: Seq<PixmapView>, at: int) -> bool {
    &&& 0 <= at < pixmaps.len()
    &&& forall|i: int|
        0 <= i < pixmaps.len() ==> (#[trigger] pixmaps[i]).pixels() <= pixmaps[at].pixels()
    &&& forall|i: int|
        at < i < pixmaps.len() ==> (#[trigger] pixmaps[i]).pixels() < pixmaps[at].pixels()
}

/// `best` is the last of the largest pixmaps, and nothing where there are none.
pub open spec fn is_best(pixmaps: Seq<PixmapView>, best: Option<PixmapView>) -> bool {
    match best {
        Some(pixmap) => exists|at: int|
            is_last_largest(pixmaps, at) && pixmap == #[trigger] pixmaps[at],
        None => pixmaps.len() == 0,
    }
}

/// The contents of an optional pixmap.
pub open spec fn optional_pixmap(pixmap: Option<&IconPixmap>) -> Option<PixmapView> {
    match pixmap {
        Some(p) => Some(p@),
        None => None,
    }
}

/// The number of pixels of a pixmap.
fn pixel_count(pixmap: &IconPixmap) -> (res: u64)
    ensures
        res == pixmap@.pixels(),
{
    let w: u64 = pixmap.width as u64;
    let h: u64 = pixmap.height as u64;
    assert(0 <= w * h <= 0xffff_ffff * 0xffff_ffff) by (nonlinear_arith)
        requires
            0 <= w <= 0xffff_ffff,
            0 <= h <= 0xffff_ffff,
    ;
    w * h
}

fn largest(pixmaps: &Vec<IconPixmap>) -> (res: Option<&IconPixmap>)
    ensures
        is_best(icon::pixmap_views(pixmaps@), optional_pixmap(res)),
{
    if pixmaps.len() == 0 {
        return None;
    }
    let ghost all = icon::pixmap_views(pixmaps@);
    let mut best: usize = 0;
    let mut most: u64 = pixel_count(&pixmaps[0]);
    let mut i: usize = 1;
    while i < pixmaps.len()
        invariant
            all == icon::pixmap_views(pixmaps@),
            best < i <= pixmaps@.len(),
            most == all[best as int].pixels(),
            forall|k: int| 0 <= k < i ==> (#[trigger] all[k]).pixels() <= most,
            forall|k: int| best < k < i ==> (#[trigger] all[k]).pixels() < most,
        decreases pixmaps@.len() - i,
    {
        let count: u64 = pixel_count(&pixmaps[i]);
        assert(all[i as int].pixels() == count);
        if count >= most {
            best = i;
            most = count;
        }
        i = i + 1;
    }
    assert(is_last_largest(all, best as int));
    assert(pixmaps@[best as int]@ == all[best as int]);
    Some(&pixmaps[best])
}

impl TrayItem {
    /// Whether this item has an associated menu.
    pub fn has_menu(&self) -> (res: bool)
        ensures
            res == names_menu(self@.menu_path),
            res == (self.menu_path@.len() > 0 && self.menu_path@ != "/"@),
    {
        !self.menu_path.as_str().is_empty() && !text::same(self.menu_path.as_str(), "/")
    }

    /// Select the largest icon pixmap by pixel count, the last one of several.
    pub fn best_icon_pixmap(&self) -> (res: Option<&IconPixmap>)
        ensures
            is_best(self@.icon_pixmaps, optional_pixmap(res)),
    {
        largest(&self.icon_pixmaps)
    }

    /// Select the largest overlay icon pixmap by pixel count, the last one of several.
    pub fn best_overlay_icon_pixmap(&self) -> (res: Option<&IconPixmap>)
        ensures
            is_best(self@.overlay_icon_pixmaps, optional_pixmap(res)),
    {
        largest(&self.overlay_icon_pixmaps)
    }

    /// Select the largest attention icon pixmap by pixel count, the last one of several.
    pub fn best_attention_icon_pixmap(&self) -> (res: Option<&IconPixmap>)
        ensures
            is_best(self@.attention_icon_pixmaps, optional_pixmap(res)),
    {
        largest(&self.attention_icon_pixmaps)
    }

    /// Icon search paths for theme lookup: `[icon_theme_path, "/usr/share/pixmaps"]`, without
    /// the first where it is empty.
    pub fn icon_search_paths(&self) -> (res: Vec<&str>)
        ensures
            crate::wire::str_views(res@) == if self@.icon_theme_path.len() == 0 {
                seq!["/usr/share/pixmaps"@]
            } else {
                seq![self@.icon_theme_path, "/usr/share/pixmaps"@]
            },
    {
        let mut paths: Vec<&str> = Vec::new();
        if !self.icon_theme_path.as_str().is_empty() {
            paths.push(self.icon_theme_path.as_str());
        }
        paths.push("/usr/share/pixmaps");
        proof {
            let shown = crate::wire::str_views(paths@);
            if self@.icon_theme_path.len() == 0 {
                assert(shown =~= seq!["/usr/share/pixmaps"@]);
            } else {
                assert(shown =~= seq![self@.icon_theme_path, "/usr/share/pixmaps"@]);
            }
        }
        paths
    }
}

// ---------------------------------------------------------------------------
// Calls to an item

/// A call of a method of a tray item.
pub open spec fn item_call(
    bus_name: Seq<char>,
    object_path: Seq<char>,
    method: Seq<char>,
    body: BodyView,
) -> MessageView {
    MessageView::call(bus_name, object_path, SNI_IFACE@, method).with_body(body)
}

/// The call of a simple (x, y) method on a StatusNotifierItem.
pub fn call_method(bus_name: &str, object_path: &str, method: &str, x: i32, y: i32) -> (res:
    Message)
    ensures
        res@ == item_call(
            bus_name@,
            object_path@,
            method@,
            BodyView::empty().with_i32(x).with_i32(y),
        ),
{
    let body: Body = Body::new().with_i32(x).with_i32(y);
    Message::call(bus_name, object_path, SNI_IFACE, method, body)
}

/// The call of a method with a single string parameter on a StatusNotifierItem.
pub fn call_method_str(bus_name: &str, object_path: &str, method: &str, param: &str) -> (res:
    Message)
    ensures
        res@ == item_call(bus_name@, object_path@, method@, BodyView::empty().with_str(param@)),
{
    Message::call(bus_name, object_path, SNI_IFACE, method, Body::new().with_str(param))
}

/// The call of a method with (i32, &str) parameters on a StatusNotifierItem.
pub fn call_method_i32_str(
    bus_name: &str,
    object_path: &str,
    method: &str,
    p1: i32,
    p2: &str,
) -> (res: Message)
    ensures
        res@ == item_call(
            bus_name@,
            object_path@,
            method@,
            BodyView::empty().with_i32(p1).with_str(p2@),
        ),
{
    let body: Body = Body::new().with_i32(p1).with_str(p2);
    Message::call(bus_name, object_path, SNI_IFACE, method, body)
}

// ---------------------------------------------------------------------------
// Laws

/// There is exactly one best pixmap, and none of the others has more pixels.
pub proof fn law_best_is_unique_and_largest(
    pixmaps: Seq<PixmapView>,
    one: Option<PixmapView>,
    other: Option<PixmapView>,
)
    requires
        is_best(pixmaps, one),
        is_best(pixmaps, other),
    ensures
        one == other,
        one is Some <==> pixmaps.len() > 0,
        one matches Some(best) ==> forall|i: int|
            0 <= i < pixmaps.len() ==> (#[trigger] pixmaps[i]).pixels() <= best.pixels(),
{
    if let Some(best) = one {
        let a = choose|at: int| is_last_largest(pixmaps, at) && best == #[trigger] pixmaps[at];
        let second = other->0;
        let b = choose|at: int| is_last_largest(pixmaps, at) && second == #[trigger] pixmaps[at];
        assert(pixmaps[a].pixels() <= pixmaps[b].pixels());
        assert(pixmaps[b].pixels() <= pixmaps[a].pixels());
        assert(a == b);
    }
}

/// An item keeps the identity that it was asked for under, whatever its reply says.
pub proof fn law_reply_keeps_identity(
    reply: BodyView,
    service_id: Seq<char>,
    bus_name: Seq<char>,
    object_path: Seq<char>,
)
    ensures
        ({
            let item = TrayItemView::from_reply(reply, service_id, bus_name, object_path);
            item.id == service_id && item.bus_name == bus_name && item.object_path == object_path
        }),
{
}

/// Every pixmap of an item has positive dimensions and four bytes of data for each pixel.
pub proof fn law_item_pixmaps_are_complete(values: Seq<ValueView>, at: int)
    requires
        0 <= at < pixmaps_among(values).len(),
    ensures
        ({
            let pixmap = pixmaps_among(values)[at];
            pixmap.pixels() > 0 && pixmap.data.len() == 4 * pixmap.pixels()
        }),
    decreases values.len(),
{
    let before = pixmaps_among(values.drop_last());
    if at < before.len() {
        law_item_pixmaps_are_complete(values.drop_last(), at);
    } else if let ValueView::Struct(fields) = values.last() {
        match (fields[0], fields[1], fields[2]) {
            (ValueView::Int32(w), ValueView::Int32(h), ValueView::Array(raw)) => {
                icon::law_decoded_has_four_bytes_per_pixel(w, h, value::bytes_among(raw));
            },
            _ => {},
        }
    }
}

/// Each text of an item is what the reply has under its key, be it a string or an object path,
/// and is empty where the reply has neither there.
pub proof fn law_item_texts_are_the_properties(
    reply: BodyView,
    props: Map<Seq<char>, ValueView>,
    service_id: Seq<char>,
    bus_name: Seq<char>,
    object_path: Seq<char>,
    text: Seq<char>,
)
    requires
        reply.param() == Some(ValueView::Dict(props)),
    ensures
        ({
            let item = TrayItemView::from_reply(reply, service_id, bus_name, object_path);
            &&& value::says(props, "Category"@, ValueView::Str(text)) ==> item.category == text
            &&& value::says(props, "Category"@, ValueView::ObjectPath(text)) ==> item.category == text
            &&& item.category.len() > 0 ==> value::says(
                props,
                "Category"@,
                ValueView::Str(item.category),
            ) || value::says(props, "Category"@, ValueView::ObjectPath(item.category))
            &&& value::says(props, "Id"@, ValueView::Str(text)) ==> item.item_id == text
            &&& value::says(props, "Id"@, ValueView::ObjectPath(text)) ==> item.item_id == text
            &&& item.item_id.len() > 0 ==> value::says(
                props,
                "Id"@,
                ValueView::Str(item.item_id),
            ) || value::says(props, "Id"@, ValueView::ObjectPath(item.item_id))
            &&& value::says(props, "Title"@, ValueView::Str(text)) ==> item.title == text
            &&& value::says(props, "Title"@, ValueView::ObjectPath(text)) ==> item.title == text
            &&& item.title.len() > 0 ==> value::says(
                props,
                "Title"@,
                ValueView::Str(item.title),
            ) || value::says(props, "Title"@, ValueView::ObjectPath(item.title))
            &&& value::says(props, "Status"@, ValueView::Str(text)) ==> item.status == text
            &&& value::says(props, "Status"@, ValueView::ObjectPath(text)) ==> item.status == text
            &&& item.status.len() > 0 ==> value::says(
                props,
                "Status"@,
                ValueView::Str(item.status),
            ) || value::says(props, "Status"@, ValueView::ObjectPath(item.status))
            &&& value::says(props, "IconThemePath"@, ValueView::Str(text)) ==> item.icon_theme_path == text
            &&& value::says(props, "IconThemePath"@, ValueView::ObjectPath(text)) ==> item.icon_theme_path == text
            &&& item.icon_theme_path.len() > 0 ==> value::says(
                props,
                "IconThemePath"@,
                ValueView::Str(item.icon_theme_path),
            ) || value::says(props, "IconThemePath"@, ValueView::ObjectPath(item.icon_theme_path))
            &&& value::says(props, "IconName"@, ValueView::Str(text)) ==> item.icon_name == text
            &&& value::says(props, "IconName"@, ValueView::ObjectPath(text)) ==> item.icon_name == text
            &&& item.icon_name.len() > 0 ==> value::says(
                props,
                "IconName"@,
                ValueView::Str(item.icon_name),
            ) || value::says(props, "IconName"@, ValueView::ObjectPath(item.icon_name))
            &&& value::says(props, "AttentionIconName"@, ValueView::Str(text)) ==> item.attention_icon_name == text
            &&& value::says(props, "AttentionIconName"@, ValueView::ObjectPath(text)) ==> item.attention_icon_name == text
            &&& item.attention_icon_name.len() > 0 ==> value::says(
                props,
                "AttentionIconName"@,
                ValueView::Str(item.attention_icon_name),
            ) || value::says(props, "AttentionIconName"@, ValueView::ObjectPath(item.attention_icon_name))
            &&& value::says(props, "AttentionMovieName"@, ValueView::Str(text)) ==> item.attention_movie_name == text
            &&& value::says(props, "AttentionMovieName"@, ValueView::ObjectPath(text)) ==> item.attention_movie_name == text
            &&& item.attention_movie_name.len() > 0 ==> value::says(
                props,
                "AttentionMovieName"@,
                ValueView::Str(item.attention_movie_name),
            ) || value::says(props, "AttentionMovieName"@, ValueView::ObjectPath(item.attention_movie_name))
            &&& value::says(props, "OverlayIconName"@, ValueView::Str(text)) ==> item.overlay_icon_name == text
            &&& value::says(props, "OverlayIconName"@, ValueView::ObjectPath(text)) ==> item.overlay_icon_name == text
            &&& item.overlay_icon_name.len() > 0 ==> value::says(
                props,
                "OverlayIconName"@,
                ValueView::Str(item.overlay_icon_name),
            ) || value::says(props, "OverlayIconName"@, ValueView::ObjectPath(item.overlay_icon_name))
            &&& value::says(props, "Menu"@, ValueView::Str(text)) ==> item.menu_path == text
            &&& value::says(props, "Menu"@, ValueView::ObjectPath(text)) ==> item.menu_path == text
            &&& item.menu_path.len() > 0 ==> value::says(
                props,
                "Menu"@,
                ValueView::Str(item.menu_path),
            ) || value::says(props, "Menu"@, ValueView::ObjectPath(item.menu_path))
        }),
{
}

/// The number and the flag of an item are what the reply has under their keys, and zero and
/// false where it has no such thing there.
pub proof fn law_item_number_and_flag_are_the_properties(
    reply: BodyView,
    props: Map<Seq<char>, ValueView>,
    service_id: Seq<char>,
    bus_name: Seq<char>,
    object_path: Seq<char>,
    number: i32,
    flag: bool,
)
    requires
        reply.param() == Some(ValueView::Dict(props)),
    ensures
        ({
            let item = TrayItemView::from_reply(reply, service_id, bus_name, object_path);
            &&& value::says(props, "WindowId"@, ValueView::Int32(number)) ==> item.window_id
                == number
            &&& item.window_id != 0 ==> value::says(
                props,
                "WindowId"@,
                ValueView::Int32(item.window_id),
            )
            &&& value::says(props, "ItemIsMenu"@, ValueView::Boolean(flag)) ==> item.item_is_menu
                == flag
            &&& item.item_is_menu ==> value::says(props, "ItemIsMenu"@, ValueView::Boolean(true))
        }),
{
}

/// Each row of icons of an item is decoded from the array that the reply has under its key, and
/// is empty where the reply has no array there.
pub proof fn law_item_icons_are_the_properties(
    reply: BodyView,
    props: Map<Seq<char>, ValueView>,
    service_id: Seq<char>,
    bus_name: Seq<char>,
    object_path: Seq<char>,
    values: Seq<ValueView>,
)
    requires
        reply.param() == Some(ValueView::Dict(props)),
    ensures
        ({
            let item = TrayItemView::from_reply(reply, service_id, bus_name, object_path);
            &&& value::says(props, "IconPixmap"@, ValueView::Array(values)) ==> item.icon_pixmaps
                == pixmaps_among(values)
            &&& item.icon_pixmaps.len() > 0 ==> exists|values: Seq<ValueView>| #[trigger]
                value::says(props, "IconPixmap"@, ValueView::Array(values))
            &&& value::says(props, "AttentionIconPixmap"@, ValueView::Array(values)) ==> item.attention_icon_pixmaps
                == pixmaps_among(values)
            &&& item.attention_icon_pixmaps.len() > 0 ==> exists|values: Seq<ValueView>| #[trigger]
                value::says(props, "AttentionIconPixmap"@, ValueView::Array(values))
            &&& value::says(props, "OverlayIconPixmap"@, ValueView::Array(values)) ==> item.overlay_icon_pixmaps
                == pixmaps_among(values)
            &&& item.overlay_icon_pixmaps.len() > 0 ==> exists|values: Seq<ValueView>| #[trigger]
                value::says(props, "OverlayIconPixmap"@, ValueView::Array(values))
        }),
{
    let item = TrayItemView::from_reply(reply, service_id, bus_name, object_path);
    if item.icon_pixmaps.len() > 0 {
        if let ValueView::Variant(inner) = props["IconPixmap"@] {
            if let ValueView::Array(array) = *inner {
                assert(value::says(props, "IconPixmap"@, ValueView::Array(array)));
            }
        }
    }
    if item.attention_icon_pixmaps.len() > 0 {
        if let ValueView::Variant(inner) = props["AttentionIconPixmap"@] {
            if let ValueView::Array(array) = *inner {
                assert(value::says(props, "AttentionIconPixmap"@, ValueView::Array(array)));
            }
        }
    }
    if item.overlay_icon_pixmaps.len() > 0 {
        if let ValueView::Variant(inner) = props["OverlayIconPixmap"@] {
            if let ValueView::Array(array) = *inner {
                assert(value::says(props, "OverlayIconPixmap"@, ValueView::Array(array)));
            }
        }
    }
}

/// An icon is a structure of a width, a height and an array of pixel bytes; anything behind
/// these is ignored. Its pixels `[A,R,G,B]` become `[B,G,R,A]`, each at the same place. Where
/// pixels are missing or a dimension is not positive, there is no icon.
pub proof fn law_icon_is_read_from_its_fields(fields: Seq<ValueView>, w: i32, h: i32, raw: Seq<
    ValueView,
>)
    requires
        fields.len() >= 3,
        fields[0] == ValueView::Int32(w),
        fields[1] == ValueView::Int32(h),
        fields[2] == ValueView::Array(raw),
        forall|i: int| 0 <= i < raw.len() ==> #[trigger] raw[i] is Byte,
    ensures
        pixmaps_among(seq![ValueView::Struct(fields)]).len() == if w > 0 && h > 0 && 4 * (w * h)
            <= raw.len() {
            1nat
        } else {
            0nat
        },
        w > 0 && h > 0 && 4 * (w * h) <= raw.len() ==> {
            let icon = pixmaps_among(seq![ValueView::Struct(fields)])[0];
            &&& icon.width == w && icon.height == h
            &&& icon.data.len() == 4 * (w * h)
            &&& forall|k: int|
                0 <= k < w * h ==> {
                    &&& raw[4 * k + 3] == ValueView::Byte(#[trigger] icon.data[4 * k])
                    &&& raw[4 * k + 2] == ValueView::Byte(icon.data[4 * k + 1])
                    &&& raw[4 * k + 1] == ValueView::Byte(icon.data[4 * k + 2])
                    &&& raw[4 * k] == ValueView::Byte(icon.data[4 * k + 3])
                }
        },
{
    let row = seq![ValueView::Struct(fields)];
    assert(row.drop_last() =~= seq![]);
    assert(pixmaps_among(row.drop_last()) =~= seq![]);
    assert(row.last() == ValueView::Struct(fields));
    value::law_bytes_are_kept(raw);
    icon::law_pixels_become_bgra(w, h, value::bytes_among(raw));
    if w > 0 && h > 0 && 4 * (w * h) <= raw.len() {
        let icon = pixmaps_among(row)[0];
        assert forall|k: int| 0 <= k < w * h implies {
            &&& raw[4 * k + 3] == ValueView::Byte(#[trigger] icon.data[4 * k])
            &&& raw[4 * k + 2] == ValueView::Byte(icon.data[4 * k + 1])
            &&& raw[4 * k + 1] == ValueView::Byte(icon.data[4 * k + 2])
            &&& raw[4 * k] == ValueView::Byte(icon.data[4 * k + 3])
        } by {
            assert(raw[4 * k] is Byte && raw[4 * k + 1] is Byte);
            assert(raw[4 * k + 2] is Byte && raw[4 * k + 3] is Byte);
        }
    }
}

/// A value that is not a structure of two numbers and an array stands for no icon.
pub proof fn law_other_values_are_no_icons(value: ValueView)
    requires
        pixmaps_among(seq![value]).len() > 0,
    ensures
        value matches ValueView::Struct(fields) && fields.len() >= 3 && fields[0] is Int32
            && fields[1] is Int32 && fields[2] is Array,
{
    let row = seq![value];
    assert(row.drop_last() =~= seq![]);
    assert(pixmaps_among(row.drop_last()) =~= seq![]);
    assert(row.last() == value);
}

/// Two rows of values give the icons of each, one behind the other.
pub proof fn law_icons_join(first: Seq<ValueView>, second: Seq<ValueView>)
    ensures
        pixmaps_among(first + second) == pixmaps_among(first) + pixmaps_among(second),
    decreases second.len(),
{
    if second.len() == 0 {
        assert(first + second =~= first);
        assert(pixmaps_among(first) + pixmaps_among(second) =~= pixmaps_among(first));
    } else {
        assert((first + second).drop_last() =~= first + second.drop_last());
        law_icons_join(first, second.drop_last());
        assert(pixmaps_among(first + second) =~= pixmaps_among(first) + pixmaps_among(second));
    }
}

/// The tooltip of an item is what the structure under `ToolTip` says: an icon name, icons of
/// which the first counts, a title and a text. Texts that are no strings are empty.
pub proof fn law_tooltip_is_the_property(
    reply: BodyView,
    props: Map<Seq<char>, ValueView>,
    service_id: Seq<char>,
    bus_name: Seq<char>,
    object_path: Seq<char>,
    fields: Seq<ValueView>,
)
    requires
        reply.param() == Some(ValueView::Dict(props)),
        value::says(props, "ToolTip"@, ValueView::Struct(fields)),
        fields.len() >= 4,
    ensures
        ({
            let item = TrayItemView::from_reply(reply, service_id, bus_name, object_path);
            let tooltip = item.tooltip;
            &&& fields[0] matches ValueView::Str(s) ==> tooltip.icon_name == s
            &&& tooltip.icon_name.len() > 0 ==> fields[0] == ValueView::Str(tooltip.icon_name)
            &&& fields[2] matches ValueView::Str(s) ==> tooltip.title == s
            &&& tooltip.title.len() > 0 ==> fields[2] == ValueView::Str(tooltip.title)
            &&& fields[3] matches ValueView::Str(s) ==> tooltip.text == s
            &&& tooltip.text.len() > 0 ==> fields[3] == ValueView::Str(tooltip.text)
            &&& tooltip.icon_pixmap is Some ==> fields[1] is Array
            &&& fields[1] matches ValueView::Array(values) ==> {
                &&& values.len() == 0 ==> tooltip.icon_pixmap is None
                &&& values.len() > 0 ==> match tooltip.icon_pixmap {
                    Some(icon) => pixmaps_among(seq![values[0]]) == seq![icon],
                    None => pixmaps_among(seq![values[0]]).len() == 0,
                }
            }
        }),
{
    if let ValueView::Array(values) = fields[1] {
        if values.len() > 0 {
            let row = seq![values[0]];
            assert(row.drop_last() =~= seq![]);
            assert(pixmaps_among(row.drop_last()) =~= seq![]);
            assert(row.last() == values[0]);
            if let Some(icon) = pixmap_in(values[0]) {
                assert(pixmaps_among(row) =~= seq![icon]);
            }
        }
    }
}

/// Where the reply has no structure of four fields under `ToolTip`, there is no tooltip.
pub proof fn law_no_tooltip_without_the_property(
    reply: BodyView,
    service_id: Seq<char>,
    bus_name: Seq<char>,
    object_path: Seq<char>,
)
    requires
        forall|props: Map<Seq<char>, ValueView>, fields: Seq<ValueView>|
            reply.param() == Some(ValueView::Dict(props)) && #[trigger] value::says(
                props,
                "ToolTip"@,
                ValueView::Struct(fields),
            ) ==> fields.len() < 4,
    ensures
        ({
            let tooltip = TrayItemView::from_reply(
                reply,
                service_id,
                bus_name,
                object_path,
            ).tooltip;
            &&& tooltip.icon_name.len() == 0 && tooltip.title.len() == 0
            &&& tooltip.text.len() == 0 && tooltip.icon_pixmap is None
        }),
{
    if let Some(ValueView::Dict(props)) = reply.param() {
        if props.contains_key("ToolTip"@) {
            if let ValueView::Variant(inner) = props["ToolTip"@] {
                if let ValueView::Struct(fields) = *inner {
                    assert(value::says(props, "ToolTip"@, ValueView::Struct(fields)));
                }
            }
        }
    }
}

/// A reply that holds no dictionary describes the item that an empty dictionary describes.
pub proof fn law_unreadable_reply_describes_a_bare_item(
    reply: BodyView,
    other: BodyView,
    service_id: Seq<char>,
    bus_name: Seq<char>,
    object_path: Seq<char>,
)
    requires
        !(reply.param() matches Some(ValueView::Dict(_))),
        other.param() == Some(ValueView::Dict(Map::empty())),
    ensures
        TrayItemView::from_reply(reply, service_id, bus_name, object_path)
            == TrayItemView::from_reply(other, service_id, bus_name, object_path),
{
}

/// A message decides about a fetch exactly where it carries its serial number and is a reply or
/// an error. A reply gives the item, under the identity that it was asked for under; an error
/// gives none, and says why in its first string.
pub proof fn law_only_the_answer_decides_about_a_fetch(
    message: MessageView,
    serial: u32,
    service_id: Seq<char>,
    bus_name: Seq<char>,
    object_path: Seq<char>,
)
    ensures
        ({
            let outcome = fetched(message, serial, service_id, bus_name, object_path);
            let mine = message.response_serial == Some(serial);
            &&& mine && message.typ == MessageType::Reply ==> (outcome matches Some(Ok(item))
                && item == TrayItemView::from_reply(
                message.body,
                service_id,
                bus_name,
                object_path,
            ))
            &&& mine && message.typ == MessageType::Error ==> (outcome matches Some(
                Err(ErrorView::MethodCall(why)),
            ) && match message.body.strings(1) {
                Some(texts) => why == texts[0],
                None => why.len() == 0,
            })
            &&& outcome is Some ==> mine && (message.typ == MessageType::Reply || message.typ
                == MessageType::Error)
        }),
{
}

/// The call that reads an item's properties goes to its bus name and its object path, and asks
/// for the properties of its interface.
pub proof fn law_get_all_goes_to_the_item(bus_name: Seq<char>, object_path: Seq<char>)
    ensures
        ({
            let call = get_all_call(bus_name, object_path);
            &&& call.typ == MessageType::Call
            &&& call.destination == Some(bus_name)
            &&& call.object == Some(object_path)
            &&& call.interface == Some("org.freedesktop.DBus.Properties"@)
            &&& call.member == Some("GetAll"@)
            &&& call.body == BodyView::empty().with_str("org.kde.StatusNotifierItem"@)
        }),
{
}

/// A call of a method of an item goes to the given bus name and object path, on the interface of
/// items, with the given parameters.
pub proof fn law_item_call_goes_to_the_item(
    bus_name: Seq<char>,
    object_path: Seq<char>,
    method: Seq<char>,
    body: BodyView,
)
    ensures
        ({
            let call = item_call(bus_name, object_path, method, body);
            &&& call.typ == MessageType::Call
            &&& call.destination == Some(bus_name)
            &&& call.object == Some(object_path)
            &&& call.interface == Some("org.kde.StatusNotifierItem"@)
            &&& call.member == Some(method)
            &&& call.body == body
        }),
{
}

/// The best pixmap is one of the pixmaps. None has more pixels, that is width times height, and
/// none behind it has as many.
pub proof fn law_best_pixmap_is_the_last_largest(pixmaps: Seq<PixmapView>, best: Option<PixmapView>)
    requires
        is_best(pixmaps, best),
    ensures
        best is None <==> pixmaps.len() == 0,
        best matches Some(pixmap) ==> exists|at: int|
            {
                &&& 0 <= at < pixmaps.len() && #[trigger] pixmaps[at] == pixmap
                &&& forall|i: int|
                    0 <= i < pixmaps.len() ==> (#[trigger] pixmaps[i]).width * pixmaps[i].height
                        <= pixmap.width * pixmap.height
                &&& forall|i: int|
                    at < i < pixmaps.len() ==> (#[trigger] pixmaps[i]).width * pixmaps[i].height
                        < pixmap.width * pixmap.height
            },
{
    if let Some(pixmap) = best {
        let at = choose|at: int| is_last_largest(pixmaps, at) && pixmap == #[trigger] pixmaps[at];
        assert(pixmaps[at] == pixmap);
        assert forall|i: int| 0 <= i < pixmaps.len() implies (#[trigger] pixmaps[i]).width
            * pixmaps[i].height <= pixmap.width * pixmap.height by {
            assert(pixmaps[i].pixels() <= pixmaps[at].pixels());
        }
        assert forall|i: int| at < i < pixmaps.len() implies (#[trigger] pixmaps[i]).width
            * pixmaps[i].height < pixmap.width * pixmap.height by {
            assert(pixmaps[i].pixels() < pixmaps[at].pixels());
        }
    }
}

/// What is stated of an item is stated of its own fields.
pub proof fn law_item_view_shows_fields(item: TrayItem)
    ensures
        item@.id == item.id.0@,
        item@.category == item.category@,
        item@.item_id == item.item_id@,
        item@.title == item.title@,
        item@.status == item.status@,
        item@.icon_theme_path == item.icon_theme_path@,
        item@.icon_name == item.icon_name@,
        item@.attention_icon_name == item.attention_icon_name@,
        item@.attention_movie_name == item.attention_movie_name@,
        item@.overlay_icon_name == item.overlay_icon_name@,
        item@.menu_path == item.menu_path@,
        item@.bus_name == item.bus_name@,
        item@.object_path == item.object_path@,
        item@.window_id == item.window_id,
        item@.item_is_menu == item.item_is_menu,
        item@.icon_pixmaps == icon::pixmap_views(item.icon_pixmaps@),
        item@.attention_icon_pixmaps == icon::pixmap_views(item.attention_icon_pixmaps@),
        item@.overlay_icon_pixmaps == icon::pixmap_views(item.overlay_icon_pixmaps@),
        item@.tooltip.icon_name == item.tooltip.icon_name@,
        item@.tooltip.title == item.tooltip.title@,
        item@.tooltip.text == item.tooltip.text@,
        item@.tooltip.icon_pixmap is Some <==> item.tooltip.icon_pixmap is Some,
        item.tooltip.icon_pixmap matches Some(icon) ==> item@.tooltip.icon_pixmap == Some(icon@),
{
}

/// Only the bytes among the pixel data of an icon count: whatever else stands between them makes
/// no difference.
pub proof fn law_icons_ignore_what_is_no_byte(one: Seq<ValueView>, other: Seq<ValueView>, w: i32, h:
    i32, raw: Seq<ValueView>, bytes: Seq<ValueView>)
    requires
        one.len() >= 3,
        other.len() >= 3,
        one[0] == ValueView::Int32(w) && other[0] == ValueView::Int32(w),
        one[1] == ValueView::Int32(h) && other[1] == ValueView::Int32(h),
        one[2] == ValueView::Array(raw),
        other[2] == ValueView::Array(bytes),
        value::bytes_among(raw) == value::bytes_among(bytes),
    ensures
        pixmaps_among(seq![ValueView::Struct(one)]) == pixmaps_among(
            seq![ValueView::Struct(other)],
        ),
{
    let a = seq![ValueView::Struct(one)];
    let b = seq![ValueView::Struct(other)];
    assert(a.drop_last() =~= seq![]);
    assert(b.drop_last() =~= seq![]);
    assert(a.last() == ValueView::Struct(one) && b.last() == ValueView::Struct(other));
}

} // verus!
