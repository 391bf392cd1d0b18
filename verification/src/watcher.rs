//! The `org.kde.StatusNotifierWatcher` D-Bus interface.
//!
//! The watcher is the central registry on the session bus:
//!
//! - Tray items call `RegisterStatusNotifierItem` to announce themselves.
//! - The host calls `RegisterStatusNotifierHost` to announce itself.
//! - The watcher emits `StatusNotifierItemRegistered` and `StatusNotifierItemUnregistered`
//!   signals so the host knows when to update its tray representation.
//!
//! It also follows `NameOwnerChanged`, to detect items appearing on and vanishing from the
//! bus, and `com.canonical.dbusmenu` signals, for menu layout updates.

use vstd::prelude::*;

use crate::error::{Error, ErrorView};
use crate::item::{ItemId, TrayItemView, SNI_IFACE};
use crate::items::{self, Items, TrayEvent, TrayEventView};
use crate::menu::MENU_IFACE;
use crate::message::{self, Message, MessageType, MessageView};
use crate::text;
use crate::value::ValueView;
use crate::wire::{Body, BodyView};

verus! {

pub const WATCHER_INTERFACE: &'static str = "org.kde.StatusNotifierWatcher";

pub const WATCHER_PATH: &'static str = "/StatusNotifierWatcher";

/// The path that an item lives at when it does not say.
pub const DEFAULT_ITEM_PATH: &'static str = "/StatusNotifierItem";

/// The introspection data of the watcher object.
pub const WATCHER_INTROSPECT_XML: &'static str = "<!DOCTYPE node PUBLIC \"-//freedesktop//DTD D-BUS Object Introspection 1.0//EN\"
 \"http://www.freedesktop.org/standards/dbus/1.0/introspect.dtd\">
<node>
  <interface name=\"org.kde.StatusNotifierWatcher\">
    <method name=\"RegisterStatusNotifierItem\">
      <arg name=\"service\" type=\"s\" direction=\"in\"/>
    </method>
    <method name=\"RegisterStatusNotifierHost\">
      <arg name=\"service\" type=\"s\" direction=\"in\"/>
    </method>
    <method name=\"GetHostServiceName\">
      <arg name=\"name\" type=\"s\" direction=\"out\"/>
    </method>
    <property name=\"RegisteredStatusNotifierItems\" type=\"as\" access=\"read\"/>
    <property name=\"IsStatusNotifierHostRegistered\" type=\"b\" access=\"read\"/>
    <property name=\"ProtocolVersion\" type=\"i\" access=\"read\"/>
    <signal name=\"StatusNotifierItemRegistered\">
      <arg name=\"service\" type=\"s\"/>
    </signal>
    <signal name=\"StatusNotifierItemUnregistered\">
      <arg name=\"service\" type=\"s\"/>
    </signal>
    <signal name=\"StatusNotifierHostRegistered\"/>
    <signal name=\"StatusNotifierHostUnregistered\"/>
  </interface>
</node>
";

/// The introspection data of every other object.
pub const ROOT_INTROSPECT_XML: &'static str = "<!DOCTYPE node PUBLIC \"-//freedesktop//DTD D-BUS Object Introspection 1.0//EN\"
 \"http://www.freedesktop.org/standards/dbus/1.0/introspect.dtd\">
<node>
  <node name=\"StatusNotifierWatcher\"/>
</node>";

// ---------------------------------------------------------------------------
// Service names

/// The text is an object path.
pub open spec fn is_path(service: Seq<char>) -> bool {
    service.len() > 0 && service[0] == '/'
}

/// The name is used as it is: it is an item's well-known name, or a unique bus name.
pub open spec fn is_item_name(name: Seq<char>) -> bool {
    ||| text::begins_with(name, "org.freedesktop.StatusNotifierItem"@)
    ||| text::begins_with(name, "org.kde.StatusNotifierItem"@)
    ||| text::begins_with(name, ":"@)
}

/// The bus name that a service name without a path stands for.
pub open spec fn normalized(name: Seq<char>) -> Seq<char> {
    if is_item_name(name) {
        name
    } else {
        "org.freedesktop.StatusNotifierItem-"@ + name
    }
}

/// The bus name and the object path that a service name stands for.
pub open spec fn parsed_service(sender: Seq<char>, service: Seq<char>) -> (Seq<char>, Seq<char>) {
    if is_path(service) {
        (sender, service)
    } else if service.contains('/') {
        let slash = text::first_index(service, '/');
        (service.subrange(0, slash), service.subrange(slash, service.len() as int))
    } else if service.contains('.') {
        (service, DEFAULT_ITEM_PATH@)
    } else {
        (normalized(service), DEFAULT_ITEM_PATH@)
    }
}

/// The identifier under which a service is registered: the name that it gave, with the sender
/// in front of a mere path.
pub open spec fn service_id_of(sender: Seq<char>, service: Seq<char>) -> Seq<char> {
    if is_path(service) {
        sender + service
    } else {
        service
    }
}

fn starts_with_slash(service: &str) -> (res: bool)
    ensures
        res == is_path(service@),
{
    proof {
        reveal_strlit("/");
        if service@.len() > 0 && service@[0] == '/' {
            assert(service@.subrange(0, 1) =~= "/"@);
        } else if service@.len() > 0 {
            assert(service@.subrange(0, 1)[0] == service@[0]);
        }
    }
    text::starts_with(service, "/")
}

/// Normalize the service name passed to RegisterStatusNotifierItem.
///
/// Accepts:
/// - Well-known names with suffix: `org.freedesktop.StatusNotifierItem-PID-ID`
/// - KDE variant: `org.kde.StatusNotifierItem-PID-ID`
/// - Unique bus names: `:1.42`
/// - Bare PID-ID: `4077-1`
pub fn normalize_item_name(name: &str) -> (res: String)
    ensures
        res@ == normalized(name@),
{
    if text::starts_with(name, "org.freedesktop.StatusNotifierItem") || text::starts_with(
        name,
        "org.kde.StatusNotifierItem",
    ) || text::starts_with(name, ":") {
        return name.to_owned();
    }
    text::join("org.freedesktop.StatusNotifierItem-", name)
}

/// Split a raw SNI service registration string into `(bus_name, object_path)`.
///
/// There are three forms:
/// - `"com.example.App"`: bus name, default path `/StatusNotifierItem`
/// - `"/StatusNotifierItem"`: sender's bus name, given path
/// - `"com.example.App/SomePath"`: bus name, given path
///
/// What holds neither a slash nor a dot is no bus name; it is normalized to one.
pub fn parse_service(sender: &str, service: &str) -> (res: (String, String))
    ensures
        (res.0@, res.1@) == parsed_service(sender@, service@),
{
    if starts_with_slash(service) {
        return (sender.to_owned(), service.to_owned());
    }
    match text::split_before(service, '/') {
        Some(parts) => parts,
        None => {
            let bus_name: String = if text::split_before(service, '.').is_some() {
                service.to_owned()
            } else {
                normalize_item_name(service)
            };
            (bus_name, DEFAULT_ITEM_PATH.to_owned())
        },
    }
}

/// The identifier under which a service is registered: sender and path if only a path was
/// given, else the raw service.
pub fn service_id(sender: &str, service: &str) -> (res: String)
    ensures
        res@ == service_id_of(sender@, service@),
{
    if starts_with_slash(service) {
        text::join(sender, service)
    } else {
        service.to_owned()
    }
}

// ---------------------------------------------------------------------------
// Signals that the watcher emits

/// A signal of the watcher.
pub open spec fn watcher_signal(member: Seq<char>, body: BodyView) -> MessageView {
    MessageView::signal(WATCHER_INTERFACE@, member, WATCHER_PATH@).with_body(body)
}

/// The signal that an item was registered.
pub open spec fn registered(service_id: Seq<char>) -> MessageView {
    watcher_signal("StatusNotifierItemRegistered"@, BodyView::empty().with_str(service_id))
}

/// The signal that an item is gone.
pub open spec fn unregistered(service_id: Seq<char>) -> MessageView {
    watcher_signal("StatusNotifierItemUnregistered"@, BodyView::empty().with_str(service_id))
}

/// The signal that a host is there.
pub open spec fn host_registered() -> MessageView {
    watcher_signal("StatusNotifierHostRegistered"@, BodyView::empty())
}

/// The signal that the host is gone.
pub open spec fn host_unregistered() -> MessageView {
    watcher_signal("StatusNotifierHostUnregistered"@, BodyView::empty())
}

/// Whoever can read a string can read this one back.
pub open spec fn readable_text(text: Seq<char>) -> bool {
    !text.contains(0 as char) && vstd::utf8::encode_utf8(text).len() <= u32::MAX
}

fn body_with(service_id: &str) -> (res: Body)
    ensures
        res@ == BodyView::empty().with_str(service_id@),
        readable_text(service_id@) ==> res@.strings(1) == Some(seq![service_id@]),
{
    let res: Body = Body::new().with_str(service_id);
    proof {
        if readable_text(service_id@) {
            let texts = seq![service_id@];
            let none = Seq::<u8>::empty();
            crate::wire::law_strings_read_back(none, texts, none, false);
            assert(texts.drop_last() =~= seq![]);
            assert(crate::wire::after_strings(none, texts.drop_last(), false) == none);
            assert(crate::wire::after_strings(none, texts, false) == res@.bytes);
            assert(res@.bytes + none =~= res@.bytes);
            assert(res@.signature =~= seq!['s']);
        }
    }
    res
}

/// The signal that an item was registered. Its receivers read the service from it.
pub fn registered_signal(service_id: &str) -> (res: Message)
    ensures
        res@ == registered(service_id@),
        readable_text(service_id@) ==> res@.body.strings(1) == Some(seq![service_id@]),
{
    Message::signal(
        WATCHER_INTERFACE,
        "StatusNotifierItemRegistered",
        WATCHER_PATH,
        body_with(service_id),
    )
}

/// The signal that an item is gone. Its receivers read the service from it.
pub fn unregistered_signal(service_id: &str) -> (res: Message)
    ensures
        res@ == unregistered(service_id@),
        readable_text(service_id@) ==> res@.body.strings(1) == Some(seq![service_id@]),
{
    Message::signal(
        WATCHER_INTERFACE,
        "StatusNotifierItemUnregistered",
        WATCHER_PATH,
        body_with(service_id),
    )
}

/// The signal that a host is there.
pub fn host_registered_signal() -> (res: Message)
    ensures
        res@ == host_registered(),
{
    Message::signal(
        WATCHER_INTERFACE,
        "StatusNotifierHostRegistered",
        WATCHER_PATH,
        Body::new(),
    )
}

/// The signal that the host is gone.
pub fn host_unregistered_signal() -> (res: Message)
    ensures
        res@ == host_unregistered(),
{
    Message::signal(
        WATCHER_INTERFACE,
        "StatusNotifierHostUnregistered",
        WATCHER_PATH,
        Body::new(),
    )
}

// ---------------------------------------------------------------------------
// Method calls

/// A service that wants to be registered: where its properties are to be read, and the reply
/// that it gets afterwards.
#[derive(Debug)]
pub struct Registration {
    pub service_id: String,
    pub bus_name: String,
    pub object_path: String,
    pub reply: Message,
}

/// What a [`Registration`] holds.
pub struct RegistrationView {
    pub service_id: Seq<char>,
    pub bus_name: Seq<char>,
    pub object_path: Seq<char>,
    pub reply: MessageView,
}

impl View for Registration {
    type V = RegistrationView;

    open spec fn view(&self) -> RegistrationView {
        RegistrationView {
            service_id: self.service_id@,
            bus_name: self.bus_name@,
            object_path: self.object_path@,
            reply: self.reply@,
        }
    }
}

/// What to do about a method call.
#[derive(Debug)]
pub enum CallOutcome {
    /// Send this reply.
    Reply(Message),
    /// Read the properties of a new item first.
    Register(Registration),
}

/// What a [`CallOutcome`] holds.
pub enum CallOutcomeView {
    Reply(MessageView),
    Register(RegistrationView),
}

impl View for CallOutcome {
    type V = CallOutcomeView;

    open spec fn view(&self) -> CallOutcomeView {
        match self {
            CallOutcome::Reply(message) => CallOutcomeView::Reply(message@),
            CallOutcome::Register(registration) => CallOutcomeView::Register(registration@),
        }
    }
}

/// The contents of the outcome of a call.
pub open spec fn outcome_view(outcome: Result<CallOutcome, Error>) -> Result<
    CallOutcomeView,
    ErrorView,
> {
    match outcome {
        Ok(done) => Ok(done@),
        Err(error) => Err(error@),
    }
}

/// The message is a call of `org.freedesktop.DBus.Introspectable.Introspect`.
pub open spec fn is_introspection(call: MessageView) -> bool {
    &&& message::field_text(call.interface) == "org.freedesktop.DBus.Introspectable"@
    &&& message::field_text(call.member) == "Introspect"@
}

/// The reply to an introspection: the watcher describes itself at its own path, and points to
/// itself at every other.
pub open spec fn introspection_reply(call: MessageView) -> MessageView {
    call.response().with_body(
        BodyView::empty().with_str(
            if message::field_text(call.object) == WATCHER_PATH@ {
                WATCHER_INTROSPECT_XML@
            } else {
                ROOT_INTROSPECT_XML@
            },
        ),
    )
}

/// The reply to a call on an object that does not exist.
pub open spec fn unknown_object_reply(call: MessageView) -> MessageView {
    call.error_response(
        "org.freedesktop.DBus.Error.UnknownObject"@,
        "This service does not implement the object path: "@ + message::field_text(call.object),
    )
}

/// What `RegisterStatusNotifierItem` leads to.
pub open spec fn registration(call: MessageView) -> Result<CallOutcomeView, ErrorView> {
    match call.body.strings(1) {
        None => Ok(CallOutcomeView::Reply(call.invalid_args("s"@))),
        Some(texts) => {
            let sender = message::field_text(call.sender);
            let (bus_name, object_path) = parsed_service(sender, texts[0]);
            Ok(
                CallOutcomeView::Register(
                    RegistrationView {
                        service_id: service_id_of(sender, texts[0]),
                        bus_name,
                        object_path,
                        reply: call.response(),
                    },
                ),
            )
        },
    }
}

/// What a call of a method of the watcher interface leads to.
pub open spec fn watcher_outcome(call: MessageView, host_name: Seq<char>) -> Result<
    CallOutcomeView,
    ErrorView,
> {
    let member = message::field_text(call.member);
    if member == "RegisterStatusNotifierItem"@ {
        registration(call)
    } else if member == "RegisterStatusNotifierHost"@ {
        Ok(CallOutcomeView::Reply(call.response()))
    } else if member == "GetHostServiceName"@ {
        Ok(
            CallOutcomeView::Reply(
                call.response().with_body(BodyView::empty().with_str(host_name)),
            ),
        )
    } else {
        Ok(CallOutcomeView::Reply(call.unknown_method()))
    }
}

/// The reply to `Get` of a property. The interface and the property are the two strings in
/// the call.
pub open spec fn property_reply(
    call: MessageView,
    iface: Seq<char>,
    prop: Seq<char>,
    items: Seq<TrayItemView>,
) -> MessageView {
    if iface != WATCHER_INTERFACE@ {
        call.error_response(
            "org.freedesktop.DBus.Error.UnknownProperty"@,
            "Unknown interface: "@ + iface,
        )
    } else if prop == "RegisteredStatusNotifierItems"@ {
        call.response().with_body(BodyView::empty().with_variant_strs(items::all_ids(items)))
    } else if prop == "IsStatusNotifierHostRegistered"@ {
        call.response().with_body(BodyView::empty().with_variant_bool(true))
    } else if prop == "ProtocolVersion"@ {
        call.response().with_body(BodyView::empty().with_variant_i32(0))
    } else {
        call.error_response(
            "org.freedesktop.DBus.Error.UnknownProperty"@,
            "Unknown property: "@ + prop,
        )
    }
}

/// The properties of the watcher, by their names.
pub open spec fn watcher_properties(items: Seq<TrayItemView>) -> Map<Seq<char>, ValueView> {
    map![
        "RegisteredStatusNotifierItems"@ => ValueView::Variant(
            Box::new(crate::wire::str_array(items::all_ids(items))),
        ),
        "IsStatusNotifierHostRegistered"@ => ValueView::Variant(
            Box::new(ValueView::Boolean(true)),
        ),
        "ProtocolVersion"@ => ValueView::Variant(Box::new(ValueView::Int32(0))),
    ]
}

/// No identifier holds a zero character, which D-Bus strings cannot hold.
pub open spec fn ids_writable(items: Seq<TrayItemView>) -> bool {
    forall|i: int| 0 <= i < items.len() ==> !(#[trigger] items[i]).id.contains(0 as char)
}

/// `reply` is a reply to `GetAll` with the properties of the watcher, in whatever order.
pub open spec fn is_properties_reply(
    reply: MessageView,
    call: MessageView,
    items: Seq<TrayItemView>,
) -> bool {
    &&& reply == call.response().with_body(reply.body)
    &&& reply.body.signature == seq!['a', '{', 's', 'v', '}']
    &&& !reply.body.big_endian && reply.body.fds == 0
    &&& reply.body.bytes.len() <= u32::MAX ==> reply.body.param() == Some(
        ValueView::Dict(watcher_properties(items)),
    )
}

/// The reply to `GetAll` where the properties cannot be written.
pub open spec fn unwritable_reply(call: MessageView) -> MessageView {
    call.error_response(
        "org.freedesktop.DBus.Error.Failed"@,
        "An item has an identifier that cannot be written"@,
    )
}

/// Whoever reads the reply to `Get` of a property finds its value there.
pub open spec fn carries_property(
    reply: MessageView,
    prop: Seq<char>,
    items: Seq<TrayItemView>,
) -> bool {
    ids_writable(items) && reply.body.bytes.len() <= u32::MAX && watcher_properties(
        items,
    ).contains_key(prop) ==> reply.body.param() == Some(watcher_properties(items)[prop])
}

/// What a call of a method of the properties interface leads to.
pub open spec fn is_properties_outcome(
    call: MessageView,
    items: Seq<TrayItemView>,
    outcome: Result<CallOutcomeView, ErrorView>,
) -> bool {
    let member = message::field_text(call.member);
    if member == "Get"@ {
        match call.body.strings(2) {
            None => outcome == Ok::<CallOutcomeView, ErrorView>(
                CallOutcomeView::Reply(call.invalid_args("ss"@)),
            ),
            Some(texts) => {
                let reply = property_reply(call, texts[0], texts[1], items);
                &&& outcome == Ok::<CallOutcomeView, ErrorView>(CallOutcomeView::Reply(reply))
                &&& texts[0] == WATCHER_INTERFACE@ ==> carries_property(reply, texts[1], items)
            },
        }
    } else if member == "GetAll"@ {
        if ids_writable(items) {
            outcome matches Ok(CallOutcomeView::Reply(reply)) && is_properties_reply(
                reply,
                call,
                items,
            )
        } else {
            outcome == Ok::<CallOutcomeView, ErrorView>(
                CallOutcomeView::Reply(unwritable_reply(call)),
            )
        }
    } else {
        outcome == Ok::<CallOutcomeView, ErrorView>(CallOutcomeView::Reply(call.unknown_method()))
    }
}

/// What a method call leads to.
pub open spec fn is_call_outcome(
    call: MessageView,
    items: Seq<TrayItemView>,
    host_name: Seq<char>,
    outcome: Result<CallOutcomeView, ErrorView>,
) -> bool {
    let iface = message::field_text(call.interface);
    if is_introspection(call) {
        outcome == Ok::<CallOutcomeView, ErrorView>(
            CallOutcomeView::Reply(introspection_reply(call)),
        )
    } else if message::field_text(call.object) != WATCHER_PATH@ {
        outcome == Ok::<CallOutcomeView, ErrorView>(
            CallOutcomeView::Reply(unknown_object_reply(call)),
        )
    } else if iface == WATCHER_INTERFACE@ {
        outcome == watcher_outcome(call, host_name)
    } else if iface == "org.freedesktop.DBus.Properties"@ {
        is_properties_outcome(call, items, outcome)
    } else {
        outcome == Ok::<CallOutcomeView, ErrorView>(CallOutcomeView::Reply(call.unknown_method()))
    }
}

fn handle_registration(call: &Message) -> (res: Result<CallOutcome, Error>)
    ensures
        outcome_view(res) == registration(call@),
{
    let service: String = match call.body.read_string() {
        Ok(text) => text,
        Err(_) => return Ok(CallOutcome::Reply(call.invalid_args("s"))),
    };
    let sender: &str = message::field_str(&call.sender);
    let (bus_name, object_path) = parse_service(sender, service.as_str());
    let service_id: String = service_id(sender, service.as_str());
    let reply: Message = call.make_response(Body::new());
    Ok(CallOutcome::Register(Registration { service_id, bus_name, object_path, reply }))
}

/// Handle a call of a method of the watcher interface.
pub fn handle_watcher_call(call: &Message, host_name: &str) -> (res: Result<CallOutcome, Error>)
    ensures
        outcome_view(res) == watcher_outcome(call@, host_name@),
{
    let member: &str = message::field_str(&call.member);
    if text::same(member, "RegisterStatusNotifierItem") {
        return handle_registration(call);
    }
    if text::same(member, "RegisterStatusNotifierHost") {
        return Ok(CallOutcome::Reply(call.make_response(Body::new())));
    }
    if text::same(member, "GetHostServiceName") {
        return Ok(CallOutcome::Reply(call.make_response(Body::new().with_str(host_name))));
    }
    Ok(CallOutcome::Reply(call.unknown_method()))
}

/// The properties of the watcher have different names.
proof fn lemma_property_names_differ()
    ensures
        "RegisteredStatusNotifierItems"@ != "IsStatusNotifierHostRegistered"@,
        "RegisteredStatusNotifierItems"@ != "ProtocolVersion"@,
        "IsStatusNotifierHostRegistered"@ != "ProtocolVersion"@,
{
    reveal_strlit("RegisteredStatusNotifierItems");
    reveal_strlit("IsStatusNotifierHostRegistered");
    reveal_strlit("ProtocolVersion");
    assert("RegisteredStatusNotifierItems"@.len() != "IsStatusNotifierHostRegistered"@.len());
    assert("RegisteredStatusNotifierItems"@.len() != "ProtocolVersion"@.len());
    assert("IsStatusNotifierHostRegistered"@.len() != "ProtocolVersion"@.len());
}

/// The identifiers of items can be written exactly when none of them holds a zero character.
proof fn lemma_keys_writable(items: Seq<TrayItemView>, names: Seq<&str>)
    requires
        crate::wire::str_views(names) == items::all_ids(items),
    ensures
        ids_writable(items) <==> forall|i: int|
            0 <= i < names.len() ==> !(#[trigger] names[i])@.contains(0 as char),
{
    let ids = items::all_ids(items);
    assert(ids.len() == items.len() && ids.len() == names.len());
    assert forall|i: int| 0 <= i < names.len() implies (#[trigger] names[i])@ == items[i].id by {
        assert(ids[i] == items[i].id);
        assert(ids[i] == crate::wire::str_views(names)[i]);
    }
    if ids_writable(items) {
        assert forall|i: int| 0 <= i < names.len() implies !(#[trigger] names[i])@.contains(
            0 as char,
        ) by {
            assert(!items[i].id.contains(0 as char));
        }
    } else {
        let i = choose|i: int| 0 <= i < items.len() && (#[trigger] items[i]).id.contains(
            0 as char,
        );
        assert(names[i]@ == items[i].id);
    }
}

fn handle_get(call: &Message, iface: &str, prop: &str, items: &Items) -> (res: Message)
    ensures
        res@ == property_reply(call@, iface@, prop@, items@),
        iface@ == WATCHER_INTERFACE@ ==> carries_property(res@, prop@, items@),
{
    proof {
        lemma_property_names_differ();
    }
    // Only handle properties for our watcher interface
    if !text::same(iface, WATCHER_INTERFACE) {
        let line: String = text::join("Unknown interface: ", iface);
        return call.make_error_response(
            "org.freedesktop.DBus.Error.UnknownProperty",
            line.as_str(),
        );
    }
    if text::same(prop, "RegisteredStatusNotifierItems") {
        let names: Vec<&str> = items.keys();
        proof {
            lemma_keys_writable(items@, names@);
        }
        return call.make_response(Body::new().with_variant_strs(names.as_slice()));
    }
    if text::same(prop, "IsStatusNotifierHostRegistered") {
        return call.make_response(Body::new().with_variant_bool(true));
    }
    if text::same(prop, "ProtocolVersion") {
        return call.make_response(Body::new().with_variant_i32(0));
    }
    let line: String = text::join("Unknown property: ", prop);
    call.make_error_response("org.freedesktop.DBus.Error.UnknownProperty", line.as_str())
}

fn handle_get_all(call: &Message, items: &Items) -> (res: Result<CallOutcome, Error>)
    ensures
        if ids_writable(items@) {
            outcome_view(res) matches Ok(CallOutcomeView::Reply(reply)) && is_properties_reply(
                reply,
                call@,
                items@,
            )
        } else {
            outcome_view(res) == Ok::<CallOutcomeView, ErrorView>(
                CallOutcomeView::Reply(unwritable_reply(call@)),
            )
        },
{
    let names: Vec<&str> = items.keys();
    proof {
        lemma_property_names_differ();
        lemma_keys_writable(items@, names@);
        reveal_strlit("RegisteredStatusNotifierItems");
        reveal_strlit("IsStatusNotifierHostRegistered");
        reveal_strlit("ProtocolVersion");
    }
    match Body::new().with_properties(
        ("RegisteredStatusNotifierItems", names.as_slice()),
        ("IsStatusNotifierHostRegistered", true),
        ("ProtocolVersion", 0),
    ) {
        Ok(body) => {
            assert(body@.signature =~= seq!['a', '{', 's', 'v', '}']);
            Ok(CallOutcome::Reply(call.make_response(body)))
        },
        Err(_) => Ok(
            CallOutcome::Reply(
                call.make_error_response(
                    "org.freedesktop.DBus.Error.Failed",
                    "An item has an identifier that cannot be written",
                ),
            ),
        ),
    }
}

/// Handle a call of a method of the properties interface.
pub fn handle_properties_call(call: &Message, items: &Items) -> (res: Result<CallOutcome, Error>)
    ensures
        is_properties_outcome(call@, items@, outcome_view(res)),
{
    let member: &str = message::field_str(&call.member);
    if text::same(member, "Get") {
        return match call.body.read_two_strings() {
            Ok((iface, prop)) => Ok(
                CallOutcome::Reply(handle_get(call, iface.as_str(), prop.as_str(), items)),
            ),
            Err(_) => Ok(CallOutcome::Reply(call.invalid_args("ss"))),
        };
    }
    if text::same(member, "GetAll") {
        return handle_get_all(call, items);
    }
    Ok(CallOutcome::Reply(call.unknown_method()))
}

/// Handle an incoming method call.
///
/// Introspection is answered on any object path, because bus clients often introspect `/` to
/// discover the available objects. Every other call must be on the watcher's path.
pub fn handle_call(call: &Message, items: &Items, host_name: &str) -> (res: Result<
    CallOutcome,
    Error,
>)
    ensures
        is_call_outcome(call@, items@, host_name@, outcome_view(res)),
        res is Ok,
{
    let iface: &str = message::field_str(&call.interface);
    let member: &str = message::field_str(&call.member);
    let object: &str = message::field_str(&call.object);
    if text::same(iface, "org.freedesktop.DBus.Introspectable") && text::same(
        member,
        "Introspect",
    ) {
        let xml: &str = if text::same(object, WATCHER_PATH) {
            WATCHER_INTROSPECT_XML
        } else {
            ROOT_INTROSPECT_XML
        };
        return Ok(CallOutcome::Reply(call.make_response(Body::new().with_str(xml))));
    }
    if !text::same(object, WATCHER_PATH) {
        let line: String = text::join("This service does not implement the object path: ", object);
        return Ok(
            CallOutcome::Reply(
                call.make_error_response("org.freedesktop.DBus.Error.UnknownObject", line.as_str()),
            ),
        );
    }
    if text::same(iface, WATCHER_INTERFACE) {
        return handle_watcher_call(call, host_name);
    }
    if text::same(iface, "org.freedesktop.DBus.Properties") {
        return handle_properties_call(call, items);
    }
    Ok(CallOutcome::Reply(call.unknown_method()))
}

// ---------------------------------------------------------------------------
// Signals that the watcher receives

/// An item whose properties are to be read again.
#[derive(Debug)]
pub struct Target {
    pub service_id: String,
    pub bus_name: String,
    pub object_path: String,
}

/// What a [`Target`] holds.
pub struct TargetView {
    pub service_id: Seq<char>,
    pub bus_name: Seq<char>,
    pub object_path: Seq<char>,
}

impl View for Target {
    type V = TargetView;

    open spec fn view(&self) -> TargetView {
        TargetView {
            service_id: self.service_id@,
            bus_name: self.bus_name@,
            object_path: self.object_path@,
        }
    }
}

/// What is left to do about a signal.
#[derive(Debug)]
pub enum SignalOutcome {
    /// Nothing.
    Done,
    /// A connection is gone, and with it these items.
    Vanished(String, Vec<ItemId>),
    /// Read the properties of this item again.
    Refresh(Target),
}

/// What a [`SignalOutcome`] says.
pub enum SignalOutcomeView {
    Done,
    Vanished(Seq<char>, Seq<Seq<char>>),
    Refresh(TargetView),
}

impl View for SignalOutcome {
    type V = SignalOutcomeView;

    open spec fn view(&self) -> SignalOutcomeView {
        match self {
            SignalOutcome::Done => SignalOutcomeView::Done,
            SignalOutcome::Vanished(name, ids) => SignalOutcomeView::Vanished(
                name@,
                items::id_views(ids@),
            ),
            SignalOutcome::Refresh(target) => SignalOutcomeView::Refresh(target@),
        }
    }
}

/// What a signal changes, and what is left to do about it.
pub struct SignalEffect {
    /// The events that it gives rise to.
    pub events: Seq<TrayEventView>,
    /// The names that are waiting to be probed.
    pub names: Seq<Seq<char>>,
    pub outcome: SignalOutcomeView,
}

/// The name is one that the bus gives to every connection.
pub open spec fn is_unique_name(name: Seq<char>) -> bool {
    text::begins_with(name, ":1."@)
}

/// The names waiting to be probed, after a name changed owners. A connection that just
/// appeared is probed first.
pub open spec fn names_after(
    names: Seq<Seq<char>>,
    name: Seq<char>,
    old_owner: Seq<char>,
    new_owner: Seq<char>,
) -> Seq<Seq<char>> {
    if old_owner.len() == 0 && new_owner.len() > 0 && is_unique_name(name) && !names.contains(
        name,
    ) {
        seq![name] + names
    } else {
        names
    }
}

/// What the signal that a name changed owners leads to. Without a new owner, the items on the
/// name are gone.
pub open spec fn owner_changed(
    texts: Seq<Seq<char>>,
    items: Seq<TrayItemView>,
    names: Seq<Seq<char>>,
) -> SignalEffect {
    SignalEffect {
        events: seq![],
        names: names_after(names, texts[0], texts[1], texts[2]),
        outcome: if texts[2].len() == 0 {
            SignalOutcomeView::Vanished(texts[0], items::ids_on_bus(items, texts[0]))
        } else {
            SignalOutcomeView::Done
        },
    }
}

/// Menu changes for each of the identifiers.
pub open spec fn menu_changes(ids: Seq<Seq<char>>) -> Seq<TrayEventView> {
    Seq::new(ids.len(), |i: int| TrayEventView::MenuChanged(ids[i]))
}

/// Activation requests for each of the identifiers.
pub open spec fn activation_requests(ids: Seq<Seq<char>>) -> Seq<TrayEventView> {
    Seq::new(ids.len(), |i: int| TrayEventView::MenuActivationRequested(ids[i]))
}

/// What to read again when an item on the bus name says that it has changed.
pub open spec fn refresh(items: Seq<TrayItemView>, bus_name: Seq<char>) -> SignalOutcomeView {
    if bus_name.len() > 0 && items::bus_known(items, bus_name) {
        let known = items[items::bus_position(items, bus_name)];
        SignalOutcomeView::Refresh(
            TargetView { service_id: known.id, bus_name, object_path: known.object_path },
        )
    } else {
        SignalOutcomeView::Done
    }
}

/// The signal says that a name on the bus has a new owner.
pub open spec fn is_owner_change(signal: MessageView) -> bool {
    &&& message::field_text(signal.interface) == "org.freedesktop.DBus"@
    &&& message::field_text(signal.member) == "NameOwnerChanged"@
}

/// The identifiers of the items of the sender, none where there is no sender.
pub open spec fn sender_ids(signal: MessageView, items: Seq<TrayItemView>) -> Seq<Seq<char>> {
    let sender = message::field_text(signal.sender);
    if sender.len() > 0 {
        items::ids_on_bus(items, sender)
    } else {
        seq![]
    }
}

/// What a signal changes and leads to.
pub open spec fn signal_effect(
    signal: MessageView,
    items: Seq<TrayItemView>,
    names: Seq<Seq<char>>,
) -> Result<SignalEffect, ErrorView> {
    let iface = message::field_text(signal.interface);
    let member = message::field_text(signal.member);
    let nothing = SignalEffect { events: seq![], names, outcome: SignalOutcomeView::Done };
    if is_owner_change(signal) {
        match signal.body.strings(3) {
            None => Err(ErrorView::Unmarshal),
            Some(texts) => Ok(owner_changed(texts, items, names)),
        }
    } else if iface == SNI_IFACE@ {
        Ok(
            SignalEffect {
                outcome: refresh(items, message::field_text(signal.sender)),
                ..nothing
            },
        )
    } else if iface == MENU_IFACE@ && (member == "LayoutUpdated"@ || member
        == "ItemsPropertiesUpdated"@) {
        Ok(SignalEffect { events: menu_changes(sender_ids(signal, items)), ..nothing })
    } else if iface == MENU_IFACE@ && member == "ItemActivationRequested"@ {
        Ok(SignalEffect { events: activation_requests(sender_ids(signal, items)), ..nothing })
    } else {
        Ok(nothing)
    }
}

/// The contents of the outcome of a signal.
pub open spec fn signal_view(outcome: Result<SignalOutcome, Error>) -> Result<
    SignalOutcomeView,
    ErrorView,
> {
    match outcome {
        Ok(done) => Ok(done@),
        Err(error) => Err(error@),
    }
}

/// Whether the name is among those.
fn is_among(names: &Vec<String>, name: &str) -> (res: bool)
    ensures
        res == crate::wire::text_views(names@).contains(name@),
{
    let ghost all = crate::wire::text_views(names@);
    let mut i: usize = 0;
    while i < names.len()
        invariant
            i <= names@.len(),
            all == crate::wire::text_views(names@),
            forall|k: int| 0 <= k < i ==> #[trigger] all[k] != name@,
        decreases names@.len() - i,
    {
        if text::same(names[i].as_str(), name) {
            assert(all[i as int] == name@);
            return true;
        }
        assert(all[i as int] != name@);
        i = i + 1;
    }
    false
}

fn note_owner_change(
    name: &str,
    old_owner: &str,
    new_owner: &str,
    items: &Items,
    pending_unique_names: &mut Vec<String>,
) -> (res: SignalOutcome)
    ensures
        ({
            let effect = owner_changed(
                seq![name@, old_owner@, new_owner@],
                items@,
                crate::wire::text_views(old(pending_unique_names)@),
            );
            &&& res@ == effect.outcome
            &&& crate::wire::text_views(final(pending_unique_names)@) == effect.names
        }),
{
    let ghost before = pending_unique_names@;
    // A new process connected. Probe its unique name first, instead of waiting for hundreds
    // of existing names to be processed.
    if old_owner.is_empty() && !new_owner.is_empty() && text::starts_with(name, ":1.")
        && !is_among(pending_unique_names, name) {
        pending_unique_names.insert(0, name.to_owned());
        assert(crate::wire::text_views(pending_unique_names@) =~= seq![name@]
            + crate::wire::text_views(before));
    }
    if new_owner.is_empty() {
        SignalOutcome::Vanished(name.to_owned(), items.on_bus(name))
    } else {
        SignalOutcome::Done
    }
}

fn refresh_of(sender: &str, items: &Items) -> (res: SignalOutcome)
    ensures
        res@ == refresh(items@, sender@),
{
    if sender.is_empty() {
        return SignalOutcome::Done;
    }
    // Keep the service id and the object path of the existing item
    match items.find_on_bus(sender) {
        Some(i) => {
            let known = items.at(i);
            let target = Target {
                service_id: known.id.0.clone(),
                bus_name: sender.to_owned(),
                object_path: known.object_path.clone(),
            };
            SignalOutcome::Refresh(target)
        },
        None => SignalOutcome::Done,
    }
}

fn ids_of_sender(signal: &Message, items: &Items) -> (res: Vec<ItemId>)
    ensures
        items::id_views(res@) == sender_ids(signal@, items@),
{
    let sender: &str = message::field_str(&signal.sender);
    if sender.is_empty() {
        let none: Vec<ItemId> = Vec::new();
        assert(items::id_views(none@) =~= seq![]);
        return none;
    }
    items.on_bus(sender)
}

/// Handle an incoming signal: a change of owners, of an item, or of a menu.
///
/// New unique names are put in front of `pending_unique_names`, so that they get probed.
pub fn handle_signal(
    signal: &Message,
    items: &Items,
    events: &mut Vec<TrayEvent>,
    pending_unique_names: &mut Vec<String>,
) -> (res: Result<SignalOutcome, Error>)
    ensures
        ({
            let events_before = items::event_views(old(events)@);
            let events_after = items::event_views(final(events)@);
            let names_before = crate::wire::text_views(old(pending_unique_names)@);
            let names_after = crate::wire::text_views(final(pending_unique_names)@);
            match signal_effect(signal@, items@, names_before) {
                Ok(effect) => {
                    &&& signal_view(res) == Ok::<SignalOutcomeView, ErrorView>(effect.outcome)
                    &&& events_after == events_before + effect.events
                    &&& names_after == effect.names
                },
                Err(error) => {
                    &&& signal_view(res) == Err::<SignalOutcomeView, ErrorView>(error)
                    &&& events_after == events_before
                    &&& names_after == names_before
                },
            }
        }),
{
    let ghost names = crate::wire::text_views(pending_unique_names@);
    let ghost before = items::event_views(events@);
    let iface: &str = message::field_str(&signal.interface);
    let member: &str = message::field_str(&signal.member);
    assert(before + Seq::<TrayEventView>::empty() =~= before);
    if text::same(iface, "org.freedesktop.DBus") && text::same(member, "NameOwnerChanged") {
        return match signal.body.read_three_strings() {
            Ok((name, old_owner, new_owner)) => Ok(
                note_owner_change(
                    name.as_str(),
                    old_owner.as_str(),
                    new_owner.as_str(),
                    items,
                    pending_unique_names,
                ),
            ),
            Err(error) => Err(Error::Unmarshal(error)),
        };
    }
    let ghost mut made = Seq::<TrayEventView>::empty();
    let mut outcome: SignalOutcome = SignalOutcome::Done;
    if text::same(iface, SNI_IFACE) {
        outcome = refresh_of(message::field_str(&signal.sender), items);
    } else if text::same(iface, MENU_IFACE) && (text::same(member, "LayoutUpdated") || text::same(
        member,
        "ItemsPropertiesUpdated",
    )) {
        let ids: Vec<ItemId> = ids_of_sender(signal, items);
        let mut i: usize = 0;
        assert(before + menu_changes(items::id_views(ids@)).take(0) =~= before);
        while i < ids.len()
            invariant
                i <= ids@.len(),
                items::event_views(events@) == before + menu_changes(items::id_views(ids@)).take(
                    i as int,
                ),
            decreases ids@.len() - i,
        {
            let ghost so_far = items::event_views(events@);
            let ghost all = menu_changes(items::id_views(ids@));
            let id: ItemId = ids[i].clone();
            events.push(TrayEvent::MenuChanged(id));
            i = i + 1;
            assert(items::event_views(events@) =~= so_far.push(all[i - 1]));
            assert(before + all.take(i as int) =~= (before + all.take(i - 1)).push(all[i - 1]));
        }
        proof {
            made = menu_changes(items::id_views(ids@));
            assert(made.take(i as int) =~= made);
        }
    } else if text::same(iface, MENU_IFACE) && text::same(member, "ItemActivationRequested") {
        let ids: Vec<ItemId> = ids_of_sender(signal, items);
        let mut i: usize = 0;
        assert(before + activation_requests(items::id_views(ids@)).take(0) =~= before);
        while i < ids.len()
            invariant
                i <= ids@.len(),
                items::event_views(events@) == before + activation_requests(
                    items::id_views(ids@),
                ).take(i as int),
            decreases ids@.len() - i,
        {
            let ghost so_far = items::event_views(events@);
            let ghost all = activation_requests(items::id_views(ids@));
            let id: ItemId = ids[i].clone();
            events.push(TrayEvent::MenuActivationRequested(id));
            i = i + 1;
            assert(items::event_views(events@) =~= so_far.push(all[i - 1]));
            assert(before + all.take(i as int) =~= (before + all.take(i - 1)).push(all[i - 1]));
        }
        proof {
            made = activation_requests(items::id_views(ids@));
            assert(made.take(i as int) =~= made);
        }
    }
    proof {
        assert(items::event_views(events@) =~= before + made);
    }
    Ok(outcome)
}

// ---------------------------------------------------------------------------
// Registration on the bus

/// What a message that arrives while a bus name is awaited means.
#[derive(Debug, Clone, Copy, PartialEq, Eq, Structural)]
pub enum NameVerdict {
    /// The name is ours.
    GoOn,
    /// The name belongs to another watcher.
    Taken,
    /// The wait goes on.
    Wait,
}

/// What a message that arrives while the name asked for with that serial number is awaited
/// means. `1` (primary owner) and `4` (already owner) are the replies that give the name.
/// Whatever is not the answer to the request leaves the wait as it is.
pub open spec fn name_verdict(message: MessageView, serial: u32) -> NameVerdict {
    if message.response_serial == Some(serial) {
        if message.typ == MessageType::Reply && (message.body.first_u32() == Some(1u32)
            || message.body.first_u32() == Some(4u32)) {
            NameVerdict::GoOn
        } else {
            NameVerdict::Taken
        }
    } else {
        NameVerdict::Wait
    }
}

/// Judge a message that arrives while a watcher name is awaited.
pub fn register(message: &Message, serial: u32) -> (res: NameVerdict)
    ensures
        res == name_verdict(message@, serial),
{
    if message.responds_to(serial) {
        if message.typ != MessageType::Reply {
            return NameVerdict::Taken;
        }
        // 2 = in queue and 3 = exists mean that another watcher is active
        return match message.body.read_u32() {
            Ok(n) => if n == 1 || n == 4 {
                NameVerdict::GoOn
            } else {
                NameVerdict::Taken
            },
            Err(_) => NameVerdict::Taken,
        };
    }
    NameVerdict::Wait
}

/// The unique names among those, in their order.
pub open spec fn unique_among(names: Seq<Seq<char>>) -> Seq<Seq<char>>
    decreases names.len(),
{
    if names.len() == 0 {
        seq![]
    } else {
        let before = unique_among(names.drop_last());
        if is_unique_name(names.last()) {
            before.push(names.last())
        } else {
            before
        }
    }
}

/// The unique names (`:1.xxx`) among those, in their order.
pub fn unique_names(names: &Vec<String>) -> (res: Vec<String>)
    ensures
        crate::wire::text_views(res@) == unique_among(crate::wire::text_views(names@)),
{
    let ghost all = crate::wire::text_views(names@);
    let mut out: Vec<String> = Vec::new();
    let mut i: usize = 0;
    assert(crate::wire::text_views(out@) =~= unique_among(all.take(0)));
    while i < names.len()
        invariant
            i <= names@.len(),
            all == crate::wire::text_views(names@),
            crate::wire::text_views(out@) == unique_among(all.take(i as int)),
        decreases names@.len() - i,
    {
        let ghost before = out@;
        assert(all.take(i + 1).drop_last() =~= all.take(i as int));
        if text::starts_with(names[i].as_str(), ":1.") {
            out.push(names[i].clone());
            assert(crate::wire::text_views(out@) =~= crate::wire::text_views(before).push(
                all[i as int],
            ));
        }
        i = i + 1;
    }
    assert(all.take(i as int) =~= all);
    out
}

/// The names to probe that a message tells of, where it is the reply to the `ListNames` call
/// with that serial number. A reply that cannot be read tells of none.
pub open spec fn discovered(message: MessageView, serial: u32) -> Option<Seq<Seq<char>>> {
    if message.answers(MessageType::Reply, serial) {
        match message.body.string_array() {
            Some(names) => Some(unique_among(names)),
            None => Some(seq![]),
        }
    } else {
        None
    }
}

/// Collect the unique bus names that should be probed for SNI support from the reply to
/// `ListNames`. This discovers items that were running before the watcher started.
///
/// `None` where the message is not that reply; the caller keeps it for later.
pub fn discover_existing_items(message: &Message, serial: u32) -> (res: Option<Vec<String>>)
    ensures
        match res {
            Some(names) => discovered(message@, serial) == Some(crate::wire::text_views(names@)),
            None => discovered(message@, serial) is None,
        },
{
    if !message.answers(MessageType::Reply, serial) {
        return None;
    }
    match message.body.read_strings() {
        Ok(names) => Some(unique_names(&names)),
        Err(_) => {
            let none: Vec<String> = Vec::new();
            assert(crate::wire::text_views(none@) =~= seq![]);
            Some(none)
        },
    }
}

// ---------------------------------------------------------------------------
// Laws

/// Only the answer to the request for a name decides about it: the name is ours if the answer
/// is a reply with one of the two codes that give it, and else it belongs to another watcher.
pub proof fn law_only_the_answer_decides_about_a_name(message: MessageView, serial: u32)
    ensures
        message.response_serial != Some(serial) <==> name_verdict(message, serial)
            == NameVerdict::Wait,
        name_verdict(message, serial) == NameVerdict::GoOn ==> message.answers(
            MessageType::Reply,
            serial,
        ) && (message.body.first_u32() == Some(1u32) || message.body.first_u32() == Some(4u32)),
{
}

/// Normalizing a name twice is the same as normalizing it once.
pub proof fn law_normalize_is_idempotent(name: Seq<char>)
    ensures
        normalized(normalized(name)) == normalized(name),
{
    if !is_item_name(name) {
        let prefix = "org.freedesktop.StatusNotifierItem"@;
        reveal_strlit("org.freedesktop.StatusNotifierItem");
        reveal_strlit("org.freedesktop.StatusNotifierItem-");
        let longer = "org.freedesktop.StatusNotifierItem-"@ + name;
        assert(longer.subrange(0, prefix.len() as int) =~= prefix);
        assert(is_item_name(longer));
    }
}

/// Every registration names an object path. Where the service names it, bus name and path, put
/// together, are the identifier. Where it does not, a bus name is taken as it is, and only a
/// bare name is normalized.
pub proof fn law_parse_service_splits_identifier(sender: Seq<char>, service: Seq<char>)
    ensures
        is_path(parsed_service(sender, service).1),
        service.contains('/') ==> parsed_service(sender, service).0 + parsed_service(
            sender,
            service,
        ).1 == service_id_of(sender, service),
        !service.contains('/') ==> parsed_service(sender, service).1 == DEFAULT_ITEM_PATH@
            && service_id_of(sender, service) == service,
        !service.contains('/') && service.contains('.') ==> parsed_service(sender, service).0
            == service,
        !service.contains('/') && !service.contains('.') ==> parsed_service(sender, service).0
            == normalized(service),
{
    reveal_strlit("/StatusNotifierItem");
    if is_path(service) {
        assert(service.contains(service[0]));
    } else if service.contains('/') {
        let at = choose|k: int| 0 <= k < service.len() && service[k] == '/';
        lemma_first_slash(service, at);
        let slash = text::first_index(service, '/');
        assert(service.subrange(0, slash) + service.subrange(slash, service.len() as int)
            =~= service);
    }
}

proof fn lemma_first_slash(service: Seq<char>, at: int)
    requires
        0 <= at < service.len(),
        service[at] == '/',
    ensures
        0 <= text::first_index(service, '/') <= at,
        service[text::first_index(service, '/')] == '/',
    decreases service.len(),
{
    if service[0] != '/' {
        let rest = service.drop_first();
        assert(rest[at - 1] == service[at]);
        lemma_first_slash(rest, at - 1);
    }
}

/// Only unique names are ever found at startup, and all of them.
pub proof fn law_discovered_names_are_unique_names(names: Seq<Seq<char>>, name: Seq<char>)
    ensures
        unique_among(names).contains(name) <==> names.contains(name) && is_unique_name(name),
    decreases names.len(),
{
    if names.len() > 0 {
        let rest = names.drop_last();
        law_discovered_names_are_unique_names(rest, name);
        let all = unique_among(names);
        let before = unique_among(rest);
        if names.contains(name) {
            let k = choose|k: int| 0 <= k < names.len() && names[k] == name;
            if k < rest.len() {
                assert(rest[k] == name);
            }
        }
        if rest.contains(name) {
            let k = choose|k: int| 0 <= k < rest.len() && rest[k] == name;
            assert(names[k] == name);
        }
        if before.contains(name) {
            let k = choose|k: int| 0 <= k < before.len() && before[k] == name;
            assert(all[k] == name);
        }
        if is_unique_name(names.last()) {
            assert(all.last() == names.last());
            assert(names[names.len() - 1] == names.last());
            if all.contains(name) && name != names.last() {
                let k = choose|k: int| 0 <= k < all.len() && all[k] == name;
                assert(before[k] == name);
            }
        }
    }
}

/// Every method call is answered, on whatever object and interface and with whatever body: it
/// leads to a reply that goes to the sender and carries the serial number of the call, at once
/// or after the registration that it asks for.
pub proof fn law_every_call_is_answered(
    call: MessageView,
    items: Seq<TrayItemView>,
    host_name: Seq<char>,
    outcome: Result<CallOutcomeView, ErrorView>,
)
    requires
        is_call_outcome(call, items, host_name, outcome),
    ensures
        outcome matches Ok(done) && ({
            let reply = match done {
                CallOutcomeView::Reply(reply) => reply,
                CallOutcomeView::Register(registration) => registration.reply,
            };
            &&& reply.typ == MessageType::Reply
            &&& reply.destination == call.sender
            &&& reply.response_serial == call.serial
        }),
{
}

/// A change of owners without an old owner puts a unique name in front of the queue, and no
/// change of owners puts a name there twice.
pub proof fn law_queued_names_stay_distinct(
    names: Seq<Seq<char>>,
    name: Seq<char>,
    old_owner: Seq<char>,
    new_owner: Seq<char>,
)
    requires
        names.no_duplicates(),
    ensures
        names_after(names, name, old_owner, new_owner).no_duplicates(),
        old_owner.len() == 0 && new_owner.len() > 0 && is_unique_name(name) ==> names_after(
            names,
            name,
            old_owner,
            new_owner,
        ).contains(name),
{
    let now = names_after(names, name, old_owner, new_owner);
    if now != names {
        assert(now[0] == name);
        assert forall|i: int, j: int| 0 <= i < now.len() && 0 <= j < now.len() && i
            != j implies now[i] != now[j] by {
            if i > 0 {
                assert(now[i] == names[i - 1]);
            }
            if j > 0 {
                assert(now[j] == names[j - 1]);
            }
        }
    }
}

/// An item's well-known name and a unique name stay as they are. Any other name gets the
/// well-known prefix of items.
pub proof fn law_normalize_adds_the_prefix_where_it_is_missing(name: Seq<char>, rest: Seq<char>)
    ensures
        normalized("org.freedesktop.StatusNotifierItem"@ + rest)
            == "org.freedesktop.StatusNotifierItem"@ + rest,
        normalized("org.kde.StatusNotifierItem"@ + rest) == "org.kde.StatusNotifierItem"@ + rest,
        normalized(":"@ + rest) == ":"@ + rest,
        normalized(name) == name || normalized(name) == "org.freedesktop.StatusNotifierItem-"@
            + name,
        (forall|end: Seq<char>|
            {
                &&& name != #[trigger] ("org.freedesktop.StatusNotifierItem"@ + end)
                &&& name != "org.kde.StatusNotifierItem"@ + end
                &&& name != ":"@ + end
            }) ==> normalized(name) == "org.freedesktop.StatusNotifierItem-"@ + name,
{
    let one = "org.freedesktop.StatusNotifierItem"@;
    let two = "org.kde.StatusNotifierItem"@;
    let three = ":"@;
    text::law_begins_with(one, rest, name);
    text::law_begins_with(two, rest, name);
    text::law_begins_with(three, rest, name);
    if is_item_name(name) {
        let a = name.skip(one.len() as int);
        let b = name.skip(two.len() as int);
        let c = name.skip(three.len() as int);
        assert(name == one + a || name == two + b || name == three + c);
        assert(one + a == one + a && one + b == one + b && one + c == one + c);
    }
}

/// The three forms of a service name. A path alone is an object of the sender, and is known as
/// the sender and the path. A bus name and a path are just that. A bus name alone has the default
/// path; only a name without a dot is normalized to one. A service that does not begin with a
/// slash is known as what it called itself.
pub proof fn law_service_names_have_three_forms(
    sender: Seq<char>,
    name: Seq<char>,
    rest: Seq<char>,
)
    ensures
        ({
            let path = seq!['/'] + rest;
            &&& parsed_service(sender, path) == (sender, path)
            &&& service_id_of(sender, path) == sender + path
        }),
        ({
            let both = name + seq!['/'] + rest;
            name.len() > 0 && !name.contains('/') ==> {
                &&& parsed_service(sender, both) == (name, seq!['/'] + rest)
                &&& service_id_of(sender, both) == both
            }
        }),
        !name.contains('/') ==> {
            &&& parsed_service(sender, name).0 == if name.contains('.') {
                name
            } else {
                normalized(name)
            }
            &&& parsed_service(sender, name).1 == "/StatusNotifierItem"@
            &&& service_id_of(sender, name) == name
        },
{
    let path = seq!['/'] + rest;
    assert(path[0] == '/');
    let both = name + path;
    assert(name + seq!['/'] + rest =~= both);
    if name.len() > 0 && !name.contains('/') {
        let at = name.len() as int;
        assert(both[at] == '/');
        assert(both[0] == name[0] && name.contains(name[0]));
        assert forall|k: int| 0 <= k < at implies both[k] != '/' by {
            assert(name.contains(name[k]));
        }
        text::lemma_first_index(both, '/', at);
        assert(both.contains(both[at]));
        assert(both.subrange(0, at) =~= name);
        assert(both.subrange(at, both.len() as int) =~= path);
    }
    if !name.contains('/') && name.len() > 0 {
        assert(name.contains(name[0]));
    }
}

/// The signals of the watcher come from its object and its interface. Those about items name the
/// item, those about the host name nothing.
pub proof fn law_watcher_signals_name_the_item(id: Seq<char>)
    ensures
        registered(id) == MessageView::signal(
            "org.kde.StatusNotifierWatcher"@,
            "StatusNotifierItemRegistered"@,
            "/StatusNotifierWatcher"@,
        ).with_body(BodyView::empty().with_str(id)),
        unregistered(id) == MessageView::signal(
            "org.kde.StatusNotifierWatcher"@,
            "StatusNotifierItemUnregistered"@,
            "/StatusNotifierWatcher"@,
        ).with_body(BodyView::empty().with_str(id)),
        host_registered() == MessageView::signal(
            "org.kde.StatusNotifierWatcher"@,
            "StatusNotifierHostRegistered"@,
            "/StatusNotifierWatcher"@,
        ),
        host_unregistered() == MessageView::signal(
            "org.kde.StatusNotifierWatcher"@,
            "StatusNotifierHostUnregistered"@,
            "/StatusNotifierWatcher"@,
        ),
{
}

/// Different names of interfaces and methods are different.
proof fn lemma_names_differ()
    ensures
        "org.kde.StatusNotifierWatcher"@ != "org.freedesktop.DBus.Introspectable"@,
        "org.kde.StatusNotifierWatcher"@ != "org.freedesktop.DBus.Properties"@,
        "org.freedesktop.DBus.Properties"@ != "org.freedesktop.DBus.Introspectable"@,
        "RegisterStatusNotifierItem"@ != "RegisterStatusNotifierHost"@,
        "RegisterStatusNotifierItem"@ != "GetHostServiceName"@,
        "RegisterStatusNotifierHost"@ != "GetHostServiceName"@,
        "Get"@ != "GetAll"@,
{
    reveal_strlit("org.kde.StatusNotifierWatcher");
    reveal_strlit("org.freedesktop.DBus.Introspectable");
    reveal_strlit("org.freedesktop.DBus.Properties");
    reveal_strlit("RegisterStatusNotifierItem");
    reveal_strlit("RegisterStatusNotifierHost");
    reveal_strlit("GetHostServiceName");
    reveal_strlit("Get");
    reveal_strlit("GetAll");
    assert("org.kde.StatusNotifierWatcher"@.len() != "org.freedesktop.DBus.Introspectable"@.len());
    assert("org.kde.StatusNotifierWatcher"@.len() != "org.freedesktop.DBus.Properties"@.len());
    assert("org.freedesktop.DBus.Properties"@.len()
        != "org.freedesktop.DBus.Introspectable"@.len());
    assert("RegisterStatusNotifierItem"@[22] != "RegisterStatusNotifierHost"@[22]);
    assert("RegisterStatusNotifierItem"@.len() != "GetHostServiceName"@.len());
    assert("RegisterStatusNotifierHost"@.len() != "GetHostServiceName"@.len());
    assert("Get"@.len() != "GetAll"@.len());
}

/// Introspection is answered on every object: the watcher describes itself at its own path, and
/// points to itself at every other.
pub proof fn law_introspection_is_answered_everywhere(
    call: MessageView,
    items: Seq<TrayItemView>,
    host_name: Seq<char>,
    outcome: Result<CallOutcomeView, ErrorView>,
)
    requires
        is_call_outcome(call, items, host_name, outcome),
        call.interface == Some("org.freedesktop.DBus.Introspectable"@),
        call.member == Some("Introspect"@),
    ensures
        outcome matches Ok(CallOutcomeView::Reply(reply)) && {
            &&& reply.typ == MessageType::Reply && reply.error_name is None
            &&& reply.destination == call.sender && reply.response_serial == call.serial
            &&& reply.body == BodyView::empty().with_str(
                if call.object == Some("/StatusNotifierWatcher"@) {
                    WATCHER_INTROSPECT_XML@
                } else {
                    ROOT_INTROSPECT_XML@
                },
            )
        },
{
    reveal_strlit("/StatusNotifierWatcher");
}

/// Any other call on an object that does not exist is answered with an error that names it.
pub proof fn law_calls_on_other_objects_are_errors(
    call: MessageView,
    items: Seq<TrayItemView>,
    host_name: Seq<char>,
    outcome: Result<CallOutcomeView, ErrorView>,
    object: Seq<char>,
)
    requires
        is_call_outcome(call, items, host_name, outcome),
        call.interface != Some("org.freedesktop.DBus.Introspectable"@) || call.member != Some(
            "Introspect"@,
        ),
        call.object == Some(object) || call.object is None && object.len() == 0,
        object != "/StatusNotifierWatcher"@,
    ensures
        outcome matches Ok(CallOutcomeView::Reply(reply)) && {
            &&& reply.typ == MessageType::Reply
            &&& reply.error_name == Some("org.freedesktop.DBus.Error.UnknownObject"@)
            &&& reply.destination == call.sender && reply.response_serial == call.serial
            &&& reply.body == BodyView::empty().with_str(
                "This service does not implement the object path: "@ + object,
            )
        },
{
    reveal_strlit("org.freedesktop.DBus.Introspectable");
    reveal_strlit("Introspect");
    assert(object =~= message::field_text(call.object));
}

/// A call of `RegisterStatusNotifierItem` with a service name leads to a registration under the
/// identifier of the service, at the bus name and object path that the service stands for, and
/// to an empty reply to the caller in the end. A call without one is answered with an error.
pub proof fn law_register_item_reads_the_service(
    call: MessageView,
    items: Seq<TrayItemView>,
    host_name: Seq<char>,
    outcome: Result<CallOutcomeView, ErrorView>,
    sender: Seq<char>,
)
    requires
        is_call_outcome(call, items, host_name, outcome),
        call.object == Some("/StatusNotifierWatcher"@),
        call.interface == Some("org.kde.StatusNotifierWatcher"@),
        call.member == Some("RegisterStatusNotifierItem"@),
        call.sender == Some(sender) || call.sender is None && sender.len() == 0,
    ensures
        match call.body.strings(1) {
            Some(texts) => outcome matches Ok(CallOutcomeView::Register(registration)) && {
                let service = texts[0];
                &&& registration.service_id == if service.len() > 0 && service[0] == '/' {
                    sender + service
                } else {
                    service
                }
                &&& (registration.bus_name, registration.object_path) == parsed_service(
                    sender,
                    service,
                )
                &&& registration.reply.typ == MessageType::Reply
                &&& registration.reply.error_name is None
                &&& registration.reply.destination == call.sender
                &&& registration.reply.response_serial == call.serial
                &&& registration.reply.body == BodyView::empty()
            },
            None => outcome matches Ok(CallOutcomeView::Reply(reply)) && {
                &&& reply.typ == MessageType::Reply
                &&& reply.error_name == Some("org.freedesktop.DBus.Error.InvalidArgs"@)
                &&& reply.destination == call.sender && reply.response_serial == call.serial
            },
        },
{
    lemma_names_differ();
    assert(sender =~= message::field_text(call.sender));
}

/// The other methods of the watcher: a host that registers gets an empty reply, whoever asks for
/// the name of the host gets it, and other methods are unknown.
pub proof fn law_other_watcher_methods_are_answered(
    call: MessageView,
    items: Seq<TrayItemView>,
    host_name: Seq<char>,
    outcome: Result<CallOutcomeView, ErrorView>,
    member: Seq<char>,
)
    requires
        is_call_outcome(call, items, host_name, outcome),
        call.object == Some("/StatusNotifierWatcher"@),
        call.interface == Some("org.kde.StatusNotifierWatcher"@),
        call.member == Some(member),
        member != "RegisterStatusNotifierItem"@,
    ensures
        outcome matches Ok(CallOutcomeView::Reply(reply)) && {
            &&& reply.typ == MessageType::Reply
            &&& reply.destination == call.sender && reply.response_serial == call.serial
            &&& if member == "RegisterStatusNotifierHost"@ {
                reply.error_name is None && reply.body == BodyView::empty()
            } else if member == "GetHostServiceName"@ {
                reply.error_name is None && reply.body == BodyView::empty().with_str(host_name)
            } else {
                reply.error_name == Some("org.freedesktop.DBus.Error.UnknownMethod"@)
            }
        },
{
    lemma_names_differ();
}

/// `Get` gives the identifiers of all items in their order, that a host is registered, or the
/// version of the protocol. Other properties, and other interfaces, are errors that name them.
pub proof fn law_get_gives_the_property(
    call: MessageView,
    items: Seq<TrayItemView>,
    host_name: Seq<char>,
    outcome: Result<CallOutcomeView, ErrorView>,
)
    requires
        is_call_outcome(call, items, host_name, outcome),
        call.object == Some("/StatusNotifierWatcher"@),
        call.interface == Some("org.freedesktop.DBus.Properties"@),
        call.member == Some("Get"@),
    ensures
        outcome matches Ok(CallOutcomeView::Reply(reply)) && {
            &&& reply.typ == MessageType::Reply
            &&& reply.destination == call.sender && reply.response_serial == call.serial
            &&& match call.body.strings(2) {
                None => reply.error_name == Some("org.freedesktop.DBus.Error.InvalidArgs"@),
                Some(texts) => if texts[0] != "org.kde.StatusNotifierWatcher"@ {
                    &&& reply.error_name == Some("org.freedesktop.DBus.Error.UnknownProperty"@)
                    &&& reply.body == BodyView::empty().with_str("Unknown interface: "@ + texts[0])
                } else if texts[1] == "RegisteredStatusNotifierItems"@ {
                    &&& reply.error_name is None
                    &&& reply.body == BodyView::empty().with_variant_strs(
                        Seq::new(items.len(), |i: int| items[i].id),
                    )
                } else if texts[1] == "IsStatusNotifierHostRegistered"@ {
                    &&& reply.error_name is None
                    &&& reply.body == BodyView::empty().with_variant_bool(true)
                } else if texts[1] == "ProtocolVersion"@ {
                    &&& reply.error_name is None
                    &&& reply.body == BodyView::empty().with_variant_i32(0)
                } else {
                    &&& reply.error_name == Some("org.freedesktop.DBus.Error.UnknownProperty"@)
                    &&& reply.body == BodyView::empty().with_str("Unknown property: "@ + texts[1])
                },
            }
        },
{
    lemma_names_differ();
    lemma_property_names_differ();
    assert(items::all_ids(items) =~= Seq::new(items.len(), |i: int| items[i].id));
}

/// `GetAll` gives the same three properties at once and no others, where they can be written,
/// and an error where they cannot.
pub proof fn law_get_all_gives_the_properties(
    call: MessageView,
    items: Seq<TrayItemView>,
    host_name: Seq<char>,
    outcome: Result<CallOutcomeView, ErrorView>,
)
    requires
        is_call_outcome(call, items, host_name, outcome),
        call.object == Some("/StatusNotifierWatcher"@),
        call.interface == Some("org.freedesktop.DBus.Properties"@),
        call.member == Some("GetAll"@),
    ensures
        outcome matches Ok(CallOutcomeView::Reply(reply)) && {
            &&& reply.typ == MessageType::Reply
            &&& reply.destination == call.sender && reply.response_serial == call.serial
            &&& if forall|i: int|
                0 <= i < items.len() ==> !(#[trigger] items[i]).id.contains(0 as char) {
                &&& reply.error_name is None
                &&& reply.body.signature == seq!['a', '{', 's', 'v', '}']
                &&& reply.body.bytes.len() <= u32::MAX ==> (reply.body.param() matches Some(
                    ValueView::Dict(props),
                ) && {
                    &&& crate::value::says(
                        props,
                        "RegisteredStatusNotifierItems"@,
                        ValueView::Array(Seq::new(items.len(), |i: int| ValueView::Str(items[i].id))),
                    )
                    &&& crate::value::says(
                        props,
                        "IsStatusNotifierHostRegistered"@,
                        ValueView::Boolean(true),
                    )
                    &&& crate::value::says(props, "ProtocolVersion"@, ValueView::Int32(0))
                    &&& props.dom().len() == 3 && props.dom().finite()
                })
            } else {
                reply.error_name == Some("org.freedesktop.DBus.Error.Failed"@)
            }
        },
{
    lemma_names_differ();
    lemma_property_names_differ();
    let props = watcher_properties(items);
    let ids = Seq::new(items.len(), |i: int| ValueView::Str(items[i].id));
    let one = "RegisteredStatusNotifierItems"@;
    let two = "IsStatusNotifierHostRegistered"@;
    let three = "ProtocolVersion"@;
    assert(crate::wire::str_array(items::all_ids(items)) == ValueView::Array(ids)) by {
        let texts = items::all_ids(items);
        assert(Seq::new(texts.len(), |i: int| ValueView::Str(texts[i])) =~= ids);
    }
    assert(props.dom() =~= Set::empty().insert(one).insert(two).insert(three));
    assert(props[one] == ValueView::Variant(Box::new(ValueView::Array(ids))));
    if forall|i: int| 0 <= i < items.len() ==> !(#[trigger] items[i]).id.contains(0 as char) {
        assert(ids_writable(items));
    }
}

/// A name is ours exactly where the answer is a reply with the number for its first or for its
/// old owner. Any other answer says that another watcher has it.
pub proof fn law_name_is_ours_or_taken(message: MessageView, serial: u32)
    requires
        message.response_serial == Some(serial),
    ensures
        name_verdict(message, serial) == if message.typ == MessageType::Reply && (
        message.body.first_u32() == Some(1u32) || message.body.first_u32() == Some(4u32)) {
            NameVerdict::GoOn
        } else {
            NameVerdict::Taken
        },
{
}

/// The names to probe at startup are those of the list that begin with `:1.`, in their order: two
/// lists give what each gives, and a single name gives itself where it begins so.
pub proof fn law_discovered_names_join(
    first: Seq<Seq<char>>,
    second: Seq<Seq<char>>,
    name: Seq<char>,
    rest: Seq<char>,
)
    ensures
        unique_among(first + second) == unique_among(first) + unique_among(second),
        unique_among(seq![":1."@ + rest]) == seq![":1."@ + rest],
        unique_among(seq![name]).len() > 0 ==> name == ":1."@ + name.skip(3),
    decreases second.len(),
{
    if second.len() == 0 {
        assert(first + second =~= first);
        assert(unique_among(first) + unique_among(second) =~= unique_among(first));
    } else {
        assert((first + second).drop_last() =~= first + second.drop_last());
        law_discovered_names_join(first, second.drop_last(), name, rest);
        assert(unique_among(first + second) =~= unique_among(first) + unique_among(second));
    }
    reveal_strlit(":1.");
    text::law_begins_with(":1."@, rest, name);
    let one = seq![":1."@ + rest];
    assert(one.drop_last() =~= seq![]);
    assert(unique_among(one.drop_last()) =~= seq![]);
    assert(one.last() == ":1."@ + rest);
    assert(unique_among(one) =~= one);
    let other = seq![name];
    assert(other.drop_last() =~= seq![]);
    assert(unique_among(other.drop_last()) =~= seq![]);
    assert(other.last() == name);
}

/// The reply to `ListNames` gives the names to probe in its list, and none where there is no
/// list. Any other message leaves the wait as it is.
pub proof fn law_only_the_list_is_searched(message: MessageView, serial: u32)
    ensures
        discovered(message, serial) is Some <==> message.typ == MessageType::Reply
            && message.response_serial == Some(serial),
        discovered(message, serial) matches Some(found) ==> match message.body.string_array() {
            Some(names) => found == unique_among(names),
            None => found.len() == 0,
        },
{
}

/// Other methods of the properties interface, and methods of other interfaces, are unknown.
pub proof fn law_other_methods_are_unknown(
    call: MessageView,
    items: Seq<TrayItemView>,
    host_name: Seq<char>,
    outcome: Result<CallOutcomeView, ErrorView>,
    interface: Seq<char>,
    member: Seq<char>,
)
    requires
        is_call_outcome(call, items, host_name, outcome),
        call.object == Some("/StatusNotifierWatcher"@),
        call.interface == Some(interface),
        call.member == Some(member),
        interface != "org.kde.StatusNotifierWatcher"@,
        interface == "org.freedesktop.DBus.Properties"@ ==> member != "Get"@ && member != "GetAll"@,
        interface == "org.freedesktop.DBus.Introspectable"@ ==> member != "Introspect"@,
    ensures
        outcome matches Ok(CallOutcomeView::Reply(reply)) && {
            &&& reply.typ == MessageType::Reply
            &&& reply.error_name == Some("org.freedesktop.DBus.Error.UnknownMethod"@)
            &&& reply.destination == call.sender && reply.response_serial == call.serial
        },
{
    lemma_names_differ();
}

} // verus!
