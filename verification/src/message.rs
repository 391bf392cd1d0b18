//! D-Bus messages as plain data, and the messages that every service sends.

use vstd::prelude::*;

use crate::text;
use crate::wire::{Body, BodyView};

verus! {

/// The kinds of D-Bus message.
#[derive(Debug, Clone, Copy, PartialEq, Eq, Structural)]
pub enum MessageType {
    Signal,
    Error,
    Call,
    Reply,
    Invalid,
}

/// A message, received or to be sent.
#[derive(Debug)]
pub struct Message {
    pub typ: MessageType,
    pub interface: Option<String>,
    pub member: Option<String>,
    pub object: Option<String>,
    pub destination: Option<String>,
    pub sender: Option<String>,
    pub error_name: Option<String>,
    pub serial: Option<u32>,
    pub response_serial: Option<u32>,
    pub body: Body,
}

/// What a [`Message`] holds.
pub struct MessageView {
    pub typ: MessageType,
    pub interface: Option<Seq<char>>,
    pub member: Option<Seq<char>>,
    pub object: Option<Seq<char>>,
    pub destination: Option<Seq<char>>,
    pub sender: Option<Seq<char>>,
    pub error_name: Option<Seq<char>>,
    pub serial: Option<u32>,
    pub response_serial: Option<u32>,
    pub body: BodyView,
}

/// The contents of an optional string.
pub open spec fn optional_text(text: Option<String>) -> Option<Seq<char>> {
    match text {
        Some(s) => Some(s@),
        None => None,
    }
}

/// A header field, which is empty where it is absent.
pub open spec fn field_text(field: Option<Seq<char>>) -> Seq<char> {
    match field {
        Some(s) => s,
        None => seq![],
    }
}

impl View for Message {
    type V = MessageView;

    open spec fn view(&self) -> MessageView {
        MessageView {
            typ: self.typ,
            interface: optional_text(self.interface),
            member: optional_text(self.member),
            object: optional_text(self.object),
            destination: optional_text(self.destination),
            sender: optional_text(self.sender),
            error_name: optional_text(self.error_name),
            serial: self.serial,
            response_serial: self.response_serial,
            body: self.body@,
        }
    }
}

impl MessageView {
    /// A message of which nothing but the kind is set.
    pub open spec fn blank(typ: MessageType) -> MessageView {
        MessageView {
            typ,
            interface: None,
            member: None,
            object: None,
            destination: None,
            sender: None,
            error_name: None,
            serial: None,
            response_serial: None,
            body: BodyView::empty(),
        }
    }

    /// A method call without parameters.
    pub open spec fn call(
        destination: Seq<char>,
        object: Seq<char>,
        interface: Seq<char>,
        member: Seq<char>,
    ) -> MessageView {
        MessageView {
            interface: Some(interface),
            member: Some(member),
            object: Some(object),
            destination: Some(destination),
            ..MessageView::blank(MessageType::Call)
        }
    }

    /// A signal to everybody, without parameters.
    pub open spec fn signal(
        interface: Seq<char>,
        member: Seq<char>,
        object: Seq<char>,
    ) -> MessageView {
        MessageView {
            interface: Some(interface),
            member: Some(member),
            object: Some(object),
            ..MessageView::blank(MessageType::Signal)
        }
    }

    /// The same message with other parameters.
    pub open spec fn with_body(self, body: BodyView) -> MessageView {
        MessageView { body, ..self }
    }

    /// An empty reply to this message: it goes to the sender, and carries the serial number.
    pub open spec fn response(self) -> MessageView {
        MessageView {
            destination: self.sender,
            response_serial: self.serial,
            ..MessageView::blank(MessageType::Reply)
        }
    }

    /// An error reply to this message, with a text for people to read.
    pub open spec fn error_response(self, name: Seq<char>, text: Seq<char>) -> MessageView {
        MessageView {
            error_name: Some(name),
            body: BodyView::empty().with_str(text),
            ..self.response()
        }
    }

    /// The error reply to a call of a method that does not exist.
    pub open spec fn unknown_method(self) -> MessageView {
        self.error_response(
            "org.freedesktop.DBus.Error.UnknownMethod"@,
            "No calls to "@ + field_text(self.interface) + "."@ + field_text(self.member)
                + " are accepted for object "@ + field_text(self.object),
        )
    }

    /// The error reply to a call whose parameters are not of the expected types.
    pub open spec fn invalid_args(self, signature: Seq<char>) -> MessageView {
        self.error_response(
            "org.freedesktop.DBus.Error.InvalidArgs"@,
            "Invalid arguments for calls to "@ + field_text(self.interface) + "."@ + field_text(
                self.member,
            ) + " on object "@ + field_text(self.object) + " expected signature: "@ + signature,
        )
    }

    /// A call of a method of the message bus itself.
    pub open spec fn bus_call(member: Seq<char>) -> MessageView {
        MessageView::call(
            "org.freedesktop.DBus"@,
            "/org/freedesktop/DBus"@,
            "org.freedesktop.DBus"@,
            member,
        )
    }

    /// The call that asks the bus for a well-known name.
    pub open spec fn request_name(name: Seq<char>, flags: u32) -> MessageView {
        MessageView::bus_call("RequestName"@).with_body(
            BodyView::empty().with_str(name).with_u32(flags),
        )
    }

    /// The call that asks the bus for messages that match a rule.
    pub open spec fn add_match(rule: Seq<char>) -> MessageView {
        MessageView::bus_call("AddMatch"@).with_body(BodyView::empty().with_str(rule))
    }

    /// The call that asks the bus for the names of everybody on it.
    pub open spec fn list_names() -> MessageView {
        MessageView::bus_call("ListNames"@)
    }

    /// The message is a reply of the given kind to the message with that serial number.
    pub open spec fn answers(self, typ: MessageType, serial: u32) -> bool {
        self.typ == typ && self.response_serial == Some(serial)
    }
}

/// A copy of a header field.
pub fn copy_field(field: &Option<String>) -> (res: Option<String>)
    ensures
        optional_text(res) == optional_text(*field),
{
    match field {
        Some(text) => Some(text.clone()),
        None => None,
    }
}

/// The text of a header field, empty where the field is absent.
pub fn field_str(field: &Option<String>) -> (res: &str)
    ensures
        res@ == field_text(optional_text(*field)),
{
    match field {
        Some(text) => text.as_str(),
        None => {
            proof {
                reveal_strlit("");
                assert(""@ =~= seq![]);
            }
            ""
        },
    }
}

impl Message {
    /// A message of which nothing but the kind and the parameters is set.
    fn blank(typ: MessageType, body: Body) -> (res: Message)
        ensures
            res@ == MessageView::blank(typ).with_body(body@),
    {
        Message {
            typ,
            interface: None,
            member: None,
            object: None,
            destination: None,
            sender: None,
            error_name: None,
            serial: None,
            response_serial: None,
            body,
        }
    }

    /// A method call.
    pub fn call(
        destination: &str,
        object: &str,
        interface: &str,
        member: &str,
        body: Body,
    ) -> (res: Message)
        ensures
            res@ == MessageView::call(destination@, object@, interface@, member@).with_body(body@),
    {
        let mut res = Message::blank(MessageType::Call, body);
        res.interface = Some(interface.to_owned());
        res.member = Some(member.to_owned());
        res.object = Some(object.to_owned());
        res.destination = Some(destination.to_owned());
        res
    }

    /// A signal to everybody.
    pub fn signal(interface: &str, member: &str, object: &str, body: Body) -> (res: Message)
        ensures
            res@ == MessageView::signal(interface@, member@, object@).with_body(body@),
    {
        let mut res = Message::blank(MessageType::Signal, body);
        res.interface = Some(interface.to_owned());
        res.member = Some(member.to_owned());
        res.object = Some(object.to_owned());
        res
    }

    /// A reply to this message: it goes to the sender, and carries the serial number.
    pub fn make_response(&self, body: Body) -> (res: Message)
        ensures
            res@ == self@.response().with_body(body@),
    {
        let mut res = Message::blank(MessageType::Reply, body);
        res.destination = copy_field(&self.sender);
        res.response_serial = self.serial;
        res
    }

    /// An error reply to this message, with a text for people to read.
    pub fn make_error_response(&self, name: &str, text: &str) -> (res: Message)
        ensures
            res@ == self@.error_response(name@, text@),
    {
        let mut res = self.make_response(Body::new().with_str(text));
        res.error_name = Some(name.to_owned());
        res
    }

    /// The error reply to a call of a method that does not exist.
    pub fn unknown_method(&self) -> (res: Message)
        ensures
            res@ == self@.unknown_method(),
    {
        let mut line: String = text::join("No calls to ", field_str(&self.interface));
        line = text::join(line.as_str(), ".");
        line = text::join(line.as_str(), field_str(&self.member));
        line = text::join(line.as_str(), " are accepted for object ");
        line = text::join(line.as_str(), field_str(&self.object));
        self.make_error_response("org.freedesktop.DBus.Error.UnknownMethod", line.as_str())
    }

    /// The error reply to a call whose parameters are not of the expected types.
    pub fn invalid_args(&self, signature: &str) -> (res: Message)
        ensures
            res@ == self@.invalid_args(signature@),
    {
        let mut line: String = text::join(
            "Invalid arguments for calls to ",
            field_str(&self.interface),
        );
        line = text::join(line.as_str(), ".");
        line = text::join(line.as_str(), field_str(&self.member));
        line = text::join(line.as_str(), " on object ");
        line = text::join(line.as_str(), field_str(&self.object));
        line = text::join(line.as_str(), " expected signature: ");
        line = text::join(line.as_str(), signature);
        self.make_error_response("org.freedesktop.DBus.Error.InvalidArgs", line.as_str())
    }

    /// A call of a method of the message bus itself.
    fn bus_call(member: &str, body: Body) -> (res: Message)
        ensures
            res@ == MessageView::bus_call(member@).with_body(body@),
    {
        Message::call(
            "org.freedesktop.DBus",
            "/org/freedesktop/DBus",
            "org.freedesktop.DBus",
            member,
            body,
        )
    }

    /// The call that asks the bus for a well-known name.
    pub fn request_name(name: &str, flags: u32) -> (res: Message)
        ensures
            res@ == MessageView::request_name(name@, flags),
    {
        Message::bus_call("RequestName", Body::new().with_str(name).with_u32(flags))
    }

    /// The call that asks the bus for messages that match a rule.
    pub fn add_match(rule: &str) -> (res: Message)
        ensures
            res@ == MessageView::add_match(rule@),
    {
        Message::bus_call("AddMatch", Body::new().with_str(rule))
    }

    /// The call that asks the bus for the names of everybody on it.
    pub fn list_names() -> (res: Message)
        ensures
            res@ == MessageView::list_names(),
    {
        Message::bus_call("ListNames", Body::new())
    }

    /// Whether the message is a reply of the given kind to the message with that serial number.
    pub fn answers(&self, typ: MessageType, serial: u32) -> (res: bool)
        ensures
            res == self@.answers(typ, serial),
    {
        self.typ == typ && self.responds_to(serial)
    }

    /// Whether the message refers to the message with that serial number.
    pub fn responds_to(&self, serial: u32) -> (res: bool)
        ensures
            res == (self@.response_serial == Some(serial)),
    {
        match self.response_serial {
            Some(n) => n == serial,
            None => false,
        }
    }
}

// ---------------------------------------------------------------------------
// Laws

/// What is stated of a message is stated of its own fields.
pub proof fn law_message_view_shows_fields(message: Message)
    ensures
        message@.typ == message.typ,
        message@.interface is Some <==> message.interface is Some,
        message@.member is Some <==> message.member is Some,
        message@.object is Some <==> message.object is Some,
        message@.destination is Some <==> message.destination is Some,
        message@.sender is Some <==> message.sender is Some,
        message@.error_name is Some <==> message.error_name is Some,
        message.interface matches Some(text) ==> message@.interface == Some(text@),
        message.member matches Some(text) ==> message@.member == Some(text@),
        message.object matches Some(text) ==> message@.object == Some(text@),
        message.destination matches Some(text) ==> message@.destination == Some(text@),
        message.sender matches Some(text) ==> message@.sender == Some(text@),
        message.error_name matches Some(text) ==> message@.error_name == Some(text@),
        message@.serial == message.serial,
        message@.response_serial == message.response_serial,
        message@.body == message.body@,
{
}

/// A call has the kind, the destination, the object, the interface, the method and the
/// parameters that it is made with, and nothing else.
pub proof fn law_call_has_its_fields(
    destination: Seq<char>,
    object: Seq<char>,
    interface: Seq<char>,
    member: Seq<char>,
    body: BodyView,
)
    ensures
        MessageView::call(destination, object, interface, member).with_body(body) == (MessageView {
            typ: MessageType::Call,
            interface: Some(interface),
            member: Some(member),
            object: Some(object),
            destination: Some(destination),
            sender: None,
            error_name: None,
            serial: None,
            response_serial: None,
            body,
        }),
{
}

/// A signal goes to nobody in particular, and has the fields that it is made with and nothing
/// else.
pub proof fn law_signal_has_its_fields(
    interface: Seq<char>,
    member: Seq<char>,
    object: Seq<char>,
    body: BodyView,
)
    ensures
        MessageView::signal(interface, member, object).with_body(body) == (MessageView {
            typ: MessageType::Signal,
            interface: Some(interface),
            member: Some(member),
            object: Some(object),
            destination: None,
            sender: None,
            error_name: None,
            serial: None,
            response_serial: None,
            body,
        }),
{
}

/// A reply goes to the sender of the call and carries the serial number of the call. It has the
/// parameters that it is made with and nothing else.
pub proof fn law_response_goes_to_the_caller(call: MessageView, body: BodyView)
    ensures
        call.response().with_body(body) == (MessageView {
            typ: MessageType::Reply,
            interface: None,
            member: None,
            object: None,
            destination: call.sender,
            sender: None,
            error_name: None,
            serial: None,
            response_serial: call.serial,
            body,
        }),
        call.response().body == BodyView::empty(),
{
}

/// An error reply is a reply with the name of the error, and a text for its only parameter.
pub proof fn law_error_response_goes_to_the_caller(
    call: MessageView,
    name: Seq<char>,
    text: Seq<char>,
)
    ensures
        call.error_response(name, text) == (MessageView {
            typ: MessageType::Reply,
            interface: None,
            member: None,
            object: None,
            destination: call.sender,
            sender: None,
            error_name: Some(name),
            serial: None,
            response_serial: call.serial,
            body: BodyView::empty().with_str(text),
        }),
{
}

/// The errors for a method that does not exist, and for parameters of other types, name the
/// interface, the method and the object of the call.
pub proof fn law_error_texts_name_the_call(
    call: MessageView,
    interface: Seq<char>,
    member: Seq<char>,
    object: Seq<char>,
    signature: Seq<char>,
)
    requires
        call.interface == Some(interface),
        call.member == Some(member),
        call.object == Some(object),
    ensures
        call.unknown_method().error_name == Some("org.freedesktop.DBus.Error.UnknownMethod"@),
        call.unknown_method().body == BodyView::empty().with_str(
            "No calls to "@ + interface + "."@ + member + " are accepted for object "@ + object,
        ),
        call.invalid_args(signature).error_name == Some("org.freedesktop.DBus.Error.InvalidArgs"@),
        call.invalid_args(signature).body == BodyView::empty().with_str(
            "Invalid arguments for calls to "@ + interface + "."@ + member + " on object "@ + object
                + " expected signature: "@ + signature,
        ),
        call.unknown_method().destination == call.sender,
        call.unknown_method().response_serial == call.serial,
        call.invalid_args(signature).destination == call.sender,
        call.invalid_args(signature).response_serial == call.serial,
{
}

/// The calls to the bus itself go to the bus, with the method and the parameters that the bus
/// expects.
pub proof fn law_bus_calls_go_to_the_bus(name: Seq<char>, flags: u32, rule: Seq<char>)
    ensures
        MessageView::request_name(name, flags) == MessageView::call(
            "org.freedesktop.DBus"@,
            "/org/freedesktop/DBus"@,
            "org.freedesktop.DBus"@,
            "RequestName"@,
        ).with_body(BodyView::empty().with_str(name).with_u32(flags)),
        MessageView::add_match(rule) == MessageView::call(
            "org.freedesktop.DBus"@,
            "/org/freedesktop/DBus"@,
            "org.freedesktop.DBus"@,
            "AddMatch"@,
        ).with_body(BodyView::empty().with_str(rule)),
        MessageView::list_names() == MessageView::call(
            "org.freedesktop.DBus"@,
            "/org/freedesktop/DBus"@,
            "org.freedesktop.DBus"@,
            "ListNames"@,
        ),
{
}

/// A message answers a call where it is of the right kind and carries the serial number of the
/// call.
pub proof fn law_answers_carry_the_serial_number(
    message: MessageView,
    typ: MessageType,
    serial: u32,
)
    ensures
        message.answers(typ, serial) <==> message.typ == typ && message.response_serial == Some(
            serial,
        ),
        field_text(message.sender).len() > 0 ==> message.sender == Some(field_text(message.sender)),
        message.sender matches Some(sender) ==> field_text(message.sender) == sender,
{
}

} // verus!
