//! Message bodies, and the D-Bus wire format that they are written in.

use rustbus::message_builder::{MarshalledMessage, MarshalledMessageBody};
use rustbus::params::{Container, Param};
use rustbus::wire::errors::{MarshalError, UnmarshalError};
use rustbus::wire::UnixFd;
use rustbus::ByteOrder;
use vstd::prelude::*;

use crate::value::{Value, ValueView};

verus! {

/// The outside message type, which the wrappers below pass around.
#[verifier::external_type_specification]
#[verifier::external_body]
pub struct ExMarshalledMessage(MarshalledMessage);

/// The outside error of a failed read.
#[verifier::external_type_specification]
#[verifier::external_body]
pub struct ExUnmarshalError(UnmarshalError);

/// The outside error of a failed write.
#[verifier::external_type_specification]
#[verifier::external_body]
pub struct ExMarshalError(MarshalError);

/// The marshalled parameters of a message.
#[derive(Debug, Clone)]
pub struct Body {
    /// The D-Bus signature of the parameters, one complete type after the other.
    pub signature: String,
    /// The parameters in wire format.
    pub bytes: Vec<u8>,
    /// Whether numbers are written with the most significant byte first.
    pub big_endian: bool,
    /// How many file descriptors came with the message.
    pub fds: u16,
}

/// What a [`Body`] holds.
pub struct BodyView {
    pub signature: Seq<char>,
    pub bytes: Seq<u8>,
    pub big_endian: bool,
    pub fds: nat,
}

impl View for Body {
    type V = BodyView;

    open spec fn view(&self) -> BodyView {
        BodyView {
            signature: self.signature@,
            bytes: self.bytes@,
            big_endian: self.big_endian,
            fds: self.fds as nat,
        }
    }
}

// ---------------------------------------------------------------------------
// Writing

/// The zero bytes that bring `len` to a multiple of `unit`.
pub open spec fn padding(len: int, unit: int) -> Seq<u8> {
    Seq::new(((unit - len % unit) % unit) as nat, |i: int| 0u8)
}

/// `bytes`, padded with zeros to a multiple of four.
pub open spec fn aligned(bytes: Seq<u8>) -> Seq<u8> {
    bytes + padding(bytes.len() as int, 4)
}

/// The four bytes of an unsigned number.
pub open spec fn word(n: int, big_endian: bool) -> Seq<u8> {
    let b0 = (n % 256) as u8;
    let b1 = (n / 256 % 256) as u8;
    let b2 = (n / 65536 % 256) as u8;
    let b3 = (n / 16777216 % 256) as u8;
    if big_endian {
        seq![b3, b2, b1, b0]
    } else {
        seq![b0, b1, b2, b3]
    }
}

/// The unsigned number with the same 32 bits.
pub open spec fn twos_complement(n: i32) -> int {
    if n < 0 {
        n + 0x1_0000_0000
    } else {
        n as int
    }
}

/// A string behind `bytes`: its length in bytes, the bytes, and a zero.
pub open spec fn after_string(bytes: Seq<u8>, text: Seq<char>, big_endian: bool) -> Seq<u8> {
    let utf8 = vstd::utf8::encode_utf8(text);
    aligned(bytes) + word(utf8.len() as int, big_endian) + utf8 + seq![0u8]
}

/// A number behind `bytes`.
pub open spec fn after_word(bytes: Seq<u8>, n: int, big_endian: bool) -> Seq<u8> {
    aligned(bytes) + word(n, big_endian)
}

/// Strings behind `bytes`, one after the other.
pub open spec fn after_strings(bytes: Seq<u8>, texts: Seq<Seq<char>>, big_endian: bool) -> Seq<u8>
    decreases texts.len(),
{
    if texts.len() == 0 {
        bytes
    } else {
        after_string(after_strings(bytes, texts.drop_last(), big_endian), texts.last(), big_endian)
    }
}

/// Signed numbers behind `bytes`, one after the other.
pub open spec fn after_i32s(bytes: Seq<u8>, numbers: Seq<i32>, big_endian: bool) -> Seq<u8>
    decreases numbers.len(),
{
    if numbers.len() == 0 {
        bytes
    } else {
        after_word(
            after_i32s(bytes, numbers.drop_last(), big_endian),
            twos_complement(numbers.last()),
            big_endian,
        )
    }
}

/// An array behind `bytes`: the size of its contents in bytes, then the contents.
/// `whole` is `bytes`, aligned, then four bytes for the size, then the contents.
pub open spec fn sized(bytes: Seq<u8>, whole: Seq<u8>, big_endian: bool) -> Seq<u8> {
    let start = aligned(bytes).len() + 4;
    aligned(bytes) + word(whole.len() - start, big_endian) + whole.skip(start as int)
}

/// An array of strings behind `bytes`.
pub open spec fn after_string_array(
    bytes: Seq<u8>,
    texts: Seq<Seq<char>>,
    big_endian: bool,
) -> Seq<u8> {
    sized(bytes, after_strings(after_word(bytes, 0, big_endian), texts, big_endian), big_endian)
}

/// An array of signed numbers behind `bytes`.
pub open spec fn after_i32_array(bytes: Seq<u8>, numbers: Seq<i32>, big_endian: bool) -> Seq<u8> {
    sized(bytes, after_i32s(after_word(bytes, 0, big_endian), numbers, big_endian), big_endian)
}

/// The contents of a row of strings.
pub open spec fn text_views(texts: Seq<String>) -> Seq<Seq<char>> {
    Seq::new(texts.len(), |i: int| texts[i]@)
}

/// The contents of a row of string slices.
pub open spec fn str_views(texts: Seq<&str>) -> Seq<Seq<char>> {
    Seq::new(texts.len(), |i: int| texts[i]@)
}

impl BodyView {
    /// No parameters at all.
    pub open spec fn empty() -> BodyView {
        BodyView { signature: seq![], bytes: seq![], big_endian: false, fds: 0 }
    }

    /// With one more parameter, of type `s`.
    pub open spec fn with_str(self, text: Seq<char>) -> BodyView {
        BodyView {
            signature: self.signature + seq!['s'],
            bytes: after_string(self.bytes, text, self.big_endian),
            ..self
        }
    }

    /// With one more parameter, of type `i`.
    pub open spec fn with_i32(self, n: i32) -> BodyView {
        BodyView {
            signature: self.signature + seq!['i'],
            bytes: after_word(self.bytes, twos_complement(n), self.big_endian),
            ..self
        }
    }

    /// With one more parameter, of type `u`.
    pub open spec fn with_u32(self, n: u32) -> BodyView {
        BodyView {
            signature: self.signature + seq!['u'],
            bytes: after_word(self.bytes, n as int, self.big_endian),
            ..self
        }
    }

    /// With one more parameter, of type `ai`.
    pub open spec fn with_i32s(self, numbers: Seq<i32>) -> BodyView {
        BodyView {
            signature: self.signature + seq!['a', 'i'],
            bytes: after_i32_array(self.bytes, numbers, self.big_endian),
            ..self
        }
    }

    /// With one more parameter, of type `as`.
    pub open spec fn with_strs(self, texts: Seq<Seq<char>>) -> BodyView {
        BodyView {
            signature: self.signature + seq!['a', 's'],
            bytes: after_string_array(self.bytes, texts, self.big_endian),
            ..self
        }
    }

    /// With one more parameter, a variant that holds an `i`.
    pub open spec fn with_variant_i32(self, n: i32) -> BodyView {
        BodyView {
            signature: self.signature + seq!['v'],
            bytes: after_word(self.bytes + seq![1u8, 0x69, 0], twos_complement(n), self.big_endian),
            ..self
        }
    }

    /// With one more parameter, a variant that holds a `b`.
    pub open spec fn with_variant_bool(self, b: bool) -> BodyView {
        BodyView {
            signature: self.signature + seq!['v'],
            bytes: after_word(
                self.bytes + seq![1u8, 0x62, 0],
                if b {
                    1
                } else {
                    0
                },
                self.big_endian,
            ),
            ..self
        }
    }

    /// With one more parameter, a variant that holds an `as`.
    pub open spec fn with_variant_strs(self, texts: Seq<Seq<char>>) -> BodyView {
        BodyView {
            signature: self.signature + seq!['v'],
            bytes: after_string_array(self.bytes + seq![2u8, 0x61, 0x73, 0], texts, self.big_endian),
            ..self
        }
    }
}

/// The outside message with `body` for its parameters. File descriptors are stood for by closed
/// ones: the readers below only count them.
#[verifier::external_body]
fn marshalled(body: Body) -> MarshalledMessage {
    let order = if body.big_endian { ByteOrder::BigEndian } else { ByteOrder::LittleEndian };
    let fds = vec![UnixFd::new(-1); usize::from(body.fds)];
    let mut message = MarshalledMessage::new();
    message.body = MarshalledMessageBody::from_parts(body.bytes, fds, body.signature, order);
    message
}

/// The parameters of an outside message, written in the given byte order.
#[verifier::external_body]
fn plain(message: MarshalledMessage, big_endian: bool, fds: u16) -> Body {
    let signature = message.get_sig().to_owned();
    let bytes = message.get_buf().to_vec();
    Body { signature, bytes, big_endian, fds }
}

impl Body {
    /// A body without parameters.
    pub fn new() -> (res: Body)
        ensures
            res@ == BodyView::empty(),
    {
        let res = Body { signature: String::new(), bytes: Vec::new(), big_endian: false, fds: 0 };
        proof {
            assert(res@.signature =~= seq![]);
            assert(res@.bytes =~= seq![]);
        }
        res
    }

    /// Calls `MarshalledMessageBody::push_param` with a `&str`. It appends the parameter's
    /// wire format to the bytes and its type to the signature, and cannot fail for this type.
    /// The type `s` behind a valid signature leaves the signature valid, as far as it still
    /// fits in the 255 bytes that a signature may have.
    #[verifier::external_body]
    pub(crate) fn with_str(self, text: &str) -> (res: Body)
        ensures
            res@ == self@.with_str(text@),
            self@.signature.len() == 0 || (valid_signature(self@.signature)
                && self@.signature.len() < 255) ==> valid_signature(res@.signature),
    {
        let (big_endian, fds) = (self.big_endian, self.fds);
        let mut message = marshalled(self);
        message.body.push_param(text).unwrap();
        plain(message, big_endian, fds)
    }

    /// Calls `MarshalledMessageBody::push_param` with an `i32`. It appends the parameter's
    /// wire format to the bytes and its type to the signature, and cannot fail for this type.
    #[verifier::external_body]
    pub(crate) fn with_i32(self, n: i32) -> (res: Body)
        ensures
            res@ == self@.with_i32(n),
    {
        let (big_endian, fds) = (self.big_endian, self.fds);
        let mut message = marshalled(self);
        message.body.push_param(n).unwrap();
        plain(message, big_endian, fds)
    }

    /// Calls `MarshalledMessageBody::push_param` with a `u32`. It appends the parameter's
    /// wire format to the bytes and its type to the signature, and cannot fail for this type.
    #[verifier::external_body]
    pub(crate) fn with_u32(self, n: u32) -> (res: Body)
        ensures
            res@ == self@.with_u32(n),
    {
        let (big_endian, fds) = (self.big_endian, self.fds);
        let mut message = marshalled(self);
        message.body.push_param(n).unwrap();
        plain(message, big_endian, fds)
    }

    /// Calls `MarshalledMessageBody::push_param` with a `&[i32]`. It appends the parameter's
    /// wire format to the bytes and its type to the signature. It panics where the numbers
    /// take more bytes than a D-Bus array can count, and cannot fail otherwise.
    #[verifier::external_body]
    pub(crate) fn with_i32s(self, numbers: &[i32]) -> (res: Body)
        requires
            numbers@.len() * 4 <= u32::MAX,
        ensures
            res@ == self@.with_i32s(numbers@),
    {
        let (big_endian, fds) = (self.big_endian, self.fds);
        let mut message = marshalled(self);
        message.body.push_param(numbers).unwrap();
        plain(message, big_endian, fds)
    }

    /// Calls `MarshalledMessageBody::push_param` with a `&[&str]`. It appends the parameter's
    /// wire format to the bytes and its type to the signature, and cannot fail for this type.
    #[verifier::external_body]
    pub(crate) fn with_strs(self, texts: &[&str]) -> (res: Body)
        ensures
            res@ == self@.with_strs(str_views(texts@)),
    {
        let (big_endian, fds) = (self.big_endian, self.fds);
        let mut message = marshalled(self);
        message.body.push_param(texts).unwrap();
        plain(message, big_endian, fds)
    }

    /// Calls `MarshalledMessageBody::push_variant` with an `i32`. It appends the signature of
    /// the value and the value to the bytes, and `v` to the signature, and cannot fail for
    /// this type. `MessageBodyParser::get_param` reads the variant back from an empty body that
    /// it was put into.
    #[verifier::external_body]
    pub(crate) fn with_variant_i32(self, n: i32) -> (res: Body)
        ensures
            res@ == self@.with_variant_i32(n),
            self@.signature.len() == 0 && self@.bytes.len() == 0 ==> res@.param() == Some(
                ValueView::Variant(Box::new(ValueView::Int32(n))),
            ),
    {
        let (big_endian, fds) = (self.big_endian, self.fds);
        let mut message = marshalled(self);
        message.body.push_variant(n).unwrap();
        plain(message, big_endian, fds)
    }

    /// Calls `MarshalledMessageBody::push_variant` with a `bool`. It appends the signature of
    /// the value and the value to the bytes, and `v` to the signature, and cannot fail for
    /// this type. `MessageBodyParser::get_param` reads the variant back from an empty body that
    /// it was put into.
    #[verifier::external_body]
    pub(crate) fn with_variant_bool(self, b: bool) -> (res: Body)
        ensures
            res@ == self@.with_variant_bool(b),
            self@.signature.len() == 0 && self@.bytes.len() == 0 ==> res@.param() == Some(
                ValueView::Variant(Box::new(ValueView::Boolean(b))),
            ),
    {
        let (big_endian, fds) = (self.big_endian, self.fds);
        let mut message = marshalled(self);
        message.body.push_variant(b).unwrap();
        plain(message, big_endian, fds)
    }

    /// Calls `MarshalledMessageBody::push_variant` with a `&[&str]`. It appends the signature
    /// of the value and the value to the bytes, and `v` to the signature, and cannot fail for
    /// this type. `MessageBodyParser::get_param` reads the variant back from an empty body that
    /// it was put into, where no string holds a zero character and the bytes can be counted in
    /// 32 bits.
    #[verifier::external_body]
    pub(crate) fn with_variant_strs(self, texts: &[&str]) -> (res: Body)
        ensures
            res@ == self@.with_variant_strs(str_views(texts@)),
            self@.signature.len() == 0 && self@.bytes.len() == 0 && res@.bytes.len() <= u32::MAX
                && (forall|i: int|
                0 <= i < texts@.len() ==> !(#[trigger] texts@[i])@.contains(0 as char))
                ==> res@.param() == Some(
                ValueView::Variant(Box::new(str_array(str_views(texts@)))),
            ),
    {
        let (big_endian, fds) = (self.big_endian, self.fds);
        let mut message = marshalled(self);
        message.body.push_variant(texts).unwrap();
        plain(message, big_endian, fds)
    }

    /// Calls `MarshalledMessageBody::push_old_param` with a dictionary of type `a{sv}` that
    /// has three entries: an array of strings, a boolean and a number, each under a name.
    ///
    /// It fails exactly where one of the strings holds a zero character. Otherwise it appends
    /// the dictionary's wire format to the bytes and its type to the signature. The entries
    /// stand in the order of a hash map, so the bytes are not fixed; what is claimed of them
    /// is that `MessageBodyParser::get_param` reads the three entries back from an empty body
    /// that they were put into, where their bytes can be counted in 32 bits.
    #[verifier::external_body]
    pub(crate) fn with_properties(
        self,
        texts: (&str, &[&str]),
        flag: (&str, bool),
        number: (&str, i32),
    ) -> (res: Result<Body, MarshalError>)
        requires
            texts.0@ != flag.0@,
            texts.0@ != number.0@,
            flag.0@ != number.0@,
        ensures
            res is Ok <==> {
                &&& !texts.0@.contains(0 as char)
                &&& !flag.0@.contains(0 as char)
                &&& !number.0@.contains(0 as char)
                &&& forall|i: int|
                    0 <= i < texts.1@.len() ==> !(#[trigger] texts.1@[i])@.contains(0 as char)
            },
            res matches Ok(body) ==> {
                &&& body@.signature == self@.signature + seq!['a', '{', 's', 'v', '}']
                &&& body@.big_endian == self@.big_endian && body@.fds == self@.fds
                &&& self@.signature.len() == 0 && self@.bytes.len() == 0 && body@.bytes.len()
                    <= u32::MAX ==> body@.param() == Some(
                    ValueView::Dict(
                        map![
                            texts.0@ => ValueView::Variant(Box::new(str_array(str_views(texts.1@)))),
                            flag.0@ => ValueView::Variant(Box::new(ValueView::Boolean(flag.1))),
                            number.0@ => ValueView::Variant(Box::new(ValueView::Int32(number.1))),
                        ],
                    ),
                )
            },
    {
        let (big_endian, fds) = (self.big_endian, self.fds);
        let list = Container::make_variant(Container::make_array("s", texts.1.iter().copied())?);
        let one = Container::make_variant(flag.1);
        let two = Container::make_variant(number.1);
        let entries = [(texts.0, list), (flag.0, one), (number.0, two)];
        let dict = Param::Container(Container::make_dict("s", "v", entries.into_iter())?);
        let mut message = marshalled(self);
        message.body.push_old_param(&dict)?;
        Ok(plain(message, big_endian, fds))
    }
}

// ---------------------------------------------------------------------------
// Reading

/// Whether `rustbus::params::validate_signature` accepts a signature.
pub uninterp spec fn valid_signature(signature: Seq<char>) -> bool;

/// The complete type that `rustbus::signature::SignatureIter` yields behind `skip` others.
pub uninterp spec fn nth_type(signature: Seq<char>, skip: nat) -> Option<Seq<char>>;

/// Whether `rustbus::signature::Type::parse_description` accepts a signature.
pub uninterp spec fn parseable(signature: Seq<char>) -> bool;

/// The value that `MessageBodyParser::get_param` reads from a body after `skip` numbers of type
/// `u32` were read from its start, if it reads one.
pub uninterp spec fn param_read(
    signature: Seq<char>,
    bytes: Seq<u8>,
    big_endian: bool,
    fds: nat,
    skip: nat,
) -> Option<ValueView>;

/// The position at or after `at` that is a multiple of four, where the body reaches to it
/// and only zeros are skipped.
pub open spec fn aligned_from(bytes: Seq<u8>, at: int) -> Option<int> {
    let start = at + (4 - at % 4) % 4;
    if start <= bytes.len() && bytes.subrange(at, start) == padding(at, 4) {
        Some(start)
    } else {
        None
    }
}

/// The unsigned number at `at`, and the position behind it.
pub open spec fn u32_at(bytes: Seq<u8>, at: int, big_endian: bool) -> Option<(u32, int)> {
    match aligned_from(bytes, at) {
        Some(start) => if start + 4 <= bytes.len() {
            let n = if big_endian {
                number(bytes[start + 3], bytes[start + 2], bytes[start + 1], bytes[start])
            } else {
                number(bytes[start], bytes[start + 1], bytes[start + 2], bytes[start + 3])
            };
            Some((n as u32, start + 4))
        } else {
            None
        },
        None => None,
    }
}

/// The number with these bytes, the least significant one first.
pub open spec fn number(b0: u8, b1: u8, b2: u8, b3: u8) -> int {
    b0 + 256 * b1 + 65536 * b2 + 16777216 * b3
}

/// The string at `at`, and the position behind it.
pub open spec fn string_at(bytes: Seq<u8>, at: int, big_endian: bool) -> Option<(Seq<char>, int)> {
    match u32_at(bytes, at, big_endian) {
        Some((n, start)) => if start + n + 1 <= bytes.len() {
            let utf8 = bytes.subrange(start, start + n);
            let text = vstd::utf8::decode_utf8(utf8);
            if vstd::utf8::valid_utf8(utf8) && !text.contains(0 as char) {
                Some((text, start + n + 1))
            } else {
                None
            }
        } else {
            None
        },
        None => None,
    }
}

/// `count` strings from `at` on, one after the other.
pub open spec fn strings_at(bytes: Seq<u8>, at: int, count: nat, big_endian: bool) -> Option<
    Seq<Seq<char>>,
>
    decreases count,
{
    if count == 0 {
        Some(seq![])
    } else {
        match string_at(bytes, at, big_endian) {
            Some((text, next)) => match strings_at(bytes, next, (count - 1) as nat, big_endian) {
                Some(rest) => Some(seq![text] + rest),
                None => None,
            },
            None => None,
        }
    }
}

/// Strings from `at` on until `size` bytes have been read.
pub open spec fn strings_within(bytes: Seq<u8>, at: int, size: int, big_endian: bool) -> Option<
    Seq<Seq<char>>,
>
    decreases
        if size > 0 {
            size
        } else {
            0
        },
{
    if size <= 0 {
        Some(seq![])
    } else {
        match string_at(bytes, at, big_endian) {
            Some((text, next)) => if next > at {
                match strings_within(bytes, next, size - (next - at), big_endian) {
                    Some(rest) => Some(seq![text] + rest),
                    None => None,
                }
            } else {
                None
            },
            None => None,
        }
    }
}

/// An array of strings as a value.
pub open spec fn str_array(texts: Seq<Seq<char>>) -> ValueView {
    ValueView::Array(Seq::new(texts.len(), |i: int| ValueView::Str(texts[i])))
}

impl BodyView {
    /// The first `count` parameters, where they are strings.
    pub open spec fn strings(self, count: nat) -> Option<Seq<Seq<char>>> {
        if valid_signature(self.signature) && count <= self.signature.len() && (forall|i: int|
            0 <= i < count ==> self.signature[i] == 's') {
            strings_at(self.bytes, 0, count, self.big_endian)
        } else {
            None
        }
    }

    /// The first parameter, where it is an unsigned number.
    pub open spec fn first_u32(self) -> Option<u32> {
        if valid_signature(self.signature) && self.signature.len() > 0 && self.signature[0] == 'u' {
            match u32_at(self.bytes, 0, self.big_endian) {
                Some((n, _)) => Some(n),
                None => None,
            }
        } else {
            None
        }
    }

    /// The first parameter, where it is an array of strings.
    pub open spec fn string_array(self) -> Option<Seq<Seq<char>>> {
        if valid_signature(self.signature) && self.signature.len() > 1 && self.signature[0] == 'a'
            && self.signature[1] == 's' {
            match u32_at(self.bytes, 0, self.big_endian) {
                Some((size, start)) => strings_within(
                    self.bytes,
                    start,
                    size as int,
                    self.big_endian,
                ),
                None => None,
            }
        } else {
            None
        }
    }

    /// The parameter behind `skip` others has a type whose values can be read.
    pub open spec fn readable(self, skip: nat) -> bool {
        &&& valid_signature(self.signature)
        &&& nth_type(self.signature, skip) matches Some(typ) ==> parseable(typ)
    }

    /// The first parameter, of whatever type.
    pub open spec fn param(self) -> Option<ValueView> {
        if self.readable(0) {
            param_read(self.signature, self.bytes, self.big_endian, self.fds, 0)
        } else {
            None
        }
    }

    /// The parameter behind an unsigned number, of whatever type.
    pub open spec fn second_param(self) -> Option<ValueView> {
        if self.readable(1) {
            param_read(self.signature, self.bytes, self.big_endian, self.fds, 1)
        } else {
            None
        }
    }
}

/// Calls `rustbus::params::validate_signature`.
#[verifier::external_body]
fn validate(signature: &str) -> (res: Result<(), UnmarshalError>)
    ensures
        res is Ok <==> valid_signature(signature@),
{
    rustbus::params::validate_signature(signature).map_err(UnmarshalError::from)
}

/// Iterates a `rustbus::signature::SignatureIter` to the complete type behind `skip` others.
/// The iterator panics on signatures that are not valid.
#[verifier::external_body]
fn type_behind(signature: &str, skip: usize) -> (res: Option<String>)
    requires
        valid_signature(signature@),
    ensures
        match res {
            Some(typ) => nth_type(signature@, skip as nat) == Some(typ@),
            None => nth_type(signature@, skip as nat) is None,
        },
{
    rustbus::signature::SignatureIter::new(signature).nth(skip).map(str::to_owned)
}

/// Calls `rustbus::signature::Type::parse_description`.
#[verifier::external_body]
fn parse(signature: &str) -> (res: Result<(), UnmarshalError>)
    ensures
        res is Ok <==> parseable(signature@),
{
    match rustbus::signature::Type::parse_description(signature) {
        Ok(_) => Ok(()),
        Err(error) => Err(UnmarshalError::from(error)),
    }
}

/// Calls `MessageBodyParser::get` for a `String`. It reads the first parameter where that
/// is a string, and panics on signatures that are not valid.
#[verifier::external_body]
fn get_string(body: &Body) -> (res: Result<String, UnmarshalError>)
    requires
        valid_signature(body@.signature),
    ensures
        match res {
            Ok(text) => body@.strings(1) == Some(seq![text@]),
            Err(_) => body@.strings(1) is None,
        },
{
    marshalled(body.clone()).body.parser().get::<String>()
}

/// Calls `MessageBodyParser::get2` for two `String`s. It reads the first two parameters
/// where both are strings, and panics on signatures that are not valid.
#[verifier::external_body]
fn get_two_strings(body: &Body) -> (res: Result<(String, String), UnmarshalError>)
    requires
        valid_signature(body@.signature),
    ensures
        match res {
            Ok(texts) => body@.strings(2) == Some(seq![texts.0@, texts.1@]),
            Err(_) => body@.strings(2) is None,
        },
{
    marshalled(body.clone()).body.parser().get2::<String, String>()
}

/// Calls `MessageBodyParser::get3` for three `String`s. It reads the first three parameters
/// where all are strings, and panics on signatures that are not valid.
#[verifier::external_body]
fn get_three_strings(body: &Body) -> (res: Result<(String, String, String), UnmarshalError>)
    requires
        valid_signature(body@.signature),
    ensures
        match res {
            Ok(texts) => body@.strings(3) == Some(seq![texts.0@, texts.1@, texts.2@]),
            Err(_) => body@.strings(3) is None,
        },
{
    marshalled(body.clone()).body.parser().get3::<String, String, String>()
}

/// Calls `MessageBodyParser::get` for a `u32`. It reads the first parameter where that is an
/// unsigned number, and panics on signatures that are not valid.
#[verifier::external_body]
fn get_u32(body: &Body) -> (res: Result<u32, UnmarshalError>)
    requires
        valid_signature(body@.signature),
    ensures
        match res {
            Ok(n) => body@.first_u32() == Some(n),
            Err(_) => body@.first_u32() is None,
        },
{
    marshalled(body.clone()).body.parser().get::<u32>()
}

/// Calls `MessageBodyParser::get` for a `Vec<String>`. It reads the first parameter where
/// that is an array of strings, and panics on signatures that are not valid.
#[verifier::external_body]
fn get_strings(body: &Body) -> (res: Result<Vec<String>, UnmarshalError>)
    requires
        valid_signature(body@.signature),
    ensures
        match res {
            Ok(texts) => body@.string_array() == Some(text_views(texts@)),
            Err(_) => body@.string_array() is None,
        },
{
    marshalled(body.clone()).body.parser().get::<Vec<String>>()
}

/// Calls `MessageBodyParser::get_param`, which reads the first parameter, of whatever type.
/// It panics on signatures that are not valid, and on types that `parse_description` does
/// not accept. A dictionary comes as a hash map, in which no key occurs twice.
#[verifier::external_body]
fn get_param(body: &Body) -> (res: Result<Value, UnmarshalError>)
    requires
        body@.readable(0),
    ensures
        match res {
            Ok(value) => value.keys_distinct() && param_read(
                body@.signature,
                body@.bytes,
                body@.big_endian,
                body@.fds,
                0,
            ) == Some(value@),
            Err(_) => param_read(
                body@.signature,
                body@.bytes,
                body@.big_endian,
                body@.fds,
                0,
            ) is None,
        },
{
    marshalled(body.clone()).body.parser().get_param().map(Value::from_param)
}

/// Calls `MessageBodyParser::get_param` after `MessageBodyParser::get` for a `u32`. So it reads
/// the second parameter, of whatever type, and nothing where the first is no such number.
/// It panics on signatures that are not valid, and on types that `parse_description` does
/// not accept. A dictionary comes as a hash map, in which no key occurs twice.
#[verifier::external_body]
fn get_second_param(body: &Body) -> (res: Result<Value, UnmarshalError>)
    requires
        body@.readable(1),
    ensures
        match res {
            Ok(value) => value.keys_distinct() && param_read(
                body@.signature,
                body@.bytes,
                body@.big_endian,
                body@.fds,
                1,
            ) == Some(value@),
            Err(_) => param_read(
                body@.signature,
                body@.bytes,
                body@.big_endian,
                body@.fds,
                1,
            ) is None,
        },
{
    let message = marshalled(body.clone());
    let mut parser = message.body.parser();
    parser.get::<u32>()?;
    parser.get_param().map(Value::from_param)
}

impl Body {
    /// The first parameter, which must be a string.
    pub fn read_string(&self) -> (res: Result<String, UnmarshalError>)
        ensures
            match res {
                Ok(text) => self@.strings(1) == Some(seq![text@]),
                Err(_) => self@.strings(1) is None,
            },
    {
        match validate(self.signature.as_str()) {
            Ok(_) => get_string(self),
            Err(error) => Err(error),
        }
    }

    /// The first two parameters, which must be strings.
    pub fn read_two_strings(&self) -> (res: Result<(String, String), UnmarshalError>)
        ensures
            match res {
                Ok(texts) => self@.strings(2) == Some(seq![texts.0@, texts.1@]),
                Err(_) => self@.strings(2) is None,
            },
    {
        match validate(self.signature.as_str()) {
            Ok(_) => get_two_strings(self),
            Err(error) => Err(error),
        }
    }

    /// The first three parameters, which must be strings.
    pub fn read_three_strings(&self) -> (res: Result<(String, String, String), UnmarshalError>)
        ensures
            match res {
                Ok(texts) => self@.strings(3) == Some(seq![texts.0@, texts.1@, texts.2@]),
                Err(_) => self@.strings(3) is None,
            },
    {
        match validate(self.signature.as_str()) {
            Ok(_) => get_three_strings(self),
            Err(error) => Err(error),
        }
    }

    /// The first parameter, which must be an unsigned number.
    pub fn read_u32(&self) -> (res: Result<u32, UnmarshalError>)
        ensures
            match res {
                Ok(n) => self@.first_u32() == Some(n),
                Err(_) => self@.first_u32() is None,
            },
    {
        match validate(self.signature.as_str()) {
            Ok(_) => get_u32(self),
            Err(error) => Err(error),
        }
    }

    /// The first parameter, which must be an array of strings.
    pub fn read_strings(&self) -> (res: Result<Vec<String>, UnmarshalError>)
        ensures
            match res {
                Ok(texts) => self@.string_array() == Some(text_views(texts@)),
                Err(_) => self@.string_array() is None,
            },
    {
        match validate(self.signature.as_str()) {
            Ok(_) => get_strings(self),
            Err(error) => Err(error),
        }
    }

    /// Whether the parameter behind `skip` others has a type whose values can be read.
    fn check_type(&self, skip: usize) -> (res: Result<(), UnmarshalError>)
        ensures
            res is Ok <==> self@.readable(skip as nat),
    {
        match validate(self.signature.as_str()) {
            Ok(_) => match type_behind(self.signature.as_str(), skip) {
                Some(typ) => parse(typ.as_str()),
                None => Ok(()),
            },
            Err(error) => Err(error),
        }
    }

    /// The first parameter, of whatever type.
    pub fn read_param(&self) -> (res: Result<Value, UnmarshalError>)
        ensures
            match res {
                Ok(value) => value.keys_distinct() && self@.param() == Some(value@),
                Err(_) => self@.param() is None,
            },
    {
        match self.check_type(0) {
            Ok(_) => get_param(self),
            Err(error) => Err(error),
        }
    }

    /// The parameter behind an unsigned number, of whatever type.
    pub fn read_second_param(&self) -> (res: Result<Value, UnmarshalError>)
        ensures
            match res {
                Ok(value) => value.keys_distinct() && self@.second_param() == Some(value@),
                Err(_) => self@.second_param() is None,
            },
    {
        match self.check_type(1) {
            Ok(_) => get_second_param(self),
            Err(error) => Err(error),
        }
    }
}

// ---------------------------------------------------------------------------
// What is written is what is read

/// The four bytes of a 32-bit number give the number back.
proof fn lemma_word_reads_back(n: int, big_endian: bool)
    requires
        0 <= n <= u32::MAX,
    ensures
        word(n, big_endian).len() == 4,
        ({
            let w = word(n, big_endian);
            n == if big_endian {
                number(w[3], w[2], w[1], w[0])
            } else {
                number(w[0], w[1], w[2], w[3])
            }
        }),
{
    assert(n == n % 256 + 256 * (n / 256 % 256) + 65536 * (n / 65536 % 256) + 16777216 * (n
        / 16777216 % 256)) by {
        assert(n / 256 / 256 == n / 65536);
        assert(n / 65536 / 256 == n / 16777216);
        assert(n / 16777216 < 256);
    }
}

/// A string that was written behind `bytes` is read back from there, whatever follows it.
pub proof fn law_string_reads_back(
    bytes: Seq<u8>,
    text: Seq<char>,
    rest: Seq<u8>,
    big_endian: bool,
)
    requires
        !text.contains(0 as char),
        vstd::utf8::encode_utf8(text).len() <= u32::MAX,
    ensures
        string_at(after_string(bytes, text, big_endian) + rest, bytes.len() as int, big_endian)
            == Some((text, after_string(bytes, text, big_endian).len() as int)),
{
    let utf8 = vstd::utf8::encode_utf8(text);
    let n = utf8.len() as int;
    let whole = after_string(bytes, text, big_endian) + rest;
    let at = bytes.len() as int;
    let start = aligned(bytes).len() as int;
    lemma_word_reads_back(n, big_endian);
    vstd::utf8::encode_utf8_valid_utf8(text);
    vstd::utf8::encode_utf8_decode_utf8(text);
    assert(start == at + (4 - at % 4) % 4);
    assert(whole.subrange(at, start) =~= padding(at, 4));
    assert(aligned_from(whole, at) == Some(start));
    assert(forall|k: int| 0 <= k < 4 ==> whole[start + k] == word(n, big_endian)[k]);
    assert(whole[start] == word(n, big_endian)[0]);
    assert(u32_at(whole, at, big_endian) == Some((n as u32, start + 4)));
    assert(whole.subrange(start + 4, start + 4 + n) =~= utf8);
}

/// Writing behind `bytes` leaves `bytes` as they are.
proof fn lemma_after_strings_extends(bytes: Seq<u8>, texts: Seq<Seq<char>>, big_endian: bool) -> (rest:
    Seq<u8>)
    ensures
        after_strings(bytes, texts, big_endian) == bytes + rest,
    decreases texts.len(),
{
    if texts.len() == 0 {
        assert(bytes =~= bytes + Seq::<u8>::empty());
        Seq::<u8>::empty()
    } else {
        let before = lemma_after_strings_extends(bytes, texts.drop_last(), big_endian);
        let whole = after_strings(bytes, texts, big_endian);
        let rest = whole.skip(bytes.len() as int);
        assert(whole =~= bytes + rest);
        rest
    }
}

/// The first string is written first.
proof fn lemma_after_strings_first(bytes: Seq<u8>, texts: Seq<Seq<char>>, big_endian: bool)
    requires
        texts.len() > 0,
    ensures
        after_strings(bytes, texts, big_endian) == after_strings(
            after_string(bytes, texts[0], big_endian),
            texts.drop_first(),
            big_endian,
        ),
    decreases texts.len(),
{
    if texts.len() == 1 {
        assert(texts.drop_last().len() == 0);
        assert(texts.drop_first().len() == 0);
        assert(texts.last() == texts[0]);
        assert(after_strings(bytes, texts.drop_last(), big_endian) == bytes);
    } else {
        lemma_after_strings_first(bytes, texts.drop_last(), big_endian);
        assert(texts.drop_last().drop_first() =~= texts.drop_first().drop_last());
        assert(texts.drop_first().last() == texts.last());
    }
}

/// Strings that were written one after the other behind `bytes` are read back in their order,
/// whatever follows them.
pub proof fn law_strings_read_back(
    bytes: Seq<u8>,
    texts: Seq<Seq<char>>,
    rest: Seq<u8>,
    big_endian: bool,
)
    requires
        forall|i: int| 0 <= i < texts.len() ==> !(#[trigger] texts[i]).contains(0 as char),
        forall|i: int|
            0 <= i < texts.len() ==> vstd::utf8::encode_utf8(#[trigger] texts[i]).len() <= u32::MAX,
    ensures
        strings_at(
            after_strings(bytes, texts, big_endian) + rest,
            bytes.len() as int,
            texts.len(),
            big_endian,
        ) == Some(texts),
    decreases texts.len(),
{
    if texts.len() == 0 {
        assert(texts =~= seq![]);
    } else {
        let tail = texts.drop_first();
        let once = after_string(bytes, texts[0], big_endian);
        let whole = after_strings(bytes, texts, big_endian) + rest;
        lemma_after_strings_first(bytes, texts, big_endian);
        let more = lemma_after_strings_extends(once, tail, big_endian);
        assert(whole =~= once + (more + rest));
        law_string_reads_back(bytes, texts[0], more + rest, big_endian);
        assert forall|i: int| 0 <= i < tail.len() implies !(#[trigger] tail[i]).contains(
            0 as char,
        ) && vstd::utf8::encode_utf8(tail[i]).len() <= u32::MAX by {
            assert(tail[i] == texts[i + 1]);
        }
        law_strings_read_back(once, tail, rest, big_endian);
        assert(seq![texts[0]] + tail =~= texts);
    }
}

/// The contents of a row of texts are the contents of each, in their order.
pub proof fn law_text_views_show_each(texts: Seq<String>, slices: Seq<&str>)
    ensures
        text_views(texts).len() == texts.len(),
        forall|i: int| 0 <= i < texts.len() ==> (#[trigger] text_views(texts)[i]) == texts[i]@,
        str_views(slices).len() == slices.len(),
        forall|i: int| 0 <= i < slices.len() ==> (#[trigger] str_views(slices)[i]) == slices[i]@,
{
}

} // verus!
