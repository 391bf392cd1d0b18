//! D-Bus values as trees of plain data.

use rustbus::params::{Base, Container, Param};
use vstd::prelude::*;

use crate::text;

verus! {

/// The outside tree of values, which `from_param` takes apart.
#[verifier::external_type_specification]
#[verifier::external_body]
pub struct ExParam<'a, 'e>(rustbus::params::Param<'a, 'e>);

/// The outside leaf of such a tree, which `from_leaf` and `from_base` take apart.
#[verifier::external_type_specification]
#[verifier::external_body]
pub struct ExBase<'a>(rustbus::params::Base<'a>);

/// A value of a message body.
///
/// The types that the tray and menu protocols use are told apart; every other
/// type is [`Value::Other`].
#[derive(Debug)]
pub enum Value {
    Byte(u8),
    Boolean(bool),
    Int32(i32),
    Str(String),
    ObjectPath(String),
    Array(Vec<Value>),
    Struct(Vec<Value>),
    /// The entries of a dictionary, in no particular order.
    Dict(Vec<(Key, Value)>),
    Variant(Box<Value>),
    Other,
}

/// A dictionary key: a string, or something that is not one.
#[derive(Debug)]
pub enum Key {
    Str(String),
    Other,
}

/// What a [`Value`] stands for. A dictionary is a map from its string keys.
pub enum ValueView {
    Byte(u8),
    Boolean(bool),
    Int32(i32),
    Str(Seq<char>),
    ObjectPath(Seq<char>),
    Array(Seq<ValueView>),
    Struct(Seq<ValueView>),
    Dict(Map<Seq<char>, ValueView>),
    Variant(Box<ValueView>),
    Other,
}

impl Key {
    /// The key is the string `text`.
    pub open spec fn is_text(self, text: Seq<char>) -> bool {
        self matches Key::Str(s) && s@ == text
    }
}

impl Key {
    /// Takes the outside key apart, one case for each kind of key.
    #[verifier::external_body]
    fn from_base(base: Base<'_>) -> Key {
        match base {
            Base::String(text) => Key::Str(text),
            Base::StringRef(text) => Key::Str(text.to_owned()),
            _ => Key::Other,
        }
    }
}

impl Value {
    /// Takes an outside leaf apart, one case for each type that is told apart.
    #[verifier::external_body]
    fn from_leaf(base: Base<'_>) -> Value {
        match base {
            Base::Byte(b) => Value::Byte(b),
            Base::Boolean(b) => Value::Boolean(b),
            Base::Int32(n) => Value::Int32(n),
            Base::String(text) => Value::Str(text),
            Base::StringRef(text) => Value::Str(text.to_owned()),
            Base::ObjectPath(path) => Value::ObjectPath(path),
            Base::ObjectPathRef(path) => Value::ObjectPath(path.to_owned()),
            _ => Value::Other,
        }
    }

    /// Takes an outside tree of values apart, one case for each type that is told apart.
    /// Containers that are held by reference do not come out of a message body.
    #[verifier::external_body]
    pub(crate) fn from_param(param: Param<'_, '_>) -> Value {
        match param {
            Param::Base(base) => Value::from_leaf(base),
            Param::Container(Container::Array(array)) =>
                Value::Array(array.values.into_iter().map(Value::from_param).collect()),
            Param::Container(Container::Struct(fields)) =>
                Value::Struct(fields.into_iter().map(Value::from_param).collect()),
            Param::Container(Container::Dict(dict)) => Value::Dict(dict.map.into_iter().map(
                |(key, value)| (Key::from_base(key), Value::from_param(value))).collect()),
            Param::Container(Container::Variant(variant)) =>
                Value::Variant(Box::new(Value::from_param(variant.value))),
            _ => Value::Other,
        }
    }
}

impl Value {
    /// The value as plain mathematics.
    pub open spec fn model(self) -> ValueView
        decreases self,
    {
        match self {
            Value::Byte(b) => ValueView::Byte(b),
            Value::Boolean(b) => ValueView::Boolean(b),
            Value::Int32(n) => ValueView::Int32(n),
            Value::Str(s) => ValueView::Str(s@),
            Value::ObjectPath(s) => ValueView::ObjectPath(s@),
            Value::Array(values) => ValueView::Array(models(values@)),
            Value::Struct(values) => ValueView::Struct(models(values@)),
            Value::Dict(entries) => ValueView::Dict(entry_map(entries@)),
            Value::Variant(inner) => ValueView::Variant(Box::new(inner.model())),
            Value::Other => ValueView::Other,
        }
    }

    /// No dictionary in the value has a string key twice.
    pub open spec fn keys_distinct(self) -> bool
        decreases self,
    {
        match self {
            Value::Array(values) => forall|i: int|
                0 <= i < values@.len() ==> (#[trigger] values@[i]).keys_distinct(),
            Value::Struct(values) => forall|i: int|
                0 <= i < values@.len() ==> (#[trigger] values@[i]).keys_distinct(),
            Value::Dict(entries) => {
                &&& distinct_text_keys(entries@)
                &&& forall|i: int|
                    0 <= i < entries@.len() ==> (#[trigger] entries@[i]).1.keys_distinct()
            },
            Value::Variant(inner) => inner.keys_distinct(),
            _ => true,
        }
    }
}

impl View for Value {
    type V = ValueView;

    open spec fn view(&self) -> ValueView {
        self.model()
    }
}

/// The values of a sequence as plain mathematics.
pub open spec fn models(values: Seq<Value>) -> Seq<ValueView>
    decreases values,
{
    Seq::new(
        values.len(),
        |i: int|
            if 0 <= i < values.len() {
                values[i].model()
            } else {
                ValueView::Other
            },
    )
}

/// The map from string keys that a row of entries makes.
/// Of entries with the same key the first counts.
pub open spec fn entry_map(entries: Seq<(Key, Value)>) -> Map<Seq<char>, ValueView>
    decreases entries,
{
    if entries.len() == 0 {
        Map::empty()
    } else {
        let before = entry_map(entries.drop_last());
        match entries.last().0 {
            Key::Str(s) => if before.contains_key(s@) {
                before
            } else {
                before.insert(s@, entries.last().1.model())
            },
            Key::Other => before,
        }
    }
}

/// No string key occurs twice among the entries.
pub open spec fn distinct_text_keys(entries: Seq<(Key, Value)>) -> bool {
    forall|i: int, j: int|
        #![trigger entries[i], entries[j]]
        0 <= i < j < entries.len() ==> (entries[i].0 matches Key::Str(s)
            ==> !entries[j].0.is_text(s@))
}

/// The bytes among a row of values, in their order.
pub open spec fn bytes_among(values: Seq<ValueView>) -> Seq<u8>
    decreases values.len(),
{
    if values.len() == 0 {
        seq![]
    } else {
        let before = bytes_among(values.drop_last());
        match values.last() {
            ValueView::Byte(b) => before.push(b),
            _ => before,
        }
    }
}

/// What the variant under `key` holds, where there is a variant under it.
pub open spec fn variant_at(map: Map<Seq<char>, ValueView>, key: Seq<char>) -> Option<ValueView> {
    if map.contains_key(key) {
        match map[key] {
            ValueView::Variant(inner) => Some(*inner),
            _ => None,
        }
    } else {
        None
    }
}

/// An entry decides what the map holds under its key, where no entry before it has that key.
pub proof fn lemma_entry_found(entries: Seq<(Key, Value)>, key: Seq<char>, at: int)
    requires
        0 <= at < entries.len(),
        entries[at].0.is_text(key),
        forall|i: int| 0 <= i < at ==> !(#[trigger] entries[i]).0.is_text(key),
    ensures
        entry_map(entries).contains_key(key),
        entry_map(entries)[key] == entries[at].1.model(),
    decreases entries.len(),
{
    let rest = entries.drop_last();
    if at == entries.len() - 1 {
        assert forall|i: int| 0 <= i < rest.len() implies !(#[trigger] rest[i]).0.is_text(key) by {
            assert(rest[i] == entries[i]);
        }
        lemma_entry_missing(rest, key);
    } else {
        assert(rest[at] == entries[at]);
        assert forall|i: int| 0 <= i < at implies !(#[trigger] rest[i]).0.is_text(key) by {
            assert(rest[i] == entries[i]);
        }
        lemma_entry_found(rest, key, at);
    }
}

/// The map has no key that no entry has.
pub proof fn lemma_entry_missing(entries: Seq<(Key, Value)>, key: Seq<char>)
    requires
        forall|i: int| 0 <= i < entries.len() ==> !(#[trigger] entries[i]).0.is_text(key),
    ensures
        !entry_map(entries).contains_key(key),
    decreases entries.len(),
{
    if entries.len() > 0 {
        let rest = entries.drop_last();
        assert forall|i: int| 0 <= i < rest.len() implies !(#[trigger] rest[i]).0.is_text(key) by {
            assert(rest[i] == entries[i]);
        }
        lemma_entry_missing(rest, key);
        assert(!entries[entries.len() - 1].0.is_text(key));
    }
}

/// The value of the first entry with the given string key.
pub fn lookup<'a>(entries: &'a Vec<(Key, Value)>, key: &str) -> (res: Option<&'a Value>)
    ensures
        match res {
            Some(value) => {
                &&& entry_map(entries@).contains_key(key@)
                &&& entry_map(entries@)[key@] == value@
            },
            None => !entry_map(entries@).contains_key(key@),
        },
{
    let mut i: usize = 0;
    while i < entries.len()
        invariant
            i <= entries@.len(),
            forall|k: int| 0 <= k < i ==> !(#[trigger] entries@[k]).0.is_text(key@),
        decreases entries@.len() - i,
    {
        if let Key::Str(name) = &entries[i].0 {
            if text::same(name.as_str(), key) {
                proof {
                    lemma_entry_found(entries@, key@, i as int);
                }
                return Some(&entries[i].1);
            }
        }
        i = i + 1;
    }
    proof {
        lemma_entry_missing(entries@, key@);
    }
    None
}

/// What the variant under `key` holds, where there is a variant under it.
pub fn variant_under<'a>(entries: &'a Vec<(Key, Value)>, key: &str) -> (res: Option<&'a Value>)
    ensures
        match res {
            Some(value) => variant_at(entry_map(entries@), key@) == Some(value@),
            None => variant_at(entry_map(entries@), key@) is None,
        },
{
    match lookup(entries, key) {
        Some(Value::Variant(inner)) => Some(&**inner),
        _ => None,
    }
}

/// The bytes among a row of values, in their order.
pub fn collect_bytes(values: &Vec<Value>) -> (res: Vec<u8>)
    ensures
        res@ == bytes_among(models(values@)),
{
    let ghost all = models(values@);
    let mut out: Vec<u8> = Vec::new();
    let mut i: usize = 0;
    while i < values.len()
        invariant
            i <= values@.len(),
            all == models(values@),
            out@ == bytes_among(all.take(i as int)),
        decreases values@.len() - i,
    {
        proof {
            assert(all.take(i + 1).drop_last() =~= all.take(i as int));
            assert(all.take(i + 1).last() == values@[i as int].model());
        }
        if let Value::Byte(b) = &values[i] {
            out.push(*b);
        }
        i = i + 1;
    }
    proof {
        assert(all.take(i as int) =~= all);
    }
    out
}

/// The order of the entries of a dictionary does not matter, where no key occurs twice.
pub proof fn law_entry_order_is_irrelevant(one: Seq<(Key, Value)>, other: Seq<(Key, Value)>)
    requires
        distinct_text_keys(one),
        distinct_text_keys(other),
        forall|entry: (Key, Value)| one.contains(entry) <==> other.contains(entry),
    ensures
        entry_map(one) == entry_map(other),
{
    let a = entry_map(one);
    let b = entry_map(other);
    assert forall|key: Seq<char>| #[trigger] a.contains_key(key) == b.contains_key(key) && (
    a.contains_key(key) ==> a[key] == b[key]) by {
        lemma_same_entry(one, other, key);
        lemma_same_entry(other, one, key);
    }
    assert(a =~= b);
}

/// A key of one dictionary is in the other, with the same value.
proof fn lemma_same_entry(one: Seq<(Key, Value)>, other: Seq<(Key, Value)>, key: Seq<char>)
    requires
        distinct_text_keys(one),
        distinct_text_keys(other),
        forall|entry: (Key, Value)| one.contains(entry) <==> other.contains(entry),
    ensures
        entry_map(one).contains_key(key) ==> entry_map(other).contains_key(key) && entry_map(
            other,
        )[key] == entry_map(one)[key],
{
    if entry_map(one).contains_key(key) {
        if forall|i: int| 0 <= i < one.len() ==> !(#[trigger] one[i]).0.is_text(key) {
            lemma_entry_missing(one, key);
        } else {
            let i = choose|i: int| 0 <= i < one.len() && (#[trigger] one[i]).0.is_text(key);
            assert(one.contains(one[i]));
            assert(other.contains(one[i]));
            let j = choose|j: int| 0 <= j < other.len() && other[j] == one[i];
            lemma_only_entry(one, key, i);
            lemma_only_entry(other, key, j);
        }
    }
}

/// Where keys are distinct, any entry with a key decides what the map holds under it.
proof fn lemma_only_entry(entries: Seq<(Key, Value)>, key: Seq<char>, at: int)
    requires
        distinct_text_keys(entries),
        0 <= at < entries.len(),
        entries[at].0.is_text(key),
    ensures
        entry_map(entries).contains_key(key),
        entry_map(entries)[key] == entries[at].1.model(),
{
    assert forall|k: int| 0 <= k < at implies !(#[trigger] entries[k]).0.is_text(key) by {
        let before = entries[k];
        if before.0.is_text(key) {
            assert(!entries[at].0.is_text(before.0->Str_0@));
        }
    }
    lemma_entry_found(entries, key, at);
}

/// Two rows of values hold the bytes of each, one behind the other.
pub proof fn law_bytes_join(first: Seq<ValueView>, second: Seq<ValueView>)
    ensures
        bytes_among(first + second) == bytes_among(first) + bytes_among(second),
    decreases second.len(),
{
    if second.len() == 0 {
        assert(first + second =~= first);
        assert(bytes_among(first) + bytes_among(second) =~= bytes_among(first));
    } else {
        assert((first + second).drop_last() =~= first + second.drop_last());
        law_bytes_join(first, second.drop_last());
        assert(bytes_among(first + second) =~= bytes_among(first) + bytes_among(second));
    }
}

/// A row of nothing but bytes holds exactly these, in their order; any other row holds fewer.
pub proof fn law_bytes_are_kept(values: Seq<ValueView>)
    ensures
        bytes_among(values).len() <= values.len(),
        bytes_among(values).len() == values.len() <==> forall|i: int|
            0 <= i < values.len() ==> #[trigger] values[i] is Byte,
        (forall|i: int| 0 <= i < values.len() ==> #[trigger] values[i] is Byte) ==> forall|i: int|
            0 <= i < values.len() ==> #[trigger] values[i] == ValueView::Byte(
                bytes_among(values)[i],
            ),
    decreases values.len(),
{
    if values.len() > 0 {
        let rest = values.drop_last();
        law_bytes_are_kept(rest);
        assert(forall|i: int| 0 <= i < rest.len() ==> #[trigger] rest[i] == values[i]);
        let all_bytes = forall|i: int| 0 <= i < values.len() ==> #[trigger] values[i] is Byte;
        let rest_bytes = forall|i: int| 0 <= i < rest.len() ==> #[trigger] rest[i] is Byte;
        let last = values[values.len() - 1];
        if rest_bytes && last is Byte {
            assert forall|i: int| 0 <= i < values.len() implies #[trigger] values[i] is Byte by {
                if i < rest.len() {
                    assert(rest[i] is Byte);
                }
            }
        }
        if all_bytes {
            assert forall|i: int| 0 <= i < rest.len() implies #[trigger] rest[i] is Byte by {
                assert(values[i] is Byte);
            }
            assert forall|i: int| 0 <= i < values.len() implies #[trigger] values[i]
                == ValueView::Byte(bytes_among(values)[i]) by {
                if i < rest.len() {
                    assert(rest[i] == ValueView::Byte(bytes_among(rest)[i]));
                } else {
                    assert(values[i] is Byte);
                }
            }
        }
    }
}

/// The dictionary has `value` in a variant under `key`.
pub open spec fn says(
    dict: Map<Seq<char>, ValueView>,
    key: Seq<char>,
    value: ValueView,
) -> bool {
    dict.contains_key(key) && dict[key] == ValueView::Variant(Box::new(value))
}

/// What is stated of a value is stated of what it holds.
pub proof fn law_value_view_shows_the_value(
    byte: u8,
    flag: bool,
    number: i32,
    text: String,
    values: Vec<Value>,
    entries: Vec<(Key, Value)>,
    inner: Box<Value>,
)
    ensures
        Value::Byte(byte)@ == ValueView::Byte(byte),
        Value::Boolean(flag)@ == ValueView::Boolean(flag),
        Value::Int32(number)@ == ValueView::Int32(number),
        Value::Str(text)@ == ValueView::Str(text@),
        Value::ObjectPath(text)@ == ValueView::ObjectPath(text@),
        Value::Array(values)@ == ValueView::Array(models(values@)),
        Value::Struct(values)@ == ValueView::Struct(models(values@)),
        Value::Dict(entries)@ == ValueView::Dict(entry_map(entries@)),
        Value::Variant(inner)@ == ValueView::Variant(Box::new((*inner)@)),
        Value::Other@ == ValueView::Other,
        models(values@).len() == values@.len(),
        forall|i: int|
            0 <= i < values@.len() ==> (#[trigger] models(values@)[i]) == values@[i]@,
{
}

} // verus!
