//! Values that cross the boundary to a guest, and reading them.
//!
//! Records are read by position with the field's name checked as well: the
//! wire form carries the order, the name guards against a different contract.
use vstd::prelude::*;

verus! {

/// A component-model value. A double is held by its bits. Kinds of value that
/// no contract of this host uses are `Other`.
#[derive(Debug, PartialEq, Eq)]
pub enum Val {
    Bool(bool),
    U8(u8),
    U32(u32),
    U64(u64),
    S64(i64),
    Float64(u64),
    String(String),
    List(Vec<Val>),
    Record(Vec<(String, Val)>),
    Variant(String, Option<Box<Val>>),
    Enum(String),
    Option(Option<Box<Val>>),
    Result(Result<Option<Box<Val>>, Option<Box<Val>>>),
    Flags(Vec<String>),
    Other,
}

/// A value as a mathematical tree.
pub enum ValModel {
    Bool(bool),
    U8(u8),
    U32(u32),
    U64(u64),
    S64(i64),
    Float64(u64),
    Text(Seq<char>),
    List(Seq<ValModel>),
    Record(Seq<(Seq<char>, ValModel)>),
    Variant(Seq<char>, Option<Box<ValModel>>),
    Enum(Seq<char>),
    Option(Option<Box<ValModel>>),
    Success(Option<Box<ValModel>>),
    Failure(Option<Box<ValModel>>),
    Flags(Seq<Seq<char>>),
    Other,
}

pub open spec fn opt_model(o: Option<Box<Val>>) -> Option<Box<ValModel>>
    decreases o,
{
    match o {
        Some(b) => Some(Box::new(b.view())),
        None => None,
    }
}

pub open spec fn list_model(s: Seq<Val>) -> Seq<ValModel>
    decreases s,
{
    Seq::new(
        s.len(),
        |i: int|
            if 0 <= i < s.len() {
                s[i].view()
            } else {
                ValModel::Other
            },
    )
}

pub open spec fn record_model(s: Seq<(String, Val)>) -> Seq<(Seq<char>, ValModel)>
    decreases s,
{
    Seq::new(
        s.len(),
        |i: int|
            if 0 <= i < s.len() {
                (s[i].0@, s[i].1.view())
            } else {
                (Seq::empty(), ValModel::Other)
            },
    )
}

pub open spec fn names_model(s: Seq<String>) -> Seq<Seq<char>> {
    s.map_values(|n: String| n@)
}

impl Val {
    pub open spec fn view(&self) -> ValModel
        decreases self,
    {
        match *self {
            Val::Bool(b) => ValModel::Bool(b),
            Val::U8(n) => ValModel::U8(n),
            Val::U32(n) => ValModel::U32(n),
            Val::U64(n) => ValModel::U64(n),
            Val::S64(n) => ValModel::S64(n),
            Val::Float64(n) => ValModel::Float64(n),
            Val::String(s) => ValModel::Text(s@),
            Val::List(v) => ValModel::List(list_model(v@)),
            Val::Record(v) => ValModel::Record(record_model(v@)),
            Val::Variant(n, o) => ValModel::Variant(n@, opt_model(o)),
            Val::Enum(n) => ValModel::Enum(n@),
            Val::Option(o) => ValModel::Option(opt_model(o)),
            Val::Result(Ok(o)) => ValModel::Success(opt_model(o)),
            Val::Result(Err(o)) => ValModel::Failure(opt_model(o)),
            Val::Flags(v) => ValModel::Flags(names_model(v@)),
            Val::Other => ValModel::Other,
        }
    }
}

/// The text `t` as a value.
pub fn text_val(t: &String) -> (r: Val)
    ensures
        r@ == ValModel::Text(t@),
{
    Val::String(t.clone())
}

/// The enum case `name` as a value.
pub fn enum_val(name: &str) -> (r: Val)
    ensures
        r@ == ValModel::Enum(name@),
{
    Val::Enum(name.to_owned())
}

/// A record's field.
pub fn entry(name: &str, value: Val) -> (r: (String, Val))
    ensures
        r.0@ == name@,
        r.1 == value,
{
    (name.to_owned(), value)
}

pub open spec fn wrapped_model(t: Seq<char>) -> ValModel {
    ValModel::Record(seq![("value"@, ValModel::Text(t))])
}

/// `record { value: t }`.
pub fn wrapped_val(t: &String) -> (r: Val)
    ensures
        r@ == wrapped_model(t@),
{
    let fields: Vec<(String, Val)> = vec![entry("value", text_val(t))];
    assert(record_model(fields@) =~= seq![("value"@, ValModel::Text(t@))]);
    Val::Record(fields)
}

pub open spec fn opt_text_model(o: Option<String>) -> ValModel {
    match o {
        Some(t) => ValModel::Option(Some(Box::new(ValModel::Text(t@)))),
        None => ValModel::Option(None),
    }
}

/// An optional text as a value.
pub fn opt_string(value: &Option<String>) -> (r: Val)
    ensures
        r@ == opt_text_model(*value),
{
    match value {
        Some(t) => Val::Option(Some(Box::new(text_val(t)))),
        None => Val::Option(None),
    }
}

pub open spec fn opt_wrapped_model(o: Option<String>) -> ValModel {
    match o {
        Some(t) => ValModel::Option(Some(Box::new(wrapped_model(t@)))),
        None => ValModel::Option(None),
    }
}

/// An optional name as a value: `option<record { value: string }>`.
pub fn opt_permission_name(value: &Option<String>) -> (r: Val)
    ensures
        r@ == opt_wrapped_model(*value),
{
    match value {
        Some(t) => Val::Option(Some(Box::new(wrapped_val(t)))),
        None => Val::Option(None),
    }
}

/// A successful `result` with payload `inner`.
pub fn success_val(inner: Val) -> (r: Val)
    ensures
        r@ == ValModel::Success(Some(Box::new(inner@))),
{
    Val::Result(Ok(Some(Box::new(inner))))
}

/// A failed `result` with the enum case `name`.
pub fn failure_val(name: &str) -> (r: Val)
    ensures
        r@ == ValModel::Failure(Some(Box::new(ValModel::Enum(name@)))),
{
    Val::Result(Err(Some(Box::new(enum_val(name)))))
}

pub open spec fn bytes_model(bytes: Seq<u8>) -> ValModel {
    ValModel::List(bytes.map_values(|b: u8| ValModel::U8(b)))
}

/// Bytes as a `list<u8>`.
pub fn u8_list_val(bytes: &Vec<u8>) -> (r: Val)
    ensures
        r@ == bytes_model(bytes@),
{
    let mut items: Vec<Val> = Vec::new();
    let mut i: usize = 0;
    while i < bytes.len()
        invariant
            i <= bytes.len(),
            items.len() == i,
            forall|j: int| 0 <= j < i ==> (#[trigger] items@[j])@ == ValModel::U8(bytes@[j]),
        decreases bytes.len() - i,
    {
        items.push(Val::U8(bytes[i]));
        i = i + 1;
    }
    assert(list_model(items@) =~= bytes@.map_values(|b: u8| ValModel::U8(b)));
    Val::List(items)
}

/// The bytes of a list whose every item is a byte.
pub open spec fn byte_items(items: Seq<ValModel>) -> Option<Seq<u8>> {
    if forall|i: int| 0 <= i < items.len() ==> (#[trigger] items[i]) is U8 {
        Some(Seq::new(items.len(), |i: int| items[i]->U8_0))
    } else {
        None
    }
}

/// The bytes of a list whose every item is a byte.
pub fn bytes_of(items: &Vec<Val>) -> (r: Option<Vec<u8>>)
    ensures
        match r {
            Some(bytes) => byte_items(list_model(items@)) == Some(bytes@),
            None => byte_items(list_model(items@)) is None,
        },
{
    let mut bytes: Vec<u8> = Vec::new();
    let mut i: usize = 0;
    while i < items.len()
        invariant
            i <= items.len(),
            bytes.len() == i,
            forall|j: int| 0 <= j < i ==> (#[trigger] items@[j])@ == ValModel::U8(bytes@[j]),
        decreases items.len() - i,
    {
        match &items[i] {
            Val::U8(b) => {
                bytes.push(*b);
            },
            _ => {
                assert(!(list_model(items@)[i as int] is U8));
                return None;
            },
        }
        i = i + 1;
    }
    proof {
        let m = list_model(items@);
        assert forall|k: int| 0 <= k < m.len() implies (#[trigger] m[k]) is U8 by {
            assert(items@[k]@ == ValModel::U8(bytes@[k]));
        }
        assert(Seq::new(m.len(), |k: int| m[k]->U8_0) =~= bytes@) by {
            assert forall|k: int| 0 <= k < m.len() implies m[k]->U8_0 == bytes@[k] by {
                assert(items@[k]@ == ValModel::U8(bytes@[k]));
            }
        }
    }
    Some(bytes)
}

/// Law: a list of bytes reads back as those bytes, and a list reads as bytes exactly
/// where every item is a byte, each in its place.
pub proof fn law_bytes_read_back(bytes: Seq<u8>, items: Seq<ValModel>)
    ensures
        bytes_model(bytes) matches ValModel::List(written) && written.len() == bytes.len() && byte_items(written)
            == Some(bytes),
        byte_items(items) == Some(bytes) <==> items.len() == bytes.len() && forall|i: int|
            0 <= i < items.len() ==> #[trigger] items[i] == ValModel::U8(bytes[i]),
{
    let written = bytes.map_values(|b: u8| ValModel::U8(b));
    assert(byte_items(written)->0 =~= bytes);
    if byte_items(items) == Some(bytes) {
        assert forall|i: int| 0 <= i < items.len() implies #[trigger] items[i] == ValModel::U8(bytes[i]) by {
            assert(byte_items(items)->0[i] == items[i]->U8_0);
        }
    }
    if items.len() == bytes.len() && forall|i: int|
        0 <= i < items.len() ==> #[trigger] items[i] == ValModel::U8(bytes[i]) {
        assert(byte_items(items)->0 =~= bytes);
    }
}

/// Law: a value is seen as what it is: lists and records item by item and in order,
/// texts and names by their characters, and results by whether they succeeded.
pub proof fn law_values_are_seen_as_they_are(v: Val)
    ensures
        v matches Val::Bool(b) ==> v@ == ValModel::Bool(b),
        v matches Val::U8(n) ==> v@ == ValModel::U8(n),
        v matches Val::U32(n) ==> v@ == ValModel::U32(n),
        v matches Val::U64(n) ==> v@ == ValModel::U64(n),
        v matches Val::S64(n) ==> v@ == ValModel::S64(n),
        v matches Val::String(s) ==> v@ == ValModel::Text(s@),
        v matches Val::Enum(n) ==> v@ == ValModel::Enum(n@),
        v matches Val::List(items) ==> (v@ matches ValModel::List(seen) && seen.len() == items@.len() && forall|
            i: int,
        | 0 <= i < items@.len() ==> #[trigger] seen[i] == items@[i]@),
        v matches Val::Record(fields) ==> (v@ matches ValModel::Record(seen) && seen.len() == fields@.len()
            && forall|i: int|
            0 <= i < fields@.len() ==> (#[trigger] seen[i]).0 == fields@[i].0@ && seen[i].1 == fields@[i].1@),
        v matches Val::Flags(names) ==> (v@ matches ValModel::Flags(seen) && seen.len() == names@.len() && forall|
            i: int,
        | 0 <= i < names@.len() ==> #[trigger] seen[i] == names@[i]@),
        v matches Val::Option(Some(b)) ==> (v@ matches ValModel::Option(Some(seen)) && *seen == b@),
        v matches Val::Option(None) ==> v@ == ValModel::Option(None),
        v matches Val::Result(Ok(Some(b))) ==> (v@ matches ValModel::Success(Some(seen)) && *seen == b@),
        v matches Val::Result(Err(Some(b))) ==> (v@ matches ValModel::Failure(Some(seen)) && *seen == b@),
        v matches Val::Result(Ok(None)) ==> v@ == ValModel::Success(None),
        v matches Val::Result(Err(None)) ==> v@ == ValModel::Failure(None),
{
}

/// Law: a wrapped text is a record with the text under `value`, and an optional text
/// is there exactly where there is one.
pub proof fn law_texts_are_written_as_they_are(t: Seq<char>, o: Option<String>)
    ensures
        wrapped_model(t) matches ValModel::Record(fields) && fields.len() == 1 && fields[0].0 == "value"@
            && fields[0].1 == ValModel::Text(t),
        o is None ==> opt_text_model(o) == ValModel::Option(None) && opt_wrapped_model(o) == ValModel::Option(None),
        o matches Some(s) ==> (opt_text_model(o) matches ValModel::Option(Some(b)) && *b == ValModel::Text(s@)),
        o matches Some(s) ==> (opt_wrapped_model(o) matches ValModel::Option(Some(b)) && *b == wrapped_model(s@)),
{
}

} // verus!
