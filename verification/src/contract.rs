//! The contract between host and guest: what a guest may return, and how it is
//! read.
//!
//! Every reader checks a value once, at the boundary. The first thing out of
//! order, in wire order, decides the error.
use vstd::prelude::*;

use crate::text;
use crate::text::{decimal, joined, same_text};
use crate::val;
use crate::val::{Val, ValModel};

verus! {

/// Longest component identifier, in bytes; the limit of every short name.
pub const MAX_COMPONENT_ID_LEN: usize = 255;

/// Longest display text, in bytes.
pub const MAX_DISPLAY_TEXT_LEN: usize = 2048;

/// Longest web asset path, in bytes.
pub const MAX_WEB_ASSET_PATH_LEN: usize = 4096;

/// Most entries in one asset list.
pub const MAX_ASSET_LIST_LEN: usize = 1024;

/// A guest value that breaks the contract. It carries no guest data but the
/// name of an unknown case.
#[derive(Debug, PartialEq, Eq)]
pub enum ContractValueError {
    /// A record lacks the field at its place.
    MissingField(&'static str),
    /// A value has another shape than the contract's.
    ShapeMismatch { field: &'static str, expected: &'static str },
    /// An enum case outside the contract.
    InvalidVariant(String),
    /// A value beyond the host's limit.
    ValueTooLarge { field: &'static str, limit: usize },
}

/// [`ContractValueError`] with its texts as sequences.
pub enum ContractFault {
    MissingField(Seq<char>),
    ShapeMismatch { field: Seq<char>, expected: Seq<char> },
    InvalidVariant(Seq<char>),
    ValueTooLarge { field: Seq<char>, limit: usize },
}

impl ContractValueError {
    pub open spec fn view(&self) -> ContractFault {
        match *self {
            ContractValueError::MissingField(f) => ContractFault::MissingField(f@),
            ContractValueError::ShapeMismatch { field, expected } => ContractFault::ShapeMismatch {
                field: field@,
                expected: expected@,
            },
            ContractValueError::InvalidVariant(n) => ContractFault::InvalidVariant(n@),
            ContractValueError::ValueTooLarge { field, limit } => ContractFault::ValueTooLarge {
                field: field@,
                limit,
            },
        }
    }
}

impl ContractFault {
    /// The message that tells what broke.
    pub open spec fn message(self) -> Seq<char> {
        match self {
            ContractFault::MissingField(field) => "record is missing field `"@ + field + "`"@,
            ContractFault::ShapeMismatch { field, expected } => "field `"@ + field
                + "` has unexpected shape (expected "@ + expected + ")"@,
            ContractFault::InvalidVariant(name) => "unknown variant or enum case `"@ + name + "`"@,
            ContractFault::ValueTooLarge { field, limit } => "field `"@ + field
                + "` exceeds the host-side limit of "@ + text::decimal_of(limit as nat) + " bytes"@,
        }
    }
}

impl ContractValueError {
    /// The message that tells what broke.
    pub fn message(&self) -> (r: String)
        ensures
            r@ == self@.message(),
    {
        match self {
            ContractValueError::MissingField(field) => joined(
                joined("record is missing field `", field).as_str(),
                "`",
            ),
            ContractValueError::ShapeMismatch { field, expected } => {
                let head: String = joined(joined("field `", field).as_str(), "` has unexpected shape (expected ");
                joined(joined(head.as_str(), expected).as_str(), ")")
            },
            ContractValueError::InvalidVariant(name) => joined(
                joined("unknown variant or enum case `", name.as_str()).as_str(),
                "`",
            ),
            ContractValueError::ValueTooLarge { field, limit } => {
                let head: String = joined(joined("field `", field).as_str(), "` exceeds the host-side limit of ");
                joined(joined(head.as_str(), decimal(*limit).as_str()).as_str(), " bytes")
            },
        }
    }
}

pub open spec fn mismatch<T>(field: Seq<char>, expected: Seq<char>) -> Result<T, ContractFault> {
    Err(ContractFault::ShapeMismatch { field, expected })
}

/// The number of bytes that a text takes.
pub open spec fn byte_len(t: Seq<char>) -> nat {
    vstd::utf8::encode_utf8(t).len()
}

/// The payload of a successful `result`.
pub open spec fn success_of(m: ValModel, what: Seq<char>) -> Result<ValModel, ContractFault> {
    match m {
        ValModel::Success(Some(inner)) => Ok(*inner),
        _ => mismatch(what, "result with Ok payload"@),
    }
}

/// The payload of a failed `result`.
pub open spec fn failure_of(m: ValModel, what: Seq<char>) -> Result<ValModel, ContractFault> {
    match m {
        ValModel::Failure(Some(inner)) => Ok(*inner),
        _ => mismatch(what, "result with Err payload"@),
    }
}

pub open spec fn record_of(m: ValModel, what: Seq<char>) -> Result<
    Seq<(Seq<char>, ValModel)>,
    ContractFault,
> {
    match m {
        ValModel::Record(fields) => Ok(fields),
        _ => mismatch(what, "record"@),
    }
}

pub open spec fn list_of(m: ValModel, what: Seq<char>) -> Result<Seq<ValModel>, ContractFault> {
    match m {
        ValModel::List(items) => Ok(items),
        _ => mismatch(what, "list"@),
    }
}

pub open spec fn flags_of(m: ValModel, what: Seq<char>) -> Result<Seq<Seq<char>>, ContractFault> {
    match m {
        ValModel::Flags(names) => Ok(names),
        _ => mismatch(what, "flags"@),
    }
}

pub open spec fn text_of(m: ValModel, what: Seq<char>) -> Result<Seq<char>, ContractFault> {
    match m {
        ValModel::Text(t) => Ok(t),
        _ => mismatch(what, "string"@),
    }
}

pub open spec fn enum_of(m: ValModel, what: Seq<char>) -> Result<Seq<char>, ContractFault> {
    match m {
        ValModel::Enum(n) => Ok(n),
        _ => mismatch(what, "enum"@),
    }
}

/// The value of the field that stands at place `i` under `name`.
pub open spec fn field_of(fields: Seq<(Seq<char>, ValModel)>, i: int, name: Seq<char>) -> Result<
    ValModel,
    ContractFault,
> {
    if 0 <= i < fields.len() && fields[i].0 == name {
        Ok(fields[i].1)
    } else {
        Err(ContractFault::MissingField(name))
    }
}

/// `t` where it is within `limit` bytes.
pub open spec fn within(t: Seq<char>, field: Seq<char>, limit: usize) -> Result<
    Seq<char>,
    ContractFault,
> {
    if byte_len(t) > limit {
        Err(ContractFault::ValueTooLarge { field, limit })
    } else {
        Ok(t)
    }
}

/// The text in the field `name`, at most `limit` bytes long.
pub open spec fn text_field_of(
    fields: Seq<(Seq<char>, ValModel)>,
    i: int,
    name: Seq<char>,
    limit: usize,
) -> Result<Seq<char>, ContractFault> {
    match field_of(fields, i, name) {
        Err(e) => Err(e),
        Ok(v) => match text_of(v, name) {
            Err(e) => Err(e),
            Ok(t) => within(t, name, limit),
        },
    }
}

/// The text of a value wrapped as `record { value: string }`.
pub open spec fn wrapped_of(m: ValModel, what: Seq<char>, limit: usize) -> Result<
    Seq<char>,
    ContractFault,
> {
    match record_of(m, what) {
        Err(e) => Err(e),
        Ok(inner) => text_field_of(inner, 0, "value"@, limit),
    }
}

/// The text in the field `name`, wrapped as `record { value: string }`.
pub open spec fn wrapped_field_of(
    fields: Seq<(Seq<char>, ValModel)>,
    i: int,
    name: Seq<char>,
    what: Seq<char>,
    limit: usize,
) -> Result<Seq<char>, ContractFault> {
    match field_of(fields, i, name) {
        Err(e) => Err(e),
        Ok(v) => wrapped_of(v, what, limit),
    }
}

pub open spec fn u32_field_of(fields: Seq<(Seq<char>, ValModel)>, i: int, name: Seq<char>) -> Result<
    u32,
    ContractFault,
> {
    match field_of(fields, i, name) {
        Err(e) => Err(e),
        Ok(ValModel::U32(n)) => Ok(n),
        Ok(_) => mismatch(name, "u32"@),
    }
}

pub open spec fn u64_field_of(fields: Seq<(Seq<char>, ValModel)>, i: int, name: Seq<char>) -> Result<
    u64,
    ContractFault,
> {
    match field_of(fields, i, name) {
        Err(e) => Err(e),
        Ok(ValModel::U64(n)) => Ok(n),
        Ok(_) => mismatch(name, "u64"@),
    }
}

/// The enum case in the field `name`.
pub open spec fn enum_field_of(fields: Seq<(Seq<char>, ValModel)>, i: int, name: Seq<char>) -> Result<
    Seq<char>,
    ContractFault,
> {
    match field_of(fields, i, name) {
        Err(e) => Err(e),
        Ok(v) => enum_of(v, name),
    }
}

pub open spec fn option_field_of(
    fields: Seq<(Seq<char>, ValModel)>,
    i: int,
    name: Seq<char>,
) -> Result<Option<ValModel>, ContractFault> {
    match field_of(fields, i, name) {
        Err(e) => Err(e),
        Ok(ValModel::Option(None)) => Ok(None),
        Ok(ValModel::Option(Some(inner))) => Ok(Some(*inner)),
        Ok(_) => mismatch(name, "option"@),
    }
}

/// The optional text in the field `name`; `what` names the text itself.
pub open spec fn option_text_of(
    fields: Seq<(Seq<char>, ValModel)>,
    i: int,
    name: Seq<char>,
    what: Seq<char>,
) -> Result<Option<Seq<char>>, ContractFault> {
    match option_field_of(fields, i, name) {
        Err(e) => Err(e),
        Ok(None) => Ok(None),
        Ok(Some(v)) => match text_of(v, what) {
            Err(e) => Err(e),
            Ok(t) => Ok(Some(t)),
        },
    }
}

/// As [`option_text_of`], for a display text of at most
/// [`MAX_DISPLAY_TEXT_LEN`] bytes.
pub open spec fn option_display_of(
    fields: Seq<(Seq<char>, ValModel)>,
    i: int,
    name: Seq<char>,
    what: Seq<char>,
) -> Result<Option<Seq<char>>, ContractFault> {
    match option_text_of(fields, i, name, what) {
        Err(e) => Err(e),
        Ok(None) => Ok(None),
        Ok(Some(t)) => match within(t, name, MAX_DISPLAY_TEXT_LEN) {
            Err(e) => Err(e),
            Ok(t) => Ok(Some(t)),
        },
    }
}

/// The optional short name in the field `name`, wrapped as
/// `record { value: string }`.
pub open spec fn option_name_of(
    fields: Seq<(Seq<char>, ValModel)>,
    i: int,
    name: Seq<char>,
    what: Seq<char>,
) -> Result<Option<Seq<char>>, ContractFault> {
    match option_field_of(fields, i, name) {
        Err(e) => Err(e),
        Ok(None) => Ok(None),
        Ok(Some(v)) => match wrapped_of(v, what, MAX_COMPONENT_ID_LEN) {
            Err(e) => Err(e),
            Ok(t) => Ok(Some(t)),
        },
    }
}

/// What `read` makes of each item, in order, or the first error.
pub open spec fn each<M>(
    items: Seq<ValModel>,
    read: spec_fn(ValModel) -> Result<M, ContractFault>,
) -> Result<Seq<M>, ContractFault>
    decreases items.len(),
{
    if items.len() == 0 {
        Ok(Seq::empty())
    } else {
        match each(items.drop_last(), read) {
            Err(e) => Err(e),
            Ok(done) => match read(items.last()) {
                Err(e) => Err(e),
                Ok(m) => Ok(done.push(m)),
            },
        }
    }
}

/// Once the items up to `n` have failed, all of them have failed alike.
pub proof fn lemma_each_prefix_error<M>(
    items: Seq<ValModel>,
    read: spec_fn(ValModel) -> Result<M, ContractFault>,
    n: int,
)
    requires
        0 <= n <= items.len(),
        each(items.take(n), read) is Err,
    ensures
        each(items, read) == each(items.take(n), read),
    decreases items.len() - n,
{
    if n == items.len() {
        assert(items.take(n) =~= items);
    } else {
        assert(items.take(n + 1).drop_last() =~= items.take(n));
        lemma_each_prefix_error(items, read, n + 1);
    }
}

/// Where every item reads as the model at its place, the list reads as all of
/// them.
pub proof fn lemma_each_reads<M>(
    items: Seq<ValModel>,
    read: spec_fn(ValModel) -> Result<M, ContractFault>,
    models: Seq<M>,
)
    requires
        items.len() == models.len(),
        forall|i: int| 0 <= i < items.len() ==> read(#[trigger] items[i]) == Ok::<M, ContractFault>(models[i]),
    ensures
        each(items, read) == Ok::<Seq<M>, ContractFault>(models),
    decreases items.len(),
{
    if items.len() == 0 {
        assert(models =~= Seq::empty());
    } else {
        let n = items.len() - 1;
        assert forall|i: int| 0 <= i < n implies read(#[trigger] items.drop_last()[i]) == Ok::<M, ContractFault>(
            models.drop_last()[i],
        ) by {
            assert(items.drop_last()[i] == items[i]);
        }
        lemma_each_reads(items.drop_last(), read, models.drop_last());
        assert(read(items[n]) == Ok::<M, ContractFault>(models[n]));
        assert(models.drop_last().push(models[n]) =~= models);
    }
}

pub open spec fn opt_text(o: Option<String>) -> Option<Seq<char>> {
    match o {
        Some(t) => Some(t@),
        None => None,
    }
}

/// A reader of one text came out as `want` says.
pub open spec fn text_reads(r: Result<String, ContractValueError>, want: Result<Seq<char>, ContractFault>) -> bool {
    match r {
        Ok(t) => want == Ok::<Seq<char>, ContractFault>(t@),
        Err(e) => want == Err::<Seq<char>, ContractFault>(e@),
    }
}

/// A reader of one optional text came out as `want` says.
pub open spec fn opt_text_reads(
    r: Result<Option<String>, ContractValueError>,
    want: Result<Option<Seq<char>>, ContractFault>,
) -> bool {
    match r {
        Ok(t) => want == Ok::<Option<Seq<char>>, ContractFault>(opt_text(t)),
        Err(e) => want == Err::<Option<Seq<char>>, ContractFault>(e@),
    }
}

/// A reader of one value came out as `want` says.
pub open spec fn val_reads(r: Result<&Val, ContractValueError>, want: Result<ValModel, ContractFault>) -> bool {
    match r {
        Ok(v) => want == Ok::<ValModel, ContractFault>(v@),
        Err(e) => want == Err::<ValModel, ContractFault>(e@),
    }
}

pub fn as_result_ok<'a>(val: &'a Val, what: &'static str) -> (r: Result<&'a Val, ContractValueError>)
    ensures
        val_reads(r, success_of(val@, what@)),
{
    match val {
        Val::Result(Ok(Some(inner))) => Ok(&**inner),
        _ => Err(ContractValueError::ShapeMismatch { field: what, expected: "result with Ok payload" }),
    }
}

pub fn as_result_err<'a>(val: &'a Val, what: &'static str) -> (r: Result<&'a Val, ContractValueError>)
    ensures
        val_reads(r, failure_of(val@, what@)),
{
    match val {
        Val::Result(Err(Some(inner))) => Ok(&**inner),
        _ => Err(ContractValueError::ShapeMismatch { field: what, expected: "result with Err payload" }),
    }
}

pub fn as_record<'a>(val: &'a Val, what: &'static str) -> (r: Result<
    &'a Vec<(String, Val)>,
    ContractValueError,
>)
    ensures
        match r {
            Ok(fields) => record_of(val@, what@) == Ok::<Seq<(Seq<char>, ValModel)>, ContractFault>(
                val::record_model(fields@),
            ),
            Err(e) => record_of(val@, what@) == Err::<Seq<(Seq<char>, ValModel)>, ContractFault>(e@),
        },
{
    match val {
        Val::Record(fields) => Ok(fields),
        _ => Err(ContractValueError::ShapeMismatch { field: what, expected: "record" }),
    }
}

pub fn as_list<'a>(val: &'a Val, what: &'static str) -> (r: Result<&'a Vec<Val>, ContractValueError>)
    ensures
        match r {
            Ok(items) => list_of(val@, what@) == Ok::<Seq<ValModel>, ContractFault>(val::list_model(items@)),
            Err(e) => list_of(val@, what@) == Err::<Seq<ValModel>, ContractFault>(e@),
        },
{
    match val {
        Val::List(items) => Ok(items),
        _ => Err(ContractValueError::ShapeMismatch { field: what, expected: "list" }),
    }
}

pub fn as_flags<'a>(val: &'a Val, what: &'static str) -> (r: Result<&'a Vec<String>, ContractValueError>)
    ensures
        match r {
            Ok(names) => flags_of(val@, what@) == Ok::<Seq<Seq<char>>, ContractFault>(val::names_model(names@)),
            Err(e) => flags_of(val@, what@) == Err::<Seq<Seq<char>>, ContractFault>(e@),
        },
{
    match val {
        Val::Flags(names) => Ok(names),
        _ => Err(ContractValueError::ShapeMismatch { field: what, expected: "flags" }),
    }
}

pub fn as_string<'a>(val: &'a Val, what: &'static str) -> (r: Result<&'a String, ContractValueError>)
    ensures
        match r {
            Ok(t) => text_of(val@, what@) == Ok::<Seq<char>, ContractFault>(t@),
            Err(e) => text_of(val@, what@) == Err::<Seq<char>, ContractFault>(e@),
        },
{
    match val {
        Val::String(t) => Ok(t),
        _ => Err(ContractValueError::ShapeMismatch { field: what, expected: "string" }),
    }
}

pub fn as_enum<'a>(val: &'a Val, what: &'static str) -> (r: Result<&'a String, ContractValueError>)
    ensures
        match r {
            Ok(n) => enum_of(val@, what@) == Ok::<Seq<char>, ContractFault>(n@),
            Err(e) => enum_of(val@, what@) == Err::<Seq<char>, ContractFault>(e@),
        },
{
    match val {
        Val::Enum(n) => Ok(n),
        _ => Err(ContractValueError::ShapeMismatch { field: what, expected: "enum" }),
    }
}

pub fn field<'a>(fields: &'a Vec<(String, Val)>, index: usize, expected_name: &'static str) -> (r: Result<
    &'a Val,
    ContractValueError,
>)
    ensures
        val_reads(r, field_of(val::record_model(fields@), index as int, expected_name@)),
{
    if index < fields.len() && same_text(fields[index].0.as_str(), expected_name) {
        Ok(&fields[index].1)
    } else {
        Err(ContractValueError::MissingField(expected_name))
    }
}

/// A copy of `text` where it is within `limit` bytes.
fn bounded(text: &String, name: &'static str, limit: usize) -> (r: Result<String, ContractValueError>)
    ensures
        text_reads(r, within(text@, name@, limit)),
{
    if text.as_str().as_bytes().len() > limit {
        Err(ContractValueError::ValueTooLarge { field: name, limit })
    } else {
        Ok(text.clone())
    }
}

pub fn string_field(fields: &Vec<(String, Val)>, index: usize, name: &'static str, limit: usize) -> (r: Result<
    String,
    ContractValueError,
>)
    ensures
        text_reads(r, text_field_of(val::record_model(fields@), index as int, name@, limit)),
{
    match field(fields, index, name) {
        Err(e) => Err(e),
        Ok(value) => match as_string(value, name) {
            Err(e) => Err(e),
            Ok(text) => bounded(text, name, limit),
        },
    }
}

/// The text of a `record { value: string }`.
pub fn wrapped_string(val: &Val, what: &'static str, limit: usize) -> (r: Result<String, ContractValueError>)
    ensures
        text_reads(r, wrapped_of(val@, what@, limit)),
{
    match as_record(val, what) {
        Err(e) => Err(e),
        Ok(inner) => string_field(inner, 0, "value", limit),
    }
}

pub fn wrapped_field(
    fields: &Vec<(String, Val)>,
    index: usize,
    name: &'static str,
    what: &'static str,
    limit: usize,
) -> (r: Result<String, ContractValueError>)
    ensures
        text_reads(r, wrapped_field_of(val::record_model(fields@), index as int, name@, what@, limit)),
{
    match field(fields, index, name) {
        Err(e) => Err(e),
        Ok(value) => wrapped_string(value, what, limit),
    }
}

pub fn u32_field(fields: &Vec<(String, Val)>, index: usize, name: &'static str) -> (r: Result<u32, ContractValueError>)
    ensures
        match r {
            Ok(n) => u32_field_of(val::record_model(fields@), index as int, name@) == Ok::<u32, ContractFault>(n),
            Err(e) => u32_field_of(val::record_model(fields@), index as int, name@) == Err::<u32, ContractFault>(e@),
        },
{
    match field(fields, index, name) {
        Err(e) => Err(e),
        Ok(Val::U32(n)) => Ok(*n),
        Ok(_) => Err(ContractValueError::ShapeMismatch { field: name, expected: "u32" }),
    }
}

pub fn u64_field(fields: &Vec<(String, Val)>, index: usize, name: &'static str) -> (r: Result<u64, ContractValueError>)
    ensures
        match r {
            Ok(n) => u64_field_of(val::record_model(fields@), index as int, name@) == Ok::<u64, ContractFault>(n),
            Err(e) => u64_field_of(val::record_model(fields@), index as int, name@) == Err::<u64, ContractFault>(e@),
        },
{
    match field(fields, index, name) {
        Err(e) => Err(e),
        Ok(Val::U64(n)) => Ok(*n),
        Ok(_) => Err(ContractValueError::ShapeMismatch { field: name, expected: "u64" }),
    }
}

pub fn enum_field(fields: &Vec<(String, Val)>, index: usize, name: &'static str) -> (r: Result<
    String,
    ContractValueError,
>)
    ensures
        text_reads(r, enum_field_of(val::record_model(fields@), index as int, name@)),
{
    match field(fields, index, name) {
        Err(e) => Err(e),
        Ok(value) => match as_enum(value, name) {
            Err(e) => Err(e),
            Ok(case) => Ok(case.clone()),
        },
    }
}

pub fn option_field<'a>(fields: &'a Vec<(String, Val)>, index: usize, name: &'static str) -> (r: Result<
    Option<&'a Val>,
    ContractValueError,
>)
    ensures
        match r {
            Ok(None) => option_field_of(val::record_model(fields@), index as int, name@) == Ok::<
                Option<ValModel>,
                ContractFault,
            >(None),
            Ok(Some(v)) => option_field_of(val::record_model(fields@), index as int, name@) == Ok::<
                Option<ValModel>,
                ContractFault,
            >(Some(v@)),
            Err(e) => option_field_of(val::record_model(fields@), index as int, name@) == Err::<
                Option<ValModel>,
                ContractFault,
            >(e@),
        },
{
    match field(fields, index, name) {
        Err(e) => Err(e),
        Ok(Val::Option(None)) => Ok(None),
        Ok(Val::Option(Some(inner))) => Ok(Some(&**inner)),
        Ok(_) => Err(ContractValueError::ShapeMismatch { field: name, expected: "option" }),
    }
}

pub fn option_string(fields: &Vec<(String, Val)>, index: usize, name: &'static str, what: &'static str) -> (r: Result<
    Option<String>,
    ContractValueError,
>)
    ensures
        opt_text_reads(r, option_text_of(val::record_model(fields@), index as int, name@, what@)),
{
    match option_field(fields, index, name) {
        Err(e) => Err(e),
        Ok(None) => Ok(None),
        Ok(Some(value)) => match as_string(value, what) {
            Err(e) => Err(e),
            Ok(text) => Ok(Some(text.clone())),
        },
    }
}

pub fn option_display(fields: &Vec<(String, Val)>, index: usize, name: &'static str, what: &'static str) -> (r: Result<
    Option<String>,
    ContractValueError,
>)
    ensures
        opt_text_reads(r, option_display_of(val::record_model(fields@), index as int, name@, what@)),
{
    match option_string(fields, index, name, what) {
        Err(e) => Err(e),
        Ok(None) => Ok(None),
        Ok(Some(text)) => match bounded(&text, name, MAX_DISPLAY_TEXT_LEN) {
            Err(e) => Err(e),
            Ok(kept) => Ok(Some(kept)),
        },
    }
}

pub fn option_name(fields: &Vec<(String, Val)>, index: usize, name: &'static str, what: &'static str) -> (r: Result<
    Option<String>,
    ContractValueError,
>)
    ensures
        opt_text_reads(r, option_name_of(val::record_model(fields@), index as int, name@, what@)),
{
    match option_field(fields, index, name) {
        Err(e) => Err(e),
        Ok(None) => Ok(None),
        Ok(Some(value)) => match wrapped_string(value, what, MAX_COMPONENT_ID_LEN) {
            Err(e) => Err(e),
            Ok(text) => Ok(Some(text)),
        },
    }
}

/// `name` is among the flags.
pub fn has_flag(names: &Vec<String>, name: &str) -> (r: bool)
    ensures
        r == val::names_model(names@).contains(name@),
{
    let mut i: usize = 0;
    while i < names.len()
        invariant
            i <= names.len(),
            forall|j: int| 0 <= j < i ==> names@[j]@ != name@,
        decreases names.len() - i,
    {
        if same_text(names[i].as_str(), name) {
            assert(val::names_model(names@)[i as int] == name@);
            return true;
        }
        i = i + 1;
    }
    false
}

/// Law: the items of a list are read all, in order, exactly where each reads well;
/// otherwise the first that does not tells why.
pub proof fn law_items_are_read_all_or_none<M>(
    items: Seq<ValModel>,
    read: spec_fn(ValModel) -> Result<M, ContractFault>,
)
    ensures
        each(items, read) is Ok <==> forall|i: int| 0 <= i < items.len() ==> (read(#[trigger] items[i])) is Ok,
        each(items, read) matches Ok(done) ==> {
            &&& done.len() == items.len()
            &&& forall|i: int|
                0 <= i < items.len() ==> read(#[trigger] items[i]) == Ok::<M, ContractFault>(done[i])
        },
        each(items, read) matches Err(e) ==> exists|i: int| {
            &&& 0 <= i < items.len()
            &&& read(#[trigger] items[i]) == Err::<M, ContractFault>(e)
            &&& forall|j: int| 0 <= j < i ==> read(#[trigger] items[j]) is Ok
        },
    decreases items.len(),
{
    if items.len() > 0 {
        let init = items.drop_last();
        law_items_are_read_all_or_none(init, read);
        assert forall|i: int| 0 <= i < init.len() implies init[i] == items[i] by {}
        match each(init, read) {
            Err(e) => {
                let i = choose|i: int| {
                    &&& 0 <= i < init.len()
                    &&& read(#[trigger] init[i]) == Err::<M, ContractFault>(e)
                    &&& forall|j: int| 0 <= j < i ==> read(#[trigger] init[j]) is Ok
                };
                assert(read(items[i]) == Err::<M, ContractFault>(e));
                assert forall|j: int| 0 <= j < i implies read(#[trigger] items[j]) is Ok by {
                    assert(read(init[j]) is Ok);
                }
            },
            Ok(done) => {
                assert forall|i: int| 0 <= i < init.len() implies read(#[trigger] items[i]) == Ok::<
                    M,
                    ContractFault,
                >(done[i]) by {
                    assert(read(init[i]) is Ok);
                }
                assert(items[items.len() - 1] == items.last());
            },
        }
    }
}

/// Law: a field is read exactly where it stands at its place under its name; a
/// record that has another there, or none, lacks the field.
pub proof fn law_field_is_read_at_its_place(
    fields: Seq<(Seq<char>, ValModel)>,
    i: int,
    name: Seq<char>,
    v: ValModel,
)
    ensures
        field_of(fields, i, name) == Ok::<ValModel, ContractFault>(v) <==> 0 <= i < fields.len() && fields[i] == (
            name,
            v,
        ),
        field_of(fields, i, name) matches Err(e) ==> e == ContractFault::MissingField(name),
        !(0 <= i < fields.len()) || fields[i].0 != name ==> field_of(fields, i, name) is Err,
{
}

/// Law: a text in a field is read exactly where it is one and takes no more bytes
/// than the limit; one that takes more is too large, and anything else than a text
/// has another shape.
pub proof fn law_text_is_read_within_its_limit(
    fields: Seq<(Seq<char>, ValModel)>,
    i: int,
    name: Seq<char>,
    limit: usize,
    t: Seq<char>,
)
    ensures
        text_field_of(fields, i, name, limit) == Ok::<Seq<char>, ContractFault>(t) <==> {
            &&& 0 <= i < fields.len()
            &&& fields[i] == (name, ValModel::Text(t))
            &&& vstd::utf8::encode_utf8(t).len() <= limit
        },
        0 <= i < fields.len() && fields[i].0 == name && !(fields[i].1 is Text) ==> text_field_of(
            fields,
            i,
            name,
            limit,
        ) == Err::<Seq<char>, ContractFault>(ContractFault::ShapeMismatch { field: name, expected: "string"@ }),
        0 <= i < fields.len() && fields[i] == (name, ValModel::Text(t)) && vstd::utf8::encode_utf8(t).len() > limit
            ==> text_field_of(fields, i, name, limit) == Err::<Seq<char>, ContractFault>(
            ContractFault::ValueTooLarge { field: name, limit },
        ),
        !(0 <= i < fields.len()) || fields[i].0 != name ==> text_field_of(fields, i, name, limit) == Err::<
            Seq<char>,
            ContractFault,
        >(ContractFault::MissingField(name)),
{
}

/// Law: a wrapped text is read exactly where it stands alone or first in a record
/// under `value`, within the limit.
pub proof fn law_wrapped_text_is_read_from_its_record(m: ValModel, what: Seq<char>, limit: usize, t: Seq<char>)
    ensures
        wrapped_of(m, what, limit) == Ok::<Seq<char>, ContractFault>(t) <==> (m matches ValModel::Record(inner)
            && inner.len() > 0 && inner[0] == ("value"@, ValModel::Text(t)) && vstd::utf8::encode_utf8(t).len()
            <= limit),
        !(m is Record) ==> wrapped_of(m, what, limit) == Err::<Seq<char>, ContractFault>(
            ContractFault::ShapeMismatch { field: what, expected: "record"@ },
        ),
{
    if m is Record {
        law_text_is_read_within_its_limit(m->Record_0, 0, "value"@, limit, t);
    }
}

/// Law: a number in a field is read exactly where it is one of its width.
pub proof fn law_number_is_read_in_its_width(
    fields: Seq<(Seq<char>, ValModel)>,
    i: int,
    name: Seq<char>,
    small: u32,
    large: u64,
)
    ensures
        u32_field_of(fields, i, name) == Ok::<u32, ContractFault>(small) <==> 0 <= i < fields.len() && fields[i]
            == (name, ValModel::U32(small)),
        u64_field_of(fields, i, name) == Ok::<u64, ContractFault>(large) <==> 0 <= i < fields.len() && fields[i]
            == (name, ValModel::U64(large)),
        0 <= i < fields.len() && fields[i].0 == name && !(fields[i].1 is U32) ==> u32_field_of(fields, i, name)
            == Err::<u32, ContractFault>(ContractFault::ShapeMismatch { field: name, expected: "u32"@ }),
        0 <= i < fields.len() && fields[i].0 == name && !(fields[i].1 is U64) ==> u64_field_of(fields, i, name)
            == Err::<u64, ContractFault>(ContractFault::ShapeMismatch { field: name, expected: "u64"@ }),
{
}

/// Law: an option in a field is read as none where it is none, and as what it holds
/// where it holds something; what is no option has another shape.
pub proof fn law_option_is_read_as_what_it_holds(
    fields: Seq<(Seq<char>, ValModel)>,
    i: int,
    name: Seq<char>,
    v: ValModel,
)
    ensures
        option_field_of(fields, i, name) == Ok::<Option<ValModel>, ContractFault>(None) <==> 0 <= i < fields.len()
            && fields[i] == (name, ValModel::Option(None)),
        option_field_of(fields, i, name) == Ok::<Option<ValModel>, ContractFault>(Some(v)) <==> 0 <= i
            < fields.len() && fields[i].0 == name && (fields[i].1 matches ValModel::Option(Some(b)) && *b == v),
        0 <= i < fields.len() && fields[i].0 == name && !(fields[i].1 is Option) ==> option_field_of(
            fields,
            i,
            name,
        ) == Err::<Option<ValModel>, ContractFault>(
            ContractFault::ShapeMismatch { field: name, expected: "option"@ },
        ),
{
}

/// Law: an optional display text is read within the limit of display texts, and an
/// optional short name within that of names, out of its record.
pub proof fn law_optional_texts_are_read_within_their_limits(
    fields: Seq<(Seq<char>, ValModel)>,
    i: int,
    name: Seq<char>,
    what: Seq<char>,
    t: Seq<char>,
)
    ensures
        option_display_of(fields, i, name, what) == Ok::<Option<Seq<char>>, ContractFault>(None) <==> 0 <= i
            < fields.len() && fields[i] == (name, ValModel::Option(None)),
        option_display_of(fields, i, name, what) == Ok::<Option<Seq<char>>, ContractFault>(Some(t)) <==> {
            &&& 0 <= i < fields.len()
            &&& fields[i].0 == name
            &&& fields[i].1 matches ValModel::Option(Some(b)) && *b == ValModel::Text(t)
            &&& vstd::utf8::encode_utf8(t).len() <= 2048
        },
        option_name_of(fields, i, name, what) == Ok::<Option<Seq<char>>, ContractFault>(None) <==> 0 <= i
            < fields.len() && fields[i] == (name, ValModel::Option(None)),
        option_name_of(fields, i, name, what) == Ok::<Option<Seq<char>>, ContractFault>(Some(t)) <==> {
            &&& 0 <= i < fields.len()
            &&& fields[i].0 == name
            &&& fields[i].1 matches ValModel::Option(Some(b)) && (*b matches ValModel::Record(inner) && inner.len()
                > 0 && inner[0] == ("value"@, ValModel::Text(t)))
            &&& vstd::utf8::encode_utf8(t).len() <= 255
        },
        option_text_of(fields, i, name, what) == Ok::<Option<Seq<char>>, ContractFault>(Some(t)) <==> {
            &&& 0 <= i < fields.len()
            &&& fields[i].0 == name
            &&& fields[i].1 matches ValModel::Option(Some(b)) && *b == ValModel::Text(t)
        },
{
    if 0 <= i < fields.len() && fields[i].1 is Option && fields[i].1->Option_0 is Some {
        let v = *(fields[i].1->Option_0->0);
        law_wrapped_text_is_read_from_its_record(v, what, MAX_COMPONENT_ID_LEN, t);
    }
}

/// Law: the payload of a call is read exactly where the call went that way.
pub proof fn law_payload_is_read_where_the_call_went_so(m: ValModel, what: Seq<char>, v: ValModel)
    ensures
        success_of(m, what) == Ok::<ValModel, ContractFault>(v) <==> (m matches ValModel::Success(Some(b)) && *b
            == v),
        failure_of(m, what) == Ok::<ValModel, ContractFault>(v) <==> (m matches ValModel::Failure(Some(b)) && *b
            == v),
        !(m matches ValModel::Success(Some(_))) ==> success_of(m, what) == Err::<ValModel, ContractFault>(
            ContractFault::ShapeMismatch { field: what, expected: "result with Ok payload"@ },
        ),
        !(m matches ValModel::Failure(Some(_))) ==> failure_of(m, what) == Err::<ValModel, ContractFault>(
            ContractFault::ShapeMismatch { field: what, expected: "result with Err payload"@ },
        ),
        m is Record <==> record_of(m, what) is Ok,
        m is List <==> list_of(m, what) is Ok,
        m is Flags <==> flags_of(m, what) is Ok,
        m is Enum <==> enum_of(m, what) is Ok,
        m matches ValModel::Record(f) ==> record_of(m, what)->Ok_0 == f,
        m matches ValModel::List(f) ==> list_of(m, what)->Ok_0 == f,
        m matches ValModel::Flags(f) ==> flags_of(m, what)->Ok_0 == f,
        m matches ValModel::Enum(f) ==> enum_of(m, what)->Ok_0 == f,
{
}

/// Law: a fault is told with the field or the case that is at fault, and with what
/// was expected or how much is allowed.
pub proof fn law_faults_are_worded(fault: ContractFault)
    ensures
        fault matches ContractFault::MissingField(field) ==> fault.message() == "record is missing field `"@ + field
            + "`"@,
        fault matches ContractFault::ShapeMismatch { field, expected } ==> fault.message() == "field `"@ + field
            + "` has unexpected shape (expected "@ + expected + ")"@,
        fault matches ContractFault::InvalidVariant(name) ==> fault.message()
            == "unknown variant or enum case `"@ + name + "`"@,
        fault matches ContractFault::ValueTooLarge { field, limit } ==> fault.message() == "field `"@ + field
            + "` exceeds the host-side limit of "@ + text::decimal_of(limit as nat) + " bytes"@,
{
}

} // verus!
