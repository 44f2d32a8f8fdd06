//! What a guest sees of its state, its configuration and its secrets: the values
//! it sends, read, and the values it gets back, built.
use vstd::prelude::*;

use crate::config::{ConfigError, ConfigSnapshot};
use crate::ports::{AuditError, StateStoreError};
use crate::secret::{SecretError, SecretMetadata};
use crate::secret_bytes::SecretBytes;
use crate::text::same_text;
use crate::val;
use crate::val::{bytes_of, entry, enum_val, failure_val, success_val, u8_list_val, wrapped_val, Val, ValModel};
use crate::values::{ConfigRevision, DomainError, SecretName, StateKey, StateSchemaVersion};

verus! {

/// A failed `result` with an enum case.
pub open spec fn failure(name: Seq<char>) -> ValModel {
    ValModel::Failure(Some(Box::new(ValModel::Enum(name))))
}

/// A successful `result`.
pub open spec fn success(inner: ValModel) -> ValModel {
    ValModel::Success(Some(Box::new(inner)))
}

/// The first field of a name.
pub open spec fn first_field(fields: Seq<(Seq<char>, ValModel)>, name: Seq<char>) -> Option<ValModel>
    decreases fields.len(),
{
    if fields.len() == 0 {
        None
    } else if fields[0].0 == name {
        Some(fields[0].1)
    } else {
        first_field(fields.drop_first(), name)
    }
}

/// The first field of a name.
fn find_field<'a>(fields: &'a Vec<(String, Val)>, name: &str) -> (r: Option<&'a Val>)
    ensures
        match r {
            Some(value) => first_field(val::record_model(fields@), name@) == Some(value@),
            None => first_field(val::record_model(fields@), name@) is None,
        },
{
    let ghost model = val::record_model(fields@);
    let mut i: usize = 0;
    assert(model.skip(0) =~= model);
    while i < fields.len()
        invariant
            i <= fields@.len(),
            model == val::record_model(fields@),
            first_field(model, name@) == first_field(model.skip(i as int), name@),
        decreases fields@.len() - i,
    {
        assert(model.skip(i as int)[0] == (fields@[i as int].0@, fields@[i as int].1@));
        assert(model.skip(i as int).drop_first() =~= model.skip(i + 1));
        if same_text(fields[i].0.as_str(), name) {
            return Some(&fields[i].1);
        }
        i = i + 1;
    }
    None
}

/// The text in a field of a record.
pub open spec fn string_field_of(param: Option<ValModel>, field: Seq<char>) -> Option<Seq<char>> {
    match param {
        Some(ValModel::Record(fields)) => match first_field(fields, field) {
            Some(ValModel::Text(text)) => Some(text),
            _ => None,
        },
        _ => None,
    }
}

/// A parameter, where there is one.
pub open spec fn param_of(params: Seq<Val>, i: int) -> Option<ValModel> {
    if 0 <= i < params.len() {
        Some(params[i]@)
    } else {
        None
    }
}

/// The text in a field of a record.
fn record_string_field(param: Option<&Val>, field: &str) -> (r: Option<String>)
    ensures
        match r {
            Some(text) => param is Some && string_field_of(Some(param->0@), field@) == Some(text@),
            None => param is Some ==> string_field_of(Some(param->0@), field@) is None,
        },
{
    match param {
        Some(Val::Record(fields)) => {
            let found = find_field(fields, field);
            match found {
                Some(Val::String(text)) => Some(text.clone()),
                Some(_) => None,
                None => None,
            }
        },
        _ => None,
    }
}

fn param<'a>(params: &'a Vec<Val>, i: usize) -> (r: Option<&'a Val>)
    ensures
        match r {
            Some(value) => param_of(params@, i as int) == Some(value@),
            None => param_of(params@, i as int) is None,
        },
{
    if i < params.len() {
        Some(&params[i])
    } else {
        None
    }
}

/// `record { revision: u64 }`.
pub open spec fn version_model(revision: ConfigRevision) -> ValModel {
    ValModel::Record(seq![("revision"@, ValModel::U64(revision.value))])
}

fn config_version_val(revision: ConfigRevision) -> (r: Val)
    ensures
        r@ == version_model(revision),
{
    let fields: Vec<(String, Val)> = vec![entry("revision", Val::U64(revision.value))];
    assert(val::record_model(fields@) =~= seq![("revision"@, ValModel::U64(revision.value))]);
    Val::Record(fields)
}

/// `record { data: list<u8> }`.
pub open spec fn data_model(bytes: Seq<u8>) -> ValModel {
    ValModel::Record(seq![("data"@, val::bytes_model(bytes))])
}

fn data_val(bytes: &Vec<u8>) -> (r: Val)
    ensures
        r@ == data_model(bytes@),
{
    let fields: Vec<(String, Val)> = vec![entry("data", u8_list_val(bytes))];
    assert(val::record_model(fields@) =~= seq![("data"@, val::bytes_model(bytes@))]);
    Val::Record(fields)
}

/// `record { version, value }`.
pub open spec fn snapshot_model(snapshot: ConfigSnapshot) -> ValModel {
    ValModel::Record(
        seq![
            ("version"@, version_model(snapshot.revision)),
            ("value"@, data_model(snapshot.value@)),
        ],
    )
}

fn config_snapshot_val(snapshot: &ConfigSnapshot) -> (r: Val)
    ensures
        r@ == snapshot_model(*snapshot),
{
    let version = config_version_val(snapshot.revision);
    let value = data_val(&snapshot.value);
    let fields: Vec<(String, Val)> = vec![entry("version", version), entry("value", value)];
    assert(val::record_model(fields@) =~= seq![
        ("version"@, version_model(snapshot.revision)),
        ("value"@, data_model(snapshot.value@)),
    ]);
    Val::Record(fields)
}

pub open spec fn config_case(error: ConfigError) -> Seq<char> {
    match error {
        ConfigError::NotReady => "not-ready"@,
        ConfigError::Corrupt => "corrupt"@,
        ConfigError::Store(_) => "internal"@,
        ConfigError::Audit(_) => "internal"@,
    }
}

/// The case under which a guest sees an error of its configuration.
pub fn config_error_name(error: &ConfigError) -> (r: &'static str)
    ensures
        r@ == config_case(*error),
{
    match error {
        ConfigError::NotReady => "not-ready",
        ConfigError::Corrupt => "corrupt",
        ConfigError::Store(_) => "internal",
        ConfigError::Audit(_) => "internal",
    }
}

/// What a guest gets back for `get-config`.
pub fn config_get_config(answer: &Result<ConfigSnapshot, ConfigError>) -> (r: Val)
    ensures
        r@ == match *answer {
            Ok(snapshot) => success(snapshot_model(snapshot)),
            Err(error) => failure(config_case(error)),
        },
{
    match answer {
        Ok(snapshot) => success_val(config_snapshot_val(snapshot)),
        Err(error) => failure_val(config_error_name(error)),
    }
}

/// What a guest gets back for `get-config-version`.
pub fn config_get_config_version(answer: &Result<ConfigRevision, ConfigError>) -> (r: Val)
    ensures
        r@ == match *answer {
            Ok(revision) => success(version_model(revision)),
            Err(error) => failure(config_case(error)),
        },
{
    match answer {
        Ok(revision) => success_val(config_version_val(*revision)),
        Err(error) => failure_val(config_error_name(error)),
    }
}

pub open spec fn secret_case(error: SecretError) -> Seq<char> {
    match error {
        SecretError::Denied => "denied"@,
        SecretError::Unavailable => "unavailable"@,
        SecretError::Corrupt => "corrupt"@,
        SecretError::OverBudget => "over-budget"@,
        SecretError::Grant(_) => "internal"@,
        SecretError::Store(_) => "internal"@,
        SecretError::Audit(_) => "internal"@,
        SecretError::Internal(_) => "internal"@,
    }
}

/// The case under which a guest sees an error of its secrets.
pub fn secret_error_name(error: &SecretError) -> (r: &'static str)
    ensures
        r@ == secret_case(*error),
{
    match error {
        SecretError::Denied => "denied",
        SecretError::Unavailable => "unavailable",
        SecretError::Corrupt => "corrupt",
        SecretError::OverBudget => "over-budget",
        SecretError::Grant(_) => "internal",
        SecretError::Store(_) => "internal",
        SecretError::Audit(_) => "internal",
        SecretError::Internal(_) => "internal",
    }
}

/// What the host does next for `read-secret`.
#[derive(Debug, PartialEq, Eq)]
pub enum SecretStep {
    /// Judge the name.
    Judge(String),
    /// Read the secret, and answer with what came of it.
    Read(SecretName),
    /// Answer at once.
    Answer(Val),
}

/// What the host does next for `read-secret`, from what the guest sent and, once
/// the name was judged, what came of that. A parameter of another shape is refused
/// first, then a name that is none.
pub fn secret_read_step(params: &Vec<Val>, judged: &Option<Result<(), DomainError>>) -> (r: SecretStep)
    ensures
        match string_field_of(param_of(params@, 0), "value"@) {
            None => r matches SecretStep::Answer(answer) && answer@ == failure("internal"@),
            Some(text) => match *judged {
                None => r matches SecretStep::Judge(name) && name@ == text,
                Some(Err(_)) => r matches SecretStep::Answer(answer) && answer@ == failure("invalid-name"@),
                Some(Ok(_)) => r matches SecretStep::Read(name) && name@ == text,
            },
        },
{
    let text: String = match record_string_field(param(params, 0), "value") {
        Some(text) => text,
        None => return SecretStep::Answer(failure_val("internal")),
    };
    match judged {
        None => SecretStep::Judge(text),
        Some(Err(_)) => SecretStep::Answer(failure_val("invalid-name")),
        Some(Ok(_)) => SecretStep::Read(SecretName { text }),
    }
}

/// What a guest gets back for `read-secret`, where it was carried out.
pub fn secret_read_secret(answer: &Result<SecretBytes, SecretError>) -> (r: Val)
    ensures
        r@ == match *answer {
            Ok(secret) => success(data_model(secret@)),
            Err(error) => failure(secret_case(error)),
        },
{
    match answer {
        Ok(secret) => success_val(data_val(secret.expose_secret())),
        Err(error) => failure_val(secret_error_name(error)),
    }
}

/// `record { name: record { value }, version: record { value: u64 } }`.
pub open spec fn metadata_model(item: SecretMetadata) -> ValModel {
    ValModel::Record(
        seq![
            ("name"@, val::wrapped_model(item.name@)),
            ("version"@, ValModel::Record(seq![("value"@, ValModel::U64(item.version.value))])),
        ],
    )
}

fn metadata_val(item: &SecretMetadata) -> (r: Val)
    ensures
        r@ == metadata_model(*item),
{
    let inner: Vec<(String, Val)> = vec![entry("value", Val::U64(item.version.value))];
    assert(val::record_model(inner@) =~= seq![("value"@, ValModel::U64(item.version.value))]);
    let version = Val::Record(inner);
    assert(version@ == ValModel::Record(seq![("value"@, ValModel::U64(item.version.value))]));
    let fields: Vec<(String, Val)> = vec![
        entry("name", wrapped_val(&item.name.text)),
        entry("version", version),
    ];
    assert(val::record_model(fields@) =~= seq![
        ("name"@, val::wrapped_model(item.name@)),
        ("version"@, ValModel::Record(seq![("value"@, ValModel::U64(item.version.value))])),
    ]);
    Val::Record(fields)
}

/// What a guest gets back for `list-granted-secrets`.
pub fn secret_list_granted_secrets(answer: &Result<Vec<SecretMetadata>, SecretError>) -> (r: Val)
    ensures
        r@ == match *answer {
            Ok(items) => success(
                ValModel::List(items@.map_values(|item: SecretMetadata| metadata_model(item))),
            ),
            Err(error) => failure(secret_case(error)),
        },
{
    match answer {
        Err(error) => failure_val(secret_error_name(error)),
        Ok(items) => {
            let mut list: Vec<Val> = Vec::new();
            let mut i: usize = 0;
            while i < items.len()
                invariant
                    i <= items@.len(),
                    list@.len() == i,
                    forall|j: int| 0 <= j < i ==> (#[trigger] list@[j])@ == metadata_model(items@[j]),
                decreases items@.len() - i,
            {
                list.push(metadata_val(&items[i]));
                i = i + 1;
            }
            assert(val::list_model(list@) =~= items@.map_values(
                |item: SecretMetadata| metadata_model(item),
            ));
            let inner = Val::List(list);
            assert(inner@ == ValModel::List(
                items@.map_values(|item: SecretMetadata| metadata_model(item)),
            ));
            success_val(inner)
        },
    }
}

/// How a state operation fails.
#[derive(Debug, PartialEq, Eq)]
pub enum StateError {
    NotReady,
    NotFound,
    Conflict,
    Corrupt,
    OverBudget,
    UnsupportedSchemaVersion,
    Store(StateStoreError),
    Audit(AuditError),
    Internal(&'static str),
}

/// Whether a compare-and-swap took place.
#[derive(Debug, Clone, Copy, PartialEq, Eq, Structural)]
pub enum CasOutcome {
    Applied,
    Rejected,
}

pub open spec fn state_case(error: StateError) -> Seq<char> {
    match error {
        StateError::NotReady => "not-ready"@,
        StateError::NotFound => "not-found"@,
        StateError::Conflict => "conflict"@,
        StateError::Corrupt => "corrupt"@,
        StateError::OverBudget => "over-budget"@,
        StateError::UnsupportedSchemaVersion => "unsupported-schema-version"@,
        StateError::Store(_) => "internal"@,
        StateError::Audit(_) => "internal"@,
        StateError::Internal(_) => "internal"@,
    }
}

/// The case under which a guest sees an error of its state.
pub fn state_error_name(error: &StateError) -> (r: &'static str)
    ensures
        r@ == state_case(*error),
{
    match error {
        StateError::NotReady => "not-ready",
        StateError::NotFound => "not-found",
        StateError::Conflict => "conflict",
        StateError::Corrupt => "corrupt",
        StateError::OverBudget => "over-budget",
        StateError::UnsupportedSchemaVersion => "unsupported-schema-version",
        StateError::Store(_) => "internal",
        StateError::Audit(_) => "internal",
        StateError::Internal(_) => "internal",
    }
}

/// What the host does next for `get` or `cas`.
#[derive(Debug, PartialEq, Eq)]
pub enum StateStep {
    /// Judge the key.
    Judge(String),
    /// Look up the version of the schema that the state follows.
    Bind,
    /// Read the entry, and answer with what came of it.
    Get { declared: StateSchemaVersion, key: StateKey },
    /// Swap the entry, and answer with what came of it.
    Cas { declared: StateSchemaVersion, key: StateKey, values: CasValues },
    /// Answer at once.
    Answer(Val),
}

/// What the host does next to learn of the key that a guest sent with `get` or
/// `cas`, where it is not yet known to be one: a parameter of another shape is
/// refused first, then a key that is none.
pub open spec fn before_key(
    params: Seq<Val>,
    judged: Option<Result<(), DomainError>>,
    step: StateStep,
) -> bool {
    match string_field_of(param_of(params, 0), "value"@) {
        None => step matches StateStep::Answer(answer) && answer@ == failure("internal"@),
        Some(text) => match judged {
            None => step matches StateStep::Judge(key) && key@ == text,
            Some(Err(_)) => step matches StateStep::Answer(answer) && answer@ == failure("invalid-key"@),
            Some(Ok(_)) => false,
        },
    }
}

/// The key that a guest sent, where it is known to be one.
pub open spec fn key_of(params: Seq<Val>, judged: Option<Result<(), DomainError>>) -> Option<Seq<char>> {
    match (string_field_of(param_of(params, 0), "value"@), judged) {
        (Some(text), Some(Ok(_))) => Some(text),
        _ => None,
    }
}

fn judged_key(params: &Vec<Val>, judged: &Option<Result<(), DomainError>>) -> (r: Result<StateKey, StateStep>)
    ensures
        match r {
            Ok(key) => key_of(params@, *judged) == Some(key.text@),
            Err(step) => key_of(params@, *judged) is None && before_key(params@, *judged, step),
        },
{
    let text: String = match record_string_field(param(params, 0), "value") {
        Some(text) => text,
        None => return Err(StateStep::Answer(failure_val("internal"))),
    };
    match judged {
        None => Err(StateStep::Judge(text)),
        Some(Err(_)) => Err(StateStep::Answer(failure_val("invalid-key"))),
        Some(Ok(_)) => Ok(StateKey { text }),
    }
}

/// What the host does next for `get`, from what the guest sent and, as far as they
/// are known, what came of judging the key and of looking up the schema's version.
/// A parameter of another shape is refused first, then a key that is none, then a
/// state whose schema's version cannot be told.
pub fn state_get_step(
    params: &Vec<Val>,
    judged: &Option<Result<(), DomainError>>,
    bound: &Option<Result<StateSchemaVersion, StateError>>,
) -> (r: StateStep)
    ensures
        match key_of(params@, *judged) {
            None => before_key(params@, *judged, r),
            Some(text) => match *bound {
                None => r == StateStep::Bind,
                Some(Err(_)) => r matches StateStep::Answer(answer) && answer@ == failure("internal"@),
                Some(Ok(version)) => {
                    &&& r matches StateStep::Get { declared, key }
                    &&& declared == version
                    &&& key.text@ == text
                },
            },
        },
{
    let key: StateKey = match judged_key(params, judged) {
        Ok(key) => key,
        Err(step) => return step,
    };
    match bound {
        None => StateStep::Bind,
        Some(Err(_)) => StateStep::Answer(failure_val("internal")),
        Some(Ok(declared)) => StateStep::Get { declared: *declared, key },
    }
}

/// What a guest gets back for `get`, where it was carried out.
pub fn state_get(answer: &Result<Option<Vec<u8>>, StateError>) -> (r: Val)
    ensures
        r@ == match *answer {
            Ok(Some(bytes)) => success(ValModel::Option(Some(Box::new(data_model(bytes@))))),
            Ok(None) => success(ValModel::Option(None)),
            Err(error) => failure(state_case(error)),
        },
{
    match answer {
        Ok(Some(bytes)) => {
            let inner = Val::Option(Some(Box::new(data_val(bytes))));
            assert(inner@ == ValModel::Option(Some(Box::new(data_model(bytes@)))));
            success_val(inner)
        },
        Ok(None) => success_val(Val::Option(None)),
        Err(error) => failure_val(state_error_name(error)),
    }
}

/// What is wrong with a value that a guest sends.
#[derive(Debug, Clone, Copy, PartialEq, Eq, Structural)]
pub enum StateValueFault {
    Shape,
    Size,
}

/// The bytes of `record { data: list<u8> }`, at most `limit` of them.
pub open spec fn state_value_of(value: ValModel, limit: nat) -> Result<Seq<u8>, StateValueFault> {
    match value {
        ValModel::Record(fields) => match first_field(fields, "data"@) {
            Some(ValModel::List(items)) => match val::byte_items(items) {
                Some(bytes) => if bytes.len() <= limit {
                    Ok(bytes)
                } else {
                    Err(StateValueFault::Size)
                },
                None => Err(StateValueFault::Shape),
            },
            _ => Err(StateValueFault::Shape),
        },
        _ => Err(StateValueFault::Shape),
    }
}

fn state_value_from_val(value: &Val, limit: usize) -> (r: Result<Vec<u8>, StateValueFault>)
    ensures
        match r {
            Ok(bytes) => state_value_of(value@, limit as nat) == Ok::<Seq<u8>, StateValueFault>(bytes@),
            Err(fault) => state_value_of(value@, limit as nat) == Err::<Seq<u8>, StateValueFault>(fault),
        },
{
    let fields: &Vec<(String, Val)> = match value {
        Val::Record(fields) => fields,
        _ => return Err(StateValueFault::Shape),
    };
    let found = find_field(fields, "data");
    let items: &Vec<Val> = match found {
        Some(Val::List(items)) => items,
        _ => return Err(StateValueFault::Shape),
    };
    assert(found->0@ == ValModel::List(val::list_model(items@)));
    match bytes_of(items) {
        None => Err(StateValueFault::Shape),
        Some(bytes) => if bytes.len() <= limit {
            Ok(bytes)
        } else {
            Err(StateValueFault::Size)
        },
    }
}

/// What `option<state-value>` holds, or what the guest gets back at once.
pub open spec fn option_value_of(value: Option<ValModel>, limit: nat) -> Result<
    Option<Seq<u8>>,
    Seq<char>,
> {
    match value {
        Some(ValModel::Option(None)) => Ok(None),
        Some(ValModel::Option(Some(inner))) => match state_value_of(*inner, limit) {
            Ok(bytes) => Ok(Some(bytes)),
            Err(StateValueFault::Shape) => Err("internal"@),
            Err(StateValueFault::Size) => Err("over-budget"@),
        },
        _ => Err("internal"@),
    }
}

fn option_state_value(value: Option<&Val>, limit: usize) -> (r: Result<Option<Vec<u8>>, Val>)
    ensures
        ({
            let model = match value {
                Some(v) => Some(v@),
                None => None,
            };
            match r {
                Ok(Some(bytes)) => option_value_of(model, limit as nat) == Ok::<Option<Seq<u8>>, Seq<char>>(
                    Some(bytes@),
                ),
                Ok(None) => option_value_of(model, limit as nat) == Ok::<Option<Seq<u8>>, Seq<char>>(None),
                Err(answer) => option_value_of(model, limit as nat) is Err && answer@ == failure(
                    option_value_of(model, limit as nat)->Err_0,
                ),
            }
        }),
{
    match value {
        None => Err(failure_val("internal")),
        Some(v) => match v {
            Val::Option(None) => Ok(None),
            Val::Option(Some(inner)) => {
                assert(v@ == ValModel::Option(Some(Box::new(inner@))));
                match state_value_from_val(inner, limit) {
                    Ok(bytes) => Ok(Some(bytes)),
                    Err(StateValueFault::Shape) => Err(failure_val("internal")),
                    Err(StateValueFault::Size) => Err(failure_val("over-budget")),
                }
            },
            _ => Err(failure_val("internal")),
        },
    }
}

/// What a guest wants swapped.
#[derive(Debug, PartialEq, Eq)]
pub struct CasValues {
    pub expected: Option<Vec<u8>>,
    pub new_value: Option<Vec<u8>>,
}

pub open spec fn opt_bytes(bytes: Option<Vec<u8>>) -> Option<Seq<u8>> {
    match bytes {
        Some(bytes) => Some(bytes@),
        None => None,
    }
}

/// The values that a guest sends with `cas`, each of at most `limit` bytes, or
/// what it gets back at once.
fn state_cas_values(params: &Vec<Val>, limit: usize) -> (r: Result<CasValues, Val>)
    ensures
        ({
            let expected = option_value_of(param_of(params@, 1), limit as nat);
            let new_value = option_value_of(param_of(params@, 2), limit as nat);
            match r {
                Ok(values) => {
                    &&& expected == Ok::<Option<Seq<u8>>, Seq<char>>(opt_bytes(values.expected))
                    &&& new_value == Ok::<Option<Seq<u8>>, Seq<char>>(opt_bytes(values.new_value))
                },
                Err(answer) => if expected is Err {
                    answer@ == failure(expected->Err_0)
                } else {
                    new_value is Err && answer@ == failure(new_value->Err_0)
                },
            }
        }),
{
    let expected: Option<Vec<u8>> = match option_state_value(param(params, 1), limit) {
        Ok(value) => value,
        Err(answer) => return Err(answer),
    };
    let new_value: Option<Vec<u8>> = match option_state_value(param(params, 2), limit) {
        Ok(value) => value,
        Err(answer) => return Err(answer),
    };
    Ok(CasValues { expected, new_value })
}

/// What the host does next for `cas`, as [`state_get_step`] does for `get`. Each
/// value may have `limit` bytes. A parameter of another shape is refused first, then
/// a key that is none, then a value that is none or too large, the expected one
/// before the new one, then a state whose schema's version cannot be told.
pub fn state_cas_step(
    params: &Vec<Val>,
    judged: &Option<Result<(), DomainError>>,
    limit: usize,
    bound: &Option<Result<StateSchemaVersion, StateError>>,
) -> (r: StateStep)
    ensures
        ({
            let expected = option_value_of(param_of(params@, 1), limit as nat);
            let new_value = option_value_of(param_of(params@, 2), limit as nat);
            match key_of(params@, *judged) {
                None => before_key(params@, *judged, r),
                Some(text) => if expected is Err {
                    r matches StateStep::Answer(answer) && answer@ == failure(expected->Err_0)
                } else if new_value is Err {
                    r matches StateStep::Answer(answer) && answer@ == failure(new_value->Err_0)
                } else {
                    match *bound {
                        None => r == StateStep::Bind,
                        Some(Err(_)) => r matches StateStep::Answer(answer) && answer@ == failure(
                            "internal"@,
                        ),
                        Some(Ok(version)) => {
                            &&& r matches StateStep::Cas { declared, key, values }
                            &&& declared == version
                            &&& key.text@ == text
                            &&& opt_bytes(values.expected) == expected->Ok_0
                            &&& opt_bytes(values.new_value) == new_value->Ok_0
                        },
                    }
                },
            }
        }),
{
    let key: StateKey = match judged_key(params, judged) {
        Ok(key) => key,
        Err(step) => return step,
    };
    let values: CasValues = match state_cas_values(params, limit) {
        Ok(values) => values,
        Err(answer) => return StateStep::Answer(answer),
    };
    match bound {
        None => StateStep::Bind,
        Some(Err(_)) => StateStep::Answer(failure_val("internal")),
        Some(Ok(declared)) => StateStep::Cas { declared: *declared, key, values },
    }
}

/// What a guest gets back for `cas`, where it was carried out.
pub fn state_cas(answer: &Result<CasOutcome, StateError>) -> (r: Val)
    ensures
        r@ == match *answer {
            Ok(CasOutcome::Applied) => success(ValModel::Enum("applied"@)),
            Ok(CasOutcome::Rejected) => success(ValModel::Enum("rejected"@)),
            Err(error) => failure(state_case(error)),
        },
{
    match answer {
        Ok(CasOutcome::Applied) => success_val(enum_val("applied")),
        Ok(CasOutcome::Rejected) => success_val(enum_val("rejected")),
        Err(error) => failure_val(state_error_name(error)),
    }
}

/// What the host writes as a state value it reads back the same: the bytes that a
/// guest gets are those it would send, within the limit.
pub proof fn law_state_value_roundtrip(bytes: Seq<u8>, limit: nat)
    ensures
        state_value_of(data_model(bytes), limit) == if bytes.len() <= limit {
            Ok::<Seq<u8>, StateValueFault>(bytes)
        } else {
            Err(StateValueFault::Size)
        },
{
    let fields = seq![("data"@, val::bytes_model(bytes))];
    let items = bytes.map_values(|b: u8| ValModel::U8(b));
    assert(fields[0].0 == "data"@);
    assert(first_field(fields, "data"@) == Some(val::bytes_model(bytes)));
    assert forall|i: int| 0 <= i < items.len() implies (#[trigger] items[i]) is U8 by {}
    assert(val::byte_items(items)->0 =~= bytes);
}

/// Law: a field is found by its name: the first of that name, and none exactly where
/// no field has it.
pub proof fn law_field_is_the_first_of_its_name(fields: Seq<(Seq<char>, ValModel)>, name: Seq<char>)
    ensures
        first_field(fields, name) is None <==> forall|i: int|
            0 <= i < fields.len() ==> (#[trigger] fields[i]).0 != name,
        first_field(fields, name) matches Some(v) ==> exists|i: int| {
            &&& 0 <= i < fields.len()
            &&& #[trigger] fields[i] == (name, v)
            &&& forall|j: int| 0 <= j < i ==> (#[trigger] fields[j]).0 != name
        },
    decreases fields.len(),
{
    if fields.len() > 0 {
        let rest = fields.drop_first();
        if fields[0].0 == name {
            assert(fields[0] == (name, fields[0].1));
        } else {
            law_field_is_the_first_of_its_name(rest, name);
            assert forall|i: int| 0 <= i < rest.len() implies rest[i] == fields[i + 1] by {}
            if first_field(fields, name) is None {
                assert forall|i: int| 0 <= i < fields.len() implies (#[trigger] fields[i]).0 != name by {
                    if i > 0 {
                        assert(rest[i - 1].0 != name);
                    }
                }
            } else {
                let v = first_field(fields, name)->0;
                let i = choose|i: int| {
                    &&& 0 <= i < rest.len()
                    &&& #[trigger] rest[i] == (name, v)
                    &&& forall|j: int| 0 <= j < i ==> (#[trigger] rest[j]).0 != name
                };
                assert(fields[i + 1] == (name, v));
                assert forall|j: int| 0 <= j < i + 1 implies (#[trigger] fields[j]).0 != name by {
                    if j > 0 {
                        assert(rest[j - 1].0 != name);
                    }
                }
            }
        }
    }
}

/// Law: what a guest gets of a configuration is a record of its revision, and a
/// record of that and its bytes, each under its name.
pub proof fn law_configuration_is_written_by_name(snapshot: ConfigSnapshot)
    ensures
        version_model(snapshot.revision) matches ValModel::Record(fields) && first_field(fields, "revision"@)
            == Some(ValModel::U64(snapshot.revision.value)) && fields.len() == 1,
        snapshot_model(snapshot) matches ValModel::Record(fields) && fields.len() == 2 && fields[0].0
            == "version"@ && fields[0].1 == version_model(snapshot.revision) && fields[1].0 == "value"@
            && fields[1].1 == data_model(snapshot.value@),
        data_model(snapshot.value@) matches ValModel::Record(fields) && fields.len() == 1 && fields[0].0
            == "data"@ && fields[0].1 == val::bytes_model(snapshot.value@),
{
    reveal_with_fuel(first_field, 2);
}

/// Law: what a guest gets of a secret in a listing is its name and its version, each
/// in a record of its own; never the secret.
pub proof fn law_listed_secret_is_written_by_name(item: SecretMetadata)
    ensures
        metadata_model(item) matches ValModel::Record(fields) && {
            &&& fields.len() == 2
            &&& fields[0].0 == "name"@
            &&& fields[0].1 matches ValModel::Record(name)
            &&& name.len() == 1
            &&& name[0].0 == "value"@
            &&& name[0].1 == ValModel::Text(item.name@)
            &&& fields[1].0 == "version"@
            &&& fields[1].1 matches ValModel::Record(version)
            &&& version.len() == 1
            &&& version[0].0 == "value"@
            &&& version[0].1 == ValModel::U64(item.version.value)
        },
{
}

/// Law: a guest hears of a failure by its kind where the contract has a case for it,
/// and as internal where it has none.
pub proof fn law_guest_hears_the_kind_of_failure(config: ConfigError, secret: SecretError, state: StateError)
    ensures
        config is NotReady ==> config_case(config) == "not-ready"@,
        config is Corrupt ==> config_case(config) == "corrupt"@,
        config is Store || config is Audit ==> config_case(config) == "internal"@,
        secret is Denied ==> secret_case(secret) == "denied"@,
        secret is Unavailable ==> secret_case(secret) == "unavailable"@,
        secret is Corrupt ==> secret_case(secret) == "corrupt"@,
        secret is OverBudget ==> secret_case(secret) == "over-budget"@,
        secret is Grant || secret is Store || secret is Audit || secret is Internal ==> secret_case(secret)
            == "internal"@,
        state is NotReady ==> state_case(state) == "not-ready"@,
        state is NotFound ==> state_case(state) == "not-found"@,
        state is Conflict ==> state_case(state) == "conflict"@,
        state is Corrupt ==> state_case(state) == "corrupt"@,
        state is OverBudget ==> state_case(state) == "over-budget"@,
        state is UnsupportedSchemaVersion ==> state_case(state) == "unsupported-schema-version"@,
        state is Store || state is Audit || state is Internal ==> state_case(state) == "internal"@,
{
}

/// Law: a success and a failure are told apart, a success holds what it was made
/// with, and two failures are the same exactly where their cases are.
pub proof fn law_answers_are_told_apart(a: ValModel, one: Seq<char>, two: Seq<char>)
    ensures
        success(a) matches ValModel::Success(Some(inner)) && *inner == a,
        failure(one) matches ValModel::Failure(Some(inner)) && *inner == ValModel::Enum(one),
        failure(one) == failure(two) <==> one == two,
        success(a) != failure(one),
{
    if failure(one) == failure(two) {
        assert(*(failure(one)->Failure_0->0) == ValModel::Enum(one));
        assert(*(failure(two)->Failure_0->0) == ValModel::Enum(two));
    }
}

/// Law: the key that a guest sends stands in the field `value` of its first
/// parameter. Where that is no text the answer is internal, before the key is
/// judged it is handed over as it stands, a key that is judged none is answered so,
/// and one that is judged a key is the key.
pub proof fn law_key_is_read_from_the_first_parameter(
    params: Seq<Val>,
    judged: Option<Result<(), DomainError>>,
    step: StateStep,
    text: Seq<char>,
)
    requires
        params.len() > 0,
        params[0]@ matches ValModel::Record(fields) && first_field(fields, "value"@) == Some(
            ValModel::Text(text),
        ),
    ensures
        judged is None ==> (before_key(params, judged, step) <==> (step matches StateStep::Judge(key) && key@
            == text)),
        judged matches Some(Err(_)) ==> (before_key(params, judged, step) <==> (step matches StateStep::Answer(
            answer,
        ) && answer@ == failure("invalid-key"@))),
        judged matches Some(Ok(_)) <==> key_of(params, judged) == Some(text),
        judged is None || judged->0 is Err ==> key_of(params, judged) is None,
{
}

/// Law: a key is refused as internal where there is no first parameter, or it is no
/// record with a text in the field `value`.
pub proof fn law_key_of_another_shape_is_refused(
    params: Seq<Val>,
    judged: Option<Result<(), DomainError>>,
    step: StateStep,
)
    requires
        params.len() == 0 || !(params[0]@ is Record) || !(first_field(params[0]@->Record_0, "value"@) matches Some(
            ValModel::Text(_),
        )),
    ensures
        key_of(params, judged) is None,
        before_key(params, judged, step) <==> (step matches StateStep::Answer(answer) && answer@ == failure(
            "internal"@,
        )),
{
}

/// Law: a value that a guest sends is its bytes exactly where it is a record whose
/// field `data` is a list of bytes, no more than the limit; too many are over
/// budget, and any other shape is internal. None at all is none.
pub proof fn law_sent_value_is_its_bytes(value: ValModel, limit: nat)
    ensures
        option_value_of(Some(ValModel::Option(None)), limit) == Ok::<Option<Seq<u8>>, Seq<char>>(None),
        option_value_of(None, limit) == Err::<Option<Seq<u8>>, Seq<char>>("internal"@),
        !(value is Option) ==> option_value_of(Some(value), limit) == Err::<Option<Seq<u8>>, Seq<char>>(
            "internal"@,
        ),
        ({
            let sent = option_value_of(Some(ValModel::Option(Some(Box::new(value)))), limit);
            let items = first_field(value->Record_0, "data"@);
            if value is Record && items is Some && items->0 is List && val::byte_items(items->0->List_0) is Some {
                let bytes = val::byte_items(items->0->List_0)->0;
                if bytes.len() > limit {
                    sent == Err::<Option<Seq<u8>>, Seq<char>>("over-budget"@)
                } else {
                    sent == Ok::<Option<Seq<u8>>, Seq<char>>(Some(bytes))
                }
            } else {
                sent == Err::<Option<Seq<u8>>, Seq<char>>("internal"@)
            }
        }),
{
}

/// Law: a parameter is the one at its place, and none where there are not so many.
pub proof fn law_parameter_is_the_one_at_its_place(params: Seq<Val>, i: int)
    ensures
        0 <= i < params.len() ==> param_of(params, i) == Some(params[i]@),
        !(0 <= i < params.len()) ==> param_of(params, i) is None,
{
}

/// Law: the text in a field of a parameter is read exactly where the parameter is a
/// record whose first field of that name is a text.
pub proof fn law_text_is_read_from_its_field(param: Option<ValModel>, field: Seq<char>, text: Seq<char>)
    ensures
        string_field_of(param, field) == Some(text) <==> (param matches Some(ValModel::Record(fields))
            && first_field(fields, field) == Some(ValModel::Text(text))),
{
}

} // verus!
