//! What guests return and are handed: the component descriptor, the state
//! declaration, the web descriptor, asset lists and actions.
use vstd::prelude::*;

use crate::val;
use crate::contract;
use crate::contract::{
    as_enum, as_record, as_result_err, as_result_ok, field, option_display, option_field,
    string_field, u32_field, wrapped_field, ContractFault, ContractValueError,
    MAX_COMPONENT_ID_LEN, MAX_DISPLAY_TEXT_LEN,
};
use crate::text::same_text;
use crate::val::{entry, failure_val, opt_string, success_val, text_val, wrapped_val, Val, ValModel};

verus! {

/// Who wrote a component, as its author says.
#[derive(Debug, PartialEq, Eq)]
pub struct GuestAuthorInfo {
    pub display_name: String,
    pub homepage: Option<String>,
    pub description: Option<String>,
}

/// A component's own account of itself.
#[derive(Debug, PartialEq, Eq)]
pub struct GuestComponentDescriptor {
    pub component_id: String,
    pub major: u32,
    pub minor: u32,
    pub patch: u32,
    pub display_name: String,
    pub author: Option<GuestAuthorInfo>,
}

pub struct AuthorModel {
    pub display_name: Seq<char>,
    pub homepage: Option<Seq<char>>,
    pub description: Option<Seq<char>>,
}

pub struct DescriptorModel {
    pub component_id: Seq<char>,
    pub major: u32,
    pub minor: u32,
    pub patch: u32,
    pub display_name: Seq<char>,
    pub author: Option<AuthorModel>,
}

impl GuestAuthorInfo {
    pub open spec fn view(&self) -> AuthorModel {
        AuthorModel {
            display_name: self.display_name@,
            homepage: contract::opt_text(self.homepage),
            description: contract::opt_text(self.description),
        }
    }

    /// Every text is within the host's limits.
    pub open spec fn fits(&self) -> bool {
        &&& contract::byte_len(self.display_name@) <= MAX_DISPLAY_TEXT_LEN
        &&& self.homepage matches Some(t) ==> contract::byte_len(t@) <= MAX_DISPLAY_TEXT_LEN
        &&& self.description matches Some(t) ==> contract::byte_len(t@) <= MAX_DISPLAY_TEXT_LEN
    }

    pub open spec fn wire(&self) -> ValModel {
        ValModel::Record(
            seq![
                ("display-name"@, ValModel::Text(self.display_name@)),
                ("homepage"@, val::opt_text_model(self.homepage)),
                ("description"@, val::opt_text_model(self.description)),
            ],
        )
    }
}

pub open spec fn author_option_model(a: Option<GuestAuthorInfo>) -> Option<AuthorModel> {
    match a {
        Some(a) => Some(a@),
        None => None,
    }
}

pub open spec fn author_option_wire(a: Option<GuestAuthorInfo>) -> ValModel {
    match a {
        Some(a) => ValModel::Option(Some(Box::new(a.wire()))),
        None => ValModel::Option(None),
    }
}

impl GuestComponentDescriptor {
    pub open spec fn view(&self) -> DescriptorModel {
        DescriptorModel {
            component_id: self.component_id@,
            major: self.major,
            minor: self.minor,
            patch: self.patch,
            display_name: self.display_name@,
            author: author_option_model(self.author),
        }
    }

    /// Every text is within the host's limits.
    pub open spec fn fits(&self) -> bool {
        &&& contract::byte_len(self.component_id@) <= MAX_COMPONENT_ID_LEN
        &&& contract::byte_len(self.display_name@) <= MAX_DISPLAY_TEXT_LEN
        &&& self.author matches Some(a) ==> a.fits()
    }

    /// The form in which a guest returns it.
    pub open spec fn wire(&self) -> ValModel {
        ValModel::Success(
            Some(
                Box::new(
                    ValModel::Record(
                        seq![
                            ("component-id"@, val::wrapped_model(self.component_id@)),
                            (
                                "version"@,
                                ValModel::Record(
                                    seq![
                                        ("major"@, ValModel::U32(self.major)),
                                        ("minor"@, ValModel::U32(self.minor)),
                                        ("patch"@, ValModel::U32(self.patch)),
                                    ],
                                ),
                            ),
                            ("display-name"@, ValModel::Text(self.display_name@)),
                            ("author"@, author_option_wire(self.author)),
                        ],
                    ),
                ),
            ),
        )
    }

    /// The two accounts say the same.
    pub fn same(&self, other: &GuestComponentDescriptor) -> (r: bool)
        ensures
            r == (self@ == other@),
    {
        self.component_id == other.component_id && self.major == other.major && self.minor
            == other.minor && self.patch == other.patch && self.display_name == other.display_name
            && same_author(&self.author, &other.author)
    }
}

fn same_option(a: &Option<String>, b: &Option<String>) -> (r: bool)
    ensures
        r == (contract::opt_text(*a) == contract::opt_text(*b)),
{
    match (a, b) {
        (Some(x), Some(y)) => same_text(x.as_str(), y.as_str()),
        (None, None) => true,
        _ => false,
    }
}

fn same_author(a: &Option<GuestAuthorInfo>, b: &Option<GuestAuthorInfo>) -> (r: bool)
    ensures
        r == (author_option_model(*a) == author_option_model(*b)),
{
    match (a, b) {
        (Some(x), Some(y)) => x.display_name == y.display_name && same_option(&x.homepage, &y.homepage)
            && same_option(&x.description, &y.description),
        (None, None) => true,
        _ => false,
    }
}

/// Why a guest could not describe its component.
#[derive(Debug, Clone, Copy, PartialEq, Eq, Structural)]
pub enum GuestDescriptorError {
    Malformed,
    UnsupportedContractVersion,
    Internal,
}

pub open spec fn version_of(m: ValModel) -> Result<(u32, u32, u32), ContractFault> {
    match contract::record_of(m, "component-version"@) {
        Err(e) => Err(e),
        Ok(f) => {
            let major = contract::u32_field_of(f, 0, "major"@);
            let minor = contract::u32_field_of(f, 1, "minor"@);
            let patch = contract::u32_field_of(f, 2, "patch"@);
            if major is Err {
                Err(major->Err_0)
            } else if minor is Err {
                Err(minor->Err_0)
            } else if patch is Err {
                Err(patch->Err_0)
            } else {
                Ok((major->Ok_0, minor->Ok_0, patch->Ok_0))
            }
        },
    }
}

pub open spec fn author_of(m: ValModel) -> Result<AuthorModel, ContractFault> {
    match contract::record_of(m, "author-info"@) {
        Err(e) => Err(e),
        Ok(f) => {
            let name = contract::text_field_of(f, 0, "display-name"@, MAX_DISPLAY_TEXT_LEN);
            let homepage = contract::option_display_of(f, 1, "homepage"@, "author-info.homepage"@);
            let description = contract::option_display_of(
                f,
                2,
                "description"@,
                "author-info.description"@,
            );
            if name is Err {
                Err(name->Err_0)
            } else if homepage is Err {
                Err(homepage->Err_0)
            } else if description is Err {
                Err(description->Err_0)
            } else {
                Ok(
                    AuthorModel {
                        display_name: name->Ok_0,
                        homepage: homepage->Ok_0,
                        description: description->Ok_0,
                    },
                )
            }
        },
    }
}

/// What a returned value says of a component.
pub open spec fn component_descriptor_of(m: ValModel) -> Result<DescriptorModel, ContractFault> {
    match contract::success_of(m, "get-descriptor"@) {
        Err(e) => Err(e),
        Ok(inner) => match contract::record_of(inner, "component-descriptor"@) {
            Err(e) => Err(e),
            Ok(f) => {
                let id = contract::wrapped_field_of(f, 0, "component-id"@, "component-id"@, MAX_COMPONENT_ID_LEN);
                let version = match contract::field_of(f, 1, "version"@) {
                    Err(e) => Err(e),
                    Ok(v) => version_of(v),
                };
                let name = contract::text_field_of(f, 2, "display-name"@, MAX_DISPLAY_TEXT_LEN);
                let author = match contract::option_field_of(f, 3, "author"@) {
                    Err(e) => Err(e),
                    Ok(None) => Ok(None),
                    Ok(Some(v)) => match author_of(v) {
                        Err(e) => Err(e),
                        Ok(a) => Ok(Some(a)),
                    },
                };
                if id is Err {
                    Err(id->Err_0)
                } else if version is Err {
                    Err(version->Err_0)
                } else if name is Err {
                    Err(name->Err_0)
                } else if author is Err {
                    Err(author->Err_0)
                } else {
                    Ok(
                        DescriptorModel {
                            component_id: id->Ok_0,
                            major: version->Ok_0.0,
                            minor: version->Ok_0.1,
                            patch: version->Ok_0.2,
                            display_name: name->Ok_0,
                            author: author->Ok_0,
                        },
                    )
                }
            },
        },
    }
}

fn parse_version(val: &Val) -> (r: Result<(u32, u32, u32), ContractValueError>)
    ensures
        match r {
            Ok(v) => version_of(val@) == Ok::<(u32, u32, u32), ContractFault>(v),
            Err(e) => version_of(val@) == Err::<(u32, u32, u32), ContractFault>(e@),
        },
{
    let fields = match as_record(val, "component-version") {
        Ok(f) => f,
        Err(e) => return Err(e),
    };
    let major: u32 = match u32_field(fields, 0, "major") {
        Ok(n) => n,
        Err(e) => return Err(e),
    };
    let minor: u32 = match u32_field(fields, 1, "minor") {
        Ok(n) => n,
        Err(e) => return Err(e),
    };
    match u32_field(fields, 2, "patch") {
        Ok(patch) => Ok((major, minor, patch)),
        Err(e) => Err(e),
    }
}

fn parse_author(val: &Val) -> (r: Result<GuestAuthorInfo, ContractValueError>)
    ensures
        match r {
            Ok(a) => author_of(val@) == Ok::<AuthorModel, ContractFault>(a@),
            Err(e) => author_of(val@) == Err::<AuthorModel, ContractFault>(e@),
        },
{
    let fields = match as_record(val, "author-info") {
        Ok(f) => f,
        Err(e) => return Err(e),
    };
    let display_name = match string_field(fields, 0, "display-name", MAX_DISPLAY_TEXT_LEN) {
        Ok(t) => t,
        Err(e) => return Err(e),
    };
    let homepage = match option_display(fields, 1, "homepage", "author-info.homepage") {
        Ok(t) => t,
        Err(e) => return Err(e),
    };
    match option_display(fields, 2, "description", "author-info.description") {
        Ok(description) => Ok(GuestAuthorInfo { display_name, homepage, description }),
        Err(e) => Err(e),
    }
}

/// Reads what `get-descriptor` returned.
pub fn parse_component_descriptor_val(val: &Val) -> (r: Result<GuestComponentDescriptor, ContractValueError>)
    ensures
        match r {
            Ok(d) => component_descriptor_of(val@) == Ok::<DescriptorModel, ContractFault>(d@),
            Err(e) => component_descriptor_of(val@) == Err::<DescriptorModel, ContractFault>(e@),
        },
{
    let inner = match as_result_ok(val, "get-descriptor") {
        Ok(v) => v,
        Err(e) => return Err(e),
    };
    let fields = match as_record(inner, "component-descriptor") {
        Ok(f) => f,
        Err(e) => return Err(e),
    };
    let component_id = match wrapped_field(fields, 0, "component-id", "component-id", MAX_COMPONENT_ID_LEN) {
        Ok(t) => t,
        Err(e) => return Err(e),
    };
    let version = match field(fields, 1, "version") {
        Ok(v) => v,
        Err(e) => return Err(e),
    };
    let version = match parse_version(version) {
        Ok(v) => v,
        Err(e) => return Err(e),
    };
    let display_name = match string_field(fields, 2, "display-name", MAX_DISPLAY_TEXT_LEN) {
        Ok(t) => t,
        Err(e) => return Err(e),
    };
    let author = match option_field(fields, 3, "author") {
        Err(e) => return Err(e),
        Ok(None) => None,
        Ok(Some(record)) => match parse_author(record) {
            Err(e) => return Err(e),
            Ok(a) => Some(a),
        },
    };
    Ok(
        GuestComponentDescriptor {
            component_id,
            major: version.0,
            minor: version.1,
            patch: version.2,
            display_name,
            author,
        },
    )
}

fn build_author_val(author: &GuestAuthorInfo) -> (r: Val)
    ensures
        r@ == author.wire(),
{
    let fields: Vec<(String, Val)> = vec![
        entry("display-name", text_val(&author.display_name)),
        entry("homepage", opt_string(&author.homepage)),
        entry("description", opt_string(&author.description)),
    ];
    proof {
        assert(author.wire()->Record_0 =~= val::record_model(fields@));
    }
    Val::Record(fields)
}

/// The value that a guest returns for `descriptor`.
pub fn build_component_descriptor_val(descriptor: &GuestComponentDescriptor) -> (r: Val)
    ensures
        r@ == descriptor.wire(),
{
    let author = match &descriptor.author {
        Some(a) => Val::Option(Some(Box::new(build_author_val(a)))),
        None => Val::Option(None),
    };
    let version: Vec<(String, Val)> = vec![
        entry("major", Val::U32(descriptor.major)),
        entry("minor", Val::U32(descriptor.minor)),
        entry("patch", Val::U32(descriptor.patch)),
    ];
    let ghost version_fields = val::record_model(version@);
    assert(version_fields =~= seq![
        ("major"@, ValModel::U32(descriptor.major)),
        ("minor"@, ValModel::U32(descriptor.minor)),
        ("patch"@, ValModel::U32(descriptor.patch)),
    ]);
    let version_val = Val::Record(version);
    assert(version_val@ == ValModel::Record(version_fields));
    assert(author@ == author_option_wire(descriptor.author));
    let fields: Vec<(String, Val)> = vec![
        entry("component-id", wrapped_val(&descriptor.component_id)),
        entry("version", version_val),
        entry("display-name", text_val(&descriptor.display_name)),
        entry("author", author),
    ];
    proof {
        let want = (*descriptor.wire()->Success_0->0)->Record_0;
        assert(want =~= val::record_model(fields@));
    }
    success_val(Val::Record(fields))
}

/// Law: a descriptor within the host's limits comes back unchanged from its
/// wire form.
pub proof fn law_component_descriptor_roundtrip(d: GuestComponentDescriptor)
    requires
        d.fits(),
    ensures
        component_descriptor_of(d.wire()) == Ok::<DescriptorModel, ContractFault>(d@),
{
    if d.author is Some {
        assert(author_of(d.author->0.wire()) == Ok::<AuthorModel, ContractFault>(d.author->0@));
    }
}

impl GuestDescriptorError {
    pub open spec fn spec_name(self) -> Seq<char> {
        match self {
            GuestDescriptorError::Malformed => "malformed"@,
            GuestDescriptorError::UnsupportedContractVersion => "unsupported-contract-version"@,
            GuestDescriptorError::Internal => "internal"@,
        }
    }

    /// The case's name on the wire.
    pub fn name(self) -> (r: &'static str)
        ensures
            r@ == self.spec_name(),
    {
        match self {
            GuestDescriptorError::Malformed => "malformed",
            GuestDescriptorError::UnsupportedContractVersion => "unsupported-contract-version",
            GuestDescriptorError::Internal => "internal",
        }
    }

    /// The case with this name, where there is one.
    pub fn named(name: &str) -> (r: Option<GuestDescriptorError>)
        ensures
            match r {
                Some(e) => e.spec_name() == name@,
                None => forall|e: GuestDescriptorError| #[trigger] e.spec_name() != name@,
            },
    {
        if same_text(name, "malformed") {
            Some(GuestDescriptorError::Malformed)
        } else if same_text(name, "unsupported-contract-version") {
            Some(GuestDescriptorError::UnsupportedContractVersion)
        } else if same_text(name, "internal") {
            Some(GuestDescriptorError::Internal)
        } else {
            None
        }
    }
}

/// Law: no two descriptor errors share a name.
pub proof fn law_descriptor_error_names_differ(a: GuestDescriptorError, b: GuestDescriptorError)
    requires
        a.spec_name() == b.spec_name(),
    ensures
        a == b,
{
    reveal_strlit("malformed");
    reveal_strlit("unsupported-contract-version");
    reveal_strlit("internal");
    assert("malformed"@.len() == 9);
    assert("unsupported-contract-version"@.len() == 28);
    assert("internal"@.len() == 8);
}

/// The value that a guest returns for `error`.
pub fn build_descriptor_error_val(error: GuestDescriptorError) -> (r: Val)
    ensures
        r@ == ValModel::Failure(Some(Box::new(ValModel::Enum(error.spec_name())))),
{
    failure_val(error.name())
}

/// The enum case in the payload of a failed `result`.
pub open spec fn failure_case_of(m: ValModel, call: Seq<char>, what: Seq<char>) -> Result<
    Seq<char>,
    ContractFault,
> {
    match contract::failure_of(m, call) {
        Err(e) => Err(e),
        Ok(payload) => contract::enum_of(payload, what),
    }
}

/// The enum case in the payload of a failed `result`.
pub fn failure_case<'a>(val: &'a Val, call: &'static str, what: &'static str) -> (r: Result<
    &'a String,
    ContractValueError,
>)
    ensures
        match r {
            Ok(n) => failure_case_of(val@, call@, what@) == Ok::<Seq<char>, ContractFault>(n@),
            Err(e) => failure_case_of(val@, call@, what@) == Err::<Seq<char>, ContractFault>(e@),
        },
{
    match as_result_err(val, call) {
        Err(e) => Err(e),
        Ok(payload) => as_enum(payload, what),
    }
}

/// Reads the error that `get-descriptor` returned.
pub fn parse_descriptor_error_val(val: &Val) -> (r: Result<GuestDescriptorError, ContractValueError>)
    ensures
        match (failure_case_of(val@, "get-descriptor"@, "descriptor-error"@), r) {
            (Err(fault), Err(e)) => e@ == fault,
            (Ok(n), Ok(e)) => e.spec_name() == n,
            (Ok(n), Err(e)) => e@ == ContractFault::InvalidVariant(n)
                && forall|c: GuestDescriptorError| #[trigger] c.spec_name() != n,
            (Err(_), Ok(_)) => false,
        },
{
    match failure_case(val, "get-descriptor", "descriptor-error") {
        Err(e) => Err(e),
        Ok(name) => match GuestDescriptorError::named(name.as_str()) {
            Some(e) => Ok(e),
            None => Err(ContractValueError::InvalidVariant(name.clone())),
        },
    }
}

/// The state that a component keeps, as it declares it.
#[derive(Debug, PartialEq, Eq)]
pub struct GuestStateDeclaration {
    pub name: Option<String>,
    pub schema_version: u32,
}

pub struct StateDeclarationModel {
    pub name: Option<Seq<char>>,
    pub schema_version: u32,
}

impl GuestStateDeclaration {
    pub open spec fn view(&self) -> StateDeclarationModel {
        StateDeclarationModel { name: contract::opt_text(self.name), schema_version: self.schema_version }
    }

    pub open spec fn fits(&self) -> bool {
        self.name matches Some(n) ==> contract::byte_len(n@) <= MAX_DISPLAY_TEXT_LEN
    }

    pub open spec fn wire(&self) -> ValModel {
        ValModel::Success(
            Some(
                Box::new(
                    ValModel::Record(
                        seq![
                            ("name"@, val::opt_text_model(self.name)),
                            (
                                "schema-version"@,
                                ValModel::Record(seq![("value"@, ValModel::U32(self.schema_version))]),
                            ),
                        ],
                    ),
                ),
            ),
        )
    }
}

/// Why a guest could not declare its state.
#[derive(Debug, Clone, Copy, PartialEq, Eq, Structural)]
pub enum GuestStateDeclarationError {
    Malformed,
    UnsupportedContractVersion,
    Internal,
}

impl GuestStateDeclarationError {
    pub open spec fn spec_name(self) -> Seq<char> {
        match self {
            GuestStateDeclarationError::Malformed => "malformed"@,
            GuestStateDeclarationError::UnsupportedContractVersion => "unsupported-contract-version"@,
            GuestStateDeclarationError::Internal => "internal"@,
        }
    }

    /// The case's name on the wire.
    pub fn name(self) -> (r: &'static str)
        ensures
            r@ == self.spec_name(),
    {
        match self {
            GuestStateDeclarationError::Malformed => "malformed",
            GuestStateDeclarationError::UnsupportedContractVersion => "unsupported-contract-version",
            GuestStateDeclarationError::Internal => "internal",
        }
    }
}

/// Law: no two state declaration errors share a name.
pub proof fn law_state_declaration_error_names_differ(
    a: GuestStateDeclarationError,
    b: GuestStateDeclarationError,
)
    requires
        a.spec_name() == b.spec_name(),
    ensures
        a == b,
{
    reveal_strlit("malformed");
    reveal_strlit("unsupported-contract-version");
    reveal_strlit("internal");
    assert("malformed"@.len() == 9);
    assert("unsupported-contract-version"@.len() == 28);
    assert("internal"@.len() == 8);
}

/// The value that a guest returns for `error`.
pub fn build_state_declaration_error_val(error: GuestStateDeclarationError) -> (r: Val)
    ensures
        r@ == ValModel::Failure(Some(Box::new(ValModel::Enum(error.spec_name())))),
{
    failure_val(error.name())
}

/// Reads the error that `get-state-declaration` returned.
pub fn parse_state_declaration_error_val(val: &Val) -> (r: Result<
    GuestStateDeclarationError,
    ContractValueError,
>)
    ensures
        match (failure_case_of(val@, "get-state-declaration"@, "state-declaration-error"@), r) {
            (Err(fault), Err(e)) => e@ == fault,
            (Ok(n), Ok(e)) => e.spec_name() == n,
            (Ok(n), Err(e)) => e@ == ContractFault::InvalidVariant(n)
                && forall|c: GuestStateDeclarationError| #[trigger] c.spec_name() != n,
            (Err(_), Ok(_)) => false,
        },
{
    match failure_case(val, "get-state-declaration", "state-declaration-error") {
        Err(e) => Err(e),
        Ok(name) => {
            if same_text(name.as_str(), "malformed") {
                Ok(GuestStateDeclarationError::Malformed)
            } else if same_text(name.as_str(), "unsupported-contract-version") {
                Ok(GuestStateDeclarationError::UnsupportedContractVersion)
            } else if same_text(name.as_str(), "internal") {
                Ok(GuestStateDeclarationError::Internal)
            } else {
                Err(ContractValueError::InvalidVariant(name.clone()))
            }
        },
    }
}

/// What a returned value says of a component's state.
pub open spec fn state_declaration_of(m: ValModel) -> Result<StateDeclarationModel, ContractFault> {
    match contract::success_of(m, "get-state-declaration"@) {
        Err(e) => Err(e),
        Ok(inner) => match contract::record_of(inner, "state-declaration"@) {
            Err(e) => Err(e),
            Ok(f) => {
                let name = contract::option_display_of(f, 0, "name"@, "state-declaration.name"@);
                let version = match contract::field_of(f, 1, "schema-version"@) {
                    Err(e) => Err(e),
                    Ok(v) => match contract::record_of(v, "state-schema-version"@) {
                        Err(e) => Err(e),
                        Ok(g) => contract::u32_field_of(g, 0, "value"@),
                    },
                };
                if name is Err {
                    Err(name->Err_0)
                } else if version is Err {
                    Err(version->Err_0)
                } else {
                    Ok(StateDeclarationModel { name: name->Ok_0, schema_version: version->Ok_0 })
                }
            },
        },
    }
}

/// Reads what `get-state-declaration` returned.
pub fn parse_state_declaration_val(val: &Val) -> (r: Result<GuestStateDeclaration, ContractValueError>)
    ensures
        match r {
            Ok(d) => state_declaration_of(val@) == Ok::<StateDeclarationModel, ContractFault>(d@),
            Err(e) => state_declaration_of(val@) == Err::<StateDeclarationModel, ContractFault>(e@),
        },
{
    let inner = match as_result_ok(val, "get-state-declaration") {
        Ok(v) => v,
        Err(e) => return Err(e),
    };
    let fields = match as_record(inner, "state-declaration") {
        Ok(f) => f,
        Err(e) => return Err(e),
    };
    let name = match option_display(fields, 0, "name", "state-declaration.name") {
        Ok(t) => t,
        Err(e) => return Err(e),
    };
    let version = match field(fields, 1, "schema-version") {
        Ok(v) => v,
        Err(e) => return Err(e),
    };
    let version_fields = match as_record(version, "state-schema-version") {
        Ok(f) => f,
        Err(e) => return Err(e),
    };
    match u32_field(version_fields, 0, "value") {
        Ok(schema_version) => Ok(GuestStateDeclaration { name, schema_version }),
        Err(e) => Err(e),
    }
}

/// The value that a guest returns for `declaration`.
pub fn build_state_declaration_val(declaration: &GuestStateDeclaration) -> (r: Val)
    ensures
        r@ == declaration.wire(),
{
    let version: Vec<(String, Val)> = vec![entry("value", Val::U32(declaration.schema_version))];
    let ghost version_fields = val::record_model(version@);
    assert(version_fields =~= seq![("value"@, ValModel::U32(declaration.schema_version))]);
    let version_val = Val::Record(version);
    assert(version_val@ == ValModel::Record(version_fields));
    let fields: Vec<(String, Val)> = vec![
        entry("name", opt_string(&declaration.name)),
        entry("schema-version", version_val),
    ];
    assert((*declaration.wire()->Success_0->0)->Record_0 =~= val::record_model(fields@));
    success_val(Val::Record(fields))
}

/// Law: a state declaration within the host's limits comes back unchanged from
/// its wire form.
pub proof fn law_state_declaration_roundtrip(d: GuestStateDeclaration)
    requires
        d.fits(),
    ensures
        state_declaration_of(d.wire()) == Ok::<StateDeclarationModel, ContractFault>(d@),
{
}

/// The field at place `i` is the text `t` under `name`.
pub open spec fn is_text(f: Seq<(Seq<char>, ValModel)>, i: int, name: Seq<char>, t: Seq<char>) -> bool {
    0 <= i < f.len() && f[i] == (name, ValModel::Text(t))
}

/// The field at place `i` is an optional text under `name`.
pub open spec fn is_opt_text(f: Seq<(Seq<char>, ValModel)>, i: int, name: Seq<char>, o: Option<Seq<char>>) -> bool {
    &&& 0 <= i < f.len()
    &&& f[i].0 == name
    &&& match o {
        None => f[i].1 == ValModel::Option(None),
        Some(t) => f[i].1 matches ValModel::Option(Some(b)) && *b == ValModel::Text(t) && vstd::utf8::encode_utf8(
            t,
        ).len() <= 2048,
    }
}

/// A value in the form of an author.
pub open spec fn is_author(m: ValModel, a: AuthorModel) -> bool {
    &&& m matches ValModel::Record(f)
    &&& is_text(f, 0, "display-name"@, a.display_name)
    &&& vstd::utf8::encode_utf8(a.display_name).len() <= 2048
    &&& is_opt_text(f, 1, "homepage"@, a.homepage)
    &&& is_opt_text(f, 2, "description"@, a.description)
}

/// A value in the form of a version.
pub open spec fn is_version(m: ValModel, major: u32, minor: u32, patch: u32) -> bool {
    &&& m matches ValModel::Record(f)
    &&& f.len() >= 3
    &&& f[0] == ("major"@, ValModel::U32(major))
    &&& f[1] == ("minor"@, ValModel::U32(minor))
    &&& f[2] == ("patch"@, ValModel::U32(patch))
}

/// A returned value in the form of a component descriptor.
pub open spec fn is_descriptor(m: ValModel, d: DescriptorModel) -> bool {
    &&& m matches ValModel::Success(Some(b))
    &&& *b matches ValModel::Record(f)
    &&& f.len() >= 4
    &&& f[0].0 == "component-id"@
    &&& f[0].1 matches ValModel::Record(id)
    &&& is_text(id, 0, "value"@, d.component_id)
    &&& vstd::utf8::encode_utf8(d.component_id).len() <= 255
    &&& f[1].0 == "version"@
    &&& is_version(f[1].1, d.major, d.minor, d.patch)
    &&& is_text(f, 2, "display-name"@, d.display_name)
    &&& vstd::utf8::encode_utf8(d.display_name).len() <= 2048
    &&& f[3].0 == "author"@
    &&& match d.author {
        None => f[3].1 == ValModel::Option(None),
        Some(a) => f[3].1 matches ValModel::Option(Some(inner)) && is_author(*inner, a),
    }
}

/// Law: a returned value reads as a component's account exactly where it has that
/// form: the identifier in its record, the three numbers of the version each under
/// its name, the display name and the author, every text within its limit.
pub proof fn law_descriptor_reads_as_its_form(m: ValModel, d: DescriptorModel)
    ensures
        component_descriptor_of(m) == Ok::<DescriptorModel, ContractFault>(d) <==> is_descriptor(m, d),
{
    if m matches ValModel::Success(Some(b)) && *b is Record {
        let f = (*(m->Success_0->0))->Record_0;
        contract::law_wrapped_text_is_read_from_its_record(
            f[0].1,
            "component-id"@,
            MAX_COMPONENT_ID_LEN,
            d.component_id,
        );
        contract::law_text_is_read_within_its_limit(f, 2, "display-name"@, MAX_DISPLAY_TEXT_LEN, d.display_name);
        if f.len() > 3 && f[3].1 is Option && f[3].1->Option_0 is Some {
            let v = *(f[3].1->Option_0->0);
            if d.author is Some {
                lemma_author(v, d.author->0);
            }
        }
    }
}

proof fn lemma_author(m: ValModel, a: AuthorModel)
    ensures
        author_of(m) == Ok::<AuthorModel, ContractFault>(a) <==> is_author(m, a),
{
    if m is Record {
        let f = m->Record_0;
        contract::law_text_is_read_within_its_limit(f, 0, "display-name"@, MAX_DISPLAY_TEXT_LEN, a.display_name);
        let h = if a.homepage is Some {
            a.homepage->0
        } else {
            Seq::empty()
        };
        let s = if a.description is Some {
            a.description->0
        } else {
            Seq::empty()
        };
        contract::law_optional_texts_are_read_within_their_limits(f, 1, "homepage"@, "author-info.homepage"@, h);
        contract::law_optional_texts_are_read_within_their_limits(
            f,
            2,
            "description"@,
            "author-info.description"@,
            s,
        );
    }
}

/// A returned value in the form of a state declaration.
pub open spec fn is_state_declaration(m: ValModel, d: StateDeclarationModel) -> bool {
    &&& m matches ValModel::Success(Some(b))
    &&& *b matches ValModel::Record(f)
    &&& f.len() >= 2
    &&& is_opt_text(f, 0, "name"@, d.name)
    &&& f[1].0 == "schema-version"@
    &&& f[1].1 matches ValModel::Record(g)
    &&& g.len() > 0
    &&& g[0] == ("value"@, ValModel::U32(d.schema_version))
}

/// Law: a returned value reads as a state declaration exactly where it has that
/// form: the optional name within its limit, and the version in its record.
pub proof fn law_state_declaration_reads_as_its_form(m: ValModel, d: StateDeclarationModel)
    ensures
        state_declaration_of(m) == Ok::<StateDeclarationModel, ContractFault>(d) <==> is_state_declaration(m, d),
{
    if m matches ValModel::Success(Some(b)) && *b is Record {
        let f = (*(m->Success_0->0))->Record_0;
        let t = if d.name is Some {
            d.name->0
        } else {
            Seq::empty()
        };
        contract::law_optional_texts_are_read_within_their_limits(f, 0, "name"@, "state-declaration.name"@, t);
    }
}

/// Law: two accounts are the same exactly where they agree in every part.
pub proof fn law_accounts_are_compared_part_by_part(a: GuestComponentDescriptor, b: GuestComponentDescriptor)
    ensures
        a@ == b@ <==> {
            &&& a.component_id@ == b.component_id@
            &&& a.major == b.major
            &&& a.minor == b.minor
            &&& a.patch == b.patch
            &&& a.display_name@ == b.display_name@
            &&& a.author is Some <==> b.author is Some
            &&& a.author is Some && b.author is Some ==> a.author->0@ == b.author->0@
        },
{
}

/// Law: each error of a guest has the name that the contract gives it.
pub proof fn law_guest_errors_have_their_names(a: GuestDescriptorError, b: GuestStateDeclarationError)
    ensures
        a == GuestDescriptorError::Malformed ==> a.spec_name() == "malformed"@,
        a == GuestDescriptorError::UnsupportedContractVersion ==> a.spec_name() == "unsupported-contract-version"@,
        a == GuestDescriptorError::Internal ==> a.spec_name() == "internal"@,
        b == GuestStateDeclarationError::Malformed ==> b.spec_name() == "malformed"@,
        b == GuestStateDeclarationError::UnsupportedContractVersion ==> b.spec_name()
            == "unsupported-contract-version"@,
        b == GuestStateDeclarationError::Internal ==> b.spec_name() == "internal"@,
{
}

/// Law: the error that a guest returned is the case in the failed result.
pub proof fn law_failure_case_is_the_enum_case(m: ValModel, call: Seq<char>, what: Seq<char>, name: Seq<char>)
    ensures
        failure_case_of(m, call, what) == Ok::<Seq<char>, ContractFault>(name) <==> (m matches ValModel::Failure(
            Some(b),
        ) && *b == ValModel::Enum(name)),
{
}

/// The fields of a component descriptor, in the order in which they are read.
pub open spec fn descriptor_field(k: int) -> Seq<char> {
    if k == 0 {
        "component-id"@
    } else if k == 1 {
        "version"@
    } else if k == 2 {
        "display-name"@
    } else {
        "author"@
    }
}

/// Law: of an account that breaks off, the first field that it lacks is told: fields
/// are looked for in the order in which they are written.
pub proof fn law_descriptor_lacks_the_next_field(f: Seq<(Seq<char>, ValModel)>, d: DescriptorModel, k: int)
    requires
        is_descriptor(ValModel::Success(Some(Box::new(ValModel::Record(f)))), d),
        0 <= k < 4,
    ensures
        component_descriptor_of(ValModel::Success(Some(Box::new(ValModel::Record(f.take(k)))))) == Err::<
            DescriptorModel,
            ContractFault,
        >(ContractFault::MissingField(descriptor_field(k))),
{
    let g = f.take(k);
    law_descriptor_reads_as_its_form(ValModel::Success(Some(Box::new(ValModel::Record(f)))), d);
    assert forall|i: int| 0 <= i < k implies g[i] == f[i] by {}
}

/// Law: of a version that breaks off, the first number that it lacks is told.
pub proof fn law_version_lacks_the_next_number(f: Seq<(Seq<char>, ValModel)>, major: u32, minor: u32, patch: u32)
    requires
        is_version(ValModel::Record(f), major, minor, patch),
    ensures
        version_of(ValModel::Record(f)) == Ok::<(u32, u32, u32), ContractFault>((major, minor, patch)),
        version_of(ValModel::Record(f.take(0))) == Err::<(u32, u32, u32), ContractFault>(
            ContractFault::MissingField("major"@),
        ),
        version_of(ValModel::Record(f.take(1))) == Err::<(u32, u32, u32), ContractFault>(
            ContractFault::MissingField("minor"@),
        ),
        version_of(ValModel::Record(f.take(2))) == Err::<(u32, u32, u32), ContractFault>(
            ContractFault::MissingField("patch"@),
        ),
{
}

/// Law: of a state declaration that breaks off, the first field that it lacks is
/// told.
pub proof fn law_state_declaration_lacks_the_next_field(f: Seq<(Seq<char>, ValModel)>, d: StateDeclarationModel)
    requires
        is_state_declaration(ValModel::Success(Some(Box::new(ValModel::Record(f)))), d),
    ensures
        state_declaration_of(ValModel::Success(Some(Box::new(ValModel::Record(f.take(0)))))) == Err::<
            StateDeclarationModel,
            ContractFault,
        >(ContractFault::MissingField("name"@)),
        state_declaration_of(ValModel::Success(Some(Box::new(ValModel::Record(f.take(1)))))) == Err::<
            StateDeclarationModel,
            ContractFault,
        >(ContractFault::MissingField("schema-version"@)),
{
    law_state_declaration_reads_as_its_form(ValModel::Success(Some(Box::new(ValModel::Record(f)))), d);
}

} // verus!
