//! What a component's bytes say that it imports and exports.
use vstd::prelude::*;
use wasmtime::component::Component;
use wasmtime::{Config, Engine};

use crate::error::RuntimeExecutionError;
use crate::model::ContractSurface;
use crate::val;
use crate::values::ErrorSource;

verus! {

/// The names that a component imports under.
pub uninterp spec fn import_names(bytes: Seq<u8>) -> Seq<Seq<char>>;

/// The names that a component exports under.
pub uninterp spec fn export_names(bytes: Seq<u8>) -> Seq<Seq<char>>;

/// `wasmtime::component::types::Component::imports`, on the component that
/// `wasmtime::component::Component::new` makes of the bytes with an engine of the
/// default configuration: the names, in order, are a function of the bytes. When
/// the bytes are a component, and that this machine can compile it, is left
/// unsaid.
#[verifier::external_body]
fn imports_of(bytes: &Vec<u8>) -> (r: Result<Vec<String>, String>)
    ensures
        r matches Ok(names) ==> val::names_model(names@) == import_names(bytes@),
{
    let engine = Engine::new(&Config::new()).map_err(|error| error.to_string())?;
    let component = Component::new(&engine, bytes).map_err(|error| error.to_string())?;
    let ty = component.component_type();
    let names = ty.imports(&engine).map(|(name, _)| name.to_owned()).collect();
    Ok(names)
}

/// `wasmtime::component::types::Component::exports`, on the component that
/// `wasmtime::component::Component::new` makes of the bytes with an engine of the
/// default configuration: the names, in order, are a function of the bytes. When
/// the bytes are a component, and that this machine can compile it, is left
/// unsaid.
#[verifier::external_body]
fn exports_of(bytes: &Vec<u8>) -> (r: Result<Vec<String>, String>)
    ensures
        r matches Ok(names) ==> val::names_model(names@) == export_names(bytes@),
{
    let engine = Engine::new(&Config::new()).map_err(|error| error.to_string())?;
    let component = Component::new(&engine, bytes).map_err(|error| error.to_string())?;
    let ty = component.component_type();
    let names = ty.exports(&engine).map(|(name, _)| name.to_owned()).collect();
    Ok(names)
}

/// Puts a surface together from what was read of its imports and of its exports.
pub fn surface_of(imports: Result<Vec<String>, String>, exports: Result<Vec<String>, String>) -> (r: Result<
    ContractSurface,
    RuntimeExecutionError,
>)
    ensures
        r == match (imports, exports) {
            (Ok(imports), Ok(exports)) => Ok::<ContractSurface, RuntimeExecutionError>(
                ContractSurface { imports, exports },
            ),
            (Err(message), _) => Err(RuntimeExecutionError::Runtime(ErrorSource { message })),
            (Ok(_), Err(message)) => Err(RuntimeExecutionError::Runtime(ErrorSource { message })),
        },
{
    match imports {
        Err(message) => Err(RuntimeExecutionError::Runtime(ErrorSource { message })),
        Ok(imports) => match exports {
            Err(message) => Err(RuntimeExecutionError::Runtime(ErrorSource { message })),
            Ok(exports) => Ok(ContractSurface { imports, exports }),
        },
    }
}

/// Reads what a component imports and exports from its bytes, where they are a
/// component.
pub fn contract_surface(bytes: &Vec<u8>) -> (r: Result<ContractSurface, RuntimeExecutionError>)
    ensures
        match r {
            Ok(surface) => {
                &&& val::names_model(surface.imports@) == import_names(bytes@)
                &&& val::names_model(surface.exports@) == export_names(bytes@)
            },
            Err(e) => e is Runtime,
        },
{
    surface_of(imports_of(bytes), exports_of(bytes))
}

} // verus!
