//! Mocks for functions, found again by where they are called.
//!
//! A function that can be mocked hands its call on to [`execute_call`], and
//! a function named after it, with the prefix [`MOCK_FN_PREFIX`], registers
//! the callable that stands in for it with [`register_call`]. Both say where
//! they are by the name of the type of a closure written in their body, and
//! from those names both come to one identity, under which the callable is
//! kept in a [`Registry`].

use vstd::prelude::*;

pub mod error;
pub mod location;
pub mod naming;
pub mod registry;
pub mod remarks;
pub mod text;

pub use error::Error;
pub use location::{FunctionLocation, LocationView, TraitInfo};
pub use registry::{found, registered, Lookup, Registered, Registry};

verus! {

/// The prefix of the name of a function that registers a mock.
pub const MOCK_FN_PREFIX: &'static str = "mock_";

/// The type signature of a function, from the names of the type that it
/// takes and of the type that it gives.
pub open spec fn type_signature(input: Seq<char>, output: Seq<char>) -> Seq<char> {
    input + "->"@ + output
}

/// Where a mock is registered, from the closure written in the function that
/// registers it: the normalized location of that function, without the
/// prefix and with the trait's name moved out of the function's name, and
/// with the type signature.
pub open spec fn registration_site(
    locator: Seq<char>,
    input: Seq<char>,
    output: Seq<char>,
) -> Result<LocationView, Error> {
    match location::enclosing_function(locator) {
        None => Err(Error::MalformedLocation),
        Some(location) => match (LocationView { location, trait_info: None }).normalize() {
            Err(e) => Err(e),
            Ok(normal) => match normal.strip_name_prefix("mock_"@) {
                Err(e) => Err(e),
                Ok(stripped) => match stripped.assimilate_trait_prefix() {
                    Err(e) => Err(e),
                    Ok(assimilated) => Ok(assimilated.append_type_signature(input, output)),
                },
            },
        },
    }
}

/// Where a call is executed, from the closure written in the function that
/// is called: the normalized location of that function, with the type
/// signature.
pub open spec fn execution_site(
    locator: Seq<char>,
    input: Seq<char>,
    output: Seq<char>,
) -> Result<LocationView, Error> {
    match location::enclosing_function(locator) {
        None => Err(Error::MalformedLocation),
        Some(location) => match (LocationView { location, trait_info: None }).normalize() {
            Err(e) => Err(e),
            Ok(normal) => Ok(normal.append_type_signature(input, output)),
        },
    }
}

/// The identity under which a mock is registered at `site`: with the trait's
/// name where the site has one.
pub open spec fn registration_id(site: LocationView) -> Seq<char> {
    site.get(TraitInfo::Whatever).unwrap()
}

/// The identity under which a call at `site` looks for its mock: with the
/// trait's name where something is registered so, else without it.
pub open spec fn execution_id<C>(
    entries: Map<Seq<char>, Registered<C>>,
    site: LocationView,
) -> Seq<char> {
    if entries.contains_key(site.get(TraitInfo::Whatever).unwrap()) {
        site.get(TraitInfo::Whatever).unwrap()
    } else {
        site.get(TraitInfo::No).unwrap()
    }
}

/// The type signature as text.
fn signature_of(input: &str, output: &str) -> (r: String)
    ensures
        r@ == type_signature(input@, output@),
{
    let mut r = String::from_str(input);
    r.append("->");
    r.append(output);
    r
}

/// The location at which a mock is registered: see [`registration_site`].
pub fn locate_registration(locator: &str, input: &str, output: &str) -> (r: Result<
    FunctionLocation,
    Error,
>)
    ensures
        match r {
            Ok(site) => registration_site(locator@, input@, output@) == Ok::<LocationView, Error>(
                site@,
            ),
            Err(e) => registration_site(locator@, input@, output@) == Err::<LocationView, Error>(
                e,
            ),
        },
{
    let raw = FunctionLocation::from(locator)?;
    let normal = raw.try_normalize()?;
    let stripped = normal.try_strip_name_prefix(MOCK_FN_PREFIX)?;
    let assimilated = stripped.try_assimilate_trait_prefix()?;
    Ok(assimilated.append_type_signature(input, output))
}

/// The location at which a call is executed: see [`execution_site`].
pub fn locate_execution(locator: &str, input: &str, output: &str) -> (r: Result<
    FunctionLocation,
    Error,
>)
    ensures
        match r {
            Ok(site) => execution_site(locator@, input@, output@) == Ok::<LocationView, Error>(
                site@,
            ),
            Err(e) => execution_site(locator@, input@, output@) == Err::<LocationView, Error>(e),
        },
{
    let raw = FunctionLocation::from(locator)?;
    let normal = raw.try_normalize()?;
    Ok(normal.append_type_signature(input, output))
}

/// Registers `callable` as the mock of the function that the registering
/// function is named after.
///
/// `locator` is the name of the type of a closure written in the registering
/// function; `input` and `output` name the types that the callable takes and
/// gives. The registry is left as it is where the location cannot be
/// derived.
pub fn register_call<C>(
    registry: &mut Registry<C>,
    locator: &str,
    input: &str,
    output: &str,
    callable: C,
) -> (r: Result<(), Error>)
    ensures
        match registration_site(locator@, input@, output@) {
            Ok(site) => r is Ok && final(registry)@ == registered(
                old(registry)@,
                registration_id(site),
                callable,
                type_signature(input@, output@),
            ),
            Err(e) => r == Err::<(), Error>(e) && final(registry)@ == old(registry)@,
        },
{
    let site = locate_registration(locator, input, output)?;
    let id = site.get(TraitInfo::Whatever);
    let descriptor = signature_of(input, output);
    registry.register(id.as_str(), callable, descriptor.as_str());
    Ok(())
}

/// The mock of the function in which the closure was written.
///
/// `locator` is the name of the type of a closure written in the function;
/// `input` and `output` name the types that the function takes and gives.
/// The mock is looked for under the identity with the trait through which
/// the function was reached, and then under the one without.
pub fn find_call<'a, C>(registry: &'a Registry<C>, locator: &str, input: &str, output: &str) -> (r:
    Result<&'a C, Error>)
    ensures
        match execution_site(locator@, input@, output@) {
            Ok(site) => match found(
                registry@,
                execution_id(registry@, site),
                type_signature(input@, output@),
            ) {
                Lookup::Found(callable) => r == Ok::<&C, Error>(&callable),
                Lookup::Unregistered => r matches Err(Error::UnregisteredCall(name)) && name@
                    == site.get(TraitInfo::Whatever).unwrap(),
                Lookup::Mismatch => r matches Err(Error::TypeMismatch),
            },
            Err(e) => r == Err::<&C, Error>(e),
        },
{
    let site = locate_execution(locator, input, output)?;
    let descriptor = signature_of(input, output);
    let with_trait = site.get(TraitInfo::Whatever);
    match registry.find(with_trait.as_str(), descriptor.as_str()) {
        Ok(callable) => Ok(callable),
        Err(Error::UnregisteredCall(name)) => {
            let without_trait = site.get(TraitInfo::No);
            match registry.find(without_trait.as_str(), descriptor.as_str()) {
                Ok(callable) => Ok(callable),
                Err(Error::UnregisteredCall(_)) => Err(Error::UnregisteredCall(name)),
                Err(e) => Err(e),
            }
        },
        Err(e) => Err(e),
    }
}

/// Calls the mock of the function in which the closure was written with
/// `args`, and hands back what the mock returns: see [`find_call`].
pub fn execute_call<A, R, C>(
    registry: &Registry<C>,
    locator: &str,
    input: &str,
    output: &str,
    args: A,
) -> (r: Result<R, Error>) where C: Fn(A) -> R
    requires
        execution_site(locator@, input@, output@) matches Ok(site) ==> (found(
            registry@,
            execution_id(registry@, site),
            type_signature(input@, output@),
        ) matches Lookup::Found(callable) ==> call_requires(callable, (args,))),
    ensures
        match execution_site(locator@, input@, output@) {
            Ok(site) => match found(
                registry@,
                execution_id(registry@, site),
                type_signature(input@, output@),
            ) {
                Lookup::Found(callable) => r matches Ok(value) && call_ensures(
                    callable,
                    (args,),
                    value,
                ),
                Lookup::Unregistered => r matches Err(Error::UnregisteredCall(name)) && name@
                    == site.get(TraitInfo::Whatever).unwrap(),
                Lookup::Mismatch => r matches Err(Error::TypeMismatch),
            },
            Err(e) => r == Err::<R, Error>(e),
        },
{
    match find_call(registry, locator, input, output) {
        Ok(callable) => Ok(callable(args)),
        Err(e) => Err(e),
    }
}

} // verus!
