use mock_builder::{Error, FunctionLocation, TraitInfo};

const PREFIX: &str = "mock_builder::location::tests";

/// The location of the function named by `path`, as a closure written in it
/// gives it.
fn located_in(path: String) -> FunctionLocation {
    FunctionLocation::from(&format!("{path}::{{{{closure}}}}")).unwrap()
}

fn mock_method() -> FunctionLocation {
    located_in(format!("{PREFIX}::Example<{PREFIX}::TestConfig>::mock_method"))
}

#[allow(non_snake_case)]
fn mock_TraitExample_method() -> FunctionLocation {
    located_in(format!("{PREFIX}::Example<{PREFIX}::TestConfig>::mock_TraitExample_method"))
}

#[allow(non_snake_case)]
fn mock_TraitExampleGen_generic() -> FunctionLocation {
    located_in(format!("{PREFIX}::Example<{PREFIX}::TestConfig>::mock_TraitExampleGen_generic"))
}

fn mock_generic_method() -> FunctionLocation {
    located_in(format!("{PREFIX}::Example<{PREFIX}::TestConfig>::mock_generic_method<i8, u8>"))
}

fn method() -> FunctionLocation {
    located_in(format!(
        "<{PREFIX}::Example<{PREFIX}::TestConfig> as {PREFIX}::TraitExample>::method"
    ))
}

fn generic_method() -> FunctionLocation {
    located_in(format!(
        "<{PREFIX}::Example<{PREFIX}::TestConfig> as {PREFIX}::TraitExample>::generic_method<i8, u8>"
    ))
}

fn generic() -> FunctionLocation {
    located_in(format!(
        "<{PREFIX}::Example<{PREFIX}::TestConfig> as {PREFIX}::TraitExampleGen<<{PREFIX}::TestConfig as {PREFIX}::Config>::Assoc, bool>>::generic"
    ))
}

#[test]
fn function_location() {
    assert_eq!(
        mock_method(),
        FunctionLocation::new(
            format!("{PREFIX}::Example<{PREFIX}::TestConfig>::mock_method"),
            None,
        )
    );

    assert_eq!(
        mock_TraitExample_method(),
        FunctionLocation::new(
            format!("{PREFIX}::Example<{PREFIX}::TestConfig>::mock_TraitExample_method"),
            None,
        )
    );

    assert_eq!(
        mock_generic_method(),
        FunctionLocation::new(
            format!("{PREFIX}::Example<{PREFIX}::TestConfig>::mock_generic_method"),
            None,
        )
    );

    assert_eq!(
        method(),
        FunctionLocation::new(
            format!("<{PREFIX}::Example<{PREFIX}::TestConfig> as {PREFIX}::TraitExample>::method"),
            None,
        )
    );

    assert_eq!(
        generic_method(),
        FunctionLocation::new(
            format!("<{PREFIX}::Example<{PREFIX}::TestConfig> as {PREFIX}::TraitExample>::generic_method"),
            None,
        )
    );

    assert_eq!(
        generic(),
        FunctionLocation::new(
            format!(
                "<{PREFIX}::Example<{PREFIX}::TestConfig> as {PREFIX}::TraitExampleGen<<{PREFIX}::TestConfig as {PREFIX}::Config>::Assoc, bool>>::generic"
            ),
            None,
        )
    );
}

#[test]
fn normalized() {
    assert_eq!(
        mock_method().normalize(),
        FunctionLocation::new(
            format!("{PREFIX}::Example<{PREFIX}::TestConfig>::mock_method"),
            None,
        )
    );

    assert_eq!(
        mock_TraitExample_method().normalize(),
        FunctionLocation::new(
            format!("{PREFIX}::Example<{PREFIX}::TestConfig>::mock_TraitExample_method"),
            None,
        )
    );

    assert_eq!(
        method().normalize(),
        FunctionLocation::new(
            format!("{PREFIX}::Example<{PREFIX}::TestConfig>::method"),
            Some("TraitExample".into()),
        )
    );

    assert_eq!(
        generic().normalize(),
        FunctionLocation::new(
            format!("{PREFIX}::Example<{PREFIX}::TestConfig>::generic"),
            Some("TraitExampleGen".into()),
        )
    );
}

#[test]
fn striped_name_prefix() {
    assert_eq!(
        mock_method().strip_name_prefix("mock_"),
        FunctionLocation::new(
            format!("{PREFIX}::Example<{PREFIX}::TestConfig>::method"),
            None,
        )
    );
}

#[test]
fn assimilated_trait_prefix() {
    assert_eq!(
        mock_method()
            .strip_name_prefix("mock_")
            .assimilate_trait_prefix(),
        FunctionLocation::new(
            format!("{PREFIX}::Example<{PREFIX}::TestConfig>::method"),
            None,
        )
    );

    assert_eq!(
        mock_TraitExample_method()
            .strip_name_prefix("mock_")
            .assimilate_trait_prefix(),
        FunctionLocation::new(
            format!("{PREFIX}::Example<{PREFIX}::TestConfig>::method"),
            Some("TraitExample".into()),
        )
    );

    assert_eq!(
        mock_TraitExampleGen_generic()
            .strip_name_prefix("mock_")
            .assimilate_trait_prefix(),
        FunctionLocation::new(
            format!("{PREFIX}::Example<{PREFIX}::TestConfig>::generic"),
            Some("TraitExampleGen".into()),
        )
    );
}

#[test]
fn appended_type_signature() {
    assert_eq!(
        mock_method().append_type_signature("i8", "u8"),
        FunctionLocation::new(
            format!("{PREFIX}::Example<{PREFIX}::TestConfig>::mock_method:i8->u8"),
            None,
        )
    );
}

#[test]
fn from_needs_the_mark_of_a_closure() {
    assert_eq!(FunctionLocation::from("a::b::c"), Err(Error::MalformedLocation));
    assert_eq!(FunctionLocation::from(""), Err(Error::MalformedLocation));
    assert_eq!(
        FunctionLocation::from("::{{closure}}"),
        Ok(FunctionLocation::new(String::new(), None))
    );
}

#[test]
fn from_matches_nested_brackets() {
    assert_eq!(
        FunctionLocation::from("a::f<b::G<u8, c::H<i8>>, (u8, u16)>::{{closure}}"),
        Ok(FunctionLocation::new("a::f".into(), None))
    );
    assert_eq!(
        FunctionLocation::from("a::T<u8>::f<i8>::{{closure}}"),
        Ok(FunctionLocation::new("a::T<u8>::f".into(), None))
    );
}

#[test]
fn from_rejects_a_bracket_that_nothing_opens() {
    assert_eq!(FunctionLocation::from("a::f>::{{closure}}"), Err(Error::MalformedLocation));
    assert_eq!(FunctionLocation::from("a::f<u8>>::{{closure}}"), Err(Error::MalformedLocation));
    // An arrow counts as a closing bracket.
    assert_eq!(
        FunctionLocation::from("a::f<fn() -> u8>::{{closure}}"),
        Err(Error::MalformedLocation)
    );
}

#[test]
fn getters_give_the_parts() {
    let site = FunctionLocation::new("a::B::c".into(), Some("T".into()));
    assert_eq!(site.location(), "a::B::c");
    assert_eq!(site.trait_info(), Some("T"));
    assert_eq!(FunctionLocation::new("a::B::c".into(), None).trait_info(), None);
}

#[test]
fn normalize_cuts_at_the_last_delimiter() {
    assert_eq!(
        FunctionLocation::new("a:::b".into(), None).normalize(),
        FunctionLocation::new("a:::b".into(), None)
    );
    assert_eq!(
        FunctionLocation::new("<x::S as y::T>::m".into(), Some("Old".into())).normalize(),
        FunctionLocation::new("x::S::m".into(), Some("T".into()))
    );
}

#[test]
fn normalize_cuts_at_the_first_marker() {
    // The type may hold ` as` without a blank behind it.
    assert_eq!(
        FunctionLocation::new("<x::S<(u8, asset::Id)> as y::T>::m".into(), None).normalize(),
        FunctionLocation::new("x::S<(u8, asset::Id)>::m".into(), Some("T".into()))
    );
}

#[test]
fn normalize_forgets_a_trait_of_an_own_method() {
    assert_eq!(
        FunctionLocation::new("x::S::m".into(), Some("T".into())).normalize(),
        FunctionLocation::new("x::S::m".into(), None)
    );
}

#[test]
fn normalize_is_idempotent_without_trait() {
    let once = mock_method().normalize();
    assert_eq!(once.clone().normalize(), once);
    let once = mock_generic_method().normalize();
    assert_eq!(once.clone().normalize(), once);
}

#[test]
fn normalize_twice_keeps_the_location() {
    let once = generic().normalize();
    let twice = once.clone().normalize();
    assert_eq!(twice.location(), once.location());
    assert_eq!(once.trait_info(), Some("TraitExampleGen"));
    assert_eq!(twice.trait_info(), None);
}

#[test]
fn try_normalize_names_malformed_locations() {
    for location in [
        "no_delimiter",
        "<x::S>::m",
        "<x::S as y::T::m",
        "<x::S as T>::m",
        "<x::S as T<u8>>::m",
        "",
    ] {
        assert_eq!(
            FunctionLocation::new(location.into(), None).try_normalize(),
            Err(Error::MalformedLocation),
            "{location}"
        );
    }
    assert_eq!(
        FunctionLocation::new("<x::S as y::T<u8>>::m".into(), None).try_normalize(),
        Ok(FunctionLocation::new("x::S::m".into(), Some("T".into())))
    );
}

#[test]
fn strip_name_prefix_keeps_the_trait() {
    assert_eq!(
        FunctionLocation::new("a::mock_b".into(), Some("T".into())).strip_name_prefix("mock_"),
        FunctionLocation::new("a::b".into(), Some("T".into()))
    );
    assert_eq!(
        FunctionLocation::new("a::mock_".into(), None).strip_name_prefix("mock_"),
        FunctionLocation::new("a::".into(), None)
    );
    assert_eq!(
        FunctionLocation::new("a::b".into(), None).strip_name_prefix(""),
        FunctionLocation::new("a::b".into(), None)
    );
}

#[test]
fn try_strip_name_prefix_names_the_missing_prefix() {
    assert_eq!(
        FunctionLocation::new("a::b".into(), None).try_strip_name_prefix("mock_"),
        Err(Error::MissingPrefix)
    );
    assert_eq!(
        FunctionLocation::new("mock_a::b".into(), None).try_strip_name_prefix("mock_"),
        Err(Error::MissingPrefix)
    );
    assert_eq!(
        FunctionLocation::new("mock_b".into(), None).try_strip_name_prefix("mock_"),
        Err(Error::MalformedLocation)
    );
    assert_eq!(
        FunctionLocation::new("a::mock_b".into(), None).try_strip_name_prefix("mock_"),
        Ok(FunctionLocation::new("a::b".into(), None))
    );
}

#[test]
fn split_trait_prefix_goes_by_what_it_is_told() {
    assert_eq!(
        FunctionLocation::new("a::Trait_do_it".into(), None).split_trait_prefix(true),
        FunctionLocation::new("a::do_it".into(), Some("Trait".into()))
    );
    assert_eq!(
        FunctionLocation::new("a::Trait_do_it".into(), Some("Old".into()))
            .split_trait_prefix(false),
        FunctionLocation::new("a::Trait_do_it".into(), None)
    );
    assert_eq!(
        FunctionLocation::new("a::lower_case".into(), None).split_trait_prefix(true),
        FunctionLocation::new("a::case".into(), Some("lower".into()))
    );
}

#[test]
fn assimilate_trait_prefix_goes_by_the_first_character() {
    assert_eq!(
        FunctionLocation::new("a::Trait_do_it".into(), None).assimilate_trait_prefix(),
        FunctionLocation::new("a::do_it".into(), Some("Trait".into()))
    );
    assert_eq!(
        FunctionLocation::new("a::do_it".into(), Some("Old".into())).assimilate_trait_prefix(),
        FunctionLocation::new("a::do_it".into(), None)
    );
    assert_eq!(
        FunctionLocation::new("a::Ärger_los".into(), None).assimilate_trait_prefix(),
        FunctionLocation::new("a::los".into(), Some("Ärger".into()))
    );
    assert_eq!(
        FunctionLocation::new("a::_Trait_x".into(), None).assimilate_trait_prefix(),
        FunctionLocation::new("a::_Trait_x".into(), None)
    );
}

#[test]
fn try_assimilate_trait_prefix_names_malformed_names() {
    assert_eq!(
        FunctionLocation::new("a::Trait".into(), None).try_assimilate_trait_prefix(),
        Err(Error::MalformedLocation)
    );
    assert_eq!(
        FunctionLocation::new("a::".into(), None).try_assimilate_trait_prefix(),
        Err(Error::MalformedLocation)
    );
    assert_eq!(
        FunctionLocation::new("Trait_x".into(), None).try_assimilate_trait_prefix(),
        Err(Error::MalformedLocation)
    );
    assert_eq!(
        FunctionLocation::new("a::Trait_x".into(), None).try_assimilate_trait_prefix(),
        Ok(FunctionLocation::new("a::x".into(), Some("Trait".into())))
    );
}

#[test]
fn registering_function_meets_the_method() {
    assert_eq!(
        mock_TraitExample_method()
            .strip_name_prefix("mock_")
            .assimilate_trait_prefix(),
        method().normalize()
    );
    assert_eq!(
        mock_TraitExampleGen_generic()
            .strip_name_prefix("mock_")
            .assimilate_trait_prefix(),
        generic().normalize()
    );
}

#[test]
fn get_joins_location_and_trait() {
    let with_trait = FunctionLocation::new("a::b".into(), Some("T".into()));
    let without = FunctionLocation::new("a::b".into(), None);
    assert_eq!(with_trait.get(TraitInfo::Yes), "a::b,trait=T");
    assert_eq!(with_trait.get(TraitInfo::No), "a::b,trait=");
    assert_eq!(with_trait.get(TraitInfo::Whatever), "a::b,trait=T");
    assert_eq!(without.get(TraitInfo::No), "a::b,trait=");
    assert_eq!(without.get(TraitInfo::Whatever), "a::b,trait=");
}

#[test]
fn try_get_names_the_missing_trait() {
    let without = FunctionLocation::new("a::b".into(), None);
    assert_eq!(without.try_get(TraitInfo::Yes), Err(Error::MissingTraitInfo));
    assert_eq!(without.try_get(TraitInfo::No), Ok("a::b,trait=".to_string()));
    assert_eq!(without.try_get(TraitInfo::Whatever), Ok("a::b,trait=".to_string()));
    let with_trait = FunctionLocation::new("a::b".into(), Some("T".into()));
    assert_eq!(with_trait.try_get(TraitInfo::Yes), Ok("a::b,trait=T".to_string()));
}

#[test]
fn traits_have_identities_of_their_own() {
    let of_a = FunctionLocation::new("p::S::same_name".into(), Some("TraitA".into()));
    let of_b = FunctionLocation::new("p::S::same_name".into(), Some("TraitB".into()));
    assert_ne!(of_a.get(TraitInfo::Yes), of_b.get(TraitInfo::Yes));
    assert_eq!(of_a.get(TraitInfo::No), of_b.get(TraitInfo::No));
}

#[test]
fn signatures_have_identities_of_their_own() {
    let site = FunctionLocation::new("p::S::generic".into(), None);
    let small = site.clone().append_type_signature("(i8, u8)", "usize");
    let large = site.append_type_signature("(i16, u16)", "usize");
    assert_eq!(small.get(TraitInfo::Whatever), "p::S::generic:(i8, u8)->usize,trait=");
    assert_ne!(small.get(TraitInfo::Whatever), large.get(TraitInfo::Whatever));
}
