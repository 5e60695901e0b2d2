//! What holds of locations that are named as the compiler and the convention
//! for registering functions name them.

use vstd::prelude::*;
use crate::error::Error;
use crate::registry::{found, registered, Lookup, Registered};
use crate::{execution_id, execution_site, registration_id, registration_site, type_signature};
use crate::location::{
    bracket_balance, enclosing_function, is_uppercase, lemma_balance_step,
    lemma_opens_last_bracket_unique, trait_name, LocationView, TraitInfo,
};
use crate::text::{
    begins_with, is_first_at, is_last_at, lemma_first_exists, lemma_first_of_char,
    lemma_no_occurrence_without_char, lemma_occurs_at_chars, lemma_split_first_of_join,
    lemma_split_last_of_join, lemma_split_last_parts, occurs_at, split_first, split_last,
    without_prefix, without_suffix,
};

verus! {

/// A character stands in a joined text just when it stands in one of the two
/// parts.
pub proof fn lemma_contains_in_join(a: Seq<char>, b: Seq<char>, c: char)
    ensures
        (a + b).contains(c) <==> a.contains(c) || b.contains(c),
{
    if (a + b).contains(c) {
        let i = choose|i: int| 0 <= i < (a + b).len() && (a + b)[i] == c;
        if i < a.len() {
            assert(a[i] == c);
        } else {
            assert(b[i - a.len()] == c);
        }
    }
    if a.contains(c) {
        let i = choose|i: int| 0 <= i < a.len() && a[i] == c;
        assert((a + b)[i] == c);
    }
    if b.contains(c) {
        let i = choose|i: int| 0 <= i < b.len() && b[i] == c;
        assert((a + b)[a.len() + i] == c);
    }
}

/// Before a name without a colon, the scope delimiter stands for the last
/// time.
pub proof fn lemma_scope_before_name(name: Seq<char>)
    requires
        !name.contains(':'),
    ensures
        is_last_at("::"@ + name, "::"@, 0),
{
    reveal_strlit("::");
    let s = "::"@ + name;
    lemma_occurs_at_chars(s, "::"@, 0);
    assert forall|j: int| 0 < j implies !occurs_at(s, "::"@, j) by {
        if occurs_at(s, "::"@, j) {
            lemma_occurs_at_chars(s, "::"@, j);
            assert(s[j + 1] == "::"@[1]);
            assert(name[j - 1] == ':');
        }
    }
}

/// A path and a name without a colon, joined by the scope delimiter, are cut
/// apart again at the last delimiter.
pub proof fn lemma_scoped_name(path: Seq<char>, name: Seq<char>)
    requires
        !name.contains(':'),
    ensures
        split_last(path + "::"@ + name, "::"@) == Some((path, name)),
{
    lemma_scope_before_name(name);
    lemma_split_last_of_join(path, "::"@, name);
}

/// A path that does not open with a bracket, joined to a name before which
/// the scope delimiter stands for the last time, is normalized to itself.
proof fn lemma_normalize_unbracketed(path: Seq<char>, name: Seq<char>, info: Option<Seq<char>>)
    requires
        is_last_at("::"@ + name, "::"@, 0),
        !begins_with(path + "::"@ + name, "<"@),
    ensures
        (LocationView { location: path + "::"@ + name, trait_info: info }).normalize() == Ok::<
            LocationView,
            Error,
        >(LocationView { location: path + "::"@ + name, trait_info: None }),
{
    reveal_strlit("<");
    let location = path + "::"@ + name;
    lemma_split_last_of_join(path, "::"@, name);
    if begins_with(path, "<"@) {
        lemma_occurs_at_chars(path, "<"@, 0);
        lemma_occurs_at_chars(location, "<"@, 0);
        assert(location[0] == path[0]);
    }
}

/// A location whose path does not open with a bracket is normalized to
/// itself, without a trait: so are the functions of a type's own `impl`.
pub proof fn lemma_normalize_inherent(site: LocationView)
    requires
        site.normalize() is Ok,
        !begins_with(site.location, "<"@),
    ensures
        site.normalize() == Ok::<LocationView, Error>(
            LocationView { location: site.location, trait_info: None },
        ),
{
    lemma_split_last_parts(site.location, "::"@);
    let (path, name) = split_last(site.location, "::"@).unwrap();
    lemma_normalize_unbracketed(path, name, site.trait_info);
}

/// A location that opens with a bracket is normalized to one with a trait.
pub proof fn lemma_normalize_bracketed(site: LocationView)
    requires
        site.normalize() is Ok,
        begins_with(site.location, "<"@),
    ensures
        site.normalize().unwrap().trait_info is Some,
{
    reveal_strlit("<");
    reveal_strlit("::");
    lemma_split_last_parts(site.location, "::"@);
    let (path, name) = split_last(site.location, "::"@).unwrap();
    lemma_occurs_at_chars(site.location, "<"@, 0);
    assert(site.location[0] == '<');
    if path.len() == 0 {
        assert(site.location[0] == "::"@[0]);
    } else {
        lemma_occurs_at_chars(path, "<"@, 0);
        assert(site.location[0] == path[0]);
    }
}

/// The name of the trait that normalizing gives holds no opening bracket:
/// the trait's generic arguments are not part of it.
pub proof fn lemma_normalize_strips_generics(site: LocationView)
    requires
        site.normalize() is Ok,
    ensures
        site.normalize().unwrap().trait_info matches Some(name) ==> !name.contains('<'),
{
    reveal_strlit("<");
    reveal_strlit(">");
    let (path, _) = split_last(site.location, "::"@).unwrap();
    if without_prefix(path, "<"@) is Some {
        let bracketed = without_prefix(path, "<"@).unwrap();
        let (_, after_as) = split_first(bracketed, " as "@).unwrap();
        let closed = without_suffix(after_as, ">"@).unwrap();
        let bare = match split_first(after_as, "<"@) {
            Some((before, _)) => before,
            None => closed,
        };
        if split_first(after_as, "<"@) is Some {
            lemma_first_exists(after_as, "<"@);
        }
        assert(bare.len() < after_as.len());
        assert forall|j: int| 0 <= j < bare.len() implies bare[j] != '<' by {
            assert(bare[j] == after_as[j]);
            lemma_occurs_at_chars(after_as, "<"@, j);
            assert(!occurs_at(after_as, "<"@, j));
            assert("<"@[0] == '<');
        }
        lemma_split_last_parts(bare, "::"@);
        let (module, name) = split_last(bare, "::"@).unwrap();
        if name.contains('<') {
            let j = choose|j: int| 0 <= j < name.len() && name[j] == '<';
            assert(bare[module.len() + "::"@.len() + j] == name[j]);
        }
    }
}

/// Normalizing is idempotent on the locations that it gives no trait: what
/// it makes of such a location it leaves as it is.
pub proof fn lemma_normalize_idempotent(site: LocationView)
    requires
        site.normalize() is Ok,
        site.normalize().unwrap().trait_info is None,
    ensures
        site.normalize().unwrap().normalize() == site.normalize(),
{
    if begins_with(site.location, "<"@) {
        lemma_normalize_bracketed(site);
    } else {
        lemma_normalize_inherent(site);
    }
}

/// Normalizing a second time keeps the location, and only forgets the trait,
/// where the normalized location does not itself open with a bracket.
pub proof fn lemma_normalize_keeps_location(site: LocationView)
    requires
        site.normalize() is Ok,
        !begins_with(site.normalize().unwrap().location, "<"@),
    ensures
        site.normalize().unwrap().normalize() == Ok::<LocationView, Error>(
            LocationView { location: site.normalize().unwrap().location, trait_info: None },
        ),
{
    let normal = site.normalize().unwrap();
    lemma_split_last_parts(site.location, "::"@);
    let (path, name) = split_last(site.location, "::"@).unwrap();
    if without_prefix(path, "<"@) is None {
        lemma_normalize_unbracketed(path, name, normal.trait_info);
    } else {
        let bracketed = without_prefix(path, "<"@).unwrap();
        let (struct_path, trait_path) = split_first(bracketed, " as "@).unwrap();
        lemma_normalize_unbracketed(struct_path, name, normal.trait_info);
    }
}

/// The path of a trait as it stands in a bracketed path: the module, the
/// trait's name and, between brackets, its generic arguments if it has any.
pub open spec fn trait_path(
    module: Seq<char>,
    name_of_trait: Seq<char>,
    arguments: Option<Seq<char>>,
) -> Seq<char> {
    match arguments {
        Some(list) => module + "::"@ + name_of_trait + "<"@ + list + ">"@,
        None => module + "::"@ + name_of_trait,
    }
}

/// The location of a method that is reached through a trait:
/// `<Type as module::Trait<arguments>>::method`.
pub open spec fn trait_method(
    struct_path: Seq<char>,
    module: Seq<char>,
    name_of_trait: Seq<char>,
    arguments: Option<Seq<char>>,
    method: Seq<char>,
) -> Seq<char> {
    "<"@ + struct_path + " as "@ + trait_path(module, name_of_trait, arguments) + ">"@ + "::"@
        + method
}

/// The location of the function that registers a mock for a method of a
/// trait: `Type::prefixTrait_method`.
pub open spec fn registering_function(
    struct_path: Seq<char>,
    prefix: Seq<char>,
    name_of_trait: Seq<char>,
    method: Seq<char>,
) -> Seq<char> {
    struct_path + "::"@ + (prefix + name_of_trait + "_"@ + method)
}

/// The name of a trait is read from the trait's path, with or without generic
/// arguments, where neither the module nor the name holds a bracket and the
/// name holds no colon.
pub proof fn lemma_trait_name_of_path(
    module: Seq<char>,
    name_of_trait: Seq<char>,
    arguments: Option<Seq<char>>,
)
    requires
        !module.contains('<'),
        !name_of_trait.contains('<'),
        !name_of_trait.contains(':'),
    ensures
        trait_name(trait_path(module, name_of_trait, arguments) + ">"@) == Some(name_of_trait),
{
    reveal_strlit("<");
    reveal_strlit(">");
    reveal_strlit("::");
    let bare = module + "::"@ + name_of_trait;
    let full = trait_path(module, name_of_trait, arguments);
    let closed = full + ">"@;
    lemma_occurs_at_chars(closed, ">"@, closed.len() - 1);
    assert(closed.take(closed.len() - 1) =~= full);
    assert(without_suffix(closed, ">"@) == Some(full));
    lemma_contains_in_join(module, "::"@, '<');
    lemma_contains_in_join(module + "::"@, name_of_trait, '<');
    assert(!"::"@.contains('<'));
    assert(!bare.contains('<'));
    assert("<"@ =~= seq!['<']);
    match arguments {
        Some(list) => {
            lemma_first_of_char(bare, '<');
            lemma_split_first_of_join(bare, "<"@, list + ">"@ + ">"@);
            assert(closed =~= bare + "<"@ + (list + ">"@ + ">"@));
        },
        None => {
            lemma_contains_in_join(bare, ">"@, '<');
            assert(!">"@.contains('<'));
            lemma_no_occurrence_without_char(closed, "<"@);
        },
    }
    lemma_scoped_name(module, name_of_trait);
}

/// A method that is reached through a trait is normalized to the method of
/// the type, with the trait's name and without the trait's generic arguments.
///
/// The marker ` as ` must stand in `Type as ` for the first time where the
/// type ends; module and trait name hold no bracket; trait name and method
/// hold no colon.
pub proof fn lemma_normalize_trait_method(
    struct_path: Seq<char>,
    module: Seq<char>,
    name_of_trait: Seq<char>,
    arguments: Option<Seq<char>>,
    method: Seq<char>,
)
    requires
        is_first_at(struct_path + " as "@, " as "@, struct_path.len() as int),
        !module.contains('<'),
        !name_of_trait.contains('<'),
        !name_of_trait.contains(':'),
        !method.contains(':'),
    ensures
        (LocationView {
            location: trait_method(struct_path, module, name_of_trait, arguments, method),
            trait_info: None,
        }).normalize() == Ok::<LocationView, Error>(
            LocationView { location: struct_path + "::"@ + method, trait_info: Some(name_of_trait) },
        ),
{
    reveal_strlit("<");
    let location = trait_method(struct_path, module, name_of_trait, arguments, method);
    let after_as = trait_path(module, name_of_trait, arguments) + ">"@;
    let bracketed = struct_path + " as "@ + after_as;
    let path = "<"@ + bracketed;
    assert(location =~= path + "::"@ + method);
    lemma_scoped_name(path, method);
    lemma_occurs_at_chars(path, "<"@, 0);
    assert(path.skip(1) =~= bracketed);
    assert(without_prefix(path, "<"@) == Some(bracketed));
    lemma_split_first_of_join(struct_path, " as "@, after_as);
    lemma_trait_name_of_path(module, name_of_trait, arguments);
}

/// The function that registers a mock for a method of a trait and the method
/// itself come to the same location and the same trait.
///
/// With the prefix taken off and the trait's name moved out of the name,
/// `Type::prefixTrait_method` is what `<Type as module::Trait<..>>::method`
/// is normalized to. The trait's name begins with an uppercase character and
/// holds no underscore, bracket or colon; prefix and method hold no colon;
/// the module holds no bracket; the marker ` as ` stands in `Type as ` for the
/// first time where the type ends.
pub proof fn lemma_registering_function_meets_method(
    struct_path: Seq<char>,
    prefix: Seq<char>,
    module: Seq<char>,
    name_of_trait: Seq<char>,
    arguments: Option<Seq<char>>,
    method: Seq<char>,
)
    requires
        is_first_at(struct_path + " as "@, " as "@, struct_path.len() as int),
        !prefix.contains(':'),
        !module.contains('<'),
        name_of_trait.len() > 0,
        is_uppercase(name_of_trait[0]),
        !name_of_trait.contains('_'),
        !name_of_trait.contains('<'),
        !name_of_trait.contains(':'),
        !method.contains(':'),
    ensures
        ({
            let registering = LocationView {
                location: registering_function(struct_path, prefix, name_of_trait, method),
                trait_info: None,
            };
            let called = LocationView {
                location: trait_method(struct_path, module, name_of_trait, arguments, method),
                trait_info: None,
            };
            &&& called.normalize() is Ok
            &&& registering.strip_name_prefix(prefix) is Ok
            &&& registering.strip_name_prefix(prefix).unwrap().assimilate_trait_prefix()
                == called.normalize()
        }),
{
    reveal_strlit("_");
    lemma_normalize_trait_method(struct_path, module, name_of_trait, arguments, method);
    let marked = name_of_trait + "_"@ + method;
    let name = prefix + name_of_trait + "_"@ + method;
    assert(!"_"@.contains(':'));
    lemma_contains_in_join(name_of_trait, "_"@, ':');
    lemma_contains_in_join(name_of_trait + "_"@, method, ':');
    lemma_contains_in_join(prefix, marked, ':');
    assert(name =~= prefix + marked);
    lemma_scoped_name(struct_path, name);
    lemma_occurs_at_chars(name, prefix, 0);
    assert(name.skip(prefix.len() as int) =~= marked);
    assert(without_prefix(name, prefix) == Some(marked));
    lemma_scoped_name(struct_path, marked);
    assert(marked[0] == name_of_trait[0]);
    assert("_"@ =~= seq!['_']);
    lemma_first_of_char(name_of_trait, '_');
    lemma_split_first_of_join(name_of_trait, "_"@, method);
}

/// The text that separates the location from the trait's name holds a comma
/// at its front and nowhere else.
proof fn lemma_trait_tag()
    ensures
        ",trait="@.len() == 7,
        ",trait="@[0] == ',',
        forall|k: int| 1 <= k < 7 ==> ",trait="@[k] != ',',
{
    reveal_strlit(",trait=");
}

/// The name of the trait that takes part in an identity: none is an empty
/// one.
pub open spec fn name_in_identity(site: LocationView, mode: TraitInfo) -> Seq<char> {
    match (mode, site.trait_info) {
        (TraitInfo::No, _) => Seq::empty(),
        (_, Some(name)) => name,
        (_, None) => Seq::empty(),
    }
}

/// Two locations with one identity are one location, and the names of their
/// traits that took part in the identity are one name, where no such name
/// holds a comma.
///
/// So two traits with a method of one name on one type have two identities
/// when the trait's name is asked for.
pub proof fn lemma_identity_tells_sites_apart(a: LocationView, b: LocationView, mode: TraitInfo)
    requires
        a.get(mode) is Ok,
        a.get(mode) == b.get(mode),
        !name_in_identity(a, mode).contains(','),
        !name_in_identity(b, mode).contains(','),
    ensures
        a.location == b.location,
        name_in_identity(a, mode) == name_in_identity(b, mode),
{
    lemma_trait_tag();
    let tag = ",trait="@;
    let name_a = name_in_identity(a, mode);
    let name_b = name_in_identity(b, mode);
    let id = a.get(mode).unwrap();
    assert(id =~= a.location + tag + name_a);
    assert(id =~= b.location + tag + name_b);
    let at_a = a.location.len() as int;
    let at_b = b.location.len() as int;
    assert(id[at_a] == tag[0]);
    assert(id[at_b] == tag[0]);
    if at_a < at_b {
        if at_b < at_a + 7 {
            assert(id[at_b] == tag[at_b - at_a]);
        } else {
            assert(id[at_b] == name_a[at_b - at_a - 7]);
        }
    }
    if at_b < at_a {
        if at_a < at_b + 7 {
            assert(id[at_a] == tag[at_a - at_b]);
        } else {
            assert(id[at_a] == name_b[at_a - at_b - 7]);
        }
    }
    assert(a.location =~= id.take(at_a));
    assert(b.location =~= id.take(at_b));
    assert(name_a =~= id.skip(at_a + 7));
    assert(name_b =~= id.skip(at_b + 7));
}

/// The instances of one function with two type signatures have two
/// identities, whatever the mode.
pub proof fn lemma_signature_tells_instances_apart(
    site: LocationView,
    mode: TraitInfo,
    input: Seq<char>,
    output: Seq<char>,
    other_input: Seq<char>,
    other_output: Seq<char>,
)
    requires
        site.get(mode) is Ok,
        input + "->"@ + output != other_input + "->"@ + other_output,
    ensures
        site.append_type_signature(input, output).get(mode) is Ok,
        site.append_type_signature(input, output).get(mode) != site.append_type_signature(
            other_input,
            other_output,
        ).get(mode),
{
    let one = site.append_type_signature(input, output);
    let other = site.append_type_signature(other_input, other_output);
    let signature = input + "->"@ + output;
    let other_signature = other_input + "->"@ + other_output;
    let front = site.location + ":"@;
    let back = ",trait="@ + name_in_identity(site, mode);
    let id = one.get(mode).unwrap();
    let other_id = other.get(mode).unwrap();
    assert(id =~= front + signature + back);
    assert(other_id =~= front + other_signature + back);
    if id == other_id {
        assert(signature.len() == other_signature.len());
        let from = front.len() as int;
        let to = from + signature.len();
        assert(signature =~= id.subrange(from, to));
        assert(other_signature =~= other_id.subrange(from, to));
    }
}

/// The closure that is written in a function without generic arguments is
/// located in that function.
pub proof fn lemma_closure_in_function(location: Seq<char>)
    requires
        location.len() > 0 ==> location.last() != '>',
    ensures
        enclosing_function(location + "::{{closure}}"@) == Some(location),
{
    let name = location + "::{{closure}}"@;
    let mark = "::{{closure}}"@;
    assert(name.subrange(name.len() - mark.len(), name.len() as int) =~= mark);
    assert(name.take(name.len() - mark.len()) =~= location);
}

/// The closure that is written in an instance of a generic function is
/// located in the function, without the generic arguments, where the
/// arguments hold no brackets of their own.
pub proof fn lemma_closure_in_generic_function(location: Seq<char>, arguments: Seq<char>)
    requires
        !arguments.contains('<'),
        !arguments.contains('>'),
    ensures
        enclosing_function(location + "<"@ + arguments + ">"@ + "::{{closure}}"@) == Some(
            location,
        ),
{
    reveal_strlit("<");
    reveal_strlit(">");
    let instance = location + "<"@ + arguments + ">"@;
    let name = instance + "::{{closure}}"@;
    let mark = "::{{closure}}"@;
    assert(name.subrange(name.len() - mark.len(), name.len() as int) =~= mark);
    assert(name.take(name.len() - mark.len()) =~= instance);
    let open = location.len() as int;
    let close = instance.len() - 1;
    assert forall|j: int| open < j <= close implies bracket_balance(instance.skip(j)) == 1 by {
        lemma_balance_of_tail(instance, arguments, open + 1, j);
    }
    lemma_balance_step(instance, open);
    lemma_opens_last_bracket_unique(instance, open);
    assert(instance.take(open) =~= location);
}

/// Within generic arguments without brackets, and up to the bracket that
/// closes them, one closing bracket is left open.
proof fn lemma_balance_of_tail(instance: Seq<char>, arguments: Seq<char>, from: int, j: int)
    requires
        !arguments.contains('<'),
        !arguments.contains('>'),
        0 <= from <= j < instance.len(),
        instance.len() == from + arguments.len() + 1,
        instance.last() == '>',
        forall|k: int| 0 <= k < arguments.len() ==> instance[from + k] == arguments[k],
    ensures
        bracket_balance(instance.skip(j)) == 1,
    decreases instance.len() - j,
{
    lemma_balance_step(instance, j);
    if j == instance.len() - 1 {
        assert(instance.skip(j + 1) =~= Seq::<char>::empty());
    } else {
        assert(instance[j] == arguments[j - from]);
        assert(arguments.contains(arguments[j - from]));
        lemma_balance_of_tail(instance, arguments, from, j + 1);
    }
}

/// The mock that `Type::mock_Trait_method` registers is the one that a call
/// of `<Type as module::Trait<..>>::method` finds and executes.
///
/// Both are located by a closure written in their body, and both take and
/// give the same types. The names are as in
/// [`lemma_registering_function_meets_method`]; besides, the path of the type
/// does not open with a bracket and the method's name holds no closing one.
pub proof fn lemma_mock_of_trait_method_is_found<C>(
    entries: Map<Seq<char>, Registered<C>>,
    struct_path: Seq<char>,
    module: Seq<char>,
    name_of_trait: Seq<char>,
    arguments: Option<Seq<char>>,
    method: Seq<char>,
    input: Seq<char>,
    output: Seq<char>,
    callable: C,
)
    requires
        !begins_with(struct_path, "<"@),
        is_first_at(struct_path + " as "@, " as "@, struct_path.len() as int),
        !module.contains('<'),
        name_of_trait.len() > 0,
        is_uppercase(name_of_trait[0]),
        !name_of_trait.contains('_'),
        !name_of_trait.contains('<'),
        !name_of_trait.contains(':'),
        !method.contains(':'),
        !method.contains('>'),
    ensures
        ({
            let registering = registration_site(
                registering_function(struct_path, "mock_"@, name_of_trait, method)
                    + "::{{closure}}"@,
                input,
                output,
            );
            let called = execution_site(
                trait_method(struct_path, module, name_of_trait, arguments, method)
                    + "::{{closure}}"@,
                input,
                output,
            );
            let after = registered(
                entries,
                registration_id(registering.unwrap()),
                callable,
                type_signature(input, output),
            );
            &&& registering is Ok
            &&& called == registering
            &&& found(after, execution_id(after, called.unwrap()), type_signature(input, output))
                == Lookup::Found(callable)
        }),
{
    reveal_strlit("mock_");
    reveal_strlit("::");
    reveal_strlit("_");
    reveal_strlit("<");
    let prefix = "mock_"@;
    let name = prefix + name_of_trait + "_"@ + method;
    let place = registering_function(struct_path, prefix, name_of_trait, method);
    let call = trait_method(struct_path, module, name_of_trait, arguments, method);
    assert(place.last() != '>') by {
        if method.len() > 0 {
            assert(place.last() == method.last());
            assert(method.contains(method.last()));
        } else {
            assert(place.last() == '_');
        }
    }
    assert(call.last() != '>') by {
        if method.len() > 0 {
            assert(call.last() == method.last());
            assert(method.contains(method.last()));
        } else {
            assert(call.last() == ':');
        }
    }
    lemma_closure_in_function(place);
    lemma_closure_in_function(call);
    lemma_registering_function_meets_method(
        struct_path,
        prefix,
        module,
        name_of_trait,
        arguments,
        method,
    );
    assert(!name.contains(':')) by {
        assert(!"_"@.contains(':'));
        lemma_contains_in_join(prefix, name_of_trait, ':');
        lemma_contains_in_join(prefix + name_of_trait, "_"@, ':');
        lemma_contains_in_join(prefix + name_of_trait + "_"@, method, ':');
    }
    lemma_scope_before_name(name);
    lemma_unbracketed_join(struct_path, name);
    lemma_normalize_unbracketed(struct_path, name, None);
}

/// The location of the function that registers a mock for a method of no
/// particular trait: `Type::prefixmethod`.
pub open spec fn plain_registering_function(
    struct_path: Seq<char>,
    prefix: Seq<char>,
    method: Seq<char>,
) -> Seq<char> {
    struct_path + "::"@ + (prefix + method)
}

/// Where `Type::mock_method` registers its mock: at `Type::method` with the
/// type signature and without a trait, where the method's name does not
/// begin with an uppercase character.
pub proof fn lemma_plain_registration_site(
    struct_path: Seq<char>,
    method: Seq<char>,
    input: Seq<char>,
    output: Seq<char>,
)
    requires
        !begins_with(struct_path, "<"@),
        method.len() > 0,
        !is_uppercase(method[0]),
        !method.contains(':'),
        !method.contains('>'),
    ensures
        registration_site(
            plain_registering_function(struct_path, "mock_"@, method) + "::{{closure}}"@,
            input,
            output,
        ) == Ok::<LocationView, Error>(
            (LocationView {
                location: struct_path + "::"@ + method,
                trait_info: None,
            }).append_type_signature(input, output),
        ),
{
    reveal_strlit("mock_");
    reveal_strlit("::");
    reveal_strlit("<");
    let prefix = "mock_"@;
    let name = prefix + method;
    let place = plain_registering_function(struct_path, prefix, method);
    assert(place.last() == method.last());
    assert(method.contains(method.last()));
    lemma_closure_in_function(place);
    lemma_contains_in_join(prefix, method, ':');
    lemma_scope_before_name(name);
    lemma_unbracketed_join(struct_path, name);
    lemma_normalize_unbracketed(struct_path, name, None);
    lemma_scoped_name(struct_path, name);
    lemma_occurs_at_chars(name, prefix, 0);
    assert(name.skip(prefix.len() as int) =~= method);
    assert(without_prefix(name, prefix) == Some(method));
    lemma_scoped_name(struct_path, method);
}

/// A path that does not open with a bracket does not do so with a scope
/// delimiter and a name behind it either.
proof fn lemma_unbracketed_join(path: Seq<char>, name: Seq<char>)
    requires
        !begins_with(path, "<"@),
    ensures
        !begins_with(path + "::"@ + name, "<"@),
{
    reveal_strlit("::");
    reveal_strlit("<");
    let joined = path + "::"@ + name;
    if begins_with(joined, "<"@) {
        lemma_occurs_at_chars(joined, "<"@, 0);
        assert(joined[0] == "<"@[0]);
        if path.len() > 0 {
            lemma_occurs_at_chars(path, "<"@, 0);
            assert(joined[0] == path[0]);
            assert forall|k: int| 0 <= k < "<"@.len() implies path[0 + k] == "<"@[k] by {}
        } else {
            assert(joined[0] == "::"@[0]);
        }
    }
}

/// The mock that `Type::mock_method` registers is the one that a call of the
/// type's own `Type::method` finds and executes.
pub proof fn lemma_mock_of_own_method_is_found<C>(
    entries: Map<Seq<char>, Registered<C>>,
    struct_path: Seq<char>,
    method: Seq<char>,
    input: Seq<char>,
    output: Seq<char>,
    callable: C,
)
    requires
        !begins_with(struct_path, "<"@),
        method.len() > 0,
        !is_uppercase(method[0]),
        !method.contains(':'),
        !method.contains('>'),
    ensures
        ({
            let registering = registration_site(
                plain_registering_function(struct_path, "mock_"@, method) + "::{{closure}}"@,
                input,
                output,
            );
            let called = execution_site(
                struct_path + "::"@ + method + "::{{closure}}"@,
                input,
                output,
            );
            let after = registered(
                entries,
                registration_id(registering.unwrap()),
                callable,
                type_signature(input, output),
            );
            &&& registering is Ok
            &&& called == registering
            &&& found(after, execution_id(after, called.unwrap()), type_signature(input, output))
                == Lookup::Found(callable)
        }),
{
    lemma_plain_registration_site(struct_path, method, input, output);
    let call = struct_path + "::"@ + method;
    assert(call.last() == method.last());
    assert(method.contains(method.last()));
    lemma_closure_in_function(call);
    lemma_scope_before_name(method);
    lemma_unbracketed_join(struct_path, method);
    lemma_normalize_unbracketed(struct_path, method, None);
}

/// The mock that `Type::mock_method` registers is also the one that a call of
/// `<Type as module::Trait<..>>::method` finds and executes, where nothing is
/// registered for the method of that trait in particular.
pub proof fn lemma_mock_of_method_serves_trait<C>(
    entries: Map<Seq<char>, Registered<C>>,
    struct_path: Seq<char>,
    module: Seq<char>,
    name_of_trait: Seq<char>,
    arguments: Option<Seq<char>>,
    method: Seq<char>,
    input: Seq<char>,
    output: Seq<char>,
    callable: C,
)
    requires
        !begins_with(struct_path, "<"@),
        is_first_at(struct_path + " as "@, " as "@, struct_path.len() as int),
        !module.contains('<'),
        name_of_trait.len() > 0,
        !name_of_trait.contains('<'),
        !name_of_trait.contains(':'),
        method.len() > 0,
        !is_uppercase(method[0]),
        !method.contains(':'),
        !method.contains('>'),
        !entries.contains_key(
            (LocationView {
                location: struct_path + "::"@ + method,
                trait_info: Some(name_of_trait),
            }).append_type_signature(input, output).get(TraitInfo::Whatever).unwrap(),
        ),
    ensures
        ({
            let registering = registration_site(
                plain_registering_function(struct_path, "mock_"@, method) + "::{{closure}}"@,
                input,
                output,
            );
            let called = execution_site(
                trait_method(struct_path, module, name_of_trait, arguments, method)
                    + "::{{closure}}"@,
                input,
                output,
            );
            let after = registered(
                entries,
                registration_id(registering.unwrap()),
                callable,
                type_signature(input, output),
            );
            &&& registering is Ok
            &&& called is Ok
            &&& found(after, execution_id(after, called.unwrap()), type_signature(input, output))
                == Lookup::Found(callable)
        }),
{
    lemma_plain_registration_site(struct_path, method, input, output);
    let call = trait_method(struct_path, module, name_of_trait, arguments, method);
    assert(call.last() == method.last());
    assert(method.contains(method.last()));
    lemma_closure_in_function(call);
    lemma_normalize_trait_method(struct_path, module, name_of_trait, arguments, method);
    let site = (LocationView {
        location: struct_path + "::"@ + method,
        trait_info: Some(name_of_trait),
    }).append_type_signature(input, output);
    let with_trait = site.get(TraitInfo::Whatever).unwrap();
    let without_trait = site.get(TraitInfo::No).unwrap();
    assert(with_trait.len() == without_trait.len() + name_of_trait.len());
}

} // verus!
