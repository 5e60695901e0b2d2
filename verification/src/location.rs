//! The identity of a function, derived from where a closure was written.

use vstd::prelude::*;
use vstd::pervasive::unreached;
use vstd::string::{StrSliceExecFns, StringExecFns};
use crate::error::Error;
use crate::text::{
    rsplit_once, split_first, split_last, split_once, strip_prefix, strip_suffix, to_chars,
    without_prefix, without_suffix,
};

verus! {

/// How the trait's name takes part in the identity of a location: see
/// [`FunctionLocation::get`].
#[derive(Clone, Copy, Debug)]
pub enum TraitInfo {
    /// With the trait's name, which the location must have.
    Yes,
    /// Without the trait's name, whether the location has one or not.
    No,
    /// With the trait's name where the location has one, else without.
    Whatever,
}

/// The absolute path of a function, and the name of the trait through which
/// it was reached, where it is known.
#[derive(Clone, PartialEq, Eq, Debug)]
pub struct FunctionLocation {
    location: String,
    trait_info: Option<String>,
}

/// What a [`FunctionLocation`] holds, as mathematical values.
pub struct LocationView {
    pub location: Seq<char>,
    pub trait_info: Option<Seq<char>>,
}

impl View for FunctionLocation {
    type V = LocationView;

    closed spec fn view(&self) -> LocationView {
        LocationView {
            location: self.location@,
            trait_info: match self.trait_info {
                Some(name) => Some(name@),
                None => None,
            },
        }
    }
}

/// What a bracket adds to the depth of nesting, read from the right.
pub open spec fn bracket_weight(c: char) -> int {
    if c == '>' {
        1
    } else if c == '<' {
        -1
    } else {
        0
    }
}

/// The closing brackets of `s` less its opening ones.
pub open spec fn bracket_balance(s: Seq<char>) -> int
    decreases s.len(),
{
    if s.len() == 0 {
        0
    } else {
        bracket_weight(s[0]) + bracket_balance(s.drop_first())
    }
}

/// `i` is where the bracket opens that the last character of `s` closes: from
/// `i` on the brackets are balanced, and from no later index on they are.
pub open spec fn opens_last_bracket(s: Seq<char>, i: int) -> bool {
    &&& 0 <= i < s.len()
    &&& bracket_balance(s.skip(i)) == 0
    &&& forall|j: int| i < j < s.len() ==> bracket_balance(s.skip(j)) != 0
}

/// `s` without the list of generic arguments at its end, if it ends in one.
/// `None` where `s` ends in a closing bracket that nothing opens.
pub open spec fn without_generics(s: Seq<char>) -> Option<Seq<char>> {
    if s.len() > 0 && s.last() == '>' {
        if exists|i: int| opens_last_bracket(s, i) {
            Some(s.take(choose|i: int| opens_last_bracket(s, i)))
        } else {
            None
        }
    } else {
        Some(s)
    }
}

/// The path of the function in which a closure was written, from the name of
/// the closure's type: the name without the mark of a closure at its end and
/// without the generic arguments of the function before that mark. `None`
/// where the name does not end in the mark, or the brackets do not match.
pub open spec fn enclosing_function(closure_type: Seq<char>) -> Option<Seq<char>> {
    match without_suffix(closure_type, "::{{closure}}"@) {
        Some(path) => without_generics(path),
        None => None,
    }
}

/// Only one index opens the last bracket, and the generic arguments at the
/// end of the text begin there.
pub proof fn lemma_opens_last_bracket_unique(s: Seq<char>, i: int)
    requires
        s.len() > 0,
        s.last() == '>',
        opens_last_bracket(s, i),
    ensures
        without_generics(s) == Some(s.take(i)),
{
    let k = choose|k: int| opens_last_bracket(s, k);
    assert(opens_last_bracket(s, k));
}

/// From an index on, the brackets weigh what the character there weighs and
/// what the brackets after it weigh.
pub proof fn lemma_balance_step(s: Seq<char>, i: int)
    requires
        0 <= i < s.len(),
    ensures
        bracket_balance(s.skip(i)) == bracket_weight(s[i]) + bracket_balance(s.skip(i + 1)),
{
    assert(s.skip(i).drop_first() =~= s.skip(i + 1));
}

/// The name of a trait, from what follows the marker ` as ` in a bracketed
/// path up to its closing bracket: the path of the trait without its generic
/// arguments, and of that the last segment. `None` where the closing bracket
/// is missing or the path has no scope delimiter.
pub open spec fn trait_name(trait_path: Seq<char>) -> Option<Seq<char>> {
    match without_suffix(trait_path, ">"@) {
        None => None,
        Some(closed) => {
            let bare = match split_first(trait_path, "<"@) {
                Some((before, _)) => before,
                None => closed,
            };
            match split_last(bare, "::"@) {
                Some((_, name)) => Some(name),
                None => None,
            }
        },
    }
}

impl LocationView {
    /// The location told apart from the trait through which it was reached.
    ///
    /// The location is cut at its last scope delimiter into a path and a
    /// name. A path that begins with `<` has the form `<Type as Trait>`: the
    /// result is `Type::name` with the name of the trait. Any other path is
    /// kept, and the result has no trait.
    pub open spec fn normalize(self) -> Result<LocationView, Error> {
        match split_last(self.location, "::"@) {
            None => Err(Error::MalformedLocation),
            Some((path, name)) => match without_prefix(path, "<"@) {
                None => Ok(LocationView { location: path + "::"@ + name, trait_info: None }),
                Some(bracketed) => match split_first(bracketed, " as "@) {
                    None => Err(Error::MalformedLocation),
                    Some((struct_path, trait_path)) => match trait_name(trait_path) {
                        None => Err(Error::MalformedLocation),
                        Some(name_of_trait) => Ok(
                            LocationView {
                                location: struct_path + "::"@ + name,
                                trait_info: Some(name_of_trait),
                            },
                        ),
                    },
                },
            },
        }
    }

    /// The location with `prefix` taken from the front of the function's
    /// name, which must begin with it.
    pub open spec fn strip_name_prefix(self, prefix: Seq<char>) -> Result<LocationView, Error> {
        match split_last(self.location, "::"@) {
            None => Err(Error::MalformedLocation),
            Some((path, name)) => match without_prefix(name, prefix) {
                None => Err(Error::MissingPrefix),
                Some(rest) => Ok(
                    LocationView { location: path + "::"@ + rest, trait_info: self.trait_info },
                ),
            },
        }
    }

    /// The location with the name of a trait taken from the front of the
    /// function's name, where the name is said to begin with one.
    ///
    /// A name that is `named_after_trait` has the form `Trait_name`: it is cut
    /// at its first `_`, and the result names the trait. Any other name is
    /// kept, and the result has no trait.
    pub open spec fn split_trait_prefix(self, named_after_trait: bool) -> Result<
        LocationView,
        Error,
    > {
        match split_last(self.location, "::"@) {
            None => Err(Error::MalformedLocation),
            Some((path, name)) => if named_after_trait {
                match split_first(name, "_"@) {
                    None => Err(Error::MalformedLocation),
                    Some((name_of_trait, rest)) => Ok(
                        LocationView {
                            location: path + "::"@ + rest,
                            trait_info: Some(name_of_trait),
                        },
                    ),
                }
            } else {
                Ok(LocationView { location: path + "::"@ + name, trait_info: None })
            },
        }
    }

    /// [`split_trait_prefix`](Self::split_trait_prefix), where a name begins
    /// with the name of a trait just when its first character is an uppercase
    /// one. The name must not be empty.
    pub open spec fn assimilate_trait_prefix(self) -> Result<LocationView, Error> {
        match split_last(self.location, "::"@) {
            None => Err(Error::MalformedLocation),
            Some((_, name)) => if name.len() == 0 {
                Err(Error::MalformedLocation)
            } else {
                self.split_trait_prefix(is_uppercase(name[0]))
            },
        }
    }

    /// The location followed by the types that the function takes and gives.
    pub open spec fn append_type_signature(
        self,
        input: Seq<char>,
        output: Seq<char>,
    ) -> LocationView {
        LocationView {
            location: self.location + ":"@ + input + "->"@ + output,
            trait_info: self.trait_info,
        }
    }

    /// The identity of the location: the location, and the name of the trait
    /// as far as `mode` asks for it.
    pub open spec fn get(self, mode: TraitInfo) -> Result<Seq<char>, Error> {
        match mode {
            TraitInfo::Yes => match self.trait_info {
                Some(name) => Ok(self.location + ",trait="@ + name),
                None => Err(Error::MissingTraitInfo),
            },
            TraitInfo::No => Ok(self.location + ",trait="@),
            TraitInfo::Whatever => match self.trait_info {
                Some(name) => Ok(self.location + ",trait="@ + name),
                None => Ok(self.location + ",trait="@),
            },
        }
    }
}

/// Whether a character is an uppercase one, as Unicode defines it.
pub uninterp spec fn is_uppercase(c: char) -> bool;

/// `char::is_uppercase` of std. Its result is given the name
/// [`is_uppercase`]; nothing is claimed of which characters are uppercase.
#[verifier::external_body]
fn char_is_uppercase(c: char) -> (b: bool)
    ensures
        b == is_uppercase(c),
{
    c.is_uppercase()
}

impl FunctionLocation {
    /// A location with the given path and trait name.
    pub fn new(location: String, trait_info: Option<String>) -> (r: Self)
        ensures
            r@.location == location@,
            r@.trait_info == match trait_info {
                Some(name) => Some(name@),
                None => None,
            },
    {
        Self { location, trait_info }
    }

    /// The location of the function in which a closure was written, from the
    /// name of the closure's type as the compiler gives it.
    pub fn from(closure_type: &str) -> (r: Result<Self, Error>)
        ensures
            match r {
                Ok(site) => enclosing_function(closure_type@) == Some(site@.location)
                    && site@.trait_info is None,
                Err(e) => e is MalformedLocation && enclosing_function(closure_type@) is None,
            },
    {
        let stem = match strip_suffix(closure_type, "::{{closure}}") {
            Some(stem) => stem,
            None => {
                return Err(Error::MalformedLocation);
            },
        };
        let chars = to_chars(stem);
        let len: usize = chars.len();
        if len == 0 || chars[len - 1] != '>' {
            return Ok(Self { location: String::from_str(stem), trait_info: None });
        }
        let mut depth: usize = 0;
        let mut i: usize = len;
        while i > 0
            invariant
                enclosing_function(closure_type@) == without_generics(stem@),
                chars@ == stem@,
                len == chars.len(),
                len > 0,
                chars@[len - 1] == '>',
                i <= len,
                depth == bracket_balance(chars@.skip(i as int)),
                depth <= len - i,
                i < len ==> depth >= 1,
                forall|j: int| i <= j < len ==> bracket_balance(chars@.skip(j)) != 0,
            decreases i,
        {
            i -= 1;
            proof {
                lemma_balance_step(chars@, i as int);
            }
            let c = chars[i];
            if c == '>' {
                depth += 1;
            } else if c == '<' {
                depth -= 1;
                if depth == 0 {
                    proof {
                        lemma_opens_last_bracket_unique(stem@, i as int);
                    }
                    let path = stem.substring_char(0, i);
                    return Ok(Self { location: String::from_str(path), trait_info: None });
                }
            }
        }
        Err(Error::MalformedLocation)
    }

    /// The path of the function.
    pub fn location(&self) -> (s: &str)
        ensures
            s@ == self@.location,
    {
        self.location.as_str()
    }

    /// The name of the trait through which the function was reached.
    pub fn trait_info(&self) -> (name: Option<&str>)
        ensures
            match name {
                Some(n) => self@.trait_info == Some(n@),
                None => self@.trait_info is None,
            },
    {
        match &self.trait_info {
            Some(n) => Some(n.as_str()),
            None => None,
        }
    }

    /// Normalizes the location, so that the function is identified whether it
    /// was reached through a trait or not.
    pub fn normalize(self) -> (r: Self)
        requires
            self@.normalize() is Ok,
        ensures
            self@.normalize() == Ok::<LocationView, Error>(r@),
    {
        match normal_parts(self.location.as_str()) {
            Ok((owner, name, name_of_trait)) => {
                let trait_info = match name_of_trait {
                    Some(n) => Some(String::from_str(n)),
                    None => None,
                };
                Self { location: scoped(owner, name), trait_info }
            },
            Err(_) => unreached(),
        }
    }

    /// [`normalize`](Self::normalize), or the reason why the location cannot
    /// be normalized.
    pub fn try_normalize(self) -> (r: Result<Self, Error>)
        ensures
            match r {
                Ok(n) => self@.normalize() == Ok::<LocationView, Error>(n@),
                Err(e) => self@.normalize() == Err::<LocationView, Error>(e),
            },
    {
        match normal_parts(self.location.as_str()) {
            Ok(_) => Ok(self.normalize()),
            Err(e) => Err(e),
        }
    }

    /// Removes `prefix` from the front of the function's name.
    pub fn strip_name_prefix(self, prefix: &str) -> (r: Self)
        requires
            self@.strip_name_prefix(prefix@) is Ok,
        ensures
            self@.strip_name_prefix(prefix@) == Ok::<LocationView, Error>(r@),
    {
        match unprefixed_parts(self.location.as_str(), prefix) {
            Ok((path, rest)) => Self { location: scoped(path, rest), trait_info: self.trait_info },
            Err(_) => unreached(),
        }
    }

    /// [`strip_name_prefix`](Self::strip_name_prefix), or the reason why the
    /// prefix cannot be removed.
    pub fn try_strip_name_prefix(self, prefix: &str) -> (r: Result<Self, Error>)
        ensures
            match r {
                Ok(n) => self@.strip_name_prefix(prefix@) == Ok::<LocationView, Error>(n@),
                Err(e) => self@.strip_name_prefix(prefix@) == Err::<LocationView, Error>(e),
            },
    {
        match unprefixed_parts(self.location.as_str(), prefix) {
            Ok(_) => Ok(self.strip_name_prefix(prefix)),
            Err(e) => Err(e),
        }
    }

    /// Moves the name of a trait from the front of the function's name into
    /// the location, where the caller says that the name begins with one. The
    /// location then has the form `path::Trait_name`.
    pub fn split_trait_prefix(self, named_after_trait: bool) -> (r: Self)
        requires
            self@.split_trait_prefix(named_after_trait) is Ok,
        ensures
            self@.split_trait_prefix(named_after_trait) == Ok::<LocationView, Error>(r@),
    {
        match trait_prefix_parts(self.location.as_str(), named_after_trait) {
            Ok((path, name, name_of_trait)) => {
                let trait_info = match name_of_trait {
                    Some(n) => Some(String::from_str(n)),
                    None => None,
                };
                Self { location: scoped(path, name), trait_info }
            },
            Err(_) => unreached(),
        }
    }

    /// Moves the name of a trait from the front of the function's name into
    /// the location. A name that begins with an uppercase character is taken
    /// to have the form `Trait_name`; any other name names no trait.
    pub fn assimilate_trait_prefix(self) -> (r: Self)
        requires
            self@.assimilate_trait_prefix() is Ok,
        ensures
            self@.assimilate_trait_prefix() == Ok::<LocationView, Error>(r@),
    {
        match name_is_capitalized(self.location.as_str()) {
            Ok(named_after_trait) => self.split_trait_prefix(named_after_trait),
            Err(_) => unreached(),
        }
    }

    /// [`assimilate_trait_prefix`](Self::assimilate_trait_prefix), or the
    /// reason why the name of the function cannot be taken apart.
    pub fn try_assimilate_trait_prefix(self) -> (r: Result<Self, Error>)
        ensures
            match r {
                Ok(n) => self@.assimilate_trait_prefix() == Ok::<LocationView, Error>(n@),
                Err(e) => self@.assimilate_trait_prefix() == Err::<LocationView, Error>(e),
            },
    {
        let named_after_trait = match name_is_capitalized(self.location.as_str()) {
            Ok(capitalized) => capitalized,
            Err(e) => {
                return Err(e);
            },
        };
        match trait_prefix_parts(self.location.as_str(), named_after_trait) {
            Ok(_) => Ok(self.assimilate_trait_prefix()),
            Err(e) => Err(e),
        }
    }

    /// Adds the types that the function takes and gives to the location, so
    /// that the instances of a generic function are told apart.
    pub fn append_type_signature(self, input: &str, output: &str) -> (r: Self)
        ensures
            r@ == self@.append_type_signature(input@, output@),
    {
        let mut location = self.location;
        location.append(":");
        location.append(input);
        location.append("->");
        location.append(output);
        Self { location, trait_info: self.trait_info }
    }

    /// The identity of the location, under which it is registered and found.
    pub fn get(&self, trait_info: TraitInfo) -> (id: String)
        requires
            self@.get(trait_info) is Ok,
        ensures
            self@.get(trait_info) == Ok::<Seq<char>, Error>(id@),
    {
        let mut id = self.location.clone();
        id.append(",trait=");
        match trait_info {
            TraitInfo::Yes => match &self.trait_info {
                Some(name) => id.append(name.as_str()),
                None => unreached(),
            },
            TraitInfo::No => {},
            TraitInfo::Whatever => match &self.trait_info {
                Some(name) => id.append(name.as_str()),
                None => {},
            },
        }
        id
    }

    /// [`get`](Self::get), or the reason why the location has no such
    /// identity.
    pub fn try_get(&self, trait_info: TraitInfo) -> (r: Result<String, Error>)
        ensures
            match r {
                Ok(id) => self@.get(trait_info) == Ok::<Seq<char>, Error>(id@),
                Err(e) => self@.get(trait_info) == Err::<Seq<char>, Error>(e),
            },
    {
        match trait_info {
            TraitInfo::Yes => match &self.trait_info {
                Some(_) => Ok(self.get(trait_info)),
                None => Err(Error::MissingTraitInfo),
            },
            _ => Ok(self.get(trait_info)),
        }
    }
}

/// `path::name`.
fn scoped(path: &str, name: &str) -> (r: String)
    ensures
        r@ == path@ + "::"@ + name@,
{
    let mut r = String::from_str(path);
    r.append("::");
    r.append(name);
    r
}

/// The last segment of a trait's path, without the trait's generic arguments.
fn trait_name_in<'a>(trait_path: &'a str) -> (r: Option<&'a str>)
    ensures
        match r {
            Some(name) => trait_name(trait_path@) == Some(name@),
            None => trait_name(trait_path@) is None,
        },
{
    let closed = match strip_suffix(trait_path, ">") {
        Some(closed) => closed,
        None => {
            return None;
        },
    };
    let bare = match split_once(trait_path, "<") {
        Some((before, _)) => before,
        None => closed,
    };
    match rsplit_once(bare, "::") {
        Some((_, name)) => Some(name),
        None => None,
    }
}

/// What a normalized location is made of: the path of the type, the name of
/// the function, and the name of the trait where the location names one.
fn normal_parts<'a>(location: &'a str) -> (r: Result<
    (&'a str, &'a str, Option<&'a str>),
    Error,
>)
    ensures
        match r {
            Ok((owner, name, name_of_trait)) => (LocationView {
                location: location@,
                trait_info: None,
            }).normalize() == Ok::<LocationView, Error>(
                LocationView {
                    location: owner@ + "::"@ + name@,
                    trait_info: match name_of_trait {
                        Some(n) => Some(n@),
                        None => None,
                    },
                },
            ),
            Err(e) => (LocationView { location: location@, trait_info: None }).normalize()
                == Err::<LocationView, Error>(e),
        },
{
    let (path, name) = match rsplit_once(location, "::") {
        Some(parts) => parts,
        None => {
            return Err(Error::MalformedLocation);
        },
    };
    let bracketed = match strip_prefix(path, "<") {
        Some(bracketed) => bracketed,
        None => {
            return Ok((path, name, None));
        },
    };
    let (struct_path, trait_path) = match split_once(bracketed, " as ") {
        Some(parts) => parts,
        None => {
            return Err(Error::MalformedLocation);
        },
    };
    match trait_name_in(trait_path) {
        Some(name_of_trait) => Ok((struct_path, name, Some(name_of_trait))),
        None => Err(Error::MalformedLocation),
    }
}

/// The path of a location and the function's name without `prefix`.
fn unprefixed_parts<'a>(location: &'a str, prefix: &str) -> (r: Result<(&'a str, &'a str), Error>)
    ensures
        match r {
            Ok((path, rest)) => (LocationView {
                location: location@,
                trait_info: None,
            }).strip_name_prefix(prefix@) == Ok::<LocationView, Error>(
                LocationView { location: path@ + "::"@ + rest@, trait_info: None },
            ),
            Err(e) => (LocationView { location: location@, trait_info: None }).strip_name_prefix(
                prefix@,
            ) == Err::<LocationView, Error>(e),
        },
{
    let (path, name) = match rsplit_once(location, "::") {
        Some(parts) => parts,
        None => {
            return Err(Error::MalformedLocation);
        },
    };
    match strip_prefix(name, prefix) {
        Some(rest) => Ok((path, rest)),
        None => Err(Error::MissingPrefix),
    }
}

/// The path of a location, the function's name without the name of a trait
/// at its front, and that trait's name.
fn trait_prefix_parts<'a>(location: &'a str, named_after_trait: bool) -> (r: Result<
    (&'a str, &'a str, Option<&'a str>),
    Error,
>)
    ensures
        match r {
            Ok((path, name, name_of_trait)) => (LocationView {
                location: location@,
                trait_info: None,
            }).split_trait_prefix(named_after_trait) == Ok::<LocationView, Error>(
                LocationView {
                    location: path@ + "::"@ + name@,
                    trait_info: match name_of_trait {
                        Some(n) => Some(n@),
                        None => None,
                    },
                },
            ),
            Err(e) => (LocationView { location: location@, trait_info: None }).split_trait_prefix(
                named_after_trait,
            ) == Err::<LocationView, Error>(e),
        },
{
    let (path, name) = match rsplit_once(location, "::") {
        Some(parts) => parts,
        None => {
            return Err(Error::MalformedLocation);
        },
    };
    if !named_after_trait {
        return Ok((path, name, None));
    }
    match split_once(name, "_") {
        Some((name_of_trait, rest)) => Ok((path, rest, Some(name_of_trait))),
        None => Err(Error::MalformedLocation),
    }
}

/// Whether the function's name begins with an uppercase character.
fn name_is_capitalized(location: &str) -> (r: Result<bool, Error>)
    ensures
        match r {
            Ok(capitalized) => {
                let v = LocationView { location: location@, trait_info: None };
                v.assimilate_trait_prefix() == v.split_trait_prefix(capitalized)
            },
            Err(e) => (LocationView {
                location: location@,
                trait_info: None,
            }).assimilate_trait_prefix() == Err::<LocationView, Error>(e),
        },
{
    let (_, name) = match rsplit_once(location, "::") {
        Some(parts) => parts,
        None => {
            return Err(Error::MalformedLocation);
        },
    };
    if name.unicode_len() == 0 {
        return Err(Error::MalformedLocation);
    }
    Ok(char_is_uppercase(name.get_char(0)))
}

} // verus!
