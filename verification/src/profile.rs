//! Profiles: which configuration file is read.
use vstd::prelude::*;

verus! {

/// A place where a profile may be.
#[derive(Debug, PartialEq, Eq)]
pub enum ProfileSearch {
    /// The profile of this name.
    Named(String),
    /// The profile that is taken where none is named.
    Default,
    /// The file that was read before there were profiles.
    Legacy,
}

/// What came of looking in a place.
#[derive(Clone, Copy, Debug, PartialEq, Eq, Structural)]
pub enum Lookup {
    Found,
    Missing,
    Failed,
}

/// What to do once a place was looked in.
#[derive(Debug, PartialEq, Eq)]
pub enum ProfileStep {
    /// Take what was found. A legacy file is to be warned of.
    Take { deprecated: bool },
    /// Look in another place.
    Search(ProfileSearch),
    /// Take the built-in configuration.
    TakeBuiltIn,
    /// Give up: the named profile was not found.
    NamedNotFound,
    /// Give up: the file could not be read.
    Unreadable,
}

/// Where to look first: where `profile` is, if it is named.
pub open spec fn first_place(profile: Option<String>) -> ProfileSearch {
    match profile {
        Some(profile) => ProfileSearch::Named(profile),
        None => ProfileSearch::Default,
    }
}

/// What to do once `place` was looked in.
///
/// A named profile has to be there. Else the default profile goes before the legacy file, and
/// where there is neither the built-in configuration is taken.
pub open spec fn profile_step(place: ProfileSearch, lookup: Lookup) -> ProfileStep {
    match lookup {
        Lookup::Found => ProfileStep::Take { deprecated: place == ProfileSearch::Legacy },
        Lookup::Missing => match place {
            ProfileSearch::Named(_) => ProfileStep::NamedNotFound,
            ProfileSearch::Default => ProfileStep::Search(ProfileSearch::Legacy),
            ProfileSearch::Legacy => ProfileStep::TakeBuiltIn,
        },
        Lookup::Failed => match place {
            ProfileSearch::Named(_) => ProfileStep::NamedNotFound,
            _ => ProfileStep::Unreadable,
        },
    }
}

/// Where to look first.
pub fn first_search(profile: &Option<String>) -> (place: ProfileSearch)
    ensures
        place == first_place(*profile),
{
    match profile {
        Some(profile) => ProfileSearch::Named(profile.clone()),
        None => ProfileSearch::Default,
    }
}

/// Decides what to do once `place` was looked in.
pub fn find_profile(place: &ProfileSearch, lookup: Lookup) -> (step: ProfileStep)
    ensures
        step == profile_step(*place, lookup),
{
    match (place, lookup) {
        (ProfileSearch::Named(_), Lookup::Found) => ProfileStep::Take { deprecated: false },
        (ProfileSearch::Named(_), _) => ProfileStep::NamedNotFound,
        (_, Lookup::Failed) => ProfileStep::Unreadable,
        (ProfileSearch::Default, Lookup::Found) => ProfileStep::Take { deprecated: false },
        (ProfileSearch::Default, Lookup::Missing) => ProfileStep::Search(ProfileSearch::Legacy),
        (ProfileSearch::Legacy, Lookup::Found) => ProfileStep::Take { deprecated: true },
        (ProfileSearch::Legacy, Lookup::Missing) => ProfileStep::TakeBuiltIn,
    }
}

/// The parts of the path of `place` below the configuration directory, without an extension.
pub open spec fn place_path(place: ProfileSearch) -> Seq<Seq<char>> {
    match place {
        ProfileSearch::Named(profile) => seq!["profiles"@, profile@],
        ProfileSearch::Default => seq!["profiles"@, "default"@],
        ProfileSearch::Legacy => seq!["asst"@],
    }
}

impl ProfileSearch {
    /// The parts of the path of this place below the configuration directory, without an
    /// extension.
    pub fn path(&self) -> (path: Vec<String>)
        ensures
            path@.map_values(|part: String| part@) == place_path(*self),
    {
        let mut path: Vec<String> = Vec::new();
        match self {
            ProfileSearch::Named(profile) => {
                path.push("profiles".to_owned());
                path.push(profile.clone());
            },
            ProfileSearch::Default => {
                path.push("profiles".to_owned());
                path.push("default".to_owned());
            },
            ProfileSearch::Legacy => {
                path.push("asst".to_owned());
            },
        }
        assert(path@.map_values(|part: String| part@) =~= place_path(*self));
        path
    }
}

/// Where the search for a profile ends up, if looking in the default place comes out as
/// `default` and looking in the legacy place as `legacy`.
pub open spec fn search_result(place: ProfileSearch, default: Lookup, legacy: Lookup) -> ProfileStep
    recommends
        !(place is Named),
{
    match profile_step(place, if place == ProfileSearch::Default { default } else { legacy }) {
        ProfileStep::Search(next) => profile_step(next, legacy),
        step => step,
    }
}

/// Without a name, a default profile is taken before anything else, a legacy file is taken only
/// where there is no default profile, and the built-in configuration only where there is neither.
pub proof fn law_profiles_have_precedence(default: Lookup, legacy: Lookup)
    ensures
        search_result(first_place(None), default, legacy) == (match (default, legacy) {
            (Lookup::Found, _) => ProfileStep::Take { deprecated: false },
            (Lookup::Failed, _) => ProfileStep::Unreadable,
            (Lookup::Missing, Lookup::Found) => ProfileStep::Take { deprecated: true },
            (Lookup::Missing, Lookup::Missing) => ProfileStep::TakeBuiltIn,
            (Lookup::Missing, Lookup::Failed) => ProfileStep::Unreadable,
        }),
{
}

/// A profile that is named is taken or nothing is: no other place is looked in.
pub proof fn law_a_named_profile_is_never_replaced(profile: String, lookup: Lookup)
    ensures
        profile_step(first_place(Some(profile)), lookup) == if lookup == Lookup::Found {
            ProfileStep::Take { deprecated: false }
        } else {
            ProfileStep::NamedNotFound
        },
{
}

/// What a search leads to has its reason in what was found where. What is found is taken, and only
/// the legacy file is warned of; the legacy file is looked for exactly where there is no default
/// profile, and the built-in configuration is taken exactly where there is no legacy file either.
/// A file that cannot be read ends the search, and a named profile that is not there does.
pub proof fn law_every_step_of_a_search_has_its_reason(place: ProfileSearch, lookup: Lookup)
    ensures
        match profile_step(place, lookup) {
            ProfileStep::Take { deprecated } => lookup == Lookup::Found && (deprecated
                <==> place is Legacy),
            ProfileStep::Search(next) => next is Legacy && place is Default && lookup
                == Lookup::Missing,
            ProfileStep::TakeBuiltIn => place is Legacy && lookup == Lookup::Missing,
            ProfileStep::NamedNotFound => place is Named && lookup != Lookup::Found,
            ProfileStep::Unreadable => !(place is Named) && lookup == Lookup::Failed,
        },
{
}

/// The profile that is named is looked for first, and the default profile where none is.
pub proof fn law_the_named_profile_is_looked_for(profile: Option<String>)
    ensures
        match first_place(profile) {
            ProfileSearch::Named(name) => profile == Some(name),
            ProfileSearch::Default => profile is None,
            ProfileSearch::Legacy => false,
        },
{
}

/// Profiles are below one directory, each by its name, and the default one by that name. The
/// legacy file is beside that directory.
pub proof fn law_profiles_are_in_their_places(place: ProfileSearch)
    ensures
        place is Legacy <==> place_path(place).len() == 1,
        place is Legacy ==> place_path(place)[0] == "asst"@,
        !(place is Legacy) ==> place_path(place).len() == 2 && place_path(place)[0]
            == "profiles"@,
        place is Default ==> place_path(place)[1] == "default"@,
        place matches ProfileSearch::Named(name) ==> place_path(place)[1] == name@,
{
}

} // verus!
