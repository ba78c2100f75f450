//! PathResolver: derives the storage directory from environment state.
//!
//! The resolver is pure: the caller reads the two environment variables and
//! hands their values in as plain options. The first non-empty value in the
//! documented priority order wins; if neither is usable the condition is
//! unrecoverable and reported as a fatal error.

use vstd::prelude::*;
use vstd::string::*;

use crate::errors::FatalError;

verus! {

/// The view of an optional borrowed string, for use in contracts.
pub open spec fn opt_view(o: Option<&str>) -> Option<Seq<char>> {
    match o {
        Some(s) => Some(s@),
        None => None,
    }
}

/// The storage location derived from the two environment values, if any:
/// a set, non-empty configuration-home value `c` yields `c + "/twer/"`;
/// otherwise a set, non-empty home-directory value `h` yields
/// `h + "/.local/etc/twer/"`; otherwise no location can be derived.
pub open spec fn resolved_location(
    config_home: Option<Seq<char>>,
    home: Option<Seq<char>>,
) -> Option<Seq<char>> {
    if config_home matches Some(c) && c.len() > 0 {
        Some(config_home.unwrap() + "/twer/"@)
    } else if home matches Some(h) && h.len() > 0 {
        Some(home.unwrap() + "/.local/etc/twer/"@)
    } else {
        None
    }
}

/// Derives the storage directory from the configuration-home and
/// home-directory environment values, in that priority order.
pub fn resolve(config_home: Option<&str>, home: Option<&str>) -> (r: Result<String, FatalError>)
    ensures
        match r {
            Ok(p) => resolved_location(opt_view(config_home), opt_view(home)) == Some(p@),
            Err(e) => {
                &&& resolved_location(opt_view(config_home), opt_view(home)) is None
                &&& e == FatalError::UnresolvableLocation
            },
        },
{
    match config_home {
        Some(c) if !c.is_empty() => Ok(String::from_str(c).concat("/twer/")),
        _ => match home {
            Some(h) if !h.is_empty() => Ok(String::from_str(h).concat("/.local/etc/twer/")),
            _ => Err(FatalError::UnresolvableLocation),
        },
    }
}

/// Law: a set, non-empty configuration-home value decides the location by
/// itself, whatever the home-directory value holds.
pub proof fn lemma_resolver_priority(config_home: Seq<char>, home: Option<Seq<char>>)
    requires
        config_home.len() > 0,
    ensures
        resolved_location(Some(config_home), home) == Some(config_home + "/twer/"@),
{
}

/// Law: with the configuration-home value absent or empty, a set, non-empty
/// home-directory value deterministically yields the fallback derivation.
pub proof fn lemma_resolver_fallback(config_home: Option<Seq<char>>, home: Seq<char>)
    requires
        config_home is None || config_home.unwrap().len() == 0,
        home.len() > 0,
    ensures
        resolved_location(config_home, Some(home)) == Some(home + "/.local/etc/twer/"@),
{
}

/// Law: the resolver fails exactly when both values are absent or empty.
pub proof fn lemma_resolver_exhaustive(config_home: Option<Seq<char>>, home: Option<Seq<char>>)
    ensures
        resolved_location(config_home, home) is None <==> {
            &&& config_home is None || config_home.unwrap().len() == 0
            &&& home is None || home.unwrap().len() == 0
        },
{
}

} // verus!
