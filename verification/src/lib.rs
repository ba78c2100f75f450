//! Configuration bootstrap and parser for a small launcher.
//!
//! The crate resolves a per-user storage directory from environment
//! conventions, plans the idempotent creation of that directory and the two
//! files it must contain, and parses a minimal `key = value` configuration
//! format into a lookup table.

use vstd::prelude::*;
use vstd::string::*;

pub mod bootstrap;
pub mod config_map;
pub mod errors;
pub mod parser;
pub mod resolver;

verus! {

use crate::bootstrap::Phase;
use crate::errors::FatalError;
use crate::resolver::{opt_view, resolve, resolved_location};

/// Everything the surrounding tool needs to drive one invocation: the
/// resolved storage directory, the paths of the two files inside it, and
/// the phase the bootstrap machine starts in.
#[derive(Debug)]
pub struct RunPlan {
    pub location: String,
    pub config_path: String,
    pub links_path: String,
    pub phase: Phase,
}

/// The configuration file's path inside a storage location.
pub fn config_file_path(location: &str) -> (r: String)
    ensures
        r@ == location@ + "twer.conf"@,
{
    String::from_str(location).concat("twer.conf")
}

/// The links file's path inside a storage location.
pub fn links_file_path(location: &str) -> (r: String)
    ensures
        r@ == location@ + "links"@,
{
    String::from_str(location).concat("links")
}

/// Plans one invocation: resolves the storage location from the two
/// environment values and pins the file paths and the initial bootstrap
/// phase. Fails exactly when no location can be derived.
pub fn run(config_home: Option<&str>, home: Option<&str>) -> (r: Result<RunPlan, FatalError>)
    ensures
        match r {
            Ok(plan) => {
                &&& resolved_location(opt_view(config_home), opt_view(home)) == Some(
                    plan.location@,
                )
                &&& plan.config_path@ == plan.location@ + "twer.conf"@
                &&& plan.links_path@ == plan.location@ + "links"@
                &&& plan.phase == Phase::ProbingDirectory
            },
            Err(e) => {
                &&& resolved_location(opt_view(config_home), opt_view(home)) is None
                &&& e == FatalError::UnresolvableLocation
            },
        },
{
    let location = match resolve(config_home, home) {
        Ok(location) => location,
        Err(e) => {
            return Err(e);
        },
    };
    let config_path = config_file_path(location.as_str());
    let links_path = links_file_path(location.as_str());
    Ok(RunPlan { location, config_path, links_path, phase: crate::bootstrap::initial_phase() })
}

} // verus!
