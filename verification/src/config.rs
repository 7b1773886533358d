//! Runtime configuration as the core consumes it: plain strings and
//! numbers, resolved and validated by the process boundary before they
//! reach the library.

use vstd::prelude::*;

verus! {

/// Object-store region the deployment runs in.
#[derive(Clone, Copy, Debug, PartialEq, Eq, Structural)]
pub enum ScalewayRegion {
    FrPar,
    NlAms,
    PlWaw,
}

impl ScalewayRegion {
    /// The region's wire name, as the object-store endpoint expects it.
    pub fn region_name(&self) -> (r: String)
        ensures
            *self == ScalewayRegion::FrPar ==> r@ == "fr-par"@,
            *self == ScalewayRegion::NlAms ==> r@ == "nl-ams"@,
            *self == ScalewayRegion::PlWaw ==> r@ == "pl-waw"@,
    {
        match self {
            ScalewayRegion::FrPar => String::from_str("fr-par"),
            ScalewayRegion::NlAms => String::from_str("nl-ams"),
            ScalewayRegion::PlWaw => String::from_str("pl-waw"),
        }
    }
}

/// Resolved configuration handed to the core at startup.
pub struct Config {
    pub port: Option<i32>,

    pub scw_access_key: String,
    pub scw_secret_key: String,
    pub scw_default_region: ScalewayRegion,

    pub s3_bucket: String,
    pub s3_endpoint: String,

    /// Registry to target, e.g. `test.pypi.org`.
    pub pypi_index: String,

    pub worker_url: String,
}

/// The index host used when none is configured.
pub fn default_pypi_index() -> (r: String)
    ensures
        r@ == "test.pypi.org"@,
{
    String::from_str("test.pypi.org")
}

} // verus!
