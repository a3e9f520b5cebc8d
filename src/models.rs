//! Rows of the click analytics.
use vstd::prelude::*;

verus! {

/// Number of clicks that came from one country.
#[derive(Clone, Debug, PartialEq, Eq)]
pub struct CountryCount {
    pub country: String,
    pub count: i64,
}

/// Number of clicks that came through one referring page.
#[derive(Clone, Debug, PartialEq, Eq)]
pub struct RefererCount {
    pub referer: String,
    pub count: i64,
}

} // verus!
