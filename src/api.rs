use vstd::prelude::*;
use crate::structs::Stats;

verus! {

/// Payload for creating a short link with a generated slug.
#[derive(Clone, Debug, PartialEq)]
pub struct CreateShortLinkRequest {
    pub url: String,
}

/// Payload for creating a short link under a chosen slug.
#[derive(Clone, Debug, PartialEq)]
pub struct CreateShortLinkWithSlugRequest {
    pub url: String,
    pub slug: String,
}

/// The statistics of a link, flattened for a response body.
#[derive(Clone, Debug, PartialEq)]
pub struct StatsResponse {
    pub slug: String,
    pub url: String,
    pub redirects: u64,
}

impl StatsResponse {
    /// Flattens the statistics of a link.
    pub fn from_stats(stats: Stats) -> (r: StatsResponse)
        ensures
            r.slug@ == stats.link.slug@,
            r.url@ == stats.link.url@,
            r.redirects == stats.redirects,
    {
        StatsResponse { slug: stats.link.slug.0, url: stats.link.url.0, redirects: stats.redirects }
    }
}

} // verus!
