use vstd::prelude::*;
use crate::errors::ShortenerError;
use crate::service::{count_or_zero, links_of, UrlShortenerService};
use crate::structs::{Event, ShortLink, Slug, Stats};

verus! {

/// Query side of the service: read-only operations over the derived state.
pub trait QueryHandler: View<V = Seq<Event>> {
    /// The statistics of the link under `slug`.
    fn get_stats(&self, slug: Slug) -> (r: Result<Stats, ShortenerError>)
        ensures
            !links_of(self@).contains_key(slug@) ==> r == Err::<Stats, ShortenerError>(
                ShortenerError::SlugNotFound,
            ),
            links_of(self@).contains_key(slug@) ==> {
                &&& r is Ok
                &&& r->Ok_0.link.slug == slug
                &&& r->Ok_0.link.url@ == links_of(self@)[slug@]
                &&& r->Ok_0.redirects == count_or_zero(self@, slug@)
            },
    ;
}

impl QueryHandler for UrlShortenerService {
    fn get_stats(&self, slug: Slug) -> (r: Result<Stats, ShortenerError>) {
        let (links, redirects) = self.replay();
        match links.get(&slug) {
            Some(url) => {
                let count: u64 = match redirects.get(&slug) {
                    Some(c) => *c,
                    None => 0,
                };
                Ok(Stats { link: ShortLink { slug, url: url.duplicate() }, redirects: count })
            },
            None => Err(ShortenerError::SlugNotFound),
        }
    }
}

} // verus!
