use vstd::prelude::*;
use crate::table::SlugMap;

verus! {

/// A unique string (or alias) that represents the shortened version of the URL.
#[derive(Clone, Debug, PartialEq, Eq, Hash)]
pub struct Slug(pub String);

/// The destination URL that the short link points to.
#[derive(Clone, Debug, PartialEq)]
pub struct Url(pub String);

impl View for Slug {
    type V = Seq<char>;

    open spec fn view(&self) -> Seq<char> {
        self.0@
    }
}

impl View for Url {
    type V = Seq<char>;

    open spec fn view(&self) -> Seq<char> {
        self.0@
    }
}

impl Slug {
    /// An equal copy of this slug.
    pub fn duplicate(&self) -> (r: Slug)
        ensures
            r == *self,
    {
        Slug(self.0.clone())
    }
}

impl Url {
    /// An equal copy of this url.
    pub fn duplicate(&self) -> (r: Url)
        ensures
            r == *self,
    {
        Url(self.0.clone())
    }
}

/// Shortened URL representation.
#[derive(Clone, Debug, PartialEq)]
pub struct ShortLink {
    /// A unique string (or alias) that represents the shortened version of the URL.
    pub slug: Slug,
    /// The destination URL that the short link points to.
    pub url: Url,
}

/// Statistics of a [`ShortLink`].
#[derive(Clone, Debug, PartialEq)]
pub struct Stats {
    /// The link these statistics are about.
    pub link: ShortLink,
    /// Count of redirects through the link.
    pub redirects: u64,
}

/// One entry of the event log.
#[derive(Clone, Debug)]
pub struct Event {
    pub data: EventData,
}

/// The facts recorded in the event log.
#[derive(Clone, Debug)]
pub enum EventData {
    /// A slug was assigned to a url.
    LincCreated { slug: Slug, url: Url },
    /// A redirect went through a slug.
    RedirectOccurred { slug: Slug },
    /// The redirect count of a slug was set to an absolute value.
    StatsUpdated { slug: Slug, redirects: u64 },
}

/// What a snapshot keeps of one link.
#[derive(Clone, Debug)]
pub struct LinkData {
    pub url: Url,
    pub redirects: u64,
}

impl View for LinkData {
    type V = (Seq<char>, u64);

    open spec fn view(&self) -> (Seq<char>, u64) {
        (self.url@, self.redirects)
    }
}

/// The persisted snapshot: each slug with its url and redirect count.
#[derive(Debug)]
pub struct ServiceState {
    pub links: SlugMap<LinkData>,
}

impl View for ServiceState {
    type V = Map<Seq<char>, (Seq<char>, u64)>;

    open spec fn view(&self) -> Map<Seq<char>, (Seq<char>, u64)> {
        self.links@
    }
}

} // verus!
