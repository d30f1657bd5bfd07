use vstd::prelude::*;
use crate::errors::ShortenerError;
use crate::service::{
    bump, count_or_zero, lemma_apply_push, lemma_links_counted, links_of, UrlShortenerService,
};
use crate::structs::{Event, EventData, ShortLink, Slug, Url};

verus! {

/// The number of characters of a generated slug.
pub const GENERATED_SLUG_LEN: usize = 21;

/// The characters a generated slug is made of: ASCII letters, digits, `_` and `-`.
pub open spec fn url_safe_char(c: char) -> bool {
    ('a' <= c && c <= 'z') || ('A' <= c && c <= 'Z') || ('0' <= c && c <= '9') || c == '_' || c
        == '-'
}

/// The scheme marker that every accepted url starts with.
pub open spec fn http_marker() -> Seq<char> {
    seq!['h', 't', 't', 'p']
}

/// A url is accepted when it is non-empty and starts with the http marker.
pub open spec fn valid_url(u: Seq<char>) -> bool {
    u.len() > 0 && u.len() >= http_marker().len() && u.subrange(0, http_marker().len() as int)
        == http_marker()
}

/// The event that records the creation of a link.
pub open spec fn created(slug: Slug, url: Url) -> Event {
    Event { data: EventData::LincCreated { slug: slug, url: url } }
}

/// The log after one redirect through `slug`: the redirect event, then the
/// stats event that sets the count reached by it.
pub open spec fn redirected(log: Seq<Event>, slug: Slug) -> Seq<Event> {
    log.push(Event { data: EventData::RedirectOccurred { slug: slug } }).push(
        Event { data: EventData::StatsUpdated { slug: slug, redirects: bump(count_or_zero(log, slug@)) } },
    )
}

/// Whether `url` is accepted for shortening.
pub fn is_valid_url(url: &Url) -> (r: bool)
    ensures
        r == valid_url(url@),
{
    let s = url.0.as_str();
    let n = s.unicode_len();
    if n < 4 {
        return false;
    }
    let r = s.get_char(0) == 'h' && s.get_char(1) == 't' && s.get_char(2) == 't' && s.get_char(3)
        == 'p';
    proof {
        if r {
            assert(url@.subrange(0, 4) =~= http_marker());
        } else {
            assert(url@.subrange(0, 4) !~= http_marker());
        }
    }
    r
}

/// Relies on nanoid::format with nanoid's default random source and its SAFE
/// alphabet: it returns exactly `size` characters, each from that alphabet.
/// With `size` zero it never returns.
#[verifier::external_body]
fn random_slug_text(size: usize) -> (r: String)
    requires
        size > 0,
    ensures
        r@.len() == size,
        forall|i: int| 0 <= i < r@.len() ==> url_safe_char(#[trigger] r@[i]),
{
    nanoid::format(nanoid::rngs::default, &nanoid::alphabet::SAFE, size)
}

/// A fresh slug drawn from an unpredictable source: the identifier is
/// `GENERATED_SLUG_LEN` URL-safe characters.
pub fn generate_slug() -> (r: Slug)
    ensures
        r@.len() == GENERATED_SLUG_LEN,
        forall|i: int| 0 <= i < r@.len() ==> url_safe_char(#[trigger] r@[i]),
{
    Slug(random_slug_text(GENERATED_SLUG_LEN))
}

/// Command side of the service: the operations that append to the event log.
pub trait CommandHandler: View<V = Seq<Event>> {
    /// Creates a short link for `url`, under `slug` where one is given and
    /// under a freshly generated slug otherwise.
    fn handle_create_short_link(&mut self, url: Url, slug: Option<Slug>) -> (r: Result<
        ShortLink,
        ShortenerError,
    >)
        ensures
            !valid_url(url@) ==> r == Err::<ShortLink, ShortenerError>(ShortenerError::InvalidUrl)
                && final(self)@ == old(self)@,
            valid_url(url@) && slug is Some ==> {
                let s = slug->Some_0;
                if links_of(old(self)@).contains_key(s@) {
                    &&& r == Err::<ShortLink, ShortenerError>(ShortenerError::SlugAlreadyInUse)
                    &&& final(self)@ == old(self)@
                } else {
                    &&& r == Ok::<ShortLink, ShortenerError>(ShortLink { slug: s, url: url })
                    &&& final(self)@ == old(self)@.push(created(s, url))
                }
            },
            valid_url(url@) && slug is None ==> match r {
                Ok(link) => {
                    &&& link.url == url
                    &&& link.slug@.len() == GENERATED_SLUG_LEN
                    &&& forall|i: int|
                        0 <= i < link.slug@.len() ==> url_safe_char(#[trigger] link.slug@[i])
                    &&& !links_of(old(self)@).contains_key(link.slug@)
                    &&& final(self)@ == old(self)@.push(created(link.slug, url))
                },
                Err(e) => {
                    &&& e == ShortenerError::SlugAlreadyInUse
                    &&& final(self)@ == old(self)@
                    &&& exists|k: Seq<char>|
                        #[trigger] links_of(old(self)@).contains_key(k) && k.len()
                            == GENERATED_SLUG_LEN
                },
            },
    ;

    /// Records a redirect through `slug` and returns its link.
    fn handle_redirect(&mut self, slug: Slug) -> (r: Result<ShortLink, ShortenerError>)
        ensures
            !links_of(old(self)@).contains_key(slug@) ==> r == Err::<ShortLink, ShortenerError>(
                ShortenerError::SlugNotFound,
            ) && final(self)@ == old(self)@,
            links_of(old(self)@).contains_key(slug@) ==> {
                &&& r is Ok
                &&& r->Ok_0.slug == slug
                &&& r->Ok_0.url@ == links_of(old(self)@)[slug@]
                &&& final(self)@ == redirected(old(self)@, slug)
            },
    ;
}

impl UrlShortenerService {
    /// Records a link for `url` under `slug` unless the slug is already taken.
    pub fn create_with_slug(&mut self, url: Url, slug: Slug) -> (r: Result<ShortLink, ShortenerError>)
        ensures
            links_of(old(self)@).contains_key(slug@) ==> r == Err::<ShortLink, ShortenerError>(
                ShortenerError::SlugAlreadyInUse,
            ) && final(self)@ == old(self)@,
            !links_of(old(self)@).contains_key(slug@) ==> r == Ok::<ShortLink, ShortenerError>(
                ShortLink { slug: slug, url: url },
            ) && final(self)@ == old(self)@.push(created(slug, url)),
    {
        let (links, _) = self.replay();
        if links.contains_key(&slug) {
            return Err(ShortenerError::SlugAlreadyInUse);
        }
        let event = Event { data: EventData::LincCreated { slug: slug.duplicate(), url: url.duplicate() } };
        self.events.push(event);
        Ok(ShortLink { slug, url })
    }
}

impl CommandHandler for UrlShortenerService {
    fn handle_create_short_link(&mut self, url: Url, slug: Option<Slug>) -> (r: Result<
        ShortLink,
        ShortenerError,
    >) {
        if !is_valid_url(&url) {
            return Err(ShortenerError::InvalidUrl);
        }
        let slug = match slug {
            Some(s) => s,
            None => generate_slug(),
        };
        let ghost key = slug@;
        let r = self.create_with_slug(url, slug);
        proof {
            if r is Err {
                assert(links_of(old(self)@).contains_key(key));
            }
        }
        r
    }

    fn handle_redirect(&mut self, slug: Slug) -> (r: Result<ShortLink, ShortenerError>) {
        let (links, _) = self.replay();
        match links.get(&slug) {
            Some(url) => {
                let url = url.duplicate();
                let ghost before = self.events@;
                proof {
                    lemma_links_counted(before);
                    lemma_apply_push(before, Event { data: EventData::RedirectOccurred { slug: slug } });
                }
                self.events.push(Event { data: EventData::RedirectOccurred { slug: slug.duplicate() } });
                let (_, counts) = self.replay();
                let redirects: u64 = match counts.get(&slug) {
                    Some(c) => *c,
                    None => 0,
                };
                self.events.push(Event { data: EventData::StatsUpdated { slug: slug.duplicate(), redirects } });
                Ok(ShortLink { slug, url })
            },
            None => Err(ShortenerError::SlugNotFound),
        }
    }
}

} // verus!
