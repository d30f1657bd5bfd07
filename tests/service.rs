use std::sync::Mutex;

use url_shortener::{
    generate_slug, is_valid_url, CommandHandler, Event, EventData, LinkData, QueryHandler,
    ServiceState, ShortenerError, Slug, SlugMap, StatsResponse, Url, UrlShortenerService,
    GENERATED_SLUG_LEN,
};

fn url(s: &str) -> Url {
    Url(s.to_string())
}

fn slug(s: &str) -> Slug {
    Slug(s.to_string())
}

fn created_events_for(service: &UrlShortenerService, name: &str) -> usize {
    service
        .events
        .iter()
        .filter(|e| matches!(&e.data, EventData::LincCreated { slug, .. } if slug.0 == name))
        .count()
}

#[test]
fn create_without_slug_gives_fresh_slug_with_zero_redirects() {
    let mut service = UrlShortenerService::new();
    let link = service
        .handle_create_short_link(url("https://example.com"), None)
        .unwrap();
    assert!(!link.slug.0.is_empty());
    assert_eq!(link.slug.0.chars().count(), GENERATED_SLUG_LEN);
    assert_eq!(link.url, url("https://example.com"));
    let stats = service.get_stats(link.slug.clone()).unwrap();
    assert_eq!(stats.redirects, 0);
    assert_eq!(stats.link, link);
    assert_eq!(service.events.len(), 1);
}

#[test]
fn two_generated_slugs_differ() {
    let mut service = UrlShortenerService::new();
    let a = service.handle_create_short_link(url("http://a"), None).unwrap();
    let b = service.handle_create_short_link(url("http://b"), None).unwrap();
    assert_ne!(a.slug, b.slug);
}

#[test]
fn generated_slug_is_url_safe() {
    let s = generate_slug();
    assert_eq!(s.0.chars().count(), 21);
    assert!(s.0.chars().all(|c| c.is_ascii_alphanumeric() || c == '_' || c == '-'));
}

#[test]
fn second_create_with_same_slug_is_refused() {
    let mut service = UrlShortenerService::new();
    let first = service.handle_create_short_link(url("https://example.com"), Some(slug("ex")));
    assert_eq!(
        first,
        Ok(url_shortener::ShortLink { slug: slug("ex"), url: url("https://example.com") })
    );
    assert_eq!(service.events.len(), 1);
    let second = service.handle_create_short_link(url("https://other.org"), Some(slug("ex")));
    assert_eq!(second, Err(ShortenerError::SlugAlreadyInUse));
    assert_eq!(service.events.len(), 1);
    let stats = service.get_stats(slug("ex")).unwrap();
    assert_eq!(stats.link.url, url("https://example.com"));
}

#[test]
fn invalid_urls_are_refused_without_events() {
    let mut service = UrlShortenerService::new();
    assert_eq!(
        service.handle_create_short_link(url(""), None),
        Err(ShortenerError::InvalidUrl)
    );
    assert_eq!(
        service.handle_create_short_link(url("not-a-url"), Some(slug("x"))),
        Err(ShortenerError::InvalidUrl)
    );
    assert_eq!(service.events.len(), 0);
}

#[test]
fn url_validation() {
    assert!(is_valid_url(&url("http")));
    assert!(is_valid_url(&url("https://example.com")));
    assert!(!is_valid_url(&url("htt")));
    assert!(!is_valid_url(&url("")));
    assert!(!is_valid_url(&url("ftp://example.com")));
    assert!(!is_valid_url(&url("HTTP://example.com")));
}

#[test]
fn invalid_url_is_refused_before_slug_check() {
    let mut service = UrlShortenerService::new();
    service.handle_create_short_link(url("http://a"), Some(slug("a"))).unwrap();
    assert_eq!(
        service.handle_create_short_link(url("bad"), Some(slug("a"))),
        Err(ShortenerError::InvalidUrl)
    );
}

#[test]
fn redirect_on_unknown_slug_fails() {
    let mut service = UrlShortenerService::new();
    assert_eq!(service.handle_redirect(slug("nope")), Err(ShortenerError::SlugNotFound));
    assert_eq!(service.get_stats(slug("nope")), Err(ShortenerError::SlugNotFound));
    assert_eq!(service.events.len(), 0);
}

#[test]
fn redirects_are_counted() {
    let mut service = UrlShortenerService::new();
    service.handle_create_short_link(url("http://x.io"), Some(slug("x"))).unwrap();
    for n in 1..=5u64 {
        let link = service.handle_redirect(slug("x")).unwrap();
        assert_eq!(link.url, url("http://x.io"));
        assert_eq!(link.slug, slug("x"));
        assert_eq!(service.get_stats(slug("x")).unwrap().redirects, n);
    }
    // one creation, then a redirect event and a stats event per redirect
    assert_eq!(service.events.len(), 11);
    match &service.events[10].data {
        EventData::StatsUpdated { slug, redirects } => {
            assert_eq!(slug.0, "x");
            assert_eq!(*redirects, 5);
        }
        other => panic!("unexpected event {other:?}"),
    }
}

#[test]
fn snapshot_round_trip() {
    let mut service = UrlShortenerService::new();
    service
        .handle_create_short_link(url("https://example.com"), Some(slug("ex")))
        .unwrap();
    for _ in 0..3 {
        service.handle_redirect(slug("ex")).unwrap();
    }
    service.handle_create_short_link(url("http://other"), Some(slug("o"))).unwrap();
    let state = service.build_service_state();
    assert_eq!(state.links.entries.len(), 2);
    let restored = UrlShortenerService::from_state(state);
    // two creations and three redirects
    assert_eq!(restored.events.len(), 5);
    let stats = restored.get_stats(slug("ex")).unwrap();
    let flat = StatsResponse::from_stats(stats);
    assert_eq!(flat.slug, "ex");
    assert_eq!(flat.url, "https://example.com");
    assert_eq!(flat.redirects, 3);
    assert_eq!(restored.get_stats(slug("o")).unwrap().redirects, 0);
}

#[test]
fn from_state_expands_counts() {
    let mut links = SlugMap::new();
    links.insert(slug("a"), LinkData { url: url("http://a"), redirects: 2 });
    let service = UrlShortenerService::from_state(ServiceState { links });
    assert_eq!(service.events.len(), 3);
    assert!(matches!(&service.events[0].data, EventData::LincCreated { slug, url } if slug.0 == "a" && url.0 == "http://a"));
    assert!(matches!(&service.events[2].data, EventData::RedirectOccurred { slug } if slug.0 == "a"));
    assert_eq!(service.get_stats(slug("a")).unwrap().redirects, 2);
}

#[test]
fn replay_ignores_redirect_of_unknown_slug_and_applies_absolute_stats() {
    let mut service = UrlShortenerService::new();
    service.events.push(Event { data: EventData::RedirectOccurred { slug: slug("ghost") } });
    service.events.push(Event { data: EventData::LincCreated { slug: slug("a"), url: url("http://a") } });
    service.events.push(Event { data: EventData::RedirectOccurred { slug: slug("a") } });
    service.events.push(Event { data: EventData::StatsUpdated { slug: slug("a"), redirects: 40 } });
    service.events.push(Event { data: EventData::RedirectOccurred { slug: slug("a") } });
    service.events.push(Event { data: EventData::StatsUpdated { slug: slug("b"), redirects: 7 } });
    let (links, counts) = service.replay();
    assert_eq!(links.entries.len(), 1);
    assert_eq!(links.get(&slug("a")), Some(&url("http://a")));
    assert_eq!(links.get(&slug("ghost")), None);
    assert_eq!(counts.get(&slug("a")), Some(&41));
    assert_eq!(counts.get(&slug("b")), Some(&7));
    assert_eq!(counts.get(&slug("ghost")), None);
    // a slug with a count but no url is left out of a snapshot
    let state = service.build_service_state();
    assert_eq!(state.links.entries.len(), 1);
    assert_eq!(state.links.get(&slug("a")).unwrap().redirects, 41);
}

#[test]
fn redirect_count_stays_at_largest_value() {
    let mut service = UrlShortenerService::new();
    service.events.push(Event { data: EventData::LincCreated { slug: slug("a"), url: url("http://a") } });
    service.events.push(Event { data: EventData::StatsUpdated { slug: slug("a"), redirects: u64::MAX } });
    service.handle_redirect(slug("a")).unwrap();
    assert_eq!(service.get_stats(slug("a")).unwrap().redirects, u64::MAX);
}

#[test]
fn created_again_resets_count() {
    let mut service = UrlShortenerService::new();
    service.events.push(Event { data: EventData::LincCreated { slug: slug("a"), url: url("http://a") } });
    service.events.push(Event { data: EventData::RedirectOccurred { slug: slug("a") } });
    service.events.push(Event { data: EventData::LincCreated { slug: slug("a"), url: url("http://b") } });
    let stats = service.get_stats(slug("a")).unwrap();
    assert_eq!(stats.redirects, 0);
    assert_eq!(stats.link.url, url("http://b"));
}

#[test]
fn two_callers_same_slug_only_one_wins() {
    let shared = Mutex::new(UrlShortenerService::new());
    let first = shared
        .lock()
        .unwrap()
        .handle_create_short_link(url("http://one"), Some(slug("same")));
    let second = shared
        .lock()
        .unwrap()
        .handle_create_short_link(url("http://two"), Some(slug("same")));
    let outcomes = [first, second];
    assert_eq!(outcomes.iter().filter(|r| r.is_ok()).count(), 1);
    assert_eq!(
        outcomes.iter().filter(|r| **r == Err(ShortenerError::SlugAlreadyInUse)).count(),
        1
    );
    let service = shared.lock().unwrap();
    assert_eq!(created_events_for(&service, "same"), 1);
}

#[test]
fn slug_map_insert_replaces_value() {
    let mut m: SlugMap<u64> = SlugMap::new();
    m.insert(slug("a"), 1);
    m.insert(slug("b"), 2);
    m.insert(slug("a"), 3);
    assert_eq!(m.entries.len(), 2);
    assert_eq!(m.get(&slug("a")), Some(&3));
    assert!(m.contains_key(&slug("b")));
    assert!(!m.contains_key(&slug("c")));
}
