//! An event-sourced URL shortener core: an append-only log of domain events,
//! a deterministic replay fold that derives the current links and redirect
//! counts, command and query handlers that validate before they append, and
//! the projection of the derived state into snapshots and back.
pub mod api;
pub mod commands;
pub mod errors;
pub mod laws;
pub mod queries;
pub mod service;
pub mod structs;
pub mod table;

pub use api::{CreateShortLinkRequest, CreateShortLinkWithSlugRequest, StatsResponse};
pub use commands::{generate_slug, is_valid_url, CommandHandler, GENERATED_SLUG_LEN};
pub use errors::{ServiceError, ShortenerError};
pub use queries::QueryHandler;
pub use service::UrlShortenerService;
pub use structs::{Event, EventData, LinkData, ServiceState, ShortLink, Slug, Stats, Url};
pub use table::SlugMap;
