//! The records that the services exchange, and their mathematical views.

use crate::enums::HealthStatus;
use vstd::prelude::*;
use vstd::string::*;

verus! {

/// A shortened URL as the relational store holds it. Timestamps are UTC, in
/// microseconds since the Unix epoch.
#[derive(Debug, Clone, PartialEq, Eq)]
pub struct Url {
    pub id: i64,
    pub short_code: String,
    pub original_url: String,
    pub clicks: i64,
    pub created_at: i64,
    pub updated_at: i64,
}

/// A `Url` with its texts as sequences of characters.
pub struct UrlView {
    pub id: int,
    pub short_code: Seq<char>,
    pub original_url: Seq<char>,
    pub clicks: int,
    pub created_at: int,
    pub updated_at: int,
}

impl View for Url {
    type V = UrlView;

    open spec fn view(&self) -> UrlView {
        UrlView {
            id: self.id as int,
            short_code: self.short_code@,
            original_url: self.original_url@,
            clicks: self.clicks as int,
            created_at: self.created_at as int,
            updated_at: self.updated_at as int,
        }
    }
}

/// Body of a request to shorten `url`, under `custom_code` where one is given.
#[derive(Debug, Clone, PartialEq, Eq)]
pub struct ShortenRequest {
    pub url: String,
    pub custom_code: Option<String>,
}

/// A `Url` as a client sees it, with the address that redirects to it.
#[derive(Debug, Clone, PartialEq, Eq)]
pub struct UrlResponse {
    pub id: i64,
    pub short_code: String,
    pub original_url: String,
    pub short_url: String,
    pub clicks: i64,
    pub created_at: i64,
    pub updated_at: i64,
}

/// A `UrlResponse` with its texts as sequences of characters.
pub struct UrlResponseView {
    pub id: int,
    pub short_code: Seq<char>,
    pub original_url: Seq<char>,
    pub short_url: Seq<char>,
    pub clicks: int,
    pub created_at: int,
    pub updated_at: int,
}

impl View for UrlResponse {
    type V = UrlResponseView;

    open spec fn view(&self) -> UrlResponseView {
        UrlResponseView {
            id: self.id as int,
            short_code: self.short_code@,
            original_url: self.original_url@,
            short_url: self.short_url@,
            clicks: self.clicks as int,
            created_at: self.created_at as int,
            updated_at: self.updated_at as int,
        }
    }
}

/// What a client is shown of `url` when the service is reached at `base_url`.
pub open spec fn response_of(url: UrlView, base_url: Seq<char>) -> UrlResponseView {
    UrlResponseView {
        id: url.id,
        short_code: url.short_code,
        original_url: url.original_url,
        short_url: base_url + "/"@ + url.short_code,
        clicks: url.clicks,
        created_at: url.created_at,
        updated_at: url.updated_at,
    }
}

impl UrlResponse {
    /// The response for `url`: its fields, and `base_url`, a `/` and its short
    /// code as the short address.
    pub fn from_url(url: &Url, base_url: &str) -> (response: Self)
        ensures
            response@ == response_of(url@, base_url@),
    {
        let mut short_url = String::from_str(base_url);
        short_url.append("/");
        short_url.append(url.short_code.as_str());
        UrlResponse {
            id: url.id,
            short_code: url.short_code.clone(),
            original_url: url.original_url.clone(),
            short_url,
            clicks: url.clicks,
            created_at: url.created_at,
            updated_at: url.updated_at,
        }
    }
}

/// Health of the edge service and of the two stores it depends on.
#[derive(Debug, Clone, Copy, PartialEq, Eq, Structural)]
pub struct HealthResponse {
    pub status: HealthStatus,
    pub database: HealthStatus,
    pub cache: HealthStatus,
}

/// One or more clicks on a short code, as they travel on the event bus.
#[derive(Debug, Clone, PartialEq, Eq)]
pub struct ClickEvent {
    pub short_code: String,
    pub delta: i64,
}

/// A `ClickEvent` with its short code as a sequence of characters.
pub struct ClickEventView {
    pub short_code: Seq<char>,
    pub delta: int,
}

impl View for ClickEvent {
    type V = ClickEventView;

    open spec fn view(&self) -> ClickEventView {
        ClickEventView { short_code: self.short_code@, delta: self.delta as int }
    }
}

/// The views of a list of click events, in order.
pub open spec fn clicks_view(events: Seq<ClickEvent>) -> Seq<ClickEventView> {
    events.map_values(|e: ClickEvent| e@)
}

impl ClickEvent {
    /// A copy of the event.
    pub fn duplicate(&self) -> (copy: ClickEvent)
        ensures
            copy@ == self@,
    {
        ClickEvent { short_code: self.short_code.clone(), delta: self.delta }
    }
}

/// A copy of a list of click events.
pub fn duplicate_clicks(events: &Vec<ClickEvent>) -> (copy: Vec<ClickEvent>)
    ensures
        clicks_view(copy@) == clicks_view(events@),
{
    let mut copy: Vec<ClickEvent> = Vec::new();
    let mut i: usize = 0;
    while i < events.len()
        invariant
            i <= events.len(),
            clicks_view(copy@) == clicks_view(events@).take(i as int),
        decreases events.len() - i,
    {
        let ghost copied = clicks_view(copy@);
        let event = events[i].duplicate();
        copy.push(event);
        i = i + 1;
        assert(clicks_view(copy@) =~= copied.push(event@));
        assert(clicks_view(events@).take(i as int) =~= clicks_view(events@).take(i - 1).push(
            events@[i - 1]@,
        ));
    }
    assert(clicks_view(events@).take(i as int) =~= clicks_view(events@));
    copy
}

/// A block of identifiers handed out by the allocator: `start..=end`.
#[derive(Debug, Clone, Copy, PartialEq, Eq, Structural)]
pub struct AllocateResponse {
    pub start: i64,
    pub end: i64,
}

} // verus!
