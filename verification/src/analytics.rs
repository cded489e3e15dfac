//! What the ingestor sends to the analytics store: statements as text, each
//! with the address to post it to.

use crate::ingestion::IngestConfig;
use crate::models::{clicks_view, ClickEvent, ClickEventView};
use crate::text::{decimal_text, i64_to_text, replaced, text_replace};
use vstd::prelude::*;
use vstd::string::*;

verus! {

/// A statement for the analytics store and the address to post it to.
#[derive(Debug, Clone, PartialEq, Eq)]
pub struct AnalyticsRequest {
    pub url: String,
    pub body: String,
}

/// The address that statements are posted to.
pub open spec fn analytics_url(base: Seq<char>, username: Seq<char>, password: Seq<char>) -> Seq<
    char,
> {
    base + "/?user="@ + username + "&password="@ + password
}

/// The statement that creates the table of click events in `database`
/// unless it exists.
pub open spec fn analytics_ddl(database: Seq<char>) -> Seq<char> {
    "CREATE TABLE IF NOT EXISTS "@ + database
        + ".click_events (short_code String, delta UInt32, event_time DateTime) ENGINE = MergeTree ORDER BY (short_code, event_time)"@
}

/// One row of values: the short code with each `'` escaped, the delta, and
/// the time of the event.
pub open spec fn analytics_row(entry: ClickEventView, now: Seq<char>) -> Seq<char> {
    "('"@ + replaced(entry.short_code, "'"@, "\\'"@) + "',"@ + decimal_text(entry.delta) + ",'"@
        + now + "')"@
}

/// The rows of `entries`, in order, with a comma between two of them.
pub open spec fn analytics_rows(entries: Seq<ClickEventView>, now: Seq<char>) -> Seq<char>
    decreases entries.len(),
{
    if entries.len() == 0 {
        Seq::empty()
    } else if entries.len() == 1 {
        analytics_row(entries[0], now)
    } else {
        analytics_rows(entries.drop_last(), now) + ","@ + analytics_row(entries.last(), now)
    }
}

/// The statement that appends one row per entry to the table of click
/// events in `database`.
pub open spec fn analytics_insert(database: Seq<char>, entries: Seq<ClickEventView>, now: Seq<char>) -> Seq<
    char,
> {
    "INSERT INTO "@ + database + ".click_events (short_code, delta, event_time) VALUES "@
        + analytics_rows(entries, now)
}

/// The text of the moment `secs` seconds after the Unix epoch, in UTC, as
/// the analytics store reads it; none for a moment beyond the calendar.
pub uninterp spec fn analytics_time_text(secs: i64) -> Option<Seq<char>>;

/// `chrono::DateTime::from_timestamp` with no nanoseconds, then
/// `DateTime::format` with `%Y-%m-%d %H:%M:%S`: the UTC date and time of
/// the moment, which depend on `secs` alone. The first gives none for a
/// moment that the calendar of the crate does not reach.
#[verifier::external_body]
fn format_event_time(secs: i64) -> (text: Option<String>)
    ensures
        match text {
            Some(t) => analytics_time_text(secs) == Some(t@),
            None => analytics_time_text(secs) is None,
        },
{
    match chrono::DateTime::from_timestamp(secs, 0) {
        Some(moment) => Some(moment.format("%Y-%m-%d %H:%M:%S").to_string()),
        None => None,
    }
}

fn request_url(config: &IngestConfig) -> (url: String)
    ensures
        url@ == analytics_url(
            config.clickhouse_url@,
            config.clickhouse_username@,
            config.clickhouse_password@,
        ),
{
    let mut url = config.clickhouse_url.clone();
    url.append("/?user=");
    url.append(config.clickhouse_username.as_str());
    url.append("&password=");
    url.append(config.clickhouse_password.as_str());
    url
}

/// The request that makes sure the table of click events exists.
pub fn ensure_clickhouse_table(config: &IngestConfig) -> (request: AnalyticsRequest)
    ensures
        request.url@ == analytics_url(
            config.clickhouse_url@,
            config.clickhouse_username@,
            config.clickhouse_password@,
        ),
        request.body@ == analytics_ddl(config.clickhouse_database@),
{
    let mut body = String::from_str("CREATE TABLE IF NOT EXISTS ");
    body.append(config.clickhouse_database.as_str());
    body.append(
        ".click_events (short_code String, delta UInt32, event_time DateTime) ENGINE = MergeTree ORDER BY (short_code, event_time)",
    );
    AnalyticsRequest { url: request_url(config), body }
}

/// The request that appends one row per entry of `rows`, each with the
/// time `now`.
pub fn clickhouse_insert(config: &IngestConfig, rows: &Vec<ClickEvent>, now: &str) -> (request:
    AnalyticsRequest)
    ensures
        request.url@ == analytics_url(
            config.clickhouse_url@,
            config.clickhouse_username@,
            config.clickhouse_password@,
        ),
        request.body@ == analytics_insert(config.clickhouse_database@, clicks_view(rows@), now@),
{
    let mut body = String::from_str("INSERT INTO ");
    body.append(config.clickhouse_database.as_str());
    body.append(".click_events (short_code, delta, event_time) VALUES ");
    let ghost head = body@;
    let mut i: usize = 0;
    assert(clicks_view(rows@).take(0) =~= Seq::<ClickEventView>::empty());
    assert(head + Seq::<char>::empty() =~= head);
    while i < rows.len()
        invariant
            i <= rows.len(),
            body@ == head + analytics_rows(clicks_view(rows@).take(i as int), now@),
        decreases rows.len() - i,
    {
        let ghost done = analytics_rows(clicks_view(rows@).take(i as int), now@);
        if i > 0 {
            body.append(",");
        }
        body.append("('");
        proof {
            reveal_strlit("'");
        }
        let escaped = text_replace(rows[i].short_code.as_str(), "'", "\\'");
        body.append(escaped.as_str());
        body.append("',");
        let delta = i64_to_text(rows[i].delta);
        body.append(delta.as_str());
        body.append(",'");
        body.append(now);
        body.append("')");
        proof {
            let next = clicks_view(rows@).take(i + 1);
            let entry = rows@[i as int]@;
            assert(next.drop_last() =~= clicks_view(rows@).take(i as int));
            assert(next.last() == entry);
            assert(next[0] == clicks_view(rows@)[0]);
            let row = analytics_row(entry, now@);
            if i == 0 {
                assert(done =~= Seq::<char>::empty());
                assert(analytics_rows(next, now@) == row);
                assert(body@ =~= head + row);
            } else {
                assert(analytics_rows(next, now@) == done + ","@ + row);
                assert(body@ =~= head + (done + ","@ + row));
            }
        }
        i = i + 1;
    }
    assert(clicks_view(rows@).take(i as int) =~= clicks_view(rows@));
    AnalyticsRequest { url: request_url(config), body }
}

/// The request that appends one row per entry of `rows`, each with the
/// moment `now_secs` seconds after the Unix epoch as its time; none where
/// there are no rows, or the moment has no text.
pub fn insert_clickhouse_rows(config: &IngestConfig, rows: &Vec<ClickEvent>, now_secs: i64) -> (request:
    Option<AnalyticsRequest>)
    ensures
        rows@.len() == 0 || analytics_time_text(now_secs) is None ==> request is None,
        rows@.len() > 0 && analytics_time_text(now_secs) is Some ==> request is Some && request->0.url@
            == analytics_url(
            config.clickhouse_url@,
            config.clickhouse_username@,
            config.clickhouse_password@,
        ) && request->0.body@ == analytics_insert(
            config.clickhouse_database@,
            clicks_view(rows@),
            analytics_time_text(now_secs)->0,
        ),
{
    if rows.len() == 0 {
        return None;
    }
    match format_event_time(now_secs) {
        Some(now) => Some(clickhouse_insert(config, rows, now.as_str())),
        None => None,
    }
}

} // verus!
