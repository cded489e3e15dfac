//! Names of the entries that the services keep in the hot cache.

use vstd::prelude::*;
use vstd::string::*;

verus! {

/// Lifetime of a cached URL record, in seconds.
pub const URL_TTL_SECONDS: u64 = 3600;

/// Name of the field of a fallback-stream entry that holds the short code.
pub const STREAM_FIELD_SHORT_CODE: &'static str = "short_code";

/// Name of the field of a fallback-stream entry that holds the delta.
pub const STREAM_FIELD_DELTA: &'static str = "delta";

/// Joins `left` and `right` with one `:` between them.
pub fn join_with_colon(left: &str, right: &str) -> (key: String)
    ensures
        key@ == left@ + ":"@ + right@,
{
    let mut key = String::from_str(left);
    key.append(":");
    key.append(right);
    key
}

/// Key under which the record of `short_code` is cached.
pub fn url_cache_key(short_code: &str) -> (key: String)
    ensures
        key@ == "url:"@ + short_code@,
{
    let mut key = String::from_str("url:");
    key.append(short_code);
    key
}

/// Key of the counter of clicks on `short_code` that are not flushed yet.
pub fn click_buffer_key(prefix: &str, short_code: &str) -> (key: String)
    ensures
        key@ == prefix@ + ":"@ + short_code@,
{
    join_with_colon(prefix, short_code)
}

} // verus!
