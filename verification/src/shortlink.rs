//! The pure side of the URL-shortening gateway: the long URL handed to the
//! service, and the shape of its answer.
//!
//! The outbound call itself is an edge the library does not make; callers
//! perform it and hand the raw answer back through `ShortUrlResponse::from_raw`.

use vstd::prelude::*;
use crate::error::CustomError;
use crate::text::push_str;
use crate::uri::{uri_acceptable, Uri};

verus! {

/// What the shortening service answers for one token.
#[derive(Debug)]
pub struct ShortUrlResponse {
    pub hash: String,
    pub short_url: Uri,
    pub long_url: Uri,
}

impl ShortUrlResponse {
    /// Validates a raw gateway answer: both returned URLs must be absolute
    /// http(s) URLs, else the answer counts as a malformed upstream body.
    pub fn from_raw(hash: String, short_url: String, long_url: String) -> (r: Result<
        ShortUrlResponse,
        CustomError,
    >)
        ensures
            r is Ok <==> (uri_acceptable(short_url@) && uri_acceptable(long_url@)),
            r is Ok ==> r->Ok_0.hash@ == hash@
                && r->Ok_0.short_url@ == short_url@
                && r->Ok_0.long_url@ == long_url@,
            r is Err ==> r->Err_0 is UpstreamUnavailable,
    {
        let short = match Uri::parse(short_url) {
            Ok(u) => u,
            Err(_) => {
                return Err(CustomError::UpstreamUnavailable(
                    String::from_str("the shortening service answered a malformed short URL"),
                ));
            },
        };
        let long = match Uri::parse(long_url) {
            Ok(u) => u,
            Err(_) => {
                return Err(CustomError::UpstreamUnavailable(
                    String::from_str("the shortening service answered a malformed long URL"),
                ));
            },
        };
        Ok(ShortUrlResponse { hash, short_url: short, long_url: long })
    }
}

/// The long URL submitted for shortening: the configured base, a slash, and
/// the invitation's token.
pub fn long_url_for_token(base_url: &Uri, token: &str) -> (r: String)
    ensures
        r@ == base_url@ + "/"@ + token@,
{
    let mut out = base_url.as_str().to_owned();
    push_str(&mut out, "/");
    push_str(&mut out, token);
    out
}

} // verus!
