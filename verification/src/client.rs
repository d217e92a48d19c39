//! Endpoints of the multi-service API's device registration.

use vstd::prelude::*;

use crate::notification::{principal_text, principal_to_text};

verus! {

/// What parsing `base` as a URL and resolving `input` against it gives, as text: the
/// resolved URL's serialisation, or the parse error's message.
pub uninterp spec fn url_join(base: Seq<char>, input: Seq<char>) -> Result<Seq<char>, Seq<char>>;

/// Calls `Url::parse` and `Url::join` (url, through reqwest). Claimed: the outcome is
/// `url_join(base, input)`, the URL given by its text and the error by its message.
#[verifier::external_body]
pub(crate) fn url_join_text(base: &str, input: &str) -> (r: Result<String, String>)
    ensures
        match r {
            Ok(u) => url_join(base@, input@) == Ok::<Seq<char>, Seq<char>>(u@),
            Err(e) => url_join(base@, input@) == Err::<Seq<char>, Seq<char>>(e@),
        },
{
    match reqwest::Url::parse(base) {
        Ok(url) => match url.join(input) {
            Ok(joined) => Ok(joined.to_string()),
            Err(e) => Err(e.to_string()),
        },
        Err(e) => Err(e.to_string()),
    }
}

/// Relative path of the notification registrations under the API's base URL.
pub open spec fn notifications_path() -> Seq<char> {
    "api/v1/notifications/"@
}

/// The registration endpoint of a device owner: the notifications path resolved against
/// the base URL, then the owner's principal text resolved against that.
pub open spec fn registration_url(base: Seq<char>, owner: Seq<u8>) -> Result<Seq<char>, Seq<char>> {
    match url_join(base, notifications_path()) {
        Ok(collection) => url_join(collection, principal_text(owner)),
        Err(e) => Err(e),
    }
}

/// Where the device of the owner with these principal bytes is registered and
/// unregistered, under the API at `base_url`; or the URL error met on the way.
pub fn device_registration_url(base_url: &str, owner: &[u8]) -> (r: Result<String, String>)
    requires
        owner@.len() <= 29,
    ensures
        match r {
            Ok(u) => registration_url(base_url@, owner@) == Ok::<Seq<char>, Seq<char>>(u@),
            Err(e) => registration_url(base_url@, owner@) == Err::<Seq<char>, Seq<char>>(e@),
        },
{
    let collection = url_join_text(base_url, "api/v1/notifications/")?;
    let owner_text = principal_to_text(owner);
    url_join_text(collection.as_str(), owner_text.as_str())
}

} // verus!
