//! The Steam avatar shown for the configured account: the Web API request
//! that finds it and the `data:` URI it is shown from.

use vstd::prelude::*;
use crate::codec::{b64_encode, base64_encode};
use crate::helpers::{before_first, before_first_of};
use crate::text::{from_chars, push_str, to_chars, trim, trim_str};

verus! {

/// A setting that is set and not empty.
pub open spec fn is_set(o: Option<String>) -> bool {
    match o {
        Some(s) => s@.len() > 0,
        None => false,
    }
}

/// The `GetPlayerSummaries` request for an API key and a Steam id.
pub open spec fn summaries_url_spec(key: Seq<char>, steam_id: Seq<char>) -> Seq<char> {
    "https://api.steampowered.com/ISteamUser/GetPlayerSummaries/v0002/?key="@ + key + "&steamids="@
        + steam_id
}

/// The request that finds the avatar, when both the API key and the Steam
/// id are set (else there is no avatar and the cached one is dropped).
pub fn avatar_summaries_url(api_key: &Option<String>, steam_id: &Option<String>) -> (r: Option<String>)
    ensures
        (is_set(*api_key) && is_set(*steam_id)) <==> r is Some,
        r matches Some(u) ==> u@ == summaries_url_spec(api_key->0@, steam_id->0@),
{
    match (api_key, steam_id) {
        (Some(k), Some(id)) => {
            if to_chars(k.as_str()).len() == 0 || to_chars(id.as_str()).len() == 0 {
                return None;
            }
            let mut m = to_chars("https://api.steampowered.com/ISteamUser/GetPlayerSummaries/v0002/?key=");
            push_str(&mut m, k.as_str());
            push_str(&mut m, "&steamids=");
            push_str(&mut m, id.as_str());
            Some(from_chars(&m))
        },
        _ => None,
    }
}

/// The media type of an image response: its `Content-Type` header up to
/// any `;` parameters, trimmed; `image/jpeg` when there is no header.
pub open spec fn media_type_spec(content_type: Option<Seq<char>>) -> Seq<char> {
    let h = match content_type {
        Some(c) => c,
        None => "image/jpeg"@,
    };
    trim(before_first(h, ';'))
}

/// The avatar image as a `data:` URI: `data:<media type>;base64,<bytes>`.
pub fn avatar_data_uri(content_type: &Option<String>, image: &[u8]) -> (r: String)
    ensures
        r@ == "data:"@ + media_type_spec(
            match content_type {
                Some(c) => Some(c@),
                None => None,
            },
        ) + ";base64,"@ + b64_encode(image@),
{
    let h = match content_type {
        Some(c) => to_chars(c.as_str()),
        None => to_chars("image/jpeg"),
    };
    let head = from_chars(&before_first_of(&h, ';'));
    let media = from_chars(&trim_str(head.as_str()));
    let mut m = to_chars("data:");
    push_str(&mut m, media.as_str());
    push_str(&mut m, ";base64,");
    let b = base64_encode(image);
    push_str(&mut m, b.as_str());
    from_chars(&m)
}

} // verus!
