//! The fixed request shape: the track URL and the authorization header.

use vstd::prelude::*;
use vstd::string::StringExecFns;

verus! {

/// The URL the lyrics of a track are requested from.
pub open spec fn track_url(track_id: Seq<char>) -> Seq<char> {
    "https://spclient.wg.spotify.com/color-lyrics/v2/track/"@ + track_id
        + "?format=json&vocalRemoval=false"@
}

/// Build the request URL for one track.
pub fn lyrics_url(track_id: &str) -> (r: String)
    ensures
        r@ == track_url(track_id@),
{
    let mut out = String::from_str("https://spclient.wg.spotify.com/color-lyrics/v2/track/");
    out.append(track_id);
    out.append("?format=json&vocalRemoval=false");
    out
}

/// The authorization header value for a bearer token, used verbatim.
pub open spec fn bearer_header(token: Seq<char>) -> Seq<char> {
    "Bearer "@ + token
}

/// Build the authorization header value for a token.
pub fn auth_header_value(token: &str) -> (r: String)
    ensures
        r@ == bearer_header(token@),
{
    let mut out = String::from_str("Bearer ");
    out.append(token);
    out
}

} // verus!
