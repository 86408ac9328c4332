//! The response-to-LRC pipeline, and its failure kinds.
//!
//! A response is judged by its status code first; a success body is then
//! parsed as JSON, decoded as a lyrics payload, and rendered. Every
//! failure aborts the run with one of the kinds below and no output.

use vstd::prelude::*;

use crate::decode::{decode_body, decode_body_spec};
use crate::json::{json_of, parse_json};
use crate::lyrics::Lyrics;
use crate::render::{format_lrc, render_lrc};

verus! {

/// Why a run produced no lyric output.
#[derive(Debug, PartialEq, Eq)]
pub enum LyricsError {
    /// The response carried a non-success HTTP status.
    BadStatus(u16),
    /// The response body was not valid JSON.
    BodyNotJson,
    /// The JSON body did not hold a lyrics payload of the expected shape.
    Structure,
}

impl LyricsError {
    /// A one-line description of the failure kind.
    pub fn describe(&self) -> (r: &'static str)
        ensures
            match self {
                LyricsError::BadStatus(_) => r@ == "status code bad"@,
                LyricsError::BodyNotJson => r@ == "response body is not valid JSON"@,
                LyricsError::Structure => r@ == "lyrics payload has an unexpected shape"@,
            },
    {
        match self {
            LyricsError::BadStatus(_) => "status code bad",
            LyricsError::BodyNotJson => "response body is not valid JSON",
            LyricsError::Structure => "lyrics payload has an unexpected shape",
        }
    }
}

/// Decode a response body and render it: the LRC text where the body is
/// valid JSON holding a well-shaped lyrics payload, the exact failure
/// kind otherwise.
pub fn lyrics_body_to_lrc(body: &str) -> (r: Result<String, LyricsError>)
    ensures
        match json_of(body@) {
            None => r == Err::<String, LyricsError>(LyricsError::BodyNotJson),
            Some(j) => match decode_body_spec(j) {
                None => r == Err::<String, LyricsError>(LyricsError::Structure),
                Some(lv) => r matches Ok(s) && s@ == render_lrc(lv.lines),
            },
        },
{
    match parse_json(body) {
        None => Err(LyricsError::BodyNotJson),
        Some(j) => match decode_body(j) {
            None => Err(LyricsError::Structure),
            Some(ly) => Ok(format_lrc(&ly)),
        },
    }
}

/// Whether a status code reports success.
pub open spec fn is_success_status(status: u16) -> bool {
    200 <= status < 300
}

/// Judge a whole response: a non-success status is a failure whatever
/// the body holds; a success body is decoded and rendered.
pub fn process_response(status: u16, body: &str) -> (r: Result<String, LyricsError>)
    ensures
        !is_success_status(status) ==> r == Err::<String, LyricsError>(
            LyricsError::BadStatus(status),
        ),
        is_success_status(status) ==> match json_of(body@) {
            None => r == Err::<String, LyricsError>(LyricsError::BodyNotJson),
            Some(j) => match decode_body_spec(j) {
                None => r == Err::<String, LyricsError>(LyricsError::Structure),
                Some(lv) => r matches Ok(s) && s@ == render_lrc(lv.lines),
            },
        },
{
    if status < 200 || status >= 300 {
        return Err(LyricsError::BadStatus(status));
    }
    lyrics_body_to_lrc(body)
}

} // verus!
