//! Decoding of the lyrics payload out of a parsed JSON document.
//!
//! The wire names are camel-case; each is read from the object holding it
//! and checked for the expected shape. The two time fields arrive as
//! string-encoded signed millisecond counts and are reduced to times of
//! day. Decoding fails as a whole as soon as any required field is
//! missing or of the wrong shape.

use vstd::prelude::*;

use crate::json::{obj_get, take_field, Json};
use crate::lyrics::{Line, LineView, Lyrics, LyricsView};
use crate::numbers::{parse_i64, parsed_i64};
use crate::timefmt::{wrap_ms, wrap_to_day, MS_PER_DAY};

verus! {

broadcast use vstd::string::group_string_axioms;

/// The string a JSON value holds, where it is a string.
pub open spec fn decode_string_spec(j: Json) -> Option<Seq<char>> {
    match j {
        Json::Str(s) => Some(s@),
        _ => None,
    }
}

/// The boolean a JSON value holds, where it is a boolean.
pub open spec fn decode_bool_spec(j: Json) -> Option<bool> {
    match j {
        Json::Bool(b) => Some(b),
        _ => None,
    }
}

/// The time of day a JSON value denotes: a string-encoded signed
/// millisecond count, reduced modulo one day.
pub open spec fn decode_time_spec(j: Json) -> Option<int> {
    match j {
        Json::Str(s) => match parsed_i64(s@) {
            Some(d) => Some(wrap_ms(d as int)),
            None => None,
        },
        _ => None,
    }
}

/// The strings of a JSON array, where every element is a string.
pub open spec fn decode_strings_spec(a: Seq<Json>) -> Option<Seq<Seq<char>>>
    decreases a.len(),
{
    if a.len() == 0 {
        Some(Seq::empty())
    } else {
        match decode_string_spec(a[0]) {
            None => None,
            Some(s) => match decode_strings_spec(a.drop_first()) {
                None => None,
                Some(r) => Some(seq![s] + r),
            },
        }
    }
}

/// The string under `key` in an object's field list.
pub open spec fn field_string(f: Seq<(String, Json)>, key: Seq<char>) -> Option<Seq<char>> {
    match obj_get(f, key) {
        Some(j) => decode_string_spec(j),
        None => None,
    }
}

/// The boolean under `key` in an object's field list.
pub open spec fn field_bool(f: Seq<(String, Json)>, key: Seq<char>) -> Option<bool> {
    match obj_get(f, key) {
        Some(j) => decode_bool_spec(j),
        None => None,
    }
}

/// The time of day under `key` in an object's field list.
pub open spec fn field_time(f: Seq<(String, Json)>, key: Seq<char>) -> Option<int> {
    match obj_get(f, key) {
        Some(j) => decode_time_spec(j),
        None => None,
    }
}

/// The array under `key` in an object's field list.
pub open spec fn field_array(f: Seq<(String, Json)>, key: Seq<char>) -> Option<Seq<Json>> {
    match obj_get(f, key) {
        Some(Json::Arr(a)) => Some(a@),
        _ => None,
    }
}

/// The line a JSON value decodes to, where it is an object of the
/// expected shape.
pub open spec fn decode_line_spec(j: Json) -> Option<LineView> {
    match j {
        Json::Obj(fields) => decode_line_fields_spec(fields@),
        _ => None,
    }
}

/// The line an object's field list decodes to.
pub open spec fn decode_line_fields_spec(f: Seq<(String, Json)>) -> Option<LineView> {
    match (field_time(f, "startTimeMs"@), field_string(f, "words"@), field_strings(
        f,
        "syllables"@,
    ), field_time(f, "endTimeMs"@)) {
        (Some(st), Some(w), Some(syl), Some(et)) => Some(
            (LineView { start_time_ms: st, words: w, syllables: syl, end_time_ms: et }),
        ),
        _ => None,
    }
}

/// The syllable strings under `key` in an object's field list.
pub open spec fn field_strings(f: Seq<(String, Json)>, key: Seq<char>) -> Option<Seq<Seq<char>>> {
    match field_array(f, key) {
        Some(a) => decode_strings_spec(a),
        None => None,
    }
}

/// The lines of a JSON array, where every element decodes to a line.
pub open spec fn decode_lines_spec(a: Seq<Json>) -> Option<Seq<LineView>>
    decreases a.len(),
{
    if a.len() == 0 {
        Some(Seq::empty())
    } else {
        match decode_line_spec(a[0]) {
            None => None,
            Some(l) => match decode_lines_spec(a.drop_first()) {
                None => None,
                Some(r) => Some(seq![l] + r),
            },
        }
    }
}

/// The lyrics payload a JSON value decodes to, where it is an object of
/// the expected shape.
pub open spec fn decode_lyrics_spec(j: Json) -> Option<LyricsView> {
    match j {
        Json::Obj(fields) => decode_lyrics_fields_spec(fields@),
        _ => None,
    }
}

/// The lyrics payload an object's field list decodes to.
pub open spec fn decode_lyrics_fields_spec(f: Seq<(String, Json)>) -> Option<LyricsView> {
    if field_string(f, "syncType"@) is None {
        None
    } else if field_array(f, "lines"@) is None {
        None
    } else if decode_lines_spec(field_array(f, "lines"@).unwrap()) is None {
        None
    } else if field_string(f, "provider"@) is None {
        None
    } else if field_string(f, "providerLyricsId"@) is None {
        None
    } else if field_string(f, "providerDisplayName"@) is None {
        None
    } else if field_string(f, "syncLyricsUri"@) is None {
        None
    } else if field_bool(f, "isDenseTypeface"@) is None {
        None
    } else if field_strings(f, "alternatives"@) is None {
        None
    } else if field_string(f, "language"@) is None {
        None
    } else if field_bool(f, "isRtlLanguage"@) is None {
        None
    } else if field_string(f, "capStatus"@) is None {
        None
    } else if field_array(f, "previewLines"@) is None {
        None
    } else {
        Some(
            (LyricsView {
                sync_type: field_string(f, "syncType"@).unwrap(),
                lines: decode_lines_spec(field_array(f, "lines"@).unwrap()).unwrap(),
                provider: field_string(f, "provider"@).unwrap(),
                provider_lyrics_id: field_string(f, "providerLyricsId"@).unwrap(),
                provider_display_name: field_string(f, "providerDisplayName"@).unwrap(),
                sync_lyrics_uri: field_string(f, "syncLyricsUri"@).unwrap(),
                is_dense_typeface: field_bool(f, "isDenseTypeface"@).unwrap(),
                alternatives: field_strings(f, "alternatives"@).unwrap(),
                language: field_string(f, "language"@).unwrap(),
                is_rtl_language: field_bool(f, "isRtlLanguage"@).unwrap(),
                cap_status: field_string(f, "capStatus"@).unwrap(),
                preview_lines: field_array(f, "previewLines"@).unwrap(),
            }),
        )
    }
}

/// The lyrics payload a whole response body decodes to: the value under
/// the top-level key `lyrics`.
pub open spec fn decode_body_spec(j: Json) -> Option<LyricsView> {
    match j {
        Json::Obj(f) => match obj_get(f@, "lyrics"@) {
            Some(lj) => decode_lyrics_spec(lj),
            None => None,
        },
        _ => None,
    }
}

/// `Option<Line>` seen as its mathematical value.
pub open spec fn line_opt_view(r: Option<Line>) -> Option<LineView> {
    match r {
        Some(l) => Some(l@),
        None => None,
    }
}

/// `Option<Lyrics>` seen as its mathematical value.
pub open spec fn lyrics_opt_view(r: Option<Lyrics>) -> Option<LyricsView> {
    match r {
        Some(ly) => Some(ly@),
        None => None,
    }
}

/// A missing or non-object `lyrics` key is a structural failure: no JSON
/// document without one decodes.
pub proof fn lemma_missing_lyrics_fails(j: Json)
    requires
        !(j matches Json::Obj(f) && obj_get(f@, "lyrics"@) is Some),
    ensures
        decode_body_spec(j) is None,
{
}

/// Decode one time-of-day field value.
fn decode_time(j: Json) -> (r: Option<u64>)
    ensures
        match r {
            Some(ms) => decode_time_spec(j) == Some(ms as int) && ms < MS_PER_DAY,
            None => decode_time_spec(j) is None,
        },
{
    match j {
        Json::Str(s) => match parse_i64(s.as_str()) {
            Some(d) => Some(wrap_to_day(d)),
            None => None,
        },
        _ => None,
    }
}

/// Decode an array whose elements must all be strings.
fn decode_strings(a: Vec<Json>) -> (r: Option<Vec<String>>)
    ensures
        match r {
            Some(v) => decode_strings_spec(a@) == Some(v.deep_view()),
            None => decode_strings_spec(a@) is None,
        },
{
    let ghost orig = a@;
    let mut rest = a;
    let mut out: Vec<String> = Vec::new();
    proof {
        assert(out.deep_view() + decode_strings_spec(orig).unwrap()
            =~= decode_strings_spec(orig).unwrap()) by {
            assert(out.deep_view() =~= Seq::<Seq<char>>::empty());
        }
    }
    while rest.len() > 0
        invariant
            orig == a@,
            decode_strings_spec(orig) == (match decode_strings_spec(rest@) {
                None => None::<Seq<Seq<char>>>,
                Some(t) => Some(out.deep_view() + t),
            }),
        decreases rest.len(),
    {
        let ghost pre = rest@;
        let j = rest.remove(0);
        proof {
            assert(pre.drop_first() =~= rest@);
        }
        match j {
            Json::Str(s) => {
                let ghost out_pre = out.deep_view();
                out.push(s);
                proof {
                    assert(out.deep_view() =~= out_pre.push(s@));
                    if decode_strings_spec(rest@) is Some {
                        assert(out_pre + (seq![s@] + decode_strings_spec(rest@).unwrap())
                            =~= out.deep_view() + decode_strings_spec(rest@).unwrap());
                    }
                }
            },
            _ => {
                return None;
            },
        }
    }
    proof {
        assert(decode_strings_spec(rest@) == Some(Seq::<Seq<char>>::empty()));
        assert(out.deep_view() + Seq::<Seq<char>>::empty() =~= out.deep_view());
    }
    Some(out)
}

/// Decode one lyric line.
pub fn decode_line(j: Json) -> (r: Option<Line>)
    ensures
        line_opt_view(r) == decode_line_spec(j),
        r matches Some(l) ==> l.wf(),
{
    let mut fields = match j {
        Json::Obj(fields) => fields,
        _ => {
            return None;
        },
    };
    let ghost f = fields@;
    proof {
        reveal_strlit("startTimeMs");
        reveal_strlit("words");
        reveal_strlit("syllables");
        reveal_strlit("endTimeMs");
        assert("startTimeMs"@.len() == 11 && "words"@.len() == 5 && "syllables"@.len() == 9
            && "endTimeMs"@.len() == 9);
        assert("syllables"@[0] == 's' && "endTimeMs"@[0] == 'e');
    }
    let st_j = take_field(&mut fields, "startTimeMs");
    proof {
        assert(obj_get(fields@, "words"@) == obj_get(f, "words"@));
        assert(obj_get(fields@, "syllables"@) == obj_get(f, "syllables"@));
        assert(obj_get(fields@, "endTimeMs"@) == obj_get(f, "endTimeMs"@));
    }
    let w_j = take_field(&mut fields, "words");
    proof {
        assert(obj_get(fields@, "syllables"@) == obj_get(f, "syllables"@));
        assert(obj_get(fields@, "endTimeMs"@) == obj_get(f, "endTimeMs"@));
    }
    let syl_j = take_field(&mut fields, "syllables");
    proof {
        assert(obj_get(fields@, "endTimeMs"@) == obj_get(f, "endTimeMs"@));
    }
    let et_j = take_field(&mut fields, "endTimeMs");
    let st = match st_j {
        Some(v) => match decode_time(v) {
            Some(x) => x,
            None => {
                return None;
            },
        },
        None => {
            return None;
        },
    };
    let w = match w_j {
        Some(Json::Str(s)) => s,
        _ => {
            return None;
        },
    };
    let syl = match syl_j {
        Some(Json::Arr(a)) => match decode_strings(a) {
            Some(v) => v,
            None => {
                return None;
            },
        },
        _ => {
            return None;
        },
    };
    let et = match et_j {
        Some(v) => match decode_time(v) {
            Some(x) => x,
            None => {
                return None;
            },
        },
        None => {
            return None;
        },
    };
    Some(Line { start_time_ms: st, words: w, syllables: syl, end_time_ms: et })
}

/// Decode an array whose elements must all be lyric lines.
fn decode_lines(a: Vec<Json>) -> (r: Option<Vec<Line>>)
    ensures
        match r {
            Some(v) => decode_lines_spec(a@) == Some(v@.map_values(|l: Line| l@)) && (forall|
                i: int,
            |
                0 <= i < v@.len() ==> (#[trigger] v@[i]).wf()),
            None => decode_lines_spec(a@) is None,
        },
{
    let ghost orig = a@;
    let mut rest = a;
    let mut out: Vec<Line> = Vec::new();
    proof {
        assert(out@.map_values(|l: Line| l@) + decode_lines_spec(orig).unwrap()
            =~= decode_lines_spec(orig).unwrap()) by {
            assert(out@.map_values(|l: Line| l@) =~= Seq::<LineView>::empty());
        }
    }
    while rest.len() > 0
        invariant
            orig == a@,
            decode_lines_spec(orig) == (match decode_lines_spec(rest@) {
                None => None::<Seq<LineView>>,
                Some(t) => Some(out@.map_values(|l: Line| l@) + t),
            }),
            forall|i: int| 0 <= i < out@.len() ==> (#[trigger] out@[i]).wf(),
        decreases rest.len(),
    {
        let ghost pre = rest@;
        let j = rest.remove(0);
        proof {
            assert(pre.drop_first() =~= rest@);
        }
        match decode_line(j) {
            Some(l) => {
                let ghost out_pre = out@.map_values(|x: Line| x@);
                out.push(l);
                proof {
                    assert(out@.map_values(|x: Line| x@) =~= out_pre.push(l@));
                    if decode_lines_spec(rest@) is Some {
                        assert(out_pre + (seq![l@] + decode_lines_spec(rest@).unwrap())
                            =~= out@.map_values(|x: Line| x@) + decode_lines_spec(rest@).unwrap());
                    }
                }
            },
            None => {
                return None;
            },
        }
    }
    proof {
        assert(decode_lines_spec(rest@) == Some(Seq::<LineView>::empty()));
        assert(out@.map_values(|l: Line| l@) + Seq::<LineView>::empty() =~= out@.map_values(
            |l: Line| l@,
        ));
    }
    Some(out)
}

/// Decode the lyrics payload itself.
#[verifier::rlimit(50)]
pub fn decode_lyrics(j: Json) -> (r: Option<Lyrics>)
    ensures
        lyrics_opt_view(r) == decode_lyrics_spec(j),
        r matches Some(ly) ==> ly.wf(),
{
    let mut fields = match j {
        Json::Obj(fields) => fields,
        _ => {
            return None;
        },
    };
    let ghost f = fields@;
    proof {
        reveal_strlit("syncType");
        reveal_strlit("lines");
        reveal_strlit("provider");
        reveal_strlit("providerLyricsId");
        reveal_strlit("providerDisplayName");
        reveal_strlit("syncLyricsUri");
        reveal_strlit("isDenseTypeface");
        reveal_strlit("alternatives");
        reveal_strlit("language");
        reveal_strlit("isRtlLanguage");
        reveal_strlit("capStatus");
        reveal_strlit("previewLines");
        assert("syncType"@.len() == 8 && "lines"@.len() == 5 && "provider"@.len() == 8
            && "providerLyricsId"@.len() == 16 && "providerDisplayName"@.len() == 19
            && "syncLyricsUri"@.len() == 13 && "isDenseTypeface"@.len() == 15
            && "alternatives"@.len() == 12 && "language"@.len() == 8 && "isRtlLanguage"@.len()
            == 13 && "capStatus"@.len() == 9 && "previewLines"@.len() == 12);
        assert("syncType"@[0] == 's' && "provider"@[0] == 'p' && "language"@[0] == 'l');
        assert("syncLyricsUri"@[0] == 's' && "isRtlLanguage"@[0] == 'i');
        assert("alternatives"@[0] == 'a' && "previewLines"@[0] == 'p');
    }
    let sync_type_j = take_field(&mut fields, "syncType");
    proof {
        assert(obj_get(fields@, "lines"@) == obj_get(f, "lines"@));
        assert(obj_get(fields@, "provider"@) == obj_get(f, "provider"@));
        assert(obj_get(fields@, "providerLyricsId"@) == obj_get(f, "providerLyricsId"@));
        assert(obj_get(fields@, "providerDisplayName"@) == obj_get(f, "providerDisplayName"@));
        assert(obj_get(fields@, "syncLyricsUri"@) == obj_get(f, "syncLyricsUri"@));
        assert(obj_get(fields@, "isDenseTypeface"@) == obj_get(f, "isDenseTypeface"@));
        assert(obj_get(fields@, "alternatives"@) == obj_get(f, "alternatives"@));
        assert(obj_get(fields@, "language"@) == obj_get(f, "language"@));
        assert(obj_get(fields@, "isRtlLanguage"@) == obj_get(f, "isRtlLanguage"@));
        assert(obj_get(fields@, "capStatus"@) == obj_get(f, "capStatus"@));
        assert(obj_get(fields@, "previewLines"@) == obj_get(f, "previewLines"@));
    }
    let lines_j = take_field(&mut fields, "lines");
    proof {
        assert(obj_get(fields@, "provider"@) == obj_get(f, "provider"@));
        assert(obj_get(fields@, "providerLyricsId"@) == obj_get(f, "providerLyricsId"@));
        assert(obj_get(fields@, "providerDisplayName"@) == obj_get(f, "providerDisplayName"@));
        assert(obj_get(fields@, "syncLyricsUri"@) == obj_get(f, "syncLyricsUri"@));
        assert(obj_get(fields@, "isDenseTypeface"@) == obj_get(f, "isDenseTypeface"@));
        assert(obj_get(fields@, "alternatives"@) == obj_get(f, "alternatives"@));
        assert(obj_get(fields@, "language"@) == obj_get(f, "language"@));
        assert(obj_get(fields@, "isRtlLanguage"@) == obj_get(f, "isRtlLanguage"@));
        assert(obj_get(fields@, "capStatus"@) == obj_get(f, "capStatus"@));
        assert(obj_get(fields@, "previewLines"@) == obj_get(f, "previewLines"@));
    }
    let provider_j = take_field(&mut fields, "provider");
    proof {
        assert(obj_get(fields@, "providerLyricsId"@) == obj_get(f, "providerLyricsId"@));
        assert(obj_get(fields@, "providerDisplayName"@) == obj_get(f, "providerDisplayName"@));
        assert(obj_get(fields@, "syncLyricsUri"@) == obj_get(f, "syncLyricsUri"@));
        assert(obj_get(fields@, "isDenseTypeface"@) == obj_get(f, "isDenseTypeface"@));
        assert(obj_get(fields@, "alternatives"@) == obj_get(f, "alternatives"@));
        assert(obj_get(fields@, "language"@) == obj_get(f, "language"@));
        assert(obj_get(fields@, "isRtlLanguage"@) == obj_get(f, "isRtlLanguage"@));
        assert(obj_get(fields@, "capStatus"@) == obj_get(f, "capStatus"@));
        assert(obj_get(fields@, "previewLines"@) == obj_get(f, "previewLines"@));
    }
    let provider_lyrics_id_j = take_field(&mut fields, "providerLyricsId");
    proof {
        assert(obj_get(fields@, "providerDisplayName"@) == obj_get(f, "providerDisplayName"@));
        assert(obj_get(fields@, "syncLyricsUri"@) == obj_get(f, "syncLyricsUri"@));
        assert(obj_get(fields@, "isDenseTypeface"@) == obj_get(f, "isDenseTypeface"@));
        assert(obj_get(fields@, "alternatives"@) == obj_get(f, "alternatives"@));
        assert(obj_get(fields@, "language"@) == obj_get(f, "language"@));
        assert(obj_get(fields@, "isRtlLanguage"@) == obj_get(f, "isRtlLanguage"@));
        assert(obj_get(fields@, "capStatus"@) == obj_get(f, "capStatus"@));
        assert(obj_get(fields@, "previewLines"@) == obj_get(f, "previewLines"@));
    }
    let provider_display_name_j = take_field(&mut fields, "providerDisplayName");
    proof {
        assert(obj_get(fields@, "syncLyricsUri"@) == obj_get(f, "syncLyricsUri"@));
        assert(obj_get(fields@, "isDenseTypeface"@) == obj_get(f, "isDenseTypeface"@));
        assert(obj_get(fields@, "alternatives"@) == obj_get(f, "alternatives"@));
        assert(obj_get(fields@, "language"@) == obj_get(f, "language"@));
        assert(obj_get(fields@, "isRtlLanguage"@) == obj_get(f, "isRtlLanguage"@));
        assert(obj_get(fields@, "capStatus"@) == obj_get(f, "capStatus"@));
        assert(obj_get(fields@, "previewLines"@) == obj_get(f, "previewLines"@));
    }
    let sync_lyrics_uri_j = take_field(&mut fields, "syncLyricsUri");
    proof {
        assert(obj_get(fields@, "isDenseTypeface"@) == obj_get(f, "isDenseTypeface"@));
        assert(obj_get(fields@, "alternatives"@) == obj_get(f, "alternatives"@));
        assert(obj_get(fields@, "language"@) == obj_get(f, "language"@));
        assert(obj_get(fields@, "isRtlLanguage"@) == obj_get(f, "isRtlLanguage"@));
        assert(obj_get(fields@, "capStatus"@) == obj_get(f, "capStatus"@));
        assert(obj_get(fields@, "previewLines"@) == obj_get(f, "previewLines"@));
    }
    let is_dense_typeface_j = take_field(&mut fields, "isDenseTypeface");
    proof {
        assert(obj_get(fields@, "alternatives"@) == obj_get(f, "alternatives"@));
        assert(obj_get(fields@, "language"@) == obj_get(f, "language"@));
        assert(obj_get(fields@, "isRtlLanguage"@) == obj_get(f, "isRtlLanguage"@));
        assert(obj_get(fields@, "capStatus"@) == obj_get(f, "capStatus"@));
        assert(obj_get(fields@, "previewLines"@) == obj_get(f, "previewLines"@));
    }
    let alternatives_j = take_field(&mut fields, "alternatives");
    proof {
        assert(obj_get(fields@, "language"@) == obj_get(f, "language"@));
        assert(obj_get(fields@, "isRtlLanguage"@) == obj_get(f, "isRtlLanguage"@));
        assert(obj_get(fields@, "capStatus"@) == obj_get(f, "capStatus"@));
        assert(obj_get(fields@, "previewLines"@) == obj_get(f, "previewLines"@));
    }
    let language_j = take_field(&mut fields, "language");
    proof {
        assert(obj_get(fields@, "isRtlLanguage"@) == obj_get(f, "isRtlLanguage"@));
        assert(obj_get(fields@, "capStatus"@) == obj_get(f, "capStatus"@));
        assert(obj_get(fields@, "previewLines"@) == obj_get(f, "previewLines"@));
    }
    let is_rtl_language_j = take_field(&mut fields, "isRtlLanguage");
    proof {
        assert(obj_get(fields@, "capStatus"@) == obj_get(f, "capStatus"@));
        assert(obj_get(fields@, "previewLines"@) == obj_get(f, "previewLines"@));
    }
    let cap_status_j = take_field(&mut fields, "capStatus");
    proof {
        assert(obj_get(fields@, "previewLines"@) == obj_get(f, "previewLines"@));
    }
    let preview_lines_j = take_field(&mut fields, "previewLines");
    let sync_type = match sync_type_j {
        Some(Json::Str(s)) => s,
        _ => {
            return None;
        },
    };
    let lines_arr = match lines_j {
        Some(Json::Arr(a)) => a,
        _ => {
            return None;
        },
    };
    let provider = match provider_j {
        Some(Json::Str(s)) => s,
        _ => {
            return None;
        },
    };
    let provider_lyrics_id = match provider_lyrics_id_j {
        Some(Json::Str(s)) => s,
        _ => {
            return None;
        },
    };
    let provider_display_name = match provider_display_name_j {
        Some(Json::Str(s)) => s,
        _ => {
            return None;
        },
    };
    let sync_lyrics_uri = match sync_lyrics_uri_j {
        Some(Json::Str(s)) => s,
        _ => {
            return None;
        },
    };
    let is_dense_typeface = match is_dense_typeface_j {
        Some(Json::Bool(b)) => b,
        _ => {
            return None;
        },
    };
    let alternatives = match alternatives_j {
        Some(Json::Arr(a)) => match decode_strings(a) {
            Some(v) => v,
            None => {
                return None;
            },
        },
        _ => {
            return None;
        },
    };
    let language = match language_j {
        Some(Json::Str(s)) => s,
        _ => {
            return None;
        },
    };
    let is_rtl_language = match is_rtl_language_j {
        Some(Json::Bool(b)) => b,
        _ => {
            return None;
        },
    };
    let cap_status = match cap_status_j {
        Some(Json::Str(s)) => s,
        _ => {
            return None;
        },
    };
    let preview_lines = match preview_lines_j {
        Some(Json::Arr(a)) => a,
        _ => {
            return None;
        },
    };
    let lines = match decode_lines(lines_arr) {
        Some(v) => v,
        None => {
            return None;
        },
    };
    Some(
        Lyrics {
            sync_type,
            lines,
            provider,
            provider_lyrics_id,
            provider_display_name,
            sync_lyrics_uri,
            is_dense_typeface,
            alternatives,
            language,
            is_rtl_language,
            cap_status,
            preview_lines,
        },
    )
}

/// Decode a whole response body: the payload under the top-level key
/// `lyrics`.
pub fn decode_body(j: Json) -> (r: Option<Lyrics>)
    ensures
        lyrics_opt_view(r) == decode_body_spec(j),
        r matches Some(ly) ==> ly.wf(),
{
    let mut fields = match j {
        Json::Obj(fields) => fields,
        _ => {
            return None;
        },
    };
    match take_field(&mut fields, "lyrics") {
        Some(lj) => decode_lyrics(lj),
        None => None,
    }
}

} // verus!
