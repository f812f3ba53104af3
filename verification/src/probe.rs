//! Probe-output handling: the JSON document produced by the external probe
//! tool is navigated through trusted accessors, and every field is read
//! defensively by verified parsers — absent or unparseable fields fall back
//! to `0` or `"unknown"`, exactly as the metadata model documents.

use vstd::prelude::*;
use crate::error::VideoError;
use crate::metadata::VideoMetadata;
use crate::parse::{parse_u64_dec, parse_decimal_scaled, spec_scaled_val, valid_decimal,
    all_digits, digits_val};
use crate::text::{ascii_lower, last_dot, spec_last_dot, spec_lower, str_eq, u64_to_string,
    dec_str};

verus! {

#[verifier::external_type_specification]
#[verifier::external_body]
pub struct ExValue(serde_json::Value);

/// What the JSON parser returns for a byte sequence: the document, or the
/// rendered parse error; a function of the bytes alone.
pub uninterp spec fn json_doc_of(bytes: Seq<u8>) -> Result<serde_json::Value, Seq<char>>;

/// The mathematical value of a parse result: the document, or the error
/// text's view.
pub open spec fn doc_result_view(r: Result<serde_json::Value, String>) -> Result<
    serde_json::Value,
    Seq<char>,
> {
    match r {
        Result::Ok(v) => Result::Ok(v),
        Result::Err(m) => Result::Err(m@),
    }
}

/// Relies on `serde_json::from_slice`: parses a byte slice as one JSON
/// document; the error is rendered to text.
#[verifier::external_body]
fn parse_json(bytes: &[u8]) -> (r: Result<serde_json::Value, String>)
    ensures
        doc_result_view(r) == json_doc_of(bytes@),
{
    match serde_json::from_slice::<serde_json::Value>(bytes) {
        Ok(v) => Ok(v),
        Err(e) => Err(e.to_string()),
    }
}

/// What key lookup returns on a JSON value: the child under the key when
/// the value is an object that has it, `None` otherwise.
pub uninterp spec fn json_get_of(v: serde_json::Value, key: Seq<char>) -> Option<
    serde_json::Value,
>;

/// The mathematical value of an optional borrowed JSON value.
pub open spec fn opt_value_view(r: Option<&serde_json::Value>) -> Option<serde_json::Value> {
    match r {
        Option::Some(x) => Option::Some(*x),
        Option::None => Option::None,
    }
}

/// Relies on `serde_json::Value::get`: looks a key up in a JSON object;
/// `None` when the value is not an object or lacks the key.
#[verifier::external_body]
fn json_get<'a>(v: &'a serde_json::Value, key: &str) -> (r: Option<&'a serde_json::Value>)
    ensures
        opt_value_view(r) == json_get_of(*v, key@),
{
    v.get(key)
}

/// What string extraction returns on a JSON value: the payload when it is
/// a JSON string, `None` otherwise.
pub uninterp spec fn json_str_of(v: serde_json::Value) -> Option<Seq<char>>;

/// The mathematical value of an optional borrowed string.
pub open spec fn opt_str_view(r: Option<&str>) -> Option<Seq<char>> {
    match r {
        Option::Some(s) => Option::Some(s@),
        Option::None => Option::None,
    }
}

/// Relies on `serde_json::Value::as_str`: the payload of a JSON string,
/// `None` for any other kind of value.
#[verifier::external_body]
fn json_as_str<'a>(v: &'a serde_json::Value) -> (r: Option<&'a str>)
    ensures
        opt_str_view(r) == json_str_of(*v),
{
    v.as_str()
}

/// What unsigned extraction returns on a JSON value: the number when it is
/// representable as `u64`, `None` otherwise.
pub uninterp spec fn json_u64_of(v: serde_json::Value) -> Option<u64>;

/// Relies on `serde_json::Value::as_u64`: the value of a JSON number
/// representable as `u64`, `None` otherwise.
#[verifier::external_body]
fn json_as_u64(v: &serde_json::Value) -> (r: Option<u64>)
    ensures
        r == json_u64_of(*v),
{
    v.as_u64()
}

/// What array extraction returns on a JSON value: the elements when it is
/// a JSON array, `None` otherwise.
pub uninterp spec fn json_array_of(v: serde_json::Value) -> Option<Seq<serde_json::Value>>;

/// The mathematical value of an optional borrowed JSON array.
pub open spec fn opt_array_view(r: Option<&Vec<serde_json::Value>>) -> Option<
    Seq<serde_json::Value>,
> {
    match r {
        Option::Some(a) => Option::Some(a@),
        Option::None => Option::None,
    }
}

/// Relies on `serde_json::Value::as_array`: the elements of a JSON array,
/// `None` for any other kind of value.
#[verifier::external_body]
fn json_as_array<'a>(v: &'a serde_json::Value) -> (r: Option<&'a Vec<serde_json::Value>>)
    ensures
        opt_array_view(r) == json_array_of(*v),
{
    v.as_array()
}

/// The string payload under `key` of a JSON object, when it has one.
pub open spec fn stream_str_of(s: serde_json::Value, key: Seq<char>) -> Option<Seq<char>> {
    match json_get_of(s, key) {
        Option::Some(v) => json_str_of(v),
        Option::None => Option::None,
    }
}

/// The string payload under `key`, when the stream object has one.
fn stream_str<'a>(stream: &'a serde_json::Value, key: &str) -> (r: Option<&'a str>)
    ensures
        opt_str_view(r) == stream_str_of(*stream, key@),
{
    match json_get(stream, key) {
        Some(v) => json_as_str(v),
        None => None,
    }
}

/// Index of the first `'/'` in `s`, or `-1`.
pub open spec fn first_slash(s: Seq<char>) -> int
    decreases s.len(),
{
    if s.len() == 0 {
        -1
    } else if s[0] == '/' {
        0
    } else if first_slash(s.skip(1)) < 0 {
        -1
    } else {
        first_slash(s.skip(1)) + 1
    }
}

proof fn lemma_first_slash_at(s: Seq<char>, k: int)
    requires
        0 <= k < s.len(),
        s[k] == '/',
        forall|t: int| 0 <= t < k ==> s[t] != '/',
    ensures
        first_slash(s) == k,
    decreases s.len(),
{
    if k > 0 {
        assert(s.skip(1)[k - 1] == s[k]);
        assert(forall|t: int| 0 <= t < k - 1 ==> s.skip(1)[t] == #[trigger] s[t + 1]);
        lemma_first_slash_at(s.skip(1), k - 1);
    }
}

proof fn lemma_first_slash_none(s: Seq<char>)
    requires
        forall|t: int| 0 <= t < s.len() ==> s[t] != '/',
    ensures
        first_slash(s) == -1,
    decreases s.len(),
{
    if s.len() > 0 {
        assert(forall|t: int| 0 <= t < s.skip(1).len() ==> s.skip(1)[t] == #[trigger] s[t + 1]);
        lemma_first_slash_none(s.skip(1));
    }
}

/// Position of the first `'/'` in `s`, when there is one.
fn find_slash_pos(s: &str) -> (r: Option<usize>)
    ensures
        r matches Some(i) ==> i < s@.len() && i as int == first_slash(s@),
        r is None ==> first_slash(s@) == -1,
{
    let len = s.unicode_len();
    let mut i: usize = 0;
    while i < len
        invariant
            i <= len,
            len == s@.len(),
            forall|t: int| 0 <= t < i ==> s@[t] != '/',
        decreases len - i,
    {
        if s.get_char(i) == '/' {
            proof {
                lemma_first_slash_at(s@, i as int);
            }
            return Some(i);
        }
        i += 1;
    }
    proof {
        lemma_first_slash_none(s@);
    }
    None
}

/// The frame rate in thousandths denoted by a probe `r_frame_rate` string:
/// a `num/den` ratio when the string holds exactly one slash and a nonzero
/// denominator, a plain decimal otherwise; `0` for anything unparseable or
/// out of range.
pub open spec fn spec_fps_millis(s: Seq<char>) -> int {
    let c = first_slash(s);
    if c >= 0 {
        if first_slash(s.skip(c + 1)) >= 0 {
            0
        } else {
            let num = s.take(c);
            let den = s.skip(c + 1);
            if valid_decimal(num) && spec_scaled_val(num, 3) <= u64::MAX && valid_decimal(den)
                && spec_scaled_val(den, 3) <= u64::MAX && spec_scaled_val(den, 3) != 0 {
                let q = spec_scaled_val(num, 3) * 1000 / spec_scaled_val(den, 3);
                if q <= u64::MAX {
                    q
                } else {
                    0
                }
            } else {
                0
            }
        }
    } else {
        if valid_decimal(s) && spec_scaled_val(s, 3) <= u64::MAX {
            spec_scaled_val(s, 3)
        } else {
            0
        }
    }
}

/// Parses a probe frame-rate string into thousandths of a frame per second.
pub fn fps_millis_of(s: &str) -> (r: u64)
    ensures
        r as int == spec_fps_millis(s@),
{
    let len = s.unicode_len();
    match find_slash_pos(s) {
        Some(c) => {
            let num_str = s.substring_char(0, c);
            let den_str = s.substring_char(c + 1, len);
            proof {
                assert(num_str@ =~= s@.take(c as int));
                assert(den_str@ =~= s@.skip(c + 1));
            }
            if let Some(_) = find_slash_pos(den_str) {
                return 0;
            }
            let num = match parse_decimal_scaled(num_str, 3) {
                Some(v) => v,
                None => {
                    return 0;
                },
            };
            let den = match parse_decimal_scaled(den_str, 3) {
                Some(v) => v,
                None => {
                    return 0;
                },
            };
            if den == 0 {
                return 0;
            }
            let q: u128 = (num as u128) * 1000 / (den as u128);
            if q > u64::MAX as u128 {
                0
            } else {
                q as u64
            }
        },
        None => {
            match parse_decimal_scaled(s, 3) {
                Some(v) => v,
                None => 0,
            }
        },
    }
}

/// The `WxH` resolution string for a width and height.
fn resolution_string(w: u64, h: u64) -> (r: String)
    ensures
        r@ == dec_str(w as nat) + "x"@ + dec_str(h as nat),
{
    let mut r = u64_to_string(w);
    r.append("x");
    let hs = u64_to_string(h);
    r.append(hs.as_str());
    r
}


/// The streams array of a probe document, when it has one.
pub open spec fn doc_streams(json: serde_json::Value) -> Option<Seq<serde_json::Value>> {
    match json_get_of(json, "streams"@) {
        Option::Some(v) => json_array_of(v),
        Option::None => Option::None,
    }
}

/// The stream's `codec_type` is exactly `ty`.
pub open spec fn stream_has_type(s: serde_json::Value, ty: Seq<char>) -> bool {
    stream_str_of(s, "codec_type"@) == Option::Some(ty)
}

/// The first stream of type `ty`, scanning in order.
pub open spec fn first_stream_with(ss: Seq<serde_json::Value>, ty: Seq<char>) -> Option<
    serde_json::Value,
>
    decreases ss.len(),
{
    if ss.len() == 0 {
        Option::None
    } else if stream_has_type(ss[0], ty) {
        Option::Some(ss[0])
    } else {
        first_stream_with(ss.skip(1), ty)
    }
}

proof fn lemma_first_stream_take(ss: Seq<serde_json::Value>, ty: Seq<char>, i: int)
    requires
        0 <= i < ss.len(),
    ensures
        first_stream_with(ss.take(i + 1), ty) == (match first_stream_with(ss.take(i), ty) {
            Option::Some(v) => Option::Some(v),
            Option::None => if stream_has_type(ss[i], ty) {
                Option::Some(ss[i])
            } else {
                Option::None
            },
        }),
    decreases i,
{
    if i == 0 {
        assert(ss.take(1)[0] == ss[0]);
        assert(ss.take(1).len() == 1);
        assert(ss.take(0).len() == 0);
        assert(first_stream_with(ss.take(0), ty) is None);
        assert(ss.take(1).skip(1) =~= Seq::<serde_json::Value>::empty());
        if stream_has_type(ss[0], ty) {
            assert(first_stream_with(ss.take(1), ty) == Option::Some(ss[0]));
        } else {
            assert(first_stream_with(ss.take(1), ty) == first_stream_with(
                Seq::<serde_json::Value>::empty(),
                ty,
            ));
            assert(first_stream_with(Seq::<serde_json::Value>::empty(), ty) is None);
        }
    } else {
        assert(ss.take(i + 1)[0] == ss[0]);
        assert(ss.take(i)[0] == ss[0]);
        assert(ss.take(i + 1).skip(1) =~= ss.skip(1).take(i));
        assert(ss.take(i).skip(1) =~= ss.skip(1).take(i - 1));
        assert(ss.skip(1)[i - 1] == ss[i]);
        lemma_first_stream_take(ss.skip(1), ty, i - 1);
        if stream_has_type(ss[0], ty) {
            assert(first_stream_with(ss.take(i + 1), ty) == Option::Some(ss[0]));
            assert(first_stream_with(ss.take(i), ty) == Option::Some(ss[0]));
        } else {
            assert(first_stream_with(ss.take(i + 1), ty) == first_stream_with(
                ss.skip(1).take(i),
                ty,
            ));
            assert(first_stream_with(ss.take(i), ty) == first_stream_with(
                ss.skip(1).take(i - 1),
                ty,
            ));
        }
    }
}

/// The probe document has a streams array holding a video stream.
pub open spec fn probe_has_video(json: serde_json::Value) -> bool {
    match doc_streams(json) {
        Option::Some(ss) => first_stream_with(ss, "video"@) is Some,
        Option::None => false,
    }
}

/// A string field of a stream, with a default when absent or not a string.
pub open spec fn str_field_or(s: serde_json::Value, key: Seq<char>, dflt: Seq<char>) -> Seq<
    char,
> {
    match stream_str_of(s, key) {
        Option::Some(t) => t,
        Option::None => dflt,
    }
}

/// A numeric JSON field of a stream, 0 when absent or not a `u64` number.
pub open spec fn u64_field_or_zero(s: serde_json::Value, key: Seq<char>) -> u64 {
    match json_get_of(s, key) {
        Option::Some(v) => match json_u64_of(v) {
            Option::Some(w) => w,
            Option::None => 0u64,
        },
        Option::None => 0u64,
    }
}

/// The integer a digit string denotes, 0 when malformed or out of range.
pub open spec fn parsed_u64_or_zero(t: Seq<char>) -> int {
    if t.len() > 0 && all_digits(t) && digits_val(t) <= u64::MAX {
        digits_val(t)
    } else {
        0
    }
}

/// A string-transported integer field of a stream, defaulting to 0.
pub open spec fn text_u64_field(s: serde_json::Value, key: Seq<char>) -> int {
    match stream_str_of(s, key) {
        Option::Some(t) => parsed_u64_or_zero(t),
        Option::None => 0,
    }
}

/// A string-transported integer field of the format object, defaulting to
/// 0 when the document has no format object.
pub open spec fn format_u64_field(json: serde_json::Value, key: Seq<char>) -> int {
    match json_get_of(json, "format"@) {
        Option::Some(f) => text_u64_field(f, key),
        Option::None => 0,
    }
}

/// A string-transported decimal field of the format object, read in
/// centiseconds, defaulting to 0.
pub open spec fn format_centis_field(json: serde_json::Value, key: Seq<char>) -> int {
    match json_get_of(json, "format"@) {
        Option::Some(f) => match stream_str_of(f, key) {
            Option::Some(t) => if valid_decimal(t) && spec_scaled_val(t, 2) <= u64::MAX {
                spec_scaled_val(t, 2)
            } else {
                0
            },
            Option::None => 0,
        },
        Option::None => 0,
    }
}

/// The frame rate of the video stream in thousandths, 0 when absent.
pub open spec fn fps_field(video: serde_json::Value) -> int {
    match stream_str_of(video, "r_frame_rate"@) {
        Option::Some(t) => spec_fps_millis(t),
        Option::None => 0,
    }
}

/// The audio codec name, `"none"` without an audio stream.
pub open spec fn audio_codec_field(ss: Seq<serde_json::Value>) -> Seq<char> {
    match first_stream_with(ss, "audio"@) {
        Option::Some(a) => str_field_or(a, "codec_name"@, "none"@),
        Option::None => "none"@,
    }
}

/// The audio sample rate, 0 without an audio stream or beyond `u32`.
pub open spec fn audio_sample_rate_field(ss: Seq<serde_json::Value>) -> int {
    match first_stream_with(ss, "audio"@) {
        Option::Some(a) => if text_u64_field(a, "sample_rate"@) <= u32::MAX {
            text_u64_field(a, "sample_rate"@)
        } else {
            0
        },
        Option::None => 0,
    }
}

/// The audio bitrate, 0 without an audio stream.
pub open spec fn audio_bitrate_field(ss: Seq<serde_json::Value>) -> int {
    match first_stream_with(ss, "audio"@) {
        Option::Some(a) => text_u64_field(a, "bit_rate"@),
        Option::None => 0,
    }
}

/// A lower-cased string field of the video stream, `"unknown"` when absent.
pub open spec fn lowered_field_or_unknown(s: serde_json::Value, key: Seq<char>) -> Seq<char> {
    match stream_str_of(s, key) {
        Option::Some(t) => spec_lower(t),
        Option::None => "unknown"@,
    }
}

/// Every metadata field of `m` is the spec'd reading of the probe document
/// `json` and extension `ext`: each probe field feeds its metadata field,
/// with `0`, `"unknown"` or `"none"` where absent or unparseable.
pub open spec fn probe_fields_ok(json: serde_json::Value, ext: Seq<char>, m: VideoMetadata) -> bool {
    match doc_streams(json) {
        Option::Some(ss) => match first_stream_with(ss, "video"@) {
            Option::Some(video) => {
                &&& m.codec@ == str_field_or(video, "codec_name"@, "unknown"@)
                &&& m.resolution@ == dec_str(u64_field_or_zero(video, "width"@) as nat) + "x"@
                    + dec_str(u64_field_or_zero(video, "height"@) as nat)
                &&& m.duration_centis as int == format_centis_field(json, "duration"@)
                &&& m.bitrate as int == format_u64_field(json, "bit_rate"@)
                &&& m.size as int == format_u64_field(json, "size"@)
                &&& m.fps_millis as int == fps_field(video)
                &&& m.audio_codec@ == audio_codec_field(ss)
                &&& m.audio_sample_rate as int == audio_sample_rate_field(ss)
                &&& m.audio_bitrate as int == audio_bitrate_field(ss)
                &&& m.container@ == spec_lower(ext)
                &&& m.profile@ == lowered_field_or_unknown(video, "profile"@)
                &&& m.color_space@ == lowered_field_or_unknown(video, "color_space"@)
            },
            Option::None => false,
        },
        Option::None => false,
    }
}

/// Extracts one asset's metadata from a probe JSON document and the file's
/// extension. Succeeds exactly when the document has a streams array with a
/// video stream; every field is read defensively, with `0`, `"unknown"` or
/// `"none"` for anything absent or unparseable, and the container is the
/// lower-cased extension.
pub fn metadata_from_probe(json: &serde_json::Value, extension: &str) -> (r: Result<
    VideoMetadata,
    VideoError,
>)
    ensures
        (r is Ok) == probe_has_video(*json),
        r matches Err(e) ==> e is FFmpeg,
        r matches Ok(m) ==> probe_fields_ok(*json, extension@, m),
{
    proof {
        reveal_strlit("video");
        reveal_strlit("audio");
    }
    let streams_v = match json_get(json, "streams") {
        Some(v) => v,
        None => {
            return Err(VideoError::FFmpeg(String::from_str("No streams found in video file")));
        },
    };
    let streams = match json_as_array(streams_v) {
        Some(a) => a,
        None => {
            return Err(VideoError::FFmpeg(String::from_str("No streams found in video file")));
        },
    };
    let ghost ss = streams@;
    proof {
        assert(doc_streams(*json) == Option::Some(ss));
    }

    let mut video_stream: Option<&serde_json::Value> = None;
    let mut audio_stream: Option<&serde_json::Value> = None;
    let n = streams.len();
    let mut i: usize = 0;
    proof {
        assert(ss.take(0).len() == 0);
        assert("video"@ != "audio"@) by {
            reveal_strlit("video");
            reveal_strlit("audio");
            assert("video"@[0] == 'v');
            assert("audio"@[0] == 'a');
        }
    }
    while i < n
        invariant
            i <= n,
            n == ss.len(),
            streams@ == ss,
            video_stream matches Some(v) ==> first_stream_with(ss.take(i as int), "video"@)
                == Option::Some(*v),
            video_stream is None ==> first_stream_with(ss.take(i as int), "video"@) is None,
            audio_stream matches Some(a) ==> first_stream_with(ss.take(i as int), "audio"@)
                == Option::Some(*a),
            audio_stream is None ==> first_stream_with(ss.take(i as int), "audio"@) is None,
            "video"@ != "audio"@,
        decreases n - i,
    {
        proof {
            lemma_first_stream_take(ss, "video"@, i as int);
            lemma_first_stream_take(ss, "audio"@, i as int);
        }
        let st = &streams[i];
        match stream_str(st, "codec_type") {
            Some(t) => {
                if video_stream.is_none() && str_eq(t, "video") {
                    video_stream = Some(st);
                } else if audio_stream.is_none() && str_eq(t, "audio") {
                    audio_stream = Some(st);
                }
            },
            None => {},
        }
        i += 1;
    }
    proof {
        assert(ss.take(n as int) =~= ss);
    }

    let video = match video_stream {
        Some(v) => v,
        None => {
            return Err(VideoError::FFmpeg(String::from_str("No video stream found")));
        },
    };

    let codec = match stream_str(video, "codec_name") {
        Some(s) => String::from_str(s),
        None => String::from_str("unknown"),
    };

    let width = match json_get(video, "width") {
        Some(v) => match json_as_u64(v) {
            Some(w) => w,
            None => 0,
        },
        None => 0,
    };
    let height = match json_get(video, "height") {
        Some(v) => match json_as_u64(v) {
            Some(h) => h,
            None => 0,
        },
        None => 0,
    };
    let resolution = resolution_string(width, height);

    let fmt = json_get(json, "format");
    let duration_centis = match fmt {
        Some(f) => match stream_str(f, "duration") {
            Some(d) => match parse_decimal_scaled(d, 2) {
                Some(v) => v,
                None => 0,
            },
            None => 0,
        },
        None => 0,
    };
    let bitrate = match fmt {
        Some(f) => match stream_str(f, "bit_rate") {
            Some(b) => match parse_u64_dec(b) {
                Some(v) => v,
                None => 0,
            },
            None => 0,
        },
        None => 0,
    };
    let size = match fmt {
        Some(f) => match stream_str(f, "size") {
            Some(b) => match parse_u64_dec(b) {
                Some(v) => v,
                None => 0,
            },
            None => 0,
        },
        None => 0,
    };

    let fps_millis = match stream_str(video, "r_frame_rate") {
        Some(s) => fps_millis_of(s),
        None => 0,
    };

    let audio_codec = match audio_stream {
        Some(a) => match stream_str(a, "codec_name") {
            Some(s) => String::from_str(s),
            None => String::from_str("none"),
        },
        None => String::from_str("none"),
    };
    let audio_sample_rate: u32 = match audio_stream {
        Some(a) => match stream_str(a, "sample_rate") {
            Some(s) => match parse_u64_dec(s) {
                Some(v) => {
                    if v <= u32::MAX as u64 {
                        v as u32
                    } else {
                        0
                    }
                },
                None => 0,
            },
            None => 0,
        },
        None => 0,
    };
    let audio_bitrate = match audio_stream {
        Some(a) => match stream_str(a, "bit_rate") {
            Some(s) => match parse_u64_dec(s) {
                Some(v) => v,
                None => 0,
            },
            None => 0,
        },
        None => 0,
    };

    let container = ascii_lower(extension);
    let profile = match stream_str(video, "profile") {
        Some(s) => ascii_lower(s),
        None => String::from_str("unknown"),
    };
    let color_space = match stream_str(video, "color_space") {
        Some(s) => ascii_lower(s),
        None => String::from_str("unknown"),
    };

    let m = VideoMetadata {
        codec,
        resolution,
        duration_centis,
        bitrate,
        size,
        fps_millis,
        audio_codec,
        audio_sample_rate,
        audio_bitrate,
        container,
        profile,
        color_space,
    };
    proof {
        assert(probe_fields_ok(*json, extension@, m));
    }
    Ok(m)
}

/// Parses raw probe output into metadata. Succeeds exactly when the bytes
/// are a JSON document holding a streams array with a video stream; an
/// unparseable document fails with the parser's rendered message.
pub fn metadata_from_probe_bytes(bytes: &[u8], extension: &str) -> (r: Result<
    VideoMetadata,
    VideoError,
>)
    ensures
        (r is Ok) == (json_doc_of(bytes@) matches Ok(doc) && probe_has_video(doc)),
        r matches Err(e) ==> e is FFmpeg,
        r matches Ok(m) ==> (json_doc_of(bytes@) matches Ok(doc) && probe_fields_ok(
            doc,
            extension@,
            m,
        )),
        json_doc_of(bytes@) matches Err(t) ==> (r matches Err(e) && e matches
            VideoError::FFmpeg(msg) && msg@ == t),
{
    let json = match parse_json(bytes) {
        Ok(v) => v,
        Err(msg) => {
            return Err(VideoError::FFmpeg(msg));
        },
    };
    metadata_from_probe(&json, extension)
}


/// The file name carries a video extension the pipeline accepts: `mp4` or
/// `avi` after the last dot. A name whose only dot leads it, such as a
/// hidden file, has no extension and is not a video name.
pub open spec fn is_video_name(n: String) -> bool {
    spec_last_dot(n@) >= 1 && (n@.subrange(spec_last_dot(n@) + 1, n@.len() as int) == "mp4"@
        || n@.subrange(spec_last_dot(n@) + 1, n@.len() as int) == "avi"@)
}

/// The subsequence of names with an accepted video extension, in order.
pub open spec fn video_files(names: Seq<String>) -> Seq<String>
    decreases names.len(),
{
    if names.len() == 0 {
        Seq::empty()
    } else if is_video_name(names.last()) {
        video_files(names.drop_last()).push(names.last())
    } else {
        video_files(names.drop_last())
    }
}

/// Whether this file name carries an accepted video extension.
fn has_video_extension(name: &str) -> (r: bool)
    ensures
        r == (spec_last_dot(name@) >= 1 && (name@.subrange(
            spec_last_dot(name@) + 1,
            name@.len() as int,
        ) == "mp4"@ || name@.subrange(spec_last_dot(name@) + 1, name@.len() as int) == "avi"@)),
{
    let len = name.unicode_len();
    match last_dot(name) {
        Some(d) if d > 0 => {
            let ext = name.substring_char(d + 1, len);
            proof {
                assert(ext@ =~= name@.subrange(spec_last_dot(name@) + 1, name@.len() as int));
            }
            str_eq(ext, "mp4") || str_eq(ext, "avi")
        },
        _ => false,
    }
}

/// Keeps the names with an accepted video extension, in order; an empty
/// selection is the no-assets error.
pub fn select_video_files(names: Vec<String>) -> (r: Result<Vec<String>, VideoError>)
    ensures
        r matches Ok(v) ==> v@ == video_files(names@) && video_files(names@).len() > 0,
        r is Err ==> video_files(names@).len() == 0,
        r matches Err(e) ==> e is NoVideosFound,
{
    let ghost all = names@;
    let mut rest = names;
    let mut picked: Vec<String> = Vec::new();
    proof {
        assert(all.take(0).len() == 0);
    }
    while rest.len() > 0
        invariant
            rest@.len() <= all.len(),
            rest@ == all.skip(all.len() - rest@.len()),
            picked@ == video_files(all.take(all.len() - rest@.len())),
        decreases rest@.len(),
    {
        let ghost done = all.len() - rest@.len();
        let name = rest.remove(0);
        proof {
            assert(name == all[done]);
            assert(all.take(done + 1).drop_last() =~= all.take(done));
            assert(all.take(done + 1).last() == all[done]);
            assert(rest@ =~= all.skip(done + 1));
        }
        if has_video_extension(name.as_str()) {
            picked.push(name);
        }
    }
    proof {
        assert(all.take(all.len() as int) =~= all);
    }
    if picked.len() == 0 {
        Err(VideoError::NoVideosFound)
    } else {
        Ok(picked)
    }
}

} // verus!
