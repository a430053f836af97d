//! Video metadata shaping: the decoder's probe report is reduced to plain
//! values — duration in milliseconds, sizes, an optional aspect ratio with
//! the degenerate "0:1" treated as absent, and a rational frame rate
//! simplified to a two-decimal figure — and a name's extension decides
//! whether it denotes a video file.

use vstd::prelude::*;
use vstd::string::{StrSliceExecFns, StringExecFns, StringSliceAdditionalSpecFns};
use vstd::utf8::encode_utf8;

use crate::names::{encoded_form, has_marker, is_encoded_name, spec_has_marker, try_decode_name};
use crate::text::{dec_digits, digit_char};

verus! {

/// An ASCII decimal digit.
pub open spec fn is_digit_byte(b: u8) -> bool {
    48 <= b <= 57
}

/// Whether every byte is a decimal digit.
pub open spec fn all_digit_bytes(s: Seq<u8>) -> bool {
    forall|i: int| 0 <= i < s.len() ==> is_digit_byte(#[trigger] s[i])
}

/// The value of a decimal digit string.
pub open spec fn dec_value(s: Seq<u8>) -> int
    decreases s.len(),
{
    if s.len() == 0 {
        0
    } else {
        dec_value(s.drop_last()) * 10 + (s.last() - 48)
    }
}

/// The index of the first occurrence of `target`, or -1 when absent.
pub open spec fn first_index_of(s: Seq<u8>, target: u8) -> int
    decreases s.len(),
{
    if s.len() == 0 {
        -1
    } else if s[0] == target {
        0
    } else {
        let t = first_index_of(s.drop_first(), target);
        if t == -1 {
            -1
        } else {
            t + 1
        }
    }
}

proof fn lemma_first_index_found(s: Seq<u8>, target: u8, i: int)
    requires
        0 <= i < s.len(),
        s[i] == target,
        forall|j: int| 0 <= j < i ==> s[j] != target,
    ensures
        first_index_of(s, target) == i,
    decreases i,
{
    if i > 0 {
        lemma_first_index_found(s.drop_first(), target, i - 1);
    }
}

proof fn lemma_first_index_none(s: Seq<u8>, target: u8)
    requires
        forall|j: int| 0 <= j < s.len() ==> s[j] != target,
    ensures
        first_index_of(s, target) == -1,
    decreases s.len(),
{
    if s.len() > 0 {
        lemma_first_index_none(s.drop_first(), target);
    }
}

proof fn lemma_dec_value_nonneg(s: Seq<u8>)
    requires
        all_digit_bytes(s),
    ensures
        dec_value(s) >= 0,
    decreases s.len(),
{
    if s.len() > 0 {
        assert(all_digit_bytes(s.drop_last()));
        lemma_dec_value_nonneg(s.drop_last());
    }
}

/// A digit string's value only grows as digits are appended.
proof fn lemma_dec_value_prefix(s: Seq<u8>, i: int)
    requires
        all_digit_bytes(s),
        0 <= i <= s.len(),
    ensures
        dec_value(s.take(i)) <= dec_value(s),
    decreases s.len() - i,
{
    if i < s.len() {
        lemma_dec_value_prefix(s, i + 1);
        assert(s.take(i + 1).drop_last() =~= s.take(i));
        assert(all_digit_bytes(s.take(i)));
        lemma_dec_value_nonneg(s.take(i));
        assert(dec_value(s.take(i + 1)) == dec_value(s.take(i)) * 10 + (s[i] - 48));
    } else {
        assert(s.take(i) =~= s);
    }
}

/// Parses the decimal digits in `v[from..to]` as a value that fits in u64:
/// `Some` exactly when the range is non-empty, all digits, and in range.
fn parse_u64_range(v: &Vec<u8>, from: usize, to: usize) -> (r: Option<u64>)
    requires
        from <= to <= v@.len(),
    ensures
        r matches Some(x) ==> to > from && all_digit_bytes(v@.subrange(from as int, to as int))
            && x == dec_value(v@.subrange(from as int, to as int)),
        r is None ==> !(to > from && all_digit_bytes(v@.subrange(from as int, to as int))
            && dec_value(v@.subrange(from as int, to as int)) <= u64::MAX),
{
    let ghost whole = v@.subrange(from as int, to as int);
    if to == from {
        return None;
    }
    let mut acc: u64 = 0;
    let mut i: usize = from;
    while i < to
        invariant
            from <= i <= to <= v@.len(),
            all_digit_bytes(v@.subrange(from as int, i as int)),
            acc == dec_value(v@.subrange(from as int, i as int)),
            whole == v@.subrange(from as int, to as int),
        decreases to - i,
    {
        let b = v[i];
        proof {
            assert(whole[i - from] == v@[i as int]);
        }
        if b < 48 || b > 57 {
            proof {
                assert(!is_digit_byte(whole[i - from]));
            }
            return None;
        }
        let d: u64 = (b - 48) as u64;
        if acc > (u64::MAX - d) / 10 {
            proof {
                // acc * 10 + d would exceed u64::MAX, and later digits only
                // grow the value, so the whole range is out of range.
                let cap = (u64::MAX - d) as int;
                vstd::arithmetic::div_mod::lemma_fundamental_div_mod(cap, 10);
                vstd::arithmetic::div_mod::lemma_mod_division_less_than_divisor(cap, 10);
                assert(acc * 10 > cap - 9) by (nonlinear_arith)
                    requires
                        acc as int >= cap / 10 + 1,
                        cap == (cap / 10) * 10 + cap % 10,
                        cap % 10 <= 9,
                ;
                assert(acc * 10 + d > u64::MAX);
                if all_digit_bytes(whole) {
                    assert(whole.take(i + 1 - from).drop_last() =~= whole.take(i - from));
                    assert(whole.take(i - from) =~= v@.subrange(from as int, i as int));
                    assert(whole.take(i + 1 - from).last() == whole[i - from]);
                    assert(dec_value(whole.take(i + 1 - from)) == acc * 10 + (b - 48));
                    lemma_dec_value_prefix(whole, i + 1 - from);
                }
            }
            return None;
        }
        proof {
            vstd::arithmetic::div_mod::lemma_fundamental_div_mod((u64::MAX - d) as int, 10);
            vstd::arithmetic::div_mod::lemma_mod_division_less_than_divisor(
                (u64::MAX - d) as int,
                10,
            );
            assert(acc * 10 <= (u64::MAX - d) as int) by (nonlinear_arith)
                requires
                    0 <= acc as int <= ((u64::MAX - d) as int) / 10,
                    (u64::MAX - d) as int == (((u64::MAX - d) as int) / 10) * 10 + ((u64::MAX
                        - d) as int) % 10,
                    ((u64::MAX - d) as int) % 10 >= 0,
            ;
            assert(v@.subrange(from as int, i + 1 as int).drop_last() =~= v@.subrange(
                from as int,
                i as int,
            ));
        }
        acc = acc * 10 + d;
        i = i + 1;
    }
    proof {
        assert(v@.subrange(from as int, i as int) =~= whole);
    }
    Some(acc)
}

/// Whether `v[from..to]` holds decimal digits only.
fn all_digits_range(v: &Vec<u8>, from: usize, to: usize) -> (r: bool)
    requires
        from <= to <= v@.len(),
    ensures
        r == all_digit_bytes(v@.subrange(from as int, to as int)),
{
    let ghost whole = v@.subrange(from as int, to as int);
    let mut i: usize = from;
    while i < to
        invariant
            from <= i <= to <= v@.len(),
            whole == v@.subrange(from as int, to as int),
            forall|j: int| 0 <= j < i - from ==> is_digit_byte(#[trigger] whole[j]),
        decreases to - i,
    {
        let b = v[i];
        proof {
            assert(whole[i - from] == v@[i as int]);
        }
        if b < 48 || b > 57 {
            return false;
        }
        i = i + 1;
    }
    true
}

/// Finds the first occurrence of `target`.
fn find_byte(v: &Vec<u8>, target: u8) -> (r: Option<usize>)
    ensures
        r matches Some(k) ==> k < v@.len() && first_index_of(v@, target) == k,
        r is None ==> first_index_of(v@, target) == -1,
{
    let mut i: usize = 0;
    while i < v.len()
        invariant
            i <= v@.len(),
            forall|j: int| 0 <= j < i ==> v@[j] != target,
        decreases v@.len() - i,
    {
        if v[i] == target {
            proof {
                lemma_first_index_found(v@, target, i as int);
            }
            return Some(i);
        }
        i = i + 1;
    }
    proof {
        lemma_first_index_none(v@, target);
    }
    None
}

/// The quotient `num / den` in rounded hundredths, rounding half upward.
pub open spec fn fps_hundredths(num: int, den: int) -> int {
    (200 * num + den) / (2 * den)
}

/// The two-decimal rendering of the quotient: integer part, a point, and
/// exactly two fractional digits.
pub open spec fn fps_chars(num: int, den: int) -> Seq<char> {
    let h = fps_hundredths(num, den);
    dec_digits(h / 100) + seq!['.'] + seq![
        digit_char((h % 100) / 10),
        digit_char((h % 100) % 10),
    ]
}

/// The rational parts of a frame-rate string: `Some((num, den))` when the
/// bytes are digits, one '/', digits, with both parts in u64 range and a
/// positive denominator.
pub open spec fn spec_rational(bytes: Seq<u8>) -> Option<(int, int)> {
    let k = first_index_of(bytes, 47);
    if k >= 0 {
        let num = bytes.subrange(0, k);
        let den = bytes.subrange(k + 1, bytes.len() as int);
        if num.len() > 0 && den.len() > 0 && all_digit_bytes(num) && all_digit_bytes(den)
            && dec_value(num) <= u64::MAX && dec_value(den) <= u64::MAX && dec_value(den) > 0 {
            Some((dec_value(num), dec_value(den)))
        } else {
            None
        }
    } else {
        None
    }
}

/// Simplifies a rational "num/den" frame rate — decimal digits on both
/// sides of one '/' — to a two-decimal figure, rounding half-hundredths
/// upward; any input not of that exact shape is returned unchanged.
pub fn simplify_framerate(rate: &str) -> (r: String)
    ensures
        spec_rational(rate.spec_bytes()) matches Some(p) ==> r@ == fps_chars(p.0, p.1),
        spec_rational(rate.spec_bytes()) is None ==> r@ == rate@,
{
    let bytes: Vec<u8> = rate.as_bytes_vec();
    let n: usize = bytes.len();
    let k = match find_byte(&bytes, 47) {
        None => {
            return rate.to_owned();
        },
        Some(k) => k,
    };
    let num = match parse_u64_range(&bytes, 0, k) {
        None => {
            return rate.to_owned();
        },
        Some(v) => v,
    };
    let den = match parse_u64_range(&bytes, k + 1, n) {
        None => {
            return rate.to_owned();
        },
        Some(v) => v,
    };
    proof {
        lemma_dec_value_nonneg(bytes@.subrange(k + 1, n as int));
    }
    if den == 0 {
        return rate.to_owned();
    }
    proof {
        vstd::arithmetic::mul::lemma_mul_upper_bound(
            200,
            200,
            num as int,
            0xffff_ffff_ffff_ffff,
        );
    }
    let h: u128 = (200u128 * (num as u128) + (den as u128)) / (2u128 * (den as u128));
    let int_part: u128 = h / 100;
    let frac: u128 = h % 100;
    let mut out = String::new();
    crate::text::append_dec(&mut out, int_part);
    out.append(".");
    if frac < 10 {
        out.append("0");
        crate::text::append_dec(&mut out, frac);
    } else {
        crate::text::append_dec(&mut out, frac);
    }
    proof {
        reveal_strlit(".");
        reveal_strlit("0");
        let hs = fps_hundredths(num as int, den as int);
        assert(hs == h as int);
        if frac < 10 {
            assert("0"@ + dec_digits(frac as int) =~= seq![
                digit_char((frac as int) / 10),
                digit_char((frac as int) % 10),
            ]);
        } else {
            assert(dec_digits((frac as int) / 10) =~= seq![digit_char((frac as int) / 10)]);
            assert(dec_digits(frac as int) =~= seq![
                digit_char((frac as int) / 10),
                digit_char((frac as int) % 10),
            ]);
        }
        assert(out@ =~= fps_chars(num as int, den as int));
    }
    out
}

/// Fractional seconds digits reduced to whole milliseconds: the first three
/// digits, padded with zeros.
pub open spec fn frac_ms(frac: Seq<u8>) -> int {
    if frac.len() >= 3 {
        dec_value(frac.take(3))
    } else if frac.len() == 2 {
        dec_value(frac) * 10
    } else if frac.len() == 1 {
        dec_value(frac) * 100
    } else {
        0
    }
}

/// The duration in milliseconds a decimal-seconds string denotes: digits
/// with an optional fractional part (millisecond precision, further digits
/// ignored), `None` when the shape is off or the figure does not fit.
pub open spec fn spec_duration_ms(bytes: Seq<u8>) -> Option<int> {
    let k = first_index_of(bytes, 46);
    if k == -1 {
        if bytes.len() > 0 && all_digit_bytes(bytes) && 1000 * dec_value(bytes) <= u64::MAX {
            Some(1000 * dec_value(bytes))
        } else {
            None
        }
    } else {
        let ip = bytes.subrange(0, k);
        let fp = bytes.subrange(k + 1, bytes.len() as int);
        if ip.len() + fp.len() > 0 && all_digit_bytes(ip) && all_digit_bytes(fp) && 1000
            * dec_value(ip) + frac_ms(fp) <= u64::MAX {
            Some(1000 * dec_value(ip) + frac_ms(fp))
        } else {
            None
        }
    }
}

/// Parses a decimal-seconds duration string into whole milliseconds.
pub fn parse_duration_ms(s: &str) -> (r: Option<u64>)
    ensures
        r matches Some(x) ==> spec_duration_ms(s.spec_bytes()) == Some(x as int),
        r is None ==> spec_duration_ms(s.spec_bytes()) is None,
{
    let bytes: Vec<u8> = s.as_bytes_vec();
    let n: usize = bytes.len();
    match find_byte(&bytes, 46) {
        None => {
            proof {
                assert(bytes@.subrange(0, n as int) =~= bytes@);
            }
            match parse_u64_range(&bytes, 0, n) {
                None => {
                    proof {
                        if all_digit_bytes(bytes@) {
                            lemma_dec_value_nonneg(bytes@);
                        }
                    }
                    None
                },
                Some(x) => {
                    let wide: u128 = (x as u128) * 1000;
                    if wide > 0xffff_ffff_ffff_ffffu128 {
                        None
                    } else {
                        Some(wide as u64)
                    }
                },
            }
        },
        Some(k) => {
            let ghost ip = bytes@.subrange(0, k as int);
            let ghost fp = bytes@.subrange(k + 1, n as int);
            let flen: usize = n - k - 1;
            if k == 0 && flen == 0 {
                return None;
            }
            if !all_digits_range(&bytes, k + 1, n) {
                return None;
            }
            proof {
                lemma_dec_value_nonneg(fp);
                if fp.len() >= 1 {
                    assert(all_digit_bytes(fp.take(3)) || fp.len() < 3);
                    if fp.len() >= 3 {
                        lemma_dec_value_nonneg(fp.take(3));
                    }
                }
            }
            let ipv: u64 = if k == 0 {
                0u64
            } else {
                match parse_u64_range(&bytes, 0, k) {
                    None => {
                        proof {
                            // Either the integer part has a stray byte, or
                            // its value alone already exceeds the ceiling.
                            if all_digit_bytes(ip) {
                                lemma_dec_value_nonneg(ip);
                            }
                        }
                        return None;
                    },
                    Some(v) => v,
                }
            };
            let m: usize = if flen < 3 {
                flen
            } else {
                3
            };
            let ghost fpm = fp.take(m as int);
            proof {
                assert(bytes@.subrange(k + 1, k + 1 + m as int) =~= fpm);
                assert(all_digit_bytes(fpm));
                lemma_dec_value_len_bound(fpm);
                if m == 3 {
                    assert(fpm =~= fp.take(3));
                } else {
                    assert(fpm =~= fp);
                }
            }
            let fms: u64 = if m == 0 {
                0u64
            } else {
                let fv = match parse_u64_range(&bytes, k + 1, k + 1 + m) {
                    None => {
                        proof {
                            assert(false);
                        }
                        return None;
                    },
                    Some(v) => v,
                };
                if m == 3 {
                    fv
                } else if m == 2 {
                    fv * 10
                } else {
                    fv * 100
                }
            };
            let total: u128 = (ipv as u128) * 1000 + (fms as u128);
            if total > 0xffff_ffff_ffff_ffffu128 {
                None
            } else {
                Some(total as u64)
            }
        },
    }
}

/// The value of a whole decimal string when it fits in u64.
pub open spec fn spec_u64_value(bytes: Seq<u8>) -> Option<int> {
    if bytes.len() > 0 && all_digit_bytes(bytes) && dec_value(bytes) <= u64::MAX {
        Some(dec_value(bytes))
    } else {
        None
    }
}

/// Metadata for the primary video stream of a file, in plain values:
/// durations in whole milliseconds, sizes in bytes.
pub struct VideoInfo {
    pub duration_ms: u64,
    pub file_size_bytes: u64,
    pub width: Option<u32>,
    pub height: Option<u32>,
    pub display_aspect_ratio: Option<String>,
    pub codec: Option<String>,
    pub bitrate: Option<u64>,
    pub framerate: Option<String>,
}

/// Shapes the plain fields read from a probe report into `VideoInfo`: a
/// missing or malformed duration becomes 0, a degenerate "0:1" aspect ratio
/// becomes absent, dimensions are narrowed, and the frame rate is
/// simplified.
pub fn video_info_from_fields(
    file_size_bytes: u64,
    duration: Option<String>,
    bitrate: Option<String>,
    width: Option<u64>,
    height: Option<u64>,
    display_aspect_ratio: Option<String>,
    codec: Option<String>,
    frame_rate: Option<String>,
) -> (r: VideoInfo)
    ensures
        r.file_size_bytes == file_size_bytes,
        duration is None ==> r.duration_ms == 0,
        duration matches Some(s) ==> ((spec_duration_ms(vstd::utf8::encode_utf8(s@))
            matches Some(v) ==> r.duration_ms == v) && (spec_duration_ms(
            vstd::utf8::encode_utf8(s@),
        ) is None ==> r.duration_ms == 0)),
        bitrate is None ==> r.bitrate is None,
        bitrate matches Some(s) ==> ((spec_u64_value(vstd::utf8::encode_utf8(s@)) matches Some(v)
            ==> (r.bitrate matches Some(x) && x == v)) && (spec_u64_value(
            vstd::utf8::encode_utf8(s@),
        ) is None ==> r.bitrate is None)),
        width is None ==> r.width is None,
        width matches Some(w) ==> (r.width matches Some(x) && x == w as u32),
        height is None ==> r.height is None,
        height matches Some(h) ==> (r.height matches Some(x) && x == h as u32),
        display_aspect_ratio is None ==> r.display_aspect_ratio is None,
        display_aspect_ratio matches Some(s) ==> ((s@ == "0:1"@ ==> r.display_aspect_ratio
            is None) && (s@ != "0:1"@ ==> (r.display_aspect_ratio matches Some(d) && d@ == s@))),
        codec is None ==> r.codec is None,
        codec matches Some(c) ==> (r.codec matches Some(x) && x@ == c@),
        frame_rate is None ==> r.framerate is None,
        frame_rate matches Some(s) ==> (r.framerate matches Some(f) && ((spec_rational(
            vstd::utf8::encode_utf8(s@),
        ) matches Some(p) ==> f@ == fps_chars(p.0, p.1)) && (spec_rational(
            vstd::utf8::encode_utf8(s@),
        ) is None ==> f@ == s@))),
{
    let duration_ms: u64 = match &duration {
        None => 0u64,
        Some(s) => match parse_duration_ms(s.as_str()) {
            None => 0u64,
            Some(v) => v,
        },
    };
    let bitrate_v: Option<u64> = match &bitrate {
        None => None,
        Some(s) => {
            let b: Vec<u8> = s.as_str().as_bytes_vec();
            let len: usize = b.len();
            proof {
                assert(b@.subrange(0, len as int) =~= b@);
            }
            match parse_u64_range(&b, 0, len) {
                None => {
                    proof {
                        if all_digit_bytes(b@) {
                            lemma_dec_value_nonneg(b@);
                        }
                    }
                    None
                },
                Some(v) => Some(v),
            }
        },
    };
    let width_v: Option<u32> = match width {
        None => None,
        Some(w) => Some(w as u32),
    };
    let height_v: Option<u32> = match height {
        None => None,
        Some(h) => Some(h as u32),
    };
    let dar: Option<String> = match display_aspect_ratio {
        None => None,
        Some(s) => {
            if crate::text::str_eq(s.as_str(), "0:1") {
                None
            } else {
                Some(s)
            }
        },
    };
    let framerate: Option<String> = match &frame_rate {
        None => None,
        Some(s) => Some(simplify_framerate(s.as_str())),
    };
    VideoInfo {
        duration_ms,
        file_size_bytes,
        width: width_v,
        height: height_v,
        display_aspect_ratio: dar,
        codec,
        bitrate: bitrate_v,
        framerate,
    }
}

/// Declares serde_json's value type so probe reports can be walked; relied
/// on as an opaque value.
#[verifier::external_type_specification]
#[verifier::external_body]
pub struct ExJsonValue(serde_json::Value);

/// Whether a byte sequence parses as a report document; named here because
/// the outcome depends on the bytes alone.
pub uninterp spec fn probe_parses(report: Seq<u8>) -> bool;

/// Relies on `serde_json::from_slice` to parse the decoder's report: whether
/// the bytes parse is a function of the bytes alone; a report that is not
/// well-formed is `None`.
#[verifier::external_body]
fn json_from_slice(bytes: &[u8]) -> (r: Option<serde_json::Value>)
    ensures
        (r is Some) == probe_parses(bytes@),
{
    serde_json::from_slice(bytes).ok()
}

/// Relies on `Value::get` to fetch one object field by name.
#[verifier::external_body]
fn json_get<'a>(v: &'a serde_json::Value, key: &str) -> (r: Option<&'a serde_json::Value>) {
    v.get(key)
}

/// Relies on `Value::as_str`; the text is handed out as an owned copy.
#[verifier::external_body]
fn json_as_string(v: &serde_json::Value) -> (r: Option<String>) {
    v.as_str().map(|s| s.to_owned())
}

/// Relies on `Value::as_u64`.
#[verifier::external_body]
fn json_as_u64(v: &serde_json::Value) -> (r: Option<u64>) {
    v.as_u64()
}

/// Relies on `Value::as_array`; hands back the first element, the primary
/// stream of the report.
#[verifier::external_body]
fn json_first<'a>(v: &'a serde_json::Value) -> (r: Option<&'a serde_json::Value>) {
    v.as_array().and_then(|a| a.first())
}

fn json_field_string(v: Option<&serde_json::Value>, key: &str) -> (r: Option<String>) {
    match v {
        None => None,
        Some(obj) => match json_get(obj, key) {
            None => None,
            Some(field) => json_as_string(field),
        },
    }
}

fn json_field_u64(v: Option<&serde_json::Value>, key: &str) -> (r: Option<u64>) {
    match v {
        None => None,
        Some(obj) => match json_get(obj, key) {
            None => None,
            Some(field) => json_as_u64(field),
        },
    }
}

/// Reduces the decoder's probe report to `VideoInfo`: `Some` exactly when
/// the report parses. What each field must hold is fixed by
/// `video_info_from_fields`, which this applies to the report's format
/// section and first stream.
pub fn parse_probe_report(report: &[u8], file_size_bytes: u64) -> (r: Option<VideoInfo>)
    ensures
        (r is Some) <==> probe_parses(report@),
        r matches Some(info) ==> info.file_size_bytes == file_size_bytes,
{
    let root = match json_from_slice(report) {
        None => {
            return None;
        },
        Some(v) => v,
    };
    let format = json_get(&root, "format");
    let duration = json_field_string(format, "duration");
    let bitrate = json_field_string(format, "bit_rate");
    let stream = match json_get(&root, "streams") {
        None => None,
        Some(streams) => json_first(streams),
    };
    let width = json_field_u64(stream, "width");
    let height = json_field_u64(stream, "height");
    let dar = json_field_string(stream, "display_aspect_ratio");
    let codec = json_field_string(stream, "codec_name");
    let frame_rate = json_field_string(stream, "r_frame_rate");
    Some(
        video_info_from_fields(
            file_size_bytes,
            duration,
            bitrate,
            width,
            height,
            dar,
            codec,
            frame_rate,
        ),
    )
}

/// The index of the last occurrence of `target`, or -1 when absent.
pub open spec fn last_index_of(s: Seq<u8>, target: u8) -> int
    decreases s.len(),
{
    if s.len() == 0 {
        -1
    } else if s[s.len() - 1] == target {
        s.len() - 1
    } else {
        last_index_of(s.drop_last(), target)
    }
}

/// Finds the last occurrence of `target`.
fn find_last_byte(v: &Vec<u8>, target: u8) -> (r: Option<usize>)
    ensures
        r matches Some(k) ==> k < v@.len() && last_index_of(v@, target) == k,
        r is None ==> last_index_of(v@, target) == -1,
{
    let mut found: Option<usize> = None;
    let mut i: usize = 0;
    while i < v.len()
        invariant
            i <= v@.len(),
            match found {
                Some(k) => k < i && last_index_of(v@.take(i as int), target) == k as int,
                None => last_index_of(v@.take(i as int), target) == -1,
            },
        decreases v@.len() - i,
    {
        proof {
            assert(v@.take(i + 1 as int).drop_last() =~= v@.take(i as int));
        }
        if v[i] == target {
            found = Some(i);
        }
        i = i + 1;
    }
    proof {
        assert(v@.take(v@.len() as int) =~= v@);
    }
    found
}

/// Whether two byte strings are equal.
fn bytes_eq(a: &Vec<u8>, b: &[u8]) -> (r: bool)
    ensures
        r == (a@ == b@),
{
    let bv: Vec<u8> = vstd::slice::slice_to_vec(b);
    if a.len() != bv.len() {
        return false;
    }
    let mut i: usize = 0;
    while i < a.len()
        invariant
            i <= a@.len(),
            a@.len() == bv@.len(),
            bv@ == b@,
            forall|j: int| 0 <= j < i ==> a@[j] == bv@[j],
        decreases a@.len() - i,
    {
        if a[i] != bv[i] {
            return false;
        }
        i = i + 1;
    }
    proof {
        assert(a@ =~= b@);
    }
    true
}

/// ASCII lower case of one byte.
pub open spec fn lower_byte(b: u8) -> u8 {
    if 65 <= b <= 90 {
        (b + 32) as u8
    } else {
        b
    }
}

/// The bytes after the last '.' — the whole name when it has none.
pub open spec fn ext_of(bytes: Seq<u8>) -> Seq<u8> {
    let k = last_index_of(bytes, 46);
    if k == -1 {
        bytes
    } else {
        bytes.subrange(k + 1, bytes.len() as int)
    }
}

/// Whether a name's extension, ASCII-lowercased, is one of the recognised
/// video container extensions.
pub open spec fn spec_is_video_ext(bytes: Seq<u8>) -> bool {
    let e = ext_of(bytes).map_values(|b: u8| lower_byte(b));
    ||| e == encode_utf8("mp4"@)
    ||| e == encode_utf8("mkv"@)
    ||| e == encode_utf8("avi"@)
    ||| e == encode_utf8("webm"@)
    ||| e == encode_utf8("mov"@)
    ||| e == encode_utf8("mpg"@)
    ||| e == encode_utf8("mpeg"@)
}

/// Whether the name's extension matches a video container.
fn is_video_ext(name: &str) -> (r: bool)
    ensures
        r == spec_is_video_ext(name.spec_bytes()),
{
    let bytes: Vec<u8> = name.as_bytes_vec();
    let n: usize = bytes.len();
    let start: usize = match find_last_byte(&bytes, 46) {
        Some(k) => k + 1,
        None => 0,
    };
    let mut ext: Vec<u8> = Vec::new();
    let mut i: usize = start;
    while i < n
        invariant
            start <= i <= n,
            n == bytes@.len(),
            ext@.len() == i - start,
            forall|j: int| 0 <= j < ext@.len() ==> ext@[j] == lower_byte(bytes@[start + j]),
        decreases n - i,
    {
        let b = bytes[i];
        let lb: u8 = if b >= 65 && b <= 90 {
            b + 32
        } else {
            b
        };
        ext.push(lb);
        i = i + 1;
    }
    proof {
        assert(ext@ =~= ext_of(bytes@).map_values(|b: u8| lower_byte(b)));
    }
    bytes_eq(&ext, "mp4".as_bytes()) || bytes_eq(&ext, "mkv".as_bytes()) || bytes_eq(
        &ext,
        "avi".as_bytes(),
    ) || bytes_eq(&ext, "webm".as_bytes()) || bytes_eq(&ext, "mov".as_bytes()) || bytes_eq(
        &ext,
        "mpg".as_bytes(),
    ) || bytes_eq(&ext, "mpeg".as_bytes())
}

/// Whether an on-disk name denotes a video file. A marker-carrying name
/// counts only if its payload decodes and the decoded name's extension
/// matches; one whose payload does not decode is no video; any other name is
/// judged by its own extension. Extensions are compared ASCII-lowercased.
pub fn is_video_name(physical_name: &str) -> (r: bool)
    ensures
        !spec_has_marker(physical_name@) ==> r == spec_is_video_ext(
            encode_utf8(physical_name@),
        ),
        spec_has_marker(physical_name@) && !is_encoded_name(physical_name@) ==> r == false,
        is_encoded_name(physical_name@) ==> forall|d: Seq<char>|
            physical_name@ == encoded_form(d) ==> r == spec_is_video_ext(encode_utf8(d)),
{
    if has_marker(physical_name) {
        match try_decode_name(physical_name) {
            None => false,
            Some(d) => {
                proof {
                    vstd::utf8::encode_utf8_valid_utf8(d@);
                }
                is_video_ext(d.as_str())
            },
        }
    } else {
        proof {
            if is_encoded_name(physical_name@) {
                let b = choose|b: Seq<u8>|
                    vstd::utf8::valid_utf8(b) && physical_name@ == crate::names::marker_chars()
                        + crate::codec::obfuscated_chars(b);
                assert(physical_name@.subrange(0, 5) =~= crate::names::marker_chars());
            }
        }
        is_video_ext(physical_name)
    }
}

/// Bounds on short digit strings: at most `len` digits stay below 10^len.
proof fn lemma_dec_value_len_bound(s: Seq<u8>)
    requires
        all_digit_bytes(s),
    ensures
        dec_value(s) >= 0,
        s.len() == 0 ==> dec_value(s) == 0,
        s.len() <= 1 ==> dec_value(s) < 10,
        s.len() <= 2 ==> dec_value(s) < 100,
        s.len() <= 3 ==> dec_value(s) < 1000,
    decreases s.len(),
{
    if s.len() > 0 {
        assert(all_digit_bytes(s.drop_last()));
        lemma_dec_value_len_bound(s.drop_last());
    }
}

} // verus!

