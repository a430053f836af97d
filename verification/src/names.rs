//! The on-disk name transform: a display name becomes a marker prefix plus
//! an obfuscated payload, and an on-disk name is recognised and reversed by
//! that shape alone. A name that merely resembles the shape but whose payload
//! does not decode is reported as "not encoded", never as an error.

use vstd::prelude::*;
use vstd::string::{StrSliceExecFns, StringExecFns, StringSliceAdditionalSpecFns};
use vstd::utf8::{encode_utf8, is_ascii_chars, valid_utf8};

use crate::codec::{decode_string, encode_string, obfuscated_chars};

verus! {

/// The fixed marker prefix that identifies an on-disk name as encoded.
pub open spec fn marker_chars() -> Seq<char> {
    seq!['.', 'd', 'a', 't', '_']
}

/// The on-disk form of a display name: the marker prefix followed by the
/// obfuscated payload of the name's UTF-8 bytes.
pub open spec fn encoded_form(name: Seq<char>) -> Seq<char> {
    marker_chars() + obfuscated_chars(encode_utf8(name))
}

/// Whether a physical name is a well-formed encoded form: the marker followed
/// by the payload of some valid UTF-8 byte sequence.
pub open spec fn is_encoded_name(physical: Seq<char>) -> bool {
    exists|b: Seq<u8>| valid_utf8(b) && physical == marker_chars() + obfuscated_chars(b)
}

/// Encodes a display name into its marker-prefixed on-disk form.
pub fn encode_name(name: &str) -> (r: String)
    ensures
        r@ == encoded_form(name@),
        is_ascii_chars(r@),
        encode_utf8(r@).len() == 5 + 4 * ((encode_utf8(name@).len() + 2) / 3),
{
    let mut out = String::from_str(".dat_");
    let payload = encode_string(name);
    out.append(payload.as_str());
    proof {
        reveal_strlit(".dat_");
        assert(".dat_"@ =~= marker_chars());
        assert(out@ =~= encoded_form(name@));
        assert(is_ascii_chars(marker_chars()));
        vstd::utf8::is_ascii_chars_concat(out@, marker_chars(), payload@);
        vstd::utf8::is_ascii_chars_encode_utf8(out@);
    }
    out
}

/// Whether a name starts with the marker prefix.
pub open spec fn spec_has_marker(s: Seq<char>) -> bool {
    s.len() >= 5 && s.subrange(0, 5) == marker_chars()
}

/// Checks for the marker prefix. Carrying the marker does not make a name
/// encoded: the payload must also decode.
pub fn has_marker(s: &str) -> (r: bool)
    ensures
        r == spec_has_marker(s@),
{
    let len = s.unicode_len();
    if len < 5 {
        return false;
    }
    let r = s.get_char(0) == '.' && s.get_char(1) == 'd' && s.get_char(2) == 'a' && s.get_char(3)
        == 't' && s.get_char(4) == '_';
    proof {
        if r {
            assert(s@.subrange(0, 5) =~= marker_chars());
        } else {
            assert(s@.subrange(0, 5) != marker_chars());
        }
    }
    r
}

/// Returns the display name an on-disk name encodes, or `None` when the name
/// does not carry the marker or its payload does not decode to text.
pub fn try_decode_name(physical: &str) -> (r: Option<String>)
    ensures
        r matches Some(s) ==> physical@ == encoded_form(s@),
        r matches Some(s) ==> forall|n: Seq<char>| physical@ == encoded_form(n) ==> n == s@,
        r is None ==> !is_encoded_name(physical@),
{
    if !has_marker(physical) {
        proof {
            assert forall|b: Seq<u8>| valid_utf8(b) implies physical@ != marker_chars()
                + obfuscated_chars(b) by {
                if physical@ == marker_chars() + obfuscated_chars(b) {
                    assert(physical@.subrange(0, 5) =~= marker_chars());
                }
            }
        }
        return None;
    }
    let len = physical.unicode_len();
    let rest = physical.substring_char(5, len);
    proof {
        assert(physical@ =~= physical@.subrange(0, 5) + rest@);
        assert(physical@.subrange(0, 5) =~= marker_chars());
    }
    match decode_string(rest) {
        Some(s) => {
            proof {
                assert(physical@ =~= encoded_form(s@));
                assert forall|n: Seq<char>| physical@ == encoded_form(n) implies n == s@ by {
                    assert(rest@ =~= (marker_chars() + obfuscated_chars(encode_utf8(n))).subrange(
                        5,
                        physical@.len() as int,
                    ));
                    assert(rest@ =~= obfuscated_chars(encode_utf8(n)));
                }
            }
            Some(s)
        },
        None => {
            proof {
                assert forall|b: Seq<u8>| valid_utf8(b) implies physical@ != marker_chars()
                    + obfuscated_chars(b) by {
                    if physical@ == marker_chars() + obfuscated_chars(b) {
                        assert(rest@ =~= (marker_chars() + obfuscated_chars(b)).subrange(
                            5,
                            physical@.len() as int,
                        ));
                        assert(rest@ =~= obfuscated_chars(b));
                    }
                }
            }
            None
        },
    }
}

/// Law: the encoded form of any display name is recognised as encoded.
/// With it, encoding followed by decoding takes the `Some` path of
/// `try_decode_name`, whose uniqueness clause then pins the result to
/// exactly the original name: `try_decode_name(encode_name(n))` is `Some(n)`
/// for every `n`.
pub proof fn lemma_encoded_form_is_encoded(name: Seq<char>)
    ensures
        is_encoded_name(encoded_form(name)),
{
    vstd::utf8::encode_utf8_valid_utf8(name);
}

/// Index of the last path separator in a byte sequence, or -1 when none.
pub open spec fn last_separator_at(bytes: Seq<u8>) -> int
    decreases bytes.len(),
{
    if bytes.len() == 0 {
        -1
    } else if bytes[bytes.len() - 1] == 47u8 {
        bytes.len() - 1
    } else {
        last_separator_at(bytes.drop_last())
    }
}

/// Byte length of the marker-prefixed encoded form of a name whose UTF-8
/// form holds `name_len` bytes.
pub open spec fn encoded_name_byte_len(name_len: int) -> int {
    5 + 4 * ((name_len + 2) / 3)
}

/// Whether renaming the path's final component to its encoded form keeps the
/// whole path under the 256-byte ceiling. The directory part is everything up
/// to and including the last separator.
pub open spec fn spec_can_encode(bytes: Seq<u8>) -> bool {
    let ls = last_separator_at(bytes);
    if ls >= 0 {
        ls + 1 + encoded_name_byte_len(bytes.len() - ls - 1) < 256
    } else {
        encoded_name_byte_len(bytes.len() as int) < 256
    }
}

/// Checks whether encoding the path's final component would produce a full
/// path shorter than 256 bytes; the check is made against the destination
/// path, not the name alone. The split is purely textual, so a trailing
/// separator counts as an empty final component.
pub fn can_encode(path: &str) -> (r: bool)
    ensures
        r == spec_can_encode(path.spec_bytes()),
{
    let bytes: Vec<u8> = path.as_bytes_vec();
    let n: usize = bytes.len();
    let mut last: Option<usize> = None;
    let mut i: usize = 0;
    while i < n
        invariant
            i <= n,
            n == bytes@.len(),
            match last {
                Some(k) => k < i && last_separator_at(bytes@.take(i as int)) == k as int,
                None => last_separator_at(bytes@.take(i as int)) == -1,
            },
        decreases n - i,
    {
        proof {
            assert(bytes@.take(i + 1 as int).drop_last() =~= bytes@.take(i as int));
        }
        if bytes[i] == 47u8 {
            last = Some(i);
        }
        i = i + 1;
    }
    proof {
        assert(bytes@.take(n as int) =~= bytes@);
    }
    let name_len: usize = match last {
        Some(k) => n - k - 1,
        None => n,
    };
    let dir_len: usize = match last {
        Some(k) => k + 1,
        None => 0,
    };
    if name_len >= 200 {
        proof {
            vstd::arithmetic::div_mod::lemma_div_is_ordered(202, name_len + 2, 3);
        }
        return false;
    }
    if dir_len >= 251 {
        return false;
    }
    let total: usize = dir_len + 5 + 4 * ((name_len + 2) / 3);
    total < 256
}

} // verus!
