//! Request-level decisions of the REST surface: authentication, header
//! validation, the `+`-restoring of encoded tracks, and the batch
//! encode/decode endpoints.

use vstd::prelude::*;
use vstd::string::{StrSliceExecFns, StringExecFns};
use crate::track::{DecodedInfo, DecodedTrack, TrackError, b64_of, decode_blob, decode_track,
    encode_track, encodable, track_encoding_of, info_matches};

verus! {

/// Marks a request that failed authentication.
#[derive(Clone, Copy, Debug, PartialEq, Eq, Structural)]
pub struct AuthError;

/// Whether a request passes authentication: always when no password is
/// configured, else exactly when the header equals the password.
pub fn check_auth(password: &Option<String>, header: &Option<String>) -> (ok: bool)
    ensures
        (*password) is None ==> ok,
        (*password) matches Some(p) ==> (ok <==> ((*header) matches Some(h) && h@ == p@)),
{
    match password {
        None => true,
        Some(p) => match header {
            Some(h) => *h == *p,
            None => false,
        },
    }
}

/// Whether a character counts as numeric; what exactly does is
/// `char::is_numeric`'s business.
pub uninterp spec fn is_numeric_char(c: char) -> bool;

/// Relies on `char::is_numeric`: a pure function of the character.
#[verifier::external_body]
fn char_is_numeric(c: char) -> (r: bool)
    ensures
        r == is_numeric_char(c),
{
    c.is_numeric()
}

/// Whether every character of a `user-id` header is numeric; a header
/// that is not is answered with a client error.
pub fn user_id_all_numeric(s: &str) -> (r: bool)
    ensures
        r == (forall|i: int| 0 <= i < s@.len() ==> is_numeric_char(#[trigger] s@[i])),
{
    let n = s.unicode_len();
    let mut i: usize = 0;
    while i < n
        invariant
            n == s@.len(),
            i <= n,
            forall|j: int| 0 <= j < i ==> is_numeric_char(#[trigger] s@[j]),
        decreases n - i,
    {
        if !char_is_numeric(s.get_char(i)) {
            return false;
        }
        i += 1;
    }
    true
}

/// A text with every space turned back into a plus.
pub open spec fn plus_view(s: Seq<char>) -> Seq<char> {
    s.map_values(
        |c: char|
            if c == ' ' {
                '+'
            } else {
                c
            },
    )
}

/// Relies on `str::replace` with a one-character pattern: every space
/// becomes a plus, all other characters stay. URL decoding turns the `+`
/// of base64 into a space; this restores it before decoding.
#[verifier::external_body]
pub fn restore_plus(s: &str) -> (r: String)
    ensures
        r@ == plus_view(s@),
{
    s.replace(' ', "+")
}

/// The `?encodedTrack=` query of `/v4/decodetrack`.
pub struct DecodeTrackQuery {
    pub encoded_track: String,
}

/// The `?track=` query of `/v4/encodetrack`.
pub struct EncodeTrackQuery {
    pub track: String,
}

/// The `?identifier=` query of `/v4/loadtracks`.
pub struct LoadTracksQuery {
    pub identifier: String,
}

/// The body of `/v4/routeplanner/free/address`.
pub struct FreeAddressPayload {
    pub address: String,
}

/// The body of `PATCH /v4/sessions/{id}`.
pub struct SessionUpdatePayload {
    pub resuming: Option<bool>,
    pub timeout: Option<u64>,
}

/// The echo for a session update: the requested values, defaulted to not
/// resuming and a sixty-second timeout.
pub fn session_update_ack(body: &SessionUpdatePayload) -> (r: (bool, u64))
    ensures
        r.0 == (match body.resuming {
            Some(b) => b,
            None => false,
        }),
        r.1 == (match body.timeout {
            Some(t) => t as int,
            None => 60,
        }),
{
    let resuming = match body.resuming {
        Some(b) => b,
        None => false,
    };
    let timeout = match body.timeout {
        Some(t) => t,
        None => 60,
    };
    (resuming, timeout)
}

/// Decodes one URL-tolerant encoded track: spaces are restored to pluses
/// first.
pub fn decode_track_tolerant(encoded: &str) -> (r: Result<DecodedTrack, TrackError>)
    ensures
        forall|b: Seq<u8>|
            plus_view(encoded@) == b64_of(b) ==> crate::track::decoded_matches(
                r,
                #[trigger] decode_blob(b),
                plus_view(encoded@),
            ),
        (!(exists|b: Seq<u8>| plus_view(encoded@) == b64_of(b))) ==> r == Err::<
            DecodedTrack,
            TrackError,
        >(TrackError::InvalidBase64),
{
    let restored = restore_plus(encoded);
    decode_track(restored.as_str())
}

/// Whether a decoded batch element is what its encoded text dictates.
pub open spec fn decodes_ok(encoded_plus: Seq<char>, t: DecodedTrack) -> bool {
    &&& t.encoded@ == encoded_plus
    &&& forall|b: Seq<u8>|
        encoded_plus == b64_of(b) ==> ((#[trigger] decode_blob(b)) matches Ok(x) && info_matches(
            t.info,
            x,
        ))
}

/// Decodes a whole batch, stopping at the first rejected blob, as the
/// `POST /v4/decodetracks` body is handled.
pub fn decode_tracks(tracks: &Vec<String>) -> (r: Result<Vec<DecodedTrack>, TrackError>)
    ensures
        r matches Ok(v) ==> v@.len() == tracks@.len() && (forall|i: int|
            0 <= i < v@.len() ==> decodes_ok(plus_view(#[trigger] tracks@[i]@), v@[i])),
        r matches Err(e) ==> exists|i: int|
            0 <= i < tracks@.len() && decode_fails(plus_view(#[trigger] tracks@[i]@), e),
{
    let mut out: Vec<DecodedTrack> = Vec::new();
    let mut i: usize = 0;
    while i < tracks.len()
        invariant
            i <= tracks@.len(),
            out@.len() == i,
            forall|j: int|
                0 <= j < i ==> decodes_ok(plus_view(#[trigger] tracks@[j]@), out@[j]),
        decreases tracks@.len() - i,
    {
        match decode_track_tolerant(tracks[i].as_str()) {
            Ok(t) => {
                proof {
                    let s = plus_view(tracks@[i as int]@);
                    assert(exists|b: Seq<u8>| s == b64_of(b));
                    let b0 = choose|b: Seq<u8>| s == b64_of(b);
                    assert(crate::track::decoded_matches(
                        Ok::<DecodedTrack, TrackError>(t),
                        decode_blob(b0),
                        s,
                    ));
                    assert(decodes_ok(s, t));
                }
                out.push(t);
            },
            Err(e) => {
                proof {
                    assert(decode_fails(plus_view(tracks@[i as int]@), e));
                }
                return Err(e);
            },
        }
        i += 1;
    }
    Ok(out)
}

/// Why decoding a text fails: no byte string encodes to it, or its bytes
/// are rejected.
pub open spec fn decode_fails(s: Seq<char>, e: TrackError) -> bool {
    ||| (e == TrackError::InvalidBase64 && !(exists|b: Seq<u8>| s == b64_of(b)))
    ||| (exists|b: Seq<u8>| s == #[trigger] b64_of(b) && decode_blob(b) == Err::<
        crate::track::TrackText,
        TrackError,
    >(e))
}

/// Encodes a whole batch, as the `POST /v4/encodetracks` body is handled;
/// `None` when an info exceeds the format's limits.
pub fn encode_tracks(infos: &Vec<DecodedInfo>) -> (r: Option<Vec<String>>)
    ensures
        r matches Some(v) ==> v@.len() == infos@.len() && (forall|i: int|
            0 <= i < v@.len() ==> (#[trigger] v@[i])@ == track_encoding_of(infos@[i])),
        r is None ==> exists|i: int| 0 <= i < infos@.len() && !encodable(#[trigger] infos@[i]),
{
    let mut out: Vec<String> = Vec::new();
    let mut i: usize = 0;
    while i < infos.len()
        invariant
            i <= infos@.len(),
            out@.len() == i,
            forall|j: int|
                0 <= j < i ==> (#[trigger] out@[j])@ == track_encoding_of(infos@[j]),
        decreases infos@.len() - i,
    {
        match encode_track(&infos[i]) {
            Some(s) => {
                out.push(s);
            },
            None => {
                return None;
            },
        }
        i += 1;
    }
    Some(out)
}

/// A decimal digit.
pub open spec fn is_ascii_digit(c: char) -> bool {
    '0' <= c && c <= '9'
}

/// The value of a run of decimal digits.
pub open spec fn digits_value(s: Seq<char>) -> int
    decreases s.len(),
{
    if s.len() == 0 {
        0
    } else {
        digits_value(s.drop_last()) * 10 + (s.last() as int - '0' as int)
    }
}

/// One version component parsed as the original's lenient number parse: a
/// nonempty all-digit text in range gives its value, anything else zero.
pub fn parse_version_component(s: &str) -> (r: u32)
    ensures
        (s@.len() > 0 && (forall|i: int| 0 <= i < s@.len() ==> is_ascii_digit(#[trigger] s@[i]))
            && digits_value(s@) <= u32::MAX) ==> r == digits_value(s@),
        !(s@.len() > 0 && (forall|i: int| 0 <= i < s@.len() ==> is_ascii_digit(#[trigger] s@[i]))
            && digits_value(s@) <= u32::MAX) ==> r == 0,
{
    let n = s.unicode_len();
    if n == 0 {
        return 0;
    }
    let mut value: u64 = 0;
    let mut i: usize = 0;
    proof {
        assert(s@.subrange(0, 0) =~= Seq::<char>::empty());
    }
    while i < n
        invariant
            n == s@.len(),
            i <= n,
            forall|j: int| 0 <= j < i ==> is_ascii_digit(#[trigger] s@[j]),
            value == digits_value(s@.subrange(0, i as int)),
            value <= 0xffffffff,
        decreases n - i,
    {
        let c = s.get_char(i);
        if !('0' <= c && c <= '9') {
            return 0;
        }
        proof {
            assert(s@.subrange(0, i as int + 1).drop_last() =~= s@.subrange(0, i as int));
            assert(s@.subrange(0, i as int + 1).last() == s@[i as int]);
        }
        let d = (c as u32) - ('0' as u32);
        value = value * 10 + (d as u64);
        if value > 0xffffffff {
            proof {
                if forall|j: int| 0 <= j < s@.len() ==> is_ascii_digit(#[trigger] s@[j]) {
                    lemma_digits_grow(s@, i as int + 1);
                }
            }
            return 0;
        }
        i += 1;
    }
    proof {
        assert(s@.subrange(0, n as int) =~= s@);
    }
    value as u32
}

/// Once a digit prefix exceeds the 32-bit range, the whole run does.
proof fn lemma_digits_grow(s: Seq<char>, i: int)
    requires
        0 <= i <= s.len(),
        digits_value(s.subrange(0, i)) > u32::MAX,
        forall|j: int| 0 <= j < s.len() ==> is_ascii_digit(#[trigger] s[j]),
    ensures
        digits_value(s) > u32::MAX,
    decreases s.len() - i,
{
    if i < s.len() {
        assert(s.subrange(0, i + 1).drop_last() =~= s.subrange(0, i));
        assert(s.subrange(0, i + 1).last() == s[i]);
        assert(digits_value(s.subrange(0, i + 1)) == digits_value(s.subrange(0, i)) * 10 + (
        s[i] as int - '0' as int));
        lemma_digits_grow(s, i + 1);
    } else {
        assert(s.subrange(0, i) =~= s);
    }
}

/// The index of the first occurrence of a separator character.
pub open spec fn first_sep(s: Seq<char>, sep: char) -> Option<int>
    decreases s.len(),
{
    if s.len() == 0 {
        None
    } else if s[0] == sep {
        Some(0int)
    } else {
        match first_sep(s.drop_first(), sep) {
            Some(i) => Some(i + 1),
            None => None,
        }
    }
}

pub proof fn lemma_first_sep(s: Seq<char>, sep: char)
    ensures
        match first_sep(s, sep) {
            Some(i) => 0 <= i < s.len() && s[i] == sep && (forall|j: int|
                0 <= j < i ==> s[j] != sep),
            None => forall|j: int| 0 <= j < s.len() ==> s[j] != sep,
        },
    decreases s.len(),
{
    if s.len() > 0 && s[0] != sep {
        lemma_first_sep(s.drop_first(), sep);
        match first_sep(s.drop_first(), sep) {
            Some(i) => {
                assert(s[i + 1] == s.drop_first()[i]);
                assert forall|j: int| 0 <= j < i + 1 implies s[j] != sep by {
                    if j >= 1 {
                        assert(s[j] == s.drop_first()[j - 1]);
                    }
                }
            },
            None => {
                assert forall|j: int| 0 <= j < s.len() implies s[j] != sep by {
                    if j >= 1 {
                        assert(s[j] == s.drop_first()[j - 1]);
                    }
                }
            },
        }
    }
}

proof fn lemma_first_sep_at(s: Seq<char>, sep: char, i: int)
    requires
        0 <= i < s.len(),
        s[i] == sep,
        forall|j: int| 0 <= j < i ==> s[j] != sep,
    ensures
        first_sep(s, sep) == Some(i),
    decreases s.len(),
{
    if i > 0 {
        assert forall|j: int| 0 <= j < i - 1 implies s.drop_first()[j] != sep by {
            assert(s.drop_first()[j] == s[j + 1]);
        }
        assert(s.drop_first()[i - 1] == s[i]);
        lemma_first_sep_at(s.drop_first(), sep, i - 1);
    }
}

/// Splits a text at the first occurrence of a separator; the whole text
/// and an empty rest when the separator does not occur.
pub fn split_first(s: &str, sep: char) -> (r: (String, String))
    ensures
        match first_sep(s@, sep) {
            Some(i) => r.0@ == s@.subrange(0, i) && r.1@ == s@.subrange(i + 1, s@.len() as int),
            None => r.0@ == s@ && r.1@.len() == 0,
        },
{
    let n = s.unicode_len();
    let mut i: usize = 0;
    while i < n
        invariant
            n == s@.len(),
            i <= n,
            forall|j: int| 0 <= j < i ==> s@[j] != sep,
        decreases n - i,
    {
        if s.get_char(i) == sep {
            proof {
                lemma_first_sep_at(s@, sep, i as int);
            }
            let head = String::from_str(s.substring_char(0, i));
            let tail = String::from_str(s.substring_char(i + 1, n));
            return (head, tail);
        }
        i += 1;
    }
    proof {
        lemma_first_sep(s@, sep);
        match first_sep(s@, sep) {
            Some(k) => {
                assert(s@[k] == sep);
            },
            None => {},
        }
    }
    let whole = String::from_str(s);
    let empty = String::new();
    (whole, empty)
}

} // verus!
