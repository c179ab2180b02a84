//! The versioned binary track codec behind `encodedTrack` strings.
//!
//! A track blob is `[4-byte big-endian header][payload]`, where the header
//! carries the payload length in its low 30 bits with bit 30 set, and the
//! payload is a version byte followed by length-prefixed UTF-8 strings,
//! 64-bit integers, flag bytes and (from version 2 up) nullable strings.
//! The whole blob travels as standard padded base64 text.

use vstd::prelude::*;
use vstd::utf8::{valid_utf8, decode_utf8, encode_utf8};
use vstd::string::StrSliceExecFns;
use base64::Engine;
use crate::wire::{
    be16, be32, be64, be16_value, be32_value, be64_value, push_be16, push_be32, push_be64,
    read_be16, read_be32, read_be64,
};

verus! {

broadcast use vstd::utf8::encode_utf8_valid_utf8, vstd::utf8::encode_utf8_decode_utf8;

/// The track metadata carried inside an encoded track blob.
#[derive(Debug, PartialEq)]
pub struct DecodedInfo {
    pub title: String,
    pub author: String,
    pub length: u64,
    pub identifier: String,
    pub is_stream: bool,
    pub uri: Option<String>,
    pub artwork_url: Option<String>,
    pub isrc: Option<String>,
    pub source_name: String,
    pub position: u64,
}

/// A decoded track: the original base64 text together with its metadata.
#[derive(Debug, PartialEq)]
pub struct DecodedTrack {
    pub encoded: String,
    pub info: DecodedInfo,
}

/// Copies an optional string, preserving its content.
pub fn clone_opt_string(o: &Option<String>) -> (r: Option<String>)
    ensures
        r == *o,
{
    match o {
        Some(s) => Some(s.clone()),
        None => None,
    }
}

impl Clone for DecodedInfo {
    fn clone(&self) -> (r: Self)
        ensures
            r == *self,
    {
        DecodedInfo {
            title: self.title.clone(),
            author: self.author.clone(),
            length: self.length,
            identifier: self.identifier.clone(),
            is_stream: self.is_stream,
            uri: clone_opt_string(&self.uri),
            artwork_url: clone_opt_string(&self.artwork_url),
            isrc: clone_opt_string(&self.isrc),
            source_name: self.source_name.clone(),
            position: self.position,
        }
    }
}

impl Clone for DecodedTrack {
    fn clone(&self) -> (r: Self)
        ensures
            r == *self,
    {
        DecodedTrack { encoded: self.encoded.clone(), info: self.info.clone() }
    }
}

/// Why a track blob was rejected.
#[derive(Clone, Copy, Debug, PartialEq, Eq, Structural)]
pub enum TrackError {
    /// The text is not the base64 encoding of any byte string.
    InvalidBase64,
    /// The bytes do not carry a well-formed track payload.
    Malformed,
}

/// The mathematical content of a track payload: the version byte and the
/// decoded text of every field.
#[verifier::ext_equal]
pub struct TrackText {
    pub version: u8,
    pub title: Seq<char>,
    pub author: Seq<char>,
    pub length: u64,
    pub identifier: Seq<char>,
    pub is_stream: bool,
    pub uri: Option<Seq<char>>,
    pub artwork_url: Option<Seq<char>>,
    pub isrc: Option<Seq<char>>,
    pub source_name: Seq<char>,
    pub position: u64,
}

/// The raw field bytes of a track payload, before UTF-8 decoding.
#[verifier::ext_equal]
pub struct TrackBytes {
    pub version: u8,
    pub title: Seq<u8>,
    pub author: Seq<u8>,
    pub length: u64,
    pub identifier: Seq<u8>,
    pub is_stream: bool,
    pub uri: Option<Seq<u8>>,
    pub artwork_url: Option<Seq<u8>>,
    pub isrc: Option<Seq<u8>>,
    pub source_name: Seq<u8>,
    pub position: u64,
}

/// The view of an optional string.
pub open spec fn opt_view(o: Option<String>) -> Option<Seq<char>> {
    match o {
        Some(s) => Some(s@),
        None => None,
    }
}

/// The version an info is encoded at: 3 when artwork or ISRC is present,
/// 2 when only a URI is present, 1 otherwise.
pub open spec fn natural_version(info: DecodedInfo) -> u8 {
    if info.artwork_url is Some || info.isrc is Some {
        3u8
    } else if info.uri is Some {
        2u8
    } else {
        1u8
    }
}

/// A length-prefixed UTF-8 string field: two big-endian length bytes, then
/// the string's UTF-8 bytes.
pub open spec fn utf_field(s: Seq<char>) -> Seq<u8> {
    be16(encode_utf8(s).len() as u16) + encode_utf8(s)
}

/// A nullable string field: a presence byte, then the string field if present.
pub open spec fn nullable_field(o: Option<Seq<char>>) -> Seq<u8> {
    match o {
        Some(s) => seq![1u8] + utf_field(s),
        None => seq![0u8],
    }
}

/// The byte encoding a boolean flag.
pub open spec fn bool_byte(b: bool) -> u8 {
    if b {
        1u8
    } else {
        0u8
    }
}

/// The payload bytes from the ISRC field on: source name and position.
pub open spec fn tail_after_isrc(info: DecodedInfo) -> Seq<u8> {
    utf_field(info.source_name@) + be64(info.position)
}

/// The payload bytes from the artwork field on.
pub open spec fn tail_after_artwork(info: DecodedInfo) -> Seq<u8> {
    if natural_version(info) >= 3 {
        nullable_field(opt_view(info.isrc)) + tail_after_isrc(info)
    } else {
        tail_after_isrc(info)
    }
}

/// The payload bytes from the URI field on.
pub open spec fn tail_after_uri(info: DecodedInfo) -> Seq<u8> {
    if natural_version(info) >= 3 {
        nullable_field(opt_view(info.artwork_url)) + tail_after_artwork(info)
    } else {
        tail_after_artwork(info)
    }
}

/// The payload bytes from the stream flag on.
pub open spec fn tail_after_stream(info: DecodedInfo) -> Seq<u8> {
    if natural_version(info) >= 2 {
        nullable_field(opt_view(info.uri)) + tail_after_uri(info)
    } else {
        tail_after_uri(info)
    }
}

/// The payload bytes from the identifier on.
pub open spec fn tail_after_identifier(info: DecodedInfo) -> Seq<u8> {
    seq![bool_byte(info.is_stream)] + tail_after_stream(info)
}

/// The payload bytes from the length on.
pub open spec fn tail_after_length(info: DecodedInfo) -> Seq<u8> {
    utf_field(info.identifier@) + tail_after_identifier(info)
}

/// The payload bytes from the author on.
pub open spec fn tail_after_author(info: DecodedInfo) -> Seq<u8> {
    be64(info.length) + tail_after_length(info)
}

/// The payload bytes from the title on.
pub open spec fn tail_after_title(info: DecodedInfo) -> Seq<u8> {
    utf_field(info.author@) + tail_after_author(info)
}

/// The payload bytes after the version byte.
pub open spec fn tail_after_version(info: DecodedInfo) -> Seq<u8> {
    utf_field(info.title@) + tail_after_title(info)
}

/// The payload bytes of an info, at its natural version.
pub open spec fn payload_of(info: DecodedInfo) -> Seq<u8> {
    seq![natural_version(info)] + tail_after_version(info)
}

/// The header word for a payload: its length in the low 30 bits, bit 30 set.
pub open spec fn header_of(payload: Seq<u8>) -> u32 {
    ((payload.len() as u32) & 0x3fffffff) | 0x40000000
}

/// The full blob bytes of an info: header then payload.
pub open spec fn blob_of(info: DecodedInfo) -> Seq<u8> {
    be32(header_of(payload_of(info))) + payload_of(info)
}

/// The payload written out as one flat run of fields.
#[verifier::rlimit(100)]
#[verifier::spinoff_prover]
proof fn lemma_payload_flat(info: DecodedInfo)
    ensures
        payload_of(info) == seq![natural_version(info)] + utf_field(info.title@) + utf_field(
            info.author@,
        ) + be64(info.length) + utf_field(info.identifier@) + seq![bool_byte(info.is_stream)] + (
        if natural_version(info) >= 2 {
            nullable_field(opt_view(info.uri))
        } else {
            Seq::<u8>::empty()
        }) + (if natural_version(info) >= 3 {
            nullable_field(opt_view(info.artwork_url))
        } else {
            Seq::<u8>::empty()
        }) + (if natural_version(info) >= 3 {
            nullable_field(opt_view(info.isrc))
        } else {
            Seq::<u8>::empty()
        }) + utf_field(info.source_name@) + be64(info.position),
{
    assert(payload_of(info) =~= seq![natural_version(info)] + utf_field(info.title@) + utf_field(
        info.author@,
    ) + be64(info.length) + utf_field(info.identifier@) + seq![bool_byte(info.is_stream)] + (
    if natural_version(info) >= 2 {
        nullable_field(opt_view(info.uri))
    } else {
        Seq::<u8>::empty()
    }) + (if natural_version(info) >= 3 {
        nullable_field(opt_view(info.artwork_url))
    } else {
        Seq::<u8>::empty()
    }) + (if natural_version(info) >= 3 {
        nullable_field(opt_view(info.isrc))
    } else {
        Seq::<u8>::empty()
    }) + utf_field(info.source_name@) + be64(info.position));
}

/// Whether an info fits the format: every string at most 65535 UTF-8 bytes,
/// and the payload below the 30-bit header limit.
pub open spec fn encodable(info: DecodedInfo) -> bool {
    &&& encode_utf8(info.title@).len() <= 0xffff
    &&& encode_utf8(info.author@).len() <= 0xffff
    &&& encode_utf8(info.identifier@).len() <= 0xffff
    &&& encode_utf8(info.source_name@).len() <= 0xffff
    &&& (info.uri matches Some(u) ==> encode_utf8(u@).len() <= 0xffff)
    &&& (info.artwork_url matches Some(u) ==> encode_utf8(u@).len() <= 0xffff)
    &&& (info.isrc matches Some(u) ==> encode_utf8(u@).len() <= 0xffff)
    &&& payload_of(info).len() < 0x40000000
}

/// Whether an info fits the format is decided by its field views alone:
/// two infos that agree on every view agree on their payload and on
/// encodability.
pub proof fn lemma_encodable_from_views(a: DecodedInfo, b: DecodedInfo)
    requires
        a.title@ == b.title@,
        a.author@ == b.author@,
        a.length == b.length,
        a.identifier@ == b.identifier@,
        a.is_stream == b.is_stream,
        opt_view(a.uri) == opt_view(b.uri),
        opt_view(a.artwork_url) == opt_view(b.artwork_url),
        opt_view(a.isrc) == opt_view(b.isrc),
        a.source_name@ == b.source_name@,
        a.position == b.position,
    ensures
        payload_of(a) == payload_of(b),
        encodable(a) == encodable(b),
{
    assert(a.uri is Some <==> b.uri is Some);
    assert(a.artwork_url is Some <==> b.artwork_url is Some);
    assert(a.isrc is Some <==> b.isrc is Some);
    assert(natural_version(a) == natural_version(b));
    assert(tail_after_isrc(a) == tail_after_isrc(b));
    assert(tail_after_artwork(a) == tail_after_artwork(b));
    assert(tail_after_uri(a) == tail_after_uri(b));
    assert(tail_after_stream(a) == tail_after_stream(b));
    assert(tail_after_identifier(a) == tail_after_identifier(b));
    assert(tail_after_length(a) == tail_after_length(b));
    assert(tail_after_author(a) == tail_after_author(b));
    assert(tail_after_title(a) == tail_after_title(b));
    assert(tail_after_version(a) == tail_after_version(b));
    assert(payload_of(a) == payload_of(b));
}

/// What the base64 encoding of a byte string looks like; named because its
/// exact text is the base64 crate's business.
pub uninterp spec fn b64_of(bytes: Seq<u8>) -> Seq<char>;

/// The base64 text an info encodes to.
pub open spec fn track_encoding_of(info: DecodedInfo) -> Seq<char> {
    b64_of(blob_of(info))
}

/// Relies on base64's STANDARD engine `encode`: the padded base64 text of
/// the bytes, a pure function of them.
#[verifier::external_body]
fn base64_encode(bytes: &Vec<u8>) -> (r: String)
    ensures
        r@ == b64_of(bytes@),
{
    base64::engine::general_purpose::STANDARD.encode(bytes)
}

/// Relies on base64's STANDARD engine `decode`: it succeeds exactly on the
/// canonical padded encoding of some byte string (the engine requires
/// canonical padding and zero trailing bits) and returns that byte string.
#[verifier::external_body]
fn base64_decode(s: &str) -> (r: Option<Vec<u8>>)
    ensures
        r matches Some(v) ==> s@ == b64_of(v@) && (forall|b: Seq<u8>| s@ == b64_of(b) ==> b == v@),
        forall|b: Seq<u8>| s@ == b64_of(b) ==> r is Some,
{
    base64::engine::general_purpose::STANDARD.decode(s).ok()
}

/// Relies on `String::from_utf8`: it succeeds exactly on valid UTF-8 and
/// returns the string those bytes encode.
#[verifier::external_body]
pub(crate) fn string_from_utf8(bytes: Vec<u8>) -> (r: Option<String>)
    ensures
        r is Some <==> valid_utf8(bytes@),
        r matches Some(s) ==> s@ == decode_utf8(bytes@),
{
    String::from_utf8(bytes).ok()
}

/// Writes a length-prefixed string field, refusing strings over 65535 bytes.
pub fn write_utf(buf: &mut Vec<u8>, s: &str) -> (ok: bool)
    ensures
        ok == (encode_utf8(s@).len() <= 0xffff),
        ok ==> final(buf)@ == old(buf)@ + utf_field(s@),
        !ok ==> final(buf)@ == old(buf)@,
{
    let bytes = s.as_bytes_vec();
    if bytes.len() > 0xffff {
        return false;
    }
    push_be16(buf, bytes.len() as u16);
    buf.extend_from_slice(bytes.as_slice());
    assert(final(buf)@ =~= old(buf)@ + utf_field(s@));
    true
}

/// Writes a nullable string field: a presence byte, then the string if present.
pub fn write_nullable_text(buf: &mut Vec<u8>, s: &Option<String>) -> (ok: bool)
    ensures
        ok == (s matches Some(t) ==> encode_utf8(t@).len() <= 0xffff),
        ok ==> final(buf)@ == old(buf)@ + nullable_field(opt_view(*s)),
        !ok ==> final(buf)@ == old(buf)@,
{
    match s {
        None => {
            buf.push(0u8);
            assert(final(buf)@ =~= old(buf)@ + nullable_field(opt_view(*s)));
            true
        },
        Some(t) => {
            let bytes = t.as_str().as_bytes_vec();
            if bytes.len() > 0xffff {
                return false;
            }
            buf.push(1u8);
            push_be16(buf, bytes.len() as u16);
            buf.extend_from_slice(bytes.as_slice());
            assert(final(buf)@ =~= old(buf)@ + nullable_field(opt_view(*s)));
            true
        },
    }
}

/// Encodes an info as a base64 track blob at its natural version, or `None`
/// when a field exceeds the format's limits.
pub fn encode_track(info: &DecodedInfo) -> (r: Option<String>)
    ensures
        r is Some <==> encodable(*info),
        r matches Some(s) ==> s@ == track_encoding_of(*info),
{
    let version: u8 = if info.artwork_url.is_some() || info.isrc.is_some() {
        3
    } else if info.uri.is_some() {
        2
    } else {
        1
    };
    let mut buf: Vec<u8> = Vec::new();
    buf.push(version);
    if !write_utf(&mut buf, info.title.as_str()) {
        return None;
    }
    if !write_utf(&mut buf, info.author.as_str()) {
        return None;
    }
    push_be64(&mut buf, info.length);
    if !write_utf(&mut buf, info.identifier.as_str()) {
        return None;
    }
    buf.push(if info.is_stream {
        1u8
    } else {
        0u8
    });
    if version >= 2 {
        if !write_nullable_text(&mut buf, &info.uri) {
            return None;
        }
    }
    if version >= 3 {
        if !write_nullable_text(&mut buf, &info.artwork_url) {
            return None;
        }
        if !write_nullable_text(&mut buf, &info.isrc) {
            return None;
        }
    }
    if !write_utf(&mut buf, info.source_name.as_str()) {
        return None;
    }
    push_be64(&mut buf, info.position);
    proof {
        lemma_payload_flat(*info);
        assert(buf@ =~= payload_of(*info));
    }
    if buf.len() >= 0x40000000 {
        return None;
    }
    let header: u32 = ((buf.len() as u32) & 0x3fffffff) | 0x40000000;
    let mut blob: Vec<u8> = Vec::new();
    push_be32(&mut blob, header);
    blob.extend_from_slice(buf.as_slice());
    assert(blob@ =~= blob_of(*info));
    Some(base64_encode(&blob))
}

/// Reads one byte off the front.
pub open spec fn parse_u8(d: Seq<u8>) -> Option<(u8, Seq<u8>)> {
    if d.len() < 1 {
        None
    } else {
        Some((d[0], d.skip(1)))
    }
}

/// Reads a 64-bit big-endian value off the front.
pub open spec fn parse_u64(d: Seq<u8>) -> Option<(u64, Seq<u8>)> {
    if d.len() < 8 {
        None
    } else {
        Some((be64_value(d[0], d[1], d[2], d[3], d[4], d[5], d[6], d[7]), d.skip(8)))
    }
}

/// Reads a length-prefixed string field off the front, as raw bytes.
pub open spec fn parse_utf(d: Seq<u8>) -> Option<(Seq<u8>, Seq<u8>)> {
    if d.len() < 2 {
        None
    } else {
        let n = be16_value(d[0], d[1]) as int;
        if d.len() < 2 + n {
            None
        } else {
            Some((d.subrange(2, 2 + n), d.skip(2 + n)))
        }
    }
}

/// Reads a nullable string field off the front, as raw bytes.
pub open spec fn parse_nullable(d: Seq<u8>) -> Option<(Option<Seq<u8>>, Seq<u8>)> {
    if d.len() < 1 {
        None
    } else if d[0] == 0 {
        Some((None, d.skip(1)))
    } else {
        match parse_utf(d.skip(1)) {
            Some(p) => Some((Some(p.0), p.1)),
            None => None,
        }
    }
}

/// Parses a whole payload into its raw fields; trailing bytes are ignored.
pub open spec fn parse_payload(d: Seq<u8>) -> Option<TrackBytes> {
    let r0 = parse_u8(d);
    let s0 = r0.unwrap();
    let version = s0.0;
    let r1 = parse_utf(s0.1);
    let s1 = r1.unwrap();
    let r2 = parse_utf(s1.1);
    let s2 = r2.unwrap();
    let r3 = parse_u64(s2.1);
    let s3 = r3.unwrap();
    let r4 = parse_utf(s3.1);
    let s4 = r4.unwrap();
    let r5 = parse_u8(s4.1);
    let s5 = r5.unwrap();
    let r6 = if version >= 2 {
        parse_nullable(s5.1)
    } else {
        Some((Option::<Seq<u8>>::None, s5.1))
    };
    let s6 = r6.unwrap();
    let r7 = if version >= 3 {
        parse_nullable(s6.1)
    } else {
        Some((Option::<Seq<u8>>::None, s6.1))
    };
    let s7 = r7.unwrap();
    let r8 = if version >= 3 {
        parse_nullable(s7.1)
    } else {
        Some((Option::<Seq<u8>>::None, s7.1))
    };
    let s8 = r8.unwrap();
    let r9 = parse_utf(s8.1);
    let s9 = r9.unwrap();
    let r10 = parse_u64(s9.1);
    let s10 = r10.unwrap();
    if r0 is Some && r1 is Some && r2 is Some && r3 is Some && r4 is Some && r5 is Some && r6
        is Some && r7 is Some && r8 is Some && r9 is Some && r10 is Some {
        Some(
            TrackBytes {
                version,
                title: s1.0,
                author: s2.0,
                length: s3.0,
                identifier: s4.0,
                is_stream: s5.0 != 0,
                uri: s6.0,
                artwork_url: s7.0,
                isrc: s8.0,
                source_name: s9.0,
                position: s10.0,
            },
        )
    } else {
        None
    }
}

/// Whether an optional raw field is valid UTF-8.
pub open spec fn opt_valid(o: Option<Seq<u8>>) -> bool {
    o matches Some(b) ==> valid_utf8(b)
}

/// The text of an optional raw field.
pub open spec fn opt_decode(o: Option<Seq<u8>>) -> Option<Seq<char>> {
    match o {
        Some(b) => Some(decode_utf8(b)),
        None => None,
    }
}

/// Whether every string field of a parsed payload is valid UTF-8.
pub open spec fn fields_text_ok(f: TrackBytes) -> bool {
    &&& valid_utf8(f.title)
    &&& valid_utf8(f.author)
    &&& valid_utf8(f.identifier)
    &&& valid_utf8(f.source_name)
    &&& opt_valid(f.uri)
    &&& opt_valid(f.artwork_url)
    &&& opt_valid(f.isrc)
}

/// The text content of a parsed payload.
pub open spec fn text_of(f: TrackBytes) -> TrackText {
    TrackText {
        version: f.version,
        title: decode_utf8(f.title),
        author: decode_utf8(f.author),
        length: f.length,
        identifier: decode_utf8(f.identifier),
        is_stream: f.is_stream,
        uri: opt_decode(f.uri),
        artwork_url: opt_decode(f.artwork_url),
        isrc: opt_decode(f.isrc),
        source_name: decode_utf8(f.source_name),
        position: f.position,
    }
}

/// The payload region a blob's header declares, when it fits.
pub open spec fn blob_payload(b: Seq<u8>) -> Option<Seq<u8>> {
    if b.len() < 4 {
        None
    } else {
        let header = be32_value(b[0], b[1], b[2], b[3]);
        let size = (header & 0x3fffffff) as int;
        if b.len() - 4 < size {
            None
        } else {
            Some(b.subrange(4, 4 + size))
        }
    }
}

/// What decoding a blob's bytes yields: the payload text, or rejection when
/// the declared size exceeds the available bytes, the fields do not fit, or
/// a string field is not UTF-8.
pub open spec fn decode_blob(b: Seq<u8>) -> Result<TrackText, TrackError> {
    let p = blob_payload(b);
    let f = parse_payload(p.unwrap());
    if p is None {
        Err(TrackError::Malformed)
    } else if f is None {
        Err(TrackError::Malformed)
    } else if !fields_text_ok(f.unwrap()) {
        Err(TrackError::Malformed)
    } else {
        Ok(text_of(f.unwrap()))
    }
}

/// The text content of an info at its natural version.
pub open spec fn text_view(info: DecodedInfo) -> TrackText {
    TrackText {
        version: natural_version(info),
        title: info.title@,
        author: info.author@,
        length: info.length,
        identifier: info.identifier@,
        is_stream: info.is_stream,
        uri: opt_view(info.uri),
        artwork_url: opt_view(info.artwork_url),
        isrc: opt_view(info.isrc),
        source_name: info.source_name@,
        position: info.position,
    }
}

/// Whether an exec info carries exactly the given text content.
pub open spec fn info_matches(info: DecodedInfo, t: TrackText) -> bool {
    &&& info.title@ == t.title
    &&& info.author@ == t.author
    &&& info.length == t.length
    &&& info.identifier@ == t.identifier
    &&& info.is_stream == t.is_stream
    &&& opt_view(info.uri) == t.uri
    &&& opt_view(info.artwork_url) == t.artwork_url
    &&& opt_view(info.isrc) == t.isrc
    &&& info.source_name@ == t.source_name
    &&& info.position == t.position
}

/// Whether a decode result agrees with what the blob's bytes dictate.
pub open spec fn decoded_matches(
    r: Result<DecodedTrack, TrackError>,
    d: Result<TrackText, TrackError>,
    s: Seq<char>,
) -> bool {
    match r {
        Ok(t) => d matches Ok(x) && info_matches(t.info, x) && t.encoded@ == s,
        Err(e) => d matches Err(e2) && e == e2,
    }
}

/// Reads a length-prefixed string field at `pos` and decodes it as UTF-8.
pub fn read_utf(data: &Vec<u8>, pos: usize) -> (r: Result<(String, usize), TrackError>)
    requires
        pos <= data.len(),
    ensures
        ({
            let p = parse_utf(data@.skip(pos as int));
            match r {
                Ok((s, pos2)) => {
                    &&& p matches Some(pr)
                    &&& valid_utf8(pr.0)
                    &&& s@ == decode_utf8(pr.0)
                    &&& pos2 <= data.len()
                    &&& data@.skip(pos2 as int) == pr.1
                },
                Err(e) => {
                    &&& e == TrackError::Malformed
                    &&& (p is None || (p matches Some(pr) && !valid_utf8(pr.0)))
                },
            }
        }),
{
    if data.len() - pos < 2 {
        return Err(TrackError::Malformed);
    }
    let n = read_be16(data, pos) as usize;
    if data.len() - (pos + 2) < n {
        return Err(TrackError::Malformed);
    }
    let field = crate::wire::vec_range(data, pos + 2, pos + 2 + n);
    proof {
        assert(field@ =~= data@.skip(pos as int).subrange(2, 2 + n as int));
        assert(data@.skip((pos + 2 + n) as int) =~= data@.skip(pos as int).skip(2 + n as int));
    }
    match string_from_utf8(field) {
        Some(s) => Ok((s, pos + 2 + n)),
        None => Err(TrackError::Malformed),
    }
}

/// Reads a nullable string field at `pos` and decodes it as UTF-8.
pub fn read_nullable_text(data: &Vec<u8>, pos: usize) -> (r: Result<
    (Option<String>, usize),
    TrackError,
>)
    requires
        pos <= data.len(),
    ensures
        ({
            let p = parse_nullable(data@.skip(pos as int));
            match r {
                Ok((o, pos2)) => {
                    &&& p matches Some(pr)
                    &&& opt_valid(pr.0)
                    &&& opt_view(o) == opt_decode(pr.0)
                    &&& pos2 <= data.len()
                    &&& data@.skip(pos2 as int) == pr.1
                },
                Err(e) => {
                    &&& e == TrackError::Malformed
                    &&& (p is None || (p matches Some(pr) && !opt_valid(pr.0)))
                },
            }
        }),
{
    if data.len() - pos < 1 {
        return Err(TrackError::Malformed);
    }
    let present = data[pos];
    if present == 0 {
        proof {
            assert(data@.skip((pos + 1) as int) =~= data@.skip(pos as int).skip(1));
        }
        Ok((None, pos + 1))
    } else {
        proof {
            assert(data@.skip((pos + 1) as int) =~= data@.skip(pos as int).skip(1));
        }
        match read_utf(data, pos + 1) {
            Ok((s, pos2)) => Ok((Some(s), pos2)),
            Err(e) => Err(e),
        }
    }
}

/// Whether an exec info carries the text of these raw fields.
pub open spec fn info_matches_fields(info: DecodedInfo, f: TrackBytes) -> bool {
    fields_text_ok(f) && info_matches(info, text_of(f))
}

/// Parses the fields of a payload and decodes each string as UTF-8.
#[verifier::rlimit(100)]
#[verifier::spinoff_prover]
fn parse_track_payload(data: &Vec<u8>) -> (r: Result<DecodedInfo, TrackError>)
    ensures
        match r {
            Ok(info) => parse_payload(data@) matches Some(f) && info_matches_fields(info, f),
            Err(e) => {
                &&& e == TrackError::Malformed
                &&& (parse_payload(data@) is None || (parse_payload(data@) matches Some(f)
                    && !fields_text_ok(f)))
            },
        },
{
    let ghost d0 = data@;
    proof {
        assert(d0.skip(0) =~= d0);
    }
    if data.len() < 1 {
        return Err(TrackError::Malformed);
    }
    let version = data[0];
    proof {
        assert(d0.skip(1) =~= data@.skip(1));
    }
    let (title, pos1) = match read_utf(data, 1) {
        Ok(v) => v,
        Err(e) => {
            return Err(e);
        },
    };
    let (author, pos2) = match read_utf(data, pos1) {
        Ok(v) => v,
        Err(e) => {
            return Err(e);
        },
    };
    if data.len() - pos2 < 8 {
        return Err(TrackError::Malformed);
    }
    let length = read_be64(data, pos2);
    let pos3 = pos2 + 8;
    proof {
        assert(data@.skip(pos3 as int) =~= data@.skip(pos2 as int).skip(8));
    }
    let (identifier, pos4) = match read_utf(data, pos3) {
        Ok(v) => v,
        Err(e) => {
            return Err(e);
        },
    };
    if data.len() - pos4 < 1 {
        return Err(TrackError::Malformed);
    }
    let is_stream = data[pos4] != 0;
    let pos5 = pos4 + 1;
    proof {
        assert(data@.skip(pos5 as int) =~= data@.skip(pos4 as int).skip(1));
    }
    let (uri, pos6) = if version >= 2 {
        match read_nullable_text(data, pos5) {
            Ok(v) => v,
            Err(e) => {
                return Err(e);
            },
        }
    } else {
        (None, pos5)
    };
    let (artwork_url, pos7) = if version >= 3 {
        match read_nullable_text(data, pos6) {
            Ok(v) => v,
            Err(e) => {
                return Err(e);
            },
        }
    } else {
        (None, pos6)
    };
    let (isrc, pos8) = if version >= 3 {
        match read_nullable_text(data, pos7) {
            Ok(v) => v,
            Err(e) => {
                return Err(e);
            },
        }
    } else {
        (None, pos7)
    };
    let (source_name, pos9) = match read_utf(data, pos8) {
        Ok(v) => v,
        Err(e) => {
            return Err(e);
        },
    };
    if data.len() - pos9 < 8 {
        return Err(TrackError::Malformed);
    }
    let position = read_be64(data, pos9);
    Ok(
        DecodedInfo {
            title,
            author,
            length,
            identifier,
            is_stream,
            uri,
            artwork_url,
            isrc,
            source_name,
            position,
        },
    )
}

/// Decodes a base64 track blob into its metadata.
///
/// Succeeds exactly when the text is canonical base64 and the bytes carry a
/// well-formed payload; every outcome is dictated by the decoded bytes.
#[verifier::rlimit(100)]
#[verifier::spinoff_prover]
pub fn decode_track(encoded: &str) -> (r: Result<DecodedTrack, TrackError>)
    ensures
        forall|b: Seq<u8>|
            encoded@ == b64_of(b) ==> decoded_matches(r, #[trigger] decode_blob(b), encoded@),
        (!(exists|b: Seq<u8>| encoded@ == b64_of(b))) ==> r == Err::<DecodedTrack, TrackError>(
            TrackError::InvalidBase64,
        ),
        r matches Ok(t) ==> t.encoded@ == encoded@,
{
    let bytes = match base64_decode(encoded) {
        Some(v) => v,
        None => {
            return Err(TrackError::InvalidBase64);
        },
    };
    if bytes.len() < 4 {
        return Err(TrackError::Malformed);
    }
    let header = read_be32(&bytes, 0);
    let size32: u32 = header & 0x3fffffff;
    proof {
        assert((header & 0x3fffffff) <= 0x3fffffff) by (bit_vector);
    }
    let size = size32 as usize;
    if bytes.len() - 4 < size {
        return Err(TrackError::Malformed);
    }
    let data = crate::wire::vec_range(&bytes, 4, 4 + size);
    proof {
        assert(blob_payload(bytes@) == Some(data@));
    }
    match parse_track_payload(&data) {
        Ok(info) => Ok(DecodedTrack { encoded: encoded.to_owned(), info }),
        Err(e) => Err(e),
    }
}

/// A string field followed by anything parses back to its bytes.
proof fn lemma_parse_utf_field(s: Seq<char>, rest: Seq<u8>)
    requires
        encode_utf8(s).len() <= 0xffff,
    ensures
        parse_utf(utf_field(s) + rest) == Some((encode_utf8(s), rest)),
{
    let e = encode_utf8(s);
    let n = e.len() as u16;
    let d = utf_field(s) + rest;
    crate::wire::lemma_be16_round_trip(n);
    assert(be16_value(d[0], d[1]) == n);
    assert(d.subrange(2, 2 + n as int) =~= e);
    assert(d.skip(2 + n as int) =~= rest);
}

/// A 64-bit field followed by anything parses back to its value.
proof fn lemma_parse_u64_field(x: u64, rest: Seq<u8>)
    ensures
        parse_u64(be64(x) + rest) == Some((x, rest)),
{
    let d = be64(x) + rest;
    crate::wire::lemma_be64_round_trip(x);
    assert(be64_value(d[0], d[1], d[2], d[3], d[4], d[5], d[6], d[7]) == x);
    assert(d.skip(8) =~= rest);
}

/// A single byte followed by anything parses back to itself.
proof fn lemma_parse_u8_field(x: u8, rest: Seq<u8>)
    ensures
        parse_u8(seq![x] + rest) == Some((x, rest)),
{
    let d = seq![x] + rest;
    assert(d[0] == x);
    assert(d.skip(1) =~= rest);
}

/// A nullable field followed by anything parses back to its bytes.
proof fn lemma_parse_nullable_field(o: Option<Seq<char>>, rest: Seq<u8>)
    requires
        o matches Some(s) ==> encode_utf8(s).len() <= 0xffff,
    ensures
        parse_nullable(nullable_field(o) + rest) == Some(
            (
                match o {
                    Some(s) => Some(encode_utf8(s)),
                    None => None,
                },
                rest,
            ),
        ),
{
    match o {
        None => {
            let d = nullable_field(o) + rest;
            assert(d[0] == 0);
            assert(d.skip(1) =~= rest);
        },
        Some(s) => {
            let d = nullable_field(o) + rest;
            assert(d[0] == 1);
            assert(d.skip(1) =~= utf_field(s) + rest);
            lemma_parse_utf_field(s, rest);
        },
    }
}

/// The raw field bytes an encodable info's payload parses back into.
pub open spec fn opt_enc(o: Option<Seq<char>>) -> Option<Seq<u8>> {
    match o {
        Some(s) => Some(encode_utf8(s)),
        None => None,
    }
}

/// The raw parsed form of an info's payload at its natural version.
pub open spec fn bytes_view(info: DecodedInfo) -> TrackBytes {
    TrackBytes {
        version: natural_version(info),
        title: encode_utf8(info.title@),
        author: encode_utf8(info.author@),
        length: info.length,
        identifier: encode_utf8(info.identifier@),
        is_stream: info.is_stream,
        uri: opt_enc(opt_view(info.uri)),
        artwork_url: opt_enc(opt_view(info.artwork_url)),
        isrc: opt_enc(opt_view(info.isrc)),
        source_name: encode_utf8(info.source_name@),
        position: info.position,
    }
}

/// The payload of an encodable info parses back into its raw fields.
#[verifier::rlimit(100)]
#[verifier::spinoff_prover]
proof fn lemma_payload_parses(info: DecodedInfo)
    requires
        encodable(info),
    ensures
        parse_payload(payload_of(info)) == Some(bytes_view(info)),
{
    let v = natural_version(info);
    let p = payload_of(info);

    lemma_parse_u8_field(v, tail_after_version(info));
    assert(parse_u8(p) == Some((v, tail_after_version(info))));
    lemma_parse_utf_field(info.title@, tail_after_title(info));
    lemma_parse_utf_field(info.author@, tail_after_author(info));
    lemma_parse_u64_field(info.length, tail_after_length(info));
    lemma_parse_utf_field(info.identifier@, tail_after_identifier(info));
    lemma_parse_u8_field(bool_byte(info.is_stream), tail_after_stream(info));
    if v >= 2 {
        lemma_parse_nullable_field(opt_view(info.uri), tail_after_uri(info));
    } else {
        assert(opt_view(info.uri) is None);
    }
    if v >= 3 {
        lemma_parse_nullable_field(opt_view(info.artwork_url), tail_after_artwork(info));
        lemma_parse_nullable_field(opt_view(info.isrc), tail_after_isrc(info));
    } else {
        assert(opt_view(info.artwork_url) is None);
        assert(opt_view(info.isrc) is None);
    }
    lemma_parse_utf_field(info.source_name@, be64(info.position));
    assert(be64(info.position) =~= be64(info.position) + Seq::<u8>::empty());
    lemma_parse_u64_field(info.position, Seq::<u8>::empty());

    assert(parse_payload(p) is Some);
    assert(parse_payload(p).unwrap() =~= bytes_view(info));
}

/// Decoding the blob of an encodable info recovers exactly its text content
/// at its natural version.
#[verifier::rlimit(100)]
#[verifier::spinoff_prover]
pub proof fn lemma_track_round_trip(info: DecodedInfo)
    requires
        encodable(info),
    ensures
        decode_blob(blob_of(info)) == Ok::<TrackText, TrackError>(text_view(info)),
{
    let p = payload_of(info);
    let b = blob_of(info);
    let h = header_of(p);
    crate::wire::lemma_be32_round_trip(h);
    assert(be32_value(b[0], b[1], b[2], b[3]) == h);
    let len32 = p.len() as u32;
    assert((((len32 & 0x3fffffff) | 0x40000000) & 0x3fffffff) == len32) by (bit_vector)
        requires
            len32 < 0x40000000u32,
    ;
    assert(b.subrange(4, 4 + p.len() as int) =~= p);
    assert(blob_payload(b) == Some(p));
    lemma_payload_parses(info);
    let f = bytes_view(info);
    assert(fields_text_ok(f));
    assert(text_of(f) =~= text_view(info));
}

} // verus!
