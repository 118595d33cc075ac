//! Byte shifting and the gzip decode/shift/encode pipeline of the codec endpoint.

use vstd::prelude::*;

verus! {

/// Every byte incremented by one, wrapping 255 to 0.
pub open spec fn shifted(s: Seq<u8>) -> Seq<u8> {
    s.map_values(|b: u8| ((b as nat + 1) % 256) as u8)
}

/// Each byte of `body` incremented by one, wrapping 255 to 0.
pub fn uppercase(body: &[u8]) -> (r: Vec<u8>)
    ensures
        r@ == shifted(body@),
{
    let mut out: Vec<u8> = Vec::new();
    let mut i: usize = 0;
    while i < body.len()
        invariant
            i <= body@.len(),
            out@ == shifted(body@.subrange(0, i as int)),
        decreases body@.len() - i,
    {
        out.push(body[i].wrapping_add(1));
        i += 1;
        proof {
            assert(out@ =~= shifted(body@.subrange(0, i as int)));
        }
    }
    proof {
        assert(body@.subrange(0, i as int) =~= body@);
    }
    out
}

/// Shifting is not idempotent: on any non-empty input, shifting twice gives
/// another result than shifting once.
pub proof fn lemma_shift_twice_differs(s: Seq<u8>)
    requires
        s.len() > 0,
    ensures
        shifted(shifted(s)) != shifted(s),
{
    assert(shifted(shifted(s))[0] != shifted(s)[0]);
}

/// A byte with ASCII upper case letters mapped to lower case.
pub open spec fn ascii_lower(b: u8) -> u8 {
    if 65 <= b <= 90 {
        (b + 32) as u8
    } else {
        b
    }
}

/// `gzip`, in any letter case, starts at position `i` of `s`.
pub open spec fn gzip_at(s: Seq<u8>, i: int) -> bool {
    &&& 0 <= i
    &&& i + 4 <= s.len()
    &&& ascii_lower(s[i]) == 103
    &&& ascii_lower(s[i + 1]) == 122
    &&& ascii_lower(s[i + 2]) == 105
    &&& ascii_lower(s[i + 3]) == 112
}

/// A header value that names gzip somewhere, in any letter case.
pub open spec fn names_gzip(s: Seq<u8>) -> bool {
    exists|i: int| gzip_at(s, i)
}

/// Whether a header value names gzip, in any letter case.
pub fn mentions_gzip(value: &[u8]) -> (r: bool)
    ensures
        r == names_gzip(value@),
{
    if value.len() < 4 {
        return false;
    }
    let mut i: usize = 0;
    while i <= value.len() - 4
        invariant
            value@.len() >= 4,
            i <= value@.len() - 3,
            forall|k: int| 0 <= k < i ==> !gzip_at(value@, k),
        decreases value@.len() - i,
    {
        let a = lower_byte(value[i]);
        let b = lower_byte(value[i + 1]);
        let c = lower_byte(value[i + 2]);
        let d = lower_byte(value[i + 3]);
        if a == 103 && b == 122 && c == 105 && d == 112 {
            assert(gzip_at(value@, i as int));
            return true;
        }
        i += 1;
    }
    assert forall|k: int| !gzip_at(value@, k) by {
        if 0 <= k && k < i {
        }
    }
    false
}

fn lower_byte(b: u8) -> (r: u8)
    ensures
        r == ascii_lower(b),
{
    if 65 <= b && b <= 90 {
        b + 32
    } else {
        b
    }
}

/// What decoding a gzip stream yields: the content, or nothing where the
/// bytes are no valid gzip stream.
pub uninterp spec fn gunzip_of(data: Seq<u8>) -> Option<Seq<u8>>;

/// What gzip compression at the default level yields: the stream, or
/// nothing where the encoder fails.
pub uninterp spec fn gzip_of(data: Seq<u8>) -> Option<Seq<u8>>;

/// Relies on flate2's `read::GzDecoder` read to the end: decoding an
/// in-memory stream depends on its bytes alone; any error gives `None`.
#[verifier::external_body]
fn gunzip(data: &[u8]) -> (r: Option<Vec<u8>>)
    ensures
        r.deep_view() == gunzip_of(data@),
{
    let mut decoder = flate2::read::GzDecoder::new(data);
    let mut decoded = Vec::new();
    match std::io::Read::read_to_end(&mut decoder, &mut decoded) {
        Ok(_) => Some(decoded),
        Err(_) => None,
    }
}

/// Relies on flate2's `write::GzEncoder` at `Compression::default()` into a
/// `Vec`: its header has a zero time stamp and a fixed system byte, so the
/// stream depends on the data alone; any error gives `None`. The stream it
/// writes is one gzip member, which `read::GzDecoder` decodes back to the data.
#[verifier::external_body]
fn gzip(data: &[u8]) -> (r: Option<Vec<u8>>)
    ensures
        r.deep_view() == gzip_of(data@),
        r matches Some(c) ==> gunzip_of(c@) == Some(data@),
{
    let mut encoder = flate2::write::GzEncoder::new(Vec::new(), flate2::Compression::default());
    if std::io::Write::write_all(&mut encoder, data).is_err() {
        return None;
    }
    encoder.finish().ok()
}

/// Decompresses `data` as a gzip stream; `None` where it is not a valid one.
pub fn gunzip_body(data: &[u8]) -> (r: Option<Vec<u8>>)
    ensures
        r.deep_view() == gunzip_of(data@),
{
    gunzip(data)
}

/// Compresses `data` into a gzip stream; `None` where compression fails.
/// Round trip: decompressing the stream gives back exactly `data`.
pub fn gzip_body(data: &[u8]) -> (r: Option<Vec<u8>>)
    ensures
        r.deep_view() == gzip_of(data@),
        r matches Some(c) ==> gunzip_of(c@) == Some(data@),
{
    gzip(data)
}

/// The outcome of the codec endpoint.
pub enum CodecReply {
    /// The request claimed gzip but its body is no valid gzip stream (400).
    BadGzip,
    /// The shifted data could not be compressed (500).
    CompressionFailed,
    /// The shifted data, sent as is (200, `application/octet-stream`).
    Plain(Vec<u8>),
    /// The shifted data, gzip-compressed (200, `content-encoding: gzip`).
    Gzipped(Vec<u8>),
}

/// The mathematical form of a codec reply.
pub enum CodecOutcome {
    BadGzip,
    CompressionFailed,
    Plain(Seq<u8>),
    Gzipped(Seq<u8>),
}

impl View for CodecReply {
    type V = CodecOutcome;

    open spec fn view(&self) -> CodecOutcome {
        match self {
            CodecReply::BadGzip => CodecOutcome::BadGzip,
            CodecReply::CompressionFailed => CodecOutcome::CompressionFailed,
            CodecReply::Plain(b) => CodecOutcome::Plain(b@),
            CodecReply::Gzipped(b) => CodecOutcome::Gzipped(b@),
        }
    }
}

/// The request body after content decoding: gunzipped where the
/// content-encoding names gzip, else as it came.
pub open spec fn decoded_spec(content_encoding: Seq<u8>, body: Seq<u8>) -> Option<Seq<u8>> {
    if names_gzip(content_encoding) {
        gunzip_of(body)
    } else {
        Some(body)
    }
}

/// The reply for a decoded body (if any) and the client's accept-encoding.
pub open spec fn reply_spec(decoded: Option<Seq<u8>>, accept_encoding: Seq<u8>) -> CodecOutcome {
    match decoded {
        None => CodecOutcome::BadGzip,
        Some(d) => if names_gzip(accept_encoding) {
            match gzip_of(shifted(d)) {
                Some(c) => CodecOutcome::Gzipped(c),
                None => CodecOutcome::CompressionFailed,
            }
        } else {
            CodecOutcome::Plain(shifted(d))
        },
    }
}

/// Decodes a request body by its content-encoding header value.
pub fn decode_body(content_encoding: &[u8], body: &[u8]) -> (r: Option<Vec<u8>>)
    ensures
        r.deep_view() == decoded_spec(content_encoding@, body@),
{
    if mentions_gzip(content_encoding) {
        gunzip(body)
    } else {
        let v = vstd::slice::slice_to_vec(body);
        proof {
            assert(Some(v).deep_view() =~= Some(body@));
        }
        Some(v)
    }
}

/// Shifts a decoded body and encodes it by the accept-encoding header value;
/// a body that failed to decode gives `BadGzip`.
pub fn encode_reply(decoded: Option<Vec<u8>>, accept_encoding: &[u8]) -> (r: CodecReply)
    ensures
        r@ == reply_spec(decoded.deep_view(), accept_encoding@),
{
    let ghost dv = decoded.deep_view();
    match decoded {
        None => CodecReply::BadGzip,
        Some(d) => {
            assert(dv =~= Some(d@));
            let data = uppercase(d.as_slice());
            if mentions_gzip(accept_encoding) {
                let compressed = gzip(data.as_slice());
                let ghost cv = compressed.deep_view();
                match compressed {
                    Some(c) => {
                        assert(cv =~= Some(c@));
                        CodecReply::Gzipped(c)
                    },
                    None => CodecReply::CompressionFailed,
                }
            } else {
                CodecReply::Plain(data)
            }
        },
    }
}

/// The codec endpoint: decode (gzip if the content-encoding says so), shift
/// every byte by one, encode (gzip if the accept-encoding allows it).
pub fn body_codec(content_encoding: &[u8], accept_encoding: &[u8], body: &[u8]) -> (r: CodecReply)
    ensures
        r@ == reply_spec(decoded_spec(content_encoding@, body@), accept_encoding@),
{
    let decoded = decode_body(content_encoding, body);
    encode_reply(decoded, accept_encoding)
}

impl CodecReply {
    /// The HTTP status of the reply.
    pub fn status(&self) -> (r: u16)
        ensures
            r == (match self@ {
                CodecOutcome::BadGzip => 400u16,
                CodecOutcome::CompressionFailed => 500u16,
                _ => 200u16,
            }),
    {
        match self {
            CodecReply::BadGzip => 400,
            CodecReply::CompressionFailed => 500,
            _ => 200,
        }
    }

    /// Whether the body is gzip-compressed (`content-encoding: gzip`,
    /// `vary: Accept-Encoding`).
    pub fn is_gzipped(&self) -> (r: bool)
        ensures
            r == self@ is Gzipped,
    {
        match self {
            CodecReply::Gzipped(_) => true,
            _ => false,
        }
    }
}

} // verus!
