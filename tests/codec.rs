use std::io::{Read, Write};

use bench_server::codec::{body_codec, decode_body, encode_reply, gunzip_body, gzip_body, mentions_gzip, uppercase, CodecReply};

fn gz(data: &[u8]) -> Vec<u8> {
    let mut e = flate2::write::GzEncoder::new(Vec::new(), flate2::Compression::default());
    e.write_all(data).unwrap();
    e.finish().unwrap()
}

fn gunz(data: &[u8]) -> Vec<u8> {
    let mut d = flate2::read::GzDecoder::new(data);
    let mut out = Vec::new();
    d.read_to_end(&mut out).unwrap();
    out
}

#[test]
fn uppercase_shifts_and_wraps() {
    assert_eq!(uppercase(&[0, 1, 65, 254, 255]), vec![1, 2, 66, 255, 0]);
    assert_eq!(uppercase(&[]), Vec::<u8>::new());
}

#[test]
fn uppercase_twice_differs_from_once() {
    let once = uppercase(b"hello");
    let twice = uppercase(&once);
    assert_ne!(once, twice);
    assert_eq!(twice, b"jgnnq".to_vec());
}

#[test]
fn gzip_named_in_any_case() {
    assert!(mentions_gzip(b"gzip"));
    assert!(mentions_gzip(b"deflate, GZip;q=0.5"));
    assert!(!mentions_gzip(b"deflate"));
    assert!(!mentions_gzip(b"gzi"));
    assert!(!mentions_gzip(b""));
}

#[test]
fn gzip_round_trip() {
    for data in [&b""[..], b"x", b"hello hello hello hello", &[0u8, 255, 7, 7, 7, 1][..]] {
        let c = gzip_body(data).unwrap();
        assert_ne!(c, data.to_vec());
        assert_eq!(gunzip_body(&c), Some(data.to_vec()));
        assert_eq!(gunz(&c), data.to_vec());
    }
}

#[test]
fn gunzip_rejects_plain_bytes() {
    assert_eq!(gunzip_body(b"this is not gzip"), None);
}

#[test]
fn codec_plain_in_plain_out() {
    let r = body_codec(b"", b"", b"abc");
    assert_eq!(r.status(), 200);
    assert!(!r.is_gzipped());
    assert!(matches!(r, CodecReply::Plain(ref b) if b == b"bcd"));
}

#[test]
fn codec_identity_encoding_is_not_decoded() {
    let r = body_codec(b"identity", b"br", &[255, 0]);
    assert!(matches!(r, CodecReply::Plain(ref b) if b == &vec![0u8, 1]));
}

#[test]
fn codec_bad_gzip_is_400() {
    let r = body_codec(b"gzip", b"", b"not gzip at all");
    assert!(matches!(r, CodecReply::BadGzip));
    assert_eq!(r.status(), 400);
}

#[test]
fn codec_gzip_in_plain_out() {
    let r = body_codec(b"GZIP", b"identity", &gz(b"abc"));
    assert!(matches!(r, CodecReply::Plain(ref b) if b == b"bcd"));
}

#[test]
fn codec_gzip_in_gzip_out() {
    let r = body_codec(b"x-gzip", b"gzip, deflate", &gz(b"Hello"));
    assert_eq!(r.status(), 200);
    assert!(r.is_gzipped());
    match r {
        CodecReply::Gzipped(c) => assert_eq!(gunz(&c), b"Ifmmp".to_vec()),
        _ => panic!("expected a gzipped reply"),
    }
}

#[test]
fn codec_steps_on_given_values() {
    assert_eq!(decode_body(b"deflate", b"xy"), Some(b"xy".to_vec()));
    assert_eq!(decode_body(b"gzip", &gz(b"xy")), Some(b"xy".to_vec()));
    assert!(matches!(encode_reply(None, b"gzip"), CodecReply::BadGzip));
    assert!(matches!(encode_reply(Some(vec![9, 255]), b""), CodecReply::Plain(ref b) if b == &vec![10u8, 0]));
    assert_eq!(CodecReply::CompressionFailed.status(), 500);
}
