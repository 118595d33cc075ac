//! Random alphanumeric payloads: the headers and body endpoints.

use vstd::prelude::*;
use crate::text::{ascii, decimal, push_ascii, push_decimal};

verus! {

/// Header count used when the request names none.
pub const DEFAULT_HEADER_COUNT: usize = 10;

/// Header value length used when the request names none.
pub const DEFAULT_HEADER_SIZE: usize = 64;

/// Body length used when the request names none.
pub const DEFAULT_BODY_SIZE: usize = 1024;

/// An ASCII letter or digit.
pub open spec fn is_alphanumeric(b: u8) -> bool {
    (48 <= b <= 57) || (65 <= b <= 90) || (97 <= b <= 122)
}

/// Every byte is an ASCII letter or digit.
pub open spec fn all_alphanumeric(s: Seq<u8>) -> bool {
    forall|i: int| 0 <= i < s.len() ==> is_alphanumeric(#[trigger] s[i])
}

/// Relies on rand's `thread_rng` sampled through `distributions::Alphanumeric`,
/// which draws one byte of `A-Z`, `a-z` and `0-9`.
#[verifier::external_body]
fn random_alphanumeric() -> (r: u8)
    ensures
        is_alphanumeric(r),
{
    rand::Rng::sample(&mut rand::thread_rng(), rand::distributions::Alphanumeric)
}

/// A random string of `length` ASCII letters and digits.
pub fn random_string(length: usize) -> (r: Vec<u8>)
    ensures
        r@.len() == length,
        all_alphanumeric(r@),
{
    let mut out: Vec<u8> = Vec::new();
    let mut i: usize = 0;
    while i < length
        invariant
            i <= length,
            out@.len() == i,
            all_alphanumeric(out@),
        decreases length - i,
    {
        let b = random_alphanumeric();
        out.push(b);
        i += 1;
    }
    out
}

/// The name of the i-th generated header: `x-bench-header-<i>`.
pub open spec fn bench_header_name(i: nat) -> Seq<u8> {
    ascii("x-bench-header-"@) + decimal(i)
}

/// The body of the headers endpoint: `Generated <count> headers`.
pub open spec fn headers_body(count: nat) -> Seq<u8> {
    ascii("Generated "@) + decimal(count) + ascii(" headers"@)
}

/// What the headers endpoint answers.
pub struct HeadersReply {
    /// Name and value of each generated header, in order.
    pub headers: Vec<(Vec<u8>, Vec<u8>)>,
    pub body: Vec<u8>,
}

/// The headers endpoint: `count` headers (10 when absent) named
/// `x-bench-header-0` onward, each holding `size` random letters and digits
/// (64 when absent).
pub fn bench_headers(count: Option<usize>, size: Option<usize>) -> (r: HeadersReply)
    ensures
        ({
            let n = match count { Some(c) => c, None => DEFAULT_HEADER_COUNT };
            let len = match size { Some(s) => s, None => DEFAULT_HEADER_SIZE };
            &&& r.headers@.len() == n
            &&& forall|i: int| 0 <= i < n ==> (#[trigger] r.headers@[i]).0@ == bench_header_name(i as nat)
            &&& forall|i: int| 0 <= i < n ==> (#[trigger] r.headers@[i]).1@.len() == len
            &&& forall|i: int| 0 <= i < n ==> all_alphanumeric((#[trigger] r.headers@[i]).1@)
            &&& r.body@ == headers_body(n as nat)
        }),
{
    let n = match count {
        Some(c) => c,
        None => DEFAULT_HEADER_COUNT,
    };
    let len = match size {
        Some(s) => s,
        None => DEFAULT_HEADER_SIZE,
    };
    proof {
        reveal_strlit("x-bench-header-");
        reveal_strlit("Generated ");
        reveal_strlit(" headers");
    }
    let mut headers: Vec<(Vec<u8>, Vec<u8>)> = Vec::new();
    let mut i: usize = 0;
    while i < n
        invariant
            i <= n,
            headers@.len() == i,
            forall|k: int| 0 <= k < i ==> (#[trigger] headers@[k]).0@ == bench_header_name(k as nat),
            forall|k: int| 0 <= k < i ==> (#[trigger] headers@[k]).1@.len() == len,
            forall|k: int| 0 <= k < i ==> all_alphanumeric((#[trigger] headers@[k]).1@),
        decreases n - i,
    {
        let mut name: Vec<u8> = Vec::new();
        proof {
            reveal_strlit("x-bench-header-");
        }
        push_ascii(&mut name, "x-bench-header-");
        push_decimal(&mut name, i as u64);
        proof {
            assert(name@ =~= bench_header_name(i as nat));
        }
        let value = random_string(len);
        headers.push((name, value));
        i += 1;
    }
    let mut body: Vec<u8> = Vec::new();
    push_ascii(&mut body, "Generated ");
    push_decimal(&mut body, n as u64);
    push_ascii(&mut body, " headers");
    proof {
        assert(body@ =~= headers_body(n as nat));
    }
    HeadersReply { headers, body }
}

/// The body endpoint: `size` random letters and digits (1024 when absent).
pub fn random_body(size: Option<usize>) -> (r: Vec<u8>)
    ensures
        r@.len() == (match size { Some(s) => s, None => DEFAULT_BODY_SIZE }),
        all_alphanumeric(r@),
{
    let len = match size {
        Some(s) => s,
        None => DEFAULT_BODY_SIZE,
    };
    random_string(len)
}

} // verus!
