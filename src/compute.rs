//! The CPU-bound work of the compute endpoint: a wrapping Fibonacci number
//! and a repeated FNV-1a hash.

use vstd::prelude::*;
use crate::text::{ascii, decimal, push_ascii, push_decimal};
use vstd::string::StringSliceAdditionalSpecFns;

verus! {

/// Offset basis of 64-bit FNV-1a.
pub const FNV_OFFSET: u64 = 0xcbf29ce484222325;

/// Prime of 64-bit FNV-1a.
pub const FNV_PRIME: u64 = 0x100000001b3;

/// Complexity used when the request names none.
pub const DEFAULT_COMPLEXITY: u32 = 30;

/// Hash rounds used when the request names none.
pub const DEFAULT_HASH_ITERS: u32 = 1000;

/// The Fibonacci sequence over the naturals: 0, 1, 1, 2, 3, 5, ...
pub open spec fn fib(n: nat) -> nat
    decreases n,
{
    if n == 0 {
        0
    } else if n == 1 {
        1
    } else {
        fib((n - 2) as nat) + fib((n - 1) as nat)
    }
}

/// 2 to the 64th.
pub open spec fn word() -> nat {
    0x1_0000_0000_0000_0000
}

/// The n-th Fibonacci number reduced to 64 bits.
pub open spec fn fib_u64(n: nat) -> u64 {
    (fib(n) % word()) as u64
}

/// One FNV-1a step: mix a byte in, then multiply by the prime modulo 2^64.
pub open spec fn fnv_step(h: u64, b: u8) -> u64 {
    (((h ^ (b as u64)) as nat * FNV_PRIME as nat) % word()) as u64
}

/// FNV-1a steps over each byte of `data` in order, starting from `h`.
pub open spec fn fnv_bytes(h: u64, data: Seq<u8>) -> u64
    decreases data.len(),
{
    if data.len() == 0 {
        h
    } else {
        fnv_step(fnv_bytes(h, data.drop_last()), data.last())
    }
}

/// The hash state after `rounds` passes over `data` from the offset basis.
pub open spec fn fnv_rounds(data: Seq<u8>, rounds: nat) -> u64
    decreases rounds,
{
    if rounds == 0 {
        FNV_OFFSET
    } else {
        fnv_bytes(fnv_rounds(data, (rounds - 1) as nat), data)
    }
}

/// Consecutive Fibonacci numbers computed forward, a form Verus can evaluate.
pub open spec fn fib_pair(n: nat) -> (nat, nat)
    decreases n,
{
    if n == 0 {
        (0, 1)
    } else {
        let p = fib_pair((n - 1) as nat);
        (p.1, p.0 + p.1)
    }
}

proof fn lemma_fib_pair(n: nat)
    ensures
        fib_pair(n) == (fib(n), fib(n + 1)),
    decreases n,
{
    if n > 0 {
        lemma_fib_pair((n - 1) as nat);
    }
}

proof fn lemma_fib_monotone(m: nat, n: nat)
    requires
        m <= n,
    ensures
        fib(m) <= fib(n),
    decreases n,
{
    if m < n {
        lemma_fib_monotone(m, (n - 1) as nat);
    }
}

/// Up to 93 the Fibonacci numbers fit in 64 bits, so there the wrapping
/// result is the exact Fibonacci number.
pub proof fn lemma_fibonacci_exact(n: nat)
    requires
        n <= 93,
    ensures
        fib(n) < word(),
        fib_u64(n) as nat == fib(n),
{
    lemma_fib_pair(93);
    assert(fib_pair(10) == (55nat, 89nat)) by {
        reveal_with_fuel(fib_pair, 11);
    }
    assert(fib_pair(20) == (6765nat, 10946nat)) by {
        reveal_with_fuel(fib_pair, 11);
    }
    assert(fib_pair(30) == (832040nat, 1346269nat)) by {
        reveal_with_fuel(fib_pair, 11);
    }
    assert(fib_pair(40) == (102334155nat, 165580141nat)) by {
        reveal_with_fuel(fib_pair, 11);
    }
    assert(fib_pair(50) == (12586269025nat, 20365011074nat)) by {
        reveal_with_fuel(fib_pair, 11);
    }
    assert(fib_pair(60) == (1548008755920nat, 2504730781961nat)) by {
        reveal_with_fuel(fib_pair, 11);
    }
    assert(fib_pair(70) == (190392490709135nat, 308061521170129nat)) by {
        reveal_with_fuel(fib_pair, 11);
    }
    assert(fib_pair(80) == (23416728348467685nat, 37889062373143906nat)) by {
        reveal_with_fuel(fib_pair, 11);
    }
    assert(fib_pair(90) == (2880067194370816120nat, 4660046610375530309nat)) by {
        reveal_with_fuel(fib_pair, 11);
    }
    assert(fib_pair(93) == (12200160415121876738nat, 19740274219868223167nat)) by {
        reveal_with_fuel(fib_pair, 11);
    }
    lemma_fib_monotone(n, 93);
}

/// Fibonacci number `n`, with additions wrapping at 2^64.
pub fn fibonacci(n: u32) -> (r: u64)
    ensures
        r == fib_u64(n as nat),
{
    if n <= 1 {
        return n as u64;
    }
    let mut prev: u64 = 0;
    let mut curr: u64 = 1;
    let mut i: u32 = 1;
    assert(fib(0) == 0 && fib(1) == 1);
    assert(0nat % word() == 0 && 1nat % word() == 1);
    while i < n
        invariant
            1 <= i <= n,
            prev == fib_u64((i - 1) as nat),
            curr == fib_u64(i as nat),
        decreases n - i,
    {
        let next = prev.wrapping_add(curr);
        proof {
            let a = fib((i - 1) as nat);
            let b = fib(i as nat);
            assert(fib((i + 1) as nat) == a + b);
            vstd::arithmetic::div_mod::lemma_add_mod_noop(a as int, b as int, word() as int);
        }
        prev = curr;
        curr = next;
        i += 1;
    }
    curr
}

/// FNV-1a over `data`, run `iterations` times in a row on one state.
pub fn hash_bytes(data: &[u8], iterations: u32) -> (r: u64)
    ensures
        r == fnv_rounds(data@, iterations as nat),
{
    let mut hash: u64 = FNV_OFFSET;
    let mut round: u32 = 0;
    while round < iterations
        invariant
            round <= iterations,
            hash == fnv_rounds(data@, round as nat),
        decreases iterations - round,
    {
        let ghost start = hash;
        let mut j: usize = 0;
        while j < data.len()
            invariant
                j <= data@.len(),
                hash == fnv_bytes(start, data@.subrange(0, j as int)),
            decreases data@.len() - j,
        {
            proof {
                let s = data@.subrange(0, j as int + 1);
                assert(s.drop_last() =~= data@.subrange(0, j as int));
            }
            hash = hash ^ (data[j] as u64);
            hash = hash.wrapping_mul(FNV_PRIME);
            j += 1;
        }
        proof {
            assert(data@.subrange(0, j as int) =~= data@);
        }
        round += 1;
    }
    hash
}

/// FNV-1a over the bytes of `data`, run `iterations` times in a row on one state.
pub fn compute_hash(data: &str, iterations: u32) -> (r: u64)
    ensures
        r == fnv_rounds(data.spec_bytes(), iterations as nat),
{
    hash_bytes(data.as_bytes(), iterations)
}

/// What the compute endpoint answers.
pub struct ComputeReply {
    pub complexity: u32,
    pub fib: u64,
    pub hash: u64,
    /// `fib(<complexity>)=<fib>, hash=<hash>`
    pub body: Vec<u8>,
}

/// The text that is hashed for a given complexity: `benchmark-data-<complexity>`.
pub open spec fn hash_input(complexity: u32) -> Seq<u8> {
    ascii("benchmark-data-"@) + decimal(complexity as nat)
}

/// The reply body for the three numbers.
pub open spec fn compute_body(complexity: u32, fib: u64, hash: u64) -> Seq<u8> {
    ascii("fib("@) + decimal(complexity as nat) + ascii(")="@) + decimal(fib as nat)
        + ascii(", hash="@) + decimal(hash as nat)
}

/// The compute endpoint: Fibonacci of the complexity (30 when absent) and
/// the hash of `benchmark-data-<complexity>` over `hash_iters` rounds (1000
/// when absent).
pub fn compute(complexity: Option<u32>, hash_iters: Option<u32>) -> (r: ComputeReply)
    ensures
        r.complexity == (match complexity { Some(c) => c, None => DEFAULT_COMPLEXITY }),
        r.fib == fib_u64(r.complexity as nat),
        r.hash == fnv_rounds(
            hash_input(r.complexity),
            (match hash_iters { Some(h) => h, None => DEFAULT_HASH_ITERS }) as nat,
        ),
        r.body@ == compute_body(r.complexity, r.fib, r.hash),
{
    let c = match complexity {
        Some(c) => c,
        None => DEFAULT_COMPLEXITY,
    };
    let iters = match hash_iters {
        Some(h) => h,
        None => DEFAULT_HASH_ITERS,
    };
    let fib_result = fibonacci(c);
    let mut data: Vec<u8> = Vec::new();
    proof {
        reveal_strlit("benchmark-data-");
        reveal_strlit("fib(");
        reveal_strlit(")=");
        reveal_strlit(", hash=");
    }
    push_ascii(&mut data, "benchmark-data-");
    push_decimal(&mut data, c as u64);
    let hash_result = hash_bytes(data.as_slice(), iters);
    let mut body: Vec<u8> = Vec::new();
    push_ascii(&mut body, "fib(");
    push_decimal(&mut body, c as u64);
    push_ascii(&mut body, ")=");
    push_decimal(&mut body, fib_result);
    push_ascii(&mut body, ", hash=");
    push_decimal(&mut body, hash_result);
    proof {
        assert(data@ =~= hash_input(c));
        assert(body@ =~= compute_body(c, fib_result, hash_result));
    }
    ComputeReply { complexity: c, fib: fib_result, hash: hash_result, body }
}

impl ComputeReply {
    /// Decimal text of the Fibonacci result, for the `x-fib-result` header.
    pub fn fib_header(&self) -> (r: Vec<u8>)
        ensures
            r@ == decimal(self.fib as nat),
    {
        crate::text::decimal_text(self.fib)
    }

    /// Decimal text of the hash result, for the `x-hash-result` header.
    pub fn hash_header(&self) -> (r: Vec<u8>)
        ensures
            r@ == decimal(self.hash as nat),
    {
        crate::text::decimal_text(self.hash)
    }
}

} // verus!
