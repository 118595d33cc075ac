use bench_server::compute::{compute, compute_hash, fibonacci, hash_bytes};

#[test]
fn fibonacci_small_values() {
    assert_eq!(fibonacci(0), 0);
    assert_eq!(fibonacci(1), 1);
    assert_eq!(fibonacci(2), 1);
    assert_eq!(fibonacci(10), 55);
    assert_eq!(fibonacci(30), 832040);
}

#[test]
fn fibonacci_largest_exact() {
    assert_eq!(fibonacci(93), 12200160415121876738);
}

#[test]
fn fibonacci_wraps_past_93() {
    // fib(94) = 19740274219868223167, reduced modulo 2^64
    assert_eq!(fibonacci(94), 1293530146158671551);
    assert_eq!(fibonacci(94), fibonacci(92).wrapping_add(fibonacci(93)));
}

#[test]
fn hash_of_nothing_is_offset_basis() {
    assert_eq!(compute_hash("", 5), 0xcbf29ce484222325);
    assert_eq!(compute_hash("abc", 0), 0xcbf29ce484222325);
}

#[test]
fn hash_of_single_byte() {
    assert_eq!(compute_hash("a", 1), 0xaf63dc4c8601ec8c);
}

#[test]
fn hash_rounds_continue_one_state() {
    assert_eq!(compute_hash("ab", 2), 18167144330958820489);
    assert_eq!(hash_bytes(b"abab", 1), compute_hash("ab", 2));
}

#[test]
fn compute_defaults() {
    let r = compute(None, None);
    assert_eq!(r.complexity, 30);
    assert_eq!(r.fib, 832040);
    assert_eq!(r.hash, 11223273348112073285);
    assert_eq!(r.body, b"fib(30)=832040, hash=11223273348112073285".to_vec());
    assert_eq!(r.fib_header(), b"832040".to_vec());
    assert_eq!(r.hash_header(), b"11223273348112073285".to_vec());
}

#[test]
fn compute_given_values() {
    let r = compute(Some(5), Some(3));
    assert_eq!(r.fib, 5);
    assert_eq!(r.hash, 12771905277736508373);
    assert_eq!(r.body, b"fib(5)=5, hash=12771905277736508373".to_vec());
}
