use forum_api::diagnostics::{
    fibonacci_iterative, heavy_cpu_computation, is_prime_slow, matrix_multiplication_result,
    slow_endpoint,
};

#[test]
fn fibonacci_small() {
    assert_eq!(fibonacci_iterative(0), 0);
    assert_eq!(fibonacci_iterative(1), 1);
    assert_eq!(fibonacci_iterative(2), 1);
    assert_eq!(fibonacci_iterative(10), 55);
    assert_eq!(fibonacci_iterative(30), 832040);
}

#[test]
fn fibonacci_wraps() {
    assert_eq!(fibonacci_iterative(93), 12200160415121876738);
    assert_eq!(fibonacci_iterative(94), 1293530146158671551);
    assert_eq!(fibonacci_iterative(100), 3736710778780434371);
}

#[test]
fn primes() {
    let mut found = Vec::new();
    for n in 0..60u64 {
        if is_prime_slow(n) {
            found.push(n);
        }
    }
    assert_eq!(found, vec![2, 3, 5, 7, 11, 13, 17, 19, 23, 29, 31, 37, 41, 43, 47, 53, 59]);
}

#[test]
fn squares_of_primes_are_not_prime() {
    assert!(!is_prime_slow(9));
    assert!(!is_prime_slow(25));
    assert!(!is_prime_slow(49));
    assert!(!is_prime_slow(7919 * 7919));
    assert!(is_prime_slow(7919));
    assert!(!is_prime_slow(7917));
    assert!(is_prime_slow(4_294_967_291));
}

#[test]
fn matrix_diagonal() {
    assert_eq!(matrix_multiplication_result(), 124292648);
}

#[test]
fn heavy_computation() {
    assert_eq!(heavy_cpu_computation(0), 125124688);
    assert_eq!(heavy_cpu_computation(2), 125124688);
    assert_eq!(heavy_cpu_computation(3), 125124694);
    assert_eq!(heavy_cpu_computation(10), 125124792);
    assert_eq!(heavy_cpu_computation(100), 125191544);
    assert_eq!(heavy_cpu_computation(5000), 5176562968);
}

#[test]
fn slow_endpoint_work() {
    // 5176562968 + 124292648 + 9227465
    assert_eq!(slow_endpoint(), 5310083081);
    assert_eq!(fibonacci_iterative(35), 9227465);
}
