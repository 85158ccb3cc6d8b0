//! Deliberately slow arithmetic for the diagnostic endpoint: it keeps a
//! processor busy for a while and returns a number that does not depend on
//! anything but its input.

use vstd::prelude::*;
use vstd::arithmetic::div_mod::{
    lemma_add_mod_noop, lemma_add_mod_noop_right, lemma_fundamental_div_mod,
    lemma_mod_multiples_basic, lemma_small_mod,
};

verus! {

/// The side of the square matrices that are multiplied.
pub const SIZE: usize = 100;

/// The number of values of a 64-bit word.
pub open spec fn word() -> int {
    0x1_0000_0000_0000_0000
}

/// The Fibonacci numbers: 0, 1, 1, 2, 3, 5, ...
pub open spec fn fib(n: nat) -> nat
    decreases n,
{
    if n == 0 {
        0
    } else if n == 1 {
        1
    } else {
        fib((n - 1) as nat) + fib((n - 2) as nat)
    }
}

/// Whether `n` is a prime number.
pub open spec fn is_prime(n: nat) -> bool {
    n >= 2 && forall|d: nat| 2 <= d < n ==> #[trigger] (n % d) != 0
}

/// The sum of the primes below `n`.
pub open spec fn prime_sum(n: nat) -> nat
    decreases n,
{
    if n == 0 {
        0
    } else if is_prime((n - 1) as nat) {
        prime_sum((n - 1) as nat) + (n - 1) as nat
    } else {
        prime_sum((n - 1) as nat)
    }
}

/// The sum of the squares of the primes below `n`.
pub open spec fn prime_square_sum(n: nat) -> nat
    decreases n,
{
    if n == 0 {
        0
    } else if is_prime((n - 1) as nat) {
        prime_square_sum((n - 1) as nat) + ((n - 1) * (n - 1)) as nat
    } else {
        prime_square_sum((n - 1) as nat)
    }
}

/// The entry of the left matrix in row `i`, column `k`.
pub open spec fn left_entry(i: nat, k: nat) -> nat {
    (i + k) % 256
}

/// The entry of the right matrix in row `k`, column `j`.
pub open spec fn right_entry(k: nat, j: nat) -> nat {
    (k * j) % 256
}

/// The first `upto` terms of the product's entry in row `i`, column `j`.
pub open spec fn dot(i: nat, j: nat, upto: nat) -> nat
    decreases upto,
{
    if upto == 0 {
        0
    } else {
        dot(i, j, (upto - 1) as nat) + left_entry(i, (upto - 1) as nat) * right_entry(
            (upto - 1) as nat,
            j,
        )
    }
}

/// The sum of the first `upto` entries on the diagonal of the product.
pub open spec fn diagonal(upto: nat) -> nat
    decreases upto,
{
    if upto == 0 {
        0
    } else {
        diagonal((upto - 1) as nat) + dot((upto - 1) as nat, (upto - 1) as nat, SIZE as nat)
    }
}

proof fn lemma_dot_bound(i: nat, j: nat, upto: nat)
    ensures
        dot(i, j, upto) <= upto * 65025,
    decreases upto,
{
    if upto > 0 {
        lemma_dot_bound(i, j, (upto - 1) as nat);
        let a = left_entry(i, (upto - 1) as nat);
        let b = right_entry((upto - 1) as nat, j);
        assert(a * b <= 65025) by (nonlinear_arith)
            requires
                a <= 255,
                b <= 255,
        ;
    }
}

proof fn lemma_diagonal_bound(upto: nat)
    ensures
        diagonal(upto) <= upto * 6502500,
    decreases upto,
{
    if upto > 0 {
        lemma_diagonal_bound((upto - 1) as nat);
        lemma_dot_bound((upto - 1) as nat, (upto - 1) as nat, SIZE as nat);
    }
}

/// There is no prime below 2, so the sums over the primes start at nothing.
proof fn lemma_no_prime_below_two()
    ensures
        prime_sum(0) == 0 && prime_sum(1) == 0 && prime_sum(2) == 0,
        prime_square_sum(0) == 0 && prime_square_sum(1) == 0 && prime_square_sum(2) == 0,
{
    assert(!is_prime(0) && !is_prime(1));
    assert(prime_sum(0) == 0);
    assert(prime_sum(1) == 0);
    assert(prime_sum(2) == 0);
    assert(prime_square_sum(0) == 0);
    assert(prime_square_sum(1) == 0);
    assert(prime_square_sum(2) == 0);
}

/// A Fibonacci number does not outgrow the power of two of its index.
proof fn lemma_fib_bound(n: nat)
    ensures
        fib(n) <= vstd::arithmetic::power2::pow2(n),
        n > 0 ==> fib((n - 1) as nat) <= vstd::arithmetic::power2::pow2((n - 1) as nat),
    decreases n,
{
    vstd::arithmetic::power2::lemma_pow2_pos(n);
    if n == 0 {
    } else if n == 1 {
        vstd::arithmetic::power2::lemma2_to64();
    } else {
        lemma_fib_bound((n - 1) as nat);
        lemma_fib_bound((n - 2) as nat);
        vstd::arithmetic::power2::lemma_pow2_unfold(n);
        vstd::arithmetic::power2::lemma_pow2_unfold((n - 1) as nat);
    }
}

/// An odd number has no even divisor.
proof fn lemma_odd_has_no_even_divisor(n: nat, d: nat)
    requires
        n % 2 == 1,
        d % 2 == 0,
        d > 0,
    ensures
        n % d != 0,
{
    if n % d == 0 {
        lemma_fundamental_div_mod(n as int, d as int);
        lemma_fundamental_div_mod(d as int, 2);
        let q = (n / d) as int;
        let h = (d / 2) as int;
        assert(n == 2 * (h * q)) by (nonlinear_arith)
            requires
                n == d * q,
                d == 2 * h,
        ;
        lemma_mod_multiples_basic(h * q, 2);
        assert((h * q) * 2 == 2 * (h * q));
    }
}

/// A number without a divisor from 2 up to its square root is prime.
proof fn lemma_no_small_divisor_is_prime(n: nat, bound: nat)
    requires
        n >= 2,
        bound >= 2,
        bound * bound > n,
        forall|d: nat| 2 <= d < bound ==> #[trigger] (n % d) != 0,
    ensures
        is_prime(n),
{
    assert forall|d: nat| 2 <= d < n implies #[trigger] (n % d) != 0 by {
        if d >= bound && n % d == 0 {
            lemma_fundamental_div_mod(n as int, d as int);
            let q = n / d;
            assert(n == d * q);
            assert(q >= 2 && q < bound) by (nonlinear_arith)
                requires
                    n == d * q,
                    2 <= bound <= d < n,
                    bound * bound > n,
            ;
            lemma_mod_multiples_basic(d as int, q as int);
            assert(n % q == 0);
        }
    }
}

/// Whether `n` is prime, by trial division with 2 and with the odd numbers
/// up to the square root of `n`.
pub fn is_prime_slow(n: u64) -> (r: bool)
    ensures
        r == is_prime(n as nat),
{
    if n < 2 {
        return false;
    }
    if n == 2 {
        return true;
    }
    if n % 2 == 0 {
        assert((n as nat) % 2nat == 0);
        return false;
    }
    let mut i: u64 = 3;
    while i <= n / i
        invariant
            3 <= i,
            i % 2 == 1,
            n >= 3,
            n % 2 == 1,
            forall|d: nat| 2 <= d < i ==> #[trigger] ((n as nat) % d) != 0,
        decreases n - i,
    {
        proof {
            lemma_fundamental_div_mod(n as int, i as int);
            assert(i * i <= n) by (nonlinear_arith)
                requires
                    3 <= i <= n / i,
                    n == i * (n / i) + n % i,
                    0 <= n % i,
            ;
            assert(i + 2 <= n) by (nonlinear_arith)
                requires
                    3 <= i,
                    i * i <= n,
            ;
        }
        if n % i == 0 {
            assert((n as nat) % (i as nat) == 0);
            return false;
        }
        proof {
            lemma_odd_has_no_even_divisor(n as nat, (i + 1) as nat);
        }
        i = i + 2;
    }
    proof {
        lemma_fundamental_div_mod(n as int, i as int);
        assert(i * i > n) by (nonlinear_arith)
            requires
                3 <= i,
                n / i < i,
                n == i * (n / i) + n % i,
                n % i < i,
        ;
        lemma_no_small_divisor_is_prime(n as nat, i as nat);
    }
    true
}

/// The `n`-th Fibonacci number as far as it fits a 64-bit word: its
/// remainder modulo `word()`.
pub fn fibonacci_iterative(n: u32) -> (r: u64)
    ensures
        r == fib(n as nat) % (word() as nat),
{
    proof {
        assert(fib(0) == 0 && fib(1) == 1);
        lemma_small_mod(0, word() as nat);
        lemma_small_mod(1, word() as nat);
    }
    if n == 0 {
        return 0;
    }
    if n == 1 {
        return 1;
    }
    let mut prev: u64 = 0;
    let mut curr: u64 = 1;
    let mut reached: u32 = 1;
    while reached < n
        invariant
            1 <= reached <= n,
            prev == fib((reached - 1) as nat) % (word() as nat),
            curr == fib(reached as nat) % (word() as nat),
        decreases n - reached,
    {
        let next = prev.wrapping_add(curr);
        proof {
            let a = fib((reached - 1) as nat) as int;
            let b = fib(reached as nat) as int;
            lemma_add_mod_noop(a, b, word());
            assert(next == (prev + curr) % word());
        }
        prev = curr;
        curr = next;
        reached = reached + 1;
    }
    curr
}

/// The sum of the diagonal of the product of two fixed matrices of side
/// `SIZE`, whose entries are `left_entry` and `right_entry`. The whole
/// product is worked out.
pub fn matrix_multiplication_result() -> (r: u64)
    ensures
        r == diagonal(SIZE as nat),
{
    let mut matrix_a: Vec<Vec<u32>> = Vec::new();
    let mut matrix_b: Vec<Vec<u32>> = Vec::new();
    let mut i: usize = 0;
    while i < SIZE
        invariant
            i <= SIZE,
            matrix_a@.len() == i,
            matrix_b@.len() == i,
            forall|r: int, c: int|
                0 <= r < i && 0 <= c < SIZE ==> (#[trigger] matrix_a@[r]@[c]) == left_entry(
                    r as nat,
                    c as nat,
                ),
            forall|r: int, c: int|
                0 <= r < i && 0 <= c < SIZE ==> (#[trigger] matrix_b@[r]@[c]) == right_entry(
                    r as nat,
                    c as nat,
                ),
            forall|r: int| 0 <= r < i ==> (#[trigger] matrix_a@[r])@.len() == SIZE,
            forall|r: int| 0 <= r < i ==> (#[trigger] matrix_b@[r])@.len() == SIZE,
        decreases SIZE - i,
    {
        let mut row_a: Vec<u32> = Vec::new();
        let mut row_b: Vec<u32> = Vec::new();
        let mut j: usize = 0;
        while j < SIZE
            invariant
                i < SIZE,
                j <= SIZE,
                row_a@.len() == j,
                row_b@.len() == j,
                forall|c: int|
                    0 <= c < j ==> (#[trigger] row_a@[c]) == left_entry(i as nat, c as nat),
                forall|c: int|
                    0 <= c < j ==> (#[trigger] row_b@[c]) == right_entry(i as nat, c as nat),
            decreases SIZE - j,
        {
            assert(i * j <= 10000) by (nonlinear_arith)
                requires
                    i < 100,
                    j < 100,
            ;
            row_a.push(((i + j) % 256) as u32);
            row_b.push(((i * j) % 256) as u32);
            j = j + 1;
        }
        matrix_a.push(row_a);
        matrix_b.push(row_b);
        i = i + 1;
    }
    let mut result: Vec<Vec<u64>> = Vec::new();
    let mut i: usize = 0;
    while i < SIZE
        invariant
            i <= SIZE,
            matrix_a@.len() == SIZE,
            matrix_b@.len() == SIZE,
            forall|r: int, c: int|
                0 <= r < SIZE && 0 <= c < SIZE ==> (#[trigger] matrix_a@[r]@[c]) == left_entry(
                    r as nat,
                    c as nat,
                ),
            forall|r: int, c: int|
                0 <= r < SIZE && 0 <= c < SIZE ==> (#[trigger] matrix_b@[r]@[c]) == right_entry(
                    r as nat,
                    c as nat,
                ),
            forall|r: int| 0 <= r < SIZE ==> (#[trigger] matrix_a@[r])@.len() == SIZE,
            forall|r: int| 0 <= r < SIZE ==> (#[trigger] matrix_b@[r])@.len() == SIZE,
            result@.len() == i,
            forall|r: int| 0 <= r < i ==> (#[trigger] result@[r])@.len() == SIZE,
            forall|r: int, c: int|
                0 <= r < i && 0 <= c < SIZE ==> (#[trigger] result@[r]@[c]) == dot(
                    r as nat,
                    c as nat,
                    SIZE as nat,
                ),
        decreases SIZE - i,
    {
        let mut row: Vec<u64> = Vec::new();
        let mut j: usize = 0;
        while j < SIZE
            invariant
                i < SIZE,
                j <= SIZE,
                matrix_a@.len() == SIZE,
                matrix_b@.len() == SIZE,
                forall|r: int, c: int|
                    0 <= r < SIZE && 0 <= c < SIZE ==> (#[trigger] matrix_a@[r]@[c])
                        == left_entry(r as nat, c as nat),
                forall|r: int, c: int|
                    0 <= r < SIZE && 0 <= c < SIZE ==> (#[trigger] matrix_b@[r]@[c])
                        == right_entry(r as nat, c as nat),
                forall|r: int| 0 <= r < SIZE ==> (#[trigger] matrix_a@[r])@.len() == SIZE,
                forall|r: int| 0 <= r < SIZE ==> (#[trigger] matrix_b@[r])@.len() == SIZE,
                row@.len() == j,
                forall|c: int|
                    0 <= c < j ==> (#[trigger] row@[c]) == dot(i as nat, c as nat, SIZE as nat),
            decreases SIZE - j,
        {
            let mut sum: u64 = 0;
            let mut k: usize = 0;
            while k < SIZE
                invariant
                    i < SIZE,
                    j < SIZE,
                    k <= SIZE,
                    matrix_a@.len() == SIZE,
                    matrix_b@.len() == SIZE,
                    forall|r: int, c: int|
                        0 <= r < SIZE && 0 <= c < SIZE ==> (#[trigger] matrix_a@[r]@[c])
                            == left_entry(r as nat, c as nat),
                    forall|r: int, c: int|
                        0 <= r < SIZE && 0 <= c < SIZE ==> (#[trigger] matrix_b@[r]@[c])
                            == right_entry(r as nat, c as nat),
                    forall|r: int| 0 <= r < SIZE ==> (#[trigger] matrix_a@[r])@.len() == SIZE,
                    forall|r: int| 0 <= r < SIZE ==> (#[trigger] matrix_b@[r])@.len() == SIZE,
                    sum == dot(i as nat, j as nat, k as nat),
                decreases SIZE - k,
            {
                let a = matrix_a[i][k];
                let b = matrix_b[k][j];
                proof {
                    lemma_dot_bound(i as nat, j as nat, k as nat);
                    assert(matrix_a@[i as int]@[k as int] == left_entry(i as nat, k as nat));
                    assert(matrix_b@[k as int]@[j as int] == right_entry(k as nat, j as nat));
                    assert((a as u64) * (b as u64) <= 65025) by (nonlinear_arith)
                        requires
                            a <= 255,
                            b <= 255,
                    ;
                }
                sum = sum.wrapping_add((a as u64) * (b as u64));
                k = k + 1;
            }
            row.push(sum);
            j = j + 1;
        }
        result.push(row);
        i = i + 1;
    }
    let mut diagonal_sum: u64 = 0;
    let mut i: usize = 0;
    while i < SIZE
        invariant
            i <= SIZE,
            result@.len() == SIZE,
            forall|r: int| 0 <= r < SIZE ==> (#[trigger] result@[r])@.len() == SIZE,
            forall|r: int, c: int|
                0 <= r < SIZE && 0 <= c < SIZE ==> (#[trigger] result@[r]@[c]) == dot(
                    r as nat,
                    c as nat,
                    SIZE as nat,
                ),
            diagonal_sum == diagonal(i as nat),
        decreases SIZE - i,
    {
        proof {
            lemma_diagonal_bound(i as nat);
            lemma_dot_bound(i as nat, i as nat, SIZE as nat);
            assert(result@[i as int]@[i as int] == dot(i as nat, i as nat, SIZE as nat));
        }
        diagonal_sum = diagonal_sum.wrapping_add(result[i][i]);
        i = i + 1;
    }
    diagonal_sum
}

/// Adds up the primes below `iterations` and their squares, by trial
/// division, and throws in the thirtieth Fibonacci number and the matrix
/// diagonal. The sums wrap at the width of a 64-bit word.
pub fn heavy_cpu_computation(iterations: u64) -> (r: u64)
    ensures
        r == (fib(30) + diagonal(SIZE as nat) + prime_square_sum(iterations as nat) + prime_sum(
            iterations as nat,
        )) % (word() as nat),
{
    let mut result: u64 = 0;
    let mut temp_sum: u64 = 0;
    let mut i: u64 = 2;
    proof {
        lemma_no_prime_below_two();
        lemma_small_mod(0, word() as nat);
    }
    while i < iterations
        invariant
            2 <= i,
            iterations >= 2 ==> i <= iterations,
            iterations < 2 ==> i == 2,
            result == prime_sum(i as nat) % (word() as nat),
            temp_sum == prime_square_sum(i as nat) % (word() as nat),
        decreases iterations - i,
    {
        if is_prime_slow(i) {
            let square = i.wrapping_mul(i);
            proof {
                lemma_small_mod(i as nat, word() as nat);
                lemma_add_mod_noop(prime_sum(i as nat) as int, i as int, word());
                lemma_add_mod_noop(prime_square_sum(i as nat) as int, i * i, word());
                assert(square == (i * i) % word());
            }
            result = result.wrapping_add(i);
            temp_sum = temp_sum.wrapping_add(square);
        }
        i = i + 1;
    }
    let fibonacci = fibonacci_iterative(30);
    let matrix = matrix_multiplication_result();
    let partial = fibonacci.wrapping_add(matrix).wrapping_add(temp_sum);
    proof {
        let n = iterations as nat;
        lemma_no_prime_below_two();
        lemma_fib_bound(30);
        vstd::arithmetic::power2::lemma2_to64();
        lemma_small_mod(fib(30), word() as nat);
        lemma_diagonal_bound(SIZE as nat);
        let base = fib(30) + diagonal(SIZE as nat);
        assert(fibonacci.wrapping_add(matrix) == base);
        lemma_add_mod_noop_right(base as int, prime_square_sum(n) as int, word());
        assert(partial == (base + prime_square_sum(n)) % (word() as nat));
        lemma_add_mod_noop((base + prime_square_sum(n)) as int, prime_sum(n) as int, word());
    }
    partial.wrapping_add(result)
}

/// The number of iterations that the diagnostic endpoint asks for.
pub const SLOW_ITERATIONS: u64 = 5000;

/// The Fibonacci number that the diagnostic endpoint asks for.
pub const SLOW_FIBONACCI: u32 = 35;

/// The work of the diagnostic endpoint: the heavy computation, the matrix
/// diagonal once more, and a Fibonacci number, added up in a 64-bit word.
pub fn slow_endpoint() -> (r: u64)
    ensures
        r == (fib(30) + 2 * diagonal(SIZE as nat) + prime_square_sum(SLOW_ITERATIONS as nat)
            + prime_sum(SLOW_ITERATIONS as nat) + fib(SLOW_FIBONACCI as nat)) % (word() as nat),
{
    let prime_result = heavy_cpu_computation(SLOW_ITERATIONS);
    let matrix_result = matrix_multiplication_result();
    let fib_result = fibonacci_iterative(SLOW_FIBONACCI);
    proof {
        let heavy = (fib(30) + diagonal(SIZE as nat) + prime_square_sum(SLOW_ITERATIONS as nat)
            + prime_sum(SLOW_ITERATIONS as nat)) as int;
        let d = diagonal(SIZE as nat) as int;
        let f = fib(SLOW_FIBONACCI as nat) as int;
        lemma_diagonal_bound(SIZE as nat);
        lemma_small_mod(d as nat, word() as nat);
        lemma_add_mod_noop(heavy, d, word());
        lemma_add_mod_noop(heavy + d, f, word());
    }
    prime_result.wrapping_add(matrix_result).wrapping_add(fib_result)
}

} // verus!
