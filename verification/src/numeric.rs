//! Small numeric routines offered to scripting hosts.

use vstd::arithmetic::div_mod::{lemma_fundamental_div_mod, lemma_mod_multiples_basic};
use vstd::prelude::*;

verus! {

/// The Fibonacci sequence: 0, 1, 1, 2, 3, 5, 8, ...
pub open spec fn fib(n: nat) -> nat
    decreases n,
{
    if n == 0 {
        0
    } else if n == 1 {
        1
    } else {
        fib((n - 1) as nat) + fib((n - 2) as nat)
    }
}

/// The largest index whose Fibonacci number fits in 32 bits.
pub const MAX_FIBONACCI_INDEX: u32 = 47;

/// The Fibonacci sequence never decreases.
pub proof fn lemma_fib_monotonic(i: nat, j: nat)
    requires
        i <= j,
    ensures
        fib(i) <= fib(j),
    decreases j,
{
    if i < j {
        lemma_fib_monotonic(i, (j - 1) as nat);
    }
}

/// The value at the largest supported index.
pub proof fn lemma_fib_at_max_index()
    ensures
        fib(MAX_FIBONACCI_INDEX as nat) == 2971215073,
{
    assert(fib(0) == 0);
    assert(fib(1) == 1);
    assert(fib(2) == 1);
    assert(fib(3) == 2);
    assert(fib(4) == 3);
    assert(fib(5) == 5);
    assert(fib(6) == 8);
    assert(fib(7) == 13);
    assert(fib(8) == 21);
    assert(fib(9) == 34);
    assert(fib(10) == 55);
    assert(fib(11) == 89);
    assert(fib(12) == 144);
    assert(fib(13) == 233);
    assert(fib(14) == 377);
    assert(fib(15) == 610);
    assert(fib(16) == 987);
    assert(fib(17) == 1597);
    assert(fib(18) == 2584);
    assert(fib(19) == 4181);
    assert(fib(20) == 6765);
    assert(fib(21) == 10946);
    assert(fib(22) == 17711);
    assert(fib(23) == 28657);
    assert(fib(24) == 46368);
    assert(fib(25) == 75025);
    assert(fib(26) == 121393);
    assert(fib(27) == 196418);
    assert(fib(28) == 317811);
    assert(fib(29) == 514229);
    assert(fib(30) == 832040);
    assert(fib(31) == 1346269);
    assert(fib(32) == 2178309);
    assert(fib(33) == 3524578);
    assert(fib(34) == 5702887);
    assert(fib(35) == 9227465);
    assert(fib(36) == 14930352);
    assert(fib(37) == 24157817);
    assert(fib(38) == 39088169);
    assert(fib(39) == 63245986);
    assert(fib(40) == 102334155);
    assert(fib(41) == 165580141);
    assert(fib(42) == 267914296);
    assert(fib(43) == 433494437);
    assert(fib(44) == 701408733);
    assert(fib(45) == 1134903170);
    assert(fib(46) == 1836311903);
    assert(fib(47) == 2971215073);
}

/// Computes the `n`-th Fibonacci number.
///
/// The index is limited to [`MAX_FIBONACCI_INDEX`]: the next number of the
/// sequence no longer fits in a `u32`.
pub fn fibonacci(n: u32) -> (r: u32)
    requires
        n <= MAX_FIBONACCI_INDEX,
    ensures
        r == fib(n as nat),
{
    if n == 0 {
        return 0;
    }
    let mut prev: u32 = 0;
    let mut cur: u32 = 1;
    let mut i: u32 = 1;
    while i < n
        invariant
            1 <= i <= n <= MAX_FIBONACCI_INDEX,
            prev == fib((i - 1) as nat),
            cur == fib(i as nat),
        decreases n - i,
    {
        proof {
            lemma_fib_monotonic((i + 1) as nat, MAX_FIBONACCI_INDEX as nat);
            lemma_fib_at_max_index();
        }
        let next: u32 = prev + cur;
        prev = cur;
        cur = next;
        i = i + 1;
    }
    cur
}

/// A prime is a number from 2 on that no smaller number from 2 on divides.
pub open spec fn is_prime_number(n: nat) -> bool {
    n >= 2 && forall|d: nat| 2 <= d < n ==> #[trigger] (n % d) != 0
}

/// Whoever divides a divisor of `n` divides `n`.
proof fn lemma_divides_transitive(a: nat, d: nat, n: nat)
    requires
        a > 0,
        d > 0,
        d % a == 0,
        n % d == 0,
    ensures
        n % a == 0,
{
    lemma_fundamental_div_mod(d as int, a as int);
    lemma_fundamental_div_mod(n as int, d as int);
    let k = (d / a) as int;
    let m = (n / d) as int;
    assert(n == a * (k * m)) by (nonlinear_arith)
        requires
            d == a * k,
            n == d * m,
    ;
    lemma_mod_multiples_basic(k * m, a as int);
    assert(n == (k * m) * a) by (nonlinear_arith)
        requires
            n == a * (k * m),
    ;
}

/// A proper divisor of `n` has a cofactor that is a proper divisor too, and
/// one of the two is no larger than the square root of `n`.
proof fn lemma_small_cofactor(n: nat, d: nat, bound: nat)
    requires
        2 <= d < n,
        n % d == 0,
        bound <= d,
        bound * bound > n,
    ensures
        2 <= n / d < bound,
        n % (n / d) == 0,
{
    lemma_fundamental_div_mod(n as int, d as int);
    let q = (n / d) as int;
    assert(n == d * q);
    assert(q >= 2) by (nonlinear_arith)
        requires
            n == d * q,
            2 <= d < n,
    ;
    assert(q < bound) by (nonlinear_arith)
        requires
            n == d * q,
            bound <= d,
            bound * bound > n,
            q >= 0,
    ;
    lemma_mod_multiples_basic(d as int, q);
}

/// Decides whether `n` is prime, by trial division with the candidates
/// 2, 3 and the numbers next to the multiples of 6.
pub fn is_prime(n: u32) -> (r: bool)
    ensures
        r == is_prime_number(n as nat),
{
    if n <= 1 {
        return false;
    }
    if n <= 3 {
        assert(is_prime_number(n as nat)) by {
            assert(3nat % 2 != 0);
        }
        return true;
    }
    if n % 2 == 0 {
        assert((n as nat) % 2nat == 0);
        return false;
    }
    if n % 3 == 0 {
        assert((n as nat) % 3nat == 0);
        return false;
    }
    proof {
        let ni = n as nat;
        assert forall|d: nat| 2 <= d < 5 implies #[trigger] (ni % d) != 0 by {
            if d == 4 && ni % d == 0 {
                lemma_divides_transitive(2, d, ni);
            }
        }
    }
    let mut i: u32 = 5;
    while i <= n / i
        invariant
            n >= 5,
            5 <= i <= 65541,
            i % 6 == 5,
            n % 2 != 0,
            n % 3 != 0,
            forall|d: nat| 2 <= d < i ==> #[trigger] ((n as nat) % d) != 0,
        decreases 65541 - i,
    {
        proof {
            lemma_fundamental_div_mod(n as int, i as int);
            assert(i * i <= n) by (nonlinear_arith)
                requires
                    i <= n / i,
                    n == i * (n / i) + n % i,
                    0 <= n % i,
                    i > 0,
            ;
            assert(i < 65536) by (nonlinear_arith)
                requires
                    i * i <= n,
                    n < 0x1_0000_0000,
                    i >= 0,
            ;
            assert(i + 2 < n) by (nonlinear_arith)
                requires
                    i * i <= n,
                    i >= 5,
            ;
        }
        if n % i == 0 {
            assert((n as nat) % (i as nat) == 0);
            return false;
        }
        if n % (i + 2) == 0 {
            assert((n as nat) % ((i + 2) as nat) == 0);
            return false;
        }
        proof {
            let ni = n as nat;
            assert forall|d: nat| 2 <= d < i + 6 implies #[trigger] (ni % d) != 0 by {
                if d >= i && ni % d == 0 {
                    if d % 2 == 0 {
                        lemma_divides_transitive(2, d, ni);
                    } else if d % 3 == 0 {
                        lemma_divides_transitive(3, d, ni);
                    }
                }
            }
        }
        i = i + 6;
    }
    proof {
        let ni = n as nat;
        let b = i as nat;
        lemma_fundamental_div_mod(n as int, i as int);
        assert(b * b > ni) by (nonlinear_arith)
            requires
                i > n / i,
                n == i * (n / i) + n % i,
                n % i < i,
                i > 0,
                b == i,
                ni == n,
        ;
        assert forall|d: nat| 2 <= d < ni implies #[trigger] (ni % d) != 0 by {
            if d >= b && ni % d == 0 {
                lemma_small_cofactor(ni, d, b);
            }
        }
    }
    true
}

/// Doubles every element of `data`.
///
/// Every doubled value must fit in a `u32`.
pub fn process_array(data: &[u32]) -> (out: Vec<u32>)
    requires
        forall|i: int| 0 <= i < data.len() ==> 2 * #[trigger] data[i] <= u32::MAX,
    ensures
        out.len() == data.len(),
        forall|i: int| 0 <= i < data.len() ==> #[trigger] out[i] == 2 * data[i],
{
    let mut out: Vec<u32> = Vec::with_capacity(data.len());
    let mut i: usize = 0;
    while i < data.len()
        invariant
            i <= data.len(),
            out.len() == i,
            forall|j: int| 0 <= j < data.len() ==> 2 * #[trigger] data[j] <= u32::MAX,
            forall|j: int| 0 <= j < i ==> #[trigger] out[j] == 2 * data[j],
        decreases data.len() - i,
    {
        out.push(data[i] * 2);
        i = i + 1;
    }
    out
}

} // verus!
