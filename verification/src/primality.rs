//! Primality testing by trial division, as the prime-checking line service
//! needs it.

use vstd::prelude::*;
use vstd::arithmetic::div_mod::{
    lemma_div_is_ordered_by_denominator, lemma_fundamental_div_mod, lemma_mod_multiples_basic,
};

verus! {

/// A prime: at least two, and divisible by nothing strictly between one and
/// itself.
pub open spec fn spec_is_prime(n: int) -> bool {
    n >= 2 && forall|d: int| 2 <= d < n ==> #[trigger] (n % d) != 0
}

/// Whether `num` is prime, by trial division up to its square root: a
/// composite number always has a divisor no larger than that. The square
/// root itself stays implicit: candidate `i` is still worth trying exactly
/// while `i <= num / i`.
pub fn is_prime(num: u64) -> (r: bool)
    ensures
        r == spec_is_prime(num as int),
{
    if num <= 1 {
        return false;
    }
    let mut i: u64 = 2;
    while i <= num / i
        invariant
            2 <= i,
            i <= num + 1,
            2 <= num,
            forall|d: int| 2 <= d < i ==> #[trigger] ((num as int) % d) != 0,
        decreases num - i,
    {
        let n = num;
        proof {
            lemma_fundamental_div_mod(n as int, i as int);
            assert((i as int) * (i as int) <= n as int) by (nonlinear_arith)
                requires
                    i as int <= (n as int) / (i as int),
                    (n as int) == ((n as int) / (i as int)) * (i as int) + (n as int) % (i as int),
                    (n as int) % (i as int) >= 0,
                    i >= 2,
            ;
            lemma_div_is_ordered_by_denominator(n as int, 2, i as int);
            assert(i <= n / 2);
        }
        if num % i == 0 {
            proof {
                assert(i < num) by {
                    if i == num {
                        assert((num as int) * (num as int) <= num as int);
                        assert((num as int) * (num as int) > num as int) by (nonlinear_arith)
                            requires
                                num >= 2,
                        ;
                    }
                }
                assert((num as int) % (i as int) == 0);
            }
            return false;
        }
        i = i + 1;
    }
    proof {
        let n = num as int;
        let bound = i as int;
        assert(n < bound * bound) by (nonlinear_arith)
            requires
                bound > n / bound,
                n == (n / bound) * bound + n % bound,
                0 <= n % bound < bound,
                bound >= 2,
        {
            lemma_fundamental_div_mod(n, bound);
        }
        assert forall|d: int| 2 <= d < n implies #[trigger] (n % d) != 0 by {
            if n % d == 0 {
                lemma_fundamental_div_mod(n, d);
                let e = n / d;
                assert(n == d * e);
                assert(e >= 2) by {
                    if e <= 0 {
                        assert(d * e <= 0) by (nonlinear_arith)
                            requires
                                d >= 2,
                                e <= 0,
                        ;
                    } else if e == 1 {
                        assert(d * e == d) by (nonlinear_arith)
                            requires
                                e == 1,
                        ;
                    }
                }
                if d < bound {
                    assert(n % d != 0);
                } else {
                    assert(e < bound) by {
                        if e >= bound {
                            assert(d * e >= bound * bound) by (nonlinear_arith)
                                requires
                                    d >= bound,
                                    e >= bound,
                                    bound >= 2,
                            ;
                        }
                    }
                    assert(n % e == 0) by {
                        lemma_mod_multiples_basic(d, e);
                        assert((d * e) % e == 0);
                    }
                    assert(n % e != 0);
                }
            }
        }
    }
    true
}

} // verus!
