use vstd::prelude::*;
use vstd::arithmetic::div_mod::lemma_fundamental_div_mod_converse;

verus! {

/// Division rounded towards negative infinity. In specifications `/` with a
/// positive divisor already rounds that way.
pub fn floor_div(n: i128, d: i128) -> (q: i128)
    requires
        d > 0,
    ensures
        q == n / d,
{
    if n >= 0 {
        ((n as u128) / (d as u128)) as i128
    } else {
        let m: u128 = (-(n + 1)) as u128;
        let k: u128 = m / (d as u128);
        proof {
            let mi = m as int;
            let ki = k as int;
            let r = mi % (d as int);
            assert(mi == ki * d + r) by {
                vstd::arithmetic::div_mod::lemma_fundamental_div_mod(mi, d as int);
                assert(mi / (d as int) == ki);
            };
            assert(0 <= r < d) by {
                vstd::arithmetic::div_mod::lemma_mod_pos_bound(mi, d as int);
            };
            assert(n == (-ki - 1) * d + (d - r - 1)) by (nonlinear_arith)
                requires
                    mi == ki * d + r,
                    mi == -(n + 1),
            ;
            lemma_fundamental_div_mod_converse(n as int, d as int, -ki - 1, d - r - 1);
            assert(k <= m);
        }
        -(k as i128) - 1
    }
}

} // verus!
