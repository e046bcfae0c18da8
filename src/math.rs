use vstd::prelude::*;

verus! {

/// `r` is the integer square root of `n`: the largest value whose square does not exceed `n`.
pub open spec fn is_isqrt(n: int, r: int) -> bool {
    0 <= r && r * r <= n && n < (r + 1) * (r + 1)
}

pub open spec fn square(s: int) -> int {
    s * s
}

/// One Newton step never drops below any `s` whose square fits under `n`.
proof fn lemma_newton_step_bound(n: int, x: int, s: int)
    requires
        x > 0,
        0 <= s,
        s * s <= n,
    ensures
        (x + n / x) / 2 >= s,
{
    let q = n / x;
    assert(n < (q + 1) * x) by (nonlinear_arith)
        requires
            q == n / x,
            x > 0,
    ;
    if x + q < 2 * s {
        assert((2 * s - x) * x <= s * s) by (nonlinear_arith);
        assert((q + 1) * x <= (2 * s - x) * x) by (nonlinear_arith)
            requires
                q + 1 <= 2 * s - x,
                x > 0,
        ;
    }
}

/// When the Newton step does not shrink the guess, the guess squared fits under `n`.
proof fn lemma_newton_fixpoint(n: int, x: int)
    requires
        x > 0,
        n >= 0,
        (x + n / x) / 2 >= x,
    ensures
        x * x <= n,
{
    let q = n / x;
    assert(q * x <= n) by (nonlinear_arith)
        requires
            q == n / x,
            x > 0,
            n >= 0,
    ;
    assert(q >= x);
    assert(x * x <= q * x) by (nonlinear_arith)
        requires
            q >= x,
            x > 0,
    ;
}

/// The product of two 64-bit values fits in 128 bits.
pub proof fn lemma_u64_product_fits(a: u64, b: u64)
    ensures
        0 <= a as int * b as int <= u128::MAX,
{
    assert(a as int * b as int <= 0xffff_ffff_ffff_ffff * 0xffff_ffff_ffff_ffff) by (nonlinear_arith)
        requires
            a <= 0xffff_ffff_ffff_ffff,
            b <= 0xffff_ffff_ffff_ffff,
    ;
    assert(0 <= a as int * b as int) by (nonlinear_arith);
}

/// Integer square root by Newton's (Babylonian) iteration.
pub fn integer_sqrt(n: u128) -> (r: u64)
    ensures
        is_isqrt(n as int, r as int),
{
    if n == 0 {
        return 0;
    }
    let mut x: u128 = n;
    let mut y: u128 = x / 2 + x % 2;
    assert forall|s: int| 0 <= s && #[trigger] square(s) <= n implies s <= x by {
        if s >= 1 {
            assert(s <= s * s) by (nonlinear_arith)
                requires
                    s >= 1,
            ;
        }
    }
    while y < x
        invariant
            0 < n,
            forall|s: int| 0 <= s && #[trigger] square(s) <= n ==> s <= x,
            y as int == (x as int + n as int / x as int) / 2,
        decreases x,
    {
        assert(x >= 1);
        let ghost old_x = x as int;
        x = y;
        assert forall|s: int| 0 <= s && #[trigger] square(s) <= n implies s <= x by {
            lemma_newton_step_bound(n as int, old_x, s);
        }
        assert(square(1) <= n);
        assert(x >= 1);
        let q: u128 = n / x;
        y = x / 2 + q / 2 + (x % 2 + q % 2) / 2;
    }
    proof {
        assert(square(1) <= n);
        assert(x >= 1);
        lemma_newton_fixpoint(n as int, x as int);
        if square(x as int + 1) <= n as int {
            assert(x + 1 <= x);
        }
    }
    assert(x < 0x1_0000_0000_0000_0000) by {
        if x >= 0x1_0000_0000_0000_0000 {
            assert(x as int * x as int >= 0x1_0000_0000_0000_0000 * 0x1_0000_0000_0000_0000)
                by (nonlinear_arith)
                requires
                    x >= 0x1_0000_0000_0000_0000,
            ;
        }
    }
    x as u64
}

} // verus!
