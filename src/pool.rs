use vstd::prelude::*;
use vstd::arithmetic::div_mod::lemma_fundamental_div_mod;

verus! {

/// Integer division rounded toward zero, as Rust's `/` on signed integers.
pub open spec fn trunc_div(a: int, b: int) -> int {
    if b > 0 {
        if a >= 0 {
            a / b
        } else {
            -((-a) / b)
        }
    } else {
        if a <= 0 {
            (-a) / (-b)
        } else {
            -(a / (-b))
        }
    }
}

/// Tokens paid out for `x` units of the reference asset by a pool holding
/// `t` tokens and `r` units of the reference asset: `x * t / (r + x)`,
/// rounded toward zero (down, for a non-negative input).
pub open spec fn swap_out(t: int, r: int, x: int) -> int {
    trunc_div(x * t, r + x)
}

/// The constant-product output for reserves `(token_reserve, reference_reserve)`
/// and input `amount_in`, rounded toward zero.
pub fn swap_amount(token_reserve: i128, reference_reserve: i128, amount_in: i128) -> (out: i128)
    requires
        token_reserve >= 0,
        reference_reserve >= 0,
        reference_reserve + amount_in != 0,
        i128::MIN <= amount_in * token_reserve <= i128::MAX,
        reference_reserve + amount_in <= i128::MAX,
        !(amount_in * token_reserve == i128::MIN && reference_reserve + amount_in == -1),
    ensures
        out == swap_out(token_reserve as int, reference_reserve as int, amount_in as int),
        amount_in >= 0 ==> 0 <= out <= token_reserve,
{
    if amount_in > 0 {
        proof {
            lemma_swap_out_bounds(token_reserve as int, reference_reserve as int, amount_in as int);
        }
    }
    let num: i128 = amount_in * token_reserve;
    let den: i128 = reference_reserve + amount_in;
    if den > 0 {
        num / den
    } else {
        // A negative divisor comes only from a negative input, so `num <= 0`:
        // divide the magnitudes, which need not fit in `i128`.
        assert(num <= 0) by (nonlinear_arith)
            requires
                num == amount_in * token_reserve,
                amount_in < 0,
                token_reserve >= 0,
        ;
        if num == 0 {
            return 0;
        }
        let num_mag: u128 = (-(num + 1)) as u128 + 1;
        let den_mag: u128 = (-(den + 1)) as u128 + 1;
        let q: u128 = num_mag / den_mag;
        assert(q <= num_mag) by (nonlinear_arith)
            requires
                q == num_mag / den_mag,
                den_mag >= 1,
        ;
        assert(q <= i128::MAX) by (nonlinear_arith)
            requires
                q == num_mag / den_mag,
                den_mag >= 1,
                num_mag <= 0x8000_0000_0000_0000_0000_0000_0000_0000,
                num_mag == 0x8000_0000_0000_0000_0000_0000_0000_0000 ==> den_mag >= 2,
        ;
        q as i128
    }
}

/// For a positive input, the output of a swap is never negative and never
/// exceeds the token reserve.
pub proof fn lemma_swap_out_bounds(t: int, r: int, x: int)
    requires
        t >= 0,
        r >= 0,
        x > 0,
    ensures
        0 <= swap_out(t, r, x) <= t,
{
    assert(x * t >= 0) by (nonlinear_arith)
        requires
            x > 0,
            t >= 0,
    ;
    assert(x * t <= (r + x) * t) by (nonlinear_arith)
        requires
            x > 0,
            t >= 0,
            r >= 0,
    ;
    assert((x * t) / (r + x) <= ((r + x) * t) / (r + x)) by (nonlinear_arith)
        requires
            x * t <= (r + x) * t,
            r + x > 0,
    ;
    assert(((r + x) * t) / (r + x) == t) by (nonlinear_arith)
        requires
            r + x > 0,
    ;
}

/// The output of a swap grows with its input.
pub proof fn lemma_swap_out_monotone(t: int, r: int, x1: int, x2: int)
    requires
        t >= 0,
        r >= 0,
        0 < x1 <= x2,
    ensures
        swap_out(t, r, x1) <= swap_out(t, r, x2),
{
    let d1 = r + x1;
    let d2 = r + x2;
    let q1 = (x1 * t) / d1;
    let q2 = (x2 * t) / d2;
    assert(x1 * t >= 0 && x2 * t >= 0) by (nonlinear_arith)
        requires
            x1 > 0,
            x2 > 0,
            t >= 0,
    ;
    lemma_fundamental_div_mod(x1 * t, d1);
    lemma_fundamental_div_mod(x2 * t, d2);
    assert(x1 * t * d2 <= x2 * t * d1) by (nonlinear_arith)
        requires
            d1 == r + x1,
            d2 == r + x2,
            0 < x1 <= x2,
            r >= 0,
            t >= 0,
    ;
    assert(q1 * d2 <= x2 * t) by (nonlinear_arith)
        requires
            x1 * t == d1 * q1 + (x1 * t) % d1,
            (x1 * t) % d1 >= 0,
            x1 * t * d2 <= x2 * t * d1,
            d1 > 0,
            d2 > 0,
    ;
    assert(q1 <= q2) by (nonlinear_arith)
        requires
            q1 * d2 <= x2 * t,
            x2 * t == d2 * q2 + (x2 * t) % d2,
            (x2 * t) % d2 < d2,
            d2 > 0,
    ;
}

/// A swap never lowers the product of the reserves, and raises it by less
/// than the new reference reserve: the rounding keeps under one token
/// unit for the pool.
pub proof fn lemma_swap_product(t: int, r: int, x: int)
    requires
        t >= 0,
        r >= 0,
        x >= 0,
        r + x > 0,
    ensures
        t * r <= (t - swap_out(t, r, x)) * (r + x),
        (t - swap_out(t, r, x)) * (r + x) < t * r + (r + x),
{
    let q = swap_out(t, r, x);
    let d = r + x;
    let m = (x * t) % d;
    assert(x * t >= 0) by (nonlinear_arith)
        requires
            x >= 0,
            t >= 0,
    ;
    lemma_fundamental_div_mod(x * t, d);
    assert(0 <= m < d);
    assert((t - q) * d == t * r + m) by (nonlinear_arith)
        requires
            x * t == d * q + m,
            d == r + x,
    ;
}

/// The reserves after the inputs `xs` are swapped into a pool holding
/// `(t, r)`, one after another, each as `swap` updates a pool.
pub open spec fn after_swaps(t: int, r: int, xs: Seq<int>) -> (int, int)
    decreases xs.len(),
{
    if xs.len() == 0 {
        (t, r)
    } else {
        let (a, b) = after_swaps(t, r, xs.drop_last());
        (a - swap_out(a, b, xs.last()), b + xs.last())
    }
}

/// The sum of `xs`.
pub open spec fn total(xs: Seq<int>) -> int
    decreases xs.len(),
{
    if xs.len() == 0 {
        0
    } else {
        total(xs.drop_last()) + xs.last()
    }
}

/// Over any run of swaps with positive inputs, the reference reserve grows by
/// the sum of the inputs, the token reserve stays between zero and where it
/// started, and the product of the reserves never falls.
pub proof fn lemma_swap_run(t: int, r: int, xs: Seq<int>)
    requires
        t >= 0,
        r >= 0,
        forall|i: int| 0 <= i < xs.len() ==> xs[i] > 0,
    ensures
        after_swaps(t, r, xs).1 == r + total(xs),
        after_swaps(t, r, xs).1 >= r,
        0 <= after_swaps(t, r, xs).0 <= t,
        t * r <= after_swaps(t, r, xs).0 * after_swaps(t, r, xs).1,
    decreases xs.len(),
{
    if xs.len() > 0 {
        let init = xs.drop_last();
        assert forall|i: int| 0 <= i < init.len() implies init[i] > 0 by {
            assert(init[i] == xs[i]);
        }
        lemma_swap_run(t, r, init);
        let (a, b) = after_swaps(t, r, init);
        let x = xs.last();
        assert(x == xs[xs.len() - 1]);
        lemma_swap_out_bounds(a, b, x);
        lemma_swap_product(a, b, x);
    }
}

/// Identifies a liquidity pool.
pub type PoolKey = u64;

/// The reserves recorded for `key`, `(0, 0)` where no pool exists yet.
pub open spec fn reserves_of(pools: Map<PoolKey, (i128, i128)>, key: PoolKey) -> (int, int) {
    if pools.contains_key(key) {
        (pools[key].0 as int, pools[key].1 as int)
    } else {
        (0, 0)
    }
}

/// The pools after `a` tokens and `b` units of the reference asset are added
/// to the pool under `key`.
pub open spec fn with_liquidity(
    pools: Map<PoolKey, (i128, i128)>,
    key: PoolKey,
    a: int,
    b: int,
) -> Map<PoolKey, (i128, i128)> {
    pools.insert(key, ((reserves_of(pools, key).0 + a) as i128, (reserves_of(pools, key).1 + b) as i128))
}

/// Adding liquidity twice gives the same reserves as adding the sums once,
/// in either order.
pub proof fn lemma_liquidity_additive(
    pools: Map<PoolKey, (i128, i128)>,
    key: PoolKey,
    a1: int,
    b1: int,
    a2: int,
    b2: int,
)
    requires
        reserves_of(pools, key).0 >= 0,
        reserves_of(pools, key).1 >= 0,
        a1 > 0,
        b1 > 0,
        a2 > 0,
        b2 > 0,
        reserves_of(pools, key).0 + a1 + a2 <= i128::MAX,
        reserves_of(pools, key).1 + b1 + b2 <= i128::MAX,
    ensures
        with_liquidity(with_liquidity(pools, key, a1, b1), key, a2, b2) == with_liquidity(
            pools,
            key,
            a1 + a2,
            b1 + b2,
        ),
        with_liquidity(with_liquidity(pools, key, a1, b1), key, a2, b2) == with_liquidity(
            with_liquidity(pools, key, a2, b2),
            key,
            a1,
            b1,
        ),
{
    assert(with_liquidity(with_liquidity(pools, key, a1, b1), key, a2, b2) =~= with_liquidity(
        pools,
        key,
        a1 + a2,
        b1 + b2,
    ));
    assert(with_liquidity(with_liquidity(pools, key, a2, b2), key, a1, b1) =~= with_liquidity(
        pools,
        key,
        a1 + a2,
        b1 + b2,
    ));
}

} // verus!
