//! Address alignment arithmetic shared by the heap allocators.

use vstd::prelude::*;

verus! {

/// The smallest multiple of `align` that is at least `addr`.
pub open spec fn spec_align_up(addr: int, align: int) -> int
    recommends
        align > 0,
{
    if addr % align == 0 {
        addr
    } else {
        addr + align - addr % align
    }
}

/// A power of two: 1, 2, 4, 8, ...
pub open spec fn is_pow2(n: int) -> bool
    decreases n,
{
    if n <= 0 {
        false
    } else if n == 1 {
        true
    } else {
        n % 2 == 0 && is_pow2(n / 2)
    }
}

pub proof fn lemma_align_up_bounds(addr: int, align: int)
    requires
        addr >= 0,
        align > 0,
    ensures
        spec_align_up(addr, align) >= addr,
        spec_align_up(addr, align) < addr + align,
        spec_align_up(addr, align) % align == 0,
{
    let r = addr % align;
    if r == 0 {
    } else {
        assert((addr + align - r) % align == 0) by {
            vstd::arithmetic::div_mod::lemma_sub_mod_noop_right(addr + align, addr, align);
            vstd::arithmetic::div_mod::lemma_mod_self_0(align);
        }
    }
}

/// Multiples of `align` are also multiples of every divisor of `align`.
pub proof fn lemma_aligned_to_divisor(x: int, align: int, d: int)
    requires
        x >= 0,
        align > 0,
        d > 0,
        x % align == 0,
        align % d == 0,
    ensures
        x % d == 0,
{
    let k = x / align;
    let m = align / d;
    vstd::arithmetic::div_mod::lemma_fundamental_div_mod(x, align);
    vstd::arithmetic::div_mod::lemma_fundamental_div_mod(align, d);
    assert(x == k * (m * d)) by {
        assert(align == m * d);
    }
    assert(x == (k * m) * d) by (nonlinear_arith)
        requires
            x == k * (m * d),
    {}
    vstd::arithmetic::div_mod::lemma_mod_multiples_basic(k * m, d);
}

/// A smaller power of two divides a larger one.
pub proof fn lemma_pow2_divides(a: int, b: int)
    requires
        is_pow2(a),
        is_pow2(b),
        a <= b,
    ensures
        b % a == 0,
    decreases b,
{
    if a == b {
        vstd::arithmetic::div_mod::lemma_mod_self_0(a);
    } else {
        lemma_pow2_lt_half(a, b);
        vstd::arithmetic::div_mod::lemma_fundamental_div_mod(b, 2);
        lemma_pow2_divides(a, b / 2);
        lemma_double_multiple(b / 2, a);
    }
}

/// Between two distinct powers of two there is at least a factor of two.
proof fn lemma_pow2_lt_half(a: int, b: int)
    requires
        is_pow2(a),
        is_pow2(b),
        a < b,
    ensures
        2 * a <= b,
    decreases a + b,
{
    vstd::arithmetic::div_mod::lemma_fundamental_div_mod(b, 2);
    if a == b / 2 {
    } else if a < b / 2 {
        lemma_pow2_lt_half(a, b / 2);
    } else {
        lemma_pow2_lt_half(b / 2, a);
        assert(false);
    }
}

/// Doubling a multiple of `a` keeps it a multiple of `a`.
proof fn lemma_double_multiple(x: int, a: int)
    requires
        x >= 0,
        a > 0,
        x % a == 0,
    ensures
        (2 * x) % a == 0,
{
    let k = x / a;
    vstd::arithmetic::div_mod::lemma_fundamental_div_mod(x, a);
    assert(2 * x == (2 * k) * a) by (nonlinear_arith)
        requires
            x == k * a,
    {}
    vstd::arithmetic::div_mod::lemma_mod_multiples_basic(2 * k, a);
}

/// Rounds `addr` up to the next multiple of `align`.
pub fn align_up(addr: usize, align: usize) -> (r: usize)
    requires
        align > 0,
        spec_align_up(addr as int, align as int) <= usize::MAX,
    ensures
        r == spec_align_up(addr as int, align as int),
{
    let rem = addr % align;
    if rem == 0 {
        addr
    } else {
        proof {
            lemma_align_up_bounds(addr as int, align as int);
            assert(rem <= addr) by (nonlinear_arith)
                requires
                    addr >= 0,
                    align > 0,
                    rem == addr % align,
            {}
        }
        addr - rem + align
    }
}

/// `align_up`, but reporting an unrepresentable result instead of
/// requiring the caller to rule it out.
pub fn align_up_checked(addr: usize, align: usize) -> (r: Option<usize>)
    requires
        align > 0,
    ensures
        r == if spec_align_up(addr as int, align as int) <= usize::MAX {
            Some(spec_align_up(addr as int, align as int) as usize)
        } else {
            None::<usize>
        },
{
    let rem = addr % align;
    if rem == 0 {
        Some(addr)
    } else {
        proof {
            lemma_align_up_bounds(addr as int, align as int);
            assert(rem <= addr) by (nonlinear_arith)
                requires
                    addr >= 0,
                    align > 0,
                    rem == addr % align,
            {}
        }
        if align - rem <= usize::MAX - addr {
            Some(addr - rem + align)
        } else {
            None
        }
    }
}

/// The remainder-based rounding helper, kept alongside the checked
/// variants: it demands a representable result instead of detecting
/// an unrepresentable one.
pub fn align_up_old(addr: usize, align: usize) -> (r: usize)
    requires
        align > 0,
        spec_align_up(addr as int, align as int) <= usize::MAX,
    ensures
        r == spec_align_up(addr as int, align as int),
{
    let remainder = addr % align;
    if remainder == 0 {
        addr  // addr already aligned
    } else {
        proof {
            lemma_align_up_bounds(addr as int, align as int);
            assert(remainder <= addr) by (nonlinear_arith)
                requires
                    addr >= 0,
                    align > 0,
                    remainder == addr % align,
            {}
        }
        addr - remainder + align
    }
}

} // verus!
