//! Size arithmetic of the allocator handed to the inflater. Each block is
//! prefixed by a header word that records its size, so that it can be freed
//! without being told the size.

use vstd::prelude::*;

verus! {

/// Whether `align` is a power of two.
pub open spec fn is_pow2(align: usize) -> bool {
    exists|k: nat| k < 64 && align == vstd::arithmetic::power2::pow2(k)
}

/// The least multiple of `align` that is at least `size`.
pub open spec fn round_up(size: int, align: int) -> int {
    if size % align == 0 {
        size
    } else {
        size - size % align + align
    }
}

/// Rounds `size` up to a multiple of the power of two `align`.
pub fn align_up(size: usize, align: usize) -> (r: usize)
    requires
        is_pow2(align),
        size + align - 1 <= usize::MAX,
    ensures
        r == round_up(size as int, align as int),
{
    proof {
        let k = choose|k: nat| k < 64 && align == vstd::arithmetic::power2::pow2(k);
        vstd::arithmetic::power2::lemma_pow2_pos(k);
    }
    let r = (size + (align - 1)) & !(align - 1);
    proof {
        let s = (size + align - 1) as usize;
        assert(r == s & !((align - 1) as usize));
        lemma_mask_round(size, align, r);
    }
    r
}

proof fn lemma_mask_round(size: usize, align: usize, r: usize)
    requires
        is_pow2(align),
        size + align - 1 <= usize::MAX,
        r == ((size + align - 1) as usize) & !((align - 1) as usize),
    ensures
        r == round_up(size as int, align as int),
{
    let k = choose|k: nat| k < 64 && align == vstd::arithmetic::power2::pow2(k);
    vstd::arithmetic::power2::lemma_pow2_pos(k);
    let s = (size + align - 1) as usize;
    let a = align;
    let m = (a - 1) as usize;
    assert(r + (s & m) == s) by (bit_vector)
        requires
            r == s & !m,
    ;
    vstd::bits::lemma_u64_low_bits_mask_is_mod(s as u64, k);
    assert(m as nat == vstd::bits::low_bits_mask(k));
    assert((s & m) == s % a);
    vstd::arithmetic::div_mod::lemma_fundamental_div_mod(s as int, a as int);
    assert(r as int == a * (s as int / a as int)) by {
        assert(r as int == s as int - (s as int) % (a as int));
    }
    vstd::arithmetic::div_mod::lemma_mod_multiples_basic(s as int / a as int, a as int);
    assert(r as int % a as int == 0) by {
        vstd::arithmetic::mul::lemma_mul_is_commutative(a as int, s as int / a as int);
    }
    assert(s % a < a) by {
        vstd::arithmetic::div_mod::lemma_mod_bound(s as int, a as int);
    }
    assert(r >= size && r < size + a);
    if (size as int) % (a as int) == 0 {
        lemma_unique_multiple(size as int, r as int, a as int);
    } else {
        let t = size - size % a + a;
        vstd::arithmetic::div_mod::lemma_fundamental_div_mod(size as int, a as int);
        assert(t % (a as int) == 0) by {
            vstd::arithmetic::div_mod::lemma_mod_multiples_basic(size as int / a as int + 1, a as int);
            assert(t == (size as int / a as int + 1) * (a as int)) by (nonlinear_arith)
                requires
                    size as int == (a as int) * (size as int / a as int) + (size as int) % (a as int),
                    t == size - size % a + a,
            ;
        }
        lemma_unique_multiple(t, r as int, a as int);
    }
}

/// Two multiples of `a` less than `a` apart are equal.
proof fn lemma_unique_multiple(x: int, y: int, a: int)
    requires
        a > 0,
        x % a == 0,
        y % a == 0,
        x - a < y < x + a,
    ensures
        x == y,
{
    vstd::arithmetic::div_mod::lemma_fundamental_div_mod(x, a);
    vstd::arithmetic::div_mod::lemma_fundamental_div_mod(y, a);
    let qx = x / a;
    let qy = y / a;
    assert(x == a * qx);
    assert(y == a * qy);
    assert(qx == qy) by (nonlinear_arith)
        requires
            a > 0,
            x == a * qx,
            y == a * qy,
            x - a < y < x + a,
    ;
}

/// Size of the block to reserve for a request of `items` items of
/// `item_size` bytes: the product rounded up to `align`, plus a header of
/// `header` bytes. `None` where the product overflows 32 bits or the total
/// overflows `usize`.
pub fn alloc_block_size(items: u32, item_size: u32, align: usize, header: usize) -> (r: Option<usize>)
    requires
        is_pow2(align),
    ensures
        items * item_size > u32::MAX ==> r is None,
        items * item_size <= u32::MAX && (items * item_size) + align - 1 <= usize::MAX && round_up(
            items * item_size,
            align as int,
        ) + header <= usize::MAX ==> r == Some((round_up(items * item_size, align as int) + header) as usize),
        r is Some ==> items * item_size <= u32::MAX && r->Some_0 == round_up(items * item_size, align as int)
            + header,
{
    proof {
        let k = choose|k: nat| k < 64 && align == vstd::arithmetic::power2::pow2(k);
        vstd::arithmetic::power2::lemma_pow2_pos(k);
    }
    let size = match items.checked_mul(item_size) {
        Some(s) => s as usize,
        None => {
            return None;
        },
    };
    if size > usize::MAX - (align - 1) {
        return None;
    }
    let rounded = align_up(size, align);
    rounded.checked_add(header)
}

} // verus!
