//! Page-block arithmetic shared by everything that allocates pages.
use crate::bo::block_bytes;
use vstd::arithmetic::power2::{lemma2_to64, lemma2_to64_rest, lemma_pow2_strictly_increases, lemma_pow2_unfold, pow2};
use vstd::prelude::*;

verus! {

/// `order` is the smallest allocation order whose block holds `pages` pages.
pub open spec fn is_order_for(pages: int, order: int) -> bool {
    &&& 0 <= order
    &&& pages <= pow2(order as nat)
    &&& order > 0 ==> pow2((order - 1) as nat) < pages
}

/// How many 4 KiB pages hold `bytes` bytes.
pub open spec fn pages_for(bytes: int) -> int {
    (bytes + 4095) / 4096
}

/// The smallest allocation order whose block holds `pages` pages.
pub fn order_for_pages(pages: u64) -> (order: usize)
    requires
        pages <= 0x8000_0000_0000_0000,
    ensures
        is_order_for(pages as int, order as int),
        order <= 63,
{
    let mut order: usize = 0;
    let mut block: u64 = 1;
    proof {
        lemma2_to64();
        lemma2_to64_rest();
    }
    while block < pages
        invariant
            block == pow2(order as nat),
            order <= 63,
            pages <= 0x8000_0000_0000_0000,
            order > 0 ==> pow2((order - 1) as nat) < pages,
        decreases 2 * pages - block,
    {
        proof {
            lemma2_to64();
            lemma2_to64_rest();
            lemma_pow2_unfold((order + 1) as nat);
            if order == 63 {
                assert(pow2(63) == 0x8000_0000_0000_0000);
            }
            assert(order < 63);
            assert(block * 2 <= 0x8000_0000_0000_0000) by {
                if order + 1 < 63 {
                    lemma_pow2_strictly_increases((order + 1) as nat, 63);
                }
            }
        }
        block = block * 2;
        order = order + 1;
    }
    order
}

/// The smallest allocation order whose block holds `bytes` bytes.
pub fn order_for_bytes(bytes: u64) -> (order: usize)
    requires
        bytes <= u64::MAX - 4095,
    ensures
        is_order_for(pages_for(bytes as int), order as int),
        bytes <= block_bytes(order as int),
        order <= 52,
{
    let pages = (bytes + 4095) / 4096;
    let order = order_for_pages(pages);
    proof {
        lemma2_to64();
        lemma2_to64_rest();
        if order > 52 {
            if order - 1 > 52 {
                lemma_pow2_strictly_increases(52, (order - 1) as nat);
            }
            assert(pow2(52) == 0x10_0000_0000_0000);
            assert(pages <= 0x10_0000_0000_0000);
        }
    }
    order
}

} // verus!
