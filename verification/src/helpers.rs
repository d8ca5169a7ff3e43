//! Bitmask helpers and the basis-point distribution arithmetic.

use vstd::prelude::*;
use crate::errors::EscrowError;
use crate::state::BASIS_POINTS_DENOM;

verus! {

/// Whether bit `idx` of `mask` is set. Bits are numbered from the least
/// significant one; a mask of eight bits has none at `idx >= 8`.
pub open spec fn bit_at(mask: u8, idx: u8) -> bool {
    idx < 8 && mask & (1u8 << idx) != 0
}

/// One if bit `idx` of `mask` is set, zero if not.
pub open spec fn bit_value(mask: u8, idx: u8) -> int {
    if bit_at(mask, idx) {
        1
    } else {
        0
    }
}

/// The number of bits set in `mask`.
pub open spec fn bit_count(mask: u8) -> int {
    bit_value(mask, 0) + bit_value(mask, 1) + bit_value(mask, 2) + bit_value(mask, 3) + bit_value(
        mask,
        4,
    ) + bit_value(mask, 5) + bit_value(mask, 6) + bit_value(mask, 7)
}

/// Whether `mask` has no bit set at `width` or above.
pub open spec fn within_width(mask: u8, width: u8) -> bool {
    forall|j: u8| width <= j ==> !bit_at(mask, j)
}

/// Whether `mask` has every bit below `width` set, as far as a mask of eight
/// bits goes.
pub open spec fn covers_width(mask: u8, width: u8) -> bool {
    forall|j: u8| j < width && j < 8 ==> bit_at(mask, j)
}

/// The number of bits set in `mask` below `upto`.
spec fn partial_count(mask: u8, upto: u8) -> int {
    (if upto > 0 { bit_value(mask, 0) } else { 0 }) + (if upto > 1 { bit_value(mask, 1) } else { 0 })
        + (if upto > 2 { bit_value(mask, 2) } else { 0 }) + (if upto > 3 { bit_value(mask, 3) } else {
        0
    }) + (if upto > 4 { bit_value(mask, 4) } else { 0 }) + (if upto > 5 {
        bit_value(mask, 5)
    } else {
        0
    }) + (if upto > 6 { bit_value(mask, 6) } else { 0 }) + (if upto > 7 {
        bit_value(mask, 7)
    } else {
        0
    })
}

/// `within_width` by shifting: nothing is left of the mask once the bits below
/// `width` are shifted out.
proof fn lemma_within_width_by_shift(mask: u8, width: u8)
    ensures
        within_width(mask, width) <==> (width >= 8 || mask >> width == 0),
{
    if width >= 8 || mask >> width == 0 {
        assert forall|j: u8| width <= j implies !bit_at(mask, j) by {
            assert(!bit_at(mask, j)) by (bit_vector)
                requires
                    width <= j,
                    width >= 8 || mask >> width == 0,
            ;
        }
    }
    if within_width(mask, width) {
        assert(width >= 8 || mask >> width == 0) by (bit_vector)
            requires
                width <= 0 ==> !bit_at(mask, 0),
                width <= 1 ==> !bit_at(mask, 1),
                width <= 2 ==> !bit_at(mask, 2),
                width <= 3 ==> !bit_at(mask, 3),
                width <= 4 ==> !bit_at(mask, 4),
                width <= 5 ==> !bit_at(mask, 5),
                width <= 6 ==> !bit_at(mask, 6),
                width <= 7 ==> !bit_at(mask, 7),
        ;
    }
}

/// Setting a bit that was clear adds one to the count; setting one that was
/// set changes nothing. The other bits stay as they were.
pub proof fn lemma_set_bit(mask: u8, idx: u8)
    requires
        idx < 8,
    ensures
        bit_at(mask | (1u8 << idx), idx),
        forall|j: u8| j != idx ==> bit_at(mask | (1u8 << idx), j) == bit_at(mask, j),
        !bit_at(mask, idx) ==> bit_count(mask | (1u8 << idx)) == bit_count(mask) + 1,
        bit_at(mask, idx) ==> mask | (1u8 << idx) == mask,
        forall|width: u8|
            idx < width && within_width(mask, width) ==> #[trigger] within_width(
                mask | (1u8 << idx),
                width,
            ),
{
    assert(bit_at(mask | (1u8 << idx), idx)) by (bit_vector)
        requires
            idx < 8,
    ;
    assert forall|j: u8| j != idx implies bit_at(mask | (1u8 << idx), j) == bit_at(mask, j) by {
        assert(bit_at(mask | (1u8 << idx), j) == bit_at(mask, j)) by (bit_vector)
            requires
                idx < 8,
                j != idx,
        ;
    }
    assert(!bit_at(mask, idx) ==> bit_count(mask | (1u8 << idx)) == bit_count(mask) + 1)
        by (bit_vector)
        requires
            idx < 8,
    ;
    assert(bit_at(mask, idx) ==> mask | (1u8 << idx) == mask) by (bit_vector)
        requires
            idx < 8,
    ;
}

/// A mask with no bit at `width` or above has at most `width` bits set, and
/// has `width` of them set exactly when it has every bit below `width` set.
pub proof fn lemma_bit_count_within(mask: u8, width: u8)
    requires
        width <= 8,
        within_width(mask, width),
    ensures
        0 <= bit_count(mask) <= width,
        bit_count(mask) >= width <==> covers_width(mask, width),
{
    lemma_within_width_by_shift(mask, width);
    assert(0 <= bit_count(mask) <= width) by (bit_vector)
        requires
            width <= 8,
            width >= 8 || mask >> width == 0,
    ;
    if covers_width(mask, width) {
        assert(bit_count(mask) >= width) by (bit_vector)
            requires
                width <= 8,
                0 < width ==> bit_at(mask, 0),
                1 < width ==> bit_at(mask, 1),
                2 < width ==> bit_at(mask, 2),
                3 < width ==> bit_at(mask, 3),
                4 < width ==> bit_at(mask, 4),
                5 < width ==> bit_at(mask, 5),
                6 < width ==> bit_at(mask, 6),
                7 < width ==> bit_at(mask, 7),
        ;
    }
    if bit_count(mask) >= width {
        assert forall|j: u8| j < width && j < 8 implies bit_at(mask, j) by {
            assert(bit_at(mask, j)) by (bit_vector)
                requires
                    width <= 8,
                    j < width,
                    width >= 8 || mask >> width == 0,
                    bit_count(mask) >= width,
            ;
        }
    }
}

/// The empty mask has no bit set.
pub proof fn lemma_empty_mask()
    ensures
        bit_count(0) == 0,
        forall|j: u8| !bit_at(0, j),
        forall|width: u8| within_width(0, width),
{
    assert(bit_count(0) == 0) by (bit_vector);
    assert forall|j: u8| !bit_at(0, j) by {
        assert(!bit_at(0, j)) by (bit_vector);
    }
}

/// Counts the bits set in `x`.
pub fn count_bits(x: u8) -> (r: u8)
    ensures
        r as int == bit_count(x),
        r <= 8,
{
    let mut n: u8 = 0;
    let mut i: u8 = 0;
    while i < 8
        invariant
            i <= 8,
            n as int == partial_count(x, i),
            n <= i,
        decreases 8 - i,
    {
        proof {
            let k = i;
            assert(partial_count(x, (k + 1) as u8) == partial_count(x, k) + bit_value(x, k))
                by (bit_vector)
                requires
                    k < 8,
            ;
        }
        if x & (1u8 << i) != 0 {
            n += 1;
        }
        i += 1;
    }
    n
}

/// Sets bit `idx` of `mask`.
pub fn set_bit(mask: &mut u8, idx: usize)
    requires
        idx < 8,
    ensures
        *final(mask) == *old(mask) | (1u8 << (idx as u8)),
        bit_at(*final(mask), idx as u8),
        forall|j: u8| j != idx ==> bit_at(*final(mask), j) == bit_at(*old(mask), j),
        bit_count(*final(mask)) == bit_count(*old(mask)) + if bit_at(*old(mask), idx as u8) {
            0int
        } else {
            1int
        },
{
    proof {
        lemma_set_bit(*mask, idx as u8);
    }
    *mask = *mask | (1u8 << (idx as u8));
}

/// Tells whether bit `idx` of `mask` is set.
pub fn is_bit_set(mask: u8, idx: usize) -> (r: bool)
    requires
        idx < 8,
    ensures
        r == bit_at(mask, idx as u8),
{
    (mask & (1u8 << (idx as u8))) != 0
}

/// Tells whether `mask` has no bit set at `width` or above.
pub fn fits_width(mask: u8, width: u8) -> (r: bool)
    ensures
        r == within_width(mask, width),
{
    proof {
        lemma_within_width_by_shift(mask, width);
    }
    width >= 8 || mask >> width == 0
}

/// The share of `total` that a weight of `split` basis points is owed:
/// `total * split / 10000`, rounded down.
pub open spec fn share(total: u64, split: u16) -> int {
    (total as int * split as int) / (BASIS_POINTS_DENOM as int)
}

/// The sum of the weights of a split table.
pub open spec fn split_sum(splits: Seq<u16>) -> int
    decreases splits.len(),
{
    if splits.len() == 0 {
        0
    } else {
        split_sum(splits.drop_last()) + splits.last() as int
    }
}

/// The sum of the shares that a split table gives out of `total`.
pub open spec fn shares_total(total: u64, splits: Seq<u16>) -> int
    decreases splits.len(),
{
    if splits.len() == 0 {
        0
    } else {
        shares_total(total, splits.drop_last()) + share(total, splits.last())
    }
}

/// What is left of `total` once every share is paid: the rounding dust.
pub open spec fn leftover(total: u64, splits: Seq<u16>) -> int {
    total as int - shares_total(total, splits)
}

/// The outcome of distributing `total` over a split table: one share per
/// entry, or `Overflow` where the shares together exceed `total`.
pub open spec fn distribution(total: u64, splits: Seq<u16>) -> Result<Seq<u64>, EscrowError> {
    if shares_total(total, splits) <= total as int {
        Ok(Seq::new(splits.len(), |i: int| share(total, splits[i]) as u64))
    } else {
        Err(EscrowError::Overflow)
    }
}

/// The sum of a sequence of amounts.
pub open spec fn amounts_sum(amounts: Seq<u64>) -> int
    decreases amounts.len(),
{
    if amounts.len() == 0 {
        0
    } else {
        amounts_sum(amounts.drop_last()) + amounts.last() as int
    }
}

/// A share is not negative, and falls short of the exact fraction by less
/// than one.
pub proof fn lemma_share_nonnegative(total: u64, split: u16)
    ensures
        0 <= share(total, split),
        share(total, split) * 10000 <= total as int * split as int,
        total as int * split as int - share(total, split) * 10000 <= 9999,
{
    let x = total as int * split as int;
    assert(0 <= x) by (nonlinear_arith)
        requires
            x == total as int * split as int,
    ;
    assert(x == 10000 * (x / 10000) + x % 10000);
}

/// The shares of a longer prefix of a split table sum to at least as much.
pub proof fn lemma_shares_total_monotonic(total: u64, splits: Seq<u16>, k: int)
    requires
        0 <= k <= splits.len(),
    ensures
        0 <= shares_total(total, splits.take(k)) <= shares_total(total, splits),
    decreases splits.len(),
{
    if splits.len() == 0 {
        assert(splits.take(k) =~= splits);
    } else if k == splits.len() {
        assert(splits.take(k) =~= splits);
        lemma_shares_total_monotonic(total, splits.drop_last(), k - 1);
        lemma_share_nonnegative(total, splits.last());
    } else {
        assert(splits.drop_last().take(k) =~= splits.take(k));
        lemma_shares_total_monotonic(total, splits.drop_last(), k);
        lemma_share_nonnegative(total, splits.last());
    }
}

/// No share is larger than the sum of all shares.
pub proof fn lemma_share_within_total(total: u64, splits: Seq<u16>, i: int)
    requires
        0 <= i < splits.len(),
    ensures
        0 <= share(total, splits[i]) <= shares_total(total, splits),
    decreases splits.len(),
{
    lemma_share_nonnegative(total, splits.last());
    lemma_shares_total_monotonic(total, splits.drop_last(), 0);
    if i < splits.len() - 1 {
        lemma_share_within_total(total, splits.drop_last(), i);
    }
}

/// Ten thousand times the shares never exceeds `total` times the weights, and
/// falls short of it by less than ten thousand per entry.
pub proof fn lemma_shares_total_bounds(total: u64, splits: Seq<u16>)
    ensures
        shares_total(total, splits) * 10000 <= total as int * split_sum(splits),
        total as int * split_sum(splits) - shares_total(total, splits) * 10000 <= 9999
            * splits.len(),
    decreases splits.len(),
{
    if splits.len() == 0 {
        assert(total as int * 0 == 0);
    } else {
        let rest = splits.drop_last();
        let last = splits.last();
        lemma_shares_total_bounds(total, rest);
        lemma_share_nonnegative(total, last);
        assert(total as int * (split_sum(rest) + last as int) == total as int * split_sum(rest)
            + total as int * last as int) by (nonlinear_arith);
    }
}

/// Distribution conserves value up to dust: over a split table that sums to
/// 10000 basis points the shares never exceed `total`, and what is left is
/// smaller than the number of entries.
pub proof fn lemma_dust_bound(total: u64, splits: Seq<u16>)
    requires
        split_sum(splits) == BASIS_POINTS_DENOM as int,
    ensures
        shares_total(total, splits) <= total as int,
        0 <= leftover(total, splits) < splits.len(),
        distribution(total, splits) is Ok,
{
    lemma_shares_total_bounds(total, splits);
    assert(total as int * 10000 == 10000 * total as int);
    if splits.len() == 0 {
        assert(split_sum(splits) == 0);
    }
}

/// Amounts that are the shares of a split table, one by one, sum to the sum of
/// the shares.
pub proof fn lemma_amounts_sum(total: u64, splits: Seq<u16>, amounts: Seq<u64>)
    requires
        amounts.len() == splits.len(),
        forall|i: int| 0 <= i < splits.len() ==> amounts[i] as int == share(total, splits[i]),
    ensures
        amounts_sum(amounts) == shares_total(total, splits),
    decreases splits.len(),
{
    if splits.len() > 0 {
        lemma_amounts_sum(total, splits.drop_last(), amounts.drop_last());
    }
}

/// Adds up the first `count` entries of a split table, or tells that one of
/// them is zero.
pub fn sum_nonzero_splits(splits: &[u16], count: usize) -> (r: Option<u128>)
    requires
        count <= splits@.len(),
    ensures
        match r {
            Some(sum) => !splits@.take(count as int).contains(0u16) && sum as int == split_sum(
                splits@.take(count as int),
            ),
            None => splits@.take(count as int).contains(0u16),
        },
{
    let ghost table = splits@.take(count as int);
    let mut sum: u128 = 0;
    let mut i: usize = 0;
    while i < count
        invariant
            i <= count <= splits@.len(),
            table == splits@.take(count as int),
            forall|j: int| 0 <= j < i ==> table[j] != 0,
            sum as int == split_sum(table.take(i as int)),
            sum <= 0xffff * i,
        decreases count - i,
    {
        let s: u16 = splits[i];
        if s == 0 {
            assert(table[i as int] == 0u16);
            return None;
        }
        proof {
            assert(table.take(i as int + 1).drop_last() =~= table.take(i as int));
            assert(table.take(i as int + 1).last() == s);
        }
        sum = sum + s as u128;
        i += 1;
    }
    proof {
        assert(table.take(count as int) =~= table);
    }
    Some(sum)
}

/// Splits `total` over the first `count` entries of `splits`, each entry
/// getting `total * split / 10000` rounded down.
pub fn calc_distributions(total: u64, splits: &[u16], count: usize) -> (r: Result<
    Vec<u64>,
    EscrowError,
>)
    requires
        count <= splits@.len(),
    ensures
        match (r, distribution(total, splits@.take(count as int))) {
            (Ok(out), Ok(amounts)) => out@ == amounts,
            (Err(e), Err(expected)) => e == expected,
            _ => false,
        },
        r matches Ok(out) ==> amounts_sum(out@) == shares_total(total, splits@.take(count as int))
            && amounts_sum(out@) <= total,
        split_sum(splits@.take(count as int)) == BASIS_POINTS_DENOM as int ==> (r matches Ok(out)
            && 0 <= total - amounts_sum(out@) < count),
{
    let ghost table = splits@.take(count as int);
    let mut out: Vec<u64> = Vec::with_capacity(count);
    let mut accumulated: u128 = 0;
    let mut i: usize = 0;
    while i < count
        invariant
            i <= count <= splits@.len(),
            table == splits@.take(count as int),
            accumulated as int == shares_total(total, table.take(i as int)),
            accumulated <= total,
            out@.len() == i,
            forall|j: int| 0 <= j < i ==> out@[j] as int == share(total, table[j]),
        decreases count - i,
    {
        let split: u16 = splits[i];
        proof {
            lemma_share_nonnegative(total, split);
            assert(total as int * split as int <= 0xffff_ffff_ffff_ffff * 0xffff) by (nonlinear_arith)
                requires
                    0 <= total as int <= 0xffff_ffff_ffff_ffff,
                    0 <= split as int <= 0xffff,
            ;
            assert(table.take(i as int + 1).drop_last() =~= table.take(i as int));
            assert(table.take(i as int + 1).last() == split);
        }
        let amt: u128 = (total as u128) * (split as u128) / (BASIS_POINTS_DENOM as u128);
        accumulated = accumulated + amt;
        if accumulated > total as u128 {
            proof {
                lemma_shares_total_monotonic(total, table, i as int + 1);
                if split_sum(table) == BASIS_POINTS_DENOM as int {
                    lemma_dust_bound(total, table);
                }
            }
            return Err(EscrowError::Overflow);
        }
        out.push(amt as u64);
        i += 1;
    }
    proof {
        assert(table.take(count as int) =~= table);
        assert(out@ =~= Seq::new(table.len(), |j: int| share(total, table[j]) as u64));
        lemma_amounts_sum(total, table, out@);
        if split_sum(table) == BASIS_POINTS_DENOM as int {
            lemma_dust_bound(total, table);
        }
    }
    Ok(out)
}

} // verus!
