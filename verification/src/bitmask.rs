//! Bitmasks over small ordered universes.
//!
//! Bit `i` of a mask, counted from the least significant bit, says whether
//! the `i`-th element of the universe belongs to the set. Digits 1 to 9 sit
//! on bits 0 to 8, in-house positions 0 to 8 on bits 0 to 8, lines and houses
//! on the bit of their index, and cell `c` on bit `c % 64` of word `c / 64`.

use vstd::prelude::*;

verus! {

/// A mask of digits or of in-house positions.
pub type Mask16 = u16;

/// A mask of lines or of houses.
pub type Mask32 = u32;

/// A mask of cells, in two words.
pub type Mask128 = [u64; 2];

/// Whether bit `i` of `mask` is set.
pub open spec fn bit(mask: u64, i: int) -> bool {
    0 <= i < 64 && (mask >> (i as u64)) & 1 == 1
}

/// The indices whose bit is set in `mask`.
pub open spec fn members(mask: u64) -> Set<int> {
    Set::new(|i: int| bit(mask, i))
}

/// The mask of the members of `s` below `n`.
pub open spec fn mask_upto(s: Set<int>, n: nat) -> u64
    decreases n,
{
    if n == 0 {
        0
    } else {
        let rest = mask_upto(s, (n - 1) as nat);
        if s.contains(n - 1) {
            rest | (1u64 << ((n - 1) as u64))
        } else {
            rest
        }
    }
}

/// The mask of the members of `s` below 64.
pub open spec fn mask_of(s: Set<int>) -> u64 {
    mask_upto(s, 64)
}

/// The indices `0 <= i < size`.
pub open spec fn below(size: int) -> Set<int> {
    Set::new(|i: int| 0 <= i < size)
}

/// The members of `s` from `by` on, counted from `by`.
pub open spec fn shifted(s: Set<int>, by: int) -> Set<int> {
    Set::new(|i: int| 0 <= i && s.contains(i + by))
}

/// The two words of the mask of the members of `s` below 128.
pub open spec fn mask128_of(s: Set<int>) -> Seq<u64> {
    seq![mask_of(s), mask_of(shifted(s, 64))]
}

/// The indices whose bit is set in a mask of two words.
pub open spec fn members128(mask: Seq<u64>) -> Set<int> {
    Set::new(|i: int| 0 <= i < 128 && bit(mask[i / 64], i % 64))
}

/// The set of `e - base` over the entries `e >= base` of `elements`.
pub open spec fn index_set(elements: Seq<u8>, base: int) -> Set<int> {
    Set::new(
        |i: int|
            0 <= i && exists|k: int|
                0 <= k < elements.len() && #[trigger] elements[k] == i + base,
    )
}

/// Whether each entry of `elements` is larger than the one before it.
pub open spec fn ascending(elements: Seq<u8>) -> bool {
    forall|a: int, b: int| 0 <= a < b < elements.len() ==> elements[a] < elements[b]
}

/// Whether each entry of `elements` lies in `low..=high`.
pub open spec fn all_within(elements: Seq<u8>, low: int, high: int) -> bool {
    forall|k: int| 0 <= k < elements.len() ==> low <= #[trigger] elements[k] <= high
}

proof fn lemma_or_bit(a: u64, k: u64, j: u64)
    by (bit_vector)
    requires
        k < 64,
        j < 64,
    ensures
        ((a | (1u64 << k)) >> j) & 1 == 1 <==> ((a >> j) & 1 == 1 || j == k),
        (0u64 >> j) & 1 == 0,
{
}

proof fn lemma_zero_has_no_bit()
    ensures
        forall|j: int| !bit(0u64, j),
{
    assert forall|j: int| !bit(0u64, j) by {
        if 0 <= j < 64 {
            lemma_or_bit(0, 0, j as u64);
        }
    }
}

proof fn lemma_upto_bits(s: Set<int>, n: nat, j: int)
    requires
        n <= 64,
    ensures
        bit(mask_upto(s, n), j) <==> (0 <= j < n && s.contains(j)),
    decreases n,
{
    if 0 <= j < 64 {
        if n == 0 {
            lemma_or_bit(0, 0, j as u64);
        } else {
            lemma_upto_bits(s, (n - 1) as nat, j);
            lemma_or_bit(mask_upto(s, (n - 1) as nat), (n - 1) as u64, j as u64);
        }
    }
}

proof fn lemma_shift_step(a: u64, b: u64, k: u64)
    by (bit_vector)
    requires
        k < 63,
        a >> ((k + 1) as u64) == b >> ((k + 1) as u64),
        ((a >> k) & 1 == 1) == ((b >> k) & 1 == 1),
    ensures
        a >> k == b >> k,
{
}

proof fn lemma_shift_top(a: u64, b: u64)
    by (bit_vector)
    requires
        ((a >> 63) & 1 == 1) == ((b >> 63) & 1 == 1),
    ensures
        a >> 63 == b >> 63,
        a >> 0 == a,
        b >> 0 == b,
{
}

proof fn lemma_shift_equal(a: u64, b: u64, k: u64)
    requires
        k < 64,
        forall|j: int| 0 <= j < 64 ==> (bit(a, j) <==> bit(b, j)),
    ensures
        a >> k == b >> k,
    decreases 64 - k,
{
    assert(bit(a, k as int) <==> bit(b, k as int));
    if k == 63 {
        lemma_shift_top(a, b);
    } else {
        lemma_shift_equal(a, b, (k + 1) as u64);
        lemma_shift_step(a, b, k);
    }
}

proof fn lemma_or_fits(a: u64, k: u64, size: u64)
    by (bit_vector)
    requires
        k < size,
        size < 64,
        a >> size == 0,
    ensures
        (a | (1u64 << k)) >> size == 0,
{
}

proof fn lemma_zero_fits(size: u64)
    by (bit_vector)
    requires
        size < 64,
    ensures
        0u64 >> size == 0,
{
}

proof fn lemma_upto_fits(s: Set<int>, n: nat, size: u64)
    requires
        n <= 64,
        size < 64,
        s.subset_of(below(size as int)),
    ensures
        mask_upto(s, n) >> size == 0,
    decreases n,
{
    if n == 0 {
        lemma_zero_fits(size);
    } else {
        lemma_upto_fits(s, (n - 1) as nat, size);
        if s.contains(n - 1) {
            assert(below(size as int).contains(n - 1));
            lemma_or_fits(mask_upto(s, (n - 1) as nat), (n - 1) as u64, size);
        }
    }
}

proof fn lemma_fits_bound(a: u64)
    by (bit_vector)
    ensures
        a >> 9 == 0 ==> a <= 0x1ff,
        a >> 16 == 0 ==> a <= 0xffff,
        a >> 17 == 0 ==> a <= 0x1_ffff,
        a >> 18 == 0 ==> a <= 0x3_ffff,
        a >> 27 == 0 ==> a <= 0x7ff_ffff,
        a >> 32 == 0 ==> a <= 0xffff_ffff,
{
}

proof fn lemma_and_not_bit(a: u64, b: u64, j: u64)
    by (bit_vector)
    requires
        j < 64,
    ensures
        ((a & !b) >> j) & 1 == 1 <==> ((a >> j) & 1 == 1 && (b >> j) & 1 != 1),
{
}

/// Unpacking a packed set gives back its members below 64.
pub proof fn lemma_members_of_mask(s: Set<int>)
    ensures
        members(mask_of(s)) == s.intersect(below(64)),
{
    assert forall|i: int| members(mask_of(s)).contains(i) <==> (s.contains(i) && 0 <= i < 64) by {
        lemma_upto_bits(s, 64, i);
    }
    assert(members(mask_of(s)) =~= s.intersect(below(64)));
}

/// Two masks with the same members are the same mask.
pub proof fn lemma_mask_unique(a: u64, b: u64)
    requires
        members(a) == members(b),
    ensures
        a == b,
{
    assert forall|j: int| 0 <= j < 64 implies (bit(a, j) <==> bit(b, j)) by {
        assert(members(a).contains(j) == bit(a, j));
        assert(members(b).contains(j) == bit(b, j));
    }
    assert(bit(a, 63) <==> bit(b, 63));
    lemma_shift_equal(a, b, 0);
    lemma_shift_top(a, b);
}

/// A mask whose members all belong to another mask has no bit outside it.
pub proof fn lemma_subset_mask(a: u64, b: u64)
    requires
        members(a).subset_of(members(b)),
    ensures
        a & !b == 0,
{
    lemma_zero_has_no_bit();
    assert forall|j: int| !members(a & !b).contains(j) by {
        if 0 <= j < 64 {
            lemma_and_not_bit(a, b, j as u64);
            assert(members(a).contains(j) ==> members(b).contains(j));
        }
    }
    assert(members(a & !b) =~= members(0));
    lemma_mask_unique(a & !b, 0);
}

/// Packing the members of a mask gives back the mask.
pub proof fn lemma_mask_of_members(mask: u64)
    ensures
        mask_of(members(mask)) == mask,
{
    lemma_members_of_mask(members(mask));
    assert(members(mask_of(members(mask))) =~= members(mask));
    lemma_mask_unique(mask_of(members(mask)), mask);
}

/// A set inside a universe of `size` elements is what its mask unpacks to,
/// and the mask has no bit at or above `size`.
pub proof fn lemma_pack_unpack(s: Set<int>, size: int)
    requires
        0 <= size <= 64,
        s.subset_of(below(size)),
    ensures
        members(mask_of(s)) == s,
        members(mask_of(s)).subset_of(below(size)),
        size == 9 ==> mask_of(s) <= 0x1ff,
        size == 18 ==> mask_of(s) <= 0x3_ffff,
        size == 27 ==> mask_of(s) <= 0x7ff_ffff,
{
    lemma_members_of_mask(s);
    assert forall|i: int| s.contains(i) implies below(64).contains(i) by {
        assert(below(size).contains(i));
    }
    assert(s.intersect(below(64)) =~= s);
    if size < 64 {
        lemma_upto_fits(s, 64, size as u64);
        lemma_fits_bound(mask_of(s));
    }
}

proof fn lemma_index_set_push(elements: Seq<u8>, n: int, base: int)
    requires
        0 <= n < elements.len(),
    ensures
        forall|j: int|
            index_set(elements.take(n + 1), base).contains(j) <==> (index_set(
                elements.take(n),
                base,
            ).contains(j) || (0 <= j && j + base == elements[n])),
{
    let before = elements.take(n);
    let after = elements.take(n + 1);
    assert(after[n] == elements[n]);
    assert forall|j: int|
        index_set(after, base).contains(j) <==> (index_set(before, base).contains(j) || (0 <= j
            && j + base == elements[n])) by {
        if index_set(before, base).contains(j) {
            let k = choose|k: int| 0 <= k < before.len() && #[trigger] before[k] == j + base;
            assert(after[k] == j + base);
        }
        if index_set(after, base).contains(j) {
            let k = choose|k: int| 0 <= k < after.len() && #[trigger] after[k] == j + base;
            if k < n {
                assert(before[k] == j + base);
            }
        }
    }
}

/// Sets the bit `e - base` for each entry `e` of `elements` with
/// `base <= e < base + 64`.
fn pack(elements: &[u8], base: u8) -> (mask: u64)
    ensures
        mask == mask_of(index_set(elements@, base as int)),
{
    let mut mask: u64 = 0;
    let mut n: usize = 0;
    proof {
        lemma_zero_has_no_bit();
    }
    while n < elements.len()
        invariant
            n <= elements@.len(),
            forall|j: int|
                bit(mask, j) <==> (j < 64 && index_set(
                    elements@.take(n as int),
                    base as int,
                ).contains(j)),
        decreases elements@.len() - n,
    {
        let element: u8 = elements[n];
        proof {
            lemma_index_set_push(elements@, n as int, base as int);
        }
        if element >= base && element - base < 64 {
            let shift: u64 = (element - base) as u64;
            let next: u64 = mask | (1u64 << shift);
            proof {
                assert forall|j: int|
                    bit(next, j) <==> (j < 64 && index_set(
                        elements@.take(n + 1),
                        base as int,
                    ).contains(j)) by {
                    let before = index_set(elements@.take(n as int), base as int);
                    let after = index_set(elements@.take(n + 1), base as int);
                    assert(after.contains(j) <==> (before.contains(j) || (0 <= j && j + base
                        == element)));
                    assert(bit(mask, j) <==> (j < 64 && before.contains(j)));
                    if 0 <= j < 64 {
                        lemma_or_bit(mask, shift, j as u64);
                    } else {
                        assert(!bit(next, j));
                        assert(j < 0 ==> !after.contains(j));
                    }
                }
            }
            mask = next;
        }
        n += 1;
    }
    proof {
        assert(elements@.take(n as int) =~= elements@);
        let s = index_set(elements@, base as int);
        lemma_members_of_mask(s);
        assert(members(mask) =~= s.intersect(below(64)));
        lemma_mask_unique(mask, mask_of(s));
    }
    mask
}

/// Lists `base + i` for each bit `i` that is set in `mask`, lowest first.
fn unpack(mask: u64, base: u8) -> (elements: Vec<u8>)
    requires
        base <= 192,
    ensures
        index_set(elements@, base as int) == members(mask),
        ascending(elements@),
        all_within(elements@, base as int, base + 63),
{
    let mut elements: Vec<u8> = Vec::new();
    let mut i: u8 = 0;
    while i < 64
        invariant
            i <= 64,
            base <= 192,
            ascending(elements@),
            all_within(elements@, base as int, base + i - 1),
            forall|j: int|
                index_set(elements@, base as int).contains(j) <==> (bit(mask, j) && j < i),
        decreases 64 - i,
    {
        if (mask >> (i as u64)) & 1 == 1 {
            let ghost before = elements@;
            elements.push(base + i);
            proof {
                assert(before =~= elements@.take(before.len() as int));
                assert(elements@ =~= elements@.take(before.len() as int + 1));
                lemma_index_set_push(elements@, before.len() as int, base as int);
            }
        }
        i += 1;
    }
    proof {
        assert(index_set(elements@, base as int) =~= members(mask));
    }
    elements
}

/// Entries within `size` places from `base` have their indices below
/// `size`.
pub proof fn lemma_index_set_below(elements: Seq<u8>, base: int, size: int)
    requires
        all_within(elements, base, base + size - 1),
    ensures
        index_set(elements, base).subset_of(below(size)),
{
    assert forall|i: int| index_set(elements, base).contains(i) implies below(size).contains(
        i,
    ) by {
        let k = choose|k: int| 0 <= k < elements.len() && #[trigger] elements[k] == i + base;
    }
}

/// A set of cells is what its two-word mask unpacks to, and the mask has no
/// bit at or above 81 where the set has no member there.
pub proof fn lemma_pack_unpack_cells(s: Set<int>)
    requires
        s.subset_of(below(128)),
    ensures
        members128(mask128_of(s)) == s,
        s.subset_of(below(81)) ==> mask128_of(s)[1] <= 0x1_ffff,
{
    let mask = mask128_of(s);
    lemma_members_of_mask(s);
    lemma_members_of_mask(shifted(s, 64));
    assert forall|i: int| members128(mask).contains(i) <==> s.contains(i) by {
        if s.contains(i) {
            assert(below(128).contains(i));
        }
        if 0 <= i < 64 {
            assert(members(mask[0]).contains(i) <==> bit(mask[0], i));
        } else if 64 <= i < 128 {
            assert(members(mask[1]).contains(i - 64) <==> bit(mask[1], i - 64));
            assert(shifted(s, 64).contains(i - 64) <==> s.contains(i));
        }
    }
    assert(members128(mask) =~= s);
    if s.subset_of(below(81)) {
        assert forall|i: int| shifted(s, 64).contains(i) implies below(17).contains(i) by {
            assert(below(81).contains(i + 64));
        }
        lemma_upto_fits(shifted(s, 64), 64, 17);
        lemma_fits_bound(mask[1]);
    }
}

/// Packing the members of a two-word mask gives back the mask.
pub proof fn lemma_mask128_of_members(mask: Seq<u64>)
    requires
        mask.len() == 2,
    ensures
        mask128_of(members128(mask)) == mask,
{
    let s = members128(mask);
    lemma_members_of_mask(s);
    lemma_members_of_mask(shifted(s, 64));
    assert forall|i: int| members(mask_of(s)).contains(i) <==> members(mask[0]).contains(i) by {
        if 0 <= i < 64 {
            assert(s.contains(i) <==> bit(mask[0], i));
        }
    }
    assert(members(mask_of(s)) =~= members(mask[0]));
    lemma_mask_unique(mask_of(s), mask[0]);
    assert forall|i: int|
        members(mask_of(shifted(s, 64))).contains(i) <==> members(mask[1]).contains(i) by {
        if 0 <= i < 64 {
            assert(s.contains(i + 64) <==> bit(mask[1], i));
            assert(shifted(s, 64).contains(i) <==> s.contains(i + 64));
        }
    }
    assert(members(mask_of(shifted(s, 64))) =~= members(mask[1]));
    lemma_mask_unique(mask_of(shifted(s, 64)), mask[1]);
    assert(mask128_of(s) =~= mask);
}

proof fn lemma_bound_bits(a: u64, j: u64)
    by (bit_vector)
    requires
        j < 64,
    ensures
        (a <= 0x1ff && j >= 9) ==> (a >> j) & 1 == 0,
        (a <= 0x1_ffff && j >= 17) ==> (a >> j) & 1 == 0,
        (a <= 0x3_ffff && j >= 18) ==> (a >> j) & 1 == 0,
        (a <= 0x7ff_ffff && j >= 27) ==> (a >> j) & 1 == 0,
{
}

/// The largest mask over a universe of 9, 17, 18 or 27 elements.
spec fn full_mask(size: int) -> u64 {
    if size == 9 {
        0x1ff
    } else if size == 17 {
        0x1_ffff
    } else if size == 18 {
        0x3_ffff
    } else {
        0x7ff_ffff
    }
}

proof fn lemma_elements_of_members(elements: Seq<u8>, base: int, mask: u64, size: int)
    requires
        index_set(elements, base) == members(mask),
        all_within(elements, base, base + 63),
        size == 9 || size == 17 || size == 18 || size == 27,
    ensures
        mask <= full_mask(size) ==> all_within(elements, base, base + size - 1),
{
    if mask <= full_mask(size) {
        assert forall|k: int| 0 <= k < elements.len() implies base <= #[trigger] elements[k]
            <= base + size - 1 by {
            let i = elements[k] - base;
            assert(index_set(elements, base).contains(i));
            assert(members(mask).contains(i));
            lemma_bound_bits(mask, i as u64);
        }
    }
}

/// Whether each entry of `elements` lies in `low..=high`.
pub fn is_within(elements: &[u8], low: u8, high: u8) -> (within: bool)
    ensures
        within == all_within(elements@, low as int, high as int),
{
    let mut n: usize = 0;
    while n < elements.len()
        invariant
            n <= elements@.len(),
            all_within(elements@.take(n as int), low as int, high as int),
        decreases elements@.len() - n,
    {
        if elements[n] < low || elements[n] > high {
            return false;
        }
        proof {
            let next = elements@.take(n + 1);
            assert forall|k: int| 0 <= k < next.len() implies low <= #[trigger] next[k]
                <= high by {
                if k < n {
                    assert(elements@.take(n as int)[k] == next[k]);
                }
            }
        }
        n += 1;
    }
    proof {
        assert(elements@.take(n as int) =~= elements@);
    }
    true
}

/// Packs digits 1 to 9 into bits 0 to 8.
pub fn mask_of_digits(digits: &[u8]) -> (mask: Mask16)
    requires
        all_within(digits@, 1, 9),
    ensures
        mask == mask_of(index_set(digits@, 1)),
        members(mask as u64) == index_set(digits@, 1),
        mask <= 0x1ff,
{
    proof {
        lemma_index_set_below(digits@, 1, 9);
        lemma_pack_unpack(index_set(digits@, 1), 9);
    }
    pack(digits, 1) as u16
}

/// Packs positions 0 to 8 inside a house into bits 0 to 8.
pub fn mask_of_positions_house(positions: &[u8]) -> (mask: Mask16)
    requires
        all_within(positions@, 0, 8),
    ensures
        mask == mask_of(index_set(positions@, 0)),
        members(mask as u64) == index_set(positions@, 0),
        mask <= 0x1ff,
{
    proof {
        lemma_index_set_below(positions@, 0, 9);
        lemma_pack_unpack(index_set(positions@, 0), 9);
    }
    pack(positions, 0) as u16
}

/// Packs positions 0 to 8 along a line into bits 0 to 8.
pub fn mask_of_positions_line(positions: &[u8]) -> (mask: Mask16)
    requires
        all_within(positions@, 0, 8),
    ensures
        mask == mask_of(index_set(positions@, 0)),
        members(mask as u64) == index_set(positions@, 0),
        mask <= 0x1ff,
{
    proof {
        lemma_index_set_below(positions@, 0, 9);
        lemma_pack_unpack(index_set(positions@, 0), 9);
    }
    pack(positions, 0) as u16
}

/// Packs lines 0 to 17, rows first and columns after them, into bits 0 to
/// 17.
pub fn mask_of_lines(lines: &[u8]) -> (mask: Mask32)
    requires
        all_within(lines@, 0, 17),
    ensures
        mask == mask_of(index_set(lines@, 0)),
        members(mask as u64) == index_set(lines@, 0),
        mask <= 0x3_ffff,
{
    proof {
        lemma_index_set_below(lines@, 0, 18);
        lemma_pack_unpack(index_set(lines@, 0), 18);
    }
    pack(lines, 0) as u32
}

/// Packs cells 0 to 80 into two words: cell `c` is bit `c % 64` of word
/// `c / 64`.
pub fn mask_of_cells(cells: &[u8]) -> (mask: Mask128)
    requires
        all_within(cells@, 0, 80),
    ensures
        mask@ == mask128_of(index_set(cells@, 0)),
        members128(mask@) == index_set(cells@, 0),
        mask[1] <= 0x1_ffff,
{
    let low: u64 = pack(cells, 0);
    let high: u64 = pack(cells, 64);
    let mask: Mask128 = [low, high];
    proof {
        let s = index_set(cells@, 0);
        lemma_index_set_below(cells@, 0, 81);
        assert forall|i: int| s.contains(i) implies below(128).contains(i) by {
            assert(below(81).contains(i));
        }
        assert(shifted(s, 64) =~= index_set(cells@, 64));
        lemma_pack_unpack_cells(s);
        assert(mask@ =~= mask128_of(s));
    }
    mask
}

/// Lists the digits of a mask, smallest first: digit `i + 1` for bit `i`.
pub fn digits_of_mask(mask: Mask16) -> (digits: Vec<u8>)
    ensures
        index_set(digits@, 1) == members(mask as u64),
        ascending(digits@),
        mask <= 0x1ff ==> all_within(digits@, 1, 9),
{
    let digits = unpack(mask as u64, 1);
    proof {
        lemma_elements_of_members(digits@, 1, mask as u64, 9);
    }
    digits
}

/// Lists the in-house positions of a mask, smallest first.
pub fn positions_of_mask(mask: Mask16) -> (positions: Vec<u8>)
    ensures
        index_set(positions@, 0) == members(mask as u64),
        ascending(positions@),
        mask <= 0x1ff ==> all_within(positions@, 0, 8),
{
    let positions = unpack(mask as u64, 0);
    proof {
        lemma_elements_of_members(positions@, 0, mask as u64, 9);
    }
    positions
}

/// Lists the lines or houses of a mask, smallest first.
pub fn lines_of_mask(mask: Mask32) -> (lines: Vec<u8>)
    ensures
        index_set(lines@, 0) == members(mask as u64),
        ascending(lines@),
        mask <= 0x3_ffff ==> all_within(lines@, 0, 17),
        mask <= 0x7ff_ffff ==> all_within(lines@, 0, 26),
{
    let lines = unpack(mask as u64, 0);
    proof {
        lemma_elements_of_members(lines@, 0, mask as u64, 18);
        lemma_elements_of_members(lines@, 0, mask as u64, 27);
    }
    lines
}

/// Lists the cells of a two-word mask, smallest first.
pub fn cells_of_mask(mask: &Mask128) -> (cells: Vec<u8>)
    ensures
        index_set(cells@, 0) == members128(mask@),
        ascending(cells@),
        mask[1] <= 0x1_ffff ==> all_within(cells@, 0, 80),
{
    let mut cells = unpack(mask[0], 0);
    let mut high = unpack(mask[1], 64);
    let ghost low = cells@;
    let ghost rest = high@;
    cells.append(&mut high);
    proof {
        assert(cells@ =~= low + rest);
        assert forall|i: int| index_set(cells@, 0).contains(i) <==> members128(mask@).contains(
            i,
        ) by {
            if index_set(cells@, 0).contains(i) {
                let k = choose|k: int| 0 <= k < cells@.len() && #[trigger] cells@[k] == i + 0;
                if k < low.len() {
                    assert(low[k] == i);
                    assert(index_set(low, 0).contains(i));
                    assert(members(mask[0]).contains(i));
                } else {
                    assert(rest[k - low.len()] == i - 64 + 64);
                    assert(index_set(rest, 64).contains(i - 64));
                    assert(members(mask[1]).contains(i - 64));
                }
            }
            if members128(mask@).contains(i) {
                if i < 64 {
                    assert(members(mask[0]).contains(i));
                    assert(index_set(low, 0).contains(i));
                    let k = choose|k: int| 0 <= k < low.len() && #[trigger] low[k] == i + 0;
                    assert(cells@[k] == i + 0);
                } else {
                    assert(members(mask[1]).contains(i - 64));
                    assert(index_set(rest, 64).contains(i - 64));
                    let k = choose|k: int| 0 <= k < rest.len() && #[trigger] rest[k] == i - 64 + 64;
                    assert(cells@[low.len() + k] == i + 0);
                }
            }
        }
        assert(index_set(cells@, 0) =~= members128(mask@));
        assert forall|a: int, b: int| 0 <= a < b < cells@.len() implies cells@[a] < cells@[b] by {
            if a >= low.len() {
                assert(rest[a - low.len()] < rest[b - low.len()]);
            } else if b >= low.len() {
                assert(low[a] <= 63);
                assert(rest[b - low.len()] >= 64);
            }
        }
        lemma_elements_of_members(rest, 64, mask[1], 17);
    }
    cells
}

} // verus!
