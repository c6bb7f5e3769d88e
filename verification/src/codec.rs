//! Dependency codec: pure bit-packing utilities shared by the markup
//! transformer and both code generators. A reactive variable's identity is a
//! power-of-two mask; a binding's dependency mask is the OR of the masks of
//! the variables it reads; a block's containment mask is the OR of the bits
//! assigned (by sorted position) to its enclosing conditional blocks.

use vstd::arithmetic::power2::{lemma2_to64, lemma_pow2_strictly_increases, lemma_pow2_unfold, pow2};
use vstd::prelude::*;

verus! {

/// Bitwise OR of all masks in a sequence, folded left to right.
pub open spec fn spec_combine(masks: Seq<u32>) -> u32
    decreases masks.len(),
{
    if masks.len() == 0 {
        0u32
    } else {
        spec_combine(masks.drop_last()) | masks.last()
    }
}

/// Combines the bitmasks of a binding's dependent variables into the
/// binding's single dependency mask.
pub fn get_combined_binary_number(numbers: &Vec<u32>) -> (r: u32)
    ensures
        r == spec_combine(numbers@),
{
    let mut result: u32 = 0;
    let mut i: usize = 0;
    while i < numbers.len()
        invariant
            i <= numbers.len(),
            result == spec_combine(numbers@.take(i as int)),
        decreases numbers.len() - i,
    {
        result = result | numbers[i];
        i = i + 1;
        proof {
            assert(numbers@.take(i as int).drop_last() =~= numbers@.take(i as int - 1));
        }
    }
    proof {
        assert(numbers@.take(numbers@.len() as int) =~= numbers@);
    }
    result
}

proof fn lemma_or_assoc(a: u32, b: u32, c: u32)
    by (bit_vector)
    ensures
        (a | b) | c == a | (b | c),
        0u32 | a == a,
        0u32 | b == b,
        0u32 | c == c,
        a | 0u32 == a,
{
}

/// Law: combining is associative and flattens. For any masks,
/// `combine(combine(A, B), C) == combine(A, combine(B, C)) == combine(A, B, C)`.
pub proof fn lemma_combine_associative(a: u32, b: u32, c: u32)
    ensures
        spec_combine(seq![spec_combine(seq![a, b]), c]) == spec_combine(
            seq![a, spec_combine(seq![b, c])],
        ),
        spec_combine(seq![spec_combine(seq![a, b]), c]) == spec_combine(seq![a, b, c]),
{
    reveal_with_fuel(spec_combine, 5);
    let ab = spec_combine(seq![a, b]);
    let bc = spec_combine(seq![b, c]);
    assert(seq![a, b].drop_last() =~= seq![a]);
    assert(seq![a].drop_last() =~= Seq::<u32>::empty());
    assert(seq![b, c].drop_last() =~= seq![b]);
    assert(seq![b].drop_last() =~= Seq::<u32>::empty());
    assert(seq![ab, c].drop_last() =~= seq![ab]);
    assert(seq![ab].drop_last() =~= Seq::<u32>::empty());
    assert(seq![a, bc].drop_last() =~= seq![a]);
    assert(seq![a, b, c].drop_last() =~= seq![a, b]);
    assert(ab == (0u32 | a) | b);
    assert(bc == (0u32 | b) | c);
    assert(spec_combine(seq![ab, c]) == (0u32 | ab) | c);
    assert(spec_combine(seq![a, bc]) == (0u32 | a) | bc);
    assert(spec_combine(seq![a, b, c]) == ((0u32 | a) | b) | c);
    lemma_or_assoc(a, b, c);
    lemma_or_assoc(ab, c, 0);
    lemma_or_assoc(a, bc, 0);
}

/// A sequence of booleans read as a binary number, first element most
/// significant.
pub open spec fn spec_bool_map(bools: Seq<bool>) -> nat
    decreases bools.len(),
{
    if bools.len() == 0 {
        0
    } else {
        2 * spec_bool_map(bools.drop_last()) + (if bools.last() {
            1nat
        } else {
            0nat
        })
    }
}

proof fn lemma_bool_map_bound(bools: Seq<bool>)
    ensures
        spec_bool_map(bools) < pow2(bools.len()),
    decreases bools.len(),
{
    if bools.len() == 0 {
        lemma2_to64();
    } else {
        lemma_bool_map_bound(bools.drop_last());
        lemma_pow2_unfold(bools.len());
    }
}

/// Packs the `to_delete` flags of a captured-reference list into one number,
/// first flag most significant, for the runtime's reference getter.
pub fn gen_binary_map_from_bool(bools: &Vec<bool>) -> (r: u32)
    requires
        bools@.len() <= 32,
    ensures
        r as nat == spec_bool_map(bools@),
{
    proof {
        assert(bools@.take(0) =~= Seq::<bool>::empty());
        lemma2_to64();
    }
    let mut result: u32 = 0;
    let mut i: usize = 0;
    while i < bools.len()
        invariant
            i <= bools.len() <= 32,
            result as nat == spec_bool_map(bools@.take(i as int)),
            spec_bool_map(bools@.take(i as int)) < pow2(i as nat),
        decreases bools.len() - i,
    {
        proof {
            if (i as nat) < 31 {
                lemma_pow2_strictly_increases(i as nat, 31);
            }
            lemma2_to64();
            assert(result < 0x8000_0000);
            assert(bools@.take(i as int + 1).drop_last() =~= bools@.take(i as int));
            lemma_pow2_unfold(i as nat + 1);
        }
        result = result * 2 + (if bools[i] {
            1
        } else {
            0
        });
        i = i + 1;
    }
    proof {
        assert(bools@.take(bools@.len() as int) =~= bools@);
    }
    result
}

/// The mask with the low `n` bits set: the OR of the first `n` power-of-two
/// variable masks.
pub open spec fn spec_low_mask(n: nat) -> u32
    recommends
        n <= 32,
{
    (((1u64 << (n as u64)) - 1) as u32)
}

proof fn lemma_shift_distinct(i: u32, j: u32)
    by (bit_vector)
    requires
        i < 32,
        j < 32,
        i != j,
    ensures
        1u32 << i != 1u32 << j,
{
}

proof fn lemma_low_mask_step(k: u64)
    by (bit_vector)
    requires
        k < 32,
    ensures
        ((((1u64 << k) - 1) as u32) | (1u32 << (k as u32))) == (((1u64 << (k + 1)) - 1) as u32),
{
}

proof fn lemma_pow_masks_combine(masks: Seq<u32>)
    requires
        masks.len() <= 32,
        forall|k: int| 0 <= k < masks.len() ==> masks[k] == 1u32 << (k as u32),
    ensures
        spec_combine(masks) == spec_low_mask(masks.len()),
    decreases masks.len(),
{
    if masks.len() == 0 {
        assert(spec_low_mask(0) == ((1u64 << 0u64) - 1) as u32);
        assert(((1u64 << 0u64) - 1) as u32 == 0u32) by (bit_vector);
    } else {
        lemma_pow_masks_combine(masks.drop_last());
        lemma_low_mask_step((masks.len() - 1) as u64);
        assert(masks.last() == masks[masks.len() - 1]);
    }
}

/// Law: for `N <= 32` declared reactive variables, the assigned masks (the
/// `k`-th being `2^k`) are pairwise distinct powers of two and their OR is
/// `2^N - 1`.
pub proof fn lemma_bitmask_uniqueness(masks: Seq<u32>)
    requires
        masks.len() <= 32,
        forall|k: int| 0 <= k < masks.len() ==> masks[k] == 1u32 << (k as u32),
    ensures
        forall|i: int, j: int| 0 <= i < j < masks.len() ==> masks[i] != masks[j],
        spec_combine(masks) == spec_low_mask(masks.len()),
{
    assert forall|i: int, j: int| 0 <= i < j < masks.len() implies masks[i] != masks[j] by {
        lemma_shift_distinct(i as u32, j as u32);
    }
    lemma_pow_masks_combine(masks);
}

/// The containment mask of a context over the globally sorted if-block id
/// list: the OR of `2^index` for every listed id that the context contains.
pub open spec fn spec_containment(ctx: Seq<Seq<char>>, ids: Seq<Seq<char>>) -> u32
    recommends
        ids.len() <= 32,
    decreases ids.len(),
{
    if ids.len() == 0 {
        0u32
    } else {
        spec_containment(ctx, ids.drop_last()) | (if ctx.contains(ids.last()) {
            1u32 << ((ids.len() - 1) as u32)
        } else {
            0u32
        })
    }
}

/// Containment masks only accumulate: a bit set for a listed ancestor id
/// stays set over any extension of the list.
proof fn lemma_containment_monotonic(ctx: Seq<Seq<char>>, ids: Seq<Seq<char>>, i: int)
    requires
        ids.len() <= 32,
        0 <= i < ids.len(),
        ctx.contains(ids[i]),
    ensures
        spec_containment(ctx, ids) & (1u32 << (i as u32)) == 1u32 << (i as u32),
    decreases ids.len(),
{
    let n = ids.len() as int;
    let ii = i as u32;
    let m = spec_containment(ctx, ids.drop_last());
    if i == n - 1 {
        assert(ids.last() == ids[i]);
        assert(spec_containment(ctx, ids) == m | (1u32 << ii));
        assert((m | (1u32 << ii)) & (1u32 << ii) == 1u32 << ii) by (bit_vector);
    } else {
        lemma_containment_monotonic(ctx, ids.drop_last(), i);
        let lb: u32 = if ctx.contains(ids.last()) {
            1u32 << ((n - 1) as u32)
        } else {
            0u32
        };
        assert(spec_containment(ctx, ids) == m | lb);
        assert((m & (1u32 << ii) == 1u32 << ii) ==> ((m | lb) & (1u32 << ii) == 1u32 << ii))
            by (bit_vector);
    }
}

/// A containment mask over `n` ids fits in the low `n` bits.
proof fn lemma_containment_bits_low(ctx: Seq<Seq<char>>, ids: Seq<Seq<char>>)
    requires
        ids.len() < 32,
    ensures
        spec_containment(ctx, ids) < (1u32 << (ids.len() as u32)),
    decreases ids.len(),
{
    let n = ids.len() as int;
    if n == 0 {
        assert(0u32 < (1u32 << 0u32)) by (bit_vector);
    } else {
        lemma_containment_bits_low(ctx, ids.drop_last());
        let m = spec_containment(ctx, ids.drop_last());
        let nn = (n - 1) as u32;
        let lb: u32 = if ctx.contains(ids.last()) {
            1u32 << nn
        } else {
            0u32
        };
        assert(spec_containment(ctx, ids) == m | lb);
        assert((m < (1u32 << nn) && nn < 31 && (lb == 0u32 || lb == (1u32 << nn))) ==> ((m | lb) < (
        1u32 << ((nn + 1) as u32)))) by (bit_vector);
    }
}

/// A containment bit is set only for ids the context contains.
proof fn lemma_containment_bit_needs_member(ctx: Seq<Seq<char>>, ids: Seq<Seq<char>>, i: int)
    requires
        ids.len() <= 32,
        0 <= i < ids.len(),
        !ctx.contains(ids[i]),
    ensures
        spec_containment(ctx, ids) & (1u32 << (i as u32)) == 0,
    decreases ids.len(),
{
    let n = ids.len() as int;
    let ii = i as u32;
    let m = spec_containment(ctx, ids.drop_last());
    if i == n - 1 {
        assert(ids.last() == ids[i]);
        assert(spec_containment(ctx, ids) == m | 0u32);
        lemma_containment_bits_low(ctx, ids.drop_last());
        let nn = (n - 1) as u32;
        assert((m < (1u32 << nn) && nn < 32) ==> ((m | 0u32) & (1u32 << nn) == 0)) by (bit_vector);
    } else {
        lemma_containment_bit_needs_member(ctx, ids.drop_last(), i);
        let nn = (n - 1) as u32;
        let lb: u32 = if ctx.contains(ids.last()) {
            1u32 << nn
        } else {
            0u32
        };
        assert(spec_containment(ctx, ids) == m | lb);
        assert((m & (1u32 << ii) == 0 && ii < 32 && nn < 32 && ii != nn && (lb == 0u32 || lb == (
        1u32 << nn))) ==> ((m | lb) & (1u32 << ii) == 0)) by (bit_vector);
    }
}

/// Two contexts with the same members over a given id list produce the same
/// containment mask.
proof fn lemma_containment_same_members(
    c1: Seq<Seq<char>>,
    c2: Seq<Seq<char>>,
    ids: Seq<Seq<char>>,
    extra: Seq<char>,
)
    requires
        ids.len() <= 32,
        forall|x: Seq<char>| c2.contains(x) <==> (c1.contains(x) || x == extra),
        !ids.contains(extra),
    ensures
        spec_containment(c2, ids) == spec_containment(c1, ids),
    decreases ids.len(),
{
    if ids.len() > 0 {
        assert forall|x: Seq<char>| ids.drop_last().contains(x) implies ids.contains(x) by {
            let k = choose|k: int| 0 <= k < ids.drop_last().len() && ids.drop_last()[k] == x;
            assert(ids[k] == x);
        }
        lemma_containment_same_members(c1, c2, ids.drop_last(), extra);
        assert(ids.contains(ids.last()));
        assert(ids.last() != extra);
    }
}

/// Extending a context with one listed id ORs in exactly that id's bit.
proof fn lemma_containment_push_or(ctx: Seq<Seq<char>>, id: Seq<char>, ids: Seq<Seq<char>>, i: int)
    requires
        ids.len() <= 32,
        0 <= i < ids.len(),
        ids[i] == id,
        forall|p: int, q: int| 0 <= p < q < ids.len() ==> ids[p] != ids[q],
    ensures
        spec_containment(ctx.push(id), ids) == spec_containment(ctx, ids) | (1u32 << (i as u32)),
    decreases ids.len(),
{
    let n = ids.len() as int;
    let ctx_b = ctx.push(id);
    let m = spec_containment(ctx, ids.drop_last());
    let mb = spec_containment(ctx_b, ids.drop_last());
    let nn = (n - 1) as u32;
    let ii = i as u32;
    assert forall|x: Seq<char>| ctx_b.contains(x) implies (ctx.contains(x) || x == id) by {
        let k = choose|k: int| 0 <= k < ctx_b.len() && ctx_b[k] == x;
        if k < ctx.len() as int {
            assert(ctx[k] == x);
        }
    }
    assert forall|x: Seq<char>| ctx.contains(x) implies ctx_b.contains(x) by {
        let k = choose|k: int| 0 <= k < ctx.len() && ctx[k] == x;
        assert(ctx_b[k] == x);
    }
    assert(ctx_b.contains(id)) by {
        assert(ctx_b[ctx.len() as int] == id);
    }
    if i == n - 1 {
        assert(!ids.drop_last().contains(id)) by {
            if ids.drop_last().contains(id) {
                let k = choose|k: int|
                    0 <= k < ids.drop_last().len() && ids.drop_last()[k] == id;
                assert(ids[k] == ids[i]);
            }
        }
        lemma_containment_same_members(ctx, ctx_b, ids.drop_last(), id);
        assert(ids.last() == id);
        assert(spec_containment(ctx_b, ids) == m | (1u32 << nn));
        let lb: u32 = if ctx.contains(ids.last()) {
            1u32 << nn
        } else {
            0u32
        };
        assert(spec_containment(ctx, ids) == m | lb);
        assert((lb == 0u32 || lb == (1u32 << nn)) ==> ((m | lb) | (1u32 << nn) == m | (1u32 << nn)))
            by (bit_vector);
    } else {
        lemma_containment_push_or(ctx, id, ids.drop_last(), i);
        assert(ids.last() != id) by {
            assert(ids[n - 1] != ids[i]);
        }
        let lb: u32 = if ctx.contains(ids.last()) {
            1u32 << nn
        } else {
            0u32
        };
        assert(ctx_b.contains(ids.last()) <==> ctx.contains(ids.last()));
        assert(spec_containment(ctx_b, ids) == mb | lb);
        assert(spec_containment(ctx, ids) == m | lb);
        assert(mb == m | (1u32 << ii));
        assert((m | (1u32 << ii)) | lb == (m | lb) | (1u32 << ii)) by (bit_vector);
    }
}

/// Law: a block directly nested under another carries its parent's bit. If
/// block `B`'s context is block `A`'s context extended with `A`'s own id
/// (ids pairwise distinct, and `A` not an ancestor of itself), then `B`'s
/// containment mask is exactly `A`'s mask with `A`'s assigned bit added,
/// that bit is set in `B`'s mask, and it is absent from `A`'s own mask —
/// so the inclusion is strict.
pub proof fn lemma_nesting_containment(ctx_a: Seq<Seq<char>>, ids: Seq<Seq<char>>, i: int)
    requires
        ids.len() <= 32,
        0 <= i < ids.len(),
        forall|p: int, q: int| 0 <= p < q < ids.len() ==> ids[p] != ids[q],
        !ctx_a.contains(ids[i]),
    ensures
        spec_containment(ctx_a.push(ids[i]), ids) & (1u32 << (i as u32)) == 1u32 << (i as u32),
        spec_containment(ctx_a, ids) & (1u32 << (i as u32)) == 0,
        spec_containment(ctx_a.push(ids[i]), ids) == spec_containment(ctx_a, ids) | (1u32 << (
        i as u32)),
{
    let ctx_b = ctx_a.push(ids[i]);
    assert(ctx_b.contains(ids[i])) by {
        assert(ctx_b[ctx_a.len() as int] == ids[i]);
    }
    lemma_containment_monotonic(ctx_b, ids, i);
    lemma_containment_bit_needs_member(ctx_a, ids, i);
    lemma_containment_push_or(ctx_a, ids[i], ids, i);
}

} // verus!
