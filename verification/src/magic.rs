use vstd::prelude::*;
use crate::attacks::{bishop_reach, gen_king_attacks, gen_knight_attacks, king_step, knight_hop, on_board, ray, ray_from, rook_reach, sliding_attacks_bishop, sliding_attacks_rook, unit_direction};
use crate::bitboard::{bb_popcount, bit, group_bit_lemmas};
use crate::types::{Bb, Square, file_of, rank_of};

verus! {

// ---------------------------------------------------------------- relevance masks

/// The squares from `(r, f)` in direction `(dr, df)` that have another square of the
/// board beyond them: the squares whose occupancy can stop a slider early.
pub open spec fn inner_ray(r: int, f: int, dr: int, df: int, fuel: nat) -> u64
    decreases fuel,
{
    if fuel == 0 || !on_board(r, f) || !on_board(r + dr, f + df) {
        0
    } else {
        (1u64 << ((r * 8 + f) as u64)) | inner_ray(r + dr, f + df, dr, df, (fuel - 1) as nat)
    }
}

/// The inner squares of the ray leaving `sq` in direction `(dr, df)`.
pub open spec fn inner_from(sq: int, dr: int, df: int) -> u64 {
    inner_ray(rank_of(sq) + dr, file_of(sq) + df, dr, df, 8)
}

/// The squares whose occupancy decides a rook's attacks from `sq`.
pub open spec fn rook_mask(sq: int) -> u64 {
    inner_from(sq, 0, 1) | inner_from(sq, 0, -1) | inner_from(sq, 1, 0) | inner_from(sq, -1, 0)
}

/// The squares whose occupancy decides a bishop's attacks from `sq`.
pub open spec fn bishop_mask(sq: int) -> u64 {
    inner_from(sq, 1, 1) | inner_from(sq, 1, -1) | inner_from(sq, -1, 1) | inner_from(sq, -1, -1)
}

pub open spec fn slider_mask(sq: int, is_rook: bool) -> u64 {
    if is_rook {
        rook_mask(sq)
    } else {
        bishop_mask(sq)
    }
}

pub open spec fn slider_reach(sq: int, is_rook: bool, occ: u64) -> u64 {
    if is_rook {
        rook_reach(sq, occ)
    } else {
        bishop_reach(sq, occ)
    }
}

proof fn lemma_or_facts(a: u64, b: u64, c: u64)
    ensures
        (a | b) | c == a | (b | c),
        a | 0 == a,
        0 | a == a,
{
    assert((a | b) | c == a | (b | c) && a | 0 == a && 0 | a == a) by (bit_vector);
}

/// Walks the inner squares of one ray from `sq`.
fn mask_walk(sq: Square, dr: i32, df: i32) -> (mask: Bb)
    requires
        sq < 64,
        unit_direction(dr as int, df as int),
    ensures
        mask == inner_from(sq as int, dr as int, df as int),
{
    let r = (sq / 8) as i32;
    let f = (sq % 8) as i32;
    let mut mask = 0u64;
    let mut cr = r + dr;
    let mut cf = f + df;
    let ghost mut k: int = 0;
    let ghost mut fuel: nat = 8;
    proof {
        lemma_or_facts(inner_from(sq as int, dr as int, df as int), 0, 0);
        lemma_or_facts(0, 0, inner_from(sq as int, dr as int, df as int));
        assert((k + 1) * dr == dr) by (nonlinear_arith)
            requires
                k == 0,
        ;
        assert((k + 1) * df == df) by (nonlinear_arith)
            requires
                k == 0,
        ;
    }
    while 0 <= cr && cr <= 7 && 0 <= cf && cf <= 7 && 0 <= cr + dr && cr + dr <= 7 && 0 <= cf
        + df && cf + df <= 7
        invariant
            0 <= r < 8,
            0 <= f < 8,
            r == rank_of(sq as int),
            f == file_of(sq as int),
            unit_direction(dr as int, df as int),
            cr == r + (k + 1) * dr,
            cf == f + (k + 1) * df,
            0 <= k,
            fuel == 8 - k,
            k <= 7,
            mask | inner_ray(cr as int, cf as int, dr as int, df as int, fuel) == inner_from(
                sq as int,
                dr as int,
                df as int,
            ),
        decreases 8 - k,
    {
        proof {
            assert((k + 1) * dr == if dr == 1 {
                k + 1
            } else if dr == -1 {
                -(k + 1)
            } else {
                0
            }) by (nonlinear_arith)
                requires
                    -1 <= dr <= 1,
            ;
            assert((k + 1) * df == if df == 1 {
                k + 1
            } else if df == -1 {
                -(k + 1)
            } else {
                0
            }) by (nonlinear_arith)
                requires
                    -1 <= df <= 1,
            ;
            assert(k < 7);
            assert((k + 2) * dr == (k + 1) * dr + dr) by (nonlinear_arith);
            assert((k + 2) * df == (k + 1) * df + df) by (nonlinear_arith);
        }
        let s = (cr * 8 + cf) as u64;
        let b = 1u64 << s;
        proof {
            lemma_or_facts(mask, b, inner_ray((cr + dr) as int, (cf + df) as int, dr as int, df as int, (fuel - 1) as nat));
        }
        mask = mask | b;
        cr = cr + dr;
        cf = cf + df;
        proof {
            k = k + 1;
            fuel = (fuel - 1) as nat;
        }
    }
    proof {
        lemma_or_facts(mask, 0, 0);
    }
    mask
}

/// The relevant occupancy squares of a rook on `sq`.
pub fn gen_rook_mask(sq: Square) -> (mask: Bb)
    requires
        sq < 64,
    ensures
        mask == rook_mask(sq as int),
{
    mask_walk(sq, 0, 1) | mask_walk(sq, 0, -1) | mask_walk(sq, 1, 0) | mask_walk(sq, -1, 0)
}

/// The relevant occupancy squares of a bishop on `sq`.
pub fn gen_bishop_mask(sq: Square) -> (mask: Bb)
    requires
        sq < 64,
    ensures
        mask == bishop_mask(sq as int),
{
    mask_walk(sq, 1, 1) | mask_walk(sq, 1, -1) | mask_walk(sq, -1, 1) | mask_walk(sq, -1, -1)
}

/// A ray only sees the occupancy of its inner squares.
proof fn lemma_ray_relevant(r: int, f: int, dr: int, df: int, occ: u64, m: u64, fuel: nat)
    requires
        forall|q: int| #[trigger] bit(inner_ray(r, f, dr, df, fuel), q) ==> bit(m, q),
    ensures
        ray(r, f, dr, df, occ, fuel) == ray(r, f, dr, df, occ & m, fuel),
    decreases fuel,
{
    broadcast use group_bit_lemmas;

    if fuel == 0 || !on_board(r, f) {
    } else if on_board(r + dr, f + df) {
        let q = r * 8 + f;
        let rest = inner_ray(r + dr, f + df, dr, df, (fuel - 1) as nat);
        assert(bit(inner_ray(r, f, dr, df, fuel), q));
        assert forall|q2: int| #[trigger] bit(rest, q2) implies bit(m, q2) by {
            assert(bit(inner_ray(r, f, dr, df, fuel), q2));
        }
        lemma_ray_relevant(r + dr, f + df, dr, df, occ, m, (fuel - 1) as nat);
    } else {
        let q = r * 8 + f;
        let b = 1u64 << (q as u64);
        assert(ray(r + dr, f + df, dr, df, occ, (fuel - 1) as nat) == 0);
        assert(ray(r + dr, f + df, dr, df, occ & m, (fuel - 1) as nat) == 0);
        lemma_or_facts(b, 0, 0);
    }
}

/// A rook's attacks depend only on the occupancy of its mask.
pub proof fn lemma_rook_relevant(sq: int, occ: u64)
    requires
        0 <= sq < 64,
    ensures
        rook_reach(sq, occ) == rook_reach(sq, occ & rook_mask(sq)),
{
    broadcast use group_bit_lemmas;

    let m = rook_mask(sq);
    let r = rank_of(sq);
    let f = file_of(sq);
    assert forall|q: int| #[trigger] bit(inner_ray(r, f + 1, 0, 1, 8), q) implies bit(m, q) by {}
    assert forall|q: int| #[trigger] bit(inner_ray(r, f - 1, 0, -1, 8), q) implies bit(m, q) by {}
    assert forall|q: int| #[trigger] bit(inner_ray(r + 1, f, 1, 0, 8), q) implies bit(m, q) by {}
    assert forall|q: int| #[trigger] bit(inner_ray(r - 1, f, -1, 0, 8), q) implies bit(m, q) by {}
    lemma_ray_relevant(r, f + 1, 0, 1, occ, m, 8);
    lemma_ray_relevant(r, f - 1, 0, -1, occ, m, 8);
    lemma_ray_relevant(r + 1, f, 1, 0, occ, m, 8);
    lemma_ray_relevant(r - 1, f, -1, 0, occ, m, 8);
}

/// A bishop's attacks depend only on the occupancy of its mask.
pub proof fn lemma_bishop_relevant(sq: int, occ: u64)
    requires
        0 <= sq < 64,
    ensures
        bishop_reach(sq, occ) == bishop_reach(sq, occ & bishop_mask(sq)),
{
    broadcast use group_bit_lemmas;

    let m = bishop_mask(sq);
    let r = rank_of(sq);
    let f = file_of(sq);
    assert forall|q: int| #[trigger] bit(inner_ray(r + 1, f + 1, 1, 1, 8), q) implies bit(m, q) by {}
    assert forall|q: int| #[trigger] bit(inner_ray(r + 1, f - 1, 1, -1, 8), q) implies bit(m, q) by {}
    assert forall|q: int| #[trigger] bit(inner_ray(r - 1, f + 1, -1, 1, 8), q) implies bit(m, q) by {}
    assert forall|q: int| #[trigger] bit(inner_ray(r - 1, f - 1, -1, -1, 8), q) implies bit(m, q) by {}
    lemma_ray_relevant(r + 1, f + 1, 1, 1, occ, m, 8);
    lemma_ray_relevant(r + 1, f - 1, 1, -1, occ, m, 8);
    lemma_ray_relevant(r - 1, f + 1, -1, 1, occ, m, 8);
    lemma_ray_relevant(r - 1, f - 1, -1, -1, occ, m, 8);
}

/// A ray that starts on the board is never empty.
proof fn lemma_ray_nonempty(r: int, f: int, dr: int, df: int, occ: u64, fuel: nat)
    requires
        on_board(r, f),
        fuel > 0,
    ensures
        bit(ray(r, f, dr, df, occ, fuel), r * 8 + f),
{
    broadcast use group_bit_lemmas;

    let q = r * 8 + f;
    assert(bit(ray(r, f, dr, df, occ, fuel), q));
}

proof fn lemma_or4_nonzero(a: u64, b: u64, c: u64, d: u64, q: int)
    requires
        bit(a, q) || bit(b, q) || bit(c, q) || bit(d, q),
    ensures
        a | b | c | d != 0,
{
    broadcast use group_bit_lemmas;

    assert(bit(a | b | c | d, q));
}

/// A slider always attacks at least one square.
pub proof fn lemma_reach_nonzero(sq: int, is_rook: bool, occ: u64)
    requires
        0 <= sq < 64,
    ensures
        slider_reach(sq, is_rook, occ) != 0,
{
    let r = rank_of(sq);
    let f = file_of(sq);
    if is_rook {
        let q = if f < 7 {
            lemma_ray_nonempty(r, f + 1, 0, 1, occ, 8);
            r * 8 + f + 1
        } else {
            lemma_ray_nonempty(r, f - 1, 0, -1, occ, 8);
            r * 8 + f - 1
        };
        lemma_or4_nonzero(
            ray_from(sq, 0, 1, occ),
            ray_from(sq, 0, -1, occ),
            ray_from(sq, 1, 0, occ),
            ray_from(sq, -1, 0, occ),
            q,
        );
    } else {
        let q = if r < 7 && f < 7 {
            lemma_ray_nonempty(r + 1, f + 1, 1, 1, occ, 8);
            (r + 1) * 8 + f + 1
        } else if r < 7 {
            lemma_ray_nonempty(r + 1, f - 1, 1, -1, occ, 8);
            (r + 1) * 8 + f - 1
        } else if f < 7 {
            lemma_ray_nonempty(r - 1, f + 1, -1, 1, occ, 8);
            (r - 1) * 8 + f + 1
        } else {
            lemma_ray_nonempty(r - 1, f - 1, -1, -1, occ, 8);
            (r - 1) * 8 + f - 1
        };
        lemma_or4_nonzero(
            ray_from(sq, 1, 1, occ),
            ray_from(sq, 1, -1, occ),
            ray_from(sq, -1, 1, occ),
            ray_from(sq, -1, -1, occ),
            q,
        );
    }
}

// ---------------------------------------------------------------- subsets

/// `s` is a subset of `m`.
pub open spec fn subset_of(s: u64, m: u64) -> bool {
    s & !m == 0
}

proof fn lemma_wrapping_sub(s: u64, m: u64)
    ensures
        vstd::wrapping::u64_specs::wrapping_sub(s, m) == ((s - m) as u64),
{
    if s < m {
        assert(((s - m + 0x1_0000_0000_0000_0000int) as u64) == ((s - m) as u64)) by (bit_vector);
    }
}

/// The carry-rippler step `(s - m) & m` moves to the next larger subset of `m`, or
/// to zero after `m` itself.
proof fn lemma_next_subset(s: u64, m: u64)
    requires
        subset_of(s, m),
    ensures
        subset_of(((s - m) as u64) & m, m),
        ((s - m) as u64) & m <= m,
        s <= m,
        s != m ==> ((s - m) as u64) & m > s,
        s == m ==> ((s - m) as u64) & m == 0,
        forall|t: u64| subset_of(t, m) && t > s ==> t >= #[trigger] (((s - m) as u64) & m),
{
    assert((((s - m) as u64) & m) & !m == 0 && (((s - m) as u64) & m) <= m && (s == m ==> (((s
        - m) as u64) & m) == 0)) by (bit_vector);
    assert(s <= m && (s != m ==> (((s - m) as u64) & m) > s)) by (bit_vector)
        requires
            s & !m == 0,
    ;
    assert forall|t: u64| subset_of(t, m) && t > s implies t >= #[trigger] (((s - m) as u64) & m) by {
        assert(t >= ((s - m) as u64) & m) by (bit_vector)
            requires
                s & !m == 0,
                t & !m == 0,
                t > s,
        ;
    }
}

/// All subsets of `mask`, in increasing order (carry-rippler enumeration).
pub fn enumerate_subsets(mask: Bb) -> (v: Vec<Bb>)
    ensures
        forall|i: int| 0 <= i < v.len() ==> subset_of(#[trigger] v@[i], mask),
        forall|i: int, j: int| 0 <= i < j < v.len() ==> v@[i] < v@[j],
        forall|s: u64| subset_of(s, mask) ==> #[trigger] v@.contains(s),
{
    let mut subsets: Vec<Bb> = Vec::new();
    let mut subset = 0u64;
    proof {
        assert(0u64 & !mask == 0) by (bit_vector);
    }
    loop
        invariant_except_break
            subset_of(subset, mask),
            forall|i: int| 0 <= i < subsets.len() ==> subset_of(#[trigger] subsets@[i], mask),
            forall|i: int| 0 <= i < subsets.len() ==> #[trigger] subsets@[i] < subset,
            forall|i: int, j: int| 0 <= i < j < subsets.len() ==> subsets@[i] < subsets@[j],
            forall|s: u64| subset_of(s, mask) && s < subset ==> #[trigger] subsets@.contains(s),
        ensures
            forall|i: int| 0 <= i < subsets.len() ==> subset_of(#[trigger] subsets@[i], mask),
            forall|i: int, j: int| 0 <= i < j < subsets.len() ==> subsets@[i] < subsets@[j],
            forall|s: u64| subset_of(s, mask) ==> #[trigger] subsets@.contains(s),
        decreases mask - subset,
    {
        let ghost before = subsets@;
        subsets.push(subset);
        proof {
            lemma_next_subset(subset, mask);
            lemma_wrapping_sub(subset, mask);
            assert(subsets@[subsets.len() - 1] == subset);
            assert forall|s: u64| subset_of(s, mask) && s <= subset implies #[trigger] subsets@.contains(s) by {
                if s < subset {
                    assert(before.contains(s));
                    let i = choose|i: int| 0 <= i < before.len() && before[i] == s;
                    assert(subsets@[i] == s);
                } else {
                    assert(subsets@[subsets.len() - 1] == s);
                }
            }
        }
        let next = subset.wrapping_sub(mask) & mask;
        if next == 0 {
            proof {
                assert forall|s: u64| subset_of(s, mask) implies #[trigger] subsets@.contains(s) by {
                    lemma_next_subset(s, mask);
                    assert(subset == mask);
                }
            }
            break;
        }
        proof {
            assert forall|s: u64| subset_of(s, mask) && s < next implies #[trigger] subsets@.contains(s) by {
                if s > subset {
                    assert(s >= ((subset - mask) as u64) & mask);
                }
            }
        }
        subset = next;
    }
    subsets
}

// ---------------------------------------------------------------- candidate generator

/// The state step of the candidate generator (xorshift with shifts 12, 25, 27).
pub open spec fn rng_step(x: u64) -> u64 {
    let a = x ^ (x >> 12u64);
    let b = a ^ (a << 25u64);
    b ^ (b >> 27u64)
}

/// The output for a state: the state times the xorshift* multiplier, wrapping.
pub open spec fn rng_out(x: u64) -> u64 {
    vstd::wrapping::u64_specs::wrapping_mul(x, 0x2545F4914F6CDD1Du64)
}

/// A small xorshift* generator for magic candidates.
pub struct Rng(pub u64);

impl Rng {
    pub fn next(&mut self) -> (r: u64)
        ensures
            final(self).0 == rng_step(old(self).0),
            r == rng_out(final(self).0),
    {
        self.0 = self.0 ^ (self.0 >> 12);
        self.0 = self.0 ^ (self.0 << 25);
        self.0 = self.0 ^ (self.0 >> 27);
        self.0.wrapping_mul(0x2545F4914F6CDD1D)
    }

    /// The and of three outputs: a candidate with few bits set.
    pub fn sparse_random(&mut self) -> (r: u64)
        ensures
            final(self).0 == rng_step(rng_step(rng_step(old(self).0))),
            r == rng_out(rng_step(old(self).0)) & rng_out(rng_step(rng_step(old(self).0)))
                & rng_out(rng_step(rng_step(rng_step(old(self).0)))),
    {
        let a = self.next();
        let b = self.next();
        let c = self.next();
        a & b & c
    }
}


// ---------------------------------------------------------------- magic tables

/// How many candidates `find_magic` draws before it gives up on a square.
pub const MAGIC_TRIES: u64 = 100_000_000;

/// The table slot of an occupancy: its product with the magic, top bits kept.
pub open spec fn magic_index(occ: u64, magic: u64, shift: u32) -> int {
    (vstd::wrapping::u64_specs::wrapping_mul(occ, magic) >> shift) as int
}

/// The number of slots of a table indexed by the top `64 - shift` bits.
pub open spec fn slot_count(shift: u32) -> int {
    (1u64 << ((64 - shift) as u32)) as int
}

/// `t` holds, from `offset` on, a table for the slider on `sq`: every subset of
/// `mask` has at its magic index the slider's attacks for that occupancy.
pub open spec fn table_ok(
    sq: int,
    is_rook: bool,
    mask: u64,
    magic: u64,
    shift: u32,
    t: Seq<u64>,
    offset: int,
) -> bool {
    &&& 44 <= shift < 64
    &&& 0 <= offset
    &&& offset + slot_count(shift) <= t.len()
    &&& forall|s: u64|
        subset_of(s, mask) ==> t[offset + #[trigger] magic_index(s, magic, shift)]
            == slider_reach(sq, is_rook, s)
}

proof fn lemma_and_subset(x: u64, m: u64)
    ensures
        subset_of(x & m, m),
{
    assert((x & m) & !m == 0) by (bit_vector);
}

proof fn lemma_index_bound(x: u64, shift: u32)
    requires
        44 <= shift < 64,
    ensures
        (x >> shift) < (1u64 << ((64 - shift) as u32)),
        (1u64 << ((64 - shift) as u32)) <= 0x10_0000,
{
    assert(44 <= shift < 64 ==> ((x >> shift) < (1u64 << ((64 - shift) as u32)) && (1u64 << ((64
        - shift) as u32)) <= 0x10_0000)) by (bit_vector);
}

/// The generator state after `k` candidates (three draws each) from state `s`.
#[verifier::opaque]
pub open spec fn draws_state(s: u64, k: nat) -> u64
    decreases k,
{
    if k == 0 {
        s
    } else {
        rng_step(rng_step(rng_step(draws_state(s, (k - 1) as nat))))
    }
}

/// The `k`-th magic candidate drawn from state `s`.
pub open spec fn candidate(s: u64, k: nat) -> u64 {
    let st = draws_state(s, k);
    rng_out(rng_step(st)) & rng_out(rng_step(rng_step(st))) & rng_out(
        rng_step(rng_step(rng_step(st))),
    )
}

/// The shift of the slider's table: 64 less the bits of its mask.
pub open spec fn magic_shift(sq: int, is_rook: bool) -> u32 {
    (64 - crate::bitboard::popcount(slider_mask(sq, is_rook))) as u32
}

/// The slider's mask has between 1 and 20 bits, so its table can be built.
pub open spec fn magic_bits_ok(sq: int, is_rook: bool) -> bool {
    1 <= crate::bitboard::popcount(slider_mask(sq, is_rook)) <= 20
}

/// A candidate is taken when its product with the mask spreads at least six bits into
/// the top byte and no two subsets of the mask with different attacks share a slot.
pub open spec fn magic_passes(sq: int, is_rook: bool, magic: u64) -> bool {
    let mask = slider_mask(sq, is_rook);
    let shift = magic_shift(sq, is_rook);
    &&& crate::bitboard::popcount(vstd::wrapping::u64_specs::wrapping_mul(mask, magic) >> 56u64)
        >= 6
    &&& magic_separates(sq, is_rook, magic)
}

/// No two subsets of the slider's mask with different attacks share a slot.
pub open spec fn magic_separates(sq: int, is_rook: bool, magic: u64) -> bool {
    let mask = slider_mask(sq, is_rook);
    let shift = magic_shift(sq, is_rook);
    forall|s1: u64, s2: u64|
        #![trigger magic_index(s1, magic, shift), magic_index(s2, magic, shift)]
        subset_of(s1, mask) && subset_of(s2, mask) && magic_index(s1, magic, shift)
            == magic_index(s2, magic, shift) ==> slider_reach(sq, is_rook, s1) == slider_reach(
            sq,
            is_rook,
            s2,
        )
}

/// The first of the first `n` candidates from state `s` that is taken.
#[verifier::opaque]
pub open spec fn first_passing(sq: int, is_rook: bool, s: u64, n: nat) -> Option<nat>
    decreases n,
{
    if n == 0 {
        None
    } else {
        match first_passing(sq, is_rook, s, (n - 1) as nat) {
            Some(k) => Some(k),
            None => if magic_passes(sq, is_rook, candidate(s, (n - 1) as nat)) {
                Some((n - 1) as nat)
            } else {
                None
            },
        }
    }
}

/// Which candidate the search from state `s` takes, if any.
pub open spec fn magic_search(sq: int, is_rook: bool, s: u64) -> Option<nat> {
    if magic_bits_ok(sq, is_rook) {
        first_passing(sq, is_rook, s, MAGIC_TRIES as nat)
    } else {
        None
    }
}

/// The generator state the search from state `s` leaves behind.
pub open spec fn search_end_state(sq: int, is_rook: bool, s: u64) -> u64 {
    if !magic_bits_ok(sq, is_rook) {
        s
    } else {
        match first_passing(sq, is_rook, s, MAGIC_TRIES as nat) {
            Some(k) => draws_state(s, k + 1),
            None => draws_state(s, MAGIC_TRIES as nat),
        }
    }
}

/// The slots of a table from `offset` on that no subset of `mask` indexes hold 0.
pub open spec fn unhit_slots_empty(mask: u64, magic: u64, shift: u32, t: Seq<u64>, offset: int) -> bool {
    forall|i: int|
        0 <= i < slot_count(shift) && #[trigger] t[offset + i] != 0 ==> exists|s: u64|
            subset_of(s, mask) && magic_index(s, magic, shift) == i
}

proof fn lemma_first_passing_stays(sq: int, is_rook: bool, s: u64, n: nat, m: nat)
    requires
        n <= m,
        first_passing(sq, is_rook, s, n) is Some,
    ensures
        first_passing(sq, is_rook, s, m) == first_passing(sq, is_rook, s, n),
    decreases m,
{
    if n < m {
        lemma_first_passing_stays(sq, is_rook, s, n, (m - 1) as nat);
        reveal_with_fuel(first_passing, 1);
    }
}

proof fn lemma_search_steps(sq: int, is_rook: bool, s: u64, n: nat)
    ensures
        draws_state(s, 0) == s,
        first_passing(sq, is_rook, s, 0) is None,
        draws_state(s, n + 1) == rng_step(rng_step(rng_step(draws_state(s, n)))),
        first_passing(sq, is_rook, s, n + 1) == match first_passing(sq, is_rook, s, n) {
            Some(k) => Some(k),
            None => if magic_passes(sq, is_rook, candidate(s, n)) {
                Some(n)
            } else {
                None
            },
        },
{
    reveal_with_fuel(draws_state, 1);
    reveal_with_fuel(first_passing, 1);
}

/// Fills `table` for one candidate: each subset's attacks go to its slot, and the
/// candidate is refused (`false`) when two subsets with different attacks meet.
fn fill_magic_table(
    sq: Square,
    is_rook: bool,
    mask: Bb,
    magic: u64,
    shift: u32,
    subsets: &Vec<Bb>,
    attacks: &Vec<Bb>,
    table: &mut Vec<Bb>,
) -> (ok: bool)
    requires
        sq < 64,
        mask == slider_mask(sq as int, is_rook),
        shift == magic_shift(sq as int, is_rook),
        44 <= shift < 64,
        old(table).len() == slot_count(shift),
        attacks.len() == subsets.len(),
        forall|j: int| 0 <= j < subsets.len() ==> subset_of(#[trigger] subsets@[j], mask),
        forall|s: u64| subset_of(s, mask) ==> #[trigger] subsets@.contains(s),
        forall|j: int|
            0 <= j < subsets.len() ==> #[trigger] attacks@[j] == slider_reach(sq as int, is_rook, subsets@[j]),
        forall|j: int| 0 <= j < subsets.len() ==> #[trigger] attacks@[j] != 0,
    ensures
        final(table).len() == slot_count(shift),
        ok == magic_separates(sq as int, is_rook, magic),
        ok ==> table_ok(sq as int, is_rook, mask, magic, shift, final(table)@, 0),
        ok ==> unhit_slots_empty(mask, magic, shift, final(table)@, 0),
{
    let size = table.len();
    let mut k: usize = 0;
    while k < table.len()
        invariant
            table.len() == size,
            forall|i: int| 0 <= i < k ==> #[trigger] table@[i] == 0,
        decreases table.len() - k,
    {
        table.set(k, 0);
        k += 1;
    }
    let mut j: usize = 0;
    while j < subsets.len()
        invariant
            44 <= shift < 64,
            table.len() == size,
            size == slot_count(shift),
            j <= subsets.len(),
            attacks.len() == subsets.len(),
            forall|jj: int| 0 <= jj < subsets.len() ==> #[trigger] attacks@[jj] != 0,
            forall|jj: int|
                0 <= jj < subsets.len() ==> #[trigger] attacks@[jj] == slider_reach(
                    sq as int,
                    is_rook,
                    subsets@[jj],
                ),
            forall|jj: int| 0 <= jj < subsets.len() ==> subset_of(#[trigger] subsets@[jj], mask),
            mask == slider_mask(sq as int, is_rook),
            shift == magic_shift(sq as int, is_rook),
            forall|jj: int|
                0 <= jj < j ==> 0 <= #[trigger] magic_index(subsets@[jj], magic, shift) < size,
            forall|jj: int|
                0 <= jj < j ==> table@[#[trigger] magic_index(subsets@[jj], magic, shift)]
                    == attacks@[jj],
            forall|i: int|
                0 <= i < size && #[trigger] table@[i] != 0 ==> exists|jj: int|
                    0 <= jj < j && magic_index(subsets@[jj], magic, shift) == i,
        decreases subsets.len() - j,
    {
        let idx = (subsets[j].wrapping_mul(magic) >> shift) as usize;
        proof {
            lemma_index_bound(vstd::wrapping::u64_specs::wrapping_mul(subsets@[j as int], magic), shift);
            assert(idx == magic_index(subsets@[j as int], magic, shift));
        }
        if table[idx] == 0 {
            table.set(idx, attacks[j]);
        } else if table[idx] != attacks[j] {
            proof {
                let jj = choose|jj: int|
                    0 <= jj < j && magic_index(subsets@[jj], magic, shift) == idx as int;
                let s1 = subsets@[jj];
                let s2 = subsets@[j as int];
                assert(table@[magic_index(s1, magic, shift)] == attacks@[jj]);
                assert(magic_index(s1, magic, shift) == magic_index(s2, magic, shift));
                assert(slider_reach(sq as int, is_rook, s1) != slider_reach(sq as int, is_rook, s2));
                assert(subset_of(s1, mask) && subset_of(s2, mask));
            }
            return false;
        }
        j += 1;
    }
    proof {
        assert forall|s1: u64, s2: u64|
            subset_of(s1, mask) && subset_of(s2, mask) && #[trigger] magic_index(s1, magic, shift)
                == #[trigger] magic_index(s2, magic, shift) implies slider_reach(
            sq as int,
            is_rook,
            s1,
        ) == slider_reach(sq as int, is_rook, s2) by {
            assert(subsets@.contains(s1));
            assert(subsets@.contains(s2));
            let j1 = choose|jj: int| 0 <= jj < subsets.len() && subsets@[jj] == s1;
            let j2 = choose|jj: int| 0 <= jj < subsets.len() && subsets@[jj] == s2;
            assert(table@[magic_index(subsets@[j1], magic, shift)] == attacks@[j1]);
            assert(table@[magic_index(subsets@[j2], magic, shift)] == attacks@[j2]);
        }
        assert forall|i: int|
            0 <= i < slot_count(shift) && #[trigger] table@[0 + i] != 0 implies exists|s: u64|
                subset_of(s, mask) && magic_index(s, magic, shift) == i by {
            assert(table@[i] != 0);
            let jj = choose|jj: int|
                0 <= jj < subsets.len() && magic_index(subsets@[jj], magic, shift) == i;
            assert(subset_of(subsets@[jj], mask));
        }
        assert forall|s: u64| subset_of(s, mask) implies table@[0 + #[trigger] magic_index(
            s,
            magic,
            shift,
        )] == slider_reach(sq as int, is_rook, s) by {
            assert(subsets@.contains(s));
            let jj = choose|jj: int| 0 <= jj < subsets.len() && subsets@[jj] == s;
            assert(table@[magic_index(subsets@[jj], magic, shift)] == attacks@[jj]);
        }
    }
    true
}

/// Searches a magic multiplier for the slider on `sq`: one under which no two
/// subsets of the mask with different attacks share a slot. Returns the magic and
/// its table, or `None` when no candidate passed within `MAGIC_TRIES` draws.
pub fn find_magic(sq: Square, is_rook: bool, rng: &mut Rng) -> (r: Option<(u64, Vec<Bb>)>)
    requires
        sq < 64,
    ensures
        final(rng).0 == search_end_state(sq as int, is_rook, old(rng).0),
        r is Some <==> magic_search(sq as int, is_rook, old(rng).0) is Some,
        match r {
            Some((magic, table)) => {
                let mask = slider_mask(sq as int, is_rook);
                let shift = magic_shift(sq as int, is_rook);
                &&& magic == candidate(old(rng).0, magic_search(sq as int, is_rook, old(rng).0)->Some_0)
                &&& table_ok(sq as int, is_rook, mask, magic, shift, table@, 0)
                &&& table@.len() == slot_count(shift)
                &&& unhit_slots_empty(mask, magic, shift, table@, 0)
            },
            None => true,
        },
{
    let ghost s0 = rng.0;
    let mask = if is_rook {
        gen_rook_mask(sq)
    } else {
        gen_bishop_mask(sq)
    };
    let bits = bb_popcount(mask);
    if bits == 0 || bits > 20 {
        return None;
    }
    proof {
        lemma_search_steps(sq as int, is_rook, s0, 0);
    }
    let shift: u32 = 64 - bits;
    let size = (1u64 << bits) as usize;
    proof {
        lemma_index_bound(0, shift);
        assert((64 - shift) as u32 == bits);
    }
    let subsets = enumerate_subsets(mask);
    let mut attacks: Vec<Bb> = Vec::new();
    let mut i: usize = 0;
    while i < subsets.len()
        invariant
            sq < 64,
            i <= subsets.len(),
            attacks.len() == i,
            forall|j: int|
                0 <= j < i ==> #[trigger] attacks@[j] == slider_reach(
                    sq as int,
                    is_rook,
                    subsets@[j],
                ),
            forall|j: int| 0 <= j < i ==> #[trigger] attacks@[j] != 0,
        decreases subsets.len() - i,
    {
        let a = if is_rook {
            sliding_attacks_rook(sq, subsets[i])
        } else {
            sliding_attacks_bishop(sq, subsets[i])
        };
        proof {
            lemma_reach_nonzero(sq as int, is_rook, subsets@[i as int]);
        }
        attacks.push(a);
        i += 1;
    }
    let mut table: Vec<Bb> = Vec::new();
    while table.len() < size
        invariant
            table.len() <= size,
        decreases size - table.len(),
    {
        table.push(0);
    }
    let mut tries: u64 = 0;
    while tries < MAGIC_TRIES
        invariant
            sq < 64,
            mask == slider_mask(sq as int, is_rook),
            bits == crate::bitboard::popcount(mask),
            1 <= bits <= 20,
            magic_bits_ok(sq as int, is_rook),
            shift == 64 - bits,
            shift == magic_shift(sq as int, is_rook),
            size == slot_count(shift),
            table.len() == size,
            attacks.len() == subsets.len(),
            forall|j: int|
                0 <= j < subsets.len() ==> #[trigger] attacks@[j] == slider_reach(
                    sq as int,
                    is_rook,
                    subsets@[j],
                ),
            forall|j: int| 0 <= j < subsets.len() ==> #[trigger] attacks@[j] != 0,
            forall|j: int| 0 <= j < subsets.len() ==> subset_of(#[trigger] subsets@[j], mask),
            forall|s: u64| subset_of(s, mask) ==> #[trigger] subsets@.contains(s),
            s0 == old(rng).0,
            tries <= MAGIC_TRIES,
            rng.0 == draws_state(s0, tries as nat),
            first_passing(sq as int, is_rook, s0, tries as nat) is None,
        decreases MAGIC_TRIES - tries,
    {
        let ghost k0 = tries as nat;
        proof {
            lemma_search_steps(sq as int, is_rook, s0, k0);
        }
        tries = tries + 1;
        let magic = rng.sparse_random();
        proof {
            assert(magic == candidate(s0, k0));
            assert(rng.0 == draws_state(s0, tries as nat));
        }
        let spread = bb_popcount(mask.wrapping_mul(magic) >> 56);
        if spread >= 6 {
            let ok = fill_magic_table(sq, is_rook, mask, magic, shift, &subsets, &attacks, &mut table);
            if ok {
                proof {
                    assert(magic_passes(sq as int, is_rook, magic));
                    assert(first_passing(sq as int, is_rook, s0, tries as nat) == Some(k0));
                    lemma_first_passing_stays(sq as int, is_rook, s0, tries as nat, MAGIC_TRIES as nat);
                }
                return Some((magic, table));
            }
        }
        proof {
            assert(!magic_passes(sq as int, is_rook, magic));
        }
    }
    None
}

/// The magic lookup for one square; an entry that is not `found` has no table and
/// its lookups walk the rays instead.
#[derive(Clone, Copy)]
pub struct MagicEntry {
    pub mask: Bb,
    pub magic: u64,
    pub shift: u32,
    pub offset: usize,
    pub found: bool,
}

/// A found entry indexes a correct table for the slider on `sq` in `t`.
pub open spec fn entry_ok(e: MagicEntry, sq: int, is_rook: bool, t: Seq<u64>) -> bool {
    e.found ==> {
        &&& e.mask == slider_mask(sq, is_rook)
        &&& table_ok(sq, is_rook, e.mask, e.magic, e.shift, t, e.offset as int)
    }
}

proof fn lemma_entry_extend(e: MagicEntry, sq: int, is_rook: bool, t: Seq<u64>, t2: Seq<u64>)
    requires
        entry_ok(e, sq, is_rook, t),
        t.len() <= t2.len(),
        forall|i: int| 0 <= i < t.len() ==> #[trigger] t2[i] == t[i],
    ensures
        entry_ok(e, sq, is_rook, t2),
{
    if e.found {
        assert forall|s: u64| subset_of(s, e.mask) implies t2[e.offset as int
            + #[trigger] magic_index(s, e.magic, e.shift)] == slider_reach(sq, is_rook, s) by {
            lemma_index_bound(vstd::wrapping::u64_specs::wrapping_mul(s, e.magic), e.shift);
            assert(t2[e.offset as int + magic_index(s, e.magic, e.shift)] == t[e.offset as int
                + magic_index(s, e.magic, e.shift)]);
        }
    }
}

/// Finds the magic for one square and appends its table to `table`.
fn magic_entry(sq: Square, is_rook: bool, rng: &mut Rng, table: &mut Vec<Bb>) -> (e: MagicEntry)
    requires
        sq < 64,
    ensures
        entry_ok(e, sq as int, is_rook, final(table)@),
        old(table)@.len() <= final(table)@.len(),
        forall|i: int| 0 <= i < old(table)@.len() ==> #[trigger] final(table)@[i] == old(table)@[i],
        final(rng).0 == search_end_state(sq as int, is_rook, old(rng).0),
        e.mask == slider_mask(sq as int, is_rook),
        e.found <==> magic_search(sq as int, is_rook, old(rng).0) is Some,
        e.found ==> {
            &&& e.magic == candidate(old(rng).0, magic_search(sq as int, is_rook, old(rng).0)->Some_0)
            &&& e.shift == magic_shift(sq as int, is_rook)
            &&& e.offset == old(table)@.len()
            &&& final(table)@.len() == old(table)@.len() + slot_count(e.shift)
            &&& unhit_slots_empty(e.mask, e.magic, e.shift, final(table)@, e.offset as int)
        },
        !e.found ==> e.magic == 0 && e.shift == 0 && e.offset == 0 && final(table)@ == old(table)@,
{
    let mask = if is_rook {
        gen_rook_mask(sq)
    } else {
        gen_bishop_mask(sq)
    };
    let bits = bb_popcount(mask);
    proof {
        crate::bitboard::lemma_popcount_bound(mask);
    }
    match find_magic(sq, is_rook, rng) {
        Some((magic, found_table)) => {
            let offset = table.len();
            let mut found_table = found_table;
            let ghost ft = found_table@;
            table.append(&mut found_table);
            let shift: u32 = 64 - bits;
            let e = MagicEntry { mask, magic, shift, offset, found: true };
            proof {
                assert forall|s: u64| subset_of(s, mask) implies table@[offset as int
                    + #[trigger] magic_index(s, magic, shift)] == slider_reach(sq as int, is_rook, s) by {
                    lemma_index_bound(vstd::wrapping::u64_specs::wrapping_mul(s, magic), shift);
                    assert(table@[offset as int + magic_index(s, magic, shift)] == ft[0
                        + magic_index(s, magic, shift)]);
                }
                assert forall|i: int|
                    0 <= i < slot_count(shift) && #[trigger] table@[offset as int + i] != 0 implies exists|s: u64|
                        subset_of(s, mask) && magic_index(s, magic, shift) == i by {
                    assert(table@[offset as int + i] == ft[0 + i]);
                }
            }
            e
        },
        None => MagicEntry { mask, magic: 0, shift: 0, offset: 0, found: false },
    }
}

/// Precomputed attacks: knight and king sets per square, and magic-indexed tables for
/// rooks and bishops.
pub struct AttackTables {
    pub knight: [Bb; 64],
    pub king: [Bb; 64],
    pub rook_magics: [MagicEntry; 64],
    pub bishop_magics: [MagicEntry; 64],
    pub rook_table: Vec<Bb>,
    pub bishop_table: Vec<Bb>,
}

impl AttackTables {
    /// Every entry of both slider tables is correct.
    pub open spec fn sliders_ok(&self) -> bool {
        &&& forall|s: int| 0 <= s < 64 ==> entry_ok(#[trigger] self.rook_magics[s], s, true, self.rook_table@)
        &&& forall|s: int| 0 <= s < 64 ==> entry_ok(#[trigger] self.bishop_magics[s], s, false, self.bishop_table@)
    }

    /// The knight and king sets are the leaper attacks, and the slider tables are
    /// correct.
    pub open spec fn wf(&self) -> bool {
        &&& forall|s: int, t: int| 0 <= s < 64 ==> (#[trigger] bit(self.knight[s], t) <==> knight_hop(s, t))
        &&& forall|s: int, t: int| 0 <= s < 64 ==> (#[trigger] bit(self.king[s], t) <==> king_step(s, t))
        &&& self.sliders_ok()
    }

    pub fn init() -> (t: Self)
        ensures
            t.wf(),
    {
        let mut knight = [0u64; 64];
        let mut king = [0u64; 64];
        let mut sq: u8 = 0;
        while sq < 64
            invariant
                sq <= 64,
                forall|s: int, t: int| 0 <= s < sq ==> (#[trigger] bit(knight[s], t) <==> knight_hop(s, t)),
                forall|s: int, t: int| 0 <= s < sq ==> (#[trigger] bit(king[s], t) <==> king_step(s, t)),
            decreases 64 - sq,
        {
            knight[sq as usize] = gen_knight_attacks(sq);
            king[sq as usize] = gen_king_attacks(sq);
            sq += 1;
        }
        let mut rng = Rng(0x12345678DEADBEEF);
        let none = MagicEntry { mask: 0, magic: 0, shift: 0, offset: 0, found: false };
        let mut rook_magics = [none; 64];
        let mut bishop_magics = [none; 64];
        let mut rook_table: Vec<Bb> = Vec::new();
        let mut bishop_table: Vec<Bb> = Vec::new();
        let mut sq: u8 = 0;
        while sq < 64
            invariant
                sq <= 64,
                forall|s: int| 0 <= s < 64 ==> entry_ok(#[trigger] rook_magics[s], s, true, rook_table@),
                forall|s: int| 0 <= s < 64 ==> entry_ok(#[trigger] bishop_magics[s], s, false, bishop_table@),
            decreases 64 - sq,
        {
            let ghost rt = rook_table@;
            let ghost bt = bishop_table@;
            let re = magic_entry(sq, true, &mut rng, &mut rook_table);
            let be = magic_entry(sq, false, &mut rng, &mut bishop_table);
            proof {
                assert forall|s: int| 0 <= s < 64 implies entry_ok(#[trigger] rook_magics[s], s, true, rook_table@) by {
                    lemma_entry_extend(rook_magics[s], s, true, rt, rook_table@);
                }
                assert forall|s: int| 0 <= s < 64 implies entry_ok(#[trigger] bishop_magics[s], s, false, bishop_table@) by {
                    lemma_entry_extend(bishop_magics[s], s, false, bt, bishop_table@);
                }
            }
            rook_magics[sq as usize] = re;
            bishop_magics[sq as usize] = be;
            sq += 1;
        }
        AttackTables { knight, king, rook_magics, bishop_magics, rook_table, bishop_table }
    }

    pub fn rook_attacks(&self, sq: Square, occ: Bb) -> (r: Bb)
        requires
            self.wf(),
            sq < 64,
        ensures
            r == rook_reach(sq as int, occ),
    {
        let e = self.rook_magics[sq as usize];
        if e.found {
            let sub = occ & e.mask;
            let idx = (sub.wrapping_mul(e.magic) >> e.shift) as usize;
            proof {
                assert(entry_ok(self.rook_magics[sq as int], sq as int, true, self.rook_table@));
                lemma_rook_relevant(sq as int, occ);
                lemma_and_subset(occ, e.mask);
                lemma_index_bound(vstd::wrapping::u64_specs::wrapping_mul(sub, e.magic), e.shift);
                assert(idx == magic_index(sub, e.magic, e.shift));
                assert(idx < slot_count(e.shift));
                assert(e.offset + idx < self.rook_table@.len());
                assert(e.offset + idx < self.rook_table.len());
            }
            self.rook_table[e.offset + idx]
        } else {
            sliding_attacks_rook(sq, occ)
        }
    }

    pub fn bishop_attacks(&self, sq: Square, occ: Bb) -> (r: Bb)
        requires
            self.wf(),
            sq < 64,
        ensures
            r == bishop_reach(sq as int, occ),
    {
        let e = self.bishop_magics[sq as usize];
        if e.found {
            let sub = occ & e.mask;
            let idx = (sub.wrapping_mul(e.magic) >> e.shift) as usize;
            proof {
                assert(entry_ok(self.bishop_magics[sq as int], sq as int, false, self.bishop_table@));
                lemma_bishop_relevant(sq as int, occ);
                lemma_and_subset(occ, e.mask);
                lemma_index_bound(vstd::wrapping::u64_specs::wrapping_mul(sub, e.magic), e.shift);
                assert(idx == magic_index(sub, e.magic, e.shift));
                assert(idx < slot_count(e.shift));
                assert(e.offset + idx < self.bishop_table@.len());
                assert(e.offset + idx < self.bishop_table.len());
            }
            self.bishop_table[e.offset + idx]
        } else {
            sliding_attacks_bishop(sq, occ)
        }
    }

    pub fn queen_attacks(&self, sq: Square, occ: Bb) -> (r: Bb)
        requires
            self.wf(),
            sq < 64,
        ensures
            r == rook_reach(sq as int, occ) | bishop_reach(sq as int, occ),
    {
        self.rook_attacks(sq, occ) | self.bishop_attacks(sq, occ)
    }
}

} // verus!
