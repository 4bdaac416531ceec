use vstd::prelude::*;
use crate::bitboard::{bit, bb, group_bit_lemmas};
use crate::types::{
    Bb, Square, BB_FILE_A, BB_FILE_B, BB_FILE_G, BB_FILE_H, file_of, rank_of,
};

verus! {

/// Square `t` is in the file mask `m` exactly when its file is `f`.
pub proof fn lemma_file_masks(t: int)
    requires
        0 <= t < 64,
    ensures
        bit(BB_FILE_A, t) == (file_of(t) == 0),
        bit(BB_FILE_B, t) == (file_of(t) == 1),
        bit(BB_FILE_G, t) == (file_of(t) == 6),
        bit(BB_FILE_H, t) == (file_of(t) == 7),
{
    let s = t as u64;
    assert(s < 64 ==> (((0x0101_0101_0101_0101u64 >> s) & 1 == 1) == (s % 8 == 0) && ((
    0x0202_0202_0202_0202u64 >> s) & 1 == 1) == (s % 8 == 1) && ((0x4040_4040_4040_4040u64 >> s)
        & 1 == 1) == (s % 8 == 6) && ((0x8080_8080_8080_8080u64 >> s) & 1 == 1) == (s % 8 == 7)))
        by (bit_vector);
}

pub open spec fn abs_diff(a: int, b: int) -> int {
    if a >= b {
        a - b
    } else {
        b - a
    }
}

/// A knight on `s` attacks `t`.
pub open spec fn knight_hop(s: int, t: int) -> bool {
    let df = abs_diff(file_of(t), file_of(s));
    let dr = abs_diff(rank_of(t), rank_of(s));
    0 <= t < 64 && ((df == 1 && dr == 2) || (df == 2 && dr == 1))
}

/// A king on `s` attacks `t`.
pub open spec fn king_step(s: int, t: int) -> bool {
    let df = abs_diff(file_of(t), file_of(s));
    let dr = abs_diff(rank_of(t), rank_of(s));
    0 <= t < 64 && df <= 1 && dr <= 1 && t != s
}

/// A pawn of the given color on `s` attacks `t` (white pawns capture upward).
pub open spec fn pawn_hit(white: bool, s: int, t: int) -> bool {
    0 <= t < 64 && abs_diff(file_of(t), file_of(s)) == 1 && if white {
        rank_of(t) == rank_of(s) + 1
    } else {
        rank_of(t) == rank_of(s) - 1
    }
}

/// The knight targets of `sq` as offsets: up 17, 15, 10, 6 or down 17, 15, 10, 6, with
/// the file wrap-arounds masked out.
pub open spec fn knight_offsets(sq: int, t: int) -> bool {
    ||| t == sq + 17 && file_of(t) != 0
    ||| t == sq + 15 && file_of(t) != 7
    ||| t == sq + 10 && file_of(t) != 0 && file_of(t) != 1
    ||| t == sq + 6 && file_of(t) != 6 && file_of(t) != 7
    ||| t == sq - 17 && file_of(t) != 7
    ||| t == sq - 15 && file_of(t) != 0
    ||| t == sq - 10 && file_of(t) != 6 && file_of(t) != 7
    ||| t == sq - 6 && file_of(t) != 0 && file_of(t) != 1
}

pub open spec fn king_offsets(sq: int, t: int) -> bool {
    ||| t == sq + 8
    ||| t == sq - 8
    ||| t == sq + 1 && file_of(t) != 0
    ||| t == sq - 1 && file_of(t) != 7
    ||| t == sq + 9 && file_of(t) != 0
    ||| t == sq - 9 && file_of(t) != 7
    ||| t == sq + 7 && file_of(t) != 7
    ||| t == sq - 7 && file_of(t) != 0
}

proof fn lemma_knight_geometry(sq: int, t: int)
    requires
        0 <= sq < 64,
        0 <= t < 64,
    ensures
        knight_offsets(sq, t) == knight_hop(sq, t),
{
    let f = sq % 8;
    let r = sq / 8;
    let f2 = t % 8;
    let r2 = t / 8;
    assert(sq == 8 * r + f);
    assert(t == 8 * r2 + f2);
}

proof fn lemma_king_geometry(sq: int, t: int)
    requires
        0 <= sq < 64,
        0 <= t < 64,
    ensures
        king_offsets(sq, t) == king_step(sq, t),
{
    let f = sq % 8;
    let r = sq / 8;
    let f2 = t % 8;
    let r2 = t / 8;
    assert(sq == 8 * r + f);
    assert(t == 8 * r2 + f2);
}

proof fn lemma_knight_bits(sq: u64, t: u64, atk: u64)
    requires
        sq < 64,
        t < 64,
        atk == ((((((((0u64 | (((1u64 << sq) << 17u64) & !0x0101_0101_0101_0101u64)) | (((1u64 << sq) << 15u64) & !0x8080_8080_8080_8080u64)) | (((1u64 << sq) << 10u64) & !(0x0101_0101_0101_0101u64 | 0x0202_0202_0202_0202u64))) | (((1u64 << sq) << 6u64) & !(0x4040_4040_4040_4040u64 | 0x8080_8080_8080_8080u64))) | (((1u64 << sq) >> 17u64) & !0x8080_8080_8080_8080u64)) | (((1u64 << sq) >> 15u64) & !0x0101_0101_0101_0101u64)) | (((1u64 << sq) >> 10u64) & !(0x4040_4040_4040_4040u64 | 0x8080_8080_8080_8080u64))) | (((1u64 << sq) >> 6u64) & !(0x0101_0101_0101_0101u64 | 0x0202_0202_0202_0202u64))),
    ensures
        ((atk >> t) & 1 == 1) == ({||| t == sq + 17 && t % 8 != 0
        ||| t == sq + 15 && t % 8 != 7
        ||| t == sq + 10 && t % 8 != 0 && t % 8 != 1
        ||| t == sq + 6 && t % 8 != 6 && t % 8 != 7
        ||| t + 17 == sq && t % 8 != 7
        ||| t + 15 == sq && t % 8 != 0
        ||| t + 10 == sq && t % 8 != 6 && t % 8 != 7
        ||| t + 6 == sq && t % 8 != 0 && t % 8 != 1}),
{
    assert(((atk >> t) & 1 == 1) == ({||| t == sq + 17 && t % 8 != 0
        ||| t == sq + 15 && t % 8 != 7
        ||| t == sq + 10 && t % 8 != 0 && t % 8 != 1
        ||| t == sq + 6 && t % 8 != 6 && t % 8 != 7
        ||| t + 17 == sq && t % 8 != 7
        ||| t + 15 == sq && t % 8 != 0
        ||| t + 10 == sq && t % 8 != 6 && t % 8 != 7
        ||| t + 6 == sq && t % 8 != 0 && t % 8 != 1})) by (bit_vector)
        requires
            sq < 64,
            t < 64,
            atk == ((((((((0u64 | (((1u64 << sq) << 17u64) & !0x0101_0101_0101_0101u64)) | (((1u64 << sq) << 15u64) & !0x8080_8080_8080_8080u64)) | (((1u64 << sq) << 10u64) & !(0x0101_0101_0101_0101u64 | 0x0202_0202_0202_0202u64))) | (((1u64 << sq) << 6u64) & !(0x4040_4040_4040_4040u64 | 0x8080_8080_8080_8080u64))) | (((1u64 << sq) >> 17u64) & !0x8080_8080_8080_8080u64)) | (((1u64 << sq) >> 15u64) & !0x0101_0101_0101_0101u64)) | (((1u64 << sq) >> 10u64) & !(0x4040_4040_4040_4040u64 | 0x8080_8080_8080_8080u64))) | (((1u64 << sq) >> 6u64) & !(0x0101_0101_0101_0101u64 | 0x0202_0202_0202_0202u64))),
    ;
}

proof fn lemma_king_bits(sq: u64, t: u64, atk: u64)
    requires
        sq < 64,
        t < 64,
        atk == ((((((((0u64 | ((1u64 << sq) << 8u64)) | ((1u64 << sq) >> 8u64)) | (((1u64 << sq) << 1u64) & !0x0101_0101_0101_0101u64)) | (((1u64 << sq) >> 1u64) & !0x8080_8080_8080_8080u64)) | (((1u64 << sq) << 9u64) & !0x0101_0101_0101_0101u64)) | (((1u64 << sq) >> 9u64) & !0x8080_8080_8080_8080u64)) | (((1u64 << sq) << 7u64) & !0x8080_8080_8080_8080u64)) | (((1u64 << sq) >> 7u64) & !0x0101_0101_0101_0101u64)),
    ensures
        ((atk >> t) & 1 == 1) == ({||| t == sq + 8
        ||| t + 8 == sq
        ||| t == sq + 1 && t % 8 != 0
        ||| t + 1 == sq && t % 8 != 7
        ||| t == sq + 9 && t % 8 != 0
        ||| t + 9 == sq && t % 8 != 7
        ||| t == sq + 7 && t % 8 != 7
        ||| t + 7 == sq && t % 8 != 0}),
{
    assert(((atk >> t) & 1 == 1) == ({||| t == sq + 8
        ||| t + 8 == sq
        ||| t == sq + 1 && t % 8 != 0
        ||| t + 1 == sq && t % 8 != 7
        ||| t == sq + 9 && t % 8 != 0
        ||| t + 9 == sq && t % 8 != 7
        ||| t == sq + 7 && t % 8 != 7
        ||| t + 7 == sq && t % 8 != 0})) by (bit_vector)
        requires
            sq < 64,
            t < 64,
            atk == ((((((((0u64 | ((1u64 << sq) << 8u64)) | ((1u64 << sq) >> 8u64)) | (((1u64 << sq) << 1u64) & !0x0101_0101_0101_0101u64)) | (((1u64 << sq) >> 1u64) & !0x8080_8080_8080_8080u64)) | (((1u64 << sq) << 9u64) & !0x0101_0101_0101_0101u64)) | (((1u64 << sq) >> 9u64) & !0x8080_8080_8080_8080u64)) | (((1u64 << sq) << 7u64) & !0x8080_8080_8080_8080u64)) | (((1u64 << sq) >> 7u64) & !0x0101_0101_0101_0101u64)),
    ;
}

pub fn gen_knight_attacks(sq: Square) -> (atk: Bb)
    requires
        sq < 64,
    ensures
        forall|t: int| bit(atk, t) <==> knight_hop(sq as int, t),
{
    let bb_sq = bb(sq);
    let mut atk = 0u64;
    atk = atk | ((bb_sq << 17) & !BB_FILE_A);
    atk = atk | ((bb_sq << 15) & !BB_FILE_H);
    atk = atk | ((bb_sq << 10) & !(BB_FILE_A | BB_FILE_B));
    atk = atk | ((bb_sq << 6) & !(BB_FILE_G | BB_FILE_H));
    atk = atk | ((bb_sq >> 17) & !BB_FILE_H);
    atk = atk | ((bb_sq >> 15) & !BB_FILE_A);
    atk = atk | ((bb_sq >> 10) & !(BB_FILE_G | BB_FILE_H));
    atk = atk | ((bb_sq >> 6) & !(BB_FILE_A | BB_FILE_B));
    proof {
        assert forall|t: int| bit(atk, t) <==> knight_hop(sq as int, t) by {
            if 0 <= t < 64 {
                lemma_knight_bits(sq as u64, t as u64, atk);
                lemma_knight_geometry(sq as int, t);
            }
        }
    }
    atk
}

pub fn gen_king_attacks(sq: Square) -> (atk: Bb)
    requires
        sq < 64,
    ensures
        forall|t: int| bit(atk, t) <==> king_step(sq as int, t),
{
    let bb_sq = bb(sq);
    let mut atk = 0u64;
    atk = atk | (bb_sq << 8);
    atk = atk | (bb_sq >> 8);
    atk = atk | ((bb_sq << 1) & !BB_FILE_A);
    atk = atk | ((bb_sq >> 1) & !BB_FILE_H);
    atk = atk | ((bb_sq << 9) & !BB_FILE_A);
    atk = atk | ((bb_sq >> 9) & !BB_FILE_H);
    atk = atk | ((bb_sq << 7) & !BB_FILE_H);
    atk = atk | ((bb_sq >> 7) & !BB_FILE_A);
    proof {
        assert forall|t: int| bit(atk, t) <==> king_step(sq as int, t) by {
            if 0 <= t < 64 {
                lemma_king_bits(sq as u64, t as u64, atk);
                lemma_king_geometry(sq as int, t);
            }
        }
    }
    atk
}

/// The squares that knights on `sq` attack.
pub fn knight_attacks(sq: Square) -> (atk: Bb)
    requires
        sq < 64,
    ensures
        forall|t: int| bit(atk, t) <==> knight_hop(sq as int, t),
{
    gen_knight_attacks(sq)
}

/// The squares that a king on `sq` attacks.
pub fn king_attacks(sq: Square) -> (atk: Bb)
    requires
        sq < 64,
    ensures
        forall|t: int| bit(atk, t) <==> king_step(sq as int, t),
{
    gen_king_attacks(sq)
}

/// The squares that the white pawns of `pawns` attack.
pub fn pawn_attacks_white(pawns: Bb) -> (atk: Bb)
    ensures
        atk == ((pawns << 9u64) & !BB_FILE_A) | ((pawns << 7u64) & !BB_FILE_H),
        forall|t: int|
            bit(atk, t) <==> (0 <= t < 64 && exists|s: int| bit(pawns, s) && pawn_hit(true, s, t)),
{
    broadcast use group_bit_lemmas;

    let atk = ((pawns << 9) & !BB_FILE_A) | ((pawns << 7) & !BB_FILE_H);
    proof {
        assert forall|t: int|
            bit(atk, t) <==> (0 <= t < 64 && exists|s: int| bit(pawns, s) && pawn_hit(true, s, t))
            by {
            if 0 <= t < 64 {
                lemma_file_masks(t);
                if exists|s: int| bit(pawns, s) && pawn_hit(true, s, t) {
                    let s = choose|s: int| bit(pawns, s) && pawn_hit(true, s, t);
                    assert(t == s + 9 || t == s + 7);
                }
                if bit(atk, t) {
                    if bit((pawns << 9) & !BB_FILE_A, t) {
                        assert(pawn_hit(true, t - 9, t));
                    } else {
                        assert(pawn_hit(true, t - 7, t));
                    }
                }
            }
        }
    }
    atk
}

/// The squares that the black pawns of `pawns` attack.
pub fn pawn_attacks_black(pawns: Bb) -> (atk: Bb)
    ensures
        atk == ((pawns >> 7u64) & !BB_FILE_A) | ((pawns >> 9u64) & !BB_FILE_H),
        forall|t: int|
            bit(atk, t) <==> (0 <= t < 64 && exists|s: int| bit(pawns, s) && pawn_hit(false, s, t)),
{
    broadcast use group_bit_lemmas;

    let atk = ((pawns >> 7) & !BB_FILE_A) | ((pawns >> 9) & !BB_FILE_H);
    proof {
        assert forall|t: int|
            bit(atk, t) <==> (0 <= t < 64 && exists|s: int| bit(pawns, s) && pawn_hit(false, s, t))
            by {
            if 0 <= t < 64 {
                lemma_file_masks(t);
                if exists|s: int| bit(pawns, s) && pawn_hit(false, s, t) {
                    let s = choose|s: int| bit(pawns, s) && pawn_hit(false, s, t);
                    assert(t == s - 9 || t == s - 7);
                }
                if bit(atk, t) {
                    if bit((pawns >> 7) & !BB_FILE_A, t) {
                        assert(pawn_hit(false, t + 7, t));
                    } else {
                        assert(pawn_hit(false, t + 9, t));
                    }
                }
            }
        }
    }
    atk
}

} // verus!

verus! {

pub open spec fn on_board(r: int, f: int) -> bool {
    0 <= r < 8 && 0 <= f < 8
}

/// The squares a slider reaches walking from `(r, f)` in direction `(dr, df)`, up to and
/// including the first occupied square, at most `fuel` steps.
pub open spec fn ray(r: int, f: int, dr: int, df: int, occ: u64, fuel: nat) -> u64
    decreases fuel,
{
    if fuel == 0 || !on_board(r, f) {
        0
    } else if bit(occ, r * 8 + f) {
        1u64 << ((r * 8 + f) as u64)
    } else {
        (1u64 << ((r * 8 + f) as u64)) | ray(r + dr, f + df, dr, df, occ, (fuel - 1) as nat)
    }
}

/// The ray from `sq` in direction `(dr, df)`, excluding `sq` itself.
pub open spec fn ray_from(sq: int, dr: int, df: int, occ: u64) -> u64 {
    ray(rank_of(sq) + dr, file_of(sq) + df, dr, df, occ, 8)
}

/// The squares a rook on `sq` attacks with the occupancy `occ`.
pub open spec fn rook_reach(sq: int, occ: u64) -> u64 {
    ray_from(sq, 0, 1, occ) | ray_from(sq, 0, -1, occ) | ray_from(sq, 1, 0, occ) | ray_from(
        sq,
        -1,
        0,
        occ,
    )
}

/// The squares a bishop on `sq` attacks with the occupancy `occ`.
pub open spec fn bishop_reach(sq: int, occ: u64) -> u64 {
    ray_from(sq, 1, 1, occ) | ray_from(sq, 1, -1, occ) | ray_from(sq, -1, 1, occ) | ray_from(
        sq,
        -1,
        -1,
        occ,
    )
}

pub open spec fn unit_direction(dr: int, df: int) -> bool {
    -1 <= dr <= 1 && -1 <= df <= 1 && (dr != 0 || df != 0)
}

proof fn lemma_or_assoc(a: u64, b: u64, c: u64)
    ensures
        (a | b) | c == a | (b | c),
        a | 0 == a,
        0 | a == a,
{
    assert((a | b) | c == a | (b | c) && a | 0 == a && 0 | a == a) by (bit_vector);
}

/// Walks one ray from `sq` (the classical, table-free slider attack).
fn slide(sq: Square, occ: Bb, dr: i32, df: i32) -> (atk: Bb)
    requires
        sq < 64,
        unit_direction(dr as int, df as int),
    ensures
        atk == ray_from(sq as int, dr as int, df as int, occ),
{
    let r = (sq / 8) as i32;
    let f = (sq % 8) as i32;
    let mut atk = 0u64;
    let mut cr = r + dr;
    let mut cf = f + df;
    let ghost mut k: int = 0;
    let ghost mut fuel: nat = 8;
    proof {
        lemma_or_assoc(ray_from(sq as int, dr as int, df as int, occ), 0, 0);
        assert forall|x: u64| #[trigger] (x | 0u64) == x by {
            lemma_or_assoc(x, 0, 0);
        }
        assert((k + 1) * dr == dr) by (nonlinear_arith)
            requires
                k == 0,
        ;
        assert((k + 1) * df == df) by (nonlinear_arith)
            requires
                k == 0,
        ;
        assert(r == rank_of(sq as int) && f == file_of(sq as int));
        assert(atk | ray(cr as int, cf as int, dr as int, df as int, occ, fuel) == ray_from(
            sq as int,
            dr as int,
            df as int,
            occ,
        ));
    }
    while cr >= 0 && cr <= 7 && cf >= 0 && cf <= 7
        invariant_except_break
            0 <= r < 8,
            0 <= f < 8,
            r == rank_of(sq as int),
            f == file_of(sq as int),
            unit_direction(dr as int, df as int),
            cr == r + (k + 1) * dr,
            cf == f + (k + 1) * df,
            0 <= k,
            fuel == 8 - k,
            forall|x: u64| #[trigger] (x | 0u64) == x,
            atk | ray(cr as int, cf as int, dr as int, df as int, occ, fuel) == ray_from(
                sq as int,
                dr as int,
                df as int,
                occ,
            ),
        ensures
            atk == ray_from(sq as int, dr as int, df as int, occ),
        decreases 8 - k,
    {
        proof {
            assert((k + 1) * dr == if dr == 1 {
                k + 1
            } else if dr == -1 {
                -(k + 1)
            } else {
                0
            }) by (nonlinear_arith)
                requires
                    -1 <= dr <= 1,
            ;
            assert((k + 1) * df == if df == 1 {
                k + 1
            } else if df == -1 {
                -(k + 1)
            } else {
                0
            }) by (nonlinear_arith)
                requires
                    -1 <= df <= 1,
            ;
            if dr == 1 {
                assert(cr == r + k + 1);
            } else if dr == -1 {
                assert(cr == r - k - 1);
            } else if df == 1 {
                assert(cf == f + k + 1);
            } else {
                assert(cf == f - k - 1);
            }
            assert(k < 7);
        }
        let s = (cr * 8 + cf) as u64;
        let b = 1u64 << s;
        let ghost rest = ray((cr + dr) as int, (cf + df) as int, dr as int, df as int, occ, (fuel
            - 1) as nat);
        if (occ >> s) & 1 == 1 {
            proof {
                assert(bit(occ, cr * 8 + cf));
            }
            atk = atk | b;
            break;
        }
        proof {
            assert(!bit(occ, cr * 8 + cf));
            lemma_or_assoc(atk, b, rest);
            assert((k + 2) * dr == (k + 1) * dr + dr) by (nonlinear_arith);
            assert((k + 2) * df == (k + 1) * df + df) by (nonlinear_arith);
        }
        atk = atk | b;
        cr = cr + dr;
        cf = cf + df;
        proof {
            k = k + 1;
            fuel = (fuel - 1) as nat;
        }
    }
    proof {
        if !(cr >= 0 && cr <= 7 && cf >= 0 && cf <= 7) {
            lemma_or_assoc(atk, 0, 0);
        }
    }
    atk
}

pub fn sliding_attacks_rook(sq: Square, occ: Bb) -> (atk: Bb)
    requires
        sq < 64,
    ensures
        atk == rook_reach(sq as int, occ),
{
    slide(sq, occ, 0, 1) | slide(sq, occ, 0, -1) | slide(sq, occ, 1, 0) | slide(sq, occ, -1, 0)
}

pub fn sliding_attacks_bishop(sq: Square, occ: Bb) -> (atk: Bb)
    requires
        sq < 64,
    ensures
        atk == bishop_reach(sq as int, occ),
{
    slide(sq, occ, 1, 1) | slide(sq, occ, 1, -1) | slide(sq, occ, -1, 1) | slide(sq, occ, -1, -1)
}

/// The squares a bishop on `sq` attacks, blockers included.
pub fn bishop_attacks(sq: Square, occ: Bb) -> (atk: Bb)
    requires
        sq < 64,
    ensures
        atk == bishop_reach(sq as int, occ),
{
    sliding_attacks_bishop(sq, occ)
}

/// The squares a rook on `sq` attacks, blockers included.
pub fn rook_attacks(sq: Square, occ: Bb) -> (atk: Bb)
    requires
        sq < 64,
    ensures
        atk == rook_reach(sq as int, occ),
{
    sliding_attacks_rook(sq, occ)
}

} // verus!
