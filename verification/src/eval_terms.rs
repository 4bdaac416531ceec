use vstd::prelude::*;
use crate::bitboard::{bit, group_bit_lemmas};

use crate::types::{Bb, Color, Square, BB_FILES, BB_RANKS, file_of, rank_of, sq_file, sq_rank};

verus! {

// ---------------------------------------------------------------- tuning constants

/// Bishop pair bonus (mg, eg).
pub const BISHOP_PAIR_BONUS: (i32, i32) = (30, 50);
/// Rook on a file without pawns.
pub const ROOK_OPEN_FILE_BONUS: (i32, i32) = (20, 10);
/// Rook on a file without own pawns.
pub const ROOK_SEMI_OPEN_FILE_BONUS: (i32, i32) = (10, 5);
/// Rook on its seventh rank.
pub const ROOK_ON_SEVENTH_BONUS: (i32, i32) = (20, 30);
/// Knight outpost on ranks 4 to 6 out of reach of enemy pawns, with or without
/// the support of an own pawn.
pub const OUTPOST_SUPPORTED: i32 = 20;
pub const OUTPOST_UNSUPPORTED: i32 = 10;
/// The side to move's bonus.
pub const TEMPO_BONUS: i32 = 10;
/// Per pawn on a file with more than one own pawn.
pub const DOUBLED_PAWN_PENALTY: (i32, i32) = (-5, -10);
/// A pawn without own pawns on the adjacent files.
pub const ISOLATED_PAWN_PENALTY: (i32, i32) = (-10, -20);
/// A pawn whose advance square an enemy pawn attacks, without support behind.
pub const BACKWARD_PAWN_PENALTY: (i32, i32) = (-8, -12);
/// Per pawn defended by an own pawn.
pub const PAWN_CHAIN_BONUS: (i32, i32) = (3, 5);
/// Passed pawn bonus by advancement (7 minus the distance to promotion).
pub const PASSED_PAWN_BONUS_MG: [i32; 8] = [0, 0, 5, 10, 20, 40, 70, 0];
pub const PASSED_PAWN_BONUS_EG: [i32; 8] = [0, 5, 10, 20, 40, 80, 120, 0];
/// Pawn shield: per shielding pawn, minus a base penalty.
pub const PAWN_SHIELD_PER_PAWN: i32 = 10;
pub const PAWN_SHIELD_BASE_PENALTY: i32 = 30;
/// King zone attack units by attacking piece type.
pub const KING_ATTACK_WEIGHT_KNIGHT: i32 = 2;
pub const KING_ATTACK_WEIGHT_BISHOP: i32 = 2;
pub const KING_ATTACK_WEIGHT_ROOK: i32 = 3;
pub const KING_ATTACK_WEIGHT_QUEEN: i32 = 5;
/// King safety penalty by attack units: (largest units, penalty).
pub const KING_SAFETY_TABLE: [(i32, i32); 7] = [
    (2, 0),
    (5, 10),
    (8, 25),
    (11, 50),
    (15, 80),
    (20, 120),
    (2147483647, 160),
];
/// Rook behind a passed pawn (the Tarrasch rule).
pub const ROOK_BEHIND_PASSER_BONUS: (i32, i32) = (10, 20);
/// Endgame bonus per step of the king towards the centre.
pub const KING_CENTRALIZATION_EG: i32 = 10;
/// Passed pawn with an own pawn beside it that no enemy pawn can stop.
pub const CONNECTED_PASSER_BONUS: (i32, i32) = (10, 20);
/// Passed pawn with nothing on the squares ahead of it.
pub const PASSER_PATH_CLEAR_BONUS: (i32, i32) = (5, 20);
/// Endgame bonus per step the own king is near a passed pawn.
pub const PASSER_KING_PROXIMITY_EG: i32 = 5;
/// Endgame bonus per step the enemy king is far from a passed pawn.
pub const PASSER_ENEMY_KING_DIST_EG: i32 = 5;

// ---------------------------------------------------------------- board masks

/// Square `s` is on file `f`: the bits of the file masks.
pub proof fn lemma_file_rank_masks(s: int)
    requires
        0 <= s < 64,
    ensures
        forall|f: int| 0 <= f < 8 ==> #[trigger] bit(BB_FILES[f], s) == (file_of(s) == f),
        forall|r: int| 0 <= r < 8 ==> #[trigger] bit(BB_RANKS[r], s) == (rank_of(s) == r),
{
    let t = s as u64;
    assert(t < 64 ==> (((0x0101_0101_0101_0101u64 >> t) & 1 == 1) == (t % 8 == 0) && ((
    0x0202_0202_0202_0202u64 >> t) & 1 == 1) == (t % 8 == 1) && ((0x0404_0404_0404_0404u64 >> t)
        & 1 == 1) == (t % 8 == 2) && ((0x0808_0808_0808_0808u64 >> t) & 1 == 1) == (t % 8 == 3)
        && ((0x1010_1010_1010_1010u64 >> t) & 1 == 1) == (t % 8 == 4) && ((0x2020_2020_2020_2020u64
        >> t) & 1 == 1) == (t % 8 == 5) && ((0x4040_4040_4040_4040u64 >> t) & 1 == 1) == (t % 8
        == 6) && ((0x8080_8080_8080_8080u64 >> t) & 1 == 1) == (t % 8 == 7) && ((0xFFu64 >> t) & 1
        == 1) == (t / 8 == 0) && ((0xFF00u64 >> t) & 1 == 1) == (t / 8 == 1) && ((0xFF_0000u64 >> t)
        & 1 == 1) == (t / 8 == 2) && ((0xFF00_0000u64 >> t) & 1 == 1) == (t / 8 == 3) && ((
    0xFF_0000_0000u64 >> t) & 1 == 1) == (t / 8 == 4) && ((0xFF00_0000_0000u64 >> t) & 1 == 1) == (
    t / 8 == 5) && ((0xFF_0000_0000_0000u64 >> t) & 1 == 1) == (t / 8 == 6) && ((
    0xFF00_0000_0000_0000u64 >> t) & 1 == 1) == (t / 8 == 7))) by (bit_vector);
    assert(BB_FILES[0] == 0x0101_0101_0101_0101u64);
    assert(BB_RANKS[7] == 0xFF00_0000_0000_0000u64);
}

/// Square `s` is ahead of rank `rank` for `color` (above for white, below for black).
pub open spec fn is_ahead(color: Color, rank: int, s: int) -> bool {
    if color == Color::White {
        rank_of(s) > rank
    } else {
        rank_of(s) < rank
    }
}

/// Square `s` is on rank `rank` or behind it for `color`.
pub open spec fn is_behind_inclusive(color: Color, rank: int, s: int) -> bool {
    if color == Color::White {
        rank_of(s) <= rank
    } else {
        rank_of(s) >= rank
    }
}

/// The squares of `file_mask` on the ranks ahead of `rank` for `color`.
pub fn ranks_ahead(color: Color, rank: u8, file_mask: Bb) -> (m: Bb)
    requires
        rank < 8,
    ensures
        forall|s: int| #[trigger] bit(m, s) == (bit(file_mask, s) && is_ahead(color, rank as int, s)),
{
    broadcast use group_bit_lemmas;

    let mut mask = 0u64;
    let mut r: u8 = if color == Color::White {
        rank + 1
    } else {
        0
    };
    let end: u8 = if color == Color::White {
        8
    } else {
        rank
    };
    let ghost start = r;
    while r < end
        invariant
            start <= r <= end <= 8,
            start == if color == Color::White {
                rank + 1
            } else {
                0
            },
            end == if color == Color::White {
                8
            } else {
                rank as int
            },
            forall|s: int| #[trigger] bit(mask, s) == (0 <= s < 64 && start <= rank_of(s) < r),
        decreases end - r,
    {
        let ghost m0 = mask;
        let rm = BB_RANKS[r as usize];
        mask = mask | rm;
        proof {
            broadcast use group_bit_lemmas;

            assert forall|s: int| #[trigger] bit(mask, s) == (0 <= s < 64 && start <= rank_of(s) < r + 1) by {
                assert(bit(mask, s) == (bit(m0, s) || bit(rm, s)));
                if 0 <= s < 64 {
                    lemma_file_rank_masks(s);
                    assert(bit(rm, s) == (rank_of(s) == r));
                } else {
                    assert(!bit(rm, s));
                }
            }
        }
        r += 1;
    }
    mask & file_mask
}

/// The squares of `file_mask` on rank `rank` or behind it for `color`.
pub fn ranks_behind_inclusive(color: Color, rank: u8, file_mask: Bb) -> (m: Bb)
    requires
        rank < 8,
    ensures
        forall|s: int| #[trigger] bit(m, s) == (bit(file_mask, s) && is_behind_inclusive(color, rank as int, s)),
{
    broadcast use group_bit_lemmas;

    let mut mask = 0u64;
    let mut r: u8 = if color == Color::White {
        0
    } else {
        rank
    };
    let end: u8 = if color == Color::White {
        rank + 1
    } else {
        8
    };
    let ghost start = r;
    while r < end
        invariant
            start <= r <= end <= 8,
            start == if color == Color::White {
                0
            } else {
                rank as int
            },
            end == if color == Color::White {
                rank + 1
            } else {
                8
            },
            forall|s: int| #[trigger] bit(mask, s) == (0 <= s < 64 && start <= rank_of(s) < r),
        decreases end - r,
    {
        let ghost m0 = mask;
        let rm = BB_RANKS[r as usize];
        mask = mask | rm;
        proof {
            broadcast use group_bit_lemmas;

            assert forall|s: int| #[trigger] bit(mask, s) == (0 <= s < 64 && start <= rank_of(s) < r + 1) by {
                assert(bit(mask, s) == (bit(m0, s) || bit(rm, s)));
                if 0 <= s < 64 {
                    lemma_file_rank_masks(s);
                    assert(bit(rm, s) == (rank_of(s) == r));
                } else {
                    assert(!bit(rm, s));
                }
            }
        }
        r += 1;
    }
    mask & file_mask
}

/// The larger of the file and rank distances of two squares.
pub open spec fn king_distance(a: int, b: int) -> int {
    let df = if file_of(a) >= file_of(b) {
        file_of(a) - file_of(b)
    } else {
        file_of(b) - file_of(a)
    };
    let dr = if rank_of(a) >= rank_of(b) {
        rank_of(a) - rank_of(b)
    } else {
        rank_of(b) - rank_of(a)
    };
    if df >= dr {
        df
    } else {
        dr
    }
}

/// The number of king steps between two squares.
pub fn chebyshev_distance(a: Square, b: Square) -> (d: u8)
    requires
        a < 64,
        b < 64,
    ensures
        d == king_distance(a as int, b as int),
        d <= 7,
{
    let fa = sq_file(a) as i8;
    let fb = sq_file(b) as i8;
    let ra = sq_rank(a) as i8;
    let rb = sq_rank(b) as i8;
    let df = if fa >= fb {
        (fa - fb) as u8
    } else {
        (fb - fa) as u8
    };
    let dr = if ra >= rb {
        (ra - rb) as u8
    } else {
        (rb - ra) as u8
    };
    if df >= dr {
        df
    } else {
        dr
    }
}

/// The (mg, eg) rook bonus of a file: open with no pawns, semi-open with only enemy
/// pawns, nothing with an own pawn.
pub open spec fn rook_file_value(file_bb: u64, our_pawns: u64, their_pawns: u64) -> (int, int) {
    if our_pawns & file_bb != 0 {
        (0, 0)
    } else if their_pawns & file_bb == 0 {
        (20, 10)
    } else {
        (10, 5)
    }
}

pub fn rook_file_bonus(file_bb: Bb, our_pawns: Bb, their_pawns: Bb) -> (r: (i32, i32))
    ensures
        (r.0 as int, r.1 as int) == rook_file_value(file_bb, our_pawns, their_pawns),
{
    if our_pawns & file_bb != 0 {
        return (0, 0);
    }
    if their_pawns & file_bb == 0 {
        (ROOK_OPEN_FILE_BONUS.0, ROOK_OPEN_FILE_BONUS.1)
    } else {
        (ROOK_SEMI_OPEN_FILE_BONUS.0, ROOK_SEMI_OPEN_FILE_BONUS.1)
    }
}

/// A tapered score: `mg` weighted by the phase, `eg` by the rest of 256.
pub open spec fn blend(mg: int, eg: int, phase: int) -> int {
    crate::config::div_trunc(mg * phase + eg * (256 - phase), 256)
}

pub fn blend_phase(mg: i32, eg: i32, phase: i32) -> (r: i32)
    requires
        0 <= phase <= 256,
        -4_000_000 <= mg <= 4_000_000,
        -4_000_000 <= eg <= 4_000_000,
    ensures
        r == blend(mg as int, eg as int, phase as int),
        -4_000_000 <= r <= 4_000_000,
{
    assert(-1_024_000_000 <= mg * phase <= 1_024_000_000 && -1_024_000_000 <= eg * (256 - phase)
        <= 1_024_000_000 && -1_024_000_000 <= mg * phase + eg * (256 - phase) <= 1_024_000_000)
        by (nonlinear_arith)
        requires
            0 <= phase <= 256,
            -4_000_000 <= mg <= 4_000_000,
            -4_000_000 <= eg <= 4_000_000,
    ;
    (mg * phase + eg * (256 - phase)) / 256
}

} // verus!
