use vstd::prelude::*;
use crate::bitboard::{bb, bit, group_bit_lemmas, lemma_bits_eq, lemma_empty_iff_zero};
use crate::board::{Board, UndoInfo, color_idx, type_idx, lemma_xor_facts, state_key, ep_key};
use crate::types::{Color, Move, Piece, PieceType, Square, NO_SQUARE, PIECE_NONE, MF_CASTLING, MF_EN_PASSANT, MF_PROMOTION, BB_FILE_A, BB_FILE_H, from_of, to_of, flags_of, promo_of, piece_of, file_of, make_piece, move_flags, move_from, move_promo_pt, move_to, piece_type, sq_file};
use crate::zobrist::Zobrist;

verus! {

/// Castling rights that survive a move from or to each square.
pub const CASTLING_RIGHTS_MASK: [u8; 64] = [
    13, 15, 15, 15, 12, 15, 15, 14,
    15, 15, 15, 15, 15, 15, 15, 15,
    15, 15, 15, 15, 15, 15, 15, 15,
    15, 15, 15, 15, 15, 15, 15, 15,
    15, 15, 15, 15, 15, 15, 15, 15,
    15, 15, 15, 15, 15, 15, 15, 15,
    15, 15, 15, 15, 15, 15, 15, 15,
    7, 15, 15, 15, 3, 15, 15, 11,
];

/// The rook's from and to squares of a castling king move.
pub open spec fn castle_rook_squares(from: int, to: int) -> (int, int) {
    if to > from {
        (from + 3, from + 1)
    } else {
        (from - 4, from - 1)
    }
}

/// The square of the pawn an en passant capture to `to` takes.
pub open spec fn ep_capture_square(us: Color, to: int) -> int {
    if us == Color::White {
        to - 8
    } else {
        to + 8
    }
}

/// The moves `make_move` can play on a board: a piece of the side to move on the
/// from-square, a pawn for promotions, an empty target and a capturable square for
/// en passant, a rook to move and empty, distinct rook squares for castling, and
/// counters that can still count up.
pub open spec fn move_applicable(b: Board, m: Move) -> bool {
    let from = from_of(m) as int;
    let to = to_of(m) as int;
    let fl = flags_of(m);
    let us = b.side;
    let mover = b.sq_piece[from];
    &&& from != to
    &&& mover < 12 && color_idx(mover) == us.idx()
    &&& fl == MF_PROMOTION ==> type_idx(mover) == 0
    &&& fl == MF_EN_PASSANT ==> {
        let cap = ep_capture_square(us, to);
        &&& 0 <= cap < 64
        &&& cap != from
        &&& b.sq_piece[to] == PIECE_NONE
    }
    &&& fl == MF_CASTLING ==> {
        let (rf, rt) = castle_rook_squares(from, to);
        &&& 0 <= rf < 64
        &&& 0 <= rt < 64
        &&& b.sq_piece[rf] == piece_of(us, PieceType::Rook)
        &&& b.sq_piece[rt] == PIECE_NONE
        &&& to != rf
        &&& to != rt
    }
    &&& b.halfmove < 255
    &&& us == Color::Black ==> b.fullmove < 65535
}

/// The piece a move takes (the en passant pawn for en passant).
pub open spec fn captured_by(b: Board, m: Move) -> Piece {
    if flags_of(m) == MF_EN_PASSANT {
        b.sq_piece[ep_capture_square(b.side, to_of(m) as int)]
    } else {
        b.sq_piece[to_of(m) as int]
    }
}

/// The piece that ends up on the target square.
pub open spec fn placed_by(b: Board, m: Move) -> Piece {
    if flags_of(m) == MF_PROMOTION {
        piece_of(b.side, promo_of(m))
    } else {
        b.sq_piece[from_of(m) as int]
    }
}

/// The pieces on the squares after the move: the captured piece leaves, the mover
/// (or its promotion) goes from `from` to `to`, and a castling rook jumps over.
pub open spec fn placement_after(b: Board, m: Move) -> Seq<Piece> {
    let from = from_of(m) as int;
    let to = to_of(m) as int;
    let fl = flags_of(m);
    let s0 = b.sq_piece@;
    let s1 = if fl == MF_EN_PASSANT {
        s0.update(ep_capture_square(b.side, to), PIECE_NONE)
    } else {
        s0.update(to, PIECE_NONE)
    };
    let s2 = s1.update(from, PIECE_NONE).update(to, placed_by(b, m));
    if fl == MF_CASTLING {
        let (rf, rt) = castle_rook_squares(from, to);
        s2.update(rf, PIECE_NONE).update(rt, piece_of(b.side, PieceType::Rook))
    } else {
        s2
    }
}

/// A pawn of color `c` stands next to `to` on the same rank.
pub open spec fn pawn_beside(sp: Seq<Piece>, to: int, c: Color) -> bool {
    (file_of(to) > 0 && sp[to - 1] == piece_of(c, PieceType::Pawn)) || (file_of(to) < 7 && sp[to
        + 1] == piece_of(c, PieceType::Pawn))
}

/// The en passant square after the move: set only after a double pawn push next to an
/// enemy pawn that could take en passant.
pub open spec fn ep_after(b: Board, m: Move) -> Square {
    let from = from_of(m) as int;
    let to = to_of(m) as int;
    if type_idx(b.sq_piece[from]) == 0 && (to - from == 16 || from - to == 16) && pawn_beside(
        placement_after(b, m),
        to,
        b.side.opposite(),
    ) {
        ((from + to) / 2) as Square
    } else {
        NO_SQUARE
    }
}

pub open spec fn king_sq_removed(ks: Seq<Square>, p: Piece) -> Seq<Square> {
    if p < 12 && type_idx(p) == 5 {
        ks.update(color_idx(p), NO_SQUARE)
    } else {
        ks
    }
}

pub open spec fn king_sq_placed(ks: Seq<Square>, p: Piece, sq: int) -> Seq<Square> {
    if p < 12 && type_idx(p) == 5 {
        ks.update(color_idx(p), sq as Square)
    } else {
        ks
    }
}

pub open spec fn king_sq_after(b: Board, m: Move) -> Seq<Square> {
    king_sq_placed(
        king_sq_removed(
            king_sq_removed(b.king_sq@, captured_by(b, m)),
            b.sq_piece[from_of(m) as int],
        ),
        placed_by(b, m),
        to_of(m) as int,
    )
}

/// What `make_move` does: the new placement, side, rights, en passant square and
/// counters; the state keys swapped in the hash; the pawn hash following the pawns;
/// and the saved state.
pub open spec fn make_post(b: Board, b1: Board, u: UndoInfo, m: Move, z: Zobrist) -> bool {
    let from = from_of(m) as int;
    let to = to_of(m) as int;
    &&& b1.consistent()
    &&& b1.sq_piece@ == placement_after(b, m)
    &&& b1.side == b.side.opposite()
    &&& b1.castling == b.castling & CASTLING_RIGHTS_MASK[from] & CASTLING_RIGHTS_MASK[to]
    &&& b1.ep_sq == ep_after(b, m)
    &&& b1.halfmove == if type_idx(b.sq_piece[from]) == 0 || captured_by(b, m) != PIECE_NONE {
        0
    } else {
        b.halfmove + 1
    }
    &&& b1.fullmove == if b.side == Color::Black {
        b.fullmove + 1
    } else {
        b.fullmove as int
    }
    &&& b1.hash_residue(z) == (b.hash_residue(z) ^ state_key(z, b.side, b.castling, b.ep_sq))
        ^ state_key(z, b1.side, b1.castling, b1.ep_sq)
    &&& b1.pawn_hash_residue(z) == b.pawn_hash_residue(z)
    &&& b1.king_sq@ == king_sq_after(b, m)
    &&& u == UndoInfo {
        captured: captured_by(b, m),
        ep_sq: b.ep_sq,
        castling: b.castling,
        halfmove: b.halfmove,
        hash: b.hash,
    }
}

} // verus!

verus! {

pub proof fn lemma_residue_step_pub(h: u64, k: u64, f: u64)
    ensures
        (h ^ k) ^ f == (h ^ f) ^ k,
{
    lemma_residue_step(h, k, f);
}

proof fn lemma_residue_step(h: u64, k: u64, f: u64)
    ensures
        (h ^ k) ^ f == (h ^ f) ^ k,
{
    assert((h ^ k) ^ f == (h ^ f) ^ k) by (bit_vector);
}

proof fn lemma_state_swap(r0: u64, e0: u64, c0: u64, c1: u64, e1: u64, s: u64, s0: u64, s1: u64)
    requires
        s0 ^ s1 == s,
    ensures
        ((((r0 ^ e0) ^ c0) ^ c1) ^ e1) ^ s == (r0 ^ ((s0 ^ c0) ^ e0)) ^ ((s1 ^ c1) ^ e1),
{
    assert(((((r0 ^ e0) ^ c0) ^ c1) ^ e1) ^ s == (r0 ^ ((s0 ^ c0) ^ e0)) ^ ((s1 ^ c1) ^ e1))
        by (bit_vector)
        requires
            s0 ^ s1 == s,
    ;
}

proof fn lemma_beside_bits(to: int, s: int)
    requires
        0 <= to < 64,
    ensures
        bit(((1u64 << (to as u64)) << 1u64) & !BB_FILE_A, s) == (s == to + 1 && file_of(to) != 7),
        bit(((1u64 << (to as u64)) >> 1u64) & !BB_FILE_H, s) == (s == to - 1 && file_of(to) != 0),
{
    broadcast use group_bit_lemmas;

    if 0 <= s < 64 {
        crate::attacks::lemma_file_masks(s);
    }
}

impl Board {
    /// Takes the captured piece off, moves the mover (promoting it), and castles the
    /// rook; returns the captured piece.
    #[verifier::rlimit(30)]
    fn move_pieces(&mut self, m: Move, z: &Zobrist) -> (captured: Piece)
        requires
            old(self).consistent(),
            move_applicable(*old(self), m),
        ensures
            final(self).consistent(),
            final(self).sq_piece@ == placement_after(*old(self), m),
            captured == captured_by(*old(self), m),
            final(self).king_sq@ == king_sq_after(*old(self), m),
            final(self).hash_residue(*z) == old(self).hash_residue(*z),
            final(self).pawn_hash_residue(*z) == old(self).pawn_hash_residue(*z),
            final(self).side == old(self).side,
            final(self).castling == old(self).castling,
            final(self).ep_sq == old(self).ep_sq,
            final(self).halfmove == old(self).halfmove,
            final(self).fullmove == old(self).fullmove,
    {
        let ghost b0 = *self;
        let from = move_from(m);
        let to = move_to(m);
        let flags = move_flags(m);
        let mover = self.sq_piece[from as usize];
        let us = self.side;
        let mut captured = PIECE_NONE;
        if flags == MF_EN_PASSANT {
            let cap_sq = if us == Color::White {
                to - 8
            } else {
                to + 8
            };
            captured = self.sq_piece[cap_sq as usize];
            self.remove_piece(cap_sq, z);
        } else {
            let c = self.sq_piece[to as usize];
            if c != PIECE_NONE {
                captured = c;
                self.remove_piece(to, z);
            } else {
                proof {
                    assert(self.sq_piece@.update(to as int, PIECE_NONE) =~= self.sq_piece@);
                }
            }
        }
        self.remove_piece(from, z);
        if flags == MF_PROMOTION {
            let promo = make_piece(us, move_promo_pt(m));
            self.put_piece(to, promo, z);
        } else {
            self.put_piece(to, mover, z);
        }
        if flags == MF_CASTLING {
            let (rook_from, rook_to) = if to > from {
                (from + 3, from + 1)
            } else {
                (from - 4, from - 1)
            };
            let rook = make_piece(us, PieceType::Rook);
            self.remove_piece(rook_from, z);
            self.put_piece(rook_to, rook, z);
        }
        proof {
            assert(self.sq_piece@ =~= placement_after(b0, m));
            assert(self.king_sq@ =~= king_sq_after(b0, m));
        }
        captured
    }

    /// Whether a pawn of `them` stands beside `to` (could take en passant there).
    pub(crate) fn enemy_pawn_beside(&self, to: Square, them: Color) -> (r: bool)
        requires
            self.consistent(),
            to < 64,
        ensures
            r == pawn_beside(self.sq_piece@, to as int, them),
    {
        let b_to = bb(to);
        let adjacent = ((b_to << 1) & !BB_FILE_A) | ((b_to >> 1) & !BB_FILE_H);
        let hit = self.pieces[them.index()][0] & adjacent;
        proof {
            broadcast use group_bit_lemmas;

            lemma_empty_iff_zero(hit);
            let sp = self.sq_piece@;
            assert forall|s: int| bit(hit, s) <==> ((s == to + 1 && file_of(to as int) != 7) || (s
                == to - 1 && file_of(to as int) != 0)) && 0 <= s < 64 && sp[s] == piece_of(
                them,
                PieceType::Pawn,
            ) by {
                lemma_beside_bits(to as int, s);
            }
            if pawn_beside(sp, to as int, them) {
                if file_of(to as int) > 0 && sp[to - 1] == piece_of(them, PieceType::Pawn) {
                    assert(bit(hit, to - 1));
                } else {
                    assert(bit(hit, to + 1));
                }
            }
        }
        hit != 0
    }

    /// Plays a move: moves the piece (promoting, taking en passant or castling the
    /// rook as the move says), updates rights, en passant square, counters and both
    /// hashes incrementally, and returns what `unmake_move` needs.
    #[verifier::rlimit(30)]
    pub fn make_move(&mut self, m: Move, z: &Zobrist) -> (undo: UndoInfo)
        requires
            old(self).consistent(),
            move_applicable(*old(self), m),
        ensures
            make_post(*old(self), *final(self), undo, m, *z),
    {
        let ghost b0 = *self;
        let undo = UndoInfo {
            captured: PIECE_NONE,
            ep_sq: self.ep_sq,
            castling: self.castling,
            halfmove: self.halfmove,
            hash: self.hash,
        };
        let from = move_from(m);
        let to = move_to(m);
        let mover = self.sq_piece[from as usize];
        let mover_type = piece_type(mover);
        let us = self.side;
        let them = us.flip();
        let ghost r0 = self.hash_residue(*z);
        let ghost e0 = ep_key(*z, b0.ep_sq);
        let ghost c0 = z.castling[b0.castling as int];
        // Clear old ep hash
        if self.ep_sq != NO_SQUARE {
            proof {
                lemma_residue_step(self.hash, z.ep_file[file_of(self.ep_sq as int)], pieces_hash_of(self, z));
            }
            self.hash = self.hash ^ z.ep_file[sq_file(self.ep_sq) as usize];
        } else {
            proof {
                lemma_xor_facts(r0, 0, 0);
            }
        }
        assert(self.hash_residue(*z) == r0 ^ e0);
        // Clear castling hash
        proof {
            lemma_residue_step(self.hash, c0, pieces_hash_of(self, z));
        }
        self.hash = self.hash ^ z.castling[self.castling as usize];
        let ghost r1 = self.hash_residue(*z);
        assert(r1 == (r0 ^ e0) ^ c0);
        // Capture, move, castling rook
        let mut undo = undo;
        undo.captured = self.move_pieces(m, z);
        // Update castling rights
        let new_castling = self.castling & CASTLING_RIGHTS_MASK[from as usize]
            & CASTLING_RIGHTS_MASK[to as usize];
        proof {
            let cc = self.castling;
            let ma = CASTLING_RIGHTS_MASK[from as int];
            let mb = CASTLING_RIGHTS_MASK[to as int];
            assert(cc < 16 ==> (cc & ma) & mb < 16) by (bit_vector);
        }
        self.castling = new_castling;
        let ghost c1 = z.castling[new_castling as int];
        proof {
            lemma_residue_step(self.hash, c1, pieces_hash_of(self, z));
        }
        self.hash = self.hash ^ z.castling[self.castling as usize];
        assert(self.hash_residue(*z) == r1 ^ c1);
        // En passant square, only when an enemy pawn could take
        self.ep_sq = NO_SQUARE;
        let ghost mut e1: u64 = 0;
        if mover_type == PieceType::Pawn {
            let diff = if to > from {
                to - from
            } else {
                from - to
            };
            if diff == 16 && self.enemy_pawn_beside(to, them) {
                self.ep_sq = (from + to) / 2;
                proof {
                    e1 = z.ep_file[file_of(self.ep_sq as int)];
                    lemma_residue_step(self.hash, e1, pieces_hash_of(self, z));
                }
                self.hash = self.hash ^ z.ep_file[sq_file(self.ep_sq) as usize];
            }
        }
        proof {
            if e1 == 0 {
                lemma_xor_facts(self.hash_residue(*z), 0, 0);
            }
        }
        assert(self.ep_sq == ep_after(b0, m));
        assert(e1 == ep_key(*z, self.ep_sq));
        assert(self.hash_residue(*z) == (r1 ^ c1) ^ e1);
        // Halfmove clock
        if mover_type == PieceType::Pawn || undo.captured != PIECE_NONE {
            self.halfmove = 0;
        } else {
            self.halfmove = self.halfmove + 1;
        }
        // Full move
        if us == Color::Black {
            self.fullmove = self.fullmove + 1;
        }
        // Side to move
        self.side = them;
        proof {
            lemma_residue_step(self.hash, z.side, pieces_hash_of(self, z));
        }
        self.hash = self.hash ^ z.side;
        proof {
            let s0 = if b0.side == Color::Black {
                z.side
            } else {
                0u64
            };
            let s1k = if self.side == Color::Black {
                z.side
            } else {
                0u64
            };
            let zs = z.side;
            assert(s0 ^ s1k == zs) by (bit_vector)
                requires
                    (s0 == zs && s1k == 0u64) || (s0 == 0u64 && s1k == zs),
            ;
            lemma_state_swap(r0, e0, c0, c1, e1, z.side, s0, s1k);
        }
        undo
    }
}

/// The piece keys of the board's current placement.
pub open spec fn pieces_hash_of(b: &Board, z: &Zobrist) -> u64 {
    crate::board::pieces_hash(*z, b.sq_piece@)
}

} // verus!

verus! {

/// The positions from which `unmake_move` can take a move back: the from-square is
/// free, the saved capture is a piece code, and the squares the capture and the
/// castling rook return to are free and distinct from the move's squares.
pub open spec fn unmake_applicable(b1: Board, m: Move, u: UndoInfo) -> bool {
    let from = from_of(m) as int;
    let to = to_of(m) as int;
    let fl = flags_of(m);
    let us = b1.side.opposite();
    &&& from != to
    &&& b1.sq_piece[from] == PIECE_NONE
    &&& u.captured <= PIECE_NONE
    &&& fl == MF_EN_PASSANT ==> {
        let cap = ep_capture_square(us, to);
        &&& 0 <= cap < 64
        &&& cap != from
        &&& cap != to
        &&& b1.sq_piece[cap] == PIECE_NONE
    }
    &&& fl == MF_CASTLING ==> {
        let (rf, rt) = castle_rook_squares(from, to);
        &&& 0 <= rf < 64
        &&& 0 <= rt < 64
        &&& rf != to
        &&& rt != to
        &&& b1.sq_piece[rf] == PIECE_NONE
        &&& b1.sq_piece[rt] == piece_of(us, PieceType::Rook)
    }
    &&& us == Color::Black ==> b1.fullmove >= 1
    &&& u.castling < 16
    &&& u.ep_sq <= NO_SQUARE
}

/// The piece that goes back to the from-square (a pawn for a promotion).
pub open spec fn unmoved_piece(b1: Board, m: Move) -> Piece {
    if flags_of(m) == MF_PROMOTION {
        piece_of(b1.side.opposite(), PieceType::Pawn)
    } else {
        b1.sq_piece[to_of(m) as int]
    }
}

/// The square the saved capture goes back to.
pub open spec fn capture_square(b1: Board, m: Move) -> int {
    if flags_of(m) == MF_EN_PASSANT {
        ep_capture_square(b1.side.opposite(), to_of(m) as int)
    } else {
        to_of(m) as int
    }
}

/// The pieces after taking the move back: the mover returns, the capture comes
/// back, a castling rook returns to its corner.
pub open spec fn placement_after_unmake(b1: Board, m: Move, u: UndoInfo) -> Seq<Piece> {
    let from = from_of(m) as int;
    let to = to_of(m) as int;
    let fl = flags_of(m);
    let s0 = b1.sq_piece@;
    let s1 = s0.update(to, PIECE_NONE).update(from, unmoved_piece(b1, m));
    let s2 = if u.captured == PIECE_NONE {
        s1
    } else {
        s1.update(capture_square(b1, m), u.captured)
    };
    if fl == MF_CASTLING {
        let (rf, rt) = castle_rook_squares(from, to);
        s2.update(rt, PIECE_NONE).update(rf, piece_of(b1.side.opposite(), PieceType::Rook))
    } else {
        s2
    }
}

pub open spec fn king_sq_after_unmake(b1: Board, m: Move, u: UndoInfo) -> Seq<Square> {
    king_sq_placed(
        king_sq_placed(
            king_sq_removed(b1.king_sq@, b1.sq_piece[to_of(m) as int]),
            unmoved_piece(b1, m),
            from_of(m) as int,
        ),
        u.captured,
        capture_square(b1, m),
    )
}

/// What `unmake_move` does: the placement goes back, the saved state comes back,
/// the side flips, the move number steps back after a black move, and the pawn
/// hash follows the pawns.
pub open spec fn unmake_post(b1: Board, b2: Board, m: Move, u: UndoInfo, z: Zobrist) -> bool {
    &&& b2.consistent()
    &&& b2.sq_piece@ == placement_after_unmake(b1, m, u)
    &&& b2.side == b1.side.opposite()
    &&& b2.ep_sq == u.ep_sq
    &&& b2.castling == u.castling
    &&& b2.halfmove == u.halfmove
    &&& b2.hash == u.hash
    &&& b2.fullmove == if b2.side == Color::Black {
        b1.fullmove - 1
    } else {
        b1.fullmove as int
    }
    &&& b2.pawn_hash_residue(z) == b1.pawn_hash_residue(z)
    &&& b2.king_sq@ == king_sq_after_unmake(b1, m, u)
}

/// What `make_null_move` does: only the side flips, the en passant square clears and
/// the half-move counter counts; the hash swaps the state keys.
pub open spec fn null_make_post(b: Board, b1: Board, u: UndoInfo, z: Zobrist) -> bool {
    &&& b1.consistent()
    &&& b1.sq_piece == b.sq_piece
    &&& b1.pieces == b.pieces
    &&& b1.occ == b.occ
    &&& b1.occ_all == b.occ_all
    &&& b1.king_sq == b.king_sq
    &&& b1.pawn_hash == b.pawn_hash
    &&& b1.castling == b.castling
    &&& b1.fullmove == b.fullmove
    &&& b1.side == b.side.opposite()
    &&& b1.ep_sq == NO_SQUARE
    &&& b1.halfmove == b.halfmove + 1
    &&& b1.hash_residue(z) == (b.hash_residue(z) ^ state_key(z, b.side, b.castling, b.ep_sq))
        ^ state_key(z, b1.side, b1.castling, b1.ep_sq)
    &&& u == (UndoInfo {
        captured: PIECE_NONE,
        ep_sq: b.ep_sq,
        castling: b.castling,
        halfmove: b.halfmove,
        hash: b.hash,
    })
}

/// What `unmake_null_move` does: flips the side back and restores the saved
/// en passant square, half-move counter and hash.
pub open spec fn null_unmake_post(b1: Board, b2: Board, u: UndoInfo) -> bool {
    &&& b2.sq_piece == b1.sq_piece
    &&& b2.pieces == b1.pieces
    &&& b2.occ == b1.occ
    &&& b2.occ_all == b1.occ_all
    &&& b2.king_sq == b1.king_sq
    &&& b2.pawn_hash == b1.pawn_hash
    &&& b2.castling == b1.castling
    &&& b2.fullmove == b1.fullmove
    &&& b2.side == b1.side.opposite()
    &&& b2.ep_sq == u.ep_sq
    &&& b2.halfmove == u.halfmove
    &&& b2.hash == u.hash
}

/// Taking back a null move restores the board exactly.
pub proof fn lemma_unmake_null_undoes_null(b: Board, b1: Board, u: UndoInfo, b2: Board, z: Zobrist)
    requires
        null_make_post(b, b1, u, z),
        null_unmake_post(b1, b2, u),
    ensures
        b2 == b,
{
}

/// A null move keeps the hashes the Zobrist hashes of the position.
pub proof fn lemma_null_keeps_hashes(b: Board, b1: Board, u: UndoInfo, z: Zobrist)
    requires
        b.consistent(),
        b.hashes_match(z),
        null_make_post(b, b1, u, z),
    ensures
        b1.hashes_match(z),
{
    let p0 = crate::board::pieces_hash(z, b.sq_piece@);
    let s0 = state_key(z, b.side, b.castling, b.ep_sq);
    let s1 = state_key(z, b1.side, b1.castling, b1.ep_sq);
    let h = b.hash;
    let h1 = b1.hash;
    assert(b1.sq_piece@ == b.sq_piece@);
    assert(h1 ^ p0 == ((h ^ p0) ^ s0) ^ s1);
    assert((h1 ^ p0 == ((h ^ p0) ^ s0) ^ s1 && h == p0 ^ s0) ==> h1 == p0 ^ s1) by (bit_vector);
}

impl Board {
    /// Takes back a move played by `make_move`, restoring the saved state.
    #[verifier::rlimit(30)]
    pub fn unmake_move(&mut self, m: Move, undo: &UndoInfo, z: &Zobrist)
        requires
            old(self).consistent(),
            unmake_applicable(*old(self), m, *undo),
        ensures
            unmake_post(*old(self), *final(self), m, *undo, *z),
    {
        let ghost b1 = *self;
        let from = move_from(m);
        let to = move_to(m);
        let flags = move_flags(m);
        let them = self.side;
        let us = them.flip();
        // Restore side
        self.side = us;
        // Move piece back
        let moved_piece = if flags == MF_PROMOTION {
            make_piece(us, PieceType::Pawn)
        } else {
            self.sq_piece[to as usize]
        };
        self.remove_piece(to, z);
        self.put_piece(from, moved_piece, z);
        // Restore capture
        if flags == MF_EN_PASSANT {
            let cap_sq = if us == Color::White {
                to - 8
            } else {
                to + 8
            };
            self.put_piece(cap_sq, undo.captured, z);
        } else if undo.captured != PIECE_NONE {
            self.put_piece(to, undo.captured, z);
        }
        // Restore castling rook
        if flags == MF_CASTLING {
            let (rook_from, rook_to) = if to > from {
                (from + 3, from + 1)
            } else {
                (from - 4, from - 1)
            };
            let rook = make_piece(us, PieceType::Rook);
            self.remove_piece(rook_to, z);
            self.put_piece(rook_from, rook, z);
        }
        // Restore state
        self.ep_sq = undo.ep_sq;
        self.castling = undo.castling;
        self.halfmove = undo.halfmove;
        self.hash = undo.hash;
        if us == Color::Black {
            self.fullmove = self.fullmove - 1;
        }
        proof {
            assert(self.sq_piece@ =~= placement_after_unmake(b1, m, *undo));
            assert(self.king_sq@ =~= king_sq_after_unmake(b1, m, *undo));
        }
    }

    /// Passes the turn: flips the side, clears the en passant square and counts
    /// the half move.
    pub fn make_null_move(&mut self, z: &Zobrist) -> (undo: UndoInfo)
        requires
            old(self).consistent(),
            old(self).halfmove < 255,
        ensures
            null_make_post(*old(self), *final(self), undo, *z),
    {
        let ghost b0 = *self;
        let undo = UndoInfo {
            captured: PIECE_NONE,
            ep_sq: self.ep_sq,
            castling: self.castling,
            halfmove: self.halfmove,
            hash: self.hash,
        };
        let ghost r0 = self.hash_residue(*z);
        let ghost e0 = ep_key(*z, b0.ep_sq);
        if self.ep_sq != NO_SQUARE {
            proof {
                lemma_residue_step(self.hash, e0, pieces_hash_of(self, z));
            }
            self.hash = self.hash ^ z.ep_file[sq_file(self.ep_sq) as usize];
            self.ep_sq = NO_SQUARE;
        } else {
            proof {
                lemma_xor_facts(r0, 0, 0);
            }
        }
        assert(self.hash_residue(*z) == r0 ^ e0);
        self.side = self.side.flip();
        proof {
            lemma_residue_step(self.hash, z.side, pieces_hash_of(self, z));
        }
        self.hash = self.hash ^ z.side;
        self.halfmove = self.halfmove + 1;
        proof {
            let c0 = z.castling[b0.castling as int];
            let s0 = if b0.side == Color::Black {
                z.side
            } else {
                0u64
            };
            let s1k = if self.side == Color::Black {
                z.side
            } else {
                0u64
            };
            let zs = z.side;
            assert(((r0 ^ e0) ^ zs) == (r0 ^ ((s0 ^ c0) ^ e0)) ^ ((s1k ^ c0) ^ 0u64))
                by (bit_vector)
                requires
                    (s0 == zs && s1k == 0u64) || (s0 == 0u64 && s1k == zs),
            ;
        }
        undo
    }

    /// Takes back a null move.
    pub fn unmake_null_move(&mut self, undo: &UndoInfo)
        ensures
            null_unmake_post(*old(self), *final(self), *undo),
    {
        self.side = self.side.flip();
        self.ep_sq = undo.ep_sq;
        self.halfmove = undo.halfmove;
        self.hash = undo.hash;
    }
}

} // verus!

verus! {

proof fn lemma_same_placement_same_bits(b: Board, b2: Board)
    requires
        b.consistent(),
        b2.consistent(),
        b.sq_piece@ == b2.sq_piece@,
    ensures
        b.pieces == b2.pieces,
        b.occ == b2.occ,
        b.occ_all == b2.occ_all,
        b.sq_piece == b2.sq_piece,
{
    assert forall|c: int, pt: int| 0 <= c < 2 && 0 <= pt < 6 implies b.pieces[c][pt]
        == b2.pieces[c][pt] by {
        assert forall|i: int| 0 <= i < 64 implies bit(b.pieces[c][pt], i) == bit(
            b2.pieces[c][pt],
            i,
        ) by {
            assert(b.sq_piece[i] == b2.sq_piece@[i]);
        }
        lemma_bits_eq(b.pieces[c][pt], b2.pieces[c][pt]);
    }
    assert forall|c: int| 0 <= c < 2 implies b.pieces[c] =~= b2.pieces[c] by {}
    assert(b.pieces =~= b2.pieces);
    assert forall|c: int| 0 <= c < 2 implies b.occ[c] == b2.occ[c] by {
        assert forall|i: int| 0 <= i < 64 implies bit(b.occ[c], i) == bit(b2.occ[c], i) by {
            assert(b.sq_piece[i] == b2.sq_piece@[i]);
        }
        lemma_bits_eq(b.occ[c], b2.occ[c]);
    }
    assert(b.occ =~= b2.occ);
    assert forall|i: int| 0 <= i < 64 implies bit(b.occ_all, i) == bit(b2.occ_all, i) by {
        assert(b.sq_piece[i] == b2.sq_piece@[i]);
    }
    lemma_bits_eq(b.occ_all, b2.occ_all);
    assert(b.sq_piece =~= b2.sq_piece);
}

/// Taking back a move restores the board exactly: for a consistent board whose kings
/// are indexed, after `make_move` the move can always be taken back, and
/// `unmake_move` then gives back the board as it was, hashes included.
#[verifier::rlimit(60)]
pub proof fn lemma_unmake_undoes_make(
    b: Board,
    b1: Board,
    u: UndoInfo,
    b2: Board,
    m: Move,
    z: Zobrist,
)
    requires
        b.consistent(),
        b.kings_indexed(),
        move_applicable(b, m),
        make_post(b, b1, u, m, z),
    ensures
        unmake_applicable(b1, m, u),
        unmake_post(b1, b2, m, u, z) ==> b2 == b,
{
    broadcast use vstd::array::group_array_axioms;

    let from = from_of(m) as int;
    let to = to_of(m) as int;
    let fl = flags_of(m);
    let us = b.side;
    assert(b1.side.opposite() == us);
    assert(b.sq_piece@.len() == 64);
    assert(b1.sq_piece@.len() == 64);
    crate::types::lemma_move_bounds(m);
    let sp = b.sq_piece@;
    let sp1 = b1.sq_piece@;
    assert(sp1[from] == PIECE_NONE);
    if fl == MF_EN_PASSANT {
        let cap = ep_capture_square(us, to);
        assert(sp1[cap] == PIECE_NONE);
    }
    if fl == MF_CASTLING {
        let (rf, rt) = castle_rook_squares(from, to);
        assert(sp1[rf] == PIECE_NONE);
        assert(sp1[rt] == piece_of(us, PieceType::Rook));
    }
    assert(unmake_applicable(b1, m, u));
    if unmake_post(b1, b2, m, u, z) {
        let sp2 = b2.sq_piece@;
        assert(unmoved_piece(b1, m) == sp[from]);
        assert forall|i: int| 0 <= i < 64 implies sp2[i] == sp[i] by {
            if fl == MF_CASTLING {
                let (rf, rt) = castle_rook_squares(from, to);
                if i == rf || i == rt {
                } else if i == from || i == to {
                } else {
                }
            } else if fl == MF_EN_PASSANT {
                let cap = ep_capture_square(us, to);
                if i == cap {
                } else if i == from || i == to {
                } else {
                }
            } else {
            }
        }
        assert(b2.sq_piece@ =~= b.sq_piece@);
        lemma_same_placement_same_bits(b, b2);
        assert(b2.king_sq@ =~= b.king_sq@);
        assert(b2.king_sq =~= b.king_sq);
        let w = crate::board::pawns_hash(z, b.sq_piece@);
        let ph = b.pawn_hash;
        let ph2 = b2.pawn_hash;
        assert(ph2 ^ w == ph ^ w);
        crate::board::lemma_xor_cancel(ph2, ph, w);
    }
}

/// The incremental hashes stay the Zobrist hashes of the position: if both hashes
/// match the position before `make_move`, they match it after.
pub proof fn lemma_make_keeps_hashes(b: Board, b1: Board, u: UndoInfo, m: Move, z: Zobrist)
    requires
        b.consistent(),
        b.hashes_match(z),
        make_post(b, b1, u, m, z),
    ensures
        b1.hashes_match(z),
{
    let p0 = crate::board::pieces_hash(z, b.sq_piece@);
    let p1 = crate::board::pieces_hash(z, b1.sq_piece@);
    let s0 = state_key(z, b.side, b.castling, b.ep_sq);
    let s1 = state_key(z, b1.side, b1.castling, b1.ep_sq);
    let h = b.hash;
    let h1 = b1.hash;
    assert(h1 ^ p1 == ((h ^ p0) ^ s0) ^ s1);
    assert(h == p0 ^ s0);
    let w0 = crate::board::pawns_hash(z, b.sq_piece@);
    let w1 = crate::board::pawns_hash(z, b1.sq_piece@);
    let q0 = b.pawn_hash;
    let q1 = b1.pawn_hash;
    assert(((h1 ^ p1 == ((h ^ p0) ^ s0) ^ s1 && h == p0 ^ s0) ==> h1 == p1 ^ s1) && ((q1 ^ w1 == q0
        ^ w0 && q0 == w0) ==> q1 == w1)) by (bit_vector);
}


/// `make_move` is a function of the board, the move and the keys: two boards it can
/// produce from the same position and move are the same board.
pub proof fn lemma_make_post_unique(
    b: Board,
    b1: Board,
    u1: UndoInfo,
    b2: Board,
    u2: UndoInfo,
    m: Move,
    z: Zobrist,
)
    requires
        make_post(b, b1, u1, m, z),
        make_post(b, b2, u2, m, z),
    ensures
        b1 == b2,
        u1 == u2,
{
    lemma_same_placement_same_bits(b1, b2);
    assert(b1.king_sq =~= b2.king_sq);
    let p = crate::board::pieces_hash(z, b1.sq_piece@);
    let pw = crate::board::pawns_hash(z, b1.sq_piece@);
    let (h1, h2) = (b1.hash, b2.hash);
    let (q1, q2) = (b1.pawn_hash, b2.pawn_hash);
    assert(h1 ^ p == h2 ^ p);
    assert(q1 ^ pw == q2 ^ pw);
    crate::board::lemma_xor_cancel(h1, h2, p);
    crate::board::lemma_xor_cancel(q1, q2, pw);
}

/// The fifty-move clock after a move: a pawn move resets it to zero whether or not it
/// takes anything, so does a capture by any piece, and any other move counts one more.
pub proof fn law_halfmove_clock(b: Board, b1: Board, u: UndoInfo, m: Move, z: Zobrist)
    requires
        make_post(b, b1, u, m, z),
    ensures
        type_idx(b.sq_piece[from_of(m) as int]) == 0 ==> b1.halfmove == 0,
        b.sq_piece[to_of(m) as int] != PIECE_NONE && flags_of(m) != MF_EN_PASSANT ==> b1.halfmove == 0,
        type_idx(b.sq_piece[from_of(m) as int]) != 0 && b.sq_piece[to_of(m) as int] == PIECE_NONE
            && flags_of(m) != MF_EN_PASSANT ==> b1.halfmove == b.halfmove + 1,
{
}

} // verus!
