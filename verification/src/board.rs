use vstd::prelude::*;
use crate::attacks::{bishop_attacks, bishop_reach, king_attacks, king_step, knight_attacks, knight_hop, pawn_attacks_black, pawn_attacks_white, pawn_hit, rook_attacks, rook_reach};
use crate::bitboard::{bb, bb_popcount, bit, group_bit_lemmas, lemma_empty_iff_zero, popcount};
use crate::types::{Bb, Color, Piece, PieceType, Square, NO_SQUARE, PIECE_NONE, file_of, piece_of, piece_color, piece_type};
use crate::zobrist::Zobrist;

verus! {

/// The position: piece bitboards, per-square piece lookup and game state.
#[derive(Clone, Copy)]
pub struct Board {
    /// Piece bitboards: `[color][piece_type]`.
    pub pieces: [[Bb; 6]; 2],
    /// Occupancy by color.
    pub occ: [Bb; 2],
    pub occ_all: Bb,
    /// The piece on each square, `PIECE_NONE` when empty.
    pub sq_piece: [Piece; 64],
    pub side: Color,
    /// Castling rights: one bit each for white king side, white queen side,
    /// black king side, black queen side.
    pub castling: u8,
    /// En passant target square, `NO_SQUARE` when none.
    pub ep_sq: Square,
    /// Fifty-move rule counter.
    pub halfmove: u8,
    /// Full move number, starting at 1.
    pub fullmove: u16,
    /// Zobrist hash of the position.
    pub hash: u64,
    /// Zobrist hash of the pawns of both colors.
    pub pawn_hash: u64,
    /// King square of each color, `NO_SQUARE` when it has none on the board.
    pub king_sq: [Square; 2],
}

/// What `make_move` saves for `unmake_move`.
#[derive(Clone, Copy)]
pub struct UndoInfo {
    pub captured: Piece,
    pub ep_sq: Square,
    pub castling: u8,
    pub halfmove: u8,
    pub hash: u64,
}

/// The color index (0 white, 1 black) of a piece code below 12.
pub open spec fn color_idx(p: Piece) -> int {
    if p < 6 {
        0
    } else {
        1
    }
}

/// The piece-type index (0 pawn .. 5 king) of a piece code below 12.
pub open spec fn type_idx(p: Piece) -> int {
    p as int % 6
}

/// The Zobrist key of piece `p` on square `sq` (zero for no piece).
pub open spec fn piece_key(z: Zobrist, p: Piece, sq: int) -> u64 {
    if p < 12 && 0 <= sq < 64 {
        z.piece_sq[color_idx(p)][type_idx(p)][sq]
    } else {
        0
    }
}

/// The key of `p` on `sq` when it is a pawn, zero otherwise.
pub open spec fn pawn_key(z: Zobrist, p: Piece, sq: int) -> u64 {
    if p == 0 || p == 6 {
        piece_key(z, p, sq)
    } else {
        0
    }
}

/// `f(0) ^ f(1) ^ ... ^ f(n - 1)`.
pub open spec fn xor_fold(f: spec_fn(int) -> u64, n: int) -> u64
    decreases n,
{
    if n <= 0 {
        0
    } else {
        xor_fold(f, n - 1) ^ f(n - 1)
    }
}

/// The xor of the keys of all pieces of a placement.
pub open spec fn pieces_hash(z: Zobrist, sp: Seq<Piece>) -> u64 {
    xor_fold(|i: int| piece_key(z, sp[i], i), 64)
}

/// The xor of the keys of all pawns of a placement.
pub open spec fn pawns_hash(z: Zobrist, sp: Seq<Piece>) -> u64 {
    xor_fold(|i: int| pawn_key(z, sp[i], i), 64)
}

/// The side, castling and en-passant part of a Zobrist hash.
pub open spec fn state_key(z: Zobrist, side: Color, castling: u8, ep_sq: Square) -> u64 {
    (if side == Color::Black {
        z.side
    } else {
        0
    }) ^ z.castling[castling as int % 16] ^ ep_key(z, ep_sq)
}

pub open spec fn ep_key(z: Zobrist, ep_sq: Square) -> u64 {
    if ep_sq < 64 {
        z.ep_file[file_of(ep_sq as int)]
    } else {
        0
    }
}

pub proof fn lemma_xor_facts(a: u64, b: u64, c: u64)
    ensures
        (a ^ b) ^ c == a ^ (b ^ c),
        a ^ b == b ^ a,
        a ^ a == 0,
        a ^ 0 == a,
        0 ^ a == a,
{
    assert((a ^ b) ^ c == a ^ (b ^ c) && a ^ b == b ^ a && a ^ a == 0 && a ^ 0 == a && 0 ^ a == a)
        by (bit_vector);
}

/// Xor-ing both sides with the same value can be undone.
pub proof fn lemma_xor_cancel(a: u64, b: u64, c: u64)
    ensures
        (a ^ c == b ^ c) ==> a == b,
{
    assert((a ^ c == b ^ c) ==> a == b) by (bit_vector);
}

proof fn lemma_xor_fold_same(f: spec_fn(int) -> u64, g: spec_fn(int) -> u64, n: int)
    requires
        forall|j: int| 0 <= j < n ==> #[trigger] f(j) == g(j),
    ensures
        xor_fold(f, n) == xor_fold(g, n),
    decreases n,
{
    if n > 0 {
        lemma_xor_fold_same(f, g, n - 1);
    }
}

proof fn lemma_xor_fold_update(f: spec_fn(int) -> u64, g: spec_fn(int) -> u64, n: int, i: int)
    requires
        0 <= i < n,
        forall|j: int| 0 <= j < n && j != i ==> #[trigger] f(j) == g(j),
    ensures
        xor_fold(g, n) == (xor_fold(f, n) ^ f(i)) ^ g(i),
    decreases n,
{
    let ff = xor_fold(f, n - 1);
    if i == n - 1 {
        lemma_xor_fold_same(f, g, n - 1);
        let a = f(i);
        let b = g(i);
        assert(((ff ^ a) ^ a) ^ b == ff ^ b) by (bit_vector);
    } else {
        lemma_xor_fold_update(f, g, n - 1, i);
        let a = f(i);
        let b = g(i);
        let c = f(n - 1);
        assert((((ff ^ a) ^ b) ^ c) == (((ff ^ c) ^ a) ^ b)) by (bit_vector);
    }
}

/// Changing the piece on one square changes the piece hash by the old and the new key.
pub proof fn lemma_pieces_hash_update(z: Zobrist, sp: Seq<Piece>, sq: int, p: Piece)
    requires
        sp.len() == 64,
        0 <= sq < 64,
    ensures
        pieces_hash(z, sp.update(sq, p)) == (pieces_hash(z, sp) ^ piece_key(z, sp[sq], sq))
            ^ piece_key(z, p, sq),
        pawns_hash(z, sp.update(sq, p)) == (pawns_hash(z, sp) ^ pawn_key(z, sp[sq], sq)) ^ pawn_key(
            z,
            p,
            sq,
        ),
{
    let sp2 = sp.update(sq, p);
    lemma_xor_fold_update(
        |i: int| piece_key(z, sp[i], i),
        |i: int| piece_key(z, sp2[i], i),
        64,
        sq,
    );
    lemma_xor_fold_update(
        |i: int| pawn_key(z, sp[i], i),
        |i: int| pawn_key(z, sp2[i], i),
        64,
        sq,
    );
}

/// An empty placement hashes to zero.
pub proof fn lemma_empty_hashes(z: Zobrist, sp: Seq<Piece>)
    requires
        sp.len() == 64,
        forall|i: int| 0 <= i < 64 ==> sp[i] == PIECE_NONE,
    ensures
        pieces_hash(z, sp) == 0,
        pawns_hash(z, sp) == 0,
{
    lemma_xor_fold_zero(|i: int| piece_key(z, sp[i], i), 64);
    lemma_xor_fold_zero(|i: int| pawn_key(z, sp[i], i), 64);
}

proof fn lemma_xor_fold_zero(f: spec_fn(int) -> u64, n: int)
    requires
        forall|j: int| 0 <= j < n ==> #[trigger] f(j) == 0,
    ensures
        xor_fold(f, n) == 0,
    decreases n,
{
    if n > 0 {
        lemma_xor_fold_zero(f, n - 1);
        lemma_xor_facts(0, 0, 0);
    }
}

impl Board {
    /// The bitboards, occupancies and king squares agree with the square lookup,
    /// every square holds a piece code or `PIECE_NONE`, and the en passant
    /// square is a square or `NO_SQUARE`.
    pub open spec fn consistent(&self) -> bool {
        &&& forall|sq: int| 0 <= sq < 64 ==> #[trigger] self.sq_piece[sq] <= PIECE_NONE
        &&& forall|c: int, pt: int, sq: int|
            0 <= c < 2 && 0 <= pt < 6 ==> (#[trigger] bit(self.pieces[c][pt], sq) <==> (0 <= sq
                < 64 && self.sq_piece[sq] == c * 6 + pt))
        &&& forall|c: int, sq: int|
            0 <= c < 2 ==> (#[trigger] bit(self.occ[c], sq) <==> (0 <= sq < 64
                && self.sq_piece[sq] < 12 && color_idx(self.sq_piece[sq]) == c))
        &&& forall|sq: int| #[trigger]
            bit(self.occ_all, sq) <==> (0 <= sq < 64 && self.sq_piece[sq] < 12)
        &&& forall|c: int|
            0 <= c < 2 ==> (#[trigger] self.king_sq[c] == NO_SQUARE || (self.king_sq[c] < 64
                && self.sq_piece[self.king_sq[c] as int] == c * 6 + 5))
        &&& self.ep_sq <= NO_SQUARE
        &&& self.castling < 16
    }

    /// Every square holds a piece code or `PIECE_NONE`, and the en passant square is
    /// a square or `NO_SQUARE`: what it takes to write the board out.
    pub open spec fn printable(&self) -> bool {
        &&& forall|sq: int| 0 <= sq < 64 ==> #[trigger] self.sq_piece[sq] <= PIECE_NONE
        &&& self.ep_sq <= NO_SQUARE
    }

    /// Each color has at most one king, and its king square is recorded.
    pub open spec fn kings_indexed(&self) -> bool {
        forall|sq: int|
            0 <= sq < 64 && #[trigger] self.sq_piece[sq] < 12 && type_idx(self.sq_piece[sq]) == 5
                ==> self.king_sq[color_idx(self.sq_piece[sq])] == sq
    }

    /// The position hash with the keys of the pieces taken out: what the side,
    /// castling rights and en passant square contribute.
    pub open spec fn hash_residue(&self, z: Zobrist) -> u64 {
        self.hash ^ pieces_hash(z, self.sq_piece@)
    }

    /// The pawn hash with the keys of the pawns taken out.
    pub open spec fn pawn_hash_residue(&self, z: Zobrist) -> u64 {
        self.pawn_hash ^ pawns_hash(z, self.sq_piece@)
    }

    /// The Zobrist hash of the position, computed from scratch.
    pub open spec fn zobrist_of(&self, z: Zobrist) -> u64 {
        pieces_hash(z, self.sq_piece@) ^ state_key(z, self.side, self.castling, self.ep_sq)
    }

    /// Both hashes are the Zobrist hashes of the position under `z`.
    pub open spec fn hashes_match(&self, z: Zobrist) -> bool {
        &&& self.hash == self.zobrist_of(z)
        &&& self.pawn_hash == pawns_hash(z, self.sq_piece@)
    }

    /// Returns a blank board with `hash == 0`, the base from which `from_fen` builds.
    pub fn new() -> (b: Self)
        ensures
            b.consistent(),
            b.kings_indexed(),
            forall|sq: int| 0 <= sq < 64 ==> b.sq_piece[sq] == PIECE_NONE,
            b.side == Color::White,
            b.castling == 0,
            b.ep_sq == NO_SQUARE,
            b.halfmove == 0,
            b.fullmove == 1,
            b.hash == 0,
            b.pawn_hash == 0,
            b.king_sq[0] == NO_SQUARE,
            b.king_sq[1] == NO_SQUARE,
    {
        broadcast use group_bit_lemmas;

        Board {
            pieces: [[0;6];2],
            occ: [0;2],
            occ_all: 0,
            sq_piece: [PIECE_NONE;64],
            side: Color::White,
            castling: 0,
            ep_sq: NO_SQUARE,
            halfmove: 0,
            fullmove: 1,
            hash: 0,
            pawn_hash: 0,
            king_sq: [NO_SQUARE;2],
        }
    }

    pub fn piece_bb(&self, c: Color, pt: PieceType) -> (r: Bb)
        requires
            pt != PieceType::Empty,
        ensures
            r == self.pieces[c.idx()][pt.idx()],
    {
        self.pieces[c.index()][pt.index()]
    }

    /// Places `p` on the empty square `sq`; `PIECE_NONE` places nothing.
    pub(crate) fn put_piece(&mut self, sq: Square, p: Piece, z: &Zobrist)
        requires
            old(self).consistent(),
            sq < 64,
            p <= PIECE_NONE,
            old(self).sq_piece[sq as int] == PIECE_NONE,
        ensures
            final(self).consistent(),
            p == PIECE_NONE ==> *final(self) == *old(self),
            final(self).sq_piece@ == old(self).sq_piece@.update(sq as int, p),
            final(self).hash == old(self).hash ^ piece_key(*z, p, sq as int),
            final(self).pawn_hash == old(self).pawn_hash ^ pawn_key(*z, p, sq as int),
            final(self).hash_residue(*z) == old(self).hash_residue(*z),
            final(self).pawn_hash_residue(*z) == old(self).pawn_hash_residue(*z),
            final(self).king_sq@ == if p < 12 && type_idx(p) == 5 {
                old(self).king_sq@.update(color_idx(p), sq)
            } else {
                old(self).king_sq@
            },
            final(self).side == old(self).side,
            final(self).castling == old(self).castling,
            final(self).ep_sq == old(self).ep_sq,
            final(self).halfmove == old(self).halfmove,
            final(self).fullmove == old(self).fullmove,
    {
        broadcast use group_bit_lemmas;

        if p == PIECE_NONE {
            proof {
                assert(old(self).sq_piece@.update(sq as int, p) =~= old(self).sq_piece@);
                lemma_xor_facts(self.hash, 0, 0);
                lemma_xor_facts(self.pawn_hash, 0, 0);
            }
            return ;
        }
        let ghost pre = *self;
        let c = piece_color(p).index();
        let pt = piece_type(p).index();
        let b = bb(sq);
        self.pieces[c][pt] = self.pieces[c][pt] | b;
        self.occ[c] = self.occ[c] | b;
        self.occ_all = self.occ_all | b;
        self.sq_piece[sq as usize] = p;
        self.hash = self.hash ^ z.piece_sq[c][pt][sq as usize];
        if pt == 0 {
            self.pawn_hash = self.pawn_hash ^ z.piece_sq[c][pt][sq as usize];
        }
        if pt == 5 {
            self.king_sq[c] = sq;
        }
        proof {
            assert(c == color_idx(p) && pt == type_idx(p));
            lemma_pieces_hash_update(*z, pre.sq_piece@, sq as int, p);
            lemma_xor_facts(pre.hash, piece_key(*z, p, sq as int), pieces_hash(*z, pre.sq_piece@));
            lemma_xor_facts(pieces_hash(*z, pre.sq_piece@), 0, 0);
            let h = pre.hash;
            let k = piece_key(*z, p, sq as int);
            let f = pieces_hash(*z, pre.sq_piece@);
            let ph = pre.pawn_hash;
            let pk = pawn_key(*z, p, sq as int);
            let pf = pawns_hash(*z, pre.sq_piece@);
            assert((h ^ k) ^ ((f ^ 0) ^ k) == h ^ f && (ph ^ pk) ^ ((pf ^ 0) ^ pk) == ph ^ pf && ph ^ 0
                == ph) by (bit_vector);
            assert(self.sq_piece@ =~= pre.sq_piece@.update(sq as int, p));
            assert forall|cc: int| 0 <= cc < 2 implies (#[trigger] self.king_sq[cc] == NO_SQUARE || (
            self.king_sq[cc] < 64 && self.sq_piece[self.king_sq[cc] as int] == cc * 6 + 5)) by {
                if pre.king_sq[cc] != NO_SQUARE && pre.king_sq[cc] < 64 {
                    assert(pre.king_sq[cc] != sq);
                }
            }
        }
    }

    /// Clears square `sq`; an empty square is left as it is.
    pub(crate) fn remove_piece(&mut self, sq: Square, z: &Zobrist)
        requires
            old(self).consistent(),
            sq < 64,
        ensures
            final(self).consistent(),
            old(self).sq_piece[sq as int] == PIECE_NONE ==> *final(self) == *old(self),
            final(self).sq_piece@ == old(self).sq_piece@.update(sq as int, PIECE_NONE),
            final(self).hash == old(self).hash ^ piece_key(*z, old(self).sq_piece[sq as int], sq as int),
            final(self).pawn_hash == old(self).pawn_hash ^ pawn_key(
                *z,
                old(self).sq_piece[sq as int],
                sq as int,
            ),
            final(self).hash_residue(*z) == old(self).hash_residue(*z),
            final(self).pawn_hash_residue(*z) == old(self).pawn_hash_residue(*z),
            final(self).king_sq@ == if old(self).sq_piece[sq as int] < 12 && type_idx(
                old(self).sq_piece[sq as int],
            ) == 5 {
                old(self).king_sq@.update(color_idx(old(self).sq_piece[sq as int]), NO_SQUARE)
            } else {
                old(self).king_sq@
            },
            final(self).side == old(self).side,
            final(self).castling == old(self).castling,
            final(self).ep_sq == old(self).ep_sq,
            final(self).halfmove == old(self).halfmove,
            final(self).fullmove == old(self).fullmove,
    {
        broadcast use group_bit_lemmas;

        let p = self.sq_piece[sq as usize];
        if p == PIECE_NONE {
            proof {
                assert(old(self).sq_piece@.update(sq as int, p) =~= old(self).sq_piece@);
                lemma_xor_facts(self.hash, 0, 0);
                lemma_xor_facts(self.pawn_hash, 0, 0);
            }
            return ;
        }
        let ghost pre = *self;
        let c = piece_color(p).index();
        let pt = piece_type(p).index();
        let b = bb(sq);
        self.pieces[c][pt] = self.pieces[c][pt] & !b;
        self.occ[c] = self.occ[c] & !b;
        self.occ_all = self.occ_all & !b;
        self.sq_piece[sq as usize] = PIECE_NONE;
        if pt == 5 {
            self.king_sq[c] = NO_SQUARE;
        }
        self.hash = self.hash ^ z.piece_sq[c][pt][sq as usize];
        if pt == 0 {
            self.pawn_hash = self.pawn_hash ^ z.piece_sq[c][pt][sq as usize];
        }
        proof {
            assert(c == color_idx(p) && pt == type_idx(p));
            lemma_pieces_hash_update(*z, pre.sq_piece@, sq as int, PIECE_NONE);
            let h = pre.hash;
            let k = piece_key(*z, p, sq as int);
            let f = pieces_hash(*z, pre.sq_piece@);
            let ph = pre.pawn_hash;
            let pk = pawn_key(*z, p, sq as int);
            let pf = pawns_hash(*z, pre.sq_piece@);
            assert((h ^ k) ^ ((f ^ k) ^ 0) == h ^ f && (ph ^ pk) ^ ((pf ^ pk) ^ 0) == ph ^ pf && ph ^ 0
                == ph) by (bit_vector);
            assert(self.sq_piece@ =~= pre.sq_piece@.update(sq as int, PIECE_NONE));
            assert forall|cc: int| 0 <= cc < 2 implies (#[trigger] self.king_sq[cc] == NO_SQUARE || (
            self.king_sq[cc] < 64 && self.sq_piece[self.king_sq[cc] as int] == cc * 6 + 5)) by {
                if pre.king_sq[cc] != NO_SQUARE && pre.king_sq[cc] < 64 && self.king_sq[cc] != NO_SQUARE {
                    assert(pre.king_sq[cc] != sq);
                }
            }
        }
    }
}

} // verus!

verus! {

/// The non-pawn material of color `c`: knights, bishops, rooks and queens valued
/// 320, 330, 500 and 900.
pub open spec fn npm_of(b: Board, c: Color) -> int {
    popcount(b.pieces[c.idx()][1]) * 320 + popcount(b.pieces[c.idx()][2]) * 330 + popcount(
        b.pieces[c.idx()][3],
    ) * 500 + popcount(b.pieces[c.idx()][4]) * 900 as int
}

/// A piece of color `c` on `s` attacks square `t` on board `b`: a pawn diagonally
/// forward, a knight's jump, a king step, or a slider along an open line (the
/// line from `t` back to `s` with `b`'s occupancy).
pub open spec fn attacks_from(b: Board, s: int, t: int, c: Color) -> bool {
    let p = b.sq_piece[s];
    ||| p == piece_of(c, PieceType::Pawn) && pawn_hit(c == Color::White, s, t)
    ||| p == piece_of(c, PieceType::Knight) && knight_hop(t, s)
    ||| (p == piece_of(c, PieceType::Bishop) || p == piece_of(c, PieceType::Queen)) && bit(
        bishop_reach(t, b.occ_all),
        s,
    )
    ||| (p == piece_of(c, PieceType::Rook) || p == piece_of(c, PieceType::Queen)) && bit(
        rook_reach(t, b.occ_all),
        s,
    )
    ||| p == piece_of(c, PieceType::King) && king_step(t, s)
}

/// Square `t` is attacked by some piece of color `c`.
pub open spec fn attacked_by(b: Board, t: int, c: Color) -> bool {
    exists|s: int| 0 <= s < 64 && #[trigger] attacks_from(b, s, t, c)
}

pub proof fn lemma_and_nonzero(x: u64, y: u64)
    ensures
        (x & y != 0) <==> exists|s: int| 0 <= s < 64 && bit(x, s) && bit(y, s),
{
    broadcast use group_bit_lemmas;

    lemma_empty_iff_zero(x & y);
    if x & y != 0 {
        let i = choose|i: int| 0 <= i < 64 && bit(x & y, i);
        assert(bit(x, i) && bit(y, i));
    } else {
        assert forall|s: int| 0 <= s < 64 implies !(bit(x, s) && bit(y, s)) by {
            assert(!bit(x & y, s));
        }
    }
}

impl Board {
    pub fn is_attacked_by(&self, sq: Square, attacker_color: Color) -> (r: bool)
        requires
            self.consistent(),
            sq < 64,
        ensures
            r == attacked_by(*self, sq as int, attacker_color),
    {
        let ac = attacker_color.index();
        let occ = self.occ_all;
        let c = attacker_color;
        // Pawn attacks
        let pawn_attacks = if attacker_color == Color::White {
            pawn_attacks_white(self.pieces[ac][0])
        } else {
            pawn_attacks_black(self.pieces[ac][0])
        };
        let sq_bb = bb(sq);
        let hit_p = pawn_attacks & sq_bb;
        proof {
            lemma_and_nonzero(pawn_attacks, sq_bb);
        }
        if hit_p != 0 {
            proof {
                let s = choose|s: int| bit(self.pieces[ac as int][0], s) && pawn_hit(
                    c == Color::White,
                    s,
                    sq as int,
                );
                assert(attacks_from(*self, s, sq as int, c));
            }
            return true;
        }
        // Knight attacks
        let na = knight_attacks(sq);
        let kn = na & self.pieces[ac][1];
        proof {
            lemma_and_nonzero(na, self.pieces[ac as int][1]);
        }
        if kn != 0 {
            proof {
                let s = choose|s: int| 0 <= s < 64 && bit(na, s) && bit(
                    self.pieces[ac as int][1],
                    s,
                );
                assert(attacks_from(*self, s, sq as int, c));
            }
            return true;
        }
        // Bishop/Queen diagonal
        let diag_attackers = self.pieces[ac][2] | self.pieces[ac][4];
        let ba = bishop_attacks(sq, occ);
        proof {
            lemma_and_nonzero(ba, diag_attackers);
        }
        if ba & diag_attackers != 0 {
            proof {
                broadcast use group_bit_lemmas;

                let s = choose|s: int| 0 <= s < 64 && bit(ba, s) && bit(diag_attackers, s);
                assert(attacks_from(*self, s, sq as int, c));
            }
            return true;
        }
        // Rook/Queen straight
        let straight_attackers = self.pieces[ac][3] | self.pieces[ac][4];
        let ra = rook_attacks(sq, occ);
        proof {
            lemma_and_nonzero(ra, straight_attackers);
        }
        if ra & straight_attackers != 0 {
            proof {
                broadcast use group_bit_lemmas;

                let s = choose|s: int| 0 <= s < 64 && bit(ra, s) && bit(straight_attackers, s);
                assert(attacks_from(*self, s, sq as int, c));
            }
            return true;
        }
        // King attacks
        let ka = king_attacks(sq);
        proof {
            lemma_and_nonzero(ka, self.pieces[ac as int][5]);
        }
        if ka & self.pieces[ac][5] != 0 {
            proof {
                let s = choose|s: int| 0 <= s < 64 && bit(ka, s) && bit(self.pieces[ac as int][5], s);
                assert(attacks_from(*self, s, sq as int, c));
            }
            return true;
        }
        proof {
            broadcast use group_bit_lemmas;

            assert forall|s: int| 0 <= s < 64 implies !#[trigger] attacks_from(
                *self,
                s,
                sq as int,
                c,
            ) by {
                if self.sq_piece[s] == piece_of(c, PieceType::Pawn) && pawn_hit(
                    c == Color::White,
                    s,
                    sq as int,
                ) {
                    assert(bit(self.pieces[ac as int][0], s));
                    assert(bit(pawn_attacks, sq as int));
                }
                if self.sq_piece[s] == piece_of(c, PieceType::Knight) && knight_hop(sq as int, s) {
                    assert(bit(na, s) && bit(self.pieces[ac as int][1], s));
                }
                if self.sq_piece[s] == piece_of(c, PieceType::King) && king_step(sq as int, s) {
                    assert(bit(ka, s) && bit(self.pieces[ac as int][5], s));
                }
                if (self.sq_piece[s] == piece_of(c, PieceType::Bishop) || self.sq_piece[s]
                    == piece_of(c, PieceType::Queen)) && bit(ba, s) {
                    assert(bit(diag_attackers, s));
                }
                if (self.sq_piece[s] == piece_of(c, PieceType::Rook) || self.sq_piece[s]
                    == piece_of(c, PieceType::Queen)) && bit(ra, s) {
                    assert(bit(straight_attackers, s));
                }
            }
        }
        false
    }

    /// Whether the king of `color` is attacked (`false` when it has no king).
    pub fn is_in_check(&self, color: Color) -> (r: bool)
        requires
            self.consistent(),
        ensures
            r == (self.king_sq[color.idx()] != NO_SQUARE && attacked_by(
                *self,
                self.king_sq[color.idx()] as int,
                color.opposite(),
            )),
    {
        let king_sq = self.king_sq[color.index()];
        if king_sq == NO_SQUARE {
            return false;
        }
        self.is_attacked_by(king_sq, color.flip())
    }

    /// Knights, bishops, rooks and queens of a color valued 320, 330, 500 and 900.
    pub fn non_pawn_material(&self, c: Color) -> (r: i32)
        ensures
            r == npm_of(*self, c),
            0 <= r <= 131200,
    {
        let ci = c.index();
        let n = bb_popcount(self.pieces[ci][1]) as i32;
        let b = bb_popcount(self.pieces[ci][2]) as i32;
        let r = bb_popcount(self.pieces[ci][3]) as i32;
        let q = bb_popcount(self.pieces[ci][4]) as i32;
        proof {
            crate::bitboard::lemma_popcount_bound(self.pieces[ci as int][1]);
            crate::bitboard::lemma_popcount_bound(self.pieces[ci as int][2]);
            crate::bitboard::lemma_popcount_bound(self.pieces[ci as int][3]);
            crate::bitboard::lemma_popcount_bound(self.pieces[ci as int][4]);
        }
        n * 320 + b * 330 + r * 500 + q * 900
    }
}

} // verus!
