use vstd::prelude::*;

use crate::board::{Board, pieces_hash, pawns_hash, state_key, ep_key, lemma_xor_facts};
use crate::makemove::pawn_beside;
use crate::text::{parse_u16, parse_u8, parse_unsigned, split_words, words};
use crate::types::{Color, Piece, PieceType, Square, NO_SQUARE, PIECE_NONE, CR_BLACK_KINGSIDE, CR_BLACK_QUEENSIDE, CR_WHITE_KINGSIDE, CR_WHITE_QUEENSIDE, file_of, rank_of, piece_of, piece_type_of_letter, square_of_name, make_piece, sq_file, sq_from, sq_from_name, sq_rank, str_chars};
use crate::zobrist::Zobrist;

verus! {

/// The color a FEN piece letter stands for: upper case is white.
pub open spec fn color_of_letter(ch: char) -> Color {
    if 'A' <= ch <= 'Z' {
        Color::White
    } else {
        Color::Black
    }
}

/// Reading one character of a FEN piece field: `/` goes down a rank (not below -1),
/// a digit skips files, a piece letter is placed (on a rank of the board) and moves
/// one file on, any other character moves one file on.
pub open spec fn placement_step(rank: int, file: int, sp: Seq<Piece>, ch: char) -> (int, int, Seq<Piece>) {
    if ch == '/' {
        (if rank >= 0 {
            rank - 1
        } else {
            rank
        }, 0, sp)
    } else if '1' <= ch <= '8' {
        (rank, file + (ch as int - '0' as int), sp)
    } else {
        let pt = piece_type_of_letter(ch);
        if pt != PieceType::Empty && 0 <= rank <= 7 && 0 <= file < 8 {
            (rank, file + 1, sp.update(rank * 8 + file, piece_of(color_of_letter(ch), pt)))
        } else {
            (rank, file + 1, sp)
        }
    }
}

/// The placement a FEN piece field gives from character `i` on, `None` when a
/// rank runs past eight files.
pub open spec fn parse_placement(s: Seq<char>, i: int, rank: int, file: int, sp: Seq<Piece>) -> Option<Seq<Piece>>
    decreases s.len() - i,
{
    if i >= s.len() || i < 0 {
        Some(sp)
    } else {
        let (r2, f2, sp2) = placement_step(rank, file, sp, s[i]);
        if f2 > 8 {
            None
        } else {
            parse_placement(s, i + 1, r2, f2, sp2)
        }
    }
}

/// Whether reading the field from character `i` on reaches a piece letter past
/// the eighth file of a board rank (where the square index is out of range).
pub open spec fn placement_crashes(s: Seq<char>, i: int, rank: int, file: int) -> bool
    decreases s.len() - i,
{
    if i >= s.len() || i < 0 {
        false
    } else {
        let ch = s[i];
        if ch != '/' && !('1' <= ch <= '8') && piece_type_of_letter(ch) != PieceType::Empty && 0
            <= rank <= 7 && file >= 8 {
            true
        } else {
            let (r2, f2, sp2) = placement_step(rank, file, Seq::empty(), ch);
            if f2 > 8 {
                false
            } else {
                placement_crashes(s, i + 1, r2, f2)
            }
        }
    }
}

pub open spec fn empty_placement() -> Seq<Piece> {
    Seq::new(64, |i: int| PIECE_NONE)
}

pub open spec fn castling_of_word(w: Seq<char>) -> u8 {
    ((if w.contains('K') {
        1int
    } else {
        0
    }) + (if w.contains('Q') {
        2int
    } else {
        0
    }) + (if w.contains('k') {
        4int
    } else {
        0
    }) + (if w.contains('q') {
        8int
    } else {
        0
    })) as u8
}

/// The en passant square of a FEN field: the named square when a pawn that could
/// take en passant there stands beside the pawn that double-pushed.
pub open spec fn ep_of_word(w: Seq<char>, sp: Seq<Piece>) -> Square {
    if w == seq!['-'] {
        NO_SQUARE
    } else {
        match square_of_name(w) {
            None => NO_SQUARE,
            Some(sq) => {
                let (pawn_sq, capturer) = if rank_of(sq as int) == 2 {
                    (sq + 8, Color::Black)
                } else {
                    (sq - 8, Color::White)
                };
                if pawn_beside(sp, pawn_sq, capturer) {
                    sq
                } else {
                    NO_SQUARE
                }
            },
        }
    }
}

/// An en passant field naming a first-rank square (where the pawn square below it
/// is out of range).
pub open spec fn ep_field_crashes(w: Seq<char>) -> bool {
    w != seq!['-'] && match square_of_name(w) {
        Some(sq) => rank_of(sq as int) != 2 && sq < 8,
        None => false,
    }
}

/// Where a square comes in the reading order of a FEN piece field: rank 8 first,
/// files a to h within a rank.
pub open spec fn read_key(sq: int) -> int {
    (7 - rank_of(sq)) * 8 + file_of(sq)
}

/// The recorded king square of color `c` is the one of its kings read last from the
/// piece field, or `NO_SQUARE` when it has no king.
pub open spec fn king_read(b: Board, c: int) -> bool {
    &&& (b.king_sq[c] == NO_SQUARE <==> forall|sq: int| 0 <= sq < 64 ==> b.sq_piece[sq] != c * 6 + 5)
    &&& b.king_sq[c] != NO_SQUARE ==> (b.king_sq[c] < 64 && b.sq_piece[b.king_sq[c] as int] == c
        * 6 + 5)
    &&& forall|sq: int|
        0 <= sq < 64 && #[trigger] b.sq_piece[sq] == c * 6 + 5 ==> read_key(sq) <= read_key(
            b.king_sq[c] as int,
        )
}

/// Both colors' king squares are as reading the piece field records them.
pub open spec fn kings_as_read(b: Board) -> bool {
    king_read(b, 0) && king_read(b, 1)
}

/// Color `c` has at most one king on the board.
pub open spec fn one_king(b: Board, c: int) -> bool {
    forall|s1: int, s2: int|
        0 <= s1 < 64 && 0 <= s2 < 64 && #[trigger] b.sq_piece[s1] == c * 6 + 5 && #[trigger] b.sq_piece[s2]
            == c * 6 + 5 ==> s1 == s2
}

/// With at most one king a side, king squares as read index the kings.
pub proof fn lemma_kings_as_read_indexed(b: Board)
    requires
        kings_as_read(b),
        one_king(b, 0),
        one_king(b, 1),
    ensures
        b.kings_indexed(),
{
    assert forall|sq: int|
        0 <= sq < 64 && #[trigger] b.sq_piece[sq] < 12 && crate::board::type_idx(b.sq_piece[sq]) == 5
            implies b.king_sq[crate::board::color_idx(b.sq_piece[sq])] == sq by {
        let c = crate::board::color_idx(b.sq_piece[sq]);
        assert(b.sq_piece[sq] == c * 6 + 5);
        assert(b.king_sq[c] != NO_SQUARE);
        assert(b.sq_piece[b.king_sq[c] as int] == c * 6 + 5);
    }
}

proof fn lemma_king_read_place(b: Board, b2: Board, sq: int, p: Piece, c: int)
    requires
        0 <= c < 2,
        king_read(b, c),
        0 <= sq < 64,
        b.sq_piece[sq] == PIECE_NONE,
        p <= PIECE_NONE,
        b2.sq_piece@ == b.sq_piece@.update(sq, p),
        forall|t: int| 0 <= t < 64 && #[trigger] b.sq_piece[t] != PIECE_NONE ==> read_key(t) < read_key(sq),
        b2.king_sq[c] == if p == c * 6 + 5 {
            sq as u8
        } else {
            b.king_sq[c]
        },
    ensures
        king_read(b2, c),
{
    if b.king_sq[c] != NO_SQUARE {
        assert(b.sq_piece[b.king_sq[c] as int] != PIECE_NONE);
    }
    if p == c * 6 + 5 {
        assert(b2.sq_piece[sq] == c * 6 + 5);
        assert(b2.king_sq[c] as int == sq);
        assert(!(forall|t: int| 0 <= t < 64 ==> b2.sq_piece[t] != c * 6 + 5));
        assert forall|t: int| 0 <= t < 64 && #[trigger] b2.sq_piece[t] == c * 6 + 5 implies read_key(t)
            <= read_key(b2.king_sq[c] as int) by {
            if t != sq {
                assert(b.sq_piece[t] == c * 6 + 5);
            }
        }
    } else {
        assert forall|t: int| 0 <= t < 64 && #[trigger] b2.sq_piece[t] == c * 6 + 5 implies read_key(t)
            <= read_key(b2.king_sq[c] as int) by {
            assert(t != sq);
            assert(b.sq_piece[t] == c * 6 + 5);
        }
        if b2.king_sq[c] == NO_SQUARE {
            assert forall|t: int| 0 <= t < 64 implies b2.sq_piece[t] != c * 6 + 5 by {
                if t != sq {
                    assert(b.sq_piece[t] != c * 6 + 5);
                }
            }
        } else {
            let k = b.king_sq[c] as int;
            assert(k != sq);
            assert(b2.sq_piece[k] == c * 6 + 5);
            assert(!(forall|t: int| 0 <= t < 64 ==> b2.sq_piece[t] != c * 6 + 5));
        }
    }
}

/// The FEN inputs `from_fen` reads without an index out of range: a piece letter
/// past the eighth file of a rank, or an en passant field on the first rank.
pub open spec fn fen_crashes(fen: Seq<char>) -> bool {
    let w = words(fen);
    w.len() >= 4 && (placement_crashes(w[0], 0, 7, 0) || ep_field_crashes(w[3]))
}

} // verus!

verus! {

/// Whether `from_fen` can read a record without an index out of range: no piece
/// letter past the eighth file of a rank and no en passant field on the first rank.
pub fn fen_is_readable(fen: &str) -> (r: bool)
    ensures
        r == !fen_crashes(fen@),
{
    let parts = split_words(fen);
    if parts.len() < 4 {
        return true;
    }
    let ghost w = words(fen@);
    let s = str_chars(parts[0]);
    assert(s@ == w[0]);
    let mut rank: i32 = 7;
    let mut file: i32 = 0;
    let mut i: usize = 0;
    let mut crashed = false;
    let mut stopped = false;
    while i < s.len() && !stopped && !crashed
        invariant
            s@ == w[0],
            i <= s.len(),
            -1 <= rank <= 7,
            0 <= file <= 16,
            !(stopped && crashed),
            !stopped && !crashed ==> file <= 8 && placement_crashes(s@, 0, 7, 0) == placement_crashes(
                s@,
                i as int,
                rank as int,
                file as int,
            ),
            stopped ==> !placement_crashes(s@, 0, 7, 0),
            crashed ==> placement_crashes(s@, 0, 7, 0),
        decreases s.len() - i + (if stopped || crashed {
            0int
        } else {
            1int
        }),
    {
        let ch = s[i];
        let is_digit = '1' <= ch && ch <= '8';
        if ch != '/' && !is_digit && PieceType::from_char(ch) != PieceType::Empty && 0 <= rank
            && rank <= 7 && file >= 8 {
            crashed = true;
        } else {
            let ghost (r2, f2, sp2) = placement_step(rank as int, file as int, Seq::empty(), ch);
            let ghost (r0, f0) = (rank as int, file as int);
            if ch == '/' {
                if rank >= 0 {
                    rank = rank - 1;
                }
                file = 0;
            } else if is_digit {
                file = file + (ch as u32 - '0' as u32) as i32;
            } else {
                file = file + 1;
            }
            assert(r2 == rank && f2 == file);
            if file > 8 {
                // The field stops being read here; nothing past it can crash.
                stopped = true;
            } else {
                assert(placement_crashes(s@, i as int, r0, f0) == placement_crashes(
                    s@,
                    i + 1,
                    rank as int,
                    file as int,
                ));
                i += 1;
            }
        }
    }
    if crashed {
        return false;
    }
    assert(!placement_crashes(s@, 0, 7, 0));
    let ep_word = str_chars(parts[3]);
    if ep_word.len() == 1 && ep_word[0] == '-' {
        proof {
            assert(ep_word@ =~= seq!['-']);
        }
        return true;
    }
    proof {
        if ep_word@ == seq!['-'] {
            assert(ep_word@[0] == '-');
        }
    }
    match sq_from_name(parts[3]) {
        Some(sq) => !(sq_rank(sq) != 2 && sq < 8),
        None => true,
    }
}

/// The board fields a FEN record's words give.
pub open spec fn fen_fields_match(b: Board, w: Seq<Seq<char>>) -> bool {
    let sp = parse_placement(w[0], 0, 7, 0, empty_placement());
    &&& sp is Some
    &&& b.sq_piece@ == sp.unwrap()
    &&& b.side == if w[1] == seq!['b'] {
        Color::Black
    } else {
        Color::White
    }
    &&& b.castling == castling_of_word(w[2])
    &&& b.ep_sq == ep_of_word(w[3], sp.unwrap())
    &&& b.halfmove == if w.len() > 4 {
        match parse_unsigned(w[4], 255) {
            Some(v) => v,
            None => 0,
        }
    } else {
        0
    }
    &&& b.fullmove == if w.len() > 5 {
        match parse_unsigned(w[5], 65535) {
            Some(v) => v,
            None => 1,
        }
    } else {
        1
    }
}

fn word_has(w: &Vec<char>, c: char) -> (r: bool)
    ensures
        r == w@.contains(c),
{
    let mut i: usize = 0;
    while i < w.len()
        invariant
            i <= w.len(),
            forall|j: int| 0 <= j < i ==> w@[j] != c,
        decreases w.len() - i,
    {
        if w[i] == c {
            return true;
        }
        i += 1;
    }
    false
}

proof fn lemma_castling_bits(a: u8, b: u8, c: u8, d: u8)
    requires
        a == 0 || a == 1,
        b == 0 || b == 2,
        c == 0 || c == 4,
        d == 0 || d == 8,
    ensures
        (((a | b) | c) | d) == a + b + c + d,
        a + b + c + d < 16,
{
    assert((((a | b) | c) | d) == a + b + c + d) by (bit_vector)
        requires
            a == 0 || a == 1,
            b == 0 || b == 2,
            c == 0 || c == 4,
            d == 0 || d == 8,
    ;
}

impl Board {
    /// Places the piece a FEN letter names on `(file, rank)`; other characters, and
    /// ranks off the board, place nothing.
    fn place_fen_char(&mut self, ch: char, file: i32, rank: i32, z: &Zobrist)
        requires
            old(self).consistent(),
            0 <= file,
            piece_type_of_letter(ch) != PieceType::Empty && 0 <= rank <= 7 ==> file < 8
                && old(self).sq_piece[rank * 8 + file] == PIECE_NONE,
        ensures
            final(self).consistent(),
            final(self).sq_piece@ == placement_step(rank as int, file as int, old(self).sq_piece@, ch).2,
            final(self).hash_residue(*z) == old(self).hash_residue(*z),
            final(self).pawn_hash_residue(*z) == old(self).pawn_hash_residue(*z),
            final(self).side == old(self).side,
            final(self).castling == old(self).castling,
            final(self).ep_sq == old(self).ep_sq,
            final(self).halfmove == old(self).halfmove,
            final(self).fullmove == old(self).fullmove,
            final(self).king_sq@ == if piece_type_of_letter(ch) == PieceType::King && 0 <= rank <= 7 {
                old(self).king_sq@.update(color_of_letter(ch).idx(), (rank * 8 + file) as u8)
            } else {
                old(self).king_sq@
            },
    {
        let pt = PieceType::from_char(ch);
        if pt == PieceType::Empty || rank < 0 || rank > 7 {
            return ;
        }
        let color = if 'A' <= ch && ch <= 'Z' {
            Color::White
        } else {
            Color::Black
        };
        let sq = sq_from(file as u8, rank as u8);
        self.put_piece(sq, make_piece(color, pt), z);
    }

    /// Parses a FEN record. `None` when it has fewer than four fields or a rank of
    /// its piece field runs past eight files.
    #[verifier::rlimit(40)]
    pub fn from_fen(fen: &str) -> (r: Option<Self>)
        requires
            !fen_crashes(fen@),
        ensures
            words(fen@).len() < 4 ==> r is None,
            words(fen@).len() >= 4 ==> (r is Some <==> parse_placement(
                words(fen@)[0],
                0,
                7,
                0,
                empty_placement(),
            ) is Some),
            r matches Some(b) ==> {
                &&& b.consistent()
                &&& kings_as_read(b)
                &&& (one_king(b, 0) && one_king(b, 1) ==> b.kings_indexed())
                &&& fen_fields_match(b, words(fen@))
                &&& forall|z: Zobrist| #[trigger] z.is_standard() ==> b.hashes_match(z)
            },
    {
        let z = Zobrist::new();
        let mut board = Board::new();
        let parts = split_words(fen);
        if parts.len() < 4 {
            return None;
        }
        let ghost w = words(fen@);
        proof {
            assert(board.sq_piece@ =~= empty_placement());
            crate::board::lemma_empty_hashes(z, board.sq_piece@);
            lemma_xor_facts(0, 0, 0);
        }
        // Piece placement
        let placement = str_chars(parts[0]);
        let ghost s = placement@;
        assert(s == w[0]);
        let mut rank: i32 = 7;
        let mut file: i32 = 0;
        let mut i: usize = 0;
        while i < placement.len()
            invariant
                s == placement@,
                s == w[0],
                w == words(fen@),
                w.len() >= 4,
                parts@.len() == w.len(),
                forall|k: int| 0 <= k < parts@.len() ==> #[trigger] parts@[k]@ == w[k],
                z.is_standard(),
                i <= placement.len(),
                -1 <= rank <= 7,
                0 <= file <= 8,
                board.consistent(),
                parse_placement(s, 0, 7, 0, empty_placement()) == parse_placement(
                    s,
                    i as int,
                    rank as int,
                    file as int,
                    board.sq_piece@,
                ),
                !placement_crashes(s, i as int, rank as int, file as int),
                forall|sq: int|
                    0 <= sq < 64 && (rank_of(sq) < rank || (rank_of(sq) == rank && file_of(sq)
                        >= file)) ==> board.sq_piece[sq] == PIECE_NONE,
                kings_as_read(board),
                board.hash_residue(z) == 0,
                board.pawn_hash_residue(z) == 0,
                board.side == Color::White,
                board.castling == 0,
                board.ep_sq == NO_SQUARE,
                board.halfmove == 0,
                board.fullmove == 1,
            decreases placement.len() - i,
        {
            let ch = placement[i];
            let ghost old_sp = board.sq_piece@;
            let ghost old_rank = rank;
            let ghost old_file = file;
            if ch == '/' {
                if rank >= 0 {
                    rank = rank - 1;
                }
                file = 0;
            } else if '1' <= ch && ch <= '8' {
                file = file + (ch as u32 - '0' as u32) as i32;
            } else {
                proof {
                    if piece_type_of_letter(ch) != PieceType::Empty && 0 <= rank <= 7 {
                        assert(file < 8);
                        let sq = rank * 8 + file;
                        assert(rank_of(sq) == rank && file_of(sq) == file);
                    }
                }
                let ghost b_before = board;
                board.place_fen_char(ch, file, rank, &z);
                proof {
                    let pt = piece_type_of_letter(ch);
                    if pt != PieceType::Empty && 0 <= rank <= 7 {
                        let sq = rank * 8 + file;
                        let pc = piece_of(color_of_letter(ch), pt);
                        assert(rank_of(sq as int) == rank && file_of(sq as int) == file);
                        assert forall|t: int|
                            0 <= t < 64 && #[trigger] b_before.sq_piece[t] != PIECE_NONE implies read_key(t)
                                < read_key(sq as int) by {
                            assert(rank_of(t) > rank || (rank_of(t) == rank && file_of(t) < file));
                        }
                        lemma_king_read_place(b_before, board, sq as int, pc, 0);
                        lemma_king_read_place(b_before, board, sq as int, pc, 1);
                    } else {
                        assert(board.sq_piece@ == b_before.sq_piece@);
                    }
                }
                file = file + 1;
            }
            proof {
                let (r2, f2, sp2) = placement_step(old_rank as int, old_file as int, old_sp, ch);
                assert(r2 == rank && f2 == file && sp2 == board.sq_piece@);
            }
            // A rank of more than eight files is malformed.
            if file > 8 {
                return None;
            }
            i += 1;
        }
        let ghost sp = board.sq_piece@;
        assert(parse_placement(s, 0, 7, 0, empty_placement()) == Some(sp));
        // Side to move
        let side_word = str_chars(parts[1]);
        let is_black = side_word.len() == 1 && side_word[0] == 'b';
        proof {
            if is_black {
                assert(side_word@ =~= seq!['b']);
            }
        }
        board.side = if is_black {
            Color::Black
        } else {
            Color::White
        };
        if board.side == Color::Black {
            proof {
                crate::makemove::lemma_residue_step_pub(board.hash, z.side, pieces_hash(z, sp));
            }
            board.hash = board.hash ^ z.side;
            proof {
                lemma_xor_facts(z.side, 0, 0);
            }
        }
        let ghost side_k: u64 = if board.side == Color::Black { z.side } else { 0u64 };
        assert(board.hash_residue(z) == side_k);
        // Castling rights
        let cr = str_chars(parts[2]);
        let k = if word_has(&cr, 'K') { CR_WHITE_KINGSIDE } else { 0 };
        let q = if word_has(&cr, 'Q') { CR_WHITE_QUEENSIDE } else { 0 };
        let bk = if word_has(&cr, 'k') { CR_BLACK_KINGSIDE } else { 0 };
        let bq = if word_has(&cr, 'q') { CR_BLACK_QUEENSIDE } else { 0 };
        proof {
            lemma_castling_bits(k, q, bk, bq);
        }
        board.castling = board.castling | k;
        board.castling = board.castling | q;
        board.castling = board.castling | bk;
        board.castling = board.castling | bq;
        proof {
            assert(0u8 | k == k) by (bit_vector);
            crate::makemove::lemma_residue_step_pub(board.hash, z.castling[board.castling as int], pieces_hash(z, sp));
        }
        board.hash = board.hash ^ z.castling[board.castling as usize];
        assert(board.castling == castling_of_word(w[2]));
        // En passant, kept only when an enemy pawn could take
        let ep_word = str_chars(parts[3]);
        let is_dash = ep_word.len() == 1 && ep_word[0] == '-';
        proof {
            if is_dash {
                assert(ep_word@ =~= seq!['-']);
            } else if ep_word@ == seq!['-'] {
                assert(ep_word@[0] == '-');
            }
        }
        let ghost mut e1: u64 = 0;
        if !is_dash {
            if let Some(sq) = sq_from_name(parts[3]) {
                let (pawn_sq, capturer) = if sq_rank(sq) == 2 {
                    (sq + 8, Color::Black)
                } else {
                    (sq - 8, Color::White)
                };
                if board.enemy_pawn_beside(pawn_sq, capturer) {
                    board.ep_sq = sq;
                    proof {
                        e1 = z.ep_file[file_of(sq as int)];
                        crate::makemove::lemma_residue_step_pub(board.hash, e1, pieces_hash(z, sp));
                    }
                    board.hash = board.hash ^ z.ep_file[sq_file(sq) as usize];
                }
            }
        }
        proof {
            if e1 == 0 {
                lemma_xor_facts(board.hash_residue(z), 0, 0);
            }
        }
        assert(board.ep_sq == ep_of_word(w[3], sp));
        assert(e1 == ep_key(z, board.ep_sq));
        // Halfmove and fullmove
        if parts.len() > 4 {
            board.halfmove = match parse_u8(parts[4]) {
                Some(v) => v,
                None => 0,
            };
        }
        if parts.len() > 5 {
            board.fullmove = match parse_u16(parts[5]) {
                Some(v) => v,
                None => 1,
            };
        }
        proof {
            let h = board.hash;
            let p = pieces_hash(z, sp);
            let ck = z.castling[board.castling as int];
            assert(h ^ p == (side_k ^ ck) ^ e1);
            let ph = board.pawn_hash;
            let pw = pawns_hash(z, sp);
            assert((h ^ p == (side_k ^ ck) ^ e1 ==> h == p ^ ((side_k ^ ck) ^ e1)) && (ph ^ pw == 0
                ==> ph == pw)) by (bit_vector);
            assert forall|z2: Zobrist| #[trigger] z2.is_standard() implies board.hashes_match(z2) by {
                crate::zobrist::lemma_standard_unique(z, z2);
            }
            if one_king(board, 0) && one_king(board, 1) {
                lemma_kings_as_read_indexed(board);
            }
        }
        Some(board)
    }
}

} // verus!

verus! {

/// The FEN letter of a piece: upper case for white, lower case for black.
pub open spec fn fen_piece_char(p: Piece) -> char {
    let l = crate::types::piece_type_letter(crate::types::type_of_piece(p));
    if p < 6 {
        ascii_upper(l)
    } else {
        l
    }
}

pub open spec fn ascii_upper(c: char) -> char {
    if 'a' <= c <= 'z' {
        (c as int - 32) as char
    } else {
        c
    }
}

/// The FEN text of one rank from `file` on, with `empty` empty squares pending.
pub open spec fn rank_text(sp: Seq<Piece>, rank: int, file: int, empty: int) -> Seq<char>
    decreases 8 - file,
{
    if file >= 8 {
        if empty > 0 {
            seq![crate::text::digit_char(empty)]
        } else {
            Seq::empty()
        }
    } else {
        let p = sp[rank * 8 + file];
        if p == PIECE_NONE {
            rank_text(sp, rank, file + 1, empty + 1)
        } else {
            (if empty > 0 {
                seq![crate::text::digit_char(empty)]
            } else {
                Seq::<char>::empty()
            }) + seq![fen_piece_char(p)] + rank_text(sp, rank, file + 1, 0)
        }
    }
}

/// The FEN piece field from rank `rank` down to the first rank.
pub open spec fn placement_text(sp: Seq<Piece>, rank: int) -> Seq<char>
    decreases rank,
{
    if rank <= 0 {
        rank_text(sp, 0, 0, 0)
    } else {
        rank_text(sp, rank, 0, 0) + seq!['/'] + placement_text(sp, rank - 1)
    }
}

/// The castling field: `-`, or the letters `KQkq` of the rights held.
pub open spec fn castling_text(c: u8) -> Seq<char> {
    if c == 0 {
        seq!['-']
    } else {
        (if c & 1 != 0 {
            seq!['K']
        } else {
            Seq::empty()
        }) + (if c & 2 != 0 {
            seq!['Q']
        } else {
            Seq::empty()
        }) + (if c & 4 != 0 {
            seq!['k']
        } else {
            Seq::empty()
        }) + (if c & 8 != 0 {
            seq!['q']
        } else {
            Seq::empty()
        })
    }
}

/// The FEN record of a board.
pub open spec fn fen_text(b: Board) -> Seq<char> {
    placement_text(b.sq_piece@, 7) + seq![' '] + seq![
        if b.side == Color::White {
            'w'
        } else {
            'b'
        },
    ] + seq![' '] + castling_text(b.castling) + seq![' '] + (if b.ep_sq == NO_SQUARE {
        seq!['-']
    } else {
        crate::types::square_name(b.ep_sq as int)
    }) + seq![' '] + crate::text::decimal(b.halfmove as nat) + seq![' '] + crate::text::decimal(
        b.fullmove as nat,
    )
}

/// The FEN letter of a piece.
pub fn piece_to_fen_char(p: Piece) -> (ch: char)
    requires
        p < 12,
    ensures
        ch == fen_piece_char(p),
{
    let c = crate::types::piece_color(p);
    let ch = crate::types::piece_type(p).char_lower();
    if c == Color::White {
        match ch {
            'p' => 'P',
            'n' => 'N',
            'b' => 'B',
            'r' => 'R',
            'q' => 'Q',
            _ => 'K',
        }
    } else {
        ch
    }
}

/// The display character of a square: the FEN letter, or `.` when empty.
pub fn display_piece_char(p: Piece) -> (ch: char)
    requires
        p <= PIECE_NONE,
    ensures
        ch == if p == PIECE_NONE {
            '.'
        } else {
            fen_piece_char(p)
        },
{
    if p == PIECE_NONE {
        return '.';
    }
    piece_to_fen_char(p)
}

/// Appends the castling letters `KQkq` of the rights held.
pub fn push_castling_chars(s: &mut String, castling: u8)
    ensures
        castling != 0 ==> final(s)@ == old(s)@ + castling_text(castling),
        castling == 0 ==> final(s)@ == old(s)@,
{
    let ghost s0 = s@;
    if castling & CR_WHITE_KINGSIDE != 0 {
        crate::types::push_char(s, 'K');
    }
    if castling & CR_WHITE_QUEENSIDE != 0 {
        crate::types::push_char(s, 'Q');
    }
    if castling & CR_BLACK_KINGSIDE != 0 {
        crate::types::push_char(s, 'k');
    }
    if castling & CR_BLACK_QUEENSIDE != 0 {
        crate::types::push_char(s, 'q');
    }
    proof {
        if castling == 0 {
            assert(castling & 1 == 0 && castling & 2 == 0 && castling & 4 == 0 && castling & 8 == 0)
                by (bit_vector)
                requires
                    castling == 0,
            ;
            assert(s@ =~= s0);
        } else {
            assert(s@ =~= s0 + castling_text(castling));
        }
    }
}

impl Board {
    /// Appends the FEN text of one rank.
    fn push_rank_text(&self, s: &mut String, rank: u8)
        requires
            self.printable(),
            rank < 8,
        ensures
            final(s)@ == old(s)@ + rank_text(self.sq_piece@, rank as int, 0, 0),
    {
        let ghost s0 = s@;
        let mut empty: u8 = 0;
        let mut file: u8 = 0;
        while file < 8
            invariant
                self.printable(),
                rank < 8,
                file <= 8,
                empty <= file,
                s@ + rank_text(self.sq_piece@, rank as int, file as int, empty as int) == s0
                    + rank_text(self.sq_piece@, rank as int, 0, 0),
            decreases 8 - file,
        {
            let sq = sq_from(file, rank);
            let p = self.sq_piece[sq as usize];
            let ghost sb = s@;
            let ghost e0 = empty as int;
            if p == PIECE_NONE {
                empty = empty + 1;
            } else {
                if empty > 0 {
                    crate::types::push_char(s, (48u8 + empty) as char);
                    empty = 0;
                }
                crate::types::push_char(s, piece_to_fen_char(p));
                proof {
                    let pre = if e0 > 0 {
                        seq![crate::text::digit_char(e0)]
                    } else {
                        Seq::<char>::empty()
                    };
                    assert(s@ =~= sb + pre + seq![fen_piece_char(p)]);
                    assert(s@ + rank_text(self.sq_piece@, rank as int, file + 1, 0) =~= sb + rank_text(
                        self.sq_piece@,
                        rank as int,
                        file as int,
                        e0,
                    ));
                }
            }
            file = file + 1;
        }
        if empty > 0 {
            crate::types::push_char(s, (48u8 + empty) as char);
        }
        proof {
            assert(s@ =~= s0 + rank_text(self.sq_piece@, rank as int, 0, 0));
        }
    }
}

} // verus!

verus! {

impl Board {
    /// The FEN record of the board.
    pub fn to_fen(&self) -> (s: String)
        requires
            self.printable(),
        ensures
            s@ == fen_text(*self),
    {
        let mut s = String::new();
        let mut rank: u8 = 8;
        while rank > 0
            invariant
                self.printable(),
                rank <= 8,
                rank == 8 ==> s@ == Seq::<char>::empty(),
                0 < rank < 8 ==> s@ + placement_text(self.sq_piece@, rank as int - 1)
                    == placement_text(self.sq_piece@, 7),
                rank == 0 ==> s@ == placement_text(self.sq_piece@, 7),
                rank < 8 && rank > 0 ==> s@.len() > 0 && s@.last() == '/',
            decreases rank,
        {
            let r = rank - 1;
            let ghost sb = s@;
            self.push_rank_text(&mut s, r);
            if r > 0 {
                crate::types::push_char(&mut s, '/');
            }
            proof {
                if rank == 8 {
                    if r > 0 {
                        assert(s@ + placement_text(self.sq_piece@, r as int - 1) =~= placement_text(
                            self.sq_piece@,
                            7,
                        ));
                    }
                } else {
                    if r > 0 {
                        assert(s@ + placement_text(self.sq_piece@, r as int - 1) =~= sb
                            + placement_text(self.sq_piece@, r as int));
                    } else {
                        assert(s@ =~= sb + placement_text(self.sq_piece@, 0));
                    }
                }
            }
            rank = r;
        }
        assert(s@ == placement_text(self.sq_piece@, 7));
        crate::types::push_char(&mut s, ' ');
        crate::types::push_char(
            &mut s,
            if self.side == Color::White {
                'w'
            } else {
                'b'
            },
        );
        crate::types::push_char(&mut s, ' ');
        if self.castling == 0 {
            crate::types::push_char(&mut s, '-');
        } else {
            push_castling_chars(&mut s, self.castling);
        }
        crate::types::push_char(&mut s, ' ');
        if self.ep_sq == NO_SQUARE {
            crate::types::push_char(&mut s, '-');
        } else {
            let name = crate::types::sq_name(self.ep_sq);
            crate::text::push_text(&mut s, name.as_str());
        }
        crate::types::push_char(&mut s, ' ');
        let hm = crate::text::u64_text(self.halfmove as u64);
        crate::text::push_text(&mut s, hm.as_str());
        crate::types::push_char(&mut s, ' ');
        let fm = crate::text::u64_text(self.fullmove as u64);
        crate::text::push_text(&mut s, fm.as_str());
        proof {
            assert(s@ =~= fen_text(*self));
        }
        s
    }
}


/// The piece type index standing on file `f` of a back rank: rook, knight, bishop,
/// queen, king, bishop, knight, rook.
pub open spec fn back_rank_type(f: int) -> int {
    if f == 0 || f == 7 {
        3
    } else if f == 1 || f == 6 {
        1
    } else if f == 2 || f == 5 {
        2
    } else if f == 3 {
        4
    } else {
        5
    }
}

/// The piece on each square of the initial position.
pub open spec fn start_piece(sq: int) -> Piece {
    let r = rank_of(sq);
    let f = file_of(sq);
    if r == 0 {
        back_rank_type(f) as Piece
    } else if r == 1 {
        0
    } else if r == 6 {
        6
    } else if r == 7 {
        (6 + back_rank_type(f)) as Piece
    } else {
        PIECE_NONE
    }
}

fn back_rank_piece_type(f: u8) -> (pt: PieceType)
    requires
        f < 8,
    ensures
        pt.idx() == back_rank_type(f as int),
        pt != PieceType::Empty,
{
    if f == 0 || f == 7 {
        PieceType::Rook
    } else if f == 1 || f == 6 {
        PieceType::Knight
    } else if f == 2 || f == 5 {
        PieceType::Bishop
    } else if f == 3 {
        PieceType::Queen
    } else {
        PieceType::King
    }
}

impl Board {
    /// The initial position: white to move, all castling rights, no en passant
    /// square, counters 0 and 1.
    pub fn startpos() -> (b: Self)
        ensures
            b.consistent(),
            forall|sq: int| 0 <= sq < 64 ==> #[trigger] b.sq_piece[sq] == start_piece(sq),
            b.side == Color::White,
            b.castling == 15,
            b.ep_sq == NO_SQUARE,
            b.halfmove == 0,
            b.fullmove == 1,
            b.king_sq[0] == 4,
            b.king_sq[1] == 60,
            forall|z: Zobrist| #[trigger] z.is_standard() ==> b.hashes_match(z),
    {
        let z = Zobrist::new();
        let mut board = Board::new();
        proof {
            crate::board::lemma_empty_hashes(z, board.sq_piece@);
            lemma_xor_facts(0, 0, 0);
        }
        let mut f: u8 = 0;
        while f < 8
            invariant
                f <= 8,
                z.is_standard(),
                board.consistent(),
                forall|sq: int|
                    0 <= sq < 64 ==> #[trigger] board.sq_piece[sq] == if file_of(sq) < f {
                        start_piece(sq)
                    } else {
                        PIECE_NONE
                    },
                f > 4 ==> board.king_sq[0] == 4 && board.king_sq[1] == 60,
                board.hash_residue(z) == 0,
                board.pawn_hash_residue(z) == 0,
                board.side == Color::White,
                board.castling == 0,
                board.ep_sq == NO_SQUARE,
                board.halfmove == 0,
                board.fullmove == 1,
            decreases 8 - f,
        {
            let pt = back_rank_piece_type(f);
            let ghost sp0 = board.sq_piece@;
            board.put_piece(sq_from(f, 0), make_piece(Color::White, pt), &z);
            board.put_piece(sq_from(f, 1), make_piece(Color::White, PieceType::Pawn), &z);
            board.put_piece(sq_from(f, 6), make_piece(Color::Black, PieceType::Pawn), &z);
            board.put_piece(sq_from(f, 7), make_piece(Color::Black, pt), &z);
            proof {
                assert forall|sq: int| 0 <= sq < 64 implies #[trigger] board.sq_piece[sq] == if file_of(sq) < f + 1 {
                    start_piece(sq)
                } else {
                    PIECE_NONE
                } by {
                    if file_of(sq) == f {
                        assert(sq == f + 8 * rank_of(sq));
                    } else {
                        assert(board.sq_piece[sq] == sp0[sq]);
                    }
                }
            }
            f += 1;
        }
        let ghost h0 = board.hash;
        proof {
            crate::makemove::lemma_residue_step_pub(board.hash, z.castling[15], pieces_hash(z, board.sq_piece@));
            assert(h0 ^ pieces_hash(z, board.sq_piece@) == 0);
        }
        board.castling = 15;
        board.hash = board.hash ^ z.castling[15];
        proof {
            let h = board.hash;
            let p = pieces_hash(z, board.sq_piece@);
            let ck = z.castling[15];
            lemma_xor_facts(ck, 0, 0);
            assert(h ^ p == ck);
            let ph = board.pawn_hash;
            let pw = pawns_hash(z, board.sq_piece@);
            assert((h ^ p == ck ==> h == p ^ ((0u64 ^ ck) ^ 0u64)) && (ph ^ pw == 0 ==> ph == pw)) by (bit_vector);
            assert(state_key(z, Color::White, 15, NO_SQUARE) == (0u64 ^ ck) ^ 0u64);
            assert forall|z2: Zobrist| #[trigger] z2.is_standard() implies board.hashes_match(z2) by {
                crate::zobrist::lemma_standard_unique(z, z2);
            }
        }
        board
    }
}

} // verus!
