use vstd::prelude::*;
use crate::bitboard::{bb, bb_popcount, bit, group_bit_lemmas, lemma_popcount_bound, popcount};
use crate::board::{Board, UndoInfo};
use crate::config::EngineOptions;
use crate::config::EvalOptions;
use crate::criticality::{comma_count, comma_free, joined, lemma_decimal_comma_free, lemma_joined_commas, lemma_signed_decimal_comma_free, push_field};
use crate::eval::{breakdown_value, evaluate_breakdown, lemma_and_zero_iff, clear_ahead, scales_ok, EvalContext};
use crate::fen::fen_text;
use crate::text::{decimal, i64_text, signed_decimal, u64_text};
use crate::eval_activity::{piece_attack_set, side_mobility, side_mobility_value};
use crate::eval_pawns::{adjacent_files, adjacent_files_of};
use crate::eval_terms::ranks_ahead;
use crate::magic::AttackTables;
use crate::makemove::{lemma_make_post_unique, make_post, move_applicable};
use crate::movegen::{attack_set, gen_moves, generable, pseudo_moves};
use crate::perft::{king_safe, made_by, successor};
use crate::types::{
    Color, Move, PieceType, Square, BB_FILES, MF_EN_PASSANT, MF_NORMAL, MF_PROMOTION, NO_SQUARE,
    PIECE_NONE, color_of_piece, file_of, flags_of, from_of, move_flags, move_from, move_to,
    piece_color, piece_type, rank_of, sq_file, sq_rank, to_of, type_of_piece,
};
use crate::zobrist::{Zobrist, lemma_standard_unique};

verus! {

/// A mobility gain that makes a pawn break liberating.
pub const LIBERATING_MOBILITY_GAIN: u32 = 5;
/// A mobility gain that makes a quiet piece move a redeployment.
pub const REDEPLOYMENT_MOBILITY_GAIN: u32 = 3;

// ---------------------------------------------------------------- the side to move

/// The board with `color` to move; a change of side clears the en passant square.
pub open spec fn prepared(b: Board, color: Color) -> Board {
    if b.side != color {
        Board { side: color, ep_sq: NO_SQUARE, ..b }
    } else {
        b
    }
}

pub fn prepare_side_to_move(board: &mut Board, color: Color)
    ensures
        *final(board) == prepared(*old(board), color),
{
    if board.side != color {
        board.side = color;
        board.ep_sq = NO_SQUARE;
    }
}

/// The moves of `color` can be generated into a move list and all of them played.
pub open spec fn moves_playable(b: Board, color: Color) -> bool {
    let pb = prepared(b, color);
    &&& generable(pb)
    &&& pseudo_moves(pb).len() <= 256
    &&& forall|i: int|
        0 <= i < pseudo_moves(pb).len() ==> move_applicable(pb, #[trigger] pseudo_moves(pb)[i])
}

/// The legal moves of `color`: those of its pseudo-legal moves, with `color` to
/// move, that leave its king unattacked.
pub open spec fn legal_moves(b: Board, z: Zobrist, color: Color) -> Seq<Move> {
    let pb = prepared(b, color);
    pseudo_moves(pb).filter(|m: Move| king_safe(successor(pb, m, z), color))
}

pub fn legal_moves_for_color(board: &Board, atk: &AttackTables, z: &Zobrist, color: Color) -> (v: Vec<Move>)
    requires
        atk.wf(),
        board.consistent(),
        moves_playable(*board, color),
    ensures
        v@ == legal_moves(*board, *z, color),
        v@.len() <= 256,
        forall|k: int| 0 <= k < v@.len() ==> move_applicable(prepared(*board, color), #[trigger] v@[k]),
{
    let mut b = *board;
    prepare_side_to_move(&mut b, color);
    let ghost pb = b;
    let list = gen_moves(&b, atk);
    let ghost ms = pseudo_moves(pb);
    let ghost pred = |m: Move| king_safe(successor(pb, m, *z), color);
    let mut legal: Vec<Move> = Vec::new();
    let mut i: usize = 0;
    proof {
        reveal(Seq::filter);
        assert(ms.take(0) =~= Seq::<Move>::empty());
    }
    while i < list.count
        invariant
            b == pb,
            pb == prepared(*board, color),
            pb.consistent(),
            pb.side == color,
            moves_playable(*board, color),
            list.wf(),
            list.view_moves() == ms,
            ms == pseudo_moves(pb),
            pred == (|m: Move| king_safe(successor(pb, m, *z), color)),
            i <= list.count,
            legal@ == ms.take(i as int).filter(pred),
            legal@.len() <= i,
            forall|k: int| 0 <= k < legal@.len() ==> move_applicable(pb, #[trigger] legal@[k]),
        decreases list.count - i,
    {
        let m = list.moves[i];
        proof {
            assert(m == ms[i as int]);
            assert(move_applicable(pb, ms[i as int]));
        }
        let undo = b.make_move(m, z);
        let ghost b1 = b;
        proof {
            assert(made_by(pb, b1, m, *z));
            let s = successor(pb, m, *z);
            assert(made_by(pb, s, m, *z));
            let us = choose|u: UndoInfo| #[trigger] make_post(pb, s, u, m, *z);
            lemma_make_post_unique(pb, b1, undo, s, us, m, *z);
            assert(ms.take(i + 1).drop_last() =~= ms.take(i as int));
            assert(ms.take(i + 1).last() == m);
            crate::types::lemma_flip_involution(color);
        }
        let safe = !b.is_in_check(b.side.flip());
        proof {
            assert(safe == pred(m));
            reveal(Seq::filter);
        }
        if safe {
            legal.push(m);
        }
        b = pb_copy(board, color);
        i += 1;
    }
    proof {
        assert(ms.take(list.count as int) =~= ms);
    }
    legal
}

/// A fresh copy of the board with `color` to move.
fn pb_copy(board: &Board, color: Color) -> (b: Board)
    ensures
        b == prepared(*board, color),
{
    let mut b = *board;
    prepare_side_to_move(&mut b, color);
    b
}

// ---------------------------------------------------------------- pawn breaks

/// Counts of pawn breaks: all of them, and those that free the side's pieces.
#[derive(Clone, Copy, Debug, PartialEq, Eq, Structural)]
pub struct PawnBreakCounts {
    pub total: u32,
    pub liberating: u32,
}

/// The board's hash keys as `Zobrist::new` draws them.
pub open spec fn std_zobrist() -> Zobrist {
    choose|z: Zobrist| z.is_standard()
}

/// No pawn of `color` but the one on `from` stands on the file of `from`.
pub open spec fn source_file_clear(b: Board, color: Color, from: int) -> bool {
    forall|s: int|
        !(#[trigger] bit(b.pieces[color.idx()][0], s) && file_of(s) == file_of(from) && s != from)
}

pub fn source_file_is_clear_after_move(board: &Board, color: Color, from: Square) -> (r: bool)
    requires
        from < 64,
    ensures
        r == source_file_clear(*board, color, from as int),
{
    let pawns = board.pieces[color.index()][0];
    let file = BB_FILES[sq_file(from) as usize];
    let rest = file & !bb(from);
    proof {
        broadcast use group_bit_lemmas;

        lemma_and_zero_iff(pawns, rest);
        assert forall|s: int| #[trigger] bit(rest, s) == (0 <= s < 64 && file_of(s) == file_of(from as int) && s != from) by {
            if 0 <= s < 64 {
                crate::eval_terms::lemma_file_rank_masks(s);
            }
        }
    }
    pawns & rest == 0
}

/// No enemy pawn stands ahead of the pawn of `color` on `sq`, on its file or the
/// adjacent files.
pub open spec fn passed_at(b: Board, color: Color, sq: int) -> bool {
    let f = file_of(sq);
    clear_ahead(
        b.pieces[color.opposite().idx()][0],
        color,
        rank_of(sq),
        BB_FILES[f] | adjacent_files(f),
    )
}

pub fn is_passed_pawn(board: &Board, color: Color, sq: Square) -> (r: bool)
    requires
        sq < 64,
    ensures
        r == passed_at(*board, color, sq as int),
{
    let file = sq_file(sq);
    let rank = sq_rank(sq);
    let files = BB_FILES[file as usize] | adjacent_files_of(file);
    let their_pawns = board.pieces[color.flip().index()][0];
    let ahead = ranks_ahead(color, rank, files);
    proof {
        lemma_and_zero_iff(their_pawns, ahead);
    }
    their_pawns & ahead == 0
}

/// A pawn move of `color` is a break when it captures and leaves its file without
/// own pawns, or when it turns a pawn that was not passed into a passed one
/// (promotions aside).
#[verifier::opaque]
pub open spec fn pawn_break(b: Board, color: Color, m: Move) -> bool {
    let from = from_of(m) as int;
    let to = to_of(m) as int;
    let mover = b.sq_piece[from];
    if mover == PIECE_NONE || color_of_piece(mover) != color || type_of_piece(mover)
        != PieceType::Pawn {
        false
    } else {
        let captures = b.sq_piece[to] != PIECE_NONE || flags_of(m) == MF_EN_PASSANT;
        let opens = captures && source_file_clear(b, color, from);
        let creates = !passed_at(b, color, from) && flags_of(m) != MF_PROMOTION && passed_at(
            successor(prepared(b, color), m, std_zobrist()),
            color,
            to,
        );
        opens || creates
    }
}

/// The board that `make_move` leaves after `m` on `b` is `successor(b, m, z)`.
proof fn lemma_made_is_successor(b: Board, b1: Board, u: UndoInfo, m: Move, z: Zobrist)
    requires
        make_post(b, b1, u, m, z),
    ensures
        b1 == successor(b, m, z),
{
    assert(made_by(b, b1, m, z));
    let s = successor(b, m, z);
    assert(made_by(b, s, m, z));
    let us = choose|u2: UndoInfo| #[trigger] make_post(b, s, u2, m, z);
    lemma_make_post_unique(b, b1, u, s, us, m, z);
}

pub fn is_pawn_break(board: &Board, color: Color, m: Move) -> (r: bool)
    requires
        board.consistent(),
        move_applicable(prepared(*board, color), m),
    ensures
        r == pawn_break(*board, color, m),
{
    reveal(pawn_break);
    let from = move_from(m);
    let to = move_to(m);
    let mover = board.sq_piece[from as usize];
    if mover == PIECE_NONE || piece_color(mover) != color || piece_type(mover) != PieceType::Pawn {
        return false;
    }
    let captures = board.sq_piece[to as usize] != PIECE_NONE || move_flags(m) == MF_EN_PASSANT;
    let opens_source_file = captures && source_file_is_clear_after_move(board, color, from);
    let creates_passer = !is_passed_pawn(board, color, from) && {
        let mut next = *board;
        prepare_side_to_move(&mut next, color);
        let ghost pb = next;
        let z = Zobrist::new();
        let undo = next.make_move(m, &z);
        proof {
            lemma_made_is_successor(pb, next, undo, m, z);
            assert(std_zobrist().is_standard());
            lemma_standard_unique(z, std_zobrist());
        }
        move_flags(m) != MF_PROMOTION && is_passed_pawn(&next, color, to)
    };
    opens_source_file || creates_passer
}

/// The pseudo-legal mobility of `color` (pawn moves and the reach of the pieces).
#[verifier::opaque]
pub open spec fn mobility_of(b: Board, color: Color) -> int {
    side_mobility_value(b, color)
}

/// The pseudo-legal mobility of `color`.
pub fn mobility_for(board: &Board, atk: &AttackTables, color: Color) -> (n: u32)
    requires
        board.consistent(),
        atk.wf(),
    ensures
        n == mobility_of(*board, color),
        n <= 16704,
{
    reveal(mobility_of);
    let options = EngineOptions::default();
    let ctx = EvalContext { atk, options: &options };
    side_mobility(board, &ctx, color)
}

/// How many moves of `ms` meet `p`.
pub open spec fn count_where(ms: Seq<Move>, p: spec_fn(Move) -> bool) -> nat
    decreases ms.len(),
{
    if ms.len() == 0 {
        0
    } else {
        (if p(ms[0]) {
            1nat
        } else {
            0nat
        }) + count_where(ms.drop_first(), p)
    }
}

/// A pawn break that raises the side's mobility by more than the liberating gain.
#[verifier::opaque]
pub open spec fn liberating_break(b: Board, z: Zobrist, color: Color, m: Move) -> bool {
    pawn_break(b, color, m) && mobility_of(successor(prepared(b, color), m, z), color)
        > mobility_of(b, color) + 5
}

pub open spec fn break_pred(b: Board, color: Color) -> spec_fn(Move) -> bool {
    |m: Move| pawn_break(b, color, m)
}

pub open spec fn liberating_pred(b: Board, z: Zobrist, color: Color) -> spec_fn(Move) -> bool {
    |m: Move| liberating_break(b, z, color, m)
}

/// The pawn breaks among the legal moves of `color`, and the liberating ones.
pub open spec fn break_counts(b: Board, z: Zobrist, color: Color) -> (nat, nat) {
    let ms = legal_moves(b, z, color);
    (
        count_where(ms, break_pred(b, color)),
        count_where(ms, liberating_pred(b, z, color)),
    )
}

/// Whether a legal move is a pawn break, and whether it is a liberating one.
fn break_step(board: &Board, atk: &AttackTables, z: &Zobrist, color: Color, m: Move, before_mobility: u32) -> (r: (bool, bool))
    requires
        atk.wf(),
        board.consistent(),
        move_applicable(prepared(*board, color), m),
        before_mobility == mobility_of(*board, color),
        before_mobility <= 16704,
    ensures
        r.0 == pawn_break(*board, color, m),
        r.1 == liberating_break(*board, *z, color, m),
{
    reveal(liberating_break);
    if !is_pawn_break(board, color, m) {
        return (false, false);
    }
    let mut next = *board;
    prepare_side_to_move(&mut next, color);
    let ghost pb = next;
    let undo = next.make_move(m, z);
    proof {
        lemma_made_is_successor(pb, next, undo, m, *z);
    }
    let after_mobility = mobility_for(&next, atk, color);
    (true, after_mobility > before_mobility + LIBERATING_MOBILITY_GAIN)
}

#[verifier::spinoff_prover]
#[verifier::rlimit(40)]
pub fn count_pawn_breaks(board: &Board, atk: &AttackTables, z: &Zobrist, color: Color) -> (c: PawnBreakCounts)
    requires
        atk.wf(),
        board.consistent(),
        moves_playable(*board, color),
    ensures
        (c.total as nat, c.liberating as nat) == break_counts(*board, *z, color),
{
    let before_mobility = mobility_for(board, atk, color);
    let legal = legal_moves_for_color(board, atk, z, color);
    let ghost ms = legal@;
    let ghost p1 = break_pred(*board, color);
    let ghost p2 = liberating_pred(*board, *z, color);
    let mut total: u32 = 0;
    let mut liberating: u32 = 0;
    let mut i: usize = 0;
    proof {
        assert(ms.subrange(0, ms.len() as int) =~= ms);
    }
    while i < legal.len()
        invariant
            atk.wf(),
            board.consistent(),
            ms == legal@,
            ms.len() <= 256,
            forall|k: int| 0 <= k < ms.len() ==> move_applicable(prepared(*board, color), #[trigger] ms[k]),
            before_mobility == mobility_of(*board, color),
            before_mobility <= 16704,
            i <= legal.len(),
            p1 == break_pred(*board, color),
            p2 == liberating_pred(*board, *z, color),
            total + count_where(ms.subrange(i as int, ms.len() as int), p1) == count_where(ms, p1),
            liberating + count_where(ms.subrange(i as int, ms.len() as int), p2) == count_where(ms, p2),
            total <= i,
            liberating <= i,
        decreases legal.len() - i,
    {
        let m = legal[i];
        proof {
            lemma_count_step(ms, i as int, p1);
            lemma_count_step(ms, i as int, p2);
        }
        let (is_break, frees) = break_step(board, atk, z, color, m, before_mobility);
        if is_break {
            total = total + 1;
        }
        if frees {
            liberating = liberating + 1;
        }
        i += 1;
    }
    proof {
        assert(ms.subrange(ms.len() as int, ms.len() as int) =~= Seq::<Move>::empty());
    }
    PawnBreakCounts { total, liberating }
}

/// Counting over the moves from `i` on takes the move at `i` and goes on after it.
proof fn lemma_count_step(ms: Seq<Move>, i: int, p: spec_fn(Move) -> bool)
    requires
        0 <= i < ms.len(),
    ensures
        count_where(ms.subrange(i, ms.len() as int), p) == (if p(ms[i]) {
            1nat
        } else {
            0nat
        }) + count_where(ms.subrange(i + 1, ms.len() as int), p),
{
    let rest = ms.subrange(i, ms.len() as int);
    assert(rest.drop_first() =~= ms.subrange(i + 1, ms.len() as int));
}

// ---------------------------------------------------------------- piece redeployments

/// A quiet move of a knight, bishop, rook or queen of `color` to an empty square.
pub open spec fn quiet_piece_move(b: Board, color: Color, m: Move) -> bool {
    let mover = b.sq_piece[from_of(m) as int];
    &&& mover != PIECE_NONE
    &&& color_of_piece(mover) == color
    &&& type_of_piece(mover) != PieceType::Pawn
    &&& type_of_piece(mover) != PieceType::King
    &&& flags_of(m) == MF_NORMAL
    &&& b.sq_piece[to_of(m) as int] == PIECE_NONE
}

pub fn is_quiet_piece_move(board: &Board, color: Color, m: Move) -> (r: bool)
    ensures
        r == quiet_piece_move(*board, color, m),
{
    let from = move_from(m);
    let to = move_to(m);
    let mover = board.sq_piece[from as usize];
    if mover == PIECE_NONE || piece_color(mover) != color {
        return false;
    }
    let pt = piece_type(mover);
    if pt == PieceType::Pawn || pt == PieceType::King {
        return false;
    }
    move_flags(m) == MF_NORMAL && board.sq_piece[to as usize] == PIECE_NONE
}

/// The squares a piece of type `pt` on `sq` reaches that hold no piece of `color`
/// (none for pawns and kings).
pub open spec fn piece_reach(b: Board, color: Color, pt: PieceType, sq: int) -> int {
    let attacks = match pt {
        PieceType::Knight => attack_set(1, sq, b.occ_all),
        PieceType::Bishop => attack_set(2, sq, b.occ_all),
        PieceType::Rook => attack_set(3, sq, b.occ_all),
        PieceType::Queen => attack_set(4, sq, b.occ_all),
        _ => 0u64,
    };
    popcount(attacks & !b.occ[color.idx()]) as int
}

pub fn piece_mobility(board: &Board, atk: &AttackTables, color: Color, pt: PieceType, sq: Square) -> (n: u32)
    requires
        atk.wf(),
        sq < 64,
    ensures
        n == piece_reach(*board, color, pt, sq as int),
        n <= 64,
{
    let our_occ = board.occ[color.index()];
    let attacks = match pt {
        PieceType::Knight => piece_attack_set(atk, 1, sq, board.occ_all),
        PieceType::Bishop => piece_attack_set(atk, 2, sq, board.occ_all),
        PieceType::Rook => piece_attack_set(atk, 3, sq, board.occ_all),
        PieceType::Queen => piece_attack_set(atk, 4, sq, board.occ_all),
        _ => 0,
    };
    let reach = attacks & !our_occ;
    proof {
        lemma_popcount_bound(reach);
    }
    bb_popcount(reach)
}

/// A quiet piece move after which the piece reaches at least the redeployment gain
/// more squares than before.
#[verifier::opaque]
pub open spec fn redeploys(b: Board, z: Zobrist, color: Color, m: Move) -> bool {
    let pt = type_of_piece(b.sq_piece[from_of(m) as int]);
    quiet_piece_move(b, color, m) && piece_reach(
        successor(prepared(b, color), m, z),
        color,
        pt,
        to_of(m) as int,
    ) >= piece_reach(b, color, pt, from_of(m) as int) + 3
}

/// The redeployments among the legal moves of `color`.
pub open spec fn redeployment_count(b: Board, z: Zobrist, color: Color) -> nat {
    count_where(legal_moves(b, z, color), redeploy_pred(b, z, color))
}

pub open spec fn redeploy_pred(b: Board, z: Zobrist, color: Color) -> spec_fn(Move) -> bool {
    |m: Move| redeploys(b, z, color, m)
}

/// Whether a legal move is a redeployment.
fn redeploy_step(board: &Board, atk: &AttackTables, z: &Zobrist, color: Color, m: Move) -> (r: bool)
    requires
        atk.wf(),
        board.consistent(),
        move_applicable(prepared(*board, color), m),
    ensures
        r == redeploys(*board, *z, color, m),
{
    reveal(redeploys);
    if !is_quiet_piece_move(board, color, m) {
        return false;
    }
    let from = move_from(m);
    let to = move_to(m);
    let pt = piece_type(board.sq_piece[from as usize]);
    let before = piece_mobility(board, atk, color, pt, from);
    let mut next = *board;
    prepare_side_to_move(&mut next, color);
    let ghost pb = next;
    let undo = next.make_move(m, z);
    proof {
        lemma_made_is_successor(pb, next, undo, m, *z);
    }
    let after = piece_mobility(&next, atk, color, pt, to);
    after >= before + REDEPLOYMENT_MOBILITY_GAIN
}

pub fn count_piece_redeployments(board: &Board, atk: &AttackTables, z: &Zobrist, color: Color) -> (n: u32)
    requires
        atk.wf(),
        board.consistent(),
        moves_playable(*board, color),
    ensures
        n as nat == redeployment_count(*board, *z, color),
{
    let mut count: u32 = 0;
    let legal = legal_moves_for_color(board, atk, z, color);
    let ghost ms = legal@;
    let ghost p = redeploy_pred(*board, *z, color);
    let mut i: usize = 0;
    proof {
        assert(ms.subrange(0, ms.len() as int) =~= ms);
    }
    while i < legal.len()
        invariant
            atk.wf(),
            board.consistent(),
            ms == legal@,
            ms.len() <= 256,
            forall|k: int| 0 <= k < ms.len() ==> move_applicable(prepared(*board, color), #[trigger] ms[k]),
            p == redeploy_pred(*board, *z, color),
            i <= legal.len(),
            count + count_where(ms.subrange(i as int, ms.len() as int), p) == count_where(ms, p),
            count <= i,
        decreases legal.len() - i,
    {
        let m = legal[i];
        proof {
            lemma_count_step(ms, i as int, p);
        }
        if redeploy_step(board, atk, z, color, m) {
            count = count + 1;
        }
        i += 1;
    }
    proof {
        assert(ms.subrange(ms.len() as int, ms.len() as int) =~= Seq::<Move>::empty());
    }
    count
}

// ---------------------------------------------------------------- restriction features

/// The features of a position that describe how restricted each side is.
#[derive(Clone, Debug)]
pub struct RestrictionFeatures {
    pub fen: String,
    pub side_to_move: Color,
    pub static_eval_cp: i32,
    pub white_score_cp: i32,
    pub phase: i32,
    pub material_cp: i32,
    pub pst_cp: i32,
    pub mobility_cp: i32,
    pub pawn_structure_cp: i32,
    pub king_safety_cp: i32,
    pub material_mg: i32,
    pub material_eg: i32,
    pub pst_mg: i32,
    pub pst_eg: i32,
    pub mobility_white: u32,
    pub mobility_black: u32,
    pub mobility_mg: i32,
    pub mobility_eg: i32,
    pub pawn_structure_mg: i32,
    pub pawn_structure_eg: i32,
    pub king_safety_mg: i32,
    pub king_safety_eg: i32,
    pub white_pawn_breaks: u32,
    pub black_pawn_breaks: u32,
    pub liberating_breaks_white: u32,
    pub liberating_breaks_black: u32,
    pub piece_redeployment_white: u32,
    pub piece_redeployment_black: u32,
}

/// The CSV header of the features.
pub open spec fn features_header_text() -> Seq<char> {
    "fen,side_to_move,static_eval_cp,white_score_cp,phase,material_cp,pst_cp,mobility_cp,pawn_structure_cp,king_safety_cp,material_mg,material_eg,pst_mg,pst_eg,mobility_white,mobility_black,mobility_mg,mobility_eg,pawn_structure_mg,pawn_structure_eg,king_safety_mg,king_safety_eg,white_pawn_breaks,black_pawn_breaks,liberating_breaks_white,liberating_breaks_black,piece_redeployment_white,piece_redeployment_black"@
}

/// `w` or `b`.
pub open spec fn side_letter(c: Color) -> Seq<char> {
    match c {
        Color::White => "w"@,
        Color::Black => "b"@,
    }
}

pub fn color_name(color: Color) -> (s: &'static str)
    ensures
        s@ == side_letter(color),
{
    match color {
        Color::White => "w",
        Color::Black => "b",
    }
}

/// The text with each double quote doubled.
pub open spec fn csv_escape(s: Seq<char>) -> Seq<char>
    decreases s.len(),
{
    if s.len() == 0 {
        Seq::empty()
    } else if s.last() == '"' {
        csv_escape(s.drop_last()) + seq!['"', '"']
    } else {
        csv_escape(s.drop_last()).push(s.last())
    }
}

/// The text as a quoted CSV field.
pub open spec fn csv_quoted(s: Seq<char>) -> Seq<char> {
    seq!['"'] + csv_escape(s) + seq!['"']
}

pub fn csv_string(value: &str) -> (r: String)
    ensures
        r@ == csv_quoted(value@),
{
    let chars = crate::types::str_chars(value);
    let mut out = String::new();
    crate::types::push_char(&mut out, '"');
    let mut i: usize = 0;
    proof {
        assert(chars@.take(0) =~= Seq::<char>::empty());
    }
    while i < chars.len()
        invariant
            i <= chars.len(),
            out@ == seq!['"'] + csv_escape(chars@.take(i as int)),
        decreases chars.len() - i,
    {
        let c = chars[i];
        proof {
            assert(chars@.take(i + 1).drop_last() =~= chars@.take(i as int));
            assert(chars@.take(i + 1).last() == c);
        }
        if c == '"' {
            crate::types::push_char(&mut out, '"');
            crate::types::push_char(&mut out, '"');
            proof {
                assert(out@ =~= seq!['"'] + csv_escape(chars@.take(i + 1)));
            }
        } else {
            crate::types::push_char(&mut out, c);
            proof {
                assert(out@ =~= seq!['"'] + csv_escape(chars@.take(i + 1)));
            }
        }
        i += 1;
    }
    crate::types::push_char(&mut out, '"');
    proof {
        assert(chars@.take(chars@.len() as int) =~= chars@);
    }
    out
}

/// The CSV fields of the features, in header order.
pub open spec fn feature_fields(f: RestrictionFeatures) -> Seq<Seq<char>> {
    seq![
        csv_quoted(f.fen@),
        side_letter(f.side_to_move),
        signed_decimal(f.static_eval_cp as int),
        signed_decimal(f.white_score_cp as int),
        signed_decimal(f.phase as int),
        signed_decimal(f.material_cp as int),
        signed_decimal(f.pst_cp as int),
        signed_decimal(f.mobility_cp as int),
        signed_decimal(f.pawn_structure_cp as int),
        signed_decimal(f.king_safety_cp as int),
        signed_decimal(f.material_mg as int),
        signed_decimal(f.material_eg as int),
        signed_decimal(f.pst_mg as int),
        signed_decimal(f.pst_eg as int),
        decimal(f.mobility_white as nat),
        decimal(f.mobility_black as nat),
        signed_decimal(f.mobility_mg as int),
        signed_decimal(f.mobility_eg as int),
        signed_decimal(f.pawn_structure_mg as int),
        signed_decimal(f.pawn_structure_eg as int),
        signed_decimal(f.king_safety_mg as int),
        signed_decimal(f.king_safety_eg as int),
        decimal(f.white_pawn_breaks as nat),
        decimal(f.black_pawn_breaks as nat),
        decimal(f.liberating_breaks_white as nat),
        decimal(f.liberating_breaks_black as nat),
        decimal(f.piece_redeployment_white as nat),
        decimal(f.piece_redeployment_black as nat),
    ]
}

/// Appends `,` and the decimal text of a signed value.
fn push_signed(s: &mut String, v: i32, Ghost(fs): Ghost<Seq<Seq<char>>>) -> (fs1: Ghost<Seq<Seq<char>>>)
    requires
        fs.len() >= 1,
        old(s)@ == joined(fs),
    ensures
        fs1@ == fs.push(signed_decimal(v as int)),
        final(s)@ == joined(fs1@),
{
    let t = i64_text(v as i64);
    push_field(s, t.as_str(), Ghost(fs));
    Ghost(fs.push(t@))
}

/// Appends `,` and the decimal text of an unsigned value.
fn push_unsigned(s: &mut String, v: u32, Ghost(fs): Ghost<Seq<Seq<char>>>) -> (fs1: Ghost<Seq<Seq<char>>>)
    requires
        fs.len() >= 1,
        old(s)@ == joined(fs),
    ensures
        fs1@ == fs.push(decimal(v as nat)),
        final(s)@ == joined(fs1@),
{
    let t = u64_text(v as u64);
    push_field(s, t.as_str(), Ghost(fs));
    Ghost(fs.push(t@))
}

impl RestrictionFeatures {
    pub fn csv_header() -> (s: &'static str)
        ensures
            s@ == features_header_text(),
    {
        "fen,side_to_move,static_eval_cp,white_score_cp,phase,material_cp,pst_cp,mobility_cp,pawn_structure_cp,king_safety_cp,material_mg,material_eg,pst_mg,pst_eg,mobility_white,mobility_black,mobility_mg,mobility_eg,pawn_structure_mg,pawn_structure_eg,king_safety_mg,king_safety_eg,white_pawn_breaks,black_pawn_breaks,liberating_breaks_white,liberating_breaks_black,piece_redeployment_white,piece_redeployment_black"
    }

    /// Fields 2 to 14 of the row.
    #[verifier::rlimit(50)]
    fn row_first(&self, s: &mut String, Ghost(fs0): Ghost<Seq<Seq<char>>>) -> (fs1: Ghost<Seq<Seq<char>>>)
        requires
            fs0 == feature_fields(*self).subrange(0, 2),
            old(s)@ == joined(fs0),
        ensures
            fs1@ == feature_fields(*self).subrange(0, 14),
            final(s)@ == joined(fs1@),
    {
        let fs = push_signed(s, self.static_eval_cp, Ghost(fs0));
        let fs = push_signed(s, self.white_score_cp, fs);
        let fs = push_signed(s, self.phase, fs);
        let fs = push_signed(s, self.material_cp, fs);
        let fs = push_signed(s, self.pst_cp, fs);
        let fs = push_signed(s, self.mobility_cp, fs);
        let fs = push_signed(s, self.pawn_structure_cp, fs);
        let fs = push_signed(s, self.king_safety_cp, fs);
        let fs = push_signed(s, self.material_mg, fs);
        let fs = push_signed(s, self.material_eg, fs);
        let fs = push_signed(s, self.pst_mg, fs);
        let fs = push_signed(s, self.pst_eg, fs);
        proof {
            assert(fs@ =~= feature_fields(*self).subrange(0, 14));
        }
        fs
    }

    /// Fields 15 to 28 of the row.
    #[verifier::rlimit(50)]
    fn row_second(&self, s: &mut String, Ghost(fs0): Ghost<Seq<Seq<char>>>) -> (fs1: Ghost<Seq<Seq<char>>>)
        requires
            fs0 == feature_fields(*self).subrange(0, 14),
            old(s)@ == joined(fs0),
        ensures
            fs1@ == feature_fields(*self),
            final(s)@ == joined(fs1@),
    {
        let fs = push_unsigned(s, self.mobility_white, Ghost(fs0));
        let fs = push_unsigned(s, self.mobility_black, fs);
        let fs = push_signed(s, self.mobility_mg, fs);
        let fs = push_signed(s, self.mobility_eg, fs);
        let fs = push_signed(s, self.pawn_structure_mg, fs);
        let fs = push_signed(s, self.pawn_structure_eg, fs);
        let fs = push_signed(s, self.king_safety_mg, fs);
        let fs = push_signed(s, self.king_safety_eg, fs);
        let fs = push_unsigned(s, self.white_pawn_breaks, fs);
        let fs = push_unsigned(s, self.black_pawn_breaks, fs);
        let fs = push_unsigned(s, self.liberating_breaks_white, fs);
        let fs = push_unsigned(s, self.liberating_breaks_black, fs);
        let fs = push_unsigned(s, self.piece_redeployment_white, fs);
        let fs = push_unsigned(s, self.piece_redeployment_black, fs);
        proof {
            assert(fs@ =~= feature_fields(*self));
        }
        fs
    }

    /// The features as one CSV row in header order.
    pub fn to_csv_row(&self) -> (s: String)
        ensures
            s@ == joined(feature_fields(*self)),
    {
        let mut s = csv_string(self.fen.as_str());
        let side = color_name(self.side_to_move);
        let ghost fs: Seq<Seq<char>> = seq![s@];
        push_field(&mut s, side, Ghost(fs));
        let ghost fs2 = fs.push(side@);
        proof {
            assert(fs2 =~= feature_fields(*self).subrange(0, 2));
        }
        let fs3 = self.row_first(&mut s, Ghost(fs2));
        let fs4 = self.row_second(&mut s, fs3);
        s
    }
}

/// `r` holds the features of `b`: its FEN and side to move, the evaluation terms
/// under the scales `o`, and the break and redeployment counts of both sides.
pub open spec fn features_match(r: RestrictionFeatures, b: Board, z: Zobrist, o: EvalOptions) -> bool {
    let e = breakdown_value(b, o);
    let wb = break_counts(b, z, Color::White);
    let kb = break_counts(b, z, Color::Black);
    &&& r.fen@ == fen_text(b)
    &&& r.side_to_move == b.side
    &&& r.static_eval_cp == e.side_to_move_score
    &&& r.white_score_cp == e.white_score
    &&& r.phase == e.phase
    &&& r.material_cp == e.material_cp
    &&& r.pst_cp == e.pst_cp
    &&& r.mobility_cp == e.mobility_cp
    &&& r.pawn_structure_cp == e.pawn_structure_cp
    &&& r.king_safety_cp == e.king_safety_cp
    &&& r.material_mg == e.material_mg
    &&& r.material_eg == e.material_eg
    &&& r.pst_mg == e.pst_mg
    &&& r.pst_eg == e.pst_eg
    &&& r.mobility_white == e.mobility_white
    &&& r.mobility_black == e.mobility_black
    &&& r.mobility_mg == e.mobility_mg
    &&& r.mobility_eg == e.mobility_eg
    &&& r.pawn_structure_mg == e.pawn_structure_mg
    &&& r.pawn_structure_eg == e.pawn_structure_eg
    &&& r.king_safety_mg == e.king_safety_mg
    &&& r.king_safety_eg == e.king_safety_eg
    &&& r.white_pawn_breaks as nat == wb.0
    &&& r.black_pawn_breaks as nat == kb.0
    &&& r.liberating_breaks_white as nat == wb.1
    &&& r.liberating_breaks_black as nat == kb.1
    &&& r.piece_redeployment_white as nat == redeployment_count(b, z, Color::White)
    &&& r.piece_redeployment_black as nat == redeployment_count(b, z, Color::Black)
}

pub fn extract_restriction_features(
    board: &Board,
    atk: &AttackTables,
    z: &Zobrist,
    options: EngineOptions,
) -> (r: RestrictionFeatures)
    requires
        board.consistent(),
        atk.wf(),
        scales_ok(options.eval),
        moves_playable(*board, Color::White),
        moves_playable(*board, Color::Black),
    ensures
        features_match(r, *board, *z, options.eval),
{
    let ctx = EvalContext { atk, options: &options };
    let eval = evaluate_breakdown(board, &ctx);
    let white_breaks = count_pawn_breaks(board, atk, z, Color::White);
    let black_breaks = count_pawn_breaks(board, atk, z, Color::Black);
    RestrictionFeatures {
        fen: board.to_fen(),
        side_to_move: board.side,
        static_eval_cp: eval.side_to_move_score,
        white_score_cp: eval.white_score,
        phase: eval.phase,
        material_cp: eval.material_cp,
        pst_cp: eval.pst_cp,
        mobility_cp: eval.mobility_cp,
        pawn_structure_cp: eval.pawn_structure_cp,
        king_safety_cp: eval.king_safety_cp,
        material_mg: eval.material_mg,
        material_eg: eval.material_eg,
        pst_mg: eval.pst_mg,
        pst_eg: eval.pst_eg,
        mobility_white: eval.mobility_white,
        mobility_black: eval.mobility_black,
        mobility_mg: eval.mobility_mg,
        mobility_eg: eval.mobility_eg,
        pawn_structure_mg: eval.pawn_structure_mg,
        pawn_structure_eg: eval.pawn_structure_eg,
        king_safety_mg: eval.king_safety_mg,
        king_safety_eg: eval.king_safety_eg,
        white_pawn_breaks: white_breaks.total,
        black_pawn_breaks: black_breaks.total,
        liberating_breaks_white: white_breaks.liberating,
        liberating_breaks_black: black_breaks.liberating,
        piece_redeployment_white: count_piece_redeployments(board, atk, z, Color::White),
        piece_redeployment_black: count_piece_redeployments(board, atk, z, Color::Black),
    }
}

/// The column names of the features, in order.
pub open spec fn header_names() -> Seq<Seq<char>> {
    seq![
        "fen"@,
        "side_to_move"@,
        "static_eval_cp"@,
        "white_score_cp"@,
        "phase"@,
        "material_cp"@,
        "pst_cp"@,
        "mobility_cp"@,
        "pawn_structure_cp"@,
        "king_safety_cp"@,
        "material_mg"@,
        "material_eg"@,
        "pst_mg"@,
        "pst_eg"@,
        "mobility_white"@,
        "mobility_black"@,
        "mobility_mg"@,
        "mobility_eg"@,
        "pawn_structure_mg"@,
        "pawn_structure_eg"@,
        "king_safety_mg"@,
        "king_safety_eg"@,
        "white_pawn_breaks"@,
        "black_pawn_breaks"@,
        "liberating_breaks_white"@,
        "liberating_breaks_black"@,
        "piece_redeployment_white"@,
        "piece_redeployment_black"@,
    ]
}

#[verifier::rlimit(50)]
proof fn lemma_header_prefix_0()
    ensures
        crate::criticality::joined_upto(header_names(), 10) == "fen,side_to_move,static_eval_cp,white_score_cp,phase,material_cp,pst_cp,mobility_cp,pawn_structure_cp,king_safety_cp"@,
{
    let ns = header_names();
    reveal_strlit(",");
    reveal_strlit("fen");
    reveal_strlit("side_to_move");
    reveal_strlit("static_eval_cp");
    reveal_strlit("white_score_cp");
    reveal_strlit("phase");
    reveal_strlit("material_cp");
    reveal_strlit("pst_cp");
    reveal_strlit("mobility_cp");
    reveal_strlit("pawn_structure_cp");
    reveal_strlit("king_safety_cp");
    reveal_strlit("fen");
    assert(crate::criticality::joined_upto(ns, 1) == "fen"@);
    reveal_strlit("fen,side_to_move");
    assert(crate::criticality::joined_upto(ns, 2) =~= "fen,side_to_move"@);
    reveal_strlit("fen,side_to_move,static_eval_cp");
    assert(crate::criticality::joined_upto(ns, 3) =~= "fen,side_to_move,static_eval_cp"@);
    reveal_strlit("fen,side_to_move,static_eval_cp,white_score_cp");
    assert(crate::criticality::joined_upto(ns, 4) =~= "fen,side_to_move,static_eval_cp,white_score_cp"@);
    reveal_strlit("fen,side_to_move,static_eval_cp,white_score_cp,phase");
    assert(crate::criticality::joined_upto(ns, 5) =~= "fen,side_to_move,static_eval_cp,white_score_cp,phase"@);
    reveal_strlit("fen,side_to_move,static_eval_cp,white_score_cp,phase,material_cp");
    assert(crate::criticality::joined_upto(ns, 6) =~= "fen,side_to_move,static_eval_cp,white_score_cp,phase,material_cp"@);
    reveal_strlit("fen,side_to_move,static_eval_cp,white_score_cp,phase,material_cp,pst_cp");
    assert(crate::criticality::joined_upto(ns, 7) =~= "fen,side_to_move,static_eval_cp,white_score_cp,phase,material_cp,pst_cp"@);
    reveal_strlit("fen,side_to_move,static_eval_cp,white_score_cp,phase,material_cp,pst_cp,mobility_cp");
    assert(crate::criticality::joined_upto(ns, 8) =~= "fen,side_to_move,static_eval_cp,white_score_cp,phase,material_cp,pst_cp,mobility_cp"@);
    reveal_strlit("fen,side_to_move,static_eval_cp,white_score_cp,phase,material_cp,pst_cp,mobility_cp,pawn_structure_cp");
    assert(crate::criticality::joined_upto(ns, 9) =~= "fen,side_to_move,static_eval_cp,white_score_cp,phase,material_cp,pst_cp,mobility_cp,pawn_structure_cp"@);
    reveal_strlit("fen,side_to_move,static_eval_cp,white_score_cp,phase,material_cp,pst_cp,mobility_cp,pawn_structure_cp,king_safety_cp");
    assert(crate::criticality::joined_upto(ns, 10) =~= "fen,side_to_move,static_eval_cp,white_score_cp,phase,material_cp,pst_cp,mobility_cp,pawn_structure_cp,king_safety_cp"@);
}

#[verifier::rlimit(50)]
proof fn lemma_header_prefix_1()
    ensures
        crate::criticality::joined_upto(header_names(), 20) == "fen,side_to_move,static_eval_cp,white_score_cp,phase,material_cp,pst_cp,mobility_cp,pawn_structure_cp,king_safety_cp,material_mg,material_eg,pst_mg,pst_eg,mobility_white,mobility_black,mobility_mg,mobility_eg,pawn_structure_mg,pawn_structure_eg"@,
{
    lemma_header_prefix_0();
    let ns = header_names();
    reveal_strlit(",");
    reveal_strlit("material_mg");
    reveal_strlit("material_eg");
    reveal_strlit("pst_mg");
    reveal_strlit("pst_eg");
    reveal_strlit("mobility_white");
    reveal_strlit("mobility_black");
    reveal_strlit("mobility_mg");
    reveal_strlit("mobility_eg");
    reveal_strlit("pawn_structure_mg");
    reveal_strlit("pawn_structure_eg");
    reveal_strlit("fen,side_to_move,static_eval_cp,white_score_cp,phase,material_cp,pst_cp,mobility_cp,pawn_structure_cp,king_safety_cp");
    reveal_strlit("fen,side_to_move,static_eval_cp,white_score_cp,phase,material_cp,pst_cp,mobility_cp,pawn_structure_cp,king_safety_cp,material_mg");
    assert(crate::criticality::joined_upto(ns, 11) =~= "fen,side_to_move,static_eval_cp,white_score_cp,phase,material_cp,pst_cp,mobility_cp,pawn_structure_cp,king_safety_cp,material_mg"@);
    reveal_strlit("fen,side_to_move,static_eval_cp,white_score_cp,phase,material_cp,pst_cp,mobility_cp,pawn_structure_cp,king_safety_cp,material_mg,material_eg");
    assert(crate::criticality::joined_upto(ns, 12) =~= "fen,side_to_move,static_eval_cp,white_score_cp,phase,material_cp,pst_cp,mobility_cp,pawn_structure_cp,king_safety_cp,material_mg,material_eg"@);
    reveal_strlit("fen,side_to_move,static_eval_cp,white_score_cp,phase,material_cp,pst_cp,mobility_cp,pawn_structure_cp,king_safety_cp,material_mg,material_eg,pst_mg");
    assert(crate::criticality::joined_upto(ns, 13) =~= "fen,side_to_move,static_eval_cp,white_score_cp,phase,material_cp,pst_cp,mobility_cp,pawn_structure_cp,king_safety_cp,material_mg,material_eg,pst_mg"@);
    reveal_strlit("fen,side_to_move,static_eval_cp,white_score_cp,phase,material_cp,pst_cp,mobility_cp,pawn_structure_cp,king_safety_cp,material_mg,material_eg,pst_mg,pst_eg");
    assert(crate::criticality::joined_upto(ns, 14) =~= "fen,side_to_move,static_eval_cp,white_score_cp,phase,material_cp,pst_cp,mobility_cp,pawn_structure_cp,king_safety_cp,material_mg,material_eg,pst_mg,pst_eg"@);
    reveal_strlit("fen,side_to_move,static_eval_cp,white_score_cp,phase,material_cp,pst_cp,mobility_cp,pawn_structure_cp,king_safety_cp,material_mg,material_eg,pst_mg,pst_eg,mobility_white");
    assert(crate::criticality::joined_upto(ns, 15) =~= "fen,side_to_move,static_eval_cp,white_score_cp,phase,material_cp,pst_cp,mobility_cp,pawn_structure_cp,king_safety_cp,material_mg,material_eg,pst_mg,pst_eg,mobility_white"@);
    reveal_strlit("fen,side_to_move,static_eval_cp,white_score_cp,phase,material_cp,pst_cp,mobility_cp,pawn_structure_cp,king_safety_cp,material_mg,material_eg,pst_mg,pst_eg,mobility_white,mobility_black");
    assert(crate::criticality::joined_upto(ns, 16) =~= "fen,side_to_move,static_eval_cp,white_score_cp,phase,material_cp,pst_cp,mobility_cp,pawn_structure_cp,king_safety_cp,material_mg,material_eg,pst_mg,pst_eg,mobility_white,mobility_black"@);
    reveal_strlit("fen,side_to_move,static_eval_cp,white_score_cp,phase,material_cp,pst_cp,mobility_cp,pawn_structure_cp,king_safety_cp,material_mg,material_eg,pst_mg,pst_eg,mobility_white,mobility_black,mobility_mg");
    assert(crate::criticality::joined_upto(ns, 17) =~= "fen,side_to_move,static_eval_cp,white_score_cp,phase,material_cp,pst_cp,mobility_cp,pawn_structure_cp,king_safety_cp,material_mg,material_eg,pst_mg,pst_eg,mobility_white,mobility_black,mobility_mg"@);
    reveal_strlit("fen,side_to_move,static_eval_cp,white_score_cp,phase,material_cp,pst_cp,mobility_cp,pawn_structure_cp,king_safety_cp,material_mg,material_eg,pst_mg,pst_eg,mobility_white,mobility_black,mobility_mg,mobility_eg");
    assert(crate::criticality::joined_upto(ns, 18) =~= "fen,side_to_move,static_eval_cp,white_score_cp,phase,material_cp,pst_cp,mobility_cp,pawn_structure_cp,king_safety_cp,material_mg,material_eg,pst_mg,pst_eg,mobility_white,mobility_black,mobility_mg,mobility_eg"@);
    reveal_strlit("fen,side_to_move,static_eval_cp,white_score_cp,phase,material_cp,pst_cp,mobility_cp,pawn_structure_cp,king_safety_cp,material_mg,material_eg,pst_mg,pst_eg,mobility_white,mobility_black,mobility_mg,mobility_eg,pawn_structure_mg");
    assert(crate::criticality::joined_upto(ns, 19) =~= "fen,side_to_move,static_eval_cp,white_score_cp,phase,material_cp,pst_cp,mobility_cp,pawn_structure_cp,king_safety_cp,material_mg,material_eg,pst_mg,pst_eg,mobility_white,mobility_black,mobility_mg,mobility_eg,pawn_structure_mg"@);
    reveal_strlit("fen,side_to_move,static_eval_cp,white_score_cp,phase,material_cp,pst_cp,mobility_cp,pawn_structure_cp,king_safety_cp,material_mg,material_eg,pst_mg,pst_eg,mobility_white,mobility_black,mobility_mg,mobility_eg,pawn_structure_mg,pawn_structure_eg");
    assert(crate::criticality::joined_upto(ns, 20) =~= "fen,side_to_move,static_eval_cp,white_score_cp,phase,material_cp,pst_cp,mobility_cp,pawn_structure_cp,king_safety_cp,material_mg,material_eg,pst_mg,pst_eg,mobility_white,mobility_black,mobility_mg,mobility_eg,pawn_structure_mg,pawn_structure_eg"@);
}

#[verifier::rlimit(50)]
proof fn lemma_header_prefix_2()
    ensures
        crate::criticality::joined_upto(header_names(), 28) == "fen,side_to_move,static_eval_cp,white_score_cp,phase,material_cp,pst_cp,mobility_cp,pawn_structure_cp,king_safety_cp,material_mg,material_eg,pst_mg,pst_eg,mobility_white,mobility_black,mobility_mg,mobility_eg,pawn_structure_mg,pawn_structure_eg,king_safety_mg,king_safety_eg,white_pawn_breaks,black_pawn_breaks,liberating_breaks_white,liberating_breaks_black,piece_redeployment_white,piece_redeployment_black"@,
{
    lemma_header_prefix_1();
    let ns = header_names();
    reveal_strlit(",");
    reveal_strlit("king_safety_mg");
    reveal_strlit("king_safety_eg");
    reveal_strlit("white_pawn_breaks");
    reveal_strlit("black_pawn_breaks");
    reveal_strlit("liberating_breaks_white");
    reveal_strlit("liberating_breaks_black");
    reveal_strlit("piece_redeployment_white");
    reveal_strlit("piece_redeployment_black");
    reveal_strlit("fen,side_to_move,static_eval_cp,white_score_cp,phase,material_cp,pst_cp,mobility_cp,pawn_structure_cp,king_safety_cp,material_mg,material_eg,pst_mg,pst_eg,mobility_white,mobility_black,mobility_mg,mobility_eg,pawn_structure_mg,pawn_structure_eg");
    reveal_strlit("fen,side_to_move,static_eval_cp,white_score_cp,phase,material_cp,pst_cp,mobility_cp,pawn_structure_cp,king_safety_cp,material_mg,material_eg,pst_mg,pst_eg,mobility_white,mobility_black,mobility_mg,mobility_eg,pawn_structure_mg,pawn_structure_eg,king_safety_mg");
    assert(crate::criticality::joined_upto(ns, 21) =~= "fen,side_to_move,static_eval_cp,white_score_cp,phase,material_cp,pst_cp,mobility_cp,pawn_structure_cp,king_safety_cp,material_mg,material_eg,pst_mg,pst_eg,mobility_white,mobility_black,mobility_mg,mobility_eg,pawn_structure_mg,pawn_structure_eg,king_safety_mg"@);
    reveal_strlit("fen,side_to_move,static_eval_cp,white_score_cp,phase,material_cp,pst_cp,mobility_cp,pawn_structure_cp,king_safety_cp,material_mg,material_eg,pst_mg,pst_eg,mobility_white,mobility_black,mobility_mg,mobility_eg,pawn_structure_mg,pawn_structure_eg,king_safety_mg,king_safety_eg");
    assert(crate::criticality::joined_upto(ns, 22) =~= "fen,side_to_move,static_eval_cp,white_score_cp,phase,material_cp,pst_cp,mobility_cp,pawn_structure_cp,king_safety_cp,material_mg,material_eg,pst_mg,pst_eg,mobility_white,mobility_black,mobility_mg,mobility_eg,pawn_structure_mg,pawn_structure_eg,king_safety_mg,king_safety_eg"@);
    reveal_strlit("fen,side_to_move,static_eval_cp,white_score_cp,phase,material_cp,pst_cp,mobility_cp,pawn_structure_cp,king_safety_cp,material_mg,material_eg,pst_mg,pst_eg,mobility_white,mobility_black,mobility_mg,mobility_eg,pawn_structure_mg,pawn_structure_eg,king_safety_mg,king_safety_eg,white_pawn_breaks");
    assert(crate::criticality::joined_upto(ns, 23) =~= "fen,side_to_move,static_eval_cp,white_score_cp,phase,material_cp,pst_cp,mobility_cp,pawn_structure_cp,king_safety_cp,material_mg,material_eg,pst_mg,pst_eg,mobility_white,mobility_black,mobility_mg,mobility_eg,pawn_structure_mg,pawn_structure_eg,king_safety_mg,king_safety_eg,white_pawn_breaks"@);
    reveal_strlit("fen,side_to_move,static_eval_cp,white_score_cp,phase,material_cp,pst_cp,mobility_cp,pawn_structure_cp,king_safety_cp,material_mg,material_eg,pst_mg,pst_eg,mobility_white,mobility_black,mobility_mg,mobility_eg,pawn_structure_mg,pawn_structure_eg,king_safety_mg,king_safety_eg,white_pawn_breaks,black_pawn_breaks");
    assert(crate::criticality::joined_upto(ns, 24) =~= "fen,side_to_move,static_eval_cp,white_score_cp,phase,material_cp,pst_cp,mobility_cp,pawn_structure_cp,king_safety_cp,material_mg,material_eg,pst_mg,pst_eg,mobility_white,mobility_black,mobility_mg,mobility_eg,pawn_structure_mg,pawn_structure_eg,king_safety_mg,king_safety_eg,white_pawn_breaks,black_pawn_breaks"@);
    reveal_strlit("fen,side_to_move,static_eval_cp,white_score_cp,phase,material_cp,pst_cp,mobility_cp,pawn_structure_cp,king_safety_cp,material_mg,material_eg,pst_mg,pst_eg,mobility_white,mobility_black,mobility_mg,mobility_eg,pawn_structure_mg,pawn_structure_eg,king_safety_mg,king_safety_eg,white_pawn_breaks,black_pawn_breaks,liberating_breaks_white");
    assert(crate::criticality::joined_upto(ns, 25) =~= "fen,side_to_move,static_eval_cp,white_score_cp,phase,material_cp,pst_cp,mobility_cp,pawn_structure_cp,king_safety_cp,material_mg,material_eg,pst_mg,pst_eg,mobility_white,mobility_black,mobility_mg,mobility_eg,pawn_structure_mg,pawn_structure_eg,king_safety_mg,king_safety_eg,white_pawn_breaks,black_pawn_breaks,liberating_breaks_white"@);
    reveal_strlit("fen,side_to_move,static_eval_cp,white_score_cp,phase,material_cp,pst_cp,mobility_cp,pawn_structure_cp,king_safety_cp,material_mg,material_eg,pst_mg,pst_eg,mobility_white,mobility_black,mobility_mg,mobility_eg,pawn_structure_mg,pawn_structure_eg,king_safety_mg,king_safety_eg,white_pawn_breaks,black_pawn_breaks,liberating_breaks_white,liberating_breaks_black");
    assert(crate::criticality::joined_upto(ns, 26) =~= "fen,side_to_move,static_eval_cp,white_score_cp,phase,material_cp,pst_cp,mobility_cp,pawn_structure_cp,king_safety_cp,material_mg,material_eg,pst_mg,pst_eg,mobility_white,mobility_black,mobility_mg,mobility_eg,pawn_structure_mg,pawn_structure_eg,king_safety_mg,king_safety_eg,white_pawn_breaks,black_pawn_breaks,liberating_breaks_white,liberating_breaks_black"@);
    reveal_strlit("fen,side_to_move,static_eval_cp,white_score_cp,phase,material_cp,pst_cp,mobility_cp,pawn_structure_cp,king_safety_cp,material_mg,material_eg,pst_mg,pst_eg,mobility_white,mobility_black,mobility_mg,mobility_eg,pawn_structure_mg,pawn_structure_eg,king_safety_mg,king_safety_eg,white_pawn_breaks,black_pawn_breaks,liberating_breaks_white,liberating_breaks_black,piece_redeployment_white");
    assert(crate::criticality::joined_upto(ns, 27) =~= "fen,side_to_move,static_eval_cp,white_score_cp,phase,material_cp,pst_cp,mobility_cp,pawn_structure_cp,king_safety_cp,material_mg,material_eg,pst_mg,pst_eg,mobility_white,mobility_black,mobility_mg,mobility_eg,pawn_structure_mg,pawn_structure_eg,king_safety_mg,king_safety_eg,white_pawn_breaks,black_pawn_breaks,liberating_breaks_white,liberating_breaks_black,piece_redeployment_white"@);
    reveal_strlit("fen,side_to_move,static_eval_cp,white_score_cp,phase,material_cp,pst_cp,mobility_cp,pawn_structure_cp,king_safety_cp,material_mg,material_eg,pst_mg,pst_eg,mobility_white,mobility_black,mobility_mg,mobility_eg,pawn_structure_mg,pawn_structure_eg,king_safety_mg,king_safety_eg,white_pawn_breaks,black_pawn_breaks,liberating_breaks_white,liberating_breaks_black,piece_redeployment_white,piece_redeployment_black");
    assert(crate::criticality::joined_upto(ns, 28) =~= "fen,side_to_move,static_eval_cp,white_score_cp,phase,material_cp,pst_cp,mobility_cp,pawn_structure_cp,king_safety_cp,material_mg,material_eg,pst_mg,pst_eg,mobility_white,mobility_black,mobility_mg,mobility_eg,pawn_structure_mg,pawn_structure_eg,king_safety_mg,king_safety_eg,white_pawn_breaks,black_pawn_breaks,liberating_breaks_white,liberating_breaks_black,piece_redeployment_white,piece_redeployment_black"@);
}

proof fn lemma_header_is_joined_names()
    ensures
        features_header_text() == joined(header_names()),
{
    lemma_header_prefix_2();
    reveal_strlit("fen,side_to_move,static_eval_cp,white_score_cp,phase,material_cp,pst_cp,mobility_cp,pawn_structure_cp,king_safety_cp,material_mg,material_eg,pst_mg,pst_eg,mobility_white,mobility_black,mobility_mg,mobility_eg,pawn_structure_mg,pawn_structure_eg,king_safety_mg,king_safety_eg,white_pawn_breaks,black_pawn_breaks,liberating_breaks_white,liberating_breaks_black,piece_redeployment_white,piece_redeployment_black");
}

proof fn lemma_csv_escape_comma_free(s: Seq<char>)
    requires
        comma_free(s),
    ensures
        comma_free(csv_escape(s)),
    decreases s.len(),
{
    if s.len() > 0 {
        lemma_csv_escape_comma_free(s.drop_last());
    }
}

/// A row of features whose FEN holds no comma has exactly as many fields as the
/// header: both hold 27 commas.
pub proof fn lemma_row_matches_header_width(f: RestrictionFeatures)
    requires
        comma_free(f.fen@),
    ensures
        comma_count(joined(feature_fields(f))) == comma_count(features_header_text()),
        comma_count(features_header_text()) == 27,
{
    lemma_header_is_joined_names();
    let hs = header_names();
    reveal_strlit("fen");
    reveal_strlit("side_to_move");
    reveal_strlit("static_eval_cp");
    reveal_strlit("white_score_cp");
    reveal_strlit("phase");
    reveal_strlit("material_cp");
    reveal_strlit("pst_cp");
    reveal_strlit("mobility_cp");
    reveal_strlit("pawn_structure_cp");
    reveal_strlit("king_safety_cp");
    reveal_strlit("material_mg");
    reveal_strlit("material_eg");
    reveal_strlit("pst_mg");
    reveal_strlit("pst_eg");
    reveal_strlit("mobility_white");
    reveal_strlit("mobility_black");
    reveal_strlit("mobility_mg");
    reveal_strlit("mobility_eg");
    reveal_strlit("pawn_structure_mg");
    reveal_strlit("pawn_structure_eg");
    reveal_strlit("king_safety_mg");
    reveal_strlit("king_safety_eg");
    reveal_strlit("white_pawn_breaks");
    reveal_strlit("black_pawn_breaks");
    reveal_strlit("liberating_breaks_white");
    reveal_strlit("liberating_breaks_black");
    reveal_strlit("piece_redeployment_white");
    reveal_strlit("piece_redeployment_black");
    assert forall|i: int| 0 <= i < 28 implies comma_free(#[trigger] hs[i]) by {}
    lemma_joined_commas(hs, 28);
    let fs = feature_fields(f);
    reveal_strlit("w");
    reveal_strlit("b");
    lemma_csv_escape_comma_free(f.fen@);
    assert forall|i: int| 0 <= i < 28 implies comma_free(#[trigger] fs[i]) by {
        lemma_signed_decimal_comma_free(f.static_eval_cp as int);
        lemma_signed_decimal_comma_free(f.white_score_cp as int);
        lemma_signed_decimal_comma_free(f.phase as int);
        lemma_signed_decimal_comma_free(f.material_cp as int);
        lemma_signed_decimal_comma_free(f.pst_cp as int);
        lemma_signed_decimal_comma_free(f.mobility_cp as int);
        lemma_signed_decimal_comma_free(f.pawn_structure_cp as int);
        lemma_signed_decimal_comma_free(f.king_safety_cp as int);
        lemma_signed_decimal_comma_free(f.material_mg as int);
        lemma_signed_decimal_comma_free(f.material_eg as int);
        lemma_signed_decimal_comma_free(f.pst_mg as int);
        lemma_signed_decimal_comma_free(f.pst_eg as int);
        lemma_decimal_comma_free(f.mobility_white as nat);
        lemma_decimal_comma_free(f.mobility_black as nat);
        lemma_signed_decimal_comma_free(f.mobility_mg as int);
        lemma_signed_decimal_comma_free(f.mobility_eg as int);
        lemma_signed_decimal_comma_free(f.pawn_structure_mg as int);
        lemma_signed_decimal_comma_free(f.pawn_structure_eg as int);
        lemma_signed_decimal_comma_free(f.king_safety_mg as int);
        lemma_signed_decimal_comma_free(f.king_safety_eg as int);
        lemma_decimal_comma_free(f.white_pawn_breaks as nat);
        lemma_decimal_comma_free(f.black_pawn_breaks as nat);
        lemma_decimal_comma_free(f.liberating_breaks_white as nat);
        lemma_decimal_comma_free(f.liberating_breaks_black as nat);
        lemma_decimal_comma_free(f.piece_redeployment_white as nat);
        lemma_decimal_comma_free(f.piece_redeployment_black as nat);
    }
    lemma_joined_commas(fs, 28);
}

} // verus!
