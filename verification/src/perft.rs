use vstd::prelude::*;
use crate::board::{Board, UndoInfo, attacked_by};
use crate::magic::AttackTables;
use crate::makemove::{
    lemma_make_post_unique, lemma_unmake_undoes_make, make_post, move_applicable,
};
use crate::movegen::{gen_moves, generable, pseudo_moves};
use crate::types::{Color, Move, NO_SQUARE};
use crate::zobrist::Zobrist;

verus! {

/// `make_move` can turn `b` into `b1` with `m`.
pub open spec fn made_by(b: Board, b1: Board, m: Move, z: Zobrist) -> bool {
    exists|u: UndoInfo| #[trigger] make_post(b, b1, u, m, z)
}

/// The board `make_move` produces from `b` with `m`.
pub open spec fn successor(b: Board, m: Move, z: Zobrist) -> Board {
    choose|b1: Board| #[trigger] made_by(b, b1, m, z)
}

/// The king of `mover` is not attacked on `b1` (or `mover` has no king).
pub open spec fn king_safe(b1: Board, mover: Color) -> bool {
    !(b1.king_sq[mover.idx()] != NO_SQUARE && attacked_by(
        b1,
        b1.king_sq[mover.idx()] as int,
        mover.opposite(),
    ))
}

/// Every position reached within `depth` plies of pseudo-legal moves can be searched:
/// it can be generated, its moves fit a move list and can be made and taken back.
pub open spec fn perft_ok(b: Board, z: Zobrist, depth: nat) -> bool
    decreases depth,
{
    depth == 0 || {
        &&& generable(b)
        &&& b.kings_indexed()
        &&& pseudo_moves(b).len() <= 256
        &&& forall|i: int|
            0 <= i < pseudo_moves(b).len() ==> {
                &&& move_applicable(b, #[trigger] pseudo_moves(b)[i])
                &&& perft_ok(successor(b, pseudo_moves(b)[i], z), z, (depth - 1) as nat)
            }
    }
}

/// The number of legal move sequences of length `depth` from `b`: a move counts when
/// it leaves the mover's king unattacked.
pub open spec fn perft_count(b: Board, z: Zobrist, depth: nat) -> nat
    decreases depth, 1nat, 0nat,
{
    if depth == 0 {
        1
    } else {
        moves_count(b, z, pseudo_moves(b), depth)
    }
}

/// The sum over `ms` of the counts below the legal ones.
pub open spec fn moves_count(b: Board, z: Zobrist, ms: Seq<Move>, depth: nat) -> nat
    decreases depth, 0nat, ms.len(),
{
    if depth == 0 || ms.len() == 0 {
        0
    } else {
        let b1 = successor(b, ms[0], z);
        (if king_safe(b1, b.side) {
            perft_count(b1, z, (depth - 1) as nat)
        } else {
            0
        }) + moves_count(b, z, ms.drop_first(), depth)
    }
}

/// Counts the legal move sequences of length `depth`, leaving the board as it was.
pub fn perft(board: &mut Board, atk: &AttackTables, z: &Zobrist, depth: u32) -> (n: u64)
    requires
        atk.wf(),
        old(board).consistent(),
        perft_ok(*old(board), *z, depth as nat),
        perft_count(*old(board), *z, depth as nat) <= u64::MAX,
    ensures
        *final(board) == *old(board),
        n == perft_count(*old(board), *z, depth as nat),
    decreases depth,
{
    if depth == 0 {
        return 1;
    }
    let ghost b0 = *board;
    let ghost d = depth as nat;
    let list = gen_moves(board, atk);
    let ghost ms = pseudo_moves(b0);
    let mut nodes = 0u64;
    let mut i: usize = 0;
    proof {
        assert(ms.subrange(0, ms.len() as int) =~= ms);
    }
    while i < list.count
        invariant
            atk.wf(),
            0 < depth,
            d == depth as nat,
            *board == b0,
            b0.consistent(),
            perft_ok(b0, *z, d),
            perft_count(b0, *z, d) <= u64::MAX,
            list.wf(),
            list.view_moves() == ms,
            ms == pseudo_moves(b0),
            i <= list.count,
            nodes + moves_count(b0, *z, ms.subrange(i as int, ms.len() as int), d) == moves_count(
                b0,
                *z,
                ms,
                d,
            ),
        decreases list.count - i,
    {
        let m = list.moves[i];
        proof {
            assert(m == ms[i as int]);
            assert(move_applicable(b0, ms[i as int]));
            assert(perft_ok(successor(b0, ms[i as int], *z), *z, (d - 1) as nat));
        }
        let undo = board.make_move(m, z);
        let ghost b1 = *board;
        proof {
            assert(made_by(b0, b1, m, *z));
            let s = successor(b0, m, *z);
            assert(made_by(b0, s, m, *z));
            let us = choose|u: UndoInfo| #[trigger] make_post(b0, s, u, m, *z);
            lemma_make_post_unique(b0, b1, undo, s, us, m, *z);
            let rest = ms.subrange(i as int, ms.len() as int);
            assert(rest.drop_first() =~= ms.subrange(i as int + 1, ms.len() as int));
            assert(rest[0] == m);
        }
        let safe = !board.is_in_check(board.side.flip());
        if safe {
            let sub = perft(board, atk, z, depth - 1);
            nodes = nodes + sub;
        }
        proof {
            lemma_unmake_undoes_make(b0, b1, undo, b0, m, *z);
        }
        board.unmake_move(m, &undo, z);
        proof {
            lemma_unmake_undoes_make(b0, b1, undo, *board, m, *z);
        }
        i += 1;
    }
    proof {
        assert(ms.subrange(ms.len() as int, ms.len() as int) =~= Seq::<Move>::empty());
    }
    nodes
}


/// The moves whose successor leaves the mover's king unattacked.
pub open spec fn safe_pred(b: Board, z: Zobrist) -> spec_fn(Move) -> bool {
    |m: Move| king_safe(successor(b, m, z), b.side)
}

proof fn lemma_moves_count_one(b: Board, z: Zobrist, ms: Seq<Move>)
    ensures
        moves_count(b, z, ms, 1) == ms.filter(safe_pred(b, z)).len(),
    decreases ms.len(),
{
    let pred = safe_pred(b, z);
    if ms.len() > 0 {
        lemma_moves_count_one(b, z, ms.drop_first());
        let head = seq![ms[0]];
        assert(ms =~= head + ms.drop_first());
        Seq::filter_distributes_over_add(head, ms.drop_first(), pred);
        assert(head.drop_last() =~= Seq::<Move>::empty());
        assert(head.filter(pred).len() == if pred(ms[0]) {
            1int
        } else {
            0
        }) by {
            reveal_with_fuel(Seq::filter, 2);
        }
        let b1 = successor(b, ms[0], z);
        assert(perft_count(b1, z, 0) == 1);
        assert(moves_count(b, z, ms, 1) == (if king_safe(b1, b.side) {
            1nat
        } else {
            0nat
        }) + moves_count(b, z, ms.drop_first(), 1));
    } else {
        reveal(Seq::filter);
    }
}

/// Perft to depth one counts the side to move's legal moves.
pub proof fn lemma_perft_one_counts_legal_moves(b: Board, z: Zobrist)
    ensures
        perft_count(b, z, 1) == crate::diagnostics::legal_moves(b, z, b.side).len(),
{
    assert(crate::diagnostics::prepared(b, b.side) == b);
    lemma_moves_count_one(b, z, pseudo_moves(b));
    assert(safe_pred(b, z) =~= (|m: Move| king_safe(successor(b, m, z), b.side)));
}

} // verus!
