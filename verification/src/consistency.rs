use vstd::prelude::*;
use crate::bitboard::{bb, bit, group_bit_lemmas};
use crate::board::{Board, color_idx, type_idx};
use crate::fen::fen_text;
use crate::text::{decimal, push_text, u64_text};
use crate::types::{PIECE_NONE, piece_color, piece_type};

verus! {

/// The first bitboard index `c * 6 + pt`, from `k` on, whose bitboard holds `sq`.
pub open spec fn first_piece_bit(b: Board, sq: int, k: int) -> Option<int>
    decreases 12 - k,
{
    if k >= 12 || k < 0 {
        None
    } else if bit(b.pieces[k / 6][k % 6], sq) {
        Some(k)
    } else {
        first_piece_bit(b, sq, k + 1)
    }
}

/// The text that starts every report: the square number.
pub open spec fn report_head(sq: int) -> Seq<char> {
    "sq="@ + decimal(sq as nat)
}

/// The occupancy check of `sq` from color `c` on: an occupancy bit set where the
/// square is empty or holds a piece of the other color.
pub open spec fn occ_report(b: Board, sq: int, c: int) -> Option<Seq<char>>
    decreases 2 - c,
{
    if c >= 2 || c < 0 {
        None
    } else if bit(b.occ[c], sq) && b.sq_piece[sq] == PIECE_NONE {
        Some(report_head(sq) + " occ["@ + decimal(c as nat) + "] has bit but sq_piece=NONE. fen="@
            + fen_text(b))
    } else if bit(b.occ[c], sq) && color_idx(b.sq_piece[sq]) != c {
        Some(report_head(sq) + " occ["@ + decimal(c as nat) + "] has bit but sq_piece="@
            + decimal(b.sq_piece[sq] as nat) + " has wrong color. fen="@ + fen_text(b))
    } else {
        occ_report(b, sq, c + 1)
    }
}

/// The report of the first disagreement found at `sq`: a bitboard bit on an empty
/// square, or a piece missing from its bitboard, its color's occupancy or the total
/// occupancy, then the occupancy check.
pub open spec fn square_report(b: Board, sq: int) -> Option<Seq<char>> {
    let p = b.sq_piece[sq];
    if p == PIECE_NONE {
        match first_piece_bit(b, sq, 0) {
            Some(k) => Some(report_head(sq) + " sq_piece=NONE but pieces["@ + decimal((k / 6) as nat)
                + "]["@ + decimal((k % 6) as nat) + "] has bit set. fen="@ + fen_text(b)),
            None => occ_report(b, sq, 0),
        }
    } else if !bit(b.pieces[color_idx(p)][type_idx(p)], sq) {
        Some(report_head(sq) + " sq_piece="@ + decimal(p as nat) + " but pieces["@ + decimal(
            color_idx(p) as nat,
        ) + "]["@ + decimal(type_idx(p) as nat) + "] bit NOT set. fen="@ + fen_text(b))
    } else if !bit(b.occ[color_idx(p)], sq) {
        Some(report_head(sq) + " sq_piece="@ + decimal(p as nat) + " but occ["@ + decimal(
            color_idx(p) as nat,
        ) + "] bit NOT set. fen="@ + fen_text(b))
    } else if !bit(b.occ_all, sq) {
        Some(report_head(sq) + " sq_piece="@ + decimal(p as nat) + " but occ_all bit NOT set. fen="@
            + fen_text(b))
    } else {
        occ_report(b, sq, 0)
    }
}

/// The report of the first square, from `sq` on, where the board disagrees with itself.
pub open spec fn first_report(b: Board, sq: int) -> Option<Seq<char>>
    decreases 64 - sq,
{
    if sq >= 64 || sq < 0 {
        None
    } else {
        match square_report(b, sq) {
            Some(m) => Some(m),
            None => first_report(b, sq + 1),
        }
    }
}

fn report_head_text(sq: u8) -> (s: String)
    ensures
        s@ == report_head(sq as int),
{
    let mut s = String::new();
    push_text(&mut s, "sq=");
    let n = u64_text(sq as u64);
    push_text(&mut s, n.as_str());
    s
}

fn push_number(s: &mut String, n: u64)
    ensures
        final(s)@ == old(s)@ + decimal(n as nat),
{
    let t = u64_text(n);
    push_text(s, t.as_str());
}

impl Board {
    /// The occupancy check of one square, from color 0 on.
    fn occ_report_at(&self, sq: u8) -> (r: Option<String>)
        requires
            self.printable(),
            sq < 64,
        ensures
            r matches Some(s) ==> occ_report(*self, sq as int, 0) == Some(s@),
            r is None ==> occ_report(*self, sq as int, 0) is None,
    {
        broadcast use group_bit_lemmas;

        let mut c: usize = 0;
        while c < 2
            invariant
                self.printable(),
                sq < 64,
                c <= 2,
                occ_report(*self, sq as int, 0) == occ_report(*self, sq as int, c as int),
            decreases 2 - c,
        {
            proof {
                crate::bitboard::lemma_and_single(self.occ[c as int], sq as int);
            }
            if self.occ[c] & bb(sq) != 0 {
                let p_at = self.sq_piece[sq as usize];
                if p_at == PIECE_NONE {
                    let mut s = report_head_text(sq);
                    push_text(&mut s, " occ[");
                    push_number(&mut s, c as u64);
                    push_text(&mut s, "] has bit but sq_piece=NONE. fen=");
                    let fen = self.to_fen();
                    push_text(&mut s, fen.as_str());
                    return Some(s);
                }
                if piece_color(p_at).index() != c {
                    let mut s = report_head_text(sq);
                    push_text(&mut s, " occ[");
                    push_number(&mut s, c as u64);
                    push_text(&mut s, "] has bit but sq_piece=");
                    push_number(&mut s, p_at as u64);
                    push_text(&mut s, " has wrong color. fen=");
                    let fen = self.to_fen();
                    push_text(&mut s, fen.as_str());
                    return Some(s);
                }
            }
            c += 1;
        }
        None
    }

    /// Checks that the bitboards, the occupancies and the square lookup agree, and
    /// describes the first disagreement found (squares in order).
    pub fn verify_consistency(&self) -> (r: Option<String>)
        requires
            self.printable(),
        ensures
            r matches Some(s) ==> first_report(*self, 0) == Some(s@),
            r is None ==> first_report(*self, 0) is None,
    {
        broadcast use group_bit_lemmas;

        let mut sq: u8 = 0;
        while sq < 64
            invariant
                self.printable(),
                sq <= 64,
                first_report(*self, 0) == first_report(*self, sq as int),
            decreases 64 - sq,
        {
            let p = self.sq_piece[sq as usize];
            if p == PIECE_NONE {
                let mut k: usize = 0;
                while k < 12
                    invariant
                        self.printable(),
                        sq < 64,
                        k <= 12,
                        p == self.sq_piece[sq as int],
                        p == PIECE_NONE,
                        first_piece_bit(*self, sq as int, 0) == first_piece_bit(
                            *self,
                            sq as int,
                            k as int,
                        ),
                        first_report(*self, 0) == first_report(*self, sq as int),
                    decreases 12 - k,
                {
                    let c = k / 6;
                    let pt = k % 6;
                    proof {
                        crate::bitboard::lemma_and_single(self.pieces[c as int][pt as int], sq as int);
                    }
                    if self.pieces[c][pt] & bb(sq) != 0 {
                        let mut s = report_head_text(sq);
                        push_text(&mut s, " sq_piece=NONE but pieces[");
                        push_number(&mut s, c as u64);
                        push_text(&mut s, "][");
                        push_number(&mut s, pt as u64);
                        push_text(&mut s, "] has bit set. fen=");
                        let fen = self.to_fen();
                        push_text(&mut s, fen.as_str());
                        return Some(s);
                    }
                    k += 1;
                }
            } else {
                let c = piece_color(p).index();
                let pt = piece_type(p).index();
                proof {
                    assert(c == color_idx(p) && pt == type_idx(p));
                    crate::bitboard::lemma_and_single(self.pieces[c as int][pt as int], sq as int);
                    crate::bitboard::lemma_and_single(self.occ[c as int], sq as int);
                    crate::bitboard::lemma_and_single(self.occ_all, sq as int);
                }
                if self.pieces[c][pt] & bb(sq) == 0 {
                    let mut s = report_head_text(sq);
                    push_text(&mut s, " sq_piece=");
                    push_number(&mut s, p as u64);
                    push_text(&mut s, " but pieces[");
                    push_number(&mut s, c as u64);
                    push_text(&mut s, "][");
                    push_number(&mut s, pt as u64);
                    push_text(&mut s, "] bit NOT set. fen=");
                    let fen = self.to_fen();
                    push_text(&mut s, fen.as_str());
                    return Some(s);
                }
                if self.occ[c] & bb(sq) == 0 {
                    let mut s = report_head_text(sq);
                    push_text(&mut s, " sq_piece=");
                    push_number(&mut s, p as u64);
                    push_text(&mut s, " but occ[");
                    push_number(&mut s, c as u64);
                    push_text(&mut s, "] bit NOT set. fen=");
                    let fen = self.to_fen();
                    push_text(&mut s, fen.as_str());
                    return Some(s);
                }
                if self.occ_all & bb(sq) == 0 {
                    let mut s = report_head_text(sq);
                    push_text(&mut s, " sq_piece=");
                    push_number(&mut s, p as u64);
                    push_text(&mut s, " but occ_all bit NOT set. fen=");
                    let fen = self.to_fen();
                    push_text(&mut s, fen.as_str());
                    return Some(s);
                }
            }
            let occ_r = self.occ_report_at(sq);
            if occ_r.is_some() {
                return occ_r;
            }
            sq += 1;
        }
        None
    }
}


proof fn lemma_no_piece_bit(b: Board, sq: int, k: int)
    requires
        b.consistent(),
        0 <= sq < 64,
        b.sq_piece[sq] == PIECE_NONE,
        0 <= k <= 12,
    ensures
        first_piece_bit(b, sq, k) is None,
    decreases 12 - k,
{
    if k < 12 {
        assert(!bit(b.pieces[k / 6][k % 6], sq));
        lemma_no_piece_bit(b, sq, k + 1);
    }
}

proof fn lemma_no_occ_report(b: Board, sq: int, c: int)
    requires
        b.consistent(),
        0 <= sq < 64,
        0 <= c <= 2,
    ensures
        occ_report(b, sq, c) is None,
    decreases 2 - c,
{
    if c < 2 {
        lemma_no_occ_report(b, sq, c + 1);
    }
}

proof fn lemma_no_report_from(b: Board, sq: int)
    requires
        b.consistent(),
        0 <= sq <= 64,
    ensures
        first_report(b, sq) is None,
    decreases 64 - sq,
{
    if sq < 64 {
        lemma_no_occ_report(b, sq, 0);
        if b.sq_piece[sq] == PIECE_NONE {
            lemma_no_piece_bit(b, sq, 0);
        } else {
            let p = b.sq_piece[sq];
            assert(bit(b.pieces[color_idx(p)][type_idx(p)], sq));
        }
        lemma_no_report_from(b, sq + 1);
    }
}

/// A consistent board passes the consistency check.
pub proof fn lemma_consistent_has_no_report(b: Board)
    requires
        b.consistent(),
    ensures
        first_report(b, 0) is None,
{
    lemma_no_report_from(b, 0);
}

} // verus!
