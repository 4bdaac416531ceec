use vstd::prelude::*;

use crate::board::Board;
use crate::fen::{
    kings_as_read, castling_of_word, castling_text, color_of_letter, empty_placement, ep_field_crashes,
    ep_of_word, fen_crashes, fen_fields_match, fen_piece_char, fen_text, parse_placement,
    placement_crashes, placement_step, placement_text, rank_text,
};
use crate::makemove::pawn_beside;
use crate::text::{
    decimal, digit_char, is_white_space, lemma_decimal_digits, lemma_decimal_parses,
    lemma_words_front, lemma_words_space, no_white_space, words,
};
use crate::types::{
    Color, Piece, PieceType, NO_SQUARE, PIECE_NONE, file_of, lemma_square_name_roundtrip,
    piece_of, piece_type_of_letter, rank_of, square_name,
};

verus! {

/// Reading a piece field character by character from the front: the rank, file and
/// placement reached, `None` once a rank runs past eight files.
pub open spec fn placement_run(s: Seq<char>, rank: int, file: int, sp: Seq<Piece>) -> Option<(int, int, Seq<Piece>)>
    decreases s.len(),
{
    if s.len() == 0 {
        Some((rank, file, sp))
    } else {
        let (r2, f2, sp2) = placement_step(rank, file, sp, s[0]);
        if f2 > 8 {
            None
        } else {
            placement_run(s.drop_first(), r2, f2, sp2)
        }
    }
}

/// `acc` with the pieces of `sp` on rank `rank`, from file `file` on, put in.
pub open spec fn rank_fill(acc: Seq<Piece>, sp: Seq<Piece>, rank: int, file: int) -> Seq<Piece> {
    Seq::new(
        64,
        |i: int|
            if rank_of(i) == rank && file_of(i) >= file && sp[i] != PIECE_NONE {
                sp[i]
            } else {
                acc[i]
            },
    )
}

/// `acc` with the pieces of `sp` on ranks `0..=rank` put in.
pub open spec fn ranks_fill(acc: Seq<Piece>, sp: Seq<Piece>, rank: int) -> Seq<Piece> {
    Seq::new(
        64,
        |i: int|
            if rank_of(i) <= rank && sp[i] != PIECE_NONE {
                sp[i]
            } else {
                acc[i]
            },
    )
}

proof fn lemma_parse_is_run(s: Seq<char>, i: int, rank: int, file: int, sp: Seq<Piece>)
    requires
        0 <= i <= s.len(),
    ensures
        parse_placement(s, i, rank, file, sp) == match placement_run(s.skip(i), rank, file, sp) {
            Some(t) => Some(t.2),
            None => None,
        },
    decreases s.len() - i,
{
    if i < s.len() {
        let (r2, f2, sp2) = placement_step(rank, file, sp, s[i]);
        assert(s.skip(i)[0] == s[i]);
        assert(s.skip(i).drop_first() =~= s.skip(i + 1));
        if f2 <= 8 {
            lemma_parse_is_run(s, i + 1, r2, f2, sp2);
        }
    } else {
        assert(s.skip(i).len() == 0);
    }
}

proof fn lemma_run_concat(t: Seq<char>, u: Seq<char>, rank: int, file: int, sp: Seq<Piece>)
    ensures
        placement_run(t + u, rank, file, sp) == match placement_run(t, rank, file, sp) {
            Some(st) => placement_run(u, st.0, st.1, st.2),
            None => None,
        },
    decreases t.len(),
{
    if t.len() == 0 {
        assert(t + u =~= u);
    } else {
        let (r2, f2, sp2) = placement_step(rank, file, sp, t[0]);
        assert((t + u)[0] == t[0]);
        assert((t + u).drop_first() =~= t.drop_first() + u);
        if f2 <= 8 {
            lemma_run_concat(t.drop_first(), u, r2, f2, sp2);
        }
    }
}

/// A field that reads without running past a rank holds no piece letter past one.
proof fn lemma_parsed_does_not_crash(s: Seq<char>, i: int, rank: int, file: int, sp: Seq<Piece>)
    requires
        parse_placement(s, i, rank, file, sp) is Some,
    ensures
        !placement_crashes(s, i, rank, file),
    decreases s.len() - i,
{
    if 0 <= i < s.len() {
        let (r2, f2, sp2) = placement_step(rank, file, sp, s[i]);
        let (r3, f3, sp3) = placement_step(rank, file, Seq::empty(), s[i]);
        assert(r2 == r3 && f2 == f3);
        lemma_parsed_does_not_crash(s, i + 1, r2, f2, sp2);
    }
}

/// The FEN letter of a piece reads back as that piece.
proof fn lemma_fen_letter(p: Piece)
    requires
        p < 12,
    ensures
        fen_piece_char(p) != '/',
        !('1' <= fen_piece_char(p) <= '8'),
        piece_type_of_letter(fen_piece_char(p)) != PieceType::Empty,
        piece_of(color_of_letter(fen_piece_char(p)), piece_type_of_letter(fen_piece_char(p))) == p,
{
}

/// A digit of a count of empty squares moves the file on by the count.
proof fn lemma_digit_run(e: int, rank: int, file: int, sp: Seq<Piece>)
    requires
        1 <= e <= 8,
        file + e <= 8,
    ensures
        placement_run(seq![digit_char(e)], rank, file, sp) == Some((rank, file + e, sp)),
{
    let d = digit_char(e);
    assert(d as int == '0' as int + e);
    assert('1' <= d <= '8');
    assert(seq![d].drop_first() =~= Seq::<char>::empty());
    assert(placement_step(rank, file, sp, d) == (rank, file + e, sp));
    reveal_with_fuel(placement_run, 2);
}

/// One rank's text, read from where its pending run of empty squares began,
/// ends at the end of the rank with the rank's pieces put in.
proof fn lemma_rank_text_reads(sp: Seq<Piece>, rank: int, file: int, empty: int, acc: Seq<Piece>)
    requires
        sp.len() == 64,
        acc.len() == 64,
        forall|i: int| 0 <= i < 64 ==> #[trigger] sp[i] <= PIECE_NONE,
        0 <= rank <= 7,
        0 <= empty <= file <= 8,
    ensures
        placement_run(rank_text(sp, rank, file, empty), rank, file - empty, acc) == Some(
            (rank, 8int, rank_fill(acc, sp, rank, file)),
        ),
    decreases 8 - file,
{
    if file >= 8 {
        assert(rank_fill(acc, sp, rank, file) =~= acc);
        if empty > 0 {
            lemma_digit_run(empty, rank, file - empty, acc);
        }
    } else {
        let sq = rank * 8 + file;
        assert(rank_of(sq) == rank && file_of(sq) == file);
        let p = sp[sq];
        if p == PIECE_NONE {
            lemma_rank_text_reads(sp, rank, file + 1, empty + 1, acc);
            assert(rank_fill(acc, sp, rank, file + 1) =~= rank_fill(acc, sp, rank, file));
        } else {
            let lead = if empty > 0 {
                seq![digit_char(empty)]
            } else {
                Seq::<char>::empty()
            };
            let c = fen_piece_char(p);
            let rest = rank_text(sp, rank, file + 1, 0);
            assert(rank_text(sp, rank, file, empty) == lead + seq![c] + rest);
            if empty > 0 {
                lemma_digit_run(empty, rank, file - empty, acc);
            }
            assert(placement_run(lead, rank, file - empty, acc) == Some((rank, file, acc)));
            lemma_run_concat(lead + seq![c], rest, rank, file - empty, acc);
            lemma_run_concat(lead, seq![c], rank, file - empty, acc);
            lemma_fen_letter(p);
            let acc2 = acc.update(sq, p);
            assert(seq![c].drop_first() =~= Seq::<char>::empty());
            assert(placement_step(rank, file, acc, c) == (rank, file + 1, acc2));
            assert(placement_run(seq![c], rank, file, acc) == Some((rank, file + 1, acc2))) by {
                reveal_with_fuel(placement_run, 2);
            }
            lemma_rank_text_reads(sp, rank, file + 1, 0, acc2);
            assert(rank_fill(acc2, sp, rank, file + 1) =~= rank_fill(acc, sp, rank, file));
        }
    }
}

/// The piece field from rank `rank` down, read from the start of that rank, puts in
/// the pieces of all those ranks.
proof fn lemma_placement_text_reads(sp: Seq<Piece>, rank: int, acc: Seq<Piece>)
    requires
        sp.len() == 64,
        acc.len() == 64,
        forall|i: int| 0 <= i < 64 ==> #[trigger] sp[i] <= PIECE_NONE,
        0 <= rank <= 7,
    ensures
        placement_run(placement_text(sp, rank), rank, 0, acc) == Some((0int, 8int, ranks_fill(acc, sp, rank))),
    decreases rank,
{
    lemma_rank_text_reads(sp, rank, 0, 0, acc);
    let a1 = rank_fill(acc, sp, rank, 0);
    if rank == 0 {
        assert(a1 =~= ranks_fill(acc, sp, 0));
    } else {
        let head = rank_text(sp, rank, 0, 0);
        let tail = placement_text(sp, rank - 1);
        lemma_run_concat(head + seq!['/'], tail, rank, 0, acc);
        lemma_run_concat(head, seq!['/'], rank, 0, acc);
        assert(seq!['/'].drop_first() =~= Seq::<char>::empty());
        assert(placement_run(seq!['/'], rank, 8, a1) == Some((rank - 1, 0int, a1))) by {
            reveal_with_fuel(placement_run, 2);
        }
        lemma_placement_text_reads(sp, rank - 1, a1);
        assert(ranks_fill(a1, sp, rank - 1) =~= ranks_fill(acc, sp, rank));
    }
}

/// Reading the piece field that a placement writes gives the placement back.
pub proof fn lemma_placement_reads_back(sp: Seq<Piece>)
    requires
        sp.len() == 64,
        forall|i: int| 0 <= i < 64 ==> #[trigger] sp[i] <= PIECE_NONE,
    ensures
        parse_placement(placement_text(sp, 7), 0, 7, 0, empty_placement()) == Some(sp),
        !placement_crashes(placement_text(sp, 7), 0, 7, 0),
{
    let s = placement_text(sp, 7);
    lemma_placement_text_reads(sp, 7, empty_placement());
    assert(s.skip(0) =~= s);
    lemma_parse_is_run(s, 0, 7, 0, empty_placement());
    assert(ranks_fill(empty_placement(), sp, 7) =~= sp);
    lemma_parsed_does_not_crash(s, 0, 7, 0, empty_placement());
}


// ---------------------------------------------------------------- the whole record

proof fn lemma_no_white_space_concat(a: Seq<char>, b: Seq<char>)
    requires
        no_white_space(a),
        no_white_space(b),
    ensures
        no_white_space(a + b),
{
    assert forall|i: int| 0 <= i < (a + b).len() implies !is_white_space(#[trigger] (a + b)[i]) by {
        if i < a.len() {
            assert((a + b)[i] == a[i]);
        } else {
            assert((a + b)[i] == b[i - a.len()]);
        }
    }
}

proof fn lemma_rank_text_chars(sp: Seq<Piece>, rank: int, file: int, empty: int)
    requires
        sp.len() == 64,
        forall|i: int| 0 <= i < 64 ==> #[trigger] sp[i] <= PIECE_NONE,
        0 <= rank <= 7,
        0 <= empty <= file <= 8,
    ensures
        no_white_space(rank_text(sp, rank, file, empty)),
        empty > 0 || file < 8 ==> rank_text(sp, rank, file, empty).len() > 0,
    decreases 8 - file,
{
    if file >= 8 {
        if empty > 0 {
            assert(digit_char(empty) as int == '0' as int + empty);
        }
    } else {
        let p = sp[rank * 8 + file];
        if p == PIECE_NONE {
            lemma_rank_text_chars(sp, rank, file + 1, empty + 1);
        } else {
            lemma_rank_text_chars(sp, rank, file + 1, 0);
            let lead = if empty > 0 {
                seq![digit_char(empty)]
            } else {
                Seq::<char>::empty()
            };
            if empty > 0 {
                assert(digit_char(empty) as int == '0' as int + empty);
            }
            lemma_fen_letter(p);
            lemma_no_white_space_concat(lead, seq![fen_piece_char(p)]);
            lemma_no_white_space_concat(lead + seq![fen_piece_char(p)], rank_text(sp, rank, file + 1, 0));
        }
    }
}

proof fn lemma_placement_text_chars(sp: Seq<Piece>, rank: int)
    requires
        sp.len() == 64,
        forall|i: int| 0 <= i < 64 ==> #[trigger] sp[i] <= PIECE_NONE,
        0 <= rank <= 7,
    ensures
        no_white_space(placement_text(sp, rank)),
        placement_text(sp, rank).len() > 0,
    decreases rank,
{
    lemma_rank_text_chars(sp, rank, 0, 0);
    if rank > 0 {
        lemma_placement_text_chars(sp, rank - 1);
        lemma_no_white_space_concat(rank_text(sp, rank, 0, 0), seq!['/']);
        lemma_no_white_space_concat(rank_text(sp, rank, 0, 0) + seq!['/'], placement_text(sp, rank - 1));
    }
}

/// The castling field read back gives the rights written.
proof fn lemma_castling_reads_back(c: u8)
    requires
        c < 16,
    ensures
        castling_of_word(castling_text(c)) == c,
        castling_text(c).len() > 0,
        no_white_space(castling_text(c)),
{
    assert(c == (c & 1) + (c & 2) + (c & 4) + (c & 8) && ((c & 1) == 0 || (c & 1) == 1) && ((c
        & 2) == 0 || (c & 2) == 2) && ((c & 4) == 0 || (c & 4) == 4) && ((c & 8) == 0 || (c & 8)
        == 8)) by (bit_vector)
        requires
            c < 16,
    ;
    let t = castling_text(c);
    if c == 0 {
        assert(!t.contains('K') && !t.contains('Q') && !t.contains('k') && !t.contains('q'));
    } else {
        let a = if c & 1 != 0 {
            seq!['K']
        } else {
            Seq::<char>::empty()
        };
        let b = if c & 2 != 0 {
            seq!['Q']
        } else {
            Seq::<char>::empty()
        };
        let d = if c & 4 != 0 {
            seq!['k']
        } else {
            Seq::<char>::empty()
        };
        let e = if c & 8 != 0 {
            seq!['q']
        } else {
            Seq::<char>::empty()
        };
        assert(t == a + b + d + e);
        assert(forall|i: int| 0 <= i < t.len() ==> #[trigger] t[i] == 'K' || t[i] == 'Q' || t[i] == 'k' || t[i] == 'q');
        assert(t.contains('K') <==> (c & 1) != 0) by {
            if (c & 1) != 0 {
                assert(t[0] == 'K');
            }
        }
        assert(t.contains('Q') <==> (c & 2) != 0) by {
            if (c & 2) != 0 {
                assert(t[a.len() as int] == 'Q');
            }
        }
        assert(t.contains('k') <==> (c & 4) != 0) by {
            if (c & 4) != 0 {
                assert(t[(a.len() + b.len()) as int] == 'k');
            }
        }
        assert(t.contains('q') <==> (c & 8) != 0) by {
            if (c & 8) != 0 {
                assert(t[(a.len() + b.len() + d.len()) as int] == 'q');
            }
        }
    }
}

/// The en passant square, if any, is one a FEN field names back: a pawn that just
/// went two squares stands beside an enemy pawn that could take it.
pub open spec fn ep_readable(b: Board) -> bool {
    let ep = b.ep_sq as int;
    b.ep_sq == NO_SQUARE || (ep < 64 && if rank_of(ep) == 2 {
        pawn_beside(b.sq_piece@, ep + 8, Color::Black)
    } else {
        ep >= 8 && pawn_beside(b.sq_piece@, ep - 8, Color::White)
    })
}

/// The fields a FEN record holds are the same on both boards.
pub open spec fn same_position(a: Board, b: Board) -> bool {
    &&& a.sq_piece@ == b.sq_piece@
    &&& a.side == b.side
    &&& a.castling == b.castling
    &&& a.ep_sq == b.ep_sq
    &&& a.halfmove == b.halfmove
    &&& a.fullmove == b.fullmove
}

/// The en passant field as `to_fen` writes it.
pub open spec fn ep_text(b: Board) -> Seq<char> {
    if b.ep_sq == NO_SQUARE {
        seq!['-']
    } else {
        square_name(b.ep_sq as int)
    }
}

/// Six words with single spaces between them split back into those words.
proof fn lemma_six_words(a: Seq<char>, b: Seq<char>, c: Seq<char>, d: Seq<char>, e: Seq<char>, f: Seq<char>)
    requires
        a.len() > 0 && no_white_space(a),
        b.len() > 0 && no_white_space(b),
        c.len() > 0 && no_white_space(c),
        d.len() > 0 && no_white_space(d),
        e.len() > 0 && no_white_space(e),
        f.len() > 0 && no_white_space(f),
    ensures
        words(a + seq![' '] + b + seq![' '] + c + seq![' '] + d + seq![' '] + e + seq![' '] + f)
            == seq![a, b, c, d, e, f],
{
    let sp1 = seq![' '];
    let t5 = sp1 + f;
    let t4 = sp1 + (e + t5);
    let t3 = sp1 + (d + t4);
    let t2 = sp1 + (c + t3);
    let t1 = sp1 + (b + t2);
    assert(a + sp1 + b + sp1 + c + sp1 + d + sp1 + e + sp1 + f =~= a + t1);
    lemma_words_front(f, Seq::<char>::empty());
    assert(f + Seq::<char>::empty() =~= f);
    assert(words(Seq::<char>::empty()) =~= Seq::<Seq<char>>::empty());
    lemma_words_space(f);
    lemma_words_front(e, t5);
    lemma_words_space(e + t5);
    lemma_words_front(d, t4);
    lemma_words_space(d + t4);
    lemma_words_front(c, t3);
    lemma_words_space(c + t3);
    lemma_words_front(b, t2);
    lemma_words_space(b + t2);
    lemma_words_front(a, t1);
    assert(words(a + t1) =~= seq![a, b, c, d, e, f]);
}

/// A board whose king squares index its kings, and a board with the same pieces
/// whose king squares are as read from a FEN record, record the same king squares.
proof fn lemma_king_squares_agree(b: Board, b2: Board)
    requires
        b.consistent(),
        b.kings_indexed(),
        kings_as_read(b2),
        b2.sq_piece@ == b.sq_piece@,
    ensures
        b2.king_sq@ == b.king_sq@,
{
    assert forall|c: int| 0 <= c < 2 implies b2.king_sq[c] == b.king_sq[c] by {
        if b2.king_sq[c] == NO_SQUARE {
            if b.king_sq[c] != NO_SQUARE {
                assert(b.sq_piece[b.king_sq[c] as int] == c * 6 + 5);
                assert(b2.sq_piece[b.king_sq[c] as int] == c * 6 + 5);
            }
        } else {
            let k = b2.king_sq[c] as int;
            assert(b2.sq_piece[k] == c * 6 + 5);
            assert(b.sq_piece[k] == c * 6 + 5);
            assert(b.sq_piece[k] < 12 && crate::board::type_idx(b.sq_piece[k]) == 5);
            assert(crate::board::color_idx(b.sq_piece[k]) == c);
        }
    }
    assert(b2.king_sq@ =~= b.king_sq@);
}

/// Reading back the FEN record of a board gives the same position: `from_fen` of
/// `to_fen` does not fail and fills in the pieces, side to move, castling rights,
/// en passant square and both clocks that were written, and, where the board's king
/// squares index its kings, the same king squares.
pub proof fn lemma_fen_reads_back(b: Board)
    requires
        b.consistent(),
        ep_readable(b),
    ensures
        !fen_crashes(fen_text(b)),
        words(fen_text(b)).len() >= 4,
        parse_placement(words(fen_text(b))[0], 0, 7, 0, empty_placement()) is Some,
        forall|b2: Board| #[trigger] fen_fields_match(b2, words(fen_text(b))) ==> same_position(b2, b),
        b.kings_indexed() ==> forall|b2: Board|
            #[trigger] fen_fields_match(b2, words(fen_text(b))) && kings_as_read(b2) ==> b2.king_sq@
                == b.king_sq@,
{
    let sp = b.sq_piece@;
    assert(sp.len() == 64);
    let pt = placement_text(sp, 7);
    let st = seq![
        if b.side == Color::White {
            'w'
        } else {
            'b'
        },
    ];
    let ct = castling_text(b.castling);
    let et = ep_text(b);
    let ht = decimal(b.halfmove as nat);
    let ft = decimal(b.fullmove as nat);
    assert(fen_text(b) == pt + seq![' '] + st + seq![' '] + ct + seq![' '] + et + seq![' '] + ht
        + seq![' '] + ft);
    lemma_placement_reads_back(sp);
    lemma_placement_text_chars(sp, 7);
    lemma_castling_reads_back(b.castling);
    lemma_decimal_digits(b.halfmove as nat);
    lemma_decimal_digits(b.fullmove as nat);
    lemma_decimal_parses(b.halfmove as nat, 255);
    lemma_decimal_parses(b.fullmove as nat, 65535);
    assert(no_white_space(st));
    assert(no_white_space(et)) by {
        if b.ep_sq != NO_SQUARE {
            assert(et[0] as int == 'a' as int + file_of(b.ep_sq as int));
            assert(et[1] as int == '1' as int + rank_of(b.ep_sq as int));
        }
    }
    lemma_six_words(pt, st, ct, et, ht, ft);
    let w = words(fen_text(b));
    assert(w =~= seq![pt, st, ct, et, ht, ft]);
    // The en passant field names the square back.
    if b.ep_sq != NO_SQUARE {
        lemma_square_name_roundtrip(b.ep_sq as int);
        assert(et != seq!['-']);
    }
    assert(ep_of_word(et, sp) == b.ep_sq);
    assert(!ep_field_crashes(et));
    assert(w[1] == seq!['b'] <==> b.side == Color::Black) by {
        if b.side == Color::White {
            assert(w[1][0] != seq!['b'][0]);
        }
    }
    assert forall|b2: Board| #[trigger] fen_fields_match(b2, w) implies same_position(b2, b) by {
        assert(b2.sq_piece@ == sp);
        assert(b2.castling == b.castling);
        assert(b2.ep_sq == b.ep_sq);
        assert(b2.halfmove == b.halfmove);
        assert(b2.fullmove == b.fullmove);
    }
    if b.kings_indexed() {
        assert forall|b2: Board| #[trigger] fen_fields_match(b2, w) && kings_as_read(b2) implies b2.king_sq@
            == b.king_sq@ by {
            lemma_king_squares_agree(b, b2);
        }
    }
}

} // verus!
