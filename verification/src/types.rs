use vstd::prelude::*;
use vstd::string::*;

verus! {

/// A set of squares, one bit per square (a1 = bit 0, h8 = bit 63).
pub type Bb = u64;

/// A square index 0..64 (a1 = 0, b1 = 1, ..., h8 = 63); `NO_SQUARE` when absent.
pub type Square = u8;

/// A colored piece: `color * 6 + piece type`, or `PIECE_NONE`.
pub type Piece = u8;

/// A packed move: from (bits 0-5), to (bits 6-11), kind (bits 12-13),
/// promotion piece (bits 14-15).
pub type Move = u16;

/// A score in centipawns.
pub type Score = i32;

pub const NO_SQUARE: Square = 64;
pub const PIECE_NONE: Piece = 12;
pub const MOVE_NONE: Move = 0;

pub const MF_NORMAL: u16 = 0;
pub const MF_PROMOTION: u16 = 1;
pub const MF_EN_PASSANT: u16 = 2;
pub const MF_CASTLING: u16 = 3;

pub const CR_WHITE_KINGSIDE: u8 = 1;
pub const CR_WHITE_QUEENSIDE: u8 = 2;
pub const CR_BLACK_KINGSIDE: u8 = 4;
pub const CR_BLACK_QUEENSIDE: u8 = 8;

pub const SCORE_INF: Score = 32000;

pub const BB_FILE_A: Bb = 0x0101_0101_0101_0101;
pub const BB_FILE_B: Bb = 0x0202_0202_0202_0202;
pub const BB_FILE_C: Bb = 0x0404_0404_0404_0404;
pub const BB_FILE_D: Bb = 0x0808_0808_0808_0808;
pub const BB_FILE_E: Bb = 0x1010_1010_1010_1010;
pub const BB_FILE_F: Bb = 0x2020_2020_2020_2020;
pub const BB_FILE_G: Bb = 0x4040_4040_4040_4040;
pub const BB_FILE_H: Bb = 0x8080_8080_8080_8080;

pub const BB_RANK_1: Bb = 0x0000_0000_0000_00FF;
pub const BB_RANK_2: Bb = 0x0000_0000_0000_FF00;
pub const BB_RANK_3: Bb = 0x0000_0000_00FF_0000;
pub const BB_RANK_4: Bb = 0x0000_0000_FF00_0000;
pub const BB_RANK_5: Bb = 0x0000_00FF_0000_0000;
pub const BB_RANK_6: Bb = 0x0000_FF00_0000_0000;
pub const BB_RANK_7: Bb = 0x00FF_0000_0000_0000;
pub const BB_RANK_8: Bb = 0xFF00_0000_0000_0000;

pub const BB_FILES: [Bb; 8] = [
    0x0101_0101_0101_0101,
    0x0202_0202_0202_0202,
    0x0404_0404_0404_0404,
    0x0808_0808_0808_0808,
    0x1010_1010_1010_1010,
    0x2020_2020_2020_2020,
    0x4040_4040_4040_4040,
    0x8080_8080_8080_8080,
];

pub const BB_RANKS: [Bb; 8] = [
    0x0000_0000_0000_00FF,
    0x0000_0000_0000_FF00,
    0x0000_0000_00FF_0000,
    0x0000_0000_FF00_0000,
    0x0000_00FF_0000_0000,
    0x0000_FF00_0000_0000,
    0x00FF_0000_0000_0000,
    0xFF00_0000_0000_0000,
];

pub const E5: Square = 36;

// ---------------------------------------------------------------- colors

#[derive(Clone, Copy, Debug, PartialEq, Eq, Structural)]
pub enum Color {
    White,
    Black,
}

impl Color {
    /// The index of the color in per-color arrays.
    pub open spec fn idx(self) -> int {
        match self {
            Color::White => 0,
            Color::Black => 1,
        }
    }

    pub open spec fn opposite(self) -> Color {
        match self {
            Color::White => Color::Black,
            Color::Black => Color::White,
        }
    }

    pub fn index(self) -> (r: usize)
        ensures
            r == self.idx(),
    {
        match self {
            Color::White => 0,
            Color::Black => 1,
        }
    }

    pub fn flip(self) -> (r: Color)
        ensures
            r == self.opposite(),
    {
        match self {
            Color::White => Color::Black,
            Color::Black => Color::White,
        }
    }
}

/// Flipping a color twice gives it back, and never gives it unchanged.
pub proof fn lemma_flip_involution(c: Color)
    ensures
        c.opposite().opposite() == c,
        c.opposite() != c,
        c.opposite().idx() == 1 - c.idx(),
{
}

// ---------------------------------------------------------------- piece types

#[derive(Clone, Copy, Debug, PartialEq, Eq, Structural)]
pub enum PieceType {
    Pawn,
    Knight,
    Bishop,
    Rook,
    Queen,
    King,
    Empty,
}

pub open spec fn piece_type_of_index(i: int) -> PieceType {
    if i == 0 {
        PieceType::Pawn
    } else if i == 1 {
        PieceType::Knight
    } else if i == 2 {
        PieceType::Bishop
    } else if i == 3 {
        PieceType::Rook
    } else if i == 4 {
        PieceType::Queen
    } else if i == 5 {
        PieceType::King
    } else {
        PieceType::Empty
    }
}

/// The lower-case letter of a piece type in FEN and UCI notation.
pub open spec fn piece_type_letter(pt: PieceType) -> char {
    match pt {
        PieceType::Pawn => 'p',
        PieceType::Knight => 'n',
        PieceType::Bishop => 'b',
        PieceType::Rook => 'r',
        PieceType::Queen => 'q',
        PieceType::King => 'k',
        PieceType::Empty => ' ',
    }
}

/// The piece type a FEN letter of either case names.
pub open spec fn piece_type_of_letter(ch: char) -> PieceType {
    if ch == 'p' || ch == 'P' {
        PieceType::Pawn
    } else if ch == 'n' || ch == 'N' {
        PieceType::Knight
    } else if ch == 'b' || ch == 'B' {
        PieceType::Bishop
    } else if ch == 'r' || ch == 'R' {
        PieceType::Rook
    } else if ch == 'q' || ch == 'Q' {
        PieceType::Queen
    } else if ch == 'k' || ch == 'K' {
        PieceType::King
    } else {
        PieceType::Empty
    }
}

/// Material value in centipawns (P=100, N=320, B=330, R=500, Q=900).
pub open spec fn material_of(pt: PieceType) -> int {
    match pt {
        PieceType::Pawn => 100,
        PieceType::Knight => 320,
        PieceType::Bishop => 330,
        PieceType::Rook => 500,
        PieceType::Queen => 900,
        PieceType::King => 0,
        PieceType::Empty => 0,
    }
}

impl PieceType {
    pub open spec fn idx(self) -> int {
        match self {
            PieceType::Pawn => 0,
            PieceType::Knight => 1,
            PieceType::Bishop => 2,
            PieceType::Rook => 3,
            PieceType::Queen => 4,
            PieceType::King => 5,
            PieceType::Empty => 6,
        }
    }

    pub fn index(self) -> (r: usize)
        ensures
            r == self.idx(),
    {
        match self {
            PieceType::Pawn => 0,
            PieceType::Knight => 1,
            PieceType::Bishop => 2,
            PieceType::Rook => 3,
            PieceType::Queen => 4,
            PieceType::King => 5,
            PieceType::Empty => 6,
        }
    }

    pub fn from_u8(i: u8) -> (r: PieceType)
        ensures
            r == piece_type_of_index(i as int),
    {
        if i == 0 {
            PieceType::Pawn
        } else if i == 1 {
            PieceType::Knight
        } else if i == 2 {
            PieceType::Bishop
        } else if i == 3 {
            PieceType::Rook
        } else if i == 4 {
            PieceType::Queen
        } else if i == 5 {
            PieceType::King
        } else {
            PieceType::Empty
        }
    }

    pub fn from_char(ch: char) -> (r: PieceType)
        ensures
            r == piece_type_of_letter(ch),
    {
        if ch == 'p' || ch == 'P' {
            PieceType::Pawn
        } else if ch == 'n' || ch == 'N' {
            PieceType::Knight
        } else if ch == 'b' || ch == 'B' {
            PieceType::Bishop
        } else if ch == 'r' || ch == 'R' {
            PieceType::Rook
        } else if ch == 'q' || ch == 'Q' {
            PieceType::Queen
        } else if ch == 'k' || ch == 'K' {
            PieceType::King
        } else {
            PieceType::Empty
        }
    }

    pub fn char_lower(self) -> (r: char)
        ensures
            r == piece_type_letter(self),
    {
        match self {
            PieceType::Pawn => 'p',
            PieceType::Knight => 'n',
            PieceType::Bishop => 'b',
            PieceType::Rook => 'r',
            PieceType::Queen => 'q',
            PieceType::King => 'k',
            PieceType::Empty => ' ',
        }
    }

    pub fn material_value(self) -> (r: i32)
        ensures
            r == material_of(self),
    {
        match self {
            PieceType::Pawn => 100,
            PieceType::Knight => 320,
            PieceType::Bishop => 330,
            PieceType::Rook => 500,
            PieceType::Queen => 900,
            PieceType::King => 0,
            PieceType::Empty => 0,
        }
    }
}

/// A letter names a piece type exactly when it is one of `pnbrqk` in either case,
/// and the lower-case letter of a real piece type names it back.
pub proof fn lemma_piece_letter_roundtrip(pt: PieceType)
    requires
        pt != PieceType::Empty,
    ensures
        piece_type_of_letter(piece_type_letter(pt)) == pt,
        piece_type_of_index(pt.idx()) == pt,
{
}

// ---------------------------------------------------------------- pieces

pub open spec fn piece_of(c: Color, pt: PieceType) -> Piece {
    (c.idx() * 6 + pt.idx()) as Piece
}

pub open spec fn color_of_piece(p: Piece) -> Color {
    if p < 6 {
        Color::White
    } else {
        Color::Black
    }
}

pub open spec fn type_of_piece(p: Piece) -> PieceType {
    if p < 12 {
        piece_type_of_index(p as int % 6)
    } else {
        PieceType::Empty
    }
}

pub fn make_piece(c: Color, pt: PieceType) -> (p: Piece)
    requires
        pt != PieceType::Empty,
    ensures
        p == piece_of(c, pt),
        p < 12,
{
    (c.index() * 6 + pt.index()) as u8
}

pub fn piece_color(p: Piece) -> (c: Color)
    ensures
        c == color_of_piece(p),
{
    if p < 6 {
        Color::White
    } else {
        Color::Black
    }
}

pub fn piece_type(p: Piece) -> (pt: PieceType)
    ensures
        pt == type_of_piece(p),
{
    if p < 12 {
        PieceType::from_u8(p % 6)
    } else {
        PieceType::Empty
    }
}

/// A piece built from a color and a piece type gives back that color and type,
/// and a real piece is rebuilt from its color and type.
pub proof fn lemma_piece_roundtrip(c: Color, pt: PieceType, p: Piece)
    ensures
        pt != PieceType::Empty ==> color_of_piece(piece_of(c, pt)) == c && type_of_piece(
            piece_of(c, pt),
        ) == pt && piece_of(c, pt) != PIECE_NONE,
        p < 12 ==> piece_of(color_of_piece(p), type_of_piece(p)) == p && type_of_piece(p)
            != PieceType::Empty,
{
}

// ---------------------------------------------------------------- squares

pub open spec fn file_of(sq: int) -> int {
    sq % 8
}

pub open spec fn rank_of(sq: int) -> int {
    sq / 8
}

pub fn sq_from(file: u8, rank: u8) -> (sq: Square)
    requires
        file < 8,
        rank < 8,
    ensures
        sq == rank * 8 + file,
        sq < 64,
        file_of(sq as int) == file,
        rank_of(sq as int) == rank,
{
    rank * 8 + file
}

pub fn sq_file(sq: Square) -> (f: u8)
    ensures
        f == file_of(sq as int),
{
    sq % 8
}

pub fn sq_rank(sq: Square) -> (r: u8)
    ensures
        r == rank_of(sq as int),
{
    sq / 8
}

/// The two-character name of a square, such as `e4`.
pub open spec fn square_name(sq: int) -> Seq<char> {
    seq![(('a' as int) + file_of(sq)) as char, (('1' as int) + rank_of(sq)) as char]
}

/// The square a two-character name stands for, if it names one.
pub open spec fn square_of_name(s: Seq<char>) -> Option<Square> {
    if s.len() == 2 && 'a' <= s[0] <= 'h' && '1' <= s[1] <= '8' {
        Some(((s[1] as int - '1' as int) * 8 + (s[0] as int - 'a' as int)) as Square)
    } else {
        None
    }
}

/// Appends a character to a `String` (`String::push`).
#[verifier::external_body]
pub(crate) fn push_char(s: &mut String, c: char)
    ensures
        final(s)@ == old(s)@.push(c),
{
    s.push(c);
}

pub fn sq_name(sq: Square) -> (s: String)
    requires
        sq < 64,
    ensures
        s@ == square_name(sq as int),
{
    let mut s = String::new();
    let f = sq % 8;
    let r = sq / 8;
    push_char(&mut s, ((97u8 + f) as char));
    push_char(&mut s, ((49u8 + r) as char));
    s
}

/// The characters of a string slice, in order.
pub fn str_chars(s: &str) -> (v: Vec<char>)
    ensures
        v@ == s@,
{
    let n = s.unicode_len();
    let mut v: Vec<char> = Vec::new();
    let mut i: usize = 0;
    while i < n
        invariant
            n == s@.len(),
            i <= n,
            v@ == s@.subrange(0, i as int),
        decreases n - i,
    {
        v.push(s.get_char(i));
        i += 1;
    }
    v
}

fn square_of_chars(a: char, b: char) -> (r: Option<Square>)
    ensures
        r == square_of_name(seq![a, b]),
{
    if 'a' <= a && a <= 'h' && '1' <= b && b <= '8' {
        let f = (a as u32 - 'a' as u32) as u8;
        let rk = (b as u32 - '1' as u32) as u8;
        Some(rk * 8 + f)
    } else {
        None
    }
}

pub fn sq_from_name(name: &str) -> (r: Option<Square>)
    ensures
        r == square_of_name(name@),
{
    let cs = str_chars(name);
    if cs.len() != 2 {
        return None;
    }
    let r = square_of_chars(cs[0], cs[1]);
    assert(cs@ =~= seq![cs@[0], cs@[1]]);
    r
}

/// A square's name gives the square back.
pub proof fn lemma_square_name_roundtrip(sq: int)
    requires
        0 <= sq < 64,
    ensures
        square_of_name(square_name(sq)) == Some(sq as Square),
{
}

// ---------------------------------------------------------------- moves

pub open spec fn from_of(m: Move) -> Square {
    (m & 63) as Square
}

pub open spec fn to_of(m: Move) -> Square {
    ((m >> 6u16) & 63) as Square
}

pub open spec fn flags_of(m: Move) -> u16 {
    (m >> 12u16) & 3
}

/// The promotion piece of a move: its two top bits name knight, bishop, rook or queen.
pub open spec fn promo_of(m: Move) -> PieceType {
    piece_type_of_index(((m >> 14u16) & 3) as int + 1)
}

pub open spec fn encode_move(from: int, to: int, flags: int, promo_code: int) -> Move {
    (from + to * 64 + flags * 4096 + promo_code * 16384) as Move
}

proof fn lemma_move_fields(from: u16, to: u16, flags: u16, code: u16)
    requires
        from < 64,
        to < 64,
        flags < 4,
        code < 4,
    ensures
        from_of(encode_move(from as int, to as int, flags as int, code as int)) == from,
        to_of(encode_move(from as int, to as int, flags as int, code as int)) == to,
        flags_of(encode_move(from as int, to as int, flags as int, code as int)) == flags,
        ((encode_move(from as int, to as int, flags as int, code as int) >> 14u16) & 3) == code,
{
    let m = (from + to * 64 + flags * 4096 + code * 16384) as u16;
    assert(m == from | (to << 6u16) | (flags << 12u16) | (code << 14u16)) by (bit_vector)
        requires
            from < 64,
            to < 64,
            flags < 4,
            code < 4,
            m == (from + to * 64 + flags * 4096 + code * 16384) as u16,
    ;
    assert((m & 63) == from && ((m >> 6u16) & 63) == to && ((m >> 12u16) & 3) == flags && ((m
        >> 14u16) & 3) == code) by (bit_vector)
        requires
            from < 64,
            to < 64,
            flags < 4,
            code < 4,
            m == from | (to << 6u16) | (flags << 12u16) | (code << 14u16),
    ;
}

/// The fields of a move are in range.
pub proof fn lemma_move_bounds(m: Move)
    ensures
        from_of(m) < 64,
        to_of(m) < 64,
        flags_of(m) < 4,
        is_promotion_type(promo_of(m)),
{
    assert((m & 63) < 64 && ((m >> 6u16) & 63) < 64 && ((m >> 12u16) & 3) < 4 && ((m >> 14u16) & 3)
        < 4) by (bit_vector);
}

pub fn make_move(from: Square, to: Square) -> (m: Move)
    requires
        from < 64,
        to < 64,
    ensures
        m == encode_move(from as int, to as int, MF_NORMAL as int, 0),
        from_of(m) == from,
        to_of(m) == to,
        flags_of(m) == MF_NORMAL,
{
    proof {
        lemma_move_fields(from as u16, to as u16, 0, 0);
    }
    (from as u16) + (to as u16) * 64
}

pub fn make_move_ep(from: Square, to: Square) -> (m: Move)
    requires
        from < 64,
        to < 64,
    ensures
        m == encode_move(from as int, to as int, MF_EN_PASSANT as int, 0),
        from_of(m) == from,
        to_of(m) == to,
        flags_of(m) == MF_EN_PASSANT,
{
    proof {
        lemma_move_fields(from as u16, to as u16, 2, 0);
    }
    (from as u16) + (to as u16) * 64 + 2 * 4096
}

pub fn make_move_castling(from: Square, to: Square) -> (m: Move)
    requires
        from < 64,
        to < 64,
    ensures
        m == encode_move(from as int, to as int, MF_CASTLING as int, 0),
        from_of(m) == from,
        to_of(m) == to,
        flags_of(m) == MF_CASTLING,
{
    proof {
        lemma_move_fields(from as u16, to as u16, 3, 0);
    }
    (from as u16) + (to as u16) * 64 + 3 * 4096
}

/// Whether a piece type can be promoted to.
pub open spec fn is_promotion_type(pt: PieceType) -> bool {
    pt == PieceType::Knight || pt == PieceType::Bishop || pt == PieceType::Rook || pt
        == PieceType::Queen
}

pub fn make_move_promo(from: Square, to: Square, pt: PieceType) -> (m: Move)
    requires
        from < 64,
        to < 64,
        is_promotion_type(pt),
    ensures
        m == encode_move(from as int, to as int, MF_PROMOTION as int, pt.idx() - 1),
        from_of(m) == from,
        to_of(m) == to,
        flags_of(m) == MF_PROMOTION,
        promo_of(m) == pt,
{
    let code = (pt.index() - 1) as u16;
    proof {
        lemma_move_fields(from as u16, to as u16, 1, code);
    }
    (from as u16) + (to as u16) * 64 + 4096 + code * 16384
}

pub fn move_from(m: Move) -> (sq: Square)
    ensures
        sq == from_of(m),
        sq < 64,
{
    proof {
        lemma_move_bounds(m);
    }
    (m & 63) as u8
}

pub fn move_to(m: Move) -> (sq: Square)
    ensures
        sq == to_of(m),
        sq < 64,
{
    proof {
        lemma_move_bounds(m);
    }
    ((m >> 6) & 63) as u8
}

pub fn move_flags(m: Move) -> (f: u16)
    ensures
        f == flags_of(m),
        f < 4,
{
    proof {
        lemma_move_bounds(m);
    }
    (m >> 12) & 3
}

pub fn move_promo_pt(m: Move) -> (pt: PieceType)
    ensures
        pt == promo_of(m),
        is_promotion_type(pt),
{
    proof {
        lemma_move_bounds(m);
    }
    let code = ((m >> 14) & 3) as u8;
    PieceType::from_u8(code + 1)
}

/// The UCI name of a move: from-square, to-square, and for a promotion the
/// lower-case letter of the new piece; the null move is `0000`.
pub open spec fn move_uci(m: Move) -> Seq<char> {
    if m == MOVE_NONE {
        seq!['0', '0', '0', '0']
    } else if flags_of(m) == MF_PROMOTION {
        square_name(from_of(m) as int) + square_name(to_of(m) as int) + seq![
            piece_type_letter(promo_of(m)),
        ]
    } else {
        square_name(from_of(m) as int) + square_name(to_of(m) as int)
    }
}

pub fn move_name(m: Move) -> (s: String)
    ensures
        s@ == move_uci(m),
{
    let mut s = String::new();
    if m == MOVE_NONE {
        push_char(&mut s, '0');
        push_char(&mut s, '0');
        push_char(&mut s, '0');
        push_char(&mut s, '0');
        assert(s@ =~= move_uci(m));
        return s;
    }
    let from = move_from(m);
    let to = move_to(m);
    push_char(&mut s, ((97u8 + from % 8) as char));
    push_char(&mut s, ((49u8 + from / 8) as char));
    push_char(&mut s, ((97u8 + to % 8) as char));
    push_char(&mut s, ((49u8 + to / 8) as char));
    if move_flags(m) == MF_PROMOTION {
        push_char(&mut s, move_promo_pt(m).char_lower());
    }
    assert(s@ =~= move_uci(m));
    s
}

/// The promotion piece a UCI suffix letter names, if any.
pub open spec fn promo_of_letter(ch: char) -> PieceType {
    if ch == 'q' {
        PieceType::Queen
    } else if ch == 'r' {
        PieceType::Rook
    } else if ch == 'b' {
        PieceType::Bishop
    } else if ch == 'n' {
        PieceType::Knight
    } else {
        PieceType::Empty
    }
}

/// The move a UCI string names, without the special kinds that only the
/// position can tell (castling, en passant).
pub open spec fn move_of_uci(s: Seq<char>) -> Option<Move> {
    if s.len() != 4 && s.len() != 5 {
        None
    } else {
        match (square_of_name(s.subrange(0, 2)), square_of_name(s.subrange(2, 4))) {
            (Some(from), Some(to)) => if s.len() == 4 {
                Some(encode_move(from as int, to as int, MF_NORMAL as int, 0))
            } else if promo_of_letter(s[4]) != PieceType::Empty {
                Some(
                    encode_move(
                        from as int,
                        to as int,
                        MF_PROMOTION as int,
                        promo_of_letter(s[4]).idx() - 1,
                    ),
                )
            } else {
                None
            },
            _ => None,
        }
    }
}

pub fn move_from_uci(uci: &str) -> (r: Option<Move>)
    ensures
        r == move_of_uci(uci@),
{
    let cs = str_chars(uci);
    if cs.len() != 4 && cs.len() != 5 {
        return None;
    }
    assert(cs@.subrange(0, 2) =~= seq![cs@[0], cs@[1]]);
    assert(cs@.subrange(2, 4) =~= seq![cs@[2], cs@[3]]);
    let from = match square_of_chars(cs[0], cs[1]) {
        Some(f) => f,
        None => return None,
    };
    let to = match square_of_chars(cs[2], cs[3]) {
        Some(t) => t,
        None => return None,
    };
    if cs.len() == 4 {
        return Some(make_move(from, to));
    }
    let ch = cs[4];
    let pt = if ch == 'q' {
        PieceType::Queen
    } else if ch == 'r' {
        PieceType::Rook
    } else if ch == 'b' {
        PieceType::Bishop
    } else if ch == 'n' {
        PieceType::Knight
    } else {
        return None;
    };
    Some(make_move_promo(from, to, pt))
}

/// The UCI name of a normal move or a promotion names it back.
pub proof fn lemma_move_name_roundtrip(from: Square, to: Square, flags: u16, code: u16)
    requires
        from < 64,
        to < 64,
        flags == MF_NORMAL || flags == MF_PROMOTION,
        code < 4,
        flags == MF_NORMAL ==> code == 0,
        encode_move(from as int, to as int, flags as int, code as int) != MOVE_NONE,
    ensures
        move_of_uci(move_uci(encode_move(from as int, to as int, flags as int, code as int)))
            == Some(encode_move(from as int, to as int, flags as int, code as int)),
{
    let m = encode_move(from as int, to as int, flags as int, code as int);
    lemma_move_fields(from as u16, to as u16, flags, code);
    let s = move_uci(m);
    assert(s.subrange(0, 2) =~= square_name(from as int));
    assert(s.subrange(2, 4) =~= square_name(to as int));
    lemma_square_name_roundtrip(from as int);
    lemma_square_name_roundtrip(to as int);
}

// ---------------------------------------------------------------- game phase

/// Non-pawn material of both sides at the start of a game.
pub const PHASE_MATERIAL_FULL: i32 = 6400;

/// The game phase 0 (bare kings and pawns) ..= 256 (full opening material),
/// proportional to the non-pawn material on the board.
pub open spec fn phase_of(npm: int) -> int {
    let m = if npm < 0 {
        0
    } else if npm > 6400 {
        6400
    } else {
        npm
    };
    m * 256 / 6400
}

pub fn game_phase(npm: i32) -> (p: i32)
    ensures
        p == phase_of(npm as int),
        0 <= p <= 256,
{
    let m = if npm < 0 {
        0
    } else if npm > PHASE_MATERIAL_FULL {
        PHASE_MATERIAL_FULL
    } else {
        npm
    };
    assert(0 <= m * 256 / 6400 <= 256) by (nonlinear_arith)
        requires
            0 <= m <= 6400,
    ;
    m * 256 / PHASE_MATERIAL_FULL
}

} // verus!
