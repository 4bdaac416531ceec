use vstd::prelude::*;

verus! {

/// The seed of the key generator.
pub const ZOBRIST_SEED: u64 = 0x246C_E2A1_9F27_B38F;

/// One step of the xorshift generator (shifts 13, 7, 17).
pub open spec fn xorshift(x: u64) -> u64 {
    let a = x ^ (x << 13u64);
    let b = a ^ (a >> 7u64);
    b ^ (b << 17u64)
}

/// The generator state after `n` steps from `x`.
pub open spec fn xorshift_iter(x: u64, n: nat) -> u64
    decreases n,
{
    if n == 0 {
        x
    } else {
        xorshift(xorshift_iter(x, (n - 1) as nat))
    }
}

/// The `n`-th key the generator hands out (the first is `zobrist_key(0)`).
pub open spec fn zobrist_key(n: nat) -> u64 {
    xorshift_iter(ZOBRIST_SEED, n + 1)
}

/// Random keys for incremental position hashing.
pub struct Zobrist {
    /// `[color][piece_type][square]`
    pub piece_sq: [[[u64; 64]; 6]; 2],
    pub side: u64,
    pub castling: [u64; 16],
    pub ep_file: [u64; 8],
}

impl Zobrist {
    /// The keys are the generator's outputs in order: pieces (color, type, square),
    /// then the side key, the 16 castling keys and the 8 en-passant file keys.
    pub open spec fn is_standard(&self) -> bool {
        &&& forall|c: int, pt: int, sq: int|
            0 <= c < 2 && 0 <= pt < 6 && 0 <= sq < 64 ==> #[trigger] self.piece_sq[c][pt][sq]
                == zobrist_key((c * 384 + pt * 64 + sq) as nat)
        &&& self.side == zobrist_key(768)
        &&& forall|i: int| 0 <= i < 16 ==> #[trigger] self.castling[i] == zobrist_key((769 + i) as nat)
        &&& forall|i: int| 0 <= i < 8 ==> #[trigger] self.ep_file[i] == zobrist_key((785 + i) as nat)
    }

    pub fn new() -> (z: Self)
        ensures
            z.is_standard(),
    {
        let mut state: u64 = ZOBRIST_SEED;
        let ghost mut n: nat = 0;
        let mut piece_sq = [[[0u64; 64]; 6]; 2];
        let mut c: usize = 0;
        while c < 2
            invariant
                c <= 2,
                n == c * 384,
                state == xorshift_iter(ZOBRIST_SEED, n),
                forall|c2: int, pt: int, sq: int|
                    0 <= c2 < c && 0 <= pt < 6 && 0 <= sq < 64 ==> #[trigger] piece_sq[c2][pt][sq]
                        == zobrist_key((c2 * 384 + pt * 64 + sq) as nat),
            decreases 2 - c,
        {
            let mut pt: usize = 0;
            while pt < 6
                invariant
                    c < 2,
                    pt <= 6,
                    n == c * 384 + pt * 64,
                    state == xorshift_iter(ZOBRIST_SEED, n),
                    forall|c2: int, pt2: int, sq: int|
                        0 <= c2 < c && 0 <= pt2 < 6 && 0 <= sq < 64 ==> #[trigger] piece_sq[c2][pt2][sq]
                            == zobrist_key((c2 * 384 + pt2 * 64 + sq) as nat),
                    forall|pt2: int, sq: int|
                        0 <= pt2 < pt && 0 <= sq < 64 ==> #[trigger] piece_sq[c as int][pt2][sq]
                            == zobrist_key((c * 384 + pt2 * 64 + sq) as nat),
                decreases 6 - pt,
            {
                let mut sq: usize = 0;
                while sq < 64
                    invariant
                        c < 2,
                        pt < 6,
                        sq <= 64,
                        n == c * 384 + pt * 64 + sq,
                        state == xorshift_iter(ZOBRIST_SEED, n),
                        forall|c2: int, pt2: int, s: int|
                            0 <= c2 < c && 0 <= pt2 < 6 && 0 <= s < 64 ==> #[trigger] piece_sq[c2][pt2][s]
                                == zobrist_key((c2 * 384 + pt2 * 64 + s) as nat),
                        forall|pt2: int, s: int|
                            0 <= pt2 < pt && 0 <= s < 64 ==> #[trigger] piece_sq[c as int][pt2][s]
                                == zobrist_key((c * 384 + pt2 * 64 + s) as nat),
                        forall|s: int|
                            0 <= s < sq ==> #[trigger] piece_sq[c as int][pt as int][s]
                                == zobrist_key((c * 384 + pt * 64 + s) as nat),
                    decreases 64 - sq,
                {
                    state = next_key(state);
                    piece_sq[c][pt][sq] = state;
                    proof {
                        n = n + 1;
                    }
                    sq += 1;
                }
                pt += 1;
            }
            c += 1;
        }
        state = next_key(state);
        let side = state;
        proof {
            n = n + 1;
        }
        let mut castling = [0u64; 16];
        let mut i: usize = 0;
        while i < 16
            invariant
                i <= 16,
                n == 769 + i,
                state == xorshift_iter(ZOBRIST_SEED, n),
                forall|j: int| 0 <= j < i ==> #[trigger] castling[j] == zobrist_key((769 + j) as nat),
            decreases 16 - i,
        {
            state = next_key(state);
            castling[i] = state;
            proof {
                n = n + 1;
            }
            i += 1;
        }
        let mut ep_file = [0u64; 8];
        let mut i: usize = 0;
        while i < 8
            invariant
                i <= 8,
                n == 785 + i,
                state == xorshift_iter(ZOBRIST_SEED, n),
                forall|j: int| 0 <= j < i ==> #[trigger] ep_file[j] == zobrist_key((785 + j) as nat),
            decreases 8 - i,
        {
            state = next_key(state);
            ep_file[i] = state;
            proof {
                n = n + 1;
            }
            i += 1;
        }
        Zobrist { piece_sq, side, castling, ep_file }
    }
}

/// All standard key tables are the same.
pub proof fn lemma_standard_unique(z1: Zobrist, z2: Zobrist)
    requires
        z1.is_standard(),
        z2.is_standard(),
    ensures
        z1 == z2,
{
    assert forall|c: int, pt: int| 0 <= c < 2 && 0 <= pt < 6 implies z1.piece_sq[c][pt]
        =~= z2.piece_sq[c][pt] by {
        assert forall|sq: int| 0 <= sq < 64 implies z1.piece_sq[c][pt][sq] == z2.piece_sq[c][pt][sq] by {}
    }
    assert forall|c: int| 0 <= c < 2 implies z1.piece_sq[c] =~= z2.piece_sq[c] by {}
    assert(z1.piece_sq =~= z2.piece_sq);
    assert(z1.castling =~= z2.castling);
    assert(z1.ep_file =~= z2.ep_file);
}

/// Advances the key generator by one step.
fn next_key(state: u64) -> (r: u64)
    ensures
        r == xorshift(state),
{
    let mut s = state;
    s = s ^ (s << 13);
    s = s ^ (s >> 7);
    s = s ^ (s << 17);
    s
}

} // verus!
