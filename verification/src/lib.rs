use vstd::prelude::*;

pub mod types;
pub mod text;
pub mod bitboard;
pub mod attacks;
pub mod magic;
pub mod zobrist;
pub mod board;
pub mod makemove;
pub mod fen;
pub mod fen_readback;
pub mod consistency;
pub mod movegen;
pub mod movegen_laws;
pub mod see;
pub mod perft;
pub mod config;
pub mod criticality;
pub mod eval_terms;
pub mod eval;
pub mod eval_pawns;
pub mod eval_activity;
pub mod diagnostics;
pub mod search;
pub mod clock;
pub mod qsearch;
pub mod pvs;
pub mod probe_events;
pub mod stats;

verus! {
} // verus!
