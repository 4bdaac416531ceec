# boa

A UCI chess engine whose core is a Verus-verified library.

- `src/` is the library, verified with Verus: the board and its hashes, FEN
  reading and writing (with a proof that a written record reads back as the
  same position: pieces, side to move, castling, en passant square and clocks,
  and the king squares where they index the kings), the consistency report, attack tables with magic
  bitboards, move generation and perft, making and taking back moves, static
  exchange evaluation, the tapered evaluation (material, piece-square tables,
  pawn structure, mobility and activity, king safety), the pawn evaluation
  cache, engine options, the criticality records and their sampling, the
  restriction diagnostics, and the search's decision helpers (time budget,
  draw rules, table cutoffs and mate scores, mate distance windows, reverse
  futility, null move conditions, reduced depths, delta pruning, aspiration
  windows, the fallback move, move ordering with killers, history, counter
  moves and capture history, the end of an iteration), the capture search
  (quiescence) with its stop test and an exact statement of the score it
  returns, the principal variation search (alpha-beta with draw detection,
  mate distance pruning, check extension, table cutoffs, internal iterative
  deepening, reverse futility and null move pruning, late move reductions and
  re-searches, shadow probes, mate and stalemate scoring), and the percentile
  of a sample. The principal variation search asks its host for the shared
  transposition table, the floating-point reduction model and the decision log
  through a trait that promises nothing about the answers.
- `tests/` runs the library on concrete positions.
- `app/` is the program around it: the UCI loop, iterative deepening with
  aspiration windows and Lazy SMP threads, the host of the search (the
  transposition table shared between threads, the late-move-reduction formula
  and learned criticality model in floating point, the criticality log files),
  and the probe event writer.
