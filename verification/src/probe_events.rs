use vstd::prelude::*;

verus! {

// Diagnostic events of the engine's modules, one struct per event type: plain
// values that a probe writer serialises as one JSON line each.

/// One sampling decision: with a rate of 0 or 1 every event is taken and the call
/// counter stays; otherwise the event is taken when the counter is a multiple of the
/// rate, and the counter moves on by one (wrapping).
pub fn sample_step(counter: u64, rate: u32) -> (r: (bool, u64))
    ensures
        rate <= 1 ==> r == (true, counter),
        rate > 1 ==> r == (counter % (rate as u64) == 0, if counter == u64::MAX {
            0u64
        } else {
            (counter + 1) as u64
        }),
{
    if rate <= 1 {
        return (true, counter);
    }
    (counter % (rate as u64) == 0, counter.wrapping_add(1))
}

/// Config — typ:"cf" — fires once at search start
#[derive(Clone, Debug)]
pub struct ConfigEvent {
    pub tt_size_mb: u32,
    pub material_scale: i32,
    pub pst_scale: i32,
    pub mobility_scale: i32,
    pub king_safety_scale: i32,
    pub pawn_structure_scale: i32,
    pub contempt: i32,
    pub syzygy_enabled: bool,
    pub max_depth: u32,
    pub move_time: u64,
    pub wtime: i64,
    pub btime: i64,
    pub winc: i64,
    pub binc: i64,
    pub moves_to_go: i32,
}

/// Board — typ:"b" — fires on position set
#[derive(Clone, Debug)]
pub struct BoardEvent {
    /// FEN truncated to 64 chars
    pub fen: String,
    pub phase: i32,
    pub non_pawn_material: i32,
    pub mobile_pieces: i32,
    pub open_files: i32,
    pub in_check: bool,
    pub material_rule_score: i32,
    pub halfmove_clock: i32,
    pub fullmove_number: i32,
}

/// Movegen — typ:"mg" — fires per position
#[derive(Clone, Debug)]
pub struct MovegenEvent {
    pub total_count: u32,
    pub quiet_count: u32,
    pub capture_count: u32,
    pub evasion_count: u32,
    pub promotion_count: u32,
    pub in_check: bool,
}

/// Eval — typ:"ev" — full EvalBreakdown
#[derive(Clone, Debug)]
pub struct EvalEvent {
    pub phase: i32,
    pub material_mg: i32,
    pub material_eg: i32,
    pub material_cp: i32,
    pub pst_mg: i32,
    pub pst_eg: i32,
    pub pst_cp: i32,
    pub mobility_mg: i32,
    pub mobility_eg: i32,
    pub mobility_cp: i32,
    pub mobility_white: u32,
    pub mobility_black: u32,
    pub pawn_structure_mg: i32,
    pub pawn_structure_eg: i32,
    pub pawn_structure_cp: i32,
    pub king_safety_mg: i32,
    pub king_safety_eg: i32,
    pub king_safety_cp: i32,
    pub white_score: i32,
    pub side_to_move_score: i32,
}

/// Search Node — typ:"sn" — per-node state
#[derive(Clone, Debug)]
pub struct SearchNodeEvent {
    pub depth: i32,
    pub ply: u32,
    pub static_eval: i32,
    pub alpha: i32,
    pub beta: i32,
    pub is_pv: bool,
    pub is_cut_node: bool,
    pub in_check: bool,
    pub improving: bool,
    pub prev_static_eval: Option<i32>,
    pub score: i32,
    pub moves_searched: u32,
    pub beta_cutoffs_this_node: u32,
    pub first_move_cutoff: bool,
    pub node_time_us: u64,
    pub tb_hit: bool,
    pub tt_hit: bool,
}

/// Search Summary — typ:"ss" — fires once at search end
#[derive(Clone, Debug)]
pub struct SearchSummaryEvent {
    pub depth_completed: i32,
    pub total_nodes: u64,
    pub qsearch_nodes: u64,
    pub time_ms: u64,
    pub nodes_per_sec: u64,
    pub best_move: String,
    pub best_score: i32,
    pub sel_depth: i32,
    pub tt_probes: u64,
    pub tt_hits: u64,
    pub tt_cutoffs: u64,
    pub beta_cutoffs: u64,
    pub first_move_cutoffs: u64,
    pub null_move_tries: u64,
    pub null_move_cutoffs: u64,
    pub rfp_cutoffs: u64,
    pub ffp_attempts: u64,
    pub ffp_prunes: u64,
    pub lmr_attempts: u64,
    pub lmr_actual_reductions: u64,
    pub lmr_re_searches: u64,
    pub see_win_caps: u64,
    pub see_equal_caps: u64,
    pub see_loss_caps: u64,
    pub see_loss_searched: u64,
    pub iid_triggers: u64,
    pub iid_successes: u64,
    pub tb_hits: u64,
    pub dropped_probe_events: u64,
}

/// TT Probe — typ:"tt"
#[derive(Clone, Debug)]
pub struct TtProbeEvent {
    pub operation: &'static str, // "probe" or "store"
    pub hit: bool,
    pub entry_type: &'static str, // "exact", "alpha", "beta", "empty"
    pub entry_depth: i8,
    pub entry_score: i32,
    pub entry_age: u8,
    pub slot_index: u8,
    pub replaced: bool,
    pub replaced_depth: i8,
}

/// TT Cutoff — typ:"tc"
#[derive(Clone, Debug)]
pub struct TtCutoffEvent {
    pub depth: i32,
    pub entry_type: &'static str,
    pub entry_depth: i8,
    pub depth_sufficient: bool,
    pub cutoff_score: i32,
    pub alpha: i32,
    pub beta: i32,
}

/// FFP — typ:"fp"
#[derive(Clone, Debug)]
pub struct FfpEvent {
    pub depth: i32,
    pub move_index: u32,
    pub history_score: i32,
    pub computed_margin: i32,
    pub required_gain: i32,
    pub pruned: bool,
    pub is_cut_node: bool,
}

/// RFP — typ:"rp"
#[derive(Clone, Debug)]
pub struct RfpEvent {
    pub depth: i32,
    pub static_eval: i32,
    pub beta: i32,
    pub computed_margin: i32,
    pub pruned: bool,
}

/// LMR — typ:"lm"
#[derive(Clone, Debug)]
pub struct LmrEvent {
    pub depth: i32,
    pub ply: u32,
    pub move_index: u32,
    pub moves_searched: u32,
    pub history_score: i32,
    pub base_reduction: i32,
    pub actual_reduction: i32,
    pub new_depth: i32,
    pub improving: bool,
    pub is_killer: bool,
    pub is_counter: bool,
    pub tt_move_agreement: bool,
    pub gives_check: bool,
    pub moving_piece: u8,
    pub is_cut_node: bool,
}

/// Null Move — typ:"nm"
#[derive(Clone, Debug)]
pub struct NullMoveEvent {
    pub depth: i32,
    pub static_eval: i32,
    pub beta: i32,
    pub reduction: i32,
    pub null_move_score: i32,
    pub pruned: bool,
}

/// SEE — typ:"se"
#[derive(Clone, Debug)]
pub struct SeeEvent {
    pub see_value: i32,
    pub captured_value: i32,
    pub threshold: i32,
    pub pruned_by_see: bool,
    pub searched_despite_bad_see: bool,
    pub pin_excluded: bool,
}

/// Quiescence — typ:"qs"
#[derive(Clone, Debug)]
pub struct QuiescenceEvent {
    pub ply: u32,
    pub stand_pat_score: i32,
    pub alpha: i32,
    pub beta: i32,
    pub final_score: i32,
    pub captures_searched: u32,
    pub delta_pruned_count: u32,
    pub see_pruned_count: u32,
    pub in_check: bool,
    pub futility_cutoff: bool,
}

/// Aspiration — typ:"aw"
#[derive(Clone, Debug)]
pub struct AspirationEvent {
    pub depth: i32,
    pub initial_delta: i32,
    pub window_low: i32,
    pub window_high: i32,
    pub fail_high: bool,
    pub fail_low: bool,
    pub expansion_count: u32,
    pub research_score: i32,
}

/// IID — typ:"ii"
#[derive(Clone, Debug)]
pub struct IidEvent {
    pub depth: i32,
    pub reduced_depth: i32,
    pub tt_move_found_after_iid: bool,
    pub iid_search_score: i32,
}

/// Move Ordering — typ:"mo"
#[derive(Clone, Debug)]
pub struct MoveOrderingEvent {
    pub ply: u32,
    pub move_index: u32,
    pub phase_picked: &'static str, // "tt","hash","good_cap","killer","counter","quiet","bad_cap"
    pub butterfly_score: i32,
    pub killer_score: i32,
    pub counter_score: i32,
    pub capture_history_score: i32,
    pub mvv_lva_base: i32,
    pub tt_move_bonus: bool,
    pub promotion_bonus: bool,
}

/// History Table — typ:"ht"
#[derive(Clone, Debug)]
pub struct HistoryEvent {
    pub event_type: &'static str, // "overflow", "scale_down", "cap_scale_down"
    pub color_index: u8,
    pub piece_index: u8,
    pub max_value_before: i32,
    pub min_value_before: i32,
    pub threshold: i32,
}

/// Root — typ:"rt"
#[derive(Clone, Debug)]
pub struct RootEvent {
    pub depth: i32,
    pub best_move: String,
    pub best_score: i32,
    pub pv_line: String,
    pub best_move_changed: bool,
    pub previous_best_move: String,
    pub iteration_time_ms: u64,
    pub nodes_this_iteration: u64,
    pub aspiration_fails: u32,
}

#[derive(Clone, Debug)]
pub struct TimeManagementEvent {
    pub allocated: u64,
    pub hard_limit: u64,
    pub optimum_time: u64,
    pub elapsed: u64,
    pub moves_to_go: i32,
    pub move_overhead: i64,
    pub remaining_clock: i64,
    pub increment: i64,
}

/// Syzygy — typ:"tz"
#[derive(Clone, Debug)]
pub struct SyzygyEvent {
    pub result: &'static str, // "win","draw","loss","cursed","blessed","not_found"
    pub distance_to_mate: i32,
    pub piece_count: u8,
    pub dtz_value: i32,
    pub wdl_probe_success: bool,
}

/// Draw Detection — typ:"dd"
#[derive(Clone, Debug)]
pub struct DrawEvent {
    pub draw_type: &'static str, // "repetition","fifty_move","insufficient_material"
    pub ply: u32,
    pub contempt_applied: i32,
    pub score_returned: i32,
}

/// Mate Distance — typ:"md"
#[derive(Clone, Debug)]
pub struct MateDistanceEvent {
    pub ply: u32,
    pub original_alpha: i32,
    pub clamped_alpha: i32,
    pub original_beta: i32,
    pub clamped_beta: i32,
    pub pruned: bool,
}

/// Correction History — typ:"cr"
#[derive(Clone, Debug)]
pub struct CorrectionHistoryEvent {
    pub correction_value: i32, // total correction (in corr units; /512 → cp)
    pub raw_eval: i32, // raw static eval before correction
    pub corrected_eval: i32, // eval after correction
    pub diff: i32, // best_score - raw_eval (the correction update)
    pub pawn_corr: i32, // pawn correction component
    pub nonpawn_corr: i32, // non-pawn correction component
    pub cont_corr: i32, // continuation correction component
    pub ply: u32,
}

/// ProbCut — typ:"pc" — fires when ProbCut is evaluated
#[derive(Clone, Debug)]
pub struct ProbCutEvent {
    pub depth: i32,
    pub beta: i32,
    pub prob_beta: i32,
    pub static_eval: i32,
    pub attempts: u32,
    pub accepted: bool,
    pub prob_score: Option<i32>,
    pub nodes_saved: Option<u64>,
}

#[derive(Clone, Debug)]
pub struct SingularExtensionEvent {
    pub depth: i32,
    pub tt_score: i32,
    pub singular_beta: i32,
    pub singular_score: i32,
    pub extension: i32,
    pub multi_cut: bool,
}

#[derive(Clone, Debug)]
pub struct ThreatExtensionEvent {
    pub depth: i32,
    pub lmr_reduction: i32,
}

#[derive(Clone, Debug)]
pub struct RecaptureExtensionEvent {
    pub depth: i32,
}

} // verus!
