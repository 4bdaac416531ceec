use boa::criticality::{
    criticality_sample_bucket, should_probe, CriticalityDecisionKind, CriticalityEffect,
    CriticalityLabelSource, CriticalityRecord,
};
use boa::types::{make_move, make_piece, Color, PieceType};

fn sample_record() -> CriticalityRecord {
    let m = make_move(12, 28);
    let record = CriticalityRecord {
        decision_kind: CriticalityDecisionKind::Lmr,
        pid: 1,
        game_id: 2,
        search_id: 3,
        root_depth: 6,
        ply: 2,
        node_hash: 123,
        side_to_move: Color::White,
        m,
        from: 12,
        to: 28,
        piece: make_piece(Color::White, PieceType::Pawn),
        depth: 5,
        move_index: 7,
        base_reduction: 2,
        final_reduction: 1,
        new_depth: 3,
        history_score: 42,
        static_eval: 10,
        prev_static_eval: Some(-5),
        alpha: -20,
        beta: 30,
        futility_margin: None,
        static_alpha_margin: None,
        is_pv: false,
        is_cut_node: true,
        improving: true,
        is_killer: false,
        is_counter: false,
        tt_move_agreement: false,
        label_source: CriticalityLabelSource::CounterfactualProbe,
        reduced_score: Some(-10),
        full_score: Some(35),
        sigma: Some(15),
    };
    record
}

#[test]
fn criticality_sampler_respects_extreme_permille_values() {
    let m = make_move(12, 28);
    assert!(!should_probe(1, m, 8, 3, 4, 0));
    assert!(should_probe(1, m, 8, 3, 4, 1000));
}

#[test]
fn criticality_sampler_is_deterministic() {
    let m = make_move(12, 28);
    assert_eq!(
        criticality_sample_bucket(123, m, 9, 4, 55),
        criticality_sample_bucket(123, m, 9, 4, 55)
    );
}

#[test]
fn criticality_record_row_matches_header_width() {
    let m = make_move(12, 28);
    let record = CriticalityRecord {
        decision_kind: CriticalityDecisionKind::Lmr,
        pid: 1,
        game_id: 2,
        search_id: 3,
        root_depth: 6,
        ply: 2,
        node_hash: 123,
        side_to_move: Color::White,
        m,
        from: 12,
        to: 28,
        piece: make_piece(Color::White, PieceType::Pawn),
        depth: 5,
        move_index: 7,
        base_reduction: 2,
        final_reduction: 1,
        new_depth: 3,
        history_score: 42,
        static_eval: 10,
        prev_static_eval: Some(-5),
        alpha: -20,
        beta: 30,
        futility_margin: None,
        static_alpha_margin: None,
        is_pv: false,
        is_cut_node: true,
        improving: true,
        is_killer: false,
        is_counter: false,
        tt_move_agreement: false,
        label_source: CriticalityLabelSource::CounterfactualProbe,
        reduced_score: Some(-10),
        full_score: Some(35),
        sigma: Some(15),
    };
    assert_eq!(
        CriticalityRecord::header().split(',').count(),
        record.to_csv_row().split(',').count()
    );
}

#[test]
fn tests_sampler_respects_extreme_permille_values() {
    let m = make_move(12, 28);
    assert!(!should_probe(1, m, 8, 3, 4, 0));
    assert!(should_probe(1, m, 8, 3, 4, 1000));
}

#[test]
fn tests_sampler_is_deterministic() {
    let m = make_move(12, 28);
    assert_eq!(
        criticality_sample_bucket(123, m, 9, 4, 55),
        criticality_sample_bucket(123, m, 9, 4, 55)
    );
}

#[test]
fn tests_record_row_matches_header_width() {
    let m = make_move(12, 28);
    let record = CriticalityRecord {
        decision_kind: CriticalityDecisionKind::Lmr,
        pid: 1,
        game_id: 2,
        search_id: 3,
        root_depth: 6,
        ply: 2,
        node_hash: 123,
        side_to_move: Color::White,
        m,
        from: 12,
        to: 28,
        piece: make_piece(Color::White, PieceType::Pawn),
        depth: 5,
        move_index: 7,
        base_reduction: 2,
        final_reduction: 1,
        new_depth: 3,
        history_score: 42,
        static_eval: 10,
        prev_static_eval: Some(-5),
        alpha: -20,
        beta: 30,
        futility_margin: None,
        static_alpha_margin: None,
        is_pv: false,
        is_cut_node: true,
        improving: true,
        is_killer: false,
        is_counter: false,
        tt_move_agreement: false,
        label_source: CriticalityLabelSource::CounterfactualProbe,
        reduced_score: Some(-10),
        full_score: Some(35),
        sigma: Some(15),
    };
    assert_eq!(
        CriticalityRecord::header().split(',').count(),
        record.to_csv_row().split(',').count()
    );
}

#[test]
fn record_row_text_is_exact() {
    let record = sample_record();
    assert_eq!(
        record.to_csv_row(),
        "2,lmr,1,2,3,6,2,123,white,e2e4,12,28,p,5,7,2,1,3,42,10,1,-5,15,-20,30,,,0,1,1,0,0,0,counterfactual_probe,-10,35,45,alpha,cutoff,1,15"
    );
    assert_eq!(CriticalityRecord::header().split(',').count(), 41);
}

#[test]
fn record_without_probe_scores_leaves_columns_empty() {
    let mut record = sample_record();
    record.reduced_score = None;
    record.full_score = None;
    record.prev_static_eval = None;
    record.sigma = None;
    record.piece = 12;
    let row = record.to_csv_row();
    assert_eq!(row.split(',').count(), 41);
    assert!(row.contains(",0,,,"));
    assert!(row.ends_with(",counterfactual_probe,,,,none,none,,"));
    assert!(row.contains(",e2e4,12,28,.,"));
}

#[test]
fn effect_follows_the_window() {
    assert_eq!(CriticalityEffect::from_score(30, -20, 30), CriticalityEffect::Cutoff);
    assert_eq!(CriticalityEffect::from_score(0, -20, 30), CriticalityEffect::Alpha);
    assert_eq!(CriticalityEffect::from_score(-20, -20, 30), CriticalityEffect::Unchanged);
    assert_eq!(CriticalityEffect::Alpha.as_str(), "alpha");
}

#[test]
fn sample_bucket_is_below_one_thousand_and_gates_probing() {
    let m = make_move(12, 28);
    for h in 0..200u64 {
        let b = criticality_sample_bucket(h.wrapping_mul(0x1234_5678_9ABC), m, -3, 7, h);
        assert!(b < 1000);
        assert_eq!(should_probe(h.wrapping_mul(0x1234_5678_9ABC), m, -3, 7, h, 500), b < 500);
    }
}
