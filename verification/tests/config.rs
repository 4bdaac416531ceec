use boa::config::{scale_score, scale_score_pair, EngineOptions};

#[test]
fn config_uci_option_names_accept_spaces_and_case() {
    let mut options = EngineOptions::default();

    assert!(options.set_uci_option("Threads", "4"));
    assert_eq!(options.search.threads, 4);

    assert!(options.set_uci_option("Search Lazy SMP", "false"));
    assert!(!options.search.lazy_smp);

    assert!(options.set_uci_option("Search SEE QSearch Pruning", "false"));
    assert!(!options.search.see_qsearch_pruning);

    assert!(options.set_uci_option("Search Forward Futility Pruning", "false"));
    assert!(!options.search.forward_futility_pruning);

    assert!(options.set_uci_option("Syzygy Path", "/tmp/tb"));
    assert_eq!(options.syzygy.path, "/tmp/tb");
}

#[test]
fn config_eval_scales_are_clamped() {
    let mut options = EngineOptions::default();

    assert!(options.set_uci_option("Eval Mobility Scale", "999"));
    assert_eq!(options.eval.mobility_scale, 300);

    assert!(options.set_uci_option("Eval Mobility Scale", "-10"));
    assert_eq!(options.eval.mobility_scale, 0);

    assert!(options.set_uci_option("Syzygy Probe Limit", "99"));
    assert_eq!(options.syzygy.probe_limit, 6);
}

#[test]
fn tests_uci_option_names_accept_spaces_and_case() {
    let mut options = EngineOptions::default();

    assert!(options.set_uci_option("Threads", "4"));
    assert_eq!(options.search.threads, 4);

    assert!(options.set_uci_option("Search Lazy SMP", "false"));
    assert!(!options.search.lazy_smp);

    assert!(options.set_uci_option("Search SEE QSearch Pruning", "false"));
    assert!(!options.search.see_qsearch_pruning);

    assert!(options.set_uci_option("Search Forward Futility Pruning", "false"));
    assert!(!options.search.forward_futility_pruning);

    assert!(options.set_uci_option("Syzygy Path", "/tmp/tb"));
    assert_eq!(options.syzygy.path, "/tmp/tb");
}

#[test]
fn tests_eval_scales_are_clamped() {
    let mut options = EngineOptions::default();

    assert!(options.set_uci_option("Eval Mobility Scale", "999"));
    assert_eq!(options.eval.mobility_scale, 300);

    assert!(options.set_uci_option("Eval Mobility Scale", "-10"));
    assert_eq!(options.eval.mobility_scale, 0);

    assert!(options.set_uci_option("Syzygy Probe Limit", "99"));
    assert_eq!(options.syzygy.probe_limit, 6);
}

#[test]
fn unknown_option_or_bad_value_changes_nothing() {
    let mut options = EngineOptions::default();
    let before = options.clone();
    assert!(!options.set_uci_option("No Such Option", "1"));
    assert!(!options.set_uci_option("Threads", "many"));
    assert!(!options.set_uci_option("Search SEE", "maybe"));
    assert_eq!(options, before);
}

#[test]
fn bool_options_accept_words_in_any_case() {
    let mut options = EngineOptions::default();
    assert!(options.set_uci_option("search_see", "OFF"));
    assert!(!options.search.see);
    assert!(options.set_uci_option("SEARCH-SEE", "Yes"));
    assert!(options.search.see);
    assert!(options.set_uci_option("Search SEE", "0"));
    assert!(!options.search.see);
}

#[test]
fn threads_are_clamped_to_one_through_sixty_four() {
    let mut options = EngineOptions::default();
    assert!(options.set_uci_option("Threads", "0"));
    assert_eq!(options.search.threads, 1);
    assert!(options.set_uci_option("threads", "1000"));
    assert_eq!(options.search.threads, 64);
    assert!(options.set_uci_option("Criticality Probe Permille", "5000"));
    assert_eq!(options.criticality.probe_permille, 1000);
}

#[test]
fn scale_score_rounds_toward_zero() {
    assert_eq!(scale_score(150, 50), 75);
    assert_eq!(scale_score(-151, 50), -75);
    assert_eq!(scale_score(99, 1), 0);
    assert_eq!(scale_score_pair((200, -200), 150), (300, -300));
}
