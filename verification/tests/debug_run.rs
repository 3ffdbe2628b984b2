use flop_stats::cards::HandCombo;
use flop_stats::debug_run::rows::{
    bb_flop_actions_header, bb_hand_row, btn_hand_row, debug_range_header, BbHandCells, BtnHandCells,
};
use flop_stats::debug_run::walk::{
    donk_size_of_suffix, ip_table, walk_line, walk_start, walk_step, DonkSize, FreqTable, NodeReport,
    WalkNode,
};
use flop_stats::debug_run::labels::{
    action_value, board_cards_for_meta, btn_source_node_status, dead_cards_mask, debug_range_spot_name,
    debug_spot_name, donk_line_status, empty_freqs, fill_action_freqs, find_hand_index,
    first_complete_scenarios, turn_filter_indices, hand_class_label, reference_hand_cards, reference_hand_index, scenario_is_complete,
    scenario_ranges, sizing_for_size, sizing_suffix, solve_bet_size_label, source_node_status, split_by_modal,
    turn_board_cards, DebugScenario, DecisionMeta, DonkLine, NodeFlags,
};
use flop_stats::debug_run::scenarios::{debug_scenario, range_pair_for, BB_RANGE, BTN_RANGE, SB_RANGE};
use flop_stats::debug_run::notation::{board_text_cuttable, parse_board, parse_card};
use flop_stats::debug_run::ranges::{
    hand_class_key, normalize_hand_class, normalize_range_for_solver, normalize_range_token,
    rank_value,
};
use flop_stats::debug_run::tree::{
    action_is, audit_action_lists, audit_verdict, describe_actions, filter_actions, find_action,
    find_tree_action, has_tree_action, modal_kind, position_of_kind, require_fold_call_only,
    require_fold_call_raise, reraise_line_to_remove, ActionKind, AuditFlags, ModalAction,
    TreeAction,
};

fn scenario() -> DebugScenario {
    DebugScenario {
        spot_id: 1,
        hero_position: "BTN",
        villain_position: "BB",
        reference_hand: "Kh4h",
        board: "3s4s5c",
        full_board: "3s4s5c6d2h",
        ip_range: Some("22+"),
        oop_range: Some("99-22"),
        missing_range_key: None,
    }
}

fn meta(street: &'static str, flop_size: &'static str) -> DecisionMeta {
    DecisionMeta {
        street,
        board: "Ah7s4c",
        turn_card: "null",
        flop_action: "null",
        flop_bet_size: flop_size,
        turn_bet_size: "0.5",
    }
}

#[test]
fn strict_card_reading() {
    assert_eq!(parse_card("Ah"), Ok(50));
    assert_eq!(parse_card("2c"), Ok(0));
    assert_eq!(parse_card("ah"), Err("invalid card rank: ah".to_string()));
    assert_eq!(parse_card("AH"), Err("invalid card suit: AH".to_string()));
    assert_eq!(parse_card("A"), Err("invalid card: A".to_string()));
    assert_eq!(parse_card("Ahh"), Err("invalid card: Ahh".to_string()));
}

#[test]
fn strict_board_reading() {
    assert_eq!(parse_board("Ah7s4c"), Ok([50, 23, 8]));
    assert_eq!(parse_board("Ah7s"), Err("board must contain exactly 3 cards: Ah7s".to_string()));
    assert_eq!(parse_board("Ah7x4c"), Err("invalid card suit: 7x".to_string()));
    assert!(board_text_cuttable("Ah7s4c"));
    assert!(!board_text_cuttable("A\u{e9}7s4"));
}

#[test]
fn rank_values_and_keys() {
    assert_eq!(rank_value('T'), 10);
    assert_eq!(rank_value('7'), 7);
    assert_eq!(rank_value('a'), 0);
    assert_eq!(hand_class_key("AKs"), (14, 13));
    assert_eq!(hand_class_key("k"), (0, 0));
}

#[test]
fn hand_classes_are_written_high_first() {
    assert_eq!(normalize_hand_class("kas"), "AKs");
    assert_eq!(normalize_hand_class(" t9O "), "T9o");
    assert_eq!(normalize_hand_class("a"), "A");
}

#[test]
fn range_tokens_are_written_high_end_first() {
    assert_eq!(normalize_range_token(" a6s - aqs "), "AQs-A6s");
    assert_eq!(normalize_range_token("22-99"), "99-22");
    assert_eq!(normalize_range_token("22+"), "22+");
}

#[test]
fn whole_ranges_for_the_solver() {
    assert_eq!(normalize_range_for_solver("22-99, a6s-aqs,,KJs"), "99-22,AQs-A6s,KJs");
    assert_eq!(normalize_range_for_solver(""), "");
}

#[test]
fn action_lists_are_described_like_debug_output() {
    let actions = [TreeAction::Check, TreeAction::Bet(181), TreeAction::AllIn(9750)];
    assert_eq!(describe_actions(&actions), "[Check, Bet(181), AllIn(9750)]");
    assert_eq!(describe_actions(&[]), "[]");
    assert_eq!(describe_actions(&[TreeAction::NoAction, TreeAction::Chance(3)]), "[None, Chance(3)]");
}

#[test]
fn finding_actions_by_kind() {
    let actions = [TreeAction::Check, TreeAction::Bet(10), TreeAction::Bet(20)];
    assert_eq!(position_of_kind(&actions, ActionKind::Bet), Some(1));
    assert_eq!(find_action(&actions, ActionKind::Bet), Ok(1));
    assert_eq!(find_tree_action(&actions, ActionKind::Bet), Ok(TreeAction::Bet(10)));
    assert_eq!(
        find_tree_action(&[TreeAction::Fold, TreeAction::Call], ActionKind::Raise),
        Err("required action not found in [Fold, Call]".to_string())
    );
    assert_eq!(
        find_action(&[TreeAction::Fold], ActionKind::Check),
        Err("action not found in [Fold]".to_string())
    );
    assert_eq!(filter_actions(&actions, ActionKind::Bet), vec![TreeAction::Bet(10), TreeAction::Bet(20)]);
    assert!(has_tree_action(&actions, ActionKind::Check));
    assert!(action_is(TreeAction::AllIn(5), ActionKind::RaiseOrAllIn));
    assert!(!action_is(TreeAction::AllIn(5), ActionKind::Raise));
}

#[test]
fn shape_checks_report_the_actions() {
    assert_eq!(
        require_fold_call_raise("X", &[TreeAction::Fold, TreeAction::Call]),
        Err("X must contain Fold, Call, Raise; got [Fold, Call]".to_string())
    );
    assert_eq!(
        require_fold_call_raise("X", &[TreeAction::Fold, TreeAction::Call, TreeAction::Raise(30)]),
        Ok(())
    );
    assert_eq!(
        require_fold_call_only("Y", &[TreeAction::Fold, TreeAction::Call, TreeAction::Raise(30)]),
        Err("Y must contain only Fold and Call; got [Fold, Call, Raise(30)]".to_string())
    );
    assert_eq!(require_fold_call_only("Y", &[TreeAction::Call, TreeAction::Fold]), Ok(()));
}

#[test]
fn reraises_after_a_raise_are_pruned() {
    let history = [TreeAction::Check, TreeAction::Bet(10), TreeAction::Raise(30)];
    assert_eq!(
        reraise_line_to_remove(&history, TreeAction::AllIn(100)),
        Some(vec![TreeAction::Check, TreeAction::Bet(10), TreeAction::Raise(30), TreeAction::AllIn(100)])
    );
    assert_eq!(reraise_line_to_remove(&history, TreeAction::Call), None);
    assert_eq!(reraise_line_to_remove(&history[..2], TreeAction::Raise(30)), None);
    assert_eq!(reraise_line_to_remove(&[], TreeAction::Raise(30)), None);
}

#[test]
fn audit_of_a_realistic_tree_passes() {
    let root = [TreeAction::Check, TreeAction::Bet(181), TreeAction::Bet(412)];
    let vs_bet = [TreeAction::Fold, TreeAction::Call, TreeAction::Raise(543)];
    let vs_check_raise = [TreeAction::Fold, TreeAction::Call];
    let donks = vec![
        vec![TreeAction::Fold, TreeAction::Call, TreeAction::Raise(543)],
        vec![TreeAction::Fold, TreeAction::Call, TreeAction::Raise(1236)],
    ];
    let flags = audit_action_lists(&root, &vs_bet, &vs_check_raise, &donks).unwrap();
    assert_eq!(
        flags,
        AuditFlags { can_oop_donk: true, can_oop_check_raise: true, can_ip_raise_donk: true, can_ip_reraise: false }
    );
    assert_eq!(audit_verdict(&flags), Ok(()));
}

#[test]
fn audit_fails_without_a_check_raise() {
    let root = [TreeAction::Check, TreeAction::Bet(181)];
    let vs_bet = [TreeAction::Fold, TreeAction::Call];
    let vs_check_raise = [TreeAction::Fold, TreeAction::Call];
    assert_eq!(
        audit_action_lists(&root, &vs_bet, &vs_check_raise, &[]),
        Err("OOP response to IP bet must contain Fold, Call, Raise; got [Fold, Call]".to_string())
    );
    let flags = AuditFlags { can_oop_donk: false, can_oop_check_raise: true, can_ip_raise_donk: true, can_ip_reraise: false };
    assert_eq!(audit_verdict(&flags), Err("realistic flop tree audit failed".to_string()));
}

#[test]
fn modal_kinds() {
    assert_eq!(modal_kind(TreeAction::AllIn(5)), ModalAction::Bet);
    assert_eq!(modal_kind(TreeAction::Raise(5)), ModalAction::Raise);
    assert_eq!(modal_kind(TreeAction::Chance(1)), ModalAction::Other);
}

#[test]
fn spot_names() {
    let s = scenario();
    assert_eq!(debug_spot_name(&s, "33"), "btn-vs-bb-srp-01-flop-bb-actions-33");
    assert_eq!(debug_range_spot_name(&s, &meta("flop", "0.75")), "btn-vs-bb-srp-spot-1-debug-range-75");
    assert_eq!(sizing_suffix(&meta("flop", "0.5")), "unknown");
    assert_eq!(sizing_suffix(&meta("flop", "1.25")), "125");
    assert_eq!(solve_bet_size_label(&meta("flop", "0.33")), "0.33");
    assert_eq!(solve_bet_size_label(&meta("turn", "0.33")), "0.5");
}

#[test]
fn hand_class_labels() {
    assert_eq!(hand_class_label((51, 47)), "AKs");
    assert_eq!(hand_class_label((51, 46)), "AKo");
    assert_eq!(hand_class_label((8, 9)), "44");
    assert_eq!(hand_class_label((0, 51)), "A2o");
}

#[test]
fn node_statuses() {
    let flags = NodeFlags {
        root_found: true,
        check_found: true,
        donk33_found: false,
        donk75_found: true,
        vs_ip_bet_found: false,
        donk33_vs_raise_found: false,
        donk75_vs_raise_found: true,
        ip_vs_donk_found: true,
        ip_vs_check_raise_found: false,
    };
    let line = donk_line_status(&flags, DonkLine::Donk75);
    assert_eq!(line, "VS_RAISE_FOUND_PRIMARY_DONK_75");
    assert_eq!(
        source_node_status(&flags, &line),
        "ROOT_FOUND_CHECK_FOUND_DONK_FOUND_VS_BET_MISSING_VS_RAISE_FOUND_PRIMARY_DONK_75"
    );
    assert_eq!(btn_source_node_status(&flags), "ROOT_FOUND_BTN_VS_DONK_FOUND_BTN_VS_CHECK_RAISE_MISSING");
    assert_eq!(donk_line_status(&flags, DonkLine::Donk33), "RAISE_RESPONSE_MISSING");
    assert_eq!(donk_line_status(&flags, DonkLine::Missing), "DONK_NODE_MISSING");
    let no_root = NodeFlags { root_found: false, ..flags };
    assert_eq!(source_node_status(&no_root, "X"), "UNAVAILABLE");
    assert_eq!(btn_source_node_status(&no_root), "UNAVAILABLE");
}

#[test]
fn frequency_tables() {
    let strategy = [1u32, 2, 3, 4, 5, 6];
    assert_eq!(action_value(&strategy, 1, 2, 3), 6);
    let mut target: Vec<Option<u32>> = empty_freqs(4);
    assert_eq!(target, vec![None, None, None, None]);
    fill_action_freqs(&mut target, &strategy, Some(1), 3);
    assert_eq!(target, vec![Some(4), Some(5), Some(6), None]);
    fill_action_freqs(&mut target, &strategy, None, 3);
    assert_eq!(target, vec![Some(4), Some(5), Some(6), None]);
}

#[test]
fn hands_found_in_either_card_order() {
    let hands = vec![
        HandCombo { cards: (8, 9), label: "4c4d".to_string(), index: 0 },
        HandCombo { cards: (51, 47), label: "AsKs".to_string(), index: 1 },
    ];
    assert_eq!(find_hand_index(&hands, (47, 51)), Some(1));
    assert_eq!(find_hand_index(&hands, (50, 51)), None);
}

#[test]
fn dead_card_mask_has_a_bit_per_board_card() {
    assert_eq!(dead_cards_mask(&[50, 23, 8]), (1u64 << 50) | (1u64 << 23) | (1u64 << 8));
    assert_eq!(dead_cards_mask(&[]), 0);
}

#[test]
fn fixed_boards() {
    assert_eq!(turn_board_cards(), Ok(vec![50, 23, 8, 19]));
    assert_eq!(board_cards_for_meta(&meta("turn", "0.33")), Ok(vec![50, 23, 8, 19]));
    assert_eq!(board_cards_for_meta(&meta("flop", "0.33")), Ok(vec![50, 23, 8]));
}

#[test]
fn scenario_checks() {
    let s = scenario();
    assert!(scenario_is_complete(&s));
    assert_eq!(scenario_ranges(&s), Ok(("22+", "99-22")));
    let no_hero = DebugScenario { spot_id: 7, ip_range: None, ..s };
    assert!(!scenario_is_complete(&no_hero));
    assert_eq!(scenario_ranges(&no_hero), Err("missing hero range for Spot 7".to_string()));
    let no_villain = DebugScenario { spot_id: 8, oop_range: None, ..s };
    assert_eq!(scenario_ranges(&no_villain), Err("missing villain range for Spot 8".to_string()));
    let missing_key = DebugScenario { missing_range_key: Some("BB vs UTG"), ..s };
    assert!(!scenario_is_complete(&missing_key));
}

#[test]
fn sizings_by_bet_size() {
    assert_eq!(sizing_for_size("0.33").tree_size, "33%");
    assert_eq!(sizing_for_size("0.75").suffix, "75");
    let other = sizing_for_size("0.9");
    assert_eq!((other.tree_size, other.csv_size, other.suffix), ("125%", "1.25", "125"));
}

#[test]
fn reference_hands() {
    assert_eq!(reference_hand_cards("Kh4h"), Ok((46, 10)));
    assert_eq!(reference_hand_cards("Xh4h"), Err("invalid card rank: Xh".to_string()));
    let hands = vec![HandCombo { cards: (10, 46), label: "4hKh".to_string(), index: 0 }];
    assert_eq!(reference_hand_index(&hands, &scenario()), Ok(0));
    assert_eq!(
        reference_hand_index(&[], &scenario()),
        Err("hero hand Kh4h is not live/in range for Spot 1 on 3s4s5c".to_string())
    );
}

#[test]
fn scenarios_get_the_ranges_of_their_positions() {
    let s = debug_scenario(1, "BTN", "BB", "Kh4h", "3s4s5c", "3s4s5c6d2h").unwrap();
    assert_eq!(s.ip_range, Some(BTN_RANGE));
    assert_eq!(s.oop_range, Some(BB_RANGE));
    assert_eq!(s.missing_range_key, None);
    assert!(BB_RANGE.starts_with("99-22,AQs-A6s"));
    assert_eq!(range_pair_for("BB", "SB").map(|p| p.1), Some(SB_RANGE));
    assert!(debug_scenario(2, "SB", "BTN", "AhKh", "2c3c4c", "2c3c4c5c6c").is_none());
}

#[test]
fn a_full_walk_of_the_flop_tree() {
    let report = |actions: Vec<TreeAction>, third: Option<usize>, three_quarters: Option<usize>, bet: Option<usize>| NodeReport {
        actions,
        third_pot_bet: third,
        three_quarter_pot_bet: three_quarters,
        branch_bet: bet,
    };
    let s = walk_start(Some(DonkSize::Third), true);
    assert_eq!(s.node, WalkNode::Root);
    assert!(s.flags.root_found);
    let (s, fills) = walk_step(&s, &report(vec![TreeAction::Check, TreeAction::Bet(181), TreeAction::Bet(412)], Some(1), Some(2), None));
    assert_eq!(fills, vec![(FreqTable::Check, 0), (FreqTable::Donk33, 1), (FreqTable::Donk75, 2)]);
    assert_eq!(s.node, WalkNode::AfterCheck);
    assert!(s.flags.check_found && s.flags.donk33_found && s.flags.donk75_found);
    assert_eq!(walk_line(&s), vec![0]);
    let (s, fills) = walk_step(&s, &report(vec![TreeAction::Check, TreeAction::Bet(181)], None, None, Some(1)));
    assert!(fills.is_empty());
    assert_eq!(s.node, WalkNode::AfterIpBet);
    assert_eq!(walk_line(&s), vec![0, 1]);
    let (s, fills) = walk_step(&s, &report(vec![TreeAction::Fold, TreeAction::Call, TreeAction::Raise(543)], None, None, None));
    assert_eq!(fills, vec![(FreqTable::VsBetFold, 0), (FreqTable::VsBetCall, 1), (FreqTable::VsBetRaise, 2)]);
    assert_eq!(s.node, WalkNode::AfterCheckRaise);
    assert_eq!(walk_line(&s), vec![0, 1, 2]);
    let (s, fills) = walk_step(&s, &report(vec![TreeAction::Fold, TreeAction::Call], None, None, None));
    assert_eq!(fills, vec![(FreqTable::BtnVsCheckRaiseFold, 0), (FreqTable::BtnVsCheckRaiseCall, 1)]);
    assert!(s.flags.ip_vs_check_raise_found);
    assert_eq!(s.node, WalkNode::AfterDonk(DonkSize::Third));
    assert_eq!(walk_line(&s), vec![1]);
    let (s, fills) = walk_step(&s, &report(vec![TreeAction::Fold, TreeAction::Call, TreeAction::Raise(543)], None, None, None));
    assert_eq!(fills, vec![(FreqTable::BtnVsDonkFold, 0), (FreqTable::BtnVsDonkCall, 1), (FreqTable::BtnVsDonkRaise, 2)]);
    assert!(s.flags.ip_vs_donk_found);
    assert_eq!(s.node, WalkNode::AfterDonkRaise(DonkSize::Third));
    assert_eq!(walk_line(&s), vec![1, 2]);
    let (s, fills) = walk_step(&s, &report(vec![TreeAction::Fold, TreeAction::Call], None, None, None));
    assert_eq!(fills, vec![(FreqTable::Donk33VsRaiseFold, 0), (FreqTable::Donk33VsRaiseCall, 1)]);
    assert!(s.flags.donk33_vs_raise_found);
    assert_eq!(s.node, WalkNode::AfterDonk(DonkSize::ThreeQuarters));
    assert_eq!(walk_line(&s), vec![2]);
    let (s, fills) = walk_step(&s, &report(vec![TreeAction::Fold, TreeAction::Call, TreeAction::Raise(1236)], None, None, None));
    assert!(fills.is_empty());
    assert_eq!(s.node, WalkNode::AfterDonkRaise(DonkSize::ThreeQuarters));
    let (s, fills) = walk_step(&s, &report(vec![TreeAction::Fold, TreeAction::Call], None, None, None));
    assert_eq!(fills, vec![(FreqTable::Donk75VsRaiseFold, 0), (FreqTable::Donk75VsRaiseCall, 1)]);
    assert!(s.flags.donk75_vs_raise_found);
    assert_eq!(s.node, WalkNode::Finished);
}

#[test]
fn a_walk_without_root_or_donks() {
    let s = walk_start(None, false);
    assert_eq!(s.node, WalkNode::Finished);
    assert!(!s.flags.root_found);
    let s = walk_start(donk_size_of_suffix("75"), true);
    assert_eq!(s.branch, Some(DonkSize::ThreeQuarters));
    assert_eq!(donk_size_of_suffix("125"), None);
    let r = NodeReport { actions: vec![TreeAction::Check, TreeAction::Bet(600)], third_pot_bet: None, three_quarter_pot_bet: None, branch_bet: None };
    let (s, fills) = walk_step(&s, &r);
    assert_eq!(fills, vec![(FreqTable::Check, 0)]);
    let (s, _) = walk_step(&s, &r);
    assert_eq!(s.node, WalkNode::Finished);
    assert!(ip_table(FreqTable::BtnVsDonkCall));
    assert!(!ip_table(FreqTable::Donk75VsRaiseCall));
}

#[test]
fn action_export_rows() {
    let s = scenario();
    let hand = HandCombo { cards: (46, 42), label: "KhQh".to_string(), index: 0 };
    let cells = BbHandCells {
        check: "0.500000".to_string(),
        donk33: "0.250000".to_string(),
        donk75: "0.250000".to_string(),
        vs_bet_fold: String::new(),
        vs_bet_call: "1.000000".to_string(),
        vs_bet_raise: String::new(),
        donk_raise_fold: "0.100000".to_string(),
        donk_raise_call: "0.900000".to_string(),
        primary_opening_action: "CHECK".to_string(),
        primary_vs_ip_bet: "CHECK_CALL".to_string(),
        primary_donk_vs_raise: "DONK_CALL_VS_RAISE".to_string(),
    };
    let row = bb_hand_row(3, &s, "33", "0.33", &hand, &cells, "ROOT_FOUND_X");
    assert_eq!(row.len(), 32);
    assert_eq!(row[0], "BB_HAND_ACTIONS");
    assert_eq!(row[1], "3");
    assert_eq!(row[2], "1");
    assert_eq!(row[3], "btn-vs-bb-srp-01-flop-bb-actions-33");
    assert_eq!(row[6], "BB");
    assert_eq!(row[7], "BTN");
    assert_eq!(row[8], "0.33");
    assert_eq!(row[9], "KQs");
    assert_eq!(row[10], "KhQh");
    assert_eq!(row[11], "0.500000");
    assert_eq!(row[21], "DONK_CALL_VS_RAISE");
    assert!(row[22..31].iter().all(|c| c.is_empty()));
    assert_eq!(row[31], "ROOT_FOUND_X");

    let flags = NodeFlags {
        root_found: true,
        check_found: true,
        donk33_found: true,
        donk75_found: true,
        vs_ip_bet_found: true,
        donk33_vs_raise_found: true,
        donk75_vs_raise_found: true,
        ip_vs_donk_found: true,
        ip_vs_check_raise_found: true,
    };
    let btn_cells = BtnHandCells {
        vs_donk_fold: "0.000000".to_string(),
        vs_donk_call: "1.000000".to_string(),
        vs_donk_raise: "0.000000".to_string(),
        vs_check_raise_fold: "0.300000".to_string(),
        vs_check_raise_call: "0.700000".to_string(),
        primary_vs_donk: "CALL_VS_DONK".to_string(),
        primary_vs_check_raise: "CALL_VS_CHECK_RAISE".to_string(),
    };
    let row = btn_hand_row(3, &s, "33", "0.33", &hand, &btn_cells, &flags);
    assert_eq!(row.len(), 32);
    assert_eq!(row[0], "BTN_HAND_ACTIONS");
    assert!(row[9..22].iter().all(|c| c.is_empty()));
    assert_eq!(row[22], "KQs");
    assert_eq!(row[30], "CALL_VS_CHECK_RAISE");
    assert_eq!(row[31], "ROOT_FOUND_BTN_VS_DONK_FOUND_BTN_VS_CHECK_RAISE_FOUND");
}

#[test]
fn turn_donkers_are_split_off_in_order() {
    let hands = vec![
        HandCombo { cards: (8, 9), label: "4c4d".to_string(), index: 0 },
        HandCombo { cards: (51, 47), label: "AsKs".to_string(), index: 1 },
        HandCombo { cards: (50, 46), label: "AhKh".to_string(), index: 2 },
        HandCombo { cards: (0, 5), label: "2c3d".to_string(), index: 3 },
    ];
    let modals = [ModalAction::Check, ModalAction::Bet, ModalAction::Other, ModalAction::Bet];
    let (kept, removed) = split_by_modal(hands, &modals);
    let kept: Vec<&str> = kept.iter().map(|h| h.label.as_str()).collect();
    let removed: Vec<&str> = removed.iter().map(|h| h.label.as_str()).collect();
    assert_eq!(kept, vec!["4c4d", "AhKh"]);
    assert_eq!(removed, vec!["AsKs", "2c3d"]);
}

#[test]
fn export_header_columns() {
    let h = debug_range_header();
    assert_eq!(h.len(), 37);
    assert_eq!(h[0], "scenario_id");
    assert_eq!(h[36], "hero_blocks_fold_combos");
    let h = bb_flop_actions_header();
    assert_eq!(h.len(), 32);
    assert_eq!(h[0], "row_type");
    assert_eq!(h[31], "source_node_status");
}

#[test]
fn the_first_complete_scenarios_are_run() {
    let s = scenario();
    let all = vec![
        DebugScenario { spot_id: 1, ..s },
        DebugScenario { spot_id: 2, ip_range: None, ..s },
        DebugScenario { spot_id: 3, ..s },
        DebugScenario { spot_id: 4, missing_range_key: Some("x"), ..s },
        DebugScenario { spot_id: 5, ..s },
    ];
    let picked = first_complete_scenarios(&all, 2);
    let ids: Vec<(usize, u32)> = picked.iter().map(|(i, d)| (*i, d.spot_id)).collect();
    assert_eq!(ids, vec![(0, 1), (2, 3)]);
    let picked = first_complete_scenarios(&all, 100);
    let ids: Vec<(usize, u32)> = picked.iter().map(|(i, d)| (*i, d.spot_id)).collect();
    assert_eq!(ids, vec![(0, 1), (2, 3), (4, 5)]);
}

#[test]
fn the_turn_filter_needs_a_check_and_a_bet() {
    let acts = vec![TreeAction::Check, TreeAction::Bet(250), TreeAction::AllIn(900)];
    assert_eq!(turn_filter_indices(true, &acts), Some((0, 1)));
    assert_eq!(turn_filter_indices(false, &acts), None);
    assert_eq!(turn_filter_indices(true, &[TreeAction::Check]), None);
    assert_eq!(turn_filter_indices(true, &[TreeAction::Bet(1), TreeAction::Check]), Some((1, 0)));
}
