use flop_stats::cards::HandCombo;
use flop_stats::probe::notation::{
    board_text_cuttable, hand_text_cuttable, normalize_hand_label, parse_board, parse_card,
    parse_hand,
};
use flop_stats::probe::ranges::{
    combine_ranges, combo_class_order, fivebet_shove_defense_call_range,
    fourbet_defense_call_range, fourbet_defense_shove_range, lookup_3bp_ranges, lookup_4bp_ranges,
    lookup_srp_ranges, make_range_pair, normalize_combo_class, normalize_range_for_solver,
    normalize_range_token, rank_order, rfi_range, strip_range_label, threebet_defense_4bet_range,
    threebet_defense_call_range, vs_open_3bet_range, vs_open_call_range,
};
use flop_stats::probe::screen::{screen_spot, SkipReason};
use flop_stats::probe::tally::{skip_kind, KeySet, SkipKind, SkipSummary};
use flop_stats::probe::sample::{
    cards_text, draw_board_card, fallback_spot, Lcg, FALLBACK_SEED,
};
use flop_stats::probe::spots::{
    detect_input_format, field, find_hand_by_label, header_index, ip_flop_sizings, is_in_position,
    is_position, lookup_ranges, normalize_legacy_spot_type, normalize_new_record,
    normalize_old_record, normalize_probe_spot, normalize_record, postflop_pot_config,
    postflop_position_order, row_key, sizing_profile, InputFormat, ProbeSpot,
};
use flop_stats::probe::spots::{
    load_rows, probe_output_header, reject_message, spot_type_of_pot, target_hands, RejectKind, RowSkip,
};
use flop_stats::probe::input_file::{load_input_text, rows_from_table, InputError};
use flop_stats::csv_out::encode_rows;

fn strings(items: &[&str]) -> Vec<String> {
    items.iter().map(|s| s.to_string()).collect()
}

fn spot(spot_type: &str, hero: &str, villain: Option<&str>) -> ProbeSpot {
    ProbeSpot {
        spot_id: "7".to_string(),
        spot_type: spot_type.to_string(),
        hero_position: hero.to_string(),
        villain_position: villain.map(|v| v.to_string()),
        board: "Ah7s4c".to_string(),
        hand: Some("AhKd".to_string()),
    }
}

#[test]
fn cards_in_either_case() {
    assert_eq!(parse_card("Ah"), Ok(50));
    assert_eq!(parse_card("ah"), Ok(50));
    assert_eq!(parse_card("AH"), Ok(50));
    assert_eq!(parse_card("tD"), Ok(33));
    assert_eq!(parse_card("1h"), Err("invalid card rank: 1h".to_string()));
    assert_eq!(parse_card("Ax"), Err("invalid card suit: Ax".to_string()));
    assert_eq!(parse_card("A"), Err("invalid card: A".to_string()));
}

#[test]
fn boards_with_filler() {
    assert_eq!(parse_board(" ah-7S, 4c "), Ok([50, 23, 8]));
    assert_eq!(parse_board("Ah7s4cKd"), Ok([50, 23, 8]));
    assert_eq!(parse_board("Ah7s"), Err("board must contain at least 3 cards: Ah7s".to_string()));
    assert_eq!(parse_board("Ah7s4cK"), Err("board must contain at least 3 cards: Ah7s4cK".to_string()));
    assert_eq!(parse_board("AhAh4c"), Err("first 3 board cards contain duplicates: AhAh4c".to_string()));
    assert_eq!(parse_board("Ah7s4cXd"), Err("invalid card rank: Xd".to_string()));
    assert!(board_text_cuttable("Ah 7s 4c"));
    assert!(!board_text_cuttable("A\u{e9}7s4"));
}

#[test]
fn board_written_and_read_back() {
    let board = [50u8, 23, 8];
    let text = flop_stats::cards::board_to_string(&board);
    assert_eq!(parse_board(&text), Ok(board));
}

#[test]
fn hands() {
    assert_eq!(parse_hand(" AhKd "), Ok((50, 45)));
    assert_eq!(parse_hand("AhAh"), Err("hand contains duplicate cards: AhAh".to_string()));
    assert_eq!(parse_hand("AhK"), Err("hand must contain exactly 2 cards: AhK".to_string()));
    assert_eq!(parse_hand("AhKx"), Err("invalid card suit: Kx".to_string()));
    assert!(hand_text_cuttable("AhKd"));
    assert!(!hand_text_cuttable("A\u{e9}h"));
}

#[test]
fn hand_keys_ignore_order_and_case() {
    assert_eq!(normalize_hand_label("KdAh"), "ahkd");
    assert_eq!(normalize_hand_label(" AHKD "), "ahkd");
    assert_eq!(normalize_hand_label("AhKd"), normalize_hand_label("KdAh"));
    assert_eq!(normalize_hand_label("XX"), "xx");
    assert_eq!(normalize_hand_label("ZzAh"), "zzah");
}

#[test]
fn range_tables() {
    assert_eq!(rfi_range("UTG"), Some("66+,A2s+,K6s+,QTs+,ATo+,KJo+,JTs,T9s,65s"));
    assert_eq!(rfi_range("BB"), None);
    assert_eq!(vs_open_3bet_range("SB", "BTN"), Some("66+,A7s+,K9s+,QTs+,AJo+,JTs,A4s-A5s,65s,KQo,T9s"));
    assert_eq!(vs_open_call_range("BTN", "UTG"), Some("77-JJ,A9s-AQs,QTs,AQo,KJs,KQs"));
    assert_eq!(vs_open_call_range("CO", "UTG"), None);
    assert_eq!(threebet_defense_4bet_range("SB", "BB"), Some("AA-JJ,ATo+,AKs,A6s,A3s-A2s,K5s"));
    assert_eq!(threebet_defense_call_range("UTG", "HJ"), Some("QQ-JJ,99-66,AQs,JTs,65s"));
    assert_eq!(fourbet_defense_shove_range("BB", "UTG"), Some("AA,A5s"));
    assert_eq!(fourbet_defense_call_range("SB", "UTG"), Some("AKs,AJs,QQ,65s"));
    assert_eq!(fivebet_shove_defense_call_range("UTG", "SB"), Some("KK+"));
    assert_eq!(fivebet_shove_defense_call_range("HJ", "BTN"), Some("KK+,AKs,AKo"));
    assert_eq!(fivebet_shove_defense_call_range("BB", "SB"), None);
}

#[test]
fn combo_classes() {
    assert_eq!(rank_order('q'), 12);
    assert_eq!(rank_order('x'), 0);
    assert_eq!(normalize_combo_class("KAs"), "AKs");
    assert_eq!(normalize_combo_class(" 76s "), "76s");
    assert_eq!(normalize_combo_class("KK"), "KK");
    assert_eq!(combo_class_order("AKs++"), 293);
    assert_eq!(combo_class_order("qjs"), 251);
    assert_eq!(combo_class_order("A"), 0);
}

#[test]
fn range_tokens_and_labels() {
    assert_eq!(normalize_range_token(" A6s-AQs "), "AQs-A6s");
    assert_eq!(normalize_range_token("77-JJ"), "JJ-77");
    assert_eq!(normalize_range_token("67s"), "76s");
    assert_eq!(strip_range_label("BTN RFI: 22+"), "22+");
    assert_eq!(strip_range_label("22+"), "22+");
    assert_eq!(normalize_range_for_solver("UTG: 66+, KAs,, A6s-AQs"), "66+,AKs,AQs-A6s");
    assert_eq!(combine_ranges(&["KK+", " ", "AKs"]), "KK+,AKs");
}

#[test]
fn range_pairs() {
    let pair = make_range_pair("77-JJ", "KAs", "a".to_string(), "b".to_string());
    assert_eq!(pair.hero_range, "JJ-77");
    assert_eq!(pair.villain_range, "AKs");
    assert_eq!(pair.hero_range_key, "a");
}

#[test]
fn single_raised_pot_ranges() {
    let pair = lookup_srp_ranges("BTN", "BB").unwrap();
    assert_eq!(
        pair.hero_range,
        "22+,A2s+,K2s+,Q2s+,A2o+,K7o+,Q9o+,J9o+,T9o,J4s+,T6s+,96s+,86s+,75s+,65s,54s"
    );
    assert_eq!(
        pair.villain_range,
        "99-22,AQs-A6s,KJs-K2s,J7s-J4s,T6s,97s-96s,87s-85s,75s-74s,64s-63s,53s,43s,AJo-A6o,K9o+,QTo+,JTo,QTs-Q2s,A4s-A2s,T9o"
    );
    assert_eq!(pair.hero_range_key, "BTN RFI");
    assert_eq!(pair.villain_range_key, "BB vs BTN Open call");
    assert!(lookup_srp_ranges("BB", "BTN").is_none());
}

#[test]
fn three_bet_pot_ranges() {
    let pair = lookup_3bp_ranges("BTN", "BB").unwrap();
    assert_eq!(
        pair.hero_range,
        "QQ+,AJs,A2s,K7s-K6s,AKo,AJo,JJ-44,A3s+,K8s+,Q9s+,J8s+,T8s+,98s,87s,76s,65s,54s,KQo,AQo"
    );
    assert_eq!(pair.villain_range, "TT+,KQs,QJs,J8s+,T7s+,A5s,65s,AKs,AQo+,76s,54s,98s,A5o");
    assert_eq!(pair.hero_range_key, "BTN vs BB 3bet Defense 4bet+call");
    assert_eq!(pair.villain_range_key, "BB vs BTN Open 3bet");
    let other = lookup_3bp_ranges("BB", "BTN").unwrap();
    assert_eq!(other.hero_range_key, "BB vs BTN Open 3bet");
    assert_eq!(other.villain_range_key, "BTN vs BB 3bet Defense 4bet+call");
    assert!(lookup_3bp_ranges("UTG", "UTG").is_none());
}

#[test]
fn four_bet_pot_ranges() {
    let pair = lookup_4bp_ranges("BTN", "BB").unwrap();
    assert_eq!(pair.hero_range, "QQ+,AJs,A2s,K7s-K6s,AKo,AJo");
    assert_eq!(pair.villain_range, "KK-JJ,AKo,A5s,AKs,65s,T9s,JTs,76s,TT,AQo,KQs,AQs,AA");
    assert_eq!(pair.hero_range_key, "BTN vs BB 3bet Defense 4bet");
    assert_eq!(pair.villain_range_key, "BB vs BTN 4bet Defense shove+call");
    let other = lookup_4bp_ranges("BB", "BTN").unwrap();
    assert_eq!(other.hero_range, "KK-JJ,AKo,A5s,AKs,65s,T9s,JTs,76s,TT,AQo,KQs,AQs,AA");
    assert_eq!(other.hero_range_key, "BB vs BTN 4bet Defense shove+call");
    assert_eq!(other.villain_range_key, "BTN vs BB 3bet Defense 4bet");
}

#[test]
fn ranges_by_spot_type() {
    assert_eq!(lookup_ranges(&spot("srp", "BTN", Some("BB"))).unwrap().hero_range_key, "BTN RFI");
    assert_eq!(
        lookup_ranges(&spot("3bp", "BTN", Some("BB"))).unwrap().villain_range_key,
        "BB vs BTN Open 3bet"
    );
    assert!(lookup_ranges(&spot("srp", "BTN", None)).is_none());
    assert!(lookup_ranges(&spot("5bp", "BTN", Some("BB"))).is_none());
}

#[test]
fn positions() {
    assert!(is_position("BTN"));
    assert!(!is_position("btn"));
    assert!(is_in_position("BTN", Some("BB")));
    assert!(!is_in_position("BB", Some("BTN")));
    assert!(!is_in_position("SB", None));
    assert!(is_in_position("CO", None));
    assert_eq!(postflop_position_order("HJ"), 3);
    assert_eq!(postflop_position_order("X"), -1);
}

#[test]
fn legacy_spot_types() {
    assert_eq!(normalize_legacy_spot_type(" RFI "), "srp");
    assert_eq!(normalize_legacy_spot_type("vs_open"), "srp");
    assert_eq!(normalize_legacy_spot_type("VS_3BET"), "3bp");
    assert_eq!(normalize_legacy_spot_type("4BP"), "4bp");
    assert_eq!(normalize_legacy_spot_type("Weird"), "weird");
}

#[test]
fn probe_spots_are_checked() {
    let s = normalize_probe_spot(
        "7".to_string(),
        "srp".to_string(),
        "BTN".to_string(),
        Some(" bb ".to_string()),
        "Ah7s4c".to_string(),
        Some("  ".to_string()),
    )
    .unwrap();
    assert_eq!(s.villain_position, Some("BB".to_string()));
    assert_eq!(s.hand, None);
    let bad_type = normalize_probe_spot("1".into(), "5bp".into(), "BTN".into(), None, "".into(), None);
    let r = bad_type.err().unwrap();
    assert_eq!((r.spot_id.as_str(), r.kind, r.value.as_str()), ("1", RejectKind::UnsupportedSpotType, "5bp"));
    assert_eq!(reject_message(&r), "Skipping spot 1: unsupported spot_type=5bp");
    let bad_hero = normalize_probe_spot("1".into(), "srp".into(), "XX".into(), None, "".into(), None);
    let r = bad_hero.err().unwrap();
    assert_eq!(r.kind, RejectKind::InvalidHero);
    assert_eq!(reject_message(&r), "Skipping spot 1: invalid hero_position=XX");
    let bad_villain = normalize_probe_spot("1".into(), "srp".into(), "BTN".into(), Some(" zz ".into()), "".into(), None);
    let r = bad_villain.err().unwrap();
    assert_eq!(r.kind, RejectKind::InvalidVillain);
    assert_eq!(reject_message(&r), "Skipping spot 1: invalid villain_position=ZZ");
    let no_villain = normalize_probe_spot("1".into(), "srp".into(), "BTN".into(), Some("  ".into()), "".into(), Some(" AhKd ".into()))
        .unwrap();
    assert_eq!(no_villain.villain_position, None);
    assert_eq!(no_villain.hand, Some("AhKd".to_string()));
}

#[test]
fn headers_and_fields() {
    let headers = strings(&["Spot #", " position 1 ", "Position 2"]);
    let record = strings(&["12", "btn"]);
    assert_eq!(header_index(&headers, "Position 1"), Some(1));
    assert_eq!(header_index(&headers, "Board"), None);
    assert_eq!(field(&headers, &record, "position 1"), "btn");
    assert_eq!(field(&headers, &record, "Position 2"), "");
    assert_eq!(field(&headers, &record, "Hand"), "");
}

#[test]
fn input_formats() {
    let new = strings(&["Spot #", "Position 1", "Position 2", "Pot Type", "Hand", "Board"]);
    let old = strings(&["spot_type", "hero_position", "villain_position", "board", "hand"]);
    assert_eq!(detect_input_format(&new), Some(InputFormat::NewSpreadsheet));
    assert_eq!(detect_input_format(&old), Some(InputFormat::OldStatProbe));
    assert_eq!(detect_input_format(&strings(&["a"])), None);
    assert_eq!(InputFormat::NewSpreadsheet.label(), "new spreadsheet format");
    assert_eq!(InputFormat::OldStatProbe.label(), "old stat_probe format");
}

#[test]
fn rows_in_the_new_layout() {
    let headers = strings(&["Spot #", "Position 1", "Position 2", "Pot Type", "Hand", "Board"]);
    let record = strings(&["", "btn", "bb", "srp", " AhKd ", " Ah7s4c "]);
    let s = normalize_new_record(&headers, &record, 3).unwrap();
    assert_eq!(s.spot_id, "3");
    assert_eq!(s.spot_type, "srp");
    assert_eq!(s.hero_position, "BTN");
    assert_eq!(s.villain_position, Some("BB".to_string()));
    assert_eq!(s.board, "Ah7s4c");
    assert_eq!(s.hand, Some("AhKd".to_string()));
    let bad = strings(&["9", "btn", "bb", "5bp", "", "Ah7s4c"]);
    let r = normalize_new_record(&headers, &bad, 4).err().unwrap();
    assert_eq!(reject_message(&r), "Skipping spot 9: unsupported pot type 5BP");
    let same = normalize_record(&headers, &record, InputFormat::NewSpreadsheet, 3).unwrap();
    assert_eq!(same.hero_position, "BTN");
}

#[test]
fn rows_in_the_old_layout() {
    let headers = strings(&["spot_type", "hero_position", "villain_position", "board", "hand", "spot_id"]);
    let record = strings(&["rfi", "co", "", "Kd9s2c", "", " s-12 "]);
    let s = normalize_old_record(&headers, &record, 4).unwrap();
    assert_eq!(s.spot_id, "s-12");
    assert_eq!(s.spot_type, "srp");
    assert_eq!(s.hero_position, "CO");
    assert_eq!(s.villain_position, None);
    assert_eq!(s.board, "Kd9s2c");
    assert_eq!(s.hand, None);
    let blank_id = strings(&["3bp", "btn", "bb", "Kd9s2c", "AhKd", " "]);
    assert_eq!(normalize_old_record(&headers, &blank_id, 5).unwrap().spot_id, "5");
    let short = strings(&["vs_3bet", "btn"]);
    let s = normalize_record(&headers, &short, InputFormat::OldStatProbe, 6).unwrap();
    assert_eq!((s.spot_id.as_str(), s.spot_type.as_str()), ("6", "3bp"));
}

#[test]
fn pot_configs() {
    let c = postflop_pot_config(&spot("srp", "BTN", Some("BB"))).unwrap();
    assert_eq!((c.starting_pot_chips, c.effective_stack_chips), (550, 10000));
    assert_eq!(postflop_pot_config(&spot("3bp", "BTN", Some("BB"))).unwrap().starting_pot_chips, 1800);
    assert_eq!(postflop_pot_config(&spot("4bp", "BTN", Some("BB"))).unwrap().starting_pot_chips, 4500);
    assert!(postflop_pot_config(&spot("5bp", "BTN", Some("BB"))).is_none());
}

#[test]
fn sizings() {
    let p = sizing_profile("3bp");
    let labels: Vec<&str> = p.ip_flop.iter().map(|s| s.label).collect();
    assert_eq!(labels, vec!["20%", "60%", "125%"]);
    assert_eq!(p.ip_flop[2].percent, 125);
    assert_eq!(p.oop_turn, vec!["50%", "125%"]);
    let srp = sizing_profile("srp");
    assert_eq!(srp.ip_river, vec!["50%", "100%", "150%"]);
    assert_eq!(srp.oop_river, vec!["33%", "100%"]);
    let four = ip_flop_sizings("4bp");
    assert_eq!((four[0].suffix, four[0].percent, four[1].tree_size), ("15", 15, "50%"));
    let other = ip_flop_sizings("anything");
    assert_eq!((other[0].label, other[1].label), ("33%", "75%"));
}

#[test]
fn generator_steps() {
    let mut rng = Lcg::new(FALLBACK_SEED);
    assert_eq!(rng.state, 0xC0D3_2026);
    assert_eq!(rng.next_usize(52), 16);
    assert_eq!(rng.state, 12212533367468786173);
    assert_eq!(rng.next_usize(52), 6);
}

#[test]
fn fallback_board_from_the_seed() {
    let mut rng = Lcg::new(FALLBACK_SEED);
    let mut cards = Vec::new();
    while cards.len() < 3 {
        draw_board_card(&mut rng, &mut cards);
    }
    assert_eq!(cards, vec![16, 6, 35]);
    assert_eq!(cards_text(&cards), "6c3hTs");
    let s = fallback_spot(1, cards_text(&cards));
    assert_eq!(s.spot_id, "fallback-1");
    assert_eq!(s.spot_type, "srp");
    assert_eq!(s.hero_position, "BTN");
    assert_eq!(s.villain_position, Some("BB".to_string()));
    assert_eq!(s.board, "6c3hTs");
    assert_eq!(s.hand, None);
}

#[test]
fn repeated_draws_are_skipped() {
    let mut rng = Lcg::new(FALLBACK_SEED);
    let mut cards = vec![16u8];
    draw_board_card(&mut rng, &mut cards);
    assert_eq!(cards, vec![16]);
}

#[test]
fn row_keys_and_hand_search() {
    let s = spot("srp", "BTN", Some("BB"));
    assert_eq!(row_key(&s, "Ah7s4c", "AhKd", "33%"), "7|srp|BTN|BB|Ah7s4c|AhKd|33%");
    let s = spot("srp", "BTN", None);
    assert_eq!(row_key(&s, "Ah7s4c", "AhKd", "33%"), "7|srp|BTN||Ah7s4c|AhKd|33%");
    let hands = vec![
        HandCombo { cards: (51, 47), label: "AsKs".to_string(), index: 0 },
        HandCombo { cards: (45, 50), label: "KdAh".to_string(), index: 1 },
    ];
    assert_eq!(find_hand_by_label(&hands, "ahkd"), Some(1));
    assert_eq!(find_hand_by_label(&hands, "AhKh"), None);
}

fn live_spot() -> ProbeSpot {
    let mut s = spot("srp", "BTN", Some("BB"));
    s.hand = Some("KdQc".to_string());
    s
}

#[test]
fn spots_are_screened_in_order() {
    let mut live = spot("srp", "BTN", Some("BB"));
    live.hand = Some("KdQc".to_string());
    assert!(matches!(screen_spot(&spot("srp", "BTN", Some("BB"))), Err(SkipReason::HandOnBoard)));
    let ok = screen_spot(&live).ok().unwrap();
    assert_eq!(ok.board, [50, 23, 8]);
    assert_eq!(ok.flop_board, "Ah7s4c");
    assert_eq!((ok.pot.starting_pot_chips, ok.pot.effective_stack_chips), (550, 10000));
    assert_eq!(ok.ranges.hero_range_key, "BTN RFI");

    let mut bad_board = live_spot();
    bad_board.board = "Ah7s".to_string();
    match screen_spot(&bad_board) {
        Err(SkipReason::InvalidBoard(m)) => assert_eq!(m, "board must contain at least 3 cards: Ah7s"),
        _ => panic!("expected an invalid board"),
    }
    let mut blank = live_spot();
    blank.hand = None;
    assert!(matches!(screen_spot(&blank), Err(SkipReason::BlankHand)));
    let mut bad_hand = spot("srp", "BTN", Some("BB"));
    bad_hand.hand = Some("AhAh".to_string());
    match screen_spot(&bad_hand) {
        Err(SkipReason::InvalidHand(m)) => assert_eq!(m, "hand contains duplicate cards: AhAh"),
        _ => panic!("expected an invalid hand"),
    }
    let mut on_board = spot("srp", "BTN", Some("BB"));
    on_board.hand = Some("Ah2c".to_string());
    assert!(matches!(screen_spot(&on_board), Err(SkipReason::HandOnBoard)));
    let mut no_config = live_spot();
    no_config.spot_type = "5bp".to_string();
    assert!(matches!(screen_spot(&no_config), Err(SkipReason::NoConfig)));
    let mut no_pair = live_spot();
    no_pair.hero_position = "BB".to_string();
    no_pair.villain_position = Some("BTN".to_string());
    assert!(matches!(screen_spot(&no_pair), Err(SkipReason::NoRangePair)));
}

#[test]
fn skips_are_counted_by_reason() {
    assert!(matches!(skip_kind(&SkipReason::HandOnBoard), SkipKind::HandNotInRange));
    assert!(matches!(skip_kind(&SkipReason::InvalidBoard("x".to_string())), SkipKind::InvalidBoard));
    assert!(matches!(skip_kind(&SkipReason::NoRangePair), SkipKind::NoRangePair));
    let mut summary = SkipSummary::new();
    summary.record(SkipKind::InvalidBoard);
    summary.record(SkipKind::DuplicateRow);
    summary.record(SkipKind::DuplicateRow);
    summary.record(skip_kind(&SkipReason::HandOnBoard));
    assert_eq!(summary.invalid_board, 1);
    assert_eq!(summary.duplicate_rows, 2);
    assert_eq!(summary.hand_not_in_range, 1);
    assert_eq!(summary.solve_failed, 0);
    assert_eq!(
        summary.summary_line(),
        "Skipped summary: invalid board=1, unsupported 4bp=0, no range pair=0, hand not in range=1, no config=0, invalid hand=0, blank hand=0, solve failed=0, duplicate rows=2"
    );
}

#[test]
fn each_row_key_is_taken_once() {
    let mut keys = KeySet::new();
    assert!(keys.insert("7|srp|BTN|BB|Ah7s4c|KdQc|33%".to_string()));
    assert!(keys.insert("7|srp|BTN|BB|Ah7s4c|KdQc|75%".to_string()));
    assert!(!keys.insert("7|srp|BTN|BB|Ah7s4c|KdQc|33%".to_string()));
    assert_eq!(keys.len(), 2);
}

#[test]
fn hand_text_is_not_read_under_a_bad_board() {
    let mut s = spot("srp", "BTN", Some("BB"));
    s.board = "Ah7s".to_string();
    s.hand = Some("A\u{e9}h".to_string());
    match screen_spot(&s) {
        Err(SkipReason::InvalidBoard(m)) => assert_eq!(m, "board must contain at least 3 cards: Ah7s"),
        _ => panic!("expected an invalid board"),
    }
}

#[test]
fn labels_after_the_match_are_not_read() {
    let hands = vec![
        HandCombo { cards: (51, 47), label: "AsKs".to_string(), index: 0 },
        HandCombo { cards: (45, 50), label: "KdAh".to_string(), index: 1 },
        HandCombo { cards: (0, 1), label: "A\u{e9}h".to_string(), index: 2 },
    ];
    assert_eq!(find_hand_by_label(&hands, "AhKd"), Some(1));
}

#[test]
fn pot_types_of_the_new_layout() {
    assert_eq!(spot_type_of_pot("SRP"), Some("srp".to_string()));
    assert_eq!(spot_type_of_pot("3BP"), Some("3bp".to_string()));
    assert_eq!(spot_type_of_pot("4BP"), Some("4bp".to_string()));
    assert_eq!(spot_type_of_pot("srp"), None);
    assert_eq!(spot_type_of_pot("5BP"), None);
}

#[test]
fn input_rows_are_loaded_in_order() {
    let headers = strings(&["Spot #", "Position 1", "Position 2", "Pot Type", "Hand", "Board"]);
    let records = vec![
        Ok(strings(&["", "btn", "bb", "srp", "AhKd", "Ah7s4c"])),
        Err("found record with 2 fields".to_string()),
        Ok(strings(&["9", "btn", "bb", "5bp", "", "Ah7s4c"])),
        Ok(strings(&["", "co", "bb", "3bp", "QsQd", "Kd9s2c"])),
    ];
    let loaded = load_rows(&headers, &records, InputFormat::NewSpreadsheet);
    assert_eq!(loaded.rows.len(), 2);
    assert_eq!(loaded.rows[0].spot_id, "1");
    assert_eq!(loaded.rows[0].spot_type, "srp");
    assert_eq!(loaded.rows[1].spot_id, "4");
    assert_eq!(loaded.rows[1].spot_type, "3bp");
    assert_eq!(loaded.rows[1].hero_position, "CO");
    assert_eq!(loaded.skipped.len(), 2);
    assert!(matches!(&loaded.skipped[0], RowSkip::Unreadable(2, e) if e == "found record with 2 fields"));
    assert!(matches!(&loaded.skipped[1], RowSkip::Rejected(3, r) if r.kind == RejectKind::UnsupportedPotType));
    assert_eq!(load_rows(&headers, &[], InputFormat::NewSpreadsheet).rows.len(), 0);
}

#[test]
fn input_file_text_is_read_as_rows() {
    let text = "Spot #,Position 1,Position 2,Pot Type,Hand,Board\n,btn,bb,srp,AhKd,Ah7s4c\n9,btn,bb,5bp,,Ah7s4c\n,co,bb\n";
    let input = load_input_text(text.as_bytes()).unwrap();
    assert_eq!(input.format, InputFormat::NewSpreadsheet);
    let rows = input.rows.unwrap();
    assert_eq!(rows.len(), 1);
    assert_eq!(rows[0].spot_id, "1");
    assert_eq!(rows[0].hero_position, "BTN");
    assert_eq!(rows[0].board, "Ah7s4c");
    assert_eq!(input.skipped.len(), 2);
    assert!(matches!(&input.skipped[0], RowSkip::Rejected(2, _)));
    assert!(matches!(&input.skipped[1], RowSkip::Unreadable(3, _)));
    let none = load_input_text("spot_type,hero_position,villain_position,board,hand\n5bp,btn,bb,Ah7s4c,\n".as_bytes()).unwrap();
    assert_eq!(none.format, InputFormat::OldStatProbe);
    assert!(none.rows.is_none());
    match load_input_text("a,b\n1,2\n".as_bytes()) {
        Err(InputError::UnsupportedHeaders(h)) => assert_eq!(h, vec!["a".to_string(), "b".to_string()]),
        _ => panic!("expected unsupported headers"),
    }
}

#[test]
fn tables_are_read_as_rows() {
    let headers = strings(&["spot_type", "hero_position", "villain_position", "board", "hand"]);
    let table = Ok((headers, vec![Ok(strings(&["rfi", "btn", "", "Kd9s2c", ""]))]));
    let input = rows_from_table(table).unwrap();
    assert_eq!(input.format, InputFormat::OldStatProbe);
    assert_eq!(input.rows.unwrap()[0].spot_type, "srp");
    match rows_from_table(Err("bad header".to_string())) {
        Err(InputError::UnreadableHeaders(e)) => assert_eq!(e, "bad header"),
        _ => panic!("expected an unreadable header"),
    }
}

#[test]
fn probe_output_header_columns() {
    let h = probe_output_header();
    assert_eq!(h.len(), 30);
    assert_eq!(h[0], "spot_type");
    assert_eq!(h[28], "iteration_count");
    assert_eq!(h[29], "spot_id");
}

#[test]
fn swapping_positions_swaps_the_pair() {
    for (a, b) in [("CO", "BTN"), ("UTG", "BB"), ("SB", "BB")] {
        let p = lookup_3bp_ranges(a, b).unwrap();
        let q = lookup_3bp_ranges(b, a).unwrap();
        assert_eq!((q.hero_range, q.villain_range), (p.villain_range.clone(), p.hero_range.clone()));
        assert_eq!((q.hero_range_key, q.villain_range_key), (p.villain_range_key.clone(), p.hero_range_key.clone()));
        let p = lookup_4bp_ranges(a, b).unwrap();
        let q = lookup_4bp_ranges(b, a).unwrap();
        assert_eq!((q.hero_range, q.villain_range), (p.villain_range.clone(), p.hero_range.clone()));
        assert_eq!((q.hero_range_key, q.villain_range_key), (p.villain_range_key.clone(), p.hero_range_key.clone()));
    }
    assert!(lookup_3bp_ranges("BTN", "BTN").is_none());
    assert!(lookup_4bp_ranges("BTN", "XX").is_none());
}

#[test]
fn tidying_a_range_twice() {
    let once = normalize_range_for_solver(" BTN RFI: KAs, 22-55 ,, T9s+ ");
    assert_eq!(normalize_range_for_solver(&once), once);
    assert_eq!(normalize_range_for_solver("2-3-4"), "3-4-2");
    assert_eq!(normalize_range_for_solver("3-4-2"), "4-2-3");
}

#[test]
fn rows_are_written_as_csv_text() {
    let rows = vec![strings(&["spot_type", "hand"]), strings(&["srp", "Ah,Kd"]), strings(&["say \"hi\""])];
    let bytes = encode_rows(&rows).unwrap();
    assert_eq!(String::from_utf8(bytes).unwrap(), "spot_type,hand\nsrp,\"Ah,Kd\"\n\"say \"\"hi\"\"\"\n");
    assert_eq!(encode_rows(&[]).unwrap(), Vec::<u8>::new());
}

#[test]
fn rows_are_written_for_the_named_hand_or_all() {
    let hands = vec![
        HandCombo { cards: (51, 47), label: "AsKs".to_string(), index: 0 },
        HandCombo { cards: (45, 50), label: "KdAh".to_string(), index: 1 },
    ];
    let one = target_hands(&hands, Some(" ahkd ")).unwrap();
    assert_eq!(one.len(), 1);
    assert_eq!(one[0].index, 1);
    assert!(target_hands(&hands, Some("AhKh")).is_none());
    assert_eq!(target_hands(&hands, Some("  ")).unwrap().len(), 2);
    assert_eq!(target_hands(&hands, None).unwrap().len(), 2);
}
