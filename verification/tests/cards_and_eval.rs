use flop_stats::cards::{
    board_to_string, card_to_string, filter_dead_hands, hand_is_live, hero_blocks_combo,
    holes_to_strings, player_hands, rank, rank_char, suit, suit_char, HandCombo,
};
use flop_stats::hand_eval::{
    encode_rank, evaluate_5, evaluate_best_from_cards, evaluate_made_hand, ranks_desc,
    showdown_tally, straight_high,
};

// Card numbering: 4 * rank + suit, ranks 2..A as 0..12, suits c, d, h, s as 0..3.
fn card(rank: u8, suit: u8) -> u8 {
    4 * rank + suit
}

#[test]
fn card_names() {
    assert_eq!(card_to_string(0), "2c");
    assert_eq!(card_to_string(51), "As");
    assert_eq!(card_to_string(card(8, 2)), "Th");
    assert_eq!(rank(51), 12);
    assert_eq!(suit(51), 3);
    assert_eq!(rank_char(9), 'J');
    assert_eq!(rank_char(13), '?');
    assert_eq!(suit_char(1), 'd');
    assert_eq!(suit_char(7), '?');
}

#[test]
fn hole_and_board_names() {
    let names = holes_to_strings(&[(51, 47), (0, 5)]);
    assert_eq!(names, vec!["AsKs".to_string(), "2c3d".to_string()]);
    assert_eq!(board_to_string(&[50, 23, 8]), "Ah7s4c");
}

#[test]
fn blocking_and_liveness() {
    let hero = (51, 47);
    assert!(hero_blocks_combo(51, 0, hero));
    assert!(hero_blocks_combo(3, 47, hero));
    assert!(!hero_blocks_combo(46, 50, hero));
    assert!(!hand_is_live((50, 1), &[50, 23, 8]));
    assert!(hand_is_live((49, 1), &[50, 23, 8]));
}

#[test]
fn hands_keep_their_labels_and_indices() {
    let hands = player_hands(&[(51, 47), (8, 9)], &["AsKs".to_string(), "4c4d".to_string()]);
    assert_eq!(hands.len(), 2);
    assert_eq!(hands[1].cards, (8, 9));
    assert_eq!(hands[1].label, "4c4d");
    assert_eq!(hands[1].index, 1);
}

#[test]
fn dead_hands_are_filtered_in_order() {
    let hands = vec![
        HandCombo { cards: (51, 47), label: "AsKs".to_string(), index: 0 },
        HandCombo { cards: (50, 46), label: "AhKh".to_string(), index: 1 },
        HandCombo { cards: (8, 9), label: "4c4d".to_string(), index: 2 },
        HandCombo { cards: (49, 45), label: "AdKd".to_string(), index: 3 },
    ];
    let live = filter_dead_hands(&hands, &[50, 23, 8]);
    let labels: Vec<&str> = live.iter().map(|h| h.label.as_str()).collect();
    assert_eq!(labels, vec!["AsKs", "AdKd"]);
}

#[test]
fn encode_rank_packs_category_and_ranks() {
    assert_eq!(encode_rank(8, &[12]), (8 << 20) | (12 << 16));
    assert_eq!(encode_rank(1, &[9, 12, 6, 1]), 1689104);
    assert_eq!(encode_rank(0, &[]), 0);
}

#[test]
fn straight_high_finds_wheel_and_broadway() {
    let mut counts = [0u8; 13];
    for r in [12, 0, 1, 2, 3] {
        counts[r] = 1;
    }
    assert_eq!(straight_high(&counts), Some(3));
    let mut counts = [0u8; 13];
    for r in 8..13 {
        counts[r] = 1;
    }
    assert_eq!(straight_high(&counts), Some(12));
    let mut counts = [0u8; 13];
    for r in [0, 1, 2, 3, 5] {
        counts[r] = 1;
    }
    assert_eq!(straight_high(&counts), None);
}

#[test]
fn ranks_desc_lists_present_ranks_high_first() {
    let mut counts = [0u8; 13];
    counts[2] = 2;
    counts[12] = 1;
    counts[7] = 1;
    assert_eq!(ranks_desc(&counts), vec![12, 7, 2]);
}

#[test]
fn evaluate_5_every_category() {
    // royal flush in spades
    assert_eq!(evaluate_5(&[card(12, 3), card(11, 3), card(10, 3), card(9, 3), card(8, 3)]), 9175040);
    // wheel straight flush
    assert_eq!(evaluate_5(&[card(3, 3), card(2, 3), card(1, 3), card(0, 3), card(12, 3)]), 8585216);
    // four aces, king kicker
    assert_eq!(evaluate_5(&[card(12, 0), card(12, 1), card(12, 2), card(12, 3), card(11, 0)]), 8171520);
    // kings full of deuces
    assert_eq!(evaluate_5(&[card(11, 0), card(11, 1), card(11, 2), card(0, 3), card(0, 0)]), 7012352);
    // ace-high heart flush A J 8 5 3
    assert_eq!(evaluate_5(&[card(12, 2), card(9, 2), card(6, 2), card(3, 2), card(1, 2)]), 6067761);
    // nine-high straight
    assert_eq!(evaluate_5(&[card(3, 0), card(4, 1), card(5, 2), card(6, 3), card(7, 0)]), 4653056);
    // three sevens, K 2 kickers
    assert_eq!(evaluate_5(&[card(5, 0), card(5, 1), card(5, 2), card(11, 3), card(0, 0)]), 3518464);
    // queens and fours, ace kicker
    assert_eq!(evaluate_5(&[card(10, 0), card(10, 1), card(2, 2), card(2, 3), card(12, 0)]), 2763776);
    // pair of jacks, A 8 3
    assert_eq!(evaluate_5(&[card(9, 0), card(9, 1), card(12, 2), card(6, 3), card(1, 0)]), 1689104);
    // ace high A Q 9 6 2
    assert_eq!(evaluate_5(&[card(12, 0), card(10, 1), card(7, 2), card(4, 3), card(0, 0)]), 829248);
}

#[test]
fn evaluate_5_ignores_card_order() {
    let a = evaluate_5(&[card(9, 0), card(9, 1), card(12, 2), card(6, 3), card(1, 0)]);
    let b = evaluate_5(&[card(1, 0), card(6, 3), card(9, 1), card(12, 2), card(9, 0)]);
    assert_eq!(a, b);
}

#[test]
fn higher_category_beats_lower() {
    let flush = evaluate_5(&[card(5, 2), card(3, 2), card(2, 2), card(1, 2), card(0, 2)]);
    let straight = evaluate_5(&[card(12, 0), card(11, 1), card(10, 2), card(9, 3), card(8, 0)]);
    assert!(flush > straight);
}

#[test]
fn best_of_seven_cards() {
    // As Ks + board Qs Js Ts 2c 3d: royal flush
    let cards = [51, 47, 43, 39, 35, 0, 5];
    assert_eq!(evaluate_best_from_cards(&cards), 9175040);
    // fewer than five cards give nothing
    assert_eq!(evaluate_best_from_cards(&[51, 47, 43, 39]), 0);
}

#[test]
fn best_of_subsets_is_at_least_each_five() {
    let cards = [card(9, 0), card(9, 1), card(12, 2), card(6, 3), card(1, 0), card(9, 2)];
    let best = evaluate_best_from_cards(&cards);
    let first_five = evaluate_5(&[cards[0], cards[1], cards[2], cards[3], cards[4]]);
    assert!(best >= first_five);
    // trips of jacks with A 8 kickers
    assert_eq!(best, (3 << 20) | (9 << 16) | (12 << 12) | (6 << 8));
}

#[test]
fn made_hand_with_flop() {
    // Ah Ad on Ac 7s 4c: three aces, 7 4 kickers
    let v = evaluate_made_hand((50, 49), &[48, 23, 8]);
    assert_eq!(v, (3 << 20) | (12 << 16) | (5 << 12) | (2 << 8));
}

#[test]
fn showdown_tally_counts_wins_ties_and_skips_blocked() {
    let board = [48u8, 23, 8]; // Ac 7s 4c
    let villains = vec![
        HandCombo { cards: (47, 46), label: "KsKh".to_string(), index: 0 },
        HandCombo { cards: (51, 45), label: "AsKd".to_string(), index: 1 },
        HandCombo { cards: (50, 1), label: "Ah2d".to_string(), index: 2 },
        HandCombo { cards: (49, 41), label: "AdQd".to_string(), index: 3 },
    ];
    // hero As Qs: Ac pair with Q kicker
    let (wins, ties, counted) = showdown_tally((51, 43), &villains, &board);
    // KsKh loses to the aces, AsKd is blocked, Ah2d loses to the queen kicker, AdQd ties
    assert_eq!((wins, ties, counted), (2, 1, 3));
    assert!(wins + ties <= counted);
}

#[test]
fn hands_rank_within_a_category() {
    // Pair of kings: the ace kicker beats the queen kicker.
    let kings_ace = evaluate_5(&[card(11, 0), card(11, 1), card(12, 2), card(5, 3), card(2, 0)]);
    let kings_queen = evaluate_5(&[card(11, 2), card(11, 3), card(10, 0), card(9, 1), card(8, 2)]);
    assert!(kings_ace > kings_queen);
    // Two pair: the higher top pair wins even with a lower second pair.
    let aces_twos = evaluate_5(&[card(12, 0), card(12, 1), card(0, 2), card(0, 3), card(3, 0)]);
    let kings_queens = evaluate_5(&[card(11, 0), card(11, 1), card(10, 2), card(10, 3), card(9, 0)]);
    assert!(aces_twos > kings_queens);
    // The wheel is the lowest straight.
    let wheel = evaluate_5(&[card(12, 0), card(0, 1), card(1, 2), card(2, 3), card(3, 0)]);
    let six_high = evaluate_5(&[card(0, 0), card(1, 1), card(2, 2), card(3, 3), card(4, 0)]);
    assert!(wheel < six_high);
    // Same ranks in other suits split the pot.
    let a = evaluate_5(&[card(9, 0), card(9, 1), card(4, 2), card(3, 3), card(1, 0)]);
    let b = evaluate_5(&[card(9, 2), card(9, 3), card(4, 0), card(3, 1), card(1, 2)]);
    assert_eq!(a, b);
}

#[test]
fn relabelling_suits_keeps_the_value() {
    let hand = [card(12, 0), card(9, 0), card(6, 0), card(3, 0), card(1, 0)];
    let perm = [2u8, 0, 3, 1];
    let relabelled = hand.map(|c| 4 * (c / 4) + perm[(c % 4) as usize]);
    assert_eq!(evaluate_5(&relabelled), evaluate_5(&hand));
    let hand = [card(7, 1), card(7, 2), card(7, 3), card(2, 0), card(2, 1)];
    let relabelled = hand.map(|c| 4 * (c / 4) + perm[(c % 4) as usize]);
    assert_eq!(evaluate_5(&relabelled), evaluate_5(&hand));
}
