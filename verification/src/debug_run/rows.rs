//! The rows of the big blind / button action export: which column holds what, for a big
//! blind hand and for a button hand. The frequency cells come already written.
use crate::cards::HandCombo;
use crate::debug_run::labels::{
    action_spot_name, btn_source_node_status, btn_status, class_label,
    debug_spot_name, hand_class_label, DebugScenario, NodeFlags,
};
use crate::text::{chars_of, decimal, decimal_chars, string_of};
use vstd::prelude::*;

verus! {

/// The written cells of a big blind hand: its eight frequencies and its three main actions.
pub struct BbHandCells {
    pub check: String,
    pub donk33: String,
    pub donk75: String,
    pub vs_bet_fold: String,
    pub vs_bet_call: String,
    pub vs_bet_raise: String,
    pub donk_raise_fold: String,
    pub donk_raise_call: String,
    pub primary_opening_action: String,
    pub primary_vs_ip_bet: String,
    pub primary_donk_vs_raise: String,
}

/// The written cells of a button hand: its five frequencies and its two main answers.
pub struct BtnHandCells {
    pub vs_donk_fold: String,
    pub vs_donk_call: String,
    pub vs_donk_raise: String,
    pub vs_check_raise_fold: String,
    pub vs_check_raise_call: String,
    pub primary_vs_donk: String,
    pub primary_vs_check_raise: String,
}

/// The texts of a row.
pub open spec fn row_view(row: Seq<String>) -> Seq<Seq<char>> {
    row.map_values(|s: String| s@)
}

/// The first nine columns, shared by both kinds of row: row type, scenario number, spot,
/// spot name, flop, full board, out-of-position and in-position players, branch size.
pub open spec fn row_head(
    row_type: Seq<char>,
    scenario_id: u32,
    s: DebugScenario,
    suffix: Seq<char>,
    branch_size: Seq<char>,
) -> Seq<Seq<char>> {
    seq![
        row_type,
        decimal(scenario_id as nat),
        decimal(s.spot_id as nat),
        action_spot_name(s, suffix),
        s.board@,
        s.full_board@,
        s.villain_position@,
        s.hero_position@,
        branch_size,
    ]
}

/// `n` empty cells.
pub open spec fn blanks(n: nat) -> Seq<Seq<char>> {
    Seq::new(n, |i: int| Seq::<char>::empty())
}

/// A big blind row: the head, the hand's class and combo, its eight frequencies and three main
/// actions, nine empty button cells, and the node status.
pub open spec fn bb_row(
    scenario_id: u32,
    s: DebugScenario,
    suffix: Seq<char>,
    branch_size: Seq<char>,
    hand: HandCombo,
    c: BbHandCells,
    status: Seq<char>,
) -> Seq<Seq<char>> {
    row_head("BB_HAND_ACTIONS"@, scenario_id, s, suffix, branch_size) + seq![
        class_label(hand.cards),
        hand.label@,
        c.check@,
        c.donk33@,
        c.donk75@,
        c.vs_bet_fold@,
        c.vs_bet_call@,
        c.vs_bet_raise@,
        c.donk_raise_fold@,
        c.donk_raise_call@,
        c.primary_opening_action@,
        c.primary_vs_ip_bet@,
        c.primary_donk_vs_raise@,
    ] + blanks(9) + seq![status]
}

/// A button row: the head, thirteen empty big blind cells, the hand's class and combo, its
/// five frequencies and two main answers, and the button's node status.
pub open spec fn btn_row(
    scenario_id: u32,
    s: DebugScenario,
    suffix: Seq<char>,
    branch_size: Seq<char>,
    hand: HandCombo,
    c: BtnHandCells,
    flags: NodeFlags,
) -> Seq<Seq<char>> {
    row_head("BTN_HAND_ACTIONS"@, scenario_id, s, suffix, branch_size) + blanks(13) + seq![
        class_label(hand.cards),
        hand.label@,
        c.vs_donk_fold@,
        c.vs_donk_call@,
        c.vs_donk_raise@,
        c.vs_check_raise_fold@,
        c.vs_check_raise_call@,
        c.primary_vs_donk@,
        c.primary_vs_check_raise@,
        btn_status(flags),
    ]
}

fn text(s: &str) -> (r: String)
    ensures
        r@ == s@,
{
    string_of(chars_of(s).as_slice())
}

fn push_blanks(row: &mut Vec<String>, n: usize)
    ensures
        row_view(final(row)@) == row_view(old(row)@) + blanks(n as nat),
{
    let ghost start = row@;
    let mut i: usize = 0;
    while i < n
        invariant
            i <= n,
            row@.len() == start.len() + i,
            row_view(row@) == row_view(start) + blanks(i as nat),
        decreases n - i,
    {
        let ghost before = row@;
        let e = String::new();
        row.push(e);
        assert(row_view(row@) =~= row_view(before).push(e@));
        assert(blanks((i + 1) as nat) =~= blanks(i as nat).push(Seq::<char>::empty()));
        assert((row_view(start) + blanks(i as nat)).push(Seq::<char>::empty()) =~= row_view(start)
            + blanks(i as nat).push(Seq::<char>::empty()));
        i = i + 1;
    }
}

fn row_head_cells(
    row_type: &str,
    scenario_id: u32,
    s: &DebugScenario,
    suffix: &str,
    branch_size: &str,
) -> (row: Vec<String>)
    ensures
        row_view(row@) == row_head(row_type@, scenario_id, *s, suffix@, branch_size@),
{
    let mut row: Vec<String> = Vec::new();
    row.push(text(row_type));
    row.push(string_of(decimal_chars(scenario_id as u64).as_slice()));
    row.push(string_of(decimal_chars(s.spot_id as u64).as_slice()));
    row.push(debug_spot_name(s, suffix));
    row.push(text(s.board));
    row.push(text(s.full_board));
    row.push(text(s.villain_position));
    row.push(text(s.hero_position));
    row.push(text(branch_size));
    assert(row_view(row@) == row_head(row_type@, scenario_id, *s, suffix@, branch_size@));
    row
}

/// The row of a big blind hand (as `export_bb_flop_actions_rows` writes it).
pub fn bb_hand_row(
    scenario_id: u32,
    s: &DebugScenario,
    suffix: &str,
    branch_size: &str,
    hand: &HandCombo,
    c: &BbHandCells,
    status: &str,
) -> (row: Vec<String>)
    ensures
        row_view(row@) == bb_row(scenario_id, *s, suffix@, branch_size@, *hand, *c, status@),
{
    let mut row = row_head_cells("BB_HAND_ACTIONS", scenario_id, s, suffix, branch_size);
    let ghost head = row_view(row@);
    row.push(hand_class_label(hand.cards));
    row.push(hand.label.clone());
    row.push(c.check.clone());
    row.push(c.donk33.clone());
    row.push(c.donk75.clone());
    row.push(c.vs_bet_fold.clone());
    row.push(c.vs_bet_call.clone());
    row.push(c.vs_bet_raise.clone());
    row.push(c.donk_raise_fold.clone());
    row.push(c.donk_raise_call.clone());
    row.push(c.primary_opening_action.clone());
    row.push(c.primary_vs_ip_bet.clone());
    row.push(c.primary_donk_vs_raise.clone());
    let ghost body = seq![
        class_label(hand.cards),
        hand.label@,
        c.check@,
        c.donk33@,
        c.donk75@,
        c.vs_bet_fold@,
        c.vs_bet_call@,
        c.vs_bet_raise@,
        c.donk_raise_fold@,
        c.donk_raise_call@,
        c.primary_opening_action@,
        c.primary_vs_ip_bet@,
        c.primary_donk_vs_raise@,
    ];
    assert(row_view(row@) == head + body);
    push_blanks(&mut row, 9);
    row.push(text(status));
    assert(row_view(row@) == head + body + blanks(9) + seq![status@]);
    row
}

/// The row of a button hand (as `export_bb_flop_actions_rows` writes it).
pub fn btn_hand_row(
    scenario_id: u32,
    s: &DebugScenario,
    suffix: &str,
    branch_size: &str,
    hand: &HandCombo,
    c: &BtnHandCells,
    flags: &NodeFlags,
) -> (row: Vec<String>)
    ensures
        row_view(row@) == btn_row(scenario_id, *s, suffix@, branch_size@, *hand, *c, *flags),
{
    let mut row = row_head_cells("BTN_HAND_ACTIONS", scenario_id, s, suffix, branch_size);
    let ghost head = row_view(row@);
    push_blanks(&mut row, 13);
    let ghost with_blanks = row_view(row@);
    row.push(hand_class_label(hand.cards));
    row.push(hand.label.clone());
    row.push(c.vs_donk_fold.clone());
    row.push(c.vs_donk_call.clone());
    row.push(c.vs_donk_raise.clone());
    row.push(c.vs_check_raise_fold.clone());
    row.push(c.vs_check_raise_call.clone());
    row.push(c.primary_vs_donk.clone());
    row.push(c.primary_vs_check_raise.clone());
    row.push(btn_source_node_status(flags));
    let ghost tail = seq![
        class_label(hand.cards),
        hand.label@,
        c.vs_donk_fold@,
        c.vs_donk_call@,
        c.vs_donk_raise@,
        c.vs_check_raise_fold@,
        c.vs_check_raise_call@,
        c.primary_vs_donk@,
        c.primary_vs_check_raise@,
        btn_status(*flags),
    ];
    assert(row_view(row@) == with_blanks + tail);
    row
}

/// The given texts as owned strings, in order.
pub(crate) fn texts_of(names: &[&str]) -> (r: Vec<String>)
    ensures
        row_view(r@) == names@.map_values(|n: &str| n@),
{
    let mut r: Vec<String> = Vec::new();
    let n = names.len();
    let mut i: usize = 0;
    while i < n
        invariant
            i <= n,
            n == names@.len(),
            row_view(r@) == names@.take(i as int).map_values(|n: &str| n@),
        decreases n - i,
    {
        let t = text(names[i]);
        let ghost before = r@;
        r.push(t);
        assert(r@ == before.push(t));
        assert(row_view(r@) =~= row_view(before).push(names@[i as int]@));
        assert(names@.take(i + 1) == names@.take(i as int).push(names@[i as int]));
        assert(row_view(r@) =~= names@.take(i + 1).map_values(|n: &str| n@));
        i = i + 1;
    }
    assert(names@.take(n as int) == names@);
    r
}

/// The column names of the big blind / button action export, in order.
pub open spec fn actions_header_names() -> Seq<Seq<char>> {
    seq![
        "row_type"@,
        "scenario_id"@,
        "spot_id"@,
        "spot_name"@,
        "board"@,
        "full_board"@,
        "oop_position"@,
        "ip_position"@,
        "flop_bet_size_branch"@,
        "bb_hand"@,
        "bb_combo"@,
        "bb_original_check_freq"@,
        "bb_original_donk_33_freq"@,
        "bb_original_donk_75_freq"@,
        "bb_vs_ip_bet_fold_freq"@,
        "bb_vs_ip_bet_call_freq"@,
        "bb_vs_ip_bet_raise_freq"@,
        "bb_donk_then_vs_ip_raise_fold_freq"@,
        "bb_donk_then_vs_ip_raise_call_freq"@,
        "bb_primary_original_action"@,
        "bb_primary_vs_ip_bet_response"@,
        "bb_primary_donk_vs_raise_response"@,
        "btn_hand"@,
        "btn_combo"@,
        "btn_vs_bb_donk_fold_freq"@,
        "btn_vs_bb_donk_call_freq"@,
        "btn_vs_bb_donk_raise_freq"@,
        "btn_vs_bb_check_raise_fold_freq"@,
        "btn_vs_bb_check_raise_call_freq"@,
        "btn_primary_vs_bb_donk_response"@,
        "btn_primary_vs_bb_check_raise_response"@,
        "source_node_status"@,
    ]
}

/// The header row of the big blind / button action export.
pub fn bb_flop_actions_header() -> (h: Vec<String>)
    ensures
        row_view(h@) == actions_header_names(),
{
    let names: [&str; 32] = [
        "row_type",
        "scenario_id",
        "spot_id",
        "spot_name",
        "board",
        "full_board",
        "oop_position",
        "ip_position",
        "flop_bet_size_branch",
        "bb_hand",
        "bb_combo",
        "bb_original_check_freq",
        "bb_original_donk_33_freq",
        "bb_original_donk_75_freq",
        "bb_vs_ip_bet_fold_freq",
        "bb_vs_ip_bet_call_freq",
        "bb_vs_ip_bet_raise_freq",
        "bb_donk_then_vs_ip_raise_fold_freq",
        "bb_donk_then_vs_ip_raise_call_freq",
        "bb_primary_original_action",
        "bb_primary_vs_ip_bet_response",
        "bb_primary_donk_vs_raise_response",
        "btn_hand",
        "btn_combo",
        "btn_vs_bb_donk_fold_freq",
        "btn_vs_bb_donk_call_freq",
        "btn_vs_bb_donk_raise_freq",
        "btn_vs_bb_check_raise_fold_freq",
        "btn_vs_bb_check_raise_call_freq",
        "btn_primary_vs_bb_donk_response",
        "btn_primary_vs_bb_check_raise_response",
        "source_node_status",
    ];
    let h = texts_of(&names);
    assert(names@.map_values(|n: &str| n@) =~= actions_header_names());
    h
}

/// The column names of the per-hand range export, in order.
pub open spec fn range_header_names() -> Seq<Seq<char>> {
    seq![
        "scenario_id"@,
        "spot_id"@,
        "spot_name"@,
        "street"@,
        "hand"@,
        "board"@,
        "full_board"@,
        "original_input_hand"@,
        "hero_position"@,
        "villain_position"@,
        "player_type"@,
        "pot_type"@,
        "flop_bet_size"@,
        "check_freq"@,
        "check_ev"@,
        "bet_1_size"@,
        "bet_1_freq"@,
        "bet_1_ev"@,
        "best_action"@,
        "ev"@,
        "hero_equity_vs_villain"@,
        "equity_with_draws"@,
        "raw_strength_score"@,
        "improvability_score"@,
        "range_equity_hero"@,
        "range_advantage_score"@,
        "hero_weighted_value_combos"@,
        "villain_weighted_value_combos"@,
        "hero_total_live_combos"@,
        "villain_total_live_combos"@,
        "hero_weighted_value_pct"@,
        "villain_weighted_value_pct"@,
        "nut_advantage_pct"@,
        "nut_advantage_score"@,
        "villain_weighted_fold_combos"@,
        "hero_blocks_value_combos"@,
        "hero_blocks_fold_combos"@,
    ]
}

/// The header row of the per-hand range export.
pub fn debug_range_header() -> (h: Vec<String>)
    ensures
        row_view(h@) == range_header_names(),
{
    let names: [&str; 37] = [
        "scenario_id",
        "spot_id",
        "spot_name",
        "street",
        "hand",
        "board",
        "full_board",
        "original_input_hand",
        "hero_position",
        "villain_position",
        "player_type",
        "pot_type",
        "flop_bet_size",
        "check_freq",
        "check_ev",
        "bet_1_size",
        "bet_1_freq",
        "bet_1_ev",
        "best_action",
        "ev",
        "hero_equity_vs_villain",
        "equity_with_draws",
        "raw_strength_score",
        "improvability_score",
        "range_equity_hero",
        "range_advantage_score",
        "hero_weighted_value_combos",
        "villain_weighted_value_combos",
        "hero_total_live_combos",
        "villain_total_live_combos",
        "hero_weighted_value_pct",
        "villain_weighted_value_pct",
        "nut_advantage_pct",
        "nut_advantage_score",
        "villain_weighted_fold_combos",
        "hero_blocks_value_combos",
        "hero_blocks_fold_combos",
    ];
    let h = texts_of(&names);
    assert(names@.map_values(|n: &str| n@) =~= range_header_names());
    h
}

/// Both kinds of row have one cell under each of the 32 columns of the header.
pub proof fn lemma_rows_have_32_columns(
    scenario_id: u32,
    s: DebugScenario,
    suffix: Seq<char>,
    branch_size: Seq<char>,
    hand: HandCombo,
    bb: BbHandCells,
    btn: BtnHandCells,
    status: Seq<char>,
    flags: NodeFlags,
)
    ensures
        actions_header_names().len() == 32,
        bb_row(scenario_id, s, suffix, branch_size, hand, bb, status).len() == actions_header_names().len(),
        btn_row(scenario_id, s, suffix, branch_size, hand, btn, flags).len() == actions_header_names().len(),
{
}

} // verus!
