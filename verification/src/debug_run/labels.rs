//! Scenario data of the flop debug exporter and the labels written into its rows.
use crate::cards::{board_name, card_name, rank, rank_char, rank_of, rank_symbol, suit, suit_of, Card};
use crate::debug_run::notation::{board_piece, lemma_board_name_reads_back, board_cuts_ok, board_result, card_result, parse_board, parse_card, result_view};
use crate::text::{
    chars_of, decimal, decimal_chars, decimal_pad2, decimal_pad2_chars, extend_chars, push_str,
    str_equals, string_of,
};
use crate::debug_run::tree::{first_of_kind, position_of_kind, ActionKind, ModalAction, TreeAction};
use crate::unicode_case::{to_lowercase, unicode_lowercase};
use vstd::prelude::*;
use vstd::string::StringSliceAdditionalSpecFns;
use vstd::utf8::{encode_utf8, is_continuation_byte};

verus! {

broadcast use vstd::utf8::group_utf8_lib;

/// One exported spot: the positions, the hero's reference hand, the flop, the full board,
/// and the two ranges when they are known.
#[derive(Clone, Copy)]
pub struct DebugScenario {
    pub spot_id: u32,
    pub hero_position: &'static str,
    pub villain_position: &'static str,
    pub reference_hand: &'static str,
    pub board: &'static str,
    pub full_board: &'static str,
    pub ip_range: Option<&'static str>,
    pub oop_range: Option<&'static str>,
    pub missing_range_key: Option<&'static str>,
}

/// A flop bet size: as the tree builder writes it, as the rows write it, and as a name suffix.
#[derive(Clone, Copy)]
pub struct Sizing {
    pub tree_size: &'static str,
    pub csv_size: &'static str,
    pub suffix: &'static str,
}

/// Where a solved decision sits: street, board, turn card, flop line and bet sizes.
pub struct DecisionMeta {
    pub street: &'static str,
    pub board: &'static str,
    pub turn_card: &'static str,
    pub flop_action: &'static str,
    pub flop_bet_size: &'static str,
    pub turn_bet_size: &'static str,
}

/// The name suffix of a flop bet size written as in the rows.
pub open spec fn suffix_for_size(size: Seq<char>) -> Seq<char> {
    if size == "0.33"@ {
        "33"@
    } else if size == "0.75"@ {
        "75"@
    } else if size == "1.25"@ {
        "125"@
    } else {
        "unknown"@
    }
}

/// The name suffix of the decision's flop bet size (`sizing_suffix`).
pub fn sizing_suffix(meta: &DecisionMeta) -> (s: &'static str)
    ensures
        s@ == suffix_for_size(meta.flop_bet_size@),
{
    if str_equals(meta.flop_bet_size, "0.33") {
        "33"
    } else if str_equals(meta.flop_bet_size, "0.75") {
        "75"
    } else if str_equals(meta.flop_bet_size, "1.25") {
        "125"
    } else {
        "unknown"
    }
}

/// The bet size that labels the decision: the flop size on the flop, else the turn size
/// (`solve_bet_size_label`).
pub fn solve_bet_size_label(meta: &DecisionMeta) -> (s: &'static str)
    ensures
        s@ == if meta.street@ == "flop"@ {
            meta.flop_bet_size@
        } else {
            meta.turn_bet_size@
        },
{
    if str_equals(meta.street, "flop") {
        meta.flop_bet_size
    } else {
        meta.turn_bet_size
    }
}

/// The class label of two hole cards: a pair as its two rank symbols, otherwise the higher
/// rank, the lower rank, and `s` when suited or `o` when not.
pub open spec fn class_label(cards: (Card, Card)) -> Seq<char> {
    let r1 = rank_of(cards.0);
    let r2 = rank_of(cards.1);
    if r1 == r2 {
        seq![rank_symbol(r1), rank_symbol(r2)]
    } else {
        let high = if r1 >= r2 {
            r1
        } else {
            r2
        };
        let low = if r1 >= r2 {
            r2
        } else {
            r1
        };
        seq![
            rank_symbol(high),
            rank_symbol(low),
            if suit_of(cards.0) == suit_of(cards.1) {
                's'
            } else {
                'o'
            },
        ]
    }
}

/// The class label of two hole cards (`hand_class_label`), such as `AKs`, `T9o` or `77`.
pub fn hand_class_label(cards: (Card, Card)) -> (label: String)
    ensures
        label@ == class_label(cards),
{
    let r1 = rank(cards.0);
    let r2 = rank(cards.1);
    let mut v: Vec<char> = Vec::new();
    if r1 == r2 {
        v.push(rank_char(r1));
        v.push(rank_char(r2));
        return string_of(v.as_slice());
    }
    let suited = suit(cards.0) == suit(cards.1);
    let (high, low) = if r1 >= r2 {
        (r1, r2)
    } else {
        (r2, r1)
    };
    v.push(rank_char(high));
    v.push(rank_char(low));
    v.push(
        if suited {
            's'
        } else {
            'o'
        },
    );
    string_of(v.as_slice())
}

/// The spot name of the action export rows:
/// `<hero>-vs-<villain>-srp-<spot, two digits>-flop-bb-actions-<suffix>`, positions lower-cased.
pub open spec fn action_spot_name(scenario: DebugScenario, suffix: Seq<char>) -> Seq<char> {
    unicode_lowercase(scenario.hero_position@) + "-vs-"@ + unicode_lowercase(
        scenario.villain_position@,
    ) + "-srp-"@ + decimal_pad2(scenario.spot_id as nat) + "-flop-bb-actions-"@ + suffix
}

/// The spot name of the action export rows (`debug_spot_name`).
pub fn debug_spot_name(scenario: &DebugScenario, suffix: &str) -> (name: String)
    ensures
        name@ == action_spot_name(*scenario, suffix@),
{
    let mut v = chars_of(to_lowercase(scenario.hero_position).as_str());
    push_str(&mut v, "-vs-");
    extend_chars(&mut v, chars_of(to_lowercase(scenario.villain_position).as_str()).as_slice());
    push_str(&mut v, "-srp-");
    extend_chars(&mut v, decimal_pad2_chars(scenario.spot_id as u64).as_slice());
    push_str(&mut v, "-flop-bb-actions-");
    push_str(&mut v, suffix);
    string_of(v.as_slice())
}

/// The spot name of the range rows:
/// `<hero>-vs-<villain>-srp-spot-<spot>-debug-range-<size suffix>`, positions lower-cased.
pub open spec fn range_spot_name(scenario: DebugScenario, meta: DecisionMeta) -> Seq<char> {
    unicode_lowercase(scenario.hero_position@) + "-vs-"@ + unicode_lowercase(
        scenario.villain_position@,
    ) + "-srp-spot-"@ + decimal(scenario.spot_id as nat) + "-debug-range-"@ + suffix_for_size(
        meta.flop_bet_size@,
    )
}

/// The spot name written into each range row (as `write_debug_row` builds it).
pub fn debug_range_spot_name(scenario: &DebugScenario, meta: &DecisionMeta) -> (name: String)
    ensures
        name@ == range_spot_name(*scenario, *meta),
{
    let mut v = chars_of(to_lowercase(scenario.hero_position).as_str());
    push_str(&mut v, "-vs-");
    extend_chars(&mut v, chars_of(to_lowercase(scenario.villain_position).as_str()).as_slice());
    push_str(&mut v, "-srp-spot-");
    extend_chars(&mut v, decimal_chars(scenario.spot_id as u64).as_slice());
    push_str(&mut v, "-debug-range-");
    push_str(&mut v, sizing_suffix(meta));
    string_of(v.as_slice())
}

/// Which nodes the action export found in the solved tree.
#[derive(Clone, Copy, PartialEq, Eq, Debug)]
pub struct NodeFlags {
    pub root_found: bool,
    pub check_found: bool,
    pub donk33_found: bool,
    pub donk75_found: bool,
    pub vs_ip_bet_found: bool,
    pub donk33_vs_raise_found: bool,
    pub donk75_vs_raise_found: bool,
    pub ip_vs_donk_found: bool,
    pub ip_vs_check_raise_found: bool,
}

/// The status of the big blind's rows: `UNAVAILABLE` without a root, else the found or missing
/// parts joined by `_`, ending with the status of the hand's main donk line.
pub open spec fn bb_status(flags: NodeFlags, donk_status: Seq<char>) -> Seq<char> {
    if !flags.root_found {
        "UNAVAILABLE"@
    } else {
        "ROOT_FOUND"@ + "_"@ + (if flags.check_found {
            "CHECK_FOUND"@
        } else {
            "CHECK_MISSING"@
        }) + "_"@ + (if flags.donk33_found || flags.donk75_found {
            "DONK_FOUND"@
        } else {
            "DONK_NODE_MISSING"@
        }) + "_"@ + (if flags.vs_ip_bet_found {
            "VS_BET_FOUND"@
        } else {
            "VS_BET_MISSING"@
        }) + "_"@ + donk_status
    }
}

/// The status of a big blind row (`source_node_status`).
pub fn source_node_status(flags: &NodeFlags, primary_donk_status: &str) -> (s: String)
    ensures
        s@ == bb_status(*flags, primary_donk_status@),
{
    let mut v: Vec<char> = Vec::new();
    if !flags.root_found {
        push_str(&mut v, "UNAVAILABLE");
        return string_of(v.as_slice());
    }
    push_str(&mut v, "ROOT_FOUND");
    push_str(&mut v, "_");
    push_str(
        &mut v,
        if flags.check_found {
            "CHECK_FOUND"
        } else {
            "CHECK_MISSING"
        },
    );
    push_str(&mut v, "_");
    push_str(
        &mut v,
        if flags.donk33_found || flags.donk75_found {
            "DONK_FOUND"
        } else {
            "DONK_NODE_MISSING"
        },
    );
    push_str(&mut v, "_");
    push_str(
        &mut v,
        if flags.vs_ip_bet_found {
            "VS_BET_FOUND"
        } else {
            "VS_BET_MISSING"
        },
    );
    push_str(&mut v, "_");
    push_str(&mut v, primary_donk_status);
    string_of(v.as_slice())
}

/// The status of the button's rows: `UNAVAILABLE` without a root, else the found or missing
/// answers to the donk and to the check-raise joined by `_`.
pub open spec fn btn_status(flags: NodeFlags) -> Seq<char> {
    if !flags.root_found {
        "UNAVAILABLE"@
    } else {
        "ROOT_FOUND"@ + "_"@ + (if flags.ip_vs_donk_found {
            "BTN_VS_DONK_FOUND"@
        } else {
            "BTN_VS_DONK_MISSING"@
        }) + "_"@ + (if flags.ip_vs_check_raise_found {
            "BTN_VS_CHECK_RAISE_FOUND"@
        } else {
            "BTN_VS_CHECK_RAISE_MISSING"@
        })
    }
}

/// The status of a button row (`btn_source_node_status`).
pub fn btn_source_node_status(flags: &NodeFlags) -> (s: String)
    ensures
        s@ == btn_status(*flags),
{
    let mut v: Vec<char> = Vec::new();
    if !flags.root_found {
        push_str(&mut v, "UNAVAILABLE");
        return string_of(v.as_slice());
    }
    push_str(&mut v, "ROOT_FOUND");
    push_str(&mut v, "_");
    push_str(
        &mut v,
        if flags.ip_vs_donk_found {
            "BTN_VS_DONK_FOUND"
        } else {
            "BTN_VS_DONK_MISSING"
        },
    );
    push_str(&mut v, "_");
    push_str(
        &mut v,
        if flags.ip_vs_check_raise_found {
            "BTN_VS_CHECK_RAISE_FOUND"
        } else {
            "BTN_VS_CHECK_RAISE_MISSING"
        },
    );
    string_of(v.as_slice())
}

/// Which donk line a hand mostly takes, if it has one at all.
#[derive(Clone, Copy, PartialEq, Eq, Debug)]
pub enum DonkLine {
    Missing,
    Donk33,
    Donk75,
}

/// The status of a hand's main donk line: missing, or whether the answer to the raise on
/// that line was found.
pub open spec fn donk_status(flags: NodeFlags, line: DonkLine) -> Seq<char> {
    match line {
        DonkLine::Missing => "DONK_NODE_MISSING"@,
        DonkLine::Donk75 => if flags.donk75_vs_raise_found {
            "VS_RAISE_FOUND_PRIMARY_DONK_75"@
        } else {
            "RAISE_RESPONSE_MISSING"@
        },
        DonkLine::Donk33 => if flags.donk33_vs_raise_found {
            "VS_RAISE_FOUND_PRIMARY_DONK_33"@
        } else {
            "RAISE_RESPONSE_MISSING"@
        },
    }
}

/// The status of a hand's main donk line (as `primary_donk_raise_response` names it).
pub fn donk_line_status(flags: &NodeFlags, line: DonkLine) -> (s: String)
    ensures
        s@ == donk_status(*flags, line),
{
    let mut v: Vec<char> = Vec::new();
    match line {
        DonkLine::Missing => push_str(&mut v, "DONK_NODE_MISSING"),
        DonkLine::Donk75 => push_str(
            &mut v,
            if flags.donk75_vs_raise_found {
                "VS_RAISE_FOUND_PRIMARY_DONK_75"
            } else {
                "RAISE_RESPONSE_MISSING"
            },
        ),
        DonkLine::Donk33 => push_str(
            &mut v,
            if flags.donk33_vs_raise_found {
                "VS_RAISE_FOUND_PRIMARY_DONK_33"
            } else {
                "RAISE_RESPONSE_MISSING"
            },
        ),
    }
    string_of(v.as_slice())
}

/// A list of `n` absent frequencies (`empty_freqs`).
pub fn empty_freqs<T>(hand_count: usize) -> (v: Vec<Option<T>>)
    ensures
        v@.len() == hand_count,
        forall|i: int| 0 <= i < hand_count ==> #[trigger] v@[i] is None,
{
    let mut v: Vec<Option<T>> = Vec::new();
    let mut i: usize = 0;
    while i < hand_count
        invariant
            i <= hand_count,
            v@.len() == i,
            forall|k: int| 0 <= k < i ==> #[trigger] v@[k] is None,
        decreases hand_count - i,
    {
        v.push(None);
        i = i + 1;
    }
    v
}

/// The entry of a per-action, per-hand table laid out action by action (`action_value`).
pub fn action_value<T: Copy>(values: &[T], action_index: usize, hand_index: usize, hand_count: usize) -> (v: T)
    requires
        action_index * hand_count + hand_index < values@.len(),
    ensures
        v == values@[action_index * hand_count + hand_index],
{
    let len = values.len();
    assert(action_index * hand_count < len);
    values[action_index * hand_count + hand_index]
}

/// Sets the first `hand_count` entries to the hands' values for the action, when there is
/// such an action; leaves the list as it was otherwise (`fill_action_freqs`).
pub fn fill_action_freqs<T: Copy>(
    target: &mut Vec<Option<T>>,
    strategy: &[T],
    action_index: Option<usize>,
    hand_count: usize,
)
    requires
        action_index matches Some(a) ==> hand_count <= old(target)@.len() && a * hand_count
            + hand_count <= strategy@.len(),
    ensures
        final(target)@.len() == old(target)@.len(),
        action_index is None ==> final(target)@ == old(target)@,
        action_index matches Some(a) ==> forall|i: int|
            0 <= i < old(target)@.len() ==> #[trigger] final(target)@[i] == if i < hand_count {
                Some(strategy@[a * hand_count + i])
            } else {
                old(target)@[i]
            },
{
    if let Some(action_index) = action_index {
        let mut hand_index: usize = 0;
        while hand_index < hand_count
            invariant
                hand_index <= hand_count,
                hand_count <= old(target)@.len(),
                action_index * hand_count + hand_count <= strategy@.len(),
                target@.len() == old(target)@.len(),
                forall|i: int|
                    0 <= i < old(target)@.len() ==> #[trigger] target@[i] == if i < hand_index {
                        Some(strategy@[action_index * hand_count + i])
                    } else {
                        old(target)@[i]
                    },
            decreases hand_count - hand_index,
        {
            let v = action_value(strategy, action_index, hand_index, hand_count);
            target.set(hand_index, Some(v));
            hand_index = hand_index + 1;
        }
    }
}

/// The index of the hand holding the two target cards, in either order, if any.
pub open spec fn hand_matches(cards: (Card, Card), target: (Card, Card)) -> bool {
    cards == target || cards == (target.1, target.0)
}

/// Finds the first hand holding the target cards in either order (the search of
/// `export_debug_hand_row`).
pub fn find_hand_index(hands: &[crate::cards::HandCombo], target: (Card, Card)) -> (r: Option<usize>)
    ensures
        match r {
            Some(i) => i < hands@.len() && hand_matches(hands@[i as int].cards, target) && forall|k: int|
                0 <= k < i ==> !hand_matches(#[trigger] hands@[k].cards, target),
            None => forall|k: int| 0 <= k < hands@.len() ==> !hand_matches(#[trigger] hands@[k].cards, target),
        },
{
    let n = hands.len();
    let mut i: usize = 0;
    while i < n
        invariant
            i <= n,
            n == hands@.len(),
            forall|k: int| 0 <= k < i ==> !hand_matches(#[trigger] hands@[k].cards, target),
        decreases n - i,
    {
        let c = hands[i].cards;
        if (c.0 == target.0 && c.1 == target.1) || (c.0 == target.1 && c.1 == target.0) {
            return Some(i);
        }
        i = i + 1;
    }
    None
}

/// The dead-card mask of a board: bit `c` set for every board card `c`.
pub open spec fn mask_of(board: Seq<Card>) -> u64
    decreases board.len(),
{
    if board.len() == 0 {
        0
    } else {
        mask_of(board.drop_last()) | (1u64 << (board.last() as u64))
    }
}

proof fn lemma_bit_or(m: u64, c: u64, x: u64)
    by (bit_vector)
    requires
        c < 64,
        x < 64,
    ensures
        ((m | (1u64 << c)) >> x) & 1 == 1 <==> ((m >> x) & 1 == 1 || x == c),
{
}

proof fn lemma_zero_bits(x: u64)
    by (bit_vector)
    requires
        x < 64,
    ensures
        (0u64 >> x) & 1 == 0,
{
}

/// The board cards as a bit mask (the fold in `hero_range_combo_counts`).
pub fn dead_cards_mask(board: &[Card]) -> (mask: u64)
    requires
        forall|i: int| 0 <= i < board@.len() ==> #[trigger] board@[i] < 64,
    ensures
        mask == mask_of(board@),
        forall|x: u64| x < 64 ==> (((mask >> x) & 1 == 1) <==> board@.contains(x as u8)),
{
    let mut mask: u64 = 0;
    let n = board.len();
    let mut i: usize = 0;
    proof {
        assert forall|x: u64| x < 64 implies (((mask >> x) & 1 == 1) <==> board@.take(0).contains(
            x as u8,
        )) by {
            lemma_zero_bits(x);
        }
    }
    while i < n
        invariant
            i <= n,
            n == board@.len(),
            forall|k: int| 0 <= k < board@.len() ==> #[trigger] board@[k] < 64,
            mask == mask_of(board@.take(i as int)),
            forall|x: u64| x < 64 ==> (((mask >> x) & 1 == 1) <==> board@.take(i as int).contains(
                x as u8,
            )),
        decreases n - i,
    {
        let card = board[i];
        assert(board@.take(i + 1).drop_last() == board@.take(i as int));
        assert(board@.take(i + 1).last() == card);
        let ghost old_mask = mask;
        mask = mask | (1u64 << (card as u64));
        proof {
            assert forall|x: u64| x < 64 implies (((mask >> x) & 1 == 1) <==> board@.take(
                i + 1,
            ).contains(x as u8)) by {
                lemma_bit_or(old_mask, card as u64, x);
                assert(board@.take(i + 1) == board@.take(i as int).push(card));
                if x == card as u64 {
                    assert(board@.take(i + 1)[i as int] == card);
                } else {
                    if board@.take(i + 1).contains(x as u8) {
                        let j = choose|j: int| 0 <= j < i + 1 && #[trigger] board@.take(i + 1)[j] == x as u8;
                        assert(j < i);
                        assert(board@.take(i as int)[j] == x as u8);
                    }
                }
            }
        }
        i = i + 1;
    }
    assert(board@.take(n as int) == board@);
    mask
}

/// The flop of the fixed single-raised-pot solves.
pub const FLOP: &'static str = "Ah7s4c";

/// The turn card of the fixed single-raised-pot solves.
pub const TURN: &'static str = "6s";

/// The cards of the fixed flop and turn: `Ah 7s 4c 6s` (`turn_board_cards`).
pub fn turn_board_cards() -> (r: Result<Vec<Card>, String>)
    ensures
        r matches Ok(v) && v@ == seq![50u8, 23u8, 8u8, 19u8],
{
    proof {
        reveal_strlit("Ah7s4c");
        reveal_strlit("6s");
        let b: [Card; 3] = [50u8, 23u8, 8u8];
        assert(FLOP@ == board_name(b));
        lemma_board_name_reads_back(b);
        assert(TURN@ == crate::cards::card_name(19u8));
        crate::debug_run::notation::lemma_card_name_reads_back(19u8);
    }
    let flop = match parse_board(FLOP) {
        Ok(f) => f,
        Err(e) => {
            return Err(e);
        },
    };
    let turn = match parse_card(TURN) {
        Ok(t) => t,
        Err(e) => {
            return Err(e);
        },
    };
    let mut v: Vec<Card> = Vec::new();
    v.push(flop[0]);
    v.push(flop[1]);
    v.push(flop[2]);
    v.push(turn);
    Ok(v)
}

/// The board cards of a decision: flop and turn on the turn, the flop alone otherwise
/// (`board_cards_for_meta`).
pub fn board_cards_for_meta(meta: &DecisionMeta) -> (r: Result<Vec<Card>, String>)
    ensures
        r matches Ok(v) && v@ == if meta.street@ == "turn"@ {
            seq![50u8, 23u8, 8u8, 19u8]
        } else {
            seq![50u8, 23u8, 8u8]
        },
{
    if str_equals(meta.street, "turn") {
        turn_board_cards()
    } else {
        proof {
            reveal_strlit("Ah7s4c");
            let b: [Card; 3] = [50u8, 23u8, 8u8];
            assert(FLOP@ == board_name(b));
            lemma_board_name_reads_back(b);
        }
        match parse_board(FLOP) {
            Ok(f) => {
                let mut v: Vec<Card> = Vec::new();
                v.push(f[0]);
                v.push(f[1]);
                v.push(f[2]);
                Ok(v)
            },
            Err(e) => Err(e),
        }
    }
}

/// Whether a scenario has both ranges and no missing range (the scenarios that are run).
pub open spec fn complete(s: DebugScenario) -> bool {
    s.ip_range is Some && s.oop_range is Some && s.missing_range_key is None
}

/// Whether a scenario has both ranges and no missing range.
pub fn scenario_is_complete(s: &DebugScenario) -> (b: bool)
    ensures
        b == complete(*s),
{
    s.ip_range.is_some() && s.oop_range.is_some() && s.missing_range_key.is_none()
}

/// What the turn donk filter does once its tree is solved: when the out-of-position player
/// acts at the root and can both check and bet there, it filters by the first check and the
/// first bet (`Some` of their indices); otherwise it keeps every live hand (`None`).
pub open spec fn turn_filter_step(oop_to_act: bool, actions: Seq<TreeAction>) -> Option<(int, int)> {
    if !oop_to_act {
        None
    } else {
        match (first_of_kind(actions, ActionKind::Check), first_of_kind(actions, ActionKind::Bet)) {
            (Some(c), Some(b)) => Some((c, b)),
            _ => None,
        }
    }
}

/// Whether the turn donk filter runs, and on which check and bet (the early returns of
/// `filter_bb_turn_checks` once the tree is solved).
pub fn turn_filter_indices(oop_to_act: bool, actions: &[TreeAction]) -> (r: Option<(usize, usize)>)
    ensures
        match r {
            Some((c, b)) => turn_filter_step(oop_to_act, actions@) == Some((c as int, b as int)),
            None => turn_filter_step(oop_to_act, actions@) is None,
        },
{
    if !oop_to_act {
        return None;
    }
    let check = position_of_kind(actions, ActionKind::Check);
    let bet = position_of_kind(actions, ActionKind::Bet);
    match (check, bet) {
        (Some(c), Some(b)) => Some((c, b)),
        _ => None,
    }
}

/// The complete scenarios of a list, with their places in it, in order.
pub open spec fn complete_with_places(all: Seq<DebugScenario>) -> Seq<(usize, DebugScenario)>
    decreases all.len(),
{
    if all.len() == 0 {
        seq![]
    } else {
        let before = complete_with_places(all.drop_last());
        if complete(all.last()) {
            before.push(((all.len() - 1) as usize, all.last()))
        } else {
            before
        }
    }
}

/// The first `limit` complete scenarios of a list, with their places in it (the scenarios a
/// debug run attempts).
pub fn first_complete_scenarios(all: &[DebugScenario], limit: usize) -> (r: Vec<(usize, DebugScenario)>)
    ensures
        r@ == complete_with_places(all@).take(
            if complete_with_places(all@).len() < limit { complete_with_places(all@).len() as int } else { limit as int },
        ),
{
    let mut r: Vec<(usize, DebugScenario)> = Vec::new();
    let n = all.len();
    let mut i: usize = 0;
    while i < n && r.len() < limit
        invariant
            i <= n,
            n == all@.len(),
            r@.len() <= limit,
            r@ == complete_with_places(all@.take(i as int)),
        decreases n - i,
    {
        assert(all@.take(i + 1).drop_last() == all@.take(i as int));
        assert(all@.take(i + 1).last() == all@[i as int]);
        if scenario_is_complete(&all[i]) {
            r.push((i, all[i]));
        }
        i = i + 1;
    }
    proof {
        lemma_complete_places_prefix(all@, i as int);
        if i == n {
            assert(all@.take(n as int) == all@);
        }
    }
    r
}

/// The complete scenarios of a prefix come first among those of the whole list.
proof fn lemma_complete_places_prefix(all: Seq<DebugScenario>, i: int)
    requires
        0 <= i <= all.len(),
    ensures
        complete_with_places(all.take(i)).len() <= complete_with_places(all).len(),
        complete_with_places(all.take(i)) == complete_with_places(all).take(
            complete_with_places(all.take(i)).len() as int,
        ),
    decreases all.len() - i,
{
    if i < all.len() {
        lemma_complete_places_prefix(all.drop_last(), i);
        assert(all.drop_last().take(i) == all.take(i));
        let p = complete_with_places(all.drop_last());
        let q = complete_with_places(all);
        assert(q == p || q == p.push(((all.len() - 1) as usize, all.last())));
        assert(p.take(complete_with_places(all.take(i)).len() as int) == q.take(complete_with_places(all.take(i)).len() as int));
    } else {
        assert(all.take(i) == all);
        assert(complete_with_places(all).take(complete_with_places(all).len() as int) == complete_with_places(all));
    }
}

/// The hero's and the villain's range texts of a scenario, or the message for the one that
/// is missing.
pub fn scenario_ranges(s: &DebugScenario) -> (r: Result<(&'static str, &'static str), String>)
    ensures
        match r {
            Ok((ip, oop)) => s.ip_range == Some(ip) && s.oop_range == Some(oop),
            Err(m) => (s.ip_range is None && m@ == "missing hero range for Spot "@ + decimal(
                s.spot_id as nat,
            )) || (s.ip_range is Some && s.oop_range is None && m@ == "missing villain range for Spot "@
                + decimal(s.spot_id as nat)),
        },
{
    let ip = match s.ip_range {
        Some(r) => r,
        None => {
            let mut v = chars_of("missing hero range for Spot ");
            extend_chars(&mut v, decimal_chars(s.spot_id as u64).as_slice());
            return Err(string_of(v.as_slice()));
        },
    };
    let oop = match s.oop_range {
        Some(r) => r,
        None => {
            let mut v = chars_of("missing villain range for Spot ");
            extend_chars(&mut v, decimal_chars(s.spot_id as u64).as_slice());
            return Err(string_of(v.as_slice()));
        },
    };
    Ok((ip, oop))
}

/// The flop sizing of a decision's bet size: `0.33` and `0.75` as themselves, anything else
/// as the 125% sizing (as `inspect_flop_branches` rebuilds it).
pub fn sizing_for_size(size: &str) -> (s: Sizing)
    ensures
        if size@ == "0.33"@ {
            s.tree_size@ == "33%"@ && s.csv_size@ == "0.33"@ && s.suffix@ == "33"@
        } else if size@ == "0.75"@ {
            s.tree_size@ == "75%"@ && s.csv_size@ == "0.75"@ && s.suffix@ == "75"@
        } else {
            s.tree_size@ == "125%"@ && s.csv_size@ == "1.25"@ && s.suffix@ == "125"@
        },
{
    if str_equals(size, "0.33") {
        Sizing { tree_size: "33%", csv_size: "0.33", suffix: "33" }
    } else if str_equals(size, "0.75") {
        Sizing { tree_size: "75%", csv_size: "0.75", suffix: "75" }
    } else {
        Sizing { tree_size: "125%", csv_size: "1.25", suffix: "125" }
    }
}

/// What reading a scenario's reference hand gives: the cards in its first two and its next two
/// bytes, or the first error.
pub open spec fn reference_result(hand: Seq<char>) -> Result<(u8, u8), Seq<char>> {
    let b = encode_utf8(hand);
    match card_result(board_piece(b, 0)) {
        Err(e) => Err(e),
        Ok(c0) => match card_result(board_piece(b, 1)) {
            Err(e) => Err(e),
            Ok(c1) => Ok((c0, c1)),
        },
    }
}

/// The reference hand is cut at bytes 2 and 4 as it is read; a cut past the end or inside a
/// character would panic. This holds when every cut made is a character boundary.
pub open spec fn reference_cuts_ok(hand: Seq<char>) -> bool {
    let b = encode_utf8(hand);
    &&& b.len() >= 2
    &&& (b.len() == 2 || !is_continuation_byte(b[2]))
    &&& (card_result(board_piece(b, 0)) is Err || (b.len() >= 4 && (b.len() == 4
        || !is_continuation_byte(b[4]))))
}

/// Reads the two cards of a reference hand such as `Kh4h` (as `export_debug_hand_row` does).
pub fn reference_hand_cards(hand: &str) -> (r: Result<(Card, Card), String>)
    requires
        reference_cuts_ok(hand@),
    ensures
        result_view(r) == reference_result(hand@),
        r matches Ok(c) ==> c.0 < 52 && c.1 < 52,
{
    let ghost b = hand.spec_bytes();
    let (first, rest) = hand.split_at(2);
    assert(first.spec_bytes() == b.subrange(0, 2));
    assert(first@ == board_piece(b, 0));
    let c0 = match parse_card(first) {
        Ok(c) => c,
        Err(e) => {
            return Err(e);
        },
    };
    assert(rest.spec_bytes() == b.subrange(2, b.len() as int));
    proof {
        if b.len() > 4 {
            assert(rest.spec_bytes()[2] == b[4]);
        }
    }
    let (second, _) = rest.split_at(2);
    assert(second.spec_bytes() == b.subrange(2, 4));
    assert(second@ == board_piece(b, 1));
    let c1 = match parse_card(second) {
        Ok(c) => c,
        Err(e) => {
            return Err(e);
        },
    };
    Ok((c0, c1))
}

/// The message when a scenario's reference hand is not among the hands:
/// `hero hand <hand> is not live/in range for Spot <spot> on <board>`.
pub open spec fn hand_missing_message(s: DebugScenario) -> Seq<char> {
    "hero hand "@ + s.reference_hand@ + " is not live/in range for Spot "@ + decimal(
        s.spot_id as nat,
    ) + " on "@ + s.board@
}

/// Finds the scenario's reference hand among the hands, in either card order (the lookup of
/// `export_debug_hand_row`).
pub fn reference_hand_index(hands: &[crate::cards::HandCombo], s: &DebugScenario) -> (r: Result<
    usize,
    String,
>)
    requires
        reference_cuts_ok(s.reference_hand@),
    ensures
        match reference_result(s.reference_hand@) {
            Err(e) => r matches Err(m) && m@ == e,
            Ok(target) => match r {
                Ok(i) => i < hands@.len() && hand_matches(hands@[i as int].cards, target)
                    && forall|k: int|
                    0 <= k < i ==> !hand_matches(#[trigger] hands@[k].cards, target),
                Err(m) => m@ == hand_missing_message(*s) && forall|k: int|
                    0 <= k < hands@.len() ==> !hand_matches(#[trigger] hands@[k].cards, target),
            },
        },
{
    let target = match reference_hand_cards(s.reference_hand) {
        Ok(t) => t,
        Err(e) => {
            return Err(e);
        },
    };
    match find_hand_index(hands, target) {
        Some(i) => Ok(i),
        None => {
            let mut v = chars_of("hero hand ");
            push_str(&mut v, s.reference_hand);
            push_str(&mut v, " is not live/in range for Spot ");
            extend_chars(&mut v, decimal_chars(s.spot_id as u64).as_slice());
            push_str(&mut v, " on ");
            push_str(&mut v, s.board);
            Err(string_of(v.as_slice()))
        },
    }
}

/// Whether a reference hand can be read without a bad cut.
pub fn reference_text_cuttable(hand: &str) -> (ok: bool)
    ensures
        ok == reference_cuts_ok(hand@),
{
    let bytes = hand.as_bytes();
    let n = bytes.len();
    if n < 2 {
        return false;
    }
    if n > 2 && 0x80 <= bytes[2] && bytes[2] <= 0xbf {
        return false;
    }
    let ghost b = hand.spec_bytes();
    proof {
        if n > 2 {
            assert(!is_continuation_byte(b[2]));
        }
    }
    let (first, _) = hand.split_at(2);
    assert(first.spec_bytes() == b.subrange(0, 2));
    assert(first@ == board_piece(b, 0));
    if parse_card(first).is_err() {
        return true;
    }
    n >= 4 && (n == 4 || !(0x80 <= bytes[4] && bytes[4] <= 0xbf))
}

/// The hands whose main action is a bet (`wanted` true) or is not (`wanted` false), in order.
pub open spec fn hands_by_bet(hands: Seq<crate::cards::HandCombo>, modals: Seq<ModalAction>, wanted: bool) -> Seq<crate::cards::HandCombo>
    decreases hands.len(),
{
    if hands.len() == 0 {
        seq![]
    } else {
        let rest = hands_by_bet(hands.drop_last(), modals, wanted);
        if (modals[hands.len() - 1] == ModalAction::Bet) == wanted {
            rest.push(hands.last())
        } else {
            rest
        }
    }
}

/// Splits the big blind's hands by their main turn action: the hands that mostly check (or do
/// anything but bet) are kept, the hands that mostly donk are removed; both in order (the split
/// of `filter_bb_turn_checks`). The `i`-th action belongs to the `i`-th hand.
pub fn split_by_modal(hands: Vec<crate::cards::HandCombo>, modals: &[ModalAction]) -> (r: (
    Vec<crate::cards::HandCombo>,
    Vec<crate::cards::HandCombo>,
))
    requires
        modals@.len() == hands@.len(),
    ensures
        r.0@ == hands_by_bet(hands@, modals@, false),
        r.1@ == hands_by_bet(hands@, modals@, true),
{
    let mut kept: Vec<crate::cards::HandCombo> = Vec::new();
    let mut removed: Vec<crate::cards::HandCombo> = Vec::new();
    let n = hands.len();
    let mut i: usize = 0;
    while i < n
        invariant
            i <= n,
            n == hands@.len(),
            modals@.len() == n,
            kept@ == hands_by_bet(hands@.take(i as int), modals@, false),
            removed@ == hands_by_bet(hands@.take(i as int), modals@, true),
        decreases n - i,
    {
        let hand = hands[i].clone();
        assert(hands@.take(i + 1).drop_last() == hands@.take(i as int));
        assert(hands@.take(i + 1).last() == hands@[i as int]);
        let is_bet = match modals[i] {
            ModalAction::Bet => true,
            _ => false,
        };
        if is_bet {
            removed.push(hand);
        } else {
            kept.push(hand);
        }
        i = i + 1;
    }
    assert(hands@.take(n as int) == hands@);
    (kept, removed)
}

/// The class label of two cards: a pair is its rank letter twice; two cards of different
/// ranks give the higher card's rank letter, the lower card's rank letter, then `s` exactly
/// when the two cards have the same suit (`card % 4`) and `o` otherwise. The order of the
/// two cards does not matter.
pub proof fn lemma_class_label_shape(cards: (Card, Card))
    ensures
        class_label(cards) == class_label((cards.1, cards.0)),
        cards.0 / 4 == cards.1 / 4 ==> class_label(cards) == seq![
            card_name(cards.0)[0],
            card_name(cards.0)[0],
        ],
        cards.0 / 4 > cards.1 / 4 ==> class_label(cards).len() == 3 && class_label(cards)[0]
            == card_name(cards.0)[0] && class_label(cards)[1] == card_name(cards.1)[0],
        cards.0 / 4 != cards.1 / 4 ==> class_label(cards).len() == 3 && (class_label(cards)[2]
            == 's' <==> cards.0 % 4 == cards.1 % 4) && (class_label(cards)[2] == 'o' <==> cards.0
            % 4 != cards.1 % 4),
{
}

} // verus!
