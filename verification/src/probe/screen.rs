//! Screening a spot before it is solved: its board and hand are read, and its pot and
//! ranges looked up; the first thing missing decides why the spot is skipped.
use crate::cards::{board_name, board_to_string, hand_is_live, is_live, Card};
use crate::probe::notation::{
    board_cuts_ok, hand_cut_ok, hand_result, parse_board, parse_hand, probe_board_result,
};
use crate::probe::ranges::{pair_texts, RangePair};
use crate::probe::spots::{
    lookup_ranges, pot_config, postflop_pot_config, spot_ranges, spot_text, PostflopPotConfig,
    ProbeSpot,
};
use vstd::prelude::*;

verus! {

/// Why a spot is skipped, in the order the checks are made.
pub enum SkipReason {
    /// The board text is not a flop; with the reading error.
    InvalidBoard(String),
    /// The hand text is not two cards; with the reading error.
    InvalidHand(String),
    /// The hand holds a card of the flop.
    HandOnBoard,
    /// The spot names no hand.
    BlankHand,
    /// The pot type has no pot and stack.
    NoConfig,
    /// No range pair is known for the positions and pot type.
    NoRangePair,
}

/// Why a spot is skipped, with its messages taken as characters.
pub enum SkipText {
    InvalidBoard(Seq<char>),
    InvalidHand(Seq<char>),
    HandOnBoard,
    BlankHand,
    NoConfig,
    NoRangePair,
}

/// A spot ready to solve: its flop, the flop's name, its pot and stack, and its ranges.
pub struct ScreenedSpot {
    pub board: [Card; 3],
    pub flop_board: String,
    pub pot: PostflopPotConfig,
    pub ranges: RangePair,
}

/// What the screening of a spot gives, as plain values: the flop, the flop's name, the pot
/// and stack, and the texts of the range pair; or why it is skipped.
pub open spec fn screen_result(s: ProbeSpot) -> Result<
    (Seq<u8>, (i32, i32), (Seq<char>, Seq<char>, Seq<char>, Seq<char>)),
    SkipText,
> {
    match probe_board_result(s.board@) {
        Err(e) => Err(SkipText::InvalidBoard(e)),
        Ok(cards) => match s.hand {
            None => Err(SkipText::BlankHand),
            Some(h) => match hand_result(h@) {
                Err(e) => Err(SkipText::InvalidHand(e)),
                Ok(hole) => if !is_live(hole, cards) {
                    Err(SkipText::HandOnBoard)
                } else {
                    match pot_config(s.spot_type@) {
                        None => Err(SkipText::NoConfig),
                        Some(pot) => match spot_ranges(spot_text(s)) {
                            None => Err(SkipText::NoRangePair),
                            Some(r) => Ok((cards, pot, r)),
                        },
                    }
                },
            },
        },
    }
}

/// The screening result, taken as plain values.
pub open spec fn screened_view(r: Result<ScreenedSpot, SkipReason>) -> Result<
    (Seq<u8>, (i32, i32), (Seq<char>, Seq<char>, Seq<char>, Seq<char>)),
    SkipText,
> {
    match r {
        Ok(x) => Ok((x.board@, (x.pot.starting_pot_chips, x.pot.effective_stack_chips), pair_texts(x.ranges))),
        Err(SkipReason::InvalidBoard(m)) => Err(SkipText::InvalidBoard(m@)),
        Err(SkipReason::InvalidHand(m)) => Err(SkipText::InvalidHand(m@)),
        Err(SkipReason::HandOnBoard) => Err(SkipText::HandOnBoard),
        Err(SkipReason::BlankHand) => Err(SkipText::BlankHand),
        Err(SkipReason::NoConfig) => Err(SkipText::NoConfig),
        Err(SkipReason::NoRangePair) => Err(SkipText::NoRangePair),
    }
}

/// The texts a spot's board and hand are read from can be read without a bad cut: the board
/// always, the hand only when the board reads as a flop (else the hand is never read).
pub open spec fn spot_text_cuttable(s: ProbeSpot) -> bool {
    &&& board_cuts_ok(s.board@)
    &&& (probe_board_result(s.board@) is Ok ==> (s.hand matches Some(h) ==> hand_cut_ok(h@)))
}

/// Screens a spot before it is solved (the checks made for each input row): board, hand,
/// the hand against the flop, pot and stack, then the range pair.
pub fn screen_spot(input: &ProbeSpot) -> (r: Result<ScreenedSpot, SkipReason>)
    requires
        spot_text_cuttable(*input),
    ensures
        screened_view(r) == screen_result(*input),
        r matches Ok(x) ==> x.flop_board@ == board_name(x.board),
{
    let board = match parse_board(input.board.as_str()) {
        Ok(b) => b,
        Err(e) => {
            return Err(SkipReason::InvalidBoard(e));
        },
    };
    let flop_board = board_to_string(&board);
    match &input.hand {
        None => {
            return Err(SkipReason::BlankHand);
        },
        Some(h) => {
            let hole = match parse_hand(h.as_str()) {
                Ok(c) => c,
                Err(e) => {
                    return Err(SkipReason::InvalidHand(e));
                },
            };
            if !hand_is_live(hole, &board) {
                return Err(SkipReason::HandOnBoard);
            }
        },
    }
    let pot = match postflop_pot_config(input) {
        Some(p) => p,
        None => {
            return Err(SkipReason::NoConfig);
        },
    };
    let ranges = match lookup_ranges(input) {
        Some(r) => r,
        None => {
            return Err(SkipReason::NoRangePair);
        },
    };
    Ok(ScreenedSpot { board, flop_board, pot, ranges })
}

/// A spot whose flop reads and whose hand reads as two cards, one of which (either one) is a
/// flop card, is skipped because the hand holds a flop card.
pub proof fn lemma_hand_on_flop_is_skipped(s: ProbeSpot, cards: Seq<u8>, hole: (u8, u8))
    requires
        probe_board_result(s.board@) == Ok::<Seq<u8>, Seq<char>>(cards),
        s.hand matches Some(h) && hand_result(h@) == Ok::<(u8, u8), Seq<char>>(hole),
        cards.contains(hole.0) || cards.contains(hole.1),
    ensures
        screen_result(s) == Err::<(Seq<u8>, (i32, i32), (Seq<char>, Seq<char>, Seq<char>, Seq<char>)), SkipText>(SkipText::HandOnBoard),
{
}

/// A spot whose flop and hand read, with neither hand card on the flop, is not skipped for
/// its hand: what decides is its pot type and ranges.
pub proof fn lemma_hand_off_flop_passes(s: ProbeSpot, cards: Seq<u8>, hole: (u8, u8))
    requires
        probe_board_result(s.board@) == Ok::<Seq<u8>, Seq<char>>(cards),
        s.hand matches Some(h) && hand_result(h@) == Ok::<(u8, u8), Seq<char>>(hole),
        forall|i: int| 0 <= i < cards.len() ==> cards[i] != hole.0 && cards[i] != hole.1,
    ensures
        screen_result(s) != Err::<(Seq<u8>, (i32, i32), (Seq<char>, Seq<char>, Seq<char>, Seq<char>)), SkipText>(SkipText::HandOnBoard),
{
    if cards.contains(hole.0) {
        let i = choose|i: int| 0 <= i < cards.len() && cards[i] == hole.0;
    }
    if cards.contains(hole.1) {
        let i = choose|i: int| 0 <= i < cards.len() && cards[i] == hole.1;
    }
}

} // verus!
