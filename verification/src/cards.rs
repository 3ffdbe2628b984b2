//! Cards as the solver numbers them (`4 * rank + suit`, ranks 2..A as 0..12,
//! suits c, d, h, s as 0..3), their two-letter names, and hand combos.
use crate::text::{char_from_ascii, string_of};
use vstd::prelude::*;
use vstd::utf8::is_ascii_chars;

verus! {

/// A card: `4 * rank + suit`.
pub type Card = u8;

/// The rank index of a card.
pub open spec fn rank_of(card: Card) -> int {
    card as int / 4
}

/// The suit index of a card.
pub open spec fn suit_of(card: Card) -> int {
    card as int % 4
}

/// Rank of a card (`card / 4`).
pub fn rank(card: Card) -> (r: u8)
    ensures
        r == rank_of(card),
{
    card / 4
}

/// Suit of a card (`card % 4`).
pub fn suit(card: Card) -> (s: u8)
    ensures
        s == suit_of(card),
{
    card % 4
}

/// The symbol of a rank index: `2`..`9`, `T`, `J`, `Q`, `K`, `A`, or `?` outside 0..12.
pub open spec fn rank_symbol(r: int) -> char {
    if r == 0 {
        '2'
    } else if r == 1 {
        '3'
    } else if r == 2 {
        '4'
    } else if r == 3 {
        '5'
    } else if r == 4 {
        '6'
    } else if r == 5 {
        '7'
    } else if r == 6 {
        '8'
    } else if r == 7 {
        '9'
    } else if r == 8 {
        'T'
    } else if r == 9 {
        'J'
    } else if r == 10 {
        'Q'
    } else if r == 11 {
        'K'
    } else if r == 12 {
        'A'
    } else {
        '?'
    }
}

/// The symbol of a suit index: `c`, `d`, `h`, `s`, or `?` outside 0..3.
pub open spec fn suit_symbol(s: int) -> char {
    if s == 0 {
        'c'
    } else if s == 1 {
        'd'
    } else if s == 2 {
        'h'
    } else if s == 3 {
        's'
    } else {
        '?'
    }
}

/// The two-character name of a card, such as `Ah` or `7c`.
pub open spec fn card_name(card: Card) -> Seq<char> {
    seq![rank_symbol(rank_of(card)), suit_symbol(suit_of(card))]
}

/// The symbol of a rank index.
pub fn rank_char(rank: u8) -> (c: char)
    ensures
        c == rank_symbol(rank as int),
{
    match rank {
        0 => '2',
        1 => '3',
        2 => '4',
        3 => '5',
        4 => '6',
        5 => '7',
        6 => '8',
        7 => '9',
        8 => 'T',
        9 => 'J',
        10 => 'Q',
        11 => 'K',
        12 => 'A',
        _ => '?',
    }
}

/// The symbol of a suit index.
pub fn suit_char(suit: u8) -> (c: char)
    ensures
        c == suit_symbol(suit as int),
{
    match suit {
        0 => 'c',
        1 => 'd',
        2 => 'h',
        3 => 's',
        _ => '?',
    }
}

/// The name of a card (`card_to_string`).
pub fn card_to_string(card: Card) -> (s: String)
    ensures
        s@ == card_name(card),
{
    let mut v: Vec<char> = Vec::new();
    v.push(rank_char(rank(card)));
    v.push(suit_char(suit(card)));
    string_of(v.as_slice())
}

/// The name of a hole-card pair: both card names, first card first.
pub open spec fn hole_name(hole: (Card, Card)) -> Seq<char> {
    card_name(hole.0) + card_name(hole.1)
}

/// Names of hole-card pairs (`holes_to_strings`).
pub fn holes_to_strings(cards: &[(Card, Card)]) -> (names: Vec<String>)
    ensures
        names@.len() == cards@.len(),
        forall|i: int| 0 <= i < cards@.len() ==> #[trigger] names@[i]@ == hole_name(cards@[i]),
{
    let mut names: Vec<String> = Vec::new();
    let n = cards.len();
    let mut i: usize = 0;
    while i < n
        invariant
            i <= n,
            n == cards@.len(),
            names@.len() == i,
            forall|k: int| 0 <= k < i ==> #[trigger] names@[k]@ == hole_name(cards@[k]),
        decreases n - i,
    {
        let (a, b) = cards[i];
        let mut v: Vec<char> = Vec::new();
        v.push(rank_char(rank(a)));
        v.push(suit_char(suit(a)));
        v.push(rank_char(rank(b)));
        v.push(suit_char(suit(b)));
        assert(v@ == hole_name(cards@[i as int]));
        names.push(string_of(v.as_slice()));
        i = i + 1;
    }
    names
}

/// The name of a three-card board: the three card names in order.
pub open spec fn board_name(board: [Card; 3]) -> Seq<char> {
    card_name(board@[0]) + card_name(board@[1]) + card_name(board@[2])
}

/// Names the three board cards in order (`board_to_string`).
pub fn board_to_string(board: &[Card; 3]) -> (s: String)
    ensures
        s@ == board_name(*board),
{
    let mut v: Vec<char> = Vec::new();
    v.push(rank_char(rank(board[0])));
    v.push(suit_char(suit(board[0])));
    v.push(rank_char(rank(board[1])));
    v.push(suit_char(suit(board[1])));
    v.push(rank_char(rank(board[2])));
    v.push(suit_char(suit(board[2])));
    assert(v@ == board_name(*board));
    string_of(v.as_slice())
}

/// Whether either card of a combo is one of the hero's two cards.
pub open spec fn blocks(card_a: Card, card_b: Card, hero: (Card, Card)) -> bool {
    card_a == hero.0 || card_a == hero.1 || card_b == hero.0 || card_b == hero.1
}

/// Whether the hero's hand shares a card with the combo `card_a card_b`.
pub fn hero_blocks_combo(card_a: Card, card_b: Card, hero: (Card, Card)) -> (b: bool)
    ensures
        b == blocks(card_a, card_b, hero),
{
    card_a == hero.0 || card_a == hero.1 || card_b == hero.0 || card_b == hero.1
}

/// A two-card hand of a player with its name and its index in the player's hand list.
pub struct HandCombo {
    pub cards: (Card, Card),
    pub label: String,
    pub index: usize,
}

impl Clone for HandCombo {
    fn clone(&self) -> (c: Self)
        ensures
            c == *self,
    {
        HandCombo { cards: self.cards, label: self.label.clone(), index: self.index }
    }
}

/// The hands of a player: the `i`-th pair of cards, named by the `i`-th label, at index `i`.
pub fn player_hands(cards: &[(Card, Card)], labels: &[String]) -> (hands: Vec<HandCombo>)
    requires
        labels@.len() == cards@.len(),
    ensures
        hands@.len() == cards@.len(),
        forall|i: int|
            0 <= i < cards@.len() ==> (#[trigger] hands@[i]).cards == cards@[i] && hands@[i].label@
                == labels@[i]@ && hands@[i].index == i,
{
    let mut hands: Vec<HandCombo> = Vec::new();
    let n = cards.len();
    let mut i: usize = 0;
    while i < n
        invariant
            i <= n,
            n == cards@.len(),
            labels@.len() == n,
            hands@.len() == i,
            forall|k: int|
                0 <= k < i ==> (#[trigger] hands@[k]).cards == cards@[k] && hands@[k].label@
                    == labels@[k]@ && hands@[k].index == k,
        decreases n - i,
    {
        let label = labels[i].clone();
        hands.push(HandCombo { cards: cards[i], label, index: i });
        i = i + 1;
    }
    hands
}

/// Whether neither card of the hand lies on the board.
pub open spec fn is_live(cards: (Card, Card), board: Seq<Card>) -> bool {
    !board.contains(cards.0) && !board.contains(cards.1)
}

/// Whether the card is among the given cards.
pub fn board_contains(board: &[Card], card: Card) -> (b: bool)
    ensures
        b == board@.contains(card),
{
    let n = board.len();
    let mut i: usize = 0;
    while i < n
        invariant
            i <= n,
            n == board@.len(),
            forall|k: int| 0 <= k < i ==> board@[k] != card,
        decreases n - i,
    {
        if board[i] == card {
            return true;
        }
        i = i + 1;
    }
    false
}

/// Whether neither card of the hand lies on the board (the check before a hand is solved).
pub fn hand_is_live(cards: (Card, Card), board: &[Card]) -> (b: bool)
    ensures
        b == is_live(cards, board@),
{
    !board_contains(board, cards.0) && !board_contains(board, cards.1)
}

/// The hands among `hands` with no card on the board, in their order.
pub open spec fn live_hands(hands: Seq<HandCombo>, board: Seq<Card>) -> Seq<HandCombo>
    decreases hands.len(),
{
    if hands.len() == 0 {
        seq![]
    } else if is_live(hands.last().cards, board) {
        live_hands(hands.drop_last(), board).push(hands.last())
    } else {
        live_hands(hands.drop_last(), board)
    }
}

/// The hands with no card on the board, in the order given (`filter_dead_hands`).
pub fn filter_dead_hands(hands: &[HandCombo], board: &[Card]) -> (live: Vec<HandCombo>)
    ensures
        live@ == live_hands(hands@, board@),
{
    let mut live: Vec<HandCombo> = Vec::new();
    let n = hands.len();
    let mut i: usize = 0;
    while i < n
        invariant
            i <= n,
            n == hands@.len(),
            live@ == live_hands(hands@.take(i as int), board@),
        decreases n - i,
    {
        let h = &hands[i];
        assert(hands@.take(i + 1).drop_last() == hands@.take(i as int));
        assert(hands@.take(i + 1).last() == hands@[i as int]);
        if !board_contains(board, h.cards.0) && !board_contains(board, h.cards.1) {
            live.push(h.clone());
        }
        i = i + 1;
    }
    assert(hands@.take(n as int) == hands@);
    live
}

/// A card's name is ASCII text.
pub proof fn lemma_card_name_ascii(card: Card)
    requires
        card < 52,
    ensures
        is_ascii_chars(card_name(card)),
{
}

/// A combo is blocked by the hero's hand exactly when the two share a card: the set of the
/// combo's cards meets the set of the hero's. So the order of the combo's cards and of the
/// hero's cards does not matter.
pub proof fn lemma_blocks_means_shared_card(card_a: Card, card_b: Card, hero: (Card, Card))
    ensures
        blocks(card_a, card_b, hero) <==> !set![card_a, card_b].disjoint(set![hero.0, hero.1]),
        blocks(card_a, card_b, hero) == blocks(card_b, card_a, hero),
        blocks(card_a, card_b, hero) == blocks(card_a, card_b, (hero.1, hero.0)),
        blocks(hero.0, card_b, hero) && blocks(card_a, hero.1, hero),
{
    let c = set![card_a, card_b];
    let h = set![hero.0, hero.1];
    if blocks(card_a, card_b, hero) {
        if card_a == hero.0 || card_a == hero.1 {
            assert(c.contains(card_a) && h.contains(card_a));
        } else {
            assert(c.contains(card_b) && h.contains(card_b));
        }
    } else {
        assert forall|x: Card| !(c.contains(x) && h.contains(x)) by {}
    }
}

/// A hand is live exactly when neither of its cards lies anywhere on the board; the order
/// of its two cards does not matter.
pub proof fn lemma_live_means_no_board_card(cards: (Card, Card), board: Seq<Card>)
    ensures
        is_live(cards, board) <==> forall|i: int| 0 <= i < board.len() ==> board[i] != cards.0
            && board[i] != cards.1,
        is_live(cards, board) == is_live((cards.1, cards.0), board),
{
    if !is_live(cards, board) {
        if board.contains(cards.0) {
            let i = choose|i: int| 0 <= i < board.len() && board[i] == cards.0;
        } else {
            let i = choose|i: int| 0 <= i < board.len() && board[i] == cards.1;
        }
    } else {
        assert forall|i: int| 0 <= i < board.len() implies board[i] != cards.0 && board[i]
            != cards.1 by {
            assert(board.contains(board[i]));
        }
    }
}

/// The live hands are exactly the given hands with no card on the board: each kept hand is
/// one of the given hands and has neither card on the board, and each given hand with
/// neither card on the board is kept.
pub proof fn lemma_live_hands_keep_exactly_boardless(hands: Seq<HandCombo>, board: Seq<Card>)
    ensures
        forall|k: int|
            0 <= k < live_hands(hands, board).len() ==> hands.contains(
                #[trigger] live_hands(hands, board)[k],
            ) && forall|i: int| 0 <= i < board.len() ==> board[i] != live_hands(hands, board)[k].cards.0
                && board[i] != live_hands(hands, board)[k].cards.1,
        forall|k: int|
            0 <= k < hands.len() && (forall|i: int| 0 <= i < board.len() ==> board[i]
                != #[trigger] hands[k].cards.0 && board[i] != hands[k].cards.1) ==> live_hands(
                hands,
                board,
            ).contains(hands[k]),
    decreases hands.len(),
{
    if hands.len() > 0 {
        let front = hands.drop_last();
        let last = hands.last();
        lemma_live_hands_keep_exactly_boardless(front, board);
        lemma_live_means_no_board_card(last.cards, board);
        let lf = live_hands(front, board);
        let l = live_hands(hands, board);
        assert forall|k: int| 0 <= k < l.len() implies hands.contains(#[trigger] l[k]) && forall|
            i: int,
        | 0 <= i < board.len() ==> board[i] != l[k].cards.0 && board[i] != l[k].cards.1 by {
            if k < lf.len() {
                assert(l[k] == lf[k]);
                let j = choose|j: int| 0 <= j < front.len() && front[j] == lf[k];
                assert(hands[j] == front[j]);
            } else {
                assert(l[k] == last);
                assert(hands[hands.len() - 1] == last);
            }
        }
        assert forall|k: int|
            0 <= k < hands.len() && (forall|i: int| 0 <= i < board.len() ==> board[i]
                != #[trigger] hands[k].cards.0 && board[i] != hands[k].cards.1) implies l.contains(
            hands[k],
        ) by {
            if k < front.len() {
                assert(front[k] == hands[k]);
                assert(lf.contains(hands[k]));
                let j = choose|j: int| 0 <= j < lf.len() && lf[j] == hands[k];
                if is_live(last.cards, board) {
                    assert(l[j] == lf[j]);
                }
            } else {
                assert(hands[k] == last);
                assert(l[l.len() - 1] == last);
            }
        }
    }
}

} // verus!
