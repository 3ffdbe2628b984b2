//! Card and board text as the flop debug exporter reads it: exactly two bytes
//! per card, upper-case rank and lower-case suit.
use crate::cards::{board_name, card_name, lemma_card_name_ascii, rank_of, rank_symbol, suit_of, suit_symbol, Card};
use crate::text::{lemma_ascii_slice, message};
use vstd::prelude::*;
use vstd::string::StringSliceAdditionalSpecFns;
use vstd::utf8::{decode_utf8, encode_utf8, is_ascii_chars, is_continuation_byte};

verus! {

broadcast use vstd::utf8::group_utf8_lib;

/// The rank index named by an upper-case rank byte.
pub open spec fn strict_rank(b: u8) -> Option<u8> {
    if b == 0x32 {
        Some(0)
    } else if b == 0x33 {
        Some(1)
    } else if b == 0x34 {
        Some(2)
    } else if b == 0x35 {
        Some(3)
    } else if b == 0x36 {
        Some(4)
    } else if b == 0x37 {
        Some(5)
    } else if b == 0x38 {
        Some(6)
    } else if b == 0x39 {
        Some(7)
    } else if b == 0x54 {
        Some(8)
    } else if b == 0x4a {
        Some(9)
    } else if b == 0x51 {
        Some(10)
    } else if b == 0x4b {
        Some(11)
    } else if b == 0x41 {
        Some(12)
    } else {
        None
    }
}

/// The suit index named by a lower-case suit byte.
pub open spec fn strict_suit(b: u8) -> Option<u8> {
    if b == 0x63 {
        Some(0)
    } else if b == 0x64 {
        Some(1)
    } else if b == 0x68 {
        Some(2)
    } else if b == 0x73 {
        Some(3)
    } else {
        None
    }
}

/// What `parse_card` gives for a text: the card, or the error message.
pub open spec fn card_result(card: Seq<char>) -> Result<u8, Seq<char>> {
    let b = encode_utf8(card);
    if b.len() != 2 {
        Err("invalid card: "@ + card)
    } else {
        match strict_rank(b[0]) {
            None => Err("invalid card rank: "@ + card),
            Some(r) => match strict_suit(b[1]) {
                None => Err("invalid card suit: "@ + card),
                Some(s) => Ok((4 * r + s) as u8),
            },
        }
    }
}

/// A parse result with its message taken as characters.
pub open spec fn result_view<T>(r: Result<T, String>) -> Result<T, Seq<char>> {
    match r {
        Ok(v) => Ok(v),
        Err(m) => Err(m@),
    }
}

pub(crate) fn strict_rank_of(b: u8) -> (r: Option<u8>)
    ensures
        r == strict_rank(b),
{
    match b {
        0x32 => Some(0),
        0x33 => Some(1),
        0x34 => Some(2),
        0x35 => Some(3),
        0x36 => Some(4),
        0x37 => Some(5),
        0x38 => Some(6),
        0x39 => Some(7),
        0x54 => Some(8),
        0x4a => Some(9),
        0x51 => Some(10),
        0x4b => Some(11),
        0x41 => Some(12),
        _ => None,
    }
}

pub(crate) fn strict_suit_of(b: u8) -> (s: Option<u8>)
    ensures
        s == strict_suit(b),
{
    match b {
        0x63 => Some(0),
        0x64 => Some(1),
        0x68 => Some(2),
        0x73 => Some(3),
        _ => None,
    }
}

/// Reads a card such as `Ah` or `7c`: two bytes, rank `2`-`9`, `T`, `J`, `Q`, `K`, `A`,
/// then suit `c`, `d`, `h`, `s` (`parse_card`).
pub fn parse_card(card: &str) -> (res: Result<Card, String>)
    ensures
        result_view(res) == card_result(card@),
        res matches Ok(c) ==> c < 52,
{
    let bytes = card.as_bytes();
    if bytes.len() != 2 {
        return Err(message("invalid card: ", card));
    }
    let rank = match strict_rank_of(bytes[0]) {
        Some(r) => r,
        None => {
            return Err(message("invalid card rank: ", card));
        },
    };
    let suit = match strict_suit_of(bytes[1]) {
        Some(s) => s,
        None => {
            return Err(message("invalid card suit: ", card));
        },
    };
    Ok(4 * rank + suit)
}

/// The text of the `i`-th two-byte slice of a six-byte board.
pub open spec fn board_piece(b: Seq<u8>, i: int) -> Seq<char> {
    decode_utf8(b.subrange(2 * i, 2 * i + 2))
}

/// What `parse_board` gives: the three cards, or the first error met.
pub open spec fn board_result(board: Seq<char>) -> Result<Seq<u8>, Seq<char>> {
    let b = encode_utf8(board);
    if b.len() != 6 {
        Err("board must contain exactly 3 cards: "@ + board)
    } else {
        match card_result(board_piece(b, 0)) {
            Err(e) => Err(e),
            Ok(c0) => match card_result(board_piece(b, 1)) {
                Err(e) => Err(e),
                Ok(c1) => match card_result(board_piece(b, 2)) {
                    Err(e) => Err(e),
                    Ok(c2) => Ok(seq![c0, c1, c2]),
                },
            },
        }
    }
}

/// `parse_board` cuts the text at bytes 2 and 4 as it goes; a cut inside a
/// multi-byte character would panic. This holds when no such cut is made.
pub open spec fn board_cuts_ok(board: Seq<char>) -> bool {
    let b = encode_utf8(board);
    b.len() != 6 || (!is_continuation_byte(b[2]) && (card_result(board_piece(b, 0)) is Err
        || !is_continuation_byte(b[4])))
}

/// Whether `parse_board` can read this text without cutting a character.
pub fn board_text_cuttable(board: &str) -> (ok: bool)
    ensures
        ok == board_cuts_ok(board@),
{
    let bytes = board.as_bytes();
    if bytes.len() != 6 {
        return true;
    }
    if 0x80 <= bytes[2] && bytes[2] <= 0xbf {
        return false;
    }
    assert(!is_continuation_byte(board.spec_bytes()[2]));
    let (first, _) = board.split_at(2);
    proof {
        assert(first@ == board_piece(board.spec_bytes(), 0));
    }
    match parse_card(first) {
        Err(_) => true,
        Ok(_) => !(0x80 <= bytes[4] && bytes[4] <= 0xbf),
    }
}

/// Reads a board of exactly three cards written back to back, such as `Ah7s4c` (`parse_board`).
pub fn parse_board(board: &str) -> (res: Result<[Card; 3], String>)
    requires
        board_cuts_ok(board@),
    ensures
        match res {
            Ok(cards) => board_result(board@) == Ok::<Seq<u8>, Seq<char>>(cards@),
            Err(m) => board_result(board@) == Err::<Seq<u8>, Seq<char>>(m@),
        },
        res matches Ok(cards) ==> cards@[0] < 52 && cards@[1] < 52 && cards@[2] < 52,
{
    let bytes = board.as_bytes();
    if bytes.len() != 6 {
        return Err(message("board must contain exactly 3 cards: ", board));
    }
    let ghost b = board.spec_bytes();
    let (first, rest) = board.split_at(2);
    proof {
        assert(first@ == board_piece(b, 0));
        assert(rest.spec_bytes() == b.subrange(2, 6));
    }
    let c0 = match parse_card(first) {
        Ok(c) => c,
        Err(e) => {
            return Err(e);
        },
    };
    proof {
        assert(rest.spec_bytes()[2] == b[4]);
    }
    let (second, third) = rest.split_at(2);
    proof {
        assert(second.spec_bytes() == b.subrange(2, 4));
        assert(third.spec_bytes() == b.subrange(4, 6));
        assert(second@ == board_piece(b, 1));
        assert(third@ == board_piece(b, 2));
    }
    let c1 = match parse_card(second) {
        Ok(c) => c,
        Err(e) => {
            return Err(e);
        },
    };
    let c2 = match parse_card(third) {
        Ok(c) => c,
        Err(e) => {
            return Err(e);
        },
    };
    let cards = [c0, c1, c2];
    assert(cards@ == seq![c0, c1, c2]);
    Ok(cards)
}

proof fn lemma_name_bytes(card: Card)
    requires
        card < 52,
    ensures
        encode_utf8(card_name(card)) == seq![
            rank_symbol(rank_of(card)) as u8,
            suit_symbol(suit_of(card)) as u8,
        ],
{
    let n = card_name(card);
    assert(is_ascii_chars(n));
    assert(encode_utf8(n) =~= Seq::new(n.len(), |i: int| n[i] as u8));
}

/// Every card's name reads back as that card.
pub proof fn lemma_card_name_reads_back(card: Card)
    requires
        card < 52,
    ensures
        card_result(card_name(card)) == Ok::<u8, Seq<char>>(card),
{
    lemma_name_bytes(card);
}

/// A text that reads as a card is exactly that card's name.
pub proof fn lemma_card_text_is_name(text: Seq<char>)
    requires
        card_result(text) is Ok,
    ensures
        text == card_name(card_result(text)->Ok_0),
{
    let c = card_result(text)->Ok_0;
    let b = encode_utf8(text);
    assert(c < 52);
    lemma_name_bytes(c);
    assert(encode_utf8(card_name(c)) == b);
    assert(decode_utf8(encode_utf8(text)) == text);
    assert(decode_utf8(encode_utf8(card_name(c))) == card_name(c));
}

/// A flop written as three card names, as `board_to_string` writes it, can be read without a
/// bad cut and reads back as those three cards.
pub proof fn lemma_board_name_reads_back(board: [Card; 3])
    requires
        board@[0] < 52,
        board@[1] < 52,
        board@[2] < 52,
    ensures
        board_cuts_ok(board_name(board)),
        board_result(board_name(board)) == Ok::<Seq<u8>, Seq<char>>(board@),
{
    let n0 = card_name(board@[0]);
    let n1 = card_name(board@[1]);
    let n2 = card_name(board@[2]);
    lemma_card_name_ascii(board@[0]);
    lemma_card_name_ascii(board@[1]);
    lemma_card_name_ascii(board@[2]);
    let t = board_name(board);
    assert(t == n0 + n1 + n2);
    assert(is_ascii_chars(t));
    lemma_ascii_slice(t, 0, 2);
    lemma_ascii_slice(t, 2, 4);
    lemma_ascii_slice(t, 4, 6);
    assert(t.subrange(0, 2) == n0);
    assert(t.subrange(2, 4) == n1);
    assert(t.subrange(4, 6) == n2);
    let b = encode_utf8(t);
    assert(b[2] == t[2] as u8);
    assert(b[4] == t[4] as u8);
    lemma_card_name_reads_back(board@[0]);
    lemma_card_name_reads_back(board@[1]);
    lemma_card_name_reads_back(board@[2]);
    assert(board_piece(b, 0) == n0);
    assert(board_piece(b, 1) == n1);
    assert(board_piece(b, 2) == n2);
    assert(seq![board@[0], board@[1], board@[2]] == board@);
}

} // verus!
