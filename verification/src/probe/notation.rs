//! Card, hand and board text as the stat probe reads it: rank and suit in either
//! case, and boards that may carry spaces, commas or dashes between their cards.
use crate::cards::{lemma_card_name_ascii, board_name, card_name, card_to_string, rank_of, rank_symbol, suit_of, suit_symbol, Card};
use crate::debug_run::notation::{result_view, strict_rank, strict_rank_of, strict_suit, strict_suit_of};
use crate::text::{
    lemma_ascii_slice,
    ascii_lower, ascii_upper, chars_of, is_whitespace, is_ws, lower_all, lower_chars, message,
    string_of, trim, trim_end, trim_start, trim_chars, upper_all,
};
use vstd::prelude::*;
use vstd::string::StringSliceAdditionalSpecFns;
use vstd::utf8::{decode_utf8, encode_utf8, is_ascii_chars, is_continuation_byte};

verus! {

broadcast use vstd::utf8::group_utf8_lib;

/// ASCII upper case of a byte.
pub open spec fn upper_byte(b: u8) -> u8 {
    if 0x61 <= b && b <= 0x7a {
        (b - 32) as u8
    } else {
        b
    }
}

/// ASCII lower case of a byte.
pub open spec fn lower_byte(b: u8) -> u8 {
    if 0x41 <= b && b <= 0x5a {
        (b + 32) as u8
    } else {
        b
    }
}

/// What `parse_card` gives for a text: two bytes, a rank in either case, then a suit in
/// either case; or the error message.
pub open spec fn loose_card_result(card: Seq<char>) -> Result<u8, Seq<char>> {
    let b = encode_utf8(card);
    if b.len() != 2 {
        Err("invalid card: "@ + card)
    } else {
        match strict_rank(upper_byte(b[0])) {
            None => Err("invalid card rank: "@ + card),
            Some(r) => match strict_suit(lower_byte(b[1])) {
                None => Err("invalid card suit: "@ + card),
                Some(s) => Ok((4 * r + s) as u8),
            },
        }
    }
}

/// Reads a card such as `Ah`, `ah` or `AH` (`parse_card`).
pub fn parse_card(card: &str) -> (res: Result<Card, String>)
    ensures
        result_view(res) == loose_card_result(card@),
        res matches Ok(c) ==> c < 52,
{
    let bytes = card.as_bytes();
    if bytes.len() != 2 {
        return Err(message("invalid card: ", card));
    }
    let b0 = bytes[0];
    let up = if 0x61 <= b0 && b0 <= 0x7a {
        b0 - 32
    } else {
        b0
    };
    let rank = match strict_rank_of(up) {
        Some(r) => r,
        None => {
            return Err(message("invalid card rank: ", card));
        },
    };
    let b1 = bytes[1];
    let low = if 0x41 <= b1 && b1 <= 0x5a {
        b1 + 32
    } else {
        b1
    };
    let suit = match strict_suit_of(low) {
        Some(s) => s,
        None => {
            return Err(message("invalid card suit: ", card));
        },
    };
    Ok(4 * rank + suit)
}

/// Characters left out of board text before it is read: whitespace, `,` and `-`.
pub open spec fn is_board_filler(c: char) -> bool {
    is_ws(c) || c == ',' || c == '-'
}

/// Board text without its filler characters.
pub open spec fn compact_board(s: Seq<char>) -> Seq<char>
    decreases s.len(),
{
    if s.len() == 0 {
        seq![]
    } else if is_board_filler(s.last()) {
        compact_board(s.drop_last())
    } else {
        compact_board(s.drop_last()).push(s.last())
    }
}

fn compact_chars(s: &[char]) -> (r: Vec<char>)
    ensures
        r@ == compact_board(s@),
{
    let mut r: Vec<char> = Vec::new();
    let n = s.len();
    let mut i: usize = 0;
    while i < n
        invariant
            i <= n,
            n == s@.len(),
            r@ == compact_board(s@.take(i as int)),
        decreases n - i,
    {
        let c = s[i];
        assert(s@.take(i + 1).drop_last() == s@.take(i as int));
        if !(is_whitespace(c) || c == ',' || c == '-') {
            r.push(c);
        }
        i = i + 1;
    }
    assert(s@.take(n as int) == s@);
    r
}

/// The text of the two bytes at byte `i`.
pub open spec fn piece_at(b: Seq<u8>, i: int) -> Seq<char> {
    decode_utf8(b.subrange(i, i + 2))
}

/// The cards read from the two-byte pieces at byte `i` and after, or the first error.
pub open spec fn pieces_from(b: Seq<u8>, i: int) -> Result<Seq<u8>, Seq<char>>
    decreases b.len() - i,
{
    if i < 0 || i + 2 > b.len() {
        Ok(seq![])
    } else {
        match loose_card_result(piece_at(b, i)) {
            Err(e) => Err(e),
            Ok(c) => match pieces_from(b, i + 2) {
                Ok(rest) => Ok(seq![c] + rest),
                Err(e) => Err(e),
            },
        }
    }
}

/// What `parse_board` gives: filler dropped, at least three cards in an even number of
/// bytes, every piece a card, and the first three distinct; the first three cards, or the
/// first error met.
pub open spec fn probe_board_result(board: Seq<char>) -> Result<Seq<u8>, Seq<char>> {
    let text = compact_board(board);
    let b = encode_utf8(text);
    if b.len() < 6 || b.len() % 2 != 0 {
        Err("board must contain at least 3 cards: "@ + text)
    } else {
        match pieces_from(b, 0) {
            Err(e) => Err(e),
            Ok(cards) => if cards[0] == cards[1] || cards[0] == cards[2] || cards[1] == cards[2] {
                Err("first 3 board cards contain duplicates: "@ + text)
            } else {
                Ok(cards.take(3))
            },
        }
    }
}

/// The cuts that reading pieces from byte `i` makes fall between characters, up to the
/// first piece that is not a card.
pub open spec fn cuts_from(b: Seq<u8>, i: int) -> bool
    decreases b.len() - i,
{
    if i < 0 || i + 2 >= b.len() {
        true
    } else {
        !is_continuation_byte(b[i + 2]) && (loose_card_result(piece_at(b, i)) is Err || cuts_from(
            b,
            i + 2,
        ))
    }
}

/// `parse_board` cuts the compacted text every two bytes; a cut inside a character would
/// panic. This holds when every cut it makes falls between characters.
pub open spec fn board_cuts_ok(board: Seq<char>) -> bool {
    let b = encode_utf8(compact_board(board));
    b.len() < 6 || b.len() % 2 != 0 || cuts_from(b, 0)
}

proof fn lemma_pieces_len(b: Seq<u8>, i: int)
    requires
        0 <= i <= b.len(),
        (b.len() - i) % 2 == 0,
        pieces_from(b, i) is Ok,
    ensures
        pieces_from(b, i)->Ok_0.len() == (b.len() - i) / 2,
    decreases b.len() - i,
{
    if i + 2 <= b.len() {
        lemma_pieces_len(b, i + 2);
    }
}

/// Whether `parse_board` can read this text without cutting a character.
pub fn board_text_cuttable(board: &str) -> (ok: bool)
    ensures
        ok == board_cuts_ok(board@),
{
    let chars = chars_of(board);
    let kept = compact_chars(chars.as_slice());
    let text = string_of(kept.as_slice());
    let s = text.as_str();
    let bytes = s.as_bytes();
    let n = bytes.len();
    let ghost b = encode_utf8(compact_board(board@));
    assert(bytes@ == b);
    if n < 6 || n % 2 != 0 {
        return true;
    }
    let mut rest: &str = s;
    let mut i: usize = 0;
    while i + 2 < n
        invariant
            i + 2 <= n,
            n == b.len(),
            n >= 6,
            b == encode_utf8(compact_board(board@)),
            bytes@ == b,
            i % 2 == 0,
            n % 2 == 0,
            rest.spec_bytes() == b.subrange(i as int, n as int),
            cuts_from(b, 0) == cuts_from(b, i as int),
        decreases n - i,
    {
        if 0x80 <= bytes[i + 2] && bytes[i + 2] <= 0xbf {
            assert(is_continuation_byte(b[i + 2]));
            assert(!cuts_from(b, i as int));
            return false;
        }
        assert(!is_continuation_byte(rest.spec_bytes()[2]));
        let (first, tail) = rest.split_at(2);
        assert(first.spec_bytes() == b.subrange(i as int, i + 2));
        assert(first@ == piece_at(b, i as int));
        if parse_card(first).is_err() {
            assert(loose_card_result(piece_at(b, i as int)) is Err);
            assert(cuts_from(b, i as int));
            return true;
        }
        assert(tail.spec_bytes() == b.subrange(i + 2, n as int));
        rest = tail;
        i = i + 2;
    }
    true
}

/// Reads the flop from board text such as `Ah7s4c`, `ah 7s 4c` or `Ah-7s-4c`: filler
/// dropped, every two-byte piece read as a card, the first three returned when distinct
/// (`parse_board`).
pub fn parse_board(board: &str) -> (res: Result<[Card; 3], String>)
    requires
        board_cuts_ok(board@),
    ensures
        match res {
            Ok(cards) => probe_board_result(board@) == Ok::<Seq<u8>, Seq<char>>(cards@),
            Err(m) => probe_board_result(board@) == Err::<Seq<u8>, Seq<char>>(m@),
        },
        res matches Ok(cards) ==> cards@[0] < 52 && cards@[1] < 52 && cards@[2] < 52,
{
    let chars = chars_of(board);
    let kept = compact_chars(chars.as_slice());
    let text = string_of(kept.as_slice());
    let s = text.as_str();
    let n = s.as_bytes().len();
    let ghost b = encode_utf8(compact_board(board@));
    assert(s.spec_bytes() == b);
    if n < 6 || n % 2 != 0 {
        return Err(message("board must contain at least 3 cards: ", s));
    }
    let mut all: Vec<Card> = Vec::new();
    let mut rest: &str = s;
    let mut i: usize = 0;
    while i < n
        invariant
            i <= n,
            n == b.len(),
            n >= 6,
            b == encode_utf8(compact_board(board@)),
            i % 2 == 0,
            n % 2 == 0,
            rest.spec_bytes() == b.subrange(i as int, n as int),
            i < n ==> cuts_from(b, i as int),
            all@.len() == i / 2,
            forall|k: int| 0 <= k < all@.len() ==> #[trigger] all@[k] < 52,
            pieces_from(b, 0) == match pieces_from(b, i as int) {
                Ok(r) => Ok::<Seq<u8>, Seq<char>>(all@ + r),
                Err(e) => Err::<Seq<u8>, Seq<char>>(e),
            },
        decreases n - i,
    {
        proof {
            if i + 2 < n {
                assert(!is_continuation_byte(rest.spec_bytes()[2]));
            }
        }
        let (first, tail) = rest.split_at(2);
        assert(first.spec_bytes() == b.subrange(i as int, i + 2));
        assert(first@ == piece_at(b, i as int));
        assert(tail.spec_bytes() == b.subrange(i + 2, n as int));
        let c = match parse_card(first) {
            Ok(c) => c,
            Err(e) => {
                return Err(e);
            },
        };
        proof {
            match pieces_from(b, i + 2) {
                Ok(r) => {
                    assert(all@ + (seq![c] + r) == all@.push(c) + r);
                },
                Err(e) => {},
            }
        }
        all.push(c);
        rest = tail;
        i = i + 2;
    }
    proof {
        assert(all@ + seq![] == all@);
        lemma_pieces_len(b, 0);
    }
    if all.len() < 3 {
        return Err(message("board must contain at least 3 cards: ", s));
    }
    if all[0] == all[1] || all[0] == all[2] || all[1] == all[2] {
        return Err(message("first 3 board cards contain duplicates: ", s));
    }
    let cards = [all[0], all[1], all[2]];
    assert(cards@ == all@.take(3));
    Ok(cards)
}

/// What `parse_hand` gives: the trimmed text of four bytes, two cards, distinct; or the error.
pub open spec fn hand_result(hand: Seq<char>) -> Result<(u8, u8), Seq<char>> {
    let h = trim(hand);
    let b = encode_utf8(h);
    if b.len() != 4 {
        Err("hand must contain exactly 2 cards: "@ + h)
    } else {
        match loose_card_result(piece_at(b, 0)) {
            Err(e) => Err(e),
            Ok(c0) => match loose_card_result(piece_at(b, 2)) {
                Err(e) => Err(e),
                Ok(c1) => if c0 == c1 {
                    Err("hand contains duplicate cards: "@ + h)
                } else {
                    Ok((c0, c1))
                },
            },
        }
    }
}

/// Hand text is cut after its second byte; a cut inside a character would panic. This holds
/// when that cut falls between characters.
pub open spec fn hand_cut_ok(hand: Seq<char>) -> bool {
    let b = encode_utf8(trim(hand));
    b.len() != 4 || !is_continuation_byte(b[2])
}

/// Whether hand text can be cut after its second byte.
pub fn hand_text_cuttable(hand: &str) -> (ok: bool)
    ensures
        ok == hand_cut_ok(hand@),
{
    let t = string_of(trim_chars(chars_of(hand).as_slice()).as_slice());
    let bytes = t.as_str().as_bytes();
    bytes.len() != 4 || !(0x80 <= bytes[2] && bytes[2] <= 0xbf)
}

/// The trimmed hand text split after its second byte.
fn split_hand(h: &str) -> (parts: (&str, &str))
    requires
        encode_utf8(h@).len() == 4,
        !is_continuation_byte(encode_utf8(h@)[2]),
    ensures
        parts.0@ == piece_at(encode_utf8(h@), 0),
        parts.1@ == piece_at(encode_utf8(h@), 2),
{
    let ghost b = h.spec_bytes();
    let (first, second) = h.split_at(2);
    assert(first.spec_bytes() == b.subrange(0, 2));
    assert(second.spec_bytes() == b.subrange(2, 4));
    (first, second)
}

/// Reads two hole cards such as `AhKd` or `ahkd`, surrounding whitespace ignored (`parse_hand`).
pub fn parse_hand(hand: &str) -> (res: Result<(Card, Card), String>)
    requires
        hand_cut_ok(hand@),
    ensures
        result_view(res) == hand_result(hand@),
        res matches Ok(cards) ==> cards.0 < 52 && cards.1 < 52,
{
    let t = string_of(trim_chars(chars_of(hand).as_slice()).as_slice());
    let h = t.as_str();
    if h.as_bytes().len() != 4 {
        return Err(message("hand must contain exactly 2 cards: ", h));
    }
    let (first, second) = split_hand(h);
    let c0 = match parse_card(first) {
        Ok(c) => c,
        Err(e) => {
            return Err(e);
        },
    };
    let c1 = match parse_card(second) {
        Ok(c) => c,
        Err(e) => {
            return Err(e);
        },
    };
    if c0 == c1 {
        return Err(message("hand contains duplicate cards: ", h));
    }
    Ok((c0, c1))
}

/// The key under which hands are compared: trimmed text of two cards becomes both names,
/// higher card first, lower-cased; any other text is just lower-cased.
pub open spec fn hand_key(hand: Seq<char>) -> Seq<char> {
    let h = trim(hand);
    let b = encode_utf8(h);
    if b.len() != 4 {
        lower_all(h)
    } else {
        match (loose_card_result(piece_at(b, 0)), loose_card_result(piece_at(b, 2))) {
            (Ok(a), Ok(c)) => lower_all(
                if a >= c {
                    card_name(a) + card_name(c)
                } else {
                    card_name(c) + card_name(a)
                },
            ),
            _ => lower_all(h),
        }
    }
}

/// The key of a hand text (`normalize_hand_label`), such as `ahkd` for `Kd Ah`... written
/// without the space.
pub fn normalize_hand_label(hand: &str) -> (key: String)
    requires
        hand_cut_ok(hand@),
    ensures
        key@ == hand_key(hand@),
{
    let tv = trim_chars(chars_of(hand).as_slice());
    let t = string_of(tv.as_slice());
    let h = t.as_str();
    if h.as_bytes().len() != 4 {
        return string_of(lower_chars(tv.as_slice()).as_slice());
    }
    let (first, second) = split_hand(h);
    let a = parse_card(first);
    let c = parse_card(second);
    match (a, c) {
        (Ok(a), Ok(c)) => {
            let (hi, lo) = if a >= c {
                (a, c)
            } else {
                (c, a)
            };
            let mut v = chars_of(card_to_string(hi).as_str());
            let w = chars_of(card_to_string(lo).as_str());
            v.push(w[0]);
            v.push(w[1]);
            assert(v@ == card_name(hi) + card_name(lo));
            string_of(lower_chars(v.as_slice()).as_slice())
        },
        _ => string_of(lower_chars(tv.as_slice()).as_slice()),
    }
}

proof fn lemma_name_ascii(card: Card)
    requires
        card < 52,
    ensures
        is_ascii_chars(card_name(card)),
        is_ascii_chars(lower_all(card_name(card))),
        is_ascii_chars(upper_all(card_name(card))),
        !is_board_filler(card_name(card)[0]),
        !is_board_filler(card_name(card)[1]),
{
    let n = card_name(card);
    lemma_card_name_ascii(card);
    assert(is_ascii_chars(lower_all(n)));
    assert(is_ascii_chars(upper_all(n)));
}

/// A card's name reads back as that card, as written and with either case applied to it.
pub proof fn lemma_card_name_any_case(card: Card)
    requires
        card < 52,
    ensures
        loose_card_result(card_name(card)) == Ok::<u8, Seq<char>>(card),
        loose_card_result(lower_all(card_name(card))) == Ok::<u8, Seq<char>>(card),
        loose_card_result(upper_all(card_name(card))) == Ok::<u8, Seq<char>>(card),
{
    lemma_name_ascii(card);
    let n = card_name(card);
    let lo = lower_all(n);
    let up = upper_all(n);
    lemma_ascii_slice(n, 0, 2);
    lemma_ascii_slice(lo, 0, 2);
    lemma_ascii_slice(up, 0, 2);
    assert(encode_utf8(n)[0] == n[0] as u8);
    assert(encode_utf8(n)[1] == n[1] as u8);
    assert(encode_utf8(lo)[0] == lo[0] as u8);
    assert(encode_utf8(lo)[1] == lo[1] as u8);
    assert(encode_utf8(up)[0] == up[0] as u8);
    assert(encode_utf8(up)[1] == up[1] as u8);
}

proof fn lemma_compact_plain(s: Seq<char>)
    requires
        forall|k: int| 0 <= k < s.len() ==> !is_board_filler(#[trigger] s[k]),
    ensures
        compact_board(s) == s,
    decreases s.len(),
{
    if s.len() > 0 {
        assert(!is_board_filler(s[s.len() - 1]));
        lemma_compact_plain(s.drop_last());
        assert(s.drop_last().push(s.last()) == s);
    }
}

proof fn lemma_loose_name(card: Card)
    requires
        card < 52,
    ensures
        loose_card_result(card_name(card)) == Ok::<u8, Seq<char>>(card),
{
    let n = card_name(card);
    assert(is_ascii_chars(n));
    lemma_ascii_slice(n, 0, 2);
    assert(encode_utf8(n)[0] == n[0] as u8);
    assert(encode_utf8(n)[1] == n[1] as u8);
}

proof fn lemma_three_pieces(b: Seq<u8>, c0: u8, c1: u8, c2: u8)
    requires
        b.len() == 6,
        loose_card_result(piece_at(b, 0)) == Ok::<u8, Seq<char>>(c0),
        loose_card_result(piece_at(b, 2)) == Ok::<u8, Seq<char>>(c1),
        loose_card_result(piece_at(b, 4)) == Ok::<u8, Seq<char>>(c2),
        !is_continuation_byte(b[2]),
        !is_continuation_byte(b[4]),
    ensures
        pieces_from(b, 0) == Ok::<Seq<u8>, Seq<char>>(seq![c0, c1, c2]),
        cuts_from(b, 0),
{
    assert(pieces_from(b, 6) == Ok::<Seq<u8>, Seq<char>>(seq![]));
    assert(seq![c2] + seq![] == seq![c2]);
    assert(pieces_from(b, 4) == Ok::<Seq<u8>, Seq<char>>(seq![c2]));
    assert(seq![c1] + seq![c2] == seq![c1, c2]);
    assert(pieces_from(b, 2) == Ok::<Seq<u8>, Seq<char>>(seq![c1, c2]));
    assert(seq![c0] + seq![c1, c2] == seq![c0, c1, c2]);
    assert(cuts_from(b, 4));
    assert(cuts_from(b, 2));
}

proof fn lemma_board_text(board: [Card; 3])
    requires
        board@[0] < 52,
        board@[1] < 52,
        board@[2] < 52,
    ensures
        compact_board(board_name(board)) == board_name(board),
        encode_utf8(board_name(board)).len() == 6,
        piece_at(encode_utf8(board_name(board)), 0) == card_name(board@[0]),
        piece_at(encode_utf8(board_name(board)), 2) == card_name(board@[1]),
        piece_at(encode_utf8(board_name(board)), 4) == card_name(board@[2]),
        !is_continuation_byte(encode_utf8(board_name(board))[2]),
        !is_continuation_byte(encode_utf8(board_name(board))[4]),
{
    let n0 = card_name(board@[0]);
    let n1 = card_name(board@[1]);
    let n2 = card_name(board@[2]);
    lemma_name_ascii(board@[0]);
    lemma_name_ascii(board@[1]);
    lemma_name_ascii(board@[2]);
    let t = board_name(board);
    assert(t == n0 + n1 + n2);
    assert(is_ascii_chars(t));
    assert forall|k: int| 0 <= k < t.len() implies !is_board_filler(#[trigger] t[k]) by {
        if k < 2 {
            assert(t[k] == n0[k]);
        } else if k < 4 {
            assert(t[k] == n1[k - 2]);
        } else {
            assert(t[k] == n2[k - 4]);
        }
    }
    lemma_compact_plain(t);
    lemma_ascii_slice(t, 0, 2);
    lemma_ascii_slice(t, 2, 4);
    lemma_ascii_slice(t, 4, 6);
    assert(t.subrange(0, 2) == n0);
    assert(t.subrange(2, 4) == n1);
    assert(t.subrange(4, 6) == n2);
    assert(encode_utf8(t)[2] == t[2] as u8);
    assert(encode_utf8(t)[4] == t[4] as u8);
}

/// A flop written by `board_to_string` can be read without a bad cut, and reads back as the
/// same three cards when they are distinct.
pub proof fn lemma_board_name_reads_back(board: [Card; 3])
    requires
        board@[0] < 52,
        board@[1] < 52,
        board@[2] < 52,
        board@[0] != board@[1],
        board@[0] != board@[2],
        board@[1] != board@[2],
    ensures
        board_cuts_ok(board_name(board)),
        probe_board_result(board_name(board)) == Ok::<Seq<u8>, Seq<char>>(board@),
{
    lemma_board_text(board);
    lemma_loose_name(board@[0]);
    lemma_loose_name(board@[1]);
    lemma_loose_name(board@[2]);
    let b = encode_utf8(board_name(board));
    lemma_three_pieces(b, board@[0], board@[1], board@[2]);
    assert(seq![board@[0], board@[1], board@[2]].take(3) == board@);
}

proof fn lemma_trim_plain(s: Seq<char>)
    requires
        s.len() > 0,
        !is_ws(s[0]),
        !is_ws(s.last()),
    ensures
        trim(s) == s,
{
    assert(trim_start(s) == s);
}

/// Facts about the text of two card names written back to back.
proof fn lemma_two_names(a: Card, c: Card)
    requires
        a < 52,
        c < 52,
    ensures
        trim(card_name(a) + card_name(c)) == card_name(a) + card_name(c),
        encode_utf8(card_name(a) + card_name(c)).len() == 4,
        !is_continuation_byte(encode_utf8(card_name(a) + card_name(c))[2]),
        piece_at(encode_utf8(card_name(a) + card_name(c)), 0) == card_name(a),
        piece_at(encode_utf8(card_name(a) + card_name(c)), 2) == card_name(c),
{
    let t = card_name(a) + card_name(c);
    lemma_name_ascii(a);
    lemma_name_ascii(c);
    assert(is_ascii_chars(t));
    assert(t[0] == card_name(a)[0]);
    assert(t.last() == card_name(c)[1]);
    lemma_trim_plain(t);
    lemma_ascii_slice(t, 0, 2);
    lemma_ascii_slice(t, 2, 4);
    assert(t.subrange(0, 2) == card_name(a));
    assert(t.subrange(2, 4) == card_name(c));
    assert(encode_utf8(t)[2] == t[2] as u8);
}

/// Two distinct cards written back to back, as `holes_to_strings` names a hand, read back as
/// that hand, and the text can be cut without panicking.
pub proof fn lemma_hole_name_reads_back(a: Card, c: Card)
    requires
        a < 52,
        c < 52,
        a != c,
    ensures
        hand_cut_ok(card_name(a) + card_name(c)),
        hand_result(card_name(a) + card_name(c)) == Ok::<(u8, u8), Seq<char>>((a, c)),
{
    lemma_two_names(a, c);
    lemma_loose_name(a);
    lemma_loose_name(c);
}

/// The key of a hand does not depend on the order in which its two cards are written.
pub proof fn lemma_hand_key_either_order(a: Card, c: Card)
    requires
        a < 52,
        c < 52,
    ensures
        hand_cut_ok(card_name(a) + card_name(c)),
        hand_key(card_name(a) + card_name(c)) == hand_key(card_name(c) + card_name(a)),
{
    lemma_two_names(a, c);
    lemma_two_names(c, a);
    lemma_loose_name(a);
    lemma_loose_name(c);
}

} // verus!
