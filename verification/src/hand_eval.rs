//! Five-card poker hand evaluation and the best five-card hand among more cards.
//!
//! A hand's value is `category << 20` with up to five rank indices packed below
//! it, four bits each, most significant first. Categories: 8 straight flush,
//! 7 quads, 6 full house, 5 flush, 4 straight, 3 trips, 2 two pair, 1 pair,
//! 0 high card.
use crate::cards::{blocks, hero_blocks_combo, rank, suit, rank_of, suit_of, Card, HandCombo};
use vstd::multiset::Multiset;
use vstd::prelude::*;

verus! {

broadcast use vstd::seq_lib::group_to_multiset_ensures;

/// Number of cards of rank `r` among `cards`.
pub open spec fn rank_count(cards: Seq<Card>, r: int) -> nat {
    let m = cards.to_multiset();
    m.count((4 * r) as u8) + m.count((4 * r + 1) as u8) + m.count((4 * r + 2) as u8) + m.count(
        (4 * r + 3) as u8,
    )
}

/// Number of cards of suit `s` with rank below `hi` among `cards`.
pub open spec fn suit_count_below(cards: Seq<Card>, s: int, hi: int) -> nat
    decreases hi,
{
    if hi <= 0 {
        0
    } else {
        suit_count_below(cards, s, hi - 1) + cards.to_multiset().count((4 * (hi - 1) + s) as u8)
    }
}

/// Number of cards of suit `s` among `cards`.
pub open spec fn suit_count(cards: Seq<Card>, s: int) -> nat {
    suit_count_below(cards, s, 13)
}

/// Whether some suit holds five of the cards.
pub open spec fn is_flush(cards: Seq<Card>) -> bool {
    exists|s: int| 0 <= s < 4 && suit_count(cards, s) == 5
}

/// The thirteen rank counts of the cards, as bytes.
pub open spec fn count_seq(cards: Seq<Card>) -> Seq<u8> {
    Seq::new(13, |r: int| rank_count(cards, r) as u8)
}

/// The top rank of the highest run of five present ranks ending at or below `high`.
pub open spec fn straight_at_or_below(counts: Seq<u8>, high: int) -> Option<u8>
    decreases high,
{
    if high < 4 {
        None
    } else if counts[high] > 0 && counts[high - 1] > 0 && counts[high - 2] > 0 && counts[high - 3]
        > 0 && counts[high - 4] > 0 {
        Some(high as u8)
    } else {
        straight_at_or_below(counts, high - 1)
    }
}

/// The top rank of the straight in the counts: the wheel `A2345` counts as top
/// rank `5` (index 3) and is looked for first; otherwise the highest run of five.
pub open spec fn straight_top(counts: Seq<u8>) -> Option<u8> {
    if counts[12] > 0 && counts[0] > 0 && counts[1] > 0 && counts[2] > 0 && counts[3] > 0 {
        Some(3)
    } else {
        straight_at_or_below(counts, 12)
    }
}

/// The pairs `(c, r)` for ranks `r` below `hi` held exactly `c` times, highest rank first.
pub open spec fn ranks_with_count(counts: Seq<u8>, c: int, hi: int) -> Seq<(u8, u8)>
    decreases hi,
{
    if hi <= 0 {
        seq![]
    } else if counts[hi - 1] == c {
        seq![(c as u8, (hi - 1) as u8)] + ranks_with_count(counts, c, hi - 1)
    } else {
        ranks_with_count(counts, c, hi - 1)
    }
}

/// Rank groups with multiplicity at most `c`, ordered by multiplicity, then rank, both descending.
pub open spec fn groups_upto(counts: Seq<u8>, c: int) -> Seq<(u8, u8)>
    decreases c,
{
    if c <= 0 {
        seq![]
    } else {
        ranks_with_count(counts, c, 13) + groups_upto(counts, c - 1)
    }
}

/// Every rank present (multiplicity 1 to 5) as `(multiplicity, rank)`,
/// ordered by multiplicity then rank, both descending.
pub open spec fn rank_groups(counts: Seq<u8>) -> Seq<(u8, u8)> {
    groups_upto(counts, 5)
}

/// The ranks present below `hi`, highest first.
pub open spec fn ranks_present_below(counts: Seq<u8>, hi: int) -> Seq<u8>
    decreases hi,
{
    if hi <= 0 {
        seq![]
    } else if counts[hi - 1] > 0 {
        seq![(hi - 1) as u8] + ranks_present_below(counts, hi - 1)
    } else {
        ranks_present_below(counts, hi - 1)
    }
}

/// The ranks present, highest first.
pub open spec fn ranks_present(counts: Seq<u8>) -> Seq<u8> {
    ranks_present_below(counts, 13)
}

/// `category << 20` with the first `n` ranks or-ed in at shifts 16, 12, 8, 4, 0.
pub open spec fn encode_prefix(category: u8, ranks: Seq<u8>, n: int) -> u32
    decreases n,
{
    if n <= 0 {
        (category as u32) << 20u32
    } else {
        encode_prefix(category, ranks, n - 1) | ((ranks[n - 1] as u32) << ((4 * (4 - (n - 1)))
            as u32))
    }
}

/// The packed value of a category and its deciding ranks.
pub open spec fn encoding(category: u8, ranks: Seq<u8>) -> u32 {
    encode_prefix(category, ranks, ranks.len() as int)
}

/// The category of five cards: 8 straight flush, 7 four of a kind, 6 full house,
/// 5 flush, 4 straight, 3 three of a kind, 2 two pair, 1 one pair, 0 high card.
pub open spec fn hand_category(cards: Seq<Card>) -> u8 {
    let counts = count_seq(cards);
    let g = rank_groups(counts);
    let flush = is_flush(cards);
    let st = straight_top(counts);
    if flush && st is Some {
        8
    } else if g.len() == 2 && g[0].0 == 4 && g[1].0 == 1 {
        7
    } else if g.len() == 2 && g[0].0 == 3 && g[1].0 == 2 {
        6
    } else if flush {
        5
    } else if st is Some {
        4
    } else if g.len() == 3 && g[0].0 == 3 && g[1].0 == 1 && g[2].0 == 1 {
        3
    } else if g.len() == 3 && g[0].0 == 2 && g[1].0 == 2 && g[2].0 == 1 {
        2
    } else if g.len() == 4 && g[0].0 == 2 && g[1].0 == 1 && g[2].0 == 1 && g[3].0 == 1 {
        1
    } else {
        0
    }
}

/// The ranks that decide between two hands of the same category, most important first:
/// the straight's top, the group ranks by multiplicity, or all ranks present.
pub open spec fn deciding_ranks(cards: Seq<Card>) -> Seq<u8> {
    let counts = count_seq(cards);
    let g = rank_groups(counts);
    let st = straight_top(counts);
    let cat = hand_category(cards);
    if cat == 8 || cat == 4 {
        seq![st->0]
    } else if cat == 7 || cat == 6 {
        seq![g[0].1, g[1].1]
    } else if cat == 3 || cat == 2 {
        seq![g[0].1, g[1].1, g[2].1]
    } else if cat == 1 {
        seq![g[0].1, g[1].1, g[2].1, g[3].1]
    } else {
        ranks_present(counts)
    }
}

/// The value of five cards: their category above their deciding ranks.
pub open spec fn hand_value(cards: Seq<Card>) -> u32 {
    encoding(hand_category(cards), deciding_ranks(cards))
}

/// Every card is one of the 52.
pub open spec fn valid_cards(cards: Seq<Card>) -> bool {
    forall|i: int| 0 <= i < cards.len() ==> #[trigger] cards[i] < 52
}

/// Packs a category and up to five ranks (`encode_rank`).
pub fn encode_rank(category: u8, ranks: &[u8]) -> (value: u32)
    requires
        ranks@.len() <= 5,
    ensures
        value == encoding(category, ranks@),
{
    let mut value: u32 = (category as u32) << 20u32;
    let n = ranks.len();
    let mut index: usize = 0;
    while index < n
        invariant
            index <= n,
            n == ranks@.len(),
            n <= 5,
            value == encode_prefix(category, ranks@, index as int),
        decreases n - index,
    {
        let shift: u32 = (4 * (4 - index)) as u32;
        value = value | ((ranks[index] as u32) << shift);
        index = index + 1;
    }
    value
}

proof fn lemma_rank_count_push(cards: Seq<Card>, c: Card, r: int)
    requires
        c < 52,
        0 <= r < 13,
    ensures
        rank_count(cards.push(c), r) == rank_count(cards, r) + (if rank_of(c) == r {
            1nat
        } else {
            0nat
        }),
{
    assert(cards.push(c).to_multiset() =~= cards.to_multiset().insert(c));
}

proof fn lemma_suit_count_push(cards: Seq<Card>, c: Card, s: int, hi: int)
    requires
        c < 52,
        0 <= s < 4,
        0 <= hi <= 13,
    ensures
        suit_count_below(cards.push(c), s, hi) == suit_count_below(cards, s, hi) + (if suit_of(c)
            == s && rank_of(c) < hi {
            1nat
        } else {
            0nat
        }),
    decreases hi,
{
    assert(cards.push(c).to_multiset() =~= cards.to_multiset().insert(c));
    if hi > 0 {
        lemma_suit_count_push(cards, c, s, hi - 1);
    }
}

proof fn lemma_counts_empty(cards: Seq<Card>)
    requires
        cards.len() == 0,
    ensures
        forall|r: int| #[trigger] rank_count(cards, r) == 0,
        forall|s: int, hi: int| #[trigger] suit_count_below(cards, s, hi) == 0,
{
    assert(cards.to_multiset() =~= Multiset::empty());
    assert forall|s: int, hi: int| #[trigger] suit_count_below(cards, s, hi) == 0 by {
        lemma_suit_count_empty(cards, s, hi);
    }
}

proof fn lemma_suit_count_empty(cards: Seq<Card>, s: int, hi: int)
    requires
        cards.to_multiset() =~= Multiset::empty(),
    ensures
        suit_count_below(cards, s, hi) == 0,
    decreases hi,
{
    if hi > 0 {
        lemma_suit_count_empty(cards, s, hi - 1);
    }
}

/// Rank counts and suit counts of five cards.
fn count_cards(cards: &[Card; 5]) -> (res: ([u8; 13], [u8; 4]))
    requires
        valid_cards(cards@),
    ensures
        forall|r: int| 0 <= r < 13 ==> res.0@[r] == rank_count(cards@, r),
        forall|s: int| 0 <= s < 4 ==> res.1@[s] == suit_count(cards@, s),
        sum_counts(res.0@, 13) == 5,
{
    let mut rank_counts = [0u8; 13];
    let mut suit_counts = [0u8; 4];
    let mut i: usize = 0;
    proof {
        lemma_counts_empty(cards@.take(0));
        lemma_sum_counts_zero(rank_counts@, 13);
    }
    while i < 5
        invariant
            i <= 5,
            valid_cards(cards@),
            forall|r: int| 0 <= r < 13 ==> rank_counts@[r] == rank_count(cards@.take(i as int), r),
            forall|r: int| 0 <= r < 13 ==> rank_counts@[r] <= i,
            forall|s: int| 0 <= s < 4 ==> suit_counts@[s] == suit_count(cards@.take(i as int), s),
            forall|s: int| 0 <= s < 4 ==> suit_counts@[s] <= i,
            sum_counts(rank_counts@, 13) == i,
        decreases 5 - i,
    {
        let card = cards[i];
        assert(card < 52);
        let r = rank(card) as usize;
        let s = suit(card) as usize;
        proof {
            assert(cards@.take(i + 1) == cards@.take(i as int).push(card));
            assert forall|rr: int| 0 <= rr < 13 implies rank_count(cards@.take(i + 1), rr)
                == rank_count(cards@.take(i as int), rr) + (if rank_of(card) == rr {
                1nat
            } else {
                0nat
            }) by {
                lemma_rank_count_push(cards@.take(i as int), card, rr);
            }
            assert forall|ss: int| 0 <= ss < 4 implies suit_count(cards@.take(i + 1), ss)
                == suit_count(cards@.take(i as int), ss) + (if suit_of(card) == ss {
                1nat
            } else {
                0nat
            }) by {
                lemma_suit_count_push(cards@.take(i as int), card, ss, 13);
            }
        }
        proof {
            lemma_sum_counts_update(rank_counts@, r as int, (rank_counts@[r as int] + 1) as u8, 13);
        }
        rank_counts[r] = rank_counts[r] + 1;
        suit_counts[s] = suit_counts[s] + 1;
        i = i + 1;
    }
    assert(cards@.take(5) == cards@);
    (rank_counts, suit_counts)
}

/// The top rank of the straight among the rank counts (`straight_high`).
pub fn straight_high(rank_counts: &[u8; 13]) -> (top: Option<u8>)
    ensures
        top == straight_top(rank_counts@),
{
    if rank_counts[12] > 0 && rank_counts[0] > 0 && rank_counts[1] > 0 && rank_counts[2] > 0
        && rank_counts[3] > 0 {
        return Some(3);
    }
    let mut high: usize = 12;
    assert(straight_top(rank_counts@) == straight_at_or_below(rank_counts@, 12));
    while high >= 4
        invariant
            3 <= high <= 12,
            straight_top(rank_counts@) == straight_at_or_below(rank_counts@, high as int),
        decreases high,
    {
        if rank_counts[high] > 0 && rank_counts[high - 1] > 0 && rank_counts[high - 2] > 0
            && rank_counts[high - 3] > 0 && rank_counts[high - 4] > 0 {
            assert(straight_at_or_below(rank_counts@, high as int) == Some(high as u8));
            return Some(high as u8);
        }
        assert(straight_at_or_below(rank_counts@, high as int) == straight_at_or_below(
            rank_counts@,
            high - 1,
        ));
        high = high - 1;
    }
    None
}

/// The ranks with a positive count, highest first (`ranks_desc`).
pub fn ranks_desc(rank_counts: &[u8; 13]) -> (ranks: Vec<u8>)
    ensures
        ranks@ == ranks_present(rank_counts@),
{
    let mut ranks: Vec<u8> = Vec::new();
    let mut hi: usize = 13;
    while hi > 0
        invariant
            hi <= 13,
            ranks@ + ranks_present_below(rank_counts@, hi as int) == ranks_present(rank_counts@),
        decreases hi,
    {
        let r = hi - 1;
        if rank_counts[r] > 0 {
            ranks.push(r as u8);
            assert(ranks_present_below(rank_counts@, hi as int) == seq![r as u8]
                + ranks_present_below(rank_counts@, r as int));
        }
        hi = hi - 1;
    }
    assert(ranks@ + seq![] == ranks@);
    ranks
}

/// The rank groups, ordered by multiplicity then rank, both descending.
fn group_ranks(rank_counts: &[u8; 13]) -> (groups: Vec<(u8, u8)>)
    ensures
        groups@ == rank_groups(rank_counts@),
{
    let mut groups: Vec<(u8, u8)> = Vec::new();
    let mut c: u8 = 5;
    while c > 0
        invariant
            c <= 5,
            groups@ + groups_upto(rank_counts@, c as int) == rank_groups(rank_counts@),
        decreases c,
    {
        let ghost before = groups@;
        let mut hi: usize = 13;
        while hi > 0
            invariant
                hi <= 13,
                1 <= c <= 5,
                groups@ + ranks_with_count(rank_counts@, c as int, hi as int) == before
                    + ranks_with_count(rank_counts@, c as int, 13),
            decreases hi,
        {
            let r = hi - 1;
            if rank_counts[r] == c {
                groups.push((c, r as u8));
                assert(ranks_with_count(rank_counts@, c as int, hi as int) == seq![(c, r as u8)]
                    + ranks_with_count(rank_counts@, c as int, r as int));
            }
            hi = hi - 1;
        }
        assert(groups_upto(rank_counts@, c as int) == ranks_with_count(rank_counts@, c as int, 13)
            + groups_upto(rank_counts@, c - 1));
        c = c - 1;
    }
    groups
}

/// The value of five cards (`evaluate_5`).
pub fn evaluate_5(cards: &[Card; 5]) -> (value: u32)
    requires
        valid_cards(cards@),
    ensures
        value == hand_value(cards@),
{
    let (rank_counts, suit_counts) = count_cards(cards);
    assert(rank_counts@ =~= count_seq(cards@));
    let flush = suit_counts[0] == 5 || suit_counts[1] == 5 || suit_counts[2] == 5
        || suit_counts[3] == 5;
    proof {
        if flush {
            if suit_counts[0] == 5 {
                assert(suit_count(cards@, 0) == 5);
            } else if suit_counts[1] == 5 {
                assert(suit_count(cards@, 1) == 5);
            } else if suit_counts[2] == 5 {
                assert(suit_count(cards@, 2) == 5);
            } else {
                assert(suit_count(cards@, 3) == 5);
            }
        } else {
            assert forall|s: int| 0 <= s < 4 implies suit_count(cards@, s) != 5 by {
                assert(suit_counts@[s] == suit_count(cards@, s));
            }
        }
    }
    assert(is_flush(cards@) == flush);
    let top = straight_high(&rank_counts);
    let groups = group_ranks(&rank_counts);
    proof {
        lemma_ranks_present_len(rank_counts@, 13);
    }
    if flush {
        if let Some(high) = top {
            return encode_rank(8, &one_rank(high));
        }
    }
    let n = groups.len();
    if n == 2 && groups[0].0 == 4 && groups[1].0 == 1 {
        encode_rank(7, &two_ranks(groups[0].1, groups[1].1))
    } else if n == 2 && groups[0].0 == 3 && groups[1].0 == 2 {
        encode_rank(6, &two_ranks(groups[0].1, groups[1].1))
    } else if flush {
        encode_rank(5, &ranks_desc(&rank_counts))
    } else if let Some(high) = top {
        encode_rank(4, &one_rank(high))
    } else if n == 3 && groups[0].0 == 3 && groups[1].0 == 1 && groups[2].0 == 1 {
        encode_rank(3, &three_ranks(groups[0].1, groups[1].1, groups[2].1))
    } else if n == 3 && groups[0].0 == 2 && groups[1].0 == 2 && groups[2].0 == 1 {
        encode_rank(2, &three_ranks(groups[0].1, groups[1].1, groups[2].1))
    } else if n == 4 && groups[0].0 == 2 && groups[1].0 == 1 && groups[2].0 == 1 && groups[3].0
        == 1 {
        encode_rank(1, &four_ranks(groups[0].1, groups[1].1, groups[2].1, groups[3].1))
    } else {
        encode_rank(0, &ranks_desc(&rank_counts))
    }
}

fn one_rank(a: u8) -> (v: Vec<u8>)
    ensures
        v@ == seq![a],
{
    let mut v = Vec::new();
    v.push(a);
    v
}

fn two_ranks(a: u8, b: u8) -> (v: Vec<u8>)
    ensures
        v@ == seq![a, b],
{
    let mut v = Vec::new();
    v.push(a);
    v.push(b);
    v
}

fn three_ranks(a: u8, b: u8, c: u8) -> (v: Vec<u8>)
    ensures
        v@ == seq![a, b, c],
{
    let mut v = Vec::new();
    v.push(a);
    v.push(b);
    v.push(c);
    v
}

fn four_ranks(a: u8, b: u8, c: u8, d: u8) -> (v: Vec<u8>)
    ensures
        v@ == seq![a, b, c, d],
{
    let mut v = Vec::new();
    v.push(a);
    v.push(b);
    v.push(c);
    v.push(d);
    v
}

/// Sum of the first `hi` counts.
pub open spec fn sum_counts(counts: Seq<u8>, hi: int) -> int
    decreases hi,
{
    if hi <= 0 {
        0
    } else {
        sum_counts(counts, hi - 1) + counts[hi - 1]
    }
}

proof fn lemma_ranks_present_len(counts: Seq<u8>, hi: int)
    requires
        0 <= hi <= 13,
    ensures
        ranks_present_below(counts, hi).len() <= sum_counts(counts, hi),
    decreases hi,
{
    if hi > 0 {
        lemma_ranks_present_len(counts, hi - 1);
    }
}

proof fn lemma_sum_counts_update(counts: Seq<u8>, r: int, v: u8, hi: int)
    requires
        0 <= r < counts.len(),
        0 <= hi <= counts.len(),
    ensures
        sum_counts(counts.update(r, v), hi) == sum_counts(counts, hi) + (if r < hi {
            v - counts[r]
        } else {
            0
        }),
    decreases hi,
{
    if hi > 0 {
        lemma_sum_counts_update(counts, r, v, hi - 1);
    }
}

proof fn lemma_sum_counts_zero(counts: Seq<u8>, hi: int)
    requires
        0 <= hi <= counts.len(),
        forall|k: int| 0 <= k < counts.len() ==> counts[k] == 0,
    ensures
        sum_counts(counts, hi) == 0,
    decreases hi,
{
    if hi > 0 {
        lemma_sum_counts_zero(counts, hi - 1);
    }
}

/// The value of the five cards at indices `a < b < c < d < e`.
pub open spec fn combo_value(cards: Seq<Card>, a: int, b: int, c: int, d: int, e: int) -> u32 {
    hand_value(seq![cards[a], cards[b], cards[c], cards[d], cards[e]])
}

/// The larger of two values.
pub open spec fn max_value(x: u32, y: u32) -> u32 {
    if x >= y {
        x
    } else {
        y
    }
}

/// Best value over fifth indices `e` in `d + 1 .. hi` (0 when there is none).
pub open spec fn best_e(cards: Seq<Card>, a: int, b: int, c: int, d: int, hi: int) -> u32
    decreases hi - d,
{
    if hi <= d + 1 {
        0
    } else {
        max_value(best_e(cards, a, b, c, d, hi - 1), combo_value(cards, a, b, c, d, hi - 1))
    }
}

/// Best value over fourth indices `d` in `c + 1 .. hi`.
pub open spec fn best_d(cards: Seq<Card>, a: int, b: int, c: int, hi: int) -> u32
    decreases hi - c,
{
    if hi <= c + 1 {
        0
    } else {
        max_value(best_d(cards, a, b, c, hi - 1), best_e(cards, a, b, c, hi - 1, cards.len() as int))
    }
}

/// Best value over third indices `c` in `b + 1 .. hi`.
pub open spec fn best_c(cards: Seq<Card>, a: int, b: int, hi: int) -> u32
    decreases hi - b,
{
    if hi <= b + 1 {
        0
    } else {
        max_value(best_c(cards, a, b, hi - 1), best_d(cards, a, b, hi - 1, cards.len() - 1))
    }
}

/// Best value over second indices `b` in `a + 1 .. hi`.
pub open spec fn best_b(cards: Seq<Card>, a: int, hi: int) -> u32
    decreases hi - a,
{
    if hi <= a + 1 {
        0
    } else {
        max_value(best_b(cards, a, hi - 1), best_c(cards, a, hi - 1, cards.len() - 2))
    }
}

/// Best value over first indices `a` in `0 .. hi`.
pub open spec fn best_a(cards: Seq<Card>, hi: int) -> u32
    decreases hi,
{
    if hi <= 0 {
        0
    } else {
        max_value(best_a(cards, hi - 1), best_b(cards, hi - 1, cards.len() - 3))
    }
}

/// The best value of any five of the cards, taken in index order (0 when fewer than five).
pub open spec fn best_hand_value(cards: Seq<Card>) -> u32 {
    best_a(cards, cards.len() - 4)
}

/// The best value of five cards chosen among `cards` (`evaluate_best_from_cards`).
pub fn evaluate_best_from_cards(cards: &[Card]) -> (best: u32)
    requires
        cards@.len() >= 4,
        valid_cards(cards@),
    ensures
        best == best_hand_value(cards@),
{
    let n = cards.len();
    let mut best: u32 = 0;
    let mut a: usize = 0;
    while a < n - 4
        invariant
            n == cards@.len(),
            n >= 4,
            valid_cards(cards@),
            a <= n - 4,
            best == best_a(cards@, a as int),
        decreases n - 4 - a,
    {
        let mut b: usize = a + 1;
        while b < n - 3
            invariant
                n == cards@.len(),
                n >= 4,
                valid_cards(cards@),
                a < n - 4,
                a + 1 <= b <= n - 3,
                best == max_value(best_a(cards@, a as int), best_b(cards@, a as int, b as int)),
            decreases n - 3 - b,
        {
            let mut c: usize = b + 1;
            while c < n - 2
                invariant
                    n == cards@.len(),
                    n >= 4,
                    valid_cards(cards@),
                    a < b < n - 3,
                    b + 1 <= c <= n - 2,
                    best == max_value(
                        max_value(best_a(cards@, a as int), best_b(cards@, a as int, b as int)),
                        best_c(cards@, a as int, b as int, c as int),
                    ),
                decreases n - 2 - c,
            {
                let mut d: usize = c + 1;
                while d < n - 1
                    invariant
                        n == cards@.len(),
                        n >= 4,
                        valid_cards(cards@),
                        a < b < c < n - 2,
                        c + 1 <= d <= n - 1,
                        best == max_value(
                            max_value(
                                max_value(
                                    best_a(cards@, a as int),
                                    best_b(cards@, a as int, b as int),
                                ),
                                best_c(cards@, a as int, b as int, c as int),
                            ),
                            best_d(cards@, a as int, b as int, c as int, d as int),
                        ),
                    decreases n - 1 - d,
                {
                    let mut e: usize = d + 1;
                    let ghost before = best;
                    while e < n
                        invariant
                            n == cards@.len(),
                            n >= 4,
                            valid_cards(cards@),
                            a < b < c < d < n - 1,
                            d + 1 <= e <= n,
                            best == max_value(
                                before,
                                best_e(cards@, a as int, b as int, c as int, d as int, e as int),
                            ),
                        decreases n - e,
                    {
                        let hand: [Card; 5] = [cards[a], cards[b], cards[c], cards[d], cards[e]];
                        assert(hand@ == seq![cards@[a as int], cards@[b as int], cards@[c as int], cards@[d as int], cards@[e as int]]);
                        let v = evaluate_5(&hand);
                        if v > best {
                            best = v;
                        }
                        e = e + 1;
                    }
                    d = d + 1;
                }
                c = c + 1;
            }
            b = b + 1;
        }
        a = a + 1;
    }
    best
}

proof fn lemma_best_e(cards: Seq<Card>, a: int, b: int, c: int, d: int, hi: int)
    ensures
        forall|e: int| d < e < hi ==> #[trigger] combo_value(cards, a, b, c, d, e) <= best_e(cards, a, b, c, d, hi),
        hi > d + 1 ==> exists|e: int|
            d < e < hi && #[trigger] combo_value(cards, a, b, c, d, e) == best_e(cards, a, b, c, d, hi),
    decreases hi - d,
{
    if hi > d + 1 {
        lemma_best_e(cards, a, b, c, d, hi - 1);
        if hi - 1 > d + 1 {
            let w = choose|e: int|
                d < e < hi - 1 && #[trigger] combo_value(cards, a, b, c, d, e) == best_e(cards, a, b, c, d, hi - 1);
            if best_e(cards, a, b, c, d, hi) == best_e(cards, a, b, c, d, hi - 1) {
                assert(combo_value(cards, a, b, c, d, w) == best_e(cards, a, b, c, d, hi));
            } else {
                assert(combo_value(cards, a, b, c, d, hi - 1) == best_e(cards, a, b, c, d, hi));
            }
        } else {
            assert(best_e(cards, a, b, c, d, hi - 1) == 0);
            assert(combo_value(cards, a, b, c, d, hi - 1) == best_e(cards, a, b, c, d, hi));
        }
    }
}

proof fn lemma_best_d(cards: Seq<Card>, a: int, b: int, c: int, hi: int)
    requires
        hi <= cards.len() - 1,
    ensures
        forall|d: int, e: int|
            c < d < hi && d < e < cards.len() ==> #[trigger] combo_value(cards, a, b, c, d, e) <= best_d(cards, a, b, c, hi),
        hi > c + 1 ==> exists|d: int, e: int|
            c < d < hi && d < e < cards.len() && #[trigger] combo_value(cards, a, b, c, d, e) == best_d(cards, a, b, c, hi),
    decreases hi - c,
{
    let n = cards.len() as int;
    if hi > c + 1 {
        lemma_best_d(cards, a, b, c, hi - 1);
        lemma_best_e(cards, a, b, c, hi - 1, n);
        assert forall|d: int, e: int|
            c < d < hi && d < e < n implies #[trigger] combo_value(cards, a, b, c, d, e) <= best_d(cards, a, b, c, hi) by {
            if d == hi - 1 {
            }
        }
        let we = choose|e: int|
            hi - 1 < e < n && #[trigger] combo_value(cards, a, b, c, hi - 1, e) == best_e(cards, a, b, c, hi - 1, n);
        if hi - 1 > c + 1 {
            let (wd, we2) = choose|d: int, e: int|
                c < d < hi - 1 && d < e < n && #[trigger] combo_value(cards, a, b, c, d, e) == best_d(cards, a, b, c, hi - 1);
            if best_d(cards, a, b, c, hi) == best_d(cards, a, b, c, hi - 1) {
                assert(combo_value(cards, a, b, c, wd, we2) == best_d(cards, a, b, c, hi));
            } else {
                assert(combo_value(cards, a, b, c, hi - 1, we) == best_d(cards, a, b, c, hi));
            }
        } else {
            assert(combo_value(cards, a, b, c, hi - 1, we) == best_d(cards, a, b, c, hi));
        }
    }
}

proof fn lemma_best_c(cards: Seq<Card>, a: int, b: int, hi: int)
    requires
        hi <= cards.len() - 2,
    ensures
        forall|c: int, d: int, e: int|
            b < c < hi && c < d < e && e < cards.len() ==> #[trigger] combo_value(cards, a, b, c, d, e) <= best_c(cards, a, b, hi),
        hi > b + 1 ==> exists|c: int, d: int, e: int|
            b < c < hi && c < d < e && e < cards.len() && #[trigger] combo_value(cards, a, b, c, d, e) == best_c(cards, a, b, hi),
    decreases hi - b,
{
    let n = cards.len() as int;
    if hi > b + 1 {
        lemma_best_c(cards, a, b, hi - 1);
        lemma_best_d(cards, a, b, hi - 1, n - 1);
        assert forall|c: int, d: int, e: int|
            b < c < hi && c < d < e && e < n implies #[trigger] combo_value(cards, a, b, c, d, e) <= best_c(cards, a, b, hi) by {
            if c == hi - 1 {
            }
        }
        let (wd, we) = choose|d: int, e: int|
            hi - 1 < d < n - 1 && d < e < n && #[trigger] combo_value(cards, a, b, hi - 1, d, e) == best_d(cards, a, b, hi - 1, n - 1);
        if hi - 1 > b + 1 {
            let (wc, wd2, we2) = choose|c: int, d: int, e: int|
                b < c < hi - 1 && c < d < e && e < n && #[trigger] combo_value(cards, a, b, c, d, e) == best_c(cards, a, b, hi - 1);
            if best_c(cards, a, b, hi) == best_c(cards, a, b, hi - 1) {
                assert(combo_value(cards, a, b, wc, wd2, we2) == best_c(cards, a, b, hi));
            } else {
                assert(combo_value(cards, a, b, hi - 1, wd, we) == best_c(cards, a, b, hi));
            }
        } else {
            assert(combo_value(cards, a, b, hi - 1, wd, we) == best_c(cards, a, b, hi));
        }
    }
}

proof fn lemma_best_b(cards: Seq<Card>, a: int, hi: int)
    requires
        hi <= cards.len() - 3,
    ensures
        forall|b: int, c: int, d: int, e: int|
            a < b < hi && b < c < d && d < e < cards.len() ==> #[trigger] combo_value(cards, a, b, c, d, e) <= best_b(cards, a, hi),
        hi > a + 1 ==> exists|b: int, c: int, d: int, e: int|
            a < b < hi && b < c < d && d < e < cards.len() && #[trigger] combo_value(cards, a, b, c, d, e) == best_b(cards, a, hi),
    decreases hi - a,
{
    let n = cards.len() as int;
    if hi > a + 1 {
        lemma_best_b(cards, a, hi - 1);
        lemma_best_c(cards, a, hi - 1, n - 2);
        assert forall|b: int, c: int, d: int, e: int|
            a < b < hi && b < c < d && d < e < n implies #[trigger] combo_value(cards, a, b, c, d, e) <= best_b(cards, a, hi) by {
            if b == hi - 1 {
            }
        }
        let (wc, wd, we) = choose|c: int, d: int, e: int|
            hi - 1 < c < n - 2 && c < d < e && e < n && #[trigger] combo_value(cards, a, hi - 1, c, d, e) == best_c(cards, a, hi - 1, n - 2);
        if hi - 1 > a + 1 {
            let (wb, wc2, wd2, we2) = choose|b: int, c: int, d: int, e: int|
                a < b < hi - 1 && b < c < d && d < e < n && #[trigger] combo_value(cards, a, b, c, d, e) == best_b(cards, a, hi - 1);
            if best_b(cards, a, hi) == best_b(cards, a, hi - 1) {
                assert(combo_value(cards, a, wb, wc2, wd2, we2) == best_b(cards, a, hi));
            } else {
                assert(combo_value(cards, a, hi - 1, wc, wd, we) == best_b(cards, a, hi));
            }
        } else {
            assert(combo_value(cards, a, hi - 1, wc, wd, we) == best_b(cards, a, hi));
        }
    }
}

proof fn lemma_best_a(cards: Seq<Card>, hi: int)
    requires
        hi <= cards.len() - 4,
    ensures
        forall|a: int, b: int, c: int, d: int, e: int|
            0 <= a < hi && a < b < c && c < d < e && e < cards.len() ==> #[trigger] combo_value(cards, a, b, c, d, e) <= best_a(cards, hi),
        hi > 0 ==> exists|a: int, b: int, c: int, d: int, e: int|
            0 <= a < hi && a < b < c && c < d < e && e < cards.len() && #[trigger] combo_value(cards, a, b, c, d, e) == best_a(cards, hi),
    decreases hi,
{
    let n = cards.len() as int;
    if hi > 0 {
        lemma_best_a(cards, hi - 1);
        lemma_best_b(cards, hi - 1, n - 3);
        assert forall|a: int, b: int, c: int, d: int, e: int|
            0 <= a < hi && a < b < c && c < d < e && e < n implies #[trigger] combo_value(cards, a, b, c, d, e) <= best_a(cards, hi) by {
            if a == hi - 1 {
            }
        }
        let (wb, wc, wd, we) = choose|b: int, c: int, d: int, e: int|
            hi - 1 < b < n - 3 && b < c < d && d < e < n && #[trigger] combo_value(cards, hi - 1, b, c, d, e) == best_b(cards, hi - 1, n - 3);
        if hi - 1 > 0 {
            let (wa, wb2, wc2, wd2, we2) = choose|a: int, b: int, c: int, d: int, e: int|
                0 <= a < hi - 1 && a < b < c && c < d < e && e < n && #[trigger] combo_value(cards, a, b, c, d, e) == best_a(cards, hi - 1);
            if best_a(cards, hi) == best_a(cards, hi - 1) {
                assert(combo_value(cards, wa, wb2, wc2, wd2, we2) == best_a(cards, hi));
            } else {
                assert(combo_value(cards, hi - 1, wb, wc, wd, we) == best_a(cards, hi));
            }
        } else {
            assert(combo_value(cards, hi - 1, wb, wc, wd, we) == best_a(cards, hi));
        }
    }
}

/// The best hand value is the largest value of any five of the cards: no five
/// cards are worth more, and (given at least five cards) some five are worth exactly that.
pub proof fn lemma_best_hand_value_is_max(cards: Seq<Card>)
    ensures
        forall|a: int, b: int, c: int, d: int, e: int|
            0 <= a < b < c && c < d < e && e < cards.len() ==> #[trigger] combo_value(cards, a, b, c, d, e)
                <= best_hand_value(cards),
        cards.len() >= 5 ==> exists|a: int, b: int, c: int, d: int, e: int|
            0 <= a < b < c && c < d < e && e < cards.len() && #[trigger] combo_value(cards, a, b, c, d, e)
                == best_hand_value(cards),
{
    lemma_best_a(cards, cards.len() - 4);
}

proof fn lemma_or_low_bits(x: u32, y: u32)
    by (bit_vector)
    requires
        y < 0x100000,
    ensures
        (x | y) >> 20 == x >> 20,
{
}

proof fn lemma_small_shift(r: u32, s: u32)
    by (bit_vector)
    requires
        r < 16,
        s <= 16,
    ensures
        (r << s) < 0x100000,
{
}

proof fn lemma_category_shift(c: u32)
    by (bit_vector)
    requires
        c < 256,
    ensures
        (c << 20) >> 20 == c,
{
}

proof fn lemma_high_bits_order(x: u32, y: u32)
    by (bit_vector)
    requires
        x >> 20 > y >> 20,
    ensures
        x > y,
{
}

proof fn lemma_encode_prefix_category(category: u8, ranks: Seq<u8>, n: int)
    requires
        0 <= n <= ranks.len() <= 5,
        forall|k: int| 0 <= k < ranks.len() ==> ranks[k] < 16,
    ensures
        encode_prefix(category, ranks, n) >> 20 == category,
    decreases n,
{
    if n <= 0 {
        lemma_category_shift(category as u32);
    } else {
        lemma_encode_prefix_category(category, ranks, n - 1);
        let shift = (4 * (4 - (n - 1))) as u32;
        lemma_small_shift(ranks[n - 1] as u32, shift);
        lemma_or_low_bits(encode_prefix(category, ranks, n - 1), (ranks[n - 1] as u32) << shift);
    }
}

/// The category can be read back from a packed value: it is the value shifted right by 20
/// (for at most five ranks, each below 16).
pub proof fn lemma_encoding_category(category: u8, ranks: Seq<u8>)
    requires
        ranks.len() <= 5,
        forall|k: int| 0 <= k < ranks.len() ==> ranks[k] < 16,
    ensures
        encoding(category, ranks) >> 20 == category,
{
    lemma_encode_prefix_category(category, ranks, ranks.len() as int);
}

/// A higher category always packs to a higher value, whatever the deciding ranks.
pub proof fn lemma_higher_category_higher_value(c1: u8, r1: Seq<u8>, c2: u8, r2: Seq<u8>)
    requires
        c1 > c2,
        r1.len() <= 5,
        r2.len() <= 5,
        forall|k: int| 0 <= k < r1.len() ==> r1[k] < 16,
        forall|k: int| 0 <= k < r2.len() ==> r2[k] < 16,
    ensures
        encoding(c1, r1) > encoding(c2, r2),
{
    lemma_encoding_category(c1, r1);
    lemma_encoding_category(c2, r2);
    lemma_high_bits_order(encoding(c1, r1), encoding(c2, r2));
}

/// Sum of the rank counts of ranks below `hi`.
pub open spec fn sum_rank_counts(cards: Seq<Card>, hi: int) -> nat
    decreases hi,
{
    if hi <= 0 {
        0
    } else {
        sum_rank_counts(cards, hi - 1) + rank_count(cards, hi - 1)
    }
}

proof fn lemma_sum_rank_counts_push(cards: Seq<Card>, c: Card, hi: int)
    requires
        c < 52,
        0 <= hi <= 13,
    ensures
        sum_rank_counts(cards.push(c), hi) == sum_rank_counts(cards, hi) + (if rank_of(c) < hi {
            1nat
        } else {
            0nat
        }),
    decreases hi,
{
    if hi > 0 {
        lemma_sum_rank_counts_push(cards, c, hi - 1);
        lemma_rank_count_push(cards, c, hi - 1);
    }
}

/// The rank counts of valid cards add up to the number of cards.
proof fn lemma_sum_rank_counts_len(cards: Seq<Card>)
    requires
        valid_cards(cards),
    ensures
        sum_rank_counts(cards, 13) == cards.len(),
    decreases cards.len(),
{
    if cards.len() == 0 {
        lemma_counts_empty(cards);
        lemma_sum_rank_counts_zero(cards, 13);
    } else {
        let init = cards.drop_last();
        assert(init.push(cards.last()) == cards);
        lemma_sum_rank_counts_len(init);
        lemma_sum_rank_counts_push(init, cards.last(), 13);
    }
}

proof fn lemma_sum_rank_counts_zero(cards: Seq<Card>, hi: int)
    requires
        forall|r: int| #[trigger] rank_count(cards, r) == 0,
    ensures
        sum_rank_counts(cards, hi) == 0,
    decreases hi,
{
    if hi > 0 {
        lemma_sum_rank_counts_zero(cards, hi - 1);
    }
}

proof fn lemma_rank_count_le_sum(cards: Seq<Card>, r: int, hi: int)
    requires
        0 <= r < hi,
    ensures
        rank_count(cards, r) <= sum_rank_counts(cards, hi),
    decreases hi,
{
    if hi - 1 > r {
        lemma_rank_count_le_sum(cards, r, hi - 1);
    }
}

proof fn lemma_ranks_present_short(cards: Seq<Card>, hi: int)
    requires
        0 <= hi <= 13,
        forall|r: int| 0 <= r < 13 ==> #[trigger] rank_count(cards, r) < 256,
    ensures
        ranks_present_below(count_seq(cards), hi).len() <= sum_rank_counts(cards, hi),
        forall|k: int|
            0 <= k < ranks_present_below(count_seq(cards), hi).len() ==> #[trigger] ranks_present_below(
                count_seq(cards),
                hi,
            )[k] < hi,
    decreases hi,
{
    if hi > 0 {
        lemma_ranks_present_short(cards, hi - 1);
    }
}

proof fn lemma_ranks_with_count_bounds(counts: Seq<u8>, c: int, hi: int)
    requires
        0 <= hi <= 13,
    ensures
        forall|k: int|
            0 <= k < ranks_with_count(counts, c, hi).len() ==> #[trigger] ranks_with_count(
                counts,
                c,
                hi,
            )[k].1 < 13,
    decreases hi,
{
    if hi > 0 {
        lemma_ranks_with_count_bounds(counts, c, hi - 1);
        let rest = ranks_with_count(counts, c, hi - 1);
        if counts[hi - 1] == c {
            assert forall|k: int|
                0 <= k < ranks_with_count(counts, c, hi).len() implies #[trigger] ranks_with_count(
                counts,
                c,
                hi,
            )[k].1 < 13 by {
                if k > 0 {
                    assert(ranks_with_count(counts, c, hi)[k] == rest[k - 1]);
                }
            }
        }
    }
}

proof fn lemma_groups_bounds(counts: Seq<u8>, c: int)
    ensures
        forall|k: int|
            0 <= k < groups_upto(counts, c).len() ==> #[trigger] groups_upto(counts, c)[k].1 < 13,
    decreases c,
{
    if c > 0 {
        lemma_ranks_with_count_bounds(counts, c, 13);
        lemma_groups_bounds(counts, c - 1);
        let l = ranks_with_count(counts, c, 13);
        let r = groups_upto(counts, c - 1);
        assert forall|k: int| 0 <= k < groups_upto(counts, c).len() implies #[trigger] groups_upto(
            counts,
            c,
        )[k].1 < 13 by {
            if k < l.len() {
                assert(groups_upto(counts, c)[k] == l[k]);
            } else {
                assert(groups_upto(counts, c)[k] == r[k - l.len()]);
            }
        }
    }
}

proof fn lemma_straight_at_or_below_bound(counts: Seq<u8>, high: int)
    requires
        high <= 12,
    ensures
        straight_at_or_below(counts, high) matches Some(t) ==> 4 <= t <= 12,
    decreases high,
{
    if high >= 4 {
        lemma_straight_at_or_below_bound(counts, high - 1);
    }
}

/// The deciding ranks of five valid cards are at most five ranks, each a rank index below 13.
pub proof fn lemma_deciding_ranks_bounds(cards: Seq<Card>)
    requires
        cards.len() == 5,
        valid_cards(cards),
    ensures
        deciding_ranks(cards).len() <= 5,
        forall|k: int| 0 <= k < deciding_ranks(cards).len() ==> #[trigger] deciding_ranks(cards)[k]
            < 13,
{
    lemma_sum_rank_counts_len(cards);
    assert forall|r: int| 0 <= r < 13 implies #[trigger] rank_count(cards, r) < 256 by {
        lemma_rank_count_le_sum(cards, r, 13);
    }
    lemma_ranks_present_short(cards, 13);
    lemma_groups_bounds(count_seq(cards), 5);
    lemma_straight_at_or_below_bound(count_seq(cards), 12);
    let g = rank_groups(count_seq(cards));
    if hand_category(cards) == 7 || hand_category(cards) == 6 {
        assert(g[0].1 < 13 && g[1].1 < 13);
    } else if hand_category(cards) == 3 || hand_category(cards) == 2 {
        assert(g[0].1 < 13 && g[1].1 < 13 && g[2].1 < 13);
    } else if hand_category(cards) == 1 {
        assert(g[0].1 < 13 && g[1].1 < 13 && g[2].1 < 13 && g[3].1 < 13);
    }
}

/// The value of five cards carries their category above everything else: shifted right by
/// 20 it is the category, so a hand of a higher category is always worth more.
pub proof fn lemma_hand_value_category(cards: Seq<Card>)
    requires
        cards.len() == 5,
        valid_cards(cards),
    ensures
        hand_value(cards) >> 20 == hand_category(cards),
{
    lemma_deciding_ranks_bounds(cards);
    lemma_encoding_category(hand_category(cards), deciding_ranks(cards));
}

/// Five valid cards of a higher category are worth more than five of a lower one.
pub proof fn lemma_higher_category_wins(x: Seq<Card>, y: Seq<Card>)
    requires
        x.len() == 5,
        y.len() == 5,
        valid_cards(x),
        valid_cards(y),
        hand_category(x) > hand_category(y),
    ensures
        hand_value(x) > hand_value(y),
{
    lemma_deciding_ranks_bounds(x);
    lemma_deciding_ranks_bounds(y);
    assert forall|k: int| 0 <= k < deciding_ranks(x).len() implies deciding_ranks(x)[k] < 16 by {}
    assert forall|k: int| 0 <= k < deciding_ranks(y).len() implies deciding_ranks(y)[k] < 16 by {}
    lemma_higher_category_higher_value(
        hand_category(x),
        deciding_ranks(x),
        hand_category(y),
        deciding_ranks(y),
    );
}

/// The value depends only on which cards are held, not on their order.
pub proof fn lemma_hand_value_order_free(x: Seq<Card>, y: Seq<Card>)
    requires
        x.to_multiset() == y.to_multiset(),
    ensures
        hand_value(x) == hand_value(y),
        hand_category(x) == hand_category(y),
{
    assert(count_seq(x) =~= count_seq(y));
    assert forall|s: int| 0 <= s < 4 implies suit_count(x, s) == suit_count(y, s) by {
        lemma_suit_count_same(x, y, s, 13);
    }
    assert(is_flush(x) == is_flush(y));
}

proof fn lemma_suit_count_same(x: Seq<Card>, y: Seq<Card>, s: int, hi: int)
    requires
        x.to_multiset() == y.to_multiset(),
    ensures
        suit_count_below(x, s, hi) == suit_count_below(y, s, hi),
    decreases hi,
{
    if hi > 0 {
        lemma_suit_count_same(x, y, s, hi - 1);
    }
}

/// The `i`-th deciding rank, or 0 where there is none.
pub open spec fn rank_slot(ranks: Seq<u8>, i: int) -> int {
    if 0 <= i < ranks.len() {
        ranks[i] as int
    } else {
        0
    }
}

/// What poker compares two five-card hands by: the category first, then the deciding ranks
/// in order (the straight's top, where the wheel's top is the five; the group ranks by
/// multiplicity then rank; or all ranks from the highest).
pub open spec fn poker_key(cards: Seq<Card>) -> Seq<int> {
    let d = deciding_ranks(cards);
    seq![
        hand_category(cards) as int,
        rank_slot(d, 0),
        rank_slot(d, 1),
        rank_slot(d, 2),
        rank_slot(d, 3),
        rank_slot(d, 4),
    ]
}

/// Lexicographic order: the first place where the two differ decides.
pub open spec fn lex_less(a: Seq<int>, b: Seq<int>) -> bool
    decreases a.len(),
{
    if a.len() == 0 || b.len() == 0 {
        false
    } else if a[0] < b[0] {
        true
    } else if a[0] > b[0] {
        false
    } else {
        lex_less(a.drop_first(), b.drop_first())
    }
}

proof fn lemma_pack_0(c: u32)
    by (bit_vector)
    requires
        c < 16,
    ensures
        (c << 20u32) == c * 1048576,
{
}

proof fn lemma_pack_1(c: u32, a: u32)
    by (bit_vector)
    requires
        c < 16,
        a < 16,
    ensures
        ((c << 20u32) | (a << 16u32)) == c * 1048576 + a * 65536,
{
}

proof fn lemma_pack_2(c: u32, a: u32, b: u32)
    by (bit_vector)
    requires
        c < 16,
        a < 16,
        b < 16,
    ensures
        (((c << 20u32) | (a << 16u32)) | (b << 12u32)) == c * 1048576 + a * 65536 + b * 4096,
{
}

proof fn lemma_pack_3(c: u32, a: u32, b: u32, d: u32)
    by (bit_vector)
    requires
        c < 16,
        a < 16,
        b < 16,
        d < 16,
    ensures
        ((((c << 20u32) | (a << 16u32)) | (b << 12u32)) | (d << 8u32)) == c * 1048576 + a * 65536
            + b * 4096 + d * 256,
{
}

proof fn lemma_pack_4(c: u32, a: u32, b: u32, d: u32, e: u32)
    by (bit_vector)
    requires
        c < 16,
        a < 16,
        b < 16,
        d < 16,
        e < 16,
    ensures
        (((((c << 20u32) | (a << 16u32)) | (b << 12u32)) | (d << 8u32)) | (e << 4u32)) == c
            * 1048576 + a * 65536 + b * 4096 + d * 256 + e * 16,
{
}

proof fn lemma_pack_5(c: u32, a: u32, b: u32, d: u32, e: u32, f: u32)
    by (bit_vector)
    requires
        c < 16,
        a < 16,
        b < 16,
        d < 16,
        e < 16,
        f < 16,
    ensures
        ((((((c << 20u32) | (a << 16u32)) | (b << 12u32)) | (d << 8u32)) | (e << 4u32)) | (f
            << 0u32)) == c * 1048576 + a * 65536 + b * 4096 + d * 256 + e * 16 + f,
{
}

/// A packed value is its category and ranks read as digits in base 16.
proof fn lemma_encoding_digits(category: u8, ranks: Seq<u8>)
    requires
        category < 16,
        ranks.len() <= 5,
        forall|k: int| 0 <= k < ranks.len() ==> ranks[k] < 16,
    ensures
        encoding(category, ranks) as int == category * 1048576 + rank_slot(ranks, 0) * 65536
            + rank_slot(ranks, 1) * 4096 + rank_slot(ranks, 2) * 256 + rank_slot(ranks, 3) * 16
            + rank_slot(ranks, 4),
{
    reveal_with_fuel(encode_prefix, 6);
    let c = category as u32;
    let n = ranks.len();
    if n == 0 {
        lemma_pack_0(c);
    } else if n == 1 {
        lemma_pack_1(c, ranks[0] as u32);
    } else if n == 2 {
        lemma_pack_2(c, ranks[0] as u32, ranks[1] as u32);
    } else if n == 3 {
        lemma_pack_3(c, ranks[0] as u32, ranks[1] as u32, ranks[2] as u32);
    } else if n == 4 {
        lemma_pack_4(c, ranks[0] as u32, ranks[1] as u32, ranks[2] as u32, ranks[3] as u32);
    } else {
        lemma_pack_5(
            c,
            ranks[0] as u32,
            ranks[1] as u32,
            ranks[2] as u32,
            ranks[3] as u32,
            ranks[4] as u32,
        );
    }
}

/// The value of five cards is their poker key read as digits in base 16.
proof fn lemma_value_is_key(cards: Seq<Card>)
    requires
        cards.len() == 5,
        valid_cards(cards),
    ensures
        ({
            let k = poker_key(cards);
            &&& hand_value(cards) as int == digits_value(k)
            &&& forall|i: int| 0 <= i < 6 ==> 0 <= #[trigger] k[i] < 16
        }),
{
    lemma_deciding_ranks_bounds(cards);
    let d = deciding_ranks(cards);
    assert forall|k: int| 0 <= k < d.len() implies d[k] < 16 by {}
    lemma_encoding_digits(hand_category(cards), d);
}

/// The wheel (ace to five) is the lowest straight: its top is the five (rank index 3), and
/// every other straight has a higher top.
pub proof fn lemma_wheel_is_lowest_straight(counts: Seq<u8>)
    requires
        counts.len() == 13,
    ensures
        straight_top(counts) matches Some(t) ==> 3 <= t <= 12 && (t == 3 <==> (counts[12] > 0
            && counts[0] > 0 && counts[1] > 0 && counts[2] > 0 && counts[3] > 0)),
{
    lemma_straight_at_or_below_bound(counts, 12);
}

/// Six base-16 digits read as a number.
pub open spec fn digits_value(a: Seq<int>) -> int {
    a[0] * 1048576 + a[1] * 65536 + a[2] * 4096 + a[3] * 256 + a[4] * 16 + a[5]
}

/// Numbers written with six base-16 digits compare as their digits do, from the first.
#[verifier::spinoff_prover]
proof fn lemma_digits_order(a: Seq<int>, b: Seq<int>)
    requires
        a.len() == 6,
        b.len() == 6,
        forall|i: int| 0 <= i < 6 ==> 0 <= #[trigger] a[i] < 16,
        forall|i: int| 0 <= i < 6 ==> 0 <= #[trigger] b[i] < 16,
    ensures
        digits_value(a) < digits_value(b) <==> lex_less(a, b),
        digits_value(a) == digits_value(b) <==> a == b,
{
    reveal_with_fuel(lex_less, 7);
    assert(a.drop_first() =~= seq![a[1], a[2], a[3], a[4], a[5]]);
    assert(b.drop_first() =~= seq![b[1], b[2], b[3], b[4], b[5]]);
    let (a0, a1, a2, a3, a4, a5) = (a[0], a[1], a[2], a[3], a[4], a[5]);
    let (b0, b1, b2, b3, b4, b5) = (b[0], b[1], b[2], b[3], b[4], b[5]);
    assert(0 <= a0 < 16 && 0 <= a1 < 16 && 0 <= a2 < 16 && 0 <= a3 < 16 && 0 <= a4 < 16 && 0 <= a5 < 16);
    assert(0 <= b0 < 16 && 0 <= b1 < 16 && 0 <= b2 < 16 && 0 <= b3 < 16 && 0 <= b4 < 16 && 0 <= b5 < 16);
    if a0 == b0 && a1 == b1 && a2 == b2 && a3 == b3 && a4 == b4 && a5 == b5 {
        assert(a =~= b);
    }
}

/// Hands are ranked as poker ranks them: of two sets of five cards, one is worth less than the
/// other exactly when it has the lower category, or the same category and the first deciding
/// rank in which they differ is lower; and the two are worth the same exactly when category
/// and deciding ranks all agree (a split pot).
pub proof fn lemma_hand_value_ranks_hands(x: Seq<Card>, y: Seq<Card>)
    requires
        x.len() == 5,
        y.len() == 5,
        valid_cards(x),
        valid_cards(y),
    ensures
        hand_value(x) < hand_value(y) <==> lex_less(poker_key(x), poker_key(y)),
        hand_value(x) == hand_value(y) <==> poker_key(x) == poker_key(y),
{
    lemma_value_is_key(x);
    lemma_value_is_key(y);
    lemma_digits_order(poker_key(x), poker_key(y));
}

/// A relabelling of the four suits: a permutation of `0..4`.
pub open spec fn is_suit_perm(perm: Seq<int>) -> bool {
    &&& perm.len() == 4
    &&& forall|i: int| 0 <= i < 4 ==> 0 <= #[trigger] perm[i] < 4
    &&& forall|i: int, j: int| 0 <= i < j < 4 ==> perm[i] != perm[j]
}

/// A card with its suit relabelled: same rank, suit `perm[suit]`.
pub open spec fn relabel_card(c: Card, perm: Seq<int>) -> Card {
    (4 * rank_of(c) + perm[suit_of(c)]) as u8
}

/// Cards with their suits relabelled.
pub open spec fn relabel_suits(cards: Seq<Card>, perm: Seq<int>) -> Seq<Card> {
    cards.map_values(|c: Card| relabel_card(c, perm))
}

/// Relabelling is one-to-one on the 52 cards.
proof fn lemma_relabel_injective(a: Card, c: Card, perm: Seq<int>)
    requires
        a < 52,
        c < 52,
        is_suit_perm(perm),
    ensures
        relabel_card(a, perm) < 52,
        relabel_card(a, perm) == relabel_card(c, perm) <==> a == c,
{
    assert(0 <= perm[suit_of(a)] < 4);
    assert(0 <= perm[suit_of(c)] < 4);
    if relabel_card(a, perm) == relabel_card(c, perm) {
        assert(rank_of(a) == rank_of(c));
        assert(perm[suit_of(a)] == perm[suit_of(c)]);
        assert(suit_of(a) == suit_of(c));
    }
}

/// A relabelled card occurs as often among the relabelled cards as the card among the cards.
proof fn lemma_relabel_count(cards: Seq<Card>, perm: Seq<int>, c: Card)
    requires
        valid_cards(cards),
        is_suit_perm(perm),
        c < 52,
    ensures
        relabel_suits(cards, perm).to_multiset().count(relabel_card(c, perm)) == cards.to_multiset().count(c),
    decreases cards.len(),
{
    if cards.len() == 0 {
        assert(cards.to_multiset() =~= Multiset::empty());
        assert(relabel_suits(cards, perm).to_multiset() =~= Multiset::empty());
    } else {
        let f = cards.drop_last();
        let a = cards.last();
        assert(valid_cards(f)) by {
            assert forall|i: int| 0 <= i < f.len() implies #[trigger] f[i] < 52 by {
                assert(f[i] == cards[i]);
            }
        }
        assert(a < 52) by {
            assert(cards[cards.len() - 1] < 52);
        }
        lemma_relabel_count(f, perm, c);
        lemma_relabel_injective(a, c, perm);
        assert(f.push(a) == cards);
        assert(relabel_suits(cards, perm) =~= relabel_suits(f, perm).push(relabel_card(a, perm)));
        assert(cards.to_multiset() =~= f.to_multiset().insert(a));
        assert(relabel_suits(cards, perm).to_multiset() =~= relabel_suits(f, perm).to_multiset().insert(
            relabel_card(a, perm),
        ));
    }
}

/// The card of rank `r` and suit `s`, relabelled, is the card of rank `r` and suit `perm[s]`.
proof fn lemma_relabel_of(r: int, s: int, perm: Seq<int>)
    requires
        0 <= r < 13,
        0 <= s < 4,
        is_suit_perm(perm),
    ensures
        relabel_card((4 * r + s) as u8, perm) == (4 * r + perm[s]) as u8,
{
    let c = (4 * r + s) as u8;
    assert(c as int == 4 * r + s);
    assert(rank_of(c) == r);
    assert(suit_of(c) == s);
}

/// Relabelling keeps every rank count.
proof fn lemma_relabel_rank_count(cards: Seq<Card>, perm: Seq<int>, r: int)
    requires
        valid_cards(cards),
        is_suit_perm(perm),
        0 <= r < 13,
    ensures
        rank_count(relabel_suits(cards, perm), r) == rank_count(cards, r),
{
    let m = cards.to_multiset();
    let m2 = relabel_suits(cards, perm).to_multiset();
    assert forall|s: int| 0 <= s < 4 implies m2.count((4 * r + perm[s]) as u8) == m.count((4 * r + s) as u8) by {
        lemma_relabel_of(r, s, perm);
        lemma_relabel_count(cards, perm, (4 * r + s) as u8);
    }
    assert(0 <= perm[0] < 4 && 0 <= perm[1] < 4 && 0 <= perm[2] < 4 && 0 <= perm[3] < 4);
    assert(perm[0] != perm[1] && perm[0] != perm[2] && perm[0] != perm[3]);
    assert(perm[1] != perm[2] && perm[1] != perm[3] && perm[2] != perm[3]);
    assert(m2.count((4 * r + perm[0]) as u8) == m.count((4 * r) as u8));
    assert(m2.count((4 * r + perm[1]) as u8) == m.count((4 * r + 1) as u8));
    assert(m2.count((4 * r + perm[2]) as u8) == m.count((4 * r + 2) as u8));
    assert(m2.count((4 * r + perm[3]) as u8) == m.count((4 * r + 3) as u8));
}

/// Relabelling moves the cards of suit `s` to suit `perm[s]`.
proof fn lemma_relabel_suit_count(cards: Seq<Card>, perm: Seq<int>, s: int, hi: int)
    requires
        valid_cards(cards),
        is_suit_perm(perm),
        0 <= s < 4,
        0 <= hi <= 13,
    ensures
        suit_count_below(relabel_suits(cards, perm), perm[s], hi) == suit_count_below(cards, s, hi),
    decreases hi,
{
    if hi > 0 {
        lemma_relabel_suit_count(cards, perm, s, hi - 1);
        lemma_relabel_of(hi - 1, s, perm);
        lemma_relabel_count(cards, perm, (4 * (hi - 1) + s) as u8);
    }
}

/// Relabelling the suits keeps the category and the value of five cards: suits are not ranked.
pub proof fn lemma_hand_value_suit_free(cards: Seq<Card>, perm: Seq<int>)
    requires
        valid_cards(cards),
        is_suit_perm(perm),
    ensures
        hand_value(relabel_suits(cards, perm)) == hand_value(cards),
        hand_category(relabel_suits(cards, perm)) == hand_category(cards),
{
    let h = relabel_suits(cards, perm);
    assert forall|r: int| 0 <= r < 13 implies #[trigger] count_seq(h)[r] == count_seq(cards)[r] by {
        lemma_relabel_rank_count(cards, perm, r);
    }
    assert(count_seq(h) =~= count_seq(cards));
    assert forall|s: int| 0 <= s < 4 implies #[trigger] suit_count(h, perm[s]) == suit_count(cards, s) by {
        lemma_relabel_suit_count(cards, perm, s, 13);
    }
    assert(0 <= perm[0] < 4 && 0 <= perm[1] < 4 && 0 <= perm[2] < 4 && 0 <= perm[3] < 4);
    assert(perm[0] != perm[1] && perm[0] != perm[2] && perm[0] != perm[3]);
    assert(perm[1] != perm[2] && perm[1] != perm[3] && perm[2] != perm[3]);
    assert(suit_count(h, perm[0]) == suit_count(cards, 0));
    assert(suit_count(h, perm[1]) == suit_count(cards, 1));
    assert(suit_count(h, perm[2]) == suit_count(cards, 2));
    assert(suit_count(h, perm[3]) == suit_count(cards, 3));
    if is_flush(cards) {
        let s = choose|s: int| 0 <= s < 4 && suit_count(cards, s) == 5;
        assert(suit_count(h, perm[s]) == 5);
    }
    if is_flush(h) {
        let t = choose|t: int| 0 <= t < 4 && suit_count(h, t) == 5;
        assert(t == perm[0] || t == perm[1] || t == perm[2] || t == perm[3]);
    }
    assert(is_flush(h) == is_flush(cards));
}

/// The cards of a hand followed by the board.
pub open spec fn hand_and_board(hand: (Card, Card), board: Seq<Card>) -> Seq<Card> {
    seq![hand.0, hand.1] + board
}

/// The best value of a two-card hand with the board (`evaluate_made_hand`).
pub fn evaluate_made_hand(hand: (Card, Card), board: &[Card]) -> (value: u32)
    requires
        board@.len() >= 2,
        hand.0 < 52,
        hand.1 < 52,
        valid_cards(board@),
    ensures
        value == best_hand_value(hand_and_board(hand, board@)),
{
    let mut cards: Vec<Card> = Vec::new();
    cards.push(hand.0);
    cards.push(hand.1);
    let n = board.len();
    let mut i: usize = 0;
    while i < n
        invariant
            i <= n,
            n == board@.len(),
            cards@ == seq![hand.0, hand.1] + board@.take(i as int),
        decreases n - i,
    {
        cards.push(board[i]);
        assert(board@.take(i + 1) == board@.take(i as int).push(board@[i as int]));
        i = i + 1;
    }
    assert(board@.take(n as int) == board@);
    evaluate_best_from_cards(cards.as_slice())
}

/// With exactly five cards, the best value is the value of those five.
pub proof fn lemma_best_of_five(cards: Seq<Card>)
    requires
        cards.len() == 5,
    ensures
        best_hand_value(cards) == hand_value(cards),
{
    assert(seq![cards[0], cards[1], cards[2], cards[3], cards[4]] == cards);
    assert(best_e(cards, 0, 1, 2, 3, 4) == 0);
    assert(best_d(cards, 0, 1, 2, 3) == 0);
    assert(best_c(cards, 0, 1, 2) == 0);
    assert(best_b(cards, 0, 1) == 0);
    assert(best_a(cards, 0) == 0);
}

/// Showdown results of the hero against the opponents' hands that share no card with the
/// hero: `(wins, ties, counted)`.
pub open spec fn showdown_counts(hero_value: u32, hero: (Card, Card), villains: Seq<HandCombo>, board: Seq<Card>) -> (
    nat,
    nat,
    nat,
)
    decreases villains.len(),
{
    if villains.len() == 0 {
        (0, 0, 0)
    } else {
        let prev = showdown_counts(hero_value, hero, villains.drop_last(), board);
        let v = villains.last();
        if blocks(v.cards.0, v.cards.1, hero) {
            prev
        } else {
            let vv = best_hand_value(hand_and_board(v.cards, board));
            (
                prev.0 + (if hero_value > vv {
                    1nat
                } else {
                    0nat
                }),
                prev.1 + (if hero_value == vv {
                    1nat
                } else {
                    0nat
                }),
                prev.2 + 1,
            )
        }
    }
}

/// Every card of every hand is one of the 52.
pub open spec fn valid_hands(hands: Seq<HandCombo>) -> bool {
    forall|i: int| 0 <= i < hands.len() ==> #[trigger] hands[i].cards.0 < 52 && hands[i].cards.1 < 52
}

/// The hero's showdown record against every opponent hand that does not share a card with
/// the hero: wins, ties, and hands counted (the counting behind `raw_equity_vs_villain`).
pub fn showdown_tally(hero: (Card, Card), villains: &[HandCombo], board: &[Card]) -> (tally: (u64, u64, u64))
    requires
        board@.len() >= 2,
        hero.0 < 52,
        hero.1 < 52,
        valid_cards(board@),
        valid_hands(villains@),
    ensures
        tally.0 as nat == showdown_counts(best_hand_value(hand_and_board(hero, board@)), hero, villains@, board@).0,
        tally.1 as nat == showdown_counts(best_hand_value(hand_and_board(hero, board@)), hero, villains@, board@).1,
        tally.2 as nat == showdown_counts(best_hand_value(hand_and_board(hero, board@)), hero, villains@, board@).2,
{
    let hero_value = evaluate_made_hand(hero, board);
    let mut wins: u64 = 0;
    let mut ties: u64 = 0;
    let mut total: u64 = 0;
    let n = villains.len();
    let mut i: usize = 0;
    while i < n
        invariant
            i <= n,
            n == villains@.len(),
            board@.len() >= 2,
            valid_cards(board@),
            valid_hands(villains@),
            hero_value == best_hand_value(hand_and_board(hero, board@)),
            wins as nat == showdown_counts(hero_value, hero, villains@.take(i as int), board@).0,
            ties as nat == showdown_counts(hero_value, hero, villains@.take(i as int), board@).1,
            total as nat == showdown_counts(hero_value, hero, villains@.take(i as int), board@).2,
            wins <= i,
            ties <= i,
            total <= i,
        decreases n - i,
    {
        let v = &villains[i];
        assert(villains@.take(i + 1).drop_last() == villains@.take(i as int));
        assert(villains@.take(i + 1).last() == villains@[i as int]);
        if !hero_blocks_combo(v.cards.0, v.cards.1, hero) {
            let villain_value = evaluate_made_hand(v.cards, board);
            if hero_value > villain_value {
                wins = wins + 1;
            } else if hero_value == villain_value {
                ties = ties + 1;
            }
            total = total + 1;
        }
        i = i + 1;
    }
    assert(villains@.take(n as int) == villains@);
    (wins, ties, total)
}

/// A showdown record never counts more wins and ties together than hands counted, nor more
/// hands than there are opponent hands; so the equity it gives lies between 0 and 1.
pub proof fn lemma_showdown_counts_bounded(
    hero_value: u32,
    hero: (Card, Card),
    villains: Seq<HandCombo>,
    board: Seq<Card>,
)
    ensures
        showdown_counts(hero_value, hero, villains, board).0 + showdown_counts(
            hero_value,
            hero,
            villains,
            board,
        ).1 <= showdown_counts(hero_value, hero, villains, board).2,
        showdown_counts(hero_value, hero, villains, board).2 <= villains.len(),
    decreases villains.len(),
{
    if villains.len() > 0 {
        lemma_showdown_counts_bounded(hero_value, hero, villains.drop_last(), board);
    }
}

/// Whether a combo shares no card with the hero's hand.
pub open spec fn shares_no_card(v: (Card, Card), hero: (Card, Card)) -> bool {
    v.0 != hero.0 && v.0 != hero.1 && v.1 != hero.0 && v.1 != hero.1
}

/// How many of the combos share no card with the hero's hand.
pub open spec fn count_sharing_no_card(hero: (Card, Card), villains: Seq<HandCombo>) -> nat
    decreases villains.len(),
{
    if villains.len() == 0 {
        0
    } else {
        count_sharing_no_card(hero, villains.drop_last()) + if shares_no_card(
            villains.last().cards,
            hero,
        ) {
            1nat
        } else {
            0nat
        }
    }
}

/// One more combo changes the showdown record only when it shares no card with the hero's
/// hand: a combo holding a hero card (an impossible matchup) leaves wins, ties and the count
/// as they were; any other combo adds one to the count, and one win or one tie as the hero's
/// value beats or equals the combo's best hand with the board.
pub proof fn lemma_showdown_counts_next_combo(
    hero_value: u32,
    hero: (Card, Card),
    villains: Seq<HandCombo>,
    v: HandCombo,
    board: Seq<Card>,
)
    ensures
        ({
            let before = showdown_counts(hero_value, hero, villains, board);
            let after = showdown_counts(hero_value, hero, villains.push(v), board);
            let vv = best_hand_value(hand_and_board(v.cards, board));
            &&& !shares_no_card(v.cards, hero) ==> after == before
            &&& shares_no_card(v.cards, hero) ==> after == (
                before.0 + (if hero_value > vv { 1nat } else { 0nat }),
                before.1 + (if hero_value == vv { 1nat } else { 0nat }),
                before.2 + 1,
            )
        }),
{
    assert(villains.push(v).drop_last() == villains);
    assert(villains.push(v).last() == v);
}

/// The showdown record counts exactly the combos that share no card with the hero's hand.
pub proof fn lemma_showdown_counts_only_possible_combos(
    hero_value: u32,
    hero: (Card, Card),
    villains: Seq<HandCombo>,
    board: Seq<Card>,
)
    ensures
        showdown_counts(hero_value, hero, villains, board).2 == count_sharing_no_card(hero, villains),
    decreases villains.len(),
{
    if villains.len() > 0 {
        lemma_showdown_counts_only_possible_combos(hero_value, hero, villains.drop_last(), board);
    }
}

} // verus!
