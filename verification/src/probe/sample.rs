//! The fallback sample of the stat probe: boards drawn from a fixed-seed linear
//! congruential generator, each made into a button-versus-big-blind spot.
use crate::cards::{board_contains, card_name, card_to_string, Card};
use crate::probe::spots::{string_option, ProbeSpot, SpotText, spot_text};
use crate::text::{chars_of, decimal, decimal_chars, extend_chars, push_str, string_of};
use vstd::arithmetic::div_mod::{lemma_add_mod_noop, lemma_mod_sub_multiples_vanish, lemma_small_mod};
use vstd::prelude::*;

verus! {

/// The multiplier of the generator.
pub const LCG_MULTIPLIER: u64 = 6364136223846793005u64;

/// The increment of the generator.
pub const LCG_INCREMENT: u64 = 1442695040888963407u64;

/// The seed of the fallback sample.
pub const FALLBACK_SEED: u64 = 0xC0D3_2026u64;

/// One step of the generator: `state * multiplier + increment`, modulo 2^64.
pub open spec fn lcg_next(state: u64) -> u64 {
    ((state as nat * LCG_MULTIPLIER as nat + LCG_INCREMENT as nat) % 0x1_0000_0000_0000_0000nat) as u64
}

/// The number a step hands out below `max`: the high half of the new state, modulo `max`.
pub open spec fn lcg_draw(state: u64, max: nat) -> nat {
    ((lcg_next(state) >> 32u64) as nat) % max
}

proof fn lemma_wrapping_step(s: u64)
    ensures
        vstd::wrapping::u64_specs::wrapping_add(
            vstd::wrapping::u64_specs::wrapping_mul(s, LCG_MULTIPLIER),
            LCG_INCREMENT,
        ) == lcg_next(s),
{
    let m: int = 0x1_0000_0000_0000_0000;
    let x: int = s as int * LCG_MULTIPLIER as int;
    let c: int = LCG_INCREMENT as int;
    let a: int = x % m;
    assert(0 <= a < m);
    lemma_add_mod_noop(x, c, m);
    lemma_small_mod(c as nat, m as nat);
    if a + c >= m {
        lemma_mod_sub_multiples_vanish(a + c, m);
        lemma_small_mod((a + c - m) as nat, m as nat);
    } else {
        lemma_small_mod((a + c) as nat, m as nat);
    }
}

/// A linear congruential generator.
pub struct Lcg {
    pub state: u64,
}

impl Lcg {
    /// A generator starting from the seed (`Lcg::new`).
    pub fn new(seed: u64) -> (r: Lcg)
        ensures
            r.state == seed,
    {
        Lcg { state: seed }
    }

    /// Steps the generator and hands out a number below `max` (`Lcg::next_usize`).
    pub fn next_usize(&mut self, max: usize) -> (r: usize)
        requires
            max > 0,
        ensures
            final(self).state == lcg_next(old(self).state),
            r as nat == lcg_draw(old(self).state, max as nat),
    {
        proof {
            lemma_wrapping_step(self.state);
        }
        let next = self.state.wrapping_mul(LCG_MULTIPLIER).wrapping_add(LCG_INCREMENT);
        self.state = next;
        let high = next >> 32u64;
        assert(high < 0x1_0000_0000) by (bit_vector)
            requires
                high == next >> 32u64,
        ;
        (high as usize) % max
    }
}

/// Draws a card and adds it to the cards drawn so far unless it is already among them (one
/// step of `random_board`).
pub fn draw_board_card(rng: &mut Lcg, cards: &mut Vec<Card>)
    ensures
        final(rng).state == lcg_next(old(rng).state),
        ({
            let c = lcg_draw(old(rng).state, 52) as u8;
            final(cards)@ == if old(cards)@.contains(c) {
                old(cards)@
            } else {
                old(cards)@.push(c)
            }
        }),
{
    let card = rng.next_usize(52) as u8;
    if !board_contains(cards.as_slice(), card) {
        cards.push(card);
    }
}

/// The names of the cards, in order, written back to back.
pub open spec fn cards_name(cards: Seq<Card>) -> Seq<char>
    decreases cards.len(),
{
    if cards.len() == 0 {
        seq![]
    } else {
        cards_name(cards.drop_last()) + card_name(cards.last())
    }
}

/// The names of the cards written back to back (the text `random_board` returns).
pub fn cards_text(cards: &[Card]) -> (s: String)
    ensures
        s@ == cards_name(cards@),
{
    let mut v: Vec<char> = Vec::new();
    let n = cards.len();
    let mut i: usize = 0;
    while i < n
        invariant
            i <= n,
            n == cards@.len(),
            v@ == cards_name(cards@.take(i as int)),
        decreases n - i,
    {
        let name = card_to_string(cards[i]);
        assert(cards@.take(i + 1).drop_last() == cards@.take(i as int));
        assert(cards@.take(i + 1).last() == cards@[i as int]);
        push_str(&mut v, name.as_str());
        i = i + 1;
    }
    assert(cards@.take(n as int) == cards@);
    string_of(v.as_slice())
}

/// The fallback spot with the given number and board: `fallback-<number>`, a single-raised
/// pot of the button against the big blind, every hand of the range.
pub open spec fn fallback_text(number: nat, board: Seq<char>) -> SpotText {
    SpotText {
        spot_id: "fallback-"@ + decimal(number),
        spot_type: "srp"@,
        hero_position: "BTN"@,
        villain_position: Some("BB"@),
        board,
        hand: None,
    }
}

/// The fallback spot with the given number and board (as `fallback_sample` makes them).
pub fn fallback_spot(number: usize, board: String) -> (s: ProbeSpot)
    ensures
        spot_text(s) == fallback_text(number as nat, board@),
{
    let mut id = chars_of("fallback-");
    extend_chars(&mut id, decimal_chars(number as u64).as_slice());
    ProbeSpot {
        spot_id: string_of(id.as_slice()),
        spot_type: string_of(chars_of("srp").as_slice()),
        hero_position: string_of(chars_of("BTN").as_slice()),
        villain_position: Some(string_of(chars_of("BB").as_slice())),
        board,
        hand: None,
    }
}

} // verus!
