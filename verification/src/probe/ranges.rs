//! Preflop ranges of the stat probe: the tables by position, how a spot's two ranges
//! are chosen, and how range text is tidied for the solver.
use crate::debug_run::ranges::{rank_value, rank_worth};
use crate::debug_run::scenarios::{BTN_RANGE, CO_RANGE, HJ_RANGE, SB_RANGE, UTG_RANGE};
use crate::text::{
    ascii_upper, chars_of, extend_chars, find_char, first_index_of, join_chars, join_with,
    lemma_first_index_of, lemma_last_index_of, lemma_split_join, lemma_split_on_nonempty,
    lemma_split_pieces_lack_sep, lemma_trim_ends, lemma_trim_plain_text, lemma_trim_slice,
    lemma_trim_twice, last_index_of, message, push_str, rfind_char, split_chars, split_on,
    str_equals, string_of, sub_chars, to_ascii_upper, trim, trim_chars,
};
use vstd::prelude::*;

verus! {

/// A table entry, taken as characters.
pub open spec fn text_option(r: Option<&str>) -> Option<Seq<char>> {
    match r {
        Some(s) => Some(s@),
        None => None,
    }
}

/// The opening range of a position, when it has one.
pub open spec fn rfi_table(position: Seq<char>) -> Option<Seq<char>> {
    if position == "UTG"@ {
        Some("66+,A2s+,K6s+,QTs+,ATo+,KJo+,JTs,T9s,65s"@)
    } else if position == "HJ"@ {
        Some("55+,A2s+,K5s+,Q9s+,A9o+,KTo+,QTo+,J9s+,T8s+,65s"@)
    } else if position == "CO"@ {
        Some("44+,A2s+,K3s+,Q6s+,A8o+,KTo+,QTo+,JTo,J8s+,T8s+,98s,78s,67s,65s,54s,A5o"@)
    } else if position == "BTN"@ {
        Some("22+,A2s+,K2s+,Q2s+,A2o+,K7o+,Q9o+,J9o+,T9o,J4s+,T6s+,96s+,86s+,75s+,65s,54s"@)
    } else if position == "SB"@ {
        Some("22+,A2s+,K2s+,Q2s+,A2o+,K7o+,Q9o+,J9o+,T9o,J4s+,T6s+,96s+,85s+,75s+,64s+,53s+"@)
    } else {
        None
    }
}

/// The opening range of a position, when it has one (`rfi_range`).
pub fn rfi_range(position: &str) -> (r: Option<&'static str>)
    ensures
        text_option(r) == rfi_table(position@),
{
    if str_equals(position, "UTG") {
        return Some("66+,A2s+,K6s+,QTs+,ATo+,KJo+,JTs,T9s,65s");
    }
    if str_equals(position, "HJ") {
        return Some("55+,A2s+,K5s+,Q9s+,A9o+,KTo+,QTo+,J9s+,T8s+,65s");
    }
    if str_equals(position, "CO") {
        return Some("44+,A2s+,K3s+,Q6s+,A8o+,KTo+,QTo+,JTo,J8s+,T8s+,98s,78s,67s,65s,54s,A5o");
    }
    if str_equals(position, "BTN") {
        return Some("22+,A2s+,K2s+,Q2s+,A2o+,K7o+,Q9o+,J9o+,T9o,J4s+,T6s+,96s+,86s+,75s+,65s,54s");
    }
    if str_equals(position, "SB") {
        return Some("22+,A2s+,K2s+,Q2s+,A2o+,K7o+,Q9o+,J9o+,T9o,J4s+,T6s+,96s+,85s+,75s+,64s+,53s+");
    }
    None
}

/// The range with which a defender 3-bets an opener, when it is known.
pub open spec fn vs_open_3bet_table(defender: Seq<char>, opener: Seq<char>) -> Option<Seq<char>> {
    if defender == "HJ"@ && opener == "UTG"@ {
        Some("99+,ATs+,KTs+,AQo+,65s,A4s-A5s"@)
    } else if defender == "CO"@ && opener == "UTG"@ {
        Some("88+,ATs+,KTs+,AQo+,65s,A4s-A5s"@)
    } else if defender == "CO"@ && opener == "HJ"@ {
        Some("88+,ATs+,KTs+,AQo+,KQo,QJs,65s,A3s-A5s"@)
    } else if defender == "BTN"@ && opener == "UTG"@ {
        Some("QQ+,AKs,AKo,KQo,QJs,JTs,T9s,K9s-KTs,A8s,A3s-A5s,65s"@)
    } else if defender == "BTN"@ && opener == "HJ"@ {
        Some("QQ+,AKs,AKo,KQo,QJs,JTs,T9s,K9s-KTs,A3s-A8s,65s,76s,AJo"@)
    } else if defender == "BTN"@ && opener == "CO"@ {
        Some("QQ+,AKs,AKo,KQo,QJs,J9s+,T9s,K8s-K9s,A2s-A3s,A5s-A7s,65s,76s,AJo-ATo,Q9s"@)
    } else if defender == "SB"@ && opener == "UTG"@ {
        Some("TT+,ATs+,KTs+,QJs,AKo,A5s,65s"@)
    } else if defender == "SB"@ && opener == "HJ"@ {
        Some("99+,ATs+,KTs+,QJs,AKo,JTs,A4s-A5s,65s"@)
    } else if defender == "SB"@ && opener == "CO"@ {
        Some("88+,ATs+,KTs+,QTs+,AQo+,JTs,A4s-A5s,65s"@)
    } else if defender == "SB"@ && opener == "BTN"@ {
        Some("66+,A7s+,K9s+,QTs+,AJo+,JTs,A4s-A5s,65s,KQo,T9s"@)
    } else if defender == "BB"@ && opener == "UTG"@ {
        Some("QQ+,QJs,K7s,A5s-A3s,65s,AKs,AKo"@)
    } else if defender == "BB"@ && opener == "HJ"@ {
        Some("QQ+,QTs+,KJs+,JTs,T9s,K7s,A5s-A3s,65s,AKs,AKo"@)
    } else if defender == "BB"@ && opener == "CO"@ {
        Some("JJ+,AQs,Q9s+,KTs+,J9s+,T9s,K7s,A5s-A3s,65s,AKs,AKo,67s"@)
    } else if defender == "BB"@ && opener == "BTN"@ {
        Some("TT+,KQs,QJs,J8s+,T7s+,A5s,65s,AKs,AQo+,67s,54s,98s,A5o"@)
    } else if defender == "BB"@ && opener == "SB"@ {
        Some("TT+,AQs,KQs,J8s+,T9s+,A5s,65s,AKs,AQo+,76s,54s,98s,A3o-A6o,K8o-K9o,J9o,T8o,J5s-J2s,T5s-T4s"@)
    } else {
        None
    }
}

/// The range with which a defender 3-bets an opener, when it is known (`vs_open_3bet_range`).
pub fn vs_open_3bet_range(defender: &str, opener: &str) -> (r: Option<&'static str>)
    ensures
        text_option(r) == vs_open_3bet_table(defender@, opener@),
{
    if str_equals(defender, "HJ") && str_equals(opener, "UTG") {
        return Some("99+,ATs+,KTs+,AQo+,65s,A4s-A5s");
    }
    if str_equals(defender, "CO") && str_equals(opener, "UTG") {
        return Some("88+,ATs+,KTs+,AQo+,65s,A4s-A5s");
    }
    if str_equals(defender, "CO") && str_equals(opener, "HJ") {
        return Some("88+,ATs+,KTs+,AQo+,KQo,QJs,65s,A3s-A5s");
    }
    if str_equals(defender, "BTN") && str_equals(opener, "UTG") {
        return Some("QQ+,AKs,AKo,KQo,QJs,JTs,T9s,K9s-KTs,A8s,A3s-A5s,65s");
    }
    if str_equals(defender, "BTN") && str_equals(opener, "HJ") {
        return Some("QQ+,AKs,AKo,KQo,QJs,JTs,T9s,K9s-KTs,A3s-A8s,65s,76s,AJo");
    }
    if str_equals(defender, "BTN") && str_equals(opener, "CO") {
        return Some("QQ+,AKs,AKo,KQo,QJs,J9s+,T9s,K8s-K9s,A2s-A3s,A5s-A7s,65s,76s,AJo-ATo,Q9s");
    }
    if str_equals(defender, "SB") && str_equals(opener, "UTG") {
        return Some("TT+,ATs+,KTs+,QJs,AKo,A5s,65s");
    }
    if str_equals(defender, "SB") && str_equals(opener, "HJ") {
        return Some("99+,ATs+,KTs+,QJs,AKo,JTs,A4s-A5s,65s");
    }
    if str_equals(defender, "SB") && str_equals(opener, "CO") {
        return Some("88+,ATs+,KTs+,QTs+,AQo+,JTs,A4s-A5s,65s");
    }
    if str_equals(defender, "SB") && str_equals(opener, "BTN") {
        return Some("66+,A7s+,K9s+,QTs+,AJo+,JTs,A4s-A5s,65s,KQo,T9s");
    }
    if str_equals(defender, "BB") && str_equals(opener, "UTG") {
        return Some("QQ+,QJs,K7s,A5s-A3s,65s,AKs,AKo");
    }
    if str_equals(defender, "BB") && str_equals(opener, "HJ") {
        return Some("QQ+,QTs+,KJs+,JTs,T9s,K7s,A5s-A3s,65s,AKs,AKo");
    }
    if str_equals(defender, "BB") && str_equals(opener, "CO") {
        return Some("JJ+,AQs,Q9s+,KTs+,J9s+,T9s,K7s,A5s-A3s,65s,AKs,AKo,67s");
    }
    if str_equals(defender, "BB") && str_equals(opener, "BTN") {
        return Some("TT+,KQs,QJs,J8s+,T7s+,A5s,65s,AKs,AQo+,67s,54s,98s,A5o");
    }
    if str_equals(defender, "BB") && str_equals(opener, "SB") {
        return Some("TT+,AQs,KQs,J8s+,T9s+,A5s,65s,AKs,AQo+,76s,54s,98s,A3o-A6o,K8o-K9o,J9o,T8o,J5s-J2s,T5s-T4s");
    }
    None
}

/// The range with which a defender calls an opener, when it is known.
pub open spec fn vs_open_call_table(defender: Seq<char>, opener: Seq<char>) -> Option<Seq<char>> {
    if defender == "BTN"@ && opener == "UTG"@ {
        Some("77-JJ,A9s-AQs,QTs,AQo,KJs,KQs"@)
    } else if defender == "BTN"@ && opener == "HJ"@ {
        Some("66-JJ,A9s-AQs,QTs,AQo,KJs,KQs"@)
    } else if defender == "BTN"@ && opener == "CO"@ {
        Some("55-JJ,A8s-AQs,QTs,AQo,A4s,KTs+"@)
    } else if defender == "BB"@ && opener == "UTG"@ {
        Some("22-JJ,AQs-A6s,KQs-K8s,QTs-Q9s,JTs-J9s,T9s-T8s,98s-97s,87s-86s,76s-75s,64s,54s-53s,AJo-AQo,KQo,A2s"@)
    } else if defender == "BB"@ && opener == "HJ"@ {
        Some("22-JJ,AQs-A6s,KTs-K8s,Q9s,J9s-J8s,T8s-T7s,98s-97s,87s-86s,76s-75s,64s,54s-53s,ATo-AQo,KJo+,K5s-K6s,KQo,43s,QJo,A2s"@)
    } else if defender == "BB"@ && opener == "CO"@ {
        Some("22-TT,AJs-A6s,K9s-K8s,JTs-J8s,T8s-T7s,98s-96s,87s-85s,75s,64s,54s-53s,ATo-AQo,KTo+,K2s-K6s,QTo+,JTo,Q8s-Q6s,A2s,43s"@)
    } else if defender == "BB"@ && opener == "BTN"@ {
        Some("22-99,AQs-A6s,KJs-K2s,J7s-J4s,T6s,97s-96s,87s-85s,75s-74s,64s-63s,53s,43s,A6o-AJo,K9o+,QTo+,JTo,QTs-Q2s,A2s-A4s,T9o"@)
    } else if defender == "BB"@ && opener == "SB"@ {
        Some("22-99,AJs-A6s,KJs-K2s,J9s-J6s,T8s-T6s,97s-95s,87s-85s,75s-74s,64s-63s,53s-52s,43s,A6o-AJo,K9o+,K2s-K6s,Q9o+,JTo,QJs-Q2s,A2s-A4s,T9o,98o"@)
    } else {
        None
    }
}

/// The range with which a defender calls an opener, when it is known (`vs_open_call_range`).
pub fn vs_open_call_range(defender: &str, opener: &str) -> (r: Option<&'static str>)
    ensures
        text_option(r) == vs_open_call_table(defender@, opener@),
{
    if str_equals(defender, "BTN") && str_equals(opener, "UTG") {
        return Some("77-JJ,A9s-AQs,QTs,AQo,KJs,KQs");
    }
    if str_equals(defender, "BTN") && str_equals(opener, "HJ") {
        return Some("66-JJ,A9s-AQs,QTs,AQo,KJs,KQs");
    }
    if str_equals(defender, "BTN") && str_equals(opener, "CO") {
        return Some("55-JJ,A8s-AQs,QTs,AQo,A4s,KTs+");
    }
    if str_equals(defender, "BB") && str_equals(opener, "UTG") {
        return Some("22-JJ,AQs-A6s,KQs-K8s,QTs-Q9s,JTs-J9s,T9s-T8s,98s-97s,87s-86s,76s-75s,64s,54s-53s,AJo-AQo,KQo,A2s");
    }
    if str_equals(defender, "BB") && str_equals(opener, "HJ") {
        return Some("22-JJ,AQs-A6s,KTs-K8s,Q9s,J9s-J8s,T8s-T7s,98s-97s,87s-86s,76s-75s,64s,54s-53s,ATo-AQo,KJo+,K5s-K6s,KQo,43s,QJo,A2s");
    }
    if str_equals(defender, "BB") && str_equals(opener, "CO") {
        return Some("22-TT,AJs-A6s,K9s-K8s,JTs-J8s,T8s-T7s,98s-96s,87s-85s,75s,64s,54s-53s,ATo-AQo,KTo+,K2s-K6s,QTo+,JTo,Q8s-Q6s,A2s,43s");
    }
    if str_equals(defender, "BB") && str_equals(opener, "BTN") {
        return Some("22-99,AQs-A6s,KJs-K2s,J7s-J4s,T6s,97s-96s,87s-85s,75s-74s,64s-63s,53s,43s,A6o-AJo,K9o+,QTo+,JTo,QTs-Q2s,A2s-A4s,T9o");
    }
    if str_equals(defender, "BB") && str_equals(opener, "SB") {
        return Some("22-99,AJs-A6s,KJs-K2s,J9s-J6s,T8s-T6s,97s-95s,87s-85s,75s-74s,64s-63s,53s-52s,43s,A6o-AJo,K9o+,K2s-K6s,Q9o+,JTo,QJs-Q2s,A2s-A4s,T9o,98o");
    }
    None
}

/// The range with which an opener 4-bets a 3-bettor, when it is known.
pub open spec fn threebet_defense_4bet_table(opener: Seq<char>, threebettor: Seq<char>) -> Option<Seq<char>> {
    if opener == "UTG"@ && threebettor == "HJ"@ {
        Some("KK+,AKs,AKo,AJs,KQs,A5s"@)
    } else if opener == "UTG"@ && threebettor == "CO"@ {
        Some("KK+,AKs,AKo,AJs,KQs,A5s"@)
    } else if opener == "UTG"@ && threebettor == "BTN"@ {
        Some("KK+,AKs,AKo,AJs,A5s"@)
    } else if opener == "UTG"@ && threebettor == "SB"@ {
        Some("KK+,AKo,A4s"@)
    } else if opener == "UTG"@ && threebettor == "BB"@ {
        Some("KK+,AKo,A4s"@)
    } else if opener == "HJ"@ && threebettor == "CO"@ {
        Some("QQ+,KJs+,AKs,AKo,AJs,A5s"@)
    } else if opener == "HJ"@ && threebettor == "BTN"@ {
        Some("QQ+,KJs-KTs,AKs,AKo,A5s"@)
    } else if opener == "HJ"@ && threebettor == "SB"@ {
        Some("KK+,KJs-KTs,A4s"@)
    } else if opener == "HJ"@ && threebettor == "BB"@ {
        Some("KK+,KTs,A3s"@)
    } else if opener == "CO"@ && threebettor == "BTN"@ {
        Some("QQ+,AKs,AQo+,KTs-KJs,ATs,JTs,A4s"@)
    } else if opener == "CO"@ && threebettor == "SB"@ {
        Some("KK+,AKo,K9s,A4s"@)
    } else if opener == "CO"@ && threebettor == "BB"@ {
        Some("KK+,AKo,K9s,A7s,A2s"@)
    } else if opener == "BTN"@ && threebettor == "SB"@ {
        Some("QQ+,AJs,A7s,A3s,K9s,AKo,AJo"@)
    } else if opener == "BTN"@ && threebettor == "BB"@ {
        Some("QQ+,AJs,A2s,K7s-K6s,AKo,AJo"@)
    } else if opener == "SB"@ && threebettor == "BB"@ {
        Some("AA-JJ,ATo+,AKs,A6s,A3s-A2s,K5s"@)
    } else {
        None
    }
}

/// The range with which an opener 4-bets a 3-bettor, when it is known (`threebet_defense_4bet_range`).
pub fn threebet_defense_4bet_range(opener: &str, threebettor: &str) -> (r: Option<&'static str>)
    ensures
        text_option(r) == threebet_defense_4bet_table(opener@, threebettor@),
{
    if str_equals(opener, "UTG") && str_equals(threebettor, "HJ") {
        return Some("KK+,AKs,AKo,AJs,KQs,A5s");
    }
    if str_equals(opener, "UTG") && str_equals(threebettor, "CO") {
        return Some("KK+,AKs,AKo,AJs,KQs,A5s");
    }
    if str_equals(opener, "UTG") && str_equals(threebettor, "BTN") {
        return Some("KK+,AKs,AKo,AJs,A5s");
    }
    if str_equals(opener, "UTG") && str_equals(threebettor, "SB") {
        return Some("KK+,AKo,A4s");
    }
    if str_equals(opener, "UTG") && str_equals(threebettor, "BB") {
        return Some("KK+,AKo,A4s");
    }
    if str_equals(opener, "HJ") && str_equals(threebettor, "CO") {
        return Some("QQ+,KJs+,AKs,AKo,AJs,A5s");
    }
    if str_equals(opener, "HJ") && str_equals(threebettor, "BTN") {
        return Some("QQ+,KJs-KTs,AKs,AKo,A5s");
    }
    if str_equals(opener, "HJ") && str_equals(threebettor, "SB") {
        return Some("KK+,KJs-KTs,A4s");
    }
    if str_equals(opener, "HJ") && str_equals(threebettor, "BB") {
        return Some("KK+,KTs,A3s");
    }
    if str_equals(opener, "CO") && str_equals(threebettor, "BTN") {
        return Some("QQ+,AKs,AQo+,KTs-KJs,ATs,JTs,A4s");
    }
    if str_equals(opener, "CO") && str_equals(threebettor, "SB") {
        return Some("KK+,AKo,K9s,A4s");
    }
    if str_equals(opener, "CO") && str_equals(threebettor, "BB") {
        return Some("KK+,AKo,K9s,A7s,A2s");
    }
    if str_equals(opener, "BTN") && str_equals(threebettor, "SB") {
        return Some("QQ+,AJs,A7s,A3s,K9s,AKo,AJo");
    }
    if str_equals(opener, "BTN") && str_equals(threebettor, "BB") {
        return Some("QQ+,AJs,A2s,K7s-K6s,AKo,AJo");
    }
    if str_equals(opener, "SB") && str_equals(threebettor, "BB") {
        return Some("AA-JJ,ATo+,AKs,A6s,A3s-A2s,K5s");
    }
    None
}

/// The range with which an opener calls a 3-bet, when it is known.
pub open spec fn threebet_defense_call_table(opener: Seq<char>, threebettor: Seq<char>) -> Option<Seq<char>> {
    if opener == "UTG"@ && threebettor == "HJ"@ {
        Some("QQ-JJ,99-66,AQs,JTs,65s"@)
    } else if opener == "UTG"@ && threebettor == "CO"@ {
        Some("QQ-JJ,99-66,AQs,JTs,65s,KJs,ATs"@)
    } else if opener == "UTG"@ && threebettor == "BTN"@ {
        Some("QQ-55,AQs,JTs,65s,KJs+,ATs,QJs"@)
    } else if opener == "UTG"@ && threebettor == "SB"@ {
        Some("QQ-66,AQs,JTs,65s,KJs+,ATs,QJs,AKs,AJs,A5s"@)
    } else if opener == "UTG"@ && threebettor == "BB"@ {
        Some("QQ-66,AQs,JTs,65s,KJs+,ATs,QJs,AKs,AJs,A5s,A9s"@)
    } else if opener == "HJ"@ && threebettor == "CO"@ {
        Some("AQs,ATs,JTs,JJ-88,55,65s"@)
    } else if opener == "HJ"@ && threebettor == "BTN"@ {
        Some("AQs-A9s,JTs,JJ-55,65s,KQs,T9s,QJs"@)
    } else if opener == "HJ"@ && threebettor == "SB"@ {
        Some("AQs-ATs,JTs,QQ-77,55,65s,KQs,T9s,AKs,AKo,A5s,QJs"@)
    } else if opener == "HJ"@ && threebettor == "BB"@ {
        Some("AQs-A9s,JTs,QQ-55,65s,T9s,AKs,AKo,A5s-A4s,QTs+,KTs+"@)
    } else if opener == "CO"@ && threebettor == "BTN"@ {
        Some("JJ-44,AJs-AQs,A9s,A5s,KQs,T9s,65s,QTs+"@)
    } else if opener == "CO"@ && threebettor == "SB"@ {
        Some("QQ-77,55,ATs+,A5s,KTs+,T9s,65s,QTs+,J9s+,AQo"@)
    } else if opener == "CO"@ && threebettor == "BB"@ {
        Some("QQ-55,A8s+,A5s-A3s,KTs+,T9s,65s,QTs+,JTs,AQo,67s"@)
    } else if opener == "BTN"@ && threebettor == "SB"@ {
        Some("JJ-44,A8s+,A4s-A5s,KTs+,QTs+,J9s+,T8s+,98s,87s,67s,65s,54s,KQo,AQo"@)
    } else if opener == "BTN"@ && threebettor == "BB"@ {
        Some("JJ-44,A3s+,K8s+,Q9s+,J8s+,T8s+,98s,87s,67s,65s,54s,KQo,AQo"@)
    } else if opener == "SB"@ && threebettor == "BB"@ {
        Some("AQs-A7s,A5s-A4s,K8s+,Q9s+,J8s+,T8s+,76s,65s,54s,TT-44"@)
    } else {
        None
    }
}

/// The range with which an opener calls a 3-bet, when it is known (`threebet_defense_call_range`).
pub fn threebet_defense_call_range(opener: &str, threebettor: &str) -> (r: Option<&'static str>)
    ensures
        text_option(r) == threebet_defense_call_table(opener@, threebettor@),
{
    if str_equals(opener, "UTG") && str_equals(threebettor, "HJ") {
        return Some("QQ-JJ,99-66,AQs,JTs,65s");
    }
    if str_equals(opener, "UTG") && str_equals(threebettor, "CO") {
        return Some("QQ-JJ,99-66,AQs,JTs,65s,KJs,ATs");
    }
    if str_equals(opener, "UTG") && str_equals(threebettor, "BTN") {
        return Some("QQ-55,AQs,JTs,65s,KJs+,ATs,QJs");
    }
    if str_equals(opener, "UTG") && str_equals(threebettor, "SB") {
        return Some("QQ-66,AQs,JTs,65s,KJs+,ATs,QJs,AKs,AJs,A5s");
    }
    if str_equals(opener, "UTG") && str_equals(threebettor, "BB") {
        return Some("QQ-66,AQs,JTs,65s,KJs+,ATs,QJs,AKs,AJs,A5s,A9s");
    }
    if str_equals(opener, "HJ") && str_equals(threebettor, "CO") {
        return Some("AQs,ATs,JTs,JJ-88,55,65s");
    }
    if str_equals(opener, "HJ") && str_equals(threebettor, "BTN") {
        return Some("AQs-A9s,JTs,JJ-55,65s,KQs,T9s,QJs");
    }
    if str_equals(opener, "HJ") && str_equals(threebettor, "SB") {
        return Some("AQs-ATs,JTs,QQ-77,55,65s,KQs,T9s,AKs,AKo,A5s,QJs");
    }
    if str_equals(opener, "HJ") && str_equals(threebettor, "BB") {
        return Some("AQs-A9s,JTs,QQ-55,65s,T9s,AKs,AKo,A5s-A4s,QTs+,KTs+");
    }
    if str_equals(opener, "CO") && str_equals(threebettor, "BTN") {
        return Some("JJ-44,AJs-AQs,A9s,A5s,KQs,T9s,65s,QTs+");
    }
    if str_equals(opener, "CO") && str_equals(threebettor, "SB") {
        return Some("QQ-77,55,ATs+,A5s,KTs+,T9s,65s,QTs+,J9s+,AQo");
    }
    if str_equals(opener, "CO") && str_equals(threebettor, "BB") {
        return Some("QQ-55,A8s+,A5s-A3s,KTs+,T9s,65s,QTs+,JTs,AQo,67s");
    }
    if str_equals(opener, "BTN") && str_equals(threebettor, "SB") {
        return Some("JJ-44,A8s+,A4s-A5s,KTs+,QTs+,J9s+,T8s+,98s,87s,67s,65s,54s,KQo,AQo");
    }
    if str_equals(opener, "BTN") && str_equals(threebettor, "BB") {
        return Some("JJ-44,A3s+,K8s+,Q9s+,J8s+,T8s+,98s,87s,67s,65s,54s,KQo,AQo");
    }
    if str_equals(opener, "SB") && str_equals(threebettor, "BB") {
        return Some("AQs-A7s,A5s-A4s,K8s+,Q9s+,J8s+,T8s+,76s,65s,54s,TT-44");
    }
    None
}

/// The range with which a defender shoves over a 4-bet, when it is known.
pub open spec fn fourbet_defense_shove_table(defender: Seq<char>, fourbettor: Seq<char>) -> Option<Seq<char>> {
    if defender == "HJ"@ && fourbettor == "UTG"@ {
        Some("KK,AKo"@)
    } else if defender == "CO"@ && fourbettor == "UTG"@ {
        Some("KK,AKo"@)
    } else if defender == "CO"@ && fourbettor == "HJ"@ {
        Some("KK,AKo"@)
    } else if defender == "BTN"@ && fourbettor == "UTG"@ {
        Some("KK,AKo"@)
    } else if defender == "BTN"@ && fourbettor == "HJ"@ {
        Some("KK,AKo"@)
    } else if defender == "BTN"@ && fourbettor == "CO"@ {
        Some("KK,AKo"@)
    } else if defender == "SB"@ && fourbettor == "UTG"@ {
        Some("KK+,AKo"@)
    } else if defender == "SB"@ && fourbettor == "HJ"@ {
        Some("KK+,AKo"@)
    } else if defender == "SB"@ && fourbettor == "CO"@ {
        Some("KK+,AKo,A5s"@)
    } else if defender == "SB"@ && fourbettor == "BTN"@ {
        Some("QQ+,AKo,AKs,A5s"@)
    } else if defender == "BB"@ && fourbettor == "UTG"@ {
        Some("AA,A5s"@)
    } else if defender == "BB"@ && fourbettor == "HJ"@ {
        Some("KK+,AKo"@)
    } else if defender == "BB"@ && fourbettor == "CO"@ {
        Some("KK+,AKo,JJ"@)
    } else if defender == "BB"@ && fourbettor == "BTN"@ {
        Some("KK-JJ,AKo,A5s"@)
    } else if defender == "BB"@ && fourbettor == "SB"@ {
        Some("KK-JJ,AKo,A5s,KQs"@)
    } else {
        None
    }
}

/// The range with which a defender shoves over a 4-bet, when it is known (`fourbet_defense_shove_range`).
pub fn fourbet_defense_shove_range(defender: &str, fourbettor: &str) -> (r: Option<&'static str>)
    ensures
        text_option(r) == fourbet_defense_shove_table(defender@, fourbettor@),
{
    if str_equals(defender, "HJ") && str_equals(fourbettor, "UTG") {
        return Some("KK,AKo");
    }
    if str_equals(defender, "CO") && str_equals(fourbettor, "UTG") {
        return Some("KK,AKo");
    }
    if str_equals(defender, "CO") && str_equals(fourbettor, "HJ") {
        return Some("KK,AKo");
    }
    if str_equals(defender, "BTN") && str_equals(fourbettor, "UTG") {
        return Some("KK,AKo");
    }
    if str_equals(defender, "BTN") && str_equals(fourbettor, "HJ") {
        return Some("KK,AKo");
    }
    if str_equals(defender, "BTN") && str_equals(fourbettor, "CO") {
        return Some("KK,AKo");
    }
    if str_equals(defender, "SB") && str_equals(fourbettor, "UTG") {
        return Some("KK+,AKo");
    }
    if str_equals(defender, "SB") && str_equals(fourbettor, "HJ") {
        return Some("KK+,AKo");
    }
    if str_equals(defender, "SB") && str_equals(fourbettor, "CO") {
        return Some("KK+,AKo,A5s");
    }
    if str_equals(defender, "SB") && str_equals(fourbettor, "BTN") {
        return Some("QQ+,AKo,AKs,A5s");
    }
    if str_equals(defender, "BB") && str_equals(fourbettor, "UTG") {
        return Some("AA,A5s");
    }
    if str_equals(defender, "BB") && str_equals(fourbettor, "HJ") {
        return Some("KK+,AKo");
    }
    if str_equals(defender, "BB") && str_equals(fourbettor, "CO") {
        return Some("KK+,AKo,JJ");
    }
    if str_equals(defender, "BB") && str_equals(fourbettor, "BTN") {
        return Some("KK-JJ,AKo,A5s");
    }
    if str_equals(defender, "BB") && str_equals(fourbettor, "SB") {
        return Some("KK-JJ,AKo,A5s,KQs");
    }
    None
}

/// The range with which a defender calls a 4-bet, when it is known.
pub open spec fn fourbet_defense_call_table(defender: Seq<char>, fourbettor: Seq<char>) -> Option<Seq<char>> {
    if defender == "HJ"@ && fourbettor == "UTG"@ {
        Some("AA,ATs+,QQ-JJ,99,65s"@)
    } else if defender == "CO"@ && fourbettor == "UTG"@ {
        Some("AA,ATs+,QQ-JJ,99,65s,KQs"@)
    } else if defender == "CO"@ && fourbettor == "HJ"@ {
        Some("AA,ATs+,QQ-JJ,99,65s,KQs,A5s"@)
    } else if defender == "BTN"@ && fourbettor == "UTG"@ {
        Some("AA,AKs,QQ,T9s,65s,A5s"@)
    } else if defender == "BTN"@ && fourbettor == "HJ"@ {
        Some("AA,AKs,QQ,T9s,65s,A5s,76s"@)
    } else if defender == "BTN"@ && fourbettor == "CO"@ {
        Some("AA,AKs,QQ,T9s,65s,A5s,76s,J9s"@)
    } else if defender == "SB"@ && fourbettor == "UTG"@ {
        Some("AKs,AJs,QQ,65s"@)
    } else if defender == "SB"@ && fourbettor == "HJ"@ {
        Some("AJs+,QQ-JJ,99,65s"@)
    } else if defender == "SB"@ && fourbettor == "CO"@ {
        Some("AJs+,QQ-JJ,99-88,65s,JTs"@)
    } else if defender == "SB"@ && fourbettor == "BTN"@ {
        Some("ATs+,JJ-88,65s,JTs,66,T9s,QTs,KQs,AQo"@)
    } else if defender == "BB"@ && fourbettor == "UTG"@ {
        Some("AKs,KK-QQ,65s"@)
    } else if defender == "BB"@ && fourbettor == "HJ"@ {
        Some("AKs,QQ,65s,T9s"@)
    } else if defender == "BB"@ && fourbettor == "CO"@ {
        Some("AKs,QQ,65s,T9s,JTs,AQs"@)
    } else if defender == "BB"@ && fourbettor == "BTN"@ {
        Some("AKs,65s,T9s,JTs,76s,TT,AQo,KQs,AQs,AA"@)
    } else if defender == "BB"@ && fourbettor == "SB"@ {
        Some("AA,AKs-AQs,65s,T9s,JTs,76s,TT,AQo,KQs,98s,54s"@)
    } else {
        None
    }
}

/// The range with which a defender calls a 4-bet, when it is known (`fourbet_defense_call_range`).
pub fn fourbet_defense_call_range(defender: &str, fourbettor: &str) -> (r: Option<&'static str>)
    ensures
        text_option(r) == fourbet_defense_call_table(defender@, fourbettor@),
{
    if str_equals(defender, "HJ") && str_equals(fourbettor, "UTG") {
        return Some("AA,ATs+,QQ-JJ,99,65s");
    }
    if str_equals(defender, "CO") && str_equals(fourbettor, "UTG") {
        return Some("AA,ATs+,QQ-JJ,99,65s,KQs");
    }
    if str_equals(defender, "CO") && str_equals(fourbettor, "HJ") {
        return Some("AA,ATs+,QQ-JJ,99,65s,KQs,A5s");
    }
    if str_equals(defender, "BTN") && str_equals(fourbettor, "UTG") {
        return Some("AA,AKs,QQ,T9s,65s,A5s");
    }
    if str_equals(defender, "BTN") && str_equals(fourbettor, "HJ") {
        return Some("AA,AKs,QQ,T9s,65s,A5s,76s");
    }
    if str_equals(defender, "BTN") && str_equals(fourbettor, "CO") {
        return Some("AA,AKs,QQ,T9s,65s,A5s,76s,J9s");
    }
    if str_equals(defender, "SB") && str_equals(fourbettor, "UTG") {
        return Some("AKs,AJs,QQ,65s");
    }
    if str_equals(defender, "SB") && str_equals(fourbettor, "HJ") {
        return Some("AJs+,QQ-JJ,99,65s");
    }
    if str_equals(defender, "SB") && str_equals(fourbettor, "CO") {
        return Some("AJs+,QQ-JJ,99-88,65s,JTs");
    }
    if str_equals(defender, "SB") && str_equals(fourbettor, "BTN") {
        return Some("ATs+,JJ-88,65s,JTs,66,T9s,QTs,KQs,AQo");
    }
    if str_equals(defender, "BB") && str_equals(fourbettor, "UTG") {
        return Some("AKs,KK-QQ,65s");
    }
    if str_equals(defender, "BB") && str_equals(fourbettor, "HJ") {
        return Some("AKs,QQ,65s,T9s");
    }
    if str_equals(defender, "BB") && str_equals(fourbettor, "CO") {
        return Some("AKs,QQ,65s,T9s,JTs,AQs");
    }
    if str_equals(defender, "BB") && str_equals(fourbettor, "BTN") {
        return Some("AKs,65s,T9s,JTs,76s,TT,AQo,KQs,AQs,AA");
    }
    if str_equals(defender, "BB") && str_equals(fourbettor, "SB") {
        return Some("AA,AKs-AQs,65s,T9s,JTs,76s,TT,AQo,KQs,98s,54s");
    }
    None
}

/// The range with which a defender calls a 5-bet shove, when it is known.
pub open spec fn fivebet_shove_defense_call_table(defender: Seq<char>, shover: Seq<char>) -> Option<Seq<char>> {
    if defender == "UTG"@ && shover == "HJ"@ {
        Some("KK+,AKs"@)
    } else if defender == "UTG"@ && shover == "CO"@ {
        Some("KK+,AKs"@)
    } else if defender == "UTG"@ && shover == "BTN"@ {
        Some("KK+,AKs"@)
    } else if defender == "UTG"@ && shover == "SB"@ {
        Some("KK+"@)
    } else if defender == "UTG"@ && shover == "BB"@ {
        Some("KK+"@)
    } else if defender == "HJ"@ && shover == "CO"@ {
        Some("KK+,AKs,AKo"@)
    } else if defender == "HJ"@ && shover == "BTN"@ {
        Some("KK+,AKs,AKo"@)
    } else if defender == "HJ"@ && shover == "SB"@ {
        Some("KK+"@)
    } else if defender == "HJ"@ && shover == "BB"@ {
        Some("KK+"@)
    } else if defender == "CO"@ && shover == "BTN"@ {
        Some("QQ+,AKs,AKo"@)
    } else if defender == "CO"@ && shover == "SB"@ {
        Some("KK+,AKo"@)
    } else if defender == "CO"@ && shover == "BB"@ {
        Some("KK+,AKo"@)
    } else if defender == "BTN"@ && shover == "SB"@ {
        Some("QQ+,AKo"@)
    } else if defender == "BTN"@ && shover == "BB"@ {
        Some("QQ+,AKo"@)
    } else if defender == "SB"@ && shover == "BB"@ {
        Some("JJ+,AKo,AKs"@)
    } else {
        None
    }
}

/// The range with which a defender calls a 5-bet shove, when it is known (`fivebet_shove_defense_call_range`).
pub fn fivebet_shove_defense_call_range(defender: &str, shover: &str) -> (r: Option<&'static str>)
    ensures
        text_option(r) == fivebet_shove_defense_call_table(defender@, shover@),
{
    if str_equals(defender, "UTG") && str_equals(shover, "HJ") {
        return Some("KK+,AKs");
    }
    if str_equals(defender, "UTG") && str_equals(shover, "CO") {
        return Some("KK+,AKs");
    }
    if str_equals(defender, "UTG") && str_equals(shover, "BTN") {
        return Some("KK+,AKs");
    }
    if str_equals(defender, "UTG") && str_equals(shover, "SB") {
        return Some("KK+");
    }
    if str_equals(defender, "UTG") && str_equals(shover, "BB") {
        return Some("KK+");
    }
    if str_equals(defender, "HJ") && str_equals(shover, "CO") {
        return Some("KK+,AKs,AKo");
    }
    if str_equals(defender, "HJ") && str_equals(shover, "BTN") {
        return Some("KK+,AKs,AKo");
    }
    if str_equals(defender, "HJ") && str_equals(shover, "SB") {
        return Some("KK+");
    }
    if str_equals(defender, "HJ") && str_equals(shover, "BB") {
        return Some("KK+");
    }
    if str_equals(defender, "CO") && str_equals(shover, "BTN") {
        return Some("QQ+,AKs,AKo");
    }
    if str_equals(defender, "CO") && str_equals(shover, "SB") {
        return Some("KK+,AKo");
    }
    if str_equals(defender, "CO") && str_equals(shover, "BB") {
        return Some("KK+,AKo");
    }
    if str_equals(defender, "BTN") && str_equals(shover, "SB") {
        return Some("QQ+,AKo");
    }
    if str_equals(defender, "BTN") && str_equals(shover, "BB") {
        return Some("QQ+,AKo");
    }
    if str_equals(defender, "SB") && str_equals(shover, "BB") {
        return Some("JJ+,AKo,AKs");
    }
    None
}

/// The order of a rank symbol in either case: `2`..`9` their digit, `T` 10 up to `A` 14,
/// anything else 0.
pub open spec fn order_of_rank(c: char) -> i32 {
    rank_worth(ascii_upper(c)) as i32
}

/// The order of a rank symbol (`rank_order`).
pub fn rank_order(rank: char) -> (o: i32)
    ensures
        o == order_of_rank(rank),
{
    rank_value(to_ascii_upper(rank)) as i32
}

/// A hand class trimmed and, when it has at least three characters and its first two are
/// distinct and out of order, with those two swapped.
pub open spec fn normalized_combo(class: Seq<char>) -> Seq<char> {
    let t = trim(class);
    if t.len() < 3 {
        t
    } else if t[0] == t[1] || order_of_rank(t[0]) >= order_of_rank(t[1]) {
        t
    } else {
        seq![t[1], t[0]] + t.skip(2)
    }
}

/// Tidying a hand class twice is tidying it once.
pub proof fn lemma_combo_idempotent(class: Seq<char>)
    ensures
        normalized_combo(normalized_combo(class)) == normalized_combo(class),
{
    let t = trim(class);
    crate::text::lemma_trim_twice(class);
    crate::text::lemma_trim_ends(class);
    if t.len() >= 3 && !(t[0] == t[1] || order_of_rank(t[0]) >= order_of_rank(t[1])) {
        let u = seq![t[1], t[0]] + t.skip(2);
        assert(u.last() == t.last());
        assert(order_of_rank(t[1]) > 0);
        assert(!crate::text::is_ws(t[1]));
        crate::text::lemma_trim_plain_text(u);
        assert(u[0] == t[1] && u[1] == t[0]);
    }
}

fn combo_norm_chars(class: &[char]) -> (r: Vec<char>)
    ensures
        r@ == normalized_combo(class@),
{
    let t = trim_chars(class);
    let n = t.len();
    if n < 3 {
        return t;
    }
    let first = t[0];
    let second = t[1];
    if first == second || rank_order(first) >= rank_order(second) {
        return t;
    }
    let mut r: Vec<char> = Vec::new();
    r.push(second);
    r.push(first);
    let rest = sub_chars(t.as_slice(), 2, n);
    extend_chars(&mut r, rest.as_slice());
    assert(r@ == seq![second, first] + t@.skip(2));
    r
}

/// Writes a hand class high rank first (`normalize_combo_class`), such as `KAs` to `AKs`;
/// pairs and shorter texts are only trimmed.
pub fn normalize_combo_class(class: &str) -> (r: String)
    ensures
        r@ == normalized_combo(class@),
{
    string_of(combo_norm_chars(chars_of(class).as_slice()).as_slice())
}

/// The text without its trailing `+` signs.
pub open spec fn strip_plus(s: Seq<char>) -> Seq<char>
    decreases s.len(),
{
    if s.len() > 0 && s.last() == '+' {
        strip_plus(s.drop_last())
    } else {
        s
    }
}

/// The sort order of a hand class: trimmed, trailing `+` signs dropped, then twenty times the
/// order of its first rank plus the order of its second; 0 for a shorter text.
pub open spec fn combo_order(class: Seq<char>) -> i32 {
    let t = strip_plus(trim(class));
    if t.len() < 2 {
        0
    } else {
        (order_of_rank(t[0]) * 20 + order_of_rank(t[1])) as i32
    }
}

fn combo_order_chars(class: &[char]) -> (o: i32)
    ensures
        o == combo_order(class@),
{
    let t = trim_chars(class);
    let mut j: usize = t.len();
    assert(t@.take(j as int) == t@);
    while j > 0 && t[j - 1] == '+'
        invariant
            j <= t@.len(),
            strip_plus(t@) == strip_plus(t@.take(j as int)),
        decreases j,
    {
        assert(t@.take(j as int).drop_last() == t@.take(j - 1));
        j = j - 1;
    }
    assert(t@.take(t@.len() as int) == t@);
    assert(strip_plus(t@.take(j as int)) == t@.take(j as int));
    if j < 2 {
        return 0;
    }
    rank_order(t[0]) * 20 + rank_order(t[1])
}

/// The sort order of a hand class (`combo_class_order`).
pub fn combo_class_order(class: &str) -> (o: i32)
    ensures
        o == combo_order(class@),
{
    combo_order_chars(chars_of(class).as_slice())
}

/// One range token tidied: trimmed; a span `X-Y` (split at its first `-`) with both ends
/// tidied and the end of higher order written first; otherwise the class tidied.
pub open spec fn normalized_probe_token(token: Seq<char>) -> Seq<char> {
    let t = trim(token);
    match first_index_of(t, '-') {
        None => normalized_combo(t),
        Some(i) => {
            let left = normalized_combo(t.take(i));
            let right = normalized_combo(t.skip(i + 1));
            if combo_order(left) < combo_order(right) {
                trim(right) + seq!['-'] + trim(left)
            } else {
                trim(left) + seq!['-'] + trim(right)
            }
        },
    }
}

fn token_chars(token: &[char]) -> (r: Vec<char>)
    ensures
        r@ == normalized_probe_token(token@),
{
    let t = trim_chars(token);
    proof {
        lemma_first_index_of(t@, '-');
    }
    match find_char(t.as_slice(), '-') {
        None => combo_norm_chars(t.as_slice()),
        Some(i) => {
            let n = t.len();
            let left_raw = sub_chars(t.as_slice(), 0, i);
            let right_raw = sub_chars(t.as_slice(), i + 1, n);
            assert(left_raw@ == t@.take(i as int));
            assert(right_raw@ == t@.skip(i + 1));
            let left = combo_norm_chars(left_raw.as_slice());
            let right = combo_norm_chars(right_raw.as_slice());
            let lt = trim_chars(left.as_slice());
            let rt = trim_chars(right.as_slice());
            let mut r: Vec<char> = Vec::new();
            if combo_order_chars(left.as_slice()) < combo_order_chars(right.as_slice()) {
                extend_chars(&mut r, rt.as_slice());
                r.push('-');
                extend_chars(&mut r, lt.as_slice());
            } else {
                extend_chars(&mut r, lt.as_slice());
                r.push('-');
                extend_chars(&mut r, rt.as_slice());
            }
            r
        },
    }
}

/// Tidies one range token (`normalize_range_token`), such as ` A6s-AQs ` to `AQs-A6s`.
pub fn normalize_range_token(token: &str) -> (r: String)
    ensures
        r@ == normalized_probe_token(token@),
{
    string_of(token_chars(chars_of(token).as_slice()).as_slice())
}

/// A range token without its label: the trimmed text after the last `:`, if there is one.
pub open spec fn without_label(token: Seq<char>) -> Seq<char> {
    match last_index_of(token, ':') {
        Some(i) => trim(token.skip(i + 1)),
        None => token,
    }
}

fn label_chars(token: &[char]) -> (r: Vec<char>)
    ensures
        r@ == without_label(token@),
{
    let n = token.len();
    match rfind_char(token, ':') {
        Some(i) => {
            let rest = sub_chars(token, i + 1, n);
            assert(rest@ == token@.skip(i + 1));
            trim_chars(rest.as_slice())
        },
        None => {
            let mut r: Vec<char> = Vec::new();
            extend_chars(&mut r, token);
            r
        },
    }
}

/// Drops a `name:` label in front of a range (`strip_range_label`).
pub fn strip_range_label(token: &str) -> (r: String)
    ensures
        r@ == without_label(token@),
{
    string_of(label_chars(chars_of(token).as_slice()).as_slice())
}

/// The comma-separated pieces, trimmed, empty ones dropped, labels dropped, each token
/// tidied, and tokens that come out empty dropped.
pub open spec fn probe_tokens(pieces: Seq<Seq<char>>) -> Seq<Seq<char>>
    decreases pieces.len(),
{
    if pieces.len() == 0 {
        seq![]
    } else {
        let prev = probe_tokens(pieces.drop_last());
        let t = trim(pieces.last());
        if t.len() == 0 {
            prev
        } else {
            let n = normalized_probe_token(without_label(t));
            if n.len() == 0 {
                prev
            } else {
                prev.push(n)
            }
        }
    }
}

/// A range written for the solver: its tidied tokens joined with commas.
pub open spec fn probe_range(range: Seq<char>) -> Seq<char> {
    join_with(probe_tokens(split_on(range, ',')), ',')
}

/// Tidies a whole range for the solver (`normalize_range_for_solver`). A piece between commas
/// holds no comma, so no second split at commas is needed after a label is taken off.
pub fn normalize_range_for_solver(range: &str) -> (r: String)
    ensures
        r@ == probe_range(range@),
{
    let chars = chars_of(range);
    let pieces = split_chars(chars.as_slice(), ',');
    let ghost views = pieces@.map_values(|p: Vec<char>| p@);
    let mut out: Vec<Vec<char>> = Vec::new();
    let n = pieces.len();
    let mut i: usize = 0;
    while i < n
        invariant
            i <= n,
            n == pieces@.len(),
            views == pieces@.map_values(|p: Vec<char>| p@),
            views == split_on(range@, ','),
            out@.map_values(|p: Vec<char>| p@) == probe_tokens(views.take(i as int)),
        decreases n - i,
    {
        let t = trim_chars(pieces[i].as_slice());
        assert(views.take(i + 1).drop_last() == views.take(i as int));
        assert(views.take(i + 1).last() == views[i as int]);
        if t.len() > 0 {
            let unlabeled = label_chars(t.as_slice());
            let norm = token_chars(unlabeled.as_slice());
            if norm.len() > 0 {
                let ghost before = out@.map_values(|p: Vec<char>| p@);
                out.push(norm);
                assert(out@.map_values(|p: Vec<char>| p@) == before.push(out@[out@.len() - 1]@));
            }
        }
        i = i + 1;
    }
    assert(views.take(n as int) == views);
    let joined = join_chars(&out, ',');
    string_of(joined.as_slice())
}

/// The ranges that are not blank, in their order.
pub open spec fn nonblank_ranges(ranges: Seq<Seq<char>>) -> Seq<Seq<char>>
    decreases ranges.len(),
{
    if ranges.len() == 0 {
        seq![]
    } else if trim(ranges.last()).len() == 0 {
        nonblank_ranges(ranges.drop_last())
    } else {
        nonblank_ranges(ranges.drop_last()).push(ranges.last())
    }
}

/// The ranges that are not blank, joined with commas.
pub open spec fn combined_ranges(ranges: Seq<Seq<char>>) -> Seq<char> {
    join_with(nonblank_ranges(ranges), ',')
}

/// Joins the ranges that are not blank with commas (`combine_ranges`).
pub fn combine_ranges(ranges: &[&str]) -> (r: String)
    ensures
        r@ == combined_ranges(ranges@.map_values(|s: &str| s@)),
{
    let ghost views = ranges@.map_values(|s: &str| s@);
    let mut out: Vec<Vec<char>> = Vec::new();
    let n = ranges.len();
    let mut i: usize = 0;
    while i < n
        invariant
            i <= n,
            n == ranges@.len(),
            views == ranges@.map_values(|s: &str| s@),
            out@.map_values(|p: Vec<char>| p@) == nonblank_ranges(views.take(i as int)),
        decreases n - i,
    {
        let chars = chars_of(ranges[i]);
        let t = trim_chars(chars.as_slice());
        assert(views.take(i + 1).drop_last() == views.take(i as int));
        assert(views.take(i + 1).last() == views[i as int]);
        if t.len() > 0 {
            let ghost before = out@.map_values(|p: Vec<char>| p@);
            out.push(chars);
            assert(out@.map_values(|p: Vec<char>| p@) == before.push(out@[out@.len() - 1]@));
        }
        i = i + 1;
    }
    assert(views.take(n as int) == views);
    let joined = join_chars(&out, ',');
    string_of(joined.as_slice())
}

/// The two ranges of a spot, written for the solver, and the names they were found under.
pub struct RangePair {
    pub hero_range: String,
    pub villain_range: String,
    pub hero_range_key: String,
    pub villain_range_key: String,
}

/// The four texts of a range pair: hero range, villain range, hero key, villain key.
pub open spec fn pair_texts(p: RangePair) -> (Seq<char>, Seq<char>, Seq<char>, Seq<char>) {
    (p.hero_range@, p.villain_range@, p.hero_range_key@, p.villain_range_key@)
}

/// The texts of a range pair, if there is one.
pub open spec fn pair_option(p: Option<RangePair>) -> Option<(Seq<char>, Seq<char>, Seq<char>, Seq<char>)> {
    match p {
        Some(p) => Some(pair_texts(p)),
        None => None,
    }
}

/// A range pair: both ranges tidied for the solver, the keys kept as given (`make_range_pair`).
pub fn make_range_pair(
    hero_range: &str,
    villain_range: &str,
    hero_range_key: String,
    villain_range_key: String,
) -> (p: RangePair)
    ensures
        pair_texts(p) == (probe_range(hero_range@), probe_range(villain_range@), hero_range_key@, villain_range_key@),
{
    RangePair {
        hero_range: normalize_range_for_solver(hero_range),
        villain_range: normalize_range_for_solver(villain_range),
        hero_range_key,
        villain_range_key,
    }
}

/// The ranges of a single-raised pot: the hero opened, the villain called.
pub open spec fn srp_pair(hero: Seq<char>, villain: Seq<char>) -> Option<
    (Seq<char>, Seq<char>, Seq<char>, Seq<char>),
> {
    match (rfi_table(hero), vs_open_call_table(villain, hero)) {
        (Some(h), Some(v)) => Some(
            (
                probe_range(h),
                probe_range(v),
                hero + " RFI"@,
                villain + " vs "@ + hero + " Open call"@,
            ),
        ),
        _ => None,
    }
}

fn concat4(a: &str, b: &str, c: &str, d: &str) -> (r: String)
    ensures
        r@ == a@ + b@ + c@ + d@,
{
    let mut v = chars_of(a);
    push_str(&mut v, b);
    push_str(&mut v, c);
    push_str(&mut v, d);
    string_of(v.as_slice())
}

/// The ranges of a single-raised pot (`lookup_srp_ranges`).
pub fn lookup_srp_ranges(hero: &str, villain: &str) -> (r: Option<RangePair>)
    ensures
        pair_option(r) == srp_pair(hero@, villain@),
{
    let hero_range = match rfi_range(hero) {
        Some(h) => h,
        None => {
            return None;
        },
    };
    let villain_range = match vs_open_call_range(villain, hero) {
        Some(v) => v,
        None => {
            return None;
        },
    };
    Some(
        make_range_pair(
            hero_range,
            villain_range,
            message(hero, " RFI"),
            concat4(villain, " vs ", hero, " Open call"),
        ),
    )
}

/// The ranges of a 3-bet pot: either the hero opened and defends against the villain's 3-bet
/// by 4-betting or calling, or the hero 3-bet and the villain defends.
pub open spec fn three_bet_pair(hero: Seq<char>, villain: Seq<char>) -> Option<
    (Seq<char>, Seq<char>, Seq<char>, Seq<char>),
> {
    match (
        threebet_defense_4bet_table(hero, villain),
        threebet_defense_call_table(hero, villain),
        vs_open_3bet_table(villain, hero),
    ) {
        (Some(four), Some(call), Some(three)) => Some(
            (
                probe_range(combined_ranges(seq![four, call])),
                probe_range(three),
                hero + " vs "@ + villain + " 3bet Defense 4bet+call"@,
                villain + " vs "@ + hero + " Open 3bet"@,
            ),
        ),
        _ => match (
            vs_open_3bet_table(hero, villain),
            threebet_defense_4bet_table(villain, hero),
            threebet_defense_call_table(villain, hero),
        ) {
            (Some(three), Some(four), Some(call)) => Some(
                (
                    probe_range(three),
                    probe_range(combined_ranges(seq![four, call])),
                    hero + " vs "@ + villain + " Open 3bet"@,
                    villain + " vs "@ + hero + " 3bet Defense 4bet+call"@,
                ),
            ),
            _ => None,
        },
    }
}

/// The ranges of a 3-bet pot (`lookup_3bp_ranges`).
pub fn lookup_3bp_ranges(hero: &str, villain: &str) -> (r: Option<RangePair>)
    ensures
        pair_option(r) == three_bet_pair(hero@, villain@),
{
    let a = threebet_defense_4bet_range(hero, villain);
    let b = threebet_defense_call_range(hero, villain);
    let c = vs_open_3bet_range(villain, hero);
    if let (Some(four), Some(call), Some(three)) = (a, b, c) {
        let parts = [four, call];
        assert(parts@.map_values(|s: &str| s@) == seq![four@, call@]);
        let hero_range = combine_ranges(&parts);
        return Some(
            make_range_pair(
                hero_range.as_str(),
                three,
                concat4(hero, " vs ", villain, " 3bet Defense 4bet+call"),
                concat4(villain, " vs ", hero, " Open 3bet"),
            ),
        );
    }
    let d = vs_open_3bet_range(hero, villain);
    let e = threebet_defense_4bet_range(villain, hero);
    let f = threebet_defense_call_range(villain, hero);
    if let (Some(three), Some(four), Some(call)) = (d, e, f) {
        let parts = [four, call];
        assert(parts@.map_values(|s: &str| s@) == seq![four@, call@]);
        let villain_range = combine_ranges(&parts);
        return Some(
            make_range_pair(
                three,
                villain_range.as_str(),
                concat4(hero, " vs ", villain, " Open 3bet"),
                concat4(villain, " vs ", hero, " 3bet Defense 4bet+call"),
            ),
        );
    }
    None
}

/// The ranges of a 4-bet pot: either the hero 4-bet and the villain defends by shoving or
/// calling, or the villain 4-bet and the hero defends.
pub open spec fn four_bet_pair(hero: Seq<char>, villain: Seq<char>) -> Option<
    (Seq<char>, Seq<char>, Seq<char>, Seq<char>),
> {
    match (
        threebet_defense_4bet_table(hero, villain),
        fourbet_defense_shove_table(villain, hero),
        fourbet_defense_call_table(villain, hero),
    ) {
        (Some(four), Some(shove), Some(call)) => Some(
            (
                probe_range(four),
                probe_range(combined_ranges(seq![shove, call])),
                hero + " vs "@ + villain + " 3bet Defense 4bet"@,
                villain + " vs "@ + hero + " 4bet Defense shove+call"@,
            ),
        ),
        _ => match (
            fourbet_defense_shove_table(hero, villain),
            fourbet_defense_call_table(hero, villain),
            threebet_defense_4bet_table(villain, hero),
        ) {
            (Some(shove), Some(call), Some(four)) => Some(
                (
                    probe_range(combined_ranges(seq![shove, call])),
                    probe_range(four),
                    hero + " vs "@ + villain + " 4bet Defense shove+call"@,
                    villain + " vs "@ + hero + " 3bet Defense 4bet"@,
                ),
            ),
            _ => None,
        },
    }
}

/// The ranges of a 4-bet pot (`lookup_4bp_ranges`).
pub fn lookup_4bp_ranges(hero: &str, villain: &str) -> (r: Option<RangePair>)
    ensures
        pair_option(r) == four_bet_pair(hero@, villain@),
{
    let a = threebet_defense_4bet_range(hero, villain);
    let b = fourbet_defense_shove_range(villain, hero);
    let c = fourbet_defense_call_range(villain, hero);
    if let (Some(four), Some(shove), Some(call)) = (a, b, c) {
        let parts = [shove, call];
        assert(parts@.map_values(|s: &str| s@) == seq![shove@, call@]);
        let villain_range = combine_ranges(&parts);
        return Some(
            make_range_pair(
                four,
                villain_range.as_str(),
                concat4(hero, " vs ", villain, " 3bet Defense 4bet"),
                concat4(villain, " vs ", hero, " 4bet Defense shove+call"),
            ),
        );
    }
    let d = fourbet_defense_shove_range(hero, villain);
    let e = fourbet_defense_call_range(hero, villain);
    let f = threebet_defense_4bet_range(villain, hero);
    if let (Some(shove), Some(call), Some(four)) = (d, e, f) {
        let parts = [shove, call];
        assert(parts@.map_values(|s: &str| s@) == seq![shove@, call@]);
        let hero_range = combine_ranges(&parts);
        return Some(
            make_range_pair(
                hero_range.as_str(),
                four,
                concat4(hero, " vs ", villain, " 4bet Defense shove+call"),
                concat4(villain, " vs ", hero, " 3bet Defense 4bet"),
            ),
        );
    }
    None
}

/// The seat of a position at a six-handed table, in preflop order: `UTG` 0, `HJ` 1, `CO` 2,
/// `BTN` 3, `SB` 4, `BB` 5; -1 for any other text.
pub open spec fn seat(p: Seq<char>) -> int {
    if p == "UTG"@ {
        0
    } else if p == "HJ"@ {
        1
    } else if p == "CO"@ {
        2
    } else if p == "BTN"@ {
        3
    } else if p == "SB"@ {
        4
    } else if p == "BB"@ {
        5
    } else {
        -1
    }
}

/// The six position names are different texts.
proof fn lemma_position_names_differ()
    ensures
        "UTG"@ != "HJ"@, "UTG"@ != "CO"@, "UTG"@ != "BTN"@, "UTG"@ != "SB"@, "UTG"@ != "BB"@,
        "HJ"@ != "CO"@, "HJ"@ != "BTN"@, "HJ"@ != "SB"@, "HJ"@ != "BB"@,
        "CO"@ != "BTN"@, "CO"@ != "SB"@, "CO"@ != "BB"@,
        "BTN"@ != "SB"@, "BTN"@ != "BB"@,
        "SB"@ != "BB"@,
{
    reveal_strlit("UTG");
    reveal_strlit("HJ");
    reveal_strlit("CO");
    reveal_strlit("BTN");
    reveal_strlit("SB");
    reveal_strlit("BB");
    assert("UTG"@[0] != "HJ"@[0]);
    assert("UTG"@[0] != "CO"@[0]);
    assert("UTG"@[0] != "BTN"@[0]);
    assert("UTG"@[0] != "SB"@[0]);
    assert("UTG"@[0] != "BB"@[0]);
    assert("HJ"@[0] != "CO"@[0]);
    assert("HJ"@[0] != "BTN"@[0]);
    assert("HJ"@[0] != "SB"@[0]);
    assert("HJ"@[0] != "BB"@[0]);
    assert("CO"@[0] != "BTN"@[0]);
    assert("CO"@[0] != "SB"@[0]);
    assert("CO"@[0] != "BB"@[0]);
    assert("BTN"@.len() != "SB"@.len());
    assert("BTN"@.len() != "BB"@.len());
    assert("SB"@[0] != "BB"@[0]);
}

/// Which pairs each table of the 3-bet and 4-bet pots holds: the opener's 4-bet and call
/// ranges against a 3-bet exist exactly when the opener sits before the 3-bettor; the 3-bet
/// range and the answers to a 4-bet exist exactly when the acting player sits after the other.
proof fn lemma_table_domains(a: Seq<char>, b: Seq<char>)
    ensures
        threebet_defense_4bet_table(a, b) is Some <==> 0 <= seat(a) < seat(b),
        threebet_defense_call_table(a, b) is Some <==> 0 <= seat(a) < seat(b),
        vs_open_3bet_table(a, b) is Some <==> 0 <= seat(b) < seat(a),
        fourbet_defense_shove_table(a, b) is Some <==> 0 <= seat(b) < seat(a),
        fourbet_defense_call_table(a, b) is Some <==> 0 <= seat(b) < seat(a),
{
    lemma_position_names_differ();
}

/// The 3-bet pot ranges exist exactly for two different positions of the table, and swapping
/// the two positions swaps the hero's and the villain's ranges and range names.
pub proof fn lemma_three_bet_pair_swaps(hero: Seq<char>, villain: Seq<char>)
    ensures
        three_bet_pair(hero, villain) is Some <==> (seat(hero) >= 0 && seat(villain) >= 0 && hero != villain),
        three_bet_pair(hero, villain) matches Some(p) ==> three_bet_pair(villain, hero) == Some((p.1, p.0, p.3, p.2)),
{
    lemma_position_names_differ();
    lemma_table_domains(hero, villain);
    lemma_table_domains(villain, hero);
}

/// The 4-bet pot ranges exist exactly for two different positions of the table, and swapping
/// the two positions swaps the hero's and the villain's ranges and range names.
pub proof fn lemma_four_bet_pair_swaps(hero: Seq<char>, villain: Seq<char>)
    ensures
        four_bet_pair(hero, villain) is Some <==> (seat(hero) >= 0 && seat(villain) >= 0 && hero != villain),
        four_bet_pair(hero, villain) matches Some(p) ==> four_bet_pair(villain, hero) == Some((p.1, p.0, p.3, p.2)),
{
    lemma_position_names_differ();
    lemma_table_domains(hero, villain);
    lemma_table_domains(villain, hero);
}

/// `c` does not occur in `s`.
pub open spec fn lacks(s: Seq<char>, c: char) -> bool {
    forall|k: int| 0 <= k < s.len() ==> s[k] != c
}

/// `c` occurs at most once in `s`.
pub open spec fn at_most_once(s: Seq<char>, c: char) -> bool {
    forall|i: int, j: int| 0 <= i < j < s.len() && s[i] == c ==> s[j] != c
}

/// Each comma-separated token of a range holds at most one `-` once its label is taken off:
/// the ranges whose tidying is stable.
pub open spec fn single_span_tokens(range: Seq<char>) -> bool {
    forall|k: int|
        0 <= k < split_on(range, ',').len() ==> at_most_once(
            without_label(trim(#[trigger] split_on(range, ',')[k])),
            '-',
        )
}

/// What a trimmed text lacks or holds once, its trim does too.
proof fn lemma_trim_keeps(s: Seq<char>)
    ensures
        forall|c: char| lacks(s, c) ==> #[trigger] lacks(trim(s), c),
        forall|c: char| at_most_once(s, c) ==> #[trigger] at_most_once(trim(s), c),
{
    let a = lemma_trim_slice(s);
    let t = trim(s);
    assert forall|k: int| 0 <= k < t.len() implies t[k] == s[a + k] by {}
}

/// A tidied hand class is its own trim and holds no character the class lacked.
proof fn lemma_combo_shape(class: Seq<char>)
    ensures
        trim(normalized_combo(class)) == normalized_combo(class),
        forall|c: char| lacks(class, c) ==> #[trigger] lacks(normalized_combo(class), c),
{
    lemma_trim_keeps(class);
    lemma_combo_idempotent(class);
    lemma_trim_twice(class);
    lemma_trim_ends(class);
    let t = trim(class);
    if t.len() >= 3 && !(t[0] == t[1] || order_of_rank(t[0]) >= order_of_rank(t[1])) {
        let u = seq![t[1], t[0]] + t.skip(2);
        assert(u.last() == t.last());
        assert(order_of_rank(t[1]) > 0);
        assert(!crate::text::is_ws(t[1]));
        lemma_trim_plain_text(u);
        assert forall|c: char| lacks(t, c) implies #[trigger] lacks(u, c) by {
            assert forall|k: int| 0 <= k < u.len() implies u[k] != c by {
                if k >= 2 {
                    assert(u[k] == t[k]);
                }
            }
        }
    }
}

/// A token that lost its label is stable under tidying: it is trimmed, holds no `:` or `,`,
/// and tidying it again gives it back.
pub open spec fn stable_token(n: Seq<char>) -> bool {
    &&& n.len() > 0
    &&& trim(n) == n
    &&& lacks(n, ':')
    &&& lacks(n, ',')
    &&& normalized_probe_token(without_label(n)) == n
}

/// Tidying a token without `:` or `,` and with at most one `-` gives, when not empty, a token
/// that is stable.
proof fn lemma_token_stable(x: Seq<char>)
    requires
        lacks(x, ':'),
        lacks(x, ','),
        at_most_once(x, '-'),
    ensures
        normalized_probe_token(x).len() > 0 ==> stable_token(normalized_probe_token(x)),
{
    let y = trim(x);
    lemma_trim_keeps(x);
    assert(lacks(y, ':'));
    assert(lacks(y, ','));
    assert(at_most_once(y, '-'));
    lemma_first_index_of(y, '-');
    let n = normalized_probe_token(x);
    match first_index_of(y, '-') {
        None => {
            assert(lacks(y, '-'));
            lemma_combo_shape(y);
            lemma_combo_idempotent(y);
            assert(n == normalized_combo(y));
            assert(lacks(n, '-'));
            assert(lacks(n, ':'));
            assert(lacks(n, ','));
            assert(trim(n) == n);
            lemma_first_index_of(n, '-');
            assert(first_index_of(n, '-') is None);
            lemma_last_index_of(n, ':');
            assert(without_label(n) == n);
            assert(normalized_probe_token(n) == normalized_combo(n));
        },
        Some(i) => {
            let l = y.take(i);
            let r = y.skip(i + 1);
            assert(lacks(l, '-'));
            assert(y[i] == '-');
            assert(lacks(r, '-')) by {
                assert forall|k: int| 0 <= k < r.len() implies r[k] != '-' by {
                    assert(r[k] == y[i + 1 + k]);
                    assert(i < i + 1 + k < y.len());
                }
            }
            assert(lacks(l, ':') && lacks(l, ',')) by {
                assert forall|k: int| 0 <= k < l.len() implies l[k] == y[k] by {}
            }
            assert(lacks(r, ':') && lacks(r, ',')) by {
                assert forall|k: int| 0 <= k < r.len() implies r[k] == y[i + 1 + k] by {}
            }
            let left = normalized_combo(l);
            let right = normalized_combo(r);
            lemma_combo_shape(l);
            lemma_combo_shape(r);
            lemma_combo_idempotent(l);
            lemma_combo_idempotent(r);
            assert(lacks(left, '-') && lacks(left, ':') && lacks(left, ','));
            assert(lacks(right, '-') && lacks(right, ':') && lacks(right, ','));
            let swapped = combo_order(left) < combo_order(right);
            let a = if swapped { right } else { left };
            let b = if swapped { left } else { right };
            assert(n == a + seq!['-'] + b);
            lemma_trim_ends(a);
            lemma_trim_ends(b);
            assert(!crate::text::is_ws('-'));
            assert(n[0] == if a.len() > 0 { a[0] } else { '-' });
            assert(n.last() == if b.len() > 0 { b.last() } else { '-' });
            lemma_trim_plain_text(n);
            assert forall|c: char| lacks(a, c) && lacks(b, c) && c != '-' implies #[trigger] lacks(n, c) by {
                assert forall|k: int| 0 <= k < n.len() implies n[k] != c by {
                    if k < a.len() {
                        assert(n[k] == a[k]);
                    } else if k > a.len() {
                        assert(n[k] == b[k - a.len() - 1]);
                    }
                }
            }
            assert(lacks(n, ':'));
            assert(lacks(n, ','));
            lemma_last_index_of(n, ':');
            lemma_first_index_of(n, '-');
            match first_index_of(n, '-') {
                Some(j) => {
                    if j < a.len() {
                        assert(n[j] == a[j]);
                    } else if j > a.len() {
                        assert(n[a.len() as int] == '-');
                    }
                },
                None => {
                    assert(n[a.len() as int] == '-');
                },
            }
            assert(first_index_of(n, '-') == Some(a.len() as int));
            assert(n.take(a.len() as int) =~= a);
            assert(n.skip(a.len() as int + 1) =~= b);
            assert(without_label(n) == n);
            assert(normalized_combo(a) == a);
            assert(normalized_combo(b) == b);
            assert(normalized_probe_token(n) == n);
        },
    }
}

/// Every token left after tidying the pieces of a split is stable.
proof fn lemma_tokens_stable(pieces: Seq<Seq<char>>)
    requires
        forall|k: int| 0 <= k < pieces.len() ==> lacks(#[trigger] pieces[k], ','),
        forall|k: int| 0 <= k < pieces.len() ==> at_most_once(without_label(trim(#[trigger] pieces[k])), '-'),
    ensures
        forall|k: int| 0 <= k < probe_tokens(pieces).len() ==> stable_token(#[trigger] probe_tokens(pieces)[k]),
    decreases pieces.len(),
{
    if pieces.len() > 0 {
        let front = pieces.drop_last();
        assert forall|k: int| 0 <= k < front.len() implies lacks(#[trigger] front[k], ',') by {
            assert(front[k] == pieces[k]);
        }
        assert forall|k: int| 0 <= k < front.len() implies at_most_once(without_label(trim(#[trigger] front[k])), '-') by {
            assert(front[k] == pieces[k]);
        }
        lemma_tokens_stable(front);
        let p = pieces.last();
        assert(lacks(p, ',') && at_most_once(without_label(trim(p)), '-')) by {
            assert(p == pieces[pieces.len() - 1]);
        }
        let t = trim(p);
        lemma_trim_keeps(p);
        assert(lacks(t, ','));
        let x = without_label(t);
        lemma_last_index_of(t, ':');
        match last_index_of(t, ':') {
            Some(i) => {
                let rest = t.skip(i + 1);
                assert(lacks(rest, ':') && lacks(rest, ',')) by {
                    assert forall|k: int| 0 <= k < rest.len() implies rest[k] == t[i + 1 + k] by {}
                }
                lemma_trim_keeps(rest);
                assert(lacks(x, ':'));
                assert(lacks(x, ','));
            },
            None => {
                assert(lacks(x, ':'));
            },
        }
        lemma_token_stable(x);
        let prev = probe_tokens(front);
        let n = normalized_probe_token(x);
        if t.len() > 0 && n.len() > 0 {
            assert(probe_tokens(pieces) == prev.push(n));
            assert forall|k: int| 0 <= k < prev.push(n).len() implies stable_token(#[trigger] prev.push(n)[k]) by {
                if k < prev.len() {
                    assert(prev.push(n)[k] == prev[k]);
                }
            }
        } else {
            assert(probe_tokens(pieces) == prev);
        }
    }
}

/// Stable tokens are left as they are.
proof fn lemma_stable_tokens_kept(qs: Seq<Seq<char>>)
    requires
        forall|k: int| 0 <= k < qs.len() ==> stable_token(#[trigger] qs[k]),
    ensures
        probe_tokens(qs) == qs,
    decreases qs.len(),
{
    if qs.len() > 0 {
        let front = qs.drop_last();
        assert forall|k: int| 0 <= k < front.len() implies stable_token(#[trigger] front[k]) by {
            assert(front[k] == qs[k]);
        }
        lemma_stable_tokens_kept(front);
        assert(stable_token(qs[qs.len() - 1]));
        assert(front.push(qs.last()) =~= qs);
    }
}

/// Tidying a range whose tokens each hold at most one `-` (once their labels are off) twice
/// is tidying it once.
pub proof fn lemma_probe_range_idempotent(range: Seq<char>)
    requires
        single_span_tokens(range),
    ensures
        probe_range(probe_range(range)) == probe_range(range),
{
    let ps = split_on(range, ',');
    lemma_split_pieces_lack_sep(range, ',');
    assert forall|k: int| 0 <= k < ps.len() implies lacks(#[trigger] ps[k], ',') by {
        assert forall|m: int| 0 <= m < ps[k].len() implies ps[k][m] != ',' by {
            assert(split_on(range, ',')[k][m] != ',');
        }
    }
    lemma_tokens_stable(ps);
    let qs = probe_tokens(ps);
    if qs.len() == 0 {
        assert(probe_range(range) == Seq::<char>::empty());
        assert(split_on(Seq::<char>::empty(), ',') == seq![Seq::<char>::empty()]);
        assert(seq![Seq::<char>::empty()].drop_last() =~= Seq::<Seq<char>>::empty());
        assert(trim(Seq::<char>::empty()) =~= Seq::<char>::empty());
        assert(seq![Seq::<char>::empty()].last() == Seq::<char>::empty());
        assert(probe_tokens(Seq::<Seq<char>>::empty()) == Seq::<Seq<char>>::empty());
        assert(probe_tokens(seq![Seq::<char>::empty()]) =~= Seq::<Seq<char>>::empty());
    } else {
        assert forall|k: int, m: int| 0 <= k < qs.len() && 0 <= m < qs[k].len() implies #[trigger] qs[k][m] != ',' by {
            assert(stable_token(qs[k]));
        }
        lemma_split_join(qs, ',');
        lemma_stable_tokens_kept(qs);
    }
}

/// Whether `s` ends with `suffix`.
pub open spec fn ends_with(s: Seq<char>, suffix: Seq<char>) -> bool {
    suffix.len() <= s.len() && s.skip(s.len() - suffix.len()) == suffix
}

/// The hero's range key names the line of the pot: in a 3-bet pot the hero 3-bet (`Open
/// 3bet`) or defends a 3-bet by 4-betting or calling (`3bet Defense 4bet+call`); in a 4-bet
/// pot the hero 4-bet (`3bet Defense 4bet`) or defends a 4-bet (`4bet Defense shove+call`).
/// So a position pair never gets the same hero key in a 3-bet and in a 4-bet pot.
pub proof fn lemma_pot_pair_keys(hero: Seq<char>, villain: Seq<char>)
    ensures
        three_bet_pair(hero, villain) matches Some(p) ==> ends_with(p.2, " 3bet Defense 4bet+call"@)
            || ends_with(p.2, " Open 3bet"@),
        four_bet_pair(hero, villain) matches Some(p) ==> ends_with(p.2, " 3bet Defense 4bet"@)
            || ends_with(p.2, " 4bet Defense shove+call"@),
        three_bet_pair(hero, villain) matches Some(p) ==> four_bet_pair(hero, villain) matches Some(
            q,
        ) ==> p.2 != q.2,
{
    reveal_strlit(" 3bet Defense 4bet+call");
    reveal_strlit(" Open 3bet");
    reveal_strlit(" 3bet Defense 4bet");
    reveal_strlit(" 4bet Defense shove+call");
    let pre = hero + " vs "@ + villain;
    let s1 = " 3bet Defense 4bet+call"@;
    let s2 = " Open 3bet"@;
    let s3 = " 3bet Defense 4bet"@;
    let s4 = " 4bet Defense shove+call"@;
    assert((pre + s1).skip(pre.len() as int) == s1);
    assert((pre + s2).skip(pre.len() as int) == s2);
    assert((pre + s3).skip(pre.len() as int) == s3);
    assert((pre + s4).skip(pre.len() as int) == s4);
    assert(s1.len() != s3.len() && s1.len() != s4.len() && s2.len() != s3.len() && s2.len() != s4.len());
}

/// The probe opens each position with the same range the debug scenarios use for it, and
/// the five opening ranges are five different texts (the big blind has none).
pub proof fn lemma_rfi_ranges(p: Seq<char>, q: Seq<char>)
    ensures
        rfi_table("UTG"@) == Some(UTG_RANGE@),
        rfi_table("HJ"@) == Some(HJ_RANGE@),
        rfi_table("CO"@) == Some(CO_RANGE@),
        rfi_table("BTN"@) == Some(BTN_RANGE@),
        rfi_table("SB"@) == Some(SB_RANGE@),
        rfi_table("BB"@) is None,
        rfi_table(p) matches Some(a) ==> rfi_table(q) matches Some(b) ==> (a == b <==> p == q),
{
    lemma_position_names_differ();
    reveal_strlit("66+,A2s+,K6s+,QTs+,ATo+,KJo+,JTs,T9s,65s");
    reveal_strlit("55+,A2s+,K5s+,Q9s+,A9o+,KTo+,QTo+,J9s+,T8s+,65s");
    reveal_strlit("44+,A2s+,K3s+,Q6s+,A8o+,KTo+,QTo+,JTo,J8s+,T8s+,98s,78s,67s,65s,54s,A5o");
    reveal_strlit("22+,A2s+,K2s+,Q2s+,A2o+,K7o+,Q9o+,J9o+,T9o,J4s+,T6s+,96s+,86s+,75s+,65s,54s");
    reveal_strlit("22+,A2s+,K2s+,Q2s+,A2o+,K7o+,Q9o+,J9o+,T9o,J4s+,T6s+,96s+,85s+,75s+,64s+,53s+");
    assert("66+,A2s+,K6s+,QTs+,ATo+,KJo+,JTs,T9s,65s"@.len() == 40);
    assert("55+,A2s+,K5s+,Q9s+,A9o+,KTo+,QTo+,J9s+,T8s+,65s"@.len() == 47);
    assert("44+,A2s+,K3s+,Q6s+,A8o+,KTo+,QTo+,JTo,J8s+,T8s+,98s,78s,67s,65s,54s,A5o"@.len() == 71);
    assert("22+,A2s+,K2s+,Q2s+,A2o+,K7o+,Q9o+,J9o+,T9o,J4s+,T6s+,96s+,86s+,75s+,65s,54s"@.len() == 75);
    assert("22+,A2s+,K2s+,Q2s+,A2o+,K7o+,Q9o+,J9o+,T9o,J4s+,T6s+,96s+,85s+,75s+,64s+,53s+"@.len() == 77);
}

} // verus!
