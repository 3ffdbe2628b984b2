//! The preflop ranges of the flop debug exporter's scenarios and how a scenario is
//! made from its spot, positions, hand and boards.
use crate::debug_run::labels::DebugScenario;
use crate::text::str_equals;
use vstd::prelude::*;

verus! {

/// The button's opening range.
pub const BTN_RANGE: &'static str = "22+,A2s+,K2s+,Q2s+,A2o+,K7o+,Q9o+,J9o+,T9o,J4s+,T6s+,96s+,86s+,75s+,65s,54s";

/// The big blind's calling range against a button open.
pub const BB_RANGE: &'static str = "99-22,AQs-A6s,KJs-K2s,J7s-J4s,T6s,97s-96s,87s-85s,75s-74s,64s-63s,53s,43s,AJo-A6o,K9o+,QTo+,JTo,QTs-Q2s,A4s-A2s,T9o";

/// The under-the-gun opening range.
pub const UTG_RANGE: &'static str = "66+,A2s+,K6s+,QTs+,ATo+,KJo+,JTs,T9s,65s";

/// The hijack's opening range.
pub const HJ_RANGE: &'static str = "55+,A2s+,K5s+,Q9s+,A9o+,KTo+,QTo+,J9s+,T8s+,65s";

/// The cutoff's opening range.
pub const CO_RANGE: &'static str = "44+,A2s+,K3s+,Q6s+,A8o+,KTo+,QTo+,JTo,J8s+,T8s+,98s,78s,67s,65s,54s,A5o";

/// The small blind's opening range.
pub const SB_RANGE: &'static str = "22+,A2s+,K2s+,Q2s+,A2o+,K7o+,Q9o+,J9o+,T9o,J4s+,T6s+,96s+,85s+,75s+,64s+,53s+";

/// The big blind's calling range against an under-the-gun open.
pub const BB_VS_UTG_CALL_RANGE: &'static str = "JJ-22,AQs-A6s,KQs-K8s,QTs-Q9s,JTs-J9s,T9s-T8s,98s-97s,87s-86s,76s-75s,64s,54s-53s,AQo-AJo,KQo,A2s";

/// The big blind's calling range against a hijack open.
pub const BB_VS_HJ_CALL_RANGE: &'static str = "JJ-22,AQs-A6s,KTs-K8s,Q9s,J9s-J8s,T8s-T7s,98s-97s,87s-86s,76s-75s,64s,54s-53s,AQo-ATo,KJo+,K6s-K5s,KQo,43s,QJo,A2s";

/// The big blind's calling range against a cutoff open.
pub const BB_VS_CO_CALL_RANGE: &'static str = "TT-22,AJs-A6s,K9s-K8s,JTs-J8s,T8s-T7s,98s-96s,87s-85s,75s,64s,54s-53s,AQo-ATo,KTo+,K6s-K2s,QTo+,JTo,Q8s-Q6s,A2s,43s";

/// The big blind's calling range against a small blind open.
pub const BB_VS_SB_CALL_RANGE: &'static str = "99-22,AJs-A6s,KJs-K2s,J9s-J6s,T8s-T6s,97s-95s,87s-85s,75s-74s,64s-63s,53s-52s,43s,AJo-A6o,K9o+,K6s-K2s,Q9o+,JTo,QJs-Q2s,A4s-A2s,T9o,98o";

/// The button's calling range against an under-the-gun open.
pub const BTN_VS_UTG_CALL_RANGE: &'static str = "JJ-77,AQs-A9s,QTs,AQo,KJs,KQs";

/// The button's calling range against a hijack open.
pub const BTN_VS_HJ_CALL_RANGE: &'static str = "JJ-66,AQs-A9s,QTs,AQo,KJs,KQs";

/// The ranges a scenario gets by its hero and villain positions: the in-position range
/// first, then the out-of-position range; none for a pair of positions without ranges.
pub open spec fn scenario_range_pair(hero: Seq<char>, villain: Seq<char>) -> Option<(Seq<char>, Seq<char>)> {
    if hero == "UTG"@ && villain == "BB"@ {
        Some((UTG_RANGE@, BB_VS_UTG_CALL_RANGE@))
    } else if hero == "HJ"@ && villain == "BB"@ {
        Some((HJ_RANGE@, BB_VS_HJ_CALL_RANGE@))
    } else if hero == "CO"@ && villain == "BB"@ {
        Some((CO_RANGE@, BB_VS_CO_CALL_RANGE@))
    } else if hero == "BTN"@ && villain == "BB"@ {
        Some((BTN_RANGE@, BB_RANGE@))
    } else if hero == "BB"@ && villain == "SB"@ {
        Some((BB_VS_SB_CALL_RANGE@, SB_RANGE@))
    } else if hero == "BTN"@ && villain == "UTG"@ {
        Some((BTN_VS_UTG_CALL_RANGE@, UTG_RANGE@))
    } else if hero == "BTN"@ && villain == "HJ"@ {
        Some((BTN_VS_HJ_CALL_RANGE@, HJ_RANGE@))
    } else {
        None
    }
}

/// The ranges of a pair of positions (the arms of the scenario table).
pub fn range_pair_for(hero: &str, villain: &str) -> (r: Option<(&'static str, &'static str)>)
    ensures
        match r {
            Some((ip, oop)) => scenario_range_pair(hero@, villain@) == Some((ip@, oop@)),
            None => scenario_range_pair(hero@, villain@) is None,
        },
{
    if str_equals(hero, "UTG") && str_equals(villain, "BB") {
        return Some((UTG_RANGE, BB_VS_UTG_CALL_RANGE));
    }
    if str_equals(hero, "HJ") && str_equals(villain, "BB") {
        return Some((HJ_RANGE, BB_VS_HJ_CALL_RANGE));
    }
    if str_equals(hero, "CO") && str_equals(villain, "BB") {
        return Some((CO_RANGE, BB_VS_CO_CALL_RANGE));
    }
    if str_equals(hero, "BTN") && str_equals(villain, "BB") {
        return Some((BTN_RANGE, BB_RANGE));
    }
    if str_equals(hero, "BB") && str_equals(villain, "SB") {
        return Some((BB_VS_SB_CALL_RANGE, SB_RANGE));
    }
    if str_equals(hero, "BTN") && str_equals(villain, "UTG") {
        return Some((BTN_VS_UTG_CALL_RANGE, UTG_RANGE));
    }
    if str_equals(hero, "BTN") && str_equals(villain, "HJ") {
        return Some((BTN_VS_HJ_CALL_RANGE, HJ_RANGE));
    }
    None
}

/// A scenario of the exporter: the spot, positions, reference hand and boards as given, and
/// the ranges of its pair of positions; none for a pair without ranges.
pub fn debug_scenario(
    spot_id: u32,
    hero_position: &'static str,
    villain_position: &'static str,
    reference_hand: &'static str,
    board: &'static str,
    full_board: &'static str,
) -> (r: Option<DebugScenario>)
    ensures
        match r {
            Some(s) => s.spot_id == spot_id && s.hero_position == hero_position && s.villain_position
                == villain_position && s.reference_hand == reference_hand && s.board == board
                && s.full_board == full_board && s.missing_range_key is None && (s.ip_range matches Some(
                ip) && s.oop_range matches Some(oop) && scenario_range_pair(hero_position@, villain_position@)
                == Some((ip@, oop@))),
            None => scenario_range_pair(hero_position@, villain_position@) is None,
        },
{
    match range_pair_for(hero_position, villain_position) {
        Some((ip, oop)) => Some(
            DebugScenario {
                spot_id,
                hero_position,
                villain_position,
                reference_hand,
                board,
                full_board,
                ip_range: Some(ip),
                oop_range: Some(oop),
                missing_range_key: None,
            },
        ),
        None => None,
    }
}

} // verus!
