//! The walk of a solved flop tree that collects the big blind's and the button's
//! frequencies: which node to visit next, which line of actions leads there, which
//! frequency tables each node fills, and which nodes were found. The solver itself is
//! driven by the caller, who reports the actions met at each node.
use crate::debug_run::labels::NodeFlags;
use crate::debug_run::tree::{first_of_kind, position_of_kind, ActionKind, TreeAction};
use crate::text::str_equals;
use vstd::prelude::*;

verus! {

/// The two donk sizes of the out-of-position player: a third and three quarters of the pot.
#[derive(Clone, Copy, PartialEq, Eq, Structural, Debug)]
pub enum DonkSize {
    Third,
    ThreeQuarters,
}

/// The node of the walk.
#[derive(Clone, Copy, PartialEq, Eq, Debug)]
pub enum WalkNode {
    /// The root, with the out-of-position player to act.
    Root,
    /// After the out-of-position check.
    AfterCheck,
    /// After the check and the in-position bet of the branch size.
    AfterIpBet,
    /// After the check, the bet and the out-of-position raise.
    AfterCheckRaise,
    /// After a donk bet of the size.
    AfterDonk(DonkSize),
    /// After a donk bet of the size and the in-position raise.
    AfterDonkRaise(DonkSize),
    /// Nothing left to visit.
    Finished,
}

/// The per-hand frequency tables the walk fills.
#[derive(Clone, Copy, PartialEq, Eq, Debug)]
pub enum FreqTable {
    Check,
    Donk33,
    Donk75,
    VsBetFold,
    VsBetCall,
    VsBetRaise,
    Donk33VsRaiseFold,
    Donk33VsRaiseCall,
    Donk75VsRaiseFold,
    Donk75VsRaiseCall,
    BtnVsDonkFold,
    BtnVsDonkCall,
    BtnVsDonkRaise,
    BtnVsCheckRaiseFold,
    BtnVsCheckRaiseCall,
}

/// Whether a table holds the in-position player's hands (otherwise the out-of-position
/// player's).
pub open spec fn is_ip_table(t: FreqTable) -> bool {
    t == FreqTable::BtnVsDonkFold || t == FreqTable::BtnVsDonkCall || t == FreqTable::BtnVsDonkRaise
        || t == FreqTable::BtnVsCheckRaiseFold || t == FreqTable::BtnVsCheckRaiseCall
}

/// Whether a table holds the in-position player's hands.
pub fn ip_table(t: FreqTable) -> (b: bool)
    ensures
        b == is_ip_table(t),
{
    match t {
        FreqTable::BtnVsDonkFold | FreqTable::BtnVsDonkCall | FreqTable::BtnVsDonkRaise
        | FreqTable::BtnVsCheckRaiseFold | FreqTable::BtnVsCheckRaiseCall => true,
        _ => false,
    }
}

/// Where the walk stands: the node, the donk size of the branch being solved (if it is one), the nodes found
/// so far, and the action indices of the lines already chosen.
#[derive(Clone, Copy, PartialEq, Eq, Debug)]
pub struct WalkState {
    pub node: WalkNode,
    pub branch: Option<DonkSize>,
    pub flags: NodeFlags,
    pub check_index: Option<usize>,
    pub ip_bet_index: Option<usize>,
    pub raise_index: Option<usize>,
    pub donk33_index: Option<usize>,
    pub donk75_index: Option<usize>,
    pub ip_raise_index: Option<usize>,
}

/// What the caller saw at the node reached: its actions and, where the walk asks for them,
/// the indices of the bets matching the sizes (a third of the pot, three quarters of the pot,
/// and the branch size).
pub struct NodeReport {
    pub actions: Vec<TreeAction>,
    pub third_pot_bet: Option<usize>,
    pub three_quarter_pot_bet: Option<usize>,
    pub branch_bet: Option<usize>,
}

/// The donk size a branch suffix names: `33` a third of the pot, `75` three quarters.
pub open spec fn suffix_donk(suffix: Seq<char>) -> Option<DonkSize> {
    if suffix == "33"@ {
        Some(DonkSize::Third)
    } else if suffix == "75"@ {
        Some(DonkSize::ThreeQuarters)
    } else {
        None
    }
}

/// The donk size a branch suffix names (the branch's own donk, whose button answers are kept).
pub fn donk_size_of_suffix(suffix: &str) -> (d: Option<DonkSize>)
    ensures
        d == suffix_donk(suffix@),
{
    if str_equals(suffix, "33") {
        Some(DonkSize::Third)
    } else if str_equals(suffix, "75") {
        Some(DonkSize::ThreeQuarters)
    } else {
        None
    }
}

/// The start of the walk: at the root when the out-of-position player acts there, else
/// finished with nothing found.
pub open spec fn start_state(branch: Option<DonkSize>, oop_to_act: bool) -> WalkState {
    WalkState {
        node: if oop_to_act {
            WalkNode::Root
        } else {
            WalkNode::Finished
        },
        branch,
        flags: NodeFlags {
            root_found: oop_to_act,
            check_found: false,
            donk33_found: false,
            donk75_found: false,
            vs_ip_bet_found: false,
            donk33_vs_raise_found: false,
            donk75_vs_raise_found: false,
            ip_vs_donk_found: false,
            ip_vs_check_raise_found: false,
        },
        check_index: None,
        ip_bet_index: None,
        raise_index: None,
        donk33_index: None,
        donk75_index: None,
        ip_raise_index: None,
    }
}

/// Starts the walk (the start of `extract_bb_flop_actions`).
pub fn walk_start(branch: Option<DonkSize>, oop_to_act: bool) -> (s: WalkState)
    ensures
        s == start_state(branch, oop_to_act),
{
    WalkState {
        node: if oop_to_act {
            WalkNode::Root
        } else {
            WalkNode::Finished
        },
        branch,
        flags: NodeFlags {
            root_found: oop_to_act,
            check_found: false,
            donk33_found: false,
            donk75_found: false,
            vs_ip_bet_found: false,
            donk33_vs_raise_found: false,
            donk75_vs_raise_found: false,
            ip_vs_donk_found: false,
            ip_vs_check_raise_found: false,
        },
        check_index: None,
        ip_bet_index: None,
        raise_index: None,
        donk33_index: None,
        donk75_index: None,
        ip_raise_index: None,
    }
}

/// The donk node visited after the donk of the given size is done (or, with `None`, after
/// the check line): the third-pot donk first, then the three-quarter one, each only when it
/// exists.
pub open spec fn next_donk(s: WalkState, done: Option<DonkSize>) -> WalkNode {
    match done {
        None => if s.donk33_index is Some {
            WalkNode::AfterDonk(DonkSize::Third)
        } else if s.donk75_index is Some {
            WalkNode::AfterDonk(DonkSize::ThreeQuarters)
        } else {
            WalkNode::Finished
        },
        Some(DonkSize::Third) => if s.donk75_index is Some {
            WalkNode::AfterDonk(DonkSize::ThreeQuarters)
        } else {
            WalkNode::Finished
        },
        Some(DonkSize::ThreeQuarters) => WalkNode::Finished,
    }
}

/// The fill of a table from an action index, when there is one.
pub open spec fn fill_one(table: FreqTable, index: Option<int>) -> Seq<(FreqTable, usize)> {
    match index {
        Some(i) => seq![(table, i as usize)],
        None => seq![],
    }
}

/// An index option as a mathematical integer option.
pub open spec fn as_int(o: Option<usize>) -> Option<int> {
    match o {
        Some(i) => Some(i as int),
        None => None,
    }
}

/// One step of the walk: the state after the node reached, and the tables to fill there from
/// the given action indices.
///
/// - At the root: the first check and the bets matching a third and three quarters of the pot
///   are recorded and filled; the check line comes next when there is a check, else the donks.
/// - After the check: the in-position bet of the branch size comes next when there is one,
///   else the donks.
/// - After that bet: the out-of-position fold, call and raise are filled and the answer is
///   found when any of them exists; the raise comes next when there is one, else the donks.
/// - After the raise: the in-position fold and call are filled; then the donks.
/// - After a donk: on the branch's own donk size, the in-position fold, call and raise are
///   filled; the in-position raise comes next when there is one, else the next donk.
/// - After the raise of a donk: the out-of-position fold and call are filled; then the next
///   donk.
pub open spec fn step_spec(s: WalkState, actions: Seq<TreeAction>, third: Option<usize>, three_quarters: Option<usize>, branch_bet: Option<usize>) -> (WalkState, Seq<(FreqTable, usize)>) {
    let fold = first_of_kind(actions, ActionKind::Fold);
    let call = first_of_kind(actions, ActionKind::Call);
    let raise = first_of_kind(actions, ActionKind::Raise);
    match s.node {
        WalkNode::Root => {
            let check = first_of_kind(actions, ActionKind::Check);
            let s1 = WalkState {
                check_index: match check {
                    Some(i) => Some(i as usize),
                    None => None,
                },
                donk33_index: third,
                donk75_index: three_quarters,
                flags: NodeFlags {
                    check_found: check is Some,
                    donk33_found: third is Some,
                    donk75_found: three_quarters is Some,
                    ..s.flags
                },
                ..s
            };
            (
                WalkState {
                    node: if check is Some {
                        WalkNode::AfterCheck
                    } else {
                        next_donk(s1, None)
                    },
                    ..s1
                },
                fill_one(FreqTable::Check, check) + fill_one(FreqTable::Donk33, as_int(third)) + fill_one(FreqTable::Donk75, as_int(three_quarters)),
            )
        },
        WalkNode::AfterCheck => match branch_bet {
            Some(b) => (WalkState { node: WalkNode::AfterIpBet, ip_bet_index: Some(b), ..s }, seq![]),
            None => (WalkState { node: next_donk(s, None), ..s }, seq![]),
        },
        WalkNode::AfterIpBet => {
            let s1 = WalkState {
                raise_index: match raise {
                    Some(i) => Some(i as usize),
                    None => None,
                },
                flags: NodeFlags {
                    vs_ip_bet_found: fold is Some || call is Some || raise is Some,
                    ..s.flags
                },
                ..s
            };
            (
                WalkState {
                    node: if raise is Some {
                        WalkNode::AfterCheckRaise
                    } else {
                        next_donk(s1, None)
                    },
                    ..s1
                },
                fill_one(FreqTable::VsBetFold, fold) + fill_one(FreqTable::VsBetCall, call) + fill_one(FreqTable::VsBetRaise, raise),
            )
        },
        WalkNode::AfterCheckRaise => (
            WalkState {
                node: next_donk(s, None),
                flags: NodeFlags { ip_vs_check_raise_found: fold is Some || call is Some, ..s.flags },
                ..s
            },
            fill_one(FreqTable::BtnVsCheckRaiseFold, fold) + fill_one(FreqTable::BtnVsCheckRaiseCall, call),
        ),
        WalkNode::AfterDonk(size) => {
            let own = s.branch == Some(size);
            let s1 = WalkState {
                ip_raise_index: match raise {
                    Some(i) => Some(i as usize),
                    None => None,
                },
                flags: if own {
                    NodeFlags {
                        ip_vs_donk_found: fold is Some || call is Some || raise is Some,
                        ..s.flags
                    }
                } else {
                    s.flags
                },
                ..s
            };
            (
                WalkState {
                    node: if raise is Some {
                        WalkNode::AfterDonkRaise(size)
                    } else {
                        next_donk(s1, Some(size))
                    },
                    ..s1
                },
                if own {
                    fill_one(FreqTable::BtnVsDonkFold, fold) + fill_one(FreqTable::BtnVsDonkCall, call) + fill_one(FreqTable::BtnVsDonkRaise, raise)
                } else {
                    seq![]
                },
            )
        },
        WalkNode::AfterDonkRaise(size) => {
            let found = fold is Some || call is Some;
            (
                WalkState {
                    node: next_donk(s, Some(size)),
                    flags: match size {
                        DonkSize::Third => NodeFlags { donk33_vs_raise_found: found, ..s.flags },
                        DonkSize::ThreeQuarters => NodeFlags {
                            donk75_vs_raise_found: found,
                            ..s.flags
                        },
                    },
                    ..s
                },
                match size {
                    DonkSize::Third => fill_one(FreqTable::Donk33VsRaiseFold, fold) + fill_one(FreqTable::Donk33VsRaiseCall, call),
                    DonkSize::ThreeQuarters => fill_one(FreqTable::Donk75VsRaiseFold, fold) + fill_one(FreqTable::Donk75VsRaiseCall, call),
                },
            )
        },
        WalkNode::Finished => (s, seq![]),
    }
}

fn push_fill(fills: &mut Vec<(FreqTable, usize)>, table: FreqTable, index: Option<usize>)
    ensures
        final(fills)@ == old(fills)@ + fill_one(table, as_int(index)),
{
    if let Some(i) = index {
        fills.push((table, i));
    } else {
        assert(old(fills)@ + fill_one(table, as_int(index)) == old(fills)@);
    }
}

fn next_donk_node(s: &WalkState, done: Option<DonkSize>) -> (n: WalkNode)
    ensures
        n == next_donk(*s, done),
{
    match done {
        None => if s.donk33_index.is_some() {
            WalkNode::AfterDonk(DonkSize::Third)
        } else if s.donk75_index.is_some() {
            WalkNode::AfterDonk(DonkSize::ThreeQuarters)
        } else {
            WalkNode::Finished
        },
        Some(DonkSize::Third) => if s.donk75_index.is_some() {
            WalkNode::AfterDonk(DonkSize::ThreeQuarters)
        } else {
            WalkNode::Finished
        },
        Some(DonkSize::ThreeQuarters) => WalkNode::Finished,
    }
}

/// The first fold, call and raise of a list of actions.
fn response_indices(actions: &[TreeAction]) -> (r: (Option<usize>, Option<usize>, Option<usize>))
    ensures
        as_int(r.0) == first_of_kind(actions@, ActionKind::Fold),
        as_int(r.1) == first_of_kind(actions@, ActionKind::Call),
        as_int(r.2) == first_of_kind(actions@, ActionKind::Raise),
{
    (
        position_of_kind(actions, ActionKind::Fold),
        position_of_kind(actions, ActionKind::Call),
        position_of_kind(actions, ActionKind::Raise),
    )
}

fn step_root(s: &WalkState, report: &NodeReport) -> (r: (WalkState, Vec<(FreqTable, usize)>))
    requires
        s.node == WalkNode::Root,
    ensures
        (r.0, r.1@) == step_spec(*s, report.actions@, report.third_pot_bet, report.three_quarter_pot_bet, report.branch_bet),
{
    let check = position_of_kind(report.actions.as_slice(), ActionKind::Check);
    assert(as_int(check) == first_of_kind(report.actions@, ActionKind::Check));
    let mut flags = s.flags;
    flags.check_found = check.is_some();
    flags.donk33_found = report.third_pot_bet.is_some();
    flags.donk75_found = report.three_quarter_pot_bet.is_some();
    let s1 = WalkState {
        check_index: check,
        donk33_index: report.third_pot_bet,
        donk75_index: report.three_quarter_pot_bet,
        flags,
        ..*s
    };
    let mut fills: Vec<(FreqTable, usize)> = Vec::new();
    push_fill(&mut fills, FreqTable::Check, check);
    push_fill(&mut fills, FreqTable::Donk33, report.third_pot_bet);
    push_fill(&mut fills, FreqTable::Donk75, report.three_quarter_pot_bet);
    let node = if check.is_some() {
        WalkNode::AfterCheck
    } else {
        next_donk_node(&s1, None)
    };
    assert(fills@ == fill_one(FreqTable::Check, as_int(check)) + fill_one(FreqTable::Donk33, as_int(report.third_pot_bet)) + fill_one(FreqTable::Donk75, as_int(report.three_quarter_pot_bet)));
    (WalkState { node, ..s1 }, fills)
}

fn step_after_ip_bet(s: &WalkState, report: &NodeReport) -> (r: (WalkState, Vec<(FreqTable, usize)>))
    requires
        s.node == WalkNode::AfterIpBet,
    ensures
        (r.0, r.1@) == step_spec(*s, report.actions@, report.third_pot_bet, report.three_quarter_pot_bet, report.branch_bet),
{
    let (fold, call, raise) = response_indices(report.actions.as_slice());
    let mut flags = s.flags;
    flags.vs_ip_bet_found = fold.is_some() || call.is_some() || raise.is_some();
    let s1 = WalkState { raise_index: raise, flags, ..*s };
    let mut fills: Vec<(FreqTable, usize)> = Vec::new();
    push_fill(&mut fills, FreqTable::VsBetFold, fold);
    push_fill(&mut fills, FreqTable::VsBetCall, call);
    push_fill(&mut fills, FreqTable::VsBetRaise, raise);
    let node = if raise.is_some() {
        WalkNode::AfterCheckRaise
    } else {
        next_donk_node(&s1, None)
    };
    assert(fills@ == fill_one(FreqTable::VsBetFold, as_int(fold)) + fill_one(FreqTable::VsBetCall, as_int(call)) + fill_one(FreqTable::VsBetRaise, as_int(raise)));
    (WalkState { node, ..s1 }, fills)
}

fn step_after_check_raise(s: &WalkState, report: &NodeReport) -> (r: (WalkState, Vec<(FreqTable, usize)>))
    requires
        s.node == WalkNode::AfterCheckRaise,
    ensures
        (r.0, r.1@) == step_spec(*s, report.actions@, report.third_pot_bet, report.three_quarter_pot_bet, report.branch_bet),
{
    let (fold, call, _) = response_indices(report.actions.as_slice());
    let mut flags = s.flags;
    flags.ip_vs_check_raise_found = fold.is_some() || call.is_some();
    let mut fills: Vec<(FreqTable, usize)> = Vec::new();
    push_fill(&mut fills, FreqTable::BtnVsCheckRaiseFold, fold);
    push_fill(&mut fills, FreqTable::BtnVsCheckRaiseCall, call);
    assert(fills@ == fill_one(FreqTable::BtnVsCheckRaiseFold, as_int(fold)) + fill_one(FreqTable::BtnVsCheckRaiseCall, as_int(call)));
    (WalkState { node: next_donk_node(s, None), flags, ..*s }, fills)
}

fn step_after_donk(s: &WalkState, report: &NodeReport, size: DonkSize) -> (r: (WalkState, Vec<(FreqTable, usize)>))
    requires
        s.node == WalkNode::AfterDonk(size),
    ensures
        (r.0, r.1@) == step_spec(*s, report.actions@, report.third_pot_bet, report.three_quarter_pot_bet, report.branch_bet),
{
    let (fold, call, raise) = response_indices(report.actions.as_slice());
    let own = match s.branch {
        Some(b) => b == size,
        None => false,
    };
    let mut flags = s.flags;
    let mut fills: Vec<(FreqTable, usize)> = Vec::new();
    if own {
        flags.ip_vs_donk_found = fold.is_some() || call.is_some() || raise.is_some();
        push_fill(&mut fills, FreqTable::BtnVsDonkFold, fold);
        push_fill(&mut fills, FreqTable::BtnVsDonkCall, call);
        push_fill(&mut fills, FreqTable::BtnVsDonkRaise, raise);
        assert(fills@ == fill_one(FreqTable::BtnVsDonkFold, as_int(fold)) + fill_one(FreqTable::BtnVsDonkCall, as_int(call)) + fill_one(FreqTable::BtnVsDonkRaise, as_int(raise)));
    }
    let s1 = WalkState { ip_raise_index: raise, flags, ..*s };
    let node = if raise.is_some() {
        WalkNode::AfterDonkRaise(size)
    } else {
        next_donk_node(&s1, Some(size))
    };
    (WalkState { node, ..s1 }, fills)
}

fn step_after_donk_raise(s: &WalkState, report: &NodeReport, size: DonkSize) -> (r: (WalkState, Vec<(FreqTable, usize)>))
    requires
        s.node == WalkNode::AfterDonkRaise(size),
    ensures
        (r.0, r.1@) == step_spec(*s, report.actions@, report.third_pot_bet, report.three_quarter_pot_bet, report.branch_bet),
{
    let (fold, call, _) = response_indices(report.actions.as_slice());
    let found = fold.is_some() || call.is_some();
    let mut flags = s.flags;
    let mut fills: Vec<(FreqTable, usize)> = Vec::new();
    match size {
        DonkSize::Third => {
            flags.donk33_vs_raise_found = found;
            push_fill(&mut fills, FreqTable::Donk33VsRaiseFold, fold);
            push_fill(&mut fills, FreqTable::Donk33VsRaiseCall, call);
            assert(fills@ == fill_one(FreqTable::Donk33VsRaiseFold, as_int(fold)) + fill_one(FreqTable::Donk33VsRaiseCall, as_int(call)));
        },
        DonkSize::ThreeQuarters => {
            flags.donk75_vs_raise_found = found;
            push_fill(&mut fills, FreqTable::Donk75VsRaiseFold, fold);
            push_fill(&mut fills, FreqTable::Donk75VsRaiseCall, call);
            assert(fills@ == fill_one(FreqTable::Donk75VsRaiseFold, as_int(fold)) + fill_one(FreqTable::Donk75VsRaiseCall, as_int(call)));
        },
    }
    (WalkState { node: next_donk_node(s, Some(size)), flags, ..*s }, fills)
}

/// Takes one step of the walk from the report of the node reached.
pub fn walk_step(s: &WalkState, report: &NodeReport) -> (r: (WalkState, Vec<(FreqTable, usize)>))
    ensures
        (r.0, r.1@) == step_spec(
            *s,
            report.actions@,
            report.third_pot_bet,
            report.three_quarter_pot_bet,
            report.branch_bet,
        ),
{
    match s.node {
        WalkNode::Root => step_root(s, report),
        WalkNode::AfterCheck => match report.branch_bet {
            Some(b) => (WalkState { node: WalkNode::AfterIpBet, ip_bet_index: Some(b), ..*s }, Vec::new()),
            None => (WalkState { node: next_donk_node(s, None), ..*s }, Vec::new()),
        },
        WalkNode::AfterIpBet => step_after_ip_bet(s, report),
        WalkNode::AfterCheckRaise => step_after_check_raise(s, report),
        WalkNode::AfterDonk(size) => step_after_donk(s, report, size),
        WalkNode::AfterDonkRaise(size) => step_after_donk_raise(s, report, size),
        WalkNode::Finished => (*s, Vec::new()),
    }
}

/// The line of action indices from the root to the node of the state; empty at the root and
/// when finished.
pub open spec fn line_of(s: WalkState) -> Seq<usize> {
    let pick = |o: Option<usize>| match o {
        Some(i) => seq![i],
        None => seq![],
    };
    match s.node {
        WalkNode::AfterCheck => pick(s.check_index),
        WalkNode::AfterIpBet => pick(s.check_index) + pick(s.ip_bet_index),
        WalkNode::AfterCheckRaise => pick(s.check_index) + pick(s.ip_bet_index) + pick(s.raise_index),
        WalkNode::AfterDonk(DonkSize::Third) => pick(s.donk33_index),
        WalkNode::AfterDonk(DonkSize::ThreeQuarters) => pick(s.donk75_index),
        WalkNode::AfterDonkRaise(DonkSize::Third) => pick(s.donk33_index) + pick(s.ip_raise_index),
        WalkNode::AfterDonkRaise(DonkSize::ThreeQuarters) => pick(s.donk75_index) + pick(
            s.ip_raise_index,
        ),
        _ => seq![],
    }
}

fn push_index(line: &mut Vec<usize>, index: Option<usize>)
    ensures
        final(line)@ == old(line)@ + match index {
            Some(i) => seq![i],
            None => Seq::<usize>::empty(),
        },
{
    match index {
        Some(i) => {
            line.push(i);
        },
        None => {
            assert(old(line)@ + Seq::<usize>::empty() == old(line)@);
        },
    }
}

/// The actions to play from the root to reach the node of the state.
pub fn walk_line(s: &WalkState) -> (line: Vec<usize>)
    ensures
        line@ == line_of(*s),
{
    let mut line: Vec<usize> = Vec::new();
    match s.node {
        WalkNode::AfterCheck => {
            push_index(&mut line, s.check_index);
        },
        WalkNode::AfterIpBet => {
            push_index(&mut line, s.check_index);
            push_index(&mut line, s.ip_bet_index);
        },
        WalkNode::AfterCheckRaise => {
            push_index(&mut line, s.check_index);
            push_index(&mut line, s.ip_bet_index);
            push_index(&mut line, s.raise_index);
        },
        WalkNode::AfterDonk(DonkSize::Third) => {
            push_index(&mut line, s.donk33_index);
        },
        WalkNode::AfterDonk(DonkSize::ThreeQuarters) => {
            push_index(&mut line, s.donk75_index);
        },
        WalkNode::AfterDonkRaise(DonkSize::Third) => {
            push_index(&mut line, s.donk33_index);
            push_index(&mut line, s.ip_raise_index);
        },
        WalkNode::AfterDonkRaise(DonkSize::ThreeQuarters) => {
            push_index(&mut line, s.donk75_index);
            push_index(&mut line, s.ip_raise_index);
        },
        _ => {},
    }
    assert(Seq::<usize>::empty() + seq![] == Seq::<usize>::empty());
    line
}

/// How far the walk is from its end: the nodes are visited in a fixed order, and each step
/// moves strictly forward in it.
pub open spec fn remaining(n: WalkNode) -> nat {
    match n {
        WalkNode::Root => 8,
        WalkNode::AfterCheck => 7,
        WalkNode::AfterIpBet => 6,
        WalkNode::AfterCheckRaise => 5,
        WalkNode::AfterDonk(DonkSize::Third) => 4,
        WalkNode::AfterDonkRaise(DonkSize::Third) => 3,
        WalkNode::AfterDonk(DonkSize::ThreeQuarters) => 2,
        WalkNode::AfterDonkRaise(DonkSize::ThreeQuarters) => 1,
        WalkNode::Finished => 0,
    }
}

/// Every step before the end moves the walk strictly forward, so a walk ends after at most
/// eight steps.
pub proof fn lemma_walk_moves_forward(
    s: WalkState,
    actions: Seq<TreeAction>,
    third: Option<usize>,
    three_quarters: Option<usize>,
    branch_bet: Option<usize>,
)
    requires
        s.node != WalkNode::Finished,
    ensures
        remaining(step_spec(s, actions, third, three_quarters, branch_bet).0.node) < remaining(
            s.node,
        ),
{
}

/// A step never forgets a node it found, never changes whether the root was found or the
/// branch, and never changes the indices of the lines already taken.
pub proof fn lemma_walk_keeps_findings(
    s: WalkState,
    actions: Seq<TreeAction>,
    third: Option<usize>,
    three_quarters: Option<usize>,
    branch_bet: Option<usize>,
)
    requires
        s.node != WalkNode::Root,
    ensures
        ({
            let t = step_spec(s, actions, third, three_quarters, branch_bet).0;
            &&& t.branch == s.branch
            &&& t.flags.root_found == s.flags.root_found
            &&& t.flags.check_found == s.flags.check_found
            &&& t.flags.donk33_found == s.flags.donk33_found
            &&& t.flags.donk75_found == s.flags.donk75_found
            &&& t.check_index == s.check_index
            &&& t.donk33_index == s.donk33_index
            &&& t.donk75_index == s.donk75_index
        }),
{
}

/// The walk visits the donk of a size only when the root offered a bet of that size.
pub proof fn lemma_donks_visited_only_when_offered(
    s: WalkState,
    actions: Seq<TreeAction>,
    third: Option<usize>,
    three_quarters: Option<usize>,
    branch_bet: Option<usize>,
)
    ensures
        ({
            let t = step_spec(s, actions, third, three_quarters, branch_bet).0;
            &&& (t.node == WalkNode::AfterDonk(DonkSize::Third) ==> t.donk33_index is Some)
            &&& (t.node == WalkNode::AfterDonk(DonkSize::ThreeQuarters) ==> t.donk75_index is Some)
        }),
{
}

/// The order in which a walk finds nodes: a node is found only after the node that leads to
/// it. The check and the donks only after the root; the answer to the in-position bet only
/// after the check; the in-position answer to the check-raise only after that answer; the
/// answer to the raise of a donk only after that donk; the in-position answer to a donk only
/// after some donk.
pub open spec fn flags_in_order(f: NodeFlags) -> bool {
    &&& f.check_found ==> f.root_found
    &&& f.donk33_found ==> f.root_found
    &&& f.donk75_found ==> f.root_found
    &&& f.vs_ip_bet_found ==> f.check_found
    &&& f.ip_vs_check_raise_found ==> f.vs_ip_bet_found
    &&& f.donk33_vs_raise_found ==> f.donk33_found
    &&& f.donk75_vs_raise_found ==> f.donk75_found
    &&& f.ip_vs_donk_found ==> (f.donk33_found || f.donk75_found)
}

/// What holds of every state a walk passes through: the flags are in order, the in-position
/// answer to a donk is found only at the branch's own donk size (a third of the pot for the
/// 33 branch, three quarters for the 75 branch) and after that donk, the check and
/// donks are found exactly when their lines are recorded, nothing below the root is found
/// while the walk is still at the root, the answer to a check-raise is not found before the
/// check-raise is visited, and the node visited lies on a line that was found.
pub open spec fn walk_inv(s: WalkState) -> bool {
    &&& flags_in_order(s.flags)
    &&& (s.flags.ip_vs_donk_found ==> {
        ||| s.branch == Some(DonkSize::Third) && s.flags.donk33_found
        ||| s.branch == Some(DonkSize::ThreeQuarters) && s.flags.donk75_found
    })
    &&& s.flags.check_found == (s.check_index is Some)
    &&& s.flags.donk33_found == (s.donk33_index is Some)
    &&& s.flags.donk75_found == (s.donk75_index is Some)
    &&& (s.node == WalkNode::Root ==> {
        &&& s.flags.root_found
        &&& !s.flags.check_found && !s.flags.donk33_found && !s.flags.donk75_found
        &&& !s.flags.vs_ip_bet_found && !s.flags.ip_vs_check_raise_found
        &&& !s.flags.donk33_vs_raise_found && !s.flags.donk75_vs_raise_found
        &&& !s.flags.ip_vs_donk_found
    })
    &&& (s.node == WalkNode::AfterCheck || s.node == WalkNode::AfterIpBet
        || s.node == WalkNode::AfterCheckRaise ==> s.flags.check_found)
    &&& (s.node == WalkNode::AfterCheck || s.node == WalkNode::AfterIpBet
        ==> !s.flags.ip_vs_check_raise_found)
    &&& (s.node == WalkNode::AfterCheckRaise ==> s.flags.vs_ip_bet_found)
    &&& (s.node == WalkNode::AfterDonk(DonkSize::Third) || s.node == WalkNode::AfterDonkRaise(
        DonkSize::Third,
    ) ==> s.flags.donk33_found)
    &&& (s.node == WalkNode::AfterDonk(DonkSize::ThreeQuarters) || s.node
        == WalkNode::AfterDonkRaise(DonkSize::ThreeQuarters) ==> s.flags.donk75_found)
}

/// A walk starts in order.
pub proof fn lemma_walk_starts_in_order(branch: Option<DonkSize>, oop_to_act: bool)
    ensures
        walk_inv(start_state(branch, oop_to_act)),
{
}

/// Every step keeps the walk in order, so the flags a finished walk reports are in order:
/// for instance, the answer to the in-position bet is found only when the check was.
pub proof fn lemma_walk_keeps_order(
    s: WalkState,
    actions: Seq<TreeAction>,
    third: Option<usize>,
    three_quarters: Option<usize>,
    branch_bet: Option<usize>,
)
    requires
        walk_inv(s),
    ensures
        walk_inv(step_spec(s, actions, third, three_quarters, branch_bet).0),
{
    let t = step_spec(s, actions, third, three_quarters, branch_bet).0;
    match s.node {
        WalkNode::Root => {
            assert(walk_inv(t));
        },
        WalkNode::AfterCheck => {
            assert(walk_inv(t));
        },
        WalkNode::AfterIpBet => {
            assert(walk_inv(t));
        },
        WalkNode::AfterCheckRaise => {
            assert(walk_inv(t));
        },
        WalkNode::AfterDonk(size) => {
            assert(walk_inv(t));
        },
        WalkNode::AfterDonkRaise(size) => {
            assert(walk_inv(t));
        },
        WalkNode::Finished => {},
    }
}

} // verus!
