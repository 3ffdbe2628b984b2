//! Solver-tree actions and the rules the flop debug exporter applies to them:
//! finding actions by kind, the shape checks of the realistic flop tree, and
//! which re-raise lines are pruned.
use crate::text::{decimal_chars, extend_chars, message, push_str, string_of, chars_of, decimal};
use vstd::prelude::*;

verus! {

/// An action of the solver's game tree, with its amount in chips where it has one.
#[derive(Clone, Copy, PartialEq, Eq, Debug)]
pub enum TreeAction {
    NoAction,
    Fold,
    Check,
    Call,
    Bet(i32),
    Raise(i32),
    AllIn(i32),
    Chance(u8),
}

/// The kinds of action the exporter looks for.
#[derive(Clone, Copy, PartialEq, Eq, Debug)]
pub enum ActionKind {
    Fold,
    Check,
    Call,
    Bet,
    Raise,
    RaiseOrAllIn,
}

/// Whether an action is of the given kind.
pub open spec fn is_kind(action: TreeAction, kind: ActionKind) -> bool {
    match kind {
        ActionKind::Fold => action is Fold,
        ActionKind::Check => action is Check,
        ActionKind::Call => action is Call,
        ActionKind::Bet => action is Bet,
        ActionKind::Raise => action is Raise,
        ActionKind::RaiseOrAllIn => action is Raise || action is AllIn,
    }
}

/// Whether an action is of the given kind.
pub fn action_is(action: TreeAction, kind: ActionKind) -> (b: bool)
    ensures
        b == is_kind(action, kind),
{
    match kind {
        ActionKind::Fold => matches!(action, TreeAction::Fold),
        ActionKind::Check => matches!(action, TreeAction::Check),
        ActionKind::Call => matches!(action, TreeAction::Call),
        ActionKind::Bet => matches!(action, TreeAction::Bet(_)),
        ActionKind::Raise => matches!(action, TreeAction::Raise(_)),
        ActionKind::RaiseOrAllIn => matches!(action, TreeAction::Raise(_) | TreeAction::AllIn(_)),
    }
}

/// The decimal text of a signed amount, with a leading `-` when negative.
pub open spec fn signed_decimal(n: int) -> Seq<char> {
    if n < 0 {
        seq!['-'] + decimal((-n) as nat)
    } else {
        decimal(n as nat)
    }
}

/// How an action is written in the exporter's diagnostics, such as `Check` or `Bet(181)`.
pub open spec fn action_text(action: TreeAction) -> Seq<char> {
    match action {
        TreeAction::NoAction => "None"@,
        TreeAction::Fold => "Fold"@,
        TreeAction::Check => "Check"@,
        TreeAction::Call => "Call"@,
        TreeAction::Bet(n) => "Bet("@ + signed_decimal(n as int) + ")"@,
        TreeAction::Raise(n) => "Raise("@ + signed_decimal(n as int) + ")"@,
        TreeAction::AllIn(n) => "AllIn("@ + signed_decimal(n as int) + ")"@,
        TreeAction::Chance(c) => "Chance("@ + decimal(c as nat) + ")"@,
    }
}

/// The texts of the first `n` actions, separated by `, `.
pub open spec fn actions_joined(actions: Seq<TreeAction>, n: int) -> Seq<char>
    decreases n,
{
    if n <= 0 {
        seq![]
    } else if n == 1 {
        action_text(actions[0])
    } else {
        actions_joined(actions, n - 1) + ", "@ + action_text(actions[n - 1])
    }
}

/// A list of actions as the diagnostics write it, such as `[Check, Bet(181)]`.
pub open spec fn actions_text(actions: Seq<TreeAction>) -> Seq<char> {
    "["@ + actions_joined(actions, actions.len() as int) + "]"@
}

fn signed_decimal_chars(n: i32) -> (r: Vec<char>)
    ensures
        r@ == signed_decimal(n as int),
{
    if n < 0 {
        let mut r = Vec::new();
        r.push('-');
        let magnitude: u64 = (0i64 - (n as i64)) as u64;
        let digits = decimal_chars(magnitude);
        extend_chars(&mut r, digits.as_slice());
        r
    } else {
        decimal_chars(n as u64)
    }
}

fn action_text_chars(action: TreeAction) -> (r: Vec<char>)
    ensures
        r@ == action_text(action),
{
    let mut r: Vec<char> = Vec::new();
    match action {
        TreeAction::NoAction => push_str(&mut r, "None"),
        TreeAction::Fold => push_str(&mut r, "Fold"),
        TreeAction::Check => push_str(&mut r, "Check"),
        TreeAction::Call => push_str(&mut r, "Call"),
        TreeAction::Bet(n) => {
            push_str(&mut r, "Bet(");
            extend_chars(&mut r, signed_decimal_chars(n).as_slice());
            push_str(&mut r, ")");
        },
        TreeAction::Raise(n) => {
            push_str(&mut r, "Raise(");
            extend_chars(&mut r, signed_decimal_chars(n).as_slice());
            push_str(&mut r, ")");
        },
        TreeAction::AllIn(n) => {
            push_str(&mut r, "AllIn(");
            extend_chars(&mut r, signed_decimal_chars(n).as_slice());
            push_str(&mut r, ")");
        },
        TreeAction::Chance(c) => {
            push_str(&mut r, "Chance(");
            extend_chars(&mut r, decimal_chars(c as u64).as_slice());
            push_str(&mut r, ")");
        },
    }
    r
}

/// Writes a list of actions for a diagnostic, such as `[Check, Bet(181)]`.
pub fn describe_actions(actions: &[TreeAction]) -> (text: String)
    ensures
        text@ == actions_text(actions@),
{
    let mut r: Vec<char> = Vec::new();
    push_str(&mut r, "[");
    let n = actions.len();
    let mut i: usize = 0;
    while i < n
        invariant
            i <= n,
            n == actions@.len(),
            r@ == "["@ + actions_joined(actions@, i as int),
        decreases n - i,
    {
        if i > 0 {
            push_str(&mut r, ", ");
        }
        extend_chars(&mut r, action_text_chars(actions[i]).as_slice());
        i = i + 1;
    }
    push_str(&mut r, "]");
    string_of(r.as_slice())
}

/// Index of the first action of the kind, if any.
pub open spec fn first_of_kind(actions: Seq<TreeAction>, kind: ActionKind) -> Option<int>
    decreases actions.len(),
{
    if actions.len() == 0 {
        None
    } else if is_kind(actions[0], kind) {
        Some(0)
    } else {
        match first_of_kind(actions.drop_first(), kind) {
            Some(i) => Some(i + 1),
            None => None,
        }
    }
}

proof fn lemma_first_of_kind(actions: Seq<TreeAction>, kind: ActionKind)
    ensures
        first_of_kind(actions, kind) matches Some(i) ==> 0 <= i < actions.len() && is_kind(
            actions[i],
            kind,
        ) && forall|k: int| 0 <= k < i ==> !is_kind(#[trigger] actions[k], kind),
        first_of_kind(actions, kind) is None ==> forall|k: int|
            0 <= k < actions.len() ==> !is_kind(#[trigger] actions[k], kind),
    decreases actions.len(),
{
    if actions.len() > 0 {
        lemma_first_of_kind(actions.drop_first(), kind);
        assert forall|k: int| 1 <= k < actions.len() implies actions[k] == actions.drop_first()[k
            - 1] by {}
    }
}

/// Position of the first action of the kind (`iter().position(..)`).
pub fn position_of_kind(actions: &[TreeAction], kind: ActionKind) -> (r: Option<usize>)
    ensures
        r matches Some(i) ==> first_of_kind(actions@, kind) == Some(i as int),
        r is None ==> first_of_kind(actions@, kind) is None,
{
    proof {
        lemma_first_of_kind(actions@, kind);
    }
    let n = actions.len();
    let mut i: usize = 0;
    while i < n
        invariant
            i <= n,
            n == actions@.len(),
            forall|k: int| 0 <= k < i ==> !is_kind(#[trigger] actions@[k], kind),
            first_of_kind(actions@, kind) matches Some(j) ==> i <= j,
            first_of_kind(actions@, kind) matches Some(j) ==> 0 <= j < actions@.len() && is_kind(
                actions@[j],
                kind,
            ),
        decreases n - i,
    {
        if action_is(actions[i], kind) {
            proof {
                lemma_first_of_kind(actions@, kind);
            }
            return Some(i);
        }
        i = i + 1;
    }
    proof {
        lemma_first_of_kind(actions@, kind);
    }
    None
}

/// Whether some action is of the kind.
pub open spec fn has_kind(actions: Seq<TreeAction>, kind: ActionKind) -> bool {
    exists|k: int| 0 <= k < actions.len() && is_kind(#[trigger] actions[k], kind)
}

/// Whether some action is of the kind (`has_tree_action`).
pub fn has_tree_action(actions: &[TreeAction], kind: ActionKind) -> (b: bool)
    ensures
        b == has_kind(actions@, kind),
{
    proof {
        lemma_first_of_kind(actions@, kind);
    }
    match position_of_kind(actions, kind) {
        Some(_) => true,
        None => false,
    }
}

/// The first action of the kind (`find_tree_action`), or the diagnostic
/// `required action not found in [..]`.
pub fn find_tree_action(actions: &[TreeAction], kind: ActionKind) -> (r: Result<TreeAction, String>)
    ensures
        match r {
            Ok(a) => first_of_kind(actions@, kind) matches Some(i) && a == actions@[i],
            Err(m) => first_of_kind(actions@, kind) is None && m@ == "required action not found in "@
                + actions_text(actions@),
        },
{
    proof {
        lemma_first_of_kind(actions@, kind);
    }
    match position_of_kind(actions, kind) {
        Some(i) => Ok(actions[i]),
        None => Err(message("required action not found in ", describe_actions(actions).as_str())),
    }
}

/// Index of the first action of the kind (`find_action`), or the diagnostic
/// `action not found in [..]`.
pub fn find_action(actions: &[TreeAction], kind: ActionKind) -> (r: Result<usize, String>)
    ensures
        match r {
            Ok(i) => first_of_kind(actions@, kind) == Some(i as int),
            Err(m) => first_of_kind(actions@, kind) is None && m@ == "action not found in "@
                + actions_text(actions@),
        },
{
    match position_of_kind(actions, kind) {
        Some(i) => Ok(i),
        None => Err(message("action not found in ", describe_actions(actions).as_str())),
    }
}

/// The actions of the kind, in order (`filter(..).collect()`).
pub open spec fn actions_of_kind(actions: Seq<TreeAction>, kind: ActionKind) -> Seq<TreeAction>
    decreases actions.len(),
{
    if actions.len() == 0 {
        seq![]
    } else if is_kind(actions.last(), kind) {
        actions_of_kind(actions.drop_last(), kind).push(actions.last())
    } else {
        actions_of_kind(actions.drop_last(), kind)
    }
}

/// The actions of the kind, in their order.
pub fn filter_actions(actions: &[TreeAction], kind: ActionKind) -> (r: Vec<TreeAction>)
    ensures
        r@ == actions_of_kind(actions@, kind),
{
    let mut r: Vec<TreeAction> = Vec::new();
    let n = actions.len();
    let mut i: usize = 0;
    while i < n
        invariant
            i <= n,
            n == actions@.len(),
            r@ == actions_of_kind(actions@.take(i as int), kind),
        decreases n - i,
    {
        assert(actions@.take(i + 1).drop_last() == actions@.take(i as int));
        assert(actions@.take(i + 1).last() == actions@[i as int]);
        if action_is(actions[i], kind) {
            r.push(actions[i]);
        }
        i = i + 1;
    }
    assert(actions@.take(n as int) == actions@);
    r
}

/// Checks that the actions offer Fold, Call and Raise (`require_fold_call_raise`).
pub fn require_fold_call_raise(label: &str, actions: &[TreeAction]) -> (r: Result<(), String>)
    ensures
        match r {
            Ok(_) => has_kind(actions@, ActionKind::Fold) && has_kind(actions@, ActionKind::Call)
                && has_kind(actions@, ActionKind::Raise),
            Err(m) => !(has_kind(actions@, ActionKind::Fold) && has_kind(actions@, ActionKind::Call)
                && has_kind(actions@, ActionKind::Raise)) && m@ == label@
                + " must contain Fold, Call, Raise; got "@ + actions_text(actions@),
        },
{
    let has_fold = has_tree_action(actions, ActionKind::Fold);
    let has_call = has_tree_action(actions, ActionKind::Call);
    let has_raise = has_tree_action(actions, ActionKind::Raise);
    if has_fold && has_call && has_raise {
        Ok(())
    } else {
        let mut v = chars_of(label);
        push_str(&mut v, " must contain Fold, Call, Raise; got ");
        extend_chars(&mut v, chars_of(describe_actions(actions).as_str()).as_slice());
        Err(string_of(v.as_slice()))
    }
}

/// Checks that the actions are exactly two, one Fold and one Call (`require_fold_call_only`).
pub fn require_fold_call_only(label: &str, actions: &[TreeAction]) -> (r: Result<(), String>)
    ensures
        match r {
            Ok(_) => actions@.len() == 2 && has_kind(actions@, ActionKind::Fold) && has_kind(
                actions@,
                ActionKind::Call,
            ),
            Err(m) => !(actions@.len() == 2 && has_kind(actions@, ActionKind::Fold) && has_kind(
                actions@,
                ActionKind::Call,
            )) && m@ == label@ + " must contain only Fold and Call; got "@ + actions_text(actions@),
        },
{
    let valid = actions.len() == 2 && has_tree_action(actions, ActionKind::Fold) && has_tree_action(
        actions,
        ActionKind::Call,
    );
    if valid {
        Ok(())
    } else {
        let mut v = chars_of(label);
        push_str(&mut v, " must contain only Fold and Call; got ");
        extend_chars(&mut v, chars_of(describe_actions(actions).as_str()).as_slice());
        Err(string_of(v.as_slice()))
    }
}

/// The line to prune below the current node: when the last action taken was a raise, a
/// further raise or all-in is removed, and its line is the history followed by it.
pub open spec fn reraise_line(history: Seq<TreeAction>, action: TreeAction) -> Option<Seq<TreeAction>> {
    if history.len() > 0 && history.last() is Raise && (action is Raise || action is AllIn) {
        Some(history.push(action))
    } else {
        None
    }
}

/// The line to remove for `action` after `history`, if it re-raises a raise (the rule of
/// `collect_reraise_lines`).
pub fn reraise_line_to_remove(history: &[TreeAction], action: TreeAction) -> (r: Option<Vec<TreeAction>>)
    ensures
        match r {
            Some(line) => reraise_line(history@, action) == Some(line@),
            None => reraise_line(history@, action) is None,
        },
{
    let n = history.len();
    let facing_raise = n > 0 && matches!(history[n - 1], TreeAction::Raise(_));
    if facing_raise && matches!(action, TreeAction::Raise(_) | TreeAction::AllIn(_)) {
        let mut line: Vec<TreeAction> = Vec::new();
        let mut i: usize = 0;
        while i < n
            invariant
                i <= n,
                n == history@.len(),
                line@ == history@.take(i as int),
            decreases n - i,
        {
            line.push(history[i]);
            assert(history@.take(i + 1) == history@.take(i as int).push(history@[i as int]));
            i = i + 1;
        }
        assert(history@.take(n as int) == history@);
        line.push(action);
        Some(line)
    } else {
        None
    }
}

/// What the audit of the realistic flop tree found.
#[derive(Clone, Copy, PartialEq, Eq, Debug)]
pub struct AuditFlags {
    pub can_oop_donk: bool,
    pub can_oop_check_raise: bool,
    pub can_ip_raise_donk: bool,
    pub can_ip_reraise: bool,
}

/// Whether every response list offers a raise.
pub open spec fn all_offer_raise(responses: Seq<Vec<TreeAction>>) -> bool {
    forall|k: int| 0 <= k < responses.len() ==> has_kind(#[trigger] responses[k]@, ActionKind::Raise)
}

/// The audit of the realistic flop tree from the action lists met on its lines: the out of
/// position player's root actions, its answer to the in-position bet, the in-position answer to
/// its check-raise, and the in-position answers to each of its donk bets. The answers to the
/// bet and to the check-raise must have the required shape (`require_fold_call_raise`, then
/// `require_fold_call_only`); then the four findings are reported.
pub fn audit_action_lists(
    oop_root_actions: &[TreeAction],
    oop_response_to_ip_bet: &[TreeAction],
    ip_response_to_check_raise: &[TreeAction],
    ip_responses_to_donks: &[Vec<TreeAction>],
) -> (r: Result<AuditFlags, String>)
    ensures
        match r {
            Ok(flags) => has_kind(oop_response_to_ip_bet@, ActionKind::Fold) && has_kind(
                oop_response_to_ip_bet@,
                ActionKind::Call,
            ) && has_kind(oop_response_to_ip_bet@, ActionKind::Raise)
                && ip_response_to_check_raise@.len() == 2 && has_kind(
                ip_response_to_check_raise@,
                ActionKind::Fold,
            ) && has_kind(ip_response_to_check_raise@, ActionKind::Call) && flags.can_oop_donk
                == (actions_of_kind(oop_root_actions@, ActionKind::Bet).len() == 2)
                && flags.can_oop_check_raise == has_kind(oop_response_to_ip_bet@, ActionKind::Raise)
                && flags.can_ip_raise_donk == all_offer_raise(ip_responses_to_donks@)
                && flags.can_ip_reraise == has_kind(
                ip_response_to_check_raise@,
                ActionKind::RaiseOrAllIn,
            ),
            Err(m) => if !(has_kind(oop_response_to_ip_bet@, ActionKind::Fold) && has_kind(
                oop_response_to_ip_bet@,
                ActionKind::Call,
            ) && has_kind(oop_response_to_ip_bet@, ActionKind::Raise)) {
                m@ == "OOP response to IP bet"@ + " must contain Fold, Call, Raise; got "@ + actions_text(
                    oop_response_to_ip_bet@,
                )
            } else {
                !(ip_response_to_check_raise@.len() == 2 && has_kind(
                    ip_response_to_check_raise@,
                    ActionKind::Fold,
                ) && has_kind(ip_response_to_check_raise@, ActionKind::Call)) && m@
                    == "IP response to OOP check-raise"@ + " must contain only Fold and Call; got "@
                    + actions_text(ip_response_to_check_raise@)
            },
        },
{
    let mut can_ip_raise_donk = true;
    let n = ip_responses_to_donks.len();
    let mut i: usize = 0;
    while i < n
        invariant
            i <= n,
            n == ip_responses_to_donks@.len(),
            can_ip_raise_donk == forall|k: int|
                0 <= k < i ==> has_kind(#[trigger] ip_responses_to_donks@[k]@, ActionKind::Raise),
        decreases n - i,
    {
        let has = has_tree_action(ip_responses_to_donks[i].as_slice(), ActionKind::Raise);
        can_ip_raise_donk = can_ip_raise_donk && has;
        i = i + 1;
    }
    let oop_donks = filter_actions(oop_root_actions, ActionKind::Bet);
    let can_oop_donk = oop_donks.len() == 2;
    let can_oop_check_raise = has_tree_action(oop_response_to_ip_bet, ActionKind::Raise);
    let can_ip_reraise = has_tree_action(ip_response_to_check_raise, ActionKind::RaiseOrAllIn);
    match require_fold_call_raise("OOP response to IP bet", oop_response_to_ip_bet) {
        Ok(_) => {},
        Err(e) => {
            return Err(e);
        },
    }
    match require_fold_call_only("IP response to OOP check-raise", ip_response_to_check_raise) {
        Ok(_) => {},
        Err(e) => {
            return Err(e);
        },
    }
    Ok(AuditFlags { can_oop_donk, can_oop_check_raise, can_ip_raise_donk, can_ip_reraise })
}

/// Whether the audited tree is the realistic flop tree: the out-of-position player can donk
/// with both sizes and check-raise, the in-position player can raise a donk but cannot
/// re-raise a check-raise.
pub open spec fn audit_passes(flags: AuditFlags) -> bool {
    flags.can_oop_donk && flags.can_oop_check_raise && flags.can_ip_raise_donk
        && !flags.can_ip_reraise
}

/// The verdict of the audit: passes, or `realistic flop tree audit failed`.
pub fn audit_verdict(flags: &AuditFlags) -> (r: Result<(), String>)
    ensures
        r is Ok <==> audit_passes(*flags),
        r matches Err(m) ==> m@ == "realistic flop tree audit failed"@,
{
    if !flags.can_oop_donk || !flags.can_oop_check_raise || !flags.can_ip_raise_donk
        || flags.can_ip_reraise {
        let m = chars_of("realistic flop tree audit failed");
        return Err(string_of(m.as_slice()));
    }
    Ok(())
}

/// The kind of action a hand mostly takes.
#[derive(Clone, Copy, PartialEq, Eq, Debug)]
pub enum ModalAction {
    Check,
    Bet,
    Fold,
    Call,
    Raise,
    Other,
}

/// How an action counts when a hand's most frequent action is named: a bet or an all-in is a
/// bet; a check, fold, call or raise is itself; anything else is other.
pub open spec fn modal_of(action: TreeAction) -> ModalAction {
    match action {
        TreeAction::Check => ModalAction::Check,
        TreeAction::Bet(_) => ModalAction::Bet,
        TreeAction::AllIn(_) => ModalAction::Bet,
        TreeAction::Fold => ModalAction::Fold,
        TreeAction::Call => ModalAction::Call,
        TreeAction::Raise(_) => ModalAction::Raise,
        _ => ModalAction::Other,
    }
}

/// The modal kind of an action (the mapping inside `modal_action_for_hand`).
pub fn modal_kind(action: TreeAction) -> (m: ModalAction)
    ensures
        m == modal_of(action),
{
    match action {
        TreeAction::Check => ModalAction::Check,
        TreeAction::Bet(_) | TreeAction::AllIn(_) => ModalAction::Bet,
        TreeAction::Fold => ModalAction::Fold,
        TreeAction::Call => ModalAction::Call,
        TreeAction::Raise(_) => ModalAction::Raise,
        _ => ModalAction::Other,
    }
}

} // verus!
