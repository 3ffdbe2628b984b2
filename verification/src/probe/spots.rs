//! Spots of the stat probe: the rows of the input read into spots, the positions and
//! pot types they may name, and the pot, stack and bet sizes each pot type gets.
use crate::probe::ranges::{
    four_bet_pair, lookup_3bp_ranges, lookup_4bp_ranges, lookup_srp_ranges, pair_option,
    srp_pair, three_bet_pair, RangePair, ends_with, lemma_pot_pair_keys,
};
use crate::cards::HandCombo;
use crate::probe::notation::{hand_cut_ok, hand_key, normalize_hand_label};
use crate::text::{
    chars_of, decimal, decimal_chars, lower_all, lower_chars, push_str, str_equals, string_of,
    trim, trim_chars,
};
use crate::unicode_case::{to_lowercase, to_uppercase, unicode_lowercase, unicode_uppercase};
use crate::debug_run::rows::{row_view, texts_of};
use vstd::prelude::*;

verus! {

/// Whether a text names a table position: `UTG`, `HJ`, `CO`, `BTN`, `SB` or `BB`.
pub open spec fn is_position_text(p: Seq<char>) -> bool {
    p == "UTG"@ || p == "HJ"@ || p == "CO"@ || p == "BTN"@ || p == "SB"@ || p == "BB"@
}

/// Whether a text names a table position (`is_position`).
pub fn is_position(position: &str) -> (b: bool)
    ensures
        b == is_position_text(position@),
{
    str_equals(position, "UTG") || str_equals(position, "HJ") || str_equals(position, "CO")
        || str_equals(position, "BTN") || str_equals(position, "SB") || str_equals(position, "BB")
}

/// The order in which positions act after the flop: `SB` 0, `BB` 1, `UTG` 2, `HJ` 3, `CO` 4,
/// `BTN` 5, anything else -1.
pub open spec fn position_order(p: Seq<char>) -> i32 {
    if p == "SB"@ {
        0
    } else if p == "BB"@ {
        1
    } else if p == "UTG"@ {
        2
    } else if p == "HJ"@ {
        3
    } else if p == "CO"@ {
        4
    } else if p == "BTN"@ {
        5
    } else {
        -1i32
    }
}

/// The order in which a position acts after the flop (`postflop_position_order`).
pub fn postflop_position_order(position: &str) -> (o: i32)
    ensures
        o == position_order(position@),
{
    if str_equals(position, "SB") {
        0
    } else if str_equals(position, "BB") {
        1
    } else if str_equals(position, "UTG") {
        2
    } else if str_equals(position, "HJ") {
        3
    } else if str_equals(position, "CO") {
        4
    } else if str_equals(position, "BTN") {
        5
    } else {
        -1
    }
}

/// Whether the hero acts after the villain on the flop; with no villain, whether the hero is
/// anyone but the small blind.
pub open spec fn in_position(hero: Seq<char>, villain: Option<Seq<char>>) -> bool {
    match villain {
        None => hero != "SB"@,
        Some(v) => position_order(hero) > position_order(v),
    }
}

/// A text option, taken as characters.
pub open spec fn str_option(o: Option<&str>) -> Option<Seq<char>> {
    match o {
        Some(s) => Some(s@),
        None => None,
    }
}

/// Whether the hero acts after the villain (`is_in_position`).
pub fn is_in_position(hero: &str, villain: Option<&str>) -> (b: bool)
    ensures
        b == in_position(hero@, str_option(villain)),
{
    match villain {
        None => !str_equals(hero, "SB"),
        Some(v) => postflop_position_order(hero) > postflop_position_order(v),
    }
}

/// Of two distinct positions, exactly one acts after the other.
pub proof fn lemma_in_position_exactly_one(hero: Seq<char>, villain: Seq<char>)
    requires
        is_position_text(hero),
        is_position_text(villain),
        hero != villain,
    ensures
        in_position(hero, Some(villain)) != in_position(villain, Some(hero)),
{
}

/// A legacy spot type in the pot type it means: lower-cased and trimmed, `rfi`, `vs_open` and
/// `srp` are `srp`, `vs_3bet` and `3bp` are `3bp`, `4bp` stays, anything else is kept
/// lower-cased.
pub open spec fn legacy_type(value: Seq<char>) -> Seq<char> {
    let l = unicode_lowercase(trim(value));
    if l == "rfi"@ || l == "vs_open"@ || l == "srp"@ {
        "srp"@
    } else if l == "vs_3bet"@ || l == "3bp"@ {
        "3bp"@
    } else if l == "4bp"@ {
        "4bp"@
    } else {
        l
    }
}

/// Reads a legacy spot type (`normalize_legacy_spot_type`).
pub fn normalize_legacy_spot_type(value: &str) -> (r: String)
    ensures
        r@ == legacy_type(value@),
{
    let t = string_of(trim_chars(chars_of(value).as_slice()).as_slice());
    let l = to_lowercase(t.as_str());
    let s = l.as_str();
    if str_equals(s, "rfi") || str_equals(s, "vs_open") || str_equals(s, "srp") {
        string_of(chars_of("srp").as_slice())
    } else if str_equals(s, "vs_3bet") || str_equals(s, "3bp") {
        string_of(chars_of("3bp").as_slice())
    } else if str_equals(s, "4bp") {
        string_of(chars_of("4bp").as_slice())
    } else {
        l
    }
}

/// One spot to solve: its id, pot type, the hero's and villain's positions, the board text
/// and the hand text.
pub struct ProbeSpot {
    pub spot_id: String,
    pub spot_type: String,
    pub hero_position: String,
    pub villain_position: Option<String>,
    pub board: String,
    pub hand: Option<String>,
}

/// The texts of a spot.
pub struct SpotText {
    pub spot_id: Seq<char>,
    pub spot_type: Seq<char>,
    pub hero_position: Seq<char>,
    pub villain_position: Option<Seq<char>>,
    pub board: Seq<char>,
    pub hand: Option<Seq<char>>,
}

/// An owned text option, taken as characters.
pub open spec fn string_option(o: Option<String>) -> Option<Seq<char>> {
    match o {
        Some(s) => Some(s@),
        None => None,
    }
}

/// The texts of a spot.
pub open spec fn spot_text(s: ProbeSpot) -> SpotText {
    SpotText {
        spot_id: s.spot_id@,
        spot_type: s.spot_type@,
        hero_position: s.hero_position@,
        villain_position: string_option(s.villain_position),
        board: s.board@,
        hand: string_option(s.hand),
    }
}

/// Whether a text is a pot type the probe solves: `srp`, `3bp` or `4bp`.
pub open spec fn is_pot_type(t: Seq<char>) -> bool {
    t == "srp"@ || t == "3bp"@ || t == "4bp"@
}

/// The villain's position as kept: trimmed and upper-cased, absent when that leaves nothing.
pub open spec fn villain_text(v: Option<Seq<char>>) -> Option<Seq<char>> {
    match v {
        Some(x) => {
            let u = unicode_uppercase(trim(x));
            if u.len() == 0 {
                None
            } else {
                Some(u)
            }
        },
        None => None,
    }
}

/// The hand as kept: trimmed, absent when that leaves nothing.
pub open spec fn hand_text(h: Option<Seq<char>>) -> Option<Seq<char>> {
    match h {
        Some(x) => if trim(x).len() == 0 {
            None
        } else {
            Some(trim(x))
        },
        None => None,
    }
}

/// Why a row's texts make no spot.
#[derive(Clone, Copy, PartialEq, Eq, Structural, Debug)]
pub enum RejectKind {
    /// The spot type is not `srp`, `3bp` or `4bp`.
    UnsupportedSpotType,
    /// The hero's position is not a position.
    InvalidHero,
    /// The villain's position is not a position.
    InvalidVillain,
    /// The pot type of the new layout is not `SRP`, `3BP` or `4BP`.
    UnsupportedPotType,
}

/// A refused row: the spot's id, why it was refused, and the text that was refused.
#[derive(Debug)]
pub struct RowReject {
    pub spot_id: String,
    pub kind: RejectKind,
    pub value: String,
}

/// A refused row, as texts.
pub struct RejectText {
    pub spot_id: Seq<char>,
    pub kind: RejectKind,
    pub value: Seq<char>,
}

/// A refused row, taken as texts.
pub open spec fn reject_view(r: RowReject) -> RejectText {
    RejectText { spot_id: r.spot_id@, kind: r.kind, value: r.value@ }
}

/// The spot made of a row, or why it was refused, as texts.
pub open spec fn spot_result(r: Result<ProbeSpot, RowReject>) -> Result<SpotText, RejectText> {
    match r {
        Ok(s) => Ok(spot_text(s)),
        Err(e) => Err(reject_view(e)),
    }
}

/// The message a refused row is reported with.
pub open spec fn reject_message_text(r: RejectText) -> Seq<char> {
    "Skipping spot "@ + r.spot_id + match r.kind {
        RejectKind::UnsupportedSpotType => ": unsupported spot_type="@,
        RejectKind::InvalidHero => ": invalid hero_position="@,
        RejectKind::InvalidVillain => ": invalid villain_position="@,
        RejectKind::UnsupportedPotType => ": unsupported pot type "@,
    } + r.value
}

/// The message a refused row is reported with.
pub fn reject_message(r: &RowReject) -> (m: String)
    ensures
        m@ == reject_message_text(reject_view(*r)),
{
    let mut v = chars_of("Skipping spot ");
    push_str(&mut v, r.spot_id.as_str());
    match r.kind {
        RejectKind::UnsupportedSpotType => push_str(&mut v, ": unsupported spot_type="),
        RejectKind::InvalidHero => push_str(&mut v, ": invalid hero_position="),
        RejectKind::InvalidVillain => push_str(&mut v, ": invalid villain_position="),
        RejectKind::UnsupportedPotType => push_str(&mut v, ": unsupported pot type "),
    }
    push_str(&mut v, r.value.as_str());
    string_of(v.as_slice())
}

/// The spot made of the given texts, or why they are refused: the pot type must be solved,
/// the hero's position must be a position, and a named villain's position (trimmed and
/// upper-cased) must be one, checked in that order.
pub open spec fn probe_spot(
    spot_id: Seq<char>,
    spot_type: Seq<char>,
    hero: Seq<char>,
    villain: Option<Seq<char>>,
    board: Seq<char>,
    hand: Option<Seq<char>>,
) -> Result<SpotText, RejectText> {
    if !is_pot_type(spot_type) {
        Err(RejectText { spot_id, kind: RejectKind::UnsupportedSpotType, value: spot_type })
    } else if !is_position_text(hero) {
        Err(RejectText { spot_id, kind: RejectKind::InvalidHero, value: hero })
    } else {
        let v = villain_text(villain);
        if v matches Some(x) && !is_position_text(x) {
            Err(RejectText { spot_id, kind: RejectKind::InvalidVillain, value: v->0 })
        } else {
            Ok(
                SpotText {
                    spot_id,
                    spot_type,
                    hero_position: hero,
                    villain_position: v,
                    board,
                    hand: hand_text(hand),
                },
            )
        }
    }
}

/// What every spot read from the input satisfies: a solved pot type, a hero position, a
/// villain position when there is a villain, and a non-empty trimmed hand when there is one.
pub open spec fn spot_wf(s: SpotText) -> bool {
    &&& is_pot_type(s.spot_type)
    &&& is_position_text(s.hero_position)
    &&& (s.villain_position matches Some(v) ==> is_position_text(v))
    &&& (s.hand matches Some(h) ==> h.len() > 0 && trim(h) == h)
}

proof fn lemma_trim_idempotent(s: Seq<char>)
    ensures
        trim(trim(s)) == trim(s),
{
    crate::text::lemma_trim_twice(s);
}

/// Every spot made by `normalize_probe_spot` satisfies `spot_wf`.
pub proof fn lemma_probe_spot_wf(
    spot_id: Seq<char>,
    spot_type: Seq<char>,
    hero: Seq<char>,
    villain: Option<Seq<char>>,
    board: Seq<char>,
    hand: Option<Seq<char>>,
)
    ensures
        probe_spot(spot_id, spot_type, hero, villain, board, hand) matches Ok(s) ==> spot_wf(s),
{
    if let Some(h) = hand {
        lemma_trim_idempotent(h);
    }
}

/// Builds a spot from its texts, checking its pot type and positions (`normalize_probe_spot`).
pub fn normalize_probe_spot(
    spot_id: String,
    spot_type: String,
    hero_position: String,
    villain_position: Option<String>,
    board: String,
    hand: Option<String>,
) -> (r: Result<ProbeSpot, RowReject>)
    ensures
        spot_result(r) == probe_spot(
            spot_id@,
            spot_type@,
            hero_position@,
            string_option(villain_position),
            board@,
            string_option(hand),
        ),
{
    let t = spot_type.as_str();
    if !(str_equals(t, "srp") || str_equals(t, "3bp") || str_equals(t, "4bp")) {
        return Err(RowReject { spot_id, kind: RejectKind::UnsupportedSpotType, value: spot_type });
    }
    if !is_position(hero_position.as_str()) {
        return Err(RowReject { spot_id, kind: RejectKind::InvalidHero, value: hero_position });
    }
    let villain = match villain_position {
        Some(v) => {
            let trimmed = string_of(trim_chars(chars_of(v.as_str()).as_slice()).as_slice());
            let u = to_uppercase(trimmed.as_str());
            if u.as_str().is_empty() {
                None
            } else {
                Some(u)
            }
        },
        None => None,
    };
    if let Some(v) = &villain {
        if !is_position(v.as_str()) {
            return Err(RowReject { spot_id, kind: RejectKind::InvalidVillain, value: owned(v.as_str()) });
        }
    }
    let kept_hand = match hand {
        Some(h) => {
            let trimmed = string_of(trim_chars(chars_of(h.as_str()).as_slice()).as_slice());
            if trimmed.as_str().is_empty() {
                None
            } else {
                Some(trimmed)
            }
        },
        None => None,
    };
    Ok(
        ProbeSpot {
            spot_id,
            spot_type,
            hero_position,
            villain_position: villain,
            board,
            hand: kept_hand,
        },
    )
}

/// The range pair of a spot by its pot type; an absent villain counts as the empty text.
pub open spec fn spot_ranges(s: SpotText) -> Option<(Seq<char>, Seq<char>, Seq<char>, Seq<char>)> {
    let villain = match s.villain_position {
        Some(v) => v,
        None => seq![],
    };
    if s.spot_type == "srp"@ {
        srp_pair(s.hero_position, villain)
    } else if s.spot_type == "3bp"@ {
        three_bet_pair(s.hero_position, villain)
    } else if s.spot_type == "4bp"@ {
        four_bet_pair(s.hero_position, villain)
    } else {
        None
    }
}

/// The range pair of a spot (`lookup_ranges`).
pub fn lookup_ranges(input: &ProbeSpot) -> (r: Option<RangePair>)
    ensures
        pair_option(r) == spot_ranges(spot_text(*input)),
{
    let hero = input.hero_position.as_str();
    let empty = String::new();
    let villain = match &input.villain_position {
        Some(v) => v.as_str(),
        None => empty.as_str(),
    };
    let t = input.spot_type.as_str();
    if str_equals(t, "srp") {
        lookup_srp_ranges(hero, villain)
    } else if str_equals(t, "3bp") {
        lookup_3bp_ranges(hero, villain)
    } else if str_equals(t, "4bp") {
        lookup_4bp_ranges(hero, villain)
    } else {
        None
    }
}

/// The pot and the effective stack a spot is solved with, in chips (a big blind is 100 chips).
#[derive(Clone, Copy, PartialEq, Eq, Debug)]
pub struct PostflopPotConfig {
    pub starting_pot_chips: i32,
    pub effective_stack_chips: i32,
}

/// The pot and stack of a pot type: 5.5, 18 and 45 big blinds for `srp`, `3bp` and `4bp`, each
/// with a 100 big blind stack; none for any other type.
pub open spec fn pot_config(spot_type: Seq<char>) -> Option<(i32, i32)> {
    if spot_type == "srp"@ {
        Some((550, 10000))
    } else if spot_type == "3bp"@ {
        Some((1800, 10000))
    } else if spot_type == "4bp"@ {
        Some((4500, 10000))
    } else {
        None
    }
}

/// The pot and stack of a spot (`postflop_pot_config`).
pub fn postflop_pot_config(input: &ProbeSpot) -> (r: Option<PostflopPotConfig>)
    ensures
        match r {
            Some(c) => pot_config(input.spot_type@) == Some(
                (c.starting_pot_chips, c.effective_stack_chips),
            ),
            None => pot_config(input.spot_type@) is None,
        },
{
    let t = input.spot_type.as_str();
    if str_equals(t, "srp") {
        Some(PostflopPotConfig { starting_pot_chips: 550, effective_stack_chips: 10000 })
    } else if str_equals(t, "3bp") {
        Some(PostflopPotConfig { starting_pot_chips: 1800, effective_stack_chips: 10000 })
    } else if str_equals(t, "4bp") {
        Some(PostflopPotConfig { starting_pot_chips: 4500, effective_stack_chips: 10000 })
    } else {
        None
    }
}

/// Whether a header names a column: trimmed, equal to the name up to ASCII case.
pub open spec fn header_matches(header: Seq<char>, name: Seq<char>) -> bool {
    lower_all(trim(header)) == lower_all(name)
}

/// The index of the first header that names the column, if any.
pub open spec fn header_position(headers: Seq<Seq<char>>, name: Seq<char>) -> Option<int>
    decreases headers.len(),
{
    if headers.len() == 0 {
        None
    } else if header_matches(headers[0], name) {
        Some(0)
    } else {
        match header_position(headers.skip(1), name) {
            Some(i) => Some(i + 1),
            None => None,
        }
    }
}

proof fn lemma_header_position(headers: Seq<Seq<char>>, name: Seq<char>, i: int)
    requires
        0 <= i <= headers.len(),
        forall|k: int| 0 <= k < i ==> !header_matches(#[trigger] headers[k], name),
    ensures
        i < headers.len() && header_matches(headers[i], name) ==> header_position(headers, name)
            == Some(i),
        i == headers.len() ==> header_position(headers, name) is None,
    decreases i,
{
    if i > 0 {
        let rest = headers.skip(1);
        assert forall|k: int| 0 <= k < i - 1 implies !header_matches(#[trigger] rest[k], name) by {
            assert(rest[k] == headers[k + 1]);
        }
        lemma_header_position(rest, name, i - 1);
        assert(!header_matches(headers[0], name));
        if i < headers.len() {
            assert(rest[i - 1] == headers[i]);
        }
    }
}

fn same_text(a: &[char], b: &[char]) -> (eq: bool)
    ensures
        eq == (a@ == b@),
{
    let x = string_of(a);
    let y = string_of(b);
    str_equals(x.as_str(), y.as_str())
}

/// The index of the column a header row names (`header_index`).
pub fn header_index(headers: &[String], name: &str) -> (r: Option<usize>)
    ensures
        match r {
            Some(i) => header_position(row_view(headers@), name@) == Some(i as int),
            None => header_position(row_view(headers@), name@) is None,
        },
{
    let wanted = lower_chars(chars_of(name).as_slice());
    let n = headers.len();
    let mut i: usize = 0;
    while i < n
        invariant
            i <= n,
            n == headers@.len(),
            wanted@ == lower_all(name@),
            forall|k: int| 0 <= k < i ==> !header_matches(#[trigger] row_view(headers@)[k], name@),
        decreases n - i,
    {
        let h = lower_chars(trim_chars(chars_of(headers[i].as_str()).as_slice()).as_slice());
        if same_text(h.as_slice(), wanted.as_slice()) {
            proof {
                lemma_header_position(row_view(headers@), name@, i as int);
            }
            return Some(i);
        }
        i = i + 1;
    }
    proof {
        lemma_header_position(row_view(headers@), name@, n as int);
    }
    None
}

/// The text of the named column in a record: empty when no header names it or the record is
/// too short.
pub open spec fn field_text(headers: Seq<Seq<char>>, record: Seq<Seq<char>>, name: Seq<char>) -> Seq<
    char,
> {
    match header_position(headers, name) {
        Some(i) => if i < record.len() {
            record[i]
        } else {
            seq![]
        },
        None => seq![],
    }
}

/// The text of the named column in a record (`field`).
pub fn field(headers: &[String], record: &[String], name: &str) -> (r: String)
    ensures
        r@ == field_text(row_view(headers@), row_view(record@), name@),
{
    match header_index(headers, name) {
        Some(i) => if i < record.len() {
            record[i].clone()
        } else {
            String::new()
        },
        None => String::new(),
    }
}

/// The two layouts of the input file.
#[derive(Clone, Copy, PartialEq, Eq, Debug)]
pub enum InputFormat {
    NewSpreadsheet,
    OldStatProbe,
}

impl InputFormat {
    /// How the layout is named in messages (`InputFormat::label`).
    pub fn label(self) -> (s: &'static str)
        ensures
            s@ == match self {
                InputFormat::NewSpreadsheet => "new spreadsheet format"@,
                InputFormat::OldStatProbe => "old stat_probe format"@,
            },
    {
        match self {
            InputFormat::NewSpreadsheet => "new spreadsheet format",
            InputFormat::OldStatProbe => "old stat_probe format",
        }
    }
}

/// Whether a header row names a column.
pub open spec fn has_header(headers: Seq<Seq<char>>, name: Seq<char>) -> bool {
    header_position(headers, name) is Some
}

/// The layout a header row shows: the new one when it names `Spot #`, `Position 1`,
/// `Position 2`, `Pot Type`, `Hand` and `Board`; else the old one when it names `spot_type`,
/// `hero_position`, `villain_position`, `board` and `hand`; else none.
pub open spec fn header_format(headers: Seq<Seq<char>>) -> Option<InputFormat> {
    if has_header(headers, "Spot #"@) && has_header(headers, "Position 1"@) && has_header(
        headers,
        "Position 2"@,
    ) && has_header(headers, "Pot Type"@) && has_header(headers, "Hand"@) && has_header(
        headers,
        "Board"@,
    ) {
        Some(InputFormat::NewSpreadsheet)
    } else if has_header(headers, "spot_type"@) && has_header(headers, "hero_position"@)
        && has_header(headers, "villain_position"@) && has_header(headers, "board"@) && has_header(
        headers,
        "hand"@,
    ) {
        Some(InputFormat::OldStatProbe)
    } else {
        None
    }
}

/// The layout a header row shows (`detect_input_format`); `None` for headers that neither
/// layout has, which the probe reports as unsupported.
pub fn detect_input_format(headers: &[String]) -> (r: Option<InputFormat>)
    ensures
        r == header_format(row_view(headers@)),
{
    let has_new = header_index(headers, "Spot #").is_some() && header_index(
        headers,
        "Position 1",
    ).is_some() && header_index(headers, "Position 2").is_some() && header_index(
        headers,
        "Pot Type",
    ).is_some() && header_index(headers, "Hand").is_some() && header_index(
        headers,
        "Board",
    ).is_some();
    if has_new {
        return Some(InputFormat::NewSpreadsheet);
    }
    let has_old = header_index(headers, "spot_type").is_some() && header_index(
        headers,
        "hero_position",
    ).is_some() && header_index(headers, "villain_position").is_some() && header_index(
        headers,
        "board",
    ).is_some() && header_index(headers, "hand").is_some();
    if has_old {
        return Some(InputFormat::OldStatProbe);
    }
    None
}

/// The spot type of an upper-cased pot type of the new layout: `SRP`, `3BP` and `4BP` become
/// `srp`, `3bp` and `4bp`; any other pot type is not supported.
pub open spec fn pot_spot_type(pot: Seq<char>) -> Option<Seq<char>> {
    if pot == "SRP"@ {
        Some("srp"@)
    } else if pot == "3BP"@ {
        Some("3bp"@)
    } else if pot == "4BP"@ {
        Some("4bp"@)
    } else {
        None
    }
}

/// The spot type of an upper-cased pot type of the new layout, or `None` when the pot type is
/// not supported.
pub fn spot_type_of_pot(pot: &str) -> (r: Option<String>)
    ensures
        match r {
            Some(t) => pot_spot_type(pot@) == Some(t@),
            None => pot_spot_type(pot@) is None,
        },
{
    if str_equals(pot, "SRP") {
        Some(owned("srp"))
    } else if str_equals(pot, "3BP") {
        Some(owned("3bp"))
    } else if str_equals(pot, "4BP") {
        Some(owned("4bp"))
    } else {
        None
    }
}

/// The spot of a row in the new layout: the id (the row number when blank), positions and pot
/// type trimmed and upper-cased, hand and board trimmed; pot types `SRP`, `3BP` and `4BP` only.
pub open spec fn new_record_spot(headers: Seq<Seq<char>>, record: Seq<Seq<char>>, row_number: nat) -> Result<
    SpotText,
    RejectText,
> {
    let id = trim(field_text(headers, record, "Spot #"@));
    let spot_id = if id.len() == 0 {
        decimal(row_number)
    } else {
        id
    };
    let hero = unicode_uppercase(trim(field_text(headers, record, "Position 1"@)));
    let villain = unicode_uppercase(trim(field_text(headers, record, "Position 2"@)));
    let pot = unicode_uppercase(trim(field_text(headers, record, "Pot Type"@)));
    let hand = trim(field_text(headers, record, "Hand"@));
    let board = trim(field_text(headers, record, "Board"@));
    match pot_spot_type(pot) {
        Some(t) => probe_spot(spot_id, t, hero, Some(villain), board, Some(hand)),
        None => Err(RejectText { spot_id, kind: RejectKind::UnsupportedPotType, value: pot }),
    }
}

fn trimmed_field(headers: &[String], record: &[String], name: &str) -> (r: String)
    ensures
        r@ == trim(field_text(row_view(headers@), row_view(record@), name@)),
{
    let f = field(headers, record, name);
    string_of(trim_chars(chars_of(f.as_str()).as_slice()).as_slice())
}

fn row_number_text(row_number: usize) -> (r: String)
    ensures
        r@ == decimal(row_number as nat),
{
    string_of(decimal_chars(row_number as u64).as_slice())
}

fn owned(s: &str) -> (r: String)
    ensures
        r@ == s@,
{
    string_of(chars_of(s).as_slice())
}

/// Reads a row in the new layout (`normalize_new_record`).
pub fn normalize_new_record(headers: &[String], record: &[String], row_number: usize) -> (r:
    Result<ProbeSpot, RowReject>)
    ensures
        spot_result(r) == new_record_spot(row_view(headers@), row_view(record@), row_number as nat),
{
    let id = trimmed_field(headers, record, "Spot #");
    let spot_id = if id.as_str().is_empty() {
        row_number_text(row_number)
    } else {
        id
    };
    let hero_position = to_uppercase(trimmed_field(headers, record, "Position 1").as_str());
    let villain_raw = to_uppercase(trimmed_field(headers, record, "Position 2").as_str());
    let pot_type = to_uppercase(trimmed_field(headers, record, "Pot Type").as_str());
    let hand = trimmed_field(headers, record, "Hand");
    let board = trimmed_field(headers, record, "Board");
    let spot_type = match spot_type_of_pot(pot_type.as_str()) {
        Some(t) => t,
        None => {
            return Err(RowReject { spot_id, kind: RejectKind::UnsupportedPotType, value: pot_type });
        },
    };
    normalize_probe_spot(spot_id, spot_type, hero_position, Some(villain_raw), board, Some(hand))
}

/// The spot of a row in the old layout: the pot type read as a legacy type, positions trimmed
/// and upper-cased, board and hand trimmed, and the id from a `spot_id` column when it has a
/// non-blank entry, else the row number.
pub open spec fn old_record_spot(headers: Seq<Seq<char>>, record: Seq<Seq<char>>, row_number: nat) -> Result<
    SpotText,
    RejectText,
> {
    let spot_type = legacy_type(trim(field_text(headers, record, "spot_type"@)));
    let hero = unicode_uppercase(trim(field_text(headers, record, "hero_position"@)));
    let villain = unicode_uppercase(trim(field_text(headers, record, "villain_position"@)));
    let board = trim(field_text(headers, record, "board"@));
    let hand = trim(field_text(headers, record, "hand"@));
    let spot_id = match header_position(headers, "spot_id"@) {
        Some(i) => if i < record.len() && trim(record[i]).len() > 0 {
            trim(record[i])
        } else {
            decimal(row_number)
        },
        None => decimal(row_number),
    };
    probe_spot(spot_id, spot_type, hero, Some(villain), board, Some(hand))
}

/// Reads a row in the old layout (`normalize_old_record`).
pub fn normalize_old_record(headers: &[String], record: &[String], row_number: usize) -> (r:
    Result<ProbeSpot, RowReject>)
    ensures
        spot_result(r) == old_record_spot(row_view(headers@), row_view(record@), row_number as nat),
{
    let spot_type = normalize_legacy_spot_type(trimmed_field(headers, record, "spot_type").as_str());
    let hero_position = to_uppercase(trimmed_field(headers, record, "hero_position").as_str());
    let villain_raw = to_uppercase(trimmed_field(headers, record, "villain_position").as_str());
    let board = trimmed_field(headers, record, "board");
    let hand = trimmed_field(headers, record, "hand");
    let spot_id = match header_index(headers, "spot_id") {
        Some(i) => {
            if i < record.len() {
                let t = string_of(trim_chars(chars_of(record[i].as_str()).as_slice()).as_slice());
                if t.as_str().is_empty() {
                    row_number_text(row_number)
                } else {
                    t
                }
            } else {
                row_number_text(row_number)
            }
        },
        None => row_number_text(row_number),
    };
    normalize_probe_spot(spot_id, spot_type, hero_position, Some(villain_raw), board, Some(hand))
}

/// Reads a row in the given layout (`normalize_record`).
pub fn normalize_record(
    headers: &[String],
    record: &[String],
    format: InputFormat,
    row_number: usize,
) -> (r: Result<ProbeSpot, RowReject>)
    ensures
        spot_result(r) == match format {
            InputFormat::NewSpreadsheet => new_record_spot(row_view(headers@), row_view(record@), row_number as nat),
            InputFormat::OldStatProbe => old_record_spot(row_view(headers@), row_view(record@), row_number as nat),
        },
{
    match format {
        InputFormat::NewSpreadsheet => normalize_new_record(headers, record, row_number),
        InputFormat::OldStatProbe => normalize_old_record(headers, record, row_number),
    }
}

/// The spot of one row in the given layout, with its row number.
pub open spec fn record_spot(headers: Seq<Seq<char>>, record: Seq<Seq<char>>, format: InputFormat, row_number: nat) -> Result<SpotText, RejectText> {
    match format {
        InputFormat::NewSpreadsheet => new_record_spot(headers, record, row_number),
        InputFormat::OldStatProbe => old_record_spot(headers, record, row_number),
    }
}

/// A row of the input that gave no spot, with its number: one the CSV reader could not read,
/// with the reader's error, or one whose texts were refused.
#[derive(Debug)]
pub enum RowSkip {
    Unreadable(usize, String),
    Rejected(usize, RowReject),
}

/// A row that gave no spot, as texts.
pub enum RowSkipText {
    Unreadable(nat, Seq<char>),
    Rejected(nat, RejectText),
}

/// A skipped row, taken as texts.
pub open spec fn skip_view(s: RowSkip) -> RowSkipText {
    match s {
        RowSkip::Unreadable(n, e) => RowSkipText::Unreadable(n as nat, e@),
        RowSkip::Rejected(n, r) => RowSkipText::Rejected(n as nat, reject_view(r)),
    }
}

/// A record as the CSV reader gives it (its fields, or the reader's error), taken as texts.
pub open spec fn record_view(r: Result<Vec<String>, String>) -> Result<Seq<Seq<char>>, Seq<char>> {
    match r {
        Ok(fields) => Ok(row_view(fields@)),
        Err(e) => Err(e@),
    }
}

/// The spots of the rows of an input file in order, and the rows that gave none in order; the
/// rows are numbered from 1.
pub open spec fn loaded_rows(
    headers: Seq<Seq<char>>,
    records: Seq<Result<Seq<Seq<char>>, Seq<char>>>,
    format: InputFormat,
) -> (Seq<SpotText>, Seq<RowSkipText>)
    decreases records.len(),
{
    if records.len() == 0 {
        (Seq::empty(), Seq::empty())
    } else {
        let before = loaded_rows(headers, records.drop_last(), format);
        let n = records.len();
        match records.last() {
            Ok(r) => match record_spot(headers, r, format, n) {
                Ok(s) => (before.0.push(s), before.1),
                Err(e) => (before.0, before.1.push(RowSkipText::Rejected(n, e))),
            },
            Err(e) => (before.0, before.1.push(RowSkipText::Unreadable(n, e))),
        }
    }
}

/// The rows read from an input file: the spots, and the rows skipped.
pub struct LoadedRows {
    pub rows: Vec<ProbeSpot>,
    pub skipped: Vec<RowSkip>,
}

/// The loaded rows, taken as texts.
pub open spec fn loaded_view(l: LoadedRows) -> (Seq<SpotText>, Seq<RowSkipText>) {
    (l.rows@.map_values(|p: ProbeSpot| spot_text(p)), l.skipped@.map_values(|k: RowSkip| skip_view(k)))
}

/// Reads the rows of an input file in the given layout: the spots of the valid rows in order,
/// and, in order, the rows that could not be read or were refused.
pub fn load_rows(headers: &[String], records: &[Result<Vec<String>, String>], format: InputFormat) -> (r: LoadedRows)
    ensures
        loaded_view(r) == loaded_rows(
            row_view(headers@),
            records@.map_values(|x: Result<Vec<String>, String>| record_view(x)),
            format,
        ),
{
    let ghost all = records@.map_values(|x: Result<Vec<String>, String>| record_view(x));
    let mut out = LoadedRows { rows: Vec::new(), skipped: Vec::new() };
    let n = records.len();
    let mut i: usize = 0;
    while i < n
        invariant
            i <= n,
            n == records@.len(),
            all == records@.map_values(|x: Result<Vec<String>, String>| record_view(x)),
            loaded_view(out) == loaded_rows(row_view(headers@), all.take(i as int), format),
        decreases n - i,
    {
        let ghost before = out;
        assert(all.take(i + 1).drop_last() == all.take(i as int));
        assert(all.take(i + 1).last() == record_view(records@[i as int]));
        match &records[i] {
            Ok(record) => {
                match normalize_record(headers, record.as_slice(), format, i + 1) {
                    Ok(row) => {
                        out.rows.push(row);
                        assert(out.rows@.map_values(|p: ProbeSpot| spot_text(p))
                            == before.rows@.map_values(|p: ProbeSpot| spot_text(p)).push(spot_text(row)));
                        assert(out.skipped@ == before.skipped@);
                    },
                    Err(reject) => {
                        let ghost rv = reject_view(reject);
                        out.skipped.push(RowSkip::Rejected(i + 1, reject));
                        assert(out.skipped@.map_values(|k: RowSkip| skip_view(k))
                            == before.skipped@.map_values(|k: RowSkip| skip_view(k)).push(
                            RowSkipText::Rejected((i + 1) as nat, rv)));
                        assert(out.rows@ == before.rows@);
                    },
                }
            },
            Err(e) => {
                let error = owned(e.as_str());
                out.skipped.push(RowSkip::Unreadable(i + 1, error));
                assert(out.skipped@.map_values(|k: RowSkip| skip_view(k))
                    == before.skipped@.map_values(|k: RowSkip| skip_view(k)).push(
                    RowSkipText::Unreadable((i + 1) as nat, e@)));
                assert(out.rows@ == before.rows@);
            },
        }
        i = i + 1;
    }
    assert(all.take(n as int) == all);
    out
}

/// The column names of the stat probe's output, in order.
pub open spec fn probe_header_names() -> Seq<Seq<char>> {
    seq![
        "spot_type"@,
        "hero_position"@,
        "villain_position"@,
        "board"@,
        "hand"@,
        "bet_size"@,
        "bet_size_bb"@,
        "pot_before_bb"@,
        "check_freq"@,
        "bet_freq"@,
        "check_ev"@,
        "bet_ev"@,
        "best_action"@,
        "ev"@,
        "hero_equity_vs_villain"@,
        "equity_with_draws"@,
        "raw_strength_score"@,
        "improvability_score"@,
        "range_equity_hero"@,
        "range_advantage_score"@,
        "hero_weighted_value_combos"@,
        "villain_weighted_value_combos"@,
        "hero_total_live_combos"@,
        "villain_total_live_combos"@,
        "hero_weighted_value_pct"@,
        "villain_weighted_value_pct"@,
        "nut_advantage_pct"@,
        "nut_advantage_score"@,
        "iteration_count"@,
        "spot_id"@,
    ]
}

/// The header row of the stat probe's output.
pub fn probe_output_header() -> (h: Vec<String>)
    ensures
        row_view(h@) == probe_header_names(),
{
    let names: [&str; 30] = [
        "spot_type",
        "hero_position",
        "villain_position",
        "board",
        "hand",
        "bet_size",
        "bet_size_bb",
        "pot_before_bb",
        "check_freq",
        "bet_freq",
        "check_ev",
        "bet_ev",
        "best_action",
        "ev",
        "hero_equity_vs_villain",
        "equity_with_draws",
        "raw_strength_score",
        "improvability_score",
        "range_equity_hero",
        "range_advantage_score",
        "hero_weighted_value_combos",
        "villain_weighted_value_combos",
        "hero_total_live_combos",
        "villain_total_live_combos",
        "hero_weighted_value_pct",
        "villain_weighted_value_pct",
        "nut_advantage_pct",
        "nut_advantage_score",
        "iteration_count",
        "spot_id",
    ];
    let h = texts_of(&names);
    assert(names@.map_values(|n: &str| n@) =~= probe_header_names());
    h
}

/// A bet size the hero may use on the flop: its label, its name suffix, the share of the pot
/// in percent, and the size as the tree builder reads it.
#[derive(Clone, Copy, Debug)]
pub struct PostflopSizing {
    pub label: &'static str,
    pub suffix: &'static str,
    pub percent: u32,
    pub tree_size: &'static str,
}

/// The texts and the percentage of a bet size.
pub open spec fn sizing_texts(s: PostflopSizing) -> (Seq<char>, Seq<char>, u32, Seq<char>) {
    (s.label@, s.suffix@, s.percent, s.tree_size@)
}

/// The bet sizes of a list, as texts.
pub open spec fn sizings_view(v: Seq<PostflopSizing>) -> Seq<(Seq<char>, Seq<char>, u32, Seq<char>)> {
    v.map_values(|s: PostflopSizing| sizing_texts(s))
}

/// The sizes of a list, as texts.
pub open spec fn sizes_view(v: Seq<&str>) -> Seq<Seq<char>> {
    v.map_values(|s: &str| s@)
}

/// The flop bet sizes of a pot type, for either player: 20%, 60% and 125% in 3-bet pots, 15% and 50% in 4-bet pots, 33% and 75% otherwise.
pub open spec fn flop_sizings_for(pot_type: Seq<char>) -> Seq<(Seq<char>, Seq<char>, u32, Seq<char>)> {
    if pot_type == "3bp"@ {
        seq![("20%"@, "20"@, 20u32, "20%"@), ("60%"@, "60"@, 60u32, "60%"@), ("125%"@, "125"@, 125u32, "125%"@)]
    } else if pot_type == "4bp"@ {
        seq![("15%"@, "15"@, 15u32, "15%"@), ("50%"@, "50"@, 50u32, "50%"@)]
    } else {
        seq![("33%"@, "33"@, 33u32, "33%"@), ("75%"@, "75"@, 75u32, "75%"@)]
    }
}

/// The turn sizes of the player in position by pot type.
pub open spec fn ip_turn_sizes_for(pot_type: Seq<char>) -> Seq<Seq<char>> {
    if pot_type == "3bp"@ {
        seq!["50%"@, "100%"@]
    } else if pot_type == "4bp"@ {
        seq!["25%"@, "67%"@]
    } else {
        seq!["50%"@, "100%"@]
    }
}

/// The river sizes of the player in position by pot type.
pub open spec fn ip_river_sizes_for(pot_type: Seq<char>) -> Seq<Seq<char>> {
    if pot_type == "3bp"@ {
        seq!["50%"@, "100%"@]
    } else if pot_type == "4bp"@ {
        seq!["33%"@, "75%"@]
    } else {
        seq!["50%"@, "100%"@, "150%"@]
    }
}

/// The turn sizes of the player out of position by pot type.
pub open spec fn oop_turn_sizes_for(pot_type: Seq<char>) -> Seq<Seq<char>> {
    if pot_type == "3bp"@ {
        seq!["50%"@, "125%"@]
    } else if pot_type == "4bp"@ {
        seq!["25%"@, "67%"@]
    } else {
        seq!["33%"@, "75%"@]
    }
}

/// The river sizes of the player out of position by pot type.
pub open spec fn oop_river_sizes_for(pot_type: Seq<char>) -> Seq<Seq<char>> {
    if pot_type == "3bp"@ {
        seq!["50%"@, "100%"@]
    } else if pot_type == "4bp"@ {
        seq!["33%"@, "75%"@]
    } else {
        seq!["33%"@, "100%"@]
    }
}

/// The bet sizes of both players on each street.
pub struct SizingProfile {
    pub ip_flop: Vec<PostflopSizing>,
    pub ip_turn: Vec<&'static str>,
    pub ip_river: Vec<&'static str>,
    pub oop_flop: Vec<PostflopSizing>,
    pub oop_turn: Vec<&'static str>,
    pub oop_river: Vec<&'static str>,
}

/// The bet sizes of a pot type (`sizing_profile`); a type other than `3bp` or `4bp` gets the
/// single-raised pot's sizes.
pub fn sizing_profile(pot_type: &str) -> (p: SizingProfile)
    ensures
        sizings_view(p.ip_flop@) == flop_sizings_for(pot_type@),
        sizings_view(p.oop_flop@) == flop_sizings_for(pot_type@),
        sizes_view(p.ip_turn@) == ip_turn_sizes_for(pot_type@),
        sizes_view(p.ip_river@) == ip_river_sizes_for(pot_type@),
        sizes_view(p.oop_turn@) == oop_turn_sizes_for(pot_type@),
        sizes_view(p.oop_river@) == oop_river_sizes_for(pot_type@),
{
    if str_equals(pot_type, "3bp") {
        let mut flop: Vec<PostflopSizing> = Vec::new();
        flop.push(PostflopSizing { label: "20%", suffix: "20", percent: 20, tree_size: "20%" });
        flop.push(PostflopSizing { label: "60%", suffix: "60", percent: 60, tree_size: "60%" });
        flop.push(PostflopSizing { label: "125%", suffix: "125", percent: 125, tree_size: "125%" });
        let mut flop2: Vec<PostflopSizing> = Vec::new();
        flop2.push(PostflopSizing { label: "20%", suffix: "20", percent: 20, tree_size: "20%" });
        flop2.push(PostflopSizing { label: "60%", suffix: "60", percent: 60, tree_size: "60%" });
        flop2.push(PostflopSizing { label: "125%", suffix: "125", percent: 125, tree_size: "125%" });
        let mut ip_turn: Vec<&'static str> = Vec::new();
        ip_turn.push("50%");
        ip_turn.push("100%");
        let mut ip_river: Vec<&'static str> = Vec::new();
        ip_river.push("50%");
        ip_river.push("100%");
        let mut oop_turn: Vec<&'static str> = Vec::new();
        oop_turn.push("50%");
        oop_turn.push("125%");
        let mut oop_river: Vec<&'static str> = Vec::new();
        oop_river.push("50%");
        oop_river.push("100%");
        assert(sizings_view(flop@) == flop_sizings_for(pot_type@));
        assert(sizings_view(flop2@) == flop_sizings_for(pot_type@));
        assert(sizes_view(ip_turn@) == ip_turn_sizes_for(pot_type@));
        assert(sizes_view(ip_river@) == ip_river_sizes_for(pot_type@));
        assert(sizes_view(oop_turn@) == oop_turn_sizes_for(pot_type@));
        assert(sizes_view(oop_river@) == oop_river_sizes_for(pot_type@));
        SizingProfile { ip_flop: flop, ip_turn, ip_river, oop_flop: flop2, oop_turn, oop_river }
    } else if str_equals(pot_type, "4bp") {
        let mut flop: Vec<PostflopSizing> = Vec::new();
        flop.push(PostflopSizing { label: "15%", suffix: "15", percent: 15, tree_size: "15%" });
        flop.push(PostflopSizing { label: "50%", suffix: "50", percent: 50, tree_size: "50%" });
        let mut flop2: Vec<PostflopSizing> = Vec::new();
        flop2.push(PostflopSizing { label: "15%", suffix: "15", percent: 15, tree_size: "15%" });
        flop2.push(PostflopSizing { label: "50%", suffix: "50", percent: 50, tree_size: "50%" });
        let mut ip_turn: Vec<&'static str> = Vec::new();
        ip_turn.push("25%");
        ip_turn.push("67%");
        let mut ip_river: Vec<&'static str> = Vec::new();
        ip_river.push("33%");
        ip_river.push("75%");
        let mut oop_turn: Vec<&'static str> = Vec::new();
        oop_turn.push("25%");
        oop_turn.push("67%");
        let mut oop_river: Vec<&'static str> = Vec::new();
        oop_river.push("33%");
        oop_river.push("75%");
        assert(sizings_view(flop@) == flop_sizings_for(pot_type@));
        assert(sizings_view(flop2@) == flop_sizings_for(pot_type@));
        assert(sizes_view(ip_turn@) == ip_turn_sizes_for(pot_type@));
        assert(sizes_view(ip_river@) == ip_river_sizes_for(pot_type@));
        assert(sizes_view(oop_turn@) == oop_turn_sizes_for(pot_type@));
        assert(sizes_view(oop_river@) == oop_river_sizes_for(pot_type@));
        SizingProfile { ip_flop: flop, ip_turn, ip_river, oop_flop: flop2, oop_turn, oop_river }
    } else {
        let mut flop: Vec<PostflopSizing> = Vec::new();
        flop.push(PostflopSizing { label: "33%", suffix: "33", percent: 33, tree_size: "33%" });
        flop.push(PostflopSizing { label: "75%", suffix: "75", percent: 75, tree_size: "75%" });
        let mut flop2: Vec<PostflopSizing> = Vec::new();
        flop2.push(PostflopSizing { label: "33%", suffix: "33", percent: 33, tree_size: "33%" });
        flop2.push(PostflopSizing { label: "75%", suffix: "75", percent: 75, tree_size: "75%" });
        let mut ip_turn: Vec<&'static str> = Vec::new();
        ip_turn.push("50%");
        ip_turn.push("100%");
        let mut ip_river: Vec<&'static str> = Vec::new();
        ip_river.push("50%");
        ip_river.push("100%");
        ip_river.push("150%");
        let mut oop_turn: Vec<&'static str> = Vec::new();
        oop_turn.push("33%");
        oop_turn.push("75%");
        let mut oop_river: Vec<&'static str> = Vec::new();
        oop_river.push("33%");
        oop_river.push("100%");
        assert(sizings_view(flop@) == flop_sizings_for(pot_type@));
        assert(sizings_view(flop2@) == flop_sizings_for(pot_type@));
        assert(sizes_view(ip_turn@) == ip_turn_sizes_for(pot_type@));
        assert(sizes_view(ip_river@) == ip_river_sizes_for(pot_type@));
        assert(sizes_view(oop_turn@) == oop_turn_sizes_for(pot_type@));
        assert(sizes_view(oop_river@) == oop_river_sizes_for(pot_type@));
        SizingProfile { ip_flop: flop, ip_turn, ip_river, oop_flop: flop2, oop_turn, oop_river }
    }
}

/// The flop sizes of the player in position (`ip_flop_sizings`).
pub fn ip_flop_sizings(pot_type: &str) -> (v: Vec<PostflopSizing>)
    ensures
        sizings_view(v@) == flop_sizings_for(pot_type@),
{
    sizing_profile(pot_type).ip_flop
}

/// The key that tells output rows apart: spot id, pot type, hero, villain (empty when there is
/// none), flop, hand and bet size, joined with `|`.
pub open spec fn row_key_text(s: SpotText, flop: Seq<char>, hand: Seq<char>, sizing: Seq<char>) -> Seq<
    char,
> {
    let villain = match s.villain_position {
        Some(v) => v,
        None => seq![],
    };
    s.spot_id + "|"@ + s.spot_type + "|"@ + s.hero_position + "|"@ + villain + "|"@ + flop + "|"@
        + hand + "|"@ + sizing
}

/// The key of an output row, by which duplicate rows are skipped.
pub fn row_key(spot: &ProbeSpot, flop: &str, hand: &str, sizing: &str) -> (k: String)
    ensures
        k@ == row_key_text(spot_text(*spot), flop@, hand@, sizing@),
{
    let mut v = chars_of(spot.spot_id.as_str());
    push_str(&mut v, "|");
    push_str(&mut v, spot.spot_type.as_str());
    push_str(&mut v, "|");
    push_str(&mut v, spot.hero_position.as_str());
    push_str(&mut v, "|");
    match &spot.villain_position {
        Some(villain) => push_str(&mut v, villain.as_str()),
        None => {},
    }
    push_str(&mut v, "|");
    push_str(&mut v, flop);
    push_str(&mut v, "|");
    push_str(&mut v, hand);
    push_str(&mut v, "|");
    push_str(&mut v, sizing);
    string_of(v.as_slice())
}

/// No hand before index `k` has a label with the given key: the labels a search reads.
pub open spec fn no_key_match_before(hands: Seq<HandCombo>, key: Seq<char>, k: int) -> bool {
    forall|j: int| 0 <= j < k ==> hand_key(#[trigger] hands[j].label@) != key
}

/// Finds the first hand whose label has the same key as the hand text (the search for the
/// spot's hand among the solved hands).
pub fn find_hand_by_label(hands: &[HandCombo], hand: &str) -> (r: Option<usize>)
    requires
        hand_cut_ok(hand@),
        forall|k: int|
            0 <= k < hands@.len() && no_key_match_before(hands@, hand_key(hand@), k)
                ==> hand_cut_ok(#[trigger] hands@[k].label@),
    ensures
        match r {
            Some(i) => i < hands@.len() && hand_key(hands@[i as int].label@) == hand_key(hand@)
                && forall|k: int|
                0 <= k < i ==> hand_key(#[trigger] hands@[k].label@) != hand_key(hand@),
            None => forall|k: int|
                0 <= k < hands@.len() ==> hand_key(#[trigger] hands@[k].label@) != hand_key(hand@),
        },
{
    let wanted = normalize_hand_label(hand);
    let n = hands.len();
    let mut i: usize = 0;
    while i < n
        invariant
            i <= n,
            n == hands@.len(),
            wanted@ == hand_key(hand@),
            forall|k: int|
                0 <= k < hands@.len() && no_key_match_before(hands@, hand_key(hand@), k)
                    ==> hand_cut_ok(#[trigger] hands@[k].label@),
            forall|k: int| 0 <= k < i ==> hand_key(#[trigger] hands@[k].label@) != hand_key(hand@),
        decreases n - i,
    {
        assert(no_key_match_before(hands@, hand_key(hand@), i as int));
        let key = normalize_hand_label(hands[i].label.as_str());
        if str_equals(key.as_str(), wanted.as_str()) {
            return Some(i);
        }
        i = i + 1;
    }
    None
}

/// The hands a spot's rows are written for: when the spot names a hand (trimmed, not blank),
/// the first solved hand with the same key, or `None` when no solved hand has it; else every
/// solved hand.
pub fn target_hands(hands: &[HandCombo], hand: Option<&str>) -> (r: Option<Vec<HandCombo>>)
    requires
        hand_text(str_option(hand)) matches Some(h) ==> {
            &&& hand_cut_ok(h)
            &&& forall|k: int|
                0 <= k < hands@.len() && no_key_match_before(hands@, hand_key(h), k)
                    ==> hand_cut_ok(#[trigger] hands@[k].label@)
        },
    ensures
        match hand_text(str_option(hand)) {
            None => r matches Some(v) && v@ == hands@,
            Some(h) => match r {
                Some(v) => exists|i: int|
                    0 <= i < hands@.len() && v@ == seq![hands@[i]] && hand_key(hands@[i].label@)
                        == hand_key(h) && no_key_match_before(hands@, hand_key(h), i),
                None => forall|k: int|
                    0 <= k < hands@.len() ==> hand_key(#[trigger] hands@[k].label@) != hand_key(h),
            },
        },
{
    let named = match hand {
        Some(h) => {
            let t = string_of(trim_chars(chars_of(h).as_slice()).as_slice());
            if t.as_str().is_empty() {
                None
            } else {
                Some(t)
            }
        },
        None => None,
    };
    match named {
        Some(t) => {
            assert(hand_text(str_option(hand)) == Some(t@));
            let found = find_hand_by_label(hands, t.as_str());
            match found {
                Some(i) => {
                    let mut v: Vec<HandCombo> = Vec::new();
                    v.push(hands[i].clone());
                    assert(v@ == seq![hands@[i as int]]);
                    assert(no_key_match_before(hands@, hand_key(t@), i as int));
                    assert(hand_key(hands@[i as int].label@) == hand_key(t@));
                    Some(v)
                },
                None => None,
            }
        },
        None => {
            assert(hand_text(str_option(hand)) is None);
            let mut v: Vec<HandCombo> = Vec::new();
            let n = hands.len();
            let mut k: usize = 0;
            while k < n
                invariant
                    k <= n,
                    n == hands@.len(),
                    v@ == hands@.take(k as int),
                decreases n - k,
            {
                v.push(hands[k].clone());
                assert(hands@.take(k + 1) == hands@.take(k as int).push(hands@[k as int]));
                k = k + 1;
            }
            assert(hands@.take(n as int) == hands@);
            Some(v)
        },
    }
}

/// A spot's range pair is the pair of its pot type for its positions (an absent villain
/// counting as the empty text): a single-raised pot's pair for `srp`, the 3-bet pot's for
/// `3bp`, the 4-bet pot's for `4bp`, and none for any other type. So the hero key of a
/// 4-bet pot spot always names a 4-bet line.
pub proof fn lemma_spot_ranges_follow_pot_type(s: SpotText)
    ensures
        ({
            let v = match s.villain_position {
                Some(x) => x,
                None => seq![],
            };
            &&& s.spot_type == "srp"@ ==> spot_ranges(s) == srp_pair(s.hero_position, v)
            &&& s.spot_type == "3bp"@ ==> spot_ranges(s) == three_bet_pair(s.hero_position, v)
            &&& s.spot_type == "4bp"@ ==> spot_ranges(s) == four_bet_pair(s.hero_position, v)
            &&& !is_pot_type(s.spot_type) ==> spot_ranges(s) is None
            &&& s.spot_type == "4bp"@ ==> (spot_ranges(s) matches Some(p) ==> ends_with(
                p.2,
                " 3bet Defense 4bet"@,
            ) || ends_with(p.2, " 4bet Defense shove+call"@))
        }),
{
    reveal_strlit("srp");
    reveal_strlit("3bp");
    reveal_strlit("4bp");
    assert("srp"@[0] != "3bp"@[0] && "srp"@[0] != "4bp"@[0] && "3bp"@[0] != "4bp"@[0]);
    let v = match s.villain_position {
        Some(x) => x,
        None => seq![],
    };
    lemma_pot_pair_keys(s.hero_position, v);
}

/// Every solved pot type has a pot below a 100 big blind stack, only solved pot types have
/// one, and the pot grows with each raise before the flop: 5.5 big blinds single-raised, 18
/// after a 3-bet, 45 after a 4-bet.
pub proof fn lemma_pot_configs_grow(t: Seq<char>)
    ensures
        pot_config(t) is Some <==> is_pot_type(t),
        pot_config(t) matches Some(c) ==> c.1 == 10000 && 0 < c.0 < c.1,
        pot_config("srp"@) == Some((550i32, 10000i32)) && pot_config("3bp"@) == Some(
            (1800i32, 10000i32),
        ) && pot_config("4bp"@) == Some((4500i32, 10000i32)),
{
    reveal_strlit("srp");
    reveal_strlit("3bp");
    reveal_strlit("4bp");
    assert("srp"@[0] != "3bp"@[0] && "srp"@[0] != "4bp"@[0] && "3bp"@[0] != "4bp"@[0]);
}

} // verus!
