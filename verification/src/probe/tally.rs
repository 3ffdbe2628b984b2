//! Book-keeping of a probe run: why spots, sizings and rows were skipped, and which
//! output rows were already written.
use crate::probe::screen::SkipReason;
use crate::text::{decimal, decimal_chars, extend_chars, push_str, str_equals, string_of};
use vstd::prelude::*;

verus! {

/// A reason counted in the skip summary.
#[derive(Clone, Copy)]
pub enum SkipKind {
    InvalidBoard,
    Unsupported4bp,
    NoRangePair,
    HandNotInRange,
    NoConfig,
    InvalidHand,
    BlankHand,
    SolveFailed,
    DuplicateRow,
}

/// The summary line under which a screening failure is counted: a hand that holds a
/// flop card counts as a hand that is not in range.
pub open spec fn kind_of(r: SkipReason) -> SkipKind {
    match r {
        SkipReason::InvalidBoard(_) => SkipKind::InvalidBoard,
        SkipReason::InvalidHand(_) => SkipKind::InvalidHand,
        SkipReason::HandOnBoard => SkipKind::HandNotInRange,
        SkipReason::BlankHand => SkipKind::BlankHand,
        SkipReason::NoConfig => SkipKind::NoConfig,
        SkipReason::NoRangePair => SkipKind::NoRangePair,
    }
}

/// The summary line under which a screening failure is counted.
pub fn skip_kind(r: &SkipReason) -> (k: SkipKind)
    ensures
        k == kind_of(*r),
{
    match r {
        SkipReason::InvalidBoard(_) => SkipKind::InvalidBoard,
        SkipReason::InvalidHand(_) => SkipKind::InvalidHand,
        SkipReason::HandOnBoard => SkipKind::HandNotInRange,
        SkipReason::BlankHand => SkipKind::BlankHand,
        SkipReason::NoConfig => SkipKind::NoConfig,
        SkipReason::NoRangePair => SkipKind::NoRangePair,
    }
}

/// How many spots, sizings and rows were skipped, by reason.
pub struct SkipSummary {
    pub invalid_board: usize,
    pub unsupported_4bp: usize,
    pub no_range_pair: usize,
    pub hand_not_in_range: usize,
    pub no_config: usize,
    pub invalid_hand: usize,
    pub blank_hand: usize,
    pub solve_failed: usize,
    pub duplicate_rows: usize,
}

impl SkipSummary {
    /// The count kept for one reason.
    pub open spec fn count(self, k: SkipKind) -> usize {
        match k {
            SkipKind::InvalidBoard => self.invalid_board,
            SkipKind::Unsupported4bp => self.unsupported_4bp,
            SkipKind::NoRangePair => self.no_range_pair,
            SkipKind::HandNotInRange => self.hand_not_in_range,
            SkipKind::NoConfig => self.no_config,
            SkipKind::InvalidHand => self.invalid_hand,
            SkipKind::BlankHand => self.blank_hand,
            SkipKind::SolveFailed => self.solve_failed,
            SkipKind::DuplicateRow => self.duplicate_rows,
        }
    }

    /// A summary with nothing skipped.
    pub fn new() -> (s: SkipSummary)
        ensures
            forall|k: SkipKind| #[trigger] s.count(k) == 0,
    {
        SkipSummary {
            invalid_board: 0,
            unsupported_4bp: 0,
            no_range_pair: 0,
            hand_not_in_range: 0,
            no_config: 0,
            invalid_hand: 0,
            blank_hand: 0,
            solve_failed: 0,
            duplicate_rows: 0,
        }
    }

    /// Counts one more skip for `k`; the other counts stay.
    pub fn record(&mut self, k: SkipKind)
        requires
            old(self).count(k) < usize::MAX,
        ensures
            final(self).count(k) == old(self).count(k) + 1,
            forall|j: SkipKind| j != k ==> #[trigger] final(self).count(j) == old(self).count(j),
    {
        match k {
            SkipKind::InvalidBoard => self.invalid_board = self.invalid_board + 1,
            SkipKind::Unsupported4bp => self.unsupported_4bp = self.unsupported_4bp + 1,
            SkipKind::NoRangePair => self.no_range_pair = self.no_range_pair + 1,
            SkipKind::HandNotInRange => self.hand_not_in_range = self.hand_not_in_range + 1,
            SkipKind::NoConfig => self.no_config = self.no_config + 1,
            SkipKind::InvalidHand => self.invalid_hand = self.invalid_hand + 1,
            SkipKind::BlankHand => self.blank_hand = self.blank_hand + 1,
            SkipKind::SolveFailed => self.solve_failed = self.solve_failed + 1,
            SkipKind::DuplicateRow => self.duplicate_rows = self.duplicate_rows + 1,
        }
    }

    /// The line printed at the end of a run.
    pub open spec fn summary_text(self) -> Seq<char> {
        "Skipped summary: invalid board="@ + decimal(self.invalid_board as nat)
            + ", unsupported 4bp="@ + decimal(self.unsupported_4bp as nat)
            + ", no range pair="@ + decimal(self.no_range_pair as nat)
            + ", hand not in range="@ + decimal(self.hand_not_in_range as nat)
            + ", no config="@ + decimal(self.no_config as nat)
            + ", invalid hand="@ + decimal(self.invalid_hand as nat)
            + ", blank hand="@ + decimal(self.blank_hand as nat)
            + ", solve failed="@ + decimal(self.solve_failed as nat)
            + ", duplicate rows="@ + decimal(self.duplicate_rows as nat)
    }

    /// The line printed at the end of a run, with every count.
    pub fn summary_line(&self) -> (s: String)
        ensures
            s@ == self.summary_text(),
    {
        let mut v: Vec<char> = Vec::new();
        push_str(&mut v, "Skipped summary: invalid board=");
        append_count(&mut v, self.invalid_board);
        push_str(&mut v, ", unsupported 4bp=");
        append_count(&mut v, self.unsupported_4bp);
        push_str(&mut v, ", no range pair=");
        append_count(&mut v, self.no_range_pair);
        push_str(&mut v, ", hand not in range=");
        append_count(&mut v, self.hand_not_in_range);
        push_str(&mut v, ", no config=");
        append_count(&mut v, self.no_config);
        push_str(&mut v, ", invalid hand=");
        append_count(&mut v, self.invalid_hand);
        push_str(&mut v, ", blank hand=");
        append_count(&mut v, self.blank_hand);
        push_str(&mut v, ", solve failed=");
        append_count(&mut v, self.solve_failed);
        push_str(&mut v, ", duplicate rows=");
        append_count(&mut v, self.duplicate_rows);
        string_of(v.as_slice())
    }
}

/// Appends the decimal digits of a count.
fn append_count(v: &mut Vec<char>, n: usize)
    ensures
        final(v)@ == old(v)@ + decimal(n as nat),
{
    let digits = decimal_chars(n as u64);
    extend_chars(v, digits.as_slice());
}

/// A set of text keys (the keys of the rows written, or the boards drawn), each held once,
/// in the order first taken.
pub struct KeySet {
    keys: Vec<String>,
}

impl View for KeySet {
    type V = Seq<Seq<char>>;

    closed spec fn view(&self) -> Seq<Seq<char>> {
        self.keys@.map_values(|k: String| k@)
    }
}

impl KeySet {
    /// No key written yet.
    pub fn new() -> (r: KeySet)
        ensures
            r@ == Seq::<Seq<char>>::empty(),
    {
        let r = KeySet { keys: Vec::new() };
        assert(r@ =~= Seq::<Seq<char>>::empty());
        r
    }

    /// How many keys were taken.
    pub fn len(&self) -> (n: usize)
        ensures
            n == self@.len(),
    {
        self.keys.len()
    }

    /// Takes a key if it is new (a `HashSet` insert): whether it was new, and the keys
    /// then held, in the order they were first taken, none twice.
    pub fn insert(&mut self, key: String) -> (fresh: bool)
        ensures
            fresh == !old(self)@.contains(key@),
            final(self)@ == (if fresh { old(self)@.push(key@) } else { old(self)@ }),
            final(self)@.no_duplicates(),
    {
        proof {
            use_type_invariant(&*self);
        }
        let n = self.keys.len();
        let mut i: usize = 0;
        while i < n
            invariant
                i <= n,
                n == self.keys@.len(),
                *self == *old(self),
                self@.no_duplicates(),
                forall|j: int| 0 <= j < i ==> self@[j] != key@,
            decreases n - i,
        {
            if str_equals(self.keys[i].as_str(), key.as_str()) {
                assert(self@[i as int] == key@);
                return false;
            }
            i = i + 1;
        }
        let ghost before = self@;
        assert(!before.contains(key@));
        let mut keys: Vec<String> = Vec::new();
        std::mem::swap(&mut keys, &mut self.keys);
        keys.push(key);
        let ghost after = keys@.map_values(|k: String| k@);
        assert(after =~= before.push(key@));
        proof {
            lemma_push_keeps_distinct(before, key@);
        }
        self.keys = keys;
        true
    }

    /// The keys held are pairwise different.
    #[verifier::type_invariant]
    spec fn distinct(self) -> bool {
        self@.no_duplicates()
    }
}

/// Adding a key not yet held keeps the keys pairwise different.
proof fn lemma_push_keeps_distinct(before: Seq<Seq<char>>, key: Seq<char>)
    requires
        before.no_duplicates(),
        !before.contains(key),
    ensures
        before.push(key).no_duplicates(),
{
    let s = before.push(key);
    assert forall|a: int, b: int| 0 <= a < s.len() && 0 <= b < s.len() && a != b
        implies s[a] != s[b] by {
        if a < before.len() && b < before.len() {
            assert(before[a] != before[b]);
        } else if a < before.len() {
            assert(before.contains(before[a]));
        } else {
            assert(before.contains(before[b]));
        }
    }
}

/// A key once offered is held afterwards, whether it was new or not, so offering it again
/// is refused: no output row is written twice.
pub proof fn lemma_taken_key_refused(before: Seq<Seq<char>>, key: Seq<char>)
    ensures
        (if !before.contains(key) { before.push(key) } else { before }).contains(key),
{
    if !before.contains(key) {
        assert(before.push(key)[before.len() as int] == key);
    }
}

} // verus!
