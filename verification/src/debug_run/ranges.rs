//! Range text as the flop debug exporter hands it to the solver: each hand
//! class written high rank first, each span `AQs-A6s` written high end first.
use crate::debug_run::notation::result_view;
use crate::text::{
    lemma_ascii_slice,
    sub_chars,
    ascii_lower, ascii_upper, chars_of, char_from_ascii, extend_chars, find_char, join_chars,
    join_with, lower_all, lower_chars, remove_ws, split_chars, split_on, string_of, to_ascii_upper,
    trim, trim_chars, upper_all, upper_chars, without_whitespace, first_index_of,
    lemma_first_index_of,
};
use vstd::prelude::*;
use vstd::string::StringSliceAdditionalSpecFns;
use vstd::utf8::{decode_utf8, encode_utf8, is_ascii_chars, is_continuation_byte};

verus! {

broadcast use vstd::utf8::group_utf8_lib;

/// The value of a rank symbol: `2`..`9` their digit, `T` 10, `J` 11, `Q` 12, `K` 13, `A` 14,
/// anything else 0.
pub open spec fn rank_worth(c: char) -> u8 {
    if '2' <= c && c <= '9' {
        ((c as u32) - 48) as u8
    } else if c == 'T' {
        10
    } else if c == 'J' {
        11
    } else if c == 'Q' {
        12
    } else if c == 'K' {
        13
    } else if c == 'A' {
        14
    } else {
        0
    }
}

/// The value of a rank symbol (`rank_value`).
pub fn rank_value(rank: char) -> (v: u8)
    ensures
        v == rank_worth(rank),
{
    if '2' <= rank && rank <= '9' {
        ((rank as u32) - 48) as u8
    } else if rank == 'T' {
        10
    } else if rank == 'J' {
        11
    } else if rank == 'Q' {
        12
    } else if rank == 'K' {
        13
    } else if rank == 'A' {
        14
    } else {
        0
    }
}

/// The key of a hand class: the values of its first two bytes, read as upper-case rank
/// symbols, or `(0, 0)` for a class shorter than two bytes.
pub open spec fn class_key(class: Seq<char>) -> (u8, u8) {
    let b = encode_utf8(class);
    if b.len() < 2 {
        (0, 0)
    } else {
        (rank_worth(ascii_upper(b[0] as char)), rank_worth(ascii_upper(b[1] as char)))
    }
}

/// The key of a hand class (`hand_class_key`).
pub fn hand_class_key(class: &str) -> (key: (u8, u8))
    ensures
        key == class_key(class@),
{
    let bytes = class.as_bytes();
    if bytes.len() < 2 {
        return (0, 0);
    }
    (
        rank_value(to_ascii_upper(char_from_ascii(bytes[0]))),
        rank_value(to_ascii_upper(char_from_ascii(bytes[1]))),
    )
}

/// Lexicographic `>=` on keys.
pub open spec fn key_ge(a: (u8, u8), b: (u8, u8)) -> bool {
    a.0 > b.0 || (a.0 == b.0 && a.1 >= b.1)
}

/// A hand class with whitespace removed, its first two bytes upper-cased and put in
/// descending rank order, and the rest lower-cased; shorter than two bytes, just upper-cased.
pub open spec fn normalized_class(class: Seq<char>) -> Seq<char> {
    let compact = remove_ws(class);
    let b = encode_utf8(compact);
    if b.len() < 2 {
        upper_all(compact)
    } else {
        let first = ascii_upper(b[0] as char);
        let second = ascii_upper(b[1] as char);
        let suffix = lower_all(decode_utf8(b.subrange(2, b.len() as int)));
        if rank_worth(first) >= rank_worth(second) {
            seq![first, second] + suffix
        } else {
            seq![second, first] + suffix
        }
    }
}

/// `normalize_hand_class` cuts the compacted class after its second byte; this holds when
/// that cut does not fall inside a character.
pub open spec fn class_cut_ok(class: Seq<char>) -> bool {
    let b = encode_utf8(remove_ws(class));
    b.len() <= 2 || !is_continuation_byte(b[2])
}

fn normalize_class_chars(class: &[char]) -> (r: Vec<char>)
    requires
        class_cut_ok(class@),
    ensures
        r@ == normalized_class(class@),
{
    let compact = without_whitespace(class);
    let text = string_of(compact.as_slice());
    let text_str = text.as_str();
    let bytes = text_str.as_bytes();
    let ghost b = encode_utf8(remove_ws(class@));
    assert(bytes@ == b);
    if bytes.len() < 2 {
        return upper_chars(compact.as_slice());
    }
    let first = to_ascii_upper(char_from_ascii(bytes[0]));
    let second = to_ascii_upper(char_from_ascii(bytes[1]));
    proof {
        if b.len() > 2 {
            assert(!is_continuation_byte(text_str.spec_bytes()[2]));
        }
    }
    let (_, tail) = text_str.split_at(2);
    assert(tail@ == decode_utf8(b.subrange(2, b.len() as int)));
    let suffix = lower_chars(chars_of(tail).as_slice());
    let mut r: Vec<char> = Vec::new();
    if rank_value(first) >= rank_value(second) {
        r.push(first);
        r.push(second);
    } else {
        r.push(second);
        r.push(first);
    }
    extend_chars(&mut r, suffix.as_slice());
    r
}

/// Writes a hand class high rank first (`normalize_hand_class`), such as `qaS` to `AQs`.
pub fn normalize_hand_class(class: &str) -> (r: String)
    requires
        class_cut_ok(class@),
    ensures
        r@ == normalized_class(class@),
{
    let chars = chars_of(class);
    let v = normalize_class_chars(chars.as_slice());
    string_of(v.as_slice())
}

/// One range token normalized: whitespace removed; a span `X-Y` with both ends normalized and
/// the end with the larger key first; otherwise the class normalized, keeping one trailing `+`.
pub open spec fn normalized_token(token: Seq<char>) -> Seq<char> {
    let compact = remove_ws(token);
    match first_index_of(compact, '-') {
        Some(i) => {
            let first = normalized_class(compact.take(i));
            let second = normalized_class(compact.skip(i + 1));
            if key_ge(class_key(first), class_key(second)) {
                first + seq!['-'] + second
            } else {
                second + seq!['-'] + first
            }
        },
        None => {
            if compact.len() > 0 && compact.last() == '+' {
                normalized_class(compact.drop_last()) + seq!['+']
            } else {
                normalized_class(compact)
            }
        },
    }
}

/// The cuts `normalize_range_token` makes in its classes fall between characters.
pub open spec fn token_cuts_ok(token: Seq<char>) -> bool {
    let compact = remove_ws(token);
    match first_index_of(compact, '-') {
        Some(i) => class_cut_ok(compact.take(i)) && class_cut_ok(compact.skip(i + 1)),
        None => {
            if compact.len() > 0 && compact.last() == '+' {
                class_cut_ok(compact.drop_last())
            } else {
                class_cut_ok(compact)
            }
        },
    }
}

proof fn lemma_remove_ws_idempotent(s: Seq<char>)
    ensures
        remove_ws(remove_ws(s)) == remove_ws(s),
        forall|k: int| 0 <= k < remove_ws(s).len() ==> !crate::text::is_ws(#[trigger] remove_ws(s)[k]),
    decreases s.len(),
{
    if s.len() > 0 {
        lemma_remove_ws_idempotent(s.drop_last());
        let p = remove_ws(s.drop_last());
        if !crate::text::is_ws(s.last()) {
            assert(remove_ws(s).drop_last() == p);
            assert forall|k: int| 0 <= k < remove_ws(s).len() implies !crate::text::is_ws(
                #[trigger] remove_ws(s)[k],
            ) by {
                if k < p.len() {
                    assert(remove_ws(s)[k] == p[k]);
                }
            }
        }
    }
}

proof fn lemma_remove_ws_no_ws(s: Seq<char>)
    requires
        forall|k: int| 0 <= k < s.len() ==> !crate::text::is_ws(#[trigger] s[k]),
    ensures
        remove_ws(s) == s,
    decreases s.len(),
{
    if s.len() > 0 {
        lemma_remove_ws_no_ws(s.drop_last());
        assert(s.drop_last().push(s.last()) == s);
    }
}

proof fn lemma_upper_idempotent(s: Seq<char>)
    ensures
        upper_all(upper_all(s)) == upper_all(s),
{
    assert(upper_all(upper_all(s)) =~= upper_all(s));
}

proof fn lemma_lower_idempotent(s: Seq<char>)
    ensures
        lower_all(lower_all(s)) == lower_all(s),
{
    assert(lower_all(lower_all(s)) =~= lower_all(s));
}

/// Normalizing an ASCII hand class twice is normalizing it once.
pub proof fn lemma_class_idempotent(class: Seq<char>)
    requires
        is_ascii_chars(class),
    ensures
        normalized_class(normalized_class(class)) == normalized_class(class),
{
    let compact = remove_ws(class);
    lemma_remove_ws_idempotent(class);
    lemma_remove_ws_ascii(class);
    assert(is_ascii_chars(compact));
    let b = encode_utf8(compact);
    lemma_ascii_slice(compact, 0, compact.len() as int);
    let o = normalized_class(class);
    if b.len() < 2 {
        assert(o == upper_all(compact));
        assert forall|k: int| 0 <= k < o.len() implies !crate::text::is_ws(#[trigger] o[k]) by {
            assert(!crate::text::is_ws(compact[k]));
        }
        lemma_remove_ws_no_ws(o);
        assert(is_ascii_chars(o));
        lemma_ascii_slice(o, 0, o.len() as int);
        lemma_upper_idempotent(compact);
    } else {
        assert(b[0] == compact[0] as u8);
        assert(b[1] == compact[1] as u8);
        assert(b[0] as char == compact[0]);
        assert(b[1] as char == compact[1]);
        lemma_ascii_slice(compact, 2, compact.len() as int);
        assert(b.subrange(2, b.len() as int) == encode_utf8(compact).subrange(2, compact.len() as int));
        let first = ascii_upper(compact[0]);
        let second = ascii_upper(compact[1]);
        let suffix = lower_all(compact.skip(2));
        assert(decode_utf8(b.subrange(2, b.len() as int)) == compact.subrange(2, compact.len() as int));
        assert(compact.subrange(2, compact.len() as int) == compact.skip(2));
        let pair = if rank_worth(first) >= rank_worth(second) {
            seq![first, second]
        } else {
            seq![second, first]
        };
        assert(o == pair + suffix);
        assert forall|k: int| 0 <= k < o.len() implies !crate::text::is_ws(#[trigger] o[k]) by {
            if k >= 2 {
                assert(o[k] == ascii_lower(compact[k]));
                assert(!crate::text::is_ws(compact[k]));
            } else {
                assert(!crate::text::is_ws(compact[0]));
                assert(!crate::text::is_ws(compact[1]));
            }
        }
        lemma_remove_ws_no_ws(o);
        assert(is_ascii_chars(o));
        let ob = encode_utf8(o);
        lemma_ascii_slice(o, 0, o.len() as int);
        lemma_ascii_slice(o, 2, o.len() as int);
        assert(ob[0] == o[0] as u8);
        assert(ob[1] == o[1] as u8);
        assert(ob[0] as char == o[0]);
        assert(ob[1] as char == o[1]);
        assert(o.subrange(2, o.len() as int) == suffix);
        lemma_lower_idempotent(compact.skip(2));
        assert(ascii_upper(o[0]) == o[0]);
        assert(ascii_upper(o[1]) == o[1]);
    }
}

proof fn lemma_remove_ws_ascii(s: Seq<char>)
    requires
        is_ascii_chars(s),
    ensures
        is_ascii_chars(remove_ws(s)),
    decreases s.len(),
{
    if s.len() > 0 {
        assert(is_ascii_chars(s.drop_last()));
        lemma_remove_ws_ascii(s.drop_last());
    }
}

fn key_of_chars(class: &[char]) -> (key: (u8, u8))
    ensures
        key == class_key(class@),
{
    let s = string_of(class);
    hand_class_key(s.as_str())
}

fn normalize_token_chars(token: &[char]) -> (r: Vec<char>)
    requires
        token_cuts_ok(token@),
    ensures
        r@ == normalized_token(token@),
{
    let compact = without_whitespace(token);
    proof {
        lemma_remove_ws_idempotent(token@);
        lemma_first_index_of(compact@, '-');
    }
    match find_char(compact.as_slice(), '-') {
        Some(i) => {
            let n = compact.len();
            assert(i < n);
            let left = sub_chars(compact.as_slice(), 0, i);
            let right = sub_chars(compact.as_slice(), i + 1, n);
            proof {
                assert(left@ == compact@.take(i as int));
                assert(right@ == compact@.skip(i + 1));
                assert forall|k: int| 0 <= k < left@.len() implies !crate::text::is_ws(#[trigger] left@[k]) by {
                    assert(left@[k] == compact@[k]);
                }
                assert forall|k: int| 0 <= k < right@.len() implies !crate::text::is_ws(#[trigger] right@[k]) by {
                    assert(right@[k] == compact@[k + i + 1]);
                }
                lemma_remove_ws_no_ws(left@);
                lemma_remove_ws_no_ws(right@);
            }
            let first = normalize_class_chars(left.as_slice());
            let second = normalize_class_chars(right.as_slice());
            let k1 = key_of_chars(first.as_slice());
            let k2 = key_of_chars(second.as_slice());
            let mut r: Vec<char> = Vec::new();
            if k1.0 > k2.0 || (k1.0 == k2.0 && k1.1 >= k2.1) {
                extend_chars(&mut r, first.as_slice());
                r.push('-');
                extend_chars(&mut r, second.as_slice());
            } else {
                extend_chars(&mut r, second.as_slice());
                r.push('-');
                extend_chars(&mut r, first.as_slice());
            }
            r
        },
        None => {
            let n = compact.len();
            if n > 0 && compact[n - 1] == '+' {
                let class = sub_chars(compact.as_slice(), 0, n - 1);
                proof {
                    assert(class@ == compact@.drop_last());
                    assert forall|k: int| 0 <= k < class@.len() implies !crate::text::is_ws(#[trigger] class@[k]) by {
                        assert(class@[k] == compact@[k]);
                    }
                    lemma_remove_ws_no_ws(class@);
                }
                let mut r = normalize_class_chars(class.as_slice());
                r.push('+');
                r
            } else {
                proof {
                    lemma_remove_ws_no_ws(compact@);
                }
                normalize_class_chars(compact.as_slice())
            }
        },
    }
}

/// Normalizes one range token (`normalize_range_token`), such as `a6s-aqs` to `AQs-A6s`.
pub fn normalize_range_token(token: &str) -> (r: String)
    requires
        token_cuts_ok(token@),
    ensures
        r@ == normalized_token(token@),
{
    let chars = chars_of(token);
    let v = normalize_token_chars(chars.as_slice());
    string_of(v.as_slice())
}

/// The comma-separated pieces, trimmed, empty ones dropped, each normalized.
pub open spec fn normalized_tokens(pieces: Seq<Seq<char>>) -> Seq<Seq<char>>
    decreases pieces.len(),
{
    if pieces.len() == 0 {
        seq![]
    } else {
        let prev = normalized_tokens(pieces.drop_last());
        let t = trim(pieces.last());
        if t.len() == 0 {
            prev
        } else {
            prev.push(normalized_token(t))
        }
    }
}

/// Every non-empty trimmed piece of the range can be normalized without cutting a character.
pub open spec fn range_cuts_ok(range: Seq<char>) -> bool {
    forall|k: int|
        0 <= k < split_on(range, ',').len() ==> (trim(#[trigger] split_on(range, ',')[k]).len() == 0
            || token_cuts_ok(trim(split_on(range, ',')[k])))
}

/// A range written for the solver: split at commas, trimmed, empty pieces dropped, each token
/// normalized, rejoined with commas.
pub open spec fn normalized_range(range: Seq<char>) -> Seq<char> {
    join_with(normalized_tokens(split_on(range, ',')), ',')
}

/// Normalizes a whole range string for the solver (`normalize_range_for_solver`).
pub fn normalize_range_for_solver(range: &str) -> (r: String)
    requires
        range_cuts_ok(range@),
    ensures
        r@ == normalized_range(range@),
{
    let chars = chars_of(range);
    let pieces = split_chars(chars.as_slice(), ',');
    let ghost views = pieces@.map_values(|p: Vec<char>| p@);
    let mut out: Vec<Vec<char>> = Vec::new();
    let n = pieces.len();
    let mut i: usize = 0;
    while i < n
        invariant
            i <= n,
            n == pieces@.len(),
            views == pieces@.map_values(|p: Vec<char>| p@),
            views == split_on(range@, ','),
            range_cuts_ok(range@),
            out@.map_values(|p: Vec<char>| p@) == normalized_tokens(views.take(i as int)),
        decreases n - i,
    {
        let t = trim_chars(pieces[i].as_slice());
        assert(views.take(i + 1).drop_last() == views.take(i as int));
        assert(views.take(i + 1).last() == views[i as int]);
        if t.len() > 0 {
            assert(token_cuts_ok(t@));
            let norm = normalize_token_chars(t.as_slice());
            let ghost before = out@.map_values(|p: Vec<char>| p@);
            out.push(norm);
            assert(out@.map_values(|p: Vec<char>| p@) == before.push(out@[out@.len() - 1]@));
        }
        i = i + 1;
    }
    assert(views.take(n as int) == views);
    let joined = join_chars(&out, ',');
    string_of(joined.as_slice())
}

fn class_cuttable(class: &[char]) -> (ok: bool)
    ensures
        ok == class_cut_ok(class@),
{
    let compact = without_whitespace(class);
    let text = string_of(compact.as_slice());
    let bytes = text.as_str().as_bytes();
    bytes.len() <= 2 || !(0x80 <= bytes[2] && bytes[2] <= 0xbf)
}

fn token_cuttable(token: &[char]) -> (ok: bool)
    ensures
        ok == token_cuts_ok(token@),
{
    let compact = without_whitespace(token);
    proof {
        lemma_first_index_of(compact@, '-');
    }
    let n = compact.len();
    match find_char(compact.as_slice(), '-') {
        Some(i) => {
            let left = sub_chars(compact.as_slice(), 0, i);
            let right = sub_chars(compact.as_slice(), i + 1, n);
            assert(left@ == compact@.take(i as int));
            assert(right@ == compact@.skip(i + 1));
            class_cuttable(left.as_slice()) && class_cuttable(right.as_slice())
        },
        None => {
            if n > 0 && compact[n - 1] == '+' {
                let class = sub_chars(compact.as_slice(), 0, n - 1);
                assert(class@ == compact@.drop_last());
                class_cuttable(class.as_slice())
            } else {
                class_cuttable(compact.as_slice())
            }
        },
    }
}

/// Whether `normalize_range_for_solver` can normalize this range without cutting a character.
pub fn range_text_normalizable(range: &str) -> (ok: bool)
    ensures
        ok == range_cuts_ok(range@),
{
    let chars = chars_of(range);
    let pieces = split_chars(chars.as_slice(), ',');
    let ghost views = pieces@.map_values(|p: Vec<char>| p@);
    assert(views == split_on(range@, ','));
    let n = pieces.len();
    let mut i: usize = 0;
    while i < n
        invariant
            i <= n,
            n == pieces@.len(),
            views == pieces@.map_values(|p: Vec<char>| p@),
            views == split_on(range@, ','),
            forall|k: int|
                0 <= k < i ==> (trim(#[trigger] views[k]).len() == 0 || token_cuts_ok(trim(views[k]))),
        decreases n - i,
    {
        let t = trim_chars(pieces[i].as_slice());
        assert(t@ == trim(views[i as int]));
        if t.len() > 0 && !token_cuttable(t.as_slice()) {
            return false;
        }
        i = i + 1;
    }
    true
}

} // verus!
