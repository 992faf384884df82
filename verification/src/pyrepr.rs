//! Reading the text that Python's `repr` gives for plain data.

use crate::json::{text_of_json, value_model, Json, JsonV};
use crate::text::{ascii_lower, chars_of, is_space, space};
use vstd::prelude::*;

verus! {

/// The text is not the `repr` of plain data.
#[derive(Debug, Clone, Copy, PartialEq, Eq, Structural)]
pub struct PyReprError;

/// The float that a token denotes as a JSON value, null where it is not finite; `None` for
/// a token that denotes none.
pub uninterp spec fn float_literal(token: Seq<char>) -> Option<JsonV>;

/// The standard parser of floats on a token, with `serde_json::Number::from_f64` on what it
/// gives: the value depends on the token alone.
#[verifier::external_body]
fn float_value(token: &str) -> (r: Option<serde_json::Value>)
    ensures
        match r {
            Some(v) => float_literal(token@) == Some(value_model(v)),
            None => float_literal(token@) is None,
        },
{
    match token.parse() {
        Ok(x) => Some(
            serde_json::Number::from_f64(x).map_or(
                serde_json::Value::Null,
                serde_json::Value::Number,
            ),
        ),
        Err(_) => None,
    }
}

/// ASCII white space.
pub open spec fn is_blank(c: char) -> bool {
    is_space(c) && c < '\u{80}'
}

/// The first position at or after `i` that holds no white space.
pub open spec fn after_space(s: Seq<char>, i: int) -> int
    decreases s.len() - i,
{
    if 0 <= i < s.len() && is_blank(s[i]) {
        after_space(s, i + 1)
    } else {
        i
    }
}

proof fn after_space_bounds(s: Seq<char>, i: int)
    ensures
        i <= after_space(s, i),
        i <= s.len() ==> after_space(s, i) <= s.len(),
    decreases s.len() - i,
{
    if 0 <= i < s.len() && is_blank(s[i]) {
        after_space_bounds(s, i + 1);
    }
}

/// The character that a backslash and a character stand for.
pub open spec fn unescaped(b: char) -> char {
    if b == 'n' {
        '\n'
    } else if b == 't' {
        '\t'
    } else if b == 'r' {
        '\r'
    } else {
        b
    }
}

/// The text of a string whose contents begin at `j`, up to the quote, and the position
/// after it.
pub open spec fn string_at(s: Seq<char>, j: int, quote: char) -> Option<(Seq<char>, int)>
    decreases s.len() - j,
{
    if j < 0 || j >= s.len() {
        None
    } else if s[j] == quote {
        Some((Seq::empty(), j + 1))
    } else if s[j] == '\\' && j + 1 < s.len() {
        match string_at(s, j + 2, quote) {
            Some((t, e)) => Some((seq![unescaped(s[j + 1])] + t, e)),
            None => None,
        }
    } else {
        match string_at(s, j + 1, quote) {
            Some((t, e)) => Some((seq![s[j]] + t, e)),
            None => None,
        }
    }
}

/// A decimal digit.
pub open spec fn is_digit_char(b: char) -> bool {
    '0' <= b <= '9'
}

/// The first position at or after `i` that holds no digit.
pub open spec fn after_digits(s: Seq<char>, i: int) -> int
    decreases s.len() - i,
{
    if 0 <= i < s.len() && is_digit_char(s[i]) {
        after_digits(s, i + 1)
    } else {
        i
    }
}

/// The position after a sign, where one stands at `i`.
pub open spec fn after_sign(s: Seq<char>, i: int) -> int {
    if 0 <= i < s.len() && (s[i] == '-' || s[i] == '+') {
        i + 1
    } else {
        i
    }
}

/// The position after a number's characters: a sign, digits, a point with digits, an
/// exponent.
pub open spec fn number_end(s: Seq<char>, i: int) -> int {
    let a = after_digits(s, after_sign(s, i));
    let b = if 0 <= a < s.len() && s[a] == '.' {
        after_digits(s, a + 1)
    } else {
        a
    };
    if 0 <= b < s.len() && (s[b] == 'e' || s[b] == 'E') {
        after_digits(s, after_sign(s, b + 1))
    } else {
        b
    }
}

/// The characters of a range.
pub open spec fn token_of(s: Seq<char>, i: int, j: int) -> Seq<char> {
    s.subrange(i, j)
}

/// A word stands at `i`, in any case.
pub open spec fn word_at(s: Seq<char>, i: int, w: Seq<char>) -> bool {
    i + w.len() <= s.len() && forall|k: int|
        0 <= k < w.len() ==> ascii_lower(s[i + k]) == #[trigger] w[k]
}

/// `true`.
pub open spec fn true_word() -> Seq<char> {
    seq!['t', 'r', 'u', 'e']
}

/// `false`.
pub open spec fn false_word() -> Seq<char> {
    seq!['f', 'a', 'l', 's', 'e']
}

/// `none`.
pub open spec fn none_word() -> Seq<char> {
    seq!['n', 'o', 'n', 'e']
}

/// The character that closes a list or a tuple.
pub open spec fn closer(open: char) -> char {
    if open == '[' {
        ']'
    } else {
        ')'
    }
}

/// The key of an object that a value makes: a string itself, any other value as JSON.
pub open spec fn key_of(v: JsonV) -> Seq<char> {
    match v {
        JsonV::Str(s) => s,
        other => text_of_json(other),
    }
}

/// The number that stands at `i`, and the position after it. No characters are no number.
pub open spec fn number_at(s: Seq<char>, i: int) -> Option<(JsonV, int)> {
    let e = number_end(s, i);
    if e == i {
        None
    } else {
        match float_literal(token_of(s, i, e)) {
            Some(v) => Some((v, e)),
            None => None,
        }
    }
}

/// The value that stands at `i`, after white space, and the position after it.
pub open spec fn value_at(s: Seq<char>, i: int) -> Option<(JsonV, int)>
    decreases s.len() - i, 2int,
    via value_at_terminates
{
    let p = after_space(s, i);
    if i < 0 || p >= s.len() {
        None
    } else if s[p] == '{' {
        dict_at(s, p)
    } else if s[p] == '[' || s[p] == '(' {
        list_at(s, p)
    } else if s[p] == '\'' || s[p] == '"' {
        match string_at(s, p + 1, s[p]) {
            Some((t, e)) => Some((JsonV::Str(t), e)),
            None => None,
        }
    } else if word_at(s, p, true_word()) {
        Some((JsonV::Bool(true), p + 4))
    } else if word_at(s, p, false_word()) {
        Some((JsonV::Bool(false), p + 5))
    } else if word_at(s, p, none_word()) {
        Some((JsonV::Null, p + 4))
    } else {
        number_at(s, p)
    }
}

#[via_fn]
proof fn value_at_terminates(s: Seq<char>, i: int) {
    after_space_bounds(s, i);
}

/// The list or tuple that begins at `i`.
pub open spec fn list_at(s: Seq<char>, i: int) -> Option<(JsonV, int)>
    decreases s.len() - i, 1int,
    via list_at_terminates
{
    if i < 0 || i >= s.len() {
        None
    } else {
        let close = closer(s[i]);
        let j = after_space(s, i + 1);
        if j < s.len() && s[j] == close {
            Some((JsonV::Arr(Seq::empty()), j + 1))
        } else {
            items_at(s, j, close, Seq::empty())
        }
    }
}

#[via_fn]
proof fn list_at_terminates(s: Seq<char>, i: int) {
    after_space_bounds(s, i + 1);
}

/// The list whose next item stands at `j`, after the items `done`.
pub open spec fn items_at(s: Seq<char>, j: int, close: char, done: Seq<JsonV>) -> Option<(JsonV, int)>
    decreases s.len() - j, 3int,
    via items_at_terminates
{
    if j < 0 || j > s.len() {
        None
    } else {
        match value_at(s, j) {
            Some((v, k)) => if k <= j || k > s.len() {
                None
            } else {
                let all = done.push(v);
                let p = after_space(s, k);
                if p < s.len() && s[p] == ',' {
                    let q = after_space(s, p + 1);
                    if q < s.len() && s[q] == close {
                        Some((JsonV::Arr(all), q + 1))
                    } else {
                        items_at(s, q, close, all)
                    }
                } else if p < s.len() && s[p] == close {
                    Some((JsonV::Arr(all), p + 1))
                } else {
                    None
                }
            },
            None => None,
        }
    }
}

#[via_fn]
proof fn items_at_terminates(s: Seq<char>, j: int, close: char, done: Seq<JsonV>) {
    assert forall|k: int| k <= #[trigger] after_space(s, k) && (k <= s.len() ==> after_space(s, k)
        <= s.len()) by {
        after_space_bounds(s, k);
    }
}

/// The dictionary that begins at `i`.
pub open spec fn dict_at(s: Seq<char>, i: int) -> Option<(JsonV, int)>
    decreases s.len() - i, 1int,
    via dict_at_terminates
{
    if i < 0 || i >= s.len() {
        None
    } else {
        let j = after_space(s, i + 1);
        if j >= s.len() {
            None
        } else if s[j] == '}' {
            Some((JsonV::empty(), j + 1))
        } else {
            members_at(s, j, Map::empty())
        }
    }
}

#[via_fn]
proof fn dict_at_terminates(s: Seq<char>, i: int) {
    after_space_bounds(s, i + 1);
}

/// The dictionary whose next key stands at `j`, after the members `done`.
pub open spec fn members_at(s: Seq<char>, j: int, done: Map<Seq<char>, JsonV>) -> Option<
    (JsonV, int),
>
    decreases s.len() - j, 3int,
    via members_at_terminates
{
    if j < 0 || j > s.len() {
        None
    } else {
        match value_at(s, j) {
            Some((k, a)) => if a <= j || a > s.len() {
                None
            } else {
                let c = after_space(s, a);
                if c >= s.len() || s[c] != ':' {
                    None
                } else {
                    match value_at(s, c + 1) {
                        Some((v, b)) => if b <= c || b > s.len() {
                            None
                        } else {
                            let all = done.insert(key_of(k), v);
                            let p = after_space(s, b);
                            if p < s.len() && s[p] == ',' {
                                let q = after_space(s, p + 1);
                                if q >= s.len() {
                                    None
                                } else if s[q] == '}' {
                                    Some((JsonV::Obj(all), q + 1))
                                } else {
                                    members_at(s, q, all)
                                }
                            } else if p < s.len() && s[p] == '}' {
                                Some((JsonV::Obj(all), p + 1))
                            } else {
                                None
                            }
                        },
                        None => None,
                    }
                }
            },
            None => None,
        }
    }
}

#[via_fn]
proof fn members_at_terminates(s: Seq<char>, j: int, done: Map<Seq<char>, JsonV>) {
    assert forall|k: int| k <= #[trigger] after_space(s, k) && (k <= s.len() ==> after_space(s, k)
        <= s.len()) by {
        after_space_bounds(s, k);
    }
}

/// What a whole text says: one value with nothing but white space after it.
pub open spec fn text_says(s: Seq<char>) -> Option<JsonV> {
    match value_at(s, 0) {
        Some((v, e)) => if after_space(s, e) == s.len() {
            Some(v)
        } else {
            None
        },
        None => None,
    }
}

/// A text stands in another from `a` on, with nothing but white space after it.
spec fn stands_in(s: Seq<char>, t: Seq<char>, a: int) -> bool {
    &&& 0 <= a
    &&& a + s.len() <= t.len()
    &&& forall|k: int| a <= k < a + s.len() ==> #[trigger] t[k] == s[k - a]
    &&& forall|k: int| a + s.len() <= k < t.len() ==> is_blank(#[trigger] t[k])
}

/// What stands at a position, with the position after it moved.
spec fn moved<T>(said: Option<(T, int)>, a: int) -> Option<(T, int)> {
    match said {
        Some((v, e)) => Some((v, e + a)),
        None => None,
    }
}

proof fn blank_tail(t: Seq<char>, x: int)
    requires
        0 <= x <= t.len(),
        forall|k: int| x <= k < t.len() ==> is_blank(#[trigger] t[k]),
    ensures
        after_space(t, x) == t.len(),
    decreases t.len() - x,
{
    if x < t.len() {
        blank_tail(t, x + 1);
    }
}

proof fn spaces_move(s: Seq<char>, t: Seq<char>, a: int, i: int)
    requires
        stands_in(s, t, a),
        0 <= i <= s.len(),
    ensures
        i <= after_space(s, i) <= s.len(),
        after_space(t, a + i) == if after_space(s, i) < s.len() {
            a + after_space(s, i)
        } else {
            t.len() as int
        },
    decreases s.len() - i,
{
    if i < s.len() {
        assert(t[a + i] == s[i]);
        if is_blank(s[i]) {
            spaces_move(s, t, a, i + 1);
        }
    } else {
        blank_tail(t, a + i);
    }
}

proof fn no_string_in_blanks(t: Seq<char>, x: int, quote: char)
    requires
        0 <= x,
        forall|k: int| x <= k < t.len() ==> is_blank(#[trigger] t[k]),
        !is_blank(quote),
    ensures
        string_at(t, x, quote) is None,
    decreases t.len() - x,
{
    if x < t.len() {
        no_string_in_blanks(t, x + 1, quote);
    }
}

proof fn strings_move(s: Seq<char>, t: Seq<char>, a: int, j: int, quote: char)
    requires
        stands_in(s, t, a),
        0 <= j <= s.len(),
        !is_blank(quote),
    ensures
        string_at(t, a + j, quote) == moved(string_at(s, j, quote), a),
        string_at(s, j, quote) matches Some((_, e)) ==> 0 <= e <= s.len(),
    decreases s.len() - j,
{
    if j >= s.len() {
        no_string_in_blanks(t, a + j, quote);
    } else {
        assert(t[a + j] == s[j]);
        if s[j] == quote {
        } else if s[j] == '\\' && j + 1 < s.len() {
            assert(t[a + j + 1] == s[j + 1]);
            strings_move(s, t, a, j + 2, quote);
            assert(a + (j + 2) == a + j + 2);
        } else {
            strings_move(s, t, a, j + 1, quote);
            assert(a + (j + 1) == a + j + 1);
            if s[j] == '\\' {
                no_string_in_blanks(t, a + j + 2, quote);
                no_string_in_blanks(t, a + j + 1, quote);
            }
        }
    }
}

proof fn digits_move(s: Seq<char>, t: Seq<char>, a: int, i: int)
    requires
        stands_in(s, t, a),
        0 <= i <= s.len(),
    ensures
        after_digits(t, a + i) == a + after_digits(s, i),
        i <= after_digits(s, i) <= s.len(),
    decreases s.len() - i,
{
    if i < s.len() {
        assert(t[a + i] == s[i]);
        if is_digit_char(s[i]) {
            digits_move(s, t, a, i + 1);
        }
    } else if a + i < t.len() {
        assert(is_blank(t[a + i]));
    }
}

proof fn numbers_move(s: Seq<char>, t: Seq<char>, a: int, i: int)
    requires
        stands_in(s, t, a),
        0 <= i <= s.len(),
    ensures
        number_end(t, a + i) == a + number_end(s, i),
        i <= number_end(s, i) <= s.len(),
        token_of(t, a + i, number_end(t, a + i)) == token_of(s, i, number_end(s, i)),
        number_at(t, a + i) == moved(number_at(s, i), a),
{
    assert forall|k: int| 0 <= k <= s.len() implies #[trigger] after_sign(t, a + k) == a
        + after_sign(s, k) && k <= after_sign(s, k) <= s.len() by {
        if k < s.len() {
            assert(t[a + k] == s[k]);
        } else if a + k < t.len() {
            assert(is_blank(t[a + k]));
        }
    }
    assert(after_sign(t, a + i) == a + after_sign(s, i));
    digits_move(s, t, a, after_sign(s, i));
    let x = after_digits(s, after_sign(s, i));
    if x < s.len() {
        assert(t[a + x] == s[x]);
        if s[x] == '.' {
            digits_move(s, t, a, x + 1);
            assert(a + (x + 1) == a + x + 1);
        }
    } else if a + x < t.len() {
        assert(is_blank(t[a + x]));
    }
    let y = if x < s.len() && s[x] == '.' {
        after_digits(s, x + 1)
    } else {
        x
    };
    if y < s.len() {
        assert(t[a + y] == s[y]);
        if s[y] == 'e' || s[y] == 'E' {
            assert(after_sign(t, a + (y + 1)) == a + after_sign(s, y + 1));
            digits_move(s, t, a, after_sign(s, y + 1));
        }
    } else if a + y < t.len() {
        assert(is_blank(t[a + y]));
    }
    let e = number_end(s, i);
    assert(token_of(t, a + i, a + e) =~= token_of(s, i, e));
}

proof fn words_move(s: Seq<char>, t: Seq<char>, a: int, p: int, w: Seq<char>)
    requires
        stands_in(s, t, a),
        0 <= p <= s.len(),
        forall|k: int| 0 <= k < w.len() ==> 'a' <= #[trigger] w[k] <= 'z',
    ensures
        word_at(t, a + p, w) == word_at(s, p, w),
{
    if p + w.len() <= s.len() {
        assert forall|k: int| 0 <= k < w.len() implies t[a + p + k] == #[trigger] s[p + k] by {
            assert(t[a + (p + k)] == s[p + k]);
        }
        if word_at(s, p, w) {
            assert forall|k: int| 0 <= k < w.len() implies ascii_lower(t[a + p + k])
                == #[trigger] w[k] by {
                assert(t[a + p + k] == s[p + k]);
            }
        }
        if word_at(t, a + p, w) {
            assert forall|k: int| 0 <= k < w.len() implies ascii_lower(s[p + k])
                == #[trigger] w[k] by {
                assert(t[a + p + k] == s[p + k]);
            }
        }
    } else if a + p + w.len() <= t.len() {
        let k = s.len() - p;
        assert(is_blank(t[a + p + k]));
        assert(ascii_lower(t[a + p + k]) != w[k]);
    }
}

proof fn values_move(s: Seq<char>, t: Seq<char>, a: int, i: int)
    requires
        stands_in(s, t, a),
        0 <= i <= s.len(),
    ensures
        value_at(t, a + i) == moved(value_at(s, i), a),
        value_at(s, i) matches Some((_, e)) ==> 0 <= e <= s.len(),
    decreases s.len() - i, 2int,
{
    spaces_move(s, t, a, i);
    let p = after_space(s, i);
    if p < s.len() {
        assert(t[a + p] == s[p]);
        if s[p] == '{' {
            dicts_move(s, t, a, p);
        } else if s[p] == '[' || s[p] == '(' {
            lists_move(s, t, a, p);
        } else if s[p] == '\'' || s[p] == '"' {
            strings_move(s, t, a, p + 1, s[p]);
            assert(a + (p + 1) == a + p + 1);
        } else {
            words_move(s, t, a, p, true_word());
            words_move(s, t, a, p, false_word());
            words_move(s, t, a, p, none_word());
            numbers_move(s, t, a, p);
        }
    }
}

proof fn no_items_at_the_end(t: Seq<char>, close: char, done: Seq<JsonV>)
    ensures
        items_at(t, t.len() as int, close, done) is None,
{
    assert(after_space(t, t.len() as int) == t.len());
    assert(value_at(t, t.len() as int) is None);
}

proof fn lists_move(s: Seq<char>, t: Seq<char>, a: int, i: int)
    requires
        stands_in(s, t, a),
        0 <= i < s.len(),
    ensures
        list_at(t, a + i) == moved(list_at(s, i), a),
        list_at(s, i) matches Some((_, e)) ==> 0 <= e <= s.len(),
    decreases s.len() - i, 1int,
{
    assert(t[a + i] == s[i]);
    spaces_move(s, t, a, i + 1);
    assert(a + (i + 1) == a + i + 1);
    let j = after_space(s, i + 1);
    let close = closer(s[i]);
    if j < s.len() {
        assert(t[a + j] == s[j]);
        items_move(s, t, a, j, close, Seq::empty());
    } else {
        no_items_at_the_end(s, close, Seq::empty());
        no_items_at_the_end(t, close, Seq::empty());
    }
}

proof fn items_move(s: Seq<char>, t: Seq<char>, a: int, j: int, close: char, done: Seq<JsonV>)
    requires
        stands_in(s, t, a),
        0 <= j <= s.len(),
    ensures
        items_at(t, a + j, close, done) == moved(items_at(s, j, close, done), a),
        items_at(s, j, close, done) matches Some((_, e)) ==> 0 <= e <= s.len(),
    decreases s.len() - j, 3int,
{
    values_move(s, t, a, j);
    match value_at(s, j) {
        Some((v, k)) => if k > j {
            let all = done.push(v);
            spaces_move(s, t, a, k);
            let p = after_space(s, k);
            if p < s.len() {
                assert(t[a + p] == s[p]);
                if s[p] == ',' {
                    spaces_move(s, t, a, p + 1);
                    assert(a + (p + 1) == a + p + 1);
                    let q = after_space(s, p + 1);
                    if q < s.len() {
                        assert(t[a + q] == s[q]);
                        items_move(s, t, a, q, close, all);
                    } else {
                        no_items_at_the_end(s, close, all);
                        no_items_at_the_end(t, close, all);
                    }
                }
            }
        },
        None => {},
    }
}

proof fn dicts_move(s: Seq<char>, t: Seq<char>, a: int, i: int)
    requires
        stands_in(s, t, a),
        0 <= i < s.len(),
    ensures
        dict_at(t, a + i) == moved(dict_at(s, i), a),
        dict_at(s, i) matches Some((_, e)) ==> 0 <= e <= s.len(),
    decreases s.len() - i, 1int,
{
    assert(t[a + i] == s[i]);
    spaces_move(s, t, a, i + 1);
    assert(a + (i + 1) == a + i + 1);
    let j = after_space(s, i + 1);
    if j < s.len() {
        assert(t[a + j] == s[j]);
        members_move(s, t, a, j, Map::empty());
    }
}

proof fn members_move(
    s: Seq<char>,
    t: Seq<char>,
    a: int,
    j: int,
    done: Map<Seq<char>, JsonV>,
)
    requires
        stands_in(s, t, a),
        0 <= j <= s.len(),
    ensures
        members_at(t, a + j, done) == moved(members_at(s, j, done), a),
        members_at(s, j, done) matches Some((_, e)) ==> 0 <= e <= s.len(),
    decreases s.len() - j, 3int,
{
    values_move(s, t, a, j);
    match value_at(s, j) {
        Some((k, x)) => if x > j {
            spaces_move(s, t, a, x);
            let c = after_space(s, x);
            if c < s.len() {
                assert(t[a + c] == s[c]);
                if s[c] == ':' {
                    values_move(s, t, a, c + 1);
                    assert(a + (c + 1) == a + c + 1);
                    match value_at(s, c + 1) {
                        Some((v, b)) => if b > c {
                            let all = done.insert(key_of(k), v);
                            spaces_move(s, t, a, b);
                            let p = after_space(s, b);
                            if p < s.len() {
                                assert(t[a + p] == s[p]);
                                if s[p] == ',' {
                                    spaces_move(s, t, a, p + 1);
                                    assert(a + (p + 1) == a + p + 1);
                                    let q = after_space(s, p + 1);
                                    if q < s.len() {
                                        assert(t[a + q] == s[q]);
                                        members_move(s, t, a, q, all);
                                    }
                                }
                            }
                        },
                        None => {},
                    }
                }
            }
        },
        None => {},
    }
}

proof fn spaces_run_on(t: Seq<char>, i: int, a: int)
    requires
        0 <= i <= a <= t.len(),
        forall|k: int| i <= k < a ==> is_blank(#[trigger] t[k]),
    ensures
        after_space(t, i) == after_space(t, a),
    decreases a - i,
{
    if i < a {
        spaces_run_on(t, i + 1, a);
    }
}

/// White space around a text makes no difference to what it says.
pub proof fn white_space_around_says_nothing(before: Seq<char>, text: Seq<char>, after: Seq<char>)
    requires
        forall|k: int| 0 <= k < before.len() ==> is_blank(#[trigger] before[k]),
        forall|k: int| 0 <= k < after.len() ==> is_blank(#[trigger] after[k]),
    ensures
        text_says(before + text + after) == text_says(text),
{
    let t = before + text + after;
    let a = before.len() as int;
    assert forall|k: int| a + text.len() <= k < t.len() implies is_blank(#[trigger] t[k]) by {
        assert(t[k] == after[k - a - text.len()]);
    }
    assert forall|k: int| 0 <= k < a implies is_blank(#[trigger] t[k]) by {
        assert(t[k] == before[k]);
    }
    assert(stands_in(text, t, a));
    spaces_run_on(t, 0, a);
    assert(value_at(t, 0) == value_at(t, a));
    values_move(text, t, a, 0);
    match value_at(text, 0) {
        Some((_, e)) => {
            spaces_move(text, t, a, e);
        },
        None => {},
    }
}

/// The exec result agrees with what stands at a position.
spec fn reads(r: Result<(Json, usize), PyReprError>, said: Option<(JsonV, int)>, i: int, n: int) -> bool {
    match r {
        Ok((v, e)) => said == Some((v@, e as int)) && i < e <= n,
        Err(_) => said is None,
    }
}

fn blank(c: char) -> (r: bool)
    ensures
        r == is_blank(c),
{
    space(c) && c < '\u{80}'
}

fn lower_letter(c: char) -> (r: char)
    ensures
        r == ascii_lower(c),
{
    if 'A' <= c && c <= 'Z' {
        ((c as u8) + 32) as char
    } else {
        c
    }
}

fn skip_ws(s: &Vec<char>, from: usize) -> (r: usize)
    requires
        from <= s@.len(),
    ensures
        r == after_space(s@, from as int),
        from <= r <= s@.len(),
{
    let mut i: usize = from;
    while i < s.len() && blank(s[i])
        invariant
            from <= i <= s@.len(),
            after_space(s@, from as int) == after_space(s@, i as int),
        decreases s@.len() - i,
    {
        i += 1;
    }
    i
}

fn skip_digits(s: &Vec<char>, from: usize) -> (r: usize)
    requires
        from <= s@.len(),
    ensures
        r == after_digits(s@, from as int),
        from <= r <= s@.len(),
{
    let mut i: usize = from;
    while i < s.len() && '0' <= s[i] && s[i] <= '9'
        invariant
            from <= i <= s@.len(),
            after_digits(s@, from as int) == after_digits(s@, i as int),
        decreases s@.len() - i,
    {
        i += 1;
    }
    i
}

fn skip_sign(s: &Vec<char>, from: usize) -> (r: usize)
    requires
        from <= s@.len(),
    ensures
        r == after_sign(s@, from as int),
        from <= r <= s@.len(),
{
    if from < s.len() && (s[from] == '-' || s[from] == '+') {
        from + 1
    } else {
        from
    }
}

fn parse_string(s: &Vec<char>, i: usize) -> (r: Result<(Json, usize), PyReprError>)
    requires
        i < s@.len(),
    ensures
        reads(
            r,
            match string_at(s@, i + 1, s@[i as int]) {
                Some((t, e)) => Some((JsonV::Str(t), e)),
                None => None,
            },
            i as int,
            s@.len() as int,
        ),
{
    let n: usize = s.len();
    let quote: char = s[i];
    let mut j: usize = i + 1;
    let mut out = String::new();
    let ghost whole = string_at(s@, i + 1, quote);
    proof {
        match string_at(s@, j as int, quote) {
            Some((t, e)) => {
                assert(out@ + t =~= t);
            },
            None => {},
        }
    }
    while j < s.len() && s[j] != quote
        invariant
            i < j <= s@.len(),
            n == s@.len(),
            quote == s@[i as int],
            whole == string_at(s@, i + 1, quote),
            whole == (match string_at(s@, j as int, quote) {
                Some((t, e)) => Some((out@ + t, e)),
                None => None,
            }),
        decreases s@.len() - j,
    {
        let ghost before = out@;
        if s[j] == '\\' && j < n - 1 {
            let b: char = s[j + 1];
            let c = if b == 'n' {
                '\n'
            } else if b == 't' {
                '\t'
            } else if b == 'r' {
                '\r'
            } else {
                b
            };
            out.push(c);
            proof {
                match string_at(s@, j + 2, quote) {
                    Some((t, e)) => {
                        assert(before + (seq![c] + t) =~= out@ + t);
                    },
                    None => {},
                }
            }
            j += 2;
        } else {
            let c = s[j];
            out.push(c);
            proof {
                match string_at(s@, j + 1, quote) {
                    Some((t, e)) => {
                        assert(before + (seq![c] + t) =~= out@ + t);
                    },
                    None => {},
                }
            }
            j += 1;
        }
    }
    if j >= s.len() {
        return Err(PyReprError);
    }
    proof {
        assert(out@ + Seq::<char>::empty() =~= out@);
    }
    Ok((Json::Str(out), j + 1))
}

fn parse_number(s: &Vec<char>, i: usize) -> (r: Result<(Json, usize), PyReprError>)
    requires
        i < s@.len(),
    ensures
        reads(r, number_at(s@, i as int), i as int, s@.len() as int),
{
    let mut j: usize = skip_digits(s, skip_sign(s, i));
    if j < s.len() && s[j] == '.' {
        j = skip_digits(s, j + 1);
    }
    if j < s.len() && (s[j] == 'e' || s[j] == 'E') {
        j = skip_digits(s, skip_sign(s, j + 1));
    }
    proof {
        assert(j == number_end(s@, i as int));
    }
    if j == i {
        return Err(PyReprError);
    }
    let mut token = String::new();
    let mut k: usize = i;
    while k < j
        invariant
            i <= k <= j <= s@.len(),
            token@ == token_of(s@, i as int, k as int),
        decreases j - k,
    {
        token.push(s[k]);
        k += 1;
        proof {
            assert(token_of(s@, i as int, k as int) =~= token_of(s@, i as int, k - 1).push(
                s@[k - 1],
            ));
        }
    }
    match float_value(token.as_str()) {
        Some(v) => Ok((Json::from_value(v), j)),
        None => Err(PyReprError),
    }
}

fn is_word(s: &Vec<char>, i: usize, w: &Vec<char>) -> (r: bool)
    requires
        i <= s@.len(),
    ensures
        r == word_at(s@, i as int, w@),
{
    if w.len() > s.len() - i {
        return false;
    }
    let mut k: usize = 0;
    while k < w.len()
        invariant
            k <= w@.len(),
            i + w@.len() <= s@.len() <= usize::MAX,
            forall|m: int| 0 <= m < k ==> ascii_lower(s@[i + m]) == #[trigger] w@[m],
        decreases w@.len() - k,
    {
        let c: char = lower_letter(s[i + k]);
        if c != w[k] {
            proof {
                assert(ascii_lower(s@[i + k]) != w@[k as int]);
            }
            return false;
        }
        k += 1;
    }
    true
}

fn parse_value(s: &Vec<char>, from: usize) -> (r: Result<(Json, usize), PyReprError>)
    requires
        from <= s@.len(),
    ensures
        reads(r, value_at(s@, from as int), from as int, s@.len() as int),
    decreases s@.len() - from, 2int,
{
    let i: usize = skip_ws(s, from);
    if i >= s.len() {
        return Err(PyReprError);
    }
    let c: char = s[i];
    if c == '{' {
        parse_dict(s, i)
    } else if c == '[' || c == '(' {
        parse_list(s, i)
    } else if c == '\'' || c == '"' {
        parse_string(s, i)
    } else {
        let t: Vec<char> = vec!['t', 'r', 'u', 'e'];
        let f: Vec<char> = vec!['f', 'a', 'l', 's', 'e'];
        let n: Vec<char> = vec!['n', 'o', 'n', 'e'];
        proof {
            assert(t@ =~= true_word());
            assert(f@ =~= false_word());
            assert(n@ =~= none_word());
        }
        if is_word(s, i, &t) {
            Ok((Json::Bool(true), i + 4))
        } else if is_word(s, i, &f) {
            Ok((Json::Bool(false), i + 5))
        } else if is_word(s, i, &n) {
            Ok((Json::Null, i + 4))
        } else {
            parse_number(s, i)
        }
    }
}

fn parse_list(s: &Vec<char>, i: usize) -> (r: Result<(Json, usize), PyReprError>)
    requires
        i < s@.len(),
    ensures
        reads(r, list_at(s@, i as int), i as int, s@.len() as int),
    decreases s@.len() - i, 1int,
{
    let close: char = if s[i] == '[' {
        ']'
    } else {
        ')'
    };
    let n: usize = s.len();
    let mut j: usize = skip_ws(s, i + 1);
    let mut out: Vec<Json> = Vec::new();
    if j < n && s[j] == close {
        let v = Json::array(out);
        proof {
            assert(v@ == JsonV::Arr(crate::json::jsons(out@)));
            assert(crate::json::jsons(out@) =~= Seq::empty());
        }
        return Ok((v, j + 1));
    }
    proof {
        assert(crate::json::jsons(out@) =~= Seq::empty());
    }
    loop
        invariant
            i < j <= s@.len(),
            close == closer(s@[i as int]),
            list_at(s@, i as int) == items_at(s@, j as int, close, crate::json::jsons(out@)),
        decreases s@.len() - j,
    {
        let (v, k) = match parse_value(s, j) {
            Ok((v, k)) => (v, k),
            Err(e) => return Err(e),
        };
        let ghost before = crate::json::jsons(out@);
        let ghost said = v@;
        out.push(v);
        proof {
            assert(crate::json::jsons(out@) =~= before.push(said));
        }
        j = skip_ws(s, k);
        if j < s.len() && s[j] == ',' {
            j = skip_ws(s, j + 1);
            if j < s.len() && s[j] == close {
                return Ok((Json::array(out), j + 1));
            }
        } else if j < s.len() && s[j] == close {
            return Ok((Json::array(out), j + 1));
        } else {
            return Err(PyReprError);
        }
    }
}

fn parse_dict(s: &Vec<char>, i: usize) -> (r: Result<(Json, usize), PyReprError>)
    requires
        i < s@.len(),
    ensures
        reads(r, dict_at(s@, i as int), i as int, s@.len() as int),
    decreases s@.len() - i, 1int,
{
    let n: usize = s.len();
    let mut j: usize = skip_ws(s, i + 1);
    if j >= n {
        return Err(PyReprError);
    }
    let mut out = Json::object();
    if s[j] == '}' {
        return Ok((out, j + 1));
    }
    loop
        invariant
            i < j <= s@.len(),
            out@ is Obj,
            dict_at(s@, i as int) == members_at(s@, j as int, out@->Obj_0),
        decreases s@.len() - j,
    {
        let (k, a) = match parse_value(s, j) {
            Ok((k, a)) => (k, a),
            Err(e) => return Err(e),
        };
        let c: usize = skip_ws(s, a);
        if c >= s.len() || s[c] != ':' {
            return Err(PyReprError);
        }
        let (v, b) = match parse_value(s, c + 1) {
            Ok((v, b)) => (v, b),
            Err(e) => return Err(e),
        };
        let key = match k.as_str() {
            Some(t) => crate::text::owned(t),
            None => k.print(),
        };
        out = out.with(key.as_str(), v);
        j = skip_ws(s, b);
        if j < s.len() && s[j] == ',' {
            j = skip_ws(s, j + 1);
            if j >= s.len() {
                return Err(PyReprError);
            }
            if s[j] == '}' {
                return Ok((out, j + 1));
            }
        } else if j < s.len() && s[j] == '}' {
            return Ok((out, j + 1));
        } else {
            return Err(PyReprError);
        }
    }
}

/// The character that closes what a character opens.
pub open spec fn closing(open: char) -> char {
    if open == '{' {
        '}'
    } else if open == '\'' || open == '"' {
        open
    } else {
        closer(open)
    }
}

/// A value that is missing is an error: nothing is read where the text ends, nor where a
/// comma, a colon or a closing bracket stands in its place.
pub proof fn missing_values_say_nothing(s: Seq<char>, i: int)
    requires
        0 <= i,
        ({
            let p = after_space(s, i);
            p >= s.len() || s[p] == ',' || s[p] == ':' || s[p] == ']' || s[p] == ')' || s[p] == '}'
        }),
    ensures
        value_at(s, i) is None,
{
    after_space_bounds(s, i);
    let p = after_space(s, i);
    if p < s.len() {
        assert(true_word()[0] == 't' && false_word()[0] == 'f' && none_word()[0] == 'n');
        assert(ascii_lower(s[p + 0]) == s[p]);
        assert(number_end(s, p) == p);
    }
}

proof fn open_strings_say_nothing(s: Seq<char>, j: int, quote: char)
    requires
        0 <= j,
        forall|k: int| j <= k < s.len() ==> #[trigger] s[k] != quote,
    ensures
        string_at(s, j, quote) is None,
    decreases s.len() + 1 - j,
{
    if j < s.len() {
        open_strings_say_nothing(s, j + 1, quote);
        if j + 1 < s.len() {
            open_strings_say_nothing(s, j + 2, quote);
        }
    }
}

proof fn open_items_say_nothing(s: Seq<char>, j: int, close: char, done: Seq<JsonV>)
    requires
        0 <= j,
        forall|k: int| j <= k < s.len() ==> #[trigger] s[k] != close,
    ensures
        items_at(s, j, close, done) is None,
    decreases s.len() - j,
{
    match value_at(s, j) {
        Some((v, k)) => if j < k <= s.len() {
            let p = after_space(s, k);
            after_space_bounds(s, k);
            after_space_bounds(s, p + 1);
            if p < s.len() {
                open_items_say_nothing(s, after_space(s, p + 1), close, done.push(v));
            }
        },
        None => {},
    }
}

proof fn open_members_say_nothing(s: Seq<char>, j: int, done: Map<Seq<char>, JsonV>)
    requires
        0 <= j,
        forall|k: int| j <= k < s.len() ==> #[trigger] s[k] != '}',
    ensures
        members_at(s, j, done) is None,
    decreases s.len() - j,
{
    match value_at(s, j) {
        Some((k, a)) => if j < a <= s.len() {
            let c = after_space(s, a);
            after_space_bounds(s, a);
            match value_at(s, c + 1) {
                Some((v, b)) => if c < b <= s.len() {
                    let p = after_space(s, b);
                    after_space_bounds(s, b);
                    after_space_bounds(s, p + 1);
                    if p < s.len() {
                        open_members_say_nothing(
                            s,
                            after_space(s, p + 1),
                            done.insert(key_of(k), v),
                        );
                    }
                },
                None => {},
            }
        },
        None => {},
    }
}

/// A string, a list, a tuple or a dictionary that is never closed is an error.
pub proof fn open_values_say_nothing(s: Seq<char>, i: int)
    requires
        0 <= i,
        after_space(s, i) < s.len(),
        ({
            let c = s[after_space(s, i)];
            c == '{' || c == '[' || c == '(' || c == '\'' || c == '"'
        }),
        forall|k: int|
            after_space(s, i) < k < s.len() ==> #[trigger] s[k] != closing(s[after_space(s, i)]),
    ensures
        value_at(s, i) is None,
{
    let p = after_space(s, i);
    after_space_bounds(s, i);
    after_space_bounds(s, p + 1);
    let j = after_space(s, p + 1);
    if s[p] == '{' {
        open_members_say_nothing(s, j, Map::empty());
    } else if s[p] == '[' || s[p] == '(' {
        open_items_say_nothing(s, j, closing(s[p]), Seq::empty());
    } else {
        open_strings_say_nothing(s, p + 1, s[p]);
    }
}

/// A value with anything but white space after it is an error: a text that says something is
/// one value from end to end.
pub proof fn values_with_more_say_nothing(s: Seq<char>, k: int)
    requires
        value_at(s, 0) matches Some((_, e)) ==> e <= k,
        k < s.len(),
        !is_blank(s[k]),
    ensures
        text_says(s) is None,
{
    match value_at(s, 0) {
        Some((_, e)) => {
            values_move(s, s, 0, 0);
            after_space_stops(s, e, k);
        },
        None => {},
    }
}

proof fn after_space_stops(s: Seq<char>, i: int, k: int)
    requires
        0 <= i <= k < s.len(),
        !is_blank(s[k]),
    ensures
        after_space(s, i) <= k,
    decreases k - i,
{
    if is_blank(s[i]) {
        after_space_stops(s, i + 1, k);
    }
}

/// Reads a whole text. Anything malformed or left over is an error.
pub fn parse(input: &str) -> (r: Result<Json, PyReprError>)
    ensures
        match r {
            Ok(v) => text_says(input@) == Some(v@),
            Err(_) => text_says(input@) is None,
        },
{
    let chars = chars_of(input);
    match parse_value(&chars, 0) {
        Ok((v, end)) => {
            let rest: usize = skip_ws(&chars, end);
            if rest != chars.len() {
                return Err(PyReprError);
            }
            Ok(v)
        },
        Err(e) => Err(e),
    }
}

/// Reads a whole text; nothing comes of a text that is malformed.
pub fn try_parse(input: &str) -> (r: Option<Json>)
    ensures
        (match r {
            Some(v) => Some(v@),
            None => None,
        }) == text_says(input@),
{
    match parse(input) {
        Ok(v) => Some(v),
        Err(_) => None,
    }
}

/// A string is the text between its quotes.
pub proof fn strings_say_what_they_hold(t: Seq<char>, quote: char, rest: Seq<char>, before: Seq<char>)
    requires
        forall|k: int| 0 <= k < t.len() ==> #[trigger] t[k] != quote && t[k] != '\\',
    ensures
        string_at(before + t + seq![quote] + rest, before.len() as int, quote) == Some(
            (t, (before.len() + t.len() + 1) as int),
        ),
    decreases t.len(),
{
    let s = before + t + seq![quote] + rest;
    let j = before.len() as int;
    if t.len() == 0 {
        assert(s[j] == quote);
        assert(t =~= Seq::empty());
    } else {
        let head = before.push(t[0]);
        let tail = t.skip(1);
        assert(s[j] == t[0]);
        assert(s =~= head + tail + seq![quote] + rest);
        assert(forall|k: int| 0 <= k < tail.len() ==> #[trigger] tail[k] == t[k + 1]);
        strings_say_what_they_hold(tail, quote, rest, head);
        assert(seq![s[j]] + tail =~= t);
    }
}

/// In a string a backslash and a letter stand for the character that they name, and before any
/// other character the backslash stands for nothing.
pub proof fn backslashes_stand_for_characters(s: Seq<char>, j: int, quote: char)
    requires
        0 <= j,
        j + 1 < s.len(),
        s[j] == '\\',
        quote != '\\',
    ensures
        ({
            let b = s[j + 1];
            let c = if b == 'n' {
                '\n'
            } else if b == 't' {
                '\t'
            } else if b == 'r' {
                '\r'
            } else {
                b
            };
            string_at(s, j, quote) == (match string_at(s, j + 2, quote) {
                Some((t, e)) => Some((seq![c] + t, e)),
                None => None,
            })
        }),
{
}

/// The words of Python are read in any case.
pub proof fn words_are_read_in_any_case(s: Seq<char>, i: int)
    requires
        0 <= i,
    ensures
        ({
            let p = after_space(s, i);
            &&& word_at(s, p, seq!['t', 'r', 'u', 'e']) ==> value_at(s, i) == Some(
                (JsonV::Bool(true), p + 4),
            )
            &&& word_at(s, p, seq!['f', 'a', 'l', 's', 'e']) ==> value_at(s, i) == Some(
                (JsonV::Bool(false), p + 5),
            )
            &&& word_at(s, p, seq!['n', 'o', 'n', 'e']) ==> value_at(s, i) == Some(
                (JsonV::Null, p + 4),
            )
        }),
{
    after_space_bounds(s, i);
    let p = after_space(s, i);
    assert(true_word()[0] == 't' && false_word()[0] == 'f' && none_word()[0] == 'n');
    if word_at(s, p, true_word()) {
        assert(ascii_lower(s[p + 0]) == true_word()[0]);
    }
    if word_at(s, p, false_word()) {
        assert(ascii_lower(s[p + 0]) == false_word()[0]);
    }
    if word_at(s, p, none_word()) {
        assert(ascii_lower(s[p + 0]) == none_word()[0]);
    }
}

/// A list or a tuple holds its values in order: it is empty where it closes at once; and a value
/// that is followed by its closing bracket, with a comma before it or none, is its last.
pub proof fn lists_hold_their_values(s: Seq<char>, i: int, j: int, close: char, done: Seq<JsonV>, v: JsonV, k: int)
    ensures
        0 <= i < s.len() && s[i] == '[' && after_space(s, i + 1) < s.len() && s[after_space(
            s,
            i + 1,
        )] == ']' ==> list_at(s, i) == Some((JsonV::Arr(Seq::empty()), after_space(s, i + 1) + 1)),
        0 <= i < s.len() && s[i] == '(' && after_space(s, i + 1) < s.len() && s[after_space(
            s,
            i + 1,
        )] == ')' ==> list_at(s, i) == Some((JsonV::Arr(Seq::empty()), after_space(s, i + 1) + 1)),
        0 <= j < k <= s.len() && value_at(s, j) == Some((v, k)) && after_space(s, k) < s.len() ==> {
            let p = after_space(s, k);
            let q = after_space(s, p + 1);
            &&& s[p] == close && close != ',' ==> items_at(s, j, close, done) == Some(
                (JsonV::Arr(done.push(v)), p + 1),
            )
            &&& s[p] == ',' && q < s.len() && s[q] == close ==> items_at(s, j, close, done) == Some(
                (JsonV::Arr(done.push(v)), q + 1),
            )
            &&& s[p] == ',' && !(q < s.len() && s[q] == close) ==> items_at(s, j, close, done)
                == items_at(s, q, close, done.push(v))
        },
{
    after_space_bounds(s, k);
    after_space_bounds(s, after_space(s, k) + 1);
}

/// A dictionary holds its values under their keys: it is empty where it closes at once; a key
/// that is no text is the text of its value; and of two values under one key the later counts.
pub proof fn dictionaries_hold_their_members(
    s: Seq<char>,
    i: int,
    j: int,
    done: Map<Seq<char>, JsonV>,
    key: JsonV,
    a: int,
    v: JsonV,
    b: int,
)
    ensures
        0 <= i < s.len() && after_space(s, i + 1) < s.len() && s[after_space(s, i + 1)] == '}'
            ==> dict_at(s, i) == Some((JsonV::empty(), after_space(s, i + 1) + 1)),
        0 <= j < a <= s.len() && value_at(s, j) == Some((key, a)) && after_space(s, a) < s.len()
            && s[after_space(s, a)] == ':' && value_at(s, after_space(s, a) + 1) == Some((v, b))
            && after_space(s, a) < b <= s.len() && after_space(s, b) < s.len() ==> {
            let name = match key {
                JsonV::Str(t) => t,
                other => text_of_json(other),
            };
            let all = done.insert(name, v);
            let p = after_space(s, b);
            let q = after_space(s, p + 1);
            &&& s[p] == '}' ==> members_at(s, j, done) == Some((JsonV::Obj(all), p + 1))
            &&& s[p] == ',' && q < s.len() && s[q] == '}' ==> members_at(s, j, done) == Some(
                (JsonV::Obj(all), q + 1),
            )
            &&& s[p] == ',' && q < s.len() && s[q] != '}' ==> members_at(s, j, done) == members_at(
                s,
                q,
                all,
            )
        },
{
    after_space_bounds(s, b);
    after_space_bounds(s, after_space(s, b) + 1);
}

/// A number is its sign, its digits, a point with digits and an exponent, and means what the
/// parser of floats makes of them.
pub proof fn numbers_are_their_characters(s: Seq<char>, i: int)
    requires
        0 <= i,
        after_space(s, i) < s.len(),
        ({
            let c = s[after_space(s, i)];
            '0' <= c <= '9' || c == '-' || c == '+' || c == '.'
        }),
    ensures
        ({
            let p = after_space(s, i);
            let e = number_end(s, p);
            &&& p < e
            &&& value_at(s, i) == (match float_literal(s.subrange(p, e)) {
                Some(v) => Some((v, e)),
                None => None,
            })
        }),
{
    after_space_bounds(s, i);
    let p = after_space(s, i);
    assert(s.take(s.len() as int) =~= s);
    numbers_move(s, s, 0, p);
    assert(true_word()[0] == 't' && false_word()[0] == 'f' && none_word()[0] == 'n');
    assert(ascii_lower(s[p + 0]) == s[p]);
    assert(!word_at(s, p, true_word()) && !word_at(s, p, false_word()) && !word_at(s, p, none_word()));
    let a = after_digits(s, after_sign(s, p));
    digits_move(s, s, 0, after_sign(s, p));
    if '0' <= s[p] <= '9' {
        digits_move(s, s, 0, p + 1);
        assert(after_digits(s, p) == after_digits(s, p + 1));
    }
    let b = if 0 <= a < s.len() && s[a] == '.' {
        digits_move(s, s, 0, a + 1);
        after_digits(s, a + 1)
    } else {
        a
    };
    assert(p < b);
    if b < s.len() && (s[b] == 'e' || s[b] == 'E') {
        digits_move(s, s, 0, after_sign(s, b + 1));
    }
}

/// The parts of a value are found where they begin: a dictionary at a brace, a list at a bracket
/// of either form, a string at a quote of either form.
pub proof fn values_begin_with_their_brackets(s: Seq<char>, i: int)
    requires
        0 <= i,
        after_space(s, i) < s.len(),
    ensures
        ({
            let p = after_space(s, i);
            &&& s[p] == '{' ==> value_at(s, i) == dict_at(s, p)
            &&& s[p] == '[' || s[p] == '(' ==> value_at(s, i) == list_at(s, p)
            &&& s[p] == '\'' || s[p] == '"' ==> value_at(s, i) == (match string_at(s, p + 1, s[p]) {
                Some((t, e)) => Some((JsonV::Str(t), e)),
                None => None,
            })
        }),
{
}

} // verus!
