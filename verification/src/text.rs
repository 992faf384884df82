//! Text over characters: searching, trimming, case folding, decimal numbers.
//!
//! A string is modelled by the sequence of its characters.

use vstd::prelude::*;
use vstd::utf8::{encode_scalar, encode_utf8};

verus! {

/// `String::push` appends the character to the end of the string.
pub assume_specification[ String::push ](s: &mut String, c: char)
    ensures
        final(s)@ == old(s)@.push(c),
;

/// `String::push_str` appends the whole of the slice to the end of the string.
pub assume_specification[ String::push_str ](s: &mut String, t: &str)
    ensures
        final(s)@ == old(s)@ + t@,
;

/// `==` on `str` compares the two strings character by character.
pub assume_specification[ <str as PartialEq>::eq ](s: &str, t: &str) -> (r: bool)
    ensures
        r == (s@ == t@),
;

/// What `str::to_lowercase` makes of a text, character mappings of Unicode included.
pub uninterp spec fn lowercase(s: Seq<char>) -> Seq<char>;

/// `str::to_lowercase`: its result depends on the text alone. On a text of ASCII
/// characters it is the text with every ASCII letter in lower case.
#[verifier::external_body]
pub(crate) fn to_lowercase(s: &str) -> (r: String)
    ensures
        r@ == lowercase(s@),
        s.is_ascii() ==> r@ == ascii_lowercase(s@),
{
    s.to_lowercase()
}

/// A text of printable ASCII characters.
pub open spec fn is_printable(s: Seq<char>) -> bool {
    forall|i: int| 0 <= i < s.len() ==> ' ' <= #[trigger] s[i] <= '~'
}

/// A text with a backslash before each quote and each backslash.
pub open spec fn escaped(s: Seq<char>) -> Seq<char>
    decreases s.len(),
{
    if s.len() == 0 {
        Seq::empty()
    } else if s.last() == '"' || s.last() == '\\' {
        escaped(s.drop_last()) + seq!['\\', s.last()]
    } else {
        escaped(s.drop_last()).push(s.last())
    }
}

/// A text in quotes.
pub open spec fn quoted(s: Seq<char>) -> Seq<char> {
    seq!['"'] + escaped(s) + seq!['"']
}

/// What `char::escape_debug` and the quotes of `{:?}` make of a text.
pub uninterp spec fn debug_text(s: Seq<char>) -> Seq<char>;

/// The `Debug` form of a string: quoted, with the characters that need it escaped.
/// Its result depends on the text alone. Of printable ASCII only quotes and backslashes are
/// escaped, each by a backslash.
#[verifier::external_body]
pub(crate) fn debug_of(s: &str) -> (r: String)
    ensures
        r@ == debug_text(s@),
        is_printable(s@) ==> r@ == quoted(s@),
{
    format!("{:?}", s)
}

/// The last position of a character; -1 where it stands nowhere.
pub open spec fn last_at(s: Seq<char>, c: char) -> int
    decreases s.len(),
{
    if s.len() == 0 {
        -1
    } else if s.last() == c {
        s.len() - 1
    } else {
        last_at(s.drop_last(), c)
    }
}

/// What follows the last slash of a path; all of it where there is none.
pub open spec fn last_name(path: Seq<char>) -> Seq<char> {
    path.skip(last_at(path, '/') + 1)
}

/// A file's name without its last dot and what follows, unless that dot stands first.
pub open spec fn stem_of(name: Seq<char>) -> Seq<char> {
    if last_at(name, '.') > 0 {
        name.take(last_at(name, '.'))
    } else {
        name
    }
}

/// A path whose last name is the same on every machine, whatever its separators are.
pub open spec fn same_everywhere(path: Seq<char>) -> bool {
    let name = last_name(path);
    &&& name.len() > 0
    &&& name != "."@
    &&& name != ".."@
    &&& !name.contains(':')
    &&& !path.contains('\\')
    &&& !"//"@.is_prefix_of(path)
}

/// `Path::file_stem` as text: a part of the path, where it has one. Where every machine
/// parts the path alike, it is the last name without its extension; for other paths nothing
/// more is said, for which part it is depends on the separators of the machine.
#[verifier::external_body]
pub(crate) fn file_stem(path: &str) -> (r: Option<String>)
    ensures
        r matches Some(s) ==> contains_text(path@, s@),
        same_everywhere(path@) ==> crate::json::opt_string(r) == Some(stem_of(last_name(path@))),
{
    std::path::Path::new(path).file_stem().map(|s| s.to_string_lossy().into_owned())
}

/// Whether two strings hold the same characters.
pub fn same(s: &str, t: &str) -> (r: bool)
    ensures
        r == (s@ == t@),
{
    *s == *t
}

/// An owned copy of a string.
pub fn owned(s: &str) -> (r: String)
    ensures
        r@ == s@,
{
    s.to_owned()
}

/// The characters of a string, in order.
pub fn chars_of(s: &str) -> (r: Vec<char>)
    ensures
        r@ == s@,
{
    let mut out: Vec<char> = Vec::new();
    for c in it: s.chars()
        invariant
            out@ == it.seq().take(it.index() as int),
            it.seq() == s@,
    {
        out.push(c);
    }
    out
}

/// The string made of the characters at positions `from..to`.
pub fn string_of(chars: &Vec<char>, from: usize, to: usize) -> (r: String)
    requires
        from <= to <= chars@.len(),
    ensures
        r@ == chars@.subrange(from as int, to as int),
{
    let mut out = String::new();
    let mut i: usize = from;
    while i < to
        invariant
            from <= i <= to <= chars@.len(),
            out@ == chars@.subrange(from as int, i as int),
        decreases to - i,
    {
        out.push(chars[i]);
        i += 1;
    }
    out
}

/// The string made of all the characters.
pub fn string_all(chars: &Vec<char>) -> (r: String)
    ensures
        r@ == chars@,
{
    let r = string_of(chars, 0, chars.len());
    assert(chars@.subrange(0, chars@.len() as int) =~= chars@);
    r
}

/// Two strings, one after the other.
pub fn join2(a: &str, b: &str) -> (r: String)
    ensures
        r@ == a@ + b@,
{
    let mut out = a.to_owned();
    out.push_str(b);
    out
}

/// Three strings, one after the other.
pub fn join3(a: &str, b: &str, c: &str) -> (r: String)
    ensures
        r@ == a@ + b@ + c@,
{
    let mut out = join2(a, b);
    out.push_str(c);
    out
}

/// `p` stands in `s` at position `i`.
pub open spec fn occurs_at(s: Seq<char>, p: Seq<char>, i: int) -> bool {
    0 <= i && i + p.len() <= s.len() && s.subrange(i, i + p.len()) == p
}

/// `p` stands somewhere in `s`.
pub open spec fn contains_text(s: Seq<char>, p: Seq<char>) -> bool {
    exists|i: int| occurs_at(s, p, i)
}

/// The first position at or after `from` at which `p` stands in `s`.
pub open spec fn find_from(s: Seq<char>, p: Seq<char>, from: int) -> Option<int>
    decreases s.len() - from + 1,
{
    if from < 0 || from + p.len() > s.len() {
        None
    } else if occurs_at(s, p, from) {
        Some(from)
    } else {
        find_from(s, p, from + 1)
    }
}

/// `find_from` gives the least position at which the pattern stands, or `None` when
/// there is none.
pub proof fn find_from_is_first(s: Seq<char>, p: Seq<char>, from: int)
    requires
        0 <= from,
    ensures
        match find_from(s, p, from) {
            Some(i) => from <= i && occurs_at(s, p, i) && forall|j: int|
                from <= j < i ==> !occurs_at(s, p, j),
            None => forall|j: int| from <= j ==> !occurs_at(s, p, j),
        },
    decreases s.len() - from + 1,
{
    if from + p.len() <= s.len() && !occurs_at(s, p, from) {
        find_from_is_first(s, p, from + 1);
    }
}

/// Whether `p` stands in `s` at position `i`.
pub fn matches_at(s: &Vec<char>, p: &Vec<char>, i: usize) -> (r: bool)
    ensures
        r == occurs_at(s@, p@, i as int),
{
    if i > s.len() || p.len() > s.len() - i {
        return false;
    }
    let mut k: usize = 0;
    while k < p.len()
        invariant
            k <= p@.len(),
            i + p@.len() <= s@.len() <= usize::MAX,
            s@.subrange(i as int, i + k) == p@.subrange(0, k as int),
        decreases p@.len() - k,
    {
        if s[i + k] != p[k] {
            proof {
                assert(s@.subrange(i as int, i + p@.len())[k as int] == s@[i + k]);
            }
            return false;
        }
        k += 1;
        proof {
            assert(s@.subrange(i as int, i + k) =~= s@.subrange(i as int, i + k - 1).push(
                s@[i + k - 1],
            ));
            assert(p@.subrange(0, k as int) =~= p@.subrange(0, k - 1).push(p@[k - 1]));
        }
    }
    proof {
        assert(p@.subrange(0, k as int) =~= p@);
    }
    true
}

/// The first position at or after `from` at which `p` stands in `s`.
pub fn find_chars(s: &Vec<char>, p: &Vec<char>, from: usize) -> (r: Option<usize>)
    ensures
        match r {
            Some(i) => find_from(s@, p@, from as int) == Some(i as int) && from <= i && i + p@.len()
                <= s@.len(),
            None => find_from(s@, p@, from as int) is None,
        },
{
    let mut i: usize = from;
    loop
        invariant
            from <= i,
            from == i || i <= s@.len(),
            find_from(s@, p@, from as int) == find_from(s@, p@, i as int),
        decreases s@.len() - i,
    {
        if i > s.len() || p.len() > s.len() - i {
            return None;
        }
        if matches_at(s, p, i) {
            return Some(i);
        }
        if i == s.len() {
            proof {
                assert(p@.len() == 0);
                assert(s@.subrange(i as int, i + p@.len()) =~= p@);
            }
            return None;
        }
        i += 1;
    }
}

/// Whether `p` stands somewhere in `s`.
pub fn contains(s: &str, p: &str) -> (r: bool)
    ensures
        r == contains_text(s@, p@),
{
    let sc = chars_of(s);
    let pc = chars_of(p);
    let found = find_chars(&sc, &pc, 0);
    proof {
        find_from_is_first(s@, p@, 0);
    }
    found.is_some()
}

/// Whether `s` begins with `p`.
pub fn starts_with(s: &str, p: &str) -> (r: bool)
    ensures
        r == p@.is_prefix_of(s@),
{
    let sc = chars_of(s);
    let pc = chars_of(p);
    proof {
        if p@.len() <= s@.len() {
            assert(s@.subrange(0, p@.len() as int) =~= s@.take(p@.len() as int));
        }
    }
    matches_at(&sc, &pc, 0)
}

/// What follows the prefix `p` in `s`, where `s` begins with it.
pub fn strip_prefix(s: &str, p: &str) -> (r: Option<String>)
    ensures
        match r {
            Some(rest) => p@.is_prefix_of(s@) && rest@ == s@.skip(p@.len() as int),
            None => !p@.is_prefix_of(s@),
        },
{
    if !starts_with(s, p) {
        return None;
    }
    let sc = chars_of(s);
    let pc = chars_of(p);
    let rest = string_of(&sc, pc.len(), sc.len());
    proof {
        assert(rest@ =~= s@.skip(p@.len() as int));
    }
    Some(rest)
}

/// What precedes the suffix `p` in `s`, where `s` ends with it.
pub fn strip_suffix(s: &str, p: &str) -> (r: Option<String>)
    ensures
        match r {
            Some(rest) => p@.is_suffix_of(s@) && rest@ == s@.take(s@.len() - p@.len()),
            None => !p@.is_suffix_of(s@),
        },
{
    let sc = chars_of(s);
    let pc = chars_of(p);
    if pc.len() > sc.len() {
        return None;
    }
    let at: usize = sc.len() - pc.len();
    proof {
        assert(s@.subrange(at as int, at + p@.len()) =~= s@.subrange(at as int, s@.len() as int));
    }
    if matches_at(&sc, &pc, at) {
        let rest = string_of(&sc, 0, at);
        proof {
            assert(rest@ =~= s@.take(s@.len() - p@.len()));
        }
        Some(rest)
    } else {
        None
    }
}

/// Unicode white space.
pub open spec fn is_space(c: char) -> bool {
    let n = c as u32;
    ||| 9 <= n <= 13
    ||| n == 0x20
    ||| n == 0x85
    ||| n == 0xA0
    ||| n == 0x1680
    ||| 0x2000 <= n <= 0x200A
    ||| n == 0x2028
    ||| n == 0x2029
    ||| n == 0x202F
    ||| n == 0x205F
    ||| n == 0x3000
}

/// Whether a character is Unicode white space.
pub fn space(c: char) -> (r: bool)
    ensures
        r == is_space(c),
{
    let n: u32 = c as u32;
    (9 <= n && n <= 13) || n == 0x20 || n == 0x85 || n == 0xA0 || n == 0x1680 || (0x2000 <= n && n
        <= 0x200A) || n == 0x2028 || n == 0x2029 || n == 0x202F || n == 0x205F || n == 0x3000
}

/// The text without its leading white space.
pub open spec fn trim_start(s: Seq<char>) -> Seq<char>
    decreases s.len(),
{
    if s.len() > 0 && is_space(s[0]) {
        trim_start(s.skip(1))
    } else {
        s
    }
}

/// The text without its trailing white space.
pub open spec fn trim_end(s: Seq<char>) -> Seq<char>
    decreases s.len(),
{
    if s.len() > 0 && is_space(s.last()) {
        trim_end(s.drop_last())
    } else {
        s
    }
}

/// The text without the white space at either end.
pub open spec fn trimmed(s: Seq<char>) -> Seq<char> {
    trim_end(trim_start(s))
}

/// The text without the white space at either end.
pub fn trim(s: &str) -> (r: String)
    ensures
        r@ == trimmed(s@),
{
    let left = trim_left(s);
    let sc = chars_of(left.as_str());
    let mut to: usize = sc.len();
    proof {
        assert(sc@.take(to as int) =~= sc@);
    }
    while 0 < to && space(sc[to - 1])
        invariant
            to <= sc@.len(),
            trimmed(s@) == trim_end(sc@.take(to as int)),
        decreases to,
    {
        proof {
            assert(sc@.take(to as int).drop_last() =~= sc@.take(to - 1));
        }
        to -= 1;
    }
    proof {
        assert(sc@.subrange(0, to as int) =~= sc@.take(to as int));
    }
    string_of(&sc, 0, to)
}

/// The text without its leading white space.
pub fn trim_left(s: &str) -> (r: String)
    ensures
        r@ == trim_start(s@),
{
    let sc = chars_of(s);
    let mut from: usize = 0;
    proof {
        assert(s@.skip(0) =~= s@);
    }
    while from < sc.len() && space(sc[from])
        invariant
            from <= sc@.len(),
            sc@ == s@,
            trim_start(s@) == trim_start(s@.skip(from as int)),
        decreases sc@.len() - from,
    {
        proof {
            assert(s@.skip(from as int).skip(1) =~= s@.skip(from + 1));
        }
        from += 1;
    }
    proof {
        assert(s@.skip(from as int) =~= s@.subrange(from as int, s@.len() as int));
    }
    string_of(&sc, from, sc.len())
}

/// An ASCII letter in lower case, any other character as it is.
pub open spec fn ascii_lower(c: char) -> char {
    if 'A' <= c <= 'Z' {
        ((c as u8 + 32) as u8) as char
    } else {
        c
    }
}

/// The text with its ASCII letters in lower case.
pub open spec fn ascii_lowercase(s: Seq<char>) -> Seq<char> {
    s.map_values(|c: char| ascii_lower(c))
}

/// The text with its ASCII letters in lower case.
pub fn to_ascii_lowercase(s: &str) -> (r: String)
    ensures
        r@ == ascii_lowercase(s@),
{
    let sc = chars_of(s);
    let mut out = String::new();
    let mut i: usize = 0;
    while i < sc.len()
        invariant
            i <= sc@.len(),
            sc@ == s@,
            out@ == ascii_lowercase(s@.take(i as int)),
        decreases sc@.len() - i,
    {
        let c = sc[i];
        let d = if 'A' <= c && c <= 'Z' {
            (c as u8 + 32) as char
        } else {
            c
        };
        out.push(d);
        i += 1;
        proof {
            assert(ascii_lowercase(s@.take(i as int)) =~= ascii_lowercase(s@.take(i - 1)).push(
                ascii_lower(c),
            ));
        }
    }
    proof {
        assert(s@.take(i as int) =~= s@);
    }
    out
}

/// The character of a decimal digit.
pub open spec fn digit_char(d: nat) -> char {
    ((48 + d) as u8) as char
}

/// A number in decimal.
pub open spec fn decimal(n: nat) -> Seq<char>
    decreases n,
{
    if n < 10 {
        seq![digit_char(n)]
    } else {
        decimal(n / 10).push(digit_char(n % 10))
    }
}

/// A number in decimal.
pub fn decimal_text(n: u64) -> (r: String)
    ensures
        r@ == decimal(n as nat),
{
    decimal_big(n as u128)
}

/// A signed number in decimal.
pub open spec fn signed_decimal(n: int) -> Seq<char> {
    if n < 0 {
        "-"@ + decimal((-n) as nat)
    } else {
        decimal(n as nat)
    }
}

/// A signed number in decimal.
pub fn signed_text(n: i32) -> (r: String)
    ensures
        r@ == signed_decimal(n as int),
{
    if n < 0 {
        let d = decimal_text((-(n as i64)) as u64);
        join2("-", d.as_str())
    } else {
        decimal_text(n as u64)
    }
}

/// A number in decimal.
pub fn decimal_big(n: u128) -> (r: String)
    ensures
        r@ == decimal(n as nat),
    decreases n,
{
    let mut out = if n < 10 {
        String::new()
    } else {
        decimal_big(n / 10)
    };
    out.push((48u8 + (n % 10) as u8) as char);
    proof {
        if n < 10 {
            assert(out@ =~= decimal(n as nat));
        }
    }
    out
}

pub open spec fn is_digit(c: char) -> bool {
    '0' <= c <= '9'
}

/// The number that a sequence of decimal digits denotes.
pub open spec fn digits_value(s: Seq<char>) -> nat
    decreases s.len(),
{
    if s.len() == 0 {
        0
    } else {
        (digits_value(s.drop_last()) * 10 + (s.last() as u32 - 48)) as nat
    }
}

pub open spec fn all_digits(s: Seq<char>) -> bool {
    forall|i: int| 0 <= i < s.len() ==> is_digit(#[trigger] s[i])
}

/// What a text denotes as an unsigned number of 64 bits: one or more decimal digits,
/// with at most one `+` before them, of a value that fits.
pub open spec fn unsigned_of(s: Seq<char>) -> Option<u64> {
    let d = if s.len() > 0 && s[0] == '+' {
        s.skip(1)
    } else {
        s
    };
    if d.len() > 0 && all_digits(d) && digits_value(d) <= u64::MAX {
        Some(digits_value(d) as u64)
    } else {
        None
    }
}

proof fn digits_value_grows(s: Seq<char>, n: int)
    requires
        0 <= n <= s.len(),
        all_digits(s),
    ensures
        digits_value(s.take(n)) <= digits_value(s),
    decreases s.len(),
{
    if n < s.len() {
        digits_value_grows(s.drop_last(), n);
        assert(s.drop_last().take(n) =~= s.take(n));
    } else {
        assert(s.take(n) =~= s);
    }
}

/// Reads an unsigned number of 64 bits.
pub fn parse_unsigned(s: &str) -> (r: Option<u64>)
    ensures
        r == unsigned_of(s@),
{
    let sc = chars_of(s);
    let start: usize = if sc.len() > 0 && sc[0] == '+' {
        1
    } else {
        0
    };
    let ghost d = if start == 1 {
        s@.skip(1)
    } else {
        s@
    };
    if start >= sc.len() {
        return None;
    }
    let mut i: usize = start;
    let mut n: u64 = 0;
    while i < sc.len()
        invariant
            start <= i <= sc@.len(),
            start == 0 || start == 1,
            start < sc@.len(),
            sc@ == s@,
            d == (if start == 1 { s@.skip(1) } else { s@ }),
            start == 1 <==> s@.len() > 0 && s@[0] == '+',
            all_digits(d.take(i - start)),
            n == digits_value(d.take(i - start)),
        decreases sc@.len() - i,
    {
        let c = sc[i];
        proof {
            assert(d[i - start] == c);
            assert(d.take(i + 1 - start).drop_last() =~= d.take(i - start));
        }
        if !('0' <= c && c <= '9') {
            return None;
        }
        let v: u64 = (c as u32 - 48) as u64;
        let fits = n < 1844674407370955161 || (n == 1844674407370955161 && v <= 5);
        if !fits {
            proof {
                if all_digits(d) {
                    digits_value_grows(d, i + 1 - start);
                }
            }
            return None;
        }
        n = n * 10 + v;
        i += 1;
        proof {
            assert forall|k: int| 0 <= k < d.take(i - start).len() implies is_digit(
                #[trigger] d.take(i - start)[k],
            ) by {
                if k < i - 1 - start {
                    assert(d.take(i - 1 - start)[k] == d[k]);
                }
            }
        }
    }
    proof {
        assert(d.take(i - start) =~= d);
    }
    Some(n)
}

/// The order of texts: by the first character in which they differ, else the shorter
/// first.
pub open spec fn lex_lt(a: Seq<char>, b: Seq<char>) -> bool
    decreases a.len(),
{
    if b.len() == 0 {
        false
    } else if a.len() == 0 {
        true
    } else if a[0] == b[0] {
        lex_lt(a.skip(1), b.skip(1))
    } else {
        a[0] < b[0]
    }
}

/// Of two different texts one comes first, and not the other too.
pub proof fn lex_total(a: Seq<char>, b: Seq<char>)
    ensures
        a == b <==> !lex_lt(a, b) && !lex_lt(b, a),
        !(lex_lt(a, b) && lex_lt(b, a)),
    decreases a.len(),
{
    if a.len() == 0 || b.len() == 0 {
        assert(a.len() == 0 && b.len() == 0 ==> a =~= b);
    } else if a[0] == b[0] {
        lex_total(a.skip(1), b.skip(1));
        assert(seq![a[0]] + a.skip(1) =~= a);
        assert(seq![b[0]] + b.skip(1) =~= b);
    }
}

/// The order of texts is transitive.
pub proof fn lex_transitive(a: Seq<char>, b: Seq<char>, c: Seq<char>)
    requires
        lex_lt(a, b),
        lex_lt(b, c),
    ensures
        lex_lt(a, c),
    decreases a.len(),
{
    if a.len() > 0 && a[0] == b[0] && b[0] == c[0] {
        lex_transitive(a.skip(1), b.skip(1), c.skip(1));
    }
}

/// Whether one text comes before another.
pub fn precedes(a: &str, b: &str) -> (r: bool)
    ensures
        r == lex_lt(a@, b@),
{
    let ac = chars_of(a);
    let bc = chars_of(b);
    let mut i: usize = 0;
    proof {
        assert(a@.skip(0) =~= a@);
        assert(b@.skip(0) =~= b@);
    }
    while i < ac.len() && i < bc.len() && ac[i] == bc[i]
        invariant
            i <= ac@.len(),
            i <= bc@.len(),
            ac@ == a@,
            bc@ == b@,
            lex_lt(a@, b@) == lex_lt(a@.skip(i as int), b@.skip(i as int)),
        decreases ac@.len() - i,
    {
        proof {
            assert(a@.skip(i as int).skip(1) =~= a@.skip(i + 1));
            assert(b@.skip(i as int).skip(1) =~= b@.skip(i + 1));
        }
        i += 1;
    }
    if i >= bc.len() {
        false
    } else if i >= ac.len() {
        true
    } else {
        ac[i] < bc[i]
    }
}

/// The text with each occurrence of `p`, from the left, replaced by `q`.
pub open spec fn replaced_all(s: Seq<char>, p: Seq<char>, q: Seq<char>) -> Seq<char>
    decreases s.len(),
    via replaced_all_terminates
{
    if p.len() == 0 {
        s
    } else {
        match find_from(s, p, 0) {
            Some(i) => s.take(i) + q + replaced_all(s.skip(i + p.len()), p, q),
            None => s,
        }
    }
}

#[via_fn]
proof fn replaced_all_terminates(s: Seq<char>, p: Seq<char>, q: Seq<char>) {
    find_from_is_first(s, p, 0);
}

/// The text with each occurrence of `p` replaced by `q`.
pub fn replace_all(s: &str, p: &str, q: &str) -> (r: String)
    requires
        p@.len() > 0,
    ensures
        r@ == replaced_all(s@, p@, q@),
{
    let pc = chars_of(p);
    let mut rest = chars_of(s);
    let mut out = String::new();
    proof {
        assert(out@ + replaced_all(rest@, p@, q@) =~= replaced_all(s@, p@, q@));
    }
    loop
        invariant
            pc@ == p@,
            p@.len() > 0,
            replaced_all(s@, p@, q@) == out@ + replaced_all(rest@, p@, q@),
        decreases rest@.len(),
    {
        let total: usize = rest.len();
        let ghost out0 = out@;
        proof {
            find_from_is_first(rest@, p@, 0);
        }
        match find_chars(&rest, &pc, 0) {
            Some(i) => {
                assert(i + pc@.len() <= total);
                let before = string_of(&rest, 0, i);
                out.push_str(before.as_str());
                out.push_str(q);
                let tail = rest.split_off(i + pc.len());
                proof {
                    let z = replaced_all(tail@, p@, q@);
                    assert(out0 + (before@ + q@ + z) =~= out0 + before@ + q@ + z);
                }
                rest = tail;
            },
            None => {
                let tail = string_all(&rest);
                out.push_str(tail.as_str());
                return out;
            },
        }
    }
}

/// How many bytes a character takes in UTF-8.
pub open spec fn width(c: char) -> int {
    encode_scalar(c as u32).len() as int
}

/// How many bytes a character takes in UTF-8.
pub fn char_width(c: char) -> (r: usize)
    ensures
        r == width(c),
        1 <= r <= 4,
{
    let n: u32 = c as u32;
    if n <= 0x7F {
        1
    } else if n <= 0x7FF {
        2
    } else if n <= 0xFFFF {
        3
    } else {
        4
    }
}

/// How many characters at the front of a text are needed to fill `room` bytes; all where the
/// text has fewer.
pub open spec fn filling(s: Seq<char>, room: int) -> int
    decreases s.len(),
{
    if s.len() > 0 && room > 0 {
        1 + filling(s.skip(1), room - width(s[0]))
    } else {
        0
    }
}

/// What fills the room takes as many bytes as there are, where the text has them; and one
/// character fewer would not do.
pub proof fn filling_fills(s: Seq<char>, room: int)
    ensures
        0 <= filling(s, room) <= s.len(),
        encode_utf8(s).len() >= room ==> encode_utf8(s.take(filling(s, room))).len() >= room,
        filling(s, room) > 0 ==> encode_utf8(s.take(filling(s, room) - 1)).len() < room,
    decreases s.len(),
{
    if s.len() > 0 && room > 0 {
        let rest = s.skip(1);
        let n = filling(rest, room - width(s[0]));
        filling_fills(rest, room - width(s[0]));
        let t = s.take(1 + n);
        assert(t[0] == s[0]);
        assert(s.drop_first() =~= rest);
        assert(t.drop_first() =~= rest.take(n));
        let u = s.take(n);
        if n > 0 {
            assert(u[0] == s[0]);
            assert(u.drop_first() =~= rest.take(n - 1));
        } else {
            assert(u =~= Seq::empty());
            assert(encode_utf8(u).len() == 0);
        }
    } else {
        assert(s.take(0) =~= Seq::empty());
        assert(encode_utf8(s.take(0)).len() == 0);
    }
}

/// The bytes of two texts, one after the other.
pub proof fn bytes_add_up(a: Seq<char>, b: Seq<char>)
    ensures
        encode_utf8(a + b).len() == encode_utf8(a).len() + encode_utf8(b).len(),
    decreases a.len(),
{
    if a.len() > 0 {
        assert((a + b).drop_first() =~= a.drop_first() + b);
        assert((a + b)[0] == a[0]);
        bytes_add_up(a.drop_first(), b);
    } else {
        assert(a + b =~= b);
    }
}

/// The characters at the front of a text that fill `room` bytes.
pub fn filling_prefix(s: &str, room: usize) -> (r: String)
    ensures
        r@ == s@.take(filling(s@, room as int)),
{
    let sc = chars_of(s);
    let mut left: usize = room;
    let mut i: usize = 0;
    proof {
        assert(s@.skip(0) =~= s@);
    }
    while i < sc.len() && left > 0
        invariant
            i <= sc@.len(),
            sc@ == s@,
            filling(s@, room as int) == i + filling(s@.skip(i as int), left as int),
        decreases sc@.len() - i,
    {
        proof {
            assert(s@.skip(i as int).skip(1) =~= s@.skip(i + 1));
        }
        let w: usize = char_width(sc[i]);
        proof {
            if w > left {
                assert(filling(s@.skip(i + 1), left - w) == 0);
                assert(filling(s@.skip(i + 1), 0) == 0);
            }
        }
        left = if w <= left {
            left - w
        } else {
            0
        };
        i += 1;
    }
    proof {
        assert(sc@.subrange(0, i as int) =~= s@.take(i as int));
    }
    string_of(&sc, 0, i)
}

/// The parts of a text between the occurrences of a character.
pub open spec fn split_on(s: Seq<char>, c: char) -> Seq<Seq<char>>
    decreases s.len(),
{
    if s.len() == 0 {
        seq![Seq::empty()]
    } else {
        let before = split_on(s.drop_last(), c);
        if s.last() == c {
            before.push(Seq::empty())
        } else {
            before.drop_last().push(before.last().push(s.last()))
        }
    }
}

/// The parts of a text between the occurrences of a character.
pub fn split(s: &str, c: char) -> (r: Vec<String>)
    ensures
        texts(r@) == split_on(s@, c),
        r@.len() > 0,
{
    let sc = chars_of(s);
    let mut out: Vec<String> = Vec::new();
    let mut part = String::new();
    let mut i: usize = 0;
    proof {
        assert(texts(out@).push(part@) =~= split_on(s@.take(0), c));
    }
    while i < sc.len()
        invariant
            i <= sc@.len(),
            sc@ == s@,
            texts(out@).push(part@) == split_on(s@.take(i as int), c),
        decreases sc@.len() - i,
    {
        let ghost before = texts(out@).push(part@);
        let ghost out0 = out@;
        let ghost part0 = part@;
        proof {
            assert(s@.take(i + 1).drop_last() =~= s@.take(i as int));
            assert(before.drop_last() =~= texts(out0));
            assert(before.last() == part0);
        }
        if sc[i] == c {
            out.push(part);
            part = String::new();
            proof {
                assert(texts(out@) =~= texts(out0).push(part0));
                assert(texts(out@).push(part@) =~= before.push(Seq::empty()));
            }
        } else {
            part.push(sc[i]);
        }
        i += 1;
    }
    let ghost out0 = out@;
    out.push(part);
    proof {
        assert(s@.take(i as int) =~= s@);
        assert(texts(out@) =~= texts(out0).push(part@));
    }
    out
}

/// How many words a text has: runs of characters that are not white space.
pub open spec fn word_count(s: Seq<char>) -> nat
    decreases s.len(),
{
    if s.len() == 0 {
        0
    } else {
        let before = s.drop_last();
        if !is_space(s.last()) && (before.len() == 0 || is_space(before.last())) {
            word_count(before) + 1
        } else {
            word_count(before)
        }
    }
}

/// How many words a text has.
pub fn count_words(s: &str) -> (r: usize)
    ensures
        r == word_count(s@),
{
    let sc = chars_of(s);
    let mut n: usize = 0;
    let mut i: usize = 0;
    let mut gap = true;
    while i < sc.len()
        invariant
            i <= sc@.len(),
            sc@ == s@,
            n <= i,
            n == word_count(s@.take(i as int)),
            gap == (i == 0 || is_space(s@[i - 1])),
        decreases sc@.len() - i,
    {
        proof {
            assert(s@.take(i + 1).drop_last() =~= s@.take(i as int));
        }
        let blank = space(sc[i]);
        if !blank && gap {
            n += 1;
        }
        gap = blank;
        i += 1;
    }
    proof {
        assert(s@.take(i as int) =~= s@);
    }
    n
}

/// The text without the occurrences of a character at its end.
pub open spec fn without_end(s: Seq<char>, c: char) -> Seq<char>
    decreases s.len(),
{
    if s.len() > 0 && s.last() == c {
        without_end(s.drop_last(), c)
    } else {
        s
    }
}

/// The text without the occurrences of a character at its end.
pub fn trim_end_char(s: &str, c: char) -> (r: String)
    ensures
        r@ == without_end(s@, c),
{
    let sc = chars_of(s);
    let mut to: usize = sc.len();
    proof {
        assert(s@.take(to as int) =~= s@);
    }
    while to > 0 && sc[to - 1] == c
        invariant
            to <= sc@.len(),
            sc@ == s@,
            without_end(s@, c) == without_end(s@.take(to as int), c),
        decreases to,
    {
        proof {
            assert(s@.take(to as int).drop_last() =~= s@.take(to - 1));
        }
        to -= 1;
    }
    proof {
        assert(sc@.subrange(0, to as int) =~= s@.take(to as int));
    }
    string_of(&sc, 0, to)
}

/// The texts in order, with `sep` between each two.
pub open spec fn joined(parts: Seq<Seq<char>>, sep: Seq<char>) -> Seq<char>
    decreases parts.len(),
{
    if parts.len() == 0 {
        Seq::empty()
    } else if parts.len() == 1 {
        parts[0]
    } else {
        joined(parts.drop_last(), sep) + sep + parts.last()
    }
}

/// The models of a list of strings.
pub open spec fn texts(v: Seq<String>) -> Seq<Seq<char>> {
    v.map_values(|s: String| s@)
}

/// The strings in order, with `sep` between each two.
pub fn join(parts: &Vec<String>, sep: &str) -> (r: String)
    ensures
        r@ == joined(texts(parts@), sep@),
{
    let mut out = String::new();
    let mut i: usize = 0;
    while i < parts.len()
        invariant
            i <= parts@.len(),
            out@ == joined(texts(parts@.take(i as int)), sep@),
        decreases parts@.len() - i,
    {
        if i > 0 {
            out.push_str(sep);
        }
        out.push_str(parts[i].as_str());
        i += 1;
        proof {
            let t = texts(parts@.take(i as int));
            assert(t.drop_last() =~= texts(parts@.take(i - 1)));
            assert(t.last() == parts@[i - 1]@);
            assert(joined(t, sep@) =~= out@);
        }
    }
    proof {
        assert(parts@.take(i as int) =~= parts@);
    }
    out
}

/// White space alone.
pub open spec fn all_space(s: Seq<char>) -> bool {
    forall|i: int| 0 <= i < s.len() ==> is_space(#[trigger] s[i])
}

/// Trimming takes the white space at both ends and nothing else: what stands between it is
/// kept, and of white space alone nothing is.
pub proof fn trimming_takes_white_space_alone(a: Seq<char>, s: Seq<char>, b: Seq<char>)
    requires
        all_space(a),
        all_space(b),
        s.len() > 0 ==> !is_space(s[0]) && !is_space(s.last()),
    ensures
        trimmed(a + s + b) == s,
        trim_start(a + s) == s,
        trim_end(s + b) == s,
{
    let all = a + s + b;
    assert(all =~= a + (s + b));
    if s.len() > 0 {
        assert((s + b)[0] == s[0]);
        start_is_taken(a, s + b);
        start_is_taken(a, s);
        end_is_taken(s, b);
    } else {
        assert(all =~= a + b + s);
        assert(forall|i: int| 0 <= i < (a + b).len() ==> is_space(#[trigger] (a + b)[i]));
        start_is_taken(a + b, s);
        start_is_taken(a, s);
        end_is_taken(s, b);
        assert(s =~= Seq::empty());
        assert(trim_end(s) == s);
    }
}

proof fn start_is_taken(a: Seq<char>, s: Seq<char>)
    requires
        all_space(a),
        s.len() > 0 ==> !is_space(s[0]),
    ensures
        trim_start(a + s) == s,
    decreases a.len(),
{
    if a.len() > 0 {
        let rest = a.skip(1);
        assert((a + s)[0] == a[0]);
        assert((a + s).skip(1) =~= rest + s);
        assert(forall|i: int| 0 <= i < rest.len() ==> #[trigger] rest[i] == a[i + 1]);
        start_is_taken(rest, s);
    } else {
        assert(a + s =~= s);
    }
}

proof fn end_is_taken(s: Seq<char>, b: Seq<char>)
    requires
        all_space(b),
        s.len() > 0 ==> !is_space(s.last()),
    ensures
        trim_end(s + b) == s,
    decreases b.len(),
{
    if b.len() > 0 {
        let rest = b.drop_last();
        assert((s + b).last() == b.last());
        assert(b.last() == b[b.len() - 1]);
        assert((s + b).drop_last() =~= s + rest);
        assert(forall|i: int| 0 <= i < rest.len() ==> #[trigger] rest[i] == b[i]);
        end_is_taken(s, rest);
    } else {
        assert(s + b =~= s);
    }
}

/// The characters between words: a space, a tab, a line feed, a carriage return.
pub proof fn common_white_space()
    ensures
        is_space(' ') && is_space('\t') && is_space('\n') && is_space('\r'),
        !is_space('a') && !is_space('Z') && !is_space('0') && !is_space('{') && !is_space('-'),
{
}

/// In lower case each capital letter of ASCII is its small one, and every other character is as
/// it was.
pub proof fn capitals_become_small(s: Seq<char>, i: int)
    requires
        0 <= i < s.len(),
    ensures
        ascii_lowercase(s).len() == s.len(),
        'A' <= s[i] <= 'Z' ==> ascii_lowercase(s)[i] as u32 == s[i] as u32 + 32,
        !('A' <= s[i] <= 'Z') ==> ascii_lowercase(s)[i] == s[i],
        ascii_lower('A') == 'a' && ascii_lower('Z') == 'z',
{
}

/// A number in decimal reads back as that number.
pub proof fn decimals_read_back(n: nat)
    ensures
        digits_value(decimal(n)) == n,
        decimal(n).len() > 0,
        all_digits(decimal(n)),
        n > 0 ==> decimal(n)[0] != '0',
        n <= u64::MAX ==> unsigned_of(decimal(n)) == Some(n as u64),
    decreases n,
{
    if n < 10 {
        assert(decimal(n).drop_last() =~= Seq::empty());
        assert(digits_value(Seq::empty()) == 0);
        assert(decimal(n).last() as u32 == 48 + n);
    } else {
        decimals_read_back(n / 10);
        let before = decimal(n / 10);
        assert(decimal(n).drop_last() =~= before);
        assert(decimal(n).last() as u32 == 48 + n % 10);
        assert forall|i: int| 0 <= i < decimal(n).len() implies is_digit(#[trigger] decimal(n)[i]) by {
            if i < before.len() {
                assert(decimal(n)[i] == before[i]);
            }
        }
    }
    assert(is_digit(decimal(n)[0]));
}

/// A negative number is written with its sign.
pub proof fn signs_are_written(n: nat)
    ensures
        signed_decimal(n as int) == decimal(n),
        n > 0 ==> signed_decimal(-(n as int)) == "-"@ + decimal(n),
{
}

/// The parts between the occurrences of a character, put together with it, are the text; and
/// none of them holds it.
pub proof fn parts_make_the_text(s: Seq<char>, c: char)
    ensures
        split_on(s, c).len() > 0,
        joined(split_on(s, c), seq![c]) == s,
        forall|i: int, k: int|
            #![trigger split_on(s, c)[i][k]]
            0 <= i < split_on(s, c).len() && 0 <= k < split_on(s, c)[i].len() ==> split_on(s, c)[i][k]
                != c,
    decreases s.len(),
{
    let parts = split_on(s, c);
    if s.len() == 0 {
        assert(parts[0] =~= s);
    } else {
        let before = split_on(s.drop_last(), c);
        parts_make_the_text(s.drop_last(), c);
        assert(s.drop_last().push(s.last()) =~= s);
        if s.last() == c {
            assert(parts.drop_last() =~= before);
            assert(joined(parts, seq![c]) == joined(before, seq![c]) + seq![c] + Seq::<char>::empty());
            assert(joined(parts, seq![c]) =~= s);
        } else {
            let head = before.drop_last();
            assert(parts.drop_last() =~= head);
            if before.len() == 1 {
                assert(joined(before, seq![c]) == before[0]);
                assert(joined(parts, seq![c]) == parts[0]);
                assert(parts[0] =~= s);
            } else {
                assert(joined(before, seq![c]) == joined(head, seq![c]) + seq![c] + before.last());
                assert(joined(parts, seq![c]) == joined(head, seq![c]) + seq![c] + parts.last());
                assert(joined(parts, seq![c]) =~= s);
            }
        }
        assert forall|i: int, k: int|
            #![trigger parts[i][k]]
            0 <= i < parts.len() && 0 <= k < parts[i].len() implies parts[i][k] != c by {
            if i < before.len() - 1 || (s.last() == c && i < before.len()) {
                assert(parts[i] == before[i]);
                assert(before[i][k] != c);
            } else if s.last() != c && k < before.last().len() {
                assert(parts[i] == before.last().push(s.last()));
                assert(before[before.len() - 1][k] != c);
            }
        }
    }
}

/// Texts are joined in order, with the separator between each two and nowhere else.
pub proof fn separators_stand_between(parts: Seq<Seq<char>>, last: Seq<char>, sep: Seq<char>)
    ensures
        joined(Seq::empty(), sep).len() == 0,
        joined(seq![last], sep) == last,
        parts.len() > 0 ==> joined(parts.push(last), sep) == joined(parts, sep) + sep + last,
{
    assert(parts.push(last).drop_last() =~= parts);
}

/// A word after white space is one word more, and white space is none.
pub proof fn words_are_counted(s: Seq<char>, w: Seq<char>)
    requires
        s.len() == 0 || is_space(s.last()),
        w.len() > 0,
        forall|i: int| 0 <= i < w.len() ==> !is_space(#[trigger] w[i]),
    ensures
        word_count(s + w) == word_count(s) + 1,
        word_count(s + w + seq![' ']) == word_count(s) + 1,
    decreases w.len(),
{
    let less = w.drop_last();
    let all = s + w;
    assert(all.drop_last() =~= s + less);
    assert(all.last() == w[w.len() - 1]);
    if less.len() > 0 {
        assert(forall|i: int| 0 <= i < less.len() ==> #[trigger] less[i] == w[i]);
        words_are_counted(s, less);
        assert((s + less).last() == less.last());
        assert(less.last() == w[w.len() - 2]);
    } else {
        assert(s + less =~= s);
    }
    assert(word_count(all) == word_count(s) + 1);
    let wide = s + w + seq![' '];
    assert(wide.len() > 0);
    assert(wide.drop_last() =~= all);
    assert(wide.last() == ' ');
    assert(is_space(' '));
    assert(word_count(wide) == word_count(wide.drop_last()));
}

/// Texts are ordered by the first character in which they differ; one that goes on comes after
/// one that ends.
pub proof fn texts_are_ordered(p: Seq<char>, x: char, y: char, a: Seq<char>, b: Seq<char>)
    ensures
        x < y ==> lex_lt(p + seq![x] + a, p + seq![y] + b),
        y < x ==> !lex_lt(p + seq![x] + a, p + seq![y] + b),
        lex_lt(p, p + seq![x] + a),
        !lex_lt(p + seq![x] + a, p),
        !lex_lt(p, p),
    decreases p.len(),
{
    let l = p + seq![x] + a;
    let r = p + seq![y] + b;
    if p.len() > 0 {
        let q = p.skip(1);
        texts_are_ordered(q, x, y, a, b);
        assert(l.skip(1) =~= q + seq![x] + a);
        assert(r.skip(1) =~= q + seq![y] + b);
        assert(l[0] == p[0] && r[0] == p[0]);
    } else {
        assert(l[0] == x && r[0] == y);
    }
}

/// Each occurrence is replaced, from the left, and what stands between is kept.
pub proof fn occurrences_are_replaced(a: Seq<char>, p: Seq<char>, b: Seq<char>, q: Seq<char>)
    requires
        p.len() > 0,
        forall|j: int| 0 <= j < a.len() ==> !occurs_at(a + p + b, p, j),
    ensures
        replaced_all(a + p + b, p, q) == a + q + replaced_all(b, p, q),
        !contains_text(b, p) ==> replaced_all(b, p, q) == b,
        contains_text(a + p + b, p),
{
    let s = a + p + b;
    let n = a.len() as int;
    assert(s.subrange(n, n + p.len()) =~= p);
    assert(occurs_at(s, p, n));
    find_from_is_first(s, p, 0);
    assert(find_from(s, p, 0) == Some(n));
    assert(s.take(n) =~= a);
    assert(s.skip(n + p.len()) =~= b);
    find_from_is_first(b, p, 0);
}

/// Of a text that ends in a character only what stands before that end is kept.
pub proof fn ends_are_taken(s: Seq<char>, c: char)
    ensures
        without_end(s.push(c), c) == without_end(s, c),
        s.len() > 0 && s.last() != c ==> without_end(s, c) == s,
        s.len() == 0 ==> without_end(s, c) == s,
{
    assert(s.push(c).drop_last() =~= s);
}

proof fn last_is(a: Seq<char>, c: char, b: Seq<char>)
    requires
        forall|i: int| 0 <= i < b.len() ==> #[trigger] b[i] != c,
    ensures
        last_at(a + seq![c] + b, c) == a.len(),
        last_at(b, c) == -1,
    decreases b.len(),
{
    let s = a + seq![c] + b;
    if b.len() > 0 {
        let less = b.drop_last();
        assert(forall|i: int| 0 <= i < less.len() ==> #[trigger] less[i] == b[i]);
        last_is(a, c, less);
        assert(s.drop_last() =~= a + seq![c] + less);
        assert(s.last() == b[b.len() - 1]);
        assert(b.last() == b[b.len() - 1]);
    } else {
        assert(s.last() == c);
    }
}

/// A file's name is what follows the last slash of its path; its stem is what stands before the
/// last dot of that.
pub proof fn files_have_names_and_stems(dir: Seq<char>, name: Seq<char>, stem: Seq<char>, ext: Seq<char>)
    requires
        forall|i: int| 0 <= i < name.len() ==> #[trigger] name[i] != '/',
        forall|i: int| 0 <= i < ext.len() ==> #[trigger] ext[i] != '.',
        stem.len() > 0,
    ensures
        last_name(dir + seq!['/'] + name) == name,
        last_name(name) == name,
        stem_of(stem + seq!['.'] + ext) == stem,
        stem_of(ext) == ext,
        stem_of(seq!['.'] + ext) == seq!['.'] + ext,
{
    last_is(dir, '/', name);
    last_is(stem, '.', ext);
    last_is(Seq::empty(), '.', ext);
    assert((dir + seq!['/'] + name).skip(dir.len() as int + 1) =~= name);
    assert(name.skip(0) =~= name);
    assert((stem + seq!['.'] + ext).take(stem.len() as int) =~= stem);
    assert(Seq::<char>::empty() + seq!['.'] + ext =~= seq!['.'] + ext);
}

/// In quotes a text has a backslash before each quote and each backslash, and is else as it was.
pub proof fn quotes_and_backslashes_are_escaped(s: Seq<char>, c: char)
    ensures
        escaped(Seq::empty()).len() == 0,
        escaped(s.push(c)) == (if c == '"' || c == '\\' {
            escaped(s) + seq!['\\', c]
        } else {
            escaped(s).push(c)
        }),
        quoted(s) == seq!['"'] + escaped(s) + seq!['"'],
{
    assert(s.push(c).drop_last() =~= s);
}

/// A list of texts is modelled text by text, in its order.
pub proof fn lists_of_texts_lose_nothing(v: Seq<String>, i: int)
    requires
        0 <= i < v.len(),
    ensures
        texts(v).len() == v.len(),
        texts(v)[i] == v[i]@,
{
}

} // verus!
