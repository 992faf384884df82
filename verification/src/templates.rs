//! Which templates can be handed to the template engine.
//!
//! Some of the engine's built-ins do not come back on some arguments: a namespace that holds
//! itself is printed without end, an indentation of too many columns cannot be allocated, a
//! number is divided by zero. The arguments come from the parameters of a run, so that a
//! template is judged by its code alone: by what stands between its delimiters. The engine
//! also follows the links of an expression, and the branches of a condition, one call deeper
//! for each, so that both are bounded.

use crate::text::{
    all_digits, chars_of, find_chars, find_from, find_from_is_first, is_digit, matches_at, occurs_at, same,
    string_of,
};
use vstd::prelude::*;

verus! {

/// What the code of a template is made of.
#[verifier::ext_equal]
pub enum Tok {
    /// A tag begins.
    Tag,
    /// A name, a keyword or the digits of a number.
    Word(Seq<char>),
    /// What stands between the quotes of a string.
    Text(Seq<char>),
    /// Any other character.
    Sign(Seq<char>),
}

/// A piece of the code of a template.
#[derive(Debug, PartialEq)]
pub enum Token {
    Tag,
    Word(String),
    Text(String),
    Sign(String),
}

impl View for Token {
    type V = Tok;

    open spec fn view(&self) -> Tok {
        match self {
            Token::Tag => Tok::Tag,
            Token::Word(w) => Tok::Word(w@),
            Token::Text(w) => Tok::Text(w@),
            Token::Sign(w) => Tok::Sign(w@),
        }
    }
}

/// What the pieces are.
pub open spec fn toks(v: Seq<Token>) -> Seq<Tok> {
    v.map_values(|t: Token| t@)
}

/// A character of a name or a number.
pub open spec fn is_name_char(c: char) -> bool {
    'a' <= c <= 'z' || 'A' <= c <= 'Z' || '0' <= c <= '9' || c == '_'
}

/// White space between the pieces of code.
pub open spec fn is_gap(c: char) -> bool {
    c == ' ' || c == '\t' || c == '\n' || c == '\r' || c == '\u{c}'
}

/// What a character does in code.
#[derive(Debug, Clone, Copy, PartialEq, Eq, Structural)]
pub enum Part {
    Gap,
    Name,
    Quote,
    Opens,
    Shuts,
    Sign,
}

/// What a character does in code.
pub open spec fn part_of(c: char) -> Part {
    if is_gap(c) {
        Part::Gap
    } else if is_name_char(c) {
        Part::Name
    } else if c == '"' || c == '\'' {
        Part::Quote
    } else if c == '(' || c == '[' || c == '{' {
        Part::Opens
    } else if c == ')' || c == ']' || c == '}' {
        Part::Shuts
    } else {
        Part::Sign
    }
}

/// A sign at a delimiter that says what becomes of the white space beyond it.
pub open spec fn is_trim(c: char) -> bool {
    c == '-' || c == '+'
}

/// The first position at or after `i` that holds no white space.
pub open spec fn past_gap(s: Seq<char>, i: int) -> int
    decreases s.len() - i,
{
    if 0 <= i < s.len() && is_gap(s[i]) {
        past_gap(s, i + 1)
    } else {
        i
    }
}

/// Where a sign on white space that stands at `i` ends, `i` where there is none.
pub open spec fn past_trim(s: Seq<char>, i: int) -> int {
    if 0 <= i < s.len() && is_trim(s[i]) {
        i + 1
    } else {
        i
    }
}

/// Where a block ends that holds a keyword alone and whose inside begins at `i`.
pub open spec fn keyword_block(s: Seq<char>, i: int, keyword: Seq<char>) -> Option<int> {
    let a = past_gap(s, i);
    let b = past_trim(s, past_gap(s, a + keyword.len()));
    if occurs_at(s, keyword, a) && occurs_at(s, "%}"@, b) {
        Some(b + 2)
    } else {
        None
    }
}

/// Where the raw text that begins at `i` ends, with the block that closes it.
pub open spec fn raw_end(s: Seq<char>, i: int) -> Option<int>
    decreases s.len() - i,
{
    if i < 0 || i >= s.len() {
        None
    } else if occurs_at(s, "{%"@, i) && keyword_block(s, past_trim(s, i + 2), "endraw"@) is Some {
        keyword_block(s, past_trim(s, i + 2), "endraw"@)
    } else {
        raw_end(s, i + 1)
    }
}

/// Where the word that begins at `i` ends.
pub open spec fn word_end(s: Seq<char>, i: int) -> int
    decreases s.len() - i,
{
    if 0 <= i < s.len() && is_name_char(s[i]) {
        word_end(s, i + 1)
    } else {
        i
    }
}

/// Where the closing quote of a string stands whose inside begins at `i`.
pub open spec fn string_end(s: Seq<char>, i: int, quote: char) -> Option<int>
    decreases s.len() + 1 - i,
{
    if i < 0 || i >= s.len() {
        None
    } else if s[i] == quote {
        Some(i)
    } else if s[i] == '\\' {
        string_end(s, i + 2, quote)
    } else {
        string_end(s, i + 1, quote)
    }
}

/// Where the delimiter ends that begins with a character and closes the code at `i`.
pub open spec fn closed_at(s: Seq<char>, i: int, close: char) -> Option<int> {
    let j = past_trim(s, i);
    if 0 <= j && j + 1 < s.len() && s[j] == close && s[j + 1] == '}' {
        Some(j + 2)
    } else {
        None
    }
}

proof fn past_gap_moves(s: Seq<char>, i: int)
    ensures
        i <= past_gap(s, i),
    decreases s.len() - i,
{
    if 0 <= i < s.len() && is_gap(s[i]) {
        past_gap_moves(s, i + 1);
    }
}

proof fn keyword_block_moves(s: Seq<char>, i: int, keyword: Seq<char>)
    requires
        0 <= i,
    ensures
        keyword_block(s, i, keyword) matches Some(e) ==> i < e <= s.len(),
{
    reveal_strlit("%}");
    past_gap_moves(s, i);
    past_gap_moves(s, past_gap(s, i) + keyword.len());
}

proof fn raw_end_moves(s: Seq<char>, i: int)
    ensures
        raw_end(s, i) matches Some(e) ==> i < e <= s.len(),
    decreases s.len() - i,
{
    if 0 <= i < s.len() {
        keyword_block_moves(s, past_trim(s, i + 2), "endraw"@);
        raw_end_moves(s, i + 1);
    }
}

proof fn word_end_moves(s: Seq<char>, i: int)
    ensures
        i <= word_end(s, i),
        0 <= i < s.len() && is_name_char(s[i]) ==> i < word_end(s, i),
        i <= s.len() ==> word_end(s, i) <= s.len(),
    decreases s.len() - i,
{
    if 0 <= i < s.len() && is_name_char(s[i]) {
        word_end_moves(s, i + 1);
    }
}

proof fn string_end_moves(s: Seq<char>, i: int, quote: char)
    ensures
        string_end(s, i, quote) matches Some(e) ==> i <= e < s.len(),
    decreases s.len() + 1 - i,
{
    if 0 <= i < s.len() && s[i] != quote {
        string_end_moves(s, i + 2, quote);
        string_end_moves(s, i + 1, quote);
    }
}

/// The code of a template from a position on: in text, or in the code of a tag up to the
/// delimiter that begins with a character, with a number of brackets open. A comment or a
/// string without its end, a raw block without its end and a bracket that closes none are
/// errors of syntax: what follows them is not read.
pub open spec fn code_from(s: Seq<char>, i: int, close: Option<char>, open: nat) -> Seq<Tok>
    decreases s.len() - i,
    via code_from_terminates
{
    if i < 0 || i >= s.len() {
        Seq::empty()
    } else {
        match close {
            None => if occurs_at(s, "{#"@, i) {
                match find_from(s, "#}"@, i + 2) {
                    Some(e) => code_from(s, e + 2, None, 0),
                    None => Seq::empty(),
                }
            } else if occurs_at(s, "{{"@, i) {
                seq![Tok::Tag] + code_from(s, past_trim(s, i + 2), Some('}'), 0)
            } else if occurs_at(s, "{%"@, i) {
                match keyword_block(s, past_trim(s, i + 2), "raw"@) {
                    Some(inside) => match raw_end(s, inside) {
                        Some(e) => code_from(s, e, None, 0),
                        None => Seq::empty(),
                    },
                    None => seq![Tok::Tag] + code_from(s, past_trim(s, i + 2), Some('%'), 0),
                }
            } else {
                code_from(s, i + 1, None, 0)
            },
            Some(c) => if open == 0 && closed_at(s, i, c) is Some {
                code_from(s, closed_at(s, i, c)->0, None, 0)
            } else {
                match part_of(s[i]) {
                    Part::Gap => code_from(s, i + 1, close, open),
                    Part::Name => seq![Tok::Word(s.subrange(i, word_end(s, i)))] + code_from(
                        s,
                        word_end(s, i),
                        close,
                        open,
                    ),
                    Part::Quote => match string_end(s, i + 1, s[i]) {
                        Some(e) => seq![Tok::Text(s.subrange(i + 1, e))] + code_from(
                            s,
                            e + 1,
                            close,
                            open,
                        ),
                        None => Seq::empty(),
                    },
                    Part::Opens => seq![Tok::Sign(s.subrange(i, i + 1))] + code_from(s, i + 1, close, open + 1),
                    Part::Shuts => if open > 0 {
                        seq![Tok::Sign(s.subrange(i, i + 1))] + code_from(s, i + 1, close, (open - 1) as nat)
                    } else {
                        Seq::empty()
                    },
                    Part::Sign => seq![Tok::Sign(s.subrange(i, i + 1))] + code_from(s, i + 1, close, open),
                }
            },
        }
    }
}

#[via_fn]
proof fn code_from_terminates(s: Seq<char>, i: int, close: Option<char>, open: nat) {
    reveal_strlit("#}");
    reveal_strlit("{{");
    reveal_strlit("{%");
    if 0 <= i < s.len() {
        find_from_is_first(s, "#}"@, i + 2);
        keyword_block_moves(s, past_trim(s, i + 2), "raw"@);
        match keyword_block(s, past_trim(s, i + 2), "raw"@) {
            Some(inside) => raw_end_moves(s, inside),
            None => {},
        }
        word_end_moves(s, i);
        string_end_moves(s, i + 1, s[i]);
    }
}

/// The code of a template.
pub open spec fn code_of(template: Seq<char>) -> Seq<Tok> {
    code_from(template, 0, None, 0)
}

/// A word stands at a place of the code.
pub open spec fn word_at(t: Seq<Tok>, i: int, word: Seq<char>) -> bool {
    0 <= i < t.len() && t[i] == Tok::Word(word)
}

/// A sign stands at a place of the code.
pub open spec fn sign_at(t: Seq<Tok>, i: int, sign: Seq<char>) -> bool {
    0 <= i < t.len() && t[i] == Tok::Sign(sign)
}

/// No piece of the same tag stands at a place of the code.
pub open spec fn tag_ends_at(t: Seq<Tok>, i: int) -> bool {
    i < 0 || i >= t.len() || t[i] is Tag
}

/// An argument ends before a place of the code.
pub open spec fn arg_ends_at(t: Seq<Tok>, i: int) -> bool {
    sign_at(t, i, ")"@) || sign_at(t, i, ","@)
}

/// A number of at most four digits stands at a place of the code.
pub open spec fn count_at(t: Seq<Tok>, i: int) -> bool {
    &&& 0 <= i < t.len()
    &&& t[i] matches Tok::Word(w) && w.len() <= 4 && all_digits(w)
}

/// A number of at most four digits that is not zero stands at a place of the code.
pub open spec fn divisor_at(t: Seq<Tok>, i: int) -> bool {
    &&& count_at(t, i)
    &&& t[i] matches Tok::Word(w) && exists|k: int| 0 <= k < w.len() && #[trigger] w[k] != '0'
}

/// A filter that does not come back on some arguments, or that takes another filter or test
/// by its name.
pub open spec fn is_risky_filter(name: Seq<char>) -> bool {
    ||| name == "batch"@
    ||| name == "format"@
    ||| name == "indent"@
    ||| name == "map"@
    ||| name == "reject"@
    ||| name == "rejectattr"@
    ||| name == "select"@
    ||| name == "selectattr"@
    ||| name == "slice"@
}

/// A string of small letters alone: a name as it stands.
pub open spec fn is_plain_name(w: Seq<char>) -> bool {
    forall|k: int| 0 <= k < w.len() ==> 'a' <= #[trigger] w[k] <= 'z'
}

/// A string that names a filter without risk is an argument at a place of the code.
pub open spec fn filter_name_at(t: Seq<Tok>, i: int) -> bool {
    &&& 0 <= i < t.len()
    &&& t[i] matches Tok::Text(w) && is_plain_name(w) && !is_risky_filter(w)
    &&& arg_ends_at(t, i + 1)
}

/// A string that names a test without risk is an argument at a place of the code.
pub open spec fn test_name_at(t: Seq<Tok>, i: int) -> bool {
    &&& 0 <= i < t.len()
    &&& t[i] matches Tok::Text(w) && is_plain_name(w) && w != "divisibleby"@
    &&& arg_ends_at(t, i + 1)
}

/// The filter whose name stands at a place of the code comes back on whatever it is given,
/// by what stands in the code for its arguments: sizes are small, and another filter or test
/// is named and without risk.
pub open spec fn filter_is_tame(t: Seq<Tok>, i: int, name: Seq<char>) -> bool {
    ||| !is_risky_filter(name)
    ||| name != "format"@ && (!sign_at(t, i + 1, "("@) || sign_at(t, i + 2, ")"@))
    ||| (name == "batch"@ || name == "indent"@ || name == "slice"@) && count_at(t, i + 2)
        && arg_ends_at(t, i + 3)
    ||| name == "map"@ && (filter_name_at(t, i + 2) || word_at(t, i + 2, "attribute"@) && sign_at(
        t,
        i + 3,
        "="@,
    ))
    ||| (name == "select"@ || name == "reject"@) && test_name_at(t, i + 2)
    ||| (name == "selectattr"@ || name == "rejectattr"@) && i + 2 < t.len() && t[i + 2] is Text && (
    sign_at(t, i + 3, ")"@) || sign_at(t, i + 3, ","@) && test_name_at(t, i + 4))
}

/// The word at a place of the code names a filter.
pub open spec fn names_filter(t: Seq<Tok>, i: int) -> bool {
    sign_at(t, i - 1, "|"@) || word_at(t, i - 1, "filter"@)
}

/// The arguments from a place of the code on are at most two, without brackets.
pub open spec fn few_args(t: Seq<Tok>, i: int, commas: nat) -> bool
    decreases t.len() - i,
{
    if tag_ends_at(t, i) {
        false
    } else {
        match t[i] {
            Tok::Sign(c) => if c == ")"@ {
                true
            } else if c == ","@ {
                commas == 0 && few_args(t, i + 1, 1)
            } else {
                c != "("@ && c != "["@ && c != "{"@ && few_args(t, i + 1, commas)
            },
            _ => few_args(t, i + 1, commas),
        }
    }
}

/// The name at a place of the code is looked up to be printed or to be decided on, and goes
/// no further.
pub open spec fn only_looked_up(t: Seq<Tok>, i: int) -> bool {
    ||| tag_ends_at(t, i - 1) && tag_ends_at(t, i + 1)
    ||| (word_at(t, i - 1, "if"@) || word_at(t, i - 1, "elif"@)) && (tag_ends_at(t, i + 1)
        || word_at(t, i + 1, "else"@))
}

/// What stands at a place of the code may not come back: it multiplies, which repeats a
/// sequence without bound, or it uses a built-in in a way that may not.
pub open spec fn is_risky_at(t: Seq<Tok>, i: int) -> bool {
    match t[i] {
        Tok::Sign(c) => c == "*"@,
        Tok::Word(w) => {
            ||| names_filter(t, i) && !filter_is_tame(t, i, w)
            ||| w == "divisibleby"@ && !sign_at(t, i - 1, "."@) && !(sign_at(t, i + 1, "("@)
                && divisor_at(t, i + 2) && sign_at(t, i + 3, ")"@))
            ||| w == "cycle"@ && sign_at(t, i - 1, "."@) && sign_at(t, i + 1, "("@) && sign_at(
                t,
                i + 2,
                ")"@,
            )
            ||| (w == "namespace"@ || w == "debug"@ || w == "range"@) && !sign_at(t, i - 1, "."@)
                && !only_looked_up(t, i) && !(w == "range"@ && sign_at(t, i + 1, "("@) && few_args(
                t,
                i + 2,
                0,
            ))
        },
        _ => false,
    }
}

/// The pieces of the code in a template, at most.
pub const MAX_CODE: usize = 4000;

/// The pieces of the code in one tag, at most.
pub const MAX_TAG: usize = 200;

/// The further branches of conditions in a template, at most.
pub const MAX_BRANCHES: usize = 60;

/// How many of the first `n` pieces stand in the tag that the last of them stands in.
pub open spec fn tag_size(t: Seq<Tok>, n: nat) -> nat
    decreases n,
{
    if n == 0 || t[n - 1] is Tag {
        0
    } else {
        tag_size(t, (n - 1) as nat) + 1
    }
}

/// How many of them are a given sign.
pub open spec fn signs_in_tag(t: Seq<Tok>, n: nat, sign: Seq<char>) -> nat
    decreases n,
{
    if n == 0 || t[n - 1] is Tag {
        0
    } else {
        signs_in_tag(t, (n - 1) as nat, sign) + if t[n - 1] == Tok::Sign(sign) {
            1nat
        } else {
            0nat
        }
    }
}

/// How many of the first `n` pieces begin a further branch of a condition.
pub open spec fn branches(t: Seq<Tok>, n: nat) -> nat
    decreases n,
{
    if n == 0 {
        0
    } else {
        branches(t, (n - 1) as nat) + if t[n - 1] == Tok::Word("elif"@) {
            1nat
        } else {
            0nat
        }
    }
}

/// The tag of the last of the first `n` pieces is bounded up to there, and takes no slice by
/// steps: that needs two colons, and a bracket.
pub open spec fn tag_is_bounded(t: Seq<Tok>, n: nat) -> bool {
    &&& tag_size(t, n) <= MAX_TAG
    &&& signs_in_tag(t, n, ":"@) <= 1 || signs_in_tag(t, n, "["@) == 0
}

/// Code comes back on whatever it is given: it is bounded, and nothing in it may not.
pub open spec fn is_tame_code(t: Seq<Tok>) -> bool {
    &&& t.len() <= MAX_CODE
    &&& branches(t, t.len()) <= MAX_BRANCHES
    &&& forall|n: nat| n <= t.len() ==> #[trigger] tag_is_bounded(t, n)
    &&& forall|i: int| 0 <= i < t.len() ==> !#[trigger] is_risky_at(t, i)
}

/// A template can be rendered with any parameters.
pub open spec fn is_tame(template: Seq<char>) -> bool {
    is_tame_code(code_of(template))
}

fn name_char(c: char) -> (r: bool)
    ensures
        r == is_name_char(c),
{
    ('a' <= c && c <= 'z') || ('A' <= c && c <= 'Z') || ('0' <= c && c <= '9') || c == '_'
}

fn gap(c: char) -> (r: bool)
    ensures
        r == is_gap(c),
{
    c == ' ' || c == '\t' || c == '\n' || c == '\r' || c == '\u{c}'
}

fn part(c: char) -> (r: Part)
    ensures
        r == part_of(c),
{
    if gap(c) {
        Part::Gap
    } else if name_char(c) {
        Part::Name
    } else if c == '"' || c == '\'' {
        Part::Quote
    } else if c == '(' || c == '[' || c == '{' {
        Part::Opens
    } else if c == ')' || c == ']' || c == '}' {
        Part::Shuts
    } else {
        Part::Sign
    }
}

fn skip_gap(s: &Vec<char>, i: usize) -> (r: usize)
    requires
        i <= s@.len(),
    ensures
        r == past_gap(s@, i as int),
        i <= r <= s@.len(),
{
    let mut j: usize = i;
    while j < s.len() && gap(s[j])
        invariant
            i <= j <= s@.len(),
            past_gap(s@, i as int) == past_gap(s@, j as int),
        decreases s@.len() - j,
    {
        j += 1;
    }
    j
}

fn skip_trim(s: &Vec<char>, i: usize) -> (r: usize)
    requires
        i <= s@.len(),
    ensures
        r == past_trim(s@, i as int),
        i <= r <= s@.len(),
{
    if i < s.len() && (s[i] == '-' || s[i] == '+') {
        i + 1
    } else {
        i
    }
}

fn find_keyword_block(s: &Vec<char>, i: usize, keyword: &str) -> (r: Option<usize>)
    requires
        i <= s@.len(),
    ensures
        match r {
            Some(e) => keyword_block(s@, i as int, keyword@) == Some(e as int) && e <= s@.len(),
            None => keyword_block(s@, i as int, keyword@) is None,
        },
{
    let word = chars_of(keyword);
    let end = chars_of("%}");
    proof {
        reveal_strlit("%}");
    }
    let n: usize = s.len();
    let a = skip_gap(s, i);
    if !matches_at(s, &word, a) {
        return None;
    }
    assert(a + word@.len() <= n);
    let b = skip_trim(s, skip_gap(s, a + word.len()));
    if matches_at(s, &end, b) {
        Some(b + 2)
    } else {
        None
    }
}

fn find_raw_end(s: &Vec<char>, i: usize) -> (r: Option<usize>)
    requires
        i <= s@.len(),
    ensures
        match r {
            Some(e) => raw_end(s@, i as int) == Some(e as int) && e <= s@.len(),
            None => raw_end(s@, i as int) is None,
        },
{
    let block = chars_of("{%");
    proof {
        reveal_strlit("{%");
    }
    let mut j: usize = i;
    while j < s.len()
        invariant
            i <= j <= s@.len(),
            block@ == "{%"@,
            block@.len() == 2,
            raw_end(s@, i as int) == raw_end(s@, j as int),
        decreases s@.len() - j,
    {
        if matches_at(s, &block, j) {
            let found = find_keyword_block(s, skip_trim(s, j + 2), "endraw");
            if found.is_some() {
                return found;
            }
        }
        j += 1;
    }
    None
}

fn find_word_end(s: &Vec<char>, i: usize) -> (r: usize)
    requires
        i <= s@.len(),
    ensures
        r == word_end(s@, i as int),
        i <= r <= s@.len(),
{
    let mut j: usize = i;
    while j < s.len() && name_char(s[j])
        invariant
            i <= j <= s@.len(),
            word_end(s@, i as int) == word_end(s@, j as int),
        decreases s@.len() - j,
    {
        j += 1;
    }
    j
}

fn find_string_end(s: &Vec<char>, i: usize, quote: char) -> (r: Option<usize>)
    requires
        i <= s@.len(),
    ensures
        match r {
            Some(e) => string_end(s@, i as int, quote) == Some(e as int) && i <= e < s@.len(),
            None => string_end(s@, i as int, quote) is None,
        },
{
    let mut j: usize = i;
    while j < s.len()
        invariant
            i <= j <= s@.len(),
            string_end(s@, i as int, quote) == string_end(s@, j as int, quote),
        decreases s@.len() - j,
    {
        if s[j] == quote {
            return Some(j);
        }
        if s[j] == '\\' {
            if s.len() - j < 2 {
                assert(string_end(s@, j + 2, quote) is None);
                return None;
            }
            j += 2;
        } else {
            j += 1;
        }
    }
    None
}

fn find_close(s: &Vec<char>, i: usize, close: char) -> (r: Option<usize>)
    requires
        i <= s@.len(),
    ensures
        match r {
            Some(e) => closed_at(s@, i as int, close) == Some(e as int) && i < e <= s@.len(),
            None => closed_at(s@, i as int, close) is None,
        },
{
    let j = skip_trim(s, i);
    if s.len() - j > 1 && s[j] == close && s[j + 1] == '}' {
        Some(j + 2)
    } else {
        None
    }
}

proof fn toks_push(v: Seq<Token>, t: Token, rest: Seq<Tok>)
    ensures
        toks(v.push(t)) + rest == toks(v) + (seq![t@] + rest),
{
    assert(toks(v.push(t)) + rest =~= toks(v) + (seq![t@] + rest));
}

/// The code of a template.
pub fn template_code(template: &str) -> (r: Vec<Token>)
    ensures
        toks(r@) == code_of(template@),
{
    let s = chars_of(template);
    let comment = chars_of("{#");
    let comment_end = chars_of("#}");
    let variable = chars_of("{{");
    let block = chars_of("{%");
    proof {
        reveal_strlit("{#");
        reveal_strlit("#}");
        reveal_strlit("{{");
        reveal_strlit("{%");
    }
    let mut out: Vec<Token> = Vec::new();
    let mut i: usize = 0;
    let mut close: Option<char> = None;
    let mut open: usize = 0;
    proof {
        assert(toks(out@) + code_of(template@) =~= code_of(template@));
    }
    while i < s.len()
        invariant
            open <= i <= s@.len(),
            s@ == template@,
            comment@ == "{#"@,
            comment_end@ == "#}"@,
            comment@.len() == 2,
            comment_end@.len() == 2,
            variable@ == "{{"@,
            variable@.len() == 2,
            block@ == "{%"@,
            block@.len() == 2,
            close is None ==> open == 0,
            code_of(template@) == toks(out@) + code_from(s@, i as int, close, open as nat),
        decreases s@.len() - i,
    {
        let c: char = s[i];
        let ghost (i0, close0, open0) = (i as int, close, open as nat);
        let mut piece: Option<Token> = None;
        let mut ends: bool = false;
        match close {
            None => {
                if matches_at(&s, &comment, i) {
                    match find_chars(&s, &comment_end, i + 2) {
                        Some(e) => {
                            i = e + 2;
                        },
                        None => {
                            ends = true;
                        },
                    }
                } else if matches_at(&s, &variable, i) {
                    piece = Some(Token::Tag);
                    close = Some('}');
                    i = skip_trim(&s, i + 2);
                } else if matches_at(&s, &block, i) {
                    let inside = skip_trim(&s, i + 2);
                    match find_keyword_block(&s, inside, "raw") {
                        Some(raw) => {
                            proof {
                                keyword_block_moves(s@, inside as int, "raw"@);
                                raw_end_moves(s@, raw as int);
                            }
                            match find_raw_end(&s, raw) {
                                Some(e) => {
                                    i = e;
                                },
                                None => {
                                    ends = true;
                                },
                            }
                        },
                        None => {
                            piece = Some(Token::Tag);
                            close = Some('%');
                            i = inside;
                        },
                    }
                } else {
                    i += 1;
                }
            },
            Some(d) => {
                let end = if open == 0 {
                    find_close(&s, i, d)
                } else {
                    None
                };
                if let Some(e) = end {
                    close = None;
                    i = e;
                } else {
                    match part(c) {
                        Part::Gap => {
                            i += 1;
                        },
                        Part::Name => {
                            let e = find_word_end(&s, i);
                            proof {
                                word_end_moves(s@, i as int);
                            }
                            piece = Some(Token::Word(string_of(&s, i, e)));
                            i = e;
                        },
                        Part::Quote => {
                            match find_string_end(&s, i + 1, c) {
                                Some(e) => {
                                    piece = Some(Token::Text(string_of(&s, i + 1, e)));
                                    i = e + 1;
                                },
                                None => {
                                    ends = true;
                                },
                            }
                        },
                        Part::Opens => {
                            piece = Some(Token::Sign(string_of(&s, i, i + 1)));
                            open += 1;
                            i += 1;
                        },
                        Part::Shuts => {
                            if open > 0 {
                                piece = Some(Token::Sign(string_of(&s, i, i + 1)));
                                open -= 1;
                                i += 1;
                            } else {
                                ends = true;
                            }
                        },
                        Part::Sign => {
                            piece = Some(Token::Sign(string_of(&s, i, i + 1)));
                            i += 1;
                        },
                    }
                }
            },
        }
        if ends {
            proof {
                assert(code_from(s@, i0, close0, open0) =~= Seq::empty());
                assert(toks(out@) + Seq::<Tok>::empty() =~= toks(out@));
            }
            return out;
        }
        match piece {
            Some(t) => {
                proof {
                    toks_push(out@, t, code_from(s@, i as int, close, open as nat));
                }
                out.push(t);
            },
            None => {},
        }
    }
    proof {
        assert(toks(out@) + Seq::<Tok>::empty() =~= toks(out@));
    }
    out
}

fn word_is(t: &Vec<Token>, i: usize, word: &str) -> (r: bool)
    ensures
        r == word_at(toks(t@), i as int, word@),
{
    i < t.len() && match &t[i] {
        Token::Word(w) => same(w.as_str(), word),
        _ => false,
    }
}

fn sign_is(t: &Vec<Token>, i: usize, sign: &str) -> (r: bool)
    ensures
        r == sign_at(toks(t@), i as int, sign@),
{
    i < t.len() && match &t[i] {
        Token::Sign(w) => same(w.as_str(), sign),
        _ => false,
    }
}

fn ends_tag(t: &Vec<Token>, i: usize) -> (r: bool)
    ensures
        r == tag_ends_at(toks(t@), i as int),
{
    i >= t.len() || match &t[i] {
        Token::Tag => true,
        _ => false,
    }
}

fn ends_arg(t: &Vec<Token>, i: usize) -> (r: bool)
    ensures
        r == arg_ends_at(toks(t@), i as int),
{
    sign_is(t, i, ")") || sign_is(t, i, ",")
}

/// Whether a word is a number of at most four digits, and whether it is not zero.
fn small_number(w: &str) -> (r: (bool, bool))
    ensures
        r.0 == (w@.len() <= 4 && all_digits(w@)),
        r.1 == exists|k: int| 0 <= k < w@.len() && #[trigger] w@[k] != '0',
{
    let s = chars_of(w);
    let mut digits: bool = true;
    let mut nonzero: bool = false;
    let mut i: usize = 0;
    while i < s.len()
        invariant
            i <= s@.len(),
            s@ == w@,
            digits == forall|k: int| 0 <= k < i ==> is_digit(#[trigger] w@[k]),
            nonzero == exists|k: int| 0 <= k < i && #[trigger] w@[k] != '0',
        decreases s@.len() - i,
    {
        let c: char = s[i];
        proof {
            assert(w@[i as int] == c);
        }
        if !('0' <= c && c <= '9') {
            digits = false;
        }
        if c != '0' {
            nonzero = true;
        }
        i += 1;
    }
    (s.len() <= 4 && digits, nonzero)
}

fn is_count(t: &Vec<Token>, i: usize) -> (r: bool)
    ensures
        r == count_at(toks(t@), i as int),
{
    i < t.len() && match &t[i] {
        Token::Word(w) => small_number(w.as_str()).0,
        _ => false,
    }
}

fn is_divisor(t: &Vec<Token>, i: usize) -> (r: bool)
    ensures
        r == divisor_at(toks(t@), i as int),
{
    i < t.len() && match &t[i] {
        Token::Word(w) => {
            let n = small_number(w.as_str());
            n.0 && n.1
        },
        _ => false,
    }
}

fn risky_filter(name: &str) -> (r: bool)
    ensures
        r == is_risky_filter(name@),
{
    same(name, "batch") || same(name, "format") || same(name, "indent") || same(name, "map")
        || same(name, "reject") || same(name, "rejectattr") || same(name, "select") || same(
        name,
        "selectattr",
    ) || same(name, "slice")
}

fn plain_name(w: &str) -> (r: bool)
    ensures
        r == is_plain_name(w@),
{
    let s = chars_of(w);
    let mut i: usize = 0;
    while i < s.len()
        invariant
            i <= s@.len(),
            s@ == w@,
            forall|k: int| 0 <= k < i ==> 'a' <= #[trigger] w@[k] <= 'z',
        decreases s@.len() - i,
    {
        let c: char = s[i];
        if !('a' <= c && c <= 'z') {
            assert(w@[i as int] == c);
            return false;
        }
        i += 1;
    }
    true
}

fn is_filter_name(t: &Vec<Token>, i: usize) -> (r: bool)
    ensures
        r == filter_name_at(toks(t@), i as int),
{
    i < t.len() && (match &t[i] {
        Token::Text(w) => plain_name(w.as_str()) && !risky_filter(w.as_str()),
        _ => false,
    }) && ends_arg(t, i + 1)
}

fn is_test_name(t: &Vec<Token>, i: usize) -> (r: bool)
    ensures
        r == test_name_at(toks(t@), i as int),
{
    i < t.len() && (match &t[i] {
        Token::Text(w) => plain_name(w.as_str()) && !same(w.as_str(), "divisibleby"),
        _ => false,
    }) && ends_arg(t, i + 1)
}

fn is_text(t: &Vec<Token>, i: usize) -> (r: bool)
    ensures
        r == (i < t@.len() && toks(t@)[i as int] is Text),
{
    i < t.len() && match &t[i] {
        Token::Text(_) => true,
        _ => false,
    }
}

fn tame_filter(t: &Vec<Token>, i: usize, name: &str) -> (r: bool)
    requires
        i < t@.len() <= MAX_CODE,
    ensures
        r == filter_is_tame(toks(t@), i as int, name@),
{
    if !risky_filter(name) {
        return true;
    }
    if !same(name, "format") && (!sign_is(t, i + 1, "(") || sign_is(t, i + 2, ")")) {
        return true;
    }
    if same(name, "batch") || same(name, "indent") || same(name, "slice") {
        if is_count(t, i + 2) && ends_arg(t, i + 3) {
            return true;
        }
    }
    if same(name, "map") {
        if is_filter_name(t, i + 2) || word_is(t, i + 2, "attribute") && sign_is(t, i + 3, "=") {
            return true;
        }
    }
    if same(name, "select") || same(name, "reject") {
        if is_test_name(t, i + 2) {
            return true;
        }
    }
    (same(name, "selectattr") || same(name, "rejectattr")) && is_text(t, i + 2) && (sign_is(
        t,
        i + 3,
        ")",
    ) || sign_is(t, i + 3, ",") && is_test_name(t, i + 4))
}

fn takes_few(t: &Vec<Token>, i: usize) -> (r: bool)
    requires
        t@.len() <= MAX_CODE,
    ensures
        r == few_args(toks(t@), i as int, 0),
{
    let mut j: usize = i;
    let mut commas: usize = 0;
    while !ends_tag(t, j)
        invariant
            commas <= 1,
            i <= j,
            t@.len() <= MAX_CODE,
            few_args(toks(t@), i as int, 0) == few_args(toks(t@), j as int, commas as nat),
        decreases t@.len() - j,
    {
        match &t[j] {
            Token::Sign(c) => {
                let c = c.as_str();
                if same(c, ")") {
                    return true;
                }
                if same(c, ",") {
                    if commas > 0 {
                        return false;
                    }
                    commas = 1;
                } else if same(c, "(") || same(c, "[") || same(c, "{") {
                    return false;
                }
            },
            _ => {},
        }
        j += 1;
    }
    false
}

fn risky(t: &Vec<Token>, i: usize) -> (r: bool)
    requires
        i < t@.len() <= MAX_CODE,
    ensures
        r == is_risky_at(toks(t@), i as int),
{
    match &t[i] {
        Token::Sign(c) => same(c.as_str(), "*"),
        Token::Word(word) => {
            let w = word.as_str();
            let dotted: bool = i > 0 && sign_is(t, i - 1, ".");
            if (i > 0 && (sign_is(t, i - 1, "|") || word_is(t, i - 1, "filter"))) && !tame_filter(
                t,
                i,
                w,
            ) {
                return true;
            }
            if same(w, "divisibleby") && !dotted && !(sign_is(t, i + 1, "(") && is_divisor(t, i + 2)
                && sign_is(t, i + 3, ")")) {
                return true;
            }
            if same(w, "cycle") && dotted && sign_is(t, i + 1, "(") && sign_is(t, i + 2, ")") {
                return true;
            }
            if !(same(w, "namespace") || same(w, "debug") || same(w, "range")) || dotted {
                return false;
            }
            let first: bool = i == 0 || ends_tag(t, i - 1);
            let tested: bool = i > 0 && (word_is(t, i - 1, "if") || word_is(t, i - 1, "elif"));
            let last: bool = ends_tag(t, i + 1);
            if first && last || tested && (last || word_is(t, i + 1, "else")) {
                return false;
            }
            !(same(w, "range") && sign_is(t, i + 1, "(") && takes_few(t, i + 2))
        },
        _ => false,
    }
}

/// Whether code comes back on whatever it is given.
pub fn tame_code(t: &Vec<Token>) -> (r: bool)
    ensures
        r == is_tame_code(toks(t@)),
{
    if t.len() > MAX_CODE {
        return false;
    }
    let ghost code = toks(t@);
    let mut size: usize = 0;
    let mut colons: usize = 0;
    let mut squares: usize = 0;
    let mut elifs: usize = 0;
    let mut i: usize = 0;
    proof {
        assert(tag_is_bounded(code, 0));
    }
    while i < t.len()
        invariant
            code == toks(t@),
            i <= t@.len() <= MAX_CODE,
            size <= i,
            colons <= i,
            squares <= i,
            elifs <= i,
            size == tag_size(code, i as nat),
            colons == signs_in_tag(code, i as nat, ":"@),
            squares == signs_in_tag(code, i as nat, "["@),
            elifs == branches(code, i as nat),
            forall|n: nat| n <= i ==> #[trigger] tag_is_bounded(code, n),
            forall|k: int| 0 <= k < i ==> !#[trigger] is_risky_at(code, k),
        decreases t@.len() - i,
    {
        if risky(t, i) {
            return false;
        }
        if ends_tag(t, i) {
            size = 0;
            colons = 0;
            squares = 0;
        } else {
            size += 1;
            if sign_is(t, i, ":") {
                colons += 1;
            }
            if sign_is(t, i, "[") {
                squares += 1;
            }
        }
        if word_is(t, i, "elif") {
            elifs += 1;
        }
        i += 1;
        if size > MAX_TAG || (colons > 1 && squares > 0) {
            assert(!tag_is_bounded(code, i as nat));
            return false;
        }
        assert(tag_is_bounded(code, i as nat));
    }
    elifs <= MAX_BRANCHES
}

/// Whether a template can be rendered with any parameters.
pub fn tame(template: &str) -> (r: bool)
    ensures
        r == is_tame(template@),
{
    let code = template_code(template);
    tame_code(&code)
}

/// A text without a brace has no code, so that it can be rendered with any parameters.
pub proof fn plain_text_has_no_code(s: Seq<char>, i: int)
    requires
        0 <= i,
        forall|k: int| 0 <= k < s.len() ==> #[trigger] s[k] != '{',
    ensures
        code_from(s, i, None, 0).len() == 0,
        i == 0 ==> code_of(s).len() == 0 && is_tame(s),
    decreases s.len() - i,
{
    reveal_strlit("{#");
    reveal_strlit("{{");
    reveal_strlit("{%");
    if i < s.len() {
        if occurs_at(s, "{#"@, i) {
            assert(s.subrange(i, i + 2)[0] == s[i]);
        }
        if occurs_at(s, "{{"@, i) {
            assert(s.subrange(i, i + 2)[0] == s[i]);
        }
        if occurs_at(s, "{%"@, i) {
            assert(s.subrange(i, i + 2)[0] == s[i]);
        }
        plain_text_has_no_code(s, i + 1);
    }
    if i == 0 {
        let t = code_of(s);
        assert(branches(t, 0) == 0);
        assert forall|n: nat| n <= t.len() implies #[trigger] tag_is_bounded(t, n) by {
            assert(n == 0);
        }
    }
}

proof fn word_ends_at(s: Seq<char>, i: int, e: int)
    requires
        0 <= i <= e <= s.len(),
        forall|k: int| i <= k < e ==> is_name_char(#[trigger] s[k]),
        e < s.len() ==> !is_name_char(s[e]),
    ensures
        word_end(s, i) == e,
    decreases e - i,
{
    if i < e {
        word_ends_at(s, i + 1, e);
    }
}

/// A name in double braces is a tag with that name in it, and nothing else.
pub proof fn a_variable_is_its_name(name: Seq<char>)
    requires
        name.len() > 0,
        forall|k: int| 0 <= k < name.len() ==> is_name_char(#[trigger] name[k]),
    ensures
        code_of("{{"@ + name + "}}"@) == seq![Tok::Tag, Tok::Word(name)],
{
    reveal_strlit("{#");
    reveal_strlit("{{");
    reveal_strlit("{%");
    reveal_strlit("}}");
    let s = "{{"@ + name + "}}"@;
    let e = 2 + name.len() as int;
    assert(s.subrange(0, 2) =~= "{{"@);
    assert("{#"@[1] == '#' && "{{"@[1] == '{');
    assert(s.subrange(0, 2) != "{#"@);
    assert(forall|k: int| 2 <= k < e ==> #[trigger] s[k] == name[k - 2]);
    assert(s[e] == '}' && s[e + 1] == '}');
    assert forall|k: int| 2 <= k < e implies is_name_char(#[trigger] s[k]) by {
        assert(s[k] == name[k - 2]);
    }
    word_ends_at(s, 2, e);
    assert(s.subrange(2, e) =~= name);
    assert(is_name_char(s[2]));
    assert(past_trim(s, 2) == 2);
    assert(closed_at(s, 2, '}') is None);
    assert(closed_at(s, e, '}') == Some(e + 2));
    assert(code_from(s, e + 2, None, 0) =~= Seq::empty());
    assert(code_from(s, e, Some('}'), 0) =~= Seq::empty());
    assert(code_from(s, 2, Some('}'), 0) =~= seq![Tok::Word(name)]);
    assert(code_from(s, 0, None, 0) =~= seq![Tok::Tag, Tok::Word(name)]);
}

/// Code that can be rendered with any parameters is short, in all and in each tag, multiplies
/// nothing, formats nothing, makes no namespace and divides by no zero.
pub proof fn tame_code_does_no_harm(t: Seq<Tok>, i: int)
    requires
        is_tame_code(t),
        0 <= i < t.len(),
    ensures
        t.len() <= 4000,
        branches(t, t.len()) <= 60,
        tag_size(t, (i + 1) as nat) <= 200,
        t[i] != Tok::Sign("*"@),
        i > 0 && t[i - 1] == Tok::Sign("|"@) ==> t[i] != Tok::Word("format"@),
        i + 1 < t.len() && t[i + 1] == Tok::Sign("("@) && (i == 0 || t[i - 1] != Tok::Sign("."@)) ==> t[i]
            != Tok::Word("namespace"@) && t[i] != Tok::Word("debug"@),
        t[i] == Tok::Word("divisibleby"@) && (i == 0 || t[i - 1] != Tok::Sign("."@)) ==> i + 3
            < t.len() && t[i + 1] == Tok::Sign("("@) && t[i + 3] == Tok::Sign(")"@),
        i > 0 && t[i - 1] == Tok::Sign("|"@) && t[i] == Tok::Word("indent"@) && i + 2 < t.len()
            && t[i + 1] == Tok::Sign("("@) && t[i + 2] != Tok::Sign(")"@) ==> (
        t[i + 2] matches Tok::Word(w) && w.len() <= 4 && all_digits(w)),
{
    assert(!is_risky_at(t, i));
    assert(tag_is_bounded(t, (i + 1) as nat));
    reveal_strlit("format");
    reveal_strlit("indent");
    reveal_strlit("batch");
    reveal_strlit("slice");
    reveal_strlit("map");
    reveal_strlit("select");
    reveal_strlit("reject");
    reveal_strlit("selectattr");
    reveal_strlit("rejectattr");
    reveal_strlit("namespace");
    reveal_strlit("debug");
    reveal_strlit("range");
    reveal_strlit("else");
    assert("format"@.len() == 6 && "indent"@.len() == 6 && "select"@.len() == 6 && "reject"@.len()
        == 6 && "format"@[0] == 'f' && "indent"@[0] == 'i' && "select"@[0] == 's' && "reject"@[0]
        == 'r' && "batch"@.len() == 5 && "slice"@.len() == 5 && "map"@.len() == 3
        && "selectattr"@.len() == 10 && "rejectattr"@.len() == 10);
    assert("namespace"@.len() == 9 && "debug"@.len() == 5 && "range"@.len() == 5 && "debug"@[0]
        == 'd' && "range"@[0] == 'r');
}

/// What stands outside the tags is no code; a comment is none up to its end, and without an end
/// up to the end of the text; a tag begins with two braces or with a brace and a percent sign.
pub proof fn only_tags_hold_code(s: Seq<char>, i: int)
    requires
        0 <= i < s.len(),
    ensures
        s[i] != '{' ==> code_from(s, i, None, 0) == code_from(s, i + 1, None, 0),
        occurs_at(s, "{#"@, i) && find_from(s, "#}"@, i + 2) is None ==> code_from(
            s,
            i,
            None,
            0,
        ).len() == 0,
        occurs_at(s, "{#"@, i) && find_from(s, "#}"@, i + 2) is Some ==> code_from(s, i, None, 0)
            == code_from(s, find_from(s, "#}"@, i + 2)->0 + 2, None, 0),
        occurs_at(s, "{{"@, i) ==> code_from(s, i, None, 0).len() > 0 && code_from(s, i, None, 0)[0]
            == Tok::Tag,
{
    reveal_strlit("{#");
    reveal_strlit("{{");
    reveal_strlit("{%");
    if occurs_at(s, "{#"@, i) {
        assert(s.subrange(i, i + 2)[0] == s[i]);
        assert(s.subrange(i, i + 2)[1] == '#');
    }
    if occurs_at(s, "{{"@, i) {
        assert(s.subrange(i, i + 2)[0] == s[i]);
        assert(s.subrange(i, i + 2)[1] == '{');
    }
    if occurs_at(s, "{%"@, i) {
        assert(s.subrange(i, i + 2)[0] == s[i]);
    }
}

/// In a tag, white space says nothing, a sign stands for itself, and a text in quotes is one
/// piece that holds what stands between them.
pub proof fn tags_are_read_piece_by_piece(s: Seq<char>, i: int, c: char, open: nat)
    requires
        0 <= i < s.len(),
        open > 0 || closed_at(s, i, c) is None,
    ensures
        s[i] == ' ' ==> code_from(s, i, Some(c), open) == code_from(s, i + 1, Some(c), open),
        s[i] == '|' || s[i] == '*' || s[i] == ',' ==> code_from(s, i, Some(c), open) == seq![
            Tok::Sign(seq![s[i]]),
        ] + code_from(s, i + 1, Some(c), open),
        s[i] == '(' || s[i] == '[' ==> code_from(s, i, Some(c), open) == seq![
            Tok::Sign(seq![s[i]]),
        ] + code_from(s, i + 1, Some(c), open + 1),
        (s[i] == ')' || s[i] == ']') && open > 0 ==> code_from(s, i, Some(c), open) == seq![
            Tok::Sign(seq![s[i]]),
        ] + code_from(s, i + 1, Some(c), (open - 1) as nat),
        (s[i] == '"' || s[i] == '\'') && string_end(s, i + 1, s[i]) is Some ==> code_from(
            s,
            i,
            Some(c),
            open,
        ) == seq![Tok::Text(s.subrange(i + 1, string_end(s, i + 1, s[i])->0))] + code_from(
            s,
            string_end(s, i + 1, s[i])->0 + 1,
            Some(c),
            open,
        ),
{
    assert(s.subrange(i, i + 1) =~= seq![s[i]]);
}

} // verus!
