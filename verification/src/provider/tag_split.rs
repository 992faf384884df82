//! Splitting a streamed text at a pair of tags whose characters may arrive in
//! different pieces.

use crate::text::{chars_of, find_chars, find_from, find_from_is_first, occurs_at, string_all, string_of};
use vstd::prelude::*;

verus! {

/// The first `k` characters of `tag` are the last `k` of `s`.
pub open spec fn ends_with_prefix(s: Seq<char>, tag: Seq<char>, k: int) -> bool {
    0 <= k <= s.len() && k <= tag.len() && s.skip(s.len() - k) == tag.take(k)
}

/// The largest number up to `k` of characters that are both an end of `s` and a
/// beginning of `tag`.
pub open spec fn hold_upto(s: Seq<char>, tag: Seq<char>, k: int) -> int
    decreases k,
{
    if k <= 0 {
        0
    } else if ends_with_prefix(s, tag, k) {
        k
    } else {
        hold_upto(s, tag, k - 1)
    }
}

/// The length of the longest proper beginning of `tag` that ends `s`: what must be held
/// back, since the next piece may complete the tag.
pub open spec fn hold_len(s: Seq<char>, tag: Seq<char>) -> int {
    hold_upto(s, tag, tag.len() - 1)
}

proof fn hold_upto_is_longest(s: Seq<char>, tag: Seq<char>, k: int)
    requires
        k <= tag.len(),
    ensures
        0 <= hold_upto(s, tag, k),
        hold_upto(s, tag, k) <= k || k < 0,
        ends_with_prefix(s, tag, hold_upto(s, tag, k)),
        forall|j: int| hold_upto(s, tag, k) < j <= k ==> !ends_with_prefix(s, tag, j),
    decreases k,
{
    if k <= 0 {
        assert(s.skip(s.len() as int) =~= tag.take(0));
    } else if !ends_with_prefix(s, tag, k) {
        hold_upto_is_longest(s, tag, k - 1);
    }
}

/// What is held back is a proper beginning of the tag, and the longest that ends the text.
pub proof fn hold_len_is_longest(s: Seq<char>, tag: Seq<char>)
    requires
        tag.len() > 0,
    ensures
        0 <= hold_len(s, tag) < tag.len(),
        hold_len(s, tag) <= s.len(),
        ends_with_prefix(s, tag, hold_len(s, tag)),
        forall|j: int| hold_len(s, tag) < j < tag.len() ==> !ends_with_prefix(s, tag, j),
{
    hold_upto_is_longest(s, tag, tag.len() - 1);
}

/// The length of the longest proper beginning of `tag` that ends `s`.
pub fn longest_tag_prefix_suffix(s: &Vec<char>, tag: &Vec<char>) -> (r: usize)
    requires
        tag@.len() > 0,
    ensures
        r == hold_len(s@, tag@),
        r <= s@.len(),
        r < tag@.len(),
{
    let mut k: usize = tag.len() - 1;
    while k > 0
        invariant
            k < tag@.len(),
            hold_len(s@, tag@) == hold_upto(s@, tag@, k as int),
        decreases k,
    {
        if k <= s.len() {
            let mut same = true;
            let mut i: usize = 0;
            let at: usize = s.len() - k;
            while i < k
                invariant
                    k < tag@.len(),
                    k <= s@.len(),
                    at + k == s@.len() <= usize::MAX,
                    i <= k,
                    same ==> s@.subrange(at as int, at + i) =~= tag@.take(i as int),
                    !same ==> !ends_with_prefix(s@, tag@, k as int),
                decreases k - i,
            {
                if s[at + i] != tag[i] {
                    same = false;
                    proof {
                        assert(s@.skip(s@.len() - k)[i as int] == s@[at + i]);
                        assert(tag@.take(k as int)[i as int] == tag@[i as int]);
                    }
                }
                i += 1;
            }
            if same {
                proof {
                    assert(s@.skip(s@.len() - k) =~= tag@.take(k as int));
                    hold_upto_is_longest(s@, tag@, k as int);
                }
                return k;
            }
        }
        k -= 1;
    }
    k
}

/// `<think>`.
pub open spec fn think_open() -> Seq<char> {
    "<think>"@
}

/// `</think>`.
pub open spec fn think_close() -> Seq<char> {
    "</think>"@
}

/// The tag that ends the span one is in.
pub open spec fn next_tag(inside: bool) -> Seq<char> {
    if inside {
        think_close()
    } else {
        think_open()
    }
}

/// What a text is split into: the text outside and inside the tags, the span that it
/// ends in, and the end that may be the beginning of a tag.
#[verifier::ext_equal]
pub struct SplitV {
    pub outside: Seq<char>,
    pub inside: Seq<char>,
    pub now_inside: bool,
    pub held: Seq<char>,
}

/// A split with a text put before it, in the span given.
pub open spec fn prepend(span_inside: bool, s: Seq<char>, rest: SplitV) -> SplitV {
    if span_inside {
        SplitV { inside: s + rest.inside, ..rest }
    } else {
        SplitV { outside: s + rest.outside, ..rest }
    }
}

/// The split of `s`, where `inside` says which span it begins in.
pub open spec fn split_text(inside: bool, s: Seq<char>) -> SplitV
    decreases s.len(),
    via split_text_terminates
{
    let tag = next_tag(inside);
    match find_from(s, tag, 0) {
        Some(i) => prepend(inside, s.take(i), split_text(!inside, s.skip(i + tag.len()))),
        None => {
            let n = s.len() - hold_len(s, tag);
            prepend(
                inside,
                s.take(n),
                SplitV {
                    outside: Seq::empty(),
                    inside: Seq::empty(),
                    now_inside: inside,
                    held: s.skip(n),
                },
            )
        },
    }
}

#[via_fn]
proof fn split_text_terminates(inside: bool, s: Seq<char>) {
    tag_lengths();
    find_from_is_first(s, next_tag(inside), 0);
}

proof fn tag_lengths()
    ensures
        think_open().len() == 7,
        think_close().len() == 8,
{
    reveal_strlit("<think>");
    reveal_strlit("</think>");
}

/// An occurrence in a text is the first one in every longer text.
pub proof fn find_in_longer(a: Seq<char>, b: Seq<char>, tag: Seq<char>)
    requires
        find_from(a, tag, 0) is Some,
    ensures
        find_from(a + b, tag, 0) == find_from(a, tag, 0),
{
    find_from_is_first(a, tag, 0);
    find_from_is_first(a + b, tag, 0);
    let i = find_from(a, tag, 0)->0;
    assert((a + b).subrange(i, i + tag.len()) =~= a.subrange(i, i + tag.len()));
    assert(occurs_at(a + b, tag, i));
    let j = find_from(a + b, tag, 0)->0;
    if j < i {
        assert((a + b).subrange(j, j + tag.len()) =~= a.subrange(j, j + tag.len()));
        assert(occurs_at(a, tag, j));
    }
}

/// Where a text holds no tag, a tag in a longer text begins in what was held back or
/// later.
pub proof fn find_after_hold(a: Seq<char>, b: Seq<char>, tag: Seq<char>)
    requires
        tag.len() > 0,
        find_from(a, tag, 0) is None,
    ensures
        ({
            let n = a.len() - hold_len(a, tag);
            let f = find_from(a.skip(n) + b, tag, 0);
            &&& 0 <= n <= a.len()
            &&& a.skip(n) + b == (a + b).skip(n)
            &&& f is Some ==> find_from(a + b, tag, 0) == Some(f->0 + n)
            &&& f is None ==> find_from(a + b, tag, 0) is None
        }),
{
    hold_len_is_longest(a, tag);
    let n = a.len() - hold_len(a, tag);
    let c = a + b;
    let d = a.skip(n) + b;
    assert(d =~= c.skip(n));
    find_from_is_first(a, tag, 0);
    find_from_is_first(c, tag, 0);
    find_from_is_first(d, tag, 0);
    assert forall|j: int| 0 <= j < n implies !occurs_at(c, tag, j) by {
        if occurs_at(c, tag, j) {
            if j + tag.len() <= a.len() {
                assert(c.subrange(j, j + tag.len()) =~= a.subrange(j, j + tag.len()));
                assert(occurs_at(a, tag, j));
            } else {
                let k = a.len() - j;
                assert(a.skip(a.len() - k) =~= tag.take(k)) by {
                    assert forall|x: int| 0 <= x < k implies a.skip(a.len() - k)[x] == tag.take(
                        k,
                    )[x] by {
                        assert(c.subrange(j, j + tag.len())[x] == c[j + x]);
                    }
                }
                assert(ends_with_prefix(a, tag, k));
            }
        }
    }
    assert forall|j: int| n <= j implies occurs_at(c, tag, j) == occurs_at(d, tag, j - n) by {
        if j + tag.len() <= c.len() {
            assert(c.subrange(j, j + tag.len()) =~= d.subrange(j - n, j - n + tag.len()));
        }
    }
    match find_from(d, tag, 0) {
        Some(i) => {
            assert(occurs_at(c, tag, i + n));
        },
        None => {
            match find_from(c, tag, 0) {
                Some(j) => {
                    assert(occurs_at(d, tag, j - n));
                },
                None => {},
            }
        },
    }
}

/// What is held back of a longer text lies in what was held back before and the new
/// piece.
pub proof fn hold_after_hold(a: Seq<char>, b: Seq<char>, tag: Seq<char>)
    requires
        tag.len() > 0,
    ensures
        hold_len(a + b, tag) == hold_len(a.skip(a.len() - hold_len(a, tag)) + b, tag),
{
    let n = a.len() - hold_len(a, tag);
    let c = a + b;
    let d = a.skip(n) + b;
    hold_len_is_longest(a, tag);
    hold_len_is_longest(c, tag);
    hold_len_is_longest(d, tag);
    assert(d =~= c.skip(n));
    let k = hold_len(c, tag);
    if k > d.len() {
        let j = k - b.len();
        assert(a.skip(a.len() - j) =~= tag.take(j)) by {
            assert forall|x: int| 0 <= x < j implies a.skip(a.len() - j)[x] == tag.take(j)[x] by {
                assert(c.skip(c.len() - k)[x] == tag.take(k)[x]);
            }
        }
        assert(ends_with_prefix(a, tag, j));
    } else {
        assert(d.skip(d.len() - k) =~= c.skip(c.len() - k));
        assert(ends_with_prefix(d, tag, k));
        let m = hold_len(d, tag);
        assert(d.skip(d.len() - m) =~= c.skip(c.len() - m));
        assert(ends_with_prefix(c, tag, m));
    }
}

/// Splitting a text whole and splitting it in two pieces come to the same: the texts
/// outside and inside are those of the pieces one after the other, and the same is held
/// back at the end. A tag cut by the pieces is found all the same.
#[verifier::spinoff_prover]
#[verifier::rlimit(60)]
pub proof fn split_in_pieces(inside: bool, a: Seq<char>, b: Seq<char>)
    ensures
        ({
            let x = split_text(inside, a);
            let y = split_text(x.now_inside, x.held + b);
            split_text(inside, a + b) == SplitV {
                outside: x.outside + y.outside,
                inside: x.inside + y.inside,
                now_inside: y.now_inside,
                held: y.held,
            }
        }),
    decreases a.len(),
{
    tag_lengths();
    let tag = next_tag(inside);
    find_from_is_first(a, tag, 0);
    let x = split_text(inside, a);
    let y = split_text(x.now_inside, x.held + b);
    let whole = split_text(inside, a + b);
    match find_from(a, tag, 0) {
        Some(i) => {
            find_in_longer(a, b, tag);
            assert((a + b).skip(i + tag.len()) =~= a.skip(i + tag.len()) + b);
            assert((a + b).take(i) =~= a.take(i));
            split_in_pieces(!inside, a.skip(i + tag.len()), b);
            let rest = split_text(!inside, a.skip(i + tag.len()));
            if inside {
                assert(a.take(i) + (rest.inside + y.inside) =~= (a.take(i) + rest.inside)
                    + y.inside);
            } else {
                assert(a.take(i) + (rest.outside + y.outside) =~= (a.take(i) + rest.outside)
                    + y.outside);
            }
        },
        None => {
            let n = a.len() - hold_len(a, tag);
            let d = a.skip(n) + b;
            find_after_hold(a, b, tag);
            hold_after_hold(a, b, tag);
            hold_len_is_longest(d, tag);
            find_from_is_first(d, tag, 0);
            assert(x.held == a.skip(n));
            let empty = Seq::<char>::empty();
            match find_from(d, tag, 0) {
                Some(j) => {
                    assert((a + b).skip(n + j + tag.len()) =~= d.skip(j + tag.len()));
                    let rest = split_text(!inside, d.skip(j + tag.len()));
                    if inside {
                        assert((a + b).take(n + j) + rest.inside =~= (a.take(n) + empty) + (d.take(
                            j,
                        ) + rest.inside));
                        assert(empty + rest.outside =~= rest.outside);
                    } else {
                        assert((a + b).take(n + j) + rest.outside =~= (a.take(n) + empty) + (d.take(
                            j,
                        ) + rest.outside));
                        assert(empty + rest.inside =~= rest.inside);
                    }
                },
                None => {
                    let k = d.len() - hold_len(d, tag);
                    assert((a + b).take(n + k) + empty =~= (a.take(n) + empty) + (d.take(k) + empty));
                    assert((a + b).skip(n + k) =~= d.skip(k));
                    assert(empty + empty =~= empty);
                },
            }
            assert(whole =~= SplitV {
                outside: x.outside + y.outside,
                inside: x.inside + y.inside,
                now_inside: y.now_inside,
                held: y.held,
            });
        },
    }
}

/// One piece split at the tags.
pub struct Split {
    /// The text outside the tags.
    pub outside: String,
    /// The text inside the tags.
    pub inside: String,
}

/// Pulls `<think>…</think>` spans out of a text that arrives in pieces.
pub struct TagSplitter {
    within: bool,
    buf: Vec<char>,
}

impl TagSplitter {
    /// Whether the text so far ends inside a span.
    pub closed spec fn span_inside(&self) -> bool {
        self.within
    }

    /// What is held back: the end of the text so far that may begin a tag.
    pub closed spec fn held(&self) -> Seq<char> {
        self.buf@
    }

    /// A splitter for `<think>` spans, outside any, with nothing held back.
    pub fn thinking() -> (r: TagSplitter)
        ensures
            !r.span_inside(),
            r.held() == Seq::<char>::empty(),
    {
        TagSplitter { within: false, buf: Vec::new() }
    }

    /// Takes the next piece and gives out the text that is settled.
    pub fn feed(&mut self, piece: &str) -> (r: Split)
        ensures
            ({
                let x = split_text(old(self).span_inside(), old(self).held() + piece@);
                &&& r.outside@ == x.outside
                &&& r.inside@ == x.inside
                &&& final(self).span_inside() == x.now_inside
                &&& final(self).held() == x.held
            }),
    {
        let ghost start = self.buf@ + piece@;
        let ghost first = self.within;
        let mut more = chars_of(piece);
        let mut s: Vec<char> = Vec::new();
        s.append(&mut self.buf);
        s.append(&mut more);
        let open = chars_of("<think>");
        let close = chars_of("</think>");
        let mut outside = String::new();
        let mut inside = String::new();
        let mut within: bool = self.within;
        proof {
            tag_lengths();
            assert(s@ =~= start);
            let x = split_text(within, s@);
            assert(outside@ + x.outside =~= x.outside);
            assert(inside@ + x.inside =~= x.inside);
        }
        loop
            invariant
                first == old(self).span_inside(),
                start == old(self).held() + piece@,
                open@ == think_open(),
                close@ == think_close(),
                think_open().len() == 7,
                think_close().len() == 8,
                ({
                    let x = split_text(within, s@);
                    split_text(first, start) == SplitV {
                        outside: outside@ + x.outside,
                        inside: inside@ + x.inside,
                        now_inside: x.now_inside,
                        held: x.held,
                    }
                }),
            decreases s@.len(),
        {
            let tag = if within {
                &close
            } else {
                &open
            };
            let ghost o0 = outside@;
            let ghost i0 = inside@;
            let ghost rest_split = split_text(within, s@);
            proof {
                find_from_is_first(s@, tag@, 0);
                hold_len_is_longest(s@, tag@);
            }
            match find_chars(&s, tag, 0) {
                Some(at) => {
                    let before = string_of(&s, 0, at);
                    if within {
                        inside.push_str(before.as_str());
                    } else {
                        outside.push_str(before.as_str());
                    }
                    let total: usize = s.len();
                    assert(at + tag@.len() <= total);
                    let next: usize = at + tag.len();
                    let rest = s.split_off(next);
                    proof {

                        let z = split_text(!within, rest@);
                        assert(rest_split == prepend(within, before@, z));
                        assert(o0 + (before@ + z.outside) =~= o0 + before@ + z.outside);
                        assert(i0 + (before@ + z.inside) =~= i0 + before@ + z.inside);
                    }
                    s = rest;
                    within = !within;
                },
                None => {
                    let hold = longest_tag_prefix_suffix(&s, tag);
                    let n: usize = s.len() - hold;
                    let before = string_of(&s, 0, n);
                    if within {
                        inside.push_str(before.as_str());
                    } else {
                        outside.push_str(before.as_str());
                    }
                    let rest = s.split_off(n);
                    proof {
                        let empty = Seq::<char>::empty();
                        assert(o0 + (before@ + empty) =~= o0 + before@);
                        assert(i0 + (before@ + empty) =~= i0 + before@);
                        assert(o0 + empty =~= o0);
                        assert(i0 + empty =~= i0);
                    }
                    self.within = within;
                    self.buf = rest;
                    return Split { outside, inside };
                },
            }
        }
    }

    /// The end of the text: gives out what was held back, which no tag can follow any
    /// more. The span that the text ended in stays known.
    pub fn flush(&mut self) -> (r: String)
        ensures
            r@ == old(self).held(),
            final(self).held() == Seq::<char>::empty(),
            final(self).span_inside() == old(self).span_inside(),
    {
        let r = string_all(&self.buf);
        self.buf = Vec::new();
        r
    }

    /// Whether the text so far ends inside a span.
    pub fn is_inside(&self) -> (r: bool)
        ensures
            r == self.span_inside(),
    {
        self.within
    }
}

/// A text that holds no `<`.
pub open spec fn has_no_tag(s: Seq<char>) -> bool {
    forall|k: int| 0 <= k < s.len() ==> #[trigger] s[k] != '<'
}

proof fn no_tag_is_found(s: Seq<char>, inside: bool)
    requires
        has_no_tag(s),
    ensures
        find_from(s, next_tag(inside), 0) is None,
        hold_len(s, next_tag(inside)) == 0,
{
    reveal_strlit("<think>");
    reveal_strlit("</think>");
    let tag = next_tag(inside);
    assert(tag[0] == '<');
    find_from_is_first(s, tag, 0);
    match find_from(s, tag, 0) {
        Some(i) => {
            assert(s.subrange(i, i + tag.len())[0] == s[i]);
        },
        None => {},
    }
    hold_len_is_longest(s, tag);
    let k = hold_len(s, tag);
    if k > 0 {
        assert(s.skip(s.len() - k)[0] == s[s.len() - k]);
        assert(tag.take(k)[0] == '<');
    }
}

/// A text without a tag stays whole in the span that it comes in: outside it is the answer,
/// inside it is the reasoning, and nothing of it is held back.
pub proof fn text_without_a_tag_stays_where_it_is(inside: bool, s: Seq<char>)
    requires
        has_no_tag(s),
    ensures
        split_text(inside, s).outside == (if inside {
            Seq::<char>::empty()
        } else {
            s
        }),
        split_text(inside, s).inside == (if inside {
            s
        } else {
            Seq::<char>::empty()
        }),
        split_text(inside, s).now_inside == inside,
        split_text(inside, s).held == Seq::<char>::empty(),
{
    no_tag_is_found(s, inside);
    assert(s.take(s.len() as int) =~= s);
    assert(s.skip(s.len() as int) =~= Seq::empty());
    assert(s + Seq::<char>::empty() =~= s);
}

proof fn found_after(s: Seq<char>, tag: Seq<char>, from: int, n: int)
    requires
        0 <= from <= n,
        occurs_at(s, tag, n),
        tag.len() > 0,
        forall|k: int| from <= k < n ==> #[trigger] s[k] != tag[0],
    ensures
        find_from(s, tag, from) == Some(n),
    decreases n - from,
{
    if from < n {
        if occurs_at(s, tag, from) {
            assert(s.subrange(from, from + tag.len())[0] == s[from]);
        }
        found_after(s, tag, from + 1, n);
    }
}

pub(crate) proof fn first_tag(a: Seq<char>, tag: Seq<char>, b: Seq<char>)
    requires
        has_no_tag(a),
        tag.len() > 0,
        tag[0] == '<',
    ensures
        find_from(a + tag + b, tag, 0) == Some(a.len() as int),
        (a + tag + b).take(a.len() as int) == a,
        (a + tag + b).skip(a.len() + tag.len() as int) == b,
{
    let s = a + tag + b;
    let n = a.len() as int;
    assert(s.subrange(n, n + tag.len()) =~= tag);
    assert(s.take(n) =~= a);
    assert(s.skip(n + tag.len()) =~= b);
    assert forall|k: int| 0 <= k < n implies #[trigger] s[k] != tag[0] by {
        assert(s[k] == a[k]);
    }
    found_after(s, tag, 0, n);
}

/// What stands between `<think>` and `</think>` is reasoning, what stands around it is the
/// answer, and the tags are neither.
pub proof fn tags_part_the_reasoning_from_the_answer(a: Seq<char>, b: Seq<char>, c: Seq<char>)
    requires
        has_no_tag(a),
        has_no_tag(b),
        has_no_tag(c),
    ensures
        split_text(false, a + "<think>"@ + b + "</think>"@ + c) == (SplitV {
            outside: a + c,
            inside: b,
            now_inside: false,
            held: Seq::empty(),
        }),
        split_text(false, a + "<think>"@ + b) == (SplitV {
            outside: a,
            inside: b,
            now_inside: true,
            held: Seq::empty(),
        }),
{
    reveal_strlit("<think>");
    reveal_strlit("</think>");
    let open = "<think>"@;
    let close = "</think>"@;
    let rest = b + close + c;
    let e = Seq::<char>::empty();
    assert(a + open + b + close + c =~= a + open + rest);
    first_tag(a, open, rest);
    first_tag(b, close, c);
    first_tag(a, open, b);
    text_without_a_tag_stays_where_it_is(false, c);
    text_without_a_tag_stays_where_it_is(true, b);
    assert(b + e =~= b);
    assert(a + e =~= a);
    assert(split_text(true, rest) == prepend(true, b, split_text(false, c)));
    assert(split_text(false, a + open + rest) == prepend(false, a, split_text(true, rest)));
}

} // verus!
