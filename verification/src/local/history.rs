//! What was called, as a later prompt shows it and as it is read from there.

use crate::json::{is_plain, json_of_text, raw_key, reads_as_member, text_of_json, JsonV};
use crate::local::provider::{assistant_text, message_text, shown_call, with_calls};
use crate::local::tools::{read_span, scan_text, span_calls, span_errors, tool_function, CallV, ScanV, CLOSE, OPEN};
use crate::provider::tag_split::hold_len_is_longest;
use crate::text::{contains_text, debug_text, escaped, find_from, find_from_is_first, is_printable, occurs_at, quoted, trim_end, trim_start};
use vstd::prelude::*;

verus! {

/// What a tool call of a message says: a name, and arguments where there are any.
pub open spec fn call_of(call: JsonV) -> Option<CallV> {
    let f = tool_function(call);
    match f.text_at("name"@) {
        Some(name) => Some(
            CallV {
                name,
                arguments: match f.get("arguments"@) {
                    Some(a) => a,
                    None => JsonV::empty(),
                },
            },
        ),
        None => None,
    }
}

/// A call of a known tool in plain characters, whose arguments are an object, and in whose
/// texts no tag closes.
pub open spec fn is_clean_call(call: JsonV, names: Seq<Seq<char>>) -> bool {
    match call_of(call) {
        Some(c) => {
            &&& names.contains(c.name)
            &&& is_printable(c.name)
            &&& c.arguments is Obj
            &&& is_plain(c.arguments, 126)
            &&& !contains_text(quoted(c.name), CLOSE@)
            &&& !contains_text(text_of_json(c.arguments), CLOSE@)
        },
        None => false,
    }
}

/// The text between the tags of a call that is shown.
pub open spec fn call_body(c: CallV) -> Seq<char> {
    "{\"name\": "@ + debug_text(c.name) + ", \"arguments\": "@ + text_of_json(c.arguments) + "}"@
}

/// A printable name is shown in quotes.
pub open spec fn shows_name(name: Seq<char>) -> bool {
    is_printable(name) ==> debug_text(name) == quoted(name)
}

/// What is said of a call that was shown.
pub open spec fn was_shown(call: JsonV) -> bool {
    call_of(call) matches Some(c) ==> shows_name(c.name) && reads_as_member(c.arguments)
}

proof fn literals()
    ensures
        "{\"name\": "@ =~= seq!['{', '"', 'n', 'a', 'm', 'e', '"', ':', ' '],
        ", \"arguments\": "@ =~= seq![
            ',',
            ' ',
            '"',
            'a',
            'r',
            'g',
            'u',
            'm',
            'e',
            'n',
            't',
            's',
            '"',
            ':',
            ' ',
        ],
        "name"@ =~= seq!['n', 'a', 'm', 'e'],
        "arguments"@ =~= seq!['a', 'r', 'g', 'u', 'm', 'e', 'n', 't', 's'],
        "{"@ =~= seq!['{'],
        "}"@ =~= seq!['}'],
        ": "@ =~= seq![':', ' '],
        ", "@ =~= seq![',', ' '],
        "\n"@ =~= seq!['\n'],
        OPEN@ =~= seq!['<', 't', 'o', 'o', 'l', '_', 'c', 'a', 'l', 'l', '>'],
        CLOSE@ =~= seq!['<', '/', 't', 'o', 'o', 'l', '_', 'c', 'a', 'l', 'l', '>'],
{
    reveal_strlit("{\"name\": ");
    reveal_strlit(", \"arguments\": ");
    reveal_strlit("name");
    reveal_strlit("arguments");
    reveal_strlit("{");
    reveal_strlit("}");
    reveal_strlit(": ");
    reveal_strlit(", ");
    reveal_strlit("\n");
    reveal_strlit("<tool_call>");
    reveal_strlit("</tool_call>");
}

proof fn nothing_to_escape(s: Seq<char>)
    requires
        forall|i: int| 0 <= i < s.len() ==> #[trigger] s[i] != '"' && s[i] != '\\',
    ensures
        escaped(s) == s,
    decreases s.len(),
{
    if s.len() > 0 {
        nothing_to_escape(s.drop_last());
        assert(s.drop_last().push(s.last()) =~= s);
    } else {
        assert(escaped(s) =~= s);
    }
}

/// The body of a clean call says the call.
proof fn body_says_the_call(call: JsonV, names: Seq<Seq<char>>)
    requires
        is_clean_call(call, names),
        was_shown(call),
    ensures
        read_span(call_body(call_of(call)->0), names) == Ok::<CallV, Seq<char>>(call_of(call)->0),
{
    literals();
    let c = call_of(call)->0;
    let body = call_body(c);
    nothing_to_escape("name"@);
    nothing_to_escape("arguments"@);
    let head = crate::json::pair_head("name"@, c.name, "arguments"@);
    assert(head + text_of_json(c.arguments) + "}"@ =~= body);
    reveal_strlit("$serde_json::private::RawValue");
    assert(raw_key().len() != "name"@.len());
    assert(is_printable("name"@));
    assert(is_printable("arguments"@));
    let said = Map::<Seq<char>, JsonV>::empty().insert("name"@, JsonV::Str(c.name)).insert(
        "arguments"@,
        c.arguments,
    );
    assert(json_of_text(body) == Some(JsonV::Obj(said)));
    assert("name"@.len() != "arguments"@.len());
    assert(body[0] == '{');
    assert(body.last() == '}');
    assert(trim_start(body) == body);
    assert(trim_end(body) == body);
}

/// No tag closes in the body of a clean call.
proof fn no_tag_closes_in_the_body(call: JsonV, names: Seq<Seq<char>>)
    requires
        is_clean_call(call, names),
        was_shown(call),
    ensures
        !contains_text(call_body(call_of(call)->0), CLOSE@),
        call_body(call_of(call)->0).len() > 0,
        call_body(call_of(call)->0).last() == '}',
{
    literals();
    let c = call_of(call)->0;
    let q = quoted(c.name);
    let t = text_of_json(c.arguments);
    let a = "{\"name\": "@;
    let b = ", \"arguments\": "@;
    let body = call_body(c);
    assert(body == a + q + b + t + "}"@);
    let from_q = a.len() as int;
    let from_b = from_q + q.len();
    let from_t = from_b + b.len();
    let end = from_t + t.len();
    assert(body.len() == end + 1);
    if contains_text(body, CLOSE@) {
        let i = choose|i: int| occurs_at(body, CLOSE@, i);
        let w = body.subrange(i, i + CLOSE@.len());
        assert(w == CLOSE@);
        assert(body[i] == w[0]);
        assert(body[i] == '<');
        if i < from_q {
            assert(body[i] == a[i]);
        } else if i < from_b {
            assert(body[i] == q[i - from_q]);
            if i + CLOSE@.len() <= from_b {
                assert(q.subrange(i - from_q, i - from_q + CLOSE@.len()) =~= w);
                assert(occurs_at(q, CLOSE@, i - from_q));
            } else {
                assert(q.last() == '"');
                assert(body[from_b - 1] == q.last());
                assert(w[from_b - 1 - i] == '"');
                assert(CLOSE@[from_b - 1 - i] == '"');
            }
        } else if i < from_t {
            assert(body[i] == b[i - from_b]);
        } else if i < end {
            if i + CLOSE@.len() <= end {
                assert(t.subrange(i - from_t, i - from_t + CLOSE@.len()) =~= w);
                assert(occurs_at(t, CLOSE@, i - from_t));
            } else {
                assert(body[end] == '}');
                assert(w[end - i] == '}');
                assert(CLOSE@[end - i] == '}');
            }
        }
    }
}

proof fn scan_of_nothing()
    ensures
        scan_text(Seq::empty()) == (ScanV {
            text: Seq::empty(),
            spans: Seq::empty(),
            held: Seq::empty(),
        }),
{
    literals();
    let s = Seq::<char>::empty();
    find_from_is_first(s, OPEN@, 0);
    hold_len_is_longest(s, OPEN@);
    assert(scan_text(s) =~= (ScanV {
        text: Seq::empty(),
        spans: Seq::empty(),
        held: Seq::empty(),
    }));
}

proof fn tags()
    ensures
        OPEN@.len() == 11,
        OPEN@[0] == '<',
        CLOSE@.len() == 12,
        forall|i: int| 0 <= i < CLOSE@.len() ==> #[trigger] CLOSE@[i] != '}',
        "\n"@ == seq!['\n'],
{
    literals();
}

/// The first tag that opens stands after the line feed.
proof fn opens_after(before: Seq<char>, rest: Seq<char>)
    requires
        before.len() == 0 || before == "\n"@,
    ensures
        find_from(before + (OPEN@ + rest), OPEN@, 0) == Some(before.len() as int),
{
    tags();
    let s = before + (OPEN@ + rest);
    let n = before.len() as int;
    assert(s.subrange(n, n + OPEN@.len()) =~= OPEN@);
    assert(occurs_at(s, OPEN@, n));
    if n > 0 {
        assert(before.len() == 1);
        assert(s[0] == before[0]);
        assert(!occurs_at(s, OPEN@, 0)) by {
            if occurs_at(s, OPEN@, 0) {
                let w = s.subrange(0, OPEN@.len() as int);
                assert(w[0] == s[0]);
            }
        }
        assert(find_from(s, OPEN@, 1) == Some(1int));
        assert(find_from(s, OPEN@, 0) == find_from(s, OPEN@, 1));
    }
}

/// The first tag that closes stands after the body.
proof fn closes_after(body: Seq<char>)
    requires
        !contains_text(body, CLOSE@),
        body.len() > 0,
        body.last() == '}',
    ensures
        find_from(body + CLOSE@, CLOSE@, 0) == Some(body.len() as int),
{
    tags();
    let after = body + CLOSE@;
    let m = body.len() as int;
    assert(after.subrange(m, m + CLOSE@.len()) =~= CLOSE@);
    assert(occurs_at(after, CLOSE@, m));
    assert forall|j: int| 0 <= j < m implies !occurs_at(after, CLOSE@, j) by {
        if occurs_at(after, CLOSE@, j) {
            let w = after.subrange(j, j + CLOSE@.len());
            if j + CLOSE@.len() <= m {
                assert(body.subrange(j, j + CLOSE@.len()) =~= w);
                assert(occurs_at(body, CLOSE@, j));
            } else {
                assert(after[m - 1] == '}');
                assert(w[m - 1 - j] == '}');
                assert(CLOSE@[m - 1 - j] == '}');
            }
        }
    }
    find_from_is_first(after, CLOSE@, 0);
}

/// A body in its tags, after a line feed or nothing, is one span.
proof fn scan_of_one(before: Seq<char>, body: Seq<char>)
    requires
        before.len() == 0 || before == "\n"@,
        !contains_text(body, CLOSE@),
        body.len() > 0,
        body.last() == '}',
    ensures
        scan_text(before + (OPEN@ + body + CLOSE@)) == (ScanV {
            text: before,
            spans: seq![body],
            held: Seq::empty(),
        }),
{
    let s = before + (OPEN@ + body + CLOSE@);
    let n = before.len() as int;
    let m = body.len() as int;
    assert(s =~= before + (OPEN@ + (body + CLOSE@)));
    opens_after(before, body + CLOSE@);
    closes_after(body);
    let after = s.skip(n + OPEN@.len());
    assert(after =~= body + CLOSE@);
    assert(after.take(m) =~= body);
    assert(after.skip(m + CLOSE@.len()) =~= Seq::empty());
    scan_of_nothing();
    assert(s.take(n) + Seq::<char>::empty() =~= before);
    assert(seq![body] + Seq::<Seq<char>>::empty() =~= seq![body]);
}

/// The bodies of calls.
pub open spec fn bodies(calls: Seq<JsonV>) -> Seq<Seq<char>> {
    calls.map_values(|c: JsonV| call_body(call_of(c)->0))
}

/// What calls say.
pub open spec fn said_calls(calls: Seq<JsonV>) -> Seq<CallV> {
    calls.map_values(|c: JsonV| call_of(c)->0)
}

/// Nothing but line feeds.
pub open spec fn is_line_feeds(s: Seq<char>) -> bool {
    forall|i: int| 0 <= i < s.len() ==> #[trigger] s[i] == '\n'
}

/// The text of a turn is read as the calls: all of them, in order, and nothing else.
pub open spec fn reads_as_calls(
    text: Seq<char>,
    calls: Seq<JsonV>,
    names: Seq<Seq<char>>,
) -> bool {
    let x = scan_text(text);
    &&& span_calls(x.spans, names) == said_calls(calls)
    &&& span_errors(x.spans, names).len() == 0
    &&& is_line_feeds(x.text)
    &&& x.held.len() == 0
}

proof fn shown_calls_scan(calls: Seq<JsonV>, names: Seq<Seq<char>>)
    requires
        forall|i: int|
            0 <= i < calls.len() ==> is_clean_call(#[trigger] calls[i], names) && was_shown(
                calls[i],
            ),
    ensures
        scan_text(with_calls(Seq::empty(), calls)).spans == bodies(calls),
        scan_text(with_calls(Seq::empty(), calls)).held.len() == 0,
        is_line_feeds(scan_text(with_calls(Seq::empty(), calls)).text),
    decreases calls.len(),
{
    literals();
    let all = with_calls(Seq::empty(), calls);
    if calls.len() == 0 {
        scan_of_nothing();
        assert(bodies(calls) =~= Seq::empty());
    } else {
        let prev = calls.drop_last();
        let before = with_calls(Seq::empty(), prev);
        let call = calls.last();
        let body = call_body(call_of(call)->0);
        assert forall|i: int| 0 <= i < prev.len() implies is_clean_call(#[trigger] prev[i], names)
            && was_shown(prev[i]) by {
            assert(prev[i] == calls[i]);
        }
        assert(is_clean_call(calls[calls.len() - 1], names));
        shown_calls_scan(prev, names);
        no_tag_closes_in_the_body(call, names);
        let gap = if before.len() > 0 {
            "\n"@
        } else {
            Seq::empty()
        };
        assert(shown_call(call) =~= OPEN@ + body + CLOSE@);
        scan_of_one(gap, body);
        let tail = gap + (OPEN@ + body + CLOSE@);
        assert(all =~= before + tail);
        crate::local::tools::scan_in_pieces(before, tail);
        let x = scan_text(before);
        assert(x.held + tail =~= tail);
        assert(bodies(calls) =~= bodies(prev).push(body));
        assert(x.spans + seq![body] =~= bodies(prev).push(body));
    }
}

proof fn bodies_say_the_calls(calls: Seq<JsonV>, names: Seq<Seq<char>>)
    requires
        forall|i: int|
            0 <= i < calls.len() ==> is_clean_call(#[trigger] calls[i], names) && was_shown(
                calls[i],
            ),
    ensures
        span_calls(bodies(calls), names) == said_calls(calls),
        span_errors(bodies(calls), names).len() == 0,
    decreases calls.len(),
{
    if calls.len() > 0 {
        let prev = calls.drop_last();
        assert forall|i: int| 0 <= i < prev.len() implies is_clean_call(#[trigger] prev[i], names)
            && was_shown(prev[i]) by {
            assert(prev[i] == calls[i]);
        }
        assert(is_clean_call(calls[calls.len() - 1], names));
        bodies_say_the_calls(prev, names);
        body_says_the_call(calls.last(), names);
        assert(bodies(calls).drop_last() =~= bodies(prev));
        assert(said_calls(calls) =~= said_calls(prev).push(call_of(calls.last())->0));
    } else {
        assert(said_calls(calls) =~= Seq::empty());
    }
}

/// A turn that only made clean calls is read back, once it was shown, as the calls that were
/// made.
proof fn shown_calls_are_read_again(calls: Seq<JsonV>, names: Seq<Seq<char>>)
    requires
        forall|i: int|
            0 <= i < calls.len() ==> is_clean_call(#[trigger] calls[i], names) && was_shown(
                calls[i],
            ),
    ensures
        reads_as_calls(with_calls(Seq::empty(), calls), calls, names),
{
    shown_calls_scan(calls, names);
    bodies_say_the_calls(calls, names);
}

/// A message of the assistant that says nothing and makes clean calls.
pub open spec fn only_calls(m: JsonV, names: Seq<Seq<char>>) -> bool {
    &&& m.text_at("role"@) == Some("assistant"@)
    &&& message_text(m).len() == 0
    &&& m.at("tool_calls"@) matches JsonV::Arr(calls) && forall|i: int|
        0 <= i < calls.len() ==> is_clean_call(#[trigger] calls[i], names)
}

/// A message that only makes calls is shown as a turn that is read as those calls.
pub open spec fn turn_is_read_again(m: JsonV, names: Seq<Seq<char>>) -> bool {
    only_calls(m, names) ==> reads_as_calls(assistant_text(m), m.at("tool_calls"@)->Arr_0, names)
}

/// What is said of the calls of a message that was shown.
pub open spec fn calls_were_shown(m: JsonV) -> bool {
    m.at("tool_calls"@) matches JsonV::Arr(calls) ==> forall|i: int|
        0 <= i < calls.len() ==> was_shown(#[trigger] calls[i])
}

/// A message whose calls were shown is read again.
pub(crate) proof fn shown_turns_are_read_again(m: JsonV, names: Seq<Seq<char>>)
    requires
        calls_were_shown(m),
    ensures
        turn_is_read_again(m, names),
{
    if only_calls(m, names) {
        let calls = m.at("tool_calls"@)->Arr_0;
        assert(message_text(m) =~= Seq::empty());
        shown_calls_are_read_again(calls, names);
    }
}

/// A call of a message says the name and the arguments of its function; without arguments they
/// are none, and without a name it is no call.
pub proof fn calls_say_their_function(call: JsonV)
    ensures
        call.at("function"@) is Obj ==> (call.at("function"@).at("name"@) matches JsonV::Str(name)
            ==> (call_of(call) matches Some(c) && c.name == name && (call.at("function"@).get(
            "arguments"@,
        ) matches Some(a) ==> c.arguments == a) && (call.at("function"@).get("arguments"@) is None
            ==> c.arguments == JsonV::empty()))),
{
}

} // verus!
