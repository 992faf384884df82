//! Structured answers of the in-process engine.

use crate::config::LocalEngineConfig;
use crate::json::{json_of_text, jsons, text_of_json, Json, JsonV};
use crate::local::provider::{pairs_model, PairV};
use crate::mcp::tools::{check_schema, schema_accepts, schema_compiles, Verdict};
use crate::text::{chars_of, decimal, decimal_text, join2, join3, owned, space, trim, trim_end, trimmed};
use vstd::prelude::*;

verus! {

/// The most tokens of one structured answer.
pub const MAX_TOKENS: i32 = 1024;

/// The in-process maker of structured answers.
#[derive(Debug, Clone)]
pub struct LocalSummarizer {
    pub local: LocalEngineConfig,
}

impl LocalSummarizer {
    pub fn new(local: LocalEngineConfig) -> (r: LocalSummarizer)
        ensures
            r.local == local,
    {
        LocalSummarizer { local }
    }

    /// Whether structured answers can be had at all.
    pub fn is_available(&self) -> (r: bool)
        ensures
            r == (self.local.enabled && trimmed(self.local.model_path@).len() > 0),
    {
        let t = trim(self.local.model_path.as_str());
        self.local.enabled && !t.as_str().is_empty()
    }
}

/// A message as a turn: of the user and empty where it does not say otherwise.
pub open spec fn turn_of(m: JsonV) -> PairV {
    (
        match m.text_at("role"@) {
            Some(s) => s,
            None => "user"@,
        },
        match m.text_at("content"@) {
            Some(s) => s,
            None => ""@,
        },
    )
}

/// The last turn: which JSON is asked for.
pub open spec fn schema_turn(schema: JsonV) -> PairV {
    ("user"@, "Respond with JSON only, matching this schema:\n"@ + text_of_json(schema))
}

/// The turns that the chat template renders: the messages, then which JSON is asked for.
pub fn summary_turns(messages: &[Json], schema: &Json) -> (r: Vec<(String, String)>)
    ensures
        pairs_model(r@) == jsons(messages@).map_values(|m: JsonV| turn_of(m)).push(
            schema_turn(schema@),
        ),
{
    let mut out: Vec<(String, String)> = Vec::new();
    let mut i: usize = 0;
    while i < messages.len()
        invariant
            i <= messages@.len(),
            out@.len() == i,
            forall|k: int|
                0 <= k < i ==> ((#[trigger] out@[k]).0@, out@[k].1@) == turn_of(messages@[k]@),
        decreases messages@.len() - i,
    {
        let role = match messages[i].get_str("role") {
            Some(s) => owned(s),
            None => owned("user"),
        };
        let content = match messages[i].get_str("content") {
            Some(s) => owned(s),
            None => owned(""),
        };
        out.push((role, content));
        i += 1;
    }
    let text = schema.print();
    out.push((owned("user"), join2("Respond with JSON only, matching this schema:\n", text.as_str())));
    proof {
        assert(pairs_model(out@) =~= jsons(messages@).map_values(|m: JsonV| turn_of(m)).push(
            schema_turn(schema@),
        ));
    }
    out
}

/// How many tokens a structured answer may take after a prompt that leaves room.
pub open spec fn room_for(prompt_tokens: int, n_ctx: int) -> int {
    if n_ctx - prompt_tokens < MAX_TOKENS {
        n_ctx - prompt_tokens
    } else {
        MAX_TOKENS as int
    }
}

/// Why a prompt gets no structured answer: it is empty, or leaves no room.
pub open spec fn no_room(prompt_tokens: int, n_ctx: int) -> Seq<char> {
    if prompt_tokens == 0 {
        "prompt tokenized to nothing"@
    } else {
        "prompt ("@ + decimal(prompt_tokens as nat) + " tokens) does not fit the "@ + decimal(
            n_ctx as nat,
        ) + "-token context"@
    }
}

/// How many tokens a structured answer may take; an error where the prompt is empty or
/// leaves no room. The size of a context is counted in 32 bits with a sign, so that a larger
/// one has no room.
pub fn summary_budget(prompt_tokens: usize, n_ctx: u32) -> (r: Result<i32, String>)
    ensures
        if prompt_tokens == 0 || prompt_tokens >= n_ctx || n_ctx > i32::MAX {
            r matches Err(m) && m@ == no_room(prompt_tokens as int, n_ctx as int)
        } else {
            r matches Ok(n) && n == room_for(prompt_tokens as int, n_ctx as int)
        },
{
    if prompt_tokens == 0 {
        return Err(owned("prompt tokenized to nothing"));
    }
    let ctx: u64 = n_ctx as u64;
    let prompt: u64 = prompt_tokens as u64;
    if prompt >= ctx || n_ctx > i32::MAX as u32 {
        let a = decimal_text(prompt);
        let mut m = join3("prompt (", a.as_str(), " tokens) does not fit the ");
        let b = decimal_text(ctx);
        m.push_str(b.as_str());
        m.push_str("-token context");
        return Err(m);
    }
    let room: u64 = ctx - prompt;
    if room < 1024 {
        Ok(room as i32)
    } else {
        Ok(MAX_TOKENS)
    }
}

/// The text may be a complete document: it ends in a closing brace.
pub open spec fn looks_closed(out: Seq<char>) -> bool {
    let t = trim_end(out);
    t.len() > 0 && t.last() == '}'
}

fn closes(out: &str) -> (r: bool)
    ensures
        r == looks_closed(out@),
{
    let c = chars_of(out);
    let mut to: usize = c.len();
    proof {
        assert(out@.take(to as int) =~= out@);
    }
    while to > 0 && space(c[to - 1])
        invariant
            to <= c@.len(),
            c@ == out@,
            trim_end(out@) == trim_end(out@.take(to as int)),
        decreases to,
    {
        proof {
            assert(out@.take(to as int).drop_last() =~= out@.take(to - 1));
        }
        to -= 1;
    }
    to > 0 && c[to - 1] == '}'
}

/// The text is a complete JSON document.
pub open spec fn is_document(out: Seq<char>) -> bool {
    looks_closed(out) && json_of_text(trimmed(out)) is Some
}

/// Whether a generation can stop: the text is a complete JSON document. What a model
/// appends after it is not waited for.
pub fn is_complete_document(out: &str) -> (r: bool)
    ensures
        r == is_document(out@),
{
    if !closes(out) {
        return false;
    }
    let t = trim(out);
    Json::parse(t.as_str()).is_ok()
}

/// Whether a value meets a schema. A schema that cannot be used refuses nothing.
pub fn validates(value: &Json, schema: &Json) -> (r: bool)
    ensures
        r == (!schema_compiles(schema@) || schema_accepts(schema@, value@)),
{
    let s = schema.to_value();
    let v = value.to_value();
    match check_schema(&s, &v) {
        Verdict::NoSchema => true,
        Verdict::Accepted => true,
        Verdict::Refused(_, _) => false,
    }
}

/// What is known of a structured answer while it is made.
#[verifier::ext_equal]
pub struct TextV {
    /// How many tokens the prompt has.
    pub prompt: int,
    /// How many tokens the answer may take.
    pub budget: int,
    /// How many it has taken.
    pub made: int,
    /// Its text.
    pub out: Seq<char>,
    /// Nothing more is waited for.
    pub ended: bool,
}

impl TextV {
    /// Another token is to be sampled.
    pub open spec fn wants_more(self) -> bool {
        !self.ended && self.made < self.budget
    }

    /// One token read: its text, or none where the model ended the answer.
    pub open spec fn read(self, piece: Option<Seq<char>>) -> TextV {
        if !self.wants_more() {
            self
        } else {
            match piece {
                None => TextV { ended: true, ..self },
                Some(p) => TextV {
                    made: self.made + 1,
                    out: self.out + p,
                    ended: is_document(self.out + p),
                    ..self
                },
            }
        }
    }

    /// All of some tokens read.
    pub open spec fn read_all(self, pieces: Seq<Option<Seq<char>>>) -> TextV
        decreases pieces.len(),
    {
        if pieces.len() == 0 {
            self
        } else {
            self.read(pieces[0]).read_all(pieces.skip(1))
        }
    }
}

/// An answer that has ended, or used its tokens up, stays as it is. So the text ends with the
/// first piece that completes a document.
pub proof fn an_ended_answer_stays(v: TextV, pieces: Seq<Option<Seq<char>>>)
    requires
        !v.wants_more(),
    ensures
        v.read_all(pieces) == v,
    decreases pieces.len(),
{
    if pieces.len() > 0 {
        an_ended_answer_stays(v, pieces.skip(1));
    }
}

/// An answer never takes more tokens than it may, and keeps what it held.
pub proof fn answers_keep_to_their_budget(v: TextV, pieces: Seq<Option<Seq<char>>>)
    requires
        v.made <= v.budget,
    ensures
        v.made <= v.read_all(pieces).made <= v.budget,
        v.out.is_prefix_of(v.read_all(pieces).out),
        v.read_all(pieces).budget == v.budget,
    decreases pieces.len(),
{
    if pieces.len() > 0 {
        let w = v.read(pieces[0]);
        answers_keep_to_their_budget(w, pieces.skip(1));
        let end = w.read_all(pieces.skip(1)).out;
        assert(v.out =~= w.out.take(v.out.len() as int));
        assert(v.out =~= end.take(v.out.len() as int)) by {
            assert(w.out =~= end.take(w.out.len() as int));
        }
    }
}

/// A structured answer while it is made, token by token.
pub struct SummaryText {
    prompt: i32,
    budget: i32,
    made: i32,
    out: String,
    ended: bool,
}

impl View for SummaryText {
    type V = TextV;

    closed spec fn view(&self) -> TextV {
        TextV {
            prompt: self.prompt as int,
            budget: self.budget as int,
            made: self.made as int,
            out: self.out@,
            ended: self.ended,
        }
    }
}

impl SummaryText {
    /// No more tokens than may be, and all in a context.
    pub closed spec fn wf(&self) -> bool {
        &&& 0 < self.prompt
        &&& 0 <= self.made <= self.budget
        &&& self.prompt + self.budget <= i32::MAX
    }

    /// An answer with nothing made yet; an error where the prompt is empty or leaves no room.
    pub fn begin(prompt_tokens: usize, n_ctx: u32) -> (r: Result<SummaryText, String>)
        ensures
            match r {
                Ok(t) => {
                    &&& t.wf()
                    &&& 0 < prompt_tokens < n_ctx <= i32::MAX
                    &&& t@ == (TextV {
                        prompt: prompt_tokens as int,
                        budget: room_for(prompt_tokens as int, n_ctx as int),
                        made: 0,
                        out: ""@,
                        ended: false,
                    })
                },
                Err(m) => {
                    &&& prompt_tokens == 0 || prompt_tokens >= n_ctx || n_ctx > i32::MAX
                    &&& m@ == no_room(prompt_tokens as int, n_ctx as int)
                },
            },
    {
        match summary_budget(prompt_tokens, n_ctx) {
            Ok(budget) => Ok(
                SummaryText {
                    prompt: prompt_tokens as i32,
                    budget,
                    made: 0,
                    out: owned(""),
                    ended: false,
                },
            ),
            Err(m) => Err(m),
        }
    }

    /// Whether another token is to be sampled.
    pub fn wants_more(&self) -> (r: bool)
        ensures
            r == self@.wants_more(),
    {
        !self.ended && self.made < self.budget
    }

    /// The place of the next token in the context.
    pub fn position(&self) -> (r: i32)
        requires
            self.wf(),
        ensures
            r == self@.prompt + self@.made,
    {
        self.prompt + self.made
    }

    /// Reads a token: its text, or none where the model ended the answer. Whether the token
    /// is to be decoded, as more is waited for.
    pub fn read(&mut self, piece: Option<&str>) -> (r: bool)
        requires
            old(self).wf(),
        ensures
            final(self).wf(),
            final(self)@ == old(self)@.read(
                match piece {
                    Some(p) => Some(p@),
                    None => None,
                },
            ),
            r == (old(self)@.wants_more() && !final(self)@.ended),
    {
        if !self.wants_more() {
            return false;
        }
        match piece {
            None => {
                self.ended = true;
                false
            },
            Some(p) => {
                self.out.push_str(p);
                self.made += 1;
                self.ended = is_complete_document(self.out.as_str());
                !self.ended
            },
        }
    }

    /// The text.
    pub fn finish(self) -> (r: String)
        ensures
            r@ == self@.out,
    {
        self.out
    }
}

/// How an attempt samples.
#[derive(Debug, Clone, Copy, PartialEq, Eq, Structural)]
pub enum Attempt {
    /// As it is configured.
    Configured,
    /// Hotter, to leave a poor answer behind.
    Burn,
    /// The most likely token each time.
    Greedy,
}

/// What an attempt gave.
pub enum Outcome {
    /// It failed, for a reason.
    Failed(String),
    /// Its text holds no JSON.
    NoJson,
    /// Its text holds a value, and whether that meets the schema.
    Value(Json, bool),
}

/// What follows an attempt.
pub enum Next {
    /// The value is the answer.
    Done(Json),
    /// Another attempt.
    Again(Attempt),
    /// No attempt is left; the reason.
    GiveUp(String),
}

/// The attempts at one structured answer.
pub struct SummaryChain {
    tried: u8,
}

/// Why an attempt gave no answer.
pub open spec fn reason(o: Outcome) -> Seq<char> {
    match o {
        Outcome::Failed(e) => e@,
        Outcome::NoJson => "output was not JSON"@,
        Outcome::Value(_, _) => "output did not match the schema"@,
    }
}

/// What follows an attempt, after so many.
pub open spec fn is_next(r: Next, made: int, outcome: Outcome) -> bool {
    match outcome {
        Outcome::Value(v, true) => r matches Next::Done(j) && j@ == v@,
        _ => if made == 0 {
            r matches Next::Again(a) && a == Attempt::Burn
        } else if made == 1 {
            r matches Next::Again(a) && a == Attempt::Greedy
        } else {
            r matches Next::GiveUp(m) && m@
                == "local summarizer produced no schema-valid JSON after 3 attempts: "@ + reason(
                outcome,
            )
        },
    }
}

impl SummaryChain {
    /// How many attempts were made.
    pub closed spec fn made(&self) -> int {
        self.tried as int
    }

    /// No attempt made yet; how to make the first.
    pub fn new() -> (r: (SummaryChain, Attempt))
        ensures
            r.0.made() == 0,
            r.1 == Attempt::Configured,
    {
        (SummaryChain { tried: 0 }, Attempt::Configured)
    }

    /// What follows an attempt: a value that meets the schema is the answer; else there are
    /// three attempts in all.
    pub fn next(&mut self, outcome: Outcome) -> (r: Next)
        requires
            old(self).made() < 3,
        ensures
            final(self).made() == old(self).made() + 1,
            is_next(r, old(self).made(), outcome),
    {
        let before: u8 = self.tried;
        self.tried = before + 1;
        let why = match outcome {
            Outcome::Failed(e) => e,
            Outcome::NoJson => owned("output was not JSON"),
            Outcome::Value(v, fits) => {
                if fits {
                    return Next::Done(v);
                }
                owned("output did not match the schema")
            },
        };
        if before == 0 {
            Next::Again(Attempt::Burn)
        } else if before == 1 {
            Next::Again(Attempt::Greedy)
        } else {
            Next::GiveUp(
                join2(
                    "local summarizer produced no schema-valid JSON after 3 attempts: ",
                    why.as_str(),
                ),
            )
        }
    }
}

/// A message is a turn of its role with its text, and of the user with none where it does not
/// say; the last turn asks for JSON of the schema.
pub proof fn messages_are_turns(m: JsonV, schema: JsonV)
    ensures
        turn_of(m).0 == (match m.at("role"@) {
            JsonV::Str(s) => s,
            _ => "user"@,
        }),
        turn_of(m).1 == (match m.at("content"@) {
            JsonV::Str(s) => s,
            _ => ""@,
        }),
        schema_turn(schema).0 == "user"@,
        schema_turn(schema).1 == "Respond with JSON only, matching this schema:\n"@ + text_of_json(
            schema,
        ),
{
}

/// An answer may take what the prompt leaves of the context, and 1024 tokens at most; with its
/// prompt it never leaves the context.
pub proof fn answers_have_room(prompt_tokens: int, n_ctx: int)
    requires
        0 < prompt_tokens < n_ctx,
    ensures
        0 < room_for(prompt_tokens, n_ctx) <= 1024,
        prompt_tokens + room_for(prompt_tokens, n_ctx) <= n_ctx,
        room_for(prompt_tokens, n_ctx) == 1024 || prompt_tokens + room_for(prompt_tokens, n_ctx)
            == n_ctx,
{
}

/// Why a prompt has no room: it is empty, or it does not fit, and then both sizes are told.
pub proof fn prompts_without_room_say_why(prompt_tokens: nat, n_ctx: nat)
    ensures
        no_room(0, n_ctx as int) == "prompt tokenized to nothing"@,
        prompt_tokens > 0 ==> no_room(prompt_tokens as int, n_ctx as int) == "prompt ("@ + decimal(
            prompt_tokens,
        ) + " tokens) does not fit the "@ + decimal(n_ctx) + "-token context"@,
{
}

/// Each piece is added to the text, and counted; the answer ends with the piece that completes
/// a JSON document, and where the model ends it.
pub proof fn pieces_are_added(v: TextV, p: Seq<char>)
    requires
        !v.ended,
        v.made < v.budget,
    ensures
        v.wants_more(),
        v.read(Some(p)).out == v.out + p,
        v.read(Some(p)).made == v.made + 1,
        v.read(Some(p)).ended <==> (trim_end(v.out + p).len() > 0 && trim_end(v.out + p).last()
            == '}' && json_of_text(trimmed(v.out + p)) is Some),
        v.read(None).ended,
        v.read(None).out == v.out,
        v.read(None).made == v.made,
        v.read(Some(p)).prompt == v.prompt && v.read(Some(p)).budget == v.budget,
        !v.read(None).wants_more(),
{
}

/// Why an attempt gave no answer.
pub proof fn attempts_say_why(e: String, j: Json)
    ensures
        reason(Outcome::Failed(e)) == e@,
        reason(Outcome::NoJson) == "output was not JSON"@,
        reason(Outcome::Value(j, false)) == "output did not match the schema"@,
{
}

/// A value that meets the schema is the answer at once; else it is tried hotter, then coldest,
/// and after the third attempt given up.
pub proof fn valid_answers_end_the_attempts(r: Next, made: int, outcome: Outcome)
    requires
        is_next(r, made, outcome),
        0 <= made < 3,
    ensures
        outcome matches Outcome::Value(v, true) ==> (r matches Next::Done(j) && j@ == v@),
        r is Done ==> (outcome matches Outcome::Value(_, fits) && fits),
        !(r is Done) && made == 0 ==> r == Next::Again(Attempt::Burn),
        !(r is Done) && made == 1 ==> r == Next::Again(Attempt::Greedy),
        !(r is Done) && made == 2 ==> r is GiveUp,
{
}

} // verus!
