//! One generation of the in-process engine: how many tokens it may produce, how the
//! prompt is fed, what each generated piece streams out and how the stream ends.

use crate::dict::Dict;
use crate::json::{jsons, Json};
use crate::local::tools::{call_id_shaped, carry, scan_in_pieces, scan_text, span_calls, span_errors, spans_add_up, tool_names, CallV, ScanOut, ToolCallScanner};
use crate::provider::base::{blank_delta, calls_model, Delta, DeltaV, SamplingParams, SamplingV, ToolCall};
use crate::provider::tag_split::{split_in_pieces, split_text, TagSplitter};
use crate::text::{decimal, decimal_text, join3, owned, signed_decimal, signed_text, texts};
use vstd::prelude::*;

verus! {

/// The most tokens that a turn produces where the caller set no limit.
pub const DEFAULT_MAX_TOKENS: i32 = 2048;

/// How many tokens a turn may produce: the caller's limit where it is positive, at most
/// what the context has left.
pub open spec fn budget(max_tokens: Option<i32>, n_ctx: int, prompt_tokens: int) -> int {
    let asked = match max_tokens {
        Some(m) => if m > 0 {
            m as int
        } else {
            DEFAULT_MAX_TOKENS as int
        },
        None => DEFAULT_MAX_TOKENS as int,
    };
    let room = if n_ctx > prompt_tokens {
        n_ctx - prompt_tokens
    } else {
        0
    };
    if asked < room {
        asked
    } else {
        room
    }
}

/// How many tokens a turn may produce. The size of a context is counted in 32 bits with a
/// sign, so that a larger one has no room.
pub fn token_budget(max_tokens: Option<i32>, n_ctx: i32, prompt_tokens: usize) -> (r: i32)
    ensures
        r == budget(max_tokens, n_ctx as int, prompt_tokens as int),
        0 <= r,
        r > 0 ==> r + prompt_tokens <= n_ctx,
{
    let asked: i32 = match max_tokens {
        Some(m) => if m > 0 {
            m
        } else {
            DEFAULT_MAX_TOKENS
        },
        None => DEFAULT_MAX_TOKENS,
    };
    let ctx: usize = if n_ctx > 0 {
        n_ctx as usize
    } else {
        0
    };
    let room: i32 = if ctx > prompt_tokens {
        (ctx - prompt_tokens) as i32
    } else {
        0
    };
    if asked < room {
        asked
    } else {
        room
    }
}

/// The size of a prefill batch: what the engine takes at once, at least one token.
pub open spec fn batch_size(n_batch: int) -> int {
    if n_batch < 1 {
        1
    } else {
        n_batch
    }
}

/// The positions at which the chunks of a prompt begin and end: the chunks follow one
/// another without a gap, each full but perhaps the last.
pub fn prefill_chunks(n_tokens: usize, n_batch: usize) -> (r: Vec<(usize, usize)>)
    ensures
        forall|k: int|
            #![trigger r@[k]]
            0 <= k < r@.len() ==> r@[k].0 == k * batch_size(n_batch as int) && r@[k].0 < r@[k].1
                && r@[k].1 == if (k + 1) * batch_size(n_batch as int) < n_tokens {
                (k + 1) * batch_size(n_batch as int)
            } else {
                n_tokens as int
            },
        n_tokens == 0 ==> r@.len() == 0,
        n_tokens > 0 ==> r@.len() > 0 && r@.last().1 == n_tokens,
{
    let size: usize = if n_batch < 1 {
        1
    } else {
        n_batch
    };
    let mut out: Vec<(usize, usize)> = Vec::new();
    let mut start: usize = 0;
    while start < n_tokens
        invariant
            size == batch_size(n_batch as int),
            size >= 1,
            start <= n_tokens,
            start < n_tokens ==> start == out@.len() * size,
            start == n_tokens && n_tokens > 0 ==> out@.len() > 0 && out@.last().1 == n_tokens,
            start == 0 ==> out@.len() == 0,
            forall|k: int|
                #![trigger out@[k]]
                0 <= k < out@.len() ==> out@[k].0 == k * size && out@[k].0 < out@[k].1 && out@[k].1
                    == if (k + 1) * size < n_tokens {
                    (k + 1) * size
                } else {
                    n_tokens as int
                },
        decreases n_tokens - start,
    {
        let end: usize = if size < n_tokens - start {
            start + size
        } else {
            n_tokens
        };
        proof {
            let k = out@.len() as int;
            assert((k + 1) * size == k * size + size) by (nonlinear_arith);
        }
        out.push((start, end));
        start = end;
    }
    out
}

/// Only the last token of a prompt needs its logits: the first sample reads them.
pub fn wants_logits(pos: usize, n_tokens: usize) -> (r: bool)
    ensures
        r == (pos + 1 == n_tokens),
{
    pos < n_tokens && pos == n_tokens - 1
}

/// The fragment that ends a generation which failed: the user sees the reason.
pub open spec fn error_delta_v(msg: Seq<char>) -> DeltaV {
    DeltaV {
        content: Some("[local engine error: "@ + msg + "]"@),
        finish_reason: Some("error"@),
        error_type: Some(msg),
        ..blank_delta()
    }
}

/// The fragment that ends a generation which failed.
pub fn error_delta(msg: String) -> (r: Delta)
    ensures
        r@ == error_delta_v(msg@),
{
    let content = join3("[local engine error: ", msg.as_str(), "]");
    let mut d = Delta::blank();
    d.content = Some(content);
    d.finish_reason = Some(owned("error"));
    d.error_type = Some(msg);
    d
}

/// One stage of the sampler. What a stage needs besides stands in the parameters.
#[derive(Debug, Clone, Copy, PartialEq, Eq, Structural)]
pub enum Stage {
    /// Calls of tools are held to their grammar.
    Grammar,
    /// The most likely token.
    Greedy,
    Penalties,
    TopK(i32),
    TopP,
    MinP,
    Temperature,
    /// A token by chance.
    Draw,
}

/// The stages of the sampler, in order.
pub open spec fn stages_v(s: SamplingV, grammar: bool, greedy: bool) -> Seq<Stage> {
    let none = Seq::<Stage>::empty();
    let a = if grammar {
        none.push(Stage::Grammar)
    } else {
        none
    };
    if greedy {
        a.push(Stage::Greedy)
    } else {
        let b = if s.presence_penalty is Some || s.frequency_penalty is Some {
            a.push(Stage::Penalties)
        } else {
            a
        };
        let c = match s.top_k {
            Some(k) => if k > 0 {
                b.push(Stage::TopK(k))
            } else {
                b
            },
            None => b,
        };
        let d = if s.top_p is Some {
            c.push(Stage::TopP)
        } else {
            c
        };
        let e = if s.min_p is Some {
            d.push(Stage::MinP)
        } else {
            d
        };
        e.push(Stage::Temperature).push(Stage::Draw)
    }
}

/// The stages of the sampler. `greedy` tells that the temperature is not positive: then
/// nothing but the grammar comes before the choice of the most likely token.
pub fn sampler_stages(sampling: &SamplingParams, grammar: bool, greedy: bool) -> (r: Vec<Stage>)
    ensures
        r@ == stages_v(sampling@, grammar, greedy),
{
    let mut stages: Vec<Stage> = Vec::new();
    if grammar {
        stages.push(Stage::Grammar);
    }
    if greedy {
        stages.push(Stage::Greedy);
        return stages;
    }
    if sampling.presence_penalty.is_some() || sampling.frequency_penalty.is_some() {
        stages.push(Stage::Penalties);
    }
    match sampling.top_k {
        Some(k) => if k > 0 {
            stages.push(Stage::TopK(k));
        },
        None => {},
    }
    if sampling.top_p.is_some() {
        stages.push(Stage::TopP);
    }
    if sampling.min_p.is_some() {
        stages.push(Stage::MinP);
    }
    stages.push(Stage::Temperature);
    stages.push(Stage::Draw);
    stages
}

/// Whatever the parameters are, a token is chosen once, and last.
pub proof fn a_token_is_chosen_once(s: SamplingV, grammar: bool, greedy: bool)
    ensures
        ({
            let stages = stages_v(s, grammar, greedy);
            let chooses = |t: Stage| t == Stage::Greedy || t == Stage::Draw;
            &&& stages.len() > 0
            &&& chooses(stages.last())
            &&& forall|i: int| 0 <= i < stages.len() - 1 ==> !chooses(#[trigger] stages[i])
            &&& grammar ==> stages[0] == Stage::Grammar
        }),
{
}

/// What a generation says in one fragment.
pub enum Said {
    Text(Seq<char>),
    Reasoning(Seq<char>),
    Call(CallV),
}

/// The fragment says this and nothing else. The identifier of a call is free.
pub open spec fn says(d: DeltaV, s: Said) -> bool {
    match s {
        Said::Text(t) => d == (DeltaV { content: Some(t), ..blank_delta() }),
        Said::Reasoning(t) => d == (DeltaV { reasoning: Some(t), ..blank_delta() }),
        Said::Call(c) => d.tool_calls matches Some(calls) && calls.len() == 1 && call_id_shaped(
            calls[0].id,
        ) && calls[0].kind == "function"@ && calls[0].function == c.function() && d == (DeltaV {
            tool_calls: Some(calls),
            ..blank_delta()
        }),
    }
}

/// The fragments say these things in this order.
pub open spec fn all_say(ds: Seq<Delta>, said: Seq<Said>) -> bool {
    &&& ds.len() == said.len()
    &&& forall|i: int| 0 <= i < ds.len() ==> says((#[trigger] ds[i])@, said[i])
}

/// A text, unless it is empty.
pub open spec fn some_text(t: Seq<char>) -> Seq<Said> {
    if t.len() > 0 {
        seq![Said::Text(t)]
    } else {
        Seq::empty()
    }
}

/// What scanned text says: the text outside the spans, then the calls, then why other
/// spans are none.
pub open spec fn scanned_says(s: Seq<char>, names: Seq<Seq<char>>) -> Seq<Said> {
    let x = scan_text(s);
    some_text(x.text) + span_calls(x.spans, names).map_values(|c: CallV| Said::Call(c))
        + span_errors(x.spans, names).map_values(|e: Seq<char>| Said::Text("\n["@ + e + "]\n"@))
}

/// Where a generation stands between two pieces.
#[verifier::ext_equal]
pub struct GenV {
    pub inside: bool,
    pub held: Seq<char>,
    /// The names of the tools and what waits for the end of a call; `None` without tools.
    pub scan: Option<(Seq<Seq<char>>, Seq<char>)>,
    pub called: bool,
}

impl GenV {
    /// What visible text says: calls are looked for only where the turn has tools.
    pub open spec fn visible(self, t: Seq<char>) -> Seq<Said> {
        if t.len() == 0 {
            Seq::empty()
        } else {
            match self.scan {
                Some((names, waiting)) => scanned_says(waiting + t, names),
                None => seq![Said::Text(t)],
            }
        }
    }

    /// Where the generation stands after visible text.
    pub open spec fn after_visible(self, t: Seq<char>) -> GenV {
        match self.scan {
            Some((names, waiting)) => if t.len() == 0 {
                self
            } else {
                GenV {
                    scan: Some((names, scan_text(waiting + t).held)),
                    called: self.called || span_calls(
                        scan_text(waiting + t).spans,
                        names,
                    ).len() > 0,
                    ..self
                }
            },
            None => self,
        }
    }

    /// What a piece says: its reasoning first, then its visible text.
    pub open spec fn piece_says(self, piece: Seq<char>) -> Seq<Said> {
        let x = split_text(self.inside, self.held + piece);
        (if x.inside.len() > 0 {
            seq![Said::Reasoning(x.inside)]
        } else {
            Seq::empty()
        }) + self.visible(x.outside)
    }

    /// Where the generation stands after a piece.
    pub open spec fn after_piece(self, piece: Seq<char>) -> GenV {
        let x = split_text(self.inside, self.held + piece);
        GenV { inside: x.now_inside, held: x.held, ..self.after_visible(x.outside) }
    }

    /// What waits for the end of a call.
    pub open spec fn waiting(self) -> Seq<char> {
        match self.scan {
            Some((_, waiting)) => waiting,
            None => Seq::empty(),
        }
    }

    /// What is left to say at the end: held text is visible, and an open call is text.
    pub open spec fn end_says(self) -> Seq<Said> {
        match self.scan {
            Some(_) => self.visible(self.held) + some_text(self.after_visible(self.held).waiting()),
            None => some_text(self.held),
        }
    }
}

/// What a piece brings, by kind.
#[verifier::ext_equal]
pub struct HeardV {
    pub reasoning: Seq<char>,
    pub text: Seq<char>,
    pub calls: Seq<CallV>,
    /// Why spans that look like calls are none.
    pub notes: Seq<Seq<char>>,
}

impl GenV {
    /// What a piece brings, by kind.
    pub open spec fn heard(self, piece: Seq<char>) -> HeardV {
        let x = split_text(self.inside, self.held + piece);
        let nothing = HeardV {
            reasoning: x.inside,
            text: x.outside,
            calls: Seq::empty(),
            notes: Seq::empty(),
        };
        match self.scan {
            Some((names, waiting)) => if x.outside.len() == 0 {
                nothing
            } else {
                let y = scan_text(waiting + x.outside);
                HeardV {
                    reasoning: x.inside,
                    text: y.text,
                    calls: span_calls(y.spans, names),
                    notes: span_errors(y.spans, names),
                }
            },
            None => nothing,
        }
    }
}

/// What is said: reasoning, text, calls and notes, in this order.
pub open spec fn arranged(h: HeardV) -> Seq<Said> {
    (if h.reasoning.len() > 0 {
        seq![Said::Reasoning(h.reasoning)]
    } else {
        Seq::empty()
    }) + (some_text(h.text) + h.calls.map_values(|c: CallV| Said::Call(c)) + h.notes.map_values(
        |e: Seq<char>| Said::Text("\n["@ + e + "]\n"@),
    ))
}

/// Why a generation ended.
pub open spec fn finish_v(called: bool, produced: int, max_new: int) -> Seq<char> {
    if called {
        "tool_calls"@
    } else if produced >= max_new {
        "length"@
    } else {
        "stop"@
    }
}

/// The last fragment of a generation.
pub open spec fn last_delta_v(
    finish: Seq<char>,
    prompt_tokens: i32,
    produced: i32,
) -> DeltaV {
    DeltaV {
        finish_reason: Some(finish),
        usage: Some(
            Map::<Seq<char>, i32>::empty().insert("input_tokens"@, prompt_tokens).insert(
                "output_tokens"@,
                produced,
            ),
        ),
        ..blank_delta()
    }
}

/// A generation in progress.
pub struct Generation {
    prompt_tokens: i32,
    max_new: i32,
    produced: i32,
    think: TagSplitter,
    scanner: Option<ToolCallScanner>,
    called: bool,
}

fn text_delta(t: String) -> (r: Delta)
    ensures
        says(r@, Said::Text(t@)),
{
    let mut d = Delta::blank();
    d.content = Some(t);
    d
}

fn call_delta(c: ToolCall, Ghost(said): Ghost<CallV>) -> (r: Delta)
    requires
        call_id_shaped(c.id@),
        c.kind@ == "function"@,
        c.function@ == said.function(),
    ensures
        says(r@, Said::Call(said)),
{
    let mut calls: Vec<ToolCall> = Vec::new();
    calls.push(c);
    let mut d = Delta::blank();
    d.tool_calls = Some(calls);
    proof {
        assert(calls_model(calls@)[0] == c@);
    }
    d
}

/// The fragments for one scanned text.
fn scanned_deltas(out: &mut Vec<Delta>, scanned: ScanOut, Ghost(x): Ghost<Seq<char>>, Ghost(names): Ghost<Seq<Seq<char>>>, Ghost(said): Ghost<Seq<Said>>)
    requires
        scanned.text@ == scan_text(x).text,
        carry(scanned.calls@, span_calls(scan_text(x).spans, names)),
        texts(scanned.errors@) == span_errors(scan_text(x).spans, names),
        all_say(old(out)@, said),
    ensures
        all_say(final(out)@, said + scanned_says(x, names)),
{
    let ghost calls_said = span_calls(scan_text(x).spans, names);
    let ghost errors_said = span_errors(scan_text(x).spans, names);
    let ghost first = said + some_text(scan_text(x).text);
    let ScanOut { text, calls, errors } = scanned;
    if !text.as_str().is_empty() {
        let d = text_delta(text);
        out.push(d);
    }
    proof {
        assert(all_say(out@, first));
    }
    let ghost second = calls_said.map_values(|c: CallV| Said::Call(c));
    let mut rest = calls;
    let ghost all_calls = rest@;
    let ghost mut k: int = 0;
    proof {
        assert(first + second.take(0) =~= first);
    }
    while rest.len() > 0
        invariant
            second == calls_said.map_values(|c: CallV| Said::Call(c)),
            carry(all_calls, calls_said),
            0 <= k <= all_calls.len(),
            rest@ == all_calls.skip(k),
            all_say(out@, first + second.take(k)),
        decreases rest@.len(),
    {
        let c = rest.remove(0);
        let ghost said_k = calls_said[k];
        proof {
            assert(c == all_calls[k]);
        }
        let d = call_delta(c, Ghost(said_k));
        out.push(d);
        proof {
            assert(first + second.take(k + 1) =~= (first + second.take(k)).push(second[k]));
            assert(rest@ =~= all_calls.skip(k + 1));
            k = k + 1;
        }
    }
    proof {
        assert(second.take(k) =~= second);
    }
    let ghost third = errors_said.map_values(|e: Seq<char>| Said::Text("\n["@ + e + "]\n"@));
    let mut i: usize = 0;
    proof {
        assert(first + second + third.take(0) =~= first + second);
    }
    while i < errors.len()
        invariant
            i <= errors@.len(),
            third == errors_said.map_values(|e: Seq<char>| Said::Text("\n["@ + e + "]\n"@)),
            texts(errors@) == errors_said,
            all_say(out@, first + second + third.take(i as int)),
        decreases errors@.len() - i,
    {
        let t = join3("\n[", errors[i].as_str(), "]\n");
        let d = text_delta(t);
        proof {
            assert(texts(errors@)[i as int] == errors@[i as int]@);
            assert(first + second + third.take(i + 1) =~= (first + second + third.take(
                i as int,
            )).push(third[i as int]));
        }
        out.push(d);
        i += 1;
    }
    proof {
        assert(third.take(i as int) =~= third);
        assert(first + second + third =~= said + scanned_says(x, names));
    }
}

impl Generation {
    /// Where the generation stands.
    pub closed spec fn state(&self) -> GenV {
        GenV {
            inside: self.think.span_inside(),
            held: self.think.held(),
            scan: match self.scanner {
                Some(sc) => Some((sc.names(), sc.held())),
                None => None,
            },
            called: self.called,
        }
    }

    /// The number of tokens of the prompt.
    pub closed spec fn prompt_len(&self) -> i32 {
        self.prompt_tokens
    }

    /// How many tokens may be produced.
    pub closed spec fn limit(&self) -> i32 {
        self.max_new
    }

    /// How many tokens were produced.
    pub closed spec fn count(&self) -> i32 {
        self.produced
    }

    /// The counts are in range, and the prompt and the limit fit in the context together.
    pub closed spec fn wf(&self) -> bool {
        0 <= self.prompt_tokens && 0 <= self.produced <= self.max_new && self.prompt_tokens
            + self.max_new <= i32::MAX
    }

    /// Begins a generation on a prompt of the given length. Without a token, or without
    /// room for one more, there is nothing to generate, and the reason comes back.
    pub fn begin(
        prompt_tokens: usize,
        n_ctx: u32,
        max_tokens: Option<i32>,
        tools: &[Json],
    ) -> (r: Result<Generation, String>)
        ensures
            match r {
                Ok(g) => g.wf() && prompt_tokens > 0 && budget(
                    max_tokens,
                    n_ctx as i32 as int,
                    prompt_tokens as int,
                ) > 0 && g.prompt_len() == prompt_tokens && g.limit() == budget(
                    max_tokens,
                    n_ctx as i32 as int,
                    prompt_tokens as int,
                ) && g.count() == 0 && g.state() == (GenV {
                    inside: false,
                    held: Seq::empty(),
                    scan: if tools@.len() > 0 {
                        Some((tool_names(jsons(tools@)), Seq::empty()))
                    } else {
                        None
                    },
                    called: false,
                }),
                Err(m) => if prompt_tokens == 0 {
                    m@ == "prompt tokenized to nothing"@
                } else {
                    budget(max_tokens, n_ctx as i32 as int, prompt_tokens as int) <= 0 && m@
                        == "prompt ("@ + decimal(prompt_tokens as nat)
                        + " tokens) leaves no room in a "@ + signed_decimal(n_ctx as i32 as int)
                        + "-token context"@
                },
            },
    {
        if prompt_tokens == 0 {
            return Err(owned("prompt tokenized to nothing"));
        }
        let size: i32 = #[verifier::truncate] (n_ctx as i32);
        let max_new: i32 = token_budget(max_tokens, size, prompt_tokens);
        if max_new <= 0 {
            let a = decimal_text(prompt_tokens as u64);
            let mut m = join3("prompt (", a.as_str(), " tokens) leaves no room in a ");
            let b = signed_text(size);
            m.push_str(b.as_str());
            m.push_str("-token context");
            return Err(m);
        }
        let scanner = if tools.len() > 0 {
            Some(ToolCallScanner::new(tools))
        } else {
            None
        };
        Ok(
            Generation {
                prompt_tokens: prompt_tokens as i32,
                max_new,
                produced: 0,
                think: TagSplitter::thinking(),
                scanner,
                called: false,
            },
        )
    }

    /// Whether another token may be sampled.
    pub fn wants_more(&self) -> (r: bool)
        ensures
            r == (self.count() < self.limit()),
    {
        self.produced < self.max_new
    }

    /// The position of the next token in the context, which the prompt begins.
    pub fn position(&self) -> (r: i32)
        requires
            self.wf(),
        ensures
            r == self.prompt_len() + self.count(),
    {
        self.prompt_tokens + self.produced
    }

    /// Counts one token more.
    pub fn advance(&mut self)
        requires
            old(self).wf(),
            old(self).count() < old(self).limit(),
        ensures
            final(self).wf(),
            final(self).count() == old(self).count() + 1,
            final(self).limit() == old(self).limit(),
            final(self).prompt_len() == old(self).prompt_len(),
            final(self).state() == old(self).state(),
    {
        self.produced = self.produced + 1;
    }

    /// Takes visible text and adds the fragments for it.
    fn say_visible(&mut self, out: &mut Vec<Delta>, t: &str, Ghost(said): Ghost<Seq<Said>>)
        requires
            old(self).wf(),
            all_say(old(out)@, said),
        ensures
            final(self).wf(),
            all_say(final(out)@, said + old(self).state().visible(t@)),
            final(self).state() == old(self).state().after_visible(t@),
            final(self).count() == old(self).count(),
            final(self).limit() == old(self).limit(),
            final(self).prompt_len() == old(self).prompt_len(),
    {
        proof {
            assert(said + Seq::<Said>::empty() =~= said);
        }
        if t.is_empty() {
            return;
        }
        let ghost st = self.state();
        let mut scanner: Option<ToolCallScanner> = None;
        core::mem::swap(&mut scanner, &mut self.scanner);
        match scanner {
            Some(sc0) => {
                let mut sc = sc0;
                let ghost x = sc.held() + t@;
                let ghost names = sc.names();
                let scanned = sc.feed(t);
                if scanned.calls.len() > 0 {
                    self.called = true;
                }
                scanned_deltas(out, scanned, Ghost(x), Ghost(names), Ghost(said));
                self.scanner = Some(sc);
            },
            None => {
                let d = text_delta(t.to_owned());
                out.push(d);
                proof {
                    assert(said + st.visible(t@) =~= said.push(Said::Text(t@)));
                }
            },
        }
    }

    /// The fragments for one generated piece, in the order in which they are sent. Text
    /// in a `<think>` span is reasoning, and a call written there is not executed.
    pub fn piece(&mut self, piece: &str) -> (r: Vec<Delta>)
        requires
            old(self).wf(),
        ensures
            final(self).wf(),
            all_say(r@, old(self).state().piece_says(piece@)),
            final(self).state() == old(self).state().after_piece(piece@),
            final(self).count() == old(self).count(),
            final(self).limit() == old(self).limit(),
            final(self).prompt_len() == old(self).prompt_len(),
    {
        let split = self.think.feed(piece);
        let mut out: Vec<Delta> = Vec::new();
        let ghost mut said: Seq<Said> = Seq::empty();
        if !split.inside.as_str().is_empty() {
            let mut d = Delta::blank();
            d.reasoning = Some(split.inside);
            proof {
                said = seq![Said::Reasoning(split.inside@)];
            }
            out.push(d);
        }
        self.say_visible(&mut out, split.outside.as_str(), Ghost(said));
        out
    }

    /// The fragments that end the generation: what was held back, then why it ended and
    /// how many tokens it took.
    pub fn finish(self) -> (r: Vec<Delta>)
        requires
            self.wf(),
        ensures
            ({
                let st = self.state();
                let n = r@.len() - 1;
                &&& n >= 0
                &&& all_say(r@.take(n), st.end_says())
                &&& r@[n]@ == last_delta_v(
                    finish_v(
                        st.after_visible(st.held).called,
                        self.count() as int,
                        self.limit() as int,
                    ),
                    self.prompt_len(),
                    self.count(),
                )
            }),
    {
        let ghost st = self.state();
        let mut me = self;
        let mut out: Vec<Delta> = Vec::new();
        let ghost none = Seq::<Said>::empty();
        let think_tail = me.think.flush();
        let ghost mut said = none;
        let mut tail = String::new();
        if me.scanner.is_some() {
            me.say_visible(&mut out, think_tail.as_str(), Ghost(none));
            proof {
                said = st.visible(st.held);
                assert(none + said =~= said);
            }
            let mut scanner: Option<ToolCallScanner> = None;
            core::mem::swap(&mut scanner, &mut me.scanner);
            match scanner {
                Some(sc0) => {
                    let mut sc = sc0;
                    tail = sc.flush();
                    me.scanner = Some(sc);
                },
                None => {},
            }
        } else {
            tail = think_tail;
        }
        if !tail.as_str().is_empty() {
            let d = text_delta(tail);
            out.push(d);
        }
        proof {
            assert(said + some_text(tail@) =~= st.end_says());
        }
        let finish = if me.called {
            owned("tool_calls")
        } else if me.produced >= me.max_new {
            owned("length")
        } else {
            owned("stop")
        };
        let mut usage: Dict<i32> = Dict::new();
        usage.insert("input_tokens", me.prompt_tokens);
        usage.insert("output_tokens", me.produced);
        let mut d = Delta::blank();
        d.finish_reason = Some(finish);
        d.usage = Some(usage);
        let ghost before = out@;
        out.push(d);
        proof {
            assert(out@.take(out@.len() - 1) =~= before);
        }
        out
    }
}

/// A piece says what it brings, and nothing else.
pub proof fn a_piece_says_what_it_brings(st: GenV, piece: Seq<char>)
    ensures
        st.piece_says(piece) == arranged(st.heard(piece)),
{
    let x = split_text(st.inside, st.held + piece);
    let h = st.heard(piece);
    let calls = h.calls.map_values(|c: CallV| Said::Call(c));
    let notes = h.notes.map_values(|e: Seq<char>| Said::Text("\n["@ + e + "]\n"@));
    if h.calls.len() == 0 {
        assert(calls =~= Seq::empty());
    }
    if h.notes.len() == 0 {
        assert(notes =~= Seq::empty());
    }
    assert(st.visible(x.outside) =~= some_text(h.text) + calls + notes);
}

/// How the engine cuts its answer into pieces makes no difference: two pieces bring the
/// reasoning, the text, the calls and the notes that both together bring, and leave the
/// generation where both together leave it.
pub proof fn pieces_compose(st: GenV, a: Seq<char>, b: Seq<char>)
    ensures
        st.after_piece(a).after_piece(b) == st.after_piece(a + b),
        ({
            let x = st.heard(a);
            let y = st.after_piece(a).heard(b);
            st.heard(a + b) == HeardV {
                reasoning: x.reasoning + y.reasoning,
                text: x.text + y.text,
                calls: x.calls + y.calls,
                notes: x.notes + y.notes,
            }
        }),
{
    split_in_pieces(st.inside, st.held + a, b);
    assert((st.held + a) + b =~= st.held + (a + b));
    let x = split_text(st.inside, st.held + a);
    let y = split_text(x.now_inside, x.held + b);
    let whole = st.heard(a + b);
    let first = st.heard(a);
    let second = st.after_piece(a).heard(b);
    match st.scan {
        Some((names, waiting)) => {
            if x.outside.len() == 0 {
                assert(x.outside + y.outside =~= y.outside);
                assert(first.text + second.text =~= whole.text);
                assert(first.calls + second.calls =~= whole.calls);
                assert(first.notes + second.notes =~= whole.notes);
            } else if y.outside.len() == 0 {
                assert(x.outside + y.outside =~= x.outside);
                assert(first.text + second.text =~= whole.text);
                assert(first.calls + second.calls =~= whole.calls);
                assert(first.notes + second.notes =~= whole.notes);
            } else {
                let p = scan_text(waiting + x.outside);
                let q = scan_text(p.held + y.outside);
                scan_in_pieces(waiting + x.outside, y.outside);
                assert((waiting + x.outside) + y.outside =~= waiting + (x.outside + y.outside));
                spans_add_up(p.spans, q.spans, names);
            }
        },
        None => {
            assert(first.calls + second.calls =~= whole.calls);
            assert(first.notes + second.notes =~= whole.notes);
        },
    }
}

/// A call written inside a `<think>` span is reasoning: where a piece is all reasoning, no
/// call comes of it.
pub proof fn reasoning_makes_no_call(st: GenV, piece: Seq<char>)
    requires
        split_text(st.inside, st.held + piece).outside.len() == 0,
    ensures
        forall|i: int|
            0 <= i < st.piece_says(piece).len() ==> (#[trigger] st.piece_says(
                piece,
            )[i]) is Reasoning,
        st.after_piece(piece).called == st.called,
{
}

/// A turn may produce what the caller asks for, where that is positive, and 2048 tokens where it
/// is not; and never more than the context has left after the prompt.
pub proof fn turns_have_their_budget(max_tokens: Option<i32>, n_ctx: int, prompt_tokens: int)
    requires
        0 <= prompt_tokens,
    ensures
        ({
            let n = budget(max_tokens, n_ctx, prompt_tokens);
            let asked: int = if max_tokens matches Some(m) && m > 0 {
                max_tokens->0 as int
            } else {
                2048
            };
            &&& 0 <= n <= asked
            &&& n > 0 ==> prompt_tokens + n <= n_ctx
            &&& n == asked || prompt_tokens + n >= n_ctx
        }),
        batch_size(n_ctx) == (if n_ctx < 1 {
            1
        } else {
            n_ctx
        }),
{
}

/// A failure is told to the user, as the end of the answer.
pub proof fn failures_are_told(msg: Seq<char>)
    ensures
        error_delta_v(msg).content == Some("[local engine error: "@ + msg + "]"@),
        error_delta_v(msg).finish_reason == Some("error"@),
        error_delta_v(msg).error_type == Some(msg),
        error_delta_v(msg).reasoning is None && error_delta_v(msg).tool_calls is None
            && error_delta_v(msg).usage is None,
{
}

/// Each parameter that is set has its stage, and no other has: the penalties first, then what
/// cuts the tokens off, then the temperature. The coldest sampling takes the likeliest token and
/// has no other stage but the grammar.
pub proof fn parameters_have_their_stages(s: SamplingV, grammar: bool)
    ensures
        ({
            let stages = stages_v(s, grammar, false);
            &&& stages.contains(Stage::Grammar) <==> grammar
            &&& stages.contains(Stage::Penalties) <==> s.presence_penalty is Some
                || s.frequency_penalty is Some
            &&& forall|k: int|
                #![trigger stages[k]]
                0 <= k < stages.len() && stages[k] is TopK ==> s.top_k == Some(stages[k]->TopK_0)
                    && s.top_k->0 > 0
            &&& s.top_k is Some && s.top_k->0 > 0 ==> stages.contains(Stage::TopK(s.top_k->0))
            &&& stages.contains(Stage::TopP) <==> s.top_p is Some
            &&& stages.contains(Stage::MinP) <==> s.min_p is Some
            &&& stages.len() >= 2 && stages[stages.len() - 2] == Stage::Temperature
            &&& stages.last() == Stage::Draw
        }),
        stages_v(s, true, true) == seq![Stage::Grammar, Stage::Greedy],
        stages_v(s, false, true) == seq![Stage::Greedy],
{
    let none = Seq::<Stage>::empty();
    let a = if grammar {
        none.push(Stage::Grammar)
    } else {
        none
    };
    let b = if s.presence_penalty is Some || s.frequency_penalty is Some {
        a.push(Stage::Penalties)
    } else {
        a
    };
    let c = match s.top_k {
        Some(k) => if k > 0 {
            b.push(Stage::TopK(k))
        } else {
            b
        },
        None => b,
    };
    let d = if s.top_p is Some {
        c.push(Stage::TopP)
    } else {
        c
    };
    let e = if s.min_p is Some {
        d.push(Stage::MinP)
    } else {
        d
    };
    let all = e.push(Stage::Temperature).push(Stage::Draw);
    assert(all == stages_v(s, grammar, false));
    if grammar {
        assert(all[0] == Stage::Grammar);
    }
    if b.len() > a.len() {
        assert(all[a.len() as int] == Stage::Penalties);
    }
    if c.len() > b.len() {
        assert(all[b.len() as int] == Stage::TopK(s.top_k->0));
    }
    if d.len() > c.len() {
        assert(all[c.len() as int] == Stage::TopP);
    }
    if e.len() > d.len() {
        assert(all[d.len() as int] == Stage::MinP);
    }
    assert(stages_v(s, true, true) =~= seq![Stage::Grammar, Stage::Greedy]);
    assert(stages_v(s, false, true) =~= seq![Stage::Greedy]);
}

/// A text is said as content, reasoning as reasoning, and a call as a call of its tool.
pub proof fn what_is_said_is_what_it_is(d: DeltaV, t: Seq<char>, c: CallV)
    ensures
        says(d, Said::Text(t)) ==> d.content == Some(t) && d.reasoning is None
            && d.tool_calls is None && d.finish_reason is None && d.usage is None
            && d.error_type is None,
        says(d, Said::Reasoning(t)) ==> d.reasoning == Some(t) && d.content is None
            && d.tool_calls is None && d.finish_reason is None,
        says(d, Said::Call(c)) ==> (d.tool_calls matches Some(calls) && calls.len() == 1
            && calls[0].function.get("name"@) == Some(crate::json::JsonV::Str(c.name))
            && calls[0].function.get("arguments"@) == Some(c.arguments)) && d.content is None
            && d.reasoning is None,
{
    crate::local::tools::calls_carry_name_and_arguments(c);
}

/// A piece without a tag is said whole: as reasoning inside a span of thoughts, and outside as
/// text. Nothing of it waits.
pub proof fn plain_pieces_are_said_whole(st: GenV, t: Seq<char>)
    requires
        crate::provider::tag_split::has_no_tag(t),
        t.len() > 0,
        st.held.len() == 0,
        st.waiting().len() == 0,
    ensures
        st.inside ==> st.piece_says(t) == seq![Said::Reasoning(t)],
        !st.inside ==> st.piece_says(t) == seq![Said::Text(t)],
        st.after_piece(t).inside == st.inside,
        st.after_piece(t).held.len() == 0,
        st.after_piece(t).waiting().len() == 0,
        st.after_piece(t).called == st.called,
{
    assert(st.held + t =~= t);
    crate::provider::tag_split::text_without_a_tag_stays_where_it_is(st.inside, t);
    match st.scan {
        Some((names, waiting)) => {
            assert(waiting + t =~= t);
            crate::local::tools::text_without_a_tag_is_text(t);
            let x = scan_text(t);
            assert(span_calls(x.spans, names) =~= Seq::empty());
            assert(span_errors(x.spans, names) =~= Seq::empty());
            assert(scanned_says(t, names) =~= seq![Said::Text(t)]);
        },
        None => {},
    }
    assert(st.piece_says(t) =~= if st.inside {
        seq![Said::Reasoning(t)]
    } else {
        seq![Said::Text(t)]
    });
}

/// A call that is written whole outside a span of thoughts is made, where the turn offers its
/// tool, and is not shown as text.
pub proof fn written_calls_are_made(names: Seq<Seq<char>>, body: Seq<char>, st: GenV, piece: Seq<char>)
    requires
        crate::provider::tag_split::has_no_tag(body),
        crate::local::tools::read_span(body, names) is Ok,
        st.scan == Some((names, Seq::<char>::empty())),
        split_text(st.inside, st.held + piece).outside == "<tool_call>"@ + (body + "</tool_call>"@),
        split_text(st.inside, st.held + piece).inside.len() == 0,
    ensures
        st.piece_says(piece) == seq![Said::Call(crate::local::tools::read_span(body, names)->Ok_0)],
        st.after_piece(piece).called,
{
    let e = Seq::<char>::empty();
    let t = "<tool_call>"@ + (body + "</tool_call>"@);
    assert(e + t =~= e + "<tool_call>"@ + (body + "</tool_call>"@ + e));
    crate::local::tools::tags_part_the_calls_from_the_text(e, body, e);
    let x = scan_text(e + t);
    reveal_strlit("<tool_call>");
    assert(t.len() > 0);
    assert(x.text =~= e);
    assert(x.spans == seq![body]);
    let c = crate::local::tools::read_span(body, names)->Ok_0;
    let none = Seq::<Seq<char>>::empty();
    crate::local::tools::spans_are_read_one_by_one(none, body, names);
    assert(none.push(body) =~= seq![body]);
    assert(span_calls(none, names) =~= Seq::empty());
    assert(span_errors(none, names) =~= none);
    assert(span_calls(x.spans, names) =~= seq![c]);
    assert(span_errors(x.spans, names) =~= none);
    assert(scanned_says(e + t, names) =~= seq![Said::Call(c)]);
    assert(st.piece_says(piece) =~= seq![Said::Call(c)]);
}

/// Why a generation ended: it called tools, or it ran out of tokens, or the model was done. The
/// last fragment says so, with the tokens of the prompt and of the answer.
pub proof fn generations_say_why_they_ended(
    called: bool,
    produced: int,
    max_new: int,
    finish: Seq<char>,
    prompt_tokens: i32,
    made: i32,
)
    ensures
        called ==> finish_v(called, produced, max_new) == "tool_calls"@,
        !called && produced >= max_new ==> finish_v(called, produced, max_new) == "length"@,
        !called && produced < max_new ==> finish_v(called, produced, max_new) == "stop"@,
        ({
            let d = last_delta_v(finish, prompt_tokens, made);
            &&& d.finish_reason == Some(finish)
            &&& d.usage matches Some(u) && u.contains_pair("input_tokens"@, prompt_tokens)
                && u.contains_pair("output_tokens"@, made)
            &&& d.content is None && d.reasoning is None && d.tool_calls is None
                && d.error_type is None
        }),
{
    reveal_strlit("input_tokens");
    reveal_strlit("output_tokens");
    assert("input_tokens"@.len() == 12 && "output_tokens"@.len() == 13);
}

/// Nothing is kept back at the end: text that was held comes out as text, and so does a call
/// that was never closed.
pub proof fn what_was_held_comes_out(st: GenV)
    requires
        st.scan is None || st.held.len() == 0,
    ensures
        st.scan is None ==> st.end_says() == some_text(st.held),
        st.scan is Some ==> st.end_says() == some_text(st.waiting()),
        forall|t: Seq<char>| t.len() > 0 ==> #[trigger] some_text(t) == seq![Said::Text(t)],
{
    match st.scan {
        Some((names, waiting)) => {
            assert(Seq::<Said>::empty() + some_text(waiting) =~= some_text(waiting));
        },
        None => {},
    }
}

} // verus!
