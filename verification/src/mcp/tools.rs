//! The output of tools, cut to size, and the check of their arguments.

use crate::json::{jsons, text_of_json, value_model, Json, JsonV};
use crate::models::mcp::{ToolDefinition, ToolV};
use crate::provider::base::{lossy_text, utf8_lossy};
use crate::text::{bytes_add_up, filling, filling_fills, filling_prefix, join3, joined, owned, same};
use vstd::prelude::*;
use vstd::utf8::encode_utf8;

verus! {

/// The most bytes of a tool's output that are kept.
pub const MAX_TOOL_OUTPUT_BYTES: usize = 102400;

/// What follows output that was cut.
pub const TRUNCATION_MESSAGE: &'static str =
    "[Output truncated at 100KB. Use server-specific pagination to retrieve full data.]";

/// Pieces joined by line feeds up to a size.
#[verifier::ext_equal]
pub struct JoinV {
    pub out: Seq<char>,
    /// The bytes of all pieces, those that were left out too.
    pub seen: int,
    pub full: bool,
}

/// Nothing joined yet.
pub open spec fn no_pieces() -> JoinV {
    JoinV { out: Seq::empty(), seen: 0, full: false }
}

/// A piece added: as much of it as it takes to go over the most that is kept, so that the cut
/// can be noticed.
pub open spec fn add_piece(j: JoinV, piece: Seq<char>) -> JoinV {
    let bytes = encode_utf8(piece).len();
    let seen = if j.seen + bytes > usize::MAX {
        usize::MAX as int
    } else {
        j.seen + bytes
    };
    if j.full {
        JoinV { seen, ..j }
    } else {
        let head = if j.out.len() > 0 {
            j.out + "\n"@
        } else {
            j.out
        };
        let used = encode_utf8(head).len();
        let room = if used <= MAX_TOOL_OUTPUT_BYTES + 1 {
            MAX_TOOL_OUTPUT_BYTES + 1 - used
        } else {
            0
        };
        if bytes <= room {
            JoinV { out: head + piece, seen, full: false }
        } else {
            JoinV { out: head + piece.take(filling(piece, room)), seen, full: true }
        }
    }
}

/// Pieces added in order.
pub open spec fn add_pieces(j: JoinV, pieces: Seq<Seq<char>>) -> JoinV
    decreases pieces.len(),
{
    if pieces.len() == 0 {
        j
    } else {
        add_piece(add_pieces(j, pieces.drop_last()), pieces.last())
    }
}

proof fn a_full_join_is_long(j: JoinV, piece: Seq<char>)
    requires
        j.full ==> encode_utf8(j.out).len() > MAX_TOOL_OUTPUT_BYTES,
    ensures
        add_piece(j, piece).full ==> encode_utf8(add_piece(j, piece).out).len()
            > MAX_TOOL_OUTPUT_BYTES,
{
    let head = if j.out.len() > 0 {
        j.out + "\n"@
    } else {
        j.out
    };
    let used = encode_utf8(head).len();
    let room = if used <= MAX_TOOL_OUTPUT_BYTES + 1 {
        MAX_TOOL_OUTPUT_BYTES + 1 - used
    } else {
        0
    };
    filling_fills(piece, room);
    bytes_add_up(head, piece.take(filling(piece, room)));
}

/// Whatever is left out of the pieces is noticed: the text that is kept is then longer than
/// the most that is shown, so that it is cut and marked.
pub proof fn what_is_left_out_is_noticed(pieces: Seq<Seq<char>>)
    ensures
        add_pieces(no_pieces(), pieces).full ==> encode_utf8(
            add_pieces(no_pieces(), pieces).out,
        ).len() > MAX_TOOL_OUTPUT_BYTES,
        add_pieces(no_pieces(), pieces).full ==> cut_output(
            add_pieces(no_pieces(), pieces).out,
        ).1,
    decreases pieces.len(),
{
    if pieces.len() > 0 {
        what_is_left_out_is_noticed(pieces.drop_last());
        a_full_join_is_long(add_pieces(no_pieces(), pieces.drop_last()), pieces.last());
    }
}

/// Joins pieces by line feeds up to a size.
pub struct CappedJoin {
    out: String,
    seen: usize,
    full: bool,
}

impl View for CappedJoin {
    type V = JoinV;

    closed spec fn view(&self) -> JoinV {
        JoinV { out: self.out@, seen: self.seen as int, full: self.full }
    }
}

impl CappedJoin {
    /// Nothing joined yet.
    pub fn new() -> (r: CappedJoin)
        ensures
            r@ == no_pieces(),
    {
        CappedJoin { out: String::new(), seen: 0, full: false }
    }

    /// Adds a piece.
    pub fn push(&mut self, piece: &str)
        ensures
            final(self)@ == add_piece(old(self)@, piece@),
    {
        let bytes: usize = piece.as_bytes().len();
        self.seen = self.seen.saturating_add(bytes);
        if self.full {
            return;
        }
        if !self.out.as_str().is_empty() {
            self.out.push_str("\n");
        }
        let used: usize = self.out.as_str().as_bytes().len();
        let room: usize = if used <= MAX_TOOL_OUTPUT_BYTES + 1 {
            MAX_TOOL_OUTPUT_BYTES + 1 - used
        } else {
            0
        };
        if bytes <= room {
            self.out.push_str(piece);
        } else {
            let part = filling_prefix(piece, room);
            self.out.push_str(part.as_str());
            self.full = true;
        }
    }

    /// The joined text and the bytes of all pieces.
    pub fn finish(self) -> (r: (String, usize))
        ensures
            r.0@ == self@.out,
            r.1 == self@.seen,
    {
        (self.out, self.seen)
    }
}

/// Output cut to the bytes that are kept, with a note where it was cut.
pub open spec fn cut_output(content: Seq<char>) -> (Seq<char>, bool) {
    let bytes = encode_utf8(content);
    if bytes.len() <= MAX_TOOL_OUTPUT_BYTES {
        (content, false)
    } else {
        (
            lossy_text(bytes.take(MAX_TOOL_OUTPUT_BYTES as int)) + "\n"@ + TRUNCATION_MESSAGE@,
            true,
        )
    }
}

/// Output cut to the bytes that are kept, and whether it was cut. The limit counts bytes,
/// not characters.
pub fn truncate_output(content: &str) -> (r: (String, bool))
    ensures
        (r.0@, r.1) == cut_output(content@),
{
    let bytes = content.as_bytes();
    if bytes.len() <= MAX_TOOL_OUTPUT_BYTES {
        return (owned(content), false);
    }
    let mut head: Vec<u8> = Vec::new();
    let mut i: usize = 0;
    while i < MAX_TOOL_OUTPUT_BYTES
        invariant
            i <= MAX_TOOL_OUTPUT_BYTES < bytes@.len(),
            head@ == bytes@.take(i as int),
        decreases MAX_TOOL_OUTPUT_BYTES - i,
    {
        head.push(bytes[i]);
        i += 1;
        proof {
            assert(bytes@.take(i as int) =~= bytes@.take(i - 1).push(bytes@[i - 1]));
        }
    }
    let text = utf8_lossy(head.as_slice());
    (join3(text.as_str(), "\n", TRUNCATION_MESSAGE), true)
}

/// Short output stays as it is; only output over the limit is cut and marked.
pub proof fn only_long_output_is_cut(content: Seq<char>)
    ensures
        cut_output(content).1 <==> encode_utf8(content).len() > MAX_TOOL_OUTPUT_BYTES,
        !cut_output(content).1 ==> cut_output(content).0 == content,
{
}

/// The text of one part of a result: text as it is, a resource as JSON, nothing of any
/// other part.
pub open spec fn part_text(part: JsonV) -> Option<Seq<char>> {
    match part {
        JsonV::Str(s) => Some(s),
        _ => if part.text_at("type"@) == Some("text"@) {
            part.text_at("text"@)
        } else if part.text_at("type"@) == Some("resource"@) {
            match part.get("resource"@) {
                Some(r) => Some(text_of_json(r)),
                None => None,
            }
        } else {
            None
        },
    }
}

/// The texts of the parts that have one, in order.
pub open spec fn parts_texts(parts: Seq<JsonV>) -> Seq<Seq<char>>
    decreases parts.len(),
{
    if parts.len() == 0 {
        Seq::empty()
    } else {
        let before = parts_texts(parts.drop_last());
        match part_text(parts.last()) {
            Some(t) => before.push(t),
            None => before,
        }
    }
}

fn text_of_part(part: &Json) -> (r: Option<String>)
    ensures
        crate::json::opt_string(r) == part_text(part@),
{
    proof {
        reveal_strlit("text");
        reveal_strlit("resource");
        assert("text"@.len() != "resource"@.len());
    }
    match part.as_str() {
        Some(s) => Some(owned(s)),
        None => match part.get_str("type") {
            Some(t) => if same(t, "text") {
                crate::json::owned_opt(part.get_str("text"))
            } else if same(t, "resource") {
                match part.get("resource") {
                    Some(r) => Some(r.print()),
                    None => None,
                }
            } else {
                None
            },
            None => None,
        },
    }
}

/// The text of a result's content, and the bytes that it had before it was cut.
pub open spec fn content_text(content: JsonV) -> JoinV {
    match content {
        JsonV::Arr(parts) => add_pieces(no_pieces(), parts_texts(parts)),
        _ => no_pieces(),
    }
}

/// The text of a result's content, and the bytes that it had before it was cut.
pub fn extract_content_from_json_sized(content: &Json) -> (r: (String, usize))
    ensures
        r.0@ == content_text(content@).out,
        r.1 == content_text(content@).seen,
{
    let parts = match content.as_array() {
        Some(v) => v,
        None => return (String::new(), 0),
    };
    let ghost all = jsons(parts@);
    let mut join = CappedJoin::new();
    let mut i: usize = 0;
    while i < parts.len()
        invariant
            i <= parts@.len(),
            all == jsons(parts@),
            join@ == add_pieces(no_pieces(), parts_texts(all.take(i as int))),
        decreases parts@.len() - i,
    {
        proof {
            assert(all.take(i + 1).drop_last() =~= all.take(i as int));
            assert(all.take(i + 1).last() == parts@[i as int]@);
        }
        match text_of_part(&parts[i]) {
            Some(t) => {
                join.push(t.as_str());
                proof {
                    let before = parts_texts(all.take(i as int));
                    assert(before.push(t@).drop_last() =~= before);
                }
            },
            None => {},
        }
        i += 1;
    }
    proof {
        assert(all.take(i as int) =~= all);
    }
    join.finish()
}

/// The text of a result's content.
pub fn extract_content_from_json(content: &Json) -> (r: String)
    ensures
        r@ == content_text(content@).out,
{
    extract_content_from_json_sized(content).0
}

/// One part of a result as the protocol's own types give it.
#[derive(Debug)]
pub enum ContentPart {
    Text(String),
    /// A resource as JSON.
    Resource(Json),
    Other,
}

/// The text of one part.
pub open spec fn typed_text(p: ContentPart) -> Option<Seq<char>> {
    match p {
        ContentPart::Text(s) => Some(s@),
        ContentPart::Resource(j) => Some(text_of_json(j@)),
        ContentPart::Other => None,
    }
}

/// The texts of the parts that have one, in order.
pub open spec fn typed_texts(parts: Seq<ContentPart>) -> Seq<Seq<char>>
    decreases parts.len(),
{
    if parts.len() == 0 {
        Seq::empty()
    } else {
        let before = typed_texts(parts.drop_last());
        match typed_text(parts.last()) {
            Some(t) => before.push(t),
            None => before,
        }
    }
}

/// The text of parts, and the bytes that it had before it was cut.
pub fn join_parts(content: &[ContentPart]) -> (r: (String, usize))
    ensures
        r.0@ == add_pieces(no_pieces(), typed_texts(content@)).out,
        r.1 == add_pieces(no_pieces(), typed_texts(content@)).seen,
{
    let mut join = CappedJoin::new();
    let mut i: usize = 0;
    proof {
        assert(content@.take(0) =~= Seq::empty());
    }
    while i < content.len()
        invariant
            i <= content@.len(),
            join@ == add_pieces(no_pieces(), typed_texts(content@.take(i as int))),
        decreases content@.len() - i,
    {
        let ghost before = typed_texts(content@.take(i as int));
        proof {
            assert(content@.take(i + 1).drop_last() =~= content@.take(i as int));
        }
        match &content[i] {
            ContentPart::Text(s) => {
                join.push(s.as_str());
                proof {
                    assert(before.push(s@).drop_last() =~= before);
                }
            },
            ContentPart::Resource(j) => {
                let t = j.print();
                join.push(t.as_str());
                proof {
                    assert(before.push(t@).drop_last() =~= before);
                }
            },
            ContentPart::Other => {},
        }
        i += 1;
    }
    proof {
        assert(content@.take(i as int) =~= content@);
    }
    join.finish()
}

/// rmcp's type of a block of content.
#[verifier::external_type_specification]
#[verifier::external_body]
pub struct ExContentBlock(rmcp::model::ContentBlock);

/// What a block of content is.
pub enum BlockV {
    Text(Seq<char>),
    /// A resource as JSON, where it can be told so.
    Resource(Option<JsonV>),
    Other,
}

/// What an rmcp block holds.
pub uninterp spec fn block_model(b: rmcp::model::ContentBlock) -> BlockV;

/// An rmcp block taken apart by its variant.
pub(crate) enum BlockParts {
    Text(String),
    Resource(Option<serde_json::Value>),
    Other,
}

spec fn block_parts_model(p: BlockParts) -> BlockV {
    match p {
        BlockParts::Text(s) => BlockV::Text(s@),
        BlockParts::Resource(v) => BlockV::Resource(
            match v {
                Some(v) => Some(value_model(v)),
                None => None,
            },
        ),
        BlockParts::Other => BlockV::Other,
    }
}

/// The variant of an rmcp `ContentBlock` and what it holds; a resource comes as
/// `serde_json::to_value` gives it.
#[verifier::external_body]
fn block_parts(b: &rmcp::model::ContentBlock) -> (r: BlockParts)
    ensures
        block_parts_model(r) == block_model(*b),
{
    match b {
        rmcp::model::ContentBlock::Text(t) => BlockParts::Text(t.text.clone()),
        rmcp::model::ContentBlock::Resource(r) => {
            BlockParts::Resource(serde_json::to_value(r).ok())
        },
        _ => BlockParts::Other,
    }
}

/// The text of a block, where it has one.
pub open spec fn block_text(b: BlockV) -> Option<Seq<char>> {
    match b {
        BlockV::Text(s) => Some(s),
        BlockV::Resource(Some(j)) => Some(text_of_json(j)),
        BlockV::Resource(None) => Some(""@),
        BlockV::Other => None,
    }
}

/// The texts of the blocks that have one, in order.
pub open spec fn block_texts(blocks: Seq<rmcp::model::ContentBlock>) -> Seq<Seq<char>>
    decreases blocks.len(),
{
    if blocks.len() == 0 {
        Seq::empty()
    } else {
        let before = block_texts(blocks.drop_last());
        match block_text(block_model(blocks.last())) {
            Some(t) => before.push(t),
            None => before,
        }
    }
}

/// The part that a block is.
pub fn part_of(b: &rmcp::model::ContentBlock) -> (r: ContentPart)
    ensures
        typed_text(r) == block_text(block_model(*b)),
{
    match block_parts(b) {
        BlockParts::Text(s) => ContentPart::Text(s),
        BlockParts::Resource(v) => match v {
            Some(v) => ContentPart::Resource(Json::from_value(v)),
            None => ContentPart::Text(owned("")),
        },
        BlockParts::Other => ContentPart::Other,
    }
}

/// The text of a result's blocks, and the bytes that it had before it was cut.
pub fn extract_content_from_rmcp_sized(content: &[rmcp::model::ContentBlock]) -> (r: (
    String,
    usize,
))
    ensures
        r.0@ == add_pieces(no_pieces(), block_texts(content@)).out,
        r.1 == add_pieces(no_pieces(), block_texts(content@)).seen,
{
    let mut parts: Vec<ContentPart> = Vec::new();
    let mut i: usize = 0;
    proof {
        assert(content@.take(0) =~= Seq::empty());
    }
    while i < content.len()
        invariant
            i <= content@.len(),
            typed_texts(parts@) == block_texts(content@.take(i as int)),
        decreases content@.len() - i,
    {
        let ghost before = parts@;
        let part = part_of(&content[i]);
        parts.push(part);
        proof {
            assert(parts@.drop_last() =~= before);
            assert(content@.take(i + 1).drop_last() =~= content@.take(i as int));
        }
        i += 1;
    }
    proof {
        assert(content@.take(i as int) =~= content@);
    }
    join_parts(parts.as_slice())
}

/// The text of a result's blocks.
pub fn extract_content_from_rmcp(content: &[rmcp::model::ContentBlock]) -> (r: String)
    ensures
        r@ == add_pieces(no_pieces(), block_texts(content@)).out,
{
    extract_content_from_rmcp_sized(content).0
}

/// Whether a JSON Schema can be used to check values.
pub uninterp spec fn schema_compiles(schema: JsonV) -> bool;

/// The first fault that a JSON Schema finds in a value: where in the value it lies, and what it
/// is; `None` where the value meets the schema.
pub uninterp spec fn schema_fault(schema: JsonV, value: JsonV) -> Option<(Seq<char>, Seq<char>)>;

/// Whether a value meets a JSON Schema.
pub open spec fn schema_accepts(schema: JsonV, value: JsonV) -> bool {
    schema_fault(schema, value) is None
}

/// What the check of a value against a schema found.
pub enum Verdict {
    /// The schema itself cannot be used.
    NoSchema,
    Accepted,
    /// Where in the value the fault lies, and what it is.
    Refused(String, String),
}

/// `jsonschema::validator_for` and `Validator::validate`: whether the schema can be used
/// depends on the schema alone, and which fault is found first in the value, if any, on the two
/// alone, which are walked in an order that they fix.
#[verifier::external_body]
pub(crate) fn check_schema(schema: &serde_json::Value, value: &serde_json::Value) -> (r: Verdict)
    ensures
        match r {
            Verdict::NoSchema => !schema_compiles(value_model(*schema)),
            Verdict::Accepted => schema_compiles(value_model(*schema)) && schema_fault(
                value_model(*schema),
                value_model(*value),
            ) is None,
            Verdict::Refused(path, message) => schema_compiles(value_model(*schema))
                && schema_fault(value_model(*schema), value_model(*value)) == Some(
                (path@, message@),
            ),
        },
{
    match jsonschema::validator_for(schema) {
        Err(_) => Verdict::NoSchema,
        Ok(v) => match v.validate(value) {
            Ok(()) => Verdict::Accepted,
            Err(e) => Verdict::Refused(e.instance_path().to_string(), e.to_string()),
        },
    }
}

/// A schema that says nothing.
pub open spec fn is_empty_schema(schema: JsonV) -> bool {
    schema is Null || schema == JsonV::empty()
}

/// What is told of a fault: its place, and what it is.
pub open spec fn fault_text(path: Seq<char>, message: Seq<char>) -> Seq<char> {
    (if path.len() == 0 {
        "root"@
    } else {
        path
    }) + " -> "@ + message
}

/// What a verdict says of a call: a schema that cannot be used refuses nothing.
pub fn verdict_result(verdict: Verdict) -> (r: Result<(), String>)
    ensures
        match verdict {
            Verdict::Refused(path, message) => r matches Err(m) && m@ == fault_text(
                path@,
                message@,
            ),
            _ => r is Ok,
        },
{
    match verdict {
        Verdict::Refused(path, message) => {
            let place = if path.as_str().is_empty() {
                owned("root")
            } else {
                path
            };
            Err(join3(place.as_str(), " -> ", message.as_str()))
        },
        _ => Ok(()),
    }
}

/// The arguments of a call pass: without a schema, or with one that cannot be used, any do.
pub open spec fn args_pass(tool: ToolV, args: JsonV) -> bool {
    is_empty_schema(tool.input_schema) || !schema_compiles(tool.input_schema) || schema_accepts(
        tool.input_schema,
        args,
    )
}

/// What is told of arguments that do not pass.
pub open spec fn args_fault(tool: ToolV, args: JsonV) -> Seq<char> {
    match schema_fault(tool.input_schema, args) {
        Some((path, message)) => fault_text(path, message),
        None => Seq::empty(),
    }
}

fn says_nothing(schema: &Json) -> (r: bool)
    ensures
        r == is_empty_schema(schema@),
{
    match schema {
        Json::Null => true,
        Json::Obj(m) => {
            let none = m.len() == 0;
            proof {
                if none {
                    assert(crate::json::entries_model(*m, 0) =~= Map::empty());
                } else {
                    let n = m@.len();
                    assert(crate::json::entries_model(*m, n).contains_key(m@[n - 1].0@));
                }
            }
            none
        },
        _ => false,
    }
}

/// Whether a schema says nothing or can be used.
pub fn compiles(schema: &Json) -> (r: bool)
    ensures
        r == (is_empty_schema(schema@) || schema_compiles(schema@)),
{
    if says_nothing(schema) {
        return true;
    }
    match check_schema(&schema.to_value(), &Json::Null.to_value()) {
        Verdict::NoSchema => false,
        _ => true,
    }
}

/// Checks the arguments of a call against the tool's schema.
pub fn validate_tool_args(tool: &ToolDefinition, args: &Json) -> (r: Result<(), String>)
    ensures
        r is Ok <==> args_pass(tool@, args@),
        r matches Err(m) ==> m@ == args_fault(tool@, args@),
{
    if says_nothing(&tool.input_schema) {
        return Ok(());
    }
    let schema = tool.input_schema.to_value();
    let value = args.to_value();
    verdict_result(check_schema(&schema, &value))
}

/// Pieces that fit together are joined whole, in order, with a line feed between each two.
pub proof fn short_pieces_are_joined_whole(pieces: Seq<Seq<char>>)
    requires
        forall|i: int| 0 <= i < pieces.len() ==> (#[trigger] pieces[i]).len() > 0,
        encode_utf8(joined(pieces, "\n"@)).len() <= 102401,
    ensures
        add_pieces(no_pieces(), pieces).out == joined(pieces, "\n"@),
        !add_pieces(no_pieces(), pieces).full,
    decreases pieces.len(),
{
    if pieces.len() > 0 {
        let less = pieces.drop_last();
        let last = pieces.last();
        assert(last == pieces[pieces.len() - 1]);
        assert(forall|i: int| 0 <= i < less.len() ==> #[trigger] less[i] == pieces[i]);
        if less.len() > 0 {
            let head = joined(less, "\n"@) + "\n"@;
            bytes_add_up(head, last);
            bytes_add_up(joined(less, "\n"@), "\n"@);
            short_pieces_are_joined_whole(less);
            joined_is_filled(less);
        } else {
            short_pieces_are_joined_whole(less);
            let none = Seq::<char>::empty();
            assert(none + last =~= last);
            bytes_add_up(none, last);
        }
    }
}

proof fn joined_is_filled(pieces: Seq<Seq<char>>)
    requires
        pieces.len() > 0,
        forall|i: int| 0 <= i < pieces.len() ==> (#[trigger] pieces[i]).len() > 0,
    ensures
        joined(pieces, "\n"@).len() > 0,
{
    assert(pieces[pieces.len() - 1].len() > 0);
    assert(pieces[0].len() > 0);
}

/// All pieces are counted, those that are left out too.
pub proof fn all_bytes_are_counted(j: JoinV, piece: Seq<char>)
    ensures
        j.seen + encode_utf8(piece).len() <= usize::MAX ==> add_piece(j, piece).seen == j.seen
            + encode_utf8(piece).len(),
        j.seen + encode_utf8(piece).len() > usize::MAX ==> add_piece(j, piece).seen == usize::MAX,
        no_pieces().seen == 0,
        no_pieces().out.len() == 0,
        !no_pieces().full,
        j.full ==> add_piece(j, piece).full && add_piece(j, piece).out == j.out,
{
}

/// Output of more bytes than are kept is cut after them, and says so; any other is kept whole.
pub proof fn long_output_says_that_it_was_cut(content: Seq<char>)
    ensures
        encode_utf8(content).len() <= 102400 ==> cut_output(content) == (content, false),
        encode_utf8(content).len() > 102400 ==> cut_output(content).1 && cut_output(content).0
            == lossy_text(encode_utf8(content).take(102400)) + "\n"@
            + "[Output truncated at 100KB. Use server-specific pagination to retrieve full data.]"@,
{
}

/// Of a result each text is kept, as it is, and each resource as JSON, in their order; other
/// parts are passed over.
pub proof fn texts_and_resources_are_kept(parts: Seq<JsonV>, p: JsonV)
    ensures
        parts_texts(Seq::empty()).len() == 0,
        p matches JsonV::Str(s) ==> parts_texts(parts.push(p)) == parts_texts(parts).push(s),
        p.at("type"@) == JsonV::Str("text"@) ==> (p.at("text"@) matches JsonV::Str(s)
            ==> parts_texts(parts.push(p)) == parts_texts(parts).push(s)),
        p.at("type"@) == JsonV::Str("resource"@) ==> (p.get("resource"@) matches Some(r)
            ==> parts_texts(parts.push(p)) == parts_texts(parts).push(text_of_json(r))),
        !(p is Str) && p.at("type"@) != JsonV::Str("text"@) && p.at("type"@) != JsonV::Str(
            "resource"@,
        ) ==> parts_texts(parts.push(p)) == parts_texts(parts),
        content_text(JsonV::Arr(parts)) == add_pieces(no_pieces(), parts_texts(parts)),
{
    reveal_strlit("text");
    reveal_strlit("resource");
    assert("text"@.len() == 4 && "resource"@.len() == 8);
    assert(parts.push(p).drop_last() =~= parts);
}

/// It is the same where the parts come typed: texts and resources are kept, in their order.
pub proof fn typed_parts_are_kept(parts: Seq<ContentPart>, p: ContentPart, b: BlockV)
    ensures
        typed_texts(Seq::empty()).len() == 0,
        typed_texts(parts.push(p)) == (match p {
            ContentPart::Text(s) => typed_texts(parts).push(s@),
            ContentPart::Resource(j) => typed_texts(parts).push(text_of_json(j@)),
            ContentPart::Other => typed_texts(parts),
        }),
        block_text(b) == (match b {
            BlockV::Text(s) => Some(s),
            BlockV::Resource(Some(j)) => Some(text_of_json(j)),
            BlockV::Resource(None) => Some(""@),
            BlockV::Other => None,
        }),
{
    assert(parts.push(p).drop_last() =~= parts);
}

/// The blocks of a result are read one after the other.
pub proof fn blocks_are_read_one_by_one(
    blocks: Seq<rmcp::model::ContentBlock>,
    b: rmcp::model::ContentBlock,
)
    ensures
        block_texts(Seq::empty()).len() == 0,
        block_texts(blocks.push(b)) == (match block_model(b) {
            BlockV::Text(s) => block_texts(blocks).push(s),
            BlockV::Resource(Some(j)) => block_texts(blocks).push(text_of_json(j)),
            BlockV::Resource(None) => block_texts(blocks).push(""@),
            BlockV::Other => block_texts(blocks),
        }),
{
    assert(blocks.push(b).drop_last() =~= blocks);
}

/// Arguments are held back just where the tool has a schema that can be used and that finds a
/// fault in them; the fault is then told with its place, or that it is in the whole.
pub proof fn faults_hold_a_call_back(tool: ToolV, args: JsonV)
    ensures
        args_pass(tool, args) <==> tool.input_schema == JsonV::Null || tool.input_schema
            == JsonV::empty() || !schema_compiles(tool.input_schema) || schema_fault(
            tool.input_schema,
            args,
        ) is None,
        schema_fault(tool.input_schema, args) matches Some((path, m)) ==> args_fault(tool, args) == (
        if path.len() == 0 {
            "root"@ + " -> "@ + m
        } else {
            path + " -> "@ + m
        }),
{
}

/// A fault is told by where it is, the root where it is the whole, and what it is.
pub proof fn faults_are_told_by_their_place(path: Seq<char>, message: Seq<char>)
    requires
        path.len() > 0,
    ensures
        fault_text(path, message) == path + " -> "@ + message,
        fault_text(Seq::empty(), message) == "root -> "@ + message,
{
    reveal_strlit("root");
    reveal_strlit(" -> ");
    reveal_strlit("root -> ");
    assert("root"@ + " -> "@ =~= "root -> "@);
}

} // verus!
