//! JSON values.
//!
//! `Json` holds a JSON value as plain data; reading and printing JSON text is
//! serde_json's work. The model of a value is a `JsonV`: integers are mathematical
//! integers and an object is a map from its keys.

use crate::text::{is_printable, joined, quoted, same};
use vstd::prelude::*;

verus! {

/// serde_json's number type.
#[verifier::external_type_specification]
#[verifier::external_body]
pub struct ExNumber(serde_json::Number);

/// serde_json's value type.
#[verifier::external_type_specification]
#[verifier::external_body]
pub struct ExValue(serde_json::Value);

/// serde_json's error type.
#[verifier::external_type_specification]
#[verifier::external_body]
pub struct ExJsonError(serde_json::Error);

/// What a JSON value is.
pub enum JsonV {
    Null,
    Bool(bool),
    /// An integer of serde_json's range, from `i64::MIN` to `u64::MAX`.
    Int(int),
    /// A number that serde_json holds as a float.
    Float(serde_json::Number),
    Str(Seq<char>),
    Arr(Seq<JsonV>),
    Obj(Map<Seq<char>, JsonV>),
}

/// What a serde_json number denotes.
pub uninterp spec fn number_model(n: serde_json::Number) -> JsonV;

/// What a serde_json value holds.
pub uninterp spec fn value_model(v: serde_json::Value) -> JsonV;

/// What serde_json reads from a text: a value, or the message of its error.
pub uninterp spec fn json_read(s: Seq<char>) -> Result<JsonV, Seq<char>>;

/// The value that a text says, `None` where the text is not JSON.
pub open spec fn json_of_text(s: Seq<char>) -> Option<JsonV> {
    match json_read(s) {
        Ok(v) => Some(v),
        Err(_) => None,
    }
}

/// Why a text is not JSON.
pub open spec fn json_error_of_text(s: Seq<char>) -> Seq<char> {
    match json_read(s) {
        Ok(_) => Seq::empty(),
        Err(m) => m,
    }
}

/// The message of a serde_json error.
pub uninterp spec fn error_text(e: serde_json::Error) -> Seq<char>;

/// The compact text that serde_json prints for a value.
pub uninterp spec fn text_of_json(j: JsonV) -> Seq<char>;

/// The number of a value as a float, in decimal; `None` where the value is no number.
pub uninterp spec fn float_text(j: JsonV) -> Option<Seq<char>>;

/// Whether serde_json holds two values for equal.
pub uninterp spec fn json_equal(a: JsonV, b: JsonV) -> bool;

/// A number that serde_json holds as a float.
#[derive(Debug, PartialEq)]
pub struct Float {
    number: serde_json::Number,
}

impl Float {
    #[verifier::type_invariant]
    spec fn inv(self) -> bool {
        number_model(self.number) == JsonV::Float(self.number)
    }

    /// The number as serde_json holds it.
    pub closed spec fn held(self) -> serde_json::Number {
        self.number
    }
}

/// A JSON value as plain data. Where a key stands twice in an object, the last entry
/// counts.
#[derive(Debug, PartialEq)]
pub enum Json {
    Null,
    Bool(bool),
    Uint(u64),
    Int(i64),
    Float(Float),
    Str(String),
    Arr(Vec<Json>),
    Obj(Vec<(String, Json)>),
}

/// The models of a list of values.
pub open spec fn items_model(v: Vec<Json>) -> Seq<JsonV>
    decreases v, 0nat,
{
    Seq::new(
        v@.len(),
        |i: int|
            if 0 <= i < v@.len() {
                v[i].model()
            } else {
                JsonV::Null
            },
    )
}

/// The models of a sequence of values.
pub open spec fn jsons(s: Seq<Json>) -> Seq<JsonV> {
    s.map_values(|j: Json| j@)
}

/// The map that the first `n` entries make, where the last entry of a key counts.
pub open spec fn entries_model(v: Vec<(String, Json)>, n: nat) -> Map<Seq<char>, JsonV>
    decreases v, n,
{
    if 0 < n <= v@.len() {
        entries_model(v, (n - 1) as nat).insert(v[n - 1].0@, v[n - 1].1.model())
    } else {
        Map::empty()
    }
}

impl View for Json {
    type V = JsonV;

    open spec fn view(&self) -> JsonV {
        self.model()
    }
}

/// The model of an optional value.
pub open spec fn opt_model(o: Option<&Json>) -> Option<JsonV> {
    match o {
        Some(j) => Some(j@),
        None => None,
    }
}

/// The model of an optional string.
pub open spec fn opt_text(o: Option<&str>) -> Option<Seq<char>> {
    match o {
        Some(s) => Some(s@),
        None => None,
    }
}

/// The model of an optional owned string.
pub open spec fn opt_string(o: Option<String>) -> Option<Seq<char>> {
    match o {
        Some(s) => Some(s@),
        None => None,
    }
}

/// A string, or null.
pub open spec fn opt_json(o: Option<Seq<char>>) -> JsonV {
    match o {
        Some(s) => JsonV::Str(s),
        None => JsonV::Null,
    }
}

/// The object with the members of another, which replace those of the same name.
pub open spec fn merged_members(m: Map<Seq<char>, JsonV>, patch: Map<Seq<char>, JsonV>) -> Map<
    Seq<char>,
    JsonV,
> {
    m.union_prefer_right(patch)
}

/// An object with the members of another, which replace those of the same name.
pub fn merge_members(base: Json, patch: &Json) -> (r: Json)
    requires
        base@ is Obj,
        patch@ is Obj,
    ensures
        r@ == JsonV::Obj(merged_members(base@->Obj_0, patch@->Obj_0)),
{
    let ghost m = base@->Obj_0;
    let entries = match patch {
        Json::Obj(v) => v,
        _ => return base,
    };
    let mut out = base;
    let mut i: usize = 0;
    proof {
        assert(m.union_prefer_right(entries_model(*entries, 0)) =~= m);
    }
    while i < entries.len()
        invariant
            i <= entries@.len(),
            out@ == JsonV::Obj(m.union_prefer_right(entries_model(*entries, i as nat))),
        decreases entries@.len() - i,
    {
        let value = entries[i].1.copy();
        out = out.with(entries[i].0.as_str(), value);
        i += 1;
        proof {
            let e = entries_model(*entries, (i - 1) as nat);
            let k = entries@[i - 1].0@;
            let v = entries@[i - 1].1@;
            assert(entries_model(*entries, i as nat) == e.insert(k, v));
            assert(m.union_prefer_right(e).insert(k, v) =~= m.union_prefer_right(e.insert(k, v)));
        }
    }
    out
}

/// An owned copy of an optional string.
pub fn owned_opt(o: Option<&str>) -> (r: Option<String>)
    ensures
        opt_string(r) == opt_text(o),
{
    match o {
        Some(s) => Some(s.to_owned()),
        None => None,
    }
}

impl JsonV {
    /// The value of a key, where the value is an object that has the key.
    pub open spec fn get(self, key: Seq<char>) -> Option<JsonV> {
        match self {
            JsonV::Obj(m) => if m.contains_key(key) {
                Some(m[key])
            } else {
                None
            },
            _ => None,
        }
    }

    /// The value of a key, null where there is none.
    pub open spec fn at(self, key: Seq<char>) -> JsonV {
        match self.get(key) {
            Some(v) => v,
            None => JsonV::Null,
        }
    }

    /// The text of a string value.
    pub open spec fn text(self) -> Option<Seq<char>> {
        match self {
            JsonV::Str(s) => Some(s),
            _ => None,
        }
    }

    /// The text of a key's string value.
    pub open spec fn text_at(self, key: Seq<char>) -> Option<Seq<char>> {
        self.at(key).text()
    }

    /// The items of an array.
    pub open spec fn items(self) -> Option<Seq<JsonV>> {
        match self {
            JsonV::Arr(s) => Some(s),
            _ => None,
        }
    }

    /// The number, where it is an integer that fits in `u64`.
    pub open spec fn unsigned(self) -> Option<u64> {
        match self {
            JsonV::Int(n) => if 0 <= n <= u64::MAX {
                Some(n as u64)
            } else {
                None
            },
            _ => None,
        }
    }

    /// The number, where it is an integer that fits in `i64`.
    pub open spec fn signed(self) -> Option<i64> {
        match self {
            JsonV::Int(n) => if i64::MIN <= n <= i64::MAX {
                Some(n as i64)
            } else {
                None
            },
            _ => None,
        }
    }

    /// The truth value of a boolean.
    pub open spec fn truth(self) -> Option<bool> {
        match self {
            JsonV::Bool(b) => Some(b),
            _ => None,
        }
    }

    /// The object without members.
    pub open spec fn empty() -> JsonV {
        JsonV::Obj(Map::empty())
    }

    /// The object with a member set.
    pub open spec fn put(self, key: Seq<char>, value: JsonV) -> JsonV {
        match self {
            JsonV::Obj(m) => JsonV::Obj(m.insert(key, value)),
            _ => JsonV::Obj(Map::empty().insert(key, value)),
        }
    }

    /// The object without a member.
    pub open spec fn without(self, key: Seq<char>) -> JsonV {
        match self {
            JsonV::Obj(m) => JsonV::Obj(m.remove(key)),
            other => other,
        }
    }
}

/// A serde_json number taken apart.
pub(crate) enum NumberParts {
    Uint(u64),
    Int(i64),
    Float(serde_json::Number),
}

/// `serde_json::Number` is an unsigned integer (`as_u64`), a signed one (`as_i64`) or a
/// float, which comes back as it is.
#[verifier::external_body]
fn number_parts(n: serde_json::Number) -> (r: NumberParts)
    ensures
        match r {
            NumberParts::Uint(u) => number_model(n) == JsonV::Int(u as int),
            NumberParts::Int(i) => number_model(n) == JsonV::Int(i as int),
            NumberParts::Float(m) => m == n && number_model(n) == JsonV::Float(n),
        },
{
    if let Some(u) = n.as_u64() {
        NumberParts::Uint(u)
    } else if let Some(i) = n.as_i64() {
        NumberParts::Int(i)
    } else {
        NumberParts::Float(n)
    }
}

/// `serde_json::Number::from` on a `u64` is that integer.
#[verifier::external_body]
fn number_of_u64(n: u64) -> (r: serde_json::Number)
    ensures
        number_model(r) == JsonV::Int(n as int),
{
    serde_json::Number::from(n)
}

/// `serde_json::Number::from` on an `i64` is that integer.
#[verifier::external_body]
fn number_of_i64(n: i64) -> (r: serde_json::Number)
    ensures
        number_model(r) == JsonV::Int(n as int),
{
    serde_json::Number::from(n)
}

/// The clone of a serde_json number is the same number.
pub assume_specification[ <serde_json::Number as Clone>::clone ](n: &serde_json::Number) -> (r:
    serde_json::Number)
    ensures
        r == *n,
;

/// A serde_json value taken apart by its variant.
pub(crate) enum ValueParts {
    Null,
    Bool(bool),
    Number(serde_json::Number),
    Str(String),
    Arr(Vec<serde_json::Value>),
    Obj(Vec<(String, serde_json::Value)>),
}

/// The map that the first `n` entries make.
pub open spec fn value_entries(v: Seq<(String, serde_json::Value)>, n: nat) -> Map<
    Seq<char>,
    JsonV,
>
    decreases n,
{
    if 0 < n <= v.len() {
        value_entries(v, (n - 1) as nat).insert(v[n - 1].0@, value_model(v[n - 1].1))
    } else {
        Map::empty()
    }
}

/// No key stands twice.
pub open spec fn distinct_keys(v: Seq<(String, serde_json::Value)>) -> bool {
    forall|i: int, j: int| 0 <= i < j < v.len() ==> (#[trigger] v[i]).0@ != (#[trigger] v[j]).0@
}

spec fn parts_model(p: ValueParts) -> JsonV {
    match p {
        ValueParts::Null => JsonV::Null,
        ValueParts::Bool(b) => JsonV::Bool(b),
        ValueParts::Number(n) => number_model(n),
        ValueParts::Str(s) => JsonV::Str(s@),
        ValueParts::Arr(v) => JsonV::Arr(v@.map_values(|x: serde_json::Value| value_model(x))),
        ValueParts::Obj(v) => JsonV::Obj(value_entries(v@, v@.len())),
    }
}

/// The variant of a `serde_json::Value` and what it holds. The keys of an object are
/// distinct.
#[verifier::external_body]
fn value_parts(v: serde_json::Value) -> (r: ValueParts)
    ensures
        parts_model(r) == value_model(v),
        r matches ValueParts::Obj(entries) ==> distinct_keys(entries@),
{
    match v {
        serde_json::Value::Null => ValueParts::Null,
        serde_json::Value::Bool(b) => ValueParts::Bool(b),
        serde_json::Value::Number(n) => ValueParts::Number(n),
        serde_json::Value::String(s) => ValueParts::Str(s),
        serde_json::Value::Array(a) => ValueParts::Arr(a),
        serde_json::Value::Object(m) => ValueParts::Obj(m.into_iter().collect()),
    }
}

/// The `serde_json::Value` of a variant and what it holds. No key stands twice.
#[verifier::external_body]
fn value_of_parts(p: ValueParts) -> (r: serde_json::Value)
    requires
        p matches ValueParts::Obj(entries) ==> distinct_keys(entries@),
    ensures
        value_model(r) == parts_model(p),
{
    match p {
        ValueParts::Null => serde_json::Value::Null,
        ValueParts::Bool(b) => serde_json::Value::Bool(b),
        ValueParts::Number(n) => serde_json::Value::Number(n),
        ValueParts::Str(s) => serde_json::Value::String(s),
        ValueParts::Arr(a) => serde_json::Value::Array(a),
        ValueParts::Obj(m) => serde_json::Value::Object(m.into_iter().collect()),
    }
}

proof fn value_entries_of_prefix(
    v: Seq<(String, serde_json::Value)>,
    w: Seq<(String, serde_json::Value)>,
    n: nat,
)
    requires
        n <= v.len(),
        n <= w.len(),
        forall|i: int| 0 <= i < n ==> v[i] == w[i],
    ensures
        value_entries(v, n) == value_entries(w, n),
    decreases n,
{
    if n > 0 {
        value_entries_of_prefix(v, w, (n - 1) as nat);
    }
}

proof fn value_entries_set(
    v: Seq<(String, serde_json::Value)>,
    at: int,
    e: (String, serde_json::Value),
    n: nat,
)
    requires
        distinct_keys(v),
        0 <= at < n <= v.len(),
        v[at].0@ == e.0@,
    ensures
        value_entries(v.update(at, e), n) == value_entries(v, n).insert(e.0@, value_model(e.1)),
    decreases n,
{
    let w = v.update(at, e);
    let a = value_entries(v, (n - 1) as nat);
    if n == at + 1 {
        value_entries_of_prefix(v, w, at as nat);
        assert(value_entries(w, n) =~= value_entries(v, n).insert(e.0@, value_model(e.1)));
    } else {
        value_entries_set(v, at, e, (n - 1) as nat);
        assert(v[n - 1].0@ != e.0@);
        assert(value_entries(w, n) =~= value_entries(v, n).insert(e.0@, value_model(e.1)));
    }
}

fn put_value(out: &mut Vec<(String, serde_json::Value)>, key: String, value: serde_json::Value)
    requires
        distinct_keys(old(out)@),
    ensures
        distinct_keys(final(out)@),
        value_entries(final(out)@, final(out)@.len()) == value_entries(
            old(out)@,
            old(out)@.len(),
        ).insert(key@, value_model(value)),
{
    let mut i: usize = 0;
    while i < out.len()
        invariant
            i <= out@.len(),
            out@ == old(out)@,
            distinct_keys(out@),
            forall|k: int| 0 <= k < i ==> (#[trigger] out@[k]).0@ != key@,
        decreases out@.len() - i,
    {
        if same(out[i].0.as_str(), key.as_str()) {
            proof {
                value_entries_set(out@, i as int, (key, value), out@.len());
            }
            out.set(i, (key, value));
            return;
        }
        i += 1;
    }
    out.push((key, value));
    proof {
        value_entries_of_prefix(old(out)@, out@, old(out)@.len());
    }
}

/// `serde_json::from_str` into a `Value`: whether it succeeds, with which value, and else
/// with which error, depends on the text alone.
#[verifier::external_body]
fn parse_value(s: &str) -> (r: Result<serde_json::Value, serde_json::Error>)
    ensures
        match r {
            Ok(v) => json_read(s@) == Ok::<_, Seq<char>>(value_model(v)),
            Err(e) => json_read(s@) == Err::<JsonV, _>(error_text(e)),
        },
{
    serde_json::from_str(s)
}

/// The `Display` text of a `serde_json::Error`.
#[verifier::external_body]
fn error_display(e: &serde_json::Error) -> (r: String)
    ensures
        r@ == error_text(*e),
{
    e.to_string()
}

/// The key by which serde_json marks text that is to be read as it stands.
pub open spec fn raw_key() -> Seq<char> {
    "$serde_json::private::RawValue"@
}

/// A value that is nested no deeper than the given number of levels, and none of whose
/// objects has serde_json's own key.
pub open spec fn is_plain(v: JsonV, depth: nat) -> bool
    decreases depth,
{
    match v {
        JsonV::Arr(items) => depth > 0 && forall|i: int|
            0 <= i < items.len() ==> is_plain(#[trigger] items[i], (depth - 1) as nat),
        JsonV::Obj(m) => depth > 0 && !m.contains_key(raw_key()) && forall|k: Seq<char>|
            m.contains_key(k) ==> is_plain(#[trigger] m[k], (depth - 1) as nat),
        _ => true,
    }
}

/// The text of a value says the value again, unless it is nested deeper than the parser goes
/// or holds serde_json's own key.
pub open spec fn reads_back(v: JsonV) -> bool {
    is_plain(v, 127) ==> json_of_text(text_of_json(v)) == Some(v)
}

/// The beginning of an object up to the value of its second member, where the first holds a
/// text.
pub open spec fn pair_head(first: Seq<char>, said: Seq<char>, second: Seq<char>) -> Seq<char> {
    "{"@ + quoted(first) + ": "@ + quoted(said) + ", "@ + quoted(second) + ": "@
}

/// The text of a value says the value as the second member of an object too, after a text.
pub open spec fn reads_as_member(v: JsonV) -> bool {
    is_plain(v, 126) ==> forall|first: Seq<char>, said: Seq<char>, second: Seq<char>|
        is_printable(first) && is_printable(said) && is_printable(second) && first != raw_key()
            ==> json_of_text(#[trigger] pair_head(first, said, second) + text_of_json(v) + "}"@)
            == Some(
            JsonV::Obj(
                Map::empty().insert(first, JsonV::Str(said)).insert(second, v),
            ),
        )
}

/// The text is one line, without control characters.
pub open spec fn is_one_line(s: Seq<char>) -> bool {
    forall|i: int| 0 <= i < s.len() ==> #[trigger] s[i] >= ' '
}

/// `Value::to_string`: the compact text depends on the value alone. It is one line, for
/// control characters are escaped. `from_str` reads it back as the same value, where that has
/// no more than the 127 levels that the parser takes and nowhere the key of serde_json's
/// `RawValue`, whose text would be read in its place. That holds of floats too: they are
/// printed with the digits that tell them apart, and `float_roundtrip`, which jsonschema
/// turns on, reads them exactly. And it holds of the text as a member of an object, one
/// level down, after a member with a text of printable ASCII.
#[verifier::external_body]
fn print_value(v: &serde_json::Value) -> (r: String)
    ensures
        r@ == text_of_json(value_model(*v)),
        is_one_line(r@),
        is_plain(value_model(*v), 127) ==> json_of_text(r@) == Some(value_model(*v)),
        is_plain(value_model(*v), 126) ==> forall|
            first: Seq<char>,
            said: Seq<char>,
            second: Seq<char>,
        |
            is_printable(first) && is_printable(said) && is_printable(second) && first != raw_key()
                ==> json_of_text(#[trigger] pair_head(first, said, second) + r@ + "}"@) == Some(
                JsonV::Obj(
                    Map::empty().insert(first, JsonV::Str(said)).insert(second, value_model(*v)),
                ),
            ),
{
    v.to_string()
}

/// The members of an object in a given order.
pub type MembersV = Seq<(Seq<char>, JsonV)>;

/// The object that members make, where the last of a key counts.
pub open spec fn members_map(m: MembersV) -> Map<Seq<char>, JsonV>
    decreases m.len(),
{
    if m.len() == 0 {
        Map::empty()
    } else {
        members_map(m.drop_last()).insert(m.last().0, m.last().1)
    }
}

/// The text of an object whose members stand in a given order.
pub open spec fn object_text(m: MembersV) -> Seq<char> {
    "{"@ + joined(
        m.map_values(
            |e: (Seq<char>, JsonV)| text_of_json(JsonV::Str(e.0)) + ":"@ + text_of_json(e.1),
        ),
        ","@,
    ) + "}"@
}

/// The members make an object whose text says it again.
pub open spec fn are_plain(m: MembersV) -> bool {
    forall|i: int|
        0 <= i < m.len() ==> (#[trigger] m[i]).0 != raw_key() && is_plain(m[i].1, 126)
}

/// The members that entries of an object are.
pub open spec fn members_of(v: Seq<(String, Json)>) -> MembersV {
    v.map_values(|e: (String, Json)| (e.0@, e.1@))
}

spec fn value_members(v: Seq<(String, serde_json::Value)>) -> MembersV {
    v.map_values(|e: (String, serde_json::Value)| (e.0@, value_model(e.1)))
}

/// `collect_map` of serde_json's `Serializer`: an object in braces, with its members in the
/// order in which they come, each a key and a value as they are printed alone. It is one
/// line, and `from_str` reads it back, as `print_value` says of a value.
#[verifier::external_body]
fn print_members(members: &Vec<(String, serde_json::Value)>) -> (r: String)
    ensures
        r@ == object_text(value_members(members@)),
        is_one_line(r@),
        are_plain(value_members(members@)) ==> json_of_text(r@) == Some(
            JsonV::Obj(members_map(value_members(members@))),
        ),
{
    let mut out: Vec<u8> = Vec::new();
    let mut printer = serde_json::Serializer::new(&mut out);
    let _ = serde::Serializer::collect_map(&mut printer, members.iter().map(|e| (&e.0, &e.1)));
    String::from_utf8(out).unwrap_or_default()
}

/// Prints an object with its members in the order in which they stand.
pub fn print_in_order(entries: &Vec<(String, Json)>) -> (r: String)
    ensures
        r@ == object_text(members_of(entries@)),
        is_one_line(r@),
        are_plain(members_of(entries@)) ==> json_of_text(r@) == Some(
            JsonV::Obj(members_map(members_of(entries@))),
        ),
{
    let mut members: Vec<(String, serde_json::Value)> = Vec::new();
    let mut i: usize = 0;
    while i < entries.len()
        invariant
            i <= entries@.len(),
            members@.len() == i,
            forall|k: int|
                0 <= k < i ==> (#[trigger] members@[k]).0@ == entries@[k].0@ && value_model(
                    members@[k].1,
                ) == entries@[k].1@,
        decreases entries@.len() - i,
    {
        members.push((entries[i].0.clone(), entries[i].1.to_value()));
        i += 1;
    }
    proof {
        assert(value_members(members@) =~= members_of(entries@));
    }
    print_members(&members)
}

/// An object of plain data holds what its members make.
pub proof fn entries_are_members(v: Vec<(String, Json)>, n: nat)
    requires
        n <= v@.len(),
    ensures
        entries_model(v, n) == members_map(members_of(v@.take(n as int))),
    decreases n,
{
    if n > 0 {
        entries_are_members(v, (n - 1) as nat);
        assert(members_of(v@.take(n as int)).drop_last() =~= members_of(v@.take(n - 1)));
        assert(members_of(v@.take(n as int)).last() == (v@[n - 1].0@, v@[n - 1].1@));
    }
}

/// `Value::as_f64`, with `Number::from_f64` and the number's text: the text depends on the
/// value alone, and only a number has one.
#[verifier::external_body]
fn value_float_text(v: &serde_json::Value) -> (r: Option<String>)
    ensures
        opt_string(r) == float_text(value_model(*v)),
        r is Some ==> value_model(*v) is Int || value_model(*v) is Float,
{
    v.as_f64().and_then(serde_json::Number::from_f64).map(|n| n.to_string())
}

/// `==` on `serde_json::Value`: it depends on the two values alone. Two strings are equal
/// where they hold the same text.
#[verifier::external_body]
fn values_equal(a: &serde_json::Value, b: &serde_json::Value) -> (r: bool)
    ensures
        r == json_equal(value_model(*a), value_model(*b)),
        value_model(*a) is Str && value_model(*b) is Str ==> r == (value_model(*a) == value_model(
            *b,
        )),
{
    a == b
}

proof fn value_entries_dom(v: Seq<(String, serde_json::Value)>, n: nat)
    requires
        n <= v.len(),
    ensures
        value_entries(v, n).dom().finite(),
        forall|k: Seq<char>| #[trigger]
            value_entries(v, n).contains_key(k) ==> exists|i: int| 0 <= i < n && v[i].0@ == k,
    decreases n,
{
    if n > 0 {
        value_entries_dom(v, (n - 1) as nat);
        assert forall|k: Seq<char>| #[trigger]
            value_entries(v, n).contains_key(k) implies exists|i: int| 0 <= i < n && v[i].0@ == k by {
            if k == v[n - 1].0@ {
                assert(v[n - 1].0@ == k);
            } else {
                assert(value_entries(v, (n - 1) as nat).contains_key(k));
            }
        }
    }
}

proof fn value_entries_at(v: Seq<(String, serde_json::Value)>, n: nat, i: int)
    requires
        0 <= i < n <= v.len(),
        distinct_keys(v),
    ensures
        value_entries(v, n).contains_key(v[i].0@),
        value_entries(v, n)[v[i].0@] == value_model(v[i].1),
    decreases n,
{
    if i < n - 1 {
        value_entries_at(v, (n - 1) as nat, i);
    }
}

proof fn entries_model_is_value_entries(
    a: Vec<(String, Json)>,
    b: Seq<(String, serde_json::Value)>,
    n: nat,
)
    requires
        n <= a@.len(),
        n <= b.len(),
        forall|i: int|
            0 <= i < n ==> (#[trigger] a@[i]).0@ == b[i].0@ && a@[i].1@ == value_model(b[i].1),
    ensures
        entries_model(a, n) == value_entries(b, n),
    decreases n,
{
    if n > 0 {
        entries_model_is_value_entries(a, b, (n - 1) as nat);
        assert(a@[n - 1].0@ == b[n - 1].0@);
    }
}

/// A push leaves the map of the entries before it as it was.
pub proof fn entries_model_of_prefix(a: Vec<(String, Json)>, b: Vec<(String, Json)>, n: nat)
    requires
        n <= a@.len(),
        n <= b@.len(),
        forall|i: int| 0 <= i < n ==> (#[trigger] a@[i]).0@ == b@[i].0@ && a@[i].1@ == b@[i].1@,
    ensures
        entries_model(a, n) == entries_model(b, n),
    decreases n,
{
    if n > 0 {
        entries_model_of_prefix(a, b, (n - 1) as nat);
        assert(a@[n - 1].0@ == b@[n - 1].0@);
    }
}

proof fn entries_model_absent(v: Vec<(String, Json)>, n: nat, key: Seq<char>)
    requires
        n <= v@.len(),
        forall|i: int| 0 <= i < n ==> (#[trigger] v@[i]).0@ != key,
    ensures
        !entries_model(v, n).contains_key(key),
    decreases n,
{
    if n > 0 {
        entries_model_absent(v, (n - 1) as nat, key);
        assert(v@[n - 1].0@ != key);
    }
}

/// The last entry of a key decides its value.
proof fn entries_model_last(v: Vec<(String, Json)>, n: nat, i: int)
    requires
        0 <= i < n <= v@.len(),
        forall|j: int| i < j < n ==> (#[trigger] v@[j]).0@ != v@[i].0@,
    ensures
        entries_model(v, n).contains_key(v@[i].0@),
        entries_model(v, n)[v@[i].0@] == v@[i].1@,
    decreases n,
{
    if i < n - 1 {
        assert(v@[n - 1].0@ != v@[i].0@);
        entries_model_last(v, (n - 1) as nat, i);
    }
}

impl Json {
    /// What the value is.
    pub open spec fn model(&self) -> JsonV
        decreases self, 0nat,
    {
        match self {
            Json::Null => JsonV::Null,
            Json::Bool(b) => JsonV::Bool(*b),
            Json::Uint(n) => JsonV::Int(*n as int),
            Json::Int(n) => JsonV::Int(*n as int),
            Json::Float(x) => JsonV::Float(x.held()),
            Json::Str(s) => JsonV::Str(s@),
            Json::Arr(v) => JsonV::Arr(items_model(*v)),
            Json::Obj(v) => JsonV::Obj(entries_model(*v, v@.len())),
        }
    }

    /// A number of serde_json as a value.
    pub fn from_number(n: serde_json::Number) -> (r: Json)
        ensures
            r@ == number_model(n),
    {
        match number_parts(n) {
            NumberParts::Uint(u) => Json::Uint(u),
            NumberParts::Int(i) => Json::Int(i),
            NumberParts::Float(number) => Json::Float(Float { number }),
        }
    }

    /// The plain data that a serde_json value holds.
    pub fn from_value(v: serde_json::Value) -> (r: Json)
        ensures
            r@ == value_model(v),
        decreases value_model(v),
    {
        let ghost whole = value_model(v);
        match value_parts(v) {
            ValueParts::Null => Json::Null,
            ValueParts::Bool(b) => Json::Bool(b),
            ValueParts::Number(n) => Json::from_number(n),
            ValueParts::Str(s) => Json::Str(s),
            ValueParts::Arr(items) => {
                let ghost all = items@;
                let mut rest = items;
                let mut out: Vec<Json> = Vec::new();
                while rest.len() > 0
                    invariant
                        value_model(v) == whole,
                        whole == JsonV::Arr(all.map_values(|x: serde_json::Value| value_model(x))),
                        out@.len() + rest@.len() == all.len(),
                        rest@ == all.skip(out@.len() as int),
                        forall|i: int| 0 <= i < out@.len() ==> (#[trigger] out@[i])@ == value_model(
                            all[i],
                        ),
                    decreases rest@.len(),
                {
                    let x = rest.remove(0);
                    proof {
                        let ms = all.map_values(|x: serde_json::Value| value_model(x));
                        assert(x == all[out@.len() as int]);
                        assert(ms[out@.len() as int] == value_model(x));
                        assert(decreases_to!(ms => ms[out@.len() as int]));
                        assert(whole->Arr_0 == ms);
                        assert(decreases_to!(whole => whole->Arr_0));
                        assert(decreases_to!(whole => value_model(x)));
                    }
                    let j = Json::from_value(x);
                    out.push(j);
                    proof {
                        assert(rest@ =~= all.skip(out@.len() as int));
                    }
                }
                proof {
                    assert(items_model(out) =~= all.map_values(
                        |x: serde_json::Value| value_model(x),
                    ));
                }
                Json::Arr(out)
            },
            ValueParts::Obj(entries) => {
                let ghost all = entries@;
                let mut rest = entries;
                let mut out: Vec<(String, Json)> = Vec::new();
                while rest.len() > 0
                    invariant
                        value_model(v) == whole,
                        whole == JsonV::Obj(value_entries(all, all.len())),
                        distinct_keys(all),
                        out@.len() + rest@.len() == all.len(),
                        rest@ == all.skip(out@.len() as int),
                        forall|i: int|
                            0 <= i < out@.len() ==> (#[trigger] out@[i]).0@ == all[i].0@
                                && out@[i].1@ == value_model(all[i].1),
                    decreases rest@.len(),
                {
                    let (key, x) = rest.remove(0);
                    proof {
                        let n = out@.len() as int;
                        assert((key, x) == all[n]);
                        value_entries_at(all, all.len(), n);
                        value_entries_dom(all, all.len());
                        let m = value_entries(all, all.len());
                        assert(decreases_to!(m => m[key@]));
                        assert(whole->Obj_0 == m);
                        assert(decreases_to!(whole => whole->Obj_0));
                        assert(decreases_to!(whole => value_model(x)));
                    }
                    let j = Json::from_value(x);
                    out.push((key, j));
                    proof {
                        assert(rest@ =~= all.skip(out@.len() as int));
                    }
                }
                proof {
                    entries_model_is_value_entries(out, all, all.len());
                }
                Json::Obj(out)
            },
        }
    }

    /// The serde_json value of plain data.
    pub fn to_value(&self) -> (r: serde_json::Value)
        ensures
            value_model(r) == self@,
        decreases self,
    {
        match self {
            Json::Null => value_of_parts(ValueParts::Null),
            Json::Bool(b) => value_of_parts(ValueParts::Bool(*b)),
            Json::Uint(n) => value_of_parts(ValueParts::Number(number_of_u64(*n))),
            Json::Int(n) => value_of_parts(ValueParts::Number(number_of_i64(*n))),
            Json::Float(x) => {
                proof {
                    use_type_invariant(x);
                }
                value_of_parts(ValueParts::Number(x.number.clone()))
            },
            Json::Str(s) => value_of_parts(ValueParts::Str(s.clone())),
            Json::Arr(v) => {
                let mut out: Vec<serde_json::Value> = Vec::new();
                let mut i: usize = 0;
                while i < v.len()
                    invariant
                        *self == Json::Arr(*v),
                        i <= v@.len(),
                        out@.len() == i,
                        forall|k: int| 0 <= k < i ==> value_model(#[trigger] out@[k]) == v@[k]@,
                    decreases v@.len() - i,
                {
                    proof {
                        assert(decreases_to!(*self => self->Arr_0));
                        assert(decreases_to!(*v => v[i as int]));
                    }
                    let x = v[i].to_value();
                    out.push(x);
                    i += 1;
                }
                proof {
                    assert(out@.map_values(|x: serde_json::Value| value_model(x)) =~= items_model(
                        *v,
                    ));
                }
                value_of_parts(ValueParts::Arr(out))
            },
            Json::Obj(v) => {
                let mut out: Vec<(String, serde_json::Value)> = Vec::new();
                let mut i: usize = 0;
                while i < v.len()
                    invariant
                        *self == Json::Obj(*v),
                        i <= v@.len(),
                        distinct_keys(out@),
                        value_entries(out@, out@.len()) == entries_model(*v, i as nat),
                    decreases v@.len() - i,
                {
                    proof {
                        assert(decreases_to!(*self => self->Obj_0));
                        assert(decreases_to!(*v => v[i as int]));
                    }
                    let x = v[i].1.to_value();
                    put_value(&mut out, v[i].0.clone(), x);
                    i += 1;
                }
                value_of_parts(ValueParts::Obj(out))
            },
        }
    }

    /// Reads a JSON text.
    pub fn parse(s: &str) -> (r: Result<Json, String>)
        ensures
            match r {
                Ok(j) => json_of_text(s@) == Some(j@),
                Err(m) => json_of_text(s@) is None && m@ == json_error_of_text(s@),
            },
    {
        match parse_value(s) {
            Ok(v) => Ok(Json::from_value(v)),
            Err(e) => Err(error_display(&e)),
        }
    }

    /// The compact text of a value.
    pub fn print(&self) -> (r: String)
        ensures
            r@ == text_of_json(self@),
            is_one_line(r@),
            reads_back(self@),
            reads_as_member(self@),
    {
        let v = self.to_value();
        print_value(&v)
    }

    /// The number of a value as a float, in decimal.
    pub fn float_text(&self) -> (r: Option<String>)
        ensures
            opt_string(r) == float_text(self@),
    {
        let v = self.to_value();
        value_float_text(&v)
    }

    /// Whether two values are equal as serde_json compares them.
    pub fn equals(&self, other: &Json) -> (r: bool)
        ensures
            r == json_equal(self@, other@),
            self@ is Str && other@ is Str ==> r == (self@ == other@),
    {
        let a = self.to_value();
        let b = other.to_value();
        values_equal(&a, &b)
    }

    /// A copy of the value.
    pub fn copy(&self) -> (r: Json)
        ensures
            r@ == self@,
        decreases self,
    {
        match self {
            Json::Null => Json::Null,
            Json::Bool(b) => Json::Bool(*b),
            Json::Uint(n) => Json::Uint(*n),
            Json::Int(n) => Json::Int(*n),
            Json::Float(x) => {
                proof {
                    use_type_invariant(x);
                }
                Json::Float(Float { number: x.number.clone() })
            },
            Json::Str(s) => Json::Str(s.clone()),
            Json::Arr(v) => {
                let mut out: Vec<Json> = Vec::new();
                let mut i: usize = 0;
                while i < v.len()
                    invariant
                        *self == Json::Arr(*v),
                        i <= v@.len(),
                        out@.len() == i,
                        forall|k: int| 0 <= k < i ==> (#[trigger] out@[k])@ == v@[k]@,
                    decreases v@.len() - i,
                {
                    proof {
                        assert(decreases_to!(*self => self->Arr_0));
                        assert(decreases_to!(*v => v[i as int]));
                    }
                    let x = v[i].copy();
                    out.push(x);
                    i += 1;
                }
                proof {
                    assert(items_model(out) =~= items_model(*v));
                }
                Json::Arr(out)
            },
            Json::Obj(v) => {
                let mut out: Vec<(String, Json)> = Vec::new();
                let mut i: usize = 0;
                while i < v.len()
                    invariant
                        *self == Json::Obj(*v),
                        i <= v@.len(),
                        out@.len() == i,
                        forall|k: int|
                            0 <= k < i ==> (#[trigger] v@[k]).0@ == out@[k].0@ && v@[k].1@
                                == out@[k].1@,
                    decreases v@.len() - i,
                {
                    proof {
                        assert(decreases_to!(*self => self->Obj_0));
                        assert(decreases_to!(*v => v[i as int]));
                    }
                    let x = v[i].1.copy();
                    out.push((v[i].0.clone(), x));
                    i += 1;
                }
                proof {
                    entries_model_of_prefix(*v, out, v@.len());
                }
                Json::Obj(out)
            },
        }
    }

    /// The value of a key, where the value is an object that has the key.
    pub fn get(&self, key: &str) -> (r: Option<&Json>)
        ensures
            opt_model(r) == self@.get(key@),
    {
        match self {
            Json::Obj(v) => {
                let mut i: usize = v.len();
                while i > 0
                    invariant
                        *self == Json::Obj(*v),
                        i <= v@.len(),
                        forall|k: int| i <= k < v@.len() ==> (#[trigger] v@[k]).0@ != key@,
                    decreases i,
                {
                    i -= 1;
                    if same(v[i].0.as_str(), key) {
                        proof {
                            entries_model_last(*v, v@.len(), i as int);
                        }
                        return Some(&v[i].1);
                    }
                }
                proof {
                    entries_model_absent(*v, v@.len(), key@);
                }
                None
            },
            _ => None,
        }
    }

    /// The text of a string value.
    pub fn as_str(&self) -> (r: Option<&str>)
        ensures
            opt_text(r) == self@.text(),
    {
        match self {
            Json::Str(s) => Some(s.as_str()),
            _ => None,
        }
    }

    /// The number of a key, where it is an integer that fits in `i64`.
    pub fn get_i64(&self, key: &str) -> (r: Option<i64>)
        ensures
            r == self@.at(key@).signed(),
    {
        match self.get(key) {
            Some(v) => v.as_i64(),
            None => None,
        }
    }

    /// The text of a key's string value in the value of another key.
    pub fn get_str2(&self, key: &str, inner: &str) -> (r: Option<&str>)
        ensures
            opt_text(r) == self@.at(key@).text_at(inner@),
    {
        match self.get(key) {
            Some(v) => v.get_str(inner),
            None => None,
        }
    }

    /// The items of a key's array.
    pub fn get_array(&self, key: &str) -> (r: Option<&Vec<Json>>)
        ensures
            match r {
                Some(v) => self@.at(key@) == JsonV::Arr(jsons(v@)),
                None => self@.at(key@).items() is None,
            },
    {
        match self.get(key) {
            Some(v) => v.as_array(),
            None => None,
        }
    }

    /// The text of a key's string value.
    pub fn get_str(&self, key: &str) -> (r: Option<&str>)
        ensures
            opt_text(r) == self@.text_at(key@),
    {
        match self.get(key) {
            Some(v) => v.as_str(),
            None => None,
        }
    }

    /// The number, where it is an integer that fits in `u64`.
    pub fn as_u64(&self) -> (r: Option<u64>)
        ensures
            r == self@.unsigned(),
    {
        match self {
            Json::Uint(n) => Some(*n),
            Json::Int(n) => if *n >= 0 {
                Some(*n as u64)
            } else {
                None
            },
            _ => None,
        }
    }

    /// The number, where it is an integer that fits in `i64`.
    pub fn as_i64(&self) -> (r: Option<i64>)
        ensures
            r == self@.signed(),
    {
        match self {
            Json::Uint(n) => if *n <= 0x7fff_ffff_ffff_ffff {
                Some(*n as i64)
            } else {
                None
            },
            Json::Int(n) => Some(*n),
            _ => None,
        }
    }

    /// The number of a key.
    pub fn get_u64(&self, key: &str) -> (r: Option<u64>)
        ensures
            r == self@.at(key@).unsigned(),
    {
        match self.get(key) {
            Some(v) => v.as_u64(),
            None => None,
        }
    }

    /// The truth value of a boolean.
    pub fn as_bool(&self) -> (r: Option<bool>)
        ensures
            r == self@.truth(),
    {
        match self {
            Json::Bool(b) => Some(*b),
            _ => None,
        }
    }

    /// The items of an array.
    pub fn as_array(&self) -> (r: Option<&Vec<Json>>)
        ensures
            match r {
                Some(v) => self@ == JsonV::Arr(jsons(v@)),
                None => self@.items() is None,
            },
    {
        match self {
            Json::Arr(v) => {
                proof {
                    assert(items_model(*v) =~= jsons(v@));
                }
                Some(v)
            },
            _ => None,
        }
    }

    /// The truth value of a key.
    pub fn get_bool(&self, key: &str) -> (r: Option<bool>)
        ensures
            r == self@.at(key@).truth(),
    {
        match self.get(key) {
            Some(v) => v.as_bool(),
            None => None,
        }
    }

    /// Whether the value is null.
    pub fn is_null(&self) -> (r: bool)
        ensures
            r == (self@ is Null),
    {
        matches!(self, Json::Null)
    }

    /// Whether the value is an object.
    pub fn is_object(&self) -> (r: bool)
        ensures
            r == (self@ is Obj),
    {
        matches!(self, Json::Obj(_))
    }

    /// A string value.
    pub fn string(s: &str) -> (r: Json)
        ensures
            r@ == JsonV::Str(s@),
    {
        Json::Str(s.to_owned())
    }

    /// An array.
    pub fn array(v: Vec<Json>) -> (r: Json)
        ensures
            r@ == JsonV::Arr(jsons(v@)),
    {
        proof {
            assert(items_model(v) =~= jsons(v@));
        }
        Json::Arr(v)
    }

    /// The object without members.
    pub fn object() -> (r: Json)
        ensures
            r@ == JsonV::empty(),
    {
        let v: Vec<(String, Json)> = Vec::new();
        Json::Obj(v)
    }

    /// The object without a member; any other value as it is.
    pub fn without(self, key: &str) -> (r: Json)
        ensures
            r@ == self@.without(key@),
    {
        match self {
            Json::Obj(v) => {
                let ghost all = v;
                let mut rest: Vec<(String, Json)> = v;
                let mut out: Vec<(String, Json)> = Vec::new();
                let ghost mut n: nat = 0;
                proof {
                    assert(entries_model(all, 0).remove(key@) =~= Map::empty());
                }
                while rest.len() > 0
                    invariant
                        self == Json::Obj(all),
                        n <= all@.len(),
                        rest@ == all@.skip(n as int),
                        entries_model(out, out@.len()) == entries_model(all, n).remove(key@),
                    decreases rest@.len(),
                {
                    let e = rest.remove(0);
                    let ghost before = out;
                    proof {
                        assert(e == all@[n as int]);
                        assert(rest@ =~= all@.skip((n + 1) as int));
                        insert_then_remove(entries_model(all, n), e.0@, e.1@, key@);
                        n = n + 1;
                    }
                    if !same(e.0.as_str(), key) {
                        out.push(e);
                        proof {
                            entries_model_of_prefix(before, out, before@.len());
                        }
                    }
                }
                Json::Obj(out)
            },
            _ => self,
        }
    }

    /// A string, or null.
    pub fn opt(s: &Option<String>) -> (r: Json)
        ensures
            r@ == opt_json(opt_string(*s)),
    {
        match s {
            Some(t) => Json::string(t.as_str()),
            None => Json::Null,
        }
    }

    /// The object with a member set. What is not an object becomes one.
    pub fn with(self, key: &str, value: Json) -> (r: Json)
        ensures
            r@ == self@.put(key@, value@),
    {
        match self {
            Json::Obj(v) => {
                let ghost before = v;
                let mut out: Vec<(String, Json)> = v;
                let mut i: usize = 0;
                while i < out.len()
                    invariant
                        self == Json::Obj(before),
                        i <= out@.len(),
                        out == before,
                        forall|k: int| 0 <= k < i ==> (#[trigger] out@[k]).0@ != key@,
                    decreases out@.len() - i,
                {
                    if same(out[i].0.as_str(), key) {
                        out.remove(i);
                        out.push((key.to_owned(), value));
                        proof {
                            entries_model_moved(before, out, i as int, before@.len());
                        }
                        return Json::Obj(out);
                    }
                    i += 1;
                }
                out.push((key.to_owned(), value));
                proof {
                    entries_model_of_prefix(before, out, before@.len());
                }
                Json::Obj(out)
            },
            _ => {
                let mut out: Vec<(String, Json)> = Vec::new();
                out.push((key.to_owned(), value));
                proof {
                    assert(entries_model(out, 0) == Map::<Seq<char>, JsonV>::empty());
                }
                Json::Obj(out)
            },
        }
    }
}

impl Clone for Json {
    fn clone(&self) -> (r: Json)
        ensures
            r@ == self@,
    {
        self.copy()
    }
}

proof fn insert_then_remove(
    m: Map<Seq<char>, JsonV>,
    k: Seq<char>,
    v: JsonV,
    key: Seq<char>,
)
    ensures
        m.insert(k, v).remove(key) == if k == key {
            m.remove(key)
        } else {
            m.remove(key).insert(k, v)
        },
{
    if k == key {
        assert(m.insert(k, v).remove(key) =~= m.remove(key));
    } else {
        assert(m.insert(k, v).remove(key) =~= m.remove(key).insert(k, v));
    }
}

/// The number that a decimal text denotes, null where it denotes none.
pub open spec fn decimal_json(t: Seq<char>) -> JsonV {
    match json_of_text(t) {
        Some(v) => v,
        None => JsonV::Null,
    }
}

/// The object with a number set, where there is one.
pub open spec fn put_decimal_v(body: JsonV, key: Seq<char>, t: Option<Seq<char>>) -> JsonV {
    match t {
        Some(s) => body.put(key, decimal_json(s)),
        None => body,
    }
}

/// The object with a number set, where there is one.
pub fn put_decimal(body: Json, key: &str, t: &Option<String>) -> (r: Json)
    ensures
        r@ == put_decimal_v(body@, key@, opt_string(*t)),
{
    match t {
        Some(s) => {
            let v = match Json::parse(s.as_str()) {
                Ok(v) => v,
                Err(_) => Json::Null,
            };
            body.with(key, v)
        },
        None => body,
    }
}

/// The values one after another, unchanged.
pub fn copies(v: &Vec<Json>) -> (r: Vec<Json>)
    ensures
        jsons(r@) == jsons(v@),
{
    let mut out: Vec<Json> = Vec::new();
    let mut i: usize = 0;
    while i < v.len()
        invariant
            i <= v@.len(),
            out@.len() == i,
            forall|k: int| 0 <= k < i ==> (#[trigger] out@[k])@ == v@[k]@,
        decreases v@.len() - i,
    {
        out.push(v[i].copy());
        i += 1;
    }
    proof {
        assert(jsons(out@) =~= jsons(v@));
    }
    out
}

/// Whether a value is the given string.
pub fn is_text(j: Option<&Json>, s: &str) -> (r: bool)
    ensures
        r == (opt_model(j) == Some(JsonV::Str(s@))),
{
    match j {
        Some(v) => match v.as_str() {
            Some(t) => same(t, s),
            None => false,
        },
        None => false,
    }
}

/// Moving the entry of a key to the end and giving it a value sets that key.
proof fn entries_model_moved(a: Vec<(String, Json)>, b: Vec<(String, Json)>, i: int, n: nat)
    requires
        0 <= i < n <= a@.len(),
        b@.len() == a@.len(),
        forall|k: int| 0 <= k < i ==> a@[k] == b@[k],
        forall|k: int| i <= k < n - 1 ==> b@[k] == a@[k + 1],
        b@[a@.len() - 1].0@ == a@[i].0@,
    ensures
        entries_model(b, (n - 1) as nat).remove(a@[i].0@) =~= entries_model(a, n).remove(a@[i].0@),
        n == a@.len() ==> entries_model(b, n) == entries_model(a, n).insert(
            a@[i].0@,
            b@[n - 1].1@,
        ),
    decreases n,
{
    if i < n - 1 {
        entries_model_moved(a, b, i, (n - 1) as nat);
        assert(b@[n - 2] == a@[n - 1]);
        let key = a@[i].0@;
        let p = entries_model(b, (n - 2) as nat);
        let q = entries_model(a, (n - 1) as nat);
        assert(entries_model(b, (n - 1) as nat) == p.insert(b@[n - 2].0@, b@[n - 2].1@));
        assert(entries_model(a, n) == q.insert(a@[n - 1].0@, a@[n - 1].1@));
        insert_then_remove(p, b@[n - 2].0@, b@[n - 2].1@, key);
        insert_then_remove(q, a@[n - 1].0@, a@[n - 1].1@, key);
    } else {
        entries_model_of_prefix(a, b, i as nat);
        assert(entries_model(b, i as nat).remove(a@[i].0@) =~= entries_model(a, n).remove(
            a@[i].0@,
        ));
    }
    if n == a@.len() {
        let key = a@[i].0@;
        let p = entries_model(b, (n - 1) as nat);
        let q = entries_model(a, n);
        assert(p.insert(key, b@[n - 1].1@) =~= p.remove(key).insert(key, b@[n - 1].1@));
        assert(q.insert(key, b@[n - 1].1@) =~= q.remove(key).insert(key, b@[n - 1].1@));
    }
}

/// A member that is set is read back, one that is taken out is not there, and the others are as
/// they were.
pub proof fn members_are_set_and_taken_out(m: Map<Seq<char>, JsonV>, key: Seq<char>, value: JsonV, other: Seq<char>)
    ensures
        JsonV::Obj(m).put(key, value).get(key) == Some(value),
        JsonV::Obj(m).put(key, value).at(key) == value,
        other != key ==> JsonV::Obj(m).put(key, value).get(other) == JsonV::Obj(m).get(other),
        JsonV::Obj(m).without(key).get(key) is None,
        other != key ==> JsonV::Obj(m).without(key).get(other) == JsonV::Obj(m).get(other),
        JsonV::empty().get(key) is None,
        JsonV::Obj(m).get(key) is None ==> JsonV::Obj(m).at(key) == JsonV::Null,
        m.contains_key(key) ==> JsonV::Obj(m).get(key) == Some(m[key]),
{
}

/// A value is read as what it is, and as nothing else: a text as a text, a number as a number
/// where it fits, a truth value as one.
pub proof fn values_are_read_as_what_they_are(s: Seq<char>, n: int, b: bool, items: Seq<JsonV>)
    ensures
        JsonV::Str(s).text() == Some(s),
        JsonV::Int(n).text() is None && JsonV::Null.text() is None && JsonV::Bool(b).text() is None,
        0 <= n <= u64::MAX ==> JsonV::Int(n).unsigned() == Some(n as u64),
        n < 0 || n > u64::MAX ==> JsonV::Int(n).unsigned() is None,
        i64::MIN <= n <= i64::MAX ==> JsonV::Int(n).signed() == Some(n as i64),
        n < i64::MIN || n > i64::MAX ==> JsonV::Int(n).signed() is None,
        JsonV::Str(s).signed() is None && JsonV::Str(s).unsigned() is None,
        JsonV::Bool(b).truth() == Some(b),
        JsonV::Str(s).truth() is None && JsonV::Int(n).truth() is None,
        JsonV::Arr(items).items() == Some(items),
        JsonV::Str(s).items() is None,
{
}

/// A text is read by its key.
pub proof fn texts_are_read_by_their_key(v: JsonV, key: Seq<char>)
    ensures
        v.text_at(key) == (match v.get(key) {
            Some(JsonV::Str(s)) => Some(s),
            _ => None,
        }),
{
}

/// Of two objects that are merged the second counts, and what it does not name stays.
pub proof fn patches_count(m: Map<Seq<char>, JsonV>, patch: Map<Seq<char>, JsonV>, key: Seq<char>)
    ensures
        patch.contains_key(key) ==> merged_members(m, patch).contains_pair(key, patch[key]),
        !patch.contains_key(key) ==> merged_members(m, patch).contains_key(key) == m.contains_key(
            key,
        ),
        !patch.contains_key(key) && m.contains_key(key) ==> merged_members(m, patch)[key] == m[key],
{
}

/// Members make an object of which the last of a key counts; its text is the members, in their
/// order, between braces and with commas between them.
pub proof fn members_make_an_object(m: MembersV, key: Seq<char>, v: JsonV, other: Seq<char>)
    ensures
        members_map(Seq::empty()) == Map::<Seq<char>, JsonV>::empty(),
        members_map(m.push((key, v))).contains_pair(key, v),
        other != key ==> members_map(m.push((key, v))).contains_key(other) == members_map(
            m,
        ).contains_key(other),
        other != key && members_map(m).contains_key(other) ==> members_map(m.push((key, v)))[other]
            == members_map(m)[other],
        object_text(seq![(key, v)]) == "{"@ + (text_of_json(JsonV::Str(key)) + ":"@ + text_of_json(
            v,
        )) + "}"@,
        m.len() > 0 ==> object_text(m.push((key, v))).len() == object_text(m).len() + 1
            + text_of_json(JsonV::Str(key)).len() + 1 + text_of_json(v).len(),
{
    reveal_strlit("{");
    reveal_strlit("}");
    reveal_strlit(":");
    reveal_strlit(",");
    let f = |e: (Seq<char>, JsonV)| text_of_json(JsonV::Str(e.0)) + ":"@ + text_of_json(e.1);
    let all = m.push((key, v)).map_values(f);
    assert(m.push((key, v)).drop_last() =~= m);
    assert(all.drop_last() =~= m.map_values(f));
    assert(seq![(key, v)].map_values(f)[0] == f((key, v)));
}

/// A number in decimal is sent as the number that it says, under its key, where there is one; a
/// missing text is null.
pub proof fn numbers_are_sent_as_they_say(body: JsonV, key: Seq<char>, t: Seq<char>)
    ensures
        put_decimal_v(body, key, None) == body,
        json_of_text(t) matches Some(v) ==> put_decimal_v(body, key, Some(t)) == body.put(key, v),
        json_of_text(t) matches Some(v) ==> decimal_json(t) == v,
        json_of_text(t) is None ==> decimal_json(t) == JsonV::Null,
        opt_json(Some(t)) == JsonV::Str(t),
        opt_json(None) == JsonV::Null,
{
}

/// What was read from a text is its value or why it is none, and never both.
pub proof fn texts_are_json_or_not(s: Seq<char>)
    ensures
        json_read(s) matches Ok(v) ==> json_of_text(s) == Some(v),
        json_read(s) matches Err(m) ==> json_of_text(s) is None && json_error_of_text(s) == m,
{
}

/// The entries of an object count by their keys, the last of each.
pub proof fn entries_count_by_their_keys(v: Vec<(String, Json)>, n: nat, key: Seq<char>)
    requires
        0 < n <= v@.len(),
    ensures
        entries_model(v, n).contains_pair(v@[n - 1].0@, v@[n - 1].1@),
        key != v@[n - 1].0@ ==> entries_model(v, n).contains_key(key) == entries_model(
            v,
            (n - 1) as nat,
        ).contains_key(key),
        key != v@[n - 1].0@ && entries_model(v, n).contains_key(key) ==> entries_model(v, n)[key]
            == entries_model(v, (n - 1) as nat)[key],
        entries_model(v, 0) == Map::<Seq<char>, JsonV>::empty(),
{
}

/// A list of values is modelled value by value, in its order; what is missing is missing in
/// the model too; and an array or an object that the program holds has the items and the
/// members of its model.
pub proof fn models_lose_nothing(
    s: Seq<Json>,
    i: int,
    t: Option<&str>,
    j: Option<&Json>,
    owned: Option<String>,
    v: Vec<Json>,
    k: int,
)
    requires
        0 <= i < s.len(),
        0 <= k < v@.len(),
    ensures
        jsons(s).len() == s.len() && jsons(s)[i] == s[i]@,
        opt_text(t) is Some <==> t is Some,
        t is Some ==> opt_text(t) == Some(t->0@),
        opt_model(j) is Some <==> j is Some,
        j is Some ==> opt_model(j) == Some(j->0@),
        opt_string(owned) is Some <==> owned is Some,
        owned is Some ==> opt_string(owned) == Some(owned->0@),
        Json::Arr(v)@ is Arr,
        Json::Arr(v)@->Arr_0.len() == v@.len() && Json::Arr(v)@->Arr_0[k] == v@[k]@,
{
}

} // verus!
