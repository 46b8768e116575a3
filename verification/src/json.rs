//! Reading JSON response bodies with serde_json. A parsed body keeps the text
//! it was parsed from, and a cursor the path it took into the body; what is
//! read out of them is stated over that text and path.

use vstd::prelude::*;
use vstd::string::*;

verus! {

/// serde_json's `Value`, carried opaquely inside parsed documents.
#[verifier::external_type_specification]
#[verifier::external_body]
pub struct ExJsonValue(serde_json::Value);

/// One step into a JSON value: an object member or an array element.
pub enum JsonStep {
    Key(String),
    Index(usize),
}

pub enum JsonStepView {
    Key(Seq<char>),
    Index(nat),
}

impl View for JsonStep {
    type V = JsonStepView;

    open spec fn view(&self) -> JsonStepView {
        match self {
            JsonStep::Key(k) => JsonStepView::Key(k@),
            JsonStep::Index(i) => JsonStepView::Index(*i as nat),
        }
    }
}

pub open spec fn steps_view(steps: Seq<JsonStep>) -> Seq<JsonStepView> {
    steps.map_values(|s: JsonStep| s@)
}

/// The member step `key`.
pub open spec fn key(k: Seq<char>) -> JsonStepView {
    JsonStepView::Key(k)
}

/// The step into the member `k`.
pub fn key_step(k: &str) -> (s: JsonStep)
    ensures
        s@ == key(k@),
{
    JsonStep::Key(String::from_str(k))
}

/// The path of member steps `a`.
pub fn path1(a: &str) -> (p: Vec<JsonStep>)
    ensures
        steps_view(p@) == seq![key(a@)],
{
    let mut p: Vec<JsonStep> = Vec::new();
    p.push(key_step(a));
    assert(steps_view(p@) =~= seq![key(a@)]);
    p
}

/// The path of member steps `a`, `b`.
pub fn path2(a: &str, b: &str) -> (p: Vec<JsonStep>)
    ensures
        steps_view(p@) == seq![key(a@), key(b@)],
{
    let mut p: Vec<JsonStep> = Vec::new();
    p.push(key_step(a));
    p.push(key_step(b));
    assert(steps_view(p@) =~= seq![key(a@), key(b@)]);
    p
}

/// The path of member steps `a`, `b`, `c`.
pub fn path3(a: &str, b: &str, c: &str) -> (p: Vec<JsonStep>)
    ensures
        steps_view(p@) == seq![key(a@), key(b@), key(c@)],
{
    let mut p: Vec<JsonStep> = Vec::new();
    p.push(key_step(a));
    p.push(key_step(b));
    p.push(key_step(c));
    assert(steps_view(p@) =~= seq![key(a@), key(b@), key(c@)]);
    p
}

/// The path of member steps `a`, `b`, `c`, `d`.
pub fn path4(a: &str, b: &str, c: &str, d: &str) -> (p: Vec<JsonStep>)
    ensures
        steps_view(p@) == seq![key(a@), key(b@), key(c@), key(d@)],
{
    let mut p: Vec<JsonStep> = Vec::new();
    p.push(key_step(a));
    p.push(key_step(b));
    p.push(key_step(c));
    p.push(key_step(d));
    assert(steps_view(p@) =~= seq![key(a@), key(b@), key(c@), key(d@)]);
    p
}

/// The path of member steps `a`, `b` and then element `i`.
pub fn path2_index(a: &str, b: &str, i: usize) -> (p: Vec<JsonStep>)
    ensures
        steps_view(p@) == seq![key(a@), key(b@), JsonStepView::Index(i as nat)],
{
    let mut p: Vec<JsonStep> = Vec::new();
    p.push(key_step(a));
    p.push(key_step(b));
    p.push(JsonStep::Index(i));
    assert(steps_view(p@) =~= seq![key(a@), key(b@), JsonStepView::Index(i as nat)]);
    p
}

/// `tail` prefixed with the member step `k` and the element step `i`.
pub fn member_element_path(k: &str, i: usize, tail: Vec<JsonStep>) -> (p: Vec<JsonStep>)
    ensures
        steps_view(p@) == seq![key(k@), JsonStepView::Index(i as nat)] + steps_view(tail@),
{
    let mut p: Vec<JsonStep> = Vec::new();
    p.push(key_step(k));
    p.push(JsonStep::Index(i));
    let mut tail = tail;
    let ghost t = tail@;
    p.append(&mut tail);
    assert(steps_view(p@) =~= seq![key(k@), JsonStepView::Index(i as nat)] + steps_view(t));
    p
}

/// `tail` prefixed with the element step `i`.
pub fn element_path(i: usize, tail: Vec<JsonStep>) -> (p: Vec<JsonStep>)
    ensures
        steps_view(p@) == seq![JsonStepView::Index(i as nat)] + steps_view(tail@),
{
    let mut p: Vec<JsonStep> = Vec::new();
    p.push(JsonStep::Index(i));
    let mut tail = tail;
    let ghost t = tail@;
    p.append(&mut tail);
    assert(steps_view(p@) =~= seq![JsonStepView::Index(i as nat)] + steps_view(t));
    p
}

/// Whether serde_json accepts `body` as a JSON document.
pub uninterp spec fn json_parses(body: Seq<char>) -> bool;

/// The compact JSON text (serde_json's `Display`) of the value reached from
/// the document `body` by indexing along `path` (serde_json's `Index`, which
/// gives `null` for a missing member or element).
pub uninterp spec fn json_text(body: Seq<char>, path: Seq<JsonStepView>) -> Seq<char>;

/// The number of elements of the value reached along `path`, when it is an
/// array (serde_json's `as_array`).
pub uninterp spec fn json_array_len(body: Seq<char>, path: Seq<JsonStepView>) -> Option<nat>;

/// The contents of the value reached along `path`, when it is a string
/// (serde_json's `as_str`).
pub uninterp spec fn json_str(body: Seq<char>, path: Seq<JsonStepView>) -> Option<Seq<char>>;

/// A JSON document parsed from a response body. Only `parse_json` builds
/// one, so `value` is always serde_json's parse of the source text.
pub struct ParsedJson {
    value: serde_json::Value,
    source: Ghost<Seq<char>>,
}

impl View for ParsedJson {
    type V = Seq<char>;

    /// The text the document was parsed from.
    closed spec fn view(&self) -> Seq<char> {
        self.source@
    }
}

/// serde_json's `from_str::<Value>`: succeeds exactly on the texts that
/// serde_json accepts as JSON (`json_parses`).
#[verifier::external_body]
fn parse_value(body: &str) -> (r: Option<serde_json::Value>)
    ensures
        r is Some <==> json_parses(body@),
{
    serde_json::from_str::<serde_json::Value>(body).ok()
}

/// Parses a response body; `None` when it is not JSON.
pub fn parse_json(body: &str) -> (r: Option<ParsedJson>)
    ensures
        r is Some <==> json_parses(body@),
        r matches Some(p) ==> p@ == body@,
{
    match parse_value(body) {
        Some(value) => Some(ParsedJson { value, source: Ghost(body@) }),
        None => None,
    }
}

/// A position in a parsed document: the value reached from the document
/// along `path`. Cursors are only built by `cursor` and `step`, so the value
/// is always the one serde_json's `Index` reaches along the path in the parse
/// of the source text.
pub struct JsonCursor<'a> {
    value: &'a serde_json::Value,
    source: Ghost<Seq<char>>,
    path: Ghost<Seq<JsonStepView>>,
}

impl<'a> View for JsonCursor<'a> {
    type V = (Seq<char>, Seq<JsonStepView>);

    /// The source text of the document and the path to the value.
    closed spec fn view(&self) -> (Seq<char>, Seq<JsonStepView>) {
        (self.source@, self.path@)
    }
}

/// serde_json's `Index` by a member name (`null` when there is none).
#[verifier::external_body]
fn member_of<'a>(v: &'a serde_json::Value, k: &str) -> &'a serde_json::Value {
    &v[k]
}

/// serde_json's `Index` by an array position (`null` when there is none).
#[verifier::external_body]
fn element_of<'a>(v: &'a serde_json::Value, i: usize) -> &'a serde_json::Value {
    &v[i]
}

/// The whole document.
pub fn cursor<'a>(doc: &'a ParsedJson) -> (c: JsonCursor<'a>)
    ensures
        c@ == (doc@, Seq::<JsonStepView>::empty()),
{
    JsonCursor { value: &doc.value, source: Ghost(doc@), path: Ghost(Seq::empty()) }
}

/// One step further.
pub fn step<'a>(c: &JsonCursor<'a>, s: &JsonStep) -> (r: JsonCursor<'a>)
    ensures
        r@ == (c@.0, c@.1.push(s@)),
{
    let value = match s {
        JsonStep::Key(k) => member_of(c.value, k.as_str()),
        JsonStep::Index(i) => element_of(c.value, *i),
    };
    JsonCursor { value, source: Ghost(c.source@), path: Ghost(c.path@.push(s@)) }
}

/// The value along `path`.
pub fn walk<'a>(doc: &'a ParsedJson, path: &[JsonStep]) -> (c: JsonCursor<'a>)
    ensures
        c@ == (doc@, steps_view(path@)),
{
    let mut c = cursor(doc);
    let mut k: usize = 0;
    while k < path.len()
        invariant
            k <= path@.len(),
            c@ == (doc@, steps_view(path@.take(k as int))),
        decreases path@.len() - k,
    {
        c = step(&c, &path[k]);
        assert(steps_view(path@.take(k + 1)) =~= steps_view(path@.take(k as int)).push(path@[k as int]@));
        k = k + 1;
    }
    assert(path@.take(k as int) =~= path@);
    c
}

/// serde_json's `to_string` (its `Display`) of the value at the cursor.
#[verifier::external_body]
fn cursor_text(c: &JsonCursor) -> (r: String)
    ensures
        r@ == json_text(c@.0, c@.1),
{
    c.value.to_string()
}

/// serde_json's `as_array().map(len)` of the value at the cursor.
#[verifier::external_body]
fn cursor_array_len(c: &JsonCursor) -> (r: Option<usize>)
    ensures
        r matches Some(n) ==> json_array_len(c@.0, c@.1) == Some(n as nat),
        r is None ==> json_array_len(c@.0, c@.1) is None,
{
    c.value.as_array().map(|a| a.len())
}

/// serde_json's `as_str` of the value at the cursor.
#[verifier::external_body]
fn cursor_str(c: &JsonCursor) -> (r: Option<String>)
    ensures
        r matches Some(s) ==> json_str(c@.0, c@.1) == Some(s@),
        r is None ==> json_str(c@.0, c@.1) is None,
{
    c.value.as_str().map(|s| s.to_string())
}

/// The JSON text of the value along `path`.
pub fn json_text_at(doc: &ParsedJson, path: &[JsonStep]) -> (r: String)
    ensures
        r@ == json_text(doc@, steps_view(path@)),
{
    cursor_text(&walk(doc, path))
}

/// The length of the array along `path`, if it is one.
pub fn json_array_len_at(doc: &ParsedJson, path: &[JsonStep]) -> (r: Option<usize>)
    ensures
        r matches Some(n) ==> json_array_len(doc@, steps_view(path@)) == Some(n as nat),
        r is None ==> json_array_len(doc@, steps_view(path@)) is None,
{
    cursor_array_len(&walk(doc, path))
}

/// The string along `path`, if it is one.
pub fn json_str_at(doc: &ParsedJson, path: &[JsonStep]) -> (r: Option<String>)
    ensures
        r matches Some(s) ==> json_str(doc@, steps_view(path@)) == Some(s@),
        r is None ==> json_str(doc@, steps_view(path@)) is None,
{
    cursor_str(&walk(doc, path))
}

} // verus!
