//! JSON documents as plain values. Text is read by serde_json, json5 or
//! noyalib and written back by serde_json; everything in between is ordinary
//! verified code over `JsonValue`.
use vstd::prelude::*;

verus! {

/// A JSON value. Object members keep the order in which the parser handed
/// them out.
#[derive(Debug)]
pub enum JsonValue {
    Null,
    Bool(bool),
    /// The number as serde_json prints it.
    Number(String),
    Str(String),
    Array(Vec<JsonValue>),
    Object(Vec<(String, JsonValue)>),
}

/// The mathematical value of a `JsonValue`.
pub enum Json {
    Null,
    Bool(bool),
    Number(Seq<char>),
    Str(Seq<char>),
    Array(Seq<Json>),
    Object(Seq<(Seq<char>, Json)>),
}

pub open spec fn json_view(v: JsonValue) -> Json
    decreases v,
{
    match v {
        JsonValue::Null => Json::Null,
        JsonValue::Bool(b) => Json::Bool(b),
        JsonValue::Number(n) => Json::Number(n@),
        JsonValue::Str(s) => Json::Str(s@),
        JsonValue::Array(items) => Json::Array(
            Seq::new(
                items@.len(),
                |i: int|
                    if 0 <= i < items@.len() {
                        json_view(items@[i])
                    } else {
                        Json::Null
                    },
            ),
        ),
        JsonValue::Object(members) => Json::Object(
            Seq::new(
                members@.len(),
                |i: int|
                    if 0 <= i < members@.len() {
                        (members@[i].0@, json_view(members@[i].1))
                    } else {
                        (Seq::empty(), Json::Null)
                    },
            ),
        ),
    }
}

impl View for JsonValue {
    type V = Json;

    open spec fn view(&self) -> Json {
        json_view(*self)
    }
}

/// The members of an object, each key and value by its view.
pub open spec fn members_view(m: Seq<(String, JsonValue)>) -> Seq<(Seq<char>, Json)> {
    Seq::new(m.len(), |i: int| (m[i].0@, json_view(m[i].1)))
}

pub proof fn lemma_object_view(m: Vec<(String, JsonValue)>)
    ensures
        json_view(JsonValue::Object(m)) == Json::Object(members_view(m@)),
{
    let j = json_view(JsonValue::Object(m));
    match j {
        Json::Object(s) => {
            assert(s.len() == m@.len());
            assert forall|i: int| 0 <= i < s.len() implies s[i] == members_view(m@)[i] by {}
            assert(s =~= members_view(m@));
        },
        _ => {},
    }
}

pub proof fn lemma_array_view(items: Vec<JsonValue>)
    ensures
        json_view(JsonValue::Array(items)) == Json::Array(items@.map_values(|x: JsonValue| json_view(x))),
{
    let j = json_view(JsonValue::Array(items));
    match j {
        Json::Array(s) => {
            assert(s =~= items@.map_values(|x: JsonValue| json_view(x)));
        },
        _ => {},
    }
}

/// The first member at or after `from` whose key is `key`.
pub open spec fn find_member_from(ms: Seq<(Seq<char>, Json)>, key: Seq<char>, from: int) -> Option<int>
    decreases ms.len() - from,
{
    if from < 0 || from >= ms.len() {
        None
    } else if ms[from].0 == key {
        Some(from)
    } else {
        find_member_from(ms, key, from + 1)
    }
}

/// Index of the member `key` of an object (its first, should a parser
/// ever hand out two).
pub open spec fn find_member(ms: Seq<(Seq<char>, Json)>, key: Seq<char>) -> Option<int> {
    find_member_from(ms, key, 0)
}

/// `value.get(key)`: the member `key` of an object.
pub open spec fn get(j: Json, key: Seq<char>) -> Option<Json> {
    match j {
        Json::Object(ms) => match find_member(ms, key) {
            Some(i) => Some(ms[i].1),
            None => None,
        },
        _ => None,
    }
}

pub open spec fn as_object(j: Option<Json>) -> Option<Seq<(Seq<char>, Json)>> {
    match j {
        Some(Json::Object(ms)) => Some(ms),
        _ => None,
    }
}

pub open spec fn as_array(j: Option<Json>) -> Option<Seq<Json>> {
    match j {
        Some(Json::Array(items)) => Some(items),
        _ => None,
    }
}

pub open spec fn as_str(j: Option<Json>) -> Option<Seq<char>> {
    match j {
        Some(Json::Str(s)) => Some(s),
        _ => None,
    }
}

pub open spec fn as_bool(j: Option<Json>) -> Option<bool> {
    match j {
        Some(Json::Bool(b)) => Some(b),
        _ => None,
    }
}

/// `ms` without the member at `find_member(ms, key)`, if there is one.
pub open spec fn without_member(ms: Seq<(Seq<char>, Json)>, key: Seq<char>) -> Seq<(Seq<char>, Json)> {
    match find_member(ms, key) {
        Some(i) => ms.remove(i),
        None => ms,
    }
}

proof fn lemma_find_member_from(ms: Seq<(Seq<char>, Json)>, key: Seq<char>, from: int)
    requires
        0 <= from <= ms.len(),
    ensures
        match find_member_from(ms, key, from) {
            Some(i) => from <= i < ms.len() && ms[i].0 == key && forall|j: int|
                from <= j < i ==> ms[j].0 != key,
            None => forall|j: int| from <= j < ms.len() ==> ms[j].0 != key,
        },
    decreases ms.len() - from,
{
    if from < ms.len() && ms[from].0 != key {
        lemma_find_member_from(ms, key, from + 1);
    }
}

/// Position of the member `key` in `members`, as `find_member` states it.
pub fn member_index(members: &Vec<(String, JsonValue)>, key: &str) -> (r: Option<usize>)
    ensures
        match r {
            Some(i) => find_member(members_view(members@), key@) == Some(i as int) && i < members@.len(),
            None => find_member(members_view(members@), key@) is None,
        },
{
    let ghost ms = members_view(members@);
    proof {
        lemma_find_member_from(ms, key@, 0);
    }
    let mut i: usize = 0;
    while i < members.len()
        invariant
            i <= members.len(),
            ms == members_view(members@),
            forall|j: int| 0 <= j < i ==> ms[j].0 != key@,
            find_member(ms, key@) == find_member_from(ms, key@, i as int),
        decreases members.len() - i,
    {
        if crate::text::str_eq(&crate::text::chars_of(members[i].0.as_str()), key) {
            assert(ms[i as int].0 == key@);
            return Some(i);
        }
        assert(ms[i as int].0 != key@);
        i = i + 1;
    }
    None
}

/// The view of an optional reference to a value.
pub open spec fn opt_view(r: Option<&JsonValue>) -> Option<Json> {
    match r {
        Some(v) => Some(json_view(*v)),
        None => None,
    }
}

/// `value.get(key)` on an optional value.
pub open spec fn get_in(j: Option<Json>, key: Seq<char>) -> Option<Json> {
    match j {
        Some(x) => get(x, key),
        None => None,
    }
}

/// `value.get(key)`: the member `key` of an object, as `get` states.
pub fn get_member<'a>(v: &'a JsonValue, key: &str) -> (r: Option<&'a JsonValue>)
    ensures
        opt_view(r) == get(json_view(*v), key@),
{
    match v {
        JsonValue::Object(m) => {
            proof {
                lemma_object_view(*m);
            }
            match member_index(m, key) {
                Some(i) => Some(&m[i].1),
                None => None,
            }
        },
        _ => None,
    }
}

/// The members of an object value.
pub fn object_members<'a>(v: Option<&'a JsonValue>) -> (r: Option<&'a Vec<(String, JsonValue)>>)
    ensures
        match r {
            Some(m) => as_object(opt_view(v)) == Some(members_view(m@)),
            None => as_object(opt_view(v)) is None,
        },
{
    match v {
        Some(JsonValue::Object(m)) => {
            proof {
                lemma_object_view(*m);
            }
            Some(m)
        },
        _ => None,
    }
}

/// The items of an array value.
pub fn array_items<'a>(v: Option<&'a JsonValue>) -> (r: Option<&'a Vec<JsonValue>>)
    ensures
        match r {
            Some(items) => as_array(opt_view(v)) == Some(items@.map_values(|x: JsonValue| json_view(x))),
            None => as_array(opt_view(v)) is None,
        },
{
    match v {
        Some(JsonValue::Array(items)) => {
            proof {
                lemma_array_view(*items);
            }
            Some(items)
        },
        _ => None,
    }
}

/// The text of a string value.
pub fn string_value<'a>(v: Option<&'a JsonValue>) -> (r: Option<&'a String>)
    ensures
        match r {
            Some(s) => as_str(opt_view(v)) == Some(s@),
            None => as_str(opt_view(v)) is None,
        },
{
    match v {
        Some(JsonValue::Str(s)) => Some(s),
        _ => None,
    }
}

/// The flag of a boolean value.
pub fn bool_value(v: Option<&JsonValue>) -> (r: Option<bool>)
    ensures
        r == as_bool(opt_view(v)),
{
    match v {
        Some(JsonValue::Bool(b)) => Some(*b),
        _ => None,
    }
}

/// Whether a value is a number or a string.
pub open spec fn number_or_string(j: Option<Json>) -> bool {
    match j {
        Some(Json::Number(_)) => true,
        Some(Json::Str(_)) => true,
        _ => false,
    }
}

pub fn is_number_or_string(v: Option<&JsonValue>) -> (r: bool)
    ensures
        r == number_or_string(opt_view(v)),
{
    match v {
        Some(JsonValue::Number(_)) => true,
        Some(JsonValue::Str(_)) => true,
        _ => false,
    }
}

pub open spec fn is_object(j: Option<Json>) -> bool {
    as_object(j) is Some
}

/// Where a scan of JSON-with-comments text stands.
#[derive(Debug, Clone, Copy, PartialEq, Eq, Structural)]
pub enum TextMode {
    Code,
    Str,
    StrEscape,
    LineComment,
    BlockComment,
}

/// The text from `i` on without its comments, the scan being in `mode` at `i`.
pub open spec fn uncommented_from(s: Seq<char>, i: int, mode: TextMode) -> Seq<char>
    decreases s.len() - i,
{
    if i < 0 || i >= s.len() {
        seq![]
    } else {
        let c = s[i];
        let next_is = |d: char| i + 1 < s.len() && s[i + 1] == d;
        match mode {
            TextMode::Code => if c == '"' {
                seq![c] + uncommented_from(s, i + 1, TextMode::Str)
            } else if c == '/' && next_is('/') {
                uncommented_from(s, i + 2, TextMode::LineComment)
            } else if c == '/' && next_is('*') {
                uncommented_from(s, i + 2, TextMode::BlockComment)
            } else {
                seq![c] + uncommented_from(s, i + 1, TextMode::Code)
            },
            TextMode::Str => if c == '\\' {
                seq![c] + uncommented_from(s, i + 1, TextMode::StrEscape)
            } else if c == '"' {
                seq![c] + uncommented_from(s, i + 1, TextMode::Code)
            } else {
                seq![c] + uncommented_from(s, i + 1, TextMode::Str)
            },
            TextMode::StrEscape => seq![c] + uncommented_from(s, i + 1, TextMode::Str),
            TextMode::LineComment => if c == '\n' {
                seq![c] + uncommented_from(s, i + 1, TextMode::Code)
            } else {
                uncommented_from(s, i + 1, TextMode::LineComment)
            },
            TextMode::BlockComment => if c == '*' && next_is('/') {
                uncommented_from(s, i + 2, TextMode::Code)
            } else {
                uncommented_from(s, i + 1, TextMode::BlockComment)
            },
        }
    }
}

/// Whitespace between JSON tokens.
pub open spec fn json_ws(c: char) -> bool {
    c == ' ' || c == '\t' || c == '\n' || c == '\r'
}

/// The first position at or after `i` that holds no JSON whitespace.
pub open spec fn next_token(s: Seq<char>, i: int) -> int
    decreases s.len() - i,
{
    if i < 0 || i >= s.len() {
        s.len() as int
    } else if json_ws(s[i]) {
        next_token(s, i + 1)
    } else {
        i
    }
}

/// Whether the comma at `i` is the last item separator before a closing
/// bracket or brace.
pub open spec fn trailing_comma(s: Seq<char>, i: int) -> bool {
    let j = next_token(s, i + 1);
    j < s.len() && (s[j] == '}' || s[j] == ']')
}

/// The text from `i` on without trailing commas outside strings, the scan
/// being in `mode` (`Code`, `Str` or `StrEscape`) at `i`.
pub open spec fn without_trailing_commas_from(s: Seq<char>, i: int, mode: TextMode) -> Seq<char>
    decreases s.len() - i,
{
    if i < 0 || i >= s.len() {
        seq![]
    } else {
        let c = s[i];
        match mode {
            TextMode::Str => if c == '\\' {
                seq![c] + without_trailing_commas_from(s, i + 1, TextMode::StrEscape)
            } else if c == '"' {
                seq![c] + without_trailing_commas_from(s, i + 1, TextMode::Code)
            } else {
                seq![c] + without_trailing_commas_from(s, i + 1, TextMode::Str)
            },
            TextMode::StrEscape => seq![c] + without_trailing_commas_from(s, i + 1, TextMode::Str),
            _ => if c == '"' {
                seq![c] + without_trailing_commas_from(s, i + 1, TextMode::Str)
            } else if c == ',' && trailing_comma(s, i) {
                without_trailing_commas_from(s, i + 1, TextMode::Code)
            } else {
                seq![c] + without_trailing_commas_from(s, i + 1, TextMode::Code)
            },
        }
    }
}

/// JSON with comments and trailing commas made plain JSON: comments outside
/// strings go first, then every comma that only precedes a closing bracket.
pub open spec fn normalized_json(s: Seq<char>) -> Seq<char> {
    let t = uncommented_from(s, 0, TextMode::Code);
    without_trailing_commas_from(t, 0, TextMode::Code)
}

fn uncommented(s: &[char]) -> (out: Vec<char>)
    ensures
        out@ == uncommented_from(s@, 0, TextMode::Code),
{
    let mut out: Vec<char> = Vec::new();
    let mut mode = TextMode::Code;
    let mut i: usize = 0;
    while i < s.len()
        invariant
            i <= s.len(),
            out@ + uncommented_from(s@, i as int, mode) == uncommented_from(s@, 0, TextMode::Code),
        decreases s.len() - i,
    {
        let c = s[i];
        let next_slash = i + 1 < s.len() && s[i + 1] == '/';
        let next_star = i + 1 < s.len() && s[i + 1] == '*';
        let ghost before = out@;
        let ghost m0 = mode;
        let ghost i0 = i;
        match mode {
            TextMode::Code => {
                if c == '"' {
                    out.push(c);
                    mode = TextMode::Str;
                    i = i + 1;
                } else if c == '/' && next_slash {
                    mode = TextMode::LineComment;
                    i = i + 2;
                } else if c == '/' && next_star {
                    mode = TextMode::BlockComment;
                    i = i + 2;
                } else {
                    out.push(c);
                    i = i + 1;
                }
            },
            TextMode::Str => {
                out.push(c);
                if c == '\\' {
                    mode = TextMode::StrEscape;
                } else if c == '"' {
                    mode = TextMode::Code;
                }
                i = i + 1;
            },
            TextMode::StrEscape => {
                out.push(c);
                mode = TextMode::Str;
                i = i + 1;
            },
            TextMode::LineComment => {
                if c == '\n' {
                    out.push(c);
                    mode = TextMode::Code;
                }
                i = i + 1;
            },
            TextMode::BlockComment => {
                if c == '*' && next_slash {
                    mode = TextMode::Code;
                    i = i + 2;
                } else {
                    i = i + 1;
                }
            },
        }
        assert(before + uncommented_from(s@, i0 as int, m0) =~= out@ + uncommented_from(s@, i as int, mode));
    }
    assert(uncommented_from(s@, i as int, mode) =~= Seq::<char>::empty());
    assert(out@ =~= out@ + uncommented_from(s@, i as int, mode));
    out
}

fn next_token_exec(s: &[char], from: usize) -> (j: usize)
    requires
        from <= s.len(),
    ensures
        j as int == next_token(s@, from as int),
        from <= j <= s.len(),
{
    let mut j = from;
    while j < s.len() && (s[j] == ' ' || s[j] == '\t' || s[j] == '\n' || s[j] == '\r')
        invariant
            from <= j <= s.len(),
            next_token(s@, from as int) == next_token(s@, j as int),
        decreases s.len() - j,
    {
        j = j + 1;
    }
    j
}

fn without_trailing_commas(s: &[char]) -> (out: Vec<char>)
    ensures
        out@ == without_trailing_commas_from(s@, 0, TextMode::Code),
{
    let mut out: Vec<char> = Vec::new();
    let mut mode = TextMode::Code;
    let mut i: usize = 0;
    while i < s.len()
        invariant
            i <= s.len(),
            mode == TextMode::Code || mode == TextMode::Str || mode == TextMode::StrEscape,
            out@ + without_trailing_commas_from(s@, i as int, mode) == without_trailing_commas_from(s@, 0, TextMode::Code),
        decreases s.len() - i,
    {
        let c = s[i];
        let ghost before = out@;
        let ghost m0 = mode;
        let ghost i0 = i;
        match mode {
            TextMode::Str => {
                out.push(c);
                if c == '\\' {
                    mode = TextMode::StrEscape;
                } else if c == '"' {
                    mode = TextMode::Code;
                }
            },
            TextMode::StrEscape => {
                out.push(c);
                mode = TextMode::Str;
            },
            _ => {
                if c == '"' {
                    out.push(c);
                    mode = TextMode::Str;
                } else if c == ',' {
                    let j = next_token_exec(s, i + 1);
                    if !(j < s.len() && (s[j] == '}' || s[j] == ']')) {
                        out.push(c);
                    }
                    mode = TextMode::Code;
                } else {
                    out.push(c);
                    mode = TextMode::Code;
                }
            },
        }
        i = i + 1;
        assert(before + without_trailing_commas_from(s@, i0 as int, m0) =~= out@ + without_trailing_commas_from(s@, i as int, mode));
    }
    assert(out@ =~= out@ + without_trailing_commas_from(s@, i as int, mode));
    out
}

/// Plain JSON from JSON with comments and trailing commas, as
/// `normalized_json` states.
pub fn strip_json_comments_and_trailing_commas(content: &str) -> (out: String)
    ensures
        out@ == normalized_json(content@),
{
    let cs = crate::text::chars_of(content);
    let t = uncommented(&cs);
    let u = without_trailing_commas(&t);
    crate::text::string_of(&u)
}

/// The view of a parse result: the document, or the error's message.
pub open spec fn read_view(r: Result<JsonValue, String>) -> Result<Json, Seq<char>> {
    match r {
        Ok(v) => Ok(json_view(v)),
        Err(e) => Err(e@),
    }
}

/// What `serde_json::from_str::<serde_json::Value>` makes of a text: the
/// document, or the message of its error.
pub uninterp spec fn serde_json_read(text: Seq<char>) -> Result<Json, Seq<char>>;

/// What `json5::from_str::<serde_json::Value>` makes of a text.
pub uninterp spec fn json5_read(text: Seq<char>) -> Result<Json, Seq<char>>;

/// What `noyalib::from_str::<serde_json::Value>` makes of a YAML text.
pub uninterp spec fn yaml_read(text: Seq<char>) -> Result<Json, Seq<char>>;

/// The text `serde_json::to_string_pretty` writes for a value.
pub uninterp spec fn serde_json_pretty(v: Json) -> Seq<char>;

/// The text `serde_json::to_string` writes for a value.
pub uninterp spec fn serde_json_compact(v: Json) -> Seq<char>;

#[verifier::external_type_specification]
#[verifier::external_body]
pub struct ExSerdeJsonValue(serde_json::Value);

/// Moves a `serde_json::Value` into a `JsonValue`, variant by variant; a
/// number keeps the text serde_json prints for it. No contract: the readers
/// below state what their converted result is.
#[verifier::external_body]
fn from_serde(v: serde_json::Value) -> JsonValue {
    match v {
        serde_json::Value::Null => JsonValue::Null,
        serde_json::Value::Bool(b) => JsonValue::Bool(b),
        serde_json::Value::Number(n) => JsonValue::Number(n.to_string()),
        serde_json::Value::String(s) => JsonValue::Str(s),
        serde_json::Value::Array(a) => JsonValue::Array(a.into_iter().map(from_serde).collect()),
        serde_json::Value::Object(m) => JsonValue::Object(m.into_iter().map(|(k, x)| (k, from_serde(x))).collect()),
    }
}

/// Builds the `serde_json::Value` of a `JsonValue`, variant by variant; a
/// number text serde_json does not read back becomes `null`. No contract:
/// `write_json_pretty` states what is written.
#[verifier::external_body]
fn to_serde(v: &JsonValue) -> serde_json::Value {
    match v {
        JsonValue::Null => serde_json::Value::Null,
        JsonValue::Bool(b) => serde_json::Value::Bool(*b),
        JsonValue::Number(n) => n.parse::<serde_json::Number>().map_or(serde_json::Value::Null, serde_json::Value::Number),
        JsonValue::Str(s) => serde_json::Value::String(s.clone()),
        JsonValue::Array(a) => serde_json::Value::Array(a.iter().map(to_serde).collect()),
        JsonValue::Object(m) => serde_json::Value::Object(m.iter().map(|(k, x)| (k.clone(), to_serde(x))).collect()),
    }
}

/// `serde_json::from_str::<serde_json::Value>(text)`, with the error as its
/// message; the result is `serde_json_read(text)`.
#[verifier::external_body]
pub(crate) fn read_json(text: &str) -> (r: Result<JsonValue, String>)
    ensures
        read_view(r) == serde_json_read(text@),
{
    serde_json::from_str::<serde_json::Value>(text).map(from_serde).map_err(|e| e.to_string())
}

/// `json5::from_str::<serde_json::Value>(text)`, with the error as its
/// message; the result is `json5_read(text)`.
#[verifier::external_body]
pub(crate) fn read_json5(text: &str) -> (r: Result<JsonValue, String>)
    ensures
        read_view(r) == json5_read(text@),
{
    json5::from_str::<serde_json::Value>(text).map(from_serde).map_err(|e| e.to_string())
}

/// `noyalib::from_str::<serde_json::Value>(text)`, with the error as its
/// message; the result is `yaml_read(text)`.
#[verifier::external_body]
pub(crate) fn read_yaml(text: &str) -> (r: Result<JsonValue, String>)
    ensures
        read_view(r) == yaml_read(text@),
{
    noyalib::from_str::<serde_json::Value>(text).map(from_serde).map_err(|e| e.to_string())
}

/// `serde_json::to_string_pretty` of the value, which cannot fail for a
/// `serde_json::Value` (its map keys are strings); the text is
/// `serde_json_pretty(v@)`.
#[verifier::external_body]
pub(crate) fn write_json_pretty(v: &JsonValue) -> (s: String)
    ensures
        s@ == serde_json_pretty(v@),
{
    serde_json::to_string_pretty(&to_serde(v)).unwrap_or_default()
}

/// `serde_json::to_string` of the value, which cannot fail for a
/// `serde_json::Value` (its map keys are strings); the text is
/// `serde_json_compact(v@)`.
#[verifier::external_body]
pub(crate) fn write_json(v: &JsonValue) -> (s: String)
    ensures
        s@ == serde_json_compact(v@),
{
    serde_json::to_string(&to_serde(v)).unwrap_or_default()
}

/// A JSON document read from its text (see `serde_json_read`).
pub fn parse_json(text: &str) -> (r: Result<JsonValue, String>)
    ensures
        read_view(r) == serde_json_read(text@),
{
    read_json(text)
}

/// The indented text of a JSON document (see `serde_json_pretty`).
pub fn render_json(v: &JsonValue) -> (s: String)
    ensures
        s@ == serde_json_pretty(v@),
{
    write_json_pretty(v)
}

} // verus!
