//! The JSON values that a blob's payload and service inputs hold, with the
//! compact JSON text that they are written as.
use vstd::prelude::*;
use crate::text::{lemma_text_lt_order, hex_digit, hex_digit_str, int_text, push_dec, push_int, str_eq, str_lt, text_lt};
use crate::first::{is_first_where, lemma_first_where_exists, lemma_first_where_unique};

verus! {

/// A JSON number: an integer, or the decimal text of a non-integral number.
#[derive(Debug, Clone, PartialEq)]
pub enum JsonNumber {
    PosInt(u64),
    NegInt(i64),
    Float(String),
}

/// A JSON value. Object entries are kept in strictly ascending key order,
/// as `std`'s `String` orders them, when built through [`Json::new_object`]
/// and [`Json::insert`]: such a value is well-formed (`json_wf`), a map
/// with each key once.
#[derive(Debug, PartialEq)]
pub enum Json {
    Null,
    Bool(bool),
    Number(JsonNumber),
    String(String),
    Array(Vec<Json>),
    Object(Vec<(String, Json)>),
}

/// The mathematical value of a JSON number.
pub enum NumV {
    Int(int),
    Float(Seq<char>),
}

/// The mathematical value of a JSON value.
pub enum JsonV {
    Null,
    Bool(bool),
    Number(NumV),
    Str(Seq<char>),
    Array(Seq<JsonV>),
    Object(Seq<(Seq<char>, JsonV)>),
}

impl DeepView for JsonNumber {
    type V = NumV;

    open spec fn deep_view(&self) -> NumV {
        match self {
            JsonNumber::PosInt(u) => NumV::Int(*u as int),
            JsonNumber::NegInt(i) => NumV::Int(*i as int),
            JsonNumber::Float(t) => NumV::Float(t@),
        }
    }
}

/// The mathematical value of a JSON value.
pub open spec fn json_view(j: Json) -> JsonV
    decreases j,
{
    match j {
        Json::Null => JsonV::Null,
        Json::Bool(b) => JsonV::Bool(b),
        Json::Number(n) => JsonV::Number(n.deep_view()),
        Json::String(s) => JsonV::Str(s@),
        Json::Array(v) => JsonV::Array(
            Seq::new(
                v@.len(),
                |i: int|
                    if 0 <= i < v@.len() {
                        proof {
                            assert(decreases_to!(j => v));
                            assert(decreases_to!(v => v@));
                            assert(decreases_to!(v@ => v@[i]));
                        }
                        json_view(v@[i])
                    } else {
                        JsonV::Null
                    },
            ),
        ),
        Json::Object(v) => JsonV::Object(
            Seq::new(
                v@.len(),
                |i: int|
                    if 0 <= i < v@.len() {
                        proof {
                            assert(decreases_to!(j => v));
                            assert(decreases_to!(v => v@));
                            assert(decreases_to!(v@ => v@[i]));
                            assert(decreases_to!(v@[i] => v@[i].1));
                        }
                        (v@[i].0@, json_view(v@[i].1))
                    } else {
                        (Seq::empty(), JsonV::Null)
                    },
            ),
        ),
    }
}

impl DeepView for Json {
    type V = JsonV;

    open spec fn deep_view(&self) -> JsonV {
        json_view(*self)
    }
}

/// The views of the entries of an object.
pub open spec fn entries_view(v: Seq<(String, Json)>) -> Seq<(Seq<char>, JsonV)> {
    Seq::new(v.len(), |i: int| (v[i].0@, v[i].1.deep_view()))
}

/// The views of the items of an array.
pub open spec fn items_view(v: Seq<Json>) -> Seq<JsonV> {
    Seq::new(v.len(), |i: int| v[i].deep_view())
}

pub proof fn lemma_object_view(j: &Json)
    requires
        j is Object,
    ensures
        j.deep_view() == JsonV::Object(entries_view(j->Object_0@)),
{
    match j {
        Json::Object(v) => {
            let d = j.deep_view()->Object_0;
            assert(d.len() == v@.len());
            assert(d =~= entries_view(v@));
        },
        _ => {},
    }
}

pub proof fn lemma_array_view(j: &Json)
    requires
        j is Array,
    ensures
        j.deep_view() == JsonV::Array(items_view(j->Array_0@)),
{
    assert(j.deep_view()->Array_0 =~= items_view(j->Array_0@));
}

// ---------------------------------------------------------------------------
// Object entries: lookup and insertion
// ---------------------------------------------------------------------------

/// `i` is the first entry whose key is `k`.
pub open spec fn is_first_key(es: Seq<(Seq<char>, JsonV)>, k: Seq<char>, i: int) -> bool {
    is_first_where(es, |e: (Seq<char>, JsonV)| e.0 == k, i)
}

/// The index of the first entry with key `k`, or the length when there is none.
pub open spec fn key_index(es: Seq<(Seq<char>, JsonV)>, k: Seq<char>) -> int {
    if exists|i: int| is_first_key(es, k, i) {
        choose|i: int| is_first_key(es, k, i)
    } else {
        es.len() as int
    }
}

/// `i` is the first entry whose key sorts after `k`.
pub open spec fn is_first_after(es: Seq<(Seq<char>, JsonV)>, k: Seq<char>, i: int) -> bool {
    is_first_where(es, |e: (Seq<char>, JsonV)| text_lt(k, e.0), i)
}

/// Where a new key `k` goes: before the first key that sorts after it.
pub open spec fn insert_index(es: Seq<(Seq<char>, JsonV)>, k: Seq<char>) -> int {
    if exists|i: int| is_first_after(es, k, i) {
        choose|i: int| is_first_after(es, k, i)
    } else {
        es.len() as int
    }
}

/// The value stored under `k`, if any.
pub open spec fn lookup(es: Seq<(Seq<char>, JsonV)>, k: Seq<char>) -> Option<JsonV> {
    let i = key_index(es, k);
    if i < es.len() {
        Some(es[i].1)
    } else {
        None
    }
}

/// Entries after storing `v` under `k`: an existing key keeps its place and
/// takes the new value; a new key goes in key order.
pub open spec fn map_insert(es: Seq<(Seq<char>, JsonV)>, k: Seq<char>, v: JsonV) -> Seq<
    (Seq<char>, JsonV),
> {
    let i = key_index(es, k);
    if i < es.len() {
        es.update(i, (k, v))
    } else {
        es.insert(insert_index(es, k), (k, v))
    }
}

/// Member lookup: the value under `k` when `j` is an object.
pub open spec fn get_spec(j: JsonV, k: Seq<char>) -> Option<JsonV> {
    match j {
        JsonV::Object(es) => lookup(es, k),
        _ => None,
    }
}

/// `j` with `v` stored under `k` when `j` is an object; unchanged otherwise.
pub open spec fn insert_spec(j: JsonV, k: Seq<char>, v: JsonV) -> JsonV {
    match j {
        JsonV::Object(es) => JsonV::Object(map_insert(es, k, v)),
        _ => j,
    }
}

proof fn lemma_first_key_unique(es: Seq<(Seq<char>, JsonV)>, k: Seq<char>, i: int)
    requires
        is_first_key(es, k, i),
    ensures
        key_index(es, k) == i,
{
    let c = choose|x: int| is_first_key(es, k, x);
    lemma_first_where_unique(es, |e: (Seq<char>, JsonV)| e.0 == k, i, c);
}

proof fn lemma_first_after_unique(es: Seq<(Seq<char>, JsonV)>, k: Seq<char>, i: int)
    requires
        is_first_after(es, k, i),
    ensures
        insert_index(es, k) == i,
{
    let c = choose|x: int| is_first_after(es, k, x);
    lemma_first_where_unique(es, |e: (Seq<char>, JsonV)| text_lt(k, e.0), i, c);
}

/// Index of the first entry of `es` with key `k`, or its length.
fn find_key(es: &Vec<(String, Json)>, k: &str) -> (r: usize)
    ensures
        r == key_index(entries_view(es@), k@),
        r <= es@.len(),
{
    let ghost ev = entries_view(es@);
    let n = es.len();
    let mut i: usize = 0;
    while i < n
        invariant
            n == es@.len(),
            ev == entries_view(es@),
            i <= n,
            forall|j: int| 0 <= j < i ==> #[trigger] ev[j].0 != k@,
        decreases n - i,
    {
        if str_eq(es[i].0.as_str(), k) {
            proof {
                assert(is_first_key(ev, k@, i as int));
                lemma_first_key_unique(ev, k@, i as int);
            }
            return i;
        }
        i = i + 1;
    }
    assert(!exists|x: int| is_first_key(ev, k@, x));
    n
}

/// Index of the first entry of `es` whose key sorts after `k`, or its length.
fn find_insert_index(es: &Vec<(String, Json)>, k: &str) -> (r: usize)
    ensures
        r == insert_index(entries_view(es@), k@),
        r <= es@.len(),
{
    let ghost ev = entries_view(es@);
    let n = es.len();
    let mut i: usize = 0;
    while i < n
        invariant
            n == es@.len(),
            ev == entries_view(es@),
            i <= n,
            forall|j: int| 0 <= j < i ==> !text_lt(k@, #[trigger] ev[j].0),
        decreases n - i,
    {
        if str_lt(k, es[i].0.as_str()) {
            proof {
                assert(is_first_after(ev, k@, i as int));
                lemma_first_after_unique(ev, k@, i as int);
            }
            return i;
        }
        i = i + 1;
    }
    assert(!exists|x: int| is_first_after(ev, k@, x));
    n
}

/// Stores `value` under `key` in object entries, in key order.
pub fn map_insert_exec(es: &mut Vec<(String, Json)>, key: String, value: Json)
    ensures
        entries_view(final(es)@) == map_insert(
            entries_view(old(es)@),
            key@,
            value.deep_view(),
        ),
{
    let i = find_key(es, key.as_str());
    let ghost ev = entries_view(es@);
    let ghost k = key@;
    let ghost vv = value.deep_view();
    if i < es.len() {
        es.set(i, (key, value));
        assert(entries_view(es@) =~= ev.update(i as int, (k, vv)));
    } else {
        let p = find_insert_index(es, key.as_str());
        es.insert(p, (key, value));
        assert(entries_view(es@) =~= ev.insert(p as int, (k, vv)));
    }
}

// ---------------------------------------------------------------------------
// Compact JSON text
// ---------------------------------------------------------------------------

/// How one character of a string is written inside JSON quotes.
pub open spec fn escape_char(c: char) -> Seq<char> {
    if c == '"' {
        "\\\""@
    } else if c == '\\' {
        "\\\\"@
    } else if c == '\x08' {
        "\\b"@
    } else if c == '\x0c' {
        "\\f"@
    } else if c == '\n' {
        "\\n"@
    } else if c == '\r' {
        "\\r"@
    } else if c == '\t' {
        "\\t"@
    } else if (c as u32) < 0x20 {
        "\\u00"@ + seq![hex_digit(((c as u32) / 16) as int), hex_digit(((c as u32) % 16) as int)]
    } else {
        seq![c]
    }
}

/// The escaped characters of a string.
pub open spec fn escaped(s: Seq<char>) -> Seq<char>
    decreases s.len(),
{
    if s.len() == 0 {
        Seq::empty()
    } else {
        escaped(s.drop_last()) + escape_char(s.last())
    }
}

/// A string as a JSON string literal.
pub open spec fn quoted(s: Seq<char>) -> Seq<char> {
    "\""@ + escaped(s) + "\""@
}

/// The text of a JSON number.
pub open spec fn number_text(n: NumV) -> Seq<char> {
    match n {
        NumV::Int(i) => int_text(i),
        NumV::Float(t) => t,
    }
}

/// The compact JSON text of a value: no whitespace, entries and items in order.
pub open spec fn json_text(v: JsonV) -> Seq<char>
    decreases v, 0nat,
{
    match v {
        JsonV::Null => "null"@,
        JsonV::Bool(b) => if b {
            "true"@
        } else {
            "false"@
        },
        JsonV::Number(n) => number_text(n),
        JsonV::Str(s) => quoted(s),
        JsonV::Array(items) => "["@ + items_text(items) + "]"@,
        JsonV::Object(es) => "{"@ + entries_text(es) + "}"@,
    }
}

/// Array items, separated by commas.
pub open spec fn items_text(items: Seq<JsonV>) -> Seq<char>
    decreases items, 1nat,
{
    if items.len() == 0 {
        Seq::empty()
    } else if items.len() == 1 {
        json_text(items[0])
    } else {
        items_text(items.drop_last()) + ","@ + json_text(items.last())
    }
}

/// Object entries `"key":value`, separated by commas.
pub open spec fn entries_text(es: Seq<(Seq<char>, JsonV)>) -> Seq<char>
    decreases es, 1nat,
{
    if es.len() == 0 {
        Seq::empty()
    } else if es.len() == 1 {
        quoted(es[0].0) + ":"@ + json_text(es[0].1)
    } else {
        entries_text(es.drop_last()) + ","@ + quoted(es.last().0) + ":"@ + json_text(es.last().1)
    }
}

/// Appends `s` escaped for a JSON string literal.
pub fn push_escaped(out: &mut String, s: &str)
    ensures
        final(out)@ == old(out)@ + escaped(s@),
{
    let ghost start = out@;
    let n = s.unicode_len();
    for i in 0..n
        invariant
            n == s@.len(),
            out@ == start + escaped(s@.take(i as int)),
    {
        let c = s.get_char(i);
        if c == '"' {
            out.append("\\\"");
        } else if c == '\\' {
            out.append("\\\\");
        } else if c == '\x08' {
            out.append("\\b");
        } else if c == '\x0c' {
            out.append("\\f");
        } else if c == '\n' {
            out.append("\\n");
        } else if c == '\r' {
            out.append("\\r");
        } else if c == '\t' {
            out.append("\\t");
        } else if (c as u32) < 0x20 {
            let code = c as u32;
            out.append("\\u00");
            out.append(hex_digit_str((code / 16) as u8));
            out.append(hex_digit_str((code % 16) as u8));
        } else {
            out.append(s.substring_char(i, i + 1));
            assert(s@.subrange(i as int, i + 1) =~= seq![c]);
        }
        assert(s@.take(i + 1).drop_last() =~= s@.take(i as int));
    }
    assert(s@.take(n as int) =~= s@);
}

/// Appends `s` as a JSON string literal.
pub fn push_quoted(out: &mut String, s: &str)
    ensures
        final(out)@ == old(out)@ + quoted(s@),
{
    out.append("\"");
    push_escaped(out, s);
    out.append("\"");
}

impl JsonNumber {
    /// Appends the JSON text of this number.
    pub fn write_text(&self, out: &mut String)
        ensures
            final(out)@ == old(out)@ + number_text(self.deep_view()),
    {
        match self {
            JsonNumber::PosInt(u) => push_dec(out, *u),
            JsonNumber::NegInt(i) => push_int(out, *i),
            JsonNumber::Float(t) => out.append(t.as_str()),
        }
    }
}

impl Json {
    /// Appends the compact JSON text of this value.
    pub fn write_text(&self, out: &mut String)
        ensures
            final(out)@ == old(out)@ + json_text(self.deep_view()),
        decreases self,
    {
        match self {
            Json::Null => out.append("null"),
            Json::Bool(b) => {
                if *b {
                    out.append("true")
                } else {
                    out.append("false")
                }
            },
            Json::Number(n) => n.write_text(out),
            Json::String(s) => push_quoted(out, s.as_str()),
            Json::Array(v) => {
                proof {
                    lemma_array_view(self);
                }
                let ghost iv = items_view(v@);
                out.append("[");
                let ghost start = out@;
                let n = v.len();
                for i in 0..n
                    invariant
                        n == v@.len(),
                        iv == items_view(v@),
                        out@ == start + items_text(iv.take(i as int)),
                        forall|k: int| 0 <= k < v@.len() ==> decreases_to!(self => #[trigger] v@[k]),
                {
                    if i > 0 {
                        out.append(",");
                    }
                    proof {
                        assert(decreases_to!(self => v@[i as int]));
                    }
                    v[i].write_text(out);
                    proof {
                        assert(iv.take(i + 1).drop_last() =~= iv.take(i as int));
                        if i == 0 {
                            assert(iv.take(1) =~= seq![iv[0]]);
                        }
                    }
                }
                assert(iv.take(n as int) =~= iv);
                out.append("]");
            },
            Json::Object(es) => {
                proof {
                    lemma_object_view(self);
                }
                let ghost ev = entries_view(es@);
                out.append("{");
                let ghost start = out@;
                let n = es.len();
                for i in 0..n
                    invariant
                        n == es@.len(),
                        ev == entries_view(es@),
                        out@ == start + entries_text(ev.take(i as int)),
                        forall|k: int| 0 <= k < es@.len() ==> decreases_to!(self => #[trigger] es@[k].1),
                {
                    if i > 0 {
                        out.append(",");
                    }
                    push_quoted(out, es[i].0.as_str());
                    out.append(":");
                    proof {
                        assert(decreases_to!(self => es@[i as int].1));
                    }
                    es[i].1.write_text(out);
                    proof {
                        assert(ev.take(i + 1).drop_last() =~= ev.take(i as int));
                        if i == 0 {
                            assert(ev.take(1) =~= seq![ev[0]]);
                        }
                    }
                }
                assert(ev.take(n as int) =~= ev);
                out.append("}");
            },
        }
    }

    /// The compact JSON text of this value.
    pub fn to_text(&self) -> (r: String)
        ensures
            r@ == json_text(self.deep_view()),
    {
        let mut out = String::new();
        self.write_text(&mut out);
        out
    }
}

impl Clone for Json {
    /// A deep copy.
    fn clone(&self) -> (r: Self)
        ensures
            r.deep_view() == self.deep_view(),
    {
        self.duplicate()
    }
}

/// The view of an optional borrowed value.
pub open spec fn opt_view(o: Option<&Json>) -> Option<JsonV> {
    match o {
        Some(j) => Some(j.deep_view()),
        None => None,
    }
}

/// The characters of a string value.
pub open spec fn str_spec(j: JsonV) -> Option<Seq<char>> {
    match j {
        JsonV::Str(s) => Some(s),
        _ => None,
    }
}

/// A value as a signed 64-bit integer, when it is an integer in that range.
pub open spec fn i64_spec(j: JsonV) -> Option<int> {
    match j {
        JsonV::Number(NumV::Int(i)) => if i64::MIN <= i <= i64::MAX {
            Some(i)
        } else {
            None
        },
        _ => None,
    }
}

impl JsonNumber {
    /// A copy of this number.
    pub fn duplicate(&self) -> (r: JsonNumber)
        ensures
            r.deep_view() == self.deep_view(),
    {
        match self {
            JsonNumber::PosInt(u) => JsonNumber::PosInt(*u),
            JsonNumber::NegInt(i) => JsonNumber::NegInt(*i),
            JsonNumber::Float(t) => JsonNumber::Float(t.clone()),
        }
    }
}

impl Json {
    /// An empty object.
    pub fn new_object() -> (r: Json)
        ensures
            r.deep_view() == JsonV::Object(Seq::empty()),
            json_wf(r.deep_view()),
    {
        let r = Json::Object(Vec::new());
        proof {
            lemma_object_view(&r);
        }
        assert(entries_view(Seq::<(String, Json)>::empty()) =~= Seq::empty());
        r
    }

    /// A string value.
    pub fn from_str_value(s: &str) -> (r: Json)
        ensures
            r.deep_view() == JsonV::Str(s@),
            json_wf(r.deep_view()),
    {
        Json::String(String::from_str(s))
    }

    /// A copy of this value.
    pub fn duplicate(&self) -> (r: Json)
        ensures
            r.deep_view() == self.deep_view(),
        decreases self,
    {
        match self {
            Json::Null => Json::Null,
            Json::Bool(b) => Json::Bool(*b),
            Json::Number(n) => Json::Number(n.duplicate()),
            Json::String(s) => Json::String(s.clone()),
            Json::Array(v) => {
                let mut out: Vec<Json> = Vec::new();
                let n = v.len();
                for i in 0..n
                    invariant
                        n == v@.len(),
                        out@.len() == i,
                        forall|k: int| 0 <= k < i ==> #[trigger] out@[k].deep_view() == v@[k].deep_view(),
                        forall|k: int| 0 <= k < v@.len() ==> decreases_to!(self => #[trigger] v@[k]),
                {
                    proof {
                        assert(decreases_to!(self => v@[i as int]));
                    }
                    let d = v[i].duplicate();
                    out.push(d);
                }
                let r = Json::Array(out);
                proof {
                    lemma_array_view(self);
                    lemma_array_view(&r);
                    assert(items_view(out@) =~= items_view(v@));
                }
                r
            },
            Json::Object(es) => {
                let mut out: Vec<(String, Json)> = Vec::new();
                let n = es.len();
                for i in 0..n
                    invariant
                        n == es@.len(),
                        out@.len() == i,
                        forall|k: int| 0 <= k < i ==> (#[trigger] out@[k]).1.deep_view() == es@[k].1.deep_view() && out@[k].0@ == es@[k].0@,
                        forall|k: int| 0 <= k < es@.len() ==> decreases_to!(self => #[trigger] es@[k].1),
                {
                    proof {
                        assert(decreases_to!(self => es@[i as int].1));
                    }
                    let d = es[i].1.duplicate();
                    let key = es[i].0.clone();
                    let ghost before = out@;
                    out.push((key, d));
                    assert(out@[i as int] == (key, d));
                    assert(forall|k: int| 0 <= k < i ==> out@[k] == before[k]);
                }
                let r = Json::Object(out);
                proof {
                    lemma_object_view(self);
                    lemma_object_view(&r);
                    assert(entries_view(out@) =~= entries_view(es@));
                }
                r
            },
        }
    }

    /// The member `key` of an object; `None` for a missing key or a non-object.
    pub fn get(&self, key: &str) -> (r: Option<&Json>)
        ensures
            opt_view(r) == get_spec(self.deep_view(), key@),
    {
        match self {
            Json::Object(es) => {
                proof {
                    lemma_object_view(self);
                }
                let i = find_key(es, key);
                if i < es.len() {
                    Some(&es[i].1)
                } else {
                    None
                }
            },
            _ => None,
        }
    }

    /// The characters of a string value.
    pub fn as_str(&self) -> (r: Option<&str>)
        ensures
            match r {
                Some(s) => str_spec(self.deep_view()) == Some(s@),
                None => str_spec(self.deep_view()) is None,
            },
    {
        match self {
            Json::String(s) => Some(s.as_str()),
            _ => None,
        }
    }

    /// The items of an array value.
    pub fn as_array(&self) -> (r: Option<&Vec<Json>>)
        ensures
            match r {
                Some(v) => self.deep_view() == JsonV::Array(items_view(v@)),
                None => !(self.deep_view() is Array),
            },
    {
        match self {
            Json::Array(v) => {
                proof {
                    lemma_array_view(self);
                }
                Some(v)
            },
            _ => None,
        }
    }

    /// The value as a signed 64-bit integer, when it is one.
    pub fn as_i64(&self) -> (r: Option<i64>)
        ensures
            match r {
                Some(i) => i64_spec(self.deep_view()) == Some(i as int),
                None => i64_spec(self.deep_view()) is None,
            },
    {
        match self {
            Json::Number(JsonNumber::PosInt(u)) => {
                if *u <= 0x7fff_ffff_ffff_ffffu64 {
                    Some(*u as i64)
                } else {
                    None
                }
            },
            Json::Number(JsonNumber::NegInt(i)) => Some(*i),
            _ => None,
        }
    }

    /// Whether this value is an object.
    pub fn is_object(&self) -> (r: bool)
        ensures
            r == (self.deep_view() is Object),
    {
        match self {
            Json::Object(_) => true,
            _ => false,
        }
    }

    /// Stores `value` under `key` when this value is an object (keys kept in
    /// order, an existing key replaced); returns whether it was an object.
    pub fn insert(&mut self, key: &str, value: Json) -> (r: bool)
        ensures
            r == (old(self).deep_view() is Object),
            final(self).deep_view() == insert_spec(old(self).deep_view(), key@, value.deep_view()),
            json_wf(old(self).deep_view()) && json_wf(value.deep_view()) ==> json_wf(final(self).deep_view()),
    {
        proof {
            if json_wf(old(self).deep_view()) && json_wf(value.deep_view()) {
                law_insert_keeps_wf(old(self).deep_view(), key@, value.deep_view());
            }
        }
        proof {
            if *old(self) is Object {
                lemma_object_view(old(self));
            }
        }
        match self {
            Json::Object(es) => {
                map_insert_exec(es, String::from_str(key), value);
            },
            _ => {
                return false;
            },
        }
        proof {
            lemma_object_view(self);
        }
        true
    }
}

// ---------------------------------------------------------------------------
// Laws of object members
// ---------------------------------------------------------------------------

proof fn lemma_exists_first_key(es: Seq<(Seq<char>, JsonV)>, k: Seq<char>, j: int)
    requires
        0 <= j < es.len(),
        es[j].0 == k,
    ensures
        exists|i: int| is_first_key(es, k, i),
{
    let p = |e: (Seq<char>, JsonV)| e.0 == k;
    lemma_first_where_exists(es, p, j);
    let i = choose|i: int| is_first_where(es, p, i);
    assert(is_first_key(es, k, i));
}

/// What `key_index` denotes: the first entry with the key, or the length
/// when no entry has it.
pub proof fn lemma_key_index(es: Seq<(Seq<char>, JsonV)>, k: Seq<char>)
    ensures
        0 <= key_index(es, k) <= es.len(),
        key_index(es, k) < es.len() ==> is_first_key(es, k, key_index(es, k)),
        key_index(es, k) == es.len() ==> forall|j: int| 0 <= j < es.len() ==> #[trigger] es[j].0 != k,
{
    if exists|i: int| is_first_key(es, k, i) {
    } else {
        assert forall|j: int| 0 <= j < es.len() implies #[trigger] es[j].0 != k by {
            if es[j].0 == k {
                lemma_exists_first_key(es, k, j);
            }
        }
    }
}

proof fn lemma_insert_index(es: Seq<(Seq<char>, JsonV)>, k: Seq<char>)
    ensures
        0 <= insert_index(es, k) <= es.len(),
{
    if exists|i: int| is_first_after(es, k, i) {
        let c = choose|i: int| is_first_after(es, k, i);
        assert(is_first_after(es, k, c));
    }
}

/// Law: after storing `v` under `k` in an object, reading `k` gives `v`, and
/// reading any other key gives what it gave before.
pub proof fn law_insert_then_get(j: JsonV, k: Seq<char>, v: JsonV, k2: Seq<char>)
    requires
        j is Object,
    ensures
        get_spec(insert_spec(j, k, v), k) == Some(v),
        k2 != k ==> get_spec(insert_spec(j, k, v), k2) == get_spec(j, k2),
{
    let es = j->Object_0;
    let es2 = map_insert(es, k, v);
    lemma_key_index(es, k);
    lemma_key_index(es, k2);
    let i = key_index(es, k);
    if i < es.len() {
        assert(es2 == es.update(i, (k, v)));
        assert(is_first_key(es2, k, i));
        lemma_first_key_unique(es2, k, i);
        if k2 != k {
            let i2 = key_index(es, k2);
            if i2 < es.len() {
                assert(is_first_key(es2, k2, i2));
                lemma_first_key_unique(es2, k2, i2);
            } else {
                assert(!exists|x: int| is_first_key(es2, k2, x)) by {
                    if exists|x: int| is_first_key(es2, k2, x) {
                        let x = choose|x: int| is_first_key(es2, k2, x);
                        assert(es[x].0 == es2[x].0);
                    }
                }
            }
        }
    } else {
        lemma_insert_index(es, k);
        let p = insert_index(es, k);
        assert(es2 == es.insert(p, (k, v)));
        assert(is_first_key(es2, k, p)) by {
            assert forall|m: int| 0 <= m < p implies #[trigger] es2[m].0 != k by {
                assert(es2[m] == es[m]);
            }
        }
        lemma_first_key_unique(es2, k, p);
        if k2 != k {
            let i2 = key_index(es, k2);
            if i2 < es.len() {
                let i3 = if i2 < p { i2 } else { i2 + 1 };
                assert(es2[i3] == es[i2]);
                assert(is_first_key(es2, k2, i3)) by {
                    assert forall|m: int| 0 <= m < i3 implies #[trigger] es2[m].0 != k2 by {
                        if m < p {
                            assert(es2[m] == es[m]);
                        } else if m > p {
                            assert(es2[m] == es[m - 1]);
                        }
                    }
                }
                lemma_first_key_unique(es2, k2, i3);
            } else {
                assert(!exists|x: int| is_first_key(es2, k2, x)) by {
                    if exists|x: int| is_first_key(es2, k2, x) {
                        let x = choose|x: int| is_first_key(es2, k2, x);
                        if x < p {
                            assert(es2[x] == es[x]);
                        } else if x > p {
                            assert(es2[x] == es[x - 1]);
                        }
                    }
                }
            }
        }
    }
}

/// Object entries whose keys strictly ascend in `String` order: each key
/// appears once, as in a map.
pub open spec fn keys_sorted(es: Seq<(Seq<char>, JsonV)>) -> bool {
    forall|i: int, j: int| 0 <= i < j < es.len() ==> text_lt(#[trigger] es[i].0, #[trigger] es[j].0)
}

/// A well-formed JSON value: the members of every object, at any depth,
/// have strictly ascending keys (so each key once), as a JSON map keeps
/// them.
pub open spec fn json_wf(j: JsonV) -> bool
    decreases j,
{
    match j {
        JsonV::Array(items) => forall|i: int| 0 <= i < items.len() ==> json_wf(#[trigger] items[i]),
        JsonV::Object(es) => {
            &&& keys_sorted(es)
            &&& forall|i: int| 0 <= i < es.len() ==> json_wf(#[trigger] es[i].1)
        },
        _ => true,
    }
}

/// Law: storing a well-formed value in a well-formed value keeps it
/// well-formed.
pub proof fn law_insert_keeps_wf(j: JsonV, k: Seq<char>, v: JsonV)
    requires
        json_wf(j),
        json_wf(v),
    ensures
        json_wf(insert_spec(j, k, v)),
{
    if let JsonV::Object(es) = j {
        law_insert_keeps_keys_sorted(es, k, v);
        let r = map_insert(es, k, v);
        lemma_key_index(es, k);
        let i = key_index(es, k);
        if i >= es.len() {
            lemma_insert_index(es, k);
        }
        assert forall|x: int| 0 <= x < r.len() implies #[trigger] json_wf(r[x].1) by {
            if i < es.len() {
                if x != i {
                    assert(r[x] == es[x]);
                    assert(json_wf(es[x].1));
                } else {
                    assert(r[x] == (k, v));
                }
            } else {
                let p = insert_index(es, k);
                if x < p {
                    assert(r[x] == es[x]);
                    assert(json_wf(es[x].1));
                } else if x > p {
                    assert(r[x] == es[x - 1]);
                    assert(json_wf(es[x - 1].1));
                } else {
                    assert(r[x] == (k, v));
                }
            }
        }
    }
}

/// Law: storing a member keeps the keys of an object in strictly ascending
/// order, so a map stays a map.
pub proof fn law_insert_keeps_keys_sorted(es: Seq<(Seq<char>, JsonV)>, k: Seq<char>, v: JsonV)
    requires
        keys_sorted(es),
    ensures
        keys_sorted(map_insert(es, k, v)),
{
    lemma_key_index(es, k);
    let r = map_insert(es, k, v);
    let i = key_index(es, k);
    if i < es.len() {
        assert forall|a: int, b: int| 0 <= a < b < r.len() implies text_lt(#[trigger] r[a].0, #[trigger] r[b].0) by {
            assert(r[a].0 == es[a].0);
            assert(r[b].0 == es[b].0);
        }
    } else {
        lemma_insert_index(es, k);
        let p = insert_index(es, k);
        assert forall|j: int| 0 <= j < p implies text_lt(#[trigger] es[j].0, k) by {
            lemma_text_lt_order(es[j].0, k, k);
            if exists|x: int| is_first_after(es, k, x) {
                let c = choose|x: int| is_first_after(es, k, x);
                assert(is_first_after(es, k, c));
                assert(!text_lt(k, es[j].0));
            } else {
                assert(!is_first_after(es, k, j));
                assert(!text_lt(k, es[j].0)) by {
                    if text_lt(k, es[j].0) {
                        lemma_exists_first_after(es, k, j);
                    }
                }
            }
        }
        assert forall|j: int| p <= j < es.len() implies text_lt(k, #[trigger] es[j].0) by {
            assert(exists|x: int| is_first_after(es, k, x)) by {
                if !exists|x: int| is_first_after(es, k, x) {
                    assert(p == es.len());
                }
            }
            let c = choose|x: int| is_first_after(es, k, x);
            assert(is_first_after(es, k, c));
            if j > p {
                assert(text_lt(es[p].0, es[j].0));
                lemma_text_lt_order(k, es[p].0, es[j].0);
            }
        }
        assert forall|a: int, b: int| 0 <= a < b < r.len() implies text_lt(#[trigger] r[a].0, #[trigger] r[b].0) by {
            if b < p {
                assert(r[a] == es[a] && r[b] == es[b]);
            } else if b == p {
                assert(r[a] == es[a]);
            } else if a < p {
                assert(r[a] == es[a] && r[b] == es[b - 1]);
                lemma_text_lt_order(es[a].0, k, es[b - 1].0);
            } else if a == p {
                assert(r[b] == es[b - 1]);
            } else {
                assert(r[a] == es[a - 1] && r[b] == es[b - 1]);
            }
        }
    }
}

proof fn lemma_exists_first_after(es: Seq<(Seq<char>, JsonV)>, k: Seq<char>, j: int)
    requires
        0 <= j < es.len(),
        text_lt(k, es[j].0),
    ensures
        exists|i: int| is_first_after(es, k, i),
{
    let p = |e: (Seq<char>, JsonV)| text_lt(k, e.0);
    lemma_first_where_exists(es, p, j);
    let i = choose|i: int| is_first_where(es, p, i);
    assert(is_first_after(es, k, i));
}

} // verus!
