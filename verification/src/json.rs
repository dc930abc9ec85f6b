//! The library's JSON data model: the raw configuration and the output
//! configuration are values of this type, and the canonical text rendering
//! used for forwarded environment values is defined and proved here.

use vstd::prelude::*;
use crate::strutil::chars_to_string;
use crate::strutil::concat_chars;
use crate::strutil::str_chars;

verus! {

/// A JSON value as the library holds it. A number is carried as its
/// canonical text rendering, since the translation only ever passes numbers
/// through or prints them.
#[derive(Debug)]
pub enum Json {
    Null,
    Bool(bool),
    Number(String),
    Str(String),
    Arr(Vec<Json>),
    Obj(Vec<(String, Json)>),
}

/// The mathematical shape of a `Json` value.
#[verifier::ext_equal]
pub ghost enum JsonV {
    Null,
    Bool(bool),
    Number(Seq<char>),
    Str(Seq<char>),
    Arr(Seq<JsonV>),
    Obj(Seq<(Seq<char>, JsonV)>),
}

/// The shape of `j`.
pub open spec fn json_view(j: Json) -> JsonV
    decreases j, 2int,
{
    match j {
        Json::Null => JsonV::Null,
        Json::Bool(b) => JsonV::Bool(b),
        Json::Number(t) => JsonV::Number(t@),
        Json::Str(s) => JsonV::Str(s@),
        Json::Arr(items) => JsonV::Arr(json_view_items(items)),
        Json::Obj(entries) => JsonV::Obj(json_view_entries(entries)),
    }
}

/// The shapes of the values of `items`, in order.
pub open spec fn json_view_items(items: Vec<Json>) -> Seq<JsonV>
    decreases items, 0int,
{
    Seq::new(
        items@.len(),
        |i: int|
            if 0 <= i < items@.len() {
                json_view(items@[i])
            } else {
                JsonV::Null
            },
    )
}

/// The shapes of the key/value pairs of `entries`, in order.
pub open spec fn json_view_entries(entries: Vec<(String, Json)>) -> Seq<(Seq<char>, JsonV)>
    decreases entries, 1int,
{
    Seq::new(
        entries@.len(),
        |i: int|
            if 0 <= i < entries@.len() {
                json_view_entry(entries@[i])
            } else {
                (Seq::empty(), JsonV::Null)
            },
    )
}

/// The shape of one key/value pair.
pub open spec fn json_view_entry(e: (String, Json)) -> (Seq<char>, JsonV)
    decreases e, 0int,
{
    (e.0@, json_view(e.1))
}

impl View for Json {
    type V = JsonV;

    open spec fn view(&self) -> JsonV {
        json_view(*self)
    }
}

/// The value under `key` among `entries`, searching from the front.
pub open spec fn obj_get_from(entries: Seq<(Seq<char>, JsonV)>, key: Seq<char>) -> Option<JsonV>
    decreases entries.len(),
{
    if entries.len() == 0 {
        None
    } else if entries[0].0 == key {
        Some(entries[0].1)
    } else {
        obj_get_from(entries.skip(1), key)
    }
}

/// A key that no entry carries is not found.
pub proof fn lemma_obj_get_absent(entries: Seq<(Seq<char>, JsonV)>, key: Seq<char>)
    requires
        forall|i: int| 0 <= i < entries.len() ==> (#[trigger] entries[i]).0 != key,
    ensures
        obj_get_from(entries, key) is None,
    decreases entries.len(),
{
    if entries.len() > 0 {
        assert(entries[0].0 != key);
        assert forall|i: int| 0 <= i < entries.skip(1).len() implies (#[trigger] entries.skip(
            1,
        )[i]).0 != key by {
            assert(entries.skip(1)[i] == entries[i + 1]);
        }
        lemma_obj_get_absent(entries.skip(1), key);
    }
}

/// The value under `key` when `j` is an object that has it; `None` on every
/// other value.
pub open spec fn get_field(j: JsonV, key: Seq<char>) -> Option<JsonV> {
    match j {
        JsonV::Obj(entries) => obj_get_from(entries, key),
        _ => None,
    }
}

/// Whether the character sequences of `a` and `b` are equal.
pub fn str_eq(a: &str, b: &str) -> (r: bool)
    ensures
        r == (a@ == b@),
{
    let n = a.unicode_len();
    let m = b.unicode_len();
    if n != m {
        return false;
    }
    let mut i: usize = 0;
    while i < n
        invariant
            i <= n,
            n == a@.len(),
            n == b@.len(),
            forall|j: int| 0 <= j < i ==> a@[j] == b@[j],
        decreases n - i,
    {
        if a.get_char(i) != b.get_char(i) {
            return false;
        }
        i += 1;
    }
    proof {
        assert(a@ =~= b@);
    }
    true
}

impl Json {
    /// The value under `key` when this value is an object that has it.
    pub fn get<'a>(&'a self, key: &str) -> (r: Option<&'a Json>)
        ensures
            match r {
                Some(v) => get_field(self@, key@) == Some(v@),
                None => get_field(self@, key@) is None,
            },
    {
        match self {
            Json::Obj(entries) => {
                let ghost eseq = self@->Obj_0;
                let n = entries.len();
                let mut i: usize = 0;
                proof {
                    assert(eseq.skip(0) =~= eseq);
                }
                while i < n
                    invariant
                        i <= n,
                        n == entries@.len(),
                        eseq == json_view_entries(*entries),
                        self@ == JsonV::Obj(eseq),
                        obj_get_from(eseq, key@) == obj_get_from(eseq.skip(i as int), key@),
                    decreases n - i,
                {
                    proof {
                        assert(eseq[i as int] == json_view_entry(entries@[i as int]));
                        assert(eseq.skip(i as int)[0] == eseq[i as int]);
                    }
                    if str_eq(entries[i].0.as_str(), key) {
                        return Some(&entries[i].1);
                    }
                    proof {
                        assert(eseq.skip(i as int).skip(1) =~= eseq.skip(i + 1 as int));
                    }
                    i += 1;
                }
                proof {
                    assert(eseq.skip(n as int) =~= Seq::<(Seq<char>, JsonV)>::empty());
                }
                None
            },
            _ => None,
        }
    }

    /// A structurally identical copy of this value.
    pub fn deep_copy(&self) -> (r: Json)
        ensures
            r@ == self@,
        decreases *self, 1int,
    {
        match self {
            Json::Null => Json::Null,
            Json::Bool(b) => Json::Bool(*b),
            Json::Number(t) => Json::Number(t.clone()),
            Json::Str(s) => Json::Str(s.clone()),
            Json::Arr(items) => {
                let out = deep_copy_items(items);
                let r = Json::Arr(out);
                proof {
                    assert(json_view_items(r->Arr_0) =~= json_view_items(*items));
                }
                r
            },
            Json::Obj(entries) => {
                let out = deep_copy_entries(entries);
                let r = Json::Obj(out);
                proof {
                    assert(json_view_entries(r->Obj_0) =~= json_view_entries(*entries));
                }
                r
            },
        }
    }
}

/// Copies of the values of `items`, in order.
fn deep_copy_items(items: &Vec<Json>) -> (r: Vec<Json>)
    ensures
        r@.len() == items@.len(),
        forall|k: int|
            0 <= k < items@.len() ==> json_view(#[trigger] r@[k]) == json_view(items@[k]),
    decreases *items, 0int,
{
    let n = items.len();
    let mut out: Vec<Json> = Vec::new();
    let mut i: usize = 0;
    while i < n
        invariant
            i <= n,
            n == items@.len(),
            out@.len() == i,
            forall|k: int| 0 <= k < i ==> json_view(#[trigger] out@[k]) == json_view(items@[k]),
        decreases n - i,
    {
        let c = items[i].deep_copy();
        out.push(c);
        i += 1;
    }
    out
}

/// Copies of the key/value pairs of `entries`, in order.
fn deep_copy_entries(entries: &Vec<(String, Json)>) -> (r: Vec<(String, Json)>)
    ensures
        r@.len() == entries@.len(),
        forall|k: int|
            0 <= k < entries@.len() ==> json_view_entry(#[trigger] r@[k]) == json_view_entry(
                entries@[k],
            ),
    decreases *entries, 1int,
{
    let n = entries.len();
    let mut out: Vec<(String, Json)> = Vec::new();
    let mut i: usize = 0;
    while i < n
        invariant
            i <= n,
            n == entries@.len(),
            out@.len() == i,
            forall|k: int|
                0 <= k < i ==> json_view_entry(#[trigger] out@[k]) == json_view_entry(entries@[k]),
        decreases n - i,
    {
        let e = deep_copy_entry(&entries[i]);
        out.push(e);
        i += 1;
    }
    out
}

/// A copy of one key/value pair.
fn deep_copy_entry(e: &(String, Json)) -> (r: (String, Json))
    ensures
        json_view_entry(r) == json_view_entry(*e),
    decreases *e, 0int,
{
    let key = e.0.clone();
    let val = e.1.deep_copy();
    (key, val)
}

/// The hexadecimal digit for `d`, lower case.
pub open spec fn hex_char(d: int) -> char {
    if d == 0 {
        '0'
    } else if d == 1 {
        '1'
    } else if d == 2 {
        '2'
    } else if d == 3 {
        '3'
    } else if d == 4 {
        '4'
    } else if d == 5 {
        '5'
    } else if d == 6 {
        '6'
    } else if d == 7 {
        '7'
    } else if d == 8 {
        '8'
    } else if d == 9 {
        '9'
    } else if d == 10 {
        'a'
    } else if d == 11 {
        'b'
    } else if d == 12 {
        'c'
    } else if d == 13 {
        'd'
    } else if d == 14 {
        'e'
    } else {
        'f'
    }
}

/// The rendering of one character inside a JSON string literal: quote and
/// backslash are escaped, the common control characters get their short
/// escapes, any other control character a `\u00..` escape.
pub open spec fn esc_char(c: char) -> Seq<char> {
    if c == '"' {
        seq!['\\', '"']
    } else if c == '\\' {
        seq!['\\', '\\']
    } else if c == '\u{8}' {
        seq!['\\', 'b']
    } else if c == '\u{c}' {
        seq!['\\', 'f']
    } else if c == '\n' {
        seq!['\\', 'n']
    } else if c == '\r' {
        seq!['\\', 'r']
    } else if c == '\t' {
        seq!['\\', 't']
    } else if (c as u32) < 0x20 {
        seq!['\\', 'u', '0', '0', hex_char((c as u32 / 16) as int), hex_char((c as u32 % 16) as int)]
    } else {
        seq![c]
    }
}

/// The rendering of the characters of a JSON string literal, in order.
pub open spec fn esc_str(s: Seq<char>) -> Seq<char>
    decreases s.len(),
{
    if s.len() == 0 {
        Seq::empty()
    } else {
        esc_char(s[0]) + esc_str(s.skip(1))
    }
}

/// The canonical compact text of `j`: object and array items separated by
/// single commas, keys and values by single colons, no added spaces.
pub open spec fn ser(j: JsonV) -> Seq<char>
    decreases j, 0int,
{
    match j {
        JsonV::Null => "null"@,
        JsonV::Bool(b) => if b {
            "true"@
        } else {
            "false"@
        },
        JsonV::Number(t) => t,
        JsonV::Str(s) => seq!['"'] + esc_str(s) + seq!['"'],
        JsonV::Arr(items) => seq!['['] + ser_items(items, 0) + seq![']'],
        JsonV::Obj(entries) => seq!['{'] + ser_entries(entries, 0) + seq!['}'],
    }
}

/// The comma-separated renderings of `items[i..]`.
pub open spec fn ser_items(items: Seq<JsonV>, i: int) -> Seq<char>
    decreases items, items.len() - i + 1,
{
    if i < 0 || i >= items.len() {
        Seq::empty()
    } else if i == items.len() - 1 {
        ser(items[i])
    } else {
        ser(items[i]) + seq![','] + ser_items(items, i + 1)
    }
}

/// The comma-separated `"key":value` renderings of `entries[i..]`.
pub open spec fn ser_entries(entries: Seq<(Seq<char>, JsonV)>, i: int) -> Seq<char>
    decreases entries, entries.len() - i + 1,
{
    if i < 0 || i >= entries.len() {
        Seq::empty()
    } else if i == entries.len() - 1 {
        ser_entry(entries[i])
    } else {
        ser_entry(entries[i]) + seq![','] + ser_entries(entries, i + 1)
    }
}

/// The `"key":value` rendering of one entry.
pub open spec fn ser_entry(e: (Seq<char>, JsonV)) -> Seq<char>
    decreases e, 0int,
{
    seq!['"'] + esc_str(e.0) + seq!['"', ':'] + ser(e.1)
}

/// The hexadecimal digit for `d`, as executable code.
fn hex_char_exec(d: u32) -> (r: char)
    requires
        d < 16,
    ensures
        r == hex_char(d as int),
{
    if d == 0 {
        '0'
    } else if d == 1 {
        '1'
    } else if d == 2 {
        '2'
    } else if d == 3 {
        '3'
    } else if d == 4 {
        '4'
    } else if d == 5 {
        '5'
    } else if d == 6 {
        '6'
    } else if d == 7 {
        '7'
    } else if d == 8 {
        '8'
    } else if d == 9 {
        '9'
    } else if d == 10 {
        'a'
    } else if d == 11 {
        'b'
    } else if d == 12 {
        'c'
    } else if d == 13 {
        'd'
    } else if d == 14 {
        'e'
    } else {
        'f'
    }
}

/// The rendering of one string-literal character, as executable code.
fn esc_char_exec(c: char) -> (r: Vec<char>)
    ensures
        r@ == esc_char(c),
{
    let mut r: Vec<char> = Vec::new();
    if c == '"' {
        r.push('\\');
        r.push('"');
    } else if c == '\\' {
        r.push('\\');
        r.push('\\');
    } else if c == '\u{8}' {
        r.push('\\');
        r.push('b');
    } else if c == '\u{c}' {
        r.push('\\');
        r.push('f');
    } else if c == '\n' {
        r.push('\\');
        r.push('n');
    } else if c == '\r' {
        r.push('\\');
        r.push('r');
    } else if c == '\t' {
        r.push('\\');
        r.push('t');
    } else if (c as u32) < 0x20 {
        r.push('\\');
        r.push('u');
        r.push('0');
        r.push('0');
        r.push(hex_char_exec((c as u32) / 16));
        r.push(hex_char_exec((c as u32) % 16));
    } else {
        r.push(c);
    }
    proof {
        assert(r@ =~= esc_char(c));
    }
    r
}

/// The rendering of a whole string literal, quotes included.
fn quoted_chars(s: &str) -> (r: Vec<char>)
    ensures
        r@ == seq!['"'] + esc_str(s@) + seq!['"'],
{
    let cs = str_chars(s);
    let n = cs.len();
    let mut r: Vec<char> = Vec::new();
    r.push('"');
    let mut i: usize = 0;
    proof {
        assert(cs@.skip(0) =~= cs@);
        assert(r@ =~= seq!['"']);
        assert(r@ + esc_str(cs@.skip(0)) =~= seq!['"'] + esc_str(s@));
    }
    while i < n
        invariant
            i <= n,
            n == cs@.len(),
            cs@ == s@,
            r@ + esc_str(cs@.skip(i as int)) == seq!['"'] + esc_str(s@),
        decreases n - i,
    {
        let ghost r0 = r@;
        proof {
            assert(cs@.skip(i as int)[0] == cs@[i as int]);
            assert(cs@.skip(i as int).skip(1) =~= cs@.skip(i + 1 as int));
        }
        let e = esc_char_exec(cs[i]);
        let t = concat_chars(&r, &e);
        r = t;
        proof {
            assert(r@ + esc_str(cs@.skip(i + 1 as int)) =~= r0 + esc_str(cs@.skip(i as int)));
        }
        i += 1;
    }
    proof {
        assert(cs@.skip(n as int) =~= Seq::<char>::empty());
        assert(r@ + esc_str(cs@.skip(n as int)) =~= r@);
    }
    r.push('"');
    proof {
        assert(r@ =~= seq!['"'] + esc_str(s@) + seq!['"']);
    }
    r
}

impl Json {
    /// The canonical compact text of this value, as characters.
    fn ser_chars(&self) -> (r: Vec<char>)
        ensures
            r@ == ser(self@),
        decreases *self, 1int,
    {
        match self {
            Json::Null => str_chars("null"),
            Json::Bool(b) => if *b {
                str_chars("true")
            } else {
                str_chars("false")
            },
            Json::Number(t) => str_chars(t.as_str()),
            Json::Str(s) => quoted_chars(s.as_str()),
            Json::Arr(items) => {
                let body = ser_items_chars(items);
                let mut r: Vec<char> = Vec::new();
                r.push('[');
                let t = concat_chars(&r, &body);
                r = t;
                r.push(']');
                proof {
                    assert(r@ =~= seq!['['] + ser_items(json_view_items(*items), 0) + seq![']']);
                }
                r
            },
            Json::Obj(entries) => {
                let body = ser_entries_chars(entries);
                let mut r: Vec<char> = Vec::new();
                r.push('{');
                let t = concat_chars(&r, &body);
                r = t;
                r.push('}');
                proof {
                    assert(r@ =~= seq!['{'] + ser_entries(json_view_entries(*entries), 0)
                        + seq!['}']);
                }
                r
            },
        }
    }

    /// The canonical compact text of this value.
    pub fn to_text(&self) -> (r: String)
        ensures
            r@ == ser(self@),
    {
        let cs = self.ser_chars();
        chars_to_string(&cs)
    }
}

/// The comma-separated renderings of the values of `items`.
fn ser_items_chars(items: &Vec<Json>) -> (r: Vec<char>)
    ensures
        r@ == ser_items(json_view_items(*items), 0),
    decreases *items, 0int,
{
    let ghost iv = json_view_items(*items);
    let n = items.len();
    let mut r: Vec<char> = Vec::new();
    let mut i: usize = 0;
    proof {
        if n == 0 {
            assert(ser_items(iv, 0) =~= Seq::<char>::empty());
        }
        assert(r@ + ser_items(iv, 0) =~= ser_items(iv, 0));
    }
    while i < n
        invariant
            i <= n,
            n == items@.len(),
            iv == json_view_items(*items),
            r@ + ser_items(iv, i as int) == ser_items(iv, 0),
        decreases n - i,
    {
        let ghost r0 = r@;
        proof {
            assert(iv[i as int] == json_view(items@[i as int]));
        }
        let e = items[i].ser_chars();
        let t = concat_chars(&r, &e);
        r = t;
        if i + 1 < n {
            r.push(',');
        }
        proof {
            assert(r@ + ser_items(iv, i + 1 as int) =~= r0 + ser_items(iv, i as int));
        }
        i += 1;
    }
    proof {
        assert(r@ + ser_items(iv, n as int) =~= r@);
    }
    r
}

/// The comma-separated renderings of the entries of `entries`.
fn ser_entries_chars(entries: &Vec<(String, Json)>) -> (r: Vec<char>)
    ensures
        r@ == ser_entries(json_view_entries(*entries), 0),
    decreases *entries, 1int,
{
    let ghost ev = json_view_entries(*entries);
    let n = entries.len();
    let mut r: Vec<char> = Vec::new();
    let mut i: usize = 0;
    proof {
        if n == 0 {
            assert(ser_entries(ev, 0) =~= Seq::<char>::empty());
        }
        assert(r@ + ser_entries(ev, 0) =~= ser_entries(ev, 0));
    }
    while i < n
        invariant
            i <= n,
            n == entries@.len(),
            ev == json_view_entries(*entries),
            r@ + ser_entries(ev, i as int) == ser_entries(ev, 0),
        decreases n - i,
    {
        let ghost r0 = r@;
        proof {
            assert(ev[i as int] == json_view_entry(entries@[i as int]));
        }
        let e = ser_entry_chars(&entries[i]);
        let t = concat_chars(&r, &e);
        r = t;
        if i + 1 < n {
            r.push(',');
        }
        proof {
            assert(r@ + ser_entries(ev, i + 1 as int) =~= r0 + ser_entries(ev, i as int));
        }
        i += 1;
    }
    proof {
        assert(r@ + ser_entries(ev, n as int) =~= r@);
    }
    r
}

/// The `"key":value` rendering of one entry.
fn ser_entry_chars(e: &(String, Json)) -> (r: Vec<char>)
    ensures
        r@ == ser_entry(json_view_entry(*e)),
    decreases *e, 0int,
{
    let mut r = quoted_chars(e.0.as_str());
    r.push(':');
    let v = e.1.ser_chars();
    let t = concat_chars(&r, &v);
    proof {
        assert(t@ =~= ser_entry(json_view_entry(*e)));
    }
    t
}

} // verus!
