//! A plain-value JSON model.
//!
//! JSON syntax is parsed by serde_json; the parsed document is carried,
//! variant by variant, into `JsonModel`, a type of this library whose
//! contents the verifier can see. Everything that reads or builds JSON
//! values past the parse works on this model and is verified. Numbers keep
//! their decimal rendering as text, so no floating point enters the
//! library.

use vstd::prelude::*;
use crate::text;

verus! {

/// A JSON document as plain values; object fields keep their order.
#[derive(Debug)]
pub enum JsonModel {
    Null,
    Bool(bool),
    Num(String),
    Str(String),
    Arr(Vec<JsonModel>),
    Obj(Vec<(String, JsonModel)>),
}

/// The mathematical shadow of `JsonModel`.
pub enum JsonView {
    Null,
    Bool(bool),
    Num(Seq<char>),
    Str(Seq<char>),
    Arr(Seq<JsonView>),
    Obj(Seq<(Seq<char>, JsonView)>),
}

impl View for JsonModel {
    type V = JsonView;

    open spec fn view(&self) -> JsonView
        decreases self,
    {
        match self {
            JsonModel::Null => JsonView::Null,
            JsonModel::Bool(b) => JsonView::Bool(*b),
            JsonModel::Num(n) => JsonView::Num(n@),
            JsonModel::Str(s) => JsonView::Str(s@),
            JsonModel::Arr(items) => JsonView::Arr(views_of_items(items@)),
            JsonModel::Obj(fields) => JsonView::Obj(views_of_fields(fields@)),
        }
    }
}

/// The views of a sequence of JSON values.
pub open spec fn views_of_items(s: Seq<JsonModel>) -> Seq<JsonView>
    decreases s,
{
    if s.len() == 0 {
        Seq::empty()
    } else {
        seq![s[0]@] + views_of_items(s.drop_first())
    }
}

/// The views of a sequence of JSON object fields.
pub open spec fn views_of_fields(s: Seq<(String, JsonModel)>) -> Seq<(Seq<char>, JsonView)>
    decreases s,
{
    if s.len() == 0 {
        Seq::empty()
    } else {
        seq![(s[0].0@, s[0].1@)] + views_of_fields(s.drop_first())
    }
}

/// Field views line up with the fields, index by index.
pub proof fn lemma_views_of_fields_index(s: Seq<(String, JsonModel)>)
    ensures
        views_of_fields(s).len() == s.len(),
        forall|i: int| 0 <= i < s.len()
            ==> #[trigger] views_of_fields(s)[i] == (s[i].0@, s[i].1@),
    decreases s,
{
    if s.len() > 0 {
        lemma_views_of_fields_index(s.drop_first());
        assert(views_of_fields(s) == seq![(s[0].0@, s[0].1@)] + views_of_fields(s.drop_first()));
        assert forall|i: int| 0 <= i < s.len() implies #[trigger] views_of_fields(s)[i]
            == (s[i].0@, s[i].1@) by {
            if i > 0 {
                assert(views_of_fields(s)[i] == views_of_fields(s.drop_first())[i - 1]);
                assert(s.drop_first()[i - 1] == s[i]);
            }
        }
    }
}

/// Item views line up with the items, index by index.
pub proof fn lemma_views_of_items_index(s: Seq<JsonModel>)
    ensures
        views_of_items(s).len() == s.len(),
        forall|i: int| 0 <= i < s.len() ==> #[trigger] views_of_items(s)[i] == s[i]@,
    decreases s,
{
    if s.len() > 0 {
        lemma_views_of_items_index(s.drop_first());
        assert(views_of_items(s) == seq![s[0]@] + views_of_items(s.drop_first()));
        assert forall|i: int| 0 <= i < s.len() implies #[trigger] views_of_items(s)[i]
            == s[i]@ by {
            if i > 0 {
                assert(views_of_items(s)[i] == views_of_items(s.drop_first())[i - 1]);
                assert(s.drop_first()[i - 1] == s[i]);
            }
        }
    }
}

/// What parsing a text as JSON yields, if it parses: a function of the
/// text alone.
pub uninterp spec fn json_of(s: Seq<char>) -> Option<JsonView>;

/// Declares serde_json's document type so that the trusted parse can
/// mention it; its contents are reached only through `model_of_value`.
#[verifier::external_type_specification]
#[verifier::external_body]
pub struct ExValue(serde_json::Value);

/// Parses a text as one JSON document.
///
/// Relies on serde_json::from_str for the JSON syntax; the parsed document
/// is carried into the library's own model by `model_of_value`.
#[verifier::external_body]
pub fn parse_json(s: &str) -> (r: Option<JsonModel>)
    ensures
        match r {
            Some(j) => json_of(s@) == Some(j@),
            None => json_of(s@) is None,
        },
{
    serde_json::from_str::<serde_json::Value>(s).ok().map(|v| model_of_value(&v))
}

/// Carries a parsed serde_json::Value into the library's model, one
/// variant to one variant; numbers keep serde_json's decimal rendering.
///
/// Relies on serde_json::Value's variants and Number's Display.
#[verifier::external_body]
fn model_of_value(v: &serde_json::Value) -> JsonModel {
    match v {
        serde_json::Value::Null => JsonModel::Null,
        serde_json::Value::Bool(b) => JsonModel::Bool(*b),
        serde_json::Value::Number(n) => JsonModel::Num(n.to_string()),
        serde_json::Value::String(s) => JsonModel::Str(s.clone()),
        serde_json::Value::Array(items) => JsonModel::Arr(
            items.iter().map(model_of_value).collect(),
        ),
        serde_json::Value::Object(fields) => JsonModel::Obj(
            fields.iter().map(|(k, x)| (k.clone(), model_of_value(x))).collect(),
        ),
    }
}

/// The value of the first field named `key`, if the view is an object
/// that has one.
pub open spec fn obj_lookup(j: JsonView, key: Seq<char>) -> Option<JsonView> {
    match j {
        JsonView::Obj(fields) => obj_lookup_fields(fields, key),
        _ => None,
    }
}

pub open spec fn obj_lookup_fields(fields: Seq<(Seq<char>, JsonView)>, key: Seq<char>)
    -> Option<JsonView>
    decreases fields.len(),
{
    if fields.len() == 0 {
        None
    } else if fields[0].0 == key {
        Some(fields[0].1)
    } else {
        obj_lookup_fields(fields.drop_first(), key)
    }
}

impl JsonModel {
    /// The value of the first field named `key`, if this is an object
    /// that has one.
    pub fn get(&self, key: &str) -> (r: Option<&JsonModel>)
        ensures
            match r {
                Some(v) => obj_lookup(self@, key@) == Some(v@),
                None => obj_lookup(self@, key@) is None,
            },
    {
        match self {
            JsonModel::Obj(fields) => {
                proof {
                    lemma_views_of_fields_index(fields@);
                    assert(views_of_fields(fields@).skip(0) =~= views_of_fields(fields@));
                }
                let mut i: usize = 0;
                while i < fields.len()
                    invariant
                        i <= fields@.len(),
                        self@ == JsonView::Obj(views_of_fields(fields@)),
                        views_of_fields(fields@).len() == fields@.len(),
                        forall|k: int| 0 <= k < fields@.len()
                            ==> #[trigger] views_of_fields(fields@)[k]
                                == (fields@[k].0@, fields@[k].1@),
                        obj_lookup(self@, key@) == obj_lookup_fields(
                            views_of_fields(fields@).skip(i as int),
                            key@,
                        ),
                    decreases fields@.len() - i,
                {
                    proof {
                        assert(views_of_fields(fields@).skip(i as int).drop_first()
                            =~= views_of_fields(fields@).skip(i + 1 as int));
                        assert(views_of_fields(fields@).skip(i as int)[0]
                            == views_of_fields(fields@)[i as int]);
                    }
                    if crate::model::str_eq(fields[i].0.as_str(), key) {
                        return Some(&fields[i].1);
                    }
                    i += 1;
                }
                None
            }
            _ => None,
        }
    }

    /// The text of a string value.
    pub fn as_str(&self) -> (r: Option<&String>)
        ensures
            match r {
                Some(s) => self@ == JsonView::Str(s@),
                None => !(self@ is Str),
            },
    {
        match self {
            JsonModel::Str(s) => Some(s),
            _ => None,
        }
    }
}

/// The JSON escaping of one character inside a double-quoted string, as
/// serde_json writes it: the two-character escapes for the common control
/// characters, `\u00XX` for the rest, and the character itself otherwise.
pub open spec fn json_escape_char(c: char) -> Seq<char> {
    if c == '"' {
        seq!['\\', '"']
    } else if c == '\\' {
        seq!['\\', '\\']
    } else if (c as u32) == 8 {
        seq!['\\', 'b']
    } else if (c as u32) == 12 {
        seq!['\\', 'f']
    } else if c == '\n' {
        seq!['\\', 'n']
    } else if c == '\r' {
        seq!['\\', 'r']
    } else if c == '\t' {
        seq!['\\', 't']
    } else if ((c as u32) < 32) {
        seq!['\\', 'u', '0', '0'] + seq![
            text::hex_char((c as u32) as int / 16),
            text::hex_char((c as u32) as int % 16),
        ]
    } else {
        seq![c]
    }
}

pub open spec fn json_escape(s: Seq<char>) -> Seq<char>
    decreases s.len(),
{
    if s.len() == 0 {
        Seq::empty()
    } else {
        json_escape_char(s[0]) + json_escape(s.drop_first())
    }
}

/// The compact text form of a JSON view, as serde_json's `to_string`
/// writes it: no spaces, object fields in stored order.
pub open spec fn json_text(j: JsonView) -> Seq<char>
    decreases j,
{
    match j {
        JsonView::Null => "null"@,
        JsonView::Bool(b) => if b {
            "true"@
        } else {
            "false"@
        },
        JsonView::Num(n) => n,
        JsonView::Str(s) => seq!['"'] + json_escape(s) + seq!['"'],
        JsonView::Arr(items) => seq!['['] + json_text_items(items) + seq![']'],
        JsonView::Obj(fields) => seq!['{'] + json_text_fields(fields) + seq!['}'],
    }
}

pub open spec fn json_text_items(items: Seq<JsonView>) -> Seq<char>
    decreases items,
{
    if items.len() == 0 {
        Seq::empty()
    } else if items.len() == 1 {
        json_text(items[0])
    } else {
        json_text(items[0]) + seq![','] + json_text_items(items.drop_first())
    }
}

pub open spec fn json_text_fields(fields: Seq<(Seq<char>, JsonView)>) -> Seq<char>
    decreases fields,
{
    if fields.len() == 0 {
        Seq::empty()
    } else {
        let head = seq!['"'] + json_escape(fields[0].0) + seq!['"', ':'] + json_text(fields[0].1);
        if fields.len() == 1 {
            head
        } else {
            head + seq![','] + json_text_fields(fields.drop_first())
        }
    }
}

fn escape_json_chars(v: &Vec<char>) -> (r: Vec<char>)
    ensures
        r@ == json_escape(v@),
{
    let mut r: Vec<char> = Vec::new();
    let mut i: usize = 0;
    proof {
        assert(v@.take(0) =~= Seq::<char>::empty());
    }
    while i < v.len()
        invariant
            i <= v.len(),
            r@ == json_escape(v@.take(i as int)),
        decreases v.len() - i,
    {
        let c = v[i];
        if c == '"' {
            r.push('\\');
            r.push('"');
        } else if c == '\\' {
            r.push('\\');
            r.push('\\');
        } else if (c as u32) == 8 {
            r.push('\\');
            r.push('b');
        } else if (c as u32) == 12 {
            r.push('\\');
            r.push('f');
        } else if c == '\n' {
            r.push('\\');
            r.push('n');
        } else if c == '\r' {
            r.push('\\');
            r.push('r');
        } else if c == '\t' {
            r.push('\\');
            r.push('t');
        } else if (c as u32) < 32 {
            r.push('\\');
            r.push('u');
            r.push('0');
            r.push('0');
            let n: u64 = (c as u32) as u64;
            r.push(text::nibble_to_char(n / 16));
            r.push(text::nibble_to_char(n % 16));
        } else {
            r.push(c);
        }
        proof {
            assert(v@.take(i + 1 as int) =~= v@.take(i as int) + seq![v@[i as int]]);
            lemma_json_escape_app(v@.take(i as int), seq![v@[i as int]]);
            reveal_with_fuel(json_escape, 2);
            assert(seq![v@[i as int]].drop_first() =~= Seq::<char>::empty());
            assert(json_escape(seq![v@[i as int]]) =~= json_escape_char(v@[i as int]));
            assert(r@ =~= json_escape(v@.take(i as int)) + json_escape_char(v@[i as int]));
        }
        i += 1;
    }
    proof {
        assert(v@.take(v@.len() as int) =~= v@);
    }
    r
}

proof fn lemma_json_escape_app(a: Seq<char>, b: Seq<char>)
    ensures
        json_escape(a + b) == json_escape(a) + json_escape(b),
    decreases a.len(),
{
    if a.len() == 0 {
        assert(a + b =~= b);
        assert(json_escape(a) + json_escape(b) =~= json_escape(b));
    } else {
        assert((a + b).drop_first() =~= a.drop_first() + b);
        lemma_json_escape_app(a.drop_first(), b);
        assert(json_escape(a + b) =~= json_escape(a) + json_escape(b));
    }
}

impl JsonModel {
    /// The compact text form of this value, as serde_json would write it.
    pub fn write_chars(&self) -> (r: Vec<char>)
        ensures
            r@ == json_text(self@),
        decreases *self,
    {
        match self {
            JsonModel::Null => text::str_to_chars("null"),
            JsonModel::Bool(b) => {
                if *b {
                    text::str_to_chars("true")
                } else {
                    text::str_to_chars("false")
                }
            }
            JsonModel::Num(n) => text::str_to_chars(n.as_str()),
            JsonModel::Str(s) => {
                let raw = text::str_to_chars(s.as_str());
                let esc = escape_json_chars(&raw);
                let mut out: Vec<char> = Vec::new();
                out.push('"');
                text::push_all(&mut out, &esc);
                out.push('"');
                proof {
                    assert(out@ =~= json_text(self@));
                }
                out
            }
            JsonModel::Arr(items) => {
                let mut out: Vec<char> = Vec::new();
                out.push('[');
                let body = write_items(items);
                text::push_all(&mut out, &body);
                out.push(']');
                proof {
                    assert(out@ =~= json_text(self@));
                }
                out
            }
            JsonModel::Obj(fields) => {
                let mut out: Vec<char> = Vec::new();
                out.push('{');
                let body = write_fields(fields);
                text::push_all(&mut out, &body);
                out.push('}');
                proof {
                    assert(out@ =~= json_text(self@));
                }
                out
            }
        }
    }

    /// The compact text form of this value, as a `String`.
    pub fn to_text(&self) -> (r: String)
        ensures
            r@ == json_text(self@),
    {
        let v = self.write_chars();
        text::chars_to_string(&v)
    }

    /// A copy with the same view.
    pub fn duplicate(&self) -> (r: Self)
        ensures
            r@ == self@,
        decreases *self,
    {
        match self {
            JsonModel::Null => JsonModel::Null,
            JsonModel::Bool(b) => JsonModel::Bool(*b),
            JsonModel::Num(n) => JsonModel::Num(n.clone()),
            JsonModel::Str(s) => JsonModel::Str(s.clone()),
            JsonModel::Arr(items) => {
                let copy = duplicate_items(items);
                let r = JsonModel::Arr(copy);
                proof {
                    lemma_views_of_items_index(items@);
                    lemma_views_of_items_index(r.arrow_Arr_0()@);
                    assert(views_of_items(r.arrow_Arr_0()@) =~= views_of_items(items@));
                }
                r
            }
            JsonModel::Obj(fields) => {
                let copy = duplicate_fields(fields);
                let r = JsonModel::Obj(copy);
                proof {
                    lemma_views_of_fields_index(fields@);
                    lemma_views_of_fields_index(r.arrow_Obj_0()@);
                    assert(views_of_fields(r.arrow_Obj_0()@) =~= views_of_fields(fields@));
                }
                r
            }
        }
    }
}

fn write_items(items: &Vec<JsonModel>) -> (r: Vec<char>)
    ensures
        r@ == json_text_items(views_of_items(items@)),
    decreases items@,
{
    proof {
        lemma_views_of_items_index(items@);
    }
    let mut out: Vec<char> = Vec::new();
    let mut i: usize = 0;
    while i < items.len()
        invariant
            i <= items@.len(),
            views_of_items(items@).len() == items@.len(),
            forall|k: int| 0 <= k < items@.len()
                ==> #[trigger] views_of_items(items@)[k] == items@[k]@,
            out@ == json_text_items_prefix(views_of_items(items@), i as int),
        decreases items@.len() - i,
    {
        if i > 0 {
            out.push(',');
        }
        let piece = items[i].write_chars();
        text::push_all(&mut out, &piece);
        proof {
            lemma_json_text_items_prefix_step(views_of_items(items@), i as int);
            assert(out@ =~= json_text_items_prefix(views_of_items(items@), i + 1 as int));
        }
        i += 1;
    }
    proof {
        lemma_json_text_items_prefix_full(views_of_items(items@));
    }
    out
}

fn write_fields(fields: &Vec<(String, JsonModel)>) -> (r: Vec<char>)
    ensures
        r@ == json_text_fields(views_of_fields(fields@)),
    decreases fields@,
{
    proof {
        lemma_views_of_fields_index(fields@);
    }
    let mut out: Vec<char> = Vec::new();
    let mut i: usize = 0;
    while i < fields.len()
        invariant
            i <= fields@.len(),
            views_of_fields(fields@).len() == fields@.len(),
            forall|k: int| 0 <= k < fields@.len()
                ==> #[trigger] views_of_fields(fields@)[k] == (fields@[k].0@, fields@[k].1@),
            out@ == json_text_fields_prefix(views_of_fields(fields@), i as int),
        decreases fields@.len() - i,
    {
        if i > 0 {
            out.push(',');
        }
        out.push('"');
        let kraw = text::str_to_chars(fields[i].0.as_str());
        let kesc = escape_json_chars(&kraw);
        text::push_all(&mut out, &kesc);
        out.push('"');
        out.push(':');
        let piece = fields[i].1.write_chars();
        text::push_all(&mut out, &piece);
        proof {
            lemma_json_text_fields_prefix_step(views_of_fields(fields@), i as int);
            assert(out@ =~= json_text_fields_prefix(views_of_fields(fields@), i + 1 as int));
        }
        i += 1;
    }
    proof {
        lemma_json_text_fields_prefix_full(views_of_fields(fields@));
    }
    out
}

/// The text of the first `i` items, commas included.
pub open spec fn json_text_items_prefix(items: Seq<JsonView>, i: int) -> Seq<char>
    decreases i,
{
    if i <= 0 {
        Seq::empty()
    } else if i == 1 {
        json_text(items[0])
    } else {
        json_text_items_prefix(items, i - 1) + seq![','] + json_text(items[i - 1])
    }
}

pub open spec fn json_field_text(f: (Seq<char>, JsonView)) -> Seq<char> {
    seq!['"'] + json_escape(f.0) + seq!['"', ':'] + json_text(f.1)
}

/// The text of the first `i` fields, commas included.
pub open spec fn json_text_fields_prefix(fields: Seq<(Seq<char>, JsonView)>, i: int) -> Seq<char>
    decreases i,
{
    if i <= 0 {
        Seq::empty()
    } else if i == 1 {
        json_field_text(fields[0])
    } else {
        json_text_fields_prefix(fields, i - 1) + seq![','] + json_field_text(fields[i - 1])
    }
}

proof fn lemma_json_text_items_prefix_step(items: Seq<JsonView>, i: int)
    requires
        0 <= i,
    ensures
        json_text_items_prefix(items, i + 1) == if i == 0 {
            json_text(items[0])
        } else {
            json_text_items_prefix(items, i) + seq![','] + json_text(items[i])
        },
{
}

proof fn lemma_json_text_fields_prefix_step(fields: Seq<(Seq<char>, JsonView)>, i: int)
    requires
        0 <= i,
    ensures
        json_text_fields_prefix(fields, i + 1) == if i == 0 {
            json_field_text(fields[0])
        } else {
            json_text_fields_prefix(fields, i) + seq![','] + json_field_text(fields[i])
        },
{
}

proof fn lemma_json_text_items_push(items: Seq<JsonView>, x: JsonView)
    ensures
        json_text_items(items.push(x)) == if items.len() == 0 {
            json_text(x)
        } else {
            json_text_items(items) + seq![','] + json_text(x)
        },
    decreases items.len(),
{
    if items.len() == 0 {
        assert(items.push(x)[0] == x);
    } else if items.len() == 1 {
        assert(items.push(x).drop_first() =~= seq![x]);
        assert(json_text_items(seq![x]) == json_text(x));
    } else {
        assert(items.push(x).drop_first() =~= items.drop_first().push(x));
        lemma_json_text_items_push(items.drop_first(), x);
        assert(json_text_items(items.push(x))
            =~= json_text_items(items) + seq![','] + json_text(x));
    }
}

proof fn lemma_json_text_fields_push(fields: Seq<(Seq<char>, JsonView)>, x: (Seq<char>, JsonView))
    ensures
        json_text_fields(fields.push(x)) == if fields.len() == 0 {
            json_field_text(x)
        } else {
            json_text_fields(fields) + seq![','] + json_field_text(x)
        },
    decreases fields.len(),
{
    if fields.len() == 0 {
        assert(fields.push(x)[0] == x);
    } else if fields.len() == 1 {
        assert(fields.push(x).drop_first() =~= seq![x]);
        assert(json_text_fields(seq![x]) == json_field_text(x));
    } else {
        assert(fields.push(x).drop_first() =~= fields.drop_first().push(x));
        lemma_json_text_fields_push(fields.drop_first(), x);
        assert(json_text_fields(fields.push(x))
            =~= json_text_fields(fields) + seq![','] + json_field_text(x));
    }
}

proof fn lemma_json_text_items_prefix_take(items: Seq<JsonView>, i: int)
    requires
        0 <= i <= items.len(),
    ensures
        json_text_items_prefix(items, i) == json_text_items(items.take(i)),
    decreases i,
{
    if i == 0 {
        assert(items.take(0) =~= Seq::<JsonView>::empty());
    } else {
        lemma_json_text_items_prefix_take(items, i - 1);
        assert(items.take(i) =~= items.take(i - 1).push(items[i - 1]));
        lemma_json_text_items_push(items.take(i - 1), items[i - 1]);
    }
}

proof fn lemma_json_text_fields_prefix_take(fields: Seq<(Seq<char>, JsonView)>, i: int)
    requires
        0 <= i <= fields.len(),
    ensures
        json_text_fields_prefix(fields, i) == json_text_fields(fields.take(i)),
    decreases i,
{
    if i == 0 {
        assert(fields.take(0) =~= Seq::<(Seq<char>, JsonView)>::empty());
    } else {
        lemma_json_text_fields_prefix_take(fields, i - 1);
        assert(fields.take(i) =~= fields.take(i - 1).push(fields[i - 1]));
        lemma_json_text_fields_push(fields.take(i - 1), fields[i - 1]);
    }
}

/// The full prefix is the joined item text.
proof fn lemma_json_text_items_prefix_full(items: Seq<JsonView>)
    ensures
        json_text_items_prefix(items, items.len() as int) == json_text_items(items),
{
    lemma_json_text_items_prefix_take(items, items.len() as int);
    assert(items.take(items.len() as int) =~= items);
}

/// The full prefix is the joined field text.
proof fn lemma_json_text_fields_prefix_full(fields: Seq<(Seq<char>, JsonView)>)
    ensures
        json_text_fields_prefix(fields, fields.len() as int) == json_text_fields(fields),
{
    lemma_json_text_fields_prefix_take(fields, fields.len() as int);
    assert(fields.take(fields.len() as int) =~= fields);
}

fn duplicate_items(items: &Vec<JsonModel>) -> (r: Vec<JsonModel>)
    ensures
        r@.len() == items@.len(),
        forall|k: int| 0 <= k < items@.len() ==> #[trigger] r@[k]@ == items@[k]@,
    decreases items@,
{
    let mut r: Vec<JsonModel> = Vec::new();
    let mut i: usize = 0;
    while i < items.len()
        invariant
            i <= items@.len(),
            r@.len() == i,
            forall|k: int| 0 <= k < i ==> #[trigger] r@[k]@ == items@[k]@,
        decreases items@.len() - i,
    {
        r.push(items[i].duplicate());
        i += 1;
    }
    r
}

fn duplicate_fields(fields: &Vec<(String, JsonModel)>) -> (r: Vec<(String, JsonModel)>)
    ensures
        r@.len() == fields@.len(),
        forall|k: int| 0 <= k < fields@.len()
            ==> #[trigger] r@[k].0@ == fields@[k].0@ && r@[k].1@ == fields@[k].1@,
    decreases fields@,
{
    let mut r: Vec<(String, JsonModel)> = Vec::new();
    let mut i: usize = 0;
    while i < fields.len()
        invariant
            i <= fields@.len(),
            r@.len() == i,
            forall|k: int| 0 <= k < i
                ==> #[trigger] r@[k].0@ == fields@[k].0@ && r@[k].1@ == fields@[k].1@,
        decreases fields@.len() - i,
    {
        let key = fields[i].0.clone();
        let val = fields[i].1.duplicate();
        r.push((key, val));
        i += 1;
    }
    r
}

} // verus!
