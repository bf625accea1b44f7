//! The term encoder: the two textual encodings of entities and constraints
//! that the embedded rule-engine backends consume.
//!
//! The dict encoding writes `_{key:"value", ...}` with double-quoted,
//! backslash-escaped values; the list encoding writes `[key-'value', ...]`
//! with single-quoted atoms. Both include exactly the fields that are set.

use vstd::prelude::*;
use crate::model::{Constraints, ConstraintsView, Entities, EntitiesView, SourcePreference};
use crate::model::{source_pref_atom, weather_query_atom, weather_query_token};
use crate::text;

verus! {

/// Escaping for double-quoted strings: a backslash doubles, a double quote
/// gains a backslash, all else is unchanged.
pub open spec fn escape_dq(s: Seq<char>) -> Seq<char>
    decreases s.len(),
{
    if s.len() == 0 {
        Seq::empty()
    } else {
        escape_dq_char(s[0]) + escape_dq(s.drop_first())
    }
}

pub open spec fn escape_dq_char(c: char) -> Seq<char> {
    if c == '\\' {
        seq!['\\', '\\']
    } else if c == '"' {
        seq!['\\', '"']
    } else {
        seq![c]
    }
}

/// Escaping for single-quoted atoms: a backslash doubles, a single quote
/// gains a backslash.
pub open spec fn escape_sq(s: Seq<char>) -> Seq<char>
    decreases s.len(),
{
    if s.len() == 0 {
        Seq::empty()
    } else {
        escape_sq_char(s[0]) + escape_sq(s.drop_first())
    }
}

pub open spec fn escape_sq_char(c: char) -> Seq<char> {
    if c == '\\' {
        seq!['\\', '\\']
    } else if c == '\'' {
        seq!['\\', '\'']
    } else {
        seq![c]
    }
}

proof fn lemma_escape_dq_app(a: Seq<char>, b: Seq<char>)
    ensures
        escape_dq(a + b) == escape_dq(a) + escape_dq(b),
    decreases a.len(),
{
    if a.len() == 0 {
        assert(a + b =~= b);
        assert(escape_dq(a) + escape_dq(b) =~= escape_dq(b));
    } else {
        assert((a + b).drop_first() =~= a.drop_first() + b);
        lemma_escape_dq_app(a.drop_first(), b);
        assert(escape_dq(a + b) =~= escape_dq(a) + escape_dq(b));
    }
}

proof fn lemma_escape_sq_app(a: Seq<char>, b: Seq<char>)
    ensures
        escape_sq(a + b) == escape_sq(a) + escape_sq(b),
    decreases a.len(),
{
    if a.len() == 0 {
        assert(a + b =~= b);
        assert(escape_sq(a) + escape_sq(b) =~= escape_sq(b));
    } else {
        assert((a + b).drop_first() =~= a.drop_first() + b);
        lemma_escape_sq_app(a.drop_first(), b);
        assert(escape_sq(a + b) =~= escape_sq(a) + escape_sq(b));
    }
}

fn escape_chars_dq(v: &Vec<char>) -> (r: Vec<char>)
    ensures
        r@ == escape_dq(v@),
{
    let mut r: Vec<char> = Vec::new();
    let mut i: usize = 0;
    proof {
        assert(v@.take(0) =~= Seq::<char>::empty());
    }
    while i < v.len()
        invariant
            i <= v.len(),
            r@ == escape_dq(v@.take(i as int)),
        decreases v.len() - i,
    {
        let c = v[i];
        if c == '\\' {
            r.push('\\');
            r.push('\\');
        } else if c == '"' {
            r.push('\\');
            r.push('"');
        } else {
            r.push(c);
        }
        proof {
            assert(v@.take(i + 1 as int) =~= v@.take(i as int) + seq![v@[i as int]]);
            lemma_escape_dq_app(v@.take(i as int), seq![v@[i as int]]);
            reveal_with_fuel(escape_dq, 2);
            assert(seq![v@[i as int]].drop_first() =~= Seq::<char>::empty());
            assert(escape_dq(seq![v@[i as int]]) =~= escape_dq_char(v@[i as int]));
            assert(r@ =~= escape_dq(v@.take(i as int)) + escape_dq_char(v@[i as int]));
        }
        i += 1;
    }
    proof {
        assert(v@.take(v@.len() as int) =~= v@);
    }
    r
}

fn escape_chars_sq(v: &Vec<char>) -> (r: Vec<char>)
    ensures
        r@ == escape_sq(v@),
{
    let mut r: Vec<char> = Vec::new();
    let mut i: usize = 0;
    proof {
        assert(v@.take(0) =~= Seq::<char>::empty());
    }
    while i < v.len()
        invariant
            i <= v.len(),
            r@ == escape_sq(v@.take(i as int)),
        decreases v.len() - i,
    {
        let c = v[i];
        if c == '\\' {
            r.push('\\');
            r.push('\\');
        } else if c == '\'' {
            r.push('\\');
            r.push('\'');
        } else {
            r.push(c);
        }
        proof {
            assert(v@.take(i + 1 as int) =~= v@.take(i as int) + seq![v@[i as int]]);
            lemma_escape_sq_app(v@.take(i as int), seq![v@[i as int]]);
            reveal_with_fuel(escape_sq, 2);
            assert(seq![v@[i as int]].drop_first() =~= Seq::<char>::empty());
            assert(escape_sq(seq![v@[i as int]]) =~= escape_sq_char(v@[i as int]));
            assert(r@ =~= escape_sq(v@.take(i as int)) + escape_sq_char(v@[i as int]));
        }
        i += 1;
    }
    proof {
        assert(v@.take(v@.len() as int) =~= v@);
    }
    r
}

/// Doubles backslashes, then escapes double quotes, as the dict encoding
/// needs.
pub fn escape_prolog_string(s: &str) -> (r: String)
    ensures
        r@ == escape_dq(s@),
{
    let v = text::str_to_chars(s);
    let e = escape_chars_dq(&v);
    text::chars_to_string(&e)
}

/// Doubles backslashes, then escapes single quotes, as the list encoding
/// needs.
pub fn escape_prolog_atom(s: &str) -> (r: String)
    ensures
        r@ == escape_sq(s@),
{
    let v = text::str_to_chars(s);
    let e = escape_chars_sq(&v);
    text::chars_to_string(&e)
}

/// Undoing the double-quote escaping: each backslash pair collapses.
pub open spec fn unescape_dq(s: Seq<char>) -> Seq<char>
    decreases s.len(),
{
    if s.len() == 0 {
        Seq::empty()
    } else if s[0] == '\\' && s.len() >= 2 {
        seq![s[1]] + unescape_dq(s.skip(2))
    } else {
        seq![s[0]] + unescape_dq(s.drop_first())
    }
}

/// Undoing the single-quote escaping.
pub open spec fn unescape_sq(s: Seq<char>) -> Seq<char>
    decreases s.len(),
{
    if s.len() == 0 {
        Seq::empty()
    } else if s[0] == '\\' && s.len() >= 2 {
        seq![s[1]] + unescape_sq(s.skip(2))
    } else {
        seq![s[0]] + unescape_sq(s.drop_first())
    }
}

/// Escaping a string for the dict encoding loses nothing: unescaping gives
/// the original back.
pub proof fn lemma_escape_dq_roundtrip(s: Seq<char>)
    ensures
        unescape_dq(escape_dq(s)) == s,
    decreases s.len(),
{
    if s.len() > 0 {
        lemma_escape_dq_roundtrip(s.drop_first());
        let c = s[0];
        if c == '\\' || c == '"' {
            assert(escape_dq(s).skip(2) =~= escape_dq(s.drop_first()));
            assert(unescape_dq(escape_dq(s)) =~= s);
        } else {
            assert(escape_dq(s).drop_first() =~= escape_dq(s.drop_first()));
            assert(unescape_dq(escape_dq(s)) =~= s);
        }
    } else {
        assert(unescape_dq(escape_dq(s)) =~= s);
    }
}

/// One `key:"value"` item of the dict encoding.
pub open spec fn dq_part(key: Seq<char>, v: Seq<char>) -> Seq<char> {
    key + seq![':', '"'] + escape_dq(v) + seq!['"']
}

/// One `key-'value'` item of the list encoding.
pub open spec fn sq_part(key: Seq<char>, v: Seq<char>) -> Seq<char> {
    key + seq!['-', '\''] + escape_sq(v) + seq!['\'']
}

/// A field's `(key, raw value)` pair, present only when the field is set.
pub open spec fn opt_field(key: Seq<char>, o: Option<Seq<char>>) -> Seq<(Seq<char>, Seq<char>)> {
    match o {
        Some(v) => seq![(key, v)],
        None => Seq::empty(),
    }
}

/// The fields of `e` that are set, in declaration order, as
/// `(key, raw value)` pairs; the weather query contributes its token.
pub open spec fn present_fields(e: EntitiesView) -> Seq<(Seq<char>, Seq<char>)> {
    opt_field("topic"@, e.topic) + opt_field("query"@, e.query)
        + opt_field("location"@, e.location) + opt_field("date"@, e.date)
        + opt_field("date_end"@, e.date_end) + opt_field("recipient"@, e.recipient)
        + opt_field("priority"@, e.priority) + (match e.weather_query {
        Some(w) => seq![("weather_query"@, weather_query_atom(w))],
        None => Seq::empty(),
    })
}

/// How the dict encoding writes one field.
pub open spec fn dict_field(kv: (Seq<char>, Seq<char>)) -> Seq<char> {
    dq_part(kv.0, kv.1)
}

/// How the list encoding writes one field: the weather query is a bare
/// atom, every other value a single-quoted atom.
pub open spec fn list_field(kv: (Seq<char>, Seq<char>)) -> Seq<char> {
    if kv.0 == "weather_query"@ {
        kv.0 + seq!['-'] + kv.1
    } else {
        sq_part(kv.0, kv.1)
    }
}

/// The dict item for one optional field.
pub open spec fn opt_dq_part(key: Seq<char>, o: Option<Seq<char>>) -> Seq<Seq<char>> {
    match o {
        Some(v) => seq![dq_part(key, v)],
        None => Seq::empty(),
    }
}

/// The list item for one optional field.
pub open spec fn opt_sq_part(key: Seq<char>, o: Option<Seq<char>>) -> Seq<Seq<char>> {
    match o {
        Some(v) => seq![sq_part(key, v)],
        None => Seq::empty(),
    }
}

pub open spec fn entities_dict_parts(e: EntitiesView) -> Seq<Seq<char>> {
    opt_dq_part("topic"@, e.topic) + opt_dq_part("query"@, e.query)
        + opt_dq_part("location"@, e.location) + opt_dq_part("date"@, e.date)
        + opt_dq_part("date_end"@, e.date_end) + opt_dq_part("recipient"@, e.recipient)
        + opt_dq_part("priority"@, e.priority) + (match e.weather_query {
        Some(w) => seq![dq_part("weather_query"@, weather_query_atom(w))],
        None => Seq::empty(),
    })
}

pub open spec fn entities_list_parts(e: EntitiesView) -> Seq<Seq<char>> {
    opt_sq_part("topic"@, e.topic) + opt_sq_part("query"@, e.query)
        + opt_sq_part("location"@, e.location) + opt_sq_part("date"@, e.date)
        + opt_sq_part("date_end"@, e.date_end) + opt_sq_part("recipient"@, e.recipient)
        + opt_sq_part("priority"@, e.priority) + (match e.weather_query {
        Some(w) => seq!["weather_query"@ + seq!['-'] + weather_query_atom(w)],
        None => Seq::empty(),
    })
}

/// The full dict encoding of the entities.
pub open spec fn entities_dict(e: EntitiesView) -> Seq<char> {
    seq!['_', '{'] + text::join_with(entities_dict_parts(e), ", "@) + seq!['}']
}

/// The full list encoding of the entities.
pub open spec fn entities_list(e: EntitiesView) -> Seq<char> {
    seq!['['] + text::join_with(entities_list_parts(e), ", "@) + seq![']']
}

/// The dict encoding of the constraints.
pub open spec fn constraints_dict(c: ConstraintsView) -> Seq<char> {
    seq!['_', '{'] + "source_preference"@ + seq![':', '"'] + source_pref_atom(c.source_preference)
        + seq!['"', ',', ' '] + "safety"@ + seq![':', '"'] + escape_dq(c.safety) + seq!['"', '}']
}

/// The list encoding of the constraints; the source preference is a bare
/// atom, the safety tag a quoted one.
pub open spec fn constraints_list(c: ConstraintsView) -> Seq<char> {
    seq!['['] + "source_preference"@ + seq!['-'] + source_pref_atom(c.source_preference)
        + seq![',', ' '] + "safety"@ + seq!['-', '\''] + escape_sq(c.safety) + seq!['\'', ']']
}

fn dict_part_vec(key: &str, val: &str) -> (r: Vec<char>)
    ensures
        r@ == dq_part(key@, val@),
{
    let mut v = text::str_to_chars(key);
    v.push(':');
    v.push('"');
    let raw = text::str_to_chars(val);
    let e = escape_chars_dq(&raw);
    text::push_all(&mut v, &e);
    v.push('"');
    proof {
        assert(v@ =~= dq_part(key@, val@));
    }
    v
}

fn list_part_vec(key: &str, val: &str) -> (r: Vec<char>)
    ensures
        r@ == sq_part(key@, val@),
{
    let mut v = text::str_to_chars(key);
    v.push('-');
    v.push('\'');
    let raw = text::str_to_chars(val);
    let e = escape_chars_sq(&raw);
    text::push_all(&mut v, &e);
    v.push('\'');
    proof {
        assert(v@ =~= sq_part(key@, val@));
    }
    v
}

/// Converting to the dict-style textual encoding.
pub trait ToPrologDict {
    fn to_prolog_dict(&self) -> String;
}

/// Converting to the list-style textual encoding.
pub trait ToPrologList {
    fn to_prolog_list(&self) -> String;
}

fn push_opt_dict(parts: &mut Vec<Vec<char>>, key: &str, o: &Option<String>)
    ensures
        final(parts).deep_view() == old(parts).deep_view()
            + opt_dq_part(key@, crate::model::opt_view(*o)),
{
    match o {
        Some(v) => {
            let p = dict_part_vec(key, v.as_str());
            let ghost pd = parts.deep_view();
            parts.push(p);
            proof {
                assert(parts.deep_view() =~~= pd + seq![dq_part(key@, v@)]);
            }
        }
        None => {
            proof {
                assert(parts.deep_view() + Seq::<Seq<char>>::empty() =~= parts.deep_view());
            }
        }
    }
}

fn push_opt_list(parts: &mut Vec<Vec<char>>, key: &str, o: &Option<String>)
    ensures
        final(parts).deep_view() == old(parts).deep_view()
            + opt_sq_part(key@, crate::model::opt_view(*o)),
{
    match o {
        Some(v) => {
            let p = list_part_vec(key, v.as_str());
            let ghost pd = parts.deep_view();
            parts.push(p);
            proof {
                assert(parts.deep_view() =~~= pd + seq![sq_part(key@, v@)]);
            }
        }
        None => {
            proof {
                assert(parts.deep_view() + Seq::<Seq<char>>::empty() =~= parts.deep_view());
            }
        }
    }
}

impl ToPrologDict for Entities {
    /// The `_{key:"value", ...}` encoding of exactly the fields that are set.
    fn to_prolog_dict(&self) -> (r: String)
        ensures
            r@ == entities_dict(self@),
    {
        let mut parts: Vec<Vec<char>> = Vec::new();
        proof {
            assert(parts.deep_view() =~~= Seq::<Seq<char>>::empty());
        }
        push_opt_dict(&mut parts, "topic", &self.topic);
        push_opt_dict(&mut parts, "query", &self.query);
        push_opt_dict(&mut parts, "location", &self.location);
        push_opt_dict(&mut parts, "date", &self.date);
        push_opt_dict(&mut parts, "date_end", &self.date_end);
        push_opt_dict(&mut parts, "recipient", &self.recipient);
        push_opt_dict(&mut parts, "priority", &self.priority);
        if let Some(w) = &self.weather_query {
            let p = dict_part_vec("weather_query", weather_query_token(w));
            let ghost pd = parts.deep_view();
            parts.push(p);
            proof {
                assert(parts.deep_view() =~~= pd
                    + seq![dq_part("weather_query"@, weather_query_atom(*w))]);
            }
        } else {
            proof {
                assert(parts.deep_view() + Seq::<Seq<char>>::empty() =~= parts.deep_view());
            }
        }
        proof {
            assert(parts.deep_view() =~= entities_dict_parts(self@));
        }
        let sep = text::str_to_chars(", ");
        let body = text::join_vecs(&parts, &sep);
        let mut out: Vec<char> = Vec::new();
        out.push('_');
        out.push('{');
        text::push_all(&mut out, &body);
        out.push('}');
        proof {
            assert(out@ =~= entities_dict(self@));
        }
        text::chars_to_string(&out)
    }
}

impl ToPrologList for Entities {
    /// The `[key-'value', ...]` encoding of exactly the fields that are set.
    fn to_prolog_list(&self) -> (r: String)
        ensures
            r@ == entities_list(self@),
    {
        let mut parts: Vec<Vec<char>> = Vec::new();
        proof {
            assert(parts.deep_view() =~~= Seq::<Seq<char>>::empty());
        }
        push_opt_list(&mut parts, "topic", &self.topic);
        push_opt_list(&mut parts, "query", &self.query);
        push_opt_list(&mut parts, "location", &self.location);
        push_opt_list(&mut parts, "date", &self.date);
        push_opt_list(&mut parts, "date_end", &self.date_end);
        push_opt_list(&mut parts, "recipient", &self.recipient);
        push_opt_list(&mut parts, "priority", &self.priority);
        if let Some(w) = &self.weather_query {
            let mut p = text::str_to_chars("weather_query");
            p.push('-');
            let tok = text::str_to_chars(weather_query_token(w));
            text::push_all(&mut p, &tok);
            let ghost pd = parts.deep_view();
            parts.push(p);
            proof {
                assert(p@ =~= "weather_query"@ + seq!['-'] + weather_query_atom(*w));
                assert(parts.deep_view() =~~= pd
                    + seq!["weather_query"@ + seq!['-'] + weather_query_atom(*w)]);
            }
        } else {
            proof {
                assert(parts.deep_view() + Seq::<Seq<char>>::empty() =~= parts.deep_view());
            }
        }
        proof {
            assert(parts.deep_view() =~= entities_list_parts(self@));
        }
        let sep = text::str_to_chars(", ");
        let body = text::join_vecs(&parts, &sep);
        let mut out: Vec<char> = Vec::new();
        out.push('[');
        text::push_all(&mut out, &body);
        out.push(']');
        proof {
            assert(out@ =~= entities_list(self@));
        }
        text::chars_to_string(&out)
    }
}


impl ToPrologDict for Constraints {
    /// The `_{source_preference:"...", safety:"..."}` encoding.
    fn to_prolog_dict(&self) -> (r: String)
        ensures
            r@ == constraints_dict(self@),
    {
        let sp: &str = match self.source_preference {
            SourcePreference::Notes => "notes",
            SourcePreference::Files => "files",
            SourcePreference::Either => "either",
        };
        let mut out: Vec<char> = Vec::new();
        out.push('_');
        out.push('{');
        let k1 = text::str_to_chars("source_preference");
        text::push_all(&mut out, &k1);
        out.push(':');
        out.push('"');
        let spv = text::str_to_chars(sp);
        text::push_all(&mut out, &spv);
        out.push('"');
        out.push(',');
        out.push(' ');
        let k2 = text::str_to_chars("safety");
        text::push_all(&mut out, &k2);
        out.push(':');
        out.push('"');
        let raw = text::str_to_chars(self.safety.as_str());
        let esc = escape_chars_dq(&raw);
        text::push_all(&mut out, &esc);
        out.push('"');
        out.push('}');
        proof {
            assert(out@ =~= constraints_dict(self@));
        }
        text::chars_to_string(&out)
    }
}

impl ToPrologList for Constraints {
    /// The `[source_preference-..., safety-'...']` encoding.
    fn to_prolog_list(&self) -> (r: String)
        ensures
            r@ == constraints_list(self@),
    {
        let sp: &str = match self.source_preference {
            SourcePreference::Notes => "notes",
            SourcePreference::Files => "files",
            SourcePreference::Either => "either",
        };
        let mut out: Vec<char> = Vec::new();
        out.push('[');
        let k1 = text::str_to_chars("source_preference");
        text::push_all(&mut out, &k1);
        out.push('-');
        let spv = text::str_to_chars(sp);
        text::push_all(&mut out, &spv);
        out.push(',');
        out.push(' ');
        let k2 = text::str_to_chars("safety");
        text::push_all(&mut out, &k2);
        out.push('-');
        out.push('\'');
        let raw = text::str_to_chars(self.safety.as_str());
        let esc = escape_chars_sq(&raw);
        text::push_all(&mut out, &esc);
        out.push('\'');
        out.push(']');
        proof {
            assert(out@ =~= constraints_list(self@));
        }
        text::chars_to_string(&out)
    }
}

/// The two encodings list the same fields in the same order: the dict form
/// writes each present field as `key:"escaped"`, the list form writes the
/// same key with the same raw value as `key-'escaped'` (the weather query
/// as a bare atom), and unescaping recovers the raw value exactly.
#[verifier::rlimit(100)]
#[verifier::spinoff_prover]
pub proof fn lemma_encodings_agree(e: EntitiesView)
    ensures
        entities_dict_parts(e).len() == present_fields(e).len(),
        entities_list_parts(e).len() == present_fields(e).len(),
        forall|i: int| 0 <= i < present_fields(e).len()
            ==> #[trigger] entities_dict_parts(e)[i]
                == dq_part(present_fields(e)[i].0, present_fields(e)[i].1),
        forall|i: int| 0 <= i < present_fields(e).len()
            ==> #[trigger] entities_list_parts(e)[i] == list_field(present_fields(e)[i]),
        forall|i: int| 0 <= i < present_fields(e).len()
            ==> #[trigger] unescape_dq(escape_dq(present_fields(e)[i].1))
                == present_fields(e)[i].1,
        forall|i: int| 0 <= i < present_fields(e).len()
            ==> #[trigger] unescape_sq(escape_sq(present_fields(e)[i].1))
                == present_fields(e)[i].1,
{
    reveal_strlit("topic");
    reveal_strlit("query");
    reveal_strlit("location");
    reveal_strlit("date");
    reveal_strlit("date_end");
    reveal_strlit("recipient");
    reveal_strlit("priority");
    reveal_strlit("weather_query");
    assert forall|i: int| 0 <= i < present_fields(e).len() implies #[trigger] unescape_dq(
        escape_dq(present_fields(e)[i].1),
    ) == present_fields(e)[i].1 by {
        lemma_escape_dq_roundtrip(present_fields(e)[i].1);
    }
    assert forall|i: int| 0 <= i < present_fields(e).len() implies #[trigger] unescape_sq(
        escape_sq(present_fields(e)[i].1),
    ) == present_fields(e)[i].1 by {
        lemma_escape_sq_roundtrip(present_fields(e)[i].1);
    }
}

/// Escaping an atom for the list encoding loses nothing either.
pub proof fn lemma_escape_sq_roundtrip(s: Seq<char>)
    ensures
        unescape_sq(escape_sq(s)) == s,
    decreases s.len(),
{
    if s.len() > 0 {
        lemma_escape_sq_roundtrip(s.drop_first());
        let c = s[0];
        if c == '\\' || c == '\'' {
            assert(escape_sq(s).skip(2) =~= escape_sq(s.drop_first()));
            assert(unescape_sq(escape_sq(s)) =~= s);
        } else {
            assert(escape_sq(s).drop_first() =~= escape_sq(s.drop_first()));
            assert(unescape_sq(escape_sq(s)) =~= s);
        }
    } else {
        assert(unescape_sq(escape_sq(s)) =~= s);
    }
}

} // verus!
