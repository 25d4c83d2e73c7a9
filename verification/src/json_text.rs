//! The text form of JSON values, read and written by `serde_json`.
use vstd::prelude::*;

use crate::json::Json;
use crate::json::JsonView;
use crate::order::views;
use crate::score::Score;
use crate::text::starts;

verus! {

/// A value of `serde_json`.
#[verifier::external_type_specification]
#[verifier::external_body]
pub struct ExValue(serde_json::Value);

/// What a value of `serde_json` holds.
pub uninterp spec fn json_contents(v: serde_json::Value) -> JsonView;

/// What `serde_json::from_str` reads from a text as a value: the value, or the
/// text of its error.
pub uninterp spec fn json_read(t: Seq<char>) -> Result<JsonView, Seq<char>>;

/// What `serde_json::from_str` reads from a text as a list of values: the
/// values, or the text of its error.
pub uninterp spec fn json_read_list(t: Seq<char>) -> Result<Seq<JsonView>, Seq<char>>;

/// The compact text that `serde_json` gives a value.
pub uninterp spec fn json_text(v: JsonView) -> Seq<char>;

/// The indented text that `serde_json::to_string_pretty` gives a value, if it
/// gives one.
pub uninterp spec fn json_pretty(v: JsonView) -> Option<Seq<char>>;

/// The bit pattern of what `serde_json::Value::as_f64` gives for a value, if it
/// gives anything.
pub uninterp spec fn json_number_bits(v: JsonView) -> Option<u64>;

/// What `serde_json::from_slice` reads from bytes as a list of pairs of
/// strings, if it reads one.
pub uninterp spec fn json_read_pairs(b: Seq<u8>) -> Option<Seq<(Seq<char>, Seq<char>)>>;

/// `serde_json::from_str::<Value>`: what it reads, or its error as text, is a
/// function of the text alone.
#[verifier::external_body]
fn parse_value(text: &str) -> (r: Result<serde_json::Value, String>)
    ensures
        match r {
            Ok(v) => json_read(text@) == Ok::<JsonView, Seq<char>>(json_contents(v)),
            Err(m) => json_read(text@) == Err::<JsonView, Seq<char>>(m@),
        },
{
    serde_json::from_str::<serde_json::Value>(text).map_err(|e| e.to_string())
}

/// `serde_json::from_str::<Vec<Value>>`: what it reads, or its error as text,
/// is a function of the text alone.
#[verifier::external_body]
fn parse_values(text: &str) -> (r: Result<Vec<serde_json::Value>, String>)
    ensures
        match r {
            Ok(v) => json_read_list(text@) == Ok::<Seq<JsonView>, Seq<char>>(
                Seq::new(v@.len(), |i: int| json_contents(v@[i])),
            ),
            Err(m) => json_read_list(text@) == Err::<Seq<JsonView>, Seq<char>>(m@),
        },
{
    serde_json::from_str::<Vec<serde_json::Value>>(text).map_err(|e| e.to_string())
}

/// Takes a `serde_json::Value` apart, variant by variant. Its map is a
/// `BTreeMap`, so the fields of an object come in key order, each key once.
#[verifier::external_body]
fn read_value(v: serde_json::Value) -> (r: Json)
    ensures
        r@ == json_contents(v),
        r@.wf(),
{
    match v {
        serde_json::Value::Null => Json::Null,
        serde_json::Value::Bool(b) => Json::Bool(b),
        serde_json::Value::Number(n) => match (n.as_u64(), n.as_i64()) {
            (Some(u), _) => Json::Unsigned(u),
            (None, Some(i)) => Json::Negative(i),
            (None, None) => Json::Decimal(n.to_string()),
        },
        serde_json::Value::String(s) => Json::Text(s),
        serde_json::Value::Array(a) => Json::List(a.into_iter().map(read_value).collect()),
        serde_json::Value::Object(m) => {
            Json::Object(m.into_iter().map(|(k, x)| (k, read_value(x))).collect())
        }
    }
}

/// The value that is written for `v`: the same, but for a number that is no
/// integer, which becomes what its text reads as, or `null` where that is no
/// JSON.
pub open spec fn settled(v: JsonView) -> JsonView
    decreases v,
{
    match v {
        JsonView::Decimal(t) => match json_read(t) {
            Ok(x) => x,
            Err(_) => JsonView::Null,
        },
        JsonView::List(s) => JsonView::List(
            Seq::new(
                s.len(),
                |i: int|
                    if 0 <= i < s.len() {
                        settled(s[i])
                    } else {
                        JsonView::Null
                    },
            ),
        ),
        JsonView::Object(f) => JsonView::Object(
            Seq::new(
                f.len(),
                |i: int|
                    if 0 <= i < f.len() {
                        (f[i].0, settled(f[i].1))
                    } else {
                        (Seq::empty(), JsonView::Null)
                    },
            ),
        ),
        other => other,
    }
}

/// Builds the `serde_json::Value` that holds the same, variant by variant; the
/// text of a number that is no integer goes through `serde_json::from_str`.
#[verifier::external_body]
fn write_value(j: &Json) -> (r: serde_json::Value)
    requires
        j@.wf(),
    ensures
        json_contents(r) == settled(j@),
{
    match j {
        Json::Null => serde_json::Value::Null,
        Json::Bool(b) => serde_json::Value::Bool(*b),
        Json::Unsigned(n) => serde_json::Value::from(*n),
        Json::Negative(n) => serde_json::Value::from(*n),
        Json::Decimal(t) => serde_json::from_str(t).unwrap_or(serde_json::Value::Null),
        Json::Text(s) => serde_json::Value::String(s.clone()),
        Json::List(v) => serde_json::Value::Array(v.iter().map(write_value).collect()),
        Json::Object(f) => {
            serde_json::Value::Object(f.iter().map(|(k, x)| (k.clone(), write_value(x))).collect())
        }
    }
}

/// The key is one that `serde_json` keeps for itself: where it is the first of an
/// object, the object may be read as something else.
pub open spec fn is_reserved(key: Seq<char>) -> bool {
    starts(key, "$serde_json::private::"@)
}

/// The value holds no number but integers and no key that `serde_json` keeps for
/// itself, and lists and objects lie within one another at most `depth` deep.
pub open spec fn plain(v: JsonView, depth: nat) -> bool
    decreases v,
{
    match v {
        JsonView::Decimal(_) => false,
        JsonView::List(s) => depth > 0 && forall|i: int|
            0 <= i < s.len() ==> plain(#[trigger] s[i], (depth - 1) as nat),
        JsonView::Object(f) => depth > 0 && forall|i: int|
            0 <= i < f.len() ==> !is_reserved((#[trigger] f[i]).0) && plain(
                f[i].1,
                (depth - 1) as nat,
            ),
        _ => true,
    }
}

/// The deepest nesting that `serde_json` reads.
pub const DEEPEST: u64 = 127;

/// `serde_json::Value::to_string`: the compact text of what the value holds. It
/// is not empty, and `serde_json::from_str` reads the same value from it, or the
/// same list of values, where it is not nested too deep to be read. Of values
/// with numbers other than integers, which may lose digits when they are read,
/// and of objects with a key that `serde_json` keeps for itself, that is not
/// claimed.
#[verifier::external_body]
fn value_text(v: &serde_json::Value) -> (r: String)
    ensures
        r@ == json_text(json_contents(*v)),
        r@.len() > 0,
        plain(json_contents(*v), DEEPEST as nat) ==> json_read(r@) is Ok && json_read(r@)->Ok_0
            == json_contents(*v),
        plain(json_contents(*v), DEEPEST as nat) && json_contents(*v) is List ==> json_read_list(
            r@,
        ) is Ok && json_read_list(r@)->Ok_0 == json_contents(*v)->List_0,
{
    v.to_string()
}

/// `serde_json::to_string_pretty`: the indented text of what the value holds.
#[verifier::external_body]
fn value_pretty(v: &serde_json::Value) -> (r: Option<String>)
    ensures
        crate::order::opt_view(r) == json_pretty(json_contents(*v)),
{
    serde_json::to_string_pretty(v).ok()
}

/// The value is a number.
pub open spec fn is_number(v: JsonView) -> bool {
    v is Unsigned || v is Negative || v is Decimal
}

/// `serde_json::Value::as_f64`, by the bit pattern of the number: a function of
/// what the value holds, which is there for every number and for nothing else.
#[verifier::external_body]
fn value_bits(v: &serde_json::Value) -> (r: Option<u64>)
    ensures
        r == json_number_bits(json_contents(*v)),
        r is Some <==> is_number(json_contents(*v)),
{
    v.as_f64().map(|x| x.to_bits())
}

/// `serde_json::from_slice::<Vec<(String, String)>>`: what it reads is a
/// function of the bytes alone.
#[verifier::external_body]
fn parse_pairs(b: &[u8]) -> (r: Option<Vec<(String, String)>>)
    ensures
        match r {
            Some(v) => json_read_pairs(b@) == Some(views(v@)),
            None => json_read_pairs(b@) is None,
        },
{
    serde_json::from_slice::<Vec<(String, String)>>(b).ok()
}

/// Reads a JSON value from its text.
pub fn parse(text: &str) -> (r: Result<Json, String>)
    ensures
        match r {
            Ok(v) => json_read(text@) == Ok::<JsonView, Seq<char>>(v@) && v@.wf(),
            Err(m) => json_read(text@) == Err::<JsonView, Seq<char>>(m@),
        },
{
    match parse_value(text) {
        Ok(v) => Ok(read_value(v)),
        Err(m) => Err(m),
    }
}

/// Reads a list of JSON values from its text.
pub fn parse_list(text: &str) -> (r: Result<Vec<Json>, String>)
    ensures
        match r {
            Ok(v) => json_read_list(text@) == Ok::<Seq<JsonView>, Seq<char>>(views(v@))
                && forall|i: int| 0 <= i < v@.len() ==> (#[trigger] v@[i])@.wf(),
            Err(m) => json_read_list(text@) == Err::<Seq<JsonView>, Seq<char>>(m@),
        },
{
    match parse_values(text) {
        Ok(v) => {
            let ghost all = Seq::new(v@.len(), |i: int| json_contents(v@[i]));
            let mut rest = v;
            let mut out: Vec<Json> = Vec::new();
            while rest.len() > 0
                invariant
                    out@.len() + rest@.len() == all.len(),
                    forall|i: int| 0 <= i < rest@.len() ==> json_contents(#[trigger] rest@[i])
                        == all[i + out@.len()],
                    forall|i: int|
                        0 <= i < out@.len() ==> (#[trigger] out@[i])@ == all[i] && out@[i]@.wf(),
                decreases rest@.len(),
            {
                let x = rest.remove(0);
                out.push(read_value(x));
            }
            assert(views(out@) =~= all);
            Ok(out)
        },
        Err(m) => Err(m),
    }
}

/// Reads a list of pairs of strings from JSON bytes; the empty list where the
/// bytes hold none.
pub fn parse_header_pairs(b: &[u8]) -> (r: Vec<(String, String)>)
    ensures
        views(r@) == match json_read_pairs(b@) {
            Some(v) => v,
            None => Seq::empty(),
        },
{
    match parse_pairs(b) {
        Some(v) => v,
        None => {
            let v: Vec<(String, String)> = Vec::new();
            assert(views(v@) =~= Seq::empty());
            v
        },
    }
}

/// The compact text of a value.
pub open spec fn rendered(v: JsonView) -> Seq<char> {
    json_text(settled(v))
}

/// A plain value is written as it is.
pub proof fn lemma_settled(v: JsonView, depth: nat)
    requires
        plain(v, depth),
    ensures
        settled(v) == v,
    decreases v,
{
    match v {
        JsonView::List(s) => {
            assert forall|i: int| 0 <= i < s.len() implies settled(#[trigger] s[i]) == s[i] by {
                lemma_settled(s[i], (depth - 1) as nat);
            }
            assert(settled(v)->List_0 =~= s);
        },
        JsonView::Object(f) => {
            assert forall|i: int| 0 <= i < f.len() implies settled((#[trigger] f[i]).1)
                == f[i].1 by {
                lemma_settled(f[i].1, (depth - 1) as nat);
            }
            assert(settled(v)->Object_0 =~= f);
        },
        _ => {},
    }
}

/// The compact text of a value. `parse` reads the same value from it, and
/// `parse_list` the same list, where its numbers are integers, no key is one that
/// `serde_json` keeps for itself, and it is not nested too deep to be read.
pub fn render(j: &Json) -> (r: String)
    requires
        j@.wf(),
    ensures
        r@ == rendered(j@),
        r@.len() > 0,
        plain(j@, DEEPEST as nat) ==> json_read(r@) == Ok::<JsonView, Seq<char>>(j@),
        plain(j@, DEEPEST as nat) ==> (j@ matches JsonView::List(s) ==> json_read_list(r@) == Ok::<
            Seq<JsonView>,
            Seq<char>,
        >(s)),
{
    let v = write_value(j);
    proof {
        if plain(j@, DEEPEST as nat) {
            lemma_settled(j@, DEEPEST as nat);
        }
    }
    value_text(&v)
}

/// The indented text of a value, or `{}` where there is none.
pub fn render_pretty(j: &Json) -> (r: String)
    requires
        j@.wf(),
    ensures
        r@ == match json_pretty(settled(j@)) {
            Some(t) => t,
            None => "{}"@,
        },
{
    let v = write_value(j);
    match value_pretty(&v) {
        Some(t) => t,
        None => "{}".to_string(),
    }
}

/// The score that a number stands for; none for what is no number.
pub open spec fn number_of(v: JsonView) -> Option<Score> {
    match json_number_bits(settled(v)) {
        Some(bits) => Some(Score { bits }),
        None => None,
    }
}

/// The score that a number stands for. Every integer has one, and what is no
/// number has none.
pub fn read_number(j: &Json) -> (r: Option<Score>)
    requires
        j@.wf(),
    ensures
        r == number_of(j@),
        j@ is Unsigned || j@ is Negative ==> r is Some,
        r is Some ==> is_number(j@),
{
    let v = write_value(j);
    match value_bits(&v) {
        Some(bits) => Some(Score { bits }),
        None => None,
    }
}

} // verus!
