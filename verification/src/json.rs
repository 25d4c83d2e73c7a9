//! JSON values: reading, building, and their text form.
//!
//! An object keeps its fields in key order, each key once.
use vstd::prelude::*;

use crate::order::rank;
use crate::order::strictly_sorted;
use crate::order::views;
use crate::text::less;
use crate::text::same;

verus! {

/// A JSON value.
pub enum Json {
    /// `null`
    Null,
    /// `true` or `false`
    Bool(bool),
    /// An integer that is not negative.
    Unsigned(u64),
    /// A negative integer.
    Negative(i64),
    /// Any other number, in its text form.
    Decimal(String),
    /// A string.
    Text(String),
    /// An array.
    List(Vec<Json>),
    /// An object: its fields in key order.
    Object(Vec<(String, Json)>),
}

/// What a JSON value stands for.
pub enum JsonView {
    /// `null`
    Null,
    /// `true` or `false`
    Bool(bool),
    /// An integer that is not negative.
    Unsigned(u64),
    /// A negative integer.
    Negative(i64),
    /// Any other number, in its text form.
    Decimal(Seq<char>),
    /// A string.
    Text(Seq<char>),
    /// An array.
    List(Seq<JsonView>),
    /// An object: its fields in key order.
    Object(Seq<(Seq<char>, JsonView)>),
}

impl Json {
    /// What the value stands for.
    pub open spec fn deep(self) -> JsonView
        decreases self,
    {
        match self {
            Json::Null => JsonView::Null,
            Json::Bool(b) => JsonView::Bool(b),
            Json::Unsigned(n) => JsonView::Unsigned(n),
            Json::Negative(n) => JsonView::Negative(n),
            Json::Decimal(t) => JsonView::Decimal(t@),
            Json::Text(t) => JsonView::Text(t@),
            Json::List(v) => JsonView::List(
                Seq::new(
                    v@.len(),
                    |i: int|
                        if 0 <= i < v@.len() {
                            v@[i].deep()
                        } else {
                            JsonView::Null
                        },
                ),
            ),
            Json::Object(f) => JsonView::Object(
                Seq::new(
                    f@.len(),
                    |i: int|
                        if 0 <= i < f@.len() {
                            (f@[i].0@, f@[i].1.deep())
                        } else {
                            (Seq::empty(), JsonView::Null)
                        },
                ),
            ),
        }
    }
}

impl View for Json {
    type V = JsonView;

    open spec fn view(&self) -> JsonView {
        self.deep()
    }
}

/// The keys of a list of fields.
pub open spec fn field_keys(f: Seq<(Seq<char>, JsonView)>) -> Seq<Seq<char>> {
    Seq::new(f.len(), |i: int| f[i].0)
}

/// The index of the first field with that key; the number of fields if there is
/// none.
pub open spec fn place(f: Seq<(Seq<char>, JsonView)>, key: Seq<char>) -> nat
    decreases f.len(),
{
    if f.len() == 0 {
        0
    } else {
        let p = place(f.drop_last(), key);
        if p < f.len() - 1 || f.last().0 == key {
            p
        } else {
            f.len()
        }
    }
}

impl JsonView {
    /// In every object the keys stand in key order, each once, and a negative
    /// integer is below zero.
    pub open spec fn wf(self) -> bool
        decreases self,
    {
        match self {
            JsonView::List(v) => forall|i: int| 0 <= i < v.len() ==> (#[trigger] v[i]).wf(),
            JsonView::Object(f) => {
                &&& strictly_sorted(field_keys(f))
                &&& forall|i: int| 0 <= i < f.len() ==> (#[trigger] f[i]).1.wf()
            },
            JsonView::Negative(n) => n < 0,
            _ => true,
        }
    }

    /// The field `key` of an object.
    pub open spec fn field(self, key: Seq<char>) -> Option<JsonView> {
        match self {
            JsonView::Object(f) => if place(f, key) < f.len() {
                Some(f[place(f, key) as int].1)
            } else {
                None
            },
            _ => None,
        }
    }

    /// The object with the field `key` set to `value`; what is no object is
    /// taken for the empty one.
    pub open spec fn with(self, key: Seq<char>, value: JsonView) -> JsonView {
        match self {
            JsonView::Object(f) => if place(f, key) < f.len() {
                JsonView::Object(f.update(place(f, key) as int, (key, value)))
            } else {
                JsonView::Object(f.insert(rank(field_keys(f), key) as int, (key, value)))
            },
            _ => JsonView::Object(seq![(key, value)]),
        }
    }

    /// The text of a string value.
    pub open spec fn text(self) -> Option<Seq<char>> {
        match self {
            JsonView::Text(t) => Some(t),
            _ => None,
        }
    }

    /// The elements of an array.
    pub open spec fn items(self) -> Option<Seq<JsonView>> {
        match self {
            JsonView::List(v) => Some(v),
            _ => None,
        }
    }

    /// The value of an integer that fits 64 bits with sign.
    pub open spec fn integer(self) -> Option<i64> {
        match self {
            JsonView::Unsigned(n) => if n <= i64::MAX {
                Some(n as i64)
            } else {
                None
            },
            JsonView::Negative(n) => Some(n),
            _ => None,
        }
    }

    /// The text of the string in field `key`.
    pub open spec fn text_field(self, key: Seq<char>) -> Option<Seq<char>> {
        match self.field(key) {
            Some(v) => v.text(),
            None => None,
        }
    }

    /// The text of the string in field `key`, or `default`.
    pub open spec fn text_or(self, key: Seq<char>, default: Seq<char>) -> Seq<char> {
        match self.text_field(key) {
            Some(t) => t,
            None => default,
        }
    }
}

/// The object without fields.
pub open spec fn empty_object() -> JsonView {
    JsonView::Object(Seq::empty())
}

/// The array of strings.
pub open spec fn text_list(v: Seq<Seq<char>>) -> JsonView {
    JsonView::List(Seq::new(v.len(), |i: int| JsonView::Text(v[i])))
}

/// `place` finds the first field with the key, if there is one.
pub proof fn lemma_place(f: Seq<(Seq<char>, JsonView)>, key: Seq<char>)
    ensures
        place(f, key) <= f.len(),
        place(f, key) < f.len() ==> f[place(f, key) as int].0 == key,
        forall|i: int| 0 <= i < place(f, key) ==> (#[trigger] f[i]).0 != key,
    decreases f.len(),
{
    if f.len() > 0 {
        let front = f.drop_last();
        lemma_place(front, key);
        assert forall|i: int| 0 <= i < place(f, key) implies (#[trigger] f[i]).0 != key by {
            if i < front.len() && i < place(front, key) {
                assert(front[i].0 != key);
            }
        }
    }
}

/// A well formed object has a key at most once.
proof fn lemma_place_unique(f: Seq<(Seq<char>, JsonView)>, key: Seq<char>, at: int)
    requires
        JsonView::Object(f).wf(),
        0 <= at < f.len(),
        f[at].0 == key,
    ensures
        place(f, key) == at,
{
    lemma_place(f, key);
    let p = place(f, key) as int;
    let ks = field_keys(f);
    <Seq<char> as crate::order::KeyOrder>::irreflexive(key);
    if p < at {
        assert(crate::order::text_lt(ks[p], ks[at]));
    }
}

/// In a well formed object a key stands at its rank, if it stands there at all.
proof fn lemma_place_rank(f: Seq<(Seq<char>, JsonView)>, key: Seq<char>)
    requires
        JsonView::Object(f).wf(),
    ensures
        rank(field_keys(f), key) <= f.len(),
        place(f, key) < f.len() <==> field_keys(f).contains(key),
        place(f, key) < f.len() ==> place(f, key) == rank(field_keys(f), key),
{
    let ks = field_keys(f);
    crate::order::lemma_rank(ks, key);
    lemma_place(f, key);
    if place(f, key) < f.len() {
        assert(ks[place(f, key) as int] == key);
        lemma_place_unique(f, key, rank(ks, key) as int);
    }
    if ks.contains(key) {
        let at = rank(ks, key) as int;
        assert(f[at].0 == key);
        lemma_place_unique(f, key, at);
    }
}

/// Setting a field keeps the object well formed; the field then reads back, and
/// every other field reads as before.
pub proof fn lemma_with_field(o: JsonView, key: Seq<char>, value: JsonView, other: Seq<char>)
    requires
        o is Object,
        o.wf(),
        value.wf(),
    ensures
        o.with(key, value).wf(),
        o.with(key, value).field(key) == Some(value),
        other != key ==> o.with(key, value).field(other) == o.field(other),
{
    let f = o->Object_0;
    let ks = field_keys(f);
    let at = rank(ks, key) as int;
    lemma_place_rank(f, key);
    lemma_place_rank(f, other);
    lemma_place(f, other);
    let g = o.with(key, value)->Object_0;
    let gs = field_keys(g);
    crate::order::lemma_with_key(ks, key);
    if ks.contains(key) {
        lemma_place(f, key);
        assert(ks[at] == key);
        assert(gs =~= ks);
        assert forall|i: int| 0 <= i < g.len() implies (#[trigger] g[i]).1.wf() by {
            if i != at {
                assert(f[i].1.wf());
            }
        }
    } else {
        assert(gs =~= ks.insert(at, key));
        assert forall|i: int| 0 <= i < g.len() implies (#[trigger] g[i]).1.wf() by {
            if i < at {
                assert(f[i].1.wf());
            } else if i > at {
                assert(f[i - 1].1.wf());
            }
        }
    }
    assert(gs[at] == key);
    lemma_place_unique(g, key, at);
    if other != key {
        lemma_place_rank(g, other);
        if place(f, other) < f.len() {
            let i = place(f, other) as int;
            let k = if ks.contains(key) || i < at { i } else { i + 1 };
            assert(g[k] == f[i]);
            lemma_place_unique(g, other, k);
        } else {
            assert(!ks.contains(other));
            assert(!gs.contains(other));
        }
    }
}

/// A field of an object in which a field was set: the value that was set, or what
/// it read as before.
pub broadcast proof fn lemma_with_reads(
    o: JsonView,
    key: Seq<char>,
    value: JsonView,
    other: Seq<char>,
)
    requires
        o is Object,
        o.wf(),
        value.wf(),
    ensures
        #[trigger] o.with(key, value).field(other) == if other == key {
            Some(value)
        } else {
            o.field(other)
        },
{
    lemma_with_field(o, key, value, other);
}

/// An object in which a field was set is a well formed object.
pub broadcast proof fn lemma_with_keeps(o: JsonView, key: Seq<char>, value: JsonView)
    requires
        o is Object,
        o.wf(),
        value.wf(),
    ensures
        (#[trigger] o.with(key, value)) is Object,
        o.with(key, value).wf(),
{
    lemma_with_field(o, key, value, key);
}

/// An array of strings is well formed.
pub broadcast proof fn lemma_texts_wf(v: Seq<Seq<char>>)
    ensures
        (#[trigger] text_list(v)).wf(),
{
    let l = Seq::new(v.len(), |i: int| JsonView::Text(v[i]));
    assert forall|i: int| 0 <= i < l.len() implies (#[trigger] l[i]).wf() by {
        assert(l[i] == JsonView::Text(v[i]));
    }
}

impl Json {
    /// The view of an array holds the views of its elements.
    pub proof fn lemma_list(v: Vec<Json>)
        ensures
            Json::List(v)@ == JsonView::List(views(v@)),
    {
        assert(Json::List(v)@->List_0 =~= views(v@));
    }

    /// A copy of the value.
    pub fn copy(&self) -> (r: Json)
        ensures
            r@ == self@,
        decreases self,
    {
        match self {
            Json::Null => Json::Null,
            Json::Bool(b) => Json::Bool(*b),
            Json::Unsigned(n) => Json::Unsigned(*n),
            Json::Negative(n) => Json::Negative(*n),
            Json::Decimal(t) => Json::Decimal(t.clone()),
            Json::Text(t) => Json::Text(t.clone()),
            Json::List(v) => {
                let mut r: Vec<Json> = Vec::new();
                let mut i: usize = 0;
                while i < v.len()
                    invariant
                        i <= v@.len(),
                        self == Json::List(*v),
                        r@.len() == i,
                        forall|j: int| 0 <= j < i ==> (#[trigger] r@[j])@ == v@[j]@,
                    decreases v@.len() - i,
                {
                    assert(decreases_to!(*self => self->List_0));
                    assert(decreases_to!(v => v@));
                    assert(decreases_to!(v@ => v@[i as int]));
                    let c = v[i].copy();
                    r.push(c);
                    i = i + 1;
                }
                let out = Json::List(r);
                assert(out@->List_0 =~= self@->List_0);
                out
            },
            Json::Object(f) => {
                let mut r: Vec<(String, Json)> = Vec::new();
                let mut i: usize = 0;
                while i < f.len()
                    invariant
                        i <= f@.len(),
                        self == Json::Object(*f),
                        r@.len() == i,
                        forall|j: int|
                            0 <= j < i ==> (#[trigger] r@[j]).0@ == f@[j].0@ && r@[j].1@
                                == f@[j].1@,
                    decreases f@.len() - i,
                {
                    assert(decreases_to!(*self => self->Object_0));
                    assert(decreases_to!(f => f@));
                    assert(decreases_to!(f@ => f@[i as int]));
                    assert(decreases_to!(f@[i as int] => f@[i as int].1));
                    let c = f[i].1.copy();
                    r.push((f[i].0.clone(), c));
                    i = i + 1;
                }
                let out = Json::Object(r);
                assert(out@->Object_0 =~= self@->Object_0);
                out
            },
        }
    }
}

impl Json {
    /// The first field with that key.
    pub fn get(&self, key: &str) -> (r: Option<&Json>)
        ensures
            match r {
                Some(v) => self@.field(key@) == Some(v@),
                None => self@.field(key@) is None,
            },
    {
        match self {
            Json::Object(f) => {
                let ghost g = self@->Object_0;
                let mut i: usize = 0;
                while i < f.len()
                    invariant
                        i <= f@.len(),
                        self == Json::Object(*f),
                        g == self@->Object_0,
                        forall|j: int| 0 <= j < i ==> (#[trigger] g[j]).0 != key@,
                    decreases f@.len() - i,
                {
                    assert(g[i as int].0 == f@[i as int].0@);
                    if same(f[i].0.as_str(), key) {
                        proof {
                            lemma_place(g, key@);
                            assert(place(g, key@) == i);
                        }
                        return Some(&f[i].1);
                    }
                    i = i + 1;
                }
                proof {
                    lemma_place(g, key@);
                }
                None
            },
            _ => None,
        }
    }

    /// The text of a string value.
    pub fn as_text(&self) -> (r: Option<&String>)
        ensures
            match r {
                Some(t) => self@.text() == Some(t@),
                None => self@.text() is None,
            },
    {
        match self {
            Json::Text(t) => Some(t),
            _ => None,
        }
    }

    /// The elements of an array.
    pub fn as_items(&self) -> (r: Option<&Vec<Json>>)
        ensures
            match r {
                Some(v) => self@.items() == Some(views(v@)),
                None => self@.items() is None,
            },
    {
        match self {
            Json::List(v) => {
                assert(self@->List_0 =~= views(v@));
                Some(v)
            },
            _ => None,
        }
    }

    /// The value of an integer that fits 64 bits with sign.
    pub fn as_integer(&self) -> (r: Option<i64>)
        ensures
            r == self@.integer(),
    {
        match self {
            Json::Unsigned(n) => if *n <= i64::MAX as u64 {
                Some(*n as i64)
            } else {
                None
            },
            Json::Negative(n) => Some(*n),
            _ => None,
        }
    }

    /// The text of the string in field `key`.
    pub fn text_field(&self, key: &str) -> (r: Option<String>)
        ensures
            crate::order::opt_view(r) == self@.text_field(key@),
    {
        match self.get(key) {
            Some(v) => match v.as_text() {
                Some(t) => Some(t.clone()),
                None => None,
            },
            None => None,
        }
    }

    /// The text of the string in field `key`, or `default`.
    pub fn text_or(&self, key: &str, default: &str) -> (r: String)
        ensures
            r@ == self@.text_or(key@, default@),
    {
        match self.text_field(key) {
            Some(t) => t,
            None => default.to_string(),
        }
    }

    /// The object without fields.
    pub fn object() -> (r: Json)
        ensures
            r@ == empty_object(),
            r@.wf(),
    {
        let r = Json::Object(Vec::new());
        assert(r@->Object_0 =~= Seq::empty());
        r
    }

    /// A string value.
    pub fn of_text(t: &str) -> (r: Json)
        ensures
            r@ == JsonView::Text(t@),
            r@.wf(),
    {
        Json::Text(t.to_string())
    }

    /// An array of strings.
    pub fn of_texts(v: &Vec<String>) -> (r: Json)
        ensures
            r@ == text_list(views(v@)),
            r@.wf(),
    {
        let mut out: Vec<Json> = Vec::new();
        let mut i: usize = 0;
        while i < v.len()
            invariant
                i <= v@.len(),
                out@.len() == i,
                forall|j: int| 0 <= j < i ==> (#[trigger] out@[j])@ == JsonView::Text(v@[j]@),
            decreases v@.len() - i,
        {
            out.push(Json::Text(v[i].clone()));
            i = i + 1;
        }
        let r = Json::List(out);
        assert(r@->List_0 =~= text_list(views(v@))->List_0);
        assert forall|j: int| 0 <= j < r@->List_0.len() implies (#[trigger] r@->List_0[j]).wf() by {
            assert(r@->List_0[j] is Text);
        }
        r
    }

    /// An array.
    pub fn of_items(v: Vec<Json>) -> (r: Json)
        requires
            forall|i: int| 0 <= i < v@.len() ==> (#[trigger] v@[i])@.wf(),
        ensures
            r@ == JsonView::List(views(v@)),
            r@.wf(),
    {
        let ghost vs = v@;
        let r = Json::List(v);
        assert(r@->List_0 =~= views(vs));
        assert forall|i: int| 0 <= i < vs.len() implies (#[trigger] r@->List_0[i]).wf() by {
            assert(vs[i]@.wf());
        }
        r
    }

    /// The object with the field `key` set to `value`.
    pub fn set(self, key: &str, value: Json) -> (r: Json)
        requires
            self@ is Object,
            self@.wf(),
            value@.wf(),
        ensures
            r@ == self@.with(key@, value@),
            r@ is Object,
            r@.wf(),
    {
        let ghost o = self@;
        proof {
            lemma_with_field(o, key@, value@, key@);
        }
        match self {
            Json::Object(f) => {
                proof {
                    lemma_object_view(f);
                }
                let g = set_in(f, key, value);
                proof {
                    lemma_object_view(g);
                }
                Json::Object(g)
            },
            other => other,
        }
    }
}

/// The views of a list of fields.
pub open spec fn fields(f: Seq<(String, Json)>) -> Seq<(Seq<char>, JsonView)> {
    Seq::new(f.len(), |i: int| (f[i].0@, f[i].1@))
}

proof fn lemma_object_view(f: Vec<(String, Json)>)
    ensures
        Json::Object(f)@ == JsonView::Object(fields(f@)),
{
    assert(Json::Object(f)@->Object_0 =~= fields(f@));
}

fn set_in(f: Vec<(String, Json)>, key: &str, value: Json) -> (r: Vec<(String, Json)>)
    requires
        JsonView::Object(fields(f@)).wf(),
    ensures
        JsonView::Object(fields(r@)) == JsonView::Object(fields(f@)).with(key@, value@),
{
    let ghost g = fields(f@);
    let ghost ks = field_keys(g);
    proof {
        lemma_place_rank(g, key@);
        lemma_place(g, key@);
    }
    let mut f = f;
    let mut n: usize = f.len();
    assert(ks.take(n as int) =~= ks);
    while n > 0 && !less(f[n - 1].0.as_str(), key)
        invariant
            n <= f@.len(),
            g == fields(f@),
            ks == field_keys(g),
            rank(ks, key@) == rank(ks.take(n as int), key@),
        decreases n,
    {
        proof {
            crate::order::lemma_take_step(ks, n - 1);
        }
        n = n - 1;
    }
    proof {
        if n > 0 {
            assert(ks.take(n as int).last() == ks[n - 1]);
        }
        assert(n == rank(ks, key@));
    }
    if n < f.len() && same(f[n].0.as_str(), key) {
        assert(g[n as int].0 == key@);
        assert(ks[n as int] == key@);
        let held = f.remove(n);
        f.insert(n, (held.0, value));
        assert(fields(f@) =~= g.update(n as int, (key@, value@)));
    } else {
        f.insert(n, (key.to_string(), value));
        assert(fields(f@) =~= g.insert(n as int, (key@, value@)));
    }
    f
}

} // verus!
