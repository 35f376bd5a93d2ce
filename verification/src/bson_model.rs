use vstd::prelude::*;

verus! {

broadcast use vstd::std_specs::vec::group_vec_axioms;

/// The mathematical model of a BSON value: what a pipeline stage or a
/// filter document holds, with strings as character sequences and the
/// entries of a document in insertion order.
pub enum BsonV {
    Null,
    Boolean(bool),
    Int32(i32),
    Int64(i64),
    String(Seq<char>),
    DateTime(i64),
    Array(Seq<BsonV>),
    Document(Seq<(Seq<char>, BsonV)>),
}

/// A BSON value as the library builds it: aggregation stages and filter
/// documents for the database. A date is held as milliseconds since the
/// Unix epoch, as BSON holds it.
#[derive(Debug, PartialEq, Eq)]
pub enum Bson {
    Null,
    Boolean(bool),
    Int32(i32),
    Int64(i64),
    String(String),
    DateTime(i64),
    Array(Vec<Bson>),
    Document(Vec<(String, Bson)>),
}

/// The models of a sequence of values, element by element.
pub open spec fn items_view(s: Seq<Bson>) -> Seq<BsonV>
    decreases s,
{
    if s.len() == 0 {
        Seq::empty()
    } else {
        items_view(s.drop_last()).push(s.last().model())
    }
}

/// The models of a sequence of document entries, entry by entry.
pub open spec fn entries_view(s: Seq<(String, Bson)>) -> Seq<(Seq<char>, BsonV)>
    decreases s,
{
    if s.len() == 0 {
        Seq::empty()
    } else {
        entries_view(s.drop_last()).push((s.last().0@, s.last().1.model()))
    }
}

/// The views of a sequence of strings.
pub open spec fn string_views(s: Seq<String>) -> Seq<Seq<char>> {
    s.map_values(|x: String| x@)
}

/// Names as BSON strings.
pub open spec fn names_model(names: Seq<Seq<char>>) -> Seq<BsonV> {
    names.map_values(|x: Seq<char>| BsonV::String(x))
}

impl BsonV {
    pub open spec fn doc() -> BsonV {
        BsonV::Document(Seq::empty())
    }

    /// The document with one more entry at its end.
    pub open spec fn with(self, key: Seq<char>, value: BsonV) -> BsonV {
        match self {
            BsonV::Document(es) => BsonV::Document(es.push((key, value))),
            _ => self,
        }
    }

    pub open spec fn arr() -> BsonV {
        BsonV::Array(Seq::empty())
    }

    /// The array with one more element at its end.
    pub open spec fn item(self, value: BsonV) -> BsonV {
        match self {
            BsonV::Array(xs) => BsonV::Array(xs.push(value)),
            _ => self,
        }
    }
}

pub proof fn lemma_items_view(s: Seq<Bson>)
    ensures
        items_view(s).len() == s.len(),
        forall|i: int| 0 <= i < s.len() ==> #[trigger] items_view(s)[i] == s[i].model(),
    decreases s.len(),
{
    if s.len() > 0 {
        lemma_items_view(s.drop_last());
    }
}

pub proof fn lemma_entries_view(s: Seq<(String, Bson)>)
    ensures
        entries_view(s).len() == s.len(),
        forall|i: int|
            0 <= i < s.len() ==> #[trigger] entries_view(s)[i] == (s[i].0@, s[i].1.model()),
    decreases s.len(),
{
    if s.len() > 0 {
        lemma_entries_view(s.drop_last());
    }
}

pub proof fn lemma_items_view_push(s: Seq<Bson>, b: Bson)
    ensures
        items_view(s.push(b)) == items_view(s).push(b.model()),
{
    assert(s.push(b).drop_last() =~= s);
}

pub proof fn lemma_items_view_append(s: Seq<Bson>, t: Seq<Bson>)
    ensures
        items_view(s + t) == items_view(s) + items_view(t),
{
    lemma_items_view(s);
    lemma_items_view(t);
    lemma_items_view(s + t);
    assert(items_view(s + t) =~= items_view(s) + items_view(t));
}

impl Bson {
    pub open spec fn model(self) -> BsonV
        decreases self,
    {
        match self {
            Bson::Null => BsonV::Null,
            Bson::Boolean(b) => BsonV::Boolean(b),
            Bson::Int32(i) => BsonV::Int32(i),
            Bson::Int64(i) => BsonV::Int64(i),
            Bson::String(s) => BsonV::String(s@),
            Bson::DateTime(d) => BsonV::DateTime(d),
            Bson::Array(v) => BsonV::Array(items_view(v@)),
            Bson::Document(v) => BsonV::Document(entries_view(v@)),
        }
    }

    /// An empty document.
    pub fn doc() -> (r: Bson)
        ensures
            r is Document,
            r.model() == BsonV::doc(),
    {
        let r = Bson::Document(Vec::new());
        assert(r->Document_0@ =~= Seq::<(String, Bson)>::empty());
        r
    }

    /// This document with the entry `key: value` added at its end.
    pub fn with(self, key: &str, value: Bson) -> (r: Bson)
        requires
            self is Document,
        ensures
            r is Document,
            r.model() == self.model().with(key@, value.model()),
    {
        match self {
            Bson::Document(mut v) => {
                let ghost old_v = v@;
                v.push((String::from_str(key), value));
                assert(v@.drop_last() =~= old_v);
                Bson::Document(v)
            },
            _ => self,
        }
    }

    /// An empty array.
    pub fn array() -> (r: Bson)
        ensures
            r is Array,
            r.model() == BsonV::arr(),
    {
        let r = Bson::Array(Vec::new());
        assert(r->Array_0@ =~= Seq::<Bson>::empty());
        r
    }

    /// This array with `value` added at its end.
    pub fn item(self, value: Bson) -> (r: Bson)
        requires
            self is Array,
        ensures
            r is Array,
            r.model() == self.model().item(value.model()),
    {
        match self {
            Bson::Array(mut v) => {
                let ghost old_v = v@;
                v.push(value);
                assert(v@.drop_last() =~= old_v);
                Bson::Array(v)
            },
            _ => self,
        }
    }

    /// A BSON string holding `s`.
    pub fn str(s: &str) -> (r: Bson)
        ensures
            r.model() == BsonV::String(s@),
    {
        Bson::String(String::from_str(s))
    }

    /// A BSON array of the given strings, in their order.
    pub fn string_array(xs: &Vec<String>) -> (r: Bson)
        ensures
            r.model() == BsonV::Array(names_model(string_views(xs@))),
    {
        let mut v: Vec<Bson> = Vec::new();
        let mut i: usize = 0;
        while i < xs.len()
            invariant
                i <= xs.len(),
                items_view(v@) == names_model(string_views(xs@.take(i as int))),
            decreases xs.len() - i,
        {
            let ghost old_v = v@;
            v.push(Bson::String(xs[i].clone()));
            proof {
                lemma_items_view_push(old_v, Bson::String(xs@[i as int]));
                assert(names_model(string_views(xs@.take(i + 1))) =~= names_model(
                    string_views(xs@.take(i as int)),
                ).push(BsonV::String(xs@[i as int]@)));
            }
            i = i + 1;
        }
        assert(xs@.take(xs.len() as int) =~= xs@);
        Bson::Array(v)
    }

    /// A copy of this value, with the same model.
    pub fn duplicate(&self) -> (r: Bson)
        ensures
            r.model() == self.model(),
        decreases self,
    {
        match self {
            Bson::Null => Bson::Null,
            Bson::Boolean(b) => Bson::Boolean(*b),
            Bson::Int32(i) => Bson::Int32(*i),
            Bson::Int64(i) => Bson::Int64(*i),
            Bson::String(s) => Bson::String(s.clone()),
            Bson::DateTime(d) => Bson::DateTime(*d),
            Bson::Array(xs) => {
                let mut v: Vec<Bson> = Vec::new();
                let mut i: usize = 0;
                while i < xs.len()
                    invariant
                        i <= xs.len(),
                        *self == Bson::Array(*xs),
                        items_view(v@) == items_view(xs@.take(i as int)),
                    decreases xs.len() - i,
                {
                    proof {
                        assert(decreases_to!(*self => self->Array_0));
                        assert(decreases_to!(*xs => xs[i as int]));
                    }
                    let x = xs[i].duplicate();
                    let ghost old_v = v@;
                    v.push(x);
                    proof {
                        lemma_items_view_push(old_v, x);
                        assert(xs@.take(i + 1).drop_last() =~= xs@.take(i as int));
                    }
                    i = i + 1;
                }
                assert(xs@.take(xs.len() as int) =~= xs@);
                Bson::Array(v)
            },
            Bson::Document(es) => {
                let mut v: Vec<(String, Bson)> = Vec::new();
                let mut i: usize = 0;
                while i < es.len()
                    invariant
                        i <= es.len(),
                        *self == Bson::Document(*es),
                        entries_view(v@) == entries_view(es@.take(i as int)),
                    decreases es.len() - i,
                {
                    proof {
                        assert(decreases_to!(*self => self->Document_0));
                        assert(decreases_to!(*es => es[i as int]));
                        assert(decreases_to!(es[i as int] => es[i as int].1));
                    }
                    let x = es[i].1.duplicate();
                    let k = es[i].0.clone();
                    let ghost old_v = v@;
                    v.push((k, x));
                    proof {
                        assert(v@.drop_last() =~= old_v);
                        assert(es@.take(i + 1).drop_last() =~= es@.take(i as int));
                    }
                    i = i + 1;
                }
                assert(es@.take(es.len() as int) =~= es@);
                Bson::Document(v)
            },
        }
    }
}

/// The entries of a document with `key` set to `value`: the first entry
/// with that key gets the value, or the entry is added at the end.
pub open spec fn insert_entry(
    es: Seq<(Seq<char>, BsonV)>,
    key: Seq<char>,
    value: BsonV,
) -> Seq<(Seq<char>, BsonV)> {
    if exists|i: int| 0 <= i < es.len() && es[i].0 == key {
        let i = choose|i: int|
            0 <= i < es.len() && es[i].0 == key && forall|j: int| 0 <= j < i ==> es[j].0 != key;
        es.update(i, (key, value))
    } else {
        es.push((key, value))
    }
}

impl Bson {
    /// This document with `key` set to `value`, as a BSON document's
    /// `insert` does it: in place of the first entry with that key, or at
    /// the end.
    pub fn insert(self, key: &str, value: Bson) -> (r: Bson)
        requires
            self is Document,
        ensures
            r is Document,
            r.model() == BsonV::Document(insert_entry(self.model()->Document_0, key@, value.model())),
    {
        match self {
            Bson::Document(mut v) => {
                let ghost old_v = v@;
                assert(self.model() == BsonV::Document(entries_view(old_v)));
                let k = String::from_str(key);
                let mut i: usize = 0;
                while i < v.len()
                    invariant
                        i <= v.len(),
                        v@ == old_v,
                        self.model() == BsonV::Document(entries_view(old_v)),
                        k@ == key@,
                        forall|j: int| 0 <= j < i ==> v@[j].0@ != key@,
                    decreases v.len() - i,
                {
                    let same = v[i].0.eq(&k);
                    if same {
                        let ghost es = entries_view(old_v);
                        proof {
                            lemma_entries_view(old_v);
                        }
                        assert(es[i as int].0 == key@);
                        assert(forall|j: int| 0 <= j < i ==> es[j].0 != key@);
                        v.set(i, (k, value));
                        proof {
                            lemma_entries_view(v@);
                            assert(entries_view(v@) =~= es.update(i as int, (key@, value.model())));
                            let c = choose|c: int|
                                0 <= c < es.len() && es[c].0 == key@ && forall|j: int|
                                    0 <= j < c ==> es[j].0 != key@;
                            assert(c == i);
                            assert(exists|j: int| 0 <= j < es.len() && es[j].0 == key@);
                            assert(insert_entry(es, key@, value.model()) == es.update(
                                i as int,
                                (key@, value.model()),
                            ));
                            assert(self.model() == BsonV::Document(es));
                        }
                        return Bson::Document(v);
                    }
                    i = i + 1;
                }
                proof {
                    lemma_entries_view(old_v);
                    let es = entries_view(old_v);
                    assert(!(exists|j: int| 0 <= j < es.len() && es[j].0 == key@));
                }
                v.push((k, value));
                assert(v@.drop_last() =~= old_v);
                Bson::Document(v)
            },
            _ => self,
        }
    }
}

/// Appends `b` to a sequence of values.
pub fn push_value(v: &mut Vec<Bson>, b: Bson)
    ensures
        items_view(final(v)@) == items_view(old(v)@).push(b.model()),
{
    let ghost old_v = v@;
    v.push(b);
    proof {
        lemma_items_view_push(old_v, b);
    }
}

/// Copies a sequence of values, element by element.
pub fn duplicate_all(xs: &Vec<Bson>) -> (r: Vec<Bson>)
    ensures
        items_view(r@) == items_view(xs@),
{
    let mut v: Vec<Bson> = Vec::new();
    let mut i: usize = 0;
    while i < xs.len()
        invariant
            i <= xs.len(),
            items_view(v@) == items_view(xs@.take(i as int)),
        decreases xs.len() - i,
    {
        let x = xs[i].duplicate();
        push_value(&mut v, x);
        assert(xs@.take(i + 1).drop_last() =~= xs@.take(i as int));
        i = i + 1;
    }
    assert(xs@.take(xs.len() as int) =~= xs@);
    v
}

/// Moves the values of `other` to the end of `v`.
pub fn append_values(v: &mut Vec<Bson>, other: Vec<Bson>)
    ensures
        items_view(final(v)@) == items_view(old(v)@) + items_view(other@),
{
    let mut other = other;
    let ghost o = other@;
    let ghost start = v@;
    v.append(&mut other);
    proof {
        lemma_items_view_append(start, o);
    }
}

/// The value of the first entry of `es` with the key, if any.
pub open spec fn entry_value(es: Seq<(Seq<char>, BsonV)>, key: Seq<char>) -> Option<BsonV>
    decreases es.len(),
{
    if es.len() == 0 {
        None
    } else if es[0].0 == key {
        Some(es[0].1)
    } else {
        entry_value(es.drop_first(), key)
    }
}

/// The date of the entry with the key, when the value is a document whose
/// first entry with that key holds a date.
pub open spec fn datetime_entry(d: BsonV, key: Seq<char>) -> Option<i64> {
    match d {
        BsonV::Document(es) => match entry_value(es, key) {
            Some(BsonV::DateTime(ms)) => Some(ms),
            _ => None,
        },
        _ => None,
    }
}

impl Bson {
    /// The date under `key`, as a BSON document's `get_datetime` gives it.
    pub fn get_datetime(&self, key: &str) -> (r: Option<i64>)
        ensures
            r == datetime_entry(self.model(), key@),
    {
        match self {
            Bson::Document(es) => {
                let k = String::from_str(key);
                let ghost ev = entries_view(es@);
                proof {
                    lemma_entries_view(es@);
                }
                let mut i: usize = 0;
                assert(ev.skip(0) =~= ev);
                assert(self.model() == BsonV::Document(ev));
                while i < es.len()
                    invariant
                        i <= es.len(),
                        k@ == key@,
                        self.model() == BsonV::Document(ev),
                        ev == entries_view(es@),
                        ev.len() == es@.len(),
                        forall|j: int| 0 <= j < es@.len() ==> #[trigger] ev[j] == (es@[j].0@, es@[j].1.model()),
                        entry_value(ev, key@) == entry_value(ev.skip(i as int), key@),
                    decreases es.len() - i,
                {
                    assert(ev.skip(i as int)[0] == ev[i as int]);
                    assert(ev.skip(i as int).drop_first() =~= ev.skip(i + 1));
                    if es[i].0.eq(&k) {
                        assert(ev[i as int].0 == key@);
                        assert(entry_value(ev, key@) == Some(es@[i as int].1.model()));
                        assert(self.model() == BsonV::Document(ev));
                        return match &es[i].1 {
                            Bson::DateTime(ms) => Some(*ms),
                            _ => None,
                        };
                    }
                    i = i + 1;
                }
                None
            },
            _ => None,
        }
    }
}

/// The value under a key is that of its first entry.
pub proof fn lemma_entry_value_at(es: Seq<(Seq<char>, BsonV)>, key: Seq<char>, j: int)
    requires
        0 <= j < es.len(),
        es[j].0 == key,
        forall|i: int| 0 <= i < j ==> es[i].0 != key,
    ensures
        entry_value(es, key) == Some(es[j].1),
    decreases j,
{
    if j > 0 {
        let d = es.drop_first();
        assert forall|i: int| 0 <= i < j - 1 implies d[i].0 != key by {
            assert(d[i] == es[i + 1]);
        }
        lemma_entry_value_at(d, key, j - 1);
    }
}

/// A key with no entry has no value.
pub proof fn lemma_entry_value_none(es: Seq<(Seq<char>, BsonV)>, key: Seq<char>)
    requires
        forall|i: int| 0 <= i < es.len() ==> es[i].0 != key,
    ensures
        entry_value(es, key) is None,
    decreases es.len(),
{
    if es.len() > 0 {
        let d = es.drop_first();
        assert forall|i: int| 0 <= i < d.len() implies d[i].0 != key by {
            assert(d[i] == es[i + 1]);
        }
        lemma_entry_value_none(d, key);
    }
}

/// Reading a key after setting it gives the value set, and reading any
/// other key gives what it gave before.
pub proof fn law_insert_then_read(
    es: Seq<(Seq<char>, BsonV)>,
    key: Seq<char>,
    value: BsonV,
    other: Seq<char>,
)
    ensures
        entry_value(insert_entry(es, key, value), key) == Some(value),
        other != key ==> entry_value(insert_entry(es, key, value), other) == entry_value(es, other),
{
    let r = insert_entry(es, key, value);
    if exists|i: int| 0 <= i < es.len() && es[i].0 == key {
        let w = choose|i: int| 0 <= i < es.len() && es[i].0 == key;
        let i = choose|i: int|
            0 <= i < es.len() && es[i].0 == key && forall|j: int| 0 <= j < i ==> es[j].0 != key;
        assert(exists|i: int|
            0 <= i < es.len() && es[i].0 == key && forall|j: int| 0 <= j < i ==> es[j].0 != key) by {
            lemma_first_key(es, key, w);
        }
        assert(r == es.update(i, (key, value)));
        lemma_entry_value_at(r, key, i);
        if other != key {
            if exists|j: int| 0 <= j < es.len() && es[j].0 == other {
                let w2 = choose|j: int| 0 <= j < es.len() && es[j].0 == other;
                lemma_first_key(es, other, w2);
                let j = choose|j: int|
                    0 <= j < es.len() && es[j].0 == other && forall|l: int| 0 <= l < j ==> es[l].0 != other;
                lemma_entry_value_at(es, other, j);
                lemma_entry_value_at(r, other, j);
            } else {
                lemma_entry_value_none(es, other);
                lemma_entry_value_none(r, other);
            }
        }
    } else {
        assert(r == es.push((key, value)));
        lemma_entry_value_at(r, key, es.len() as int);
        if other != key {
            if exists|j: int| 0 <= j < es.len() && es[j].0 == other {
                let w2 = choose|j: int| 0 <= j < es.len() && es[j].0 == other;
                lemma_first_key(es, other, w2);
                let j = choose|j: int|
                    0 <= j < es.len() && es[j].0 == other && forall|l: int| 0 <= l < j ==> es[l].0 != other;
                lemma_entry_value_at(es, other, j);
                lemma_entry_value_at(r, other, j);
            } else {
                lemma_entry_value_none(es, other);
                lemma_entry_value_none(r, other);
            }
        }
    }
}

/// A key that has an entry has a first one.
proof fn lemma_first_key(es: Seq<(Seq<char>, BsonV)>, key: Seq<char>, w: int)
    requires
        0 <= w < es.len(),
        es[w].0 == key,
    ensures
        exists|i: int| 0 <= i < es.len() && es[i].0 == key && forall|j: int| 0 <= j < i ==> es[j].0 != key,
    decreases w,
{
    if exists|j: int| 0 <= j < w && es[j].0 == key {
        let j = choose|j: int| 0 <= j < w && es[j].0 == key;
        lemma_first_key(es, key, j);
    } else {
        assert(forall|j: int| 0 <= j < w ==> es[j].0 != key);
    }
}

} // verus!
