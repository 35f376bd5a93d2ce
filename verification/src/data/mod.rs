pub mod edm;
pub mod member;
pub mod party;
pub mod si;

use vstd::prelude::*;

use crate::bson_model::{insert_entry, Bson, BsonV};

verus! {

/// A stored record: the item itself and what the dataset adds to it.
#[derive(Clone, Debug, PartialEq, Eq, Hash, PartialOrd, Ord)]
pub struct DatasetItem<T, E> {
    pub item: T,
    pub extra: E,
}

/// A house of Parliament, as the dataset numbers it.
#[derive(Clone, Copy, Debug, PartialEq, Eq, Hash, PartialOrd, Ord)]
pub enum House {
    Commons,
    Lords,
    Unknown,
}

impl House {
    /// The number the dataset gives the house.
    pub open spec fn spec_code(self) -> u8 {
        match self {
            House::Commons => 1,
            House::Lords => 2,
            House::Unknown => 255,
        }
    }

    pub fn code(&self) -> (r: u8)
        ensures
            r == self.spec_code(),
    {
        match self {
            House::Commons => 1,
            House::Lords => 2,
            House::Unknown => 255,
        }
    }

    /// The house with the number 1 or 2; other numbers are not houses.
    pub open spec fn spec_from_code(value: u8) -> House {
        if value == 1 {
            House::Commons
        } else {
            House::Lords
        }
    }

    pub fn from_code(value: u8) -> (r: House)
        requires
            value == 1 || value == 2,
        ensures
            r == House::spec_from_code(value),
            r.spec_code() == value,
    {
        if value == 1 {
            House::Commons
        } else {
            House::Lords
        }
    }
}

/// The text held, or the empty text.
pub open spec fn text_or_empty(o: Option<String>) -> Seq<char> {
    match o {
        Some(s) => s@,
        None => Seq::empty(),
    }
}

/// A copy of the text held, or an empty text.
pub fn text_or_new(o: &Option<String>) -> (r: String)
    ensures
        r@ == text_or_empty(*o),
{
    match o {
        Some(s) => s.clone(),
        None => String::new(),
    }
}

/// How many whole seconds `then` lies before `now`, both in milliseconds
/// since the Unix epoch; 0 when `then` is later.
pub open spec fn age_secs(now: i64, then: i64) -> int {
    if then > now {
        0
    } else {
        (now - then) / 1000
    }
}

pub fn elapsed_secs(now: i64, then: i64) -> (r: u64)
    ensures
        r == age_secs(now, then),
{
    if then > now {
        0
    } else {
        let d: i128 = now as i128 - then as i128;
        (d / 1000) as u64
    }
}

/// A filter with the condition that the item was updated less than
/// `hours` hours before `now` (milliseconds since the Unix epoch).
pub open spec fn cached_model(doc: BsonV, now: i64, hours: u64) -> BsonV {
    match doc {
        BsonV::Document(es) => BsonV::Document(
            insert_entry(
                es,
                "item._updated"@,
                BsonV::doc().with("$gt"@, BsonV::DateTime((now - hours * 3600000) as i64)),
            ),
        ),
        _ => doc,
    }
}

pub fn cached(doc: Bson, now: i64, hours: u64) -> (r: Bson)
    requires
        doc is Document,
        now - hours * 3600000 >= i64::MIN,
    ensures
        r.model() == cached_model(doc.model(), now, hours),
{
    let limit: i64 = (now as i128 - hours as i128 * 3600000) as i64;
    let cond = Bson::doc().with("$gt", Bson::DateTime(limit));
    doc.insert("item._updated", cond)
}

/// A house's number gives the house back.
pub proof fn law_house_code_roundtrip(h: House)
    requires
        h != House::Unknown,
    ensures
        House::spec_from_code(h.spec_code()) == h,
{
}

} // verus!
