use vstd::prelude::*;

use crate::api::si::{PublishedBusinessItem, PublishedHouse, PublishedStatutoryInstrument};
use crate::data::{text_or_empty, text_or_new, House};
use crate::text::{parse_i32, parse_i32_model};

verus! {

broadcast use vstd::std_specs::vec::group_vec_axioms;

/// What the dataset adds to an instrument: nothing yet.
#[derive(Clone, Debug, PartialEq, Eq, Hash, PartialOrd, Ord)]
pub struct StatutoryInstrumentExtra {}

impl StatutoryInstrumentExtra {
    pub fn from_published(_value: &PublishedStatutoryInstrument) -> (r: Self)
        ensures
            r == (StatutoryInstrumentExtra {}),
    {
        StatutoryInstrumentExtra {}
    }
}

#[derive(Clone, Debug, PartialEq, Eq, Hash, PartialOrd, Ord)]
pub struct Procedure {
    pub _id: String,
    pub name: String,
}

#[derive(Clone, Debug, PartialEq, Eq, Hash, PartialOrd, Ord)]
pub struct LayingBody {
    pub _id: String,
    pub name: String,
    pub department_id: Option<u32>,
}

/// A business item as the dataset stores it; dates are milliseconds since
/// the Unix epoch.
#[derive(Clone, Debug, PartialEq, Eq, Hash, PartialOrd, Ord)]
pub struct BusinessItem {
    pub _id: String,
    pub steps: Vec<String>,
    pub item_date: Option<i64>,
    pub link: String,
    pub sequence: Option<i32>,
    pub houses: Vec<House>,
}

/// The paper of an instrument; dates are milliseconds since the Unix epoch.
#[derive(Clone, Debug, PartialEq, Eq, Hash, PartialOrd, Ord)]
pub struct StatutoryInstrumentPaper {
    pub paper_prefix: String,
    pub paper_number: Option<i32>,
    pub paper_year: Option<i32>,
    pub paper_made_date: Option<i64>,
    pub paper_coming_into_force_date: Option<i64>,
    pub paper_coming_into_force_note: String,
}

/// An instrument as the dataset stores it; dates are milliseconds since the
/// Unix epoch.
#[derive(Clone, Debug, PartialEq, Eq, Hash, PartialOrd, Ord)]
pub struct StatutoryInstrument {
    pub _id: String,
    pub name: String,
    pub procedure: Procedure,
    pub laying_body: LayingBody,
    pub enabling_acts: Vec<String>,
    pub commons_laying_date: Option<i64>,
    pub lords_laying_date: Option<i64>,
    pub followed_by: Option<String>,
    pub preceded_by: Option<String>,
    pub business_items: Vec<BusinessItem>,
    pub paper: StatutoryInstrumentPaper,
    pub link: String,
    pub _updated: i64,
}

/// The stored houses of published houses: the house with the same number.
pub open spec fn houses_of(hs: Seq<PublishedHouse>) -> Seq<House> {
    hs.map_values(|h: PublishedHouse| House::spec_from_code(h.spec_code()))
}

pub open spec fn views_of(s: Seq<String>) -> Seq<Seq<char>> {
    s.map_values(|x: String| x@)
}

/// Whether `b` is the stored form of the published business item `p`.
pub open spec fn business_item_matches(b: BusinessItem, p: PublishedBusinessItem) -> bool {
    &&& b._id@ == p.id@
    &&& views_of(b.steps@) == views_of(p.steps@)
    &&& b.item_date == p.item_date
    &&& b.link@ == text_or_empty(p.link)
    &&& b.sequence == p.sequence
    &&& b.houses@ == houses_of(p.houses@)
}

pub open spec fn opt_id_view(o: Option<crate::api::si::PublishedStatutoryInstrumentSmall>) -> Option<Seq<char>> {
    match o {
        Some(s) => Some(s.id@),
        None => None,
    }
}

/// The year of a paper: the published text read as an `i32`, when it reads
/// as one.
pub open spec fn paper_year_of(year: Option<String>) -> Option<i32> {
    match year {
        Some(y) => parse_i32_model(y@),
        None => None,
    }
}

/// Whether `s` is the stored form of the published instrument `p`, updated
/// at `now`.
pub open spec fn si_matches(s: StatutoryInstrument, p: PublishedStatutoryInstrument, now: i64) -> bool {
    let small = p.statutory_instrument.statutory_instrument;
    &&& s._id@ == small.id@
    &&& s.name@ == small.name@
    &&& s.procedure._id@ == small.procedure.id@
    &&& s.procedure.name@ == small.procedure.name@
    &&& s.laying_body._id@ == p.laying_body.id@
    &&& s.laying_body.name@ == p.laying_body.name@
    &&& s.laying_body.department_id == match p.laying_body.department_id {
        Some(d) => Some(d as u32),
        None => None,
    }
    &&& views_of(s.enabling_acts@) == p.enabling_acts@.map_values(
        |a: crate::api::si::PublishedEnablingAct| a.id@,
    )
    &&& s.commons_laying_date == Some(p.statutory_instrument.commons_laying_date)
    &&& s.lords_laying_date == p.statutory_instrument.lords_laying_date
    &&& match s.followed_by {
        Some(x) => opt_id_view(p.followed_by_instrument) == Some(x@),
        None => p.followed_by_instrument is None,
    }
    &&& match s.preceded_by {
        Some(x) => opt_id_view(p.preceded_by_instrument) == Some(x@),
        None => p.preceded_by_instrument is None,
    }
    &&& match p.business_items {
        Some(items) => s.business_items@.len() == items@.len() && forall|i: int|
            0 <= i < items@.len() ==> business_item_matches(#[trigger] s.business_items@[i], items@[i]),
        None => s.business_items@.len() == 0,
    }
    &&& s.paper.paper_prefix@ == text_or_empty(p.statutory_instrument.paper_prefix)
    &&& s.paper.paper_number == p.statutory_instrument.paper_number
    &&& s.paper.paper_year == paper_year_of(p.statutory_instrument.paper_year)
    &&& s.paper.paper_made_date == p.statutory_instrument.paper_made_date
    &&& s.paper.paper_coming_into_force_date == p.paper_coming_into_force_date
    &&& s.paper.paper_coming_into_force_note@ == text_or_empty(p.paper_coming_into_force_note)
    &&& s.link@ == text_or_empty(p.link)
    &&& s._updated == now
}

fn copy_strings(v: &Vec<String>) -> (r: Vec<String>)
    ensures
        views_of(r@) == views_of(v@),
{
    let mut out: Vec<String> = Vec::new();
    let mut i: usize = 0;
    while i < v.len()
        invariant
            i <= v.len(),
            out@.len() == i,
            views_of(out@) == views_of(v@.take(i as int)),
        decreases v.len() - i,
    {
        let ghost old_out = out@;
        out.push(v[i].clone());
        assert forall|k: int| 0 <= k < i + 1 implies views_of(out@)[k] == views_of(v@.take(i + 1))[k] by {
            if k < i {
                assert(views_of(old_out)[k] == views_of(v@.take(i as int))[k]);
            }
        }
        assert(views_of(out@) =~= views_of(v@.take(i + 1)));
        i = i + 1;
    }
    assert(v@.take(v.len() as int) =~= v@);
    out
}

fn houses_from(hs: &Vec<PublishedHouse>) -> (r: Vec<House>)
    ensures
        r@ == houses_of(hs@),
{
    let mut out: Vec<House> = Vec::new();
    let mut i: usize = 0;
    while i < hs.len()
        invariant
            i <= hs.len(),
            out@ == houses_of(hs@.take(i as int)),
        decreases hs.len() - i,
    {
        out.push(House::from_code(hs[i].code()));
        assert(out@ =~= houses_of(hs@.take(i + 1)));
        i = i + 1;
    }
    assert(hs@.take(hs.len() as int) =~= hs@);
    out
}

impl BusinessItem {
    pub fn from_published(value: &PublishedBusinessItem) -> (r: Self)
        ensures
            business_item_matches(r, *value),
    {
        BusinessItem {
            _id: value.id.clone(),
            steps: copy_strings(&value.steps),
            item_date: value.item_date,
            link: text_or_new(&value.link),
            sequence: value.sequence,
            houses: houses_from(&value.houses),
        }
    }
}

fn paper_year_from(year: &Option<String>) -> (r: Option<i32>)
    ensures
        r == paper_year_of(*year),
{
    match year {
        Some(y) => parse_i32(y.as_str()),
        None => None,
    }
}

impl StatutoryInstrument {
    /// The stored form of a published instrument, updated at `now`.
    pub fn from_published(value: &PublishedStatutoryInstrument, now: i64) -> (r: Self)
        ensures
            si_matches(r, *value, now),
    {
        let small = &value.statutory_instrument.statutory_instrument;
        let mut acts: Vec<String> = Vec::new();
        let mut i: usize = 0;
        while i < value.enabling_acts.len()
            invariant
                i <= value.enabling_acts.len(),
                acts@.len() == i,
                views_of(acts@) == value.enabling_acts@.take(i as int).map_values(
                    |a: crate::api::si::PublishedEnablingAct| a.id@,
                ),
            decreases value.enabling_acts.len() - i,
        {
            let ghost old_acts = acts@;
            acts.push(value.enabling_acts[i].id.clone());
            assert forall|k: int| 0 <= k < i + 1 implies views_of(acts@)[k] == value.enabling_acts@.take(i + 1).map_values(
                |a: crate::api::si::PublishedEnablingAct| a.id@,
            )[k] by {
                if k < i {
                    assert(views_of(old_acts)[k] == value.enabling_acts@.take(i as int).map_values(
                        |a: crate::api::si::PublishedEnablingAct| a.id@,
                    )[k]);
                }
            }
            assert(views_of(acts@) =~= value.enabling_acts@.take(i + 1).map_values(
                |a: crate::api::si::PublishedEnablingAct| a.id@,
            ));
            i = i + 1;
        }
        assert(value.enabling_acts@.take(value.enabling_acts.len() as int) =~= value.enabling_acts@);
        let mut items: Vec<BusinessItem> = Vec::new();
        match &value.business_items {
            Some(bis) => {
                let mut j: usize = 0;
                while j < bis.len()
                    invariant
                        j <= bis.len(),
                        items@.len() == j,
                        forall|k: int|
                            0 <= k < j ==> business_item_matches(#[trigger] items@[k], bis@[k]),
                    decreases bis.len() - j,
                {
                    items.push(BusinessItem::from_published(&bis[j]));
                    j = j + 1;
                }
            },
            None => {},
        }
        StatutoryInstrument {
            _id: small.id.clone(),
            name: small.name.clone(),
            procedure: Procedure { _id: small.procedure.id.clone(), name: small.procedure.name.clone() },
            laying_body: LayingBody {
                _id: value.laying_body.id.clone(),
                name: value.laying_body.name.clone(),
                department_id: match value.laying_body.department_id {
                    Some(d) => Some(d as u32),
                    None => None,
                },
            },
            enabling_acts: acts,
            commons_laying_date: Some(value.statutory_instrument.commons_laying_date),
            lords_laying_date: value.statutory_instrument.lords_laying_date,
            followed_by: match &value.followed_by_instrument {
                Some(s) => Some(s.id.clone()),
                None => None,
            },
            preceded_by: match &value.preceded_by_instrument {
                Some(s) => Some(s.id.clone()),
                None => None,
            },
            business_items: items,
            paper: StatutoryInstrumentPaper {
                paper_prefix: text_or_new(&value.statutory_instrument.paper_prefix),
                paper_number: value.statutory_instrument.paper_number,
                paper_year: paper_year_from(&value.statutory_instrument.paper_year),
                paper_made_date: value.statutory_instrument.paper_made_date,
                paper_coming_into_force_date: value.paper_coming_into_force_date,
                paper_coming_into_force_note: text_or_new(&value.paper_coming_into_force_note),
            },
            link: text_or_new(&value.link),
            _updated: now,
        }
    }
}

} // verus!
