use itertools::Itertools;
use vstd::prelude::*;

use crate::api::edm::{
    PublishedEarlyDayMotion, PublishedEarlyDayMotionDataError, PublishedEarlyDayMotionDetails,
};
use crate::api::member::PublishedMemberDataError;
use crate::api::si::PublishedStatutoryInstrumentDataError;
use crate::bson_model::{Bson, BsonV};
use crate::data::edm::names_instrument;
use crate::keyed::{first_by_key, unique_by_key};
use crate::text::{
    contains_text, lowercase, occurs_in, parse_i32, parse_i32_model, remove_spaces, to_lowercase,
    without_spaces,
};

verus! {

broadcast use vstd::std_specs::vec::group_vec_axioms;

/// Why a maintenance task stopped.
#[derive(Debug, PartialEq, Eq)]
pub enum TaskError {
    /// No single statutory instrument matched a motion that prays against
    /// one: the motion id, how many matched, and the instrument id, number,
    /// title and year that the motion gives.
    StatutoryInstrumentUnknown(i32, usize, Option<i32>, Option<i32>, Option<String>, Option<String>),
    PublishedEarlyDayMotionDataError(PublishedEarlyDayMotionDataError),
    PublishedMemberDataError(PublishedMemberDataError),
    PublishedStatutoryInstrumentDataError(PublishedStatutoryInstrumentDataError),
}

/// The year of the instrument a motion names, when it reads as a number.
pub open spec fn si_year_of(m: PublishedEarlyDayMotion) -> Option<i32> {
    match m.statutory_instrument_year {
        Some(y) => parse_i32_model(y@),
        None => None,
    }
}

/// Whether the instrument a motion names can be in the instruments service,
/// which starts with the instruments laid on 13 June 2017 (number 632 of that
/// year).
pub open spec fn within_dataset(m: PublishedEarlyDayMotion) -> bool {
    match si_year_of(m) {
        Some(year) => match m.statutory_instrument_number {
            Some(number) => year > 2016 && (year != 2017 || number > 631),
            None => year > 2016,
        },
        None => true,
    }
}

/// The two negative procedures, as a `$or` condition.
pub open spec fn negative_procedures() -> BsonV {
    BsonV::arr().item(
        BsonV::doc().with("procedure.name"@, BsonV::String("Draft negative"@)),
    ).item(BsonV::doc().with("procedure.name"@, BsonV::String("Made negative"@)))
}

/// Instruments with the given year and number, laid under a negative
/// procedure.
pub open spec fn number_filter(year: i32, number: i32) -> BsonV {
    BsonV::doc().with("item.paper.paper_year"@, BsonV::Int32(year)).with(
        "item.paper.paper_number"@,
        BsonV::Int32(number),
    ).with("$or"@, negative_procedures())
}

/// Whether `regex` treats `c` as a meta character, one that must be
/// escaped to match itself.
pub open spec fn is_regex_meta(c: char) -> bool {
    c == '\\' || c == '.' || c == '+' || c == '*' || c == '?' || c == '(' || c == ')' || c == '|'
        || c == '[' || c == ']' || c == '{' || c == '}' || c == '^' || c == '$' || c == '#'
        || c == '&' || c == '-' || c == '~'
}

/// `s` with a backslash before each regex meta character: a pattern that
/// matches `s` literally.
pub open spec fn regex_escaped(s: Seq<char>) -> Seq<char>
    decreases s.len(),
{
    if s.len() == 0 {
        Seq::empty()
    } else if is_regex_meta(s.last()) {
        regex_escaped(s.drop_last()) + seq!['\\', s.last()]
    } else {
        regex_escaped(s.drop_last()).push(s.last())
    }
}

/// `regex::escape`. Claims what its source shows: each character is kept,
/// with a backslash before each meta character (see [`is_regex_meta`]).
#[verifier::external_body]
fn escape_regex(pattern: &str) -> (r: String)
    ensures
        r@ == regex_escaped(pattern@),
{
    regex::escape(pattern)
}

/// Instruments whose name holds the title, in any case, laid under a
/// negative procedure.
pub open spec fn title_filter(title: Seq<char>) -> BsonV {
    BsonV::doc().with(
        "item.name"@,
        BsonV::doc().with("$regex"@, BsonV::String(regex_escaped(title))).with(
            "$options"@,
            BsonV::String("i"@),
        ),
    ).with("$or"@, negative_procedures())
}

/// Which search for the instrument a motion opposes was made.
#[derive(Clone, Copy, Debug, PartialEq, Eq)]
pub enum OpposingSearch {
    ByNumber,
    ByTitle,
}

/// The next step in finding the instrument a motion opposes: search with a
/// filter and hand back the ids found, or the answer.
#[derive(Debug, PartialEq, Eq)]
pub enum OpposingStep {
    Find(OpposingSearch, Bson),
    Done(Result<Option<String>, TaskError>),
}

/// The error for a motion whose instrument `count` instruments matched.
pub open spec fn unknown_instrument(m: PublishedEarlyDayMotion, count: usize) -> TaskError {
    TaskError::StatutoryInstrumentUnknown(
        m.id,
        count,
        m.praying_against_negative_statutory_instrument_id,
        m.statutory_instrument_number,
        m.statutory_instrument_title,
        m.statutory_instrument_year,
    )
}

/// The answer once the search is over: the one instrument found, or the
/// error.
pub open spec fn resolved(m: PublishedEarlyDayMotion, found: Seq<String>) -> Result<Option<String>, TaskError> {
    if found.len() == 1 {
        Ok(Some(found[0]))
    } else {
        Err(unknown_instrument(m, found.len() as usize))
    }
}

/// Whether a step searches by title for the motion's title.
pub open spec fn finds_by_title(r: OpposingStep, title: Seq<char>) -> bool {
    r matches OpposingStep::Find(OpposingSearch::ByTitle, f) && f.model() == title_filter(title)
}

/// What follows a search by number (or the lack of one, as an empty
/// result): a search by title when the search did not find exactly one and
/// the motion has a title; else the answer.
pub open spec fn after_number_search(
    m: PublishedEarlyDayMotion,
    found: Seq<String>,
    r: OpposingStep,
) -> bool {
    match m.statutory_instrument_title {
        Some(title) if found.len() != 1 => finds_by_title(r, title@),
        _ => r == OpposingStep::Done(resolved(m, found)),
    }
}

fn copy_opt(o: &Option<String>) -> (r: Option<String>)
    ensures
        r == *o,
{
    match o {
        Some(s) => Some(s.clone()),
        None => None,
    }
}

fn si_year(m: &PublishedEarlyDayMotion) -> (r: Option<i32>)
    ensures
        r == si_year_of(*m),
{
    match &m.statutory_instrument_year {
        Some(y) => parse_i32(y.as_str()),
        None => None,
    }
}

fn negative_procedures_value() -> (r: Bson)
    ensures
        r.model() == negative_procedures(),
{
    Bson::array().item(Bson::doc().with("procedure.name", Bson::str("Draft negative"))).item(
        Bson::doc().with("procedure.name", Bson::str("Made negative")),
    )
}

fn title_search(title: &String) -> (r: OpposingStep)
    ensures
        finds_by_title(r, title@),
{
    let escaped = escape_regex(title.as_str());
    let f = Bson::doc().with(
        "item.name",
        Bson::doc().with("$regex", Bson::String(escaped)).with("$options", Bson::str("i")),
    ).with("$or", negative_procedures_value());
    OpposingStep::Find(OpposingSearch::ByTitle, f)
}

fn resolve(m: &PublishedEarlyDayMotion, found: &Vec<String>) -> (r: Result<Option<String>, TaskError>)
    ensures
        r == resolved(*m, found@),
{
    if found.len() == 1 {
        Ok(Some(found[0].clone()))
    } else {
        Err(
            TaskError::StatutoryInstrumentUnknown(
                m.id,
                found.len(),
                m.praying_against_negative_statutory_instrument_id,
                m.statutory_instrument_number,
                copy_opt(&m.statutory_instrument_title),
                copy_opt(&m.statutory_instrument_year),
            ),
        )
    }
}

fn after_number(m: &PublishedEarlyDayMotion, found: &Vec<String>) -> (r: OpposingStep)
    ensures
        after_number_search(*m, found@, r),
{
    match &m.statutory_instrument_title {
        Some(title) => {
            if found.len() != 1 {
                return title_search(title);
            }
        },
        None => {},
    }
    OpposingStep::Done(resolve(m, found))
}

/// The first step in finding the statutory instrument that a motion prays
/// against. A motion that names no instrument, or one from before the
/// instruments service starts, opposes none. When the motion gives a number
/// and a year, instruments are searched by those; else the search goes on as
/// if that search had found none.
pub fn normalize_opposing_edm(edm: &PublishedEarlyDayMotionDetails) -> (r: OpposingStep)
    ensures
        !names_instrument(*edm) || !within_dataset(edm.motion) ==> r == OpposingStep::Done(Ok(None)),
        names_instrument(*edm) && within_dataset(edm.motion) ==> match (
            edm.motion.statutory_instrument_number,
            si_year_of(edm.motion),
        ) {
            (Some(number), Some(year)) => r matches OpposingStep::Find(OpposingSearch::ByNumber, f)
                && f.model() == number_filter(year, number),
            _ => after_number_search(edm.motion, Seq::empty(), r),
        },
{
    let m = &edm.motion;
    let is_prayer = m.praying_against_negative_statutory_instrument_id.is_some()
        || m.statutory_instrument_number.is_some() || m.statutory_instrument_title.is_some()
        || m.statutory_instrument_year.is_some();
    let year = si_year(m);
    let is_within = match year {
        Some(y) => match m.statutory_instrument_number {
            Some(number) => y > 2016 && (y != 2017 || number > 631),
            None => y > 2016,
        },
        None => true,
    };
    if !is_prayer || !is_within {
        return OpposingStep::Done(Ok(None));
    }
    match (m.statutory_instrument_number, year) {
        (Some(number), Some(y)) => {
            let f = Bson::doc().with("item.paper.paper_year", Bson::Int32(y)).with(
                "item.paper.paper_number",
                Bson::Int32(number),
            ).with("$or", negative_procedures_value());
            OpposingStep::Find(OpposingSearch::ByNumber, f)
        },
        _ => {
            let none: Vec<String> = Vec::new();
            assert(none@ =~= Seq::<String>::empty());
            after_number(m, &none)
        },
    }
}

/// The step after a search made for [`normalize_opposing_edm`], given the
/// ids of the instruments it found.
pub fn normalize_opposing_edm_next(
    edm: &PublishedEarlyDayMotionDetails,
    search: OpposingSearch,
    found: &Vec<String>,
) -> (r: OpposingStep)
    ensures
        search == OpposingSearch::ByNumber ==> after_number_search(edm.motion, found@, r),
        search == OpposingSearch::ByTitle ==> r == OpposingStep::Done(resolved(edm.motion, found@)),
{
    match search {
        OpposingSearch::ByNumber => after_number(&edm.motion, found),
        OpposingSearch::ByTitle => OpposingStep::Done(resolve(&edm.motion, found)),
    }
}

/// A text as names are compared: lower case, without spaces.
pub open spec fn name_key(s: Seq<char>) -> Seq<char> {
    without_spaces(lowercase(s))
}

/// Whether a motion's text names an instrument: the instrument's name occurs
/// in the text, both compared as [`name_key`]s.
pub open spec fn names_si(text: Seq<char>, name: Seq<char>) -> bool {
    occurs_in(name_key(name), name_key(text))
}

/// Whether `k` is the first name that a text names.
pub open spec fn is_first_named(text: Seq<char>, names: Seq<String>, k: int) -> bool {
    &&& 0 <= k < names.len()
    &&& names_si(text, names[k]@)
    &&& forall|j: int| 0 <= j < k ==> !names_si(text, #[trigger] names[j]@)
}

fn name_key_of(s: &String) -> (r: String)
    ensures
        r@ == name_key(s@),
{
    let lower = to_lowercase(s.as_str());
    remove_spaces(lower.as_str())
}

/// The first of the names that the text names.
pub fn first_named_si(text: &String, names: &Vec<String>) -> (r: Option<usize>)
    ensures
        match r {
            Some(k) => is_first_named(text@, names@, k as int),
            None => forall|j: int| 0 <= j < names@.len() ==> !names_si(text@, #[trigger] names@[j]@),
        },
{
    let key = name_key_of(text);
    let mut k: usize = 0;
    while k < names.len()
        invariant
            k <= names.len(),
            key@ == name_key(text@),
            forall|j: int| 0 <= j < k ==> !names_si(text@, #[trigger] names@[j]@),
        decreases names.len() - k,
    {
        let name = name_key_of(&names[k]);
        if contains_text(key.as_str(), name.as_str()) {
            return Some(k);
        }
        k = k + 1;
    }
    None
}

/// How many motions the comparison of names passes over before it starts.
pub const NAME_COMPARISON_SKIP: usize = 50000;

/// Pairs each motion, from the one at [`NAME_COMPARISON_SKIP`] on, with the
/// first instrument whose name its text holds (both compared in lower case
/// and without spaces): `(motion index, instrument index)`, in the order of
/// the motions; a motion that names none is left out.
pub fn normalize_si_name_comparison(texts: &Vec<String>, names: &Vec<String>) -> (r: Vec<(usize, usize)>)
    ensures
        forall|a: int, b: int| 0 <= a < b < r@.len() ==> r@[a].0 < r@[b].0,
        forall|a: int|
            0 <= a < r@.len() ==> NAME_COMPARISON_SKIP <= (#[trigger] r@[a]).0 < texts@.len()
                && is_first_named(texts@[r@[a].0 as int]@, names@, r@[a].1 as int),
        forall|i: int, k: int|
            NAME_COMPARISON_SKIP <= i < texts@.len() && is_first_named(texts@[i]@, names@, k)
                ==> exists|a: int| 0 <= a < r@.len() && #[trigger] r@[a] == (i as usize, k as usize),
{
    let mut out: Vec<(usize, usize)> = Vec::new();
    let mut i: usize = NAME_COMPARISON_SKIP;
    while i < texts.len()
        invariant
            NAME_COMPARISON_SKIP <= i,
            i <= texts.len() || (texts.len() < NAME_COMPARISON_SKIP && i == NAME_COMPARISON_SKIP),
            forall|a: int, b: int| 0 <= a < b < out@.len() ==> out@[a].0 < out@[b].0,
            forall|a: int| 0 <= a < out@.len() ==> (#[trigger] out@[a]).0 < i,
            forall|a: int|
                0 <= a < out@.len() ==> NAME_COMPARISON_SKIP <= (#[trigger] out@[a]).0 < texts@.len()
                    && is_first_named(texts@[out@[a].0 as int]@, names@, out@[a].1 as int),
            forall|j: int, k: int|
                NAME_COMPARISON_SKIP <= j < i && j < texts@.len() && is_first_named(texts@[j]@, names@, k)
                    ==> exists|a: int| 0 <= a < out@.len() && #[trigger] out@[a] == (j as usize, k as usize),
        decreases texts.len() - i,
    {
        match first_named_si(&texts[i], names) {
            Some(k) => {
                let ghost before = out@;
                out.push((i, k));
                proof {
                    assert forall|j: int, k2: int|
                        NAME_COMPARISON_SKIP <= j < i + 1 && j < texts@.len() && is_first_named(texts@[j]@, names@, k2)
                        implies exists|a: int| 0 <= a < out@.len() && #[trigger] out@[a] == (j as usize, k2 as usize) by {
                        if j < i {
                            let a = choose|a: int| 0 <= a < before.len() && #[trigger] before[a] == (j as usize, k2 as usize);
                            assert(out@[a] == before[a]);
                        } else {
                            assert(k2 == k as int);
                            assert(out@[before.len() as int] == (j as usize, k2 as usize));
                        }
                    }
                }
            },
            None => {
                proof {
                    assert forall|j: int, k2: int|
                        NAME_COMPARISON_SKIP <= j < i + 1 && j < texts@.len() && is_first_named(texts@[j]@, names@, k2)
                        implies exists|a: int| 0 <= a < out@.len() && #[trigger] out@[a] == (j as usize, k2 as usize) by {
                        if j == i {
                            assert(!names_si(texts@[j]@, names@[k2]@));
                        }
                    }
                }
            },
        }
        i = i + 1;
    }
    out
}

/// Matches the motion with the given id, unless the comparison of names is
/// already among its sources.
pub open spec fn source_kind_filter_model(edm_id: u32) -> BsonV {
    BsonV::doc().with("item._id"@, u32_model(edm_id)).with(
        "$nor"@,
        BsonV::arr().item(BsonV::doc().with("extra.source_kind"@, BsonV::Int32(2i32))),
    )
}

/// Adds the comparison of names to a motion's sources.
pub open spec fn source_kind_update_model() -> BsonV {
    BsonV::doc().with(
        "$push"@,
        BsonV::doc().with("extra.source_kind"@, BsonV::Int32(2i32)),
    )
}

/// Matches the motion with the given id while it opposes no instrument.
pub open spec fn unopposed_filter_model(edm_id: u32) -> BsonV {
    BsonV::doc().with("item._id"@, u32_model(edm_id)).with(
        "extra.opposes_statutory_instrument"@,
        BsonV::Null,
    )
}

/// Records the instrument a motion opposes.
pub open spec fn opposes_update_model(si_id: Seq<char>) -> BsonV {
    BsonV::doc().with(
        "$set"@,
        BsonV::doc().with("extra.opposes_statutory_instrument"@, BsonV::String(si_id)),
    )
}

/// The two updates for a motion whose text names an instrument: first the
/// filter and update that add the comparison of names to its sources, then
/// those that record the instrument where the motion opposes none yet.
pub fn name_comparison_updates(edm_id: u32, si_id: &String) -> (r: ((Bson, Bson), (Bson, Bson)))
    ensures
        r.0.0.model() == source_kind_filter_model(edm_id),
        r.0.1.model() == source_kind_update_model(),
        r.1.0.model() == unopposed_filter_model(edm_id),
        r.1.1.model() == opposes_update_model(si_id@),
{
    let f1 = Bson::doc().with("item._id", u32_value(edm_id)).with(
        "$nor",
        Bson::array().item(Bson::doc().with("extra.source_kind", Bson::Int32(2))),
    );
    let u1 = Bson::doc().with("$push", Bson::doc().with("extra.source_kind", Bson::Int32(2)));
    let f2 = Bson::doc().with("item._id", u32_value(edm_id)).with(
        "extra.opposes_statutory_instrument",
        Bson::Null,
    );
    let u2 = Bson::doc().with(
        "$set",
        Bson::doc().with("extra.opposes_statutory_instrument", Bson::String(si_id.clone())),
    );
    ((f1, u1), (f2, u2))
}

/// Matches the record whose item has the given id.
pub open spec fn item_filter_model(id: BsonV) -> BsonV {
    BsonV::doc().with("item._id"@, id)
}

/// Matches the record whose item has the given id while it has no extra.
pub open spec fn missing_extra_filter_model(id: BsonV) -> BsonV {
    BsonV::doc().with("item._id"@, id).with("extra"@, BsonV::Null)
}

/// Sets one field.
pub open spec fn set_field_model(key: Seq<char>, value: BsonV) -> BsonV {
    BsonV::doc().with("$set"@, BsonV::doc().with(key, value))
}

/// The two updates that store a refreshed record: the filter and update
/// that store its item (to be inserted where none matches), then those that
/// store its extra where it has none yet.
pub fn refresh_updates(id: &Bson, item: Bson, extra: Bson) -> (r: ((Bson, Bson), (Bson, Bson)))
    ensures
        r.0.0.model() == item_filter_model(id.model()),
        r.0.1.model() == set_field_model("item"@, item.model()),
        r.1.0.model() == missing_extra_filter_model(id.model()),
        r.1.1.model() == set_field_model("extra"@, extra.model()),
{
    let f1 = Bson::doc().with("item._id", id.duplicate());
    let u1 = Bson::doc().with("$set", Bson::doc().with("item", item));
    let f2 = Bson::doc().with("item._id", id.duplicate()).with("extra", Bson::Null);
    let u2 = Bson::doc().with("$set", Bson::doc().with("extra", extra));
    ((f1, u1), (f2, u2))
}

/// A `u32` as BSON, as `bson` converts it: an `Int32` where it fits, else an
/// `Int64`.
pub open spec fn u32_model(v: u32) -> BsonV {
    if v <= i32::MAX {
        BsonV::Int32(v as i32)
    } else {
        BsonV::Int64(v as i64)
    }
}

pub fn u32_value(v: u32) -> (r: Bson)
    ensures
        r.model() == u32_model(v),
{
    if v <= 2147483647 {
        Bson::Int32(v as i32)
    } else {
        Bson::Int64(v as i64)
    }
}

/// The first occurrence of each value of `s`, in the order of `s`.
pub open spec fn distinct_values(s: Seq<u32>) -> Seq<u32>
    decreases s.len(),
{
    if s.len() == 0 {
        Seq::empty()
    } else if s.drop_last().contains(s.last()) {
        distinct_values(s.drop_last())
    } else {
        distinct_values(s.drop_last()).push(s.last())
    }
}

/// `Itertools::unique`. Claims what its documentation states: the first
/// occurrence of each value is kept, in the order they came.
#[verifier::external_body]
fn unique_values(items: Vec<u32>) -> (r: Vec<u32>)
    ensures
        r@ == distinct_values(items@),
{
    items.into_iter().unique().collect()
}

/// The ids paired with their positions.
pub open spec fn indexed(ids: Seq<i32>) -> Seq<(i128, usize)> {
    Seq::new(ids.len(), |i: int| (ids[i] as i128, i as usize))
}

/// The positions of the first member with each id, in order: the members
/// that a refresh stores.
pub fn unique_member_indices(ids: &Vec<i32>) -> (r: Vec<usize>)
    ensures
        r@ == first_by_key(indexed(ids@)).map_values(|p: (i128, usize)| p.1),
{
    let mut pairs: Vec<(i128, usize)> = Vec::new();
    let mut i: usize = 0;
    while i < ids.len()
        invariant
            i <= ids.len(),
            pairs@ == indexed(ids@).take(i as int),
        decreases ids.len() - i,
    {
        pairs.push((ids[i] as i128, i));
        assert(pairs@ =~= indexed(ids@).take(i + 1));
        i = i + 1;
    }
    assert(indexed(ids@).take(ids.len() as int) =~= indexed(ids@));
    let firsts = unique_by_key(pairs);
    let mut out: Vec<usize> = Vec::new();
    let mut j: usize = 0;
    while j < firsts.len()
        invariant
            j <= firsts.len(),
            out@ == firsts@.take(j as int).map_values(|p: (i128, usize)| p.1),
        decreases firsts.len() - j,
    {
        out.push(firsts[j].1);
        assert(out@ =~= firsts@.take(j + 1).map_values(|p: (i128, usize)| p.1));
        j = j + 1;
    }
    assert(firsts@.take(firsts.len() as int) =~= firsts@);
    out
}

/// The views of a list of lists, joined in order.
pub open spec fn joined(lists: Seq<Vec<u32>>) -> Seq<u32>
    decreases lists.len(),
{
    if lists.len() == 0 {
        Seq::empty()
    } else {
        joined(lists.drop_last()) + lists.last()@
    }
}

/// The motions of the cached members, each once, in the order they first
/// come: the motions that a refresh fetches.
pub fn unique_edm_ids(lists: &Vec<Vec<u32>>) -> (r: Vec<u32>)
    ensures
        r@ == distinct_values(joined(lists@)),
{
    let mut all: Vec<u32> = Vec::new();
    let mut i: usize = 0;
    while i < lists.len()
        invariant
            i <= lists.len(),
            all@ == joined(lists@.take(i as int)),
        decreases lists.len() - i,
    {
        let list = &lists[i];
        let mut j: usize = 0;
        let ghost start = all@;
        while j < list.len()
            invariant
                j <= list.len(),
                all@ == start + list@.take(j as int),
            decreases list.len() - j,
        {
            all.push(list[j]);
            assert(all@ =~= start + list@.take(j + 1));
            j = j + 1;
        }
        assert(list@.take(list.len() as int) =~= list@);
        assert(lists@.take(i + 1).drop_last() =~= lists@.take(i as int));
        i = i + 1;
    }
    assert(lists@.take(lists.len() as int) =~= lists@);
    unique_values(all)
}

} // verus!
