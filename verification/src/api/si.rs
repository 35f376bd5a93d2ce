use vstd::prelude::*;

use crate::api::PageStep;
use crate::api::member::{opt_decimal, param, pop_last, push_param, without_last};
use crate::data::age_secs;
use crate::data::elapsed_secs;
use crate::data::si::StatutoryInstrument;
use crate::text::{concat_text, decimal_text, is_valid_short_id, valid_short_id};

verus! {

broadcast use vstd::std_specs::vec::group_vec_axioms;

/// A statutory instrument record from the instruments service that breaks
/// the rules the dataset relies on. The first text is the instrument's id.
#[derive(Clone, Debug, PartialEq, Eq, Hash)]
pub enum PublishedStatutoryInstrumentDataError {
    InvalidID(String),
    InvalidProcedureID(String, String),
    InvalidFollowedStatutoryInstrumentID(String, String),
    InvalidPrecededStatutoryInstrumentID(String, String),
    InvalidLayingBodyID(String, String),
    InvalidLayingBodyDepartmentID(String, i32),
    InvalidActOfParliamentID(String, String),
    InvalidBusinessItemID(String, String),
}

/// The model of [`PublishedStatutoryInstrumentDataError`], with texts as
/// character sequences.
pub enum SiErrorV {
    InvalidID(Seq<char>),
    InvalidProcedureID(Seq<char>, Seq<char>),
    InvalidFollowedStatutoryInstrumentID(Seq<char>, Seq<char>),
    InvalidPrecededStatutoryInstrumentID(Seq<char>, Seq<char>),
    InvalidLayingBodyID(Seq<char>, Seq<char>),
    InvalidLayingBodyDepartmentID(Seq<char>, i32),
    InvalidActOfParliamentID(Seq<char>, Seq<char>),
    InvalidBusinessItemID(Seq<char>, Seq<char>),
}

type SiError = PublishedStatutoryInstrumentDataError;

impl View for PublishedStatutoryInstrumentDataError {
    type V = SiErrorV;

    open spec fn view(&self) -> SiErrorV {
        match self {
            SiError::InvalidID(a) => SiErrorV::InvalidID(a@),
            SiError::InvalidProcedureID(a, b) => SiErrorV::InvalidProcedureID(a@, b@),
            SiError::InvalidFollowedStatutoryInstrumentID(a, b) => SiErrorV::InvalidFollowedStatutoryInstrumentID(a@, b@),
            SiError::InvalidPrecededStatutoryInstrumentID(a, b) => SiErrorV::InvalidPrecededStatutoryInstrumentID(a@, b@),
            SiError::InvalidLayingBodyID(a, b) => SiErrorV::InvalidLayingBodyID(a@, b@),
            SiError::InvalidLayingBodyDepartmentID(a, d) => SiErrorV::InvalidLayingBodyDepartmentID(a@, *d),
            SiError::InvalidActOfParliamentID(a, b) => SiErrorV::InvalidActOfParliamentID(a@, b@),
            SiError::InvalidBusinessItemID(a, b) => SiErrorV::InvalidBusinessItemID(a@, b@),
        }
    }
}

/// The address of the instruments service, with its path.
pub open spec fn si_base_url() -> Seq<char> {
    "https://statutoryinstruments-api.parliament.uk/api/v2/StatutoryInstrument"@
}

/// Asks for one statutory instrument.
pub struct RequestStatutoryInstrument {
    pub statutory_instrument_id: String,
}

impl RequestStatutoryInstrument {
    pub fn new(statutory_instrument_id: String) -> (r: Self)
        ensures
            r.statutory_instrument_id == statutory_instrument_id,
    {
        Self { statutory_instrument_id }
    }

    pub fn url(&self) -> (r: String)
        ensures
            r@ == si_base_url() + "/"@ + self.statutory_instrument_id@,
    {
        let r = concat_text(
            "https://statutoryinstruments-api.parliament.uk/api/v2/StatutoryInstrument/",
            self.statutory_instrument_id.as_str(),
        );
        proof {
            reveal_strlit("https://statutoryinstruments-api.parliament.uk/api/v2/StatutoryInstrument/");
            reveal_strlit("https://statutoryinstruments-api.parliament.uk/api/v2/StatutoryInstrument");
            reveal_strlit("/");
            assert("https://statutoryinstruments-api.parliament.uk/api/v2/StatutoryInstrument/"@ =~= si_base_url() + "/"@);
        }
        r
    }
}

/// Asks for the business items of a statutory instrument.
pub struct RequestStatutoryInstrumentBusinessItem {
    pub statutory_instrument_id: String,
}

impl RequestStatutoryInstrumentBusinessItem {
    pub fn new(statutory_instrument_id: String) -> (r: Self)
        ensures
            r.statutory_instrument_id == statutory_instrument_id,
    {
        Self { statutory_instrument_id }
    }

    pub fn url(&self) -> (r: String)
        ensures
            r@ == si_base_url() + "/"@ + self.statutory_instrument_id@ + "/BusinessItems"@,
    {
        let r = concat_text(
            "https://statutoryinstruments-api.parliament.uk/api/v2/StatutoryInstrument/",
            self.statutory_instrument_id.as_str(),
        ).concat("/BusinessItems");
        proof {
            reveal_strlit("https://statutoryinstruments-api.parliament.uk/api/v2/StatutoryInstrument/");
            reveal_strlit("https://statutoryinstruments-api.parliament.uk/api/v2/StatutoryInstrument");
            reveal_strlit("/");
            assert("https://statutoryinstruments-api.parliament.uk/api/v2/StatutoryInstrument/"@ =~= si_base_url() + "/"@);
        }
        r
    }
}

/// The house of Parliament, as the instruments service names it.
#[derive(Clone, Copy, Debug, PartialEq, Eq, Hash, PartialOrd, Ord)]
pub enum PublishedHouse {
    Commons,
    Lords,
}

impl PublishedHouse {
    pub open spec fn spec_code(self) -> u8 {
        match self {
            PublishedHouse::Commons => 1,
            PublishedHouse::Lords => 2,
        }
    }

    pub fn code(&self) -> (r: u8)
        ensures
            r == self.spec_code(),
    {
        match self {
            PublishedHouse::Commons => 1,
            PublishedHouse::Lords => 2,
        }
    }

    pub open spec fn spec_name(self) -> Seq<char> {
        match self {
            PublishedHouse::Commons => "Commons"@,
            PublishedHouse::Lords => "Lords"@,
        }
    }

    pub fn name(&self) -> (r: &'static str)
        ensures
            r@ == self.spec_name(),
    {
        match self {
            PublishedHouse::Commons => "Commons",
            PublishedHouse::Lords => "Lords",
        }
    }
}

/// Asks for a page of the list of statutory instruments.
pub struct RequestStatutoryInstrumentList {
    pub name: String,
    pub procedure: String,
    pub house: Option<PublishedHouse>,
    pub skip: Option<i32>,
    pub take: Option<i32>,
}

/// The text, or nothing when it is empty.
pub open spec fn nonempty(s: Seq<char>) -> Option<Seq<char>> {
    if s.len() == 0 {
        None
    } else {
        Some(s)
    }
}

/// The query string of a list request.
pub open spec fn si_list_query(l: RequestStatutoryInstrumentList) -> Seq<char> {
    without_last(
        param("parameters.Name="@, nonempty(l.name@)) + param(
            "parameters.Procedure="@,
            nonempty(l.procedure@),
        ) + param(
            "parameters.House="@,
            match l.house {
                Some(h) => Some(h.spec_name()),
                None => None,
            },
        ) + param("parameters.skip="@, opt_decimal(l.skip)) + param(
            "parameters.take="@,
            opt_decimal(l.take),
        ),
    )
}

impl RequestStatutoryInstrumentList {
    pub fn new(take: i32) -> (r: Self)
        ensures
            r.name@.len() == 0,
            r.procedure@.len() == 0,
            r.house is None,
            r.skip is None,
            r.take == Some(take),
    {
        Self { name: String::new(), procedure: String::new(), house: None, skip: None, take: Some(take) }
    }

    pub fn query_string(&self) -> (r: String)
        ensures
            r@ == si_list_query(*self),
    {
        let mut q = String::new();
        if !self.name.as_str().is_empty() {
            q = push_param(q, "parameters.Name=", self.name.as_str());
        }
        let ghost g1 = q@;
        if !self.procedure.as_str().is_empty() {
            q = push_param(q, "parameters.Procedure=", self.procedure.as_str());
        }
        let ghost g2 = q@;
        match &self.house {
            Some(h) => {
                q = push_param(q, "parameters.House=", h.name());
            },
            None => {},
        }
        match self.skip {
            Some(skip) => {
                q = push_param(q, "parameters.skip=", decimal_text(skip as i64).as_str());
            },
            None => {},
        }
        match self.take {
            Some(take) => {
                q = push_param(q, "parameters.take=", decimal_text(take as i64).as_str());
            },
            None => {},
        }
        proof {
            let h = match self.house {
                Some(h) => Some(h.spec_name()),
                None => None,
            };
            assert(q@ =~= param("parameters.Name="@, nonempty(self.name@)) + param(
                "parameters.Procedure="@,
                nonempty(self.procedure@),
            ) + param("parameters.House="@, h) + param("parameters.skip="@, opt_decimal(self.skip))
                + param("parameters.take="@, opt_decimal(self.take)));
        }
        pop_last(q)
    }

    pub fn url(&self) -> (r: String)
        ensures
            r@ == si_base_url() + "?"@ + si_list_query(*self),
    {
        let r = concat_text(
            "https://statutoryinstruments-api.parliament.uk/api/v2/StatutoryInstrument?",
            self.query_string().as_str(),
        );
        proof {
            reveal_strlit("https://statutoryinstruments-api.parliament.uk/api/v2/StatutoryInstrument?");
            reveal_strlit("https://statutoryinstruments-api.parliament.uk/api/v2/StatutoryInstrument");
            reveal_strlit("?");
            assert("https://statutoryinstruments-api.parliament.uk/api/v2/StatutoryInstrument?"@ =~= si_base_url() + "?"@);
        }
        r
    }
}

/// An instrument as the service gives it; dates are milliseconds since the
/// Unix epoch.
#[derive(Clone, Debug, PartialEq, Eq)]
pub struct PublishedStatutoryInstrument {
    pub statutory_instrument: PublishedStatutoryInstrumentSummary,
    pub followed_by_instrument: Option<PublishedStatutoryInstrumentSmall>,
    pub preceded_by_instrument: Option<PublishedStatutoryInstrumentSmall>,
    pub paper_coming_into_force_date: Option<i64>,
    pub paper_coming_into_force_note: Option<String>,
    pub laying_body: PublishedLayingBody,
    pub enabling_acts: Vec<PublishedEnablingAct>,
    pub timelines: Vec<PublishedTimeline>,
    pub link: Option<String>,
    pub business_items: Option<Vec<PublishedBusinessItem>>,
}

#[derive(Clone, Debug, PartialEq, Eq)]
pub struct PublishedStatutoryInstrumentSummary {
    pub statutory_instrument: PublishedStatutoryInstrumentSmall,
    pub paper_prefix: Option<String>,
    pub paper_number: Option<i32>,
    pub paper_year: Option<String>,
    pub paper_made_date: Option<i64>,
    pub commons_laying_date: i64,
    pub lords_laying_date: Option<i64>,
    pub workpackage_id: Option<String>,
}

#[derive(Clone, Debug, PartialEq, Eq, Hash, PartialOrd, Ord)]
pub struct PublishedStatutoryInstrumentSmall {
    pub id: String,
    pub name: String,
    pub procedure: PublishedProcedureDetails,
}

#[derive(Clone, Debug, PartialEq, Eq, Hash, PartialOrd, Ord)]
pub struct PublishedProcedure {
    pub procedure: PublishedProcedureDetails,
    pub description: Option<String>,
}

#[derive(Clone, Debug, PartialEq, Eq, Hash, PartialOrd, Ord)]
pub struct PublishedProcedureDetails {
    pub id: String,
    pub name: String,
}

#[derive(Clone, Debug, PartialEq, Eq, Hash, PartialOrd, Ord)]
pub struct PublishedLayingBody {
    pub department_id: Option<i32>,
    pub id: String,
    pub name: String,
}

#[derive(Clone, Debug, PartialEq, Eq, Hash, PartialOrd, Ord)]
pub struct PublishedEnablingAct {
    pub id: String,
    pub name: String,
}

#[derive(Clone, Debug, PartialEq, Eq, Hash, PartialOrd, Ord)]
pub struct PublishedTimeline {
    pub id: String,
    pub date_time: i64,
    pub name: String,
}

#[derive(Clone, Debug, PartialEq, Eq, Hash, PartialOrd, Ord)]
pub struct PublishedBusinessItem {
    pub id: String,
    pub statutory_instrument_id: Option<String>,
    pub steps: Vec<String>,
    pub item_date: Option<i64>,
    pub link: Option<String>,
    pub sequence: Option<i32>,
    pub houses: Vec<PublishedHouse>,
}

/// The first id that is not a valid short id, in order.
pub open spec fn first_bad_id(ids: Seq<Seq<char>>) -> Option<Seq<char>>
    decreases ids.len(),
{
    if ids.len() == 0 {
        None
    } else if !valid_short_id(ids[0]) {
        Some(ids[0])
    } else {
        first_bad_id(ids.drop_first())
    }
}

proof fn lemma_first_bad_id_at(ids: Seq<Seq<char>>, i: int)
    requires
        0 <= i < ids.len(),
        !valid_short_id(ids[i]),
        forall|j: int| 0 <= j < i ==> valid_short_id(#[trigger] ids[j]),
    ensures
        first_bad_id(ids) == Some(ids[i]),
    decreases i,
{
    if i > 0 {
        lemma_first_bad_id_at(ids.drop_first(), i - 1);
    }
}

proof fn lemma_first_bad_id_none(ids: Seq<Seq<char>>)
    requires
        forall|j: int| 0 <= j < ids.len() ==> valid_short_id(#[trigger] ids[j]),
    ensures
        first_bad_id(ids) is None,
    decreases ids.len(),
{
    if ids.len() > 0 {
        lemma_first_bad_id_none(ids.drop_first());
    }
}

pub open spec fn act_ids(acts: Seq<PublishedEnablingAct>) -> Seq<Seq<char>> {
    acts.map_values(|a: PublishedEnablingAct| a.id@)
}

pub open spec fn business_item_ids(items: Seq<PublishedBusinessItem>) -> Seq<Seq<char>> {
    items.map_values(|b: PublishedBusinessItem| b.id@)
}

/// What checking an instrument gives: the first rule it breaks, in the
/// order instrument id, procedure id, following and preceding instrument
/// ids, laying body id, department id (< 1), enabling act ids.
pub open spec fn si_check(si: PublishedStatutoryInstrument) -> Result<(), SiErrorV> {
    let id = si.statutory_instrument.statutory_instrument.id@;
    let procedure = si.statutory_instrument.statutory_instrument.procedure.id@;
    if !valid_short_id(id) {
        Err(SiErrorV::InvalidID(id))
    } else if !valid_short_id(procedure) {
        Err(SiErrorV::InvalidProcedureID(id, procedure))
    } else if si.followed_by_instrument matches Some(f) && !valid_short_id(f.id@) {
        Err(SiErrorV::InvalidFollowedStatutoryInstrumentID(id, si.followed_by_instrument->0.id@))
    } else if si.preceded_by_instrument matches Some(p) && !valid_short_id(p.id@) {
        Err(SiErrorV::InvalidPrecededStatutoryInstrumentID(id, si.preceded_by_instrument->0.id@))
    } else if !valid_short_id(si.laying_body.id@) {
        Err(SiErrorV::InvalidLayingBodyID(id, si.laying_body.id@))
    } else if si.laying_body.department_id matches Some(d) && d < 1 {
        Err(SiErrorV::InvalidLayingBodyDepartmentID(id, si.laying_body.department_id->0))
    } else if first_bad_id(act_ids(si.enabling_acts@)) is Some {
        Err(SiErrorV::InvalidActOfParliamentID(id, first_bad_id(act_ids(si.enabling_acts@))->0))
    } else {
        Ok(())
    }
}

/// Checks an instrument's fields, before its business items are fetched.
pub fn check_statutory_instrument(si: &PublishedStatutoryInstrument) -> (r: Result<(), SiError>)
    ensures
        match r {
            Ok(()) => si_check(*si) is Ok,
            Err(e) => si_check(*si) == Err::<(), SiErrorV>(e@),
        },
{
    let id = &si.statutory_instrument.statutory_instrument.id;
    if !is_valid_short_id(id) {
        return Err(SiError::InvalidID(id.clone()));
    }
    let procedure = &si.statutory_instrument.statutory_instrument.procedure.id;
    if !is_valid_short_id(procedure) {
        return Err(SiError::InvalidProcedureID(id.clone(), procedure.clone()));
    }
    match &si.followed_by_instrument {
        Some(f) => {
            if !is_valid_short_id(&f.id) {
                return Err(SiError::InvalidFollowedStatutoryInstrumentID(id.clone(), f.id.clone()));
            }
        },
        None => {},
    }
    match &si.preceded_by_instrument {
        Some(p) => {
            if !is_valid_short_id(&p.id) {
                return Err(SiError::InvalidPrecededStatutoryInstrumentID(id.clone(), p.id.clone()));
            }
        },
        None => {},
    }
    if !is_valid_short_id(&si.laying_body.id) {
        return Err(SiError::InvalidLayingBodyID(id.clone(), si.laying_body.id.clone()));
    }
    match si.laying_body.department_id {
        Some(d) => {
            if d < 1 {
                return Err(SiError::InvalidLayingBodyDepartmentID(id.clone(), d));
            }
        },
        None => {},
    }
    let mut i: usize = 0;
    while i < si.enabling_acts.len()
        invariant
            i <= si.enabling_acts.len(),
            *id == si.statutory_instrument.statutory_instrument.id,
            valid_short_id(si.statutory_instrument.statutory_instrument.id@),
            valid_short_id(si.statutory_instrument.statutory_instrument.procedure.id@),
            si.followed_by_instrument matches Some(f) ==> valid_short_id(f.id@),
            si.preceded_by_instrument matches Some(p) ==> valid_short_id(p.id@),
            valid_short_id(si.laying_body.id@),
            si.laying_body.department_id matches Some(d) ==> d >= 1,
            forall|j: int| 0 <= j < i ==> valid_short_id(#[trigger] act_ids(si.enabling_acts@)[j]),
        decreases si.enabling_acts.len() - i,
    {
        if !is_valid_short_id(&si.enabling_acts[i].id) {
            proof {
                lemma_first_bad_id_at(act_ids(si.enabling_acts@), i as int);
            }
            return Err(SiError::InvalidActOfParliamentID(id.clone(), si.enabling_acts[i].id.clone()));
        }
        i = i + 1;
    }
    proof {
        lemma_first_bad_id_none(act_ids(si.enabling_acts@));
    }
    Ok(())
}

/// Checks the ids of the business items fetched for the instrument `si_id`.
pub fn check_business_items(si_id: &String, items: &Vec<PublishedBusinessItem>) -> (r: Result<
    (),
    SiError,
>)
    ensures
        match r {
            Ok(()) => first_bad_id(business_item_ids(items@)) is None,
            Err(e) => first_bad_id(business_item_ids(items@)) is Some && e@
                == SiErrorV::InvalidBusinessItemID(
                si_id@,
                first_bad_id(business_item_ids(items@))->0,
            ),
        },
{
    let mut i: usize = 0;
    while i < items.len()
        invariant
            i <= items.len(),
            forall|j: int| 0 <= j < i ==> valid_short_id(#[trigger] business_item_ids(items@)[j]),
        decreases items.len() - i,
    {
        if !is_valid_short_id(&items[i].id) {
            proof {
                lemma_first_bad_id_at(business_item_ids(items@), i as int);
            }
            return Err(SiError::InvalidBusinessItemID(si_id.clone(), items[i].id.clone()));
        }
        i = i + 1;
    }
    proof {
        lemma_first_bad_id_none(business_item_ids(items@));
    }
    Ok(())
}

/// Whether an instrument id is already known: stored and updated less than
/// a day before `now`, or already collected.
pub open spec fn si_known(
    id: Seq<char>,
    stored: Seq<StatutoryInstrument>,
    collected: Seq<PublishedStatutoryInstrument>,
    now: i64,
) -> bool {
    (exists|i: int|
        0 <= i < stored.len() && age_secs(now, stored[i]._updated) < 86400 && #[trigger] stored[i]._id@
            == id) || (exists|j: int|
        0 <= j < collected.len() && #[trigger] collected[j].statutory_instrument.statutory_instrument.id@
            == id)
}

pub fn is_si_known(
    id: &String,
    stored: &Vec<StatutoryInstrument>,
    collected: &Vec<PublishedStatutoryInstrument>,
    now: i64,
) -> (r: bool)
    ensures
        r == si_known(id@, stored@, collected@, now),
{
    let mut i: usize = 0;
    while i < stored.len()
        invariant
            i <= stored.len(),
            forall|k: int|
                0 <= k < i ==> !(age_secs(now, stored@[k]._updated) < 86400 && #[trigger] stored@[k]._id@
                    == id@),
        decreases stored.len() - i,
    {
        if elapsed_secs(now, stored[i]._updated) < 86400 && stored[i]._id.eq(id) {
            return true;
        }
        i = i + 1;
    }
    let mut j: usize = 0;
    while j < collected.len()
        invariant
            j <= collected.len(),
            forall|l: int|
                0 <= l < j ==> #[trigger] collected@[l].statutory_instrument.statutory_instrument.id@
                    != id@,
        decreases collected.len() - j,
    {
        if collected[j].statutory_instrument.statutory_instrument.id.eq(id) {
            return true;
        }
        j = j + 1;
    }
    false
}

/// Whether every instrument of a page is already known: the collection
/// stops there.
pub fn si_page_known(
    page: &Vec<PublishedStatutoryInstrumentSummary>,
    stored: &Vec<StatutoryInstrument>,
    collected: &Vec<PublishedStatutoryInstrument>,
    now: i64,
) -> (r: bool)
    ensures
        r == forall|k: int|
            0 <= k < page@.len() ==> si_known(
                #[trigger] page@[k].statutory_instrument.id@,
                stored@,
                collected@,
                now,
            ),
{
    let mut k: usize = 0;
    while k < page.len()
        invariant
            k <= page.len(),
            forall|l: int|
                0 <= l < k ==> si_known(
                    #[trigger] page@[l].statutory_instrument.id@,
                    stored@,
                    collected@,
                    now,
                ),
        decreases page.len() - k,
    {
        if !is_si_known(&page[k].statutory_instrument.id, stored, collected, now) {
            return false;
        }
        k = k + 1;
    }
    true
}

/// 120 days, in seconds: instruments laid longer ago than that end the
/// collection.
pub open spec fn si_max_age_secs() -> int {
    10368000int
}

pub fn si_too_old(si: &PublishedStatutoryInstrumentSummary, now: i64) -> (r: bool)
    ensures
        r == (age_secs(now, si.commons_laying_date) > si_max_age_secs()),
{
    elapsed_secs(now, si.commons_laying_date) > 10368000
}

/// Whether an instrument was laid longer ago than the collection reaches.
pub open spec fn si_is_too_old(si: PublishedStatutoryInstrumentSummary, now: i64) -> bool {
    age_secs(now, si.commons_laying_date) > si_max_age_secs()
}

/// Whether the collection passes over an instrument of a page: it is not
/// too old and already known.
pub open spec fn si_skipped(
    si: PublishedStatutoryInstrumentSummary,
    stored: Seq<StatutoryInstrument>,
    collected: Seq<PublishedStatutoryInstrument>,
    now: i64,
) -> bool {
    !si_is_too_old(si, now) && si_known(si.statutory_instrument.id@, stored, collected, now)
}

/// Whether a page, looked at from its start, ends the collection: it is
/// empty, or every instrument on it is known.
pub open spec fn si_page_ends(
    page: Seq<PublishedStatutoryInstrumentSummary>,
    from: int,
    stored: Seq<StatutoryInstrument>,
    collected: Seq<PublishedStatutoryInstrument>,
    now: i64,
) -> bool {
    from == 0 && (page.len() == 0 || forall|k: int|
        0 <= k < page.len() ==> si_known(#[trigger] page[k].statutory_instrument.id@, stored, collected, now))
}

/// The next step through a page of the instrument list, from index `from`
/// on. At the start of a page, an empty page or one whose instruments are
/// all known ends the collection. Otherwise the first instrument from
/// `from` on that is not passed over (see [`si_skipped`]) decides: one laid
/// too long ago ends the collection, another is fetched; when there is
/// none the next page is asked for.
pub fn next_si_step(
    page: &Vec<PublishedStatutoryInstrumentSummary>,
    from: usize,
    stored: &Vec<StatutoryInstrument>,
    collected: &Vec<PublishedStatutoryInstrument>,
    now: i64,
) -> (r: PageStep)
    ensures
        si_page_ends(page@, from as int, stored@, collected@, now) ==> r == PageStep::Finished,
        !si_page_ends(page@, from as int, stored@, collected@, now) ==> match r {
            PageStep::Fetch(i) => from <= i < page@.len() && !si_is_too_old(page@[i as int], now)
                && !si_known(page@[i as int].statutory_instrument.id@, stored@, collected@, now)
                && forall|k: int| from <= k < i ==> si_skipped(#[trigger] page@[k], stored@, collected@, now),
            PageStep::Finished => exists|i: int|
                from <= i < page@.len() && si_is_too_old(#[trigger] page@[i], now) && forall|k: int|
                    from <= k < i ==> si_skipped(#[trigger] page@[k], stored@, collected@, now),
            PageStep::NextPage => forall|k: int|
                from <= k < page@.len() ==> si_skipped(#[trigger] page@[k], stored@, collected@, now),
        },
{
    if from == 0 && (page.len() == 0 || si_page_known(page, stored, collected, now)) {
        return PageStep::Finished;
    }
    let mut i: usize = from;
    while i < page.len()
        invariant
            from <= i,
            !si_page_ends(page@, from as int, stored@, collected@, now),
            forall|k: int| from <= k < i ==> si_skipped(#[trigger] page@[k], stored@, collected@, now),
        decreases page.len() - i,
    {
        if si_too_old(&page[i], now) {
            assert(si_is_too_old(page@[i as int], now));
            return PageStep::Finished;
        }
        if !is_si_known(&page[i].statutory_instrument.id, stored, collected, now) {
            return PageStep::Fetch(i);
        }
        assert(si_skipped(page@[i as int], stored@, collected@, now));
        i = i + 1;
    }
    PageStep::NextPage
}

} // verus!
