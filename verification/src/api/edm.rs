use vstd::prelude::*;

use crate::api::member::{opt_decimal, param, pop_last, push_param, without_last};
use crate::data::age_secs;
use crate::data::edm::EarlyDayMotion;
use crate::data::elapsed_secs;
use crate::text::{concat_text, decimal, decimal_text};

verus! {

broadcast use vstd::std_specs::vec::group_vec_axioms;

/// An early day motion record from the motions service that breaks the
/// rules the dataset relies on. Dates are milliseconds since the Unix epoch.
#[derive(Clone, Debug, PartialEq, Eq, Hash)]
pub enum PublishedEarlyDayMotionDataError {
    /// The motion id was < 1.
    InvalidID(i32),
    /// A signature's member id was < 1: motion id, member id.
    InvalidSignatureID(i32, i32),
    /// The motion's member id was < 1: motion id, member id.
    InvalidMemberID(i32, i32),
    /// The primary sponsor's id was < 1: motion id, sponsor id.
    InvalidPrimarySponsorID(i32, i32),
    /// The statutory instrument prayed against had an id < 1.
    InvalidStatutoryInstrumentID(i32, i32),
    /// The motion an amendment amends had an id < 1.
    InvalidAmendedMotionID(i32, i32),
    /// A signer's party id was < 1: motion id, member id, party id.
    InvalidPartyID(i32, i32, i32),
    /// An amendment did not name the motion it amends.
    MissingAmendedMotionID(i32),
    /// The motion's member and primary sponsor differ: motion id, member id,
    /// sponsor id.
    MismatchedMemberID(i32, i32, i32),
    /// A signature is marked withdrawn without a withdrawal date, or has one
    /// without being marked.
    WithdrawnSignatureMismatch(i32, bool, Option<i64>),
    /// The order of amendments does not match the order of their dates.
    AmendmentOrderMismatch(i32, i32),
}

/// The address of an early day motion.
pub open spec fn early_day_motion_url(id: i32) -> Seq<char> {
    "https://oralquestionsandmotions-api.parliament.uk/EarlyDayMotion/"@ + decimal(id as int)
}

/// Asks for one early day motion.
pub struct RequestEarlyDayMotion {
    pub early_day_motion_id: i32,
}

impl RequestEarlyDayMotion {
    pub fn new(early_day_motion_id: i32) -> (r: Self)
        ensures
            r.early_day_motion_id == early_day_motion_id,
    {
        Self { early_day_motion_id }
    }

    pub fn url(&self) -> (r: String)
        ensures
            r@ == early_day_motion_url(self.early_day_motion_id),
    {
        concat_text(
            "https://oralquestionsandmotions-api.parliament.uk/EarlyDayMotion/",
            decimal_text(self.early_day_motion_id as i64).as_str(),
        )
    }
}

#[derive(Clone, Copy, Debug, PartialEq, Eq, Hash, PartialOrd, Ord)]
pub enum PublishedEarlyDayMotionStatus {
    Published,
    Withdrawn,
}

impl PublishedEarlyDayMotionStatus {
    /// The name of the status, as the service spells it.
    pub open spec fn spec_name(self) -> Seq<char> {
        match self {
            PublishedEarlyDayMotionStatus::Published => "Published"@,
            PublishedEarlyDayMotionStatus::Withdrawn => "Withdrawn"@,
        }
    }

    pub fn name(&self) -> (r: &'static str)
        ensures
            r@ == self.spec_name(),
    {
        match self {
            PublishedEarlyDayMotionStatus::Published => "Published",
            PublishedEarlyDayMotionStatus::Withdrawn => "Withdrawn",
        }
    }
}

#[derive(Clone, Copy, Debug, PartialEq, Eq, Hash, PartialOrd, Ord)]
pub enum OrderBy {
    DateTabledAsc,
    DateTabledDesc,
    TitleAsc,
    TitleDesc,
    SignatureCountAsc,
    SignatureCountDesc,
}

impl OrderBy {
    /// The name of the order, as the service spells it.
    pub open spec fn spec_name(self) -> Seq<char> {
        match self {
            OrderBy::DateTabledAsc => "DateTabledAsc"@,
            OrderBy::DateTabledDesc => "DateTabledDesc"@,
            OrderBy::TitleAsc => "TitleAsc"@,
            OrderBy::TitleDesc => "TitleDesc"@,
            OrderBy::SignatureCountAsc => "SignatureCountAsc"@,
            OrderBy::SignatureCountDesc => "SignatureCountDesc"@,
        }
    }

    pub fn name(&self) -> (r: &'static str)
        ensures
            r@ == self.spec_name(),
    {
        match self {
            OrderBy::DateTabledAsc => "DateTabledAsc",
            OrderBy::DateTabledDesc => "DateTabledDesc",
            OrderBy::TitleAsc => "TitleAsc",
            OrderBy::TitleDesc => "TitleDesc",
            OrderBy::SignatureCountAsc => "SignatureCountAsc",
            OrderBy::SignatureCountDesc => "SignatureCountDesc",
        }
    }
}

/// The text that `chrono` writes for the date and time `millis`
/// milliseconds after the Unix epoch (UTC, without offset), or `None` when
/// `chrono` cannot represent that instant.
pub uninterp spec fn naive_datetime_text(millis: i64) -> Option<Seq<char>>;

/// `chrono::DateTime::from_timestamp_millis`, then `naive_utc` and
/// `Display`. Claims only that the result is the named text of `millis`.
#[verifier::external_body]
fn format_naive_datetime(millis: i64) -> (r: Option<String>)
    ensures
        match r {
            Some(s) => naive_datetime_text(millis) == Some(s@),
            None => naive_datetime_text(millis) is None,
        },
{
    match chrono::DateTime::from_timestamp_millis(millis) {
        Some(d) => Some(d.naive_utc().to_string()),
        None => None,
    }
}

/// Asks for a list of early day motions. Dates are milliseconds since the
/// Unix epoch.
pub struct RequestEarlyDayMotionList {
    pub early_day_motion_ids: Vec<i32>,
    pub tabled_start_date: Option<i64>,
    pub tabled_end_date: Option<i64>,
    pub statuses: Vec<PublishedEarlyDayMotionStatus>,
    pub order_by: Option<OrderBy>,
    pub skip: Option<i32>,
    pub take: Option<i32>,
}

/// `parameters.edmIds=<id>&` for each id, in order.
pub open spec fn ids_params(ids: Seq<i32>) -> Seq<char>
    decreases ids.len(),
{
    if ids.len() == 0 {
        Seq::empty()
    } else {
        ids_params(ids.drop_last()) + param("parameters.edmIds="@, Some(decimal(ids.last() as int)))
    }
}

/// `parameters.statuses=<status>&` for each status, in order.
pub open spec fn statuses_params(ss: Seq<PublishedEarlyDayMotionStatus>) -> Seq<char>
    decreases ss.len(),
{
    if ss.len() == 0 {
        Seq::empty()
    } else {
        statuses_params(ss.drop_last()) + param(
            "parameters.statuses="@,
            Some(ss.last().spec_name()),
        )
    }
}

/// The text of an optional date, or `None` inside when the date cannot be
/// written.
pub open spec fn date_param(prefix: Seq<char>, d: Option<i64>) -> Option<Seq<char>> {
    match d {
        Some(ms) => match naive_datetime_text(ms) {
            Some(t) => Some(param(prefix, Some(t))),
            None => None,
        },
        None => Some(Seq::empty()),
    }
}

/// The query string of a list request, or `None` when one of its dates
/// cannot be written.
pub open spec fn edm_list_query(
    l: RequestEarlyDayMotionList,
) -> Option<Seq<char>> {
    match (date_param("parameters.tabledStartDate="@, l.tabled_start_date), date_param(
        "parameters.tabledEndDate="@,
        l.tabled_end_date,
    )) {
        (Some(a), Some(b)) => Some(
            without_last(
                ids_params(l.early_day_motion_ids@) + a + b + statuses_params(l.statuses@)
                    + param(
                    "parameters.orderBy="@,
                    match l.order_by {
                        Some(o) => Some(o.spec_name()),
                        None => None,
                    },
                ) + param("parameters.skip="@, opt_decimal(l.skip)) + param(
                    "parameters.take="@,
                    opt_decimal(l.take),
                ),
            ),
        ),
        _ => None,
    }
}

impl RequestEarlyDayMotionList {
    pub fn new(early_day_motion_ids: Vec<i32>) -> (r: Self)
        ensures
            r.early_day_motion_ids == early_day_motion_ids,
            r.tabled_start_date is None,
            r.tabled_end_date is None,
            r.statuses@.len() == 0,
            r.order_by is None,
            r.skip is None,
            r.take is None,
    {
        Self {
            early_day_motion_ids,
            tabled_start_date: None,
            tabled_end_date: None,
            statuses: Vec::new(),
            order_by: None,
            skip: None,
            take: None,
        }
    }

    fn push_date(q: String, prefix: &str, d: Option<i64>) -> (r: Option<String>)
        ensures
            match date_param(prefix@, d) {
                Some(p) => r is Some && r->0@ == q@ + p,
                None => r is None,
            },
    {
        match d {
            Some(ms) => match format_naive_datetime(ms) {
                Some(t) => Some(push_param(q, prefix, t.as_str())),
                None => None,
            },
            None => {
                assert(q@ + Seq::<char>::empty() =~= q@);
                Some(q)
            },
        }
    }

    /// The address of the request, or `None` when one of its dates cannot
    /// be written.
    pub fn url(&self) -> (r: Option<String>)
        ensures
            match edm_list_query(*self) {
                Some(t) => r is Some && r->0@
                    == "https://oralquestionsandmotions-api.parliament.uk/EarlyDayMotions/list?"@ + t,
                None => r is None,
            },
    {
        match self.query_string() {
            Some(q) => Some(
                concat_text(
                    "https://oralquestionsandmotions-api.parliament.uk/EarlyDayMotions/list?",
                    q.as_str(),
                ),
            ),
            None => None,
        }
    }

    /// The query string of the request, or `None` when one of its dates
    /// cannot be written.
    pub fn query_string(&self) -> (r: Option<String>)
        ensures
            match edm_list_query(*self) {
                Some(t) => r is Some && r->0@ == t,
                None => r is None,
            },
    {
        let mut q = String::new();
        let mut i: usize = 0;
        while i < self.early_day_motion_ids.len()
            invariant
                i <= self.early_day_motion_ids.len(),
                q@ == ids_params(self.early_day_motion_ids@.take(i as int)),
            decreases self.early_day_motion_ids.len() - i,
        {
            q = push_param(
                q,
                "parameters.edmIds=",
                decimal_text(self.early_day_motion_ids[i] as i64).as_str(),
            );
            assert(self.early_day_motion_ids@.take(i + 1).drop_last()
                =~= self.early_day_motion_ids@.take(i as int));
            i = i + 1;
        }
        assert(self.early_day_motion_ids@.take(self.early_day_motion_ids.len() as int)
            =~= self.early_day_motion_ids@);
        let ghost ids = q@;
        let q = match Self::push_date(q, "parameters.tabledStartDate=", self.tabled_start_date) {
            Some(q) => q,
            None => {
                return None;
            },
        };
        let ghost with_start = q@;
        let q = match Self::push_date(q, "parameters.tabledEndDate=", self.tabled_end_date) {
            Some(q) => q,
            None => {
                return None;
            },
        };
        let ghost with_end = q@;
        let mut q = q;
        let mut i: usize = 0;
        while i < self.statuses.len()
            invariant
                i <= self.statuses.len(),
                q@ == with_end + statuses_params(self.statuses@.take(i as int)),
            decreases self.statuses.len() - i,
        {
            q = push_param(q, "parameters.statuses=", self.statuses[i].name());
            assert(self.statuses@.take(i + 1).drop_last() =~= self.statuses@.take(i as int));
            i = i + 1;
        }
        assert(self.statuses@.take(self.statuses.len() as int) =~= self.statuses@);
        let ghost with_statuses = q@;
        match &self.order_by {
            Some(o) => {
                q = push_param(q, "parameters.orderBy=", o.name());
            },
            None => {},
        }
        let ghost with_order = q@;
        match self.skip {
            Some(skip) => {
                q = push_param(q, "parameters.skip=", decimal_text(skip as i64).as_str());
            },
            None => {},
        }
        let ghost with_skip = q@;
        match self.take {
            Some(take) => {
                q = push_param(q, "parameters.take=", decimal_text(take as i64).as_str());
            },
            None => {},
        }
        proof {
            let a = date_param("parameters.tabledStartDate="@, self.tabled_start_date)->0;
            let b = date_param("parameters.tabledEndDate="@, self.tabled_end_date)->0;
            let o = match self.order_by {
                Some(o) => Some(o.spec_name()),
                None => None,
            };
            assert(q@ =~= ids_params(self.early_day_motion_ids@) + a + b + statuses_params(
                self.statuses@,
            ) + param("parameters.orderBy="@, o) + param("parameters.skip="@, opt_decimal(self.skip))
                + param("parameters.take="@, opt_decimal(self.take)));
        }
        Some(pop_last(q))
    }
}

/// A motion with its signatures and amendments, as the service gives it.
#[derive(Debug)]
pub struct PublishedEarlyDayMotionDetails {
    pub sponsors: Vec<PublishedEarlyDayMotionSponsor>,
    pub amendments: Vec<PublishedEarlyDayMotionDetails>,
    pub motion: PublishedEarlyDayMotion,
}

/// A motion as the service gives it; dates are milliseconds since the Unix
/// epoch.
#[derive(Clone, Debug, PartialEq, Eq)]
pub struct PublishedEarlyDayMotion {
    pub id: i32,
    pub status: i32,
    pub status_date: i64,
    pub member_id: i32,
    pub primary_sponsor: MemberForDate,
    pub title: Option<String>,
    pub motion_text: Option<String>,
    pub amendment_to_motion_id: Option<i32>,
    pub uin: i32,
    pub amendment_suffix: Option<String>,
    pub date_tabled: i64,
    pub praying_against_negative_statutory_instrument_id: Option<i32>,
    pub statutory_instrument_number: Option<i32>,
    pub statutory_instrument_year: Option<String>,
    pub statutory_instrument_title: Option<String>,
    pub uin_with_amendment_suffix: String,
    pub sponsors_count: i32,
}

/// A signature; dates are milliseconds since the Unix epoch.
#[derive(Clone, Debug, PartialEq, Eq)]
pub struct PublishedEarlyDayMotionSponsor {
    pub id: i32,
    pub member_id: i32,
    pub member: MemberForDate,
    pub sponsoring_order: Option<i32>,
    pub created_when: i64,
    pub is_withdrawn: bool,
    pub withdrawn_date: Option<i64>,
}

/// A member as they were on a given date.
#[derive(Clone, Debug, PartialEq, Eq, Hash, PartialOrd, Ord)]
pub struct MemberForDate {
    pub mnis_id: i32,
    pub pims_id: Option<i32>,
    pub name: String,
    pub list_as: String,
    pub constituency: Option<String>,
    pub status: String,
    pub party: Option<String>,
    pub party_id: Option<i32>,
    pub party_colour: Option<String>,
    pub photo_url: Option<String>,
}

type EdmError = PublishedEarlyDayMotionDataError;

/// The first signature that breaks a rule, in order: a member id < 1, or a
/// withdrawal mark that disagrees with the withdrawal date.
pub open spec fn sponsor_error(id: i32, s: Seq<PublishedEarlyDayMotionSponsor>) -> Option<EdmError>
    decreases s.len(),
{
    if s.len() == 0 {
        None
    } else if s[0].member_id < 1 {
        Some(EdmError::InvalidSignatureID(id, s[0].member_id))
    } else if s[0].is_withdrawn != (s[0].withdrawn_date is Some) {
        Some(EdmError::WithdrawnSignatureMismatch(id, s[0].is_withdrawn, s[0].withdrawn_date))
    } else {
        sponsor_error(id, s.drop_first())
    }
}

/// What checking the fields of a motion gives: the first rule it breaks,
/// in the order motion id, member id, primary sponsor id, agreement of the
/// two, the signatures, the statutory instrument id.
pub open spec fn edm_fields_check(edm: PublishedEarlyDayMotionDetails) -> Result<(), EdmError> {
    let m = edm.motion;
    if m.id < 1 {
        Err(EdmError::InvalidID(m.id))
    } else if m.member_id < 1 {
        Err(EdmError::InvalidMemberID(m.id, m.member_id))
    } else if m.primary_sponsor.mnis_id < 1 {
        Err(EdmError::InvalidPrimarySponsorID(m.id, m.primary_sponsor.mnis_id))
    } else if m.member_id != m.primary_sponsor.mnis_id {
        Err(EdmError::MismatchedMemberID(m.id, m.member_id, m.primary_sponsor.mnis_id))
    } else if sponsor_error(m.id, edm.sponsors@) is Some {
        Err(sponsor_error(m.id, edm.sponsors@)->0)
    } else if m.praying_against_negative_statutory_instrument_id matches Some(x) && x < 1 {
        Err(
            EdmError::InvalidStatutoryInstrumentID(
                m.id,
                m.praying_against_negative_statutory_instrument_id->0,
            ),
        )
    } else {
        Ok(())
    }
}

/// Checks the fields of a motion, before the parties of its signers are
/// completed.
pub fn check_early_day_motion(edm: &PublishedEarlyDayMotionDetails) -> (r: Result<(), EdmError>)
    ensures
        r == edm_fields_check(*edm),
{
    let id = edm.motion.id;
    if id < 1 {
        return Err(EdmError::InvalidID(id));
    }
    if edm.motion.member_id < 1 {
        return Err(EdmError::InvalidMemberID(id, edm.motion.member_id));
    }
    if edm.motion.primary_sponsor.mnis_id < 1 {
        return Err(EdmError::InvalidPrimarySponsorID(id, edm.motion.primary_sponsor.mnis_id));
    }
    if edm.motion.member_id != edm.motion.primary_sponsor.mnis_id {
        return Err(
            EdmError::MismatchedMemberID(
                id,
                edm.motion.member_id,
                edm.motion.primary_sponsor.mnis_id,
            ),
        );
    }
    let mut i: usize = 0;
    assert(edm.sponsors@.skip(0) =~= edm.sponsors@);
    while i < edm.sponsors.len()
        invariant
            i <= edm.sponsors.len(),
            id == edm.motion.id,
            id >= 1,
            edm.motion.member_id >= 1,
            edm.motion.primary_sponsor.mnis_id >= 1,
            edm.motion.member_id == edm.motion.primary_sponsor.mnis_id,
            sponsor_error(id, edm.sponsors@) == sponsor_error(id, edm.sponsors@.skip(i as int)),
        decreases edm.sponsors.len() - i,
    {
        let s = &edm.sponsors[i];
        assert(edm.sponsors@.skip(i as int)[0] == *s);
        assert(edm.sponsors@.skip(i as int).drop_first() =~= edm.sponsors@.skip(i + 1));
        if s.member_id < 1 {
            return Err(EdmError::InvalidSignatureID(id, s.member_id));
        }
        if s.is_withdrawn != s.withdrawn_date.is_some() {
            return Err(EdmError::WithdrawnSignatureMismatch(id, s.is_withdrawn, s.withdrawn_date));
        }
        i = i + 1;
    }
    assert(edm.sponsors@.skip(edm.sponsors.len() as int).len() == 0);
    match edm.motion.praying_against_negative_statutory_instrument_id {
        Some(x) => {
            if x < 1 {
                return Err(EdmError::InvalidStatutoryInstrumentID(id, x));
            }
        },
        None => {},
    }
    Ok(())
}

/// From index `from` on, the first signer whose party needs attention: one
/// with a party id < 1 is an error; one without a party id is to be looked
/// up (its index is given); when there is none the parties are complete.
pub open spec fn party_lookup(
    id: i32,
    s: Seq<PublishedEarlyDayMotionSponsor>,
    from: int,
) -> Result<Option<int>, EdmError>
    decreases s.len() - from,
{
    if from < 0 || from >= s.len() {
        Ok(None)
    } else {
        match s[from].member.party_id {
            Some(p) => if p < 1 {
                Err(EdmError::InvalidPartyID(id, s[from].member_id, p))
            } else {
                party_lookup(id, s, from + 1)
            },
            None => Ok(Some(from)),
        }
    }
}

/// The next signer, from index `from` on, whose party has to be looked up;
/// see [`party_lookup`].
pub fn next_party_lookup(edm: &PublishedEarlyDayMotionDetails, from: usize) -> (r: Result<
    Option<usize>,
    EdmError,
>)
    ensures
        match r {
            Ok(Some(j)) => party_lookup(edm.motion.id, edm.sponsors@, from as int) == Ok::<
                Option<int>,
                EdmError,
            >(Some(j as int)),
            Ok(None) => party_lookup(edm.motion.id, edm.sponsors@, from as int) == Ok::<
                Option<int>,
                EdmError,
            >(None),
            Err(e) => party_lookup(edm.motion.id, edm.sponsors@, from as int) == Err::<
                Option<int>,
                EdmError,
            >(e),
        },
{
    let mut i: usize = from;
    while i < edm.sponsors.len()
        invariant
            from <= i,
            party_lookup(edm.motion.id, edm.sponsors@, from as int) == party_lookup(
                edm.motion.id,
                edm.sponsors@,
                i as int,
            ),
        decreases edm.sponsors.len() - i,
    {
        match edm.sponsors[i].member.party_id {
            Some(p) => {
                if p < 1 {
                    return Err(EdmError::InvalidPartyID(edm.motion.id, edm.sponsors[i].member_id, p));
                }
            },
            None => {
                return Ok(Some(i));
            },
        }
        i = i + 1;
    }
    Ok(None)
}

/// The first amendment that breaks a rule: one that names no amended motion
/// (its own id is given), or names an id < 1.
pub open spec fn amendments_check(id: i32, a: Seq<PublishedEarlyDayMotionDetails>) -> Result<
    (),
    EdmError,
>
    decreases a.len(),
{
    if a.len() == 0 {
        Ok(())
    } else {
        match a[0].motion.amendment_to_motion_id {
            Some(x) => if x < 1 {
                Err(EdmError::InvalidAmendedMotionID(id, x))
            } else {
                amendments_check(id, a.drop_first())
            },
            None => Err(EdmError::MissingAmendedMotionID(a[0].motion.id)),
        }
    }
}

/// Checks the amendments of a motion.
pub fn check_amendments(edm: &PublishedEarlyDayMotionDetails) -> (r: Result<(), EdmError>)
    ensures
        r == amendments_check(edm.motion.id, edm.amendments@),
{
    let id = edm.motion.id;
    let mut i: usize = 0;
    assert(edm.amendments@.skip(0) =~= edm.amendments@);
    while i < edm.amendments.len()
        invariant
            i <= edm.amendments.len(),
            id == edm.motion.id,
            amendments_check(id, edm.amendments@) == amendments_check(
                id,
                edm.amendments@.skip(i as int),
            ),
        decreases edm.amendments.len() - i,
    {
        assert(edm.amendments@.skip(i as int)[0] == edm.amendments@[i as int]);
        assert(edm.amendments@.skip(i as int).drop_first() =~= edm.amendments@.skip(i + 1));
        match edm.amendments[i].motion.amendment_to_motion_id {
            Some(x) => {
                if x < 1 {
                    return Err(EdmError::InvalidAmendedMotionID(id, x));
                }
            },
            None => {
                return Err(EdmError::MissingAmendedMotionID(edm.amendments[i].motion.id));
            },
        }
        i = i + 1;
    }
    assert(edm.amendments@.skip(edm.amendments.len() as int).len() == 0);
    Ok(())
}

/// One day, in seconds.
pub open spec fn day_secs() -> int {
    86400int
}

/// Whether a motion id still has to be fetched: no stored motion with that
/// id was updated less than a day before `now`, and it was not fetched
/// already.
pub open spec fn edm_needs_fetch(
    id: i32,
    stored: Seq<EarlyDayMotion>,
    fetched: Seq<PublishedEarlyDayMotionDetails>,
    now: i64,
) -> bool {
    !(exists|i: int|
        0 <= i < stored.len() && age_secs(now, stored[i]._updated) < day_secs()
            && #[trigger] stored[i]._id == id as u32) && !(exists|j: int|
        0 <= j < fetched.len() && #[trigger] fetched[j].motion.id == id)
}

pub fn needs_fetch(
    id: i32,
    stored: &Vec<EarlyDayMotion>,
    fetched: &Vec<PublishedEarlyDayMotionDetails>,
    now: i64,
) -> (r: bool)
    ensures
        r == edm_needs_fetch(id, stored@, fetched@, now),
{
    let mut i: usize = 0;
    while i < stored.len()
        invariant
            i <= stored.len(),
            forall|k: int|
                0 <= k < i ==> !(age_secs(now, stored@[k]._updated) < day_secs()
                    && #[trigger] stored@[k]._id == id as u32),
        decreases stored.len() - i,
    {
        if elapsed_secs(now, stored[i]._updated) < 86400 && stored[i]._id == id as u32 {
            return false;
        }
        i = i + 1;
    }
    let mut j: usize = 0;
    while j < fetched.len()
        invariant
            j <= fetched.len(),
            forall|l: int| 0 <= l < j ==> #[trigger] fetched@[l].motion.id != id,
        decreases fetched.len() - j,
    {
        if fetched[j].motion.id == id {
            return false;
        }
        j = j + 1;
    }
    true
}

/// The first motion id from `from` to `max_id` that still has to be
/// fetched (see [`edm_needs_fetch`]), or `None` when none has.
pub fn next_motion_to_fetch(
    from: i32,
    max_id: i32,
    stored: &Vec<EarlyDayMotion>,
    fetched: &Vec<PublishedEarlyDayMotionDetails>,
    now: i64,
) -> (r: Option<i32>)
    ensures
        match r {
            Some(id) => from <= id <= max_id && edm_needs_fetch(id, stored@, fetched@, now) && forall|k: i32|
                from <= k < id ==> !#[trigger] edm_needs_fetch(k, stored@, fetched@, now),
            None => forall|k: i32| from <= k <= max_id ==> !#[trigger] edm_needs_fetch(k, stored@, fetched@, now),
        },
{
    if from > max_id {
        return None;
    }
    let mut id: i32 = from;
    loop
        invariant
            from <= id <= max_id,
            forall|k: i32| from <= k < id ==> !#[trigger] edm_needs_fetch(k, stored@, fetched@, now),
        decreases max_id - id,
    {
        if needs_fetch(id, stored, fetched, now) {
            return Some(id);
        }
        if id == max_id {
            return None;
        }
        id = id + 1;
    }
}

/// The signature `s` with its signer's party id set to `party_id`.
pub open spec fn with_party(s: PublishedEarlyDayMotionSponsor, party_id: Option<i32>) -> PublishedEarlyDayMotionSponsor {
    PublishedEarlyDayMotionSponsor { member: MemberForDate { party_id: party_id, ..s.member }, ..s }
}

/// Records the party looked up for the signer at `j` (see
/// [`next_party_lookup`]); nothing else changes.
pub fn set_signer_party(edm: &mut PublishedEarlyDayMotionDetails, j: usize, party_id: Option<i32>)
    requires
        j < old(edm).sponsors@.len(),
    ensures
        final(edm).sponsors@ == old(edm).sponsors@.update(j as int, with_party(old(edm).sponsors@[j as int], party_id)),
        final(edm).motion == old(edm).motion,
        final(edm).amendments@ == old(edm).amendments@,
{
    let mut s = edm.sponsors.remove(j);
    s.member.party_id = party_id;
    edm.sponsors.insert(j, s);
    assert(edm.sponsors@ =~= old(edm).sponsors@.update(j as int, with_party(old(edm).sponsors@[j as int], party_id)));
}

} // verus!
