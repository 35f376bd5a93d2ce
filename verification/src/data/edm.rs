use vstd::prelude::*;

use crate::api::edm::{PublishedEarlyDayMotionDetails, PublishedEarlyDayMotionSponsor};
use crate::data::{text_or_empty, text_or_new};

verus! {

/// What kind of prayer motion an early day motion is.
#[derive(Clone, Copy, Debug, PartialEq, Eq, Hash, PartialOrd, Ord)]
pub enum MotionKind {
    /// A fatal prayer motion, which objects to a negative statutory instrument becoming or
    /// continuing as law.
    Fatal,
    /// A non-fatal prayer motion, which brings debate around a negative statutory instrument
    /// but cannot object to it becoming or continuing as law.
    NonFatal,
    /// A motion without the `be annulled` statement that still has the intent of a fatal
    /// prayer motion.
    SeemsFatal,
}

impl MotionKind {
    /// The number that stands for the kind in stored data.
    pub open spec fn spec_code(self) -> i32 {
        match self {
            MotionKind::Fatal => 0,
            MotionKind::NonFatal => 1,
            MotionKind::SeemsFatal => 2,
        }
    }

    pub fn code(&self) -> (r: i32)
        ensures
            r == self.spec_code(),
    {
        match self {
            MotionKind::Fatal => 0,
            MotionKind::NonFatal => 1,
            MotionKind::SeemsFatal => 2,
        }
    }
}

/// Where the dataset learnt that a motion prays against an instrument.
#[derive(Clone, Copy, Debug, PartialEq, Eq, Hash, PartialOrd, Ord)]
pub enum SourceKind {
    List,
    Api,
    NsiNameComparison,
    ManualReview,
}

impl SourceKind {
    /// The number that stands for the source in stored data.
    pub open spec fn spec_code(self) -> u32 {
        match self {
            SourceKind::List => 0,
            SourceKind::Api => 1,
            SourceKind::NsiNameComparison => 2,
            SourceKind::ManualReview => 3,
        }
    }

    pub fn code(&self) -> (r: u32)
        ensures
            r == self.spec_code(),
    {
        match self {
            SourceKind::List => 0,
            SourceKind::Api => 1,
            SourceKind::NsiNameComparison => 2,
            SourceKind::ManualReview => 3,
        }
    }
}

/// What the dataset adds to a motion.
#[derive(Clone, Debug, PartialEq, Eq, Hash, PartialOrd, Ord)]
pub struct EarlyDayMotionExtra {
    pub opposes_statutory_instrument: Option<String>,
    pub motion_kind: Option<MotionKind>,
    pub source_kind: Vec<SourceKind>,
}

/// Whether the service itself says that a motion prays against a
/// statutory instrument: it names one by id, number, title or year.
pub open spec fn names_instrument(d: PublishedEarlyDayMotionDetails) -> bool {
    d.motion.praying_against_negative_statutory_instrument_id is Some
        || d.motion.statutory_instrument_number is Some
        || d.motion.statutory_instrument_title is Some
        || d.motion.statutory_instrument_year is Some
}

impl EarlyDayMotionExtra {
    pub fn from_published(value: &PublishedEarlyDayMotionDetails) -> (r: Self)
        ensures
            r.opposes_statutory_instrument is None,
            r.motion_kind is None,
            r.source_kind@ == (if names_instrument(*value) {
                seq![SourceKind::Api]
            } else {
                Seq::empty()
            }),
    {
        let mut source_kind: Vec<SourceKind> = Vec::new();
        if value.motion.praying_against_negative_statutory_instrument_id.is_some()
            || value.motion.statutory_instrument_number.is_some()
            || value.motion.statutory_instrument_title.is_some()
            || value.motion.statutory_instrument_year.is_some() {
            source_kind.push(SourceKind::Api);
        }
        EarlyDayMotionExtra { opposes_statutory_instrument: None, motion_kind: None, source_kind }
    }
}

/// The status of a motion.
#[derive(Clone, Copy, Debug, PartialEq, Eq, Hash, PartialOrd, Ord)]
pub enum EarlyDayMotionStatus {
    Published,
    Withdrawn,
}

impl EarlyDayMotionStatus {
    pub open spec fn spec_from_code(value: u8) -> EarlyDayMotionStatus {
        if value == 0 {
            EarlyDayMotionStatus::Published
        } else {
            EarlyDayMotionStatus::Withdrawn
        }
    }

    /// The status numbered 0 or 1; other numbers are no status.
    pub fn from_code(value: u8) -> (r: Self)
        requires
            value == 0 || value == 1,
        ensures
            r == Self::spec_from_code(value),
    {
        if value == 0 {
            EarlyDayMotionStatus::Published
        } else {
            EarlyDayMotionStatus::Withdrawn
        }
    }
}

/// A signature as the dataset stores it; dates are milliseconds since the
/// Unix epoch.
#[derive(Clone, Copy, Debug, PartialEq, Eq, Hash, PartialOrd, Ord)]
pub struct EarlyDayMotionSignature {
    pub _id: u32,
    pub member_id: u32,
    pub creation_date: i64,
    pub withdrawal_date: Option<i64>,
    pub sponsoring_order: Option<u32>,
}

/// The stored form of a published signature.
pub open spec fn signature_of(p: PublishedEarlyDayMotionSponsor) -> EarlyDayMotionSignature {
    EarlyDayMotionSignature {
        _id: p.id as u32,
        member_id: p.member.mnis_id as u32,
        creation_date: p.created_when,
        withdrawal_date: p.withdrawn_date,
        sponsoring_order: match p.sponsoring_order {
            Some(x) => Some(x as u32),
            None => None,
        },
    }
}

impl EarlyDayMotionSignature {
    pub fn from_published(value: &PublishedEarlyDayMotionSponsor) -> (r: Self)
        ensures
            r == signature_of(*value),
    {
        EarlyDayMotionSignature {
            _id: value.id as u32,
            member_id: value.member.mnis_id as u32,
            creation_date: value.created_when,
            withdrawal_date: value.withdrawn_date,
            sponsoring_order: match value.sponsoring_order {
                Some(x) => Some(x as u32),
                None => None,
            },
        }
    }
}

/// Which motion an amendment amends, and its suffix.
#[derive(Clone, Debug, PartialEq, Eq, Hash, PartialOrd, Ord)]
pub struct EarlyDayMotionAmendment {
    /// The id of the amended motion.
    pub motion_id: u32,
    pub amendment_suffix: String,
}

/// A motion as the dataset stores it; dates are milliseconds since the
/// Unix epoch.
#[derive(Clone, Debug, PartialEq, Eq, Hash, PartialOrd, Ord)]
pub struct EarlyDayMotion {
    pub _id: u32,
    pub title: String,
    pub motion_text: String,
    pub date_tabled: i64,
    pub status: EarlyDayMotionStatus,
    pub status_date: i64,
    pub supporting_signatures: Vec<EarlyDayMotionSignature>,
    pub withdrawn_signatures: Vec<EarlyDayMotionSignature>,
    pub amends: Option<EarlyDayMotionAmendment>,
    /// The number of the motion in its session.
    pub uin: u32,
    pub _updated: i64,
}

/// A signature still counts as supporting unless it is marked withdrawn and
/// has a withdrawal date.
pub open spec fn is_supporting(p: PublishedEarlyDayMotionSponsor) -> bool {
    !p.is_withdrawn || p.withdrawn_date is None
}

pub open spec fn supporting_pred() -> spec_fn(PublishedEarlyDayMotionSponsor) -> bool {
    |p: PublishedEarlyDayMotionSponsor| is_supporting(p)
}

pub open spec fn withdrawn_pred() -> spec_fn(PublishedEarlyDayMotionSponsor) -> bool {
    |p: PublishedEarlyDayMotionSponsor| !is_supporting(p)
}

pub open spec fn signature_fn() -> spec_fn(PublishedEarlyDayMotionSponsor) -> EarlyDayMotionSignature {
    |p: PublishedEarlyDayMotionSponsor| signature_of(p)
}

/// The stored forms of the supporting signatures, in order.
pub open spec fn supporting_of(s: Seq<PublishedEarlyDayMotionSponsor>) -> Seq<EarlyDayMotionSignature> {
    s.filter(supporting_pred()).map_values(signature_fn())
}

/// The stored forms of the withdrawn signatures, in order.
pub open spec fn withdrawn_of(s: Seq<PublishedEarlyDayMotionSponsor>) -> Seq<EarlyDayMotionSignature> {
    s.filter(withdrawn_pred()).map_values(signature_fn())
}

/// Whether `m` is the stored form of the published motion `d`, updated at
/// `now`.
pub open spec fn motion_matches(m: EarlyDayMotion, d: PublishedEarlyDayMotionDetails, now: i64) -> bool {
    &&& m._id == d.motion.id as u32
    &&& m.title@ == text_or_empty(d.motion.title)
    &&& m.motion_text@ == text_or_empty(d.motion.motion_text)
    &&& m.date_tabled == d.motion.date_tabled
    &&& m.status == EarlyDayMotionStatus::spec_from_code(d.motion.status as u8)
    &&& m.status_date == d.motion.status_date
    &&& m.supporting_signatures@ == supporting_of(d.sponsors@)
    &&& m.withdrawn_signatures@ == withdrawn_of(d.sponsors@)
    &&& match (d.motion.amendment_to_motion_id, d.motion.amendment_suffix) {
        (Some(id), Some(suffix)) => m.amends is Some && m.amends->0.motion_id == id as u32
            && m.amends->0.amendment_suffix@ == suffix@,
        _ => m.amends is None,
    }
    &&& m.uin == d.motion.uin as u32
    &&& m._updated == now
}

pub proof fn lemma_filter_take<A>(s: Seq<A>, pred: spec_fn(A) -> bool, i: int)
    requires
        0 <= i < s.len(),
    ensures
        s.take(i + 1).filter(pred) == (if pred(s[i]) {
            s.take(i).filter(pred).push(s[i])
        } else {
            s.take(i).filter(pred)
        }),
{
    reveal(Seq::filter);
    assert(s.take(i + 1).drop_last() =~= s.take(i));
}

impl EarlyDayMotion {
    /// The stored form of a published motion, updated at `now`. Its status
    /// must be 0 or 1 once cast to a byte.
    pub fn from_published(value: &PublishedEarlyDayMotionDetails, now: i64) -> (r: Self)
        requires
            value.motion.status as u8 == 0 || value.motion.status as u8 == 1,
        ensures
            motion_matches(r, *value, now),
    {
        let mut supporting: Vec<EarlyDayMotionSignature> = Vec::new();
        let mut withdrawn: Vec<EarlyDayMotionSignature> = Vec::new();
        let mut i: usize = 0;
        while i < value.sponsors.len()
            invariant
                i <= value.sponsors.len(),
                supporting@ == supporting_of(value.sponsors@.take(i as int)),
                withdrawn@ == withdrawn_of(value.sponsors@.take(i as int)),
            decreases value.sponsors.len() - i,
        {
            let ghost sp = supporting_pred();
            let ghost wd = withdrawn_pred();
            let ghost sig = signature_fn();
            let p = &value.sponsors[i];
            proof {
                lemma_filter_take(value.sponsors@, sp, i as int);
                lemma_filter_take(value.sponsors@, wd, i as int);
            }
            let sig_i = EarlyDayMotionSignature::from_published(p);
            let ghost old_s = supporting@;
            let ghost old_w = withdrawn@;
            let ghost fs = value.sponsors@.take(i as int).filter(sp);
            let ghost fw = value.sponsors@.take(i as int).filter(wd);
            assert(sig(value.sponsors@[i as int]) == sig_i);
            assert(sp(value.sponsors@[i as int]) == (!p.is_withdrawn || p.withdrawn_date.is_none()));
            assert(wd(value.sponsors@[i as int]) == !(!p.is_withdrawn || p.withdrawn_date.is_none()));
            if !p.is_withdrawn || p.withdrawn_date.is_none() {
                supporting.push(sig_i);
                assert(supporting@ =~= value.sponsors@.take(i + 1).filter(sp).map_values(sig));
                assert(withdrawn@ =~= value.sponsors@.take(i + 1).filter(wd).map_values(sig));
            } else {
                withdrawn.push(sig_i);
                assert(supporting@ =~= value.sponsors@.take(i + 1).filter(sp).map_values(sig));
                assert(withdrawn@ =~= value.sponsors@.take(i + 1).filter(wd).map_values(sig));
            }
            i = i + 1;
        }
        assert(value.sponsors@.take(value.sponsors.len() as int) =~= value.sponsors@);
        let amends = match (&value.motion.amendment_to_motion_id, &value.motion.amendment_suffix) {
            (Some(id), Some(suffix)) => Some(
                EarlyDayMotionAmendment { motion_id: *id as u32, amendment_suffix: suffix.clone() },
            ),
            _ => None,
        };
        EarlyDayMotion {
            _id: value.motion.id as u32,
            title: text_or_new(&value.motion.title),
            motion_text: text_or_new(&value.motion.motion_text),
            date_tabled: value.motion.date_tabled,
            status: EarlyDayMotionStatus::from_code(value.motion.status as u8),
            status_date: value.motion.status_date,
            supporting_signatures: supporting,
            withdrawn_signatures: withdrawn,
            amends,
            uin: value.motion.uin as u32,
            _updated: now,
        }
    }
}

/// Each signature of a motion is stored once: as supporting or as withdrawn.
pub proof fn law_signatures_partition(s: Seq<PublishedEarlyDayMotionSponsor>)
    ensures
        supporting_of(s).len() + withdrawn_of(s).len() == s.len(),
    decreases s.len(),
{
    reveal(Seq::filter);
    if s.len() > 0 {
        law_signatures_partition(s.drop_last());
    }
}

/// Different kinds of motion have different numbers.
pub proof fn law_motion_kind_codes_distinct(a: MotionKind, b: MotionKind)
    ensures
        a.spec_code() == b.spec_code() ==> a == b,
{
}

} // verus!
