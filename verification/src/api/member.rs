use vstd::prelude::*;

use crate::api::PageStep;
use crate::data::member::Member;
use crate::data::{age_secs, elapsed_secs};
use crate::text::{concat_text, decimal, decimal_text};
use vstd::string::StrSliceExecFns;

verus! {

broadcast use vstd::std_specs::vec::group_vec_axioms;

/// A member record from the members service that breaks the rules the
/// dataset relies on.
#[derive(Clone, Debug, PartialEq, Eq, Hash)]
pub enum PublishedMemberDataError {
    /// The member id was < 1.
    InvalidID(i32),
    /// The member's Pims id was < 1.
    InvalidPimsID(i32, i32),
    /// One of the member's early day motion ids was < 1.
    InvalidEarlyDayMotionID(i32, i32),
    /// The constituency id of the latest house membership was < 1.
    InvalidMembershipConstituencyID(i32, i32),
    /// The end reason id of the latest house membership was < 1.
    InvalidMembershipEndReasonID(i32, i32),
    /// The id of an item of the member's biography was < 1.
    InvalidBiographyItemID(i32, i32),
    /// A start date (milliseconds since the Unix epoch) was before an end date.
    InvalidDates(i32, i64, i64),
}

/// The address of a member's record.
pub open spec fn member_url(member_id: i32) -> Seq<char> {
    "https://members-api.parliament.uk/api/Members/"@ + decimal(member_id as int)
}

/// Asks for one member.
pub struct RequestMember {
    pub member_id: i32,
}

impl RequestMember {
    pub fn new(member_id: i32) -> (r: Self)
        ensures
            r.member_id == member_id,
    {
        Self { member_id }
    }

    pub fn url(&self) -> (r: String)
        ensures
            r@ == member_url(self.member_id),
    {
        concat_text(
            "https://members-api.parliament.uk/api/Members/",
            decimal_text(self.member_id as i64).as_str(),
        )
    }
}

/// Asks for one page of the early day motions a member signed.
pub struct RequestMemberEdmList {
    pub member_id: i32,
    pub page: i32,
}

impl RequestMemberEdmList {
    pub fn new(member_id: i32, page: i32) -> (r: Self)
        ensures
            r.member_id == member_id,
            r.page == page,
    {
        Self { member_id, page }
    }

    pub fn url(&self) -> (r: String)
        ensures
            r@ == member_url(self.member_id) + "/Edms?page="@ + decimal(self.page as int),
    {
        let base = self_member_url(self.member_id);
        let a = base.concat("/Edms?page=");
        a.concat(decimal_text(self.page as i64).as_str())
    }
}

fn self_member_url(member_id: i32) -> (r: String)
    ensures
        r@ == member_url(member_id),
{
    concat_text(
        "https://members-api.parliament.uk/api/Members/",
        decimal_text(member_id as i64).as_str(),
    )
}

/// Asks for a member's biography.
pub struct RequestMemberBiography {
    pub member_id: i32,
}

impl RequestMemberBiography {
    pub fn new(member_id: i32) -> (r: Self)
        ensures
            r.member_id == member_id,
    {
        Self { member_id }
    }

    pub fn url(&self) -> (r: String)
        ensures
            r@ == member_url(self.member_id) + "/Biography"@,
    {
        self_member_url(self.member_id).concat("/Biography")
    }
}

/// The house of Parliament, as the members service numbers it.
#[derive(Clone, Copy, Debug, PartialEq, Eq, Hash, PartialOrd, Ord)]
pub enum PublishedHouse {
    Commons,
    Lords,
}

impl PublishedHouse {
    /// The number the service gives the house.
    pub open spec fn spec_code(self) -> i32 {
        match self {
            PublishedHouse::Commons => 1,
            PublishedHouse::Lords => 2,
        }
    }

    pub fn code(&self) -> (r: i32)
        ensures
            r == self.spec_code(),
    {
        match self {
            PublishedHouse::Commons => 1,
            PublishedHouse::Lords => 2,
        }
    }
}

/// Asks for a page of the member search.
pub struct RequestMemberList {
    pub name: Option<String>,
    pub house: Option<PublishedHouse>,
    pub is_current_member: Option<bool>,
    pub skip: Option<i32>,
    pub take: Option<i32>,
}

/// `prefix`, the value and `&`, or nothing when there is no value.
pub open spec fn param(prefix: Seq<char>, value: Option<Seq<char>>) -> Seq<char> {
    match value {
        Some(v) => prefix + v + "&"@,
        None => Seq::empty(),
    }
}

/// `s` without its last character, if it has one.
pub open spec fn without_last(s: Seq<char>) -> Seq<char> {
    if s.len() > 0 {
        s.drop_last()
    } else {
        s
    }
}

/// The text of a boolean, as `Display` writes it.
pub open spec fn bool_text(b: bool) -> Seq<char> {
    if b {
        "true"@
    } else {
        "false"@
    }
}

pub fn bool_text_of(b: bool) -> (r: &'static str)
    ensures
        r@ == bool_text(b),
{
    if b {
        "true"
    } else {
        "false"
    }
}

/// The decimal text of an optional number.
pub open spec fn opt_decimal(v: Option<i32>) -> Option<Seq<char>> {
    match v {
        Some(x) => Some(decimal(x as int)),
        None => None,
    }
}

pub open spec fn opt_view(v: Option<String>) -> Option<Seq<char>> {
    match v {
        Some(x) => Some(x@),
        None => None,
    }
}

/// The query string of a member search.
pub open spec fn member_list_query(l: RequestMemberList) -> Seq<char> {
    without_last(
        param("Name="@, opt_view(l.name)) + param(
            "House="@,
            match l.house {
                Some(h) => Some(decimal(h.spec_code() as int)),
                None => None,
            },
        ) + param(
            "IsCurrentMember="@,
            match l.is_current_member {
                Some(b) => Some(bool_text(b)),
                None => None,
            },
        ) + param("skip="@, opt_decimal(l.skip)) + param("take="@, opt_decimal(l.take)),
    )
}

/// Adds `prefix`, `value` and `&` to the end of `s`.
pub fn push_param(s: String, prefix: &str, value: &str) -> (r: String)
    ensures
        r@ == s@ + param(prefix@, Some(value@)),
{
    let r = s.concat(prefix).concat(value).concat("&");
    assert(r@ =~= s@ + (prefix@ + value@ + "&"@));
    r
}

/// Removes the last character of `s`, if it has one.
pub fn pop_last(s: String) -> (r: String)
    ensures
        r@ == without_last(s@),
{
    let n = s.as_str().unicode_len();
    if n == 0 {
        s
    } else {
        String::from_str(s.as_str().substring_char(0, n - 1))
    }
}

impl RequestMemberList {
    pub fn new(skip: i32, take: i32) -> (r: Self)
        ensures
            r.name is None,
            r.house is None,
            r.is_current_member is None,
            r.skip == Some(skip),
            r.take == Some(take),
    {
        Self { name: None, house: None, is_current_member: None, skip: Some(skip), take: Some(take) }
    }

    pub fn query_string(&self) -> (r: String)
        ensures
            r@ == member_list_query(*self),
    {
        let mut q = String::new();
        let ghost g0 = q@;
        match &self.name {
            Some(name) => {
                q = push_param(q, "Name=", name.as_str());
            },
            None => {},
        }
        let ghost g1 = q@;
        assert(g1 == g0 + param("Name="@, opt_view(self.name)));
        match &self.house {
            Some(h) => {
                q = push_param(q, "House=", decimal_text(h.code() as i64).as_str());
            },
            None => {},
        }
        let ghost g2 = q@;
        match &self.is_current_member {
            Some(b) => {
                q = push_param(q, "IsCurrentMember=", bool_text_of(*b));
            },
            None => {},
        }
        let ghost g3 = q@;
        match self.skip {
            Some(skip) => {
                q = push_param(q, "skip=", decimal_text(skip as i64).as_str());
            },
            None => {},
        }
        let ghost g4 = q@;
        match self.take {
            Some(take) => {
                q = push_param(q, "take=", decimal_text(take as i64).as_str());
            },
            None => {},
        }
        proof {
            let h = match self.house {
                Some(h) => Some(decimal(h.spec_code() as int)),
                None => None,
            };
            let c = match self.is_current_member {
                Some(b) => Some(bool_text(b)),
                None => None,
            };
            assert(q@ =~= param("Name="@, opt_view(self.name)) + param("House="@, h) + param(
                "IsCurrentMember="@,
                c,
            ) + param("skip="@, opt_decimal(self.skip)) + param("take="@, opt_decimal(self.take)));
        }
        pop_last(q)
    }

    pub fn url(&self) -> (r: String)
        ensures
            r@ == "https://members-api.parliament.uk/api/Members/Search?"@ + member_list_query(*self),
    {
        concat_text(
            "https://members-api.parliament.uk/api/Members/Search?",
            self.query_string().as_str(),
        )
    }
}

/// An early day motion as listed for a member.
#[derive(Clone, Debug, PartialEq, Eq)]
pub struct PublishedMemberEdm {
    pub title: Option<String>,
    pub number: Option<String>,
    pub is_prayer: Option<bool>,
    pub is_amendment: Option<bool>,
    pub id: i32,
    /// Milliseconds since the Unix epoch.
    pub date_tabled: i64,
    pub sponsors_count: Option<i32>,
}

/// A copy of an optional text.
pub fn copy_opt_string(o: &Option<String>) -> (r: Option<String>)
    ensures
        r == *o,
{
    match o {
        Some(s) => Some(s.clone()),
        None => None,
    }
}

impl PublishedMemberEdm {
    pub fn copy(&self) -> (r: Self)
        ensures
            r == *self,
    {
        PublishedMemberEdm {
            title: copy_opt_string(&self.title),
            number: copy_opt_string(&self.number),
            is_prayer: self.is_prayer,
            is_amendment: self.is_amendment,
            id: self.id,
            date_tabled: self.date_tabled,
            sponsors_count: self.sponsors_count,
        }
    }
}

/// A member as the members service gives it, with the biography and
/// early day motions that are fetched separately.
#[derive(Clone, Debug, PartialEq, Eq)]
pub struct PublishedMember {
    pub id: i32,
    pub name_list_as: Option<String>,
    pub name_display_as: Option<String>,
    pub name_full_title: Option<String>,
    pub name_address_as: Option<String>,
    pub latest_party: Option<PublishedParty>,
    pub gender: Option<String>,
    pub latest_house_membership: PublishedHouseMembership,
    pub thumbnail_url: Option<String>,
    pub biography: Option<PublishedMemberBiography>,
    pub edms: Option<Vec<PublishedMemberEdm>>,
}

#[derive(Clone, Debug, PartialEq, Eq)]
pub struct PublishedParty {
    pub id: i32,
    pub name: String,
    pub abbreviation: Option<String>,
    pub background_colour: Option<String>,
    pub foreground_colour: Option<String>,
    pub is_lords_main_party: Option<bool>,
    pub is_lords_spiritual_party: Option<bool>,
    pub government_type: Option<i32>,
    pub is_independent_party: bool,
}

/// A house membership; dates are milliseconds since the Unix epoch.
#[derive(Clone, Debug, PartialEq, Eq)]
pub struct PublishedHouseMembership {
    pub membership_from: Option<String>,
    pub membership_from_id: Option<i32>,
    pub house: Option<PublishedHouse>,
    pub membership_start_date: i64,
    pub membership_end_date: Option<i64>,
    pub membership_end_reason: Option<String>,
    pub membership_end_reason_notes: Option<String>,
    pub membership_end_reason_id: Option<i32>,
    pub membership_status: Option<PublishedHouseMembershipStatus>,
}

#[derive(Clone, Debug, PartialEq, Eq)]
pub struct PublishedHouseMembershipStatus {
    pub status_is_active: bool,
    pub status_description: String,
    pub status_notes: Option<String>,
    pub status_id: Option<i32>,
    pub status: Option<i32>,
    pub status_start_date: i64,
}

#[derive(Clone, Debug, PartialEq, Eq)]
pub struct PublishedMemberBiography {
    pub representations: Vec<PublishedMemberRepresentation>,
    pub elections_contested: Vec<PublishedMemberBiographyItem>,
    pub house_memberships: Vec<PublishedMemberBiographyItem>,
    pub government_posts: Vec<PublishedMemberBiographyItem>,
    pub opposition_posts: Vec<PublishedMemberBiographyItem>,
    pub other_posts: Vec<PublishedMemberBiographyItem>,
    pub party_affiliations: Vec<PublishedMemberBiographyItem>,
    pub committee_memberships: Vec<PublishedMemberBiographyItem>,
}

/// An item of a biography; dates are milliseconds since the Unix epoch.
#[derive(Clone, Debug, PartialEq, Eq)]
pub struct PublishedMemberBiographyItem {
    pub house: Option<PublishedHouse>,
    pub name: String,
    pub id: i32,
    pub start_date: i64,
    pub end_date: Option<i64>,
    pub additional_info: Option<String>,
    pub additional_info_link: Option<String>,
}

#[derive(Clone, Debug, PartialEq, Eq)]
pub struct PublishedMemberRepresentation {
    pub constituency_start: i64,
    pub constituency_end: Option<i64>,
    pub item: PublishedMemberBiographyItem,
}

/// The first id below 1, in order.
pub open spec fn first_invalid(ids: Seq<i32>) -> Option<i32>
    decreases ids.len(),
{
    if ids.len() == 0 {
        None
    } else if ids[0] < 1 {
        Some(ids[0])
    } else {
        first_invalid(ids.drop_first())
    }
}

pub proof fn lemma_first_invalid_at(ids: Seq<i32>, i: int)
    requires
        0 <= i < ids.len(),
        ids[i] < 1,
        forall|j: int| 0 <= j < i ==> ids[j] >= 1,
    ensures
        first_invalid(ids) == Some(ids[i]),
    decreases i,
{
    if i > 0 {
        lemma_first_invalid_at(ids.drop_first(), i - 1);
    }
}

pub proof fn lemma_first_invalid_none(ids: Seq<i32>)
    requires
        forall|j: int| 0 <= j < ids.len() ==> ids[j] >= 1,
    ensures
        first_invalid(ids) is None,
    decreases ids.len(),
{
    if ids.len() > 0 {
        lemma_first_invalid_none(ids.drop_first());
    }
}

pub proof fn lemma_first_invalid_append(a: Seq<i32>, b: Seq<i32>)
    requires
        first_invalid(a) is None,
    ensures
        first_invalid(a + b) == first_invalid(b),
    decreases a.len(),
{
    if a.len() > 0 {
        assert((a + b).drop_first() =~= a.drop_first() + b);
        lemma_first_invalid_append(a.drop_first(), b);
    } else {
        assert(a + b =~= b);
    }
}

pub proof fn lemma_first_invalid_append_some(a: Seq<i32>, b: Seq<i32>)
    requires
        first_invalid(a) is Some,
    ensures
        first_invalid(a + b) == first_invalid(a),
    decreases a.len(),
{
    if a[0] >= 1 {
        assert((a + b).drop_first() =~= a.drop_first() + b);
        lemma_first_invalid_append_some(a.drop_first(), b);
    }
}

pub open spec fn item_ids(items: Seq<PublishedMemberBiographyItem>) -> Seq<i32> {
    items.map_values(|x: PublishedMemberBiographyItem| x.id)
}

pub open spec fn representation_ids(items: Seq<PublishedMemberRepresentation>) -> Seq<i32> {
    items.map_values(|x: PublishedMemberRepresentation| x.item.id)
}

pub open spec fn edm_ids(items: Seq<PublishedMemberEdm>) -> Seq<i32> {
    items.map_values(|x: PublishedMemberEdm| x.id)
}

/// The ids of a biography, in the order in which they are checked.
pub open spec fn biography_ids(b: PublishedMemberBiography) -> Seq<i32> {
    item_ids(b.committee_memberships@) + item_ids(b.elections_contested@) + item_ids(
        b.government_posts@,
    ) + item_ids(b.house_memberships@) + item_ids(b.opposition_posts@) + item_ids(b.other_posts@)
        + item_ids(b.party_affiliations@) + representation_ids(b.representations@)
}

/// What checking a member gives: the first rule it breaks, in the order
/// member id, early day motion ids, constituency id, end reason id, then
/// the ids of its biography.
pub open spec fn member_check(m: PublishedMember) -> Result<(), PublishedMemberDataError> {
    if m.id < 1 {
        Err(PublishedMemberDataError::InvalidID(m.id))
    } else if m.edms is Some && first_invalid(edm_ids(m.edms->0@)) is Some {
        Err(
            PublishedMemberDataError::InvalidEarlyDayMotionID(
                m.id,
                first_invalid(edm_ids(m.edms->0@))->0,
            ),
        )
    } else if m.latest_house_membership.membership_from_id matches Some(x) && x < 1 {
        Err(
            PublishedMemberDataError::InvalidMembershipConstituencyID(
                m.id,
                m.latest_house_membership.membership_from_id->0,
            ),
        )
    } else if m.latest_house_membership.membership_end_reason_id matches Some(x) && x < 1 {
        Err(
            PublishedMemberDataError::InvalidMembershipEndReasonID(
                m.id,
                m.latest_house_membership.membership_end_reason_id->0,
            ),
        )
    } else if m.biography is Some && first_invalid(biography_ids(m.biography->0)) is Some {
        Err(
            PublishedMemberDataError::InvalidBiographyItemID(
                m.id,
                first_invalid(biography_ids(m.biography->0))->0,
            ),
        )
    } else {
        Ok(())
    }
}

fn first_invalid_item(items: &Vec<PublishedMemberBiographyItem>) -> (r: Option<i32>)
    ensures
        r == first_invalid(item_ids(items@)),
{
    let mut i: usize = 0;
    while i < items.len()
        invariant
            i <= items.len(),
            forall|j: int| 0 <= j < i ==> item_ids(items@)[j] >= 1,
        decreases items.len() - i,
    {
        if items[i].id < 1 {
            proof {
                lemma_first_invalid_at(item_ids(items@), i as int);
            }
            return Some(items[i].id);
        }
        i = i + 1;
    }
    proof {
        lemma_first_invalid_none(item_ids(items@));
    }
    None
}

fn first_invalid_representation(items: &Vec<PublishedMemberRepresentation>) -> (r: Option<i32>)
    ensures
        r == first_invalid(representation_ids(items@)),
{
    let mut i: usize = 0;
    while i < items.len()
        invariant
            i <= items.len(),
            forall|j: int| 0 <= j < i ==> representation_ids(items@)[j] >= 1,
        decreases items.len() - i,
    {
        if items[i].item.id < 1 {
            proof {
                lemma_first_invalid_at(representation_ids(items@), i as int);
            }
            return Some(items[i].item.id);
        }
        i = i + 1;
    }
    proof {
        lemma_first_invalid_none(representation_ids(items@));
    }
    None
}

fn first_invalid_edm(items: &Vec<PublishedMemberEdm>) -> (r: Option<i32>)
    ensures
        r == first_invalid(edm_ids(items@)),
{
    let mut i: usize = 0;
    while i < items.len()
        invariant
            i <= items.len(),
            forall|j: int| 0 <= j < i ==> edm_ids(items@)[j] >= 1,
        decreases items.len() - i,
    {
        if items[i].id < 1 {
            proof {
                lemma_first_invalid_at(edm_ids(items@), i as int);
            }
            return Some(items[i].id);
        }
        i = i + 1;
    }
    proof {
        lemma_first_invalid_none(edm_ids(items@));
    }
    None
}

fn first_invalid_biography(b: &PublishedMemberBiography) -> (r: Option<i32>)
    ensures
        r == first_invalid(biography_ids(*b)),
{
    let ghost a1 = item_ids(b.committee_memberships@);
    let ghost a2 = item_ids(b.elections_contested@);
    let ghost a3 = item_ids(b.government_posts@);
    let ghost a4 = item_ids(b.house_memberships@);
    let ghost a5 = item_ids(b.opposition_posts@);
    let ghost a6 = item_ids(b.other_posts@);
    let ghost a7 = item_ids(b.party_affiliations@);
    let ghost a8 = representation_ids(b.representations@);
    let r1 = first_invalid_item(&b.committee_memberships);
    proof {
        if r1 is Some {
            lemma_first_invalid_append_some(a1, a2 + a3 + a4 + a5 + a6 + a7 + a8);
        } else {
            lemma_first_invalid_append(a1, a2 + a3 + a4 + a5 + a6 + a7 + a8);
        }
        assert(biography_ids(*b) =~= a1 + (a2 + a3 + a4 + a5 + a6 + a7 + a8));
    }
    if r1.is_some() {
        return r1;
    }
    let r2 = first_invalid_item(&b.elections_contested);
    proof {
        if r2 is Some {
            lemma_first_invalid_append_some(a2, a3 + a4 + a5 + a6 + a7 + a8);
        } else {
            lemma_first_invalid_append(a2, a3 + a4 + a5 + a6 + a7 + a8);
        }
        assert(a2 + a3 + a4 + a5 + a6 + a7 + a8 =~= a2 + (a3 + a4 + a5 + a6 + a7 + a8));
    }
    if r2.is_some() {
        return r2;
    }
    let r3 = first_invalid_item(&b.government_posts);
    proof {
        if r3 is Some {
            lemma_first_invalid_append_some(a3, a4 + a5 + a6 + a7 + a8);
        } else {
            lemma_first_invalid_append(a3, a4 + a5 + a6 + a7 + a8);
        }
        assert(a3 + a4 + a5 + a6 + a7 + a8 =~= a3 + (a4 + a5 + a6 + a7 + a8));
    }
    if r3.is_some() {
        return r3;
    }
    let r4 = first_invalid_item(&b.house_memberships);
    proof {
        if r4 is Some {
            lemma_first_invalid_append_some(a4, a5 + a6 + a7 + a8);
        } else {
            lemma_first_invalid_append(a4, a5 + a6 + a7 + a8);
        }
        assert(a4 + a5 + a6 + a7 + a8 =~= a4 + (a5 + a6 + a7 + a8));
    }
    if r4.is_some() {
        return r4;
    }
    let r5 = first_invalid_item(&b.opposition_posts);
    proof {
        if r5 is Some {
            lemma_first_invalid_append_some(a5, a6 + a7 + a8);
        } else {
            lemma_first_invalid_append(a5, a6 + a7 + a8);
        }
        assert(a5 + a6 + a7 + a8 =~= a5 + (a6 + a7 + a8));
    }
    if r5.is_some() {
        return r5;
    }
    let r6 = first_invalid_item(&b.other_posts);
    proof {
        if r6 is Some {
            lemma_first_invalid_append_some(a6, a7 + a8);
        } else {
            lemma_first_invalid_append(a6, a7 + a8);
        }
        assert(a6 + a7 + a8 =~= a6 + (a7 + a8));
    }
    if r6.is_some() {
        return r6;
    }
    let r7 = first_invalid_item(&b.party_affiliations);
    proof {
        if r7 is Some {
            lemma_first_invalid_append_some(a7, a8);
        } else {
            lemma_first_invalid_append(a7, a8);
        }
    }
    if r7.is_some() {
        return r7;
    }
    first_invalid_representation(&b.representations)
}

/// Checks a member record, as the dataset requires before storing it.
pub fn check_member(member: &PublishedMember) -> (r: Result<(), PublishedMemberDataError>)
    ensures
        r == member_check(*member),
{
    if member.id < 1 {
        return Err(PublishedMemberDataError::InvalidID(member.id));
    }
    match &member.edms {
        Some(edms) => {
            match first_invalid_edm(edms) {
                Some(id) => {
                    return Err(PublishedMemberDataError::InvalidEarlyDayMotionID(member.id, id));
                },
                None => {},
            }
        },
        None => {},
    }
    match member.latest_house_membership.membership_from_id {
        Some(x) => {
            if x < 1 {
                return Err(
                    PublishedMemberDataError::InvalidMembershipConstituencyID(member.id, x),
                );
            }
        },
        None => {},
    }
    match member.latest_house_membership.membership_end_reason_id {
        Some(x) => {
            if x < 1 {
                return Err(PublishedMemberDataError::InvalidMembershipEndReasonID(member.id, x));
            }
        },
        None => {},
    }
    match &member.biography {
        Some(b) => {
            match first_invalid_biography(b) {
                Some(id) => {
                    return Err(PublishedMemberDataError::InvalidBiographyItemID(member.id, id));
                },
                None => {},
            }
        },
        None => {},
    }
    Ok(())
}

/// One year, in seconds.
pub open spec fn year_secs() -> int {
    31536000int
}

/// Whether an early day motion id is already known: stored with one of the
/// cached members, or already collected.
pub open spec fn member_edm_known(
    id: i32,
    cached: Seq<Member>,
    collected: Seq<PublishedMemberEdm>,
) -> bool {
    (exists|i: int| 0 <= i < cached.len() && cached[i].edms@.contains(id as u32))
        || (exists|j: int| 0 <= j < collected.len() && #[trigger] collected[j].id == id)
}

/// What one page of a member's early day motions adds to those collected,
/// and whether the collection ends with it. It ends at an empty page, at a
/// page whose motions are all known, and at the first motion tabled more
/// than a year before `now`; the motions before that one are added.
pub open spec fn member_edm_page(
    page: Seq<PublishedMemberEdm>,
    cached: Seq<Member>,
    collected: Seq<PublishedMemberEdm>,
    now: i64,
) -> (Seq<PublishedMemberEdm>, bool) {
    if page.len() == 0 || (forall|k: int|
        0 <= k < page.len() ==> member_edm_known(#[trigger] page[k].id, cached, collected)) {
        (collected, true)
    } else if exists|k: int|
        0 <= k < page.len() && age_secs(now, #[trigger] page[k].date_tabled) > year_secs() {
        let k = choose|k: int|
            0 <= k < page.len() && age_secs(now, #[trigger] page[k].date_tabled) > year_secs()
                && forall|l: int| 0 <= l < k ==> age_secs(now, page[l].date_tabled) <= year_secs();
        (collected + page.take(k), true)
    } else {
        (collected + page, false)
    }
}

fn edm_known(id: i32, cached: &Vec<Member>, collected: &Vec<PublishedMemberEdm>) -> (r: bool)
    ensures
        r == member_edm_known(id, cached@, collected@),
{
    let mut i: usize = 0;
    while i < cached.len()
        invariant
            i <= cached.len(),
            forall|k: int| 0 <= k < i ==> !cached@[k].edms@.contains(id as u32),
        decreases cached.len() - i,
    {
        let m = &cached[i];
        let mut j: usize = 0;
        while j < m.edms.len()
            invariant
                i < cached.len(),
                *m == cached@[i as int],
                j <= m.edms.len(),
                forall|l: int| 0 <= l < j ==> m.edms@[l] != id as u32,
            decreases m.edms.len() - j,
        {
            if m.edms[j] == id as u32 {
                assert(cached@[i as int].edms@[j as int] == id as u32);
                assert(cached@[i as int].edms@.contains(id as u32));
                return true;
            }
            j = j + 1;
        }
        assert(!cached@[i as int].edms@.contains(id as u32));
        i = i + 1;
    }
    let mut j: usize = 0;
    while j < collected.len()
        invariant
            j <= collected.len(),
            forall|l: int| 0 <= l < j ==> collected@[l].id != id,
        decreases collected.len() - j,
    {
        if collected[j].id == id {
            return true;
        }
        j = j + 1;
    }
    false
}

/// Takes one page of a member's early day motions into those collected,
/// returning whether the collection is finished.
pub fn take_member_edm_page(
    page: &Vec<PublishedMemberEdm>,
    cached: &Vec<Member>,
    collected: &mut Vec<PublishedMemberEdm>,
    now: i64,
) -> (finished: bool)
    ensures
        (final(collected)@, finished) == member_edm_page(page@, cached@, old(collected)@, now),
{
    if page.len() == 0 {
        return true;
    }
    let mut all_known = true;
    let mut k: usize = 0;
    while k < page.len()
        invariant
            k <= page.len(),
            all_known == (forall|l: int|
                0 <= l < k ==> member_edm_known(#[trigger] page@[l].id, cached@, collected@)),
        decreases page.len() - k,
    {
        if !edm_known(page[k].id, cached, collected) {
            all_known = false;
        }
        k = k + 1;
    }
    if all_known {
        return true;
    }
    let ghost start = collected@;
    let mut k: usize = 0;
    while k < page.len()
        invariant
            k <= page.len(),
            collected@ == start + page@.take(k as int),
            start == old(collected)@,
            page@.len() > 0,
            !(forall|l: int|
                0 <= l < page@.len() ==> member_edm_known(#[trigger] page@[l].id, cached@, start)),
            forall|l: int| 0 <= l < k ==> age_secs(now, #[trigger] page@[l].date_tabled) <= year_secs(),
        decreases page.len() - k,
    {
        if elapsed_secs(now, page[k].date_tabled) > 31536000 {
            proof {
                let k0 = k as int;
                assert(age_secs(now, page@[k0].date_tabled) > year_secs());
                let c = choose|c: int|
                    0 <= c < page@.len() && age_secs(now, #[trigger] page@[c].date_tabled) > year_secs()
                        && forall|l: int| 0 <= l < c ==> age_secs(now, page@[l].date_tabled) <= year_secs();
                assert(c == k0);
            }
            return true;
        }
        collected.push(page[k].copy());
        assert(start + page@.take(k + 1) =~= (start + page@.take(k as int)).push(page@[k as int]));
        k = k + 1;
    }
    assert(page@.take(page.len() as int) =~= page@);
    false
}

/// Whether a member of a search page still has to be fetched: it is not
/// among the cached members, nor among those already collected.
pub open spec fn member_is_new(
    id: i32,
    cached: Seq<Member>,
    collected: Seq<PublishedMember>,
) -> bool {
    !(exists|i: int| 0 <= i < cached.len() && #[trigger] cached[i]._id == id as u32) && !(exists|
        j: int,
    | 0 <= j < collected.len() && #[trigger] collected[j].id == id)
}

pub fn is_new_member(id: i32, cached: &Vec<Member>, collected: &Vec<PublishedMember>) -> (r: bool)
    ensures
        r == member_is_new(id, cached@, collected@),
{
    let mut i: usize = 0;
    while i < cached.len()
        invariant
            i <= cached.len(),
            forall|k: int| 0 <= k < i ==> cached@[k]._id != id as u32,
        decreases cached.len() - i,
    {
        if cached[i]._id == id as u32 {
            return false;
        }
        i = i + 1;
    }
    let mut j: usize = 0;
    while j < collected.len()
        invariant
            j <= collected.len(),
            forall|l: int| 0 <= l < j ==> collected@[l].id != id,
        decreases collected.len() - j,
    {
        if collected[j].id == id {
            return false;
        }
        j = j + 1;
    }
    true
}

/// The next step through a page of a member search, from index `from` on:
/// an empty page ends the collection; otherwise the first member from
/// `from` on that is new (see [`member_is_new`]) is fetched, and when there
/// is none the next page is asked for.
pub fn next_member_step(
    page: &Vec<PublishedMember>,
    from: usize,
    cached: &Vec<Member>,
    collected: &Vec<PublishedMember>,
) -> (r: PageStep)
    ensures
        page@.len() == 0 ==> r == PageStep::Finished,
        page@.len() > 0 ==> match r {
            PageStep::Fetch(i) => from <= i < page@.len() && member_is_new(page@[i as int].id, cached@, collected@)
                && forall|k: int| from <= k < i ==> !member_is_new(#[trigger] page@[k].id, cached@, collected@),
            PageStep::NextPage => forall|k: int|
                from <= k < page@.len() ==> !member_is_new(#[trigger] page@[k].id, cached@, collected@),
            PageStep::Finished => false,
        },
{
    if page.len() == 0 {
        return PageStep::Finished;
    }
    let mut i: usize = from;
    while i < page.len()
        invariant
            from <= i,
            page@.len() > 0,
            forall|k: int| from <= k < i ==> !member_is_new(#[trigger] page@[k].id, cached@, collected@),
        decreases page.len() - i,
    {
        if is_new_member(page[i].id, cached, collected) {
            return PageStep::Fetch(i);
        }
        i = i + 1;
    }
    PageStep::NextPage
}

} // verus!
