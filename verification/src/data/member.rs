use vstd::prelude::*;

use crate::api::member::{
    PublishedHouse, PublishedMember, PublishedMemberBiography, PublishedMemberBiographyItem,
    PublishedMemberRepresentation,
};
use crate::data::{text_or_empty, text_or_new, House};

verus! {

broadcast use vstd::std_specs::vec::group_vec_axioms;

/// What the dataset adds to a member: nothing yet.
#[derive(Clone, Debug, PartialEq, Eq, Hash, PartialOrd, Ord)]
pub struct MemberExtra {}

impl MemberExtra {
    pub fn from_published(_value: &PublishedMember) -> (r: Self)
        ensures
            r == (MemberExtra {}),
    {
        MemberExtra {}
    }
}

/// A member as the dataset stores it; `_updated` is in milliseconds since
/// the Unix epoch.
#[derive(Clone, Debug, PartialEq, Eq, Hash, PartialOrd, Ord)]
pub struct Member {
    pub _id: u32,
    pub name: String,
    pub display_name: String,
    pub full_title: String,
    pub addressed_as: String,
    pub party_id: u32,
    pub gender: String,
    pub biography: MemberBiography,
    pub edms: Vec<u32>,
    pub _updated: i64,
}

/// A member's biography as the dataset stores it.
#[derive(Clone, Debug, Default, PartialEq, Eq, Hash, PartialOrd, Ord)]
pub struct MemberBiography {
    pub representations: Vec<MemberRepresentation>,
    pub elections_contested: Vec<MemberBiographyItem>,
    pub house_memberships: Vec<MemberBiographyItem>,
    pub government_posts: Vec<MemberBiographyItem>,
    pub opposition_posts: Vec<MemberBiographyItem>,
    pub other_posts: Vec<MemberBiographyItem>,
    pub party_affiliations: Vec<MemberBiographyItem>,
    pub committee_memberships: Vec<MemberBiographyItem>,
}

/// An item of a biography; dates are milliseconds since the Unix epoch.
#[derive(Clone, Debug, PartialEq, Eq, Hash, PartialOrd, Ord)]
pub struct MemberBiographyItem {
    pub house: House,
    pub name: String,
    pub id: u32,
    pub start_date: i64,
    pub end_date: Option<i64>,
    pub additional_info: String,
    pub additional_info_link: String,
}

#[derive(Clone, Debug, PartialEq, Eq, Hash, PartialOrd, Ord)]
pub struct MemberRepresentation {
    pub constituency_start: i64,
    pub constituency_end: Option<i64>,
    pub item: MemberBiographyItem,
}

/// A house membership as the dataset stores it.
#[derive(Clone, Debug, PartialEq, Eq, Hash, PartialOrd, Ord)]
pub struct HouseMembership {
    pub house: House,
    pub description: String,
    pub constituency: String,
    pub constituency_id: u32,
    pub start_date: i64,
    pub end_date: Option<i64>,
    pub end_reason: String,
    pub end_reason_id: u32,
    pub end_note: String,
}

/// The stored house of a published house: the house with the same number,
/// or `None` when there is none.
pub open spec fn house_of(h: Option<PublishedHouse>) -> House {
    match h {
        Some(x) => House::spec_from_code(x.spec_code() as u8),
        None => House::Unknown,
    }
}

pub fn house_from(h: Option<PublishedHouse>) -> (r: House)
    ensures
        r == house_of(h),
{
    match h {
        Some(x) => House::from_code(x.code() as u8),
        None => House::Unknown,
    }
}

/// Whether `m` is the stored form of the published item `p`.
pub open spec fn item_matches(m: MemberBiographyItem, p: PublishedMemberBiographyItem) -> bool {
    &&& m.house == house_of(p.house)
    &&& m.name@ == p.name@
    &&& m.id == p.id as u32
    &&& m.start_date == p.start_date
    &&& m.end_date == p.end_date
    &&& m.additional_info@ == text_or_empty(p.additional_info)
    &&& m.additional_info_link@ == text_or_empty(p.additional_info_link)
}

/// Whether `ms` are the stored forms of `ps`, one for one and in order.
pub open spec fn items_match(ms: Seq<MemberBiographyItem>, ps: Seq<PublishedMemberBiographyItem>) -> bool {
    ms.len() == ps.len() && forall|i: int| 0 <= i < ms.len() ==> item_matches(#[trigger] ms[i], ps[i])
}

pub open spec fn representation_matches(m: MemberRepresentation, p: PublishedMemberRepresentation) -> bool {
    &&& m.constituency_start == p.constituency_start
    &&& m.constituency_end == p.constituency_end
    &&& item_matches(m.item, p.item)
}

pub open spec fn representations_match(
    ms: Seq<MemberRepresentation>,
    ps: Seq<PublishedMemberRepresentation>,
) -> bool {
    ms.len() == ps.len() && forall|i: int|
        0 <= i < ms.len() ==> representation_matches(#[trigger] ms[i], ps[i])
}

/// Whether `b` is the stored form of the published biography `p`.
pub open spec fn biography_matches(b: MemberBiography, p: PublishedMemberBiography) -> bool {
    &&& representations_match(b.representations@, p.representations@)
    &&& items_match(b.elections_contested@, p.elections_contested@)
    &&& items_match(b.house_memberships@, p.house_memberships@)
    &&& items_match(b.government_posts@, p.government_posts@)
    &&& items_match(b.opposition_posts@, p.opposition_posts@)
    &&& items_match(b.other_posts@, p.other_posts@)
    &&& items_match(b.party_affiliations@, p.party_affiliations@)
    &&& items_match(b.committee_memberships@, p.committee_memberships@)
}

/// An empty biography: the one stored for a member that came without one.
pub open spec fn biography_is_empty(b: MemberBiography) -> bool {
    &&& b.representations@.len() == 0
    &&& b.elections_contested@.len() == 0
    &&& b.house_memberships@.len() == 0
    &&& b.government_posts@.len() == 0
    &&& b.opposition_posts@.len() == 0
    &&& b.other_posts@.len() == 0
    &&& b.party_affiliations@.len() == 0
    &&& b.committee_memberships@.len() == 0
}

/// The party a member is stored with when the service names none.
pub open spec fn default_party_id() -> u32 {
    1050
}

/// Whether `m` is the stored form of the published member `p`, updated at
/// `now`.
pub open spec fn member_matches(m: Member, p: PublishedMember, now: i64) -> bool {
    &&& m._id == p.id as u32
    &&& m.name@ == text_or_empty(p.name_list_as)
    &&& m.display_name@ == text_or_empty(p.name_display_as)
    &&& m.full_title@ == text_or_empty(p.name_full_title)
    &&& m.addressed_as@ == text_or_empty(p.name_address_as)
    &&& m.party_id == match p.latest_party {
        Some(party) => party.id as u32,
        None => default_party_id(),
    }
    &&& m.gender@ == text_or_empty(p.gender)
    &&& match p.biography {
        Some(b) => biography_matches(m.biography, b),
        None => biography_is_empty(m.biography),
    }
    &&& m.edms@ == match p.edms {
        Some(es) => es@.map_values(|e: crate::api::member::PublishedMemberEdm| e.id as u32),
        None => Seq::empty(),
    }
    &&& m._updated == now
}

impl MemberBiographyItem {
    pub fn from_published(value: &PublishedMemberBiographyItem) -> (r: Self)
        ensures
            item_matches(r, *value),
    {
        MemberBiographyItem {
            house: house_from(value.house),
            name: value.name.clone(),
            id: value.id as u32,
            start_date: value.start_date,
            end_date: value.end_date,
            additional_info: text_or_new(&value.additional_info),
            additional_info_link: text_or_new(&value.additional_info_link),
        }
    }
}

impl MemberRepresentation {
    pub fn from_published(value: &PublishedMemberRepresentation) -> (r: Self)
        ensures
            representation_matches(r, *value),
    {
        MemberRepresentation {
            constituency_start: value.constituency_start,
            constituency_end: value.constituency_end,
            item: MemberBiographyItem::from_published(&value.item),
        }
    }
}

fn convert_items(ps: &Vec<PublishedMemberBiographyItem>) -> (r: Vec<MemberBiographyItem>)
    ensures
        items_match(r@, ps@),
{
    let mut v: Vec<MemberBiographyItem> = Vec::new();
    let mut i: usize = 0;
    while i < ps.len()
        invariant
            i <= ps.len(),
            v@.len() == i,
            forall|j: int| 0 <= j < i ==> item_matches(#[trigger] v@[j], ps@[j]),
        decreases ps.len() - i,
    {
        v.push(MemberBiographyItem::from_published(&ps[i]));
        i = i + 1;
    }
    v
}

fn convert_representations(ps: &Vec<PublishedMemberRepresentation>) -> (r: Vec<MemberRepresentation>)
    ensures
        representations_match(r@, ps@),
{
    let mut v: Vec<MemberRepresentation> = Vec::new();
    let mut i: usize = 0;
    while i < ps.len()
        invariant
            i <= ps.len(),
            v@.len() == i,
            forall|j: int| 0 <= j < i ==> representation_matches(#[trigger] v@[j], ps@[j]),
        decreases ps.len() - i,
    {
        v.push(MemberRepresentation::from_published(&ps[i]));
        i = i + 1;
    }
    v
}

impl MemberBiography {
    pub fn empty() -> (r: Self)
        ensures
            biography_is_empty(r),
    {
        MemberBiography {
            representations: Vec::new(),
            elections_contested: Vec::new(),
            house_memberships: Vec::new(),
            government_posts: Vec::new(),
            opposition_posts: Vec::new(),
            other_posts: Vec::new(),
            party_affiliations: Vec::new(),
            committee_memberships: Vec::new(),
        }
    }

    pub fn from_published(value: &PublishedMemberBiography) -> (r: Self)
        ensures
            biography_matches(r, *value),
    {
        MemberBiography {
            representations: convert_representations(&value.representations),
            elections_contested: convert_items(&value.elections_contested),
            house_memberships: convert_items(&value.house_memberships),
            government_posts: convert_items(&value.government_posts),
            opposition_posts: convert_items(&value.opposition_posts),
            other_posts: convert_items(&value.other_posts),
            party_affiliations: convert_items(&value.party_affiliations),
            committee_memberships: convert_items(&value.committee_memberships),
        }
    }
}

impl Member {
    /// The stored form of a published member, updated at `now`
    /// (milliseconds since the Unix epoch).
    pub fn from_published(value: &PublishedMember, now: i64) -> (r: Self)
        ensures
            member_matches(r, *value, now),
    {
        let biography = match &value.biography {
            Some(b) => MemberBiography::from_published(b),
            None => MemberBiography::empty(),
        };
        let mut edms: Vec<u32> = Vec::new();
        match &value.edms {
            Some(es) => {
                let mut i: usize = 0;
                while i < es.len()
                    invariant
                        i <= es.len(),
                        edms@ =~= es@.take(i as int).map_values(
                            |e: crate::api::member::PublishedMemberEdm| e.id as u32,
                        ),
                    decreases es.len() - i,
                {
                    edms.push(es[i].id as u32);
                    i = i + 1;
                }
                assert(es@.take(es.len() as int) =~= es@);
            },
            None => {},
        }
        Member {
            _id: value.id as u32,
            name: text_or_new(&value.name_list_as),
            display_name: text_or_new(&value.name_display_as),
            full_title: text_or_new(&value.name_full_title),
            addressed_as: text_or_new(&value.name_address_as),
            party_id: match &value.latest_party {
                Some(p) => p.id as u32,
                None => 1050,
            },
            gender: text_or_new(&value.gender),
            biography,
            edms,
            _updated: now,
        }
    }
}

} // verus!
