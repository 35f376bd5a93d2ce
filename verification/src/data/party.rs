use vstd::prelude::*;

use crate::api::member::PublishedParty;
use crate::data::text_or_empty;

verus! {

/// What the dataset adds to a party: nothing yet.
#[derive(Clone, Debug, PartialEq, Eq, Hash, PartialOrd, Ord)]
pub struct PartyExtra {}

impl PartyExtra {
    pub fn from_published(_value: &PublishedParty) -> (r: Self)
        ensures
            r == (PartyExtra {}),
    {
        PartyExtra {}
    }
}

/// A party as the dataset stores it.
#[derive(Clone, Debug, PartialEq, Eq, Hash, PartialOrd, Ord)]
pub struct Party {
    pub _id: u32,
    pub name: String,
    pub abbreviation: String,
    pub background_colour: String,
    pub foreground_colour: String,
    pub is_independent_party: bool,
    pub government_type: Option<u8>,
}

/// Whether `p` is the stored form of the published party `v`: missing texts
/// become empty, numbers are cast to the stored widths.
pub open spec fn party_matches(p: Party, v: PublishedParty) -> bool {
    &&& p._id == v.id as u32
    &&& p.name@ == v.name@
    &&& p.abbreviation@ == text_or_empty(v.abbreviation)
    &&& p.background_colour@ == text_or_empty(v.background_colour)
    &&& p.foreground_colour@ == text_or_empty(v.foreground_colour)
    &&& p.is_independent_party == v.is_independent_party
    &&& p.government_type == match v.government_type {
        Some(t) => Some(t as u8),
        None => None,
    }
}

impl Party {
    pub fn from_published(value: &PublishedParty) -> (r: Self)
        ensures
            party_matches(r, *value),
    {
        Party {
            _id: value.id as u32,
            name: value.name.clone(),
            abbreviation: crate::data::text_or_new(&value.abbreviation),
            background_colour: crate::data::text_or_new(&value.background_colour),
            foreground_colour: crate::data::text_or_new(&value.foreground_colour),
            is_independent_party: value.is_independent_party,
            government_type: match value.government_type {
                Some(t) => Some(t as u8),
                None => None,
            },
        }
    }
}

} // verus!
