use edmdata::api::edm::{
    check_amendments, check_early_day_motion, needs_fetch, next_motion_to_fetch, next_party_lookup,
    set_signer_party, MemberForDate,
    PublishedEarlyDayMotion, PublishedEarlyDayMotionDataError, PublishedEarlyDayMotionDetails,
    PublishedEarlyDayMotionSponsor,
};
use edmdata::api::member::{
    check_member, is_new_member, next_member_step, PublishedHouseMembership, PublishedMember,
    PublishedMemberBiography, PublishedMemberBiographyItem, PublishedMemberDataError,
    PublishedMemberEdm,
};
use edmdata::api::si::{
    check_business_items, check_statutory_instrument, next_si_step, si_too_old, PublishedBusinessItem,
    PublishedEnablingAct, PublishedLayingBody, PublishedProcedureDetails,
    PublishedStatutoryInstrument, PublishedStatutoryInstrumentDataError,
    PublishedStatutoryInstrumentSmall, PublishedStatutoryInstrumentSummary,
};
use edmdata::api::PageStep;
use edmdata::data::edm::{EarlyDayMotion, EarlyDayMotionStatus};

fn member_for_date(id: i32, party_id: Option<i32>) -> MemberForDate {
    MemberForDate {
        mnis_id: id,
        pims_id: None,
        name: "A Member".to_string(),
        list_as: "Member, A".to_string(),
        constituency: None,
        status: "Active".to_string(),
        party: None,
        party_id,
        party_colour: None,
        photo_url: None,
    }
}

fn sponsor(id: i32, member_id: i32, withdrawn: bool, date: Option<i64>) -> PublishedEarlyDayMotionSponsor {
    PublishedEarlyDayMotionSponsor {
        id,
        member_id,
        member: member_for_date(member_id, Some(4)),
        sponsoring_order: None,
        created_when: 1_000,
        is_withdrawn: withdrawn,
        withdrawn_date: date,
    }
}

fn motion(id: i32, member_id: i32, sponsor_id: i32) -> PublishedEarlyDayMotion {
    PublishedEarlyDayMotion {
        id,
        status: 0,
        status_date: 2_000,
        member_id,
        primary_sponsor: member_for_date(sponsor_id, Some(4)),
        title: Some("A title".to_string()),
        motion_text: None,
        amendment_to_motion_id: None,
        uin: 12,
        amendment_suffix: None,
        date_tabled: 3_000,
        praying_against_negative_statutory_instrument_id: None,
        statutory_instrument_number: None,
        statutory_instrument_year: None,
        statutory_instrument_title: None,
        uin_with_amendment_suffix: "12".to_string(),
        sponsors_count: 0,
    }
}

fn details(m: PublishedEarlyDayMotion, sponsors: Vec<PublishedEarlyDayMotionSponsor>) -> PublishedEarlyDayMotionDetails {
    PublishedEarlyDayMotionDetails { sponsors, amendments: Vec::new(), motion: m }
}

#[test]
fn motion_checks_pass_on_a_valid_motion() {
    let d = details(motion(5, 7, 7), vec![sponsor(1, 7, false, None), sponsor(2, 8, true, Some(9))]);
    assert_eq!(check_early_day_motion(&d), Ok(()));
    assert_eq!(check_amendments(&d), Ok(()));
    assert_eq!(next_party_lookup(&d, 0), Ok(None));
}

#[test]
fn motion_check_errors() {
    type E = PublishedEarlyDayMotionDataError;
    assert_eq!(check_early_day_motion(&details(motion(0, 7, 7), vec![])), Err(E::InvalidID(0)));
    assert_eq!(check_early_day_motion(&details(motion(5, 0, 7), vec![])), Err(E::InvalidMemberID(5, 0)));
    assert_eq!(
        check_early_day_motion(&details(motion(5, 7, -1), vec![])),
        Err(E::InvalidPrimarySponsorID(5, -1))
    );
    assert_eq!(
        check_early_day_motion(&details(motion(5, 7, 8), vec![])),
        Err(E::MismatchedMemberID(5, 7, 8))
    );
    assert_eq!(
        check_early_day_motion(&details(motion(5, 7, 7), vec![sponsor(1, 7, false, None), sponsor(2, 0, false, None)])),
        Err(E::InvalidSignatureID(5, 0))
    );
    assert_eq!(
        check_early_day_motion(&details(motion(5, 7, 7), vec![sponsor(1, 7, true, None)])),
        Err(E::WithdrawnSignatureMismatch(5, true, None))
    );
    assert_eq!(
        check_early_day_motion(&details(motion(5, 7, 7), vec![sponsor(1, 7, false, Some(4))])),
        Err(E::WithdrawnSignatureMismatch(5, false, Some(4)))
    );
    let mut m = motion(5, 7, 7);
    m.praying_against_negative_statutory_instrument_id = Some(0);
    assert_eq!(check_early_day_motion(&details(m, vec![])), Err(E::InvalidStatutoryInstrumentID(5, 0)));
}

#[test]
fn party_lookups_and_errors() {
    let mut a = sponsor(1, 7, false, None);
    let mut b = sponsor(2, 8, false, None);
    let c = sponsor(3, 9, false, None);
    b.member.party_id = None;
    let d = details(motion(5, 7, 7), vec![a.clone(), b.clone(), c.clone()]);
    assert_eq!(next_party_lookup(&d, 0), Ok(Some(1)));
    assert_eq!(next_party_lookup(&d, 2), Ok(None));
    a.member.party_id = Some(0);
    let d = details(motion(5, 7, 7), vec![a, b, c]);
    assert_eq!(
        next_party_lookup(&d, 0),
        Err(PublishedEarlyDayMotionDataError::InvalidPartyID(5, 7, 0))
    );
    assert_eq!(next_party_lookup(&d, 1), Ok(Some(1)));
}

#[test]
fn amendment_errors() {
    let mut missing = details(motion(6, 7, 7), vec![]);
    let mut d = details(motion(5, 7, 7), vec![]);
    d.amendments.push(details(motion(6, 7, 7), vec![]));
    assert_eq!(check_amendments(&d), Err(PublishedEarlyDayMotionDataError::MissingAmendedMotionID(6)));
    missing.motion.amendment_to_motion_id = Some(-3);
    let mut d = details(motion(5, 7, 7), vec![]);
    d.amendments.push(missing);
    assert_eq!(check_amendments(&d), Err(PublishedEarlyDayMotionDataError::InvalidAmendedMotionID(5, -3)));
}

#[test]
fn stored_motion_splits_signatures() {
    let mut m = motion(5, 7, 7);
    m.amendment_to_motion_id = Some(3);
    m.amendment_suffix = Some("A1".to_string());
    let d = details(
        m,
        vec![sponsor(1, 7, false, None), sponsor(2, 8, true, Some(9)), sponsor(3, 9, true, None)],
    );
    let e = EarlyDayMotion::from_published(&d, 77);
    assert_eq!(e._id, 5);
    assert_eq!(e.title, "A title");
    assert_eq!(e.motion_text, "");
    assert_eq!(e.status, EarlyDayMotionStatus::Published);
    assert_eq!(e.supporting_signatures.len(), 2);
    assert_eq!(e.supporting_signatures[0]._id, 1);
    assert_eq!(e.supporting_signatures[1]._id, 3);
    assert_eq!(e.withdrawn_signatures.len(), 1);
    assert_eq!(e.withdrawn_signatures[0]._id, 2);
    assert_eq!(e.withdrawn_signatures[0].withdrawal_date, Some(9));
    let amends = e.amends.unwrap();
    assert_eq!(amends.motion_id, 3);
    assert_eq!(amends.amendment_suffix, "A1");
    assert_eq!(e.uin, 12);
    assert_eq!(e._updated, 77);
}

#[test]
fn motions_fetched_once_a_day() {
    let d = details(motion(5, 7, 7), vec![]);
    let stored = EarlyDayMotion::from_published(&d, 1_000_000);
    let stored = vec![stored];
    assert!(!needs_fetch(5, &stored, &vec![], 1_000_000 + 86_399_000));
    assert!(needs_fetch(5, &stored, &vec![], 1_000_000 + 86_401_000));
    assert!(needs_fetch(6, &stored, &vec![], 1_000_000));
    assert!(!needs_fetch(6, &vec![], &vec![details(motion(6, 7, 7), vec![])], 0));
}

fn item(id: i32) -> PublishedMemberBiographyItem {
    PublishedMemberBiographyItem {
        house: None,
        name: "Post".to_string(),
        id,
        start_date: 0,
        end_date: None,
        additional_info: None,
        additional_info_link: None,
    }
}

fn member(id: i32) -> PublishedMember {
    PublishedMember {
        id,
        name_list_as: None,
        name_display_as: None,
        name_full_title: None,
        name_address_as: None,
        latest_party: None,
        gender: None,
        latest_house_membership: PublishedHouseMembership {
            membership_from: None,
            membership_from_id: Some(3),
            house: None,
            membership_start_date: 0,
            membership_end_date: None,
            membership_end_reason: None,
            membership_end_reason_notes: None,
            membership_end_reason_id: None,
            membership_status: None,
        },
        thumbnail_url: None,
        biography: None,
        edms: None,
    }
}

fn edm(id: i32) -> PublishedMemberEdm {
    PublishedMemberEdm {
        title: None,
        number: None,
        is_prayer: None,
        is_amendment: None,
        id,
        date_tabled: 0,
        sponsors_count: None,
    }
}

fn biography(posts: Vec<PublishedMemberBiographyItem>) -> PublishedMemberBiography {
    PublishedMemberBiography {
        representations: vec![],
        elections_contested: vec![item(1)],
        house_memberships: vec![],
        government_posts: posts,
        opposition_posts: vec![],
        other_posts: vec![],
        party_affiliations: vec![item(2)],
        committee_memberships: vec![],
    }
}

#[test]
fn member_check_errors() {
    type E = PublishedMemberDataError;
    assert_eq!(check_member(&member(4)), Ok(()));
    assert_eq!(check_member(&member(0)), Err(E::InvalidID(0)));
    let mut m = member(4);
    m.edms = Some(vec![edm(3), edm(-2), edm(0)]);
    assert_eq!(check_member(&m), Err(E::InvalidEarlyDayMotionID(4, -2)));
    let mut m = member(4);
    m.latest_house_membership.membership_from_id = Some(0);
    assert_eq!(check_member(&m), Err(E::InvalidMembershipConstituencyID(4, 0)));
    let mut m = member(4);
    m.latest_house_membership.membership_end_reason_id = Some(-1);
    assert_eq!(check_member(&m), Err(E::InvalidMembershipEndReasonID(4, -1)));
    let mut m = member(4);
    m.biography = Some(biography(vec![item(5), item(0)]));
    assert_eq!(check_member(&m), Err(E::InvalidBiographyItemID(4, 0)));
    let mut m = member(4);
    m.biography = Some(biography(vec![item(5)]));
    assert_eq!(check_member(&m), Ok(()));
}

#[test]
fn members_fetched_once() {
    let collected = vec![member(4)];
    assert!(!is_new_member(4, &vec![], &collected));
    assert!(is_new_member(5, &vec![], &collected));
}

fn small(id: &str) -> PublishedStatutoryInstrumentSmall {
    PublishedStatutoryInstrumentSmall {
        id: id.to_string(),
        name: "An order".to_string(),
        procedure: PublishedProcedureDetails { id: "PROC0001".to_string(), name: "Negative".to_string() },
    }
}

fn instrument(id: &str) -> PublishedStatutoryInstrument {
    PublishedStatutoryInstrument {
        statutory_instrument: PublishedStatutoryInstrumentSummary {
            statutory_instrument: small(id),
            paper_prefix: None,
            paper_number: None,
            paper_year: None,
            paper_made_date: None,
            commons_laying_date: 0,
            lords_laying_date: None,
            workpackage_id: None,
        },
        followed_by_instrument: None,
        preceded_by_instrument: None,
        paper_coming_into_force_date: None,
        paper_coming_into_force_note: None,
        laying_body: PublishedLayingBody { department_id: Some(2), id: "LAYBOD01".to_string(), name: "Dept".to_string() },
        enabling_acts: vec![PublishedEnablingAct { id: "ACT00001".to_string(), name: "Act".to_string() }],
        timelines: vec![],
        link: None,
        business_items: None,
    }
}

#[test]
fn instrument_check_errors() {
    type E = PublishedStatutoryInstrumentDataError;
    let id = "AbCd1234".to_string();
    assert_eq!(check_statutory_instrument(&instrument("AbCd1234")), Ok(()));
    assert_eq!(check_statutory_instrument(&instrument("AbCd123")), Err(E::InvalidID("AbCd123".to_string())));
    let mut s = instrument("AbCd1234");
    s.statutory_instrument.statutory_instrument.procedure.id = "PROC-001".to_string();
    assert_eq!(check_statutory_instrument(&s), Err(E::InvalidProcedureID(id.clone(), "PROC-001".to_string())));
    let mut s = instrument("AbCd1234");
    s.followed_by_instrument = Some(small("x"));
    assert_eq!(
        check_statutory_instrument(&s),
        Err(E::InvalidFollowedStatutoryInstrumentID(id.clone(), "x".to_string()))
    );
    let mut s = instrument("AbCd1234");
    s.preceded_by_instrument = Some(small("123456789"));
    assert_eq!(
        check_statutory_instrument(&s),
        Err(E::InvalidPrecededStatutoryInstrumentID(id.clone(), "123456789".to_string()))
    );
    let mut s = instrument("AbCd1234");
    s.laying_body.id = "".to_string();
    assert_eq!(check_statutory_instrument(&s), Err(E::InvalidLayingBodyID(id.clone(), "".to_string())));
    let mut s = instrument("AbCd1234");
    s.laying_body.department_id = Some(0);
    assert_eq!(check_statutory_instrument(&s), Err(E::InvalidLayingBodyDepartmentID(id.clone(), 0)));
    let mut s = instrument("AbCd1234");
    s.enabling_acts.push(PublishedEnablingAct { id: "ACT 0002".to_string(), name: "Act".to_string() });
    assert_eq!(
        check_statutory_instrument(&s),
        Err(E::InvalidActOfParliamentID(id.clone(), "ACT 0002".to_string()))
    );
}

fn business_item(id: &str) -> PublishedBusinessItem {
    PublishedBusinessItem {
        id: id.to_string(),
        statutory_instrument_id: None,
        steps: vec![],
        item_date: None,
        link: None,
        sequence: None,
        houses: vec![],
    }
}

#[test]
fn business_item_check() {
    let id = "AbCd1234".to_string();
    assert_eq!(check_business_items(&id, &vec![business_item("BUSITEM1")]), Ok(()));
    assert_eq!(
        check_business_items(&id, &vec![business_item("BUSITEM1"), business_item("BUS_ITEM")]),
        Err(PublishedStatutoryInstrumentDataError::InvalidBusinessItemID(id.clone(), "BUS_ITEM".to_string()))
    );
}

#[test]
fn instruments_older_than_120_days_end_collection() {
    let mut s = instrument("AbCd1234").statutory_instrument;
    s.commons_laying_date = 0;
    assert!(!si_too_old(&s, 10_368_000_000));
    assert!(si_too_old(&s, 10_368_001_000));
}

#[test]
fn next_motion_skips_stored_and_fetched() {
    let stored = vec![EarlyDayMotion::from_published(&details(motion(2, 7, 7), vec![]), 1_000)];
    let fetched = vec![details(motion(3, 7, 7), vec![])];
    assert_eq!(next_motion_to_fetch(1, 5, &stored, &fetched, 2_000), Some(1));
    assert_eq!(next_motion_to_fetch(2, 5, &stored, &fetched, 2_000), Some(4));
    assert_eq!(next_motion_to_fetch(2, 3, &stored, &fetched, 2_000), None);
    assert_eq!(next_motion_to_fetch(6, 5, &stored, &fetched, 2_000), None);
}

#[test]
fn signer_party_is_set_in_place() {
    let mut b = sponsor(2, 8, false, None);
    b.member.party_id = None;
    let mut d = details(motion(5, 7, 7), vec![sponsor(1, 7, false, None), b]);
    assert_eq!(next_party_lookup(&d, 0), Ok(Some(1)));
    set_signer_party(&mut d, 1, Some(11));
    assert_eq!(d.sponsors[1].member.party_id, Some(11));
    assert_eq!(d.sponsors[1].id, 2);
    assert_eq!(d.sponsors[0], sponsor(1, 7, false, None));
    assert_eq!(next_party_lookup(&d, 2), Ok(None));
}

#[test]
fn member_page_steps() {
    let page = vec![member(4), member(5), member(6)];
    let collected = vec![member(4)];
    assert_eq!(next_member_step(&vec![], 0, &vec![], &collected), PageStep::Finished);
    assert_eq!(next_member_step(&page, 0, &vec![], &collected), PageStep::Fetch(1));
    assert_eq!(next_member_step(&page, 2, &vec![], &collected), PageStep::Fetch(2));
    assert_eq!(next_member_step(&page, 3, &vec![], &collected), PageStep::NextPage);
}

#[test]
fn instrument_page_steps() {
    let day: i64 = 86_400_000;
    let now = 200 * day;
    let mut a = instrument("AAAA0001").statutory_instrument;
    a.commons_laying_date = 190 * day;
    let mut b = instrument("BBBB0002").statutory_instrument;
    b.commons_laying_date = 150 * day;
    let mut old = instrument("CCCC0003").statutory_instrument;
    old.commons_laying_date = 10 * day;
    let collected = vec![instrument("AAAA0001")];
    let page = vec![a.clone(), b.clone(), old.clone()];
    assert_eq!(next_si_step(&vec![], 0, &vec![], &collected, now), PageStep::Finished);
    assert_eq!(next_si_step(&vec![a.clone()], 0, &vec![], &collected, now), PageStep::Finished);
    assert_eq!(next_si_step(&page, 0, &vec![], &collected, now), PageStep::Fetch(1));
    assert_eq!(next_si_step(&page, 2, &vec![], &collected, now), PageStep::Finished);
    assert_eq!(next_si_step(&vec![a.clone(), b.clone()], 2, &vec![], &collected, now), PageStep::NextPage);
}
