use edmdata::api::edm::{MemberForDate, PublishedEarlyDayMotion, PublishedEarlyDayMotionDetails};
use edmdata::bson_model::Bson;
use edmdata::task::{
    first_named_si, name_comparison_updates, normalize_opposing_edm, normalize_opposing_edm_next,
    normalize_si_name_comparison, refresh_updates, u32_value, unique_edm_ids,
    unique_member_indices, OpposingSearch, OpposingStep, TaskError, NAME_COMPARISON_SKIP,
};

fn details(
    id: i32,
    number: Option<i32>,
    year: Option<&str>,
    title: Option<&str>,
) -> PublishedEarlyDayMotionDetails {
    PublishedEarlyDayMotionDetails {
        sponsors: Vec::new(),
        amendments: Vec::new(),
        motion: PublishedEarlyDayMotion {
            id,
            status: 0,
            status_date: 0,
            member_id: 1,
            primary_sponsor: MemberForDate {
                mnis_id: 1,
                pims_id: None,
                name: "A Member".to_owned(),
                list_as: "Member, A".to_owned(),
                constituency: None,
                status: "Active".to_owned(),
                party: None,
                party_id: None,
                party_colour: None,
                photo_url: None,
            },
            title: Some("A motion".to_owned()),
            motion_text: None,
            amendment_to_motion_id: None,
            uin: 1,
            amendment_suffix: None,
            date_tabled: 0,
            praying_against_negative_statutory_instrument_id: None,
            statutory_instrument_number: number,
            statutory_instrument_year: year.map(|y| y.to_owned()),
            statutory_instrument_title: title.map(|t| t.to_owned()),
            uin_with_amendment_suffix: "1".to_owned(),
            sponsors_count: 0,
        },
    }
}

fn s(t: &str) -> Bson {
    Bson::String(t.to_owned())
}

fn doc(entries: Vec<(&str, Bson)>) -> Bson {
    Bson::Document(entries.into_iter().map(|(k, v)| (k.to_owned(), v)).collect())
}

fn negative_procedures() -> Bson {
    Bson::Array(vec![
        doc(vec![("procedure.name", s("Draft negative"))]),
        doc(vec![("procedure.name", s("Made negative"))]),
    ])
}

#[test]
fn motion_naming_no_instrument_opposes_none() {
    let d = details(10, None, None, None);
    assert_eq!(normalize_opposing_edm(&d), OpposingStep::Done(Ok(None)));
}

#[test]
fn instruments_before_the_service_are_out_of_reach() {
    let d = details(10, Some(5), Some("2016"), None);
    assert_eq!(normalize_opposing_edm(&d), OpposingStep::Done(Ok(None)));
    let d = details(10, Some(631), Some("2017"), Some("Old"));
    assert_eq!(normalize_opposing_edm(&d), OpposingStep::Done(Ok(None)));
    let d = details(10, None, Some("2015"), Some("Old"));
    assert_eq!(normalize_opposing_edm(&d), OpposingStep::Done(Ok(None)));
}

#[test]
fn search_by_number_and_year() {
    let d = details(10, Some(632), Some("2017"), None);
    let expected = doc(vec![
        ("item.paper.paper_year", Bson::Int32(2017)),
        ("item.paper.paper_number", Bson::Int32(632)),
        ("$or", negative_procedures()),
    ]);
    assert_eq!(
        normalize_opposing_edm(&d),
        OpposingStep::Find(OpposingSearch::ByNumber, expected)
    );
}

#[test]
fn unreadable_year_searches_by_title() {
    let d = details(10, Some(5), Some("twenty"), Some("S.I. 2020/123 (x)"));
    let expected = doc(vec![
        (
            "item.name",
            doc(vec![("$regex", s("S\\.I\\. 2020/123 \\(x\\)")), ("$options", s("i"))]),
        ),
        ("$or", negative_procedures()),
    ]);
    assert_eq!(
        normalize_opposing_edm(&d),
        OpposingStep::Find(OpposingSearch::ByTitle, expected)
    );
}

#[test]
fn one_instrument_found_is_the_answer() {
    let d = details(10, Some(700), Some("2019"), Some("T"));
    let found = vec!["abcd1234".to_owned()];
    assert_eq!(
        normalize_opposing_edm_next(&d, OpposingSearch::ByNumber, &found),
        OpposingStep::Done(Ok(Some("abcd1234".to_owned())))
    );
}

#[test]
fn none_found_by_number_then_title_is_tried() {
    let d = details(10, Some(700), Some("2019"), Some("The Rules"));
    match normalize_opposing_edm_next(&d, OpposingSearch::ByNumber, &Vec::new()) {
        OpposingStep::Find(OpposingSearch::ByTitle, _) => {}
        other => panic!("unexpected {other:?}"),
    }
}

#[test]
fn several_found_without_title_is_an_error() {
    let d = details(10, Some(700), Some("2019"), None);
    let found = vec!["a".to_owned(), "b".to_owned()];
    assert_eq!(
        normalize_opposing_edm_next(&d, OpposingSearch::ByNumber, &found),
        OpposingStep::Done(Err(TaskError::StatutoryInstrumentUnknown(
            10,
            2,
            None,
            Some(700),
            None,
            Some("2019".to_owned()),
        )))
    );
}

#[test]
fn title_search_resolves() {
    let d = details(11, None, None, Some("The Rules"));
    assert_eq!(
        normalize_opposing_edm_next(&d, OpposingSearch::ByTitle, &Vec::new()),
        OpposingStep::Done(Err(TaskError::StatutoryInstrumentUnknown(
            11,
            0,
            None,
            None,
            Some("The Rules".to_owned()),
            None,
        )))
    );
}

#[test]
fn names_compare_without_case_or_spaces() {
    let text = "That the Foo  Bar Regulations 2020 be annulled".to_owned();
    let names = vec!["Other Order".to_owned(), "foo bar regulations".to_owned(), "FooBar".to_owned()];
    assert_eq!(first_named_si(&text, &names), Some(1));
    assert_eq!(first_named_si(&"nothing".to_owned(), &names), None);
}

#[test]
fn name_comparison_skips_the_first_motions() {
    let mut texts = vec!["Foo Bar".to_owned(); NAME_COMPARISON_SKIP];
    texts.push("nothing here".to_owned());
    texts.push("The foobar order".to_owned());
    let names = vec!["Foo Bar".to_owned()];
    assert_eq!(
        normalize_si_name_comparison(&texts, &names),
        vec![(NAME_COMPARISON_SKIP + 1, 0)]
    );
    assert!(normalize_si_name_comparison(&vec!["Foo Bar".to_owned()], &names).is_empty());
}

#[test]
fn name_comparison_update_documents() {
    let ((f1, u1), (f2, u2)) = name_comparison_updates(7, &"abcd1234".to_owned());
    assert_eq!(
        f1,
        doc(vec![
            ("item._id", Bson::Int32(7)),
            ("$nor", Bson::Array(vec![doc(vec![("extra.source_kind", Bson::Int32(2))])])),
        ])
    );
    assert_eq!(u1, doc(vec![("$push", doc(vec![("extra.source_kind", Bson::Int32(2))]))]));
    assert_eq!(
        f2,
        doc(vec![("item._id", Bson::Int32(7)), ("extra.opposes_statutory_instrument", Bson::Null)])
    );
    assert_eq!(
        u2,
        doc(vec![("$set", doc(vec![("extra.opposes_statutory_instrument", s("abcd1234"))]))])
    );
}

#[test]
fn large_ids_are_int64() {
    assert_eq!(u32_value(5), Bson::Int32(5));
    assert_eq!(u32_value(3_000_000_000), Bson::Int64(3_000_000_000));
}

#[test]
fn refresh_update_documents() {
    let ((f1, u1), (f2, u2)) = refresh_updates(&Bson::Int32(4), doc(vec![("a", Bson::Int32(1))]), Bson::Null);
    assert_eq!(f1, doc(vec![("item._id", Bson::Int32(4))]));
    assert_eq!(u1, doc(vec![("$set", doc(vec![("item", doc(vec![("a", Bson::Int32(1))]))]))]));
    assert_eq!(f2, doc(vec![("item._id", Bson::Int32(4)), ("extra", Bson::Null)]));
    assert_eq!(u2, doc(vec![("$set", doc(vec![("extra", Bson::Null)]))]));
}

#[test]
fn first_member_of_each_id() {
    assert_eq!(unique_member_indices(&vec![5, 3, 5, 7, 3]), vec![0, 1, 3]);
    assert!(unique_member_indices(&Vec::new()).is_empty());
}

#[test]
fn motions_of_members_once_each() {
    assert_eq!(unique_edm_ids(&vec![vec![3, 1], vec![1, 4], vec![3]]), vec![3, 1, 4]);
}
