use edmdata::bson_model::Bson;
use edmdata::data::cached;
use edmdata::data::edm::MotionKind;
use edmdata::query::{
    CollectSignatures, DocumentExt, FilterByDate, FilterByMotionKind, Query, SetSignatureCount,
};
use edmdata::report::{fatal_prayer_filters, motion_filters, recent_motion_filters, MainQuery};

fn s(t: &str) -> Bson {
    Bson::String(t.to_owned())
}

fn doc(entries: Vec<(&str, Bson)>) -> Bson {
    Bson::Document(entries.into_iter().map(|(k, v)| (k.to_owned(), v)).collect())
}

#[test]
fn filter_by_year_starts_at_new_year() {
    let f = FilterByDate::new_by_year(2017, 2027);
    assert_eq!(f.start_date, Some(1_483_228_800_000));
    assert_eq!(f.end_date, Some(1_798_761_600_000));
    let f = FilterByDate::new_by_year(1900, 1969);
    assert_eq!(f.start_date, Some(-2_208_988_800_000));
    assert_eq!(f.end_date, Some(-31_536_000_000));
}

#[test]
fn filter_by_date_stage() {
    let stages = FilterByDate::new(Some(5), None).build();
    assert_eq!(
        stages,
        vec![doc(vec![(
            "$match",
            doc(vec![("item.date_tabled", doc(vec![("$gte", Bson::DateTime(5))]))]),
        )])]
    );
    let stages = FilterByDate::new(None, None).build();
    assert_eq!(
        stages,
        vec![doc(vec![("$match", doc(vec![("item.date_tabled", doc(vec![("$ne", Bson::Null)]))]))])]
    );
}

#[test]
fn doc_add_puts_stages_after_each_other() {
    let a = SetSignatureCount::new("total".to_owned());
    let b = FilterByMotionKind::new(vec![MotionKind::Fatal, MotionKind::SeemsFatal]);
    let joined = a.doc_add(b);
    assert_eq!(joined.len(), 2);
    assert_eq!(
        joined[0],
        doc(vec![("$set", doc(vec![("result.total", doc(vec![("$size", s("$signatures"))]))]))])
    );
    assert_eq!(
        joined[1],
        doc(vec![(
            "$match",
            doc(vec![(
                "extra.motion_kind",
                doc(vec![("$in", Bson::Array(vec![Bson::Int32(0), Bson::Int32(2)]))]),
            )]),
        )])
    );
}

#[test]
fn report_on_one_motion() {
    let f = motion_filters(65938);
    assert_eq!(f[0], doc(vec![("$match", doc(vec![("item._id", Bson::Int32(65938))]))]));
    let collected = CollectSignatures::new().build();
    assert_eq!(f.len(), 1 + collected.len());
    for (a, b) in f[1..].iter().zip(collected.iter()) {
        assert_eq!(a, b);
    }
}

#[test]
fn report_on_fatal_prayers() {
    let all = fatal_prayer_filters(None);
    let recent = fatal_prayer_filters(Some(2016));
    let collected = CollectSignatures::new().build();
    assert_eq!(all.len(), 1 + collected.len());
    assert_eq!(recent.len(), 2 + collected.len());
    assert_eq!(recent[1], FilterByDate::new_by_year(2016, 2027).build()[0]);
    let r = recent_motion_filters(2021);
    assert_eq!(r[0], FilterByDate::new_by_year(2021, 2027).build()[0]);
}

#[test]
fn main_query_ends_with_order_by_count() {
    let q = MainQuery::new(vec![doc(vec![("$match", doc(vec![]))])]);
    let stages = q.build();
    assert_eq!(stages[0], doc(vec![("$match", doc(vec![]))]));
    assert!(stages.len() > 3);
}

#[test]
fn ranked_results_read_the_date_and_rank() {
    let results: Vec<Bson> = (0..12)
        .map(|i| doc(vec![("title", s("t")), ("date_tabled", Bson::DateTime(10 * 86_400_000 + i))]))
        .collect();
    let ranked = MainQuery::ranked_results(&results);
    assert_eq!(ranked.len(), 10);
    assert_eq!(
        ranked[0],
        doc(vec![("title", s("t")), ("date_tabled", s("11/01/1970")), ("ranking", Bson::Int32(1))])
    );
    assert_eq!(
        ranked[9],
        doc(vec![("title", s("t")), ("date_tabled", s("11/01/1970")), ("ranking", Bson::Int32(10))])
    );
}

#[test]
fn reading_a_date_after_insert() {
    let d = doc(vec![("a", Bson::Int32(1))]).insert("when", Bson::DateTime(42));
    assert_eq!(d.get_datetime("when"), Some(42));
    assert_eq!(d.get_datetime("a"), None);
    let d = d.insert("when", Bson::DateTime(7));
    assert_eq!(d.get_datetime("when"), Some(7));
    assert_eq!(d, doc(vec![("a", Bson::Int32(1)), ("when", Bson::DateTime(7))]));
}

#[test]
fn cached_adds_an_updated_bound() {
    let d = cached(doc(vec![]), 10 * 3_600_000, 4);
    assert_eq!(
        d,
        doc(vec![("item._updated", doc(vec![("$gt", Bson::DateTime(6 * 3_600_000))]))])
    );
}
