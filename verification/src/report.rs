use vstd::prelude::*;

use crate::bson_model::{
    append_values, datetime_entry, duplicate_all, insert_entry, items_view, lemma_items_view,
    lemma_items_view_push, push_value, Bson, BsonV,
};
use crate::chart::{day_month_year, format_day_month_year};
use crate::data::edm::MotionKind;
use crate::element::{AttrV, AttrValue, Element, ElementV};
use crate::query::{
    collect_signatures_stages, concat_groups, filter_signatures_by_bench_stages,
    filter_signatures_by_gender_stages, filter_signatures_by_supporting_stages, flatten_stages,
    framed_parts, groups_view, reset_signatures_stages, set_edm_data_stages,
    set_signature_count_stages, set_signatures_by_date_stages,
    set_signatures_by_membership_stages, set_signatures_by_party_stages,
    sort_by_signature_count_stages, filter_by_motion_kind_stages, filter_by_date_stages,
    year_start_ms, CollectSignatures, FilterByDate, FilterByMotionKind, DocumentExt, FilterSignaturesByBench,
    FilterSignaturesByGender, FilterSignaturesBySupporting, GroupQuery, Query, ResetSignatures,
    SetEarlyDayMotionData, SetSignatureCount, SetSignaturesByDate, SetSignaturesByMembership,
    SetSignaturesByParty, SortBySignatureCount,
};

verus! {

broadcast use vstd::std_specs::vec::group_vec_axioms;

/// A sequence of plain documents is the stages those documents are.
pub proof fn lemma_flatten_documents(s: Seq<Bson>)
    ensures
        flatten_stages(s) == items_view(s),
    decreases s.len(),
{
    if s.len() > 0 {
        lemma_flatten_documents(s.drop_last());
        lemma_items_view_push(s.drop_last(), s.last());
        assert(s.drop_last().push(s.last()) =~= s);
    }
}

/// Adding a group to a group query adds one framed part to what it builds.
pub proof fn lemma_frame_step(
    groups: Seq<Seq<BsonV>>,
    prepend: Seq<BsonV>,
    parts: Seq<Seq<BsonV>>,
    part: Seq<BsonV>,
    append: Seq<BsonV>,
)
    requires
        concat_groups(groups) == framed_parts(prepend, parts, append),
    ensures
        concat_groups(groups.push(prepend + part + append)) == framed_parts(
            prepend,
            parts.push(part),
            append,
        ),
{
    assert(groups.push(prepend + part + append).drop_last() =~= groups);
    assert(parts.push(part).drop_last() =~= parts);
}

/// The name under which the counts of a group of signatures are written.
pub open spec fn root_name(supporting: bool) -> Seq<char> {
    if supporting {
        "supporting"@
    } else {
        "withdrawn"@
    }
}

/// The parts of [`MainQuery::group`]: counts in total, by bench, by
/// gender, by party, by date (of withdrawal too, for withdrawn
/// signatures) and by house membership.
pub open spec fn main_group_parts(supporting: bool) -> Seq<Seq<BsonV>> {
    let root = root_name(supporting);
    let base = Seq::empty()
        .push(set_signature_count_stages(root + ".total"@))
        .push(filter_signatures_by_bench_stages(true, None) + set_signature_count_stages(root + ".backbench.total"@))
        .push(filter_signatures_by_bench_stages(false, None) + set_signature_count_stages(root + ".frontbench.total"@))
        .push(filter_signatures_by_gender_stages(seq!["F"@]) + set_signature_count_stages(root + ".women.total"@))
        .push(filter_signatures_by_gender_stages(seq!["M"@]) + set_signature_count_stages(root + ".men.total"@))
        .push(set_signatures_by_party_stages(root + ".by_party"@))
        .push(set_signatures_by_date_stages(root + ".by_date.creation"@, true));
    let dated = if supporting {
        base
    } else {
        base.push(set_signatures_by_date_stages(root + ".by_date.withdrawal"@, false))
    };
    dated
        .push(set_signatures_by_membership_stages(root + ".by_membership.initial"@, true))
        .push(set_signatures_by_membership_stages(root + ".by_membership.latest"@, false))
}

/// The stages of [`MainQuery::group`]: each part between the filter on
/// supporting signatures and the reset of the signatures.
pub open spec fn main_group_stages(supporting: bool) -> Seq<BsonV> {
    framed_parts(
        filter_signatures_by_supporting_stages(supporting),
        main_group_parts(supporting),
        reset_signatures_stages(),
    )
}

/// The stages of the main query: the filters, the groups for supporting
/// and withdrawn signatures, then the supporting signatures, the motion
/// data and the order by signature count, largest first.
pub open spec fn main_query_stages(filters: Seq<BsonV>) -> Seq<BsonV> {
    filters + main_group_stages(true) + main_group_stages(false)
        + filter_signatures_by_supporting_stages(true) + set_edm_data_stages()
        + sort_by_signature_count_stages(false)
}

/// The query that the report runs after its own filters.
pub struct MainQuery {
    pub filters: Vec<Bson>,
}

fn path_of(root: &str, rest: &str) -> (r: String)
    ensures
        r@ == root@ + rest@,
{
    String::from_str(root).concat(rest)
}

fn gender_list(g: &str) -> (r: Vec<String>)
    ensures
        r@.len() == 1,
        r@[0]@ == g@,
{
    let mut v: Vec<String> = Vec::new();
    v.push(String::from_str(g));
    v
}

impl MainQuery {
    pub fn new(filters: Vec<Bson>) -> (r: Self)
        ensures
            r.filters == filters,
    {
        Self { filters }
    }

    /// The counts for the supporting (or withdrawn) signatures of each motion.
    pub fn group(supporting: bool) -> (r: Vec<Bson>)
        ensures
            items_view(r@) == main_group_stages(supporting),
    {
        let root: &str = if supporting {
            "supporting"
        } else {
            "withdrawn"
        };
        let ghost pre = filter_signatures_by_supporting_stages(supporting);
        let ghost app = reset_signatures_stages();
        let ghost rt = root_name(supporting);
        let query = GroupQuery::default().prepend(FilterSignaturesBySupporting::new(supporting)).append(
            ResetSignatures::new(),
        );
        assert(items_view(query.prepend@) =~= pre);
        assert(items_view(query.append@) =~= app);
        assert(concat_groups(groups_view(query.groups@)) =~= framed_parts(pre, Seq::empty(), app));

        let ghost parts = Seq::<Seq<BsonV>>::empty();
        let p1 = SetSignatureCount::new(path_of(root, ".total"));
        let ghost g = groups_view(query.groups@);
        let query = query.with(p1);
        proof {
            lemma_frame_step(g, pre, parts, p1.stages(), app);
            parts = parts.push(p1.stages());
        }

        let p2 = FilterSignaturesByBench::new(true, None).doc_add(
            SetSignatureCount::new(path_of(root, ".backbench.total")),
        );
        let ghost g = groups_view(query.groups@);
        let query = query.with(p2);
        proof {
            lemma_flatten_documents(p2@);
            lemma_frame_step(g, pre, parts, items_view(p2@), app);
            parts = parts.push(items_view(p2@));
        }

        let p3 = FilterSignaturesByBench::new(false, None).doc_add(
            SetSignatureCount::new(path_of(root, ".frontbench.total")),
        );
        let ghost g = groups_view(query.groups@);
        let query = query.with(p3);
        proof {
            lemma_flatten_documents(p3@);
            lemma_frame_step(g, pre, parts, items_view(p3@), app);
            parts = parts.push(items_view(p3@));
        }

        let women = gender_list("F");
        assert(string_views_of(women@) =~= seq!["F"@]);
        let p4 = FilterSignaturesByGender::new(women).doc_add(
            SetSignatureCount::new(path_of(root, ".women.total")),
        );
        let ghost g = groups_view(query.groups@);
        let query = query.with(p4);
        proof {
            lemma_flatten_documents(p4@);
            lemma_frame_step(g, pre, parts, items_view(p4@), app);
            parts = parts.push(items_view(p4@));
        }

        let men = gender_list("M");
        assert(string_views_of(men@) =~= seq!["M"@]);
        let p5 = FilterSignaturesByGender::new(men).doc_add(
            SetSignatureCount::new(path_of(root, ".men.total")),
        );
        let ghost g = groups_view(query.groups@);
        let query = query.with(p5);
        proof {
            lemma_flatten_documents(p5@);
            lemma_frame_step(g, pre, parts, items_view(p5@), app);
            parts = parts.push(items_view(p5@));
        }

        let p6 = SetSignaturesByParty::new(path_of(root, ".by_party"));
        let ghost g = groups_view(query.groups@);
        let query = query.with(p6);
        proof {
            lemma_frame_step(g, pre, parts, p6.stages(), app);
            parts = parts.push(p6.stages());
        }

        let p7 = SetSignaturesByDate::new(path_of(root, ".by_date.creation"), true);
        let ghost g = groups_view(query.groups@);
        let mut query = query.with(p7);
        proof {
            lemma_frame_step(g, pre, parts, p7.stages(), app);
            parts = parts.push(p7.stages());
        }

        if !supporting {
            let p = SetSignaturesByDate::new(path_of(root, ".by_date.withdrawal"), false);
            let ghost g = groups_view(query.groups@);
            query = query.with(p);
            proof {
                lemma_frame_step(g, pre, parts, p.stages(), app);
                parts = parts.push(p.stages());
            }
        }

        let p8 = SetSignaturesByMembership::new(path_of(root, ".by_membership.initial"), true);
        let ghost g = groups_view(query.groups@);
        let query = query.with(p8);
        proof {
            lemma_frame_step(g, pre, parts, p8.stages(), app);
            parts = parts.push(p8.stages());
        }

        let p9 = SetSignaturesByMembership::new(path_of(root, ".by_membership.latest"), false);
        let ghost g = groups_view(query.groups@);
        let query = query.with(p9);
        proof {
            lemma_frame_step(g, pre, parts, p9.stages(), app);
            parts = parts.push(p9.stages());
            assert(parts =~= main_group_parts(supporting));
        }
        query.build()
    }
}

/// The views of strings, one by one.
pub open spec fn string_views_of(s: Seq<String>) -> Seq<Seq<char>> {
    s.map_values(|x: String| x@)
}

impl Query for MainQuery {
    open spec fn stages(&self) -> Seq<BsonV> {
        main_query_stages(items_view(self.filters@))
    }

    fn build(&self) -> (r: Vec<Bson>) {
        let mut pipeline = duplicate_all(&self.filters);
        append_values(&mut pipeline, Self::group(true));
        append_values(&mut pipeline, Self::group(false));
        proof {
            lemma_flatten_documents(pipeline@);
        }
        let pipeline = pipeline.doc_add(FilterSignaturesBySupporting::new(true));
        proof {
            lemma_flatten_documents(pipeline@);
        }
        let pipeline = pipeline.doc_add(SetEarlyDayMotionData::new());
        proof {
            lemma_flatten_documents(pipeline@);
        }
        let pipeline = pipeline.doc_add(SortBySignatureCount::new(false));
        pipeline
    }
}

/// The filter for the motion with the given id.
pub open spec fn motion_match(id: i32) -> BsonV {
    BsonV::doc().with("$match"@, BsonV::doc().with("item._id"@, BsonV::Int32(id)))
}

/// The filters of a report on one motion: the motion, with its signatures
/// collected.
pub fn motion_filters(id: i32) -> (r: Vec<Bson>)
    ensures
        items_view(r@) == seq![motion_match(id)] + collect_signatures_stages(),
{
    let mut v: Vec<Bson> = Vec::new();
    push_value(&mut v, Bson::doc().with("$match", Bson::doc().with("item._id", Bson::Int32(id))));
    proof {
        crate::report::lemma_flatten_documents(v@);
    }
    let r = v.doc_add(CollectSignatures::new());
    assert(items_view(v@) =~= seq![motion_match(id)]);
    r
}

/// The kinds of motion that pray against an instrument to annul it.
pub open spec fn fatal_kinds() -> Seq<MotionKind> {
    seq![MotionKind::Fatal, MotionKind::SeemsFatal]
}

/// The filters of a report on the motions that pray to annul an
/// instrument: those of the fatal kinds, tabled from the start of
/// `since_year` to the start of 2027 where a year is given, with their
/// signatures collected.
pub fn fatal_prayer_filters(since_year: Option<i32>) -> (r: Vec<Bson>)
    requires
        since_year matches Some(y) ==> -9999 <= y <= 9999,
    ensures
        items_view(r@) == filter_by_motion_kind_stages(fatal_kinds()) + match since_year {
            Some(y) => filter_by_date_stages(
                Some(year_start_ms(y) as i64),
                Some(year_start_ms(2027) as i64),
            ),
            None => Seq::empty(),
        } + collect_signatures_stages(),
{
    let mut kinds: Vec<MotionKind> = Vec::new();
    kinds.push(MotionKind::Fatal);
    kinds.push(MotionKind::SeemsFatal);
    assert(kinds@ =~= fatal_kinds());
    let empty: Vec<Bson> = Vec::new();
    assert(flatten_stages(empty@) =~= Seq::<BsonV>::empty());
    let v = empty.doc_add(FilterByMotionKind::new(kinds));
    proof {
        lemma_flatten_documents(v@);
    }
    let v = match since_year {
        Some(y) => {
            let w = v.doc_add(FilterByDate::new_by_year(y, 2027));
            proof {
                lemma_flatten_documents(w@);
            }
            w
        },
        None => {
            assert(items_view(v@) =~= items_view(v@) + Seq::<BsonV>::empty());
            v
        },
    };
    v.doc_add(CollectSignatures::new())
}

/// The filters of a report on the motions tabled from the start of
/// `since_year` to the start of 2027, with their signatures collected.
pub fn recent_motion_filters(since_year: i32) -> (r: Vec<Bson>)
    requires
        -9999 <= since_year <= 9999,
    ensures
        items_view(r@) == filter_by_date_stages(
            Some(year_start_ms(since_year) as i64),
            Some(year_start_ms(2027) as i64),
        ) + collect_signatures_stages(),
{
    let empty: Vec<Bson> = Vec::new();
    assert(flatten_stages(empty@) =~= Seq::<BsonV>::empty());
    let v = empty.doc_add(FilterByDate::new_by_year(since_year, 2027));
    proof {
        lemma_flatten_documents(v@);
    }
    v.doc_add(CollectSignatures::new())
}

/// A result as a report writes it at place `i`: its date tabled as text,
/// and its ranking from 1.
pub open spec fn ranked(d: BsonV, i: int) -> BsonV {
    match d {
        BsonV::Document(es) => BsonV::Document(
            insert_entry(
                insert_entry(
                    es,
                    "date_tabled"@,
                    BsonV::String(day_month_year(datetime_entry(d, "date_tabled"@)->0)),
                ),
                "ranking"@,
                BsonV::Int32((i + 1) as i32),
            ),
        ),
        _ => d,
    }
}

/// How many results a report writes: the first ten.
pub open spec fn ranked_count(n: int) -> int {
    if n < 10 {
        n
    } else {
        10
    }
}

impl MainQuery {
    /// The first ten results as a report writes them (see [`ranked`]); each
    /// must be a document whose date tabled is a date.
    pub fn ranked_results(results: &Vec<Bson>) -> (r: Vec<Bson>)
        requires
            forall|i: int|
                0 <= i < ranked_count(results@.len() as int) ==> datetime_entry(
                    #[trigger] results@[i].model(),
                    "date_tabled"@,
                ) is Some,
        ensures
            items_view(r@) == Seq::new(
                ranked_count(results@.len() as int) as nat,
                |i: int| ranked(results@[i].model(), i),
            ),
    {
        let n: usize = if results.len() < 10 {
            results.len()
        } else {
            10
        };
        let mut out: Vec<Bson> = Vec::new();
        let mut i: usize = 0;
        while i < n
            invariant
                i <= n,
                n == ranked_count(results@.len() as int),
                n <= 10,
                forall|i: int|
                    0 <= i < n ==> datetime_entry(#[trigger] results@[i].model(), "date_tabled"@) is Some,
                items_view(out@) == Seq::new(i as nat, |j: int| ranked(results@[j].model(), j)),
            decreases n - i,
        {
            let d = results[i].duplicate();
            assert(datetime_entry(results@[i as int].model(), "date_tabled"@) is Some);
            let ms = match d.get_datetime("date_tabled") {
                Some(ms) => ms,
                None => 0,
            };
            assert(d is Document);
            let text = format_day_month_year(ms);
            let d = d.insert("date_tabled", Bson::String(text));
            let d = d.insert("ranking", Bson::Int32(i as i32 + 1));
            let ghost before = out@;
            push_value(&mut out, d);
            assert(Seq::new((i + 1) as nat, |j: int| ranked(results@[j].model(), j)) =~= Seq::new(
                i as nat,
                |j: int| ranked(results@[j].model(), j),
            ).push(ranked(results@[i as int].model(), i as int)));
            i = i + 1;
        }
        out
    }
}

/// Pictures as the report writes them.
pub struct MainGraph {}

/// A picture of the report's size holding `node`.
pub open spec fn page_model(node: ElementV) -> ElementV {
    ElementV::new("svg"@).set("width"@, AttrV::Number(3072)).set("height"@, AttrV::Number(1024)).add(node)
}

impl MainGraph {
    /// A picture of the report's size (see [`crate::axes::WIDTH_HEIGHT_BASE`]
    /// and [`crate::axes::WIDTH_HEIGHT_RATIO`]) holding `node`.
    pub fn page(node: Element) -> (r: Element)
        ensures
            r.model() == page_model(node.model()),
    {
        let width = crate::axes::WIDTH_HEIGHT_BASE * crate::axes::WIDTH_HEIGHT_RATIO.0;
        let height = crate::axes::WIDTH_HEIGHT_BASE * crate::axes::WIDTH_HEIGHT_RATIO.1;
        Element::new("svg").set("width", AttrValue::Number(width)).set("height", AttrValue::Number(height)).add(
            node,
        )
    }
}

} // verus!
