use chrono::{Datelike, Timelike};
use vstd::prelude::*;

use crate::axes::{
    document, document_of, inverted_model, view_box, x_dashes_group, y_lines_group,
    y_numbers_group, GraphXAxisDashes, GraphYAxisLines, GraphYAxisNumbers, Inverted,
    DEFAULT_LINES,
};
use crate::data::edm::EarlyDayMotion;
use crate::element::{AttrV, AttrValue, Element, ElementV, PathCommand};
use crate::keyed::{
    first_by_key, lemma_first_by_key_within, lemma_same_keys_contains, sort_by_key, stably_sorted_key,
    unique_by_key, with_key,
};
use crate::query::Signature;
use crate::axes::top_defined;
use crate::svg::{
    below, graphs_max_y, lemma_graphs_max_y_nonneg, lemma_graphs_max_y_prefix, lemma_stacked_sum_nonneg,
    lemma_stacked_sum_prefix, stack_drawable, stack_fits, stacked_document, stacked_points, stacked_sum,
    y_at_or_before_of,
    carried_gaps, closable, closing_y, collapse_points, collapsed, copy_points, filled, graphs_max_x,
    lemma_collapsed_len, lemma_collapsed_unique, stack_closable, line_document, max_x_of, max_y_of, sort_points_by_y_desc,
    sorted_by_y_desc, with_y, x_values, LineGraph, StackedGraph,
};

verus! {

broadcast use vstd::std_specs::vec::group_vec_axioms;

/// What `chrono` writes for the day of `ms` (milliseconds since the Unix
/// epoch, UTC) in the format `%d/%m/%Y`.
pub uninterp spec fn day_month_year(ms: i64) -> Seq<char>;

/// `bson::DateTime::from_millis`, `to_chrono`, then `format("%d/%m/%Y")`.
/// Claims that the result is the named text of `ms`.
#[verifier::external_body]
pub(crate) fn format_day_month_year(ms: i64) -> (r: String)
    ensures
        r@ == day_month_year(ms),
{
    bson::DateTime::from_millis(ms).to_chrono().format("%d/%m/%Y").to_string()
}

/// The dates the motions were tabled, each with its position.
pub open spec fn motion_keys(value: Seq<(EarlyDayMotion, Vec<Signature>)>) -> Seq<(i128, usize)> {
    Seq::new(value.len(), |i: int| (value[i].0.date_tabled as i128, i as usize))
}

/// Whether the dates, read as `usize`, keep their order, so that each less
/// the earliest is a count of milliseconds.
pub open spec fn castable_dates(d: Seq<i64>) -> bool {
    forall|i: int, j: int|
        0 <= i < d.len() && 0 <= j < d.len() && d[i] <= d[j] ==> (#[trigger] d[i] as usize) <= (
        #[trigger] d[j] as usize)
}

/// The dates the motions were tabled.
pub open spec fn motion_dates(value: Seq<(EarlyDayMotion, Vec<Signature>)>) -> Seq<i64> {
    Seq::new(value.len(), |i: int| value[i].0.date_tabled)
}

/// The days from `min` to `d`.
pub open spec fn days_after(d: i64, min: i64) -> usize {
    (((d as usize) - (min as usize)) / 86400000) as usize
}

/// For each motion, in the order `o` gives: the days from the earliest to
/// the day it was tabled, and how many signatures it has.
pub open spec fn motion_points(
    value: Seq<(EarlyDayMotion, Vec<Signature>)>,
    o: Seq<(i128, usize)>,
    min: i64,
) -> Seq<(usize, usize)> {
    o.map_values(
        |p: (i128, usize)|
            (days_after(value[p.1 as int].0.date_tabled, min), value[p.1 as int].1@.len() as usize),
    )
}

/// The colours the motions with the most signatures are marked in.
pub open spec fn default_colours() -> Seq<Seq<char>> {
    seq![
        "#800000"@,
        "#804000"@,
        "#808000"@,
        "#408000"@,
        "#008040"@,
        "#008080"@,
        "#004080"@,
        "#400080"@,
        "#800080"@,
        "#800040"@,
    ]
}

pub fn default_colour_list() -> (r: Vec<String>)
    ensures
        r@.map_values(|s: String| s@) == default_colours(),
{
    let mut v: Vec<String> = Vec::new();
    v.push(String::from_str("#800000"));
    v.push(String::from_str("#804000"));
    v.push(String::from_str("#808000"));
    v.push(String::from_str("#408000"));
    v.push(String::from_str("#008040"));
    v.push(String::from_str("#008080"));
    v.push(String::from_str("#004080"));
    v.push(String::from_str("#400080"));
    v.push(String::from_str("#800080"));
    v.push(String::from_str("#800040"));
    assert(v@.map_values(|s: String| s@) =~= default_colours());
    v
}

/// Motions by the number of their supporting signatures, over the days
/// since the earliest was tabled.
#[derive(Debug)]
pub struct SupportingSignaturesOverTimeGraph {
    pub graph: LineGraph,
    pub colours: Vec<String>,
    /// The earliest date tabled, in milliseconds since the Unix epoch.
    pub start_dt: i64,
    pub start_date: String,
    pub end_date: String,
    pub title: String,
}

/// Milliseconds in a day.
pub const DAY_MILLIS: usize = 86400000;

impl SupportingSignaturesOverTimeGraph {
    pub fn new(
        graph: LineGraph,
        colours: Vec<String>,
        start_dt: i64,
        start_date: String,
        end_date: String,
        title: String,
    ) -> (r: Self)
        ensures
            r.graph == graph,
            r.colours == colours,
            r.start_dt == start_dt,
            r.start_date == start_date,
            r.end_date == end_date,
            r.title == title,
    {
        Self { graph, colours, start_dt, start_date, end_date, title }
    }

    /// The graph of the motions: for each day since the earliest was
    /// tabled, the most signatures a motion tabled that day has, as a line
    /// closed down to the axis; with the first and last dates as text.
    pub fn from_motions(value: &Vec<(EarlyDayMotion, Vec<Signature>)>) -> (r: Self)
        requires
            value@.len() > 0,
            castable_dates(motion_dates(value@)),
        ensures
            forall|i: int| 0 <= i < value@.len() ==> r.start_dt <= #[trigger] value@[i].0.date_tabled,
            exists|i: int| 0 <= i < value@.len() && r.start_dt == #[trigger] value@[i].0.date_tabled,
            exists|o: Seq<(i128, usize)>|
                stably_sorted_key(o, motion_keys(value@)) && collapsed(
                    r.graph.points@,
                    motion_points(value@, o, r.start_dt),
                ),
            r.graph.colour@ == "#808080"@,
            r.graph.fill == (true, false),
            r.colours@.map_values(|s: String| s@) == default_colours(),
            r.start_date@ == day_month_year(r.start_dt),
            exists|i: int|
                0 <= i < value@.len() && r.end_date@ == day_month_year(#[trigger] value@[i].0.date_tabled)
                    && forall|j: int| 0 <= j < value@.len() ==> value@[j].0.date_tabled <= value@[i].0.date_tabled,
            r.title@ == "Early Day Motions (as supporting signatures) over date tabled (as time in days)"@,
    {
        let mut keyed: Vec<(i128, usize)> = Vec::new();
        let mut i: usize = 0;
        while i < value.len()
            invariant
                i <= value.len(),
                keyed@ == motion_keys(value@).take(i as int),
            decreases value.len() - i,
        {
            keyed.push((value[i].0.date_tabled as i128, i));
            assert(keyed@ =~= motion_keys(value@).take(i + 1));
            i = i + 1;
        }
        assert(motion_keys(value@).take(value.len() as int) =~= motion_keys(value@));
        let ghost keys = keyed@;
        let o = sort_by_key(keyed);
        proof {
            assert(keys.contains(keys[0]));
            lemma_same_keys_contains(keys, o@, keys[0]);
        }
        // Each pair of the order is a motion's date and position.
        assert forall|m: int| 0 <= m < o@.len() implies #[trigger] o@[m].1 < value@.len() && o@[m].0
            == value@[o@[m].1 as int].0.date_tabled as i128 by {
            assert(o@.contains(o@[m]));
            assert forall|k: i128| #[trigger] with_key(o@, k) == with_key(keys, k) by {}
            lemma_same_keys_contains(o@, keys, o@[m]);
        }
        let min = value[o[0].1].0.date_tabled;
        let last = o[o.len() - 1].1;
        let max = value[last].0.date_tabled;
        // The first pair has the earliest date and the last the latest.
        assert forall|j: int| 0 <= j < value@.len() implies min <= #[trigger] value@[j].0.date_tabled
            && value@[j].0.date_tabled <= max by {
            assert(keys[j] == (value@[j].0.date_tabled as i128, j as usize));
            assert(keys.contains(keys[j]));
            lemma_same_keys_contains(keys, o@, keys[j]);
            let m = choose|m: int| 0 <= m < o@.len() && o@[m] == keys[j];
            assert(o@[0].0 <= o@[m].0);
            assert(o@[m].0 <= o@[o@.len() - 1].0);
        }
        let mut points: Vec<(usize, usize)> = Vec::new();
        let mut k: usize = 0;
        while k < o.len()
            invariant
                k <= o.len(),
                value@.len() > 0,
                castable_dates(motion_dates(value@)),
                forall|m: int| 0 <= m < o@.len() ==> #[trigger] o@[m].1 < value@.len() && o@[m].0
                    == value@[o@[m].1 as int].0.date_tabled as i128,
                forall|j: int| 0 <= j < value@.len() ==> min <= #[trigger] value@[j].0.date_tabled,
                exists|j: int| 0 <= j < value@.len() && min == #[trigger] value@[j].0.date_tabled,
                points@ == motion_points(value@, o@, min).take(k as int),
            decreases o.len() - k,
        {
            let idx = o[k].1;
            let d = value[idx].0.date_tabled;
            proof {
                let j = choose|j: int| 0 <= j < value@.len() && min == #[trigger] value@[j].0.date_tabled;
                assert(motion_dates(value@)[j] == min);
                assert(motion_dates(value@)[idx as int] == d);
                assert((min as usize) <= (d as usize));
            }
            let days = ((d as usize) - (min as usize)) / DAY_MILLIS;
            points.push((days, value[idx].1.len()));
            assert(points@ =~= motion_points(value@, o@, min).take(k + 1));
            k = k + 1;
        }
        assert(motion_points(value@, o@, min).take(o.len() as int) =~= motion_points(value@, o@, min));
        let graph = LineGraph::new(points, String::from_str("#808080"), (true, false)).collapse_x();
        let start_date = format_day_month_year(min);
        let end_date = format_day_month_year(max);
        proof {
            assert(value@[last as int].0.date_tabled == max);
        }
        Self::new(
            graph,
            default_colour_list(),
            min,
            start_date,
            end_date,
            String::from_str(
                "Early Day Motions (as supporting signatures) over date tabled (as time in days)",
            ),
        )
    }
}

/// Milliseconds in an hour.
pub const HOUR_MILLIS: usize = 3600000;

/// The hours from `min` to `d`.
pub open spec fn hours_after(d: i64, min: i64) -> usize {
    (((d as usize) - (min as usize)) / 3600000) as usize
}

/// The dates the signatures were made.
pub open spec fn creation_dates(value: Seq<Signature>) -> Seq<i64> {
    Seq::new(value.len(), |i: int| value[i].creation_date)
}

/// The dates the signatures were made, each with its position.
pub open spec fn creation_keys(value: Seq<Signature>) -> Seq<(i128, usize)> {
    Seq::new(value.len(), |i: int| (value[i].creation_date as i128, i as usize))
}

/// The parties of the signatures, each with its position.
pub open spec fn party_keys(value: Seq<Signature>) -> Seq<(i128, usize)> {
    Seq::new(value.len(), |i: int| (value[i].party._id as i128, i as usize))
}

/// The positions of the first `n` signatures that are of party `pid`.
pub open spec fn party_indices(value: Seq<Signature>, pid: u32, n: nat) -> Seq<usize>
    decreases n,
{
    if n == 0 {
        Seq::empty()
    } else if value[n - 1].party._id == pid {
        party_indices(value, pid, (n - 1) as nat).push((n - 1) as usize)
    } else {
        party_indices(value, pid, (n - 1) as nat)
    }
}

/// How a sponsoring order sorts: none before any.
pub open spec fn order_key(o: Option<u32>) -> i128 {
    match o {
        Some(v) => v as i128,
        None => -1i128,
    }
}

/// The given signatures keyed by sponsoring order.
pub open spec fn order_keys(value: Seq<Signature>, idx: Seq<usize>) -> Seq<(i128, usize)> {
    idx.map_values(|i: usize| (order_key(value[i as int].sponsoring_order), i))
}

/// The given pairs' signatures keyed by the date they were made.
pub open spec fn date_keys(value: Seq<Signature>, o: Seq<(i128, usize)>) -> Seq<(i128, usize)> {
    o.map_values(|p: (i128, usize)| (value[p.1 as int].creation_date as i128, p.1))
}

/// The running count of a party's signatures over the hours since the
/// earliest signature, in the order `o` gives.
pub open spec fn count_points(value: Seq<Signature>, o: Seq<(i128, usize)>, min: i64) -> Seq<(usize, usize)> {
    Seq::new(o.len(), |y: int| (hours_after(value[o[y].1 as int].creation_date, min), (y + 1) as usize))
}

/// Whether `g` is the line of party `pid`, whose first signature is at
/// `first`: its signatures ordered by the date they were made and then by
/// sponsoring order, counted up, in the party's colour, closed and filled.
pub open spec fn party_line(value: Seq<Signature>, pid: u32, first: usize, g: LineGraph, min: i64) -> bool {
    &&& exists|o1: Seq<(i128, usize)>, o2: Seq<(i128, usize)>|
        stably_sorted_key(o1, order_keys(value, party_indices(value, pid, value.len())))
            && stably_sorted_key(o2, date_keys(value, o1)) && g.points@ == count_points(value, o2, min)
    &&& g.colour@ == "#"@ + value[first as int].party.background_colour@
    &&& g.fill == (true, true)
}

fn party_indices_of(value: &Vec<Signature>, pid: u32) -> (r: Vec<usize>)
    ensures
        r@ == party_indices(value@, pid, value@.len()),
        forall|k: int| 0 <= k < r@.len() ==> #[trigger] r@[k] < value@.len(),
{
    let mut out: Vec<usize> = Vec::new();
    let mut i: usize = 0;
    while i < value.len()
        invariant
            i <= value.len(),
            out@ == party_indices(value@, pid, i as nat),
            forall|k: int| 0 <= k < out@.len() ==> #[trigger] out@[k] < i,
        decreases value.len() - i,
    {
        if value[i].party._id == pid {
            out.push(i);
        }
        i = i + 1;
    }
    out
}

/// The pairs of a keyed order all come from `keys`, whose values are
/// positions of `value`.
proof fn lemma_sorted_positions(keys: Seq<(i128, usize)>, o: Seq<(i128, usize)>, n: int)
    requires
        stably_sorted_key(o, keys),
        forall|k: int| 0 <= k < keys.len() ==> #[trigger] keys[k].1 < n,
    ensures
        forall|m: int| 0 <= m < o.len() ==> #[trigger] o[m].1 < n && keys.contains(o[m]),
{
    assert forall|m: int| 0 <= m < o.len() implies #[trigger] o[m].1 < n && keys.contains(o[m]) by {
        lemma_sorted_position(keys, o, n, m);
    }
}

proof fn lemma_sorted_position(keys: Seq<(i128, usize)>, o: Seq<(i128, usize)>, n: int, m: int)
    requires
        stably_sorted_key(o, keys),
        forall|k: int| 0 <= k < keys.len() ==> #[trigger] keys[k].1 < n,
        0 <= m < o.len(),
    ensures
        o[m].1 < n,
        keys.contains(o[m]),
{
    assert(o.contains(o[m]));
    lemma_same_keys_contains(o, keys, o[m]);
    let k = choose|k: int| 0 <= k < keys.len() && keys[k] == o[m];
    assert(keys[k].1 < n);
}

fn party_line_of(value: &Vec<Signature>, pid: u32, first: usize, min: i64) -> (r: LineGraph)
    requires
        first < value@.len(),
        castable_dates(creation_dates(value@)),
        forall|j: int| 0 <= j < value@.len() ==> min <= #[trigger] value@[j].creation_date,
        exists|j: int| 0 <= j < value@.len() && min == #[trigger] value@[j].creation_date,
    ensures
        party_line(value@, pid, first, r, min),
{
    let idx = party_indices_of(value, pid);
    let mut by_order: Vec<(i128, usize)> = Vec::new();
    let mut k: usize = 0;
    while k < idx.len()
        invariant
            k <= idx.len(),
            forall|k: int| 0 <= k < idx@.len() ==> #[trigger] idx@[k] < value@.len(),
            by_order@ == order_keys(value@, idx@).take(k as int),
        decreases idx.len() - k,
    {
        let i = idx[k];
        let key: i128 = match value[i].sponsoring_order {
            Some(v) => v as i128,
            None => -1,
        };
        by_order.push((key, i));
        assert(by_order@ =~= order_keys(value@, idx@).take(k + 1));
        k = k + 1;
    }
    assert(order_keys(value@, idx@).take(idx.len() as int) =~= order_keys(value@, idx@));
    let ghost keys1 = by_order@;
    let o1 = sort_by_key(by_order);
    proof {
        assert forall|k: int| 0 <= k < keys1.len() implies #[trigger] keys1[k].1 < value@.len() by {
            assert(keys1[k].1 == idx@[k]);
        }
        lemma_sorted_positions(keys1, o1@, value@.len() as int);
    }
    let mut by_date: Vec<(i128, usize)> = Vec::new();
    let mut k: usize = 0;
    while k < o1.len()
        invariant
            k <= o1.len(),
            forall|m: int| 0 <= m < o1@.len() ==> #[trigger] o1@[m].1 < value@.len() && keys1.contains(o1@[m]),
            by_date@ == date_keys(value@, o1@).take(k as int),
        decreases o1.len() - k,
    {
        let i = o1[k].1;
        by_date.push((value[i].creation_date as i128, i));
        assert(by_date@ =~= date_keys(value@, o1@).take(k + 1));
        k = k + 1;
    }
    assert(date_keys(value@, o1@).take(o1.len() as int) =~= date_keys(value@, o1@));
    let ghost keys2 = by_date@;
    let o2 = sort_by_key(by_date);
    proof {
        assert forall|k: int| 0 <= k < keys2.len() implies #[trigger] keys2[k].1 < value@.len() by {
            assert(keys2[k].1 == o1@[k].1);
        }
        lemma_sorted_positions(keys2, o2@, value@.len() as int);
    }
    let mut points: Vec<(usize, usize)> = Vec::new();
    let mut y: usize = 0;
    while y < o2.len()
        invariant
            y <= o2.len(),
            castable_dates(creation_dates(value@)),
            forall|j: int| 0 <= j < value@.len() ==> min <= #[trigger] value@[j].creation_date,
            exists|j: int| 0 <= j < value@.len() && min == #[trigger] value@[j].creation_date,
            forall|m: int| 0 <= m < o2@.len() ==> #[trigger] o2@[m].1 < value@.len() && keys2.contains(o2@[m]),
            points@ == count_points(value@, o2@, min).take(y as int),
        decreases o2.len() - y,
    {
        let i = o2[y].1;
        let d = value[i].creation_date;
        proof {
            let j = choose|j: int| 0 <= j < value@.len() && min == #[trigger] value@[j].creation_date;
            assert(creation_dates(value@)[j] == min);
            assert(creation_dates(value@)[i as int] == d);
        }
        let hours = ((d as usize) - (min as usize)) / HOUR_MILLIS;
        points.push((hours, y + 1));
        assert(points@ =~= count_points(value@, o2@, min).take(y + 1));
        y = y + 1;
    }
    assert(count_points(value@, o2@, min).take(o2.len() as int) =~= count_points(value@, o2@, min));
    proof {
        reveal_strlit("#");
    }
    let colour = String::from_str("#").concat(value[first].party.background_colour.as_str());
    LineGraph::new(points, colour, (true, true))
}

/// The legend entry of a party: its colour and abbreviation.
pub open spec fn party_label(s: Signature) -> (Seq<char>, Seq<char>) {
    ("#"@ + s.party.background_colour@, s.party.abbreviation@)
}

/// The parties, each keyed by how many signatures it has, negated, so that
/// ascending keys put the most signatures first.
pub open spec fn count_keys(value: Seq<Signature>, parties: Seq<(i128, usize)>) -> Seq<(i128, usize)> {
    parties.map_values(
        |p: (i128, usize)|
            (-(party_indices(value, value[p.1 as int].party._id, value.len()).len() as int) as i128, p.1),
    )
}


/// The lines' heights, negated, each with its position: ascending keys put
/// the tallest first.
pub open spec fn height_keys(lines: Seq<LineGraph>) -> Seq<(i128, usize)> {
    Seq::new(lines.len(), |j: int| ((-(max_y_of(lines[j].points@) as int)) as i128, j as usize))
}

/// Whether `graphs` are the party lines of the signatures: `lines` holds
/// the line of each party in order of first signature, `og` orders them by
/// height, tallest first, stably, and each graph is its line with its gaps
/// filled up to the largest x of all.
pub open spec fn party_graphs(
    value: Seq<Signature>,
    min: i64,
    lines: Seq<LineGraph>,
    og: Seq<(i128, usize)>,
    graphs: Seq<LineGraph>,
) -> bool {
    let ps = first_by_key(party_keys(value));
    let ordered = Seq::new(og.len(), |n: int| lines[og[n].1 as int]);
    &&& lines.len() == ps.len()
    &&& forall|j: int|
        0 <= j < ps.len() ==> party_line(value, value[ps[j].1 as int].party._id, ps[j].1, #[trigger] lines[j], min)
    &&& stably_sorted_key(og, height_keys(lines))
    &&& graphs.len() == og.len()
    &&& forall|m: int|
        0 <= m < og.len() ==> {
            &&& (#[trigger] graphs[m]).colour@ == ordered[m].colour@
            &&& graphs[m].fill == ordered[m].fill
            &&& filled(
                graphs[m].points@,
                ordered[m].points@,
                carried_gaps(ordered[m].points@, (graphs_max_x(ordered) + 1) as nat),
            )
        }
}

/// Signatures of each party over the hours since the earliest, stacked.
#[derive(Debug)]
pub struct StackedSignaturesPerPartyOverTimeGraph {
    pub graph: StackedGraph,
    pub title: String,
    /// The earliest and latest dates of the signatures, in milliseconds
    /// since the Unix epoch.
    pub start_date: i64,
    pub end_date: i64,
    pub labels: Vec<(String, String)>,
}

impl StackedSignaturesPerPartyOverTimeGraph {
    pub fn new(
        graph: StackedGraph,
        title: String,
        start_date: i64,
        end_date: i64,
        labels: Vec<(String, String)>,
    ) -> (r: Self)
        ensures
            r.graph == graph,
            r.title == title,
            r.start_date == start_date,
            r.end_date == end_date,
            r.labels == labels,
    {
        Self { graph, title, start_date, end_date, labels }
    }

    /// The graph of the signatures: one line for each party (in order of
    /// first signature), counting its signatures up over the hours since the
    /// earliest; the lines ordered by height, tallest first, stably; their
    /// gaps filled; and a legend of the parties by their number of
    /// signatures, most first.
    pub fn from_signatures(value: &Vec<Signature>) -> (r: Self)
        requires
            value@.len() > 0,
            castable_dates(creation_dates(value@)),
        ensures
            forall|i: int| 0 <= i < value@.len() ==> r.start_date <= #[trigger] value@[i].creation_date
                && value@[i].creation_date <= r.end_date,
            exists|i: int| 0 <= i < value@.len() && r.start_date == #[trigger] value@[i].creation_date,
            exists|i: int| 0 <= i < value@.len() && r.end_date == #[trigger] value@[i].creation_date,
            r.title@ == "Supporting signatures (per party) over date signed (as time in days)"@,
            exists|ls: Seq<(i128, usize)>|
                stably_sorted_key(ls, count_keys(value@, first_by_key(party_keys(value@)))) && r.labels@.len()
                    == ls.len() && forall|k: int|
                    0 <= k < ls.len() ==> (#[trigger] r.labels@[k].0@, r.labels@[k].1@) == party_label(
                        value@[ls[k].1 as int],
                    ),
            exists|lines: Seq<LineGraph>, og: Seq<(i128, usize)>|
                #[trigger] party_graphs(value@, r.start_date, lines, og, r.graph.graphs@),
    {
        // The earliest and latest dates.
        let mut keyed: Vec<(i128, usize)> = Vec::new();
        let mut i: usize = 0;
        while i < value.len()
            invariant
                i <= value.len(),
                keyed@ == creation_keys(value@).take(i as int),
            decreases value.len() - i,
        {
            keyed.push((value[i].creation_date as i128, i));
            assert(keyed@ =~= creation_keys(value@).take(i + 1));
            i = i + 1;
        }
        assert(creation_keys(value@).take(value.len() as int) =~= creation_keys(value@));
        let ghost keys = keyed@;
        let o = sort_by_key(keyed);
        proof {
            assert(keys.contains(keys[0]));
            lemma_same_keys_contains(keys, o@, keys[0]);
            assert forall|k: int| 0 <= k < keys.len() implies #[trigger] keys[k].1 < value@.len() by {}
            lemma_sorted_positions(keys, o@, value@.len() as int);
        }
        let min = value[o[0].1].creation_date;
        let max = value[o[o.len() - 1].1].creation_date;
        assert forall|j: int| 0 <= j < value@.len() implies min <= #[trigger] value@[j].creation_date
            && value@[j].creation_date <= max by {
            assert(keys[j] == (value@[j].creation_date as i128, j as usize));
            assert(keys.contains(keys[j]));
            lemma_same_keys_contains(keys, o@, keys[j]);
            let m = choose|m: int| 0 <= m < o@.len() && o@[m] == keys[j];
            assert(o@[0].0 <= o@[m].0);
            assert(o@[m].0 <= o@[o@.len() - 1].0);
            let a = choose|a: int| 0 <= a < keys.len() && keys[a] == o@[0];
            let b = choose|b: int| 0 <= b < keys.len() && keys[b] == o@[o@.len() - 1];
        }
        assert(min == value@[o@[0].1 as int].creation_date);
        // The parties, in order of first signature.
        let mut pk: Vec<(i128, usize)> = Vec::new();
        let mut i: usize = 0;
        while i < value.len()
            invariant
                i <= value.len(),
                pk@ == party_keys(value@).take(i as int),
            decreases value.len() - i,
        {
            pk.push((value[i].party._id as i128, i));
            assert(pk@ =~= party_keys(value@).take(i + 1));
            i = i + 1;
        }
        assert(party_keys(value@).take(value.len() as int) =~= party_keys(value@));
        let ghost pkv = pk@;
        let parties = unique_by_key(pk);
        proof {
            lemma_first_by_key_within(pkv);
        }
        assert forall|j: int| 0 <= j < parties@.len() implies #[trigger] parties@[j].1 < value@.len() && parties@[j].0
            == value@[parties@[j].1 as int].party._id as i128 by {
            assert(pkv.contains(parties@[j]));
        }
        // One line for each party.
        let mut lines: Vec<LineGraph> = Vec::new();
        let mut ck: Vec<(i128, usize)> = Vec::new();
        let mut gk: Vec<(i128, usize)> = Vec::new();
        let mut j: usize = 0;
        while j < parties.len()
            invariant
                j <= parties.len(),
                parties@ == first_by_key(party_keys(value@)),
                forall|j: int| 0 <= j < parties@.len() ==> #[trigger] parties@[j].1 < value@.len() && parties@[j].0
                    == value@[parties@[j].1 as int].party._id as i128,
                castable_dates(creation_dates(value@)),
                forall|j: int| 0 <= j < value@.len() ==> min <= #[trigger] value@[j].creation_date,
                exists|j: int| 0 <= j < value@.len() && min == #[trigger] value@[j].creation_date,
                lines@.len() == j,
                forall|m: int|
                    0 <= m < j ==> party_line(
                        value@,
                        value@[parties@[m].1 as int].party._id,
                        parties@[m].1,
                        #[trigger] lines@[m],
                        min,
                    ),
                ck@ == count_keys(value@, parties@).take(j as int),
                gk@ == height_keys(lines@),
            decreases parties.len() - j,
        {
            let first = parties[j].1;
            let pid = value[first].party._id;
            let line = party_line_of(value, pid, first, min);
            let count = party_indices_of(value, pid).len();
            ck.push((0 - (count as i128), first));
            let h = line.max_y();
            gk.push((0 - (h as i128), j));
            lines.push(line);
            assert(ck@ =~= count_keys(value@, parties@).take(j + 1));
            assert(gk@ =~= height_keys(lines@));
            j = j + 1;
        }
        assert(count_keys(value@, parties@).take(parties.len() as int) =~= count_keys(value@, parties@));
        // The legend, most signatures first.
        let ghost ckv = ck@;
        let by_count = sort_by_key(ck);
        proof {
            assert forall|k: int| 0 <= k < ckv.len() implies #[trigger] ckv[k].1 < value@.len() by {
                assert(ckv[k].1 == parties@[k].1);
            }
            lemma_sorted_positions(ckv, by_count@, value@.len() as int);
            reveal_strlit("#");
        }
        let mut labels: Vec<(String, String)> = Vec::new();
        let mut k: usize = 0;
        while k < by_count.len()
            invariant
                k <= by_count.len(),
                forall|m: int| 0 <= m < by_count@.len() ==> #[trigger] by_count@[m].1 < value@.len() && ckv.contains(by_count@[m]),
                labels@.len() == k,
                forall|m: int|
                    0 <= m < k ==> (#[trigger] labels@[m].0@, labels@[m].1@) == party_label(value@[by_count@[m].1 as int]),
            decreases by_count.len() - k,
        {
            let s = &value[by_count[k].1];
            let colour = String::from_str("#").concat(s.party.background_colour.as_str());
            labels.push((colour, s.party.abbreviation.clone()));
            k = k + 1;
        }
        // The lines, tallest first.
        let ghost gkv = gk@;
        let by_height = sort_by_key(gk);
        proof {
            assert forall|k: int| 0 <= k < gkv.len() implies #[trigger] gkv[k].1 < lines@.len() by {}
            lemma_sorted_positions(gkv, by_height@, lines@.len() as int);
        }
        let mut ordered: Vec<LineGraph> = Vec::new();
        let mut k: usize = 0;
        while k < by_height.len()
            invariant
                k <= by_height.len(),
                forall|m: int| 0 <= m < by_height@.len() ==> #[trigger] by_height@[m].1 < lines@.len() && gkv.contains(by_height@[m]),
                ordered@.len() == k,
                forall|m: int|
                    0 <= m < k ==> (#[trigger] ordered@[m]).points@ == lines@[by_height@[m].1 as int].points@
                        && ordered@[m].colour == lines@[by_height@[m].1 as int].colour
                        && ordered@[m].fill == lines@[by_height@[m].1 as int].fill,
            decreases by_height.len() - k,
        {
            ordered.push(lines[by_height[k].1].copy());
            k = k + 1;
        }
        let ghost pre = ordered@;
        let graph = StackedGraph::new(ordered).fill_gaps();
        proof {
            let ls = lines@;
            let og = by_height@;
            assert(Seq::new(og.len(), |n: int| ls[og[n].1 as int]).len() == pre.len());
            let ord = Seq::new(og.len(), |n: int| ls[og[n].1 as int]);
            assert(graphs_max_x(pre) == graphs_max_x(ord)) by {
                lemma_graphs_max_x_points(pre, ord);
            }
            assert forall|m: int| 0 <= m < og.len() implies {
                &&& (#[trigger] graph.graphs@[m]).colour@ == ord[m].colour@
                &&& graph.graphs@[m].fill == ord[m].fill
                &&& filled(
                    graph.graphs@[m].points@,
                    ord[m].points@,
                    carried_gaps(ord[m].points@, (graphs_max_x(ord) + 1) as nat),
                )
            } by {
                assert(pre[m].points@ == ord[m].points@);
            }
            assert(party_graphs(value@, min, ls, og, graph.graphs@));
        }
        Self::new(
            graph,
            String::from_str("Supporting signatures (per party) over date signed (as time in days)"),
            min,
            max,
            labels,
        )
    }
}

/// The largest x over graphs depends only on their points.
pub proof fn lemma_graphs_max_x_points(a: Seq<LineGraph>, b: Seq<LineGraph>)
    requires
        a.len() == b.len(),
        forall|i: int| 0 <= i < a.len() ==> (#[trigger] a[i]).points@ == b[i].points@,
    ensures
        graphs_max_x(a) == graphs_max_x(b),
    decreases a.len(),
{
    if a.len() > 0 {
        lemma_graphs_max_x_points(a.drop_last(), b.drop_last());
        assert(a.last().points@ == b.last().points@);
    }
}

/// The month of the date `ms` milliseconds after the Unix epoch (UTC), 1 to
/// 12.
pub uninterp spec fn utc_month(ms: i64) -> u32;

/// The day of the month of the date `ms` (UTC), 1 to 31.
pub uninterp spec fn utc_day(ms: i64) -> u32;

/// The hour of the date `ms` (UTC), 0 to 23.
pub uninterp spec fn utc_hour(ms: i64) -> u32;

/// The date one month before `ms` (UTC, the day kept where the month has
/// it, else its last day), or `None` where `chrono` cannot represent it.
pub uninterp spec fn month_earlier(ms: i64) -> Option<i64>;

/// `Datelike::month` of `bson::DateTime::from_millis(ms).to_chrono()`.
/// Claims that the result is the named month, from 1 to 12.
#[verifier::external_body]
fn month_of(ms: i64) -> (r: u32)
    ensures
        r == utc_month(ms),
        1 <= r <= 12,
{
    bson::DateTime::from_millis(ms).to_chrono().month()
}

/// `Datelike::day` of `bson::DateTime::from_millis(ms).to_chrono()`.
/// Claims that the result is the named day, from 1 to 31.
#[verifier::external_body]
fn day_of(ms: i64) -> (r: u32)
    ensures
        r == utc_day(ms),
        1 <= r <= 31,
{
    bson::DateTime::from_millis(ms).to_chrono().day()
}

/// `Timelike::hour` of `bson::DateTime::from_millis(ms).to_chrono()`.
/// Claims that the result is the named hour, from 0 to 23.
#[verifier::external_body]
fn hour_of(ms: i64) -> (r: u32)
    ensures
        r == utc_hour(ms),
        r <= 23,
{
    bson::DateTime::from_millis(ms).to_chrono().hour()
}

/// `DateTime::checked_sub_months` by one month of
/// `bson::DateTime::from_millis(ms).to_chrono()`, as milliseconds. Claims
/// that the result is the named date, and that its month is the month
/// before.
#[verifier::external_body]
fn one_month_earlier(ms: i64) -> (r: Option<i64>)
    ensures
        r == month_earlier(ms),
        r matches Some(p) ==> utc_month(p) == (if utc_month(ms) == 1 {
            12
        } else {
            (utc_month(ms) - 1) as u32
        }),
{
    bson::DateTime::from_millis(ms).to_chrono().checked_sub_months(chrono::Months::new(1)).map(
        |d| d.timestamp_millis(),
    )
}

/// The days counted back from `ms` to January: its day, then the day of
/// the date a month before, and so on to a date in January, whose day is
/// counted too; `None` when a month before cannot be had within `steps`
/// steps.
pub open spec fn days_back(ms: i64, steps: nat) -> Option<int>
    decreases steps,
{
    if utc_month(ms) == 1 {
        Some(utc_day(ms) as int)
    } else if steps == 0 {
        None
    } else {
        match month_earlier(ms) {
            Some(p) => match days_back(p, (steps - 1) as nat) {
                Some(d) => Some(d + utc_day(ms)),
                None => None,
            },
            None => None,
        }
    }
}

/// The days counted back from a date to January, a month at a time (see
/// [`days_back`]); `None` where a month before cannot be had.
pub fn days_into_year(ms: i64) -> (r: Option<u32>)
    ensures
        match r {
            Some(d) => days_back(ms, 11) == Some(d as int),
            None => days_back(ms, 11) is None,
        },
{
    let mut date = ms;
    let mut days: u32 = 0;
    let mut used: u32 = 0;
    let start_month = month_of(ms);
    loop
        invariant
            start_month == utc_month(ms),
            1 <= start_month <= 12,
            used <= 11,
            utc_month(date) == start_month - used,
            days <= 31 * used,
            days_back(ms, 11) == match days_back(date, (11 - used) as nat) {
                Some(d) => Some(d + days),
                None => None,
            },
        decreases 11 - used,
    {
        let m = month_of(date);
        let d = day_of(date);
        if m == 1 {
            return Some(days + d);
        }
        assert(used < 11);
        match one_month_earlier(date) {
            Some(p) => {
                days = days + d;
                date = p;
                used = used + 1;
            },
            None => {
                return None;
            },
        }
    }
}

/// The last point of `c` whose x is below `p`'s, or `p`.
pub open spec fn last_before(c: Seq<(usize, usize)>, p: (usize, usize)) -> (usize, usize)
    decreases c.len(),
{
    if c.len() == 0 {
        p
    } else if c.last().0 < p.0 {
        c.last()
    } else {
        last_before(c.drop_last(), p)
    }
}

/// The first point of `c` whose x is above `p`'s, or `p`.
pub open spec fn first_after(c: Seq<(usize, usize)>, p: (usize, usize)) -> (usize, usize)
    decreases c.len(),
{
    if c.len() == 0 {
        p
    } else if c[0].0 > p.0 {
        c[0]
    } else {
        first_after(c.drop_first(), p)
    }
}

/// The mark of the point `p` of the line `c`: a thick stroke from the point
/// before to `p` and on to the point after.
pub open spec fn highlight(colour: Seq<char>, c: Seq<(usize, usize)>, p: (usize, usize)) -> ElementV {
    let b = last_before(c, p);
    let a = first_after(c, p);
    ElementV::new("path"@).set_text("fill"@, "none"@).set_text("stroke"@, colour).set(
        "stroke-width"@,
        AttrV::Number(5),
    ).set(
        "d"@,
        AttrV::Path(
            seq![
                PathCommand::MoveTo(b.0, b.1),
                PathCommand::LineTo(p.0, p.1),
                PathCommand::LineTo(a.0, a.1),
            ],
        ),
    )
}

fn last_before_of(c: &Vec<(usize, usize)>, p: (usize, usize)) -> (r: (usize, usize))
    ensures
        r == last_before(c@, p),
{
    let mut i: usize = c.len();
    assert(c@.take(c.len() as int) =~= c@);
    while i > 0
        invariant
            i <= c.len(),
            last_before(c@, p) == last_before(c@.take(i as int), p),
        decreases i,
    {
        assert(c@.take(i as int).drop_last() =~= c@.take(i - 1));
        if c[i - 1].0 < p.0 {
            return c[i - 1];
        }
        i = i - 1;
    }
    p
}

fn first_after_of(c: &Vec<(usize, usize)>, p: (usize, usize)) -> (r: (usize, usize))
    ensures
        r == first_after(c@, p),
{
    let mut i: usize = 0;
    assert(c@.skip(0) =~= c@);
    while i < c.len()
        invariant
            i <= c.len(),
            first_after(c@, p) == first_after(c@.skip(i as int), p),
        decreases c.len() - i,
    {
        assert(c@.skip(i as int).drop_first() =~= c@.skip(i + 1));
        if c[i].0 > p.0 {
            return c[i];
        }
        i = i + 1;
    }
    p
}

/// The marks of the highest points of the line `c`, one in each colour:
/// `oy` is `c` ordered by height, highest first.
pub open spec fn highlights(colours: Seq<String>, c: Seq<(usize, usize)>, oy: Seq<(usize, usize)>) -> Seq<ElementV> {
    Seq::new(colours.len(), |i: int| highlight(colours[i]@, c, oy[i]))
}

/// Whether `oy` is `c` ordered by y, highest first, stably.
pub open spec fn stably_sorted_y_desc(oy: Seq<(usize, usize)>, c: Seq<(usize, usize)>) -> bool {
    &&& oy.len() == c.len()
    &&& sorted_by_y_desc(oy)
    &&& forall|v: usize| #[trigger] with_y(oy, v) == with_y(c, v)
}

/// `e` with the children added in order.
pub open spec fn add_all(e: ElementV, cs: Seq<ElementV>) -> ElementV
    decreases cs.len(),
{
    if cs.len() == 0 {
        e
    } else {
        add_all(e, cs.drop_last()).add(cs.last())
    }
}

/// A bold grey text of the given size, at the given place and anchored as
/// given, centred on its line.
pub open spec fn label_text(content: Seq<char>, x: Seq<char>, y: Seq<char>, anchor: Seq<char>, size: Seq<char>) -> ElementV {
    ElementV::new("text"@).with_text(content).set_text("x"@, x).set_text("y"@, y).set_text(
        "fill"@,
        "#707070"@,
    ).set_text("font-family"@, "sans-serif"@).set_text("font-size"@, size).set_text(
        "font-weight"@,
        "bold"@,
    ).set_text("text-anchor"@, anchor).set_text("dominant-baseline"@, "middle"@)
}

fn label_text_of(content: &str, x: &str, y: &str, anchor: &str, size: &str) -> (r: Element)
    ensures
        r.model() == label_text(content@, x@, y@, anchor@, size@),
{
    Element::new("text").with_text(String::from_str(content)).set_text("x", x).set_text("y", y).set_text(
        "fill",
        "#707070",
    ).set_text("font-family", "sans-serif").set_text("font-size", size).set_text(
        "font-weight",
        "bold",
    ).set_text("text-anchor", anchor).set_text("dominant-baseline", "middle")
}

/// The title strip at the top of a picture.
pub open spec fn title_strip(title: Seq<char>) -> ElementV {
    ElementV::new("svg"@).add(label_text(title, "50%"@, "50%"@, "middle"@, "30px"@)).set_text(
        "width"@,
        "100%"@,
    ).set_text("height"@, "5%"@)
}

fn title_strip_of(title: &str) -> (r: Element)
    ensures
        r.model() == title_strip(title@),
{
    Element::new("svg").add(label_text_of(title, "50%", "50%", "middle", "30px")).set_text(
        "width",
        "100%",
    ).set_text("height", "5%")
}

/// The strip with the first and last dates, under the x axis.
pub open spec fn date_strip(start: Seq<char>, end: Seq<char>) -> ElementV {
    ElementV::new("svg"@).add(label_text(start, "0.75%"@, "62.5%"@, "start"@, "28px"@)).add(
        label_text(end, "99.25%"@, "62.5%"@, "end"@, "28px"@),
    ).set_text("y"@, "95%"@).set_text("width"@, "100%"@).set_text("height"@, "5%"@).set_text(
        "preserveAspectRatio"@,
        "none"@,
    )
}

fn date_strip_of(start: &str, end: &str) -> (r: Element)
    ensures
        r.model() == date_strip(start@, end@),
{
    Element::new("svg").add(label_text_of(start, "0.75%", "62.5%", "start", "28px")).add(
        label_text_of(end, "99.25%", "62.5%", "end", "28px"),
    ).set_text("y", "95%").set_text("width", "100%").set_text("height", "5%").set_text(
        "preserveAspectRatio",
        "none",
    )
}

/// The legend of the highlighted motions: each colour with `#` and its
/// place, from 1.
pub open spec fn highlight_labels(colours: Seq<String>) -> Seq<(Seq<char>, Seq<char>)> {
    Seq::new(colours.len(), |i: int| (colours[i]@, "#"@ + crate::text::decimal_digits((i + 1) as nat)))
}

/// The picture of motions over time, without its legend: the title; the
/// line, with its highest points marked, mirrored upright; the lines of the
/// y axis; the dashes that mark each year on the x axis (the first after
/// `days`); the first and last dates; and the numbers of the y axis, drawn
/// a thirteenth as wide.
pub open spec fn supporting_document(
    g: SupportingSignaturesOverTimeGraph,
    line_doc: ElementV,
    marks: Seq<ElementV>,
    days: int,
) -> ElementV {
    let w = max_x_of(g.graph.points@);
    let h = max_y_of(g.graph.points@);
    let plot = ElementV::new("svg"@).add(
        inverted_model(
            add_all(line_doc, marks).set_text("preserveAspectRatio"@, "none"@).set(
                "stroke-width"@,
                AttrV::Number(4),
            ),
            false,
            true,
            true,
        ),
    ).set_text("y"@, "5%"@).set_text("width"@, "100%"@).set_text("height"@, "87.5%"@);
    let lines = document_of(
        y_lines_group(w, h, DEFAULT_LINES, "#50505070"@),
        (w + 16) as usize,
        (h + 16) as usize,
    ).set_text("y"@, "5%"@).set_text("width"@, "100.1%"@).set_text("height"@, "87.5%"@).set_text(
        "preserveAspectRatio"@,
        "none"@,
    );
    let dashes = document_of(
        x_dashes_group(w, (365 - days) as usize, 365, "#50505070"@),
        (w + 16) as usize,
        (h + 16) as usize,
    ).set_text("y"@, "92.5%"@).set_text("width"@, "100%"@).set_text("height"@, "2.5%"@).set_text(
        "preserveAspectRatio"@,
        "none"@,
    );
    let body = ElementV::new("svg"@).add(title_strip(g.title@)).add(plot).add(lines).add(dashes).add(
        date_strip(g.start_date@, g.end_date@),
    ).set_text("x"@, "2.5%"@).set_text("width"@, "97.5%"@).set_text("height"@, "100%"@);
    let numbers = document_of(
        y_numbers_group(h, DEFAULT_LINES, "#707070"@, (h / 23) as usize),
        (h + 16) as usize,
        (h + 16) as usize,
    ).set_text("x"@, "-0.9%"@).set_text("y"@, "5%"@).set_text("width"@, "2%"@).set_text(
        "height"@,
        "87.5%"@,
    ).set_text("preserveAspectRatio"@, "none"@);
    ElementV::new("svg"@).add(
        ElementV::new("svg"@).add(body).add(
            ElementV::new("g"@).add(numbers).set_text("transform"@, "scale(12.5, 1)"@),
        ).set_text("width"@, "100%"@).set_text("height"@, "90%"@),
    )
}

impl SupportingSignaturesOverTimeGraph {
    /// Whether the picture can be drawn, the dashes starting `days` before
    /// the end of a year: the line can be closed, each axis is tall enough
    /// to be marked, the sizes fit, and there are as many points as colours.
    pub open spec fn drawable(&self, days: int) -> bool {
        let w = max_x_of(self.graph.points@);
        let h = max_y_of(self.graph.points@);
        &&& 0 <= days <= 365
        &&& self.graph.fill.0 ==> closable(self.graph.points@)
        &&& w + 16 <= usize::MAX
        &&& h + 16 <= usize::MAX
        &&& (h == 0 || h >= DEFAULT_LINES)
        &&& self.colours@.len() <= x_values(self.graph.points@).len()
    }

    /// The picture without its legend (see [`supporting_document`]); the
    /// year's dashes start [`days_back`] days before the end of the year of
    /// the earliest date.
    pub fn document_exact(&self) -> (r: Element)
        requires
            days_back(self.start_dt, 11) matches Some(d) && self.drawable(d),
        ensures
            exists|line_doc: ElementV, c: Seq<(usize, usize)>, oy: Seq<(usize, usize)>|
                #![trigger supporting_document(*self, line_doc, highlights(self.colours@, c, oy), days_back(self.start_dt, 11)->0)]
                line_document(line_doc, self.graph) && collapsed(c, self.graph.points@)
                    && stably_sorted_y_desc(oy, c) && r.model() == supporting_document(
                    *self,
                    line_doc,
                    highlights(self.colours@, c, oy),
                    days_back(self.start_dt, 11)->0,
                ),
    {
        let days = match days_into_year(self.start_dt) {
            Some(d) => d,
            None => 0,
        };
        let w = self.graph.max_x();
        let h = self.graph.max_y();
        // The line, its highest points marked.
        let c = collapse_points(copy_points(&self.graph.points));
        proof {
            lemma_collapsed_len(c@, self.graph.points@);
        }
        let oy = sort_points_by_y_desc(copy_points(&c));
        let mut plot = self.graph.document();
        let ghost line_doc = plot.model();
        let mut i: usize = 0;
        while i < self.colours.len()
            invariant
                i <= self.colours.len(),
                self.colours@.len() <= oy@.len(),
                plot.model() == add_all(line_doc, highlights(self.colours@, c@, oy@).take(i as int)),
            decreases self.colours.len() - i,
        {
            let p = oy[i];
            let b = last_before_of(&c, p);
            let a = first_after_of(&c, p);
            let mut data: Vec<PathCommand> = Vec::new();
            data.push(PathCommand::MoveTo(b.0, b.1));
            data.push(PathCommand::LineTo(p.0, p.1));
            data.push(PathCommand::LineTo(a.0, a.1));
            assert(data@ =~= seq![
                PathCommand::MoveTo(b.0, b.1),
                PathCommand::LineTo(p.0, p.1),
                PathCommand::LineTo(a.0, a.1),
            ]);
            let mark = Element::new("path").set_text("fill", "none").set(
                "stroke",
                AttrValue::Text(self.colours[i].clone()),
            ).set("stroke-width", AttrValue::Number(5)).set("d", AttrValue::Path(data));
            plot = plot.add(mark);
            assert(highlights(self.colours@, c@, oy@).take(i + 1).drop_last() =~= highlights(
                self.colours@,
                c@,
                oy@,
            ).take(i as int));
            i = i + 1;
        }
        assert(highlights(self.colours@, c@, oy@).take(self.colours.len() as int) =~= highlights(
            self.colours@,
            c@,
            oy@,
        ));
        let plot = plot.set_text("preserveAspectRatio", "none").set("stroke-width", AttrValue::Number(4));
        let plot = Element::new("svg").add(Inverted::new(plot, false, true, true).group()).set_text(
            "y",
            "5%",
        ).set_text("width", "100%").set_text("height", "87.5%");
        // The axes.
        let lines = GraphYAxisLines::from_line(&self.graph).document().set_text("y", "5%").set_text(
            "width",
            "100.1%",
        ).set_text("height", "87.5%").set_text("preserveAspectRatio", "none");
        let mut dashes = GraphXAxisDashes::from_line(&self.graph);
        dashes.interval = (365 - days as usize, 365);
        let dashes = dashes.document().set_text("y", "92.5%").set_text("width", "100%").set_text(
            "height",
            "2.5%",
        ).set_text("preserveAspectRatio", "none");
        let body = Element::new("svg").add(title_strip_of(self.title.as_str())).add(plot).add(
            lines,
        ).add(dashes).add(date_strip_of(self.start_date.as_str(), self.end_date.as_str())).set_text(
            "x",
            "2.5%",
        ).set_text("width", "97.5%").set_text("height", "100%");
        let mut axis = GraphYAxisNumbers::from_line(&self.graph);
        axis.font_size = axis.height / 23;
        let numbers = axis.document().set_text("x", "-0.9%").set_text("y", "5%").set_text(
            "width",
            "2%",
        ).set_text("height", "87.5%").set_text("preserveAspectRatio", "none");
        let r = Element::new("svg").add(
            Element::new("svg").add(body).add(
                Element::new("g").add(numbers).set_text("transform", "scale(12.5, 1)"),
            ).set_text("width", "100%").set_text("height", "90%"),
        );
        assert(r.model() == supporting_document(*self, line_doc, highlights(self.colours@, c@, oy@), days as int));
        r
    }

    /// The picture without its legend, where it can be drawn (see
    /// [`Self::document_exact`]); `None` where a month before the earliest
    /// date cannot be had or the picture cannot be drawn.
    pub fn document(&self) -> (r: Option<Element>)
        ensures
            r is Some <==> (days_back(self.start_dt, 11) matches Some(d) && self.drawable(d)),
            r matches Some(e) ==> exists|line_doc: ElementV, c: Seq<(usize, usize)>, oy: Seq<(usize, usize)>|
                #![trigger supporting_document(*self, line_doc, highlights(self.colours@, c, oy), days_back(self.start_dt, 11)->0)]
                line_document(line_doc, self.graph) && collapsed(c, self.graph.points@)
                    && stably_sorted_y_desc(oy, c) && e.model() == supporting_document(
                    *self,
                    line_doc,
                    highlights(self.colours@, c, oy),
                    days_back(self.start_dt, 11)->0,
                ),
    {
        let days = match days_into_year(self.start_dt) {
            Some(d) => d,
            None => {
                return None;
            },
        };
        let w = self.graph.max_x();
        let h = self.graph.max_y();
        if days > 365 || w > usize::MAX - 16 || h > usize::MAX - 16 || (h != 0 && h < DEFAULT_LINES) {
            return None;
        }
        if self.graph.fill.0 && !is_closable(&self.graph.points) {
            return None;
        }
        let c = collapse_points(copy_points(&self.graph.points));
        proof {
            lemma_collapsed_len(c@, self.graph.points@);
        }
        if self.colours.len() > c.len() {
            return None;
        }
        Some(self.document_exact())
    }

    /// The legend of the marked motions: each colour, with `#` and its place
    /// from 1. Its layout, in fractions of the width, is the caller's.
    pub fn labels(&self) -> (r: Vec<(String, String)>)
        ensures
            r@.len() == self.colours@.len(),
            forall|i: int| 0 <= i < r@.len() ==> (#[trigger] r@[i].0@, r@[i].1@) == highlight_labels(self.colours@)[i],
    {
        let mut out: Vec<(String, String)> = Vec::new();
        let mut i: usize = 0;
        proof {
            reveal_strlit("#");
        }
        while i < self.colours.len()
            invariant
                i <= self.colours.len(),
                out@.len() == i,
                forall|j: int| 0 <= j < i ==> (#[trigger] out@[j].0@, out@[j].1@) == highlight_labels(self.colours@)[j],
            decreases self.colours.len() - i,
        {
            let n = crate::text::digits_text((i + 1) as u64);
            out.push((self.colours[i].clone(), String::from_str("#").concat(n.as_str())));
            i = i + 1;
        }
        out
    }
}

/// Whether a line through the points can be closed (see [`closable`]).
fn is_closable(points: &Vec<(usize, usize)>) -> (r: bool)
    ensures
        r == closable(points@),
{
    let mut i: usize = 0;
    let mut m: usize = 0;
    let mut y: Option<usize> = None;
    while i < points.len()
        invariant
            i <= points.len(),
            m == max_x_of(points@.take(i as int)),
            y == closing_y(points@.take(i as int)),
        decreases points.len() - i,
    {
        let (px, py) = points[i];
        assert(points@.take(i + 1).drop_last() =~= points@.take(i as int));
        assert(points@.take(i + 1).last() == (px, py));
        if px >= m {
            y = Some(py);
            m = px;
        }
        i = i + 1;
    }
    assert(points@.take(points.len() as int) =~= points@);
    match y {
        Some(v) => (v as isize) != isize::MIN,
        None => true,
    }
}

/// The picture of signatures per party over time, without its legend: the
/// title; the stacked graph mirrored upright; the lines of the y axis; its
/// numbers, drawn a thirteenth as wide; the dashes that mark each day on
/// the x axis (the first at the end of the earliest date's day); and the
/// first and last dates.
pub open spec fn party_document(g: StackedSignaturesPerPartyOverTimeGraph, stacked_doc: ElementV) -> ElementV {
    let w = graphs_max_x(g.graph.graphs@);
    let h = graphs_max_y(g.graph.graphs@) as usize;
    let plot = ElementV::new("svg"@).add(
        inverted_model(stacked_doc.set_text("preserveAspectRatio"@, "none"@), false, true, true),
    ).set_text("y"@, "5%"@).set_text("width"@, "100%"@).set_text("height"@, "87.5%"@);
    let lines = document_of(
        y_lines_group(w, h, DEFAULT_LINES, "#50505070"@),
        (w + 16) as usize,
        (h + 16) as usize,
    ).set_text("x"@, "2%"@).set_text("y"@, "5%"@).set_text("width"@, "98.1%"@).set_text(
        "height"@,
        "87.5%"@,
    ).set_text("preserveAspectRatio"@, "none"@);
    let numbers = document_of(
        y_numbers_group(h, DEFAULT_LINES, "#707070"@, (h / 23) as usize),
        (h + 16) as usize,
        (h + 16) as usize,
    ).set_text("x"@, "-0.875%"@).set_text("y"@, "5%"@).set_text("width"@, "2%"@).set_text(
        "height"@,
        "87.5%"@,
    ).set_text("preserveAspectRatio"@, "none"@);
    let dashes = document_of(
        x_dashes_group(w, (23 - utc_hour(g.start_date)) as usize, 24, "#50505070"@),
        (w + 16) as usize,
        (h + 16) as usize,
    ).set_text("y"@, "92.5%"@).set_text("width"@, "100%"@).set_text("height"@, "2.5%"@).set_text(
        "preserveAspectRatio"@,
        "none"@,
    );
    let body = ElementV::new("svg"@).add(title_strip(g.title@)).add(plot).add(lines).add(
        ElementV::new("g"@).add(numbers).set_text("transform"@, "scale(12.5, 1)"@),
    ).add(dashes).add(date_strip(day_month_year(g.start_date), day_month_year(g.end_date)));
    ElementV::new("svg"@).add(body.set_text("width"@, "100%"@).set_text("height"@, "90%"@))
}

impl StackedSignaturesPerPartyOverTimeGraph {
    /// Whether the picture can be drawn: there is a graph, each can be
    /// raised and closed, the sizes fit, and the y axis is tall enough to be
    /// marked.
    pub open spec fn drawable(&self) -> bool {
        let gs = self.graph.graphs@;
        &&& top_defined(self.graph)
        &&& stack_drawable(gs)
        &&& graphs_max_x(gs) + 16 <= usize::MAX
        &&& graphs_max_y(gs) + 16 <= usize::MAX
        &&& (graphs_max_y(gs) == 0 || graphs_max_y(gs) >= DEFAULT_LINES)
    }

    /// The picture without its legend (see [`party_document`]); the legend
    /// is [`Self::labels`], laid out by the caller.
    pub fn document(&self) -> (r: Element)
        requires
            self.drawable(),
        ensures
            exists|stacked_doc: ElementV|
                #![trigger party_document(*self, stacked_doc)]
                stacked_document(stacked_doc, self.graph.graphs@) && r.model() == party_document(*self, stacked_doc),
    {
        let stacked = self.graph.document();
        let ghost stacked_doc = stacked.model();
        let plot = Element::new("svg").add(
            Inverted::new(stacked.set_text("preserveAspectRatio", "none"), false, true, true).group(),
        ).set_text("y", "5%").set_text("width", "100%").set_text("height", "87.5%");
        let lines = GraphYAxisLines::from_stacked(&self.graph).document().set_text("x", "2%").set_text(
            "y",
            "5%",
        ).set_text("width", "98.1%").set_text("height", "87.5%").set_text("preserveAspectRatio", "none");
        let mut axis = GraphYAxisNumbers::from_stacked(&self.graph);
        axis.font_size = axis.height / 23;
        let numbers = axis.document().set_text("x", "-0.875%").set_text("y", "5%").set_text(
            "width",
            "2%",
        ).set_text("height", "87.5%").set_text("preserveAspectRatio", "none");
        let mut dashes = GraphXAxisDashes::from_stacked(&self.graph);
        let hour = hour_of(self.start_date);
        dashes.interval = ((23 - hour) as usize, 24);
        let dashes = dashes.document().set_text("y", "92.5%").set_text("width", "100%").set_text(
            "height",
            "2.5%",
        ).set_text("preserveAspectRatio", "none");
        let start = format_day_month_year(self.start_date);
        let end = format_day_month_year(self.end_date);
        let body = Element::new("svg").add(title_strip_of(self.title.as_str())).add(plot).add(lines).add(
            Element::new("g").add(numbers).set_text("transform", "scale(12.5, 1)"),
        ).add(dashes).add(date_strip_of(start.as_str(), end.as_str()));
        let r = Element::new("svg").add(body.set_text("width", "100%").set_text("height", "90%"));
        assert(r.model() == party_document(*self, stacked_doc));
        r
    }
}

/// The sum of the first `n` graphs at `x`, or `None` where it does not fit
/// in a `usize`.
fn stacked_sum_checked(gs: &Vec<LineGraph>, n: usize, x: usize) -> (r: Option<usize>)
    requires
        n <= gs@.len(),
    ensures
        match r {
            Some(v) => v == stacked_sum(gs@.take(n as int), x),
            None => stacked_sum(gs@.take(n as int), x) > usize::MAX,
        },
{
    let mut acc: usize = 0;
    let mut j: usize = 0;
    while j < n
        invariant
            j <= n,
            n <= gs@.len(),
            acc == stacked_sum(gs@.take(j as int), x),
        decreases n - j,
    {
        assert(gs@.take(j + 1).drop_last() =~= gs@.take(j as int));
        let y = y_at_or_before_of(&gs[j].points, x);
        match acc.checked_add(y) {
            Some(v) => {
                acc = v;
            },
            None => {
                proof {
                    lemma_stacked_sum_prefix(gs@, x, j + 1, n as int);
                }
                return None;
            },
        }
        j = j + 1;
    }
    Some(acc)
}

/// Whether each point, raised by the first `i` graphs, fits, and (when
/// `close`) the line through them, kept at the largest y of each x, can be
/// closed.
fn stack_checked(gs: &Vec<LineGraph>, i: usize, pts: &Vec<(usize, usize)>, close: bool) -> (r: bool)
    ensures
        r == (stack_fits(gs@, i as int, pts@) && (close ==> forall|c: Seq<(usize, usize)>|
            #[trigger] collapsed(c, stacked_points(gs@, i as int, pts@)) ==> closable(c))),
{
    let n: usize = if i < gs.len() {
        i
    } else {
        gs.len()
    };
    let ghost b = below(gs@, i as int);
    assert(b == gs@.take(n as int));
    let mut raised: Vec<(usize, usize)> = Vec::new();
    let mut k: usize = 0;
    while k < pts.len()
        invariant
            k <= pts.len(),
            n <= gs@.len(),
            b == gs@.take(n as int),
            b == below(gs@, i as int),
            forall|m: int| 0 <= m < k ==> stacked_sum(b, #[trigger] pts@[m].0) + pts@[m].1 <= usize::MAX,
            raised@ == stacked_points(gs@, i as int, pts@).take(k as int),
        decreases pts.len() - k,
    {
        let (x, y) = pts[k];
        let s = match stacked_sum_checked(gs, n, x) {
            Some(v) => v,
            None => {
                return false;
            },
        };
        let v = match s.checked_add(y) {
            Some(v) => v,
            None => {
                return false;
            },
        };
        raised.push((x, v));
        assert(raised@ =~= stacked_points(gs@, i as int, pts@).take(k + 1));
        k = k + 1;
    }
    assert(raised@ =~= stacked_points(gs@, i as int, pts@));
    if !close {
        return true;
    }
    let c = collapse_points(raised);
    let ok = is_closable(&c);
    proof {
        assert forall|c2: Seq<(usize, usize)>|
            #[trigger] collapsed(c2, stacked_points(gs@, i as int, pts@)) implies closable(c2) == ok by {
            lemma_collapsed_unique(c2, c@, stacked_points(gs@, i as int, pts@));
        }
        if !ok {
            assert(collapsed(c@, stacked_points(gs@, i as int, pts@)));
        }
    }
    ok
}

/// The sum of the graphs' heights, or `None` where it does not fit.
fn graphs_max_y_checked(gs: &Vec<LineGraph>) -> (r: Option<usize>)
    ensures
        match r {
            Some(v) => v == graphs_max_y(gs@),
            None => graphs_max_y(gs@) > usize::MAX,
        },
{
    let mut acc: usize = 0;
    let mut j: usize = 0;
    while j < gs.len()
        invariant
            j <= gs.len(),
            acc == graphs_max_y(gs@.take(j as int)),
        decreases gs.len() - j,
    {
        assert(gs@.take(j + 1).drop_last() =~= gs@.take(j as int));
        let h = gs[j].max_y();
        match acc.checked_add(h) {
            Some(v) => {
                acc = v;
            },
            None => {
                proof {
                    lemma_graphs_max_y_prefix(gs@, j + 1);
                    assert(gs@.take(gs@.len() as int) =~= gs@);
                }
                return None;
            },
        }
        j = j + 1;
    }
    assert(gs@.take(gs@.len() as int) =~= gs@);
    Some(acc)
}

impl StackedSignaturesPerPartyOverTimeGraph {
    /// Whether the picture can be drawn (see [`Self::drawable`]).
    pub fn is_drawable(&self) -> (r: bool)
        ensures
            r == self.drawable(),
    {
        let gs = &self.graph.graphs;
        if gs.len() == 0 {
            return false;
        }
        let h = match graphs_max_y_checked(gs) {
            Some(h) => h,
            None => {
                return false;
            },
        };
        let last = &gs[gs.len() - 1];
        if !stack_checked(gs, gs.len(), &last.points, false) {
            return false;
        }
        let mut j: usize = 0;
        while j < gs.len()
            invariant
                j <= gs@.len(),
                *gs == self.graph.graphs,
                forall|m: int|
                    0 <= m < j ==> stack_fits(gs@, m, #[trigger] gs@[m].points@) && (gs@[m].fill.0
                        ==> stack_closable(gs@, m)),
            decreases gs.len() - j,
        {
            if !stack_checked(gs, j, &gs[j].points, gs[j].fill.0) {
                return false;
            }
            j = j + 1;
        }
        let w = self.graph.max_x();
        if w > usize::MAX - 16 || h > usize::MAX - 16 {
            return false;
        }
        h == 0 || h >= DEFAULT_LINES
    }

    /// The picture without its legend, where it can be drawn (see
    /// [`Self::document`]); `None` where it cannot.
    pub fn checked_document(&self) -> (r: Option<Element>)
        ensures
            r is Some <==> self.drawable(),
            r matches Some(e) ==> exists|stacked_doc: ElementV|
                #![trigger party_document(*self, stacked_doc)]
                stacked_document(stacked_doc, self.graph.graphs@) && e.model() == party_document(*self, stacked_doc),
    {
        if self.is_drawable() {
            Some(self.document())
        } else {
            None
        }
    }
}

/// Whether the dates, read as `usize`, keep their order (see
/// [`castable_dates`]).
pub fn dates_castable(d: &Vec<i64>) -> (r: bool)
    ensures
        r == castable_dates(d@),
{
    let mut i: usize = 0;
    while i < d.len()
        invariant
            i <= d.len(),
            forall|a: int, b: int|
                0 <= a < i && 0 <= b < d@.len() && d@[a] <= d@[b] ==> (#[trigger] d@[a] as usize) <= (
                #[trigger] d@[b] as usize),
        decreases d.len() - i,
    {
        let mut j: usize = 0;
        while j < d.len()
            invariant
                i < d.len(),
                j <= d.len(),
                forall|a: int, b: int|
                    0 <= a < i && 0 <= b < d@.len() && d@[a] <= d@[b] ==> (#[trigger] d@[a] as usize) <= (
                    #[trigger] d@[b] as usize),
                forall|b: int|
                    0 <= b < j && d@[i as int] <= d@[b] ==> (d@[i as int] as usize) <= (#[trigger] d@[b] as usize),
            decreases d.len() - j,
        {
            if d[i] <= d[j] && (d[i] as usize) > (d[j] as usize) {
                return false;
            }
            j = j + 1;
        }
        i = i + 1;
    }
    true
}

} // verus!
