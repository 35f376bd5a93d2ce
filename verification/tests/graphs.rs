use edmdata::axes::{
    GraphXAxisDashes, GraphYAxisLines, GraphYAxisNumbers, Inverted, StackedGraphLabels,
};
use edmdata::chart::{
    days_into_year, StackedSignaturesPerPartyOverTimeGraph, SupportingSignaturesOverTimeGraph,
};
use edmdata::data::edm::{EarlyDayMotion, EarlyDayMotionStatus};
use edmdata::data::member::{Member, MemberBiography};
use edmdata::data::party::Party;
use edmdata::element::{AttrValue, Element, PathCommand};
use edmdata::query::Signature;
use edmdata::report::MainGraph;
use edmdata::svg::{BarGraph, LineGraph, StackedGraph};

const DAY: i64 = 86_400_000;
const HOUR: i64 = 3_600_000;

fn attr<'a>(e: &'a Element, key: &str) -> Option<&'a AttrValue> {
    e.attributes.iter().find(|(k, _)| k == key).map(|(_, v)| v)
}

fn text(e: &Element, key: &str) -> String {
    match attr(e, key) {
        Some(AttrValue::Text(t)) => t.clone(),
        other => panic!("no text attribute {key}: {other:?}"),
    }
}

fn motion(id: u32, date_tabled: i64) -> EarlyDayMotion {
    EarlyDayMotion {
        _id: id,
        title: format!("Motion {id}"),
        motion_text: String::new(),
        date_tabled,
        status: EarlyDayMotionStatus::Published,
        status_date: date_tabled,
        supporting_signatures: Vec::new(),
        withdrawn_signatures: Vec::new(),
        amends: None,
        uin: id,
        _updated: 0,
    }
}

fn party(id: u32, abbreviation: &str, colour: &str) -> Party {
    Party {
        _id: id,
        name: abbreviation.to_owned(),
        abbreviation: abbreviation.to_owned(),
        background_colour: colour.to_owned(),
        foreground_colour: "ffffff".to_owned(),
        is_independent_party: false,
        government_type: None,
    }
}

fn signature(member: u32, p: &Party, creation_date: i64, order: Option<u32>) -> Signature {
    Signature {
        member: Member {
            _id: member,
            name: format!("Member {member}"),
            display_name: String::new(),
            full_title: String::new(),
            addressed_as: String::new(),
            party_id: p._id,
            gender: "F".to_owned(),
            biography: MemberBiography::empty(),
            edms: Vec::new(),
            _updated: 0,
        },
        party: p.clone(),
        creation_date,
        withdrawal_date: None,
        sponsoring_order: order,
    }
}

fn signatures(n: usize) -> Vec<Signature> {
    let p = party(1, "A", "aaaaaa");
    (0..n).map(|i| signature(i as u32, &p, 0, None)).collect()
}

#[test]
fn collapse_keeps_the_highest_point_of_each_x() {
    let g = LineGraph::new(
        vec![(2, 5), (1, 3), (2, 7), (1, 1), (0, 4)],
        "#000000".to_owned(),
        (false, false),
    );
    let c = g.collapse_x();
    assert_eq!(c.points, vec![(0, 4), (1, 3), (2, 7)]);
    assert_eq!(c.colour, "#000000");
}

#[test]
fn collapse_is_idempotent() {
    let g = BarGraph::new(vec![(3, 1), (3, 9), (0, 0), (1, 2), (1, 2)], "#111111".to_owned());
    let once = g.collapse_x();
    let twice = once.clone().collapse_x();
    assert_eq!(once.points, vec![(0, 0), (1, 2), (3, 9)]);
    assert_eq!(once.points, twice.points);
}

#[test]
fn max_of_points_and_of_nothing() {
    let g = LineGraph::new(vec![(4, 1), (2, 9)], "#000000".to_owned(), (false, false));
    assert_eq!(g.max_x(), 4);
    assert_eq!(g.max_y(), 9);
    let empty = BarGraph::new(Vec::new(), "#000000".to_owned());
    assert_eq!(empty.max_x(), 0);
    assert_eq!(empty.max_y(), 0);
}

#[test]
fn line_fill_gaps_adds_zero_points() {
    let g = LineGraph::new(vec![(3, 2), (0, 1)], "#000000".to_owned(), (true, false));
    let f = g.fill_gaps();
    assert_eq!(f.points, vec![(0, 1), (1, 0), (2, 0), (3, 2)]);
    assert_eq!(f.fill, (true, false));
}

#[test]
fn line_fill_gaps_keeps_order_of_equal_x() {
    let g = LineGraph::new(vec![(1, 5), (1, 2)], "#000000".to_owned(), (false, false));
    let f = g.fill_gaps();
    assert_eq!(f.points, vec![(0, 0), (1, 5), (1, 2)]);
}

#[test]
fn line_fill_gaps_is_idempotent() {
    let g = LineGraph::new(vec![(2, 5), (4, 1), (2, 3)], "#000000".to_owned(), (true, false));
    let once = g.fill_gaps();
    assert_eq!(once.points, vec![(0, 0), (1, 0), (2, 5), (2, 3), (3, 0), (4, 1)]);
    let twice = once.copy().fill_gaps();
    assert_eq!(twice.points, once.points);
    assert_eq!(twice.colour, once.colour);
    assert_eq!(twice.fill, once.fill);
    let empty = LineGraph::new(vec![], "#000000".to_owned(), (false, false)).fill_gaps();
    assert_eq!(empty.points, vec![(0, 0)]);
}

#[test]
fn line_collapse_x_is_idempotent() {
    let g = LineGraph::new(vec![(2, 5), (0, 1), (2, 7)], "#000000".to_owned(), (true, true));
    let once = g.collapse_x();
    let twice = once.copy().collapse_x();
    assert_eq!(once.points, vec![(0, 1), (2, 7)]);
    assert_eq!(twice.points, once.points);
    assert_eq!(twice.fill, once.fill);
}

#[test]
fn stacked_fill_gaps_carries_last_height() {
    let g1 = LineGraph::new(vec![(0, 1), (3, 2)], "#aa0000".to_owned(), (true, true));
    let g2 = LineGraph::new(vec![(1, 5)], "#00aa00".to_owned(), (true, true));
    let s = StackedGraph::new(vec![g1, g2]).fill_gaps();
    assert_eq!(s.graphs[0].points, vec![(0, 1), (1, 1), (2, 1), (3, 2)]);
    assert_eq!(s.graphs[1].points, vec![(0, 0), (1, 5), (2, 5), (3, 5)]);
    assert_eq!(s.graphs[1].colour, "#00aa00");
}

#[test]
fn stack_sums_graphs_below() {
    let g1 = LineGraph::new(vec![(0, 1), (1, 1), (2, 1), (3, 2)], "#a".to_owned(), (true, true));
    let g2 = LineGraph::new(vec![(0, 0), (1, 5), (2, 5), (3, 5)], "#b".to_owned(), (true, true));
    let s = StackedGraph::new(vec![g1, g2]);
    assert_eq!(s.stack_y(0, 3), 0);
    assert_eq!(s.stack_y(1, 2), 1);
    assert_eq!(s.stack_y(2, 3), 7);
    assert_eq!(s.stack_y(9, 3), 7);
    assert_eq!(s.max_x(), 3);
    assert_eq!(s.max_y(), 7);
    let top = s.stack_graph(1, &s.graphs[1]);
    assert_eq!(top, vec![(0, 1), (1, 6), (2, 6), (3, 7)]);
}

#[test]
fn line_path_goes_through_sorted_points_and_closes() {
    let g = LineGraph::new(vec![(2, 4), (1, 3)], "#123456".to_owned(), (true, true));
    let p = g.path();
    assert_eq!(p.name, "path");
    assert_eq!(text(&p, "fill"), "#123456");
    assert_eq!(text(&p, "stroke"), "#123456");
    assert_eq!(
        attr(&p, "d"),
        Some(&AttrValue::Path(vec![
            PathCommand::MoveTo(0, 0),
            PathCommand::LineTo(1, 3),
            PathCommand::LineTo(2, 4),
            PathCommand::LineBy(0, -4),
            PathCommand::LineTo(0, 0),
        ]))
    );
}

#[test]
fn line_path_closes_from_the_last_point_with_the_largest_x() {
    let high: usize = 1usize << (usize::BITS - 1);
    let g = LineGraph::new(vec![(3, 2), (1, high), (3, 5)], "#123456".to_owned(), (true, false));
    let p = g.path();
    assert_eq!(
        attr(&p, "d"),
        Some(&AttrValue::Path(vec![
            PathCommand::MoveTo(0, 0),
            PathCommand::LineTo(1, high),
            PathCommand::LineTo(3, 2),
            PathCommand::LineTo(3, 5),
            PathCommand::LineBy(0, -5),
            PathCommand::LineTo(0, 0),
        ]))
    );
}

#[test]
fn open_unfilled_line_path() {
    let g = LineGraph::new(vec![(1, 3)], "#123456".to_owned(), (false, false));
    let p = g.path();
    assert_eq!(text(&p, "fill"), "none");
    assert_eq!(
        attr(&p, "d"),
        Some(&AttrValue::Path(vec![PathCommand::MoveTo(0, 0), PathCommand::LineTo(1, 3)]))
    );
}

#[test]
fn line_document_view_box() {
    let g = LineGraph::new(vec![(10, 3)], "#123456".to_owned(), (false, false));
    let d = g.document();
    assert_eq!(d.name, "svg");
    assert_eq!(text(&d, "viewBox"), "-8 -8 26 19");
    assert_eq!(d.children.len(), 1);
}

#[test]
fn bar_group_has_one_rect_per_point_in_order() {
    let g = BarGraph::new(vec![(5, 2), (1, 7)], "#abcdef".to_owned());
    let grp = g.group();
    assert_eq!(grp.name, "g");
    assert_eq!(grp.children.len(), 2);
    assert_eq!(attr(&grp.children[0], "x"), Some(&AttrValue::Number(1)));
    assert_eq!(attr(&grp.children[0], "height"), Some(&AttrValue::Number(7)));
    assert_eq!(attr(&grp.children[1], "x"), Some(&AttrValue::Number(5)));
    assert_eq!(attr(&grp.children[1], "width"), Some(&AttrValue::Number(1)));
}

#[test]
fn stacked_group_draws_last_graph_first() {
    let g1 = LineGraph::new(vec![(0, 1), (1, 2)], "#a".to_owned(), (false, false));
    let g2 = LineGraph::new(vec![(0, 3), (1, 3)], "#b".to_owned(), (false, false));
    let s = StackedGraph::new(vec![g1, g2]);
    let grp = s.group();
    assert_eq!(grp.children.len(), 2);
    assert_eq!(text(&grp.children[0], "stroke"), "#b");
    assert_eq!(
        attr(&grp.children[0], "d"),
        Some(&AttrValue::Path(vec![
            PathCommand::MoveTo(0, 0),
            PathCommand::LineTo(0, 4),
            PathCommand::LineTo(1, 5),
        ]))
    );
    assert_eq!(text(&grp.children[1], "stroke"), "#a");
}

#[test]
fn y_axis_number_text() {
    let axis = GraphYAxisNumbers::new(Vec::new(), 50, 100, 13, "#707070".to_owned(), 7);
    let t = axis.text(30);
    assert_eq!(t.name, "text");
    assert_eq!(t.text, Some("30".to_owned()));
    assert_eq!(attr(&t, "y"), Some(&AttrValue::Number(70)));
    assert_eq!(text(&t, "font-size"), "7px");
    assert_eq!(text(&t, "text-anchor"), "end");
}

#[test]
fn y_axis_lines_at_multiples_of_the_step() {
    let axis = GraphYAxisLines::new(Vec::new(), 40, 26, 13, "#50505070".to_owned());
    let grp = axis.group();
    assert_eq!(grp.children.len(), 13);
    assert_eq!(
        attr(&grp.children[0], "d"),
        Some(&AttrValue::Path(vec![PathCommand::MoveTo(0, 24), PathCommand::LineTo(40, 24)]))
    );
    assert_eq!(
        attr(&grp.children[12], "d"),
        Some(&AttrValue::Path(vec![PathCommand::MoveTo(0, 0), PathCommand::LineTo(40, 0)]))
    );
    let d = axis.document();
    assert_eq!(text(&d, "viewBox"), "-8 -8 56 42");
}

#[test]
fn y_axis_of_height_zero_has_one_number() {
    let axis = GraphYAxisNumbers::new(Vec::new(), 0, 0, 13, "#707070".to_owned(), 7);
    let grp = axis.group();
    assert_eq!(grp.children.len(), 1);
    assert_eq!(grp.children[0].text, Some("0".to_owned()));
}

#[test]
fn x_axis_dashes_every_step_from_start() {
    let dashes = GraphXAxisDashes::new(Vec::new(), 10, 5, (2, 3), "#000000".to_owned());
    let grp = dashes.group();
    let xs: Vec<_> = grp.children.iter().map(|c| attr(c, "x").cloned()).collect();
    assert_eq!(
        xs,
        vec![
            Some(AttrValue::Number(2)),
            Some(AttrValue::Number(5)),
            Some(AttrValue::Number(8)),
        ]
    );
    assert_eq!(text(&grp.children[0], "width"), "0.1%");
}

#[test]
fn axes_from_a_line_graph() {
    let g = LineGraph::new(vec![(26, 3), (0, 14)], "#000000".to_owned(), (false, false));
    let numbers = GraphYAxisNumbers::from_line(&g);
    assert_eq!((numbers.width, numbers.height, numbers.lines), (26, 14, 13));
    assert_eq!(numbers.colour, "#707070");
    let lines = GraphYAxisLines::from_line(&g);
    assert_eq!(lines.colour, "#50505070");
    let dashes = GraphXAxisDashes::from_line(&g);
    assert_eq!(dashes.interval, (0, 2));
}

#[test]
fn axes_from_a_stacked_graph_follow_its_top() {
    let g1 = LineGraph::new(vec![(0, 1), (1, 2)], "#a".to_owned(), (false, false));
    let g2 = LineGraph::new(vec![(0, 3), (1, 3)], "#b".to_owned(), (false, false));
    let s = StackedGraph::new(vec![g1, g2]);
    let numbers = GraphYAxisNumbers::from_stacked(&s);
    assert_eq!(numbers.points, vec![(0, 7), (1, 8)]);
    assert_eq!(numbers.height, 5);
    assert_eq!(numbers.width, 1);
}

#[test]
fn inverted_group_mirrors() {
    let node = Element::new("path");
    let g = Inverted::new(node, false, true, true).group();
    assert_eq!(g.name, "g");
    assert_eq!(text(&g, "transform"), "scale(1 -1)");
    assert_eq!(text(&g, "transform-origin"), "center");
    let g = Inverted::new(Element::new("path"), true, true, false).group();
    assert_eq!(text(&g, "transform"), "scale(-1 -1)");
    assert_eq!(attr(&g, "transform-origin"), None);
}

#[test]
fn labels_of_a_stacked_graph() {
    let g1 = LineGraph::new(Vec::new(), "#a".to_owned(), (false, false));
    let g2 = LineGraph::new(Vec::new(), "#b".to_owned(), (false, false));
    let labels = StackedGraphLabels::from_stacked(&StackedGraph::new(vec![g1, g2]));
    assert_eq!(
        labels.labels,
        vec![("#a".to_owned(), "#0".to_owned()), ("#b".to_owned(), "#1".to_owned())]
    );
}

#[test]
fn setting_an_attribute_twice_keeps_one() {
    let e = Element::new("rect")
        .set("x", AttrValue::Number(1))
        .set("y", AttrValue::Number(2))
        .set("x", AttrValue::Number(3));
    assert_eq!(
        e.attributes,
        vec![
            ("x".to_owned(), AttrValue::Number(3)),
            ("y".to_owned(), AttrValue::Number(2)),
        ]
    );
}

#[test]
fn page_is_three_by_one() {
    let p = MainGraph::page(Element::new("g"));
    assert_eq!(attr(&p, "width"), Some(&AttrValue::Number(3072)));
    assert_eq!(attr(&p, "height"), Some(&AttrValue::Number(1024)));
    assert_eq!(p.children.len(), 1);
}

#[test]
fn days_counted_back_to_january() {
    // 15 March 1970: 15 + 15 (February) + 15 (January).
    assert_eq!(days_into_year(6_307_200_000), Some(45));
    // 20 January 1970.
    assert_eq!(days_into_year(19 * DAY), Some(20));
    // 31 May 2020: 31, 30 (April), then 30 from March back to January.
    assert_eq!(days_into_year(1_590_930_000_000), Some(31 + 30 + 30 + 29 + 29));
}

#[test]
fn supporting_graph_of_motions() {
    let start = 10 * DAY;
    let value = vec![
        (motion(1, start + 2 * DAY), signatures(1)),
        (motion(2, start), signatures(3)),
        (motion(3, start + 2 * DAY + HOUR), signatures(5)),
    ];
    let g = SupportingSignaturesOverTimeGraph::from_motions(&value);
    assert_eq!(g.graph.points, vec![(0, 3), (2, 5)]);
    assert_eq!(g.graph.colour, "#808080");
    assert_eq!(g.graph.fill, (true, false));
    assert_eq!(g.start_dt, start);
    assert_eq!(g.start_date, "11/01/1970");
    assert_eq!(g.end_date, "13/01/1970");
    assert_eq!(g.colours.len(), 10);
    assert_eq!(g.colours[0], "#800000");
    let labels = g.labels();
    assert_eq!(labels[1], ("#804000".to_owned(), "#2".to_owned()));
}

#[test]
fn supporting_graph_document_marks_highest_points() {
    let start = 10 * DAY;
    let mut value = Vec::new();
    for i in 0..14 {
        value.push((motion(i, start + i as i64 * DAY), signatures(i as usize + 13)));
    }
    let mut g = SupportingSignaturesOverTimeGraph::from_motions(&value);
    g.colours.truncate(2);
    let d = g.document().expect("drawable");
    assert_eq!(d.name, "svg");
    let inner = &d.children[0];
    assert_eq!(text(inner, "height"), "90%");
    let body = &inner.children[0];
    assert_eq!(body.children.len(), 5);
    assert_eq!(body.children[0].children[0].text, Some(g.title.clone()));
    let plot = &body.children[1].children[0].children[0];
    // The line itself, then one mark for each colour.
    assert_eq!(plot.children.len(), 3);
    assert_eq!(
        attr(&plot.children[1], "d"),
        Some(&AttrValue::Path(vec![
            PathCommand::MoveTo(12, 25),
            PathCommand::LineTo(13, 26),
            PathCommand::LineTo(13, 26),
        ]))
    );
    assert_eq!(attr(&plot.children[1], "stroke-width"), Some(&AttrValue::Number(5)));
}

#[test]
fn supporting_graph_document_needs_enough_points() {
    let value = vec![(motion(1, 10 * DAY), signatures(20))];
    let g = SupportingSignaturesOverTimeGraph::from_motions(&value);
    assert!(g.document().is_none());
}

#[test]
fn stacked_graph_per_party() {
    let a = party(1, "A", "aa0000");
    let b = party(2, "B", "00bb00");
    let value = vec![
        signature(1, &a, 0, Some(2)),
        signature(2, &b, HOUR, None),
        signature(3, &a, 0, Some(1)),
        signature(4, &b, 3 * HOUR, Some(1)),
        signature(5, &b, 2 * HOUR, Some(3)),
    ];
    let g = StackedSignaturesPerPartyOverTimeGraph::from_signatures(&value);
    assert_eq!(g.start_date, 0);
    assert_eq!(g.end_date, 3 * HOUR);
    assert_eq!(
        g.labels,
        vec![
            ("#00bb00".to_owned(), "B".to_owned()),
            ("#aa0000".to_owned(), "A".to_owned()),
        ]
    );
    // B has three signatures, so it comes first; gaps carry the last count on.
    assert_eq!(g.graph.graphs.len(), 2);
    assert_eq!(g.graph.graphs[0].colour, "#00bb00");
    assert_eq!(g.graph.graphs[0].points, vec![(0, 0), (1, 1), (2, 2), (3, 3)]);
    assert_eq!(g.graph.graphs[1].colour, "#aa0000");
    assert_eq!(g.graph.graphs[1].points, vec![(0, 1), (0, 2), (1, 2), (2, 2), (3, 2)]);
    assert_eq!(g.graph.graphs[1].fill, (true, true));
}
