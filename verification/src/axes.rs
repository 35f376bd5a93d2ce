use vstd::prelude::*;

use crate::element::{AttrV, AttrValue, Element, ElementV, PathCommand, elements_view, lemma_elements_view_push};
use crate::svg::{
    BarGraph, LineGraph, StackedGraph, below, copy_points, graphs_max_x, graphs_max_y, max_x_of, max_y_of,
    stack_fits, stacked_points,
};
use crate::text::{decimal_digits, digits_text};

verus! {

broadcast use vstd::std_specs::vec::group_vec_axioms;

/// The width of a picture to its height.
pub const WIDTH_HEIGHT_RATIO: (usize, usize) = (3, 1);

/// The height of a picture, in pixels.
pub const WIDTH_HEIGHT_BASE: usize = 1024;

/// How many lines an axis is marked with.
pub const DEFAULT_LINES: usize = 13;

pub const FONT_SIZE_TINY: usize = 7;

pub const FONT_SIZE_SMALL: usize = 12;

pub const FONT_SIZE_MEDIUM: usize = 22;

pub const FONT_SIZE_LARGE: usize = 30;

/// A size in pixels, as text.
pub open spec fn px(n: usize) -> Seq<char> {
    decimal_digits(n as nat) + "px"@
}

/// The text of a view box that starts at (-8, -8).
pub open spec fn view_box(w: usize, h: usize) -> Seq<char> {
    "-8 -8 "@ + decimal_digits(w as nat) + " "@ + decimal_digits(h as nat)
}

/// A group of elements.
pub open spec fn group_of(children: Seq<ElementV>) -> ElementV {
    ElementV { name: "g"@, attributes: Seq::empty(), children, text: None }
}

/// A document holding one element, with the given view box.
pub open spec fn document_of(child: ElementV, w: usize, h: usize) -> ElementV {
    ElementV::new("svg"@).add(child).set_text("viewBox"@, view_box(w, h))
}

pub fn px_text(n: usize) -> (r: String)
    ensures
        r@ == px(n),
{
    proof {
        reveal_strlit("px");
    }
    digits_text(n as u64).concat("px")
}

pub fn view_box_text(w: usize, h: usize) -> (r: String)
    ensures
        r@ == view_box(w, h),
{
    proof {
        reveal_strlit("-8 -8 ");
        reveal_strlit(" ");
    }
    let s = String::from_str("-8 -8 ").concat(digits_text(w as u64).as_str());
    s.concat(" ").concat(digits_text(h as u64).as_str())
}

/// A document holding `child`, with the given view box.
pub fn document(child: Element, w: usize, h: usize) -> (r: Element)
    ensures
        r.model() == document_of(child.model(), w, h),
{
    let vb = view_box_text(w, h);
    Element::new("svg").add(child).set_text("viewBox", vb.as_str())
}

/// The heights at which an axis of height `h` with `lines` lines is marked,
/// spaced by `h / lines` so that the marks do not overlap: the multiples of
/// that step up to `h` less one step, then `h` itself.
pub open spec fn y_ticks(h: usize, lines: usize) -> Seq<usize> {
    let d = h / lines;
    if d == 0 {
        seq![h]
    } else {
        Seq::new(((h - d) as int / d as int) as nat, |k: int| ((k + 1) * d) as usize).push(h)
    }
}

/// Whether an axis of height `h` can be marked with `lines` lines: the
/// step must not be 0 unless the axis is.
pub open spec fn ticks_defined(h: usize, lines: usize) -> bool {
    lines > 0 && (h == 0 || h >= lines)
}

pub fn y_ticks_of(h: usize, lines: usize) -> (r: Vec<usize>)
    requires
        ticks_defined(h, lines),
    ensures
        r@ == y_ticks(h, lines),
{
    let d = h / lines;
    let mut out: Vec<usize> = Vec::new();
    if d > 0 {
        assert(d <= h) by (nonlinear_arith)
            requires
                d == h / lines,
                lines > 0,
        ;
        let mut m: usize = d;
        let mut k: usize = 0;
        while m <= h - d
            invariant
                d > 0,
                d <= h,
                m == (k + 1) * d,
                k * d <= h - d,
                out@ == Seq::new(k as nat, |j: int| ((j + 1) * d) as usize),
            decreases h - m,
        {
            assert(k + 1 <= m) by (nonlinear_arith)
                requires
                    m == (k + 1) * d,
                    d > 0,
            ;
            out.push(m);
            assert(out@ =~= Seq::new((k + 1) as nat, |j: int| ((j + 1) * d) as usize));
            assert((k + 2) * d == (k + 1) * d + d) by (nonlinear_arith);
            m = m + d;
            k = k + 1;
        }
        assert(k == (h - d) as int / d as int) by (nonlinear_arith)
            requires
                d > 0,
                k * d <= h - d,
                (k + 1) * d > h - d,
        ;
    } else {
        assert(out@ =~= Seq::<usize>::empty());
    }
    out.push(h);
    assert(out@ =~= y_ticks(h, lines));
    out
}

pub proof fn lemma_y_ticks_bounded(h: usize, lines: usize)
    requires
        lines > 0,
    ensures
        forall|i: int| 0 <= i < y_ticks(h, lines).len() ==> #[trigger] y_ticks(h, lines)[i] <= h,
{
    let d = h / lines;
    if d > 0 {
        let n = (h - d) as int / d as int;
        assert(d <= h) by (nonlinear_arith)
            requires
                d == h / lines,
                lines > 0,
        ;
        assert forall|i: int| 0 <= i < y_ticks(h, lines).len() implies #[trigger] y_ticks(h, lines)[i] <= h by {
            if i < n {
                assert((i + 1) * d <= h) by (nonlinear_arith)
                    requires
                        0 <= i < n,
                        n == (h - d) as int / d as int,
                        d > 0,
                        d <= h,
                ;
            }
        }
    }
}

/// The number for height `y` on an axis of height `height`: drawn at that
/// height from the top, right-aligned at the middle.
pub open spec fn y_number(height: usize, colour: Seq<char>, font_size: usize, y: usize) -> ElementV {
    ElementV::new("text"@).with_text(decimal_digits(y as nat)).set_text("x"@, "50%"@).set(
        "y"@,
        AttrV::Number((height - y) as usize),
    ).set_text("fill"@, colour).set_text("font-family"@, "sans-serif"@).set_text(
        "font-size"@,
        px(font_size),
    ).set_text("text-anchor"@, "end"@).set_text("dominant-baseline"@, "middle"@)
}

/// The numbers at the marked heights (see [`y_ticks`]).
pub open spec fn y_numbers_group(height: usize, lines: usize, colour: Seq<char>, font_size: usize) -> ElementV {
    group_of(y_ticks(height, lines).map_values(|y: usize| y_number(height, colour, font_size, y)))
}

/// The line across a graph of the given size at height `y`.
pub open spec fn y_line(width: usize, height: usize, colour: Seq<char>, y: usize) -> ElementV {
    ElementV::new("path"@).set_text("stroke"@, colour).set(
        "d"@,
        AttrV::Path(
            seq![
                PathCommand::MoveTo(0, (height - y) as usize),
                PathCommand::LineTo(width, (height - y) as usize),
            ],
        ),
    )
}

/// The lines at the marked heights (see [`y_ticks`]).
pub open spec fn y_lines_group(width: usize, height: usize, lines: usize, colour: Seq<char>) -> ElementV {
    group_of(y_ticks(height, lines).map_values(|y: usize| y_line(width, height, colour, y)))
}

/// The dash at `x`.
pub open spec fn x_dash(colour: Seq<char>, x: usize) -> ElementV {
    ElementV::new("rect"@).set("x"@, AttrV::Number(x)).set_text("width"@, "0.1%"@).set_text(
        "height"@,
        "100%"@,
    ).set_text("fill"@, colour)
}

/// The dashes at [`dash_xs`] up to `width`.
pub open spec fn x_dashes_group(width: usize, start: usize, step: usize, colour: Seq<char>) -> ElementV {
    group_of(dash_xs(width as nat, start, step).map_values(|x: usize| x_dash(colour, x)))
}

/// The numbers along the y axis of a graph.
#[derive(Debug, PartialEq, Eq, Hash)]
pub struct GraphYAxisNumbers {
    pub points: Vec<(usize, usize)>,
    pub width: usize,
    pub height: usize,
    pub lines: usize,
    pub colour: String,
    pub font_size: usize,
}

impl GraphYAxisNumbers {
    pub fn new(
        points: Vec<(usize, usize)>,
        width: usize,
        height: usize,
        lines: usize,
        colour: String,
        font_size: usize,
    ) -> (r: Self)
        ensures
            r.points == points,
            r.width == width,
            r.height == height,
            r.lines == lines,
            r.colour == colour,
            r.font_size == font_size,
    {
        Self { points, width, height, lines, colour, font_size }
    }

    /// The number for height `y` (see [`y_number`]).
    pub open spec fn text_model(&self, y: usize) -> ElementV {
        y_number(self.height, self.colour@, self.font_size, y)
    }

    pub fn text(&self, y: usize) -> (r: Element)
        requires
            y <= self.height,
        ensures
            r.model() == self.text_model(y),
    {
        Element::new("text").with_text(digits_text(y as u64)).set_text("x", "50%").set(
            "y",
            AttrValue::Number(self.height - y),
        ).set_text("fill", self.colour.as_str()).set_text("font-family", "sans-serif").set(
            "font-size",
            AttrValue::Text(px_text(self.font_size)),
        ).set_text("text-anchor", "end").set_text("dominant-baseline", "middle")
    }

    /// The numbers at the marked heights (see [`y_numbers_group`]).
    pub open spec fn group_model(&self) -> ElementV {
        y_numbers_group(self.height, self.lines, self.colour@, self.font_size)
    }

    pub fn group(&self) -> (r: Element)
        requires
            ticks_defined(self.height, self.lines),
        ensures
            r.model() == self.group_model(),
    {
        let ticks = y_ticks_of(self.height, self.lines);
        proof {
            lemma_y_ticks_bounded(self.height, self.lines);
        }
        let mut g = Element::new("g");
        assert(ticks@.take(0).map_values(|y: usize| y_number(self.height, self.colour@, self.font_size, y)) =~= Seq::<ElementV>::empty());
        let mut i: usize = 0;
        while i < ticks.len()
            invariant
                i <= ticks.len(),
                ticks@ == y_ticks(self.height, self.lines),
                forall|j: int| 0 <= j < ticks@.len() ==> #[trigger] ticks@[j] <= self.height,
                g.model() == group_of(ticks@.take(i as int).map_values(|y: usize| y_number(self.height, self.colour@, self.font_size, y))),
            decreases ticks.len() - i,
        {
            let t = self.text(ticks[i]);
            g = g.add(t);
            assert(ticks@.take(i + 1).map_values(|y: usize| y_number(self.height, self.colour@, self.font_size, y)) =~= ticks@.take(
                i as int,
            ).map_values(|y: usize| y_number(self.height, self.colour@, self.font_size, y)).push(y_number(self.height, self.colour@, self.font_size, ticks@[i as int])));
            i = i + 1;
        }
        assert(ticks@.take(ticks.len() as int) =~= ticks@);
        g
    }

    /// A document of the numbers, square, as tall as the axis with a margin.
    pub fn document(&self) -> (r: Element)
        requires
            ticks_defined(self.height, self.lines),
            self.height + 16 <= usize::MAX,
        ensures
            r.model() == document_of(self.group_model(), (self.height + 16) as usize, (self.height + 16) as usize),
    {
        document(self.group(), self.height + 16, self.height + 16)
    }
}

/// The lines across a graph at the marked heights.
#[derive(Debug, PartialEq, Eq, Hash)]
pub struct GraphYAxisLines {
    pub points: Vec<(usize, usize)>,
    pub width: usize,
    pub height: usize,
    pub lines: usize,
    pub colour: String,
}

impl GraphYAxisLines {
    pub fn new(points: Vec<(usize, usize)>, width: usize, height: usize, lines: usize, colour: String) -> (r: Self)
        ensures
            r.points == points,
            r.width == width,
            r.height == height,
            r.lines == lines,
            r.colour == colour,
    {
        Self { points, width, height, lines, colour }
    }

    /// The line across the graph at height `y` (see [`y_line`]).
    pub open spec fn path_model(&self, y: usize) -> ElementV {
        y_line(self.width, self.height, self.colour@, y)
    }

    pub fn path(&self, y: usize) -> (r: Element)
        requires
            y <= self.height,
        ensures
            r.model() == self.path_model(y),
    {
        let mut data: Vec<PathCommand> = Vec::new();
        data.push(PathCommand::MoveTo(0, self.height - y));
        data.push(PathCommand::LineTo(self.width, self.height - y));
        let r = Element::new("path").set_text("stroke", self.colour.as_str()).set(
            "d",
            AttrValue::Path(data),
        );
        assert(data@ =~= seq![
            PathCommand::MoveTo(0, (self.height - y) as usize),
            PathCommand::LineTo(self.width, (self.height - y) as usize),
        ]);
        r
    }

    /// The lines at the marked heights (see [`y_lines_group`]).
    pub open spec fn group_model(&self) -> ElementV {
        y_lines_group(self.width, self.height, self.lines, self.colour@)
    }

    pub fn group(&self) -> (r: Element)
        requires
            ticks_defined(self.height, self.lines),
        ensures
            r.model() == self.group_model(),
    {
        let ticks = y_ticks_of(self.height, self.lines);
        proof {
            lemma_y_ticks_bounded(self.height, self.lines);
        }
        let mut g = Element::new("g");
        assert(ticks@.take(0).map_values(|y: usize| y_line(self.width, self.height, self.colour@, y)) =~= Seq::<ElementV>::empty());
        let mut i: usize = 0;
        while i < ticks.len()
            invariant
                i <= ticks.len(),
                ticks@ == y_ticks(self.height, self.lines),
                forall|j: int| 0 <= j < ticks@.len() ==> #[trigger] ticks@[j] <= self.height,
                g.model() == group_of(ticks@.take(i as int).map_values(|y: usize| y_line(self.width, self.height, self.colour@, y))),
            decreases ticks.len() - i,
        {
            let p = self.path(ticks[i]);
            g = g.add(p);
            assert(ticks@.take(i + 1).map_values(|y: usize| y_line(self.width, self.height, self.colour@, y)) =~= ticks@.take(
                i as int,
            ).map_values(|y: usize| y_line(self.width, self.height, self.colour@, y)).push(y_line(self.width, self.height, self.colour@, ticks@[i as int])));
            i = i + 1;
        }
        assert(ticks@.take(ticks.len() as int) =~= ticks@);
        g
    }

    /// A document of the lines, as wide and tall as the graph with a margin.
    pub fn document(&self) -> (r: Element)
        requires
            ticks_defined(self.height, self.lines),
            self.width + 16 <= usize::MAX,
            self.height + 16 <= usize::MAX,
        ensures
            r.model() == document_of(self.group_model(), (self.width + 16) as usize, (self.height + 16) as usize),
    {
        document(self.group(), self.width + 16, self.height + 16)
    }
}

/// The x of the dashes along the x axis up to `n`: those from `start` on, a
/// multiple of `step` apart.
pub open spec fn dash_xs(n: nat, start: usize, step: usize) -> Seq<usize>
    decreases n,
{
    if n == 0 {
        Seq::empty()
    } else if n >= start && (n - start) % (step as int) == 0 {
        dash_xs((n - 1) as nat, start, step).push(n as usize)
    } else {
        dash_xs((n - 1) as nat, start, step)
    }
}

/// The dashes along the x axis of a graph, at every `interval.1` from
/// `interval.0` on.
#[derive(Debug, PartialEq, Eq, Hash)]
pub struct GraphXAxisDashes {
    pub points: Vec<(usize, usize)>,
    pub width: usize,
    pub height: usize,
    pub interval: (usize, usize),
    pub colour: String,
}

impl GraphXAxisDashes {
    pub fn new(
        points: Vec<(usize, usize)>,
        width: usize,
        height: usize,
        interval: (usize, usize),
        colour: String,
    ) -> (r: Self)
        ensures
            r.points == points,
            r.width == width,
            r.height == height,
            r.interval == interval,
            r.colour == colour,
    {
        Self { points, width, height, interval, colour }
    }

    /// The dash at `x` (see [`x_dash`]).
    pub open spec fn rect_model(&self, x: usize) -> ElementV {
        x_dash(self.colour@, x)
    }

    pub fn rect(&self, x: usize) -> (r: Element)
        ensures
            r.model() == self.rect_model(x),
    {
        Element::new("rect").set("x", AttrValue::Number(x)).set_text("width", "0.1%").set_text(
            "height",
            "100%",
        ).set_text("fill", self.colour.as_str())
    }

    /// Whether the dashes can be placed: a step of 0 is only allowed where
    /// no x from 1 to the width reaches the start.
    pub open spec fn dashes_defined(&self) -> bool {
        self.interval.1 > 0 || self.width == 0 || self.width < self.interval.0
    }

    /// The dashes up to the width (see [`x_dashes_group`]).
    pub open spec fn group_model(&self) -> ElementV {
        x_dashes_group(self.width, self.interval.0, self.interval.1, self.colour@)
    }

    pub fn group(&self) -> (r: Element)
        requires
            self.dashes_defined(),
        ensures
            r.model() == self.group_model(),
    {
        let mut g = Element::new("g");
        let mut x: usize = 0;
        let (start, step) = self.interval;
        assert(dash_xs(0, start, step).map_values(|x: usize| x_dash(self.colour@, x)) =~= Seq::<ElementV>::empty());
        while x < self.width
            invariant
                x <= self.width,
                self.dashes_defined(),
                (start, step) == self.interval,
                g.model() == group_of(dash_xs(x as nat, start, step).map_values(|x: usize| x_dash(self.colour@, x))),
            decreases self.width - x,
        {
            x = x + 1;
            if x >= start && (x - start) % step == 0 {
                let d = self.rect(x);
                g = g.add(d);
                assert(dash_xs(x as nat, start, step).map_values(|x: usize| x_dash(self.colour@, x)) =~= dash_xs(
                    (x - 1) as nat,
                    start,
                    step,
                ).map_values(|x: usize| x_dash(self.colour@, x)).push(x_dash(self.colour@, x)));
            }
        }
        g
    }

    /// A document of the dashes, as wide and tall as the graph with a
    /// margin.
    pub fn document(&self) -> (r: Element)
        requires
            self.dashes_defined(),
            self.width + 16 <= usize::MAX,
            self.height + 16 <= usize::MAX,
        ensures
            r.model() == document_of(self.group_model(), (self.width + 16) as usize, (self.height + 16) as usize),
    {
        document(self.group(), self.width + 16, self.height + 16)
    }
}

/// The line of a stacked graph that sits on top of the others: its last
/// graph raised by all of them.
pub open spec fn top_points(g: StackedGraph) -> Seq<(usize, usize)> {
    stacked_points(g.graphs@, g.graphs@.len() as int, g.graphs@.last().points@)
}

/// Whether the top line of a stacked graph and its height can be computed.
pub open spec fn top_defined(g: StackedGraph) -> bool {
    &&& g.graphs@.len() > 0
    &&& stack_fits(g.graphs@, g.graphs@.len() as int, g.graphs@.last().points@)
    &&& graphs_max_y(g.graphs@) <= usize::MAX
}

fn top_of(value: &StackedGraph) -> (r: (Vec<(usize, usize)>, usize, usize))
    requires
        top_defined(*value),
    ensures
        r.0@ == top_points(*value),
        r.1 == graphs_max_x(value.graphs@),
        r.2 == graphs_max_y(value.graphs@),
{
    let n = value.graphs.len();
    let points = value.stack_graph(n, &value.graphs[n - 1]);
    (points, value.max_x(), value.max_y())
}

impl GraphYAxisNumbers {
    /// The numbers for a stacked graph: along its top line, as tall as the
    /// sum of its graphs' heights.
    pub fn from_stacked(value: &StackedGraph) -> (r: Self)
        requires
            top_defined(*value),
        ensures
            r.points@ == top_points(*value),
            r.width == graphs_max_x(value.graphs@),
            r.height == graphs_max_y(value.graphs@),
            r.lines == DEFAULT_LINES,
            r.colour@ == "#707070"@,
            r.font_size == FONT_SIZE_TINY,
    {
        let (points, w, h) = top_of(value);
        Self::new(points, w, h, DEFAULT_LINES, String::from_str("#707070"), FONT_SIZE_TINY)
    }

    pub fn from_line(value: &LineGraph) -> (r: Self)
        ensures
            r.points@ == value.points@,
            r.width == max_x_of(value.points@),
            r.height == max_y_of(value.points@),
            r.lines == DEFAULT_LINES,
            r.colour@ == "#707070"@,
            r.font_size == FONT_SIZE_TINY,
    {
        Self::new(
            copy_points(&value.points),
            value.max_x(),
            value.max_y(),
            DEFAULT_LINES,
            String::from_str("#707070"),
            FONT_SIZE_TINY,
        )
    }

    pub fn from_bar(value: &BarGraph) -> (r: Self)
        ensures
            r.points@ == value.points@,
            r.width == max_x_of(value.points@),
            r.height == max_y_of(value.points@),
            r.lines == DEFAULT_LINES,
            r.colour@ == "#707070"@,
            r.font_size == FONT_SIZE_TINY,
    {
        Self::new(
            copy_points(&value.points),
            value.max_x(),
            value.max_y(),
            DEFAULT_LINES,
            String::from_str("#707070"),
            FONT_SIZE_TINY,
        )
    }
}

impl GraphYAxisLines {
    /// The lines for a stacked graph, as tall as the sum of its graphs'
    /// heights.
    pub fn from_stacked(value: &StackedGraph) -> (r: Self)
        requires
            top_defined(*value),
        ensures
            r.points@ == top_points(*value),
            r.width == graphs_max_x(value.graphs@),
            r.height == graphs_max_y(value.graphs@),
            r.lines == DEFAULT_LINES,
            r.colour@ == "#50505070"@,
    {
        let (points, w, h) = top_of(value);
        Self::new(points, w, h, DEFAULT_LINES, String::from_str("#50505070"))
    }

    pub fn from_line(value: &LineGraph) -> (r: Self)
        ensures
            r.points@ == value.points@,
            r.width == max_x_of(value.points@),
            r.height == max_y_of(value.points@),
            r.lines == DEFAULT_LINES,
            r.colour@ == "#50505070"@,
    {
        Self::new(
            copy_points(&value.points),
            value.max_x(),
            value.max_y(),
            DEFAULT_LINES,
            String::from_str("#50505070"),
        )
    }

    pub fn from_bar(value: &BarGraph) -> (r: Self)
        ensures
            r.points@ == value.points@,
            r.width == max_x_of(value.points@),
            r.height == max_y_of(value.points@),
            r.lines == DEFAULT_LINES,
            r.colour@ == "#50505070"@,
    {
        Self::new(
            copy_points(&value.points),
            value.max_x(),
            value.max_y(),
            DEFAULT_LINES,
            String::from_str("#50505070"),
        )
    }
}

impl GraphXAxisDashes {
    /// The dashes for a stacked graph: one every thirteenth of its width.
    pub fn from_stacked(value: &StackedGraph) -> (r: Self)
        requires
            top_defined(*value),
        ensures
            r.points@ == top_points(*value),
            r.width == graphs_max_x(value.graphs@),
            r.height == graphs_max_y(value.graphs@),
            r.interval == (0usize, (graphs_max_x(value.graphs@) / DEFAULT_LINES) as usize),
            r.colour@ == "#50505070"@,
    {
        let (points, w, h) = top_of(value);
        Self::new(points, w, h, (0, w / DEFAULT_LINES), String::from_str("#50505070"))
    }

    pub fn from_line(value: &LineGraph) -> (r: Self)
        ensures
            r.points@ == value.points@,
            r.width == max_x_of(value.points@),
            r.height == max_y_of(value.points@),
            r.interval == (0usize, (max_x_of(value.points@) / DEFAULT_LINES) as usize),
            r.colour@ == "#50505070"@,
    {
        let w = value.max_x();
        Self::new(
            copy_points(&value.points),
            w,
            value.max_y(),
            (0, w / DEFAULT_LINES),
            String::from_str("#50505070"),
        )
    }

    pub fn from_bar(value: &BarGraph) -> (r: Self)
        ensures
            r.points@ == value.points@,
            r.width == max_x_of(value.points@),
            r.height == max_y_of(value.points@),
            r.interval == (0usize, (max_x_of(value.points@) / DEFAULT_LINES) as usize),
            r.colour@ == "#50505070"@,
    {
        let w = value.max_x();
        Self::new(
            copy_points(&value.points),
            w,
            value.max_y(),
            (0, w / DEFAULT_LINES),
            String::from_str("#50505070"),
        )
    }
}

/// A node drawn mirrored: along x, along y, or both, about its centre or
/// about the origin.
#[derive(Debug, PartialEq, Eq, Hash)]
pub struct Inverted<T> {
    pub node: T,
    pub x: bool,
    pub y: bool,
    pub centered: bool,
}

impl<T> Inverted<T> {
    pub fn new(node: T, x: bool, y: bool, centered: bool) -> (r: Self)
        ensures
            r.node == node,
            r.x == x,
            r.y == y,
            r.centered == centered,
    {
        Self { node, x, y, centered }
    }
}

/// The transform that mirrors along x and y as asked.
pub open spec fn scale_text(x: bool, y: bool) -> Seq<char> {
    if x && y {
        "scale(-1 -1)"@
    } else if x {
        "scale(-1 1)"@
    } else if y {
        "scale(1 -1)"@
    } else {
        "scale(1 1)"@
    }
}

/// A group that holds the node, mirrored.
pub open spec fn inverted_model(node: ElementV, x: bool, y: bool, centered: bool) -> ElementV {
    let g = ElementV::new("g"@).add(node).set_text("transform"@, scale_text(x, y));
    if centered {
        g.set_text("transform-origin"@, "center"@)
    } else {
        g
    }
}

impl Inverted<Element> {
    pub fn group(self) -> (r: Element)
        ensures
            r.model() == inverted_model(self.node.model(), self.x, self.y, self.centered),
    {
        let g = Element::new("g").add(self.node);
        let g = if self.x && self.y {
            g.set_text("transform", "scale(-1 -1)")
        } else if self.x {
            g.set_text("transform", "scale(-1 1)")
        } else if self.y {
            g.set_text("transform", "scale(1 -1)")
        } else {
            g.set_text("transform", "scale(1 1)")
        };
        if self.centered {
            g.set_text("transform-origin", "center")
        } else {
            g
        }
    }
}

/// The legend of a graph: a colour and a label for each line.
#[derive(Debug, PartialEq, Eq, Hash)]
pub struct StackedGraphLabels {
    pub labels: Vec<(String, String)>,
}

/// The label of the line at position `i`: `#` and its position.
pub open spec fn position_label(i: int) -> Seq<char> {
    "#"@ + decimal_digits(i as nat)
}

impl StackedGraphLabels {
    pub fn new(labels: Vec<(String, String)>) -> (r: Self)
        ensures
            r.labels == labels,
    {
        Self { labels }
    }

    /// One label for each graph: its colour, and `#` with its position.
    pub fn from_stacked(value: &StackedGraph) -> (r: Self)
        ensures
            r.labels@.len() == value.graphs@.len(),
            forall|i: int|
                0 <= i < r.labels@.len() ==> (#[trigger] r.labels@[i]).0 == value.graphs@[i].colour
                    && r.labels@[i].1@ == position_label(i),
    {
        let mut labels: Vec<(String, String)> = Vec::new();
        let mut i: usize = 0;
        proof {
            reveal_strlit("#");
        }
        while i < value.graphs.len()
            invariant
                i <= value.graphs.len(),
                labels@.len() == i,
                forall|j: int|
                    0 <= j < i ==> (#[trigger] labels@[j]).0 == value.graphs@[j].colour
                        && labels@[j].1@ == position_label(j),
            decreases value.graphs.len() - i,
        {
            let label = String::from_str("#").concat(digits_text(i as u64).as_str());
            labels.push((value.graphs[i].colour.clone(), label));
            i = i + 1;
        }
        Self::new(labels)
    }
}


} // verus!
