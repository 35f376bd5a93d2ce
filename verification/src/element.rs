use vstd::prelude::*;

verus! {

broadcast use vstd::std_specs::vec::group_vec_axioms;

/// One command of a path's outline.
#[derive(Clone, Copy, Debug, PartialEq, Eq, Hash)]
pub enum PathCommand {
    /// Move to a point.
    MoveTo(usize, usize),
    /// Draw a line to a point.
    LineTo(usize, usize),
    /// Draw a line by an offset.
    LineBy(isize, isize),
}

/// The value of an attribute of an SVG element.
#[derive(Clone, Debug, PartialEq, Eq, Hash)]
pub enum AttrValue {
    Text(String),
    Number(usize),
    Path(Vec<PathCommand>),
}

/// The model of an attribute's value.
pub enum AttrV {
    Text(Seq<char>),
    Number(usize),
    Path(Seq<PathCommand>),
}

impl AttrValue {
    pub open spec fn model(self) -> AttrV {
        match self {
            AttrValue::Text(s) => AttrV::Text(s@),
            AttrValue::Number(n) => AttrV::Number(n),
            AttrValue::Path(p) => AttrV::Path(p@),
        }
    }

    pub fn text(s: &str) -> (r: AttrValue)
        ensures
            r.model() == AttrV::Text(s@),
    {
        AttrValue::Text(String::from_str(s))
    }
}

/// An SVG element: its name (`svg` for a document, `g`, `path`, `rect`,
/// `text`), its attributes, its children in order, and the text it holds.
#[derive(Debug, PartialEq, Eq)]
pub struct Element {
    pub name: String,
    pub attributes: Vec<(String, AttrValue)>,
    pub children: Vec<Element>,
    pub text: Option<String>,
}

/// The model of an element.
pub struct ElementV {
    pub name: Seq<char>,
    pub attributes: Seq<(Seq<char>, AttrV)>,
    pub children: Seq<ElementV>,
    pub text: Option<Seq<char>>,
}

/// The models of a sequence of elements.
pub open spec fn elements_view(s: Seq<Element>) -> Seq<ElementV>
    decreases s,
{
    if s.len() == 0 {
        Seq::empty()
    } else {
        elements_view(s.drop_last()).push(s.last().model())
    }
}

/// The models of a sequence of attributes.
pub open spec fn attributes_view(s: Seq<(String, AttrValue)>) -> Seq<(Seq<char>, AttrV)> {
    s.map_values(|a: (String, AttrValue)| (a.0@, a.1.model()))
}

impl Element {
    pub open spec fn model(self) -> ElementV
        decreases self,
    {
        ElementV {
            name: self.name@,
            attributes: attributes_view(self.attributes@),
            children: elements_view(self.children@),
            text: match self.text {
                Some(t) => Some(t@),
                None => None,
            },
        }
    }
}

/// The first position of an attribute named `key`, or `-1`.
pub open spec fn attr_position(attrs: Seq<(Seq<char>, AttrV)>, key: Seq<char>) -> int
    decreases attrs.len(),
{
    if attrs.len() == 0 {
        -1
    } else if attr_position(attrs.drop_last(), key) >= 0 {
        attr_position(attrs.drop_last(), key)
    } else if attrs.last().0 == key {
        attrs.len() - 1
    } else {
        -1
    }
}

/// The attributes with `key` set to `value`: the attribute of that name
/// takes the value where there is one, else it is added at the end.
pub open spec fn set_attr(attrs: Seq<(Seq<char>, AttrV)>, key: Seq<char>, value: AttrV) -> Seq<(Seq<char>, AttrV)> {
    let i = attr_position(attrs, key);
    if i >= 0 {
        attrs.update(i, (key, value))
    } else {
        attrs.push((key, value))
    }
}

impl ElementV {
    pub open spec fn new(name: Seq<char>) -> ElementV {
        ElementV { name, attributes: Seq::empty(), children: Seq::empty(), text: None }
    }

    pub open spec fn set(self, key: Seq<char>, value: AttrV) -> ElementV {
        ElementV { attributes: set_attr(self.attributes, key, value), ..self }
    }

    pub open spec fn add(self, child: ElementV) -> ElementV {
        ElementV { children: self.children.push(child), ..self }
    }

    pub open spec fn with_text(self, text: Seq<char>) -> ElementV {
        ElementV { text: Some(text), ..self }
    }

    /// `set` with a text value.
    pub open spec fn set_text(self, key: Seq<char>, value: Seq<char>) -> ElementV {
        self.set(key, AttrV::Text(value))
    }
}

pub proof fn lemma_attr_position(attrs: Seq<(Seq<char>, AttrV)>, key: Seq<char>)
    ensures
        -1 <= attr_position(attrs, key) < attrs.len(),
        attr_position(attrs, key) >= 0 ==> attrs[attr_position(attrs, key)].0 == key,
        attr_position(attrs, key) >= 0 ==> forall|j: int|
            0 <= j < attr_position(attrs, key) ==> attrs[j].0 != key,
        attr_position(attrs, key) < 0 ==> forall|j: int| 0 <= j < attrs.len() ==> attrs[j].0 != key,
    decreases attrs.len(),
{
    if attrs.len() > 0 {
        let d = attrs.drop_last();
        lemma_attr_position(d, key);
        assert forall|j: int| 0 <= j < d.len() implies attrs[j] == d[j] by {}
    }
}

pub proof fn lemma_elements_view_push(s: Seq<Element>, e: Element)
    ensures
        elements_view(s.push(e)) == elements_view(s).push(e.model()),
{
    assert(s.push(e).drop_last() =~= s);
}

impl Element {
    /// An element with no attributes, children or text.
    pub fn new(name: &str) -> (r: Element)
        ensures
            r.model() == ElementV::new(name@),
    {
        let r = Element {
            name: String::from_str(name),
            attributes: Vec::new(),
            children: Vec::new(),
            text: None,
        };
        assert(attributes_view(r.attributes@) =~= Seq::empty());
        assert(elements_view(r.children@) =~= Seq::empty());
        r
    }

    /// Sets an attribute.
    pub fn set(self, key: &str, value: AttrValue) -> (r: Element)
        ensures
            r.model() == self.model().set(key@, value.model()),
    {
        let ghost orig = self.model();
        let ghost m = value.model();
        let Element { name, attributes, children, text } = self;
        let mut attributes = attributes;
        let ghost old_attrs = attributes_view(attributes@);
        let k = String::from_str(key);
        proof {
            lemma_attr_position(old_attrs, key@);
        }
        let mut i: usize = 0;
        let mut found = false;
        while i < attributes.len()
            invariant_except_break
                i <= attributes.len(),
                !found,
            invariant
                k@ == key@,
                attributes_view(attributes@) == old_attrs,
                forall|j: int| 0 <= j < i ==> old_attrs[j].0 != key@,
            ensures
                found ==> i < attributes.len() && old_attrs[i as int].0 == key@,
                !found ==> i == attributes.len(),
            decreases attributes.len() - i,
        {
            let same = attributes[i].0.eq(&k);
            if same {
                assert(old_attrs[i as int].0 == attributes@[i as int].0@);
                found = true;
                break;
            }
            i = i + 1;
        }
        proof {
            lemma_attr_position(old_attrs, key@);
            if found {
                let p = attr_position(old_attrs, key@);
                if p >= 0 && p != i {
                    assert(old_attrs[p].0 == key@);
                }
                assert(p == i);
            }
        }
        if found {
            attributes.set(i, (k, value));
            assert(attributes_view(attributes@) =~= old_attrs.update(i as int, (key@, m)));
        } else {
            attributes.push((k, value));
            assert(attributes_view(attributes@) =~= old_attrs.push((key@, m)));
        }
        let r = Element { name, attributes, children, text };
        assert(r.model() == orig.set(key@, m));
        r
    }

    /// Sets an attribute to a text.
    pub fn set_text(self, key: &str, value: &str) -> (r: Element)
        ensures
            r.model() == self.model().set_text(key@, value@),
    {
        self.set(key, AttrValue::text(value))
    }

    /// Adds a child at the end.
    pub fn add(self, child: Element) -> (r: Element)
        ensures
            r.model() == self.model().add(child.model()),
    {
        let mut s = self;
        let ghost before = s.children@;
        s.children.push(child);
        proof {
            lemma_elements_view_push(before, child);
        }
        s
    }

    /// Sets the text the element holds.
    pub fn with_text(self, text: String) -> (r: Element)
        ensures
            r.model() == self.model().with_text(text@),
    {
        let mut s = self;
        s.text = Some(text);
        s
    }
}

/// The value of the first attribute named `key`, if any.
pub open spec fn attr_value(attrs: Seq<(Seq<char>, AttrV)>, key: Seq<char>) -> Option<AttrV> {
    let i = attr_position(attrs, key);
    if i >= 0 {
        Some(attrs[i].1)
    } else {
        None
    }
}

/// The first position of a key is the one no earlier position has.
proof fn lemma_attr_position_is(attrs: Seq<(Seq<char>, AttrV)>, key: Seq<char>, j: int)
    requires
        0 <= j < attrs.len(),
        attrs[j].0 == key,
        forall|i: int| 0 <= i < j ==> attrs[i].0 != key,
    ensures
        attr_position(attrs, key) == j,
{
    lemma_attr_position(attrs, key);
    let p = attr_position(attrs, key);
    if p < 0 {
        assert(attrs[j].0 != key);
    } else if p < j {
        assert(attrs[p].0 != key);
    } else if p > j {
        assert(attrs[j].0 != key);
    }
}

/// Reading an attribute after setting it gives the value set, and reading
/// any other attribute gives what it gave before.
pub proof fn law_set_then_read(
    attrs: Seq<(Seq<char>, AttrV)>,
    key: Seq<char>,
    value: AttrV,
    other: Seq<char>,
)
    ensures
        attr_value(set_attr(attrs, key, value), key) == Some(value),
        other != key ==> attr_value(set_attr(attrs, key, value), other) == attr_value(attrs, other),
{
    let r = set_attr(attrs, key, value);
    lemma_attr_position(attrs, key);
    lemma_attr_position(attrs, other);
    let i = attr_position(attrs, key);
    let j = attr_position(attrs, other);
    if i >= 0 {
        lemma_attr_position_is(r, key, i);
    } else {
        lemma_attr_position_is(r, key, attrs.len() as int);
    }
    if other != key {
        lemma_attr_position(r, other);
        if j >= 0 {
            assert(r[j] == attrs[j]);
            assert forall|l: int| 0 <= l < j implies r[l].0 != other by {
                if l != i {
                    assert(r[l] == attrs[l]);
                }
            }
            lemma_attr_position_is(r, other, j);
        } else {
            assert forall|l: int| 0 <= l < r.len() implies r[l].0 != other by {
                if l < attrs.len() && l != i {
                    assert(r[l] == attrs[l]);
                }
            }
        }
    }
}

} // verus!
