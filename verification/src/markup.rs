//! The markup tree that the transformer walks: elements with an ordered
//! attribute mapping (keys unique, insertion order preserved), text nodes
//! and comments, each node carrying a stable identifier assigned at parse
//! time. Serialization to the static markup string and the child-removal
//! primitive used when a conditional sub-tree is detached live here.

use crate::strutil::str_eq;
use vstd::prelude::*;
use vstd::string::StrSliceExecFns;
use vstd::string::StringExecFns;

verus! {

broadcast use {vstd::std_specs::vec::group_vec_axioms, vstd::seq::group_seq_axioms};

/// The ghost form of one attribute: name and optional value.
pub type AttrV = (Seq<char>, Option<Seq<char>>);

/// A node of the markup tree.
pub struct Node {
    /// The stable identifier assigned at parse time, never reused.
    pub uuid: String,
    /// What the node is.
    pub content: NodeContent,
}

/// The three kinds of markup node.
pub enum NodeContent {
    Element(Element),
    TextNode(String),
    Comment(String),
}

/// An element: tag name, ordered attributes, ordered children.
pub struct Element {
    pub name: String,
    pub attributes: Vec<(String, Option<String>)>,
    pub children: Vec<Node>,
}

/// The ghost form of a node.
#[verifier::ext_equal]
pub struct NodeV {
    pub uuid: Seq<char>,
    pub content: NodeContentV,
}

/// The ghost form of a node's content.
#[verifier::ext_equal]
pub enum NodeContentV {
    Element(ElementV),
    TextNode(Seq<char>),
    Comment(Seq<char>),
}

/// The ghost form of an element.
#[verifier::ext_equal]
pub struct ElementV {
    pub name: Seq<char>,
    pub attributes: Seq<AttrV>,
    pub children: Seq<NodeV>,
}

/// The ghost form of an optional attribute value.
pub open spec fn opt_str_view(o: Option<String>) -> Option<Seq<char>> {
    match o {
        Some(s) => Some(s@),
        None => None,
    }
}

/// The ghost form of an attribute list.
pub open spec fn attrs_view(attrs: Seq<(String, Option<String>)>) -> Seq<AttrV> {
    Seq::new(attrs.len(), |i: int| (attrs[i].0@, opt_str_view(attrs[i].1)))
}

/// The ghost form of a markup node.
pub open spec fn node_view(n: Node) -> NodeV
    decreases n,
{
    NodeV {
        uuid: n.uuid@,
        content: match n.content {
            NodeContent::Element(e) => NodeContentV::Element(
                ElementV {
                    name: e.name@,
                    attributes: attrs_view(e.attributes@),
                    children: nodes_view(e.children@),
                },
            ),
            NodeContent::TextNode(t) => NodeContentV::TextNode(t@),
            NodeContent::Comment(c) => NodeContentV::Comment(c@),
        },
    }
}

/// The ghost form of a child list.
pub open spec fn nodes_view(kids: Seq<Node>) -> Seq<NodeV>
    decreases kids,
{
    if kids.len() == 0 {
        Seq::empty()
    } else {
        nodes_view(kids.drop_last()).push(node_view(kids.last()))
    }
}

/// A child list's ghost form is the pointwise ghost form of its nodes.
pub proof fn lemma_nodes_view(kids: Seq<Node>)
    ensures
        nodes_view(kids).len() == kids.len(),
        forall|i: int| 0 <= i < kids.len() ==> #[trigger] nodes_view(kids)[i] == node_view(
            kids[i],
        ),
    decreases kids.len(),
{
    if kids.len() > 0 {
        lemma_nodes_view(kids.drop_last());
        assert forall|i: int| 0 <= i < kids.len() implies #[trigger] nodes_view(kids)[i]
            == node_view(kids[i]) by {
            if i < kids.len() - 1 {
                assert(nodes_view(kids)[i] == nodes_view(kids.drop_last())[i]);
                assert(kids.drop_last()[i] == kids[i]);
            }
        }
    }
}

impl View for Node {
    type V = NodeV;

    open spec fn view(&self) -> NodeV {
        node_view(*self)
    }
}

impl DeepView for Node {
    type V = NodeV;

    open spec fn deep_view(&self) -> NodeV {
        node_view(*self)
    }
}

impl View for Element {
    type V = ElementV;

    open spec fn view(&self) -> ElementV {
        ElementV {
            name: self.name@,
            attributes: attrs_view(self.attributes@),
            children: nodes_view(self.children@),
        }
    }
}

/// The first position of an attribute with the given name, or -1.
pub open spec fn spec_attr_index(attrs: Seq<AttrV>, key: Seq<char>) -> int
    decreases attrs.len(),
{
    if attrs.len() == 0 {
        -1
    } else if attrs[0].0 == key {
        0
    } else {
        let r = spec_attr_index(attrs.drop_first(), key);
        if r < 0 {
            -1
        } else {
            r + 1
        }
    }
}

/// The value of the named attribute: `None` when the attribute is absent,
/// `Some(v)` when present with optional value `v`.
pub open spec fn spec_attr_get(attrs: Seq<AttrV>, key: Seq<char>) -> Option<Option<Seq<char>>> {
    let i = spec_attr_index(attrs, key);
    if i < 0 {
        None
    } else {
        Some(attrs[i].1)
    }
}

pub proof fn lemma_attr_index_bounds(attrs: Seq<AttrV>, key: Seq<char>)
    ensures
        spec_attr_index(attrs, key) == -1 || (0 <= spec_attr_index(attrs, key) < attrs.len()
            && attrs[spec_attr_index(attrs, key)].0 == key),
        spec_attr_index(attrs, key) == -1 ==> forall|k: int|
            0 <= k < attrs.len() ==> (#[trigger] attrs[k]).0 != key,
        spec_attr_index(attrs, key) >= 0 ==> forall|k: int|
            0 <= k < spec_attr_index(attrs, key) ==> (#[trigger] attrs[k]).0 != key,
    decreases attrs.len(),
{
    if attrs.len() > 0 && attrs[0].0 != key {
        lemma_attr_index_bounds(attrs.drop_first(), key);
        assert forall|k: int| 1 <= k < attrs.len() implies attrs.drop_first()[k - 1] == (
        #[trigger] attrs[k]) by {}
    }
}

/// The attribute list with the first attribute of the given name removed.
pub open spec fn spec_attr_remove(attrs: Seq<AttrV>, key: Seq<char>) -> Seq<AttrV> {
    let i = spec_attr_index(attrs, key);
    if i < 0 {
        attrs
    } else {
        attrs.subrange(0, i) + attrs.subrange(i + 1, attrs.len() as int)
    }
}

/// The attribute list with the named attribute set: replaced in place when
/// present, appended when absent.
pub open spec fn spec_attr_upsert(attrs: Seq<AttrV>, key: Seq<char>, val: Option<Seq<char>>) -> Seq<
    AttrV,
> {
    let i = spec_attr_index(attrs, key);
    if i < 0 {
        attrs.push((key, val))
    } else {
        attrs.update(i, (key, val))
    }
}

/// Finds the position of the named attribute.
pub fn attr_index(attrs: &Vec<(String, Option<String>)>, key: &str) -> (r: Option<usize>)
    ensures
        match r {
            Some(i) => spec_attr_index(attrs_view(attrs@), key@) == i as int && i < attrs@.len(),
            None => spec_attr_index(attrs_view(attrs@), key@) == -1,
        },
{
    let ghost av = attrs_view(attrs@);
    let mut i: usize = 0;
    while i < attrs.len()
        invariant
            0 <= i <= attrs@.len(),
            av == attrs_view(attrs@),
            forall|k: int| 0 <= k < i ==> (#[trigger] av[k]).0 != key@,
        decreases attrs@.len() - i,
    {
        if str_eq(attrs[i].0.as_str(), key) {
            proof {
                lemma_attr_index_bounds(av, key@);
                if spec_attr_index(av, key@) < 0 {
                    assert(av[i as int].0 != key@);
                }
                if spec_attr_index(av, key@) > i as int {
                    assert(av[i as int].0 != key@);
                }
            }
            return Some(i);
        }
        i = i + 1;
    }
    proof {
        lemma_attr_index_bounds(av, key@);
        if spec_attr_index(av, key@) >= 0 {
            assert(av[spec_attr_index(av, key@)].0 != key@);
        }
    }
    None
}

/// Reads the named attribute, cloning its value.
pub fn attr_get(attrs: &Vec<(String, Option<String>)>, key: &str) -> (r: Option<Option<String>>)
    ensures
        match r {
            Some(Some(v)) => spec_attr_get(attrs_view(attrs@), key@) == Some(Some(v@)),
            Some(None) => spec_attr_get(attrs_view(attrs@), key@) == Some(
                Option::<Seq<char>>::None,
            ),
            None => spec_attr_get(attrs_view(attrs@), key@) == Option::<Option<Seq<char>>>::None,
        },
{
    match attr_index(attrs, key) {
        Some(i) => match &attrs[i].1 {
            Some(v) => Some(Some(v.clone())),
            None => Some(None),
        },
        None => None,
    }
}

/// Removes the named attribute, if present.
pub fn attr_remove(attrs: &mut Vec<(String, Option<String>)>, key: &str)
    ensures
        attrs_view(final (attrs)@) == spec_attr_remove(attrs_view(old(attrs)@), key@),
{
    let ghost av = attrs_view(attrs@);
    match attr_index(attrs, key) {
        Some(i) => {
            attrs.remove(i);
            proof {
                assert(attrs_view(attrs@) =~= av.subrange(0, i as int) + av.subrange(
                    i as int + 1,
                    av.len() as int,
                ));
            }
        },
        None => {
            proof {
                assert(attrs_view(attrs@) =~= av);
            }
        },
    }
}

/// Sets the named attribute: replaces its value in place when present,
/// appends it when absent.
pub fn attr_upsert(attrs: &mut Vec<(String, Option<String>)>, key: &str, val: Option<String>)
    ensures
        attrs_view(final (attrs)@) == spec_attr_upsert(
            attrs_view(old(attrs)@),
            key@,
            opt_str_view(val),
        ),
{
    let ghost av = attrs_view(attrs@);
    let ghost vv = opt_str_view(val);
    match attr_index(attrs, key) {
        Some(i) => {
            attrs[i] = (String::from_str(key), val);
            proof {
                assert(attrs_view(attrs@) =~= av.update(i as int, (key@, vv)));
            }
        },
        None => {
            attrs.push((String::from_str(key), val));
            proof {
                assert(attrs_view(attrs@) =~= av.push((key@, vv)));
            }
        },
    }
}

/// A copy of an attribute list.
pub fn clone_attrs(attrs: &Vec<(String, Option<String>)>) -> (r: Vec<(String, Option<String>)>)
    ensures
        attrs_view(r@) == attrs_view(attrs@),
{
    let mut r: Vec<(String, Option<String>)> = Vec::new();
    let mut i: usize = 0;
    proof {
        assert(attrs_view(r@) =~= attrs_view(attrs@).take(0));
    }
    while i < attrs.len()
        invariant
            0 <= i <= attrs@.len(),
            attrs_view(r@) == attrs_view(attrs@).take(i as int),
        decreases attrs@.len() - i,
    {
        let ghost oldav = attrs_view(r@);
        let keyc = attrs[i].0.clone();
        let v = match &attrs[i].1 {
            Some(s) => Some(s.clone()),
            None => None,
        };
        let ghost pv = (keyc@, opt_str_view(v));
        r.push((keyc, v));
        proof {
            assert(attrs_view(r@) =~= oldav.push(pv));
            assert(pv == (attrs@[i as int].0@, opt_str_view(attrs@[i as int].1)));
            assert(attrs_view(attrs@).take(i as int + 1) =~= attrs_view(attrs@).take(
                i as int,
            ).push(pv));
        }
        i = i + 1;
    }
    proof {
        assert(attrs_view(attrs@).take(attrs@.len() as int) =~= attrs_view(attrs@));
    }
    r
}

impl Node {
    /// A deep copy whose ghost form equals this node's.
    #[verifier::loop_isolation(false)]
    pub fn clone_node(&self) -> (r: Node)
        ensures
            r@ == self@,
        decreases *self,
    {
        let content = match &self.content {
            NodeContent::TextNode(t) => NodeContent::TextNode(t.clone()),
            NodeContent::Comment(c) => NodeContent::Comment(c.clone()),
            NodeContent::Element(e) => {
                let mut attrs: Vec<(String, Option<String>)> = Vec::new();
                let mut i: usize = 0;
                proof {
                    assert(attrs_view(attrs@) =~= attrs_view(e.attributes@).take(0));
                }
                while i < e.attributes.len()
                    invariant
                        0 <= i <= e.attributes@.len(),
                        attrs_view(attrs@) == attrs_view(e.attributes@).take(i as int),
                    decreases e.attributes@.len() - i,
                {
                    let ghost oldav = attrs_view(attrs@);
                    let keyc = e.attributes[i].0.clone();
                    let v = match &e.attributes[i].1 {
                        Some(s) => Some(s.clone()),
                        None => None,
                    };
                    let ghost pv = (keyc@, opt_str_view(v));
                    attrs.push((keyc, v));
                    proof {
                        assert(attrs_view(attrs@) =~= oldav.push(pv));
                        assert(pv == (e.attributes@[i as int].0@, opt_str_view(
                            e.attributes@[i as int].1,
                        )));
                        assert(attrs_view(e.attributes@).take(i as int + 1) =~= attrs_view(
                            e.attributes@,
                        ).take(i as int).push(pv));
                    }
                    i = i + 1;
                }
                let mut kids: Vec<Node> = Vec::new();
                let mut j: usize = 0;
                while j < e.children.len()
                    invariant
                        0 <= j <= e.children@.len(),
                        kids@.len() == j,
                        forall|k: int| 0 <= k < j ==> node_view(#[trigger] kids@[k]) == node_view(
                            e.children@[k],
                        ),
                    decreases e.children@.len() - j,
                {
                    let c = e.children[j].clone_node();
                    kids.push(c);
                    j = j + 1;
                }
                proof {
                    assert(attrs_view(attrs@) =~= attrs_view(e.attributes@));
                    lemma_nodes_view(kids@);
                    lemma_nodes_view(e.children@);
                    assert(nodes_view(kids@) =~= nodes_view(e.children@));
                }
                NodeContent::Element(
                    Element { name: e.name.clone(), attributes: attrs, children: kids },
                )
            },
        };
        let r = Node { uuid: self.uuid.clone(), content };
        proof {
            assert(r@ =~= self@);
        }
        r
    }
}

/// The static markup text of an attribute list.
pub open spec fn spec_attrs_str(attrs: Seq<AttrV>) -> Seq<char>
    decreases attrs.len(),
{
    if attrs.len() == 0 {
        Seq::empty()
    } else {
        spec_attrs_str(attrs.drop_last()) + " "@ + attrs.last().0 + (match attrs.last().1 {
            Some(v) => "=\""@ + v + "\""@,
            None => Seq::<char>::empty(),
        })
    }
}

/// The static markup text of a node.
pub open spec fn spec_node_str(n: NodeV) -> Seq<char>
    decreases n, 0nat,
{
    match n.content {
        NodeContentV::Element(e) => "<"@ + e.name + spec_attrs_str(e.attributes) + ">"@
            + spec_children_str(e.children) + "</"@ + e.name + ">"@,
        NodeContentV::TextNode(t) => t,
        NodeContentV::Comment(c) => "<!--"@ + c + "-->"@,
    }
}

/// The static markup text of a child list.
pub open spec fn spec_children_str(kids: Seq<NodeV>) -> Seq<char>
    decreases kids, 1nat,
{
    if kids.len() == 0 {
        Seq::empty()
    } else {
        spec_children_str(kids.drop_last()) + spec_node_str(kids.last())
    }
}

impl Node {
    /// Serializes the node to its static markup text.
    #[verifier::loop_isolation(false)]
    #[verifier::rlimit(60)]
    pub fn to_html_string(&self) -> (r: String)
        ensures
            r@ == spec_node_str(self@),
        decreases *self,
    {
        match &self.content {
            NodeContent::TextNode(t) => {
                let r = t.clone();
                proof {
                    assert(r@ =~= spec_node_str(self@));
                }
                r
            },
            NodeContent::Comment(c) => {
                let mut r = String::from_str("<!--");
                r.append(c.as_str());
                r.append("-->");
                proof {
                    assert(r@ =~= spec_node_str(self@));
                }
                r
            },
            NodeContent::Element(e) => {
                let ghost ev = match self@.content {
                    NodeContentV::Element(ev) => ev,
                    _ => arbitrary(),
                };
                let mut r = String::from_str("<");
                r.append(e.name.as_str());
                let mut i: usize = 0;
                proof {
                    assert(ev.attributes.take(0) =~= Seq::<AttrV>::empty());
                    assert(r@ =~= "<"@ + ev.name + spec_attrs_str(ev.attributes.take(0)));
                }
                while i < e.attributes.len()
                    invariant
                        0 <= i <= e.attributes@.len(),
                        ev == (match self@.content {
                            NodeContentV::Element(x) => x,
                            _ => arbitrary(),
                        }),
                        self@.content is Element,
                        ev.attributes == attrs_view(e.attributes@),
                        ev.attributes.len() == e.attributes@.len(),
                        r@ == "<"@ + ev.name + spec_attrs_str(ev.attributes.take(i as int)),
                    decreases e.attributes@.len() - i,
                {
                    r.append(" ");
                    r.append(e.attributes[i].0.as_str());
                    match &e.attributes[i].1 {
                        Some(v) => {
                            r.append("=\"");
                            r.append(v.as_str());
                            r.append("\"");
                        },
                        None => {},
                    }
                    i = i + 1;
                    proof {
                        assert(ev.attributes.take(i as int).drop_last() =~= ev.attributes.take(
                            i as int - 1,
                        ));
                        assert(ev.attributes.take(i as int).last() == ev.attributes[i as int - 1]);
                        assert(r@ =~= "<"@ + ev.name + spec_attrs_str(ev.attributes.take(i as int)));
                    }
                }
                proof {
                    assert(ev.attributes.take(e.attributes@.len() as int) =~= ev.attributes);
                }
                r.append(">");
                let mut j: usize = 0;
                proof {
                    lemma_nodes_view(e.children@);
                    assert(ev.children.take(0) =~= Seq::<NodeV>::empty());
                    assert(r@ =~= "<"@ + ev.name + spec_attrs_str(ev.attributes) + ">"@
                        + spec_children_str(ev.children.take(0)));
                }
                while j < e.children.len()
                    invariant
                        0 <= j <= e.children@.len(),
                        ev == (match self@.content {
                            NodeContentV::Element(x) => x,
                            _ => arbitrary(),
                        }),
                        self@.content is Element,
                        ev.children == nodes_view(e.children@),
                        ev.children.len() == e.children@.len(),
                        r@ == "<"@ + ev.name + spec_attrs_str(ev.attributes) + ">"@
                            + spec_children_str(ev.children.take(j as int)),
                    decreases e.children@.len() - j,
                {
                    let cs = e.children[j].to_html_string();
                    r.append(cs.as_str());
                    j = j + 1;
                    proof {
                        lemma_nodes_view(e.children@);
                        assert(ev.children.take(j as int).drop_last() =~= ev.children.take(
                            j as int - 1,
                        ));
                        assert(ev.children.take(j as int).last() == ev.children[j as int - 1]);
                        assert(ev.children[j as int - 1] == node_view(e.children@[j as int - 1]));
                        assert(r@ =~= "<"@ + ev.name + spec_attrs_str(ev.attributes) + ">"@
                            + spec_children_str(ev.children.take(j as int)));
                    }
                }
                proof {
                    assert(ev.children.take(e.children@.len() as int) =~= ev.children);
                }
                r.append("</");
                r.append(e.name.as_str());
                r.append(">");
                proof {
                    assert(r@ =~= spec_node_str(self@));
                }
                r
            },
        }
    }
}

/// The first position of the child with the given identifier, or -1.
pub open spec fn spec_child_index(kids: Seq<NodeV>, uuid: Seq<char>) -> int
    decreases kids.len(),
{
    if kids.len() == 0 {
        -1
    } else if kids[0].uuid == uuid {
        0
    } else {
        let r = spec_child_index(kids.drop_first(), uuid);
        if r < 0 {
            -1
        } else {
            r + 1
        }
    }
}

pub proof fn lemma_child_index_bounds(kids: Seq<NodeV>, uuid: Seq<char>)
    ensures
        spec_child_index(kids, uuid) == -1 || (0 <= spec_child_index(kids, uuid) < kids.len()
            && kids[spec_child_index(kids, uuid)].uuid == uuid),
        spec_child_index(kids, uuid) == -1 ==> forall|k: int|
            0 <= k < kids.len() ==> (#[trigger] kids[k]).uuid != uuid,
        spec_child_index(kids, uuid) >= 0 ==> forall|k: int|
            0 <= k < spec_child_index(kids, uuid) ==> (#[trigger] kids[k]).uuid != uuid,
    decreases kids.len(),
{
    if kids.len() > 0 && kids[0].uuid != uuid {
        lemma_child_index_bounds(kids.drop_first(), uuid);
        assert forall|k: int| 1 <= k < kids.len() implies kids.drop_first()[k - 1] == (
        #[trigger] kids[k]) by {}
    }
}

/// The first position at or after `from` holding an element node, or -1.
pub open spec fn spec_next_elm_index(kids: Seq<NodeV>, from: int) -> int
    decreases kids.len() - from,
        when 0 <= from
{
    if from >= kids.len() {
        -1
    } else if kids[from].content is Element {
        from
    } else {
        spec_next_elm_index(kids, from + 1)
    }
}

pub proof fn lemma_next_elm_index_bounds(kids: Seq<NodeV>, from: int)
    requires
        0 <= from,
    ensures
        spec_next_elm_index(kids, from) == -1 || (from <= spec_next_elm_index(kids, from)
            < kids.len() && kids[spec_next_elm_index(kids, from)].content is Element),
    decreases kids.len() - from,
{
    if from < kids.len() && !(kids[from].content is Element) {
        lemma_next_elm_index_bounds(kids, from + 1);
    }
}

impl Element {
    /// Detaches the child with the given identifier. Returns the removed
    /// node, its former position, the distance to the next element sibling
    /// (1 when adjacent or when nothing follows, more when non-element
    /// siblings lie between), and the position of that next element sibling
    /// in the child list after removal, if one exists.
    #[verifier::loop_isolation(false)]
    pub fn remove_child(&mut self, uuid: &str) -> (r: Option<(Node, usize, usize, Option<usize>)>)
        ensures
            ({
                let kids = old(self)@.children;
                let i = spec_child_index(kids, uuid@);
                match r {
                    None => i == -1 && final (self)@ == old(self)@,
                    Some((node, idx, distance, next)) => {
                        &&& i == idx as int
                        &&& node@ == kids[i]
                        &&& final (self)@.children =~= kids.subrange(0, i) + kids.subrange(
                            i + 1,
                            kids.len() as int,
                        )
                        &&& final (self)@.name == old(self)@.name
                        &&& final (self)@.attributes == old(self)@.attributes
                        &&& ({
                            let j = spec_next_elm_index(final (self)@.children, i);
                            &&& (match next {
                                Some(nj) => j == nj as int,
                                None => j == -1,
                            })
                            &&& distance as int == (if j >= 0 {
                                j + 1 - i
                            } else {
                                kids.len() - i
                            })
                        })
                    },
                }
            }),
    {
        let ghost kids = self@.children;
        let mut i: usize = 0;
        let n = self.children.len();
        proof {
            lemma_nodes_view(self.children@);
            assert(kids.len() == n);
        }
        while i < n && !str_eq(self.children[i].uuid.as_str(), uuid)
            invariant
                0 <= i <= n,
                forall|k: int| 0 <= k < i ==> (#[trigger] kids[k]).uuid != uuid@,
            decreases n - i,
        {
            proof {
                lemma_nodes_view(self.children@);
                assert(kids[i as int] == node_view(self.children@[i as int]));
            }
            i = i + 1;
        }
        proof {
            lemma_nodes_view(self.children@);
            lemma_child_index_bounds(kids, uuid@);
            if i < n {
                assert(kids[i as int] == node_view(self.children@[i as int]));
                assert(kids[i as int].uuid == uuid@);
                if spec_child_index(kids, uuid@) != i as int {
                    if spec_child_index(kids, uuid@) == -1 {
                        assert(kids[i as int].uuid != uuid@);
                    } else if spec_child_index(kids, uuid@) > i as int {
                        assert(kids[i as int].uuid != uuid@);
                    } else {
                        assert(kids[spec_child_index(kids, uuid@)].uuid != uuid@);
                    }
                }
            } else {
                if spec_child_index(kids, uuid@) >= 0 {
                    assert(kids[spec_child_index(kids, uuid@)].uuid != uuid@);
                }
            }
        }
        if i >= n {
            return None;
        }
        let ghost oldkids_exec = self.children@;
        let node = self.children.remove(i);
        proof {
            lemma_nodes_view(oldkids_exec);
            lemma_nodes_view(self.children@);
            assert(node@ == kids[i as int]);
            assert(self@.children =~= kids.subrange(0, i as int) + kids.subrange(
                i as int + 1,
                kids.len() as int,
            ));
        }
        let ghost newkids = self@.children;
        let m = self.children.len();
        let mut j: usize = i;
        while j < m && !matches!(&self.children[j].content, NodeContent::Element(_))
            invariant
                i <= j <= m,
                m == self.children@.len(),
                newkids == self@.children,
                spec_next_elm_index(newkids, i as int) == spec_next_elm_index(newkids, j as int),
            decreases m - j,
        {
            proof {
                lemma_nodes_view(self.children@);
                assert(newkids[j as int] == node_view(self.children@[j as int]));
                assert(!(newkids[j as int].content is Element));
            }
            j = j + 1;
        }
        proof {
            lemma_nodes_view(self.children@);
            if j < m {
                assert(newkids[j as int] == node_view(self.children@[j as int]));
                assert(newkids[j as int].content is Element);
                assert(spec_next_elm_index(newkids, j as int) == j as int);
            } else {
                assert(spec_next_elm_index(newkids, j as int) == -1);
            }
        }
        if j < m {
            Some((node, i, j + 1 - i, Some(j)))
        } else {
            Some((node, i, n - i, None))
        }
    }
}

} // verus!
