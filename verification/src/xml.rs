//! A flat model of a parsed XML document: every node in document order, with
//! its local tag name, its parent's index, its `type` attribute and its text.
//! The queries the classifier makes (first element with a tag, first child
//! with a tag, first descendant with a tag, trimmed text) are stated over
//! this model.

use crate::text::{chars_of, trim, trimmed, str_eq};
use vstd::prelude::*;

verus! {

/// One node of a parsed document: `name` is the local tag name (empty for a
/// node that is not an element), `parent` the index of its parent node,
/// `type_attr` its `type` attribute and `text` its text (for an element, the
/// text of its first child when that child is a text node).
#[derive(Clone, Debug)]
pub struct XmlNode {
    pub name: String,
    pub parent: Option<usize>,
    pub type_attr: Option<String>,
    pub text: Option<String>,
}

/// A node as plain values: (name, parent, type attribute, text).
pub type XmlNodeView = (Seq<char>, Option<usize>, Option<Seq<char>>, Option<Seq<char>>);

/// The view of an optional string.
pub open spec fn opt_view(o: Option<String>) -> Option<Seq<char>> {
    match o {
        Some(s) => Some(s@),
        None => None,
    }
}

impl View for XmlNode {
    type V = XmlNodeView;

    open spec fn view(&self) -> XmlNodeView {
        (self.name@, self.parent, opt_view(self.type_attr), opt_view(self.text))
    }
}

/// A parsed document: its nodes in document order.
#[derive(Clone, Debug)]
pub struct XmlDoc {
    pub nodes: Vec<XmlNode>,
}

impl View for XmlDoc {
    type V = Seq<XmlNodeView>;

    open spec fn view(&self) -> Seq<XmlNodeView> {
        self.nodes@.map_values(|n: XmlNode| n@)
    }
}

/// The nodes of the document that `roxmltree` parses from `text`, in
/// document order, or None where it rejects the text.
pub uninterp spec fn xml_nodes(text: Seq<char>) -> Option<Seq<XmlNodeView>>;

/// Parses `text` with `roxmltree::Document::parse` and lists its nodes
/// (`Document::descendants`, which walks the whole document in order) with
/// `tag_name().name()`, the index (`NodeId::get_usize`) of `parent()`,
/// `attribute("type")` and `text()` of each.
#[verifier::external_body]
pub(crate) fn parse_xml(text: &str) -> (res: Option<XmlDoc>)
    ensures
        match res {
            Some(d) => xml_nodes(text@) == Some(d@),
            None => xml_nodes(text@) is None,
        },
{
    let doc = match roxmltree::Document::parse(text) {
        Ok(d) => d,
        Err(_) => return None,
    };
    let mut nodes = Vec::new();
    for n in doc.descendants() {
        let parent = match n.parent() {
            Some(p) => Some(p.id().get_usize()),
            None => None,
        };
        let name = n.tag_name().name().to_owned();
        let type_attr = n.attribute("type").map(str::to_owned);
        nodes.push(XmlNode { name, parent, type_attr, text: n.text().map(str::to_owned) });
    }
    Some(XmlDoc { nodes })
}

/// Node `i` lies in the subtree rooted at node `h` (itself included).
pub open spec fn within(ns: Seq<XmlNodeView>, i: int, h: int) -> bool
    decreases i,
{
    if i == h {
        true
    } else if i < h || i < 0 || i >= ns.len() {
        false
    } else {
        match ns[i].1 {
            Some(p) => p < i && within(ns, p as int, h),
            None => false,
        }
    }
}

/// The first node at index `i` or later named `tag`.
pub open spec fn find_named(ns: Seq<XmlNodeView>, tag: Seq<char>, i: int) -> Option<int>
    decreases ns.len() - i,
{
    if i < 0 || i >= ns.len() {
        None
    } else if ns[i].0 == tag {
        Some(i)
    } else {
        find_named(ns, tag, i + 1)
    }
}

/// Node `i` is a child of node `p` named `tag`.
pub open spec fn is_child_named(ns: Seq<XmlNodeView>, i: int, p: int, tag: Seq<char>) -> bool {
    0 <= i < ns.len() && ns[i].1 == Some(p as usize) && ns[i].0 == tag
}

/// The first child of node `p`, at index `i` or later, named `tag`.
pub open spec fn find_child(ns: Seq<XmlNodeView>, p: int, tag: Seq<char>, i: int) -> Option<int>
    decreases ns.len() - i,
{
    if i < 0 || i >= ns.len() {
        None
    } else if is_child_named(ns, i, p, tag) {
        Some(i)
    } else {
        find_child(ns, p, tag, i + 1)
    }
}

/// The first node of the subtree of `h`, at index `i` or later, named `tag`.
pub open spec fn find_within(ns: Seq<XmlNodeView>, h: int, tag: Seq<char>, i: int) -> Option<int>
    decreases ns.len() - i,
{
    if i < 0 || i >= ns.len() {
        None
    } else if ns[i].0 == tag && within(ns, i, h) {
        Some(i)
    } else {
        find_within(ns, h, tag, i + 1)
    }
}

/// The text of node `i`, empty when it has none.
pub open spec fn text_of(ns: Seq<XmlNodeView>, i: int) -> Seq<char> {
    match ns[i].3 {
        Some(t) => t,
        None => Seq::empty(),
    }
}

/// Trimmed text of the first node named `tag`; empty when there is none.
pub open spec fn first_text_of(ns: Seq<XmlNodeView>, tag: Seq<char>) -> Seq<char> {
    match find_named(ns, tag, 0) {
        Some(i) => trim(text_of(ns, i)),
        None => Seq::empty(),
    }
}

/// Trimmed text of the first child of `p` named `tag`; empty when none.
pub open spec fn child_text_of(ns: Seq<XmlNodeView>, p: int, tag: Seq<char>) -> Seq<char> {
    match find_child(ns, p, tag, 0) {
        Some(c) => trim(text_of(ns, c)),
        None => Seq::empty(),
    }
}

/// Trimmed text of child `tag` of the first node named `parent_tag`.
pub open spec fn nested_text_of(ns: Seq<XmlNodeView>, parent_tag: Seq<char>, tag: Seq<char>) -> Seq<
    char,
> {
    match find_named(ns, parent_tag, 0) {
        Some(h) => child_text_of(ns, h, tag),
        None => Seq::empty(),
    }
}

/// What `find_named` returns: the first match at or after `i`.
pub proof fn lemma_find_named(ns: Seq<XmlNodeView>, tag: Seq<char>, i: int)
    requires
        0 <= i,
    ensures
        match find_named(ns, tag, i) {
            Some(k) => i <= k < ns.len() && ns[k].0 == tag && forall|j: int|
                i <= j < k ==> ns[j].0 != tag,
            None => forall|j: int| i <= j < ns.len() ==> ns[j].0 != tag,
        },
    decreases ns.len() - i,
{
    if i < ns.len() && ns[i].0 != tag {
        lemma_find_named(ns, tag, i + 1);
    }
}

/// What `find_child` returns: the first match at or after `i`.
pub proof fn lemma_find_child(ns: Seq<XmlNodeView>, p: int, tag: Seq<char>, i: int)
    requires
        0 <= i,
    ensures
        match find_child(ns, p, tag, i) {
            Some(k) => i <= k < ns.len() && is_child_named(ns, k, p, tag) && forall|j: int|
                i <= j < k ==> !is_child_named(ns, j, p, tag),
            None => forall|j: int| i <= j < ns.len() ==> !is_child_named(ns, j, p, tag),
        },
    decreases ns.len() - i,
{
    if i < ns.len() && !is_child_named(ns, i, p, tag) {
        lemma_find_child(ns, p, tag, i + 1);
    }
}

/// What `find_within` returns: the first match at or after `i`.
pub proof fn lemma_find_within(ns: Seq<XmlNodeView>, h: int, tag: Seq<char>, i: int)
    requires
        0 <= i,
    ensures
        match find_within(ns, h, tag, i) {
            Some(k) => i <= k < ns.len() && ns[k].0 == tag && within(ns, k, h) && forall|j: int|
                i <= j < k ==> !(ns[j].0 == tag && within(ns, j, h)),
            None => forall|j: int| i <= j < ns.len() ==> !(ns[j].0 == tag && within(ns, j, h)),
        },
    decreases ns.len() - i,
{
    if i < ns.len() && !(ns[i].0 == tag && within(ns, i, h)) {
        lemma_find_within(ns, h, tag, i + 1);
    }
}

impl XmlDoc {
    /// Whether node `i` lies in the subtree rooted at node `h`.
    pub fn is_within(&self, i: usize, h: usize) -> (res: bool)
        requires
            i < self.nodes@.len(),
        ensures
            res == within(self@, i as int, h as int),
    {
        let mut cur = i;
        while cur > h
            invariant
                cur < self.nodes@.len(),
                within(self@, i as int, h as int) == within(self@, cur as int, h as int),
            decreases cur,
        {
            match self.nodes[cur].parent {
                Some(p) => {
                    if p < cur {
                        cur = p;
                    } else {
                        return false;
                    }
                },
                None => {
                    return false;
                },
            }
        }
        cur == h
    }

    /// The first node named `tag`.
    pub fn first_named(&self, tag: &str) -> (res: Option<usize>)
        ensures
            match res {
                Some(i) => find_named(self@, tag@, 0) == Some(i as int),
                None => find_named(self@, tag@, 0) is None,
            },
    {
        let mut i: usize = 0;
        while i < self.nodes.len()
            invariant
                i <= self.nodes@.len(),
                find_named(self@, tag@, 0) == find_named(self@, tag@, i as int),
            decreases self.nodes@.len() - i,
        {
            if str_eq(self.nodes[i].name.as_str(), tag) {
                return Some(i);
            }
            i = i + 1;
        }
        None
    }

    /// The first child of node `p`, at index `from` or later, named `tag`.
    pub fn child_named(&self, p: usize, tag: &str, from: usize) -> (res: Option<usize>)
        ensures
            match res {
                Some(i) => find_child(self@, p as int, tag@, from as int) == Some(i as int),
                None => find_child(self@, p as int, tag@, from as int) is None,
            },
    {
        let mut i: usize = from;
        while i < self.nodes.len()
            invariant
                from <= i,
                find_child(self@, p as int, tag@, from as int) == find_child(
                    self@,
                    p as int,
                    tag@,
                    i as int,
                ),
            decreases self.nodes@.len() - i,
        {
            if self.nodes[i].parent == Some(p) && str_eq(self.nodes[i].name.as_str(), tag) {
                return Some(i);
            }
            i = i + 1;
        }
        None
    }

    /// The first node of the subtree of `h` named `tag`.
    pub fn within_named(&self, h: usize, tag: &str) -> (res: Option<usize>)
        ensures
            match res {
                Some(i) => find_within(self@, h as int, tag@, 0) == Some(i as int),
                None => find_within(self@, h as int, tag@, 0) is None,
            },
    {
        let mut i: usize = 0;
        while i < self.nodes.len()
            invariant
                i <= self.nodes@.len(),
                find_within(self@, h as int, tag@, 0) == find_within(self@, h as int, tag@, i as int),
            decreases self.nodes@.len() - i,
        {
            if str_eq(self.nodes[i].name.as_str(), tag) && self.is_within(i, h) {
                return Some(i);
            }
            i = i + 1;
        }
        None
    }

    /// The trimmed text of node `i`.
    pub fn trimmed_text(&self, i: usize) -> (res: String)
        requires
            i < self.nodes@.len(),
        ensures
            res@ == trim(text_of(self@, i as int)),
    {
        match &self.nodes[i].text {
            Some(t) => trimmed(t.as_str()),
            None => {
                assert(trim(Seq::<char>::empty()) =~= Seq::<char>::empty());
                String::new()
            },
        }
    }

    /// First element in the document with the given local tag name; its
    /// trimmed text.
    pub fn first_text(&self, tag: &str) -> (res: String)
        ensures
            res@ == first_text_of(self@, tag@),
    {
        proof {
            lemma_find_named(self@, tag@, 0);
        }
        match self.first_named(tag) {
            Some(i) => self.trimmed_text(i),
            None => String::new(),
        }
    }

    /// First direct child of node `p` with the given local name; its trimmed
    /// text.
    pub fn child_text(&self, p: usize, tag: &str) -> (res: String)
        ensures
            res@ == child_text_of(self@, p as int, tag@),
    {
        proof {
            lemma_find_child(self@, p as int, tag@, 0);
        }
        match self.child_named(p, tag, 0) {
            Some(i) => self.trimmed_text(i),
            None => String::new(),
        }
    }

    /// Trimmed text of child `tag` of the first element named `parent_tag`.
    pub fn nested_text(&self, parent_tag: &str, tag: &str) -> (res: String)
        ensures
            res@ == nested_text_of(self@, parent_tag@, tag@),
    {
        match self.first_named(parent_tag) {
            Some(h) => self.child_text(h, tag),
            None => String::new(),
        }
    }
}

} // verus!
