//! A parsed HTML document as plain values.
//!
//! Nodes are stored in document order (pre-order), so the descendants of
//! node `i` are exactly the nodes `i + 1 .. end(i)`, and the first child of
//! a node with descendants is the node right after it.
use crate::text::{chars_of, str_eq};
use vstd::prelude::*;

verus! {

/// What a node is.
pub enum NodeKind {
    /// An element with its tag name, classes and attributes.
    Element { name: String, classes: Vec<String>, attrs: Vec<(String, String)> },
    /// A text node.
    Text(String),
    /// Anything else: the document itself, a comment, a doctype.
    Other,
}

/// What a [`NodeKind`] holds.
pub enum NodeKindView {
    Element { name: Seq<char>, classes: Seq<Seq<char>>, attrs: Seq<(Seq<char>, Seq<char>)> },
    Text(Seq<char>),
    Other,
}

impl View for NodeKind {
    type V = NodeKindView;

    open spec fn view(&self) -> NodeKindView {
        match self {
            NodeKind::Element { name, classes, attrs } => NodeKindView::Element {
                name: name@,
                classes: classes@.map_values(|c: String| c@),
                attrs: attrs@.map_values(|a: (String, String)| (a.0@, a.1@)),
            },
            NodeKind::Text(t) => NodeKindView::Text(t@),
            NodeKind::Other => NodeKindView::Other,
        }
    }
}

/// What a [`Document`] holds: for each node in document order, what it is,
/// its parent, and the end of its subtree.
pub struct DocView {
    pub kinds: Seq<NodeKindView>,
    pub parents: Seq<Option<usize>>,
    pub ends: Seq<usize>,
}

/// The nodes `lo..hi` of `d` are well placed: each subtree ends after its
/// node and within the document, and each parent is an earlier node.
pub open spec fn doc_wf(d: DocView) -> bool {
    &&& d.parents.len() == d.kinds.len()
    &&& d.ends.len() == d.kinds.len()
    &&& forall|i: int| 0 <= i < d.kinds.len() ==> i < #[trigger] d.ends[i] <= d.kinds.len()
    &&& forall|i: int| 0 <= i < d.kinds.len() ==> (#[trigger] d.parents[i] matches Some(p) ==> p < i)
}

/// Whether node `i` is an element with class `class`.
pub open spec fn has_class(d: DocView, i: int, class: Seq<char>) -> bool {
    (d.kinds[i] matches NodeKindView::Element { classes, .. } && classes.contains(class))
}

/// Whether node `i` is an element named `name`.
pub open spec fn is_named(d: DocView, i: int, name: Seq<char>) -> bool {
    (d.kinds[i] matches NodeKindView::Element { name: n, .. } && n == name)
}

/// Whether node `i` is an element.
pub open spec fn is_element(d: DocView, i: int) -> bool {
    d.kinds[i] is Element
}

/// The first node of `lo..hi` that is an element with class `class`.
pub open spec fn first_with_class(d: DocView, lo: int, hi: int, class: Seq<char>) -> Option<int>
    decreases hi - lo,
{
    if lo >= hi {
        None
    } else if has_class(d, lo, class) {
        Some(lo)
    } else {
        first_with_class(d, lo + 1, hi, class)
    }
}

/// The first element named `name` in `lo..hi` whose parent is an element
/// with class `class` (the selector `.class>name`).
pub open spec fn first_child_named(d: DocView, lo: int, hi: int, class: Seq<char>, name: Seq<char>) -> Option<int>
    decreases hi - lo,
{
    if lo >= hi {
        None
    } else if is_named(d, lo, name) && (d.parents[lo] matches Some(p) && has_class(
        d,
        p as int,
        class,
    )) {
        Some(lo)
    } else {
        first_child_named(d, lo + 1, hi, class, name)
    }
}

/// The children of node `i` among the nodes `lo..hi`, in order.
pub open spec fn children_in(d: DocView, i: int, lo: int, hi: int) -> Seq<int>
    decreases hi - lo,
{
    if lo >= hi {
        Seq::empty()
    } else if d.parents[lo] == Some(i as usize) {
        seq![lo] + children_in(d, i, lo + 1, hi)
    } else {
        children_in(d, i, lo + 1, hi)
    }
}

/// The children of node `i`, in order.
pub open spec fn children(d: DocView, i: int) -> Seq<int> {
    children_in(d, i, i + 1, d.ends[i] as int)
}

/// The first child of node `i`, if it has one.
pub open spec fn first_child(d: DocView, i: int) -> Option<int> {
    if children(d, i).len() > 0 { Some(children(d, i)[0]) } else { None }
}

/// The last child of node `i`, if it has one.
pub open spec fn last_child(d: DocView, i: int) -> Option<int> {
    if children(d, i).len() > 0 { Some(children(d, i).last()) } else { None }
}

/// The text of node `i`, if it is a text node.
pub open spec fn text_of(d: DocView, i: int) -> Option<Seq<char>> {
    match d.kinds[i] {
        NodeKindView::Text(t) => Some(t),
        _ => None,
    }
}

/// The value of the first attribute named `name` of node `i`.
pub open spec fn attr_of(d: DocView, i: int, name: Seq<char>) -> Option<Seq<char>> {
    match d.kinds[i] {
        NodeKindView::Element { attrs, .. } => attr_in(attrs, name),
        _ => None,
    }
}

/// The value of the first attribute named `name`.
pub open spec fn attr_in(attrs: Seq<(Seq<char>, Seq<char>)>, name: Seq<char>) -> Option<Seq<char>>
    decreases attrs.len(),
{
    if attrs.len() == 0 {
        None
    } else if attrs[0].0 == name {
        Some(attrs[0].1)
    } else {
        attr_in(attrs.drop_first(), name)
    }
}

/// An HTML document: its nodes in document order.
pub struct Document {
    kinds: Vec<NodeKind>,
    parents: Vec<Option<usize>>,
    ends: Vec<usize>,
    // The nodes opened and not yet closed, innermost last.
    open: Vec<usize>,
}

impl View for Document {
    type V = DocView;

    closed spec fn view(&self) -> DocView {
        DocView {
            kinds: self.kinds@.map_values(|k: NodeKind| k@),
            parents: self.parents@,
            ends: self.ends@,
        }
    }
}

impl Document {
    /// The document's own consistency: well placed nodes, and open nodes
    /// that exist.
    pub closed spec fn inv(&self) -> bool {
        &&& doc_wf(self@)
        &&& self.kinds@.len() == self@.kinds.len()
        &&& forall|k: int| 0 <= k < self.open@.len() ==> #[trigger] self.open@[k] < self.kinds@.len()
    }

    /// The node that a new node is placed under.
    pub closed spec fn current_parent(&self) -> Option<usize> {
        if self.open@.len() > 0 { Some(self.open@.last()) } else { None }
    }

    /// An empty document.
    pub fn new() -> (r: Self)
        ensures
            r.inv(),
            r@.kinds.len() == 0,
            r.current_parent() is None,
    {
        Document { kinds: Vec::new(), parents: Vec::new(), ends: Vec::new(), open: Vec::new() }
    }

    fn push_node(&mut self, kind: NodeKind) -> (i: usize)
        requires
            old(self).inv(),
            old(self)@.kinds.len() < usize::MAX - 1,
        ensures
            final(self).inv(),
            i == old(self)@.kinds.len(),
            final(self)@.kinds == old(self)@.kinds.push(kind@),
            final(self)@.parents == old(self)@.parents.push(old(self).current_parent()),
            final(self)@.ends == old(self)@.ends.push((i + 1) as usize),
            final(self).open@ == old(self).open@,
    {
        let i = self.kinds.len();
        let parent = if self.open.len() > 0 { Some(self.open[self.open.len() - 1]) } else { None };
        self.kinds.push(kind);
        self.parents.push(parent);
        self.ends.push(i + 1);
        assert(self.kinds@.map_values(|k: NodeKind| k@) =~= old(self).kinds@.map_values(
            |k: NodeKind| k@,
        ).push(kind@));
        i
    }

    /// Adds a node with no children under the current parent.
    pub fn push_leaf(&mut self, kind: NodeKind)
        requires
            old(self).inv(),
            old(self)@.kinds.len() < usize::MAX - 1,
        ensures
            final(self).inv(),
            final(self)@.kinds == old(self)@.kinds.push(kind@),
            final(self)@.parents == old(self)@.parents.push(old(self).current_parent()),
            final(self)@.ends == old(self)@.ends.push((old(self)@.kinds.len() + 1) as usize),
            final(self).current_parent() == old(self).current_parent(),
    {
        self.push_node(kind);
    }

    /// Adds a node under the current parent and makes it the current parent
    /// until it is closed.
    pub fn open_node(&mut self, kind: NodeKind)
        requires
            old(self).inv(),
            old(self)@.kinds.len() < usize::MAX - 1,
        ensures
            final(self).inv(),
            final(self)@.kinds == old(self)@.kinds.push(kind@),
            final(self)@.parents == old(self)@.parents.push(old(self).current_parent()),
            final(self)@.ends == old(self)@.ends.push((old(self)@.kinds.len() + 1) as usize),
            final(self).current_parent() == Some(old(self)@.kinds.len() as usize),
    {
        let i = self.push_node(kind);
        self.open.push(i);
    }

    /// Closes the current parent: its subtree ends here. Does nothing when
    /// no node is open.
    pub fn close(&mut self)
        requires
            old(self).inv(),
        ensures
            final(self).inv(),
            final(self)@.kinds == old(self)@.kinds,
            final(self)@.parents == old(self)@.parents,
            final(self)@.ends == (match old(self).current_parent() {
                Some(p) => old(self)@.ends.update(p as int, old(self)@.kinds.len() as usize),
                None => old(self)@.ends,
            }),
    {
        match self.open.pop() {
            Some(p) => {
                assert(old(self).open@[old(self).open@.len() - 1] == p);
                let n = self.kinds.len();
                self.ends.set(p, n);
                assert forall|k: int| 0 <= k < self.open@.len() implies #[trigger] self.open@[k]
                    < self.kinds@.len() by {
                    assert(self.open@[k] == old(self).open@[k]);
                }
            },
            None => {},
        }
    }

    /// The number of nodes.
    pub fn len(&self) -> (r: usize)
        requires
            self.inv(),
        ensures
            r == self@.kinds.len(),
            doc_wf(self@),
    {
        self.kinds.len()
    }

    /// What node `i` is.
    pub fn kind(&self, i: usize) -> (r: &NodeKind)
        requires
            self.inv(),
            i < self@.kinds.len(),
        ensures
            r@ == self@.kinds[i as int],
    {
        &self.kinds[i]
    }

    /// The parent of node `i`.
    pub fn parent(&self, i: usize) -> (r: Option<usize>)
        requires
            self.inv(),
            i < self@.kinds.len(),
        ensures
            r == self@.parents[i as int],
    {
        self.parents[i]
    }

    /// The end of the subtree of node `i`: its descendants are the nodes
    /// after it and before this one.
    pub fn end(&self, i: usize) -> (r: usize)
        requires
            self.inv(),
            i < self@.kinds.len(),
        ensures
            r == self@.ends[i as int],
            i < r <= self@.kinds.len(),
    {
        self.ends[i]
    }

    /// Whether node `i` is an element with class `class`.
    pub fn has_class(&self, i: usize, class: &str) -> (r: bool)
        requires
            self.inv(),
            i < self@.kinds.len(),
        ensures
            r == has_class(self@, i as int, class@),
    {
        match &self.kinds[i] {
            NodeKind::Element { classes, .. } => {
                let ghost cs = classes@.map_values(|c: String| c@);
                let mut k: usize = 0;
                while k < classes.len()
                    invariant
                        k <= classes.len(),
                        cs == classes@.map_values(|c: String| c@),
                        (self@.kinds[i as int] matches NodeKindView::Element { classes: vc, .. }
                            && vc == cs),
                        forall|j: int| 0 <= j < k ==> cs[j] != class@,
                    decreases classes.len() - k,
                {
                    if str_eq(classes[k].as_str(), class) {
                        assert(cs[k as int] == class@);
                        return true;
                    }
                    k = k + 1;
                }
                false
            },
            _ => false,
        }
    }

    /// Whether node `i` is an element.
    pub fn is_element(&self, i: usize) -> (r: bool)
        requires
            self.inv(),
            i < self@.kinds.len(),
        ensures
            r == is_element(self@, i as int),
    {
        match &self.kinds[i] {
            NodeKind::Element { .. } => true,
            _ => false,
        }
    }

    /// Whether node `i` is an element named `name`.
    pub fn is_named(&self, i: usize, name: &str) -> (r: bool)
        requires
            self.inv(),
            i < self@.kinds.len(),
        ensures
            r == is_named(self@, i as int, name@),
    {
        match &self.kinds[i] {
            NodeKind::Element { name: n, .. } => str_eq(n.as_str(), name),
            _ => false,
        }
    }

    /// The first node of `lo..hi` that is an element with class `class`.
    pub fn first_with_class(&self, lo: usize, hi: usize, class: &str) -> (r: Option<usize>)
        requires
            self.inv(),
            hi <= self@.kinds.len(),
        ensures
            r is Some <==> first_with_class(self@, lo as int, hi as int, class@) is Some,
            r matches Some(j) ==> first_with_class(self@, lo as int, hi as int, class@) == Some(j as int),
            r matches Some(j) ==> lo <= j < hi,
        decreases hi - lo,
    {
        if lo >= hi {
            None
        } else if self.has_class(lo, class) {
            Some(lo)
        } else {
            self.first_with_class(lo + 1, hi, class)
        }
    }

    /// The children of node `i` among `lo..hi`, in order.
    pub fn children_in(&self, i: usize, lo: usize, hi: usize) -> (r: Vec<usize>)
        requires
            self.inv(),
            hi <= self@.kinds.len(),
        ensures
            r@.map_values(|j: usize| j as int) == children_in(self@, i as int, lo as int, hi as int),
            forall|k: int| 0 <= k < r@.len() ==> lo <= #[trigger] r@[k] < hi,
        decreases hi - lo,
    {
        if lo >= hi {
            let r: Vec<usize> = Vec::new();
            assert(r@.map_values(|j: usize| j as int) =~= Seq::<int>::empty());
            r
        } else {
            let rest = self.children_in(i, lo + 1, hi);
            if self.parents[lo] == Some(i) {
                let mut r: Vec<usize> = Vec::new();
                r.push(lo);
                let mut k: usize = 0;
                while k < rest.len()
                    invariant
                        k <= rest.len(),
                        r@ == seq![lo] + rest@.take(k as int),
                    decreases rest.len() - k,
                {
                    r.push(rest[k]);
                    k = k + 1;
                    assert(r@ =~= seq![lo] + rest@.take(k as int));
                }
                assert(rest@.take(k as int) == rest@);
                assert(r@.map_values(|j: usize| j as int) =~= seq![lo as int] + rest@.map_values(
                    |j: usize| j as int,
                ));
                r
            } else {
                rest
            }
        }
    }

    /// The first child of node `i`, if it has one.
    pub fn first_child(&self, i: usize) -> (r: Option<usize>)
        requires
            self.inv(),
            i < self@.kinds.len(),
        ensures
            r is Some <==> first_child(self@, i as int) is Some,
            r matches Some(j) ==> first_child(self@, i as int) == Some(j as int),
            r matches Some(j) ==> j < self@.kinds.len(),
    {
        let cs = self.children(i);
        if cs.len() > 0 {
            assert(cs@.map_values(|j: usize| j as int)[0] == cs@[0] as int);
            Some(cs[0])
        } else {
            None
        }
    }

    /// The last child of node `i`, if it has one.
    pub fn last_child(&self, i: usize) -> (r: Option<usize>)
        requires
            self.inv(),
            i < self@.kinds.len(),
        ensures
            r is Some <==> last_child(self@, i as int) is Some,
            r matches Some(j) ==> last_child(self@, i as int) == Some(j as int),
            r matches Some(j) ==> j < self@.kinds.len(),
    {
        let cs = self.children(i);
        if cs.len() > 0 {
            let n = cs.len();
            assert(cs@.map_values(|j: usize| j as int)[n - 1] == cs@[n - 1] as int);
            Some(cs[n - 1])
        } else {
            None
        }
    }

    /// The text of node `i`, if it is a text node.
    pub fn text_of(&self, i: usize) -> (r: Option<Vec<char>>)
        requires
            self.inv(),
            i < self@.kinds.len(),
        ensures
            match text_of(self@, i as int) {
                Some(t) => r matches Some(v) && v@ == t,
                None => r is None,
            },
    {
        match &self.kinds[i] {
            NodeKind::Text(t) => Some(chars_of(t.as_str())),
            _ => None,
        }
    }

    /// The value of the first attribute of node `i` named `name`.
    pub fn attr_of(&self, i: usize, name: &str) -> (r: Option<Vec<char>>)
        requires
            self.inv(),
            i < self@.kinds.len(),
        ensures
            match attr_of(self@, i as int, name@) {
                Some(t) => r matches Some(v) && v@ == t,
                None => r is None,
            },
    {
        match &self.kinds[i] {
            NodeKind::Element { attrs, .. } => {
                let ghost av = attrs@.map_values(|a: (String, String)| (a.0@, a.1@));
                let mut k: usize = 0;
                assert(av.skip(0) == av);
                while k < attrs.len()
                    invariant
                        k <= attrs.len(),
                        av == attrs@.map_values(|a: (String, String)| (a.0@, a.1@)),
                        attr_of(self@, i as int, name@) == attr_in(av.skip(k as int), name@),
                    decreases attrs.len() - k,
                {
                    assert(av.skip(k as int).drop_first() == av.skip(k + 1));
                    assert(av.skip(k as int)[0] == av[k as int]);
                    if str_eq(attrs[k].0.as_str(), name) {
                        return Some(chars_of(attrs[k].1.as_str()));
                    }
                    k = k + 1;
                }
                None
            },
            _ => None,
        }
    }

    /// The first element named `name` in `lo..hi` whose parent is an element
    /// with class `class`.
    pub fn first_child_named(&self, lo: usize, hi: usize, class: &str, name: &str) -> (r: Option<usize>)
        requires
            self.inv(),
            hi <= self@.kinds.len(),
        ensures
            r is Some <==> first_child_named(self@, lo as int, hi as int, class@, name@) is Some,
            r matches Some(j) ==> first_child_named(self@, lo as int, hi as int, class@, name@) == Some(j as int),
            r matches Some(j) ==> lo <= j < hi,
        decreases hi - lo,
    {
        if lo >= hi {
            return None;
        }
        if self.is_named(lo, name) {
            if let Some(p) = self.parents[lo] {
                if self.has_class(p, class) {
                    return Some(lo);
                }
            }
        }
        self.first_child_named(lo + 1, hi, class, name)
    }

    /// The children of node `i`, in order.
    pub fn children(&self, i: usize) -> (r: Vec<usize>)
        requires
            self.inv(),
            i < self@.kinds.len(),
        ensures
            r@.map_values(|j: usize| j as int) == children(self@, i as int),
            forall|k: int| 0 <= k < r@.len() ==> i < #[trigger] r@[k] < self@.kinds.len(),
    {
        let end = self.end(i);
        self.children_in(i, i + 1, end)
    }
}

} // verus!
