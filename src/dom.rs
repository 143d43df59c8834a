use vstd::prelude::*;
use crate::strs::{opt_contains, opt_eq, seq_contains, str_eq};
use vstd::string::StringExecFns;

verus! {

/// The attributes of an element that the grammar reads.
pub struct Element {
    pub name: String,
    pub id: Option<String>,
    pub class: Option<String>,
    pub href: Option<String>,
}

/// What a node of the page is.
pub enum NodeData {
    Element(Element),
    Text(String),
    /// The document itself, a comment, a doctype: nodes that hold no text of their own.
    Other,
}

pub struct Node {
    pub data: NodeData,
    pub children: Vec<usize>,
}

/// A page as a tree of nodes held in one vector. Node 0 is the root; each node
/// lists its children by index, and every child stands after its parent.
pub struct Dom {
    pub nodes: Vec<Node>,
}

/// A position in a sibling sequence: child number `pos` of node `parent`.
#[derive(Clone, Copy, PartialEq, Eq, Structural, Debug)]
pub struct Cursor {
    pub parent: usize,
    pub pos: usize,
}

impl Dom {
    pub open spec fn len(&self) -> int {
        self.nodes@.len() as int
    }

    pub open spec fn kids(&self, i: int) -> Seq<usize> {
        self.nodes@[i].children@
    }

    /// Every child index points past its parent and into the vector, and the
    /// children of a node stand in increasing order.
    pub open spec fn wf(&self) -> bool {
        &&& forall|i: int, j: int|
            0 <= i < self.len() && 0 <= j < self.kids(i).len() ==> i < #[trigger] self.kids(i)[j]
                < self.len()
        &&& forall|i: int, j: int|
            0 <= i < self.len() && 0 < j < self.kids(i).len() ==> self.kids(i)[j - 1] < #[trigger] self.kids(
                i,
            )[j]
    }

    /// The node a cursor stands on, or the end of the vector for no cursor.
    pub open spec fn pos_of(&self, c: Option<Cursor>) -> int {
        match c {
            Some(c) => self.at(c),
            None => self.len(),
        }
    }

    pub proof fn lemma_next_advances(&self, c: Cursor)
        requires
            self.wf(),
            self.valid(c),
        ensures
            self.next_spec(c) matches Some(n) ==> self.valid(n) && self.at(n) > self.at(c),
            self.at(c) > c.parent,
            self.at(c) < self.len(),
    {
        if let Some(n) = self.next_spec(c) {
            assert(self.kids(c.parent as int)[n.pos as int - 1] < self.kids(c.parent as int)[n.pos as int]);
        }
        assert(c.parent < self.kids(c.parent as int)[c.pos as int]);
    }

    pub proof fn lemma_first_child(&self, i: int)
        requires
            self.wf(),
            0 <= i < self.len(),
        ensures
            self.first_child_spec(i) matches Some(n) ==> self.valid(n) && self.at(n) > i,
            self.last_child_spec(i) matches Some(n) ==> self.valid(n) && self.at(n) > i,
    {
        if self.kids(i).len() > 0 {
            assert(i < self.kids(i)[0]);
            assert(i < self.kids(i)[self.kids(i).len() - 1]);
        }
    }

    pub open spec fn valid(&self, c: Cursor) -> bool {
        c.parent < self.len() && c.pos < self.kids(c.parent as int).len()
    }

    /// The node a cursor stands on.
    pub open spec fn at(&self, c: Cursor) -> int {
        self.kids(c.parent as int)[c.pos as int] as int
    }

    pub open spec fn next_spec(&self, c: Cursor) -> Option<Cursor> {
        if c.pos + 1 < self.kids(c.parent as int).len() && c.pos < usize::MAX {
            Some(Cursor { parent: c.parent, pos: (c.pos + 1) as usize })
        } else {
            None
        }
    }

    pub open spec fn first_child_spec(&self, i: int) -> Option<Cursor> {
        if self.kids(i).len() > 0 {
            Some(Cursor { parent: i as usize, pos: 0 })
        } else {
            None
        }
    }

    pub open spec fn last_child_spec(&self, i: int) -> Option<Cursor> {
        if self.kids(i).len() > 0 {
            Some(Cursor { parent: i as usize, pos: (self.kids(i).len() - 1) as usize })
        } else {
            None
        }
    }

    pub open spec fn element(&self, i: int) -> Option<Element> {
        match self.nodes@[i].data {
            NodeData::Element(e) => Some(e),
            _ => None,
        }
    }

    pub open spec fn is_tag(&self, i: int, name: Seq<char>) -> bool {
        self.element(i) is Some && self.element(i)->Some_0.name@ == name
    }

    /// The class attribute of node `i` holds `tok`.
    pub open spec fn class_has(&self, i: int, tok: Seq<char>) -> bool {
        self.element(i) is Some && self.element(i)->Some_0.class is Some && seq_contains(
            self.element(i)->Some_0.class->Some_0@,
            tok,
        )
    }

    pub open spec fn class_is(&self, i: int, v: Seq<char>) -> bool {
        self.element(i) is Some && self.element(i)->Some_0.class is Some
            && self.element(i)->Some_0.class->Some_0@ == v
    }

    pub open spec fn id_is(&self, i: int, v: Seq<char>) -> bool {
        self.element(i) is Some && self.element(i)->Some_0.id is Some
            && self.element(i)->Some_0.id->Some_0@ == v
    }

    /// All the text under node `i`, in document order, with the markup left out.
    pub open spec fn text_of(&self, i: int) -> Seq<char>
        decreases self.len() - i, 1int, 0int,
    {
        if 0 <= i < self.len() {
            match self.nodes@[i].data {
                NodeData::Text(s) => s@,
                _ => self.kids_text(i, self.kids(i).len() as int),
            }
        } else {
            Seq::empty()
        }
    }

    /// The text of the first `k` children of node `i`.
    pub open spec fn kids_text(&self, i: int, k: int) -> Seq<char>
        decreases self.len() - i, 0int, k,
    {
        if 0 <= i < self.len() && 0 < k <= self.kids(i).len() {
            let c = self.kids(i)[k - 1] as int;
            if i < c < self.len() {
                self.kids_text(i, k - 1) + self.text_of(c)
            } else {
                self.kids_text(i, k - 1)
            }
        } else {
            Seq::empty()
        }
    }

    /// The `tr` elements under node `i`, in document order.
    pub open spec fn rows_of(&self, i: int) -> Seq<usize>
        decreases self.len() - i, 1int, 0int,
    {
        if 0 <= i < self.len() {
            self.rows_kids(i, self.kids(i).len() as int)
        } else {
            Seq::empty()
        }
    }

    pub open spec fn rows_kids(&self, i: int, k: int) -> Seq<usize>
        decreases self.len() - i, 0int, k,
    {
        if 0 <= i < self.len() && 0 < k <= self.kids(i).len() {
            let c = self.kids(i)[k - 1];
            if i < c < self.len() {
                let own = if self.is_tag(c as int, "tr"@) {
                    seq![c]
                } else {
                    Seq::empty()
                };
                self.rows_kids(i, k - 1) + own + self.rows_of(c as int)
            } else {
                self.rows_kids(i, k - 1)
            }
        } else {
            Seq::empty()
        }
    }

    /// Every row found under node `i` is a node of the tree.
    pub proof fn lemma_rows_in_range(&self, i: int)
        requires
            self.wf(),
            0 <= i < self.len(),
        ensures
            forall|j: int| 0 <= j < self.rows_of(i).len() ==> #[trigger] self.rows_of(i)[j] < self.len(),
        decreases self.len() - i, 1int, 0int,
    {
        self.lemma_rows_kids_in_range(i, self.kids(i).len() as int);
        assert(self.rows_of(i) == self.rows_kids(i, self.kids(i).len() as int));
    }

    pub proof fn lemma_rows_kids_in_range(&self, i: int, k: int)
        requires
            self.wf(),
            0 <= i < self.len(),
            0 <= k <= self.kids(i).len(),
        ensures
            forall|j: int| 0 <= j < self.rows_kids(i, k).len() ==> #[trigger] self.rows_kids(i, k)[j] < self.len(),
        decreases self.len() - i, 0int, k,
    {
        if k > 0 {
            let c = self.kids(i)[k - 1];
            self.lemma_rows_kids_in_range(i, k - 1);
            self.lemma_rows_in_range(c as int);
            let own = if self.is_tag(c as int, "tr"@) {
                seq![c]
            } else {
                Seq::<usize>::empty()
            };
            let a = self.rows_kids(i, k - 1);
            let b = self.rows_of(c as int);
            assert forall|j: int| 0 <= j < (a + own + b).len() implies #[trigger] (a + own + b)[j] < self.len() by {
                if j < a.len() {
                    assert((a + own + b)[j] == a[j]);
                } else if j < a.len() + own.len() {
                    assert((a + own + b)[j] == own[j - a.len()]);
                } else {
                    assert((a + own + b)[j] == b[j - a.len() - own.len()]);
                }
            }
        }
    }

    fn push_rows(&self, i: usize, out: &mut Vec<usize>)
        requires
            self.wf(),
            i < self.len(),
        ensures
            final(out)@ == old(out)@ + self.rows_of(i as int),
        decreases self.len() - i,
    {
        let n = self.nodes[i].children.len();
        let mut k: usize = 0;
        while k < n
            invariant
                self.wf(),
                i < self.len(),
                n == self.kids(i as int).len(),
                k <= n,
                out@ == old(out)@ + self.rows_kids(i as int, k as int),
            decreases n - k,
        {
            let c = self.nodes[i].children[k];
            assert(i < self.kids(i as int)[k as int]);
            if self.tag_is(c, "tr") {
                out.push(c);
            }
            self.push_rows(c, out);
            k += 1;
            proof {
                assert(out@ =~= old(out)@ + self.rows_kids(i as int, k as int));
            }
        }
        proof {
            assert(out@ =~= old(out)@ + self.rows_of(i as int));
        }
    }

    /// The `tr` elements under node `i`, in document order.
    pub fn rows(&self, i: usize) -> (r: Vec<usize>)
        requires
            self.wf(),
            i < self.len(),
        ensures
            r@ == self.rows_of(i as int),
            forall|j: int| 0 <= j < r@.len() ==> #[trigger] r@[j] < self.len(),
    {
        let mut out: Vec<usize> = Vec::new();
        self.push_rows(i, &mut out);
        proof {
            assert(out@ =~= self.rows_of(i as int));
            self.lemma_rows_in_range(i as int);
        }
        out
    }

    /// Node `j` has identifier `v` (with `by_id`) or a class attribute that holds `v`.
    pub open spec fn query(&self, j: int, by_id: bool, v: Seq<char>) -> bool {
        if by_id {
            self.id_is(j, v)
        } else {
            self.class_has(j, v)
        }
    }

    /// The first node under node `i`, in document order, that the query selects.
    pub open spec fn find_in(&self, i: int, by_id: bool, v: Seq<char>) -> Option<Cursor>
        decreases self.len() - i, 1int, 0int,
    {
        if 0 <= i < self.len() {
            self.find_kids(i, 0, by_id, v)
        } else {
            None
        }
    }

    /// The same, among the children of node `i` from number `k` on and what they hold.
    pub open spec fn find_kids(&self, i: int, k: int, by_id: bool, v: Seq<char>) -> Option<Cursor>
        decreases self.len() - i, 0int, self.kids(i).len() - k,
    {
        if 0 <= i < self.len() && 0 <= k < self.kids(i).len() && i <= usize::MAX && k <= usize::MAX {
            let c = self.kids(i)[k] as int;
            if self.query(c, by_id, v) {
                Some(Cursor { parent: i as usize, pos: k as usize })
            } else if i < c < self.len() {
                match self.find_in(c, by_id, v) {
                    Some(x) => Some(x),
                    None => self.find_kids(i, k + 1, by_id, v),
                }
            } else {
                self.find_kids(i, k + 1, by_id, v)
            }
        } else {
            None
        }
    }

    fn query_exec(&self, j: usize, by_id: bool, v: &str) -> (r: bool)
        requires
            j < self.len(),
        ensures
            r == self.query(j as int, by_id, v@),
    {
        if by_id {
            self.id_equals(j, v)
        } else {
            self.has_class(j, v)
        }
    }

    /// The first node under node `i`, in document order, whose identifier is `v`
    /// (with `by_id`) or whose class attribute holds `v`.
    pub fn find_first(&self, i: usize, by_id: bool, v: &str) -> (r: Option<Cursor>)
        requires
            self.wf(),
            i < self.len(),
        ensures
            r == self.find_in(i as int, by_id, v@),
            r matches Some(c) ==> self.valid(c),
        decreases self.len() - i, 1int,
    {
        let n = self.nodes[i].children.len();
        let mut k: usize = 0;
        while k < n
            invariant
                self.wf(),
                i < self.len(),
                n == self.kids(i as int).len(),
                k <= n,
                self.find_in(i as int, by_id, v@) == self.find_kids(i as int, k as int, by_id, v@),
            decreases n - k,
        {
            let c = self.nodes[i].children[k];
            assert(i < self.kids(i as int)[k as int]);
            if self.query_exec(c, by_id, v) {
                return Some(Cursor { parent: i, pos: k });
            }
            match self.find_first(c, by_id, v) {
                Some(x) => {
                    return Some(x);
                },
                None => {},
            }
            k += 1;
        }
        None
    }

    /// A tree of one root node, with nothing under it.
    pub fn new() -> (r: Dom)
        ensures
            r.wf(),
            r.len() == 1,
            r.nodes@[0].data is Other,
            r.kids(0).len() == 0,
    {
        let mut nodes: Vec<Node> = Vec::new();
        nodes.push(Node { data: NodeData::Other, children: Vec::new() });
        Dom { nodes }
    }

    /// Adds `data` as the last child of `parent` and returns its index.
    pub fn append(&mut self, parent: usize, data: NodeData) -> (r: usize)
        requires
            old(self).wf(),
            parent < old(self).len(),
            old(self).len() < usize::MAX,
        ensures
            final(self).wf(),
            r == old(self).len(),
            final(self).len() == old(self).len() + 1,
            final(self).nodes@[r as int].data == data,
            final(self).kids(r as int).len() == 0,
            final(self).kids(parent as int) == old(self).kids(parent as int).push(r),
            forall|i: int| 0 <= i < old(self).len() && i != parent ==> #[trigger] final(self).nodes@[i]
                == old(self).nodes@[i],
            final(self).nodes@[parent as int].data == old(self).nodes@[parent as int].data,
    {
        let r = self.nodes.len();
        self.nodes.push(Node { data, children: Vec::new() });
        let ghost mid = self.nodes@;
        let mut p = self.nodes.remove(parent);
        p.children.push(r);
        self.nodes.insert(parent, p);
        proof {
            assert(self.nodes@ =~= mid.update(parent as int, p));
            assert(mid =~= old(self).nodes@.push(mid[r as int]));
            assert forall|i: int| 0 <= i < old(self).len() && i != parent implies #[trigger] self.nodes@[i]
                == old(self).nodes@[i] by {
                assert(self.nodes@[i] == mid[i]);
            }
            assert(p.children@ == old(self).kids(parent as int).push(r));
            assert forall|i: int, j: int|
                0 <= i < self.len() && 0 <= j < self.kids(i).len() implies i < #[trigger] self.kids(i)[j]
                < self.len() by {
                if i == parent {
                    if j < old(self).kids(i).len() {
                        assert(self.kids(i)[j] == old(self).kids(i)[j]);
                    }
                } else if i == r {
                    assert(self.nodes@[i] == mid[r as int]);
                } else {
                    assert(self.nodes@[i] == old(self).nodes@[i]);
                }
            }
            assert forall|i: int, j: int|
                0 <= i < self.len() && 0 < j < self.kids(i).len() implies self.kids(i)[j - 1]
                < #[trigger] self.kids(i)[j] by {
                if i == parent {
                    assert(self.kids(i)[j - 1] == old(self).kids(i)[j - 1]);
                    if j < old(self).kids(i).len() {
                        assert(self.kids(i)[j] == old(self).kids(i)[j]);
                    } else {
                        assert(old(self).kids(i)[j - 1] < old(self).len());
                    }
                } else if i == r {
                    assert(self.nodes@[i] == mid[r as int]);
                } else {
                    assert(self.nodes@[i] == old(self).nodes@[i]);
                }
            }
        }
        r
    }

    /// Whether every child index points past its parent and into the vector.
    pub fn is_well_formed(&self) -> (r: bool)
        ensures
            r == self.wf(),
    {
        let n = self.nodes.len();
        let mut i: usize = 0;
        while i < n
            invariant
                n == self.len(),
                i <= n,
                forall|a: int, j: int|
                    0 <= a < i && 0 <= j < self.kids(a).len() ==> a < #[trigger] self.kids(a)[j] < n,
                forall|a: int, j: int|
                    0 <= a < i && 0 < j < self.kids(a).len() ==> self.kids(a)[j - 1] < #[trigger] self.kids(a)[j],
            decreases n - i,
        {
            let m = self.nodes[i].children.len();
            let mut j: usize = 0;
            while j < m
                invariant
                    n == self.len(),
                    i < n,
                    m == self.kids(i as int).len(),
                    j <= m,
                    forall|a: int, b: int|
                        0 <= a < i && 0 <= b < self.kids(a).len() ==> a < #[trigger] self.kids(a)[b] < n,
                    forall|a: int, b: int|
                        0 <= a < i && 0 < b < self.kids(a).len() ==> self.kids(a)[b - 1] < #[trigger] self.kids(a)[b],
                    forall|b: int| 0 <= b < j ==> i < #[trigger] self.kids(i as int)[b] < n,
                    forall|b: int| 0 < b < j ==> self.kids(i as int)[b - 1] < #[trigger] self.kids(i as int)[b],
                decreases m - j,
            {
                let c = self.nodes[i].children[j];
                if c <= i || c >= n {
                    return false;
                }
                if j > 0 && self.nodes[i].children[j - 1] >= c {
                    return false;
                }
                j += 1;
            }
            i += 1;
        }
        true
    }

    pub fn node_at(&self, c: Cursor) -> (r: usize)
        requires
            self.valid(c),
        ensures
            r == self.at(c),
    {
        self.nodes[c.parent].children[c.pos]
    }

    /// The sibling after the cursor's node, if there is one.
    pub fn next_sibling(&self, c: Cursor) -> (r: Option<Cursor>)
        requires
            self.valid(c),
        ensures
            r == self.next_spec(c),
    {
        let n = self.nodes[c.parent].children.len();
        if c.pos < n - 1 {
            Some(Cursor { parent: c.parent, pos: c.pos + 1 })
        } else {
            None
        }
    }

    pub fn first_child(&self, i: usize) -> (r: Option<Cursor>)
        requires
            i < self.len(),
        ensures
            r == self.first_child_spec(i as int),
    {
        if self.nodes[i].children.len() > 0 {
            Some(Cursor { parent: i, pos: 0 })
        } else {
            None
        }
    }

    pub fn last_child(&self, i: usize) -> (r: Option<Cursor>)
        requires
            i < self.len(),
        ensures
            r == self.last_child_spec(i as int),
    {
        let n = self.nodes[i].children.len();
        if n > 0 {
            Some(Cursor { parent: i, pos: n - 1 })
        } else {
            None
        }
    }

    pub fn tag_is(&self, i: usize, name: &str) -> (r: bool)
        requires
            i < self.len(),
        ensures
            r == self.is_tag(i as int, name@),
    {
        match &self.nodes[i].data {
            NodeData::Element(e) => str_eq(e.name.as_str(), name),
            _ => false,
        }
    }

    pub fn has_class(&self, i: usize, tok: &str) -> (r: bool)
        requires
            i < self.len(),
        ensures
            r == self.class_has(i as int, tok@),
    {
        match &self.nodes[i].data {
            NodeData::Element(e) => opt_contains(&e.class, tok),
            _ => false,
        }
    }

    pub fn class_equals(&self, i: usize, v: &str) -> (r: bool)
        requires
            i < self.len(),
        ensures
            r == self.class_is(i as int, v@),
    {
        match &self.nodes[i].data {
            NodeData::Element(e) => opt_eq(&e.class, v),
            _ => false,
        }
    }

    pub fn id_equals(&self, i: usize, v: &str) -> (r: bool)
        requires
            i < self.len(),
        ensures
            r == self.id_is(i as int, v@),
    {
        match &self.nodes[i].data {
            NodeData::Element(e) => opt_eq(&e.id, v),
            _ => false,
        }
    }

    /// Appends the text under node `i` to `out`.
    fn push_text_of(&self, i: usize, out: &mut String)
        requires
            self.wf(),
            i < self.len(),
        ensures
            final(out)@ == old(out)@ + self.text_of(i as int),
        decreases self.len() - i,
    {
        match &self.nodes[i].data {
            NodeData::Text(s) => {
                out.append(s.as_str());
            },
            _ => {
                let n = self.nodes[i].children.len();
                let mut k: usize = 0;
                while k < n
                    invariant
                        self.wf(),
                        i < self.len(),
                        n == self.kids(i as int).len(),
                        k <= n,
                        !(self.nodes@[i as int].data is Text),
                        out@ == old(out)@ + self.kids_text(i as int, k as int),
                    decreases n - k,
                {
                    let c = self.nodes[i].children[k];
                    assert(i < self.kids(i as int)[k as int]);
                    self.push_text_of(c, out);
                    k += 1;
                    proof {
                        assert(out@ =~= old(out)@ + self.kids_text(i as int, k as int));
                    }
                }
            },
        }
    }

    /// All the text under node `i`, in document order, with the markup left out.
    pub fn text_contents(&self, i: usize) -> (r: String)
        requires
            self.wf(),
            i < self.len(),
        ensures
            r@ == self.text_of(i as int),
    {
        let mut out = String::new();
        self.push_text_of(i, &mut out);
        proof {
            assert(out@ =~= self.text_of(i as int));
        }
        out
    }
}

} // verus!
