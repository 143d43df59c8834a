use vstd::prelude::*;
use crate::dom::{Cursor, Dom};

verus! {

/// The stability, feature and deprecation notes of an item; each is empty where
/// the page carries no such note.
pub struct Mark {
    pub stability: String,
    pub features: String,
    pub deprecated: String,
}

pub struct MarkModel {
    pub stability: Seq<char>,
    pub features: Seq<char>,
    pub deprecated: Seq<char>,
}

impl View for Mark {
    type V = MarkModel;

    open spec fn view(&self) -> MarkModel {
        MarkModel { stability: self.stability@, features: self.features@, deprecated: self.deprecated@ }
    }
}

pub open spec fn empty_mark() -> MarkModel {
    MarkModel { stability: Seq::empty(), features: Seq::empty(), deprecated: Seq::empty() }
}

impl Mark {
    /// A mark with all three notes empty.
    pub fn new() -> (r: Mark)
        ensures
            r@ == empty_mark(),
    {
        Mark { stability: String::new(), features: String::new(), deprecated: String::new() }
    }

    pub fn stability(&self) -> (r: &str)
        ensures
            r@ == self.stability@,
    {
        self.stability.as_str()
    }

    pub fn features(&self) -> (r: &str)
        ensures
            r@ == self.features@,
    {
        self.features.as_str()
    }

    pub fn deprecated(&self) -> (r: &str)
        ensures
            r@ == self.deprecated@,
    {
        self.deprecated.as_str()
    }
}

/// Which note node `i` carries: 1 stability, 2 features, 3 deprecation, 0 none.
pub open spec fn mark_kind(dom: Dom, i: int) -> nat {
    if dom.class_has(i, "unstable"@) {
        1
    } else if dom.class_has(i, "portability"@) {
        2
    } else if dom.class_has(i, "deprecated"@) {
        3
    } else {
        0
    }
}

pub open spec fn with_note(m: MarkModel, kind: nat, note: Seq<char>) -> MarkModel {
    if kind == 1 {
        MarkModel { stability: note, ..m }
    } else if kind == 2 {
        MarkModel { features: note, ..m }
    } else {
        MarkModel { deprecated: note, ..m }
    }
}

/// Reads notes from cursor `c` on, sibling by sibling, while each carries one;
/// gives the first sibling that carries none (or the end) and the notes read.
pub open spec fn marks_from(dom: Dom, c: Cursor, m: MarkModel) -> (Option<Cursor>, MarkModel)
    decreases dom.kids(c.parent as int).len() - c.pos,
{
    if !dom.valid(c) {
        (None, m)
    } else {
        let i = dom.at(c);
        let kind = mark_kind(dom, i);
        if kind == 0 {
            (Some(c), m)
        } else {
            let m2 = with_note(m, kind, dom.text_of(i));
            match dom.next_spec(c) {
                None => (None, m2),
                Some(n) => marks_from(dom, n, m2),
            }
        }
    }
}

/// Where the node at `c` carries no note, the mark read from there is empty
/// in all three notes and reading stops at `c` itself.
pub proof fn lemma_marks_default(dom: Dom, c: Cursor)
    requires
        dom.valid(c),
        mark_kind(dom, dom.at(c)) == 0,
    ensures
        marks_from(dom, c, empty_mark()) == (Some(c), empty_mark()),
        marks_from(dom, c, empty_mark()).1.stability.len() == 0,
        marks_from(dom, c, empty_mark()).1.features.len() == 0,
        marks_from(dom, c, empty_mark()).1.deprecated.len() == 0,
{
}

/// Reading notes never moves backwards.
pub proof fn lemma_marks_advance(dom: Dom, c: Cursor, m: MarkModel)
    requires
        dom.wf(),
        dom.valid(c),
    ensures
        marks_from(dom, c, m).0 matches Some(n) ==> dom.valid(n) && dom.at(n) >= dom.at(c),
    decreases dom.kids(c.parent as int).len() - c.pos,
{
    dom.lemma_next_advances(c);
    let i = dom.at(c);
    let kind = mark_kind(dom, i);
    if kind != 0 {
        if let Some(n) = dom.next_spec(c) {
            lemma_marks_advance(dom, n, with_note(m, kind, dom.text_of(i)));
        }
    }
}

/// The notes that start at `c`, and the sibling after them.
pub fn parse_marks_forward(dom: &Dom, c: Cursor) -> (r: (Option<Cursor>, Mark))
    requires
        dom.wf(),
        dom.valid(c),
    ensures
        (r.0, r.1@) == marks_from(*dom, c, empty_mark()),
        r.0 matches Some(n) ==> dom.valid(n),
{
    let mut m = Mark::new();
    let mut cur = c;
    loop
        invariant
            dom.wf(),
            dom.valid(cur),
            marks_from(*dom, cur, m@) == marks_from(*dom, c, empty_mark()),
        decreases dom.kids(cur.parent as int).len() - cur.pos,
    {
        let i = dom.node_at(cur);
        assert(cur.parent < dom.kids(cur.parent as int)[cur.pos as int]);
        if dom.has_class(i, "unstable") {
            m.stability = dom.text_contents(i);
        } else if dom.has_class(i, "portability") {
            m.features = dom.text_contents(i);
        } else if dom.has_class(i, "deprecated") {
            m.deprecated = dom.text_contents(i);
        } else {
            return (Some(cur), m);
        }
        match dom.next_sibling(cur) {
            None => {
                return (None, m);
            },
            Some(n) => {
                cur = n;
            },
        }
    }
}

} // verus!
