use vstd::prelude::*;
use crate::code::{code_of, parse_generic_code};
use crate::docblock::{docblock_spec, parse_docblock};
use crate::dom::{Cursor, Dom};
use crate::mark::{Mark, MarkModel, empty_mark, lemma_marks_advance, marks_from, parse_marks_forward};
use crate::sections::sections_view;
use crate::text::{Code, Section, SectionModel};

verus! {

/// One declared field, variant, method or associated type, with its notes and
/// its description.
pub struct SimpleItem {
    pub declaration: Code,
    pub mark: Mark,
    pub description: Vec<Section>,
}

pub struct SimpleItemModel {
    pub declaration: Seq<char>,
    pub mark: MarkModel,
    pub description: Seq<SectionModel>,
}

impl View for SimpleItem {
    type V = SimpleItemModel;

    open spec fn view(&self) -> SimpleItemModel {
        SimpleItemModel {
            declaration: self.declaration@,
            mark: self.mark@,
            description: sections_view(self.description@),
        }
    }
}

/// Node `i` holds a description.
pub open spec fn is_docblock(dom: Dom, i: int) -> bool {
    dom.class_has(i, "docblock"@)
}

/// A collapsible wrapper stands for its first child.
pub open spec fn unwrap_spec(dom: Dom, c: Cursor) -> Option<Cursor> {
    if dom.class_has(dom.at(c), "toggle-wrapper"@) {
        dom.first_child_spec(dom.at(c))
    } else {
        Some(c)
    }
}

pub open spec fn unwrap_opt(dom: Dom, c: Option<Cursor>) -> Option<Cursor> {
    match c {
        Some(c) => unwrap_spec(dom, c),
        None => None,
    }
}

/// Where `c` is a collapsible wrapper, its first child (`None` if it has none);
/// otherwise `c` itself.
pub fn skip_toggle_wrapper(dom: &Dom, c: Cursor) -> (r: Option<Cursor>)
    requires
        dom.wf(),
        dom.valid(c),
    ensures
        r == unwrap_spec(*dom, c),
        r matches Some(n) ==> dom.valid(n),
{
    let i = dom.node_at(c);
    assert(c.parent < dom.kids(c.parent as int)[c.pos as int]);
    if dom.has_class(i, "toggle-wrapper") {
        dom.first_child(i)
    } else {
        Some(c)
    }
}

/// The first sibling from `c` on that is not a collapsible decoration.
pub open spec fn skip_spec(dom: Dom, c: Cursor) -> Option<Cursor>
    decreases dom.kids(c.parent as int).len() - c.pos,
{
    if !dom.valid(c) {
        None
    } else if !dom.class_has(dom.at(c), "collapse-toggle"@) {
        Some(c)
    } else {
        match dom.next_spec(c) {
            None => None,
            Some(n) => skip_spec(dom, n),
        }
    }
}

pub open spec fn skip_opt(dom: Dom, c: Option<Cursor>) -> Option<Cursor> {
    match c {
        Some(c) => skip_spec(dom, c),
        None => None,
    }
}

/// Skips collapsible decorations: the first sibling from `c` on (inclusive) that
/// is not one, or `None` if all are.
pub fn skip_uninformative(dom: &Dom, c: Cursor) -> (r: Option<Cursor>)
    requires
        dom.wf(),
        dom.valid(c),
    ensures
        r == skip_spec(*dom, c),
        r matches Some(n) ==> dom.valid(n),
{
    let mut cur = c;
    loop
        invariant
            dom.wf(),
            dom.valid(cur),
            skip_spec(*dom, cur) == skip_spec(*dom, c),
        decreases dom.kids(cur.parent as int).len() - cur.pos,
    {
        let i = dom.node_at(cur);
        assert(cur.parent < dom.kids(cur.parent as int)[cur.pos as int]);
        if !dom.has_class(i, "collapse-toggle") {
            return Some(cur);
        }
        match dom.next_sibling(cur) {
            None => {
                return None;
            },
            Some(n) => {
                cur = n;
            },
        }
    }
}

/// An item whose declaration stands at `head`: the declaration, then (past a
/// possible wrapper) its notes, then its description if one follows. Gives the
/// sibling after what was read, or `None` where the description has the wrong
/// shape.
pub open spec fn simple_item_spec(dom: Dom, head: Cursor) -> Option<(Option<Cursor>, SimpleItemModel)> {
    let decl = code_of(dom, dom.at(head));
    let h = unwrap_opt(dom, dom.next_spec(head));
    let (h2, mark) = match h {
        Some(h) => marks_from(dom, h, empty_mark()),
        None => (None, empty_mark()),
    };
    match unwrap_opt(dom, h2) {
        None => Some((None, SimpleItemModel { declaration: decl, mark, description: Seq::empty() })),
        Some(d) => if !is_docblock(dom, dom.at(d)) {
            Some((Some(d), SimpleItemModel { declaration: decl, mark, description: Seq::empty() }))
        } else {
            match docblock_spec(dom, dom.at(d)) {
                None => None,
                Some(desc) => Some(
                    (dom.next_spec(d), SimpleItemModel { declaration: decl, mark, description: desc }),
                ),
            }
        },
    }
}

pub proof fn lemma_unwrap_advances(dom: Dom, c: Cursor)
    requires
        dom.wf(),
        dom.valid(c),
    ensures
        unwrap_spec(dom, c) matches Some(n) ==> dom.valid(n) && dom.at(n) >= dom.at(c),
{
    dom.lemma_next_advances(c);
    dom.lemma_first_child(dom.at(c));
}

pub proof fn lemma_skip_advances(dom: Dom, c: Cursor)
    requires
        dom.wf(),
        dom.valid(c),
    ensures
        skip_spec(dom, c) matches Some(n) ==> dom.valid(n) && dom.at(n) >= dom.at(c),
    decreases dom.kids(c.parent as int).len() - c.pos,
{
    dom.lemma_next_advances(c);
    if dom.class_has(dom.at(c), "collapse-toggle"@) {
        if let Some(n) = dom.next_spec(c) {
            lemma_skip_advances(dom, n);
        }
    }
}

/// Reading an item moves strictly forwards.
pub proof fn lemma_item_advances(dom: Dom, head: Cursor)
    requires
        dom.wf(),
        dom.valid(head),
    ensures
        simple_item_spec(dom, head) matches Some((Some(n), _)) ==> dom.valid(n) && dom.at(n) > dom.at(
            head,
        ),
{
    dom.lemma_next_advances(head);
    let h = unwrap_opt(dom, dom.next_spec(head));
    if let Some(n) = dom.next_spec(head) {
        lemma_unwrap_advances(dom, n);
    }
    let (h2, mark) = match h {
        Some(h) => marks_from(dom, h, empty_mark()),
        None => (None, empty_mark()),
    };
    if let Some(x) = h {
        lemma_marks_advance(dom, x, empty_mark());
    }
    if let Some(x) = h2 {
        lemma_unwrap_advances(dom, x);
        if let Some(d) = unwrap_spec(dom, x) {
            dom.lemma_next_advances(d);
        }
    }
}

pub fn parse_simple_item_forward(dom: &Dom, head: Cursor) -> (r: Option<(Option<Cursor>, SimpleItem)>)
    requires
        dom.wf(),
        dom.valid(head),
    ensures
        r is None <==> simple_item_spec(*dom, head) is None,
        r matches Some((n, item)) ==> simple_item_spec(*dom, head) == Some((n, item@)),
        r matches Some((Some(n), _)) ==> dom.valid(n),
{
    let hi = dom.node_at(head);
    assert(head.parent < dom.kids(head.parent as int)[head.pos as int]);
    let declaration = parse_generic_code(dom, hi);
    let h = match dom.next_sibling(head) {
        Some(n) => skip_toggle_wrapper(dom, n),
        None => None,
    };
    let (h2, mark) = match h {
        Some(h) => parse_marks_forward(dom, h),
        None => (None, Mark::new()),
    };
    let h3 = match h2 {
        Some(h) => skip_toggle_wrapper(dom, h),
        None => None,
    };
    match h3 {
        None => {
            let description: Vec<Section> = Vec::new();
            let item = SimpleItem { declaration, mark, description };
            proof {
                assert(sections_view(item.description@) =~= Seq::empty());
            }
            Some((None, item))
        },
        Some(d) => {
            let di = dom.node_at(d);
            assert(d.parent < dom.kids(d.parent as int)[d.pos as int]);
            if !dom.has_class(di, "docblock") {
                let description: Vec<Section> = Vec::new();
                let item = SimpleItem { declaration, mark, description };
                proof {
                    assert(sections_view(item.description@) =~= Seq::empty());
                }
                return Some((Some(d), item));
            }
            match parse_docblock(dom, di) {
                None => None,
                Some(description) => Some((dom.next_sibling(d), SimpleItem { declaration, mark, description })),
            }
        },
    }
}

} // verus!
