use vstd::prelude::*;
use crate::dom::{Cursor, Dom, NodeData};
use crate::mark::{Mark, MarkModel, empty_mark, marks_from, parse_marks_forward};
use crate::strs::str_eq;
use crate::styled::{parse_text, style_init, styled_of};
use crate::text::{Text, TextComponentModel};

verus! {

/// The one-line summary of a child item.
pub struct ItemSummary {
    pub name: String,
    pub attribute: Mark,
    pub summary: Text,
}

/// The kind of the child items that a summary section lists.
#[derive(PartialEq, Eq, Structural, Clone, Copy, Debug)]
pub enum ItemKind {
    Module,
    Struct,
    Enum,
    Constant,
    Function,
    Trait,
    Macro,
    Attribute,
    Type,
    Primitive,
    Keyword,
}

/// The child items of one kind, in the order the page lists them.
pub struct SummarySection {
    pub item_type: ItemKind,
    pub content: Vec<ItemSummary>,
}

pub struct ItemSummaryModel {
    pub name: Seq<char>,
    pub attribute: MarkModel,
    pub summary: Seq<TextComponentModel>,
}

impl View for ItemSummary {
    type V = ItemSummaryModel;

    open spec fn view(&self) -> ItemSummaryModel {
        ItemSummaryModel { name: self.name@, attribute: self.attribute@, summary: self.summary@ }
    }
}

pub struct SummarySectionModel {
    pub item_type: ItemKind,
    pub content: Seq<ItemSummaryModel>,
}

pub open spec fn summaries_view(v: Seq<ItemSummary>) -> Seq<ItemSummaryModel> {
    v.map_values(|x: ItemSummary| x@)
}

impl View for SummarySection {
    type V = SummarySectionModel;

    open spec fn view(&self) -> SummarySectionModel {
        SummarySectionModel { item_type: self.item_type, content: summaries_view(self.content@) }
    }
}

impl ItemSummary {
    pub fn name(&self) -> (r: &str)
        ensures
            r@ == self.name@,
    {
        self.name.as_str()
    }

    pub fn attribute(&self) -> (r: &Mark)
        ensures
            r == &self.attribute,
    {
        &self.attribute
    }

    pub fn summary(&self) -> (r: &Text)
        ensures
            r == &self.summary,
    {
        &self.summary
    }
}

impl SummarySection {
    pub fn item_type(&self) -> (r: ItemKind)
        ensures
            r == self.item_type,
    {
        self.item_type
    }

    pub fn content(&self) -> (r: &[ItemSummary])
        ensures
            r@ == self.content@,
    {
        self.content.as_slice()
    }
}

/// The kind that a section header's identifier names, if it names one.
pub open spec fn kind_of_id(id: Seq<char>) -> Option<ItemKind> {
    if id == "modules"@ {
        Some(ItemKind::Module)
    } else if id == "structs"@ {
        Some(ItemKind::Struct)
    } else if id == "enums"@ {
        Some(ItemKind::Enum)
    } else if id == "constants"@ {
        Some(ItemKind::Constant)
    } else if id == "traits"@ {
        Some(ItemKind::Trait)
    } else if id == "functions"@ {
        Some(ItemKind::Function)
    } else if id == "macros"@ {
        Some(ItemKind::Macro)
    } else if id == "attributes"@ {
        Some(ItemKind::Attribute)
    } else if id == "primitives"@ {
        Some(ItemKind::Primitive)
    } else if id == "keywords"@ {
        Some(ItemKind::Keyword)
    } else if id == "types"@ {
        Some(ItemKind::Type)
    } else {
        None
    }
}

/// The kind that the identifier of element `i` names, if it has one that does.
pub open spec fn header_kind(dom: Dom, i: int) -> Option<ItemKind> {
    match dom.element(i) {
        Some(e) => match e.id {
            Some(id) => kind_of_id(id@),
            None => None,
        },
        None => None,
    }
}

pub fn item_kind_of(dom: &Dom, i: usize) -> (r: Option<ItemKind>)
    requires
        i < dom.len(),
    ensures
        r == header_kind(*dom, i as int),
{
    let id = match &dom.nodes[i].data {
        NodeData::Element(e) => match &e.id {
            Some(id) => id.as_str(),
            None => {
                return None;
            },
        },
        _ => {
            return None;
        },
    };
    if str_eq(id, "modules") {
        Some(ItemKind::Module)
    } else if str_eq(id, "structs") {
        Some(ItemKind::Struct)
    } else if str_eq(id, "enums") {
        Some(ItemKind::Enum)
    } else if str_eq(id, "constants") {
        Some(ItemKind::Constant)
    } else if str_eq(id, "traits") {
        Some(ItemKind::Trait)
    } else if str_eq(id, "functions") {
        Some(ItemKind::Function)
    } else if str_eq(id, "macros") {
        Some(ItemKind::Macro)
    } else if str_eq(id, "attributes") {
        Some(ItemKind::Attribute)
    } else if str_eq(id, "primitives") {
        Some(ItemKind::Primitive)
    } else if str_eq(id, "keywords") {
        Some(ItemKind::Keyword)
    } else if str_eq(id, "types") {
        Some(ItemKind::Type)
    } else {
        None
    }
}

/// The first sibling after `c` that is a table.
pub open spec fn table_after(dom: Dom, c: Cursor) -> Option<Cursor>
    decreases dom.kids(c.parent as int).len() - c.pos,
{
    match dom.next_spec(c) {
        None => None,
        Some(n) => if dom.is_tag(dom.at(n), "table"@) {
            Some(n)
        } else {
            table_after(dom, n)
        },
    }
}

fn find_table(dom: &Dom, c: Cursor) -> (r: Option<Cursor>)
    requires
        dom.wf(),
        dom.valid(c),
    ensures
        r == table_after(*dom, c),
        r matches Some(t) ==> dom.valid(t) && dom.at(t) > dom.at(c),
{
    let mut cur = c;
    loop
        invariant
            dom.wf(),
            dom.valid(cur),
            dom.at(cur) >= dom.at(c),
            table_after(*dom, cur) == table_after(*dom, c),
        decreases dom.kids(cur.parent as int).len() - cur.pos,
    {
        match dom.next_sibling(cur) {
            None => {
                return None;
            },
            Some(n) => {
                proof {
                    dom.lemma_next_advances(cur);
                }
                if dom.tag_is(dom.node_at(n), "table") {
                    return Some(n);
                }
                cur = n;
            },
        }
    }
}

/// The summary of row `tr`: the name from its first cell; notes from its last
/// cell on, and the text of what follows them. `None` where the row lacks one.
pub open spec fn row_summary(dom: Dom, tr: int) -> Option<ItemSummaryModel> {
    match dom.first_child_spec(tr) {
        None => None,
        Some(f) => match dom.last_child_spec(tr) {
            None => None,
            Some(l) => {
                let (next, mark) = marks_from(dom, l, empty_mark());
                match next {
                    None => None,
                    Some(p) => Some(
                        ItemSummaryModel {
                            name: dom.text_of(dom.at(f)),
                            attribute: mark,
                            summary: styled_of(dom, dom.at(p), style_init()),
                        },
                    ),
                }
            },
        },
    }
}

/// The summaries of the first `k` rows, leaving out each row that lacks one.
pub open spec fn row_summaries(dom: Dom, rows: Seq<usize>, k: int) -> Seq<ItemSummaryModel>
    decreases k,
{
    if 0 < k <= rows.len() {
        match row_summary(dom, rows[k - 1] as int) {
            Some(s) => row_summaries(dom, rows, k - 1).push(s),
            None => row_summaries(dom, rows, k - 1),
        }
    } else {
        Seq::empty()
    }
}

/// A summary section whose header stands at `header`: its kind from the header's
/// identifier, its rows from the first table after the header. Gives the
/// sibling after the table.
pub open spec fn summary_spec(dom: Dom, header: Cursor) -> Option<(Option<Cursor>, SummarySectionModel)> {
    match header_kind(dom, dom.at(header)) {
        None => None,
        Some(kind) => match table_after(dom, header) {
            None => None,
            Some(t) => {
                let rows = dom.rows_of(dom.at(t));
                Some(
                    (
                        dom.next_spec(t),
                        SummarySectionModel { item_type: kind, content: row_summaries(dom, rows, rows.len() as int) },
                    ),
                )
            },
        },
    }
}

fn parse_row(dom: &Dom, tr: usize) -> (r: Option<ItemSummary>)
    requires
        dom.wf(),
        tr < dom.len(),
    ensures
        r is None <==> row_summary(*dom, tr as int) is None,
        r matches Some(s) ==> row_summary(*dom, tr as int) == Some(s@),
{
    proof {
        dom.lemma_first_child(tr as int);
    }
    let f = match dom.first_child(tr) {
        None => {
            return None;
        },
        Some(f) => f,
    };
    let l = match dom.last_child(tr) {
        None => {
            return None;
        },
        Some(l) => l,
    };
    let name = dom.text_contents(dom.node_at(f));
    let (next, attribute) = parse_marks_forward(dom, l);
    match next {
        None => None,
        Some(p) => {
            proof {
                dom.lemma_next_advances(p);
            }
            let summary = parse_text(dom, dom.node_at(p));
            Some(ItemSummary { name, attribute, summary })
        },
    }
}

/// Reads the summary section whose header stands at `header`; a row without a
/// summary is left out.
pub fn parse_summary_forward(dom: &Dom, header: Cursor) -> (r: Option<(Option<Cursor>, SummarySection)>)
    requires
        dom.wf(),
        dom.valid(header),
    ensures
        r is None <==> summary_spec(*dom, header) is None,
        r matches Some((n, s)) ==> summary_spec(*dom, header) == Some((n, s@)),
        r matches Some((Some(n), _)) ==> dom.valid(n) && dom.at(n) > dom.at(header),
{
    proof {
        dom.lemma_next_advances(header);
    }
    let item_type = match item_kind_of(dom, dom.node_at(header)) {
        None => {
            return None;
        },
        Some(k) => k,
    };
    let t = match find_table(dom, header) {
        None => {
            return None;
        },
        Some(t) => t,
    };
    proof {
        dom.lemma_next_advances(t);
    }
    let rows = dom.rows(dom.node_at(t));
    let mut content: Vec<ItemSummary> = Vec::new();
    let mut k: usize = 0;
    while k < rows.len()
        invariant
            dom.wf(),
            forall|j: int| 0 <= j < rows@.len() ==> #[trigger] rows@[j] < dom.len(),
            k <= rows.len(),
            summaries_view(content@) == row_summaries(*dom, rows@, k as int),
        decreases rows.len() - k,
    {
        match parse_row(dom, rows[k]) {
            Some(s) => {
                let ghost before = summaries_view(content@);
                let ghost sv = s@;
                content.push(s);
                proof {
                    assert(summaries_view(content@) =~= before.push(sv));
                }
            },
            None => {},
        }
        k += 1;
    }
    Some((dom.next_sibling(t), SummarySection { item_type, content }))
}

} // verus!
