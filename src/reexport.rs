use vstd::prelude::*;
use crate::dom::{Cursor, Dom};
use crate::text::Code;

verus! {

/// One re-exported declaration, as written.
pub struct ExportItem(pub Code);

pub open spec fn exports_view(v: Seq<ExportItem>) -> Seq<Seq<char>> {
    v.map_values(|e: ExportItem| e.0@)
}

/// The code of the `code` children of the first `m` children of cell `td`.
pub open spec fn cell_codes(dom: Dom, td: int, m: int) -> Seq<Seq<char>>
    decreases m,
{
    if 0 < m <= dom.kids(td).len() {
        let c = dom.kids(td)[m - 1] as int;
        if dom.is_tag(c, "code"@) {
            cell_codes(dom, td, m - 1).push(dom.text_of(c))
        } else {
            cell_codes(dom, td, m - 1)
        }
    } else {
        Seq::empty()
    }
}

/// The declarations in the cells among the first `k` children of row `tr`.
pub open spec fn row_codes(dom: Dom, tr: int, k: int) -> Seq<Seq<char>>
    decreases k,
{
    if 0 < k <= dom.kids(tr).len() {
        let td = dom.kids(tr)[k - 1] as int;
        if dom.is_tag(td, "td"@) {
            row_codes(dom, tr, k - 1) + cell_codes(dom, td, dom.kids(td).len() as int)
        } else {
            row_codes(dom, tr, k - 1)
        }
    } else {
        Seq::empty()
    }
}

/// The declarations of the first `k` rows.
pub open spec fn rows_codes(dom: Dom, rows: Seq<usize>, k: int) -> Seq<Seq<char>>
    decreases k,
{
    if 0 < k <= rows.len() {
        let tr = rows[k - 1] as int;
        rows_codes(dom, rows, k - 1) + row_codes(dom, tr, dom.kids(tr).len() as int)
    } else {
        Seq::empty()
    }
}

/// The re-export table is the sibling after its header; its declarations are the
/// `code` elements of its cells, row by row. Gives the sibling after the table.
pub open spec fn exports_spec(dom: Dom, header: Cursor) -> Option<(Option<Cursor>, Seq<Seq<char>>)> {
    match dom.next_spec(header) {
        None => None,
        Some(t) => {
            let rows = dom.rows_of(dom.at(t));
            Some((dom.next_spec(t), rows_codes(dom, rows, rows.len() as int)))
        },
    }
}

fn push_row_codes(dom: &Dom, tr: usize, out: &mut Vec<ExportItem>)
    requires
        dom.wf(),
        tr < dom.len(),
    ensures
        exports_view(final(out)@) == exports_view(old(out)@) + row_codes(*dom, tr as int, dom.kids(tr as int).len() as int),
{
    let n = dom.nodes[tr].children.len();
    let mut k: usize = 0;
    while k < n
        invariant
            dom.wf(),
            tr < dom.len(),
            n == dom.kids(tr as int).len(),
            k <= n,
            exports_view(out@) == exports_view(old(out)@) + row_codes(*dom, tr as int, k as int),
        decreases n - k,
    {
        let td = dom.nodes[tr].children[k];
        assert(tr < dom.kids(tr as int)[k as int]);
        let ghost before = exports_view(out@);
        if dom.tag_is(td, "td") {
            let m = dom.nodes[td].children.len();
            let mut j: usize = 0;
            while j < m
                invariant
                    dom.wf(),
                    td < dom.len(),
                    m == dom.kids(td as int).len(),
                    j <= m,
                    exports_view(out@) == before + cell_codes(*dom, td as int, j as int),
                decreases m - j,
            {
                let c = dom.nodes[td].children[j];
                assert(td < dom.kids(td as int)[j as int]);
                if dom.tag_is(c, "code") {
                    let ghost b2 = exports_view(out@);
                    out.push(ExportItem(dom.text_contents(c)));
                    proof {
                        assert(exports_view(out@) =~= b2.push(dom.text_of(c as int)));
                    }
                }
                j += 1;
                proof {
                    assert(exports_view(out@) =~= before + cell_codes(*dom, td as int, j as int));
                }
            }
        }
        k += 1;
        proof {
            assert(exports_view(out@) =~= exports_view(old(out)@) + row_codes(*dom, tr as int, k as int));
        }
    }
}

/// Reads the re-export table that follows the header at `header`.
pub fn parse_exports_forward(dom: &Dom, header: Cursor) -> (r: Option<(Option<Cursor>, Vec<ExportItem>)>)
    requires
        dom.wf(),
        dom.valid(header),
    ensures
        r is None <==> exports_spec(*dom, header) is None,
        r matches Some((n, v)) ==> exports_spec(*dom, header) == Some((n, exports_view(v@))),
        r matches Some((Some(n), _)) ==> dom.valid(n) && dom.at(n) > dom.at(header),
{
    let t = match dom.next_sibling(header) {
        None => {
            return None;
        },
        Some(t) => t,
    };
    proof {
        dom.lemma_next_advances(header);
        dom.lemma_next_advances(t);
    }
    let ti = dom.node_at(t);
    let rows = dom.rows(ti);
    let mut out: Vec<ExportItem> = Vec::new();
    let mut k: usize = 0;
    while k < rows.len()
        invariant
            dom.wf(),
            rows@ == dom.rows_of(ti as int),
            forall|j: int| 0 <= j < rows@.len() ==> #[trigger] rows@[j] < dom.len(),
            k <= rows.len(),
            exports_view(out@) == rows_codes(*dom, rows@, k as int),
        decreases rows.len() - k,
    {
        push_row_codes(dom, rows[k], &mut out);
        k += 1;
    }
    Some((dom.next_sibling(t), out))
}

} // verus!
