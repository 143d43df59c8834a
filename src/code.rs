use vstd::prelude::*;
use crate::dom::{Dom, NodeData};
use crate::text::Code;
use vstd::string::StringExecFns;

verus! {

/// What an element adds before its children in verbatim code: a newline for a
/// line break and for a span flagged to insert one, nothing otherwise.
pub open spec fn code_break(dom: Dom, i: int) -> Seq<char> {
    if dom.is_tag(i, "br"@) || (dom.is_tag(i, "span"@) && dom.class_has(i, "fmt-newline"@)) {
        seq!['\n']
    } else {
        Seq::empty()
    }
}

/// The verbatim code under node `i`: its text in document order, with line
/// breaks turned into newlines and all other markup ignored.
pub open spec fn code_of(dom: Dom, i: int) -> Seq<char>
    decreases dom.len() - i, 1int, 0int,
{
    if 0 <= i < dom.len() {
        match dom.nodes@[i].data {
            NodeData::Text(s) => s@,
            NodeData::Element(_) => code_break(dom, i) + code_kids(dom, i, dom.kids(i).len() as int),
            NodeData::Other => code_kids(dom, i, dom.kids(i).len() as int),
        }
    } else {
        Seq::empty()
    }
}

pub open spec fn code_kids(dom: Dom, i: int, k: int) -> Seq<char>
    decreases dom.len() - i, 0int, k,
{
    if 0 <= i < dom.len() && 0 < k <= dom.kids(i).len() {
        let c = dom.kids(i)[k - 1] as int;
        if i < c < dom.len() {
            code_kids(dom, i, k - 1) + code_of(dom, c)
        } else {
            code_kids(dom, i, k - 1)
        }
    } else {
        Seq::empty()
    }
}

fn push_code(dom: &Dom, i: usize, out: &mut String)
    requires
        dom.wf(),
        i < dom.len(),
    ensures
        final(out)@ == old(out)@ + code_of(*dom, i as int),
    decreases dom.len() - i,
{
    match &dom.nodes[i].data {
        NodeData::Text(s) => {
            out.append(s.as_str());
        },
        _ => {
            let is_elem = match &dom.nodes[i].data {
                NodeData::Element(_) => true,
                _ => false,
            };
            if is_elem && (dom.tag_is(i, "br") || (dom.tag_is(i, "span") && dom.has_class(
                i,
                "fmt-newline",
            ))) {
                out.append("\n");
                proof {
                    reveal_strlit("\n");
                }
            }
            let ghost start = out@;
            assert(start == old(out)@ + (if is_elem { code_break(*dom, i as int) } else { Seq::empty() }))
                by {
                if !is_elem || !(dom.is_tag(i as int, "br"@) || (dom.is_tag(i as int, "span"@)
                    && dom.class_has(i as int, "fmt-newline"@))) {
                    assert(start =~= old(out)@ + Seq::<char>::empty());
                }
            }
            let n = dom.nodes[i].children.len();
            let mut k: usize = 0;
            while k < n
                invariant
                    dom.wf(),
                    i < dom.len(),
                    n == dom.kids(i as int).len(),
                    k <= n,
                    out@ == start + code_kids(*dom, i as int, k as int),
                decreases n - k,
            {
                let c = dom.nodes[i].children[k];
                assert(i < dom.kids(i as int)[k as int]);
                push_code(dom, c, out);
                k += 1;
                proof {
                    assert(out@ =~= start + code_kids(*dom, i as int, k as int));
                }
            }
            proof {
                assert(out@ =~= old(out)@ + code_of(*dom, i as int));
            }
        },
    }
}

/// The verbatim code under node `i`.
pub fn parse_generic_code(dom: &Dom, i: usize) -> (r: Code)
    requires
        dom.wf(),
        i < dom.len(),
    ensures
        r@ == code_of(*dom, i as int),
{
    let mut out = String::new();
    push_code(dom, i, &mut out);
    proof {
        assert(out@ =~= code_of(*dom, i as int));
    }
    out
}

} // verus!
