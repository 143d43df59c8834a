use vstd::prelude::*;
use crate::dom::Dom;
use crate::sections::{Block, BlockModel, SectionBuilder, fold_blocks, sections_of, sections_view};
use crate::styled::{parse_text, style_init, styled_of};
use crate::text::{Paragraph, ParagraphModel, Section, Text, TextComponentModel, texts_view};

verus! {

/// The level of a heading element named `name`, or 0 for any other name.
pub open spec fn heading_level(name: Seq<char>) -> nat {
    if name == "h1"@ {
        1
    } else if name == "h2"@ {
        2
    } else if name == "h3"@ {
        3
    } else if name == "h4"@ {
        4
    } else if name == "h5"@ {
        5
    } else if name == "h6"@ {
        6
    } else {
        0
    }
}

/// The non-empty texts of the first `k` items of list node `l`.
pub open spec fn list_items(dom: Dom, l: int, k: int) -> Seq<Seq<TextComponentModel>>
    decreases k,
{
    if 0 < k <= dom.kids(l).len() {
        let t = styled_of(dom, dom.kids(l)[k - 1] as int, style_init());
        if t.len() > 0 {
            list_items(dom, l, k - 1).push(t)
        } else {
            list_items(dom, l, k - 1)
        }
    } else {
        Seq::empty()
    }
}

/// What child `c` of a description contributes: `None` where its shape is
/// wrong, `Some(None)` where it is skipped, `Some(Some(b))` for a block.
pub open spec fn child_block(dom: Dom, c: int) -> Option<Option<BlockModel>> {
    match dom.element(c) {
        None => Some(None),
        Some(e) => if e.name@ == "p"@ {
            Some(Some(BlockModel::Leaf(ParagraphModel::Text(styled_of(dom, c, style_init())))))
        } else if e.name@ == "ul"@ || e.name@ == "ol"@ {
            Some(Some(BlockModel::Leaf(ParagraphModel::List(list_items(dom, c, dom.kids(c).len() as int)))))
        } else if e.name@ == "pre"@ {
            Some(Some(BlockModel::Leaf(ParagraphModel::Code(dom.text_of(c)))))
        } else if e.name@ == "div"@ {
            if dom.kids(c).len() == 0 {
                None
            } else {
                let f = dom.kids(c)[0] as int;
                if dom.element(f) is None || dom.element(f)->Some_0.class is None {
                    None
                } else if dom.class_has(f, "ignore"@) {
                    Some(Some(BlockModel::Leaf(ParagraphModel::InvalidCode(dom.text_of(f)))))
                } else {
                    Some(Some(BlockModel::Leaf(ParagraphModel::Code(dom.text_of(f)))))
                }
            }
        } else if heading_level(e.name@) > 0 {
            Some(Some(BlockModel::Heading(heading_level(e.name@), styled_of(dom, c, style_init()))))
        } else {
            Some(None)
        },
    }
}

/// The blocks of the first `k` children of description node `i`, or `None`
/// where one of them has the wrong shape.
pub open spec fn blocks_upto(dom: Dom, i: int, k: int) -> Option<Seq<BlockModel>>
    decreases k,
{
    if 0 < k <= dom.kids(i).len() {
        match blocks_upto(dom, i, k - 1) {
            None => None,
            Some(bs) => match child_block(dom, dom.kids(i)[k - 1] as int) {
                None => None,
                Some(None) => Some(bs),
                Some(Some(b)) => Some(bs.push(b)),
            },
        }
    } else {
        Some(Seq::empty())
    }
}

pub open spec fn docblock_blocks(dom: Dom, i: int) -> Option<Seq<BlockModel>> {
    blocks_upto(dom, i, dom.kids(i).len() as int)
}

/// The sections a description node describes, or `None` where its shape is wrong.
pub open spec fn docblock_spec(dom: Dom, i: int) -> Option<Seq<crate::text::SectionModel>> {
    match docblock_blocks(dom, i) {
        None => None,
        Some(bs) => Some(sections_of(bs)),
    }
}

fn heading_level_of(dom: &Dom, c: usize) -> (r: usize)
    requires
        c < dom.len(),
        dom.element(c as int) is Some,
    ensures
        r == heading_level(dom.element(c as int)->Some_0.name@),
{
    if dom.tag_is(c, "h1") {
        1
    } else if dom.tag_is(c, "h2") {
        2
    } else if dom.tag_is(c, "h3") {
        3
    } else if dom.tag_is(c, "h4") {
        4
    } else if dom.tag_is(c, "h5") {
        5
    } else if dom.tag_is(c, "h6") {
        6
    } else {
        0
    }
}

fn parse_list(dom: &Dom, l: usize) -> (r: Vec<Text>)
    requires
        dom.wf(),
        l < dom.len(),
    ensures
        texts_view(r@) == list_items(*dom, l as int, dom.kids(l as int).len() as int),
{
    let n = dom.nodes[l].children.len();
    let mut out: Vec<Text> = Vec::new();
    let mut k: usize = 0;
    while k < n
        invariant
            dom.wf(),
            l < dom.len(),
            n == dom.kids(l as int).len(),
            k <= n,
            texts_view(out@) == list_items(*dom, l as int, k as int),
        decreases n - k,
    {
        let c = dom.nodes[l].children[k];
        assert(l < dom.kids(l as int)[k as int]);
        let t = parse_text(dom, c);
        if t.components.len() > 0 {
            out.push(t);
        }
        k += 1;
        proof {
            assert(texts_view(out@) =~= list_items(*dom, l as int, k as int));
        }
    }
    out
}

/// The block that child `c` contributes, as `child_block` states.
fn parse_child_block(dom: &Dom, c: usize) -> (r: Option<Option<Block>>)
    requires
        dom.wf(),
        c < dom.len(),
    ensures
        child_block(*dom, c as int) is None <==> r is None,
        r == Some(None::<Block>) <==> child_block(*dom, c as int) == Some(None::<BlockModel>),
        r matches Some(Some(b)) ==> child_block(*dom, c as int) == Some(Some(b@)),
        r matches Some(Some(b)) ==> (b is Heading ==> b->Heading_0 <= 6),
{
    let is_elem = match &dom.nodes[c].data {
        crate::dom::NodeData::Element(_) => true,
        _ => false,
    };
    if !is_elem {
        return Some(None);
    }
    if dom.tag_is(c, "p") {
        let t = parse_text(dom, c);
        Some(Some(Block::Leaf(Paragraph::Text(t))))
    } else if dom.tag_is(c, "ul") || dom.tag_is(c, "ol") {
        let items = parse_list(dom, c);
        Some(Some(Block::Leaf(Paragraph::List(items))))
    } else if dom.tag_is(c, "pre") {
        Some(Some(Block::Leaf(Paragraph::Code(dom.text_contents(c)))))
    } else if dom.tag_is(c, "div") {
        let first = match dom.first_child(c) {
            Some(f) => f,
            None => {
                return None;
            },
        };
        let f = dom.node_at(first);
        assert(c < dom.kids(c as int)[0]);
        let has_class = match &dom.nodes[f].data {
            crate::dom::NodeData::Element(e) => e.class.is_some(),
            _ => false,
        };
        if !has_class {
            return None;
        }
        let code = dom.text_contents(f);
        if dom.has_class(f, "ignore") {
            Some(Some(Block::Leaf(Paragraph::InvalidCode(code))))
        } else {
            Some(Some(Block::Leaf(Paragraph::Code(code))))
        }
    } else {
        let level = heading_level_of(dom, c);
        if level > 0 {
            let t = parse_text(dom, c);
            Some(Some(Block::Heading(level, t)))
        } else {
            Some(None)
        }
    }
}

/// Reads the description held by node `i`: paragraphs, lists, code blocks and
/// headings among its children, folded into sections by heading level. `None`
/// where a code block lacks the expected inner element.
pub fn parse_docblock(dom: &Dom, i: usize) -> (r: Option<Vec<Section>>)
    requires
        dom.wf(),
        i < dom.len(),
    ensures
        r is None <==> docblock_spec(*dom, i as int) is None,
        r matches Some(v) ==> Some(sections_view(v@)) == docblock_spec(*dom, i as int),
{
    let n = dom.nodes[i].children.len();
    let mut b = SectionBuilder::new();
    let mut k: usize = 0;
    while k < n
        invariant
            dom.wf(),
            i < dom.len(),
            n == dom.kids(i as int).len(),
            k <= n,
            blocks_upto(*dom, i as int, k as int) is Some,
            b@ == fold_blocks(blocks_upto(*dom, i as int, k as int)->Some_0),
        decreases n - k,
    {
        let c = dom.nodes[i].children[k];
        let ghost bs = blocks_upto(*dom, i as int, k as int)->Some_0;
        assert(i < dom.kids(i as int)[k as int]);
        match parse_child_block(dom, c) {
            None => {
                proof {
                    assert(blocks_upto(*dom, i as int, (k + 1) as int) is None);
                    lemma_blocks_none_sticky(*dom, i as int, (k + 1) as int, n as int);
                }
                return None;
            },
            Some(None) => {},
            Some(Some(block)) => {
                let ghost bv = block@;
                b = b.push_block(block);
                proof {
                    assert(bs.push(bv).drop_last() =~= bs);
                }
            },
        }
        k += 1;
    }
    Some(b.finish())
}

proof fn lemma_blocks_none_sticky(dom: Dom, i: int, k: int, n: int)
    requires
        0 < k <= n,
        n == dom.kids(i).len(),
        blocks_upto(dom, i, k) is None,
    ensures
        blocks_upto(dom, i, n) is None,
    decreases n - k,
{
    if k < n {
        lemma_blocks_none_sticky(dom, i, k + 1, n);
    }
}

} // verus!
