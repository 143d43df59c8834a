use vstd::prelude::*;
use crate::dom::{Dom, Element, NodeData};
use crate::text::{Text, TextComponent, TextComponentModel, components_view, opt_str_view};

verus! {

/// The styling in force at a point of the traversal: how many code, bold and
/// italic elements are open, and the targets of the open links, innermost last.
pub struct StyleModel {
    pub code: nat,
    pub bold: nat,
    pub italic: nat,
    pub links: Seq<Option<Seq<char>>>,
}

pub open spec fn style_init() -> StyleModel {
    StyleModel { code: 0, bold: 0, italic: 0, links: Seq::empty() }
}

/// The styling inside element `e`, given the styling around it.
pub open spec fn enter(st: StyleModel, e: Element) -> StyleModel {
    if e.name@ == "code"@ {
        StyleModel { code: st.code + 1, ..st }
    } else if e.name@ == "strong"@ {
        StyleModel { bold: st.bold + 1, ..st }
    } else if e.name@ == "em"@ {
        StyleModel { italic: st.italic + 1, ..st }
    } else if e.name@ == "a"@ {
        StyleModel { links: st.links.push(opt_str_view(e.href)), ..st }
    } else {
        st
    }
}

/// The link of the innermost open link element, if any.
pub open spec fn top_link(links: Seq<Option<Seq<char>>>) -> Option<Seq<char>> {
    if links.len() == 0 {
        None
    } else {
        links.last()
    }
}

pub open spec fn component_at(s: Seq<char>, st: StyleModel) -> TextComponentModel {
    TextComponentModel {
        text: s,
        code: st.code > 0,
        italic: st.italic > 0,
        bold: st.bold > 0,
        link: top_link(st.links),
    }
}

/// The styled runs of node `i` when the styling around it is `st`: one run for
/// each text node, in document order.
pub open spec fn styled_of(dom: Dom, i: int, st: StyleModel) -> Seq<TextComponentModel>
    decreases dom.len() - i, 1int, 0int,
{
    if 0 <= i < dom.len() {
        match dom.nodes@[i].data {
            NodeData::Text(s) => seq![component_at(s@, st)],
            NodeData::Element(e) => styled_kids(dom, i, dom.kids(i).len() as int, enter(st, e)),
            NodeData::Other => styled_kids(dom, i, dom.kids(i).len() as int, st),
        }
    } else {
        Seq::empty()
    }
}

/// The styled runs of the first `k` children of node `i`, under styling `st`.
pub open spec fn styled_kids(dom: Dom, i: int, k: int, st: StyleModel) -> Seq<TextComponentModel>
    decreases dom.len() - i, 0int, k,
{
    if 0 <= i < dom.len() && 0 < k <= dom.kids(i).len() {
        let c = dom.kids(i)[k - 1] as int;
        if i < c < dom.len() {
            styled_kids(dom, i, k - 1, st) + styled_of(dom, c, st)
        } else {
            styled_kids(dom, i, k - 1, st)
        }
    } else {
        Seq::empty()
    }
}

/// The text of the runs, one after the other.
pub open spec fn plain(cs: Seq<TextComponentModel>) -> Seq<char>
    decreases cs.len(),
{
    if cs.len() == 0 {
        Seq::empty()
    } else {
        plain(cs.drop_last()) + cs.last().text
    }
}

proof fn lemma_plain_concat(a: Seq<TextComponentModel>, b: Seq<TextComponentModel>)
    ensures
        plain(a + b) == plain(a) + plain(b),
    decreases b.len(),
{
    if b.len() == 0 {
        assert(a + b =~= a);
        assert(plain(b) =~= Seq::<char>::empty());
        assert(plain(a) + plain(b) =~= plain(a));
    } else {
        lemma_plain_concat(a, b.drop_last());
        assert((a + b).drop_last() =~= a + b.drop_last());
        assert(plain(a) + plain(b) =~= plain(a) + plain(b.drop_last()) + b.last().text);
    }
}

/// Text-content round trip: the runs of a node, read one after the other, give
/// back all the text under it with the markup left out, whatever the styling
/// around it.
pub proof fn lemma_text_round_trip(dom: Dom, i: int, st: StyleModel)
    requires
        dom.wf(),
        0 <= i < dom.len(),
    ensures
        plain(styled_of(dom, i, st)) == dom.text_of(i),
    decreases dom.len() - i, 1int, 0int,
{
    match dom.nodes@[i].data {
        NodeData::Text(s) => {
            let cs = seq![component_at(s@, st)];
            assert(cs.drop_last() =~= Seq::<TextComponentModel>::empty());
            assert(plain(cs.drop_last()) =~= Seq::<char>::empty());
            assert(plain(cs) == plain(cs.drop_last()) + cs.last().text);
            assert(plain(cs) =~= s@);
        },
        NodeData::Element(e) => {
            lemma_kids_round_trip(dom, i, dom.kids(i).len() as int, enter(st, e));
        },
        NodeData::Other => {
            lemma_kids_round_trip(dom, i, dom.kids(i).len() as int, st);
        },
    }
}

/// The round trip over the first `k` children of node `i`.
pub proof fn lemma_kids_round_trip(dom: Dom, i: int, k: int, st: StyleModel)
    requires
        dom.wf(),
        0 <= i < dom.len(),
        0 <= k <= dom.kids(i).len(),
    ensures
        plain(styled_kids(dom, i, k, st)) == dom.kids_text(i, k),
    decreases dom.len() - i, 0int, k,
{
    if k == 0 {
        assert(plain(Seq::<TextComponentModel>::empty()) =~= Seq::<char>::empty());
    } else {
        let c = dom.kids(i)[k - 1] as int;
        assert(i < c < dom.len());
        lemma_kids_round_trip(dom, i, k - 1, st);
        lemma_text_round_trip(dom, c, st);
        lemma_plain_concat(styled_kids(dom, i, k - 1, st), styled_of(dom, c, st));
    }
}

/// Styles nest by counting: every run under a node keeps each style that was
/// open around the node, so a run inside both a bold and an italic element is
/// bold and italic, and a run inside a code element stays code however many
/// inner code elements have closed before it.
pub proof fn lemma_styles_persist(dom: Dom, i: int, st: StyleModel)
    requires
        dom.wf(),
        0 <= i < dom.len(),
    ensures
        forall|j: int|
            0 <= j < styled_of(dom, i, st).len() ==> {
                &&& st.code > 0 ==> (#[trigger] styled_of(dom, i, st)[j]).code
                &&& st.bold > 0 ==> styled_of(dom, i, st)[j].bold
                &&& st.italic > 0 ==> styled_of(dom, i, st)[j].italic
            },
    decreases dom.len() - i, 1int, 0int,
{
    match dom.nodes@[i].data {
        NodeData::Text(s) => {},
        NodeData::Element(e) => {
            lemma_kids_styles_persist(dom, i, dom.kids(i).len() as int, enter(st, e));
        },
        NodeData::Other => {
            lemma_kids_styles_persist(dom, i, dom.kids(i).len() as int, st);
        },
    }
}

/// The same over the first `k` children of node `i`.
pub proof fn lemma_kids_styles_persist(dom: Dom, i: int, k: int, st: StyleModel)
    requires
        dom.wf(),
        0 <= i < dom.len(),
        0 <= k <= dom.kids(i).len(),
    ensures
        forall|j: int|
            0 <= j < styled_kids(dom, i, k, st).len() ==> {
                &&& st.code > 0 ==> (#[trigger] styled_kids(dom, i, k, st)[j]).code
                &&& st.bold > 0 ==> styled_kids(dom, i, k, st)[j].bold
                &&& st.italic > 0 ==> styled_kids(dom, i, k, st)[j].italic
            },
    decreases dom.len() - i, 0int, k,
{
    if k > 0 {
        let c = dom.kids(i)[k - 1] as int;
        assert(i < c < dom.len());
        lemma_kids_styles_persist(dom, i, k - 1, st);
        lemma_styles_persist(dom, c, st);
        let a = styled_kids(dom, i, k - 1, st);
        let b = styled_of(dom, c, st);
        assert(styled_kids(dom, i, k, st) == a + b);
        assert forall|j: int| 0 <= j < (a + b).len() implies {
            &&& st.code > 0 ==> (#[trigger] (a + b)[j]).code
            &&& st.bold > 0 ==> (a + b)[j].bold
            &&& st.italic > 0 ==> (a + b)[j].italic
        } by {
            if j < a.len() {
                assert((a + b)[j] == a[j]);
            } else {
                assert((a + b)[j] == b[j - a.len()]);
            }
        }
    }
}

pub struct Style {
    pub code: usize,
    pub bold: usize,
    pub italic: usize,
    pub links: Vec<Option<String>>,
}

impl View for Style {
    type V = StyleModel;

    open spec fn view(&self) -> StyleModel {
        StyleModel {
            code: self.code as nat,
            bold: self.bold as nat,
            italic: self.italic as nat,
            links: self.links@.map_values(|o: Option<String>| opt_str_view(o)),
        }
    }
}

fn clone_opt(o: &Option<String>) -> (r: Option<String>)
    ensures
        opt_str_view(r) == opt_str_view(*o),
{
    match o {
        Some(s) => Some(s.clone()),
        None => None,
    }
}

fn push_styled(dom: &Dom, i: usize, st: &mut Style, out: &mut Vec<TextComponent>)
    requires
        dom.wf(),
        i < dom.len(),
        old(st).code <= i,
        old(st).bold <= i,
        old(st).italic <= i,
    ensures
        components_view(final(out)@) == components_view(old(out)@) + styled_of(*dom, i as int, old(st)@),
        final(st)@ == old(st)@,
        final(st).code == old(st).code,
        final(st).bold == old(st).bold,
        final(st).italic == old(st).italic,
        final(st).links@ == old(st).links@,
    decreases dom.len() - i,
{
    let ghost st0 = st@;
    let ghost links0 = st.links@;
    let node_count = dom.nodes.len();
    assert(i < node_count);
    match &dom.nodes[i].data {
        NodeData::Text(s) => {
            let n = st.links.len();
            let link = if n > 0 {
                clone_opt(&st.links[n - 1])
            } else {
                None
            };
            let comp = TextComponent {
                text: s.clone(),
                code: st.code > 0,
                italic: st.italic > 0,
                bold: st.bold > 0,
                link,
            };
            assert(comp@ == component_at(s@, st0));
            out.push(comp);
            proof {
                assert(components_view(out@) =~= components_view(old(out)@) + seq![comp@]);
            }
        },
        NodeData::Element(e) => {
            let is_code = dom.tag_is(i, "code");
            let is_strong = dom.tag_is(i, "strong");
            let is_em = dom.tag_is(i, "em");
            let is_a = dom.tag_is(i, "a");
            if is_code {
                st.code = st.code + 1;
            } else if is_strong {
                st.bold = st.bold + 1;
            } else if is_em {
                st.italic = st.italic + 1;
            } else if is_a {
                st.links.push(clone_opt(&e.href));
            }
            proof {
                if is_a && !is_code && !is_strong && !is_em {
                    assert(st@.links =~= st0.links.push(opt_str_view(e.href)));
                } else {
                    assert(st@.links =~= st0.links);
                }
                assert(st@ == enter(st0, *e));
            }
            push_styled_kids(dom, i, st, out);
            if is_code {
                st.code = st.code - 1;
            } else if is_strong {
                st.bold = st.bold - 1;
            } else if is_em {
                st.italic = st.italic - 1;
            } else if is_a {
                st.links.pop();
            }
            proof {
                assert(st.links@ =~= links0);
                assert(st@.links =~= st0.links);
            }
        },
        NodeData::Other => {
            push_styled_kids(dom, i, st, out);
        },
    }
}

fn push_styled_kids(dom: &Dom, i: usize, st: &mut Style, out: &mut Vec<TextComponent>)
    requires
        dom.wf(),
        i < dom.len(),
        old(st).code <= i + 1,
        old(st).bold <= i + 1,
        old(st).italic <= i + 1,
    ensures
        components_view(final(out)@) == components_view(old(out)@) + styled_kids(
            *dom,
            i as int,
            dom.kids(i as int).len() as int,
            old(st)@,
        ),
        final(st)@ == old(st)@,
        final(st).code == old(st).code,
        final(st).bold == old(st).bold,
        final(st).italic == old(st).italic,
        final(st).links@ == old(st).links@,
    decreases dom.len() - i, 0int,
{
    let n = dom.nodes[i].children.len();
    let mut k: usize = 0;
    while k < n
        invariant
            dom.wf(),
            i < dom.len(),
            n == dom.kids(i as int).len(),
            k <= n,
            st.code == old(st).code,
            st.bold == old(st).bold,
            st.italic == old(st).italic,
            st.links@ == old(st).links@,
            st.code <= i + 1,
            st.bold <= i + 1,
            st.italic <= i + 1,
            components_view(out@) == components_view(old(out)@) + styled_kids(*dom, i as int, k as int, old(st)@),
        decreases n - k,
    {
        let c = dom.nodes[i].children[k];
        assert(i < dom.kids(i as int)[k as int]);
        push_styled(dom, c, st, out);
        k += 1;
        proof {
            assert(st@.links =~= old(st)@.links);
            assert(components_view(out@) =~= components_view(old(out)@) + styled_kids(
                *dom,
                i as int,
                k as int,
                old(st)@,
            ));
        }
    }
}

/// Flattens the markup under node `i` into styled runs: one run per text node,
/// in document order, with the code, bold and italic flags of the elements that
/// enclose it and the target of the innermost enclosing link.
pub fn parse_text(dom: &Dom, i: usize) -> (r: Text)
    requires
        dom.wf(),
        i < dom.len(),
    ensures
        r@ == styled_of(*dom, i as int, style_init()),
{
    let mut st = Style { code: 0, bold: 0, italic: 0, links: Vec::new() };
    let mut out: Vec<TextComponent> = Vec::new();
    proof {
        assert(st@.links =~= Seq::<Option<Seq<char>>>::empty());
        assert(st@ == style_init());
        assert(components_view(out@) =~= Seq::empty());
    }
    push_styled(dom, i, &mut st, &mut out);
    proof {
        assert(components_view(out@) =~= styled_of(*dom, i as int, style_init()));
    }
    Text { components: out }
}

} // verus!
