use vstd::prelude::*;
use crate::text::{
    Paragraph, ParagraphModel, Section, SectionModel, Text, TextComponentModel, paragraph_view,
    paragraphs_view, section_view,
};

verus! {

/// One block of a description before it is folded into sections: either content,
/// or a heading of level 1 to 6 with its title.
pub enum Block {
    Leaf(Paragraph),
    Heading(usize, Text),
}

pub enum BlockModel {
    Leaf(ParagraphModel),
    Heading(nat, Seq<TextComponentModel>),
}

impl View for Block {
    type V = BlockModel;

    open spec fn view(&self) -> BlockModel {
        match self {
            Block::Leaf(p) => BlockModel::Leaf(paragraph_view(*p)),
            Block::Heading(l, t) => BlockModel::Heading(*l as nat, t@),
        }
    }
}

/// The state of the heading fold: the finished top-level sections, the stack of
/// open sections, and the section being filled.
pub struct FoldState {
    pub done: Seq<SectionModel>,
    pub stack: Seq<SectionModel>,
    pub cur: SectionModel,
}

pub open spec fn empty_section(title: Option<Seq<TextComponentModel>>) -> SectionModel {
    SectionModel { title, content: Seq::empty() }
}

/// The section before the first heading, while it has neither title nor content:
/// it is not kept.
pub open spec fn is_blank(st: FoldState) -> bool {
    st.stack.len() == 0 && st.cur.title is None && st.cur.content.len() == 0
}

/// Every open section closed into one top-level section, unless there is only
/// the blank one.
pub open spec fn close_all(st: FoldState) -> Seq<SectionModel> {
    if is_blank(st) {
        Seq::empty()
    } else {
        reduce(st.stack.push(st.cur), 1)
    }
}

/// `child` appended to `parent` as its last nested section.
pub open spec fn nest(parent: SectionModel, child: SectionModel) -> SectionModel {
    SectionModel {
        title: parent.title,
        content: parent.content.push(ParagraphModel::SubSection(child)),
    }
}

/// Closes open sections, innermost first, until at most `d` remain.
pub open spec fn reduce(s: Seq<SectionModel>, d: nat) -> Seq<SectionModel>
    decreases s.len(),
{
    if s.len() > d && s.len() >= 2 {
        reduce(s.take(s.len() - 2).push(nest(s[s.len() - 2], s[s.len() - 1])), d)
    } else {
        s
    }
}

pub open spec fn fold_init() -> FoldState {
    FoldState { done: Seq::empty(), stack: Seq::empty(), cur: empty_section(None) }
}

pub open spec fn fold_step(st: FoldState, b: BlockModel) -> FoldState {
    match b {
        BlockModel::Leaf(p) => FoldState {
            cur: SectionModel { title: st.cur.title, content: st.cur.content.push(p) },
            ..st
        },
        BlockModel::Heading(level, title) => if level <= 1 {
            FoldState {
                done: st.done + close_all(st),
                stack: Seq::empty(),
                cur: empty_section(Some(title)),
            }
        } else {
            FoldState {
                done: st.done,
                stack: reduce(st.stack.push(st.cur), (level - 1) as nat),
                cur: empty_section(Some(title)),
            }
        },
    }
}

pub open spec fn fold_blocks(bs: Seq<BlockModel>) -> FoldState
    decreases bs.len(),
{
    if bs.len() == 0 {
        fold_init()
    } else {
        fold_step(fold_blocks(bs.drop_last()), bs.last())
    }
}

/// The top-level sections once every open section is closed.
pub open spec fn fold_finish(st: FoldState) -> Seq<SectionModel> {
    st.done + close_all(st)
}

/// The section tree that a sequence of blocks describes.
pub open spec fn sections_of(bs: Seq<BlockModel>) -> Seq<SectionModel> {
    fold_finish(fold_blocks(bs))
}

pub open spec fn sections_view(ss: Seq<Section>) -> Seq<SectionModel> {
    ss.map_values(|s: Section| section_view(s))
}

proof fn lemma_paragraphs_view_prefix(ps: Seq<Paragraph>, x: Paragraph, k: int)
    requires
        0 <= k <= ps.len(),
    ensures
        paragraphs_view(ps.push(x), k) == paragraphs_view(ps, k),
    decreases k,
{
    if k > 0 {
        lemma_paragraphs_view_prefix(ps, x, k - 1);
        assert(ps.push(x)[k - 1] == ps[k - 1]);
    }
}

proof fn lemma_paragraphs_view_len(ps: Seq<Paragraph>, k: int)
    requires
        0 <= k <= ps.len(),
    ensures
        paragraphs_view(ps, k).len() == k,
    decreases k,
{
    if k > 0 {
        lemma_paragraphs_view_len(ps, k - 1);
    }
}

/// Appending a paragraph to a section appends its model to the section's model.
proof fn lemma_section_push(s: Section, ps: Seq<Paragraph>, x: Paragraph)
    requires
        ps == s.content@.push(x),
    ensures
        paragraphs_view(ps, ps.len() as int) == section_view(s).content.push(paragraph_view(x)),
{
    lemma_paragraphs_view_prefix(s.content@, x, s.content@.len() as int);
    assert(ps[ps.len() - 1] == x);
}

/// Builds the section tree of a description block by block.
pub struct SectionBuilder {
    pub done: Vec<Section>,
    pub stack: Vec<Section>,
    pub cur: Section,
}

impl View for SectionBuilder {
    type V = FoldState;

    open spec fn view(&self) -> FoldState {
        FoldState {
            done: sections_view(self.done@),
            stack: sections_view(self.stack@),
            cur: section_view(self.cur),
        }
    }
}

fn push_paragraph(s: &mut Section, p: Paragraph)
    ensures
        section_view(*final(s)) == (SectionModel {
            title: section_view(*old(s)).title,
            content: section_view(*old(s)).content.push(paragraph_view(p)),
        }),
{
    let ghost before = *s;
    s.content.push(p);
    proof {
        lemma_section_push(before, s.content@, p);
    }
}

/// Closes open sections of `stack`, innermost first, until at most `d` remain.
fn reduce_stack(stack: &mut Vec<Section>, d: usize)
    requires
        d >= 1,
    ensures
        sections_view(final(stack)@) == reduce(sections_view(old(stack)@), d as nat),
{
    while stack.len() > d
        invariant
            d >= 1,
            reduce(sections_view(stack@), d as nat) == reduce(sections_view(old(stack)@), d as nat),
        decreases stack.len(),
    {
        let ghost s0 = sections_view(stack@);
        let top = stack.pop().unwrap();
        let mut parent = stack.pop().unwrap();
        let ghost p0 = parent;
        parent.content.push(Paragraph::SubSection(Box::new(top)));
        proof {
            lemma_section_push(p0, parent.content@, Paragraph::SubSection(Box::new(top)));
            assert(section_view(parent) == nest(s0[s0.len() - 2], s0[s0.len() - 1]));
        }
        stack.push(parent);
        proof {
            assert(sections_view(stack@) =~= s0.take(s0.len() - 2).push(
                nest(s0[s0.len() - 2], s0[s0.len() - 1]),
            ));
        }
    }
}

impl SectionBuilder {
    pub fn new() -> (r: SectionBuilder)
        ensures
            r@ == fold_init(),
    {
        let r = SectionBuilder {
            done: Vec::new(),
            stack: Vec::new(),
            cur: Section { title: None, content: Vec::new() },
        };
        proof {
            assert(r@.done =~= Seq::empty());
            assert(r@.stack =~= Seq::empty());
            assert(r@.cur.content =~= Seq::empty());
        }
        r
    }

    /// Adds a block of content to the section being filled.
    pub fn push_block(self, b: Block) -> (r: SectionBuilder)
        ensures
            r@ == fold_step(self@, b@),
    {
        let ghost st = self@;
        let SectionBuilder { mut done, mut stack, mut cur } = self;
        match b {
            Block::Leaf(p) => {
                push_paragraph(&mut cur, p);
                SectionBuilder { done, stack, cur }
            },
            Block::Heading(level, title) => {
                let ghost t = title@;
                let fresh = Section { title: Some(title), content: Vec::new() };
                proof {
                    assert(section_view(fresh) == empty_section(Some(t)));
                }
                let blank = stack.len() == 0 && cur.title.is_none() && cur.content.len() == 0;
                proof {
                    lemma_paragraphs_view_len(cur.content@, cur.content@.len() as int);
                }
                if blank && level <= 1 {
                    proof {
                        assert(sections_view(done@) =~= st.done + close_all(st));
                        assert(sections_view(stack@) =~= Seq::empty());
                    }
                    return SectionBuilder { done, stack, cur: fresh };
                }
                stack.push(cur);
                proof {
                    assert(sections_view(stack@) =~= st.stack.push(st.cur));
                }
                if level <= 1 {
                    reduce_stack(&mut stack, 1);
                    done.append(&mut stack);
                    proof {
                        assert(sections_view(done@) =~= st.done + close_all(st));
                        assert(sections_view(stack@) =~= Seq::empty());
                    }
                } else {
                    reduce_stack(&mut stack, level - 1);
                }
                SectionBuilder { done, stack, cur: fresh }
            },
        }
    }

    /// Closes every open section and returns the top-level sections.
    pub fn finish(self) -> (r: Vec<Section>)
        ensures
            sections_view(r@) == fold_finish(self@),
    {
        let SectionBuilder { mut done, mut stack, cur } = self;
        let ghost st = self@;
        let blank = stack.len() == 0 && cur.title.is_none() && cur.content.len() == 0;
        proof {
            lemma_paragraphs_view_len(cur.content@, cur.content@.len() as int);
        }
        if blank {
            proof {
                assert(sections_view(done@) =~= st.done + close_all(st));
            }
            return done;
        }
        stack.push(cur);
        proof {
            assert(sections_view(stack@) =~= st.stack.push(st.cur));
        }
        reduce_stack(&mut stack, 1);
        done.append(&mut stack);
        proof {
            assert(sections_view(done@) =~= st.done + close_all(st));
        }
        done
    }
}

} // verus!
