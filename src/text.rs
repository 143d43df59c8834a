use vstd::prelude::*;

verus! {

/// Verbatim code, kept as written in the page.
pub type Code = String;

/// One run of text with the styles that were active where it stood.
pub struct TextComponent {
    pub text: String,
    pub code: bool,
    pub italic: bool,
    pub bold: bool,
    pub link: Option<String>,
}

/// The mathematical value of a `TextComponent`.
pub struct TextComponentModel {
    pub text: Seq<char>,
    pub code: bool,
    pub italic: bool,
    pub bold: bool,
    pub link: Option<Seq<char>>,
}

pub open spec fn opt_str_view(o: Option<String>) -> Option<Seq<char>> {
    match o {
        Some(s) => Some(s@),
        None => None,
    }
}

impl View for TextComponent {
    type V = TextComponentModel;

    open spec fn view(&self) -> TextComponentModel {
        TextComponentModel {
            text: self.text@,
            code: self.code,
            italic: self.italic,
            bold: self.bold,
            link: opt_str_view(self.link),
        }
    }
}

/// Rich text: an ordered sequence of styled runs.
pub struct Text {
    pub components: Vec<TextComponent>,
}

pub open spec fn components_view(cs: Seq<TextComponent>) -> Seq<TextComponentModel> {
    cs.map_values(|c: TextComponent| c@)
}

impl View for Text {
    type V = Seq<TextComponentModel>;

    open spec fn view(&self) -> Seq<TextComponentModel> {
        components_view(self.components@)
    }
}

/// One block of a description.
pub enum Paragraph {
    Text(Text),
    List(Vec<Text>),
    Code(Code),
    InvalidCode(Code),
    SubSection(Box<Section>),
}

/// A titled part of a description; sections nest through `Paragraph::SubSection`.
pub struct Section {
    pub title: Option<Text>,
    pub content: Vec<Paragraph>,
}

pub enum ParagraphModel {
    Text(Seq<TextComponentModel>),
    List(Seq<Seq<TextComponentModel>>),
    Code(Seq<char>),
    InvalidCode(Seq<char>),
    SubSection(SectionModel),
}

pub struct SectionModel {
    pub title: Option<Seq<TextComponentModel>>,
    pub content: Seq<ParagraphModel>,
}

pub open spec fn texts_view(ts: Seq<Text>) -> Seq<Seq<TextComponentModel>> {
    ts.map_values(|t: Text| t@)
}

pub open spec fn opt_text_view(o: Option<Text>) -> Option<Seq<TextComponentModel>> {
    match o {
        Some(t) => Some(t@),
        None => None,
    }
}

pub open spec fn section_view(s: Section) -> SectionModel
    decreases s, 0int,
{
    SectionModel { title: opt_text_view(s.title), content: paragraphs_view(s.content@, s.content@.len() as int) }
}

pub open spec fn paragraphs_view(ps: Seq<Paragraph>, k: int) -> Seq<ParagraphModel>
    decreases ps, k,
{
    if 0 < k <= ps.len() {
        paragraphs_view(ps, k - 1).push(paragraph_view(ps[k - 1]))
    } else {
        Seq::empty()
    }
}

pub open spec fn paragraph_view(p: Paragraph) -> ParagraphModel
    decreases p, 0int,
{
    match p {
        Paragraph::Text(t) => ParagraphModel::Text(t@),
        Paragraph::List(ts) => ParagraphModel::List(texts_view(ts@)),
        Paragraph::Code(c) => ParagraphModel::Code(c@),
        Paragraph::InvalidCode(c) => ParagraphModel::InvalidCode(c@),
        Paragraph::SubSection(b) => ParagraphModel::SubSection(section_view(*b)),
    }
}

} // verus!
