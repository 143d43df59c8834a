use vstd::prelude::*;
use crate::code::{code_of, parse_generic_code};
use crate::docblock::{docblock_spec, parse_docblock};
use crate::dom::{Cursor, Dom};
use crate::groups::{GroupsModel, PageShape, groups_init, groups_run, impls_view, parse_groups};
use crate::implementation::{Implementation, items_view};
use crate::item::{
    SimpleItem, is_docblock, lemma_unwrap_advances, skip_toggle_wrapper, unwrap_opt,
};
use crate::mark::{Mark, MarkModel, empty_mark, marks_from, parse_marks_forward};
use crate::reexport::{ExportItem, exports_spec, exports_view, parse_exports_forward};
use crate::sections::sections_view;
use crate::strs::{chars_eq, first_word, first_word_chars};
use crate::summary::{
    SummarySection, SummarySectionModel, parse_summary_forward, summary_spec,
};
use crate::text::{Code, Section, SectionModel};

verus! {

/// What a page documents, with the payload of its kind.
pub enum DocumentKind {
    Crate(Module),
    Module(Module),
    Struct(Struct),
    Enum(Enum),
    Constant(Code),
    Function(Code),
    Trait(Trait),
    Macro(Code),
    Attribute(Code),
    Type(Code),
    Primitive(Primitive),
    Keyword,
}

/// One documentation page: its title, notes, description and payload.
pub struct Document {
    pub title: String,
    pub mark: Mark,
    pub description: Vec<Section>,
    pub kind: DocumentKind,
}

/// The payload of a crate or module page.
pub struct Module {
    pub re_exports: Vec<ExportItem>,
    pub sub_item: Vec<SummarySection>,
}

pub struct Struct {
    pub declaration: Code,
    pub fields: Vec<SimpleItem>,
    pub methods: Vec<Implementation>,
    pub trait_impl: Vec<Implementation>,
    pub auto_impl: Vec<Implementation>,
    pub blanket: Vec<Implementation>,
}

pub struct Trait {
    pub declaration: Code,
    pub assoc_types: Vec<SimpleItem>,
    pub required: Vec<SimpleItem>,
    pub foreigns: Vec<Implementation>,
    pub implementors: Vec<Implementation>,
}

pub struct Enum {
    pub declaration: Code,
    pub variants: Vec<SimpleItem>,
    pub trait_impl: Vec<Implementation>,
    pub auto_impl: Vec<Implementation>,
    pub blanket: Vec<Implementation>,
}

pub struct Primitive {
    pub methods: Vec<Implementation>,
    pub trait_impl: Vec<Implementation>,
    pub auto_impl: Vec<Implementation>,
    pub blanket: Vec<Implementation>,
}

pub struct ModuleModel {
    pub re_exports: Seq<Seq<char>>,
    pub sub_item: Seq<SummarySectionModel>,
}

pub enum KindModel {
    Crate(ModuleModel),
    Module(ModuleModel),
    Struct(Seq<char>, GroupsModel),
    Enum(Seq<char>, GroupsModel),
    Constant(Seq<char>),
    Function(Seq<char>),
    Trait(Seq<char>, GroupsModel),
    Macro(Seq<char>),
    Attribute(Seq<char>),
    Type(Seq<char>),
    Primitive(GroupsModel),
    Keyword,
}

pub struct DocumentModel {
    pub title: Seq<char>,
    pub mark: MarkModel,
    pub description: Seq<SectionModel>,
    pub kind: KindModel,
}

/// The groups that a page of each shape keeps; the others are empty.
pub open spec fn shape_part(shape: PageShape, g: GroupsModel) -> GroupsModel {
    let e = groups_init();
    match shape {
        PageShape::Struct => GroupsModel {
            fields: g.fields,
            methods: g.methods,
            trait_impls: g.trait_impls,
            auto_impls: g.auto_impls,
            blanket: g.blanket,
            ..e
        },
        PageShape::Enum => GroupsModel {
            variants: g.variants,
            trait_impls: g.trait_impls,
            auto_impls: g.auto_impls,
            blanket: g.blanket,
            ..e
        },
        PageShape::Primitive => GroupsModel {
            methods: g.methods,
            trait_impls: g.trait_impls,
            auto_impls: g.auto_impls,
            blanket: g.blanket,
            ..e
        },
        PageShape::Trait => GroupsModel {
            assoc_types: g.assoc_types,
            required: g.required,
            foreigns: g.foreigns,
            implementors: g.implementors,
            ..e
        },
    }
}

impl View for Module {
    type V = ModuleModel;

    open spec fn view(&self) -> ModuleModel {
        ModuleModel { re_exports: exports_view(self.re_exports@), sub_item: summaries_view_sections(self.sub_item@) }
    }
}

pub open spec fn summaries_view_sections(v: Seq<SummarySection>) -> Seq<SummarySectionModel> {
    v.map_values(|s: SummarySection| s@)
}

impl View for Struct {
    type V = GroupsModel;

    open spec fn view(&self) -> GroupsModel {
        GroupsModel {
            fields: items_view(self.fields@),
            methods: impls_view(self.methods@),
            trait_impls: impls_view(self.trait_impl@),
            auto_impls: impls_view(self.auto_impl@),
            blanket: impls_view(self.blanket@),
            ..groups_init()
        }
    }
}

impl View for Enum {
    type V = GroupsModel;

    open spec fn view(&self) -> GroupsModel {
        GroupsModel {
            variants: items_view(self.variants@),
            trait_impls: impls_view(self.trait_impl@),
            auto_impls: impls_view(self.auto_impl@),
            blanket: impls_view(self.blanket@),
            ..groups_init()
        }
    }
}

impl View for Primitive {
    type V = GroupsModel;

    open spec fn view(&self) -> GroupsModel {
        GroupsModel {
            methods: impls_view(self.methods@),
            trait_impls: impls_view(self.trait_impl@),
            auto_impls: impls_view(self.auto_impl@),
            blanket: impls_view(self.blanket@),
            ..groups_init()
        }
    }
}

impl View for Trait {
    type V = GroupsModel;

    open spec fn view(&self) -> GroupsModel {
        GroupsModel {
            assoc_types: items_view(self.assoc_types@),
            required: items_view(self.required@),
            foreigns: impls_view(self.foreigns@),
            implementors: impls_view(self.implementors@),
            ..groups_init()
        }
    }
}

impl View for DocumentKind {
    type V = KindModel;

    open spec fn view(&self) -> KindModel {
        match self {
            DocumentKind::Crate(m) => KindModel::Crate(m@),
            DocumentKind::Module(m) => KindModel::Module(m@),
            DocumentKind::Struct(s) => KindModel::Struct(s.declaration@, s@),
            DocumentKind::Enum(e) => KindModel::Enum(e.declaration@, e@),
            DocumentKind::Constant(c) => KindModel::Constant(c@),
            DocumentKind::Function(c) => KindModel::Function(c@),
            DocumentKind::Trait(t) => KindModel::Trait(t.declaration@, t@),
            DocumentKind::Macro(c) => KindModel::Macro(c@),
            DocumentKind::Attribute(c) => KindModel::Attribute(c@),
            DocumentKind::Type(c) => KindModel::Type(c@),
            DocumentKind::Primitive(p) => KindModel::Primitive(p@),
            DocumentKind::Keyword => KindModel::Keyword,
        }
    }
}

impl View for Document {
    type V = DocumentModel;

    open spec fn view(&self) -> DocumentModel {
        DocumentModel {
            title: self.title@,
            mark: self.mark@,
            description: sections_view(self.description@),
            kind: self.kind@,
        }
    }
}

/// The notes and description from `c` on (past a wrapper before the
/// description; the description is there only where a description node
/// follows), and the node after them.
pub open spec fn intro_spec(dom: Dom, c: Option<Cursor>) -> Option<(MarkModel, Seq<SectionModel>, Option<Cursor>)> {
    let (h, mark) = match c {
        Some(c) => marks_from(dom, c, empty_mark()),
        None => (None, empty_mark()),
    };
    match unwrap_opt(dom, h) {
        None => Some((mark, Seq::empty(), None)),
        Some(d) => if !is_docblock(dom, dom.at(d)) {
            Some((mark, Seq::empty(), Some(d)))
        } else {
            match docblock_spec(dom, dom.at(d)) {
                None => None,
                Some(desc) => Some((mark, desc, unwrap_opt(dom, dom.next_spec(d)))),
            }
        },
    }
}

/// The re-export tables and summary sections from header `c` on, in the order
/// of the page, added to `acc`.
pub open spec fn module_run(dom: Dom, c: Option<Cursor>, acc: ModuleModel) -> Option<ModuleModel>
    decreases dom.len() - dom.pos_of(c),
{
    match c {
        None => Some(acc),
        Some(x) => if !dom.valid(x) {
            Some(acc)
        } else {
            let step: Option<(Option<Cursor>, ModuleModel)> = if dom.id_is(dom.at(x), "reexports"@) {
                match exports_spec(dom, x) {
                    None => None,
                    Some((n, ex)) => Some((n, ModuleModel { re_exports: acc.re_exports + ex, ..acc })),
                }
            } else {
                match summary_spec(dom, x) {
                    None => None,
                    Some((n, sec)) => Some((n, ModuleModel { sub_item: acc.sub_item.push(sec), ..acc })),
                }
            };
            match step {
                None => None,
                Some((n, acc2)) => {
                    let nx = unwrap_opt(dom, n);
                    if dom.pos_of(nx) > dom.at(x) && dom.pos_of(nx) <= dom.len() {
                        module_run(dom, nx, acc2)
                    } else {
                        Some(acc2)
                    }
                },
            }
        },
    }
}

/// Regions are read in page order: what was read before stays in front, and
/// what later regions yield only comes after it.
pub proof fn lemma_module_order(dom: Dom, c: Option<Cursor>, acc: ModuleModel)
    ensures
        module_run(dom, c, acc) matches Some(m) ==> {
            &&& acc.re_exports.len() <= m.re_exports.len()
            &&& m.re_exports.take(acc.re_exports.len() as int) == acc.re_exports
            &&& acc.sub_item.len() <= m.sub_item.len()
            &&& m.sub_item.take(acc.sub_item.len() as int) == acc.sub_item
        },
    decreases dom.len() - dom.pos_of(c),
{
    if let Some(x) = c {
        if dom.valid(x) {
            let step: Option<(Option<Cursor>, ModuleModel)> = if dom.id_is(dom.at(x), "reexports"@) {
                match exports_spec(dom, x) {
                    None => None,
                    Some((n, ex)) => Some((n, ModuleModel { re_exports: acc.re_exports + ex, ..acc })),
                }
            } else {
                match summary_spec(dom, x) {
                    None => None,
                    Some((n, sec)) => Some((n, ModuleModel { sub_item: acc.sub_item.push(sec), ..acc })),
                }
            };
            if let Some((n, acc2)) = step {
                let nx = unwrap_opt(dom, n);
                assert(acc2.re_exports.take(acc.re_exports.len() as int) =~= acc.re_exports);
                assert(acc2.sub_item.take(acc.sub_item.len() as int) =~= acc.sub_item);
                if dom.pos_of(nx) > dom.at(x) && dom.pos_of(nx) <= dom.len() {
                    lemma_module_order(dom, nx, acc2);
                    if let Some(m) = module_run(dom, nx, acc2) {
                        assert(m.re_exports.take(acc.re_exports.len() as int) =~= m.re_exports.take(
                            acc2.re_exports.len() as int,
                        ).take(acc.re_exports.len() as int));
                        assert(m.sub_item.take(acc.sub_item.len() as int) =~= m.sub_item.take(
                            acc2.sub_item.len() as int,
                        ).take(acc.sub_item.len() as int));
                    }
                }
            }
        }
    }
}

/// The summary section whose header comes first is the first one read, and
/// the declarations of a re-export table that comes first are the first ones.
pub proof fn lemma_module_first_region(dom: Dom, x: Cursor)
    requires
        dom.valid(x),
    ensures
        !dom.id_is(dom.at(x), "reexports"@) ==> (summary_spec(dom, x) matches Some((_, sec)) ==> (
        module_run(dom, Some(x), module_init()) matches Some(m) ==> m.sub_item.len() > 0
            && m.sub_item[0] == sec)),
        dom.id_is(dom.at(x), "reexports"@) ==> (exports_spec(dom, x) matches Some((_, ex)) ==> (
        module_run(dom, Some(x), module_init()) matches Some(m) ==> ex.len() <= m.re_exports.len()
            && m.re_exports.take(ex.len() as int) == ex)),
{
    let acc = module_init();
    if !dom.id_is(dom.at(x), "reexports"@) {
        if let Some((n, sec)) = summary_spec(dom, x) {
            let acc2 = ModuleModel { sub_item: acc.sub_item.push(sec), ..acc };
            let nx = unwrap_opt(dom, n);
            if dom.pos_of(nx) > dom.at(x) && dom.pos_of(nx) <= dom.len() {
                lemma_module_order(dom, nx, acc2);
                if let Some(m) = module_run(dom, nx, acc2) {
                    assert(m.sub_item.take(1)[0] == m.sub_item[0]);
                }
            }
        }
    } else {
        if let Some((n, ex)) = exports_spec(dom, x) {
            let acc2 = ModuleModel { re_exports: acc.re_exports + ex, ..acc };
            assert(acc.re_exports + ex =~= ex);
            let nx = unwrap_opt(dom, n);
            if dom.pos_of(nx) > dom.at(x) && dom.pos_of(nx) <= dom.len() {
                lemma_module_order(dom, nx, acc2);
            }
        }
    }
}

pub open spec fn module_init() -> ModuleModel {
    ModuleModel { re_exports: Seq::empty(), sub_item: Seq::empty() }
}

/// The kind that the first word of a title names: 1 crate, 2 module, 3 struct,
/// 4 enum, 5 constant, 6 function, 7 trait, 8 macro, 9 attribute, 10 type,
/// 11 primitive, 12 keyword; 0 for any other word.
pub open spec fn title_kind(w: Seq<char>) -> nat {
    if w == "Crate"@ {
        1
    } else if w == "Module"@ {
        2
    } else if w == "Struct"@ {
        3
    } else if w == "Enum"@ {
        4
    } else if w == "Constant"@ {
        5
    } else if w == "Function"@ {
        6
    } else if w == "Trait"@ {
        7
    } else if w == "Macro"@ {
        8
    } else if w == "Attribute"@ {
        9
    } else if w == "Type"@ {
        10
    } else if w == "Primitive"@ {
        11
    } else if w == "Keyword"@ {
        12
    } else {
        0
    }
}

pub open spec fn declared_kind(k: nat, code: Seq<char>) -> KindModel {
    if k == 5 {
        KindModel::Constant(code)
    } else if k == 6 {
        KindModel::Function(code)
    } else if k == 8 {
        KindModel::Macro(code)
    } else if k == 9 {
        KindModel::Attribute(code)
    } else {
        KindModel::Type(code)
    }
}

pub open spec fn shape_of(k: nat) -> PageShape {
    if k == 3 {
        PageShape::Struct
    } else if k == 4 {
        PageShape::Enum
    } else if k == 7 {
        PageShape::Trait
    } else {
        PageShape::Primitive
    }
}

pub open spec fn typed_kind(k: nat, code: Seq<char>, g: GroupsModel) -> KindModel {
    if k == 3 {
        KindModel::Struct(code, shape_part(PageShape::Struct, g))
    } else if k == 4 {
        KindModel::Enum(code, shape_part(PageShape::Enum, g))
    } else {
        KindModel::Trait(code, shape_part(PageShape::Trait, g))
    }
}

/// A declaration at `a`, then the notes and description after it.
pub open spec fn declared_spec(dom: Dom, a: Cursor) -> Option<(Seq<char>, MarkModel, Seq<SectionModel>, Option<Cursor>)> {
    match intro_spec(dom, unwrap_opt(dom, dom.next_spec(a))) {
        None => None,
        Some((mark, desc, rest)) => Some((code_of(dom, dom.at(a)), mark, desc, rest)),
    }
}

/// The notes, description and payload of a page of kind `k` whose content
/// starts at `after`.
pub open spec fn payload_spec(dom: Dom, k: nat, after: Option<Cursor>) -> Option<(MarkModel, Seq<SectionModel>, KindModel)> {
    if k == 1 || k == 2 || k == 11 {
        match intro_spec(dom, unwrap_opt(dom, after)) {
            None => None,
            Some((mark, desc, rest)) => if k == 11 {
                match groups_run(dom, rest, PageShape::Primitive, groups_init()) {
                    None => None,
                    Some(g) => Some((mark, desc, KindModel::Primitive(shape_part(PageShape::Primitive, g)))),
                }
            } else {
                match module_run(dom, rest, module_init()) {
                    None => None,
                    Some(m) => Some((mark, desc, if k == 1 { KindModel::Crate(m) } else { KindModel::Module(m) })),
                }
            },
        }
    } else if k == 12 {
        match intro_spec(dom, after) {
            None => None,
            Some((mark, desc, _)) => Some((mark, desc, KindModel::Keyword)),
        }
    } else if 3 <= k <= 10 {
        match after {
            None => None,
            Some(a) => match declared_spec(dom, a) {
                None => None,
                Some((code, mark, desc, rest)) => if k == 3 || k == 4 || k == 7 {
                    match groups_run(dom, rest, shape_of(k), groups_init()) {
                        None => None,
                        Some(g) => Some((mark, desc, typed_kind(k, code, g))),
                    }
                } else {
                    Some((mark, desc, declared_kind(k, code)))
                },
            },
        }
    } else {
        None
    }
}

/// The page that `dom` holds: the title is the text of the last child of the
/// first `fqn` element inside the `main` element; its first word names the
/// kind; what follows the title holds notes, description and payload.
pub open spec fn document_spec(dom: Dom) -> Option<DocumentModel> {
    if dom.len() == 0 {
        None
    } else {
        match dom.find_in(0, true, "main"@) {
            None => None,
            Some(m) => match dom.find_in(dom.at(m), false, "fqn"@) {
                None => None,
                Some(f) => match dom.last_child_spec(dom.at(f)) {
                    None => None,
                    Some(l) => {
                        let title = dom.text_of(dom.at(l));
                        let after = unwrap_opt(dom, dom.next_spec(f));
                        match payload_spec(dom, title_kind(first_word(title)), after) {
                            None => None,
                            Some((mark, description, kind)) => Some(
                                DocumentModel { title, mark, description, kind },
                            ),
                        }
                    },
                },
            },
        }
    }
}

fn parse_basic(dom: &Dom, c: Option<Cursor>) -> (r: Option<(Mark, Vec<Section>, Option<Cursor>)>)
    requires
        dom.wf(),
        c matches Some(x) ==> dom.valid(x),
    ensures
        r is None <==> intro_spec(*dom, c) is None,
        r matches Some((m, d, n)) ==> intro_spec(*dom, c) == Some((m@, sections_view(d@), n)),
        r matches Some((_, _, Some(n))) ==> dom.valid(n),
{
    let (h, mark) = match c {
        Some(c) => parse_marks_forward(dom, c),
        None => (None, Mark::new()),
    };
    let d = match h {
        Some(h) => {
            proof {
                lemma_unwrap_advances(*dom, h);
            }
            skip_toggle_wrapper(dom, h)
        },
        None => None,
    };
    match d {
        None => {
            let desc: Vec<Section> = Vec::new();
            proof {
                assert(sections_view(desc@) =~= Seq::empty());
            }
            Some((mark, desc, None))
        },
        Some(d) => {
            proof {
                dom.lemma_next_advances(d);
            }
            if !dom.has_class(dom.node_at(d), "docblock") {
                let desc: Vec<Section> = Vec::new();
                proof {
                    assert(sections_view(desc@) =~= Seq::empty());
                }
                return Some((mark, desc, Some(d)));
            }
            match parse_docblock(dom, dom.node_at(d)) {
                None => None,
                Some(desc) => {
                    let n = match dom.next_sibling(d) {
                        Some(x) => {
                            proof {
                                lemma_unwrap_advances(*dom, x);
                            }
                            skip_toggle_wrapper(dom, x)
                        },
                        None => None,
                    };
                    Some((mark, desc, n))
                },
            }
        },
    }
}

#[verifier::spinoff_prover]
fn parse_module(dom: &Dom, start: Option<Cursor>) -> (r: Option<Module>)
    requires
        dom.wf(),
        start matches Some(x) ==> dom.valid(x),
    ensures
        r is None <==> module_run(*dom, start, module_init()) is None,
        r matches Some(m) ==> module_run(*dom, start, module_init()) == Some(m@),
{
    let mut m = Module { re_exports: Vec::new(), sub_item: Vec::new() };
    proof {
        assert(m@.re_exports =~= Seq::empty());
        assert(m@.sub_item =~= Seq::empty());
    }
    let mut cur = start;
    loop
        invariant
            dom.wf(),
            cur matches Some(x) ==> dom.valid(x),
            module_run(*dom, cur, m@) == module_run(*dom, start, module_init()),
        decreases dom.len() - dom.pos_of(cur),
    {
        let x = match cur {
            None => {
                return Some(m);
            },
            Some(x) => x,
        };
        proof {
            dom.lemma_next_advances(x);
        }
        let ghost acc = m@;
        let n = if dom.id_equals(dom.node_at(x), "reexports") {
            match parse_exports_forward(dom, x) {
                None => {
                    return None;
                },
                Some((n, mut ex)) => {
                    let ghost exv = exports_view(ex@);
                    let ghost r0 = m.re_exports@;
                    m.re_exports.append(&mut ex);
                    proof {
                        assert(exports_view(m.re_exports@) =~= exports_view(r0) + exv);
                        assert(m@ == ModuleModel { re_exports: acc.re_exports + exv, ..acc });
                    }
                    n
                },
            }
        } else {
            match parse_summary_forward(dom, x) {
                None => {
                    return None;
                },
                Some((n, sec)) => {
                    let ghost sv = sec@;
                    let ghost s0 = m.sub_item@;
                    m.sub_item.push(sec);
                    proof {
                        assert(summaries_view_sections(m.sub_item@) =~= summaries_view_sections(s0).push(sv));
                        assert(m@ == ModuleModel { sub_item: acc.sub_item.push(sv), ..acc });
                    }
                    n
                },
            }
        };
        let nx = match n {
            Some(y) => {
                proof {
                    lemma_unwrap_advances(*dom, y);
                }
                skip_toggle_wrapper(dom, y)
            },
            None => None,
        };
        cur = nx;
    }
}

/// The kind that the first word of `title` names, as `title_kind` numbers it.
pub fn title_kind_of(title: &str) -> (r: u8)
    ensures
        r as nat == title_kind(first_word(title@)),
{
    let w = first_word_chars(title);
    if chars_eq(&w, "Crate") {
        1
    } else if chars_eq(&w, "Module") {
        2
    } else if chars_eq(&w, "Struct") {
        3
    } else if chars_eq(&w, "Enum") {
        4
    } else if chars_eq(&w, "Constant") {
        5
    } else if chars_eq(&w, "Function") {
        6
    } else if chars_eq(&w, "Trait") {
        7
    } else if chars_eq(&w, "Macro") {
        8
    } else if chars_eq(&w, "Attribute") {
        9
    } else if chars_eq(&w, "Type") {
        10
    } else if chars_eq(&w, "Primitive") {
        11
    } else if chars_eq(&w, "Keyword") {
        12
    } else {
        0
    }
}

fn declared_kind_exec(k: u8, code: Code) -> (r: DocumentKind)
    ensures
        r@ == declared_kind(k as nat, code@),
{
    if k == 5 {
        DocumentKind::Constant(code)
    } else if k == 6 {
        DocumentKind::Function(code)
    } else if k == 8 {
        DocumentKind::Macro(code)
    } else if k == 9 {
        DocumentKind::Attribute(code)
    } else {
        DocumentKind::Type(code)
    }
}

fn typed_kind_exec(k: u8, declaration: Code, g: crate::groups::Groups) -> (r: DocumentKind)
    ensures
        r@ == typed_kind(k as nat, declaration@, g@),
{
    if k == 3 {
        DocumentKind::Struct(
            Struct {
                declaration,
                fields: g.fields,
                methods: g.methods,
                trait_impl: g.trait_impls,
                auto_impl: g.auto_impls,
                blanket: g.blanket,
            },
        )
    } else if k == 4 {
        DocumentKind::Enum(
            Enum {
                declaration,
                variants: g.variants,
                trait_impl: g.trait_impls,
                auto_impl: g.auto_impls,
                blanket: g.blanket,
            },
        )
    } else {
        DocumentKind::Trait(
            Trait {
                declaration,
                assoc_types: g.assoc_types,
                required: g.required,
                foreigns: g.foreigns,
                implementors: g.implementors,
            },
        )
    }
}

fn shape_exec(k: u8) -> (r: PageShape)
    ensures
        r == shape_of(k as nat),
{
    if k == 3 {
        PageShape::Struct
    } else if k == 4 {
        PageShape::Enum
    } else if k == 7 {
        PageShape::Trait
    } else {
        PageShape::Primitive
    }
}

fn unwrap_exec(dom: &Dom, c: Option<Cursor>) -> (r: Option<Cursor>)
    requires
        dom.wf(),
        c matches Some(x) ==> dom.valid(x),
    ensures
        r == unwrap_opt(*dom, c),
        r matches Some(x) ==> dom.valid(x),
{
    match c {
        Some(x) => skip_toggle_wrapper(dom, x),
        None => None,
    }
}

fn parse_declared(dom: &Dom, a: Cursor) -> (r: Option<(Code, Mark, Vec<Section>, Option<Cursor>)>)
    requires
        dom.wf(),
        dom.valid(a),
    ensures
        r is None <==> declared_spec(*dom, a) is None,
        r matches Some((c, m, d, n)) ==> declared_spec(*dom, a) == Some((c@, m@, sections_view(d@), n)),
        r matches Some((_, _, _, Some(n))) ==> dom.valid(n),
{
    proof {
        dom.lemma_next_advances(a);
    }
    let code = parse_generic_code(dom, dom.node_at(a));
    let next = dom.next_sibling(a);
    match parse_basic(dom, unwrap_exec(dom, next)) {
        None => None,
        Some((mark, desc, rest)) => Some((code, mark, desc, rest)),
    }
}

#[verifier::spinoff_prover]
fn parse_payload(dom: &Dom, k: u8, after: Option<Cursor>) -> (r: Option<(Mark, Vec<Section>, DocumentKind)>)
    requires
        dom.wf(),
        after matches Some(x) ==> dom.valid(x),
    ensures
        r is None <==> payload_spec(*dom, k as nat, after) is None,
        r matches Some((m, d, kind)) ==> payload_spec(*dom, k as nat, after) == Some(
            (m@, sections_view(d@), kind@),
        ),
{
    if k == 1 || k == 2 || k == 11 {
        match parse_basic(dom, unwrap_exec(dom, after)) {
            None => None,
            Some((mark, desc, rest)) => if k == 11 {
                match parse_groups(dom, rest, PageShape::Primitive) {
                    None => None,
                    Some(g) => {
                        let p = Primitive {
                            methods: g.methods,
                            trait_impl: g.trait_impls,
                            auto_impl: g.auto_impls,
                            blanket: g.blanket,
                        };
                        Some((mark, desc, DocumentKind::Primitive(p)))
                    },
                }
            } else {
                match parse_module(dom, rest) {
                    None => None,
                    Some(m) => if k == 1 {
                        Some((mark, desc, DocumentKind::Crate(m)))
                    } else {
                        Some((mark, desc, DocumentKind::Module(m)))
                    },
                }
            },
        }
    } else if k == 12 {
        match parse_basic(dom, after) {
            None => None,
            Some((mark, desc, _)) => Some((mark, desc, DocumentKind::Keyword)),
        }
    } else if 3 <= k && k <= 10 {
        match after {
            None => None,
            Some(a) => match parse_declared(dom, a) {
                None => None,
                Some((code, mark, desc, rest)) => if k == 3 || k == 4 || k == 7 {
                    match parse_groups(dom, rest, shape_exec(k)) {
                        None => None,
                        Some(g) => Some((mark, desc, typed_kind_exec(k, code, g))),
                    }
                } else {
                    Some((mark, desc, declared_kind_exec(k, code)))
                },
            },
        }
    } else {
        None
    }
}

/// The title of a document read from a page is the rendered text of the last
/// child of the page's `fqn` element, character for character.
pub proof fn lemma_title_verbatim(dom: Dom)
    ensures
        document_spec(dom) matches Some(d) ==> {
            &&& dom.find_in(0, true, "main"@) matches Some(m)
            &&& dom.find_in(dom.at(m), false, "fqn"@) matches Some(f)
            &&& dom.last_child_spec(dom.at(f)) matches Some(l)
            &&& d.title == dom.text_of(dom.at(l))
        },
{
}

/// A page with a `main` element holding an `fqn` title, whose first word names
/// a crate, module, primitive or keyword, and with nothing after the title, is
/// always read: the document carries the title verbatim and empty notes.
pub proof fn lemma_bare_page_present(dom: Dom, m: Cursor, f: Cursor, l: Cursor)
    requires
        dom.len() > 0,
        dom.find_in(0, true, "main"@) == Some(m),
        dom.find_in(dom.at(m), false, "fqn"@) == Some(f),
        dom.last_child_spec(dom.at(f)) == Some(l),
        dom.next_spec(f) is None,
        ({
            let k = title_kind(first_word(dom.text_of(dom.at(l))));
            k == 1 || k == 2 || k == 11 || k == 12
        }),
    ensures
        document_spec(dom) is Some,
        document_spec(dom)->Some_0.title == dom.text_of(dom.at(l)),
        document_spec(dom)->Some_0.mark == empty_mark(),
{
    assert(intro_spec(dom, None) == Some((empty_mark(), Seq::<SectionModel>::empty(), None::<Cursor>)));
    assert(module_run(dom, None, module_init()) == Some(module_init()));
    assert(groups_run(dom, None, PageShape::Primitive, groups_init()) == Some(groups_init()));
}

/// A page is read only where the first word of its title names a kind: a title
/// that starts with any other word gives no document at all.
pub proof fn lemma_unknown_kind_absent(dom: Dom)
    ensures
        document_spec(dom) matches Some(d) ==> title_kind(first_word(d.title)) != 0,
        forall|after: Option<Cursor>| #[trigger] payload_spec(dom, 0, after) is None,
{
}

/// Reads a documentation page into a document: `None` exactly where the page
/// does not have the expected shape, as `document_spec` states.
pub fn parse_document(dom: &Dom) -> (r: Option<Document>)
    requires
        dom.wf(),
    ensures
        r is None <==> document_spec(*dom) is None,
        r matches Some(d) ==> document_spec(*dom) == Some(d@),
{
    if dom.nodes.len() == 0 {
        return None;
    }
    let m = match dom.find_first(0, true, "main") {
        None => {
            return None;
        },
        Some(m) => m,
    };
    let f = match dom.find_first(dom.node_at(m), false, "fqn") {
        None => {
            return None;
        },
        Some(f) => f,
    };
    proof {
        dom.lemma_next_advances(f);
        dom.lemma_first_child(dom.at(f));
    }
    let l = match dom.last_child(dom.node_at(f)) {
        None => {
            return None;
        },
        Some(l) => l,
    };
    let title = dom.text_contents(dom.node_at(l));
    let k = title_kind_of(title.as_str());
    let after = unwrap_exec(dom, dom.next_sibling(f));
    match parse_payload(dom, k, after) {
        None => None,
        Some((mark, description, kind)) => Some(Document { title, mark, description, kind }),
    }
}

} // verus!
