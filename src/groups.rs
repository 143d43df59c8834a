use vstd::prelude::*;
use crate::dom::{Cursor, Dom, NodeData};
use crate::implementation::{
    Implementation, ImplementationModel, impl_spec, items_run, parse_implementation_forward,
};
use crate::item::{
    SimpleItem, SimpleItemModel, lemma_skip_advances, lemma_unwrap_advances, skip_opt,
    skip_toggle_wrapper, skip_uninformative, unwrap_opt, unwrap_spec,
};
use crate::implementation::{items_view, parse_items};
use crate::strs::str_eq;

verus! {

/// The groups of child entries of a type or trait page. A group opens with a
/// header whose identifier names it, and its entries are the children of the
/// sibling after the header.
pub struct GroupsModel {
    pub fields: Seq<SimpleItemModel>,
    pub variants: Seq<SimpleItemModel>,
    pub assoc_types: Seq<SimpleItemModel>,
    pub required: Seq<SimpleItemModel>,
    pub methods: Seq<ImplementationModel>,
    pub trait_impls: Seq<ImplementationModel>,
    pub auto_impls: Seq<ImplementationModel>,
    pub blanket: Seq<ImplementationModel>,
    pub foreigns: Seq<ImplementationModel>,
    pub implementors: Seq<ImplementationModel>,
}

pub open spec fn groups_init() -> GroupsModel {
    GroupsModel {
        fields: Seq::empty(),
        variants: Seq::empty(),
        assoc_types: Seq::empty(),
        required: Seq::empty(),
        methods: Seq::empty(),
        trait_impls: Seq::empty(),
        auto_impls: Seq::empty(),
        blanket: Seq::empty(),
        foreigns: Seq::empty(),
        implementors: Seq::empty(),
    }
}

/// Which page shape a group list belongs to.
#[derive(PartialEq, Eq, Structural, Clone, Copy, Debug)]
pub enum PageShape {
    Struct,
    Enum,
    Primitive,
    Trait,
}

/// The group that a header identifier names: 0 fields, 1 variants,
/// 2 associated types, 3 required methods, 4 inherent implementations,
/// 5 trait implementations, 6 automatic implementations, 7 blanket
/// implementations, 8 foreign implementations, 9 implementors.
pub open spec fn group_of_id(id: Seq<char>) -> Option<nat> {
    if id == "fields"@ {
        Some(0)
    } else if id == "variants"@ {
        Some(1)
    } else if id == "associated-types"@ {
        Some(2)
    } else if id == "required-methods"@ {
        Some(3)
    } else if id == "implementations"@ {
        Some(4)
    } else if id == "trait-implementations"@ {
        Some(5)
    } else if id == "synthetic-implementations"@ {
        Some(6)
    } else if id == "blanket-implementations"@ {
        Some(7)
    } else if id == "foreign-impls"@ {
        Some(8)
    } else if id == "implementors"@ {
        Some(9)
    } else {
        None
    }
}

/// The groups that a page of each shape may hold.
pub open spec fn allowed(shape: PageShape, g: nat) -> bool {
    match shape {
        PageShape::Struct => g == 0 || g == 4 || g == 5 || g == 6 || g == 7,
        PageShape::Enum => g == 1 || g == 5 || g == 6 || g == 7,
        PageShape::Primitive => g == 4 || g == 5 || g == 6 || g == 7,
        PageShape::Trait => g == 2 || g == 3 || g == 8 || g == 9,
    }
}

pub open spec fn header_group(dom: Dom, i: int) -> Option<nat> {
    match dom.element(i) {
        Some(e) => match e.id {
            Some(id) => group_of_id(id@),
            None => None,
        },
        None => None,
    }
}

pub open spec fn add_items(g: GroupsModel, k: nat, v: Seq<SimpleItemModel>) -> GroupsModel {
    if k == 0 {
        GroupsModel { fields: g.fields + v, ..g }
    } else if k == 1 {
        GroupsModel { variants: g.variants + v, ..g }
    } else if k == 2 {
        GroupsModel { assoc_types: g.assoc_types + v, ..g }
    } else {
        GroupsModel { required: g.required + v, ..g }
    }
}

pub open spec fn add_impls(g: GroupsModel, k: nat, v: Seq<ImplementationModel>) -> GroupsModel {
    if k == 4 {
        GroupsModel { methods: g.methods + v, ..g }
    } else if k == 5 {
        GroupsModel { trait_impls: g.trait_impls + v, ..g }
    } else if k == 6 {
        GroupsModel { auto_impls: g.auto_impls + v, ..g }
    } else if k == 7 {
        GroupsModel { blanket: g.blanket + v, ..g }
    } else if k == 8 {
        GroupsModel { foreigns: g.foreigns + v, ..g }
    } else {
        GroupsModel { implementors: g.implementors + v, ..g }
    }
}

/// Where the entry after the implementation at `d` starts: past `d` itself
/// when `d` is a wrapper, else past the block of items after the header.
pub open spec fn after_impl(dom: Dom, d: Cursor, w: Cursor, n: Option<Cursor>) -> Option<Cursor> {
    if w != d {
        dom.next_spec(d)
    } else {
        match n {
            Some(items) => dom.next_spec(items),
            None => None,
        }
    }
}

/// The implementation blocks from `c` on, skipping decorations between them.
#[verifier::opaque]
pub open spec fn impls_run(dom: Dom, c: Option<Cursor>) -> Option<Seq<ImplementationModel>>
    decreases dom.len() - dom.pos_of(c),
{
    match c {
        None => Some(Seq::empty()),
        Some(d) => if !dom.valid(d) {
            Some(Seq::empty())
        } else {
            match unwrap_spec(dom, d) {
                None => None,
                Some(w) => match impl_spec(dom, w) {
                    None => None,
                    Some((n, im)) => {
                        let nx = skip_opt(dom, after_impl(dom, d, w, n));
                        if dom.pos_of(nx) > dom.at(d) && dom.pos_of(nx) <= dom.len() {
                            match impls_run(dom, nx) {
                                None => None,
                                Some(rest) => Some(seq![im] + rest),
                            }
                        } else {
                            Some(seq![im])
                        }
                    },
                },
            }
        },
    }
}

/// The groups from header `c` on, added to `g`: `None` where a header names no
/// group that a page of this shape holds, or a group has the wrong shape.
pub open spec fn groups_run(dom: Dom, c: Option<Cursor>, shape: PageShape, g: GroupsModel) -> Option<GroupsModel>
    decreases dom.len() - dom.pos_of(c),
{
    match c {
        None => Some(g),
        Some(h) => if !dom.valid(h) {
            Some(g)
        } else {
            match header_group(dom, dom.at(h)) {
                None => None,
                Some(k) => if !allowed(shape, k) {
                    None
                } else {
                    match dom.next_spec(h) {
                        None => None,
                        Some(body) => {
                            let first = skip_opt(dom, dom.first_child_spec(dom.at(body)));
                            let g2 = if k <= 3 {
                                match items_run(dom, first, false) {
                                    None => None,
                                    Some((_, v)) => Some(add_items(g, k, v)),
                                }
                            } else {
                                match impls_run(dom, first) {
                                    None => None,
                                    Some(v) => Some(add_impls(g, k, v)),
                                }
                            };
                            match g2 {
                                None => None,
                                Some(g2) => {
                                    let nx = unwrap_opt(dom, dom.next_spec(body));
                                    if dom.pos_of(nx) > dom.at(h) && dom.pos_of(nx) <= dom.len() {
                                        groups_run(dom, nx, shape, g2)
                                    } else {
                                        Some(g2)
                                    }
                                },
                            }
                        },
                    }
                },
            }
        },
    }
}

pub struct Groups {
    pub fields: Vec<SimpleItem>,
    pub variants: Vec<SimpleItem>,
    pub assoc_types: Vec<SimpleItem>,
    pub required: Vec<SimpleItem>,
    pub methods: Vec<Implementation>,
    pub trait_impls: Vec<Implementation>,
    pub auto_impls: Vec<Implementation>,
    pub blanket: Vec<Implementation>,
    pub foreigns: Vec<Implementation>,
    pub implementors: Vec<Implementation>,
}

pub open spec fn impls_view(v: Seq<Implementation>) -> Seq<ImplementationModel> {
    v.map_values(|x: Implementation| x@)
}

impl View for Groups {
    type V = GroupsModel;

    open spec fn view(&self) -> GroupsModel {
        GroupsModel {
            fields: items_view(self.fields@),
            variants: items_view(self.variants@),
            assoc_types: items_view(self.assoc_types@),
            required: items_view(self.required@),
            methods: impls_view(self.methods@),
            trait_impls: impls_view(self.trait_impls@),
            auto_impls: impls_view(self.auto_impls@),
            blanket: impls_view(self.blanket@),
            foreigns: impls_view(self.foreigns@),
            implementors: impls_view(self.implementors@),
        }
    }
}

impl Groups {
    pub fn new() -> (r: Groups)
        ensures
            r@ == groups_init(),
    {
        let r = Groups {
            fields: Vec::new(),
            variants: Vec::new(),
            assoc_types: Vec::new(),
            required: Vec::new(),
            methods: Vec::new(),
            trait_impls: Vec::new(),
            auto_impls: Vec::new(),
            blanket: Vec::new(),
            foreigns: Vec::new(),
            implementors: Vec::new(),
        };
        proof {
            assert(r@.fields =~= Seq::empty());
            assert(r@.variants =~= Seq::empty());
            assert(r@.assoc_types =~= Seq::empty());
            assert(r@.required =~= Seq::empty());
            assert(r@.methods =~= Seq::empty());
            assert(r@.trait_impls =~= Seq::empty());
            assert(r@.auto_impls =~= Seq::empty());
            assert(r@.blanket =~= Seq::empty());
            assert(r@.foreigns =~= Seq::empty());
            assert(r@.implementors =~= Seq::empty());
        }
        r
    }
}

proof fn lemma_items_append(a: Seq<SimpleItem>, b: Seq<SimpleItem>)
    ensures
        items_view(a + b) == items_view(a) + items_view(b),
{
    assert(items_view(a + b) =~= items_view(a) + items_view(b));
}

proof fn lemma_impls_append(a: Seq<Implementation>, b: Seq<Implementation>)
    ensures
        impls_view(a + b) == impls_view(a) + impls_view(b),
{
    assert(impls_view(a + b) =~= impls_view(a) + impls_view(b));
}

fn group_id(dom: &Dom, i: usize) -> (r: Option<usize>)
    requires
        i < dom.len(),
    ensures
        r matches Some(k) ==> header_group(*dom, i as int) == Some(k as nat),
        r is None ==> header_group(*dom, i as int) is None,
{
    let id = match &dom.nodes[i].data {
        NodeData::Element(e) => match &e.id {
            Some(id) => id.as_str(),
            None => {
                return None;
            },
        },
        _ => {
            return None;
        },
    };
    if str_eq(id, "fields") {
        Some(0)
    } else if str_eq(id, "variants") {
        Some(1)
    } else if str_eq(id, "associated-types") {
        Some(2)
    } else if str_eq(id, "required-methods") {
        Some(3)
    } else if str_eq(id, "implementations") {
        Some(4)
    } else if str_eq(id, "trait-implementations") {
        Some(5)
    } else if str_eq(id, "synthetic-implementations") {
        Some(6)
    } else if str_eq(id, "blanket-implementations") {
        Some(7)
    } else if str_eq(id, "foreign-impls") {
        Some(8)
    } else if str_eq(id, "implementors") {
        Some(9)
    } else {
        None
    }
}

fn is_allowed(shape: PageShape, g: usize) -> (r: bool)
    ensures
        r == allowed(shape, g as nat),
{
    match shape {
        PageShape::Struct => g == 0 || g == 4 || g == 5 || g == 6 || g == 7,
        PageShape::Enum => g == 1 || g == 5 || g == 6 || g == 7,
        PageShape::Primitive => g == 4 || g == 5 || g == 6 || g == 7,
        PageShape::Trait => g == 2 || g == 3 || g == 8 || g == 9,
    }
}

proof fn lemma_impls_unfold(
    dom: Dom,
    d: Cursor,
    w: Cursor,
    n: Option<Cursor>,
    im: ImplementationModel,
    nx: Option<Cursor>,
)
    requires
        dom.valid(d),
        unwrap_spec(dom, d) == Some(w),
        impl_spec(dom, w) == Some((n, im)),
        nx == skip_opt(dom, after_impl(dom, d, w, n)),
        dom.pos_of(nx) > dom.at(d),
        dom.pos_of(nx) <= dom.len(),
    ensures
        impls_run(dom, Some(d)) == match impls_run(dom, nx) {
            None => None,
            Some(rest) => Some(seq![im] + rest),
        },
{
    reveal(impls_run);
}

proof fn lemma_impls_end(dom: Dom)
    ensures
        impls_run(dom, None) == Some(Seq::<ImplementationModel>::empty()),
{
    reveal(impls_run);
}

proof fn lemma_impls_fail(dom: Dom, d: Cursor)
    requires
        dom.valid(d),
        unwrap_spec(dom, d) is None || impl_spec(dom, unwrap_spec(dom, d)->Some_0) is None,
    ensures
        impls_run(dom, Some(d)) is None,
{
    reveal(impls_run);
}

/// Reads the implementation block at `d` and finds where the next one starts.
#[verifier::spinoff_prover]
fn parse_impl_entry(dom: &Dom, d: Cursor) -> (r: Option<(Option<Cursor>, Implementation)>)
    requires
        dom.wf(),
        dom.valid(d),
    ensures
        r is None ==> impls_run(*dom, Some(d)) is None,
        r matches Some((nx, im)) ==> {
            &&& impls_run(*dom, Some(d)) == match impls_run(*dom, nx) {
                None => None,
                Some(rest) => Some(seq![im@] + rest),
            }
            &&& dom.pos_of(nx) > dom.at(d)
            &&& nx matches Some(x) ==> dom.valid(x)
        },
{
    proof {
        dom.lemma_next_advances(d);
        lemma_unwrap_advances(*dom, d);
    }
    let w = match skip_toggle_wrapper(dom, d) {
        None => {
            proof {
                lemma_impls_fail(*dom, d);
            }
            return None;
        },
        Some(w) => w,
    };
    match parse_implementation_forward(dom, w) {
        None => {
            proof {
                lemma_impls_fail(*dom, d);
            }
            None
        },
        Some((n, im)) => {
            proof {
                dom.lemma_next_advances(w);
            }
            let after = if w != d {
                dom.next_sibling(d)
            } else {
                match n {
                    Some(items) => {
                        proof {
                            dom.lemma_next_advances(items);
                        }
                        dom.next_sibling(items)
                    },
                    None => None,
                }
            };
            let nx = match after {
                Some(x) => {
                    proof {
                        lemma_skip_advances(*dom, x);
                    }
                    skip_uninformative(dom, x)
                },
                None => None,
            };
            proof {
                lemma_impls_unfold(*dom, d, w, n, im@, nx);
            }
            Some((nx, im))
        },
    }
}

/// Reads the implementation blocks from `start` on.
#[verifier::spinoff_prover]
pub fn parse_impls(dom: &Dom, start: Option<Cursor>) -> (r: Option<Vec<Implementation>>)
    requires
        dom.wf(),
        start matches Some(s) ==> dom.valid(s),
    ensures
        r is None <==> impls_run(*dom, start) is None,
        r matches Some(v) ==> impls_run(*dom, start) == Some(impls_view(v@)),
{
    let mut out: Vec<Implementation> = Vec::new();
    let mut cur = start;
    loop
        invariant
            dom.wf(),
            cur matches Some(s) ==> dom.valid(s),
            match impls_run(*dom, cur) {
                None => impls_run(*dom, start) is None,
                Some(rest) => impls_run(*dom, start) == Some(impls_view(out@) + rest),
            },
        decreases dom.len() - dom.pos_of(cur),
    {
        let d = match cur {
            None => {
                proof {
                    lemma_impls_end(*dom);
                    assert(impls_view(out@) + Seq::<ImplementationModel>::empty() =~= impls_view(out@));
                }
                return Some(out);
            },
            Some(d) => d,
        };
        match parse_impl_entry(dom, d) {
            None => {
                return None;
            },
            Some((nx, im)) => {
                let ghost iv = im@;
                let ghost before = impls_view(out@);
                out.push(im);
                proof {
                    assert(impls_view(out@) =~= before.push(iv));
                    if let Some(rest) = impls_run(*dom, nx) {
                        assert(before + (seq![iv] + rest) =~= before.push(iv) + rest);
                    }
                }
                cur = nx;
            },
        }
    }
}

fn add_items_exec(g: &mut Groups, k: usize, mut v: Vec<SimpleItem>)
    requires
        k <= 3,
    ensures
        final(g)@ == add_items(old(g)@, k as nat, items_view(v@)),
{
    let ghost v0 = v@;
    if k == 0 {
        proof { lemma_items_append(g.fields@, v0); }
        g.fields.append(&mut v);
    } else if k == 1 {
        proof { lemma_items_append(g.variants@, v0); }
        g.variants.append(&mut v);
    } else if k == 2 {
        proof { lemma_items_append(g.assoc_types@, v0); }
        g.assoc_types.append(&mut v);
    } else {
        proof { lemma_items_append(g.required@, v0); }
        g.required.append(&mut v);
    }
}

fn add_impls_exec(g: &mut Groups, k: usize, mut v: Vec<Implementation>)
    requires
        4 <= k <= 9,
    ensures
        final(g)@ == add_impls(old(g)@, k as nat, impls_view(v@)),
{
    let ghost v0 = v@;
    if k == 4 {
        proof { lemma_impls_append(g.methods@, v0); }
        g.methods.append(&mut v);
    } else if k == 5 {
        proof { lemma_impls_append(g.trait_impls@, v0); }
        g.trait_impls.append(&mut v);
    } else if k == 6 {
        proof { lemma_impls_append(g.auto_impls@, v0); }
        g.auto_impls.append(&mut v);
    } else if k == 7 {
        proof { lemma_impls_append(g.blanket@, v0); }
        g.blanket.append(&mut v);
    } else if k == 8 {
        proof { lemma_impls_append(g.foreigns@, v0); }
        g.foreigns.append(&mut v);
    } else {
        proof { lemma_impls_append(g.implementors@, v0); }
        g.implementors.append(&mut v);
    }
}

/// Reads the groups of a page of shape `shape` from header `start` on.
#[verifier::spinoff_prover]
pub fn parse_groups(dom: &Dom, start: Option<Cursor>, shape: PageShape) -> (r: Option<Groups>)
    requires
        dom.wf(),
        start matches Some(s) ==> dom.valid(s),
    ensures
        r is None <==> groups_run(*dom, start, shape, groups_init()) is None,
        r matches Some(g) ==> groups_run(*dom, start, shape, groups_init()) == Some(g@),
{
    let mut g = Groups::new();
    let mut cur = start;
    loop
        invariant
            dom.wf(),
            cur matches Some(s) ==> dom.valid(s),
            groups_run(*dom, cur, shape, g@) == groups_run(*dom, start, shape, groups_init()),
        decreases dom.len() - dom.pos_of(cur),
    {
        let h = match cur {
            None => {
                return Some(g);
            },
            Some(h) => h,
        };
        proof {
            dom.lemma_next_advances(h);
        }
        let k = match group_id(dom, dom.node_at(h)) {
            None => {
                return None;
            },
            Some(k) => k,
        };
        if !is_allowed(shape, k) {
            return None;
        }
        let body = match dom.next_sibling(h) {
            None => {
                return None;
            },
            Some(b) => b,
        };
        proof {
            dom.lemma_next_advances(body);
            dom.lemma_first_child(dom.at(body));
        }
        let first = match dom.first_child(dom.node_at(body)) {
            Some(f) => {
                proof {
                    lemma_skip_advances(*dom, f);
                }
                skip_uninformative(dom, f)
            },
            None => None,
        };
        if k <= 3 {
            match parse_items(dom, first, false) {
                None => {
                    return None;
                },
                Some((_, v)) => {
                    add_items_exec(&mut g, k, v);
                },
            }
        } else {
            match parse_impls(dom, first) {
                None => {
                    return None;
                },
                Some(v) => {
                    add_impls_exec(&mut g, k, v);
                },
            }
        }
        let nx = match dom.next_sibling(body) {
            Some(x) => {
                proof {
                    lemma_unwrap_advances(*dom, x);
                }
                skip_toggle_wrapper(dom, x)
            },
            None => None,
        };
        cur = nx;
    }
}

} // verus!
