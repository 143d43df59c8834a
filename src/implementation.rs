use vstd::prelude::*;
use crate::code::{code_of, parse_generic_code};
use crate::dom::{Cursor, Dom};
use crate::item::{
    SimpleItem, SimpleItemModel, lemma_item_advances, lemma_skip_advances, parse_simple_item_forward,
    simple_item_spec, skip_opt, skip_spec, skip_uninformative,
};
use crate::text::Code;

verus! {

/// One implementation block: its header, its associated types and its methods.
pub struct Implementation {
    pub impl_code: Code,
    pub methods: Vec<SimpleItem>,
    pub assoc_types: Vec<SimpleItem>,
}

pub struct ImplementationModel {
    pub impl_code: Seq<char>,
    pub methods: Seq<SimpleItemModel>,
    pub assoc_types: Seq<SimpleItemModel>,
}

pub open spec fn items_view(v: Seq<SimpleItem>) -> Seq<SimpleItemModel> {
    v.map_values(|x: SimpleItem| x@)
}

impl View for Implementation {
    type V = ImplementationModel;

    open spec fn view(&self) -> ImplementationModel {
        ImplementationModel {
            impl_code: self.impl_code@,
            methods: items_view(self.methods@),
            assoc_types: items_view(self.assoc_types@),
        }
    }
}

impl Implementation {
    pub fn impl_code(&self) -> (r: &Code)
        ensures
            r == &self.impl_code,
    {
        &self.impl_code
    }

    pub fn methods(&self) -> (r: &[SimpleItem])
        ensures
            r@ == self.methods@,
    {
        self.methods.as_slice()
    }

    pub fn associated_types(&self) -> (r: &[SimpleItem])
        ensures
            r@ == self.assoc_types@,
    {
        self.assoc_types.as_slice()
    }
}

/// Node `i` declares an associated type.
pub open spec fn is_assoc_type(dom: Dom, i: int) -> bool {
    dom.class_is(i, "type"@)
}

/// Reads items from `c` on, skipping decorations after each, until the end; with
/// `assoc_only`, stops at the first item that does not declare an associated
/// type. Gives where it stopped and the items, or `None` where an item has the
/// wrong shape.
pub open spec fn items_run(dom: Dom, c: Option<Cursor>, assoc_only: bool) -> Option<(Option<Cursor>, Seq<SimpleItemModel>)>
    decreases dom.len() - dom.pos_of(c),
{
    match c {
        None => Some((None, Seq::empty())),
        Some(d) => if !dom.valid(d) || (assoc_only && !is_assoc_type(dom, dom.at(d))) {
            Some((c, Seq::empty()))
        } else {
            match simple_item_spec(dom, d) {
                None => None,
                Some((n, it)) => {
                    let n2 = skip_opt(dom, n);
                    if dom.pos_of(n2) > dom.at(d) && dom.pos_of(n2) <= dom.len() {
                        match items_run(dom, n2, assoc_only) {
                            None => None,
                            Some((e, rest)) => Some((e, seq![it] + rest)),
                        }
                    } else {
                        Some((n2, seq![it]))
                    }
                },
            }
        },
    }
}

proof fn lemma_run_step(dom: Dom, d: Cursor)
    requires
        dom.wf(),
        dom.valid(d),
    ensures
        simple_item_spec(dom, d) matches Some((n, _)) ==> dom.pos_of(skip_opt(dom, n)) > dom.at(d) && dom.pos_of(
            skip_opt(dom, n),
        ) <= dom.len() && (skip_opt(dom, n) matches Some(x) ==> dom.valid(x)),
{
    lemma_item_advances(dom, d);
    dom.lemma_next_advances(d);
    if let Some((Some(n), _)) = simple_item_spec(dom, d) {
        lemma_skip_advances(dom, n);
    }
}

#[verifier::spinoff_prover]
pub(crate) fn parse_items(dom: &Dom, start: Option<Cursor>, assoc_only: bool) -> (r: Option<(Option<Cursor>, Vec<SimpleItem>)>)
    requires
        dom.wf(),
        start matches Some(s) ==> dom.valid(s),
    ensures
        r is None <==> items_run(*dom, start, assoc_only) is None,
        r matches Some((e, v)) ==> items_run(*dom, start, assoc_only) == Some((e, items_view(v@))),
        r matches Some((Some(e), _)) ==> dom.valid(e),
{
    let mut out: Vec<SimpleItem> = Vec::new();
    let mut cur = start;
    loop
        invariant
            dom.wf(),
            cur matches Some(s) ==> dom.valid(s),
            match items_run(*dom, cur, assoc_only) {
                None => items_run(*dom, start, assoc_only) is None,
                Some((e, rest)) => items_run(*dom, start, assoc_only) == Some((e, items_view(out@) + rest)),
            },
        decreases dom.len() - dom.pos_of(cur),
    {
        let d = match cur {
            None => {
                proof {
                    assert(items_view(out@) + Seq::<SimpleItemModel>::empty() =~= items_view(out@));
                }
                return Some((None, out));
            },
            Some(d) => d,
        };
        let di = dom.node_at(d);
        proof {
            dom.lemma_next_advances(d);
            lemma_run_step(*dom, d);
        }
        if assoc_only && !dom.class_equals(di, "type") {
            proof {
                assert(items_view(out@) + Seq::<SimpleItemModel>::empty() =~= items_view(out@));
            }
            return Some((cur, out));
        }
        match parse_simple_item_forward(dom, d) {
            None => {
                return None;
            },
            Some((n, item)) => {
                let ghost iv = item@;
                let n2 = match n {
                    Some(x) => skip_uninformative(dom, x),
                    None => None,
                };
                let ghost before = items_view(out@);
                out.push(item);
                proof {
                    assert(items_view(out@) =~= before.push(iv));
                    match items_run(*dom, n2, assoc_only) {
                        None => {},
                        Some((e, rest)) => {
                            assert(before + (seq![iv] + rest) =~= before.push(iv) + rest);
                        },
                    }
                }
                cur = n2;
            },
        }
    }
}

/// An implementation block whose header stands at `head`: the header's code
/// from its first child, then, in the sibling after it, associated types first
/// and methods after. Gives that sibling's position.
pub open spec fn impl_spec(dom: Dom, head: Cursor) -> Option<(Option<Cursor>, ImplementationModel)> {
    match dom.first_child_spec(dom.at(head)) {
        None => None,
        Some(fc) => {
            let code = code_of(dom, dom.at(fc));
            let next = dom.next_spec(head);
            let items = match next {
                Some(n) => dom.first_child_spec(dom.at(n)),
                None => None,
            };
            match items {
                None => Some((next, ImplementationModel { impl_code: code, methods: Seq::empty(), assoc_types: Seq::empty() })),
                Some(it) => match items_run(dom, skip_spec(dom, it), true) {
                    None => None,
                    Some((rest, assoc)) => match items_run(dom, rest, false) {
                        None => None,
                        Some((_, methods)) => Some(
                            (next, ImplementationModel { impl_code: code, methods, assoc_types: assoc }),
                        ),
                    },
                },
            }
        },
    }
}

pub fn parse_implementation_forward(dom: &Dom, head: Cursor) -> (r: Option<(Option<Cursor>, Implementation)>)
    requires
        dom.wf(),
        dom.valid(head),
    ensures
        r is None <==> impl_spec(*dom, head) is None,
        r matches Some((n, im)) ==> impl_spec(*dom, head) == Some((n, im@)),
        r matches Some((n, _)) ==> n == dom.next_spec(head),
        r matches Some((Some(n), _)) ==> dom.valid(n),
{
    let hi = dom.node_at(head);
    proof {
        dom.lemma_next_advances(head);
        dom.lemma_first_child(hi as int);
    }
    let fc = match dom.first_child(hi) {
        None => {
            return None;
        },
        Some(fc) => fc,
    };
    let impl_code = parse_generic_code(dom, dom.node_at(fc));
    let next = dom.next_sibling(head);
    let items = match next {
        Some(n) => {
            proof {
                dom.lemma_next_advances(n);
                dom.lemma_first_child(dom.at(n));
            }
            dom.first_child(dom.node_at(n))
        },
        None => None,
    };
    match items {
        None => {
            let im = Implementation { impl_code, methods: Vec::new(), assoc_types: Vec::new() };
            proof {
                assert(items_view(im.methods@) =~= Seq::empty());
                assert(items_view(im.assoc_types@) =~= Seq::empty());
            }
            Some((next, im))
        },
        Some(it) => {
            proof {
                lemma_skip_advances(*dom, it);
            }
            let first = skip_uninformative(dom, it);
            match parse_items(dom, first, true) {
                None => None,
                Some((rest, assoc_types)) => match parse_items(dom, rest, false) {
                    None => None,
                    Some((_, methods)) => Some((next, Implementation { impl_code, methods, assoc_types })),
                },
            }
        },
    }
}

} // verus!
