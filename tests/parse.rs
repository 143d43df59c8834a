use paradocs::{
    Cursor, Declared, Described, Dom, DocumentKind, Element, Exportable, Implementable, ItemContainer,
    ItemKind, Marked, NodeData, Paragraph, Section, Text, parse_docblock, parse_document, parse_text,
};

fn el(dom: &mut Dom, parent: usize, name: &str, id: Option<&str>, class: Option<&str>) -> usize {
    dom.append(
        parent,
        NodeData::Element(Element {
            name: name.to_string(),
            id: id.map(|s| s.to_string()),
            class: class.map(|s| s.to_string()),
            href: None,
        }),
    )
}

fn link(dom: &mut Dom, parent: usize, href: &str) -> usize {
    dom.append(
        parent,
        NodeData::Element(Element {
            name: "a".to_string(),
            id: None,
            class: None,
            href: Some(href.to_string()),
        }),
    )
}

fn txt(dom: &mut Dom, parent: usize, s: &str) -> usize {
    dom.append(parent, NodeData::Text(s.to_string()))
}

fn plain(t: &Text) -> String {
    t.components().iter().map(|c| c.text()).collect::<Vec<_>>().join("")
}

fn title_of(s: &Section) -> Option<String> {
    s.title().map(plain)
}

fn leaf_text(p: &Paragraph) -> String {
    match p {
        Paragraph::Text(t) => plain(t),
        _ => panic!("not a text paragraph"),
    }
}

/// A page skeleton: root > html > div#main > h1.fqn > span "title".
/// Returns the dom and the index of the main element.
fn page(title: &str) -> (Dom, usize) {
    let mut dom = Dom::new();
    let html = el(&mut dom, 0, "html", None, None);
    let main = el(&mut dom, html, "div", Some("main"), None);
    let fqn = el(&mut dom, main, "h1", None, Some("fqn"));
    let span = el(&mut dom, fqn, "span", None, Some("in-band"));
    txt(&mut dom, span, title);
    (dom, main)
}

#[test]
fn text_runs_keep_styles_and_links() {
    let mut dom = Dom::new();
    let p = el(&mut dom, 0, "p", None, None);
    txt(&mut dom, p, "a ");
    let strong = el(&mut dom, p, "strong", None, None);
    let em = el(&mut dom, strong, "em", None, None);
    txt(&mut dom, em, "b");
    txt(&mut dom, p, " ");
    let code = el(&mut dom, p, "code", None, None);
    txt(&mut dom, code, "x");
    let inner = el(&mut dom, code, "code", None, None);
    txt(&mut dom, inner, "y");
    txt(&mut dom, code, "z");
    let a = link(&mut dom, p, "https://example.org");
    txt(&mut dom, a, "l");
    let t = parse_text(&dom, p);
    let cs = t.components();
    assert_eq!(cs.len(), 7);
    assert_eq!(cs[0].text(), "a ");
    assert!(!cs[0].is_bold() && !cs[0].is_italic() && !cs[0].is_code());
    assert_eq!(cs[1].text(), "b");
    assert!(cs[1].is_bold() && cs[1].is_italic());
    assert!(!cs[2].is_bold());
    assert!(cs[3].is_code() && cs[4].is_code());
    assert_eq!(cs[5].text(), "z");
    assert!(cs[5].is_code());
    assert_eq!(cs[6].link(), Some("https://example.org"));
    assert_eq!(cs[5].link(), None);
}

#[test]
fn text_round_trip_gives_text_contents() {
    let mut dom = Dom::new();
    let p = el(&mut dom, 0, "p", None, None);
    txt(&mut dom, p, "one ");
    let em = el(&mut dom, p, "em", None, None);
    txt(&mut dom, em, "two");
    let a = link(&mut dom, em, "#x");
    txt(&mut dom, a, " three");
    let t = parse_text(&dom, p);
    assert_eq!(plain(&t), "one two three");
    assert_eq!(dom.text_contents(p), "one two three");
    assert_eq!(t.components().len(), 3);
}

#[test]
fn headings_fold_into_section_tree() {
    let mut dom = Dom::new();
    let d = el(&mut dom, 0, "div", None, Some("docblock"));
    for (tag, s) in [("h1", "A"), ("p", "x"), ("h2", "B"), ("p", "y"), ("h1", "C"), ("p", "z")] {
        let n = el(&mut dom, d, tag, None, None);
        txt(&mut dom, n, s);
    }
    let secs = parse_docblock(&dom, d).unwrap();
    assert_eq!(secs.len(), 2);
    assert_eq!(title_of(&secs[0]).as_deref(), Some("A"));
    assert_eq!(secs[0].content().len(), 2);
    assert_eq!(leaf_text(&secs[0].content()[0]), "x");
    match &secs[0].content()[1] {
        Paragraph::SubSection(b) => {
            assert_eq!(title_of(b).as_deref(), Some("B"));
            assert_eq!(b.content().len(), 1);
            assert_eq!(leaf_text(&b.content()[0]), "y");
        }
        _ => panic!("expected a nested section"),
    }
    assert_eq!(title_of(&secs[1]).as_deref(), Some("C"));
    assert_eq!(secs[1].content().len(), 1);
    assert_eq!(leaf_text(&secs[1].content()[0]), "z");
}

#[test]
fn content_before_any_heading_forms_untitled_section() {
    let mut dom = Dom::new();
    let d = el(&mut dom, 0, "div", None, None);
    let p = el(&mut dom, d, "p", None, None);
    txt(&mut dom, p, "intro");
    let h3 = el(&mut dom, d, "h3", None, None);
    txt(&mut dom, h3, "Deep");
    let p2 = el(&mut dom, d, "p", None, None);
    txt(&mut dom, p2, "body");
    let secs = parse_docblock(&dom, d).unwrap();
    assert_eq!(secs.len(), 1);
    assert!(secs[0].title().is_none());
    assert_eq!(leaf_text(&secs[0].content()[0]), "intro");
    match &secs[0].content()[1] {
        Paragraph::SubSection(b) => {
            assert_eq!(title_of(b).as_deref(), Some("Deep"));
            assert_eq!(leaf_text(&b.content()[0]), "body");
        }
        _ => panic!("expected a nested section"),
    }
}

#[test]
fn empty_description_has_no_sections() {
    let mut dom = Dom::new();
    let d = el(&mut dom, 0, "div", None, None);
    assert_eq!(parse_docblock(&dom, d).unwrap().len(), 0);
}

#[test]
fn code_blocks_lists_and_invalid_code() {
    let mut dom = Dom::new();
    let d = el(&mut dom, 0, "div", None, None);
    let pre = el(&mut dom, d, "pre", None, None);
    txt(&mut dom, pre, "let a = 1;");
    let wrap = el(&mut dom, d, "div", None, Some("example-wrap"));
    let pre2 = el(&mut dom, wrap, "pre", None, Some("rust ignore"));
    txt(&mut dom, pre2, "broken(");
    let ul = el(&mut dom, d, "ul", None, None);
    let li = el(&mut dom, ul, "li", None, None);
    txt(&mut dom, li, "first");
    el(&mut dom, ul, "li", None, None);
    let li3 = el(&mut dom, ul, "li", None, None);
    txt(&mut dom, li3, "third");
    let secs = parse_docblock(&dom, d).unwrap();
    assert_eq!(secs.len(), 1);
    let c = secs[0].content();
    assert_eq!(c.len(), 3);
    assert!(matches!(&c[0], Paragraph::Code(s) if s == "let a = 1;"));
    assert!(matches!(&c[1], Paragraph::InvalidCode(s) if s == "broken("));
    match &c[2] {
        Paragraph::List(items) => {
            assert_eq!(items.len(), 2);
            assert_eq!(plain(&items[0]), "first");
            assert_eq!(plain(&items[1]), "third");
        }
        _ => panic!("expected a list"),
    }
}

#[test]
fn code_wrapper_without_class_is_a_mismatch() {
    let mut dom = Dom::new();
    let d = el(&mut dom, 0, "div", None, None);
    let wrap = el(&mut dom, d, "div", None, None);
    let pre = el(&mut dom, wrap, "pre", None, None);
    txt(&mut dom, pre, "x");
    assert!(parse_docblock(&dom, d).is_none());
}

fn crate_page() -> Dom {
    let (mut dom, main) = page("Crate tokio");
    let doc = el(&mut dom, main, "div", None, Some("docblock"));
    let p = el(&mut dom, doc, "p", None, None);
    txt(&mut dom, p, "A runtime.");
    let h = el(&mut dom, main, "h2", Some("reexports"), Some("section-header"));
    txt(&mut dom, h, "Re-exports");
    let table = el(&mut dom, main, "table", None, None);
    for decl in ["pub use a::Z;", "pub use b::A;"] {
        let tr = el(&mut dom, table, "tr", None, None);
        let td = el(&mut dom, tr, "td", None, None);
        let code = el(&mut dom, td, "code", None, None);
        txt(&mut dom, code, decl);
    }
    for (id, names) in [("structs", vec!["Zeta", "Alpha"]), ("modules", vec!["net"])] {
        let h = el(&mut dom, main, "h2", Some(id), Some("section-header"));
        txt(&mut dom, h, id);
        let table = el(&mut dom, main, "table", None, None);
        for n in names {
            let tr = el(&mut dom, table, "tr", None, None);
            let td1 = el(&mut dom, tr, "td", None, None);
            txt(&mut dom, td1, n);
            let td2 = el(&mut dom, tr, "td", None, Some("docblock-short"));
            txt(&mut dom, td2, "Summary of ");
            let c = el(&mut dom, td2, "code", None, None);
            txt(&mut dom, c, n);
        }
    }
    dom
}

#[test]
fn crate_page_keeps_page_order() {
    let dom = crate_page();
    assert!(dom.is_well_formed());
    let doc = parse_document(&dom).unwrap();
    assert_eq!(doc.title(), "Crate tokio");
    assert_eq!(doc.description().len(), 1);
    assert_eq!(doc.mark().stability(), "");
    match doc.kind() {
        DocumentKind::Crate(m) => {
            let ex: Vec<&str> = m.re_exports().iter().map(|e| e.declaration().as_str()).collect();
            assert_eq!(ex, vec!["pub use a::Z;", "pub use b::A;"]);
            let secs = m.sub_item();
            assert_eq!(secs.len(), 2);
            assert_eq!(secs[0].item_type(), ItemKind::Struct);
            assert_eq!(secs[1].item_type(), ItemKind::Module);
            let names: Vec<&str> = secs[0].content().iter().map(|s| s.name()).collect();
            assert_eq!(names, vec!["Zeta", "Alpha"]);
            let s = secs[0].content()[0].summary();
            assert_eq!(plain(s), "Summary of Zeta");
            assert!(s.components()[1].is_code());
            assert_eq!(secs[0].content()[0].attribute().features(), "");
        }
        _ => panic!("expected a crate"),
    }
}

#[test]
fn unknown_title_word_gives_none() {
    let (mut dom, main) = page("Gadget thing");
    let doc = el(&mut dom, main, "div", None, Some("docblock"));
    let p = el(&mut dom, doc, "p", None, None);
    txt(&mut dom, p, "text");
    assert!(parse_document(&dom).is_none());
}

#[test]
fn page_without_main_gives_none() {
    let mut dom = Dom::new();
    let body = el(&mut dom, 0, "body", None, None);
    let h = el(&mut dom, body, "h1", None, Some("fqn"));
    txt(&mut dom, h, "Crate x");
    assert!(parse_document(&dom).is_none());
}

#[test]
fn unknown_summary_header_fails_whole_parse() {
    let (mut dom, main) = page("Module tokio::fs");
    let doc = el(&mut dom, main, "div", None, Some("docblock"));
    txt(&mut dom, doc, "");
    let h = el(&mut dom, main, "h2", Some("gizmos"), None);
    txt(&mut dom, h, "Gizmos");
    el(&mut dom, main, "table", None, None);
    assert!(parse_document(&dom).is_none());
}

#[test]
fn module_page_without_content_is_empty() {
    let (dom, _) = page("Module tokio::fs");
    let doc = parse_document(&dom).unwrap();
    assert_eq!(doc.title(), "Module tokio::fs");
    match doc.kind() {
        DocumentKind::Module(m) => {
            assert!(m.re_exports().is_empty());
            assert!(m.sub_item().is_empty());
        }
        _ => panic!("expected a module"),
    }
    assert_eq!(doc.mark().deprecated(), "");
    assert!(doc.description().is_empty());
}

#[test]
fn function_page_reads_declaration_marks_and_description() {
    let (mut dom, main) = page("Function tokio::spawn");
    let pre = el(&mut dom, main, "pre", None, Some("rust fn"));
    txt(&mut dom, pre, "pub fn spawn<T>(task: T)");
    el(&mut dom, pre, "br", None, None);
    txt(&mut dom, pre, "where T: Send");
    let nl = el(&mut dom, pre, "span", None, Some("where fmt-newline"));
    txt(&mut dom, nl, "{}");
    let st = el(&mut dom, main, "div", None, Some("stab unstable"));
    txt(&mut dom, st, "Experimental");
    let port = el(&mut dom, main, "div", None, Some("stab portability"));
    txt(&mut dom, port, "Available on rt only.");
    let doc = el(&mut dom, main, "div", None, Some("docblock"));
    let p = el(&mut dom, doc, "p", None, None);
    txt(&mut dom, p, "Spawns a task.");
    let d = parse_document(&dom).unwrap();
    match d.kind() {
        DocumentKind::Function(code) => {
            assert_eq!(code, "pub fn spawn<T>(task: T)\nwhere T: Send\n{}");
        }
        _ => panic!("expected a function"),
    }
    assert_eq!(d.mark().stability(), "Experimental");
    assert_eq!(d.mark().features(), "Available on rt only.");
    assert_eq!(d.mark().deprecated(), "");
    assert_eq!(leaf_text(&d.description()[0].content()[0]), "Spawns a task.");
}

#[test]
fn declared_page_without_declaration_gives_none() {
    let (dom, _) = page("Macro tokio::select");
    assert!(parse_document(&dom).is_none());
}

#[test]
fn keyword_page_has_no_declaration() {
    let (mut dom, main) = page("Keyword async");
    let doc = el(&mut dom, main, "div", None, Some("docblock"));
    let p = el(&mut dom, doc, "p", None, None);
    txt(&mut dom, p, "Returns a Future.");
    let d = parse_document(&dom).unwrap();
    assert!(matches!(d.kind(), DocumentKind::Keyword));
    assert_eq!(d.description().len(), 1);
}

/// An implementation block: wrapper > (summary > div.impl > h3 code, div.impl-items).
fn impl_block(dom: &mut Dom, parent: usize, header: &str, items: &[(&str, bool)]) {
    let det = el(dom, parent, "details", None, Some("toggle-wrapper"));
    let summ = el(dom, det, "summary", None, None);
    let imp = el(dom, summ, "div", None, Some("impl"));
    txt(dom, imp, header);
    let list = el(dom, det, "div", None, Some("impl-items"));
    for (decl, is_type) in items {
        let class = if *is_type { "type" } else { "method" };
        let h = el(dom, list, "h4", None, Some(class));
        txt(dom, h, decl);
        let doc = el(dom, list, "div", None, Some("docblock"));
        let p = el(dom, doc, "p", None, None);
        txt(dom, p, "doc");
    }
}

#[test]
fn struct_page_groups_fields_and_impls() {
    let (mut dom, main) = page("Struct tokio::net::TcpStream");
    let decl = el(&mut dom, main, "pre", None, Some("rust struct"));
    txt(&mut dom, decl, "pub struct TcpStream { /* fields omitted */ }");
    let doc = el(&mut dom, main, "div", None, Some("docblock"));
    let p = el(&mut dom, doc, "p", None, None);
    txt(&mut dom, p, "A TCP stream.");
    let h = el(&mut dom, main, "h2", Some("fields"), None);
    txt(&mut dom, h, "Fields");
    let body = el(&mut dom, main, "div", None, None);
    let f = el(&mut dom, body, "span", None, Some("structfield"));
    txt(&mut dom, f, "inner: Inner");
    let fd = el(&mut dom, body, "div", None, Some("docblock"));
    let fp = el(&mut dom, fd, "p", None, None);
    txt(&mut dom, fp, "The inner stream.");
    let h = el(&mut dom, main, "h2", Some("implementations"), None);
    txt(&mut dom, h, "Implementations");
    let body = el(&mut dom, main, "div", None, None);
    impl_block(&mut dom, body, "impl TcpStream", &[("pub fn peek(&self)", false)]);
    let h = el(&mut dom, main, "h2", Some("trait-implementations"), None);
    txt(&mut dom, h, "Trait Implementations");
    let body = el(&mut dom, main, "div", None, None);
    impl_block(
        &mut dom,
        body,
        "impl AsyncRead for TcpStream",
        &[("type Output", true), ("fn poll_read()", false)],
    );
    impl_block(&mut dom, body, "impl Debug for TcpStream", &[("fn fmt()", false)]);
    let d = parse_document(&dom).unwrap();
    match d.kind() {
        DocumentKind::Struct(s) => {
            assert_eq!(s.declaration(), "pub struct TcpStream { /* fields omitted */ }");
            assert_eq!(s.fields().len(), 1);
            assert_eq!(s.fields()[0].declaration(), "inner: Inner");
            assert_eq!(leaf_text(&s.fields()[0].description()[0].content()[0]), "The inner stream.");
            assert_eq!(s.methods().len(), 1);
            assert_eq!(s.methods()[0].impl_code(), "impl TcpStream");
            assert_eq!(s.methods()[0].methods().len(), 1);
            assert_eq!(s.trait_impls().len(), 2);
            let r = &s.trait_impls()[0];
            assert_eq!(r.impl_code(), "impl AsyncRead for TcpStream");
            assert_eq!(r.associated_types().len(), 1);
            assert_eq!(r.associated_types()[0].declaration(), "type Output");
            assert_eq!(r.methods().len(), 1);
            assert_eq!(r.methods()[0].declaration(), "fn poll_read()");
            assert_eq!(s.trait_impls()[1].impl_code(), "impl Debug for TcpStream");
            assert!(s.auto_impls().is_empty());
            assert!(s.blanket_impls().is_empty());
        }
        _ => panic!("expected a struct"),
    }
}

#[test]
fn variants_header_on_struct_page_is_a_mismatch() {
    let (mut dom, main) = page("Struct a::B");
    let decl = el(&mut dom, main, "pre", None, None);
    txt(&mut dom, decl, "pub struct B;");
    let doc = el(&mut dom, main, "div", None, Some("docblock"));
    txt(&mut dom, doc, "");
    let h = el(&mut dom, main, "h2", Some("variants"), None);
    txt(&mut dom, h, "Variants");
    el(&mut dom, main, "div", None, None);
    assert!(parse_document(&dom).is_none());
}

#[test]
fn enum_and_trait_pages() {
    let (mut dom, main) = page("Enum tokio::io::ErrorKind");
    let decl = el(&mut dom, main, "pre", None, None);
    txt(&mut dom, decl, "pub enum ErrorKind { NotFound }");
    let doc = el(&mut dom, main, "div", None, Some("docblock"));
    txt(&mut dom, doc, "");
    let h = el(&mut dom, main, "h2", Some("variants"), None);
    txt(&mut dom, h, "Variants");
    let body = el(&mut dom, main, "div", None, None);
    let v = el(&mut dom, body, "div", None, Some("variant"));
    txt(&mut dom, v, "NotFound");
    let vd = el(&mut dom, body, "div", None, Some("docblock"));
    txt(&mut dom, vd, "");
    let d = parse_document(&dom).unwrap();
    match d.kind() {
        DocumentKind::Enum(e) => {
            assert_eq!(e.declaration(), "pub enum ErrorKind { NotFound }");
            assert_eq!(e.variants().len(), 1);
            assert_eq!(e.variants()[0].declaration(), "NotFound");
        }
        _ => panic!("expected an enum"),
    }

    let (mut dom, main) = page("Trait tokio::io::AsyncReadExt");
    let decl = el(&mut dom, main, "pre", None, None);
    txt(&mut dom, decl, "pub trait AsyncReadExt");
    let doc = el(&mut dom, main, "div", None, Some("docblock"));
    txt(&mut dom, doc, "");
    let h = el(&mut dom, main, "h2", Some("implementors"), None);
    txt(&mut dom, h, "Implementors");
    let body = el(&mut dom, main, "div", None, None);
    impl_block(&mut dom, body, "impl<R> AsyncReadExt for R", &[]);
    let d = parse_document(&dom).unwrap();
    match d.kind() {
        DocumentKind::Trait(t) => {
            assert_eq!(t.declaration(), "pub trait AsyncReadExt");
            assert_eq!(t.implementors().len(), 1);
            assert_eq!(t.implementors()[0].impl_code(), "impl<R> AsyncReadExt for R");
            assert!(t.required_methods().is_empty());
            assert!(t.associated_types().is_empty());
            assert!(t.foreign_implementations().is_empty());
        }
        _ => panic!("expected a trait"),
    }
}

#[test]
fn primitive_page_reads_methods() {
    let (mut dom, main) = page("Primitive Type u8");
    let h = el(&mut dom, main, "h2", Some("implementations"), None);
    txt(&mut dom, h, "Implementations");
    let body = el(&mut dom, main, "div", None, None);
    impl_block(&mut dom, body, "impl u8", &[("pub fn is_ascii(&self)", false)]);
    let d = parse_document(&dom).unwrap();
    match d.kind() {
        DocumentKind::Primitive(p) => {
            assert_eq!(p.methods().len(), 1);
            assert_eq!(p.methods()[0].methods()[0].declaration(), "pub fn is_ascii(&self)");
        }
        _ => panic!("expected a primitive"),
    }
}

#[test]
fn cursors_and_well_formedness() {
    let mut dom = Dom::new();
    let a = el(&mut dom, 0, "p", None, None);
    let b = el(&mut dom, 0, "p", None, None);
    assert!(dom.is_well_formed());
    assert_eq!(dom.next_sibling(Cursor { parent: 0, pos: 0 }), Some(Cursor { parent: 0, pos: 1 }));
    assert_eq!(dom.next_sibling(Cursor { parent: 0, pos: 1 }), None);
    assert_eq!(dom.node_at(Cursor { parent: 0, pos: 1 }), b);
    assert!(a < b);
    dom.nodes[0].children.push(0);
    assert!(!dom.is_well_formed());
}
