use paradocs::{
    all_items_url, get_docs_rs_url, index_url, linked_url, module_url, parse_document,
    parse_implementation_forward, parse_marks_forward, parse_summary_forward, skip_toggle_wrapper,
    skip_uninformative, split_path, Cursor, Declared, Dom, DocumentKind, Element, ItemContainer,
    ItemKind, NodeData,
};

fn el(dom: &mut Dom, parent: usize, name: &str, id: Option<&str>, class: Option<&str>) -> usize {
    dom.append(
        parent,
        NodeData::Element(Element {
            name: name.to_string(),
            id: id.map(|s| s.to_string()),
            class: class.map(|s| s.to_string()),
            href: None,
        }),
    )
}

fn txt(dom: &mut Dom, parent: usize, s: &str) -> usize {
    dom.append(parent, NodeData::Text(s.to_string()))
}

#[test]
fn docs_rs_addresses() {
    assert_eq!(get_docs_rs_url("tokio", "tokio"), "https://docs.rs/tokio/*/tokio");
    assert_eq!(index_url("https://docs.rs/a/*/a"), "https://docs.rs/a/*/a/index.html");
    assert_eq!(all_items_url("https://docs.rs/a/*/a"), "https://docs.rs/a/*/a/all.html");
    assert_eq!(linked_url("u", "struct.X.html"), "u/struct.X.html");
    assert_eq!(module_url("u", "net::tcp"), "u/net/tcp");
    assert_eq!(module_url("u", "fs"), "u/fs");
    assert_eq!(module_url("u", "a:::b"), "u/a/:b");
}

#[test]
fn paths_split_at_first_separator() {
    assert_eq!(split_path("tokio"), ("tokio".to_string(), None));
    assert_eq!(split_path("tokio::net::TcpStream"), ("tokio".to_string(), Some("net::TcpStream".to_string())));
    assert_eq!(split_path("a::"), ("a".to_string(), Some(String::new())));
}

#[test]
fn marks_stop_at_first_plain_sibling() {
    let mut dom = Dom::new();
    let s = el(&mut dom, 0, "div", None, Some("stab deprecated"));
    txt(&mut dom, s, "Deprecated since 1.0");
    let f = el(&mut dom, 0, "div", None, Some("stab portability"));
    txt(&mut dom, f, "Unix only");
    el(&mut dom, 0, "div", None, Some("docblock"));
    let (next, mark) = parse_marks_forward(&dom, Cursor { parent: 0, pos: 0 });
    assert_eq!(next, Some(Cursor { parent: 0, pos: 2 }));
    assert_eq!(mark.deprecated(), "Deprecated since 1.0");
    assert_eq!(mark.features(), "Unix only");
    assert_eq!(mark.stability(), "");
    let (next, mark) = parse_marks_forward(&dom, Cursor { parent: 0, pos: 2 });
    assert_eq!(next, Some(Cursor { parent: 0, pos: 2 }));
    assert_eq!((mark.stability(), mark.features(), mark.deprecated()), ("", "", ""));
}

#[test]
fn wrappers_and_decorations() {
    let mut dom = Dom::new();
    let w = el(&mut dom, 0, "details", None, Some("toggle-wrapper"));
    let inner = el(&mut dom, w, "summary", None, None);
    el(&mut dom, 0, "a", None, Some("collapse-toggle"));
    el(&mut dom, 0, "h4", None, Some("method"));
    el(&mut dom, 0, "details", None, Some("toggle-wrapper"));
    assert_eq!(skip_toggle_wrapper(&dom, Cursor { parent: 0, pos: 0 }), Some(Cursor { parent: w, pos: 0 }));
    assert_eq!(dom.node_at(Cursor { parent: w, pos: 0 }), inner);
    assert_eq!(skip_toggle_wrapper(&dom, Cursor { parent: 0, pos: 2 }), Some(Cursor { parent: 0, pos: 2 }));
    assert_eq!(skip_toggle_wrapper(&dom, Cursor { parent: 0, pos: 3 }), None);
    assert_eq!(skip_uninformative(&dom, Cursor { parent: 0, pos: 1 }), Some(Cursor { parent: 0, pos: 2 }));
    assert_eq!(skip_uninformative(&dom, Cursor { parent: 0, pos: 2 }), Some(Cursor { parent: 0, pos: 2 }));
}

#[test]
fn implementation_reads_types_before_methods() {
    let mut dom = Dom::new();
    let head = el(&mut dom, 0, "div", None, Some("impl"));
    let code = el(&mut dom, head, "code", None, None);
    txt(&mut dom, code, "impl Iterator for I");
    let items = el(&mut dom, 0, "div", None, Some("impl-items"));
    el(&mut dom, items, "a", None, Some("collapse-toggle"));
    let t = el(&mut dom, items, "h4", None, Some("type"));
    txt(&mut dom, t, "type Item = u8");
    let m = el(&mut dom, items, "h4", None, Some("method"));
    txt(&mut dom, m, "fn next(&mut self)");
    el(&mut dom, items, "a", None, Some("collapse-toggle"));
    let m2 = el(&mut dom, items, "h4", None, Some("method"));
    txt(&mut dom, m2, "fn count(self)");
    let (next, im) = parse_implementation_forward(&dom, Cursor { parent: 0, pos: 0 }).unwrap();
    assert_eq!(next, Some(Cursor { parent: 0, pos: 1 }));
    assert_eq!(im.impl_code(), "impl Iterator for I");
    assert_eq!(im.associated_types().len(), 1);
    assert_eq!(im.associated_types()[0].declaration(), "type Item = u8");
    let ms: Vec<&str> = im.methods().iter().map(|m| m.declaration().as_str()).collect();
    assert_eq!(ms, vec!["fn next(&mut self)", "fn count(self)"]);
}

#[test]
fn implementation_without_header_child_is_a_mismatch() {
    let mut dom = Dom::new();
    el(&mut dom, 0, "div", None, Some("impl"));
    assert!(parse_implementation_forward(&dom, Cursor { parent: 0, pos: 0 }).is_none());
}

#[test]
fn summary_rows_without_summary_are_dropped() {
    let mut dom = Dom::new();
    let h = el(&mut dom, 0, "h2", Some("functions"), None);
    txt(&mut dom, h, "Functions");
    let table = el(&mut dom, 0, "table", None, None);
    let tr = el(&mut dom, table, "tr", None, None);
    let td = el(&mut dom, tr, "td", None, None);
    txt(&mut dom, td, "spawn");
    let td2 = el(&mut dom, tr, "td", None, None);
    txt(&mut dom, td2, "Spawns.");
    let tr = el(&mut dom, table, "tr", None, None);
    let only = el(&mut dom, tr, "td", None, Some("unstable"));
    txt(&mut dom, only, "lonely");
    let (next, sec) = parse_summary_forward(&dom, Cursor { parent: 0, pos: 0 }).unwrap();
    assert_eq!(next, None);
    assert_eq!(sec.item_type(), ItemKind::Function);
    assert_eq!(sec.content().len(), 1);
    assert_eq!(sec.content()[0].name(), "spawn");
    assert_eq!(sec.content()[0].summary().components()[0].text(), "Spawns.");
}

#[test]
fn summary_header_without_table_is_a_mismatch() {
    let mut dom = Dom::new();
    let h = el(&mut dom, 0, "h2", Some("macros"), None);
    txt(&mut dom, h, "Macros");
    el(&mut dom, 0, "div", None, None);
    assert!(parse_summary_forward(&dom, Cursor { parent: 0, pos: 0 }).is_none());
}

#[test]
fn module_page_with_two_export_tables_keeps_both_in_order() {
    let mut dom = Dom::new();
    let main = el(&mut dom, 0, "div", Some("main"), None);
    let fqn = el(&mut dom, main, "h1", None, Some("fqn"));
    txt(&mut dom, fqn, "Module m");
    for decl in ["pub use z;", "pub use a;"] {
        el(&mut dom, main, "h2", Some("reexports"), None);
        let table = el(&mut dom, main, "table", None, None);
        let tr = el(&mut dom, table, "tr", None, None);
        let td = el(&mut dom, tr, "td", None, None);
        let c = el(&mut dom, td, "code", None, None);
        txt(&mut dom, c, decl);
    }
    let d = parse_document(&dom).unwrap();
    assert_eq!(d.title(), "Module m");
    match d.kind() {
        DocumentKind::Module(m) => {
            assert!(m.sub_item().is_empty());
            let ex: Vec<&str> = paradocs::Exportable::re_exports(m).iter().map(|e| e.declaration().as_str()).collect();
            assert_eq!(ex, vec!["pub use z;", "pub use a;"]);
        }
        _ => panic!("expected a module"),
    }
}

#[test]
fn title_word_after_leading_spaces_counts() {
    let mut dom = Dom::new();
    let main = el(&mut dom, 0, "div", Some("main"), None);
    let fqn = el(&mut dom, main, "h1", None, Some("fqn"));
    txt(&mut dom, fqn, "  Keyword\tasync");
    let d = parse_document(&dom).unwrap();
    assert!(matches!(d.kind(), DocumentKind::Keyword));
    assert_eq!(d.title(), "  Keyword\tasync");
}
