pub mod access;
pub mod code;
pub mod docblock;
pub mod document;
pub mod dom;
pub mod groups;
pub mod implementation;
pub mod item;
pub mod mark;
pub mod reexport;
pub mod sections;
pub mod strs;
pub mod styled;
pub mod summary;
pub mod text;
pub mod url;

pub use access::{Declared, Described, Exportable, Implementable, ItemContainer, Marked};
pub use code::parse_generic_code;
pub use docblock::parse_docblock;
pub use document::{Document, DocumentKind, Enum, Module, Primitive, Struct, Trait, parse_document};
pub use dom::{Cursor, Dom, Element, Node, NodeData};
pub use implementation::{Implementation, parse_implementation_forward};
pub use item::{SimpleItem, parse_simple_item_forward, skip_toggle_wrapper, skip_uninformative};
pub use mark::{Mark, parse_marks_forward};
pub use reexport::{ExportItem, parse_exports_forward};
pub use sections::{Block, SectionBuilder};
pub use styled::parse_text;
pub use summary::{ItemKind, ItemSummary, SummarySection, parse_summary_forward};
pub use text::{Code, Paragraph, Section, Text, TextComponent};
pub use url::{all_items_url, get_docs_rs_url, index_url, linked_url, module_url, split_path};
