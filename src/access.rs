use vstd::prelude::*;
use crate::document::{Document, DocumentKind, Enum, Module, Primitive, Struct, Trait};
use crate::implementation::Implementation;
use crate::item::SimpleItem;
use crate::mark::Mark;
use crate::reexport::ExportItem;
use crate::summary::SummarySection;
use crate::text::{Code, Paragraph, Section, Text, TextComponent};

verus! {

/// Has a description.
pub trait Described {
    fn description(&self) -> &[Section];
}

/// Lists re-exports.
pub trait Exportable {
    fn re_exports(&self) -> &[ExportItem];
}

/// Lists summaries of child items.
pub trait ItemContainer {
    fn sub_item(&self) -> &[SummarySection];
}

/// Has a declaration.
pub trait Declared {
    fn declaration(&self) -> &Code;
}

/// Has implementation blocks, in three groups.
pub trait Implementable {
    fn trait_impls(&self) -> &[Implementation];

    fn auto_impls(&self) -> &[Implementation];

    fn blanket_impls(&self) -> &[Implementation];
}

/// Has stability, feature and deprecation notes.
pub trait Marked {
    fn mark(&self) -> &Mark;
}

impl Described for SimpleItem {
    fn description(&self) -> &[Section] {
        self.description.as_slice()
    }
}

impl Marked for SimpleItem {
    fn mark(&self) -> &Mark {
        &self.mark
    }
}

impl Declared for SimpleItem {
    fn declaration(&self) -> &Code {
        &self.declaration
    }
}

impl Described for Document {
    fn description(&self) -> &[Section] {
        self.description.as_slice()
    }
}

impl Marked for Document {
    fn mark(&self) -> &Mark {
        &self.mark
    }
}

impl Exportable for Module {
    fn re_exports(&self) -> &[ExportItem] {
        self.re_exports.as_slice()
    }
}

impl ItemContainer for Module {
    fn sub_item(&self) -> &[SummarySection] {
        self.sub_item.as_slice()
    }
}

impl Declared for ExportItem {
    fn declaration(&self) -> &Code {
        &self.0
    }
}

impl Declared for Struct {
    fn declaration(&self) -> &Code {
        &self.declaration
    }
}

impl Implementable for Struct {
    fn trait_impls(&self) -> &[Implementation] {
        self.trait_impl.as_slice()
    }

    fn auto_impls(&self) -> &[Implementation] {
        self.auto_impl.as_slice()
    }

    fn blanket_impls(&self) -> &[Implementation] {
        self.blanket.as_slice()
    }
}

impl Declared for Trait {
    fn declaration(&self) -> &Code {
        &self.declaration
    }
}

impl Declared for Enum {
    fn declaration(&self) -> &Code {
        &self.declaration
    }
}

impl Implementable for Enum {
    fn trait_impls(&self) -> &[Implementation] {
        self.trait_impl.as_slice()
    }

    fn auto_impls(&self) -> &[Implementation] {
        self.auto_impl.as_slice()
    }

    fn blanket_impls(&self) -> &[Implementation] {
        self.blanket.as_slice()
    }
}

impl Implementable for Primitive {
    fn trait_impls(&self) -> &[Implementation] {
        self.trait_impl.as_slice()
    }

    fn auto_impls(&self) -> &[Implementation] {
        self.auto_impl.as_slice()
    }

    fn blanket_impls(&self) -> &[Implementation] {
        self.blanket.as_slice()
    }
}

impl Document {
    pub fn title(&self) -> (r: &str)
        ensures
            r@ == self.title@,
    {
        self.title.as_str()
    }

    pub fn kind(&self) -> (r: &DocumentKind)
        ensures
            r == &self.kind,
    {
        &self.kind
    }
}

impl Struct {
    pub fn methods(&self) -> (r: &[Implementation])
        ensures
            r@ == self.methods@,
    {
        self.methods.as_slice()
    }

    pub fn fields(&self) -> (r: &[SimpleItem])
        ensures
            r@ == self.fields@,
    {
        self.fields.as_slice()
    }
}

impl Trait {
    pub fn associated_types(&self) -> (r: &[SimpleItem])
        ensures
            r@ == self.assoc_types@,
    {
        self.assoc_types.as_slice()
    }

    pub fn required_methods(&self) -> (r: &[SimpleItem])
        ensures
            r@ == self.required@,
    {
        self.required.as_slice()
    }

    pub fn foreign_implementations(&self) -> (r: &[Implementation])
        ensures
            r@ == self.foreigns@,
    {
        self.foreigns.as_slice()
    }

    pub fn implementors(&self) -> (r: &[Implementation])
        ensures
            r@ == self.implementors@,
    {
        self.implementors.as_slice()
    }
}

impl Enum {
    pub fn variants(&self) -> (r: &[SimpleItem])
        ensures
            r@ == self.variants@,
    {
        self.variants.as_slice()
    }
}

impl Primitive {
    pub fn methods(&self) -> (r: &[Implementation])
        ensures
            r@ == self.methods@,
    {
        self.methods.as_slice()
    }
}

impl Section {
    pub fn title(&self) -> (r: Option<&Text>)
        ensures
            r == match &self.title {
                Some(t) => Some(t),
                None => None::<&Text>,
            },
    {
        match &self.title {
            Some(t) => Some(t),
            None => None,
        }
    }

    pub fn content(&self) -> (r: &[Paragraph])
        ensures
            r@ == self.content@,
    {
        self.content.as_slice()
    }
}

impl TextComponent {
    pub fn text(&self) -> (r: &str)
        ensures
            r@ == self.text@,
    {
        self.text.as_str()
    }

    pub fn is_code(&self) -> (r: bool)
        ensures
            r == self.code,
    {
        self.code
    }

    pub fn is_italic(&self) -> (r: bool)
        ensures
            r == self.italic,
    {
        self.italic
    }

    pub fn is_bold(&self) -> (r: bool)
        ensures
            r == self.bold,
    {
        self.bold
    }

    pub fn link(&self) -> (r: Option<&str>)
        ensures
            match r {
                Some(s) => self.link is Some && s@ == self.link->Some_0@,
                None => self.link is None,
            },
    {
        match &self.link {
            Some(s) => Some(s.as_str()),
            None => None,
        }
    }
}

impl Text {
    pub fn components(&self) -> (r: &[TextComponent])
        ensures
            r@ == self.components@,
    {
        self.components.as_slice()
    }
}

} // verus!
