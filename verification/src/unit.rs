//! The top level of a unit: its statements, and the template declarations
//! that are hoisted in front of them.

use vstd::prelude::*;
use crate::names::binding_name;
use crate::template::text_views;

verus! {

/// Stands for a statement of the unit. The transform never looks into it.
#[derive(Clone, Copy, Debug, PartialEq, Eq, Structural)]
pub struct StmtId(pub usize);

/// A registered template: the static fragments of one element, under the
/// index that the element was given.
#[derive(Clone, Debug, PartialEq, Eq)]
pub struct Template {
    pub index: usize,
    pub fragments: Vec<String>,
}

/// The view of [`Template`]: the same shape, each string as its sequence of characters.
#[verifier::ext_equal]
pub struct TemplateView {
    pub index: nat,
    pub fragments: Seq<Seq<char>>,
}

impl View for Template {
    type V = TemplateView;

    open spec fn view(&self) -> TemplateView {
        TemplateView { index: self.index as nat, fragments: text_views(self.fragments@) }
    }
}

/// The views of a row of templates.
pub open spec fn template_views(templates: Seq<Template>) -> Seq<TemplateView> {
    templates.map_values(|t: Template| t@)
}

/// The declaration `const name = [fragments];`, each fragment a string
/// literal.
#[derive(Clone, Debug, PartialEq, Eq)]
pub struct TemplateDecl {
    pub name: String,
    pub fragments: Vec<String>,
}

/// The view of [`TemplateDecl`]: the same shape, each string as its sequence of characters.
#[verifier::ext_equal]
pub struct TemplateDeclView {
    pub name: Seq<char>,
    pub fragments: Seq<Seq<char>>,
}

impl View for TemplateDecl {
    type V = TemplateDeclView;

    open spec fn view(&self) -> TemplateDeclView {
        TemplateDeclView { name: self.name@, fragments: text_views(self.fragments@) }
    }
}

/// One item at the top level of a unit.
#[derive(Clone, Debug, PartialEq, Eq)]
pub enum ModuleItem {
    /// A hoisted template declaration.
    Template(TemplateDecl),
    /// A statement that the unit held before.
    Stmt(StmtId),
}

/// The view of [`ModuleItem`]: the same shape, each string as its sequence of characters.
pub enum ModuleItemView {
    Template(TemplateDeclView),
    Stmt(StmtId),
}

impl View for ModuleItem {
    type V = ModuleItemView;

    open spec fn view(&self) -> ModuleItemView {
        match self {
            ModuleItem::Template(decl) => ModuleItemView::Template(decl@),
            ModuleItem::Stmt(id) => ModuleItemView::Stmt(*id),
        }
    }
}

/// The views of a row of items.
pub open spec fn item_views(items: Seq<ModuleItem>) -> Seq<ModuleItemView> {
    items.map_values(|i: ModuleItem| i@)
}

/// The declaration that hoists a template: its binding is named after the
/// template's index and holds the template's fragments.
pub open spec fn declaration_of(template: TemplateView) -> ModuleItemView {
    ModuleItemView::Template(
        TemplateDeclView { name: binding_name(template.index), fragments: template.fragments },
    )
}

/// The declarations that hoist these templates, one for each, in the same
/// order.
pub open spec fn declarations_of(templates: Seq<TemplateView>) -> Seq<ModuleItemView> {
    templates.map_values(|t: TemplateView| declaration_of(t))
}

} // verus!
