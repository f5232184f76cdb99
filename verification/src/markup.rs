//! The markup nodes that the transform reads, reduced to what it reads of
//! them, and their mathematical views.

use vstd::prelude::*;

verus! {

/// A source range, as byte positions.
#[derive(Clone, Copy, Debug, PartialEq, Eq, Structural)]
pub struct Span {
    pub lo: u32,
    pub hi: u32,
}

/// Stands for an expression of the host language. The transform never looks
/// into such an expression: it only carries it to where it belongs in the
/// output.
#[derive(Clone, Copy, Debug, PartialEq, Eq, Structural)]
pub struct ExprId(pub usize);

/// The name in an opening tag.
#[derive(Clone, Debug, PartialEq, Eq)]
pub enum ElementName {
    /// `<div>`
    Ident(String),
    /// `<a.b>`
    MemberExpr,
    /// `<a:b>`
    Namespaced,
}

/// The view of [`ElementName`]: the same shape, each string as its sequence of characters.
pub enum ElementNameView {
    Ident(Seq<char>),
    MemberExpr,
    Namespaced,
}

impl View for ElementName {
    type V = ElementNameView;

    open spec fn view(&self) -> ElementNameView {
        match self {
            ElementName::Ident(s) => ElementNameView::Ident(s@),
            ElementName::MemberExpr => ElementNameView::MemberExpr,
            ElementName::Namespaced => ElementNameView::Namespaced,
        }
    }
}

/// The name of an attribute.
#[derive(Clone, Debug, PartialEq, Eq)]
pub enum AttrName {
    /// `class`
    Ident(String),
    /// `xlink:href`
    Namespaced,
}

/// The view of [`AttrName`]: the same shape, each string as its sequence of characters.
pub enum AttrNameView {
    Ident(Seq<char>),
    Namespaced,
}

impl View for AttrName {
    type V = AttrNameView;

    open spec fn view(&self) -> AttrNameView {
        match self {
            AttrName::Ident(s) => AttrNameView::Ident(s@),
            AttrName::Namespaced => AttrNameView::Namespaced,
        }
    }
}

/// What stands behind the `=` of an attribute.
#[derive(Clone, Debug, PartialEq, Eq)]
pub enum AttrValue {
    /// `a="text"`
    Str(String),
    /// A literal that is not a string: a number, a boolean, `null`.
    Literal,
    /// `a={expr}`
    Expr(ExprId),
    /// `a={}`
    EmptyExpr,
    /// `a=<b />`
    Element,
    /// `a=<></>`
    Fragment,
}

/// The view of [`AttrValue`]: the same shape, each string as its sequence of characters.
pub enum AttrValueView {
    Str(Seq<char>),
    Literal,
    Expr(ExprId),
    EmptyExpr,
    Element,
    Fragment,
}

impl View for AttrValue {
    type V = AttrValueView;

    open spec fn view(&self) -> AttrValueView {
        match self {
            AttrValue::Str(s) => AttrValueView::Str(s@),
            AttrValue::Literal => AttrValueView::Literal,
            AttrValue::Expr(e) => AttrValueView::Expr(*e),
            AttrValue::EmptyExpr => AttrValueView::EmptyExpr,
            AttrValue::Element => AttrValueView::Element,
            AttrValue::Fragment => AttrValueView::Fragment,
        }
    }
}

/// One entry of an opening tag.
#[derive(Clone, Debug, PartialEq, Eq)]
pub enum Attr {
    /// `name`, or `name=value`
    Named { name: AttrName, value: Option<AttrValue> },
    /// `{...expr}`
    Spread(ExprId),
}

/// The view of [`Attr`]: the same shape, each string as its sequence of characters.
pub enum AttrView {
    Named { name: AttrNameView, value: Option<AttrValueView> },
    Spread(ExprId),
}

impl View for Attr {
    type V = AttrView;

    open spec fn view(&self) -> AttrView {
        match self {
            Attr::Named { name, value } => AttrView::Named {
                name: name@,
                value: match value {
                    Some(v) => Some(v@),
                    None => None,
                },
            },
            Attr::Spread(e) => AttrView::Spread(*e),
        }
    }
}

/// One child of an element or of a fragment.
#[derive(Clone, Debug, PartialEq, Eq)]
pub enum Child {
    /// A run of text.
    Text(String),
    /// `{}`, or a container that holds only a comment.
    EmptyExpr,
    /// `{name}`: a container that holds a bare identifier.
    Ident(ExprId),
    /// A container that holds any other expression.
    Expr,
    /// A nested element.
    Element,
    /// A nested fragment.
    Fragment,
    /// `{...expr}`
    Spread,
}

/// The view of [`Child`]: the same shape, each string as its sequence of characters.
pub enum ChildView {
    Text(Seq<char>),
    EmptyExpr,
    Ident(ExprId),
    Expr,
    Element,
    Fragment,
    Spread,
}

impl View for Child {
    type V = ChildView;

    open spec fn view(&self) -> ChildView {
        match self {
            Child::Text(s) => ChildView::Text(s@),
            Child::EmptyExpr => ChildView::EmptyExpr,
            Child::Ident(e) => ChildView::Ident(*e),
            Child::Expr => ChildView::Expr,
            Child::Element => ChildView::Element,
            Child::Fragment => ChildView::Fragment,
            Child::Spread => ChildView::Spread,
        }
    }
}

/// A markup element: `<name attrs>children</name>`, or `<name attrs />`.
#[derive(Clone, Debug, PartialEq, Eq)]
pub struct Element {
    pub span: Span,
    pub name: ElementName,
    pub attrs: Vec<Attr>,
    /// Whether the element is written `<name attrs />`, without a closing
    /// tag.
    pub self_closing: bool,
    pub children: Vec<Child>,
}

/// The view of [`Element`]: the same shape, each string as its sequence of characters.
#[verifier::ext_equal]
pub struct ElementView {
    pub span: Span,
    pub name: ElementNameView,
    pub attrs: Seq<AttrView>,
    pub self_closing: bool,
    pub children: Seq<ChildView>,
}

impl View for Element {
    type V = ElementView;

    open spec fn view(&self) -> ElementView {
        ElementView {
            span: self.span,
            name: self.name@,
            attrs: self.attrs@.map_values(|a: Attr| a@),
            self_closing: self.self_closing,
            children: self.children@.map_values(|c: Child| c@),
        }
    }
}

/// A markup fragment: `<>children</>`.
#[derive(Clone, Debug, PartialEq, Eq)]
pub struct Fragment {
    pub span: Span,
    pub children: Vec<Child>,
}

/// The view of [`Fragment`]: the same shape, each string as its sequence of characters.
#[verifier::ext_equal]
pub struct FragmentView {
    pub span: Span,
    pub children: Seq<ChildView>,
}

impl View for Fragment {
    type V = FragmentView;

    open spec fn view(&self) -> FragmentView {
        FragmentView { span: self.span, children: self.children@.map_values(|c: Child| c@) }
    }
}

/// What stands directly inside a pair of parentheses.
#[derive(Clone, Copy, Debug, PartialEq, Eq, Structural)]
pub enum Wrapped {
    Element,
    Fragment,
    Other,
}

/// An expression of the unit, as far as the transform tells expressions
/// apart.
#[derive(Clone, Debug, PartialEq, Eq)]
pub enum Expr {
    /// A markup element.
    Element(Element),
    /// A markup fragment.
    Fragment(Fragment),
    /// `( ... )`
    Paren(Wrapped),
    /// Any other expression.
    Other,
}

/// The view of [`Expr`]: the same shape, each string as its sequence of characters.
pub enum ExprView {
    Element(ElementView),
    Fragment(FragmentView),
    Paren(Wrapped),
    Other,
}

impl View for Expr {
    type V = ExprView;

    open spec fn view(&self) -> ExprView {
        match self {
            Expr::Element(el) => ExprView::Element(el@),
            Expr::Fragment(frag) => ExprView::Fragment(frag@),
            Expr::Paren(inner) => ExprView::Paren(*inner),
            Expr::Other => ExprView::Other,
        }
    }
}

} // verus!
