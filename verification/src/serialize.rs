//! The element serializer: one markup element becomes the static fragments
//! of its template and the dynamic slots that fill the holes between them.

use vstd::prelude::*;
use vstd::string::StringExecFns;
use crate::error::{MalformedInput, TransformError, UnsupportedConstruct};
use crate::markup::{
    Attr, AttrName, AttrNameView, AttrValue, AttrValueView, AttrView, Child, ChildView, Element,
    ElementName, ElementNameView, ElementView,
};
use crate::names::{is_void_element, is_void_tag, normalize_dom_attr_name, normalized_attr_name};
use crate::template::{
    all_static, fragments_of, lemma_all_static_single_fragment, lemma_fragments_interleave,
    lemma_push_dynamic, lemma_push_static, slot_views, slots_of, static_text, text_views, Piece,
    Slot, SlotView,
};

verus! {

/// Why an attribute is refused, if it is.
pub open spec fn attr_error(attr: AttrView) -> Option<TransformError> {
    match attr {
        AttrView::Spread(_) => None,
        AttrView::Named { name: AttrNameView::Namespaced, value: _ } => Some(
            TransformError::UnsupportedConstruct(UnsupportedConstruct::NamespacedAttribute),
        ),
        AttrView::Named { name: AttrNameView::Ident(_), value } => match value {
            None => None,
            Some(AttrValueView::Str(_)) => None,
            Some(AttrValueView::Expr(_)) => None,
            Some(AttrValueView::Literal) => Some(
                TransformError::UnsupportedConstruct(
                    UnsupportedConstruct::NonStringLiteralAttribute,
                ),
            ),
            Some(AttrValueView::EmptyExpr) => Some(
                TransformError::MalformedInput(MalformedInput::EmptyAttributeExpression),
            ),
            Some(AttrValueView::Element) => Some(
                TransformError::MalformedInput(MalformedInput::MarkupAttributeValue),
            ),
            Some(AttrValueView::Fragment) => Some(
                TransformError::MalformedInput(MalformedInput::MarkupAttributeValue),
            ),
        },
    }
}

/// What an accepted attribute emits.
///
/// - `name` alone: the text ` name`.
/// - `name="value"`: the text ` name="value"`.
/// - `name={expr}`: a hole filled with `{ name: expr }`, and no text.
/// - `{...expr}`: the text of one space, then a hole filled with
///   `{ ...expr }`.
///
/// The name is written in its normal form.
pub open spec fn attr_pieces(attr: AttrView) -> Seq<Piece> {
    match attr {
        AttrView::Spread(expr) => seq![Piece::Static(" "@), Piece::Dynamic(SlotView::Spread(expr))],
        AttrView::Named { name: AttrNameView::Ident(name), value: None } => seq![
            Piece::Static(" "@ + normalized_attr_name(name)),
        ],
        AttrView::Named {
            name: AttrNameView::Ident(name),
            value: Some(AttrValueView::Str(value)),
        } => seq![Piece::Static(" "@ + normalized_attr_name(name) + "=\""@ + value + "\""@)],
        AttrView::Named {
            name: AttrNameView::Ident(name),
            value: Some(AttrValueView::Expr(expr)),
        } => seq![
            Piece::Dynamic(SlotView::KeyValue { name: normalized_attr_name(name), value: expr }),
        ],
        _ => Seq::<Piece>::empty(),
    }
}

/// Why a child is refused, if it is.
pub open spec fn child_error(child: ChildView) -> Option<TransformError> {
    match child {
        ChildView::Text(_) => None,
        ChildView::EmptyExpr => None,
        ChildView::Ident(_) => None,
        ChildView::Expr => Some(
            TransformError::UnsupportedConstruct(UnsupportedConstruct::NonIdentifierChild),
        ),
        ChildView::Element => Some(
            TransformError::UnsupportedConstruct(UnsupportedConstruct::NestedElement),
        ),
        ChildView::Fragment => Some(
            TransformError::UnsupportedConstruct(UnsupportedConstruct::NestedFragment),
        ),
        ChildView::Spread => Some(
            TransformError::UnsupportedConstruct(UnsupportedConstruct::SpreadChild),
        ),
    }
}

/// What an accepted child emits: a text run its text, a bare identifier a
/// hole filled with the identifier, an empty expression nothing.
pub open spec fn child_pieces(child: ChildView) -> Seq<Piece> {
    match child {
        ChildView::Text(text) => seq![Piece::Static(text)],
        ChildView::Ident(expr) => seq![Piece::Dynamic(SlotView::Expr(expr))],
        _ => Seq::<Piece>::empty(),
    }
}

/// The error of the first attribute that is refused, in source order.
pub open spec fn first_attr_error(attrs: Seq<AttrView>) -> Option<TransformError>
    decreases attrs.len(),
{
    if attrs.len() == 0 {
        None
    } else {
        match attr_error(attrs.first()) {
            Some(e) => Some(e),
            None => first_attr_error(attrs.drop_first()),
        }
    }
}

/// The error of the first child that is refused, in source order.
pub open spec fn first_child_error(children: Seq<ChildView>) -> Option<TransformError>
    decreases children.len(),
{
    if children.len() == 0 {
        None
    } else {
        match child_error(children.first()) {
            Some(e) => Some(e),
            None => first_child_error(children.drop_first()),
        }
    }
}

/// The pieces of the attributes, in source order.
pub open spec fn attrs_pieces(attrs: Seq<AttrView>) -> Seq<Piece>
    decreases attrs.len(),
{
    if attrs.len() == 0 {
        Seq::<Piece>::empty()
    } else {
        attrs_pieces(attrs.drop_last()) + attr_pieces(attrs.last())
    }
}

/// The pieces of the children, in source order.
pub open spec fn children_pieces(children: Seq<ChildView>) -> Seq<Piece>
    decreases children.len(),
{
    if children.len() == 0 {
        Seq::<Piece>::empty()
    } else {
        children_pieces(children.drop_last()) + child_pieces(children.last())
    }
}

/// The tag of an element whose name is a plain identifier.
pub open spec fn tag_of(name: ElementNameView) -> Seq<char> {
    match name {
        ElementNameView::Ident(tag) => tag,
        _ => Seq::<char>::empty(),
    }
}

/// Why an element is refused, if it is: its name is checked first, then its
/// attributes in order, then its children in order. The children of a void
/// element are not looked at.
pub open spec fn element_error(el: ElementView) -> Option<TransformError> {
    match el.name {
        ElementNameView::Ident(tag) => match first_attr_error(el.attrs) {
            Some(e) => Some(e),
            None => if is_void_tag(tag) {
                None
            } else {
                first_child_error(el.children)
            },
        },
        _ => Some(TransformError::UnsupportedConstruct(UnsupportedConstruct::ElementName)),
    }
}

/// How an element ends after its attributes: a void element with ` />`, any
/// other with `>`, its children and its closing tag.
pub open spec fn body_pieces(tag: Seq<char>, children: Seq<ChildView>) -> Seq<Piece> {
    if is_void_tag(tag) {
        seq![Piece::Static(" />"@)]
    } else {
        seq![Piece::Static(">"@)] + children_pieces(children) + seq![
            Piece::Static("</"@ + tag + ">"@),
        ]
    }
}

/// The pieces of an accepted element: `<tag`, the attributes, and the body.
pub open spec fn element_pieces(el: ElementView) -> Seq<Piece> {
    seq![Piece::Static("<"@ + tag_of(el.name))] + attrs_pieces(el.attrs) + body_pieces(
        tag_of(el.name),
        el.children,
    )
}

proof fn lemma_attrs_pieces_step(attrs: Seq<AttrView>, i: int)
    requires
        0 <= i < attrs.len(),
    ensures
        attrs_pieces(attrs.take(i + 1)) == attrs_pieces(attrs.take(i)) + attr_pieces(attrs[i]),
        first_attr_error(attrs.skip(i)) == match attr_error(attrs[i]) {
            Some(e) => Some(e),
            None => first_attr_error(attrs.skip(i + 1)),
        },
{
    assert(attrs.take(i + 1).drop_last() =~= attrs.take(i));
    assert(attrs.take(i + 1).last() == attrs[i]);
    assert(attrs.skip(i).drop_first() =~= attrs.skip(i + 1));
    assert(attrs.skip(i).first() == attrs[i]);
}

proof fn lemma_children_pieces_step(children: Seq<ChildView>, i: int)
    requires
        0 <= i < children.len(),
    ensures
        children_pieces(children.take(i + 1)) == children_pieces(children.take(i)) + child_pieces(
            children[i],
        ),
        first_child_error(children.skip(i)) == match child_error(children[i]) {
            Some(e) => Some(e),
            None => first_child_error(children.skip(i + 1)),
        },
{
    assert(children.take(i + 1).drop_last() =~= children.take(i));
    assert(children.take(i + 1).last() == children[i]);
    assert(children.skip(i).drop_first() =~= children.skip(i + 1));
    assert(children.skip(i).first() == children[i]);
}

/// Whether an attribute fills a hole: a spread, or a name with an
/// expression for its value.
pub open spec fn attr_is_dynamic(attr: AttrView) -> bool {
    match attr {
        AttrView::Spread(_) => true,
        AttrView::Named { name: _, value: Some(AttrValueView::Expr(_)) } => true,
        _ => false,
    }
}

/// Whether a child fills a hole: a bare identifier.
pub open spec fn child_is_dynamic(child: ChildView) -> bool {
    child is Ident
}

/// Whether an element has no dynamic attribute and no dynamic child.
pub open spec fn is_static_element(el: ElementView) -> bool {
    &&& forall|i: int| 0 <= i < el.attrs.len() ==> !attr_is_dynamic(#[trigger] el.attrs[i])
    &&& forall|j: int| 0 <= j < el.children.len() ==> !child_is_dynamic(#[trigger] el.children[j])
}

proof fn lemma_static_attrs(attrs: Seq<AttrView>)
    requires
        forall|i: int| 0 <= i < attrs.len() ==> !attr_is_dynamic(#[trigger] attrs[i]),
    ensures
        all_static(attrs_pieces(attrs)),
    decreases attrs.len(),
{
    if attrs.len() > 0 {
        assert forall|i: int| 0 <= i < attrs.drop_last().len() implies !attr_is_dynamic(
            #[trigger] attrs.drop_last()[i],
        ) by {
            assert(attrs.drop_last()[i] == attrs[i]);
        }
        lemma_static_attrs(attrs.drop_last());
        assert(!attr_is_dynamic(attrs[attrs.len() - 1]));
        assert(all_static(attr_pieces(attrs.last())));
    }
}

proof fn lemma_static_children(children: Seq<ChildView>)
    requires
        forall|j: int| 0 <= j < children.len() ==> !child_is_dynamic(#[trigger] children[j]),
    ensures
        all_static(children_pieces(children)),
    decreases children.len(),
{
    if children.len() > 0 {
        assert forall|j: int| 0 <= j < children.drop_last().len() implies !child_is_dynamic(
            #[trigger] children.drop_last()[j],
        ) by {
            assert(children.drop_last()[j] == children[j]);
        }
        lemma_static_children(children.drop_last());
        assert(!child_is_dynamic(children[children.len() - 1]));
        assert(all_static(child_pieces(children.last())));
    }
}

/// An element without a dynamic attribute or child serializes to exactly
/// one fragment, which holds all of its text, and to no slot.
pub proof fn lemma_static_element_single_fragment(el: ElementView)
    requires
        is_static_element(el),
    ensures
        fragments_of(element_pieces(el)) == seq![static_text(element_pieces(el))],
        slots_of(element_pieces(el)).len() == 0,
{
    lemma_static_attrs(el.attrs);
    lemma_static_children(el.children);
    assert(all_static(body_pieces(tag_of(el.name), el.children)));
    assert(all_static(element_pieces(el)));
    lemma_all_static_single_fragment(element_pieces(el));
}

/// How an element is closed in the source, with `/>` or with a closing
/// tag, makes no difference, nor does where it stands: elements with the
/// same name, attributes and children are refused alike, and where they
/// are accepted they have the same pieces.
pub proof fn lemma_closing_form_is_not_read(a: ElementView, b: ElementView)
    requires
        a.name == b.name,
        a.attrs == b.attrs,
        a.children == b.children,
    ensures
        element_error(a) == element_error(b),
        element_pieces(a) == element_pieces(b),
{
}

/// A void element serializes without regard to its children: two void
/// elements with the same name and the same attributes are refused alike,
/// and where they are accepted they have the same pieces.
pub proof fn lemma_void_ignores_children(a: ElementView, b: ElementView)
    requires
        a.name == b.name,
        a.attrs == b.attrs,
        is_void_tag(tag_of(a.name)),
    ensures
        element_error(a) == element_error(b),
        element_pieces(a) == element_pieces(b),
{
}

/// A void element without attributes is the one fragment `<tag />`.
pub proof fn lemma_void_element_collapses(el: ElementView)
    requires
        el.name is Ident,
        is_void_tag(tag_of(el.name)),
        el.attrs.len() == 0,
    ensures
        element_error(el) is None,
        fragments_of(element_pieces(el)) == seq!["<"@ + tag_of(el.name) + " />"@],
        slots_of(element_pieces(el)).len() == 0,
{
    let head = Piece::Static("<"@ + tag_of(el.name));
    let tail = Piece::Static(" />"@);
    let pieces = element_pieces(el);
    let none = Seq::<Piece>::empty();
    assert(pieces =~= none.push(head).push(tail));
    lemma_push_static(none, "<"@ + tag_of(el.name));
    lemma_push_static(none.push(head), " />"@);
    assert(static_text(pieces) =~= "<"@ + tag_of(el.name) + " />"@);
    assert(all_static(pieces));
    lemma_all_static_single_fragment(pieces);
}

/// The template under construction: the fragments that are closed, the one
/// that still grows, and the slots so far.
struct Builder {
    closed: Vec<String>,
    current: String,
    slots: Vec<Slot>,
}

impl Builder {
    spec fn fragments(&self) -> Seq<Seq<char>> {
        text_views(self.closed@).push(self.current@)
    }

    spec fn slots(&self) -> Seq<SlotView> {
        slot_views(self.slots@)
    }

    /// The builder holds the template of this row of pieces.
    spec fn holds(&self, pieces: Seq<Piece>) -> bool {
        &&& self.fragments() == fragments_of(pieces)
        &&& self.slots() == slots_of(pieces)
    }

    fn new() -> (b: Builder)
        ensures
            b.holds(Seq::<Piece>::empty()),
    {
        let b = Builder { closed: Vec::new(), current: String::new(), slots: Vec::new() };
        assert(b.fragments() =~= fragments_of(Seq::<Piece>::empty()));
        assert(b.slots() =~= slots_of(Seq::<Piece>::empty()));
        b
    }

    /// Appends text to the fragment that grows.
    fn text(&mut self, text: &str, Ghost(pieces): Ghost<Seq<Piece>>)
        requires
            old(self).holds(pieces),
        ensures
            final(self).holds(pieces.push(Piece::Static(text@))),
    {
        self.current.append(text);
        proof {
            lemma_push_static(pieces, text@);
            assert(self.fragments() =~= old(self).fragments().drop_last().push(
                old(self).fragments().last() + text@,
            ));
        }
    }

    /// Closes the fragment that grows, opens an empty one, and adds the slot.
    fn slot(&mut self, slot: Slot, Ghost(pieces): Ghost<Seq<Piece>>)
        requires
            old(self).holds(pieces),
        ensures
            final(self).holds(pieces.push(Piece::Dynamic(slot@))),
    {
        let mut finished = String::new();
        std::mem::swap(&mut finished, &mut self.current);
        self.closed.push(finished);
        self.slots.push(slot);
        proof {
            lemma_push_dynamic(pieces, slot@);
            assert(self.fragments() =~= old(self).fragments().push(Seq::<char>::empty()));
            assert(self.slots() =~= old(self).slots().push(slot@));
        }
    }

    fn finish(self, Ghost(pieces): Ghost<Seq<Piece>>) -> (r: (Vec<String>, Vec<Slot>))
        requires
            self.holds(pieces),
        ensures
            text_views(r.0@) == fragments_of(pieces),
            slot_views(r.1@) == slots_of(pieces),
    {
        let mut strings = self.closed;
        strings.push(self.current);
        assert(text_views(strings@) =~= self.fragments());
        (strings, self.slots)
    }
}

fn serialize_attr(attr: &Attr, out: &mut Builder, Ghost(pieces): Ghost<Seq<Piece>>) -> (r: Result<
    (),
    TransformError,
>)
    requires
        old(out).holds(pieces),
    ensures
        match r {
            Ok(_) => attr_error(attr@) is None && final(out).holds(pieces + attr_pieces(attr@)),
            Err(e) => attr_error(attr@) == Some(e),
        },
{
    match attr {
        Attr::Spread(expr) => {
            out.text(" ", Ghost(pieces));
            out.slot(Slot::Spread(*expr), Ghost(pieces.push(Piece::Static(" "@))));
            assert(pieces + attr_pieces(attr@) =~= pieces.push(Piece::Static(" "@)).push(
                Piece::Dynamic(SlotView::Spread(*expr)),
            ));
            Ok(())
        },
        Attr::Named { name: AttrName::Namespaced, value: _ } => Err(
            TransformError::UnsupportedConstruct(UnsupportedConstruct::NamespacedAttribute),
        ),
        Attr::Named { name: AttrName::Ident(ident), value } => {
            let attr_name = normalize_dom_attr_name(ident.as_str());
            match value {
                None => {
                    let mut serialized_attr = String::from_str(" ");
                    serialized_attr.append(attr_name.as_str());
                    out.text(serialized_attr.as_str(), Ghost(pieces));
                    assert(pieces + attr_pieces(attr@) =~= pieces.push(
                        Piece::Static(serialized_attr@),
                    ));
                    Ok(())
                },
                Some(AttrValue::Str(value)) => {
                    let mut serialized_attr = String::from_str(" ");
                    serialized_attr.append(attr_name.as_str());
                    serialized_attr.append("=\"");
                    serialized_attr.append(value.as_str());
                    serialized_attr.append("\"");
                    out.text(serialized_attr.as_str(), Ghost(pieces));
                    assert(pieces + attr_pieces(attr@) =~= pieces.push(
                        Piece::Static(serialized_attr@),
                    ));
                    Ok(())
                },
                Some(AttrValue::Expr(expr)) => {
                    let slot = Slot::KeyValue { name: attr_name, value: *expr };
                    assert(pieces + attr_pieces(attr@) =~= pieces.push(Piece::Dynamic(slot@)));
                    out.slot(slot, Ghost(pieces));
                    Ok(())
                },
                Some(AttrValue::Literal) => Err(
                    TransformError::UnsupportedConstruct(
                        UnsupportedConstruct::NonStringLiteralAttribute,
                    ),
                ),
                Some(AttrValue::EmptyExpr) => Err(
                    TransformError::MalformedInput(MalformedInput::EmptyAttributeExpression),
                ),
                Some(AttrValue::Element) => Err(
                    TransformError::MalformedInput(MalformedInput::MarkupAttributeValue),
                ),
                Some(AttrValue::Fragment) => Err(
                    TransformError::MalformedInput(MalformedInput::MarkupAttributeValue),
                ),
            }
        },
    }
}

fn serialize_child(child: &Child, out: &mut Builder, Ghost(pieces): Ghost<Seq<Piece>>) -> (r:
    Result<(), TransformError>)
    requires
        old(out).holds(pieces),
    ensures
        match r {
            Ok(_) => child_error(child@) is None && final(out).holds(
                pieces + child_pieces(child@),
            ),
            Err(e) => child_error(child@) == Some(e),
        },
{
    match child {
        Child::Text(text) => {
            out.text(text.as_str(), Ghost(pieces));
            assert(pieces + child_pieces(child@) =~= pieces.push(Piece::Static(text@)));
            Ok(())
        },
        Child::EmptyExpr => {
            assert(pieces + child_pieces(child@) =~= pieces);
            Ok(())
        },
        Child::Ident(expr) => {
            out.slot(Slot::Expr(*expr), Ghost(pieces));
            assert(pieces + child_pieces(child@) =~= pieces.push(
                Piece::Dynamic(SlotView::Expr(*expr)),
            ));
            Ok(())
        },
        Child::Expr => Err(
            TransformError::UnsupportedConstruct(UnsupportedConstruct::NonIdentifierChild),
        ),
        Child::Element => Err(
            TransformError::UnsupportedConstruct(UnsupportedConstruct::NestedElement),
        ),
        Child::Fragment => Err(
            TransformError::UnsupportedConstruct(UnsupportedConstruct::NestedFragment),
        ),
        Child::Spread => Err(
            TransformError::UnsupportedConstruct(UnsupportedConstruct::SpreadChild),
        ),
    }
}

/// Serializes one element into the static fragments of its template and
/// the dynamic slots between them.
///
/// The element is refused exactly when `element_error` names an error, and
/// that error is returned. Otherwise the fragments and the slots are those
/// of `element_pieces`: there is one fragment more than there are slots.
pub fn serialize_jsx_element_to_string_vec(el: Element) -> (r: Result<
    (Vec<String>, Vec<Slot>),
    TransformError,
>)
    ensures
        match r {
            Ok((strings, slots)) => {
                &&& element_error(el@) is None
                &&& text_views(strings@) == fragments_of(element_pieces(el@))
                &&& slot_views(slots@) == slots_of(element_pieces(el@))
                &&& strings@.len() == slots@.len() + 1
            },
            Err(e) => element_error(el@) == Some(e),
        },
{
    let tag: &String = match &el.name {
        ElementName::Ident(tag) => tag,
        _ => {
            return Err(TransformError::UnsupportedConstruct(UnsupportedConstruct::ElementName));
        },
    };
    let ghost attrs = el@.attrs;
    let ghost children = el@.children;
    let ghost head = seq![Piece::Static("<"@ + tag@)];

    let mut out = Builder::new();
    let mut opening = String::from_str("<");
    opening.append(tag.as_str());
    out.text(opening.as_str(), Ghost(Seq::<Piece>::empty()));
    let ghost mut pieces = head;
    assert(head =~= Seq::<Piece>::empty().push(Piece::Static(opening@)));
    assert(attrs.skip(0) =~= attrs);
    assert(attrs.take(0) =~= Seq::<AttrView>::empty());
    assert(pieces =~= head + attrs_pieces(attrs.take(0)));

    let mut i: usize = 0;
    while i < el.attrs.len()
        invariant
            i <= el.attrs.len(),
            attrs == el@.attrs,
            el@.name == ElementNameView::Ident(tag@),
            out.holds(pieces),
            pieces == head + attrs_pieces(attrs.take(i as int)),
            first_attr_error(attrs) == first_attr_error(attrs.skip(i as int)),
        decreases el.attrs.len() - i,
    {
        proof {
            lemma_attrs_pieces_step(attrs, i as int);
            assert(attrs[i as int] == el.attrs@[i as int]@);
        }
        match serialize_attr(&el.attrs[i], &mut out, Ghost(pieces)) {
            Err(e) => {
                return Err(e);
            },
            Ok(_) => {},
        }
        proof {
            let next = pieces + attr_pieces(attrs[i as int]);
            assert(next =~= head + attrs_pieces(attrs.take(i as int + 1)));
            pieces = next;
        }
        i += 1;
    }
    assert(attrs.take(i as int) =~= attrs);
    assert(attrs.skip(i as int).len() == 0);

    if is_void_element(tag.as_str()) {
        out.text(" />", Ghost(pieces));
        proof {
            pieces = pieces.push(Piece::Static(" />"@));
            assert(pieces =~= element_pieces(el@));
            lemma_fragments_interleave(pieces);
        }
        let r = out.finish(Ghost(pieces));
        assert(text_views(r.0@).len() == r.0@.len());
        assert(slot_views(r.1@).len() == r.1@.len());
        return Ok(r);
    }
    out.text(">", Ghost(pieces));
    proof {
        pieces = pieces.push(Piece::Static(">"@));
    }
    let ghost opened = pieces;
    assert(opened =~= head + attrs_pieces(attrs) + seq![Piece::Static(">"@)]);
    assert(children.skip(0) =~= children);
    assert(children.take(0) =~= Seq::<ChildView>::empty());
    assert(pieces =~= opened + children_pieces(children.take(0)));

    let mut j: usize = 0;
    while j < el.children.len()
        invariant
            j <= el.children.len(),
            children == el@.children,
            el@.name == ElementNameView::Ident(tag@),
            !is_void_tag(tag@),
            first_attr_error(el@.attrs) is None,
            out.holds(pieces),
            pieces == opened + children_pieces(children.take(j as int)),
            first_child_error(children) == first_child_error(children.skip(j as int)),
        decreases el.children.len() - j,
    {
        proof {
            lemma_children_pieces_step(children, j as int);
            assert(children[j as int] == el.children@[j as int]@);
        }
        match serialize_child(&el.children[j], &mut out, Ghost(pieces)) {
            Err(e) => {
                return Err(e);
            },
            Ok(_) => {},
        }
        proof {
            let next = pieces + child_pieces(children[j as int]);
            assert(next =~= opened + children_pieces(children.take(j as int + 1)));
            pieces = next;
        }
        j += 1;
    }
    assert(children.take(j as int) =~= children);
    assert(children.skip(j as int).len() == 0);

    let mut closing_tag = String::from_str("</");
    closing_tag.append(tag.as_str());
    closing_tag.append(">");
    out.text(closing_tag.as_str(), Ghost(pieces));
    proof {
        pieces = pieces.push(Piece::Static(closing_tag@));
        assert(pieces =~= element_pieces(el@));
        lemma_fragments_interleave(pieces);
    }
    let r = out.finish(Ghost(pieces));
    assert(text_views(r.0@).len() == r.0@.len());
    assert(slot_views(r.1@).len() == r.1@.len());
    Ok(r)
}

} // verus!
