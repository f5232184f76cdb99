//! The transform of one unit: while the unit is walked, each markup
//! expression is rewritten and its template registered; when the walk is
//! over, the registered templates are hoisted to the top of the unit.

use vstd::prelude::*;
use vstd::string::StringExecFns;
use crate::call::{
    build_render_call, render_args, render_call, CallArgView, RenderCall, RenderCallView,
};
use crate::error::{TransformError, UnsupportedConstruct};
use crate::markup::{Element, ElementView, Expr, ExprView, Span, Wrapped};
use crate::names::{binding_name, create_tpl_binding_name, lemma_binding_name_injective};
use crate::serialize::{
    element_error, element_pieces, is_static_element, lemma_static_element_single_fragment,
    serialize_jsx_element_to_string_vec,
};
use crate::template::{
    fragments_of, lemma_fragments_interleave, slots_of, static_text, text_views,
};
use crate::unit::{
    declaration_of, declarations_of, item_views, template_views, ModuleItem, ModuleItemView,
    Template, TemplateDecl, TemplateDeclView, TemplateView,
};

verus! {

/// What becomes of a visited expression.
#[derive(Clone, Debug, PartialEq, Eq)]
pub enum Rewrite {
    /// The expression is replaced by this call. The call is not visited.
    Call(RenderCall),
    /// The expression is replaced by the `null` literal with this source
    /// range. The literal is not visited.
    Null(Span),
    /// The expression stays, and the walk goes on into its parts.
    Keep,
}

/// The view of [`Rewrite`]: the same shape, each string as its sequence of characters.
pub enum RewriteView {
    Call(RenderCallView),
    Null(Span),
    Keep,
}

impl View for Rewrite {
    type V = RewriteView;

    open spec fn view(&self) -> RewriteView {
        match self {
            Rewrite::Call(call) => RewriteView::Call(call@),
            Rewrite::Null(span) => RewriteView::Null(*span),
            Rewrite::Keep => RewriteView::Keep,
        }
    }
}

/// The state of the transform of one unit.
pub struct JsxString {
    next_index: usize,
    templates: Vec<Template>,
    development: bool,
    import_source: String,
}

/// The view of [`JsxString`]: what the transform holds, as a contract
/// speaks of it.
#[verifier::ext_equal]
pub struct JsxStringView {
    /// The index that was given last; 0 before the first.
    pub next_index: nat,
    /// The registered templates that are not hoisted yet, in the order in
    /// which they were registered.
    pub templates: Seq<TemplateView>,
    pub development: bool,
    pub import_source: Seq<char>,
}

impl JsxStringView {
    /// The registered templates carry consecutive indices, the last of them
    /// the index that was given last, and each has at least one fragment.
    pub open spec fn wf(self) -> bool {
        &&& self.templates.len() <= self.next_index
        &&& forall|i: int|
            0 <= i < self.templates.len() ==> {
                &&& (#[trigger] self.templates[i]).index == self.next_index
                    - self.templates.len() + 1 + i
                &&& self.templates[i].fragments.len() >= 1
            }
    }

    /// The state after these fragments are registered: they stand last,
    /// under the next index.
    pub open spec fn registered(self, fragments: Seq<Seq<char>>) -> JsxStringView {
        JsxStringView {
            next_index: self.next_index + 1,
            templates: self.templates.push(
                TemplateView { index: self.next_index + 1, fragments },
            ),
            ..self
        }
    }

    /// The state after the registered templates are hoisted: none is left,
    /// and the indices given so far stay taken.
    pub open spec fn flushed(self) -> JsxStringView {
        JsxStringView { templates: Seq::<TemplateView>::empty(), ..self }
    }

    /// What the transform makes of an element: the error that refuses it,
    /// or the call that replaces it together with the state that holds its
    /// template.
    pub open spec fn joined(self, el: ElementView) -> Result<
        (RenderCallView, JsxStringView),
        TransformError,
    > {
        match element_error(el) {
            Some(e) => Err(e),
            None => Ok(
                (
                    render_call(self.next_index + 1, el.span, slots_of(element_pieces(el))),
                    self.registered(fragments_of(element_pieces(el))),
                ),
            ),
        }
    }

    /// What the transform makes of a visited expression: the error that
    /// ends the transform, or the rewrite together with the next state.
    ///
    /// - An element is replaced by its render call, and its template is
    ///   registered.
    /// - A fragment without children is replaced by `null`; one with
    ///   children is refused.
    /// - An element or a fragment directly inside parentheses is refused.
    /// - Any other expression is kept.
    pub open spec fn visited(self, expr: ExprView) -> Result<
        (RewriteView, JsxStringView),
        TransformError,
    > {
        match expr {
            ExprView::Element(el) => match self.joined(el) {
                Ok((call, next)) => Ok((RewriteView::Call(call), next)),
                Err(e) => Err(e),
            },
            ExprView::Fragment(frag) => if frag.children.len() == 0 {
                Ok((RewriteView::Null(frag.span), self))
            } else {
                Err(TransformError::UnsupportedConstruct(UnsupportedConstruct::NonEmptyFragment))
            },
            ExprView::Paren(Wrapped::Other) => Ok((RewriteView::Keep, self)),
            ExprView::Paren(_) => Err(
                TransformError::UnsupportedConstruct(UnsupportedConstruct::ParenthesizedMarkup),
            ),
            ExprView::Other => Ok((RewriteView::Keep, self)),
        }
    }
}

/// A visit keeps a well-formed state well formed, and a transform that has
/// hoisted nothing yet stays one: it holds as many templates as it has
/// given indices.
pub proof fn lemma_visit_keeps_wf(state: JsxStringView, expr: ExprView)
    requires
        state.wf(),
    ensures
        state.visited(expr) matches Ok((_, next)) ==> {
            &&& next.wf()
            &&& state.templates.len() == state.next_index ==> next.templates.len()
                == next.next_index
        },
{
    if let ExprView::Element(el) = expr {
        lemma_fragments_interleave(element_pieces(el));
    }
}

/// The template that an accepted element registers has one fragment more
/// than the call that replaces the element has dynamic slots.
pub proof fn lemma_registered_template_interleaves(state: JsxStringView, el: ElementView)
    requires
        element_error(el) is None,
    ensures
        state.joined(el) matches Ok((call, next)) && {
            let slots = slots_of(element_pieces(el));
            &&& next.templates.len() == state.templates.len() + 1
            &&& next.templates.last().fragments.len() == slots.len() + 1
            &&& call.args == render_args(state.next_index + 1, slots)
            &&& call.args.len() == if slots.len() == 0 {
                2
            } else {
                1 + slots.len()
            }
        },
{
    lemma_fragments_interleave(element_pieces(el));
}

/// An accepted element without a dynamic attribute or child registers a
/// template of one fragment, which is all of the element's text, and its
/// call has two arguments: the template and `null`.
pub proof fn lemma_static_element_call(state: JsxStringView, el: ElementView)
    requires
        element_error(el) is None,
        is_static_element(el),
    ensures
        state.joined(el) matches Ok((call, next)) && {
            &&& next.templates.last().fragments == seq![static_text(element_pieces(el))]
            &&& call.args == seq![
                CallArgView::Template(binding_name(state.next_index + 1)),
                CallArgView::Null,
            ]
        },
{
    lemma_static_element_single_fragment(el);
    let call = state.joined(el)->Ok_0.0;
    assert(call.args =~= seq![
        CallArgView::Template(binding_name(state.next_index + 1)),
        CallArgView::Null,
    ]);
}

/// In a well-formed state the registered indices are positive and ascend,
/// so the hoisted declarations stand in the order in which their elements
/// were found, under names that differ from each other.
pub proof fn lemma_hoisting_order(state: JsxStringView)
    requires
        state.wf(),
    ensures
        declarations_of(state.templates).len() == state.templates.len(),
        forall|i: int|
            0 <= i < state.templates.len() ==> #[trigger] declarations_of(state.templates)[i]
                == ModuleItemView::Template(
                TemplateDeclView {
                    name: binding_name(
                        (state.next_index - state.templates.len() + 1 + i) as nat,
                    ),
                    fragments: state.templates[i].fragments,
                },
            ),
        forall|i: int, j: int|
            0 <= i < j < state.templates.len() ==> 1 <= (#[trigger] state.templates[i]).index < (
            #[trigger] state.templates[j]).index,
        forall|i: int, j: int|
            0 <= i < j < state.templates.len() ==> binding_name(
                (#[trigger] state.templates[i]).index,
            ) != binding_name((#[trigger] state.templates[j]).index),
{
    assert forall|i: int, j: int| 0 <= i < j < state.templates.len() implies binding_name(
        (#[trigger] state.templates[i]).index,
    ) != binding_name((#[trigger] state.templates[j]).index) by {
        if binding_name(state.templates[i].index) == binding_name(state.templates[j].index) {
            lemma_binding_name_injective(state.templates[i].index, state.templates[j].index);
        }
    }
}

/// A transform that has hoisted nothing yet numbers its templates from 1:
/// the declaration at place `i` of the hoisted row, counted from 0, binds
/// the name of index `i + 1`.
pub proof fn lemma_first_hoisting_counts_from_one(state: JsxStringView)
    requires
        state.wf(),
        state.templates.len() == state.next_index,
    ensures
        forall|i: int|
            0 <= i < state.templates.len() ==> #[trigger] declarations_of(state.templates)[i]
                == ModuleItemView::Template(
                TemplateDeclView {
                    name: binding_name((i + 1) as nat),
                    fragments: state.templates[i].fragments,
                },
            ),
{
}

impl View for JsxString {
    type V = JsxStringView;

    closed spec fn view(&self) -> JsxStringView {
        JsxStringView {
            next_index: self.next_index as nat,
            templates: template_views(self.templates@),
            development: self.development,
            import_source: self.import_source@,
        }
    }
}

impl Default for JsxString {
    /// A transform at the start of a unit: no index given, no template
    /// registered, development mode off, the runtime imported from `react`.
    fn default() -> (s: Self)
        ensures
            s@.next_index == 0,
            s@.templates.len() == 0,
            !s@.development,
            s@.import_source == "react"@,
            s@.wf(),
    {
        Self {
            next_index: 0,
            templates: Vec::new(),
            development: false,
            import_source: String::from_str("react"),
        }
    }
}

impl JsxString {
    /// A transform at the start of a unit, with this configuration.
    pub fn new(development: bool, import_source: String) -> (s: Self)
        ensures
            s@.next_index == 0,
            s@.templates.len() == 0,
            s@.development == development,
            s@.import_source == import_source@,
            s@.wf(),
    {
        Self { next_index: 0, templates: Vec::new(), development, import_source }
    }

    /// The index that was given last; 0 before the first.
    pub fn next_index(&self) -> (n: usize)
        ensures
            n == self@.next_index,
    {
        self.next_index
    }

    /// The registered templates that are not hoisted yet, in the order in
    /// which they were registered.
    pub fn templates(&self) -> (t: &Vec<Template>)
        ensures
            template_views(t@) == self@.templates,
    {
        &self.templates
    }

    /// Whether development mode is on.
    pub fn development(&self) -> (d: bool)
        ensures
            d == self@.development,
    {
        self.development
    }

    /// Where the runtime helper is imported from.
    pub fn import_source(&self) -> (s: &String)
        ensures
            s@ == self@.import_source,
    {
        &self.import_source
    }

    /// Registers the fragments of one element under a fresh index, one
    /// above the index given last, and returns that index. A template has
    /// at least one fragment.
    pub fn register(&mut self, fragments: Vec<String>) -> (index: usize)
        requires
            old(self)@.wf(),
            old(self)@.next_index < usize::MAX,
            fragments@.len() >= 1,
        ensures
            index == old(self)@.next_index + 1,
            final(self)@ == old(self)@.registered(text_views(fragments@)),
            final(self)@.wf(),
    {
        self.next_index += 1;
        let index: usize = self.next_index;
        self.templates.push(Template { index, fragments });
        proof {
            let after = old(self)@.registered(text_views(fragments@));
            assert(self@.templates =~= after.templates);
            assert(self@ =~= after);
        }
        index
    }

    /// Serializes the element, registers its template and builds the call
    /// that replaces it. A refused element leaves the transform as it was.
    pub fn generate_template_join(&mut self, el: Element) -> (r: Result<RenderCall, TransformError>)
        requires
            old(self)@.wf(),
            old(self)@.next_index < usize::MAX,
        ensures
            final(self)@.wf(),
            match r {
                Ok(call) => old(self)@.joined(el@) == Ok::<
                    (RenderCallView, JsxStringView),
                    TransformError,
                >((call@, final(self)@)),
                Err(e) => old(self)@.joined(el@) == Err::<
                    (RenderCallView, JsxStringView),
                    TransformError,
                >(e) && final(self)@ == old(self)@,
            },
    {
        let span = el.span;
        match serialize_jsx_element_to_string_vec(el) {
            Err(e) => Err(e),
            Ok((static_strs, dynamic_exprs)) => {
                let template_index = self.register(static_strs);
                Ok(build_render_call(template_index, span, dynamic_exprs))
            },
        }
    }

    /// Decides what becomes of one expression that the walk has reached.
    /// A refused expression leaves the transform as it was.
    pub fn visit_mut_expr(&mut self, expr: Expr) -> (r: Result<Rewrite, TransformError>)
        requires
            old(self)@.wf(),
            expr is Element ==> old(self)@.next_index < usize::MAX,
        ensures
            final(self)@.wf(),
            match r {
                Ok(rewrite) => old(self)@.visited(expr@) == Ok::<
                    (RewriteView, JsxStringView),
                    TransformError,
                >((rewrite@, final(self)@)),
                Err(e) => old(self)@.visited(expr@) == Err::<
                    (RewriteView, JsxStringView),
                    TransformError,
                >(e) && final(self)@ == old(self)@,
            },
    {
        match expr {
            Expr::Element(el) => {
                match self.generate_template_join(el) {
                    Ok(call) => Ok(Rewrite::Call(call)),
                    Err(e) => Err(e),
                }
            },
            Expr::Fragment(frag) => {
                if frag.children.len() == 0 {
                    Ok(Rewrite::Null(frag.span))
                } else {
                    Err(
                        TransformError::UnsupportedConstruct(
                            UnsupportedConstruct::NonEmptyFragment,
                        ),
                    )
                }
            },
            Expr::Paren(Wrapped::Other) => Ok(Rewrite::Keep),
            Expr::Paren(_) => Err(
                TransformError::UnsupportedConstruct(UnsupportedConstruct::ParenthesizedMarkup),
            ),
            Expr::Other => Ok(Rewrite::Keep),
        }
    }

    /// Ends the walk of a unit: hoists the registered templates to the top
    /// of the unit's body, in the order in which they were registered, and
    /// returns the new body. No template is left registered.
    pub fn visit_mut_module(&mut self, body: Vec<ModuleItem>) -> (hoisted: Vec<ModuleItem>)
        requires
            old(self)@.wf(),
        ensures
            item_views(hoisted@) == declarations_of(old(self)@.templates) + item_views(body@),
            final(self)@ == old(self)@.flushed(),
            final(self)@.wf(),
    {
        let mut hoisted = body;
        let mut templates: Vec<Template> = Vec::new();
        std::mem::swap(&mut templates, &mut self.templates);
        let ghost all = template_views(templates@);
        assert(all.skip(all.len() as int) =~= Seq::<TemplateView>::empty());
        assert(item_views(hoisted@) =~= declarations_of(all.skip(all.len() as int)) + item_views(
            body@,
        ));
        while templates.len() > 0
            invariant
                templates@.len() <= all.len(),
                template_views(templates@) == all.take(templates@.len() as int),
                item_views(hoisted@) == declarations_of(all.skip(templates@.len() as int))
                    + item_views(body@),
            decreases templates.len(),
        {
            let ghost k = templates@.len() - 1;
            let ghost before = item_views(hoisted@);
            let ghost prior = templates@;
            let template = templates.pop().unwrap();
            assert(template@ == all[k]) by {
                assert(template == prior[k]);
                assert(template_views(prior)[k] == prior[k]@);
                assert(all.take(prior.len() as int)[k] == all[k]);
            }
            let name = create_tpl_binding_name(template.index);
            let decl = ModuleItem::Template(TemplateDecl { name, fragments: template.fragments });
            assert(decl@ == declaration_of(all[k]));
            hoisted.insert(0, decl);
            proof {
                assert(template_views(templates@) =~= all.take(k));
                assert(item_views(hoisted@) =~= seq![decl@] + before);
                assert(declarations_of(all.skip(k)) =~= seq![declaration_of(all[k])]
                    + declarations_of(all.skip(k + 1)));
                assert(item_views(hoisted@) =~= declarations_of(all.skip(k)) + item_views(body@));
            }
        }
        proof {
            assert(all.skip(0) =~= all);
            assert(self@.templates =~= Seq::<TemplateView>::empty());
            assert(self@ =~= old(self)@.flushed());
        }
        self.inject_runtime();
        hoisted
    }

    /// Where imports of the runtime will be added to the unit. Nothing is
    /// added yet: the transform stays as it is.
    pub fn inject_runtime(&mut self)
        ensures
            final(self)@ == old(self)@,
    {
    }
}

} // verus!
