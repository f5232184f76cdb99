//! The call that stands in place of an element: the render helper applied
//! to the element's hoisted template and to its dynamic slots.

use vstd::prelude::*;
use vstd::string::StringExecFns;
use crate::markup::Span;
use crate::names::{binding_name, create_tpl_binding_name};
use crate::template::{slot_views, Slot, SlotView};

verus! {

/// One argument of the render call.
#[derive(Clone, Debug, PartialEq, Eq)]
pub enum CallArg {
    /// A reference to the hoisted template binding of this name.
    Template(String),
    /// The `null` literal: the element has no dynamic slot.
    Null,
    /// The value of one dynamic slot.
    Slot(Slot),
}

/// The view of [`CallArg`]: the same shape, each string as its sequence of characters.
pub enum CallArgView {
    Template(Seq<char>),
    Null,
    Slot(SlotView),
}

impl View for CallArg {
    type V = CallArgView;

    open spec fn view(&self) -> CallArgView {
        match self {
            CallArg::Template(name) => CallArgView::Template(name@),
            CallArg::Null => CallArgView::Null,
            CallArg::Slot(slot) => CallArgView::Slot(slot@),
        }
    }
}

/// A call of the render helper.
#[derive(Clone, Debug, PartialEq, Eq)]
pub struct RenderCall {
    /// The source range of the element that the call replaces.
    pub span: Span,
    /// The name of the function that is called.
    pub callee: String,
    pub args: Vec<CallArg>,
}

/// The view of [`RenderCall`]: the same shape, each string as its sequence of characters.
#[verifier::ext_equal]
pub struct RenderCallView {
    pub span: Span,
    pub callee: Seq<char>,
    pub args: Seq<CallArgView>,
}

impl View for RenderCall {
    type V = RenderCallView;

    open spec fn view(&self) -> RenderCallView {
        RenderCallView {
            span: self.span,
            callee: self.callee@,
            args: self.args@.map_values(|a: CallArg| a@),
        }
    }
}

/// The name of the render helper.
pub open spec fn render_function() -> Seq<char> {
    "renderFunction"@
}

/// The arguments that follow the template: the slots in order, or, where
/// there is none, the `null` literal alone.
pub open spec fn value_args(slots: Seq<SlotView>) -> Seq<CallArgView> {
    if slots.len() == 0 {
        seq![CallArgView::Null]
    } else {
        slots.map_values(|s: SlotView| CallArgView::Slot(s))
    }
}

/// The arguments of the call for the template with this index.
pub open spec fn render_args(index: nat, slots: Seq<SlotView>) -> Seq<CallArgView> {
    seq![CallArgView::Template(binding_name(index))] + value_args(slots)
}

/// The call for the template with this index, in place of an element with
/// this source range.
pub open spec fn render_call(index: nat, span: Span, slots: Seq<SlotView>) -> RenderCallView {
    RenderCallView { span, callee: render_function(), args: render_args(index, slots) }
}

/// Builds the call `renderFunction(template, ...)`: the first argument names
/// the hoisted template, the others are the dynamic slots in order. Where
/// there is no slot, the one other argument is `null`.
pub fn build_render_call(template_index: usize, span: Span, dynamic_exprs: Vec<Slot>) -> (call:
    RenderCall)
    ensures
        call@ == render_call(template_index as nat, span, slot_views(dynamic_exprs@)),
{
    let name = create_tpl_binding_name(template_index);
    let ghost slots = slot_views(dynamic_exprs@);
    let mut args: Vec<CallArg> = Vec::new();
    args.push(CallArg::Template(name));
    if dynamic_exprs.len() == 0 {
        args.push(CallArg::Null);
    } else {
        let ghost items = dynamic_exprs@;
        for dynamic_expr in it: dynamic_exprs
            invariant
                it.seq() == items,
                args@.len() == 1 + it.index(),
                args@[0]@ == CallArgView::Template(binding_name(template_index as nat)),
                forall|k: int|
                    1 <= k <= it.index() ==> (#[trigger] args@[k])@ == CallArgView::Slot(
                        items[k - 1]@,
                    ),
        {
            args.push(CallArg::Slot(dynamic_expr));
        }
        assert(args@.len() == 1 + items.len());
    }
    let call = RenderCall { span, callee: String::from_str("renderFunction"), args };
    assert forall|k: int| 0 <= k < call@.args.len() implies call@.args[k] == render_args(
        template_index as nat,
        slots,
    )[k] by {
        assert(call@.args[k] == args@[k]@);
    }
    assert(call@.args =~= render_args(template_index as nat, slots));
    call
}

} // verus!
