//! A serialized element as a row of pieces, and the template that the row
//! stands for: the static text between the holes, and the holes' values.

use vstd::prelude::*;
use crate::markup::ExprId;

verus! {

/// The value that fills one hole of a template at run time.
#[derive(Clone, Debug, PartialEq, Eq)]
pub enum Slot {
    /// An object with one key: `{ name: expr }`.
    KeyValue { name: String, value: ExprId },
    /// An object that spreads the expression: `{ ...expr }`.
    Spread(ExprId),
    /// The expression itself.
    Expr(ExprId),
}

/// The view of [`Slot`]: the same shape, each string as its sequence of characters.
pub enum SlotView {
    KeyValue { name: Seq<char>, value: ExprId },
    Spread(ExprId),
    Expr(ExprId),
}

impl View for Slot {
    type V = SlotView;

    open spec fn view(&self) -> SlotView {
        match self {
            Slot::KeyValue { name, value } => SlotView::KeyValue { name: name@, value: *value },
            Slot::Spread(e) => SlotView::Spread(*e),
            Slot::Expr(e) => SlotView::Expr(*e),
        }
    }
}

/// The texts of a row of strings.
pub open spec fn text_views(strings: Seq<String>) -> Seq<Seq<char>> {
    strings.map_values(|s: String| s@)
}

/// The views of a row of slots.
pub open spec fn slot_views(slots: Seq<Slot>) -> Seq<SlotView> {
    slots.map_values(|s: Slot| s@)
}

/// What one step of serialization emits: text that is known now, or a hole
/// with the value that will fill it.
pub enum Piece {
    Static(Seq<char>),
    Dynamic(SlotView),
}

/// The static fragments of a row of pieces: the texts between the holes,
/// neighbouring texts joined. There is one fragment before the first hole,
/// one after each hole, and a fragment is empty where no text stands there.
pub open spec fn fragments_of(pieces: Seq<Piece>) -> Seq<Seq<char>>
    decreases pieces.len(),
{
    if pieces.len() == 0 {
        seq![Seq::<char>::empty()]
    } else {
        let before = fragments_of(pieces.drop_last());
        match pieces.last() {
            Piece::Static(text) => before.drop_last().push(before.last() + text),
            Piece::Dynamic(_) => before.push(Seq::<char>::empty()),
        }
    }
}

/// The dynamic slots of a row of pieces: the values of its holes, in order.
pub open spec fn slots_of(pieces: Seq<Piece>) -> Seq<SlotView>
    decreases pieces.len(),
{
    if pieces.len() == 0 {
        Seq::<SlotView>::empty()
    } else {
        let before = slots_of(pieces.drop_last());
        match pieces.last() {
            Piece::Static(_) => before,
            Piece::Dynamic(slot) => before.push(slot),
        }
    }
}

/// All the static text of a row of pieces, in order, the holes left out.
pub open spec fn static_text(pieces: Seq<Piece>) -> Seq<char>
    decreases pieces.len(),
{
    if pieces.len() == 0 {
        Seq::<char>::empty()
    } else {
        let before = static_text(pieces.drop_last());
        match pieces.last() {
            Piece::Static(text) => before + text,
            Piece::Dynamic(_) => before,
        }
    }
}

/// Whether no piece of the row is a hole.
pub open spec fn all_static(pieces: Seq<Piece>) -> bool {
    forall|i: int| 0 <= i < pieces.len() ==> (#[trigger] pieces[i]) is Static
}

/// Fragments and slots interleave, beginning and ending with a fragment:
/// there is exactly one fragment more than there are slots.
pub proof fn lemma_fragments_interleave(pieces: Seq<Piece>)
    ensures
        fragments_of(pieces).len() == slots_of(pieces).len() + 1,
    decreases pieces.len(),
{
    if pieces.len() > 0 {
        lemma_fragments_interleave(pieces.drop_last());
    }
}

/// Text that follows a row joins the row's last fragment.
pub proof fn lemma_push_static(pieces: Seq<Piece>, text: Seq<char>)
    ensures
        fragments_of(pieces.push(Piece::Static(text))) == fragments_of(pieces).drop_last().push(
            fragments_of(pieces).last() + text,
        ),
        slots_of(pieces.push(Piece::Static(text))) == slots_of(pieces),
        static_text(pieces.push(Piece::Static(text))) == static_text(pieces) + text,
{
    let next = pieces.push(Piece::Static(text));
    assert(next.drop_last() =~= pieces);
    assert(next.last() == Piece::Static(text));
}

/// A hole that follows a row opens a new, empty fragment and adds its slot.
pub proof fn lemma_push_dynamic(pieces: Seq<Piece>, slot: SlotView)
    ensures
        fragments_of(pieces.push(Piece::Dynamic(slot))) == fragments_of(pieces).push(
            Seq::<char>::empty(),
        ),
        slots_of(pieces.push(Piece::Dynamic(slot))) == slots_of(pieces).push(slot),
        static_text(pieces.push(Piece::Dynamic(slot))) == static_text(pieces),
{
    let next = pieces.push(Piece::Dynamic(slot));
    assert(next.drop_last() =~= pieces);
    assert(next.last() == Piece::Dynamic(slot));
}

/// The static text of two rows in a row is the text of the first followed
/// by the text of the second.
pub proof fn lemma_static_text_concat(first: Seq<Piece>, second: Seq<Piece>)
    ensures
        static_text(first + second) == static_text(first) + static_text(second),
    decreases second.len(),
{
    if second.len() == 0 {
        assert(first + second =~= first);
        assert(static_text(first) + static_text(second) =~= static_text(first));
    } else {
        lemma_static_text_concat(first, second.drop_last());
        assert((first + second).drop_last() =~= first + second.drop_last());
        assert((first + second).last() == second.last());
        match second.last() {
            Piece::Static(text) => {
                assert(static_text(first + second) =~= static_text(first) + static_text(second));
            },
            Piece::Dynamic(_) => {},
        }
    }
}

/// A row without holes is one fragment, which holds all of its text, and
/// has no slot.
pub proof fn lemma_all_static_single_fragment(pieces: Seq<Piece>)
    requires
        all_static(pieces),
    ensures
        fragments_of(pieces) == seq![static_text(pieces)],
        slots_of(pieces).len() == 0,
    decreases pieces.len(),
{
    if pieces.len() > 0 {
        let before = pieces.drop_last();
        assert forall|i: int| 0 <= i < before.len() implies (#[trigger] before[i]) is Static by {
            assert(before[i] == pieces[i]);
        }
        lemma_all_static_single_fragment(before);
        assert(pieces.last() == pieces[pieces.len() - 1]);
        assert(fragments_of(pieces) =~= seq![static_text(pieces)]);
    } else {
        assert(fragments_of(pieces) =~= seq![static_text(pieces)]);
    }
}

/// Joined end to end, the fragments are the static text: the split at the
/// holes loses no text and adds none.
pub proof fn lemma_fragments_hold_static_text(pieces: Seq<Piece>)
    ensures
        fragments_of(pieces).flatten() == static_text(pieces),
    decreases pieces.len(),
{
    let frags = fragments_of(pieces);
    if pieces.len() == 0 {
        assert(frags =~= Seq::<Seq<char>>::empty().push(Seq::<char>::empty()));
        Seq::<Seq<char>>::empty().lemma_flatten_push(Seq::<char>::empty());
        assert(Seq::<Seq<char>>::empty().flatten() =~= Seq::<char>::empty());
        assert(frags.flatten() =~= Seq::<char>::empty());
    } else {
        let before = fragments_of(pieces.drop_last());
        lemma_fragments_hold_static_text(pieces.drop_last());
        lemma_fragments_interleave(pieces.drop_last());
        assert(before =~= before.drop_last().push(before.last()));
        before.drop_last().lemma_flatten_push(before.last());
        match pieces.last() {
            Piece::Static(text) => {
                before.drop_last().lemma_flatten_push(before.last() + text);
                assert(frags.flatten() =~= static_text(pieces));
            },
            Piece::Dynamic(_) => {
                before.lemma_flatten_push(Seq::<char>::empty());
                assert(frags.flatten() =~= static_text(pieces));
            },
        }
    }
}

} // verus!
