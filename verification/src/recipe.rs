//! A recipe: the kinds a level asks for, in order, and how far the player
//! has come.

use vstd::prelude::*;
use crate::item::ItemKind;

verus! {

/// The verdict on one delivery.
#[derive(Clone, Copy, Debug, PartialEq, Eq, Structural)]
pub enum Outcome {
    /// The delivered kind was the expected one. `complete` tells whether it
    /// was the last one the recipe asked for.
    Accepted { complete: bool },
    /// The delivered kind was not the expected one; nothing changed.
    Rejected,
}

/// One icon of the recipe display: a required kind, and whether it has been
/// delivered already.
#[derive(Clone, Copy, Debug, PartialEq, Eq, Structural)]
pub struct DisplaySlot {
    pub kind: ItemKind,
    pub done: bool,
}

/// A recipe as a mathematical value: the required kinds and the index of the
/// one expected next.
pub struct RecipeModel {
    pub items: Seq<ItemKind>,
    pub cursor: nat,
}

impl RecipeModel {
    /// A recipe asks for at least one item, and its cursor never passes the end.
    pub open spec fn wf(self) -> bool {
        &&& 1 <= self.items.len()
        &&& self.cursor <= self.items.len()
    }

    /// The recipe over `items` with nothing delivered yet.
    pub open spec fn fresh(items: Seq<ItemKind>) -> RecipeModel {
        RecipeModel { items, cursor: 0 }
    }

    pub open spec fn is_complete(self) -> bool {
        self.cursor >= self.items.len()
    }

    pub open spec fn next_expected(self) -> Option<ItemKind> {
        if self.cursor < self.items.len() {
            Some(self.items[self.cursor as int])
        } else {
            None
        }
    }

    /// The verdict on a delivery of `kind`.
    pub open spec fn verdict(self, kind: ItemKind) -> Outcome {
        if self.next_expected() == Some(kind) {
            Outcome::Accepted { complete: self.cursor + 1 == self.items.len() }
        } else {
            Outcome::Rejected
        }
    }

    /// The recipe after a delivery of `kind`: one step further if the kind
    /// was expected, unchanged otherwise.
    pub open spec fn after(self, kind: ItemKind) -> RecipeModel {
        if self.next_expected() == Some(kind) {
            RecipeModel { items: self.items, cursor: self.cursor + 1 }
        } else {
            self
        }
    }

    /// The recipe after the deliveries `kinds`, in order.
    pub open spec fn after_all(self, kinds: Seq<ItemKind>) -> RecipeModel
        decreases kinds.len(),
    {
        if kinds.len() == 0 {
            self
        } else {
            self.after_all(kinds.drop_last()).after(kinds.last())
        }
    }

    /// What the recipe display shows: every required kind in order, marked
    /// done exactly where its index lies before the cursor.
    pub open spec fn display(self) -> Seq<DisplaySlot> {
        Seq::new(
            self.items.len(),
            |i: int| DisplaySlot { kind: self.items[i], done: i < self.cursor },
        )
    }
}

/// The live recipe of one level attempt.
pub struct Recipe {
    items: Vec<ItemKind>,
    next_index: usize,
}

impl View for Recipe {
    type V = RecipeModel;

    closed spec fn view(&self) -> RecipeModel {
        RecipeModel { items: self.items@, cursor: self.next_index as nat }
    }
}

impl Recipe {
    #[verifier::type_invariant]
    closed spec fn inv(self) -> bool {
        self@.wf()
    }

    /// A fresh recipe over `items`, or `None` where `items` is empty.
    pub fn new(items: Vec<ItemKind>) -> (r: Option<Recipe>)
        ensures
            items@.len() == 0 <==> r.is_none(),
            r matches Some(recipe) ==> recipe@ == RecipeModel::fresh(items@) && recipe@.wf(),
    {
        if items.len() == 0 {
            None
        } else {
            Some(Recipe { items, next_index: 0 })
        }
    }

    /// The number of items the recipe asks for.
    pub fn len(&self) -> (n: usize)
        ensures
            n == self@.items.len(),
            self@.wf(),
    {
        proof {
            use_type_invariant(self);
        }
        self.items.len()
    }

    /// The index of the item expected next; equal to `len()` once complete.
    pub fn next_index(&self) -> (n: usize)
        ensures
            n == self@.cursor,
            self@.wf(),
    {
        proof {
            use_type_invariant(self);
        }
        self.next_index
    }

    /// The required kinds, in order.
    pub fn items(&self) -> (r: &Vec<ItemKind>)
        ensures
            r@ == self@.items,
            self@.wf(),
    {
        proof {
            use_type_invariant(self);
        }
        &self.items
    }

    pub fn has_next_item(&self) -> (b: bool)
        ensures
            b == !self@.is_complete(),
            self@.wf(),
    {
        proof {
            use_type_invariant(self);
        }
        self.next_index < self.items.len()
    }

    pub fn is_complete(&self) -> (b: bool)
        ensures
            b == self@.is_complete(),
            self@.wf(),
    {
        !self.has_next_item()
    }

    /// The kind required next, or `None` once the recipe is complete.
    pub fn next_expected(&self) -> (r: Option<ItemKind>)
        ensures
            r == self@.next_expected(),
            self@.wf(),
    {
        proof {
            use_type_invariant(self);
        }
        if self.next_index < self.items.len() {
            Some(self.items[self.next_index])
        } else {
            None
        }
    }

    /// The verdict that a delivery of `kind` would get; nothing changes.
    pub fn verdict(&self, kind: ItemKind) -> (out: Outcome)
        ensures
            out == self@.verdict(kind),
            self@.wf(),
        no_unwind
    {
        proof {
            use_type_invariant(self);
        }
        if self.next_index < self.items.len() && self.items[self.next_index] == kind {
            Outcome::Accepted { complete: self.next_index + 1 == self.items.len() }
        } else {
            Outcome::Rejected
        }
    }

    /// Judges a delivery of `kind`. The expected kind moves the cursor one
    /// step; any other kind, and any kind once the recipe is complete, is
    /// rejected and changes nothing.
    pub fn submit(&mut self, kind: ItemKind) -> (out: Outcome)
        ensures
            out == old(self)@.verdict(kind),
            final(self)@ == old(self)@.after(kind),
            final(self)@.wf(),
        no_unwind
    {
        proof {
            use_type_invariant(&*self);
        }
        let out = self.verdict(kind);
        if let Outcome::Accepted { .. } = out {
            assert(self.next_index < self.items.len());
            self.next_index = self.next_index + 1;
        }
        out
    }

    /// The icons of the recipe display, in order.
    pub fn display(&self) -> (slots: Vec<DisplaySlot>)
        ensures
            slots@ == self@.display(),
    {
        display_slots(&self.items, self.next_index)
    }
}

/// The icons that show `items` with the first `next_index` of them done.
pub fn display_slots(items: &Vec<ItemKind>, next_index: usize) -> (slots: Vec<DisplaySlot>)
    ensures
        slots@ == (RecipeModel { items: items@, cursor: next_index as nat }).display(),
{
    let mut slots: Vec<DisplaySlot> = Vec::new();
    let mut i: usize = 0;
    while i < items.len()
        invariant
            i <= items.len(),
            slots@.len() == i,
            forall|j: int| 0 <= j < i ==> slots@[j] == (DisplaySlot { kind: items@[j], done: j < next_index }),
        decreases items.len() - i,
    {
        slots.push(DisplaySlot { kind: items[i], done: i < next_index });
        i = i + 1;
    }
    assert(slots@ =~= (RecipeModel { items: items@, cursor: next_index as nat }).display());
    slots
}

/// Delivering the first `n` required kinds in order, to a fresh recipe,
/// brings the cursor to `n`.
pub proof fn lemma_prefix_advances(items: Seq<ItemKind>, n: nat)
    requires
        n <= items.len(),
    ensures
        RecipeModel::fresh(items).after_all(items.take(n as int)) == (RecipeModel {
            items,
            cursor: n,
        }),
    decreases n,
{
    if n > 0 {
        let shorter = items.take(n as int).drop_last();
        assert(shorter =~= items.take(n - 1));
        lemma_prefix_advances(items, (n - 1) as nat);
        assert(items.take(n as int).last() == items[n - 1]);
    }
}

/// Delivering every required kind in order completes a fresh recipe: it then
/// expects nothing more.
pub proof fn lemma_correct_order_completes(items: Seq<ItemKind>)
    ensures
        RecipeModel::fresh(items).after_all(items).is_complete(),
        RecipeModel::fresh(items).after_all(items).next_expected().is_none(),
        RecipeModel::fresh(items).after_all(items).cursor == items.len(),
{
    lemma_prefix_advances(items, items.len());
    assert(items.take(items.len() as int) =~= items);
}

/// A kind other than the expected one is rejected and leaves the recipe as
/// it was.
pub proof fn lemma_wrong_kind_rejected(r: RecipeModel, kind: ItemKind)
    requires
        r.next_expected() != Some(kind),
    ensures
        r.verdict(kind) == Outcome::Rejected,
        r.after(kind) == r,
{
}

/// However many deliveries arrive, as long as none of them is the expected
/// kind the recipe stays as it was.
pub proof fn lemma_wrong_kinds_change_nothing(r: RecipeModel, kinds: Seq<ItemKind>)
    requires
        forall|i: int| 0 <= i < kinds.len() ==> r.next_expected() != Some(#[trigger] kinds[i]),
    ensures
        r.after_all(kinds) == r,
    decreases kinds.len(),
{
    if kinds.len() > 0 {
        lemma_wrong_kinds_change_nothing(r, kinds.drop_last());
    }
}

/// A complete recipe rejects every delivery and never changes again.
pub proof fn lemma_complete_stays_complete(r: RecipeModel, kinds: Seq<ItemKind>)
    requires
        r.is_complete(),
    ensures
        r.after_all(kinds) == r,
        forall|k: ItemKind| r.verdict(k) == Outcome::Rejected && r.after(k) == r,
{
    lemma_wrong_kinds_change_nothing(r, kinds);
}

/// A delivery keeps a recipe well formed, keeps its items, and moves the
/// cursor by one step at most and never back.
pub proof fn lemma_after_keeps_wf(r: RecipeModel, kind: ItemKind)
    requires
        r.wf(),
    ensures
        r.after(kind).wf(),
        r.after(kind).items == r.items,
        r.cursor <= r.after(kind).cursor <= r.cursor + 1,
        r.verdict(kind) is Accepted <==> r.after(kind).cursor == r.cursor + 1,
        r.verdict(kind) == (Outcome::Accepted { complete: true }) <==> !r.is_complete()
            && r.after(kind).is_complete(),
{
}

/// The display has one icon per required kind, in order; an icon is marked
/// done exactly where its index lies before the cursor.
pub proof fn lemma_display_marks(r: RecipeModel, i: int)
    requires
        0 <= i < r.items.len(),
    ensures
        r.display().len() == r.items.len(),
        r.display()[i].kind == r.items[i],
        r.display()[i].done <==> i < r.cursor,
{
}

} // verus!
