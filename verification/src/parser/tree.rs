//! What the parser reads before it builds a model: the declarations of
//! each `fsm` block, in the order in which they stand.

use vstd::prelude::*;
use crate::fsm::{Action, ChoicePoint, State, Timer, Transition};
use crate::parser::grammar::{BlockView, BodyItemView, ItemView};

verus! {

/// One declaration inside a state.
#[derive(Debug)]
pub enum BodyItem {
    /// An action run on entry.
    Entry(Action),
    /// An action run on exit.
    Exit(Action),
    /// A transition handled inside the state.
    Internal(Transition),
}

/// One declaration inside a machine.
#[derive(Debug)]
pub enum Item {
    /// `[*] --> name`: the initial state.
    Initial(String),
    /// A timer.
    Timer(Timer),
    /// A choice point.
    Choice(ChoicePoint),
    /// A state, as far as this declaration describes it.
    State(State),
    /// A transition.
    Transition(Transition),
}

/// One `fsm` block.
#[derive(Debug)]
pub struct Block {
    /// The name of the machine.
    pub name: String,
    /// Its declarations, in source order.
    pub items: Vec<Item>,
}

impl DeepView for BodyItem {
    type V = BodyItemView;

    open spec fn deep_view(&self) -> BodyItemView {
        match self {
            BodyItem::Entry(a) => BodyItemView::Entry(a@),
            BodyItem::Exit(a) => BodyItemView::Exit(a@),
            BodyItem::Internal(t) => BodyItemView::Internal(t@),
        }
    }
}

impl View for BodyItem {
    type V = BodyItemView;

    open spec fn view(&self) -> BodyItemView {
        self.deep_view()
    }
}

impl DeepView for Item {
    type V = ItemView;

    open spec fn deep_view(&self) -> ItemView {
        match self {
            Item::Initial(n) => ItemView::Initial(n@),
            Item::Timer(t) => ItemView::Timer(t@),
            Item::Choice(c) => ItemView::Choice(c@),
            Item::State(s) => ItemView::State(s@),
            Item::Transition(t) => ItemView::Transition(t@),
        }
    }
}

impl View for Item {
    type V = ItemView;

    open spec fn view(&self) -> ItemView {
        self.deep_view()
    }
}

impl DeepView for Block {
    type V = BlockView;

    open spec fn deep_view(&self) -> BlockView {
        BlockView { name: self.name@, items: self.items.deep_view() }
    }
}

impl View for Block {
    type V = BlockView;

    open spec fn view(&self) -> BlockView {
        self.deep_view()
    }
}

} // verus!
