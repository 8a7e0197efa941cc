//! The decisions behind the five-button menu: which entry a button press
//! picks, and the tree of labelled choices a menu walks.  Reading the
//! hardware and drawing the menu belong to the surrounding program; the
//! rules of the selection live here.
use vstd::prelude::*;

verus! {

/// The five buttons of the control pad.
#[derive(Debug, Copy, Clone, Eq, PartialEq)]
pub enum Button {
    ButtonA,
    ButtonB,
    ButtonC,
    ButtonD,
    ButtonE,
}

/// A menu of labelled choices: each entry carries a final value or a
/// further menu.
pub struct SelectionTree<T> {
    pub label: String,
    pub value: SelectionTreeValue<T>,
}

/// What choosing an entry yields: a final value, or the entries of the next
/// menu.
pub enum SelectionTreeValue<T> {
    Leaf(T),
    Node(Vec<SelectionTree<T>>),
}

/// The menu slot a button picks: the bottom button picks the first entry,
/// its neighbours the following ones in order.
pub open spec fn spec_button_slot(b: Button) -> int {
    match b {
        Button::ButtonE => 0,
        Button::ButtonD => 1,
        Button::ButtonC => 2,
        Button::ButtonB => 3,
        Button::ButtonA => 4,
    }
}

/// The index of the entry a button press picks among `option_count` shown
/// entries, or `None` when the button's slot lies past them.
pub fn selected_index(b: Button, option_count: usize) -> (r: Option<usize>)
    ensures
        r is Some <==> spec_button_slot(b) < option_count,
        r matches Some(k) ==> k == spec_button_slot(b),
{
    let slot: usize = match b {
        Button::ButtonE => 0,
        Button::ButtonD => 1,
        Button::ButtonC => 2,
        Button::ButtonB => 3,
        Button::ButtonA => 4,
    };
    if slot < option_count {
        Some(slot)
    } else {
        None
    }
}

} // verus!
