//! The button pad's menu-selection decisions.
use rust_cycle::ui::selected_index;
use rust_cycle::ui::Button;
use rust_cycle::ui::SelectionTree;
use rust_cycle::ui::SelectionTreeValue;

#[test]
fn buttons_pick_menu_entries_bottom_first() {
    assert_eq!(Some(0), selected_index(Button::ButtonE, 3));
    assert_eq!(Some(1), selected_index(Button::ButtonD, 3));
    assert_eq!(Some(2), selected_index(Button::ButtonC, 3));
    assert_eq!(None, selected_index(Button::ButtonB, 3));
    assert_eq!(None, selected_index(Button::ButtonA, 2));
    assert_eq!(Some(4), selected_index(Button::ButtonA, 5));
}

#[test]
fn a_menu_entry_carries_a_value_or_a_submenu() {
    let tree = SelectionTree {
        label: "Ride".to_string(),
        value: SelectionTreeValue::Node(vec![SelectionTree {
            label: "Intervals".to_string(),
            value: SelectionTreeValue::Leaf(7),
        }]),
    };
    match tree.value {
        SelectionTreeValue::Node(children) => {
            assert_eq!(1, children.len());
            assert_eq!("Intervals", children[0].label);
            match children[0].value {
                SelectionTreeValue::Leaf(v) => assert_eq!(7, v),
                SelectionTreeValue::Node(_) => panic!("expected a leaf"),
            }
        }
        SelectionTreeValue::Leaf(_) => panic!("expected a submenu"),
    }
}
