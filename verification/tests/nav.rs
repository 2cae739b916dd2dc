use hyprcircl::config::{default_menu_items, MenuItem};
use hyprcircl::nav::{Activation, Navigator, WedgeStyle};
use hyprcircl::theme::{weight_class, WeightClass};

#[test]
fn open_and_close_submenus() {
    let items = default_menu_items();
    let mut nav: Navigator<i32> = Navigator::new(0);
    assert!(nav.at_root());
    assert_eq!(nav.active_items(&items).unwrap().len(), 3);
    nav.hover_to(Some(0));
    assert_eq!(nav.activate(&items, 0, 45), Activation::Opened);
    assert_eq!(nav.stack.len(), 2);
    assert_eq!(nav.stack[0].selected_child_index, Some(0));
    assert_eq!(nav.stack[1].parent_mid_angle, 45);
    assert_eq!(nav.hover, None);
    assert_eq!(nav.active_items(&items).unwrap().len(), 3);
    assert_eq!(nav.wedge_style(0, 0), WedgeStyle::Selected);
    assert_eq!(nav.wedge_style(0, 1), WedgeStyle::Default);
    assert_eq!(nav.wedge_style(1, 1), WedgeStyle::Active);
    nav.hover_to(Some(1));
    assert_eq!(nav.wedge_style(1, 1), WedgeStyle::Hover);
    // Volume opens a third ring; Mute is an action.
    assert_eq!(nav.activate(nav_items(&items, &nav), 2, 90), Activation::Opened);
    let run = nav.activate(nav_items(&items, &nav), 0, 0);
    assert_eq!(
        run,
        Activation::Run { label: "Mute".into(), command: vec!["pamixer".into(), "-t".into()] }
    );
    assert!(nav.back());
    assert!(nav.back());
    assert!(nav.at_root());
    assert_eq!(nav.stack[0].selected_child_index, None);
    assert!(!nav.back());
}

fn nav_items<'a>(items: &'a Vec<MenuItem>, nav: &Navigator<i32>) -> &'a Vec<MenuItem> {
    nav.active_items(items).unwrap()
}

#[test]
fn stale_indices_find_no_items() {
    let items = default_menu_items();
    let mut nav: Navigator<i32> = Navigator::new(0);
    nav.activate(&items, 0, 1);
    let fewer: Vec<MenuItem> = Vec::new();
    assert!(nav.active_items(&fewer).is_none());
    nav.reset(0);
    assert!(nav.at_root());
    assert_eq!(nav.hover, None);
}

#[test]
fn keyboard_hover_moves() {
    let mut nav: Navigator<i32> = Navigator::new(0);
    assert_eq!(nav.enter_index(3), Some(0));
    assert!(nav.cycle_hover(true, 3));
    assert_eq!(nav.hover, Some(1));
    nav.cycle_hover(false, 3);
    nav.cycle_hover(false, 3);
    assert_eq!(nav.hover, Some(2));
    nav.cycle_hover(true, 3);
    assert_eq!(nav.hover, Some(0));
    assert!(!nav.cycle_hover(true, 0));
    assert!(nav.pick(3, 3));
    assert_eq!(nav.hover, Some(2));
    assert!(!nav.pick(4, 3));
    assert!(!nav.pick(0, 3));
    assert_eq!(nav.enter_index(2), None);
    nav.hover_to(Some(7));
    nav.cycle_hover(true, 5);
    assert_eq!(nav.hover, Some(3));
}

#[test]
fn weight_classes() {
    assert_eq!(weight_class(100), WeightClass::Thin);
    assert_eq!(weight_class(600), WeightClass::Semibold);
    assert_eq!(weight_class(700), WeightClass::Bold);
    assert_eq!(weight_class(650), WeightClass::Bold);
    assert_eq!(weight_class(900), WeightClass::Heavy);
}
