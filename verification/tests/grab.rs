use yaxum::action::Action;
use yaxum::area::Area;
use yaxum::event::Button;
use yaxum::grab::Grab;

fn grab_with(button: Button) -> Grab {
    Grab::new(button, 9, Area::new(100, 200, 300, 400), 500, 600)
}

#[test]
fn first_button_moves_the_window() {
    let grab = grab_with(Button::Button1);
    assert!(grab.drags(510, 580));
    assert_eq!(grab.drag(510, 580), vec![Action::Mov { window: 9, x: 110, y: 180 }]);
}

#[test]
fn third_button_resizes_the_window() {
    let grab = grab_with(Button::Button3);
    assert_eq!(grab.drag(510, 580), vec![Action::Resize { window: 9, width: 310, height: 380 }]);
}

#[test]
fn other_buttons_do_nothing() {
    assert_eq!(grab_with(Button::Button2).drag(510, 580), vec![]);
    assert_eq!(grab_with(Button::Button4).drag(510, 580), vec![]);
    assert_eq!(grab_with(Button::Button5).drag(510, 580), vec![]);
}

#[test]
fn dragging_back_leads_to_the_start() {
    assert_eq!(
        grab_with(Button::Button1).drag(500, 600),
        vec![Action::Mov { window: 9, x: 100, y: 200 }]
    );
    assert_eq!(
        grab_with(Button::Button3).drag(500, 600),
        vec![Action::Resize { window: 9, width: 300, height: 400 }]
    );
}

#[test]
fn moving_past_the_edge_wraps() {
    let grab = grab_with(Button::Button1);
    assert_eq!(grab.drag(390, 600), vec![Action::Mov { window: 9, x: 65526, y: 200 }]);
}

#[test]
fn drag_has_to_stay_in_signed_range() {
    let grab = grab_with(Button::Button1);
    assert!(!grab.drags(32768, 600));
    assert!(grab.drags(32767, 600));
    assert!(grab.drags(65535, 600));
    assert_eq!(grab.drag(65535, 600), vec![Action::Mov { window: 9, x: 65135, y: 200 }]);
    let far = Grab::new(Button::Button1, 9, Area::new(32000, 0, 1, 1), 0, 0);
    assert!(far.drags(767, 0));
    assert!(!far.drags(768, 0));
    let middle = Grab::new(Button::Button2, 9, Area::new(32000, 0, 1, 1), 0, 0);
    assert!(middle.drags(768, 0));
}
