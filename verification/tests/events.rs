use rui::geometry::{Point, Size};
use rui::user_interface::UserInterface;
use rui::widget::button::{ButtonState, TextButton};
use rui::widget::event::{Event, Key, KeyEvent, KeyInput, MouseEvent};
use rui::widget::flex::Column;
use rui::widget::label::Label;
use rui::widget::sized_box::SizedBox;
use rui::widget::slider::Slider;
use rui::widget::switch::Switch;
use rui::widget::text_editor::TextBox;
use rui::widget::{ChangeValue, ChildSlot, CursorIcon, EventCtx, Widget};
use rui::window_event;

fn raw_at(x: i64, y: i64) -> window_event::MouseEvent {
    window_event::MouseEvent::new(0, &Point::new(x, y), &Point::new(x, y))
}

fn move_at(x: i64, y: i64) -> Event {
    Event::Mouse(MouseEvent::MouseMove(raw_at(x, y)))
}

fn down_at(x: i64, y: i64) -> Event {
    Event::Mouse(MouseEvent::MouseDown(raw_at(x, y)))
}

fn up_at(x: i64, y: i64) -> Event {
    Event::Mouse(MouseEvent::MouseUp(raw_at(x, y)))
}

fn button_slot() -> ChildSlot<u32> {
    let mut slot = ChildSlot::new(Widget::Button(TextButton::new("ok", 18)));
    slot.set_position(&Point::new(10, 10));
    slot.set_size(&Size::new(40, 20));
    slot
}

#[test]
fn hover_enter_fires_once_and_leave_fires_once() {
    let mut slot = button_slot();
    let mut ctx: EventCtx<u32> = EventCtx::new(Size::new(100, 100));

    assert!(!slot.properties.has_mouse);
    slot.event(&move_at(20, 15), &mut ctx);
    assert!(slot.properties.has_mouse);
    // A second movement inside keeps the flag: no second enter edge.
    slot.event(&move_at(25, 15), &mut ctx);
    assert!(slot.properties.has_mouse);

    // Leaving drops the flag exactly once.
    slot.event(&move_at(90, 90), &mut ctx);
    assert!(!slot.properties.has_mouse);
    slot.event(&move_at(95, 95), &mut ctx);
    assert!(!slot.properties.has_mouse);
}

#[test]
fn mouse_up_outside_heals_stale_hover() {
    let mut slot = button_slot();
    let mut ctx: EventCtx<u32> = EventCtx::new(Size::new(100, 100));
    slot.event(&move_at(20, 15), &mut ctx);
    assert!(slot.properties.has_mouse);
    slot.event(&up_at(90, 90), &mut ctx);
    assert!(!slot.properties.has_mouse);
}

#[test]
fn button_tracks_pointer_and_publishes_on_click() {
    let mut b: TextButton<u32> = TextButton::new("go", 18).on_click(7);
    let mut ctx: EventCtx<u32> = EventCtx::new(Size::new(40, 20));
    assert_eq!(b.state, ButtonState::Inactive);
    assert!(b.event(&move_at(1, 1), &mut ctx));
    assert_eq!(b.state, ButtonState::Hover);
    assert!(b.event(&down_at(1, 1), &mut ctx));
    assert_eq!(b.state, ButtonState::Active);
    assert!(b.event(&up_at(1, 1), &mut ctx));
    assert_eq!(b.state, ButtonState::Inactive);
    assert_eq!(ctx.messages, vec![7]);
}

#[test]
fn event_short_circuits_at_the_consuming_child() {
    let column: Widget<u32> = Widget::Column(
        Column::new()
            .push(Widget::SizedBox(
                SizedBox::new(
                    Size::new(60, 20),
                    Widget::Button(TextButton::new("a", 18).on_click(10)),
                ),
            ))
            .push(Widget::SizedBox(
                SizedBox::new(
                    Size::new(60, 20),
                    Widget::Button(TextButton::new("b", 18).on_click(20)),
                ),
            ))
            .push(Widget::SizedBox(
                SizedBox::new(
                    Size::new(60, 20),
                    Widget::Button(TextButton::new("c", 18).on_click(30)),
                ),
            )),
    );
    let mut ui: UserInterface<u32> = UserInterface::new(column, "light");
    ui.resize(100, 60);

    // A press inside the second button's bounds.
    let outcome = ui.mouse_down(&raw_at(10, 30));
    assert!(outcome.consumed);
    // Slot ids are assigned in a depth-first walk: the root column is 0,
    // then each sized box and the button inside it.
    assert_eq!(outcome.consumer, Some(4));

    let state_of = |w: &Widget<u32>, i: usize| -> ButtonState {
        match w {
            Widget::Column(col) => match &*col.children[i].widget {
                Widget::SizedBox(sb) => match &*sb.child.widget {
                    Widget::Button(b) => b.state,
                    _ => panic!("expected a button"),
                },
                _ => panic!("expected a sized box"),
            },
            _ => panic!("expected a column"),
        }
    };
    // Only the second button observed the press.
    assert_eq!(state_of(&ui.root.widget, 0), ButtonState::Inactive);
    assert_eq!(state_of(&ui.root.widget, 1), ButtonState::Active);
    assert_eq!(state_of(&ui.root.widget, 2), ButtonState::Inactive);

    // Releasing there delivers only the second button's message.
    let release = ui.mouse_up(&raw_at(10, 30));
    assert!(release.consumed);
    assert_eq!(release.messages, vec![20]);
}

#[test]
fn mouse_moved_tracks_the_top_level_consumer() {
    let column: Widget<u32> = Widget::Column(
        Column::new().push(Widget::SizedBox(
            SizedBox::new(Size::new(60, 20), Widget::Button(TextButton::new("a", 18))),
        )),
    );
    let mut ui: UserInterface<u32> = UserInterface::new(column, "light");
    ui.resize(100, 60);
    let outcome = ui.mouse_moved(&raw_at(10, 10));
    assert_eq!(outcome.consumer, ui.mouse_move_consumer);
    assert!(outcome.consumer.is_some());
    let outcome2 = ui.mouse_moved(&raw_at(90, 50));
    assert_eq!(outcome2.consumer, None);
    assert_eq!(ui.mouse_move_consumer, None);
}

#[test]
fn switch_toggles_on_press_and_reports_the_value() {
    let mut s = Switch::new().value_changed(3);
    let mut ctx: EventCtx<u32> = EventCtx::new(Size::new(40, 20));
    assert!(!s.active);
    assert!(s.event(&down_at(1, 1), &mut ctx));
    assert!(s.active);
    assert_eq!(ctx.changes.len(), 1);
    assert_eq!(ctx.changes[0].tag, 3);
    match ctx.changes[0].value {
        ChangeValue::Toggled(v) => assert!(v),
        _ => panic!("expected a toggle"),
    }
    assert!(s.event(&down_at(1, 1), &mut ctx));
    assert!(!s.active);
}

#[test]
fn slider_maps_the_track_position_onto_its_range() {
    let mut s = Slider::new(0, 100, 0, false).value_changed(9);
    let mut ctx: EventCtx<u32> = EventCtx::new(Size::new(200, 20));
    assert!(s.event(&down_at(50, 10), &mut ctx));
    assert_eq!(s.value, 25);
    assert_eq!(s.last_position, 50);
    assert_eq!(ctx.changes.len(), 1);
    assert_eq!(ctx.changes[0].tag, 9);
    match ctx.changes[0].value {
        ChangeValue::Slid(v) => assert_eq!(v, 25),
        _ => panic!("expected a slide"),
    }
    // Dragging past the end of the track clamps to the maximum.
    assert!(s.event(&Event::Mouse(MouseEvent::MouseDrag(raw_at(500, 10))), &mut ctx));
    assert_eq!(s.value, 100);
    assert_eq!(s.last_position, 200);
}

#[test]
fn slider_set_value_clamps_into_the_range() {
    let mut s = Slider::new(-10, 10, 0, true);
    s.set_value(25);
    assert_eq!(s.value, 10);
    s.set_value(-25);
    assert_eq!(s.value, -10);
}

#[test]
fn textbox_edit_round_trip() {
    let mut tb = TextBox::new("type here");
    let mut ctx: EventCtx<u32> = EventCtx::new(Size::new(100, 27));
    assert!(tb.event(&Event::Key(KeyEvent::Char('H')), &mut ctx));
    assert!(tb.event(&Event::Key(KeyEvent::Char('i')), &mut ctx));
    assert_eq!(tb.state.text, vec!['H', 'i']);
    assert_eq!(tb.state.caret_position, 2);
    assert!(tb.event(
        &Event::Key(KeyEvent::Input(KeyInput { key: Key::Backspace, pressed: true })),
        &mut ctx,
    ));
    assert_eq!(tb.state.text, vec!['H']);
    assert_eq!(tb.state.caret_position, 1);
}

#[test]
fn textbox_caret_clamps_at_both_ends() {
    let mut tb = TextBox::new("");
    let mut ctx: EventCtx<u32> = EventCtx::new(Size::new(100, 27));
    let left = Event::Key(KeyEvent::Input(KeyInput { key: Key::Left, pressed: true }));
    let right = Event::Key(KeyEvent::Input(KeyInput { key: Key::Right, pressed: true }));
    let backspace = Event::Key(KeyEvent::Input(KeyInput { key: Key::Backspace, pressed: true }));
    // At the start of empty text nothing underflows.
    assert!(tb.event(&left, &mut ctx));
    assert!(tb.event(&backspace, &mut ctx));
    assert_eq!(tb.state.caret_position, 0);
    assert!(tb.event(&Event::Key(KeyEvent::Char('x')), &mut ctx));
    assert!(tb.event(&right, &mut ctx));
    assert_eq!(tb.state.caret_position, 1);
}

#[test]
fn textbox_commits_its_content_on_enter() {
    let mut tb = TextBox::new("").on_commit(5);
    let mut ctx: EventCtx<u32> = EventCtx::new(Size::new(100, 27));
    tb.event(&Event::Key(KeyEvent::Char('o')), &mut ctx);
    tb.event(&Event::Key(KeyEvent::Char('k')), &mut ctx);
    tb.event(
        &Event::Key(KeyEvent::Input(KeyInput { key: Key::Enter, pressed: true })),
        &mut ctx,
    );
    assert_eq!(ctx.changes.len(), 1);
    assert_eq!(ctx.changes[0].tag, 5);
    match &ctx.changes[0].value {
        ChangeValue::Committed(text) => assert_eq!(text, &vec!['o', 'k']),
        _ => panic!("expected a commit"),
    }
}

#[test]
fn textbox_requests_the_text_cursor_under_the_pointer() {
    let mut tb = TextBox::new("");
    let mut ctx: EventCtx<u32> = EventCtx::new(Size::new(100, 27));
    assert!(tb.event(&move_at(5, 5), &mut ctx));
    assert_eq!(ctx.cursor, CursorIcon::Text);
    assert!(tb.event(&Event::Mouse(MouseEvent::MouseLeave(raw_at(200, 5))), &mut ctx));
    assert_eq!(ctx.cursor, CursorIcon::Arrow);
}

#[test]
fn label_never_consumes_events() {
    let mut w: Widget<u32> = Widget::Label(Label::new("text"));
    let mut ctx: EventCtx<u32> = EventCtx::new(Size::new(100, 27));
    assert!(!w.event(&down_at(1, 1), &mut ctx));
    assert!(!w.event(&Event::Key(KeyEvent::Char('a')), &mut ctx));
}

#[test]
fn raw_event_translation_and_modifiers() {
    let e = window_event::MouseEvent::new_with_delta(
        rui::window_event::MODIFIER_CONTROL | rui::window_event::MODIFIER_SHIFT,
        &Point::new(30, 40),
        &Point::new(30, 40),
        &Point::new(1, 2),
    );
    assert!(e.is_control_down());
    assert!(e.is_shift_down());
    assert!(!e.is_right_mouse());
    let local = e.to_local(&Point::new(10, 15));
    assert_eq!(*local.local_position(), Point::new(20, 25));
    assert_eq!(*local.global_position(), Point::new(30, 40));
    assert_eq!(*local.delta_position(), Point::new(1, 2));
}

#[test]
fn a_discrete_slider_rounds_to_the_nearest_value() {
    // At three quarters of the way to 1 on a 0..=3 range, a continuous
    // slider floors to 0 while a discrete one rounds up to 1.
    let mut continuous = Slider::new(0, 3, 0, false);
    let mut discrete = Slider::new(0, 3, 0, true);
    let mut ctx: EventCtx<u32> = EventCtx::new(Size::new(200, 20));
    assert!(continuous.event(&down_at(50, 10), &mut ctx));
    assert_eq!(continuous.value, 0);
    assert!(discrete.event(&down_at(50, 10), &mut ctx));
    assert_eq!(discrete.value, 1);
}
