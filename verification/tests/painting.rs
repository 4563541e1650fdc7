use rui::display::{DrawCmd, Paint};
use rui::geometry::{Point, Size};
use rui::queue::Queue;
use rui::style::{Color, StyleContext, Theme};
use rui::user_interface::UserInterface;
use rui::widget::button::{ButtonStyle, TextButton};
use rui::widget::label::Label;
use rui::widget::popup::PopupMenu;
use rui::widget::sized_box::SizedBox;
use rui::widget::Widget;

#[test]
fn themes_carry_their_documented_colors() {
    let light = Theme::default_light();
    assert_eq!(light.background.argb, 0xFFFFFFFF);
    assert_eq!(light.primary.argb, 0xFF766AC8);
    assert_eq!(light.secondary.argb, 0xFF73C8A6);
    assert_eq!(light.button.rounding, 4);
    assert_eq!(light.font.size, 18);
    let dark = Theme::default_dark();
    assert_eq!(dark.background.argb, 0xFF333333);
    assert_eq!(dark.primary.argb, 0xFF1E38A1);
}

#[test]
fn style_context_resolves_both_built_in_themes() {
    let ctx = StyleContext::new();
    assert_eq!(ctx.theme("light").unwrap().background.argb, 0xFFFFFFFF);
    assert_eq!(ctx.theme("dark").unwrap().background.argb, 0xFF333333);
    assert!(ctx.theme("neon").is_none());
}

#[test]
fn with_a_replaces_only_the_alpha_byte() {
    let c = Color::new(0xFF766AC8);
    assert_eq!(c.with_a(0).argb, 0x00766AC8);
    assert_eq!(c.with_a(100).argb, 0x64766AC8);
}

#[test]
fn a_frame_starts_by_clearing_to_the_theme_background() {
    let tree: Widget<u32> = Widget::SizedBox(
        SizedBox::new(Size::new(50, 20), Widget::Label(Label::new("hi"))),
    );
    let mut ui: UserInterface<u32> = UserInterface::new(tree, "light");
    ui.resize(100, 60);
    let cmds = ui.paint();
    assert!(cmds.len() >= 2);
    match &cmds[0] {
        DrawCmd::Clear(color) => assert_eq!(color.argb, 0xFFFFFFFF),
        _ => panic!("expected the frame to start with a clear"),
    }
    match &cmds[1] {
        DrawCmd::Save => (),
        _ => panic!("expected the root slot to save the canvas state"),
    }
    match &cmds.last().unwrap() {
        DrawCmd::Restore => (),
        _ => panic!("expected the root slot to restore the canvas state"),
    }
}

#[test]
fn a_filled_button_paints_its_plate_then_its_text() {
    let b: TextButton<u32> = TextButton::new("go", 18).style(ButtonStyle::Fill);
    let theme = Theme::default_light();
    let mut out: Vec<DrawCmd> = Vec::new();
    b.paint(&theme, Size::new(40, 20), &mut out);
    assert_eq!(out.len(), 2);
    match &out[0] {
        DrawCmd::RoundedRect(rect, rx, ry, paint) => {
            assert_eq!(rect.size, Size::new(40, 20));
            assert_eq!((*rx, *ry), (4, 4));
            assert_eq!(paint.color.argb, theme.primary.with_a(200).argb);
        },
        _ => panic!("expected the plate first"),
    }
    match &out[1] {
        DrawCmd::Text(_, text, font, _) => {
            assert_eq!(text, "go");
            assert_eq!(font.family, "Monospace");
        },
        _ => panic!("expected the text last"),
    }
}

#[test]
fn paint_values_build_plainly() {
    let p = Paint::new(Color::new(0xFF000000)).with_stroke(true);
    assert!(p.stroke);
    assert_eq!(p.color.argb, 0xFF000000);
}

#[test]
fn queue_hands_items_back_in_arrival_order() {
    let mut q: Queue<u32> = Queue::new();
    q.push(1);
    q.push(2);
    q.push(3);
    assert_eq!(q.pop(), Some(1));
    q.push(4);
    assert_eq!(q.pop(), Some(2));
    assert_eq!(q.pop(), Some(3));
    assert_eq!(q.pop(), Some(4));
    assert_eq!(q.pop(), None);
}

#[test]
fn queue_pop_all_drains_everything() {
    let mut q: Queue<u32> = Queue::new();
    q.push(5);
    q.push(6);
    let mut seen: Vec<u32> = Vec::new();
    q.pop_all(|v| seen.push(v));
    assert_eq!(seen, vec![5, 6]);
    assert_eq!(q.pop(), None);
}

#[test]
fn popup_menus_report_their_entries() {
    let menu = PopupMenu::new(0, "file").with_item(1, "open").with_item(2, "save");
    assert!(menu.has_sub_menu_items());
    assert_eq!(menu.items.len(), 2);
    assert_eq!(menu.items[1].name, "save");
    let empty = PopupMenu::new(3, "edit");
    assert!(!empty.has_sub_menu_items());
    let nested = PopupMenu::new(4, "view").with_sub_menu(menu);
    assert!(nested.has_sub_menu_items());
}

#[test]
fn hit_test_is_closed_on_the_near_edge_and_open_on_the_far_edge() {
    let mut slot: rui::widget::ChildSlot<u32> =
        rui::widget::ChildSlot::new(Widget::Label(Label::new("x")));
    slot.set_position(&Point::new(10, 10));
    slot.set_size(&Size::new(20, 20));
    assert!(slot.hit_test(&Point::new(10, 10)));
    assert!(slot.hit_test(&Point::new(29, 29)));
    assert!(!slot.hit_test(&Point::new(30, 10)));
    assert!(!slot.hit_test(&Point::new(9, 10)));
}

#[test]
fn paint_ctx_exposes_the_local_rectangle() {
    let ctx = rui::widget::PaintCtx::new(Size::new(30, 40));
    assert_eq!(*ctx.size(), Size::new(30, 40));
    let rect = ctx.rect();
    assert_eq!(rect.origin, Point::new(0, 0));
    assert_eq!(rect.size, Size::new(30, 40));
}

#[test]
fn popup_requests_carry_their_menu() {
    let menu = PopupMenu::new(1, "edit").with_item(2, "undo");
    let request: rui::widget::popup::PopupRequest<u32> =
        rui::widget::popup::PopupRequest::new(menu);
    assert_eq!(request.menu.id, 1);
    assert!(request.menu.has_sub_menu_items());
    let widget = rui::widget::popup::PopupMenuWidget::new(request.menu);
    assert!(widget.active);
}

#[test]
fn a_label_paints_in_the_theme_label_color() {
    let theme = Theme::default_light();
    let mut out: Vec<DrawCmd> = Vec::new();
    Label::new("hi").paint(&theme, Size::new(40, 20), &mut out);
    assert_eq!(out.len(), 1);
    match &out[0] {
        DrawCmd::Text(_, text, _, paint) => {
            assert_eq!(text, "hi");
            assert_eq!(paint.color.argb, theme.label.text.argb);
        }
        _ => panic!("expected the label's text"),
    }
}
