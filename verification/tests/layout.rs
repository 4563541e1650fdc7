use rui::constraints::BoxConstraints;
use rui::geometry::{Point, Size};
use rui::widget::container::Container;
use rui::widget::expanded::Expanded;
use rui::widget::flex::{Column, Row};
use rui::widget::label::Label;
use rui::widget::list::List;
use rui::widget::sized_box::SizedBox;
use rui::widget::{LayoutCtx, Widget};

fn label() -> Widget<u32> {
    Widget::Label(Label::new("x"))
}

fn fixed(w: i64, h: i64) -> Widget<u32> {
    Widget::SizedBox(SizedBox::new(Size::new(w, h), label()))
}

#[test]
fn tight_constraints_force_exact_size() {
    let c = BoxConstraints::new().with_tight_constraints(640, 480);
    assert_eq!(c.max_width(), Some(640));
    assert_eq!(c.min_width(), Some(640));
    assert_eq!(c.max_height(), Some(480));
    assert_eq!(c.min_height(), Some(480));
    assert!(c.has_max());
}

#[test]
fn shrunk_reduces_maxima_and_floors_at_zero() {
    let c = BoxConstraints::new().with_max_width(100).with_max_height(30);
    let s = c.shrunk(40, 40);
    assert_eq!(s.max_width(), Some(60));
    assert_eq!(s.max_height(), Some(0));
}

#[test]
fn label_fills_offered_space() {
    let mut w: Widget<u32> = label();
    let c = BoxConstraints::new().with_max_width(80).with_max_height(20);
    let mut ctx = LayoutCtx::new();
    let size = w.layout(&c, &mut ctx);
    assert_eq!(size, Size::new(80, 20));
}

#[test]
fn layout_stays_within_constraints() {
    let mut w: Widget<u32> = Widget::Row(
        Row::new().push(fixed(20, 10)).push(Widget::Expanded(Expanded::new(label()))),
    );
    let c = BoxConstraints::new().with_tight_constraints(200, 50);
    let mut ctx = LayoutCtx::new();
    let size = w.layout(&c, &mut ctx);
    assert!(size.width <= 200 && size.height <= 50);
    assert_eq!(size, Size::new(200, 50));
}

#[test]
fn flex_distribution_keeps_two_to_one_ratio_and_conserves_space() {
    // Fixed children use 50 pixels, spacing three gaps of 5: the
    // remaining 135 split 2:1 is 90 and 45.
    let mut w: Widget<u32> = Widget::Row(
        Row::new()
            .with_spacing(5)
            .push(fixed(20, 10))
            .push(Widget::Expanded(Expanded::new(label()).with_flex(2)))
            .push(fixed(30, 10))
            .push(Widget::Expanded(Expanded::new(label()).with_flex(1))),
    );
    let c = BoxConstraints::new().with_tight_constraints(200, 50);
    let mut ctx = LayoutCtx::new();
    let size = w.layout(&c, &mut ctx);
    assert_eq!(size, Size::new(200, 50));
    match &w {
        Widget::Row(row) => {
            let s1 = row.children[1].size();
            let s3 = row.children[3].size();
            assert_eq!(s1.width, 90);
            assert_eq!(s3.width, 45);
            assert_eq!(s1.width, 2 * s3.width);
            assert_eq!(s1.width + s3.width, 135);
            // Children are placed at the running offsets in insertion
            // order.
            assert_eq!(*row.children[0].position(), Point::new(0, 0));
            assert_eq!(*row.children[1].position(), Point::new(25, 0));
            assert_eq!(*row.children[2].position(), Point::new(120, 0));
            assert_eq!(*row.children[3].position(), Point::new(155, 0));
        },
        _ => panic!("expected a row"),
    }
}

#[test]
fn inflexible_children_keep_their_natural_size() {
    let mut w: Widget<u32> = Widget::Column(
        Column::new().push(fixed(40, 25)).push(Widget::Expanded(Expanded::new(label()))),
    );
    let c = BoxConstraints::new().with_tight_constraints(100, 100);
    let mut ctx = LayoutCtx::new();
    let _ = w.layout(&c, &mut ctx);
    match &w {
        Widget::Column(col) => {
            assert_eq!(*col.children[0].size(), Size::new(40, 25));
            assert_eq!(*col.children[1].size(), Size::new(100, 75));
            assert_eq!(*col.children[1].position(), Point::new(0, 25));
        },
        _ => panic!("expected a column"),
    }
}

#[test]
fn container_round_trip_adds_padding_on_each_side() {
    let mut w: Widget<u32> = Widget::Container(Container::new(fixed(30, 12)).with_padding(7));
    let c = BoxConstraints::new();
    let mut ctx = LayoutCtx::new();
    let size = w.layout(&c, &mut ctx);
    assert_eq!(size, Size::new(30 + 14, 12 + 14));
    match &w {
        Widget::Container(cont) => {
            assert_eq!(*cont.child.position(), Point::new(7, 7));
            assert_eq!(*cont.child.size(), Size::new(30, 12));
        },
        _ => panic!("expected a container"),
    }
}

#[test]
fn container_padding_clamps_negative_values() {
    let cont: Container<u32> = Container::new(label()).with_padding(-5).with_margin(-3);
    assert_eq!(cont.padding, 0);
    assert_eq!(cont.margin, 0);
}

#[test]
fn center_places_child_symmetrically() {
    let mut w: Widget<u32> = Widget::Center(rui::widget::center::Center::new(fixed(10, 10)));
    let c = BoxConstraints::new().with_tight_constraints(100, 60);
    let mut ctx = LayoutCtx::new();
    let size = w.layout(&c, &mut ctx);
    assert_eq!(size, Size::new(100, 60));
    match &w {
        Widget::Center(cen) => {
            assert_eq!(*cen.child.position(), Point::new(45, 25));
            assert_eq!(*cen.child.size(), Size::new(10, 10));
        },
        _ => panic!("expected a center"),
    }
}

#[test]
fn sized_box_ignores_incoming_constraints() {
    let mut w: Widget<u32> = fixed(25, 35);
    let c = BoxConstraints::new().with_tight_constraints(300, 300);
    let mut ctx = LayoutCtx::new();
    let size = w.layout(&c, &mut ctx);
    assert_eq!(size, Size::new(25, 35));
}

#[test]
fn list_rebuild_is_deterministic_in_index_order() {
    let list: List<u32> = List::new().with_item_size(20).with_spacing(3).with_builder(
        5,
        |i| Widget::Label(Label::new(&format!("{i}"))),
    );
    let mut w = Widget::List(list);
    let c = BoxConstraints::new().with_tight_constraints(200, 300);
    for _ in 0..2 {
        let mut ctx = LayoutCtx::new();
        let size = w.layout(&c, &mut ctx);
        assert_eq!(size, Size::new(200, 300));
        match &w {
            Widget::List(l) => {
                assert_eq!(l.children.len(), 5);
                for i in 0..5 {
                    assert_eq!(*l.children[i].position(), Point::new(0, (i as i64) * 23));
                    assert_eq!(l.children[i].size().height, 20);
                    match &*l.children[i].widget {
                        Widget::Label(lbl) => assert_eq!(lbl.text, format!("{i}")),
                        _ => panic!("expected a label"),
                    }
                }
            },
            _ => panic!("expected a list"),
        }
    }
}

#[test]
fn an_empty_row_shrinks_to_nothing() {
    let mut w: Widget<u32> = Widget::Row(Row::new());
    let c = BoxConstraints::new().with_tight_constraints(100, 100);
    let mut ctx = LayoutCtx::new();
    let size = w.layout(&c, &mut ctx);
    assert_eq!(size, Size::new(0, 0));
}

#[test]
fn a_button_reports_its_natural_text_extent_when_unconstrained() {
    let mut w: Widget<u32> = Widget::Button(rui::widget::button::TextButton::new("go", 18));
    let c = BoxConstraints::new();
    let mut ctx = LayoutCtx::new();
    let size = w.layout(&c, &mut ctx);
    // Two bytes of text at three fifths of an em each, one and a half
    // ems tall.
    assert_eq!(size, Size::new(21, 27));
}

#[test]
fn dimensions_clamp_at_the_coordinate_ceiling() {
    let cont: Container<u32> = Container::new(label()).with_padding(i64::MAX);
    assert_eq!(cont.padding, rui::geometry::MAX_DIM);
}

#[test]
fn a_textbox_keeps_its_height_under_the_offered_maximum() {
    let mut w: Widget<u32> = Widget::TextBox(rui::widget::text_editor::TextBox::new("hint"));
    let c = BoxConstraints::new().with_max_width(100).with_max_height(10);
    let mut ctx = LayoutCtx::new();
    let size = w.layout(&c, &mut ctx);
    assert_eq!(size, Size::new(100, 10));
    let c2 = BoxConstraints::new().with_max_width(100).with_max_height(500);
    let size2 = w.layout(&c2, &mut ctx);
    assert_eq!(size2, Size::new(100, 27));
}

#[test]
fn measuring_predicts_layout_without_touching_the_tree() {
    let w: Widget<u32> = Widget::Row(
        Row::new().push(fixed(20, 10)).push(Widget::Expanded(Expanded::new(label()))),
    );
    let c = BoxConstraints::new().with_tight_constraints(200, 50);
    assert!(w.accepts_layout(&c));
    assert_eq!(w.measure_of(&c), Size::new(200, 50));
    // A flex container offered unbounded space is rejected up front.
    assert!(!w.accepts_layout(&BoxConstraints::new()));
}
