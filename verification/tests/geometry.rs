//! Tests for the rectangle geometry and the styling types.

use tuit::style::{Ansi4, Colour, Style};
use tuit::terminal::{Cell, Rectangle, UpdateResult};
use tuit::widgets::Direction;

#[test]
fn rectangle_contains_its_corners() {
    let r = Rectangle::new((3, 4), (9, 11));
    assert!(r.contains(r.left_top()));
    assert!(r.contains(r.right_bottom()));

    let zero = Rectangle::new((5, 5), (5, 5));
    assert!(zero.contains((5, 5)));
    assert_eq!(zero.width(), 0);
    assert_eq!(zero.height(), 0);
}

#[test]
fn rectangle_normalizes_corners() {
    let r = Rectangle::new((9, 2), (3, 8));
    assert_eq!(r.left(), 3);
    assert_eq!(r.top(), 2);
    assert_eq!(r.right(), 9);
    assert_eq!(r.bottom(), 8);
    assert_eq!(r.dimensions(), (6, 6));
    assert_eq!(r.left_bottom(), (3, 8));
    assert_eq!(r.right_top(), (9, 2));
    assert_eq!(r.area(), 36);
    assert_eq!(r.center(), (6, 5));
}

#[test]
fn rectangle_edge_moves_swap_when_crossing() {
    let rect = Rectangle::of_size((5, 5)).at((40, 40));
    let trimmed = rect.trim_right(20).unwrap();
    assert_eq!(trimmed.right(), 40, "the former left is the new right side");
    assert_eq!(trimmed.left(), 25, "left and right swap when the shift crosses");

    let moved = Rectangle::of_size((10, 10)).at((5, 0)).right_to(3);
    assert_eq!(moved.left(), 3, "the right edge crossed the left edge, so they swap");
    assert_eq!(moved.right(), 5);

    let down = Rectangle::of_size((4, 4)).edge_to(9, Direction::Down);
    assert_eq!(down.bottom(), 9);
}

#[test]
fn extend_then_trim_round_trips() {
    let r = Rectangle::new((4, 4), (10, 12));
    let grown = r.extend(3).unwrap();
    assert_eq!(grown, Rectangle::new((1, 1), (13, 15)));
    let back = grown.trim_x(3).unwrap().trim_y(3).unwrap();
    assert_eq!(back, r);
}

#[test]
fn trims_fail_exactly_on_underflow() {
    let r = Rectangle::new((1, 1), (5, 5));
    assert!(r.extend(2).is_none(), "the left edge would cross zero");
    assert!(r.extend(1).is_some());
    assert!(r.trim_left(-2).is_none());
    assert!(r.trim_top(-2).is_none());
    assert!(r.trim_right(6).is_none());
    assert!(r.offset((-2, 0)).is_none());
    assert_eq!(r.offset((2, 3)).unwrap(), Rectangle::new((3, 4), (7, 8)));
}

#[test]
fn index_into_inverts_the_flattening() {
    let rect = Rectangle::of_size((20, 20));
    assert_eq!(rect.index_into(10), Some((10, 0)));
    assert_eq!(rect.index_into(25), Some((5, 1)));
    assert_eq!(rect.index_into(20), Some((0, 1)));
    assert_eq!(rect.index_into(399), Some((19, 19)));
    assert_eq!(rect.index_into(400), None, "the area itself is already out of bounds");
    assert_eq!(rect.index_into(401), None);
    assert_eq!(Rectangle::of_size((0, 5)).index_into(0), None);
}

#[test]
fn ranges_span_the_rectangle() {
    let rect = Rectangle::of_size((20, 20)).at((40, 40));
    assert!(rect.range_x().contains(&57));
    assert!(rect.range_y().contains(&60));
    assert!(!rect.range_x().contains(&61));
}

#[test]
fn style_builders_set_their_fields() {
    let style = Style::new()
        .fg_ansi4(Ansi4::Green)
        .bg_ansi4(Ansi4::Blue)
        .bold()
        .underlined()
        .inverted()
        .strikethrough()
        .italic();
    assert_eq!(style.fg_colour, Some(Colour::Ansi16(Ansi4::Green)));
    assert_eq!(style.bg_colour, Some(Colour::Ansi16(Ansi4::Blue)));
    assert_eq!(style.font_weight, Some(700));
    assert_eq!(style.underline, Some(true));
    assert_eq!(style.invert, Some(true));
    assert_eq!(style.strikethrough, Some(true));
    assert_eq!(style.italic, Some(true));

    assert_eq!(Style::new().regular().font_weight, Some(400));
    assert_eq!(Style::new().thin().font_weight, Some(200));
    assert_eq!(Style::new().fg_luma8(9).fg_colour, Some(Colour::Luma8(9)));
    assert_eq!(Style::new().bg_rgb24(1, 2, 3).bg_colour, Some(Colour::Rgb24(1, 2, 3)));
    assert_eq!(Style::new().fg_default().fg_colour, Some(Colour::TerminalDefault));
    assert_eq!(Style::new().bg_default().bg_colour, Some(Colour::TerminalDefault));
    assert_eq!(Style::new().not_underlined().underline, Some(false));
    assert_eq!(Style::new().not_inverted().invert, Some(false));
    assert_eq!(Style::new().not_strikethrough().strikethrough, Some(false));
    assert_eq!(Style::new().upright().italic, Some(false));
    assert_eq!(Style::default(), Style::new());
}

#[test]
fn inherits_fills_only_unset_fields() {
    let full = Style::new().fg_ansi8(13).bg_ansi8(255).font_weight(30).underlined().inverted();
    let partial = Style::new().fg_ansi8(12).bg_ansi8(128);
    let merged = partial.inherits(full);
    assert_eq!(
        merged,
        Style::new().fg_ansi8(12).bg_ansi8(128).font_weight(30).underlined().inverted()
    );
}

#[test]
fn cell_default_is_a_blank_space() {
    let cell = Cell::default();
    assert_eq!(cell.character, ' ');
    assert_eq!(cell.style, Style::new());
    assert_eq!(Cell::new('q').character, 'q');
}

#[test]
fn update_results_escalate_in_order() {
    assert_eq!(UpdateResult::NoEvent.escalate(UpdateResult::NoRedraw), UpdateResult::NoRedraw);
    assert_eq!(
        UpdateResult::LifecycleEnd.escalate(UpdateResult::Interacted),
        UpdateResult::LifecycleEnd
    );
    assert_eq!(
        UpdateResult::NoRedraw.deescalate(UpdateResult::Interacted),
        UpdateResult::NoRedraw
    );
    assert_eq!(
        UpdateResult::LifecycleEnd.deescalate(UpdateResult::NoEvent),
        UpdateResult::NoEvent
    );
}

#[test]
fn directions_enumerate_once_each() {
    let all = Direction::enumerate();
    assert_eq!(all, vec![Direction::Left, Direction::Right, Direction::Down, Direction::Up]);
}
