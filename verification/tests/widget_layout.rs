//! Tests for the widgets and the layout negotiation, including the
//! end-to-end drawing scenarios.

use tuit::errors::Error;
use tuit::style::{Ansi4, Style};
use tuit::terminal::{
    Cell, ConstantSize, KeyState, Metadata, Rectangle, TerminalConst, TerminalMut, UpdateInfo,
    UpdateResult,
};
use tuit::widgets::builtins::{
    Backdrop, Buttons, Centered, CenteredPrompt, CenteredText, Checkbox, Margin, Ruler, Shelved,
    ShrinkWrap, Stacked, Sweeper, Text, Uv, WithLayout,
};
use tuit::widgets::{BoundingBox, Direction, Widget};

fn row_string<T: TerminalConst>(terminal: &T, y: usize, width: usize) -> String {
    let mut out = String::new();
    for x in 0..width {
        out.push(terminal.cell(x, y).unwrap().character);
    }
    out
}

#[test]
fn centered_text_lands_in_the_middle() {
    let terminal: ConstantSize<20, 5> = ConstantSize::new();
    let widget = Text::new("Hi").centered();

    let (terminal, result) = widget.drawn(terminal);
    result.expect("a two-character text fits easily");

    assert_eq!(terminal.cell(9, 2).unwrap().character, 'H');
    assert_eq!(terminal.cell(10, 2).unwrap().character, 'i');
    assert_eq!(terminal.cell(8, 2).unwrap().character, ' ');
    assert_eq!(terminal.cell(11, 2).unwrap().character, ' ');
    assert_eq!(terminal.cell(9, 1).unwrap().character, ' ');
}

#[test]
fn buttons_wrap_at_the_right_edge() {
    let terminal: ConstantSize<8, 3> = ConstantSize::new();
    let labels = ["AAAAA", "BBBBB"];
    let buttons = Buttons::new(&labels);

    let (terminal, result) = buttons.drawn(terminal);
    result.expect("two rows are enough");

    assert_eq!(row_string(&terminal, 0, 8), "AAAAA   ");
    assert_eq!(row_string(&terminal, 1, 8), "BBBBB   ");
}

#[test]
fn buttons_share_a_row_when_they_fit() {
    let terminal: ConstantSize<12, 2> = ConstantSize::new();
    let labels = ["yes", "no"];
    let buttons = Buttons::new(&labels);

    let (terminal, result) = buttons.drawn(terminal);
    result.expect("both fit on one row");
    assert_eq!(row_string(&terminal, 0, 12), "yesno       ");
}

#[test]
fn buttons_truncate_an_oversized_label() {
    let terminal: ConstantSize<4, 2> = ConstantSize::new();
    let labels = ["toolong"];
    let buttons = Buttons::new(&labels);

    let (terminal, result) = buttons.drawn(terminal);
    result.expect("the truncated label takes one row");
    assert_eq!(row_string(&terminal, 0, 4), "tool");
}

#[test]
fn buttons_report_overflow() {
    let terminal: ConstantSize<4, 1> = ConstantSize::new();
    let labels = ["aaa", "bbb"];
    let buttons = Buttons::new(&labels);

    let (_terminal, result) = buttons.drawn(terminal);
    assert_eq!(result, Err(Error::oob()));
}

#[test]
fn buttons_selection_moves() {
    let labels = ["a", "b", "c"];
    let buttons = Buttons::new(&labels);
    assert_eq!(buttons.selected(), None);
    assert_eq!(buttons.select_first().selected(), Some(0));
    assert_eq!(buttons.select_last().selected(), Some(2));
    assert_eq!(buttons.select(1).move_right().selected(), Some(2));
    assert_eq!(buttons.select(2).move_right().selected(), Some(2));
    assert_eq!(buttons.select(1).move_left().selected(), Some(0));
    assert_eq!(buttons.select(0).move_left().selected(), Some(0));
    assert_eq!(buttons.move_right().selected(), Some(2), "no selection moves to the rightmost");
    assert_eq!(buttons.select(1).select_none().selected(), None);
    assert_eq!(buttons.select(7).selected(), None, "an index past the labels changes nothing");
}

#[test]
fn margin_box_stays_inside_the_parent() {
    let parent = Rectangle::of_size((20, 10));
    let text = Text::new("hello");
    let with_margin = Margin::new(text).margin(2);

    let b = with_margin.bounding_box(parent).expect("plenty of space");
    assert!(parent.contains_rect(b));
    assert_eq!(b.dimensions(), (9, 5), "the child box plus two cells on every side");
}

#[test]
fn margin_requests_a_rescale_when_too_fat() {
    let parent = Rectangle::of_size((5, 1));
    let text = Text::new("aaaaaaaaaa");
    let with_margin = Margin::new(text).margin(3);

    match with_margin.bounding_box(parent) {
        Err(Error::RequestRescale { new_width, new_height }) => {
            assert!(new_width > 5 || new_height > 1);
            assert_eq!((new_width, new_height), (11, 7));
        },
        other => panic!("expected a rescale hint, got {other:?}"),
    }
}

#[test]
fn margin_draws_its_child_inset() {
    let terminal: ConstantSize<9, 5> = ConstantSize::new();
    let widget = Text::new("ab").with_margin(1);

    let (terminal, result) = widget.drawn(terminal);
    result.expect("the margin fits");
    assert_eq!(terminal.cell(1, 1).unwrap().character, 'a');
    assert_eq!(terminal.cell(2, 1).unwrap().character, 'b');
    assert_eq!(terminal.cell(0, 0).unwrap().character, ' ');
}

#[test]
fn margin_trades_a_row_for_width() {
    // a three-character text with a one-cell margin wants five columns,
    // one more than the parent has; the negotiation clamps the width and
    // grants a row instead, and the text accepts by wrapping
    let parent = Rectangle::of_size((4, 4));
    let with_margin = Margin::new(Text::new("aaa")).margin(1);

    let b = with_margin.bounding_box(parent).expect("the trade succeeds");
    assert_eq!(b, Rectangle::of_size((4, 4)));
    assert!(parent.contains_rect(b));
}

#[test]
fn centered_text_reports_the_first_missing_row() {
    let terminal: ConstantSize<3, 2> = ConstantSize::new();
    let (_terminal, result) = CenteredText::new("aaaaaaaaaa").drawn(terminal);
    assert_eq!(result, Err(Error::OutOfBoundsCoordinate { x: Some(0), y: Some(2) }));
}

#[test]
fn stacked_heights_add_up() {
    let parent = Rectangle::of_size((20, 20));
    let top = Text::new("aaa");
    let bottom = Text::new("bbbb");
    let stacked = Stacked::new(top, bottom);

    let b = stacked.bounding_box(parent).expect("both fit");
    let top_b = Text::new("aaa").bounding_box(parent).unwrap();
    let bottom_b = Text::new("bbbb").bounding_box(parent).unwrap();
    assert_eq!(b.height(), top_b.height() + bottom_b.height());
    assert_eq!(b.width(), top_b.width().max(bottom_b.width()));
}

#[test]
fn stacked_draws_one_widget_under_the_other() {
    let terminal: ConstantSize<6, 4> = ConstantSize::new();
    let stacked = Text::new("top").on_top_of(Text::new("under"));

    let (terminal, result) = stacked.drawn(terminal);
    result.expect("both rows exist");
    assert_eq!(row_string(&terminal, 0, 6), "top   ");
    assert_eq!(row_string(&terminal, 1, 6), "under ");
}

#[test]
fn shelved_widths_add_up() {
    let parent = Rectangle::of_size((20, 20));
    let shelved = Shelved::new(Text::new("aa"), Text::new("bbb"));

    let b = shelved.bounding_box(parent).expect("both fit");
    assert_eq!(b.width(), 5);
    assert_eq!(b.height(), 1);
}

#[test]
fn shelved_draws_side_by_side() {
    let terminal: ConstantSize<8, 2> = ConstantSize::new();
    let shelved = Text::new("ab").next_to(Text::new("cd"));

    let (terminal, result) = shelved.drawn(terminal);
    result.expect("one row is enough");
    assert_eq!(row_string(&terminal, 0, 8), "abcd    ");
}

#[test]
fn sweeper_clears_every_cell() {
    let mut terminal: ConstantSize<4, 3> = ConstantSize::new();
    terminal.set_cell(2, 2, Cell::new('d'));

    let style = Style::new().bg_ansi4(Ansi4::Red);
    let (terminal, result) = Sweeper::new(style).drawn(terminal);
    result.expect("sweeping cannot fail");

    for y in 0..3 {
        for x in 0..4 {
            let cell = terminal.cell(x, y).unwrap();
            assert_eq!(cell.character, ' ');
            assert_eq!(cell.style, style);
        }
    }
}

#[test]
fn backdrop_paints_behind_its_child() {
    let terminal: ConstantSize<10, 3> = ConstantSize::new();
    let child = Text::new("hey");
    let backdrop = Backdrop::new(&child).of_colour(tuit::style::Colour::Ansi16(Ansi4::Blue));

    let (terminal, result) = backdrop.drawn(terminal);
    result.expect("the child box fits");
    let painted = terminal.cell(0, 0).unwrap();
    assert_eq!(painted.style.bg_colour, Some(tuit::style::Colour::Ansi16(Ansi4::Blue)));
    assert_eq!(terminal.cell(5, 1).unwrap().style.bg_colour, None, "outside the child box");
}

#[test]
fn shrink_wrap_insets_the_area() {
    let parent = Rectangle::of_size((10, 10));
    let wrapped = ShrinkWrap::new(Text::new("x")).shrink(2);
    let b = wrapped.bounding_box(parent).expect("the padding fits");
    assert_eq!(b, Rectangle::new((2, 2), (8, 8)));

    let tiny = Rectangle::of_size((3, 3));
    let too_much = ShrinkWrap::new(Text::new("x")).shrink(4);
    let swapped = too_much.bounding_box(tiny).expect("edges swap instead of underflowing");
    assert_eq!(swapped, tiny, "a padding past the center folds the edges back");

    let offset = Rectangle::new((1, 1), (4, 4));
    let absurd = ShrinkWrap::new(Text::new("x")).shrink(usize::MAX);
    match absurd.bounding_box(offset) {
        Err(Error::RequestRescale { new_width, new_height }) => {
            assert_eq!((new_width, new_height), (usize::MAX, usize::MAX));
        },
        other => panic!("expected a rescale hint, got {other:?}"),
    }
}

#[test]
fn text_reports_the_out_of_bounds_index() {
    let terminal: ConstantSize<1, 3> = ConstantSize::new();
    let (_terminal, result) = Text::new("Hello!").drawn(terminal);
    assert_eq!(result, Err(Error::OutOfBoundsIndex(3)));

    let roomy: ConstantSize<20, 20> = ConstantSize::new();
    let (_roomy, result) = Text::new("Hello!").drawn(roomy);
    assert_eq!(result, Ok(UpdateResult::NoEvent));
}

#[test]
fn text_bounding_box_wraps_at_the_width() {
    let rect = Rectangle::of_size((12, 10));
    let b = Text::new("aaaaaaaaaaaaa").bounding_box(rect).unwrap();
    assert_eq!(b.dimensions(), (12, 2), "thirteen characters wrap onto two rows");

    let capped = Rectangle::of_size((4, 2));
    let c = Text::new("aaaaaaaaaaaaa").bounding_box(capped).unwrap();
    assert_eq!(c.dimensions(), (4, 2), "the height caps at the available rectangle");
}

#[test]
fn checkbox_toggles_and_draws() {
    let terminal: ConstantSize<12, 1> = ConstantSize::new();
    let mut checkbox = Checkbox::new("ok?");

    let result = checkbox.update(UpdateInfo::KeyboardInput(0x28, KeyState::KeyDown), &terminal);
    assert_eq!(result, Ok(UpdateResult::Interacted));
    assert!(checkbox.checked);

    let (terminal, result) = checkbox.drawn(terminal);
    result.expect("the checkbox fits on one row");
    assert_eq!(row_string(&terminal, 0, 12), "[x] ok?     ");

    let unchecked: ConstantSize<12, 1> = ConstantSize::new();
    let (unchecked, result) = checkbox.unchecked().drawn(unchecked);
    result.expect("still fits");
    assert_eq!(row_string(&unchecked, 0, 12), "[ ] ok?     ");
}

#[test]
fn centered_text_ends_on_click_inside() {
    let terminal: ConstantSize<20, 5> = ConstantSize::new();
    let mut widget = CenteredText::new("Hi");

    let inside = UpdateInfo::CellClicked(9, 2, tuit::terminal::MouseButton::LeftClick);
    assert_eq!(widget.update(inside, &terminal), Ok(UpdateResult::LifecycleEnd));

    let outside = UpdateInfo::CellClicked(0, 0, tuit::terminal::MouseButton::LeftClick);
    assert_eq!(widget.update(outside, &terminal), Ok(UpdateResult::NoEvent));

    assert_eq!(widget.update(UpdateInfo::NoInfo, &terminal), Ok(UpdateResult::NoRedraw));
}

#[test]
fn centered_prompt_draws_text_and_buttons() {
    let terminal: ConstantSize<10, 4> = ConstantSize::new();
    let labels = ["ok", "no"];
    let prompt = CenteredPrompt::new("Hey", &labels).select_first();
    assert_eq!(prompt.selected(), Some(0));

    let (terminal, result) = prompt.drawn(terminal);
    result.expect("text and buttons fit");
    assert_eq!(row_string(&terminal, 2, 10), "    Hey   ");
    assert_eq!(row_string(&terminal, 3, 10), "   okno   ", "the button row is centered");
    assert_eq!(
        terminal.cell(3, 3).unwrap().style.underline,
        Some(true),
        "the selected button is underlined"
    );
    assert_eq!(terminal.cell(5, 3).unwrap().style.underline, None);
}

#[test]
fn prompt_rejects_an_oversized_label() {
    let terminal: ConstantSize<4, 4> = ConstantSize::new();
    let labels = ["toolong"];
    let prompt = CenteredPrompt::new("t", &labels);
    let (_terminal, result) = prompt.drawn(terminal);
    assert_eq!(result, Err(Error::Todo), "a label wider than the grid cannot be flowed");
}

#[test]
fn prompt_wraps_buttons_onto_centered_rows() {
    let terminal: ConstantSize<6, 5> = ConstantSize::new();
    let labels = ["aaaa", "bbb"];
    let prompt = CenteredPrompt::new("x", &labels);
    let (terminal, result) = prompt.drawn(terminal);
    result.expect("two button rows fit under the text");
    assert_eq!(row_string(&terminal, 2, 6), "   x  ", "the body text is centered");
    assert_eq!(row_string(&terminal, 3, 6), " aaaa ", "the first button row is centered");
    assert_eq!(row_string(&terminal, 4, 6), " bbb  ", "the wrapped row is centered too");
}

#[test]
fn buttons_leave_wrap_remainders_untouched() {
    let mut terminal: ConstantSize<4, 2> = ConstantSize::new();
    for y in 0..2 {
        for x in 0..4 {
            terminal.set_cell(x, y, Cell::new('.'));
        }
    }
    let labels = ["abc", "de"];
    let (terminal, result) = Buttons::new(&labels).drawn(terminal);
    result.expect("two rows are enough");
    assert_eq!(row_string(&terminal, 0, 4), "abc.", "the wrap remainder keeps its content");
    assert_eq!(row_string(&terminal, 1, 4), "de..");
}

#[test]
fn buttons_cover_only_exactly_full_rows() {
    let full = ["ab", "cd"];
    let buttons = Buttons::new(&full);
    assert!(buttons.completely_covers(Rectangle::of_size((2, 2))), "two exactly full rows");
    assert!(buttons.completely_covers(Rectangle::of_size((2, 1))), "a prefix of the rows");
    assert!(!buttons.completely_covers(Rectangle::of_size((2, 3))), "a row past the flow");

    let ragged = ["abc", "d"];
    let short = Buttons::new(&ragged);
    assert!(!short.completely_covers(Rectangle::of_size((3, 2))), "the second row has a gap");
}

#[test]
fn buttons_update_is_unimplemented() {
    let terminal: ConstantSize<4, 4> = ConstantSize::new();
    let labels = ["a"];
    let mut buttons = Buttons::new(&labels);
    assert_eq!(buttons.update(UpdateInfo::NoInfo, &terminal), Err(Error::Todo));

    let mut prompt = CenteredPrompt::new("t", &labels);
    assert_eq!(prompt.update(UpdateInfo::NoInfo, &terminal), Err(Error::Todo));
}

#[test]
fn ruler_marks_the_bottom_row() {
    let terminal: ConstantSize<5, 3> = ConstantSize::new();
    let ruler = Ruler::new(16, Direction::Down).expect("16 is a valid radix");

    let (terminal, result) = ruler.drawn(terminal);
    result.expect("drawing a ruler cannot fail");
    assert_eq!(row_string(&terminal, 2, 5), "01234");
    assert_eq!(row_string(&terminal, 1, 5), "     ");

    assert!(Ruler::new(1, Direction::Down).is_none());
    assert!(Ruler::new(37, Direction::Up).is_none());
}

#[test]
fn ruler_marks_a_column_modulo_the_radix() {
    let terminal: ConstantSize<3, 5> = ConstantSize::new();
    let ruler = Ruler::new(2, Direction::Left).unwrap();

    let (terminal, result) = ruler.drawn(terminal);
    result.expect("drawing a ruler cannot fail");
    for y in 0..5 {
        let expected = if y % 2 == 0 { '0' } else { '1' };
        assert_eq!(terminal.cell(0, y).unwrap().character, expected);
    }
}

#[test]
fn uv_shades_by_coordinates() {
    let terminal: ConstantSize<4, 2> = ConstantSize::new();
    let (terminal, result) = Uv.drawn(terminal);
    result.expect("the map always draws");

    let cell = terminal.cell(3, 1).unwrap();
    assert_eq!(
        cell.style.bg_colour,
        Some(tuit::style::Colour::Rgb24(191, 0, 127)),
        "red is x scaled by the width, blue is y scaled by the height"
    );
    assert_eq!(
        terminal.cell(0, 0).unwrap().style.bg_colour,
        Some(tuit::style::Colour::Rgb24(0, 0, 0))
    );
}

#[test]
fn centered_respects_disabled_axes() {
    let parent = Rectangle::of_size((10, 10));
    let mut centered = Centered::new(Text::new("ab"));
    centered.centered_y = false;
    let b = centered.bounding_box(parent).unwrap();
    assert_eq!(b.left_top(), (4, 0));

    let covers = Centered::new(Sweeper::new(Style::new()));
    assert!(covers.completely_covers(parent));
    assert!(!Margin::new(Text::new("a")).completely_covers(parent));
}

#[test]
fn clicks_translate_into_view_coordinates() {
    let rect = Rectangle::new((3, 2), (8, 7));
    let click = UpdateInfo::CellClicked(5, 4, tuit::terminal::MouseButton::LeftClick);
    assert_eq!(
        click.mouse_relative_to(rect),
        UpdateInfo::CellClicked(2, 2, tuit::terminal::MouseButton::LeftClick)
    );
    let outside = UpdateInfo::CellClicked(1, 1, tuit::terminal::MouseButton::RightClick);
    assert_eq!(
        outside.mouse_relative_to(rect),
        UpdateInfo::CellClicked(0, 0, tuit::terminal::MouseButton::RightClick),
        "coordinates left of or above the window clamp to zero"
    );
    assert_eq!(UpdateInfo::TerminalResized.mouse_relative_to(rect), UpdateInfo::TerminalResized);
}

#[test]
fn prompt_selection_moves() {
    let labels = ["a", "b"];
    let prompt = CenteredPrompt::new("body", &labels);
    assert_eq!(prompt.select_leftmost().selected(), Some(0));
    assert_eq!(prompt.select_rightmost().selected(), Some(1));
    assert_eq!(prompt.select(0).move_right().selected(), Some(1));
    assert_eq!(prompt.select(1).move_left().selected(), Some(0));
    assert_eq!(prompt.select(1).select_none().selected(), None);
    assert_eq!(prompt.select_first().selected(), Some(0));
    assert_eq!(prompt.select_last().selected(), Some(1));
}

#[test]
fn text_keeps_its_style_when_built() {
    let style = Style::new().bold();
    let text = Text::new("t").styled(style);
    assert_eq!(text.style, style);
    let centered = CenteredText::new("t").style(style);
    assert_eq!(centered.style, style);
    let boxed = Checkbox::new("t").checked();
    assert!(boxed.checked);
}

#[test]
fn completely_covers_follows_the_character_count() {
    let rect = Rectangle::of_size((2, 2));
    assert!(Text::new("abcd").completely_covers(rect));
    assert!(!Text::new("abc").completely_covers(rect));
    assert!(CenteredText::new("abcd").completely_covers(rect));
    let terminal: ConstantSize<2, 2> = ConstantSize::new();
    assert!(Text::new("abcd").covered_in(&terminal));
}
